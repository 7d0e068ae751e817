//! WebInspector remote procedure calls: the messages that are sent and those that are received.

use crate::error::{Error, Failure, Result};
use crate::plist_dates;
use crate::property_list;
use crate::property_list::{PlistValue, PlistView};
use crate::text;
use crate::PageType;
use vstd::prelude::*;
#[allow(unused_imports)]
use vstd::string::*;

verus! {

// ---------------------------------------------------------------------------------------------
// Values
// ---------------------------------------------------------------------------------------------

/// An application on the device.
#[derive(Debug)]
pub struct RpcApp {
    pub app_id: String,
    pub app_name: String,
    pub is_proxy: bool,
}

/// A page that an application lists.
#[derive(Debug)]
pub struct RpcPage {
    pub page_id: u32,
    pub page_type: PageType,
    pub connection_id: Option<String>,
    pub title: Option<String>,
    pub url: Option<String>,
}

/// A message from WebInspector.
#[derive(Debug)]
pub enum RpcMessage {
    ReportSetup,
    ReportConnectedApplicationList(Vec<RpcApp>),
    ApplicationConnected(RpcApp),
    ApplicationDisconnected(RpcApp),
    ApplicationSentListing { app_id: String, pages: Vec<RpcPage> },
    ApplicationSentData { app_id: String, dest_id: String, data: Vec<u8> },
    ApplicationUpdated { app_id: String, dest_id: String },
    Unknown(String),
}

/// An [`RpcApp`] over characters.
pub struct AppView {
    pub app_id: Seq<char>,
    pub app_name: Seq<char>,
    pub is_proxy: bool,
}

/// An [`RpcPage`] over characters.
pub struct PageView {
    pub page_id: u32,
    pub page_type: PageType,
    pub connection_id: Option<Seq<char>>,
    pub title: Option<Seq<char>>,
    pub url: Option<Seq<char>>,
}

/// An [`RpcMessage`] over characters and bytes.
pub enum MessageView {
    ReportSetup,
    ReportConnectedApplicationList(Seq<AppView>),
    ApplicationConnected(AppView),
    ApplicationDisconnected(AppView),
    ApplicationSentListing { app_id: Seq<char>, pages: Seq<PageView> },
    ApplicationSentData { app_id: Seq<char>, dest_id: Seq<char>, data: Seq<u8> },
    ApplicationUpdated { app_id: Seq<char>, dest_id: Seq<char> },
    Unknown(Seq<char>),
}

impl View for RpcApp {
    type V = AppView;

    open spec fn view(&self) -> AppView {
        AppView { app_id: self.app_id@, app_name: self.app_name@, is_proxy: self.is_proxy }
    }
}

impl View for RpcPage {
    type V = PageView;

    open spec fn view(&self) -> PageView {
        PageView {
            page_id: self.page_id,
            page_type: self.page_type,
            connection_id: text::option_view(self.connection_id),
            title: text::option_view(self.title),
            url: text::option_view(self.url),
        }
    }
}

/// The views of a list of applications.
pub open spec fn apps_view(apps: Seq<RpcApp>) -> Seq<AppView> {
    Seq::new(apps.len(), |i: int| apps[i]@)
}

/// The views of a list of pages.
pub open spec fn pages_view(pages: Seq<RpcPage>) -> Seq<PageView> {
    Seq::new(pages.len(), |i: int| pages[i]@)
}

impl View for RpcMessage {
    type V = MessageView;

    open spec fn view(&self) -> MessageView {
        match *self {
            RpcMessage::ReportSetup => MessageView::ReportSetup,
            RpcMessage::ReportConnectedApplicationList(apps) =>
                MessageView::ReportConnectedApplicationList(apps_view(apps@)),
            RpcMessage::ApplicationConnected(app) => MessageView::ApplicationConnected(app@),
            RpcMessage::ApplicationDisconnected(app) => MessageView::ApplicationDisconnected(app@),
            RpcMessage::ApplicationSentListing { app_id, pages } =>
                MessageView::ApplicationSentListing { app_id: app_id@, pages: pages_view(pages@) },
            RpcMessage::ApplicationSentData { app_id, dest_id, data } =>
                MessageView::ApplicationSentData {
                app_id: app_id@,
                dest_id: dest_id@,
                data: data@,
            },
            RpcMessage::ApplicationUpdated { app_id, dest_id } => MessageView::ApplicationUpdated {
                app_id: app_id@,
                dest_id: dest_id@,
            },
            RpcMessage::Unknown(selector) => MessageView::Unknown(selector@),
        }
    }
}

impl Clone for RpcApp {
    fn clone(&self) -> (r: Self)
        ensures
            r@ == self@,
    {
        RpcApp {
            app_id: self.app_id.clone(),
            app_name: self.app_name.clone(),
            is_proxy: self.is_proxy,
        }
    }
}

impl Clone for RpcPage {
    fn clone(&self) -> (r: Self)
        ensures
            r@ == self@,
    {
        RpcPage {
            page_id: self.page_id,
            page_type: self.page_type,
            connection_id: text::copy_option(&self.connection_id),
            title: text::copy_option(&self.title),
            url: text::copy_option(&self.url),
        }
    }
}

// ---------------------------------------------------------------------------------------------
// Receiving
// ---------------------------------------------------------------------------------------------

/// A dictionary's entries.
pub type Entries = Seq<(Seq<char>, PlistView)>;

/// The string that must be under `key`.
pub open spec fn required_string(dict: Entries, key: Seq<char>) -> std::result::Result<
    Seq<char>,
    Failure,
> {
    match property_list::string_at(dict, key) {
        Some(s) => Ok(s),
        None => Err(Failure::Rpc("Missing required string field: "@ + key)),
    }
}

/// The data that must be under `key`.
pub open spec fn required_data(dict: Entries, key: Seq<char>) -> std::result::Result<
    Seq<u8>,
    Failure,
> {
    match property_list::data_at(dict, key) {
        Some(d) => Ok(d),
        None => Err(Failure::Rpc("Missing required data field: "@ + key)),
    }
}

/// The application that a dictionary describes: it must name itself; the rest has defaults.
pub open spec fn app_in(dict: Entries) -> std::result::Result<AppView, Failure> {
    match required_string(dict, "WIRApplicationIdentifierKey"@) {
        Err(f) => Err(f),
        Ok(app_id) => Ok(
            AppView {
                app_id,
                app_name: match property_list::string_at(dict, "WIRApplicationNameKey"@) {
                    Some(name) => name,
                    None => ""@,
                },
                is_proxy: match property_list::boolean_at(dict, "WIRIsApplicationProxyKey"@) {
                    Some(flag) => flag,
                    None => false,
                },
            },
        ),
    }
}

/// The applications among the values of a dictionary, in order: those values that are dictionaries
/// and describe one.
pub open spec fn apps_among(entries: Entries) -> Seq<AppView>
    decreases entries.len(),
{
    if entries.len() == 0 {
        Seq::empty()
    } else {
        let before = apps_among(entries.drop_last());
        match entries.last().1.dictionary() {
            Some(dict) => match app_in(dict) {
                Ok(app) => before.push(app),
                Err(_) => before,
            },
            None => before,
        }
    }
}

/// The applications that the arguments of a message list.
pub open spec fn apps_in(args: Entries) -> std::result::Result<Seq<AppView>, Failure> {
    match property_list::dictionary_at(args, "WIRApplicationDictionaryKey"@) {
        Some(entries) => Ok(apps_among(entries)),
        None => Err(Failure::Rpc("Missing WIRApplicationDictionaryKey"@)),
    }
}

/// The type of page that a type name stands for.
pub open spec fn page_type_named(name: Option<Seq<char>>) -> PageType {
    if name == Some("WIRTypeWebPage"@) {
        PageType::WebPage
    } else if name == Some("WIRTypeJavaScript"@) {
        PageType::JavaScript
    } else {
        PageType::Unknown
    }
}

/// The page that a dictionary describes: it must have a number, of which the low 32 bits count.
pub open spec fn page_in(dict: Entries) -> std::result::Result<PageView, Failure> {
    match property_list::unsigned_at(dict, "WIRPageIdentifierKey"@) {
        None => Err(Failure::Rpc("Missing WIRPageIdentifierKey"@)),
        Some(n) => Ok(
            PageView {
                page_id: (n % 0x1_0000_0000) as u32,
                page_type: page_type_named(property_list::string_at(dict, "WIRTypeKey"@)),
                connection_id: property_list::string_at(dict, "WIRConnectionIdentifierKey"@),
                title: property_list::string_at(dict, "WIRTitleKey"@),
                url: property_list::string_at(dict, "WIRURLKey"@),
            },
        ),
    }
}

/// The pages among the values of a dictionary, in order: every value that is a dictionary must
/// describe one.
pub open spec fn pages_among(entries: Entries) -> std::result::Result<Seq<PageView>, Failure>
    decreases entries.len(),
{
    if entries.len() == 0 {
        Ok(Seq::empty())
    } else {
        match pages_among(entries.drop_last()) {
            Err(f) => Err(f),
            Ok(before) => match entries.last().1.dictionary() {
                None => Ok(before),
                Some(dict) => match page_in(dict) {
                    Ok(page) => Ok(before.push(page)),
                    Err(f) => Err(f),
                },
            },
        }
    }
}

/// The pages that a listing holds.
pub open spec fn pages_in(listing: PlistView) -> std::result::Result<Seq<PageView>, Failure> {
    match listing.dictionary() {
        Some(entries) => pages_among(entries),
        None => Err(Failure::Rpc("WIRListingKey is not a dictionary"@)),
    }
}

/// The message with a given selector and given arguments.
pub open spec fn message_with(selector: Seq<char>, args: Entries) -> std::result::Result<
    MessageView,
    Failure,
> {
    if selector == "_rpc_reportSetup:"@ {
        Ok(MessageView::ReportSetup)
    } else if selector == "_rpc_reportConnectedApplicationList:"@ {
        match apps_in(args) {
            Ok(apps) => Ok(MessageView::ReportConnectedApplicationList(apps)),
            Err(f) => Err(f),
        }
    } else if selector == "_rpc_applicationConnected:"@ {
        match app_in(args) {
            Ok(app) => Ok(MessageView::ApplicationConnected(app)),
            Err(f) => Err(f),
        }
    } else if selector == "_rpc_applicationDisconnected:"@ {
        match app_in(args) {
            Ok(app) => Ok(MessageView::ApplicationDisconnected(app)),
            Err(f) => Err(f),
        }
    } else if selector == "_rpc_applicationSentListing:"@ {
        match required_string(args, "WIRApplicationIdentifierKey"@) {
            Err(f) => Err(f),
            Ok(app_id) => match property_list::lookup(args, "WIRListingKey"@) {
                None => Ok(MessageView::ApplicationSentListing { app_id, pages: Seq::empty() }),
                Some(listing) => match pages_in(listing) {
                    Ok(pages) => Ok(MessageView::ApplicationSentListing { app_id, pages }),
                    Err(f) => Err(f),
                },
            },
        }
    } else if selector == "_rpc_applicationSentData:"@ {
        match required_string(args, "WIRApplicationIdentifierKey"@) {
            Err(f) => Err(f),
            Ok(app_id) => match required_string(args, "WIRDestinationKey"@) {
                Err(f) => Err(f),
                Ok(dest_id) => match required_data(args, "WIRMessageDataKey"@) {
                    Err(f) => Err(f),
                    Ok(data) => Ok(MessageView::ApplicationSentData { app_id, dest_id, data }),
                },
            },
        }
    } else if selector == "_rpc_applicationUpdated:"@ {
        let host = match required_string(args, "WIRHostApplicationIdentifierKey"@) {
            Ok(id) => Ok(id),
            Err(_) => required_string(args, "WIRApplicationNameKey"@),
        };
        match host {
            Err(f) => Err(f),
            Ok(app_id) => match required_string(args, "WIRApplicationIdentifierKey"@) {
                Err(f) => Err(f),
                Ok(dest_id) => Ok(MessageView::ApplicationUpdated { app_id, dest_id }),
            },
        }
    } else {
        Ok(MessageView::Unknown(selector))
    }
}

/// The message that a property list holds.
pub open spec fn message_in(value: PlistView) -> std::result::Result<MessageView, Failure> {
    match value.dictionary() {
        None => Err(Failure::Rpc("RPC message is not a dictionary"@)),
        Some(dict) => match property_list::string_at(dict, "__selector"@) {
            None => Err(Failure::Rpc("Missing __selector"@)),
            Some(selector) => match property_list::dictionary_at(dict, "__argument"@) {
                None => Err(Failure::Rpc("Missing __argument"@)),
                Some(args) => message_with(selector, args),
            },
        },
    }
}

/// An RPC error with the message `m`.
fn rpc_error(m: &str) -> (e: Error)
    ensures
        e.says(Failure::Rpc(m@)),
{
    Error::Rpc(m.to_owned())
}

/// Reads the string that must be under `key`.
pub fn get_required_string(dict: &Vec<(String, PlistValue)>, key: &str) -> (r: Result<String>)
    ensures
        match required_string(property_list::entries_view(dict@), key@) {
            Ok(s) => r matches Ok(t) && t@ == s,
            Err(f) => r matches Err(e) && e.says(f),
        },
{
    match property_list::get_string(dict, key) {
        Some(s) => Ok(s),
        None => Err(
            Error::Rpc(crate::error::prefixed("Missing required string field: ", key)),
        ),
    }
}

/// Reads the data that must be under `key`.
pub fn get_required_data(dict: &Vec<(String, PlistValue)>, key: &str) -> (r: Result<Vec<u8>>)
    ensures
        match required_data(property_list::entries_view(dict@), key@) {
            Ok(d) => r matches Ok(t) && t@ == d,
            Err(f) => r matches Err(e) && e.says(f),
        },
{
    match property_list::get_data(dict, key) {
        Some(d) => Ok(d),
        None => Err(Error::Rpc(crate::error::prefixed("Missing required data field: ", key))),
    }
}

/// Reads one application.
pub fn parse_app(dict: &Vec<(String, PlistValue)>) -> (r: Result<RpcApp>)
    ensures
        match app_in(property_list::entries_view(dict@)) {
            Ok(app) => r matches Ok(t) && t@ == app,
            Err(f) => r matches Err(e) && e.says(f),
        },
{
    let app_id = get_required_string(dict, "WIRApplicationIdentifierKey")?;
    let app_name = text::text_or(&property_list::get_string(dict, "WIRApplicationNameKey"), "");
    let is_proxy = match property_list::get_boolean(dict, "WIRIsApplicationProxyKey") {
        Some(flag) => flag,
        None => false,
    };
    Ok(RpcApp { app_id, app_name, is_proxy })
}

/// Reads the applications that the arguments of a message list.
pub fn parse_apps(args: &Vec<(String, PlistValue)>) -> (r: Result<Vec<RpcApp>>)
    ensures
        match apps_in(property_list::entries_view(args@)) {
            Ok(apps) => r matches Ok(t) && apps_view(t@) == apps,
            Err(f) => r matches Err(e) && e.says(f),
        },
{
    let entries = match property_list::get_dictionary(args, "WIRApplicationDictionaryKey") {
        Some(d) => d,
        None => return Err(rpc_error("Missing WIRApplicationDictionaryKey")),
    };
    let ghost all = property_list::entries_view(entries@);
    let mut apps: Vec<RpcApp> = Vec::new();
    let mut i: usize = 0;
    assert(apps_view(apps@) =~= apps_among(all.take(0)));
    while i < entries.len()
        invariant
            i <= entries@.len(),
            all == property_list::entries_view(entries@),
            apps_view(apps@) == apps_among(all.take(i as int)),
        decreases entries@.len() - i,
    {
        assert(all.take(i + 1).drop_last() =~= all.take(i as int));
        assert(all.take(i + 1).last().1 == entries@[i as int].1@);
        let ghost before = apps@;
        if let Some(dict) = entries[i].1.as_dictionary() {
            if let Ok(app) = parse_app(dict) {
                apps.push(app);
                assert(apps_view(apps@) =~= apps_view(before).push(app@));
            }
        }
        i = i + 1;
    }
    assert(all.take(all.len() as int) =~= all);
    Ok(apps)
}

/// Reads one page.
fn parse_page(dict: &Vec<(String, PlistValue)>) -> (r: Result<RpcPage>)
    ensures
        match page_in(property_list::entries_view(dict@)) {
            Ok(page) => r matches Ok(t) && t@ == page,
            Err(f) => r matches Err(e) && e.says(f),
        },
{
    let number = match property_list::get_unsigned(dict, "WIRPageIdentifierKey") {
        Some(n) => n,
        None => return Err(rpc_error("Missing WIRPageIdentifierKey")),
    };
    assert(number as u32 == number % 0x1_0000_0000) by (bit_vector);
    let page_id = number as u32;
    let page_type = match property_list::get_string(dict, "WIRTypeKey") {
        Some(name) => if text::str_eq(name.as_str(), "WIRTypeWebPage") {
            PageType::WebPage
        } else if text::str_eq(name.as_str(), "WIRTypeJavaScript") {
            PageType::JavaScript
        } else {
            PageType::Unknown
        },
        None => PageType::Unknown,
    };
    let connection_id = property_list::get_string(dict, "WIRConnectionIdentifierKey");
    let title = property_list::get_string(dict, "WIRTitleKey");
    let url = property_list::get_string(dict, "WIRURLKey");
    Ok(RpcPage { page_id, page_type, connection_id, title, url })
}

/// Reads the pages that a listing holds.
pub fn parse_pages(listing: &PlistValue) -> (r: Result<Vec<RpcPage>>)
    ensures
        match pages_in(listing@) {
            Ok(pages) => r matches Ok(t) && pages_view(t@) == pages,
            Err(f) => r matches Err(e) && e.says(f),
        },
{
    let entries = match listing.as_dictionary() {
        Some(d) => d,
        None => return Err(rpc_error("WIRListingKey is not a dictionary")),
    };
    let ghost all = property_list::entries_view(entries@);
    let mut pages: Vec<RpcPage> = Vec::new();
    let mut i: usize = 0;
    assert(pages_view(pages@) =~= Seq::empty());
    while i < entries.len()
        invariant
            i <= entries@.len(),
            all == property_list::entries_view(entries@),
            listing@.dictionary() == Some(all),
            pages_among(all.take(i as int)) == std::result::Result::<_, Failure>::Ok(
                pages_view(pages@),
            ),
        decreases entries@.len() - i,
    {
        assert(all.take(i + 1).drop_last() =~= all.take(i as int));
        assert(all.take(i + 1).last().1 == entries@[i as int].1@);
        let ghost before = pages@;
        if let Some(dict) = entries[i].1.as_dictionary() {
            match parse_page(dict) {
                Ok(page) => {
                    pages.push(page);
                    assert(pages_view(pages@) =~= pages_view(before).push(page@));
                },
                Err(e) => {
                    proof {
                        lemma_bad_page_spoils(all, i as int);
                    }
                    return Err(e);
                },
            }
        }
        i = i + 1;
    }
    assert(all.take(all.len() as int) =~= all);
    Ok(pages)
}

/// One value that should describe a page and does not makes the whole listing unreadable.
proof fn lemma_bad_page_spoils(all: Entries, i: int)
    requires
        0 <= i < all.len(),
        pages_among(all.take(i + 1)) is Err,
    ensures
        pages_among(all) == pages_among(all.take(i + 1)),
    decreases all.len(),
{
    if i + 1 < all.len() {
        assert(all.drop_last().take(i + 1) =~= all.take(i + 1));
        lemma_bad_page_spoils(all.drop_last(), i);
    } else {
        assert(all.take(i + 1) =~= all);
    }
}

/// Reads the message that a received property list holds.
pub fn parse_rpc_message(rpc_dict: &PlistValue) -> (r: Result<RpcMessage>)
    ensures
        match message_in(rpc_dict@) {
            Ok(m) => r matches Ok(t) && t@ == m,
            Err(f) => r matches Err(e) && e.says(f),
        },
{
    let dict = match rpc_dict.as_dictionary() {
        Some(d) => d,
        None => return Err(rpc_error("RPC message is not a dictionary")),
    };
    let selector = match property_list::get_string(dict, "__selector") {
        Some(s) => s,
        None => return Err(rpc_error("Missing __selector")),
    };
    let args = match property_list::get_dictionary(dict, "__argument") {
        Some(d) => d,
        None => return Err(rpc_error("Missing __argument")),
    };
    let name = selector.as_str();
    if text::str_eq(name, "_rpc_reportSetup:") {
        Ok(RpcMessage::ReportSetup)
    } else if text::str_eq(name, "_rpc_reportConnectedApplicationList:") {
        let apps = parse_apps(args)?;
        Ok(RpcMessage::ReportConnectedApplicationList(apps))
    } else if text::str_eq(name, "_rpc_applicationConnected:") {
        let app = parse_app(args)?;
        Ok(RpcMessage::ApplicationConnected(app))
    } else if text::str_eq(name, "_rpc_applicationDisconnected:") {
        let app = parse_app(args)?;
        Ok(RpcMessage::ApplicationDisconnected(app))
    } else if text::str_eq(name, "_rpc_applicationSentListing:") {
        let app_id = get_required_string(args, "WIRApplicationIdentifierKey")?;
        let pages = match property_list::get(args, "WIRListingKey") {
            Some(listing) => parse_pages(listing)?,
            None => Vec::new(),
        };
        let m = RpcMessage::ApplicationSentListing { app_id, pages };
        assert(property_list::lookup(
            property_list::entries_view(args@),
            "WIRListingKey"@,
        ) is None ==> pages_view(pages@) =~= Seq::<PageView>::empty());
        Ok(m)
    } else if text::str_eq(name, "_rpc_applicationSentData:") {
        let app_id = get_required_string(args, "WIRApplicationIdentifierKey")?;
        let dest_id = get_required_string(args, "WIRDestinationKey")?;
        let data = get_required_data(args, "WIRMessageDataKey")?;
        Ok(RpcMessage::ApplicationSentData { app_id, dest_id, data })
    } else if text::str_eq(name, "_rpc_applicationUpdated:") {
        let app_id = match get_required_string(args, "WIRHostApplicationIdentifierKey") {
            Ok(id) => id,
            Err(_) => get_required_string(args, "WIRApplicationNameKey")?,
        };
        let dest_id = get_required_string(args, "WIRApplicationIdentifierKey")?;
        Ok(RpcMessage::ApplicationUpdated { app_id, dest_id })
    } else {
        Ok(RpcMessage::Unknown(selector))
    }
}

// ---------------------------------------------------------------------------------------------
// Identifiers
// ---------------------------------------------------------------------------------------------

/// Whether `c` is a lower-case hexadecimal digit.
pub open spec fn is_lower_hex(c: char) -> bool {
    '0' <= c <= '9' || 'a' <= c <= 'f'
}

/// Whether `c` is an upper-case hexadecimal digit.
pub open spec fn is_upper_hex(c: char) -> bool {
    '0' <= c <= '9' || 'A' <= c <= 'F'
}

/// Whether a dash belongs at position `i` of a written UUID.
pub open spec fn is_dash_position(i: int) -> bool {
    i == 8 || i == 13 || i == 18 || i == 23
}

/// Whether `s` is a version 4 UUID in lower case: five groups of hexadecimal digits, with the
/// version and the variant where they belong.
pub open spec fn is_lower_uuid(s: Seq<char>) -> bool {
    &&& s.len() == 36
    &&& forall|i: int|
        0 <= i < 36 ==> if is_dash_position(i) {
            #[trigger] s[i] == '-'
        } else {
            is_lower_hex(s[i])
        }
    &&& s[14] == '4'
    &&& (s[19] == '8' || s[19] == '9' || s[19] == 'a' || s[19] == 'b')
}

/// Whether `s` is a version 4 UUID in upper case.
pub open spec fn is_upper_uuid(s: Seq<char>) -> bool {
    &&& s.len() == 36
    &&& forall|i: int|
        0 <= i < 36 ==> if is_dash_position(i) {
            #[trigger] s[i] == '-'
        } else {
            is_upper_hex(s[i])
        }
    &&& s[14] == '4'
    &&& (s[19] == '8' || s[19] == '9' || s[19] == 'A' || s[19] == 'B')
}

/// `uuid::Uuid::new_v4`, written out by its `Display`. The digits are random: what holds of every
/// outcome is the form of a version 4 UUID.
#[verifier::external_body]
fn random_uuid() -> (r: String)
    ensures
        is_lower_uuid(r@),
{
    uuid::Uuid::new_v4().to_string()
}

/// `c` in upper case if it is a lower-case ASCII letter, else `c`.
pub open spec fn ascii_upper(c: char) -> char {
    if 'a' <= c <= 'z' {
        (c as u32 - 32) as char
    } else {
        c
    }
}

/// A written UUID in upper case.
pub fn upper_uuid(lower: &str) -> (r: String)
    requires
        is_lower_uuid(lower@),
    ensures
        is_upper_uuid(r@),
        r@.len() == lower@.len(),
        forall|i: int| 0 <= i < r@.len() ==> #[trigger] r@[i] == ascii_upper(lower@[i]),
{
    let v = text::chars_of(lower);
    let mut out = String::new();
    let mut i: usize = 0;
    while i < v.len()
        invariant
            i <= v@.len(),
            v@ == lower@,
            is_lower_uuid(lower@),
            out@.len() == i,
            forall|k: int| 0 <= k < i ==> #[trigger] out@[k] == ascii_upper(lower@[k]),
        decreases v@.len() - i,
    {
        let c = v[i];
        assert(lower@[i as int] == c);
        if c >= 'a' && c <= 'z' {
            out.push((c as u8 - 32) as char);
        } else {
            out.push(c);
        }
        i = i + 1;
    }
    assert forall|k: int| 0 <= k < 36 implies if is_dash_position(k) {
        #[trigger] out@[k] == '-'
    } else {
        is_upper_hex(out@[k])
    } by {
        assert(out@[k] == ascii_upper(lower@[k]));
        assert(lower@[k] == lower@[k]);
    }
    assert(out@[14] == ascii_upper(lower@[14]));
    assert(out@[19] == ascii_upper(lower@[19]));
    out
}

/// A fresh identifier for a connection or a client: a random UUID in upper case.
pub fn new_uuid() -> (r: String)
    ensures
        is_upper_uuid(r@),
{
    let lower = random_uuid();
    upper_uuid(lower.as_str())
}

// ---------------------------------------------------------------------------------------------
// Sending
// ---------------------------------------------------------------------------------------------

/// A message: its selector and its arguments.
pub open spec fn call(selector: Seq<char>, args: Entries) -> PlistView {
    PlistView::Dictionary(
        seq![
            ("__selector"@, PlistView::Text(selector)),
            ("__argument"@, PlistView::Dictionary(args)),
        ],
    )
}

/// The arguments that every message has: who is calling.
pub open spec fn caller_args(connection_id: Seq<char>) -> Entries {
    seq![("WIRConnectionIdentifierKey"@, PlistView::Text(connection_id))]
}

/// The message that tells WebInspector who is connecting.
pub open spec fn report_identifier(connection_id: Seq<char>) -> PlistView {
    call("_rpc_reportIdentifier:"@, caller_args(connection_id))
}

/// The message that asks for the applications.
pub open spec fn get_connected_applications(connection_id: Seq<char>) -> PlistView {
    call("_rpc_getConnectedApplications:"@, caller_args(connection_id))
}

/// The arguments of a message to an application.
pub open spec fn app_args(connection_id: Seq<char>, app_id: Seq<char>) -> Entries {
    caller_args(connection_id).push(("WIRApplicationIdentifierKey"@, PlistView::Text(app_id)))
}

/// The message that asks an application for its pages.
pub open spec fn forward_get_listing(connection_id: Seq<char>, app_id: Seq<char>) -> PlistView {
    call("_rpc_forwardGetListing:"@, app_args(connection_id, app_id))
}

/// The message that has a page highlighted on the device, or not.
pub open spec fn forward_indicate_web_view(
    connection_id: Seq<char>,
    app_id: Seq<char>,
    page_id: u32,
    is_enabled: bool,
) -> PlistView {
    call(
        "_rpc_forwardIndicateWebView:"@,
        app_args(connection_id, app_id).push(
            ("WIRPageIdentifierKey"@, PlistView::Unsigned(page_id as u64)),
        ).push(("WIRIndicateEnabledKey"@, PlistView::Boolean(is_enabled))),
    )
}

/// The message that opens a debugging session with a page.
pub open spec fn forward_socket_setup(
    connection_id: Seq<char>,
    app_id: Seq<char>,
    page_id: u32,
    sender_id: Seq<char>,
) -> PlistView {
    call(
        "_rpc_forwardSocketSetup:"@,
        app_args(connection_id, app_id).push(
            ("WIRAutomaticallyPause"@, PlistView::Boolean(false)),
        ).push(("WIRPageIdentifierKey"@, PlistView::Unsigned(page_id as u64))).push(
            ("WIRSenderKey"@, PlistView::Text(sender_id)),
        ),
    )
}

/// The arguments of a message within a debugging session.
pub open spec fn session_args(
    connection_id: Seq<char>,
    app_id: Seq<char>,
    page_id: u32,
    sender_id: Seq<char>,
) -> Entries {
    app_args(connection_id, app_id).push(
        ("WIRPageIdentifierKey"@, PlistView::Unsigned(page_id as u64)),
    ).push(("WIRSenderKey"@, PlistView::Text(sender_id)))
}

/// The message that carries data to a page.
pub open spec fn forward_socket_data(
    connection_id: Seq<char>,
    app_id: Seq<char>,
    page_id: u32,
    sender_id: Seq<char>,
    data: Seq<u8>,
) -> PlistView {
    call(
        "_rpc_forwardSocketData:"@,
        session_args(connection_id, app_id, page_id, sender_id).push(
            ("WIRSocketDataKey"@, PlistView::Data(data)),
        ),
    )
}

/// The message that ends a debugging session.
pub open spec fn forward_did_close(
    connection_id: Seq<char>,
    app_id: Seq<char>,
    page_id: u32,
    sender_id: Seq<char>,
) -> PlistView {
    call("_rpc_forwardDidClose:"@, session_args(connection_id, app_id, page_id, sender_id))
}

/// The keys of a message are distinct.
proof fn lemma_keys_differ()
    ensures
        "__selector"@ != "__argument"@,
        "WIRConnectionIdentifierKey"@.len() == 26,
        "WIRApplicationIdentifierKey"@.len() == 27,
        "WIRPageIdentifierKey"@.len() == 20,
        "WIRIndicateEnabledKey"@.len() == 21,
        "WIRAutomaticallyPause"@.len() == 21,
        "WIRSenderKey"@.len() == 12,
        "WIRSocketDataKey"@.len() == 16,
{
    reveal_strlit("__selector");
    reveal_strlit("__argument");
    assert("__selector"@[2] == 's');
    assert("__argument"@[2] == 'a');
    reveal_strlit("WIRConnectionIdentifierKey");
    reveal_strlit("WIRApplicationIdentifierKey");
    reveal_strlit("WIRPageIdentifierKey");
    reveal_strlit("WIRIndicateEnabledKey");
    reveal_strlit("WIRAutomaticallyPause");
    reveal_strlit("WIRSenderKey");
    reveal_strlit("WIRSocketDataKey");
}

/// Adds one argument.
fn put(args: &mut Vec<(String, PlistValue)>, key: &str, value: PlistValue)
    ensures
        property_list::entries_view(final(args)@) == property_list::entries_view(old(args)@).push(
            (key@, value@),
        ),
{
    let ghost before = args@;
    args.push((key.to_owned(), value));
    assert(property_list::entries_view(args@) =~= property_list::entries_view(before).push(
        (key@, value@),
    ));
}

/// Puts messages into bytes, in the name of one connection.
pub struct RpcSender {
    pub connection_id: String,
}

impl RpcSender {
    /// A sender for a connection.
    pub fn new(connection_id: String) -> (r: Self)
        ensures
            r.connection_id@ == connection_id@,
    {
        RpcSender { connection_id }
    }

    /// The message as a property list.
    fn build_message(&self, selector: &str, args: Vec<(String, PlistValue)>) -> (r: PlistValue)
        ensures
            r@ == call(selector@, property_list::entries_view(args@)),
    {
        let mut message: Vec<(String, PlistValue)> = Vec::new();
        assert(property_list::entries_view(message@) =~= Seq::empty());
        put(&mut message, "__selector", PlistValue::Text(selector.to_owned()));
        put(&mut message, "__argument", PlistValue::Dictionary(args));
        let r = PlistValue::Dictionary(message);
        assert(property_list::entries_view(message@) =~= seq![
            ("__selector"@, PlistView::Text(selector@)),
            ("__argument"@, PlistView::Dictionary(property_list::entries_view(args@))),
        ]);
        r
    }

    /// The arguments that every message has.
    fn new_args(&self) -> (r: Vec<(String, PlistValue)>)
        ensures
            property_list::entries_view(r@) == caller_args(self.connection_id@),
    {
        let mut args: Vec<(String, PlistValue)> = Vec::new();
        assert(property_list::entries_view(args@) =~= Seq::empty());
        put(
            &mut args,
            "WIRConnectionIdentifierKey",
            PlistValue::Text(self.connection_id.clone()),
        );
        assert(property_list::entries_view(args@) =~= caller_args(self.connection_id@));
        args
    }

    /// The arguments of a message to an application.
    fn new_app_args(&self, app_id: &str) -> (r: Vec<(String, PlistValue)>)
        ensures
            property_list::entries_view(r@) == app_args(self.connection_id@, app_id@),
    {
        let mut args = self.new_args();
        put(&mut args, "WIRApplicationIdentifierKey", PlistValue::Text(app_id.to_owned()));
        args
    }

    /// The arguments of a message within a debugging session.
    fn new_session_args(&self, app_id: &str, page_id: u32, sender_id: &str) -> (r: Vec<
        (String, PlistValue),
    >)
        ensures
            property_list::entries_view(r@) == session_args(
                self.connection_id@,
                app_id@,
                page_id,
                sender_id@,
            ),
    {
        let mut args = self.new_app_args(app_id);
        put(&mut args, "WIRPageIdentifierKey", PlistValue::Unsigned(page_id as u64));
        put(&mut args, "WIRSenderKey", PlistValue::Text(sender_id.to_owned()));
        args
    }

    /// Puts `_rpc_reportIdentifier:` into bytes.
    pub fn build_report_identifier(&self) -> (r: Vec<u8>)
        ensures
            r@ == property_list::plist_written(report_identifier(self.connection_id@)),
            property_list::plist_read(r@) == Some(report_identifier(self.connection_id@)),
            plist_dates::dates_fit(r@),
    {
        proof {
            lemma_keys_differ();
        }
        let msg = self.build_message("_rpc_reportIdentifier:", self.new_args());
        plist_to_bin(&msg)
    }

    /// Puts `_rpc_getConnectedApplications:` into bytes.
    pub fn build_get_connected_applications(&self) -> (r: Vec<u8>)
        ensures
            r@ == property_list::plist_written(get_connected_applications(self.connection_id@)),
            property_list::plist_read(r@) == Some(get_connected_applications(self.connection_id@)),
            plist_dates::dates_fit(r@),
    {
        proof {
            lemma_keys_differ();
        }
        let msg = self.build_message("_rpc_getConnectedApplications:", self.new_args());
        plist_to_bin(&msg)
    }

    /// Puts `_rpc_forwardGetListing:` into bytes.
    pub fn build_forward_get_listing(&self, app_id: &str) -> (r: Vec<u8>)
        ensures
            r@ == property_list::plist_written(forward_get_listing(self.connection_id@, app_id@)),
            property_list::plist_read(r@) == Some(forward_get_listing(self.connection_id@, app_id@)),
            plist_dates::dates_fit(r@),
    {
        proof {
            lemma_keys_differ();
        }
        let msg = self.build_message("_rpc_forwardGetListing:", self.new_app_args(app_id));
        plist_to_bin(&msg)
    }

    /// Puts `_rpc_forwardIndicateWebView:` into bytes.
    pub fn build_forward_indicate_web_view(
        &self,
        app_id: &str,
        page_id: u32,
        is_enabled: bool,
    ) -> (r: Vec<u8>)
        ensures
            r@ == property_list::plist_written(
                forward_indicate_web_view(self.connection_id@, app_id@, page_id, is_enabled),
            ),
            property_list::plist_read(r@) == Some(
                forward_indicate_web_view(self.connection_id@, app_id@, page_id, is_enabled),
            ),
            plist_dates::dates_fit(r@),
    {
        proof {
            lemma_keys_differ();
        }
        let mut args = self.new_app_args(app_id);
        put(&mut args, "WIRPageIdentifierKey", PlistValue::Unsigned(page_id as u64));
        put(&mut args, "WIRIndicateEnabledKey", PlistValue::Boolean(is_enabled));
        let msg = self.build_message("_rpc_forwardIndicateWebView:", args);
        plist_to_bin(&msg)
    }

    /// Puts `_rpc_forwardSocketSetup:` into bytes.
    pub fn build_forward_socket_setup(&self, app_id: &str, page_id: u32, sender_id: &str) -> (r:
        Vec<u8>)
        ensures
            r@ == property_list::plist_written(
                forward_socket_setup(self.connection_id@, app_id@, page_id, sender_id@),
            ),
            property_list::plist_read(r@) == Some(
                forward_socket_setup(self.connection_id@, app_id@, page_id, sender_id@),
            ),
            plist_dates::dates_fit(r@),
    {
        proof {
            lemma_keys_differ();
        }
        let mut args = self.new_app_args(app_id);
        put(&mut args, "WIRAutomaticallyPause", PlistValue::Boolean(false));
        put(&mut args, "WIRPageIdentifierKey", PlistValue::Unsigned(page_id as u64));
        put(&mut args, "WIRSenderKey", PlistValue::Text(sender_id.to_owned()));
        let msg = self.build_message("_rpc_forwardSocketSetup:", args);
        plist_to_bin(&msg)
    }

    /// Puts `_rpc_forwardSocketData:` into bytes.
    pub fn build_forward_socket_data(
        &self,
        app_id: &str,
        page_id: u32,
        sender_id: &str,
        data: &[u8],
    ) -> (r: Vec<u8>)
        ensures
            r@ == property_list::plist_written(
                forward_socket_data(self.connection_id@, app_id@, page_id, sender_id@, data@),
            ),
            property_list::plist_read(r@) == Some(
                forward_socket_data(self.connection_id@, app_id@, page_id, sender_id@, data@),
            ),
            plist_dates::dates_fit(r@),
    {
        proof {
            lemma_keys_differ();
        }
        let mut args = self.new_session_args(app_id, page_id, sender_id);
        put(&mut args, "WIRSocketDataKey", PlistValue::Data(vstd::slice::slice_to_vec(data)));
        let msg = self.build_message("_rpc_forwardSocketData:", args);
        plist_to_bin(&msg)
    }

    /// Puts `_rpc_forwardDidClose:` into bytes.
    pub fn build_forward_did_close(&self, app_id: &str, page_id: u32, sender_id: &str) -> (r: Vec<
        u8,
    >)
        ensures
            r@ == property_list::plist_written(
                forward_did_close(self.connection_id@, app_id@, page_id, sender_id@),
            ),
            property_list::plist_read(r@) == Some(
                forward_did_close(self.connection_id@, app_id@, page_id, sender_id@),
            ),
            plist_dates::dates_fit(r@),
    {
        proof {
            lemma_keys_differ();
        }
        let args = self.new_session_args(app_id, page_id, sender_id);
        let msg = self.build_message("_rpc_forwardDidClose:", args);
        plist_to_bin(&msg)
    }
}

/// Puts a message into the binary format.
pub fn plist_to_bin(value: &PlistValue) -> (r: Vec<u8>)
    ensures
        property_list::is_plain(value@) ==> r@ == property_list::plist_written(value@),
        property_list::is_message(value@) ==> r@ == property_list::plist_written(value@)
            && property_list::plist_read(r@) == Some(value@) && plist_dates::dates_fit(r@),
        r@.len() > 0,
{
    proof {
        if property_list::is_message(value@) {
            property_list::lemma_message_is_plain(value@);
        }
    }
    property_list::write_binary(value)
}

/// Reads a property list from bytes.
pub fn plist_from_bin(data: &[u8]) -> (r: Result<PlistValue>)
    requires
        plist_dates::dates_fit(data@),
    ensures
        match property_list::plist_read(data@) {
            Some(v) => r matches Ok(t) && t@ == v,
            None => r matches Err(e) && e.says(Failure::PlistThen("plist deserialization failed: "@)),
        },
{
    read_plist(data, "plist deserialization failed: ")
}

/// Reads a property list from bytes, if no date keeps them from being read.
pub fn try_plist_from_bin(data: &[u8]) -> (r: Option<Result<PlistValue>>)
    ensures
        r is Some <==> plist_dates::dates_fit(data@),
        r matches Some(read) ==> (match property_list::plist_read(data@) {
            Some(v) => read matches Ok(t) && t@ == v,
            None => read matches Err(e) && e.says(
                Failure::PlistThen("plist deserialization failed: "@),
            ),
        }),
{
    if plist_dates::check_dates(data) {
        Some(plist_from_bin(data))
    } else {
        None
    }
}

/// Reads a property list from bytes; `heading` goes before the decoder's words where it fails.
pub fn read_plist(data: &[u8], heading: &str) -> (r: Result<PlistValue>)
    requires
        plist_dates::dates_fit(data@),
    ensures
        match property_list::plist_read(data@) {
            Some(v) => r matches Ok(t) && t@ == v,
            None => r matches Err(e) && e.says(Failure::PlistThen(heading@)),
        },
{
    match property_list::read_bytes(data) {
        Ok(v) => Ok(v),
        Err(e) => {
            let words = e.to_string();
            Err(Error::Plist(crate::error::prefixed(heading, words.as_str())))
        },
    }
}

} // verus!
