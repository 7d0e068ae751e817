//! The messages that WebInspector and the proxy exchange.

use crate::error::Failure;
use crate::property_list;
use crate::property_list::PlistView;
use crate::rpc;
use crate::rpc::{AppView, Entries, MessageView, PageView};
use vstd::prelude::*;
#[allow(unused_imports)]
use vstd::string::*;

verus! {

// ---------------------------------------------------------------------------------------------
// Dictionaries
// ---------------------------------------------------------------------------------------------

/// The value under a key is that of the first entry with the key, whatever the others are; and
/// there is none just if no entry has the key.
pub proof fn law_lookup(entries: Entries, key: Seq<char>, i: int)
    requires
        0 <= i <= entries.len(),
        forall|k: int| 0 <= k < i ==> (#[trigger] entries[k]).0 != key,
        i < entries.len() ==> entries[i].0 == key,
    ensures
        property_list::lookup(entries, key) == (if i < entries.len() {
            Some(entries[i].1)
        } else {
            None
        }),
    decreases entries.len(),
{
    if i > 0 {
        let rest = entries.skip(1);
        assert(entries[0].0 != key);
        assert forall|k: int| 0 <= k < i - 1 implies (#[trigger] rest[k]).0 != key by {
            assert(rest[k] == entries[k + 1]);
        }
        law_lookup(rest, key, i - 1);
    }
}

/// A value is found under its key as what it is, and as nothing else.
pub proof fn law_value_found(
    entries: Entries,
    key: Seq<char>,
    s: Seq<char>,
    d: Seq<u8>,
    n: u64,
    b: bool,
    e: Entries,
)
    ensures
        property_list::string_at(entries, key) == Some(s) <==> property_list::lookup(entries, key)
            == Some(PlistView::Text(s)),
        property_list::data_at(entries, key) == Some(d) <==> property_list::lookup(entries, key)
            == Some(PlistView::Data(d)),
        property_list::unsigned_at(entries, key) == Some(n) <==> property_list::lookup(entries, key)
            == Some(PlistView::Unsigned(n)),
        property_list::boolean_at(entries, key) == Some(b) <==> property_list::lookup(entries, key)
            == Some(PlistView::Boolean(b)),
        property_list::dictionary_at(entries, key) == Some(e) <==> property_list::lookup(
            entries,
            key,
        ) == Some(PlistView::Dictionary(e)),
{
}

// ---------------------------------------------------------------------------------------------
// Pages and applications
// ---------------------------------------------------------------------------------------------

/// A dictionary describes a page just if there is an identifier in it. The page then has the title,
/// the address and the connection that stand in the dictionary, each under its own key and each if
/// it is there, whatever else stands there.
pub proof fn law_page_read(dict: Entries, id: u64, s: Seq<char>)
    ensures
        rpc::page_in(dict) is Ok <==> property_list::unsigned_at(dict, "WIRPageIdentifierKey"@)
            is Some,
        rpc::page_in(dict) is Err ==> rpc::page_in(dict) == std::result::Result::<
            PageView,
            Failure,
        >::Err(Failure::Rpc("Missing WIRPageIdentifierKey"@)),
        rpc::page_in(dict) matches Ok(page) ==> {
            &&& property_list::lookup(dict, "WIRURLKey"@) == Some(PlistView::Text(s)) <==> page.url
                == Some(s)
            &&& property_list::lookup(dict, "WIRTitleKey"@) == Some(PlistView::Text(s))
                <==> page.title == Some(s)
            &&& property_list::lookup(dict, "WIRConnectionIdentifierKey"@) == Some(
                PlistView::Text(s),
            ) <==> page.connection_id == Some(s)
            &&& property_list::lookup(dict, "WIRPageIdentifierKey"@) == Some(
                PlistView::Unsigned(id),
            ) ==> (id - page.page_id) % 0x1_0000_0000 == 0
        },
{
}

/// Two dictionaries that agree under the key of the address give pages with the same address,
/// however else they differ; and so it is with the title, the connection, the type and the
/// identifier.
pub proof fn law_page_keys_are_apart(a: Entries, b: Entries)
    requires
        rpc::page_in(a) is Ok,
        rpc::page_in(b) is Ok,
    ensures
        property_list::lookup(a, "WIRURLKey"@) == property_list::lookup(b, "WIRURLKey"@)
            ==> rpc::page_in(a)->Ok_0.url == rpc::page_in(b)->Ok_0.url,
        property_list::lookup(a, "WIRTitleKey"@) == property_list::lookup(b, "WIRTitleKey"@)
            ==> rpc::page_in(a)->Ok_0.title == rpc::page_in(b)->Ok_0.title,
        property_list::lookup(a, "WIRConnectionIdentifierKey"@) == property_list::lookup(
            b,
            "WIRConnectionIdentifierKey"@,
        ) ==> rpc::page_in(a)->Ok_0.connection_id == rpc::page_in(b)->Ok_0.connection_id,
        property_list::lookup(a, "WIRTypeKey"@) == property_list::lookup(b, "WIRTypeKey"@)
            ==> rpc::page_in(a)->Ok_0.page_type == rpc::page_in(b)->Ok_0.page_type,
        property_list::lookup(a, "WIRPageIdentifierKey"@) == property_list::lookup(
            b,
            "WIRPageIdentifierKey"@,
        ) ==> rpc::page_in(a)->Ok_0.page_id == rpc::page_in(b)->Ok_0.page_id,
{
}

/// A page is a web page, or a script, just if its dictionary says so.
pub proof fn law_page_type_read(dict: Entries)
    ensures
        rpc::page_in(dict) matches Ok(page) ==> {
            &&& page.page_type is WebPage <==> property_list::lookup(dict, "WIRTypeKey"@) == Some(
                PlistView::Text("WIRTypeWebPage"@),
            )
            &&& page.page_type is JavaScript <==> property_list::lookup(dict, "WIRTypeKey"@)
                == Some(PlistView::Text("WIRTypeJavaScript"@))
        },
{
    reveal_strlit("WIRTypeWebPage");
    reveal_strlit("WIRTypeJavaScript");
    assert("WIRTypeWebPage"@.len() != "WIRTypeJavaScript"@.len());
}

/// An identifier that fits into 32 bits is kept.
pub proof fn law_page_identifier_kept(dict: Entries, id: u32)
    requires
        property_list::lookup(dict, "WIRPageIdentifierKey"@) == Some(
            PlistView::Unsigned(id as u64),
        ),
    ensures
        rpc::page_in(dict) matches Ok(page) && page.page_id == id,
{
}

/// A dictionary describes an application just if it names one. The application then has the name
/// and the flag that stand in the dictionary, each under its own key; without them it has no name
/// and is no proxy.
pub proof fn law_app_read(dict: Entries, s: Seq<char>, flag: bool)
    ensures
        property_list::lookup(dict, "WIRApplicationIdentifierKey"@) == Some(PlistView::Text(s))
            <==> (rpc::app_in(dict) matches Ok(app) && app.app_id == s),
        rpc::app_in(dict) matches Ok(app) ==> {
            &&& property_list::lookup(dict, "WIRApplicationNameKey"@) == Some(PlistView::Text(s))
                ==> app.app_name == s
            &&& property_list::string_at(dict, "WIRApplicationNameKey"@) is None
                ==> app.app_name.len() == 0
            &&& property_list::lookup(dict, "WIRIsApplicationProxyKey"@) == Some(
                PlistView::Boolean(flag),
            ) ==> app.is_proxy == flag
            &&& property_list::boolean_at(dict, "WIRIsApplicationProxyKey"@) is None
                ==> !app.is_proxy
        },
{
    reveal_strlit("");
}

/// The pages of two lists of entries, one behind the other, are the pages of the first and then
/// those of the second; what spoils one of them spoils the whole. An entry that is a dictionary is
/// a page, and any other is none.
pub proof fn law_pages_in_order(a: Entries, b: Entries, key: Seq<char>, value: PlistView)
    ensures
        match (rpc::pages_among(a), rpc::pages_among(b)) {
            (Ok(first), Ok(second)) => rpc::pages_among(a + b) == std::result::Result::<
                Seq<PageView>,
                Failure,
            >::Ok(first + second),
            (Err(f), _) => rpc::pages_among(a + b) == std::result::Result::<
                Seq<PageView>,
                Failure,
            >::Err(f),
            (_, Err(f)) => rpc::pages_among(a + b) == std::result::Result::<
                Seq<PageView>,
                Failure,
            >::Err(f),
        },
        rpc::pages_among(seq![(key, value)]) == (match value {
            PlistView::Dictionary(dict) => match rpc::page_in(dict) {
                Ok(page) => std::result::Result::<Seq<PageView>, Failure>::Ok(seq![page]),
                Err(f) => Err(f),
            },
            _ => Ok(Seq::empty()),
        }),
    decreases b.len(),
{
    let one = seq![(key, value)];
    assert(one.drop_last() =~= Seq::empty());
    assert(rpc::pages_among(one.drop_last()) == std::result::Result::<Seq<PageView>, Failure>::Ok(
        Seq::empty(),
    ));
    match value {
        PlistView::Dictionary(dict) => {
            if let Ok(page) = rpc::page_in(dict) {
                assert(Seq::<PageView>::empty().push(page) =~= seq![page]);
            }
        },
        _ => {},
    }
    if b.len() == 0 {
        assert(a + b =~= a);
        if let Ok(first) = rpc::pages_among(a) {
            assert(first + Seq::empty() =~= first);
        }
    } else {
        assert((a + b).drop_last() =~= a + b.drop_last());
        law_pages_in_order(a, b.drop_last(), key, value);
        if let Ok(first) = rpc::pages_among(a) {
            if let Ok(before) = rpc::pages_among(b.drop_last()) {
                if let Some(dict) = b.last().1.dictionary() {
                    if let Ok(page) = rpc::page_in(dict) {
                        assert((first + before).push(page) =~= first + before.push(page));
                    }
                }
            }
        }
    }
}

/// The applications of two lists of entries, one behind the other, are those of the first and then
/// those of the second. An entry that describes an application is one, and any other is none.
pub proof fn law_apps_in_order(a: Entries, b: Entries, key: Seq<char>, value: PlistView)
    ensures
        rpc::apps_among(a + b) == rpc::apps_among(a) + rpc::apps_among(b),
        rpc::apps_among(seq![(key, value)]) == (match value {
            PlistView::Dictionary(dict) => match rpc::app_in(dict) {
                Ok(app) => seq![app],
                Err(_) => Seq::<AppView>::empty(),
            },
            _ => Seq::empty(),
        }),
    decreases b.len(),
{
    let one = seq![(key, value)];
    assert(one.drop_last() =~= Seq::empty());
    assert(rpc::apps_among(one.drop_last()) =~= Seq::empty());
    match value {
        PlistView::Dictionary(dict) => {
            if let Ok(app) = rpc::app_in(dict) {
                assert(Seq::<AppView>::empty().push(app) =~= seq![app]);
            }
        },
        _ => {},
    }
    if b.len() == 0 {
        assert(a + b =~= a);
        assert(rpc::apps_among(a) + rpc::apps_among(b) =~= rpc::apps_among(a));
    } else {
        assert((a + b).drop_last() =~= a + b.drop_last());
        law_apps_in_order(a, b.drop_last(), key, value);
        assert(rpc::apps_among(a + b) =~= rpc::apps_among(a) + rpc::apps_among(b));
    }
}

// ---------------------------------------------------------------------------------------------
// Messages from the device
// ---------------------------------------------------------------------------------------------

/// The names of the messages differ.
proof fn lemma_selectors_differ()
    ensures
        "_rpc_reportSetup:"@.len() == 17,
        "_rpc_reportConnectedApplicationList:"@.len() == 36,
        "_rpc_applicationConnected:"@.len() == 26,
        "_rpc_applicationDisconnected:"@.len() == 29,
        "_rpc_applicationSentListing:"@.len() == 28,
        "_rpc_applicationSentData:"@.len() == 25,
        "_rpc_applicationUpdated:"@.len() == 24,
{
    reveal_strlit("_rpc_reportSetup:");
    reveal_strlit("_rpc_reportConnectedApplicationList:");
    reveal_strlit("_rpc_applicationConnected:");
    reveal_strlit("_rpc_applicationDisconnected:");
    reveal_strlit("_rpc_applicationSentListing:");
    reveal_strlit("_rpc_applicationSentData:");
    reveal_strlit("_rpc_applicationUpdated:");
}

/// Whether a property list is a message with this name and these arguments.
pub open spec fn is_message_of(value: PlistView, selector: Seq<char>, args: Entries) -> bool {
    value matches PlistView::Dictionary(dict) && property_list::lookup(dict, "__selector"@) == Some(
        PlistView::Text(selector),
    ) && property_list::lookup(dict, "__argument"@) == Some(PlistView::Dictionary(args))
}

/// What is no message is refused, with the reason.
pub proof fn law_no_message(value: PlistView)
    ensures
        !(value is Dictionary) ==> rpc::message_in(value) == std::result::Result::<
            MessageView,
            Failure,
        >::Err(Failure::Rpc("RPC message is not a dictionary"@)),
        value matches PlistView::Dictionary(dict) ==> {
            &&& property_list::string_at(dict, "__selector"@) is None ==> rpc::message_in(value)
                == std::result::Result::<MessageView, Failure>::Err(
                Failure::Rpc("Missing __selector"@),
            )
            &&& property_list::string_at(dict, "__selector"@) is Some
                && property_list::dictionary_at(dict, "__argument"@) is None ==> rpc::message_in(
                value,
            ) == std::result::Result::<MessageView, Failure>::Err(
                Failure::Rpc("Missing __argument"@),
            )
        },
{
}

/// The answer of WebInspector is read as such, whatever its arguments are.
pub proof fn law_setup_read(value: PlistView, args: Entries)
    requires
        is_message_of(value, "_rpc_reportSetup:"@, args),
    ensures
        rpc::message_in(value) == std::result::Result::<MessageView, Failure>::Ok(
            MessageView::ReportSetup,
        ),
{
}

/// A report of applications is read as the applications that it lists, and is refused without a
/// list.
pub proof fn law_apps_report_read(value: PlistView, args: Entries, listed: Entries)
    requires
        is_message_of(value, "_rpc_reportConnectedApplicationList:"@, args),
    ensures
        property_list::lookup(args, "WIRApplicationDictionaryKey"@) == Some(
            PlistView::Dictionary(listed),
        ) ==> rpc::message_in(value) == std::result::Result::<MessageView, Failure>::Ok(
            MessageView::ReportConnectedApplicationList(rpc::apps_among(listed)),
        ),
        property_list::dictionary_at(args, "WIRApplicationDictionaryKey"@) is None
            ==> rpc::message_in(value) == std::result::Result::<MessageView, Failure>::Err(
            Failure::Rpc("Missing WIRApplicationDictionaryKey"@),
        ),
{
    lemma_selectors_differ();
}

/// Word of an application that came, or went, is read as that application, and is refused where it
/// names none.
pub proof fn law_app_message_read(value: PlistView, args: Entries)
    ensures
        is_message_of(value, "_rpc_applicationConnected:"@, args) ==> (rpc::message_in(value)
            matches Ok(m) ==> (m matches MessageView::ApplicationConnected(app) && rpc::app_in(args)
            == std::result::Result::<AppView, Failure>::Ok(app))),
        is_message_of(value, "_rpc_applicationDisconnected:"@, args) ==> (rpc::message_in(value)
            matches Ok(m) ==> (m matches MessageView::ApplicationDisconnected(app) && rpc::app_in(
            args,
        ) == std::result::Result::<AppView, Failure>::Ok(app))),
        is_message_of(value, "_rpc_applicationConnected:"@, args) || is_message_of(
            value,
            "_rpc_applicationDisconnected:"@,
            args,
        ) ==> (rpc::message_in(value) is Ok <==> property_list::string_at(
            args,
            "WIRApplicationIdentifierKey"@,
        ) is Some),
{
    lemma_selectors_differ();
}

/// A listing is read as the pages that it holds, of the application that it names: none if it holds
/// no list. It is refused if it names no application, or if a page of it cannot be read.
pub proof fn law_listing_read(value: PlistView, args: Entries, app_id: Seq<char>, listed: Entries)
    requires
        is_message_of(value, "_rpc_applicationSentListing:"@, args),
    ensures
        property_list::string_at(args, "WIRApplicationIdentifierKey"@) is None ==> rpc::message_in(
            value,
        ) is Err,
        property_list::string_at(args, "WIRApplicationIdentifierKey"@) == Some(app_id) ==> {
            &&& property_list::lookup(args, "WIRListingKey"@) is None ==> rpc::message_in(value)
                == std::result::Result::<MessageView, Failure>::Ok(
                MessageView::ApplicationSentListing { app_id, pages: Seq::empty() },
            )
            &&& property_list::lookup(args, "WIRListingKey"@) == Some(PlistView::Dictionary(listed))
                ==> match rpc::pages_among(listed) {
                Ok(pages) => rpc::message_in(value) == std::result::Result::<
                    MessageView,
                    Failure,
                >::Ok(MessageView::ApplicationSentListing { app_id, pages }),
                Err(f) => rpc::message_in(value) == std::result::Result::<
                    MessageView,
                    Failure,
                >::Err(f),
            }
            &&& property_list::lookup(args, "WIRListingKey"@) matches Some(v) ==> (!(
            v is Dictionary) ==> rpc::message_in(value) == std::result::Result::<
                MessageView,
                Failure,
            >::Err(Failure::Rpc("WIRListingKey is not a dictionary"@)))
        },
{
    lemma_selectors_differ();
}

/// Data from an application is read whole, with the application that it comes from and the client
/// that it is for; it is refused if one of these is not there.
pub proof fn law_data_read(
    value: PlistView,
    args: Entries,
    app_id: Seq<char>,
    dest_id: Seq<char>,
    data: Seq<u8>,
)
    requires
        is_message_of(value, "_rpc_applicationSentData:"@, args),
    ensures
        property_list::lookup(args, "WIRApplicationIdentifierKey"@) == Some(PlistView::Text(app_id))
            && property_list::lookup(args, "WIRDestinationKey"@) == Some(PlistView::Text(dest_id))
            && property_list::lookup(args, "WIRMessageDataKey"@) == Some(PlistView::Data(data))
            <==> rpc::message_in(value) == std::result::Result::<MessageView, Failure>::Ok(
            MessageView::ApplicationSentData { app_id, dest_id, data },
        ),
        rpc::message_in(value) is Ok <==> property_list::string_at(
            args,
            "WIRApplicationIdentifierKey"@,
        ) is Some && property_list::string_at(args, "WIRDestinationKey"@) is Some
            && property_list::data_at(args, "WIRMessageDataKey"@) is Some,
{
    lemma_selectors_differ();
}

/// Word of an application that changed is read with its host, or with its name where no host is
/// named; it is refused if neither is there, or if it names no application.
pub proof fn law_update_read(value: PlistView, args: Entries, host: Seq<char>, app_id: Seq<char>)
    requires
        is_message_of(value, "_rpc_applicationUpdated:"@, args),
    ensures
        property_list::string_at(args, "WIRApplicationIdentifierKey"@) == Some(app_id) && (
        property_list::string_at(args, "WIRHostApplicationIdentifierKey"@) == Some(host) || (
        property_list::string_at(args, "WIRHostApplicationIdentifierKey"@) is None
            && property_list::string_at(args, "WIRApplicationNameKey"@) == Some(host)))
            ==> rpc::message_in(value) == std::result::Result::<MessageView, Failure>::Ok(
            MessageView::ApplicationUpdated { app_id: host, dest_id: app_id },
        ),
        rpc::message_in(value) is Ok <==> property_list::string_at(
            args,
            "WIRApplicationIdentifierKey"@,
        ) is Some && (property_list::string_at(args, "WIRHostApplicationIdentifierKey"@) is Some
            || property_list::string_at(args, "WIRApplicationNameKey"@) is Some),
{
    lemma_selectors_differ();
}

/// Any other message is read as one that is not known, by its name.
pub proof fn law_other_message(value: PlistView, selector: Seq<char>, args: Entries)
    requires
        is_message_of(value, selector, args),
        selector != "_rpc_reportSetup:"@,
        selector != "_rpc_reportConnectedApplicationList:"@,
        selector != "_rpc_applicationConnected:"@,
        selector != "_rpc_applicationDisconnected:"@,
        selector != "_rpc_applicationSentListing:"@,
        selector != "_rpc_applicationSentData:"@,
        selector != "_rpc_applicationUpdated:"@,
    ensures
        rpc::message_in(value) == std::result::Result::<MessageView, Failure>::Ok(
            MessageView::Unknown(selector),
        ),
{
}

// ---------------------------------------------------------------------------------------------
// Messages to the device
// ---------------------------------------------------------------------------------------------

/// The argument of a message under a key.
pub open spec fn argument(message: PlistView, key: Seq<char>) -> Option<PlistView> {
    match message {
        PlistView::Dictionary(dict) => match property_list::lookup(dict, "__argument"@) {
            Some(PlistView::Dictionary(args)) => property_list::lookup(args, key),
            _ => None,
        },
        _ => None,
    }
}

/// The name of a message.
pub open spec fn selector_of(message: PlistView) -> Option<PlistView> {
    match message {
        PlistView::Dictionary(dict) => property_list::lookup(dict, "__selector"@),
        _ => None,
    }
}

/// The keys of the arguments differ.
proof fn lemma_keys_apart()
    ensures
        "__selector"@ != "__argument"@,
        "WIRConnectionIdentifierKey"@.len() == 26,
        "WIRApplicationIdentifierKey"@.len() == 27,
        "WIRPageIdentifierKey"@.len() == 20,
        "WIRIndicateEnabledKey"@.len() == 21,
        "WIRAutomaticallyPause"@.len() == 21,
        "WIRSenderKey"@.len() == 12,
        "WIRSocketDataKey"@.len() == 16,
{
    reveal_strlit("__selector");
    reveal_strlit("__argument");
    assert("__selector"@[2] == 's');
    assert("__argument"@[2] == 'a');
    reveal_strlit("WIRConnectionIdentifierKey");
    reveal_strlit("WIRApplicationIdentifierKey");
    reveal_strlit("WIRPageIdentifierKey");
    reveal_strlit("WIRIndicateEnabledKey");
    reveal_strlit("WIRAutomaticallyPause");
    reveal_strlit("WIRSenderKey");
    reveal_strlit("WIRSocketDataKey");
}

/// What stands under the keys of a message that was put together.
proof fn lemma_call(selector: Seq<char>, args: Entries, i: int)
    requires
        0 <= i < args.len(),
        forall|k: int| 0 <= k < i ==> (#[trigger] args[k]).0 != args[i].0,
    ensures
        selector_of(rpc::call(selector, args)) == Some(PlistView::Text(selector)),
        argument(rpc::call(selector, args), args[i].0) == Some(args[i].1),
{
    let dict = rpc::call(selector, args)->Dictionary_0;
    lemma_keys_apart();
    law_lookup(dict, "__selector"@, 0);
    law_lookup(dict, "__argument"@, 1);
    law_lookup(args, args[i].0, i);
}

/// The message that tells who is connecting names the connection.
pub proof fn law_identifier_reported(connection_id: Seq<char>)
    ensures
        ({
            let m = rpc::report_identifier(connection_id);
            &&& selector_of(m) == Some(PlistView::Text("_rpc_reportIdentifier:"@))
            &&& argument(m, "WIRConnectionIdentifierKey"@) == Some(PlistView::Text(connection_id))
        }),
        ({
            let m = rpc::get_connected_applications(connection_id);
            &&& selector_of(m) == Some(PlistView::Text("_rpc_getConnectedApplications:"@))
            &&& argument(m, "WIRConnectionIdentifierKey"@) == Some(PlistView::Text(connection_id))
        }),
{
    let args = rpc::caller_args(connection_id);
    lemma_call("_rpc_reportIdentifier:"@, args, 0);
    lemma_call("_rpc_getConnectedApplications:"@, args, 0);
}

/// The message that asks for the pages of an application names it and the connection.
pub proof fn law_listing_asked(connection_id: Seq<char>, app_id: Seq<char>)
    ensures
        ({
            let m = rpc::forward_get_listing(connection_id, app_id);
            &&& selector_of(m) == Some(PlistView::Text("_rpc_forwardGetListing:"@))
            &&& argument(m, "WIRConnectionIdentifierKey"@) == Some(PlistView::Text(connection_id))
            &&& argument(m, "WIRApplicationIdentifierKey"@) == Some(PlistView::Text(app_id))
        }),
{
    let args = rpc::app_args(connection_id, app_id);
    lemma_keys_apart();
    lemma_call("_rpc_forwardGetListing:"@, args, 0);
    lemma_call("_rpc_forwardGetListing:"@, args, 1);
}

/// The message that has a page highlighted names the page, and says whether it is to be.
pub proof fn law_highlight_asked(
    connection_id: Seq<char>,
    app_id: Seq<char>,
    page_id: u32,
    is_enabled: bool,
)
    ensures
        ({
            let m = rpc::forward_indicate_web_view(connection_id, app_id, page_id, is_enabled);
            &&& selector_of(m) == Some(PlistView::Text("_rpc_forwardIndicateWebView:"@))
            &&& argument(m, "WIRConnectionIdentifierKey"@) == Some(PlistView::Text(connection_id))
            &&& argument(m, "WIRApplicationIdentifierKey"@) == Some(PlistView::Text(app_id))
            &&& argument(m, "WIRPageIdentifierKey"@) == Some(PlistView::Unsigned(page_id as u64))
            &&& argument(m, "WIRIndicateEnabledKey"@) == Some(PlistView::Boolean(is_enabled))
        }),
{
    let m = rpc::forward_indicate_web_view(connection_id, app_id, page_id, is_enabled);
    let name = "_rpc_forwardIndicateWebView:"@;
    let args = property_list::lookup(m->Dictionary_0, "__argument"@).unwrap()->Dictionary_0;
    lemma_keys_apart();
    law_lookup(m->Dictionary_0, "__argument"@, 1);
    lemma_call(name, args, 0);
    lemma_call(name, args, 1);
    lemma_call(name, args, 2);
    lemma_call(name, args, 3);
}

/// The message that opens a debugging session names the page and the client, and does not pause
/// the page.
pub proof fn law_session_opened(
    connection_id: Seq<char>,
    app_id: Seq<char>,
    page_id: u32,
    sender_id: Seq<char>,
)
    ensures
        ({
            let m = rpc::forward_socket_setup(connection_id, app_id, page_id, sender_id);
            &&& selector_of(m) == Some(PlistView::Text("_rpc_forwardSocketSetup:"@))
            &&& argument(m, "WIRConnectionIdentifierKey"@) == Some(PlistView::Text(connection_id))
            &&& argument(m, "WIRApplicationIdentifierKey"@) == Some(PlistView::Text(app_id))
            &&& argument(m, "WIRPageIdentifierKey"@) == Some(PlistView::Unsigned(page_id as u64))
            &&& argument(m, "WIRSenderKey"@) == Some(PlistView::Text(sender_id))
            &&& argument(m, "WIRAutomaticallyPause"@) == Some(PlistView::Boolean(false))
        }),
{
    let m = rpc::forward_socket_setup(connection_id, app_id, page_id, sender_id);
    let name = "_rpc_forwardSocketSetup:"@;
    let args = property_list::lookup(m->Dictionary_0, "__argument"@).unwrap()->Dictionary_0;
    lemma_keys_apart();
    law_lookup(m->Dictionary_0, "__argument"@, 1);
    lemma_call(name, args, 0);
    lemma_call(name, args, 1);
    lemma_call(name, args, 2);
    lemma_call(name, args, 3);
    lemma_call(name, args, 4);
}

/// The message that carries data to a page names the page and the client, and holds the data as it
/// is.
pub proof fn law_data_carried(
    connection_id: Seq<char>,
    app_id: Seq<char>,
    page_id: u32,
    sender_id: Seq<char>,
    data: Seq<u8>,
)
    ensures
        ({
            let m = rpc::forward_socket_data(connection_id, app_id, page_id, sender_id, data);
            &&& selector_of(m) == Some(PlistView::Text("_rpc_forwardSocketData:"@))
            &&& argument(m, "WIRConnectionIdentifierKey"@) == Some(PlistView::Text(connection_id))
            &&& argument(m, "WIRApplicationIdentifierKey"@) == Some(PlistView::Text(app_id))
            &&& argument(m, "WIRPageIdentifierKey"@) == Some(PlistView::Unsigned(page_id as u64))
            &&& argument(m, "WIRSenderKey"@) == Some(PlistView::Text(sender_id))
            &&& argument(m, "WIRSocketDataKey"@) == Some(PlistView::Data(data))
        }),
{
    let m = rpc::forward_socket_data(connection_id, app_id, page_id, sender_id, data);
    let name = "_rpc_forwardSocketData:"@;
    let args = property_list::lookup(m->Dictionary_0, "__argument"@).unwrap()->Dictionary_0;
    lemma_keys_apart();
    law_lookup(m->Dictionary_0, "__argument"@, 1);
    lemma_call(name, args, 0);
    lemma_call(name, args, 1);
    lemma_call(name, args, 2);
    lemma_call(name, args, 3);
    lemma_call(name, args, 4);
}

/// The message that ends a debugging session names the page and the client.
pub proof fn law_session_closed(
    connection_id: Seq<char>,
    app_id: Seq<char>,
    page_id: u32,
    sender_id: Seq<char>,
)
    ensures
        ({
            let m = rpc::forward_did_close(connection_id, app_id, page_id, sender_id);
            &&& selector_of(m) == Some(PlistView::Text("_rpc_forwardDidClose:"@))
            &&& argument(m, "WIRConnectionIdentifierKey"@) == Some(PlistView::Text(connection_id))
            &&& argument(m, "WIRApplicationIdentifierKey"@) == Some(PlistView::Text(app_id))
            &&& argument(m, "WIRPageIdentifierKey"@) == Some(PlistView::Unsigned(page_id as u64))
            &&& argument(m, "WIRSenderKey"@) == Some(PlistView::Text(sender_id))
        }),
{
    let m = rpc::forward_did_close(connection_id, app_id, page_id, sender_id);
    let name = "_rpc_forwardDidClose:"@;
    let args = property_list::lookup(m->Dictionary_0, "__argument"@).unwrap()->Dictionary_0;
    lemma_keys_apart();
    law_lookup(m->Dictionary_0, "__argument"@, 1);
    lemma_call(name, args, 0);
    lemma_call(name, args, 1);
    lemma_call(name, args, 2);
    lemma_call(name, args, 3);
}

} // verus!
