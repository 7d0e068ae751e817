//! The proxy core: what is known of every device, and what each event does to it.
//!
//! Nothing here waits or talks to the outside. Every handler changes the table of devices and says
//! in a list of [`Action`]s what is to be done, in order.

use crate::error::{Error, Failure};
use crate::http_server;
use crate::http_server::{DevicePortState, EntryView, PageEntry, PortStateView, WsToWiMessage};
use crate::property_list;
use crate::property_list::PlistView;
use crate::rpc;
use crate::rpc::{AppView, MessageView, RpcApp, RpcMessage, RpcPage, RpcSender};
use crate::seqs;
use crate::text;
use crate::webinspector;
use crate::webinspector::{WebInspectorCodec, WiEvent, WiReader};
use crate::{
    DebuggablePageInfo, DebuggableView, DeviceInfo, DeviceListener, InfoView, PageType,
};
use std::ops::Range;
use std::sync::Arc;
use vstd::hash_map::StringHashMap;
use vstd::hash_set::StringHashSet;
use vstd::prelude::*;
#[allow(unused_imports)]
use vstd::string::*;

verus! {

// ---------------------------------------------------------------------------------------------
// Pages
// ---------------------------------------------------------------------------------------------

/// A page that can be debugged.
#[derive(Debug)]
pub struct PageInfo {
    pub page_num: u32,
    pub page_type: PageType,
    pub app_id: String,
    pub page_id: u32,
    pub connection_id: Option<String>,
    pub title: Option<String>,
    pub url: Option<String>,
    /// The sender in whose name the page is debugged, while it is.
    pub sender_id: Option<String>,
    /// The WebSocket client that debugs the page, while one does.
    pub ws_client_id: Option<String>,
}

/// A [`PageInfo`] over characters.
pub struct PageInfoView {
    pub page_num: u32,
    pub page_type: PageType,
    pub app_id: Seq<char>,
    pub page_id: u32,
    pub connection_id: Option<Seq<char>>,
    pub title: Option<Seq<char>>,
    pub url: Option<Seq<char>>,
    pub sender_id: Option<Seq<char>>,
    pub ws_client_id: Option<Seq<char>>,
}

impl View for PageInfo {
    type V = PageInfoView;

    open spec fn view(&self) -> PageInfoView {
        PageInfoView {
            page_num: self.page_num,
            page_type: self.page_type,
            app_id: self.app_id@,
            page_id: self.page_id,
            connection_id: text::option_view(self.connection_id),
            title: text::option_view(self.title),
            url: text::option_view(self.url),
            sender_id: text::option_view(self.sender_id),
            ws_client_id: text::option_view(self.ws_client_id),
        }
    }
}

/// The views of a list of pages.
pub open spec fn page_infos(pages: Seq<PageInfo>) -> Seq<PageInfoView> {
    Seq::new(pages.len(), |i: int| pages[i]@)
}

/// Whether a page has this number.
pub open spec fn numbered(page_num: u32) -> spec_fn(PageInfoView) -> bool {
    |p: PageInfoView| p.page_num == page_num
}

/// Whether a page is the one that an application knows under this identifier.
pub open spec fn identified(app_id: Seq<char>, page_id: u32) -> spec_fn(PageInfoView) -> bool {
    |p: PageInfoView| p.app_id == app_id && p.page_id == page_id
}

/// Finds the page with a number: its position, or the length if there is none.
fn find_numbered(pages: &Vec<PageInfo>, page_num: u32) -> (r: usize)
    ensures
        r == seqs::first_index(page_infos(pages@), numbered(page_num)),
        r <= pages@.len(),
        r < pages@.len() ==> pages@[r as int].page_num == page_num,
{
    let ghost views = page_infos(pages@);
    let mut i: usize = 0;
    while i < pages.len() && pages[i].page_num != page_num
        invariant
            i <= pages@.len(),
            views == page_infos(pages@),
            forall|k: int| 0 <= k < i ==> !numbered(page_num)(#[trigger] views[k]),
        decreases pages@.len() - i,
    {
        assert(!numbered(page_num)(views[i as int]));
        i = i + 1;
    }
    proof {
        seqs::lemma_is_first_index(views, numbered(page_num), i as int);
    }
    i
}

/// Finds an application's page: its position, or the length if there is none.
fn find_identified(pages: &Vec<PageInfo>, app_id: &str, page_id: u32) -> (r: usize)
    ensures
        r == seqs::first_index(page_infos(pages@), identified(app_id@, page_id)),
        r <= pages@.len(),
{
    let ghost views = page_infos(pages@);
    let mut i: usize = 0;
    while i < pages.len() && !(pages[i].page_id == page_id && text::str_eq(
        pages[i].app_id.as_str(),
        app_id,
    ))
        invariant
            i <= pages@.len(),
            views == page_infos(pages@),
            forall|k: int| 0 <= k < i ==> !identified(app_id@, page_id)(#[trigger] views[k]),
        decreases pages@.len() - i,
    {
        assert(!identified(app_id@, page_id)(views[i as int]));
        i = i + 1;
    }
    proof {
        seqs::lemma_is_first_index(views, identified(app_id@, page_id), i as int);
    }
    i
}

/// A page that was not known before.
pub open spec fn new_page(page_num: u32, app_id: Seq<char>, p: rpc::PageView) -> PageInfoView {
    PageInfoView {
        page_num,
        page_type: p.page_type,
        app_id,
        page_id: p.page_id,
        connection_id: p.connection_id,
        title: p.title,
        url: p.url,
        sender_id: None,
        ws_client_id: None,
    }
}

/// The pages of a device, and the highest number that a page of it was ever given.
pub struct PageTable {
    pub pages: Seq<PageInfoView>,
    pub max: u32,
}

/// What one listed page does: a page that is known keeps its number and gets the new title,
/// address and connection; another gets the next number.
pub open spec fn list_one(n: PageTable, app_id: Seq<char>, p: rpc::PageView) -> PageTable {
    let i = seqs::first_index(n.pages, identified(app_id, p.page_id));
    if i < n.pages.len() {
        PageTable {
            pages: n.pages.update(
                i,
                PageInfoView {
                    title: p.title,
                    url: p.url,
                    connection_id: p.connection_id,
                    ..n.pages[i]
                },
            ),
            max: n.max,
        }
    } else {
        let num = (n.max + 1) as u32;
        PageTable { pages: n.pages.push(new_page(num, app_id, p)), max: num }
    }
}

/// What listed pages do, one after the other.
pub open spec fn list_all(n: PageTable, app_id: Seq<char>, listed: Seq<rpc::PageView>) -> PageTable
    decreases listed.len(),
{
    if listed.len() == 0 {
        n
    } else {
        list_all(list_one(n, app_id, listed[0]), app_id, listed.skip(1))
    }
}

/// Whether a page with this identifier is listed.
pub open spec fn lists(listed: Seq<rpc::PageView>, page_id: u32) -> bool {
    exists|i: int| 0 <= i < listed.len() && (#[trigger] listed[i]).page_id == page_id
}

/// Whether a page stays when an application lists its pages: it is another application's, or it
/// is listed.
pub open spec fn stays(app_id: Seq<char>, listed: Seq<rpc::PageView>) -> spec_fn(
    PageInfoView,
) -> bool {
    |p: PageInfoView| p.app_id != app_id || lists(listed, p.page_id)
}

/// What a listing does: the listed pages are taken in, and the application's other pages go.
pub open spec fn list_pages(n: PageTable, app_id: Seq<char>, listed: Seq<rpc::PageView>) -> PageTable {
    let all = list_all(n, app_id, listed);
    PageTable { pages: all.pages.filter(stays(app_id, listed)), max: all.max }
}

/// The identifiers of an application's pages.
pub open spec fn known_ids(pages: Seq<PageInfoView>, app_id: Seq<char>) -> Set<u32> {
    Set::new(
        |id: u32|
            exists|i: int|
                0 <= i < pages.len() && (#[trigger] pages[i]).app_id == app_id && pages[i].page_id
                    == id,
    )
}

/// How many listed pages are new, where those in `known` are not.
pub open spec fn new_count(known: Set<u32>, listed: Seq<rpc::PageView>) -> nat
    decreases listed.len(),
{
    if listed.len() == 0 {
        0
    } else if known.contains(listed[0].page_id) {
        new_count(known, listed.skip(1))
    } else {
        1 + new_count(known.insert(listed[0].page_id), listed.skip(1))
    }
}

/// Whether there are numbers left for the pages of a listing that are new.
pub open spec fn has_numbers(n: PageTable, app_id: Seq<char>, listed: Seq<rpc::PageView>) -> bool {
    n.max + new_count(known_ids(n.pages, app_id), listed) <= u32::MAX
}

/// Taking in one listed page uses a number just if the page is new.
pub(crate) proof fn lemma_list_one(n: PageTable, app_id: Seq<char>, p: rpc::PageView)
    ensures
        known_ids(n.pages, app_id).contains(p.page_id) <==> seqs::first_index(
            n.pages,
            identified(app_id, p.page_id),
        ) < n.pages.len(),
        n.max < u32::MAX || known_ids(n.pages, app_id).contains(p.page_id) ==> known_ids(
            list_one(n, app_id, p).pages,
            app_id,
        ) == known_ids(n.pages, app_id).insert(p.page_id),
{
    let f = identified(app_id, p.page_id);
    seqs::lemma_first_index(n.pages, f);
    let i = seqs::first_index(n.pages, f);
    let known = known_ids(n.pages, app_id);
    let after = list_one(n, app_id, p).pages;
    if known.contains(p.page_id) {
        let k = choose|k: int|
            0 <= k < n.pages.len() && (#[trigger] n.pages[k]).app_id == app_id && n.pages[k].page_id
                == p.page_id;
        assert(f(n.pages[k]));
    }
    let after_ids = known_ids(after, app_id);
    assert forall|id: u32| known.insert(p.page_id).contains(id) implies after_ids.contains(id) by {
        if known.contains(id) {
            let k = choose|k: int|
                0 <= k < n.pages.len() && (#[trigger] n.pages[k]).app_id == app_id
                    && n.pages[k].page_id == id;
            assert(after[k].app_id == app_id && after[k].page_id == id);
        } else {
            let last = after.len() - 1;
            assert(after[last].app_id == app_id && after[last].page_id == id);
        }
    }
    assert forall|id: u32| after_ids.contains(id) implies known.insert(p.page_id).contains(id) by {
        let k = choose|k: int|
            0 <= k < after.len() && (#[trigger] after[k]).app_id == app_id && after[k].page_id
                == id;
        if k < n.pages.len() {
            assert(n.pages[k].app_id == app_id && n.pages[k].page_id == id);
        }
    }
    assert(after_ids =~= known.insert(p.page_id));
}

/// Takes in one listed page.
fn list_page(pages: &mut Vec<PageInfo>, max_page_num: &mut u32, app_id: &str, page: &RpcPage)
    requires
        *old(max_page_num) < u32::MAX || known_ids(page_infos(old(pages)@), app_id@).contains(
            page.page_id,
        ),
    ensures
        (PageTable { pages: page_infos(final(pages)@), max: *final(max_page_num) }) == list_one(
            PageTable { pages: page_infos(old(pages)@), max: *old(max_page_num) },
            app_id@,
            page@,
        ),
{
    let ghost before = page_infos(pages@);
    proof {
        lemma_list_one(PageTable { pages: before, max: *max_page_num }, app_id@, page@);
    }
    let i = find_identified(pages, app_id, page.page_id);
    if i < pages.len() {
        let p = &mut pages[i];
        p.title = text::copy_option(&page.title);
        p.url = text::copy_option(&page.url);
        p.connection_id = text::copy_option(&page.connection_id);
        assert(page_infos(pages@) =~= before.update(
            i as int,
            PageInfoView {
                title: page@.title,
                url: page@.url,
                connection_id: page@.connection_id,
                ..before[i as int]
            },
        ));
    } else {
        *max_page_num = *max_page_num + 1;
        pages.push(
            PageInfo {
                page_num: *max_page_num,
                page_type: page.page_type,
                app_id: app_id.to_owned(),
                page_id: page.page_id,
                connection_id: text::copy_option(&page.connection_id),
                title: text::copy_option(&page.title),
                url: text::copy_option(&page.url),
                sender_id: None,
                ws_client_id: None,
            },
        );
        assert(page_infos(pages@) =~= before.push(new_page(*max_page_num, app_id@, page@)));
    }
}

/// Tests whether a page with this identifier is listed.
fn is_listed(listed: &Vec<RpcPage>, page_id: u32) -> (r: bool)
    ensures
        r == lists(rpc::pages_view(listed@), page_id),
{
    let ghost views = rpc::pages_view(listed@);
    let mut i: usize = 0;
    while i < listed.len()
        invariant
            i <= listed@.len(),
            views == rpc::pages_view(listed@),
            forall|k: int| 0 <= k < i ==> (#[trigger] views[k]).page_id != page_id,
        decreases listed@.len() - i,
    {
        assert(views[i as int].page_id == listed@[i as int].page_id);
        if listed[i].page_id == page_id {
            return true;
        }
        i = i + 1;
    }
    false
}

/// Removes the application's pages that are not listed.
fn drop_unlisted(pages: &mut Vec<PageInfo>, app_id: &str, listed: &Vec<RpcPage>)
    ensures
        page_infos(final(pages)@) == page_infos(old(pages)@).filter(
            stays(app_id@, rpc::pages_view(listed@)),
        ),
{
    let ghost all = page_infos(pages@);
    let ghost f = stays(app_id@, rpc::pages_view(listed@));
    let ghost mut seen: int = 0;
    let mut i: usize = 0;
    proof {
        reveal(Seq::filter);
        assert(all.take(0).filter(f) + all.skip(0) =~= all);
    }
    while i < pages.len()
        invariant
            i <= pages@.len(),
            0 <= seen <= all.len(),
            f == stays(app_id@, rpc::pages_view(listed@)),
            i == all.take(seen).filter(f).len(),
            page_infos(pages@) == all.take(seen).filter(f) + all.skip(seen),
        decreases pages@.len() - i,
    {
        let ghost before = page_infos(pages@);
        let ghost done = all.take(seen).filter(f);
        assert(before[i as int] == all[seen]);
        assert(before[i as int] == pages@[i as int]@);
        proof {
            reveal(Seq::filter);
            assert(all.take(seen + 1).drop_last() =~= all.take(seen));
            assert(all.take(seen + 1).last() == all[seen]);
        }
        let own = text::str_eq(pages[i].app_id.as_str(), app_id);
        if !own || is_listed(listed, pages[i].page_id) {
            i = i + 1;
            assert(before =~= done.push(all[seen]) + all.skip(seen + 1));
        } else {
            let ghost raw = pages@;
            pages.remove(i);
            assert(pages@ =~= raw.remove(i as int));
            assert(page_infos(pages@) =~= before.remove(i as int));
            assert(before.remove(i as int) =~= done + all.skip(seen + 1));
        }
        proof {
            seen = seen + 1;
        }
    }
    assert(all.skip(seen) =~= Seq::empty());
    assert(all.take(seen) =~= all);
}

// ---------------------------------------------------------------------------------------------
// Devices and what is to be done
// ---------------------------------------------------------------------------------------------

/// What is known of a connected device.
pub struct DeviceRuntime {
    /// The port that its endpoints are served on.
    pub port: u16,
    pub device_id: String,
    pub device_name: Option<String>,
    pub device_os_version: u32,
    /// Whether WebInspector on the device has answered.
    pub connected: bool,
    /// Puts messages into packets for the device.
    pub wi_codec: WebInspectorCodec,
    /// Puts messages into bytes, in the name of this connection.
    pub rpc_sender: RpcSender,
    /// The applications whose pages were asked for.
    pub app_ids: StringHashSet,
    /// The application that came up last.
    pub current_app: Option<RpcApp>,
    /// The pages, by ascending number.
    pub pages: Vec<PageInfo>,
    /// The highest number that a page was ever given.
    pub max_page_num: u32,
    /// The WebSocket clients, each with the number of its page.
    pub ws_clients: StringHashMap<u32>,
}

/// A [`DeviceRuntime`] over characters, sets and maps.
pub struct DeviceView {
    pub port: u16,
    pub device_id: Seq<char>,
    pub device_name: Option<Seq<char>>,
    pub device_os_version: u32,
    pub connected: bool,
    pub is_sim: bool,
    pub partials_supported: bool,
    pub connection_id: Seq<char>,
    pub app_ids: Set<Seq<char>>,
    pub current_app: Option<AppView>,
    pub table: PageTable,
    pub ws_clients: Map<Seq<char>, u32>,
}

/// An optional application by its view.
pub open spec fn app_view(app: Option<RpcApp>) -> Option<AppView> {
    match app {
        Some(a) => Some(a@),
        None => None,
    }
}

impl View for DeviceRuntime {
    type V = DeviceView;

    open spec fn view(&self) -> DeviceView {
        DeviceView {
            port: self.port,
            device_id: self.device_id@,
            device_name: text::option_view(self.device_name),
            device_os_version: self.device_os_version,
            connected: self.connected,
            is_sim: self.wi_codec.is_sim,
            partials_supported: self.wi_codec.partials_supported,
            connection_id: self.rpc_sender.connection_id@,
            app_ids: self.app_ids@,
            current_app: app_view(self.current_app),
            table: PageTable { pages: page_infos(self.pages@), max: self.max_page_num },
            ws_clients: self.ws_clients@,
        }
    }
}

/// What a [`DeviceListener`](crate::DeviceListener) is told.
pub enum Notice {
    Connected(DeviceInfo),
    Disconnected(DeviceInfo),
    PagesChanged(DeviceInfo, Vec<DebuggablePageInfo>),
}

/// Something to be done.
pub enum Action {
    /// Write these packets to the device, in order.
    Send { device_id: String, packets: Vec<Vec<u8>> },
    /// Hand this message to a WebSocket client.
    ToClient { device_id: String, ws_id: String, data: Vec<u8> },
    /// Keep the channel to a WebSocket client, in place of one with the same identifier.
    KeepClient { device_id: String, ws_id: String },
    /// Let go of the channel to a WebSocket client, if there is one.
    DropClient { device_id: String, ws_id: String },
    /// Show the device as connected on its own endpoints.
    MarkConnected { device_id: String },
    /// Show these pages on the device's endpoints.
    SharePages { device_id: String, pages: Vec<PageEntry> },
    /// Show these devices on the device list.
    ShareDevices { devices: Vec<DeviceInfo> },
    /// Serve the device's endpoints from this state: all of them, or the WebSocket alone.
    Serve { state: DevicePortState, all_endpoints: bool },
    /// Stop talking to the device and stop serving its endpoints.
    Release { device_id: String },
    /// Tell the listener.
    Notify(Notice),
}

/// A [`Notice`] over characters.
pub enum NoticeView {
    Connected(InfoView),
    Disconnected(InfoView),
    PagesChanged(InfoView, Seq<DebuggableView>),
}

/// An [`Action`] over characters and bytes.
pub enum ActionView {
    Send { device_id: Seq<char>, packets: Seq<Seq<u8>> },
    ToClient { device_id: Seq<char>, ws_id: Seq<char>, data: Seq<u8> },
    KeepClient { device_id: Seq<char>, ws_id: Seq<char> },
    DropClient { device_id: Seq<char>, ws_id: Seq<char> },
    MarkConnected { device_id: Seq<char> },
    SharePages { device_id: Seq<char>, pages: Seq<EntryView> },
    ShareDevices { devices: Seq<InfoView> },
    Serve { state: PortStateView, all_endpoints: bool },
    Release { device_id: Seq<char> },
    Notify(NoticeView),
}

/// The views of a list of pages.
pub open spec fn debuggables_view(pages: Seq<DebuggablePageInfo>) -> Seq<DebuggableView> {
    Seq::new(pages.len(), |i: int| pages[i]@)
}

impl View for Notice {
    type V = NoticeView;

    open spec fn view(&self) -> NoticeView {
        match *self {
            Notice::Connected(info) => NoticeView::Connected(info@),
            Notice::Disconnected(info) => NoticeView::Disconnected(info@),
            Notice::PagesChanged(info, pages) => NoticeView::PagesChanged(
                info@,
                debuggables_view(pages@),
            ),
        }
    }
}

impl View for Action {
    type V = ActionView;

    open spec fn view(&self) -> ActionView {
        match *self {
            Action::Send { device_id, packets } => ActionView::Send {
                device_id: device_id@,
                packets: webinspector::bytes_view(packets@),
            },
            Action::ToClient { device_id, ws_id, data } => ActionView::ToClient {
                device_id: device_id@,
                ws_id: ws_id@,
                data: data@,
            },
            Action::KeepClient { device_id, ws_id } => ActionView::KeepClient {
                device_id: device_id@,
                ws_id: ws_id@,
            },
            Action::DropClient { device_id, ws_id } => ActionView::DropClient {
                device_id: device_id@,
                ws_id: ws_id@,
            },
            Action::MarkConnected { device_id } => ActionView::MarkConnected {
                device_id: device_id@,
            },
            Action::SharePages { device_id, pages } => ActionView::SharePages {
                device_id: device_id@,
                pages: http_server::entries_view(pages@),
            },
            Action::ShareDevices { devices } => ActionView::ShareDevices {
                devices: crate::infos_view(devices@),
            },
            Action::Serve { state, all_endpoints } => ActionView::Serve {
                state: state@,
                all_endpoints,
            },
            Action::Release { device_id } => ActionView::Release { device_id: device_id@ },
            Action::Notify(n) => ActionView::Notify(n@),
        }
    }
}

/// The views of a list of actions.
pub open spec fn actions_view(actions: Seq<Action>) -> Seq<ActionView> {
    Seq::new(actions.len(), |i: int| actions[i]@)
}

/// Adds an action to a list.
fn enqueue(actions: &mut Vec<Action>, a: Action)
    ensures
        actions_view(final(actions)@) == actions_view(old(actions)@).push(a@),
{
    let ghost before = actions@;
    actions.push(a);
    assert(actions_view(actions@) =~= actions_view(before).push(a@));
}

// ---------------------------------------------------------------------------------------------
// One device
// ---------------------------------------------------------------------------------------------

/// What an event does to a device, and what is then to be done.
pub struct Effect {
    pub device: DeviceView,
    pub actions: Seq<ActionView>,
}

/// A page as the endpoints show it.
pub open spec fn entry_of(p: PageInfoView) -> EntryView {
    EntryView {
        page_num: p.page_num,
        app_id: p.app_id,
        page_id: p.page_id,
        title: p.title,
        url: p.url,
        sender_id: p.sender_id,
    }
}

/// The address at which a page is debugged.
pub open spec fn debugger_url(port: u16, page_num: u32) -> Seq<char> {
    "ws://localhost:"@ + text::decimal(port as nat) + "/devtools/page/"@ + text::decimal(
        page_num as nat,
    )
}

impl DeviceView {
    /// The device as it is shown to others.
    pub open spec fn info(self) -> InfoView {
        InfoView {
            device_id: self.device_id,
            device_name: text::chars_or(self.device_name, Seq::empty()),
            device_os_version: self.device_os_version,
            port: self.port,
        }
    }

    /// Sending a message to the device, in the packets that the device takes.
    pub open spec fn sends(self, message: PlistView) -> ActionView {
        ActionView::Send {
            device_id: self.device_id,
            packets: webinspector::packets_of(
                webinspector::bodies(
                    self.is_sim,
                    self.partials_supported,
                    property_list::plist_written(message),
                ),
            ),
        }
    }

    /// A page as a listener is told of it.
    pub open spec fn debuggable(self, p: PageInfoView) -> DebuggableView {
        DebuggableView {
            device_id: self.device_id,
            page_num: p.page_num,
            page_type: p.page_type,
            name: text::chars_or(p.title, Seq::empty()),
            web_socket_debugger_url: debugger_url(self.port, p.page_num),
            device_os_version: self.device_os_version,
        }
    }

    /// What is to be done when the pages have changed: the endpoints show them, and a listener, if
    /// there is one, is told.
    pub open spec fn pages_changed(self, has_listener: bool) -> Seq<ActionView> {
        let pages = self.table.pages;
        let share = ActionView::SharePages {
            device_id: self.device_id,
            pages: Seq::new(pages.len(), |i: int| entry_of(pages[i])),
        };
        if has_listener {
            seq![
                share,
                ActionView::Notify(
                    NoticeView::PagesChanged(
                        self.info(),
                        Seq::new(pages.len(), |i: int| self.debuggable(pages[i])),
                    ),
                ),
            ]
        } else {
            seq![share]
        }
    }

    /// An application is there. Its pages are asked for if it was not known.
    pub open spec fn app_added(self, app_id: Seq<char>) -> Effect {
        if self.app_ids.contains(app_id) {
            Effect { device: self, actions: Seq::empty() }
        } else {
            Effect {
                device: DeviceView { app_ids: self.app_ids.insert(app_id), ..self },
                actions: seq![self.sends(rpc::forward_get_listing(self.connection_id, app_id))],
            }
        }
    }

    /// An application is gone, and its pages with it.
    pub open spec fn app_removed(self, app_id: Seq<char>, has_listener: bool) -> Effect {
        let device = DeviceView {
            app_ids: self.app_ids.remove(app_id),
            table: PageTable {
                pages: self.table.pages.filter(stays(app_id, Seq::empty())),
                max: self.table.max,
            },
            ..self
        };
        Effect { device, actions: device.pages_changed(has_listener) }
    }

    /// An application has listed its pages.
    pub open spec fn pages_listed(
        self,
        app_id: Seq<char>,
        listed: Seq<rpc::PageView>,
        has_listener: bool,
    ) -> Effect {
        let device = DeviceView { table: list_pages(self.table, app_id, listed), ..self };
        Effect { device, actions: device.pages_changed(has_listener) }
    }

    /// Applications are there, one after the other; the last is the current one.
    pub open spec fn apps_reported(self, apps: Seq<AppView>) -> Effect
        decreases apps.len(),
    {
        if apps.len() == 0 {
            Effect { device: self, actions: Seq::empty() }
        } else {
            let before = self.apps_reported(apps.drop_last());
            let e = before.device.app_added(apps.last().app_id);
            Effect {
                device: DeviceView { current_app: Some(apps.last()), ..e.device },
                actions: before.actions + e.actions,
            }
        }
    }

    /// An application has sent data for a client. It is handed on if the client is known.
    pub open spec fn data_received(self, dest_id: Seq<char>, data: Seq<u8>) -> Effect {
        Effect {
            device: self,
            actions: if self.ws_clients.contains_key(dest_id) {
                seq![ActionView::ToClient { device_id: self.device_id, ws_id: dest_id, data }]
            } else {
                Seq::empty()
            },
        }
    }

    /// The position of the page with a number, or the length if there is none.
    pub open spec fn page_at(self, page_num: u32) -> int {
        seqs::first_index(self.table.pages, numbered(page_num))
    }

    /// The device with a page debugged by a client, or by none.
    pub open spec fn with_debugger(self, i: int, ws_id: Option<Seq<char>>) -> DeviceView {
        DeviceView {
            table: PageTable {
                pages: self.table.pages.update(
                    i,
                    PageInfoView { sender_id: ws_id, ws_client_id: ws_id, ..self.table.pages[i] },
                ),
                max: self.table.max,
            },
            ..self
        }
    }

    /// Debugging of a page ends. The device is told if the page was being debugged.
    pub open spec fn debugging_stopped(self, page_num: u32) -> Effect {
        let i = self.page_at(page_num);
        if i < self.table.pages.len() && self.table.pages[i].sender_id is Some {
            let p = self.table.pages[i];
            Effect {
                device: self.with_debugger(i, None),
                actions: seq![
                    self.sends(
                        rpc::forward_did_close(
                            self.connection_id,
                            p.app_id,
                            p.page_id,
                            p.sender_id.unwrap(),
                        ),
                    ),
                ],
            }
        } else {
            Effect { device: self, actions: Seq::empty() }
        }
    }

    /// A client starts to debug a page. Another client that was debugging it is put off first.
    pub open spec fn debugging_started(self, ws_id: Seq<char>, page_num: u32) -> Effect {
        let i = self.page_at(page_num);
        if i < self.table.pages.len() {
            let other = self.table.pages[i].ws_client_id;
            let freed = if other is Some && other != Some(ws_id) {
                self.debugging_stopped(page_num)
            } else {
                Effect { device: self, actions: Seq::empty() }
            };
            let p = self.table.pages[i];
            Effect {
                device: freed.device.with_debugger(i, Some(ws_id)),
                actions: freed.actions.push(
                    self.sends(
                        rpc::forward_socket_setup(self.connection_id, p.app_id, p.page_id, ws_id),
                    ),
                ),
            }
        } else {
            Effect { device: self, actions: Seq::empty() }
        }
    }

    /// A client has sent data for a page.
    pub open spec fn data_sent(self, ws_id: Seq<char>, page_num: u32, data: Seq<u8>) -> Effect {
        let i = self.page_at(page_num);
        Effect {
            device: self,
            actions: if i < self.table.pages.len() {
                let p = self.table.pages[i];
                seq![
                    self.sends(
                        rpc::forward_socket_data(
                            self.connection_id,
                            p.app_id,
                            p.page_id,
                            text::chars_or(p.sender_id, ws_id),
                            data,
                        ),
                    ),
                ]
            } else {
                Seq::empty()
            },
        }
    }

    /// A client is gone.
    pub open spec fn client_closed(self, ws_id: Seq<char>, page_num: u32) -> Effect {
        let e = self.debugging_stopped(page_num);
        Effect {
            device: DeviceView { ws_clients: e.device.ws_clients.remove(ws_id), ..e.device },
            actions: e.actions.push(
                ActionView::DropClient { device_id: self.device_id, ws_id },
            ),
        }
    }

    /// A client has sent a message.
    pub open spec fn client_message(
        self,
        ws_id: Seq<char>,
        page_num: u32,
        data: Seq<u8>,
        is_close: bool,
    ) -> Effect {
        if is_close {
            self.client_closed(ws_id, page_num)
        } else if data.len() == 0 {
            self.debugging_started(ws_id, page_num)
        } else {
            self.data_sent(ws_id, page_num, data)
        }
    }

    /// A client has come.
    pub open spec fn client_registered(self, ws_id: Seq<char>, page_num: u32) -> Effect {
        Effect {
            device: DeviceView { ws_clients: self.ws_clients.insert(ws_id, page_num), ..self },
            actions: seq![ActionView::KeepClient { device_id: self.device_id, ws_id }],
        }
    }
}

impl DeviceRuntime {
    /// The device as it is shown to others.
    pub fn info(&self) -> (r: DeviceInfo)
        ensures
            r@ == self@.info(),
    {
        proof {
            reveal_strlit("");
        }
        assert(""@ =~= Seq::<char>::empty());
        DeviceInfo {
            device_id: self.device_id.clone(),
            device_name: text::text_or(&self.device_name, ""),
            device_os_version: self.device_os_version,
            port: self.port,
        }
    }

    /// The packets to send for a message in bytes.
    fn send_plist(&self, rpc_bin: &[u8]) -> (r: Action)
        ensures
            r@ == (ActionView::Send {
                device_id: self.device_id@,
                packets: webinspector::packets_of(
                    webinspector::bodies(
                        self.wi_codec.is_sim,
                        self.wi_codec.partials_supported,
                        rpc_bin@,
                    ),
                ),
            }),
    {
        Action::Send {
            device_id: self.device_id.clone(),
            packets: self.wi_codec.encode_plist(rpc_bin),
        }
    }

    /// The pages as the endpoints show them.
    pub fn sync_pages(&self) -> (r: Vec<PageEntry>)
        ensures
            http_server::entries_view(r@) == Seq::new(
                self@.table.pages.len(),
                |i: int| entry_of(self@.table.pages[i]),
            ),
    {
        let ghost pages = self@.table.pages;
        let mut out: Vec<PageEntry> = Vec::new();
        let mut i: usize = 0;
        while i < self.pages.len()
            invariant
                i <= self.pages@.len(),
                pages == page_infos(self.pages@),
                http_server::entries_view(out@) =~= Seq::new(
                    i as nat,
                    |k: int| entry_of(pages[k]),
                ),
            decreases self.pages@.len() - i,
        {
            let p = &self.pages[i];
            let ghost before = out@;
            out.push(
                PageEntry {
                    page_num: p.page_num,
                    app_id: p.app_id.clone(),
                    page_id: p.page_id,
                    title: text::copy_option(&p.title),
                    url: text::copy_option(&p.url),
                    sender_id: text::copy_option(&p.sender_id),
                },
            );
            assert(http_server::entries_view(out@) =~= http_server::entries_view(before).push(
                entry_of(pages[i as int]),
            ));
            i = i + 1;
        }
        out
    }

    /// The address at which a page of the device is debugged.
    fn debugger_url(&self, page_num: u32) -> (r: String)
        ensures
            r@ == debugger_url(self.port, page_num),
    {
        let mut s = "ws://localhost:".to_owned();
        s.append(text::u64_text(self.port as u64).as_str());
        s.append("/devtools/page/");
        s.append(text::u64_text(page_num as u64).as_str());
        s
    }

    /// The pages as a listener is told of them.
    fn debuggable_pages(&self) -> (r: Vec<DebuggablePageInfo>)
        ensures
            debuggables_view(r@) == Seq::new(
                self@.table.pages.len(),
                |i: int| self@.debuggable(self@.table.pages[i]),
            ),
    {
        let ghost pages = self@.table.pages;
        let mut out: Vec<DebuggablePageInfo> = Vec::new();
        let mut i: usize = 0;
        proof {
            reveal_strlit("");
        }
        assert(""@ =~= Seq::<char>::empty());
        while i < self.pages.len()
            invariant
                i <= self.pages@.len(),
                pages == page_infos(self.pages@),
                ""@ == Seq::<char>::empty(),
                debuggables_view(out@) =~= Seq::new(
                    i as nat,
                    |k: int| self@.debuggable(pages[k]),
                ),
            decreases self.pages@.len() - i,
        {
            let p = &self.pages[i];
            let ghost before = out@;
            out.push(
                DebuggablePageInfo {
                    device_id: self.device_id.clone(),
                    page_num: p.page_num,
                    page_type: p.page_type,
                    name: text::text_or(&p.title, ""),
                    web_socket_debugger_url: self.debugger_url(p.page_num),
                    device_os_version: self.device_os_version,
                },
            );
            assert(debuggables_view(out@) =~= debuggables_view(before).push(
                self@.debuggable(pages[i as int]),
            ));
            i = i + 1;
        }
        out
    }

    /// What is to be done when the pages have changed.
    pub fn notify_page_list_changed(&self, has_listener: bool) -> (r: Vec<Action>)
        ensures
            actions_view(r@) == self@.pages_changed(has_listener),
    {
        let mut out: Vec<Action> = Vec::new();
        out.push(
            Action::SharePages { device_id: self.device_id.clone(), pages: self.sync_pages() },
        );
        if has_listener {
            out.push(Action::Notify(Notice::PagesChanged(self.info(), self.debuggable_pages())));
        }
        assert(actions_view(out@) =~= self@.pages_changed(has_listener));
        out
    }

    /// An application is there.
    pub fn add_app_id(&mut self, app_id: &str) -> (r: Vec<Action>)
        ensures
            final(self)@ == old(self)@.app_added(app_id@).device,
            actions_view(r@) == old(self)@.app_added(app_id@).actions,
    {
        let mut out: Vec<Action> = Vec::new();
        if !self.app_ids.contains(app_id) {
            self.app_ids.insert(app_id.to_owned());
            let rpc_bin = self.rpc_sender.build_forward_get_listing(app_id);
            out.push(self.send_plist(rpc_bin.as_slice()));
        }
        assert(actions_view(out@) =~= old(self)@.app_added(app_id@).actions);
        out
    }

    /// An application is gone.
    pub fn remove_app_id(&mut self, app_id: &str, has_listener: bool) -> (r: Vec<Action>)
        ensures
            final(self)@ == old(self)@.app_removed(app_id@, has_listener).device,
            actions_view(r@) == old(self)@.app_removed(app_id@, has_listener).actions,
    {
        let none: Vec<RpcPage> = Vec::new();
        assert(rpc::pages_view(none@) =~= Seq::empty());
        self.app_ids.remove(app_id);
        drop_unlisted(&mut self.pages, app_id, &none);
        self.notify_page_list_changed(has_listener)
    }

    /// An application has listed its pages.
    pub fn handle_page_listing(
        &mut self,
        app_id: &str,
        pages: &Vec<RpcPage>,
        has_listener: bool,
    ) -> (r: Vec<Action>)
        requires
            has_numbers(old(self)@.table, app_id@, rpc::pages_view(pages@)),
        ensures
            final(self)@ == old(self)@.pages_listed(
                app_id@,
                rpc::pages_view(pages@),
                has_listener,
            ).device,
            actions_view(r@) == old(self)@.pages_listed(
                app_id@,
                rpc::pages_view(pages@),
                has_listener,
            ).actions,
    {
        let ghost listed = rpc::pages_view(pages@);
        let ghost first = self@;
        let mut i: usize = 0;
        assert(listed.skip(0) =~= listed);
        while i < pages.len()
            invariant
                i <= pages@.len(),
                listed == rpc::pages_view(pages@),
                self@ == (DeviceView { table: self@.table, ..first }),
                has_numbers(self@.table, app_id@, listed.skip(i as int)),
                list_all(self@.table, app_id@, listed.skip(i as int)) == list_all(
                    first.table,
                    app_id@,
                    listed,
                ),
            decreases pages@.len() - i,
        {
            let ghost table = self@.table;
            assert(listed.skip(i as int)[0] == pages@[i as int]@);
            assert(listed.skip(i as int).skip(1) =~= listed.skip(i + 1));
            proof {
                lemma_list_one(table, app_id@, listed[i as int]);
                assert(known_ids(table.pages, app_id@).contains(listed[i as int].page_id)
                    ==> known_ids(table.pages, app_id@).insert(listed[i as int].page_id)
                    =~= known_ids(table.pages, app_id@));
            }
            list_page(&mut self.pages, &mut self.max_page_num, app_id, &pages[i]);
            i = i + 1;
        }
        drop_unlisted(&mut self.pages, app_id, pages);
        self.notify_page_list_changed(has_listener)
    }

    /// An application has sent data for a client.
    pub fn handle_app_data(&self, dest_id: &str, data: &[u8]) -> (r: Vec<Action>)
        ensures
            actions_view(r@) == self@.data_received(dest_id@, data@).actions,
    {
        let mut out: Vec<Action> = Vec::new();
        if self.ws_clients.contains_key(dest_id) {
            out.push(
                Action::ToClient {
                    device_id: self.device_id.clone(),
                    ws_id: dest_id.to_owned(),
                    data: vstd::slice::slice_to_vec(data),
                },
            );
        }
        assert(actions_view(out@) =~= self@.data_received(dest_id@, data@).actions);
        out
    }

    /// Debugging of a page ends.
    pub fn stop_devtools(&mut self, page_num: u32) -> (r: Vec<Action>)
        ensures
            final(self)@ == old(self)@.debugging_stopped(page_num).device,
            actions_view(r@) == old(self)@.debugging_stopped(page_num).actions,
    {
        let ghost before = self@;
        let mut out: Vec<Action> = Vec::new();
        let i = find_numbered(&self.pages, page_num);
        if i < self.pages.len() {
            let page = &self.pages[i];
            if let Some(sender_id) = &page.sender_id {
                let rpc_bin = self.rpc_sender.build_forward_did_close(
                    page.app_id.as_str(),
                    page.page_id,
                    sender_id.as_str(),
                );
                out.push(self.send_plist(rpc_bin.as_slice()));
                let p = &mut self.pages[i];
                p.sender_id = None;
                p.ws_client_id = None;
                assert(page_infos(self.pages@) =~= before.with_debugger(i as int, None).table.pages);
            }
        }
        assert(actions_view(out@) =~= old(self)@.debugging_stopped(page_num).actions);
        out
    }

    /// A client starts to debug a page.
    pub fn send_forward_socket_setup(&mut self, ws_id: &str, page_num: u32) -> (r: Vec<Action>)
        ensures
            final(self)@ == old(self)@.debugging_started(ws_id@, page_num).device,
            actions_view(r@) == old(self)@.debugging_started(ws_id@, page_num).actions,
    {
        let i = find_numbered(&self.pages, page_num);
        if i >= self.pages.len() {
            let out: Vec<Action> = Vec::new();
            assert(actions_view(out@) =~= Seq::empty());
            return out;
        }
        let displaced = match &self.pages[i].ws_client_id {
            Some(old_id) => !text::str_eq(old_id.as_str(), ws_id),
            None => false,
        };
        let mut out: Vec<Action> = Vec::new();
        assert(actions_view(out@) =~= Seq::empty());
        if displaced {
            out = self.stop_devtools(page_num);
        }
        let ghost freed = self@;
        assert(freed.table.pages.len() == old(self)@.table.pages.len());
        assert(freed.table.pages.len() == self.pages@.len());
        let page = &self.pages[i];
        let rpc_bin = self.rpc_sender.build_forward_socket_setup(
            page.app_id.as_str(),
            page.page_id,
            ws_id,
        );
        let setup = self.send_plist(rpc_bin.as_slice());
        let p = &mut self.pages[i];
        p.sender_id = Some(ws_id.to_owned());
        p.ws_client_id = Some(ws_id.to_owned());
        assert(page_infos(self.pages@) =~= freed.with_debugger(i as int, Some(ws_id@)).table.pages);
        enqueue(&mut out, setup);
        out
    }

    /// A client has sent a message.
    pub fn handle_ws_message(&mut self, msg: &WsToWiMessage) -> (r: Vec<Action>)
        ensures
            final(self)@ == old(self)@.client_message(
                msg.ws_id@,
                msg.page_num,
                msg.data@,
                msg.is_close,
            ).device,
            actions_view(r@) == old(self)@.client_message(
                msg.ws_id@,
                msg.page_num,
                msg.data@,
                msg.is_close,
            ).actions,
    {
        if msg.is_close {
            let mut out = self.stop_devtools(msg.page_num);
            self.ws_clients.remove(msg.ws_id.as_str());
            enqueue(
                &mut out,
                Action::DropClient { device_id: self.device_id.clone(), ws_id: msg.ws_id.clone() },
            );
            return out;
        }
        if msg.data.len() == 0 {
            return self.send_forward_socket_setup(msg.ws_id.as_str(), msg.page_num);
        }
        let mut out: Vec<Action> = Vec::new();
        let i = find_numbered(&self.pages, msg.page_num);
        if i < self.pages.len() {
            let page = &self.pages[i];
            let sender_id = text::text_or(&page.sender_id, msg.ws_id.as_str());
            let rpc_bin = self.rpc_sender.build_forward_socket_data(
                page.app_id.as_str(),
                page.page_id,
                sender_id.as_str(),
                msg.data.as_slice(),
            );
            out.push(self.send_plist(rpc_bin.as_slice()));
        }
        assert(actions_view(out@) =~= old(self)@.data_sent(
            msg.ws_id@,
            msg.page_num,
            msg.data@,
        ).actions);
        out
    }

    /// A client has come.
    pub fn handle_ws_registration(&mut self, ws_id: &str, page_num: u32) -> (r: Vec<Action>)
        ensures
            final(self)@ == old(self)@.client_registered(ws_id@, page_num).device,
            actions_view(r@) == old(self)@.client_registered(ws_id@, page_num).actions,
    {
        self.ws_clients.insert(ws_id.to_owned(), page_num);
        let mut out: Vec<Action> = Vec::new();
        out.push(
            Action::KeepClient { device_id: self.device_id.clone(), ws_id: ws_id.to_owned() },
        );
        assert(actions_view(out@) =~= old(self)@.client_registered(ws_id@, page_num).actions);
        out
    }

    /// Applications are there, one after the other.
    pub fn add_apps(&mut self, apps: &Vec<RpcApp>) -> (r: Vec<Action>)
        ensures
            final(self)@ == old(self)@.apps_reported(rpc::apps_view(apps@)).device,
            actions_view(r@) == old(self)@.apps_reported(rpc::apps_view(apps@)).actions,
    {
        let ghost first = self@;
        let ghost all = rpc::apps_view(apps@);
        let mut out: Vec<Action> = Vec::new();
        let mut i: usize = 0;
        assert(actions_view(out@) =~= Seq::empty());
        while i < apps.len()
            invariant
                i <= apps@.len(),
                all == rpc::apps_view(apps@),
                self@ == first.apps_reported(all.take(i as int)).device,
                actions_view(out@) == first.apps_reported(all.take(i as int)).actions,
            decreases apps@.len() - i,
        {
            assert(all.take(i + 1).drop_last() =~= all.take(i as int));
            assert(all.take(i + 1).last() == apps@[i as int]@);
            let more = self.add_app_id(apps[i].app_id.as_str());
            append_actions(&mut out, more);
            self.current_app = Some(apps[i].clone());
            i = i + 1;
        }
        assert(all.take(all.len() as int) =~= all);
        out
    }
}

/// Adds actions to a list.
fn append_actions(actions: &mut Vec<Action>, more: Vec<Action>)
    ensures
        actions_view(final(actions)@) == actions_view(old(actions)@) + actions_view(more@),
{
    let ghost before = actions@;
    let ghost added = more@;
    let mut more = more;
    actions.append(&mut more);
    assert(actions_view(actions@) =~= actions_view(before) + actions_view(added));
}

// ---------------------------------------------------------------------------------------------
// All devices
// ---------------------------------------------------------------------------------------------

/// What an event does to the table of devices, and what is then to be done.
pub struct Step {
    pub devices: Seq<DeviceView>,
    pub actions: Seq<ActionView>,
}

/// The views of a table of devices.
pub open spec fn devices_view(devices: Seq<DeviceRuntime>) -> Seq<DeviceView> {
    Seq::new(devices.len(), |i: int| devices[i]@)
}

/// Whether a device has this identifier.
pub open spec fn with_id(device_id: Seq<char>) -> spec_fn(DeviceView) -> bool {
    |d: DeviceView| d.device_id == device_id
}

/// The position of the device with an identifier, or the length if there is none.
pub open spec fn device_at(devices: Seq<DeviceView>, device_id: Seq<char>) -> int {
    seqs::first_index(devices, with_id(device_id))
}

/// Whether a device is connected.
pub open spec fn is_connected() -> spec_fn(DeviceView) -> bool {
    |d: DeviceView| d.connected
}

/// The devices as they are shown to others.
pub open spec fn infos_of(devices: Seq<DeviceView>) -> Seq<InfoView> {
    Seq::new(devices.len(), |i: int| devices[i].info())
}

/// What the device list shows: the connected devices, in the order in which they came.
pub open spec fn shared_list(devices: Seq<DeviceView>) -> ActionView {
    ActionView::ShareDevices { devices: infos_of(devices.filter(is_connected())) }
}

/// What an event does that concerns one device: nothing if the device is not there.
pub open spec fn on_device(
    devices: Seq<DeviceView>,
    device_id: Seq<char>,
    event: spec_fn(DeviceView) -> Effect,
) -> Step {
    let i = device_at(devices, device_id);
    if i < devices.len() {
        let e = event(devices[i]);
        Step { devices: devices.update(i, e.device), actions: e.actions }
    } else {
        Step { devices, actions: Seq::empty() }
    }
}

/// WebInspector on the device at a position has answered.
pub open spec fn inspector_answered(devices: Seq<DeviceView>, i: int, has_listener: bool) -> Step {
    let after = devices.update(i, DeviceView { connected: true, ..devices[i] });
    let shared = seq![
        ActionView::MarkConnected { device_id: devices[i].device_id },
        shared_list(after),
    ];
    Step {
        devices: after,
        actions: if has_listener {
            shared.push(ActionView::Notify(NoticeView::Connected(after[i].info())))
        } else {
            shared
        },
    }
}

/// What a message from a device does.
pub open spec fn message_handled(
    devices: Seq<DeviceView>,
    device_id: Seq<char>,
    message: MessageView,
    has_listener: bool,
) -> Step {
    let i = device_at(devices, device_id);
    match message {
        MessageView::ReportSetup => if i < devices.len() {
            inspector_answered(devices, i, has_listener)
        } else {
            Step { devices, actions: seq![shared_list(devices)] }
        },
        MessageView::ReportConnectedApplicationList(apps) => if i < devices.len() {
            let answered = if devices[i].connected {
                Step { devices, actions: Seq::empty() }
            } else {
                inspector_answered(devices, i, has_listener)
            };
            let e = answered.devices[i].apps_reported(apps);
            Step {
                devices: answered.devices.update(i, e.device),
                actions: answered.actions + e.actions,
            }
        } else {
            Step { devices, actions: Seq::empty() }
        },
        MessageView::ApplicationConnected(app) => on_device(
            devices,
            device_id,
            |d: DeviceView|
                (DeviceView { current_app: Some(app), ..d }).app_added(app.app_id),
        ),
        MessageView::ApplicationDisconnected(app) => on_device(
            devices,
            device_id,
            |d: DeviceView| d.app_removed(app.app_id, has_listener),
        ),
        MessageView::ApplicationSentListing { app_id, pages } => on_device(
            devices,
            device_id,
            |d: DeviceView| d.pages_listed(app_id, pages, has_listener),
        ),
        MessageView::ApplicationSentData { app_id: _, dest_id, data } => on_device(
            devices,
            device_id,
            |d: DeviceView| d.data_received(dest_id, data),
        ),
        MessageView::ApplicationUpdated { app_id: _, dest_id } => on_device(
            devices,
            device_id,
            |d: DeviceView| d.app_added(dest_id),
        ),
        MessageView::Unknown(_) => Step { devices, actions: Seq::empty() },
    }
}

/// A device is gone.
pub open spec fn device_gone(
    devices: Seq<DeviceView>,
    device_id: Seq<char>,
    has_listener: bool,
) -> Step {
    let i = device_at(devices, device_id);
    if i < devices.len() {
        let d = devices[i];
        let after = devices.remove(i);
        let told = if d.connected && has_listener {
            seq![ActionView::Notify(NoticeView::Disconnected(d.info()))]
        } else {
            Seq::empty()
        };
        Step {
            devices: after,
            actions: told + seq![
                ActionView::Release { device_id: d.device_id },
                shared_list(after),
            ],
        }
    } else {
        Step { devices, actions: seq![shared_list(devices)] }
    }
}

/// Every device is let go of, one after the other.
pub open spec fn all_gone(devices: Seq<DeviceView>, has_listener: bool) -> Seq<ActionView>
    decreases devices.len(),
{
    if devices.len() == 0 {
        Seq::empty()
    } else {
        let s = device_gone(devices, devices[0].device_id, has_listener);
        s.actions + all_gone(s.devices, has_listener)
    }
}

/// Finds the device with an identifier: its position, or the length if there is none.
fn find_device(devices: &Vec<DeviceRuntime>, device_id: &str) -> (r: usize)
    ensures
        r == device_at(devices_view(devices@), device_id@),
        r <= devices@.len(),
        r < devices@.len() ==> devices@[r as int].device_id@ == device_id@,
{
    let ghost views = devices_view(devices@);
    let mut i: usize = 0;
    while i < devices.len() && !text::str_eq(devices[i].device_id.as_str(), device_id)
        invariant
            i <= devices@.len(),
            views == devices_view(devices@),
            forall|k: int| 0 <= k < i ==> !with_id(device_id@)(#[trigger] views[k]),
        decreases devices@.len() - i,
    {
        assert(!with_id(device_id@)(views[i as int]));
        i = i + 1;
    }
    proof {
        assert(i < views.len() ==> with_id(device_id@)(views[i as int]));
        seqs::lemma_is_first_index(views, with_id(device_id@), i as int);
    }
    i
}

/// The device list.
pub fn update_device_list(devices: &Vec<DeviceRuntime>) -> (r: Action)
    ensures
        r@ == shared_list(devices_view(devices@)),
{
    let ghost views = devices_view(devices@);
    let ghost f = is_connected();
    let mut out: Vec<DeviceInfo> = Vec::new();
    let mut i: usize = 0;
    proof {
        reveal(Seq::filter);
        assert(crate::infos_view(out@) =~= infos_of(views.take(0).filter(f)));
    }
    while i < devices.len()
        invariant
            i <= devices@.len(),
            views == devices_view(devices@),
            f == is_connected(),
            crate::infos_view(out@) =~= infos_of(views.take(i as int).filter(f)),
        decreases devices@.len() - i,
    {
        proof {
            reveal(Seq::filter);
            assert(views.take(i + 1).drop_last() =~= views.take(i as int));
            assert(views.take(i + 1).last() == devices@[i as int]@);
        }
        let ghost before = out@;
        if devices[i].connected {
            out.push(devices[i].info());
            assert(crate::infos_view(out@) =~= crate::infos_view(before).push(views[i as int].info()));
            assert(infos_of(views.take(i + 1).filter(f)) =~= infos_of(
                views.take(i as int).filter(f),
            ).push(views[i as int].info()));
        }
        i = i + 1;
    }
    assert(views.take(views.len() as int) =~= views);
    Action::ShareDevices { devices: out }
}

// ---------------------------------------------------------------------------------------------
// The bridge
// ---------------------------------------------------------------------------------------------

/// The proxy: which ports it may use, where the simulator is, and who listens.
pub struct ProxyBridge {
    /// The ports for devices, or none where the system is to assign them.
    pub device_ports: Option<Range<u16>>,
    /// The HTTP service, or none where the WebSocket endpoints alone are served.
    pub http_service_config: Option<HttpServiceConfig>,
    /// Where the simulator's WebInspector listens.
    pub sim_wi_socket_addr: String,
    /// Who is told of devices and pages.
    pub device_listener: Option<Arc<dyn DeviceListener>>,
}

/// The HTTP service.
#[derive(Debug)]
pub struct HttpServiceConfig {
    pub device_list_port: u16,
    pub frontend: Option<String>,
}

/// How a device is to be given a port.
pub enum PortPlan {
    /// The device is connected already.
    AlreadyConnected,
    /// Every port is taken.
    NoPort,
    /// By binding this port.
    Bind(u16),
    /// By binding any port.
    BindAny,
}

/// Whether a device has this port.
pub open spec fn port_taken(devices: Seq<DeviceView>, port: u16) -> bool {
    exists|i: int| 0 <= i < devices.len() && (#[trigger] devices[i]).port == port
}

/// The lowest port from `start` up to but not including `end` that no device has.
pub open spec fn free_port(devices: Seq<DeviceView>, start: int, end: int) -> Option<u16>
    decreases end - start,
{
    if start >= end {
        None
    } else if port_taken(devices, start as u16) {
        free_port(devices, start + 1, end)
    } else {
        Some(start as u16)
    }
}

/// Where the simulator's WebInspector is reached.
pub enum SimAddress {
    /// A Unix domain socket at this path.
    Unix(String),
    /// A TCP address.
    Tcp(String),
}

/// Where WebInspector for a device is reached.
pub enum InspectorTarget {
    Simulator(SimAddress),
    Device,
}

/// A WebInspector that was reached.
pub enum Inspector {
    Simulator,
    Device { device_name: String, device_os_version: u32 },
}

/// Whether messages to and from a device of this version are split into pieces.
pub open spec fn takes_pieces(device_os_version: u32) -> bool {
    device_os_version < 0xb_0000
}

/// Tests whether messages to and from a device of this version are split into pieces.
pub fn partials_supported(device_os_version: u32) -> (r: bool)
    ensures
        r == takes_pieces(device_os_version),
{
    device_os_version < 0xb_0000
}

/// A device that was just connected.
pub open spec fn new_device(
    device_id: Seq<char>,
    port: u16,
    inspector: Inspector,
    connection_id: Seq<char>,
) -> DeviceView {
    DeviceView {
        port,
        device_id,
        device_name: match inspector {
            Inspector::Simulator => Some("SIMULATOR"@),
            Inspector::Device { device_name, .. } => Some(device_name@),
        },
        device_os_version: match inspector {
            Inspector::Simulator => 0,
            Inspector::Device { device_os_version, .. } => device_os_version,
        },
        connected: false,
        is_sim: inspector is Simulator,
        partials_supported: match inspector {
            Inspector::Simulator => false,
            Inspector::Device { device_os_version, .. } => takes_pieces(device_os_version),
        },
        connection_id,
        app_ids: Set::empty(),
        current_app: None,
        table: PageTable { pages: Seq::empty(), max: 0 },
        ws_clients: Map::empty(),
    }
}

/// A reader for a connection to WebInspector, at its start. It takes messages as the device that is
/// connected over it gives and takes them.
pub fn reader_for(inspector: &Inspector) -> (r: WiReader)
    ensures
        forall|device_id: Seq<char>, port: u16, connection_id: Seq<char>|
            {
                let d = #[trigger] new_device(device_id, port, *inspector, connection_id);
                r.codec.is_sim == d.is_sim && r.codec.partials_supported == d.partials_supported
            },
        r.codec.partial_buffer@ == Seq::<u8>::empty(),
        r.awaited == webinspector::Awaited::Header,
{
    match inspector {
        Inspector::Simulator => WiReader::new(true, false),
        Inspector::Device { device_os_version, .. } => WiReader::new(
            false,
            partials_supported(*device_os_version),
        ),
    }
}

/// What the endpoints of a device show at first.
pub open spec fn first_state(d: DeviceView, frontend: Option<Seq<char>>) -> PortStateView {
    PortStateView {
        port: d.port,
        device_id: Some(d.device_id),
        device_name: d.device_name,
        device_os_version: d.device_os_version,
        connected: false,
        pages: Seq::empty(),
        frontend,
    }
}

/// An event that the proxy waits for.
pub enum ProxyEvent {
    /// A device was plugged in.
    Attached { device_id: String },
    /// A device was unplugged.
    Detached { device_id: String },
    /// Nothing will be heard of devices any more.
    ListenerClosed,
    /// WebInspector on a device has sent a message.
    Wi { device_id: String, event: WiEvent },
    /// A WebSocket client has sent a message.
    WsMessage { device_id: String, msg: WsToWiMessage },
    /// A WebSocket client has come.
    WsRegistration { device_id: String, ws_id: String, page_num: u32 },
    /// The proxy is to stop.
    Cancelled,
}

/// What comes after an event.
pub enum Next {
    /// Do this, and wait for the next event.
    Go(Vec<Action>),
    /// Connect this device, and wait for the next event.
    Connect { device_id: String },
    /// Do this, and stop.
    Stop(Vec<Action>),
}

impl ProxyBridge {
    /// The frontend that pages are debugged with, if the HTTP service has one.
    pub open spec fn frontend(self) -> Option<Seq<char>> {
        match self.http_service_config {
            Some(c) => text::option_view(c.frontend),
            None => None,
        }
    }

    /// How a device is to be given a port.
    pub open spec fn port_plan(self, devices: Seq<DeviceView>, device_id: Seq<char>) -> PortPlan {
        if device_at(devices, device_id) < devices.len() {
            PortPlan::AlreadyConnected
        } else {
            match self.device_ports {
                Some(range) => match free_port(devices, range.start as int, range.end as int) {
                    Some(port) => PortPlan::Bind(port),
                    None => PortPlan::NoPort,
                },
                None => PortPlan::BindAny,
            }
        }
    }

    /// A device is connected: its endpoints are served, it is told who calls, and it is kept. One
    /// that is there already stays as it is.
    pub open spec fn device_opened(
        self,
        devices: Seq<DeviceView>,
        device_id: Seq<char>,
        port: u16,
        inspector: Inspector,
        connection_id: Seq<char>,
    ) -> Step {
        let d = new_device(device_id, port, inspector, connection_id);
        let after = devices.push(d);
        if device_at(devices, device_id) < devices.len() {
            Step { devices, actions: Seq::empty() }
        } else {
            Step {
                devices: after,
                actions: seq![
                    ActionView::Serve {
                        state: first_state(d, self.frontend()),
                        all_endpoints: self.http_service_config is Some,
                    },
                    d.sends(rpc::report_identifier(connection_id)),
                    shared_list(after),
                ],
            }
        }
    }

    /// A proxy. The simulator is looked for at its usual address unless another is given.
    pub fn new(
        device_ports: Option<Range<u16>>,
        http_service_config: Option<HttpServiceConfig>,
        sim_wi_socket_addr: Option<&str>,
        device_listener: Option<Arc<dyn DeviceListener>>,
    ) -> (r: Self)
        ensures
            r.device_ports == device_ports,
            r.http_service_config == http_service_config,
            r.sim_wi_socket_addr@ == (match sim_wi_socket_addr {
                Some(a) => a@,
                None => crate::DEFAULT_SIM_WI_SOCKET_ADDR@,
            }),
            r.device_listener == device_listener,
    {
        let addr = match sim_wi_socket_addr {
            Some(a) => a.to_owned(),
            None => crate::DEFAULT_SIM_WI_SOCKET_ADDR.to_owned(),
        };
        ProxyBridge { device_ports, http_service_config, sim_wi_socket_addr: addr, device_listener }
    }

    /// The port to serve the device list on, if it is to be served.
    pub fn list_port(&self) -> (r: Option<u16>)
        ensures
            r == (match self.http_service_config {
                Some(c) => if c.device_list_port > 0 { Some(c.device_list_port) } else { None },
                None => None,
            }),
    {
        match &self.http_service_config {
            Some(c) => if c.device_list_port > 0 {
                Some(c.device_list_port)
            } else {
                None
            },
            None => None,
        }
    }

    /// Decides how a device is to be given a port.
    pub fn plan_port(&self, device_id: &str, devices: &Vec<DeviceRuntime>) -> (r: PortPlan)
        ensures
            r == self.port_plan(devices_view(devices@), device_id@),
    {
        if find_device(devices, device_id) < devices.len() {
            return PortPlan::AlreadyConnected;
        }
        match &self.device_ports {
            Some(range) => {
                let ghost views = devices_view(devices@);
                let mut p: u16 = range.start;
                while p < range.end
                    invariant
                        range.start <= p,
                        self.device_ports == Some(*range),
                        views == devices_view(devices@),
                        device_at(views, device_id@) >= views.len(),
                        free_port(views, p as int, range.end as int) == free_port(
                            views,
                            range.start as int,
                            range.end as int,
                        ),
                    decreases range.end - p,
                {
                    if !is_taken(devices, p) {
                        return PortPlan::Bind(p);
                    }
                    p = p + 1;
                }
                PortPlan::NoPort
            },
            None => PortPlan::BindAny,
        }
    }

    /// Decides where WebInspector for a device is reached.
    pub fn inspector_target(&self, device_id: &str) -> (r: InspectorTarget)
        ensures
            r is Simulator <==> device_id@ == "SIMULATOR"@,
            r matches InspectorTarget::Simulator(a) ==> is_address(a, self.sim_wi_socket_addr@),
    {
        if text::str_eq(device_id, "SIMULATOR") {
            InspectorTarget::Simulator(sim_address(self.sim_wi_socket_addr.as_str()))
        } else {
            InspectorTarget::Device
        }
    }

    /// Takes a connected device in, in the name of a given connection.
    pub fn open_device(
        &self,
        device_id: &str,
        port: u16,
        inspector: Inspector,
        connection_id: String,
        devices: &mut Vec<DeviceRuntime>,
    ) -> (r: Vec<Action>)
        ensures
            devices_view(final(devices)@) == self.device_opened(
                devices_view(old(devices)@),
                device_id@,
                port,
                inspector,
                connection_id@,
            ).devices,
            actions_view(r@) == self.device_opened(
                devices_view(old(devices)@),
                device_id@,
                port,
                inspector,
                connection_id@,
            ).actions,
            devices_ok(devices_view(old(devices)@)) ==> devices_ok(devices_view(final(devices)@)),
    {
        let ghost before = devices_view(devices@);
        proof {
            seqs::lemma_first_index(before, with_id(device_id@));
            if devices_ok(before) && device_at(before, device_id@) == before.len() {
                law_connect_disconnect(
                    *self,
                    before,
                    device_id@,
                    port,
                    inspector,
                    connection_id@,
                    false,
                );
            }
        }
        if find_device(devices, device_id) < devices.len() {
            return nothing();
        }
        let ghost expected = new_device(device_id@, port, inspector, connection_id@);
        let wi_codec = reader_for(&inspector).codec;
        let (device_name, device_os_version) = match inspector {
            Inspector::Simulator => ("SIMULATOR".to_owned(), 0u32),
            Inspector::Device { device_name, device_os_version } => (
                device_name,
                device_os_version,
            ),
        };
        let frontend = match &self.http_service_config {
            Some(c) => text::copy_option(&c.frontend),
            None => None,
        };
        let state = DevicePortState {
            port,
            device_id: Some(device_id.to_owned()),
            device_name: Some(device_name.clone()),
            device_os_version,
            connected: false,
            pages: Vec::new(),
            frontend,
        };
        assert(state@.pages =~= Seq::empty());
        let rpc_sender = RpcSender::new(connection_id);
        let rpc_bin = rpc_sender.build_report_identifier();
        let runtime = DeviceRuntime {
            port,
            device_id: device_id.to_owned(),
            device_name: Some(device_name),
            device_os_version,
            connected: false,
            wi_codec,
            rpc_sender,
            app_ids: StringHashSet::new(),
            current_app: None,
            pages: Vec::new(),
            max_page_num: 0,
            ws_clients: StringHashMap::new(),
        };
        assert(runtime@.table.pages =~= Seq::empty());
        assert(runtime@ == expected);
        let send = runtime.send_plist(rpc_bin.as_slice());
        devices.push(runtime);
        assert(devices_view(devices@) =~= before.push(expected));
        let mut out: Vec<Action> = Vec::new();
        out.push(
            Action::Serve { state, all_endpoints: self.http_service_config.is_some() },
        );
        out.push(send);
        out.push(update_device_list(devices));
        assert(actions_view(out@) =~= self.device_opened(
            before,
            device_id@,
            port,
            inspector,
            expected.connection_id,
        ).actions);
        out
    }

    /// Takes a connected device in, in the name of a new connection.
    pub fn connect_device(
        &self,
        device_id: &str,
        port: u16,
        inspector: Inspector,
        devices: &mut Vec<DeviceRuntime>,
    ) -> (r: Vec<Action>)
        ensures
            exists|connection_id: Seq<char>|
                rpc::is_upper_uuid(connection_id) && devices_view(final(devices)@)
                    == (#[trigger] self.device_opened(
                    devices_view(old(devices)@),
                    device_id@,
                    port,
                    inspector,
                    connection_id,
                )).devices && actions_view(r@) == self.device_opened(
                    devices_view(old(devices)@),
                    device_id@,
                    port,
                    inspector,
                    connection_id,
                ).actions,
            devices_ok(devices_view(old(devices)@)) ==> devices_ok(devices_view(final(devices)@)),
    {
        let connection_id = rpc::new_uuid();
        let ghost c = connection_id@;
        let r = self.open_device(device_id, port, inspector, connection_id, devices);
        assert(rpc::is_upper_uuid(c));
        r
    }

    /// A device is gone.
    pub fn disconnect_device(&self, device_id: &str, devices: &mut Vec<DeviceRuntime>) -> (r: Vec<
        Action,
    >)
        ensures
            devices_view(final(devices)@) == device_gone(
                devices_view(old(devices)@),
                device_id@,
                self.device_listener is Some,
            ).devices,
            actions_view(r@) == device_gone(
                devices_view(old(devices)@),
                device_id@,
                self.device_listener is Some,
            ).actions,
    {
        let ghost before = devices_view(devices@);
        let mut out: Vec<Action> = Vec::new();
        let i = find_device(devices, device_id);
        if i < devices.len() {
            let runtime = devices.remove(i);
            assert(devices_view(devices@) =~= before.remove(i as int));
            if runtime.connected && self.device_listener.is_some() {
                out.push(Action::Notify(Notice::Disconnected(runtime.info())));
            }
            out.push(Action::Release { device_id: runtime.device_id });
        }
        out.push(update_device_list(devices));
        assert(actions_view(out@) =~= device_gone(
            before,
            device_id@,
            self.device_listener is Some,
        ).actions);
        out
    }

    /// Lets go of every device.
    pub fn disconnect_all(&self, devices: &mut Vec<DeviceRuntime>) -> (r: Vec<Action>)
        ensures
            final(devices)@.len() == 0,
            actions_view(r@) == all_gone(
                devices_view(old(devices)@),
                self.device_listener is Some,
            ),
    {
        let ghost first = devices_view(devices@);
        let ghost listened = self.device_listener is Some;
        let mut out: Vec<Action> = Vec::new();
        assert(actions_view(out@) + all_gone(first, listened) =~= all_gone(first, listened));
        while devices.len() > 0
            invariant
                listened == (self.device_listener is Some),
                actions_view(out@) + all_gone(devices_view(devices@), listened) == all_gone(
                    first,
                    listened,
                ),
            decreases devices@.len(),
        {
            let ghost before = devices_view(devices@);
            let ghost done = actions_view(out@);
            let device_id = devices[0].device_id.clone();
            proof {
                assert(with_id(device_id@)(before[0]));
            }
            let more = self.disconnect_device(device_id.as_str(), devices);
            append_actions(&mut out, more);
            proof {
                let s = device_gone(before, device_id@, listened);
                assert(devices_view(devices@).len() == before.len() - 1);
                assert(done + (s.actions + all_gone(s.devices, listened)) =~= done + s.actions
                    + all_gone(s.devices, listened));
            }
        }
        assert(actions_view(out@) + all_gone(devices_view(devices@), listened) =~= actions_view(
            out@,
        ));
        out
    }
}

/// Tests whether a device has this port.
fn is_taken(devices: &Vec<DeviceRuntime>, port: u16) -> (r: bool)
    ensures
        r == port_taken(devices_view(devices@), port),
{
    let ghost views = devices_view(devices@);
    let mut i: usize = 0;
    while i < devices.len()
        invariant
            i <= devices@.len(),
            views == devices_view(devices@),
            forall|k: int| 0 <= k < i ==> (#[trigger] views[k]).port != port,
        decreases devices@.len() - i,
    {
        assert(views[i as int].port == devices@[i as int].port);
        if devices[i].port == port {
            return true;
        }
        i = i + 1;
    }
    false
}

/// Whether `a` is what is meant by an address: the path behind `unix:`, or else a TCP address.
pub open spec fn is_address(a: SimAddress, addr: Seq<char>) -> bool {
    if text::begins_with(addr, "unix:"@) {
        a matches SimAddress::Unix(path) && path@ == addr.skip(5)
    } else {
        a matches SimAddress::Tcp(t) && t@ == addr
    }
}

/// Reads the address of the simulator's WebInspector.
pub fn sim_address(addr: &str) -> (r: SimAddress)
    ensures
        is_address(r, addr@),
{
    proof {
        reveal_strlit("unix:");
    }
    match text::strip_prefix(addr, "unix:") {
        Some(path) => SimAddress::Unix(path),
        None => SimAddress::Tcp(addr.to_owned()),
    }
}

/// The address to listen at for a port on every interface; port zero stands for any.
pub fn bind_address(port: u16) -> (r: String)
    ensures
        r@ == "0.0.0.0:"@ + text::decimal(port as nat),
{
    let mut s = "0.0.0.0:".to_owned();
    s.append(text::u64_text(port as u64).as_str());
    s
}

/// The error for a device list port that cannot be listened at, with the reason.
pub fn list_bind_failure(port: u16, reason: &str) -> (r: Error)
    ensures
        r.says(
            Failure::PortBind(
                "Failed to bind device list port "@ + text::decimal(port as nat) + ": "@ + reason@,
            ),
        ),
{
    let mut words = "Failed to bind device list port ".to_owned();
    words.append(text::u64_text(port as u64).as_str());
    words.append(": ");
    words.append(reason);
    Error::PortBind(words)
}

/// The port that the system assigned, if it can be told: port zero is none.
pub fn assigned_port(port: Option<u16>) -> (r: Option<u16>)
    ensures
        r == (if port == Some(0u16) { None } else { port }),
{
    match port {
        Some(0) => None,
        other => other,
    }
}

// ---------------------------------------------------------------------------------------------
// Events
// ---------------------------------------------------------------------------------------------

/// Whether a message from a device can be handled: only a listing can ask too much, when it would
/// take a page number beyond the highest there is.
pub open spec fn message_fits(
    devices: Seq<DeviceView>,
    device_id: Seq<char>,
    message: MessageView,
) -> bool {
    let i = device_at(devices, device_id);
    match message {
        MessageView::ApplicationSentListing { app_id, pages } => i < devices.len() ==> has_numbers(
            devices[i].table,
            app_id,
            pages,
        ),
        _ => true,
    }
}

/// Whether an event from WebInspector can be handled.
pub open spec fn event_fits(
    devices: Seq<DeviceView>,
    device_id: Seq<char>,
    event: PlistView,
) -> bool {
    match rpc::message_in(event) {
        Ok(message) => message_fits(devices, device_id, message),
        Err(_) => true,
    }
}

/// What an event from WebInspector does: one that holds no message does nothing.
pub open spec fn wi_event_handled(
    devices: Seq<DeviceView>,
    device_id: Seq<char>,
    event: PlistView,
    has_listener: bool,
) -> Step {
    match rpc::message_in(event) {
        Ok(message) => message_handled(devices, device_id, message, has_listener),
        Err(_) => Step { devices, actions: Seq::empty() },
    }
}

/// No actions.
fn nothing() -> (r: Vec<Action>)
    ensures
        actions_view(r@) == Seq::<ActionView>::empty(),
{
    let out: Vec<Action> = Vec::new();
    assert(actions_view(out@) =~= Seq::empty());
    out
}

impl ProxyBridge {
    /// WebInspector on the device at a position has answered.
    fn mark_connected(&self, devices: &mut Vec<DeviceRuntime>, i: usize) -> (r: Vec<Action>)
        requires
            i < old(devices)@.len(),
        ensures
            devices_view(final(devices)@) == inspector_answered(
                devices_view(old(devices)@),
                i as int,
                self.device_listener is Some,
            ).devices,
            actions_view(r@) == inspector_answered(
                devices_view(old(devices)@),
                i as int,
                self.device_listener is Some,
            ).actions,
    {
        let ghost before = devices_view(devices@);
        let d = &mut devices[i];
        d.connected = true;
        let ghost after = before.update(
            i as int,
            DeviceView { connected: true, ..before[i as int] },
        );
        assert(devices_view(devices@) =~= after);
        let mut out: Vec<Action> = Vec::new();
        out.push(Action::MarkConnected { device_id: devices[i].device_id.clone() });
        out.push(update_device_list(devices));
        if self.device_listener.is_some() {
            assert(devices_view(devices@)[i as int] == devices@[i as int]@);
            out.push(Action::Notify(Notice::Connected(devices[i].info())));
        }
        assert(actions_view(out@) =~= inspector_answered(
            before,
            i as int,
            self.device_listener is Some,
        ).actions);
        out
    }

    /// A message from a device.
    pub fn handle_rpc_message(
        &self,
        device_id: &str,
        msg: RpcMessage,
        devices: &mut Vec<DeviceRuntime>,
    ) -> (r: Vec<Action>)
        requires
            message_fits(devices_view(old(devices)@), device_id@, msg@),
        ensures
            devices_view(final(devices)@) == message_handled(
                devices_view(old(devices)@),
                device_id@,
                msg@,
                self.device_listener is Some,
            ).devices,
            actions_view(r@) == message_handled(
                devices_view(old(devices)@),
                device_id@,
                msg@,
                self.device_listener is Some,
            ).actions,
    {
        let ghost before = devices_view(devices@);
        let has_listener = self.device_listener.is_some();
        let i = find_device(devices, device_id);
        match msg {
            RpcMessage::ReportSetup => {
                if i < devices.len() {
                    self.mark_connected(devices, i)
                } else {
                    let mut out = nothing();
                    enqueue(&mut out, update_device_list(devices));
                    out
                }
            },
            RpcMessage::ReportConnectedApplicationList(apps) => {
                let mut out = nothing();
                if i < devices.len() {
                    if !devices[i].connected {
                        out = self.mark_connected(devices, i);
                    }
                    let ghost answered = devices_view(devices@);
                    let ghost d = answered[i as int];
                    assert(answered.len() == before.len());
                    assert(devices@[i as int]@ == d);
                    let more = devices[i].add_apps(&apps);
                    assert(devices_view(devices@) =~= answered.update(
                        i as int,
                        d.apps_reported(rpc::apps_view(apps@)).device,
                    ));
                    append_actions(&mut out, more);
                }
                out
            },
            RpcMessage::ApplicationConnected(app) => {
                if i < devices.len() {
                    let d = &mut devices[i];
                    d.current_app = Some(app.clone());
                    let out = d.add_app_id(app.app_id.as_str());
                    let ghost e = (DeviceView { current_app: Some(app@), ..before[i as int] }).app_added(app@.app_id);
                    assert(devices_view(devices@) =~= before.update(i as int, e.device));
                    out
                } else {
                    nothing()
                }
            },
            RpcMessage::ApplicationDisconnected(app) => {
                if i < devices.len() {
                    let out = devices[i].remove_app_id(app.app_id.as_str(), has_listener);
                    assert(devices_view(devices@) =~= before.update(
                        i as int,
                        before[i as int].app_removed(app@.app_id, has_listener).device,
                    ));
                    out
                } else {
                    nothing()
                }
            },
            RpcMessage::ApplicationSentListing { app_id, pages } => {
                if i < devices.len() {
                    assert(devices@[i as int]@ == before[i as int]);
                    let out = devices[i].handle_page_listing(app_id.as_str(), &pages, has_listener);
                    assert(devices_view(devices@) =~= before.update(
                        i as int,
                        before[i as int].pages_listed(
                            app_id@,
                            rpc::pages_view(pages@),
                            has_listener,
                        ).device,
                    ));
                    out
                } else {
                    nothing()
                }
            },
            RpcMessage::ApplicationSentData { app_id: _, dest_id, data } => {
                if i < devices.len() {
                    assert(devices@[i as int]@ == before[i as int]);
                    assert(before.update(i as int, before[i as int]) =~= before);
                    devices[i].handle_app_data(dest_id.as_str(), data.as_slice())
                } else {
                    nothing()
                }
            },
            RpcMessage::ApplicationUpdated { app_id: _, dest_id } => {
                if i < devices.len() {
                    let out = devices[i].add_app_id(dest_id.as_str());
                    assert(devices_view(devices@) =~= before.update(
                        i as int,
                        before[i as int].app_added(dest_id@).device,
                    ));
                    out
                } else {
                    nothing()
                }
            },
            RpcMessage::Unknown(_) => nothing(),
        }
    }

    /// An event from WebInspector.
    pub fn handle_wi_event(
        &self,
        device_id: &str,
        event: WiEvent,
        devices: &mut Vec<DeviceRuntime>,
    ) -> (r: Vec<Action>)
        requires
            event_fits(devices_view(old(devices)@), device_id@, event->RecvPlist_0@),
        ensures
            devices_view(final(devices)@) == wi_event_handled(
                devices_view(old(devices)@),
                device_id@,
                event->RecvPlist_0@,
                self.device_listener is Some,
            ).devices,
            actions_view(r@) == wi_event_handled(
                devices_view(old(devices)@),
                device_id@,
                event->RecvPlist_0@,
                self.device_listener is Some,
            ).actions,
    {
        match event {
            WiEvent::RecvPlist(value) => match rpc::parse_rpc_message(&value) {
                Ok(msg) => self.handle_rpc_message(device_id, msg, devices),
                Err(_) => nothing(),
            },
        }
    }

    /// A message from a WebSocket client.
    pub fn handle_ws_message(
        &self,
        device_id: &str,
        msg: &WsToWiMessage,
        devices: &mut Vec<DeviceRuntime>,
    ) -> (r: Vec<Action>)
        ensures
            devices_view(final(devices)@) == on_device(
                devices_view(old(devices)@),
                device_id@,
                |d: DeviceView|
                    d.client_message(msg.ws_id@, msg.page_num, msg.data@, msg.is_close),
            ).devices,
            actions_view(r@) == on_device(
                devices_view(old(devices)@),
                device_id@,
                |d: DeviceView|
                    d.client_message(msg.ws_id@, msg.page_num, msg.data@, msg.is_close),
            ).actions,
    {
        let ghost before = devices_view(devices@);
        let i = find_device(devices, device_id);
        if i < devices.len() {
            let out = devices[i].handle_ws_message(msg);
            assert(devices_view(devices@) =~= before.update(
                i as int,
                before[i as int].client_message(
                    msg.ws_id@,
                    msg.page_num,
                    msg.data@,
                    msg.is_close,
                ).device,
            ));
            out
        } else {
            nothing()
        }
    }

    /// A WebSocket client has come.
    pub fn handle_ws_registration(
        &self,
        device_id: &str,
        ws_id: &str,
        page_num: u32,
        devices: &mut Vec<DeviceRuntime>,
    ) -> (r: Vec<Action>)
        ensures
            devices_view(final(devices)@) == on_device(
                devices_view(old(devices)@),
                device_id@,
                |d: DeviceView| d.client_registered(ws_id@, page_num),
            ).devices,
            actions_view(r@) == on_device(
                devices_view(old(devices)@),
                device_id@,
                |d: DeviceView| d.client_registered(ws_id@, page_num),
            ).actions,
    {
        let ghost before = devices_view(devices@);
        let i = find_device(devices, device_id);
        if i < devices.len() {
            let out = devices[i].handle_ws_registration(ws_id, page_num);
            assert(devices_view(devices@) =~= before.update(
                i as int,
                before[i as int].client_registered(ws_id@, page_num).device,
            ));
            out
        } else {
            nothing()
        }
    }
}

/// Tests whether there are numbers left for the pages of a listing that are new.
fn numbers_left(device: &DeviceRuntime, app_id: &str, listed: &Vec<RpcPage>) -> (r: bool)
    ensures
        r == has_numbers(device@.table, app_id@, rpc::pages_view(listed@)),
{
    let ghost pages = device@.table.pages;
    let ghost views = rpc::pages_view(listed@);
    let ghost first = known_ids(pages, app_id@);
    let mut known: Vec<u32> = Vec::new();
    let mut k: usize = 0;
    while k < device.pages.len()
        invariant
            k <= device.pages@.len(),
            pages == page_infos(device.pages@),
            known@.to_set() =~= known_ids(pages.take(k as int), app_id@),
        decreases device.pages@.len() - k,
    {
        let ghost before = known@;
        let ghost p = pages[k as int];
        assert(p == device.pages@[k as int]@);
        assert forall|id: u32| #[trigger]
            known_ids(pages.take(k + 1), app_id@).contains(id) <==> known_ids(
                pages.take(k as int),
                app_id@,
            ).contains(id) || (p.app_id == app_id@ && p.page_id == id) by {
            let now = pages.take(k + 1);
            let earlier = pages.take(k as int);
            if known_ids(earlier, app_id@).contains(id) {
                let j = choose|j: int|
                    0 <= j < earlier.len() && (#[trigger] earlier[j]).app_id == app_id@
                        && earlier[j].page_id == id;
                assert(now[j] == earlier[j]);
            }
            if p.app_id == app_id@ && p.page_id == id {
                assert(now[k as int] == p);
            }
            if known_ids(now, app_id@).contains(id) {
                let j = choose|j: int|
                    0 <= j < now.len() && (#[trigger] now[j]).app_id == app_id@ && now[j].page_id
                        == id;
                if j < k {
                    assert(earlier[j] == now[j]);
                }
            }
        }
        if text::str_eq(device.pages[k].app_id.as_str(), app_id) {
            known.push(device.pages[k].page_id);
            assert(known@.to_set() =~= before.to_set().insert(p.page_id)) by {
                broadcast use vstd::seq_lib::group_seq_properties;

            }
            assert(known_ids(pages.take(k + 1), app_id@) =~= known_ids(
                pages.take(k as int),
                app_id@,
            ).insert(p.page_id));
        } else {
            assert(known_ids(pages.take(k + 1), app_id@) =~= known_ids(
                pages.take(k as int),
                app_id@,
            ));
        }
        k = k + 1;
    }
    assert(pages.take(pages.len() as int) =~= pages);
    let mut left: u32 = u32::MAX - device.max_page_num;
    let mut i: usize = 0;
    assert(views.skip(0) =~= views);
    while i < listed.len()
        invariant
            i <= listed@.len(),
            views == rpc::pages_view(listed@),
            has_numbers(device@.table, app_id@, views) <==> new_count(
                known@.to_set(),
                views.skip(i as int),
            ) <= left,
        decreases listed@.len() - i,
    {
        let id: u32 = listed[i].page_id;
        let ghost before = known@;
        assert(views.skip(i as int)[0] == listed@[i as int]@);
        assert(views.skip(i as int).skip(1) =~= views.skip(i + 1));
        if !contains_id(&known, id) {
            if left == 0 {
                return false;
            }
            left = left - 1;
            known.push(id);
            assert(known@.to_set() =~= before.to_set().insert(id)) by {
                broadcast use vstd::seq_lib::group_seq_properties;

            }
        }
        i = i + 1;
    }
    true
}

/// Tests whether an identifier is among those given.
fn contains_id(ids: &Vec<u32>, id: u32) -> (r: bool)
    ensures
        r == ids@.to_set().contains(id),
{
    let mut i: usize = 0;
    while i < ids.len()
        invariant
            i <= ids@.len(),
            forall|k: int| 0 <= k < i ==> ids@[k] != id,
        decreases ids@.len() - i,
    {
        if ids[i] == id {
            assert(ids@.contains(id));
            return true;
        }
        i = i + 1;
    }
    false
}

/// Tests whether an event from WebInspector can be handled.
pub fn wi_event_fits(device_id: &str, event: &WiEvent, devices: &Vec<DeviceRuntime>) -> (r: bool)
    ensures
        r == event_fits(devices_view(devices@), device_id@, event->RecvPlist_0@),
{
    let i = find_device(devices, device_id);
    match event {
        WiEvent::RecvPlist(value) => match rpc::parse_rpc_message(value) {
            Ok(RpcMessage::ApplicationSentListing { app_id, pages }) => {
                if i < devices.len() {
                    assert(devices_view(devices@)[i as int] == devices@[i as int]@);
                    numbers_left(&devices[i], app_id.as_str(), &pages)
                } else {
                    true
                }
            },
            _ => true,
        },
    }
}

/// Whether an event can be handled.
pub open spec fn proxy_event_fits(devices: Seq<DeviceView>, event: ProxyEvent) -> bool {
    match event {
        ProxyEvent::Wi { device_id, event } => event_fits(
            devices,
            device_id@,
            event->RecvPlist_0@,
        ),
        _ => true,
    }
}

/// What an event does, but for one that connects a device or ends the proxy.
pub open spec fn event_handled(
    devices: Seq<DeviceView>,
    event: ProxyEvent,
    has_listener: bool,
) -> Step {
    match event {
        ProxyEvent::Detached { device_id } => device_gone(devices, device_id@, has_listener),
        ProxyEvent::Wi { device_id, event } => wi_event_handled(
            devices,
            device_id@,
            event->RecvPlist_0@,
            has_listener,
        ),
        ProxyEvent::WsMessage { device_id, msg } => on_device(
            devices,
            device_id@,
            |d: DeviceView| d.client_message(msg.ws_id@, msg.page_num, msg.data@, msg.is_close),
        ),
        ProxyEvent::WsRegistration { device_id, ws_id, page_num } => on_device(
            devices,
            device_id@,
            |d: DeviceView| d.client_registered(ws_id@, page_num),
        ),
        ProxyEvent::Attached { .. } | ProxyEvent::ListenerClosed | ProxyEvent::Cancelled => Step {
            devices,
            actions: Seq::empty(),
        },
    }
}

impl ProxyBridge {
    /// Decides what comes after an event.
    pub fn handle_event(&self, event: ProxyEvent, devices: &mut Vec<DeviceRuntime>) -> (r: Next)
        requires
            proxy_event_fits(devices_view(old(devices)@), event),
        ensures
            match event {
                ProxyEvent::Attached { device_id } => r matches Next::Connect { device_id: d }
                    && d@ == device_id@ && final(devices)@ == old(devices)@,
                ProxyEvent::ListenerClosed | ProxyEvent::Cancelled => r matches Next::Stop(a)
                    && final(devices)@.len() == 0 && actions_view(a@) == all_gone(
                    devices_view(old(devices)@),
                    self.device_listener is Some,
                ),
                _ => r matches Next::Go(a) && devices_view(final(devices)@) == event_handled(
                    devices_view(old(devices)@),
                    event,
                    self.device_listener is Some,
                ).devices && actions_view(a@) == event_handled(
                    devices_view(old(devices)@),
                    event,
                    self.device_listener is Some,
                ).actions,
            },
            devices_ok(devices_view(old(devices)@)) ==> devices_ok(devices_view(final(devices)@)),
    {
        proof {
            if devices_ok(devices_view(devices@)) {
                law_event(devices_view(devices@), event, self.device_listener is Some);
            }
        }
        match event {
            ProxyEvent::Attached { device_id } => Next::Connect { device_id },
            ProxyEvent::Detached { device_id } => Next::Go(
                self.disconnect_device(device_id.as_str(), devices),
            ),
            ProxyEvent::Wi { device_id, event } => Next::Go(
                self.handle_wi_event(device_id.as_str(), event, devices),
            ),
            ProxyEvent::WsMessage { device_id, msg } => Next::Go(
                self.handle_ws_message(device_id.as_str(), &msg, devices),
            ),
            ProxyEvent::WsRegistration { device_id, ws_id, page_num } => Next::Go(
                self.handle_ws_registration(device_id.as_str(), ws_id.as_str(), page_num, devices),
            ),
            ProxyEvent::ListenerClosed | ProxyEvent::Cancelled => Next::Stop(
                self.disconnect_all(devices),
            ),
        }
    }
}

// ---------------------------------------------------------------------------------------------
// What always holds
// ---------------------------------------------------------------------------------------------

/// Whether the pages of a device are in order: their numbers ascend and are at most the highest
/// ever given, no two are the same page of the same application, and a page is debugged in the
/// name of the client that debugs it.
#[verifier::opaque]
pub open spec fn table_ok(t: PageTable) -> bool {
    &&& forall|i: int, j: int|
        0 <= i < j < t.pages.len() ==> (#[trigger] t.pages[i]).page_num < (
        #[trigger] t.pages[j]).page_num
    &&& forall|i: int| 0 <= i < t.pages.len() ==> 0 < (#[trigger] t.pages[i]).page_num <= t.max
    &&& forall|i: int, j: int|
        0 <= i < j < t.pages.len() ==> (#[trigger] t.pages[i]).app_id != (
        #[trigger] t.pages[j]).app_id || t.pages[i].page_id != t.pages[j].page_id
    &&& forall|i: int|
        0 <= i < t.pages.len() ==> (#[trigger] t.pages[i]).sender_id == t.pages[i].ws_client_id
}

/// Whether a table of devices is in order: no identifier comes twice, and the pages of every
/// device are in order.
pub open spec fn devices_ok(devices: Seq<DeviceView>) -> bool {
    &&& forall|i: int, j: int|
        0 <= i < j < devices.len() ==> (#[trigger] devices[i]).device_id != (
        #[trigger] devices[j]).device_id
    &&& forall|i: int| 0 <= i < devices.len() ==> table_ok((#[trigger] devices[i]).table)
}

/// What is kept of a sequence was in it, in the same order.
pub(crate) proof fn lemma_filter_is_part<A>(s: Seq<A>, f: spec_fn(A) -> bool)
    ensures
        forall|i: int|
            0 <= i < s.filter(f).len() ==> f(#[trigger] s.filter(f)[i]) && s.contains(
                s.filter(f)[i],
            ),
        forall|i: int| 0 <= i < s.len() && f(#[trigger] s[i]) ==> s.filter(f).contains(s[i]),
    decreases s.len(),
{
    reveal(Seq::filter);
    if s.len() > 0 {
        let d = s.drop_last();
        lemma_filter_is_part(d, f);
        let r = s.filter(f);
        assert forall|i: int| 0 <= i < r.len() implies f(#[trigger] r[i]) && s.contains(r[i]) by {
            if i < d.filter(f).len() {
                assert(r[i] == d.filter(f)[i]);
                let k = choose|k: int| 0 <= k < d.len() && d[k] == r[i];
                assert(s[k] == r[i]);
            } else {
                assert(s[s.len() - 1] == r[i]);
            }
        }
        assert forall|i: int| 0 <= i < s.len() && f(#[trigger] s[i]) implies r.contains(s[i]) by {
            if i < d.len() {
                assert(d[i] == s[i]);
                assert(d.filter(f).contains(d[i]));
                let k = choose|k: int| 0 <= k < d.filter(f).len() && d.filter(f)[k] == d[i];
                assert(r[k] == s[i]);
            } else {
                assert(r[r.len() - 1] == s[i]);
            }
        }
    }
}

/// Taking pages out of a table that is in order leaves it in order.
proof fn lemma_filter_keeps_order(t: PageTable, f: spec_fn(PageInfoView) -> bool)
    requires
        table_ok(t),
    ensures
        table_ok(PageTable { pages: t.pages.filter(f), max: t.max }),
    decreases t.pages.len(),
{
    reveal(table_ok);
    reveal(Seq::filter);
    let kept = t.pages.filter(f);
    if t.pages.len() > 0 {
        let fewer = PageTable { pages: t.pages.drop_last(), max: t.max };
        lemma_filter_keeps_order(fewer, f);
        lemma_filter_is_part(fewer.pages, f);
        let before = fewer.pages.filter(f);
        assert forall|i: int| 0 <= i < before.len() implies (#[trigger] before[i]).page_num
            < t.pages.last().page_num && (before[i].app_id != t.pages.last().app_id
            || before[i].page_id != t.pages.last().page_id) by {
            let k = choose|k: int| 0 <= k < fewer.pages.len() && fewer.pages[k] == before[i];
            assert(t.pages[k] == before[i]);
            assert(t.pages[k].page_num < t.pages[t.pages.len() - 1].page_num);
        }
        assert(kept == before || kept == before.push(t.pages.last()));
        if kept == before.push(t.pages.last()) {
            assert(kept[kept.len() - 1] == t.pages[t.pages.len() - 1]);
            assert forall|i: int| 0 <= i < kept.len() - 1 implies kept[i] == before[i] by {}
        }
    }
}

/// Taking in a listed page leaves a table in order, and never lowers the highest number.
pub(crate) proof fn lemma_list_one_keeps_order(n: PageTable, app_id: Seq<char>, p: rpc::PageView)
    requires
        table_ok(n),
        n.max < u32::MAX || known_ids(n.pages, app_id).contains(p.page_id),
    ensures
        table_ok(list_one(n, app_id, p)),
        n.max <= list_one(n, app_id, p).max,
{
    reveal(table_ok);
    let f = identified(app_id, p.page_id);
    lemma_list_one(n, app_id, p);
    seqs::lemma_first_index(n.pages, f);
    let i = seqs::first_index(n.pages, f);
    let after = list_one(n, app_id, p);
    if i < n.pages.len() {
        assert forall|k: int| 0 <= k < after.pages.len() implies (#[trigger] after.pages[k]).page_num
            == n.pages[k].page_num && after.pages[k].app_id == n.pages[k].app_id
            && after.pages[k].page_id == n.pages[k].page_id && after.pages[k].sender_id
            == n.pages[k].sender_id && after.pages[k].ws_client_id == n.pages[k].ws_client_id by {}
    } else {
        assert forall|k: int| 0 <= k < n.pages.len() implies after.pages[k] == #[trigger] n.pages[k]
            && !(n.pages[k].app_id == app_id && n.pages[k].page_id == p.page_id) by {
            assert(!f(n.pages[k]));
        }
    }
}

/// Taking in listed pages leaves a table in order, never lowers the highest number, and leaves
/// every listed page of the application there.
pub(crate) proof fn lemma_list_all(n: PageTable, app_id: Seq<char>, listed: Seq<rpc::PageView>)
    requires
        table_ok(n),
        has_numbers(n, app_id, listed),
    ensures
        table_ok(list_all(n, app_id, listed)),
        n.max <= list_all(n, app_id, listed).max,
        forall|id: u32|
            known_ids(list_all(n, app_id, listed).pages, app_id).contains(id) <==> known_ids(
                n.pages,
                app_id,
            ).contains(id) || lists(listed, id),
    decreases listed.len(),
{
    if listed.len() > 0 {
        let p = listed[0];
        let rest = listed.skip(1);
        let next = list_one(n, app_id, p);
        let known = known_ids(n.pages, app_id);
        lemma_list_one(n, app_id, p);
        if known.contains(p.page_id) {
            assert(known.insert(p.page_id) =~= known);
        }
        lemma_list_one_keeps_order(n, app_id, p);
        lemma_list_all(next, app_id, rest);
        assert forall|id: u32| #[trigger]
            lists(listed, id) <==> p.page_id == id || lists(rest, id) by {
            assert(listed[0].page_id == p.page_id);
            if lists(listed, id) {
                let k = choose|k: int| 0 <= k < listed.len() && (#[trigger] listed[k]).page_id == id;
                if k > 0 {
                    assert(rest[k - 1].page_id == id);
                }
            }
            if lists(rest, id) {
                let k = choose|k: int| 0 <= k < rest.len() && (#[trigger] rest[k]).page_id == id;
                assert(listed[k + 1].page_id == id);
            }
        }
        let after = list_all(n, app_id, listed);
        assert(after == list_all(next, app_id, rest));
        assert forall|id: u32| #[trigger]
            known_ids(after.pages, app_id).contains(id) <==> known.contains(id) || lists(
                listed,
                id,
            ) by {
            assert(known_ids(next.pages, app_id).contains(id) <==> known.contains(id) || p.page_id
                == id);
            assert(lists(listed, id) <==> p.page_id == id || lists(rest, id));
        }
    }
}

/// Whether a page is another application's.
pub open spec fn of_another(app_id: Seq<char>) -> spec_fn(PageInfoView) -> bool {
    |p: PageInfoView| p.app_id != app_id
}

/// Changing an item that is not kept, into one that is not kept, does not change what is kept.
proof fn lemma_filter_update<A>(s: Seq<A>, i: int, x: A, f: spec_fn(A) -> bool)
    requires
        0 <= i < s.len(),
        !f(s[i]),
        !f(x),
    ensures
        s.update(i, x).filter(f) == s.filter(f),
    decreases s.len(),
{
    reveal(Seq::filter);
    if i < s.len() - 1 {
        lemma_filter_update(s.drop_last(), i, x, f);
        assert(s.update(i, x).drop_last() =~= s.drop_last().update(i, x));
        assert(s.update(i, x).last() == s.last());
    } else {
        assert(s.update(i, x).drop_last() =~= s.drop_last());
    }
}

/// Keeping some items, and of those the ones that a narrower test keeps, is the narrower test.
proof fn lemma_filter_narrower<A>(s: Seq<A>, wide: spec_fn(A) -> bool, narrow: spec_fn(A) -> bool)
    requires
        forall|x: A| #[trigger] narrow(x) ==> wide(x),
    ensures
        s.filter(wide).filter(narrow) == s.filter(narrow),
    decreases s.len(),
{
    reveal(Seq::filter);
    if s.len() > 0 {
        let d = s.drop_last();
        lemma_filter_narrower(d, wide, narrow);
        if wide(s.last()) {
            assert(d.filter(wide).push(s.last()).drop_last() =~= d.filter(wide));
        }
    }
}

/// Taking in listed pages leaves the pages of other applications as they are.
proof fn lemma_list_all_leaves_others(n: PageTable, app_id: Seq<char>, listed: Seq<rpc::PageView>)
    ensures
        list_all(n, app_id, listed).pages.filter(of_another(app_id)) == n.pages.filter(
            of_another(app_id),
        ),
    decreases listed.len(),
{
    if listed.len() > 0 {
        let p = listed[0];
        let next = list_one(n, app_id, p);
        let f = of_another(app_id);
        let own = identified(app_id, p.page_id);
        lemma_list_all_leaves_others(next, app_id, listed.skip(1));
        seqs::lemma_first_index(n.pages, own);
        let i = seqs::first_index(n.pages, own);
        if i < n.pages.len() {
            lemma_filter_update(n.pages, i, next.pages[i], f);
            assert(next.pages =~= n.pages.update(i, next.pages[i]));
        } else {
            reveal(Seq::filter);
            assert(next.pages.drop_last() =~= n.pages);
        }
    }
}

/// Whether a table has a page under the number of `p` that is the same page of the same
/// application.
pub open spec fn has_page(t: PageTable, p: PageInfoView) -> bool {
    exists|k: int|
        0 <= k < t.pages.len() && (#[trigger] t.pages[k]).page_num == p.page_num
            && t.pages[k].app_id == p.app_id && t.pages[k].page_id == p.page_id
}

/// A page keeps its number and what it is for as long as it is there, and no number is given
/// twice: a page of a table is one that the earlier table had under the same number, or its
/// number is higher than any that was given before.
#[verifier::opaque]
pub open spec fn numbers_kept(earlier: PageTable, later: PageTable) -> bool {
    &&& earlier.max <= later.max
    &&& forall|i: int|
        0 <= i < later.pages.len() ==> (#[trigger] later.pages[i]).page_num > earlier.max
            || has_page(earlier, later.pages[i])
}

/// One step after another keeps numbers if both do.
pub proof fn law_numbers_kept_throughout(a: PageTable, b: PageTable, c: PageTable)
    requires
        numbers_kept(a, b),
        numbers_kept(b, c),
    ensures
        numbers_kept(a, c),
{
    reveal(numbers_kept);
    assert forall|i: int| 0 <= i < c.pages.len() implies (#[trigger] c.pages[i]).page_num > a.max
        || has_page(a, c.pages[i]) by {
        if c.pages[i].page_num <= b.max {
            let j = choose|j: int|
                0 <= j < b.pages.len() && (#[trigger] b.pages[j]).page_num == c.pages[i].page_num
                    && b.pages[j].app_id == c.pages[i].app_id && b.pages[j].page_id
                    == c.pages[i].page_id;
            assert(b.pages[j].page_num > a.max || has_page(a, b.pages[j]));
        }
    }
}

/// Pages that were there before, under the same numbers, keep them.
proof fn lemma_pages_kept(earlier: PageTable, later: PageTable)
    requires
        earlier.max == later.max,
        forall|i: int| 0 <= i < later.pages.len() ==> has_page(earlier, #[trigger] later.pages[i]),
    ensures
        numbers_kept(earlier, later),
{
    reveal(numbers_kept);
}

proof fn lemma_list_one_keeps_numbers(n: PageTable, app_id: Seq<char>, p: rpc::PageView)
    requires
        table_ok(n),
        n.max < u32::MAX || known_ids(n.pages, app_id).contains(p.page_id),
    ensures
        numbers_kept(n, list_one(n, app_id, p)),
{
    reveal(numbers_kept);
    let next = list_one(n, app_id, p);
    lemma_list_one(n, app_id, p);
    seqs::lemma_first_index(n.pages, identified(app_id, p.page_id));
    assert forall|i: int| 0 <= i < next.pages.len() implies (#[trigger] next.pages[i]).page_num
        > n.max || has_page(n, next.pages[i]) by {
        if i < n.pages.len() {
            assert(n.pages[i].page_num == next.pages[i].page_num);
        }
    }
}

proof fn lemma_list_all_keeps_numbers(n: PageTable, app_id: Seq<char>, listed: Seq<rpc::PageView>)
    requires
        table_ok(n),
        has_numbers(n, app_id, listed),
    ensures
        numbers_kept(n, list_all(n, app_id, listed)),
    decreases listed.len(),
{
    if listed.len() > 0 {
        let p = listed[0];
        let next = list_one(n, app_id, p);
        let known = known_ids(n.pages, app_id);
        lemma_list_one(n, app_id, p);
        if known.contains(p.page_id) {
            assert(known.insert(p.page_id) =~= known);
        }
        lemma_list_one_keeps_order(n, app_id, p);
        lemma_list_one_keeps_numbers(n, app_id, p);
        lemma_list_all_keeps_numbers(next, app_id, listed.skip(1));
        law_numbers_kept_throughout(n, next, list_all(next, app_id, listed.skip(1)));
    } else {
        lemma_same_table(n);
    }
}

/// What is kept of a table keeps its numbers.
proof fn lemma_filter_keeps_numbers(t: PageTable, f: spec_fn(PageInfoView) -> bool)
    ensures
        numbers_kept(t, PageTable { pages: t.pages.filter(f), max: t.max }),
{
    let later = PageTable { pages: t.pages.filter(f), max: t.max };
    lemma_filter_is_part(t.pages, f);
    assert forall|i: int| 0 <= i < later.pages.len() implies has_page(
        t,
        #[trigger] later.pages[i],
    ) by {
        let k = choose|k: int| 0 <= k < t.pages.len() && t.pages[k] == later.pages[i];
        assert(t.pages[k].page_num == later.pages[i].page_num);
    }
    lemma_pages_kept(t, later);
}

proof fn lemma_same_table(t: PageTable)
    ensures
        numbers_kept(t, t),
{
    assert forall|i: int| 0 <= i < t.pages.len() implies has_page(t, #[trigger] t.pages[i]) by {
        let p = t.pages[i];
        assert(t.pages[i].page_num == p.page_num);
    }
    lemma_pages_kept(t, t);
}

/// After a listing, an application has just the pages that it listed, the pages of the other
/// applications are as they were, pages that were there keep their numbers, and the table is in
/// order.
pub proof fn law_listing(n: PageTable, app_id: Seq<char>, listed: Seq<rpc::PageView>)
    requires
        table_ok(n),
        has_numbers(n, app_id, listed),
    ensures
        table_ok(list_pages(n, app_id, listed)),
        numbers_kept(n, list_pages(n, app_id, listed)),
        forall|id: u32|
            known_ids(list_pages(n, app_id, listed).pages, app_id).contains(id) <==> lists(
                listed,
                id,
            ),
        list_pages(n, app_id, listed).pages.filter(of_another(app_id)) == n.pages.filter(
            of_another(app_id),
        ),
{
    let all = list_all(n, app_id, listed);
    let f = stays(app_id, listed);
    let after = list_pages(n, app_id, listed);
    lemma_list_all(n, app_id, listed);
    lemma_list_all_keeps_numbers(n, app_id, listed);
    lemma_list_all_leaves_others(n, app_id, listed);
    lemma_filter_keeps_order(all, f);
    lemma_filter_is_part(all.pages, f);
    lemma_filter_narrower(all.pages, f, of_another(app_id));
    lemma_filter_keeps_numbers(all, f);
    law_numbers_kept_throughout(n, all, after);
    assert forall|id: u32| #[trigger]
        known_ids(after.pages, app_id).contains(id) <==> lists(listed, id) by {
        if known_ids(after.pages, app_id).contains(id) {
            let k = choose|k: int|
                0 <= k < after.pages.len() && (#[trigger] after.pages[k]).app_id == app_id
                    && after.pages[k].page_id == id;
            assert(f(after.pages[k]));
        }
        if lists(listed, id) {
            assert(known_ids(all.pages, app_id).contains(id));
            let k = choose|k: int|
                0 <= k < all.pages.len() && (#[trigger] all.pages[k]).app_id == app_id
                    && all.pages[k].page_id == id;
            assert(f(all.pages[k]));
            let j = choose|j: int| 0 <= j < after.pages.len() && after.pages[j] == all.pages[k];
            assert(after.pages[j].app_id == app_id && after.pages[j].page_id == id);
        }
    }
}

/// Whether a device is the same one after a step: it has its identifier, its port and its name,
/// its pages are in order, and they keep their numbers.
pub open spec fn same_device(earlier: DeviceView, later: DeviceView) -> bool {
    &&& later.device_id == earlier.device_id
    &&& later.port == earlier.port
    &&& later.device_name == earlier.device_name
    &&& later.device_os_version == earlier.device_os_version
    &&& later.connection_id == earlier.connection_id
    &&& table_ok(earlier.table) ==> table_ok(later.table) && numbers_kept(
        earlier.table,
        later.table,
    )
}

proof fn lemma_with_debugger(d: DeviceView, i: int, ws_id: Option<Seq<char>>)
    requires
        0 <= i < d.table.pages.len(),
    ensures
        same_device(d, d.with_debugger(i, ws_id)),
{
    let later = d.with_debugger(i, ws_id).table;
    let pages = d.table.pages;
    assert forall|k: int| 0 <= k < later.pages.len() implies has_page(
        d.table,
        #[trigger] later.pages[k],
    ) by {
        assert(pages[k].page_num == later.pages[k].page_num);
    }
    lemma_pages_kept(d.table, later);
    reveal(table_ok);
    assert forall|k: int| 0 <= k < later.pages.len() implies (#[trigger] later.pages[k]).page_num
        == pages[k].page_num && later.pages[k].app_id == pages[k].app_id && later.pages[k].page_id
        == pages[k].page_id by {}
}

proof fn lemma_client_message(
    d: DeviceView,
    ws_id: Seq<char>,
    page_num: u32,
    data: Seq<u8>,
    is_close: bool,
)
    ensures
        same_device(d, d.client_message(ws_id, page_num, data, is_close).device),
{
    lemma_same_table(d.table);
    let i = d.page_at(page_num);
    seqs::lemma_first_index(d.table.pages, numbered(page_num));
    if i < d.table.pages.len() {
        lemma_with_debugger(d, i, None);
        let freed = d.with_debugger(i, None);
        lemma_with_debugger(d, i, Some(ws_id));
        lemma_with_debugger(freed, i, Some(ws_id));
        if table_ok(d.table) {
            law_numbers_kept_throughout(
                d.table,
                freed.table,
                freed.with_debugger(i, Some(ws_id)).table,
            );
        }
    }
}

proof fn lemma_apps_reported(d: DeviceView, apps: Seq<AppView>)
    ensures
        d.apps_reported(apps).device.table == d.table,
        d.apps_reported(apps).device.ws_clients == d.ws_clients,
        d.apps_reported(apps).device.device_id == d.device_id,
        d.apps_reported(apps).device.port == d.port,
        d.apps_reported(apps).device.device_name == d.device_name,
        d.apps_reported(apps).device.device_os_version == d.device_os_version,
        d.apps_reported(apps).device.connection_id == d.connection_id,
        d.apps_reported(apps).device.connected == d.connected,
    decreases apps.len(),
{
    if apps.len() > 0 {
        lemma_apps_reported(d, apps.drop_last());
    }
}

/// The device that an event is about, if it is about one.
pub open spec fn subject(event: ProxyEvent) -> Option<Seq<char>> {
    match event {
        ProxyEvent::Attached { device_id } => Some(device_id@),
        ProxyEvent::Detached { device_id } => Some(device_id@),
        ProxyEvent::Wi { device_id, .. } => Some(device_id@),
        ProxyEvent::WsMessage { device_id, .. } => Some(device_id@),
        ProxyEvent::WsRegistration { device_id, .. } => Some(device_id@),
        ProxyEvent::ListenerClosed | ProxyEvent::Cancelled => None,
    }
}

/// What a message does to the device that it comes from.
proof fn lemma_message_handled(
    devices: Seq<DeviceView>,
    device_id: Seq<char>,
    message: MessageView,
    has_listener: bool,
)
    requires
        devices_ok(devices),
        message_fits(devices, device_id, message),
    ensures
        ({
            let i = device_at(devices, device_id);
            let after = message_handled(devices, device_id, message, has_listener).devices;
            &&& 0 <= i <= devices.len()
            &&& after.len() == devices.len()
            &&& i < devices.len() ==> same_device(devices[i], after[i])
            &&& forall|k: int| 0 <= k < devices.len() && k != i ==> after[k] == #[trigger] devices[k]
        }),
{
    let i = device_at(devices, device_id);
    seqs::lemma_first_index(devices, with_id(device_id));
    if i < devices.len() {
        let d = devices[i];
        assert(table_ok(d.table));
        lemma_same_table(d.table);
        match message {
            MessageView::ReportConnectedApplicationList(apps) => {
                lemma_apps_reported(d, apps);
                lemma_apps_reported(DeviceView { connected: true, ..d }, apps);
            },
            MessageView::ApplicationDisconnected(app) => {
                let f = stays(app.app_id, Seq::empty());
                lemma_filter_keeps_order(d.table, f);
                lemma_filter_keeps_numbers(d.table, f);
            },
            MessageView::ApplicationSentListing { app_id, pages } => {
                law_listing(d.table, app_id, pages);
            },
            _ => {},
        }
    }
}

/// No event puts the table of devices out of order. Every device that is there afterwards was
/// there before, under the same identifier, port and name, and its pages keep their numbers. And
/// an event about one device leaves every other device as it was.
pub proof fn law_event(devices: Seq<DeviceView>, event: ProxyEvent, has_listener: bool)
    requires
        devices_ok(devices),
        proxy_event_fits(devices, event),
    ensures
        devices_ok(event_handled(devices, event, has_listener).devices),
        forall|i: int|
            0 <= i < event_handled(devices, event, has_listener).devices.len() ==> exists|k: int|
                0 <= k < devices.len() && same_device(
                    #[trigger] devices[k],
                    #[trigger] event_handled(devices, event, has_listener).devices[i],
                ),
        forall|k: int|
            0 <= k < devices.len() && subject(event) != Some((#[trigger] devices[k]).device_id)
                ==> event_handled(devices, event, has_listener).devices.contains(devices[k]),
{
    let after = event_handled(devices, event, has_listener).devices;
    let id = match subject(event) {
        Some(id) => id,
        None => Seq::empty(),
    };
    let i = device_at(devices, id);
    seqs::lemma_first_index(devices, with_id(id));
    assert forall|k: int| 0 <= k < devices.len() implies same_device(
        #[trigger] devices[k],
        devices[k],
    ) by {
        lemma_same_table(devices[k].table);
    }
    match event {
        ProxyEvent::Detached { .. } => {
            if i < devices.len() {
                assert forall|k: int| 0 <= k < after.len() implies #[trigger] after[k]
                    == devices[if k < i { k } else { k + 1 }] by {}
                assert forall|k: int| 0 <= k < devices.len() && k != i implies after.contains(
                    #[trigger] devices[k],
                ) by {
                    let j = if k < i { k } else { k - 1 };
                    assert(after[j] == devices[k]);
                }
            } else {
                assert(after =~= devices);
                assert forall|k: int| 0 <= k < devices.len() implies after.contains(
                    #[trigger] devices[k],
                ) by {
                    assert(after[k] == devices[k]);
                }
            }
        },
        _ => {
            match event {
                ProxyEvent::Wi { device_id, event } => {
                    match rpc::message_in(event->RecvPlist_0@) {
                        Ok(message) => {
                            lemma_message_handled(devices, device_id@, message, has_listener);
                        },
                        Err(_) => {},
                    }
                },
                ProxyEvent::WsMessage { msg, .. } => {
                    if i < devices.len() {
                        lemma_client_message(
                            devices[i],
                            msg.ws_id@,
                            msg.page_num,
                            msg.data@,
                            msg.is_close,
                        );
                    }
                },
                _ => {},
            }
            assert(after.len() == devices.len());
            assert forall|k: int| 0 <= k < devices.len() implies same_device(
                #[trigger] devices[k],
                after[k],
            ) && (devices[k].device_id != id ==> after[k] == devices[k]) by {}
            assert forall|k: int|
                0 <= k < devices.len() && subject(event) != Some(
                    (#[trigger] devices[k]).device_id,
                ) implies after.contains(devices[k]) by {
                assert(after[k] == devices[k]);
            }
            assert forall|j: int| 0 <= j < after.len() implies exists|k: int|
                0 <= k < devices.len() && same_device(
                    #[trigger] devices[k],
                    #[trigger] after[j],
                ) by {
                assert(same_device(devices[j], after[j]));
            }
            assert forall|a: int, b: int| 0 <= a < b < after.len() implies (
            #[trigger] after[a]).device_id != (#[trigger] after[b]).device_id by {
                assert(same_device(devices[a], after[a]));
                assert(same_device(devices[b], after[b]));
            }
            assert forall|a: int| 0 <= a < after.len() implies table_ok(
                (#[trigger] after[a]).table,
            ) by {
                assert(same_device(devices[a], after[a]));
                assert(table_ok(devices[a].table));
            }
        },
    }
}

/// A device that is taken in puts nothing out of order and leaves the others as they were, and
/// letting go of it again gives the table back that was there before.
pub proof fn law_connect_disconnect(
    bridge: ProxyBridge,
    devices: Seq<DeviceView>,
    device_id: Seq<char>,
    port: u16,
    inspector: Inspector,
    connection_id: Seq<char>,
    has_listener: bool,
)
    requires
        devices_ok(devices),
        device_at(devices, device_id) == devices.len(),
    ensures
        ({
            let opened = bridge.device_opened(devices, device_id, port, inspector, connection_id);
            &&& devices_ok(opened.devices)
            &&& opened.devices.len() == devices.len() + 1
            &&& opened.devices.drop_last() == devices
            &&& device_at(opened.devices, device_id) == devices.len()
            &&& device_gone(opened.devices, device_id, has_listener).devices == devices
        }),
{
    let opened = bridge.device_opened(devices, device_id, port, inspector, connection_id).devices;
    let f = with_id(device_id);
    seqs::lemma_first_index(devices, f);
    assert forall|k: int| 0 <= k < devices.len() implies opened[k] == #[trigger] devices[k]
        && devices[k].device_id != device_id by {
        assert(!f(devices[k]));
    }
    assert forall|k: int| 0 <= k < devices.len() implies !f(#[trigger] opened[k]) by {
        assert(opened[k] == devices[k]);
    }
    let new = opened[opened.len() - 1];
    assert(f(new));
    seqs::lemma_is_first_index(opened, f, devices.len() as int);
    assert(opened.drop_last() =~= devices);
    assert(device_gone(opened, device_id, has_listener).devices =~= devices);
    assert(table_ok(new.table)) by {
        reveal(table_ok);
    }
}

/// A port that is picked is in the range and free, and every lower one is taken; where none is
/// picked, all are.
pub proof fn law_free_port(devices: Seq<DeviceView>, start: int, end: int)
    requires
        0 <= start,
        end <= u16::MAX,
    ensures
        match free_port(devices, start, end) {
            Some(port) => start <= port < end && !port_taken(devices, port) && forall|p: u16|
                start <= p < port ==> #[trigger] port_taken(devices, p),
            None => forall|p: u16| start <= p < end ==> #[trigger] port_taken(devices, p),
        },
    decreases end - start,
{
    if start < end && port_taken(devices, start as u16) {
        law_free_port(devices, start + 1, end);
    }
}

/// Whether a connected device looks like this to others.
pub open spec fn is_some_connected(devices: Seq<DeviceView>, info: InfoView) -> bool {
    exists|i: int|
        0 <= i < devices.len() && (#[trigger] devices[i]).connected && devices[i].info() == info
}

/// The device list shows every connected device and nothing else.
pub proof fn law_device_list(devices: Seq<DeviceView>)
    ensures
        forall|info: InfoView| #[trigger]
            shared_list(devices)->ShareDevices_devices.contains(info) <==> is_some_connected(
                devices,
                info,
            ),
{
    let f = is_connected();
    let kept = devices.filter(f);
    let shown = infos_of(kept);
    assert(shared_list(devices)->ShareDevices_devices == shown);
    lemma_filter_is_part(devices, f);
    assert forall|info: InfoView| #[trigger]
        shown.contains(info) <==> is_some_connected(devices, info) by {
        if is_some_connected(devices, info) {
            let i = choose|i: int|
                0 <= i < devices.len() && (#[trigger] devices[i]).connected && devices[i].info()
                    == info;
            assert(f(devices[i]));
            let k = choose|k: int| 0 <= k < kept.len() && kept[k] == devices[i];
            assert(shown[k] == info);
        }
        if shown.contains(info) {
            let j = choose|j: int| 0 <= j < shown.len() && shown[j] == info;
            assert(f(kept[j]));
            let i = choose|i: int| 0 <= i < devices.len() && devices[i] == kept[j];
            assert(devices[i].connected && devices[i].info() == info);
        }
    }
}

/// Data for a client that has come is handed to it, until it is gone: then it is handed to nobody.
/// What other clients get does not depend on it.
pub proof fn law_client_delivery(
    d: DeviceView,
    ws_id: Seq<char>,
    page_num: u32,
    other: Seq<char>,
    data: Seq<u8>,
)
    ensures
        d.client_registered(ws_id, page_num).device.data_received(ws_id, data).actions == seq![
            ActionView::ToClient { device_id: d.device_id, ws_id, data },
        ],
        d.client_closed(ws_id, page_num).device.data_received(ws_id, data).actions == Seq::<
            ActionView,
        >::empty(),
        other != ws_id ==> d.client_registered(ws_id, page_num).device.data_received(
            other,
            data,
        ).actions == d.data_received(other, data).actions,
        other != ws_id ==> d.client_closed(ws_id, page_num).device.data_received(
            other,
            data,
        ).actions == d.data_received(other, data).actions,
{
}

/// The pages of an application are asked for once, for as long as it stays.
pub proof fn law_listing_asked_once(d: DeviceView, app_id: Seq<char>, has_listener: bool)
    ensures
        ({
            let e = d.app_added(app_id);
            &&& e.device.app_added(app_id).device == e.device
            &&& e.device.app_added(app_id).actions == Seq::<ActionView>::empty()
            &&& d.app_removed(app_id, has_listener).device.app_added(app_id).actions == seq![
                d.sends(rpc::forward_get_listing(d.connection_id, app_id)),
            ]
        }),
{
}

/// An application that is gone has no pages, and the pages of the others are as they were.
pub proof fn law_app_removed(d: DeviceView, app_id: Seq<char>, has_listener: bool)
    ensures
        known_ids(d.app_removed(app_id, has_listener).device.table.pages, app_id) == Set::<
            u32,
        >::empty(),
        d.app_removed(app_id, has_listener).device.table.pages == d.table.pages.filter(
            of_another(app_id),
        ),
{
    let f = stays(app_id, Seq::empty());
    let kept = d.table.pages.filter(f);
    lemma_filter_is_part(d.table.pages, f);
    assert forall|x: PageInfoView| #[trigger] f(x) == of_another(app_id)(x) by {
        if f(x) && x.app_id == app_id {
            let i = choose|i: int|
                0 <= i < Seq::<rpc::PageView>::empty().len() && (#[trigger] Seq::<
                    rpc::PageView,
                >::empty()[i]).page_id == x.page_id;
        }
    }
    assert(f =~= of_another(app_id));
    assert forall|id: u32| !known_ids(kept, app_id).contains(id) by {
        if known_ids(kept, app_id).contains(id) {
            let k = choose|k: int|
                0 <= k < kept.len() && (#[trigger] kept[k]).app_id == app_id && kept[k].page_id
                    == id;
            assert(of_another(app_id)(kept[k]));
        }
    }
    assert(known_ids(kept, app_id) =~= Set::empty());
}

/// Once a client has started to debug a page, what it sends goes out in its name. When another
/// client starts to debug the same page, the device is first told that the session of the first
/// has ended, and from then on data goes out in the name of the second. When the client that
/// debugs the page is gone, the device is told so and the page is free.
pub proof fn law_debugging_session(
    d: DeviceView,
    page_num: u32,
    first: Seq<char>,
    second: Seq<char>,
    data: Seq<u8>,
)
    requires
        d.page_at(page_num) < d.table.pages.len(),
        first != second,
    ensures
        ({
            let p = d.table.pages[d.page_at(page_num)];
            let one = d.debugging_started(first, page_num).device;
            let two = one.debugging_started(second, page_num);
            &&& one.data_sent(first, page_num, data).actions == seq![
                d.sends(
                    rpc::forward_socket_data(d.connection_id, p.app_id, p.page_id, first, data),
                ),
            ]
            &&& two.actions == seq![
                d.sends(rpc::forward_did_close(d.connection_id, p.app_id, p.page_id, first)),
                d.sends(rpc::forward_socket_setup(d.connection_id, p.app_id, p.page_id, second)),
            ]
            &&& two.device.data_sent(second, page_num, data).actions == seq![
                d.sends(
                    rpc::forward_socket_data(d.connection_id, p.app_id, p.page_id, second, data),
                ),
            ]
            &&& one.client_closed(first, page_num).actions == seq![
                d.sends(rpc::forward_did_close(d.connection_id, p.app_id, p.page_id, first)),
                ActionView::DropClient { device_id: d.device_id, ws_id: first },
            ]
            &&& one.client_closed(first, page_num).device.table.pages[d.page_at(
                page_num,
            )].ws_client_id is None
        }),
{
    let f = numbered(page_num);
    let i = d.page_at(page_num);
    seqs::lemma_first_index(d.table.pages, f);
    let one = d.debugging_started(first, page_num).device;
    lemma_page_stays_at(d, one, page_num);
    let freed = one.with_debugger(i, None);
    lemma_page_stays_at(d, freed, page_num);
    let two = one.debugging_started(second, page_num);
    lemma_page_stays_at(d, two.device, page_num);
    assert(two.actions =~= seq![
        d.sends(
            rpc::forward_did_close(
                d.connection_id,
                d.table.pages[i].app_id,
                d.table.pages[i].page_id,
                first,
            ),
        ),
        d.sends(
            rpc::forward_socket_setup(
                d.connection_id,
                d.table.pages[i].app_id,
                d.table.pages[i].page_id,
                second,
            ),
        ),
    ]);
    assert(one.client_closed(first, page_num).actions =~= seq![
        d.sends(
            rpc::forward_did_close(
                d.connection_id,
                d.table.pages[i].app_id,
                d.table.pages[i].page_id,
                first,
            ),
        ),
        ActionView::DropClient { device_id: d.device_id, ws_id: first },
    ]);
}

/// A page is at the same position in a table whose pages have the same numbers.
proof fn lemma_page_stays_at(a: DeviceView, b: DeviceView, page_num: u32)
    requires
        a.table.pages.len() == b.table.pages.len(),
        forall|k: int|
            0 <= k < a.table.pages.len() ==> (#[trigger] a.table.pages[k]).page_num
                == b.table.pages[k].page_num,
    ensures
        a.page_at(page_num) == b.page_at(page_num),
{
    let f = numbered(page_num);
    let i = a.page_at(page_num);
    seqs::lemma_first_index(a.table.pages, f);
    assert forall|k: int| 0 <= k < i implies !f(#[trigger] b.table.pages[k]) by {
        assert(!f(a.table.pages[k]));
    }
    seqs::lemma_is_first_index(b.table.pages, f, i);
}

/// The table is in order at the start, when no device is there.
pub proof fn law_no_devices()
    ensures
        devices_ok(Seq::empty()),
{
}

/// The pages of a table that is in order are shown by ascending number, each once.
pub proof fn law_pages_shown_in_order(d: DeviceView, has_listener: bool)
    requires
        table_ok(d.table),
    ensures
        ({
            let shown = d.pages_changed(has_listener)[0]->SharePages_pages;
            &&& shown.len() == d.table.pages.len()
            &&& forall|i: int, j: int|
                0 <= i < j < shown.len() ==> (#[trigger] shown[i]).page_num < (
                #[trigger] shown[j]).page_num
        }),
{
    reveal(table_ok);
    let pages = d.table.pages;
    let shown = d.pages_changed(has_listener)[0]->SharePages_pages;
    assert forall|i: int, j: int| 0 <= i < j < shown.len() implies (#[trigger] shown[i]).page_num
        < (#[trigger] shown[j]).page_num by {
        assert(pages[i].page_num < pages[j].page_num);
    }
}

/// When the proxy stops, it stops talking to every device, and a listener is told of each that was
/// connected.
pub proof fn law_all_released(devices: Seq<DeviceView>, has_listener: bool, k: int)
    requires
        0 <= k < devices.len(),
    ensures
        all_gone(devices, has_listener).contains(
            ActionView::Release { device_id: devices[k].device_id },
        ),
        devices[k].connected && has_listener ==> all_gone(devices, has_listener).contains(
            ActionView::Notify(NoticeView::Disconnected(devices[k].info())),
        ),
    decreases devices.len(),
{
    let d = devices[k];
    let all = all_gone(devices, has_listener);
    let id = devices[0].device_id;
    let s = device_gone(devices, id, has_listener);
    assert(with_id(id)(devices[0]));
    assert(device_at(devices, id) == 0);
    let rest = all_gone(s.devices, has_listener);
    let release = ActionView::Release { device_id: d.device_id };
    let notice = ActionView::Notify(NoticeView::Disconnected(d.info()));
    if k == 0 {
        let n: int = if d.connected && has_listener {
            1
        } else {
            0
        };
        assert(s.actions[n] == release);
        assert(all[n] == release);
        if d.connected && has_listener {
            assert(s.actions[0] == notice);
            assert(all[0] == notice);
        }
    } else {
        assert(s.devices[k - 1] == d);
        law_all_released(s.devices, has_listener, k - 1);
        let i = choose|i: int| 0 <= i < rest.len() && rest[i] == release;
        assert(all[s.actions.len() + i] == release);
        if d.connected && has_listener {
            let j = choose|j: int| 0 <= j < rest.len() && rest[j] == notice;
            assert(all[s.actions.len() + j] == notice);
        }
    }
}

} // verus!
