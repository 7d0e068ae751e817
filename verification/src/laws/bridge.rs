//! What events do to the devices, and what is done about them.

use crate::http_server;
use crate::http_server::{EntryView, WsActionView, WsEvent, WsNext};
use crate::laws::messages;
use crate::laws::numerals;
use crate::property_list;
use crate::property_list::PlistView;
use crate::proxy;
use crate::proxy::{
    ActionView, DeviceView, Inspector, NoticeView, PageInfoView, PortPlan, ProxyBridge, ProxyEvent,
};
use crate::rpc;
use crate::rpc::{AppView, MessageView, PageView};
use crate::seqs;
use crate::text;
use crate::webinspector;
use crate::{DebuggableView, InfoView};
use vstd::prelude::*;
#[allow(unused_imports)]
use vstd::string::*;

verus! {

/// Whether the device with an identifier is found at a position.
pub open spec fn found_at(devices: Seq<DeviceView>, device_id: Seq<char>, i: int) -> bool {
    &&& 0 <= i < devices.len()
    &&& devices[i].device_id == device_id
    &&& forall|k: int| 0 <= k < i ==> (#[trigger] devices[k]).device_id != device_id
}

/// Whether no device has an identifier.
pub open spec fn is_absent(devices: Seq<DeviceView>, device_id: Seq<char>) -> bool {
    forall|k: int| 0 <= k < devices.len() ==> (#[trigger] devices[k]).device_id != device_id
}

/// Whether the page with a number is found at a position.
pub open spec fn page_found_at(d: DeviceView, page_num: u32, j: int) -> bool {
    &&& 0 <= j < d.table.pages.len()
    &&& d.table.pages[j].page_num == page_num
    &&& forall|k: int| 0 <= k < j ==> (#[trigger] d.table.pages[k]).page_num != page_num
}

/// Whether no page has a number.
pub open spec fn page_absent(d: DeviceView, page_num: u32) -> bool {
    forall|k: int| 0 <= k < d.table.pages.len() ==> (#[trigger] d.table.pages[k]).page_num
        != page_num
}

/// Whether an action sends a message to a device, in the packets that the device takes.
pub open spec fn carries(action: ActionView, d: DeviceView, message: PlistView) -> bool {
    action matches ActionView::Send { device_id, packets } && device_id == d.device_id && packets
        == webinspector::packets_of(
        webinspector::bodies(
            d.is_sim,
            d.partials_supported,
            property_list::plist_written(message),
        ),
    )
}

/// Whether a message is about a page of a device, by its name, in the name of a client.
pub open spec fn about_page(
    message: PlistView,
    selector: Seq<char>,
    d: DeviceView,
    p: PageInfoView,
    sender_id: Seq<char>,
) -> bool {
    &&& messages::selector_of(message) == Some(PlistView::Text(selector))
    &&& messages::argument(message, "WIRConnectionIdentifierKey"@) == Some(
        PlistView::Text(d.connection_id),
    )
    &&& messages::argument(message, "WIRApplicationIdentifierKey"@) == Some(
        PlistView::Text(p.app_id),
    )
    &&& messages::argument(message, "WIRPageIdentifierKey"@) == Some(
        PlistView::Unsigned(p.page_id as u64),
    )
    &&& messages::argument(message, "WIRSenderKey"@) == Some(PlistView::Text(sender_id))
}

/// Whether a device is the same but for its applications, pages and clients, and whether it has
/// answered.
pub open spec fn same_link(a: DeviceView, b: DeviceView) -> bool {
    &&& a.port == b.port
    &&& a.device_id == b.device_id
    &&& a.device_name == b.device_name
    &&& a.device_os_version == b.device_os_version
    &&& a.is_sim == b.is_sim
    &&& a.partials_supported == b.partials_supported
    &&& a.connection_id == b.connection_id
}

/// Whether a page is the same but for who debugs it.
pub open spec fn same_but_for_debugger(a: PageInfoView, b: PageInfoView) -> bool {
    &&& a.page_num == b.page_num
    &&& a.page_type == b.page_type
    &&& a.app_id == b.app_id
    &&& a.page_id == b.page_id
    &&& a.connection_id == b.connection_id
    &&& a.title == b.title
    &&& a.url == b.url
}

proof fn lemma_found(devices: Seq<DeviceView>, device_id: Seq<char>, i: int)
    ensures
        found_at(devices, device_id, i) ==> proxy::device_at(devices, device_id) == i,
        is_absent(devices, device_id) ==> proxy::device_at(devices, device_id) == devices.len(),
{
    let f = proxy::with_id(device_id);
    if found_at(devices, device_id, i) {
        assert forall|k: int| 0 <= k < i implies !f(#[trigger] devices[k]) by {}
        assert(f(devices[i]));
        seqs::lemma_is_first_index(devices, f, i);
    }
    if is_absent(devices, device_id) {
        assert forall|k: int| 0 <= k < devices.len() implies !f(#[trigger] devices[k]) by {}
        seqs::lemma_is_first_index(devices, f, devices.len() as int);
    }
}

proof fn lemma_page_found(d: DeviceView, page_num: u32, j: int)
    ensures
        page_found_at(d, page_num, j) ==> d.page_at(page_num) == j,
        page_absent(d, page_num) ==> d.page_at(page_num) == d.table.pages.len(),
{
    let f = proxy::numbered(page_num);
    let pages = d.table.pages;
    if page_found_at(d, page_num, j) {
        assert forall|k: int| 0 <= k < j implies !f(#[trigger] pages[k]) by {}
        assert(f(pages[j]));
        seqs::lemma_is_first_index(pages, f, j);
    }
    if page_absent(d, page_num) {
        assert forall|k: int| 0 <= k < pages.len() implies !f(#[trigger] pages[k]) by {}
        seqs::lemma_is_first_index(pages, f, pages.len() as int);
    }
}

// ---------------------------------------------------------------------------------------------
// Clients
// ---------------------------------------------------------------------------------------------

/// What a client sends goes to the device as it is: the whole of it is handed to the proxy, the
/// connection goes on, and the device gets one message with the data, for the page of the client
/// and in the name in which the page is debugged, or else in the client's own.
pub proof fn law_client_data_reaches_page(
    d: DeviceView,
    j: int,
    page_num: u32,
    ws_id: Seq<char>,
    data: Vec<u8>,
)
    requires
        page_found_at(d, page_num, j),
        data@.len() > 0,
    ensures
        ({
            let (handed, next) = http_server::ws_step(page_num, ws_id, WsEvent::Message(data));
            &&& next == WsNext::Wait
            &&& handed matches Some(
                WsActionView::ToProxy { page_num: n, ws_id: w, data: b, is_close },
            ) && n == page_num && w == ws_id && b == data@ && !is_close && ({
                let e = d.client_message(w, n, b, is_close);
                &&& e.device == d
                &&& e.actions.len() == 1
                &&& exists|m: PlistView| #[trigger]
                    carries(e.actions[0], d, m) && about_page(
                        m,
                        "_rpc_forwardSocketData:"@,
                        d,
                        d.table.pages[j],
                        (match d.table.pages[j].sender_id {
                            Some(s) => s,
                            None => ws_id,
                        }),
                    ) && messages::argument(m, "WIRSocketDataKey"@) == Some(PlistView::Data(data@))
            })
        }),
{
    lemma_page_found(d, page_num, j);
    let p = d.table.pages[j];
    let sender = match p.sender_id {
        Some(s) => s,
        None => ws_id,
    };
    let m = rpc::forward_socket_data(d.connection_id, p.app_id, p.page_id, sender, data@);
    messages::law_data_carried(d.connection_id, p.app_id, p.page_id, sender, data@);
    let e = d.client_message(ws_id, page_num, data@, false);
    assert(carries(e.actions[0], d, m));
}

/// A client that has nothing to send opens the session: the device is told so, in the name of the
/// client, and from then on the client debugs the page. If another did before, the device is first
/// told that its session is over.
pub proof fn law_session_starts(d: DeviceView, j: int, page_num: u32, ws_id: Seq<char>)
    requires
        proxy::table_ok(d.table),
        page_found_at(d, page_num, j),
    ensures
        ({
            let e = d.client_message(ws_id, page_num, Seq::empty(), false);
            let p = d.table.pages[j];
            let q = e.device.table.pages[j];
            &&& e.device.table.pages.len() == d.table.pages.len()
            &&& q.sender_id == Some(ws_id)
            &&& q.ws_client_id == Some(ws_id)
            &&& same_but_for_debugger(p, q)
            &&& e.device.ws_clients == d.ws_clients
            &&& e.actions.len() == (if p.ws_client_id is Some && p.ws_client_id != Some(ws_id) {
                2nat
            } else {
                1nat
            })
            &&& exists|m: PlistView| #[trigger]
                carries(e.actions.last(), d, m) && about_page(
                    m,
                    "_rpc_forwardSocketSetup:"@,
                    d,
                    p,
                    ws_id,
                ) && messages::argument(m, "WIRAutomaticallyPause"@) == Some(
                    PlistView::Boolean(false),
                )
            &&& p.ws_client_id matches Some(other) ==> other != ws_id ==> exists|m: PlistView|
                #[trigger] carries(e.actions[0], d, m) && about_page(
                    m,
                    "_rpc_forwardDidClose:"@,
                    d,
                    p,
                    other,
                )
        }),
{
    reveal(proxy::table_ok);
    lemma_page_found(d, page_num, j);
    let p = d.table.pages[j];
    let e = d.client_message(ws_id, page_num, Seq::empty(), false);
    let m = rpc::forward_socket_setup(d.connection_id, p.app_id, p.page_id, ws_id);
    messages::law_session_opened(d.connection_id, p.app_id, p.page_id, ws_id);
    assert(carries(e.actions.last(), d, m));
    assert(p.sender_id == p.ws_client_id);
    if let Some(other) = p.ws_client_id {
        if other != ws_id {
            let c = rpc::forward_did_close(d.connection_id, p.app_id, p.page_id, other);
            messages::law_session_closed(d.connection_id, p.app_id, p.page_id, other);
            assert(carries(e.actions[0], d, c));
        }
    }
}

/// A client that goes is forgotten and its channel let go of. If the page was debugged, the device
/// is told that the session is over, and nobody debugs the page any more.
pub proof fn law_session_ends(
    d: DeviceView,
    j: int,
    page_num: u32,
    ws_id: Seq<char>,
    data: Seq<u8>,
)
    requires
        page_found_at(d, page_num, j),
    ensures
        ({
            let e = d.client_message(ws_id, page_num, data, true);
            let p = d.table.pages[j];
            let q = e.device.table.pages[j];
            &&& !e.device.ws_clients.contains_key(ws_id)
            &&& e.device.ws_clients == d.ws_clients.remove(ws_id)
            &&& e.actions.last() == (ActionView::DropClient { device_id: d.device_id, ws_id })
            &&& e.device.table.pages.len() == d.table.pages.len()
            &&& same_but_for_debugger(p, q)
            &&& q.sender_id is None
            &&& p.sender_id is None ==> q == p && e.actions.len() == 1
            &&& p.sender_id matches Some(sender) ==> e.actions.len() == 2 && q.ws_client_id is None
                && exists|m: PlistView| #[trigger]
                carries(e.actions[0], d, m) && about_page(
                    m,
                    "_rpc_forwardDidClose:"@,
                    d,
                    p,
                    sender,
                )
        }),
{
    lemma_page_found(d, page_num, j);
    let p = d.table.pages[j];
    let e = d.client_message(ws_id, page_num, data, true);
    if let Some(sender) = p.sender_id {
        let c = rpc::forward_did_close(d.connection_id, p.app_id, p.page_id, sender);
        messages::law_session_closed(d.connection_id, p.app_id, p.page_id, sender);
        assert(carries(e.actions[0], d, c));
    }
}

/// Whatever a client sends, nothing is changed of the device but who debugs the client's own page,
/// and, if the client goes, that it is there.
pub proof fn law_client_changes_little(
    d: DeviceView,
    page_num: u32,
    ws_id: Seq<char>,
    data: Seq<u8>,
    is_close: bool,
    k: int,
)
    requires
        0 <= k < d.table.pages.len(),
    ensures
        ({
            let after = d.client_message(ws_id, page_num, data, is_close).device;
            &&& same_link(d, after)
            &&& after.connected == d.connected
            &&& after.app_ids == d.app_ids
            &&& after.current_app == d.current_app
            &&& after.table.max == d.table.max
            &&& after.table.pages.len() == d.table.pages.len()
            &&& same_but_for_debugger(d.table.pages[k], after.table.pages[k])
            &&& d.table.pages[k].page_num != page_num ==> after.table.pages[k] == d.table.pages[k]
            &&& !is_close ==> after.ws_clients == d.ws_clients
            &&& is_close ==> after.ws_clients == d.ws_clients.remove(ws_id)
        }),
{
    seqs::lemma_first_index(d.table.pages, proxy::numbered(page_num));
}

/// A client of a page that is not there gets nothing done, but that it is forgotten if it goes.
pub proof fn law_no_such_page(
    d: DeviceView,
    page_num: u32,
    ws_id: Seq<char>,
    data: Seq<u8>,
    is_close: bool,
)
    requires
        page_absent(d, page_num),
    ensures
        ({
            let e = d.client_message(ws_id, page_num, data, is_close);
            &&& e.device.table == d.table
            &&& !is_close ==> e.device == d && e.actions.len() == 0
            &&& is_close ==> e.actions == seq![
                ActionView::DropClient { device_id: d.device_id, ws_id },
            ]
        }),
{
    lemma_page_found(d, page_num, 0);
    let e = d.client_message(ws_id, page_num, data, is_close);
    if is_close {
        assert(e.actions =~= seq![ActionView::DropClient { device_id: d.device_id, ws_id }]);
    }
}

/// A client that comes is known from then on, with its page, and its channel is kept; nothing else
/// changes.
pub proof fn law_client_comes(d: DeviceView, ws_id: Seq<char>, page_num: u32)
    ensures
        ({
            let e = d.client_registered(ws_id, page_num);
            &&& e.device.ws_clients.contains_key(ws_id)
            &&& e.device.ws_clients[ws_id] == page_num
            &&& e.device.ws_clients.remove(ws_id) == d.ws_clients.remove(ws_id)
            &&& e.device == (DeviceView { ws_clients: e.device.ws_clients, ..d })
            &&& e.actions.len() == 1
            &&& e.actions[0] == (ActionView::KeepClient { device_id: d.device_id, ws_id })
        }),
{
    let e = d.client_registered(ws_id, page_num);
    assert(e.device.ws_clients.remove(ws_id) =~= d.ws_clients.remove(ws_id));
}

/// Data from the device is handed on as it is, to the client that it is for, if that one is known.
pub proof fn law_device_data_reaches_client(d: DeviceView, dest_id: Seq<char>, data: Seq<u8>)
    ensures
        d.data_received(dest_id, data).device == d,
        d.ws_clients.contains_key(dest_id) ==> d.data_received(dest_id, data).actions == seq![
            ActionView::ToClient { device_id: d.device_id, ws_id: dest_id, data },
        ],
        !d.ws_clients.contains_key(dest_id) ==> d.data_received(dest_id, data).actions.len() == 0,
{
}

// ---------------------------------------------------------------------------------------------
// Pages
// ---------------------------------------------------------------------------------------------

/// Whether the endpoints show a page as it is.
pub open spec fn shows_page(e: EntryView, p: PageInfoView) -> bool {
    &&& e.page_num == p.page_num
    &&& e.app_id == p.app_id
    &&& e.page_id == p.page_id
    &&& e.title == p.title
    &&& e.url == p.url
    &&& e.sender_id == p.sender_id
}

/// Whether a device is shown as it is: with its name, or none if it has no name.
pub open spec fn shows_device(info: InfoView, d: DeviceView) -> bool {
    &&& info.device_id == d.device_id
    &&& info.device_os_version == d.device_os_version
    &&& info.port == d.port
    &&& match d.device_name {
        Some(name) => info.device_name == name,
        None => info.device_name.len() == 0,
    }
}

/// Whether a listener is told of a page as it is: with its title, or none if it has no title.
pub open spec fn tells_page(t: DebuggableView, d: DeviceView, p: PageInfoView) -> bool {
    &&& t.device_id == d.device_id
    &&& t.device_os_version == d.device_os_version
    &&& t.page_num == p.page_num
    &&& t.page_type == p.page_type
    &&& match p.title {
        Some(title) => t.name == title,
        None => t.name.len() == 0,
    }
}

/// A device is shown as it is.
pub proof fn law_device_shown(d: DeviceView)
    ensures
        shows_device(d.info(), d),
{
}

/// When the pages of a device change, its endpoints show every page as it is, in order; and a
/// listener, if there is one, is told of the device and of every page, in order.
pub proof fn law_pages_shared(d: DeviceView, has_listener: bool)
    ensures
        ({
            let actions = d.pages_changed(has_listener);
            &&& actions.len() == (if has_listener {
                2nat
            } else {
                1nat
            })
            &&& actions[0] matches ActionView::SharePages { device_id, pages } && device_id
                == d.device_id && pages.len() == d.table.pages.len() && forall|i: int|
                0 <= i < pages.len() ==> shows_page(#[trigger] pages[i], d.table.pages[i])
            &&& has_listener ==> (actions[1] matches ActionView::Notify(
                NoticeView::PagesChanged(info, told),
            ) && shows_device(info, d) && told.len() == d.table.pages.len() && forall|i: int|
                0 <= i < told.len() ==> tells_page(#[trigger] told[i], d, d.table.pages[i])
                    && told[i].web_socket_debugger_url == proxy::debugger_url(
                    d.port,
                    d.table.pages[i].page_num,
                ))
        }),
{
}

/// The address that a listener is told leads to the page: the port and the number can be read in
/// it, on this host.
pub proof fn law_debugger_url_leads_to_page(port: u16, page_num: u32)
    ensures
        ({
            let url = proxy::debugger_url(port, page_num);
            let front = "ws://localhost:"@;
            let rest = url.skip(front.len() as int);
            let number = text::after_last(url, '/');
            let middle = "/devtools/page/"@;
            &&& text::begins_with(url, front)
            &&& text::numeral(number) == Some(page_num as nat)
            &&& text::numeral(rest.take(rest.len() - middle.len() - number.len())) == Some(
                port as nat,
            )
            &&& rest == text::decimal(port as nat) + middle + number
        }),
{
    let url = proxy::debugger_url(port, page_num);
    let front = "ws://localhost:"@;
    let middle = "/devtools/page/"@;
    let p = text::decimal(port as nat);
    let n = text::decimal(page_num as nat);
    reveal_strlit("/devtools/page/");
    numerals::law_numeral_reads_back(port as nat);
    numerals::law_numeral_reads_back(page_num as nat);
    assert(!n.contains('/')) by {
        assert forall|i: int| 0 <= i < n.len() implies n[i] != '/' by {
            assert('0' <= n[i] <= '9');
        }
    }
    let before = front + p + middle.drop_last();
    assert(url =~= before + seq!['/'] + n);
    numerals::law_last(before, n, '/');
    assert(url.take(front.len() as int) =~= front);
    let rest = url.skip(front.len() as int);
    assert(rest =~= p + middle + n);
    assert(rest.take(rest.len() - middle.len() - n.len()) =~= p);
}

/// No two pages, on whatever ports, are debugged at the same address.
pub proof fn law_debugger_urls_differ(port: u16, page_num: u32, port2: u16, page_num2: u32)
    ensures
        proxy::debugger_url(port, page_num) == proxy::debugger_url(port2, page_num2) ==> port
            == port2 && page_num == page_num2,
{
    law_debugger_url_leads_to_page(port, page_num);
    law_debugger_url_leads_to_page(port2, page_num2);
}

// ---------------------------------------------------------------------------------------------
// Messages from a device
// ---------------------------------------------------------------------------------------------

/// A message from a device that is not there does nothing, but that word of its WebInspector has
/// the device list shown again.
pub proof fn law_absent_device(
    devices: Seq<DeviceView>,
    device_id: Seq<char>,
    message: MessageView,
    has_listener: bool,
)
    requires
        is_absent(devices, device_id),
    ensures
        proxy::message_handled(devices, device_id, message, has_listener).devices == devices,
        !(message is ReportSetup) ==> proxy::message_handled(
            devices,
            device_id,
            message,
            has_listener,
        ).actions.len() == 0,
        message is ReportSetup ==> proxy::message_handled(
            devices,
            device_id,
            message,
            has_listener,
        ).actions == seq![proxy::shared_list(devices)],
{
    lemma_found(devices, device_id, 0);
}

/// A listing of pages is taken in by the device that it comes from, which is otherwise as it was;
/// its pages are then shared.
pub proof fn law_listing_taken_in(
    devices: Seq<DeviceView>,
    i: int,
    device_id: Seq<char>,
    app_id: Seq<char>,
    pages: Seq<PageView>,
    has_listener: bool,
)
    requires
        found_at(devices, device_id, i),
    ensures
        ({
            let m = MessageView::ApplicationSentListing { app_id, pages };
            let s = proxy::message_handled(devices, device_id, m, has_listener);
            let d = s.devices[i];
            &&& s.devices == devices.update(i, d)
            &&& d == (DeviceView { table: d.table, ..devices[i] })
            &&& d.table == proxy::list_pages(devices[i].table, app_id, pages)
            &&& s.actions == d.pages_changed(has_listener)
        }),
{
    lemma_found(devices, device_id, i);
}

/// Data is handed on by the device that it comes from.
pub proof fn law_data_taken_in(
    devices: Seq<DeviceView>,
    i: int,
    device_id: Seq<char>,
    app_id: Seq<char>,
    dest_id: Seq<char>,
    data: Seq<u8>,
    has_listener: bool,
)
    requires
        found_at(devices, device_id, i),
    ensures
        ({
            let m = MessageView::ApplicationSentData { app_id, dest_id, data };
            let s = proxy::message_handled(devices, device_id, m, has_listener);
            &&& s.devices == devices
            &&& devices[i].ws_clients.contains_key(dest_id) ==> s.actions == seq![
                ActionView::ToClient { device_id, ws_id: dest_id, data },
            ]
            &&& !devices[i].ws_clients.contains_key(dest_id) ==> s.actions.len() == 0
        }),
{
    lemma_found(devices, device_id, i);
    assert(devices.update(i, devices[i]) =~= devices);
}

/// An application that comes is known from then on and is the current one; if it was not known, it
/// is asked for its pages, once. Nothing else changes.
pub proof fn law_app_comes(
    devices: Seq<DeviceView>,
    i: int,
    device_id: Seq<char>,
    app: AppView,
    has_listener: bool,
)
    requires
        found_at(devices, device_id, i),
    ensures
        ({
            let m = MessageView::ApplicationConnected(app);
            let s = proxy::message_handled(devices, device_id, m, has_listener);
            let d = s.devices[i];
            &&& s.devices == devices.update(i, d)
            &&& d == (DeviceView { app_ids: d.app_ids, current_app: d.current_app, ..devices[i] })
            &&& d.current_app == Some(app)
            &&& d.app_ids == devices[i].app_ids.insert(app.app_id)
            &&& asks_for_listing(s.actions, devices[i], app.app_id)
        }),
{
    lemma_found(devices, device_id, i);
    lemma_asked(DeviceView { current_app: Some(app), ..devices[i] }, app.app_id);
    lemma_asked(devices[i], app.app_id);
    let d = devices[i];
    if d.app_ids.contains(app.app_id) {
        assert(d.app_ids.insert(app.app_id) =~= d.app_ids);
    }
}

/// Whether the actions ask an application for its pages if it was not known, and do nothing if it
/// was.
pub open spec fn asks_for_listing(
    actions: Seq<ActionView>,
    d: DeviceView,
    app_id: Seq<char>,
) -> bool {
    if d.app_ids.contains(app_id) {
        actions.len() == 0
    } else {
        actions.len() == 1 && exists|m: PlistView| #[trigger]
            carries(actions[0], d, m) && messages::selector_of(m) == Some(
                PlistView::Text("_rpc_forwardGetListing:"@),
            ) && messages::argument(m, "WIRConnectionIdentifierKey"@) == Some(
                PlistView::Text(d.connection_id),
            ) && messages::argument(m, "WIRApplicationIdentifierKey"@) == Some(
                PlistView::Text(app_id),
            )
    }
}

proof fn lemma_asked(d: DeviceView, app_id: Seq<char>)
    ensures
        asks_for_listing(d.app_added(app_id).actions, d, app_id),
{
    if !d.app_ids.contains(app_id) {
        let m = rpc::forward_get_listing(d.connection_id, app_id);
        messages::law_listing_asked(d.connection_id, app_id);
        assert(carries(d.app_added(app_id).actions[0], d, m));
    }
}

/// An application that has changed is known from then on; if it was not known, it is asked for its
/// pages. Nothing else changes.
pub proof fn law_app_changes(
    devices: Seq<DeviceView>,
    i: int,
    device_id: Seq<char>,
    host: Seq<char>,
    app_id: Seq<char>,
    has_listener: bool,
)
    requires
        found_at(devices, device_id, i),
    ensures
        ({
            let m = MessageView::ApplicationUpdated { app_id: host, dest_id: app_id };
            let s = proxy::message_handled(devices, device_id, m, has_listener);
            let d = s.devices[i];
            &&& s.devices == devices.update(i, d)
            &&& d == (DeviceView { app_ids: d.app_ids, ..devices[i] })
            &&& d.app_ids == devices[i].app_ids.insert(app_id)
            &&& asks_for_listing(s.actions, devices[i], app_id)
        }),
{
    lemma_found(devices, device_id, i);
    lemma_asked(devices[i], app_id);
    let d = devices[i];
    if d.app_ids.contains(app_id) {
        assert(d.app_ids.insert(app_id) =~= d.app_ids);
    }
}

/// An application that goes is forgotten, with its pages and no others; the pages that are left are
/// shared. Nothing else changes.
pub proof fn law_app_goes(
    devices: Seq<DeviceView>,
    i: int,
    device_id: Seq<char>,
    app: AppView,
    has_listener: bool,
)
    requires
        found_at(devices, device_id, i),
    ensures
        ({
            let m = MessageView::ApplicationDisconnected(app);
            let s = proxy::message_handled(devices, device_id, m, has_listener);
            let d = s.devices[i];
            &&& s.devices == devices.update(i, d)
            &&& d == (DeviceView { app_ids: d.app_ids, table: d.table, ..devices[i] })
            &&& d.app_ids == devices[i].app_ids.remove(app.app_id)
            &&& d.table.max == devices[i].table.max
            &&& forall|p: PageInfoView| #[trigger]
                d.table.pages.contains(p) <==> devices[i].table.pages.contains(p) && p.app_id
                    != app.app_id
            &&& s.actions == d.pages_changed(has_listener)
        }),
{
    lemma_found(devices, device_id, i);
    let m = MessageView::ApplicationDisconnected(app);
    let pages = devices[i].table.pages;
    let f = proxy::stays(app.app_id, Seq::empty());
    let kept = proxy::message_handled(
        devices,
        device_id,
        m,
        has_listener,
    ).devices[i].table.pages;
    assert(kept == pages.filter(f));
    proxy::lemma_filter_is_part(pages, f);
    assert forall|p: PageInfoView| #[trigger] f(p) <==> p.app_id != app.app_id by {
        if f(p) && p.app_id == app.app_id {
            let k = choose|k: int|
                0 <= k < Seq::<PageView>::empty().len() && (#[trigger] Seq::<
                    PageView,
                >::empty()[k]).page_id == p.page_id;
        }
    }
    assert forall|p: PageInfoView| #[trigger] kept.contains(p) <==> pages.contains(p) && p.app_id
        != app.app_id by {
        if kept.contains(p) {
            let k = choose|k: int| 0 <= k < kept.len() && kept[k] == p;
            assert(f(kept[k]));
        }
        if pages.contains(p) && p.app_id != app.app_id {
            let k = choose|k: int| 0 <= k < pages.len() && pages[k] == p;
            assert(f(pages[k]));
        }
    }
}

/// Whether the actions show a device as connected, show the device list, and tell a listener, if
/// there is one.
pub open spec fn announces(
    actions: Seq<ActionView>,
    after: Seq<DeviceView>,
    i: int,
    has_listener: bool,
) -> bool {
    &&& actions.len() == (if has_listener {
        3nat
    } else {
        2nat
    })
    &&& actions[0] == (ActionView::MarkConnected { device_id: after[i].device_id })
    &&& actions[1] == proxy::shared_list(after)
    &&& has_listener ==> (actions[2] matches ActionView::Notify(NoticeView::Connected(info))
        && shows_device(info, after[i]))
}

/// A device whose WebInspector answers is connected from then on, and this is shown and told.
/// Nothing else changes.
pub proof fn law_device_answers(
    devices: Seq<DeviceView>,
    i: int,
    device_id: Seq<char>,
    has_listener: bool,
)
    requires
        found_at(devices, device_id, i),
    ensures
        ({
            let s = proxy::message_handled(
                devices,
                device_id,
                MessageView::ReportSetup,
                has_listener,
            );
            &&& s.devices == devices.update(i, DeviceView { connected: true, ..devices[i] })
            &&& announces(s.actions, s.devices, i, has_listener)
        }),
{
    lemma_found(devices, device_id, i);
}

/// What a report of applications does to a device that is connected.
proof fn lemma_reported(d: DeviceView, apps: Seq<AppView>)
    ensures
        ({
            let e = d.apps_reported(apps);
            &&& e.device == (DeviceView {
                app_ids: e.device.app_ids,
                current_app: e.device.current_app,
                ..d
            })
            &&& e.device.current_app == (if apps.len() == 0 {
                d.current_app
            } else {
                Some(apps.last())
            })
            &&& forall|id: Seq<char>| #[trigger]
                e.device.app_ids.contains(id) <==> d.app_ids.contains(id) || exists|k: int|
                    0 <= k < apps.len() && (#[trigger] apps[k]).app_id == id
            &&& e.actions.len() <= apps.len()
            &&& (forall|k: int|
                0 <= k < apps.len() ==> d.app_ids.contains((#[trigger] apps[k]).app_id))
                ==> e.actions.len() == 0 && e.device.app_ids == d.app_ids
        }),
    decreases apps.len(),
{
    let e = d.apps_reported(apps);
    if apps.len() > 0 {
        let before = apps.drop_last();
        lemma_reported(d, before);
        let last = apps[apps.len() - 1].app_id;
        if forall|k: int| 0 <= k < apps.len() ==> d.app_ids.contains((#[trigger] apps[k]).app_id) {
            assert forall|k: int| 0 <= k < before.len() implies d.app_ids.contains(
                (#[trigger] before[k]).app_id,
            ) by {
                assert(before[k] == apps[k]);
            }
            assert(d.app_ids.contains(last));
        }
        assert forall|id: Seq<char>| #[trigger] e.device.app_ids.contains(id) <==> d.app_ids.contains(
            id,
        ) || exists|k: int| 0 <= k < apps.len() && (#[trigger] apps[k]).app_id == id by {
            let b = d.apps_reported(before).device.app_ids;
            assert(b.contains(id) <==> d.app_ids.contains(id) || exists|k: int|
                0 <= k < before.len() && (#[trigger] before[k]).app_id == id);
            assert(e.device.app_ids.contains(id) <==> b.contains(id) || id == last);
            if exists|k: int| 0 <= k < before.len() && (#[trigger] before[k]).app_id == id {
                let k = choose|k: int| 0 <= k < before.len() && (#[trigger] before[k]).app_id == id;
                assert(apps[k].app_id == id);
            }
            if exists|k: int| 0 <= k < apps.len() && (#[trigger] apps[k]).app_id == id {
                let k = choose|k: int| 0 <= k < apps.len() && (#[trigger] apps[k]).app_id == id;
                if k < before.len() {
                    assert(before[k].app_id == id);
                }
            }
        }
    }
}

/// After a report of applications, all of them are known, and those that were known before; the
/// last is the current one, and each that was not known is asked for its pages. A device that was not connected is connected from then on, and this is
/// shown and told first. Nothing else changes.
pub proof fn law_apps_reported(
    devices: Seq<DeviceView>,
    i: int,
    device_id: Seq<char>,
    apps: Seq<AppView>,
    has_listener: bool,
)
    requires
        found_at(devices, device_id, i),
    ensures
        ({
            let m = MessageView::ReportConnectedApplicationList(apps);
            let s = proxy::message_handled(devices, device_id, m, has_listener);
            let d = s.devices[i];
            let told: nat = if devices[i].connected {
                0
            } else if has_listener {
                3
            } else {
                2
            };
            &&& s.devices == devices.update(i, d)
            &&& d == (DeviceView {
                connected: true,
                app_ids: d.app_ids,
                current_app: d.current_app,
                ..devices[i]
            })
            &&& apps.len() > 0 ==> d.current_app == Some(apps.last())
            &&& apps.len() == 0 ==> d.current_app == devices[i].current_app
            &&& forall|id: Seq<char>| #[trigger]
                d.app_ids.contains(id) <==> devices[i].app_ids.contains(id) || exists|k: int|
                    0 <= k < apps.len() && (#[trigger] apps[k]).app_id == id
            &&& s.actions.len() >= told
            &&& !devices[i].connected ==> announces(
                s.actions.take(told as int),
                devices.update(i, DeviceView { connected: true, ..devices[i] }),
                i,
                has_listener,
            )
            &&& forall|k: int|
                0 <= k < apps.len() && !devices[i].app_ids.contains((#[trigger] apps[k]).app_id)
                    ==> asked(s.actions, devices[i], apps[k].app_id)
            &&& s.actions.len() <= told + apps.len()
            &&& (forall|k: int|
                0 <= k < apps.len() ==> devices[i].app_ids.contains((#[trigger] apps[k]).app_id))
                ==> s.actions.len() == told
        }),
{
    lemma_found(devices, device_id, i);
    let m = MessageView::ReportConnectedApplicationList(apps);
    let s = proxy::message_handled(devices, device_id, m, has_listener);
    let old = devices[i];
    let start = DeviceView { connected: true, ..old };
    lemma_reported(start, apps);
    if old.connected {
        assert(start == old);
    }
    let first = if old.connected {
        Seq::empty()
    } else {
        proxy::inspector_answered(devices, i, has_listener).actions
    };
    let more = start.apps_reported(apps).actions;
    assert(s.actions =~= first + more);
    if !old.connected {
        assert(s.actions.take(first.len() as int) =~= first);
    }
    assert forall|k: int|
        0 <= k < apps.len() && !old.app_ids.contains((#[trigger] apps[k]).app_id) implies asked(
        s.actions,
        old,
        apps[k].app_id,
    ) by {
        lemma_each_asked(start, apps, k);
        let j = choose|j: int|
            0 <= j < more.len() && asks_for_listing(
                seq![#[trigger] more[j]],
                DeviceView { app_ids: Set::empty(), ..start },
                apps[k].app_id,
            );
        let fresh = DeviceView { app_ids: Set::empty(), ..start };
        assert(s.actions[first.len() + j] == more[j]);
        let msg = choose|msg: PlistView| #[trigger]
            carries(seq![more[j]][0], fresh, msg) && messages::selector_of(msg) == Some(
                PlistView::Text("_rpc_forwardGetListing:"@),
            ) && messages::argument(msg, "WIRConnectionIdentifierKey"@) == Some(
                PlistView::Text(fresh.connection_id),
            ) && messages::argument(msg, "WIRApplicationIdentifierKey"@) == Some(
                PlistView::Text(apps[k].app_id),
            );
        let fresh_old = DeviceView { app_ids: Set::empty(), ..old };
        assert(carries(seq![more[j]][0], fresh_old, msg));
        assert(asks_for_listing(seq![s.actions[first.len() + j]], fresh_old, apps[k].app_id));
    }
}

/// Whether an application is asked for its pages somewhere among the actions.
pub open spec fn asked(actions: Seq<ActionView>, d: DeviceView, app_id: Seq<char>) -> bool {
    exists|j: int|
        0 <= j < actions.len() && asks_for_listing(
            seq![#[trigger] actions[j]],
            DeviceView { app_ids: Set::empty(), ..d },
            app_id,
        )
}

proof fn lemma_each_asked(d: DeviceView, apps: Seq<AppView>, k: int)
    requires
        0 <= k < apps.len(),
        !d.app_ids.contains(apps[k].app_id),
    ensures
        asked(d.apps_reported(apps).actions, d, apps[k].app_id),
    decreases apps.len(),
{
    let before = apps.drop_last();
    let first = d.apps_reported(before);
    let all = d.apps_reported(apps).actions;
    let id = apps[k].app_id;
    let fresh = DeviceView { app_ids: Set::empty(), ..d };
    lemma_reported(d, before);
    if first.device.app_ids.contains(id) {
        let j = choose|j: int| 0 <= j < before.len() && (#[trigger] before[j]).app_id == id;
        lemma_each_asked(d, before, j);
        let a = choose|a: int|
            0 <= a < first.actions.len() && asks_for_listing(
                seq![#[trigger] first.actions[a]],
                fresh,
                id,
            );
        assert(all[a] == first.actions[a]);
    } else {
        if k < before.len() {
            assert(before[k].app_id == id);
        }
        let e = first.device.app_added(id);
        let a = first.actions.len() as int;
        assert(all[a] == e.actions[0]);
        let m = rpc::forward_get_listing(d.connection_id, id);
        messages::law_listing_asked(d.connection_id, id);
        assert(carries(seq![all[a]][0], fresh, m));
        assert(asks_for_listing(seq![all[a]], fresh, id));
    }
}

/// A message that is not known does nothing.
pub proof fn law_unknown_message(
    devices: Seq<DeviceView>,
    device_id: Seq<char>,
    selector: Seq<char>,
    has_listener: bool,
)
    ensures
        proxy::message_handled(devices, device_id, MessageView::Unknown(selector), has_listener)
            == (proxy::Step { devices, actions: Seq::empty() }),
{
}

// ---------------------------------------------------------------------------------------------
// Events
// ---------------------------------------------------------------------------------------------

/// A property list from WebInspector does what the message in it does, and nothing if there is
/// none.
pub proof fn law_inspector_event(
    devices: Seq<DeviceView>,
    event: ProxyEvent,
    has_listener: bool,
    message: MessageView,
)
    requires
        event is Wi,
    ensures
        ({
            let s = proxy::event_handled(devices, event, has_listener);
            let value = event->Wi_event->RecvPlist_0@;
            &&& rpc::message_in(value) is Err ==> s.devices == devices && s.actions.len() == 0
            &&& rpc::message_in(value) matches Ok(m) ==> m == message ==> s
                == proxy::message_handled(
                devices,
                event->Wi_device_id@,
                message,
                has_listener,
            )
        }),
{
}

/// What a client sends is taken in by its device; the other devices stay as they are. Nothing
/// happens if the device is not there.
pub proof fn law_client_event(
    devices: Seq<DeviceView>,
    event: ProxyEvent,
    has_listener: bool,
    i: int,
)
    requires
        event is WsMessage,
    ensures
        ({
            let s = proxy::event_handled(devices, event, has_listener);
            let id = event->WsMessage_device_id@;
            let msg = event->msg;
            &&& found_at(devices, id, i) ==> {
                let e = devices[i].client_message(
                    msg.ws_id@,
                    msg.page_num,
                    msg.data@,
                    msg.is_close,
                );
                s.devices == devices.update(i, e.device) && s.actions == e.actions
            }
            &&& is_absent(devices, id) ==> s.devices == devices && s.actions.len() == 0
        }),
{
    lemma_found(devices, event->WsMessage_device_id@, i);
}

/// A client that comes is taken in by its device; the other devices stay as they are. Nothing
/// happens if the device is not there.
pub proof fn law_registration_event(
    devices: Seq<DeviceView>,
    event: ProxyEvent,
    has_listener: bool,
    i: int,
)
    requires
        event is WsRegistration,
    ensures
        ({
            let s = proxy::event_handled(devices, event, has_listener);
            let id = event->WsRegistration_device_id@;
            let ws_id = event->WsRegistration_ws_id@;
            &&& found_at(devices, id, i) ==> s.devices == devices.update(
                i,
                DeviceView {
                    ws_clients: devices[i].ws_clients.insert(
                        ws_id,
                        event->WsRegistration_page_num,
                    ),
                    ..devices[i]
                },
            ) && s.actions == seq![ActionView::KeepClient { device_id: id, ws_id }]
            &&& is_absent(devices, id) ==> s.devices == devices && s.actions.len() == 0
        }),
{
    lemma_found(devices, event->WsRegistration_device_id@, i);
}

/// A device that goes is taken out, and the others stay, in their order. It is let go of, the list
/// of those that are left is shown, and a listener is told first if the device was connected.
pub proof fn law_device_goes(
    devices: Seq<DeviceView>,
    event: ProxyEvent,
    has_listener: bool,
    i: int,
)
    requires
        event is Detached,
    ensures
        ({
            let s = proxy::event_handled(devices, event, has_listener);
            let id = event->Detached_device_id@;
            &&& found_at(devices, id, i) ==> {
                let n = s.actions.len();
                &&& s.devices == devices.take(i) + devices.skip(i + 1)
                &&& n == (if devices[i].connected && has_listener {
                    3nat
                } else {
                    2nat
                })
                &&& s.actions[n - 2] == (ActionView::Release { device_id: id })
                &&& s.actions[n - 1] == proxy::shared_list(s.devices)
                &&& devices[i].connected && has_listener ==> (s.actions[0] matches ActionView::Notify(
                    NoticeView::Disconnected(info),
                ) && shows_device(info, devices[i]))
            }
            &&& is_absent(devices, id) ==> s.devices == devices && s.actions == seq![
                proxy::shared_list(devices),
            ]
        }),
{
    let id = event->Detached_device_id@;
    lemma_found(devices, id, i);
    if found_at(devices, id, i) {
        assert(devices.remove(i) =~= devices.take(i) + devices.skip(i + 1));
    }
}

/// When the proxy stops, the devices are let go of one after the other: of the first a listener is
/// told if it was connected, it is let go of, and the list of those that are left is shown; then come
/// the others.
pub proof fn law_devices_let_go(devices: Seq<DeviceView>, has_listener: bool)
    ensures
        proxy::all_gone(Seq::empty(), has_listener).len() == 0,
        devices.len() > 0 ==> {
            let all = proxy::all_gone(devices, has_listener);
            let rest = proxy::all_gone(devices.skip(1), has_listener);
            let n = all.len() - rest.len();
            &&& n == (if devices[0].connected && has_listener {
                3int
            } else {
                2int
            })
            &&& all.skip(n) == rest
            &&& all[n - 2] == (ActionView::Release { device_id: devices[0].device_id })
            &&& all[n - 1] == proxy::shared_list(devices.skip(1))
            &&& devices[0].connected && has_listener ==> (all[0] matches ActionView::Notify(
                NoticeView::Disconnected(info),
            ) && shows_device(info, devices[0]))
        },
{
    if devices.len() > 0 {
        let id = devices[0].device_id;
        lemma_found(devices, id, 0);
        assert(devices.remove(0) =~= devices.skip(1));
        let s = proxy::device_gone(devices, id, has_listener);
        let all = proxy::all_gone(devices, has_listener);
        let rest = proxy::all_gone(devices.skip(1), has_listener);
        assert(all == s.actions + rest);
        assert(all.skip(s.actions.len() as int) =~= rest);
    }
}

/// The device list shows the connected devices and no others, each as it is, in the order in which
/// they came: a device behind the others is shown last, if it is connected.
pub proof fn law_list_in_order(devices: Seq<DeviceView>, d: DeviceView)
    ensures
        ({
            let before = proxy::shared_list(devices);
            let after = proxy::shared_list(devices.push(d));
            &&& before is ShareDevices
            &&& after is ShareDevices
            &&& proxy::shared_list(Seq::empty())->ShareDevices_devices.len() == 0
            &&& !d.connected ==> after == before
            &&& d.connected ==> after->ShareDevices_devices.drop_last()
                == before->ShareDevices_devices && after->ShareDevices_devices.len()
                == before->ShareDevices_devices.len() + 1 && shows_device(
                after->ShareDevices_devices.last(),
                d,
            )
        }),
{
    reveal(Seq::filter);
    let f = proxy::is_connected();
    let more = devices.push(d);
    assert(more.drop_last() =~= devices);
    if d.connected {
        let kept = devices.filter(f);
        assert(more.filter(f) =~= kept.push(d));
        assert(proxy::infos_of(more.filter(f)).drop_last() =~= proxy::infos_of(kept));
    }
}

// ---------------------------------------------------------------------------------------------
// Connecting
// ---------------------------------------------------------------------------------------------

/// A device that is connected is kept behind the others, as it was reached: with its identifier,
/// its port, its name and its version, without applications, pages and clients, and not connected
/// until its WebInspector answers. Its endpoints are served from just that, and its WebInspector is
/// told the name of the connection.
pub proof fn law_device_connects(
    bridge: ProxyBridge,
    devices: Seq<DeviceView>,
    device_id: Seq<char>,
    port: u16,
    inspector: Inspector,
    connection_id: Seq<char>,
)
    requires
        is_absent(devices, device_id),
    ensures
        ({
            let s = bridge.device_opened(devices, device_id, port, inspector, connection_id);
            let d = s.devices.last();
            &&& s.devices == devices.push(d)
            &&& d.device_id == device_id
            &&& d.port == port
            &&& d.connection_id == connection_id
            &&& !d.connected
            &&& d.app_ids == Set::<Seq<char>>::empty()
            &&& d.current_app is None
            &&& d.table.pages.len() == 0
            &&& d.table.max == 0
            &&& d.ws_clients == Map::<Seq<char>, u32>::empty()
            &&& match inspector {
                Inspector::Simulator => d.is_sim && !d.partials_supported && d.device_os_version
                    == 0 && d.device_name == Some("SIMULATOR"@),
                Inspector::Device { device_name, device_os_version } => !d.is_sim
                    && d.device_os_version == device_os_version && d.device_name == Some(
                    device_name@,
                ) && (d.partials_supported <==> (device_os_version as int / 0x1_0000) < 11),
            }
            &&& s.actions.len() == 3
            &&& s.actions[0] matches ActionView::Serve { state, all_endpoints } && all_endpoints
                == (bridge.http_service_config is Some) && state.port == port && state.device_id
                == Some(device_id) && state.device_name == d.device_name && state.device_os_version
                == d.device_os_version && !state.connected && state.pages.len() == 0
                && state.frontend == (match bridge.http_service_config {
                Some(c) => text::option_view(c.frontend),
                None => None,
            })
            &&& exists|m: PlistView| #[trigger]
                carries(s.actions[1], d, m) && messages::selector_of(m) == Some(
                    PlistView::Text("_rpc_reportIdentifier:"@),
                ) && messages::argument(m, "WIRConnectionIdentifierKey"@) == Some(
                    PlistView::Text(connection_id),
                )
            &&& s.actions[2] == proxy::shared_list(s.devices)
        }),
{
    lemma_found(devices, device_id, 0);
    let s = bridge.device_opened(devices, device_id, port, inspector, connection_id);
    let d = s.devices.last();
    let m = rpc::report_identifier(connection_id);
    messages::law_identifier_reported(connection_id);
    assert(carries(s.actions[1], d, m));
}

/// A device that is connected already is not taken in again.
pub proof fn law_device_connects_once(
    bridge: ProxyBridge,
    devices: Seq<DeviceView>,
    i: int,
    device_id: Seq<char>,
    port: u16,
    inspector: Inspector,
    connection_id: Seq<char>,
)
    requires
        found_at(devices, device_id, i),
    ensures
        bridge.device_opened(devices, device_id, port, inspector, connection_id) == (proxy::Step {
            devices,
            actions: Seq::empty(),
        }),
        bridge.port_plan(devices, device_id) is AlreadyConnected,
{
    lemma_found(devices, device_id, i);
}

/// Whether some device has a port.
pub open spec fn has_port(devices: Seq<DeviceView>, port: u16) -> bool {
    exists|k: int| 0 <= k < devices.len() && (#[trigger] devices[k]).port == port
}

/// A device that is not connected gets the lowest free port of the range, if there is a range: none
/// if all of them are taken. Without a range it gets any.
pub proof fn law_port_given(bridge: ProxyBridge, devices: Seq<DeviceView>, device_id: Seq<char>)
    requires
        is_absent(devices, device_id),
    ensures
        match (bridge.device_ports, bridge.port_plan(devices, device_id)) {
            (None, plan) => plan is BindAny,
            (Some(range), PortPlan::Bind(port)) => range.start <= port < range.end && !has_port(
                devices,
                port,
            ) && forall|p: u16| range.start <= p < port ==> #[trigger] has_port(devices, p),
            (Some(range), plan) => plan is NoPort && forall|p: u16|
                range.start <= p < range.end ==> #[trigger] has_port(devices, p),
        },
{
    lemma_found(devices, device_id, 0);
    if let Some(range) = bridge.device_ports {
        proxy::law_free_port(devices, range.start as int, range.end as int);
        match bridge.port_plan(devices, device_id) {
            PortPlan::Bind(port) => {
                assert forall|p: u16| range.start <= p < port implies #[trigger] has_port(
                    devices,
                    p,
                ) by {
                    assert(proxy::port_taken(devices, p));
                }
                assert(!proxy::port_taken(devices, port));
            },
            _ => {
                assert forall|p: u16| range.start <= p < range.end implies #[trigger] has_port(
                    devices,
                    p,
                ) by {
                    assert(proxy::port_taken(devices, p));
                }
            },
        }
    }
}

/// An address with `unix:` in front stands for the path behind it, and any other for itself.
pub proof fn law_simulator_address(a: proxy::SimAddress, path: Seq<char>, other: Seq<char>)
    ensures
        proxy::is_address(a, "unix:"@ + path) ==> (a matches proxy::SimAddress::Unix(p) && p@
            == path),
        proxy::is_address(a, other) && !text::begins_with(other, "unix:"@) ==> (
        a matches proxy::SimAddress::Tcp(t) && t@ == other),
{
    reveal_strlit("unix:");
    let all = "unix:"@ + path;
    numerals::law_begins("unix:"@, path);
    assert(all.skip(5) =~= path);
}

} // verus!
