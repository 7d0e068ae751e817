//! What the values of the library stand for, and what errors say.

use crate::device_listener;
use crate::device_listener::DeviceEvent;
use crate::error::{Error, Failure};
use crate::http_server;
use crate::http_server::{DevicePortState, HttpResponse, PageEntry, WsAction, WsActionView};
use crate::idevice_ext;
use crate::idevice_ext::{Known, Turn, TurnView};
use crate::port_config::PortConfigEntry;
use crate::property_list;
use crate::property_list::{PlistValue, PlistView};
use crate::proxy;
use crate::proxy::{Action, ActionView, DeviceRuntime, Notice, NoticeView, PageInfo};
use crate::rpc;
use crate::rpc::{MessageView, RpcApp, RpcMessage, RpcPage};
use crate::webinspector;
use crate::{DebuggablePageInfo, DeviceInfo};
use vstd::prelude::*;
#[allow(unused_imports)]
use vstd::string::*;

verus! {

/// Whether an optional string is these characters, or none.
pub open spec fn is_text(s: Option<String>, v: Option<Seq<char>>) -> bool {
    match s {
        Some(t) => v == Some(t@),
        None => v is None,
    }
}

/// A page stands for all that it holds.
pub proof fn law_page_values(p: PageInfo, e: PageEntry, r: RpcPage)
    ensures
        p@.page_num == p.page_num && p@.page_type == p.page_type && p@.app_id == p.app_id@
            && p@.page_id == p.page_id && is_text(p.connection_id, p@.connection_id) && is_text(
            p.title,
            p@.title,
        ) && is_text(p.url, p@.url) && is_text(p.sender_id, p@.sender_id) && is_text(
            p.ws_client_id,
            p@.ws_client_id,
        ),
        e@.page_num == e.page_num && e@.app_id == e.app_id@ && e@.page_id == e.page_id && is_text(
            e.title,
            e@.title,
        ) && is_text(e.url, e@.url) && is_text(e.sender_id, e@.sender_id),
        r@.page_id == r.page_id && r@.page_type == r.page_type && is_text(
            r.connection_id,
            r@.connection_id,
        ) && is_text(r.title, r@.title) && is_text(r.url, r@.url),
{
}

/// A device, and what is shown of it, stand for all that they hold.
pub proof fn law_device_values(d: DeviceRuntime, i: DeviceInfo, s: DevicePortState, k: int)
    ensures
        d@.port == d.port && d@.device_id == d.device_id@ && is_text(d.device_name, d@.device_name)
            && d@.device_os_version == d.device_os_version && d@.connected == d.connected
            && d@.is_sim == d.wi_codec.is_sim && d@.partials_supported
            == d.wi_codec.partials_supported && d@.connection_id == d.rpc_sender.connection_id@
            && d@.app_ids == d.app_ids@ && d@.table.max == d.max_page_num && d@.ws_clients
            == d.ws_clients@ && d@.table.pages.len() == d.pages@.len(),
        0 <= k < d.pages@.len() ==> d@.table.pages[k] == d.pages@[k]@,
        d.current_app matches Some(a) ==> d@.current_app == Some(a@),
        d.current_app is None ==> d@.current_app is None,
        i@.device_id == i.device_id@ && i@.device_name == i.device_name@ && i@.device_os_version
            == i.device_os_version && i@.port == i.port,
        s@.port == s.port && is_text(s.device_id, s@.device_id) && is_text(
            s.device_name,
            s@.device_name,
        ) && s@.device_os_version == s.device_os_version && s@.connected == s.connected && is_text(
            s.frontend,
            s@.frontend,
        ) && s@.pages.len() == s.pages@.len(),
        0 <= k < s.pages@.len() ==> s@.pages[k] == s.pages@[k]@,
{
}

/// Applications, events, rules and what is told of pages stand for all that they hold.
pub proof fn law_other_values(
    a: RpcApp,
    e: DeviceEvent,
    r: PortConfigEntry,
    p: DebuggablePageInfo,
    n: Known,
)
    ensures
        a@.app_id == a.app_id@ && a@.app_name == a.app_name@ && a@.is_proxy == a.is_proxy,
        e is Attached <==> e@ is Attached,
        is_text(r.device_id, r@.device_id) && r@.min_port == r.min_port && r@.max_port
            == r.max_port,
        p@.device_id == p.device_id@ && p@.page_num == p.page_num && p@.page_type == p.page_type
            && p@.name == p.name@ && p@.web_socket_debugger_url == p.web_socket_debugger_url@
            && p@.device_os_version == p.device_os_version,
        n@.device_id == n.device_id@ && n@.device_name == n.device_name@ && n@.device_os_version
            == n.device_os_version && n@.ssl_enabled == n.ssl_enabled,
        match e {
            DeviceEvent::Attached { device_id, device_num } => e@->Attached_device_id == device_id@
                && e@->Attached_device_num == device_num,
            DeviceEvent::Detached { device_id, device_num } => e@->Detached_device_id == device_id@
                && e@->Detached_device_num == device_num,
        },
{
}

/// An answer, and what is done on a connection, stand for all that they hold.
pub proof fn law_answer_values(r: HttpResponse, a: WsAction, k: int)
    ensures
        r@.status == r.status && r@.html == r.html && r@.body == r.body@ && r@.headers.len()
            == r.headers@.len(),
        0 <= k < r.headers@.len() ==> r@.headers[k] == (r.headers@[k].0@, r.headers@[k].1@),
        match a {
            WsAction::ToProxy(m) => a@ == (WsActionView::ToProxy {
                page_num: m.page_num,
                ws_id: m.ws_id@,
                data: m.data@,
                is_close: m.is_close,
            }),
            WsAction::Pong(data) => a@ == WsActionView::Pong(data@),
            WsAction::Text(t) => a@ == WsActionView::Text(t@),
            WsAction::Close => a@ == WsActionView::Close,
        },
{
}

/// A property list stands for all that it holds, entry by entry.
pub proof fn law_property_list_values(v: PlistValue, d: Seq<(String, PlistValue)>, k: int)
    ensures
        v matches PlistValue::Text(s) ==> v@ == PlistView::Text(s@),
        v matches PlistValue::Data(b) ==> v@ == PlistView::Data(b@),
        v matches PlistValue::Unsigned(n) ==> v@ == PlistView::Unsigned(n),
        v matches PlistValue::Boolean(b) ==> v@ == PlistView::Boolean(b),
        v matches PlistValue::Dictionary(e) ==> v@ == PlistView::Dictionary(
            property_list::entries_view(e@),
        ),
        property_list::entries_view(d).len() == d.len(),
        0 <= k < d.len() ==> property_list::entries_view(d)[k] == (d[k].0@, d[k].1@),
{
}

/// A list stands for its items, in order.
pub proof fn law_list_values(
    infos: Seq<PageInfo>,
    entries: Seq<PageEntry>,
    pages: Seq<RpcPage>,
    apps: Seq<RpcApp>,
    devices: Seq<DeviceRuntime>,
    actions: Seq<Action>,
    shown: Seq<DeviceInfo>,
    told: Seq<DebuggablePageInfo>,
    k: int,
)
    ensures
        proxy::page_infos(infos).len() == infos.len(),
        0 <= k < infos.len() ==> proxy::page_infos(infos)[k] == infos[k]@,
        http_server::entries_view(entries).len() == entries.len(),
        0 <= k < entries.len() ==> http_server::entries_view(entries)[k] == entries[k]@,
        rpc::pages_view(pages).len() == pages.len(),
        0 <= k < pages.len() ==> rpc::pages_view(pages)[k] == pages[k]@,
        rpc::apps_view(apps).len() == apps.len(),
        0 <= k < apps.len() ==> rpc::apps_view(apps)[k] == apps[k]@,
        proxy::devices_view(devices).len() == devices.len(),
        0 <= k < devices.len() ==> proxy::devices_view(devices)[k] == devices[k]@,
        proxy::actions_view(actions).len() == actions.len(),
        0 <= k < actions.len() ==> proxy::actions_view(actions)[k] == actions[k]@,
        crate::infos_view(shown).len() == shown.len(),
        0 <= k < shown.len() ==> crate::infos_view(shown)[k] == shown[k]@,
        proxy::debuggables_view(told).len() == told.len(),
        0 <= k < told.len() ==> proxy::debuggables_view(told)[k] == told[k]@,
{
}

/// Lists of bytes, of names with values and of events stand for their items, in order.
pub proof fn law_plain_list_values(
    bytes: Seq<Vec<u8>>,
    pairs: Seq<(String, String)>,
    objects: Seq<Vec<(String, String)>>,
    events: Seq<DeviceEvent>,
    ids: Map<u64, String>,
    n: u64,
    k: int,
)
    ensures
        webinspector::bytes_view(bytes).len() == bytes.len(),
        0 <= k < bytes.len() ==> webinspector::bytes_view(bytes)[k] == bytes[k]@,
        idevice_ext::bytes_view(bytes).len() == bytes.len(),
        0 <= k < bytes.len() ==> idevice_ext::bytes_view(bytes)[k] == bytes[k]@,
        http_server::pairs_view(pairs).len() == pairs.len(),
        0 <= k < pairs.len() ==> http_server::pairs_view(pairs)[k] == (pairs[k].0@, pairs[k].1@),
        http_server::objects_view(objects).len() == objects.len(),
        0 <= k < objects.len() ==> http_server::objects_view(objects)[k] == http_server::pairs_view(
            objects[k]@,
        ),
        device_listener::events_view(events).len() == events.len(),
        0 <= k < events.len() ==> device_listener::events_view(events)[k] == events[k]@,
        device_listener::ids_view(ids).contains_key(n) <==> ids.contains_key(n),
        ids.contains_key(n) ==> device_listener::ids_view(ids)[n] == ids[n]@,
{
}

/// Something to be done stands for all that it holds.
pub proof fn law_action_values(a: Action, n: Notice)
    ensures
        match a {
            Action::Send { device_id, packets } => a@ == (ActionView::Send {
                device_id: device_id@,
                packets: webinspector::bytes_view(packets@),
            }),
            Action::ToClient { device_id, ws_id, data } => a@ == (ActionView::ToClient {
                device_id: device_id@,
                ws_id: ws_id@,
                data: data@,
            }),
            Action::KeepClient { device_id, ws_id } => a@ == (ActionView::KeepClient {
                device_id: device_id@,
                ws_id: ws_id@,
            }),
            Action::DropClient { device_id, ws_id } => a@ == (ActionView::DropClient {
                device_id: device_id@,
                ws_id: ws_id@,
            }),
            Action::MarkConnected { device_id } => a@ == (ActionView::MarkConnected {
                device_id: device_id@,
            }),
            Action::SharePages { device_id, pages } => a@ == (ActionView::SharePages {
                device_id: device_id@,
                pages: http_server::entries_view(pages@),
            }),
            Action::ShareDevices { devices } => a@ == (ActionView::ShareDevices {
                devices: crate::infos_view(devices@),
            }),
            Action::Serve { state, all_endpoints } => a@ == (ActionView::Serve {
                state: state@,
                all_endpoints,
            }),
            Action::Release { device_id } => a@ == (ActionView::Release { device_id: device_id@ }),
            Action::Notify(n) => a@ == ActionView::Notify(n@),
        },
        match n {
            Notice::Connected(info) => n@ == NoticeView::Connected(info@),
            Notice::Disconnected(info) => n@ == NoticeView::Disconnected(info@),
            Notice::PagesChanged(info, pages) => n@ == NoticeView::PagesChanged(
                info@,
                proxy::debuggables_view(pages@),
            ),
        },
{
}

/// A message from WebInspector stands for all that it holds.
pub proof fn law_message_values(m: RpcMessage)
    ensures
        match m {
            RpcMessage::ReportSetup => m@ == MessageView::ReportSetup,
            RpcMessage::ReportConnectedApplicationList(apps) => m@
                == MessageView::ReportConnectedApplicationList(rpc::apps_view(apps@)),
            RpcMessage::ApplicationConnected(app) => m@ == MessageView::ApplicationConnected(app@),
            RpcMessage::ApplicationDisconnected(app) => m@ == MessageView::ApplicationDisconnected(
                app@,
            ),
            RpcMessage::ApplicationSentListing { app_id, pages } => m@ == (
            MessageView::ApplicationSentListing {
                app_id: app_id@,
                pages: rpc::pages_view(pages@),
            }),
            RpcMessage::ApplicationSentData { app_id, dest_id, data } => m@ == (
            MessageView::ApplicationSentData { app_id: app_id@, dest_id: dest_id@, data: data@ }),
            RpcMessage::ApplicationUpdated { app_id, dest_id } => m@ == (
            MessageView::ApplicationUpdated { app_id: app_id@, dest_id: dest_id@ }),
            RpcMessage::Unknown(selector) => m@ == MessageView::Unknown(selector@),
        },
{
}

/// A turn of the dialogue that shows a device as reached holds its connection and all that is known
/// of it; one that shows a call goes on to it, and one that shows a failure says why.
pub proof fn law_turn_values(t: Turn, v: TurnView)
    ensures
        t.shows(v) ==> (v is Go <==> t is Go) && (v is Reached <==> t is Reached) && (v is Failed
            <==> t is Failed),
        t.shows(v) ==> (v matches TurnView::Go { call: c, .. } ==> t->call == c),
        t.shows(v) ==> (v matches TurnView::Reached { fd: f, known: k, .. } ==> {
            let c = t->connection;
            &&& c.fd == f
            &&& c.device_id@ == k.device_id
            &&& c.device_name@ == k.device_name
            &&& c.device_os_version == k.device_os_version
            &&& c.ssl_enabled == k.ssl_enabled
        }),
        t.shows(v) ==> (v matches TurnView::Failed { words, .. } ==> t->error is DeviceConnection
            && t->error.detail() == words),
{
}

/// An error that says something is of that kind, and its message is what it says.
pub proof fn law_error_says(e: Error, m: Seq<char>)
    ensures
        e.says(Failure::Plist(m)) ==> e is Plist && e.detail() == m,
        e.says(Failure::Rpc(m)) ==> e is Rpc && e.detail() == m,
        e.says(Failure::WebInspector(m)) ==> e is WebInspector && e.detail() == m,
        e.says(Failure::DeviceConnection(m)) ==> e is DeviceConnection && e.detail() == m,
        e.says(Failure::Tls(m)) ==> e is Tls && e.detail() == m,
        e.says(Failure::Usbmuxd(m)) ==> e is Usbmuxd && e.detail() == m,
        e.says(Failure::PortBind(m)) ==> e is PortBind && e.detail() == m,
        e.says(Failure::TaskJoin(m)) ==> e is TaskJoin && e.detail() == m,
        e.says(Failure::PlistThen(m)) ==> e is Plist && e.detail().len() >= m.len()
            && e.detail().take(m.len() as int) == m,
        e.says(Failure::TlsThen(m)) ==> e is Tls && e.detail().len() >= m.len() && e.detail().take(
            m.len() as int,
        ) == m,
{
    if e.says(Failure::PlistThen(m)) || e.says(Failure::TlsThen(m)) {
        assert(e.detail().take(m.len() as int) =~= m);
    }
}

/// The kind of an error is told first.
pub proof fn law_error_heading(e: Error)
    ensures
        e is Io ==> e.heading() == "I/O error: "@,
        e is Plist ==> e.heading() == "plist error: "@,
        e is Rpc ==> e.heading() == "RPC error: "@,
        e is WebInspector ==> e.heading() == "WebInspector error: "@,
        e is DeviceConnection ==> e.heading() == "device connection error: "@,
        e is Tls ==> e.heading() == "TLS error: "@,
        e is Usbmuxd ==> e.heading() == "usbmuxd error: "@,
        e is PortBind ==> e.heading() == "port error: "@,
        e is ChannelClosed ==> e.heading() + e.detail() == "internal channel closed"@,
        e is TaskJoin ==> e.heading() == "async task error: "@,
        e matches Error::Rpc(m) ==> e.detail() == m@,
        e matches Error::Plist(m) ==> e.detail() == m@,
        e matches Error::WebInspector(m) ==> e.detail() == m@,
        e matches Error::DeviceConnection(m) ==> e.detail() == m@,
        e matches Error::Tls(m) ==> e.detail() == m@,
        e matches Error::Usbmuxd(m) ==> e.detail() == m@,
        e matches Error::PortBind(m) ==> e.detail() == m@,
        e matches Error::TaskJoin(m) ==> e.detail() == m@,
{
    if e is ChannelClosed {
        assert(e.heading() + e.detail() =~= e.heading());
    }
}

} // verus!
