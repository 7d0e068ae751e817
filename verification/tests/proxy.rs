use ios_webkit_debug_proxy::http_server::{DevicePortState, PageEntry, WsToWiMessage};
use ios_webkit_debug_proxy::property_list::PlistValue;
use ios_webkit_debug_proxy::proxy::{
    assigned_port, bind_address, list_bind_failure, reader_for, sim_address, wi_event_fits, Action,
    DeviceRuntime, Inspector, InspectorTarget, Next, Notice, PortPlan, ProxyEvent, SimAddress,
};
use ios_webkit_debug_proxy::webinspector::{WiEvent, WiReader};
use ios_webkit_debug_proxy::{
    DebuggablePageInfo, DeviceInfo, DeviceListener, HttpServiceConfig, PageType, ProxyBridge,
};
use std::sync::Arc;

struct Quiet;

impl DeviceListener for Quiet {
    fn device_connected(&self, _device_info: DeviceInfo) {}
    fn device_disconnected(&self, _device_info: DeviceInfo) {}
    fn device_page_list_changed(&self, _device_info: DeviceInfo, _pages: Vec<DebuggablePageInfo>) {}
}

fn bridge(listened: bool) -> ProxyBridge {
    let listener: Option<Arc<dyn DeviceListener>> = if listened { Some(Arc::new(Quiet)) } else { None };
    ProxyBridge::new(
        Some(9222..9224),
        Some(HttpServiceConfig { device_list_port: 9221, frontend: Some("http://f/i.html".to_string()) }),
        None,
        listener,
    )
}

fn phone() -> Inspector {
    Inspector::Device { device_name: "Phone".to_string(), device_os_version: 0x0e0501 }
}

fn one_device(bridge: &ProxyBridge) -> Vec<DeviceRuntime> {
    let mut devices = Vec::new();
    bridge.open_device("d", 9222, phone(), "CONN".to_string(), &mut devices);
    devices
}

fn text(s: &str) -> PlistValue {
    PlistValue::Text(s.to_string())
}

fn dict(entries: Vec<(&str, PlistValue)>) -> PlistValue {
    PlistValue::Dictionary(entries.into_iter().map(|(k, v)| (k.to_string(), v)).collect())
}

fn message(selector: &str, args: Vec<(&str, PlistValue)>) -> WiEvent {
    WiEvent::RecvPlist(dict(vec![("__selector", text(selector)), ("__argument", dict(args))]))
}

fn app(id: &str) -> Vec<(&'static str, PlistValue)> {
    vec![("WIRApplicationIdentifierKey", text(id))]
}

fn listing(app_id: &str, pages: Vec<(u64, &str)>) -> WiEvent {
    let pages = pages
        .into_iter()
        .map(|(id, title)| {
            let page = dict(vec![
                ("WIRPageIdentifierKey", PlistValue::Unsigned(id)),
                ("WIRTitleKey", text(title)),
                ("WIRTypeKey", text("WIRTypeWebPage")),
            ]);
            (format!("{} {}", id, title), page)
        })
        .collect();
    message(
        "_rpc_applicationSentListing:",
        vec![
            ("WIRApplicationIdentifierKey", text(app_id)),
            ("WIRListingKey", PlistValue::Dictionary(pages)),
        ],
    )
}

fn wi(bridge: &ProxyBridge, devices: &mut Vec<DeviceRuntime>, event: WiEvent) -> Vec<Action> {
    assert!(wi_event_fits("d", &event, devices));
    match bridge.handle_event(ProxyEvent::Wi { device_id: "d".to_string(), event }, devices) {
        Next::Go(actions) => actions,
        _ => panic!("not to go on"),
    }
}

fn ws(
    bridge: &ProxyBridge,
    devices: &mut Vec<DeviceRuntime>,
    ws_id: &str,
    page_num: u32,
    data: &[u8],
    is_close: bool,
) -> Vec<Action> {
    let msg = WsToWiMessage { page_num, ws_id: ws_id.to_string(), data: data.to_vec(), is_close };
    match bridge.handle_event(ProxyEvent::WsMessage { device_id: "d".to_string(), msg }, devices) {
        Next::Go(actions) => actions,
        _ => panic!("not to go on"),
    }
}

/// What a device would hear of an action that sends to it: the selector and the arguments.
fn sent(action: &Action) -> (String, PlistValue) {
    let packets = match action {
        Action::Send { device_id, packets } => {
            assert_eq!(device_id, "d");
            packets
        }
        _ => panic!("nothing is sent"),
    };
    let mut reader = WiReader::new(false, false);
    for packet in packets {
        reader.feed(&packet[..4]).unwrap();
        if packet.len() > 4 {
            if let Some(WiEvent::RecvPlist(PlistValue::Dictionary(mut entries))) =
                reader.feed(&packet[4..]).unwrap()
            {
                let args = entries.pop().unwrap().1;
                let selector = entries.pop().unwrap().1;
                return (selector.as_string().unwrap().clone(), args);
            }
        }
    }
    panic!("nothing is heard")
}

fn argument(action: &Action, key: &str) -> String {
    let (_, args) = sent(action);
    let entries = args.as_dictionary().unwrap();
    let value = &entries.iter().find(|(k, _)| k == key).unwrap().1;
    match value {
        PlistValue::Text(s) => s.clone(),
        PlistValue::Unsigned(n) => format!("{}", n),
        PlistValue::Data(d) => format!("{:?}", d),
        other => panic!("{:?}", other),
    }
}

fn shared(actions: &[Action]) -> Vec<(u32, String, Option<String>)> {
    match &actions[0] {
        Action::SharePages { device_id, pages } => {
            assert_eq!(device_id, "d");
            pages.iter().map(|p: &PageEntry| (p.page_num, p.app_id.clone(), p.title.clone())).collect()
        }
        _ => panic!("no pages are shared"),
    }
}

fn page(num: u32, app: &str, title: &str) -> (u32, String, Option<String>) {
    (num, app.to_string(), Some(title.to_string()))
}

fn listed(action: &Action) -> Vec<String> {
    match action {
        Action::ShareDevices { devices } => devices.iter().map(|d| d.device_id.clone()).collect(),
        _ => panic!("no devices are shared"),
    }
}

#[test]
fn new_bridge() {
    let b = ProxyBridge::new(None, None, None, None);
    assert_eq!(b.sim_wi_socket_addr, "127.0.0.1:27753");
    assert!(b.device_listener.is_none());
    assert_eq!(b.list_port(), None);
    let b = ProxyBridge::new(
        Some(1..2),
        Some(HttpServiceConfig { device_list_port: 0, frontend: None }),
        Some("unix:/s"),
        Some(Arc::new(Quiet)),
    );
    assert_eq!(b.sim_wi_socket_addr, "unix:/s");
    assert_eq!(b.device_ports, Some(1..2));
    assert_eq!(b.list_port(), None);
    assert_eq!(bridge(false).list_port(), Some(9221));
}

#[test]
fn ports_are_given_in_order() {
    let b = bridge(false);
    let mut devices = Vec::new();
    assert!(matches!(b.plan_port("d", &devices), PortPlan::Bind(9222)));
    b.open_device("d", 9222, phone(), "C".to_string(), &mut devices);
    assert!(matches!(b.plan_port("d", &devices), PortPlan::AlreadyConnected));
    assert!(matches!(b.plan_port("e", &devices), PortPlan::Bind(9223)));
    b.open_device("e", 9223, phone(), "C".to_string(), &mut devices);
    assert!(matches!(b.plan_port("f", &devices), PortPlan::NoPort));
    b.disconnect_device("d", &mut devices);
    assert!(matches!(b.plan_port("f", &devices), PortPlan::Bind(9222)));
    let any = ProxyBridge::new(None, None, None, None);
    assert!(matches!(any.plan_port("f", &devices), PortPlan::BindAny));
    assert!(matches!(any.plan_port("e", &devices), PortPlan::AlreadyConnected));
}

#[test]
fn addresses() {
    assert_eq!(bind_address(9222), "0.0.0.0:9222");
    assert_eq!(bind_address(0), "0.0.0.0:0");
    assert_eq!(assigned_port(Some(5)), Some(5));
    assert_eq!(assigned_port(Some(0)), None);
    assert_eq!(assigned_port(None), None);
    assert_eq!(
        list_bind_failure(9221, "in use").to_string(),
        "port error: Failed to bind device list port 9221: in use"
    );
    assert!(matches!(sim_address("unix:/a/b"), SimAddress::Unix(p) if p == "/a/b"));
    assert!(matches!(sim_address("localhost:27753"), SimAddress::Tcp(a) if a == "localhost:27753"));
    let b = ProxyBridge::new(None, None, Some("unix:/s"), None);
    assert!(matches!(
        b.inspector_target("SIMULATOR"),
        InspectorTarget::Simulator(SimAddress::Unix(p)) if p == "/s"
    ));
    assert!(matches!(b.inspector_target("d"), InspectorTarget::Device));
}

#[test]
fn device_is_taken_in() {
    let b = bridge(true);
    let mut devices = Vec::new();
    let actions = b.open_device("d", 9222, phone(), "CONN".to_string(), &mut devices);
    assert_eq!(actions.len(), 3);
    match &actions[0] {
        Action::Serve { state, all_endpoints } => {
            let state: &DevicePortState = state;
            assert!(all_endpoints);
            assert_eq!(state.port, 9222);
            assert_eq!(state.device_id, Some("d".to_string()));
            assert_eq!(state.device_name, Some("Phone".to_string()));
            assert_eq!(state.device_os_version, 0x0e0501);
            assert!(!state.connected);
            assert_eq!(state.frontend, Some("http://f/i.html".to_string()));
        }
        _ => panic!("nothing is served"),
    }
    assert_eq!(sent(&actions[1]).0, "_rpc_reportIdentifier:");
    assert_eq!(argument(&actions[1], "WIRConnectionIdentifierKey"), "CONN");
    assert!(listed(&actions[2]).is_empty());
    assert_eq!(devices.len(), 1);
    assert!(b.open_device("d", 1, phone(), "C".to_string(), &mut devices).is_empty());
    assert_eq!(devices[0].port, 9222);
    let more = b.connect_device("e", 9223, phone(), &mut devices);
    assert_eq!(more.len(), 3);
    assert_eq!(devices[1].rpc_sender.connection_id.len(), 36);
    let bare = ProxyBridge::new(None, None, None, None);
    let actions = bare.open_device("SIMULATOR", 1, Inspector::Simulator, "C".to_string(), &mut devices);
    assert!(matches!(&actions[0], Action::Serve { all_endpoints: false, state } if state.frontend.is_none()));
    assert_eq!(devices[2].device_name, Some("SIMULATOR".to_string()));
    assert!(devices[2].wi_codec.is_sim && !devices[2].wi_codec.partials_supported);
}

#[test]
fn old_devices_take_pieces() {
    let b = bridge(false);
    for (device_os_version, pieces) in [(0x0a_ffff, true), (0x0b_0000, false), (0, true)] {
        let mut devices = Vec::new();
        let inspector = Inspector::Device { device_name: String::new(), device_os_version };
        b.open_device("d", 1, inspector, "C".to_string(), &mut devices);
        assert_eq!(devices[0].wi_codec.partials_supported, pieces);
        assert!(!devices[0].wi_codec.is_sim);
    }
}

#[test]
fn device_answers() {
    let b = bridge(true);
    let mut devices = one_device(&b);
    let actions = wi(&b, &mut devices, message("_rpc_reportSetup:", vec![]));
    assert_eq!(actions.len(), 3);
    assert!(matches!(&actions[0], Action::MarkConnected { device_id } if device_id == "d"));
    assert_eq!(listed(&actions[1]), vec!["d"]);
    match &actions[2] {
        Action::Notify(Notice::Connected(info)) => {
            assert_eq!(info.device_id, "d");
            assert_eq!(info.device_name, "Phone");
            assert_eq!(info.port, 9222);
        }
        _ => panic!("no notice"),
    }
    assert!(devices[0].connected);
    let nobody = bridge(false);
    assert_eq!(wi(&nobody, &mut devices, message("_rpc_reportSetup:", vec![])).len(), 2);
    match nobody.handle_event(
        ProxyEvent::Wi { device_id: "x".to_string(), event: message("_rpc_reportSetup:", vec![]) },
        &mut devices,
    ) {
        Next::Go(actions) => {
            assert_eq!(actions.len(), 1);
            assert_eq!(listed(&actions[0]), vec!["d"]);
        }
        _ => panic!("not to go on"),
    }
}

#[test]
fn applications_are_asked_once() {
    let b = bridge(false);
    let mut devices = one_device(&b);
    let list = |ids: Vec<&str>| {
        let apps = ids.iter().map(|id| (id.to_string(), dict(app(id)))).collect();
        message(
            "_rpc_reportConnectedApplicationList:",
            vec![("WIRApplicationDictionaryKey", PlistValue::Dictionary(apps))],
        )
    };
    let actions = wi(&b, &mut devices, list(vec!["A", "B"]));
    assert_eq!(actions.len(), 4);
    assert!(matches!(&actions[0], Action::MarkConnected { .. }));
    assert_eq!(listed(&actions[1]), vec!["d"]);
    for (action, id) in actions[2..].iter().zip(["A", "B"]) {
        assert_eq!(sent(action).0, "_rpc_forwardGetListing:");
        assert_eq!(argument(action, "WIRApplicationIdentifierKey"), id);
    }
    assert_eq!(devices[0].current_app.as_ref().unwrap().app_id, "B");
    assert!(wi(&b, &mut devices, list(vec!["B", "A"])).is_empty());
    assert_eq!(devices[0].current_app.as_ref().unwrap().app_id, "A");
    assert!(wi(&b, &mut devices, message("_rpc_applicationConnected:", app("A"))).is_empty());
    let actions = wi(&b, &mut devices, message("_rpc_applicationConnected:", app("C")));
    assert_eq!(argument(&actions[0], "WIRApplicationIdentifierKey"), "C");
    assert_eq!(devices[0].current_app.as_ref().unwrap().app_id, "C");
    let mut args = app("D");
    args.push(("WIRHostApplicationIdentifierKey", text("H")));
    let actions = wi(&b, &mut devices, message("_rpc_applicationUpdated:", args));
    assert_eq!(argument(&actions[0], "WIRApplicationIdentifierKey"), "D");
    assert_eq!(devices[0].current_app.as_ref().unwrap().app_id, "C");
    wi(&b, &mut devices, message("_rpc_applicationDisconnected:", app("A")));
    assert_eq!(wi(&b, &mut devices, message("_rpc_applicationConnected:", app("A"))).len(), 1);
}

#[test]
fn pages_are_listed() {
    let b = bridge(true);
    let mut devices = one_device(&b);
    let actions = wi(&b, &mut devices, listing("A", vec![(10, "a"), (11, "b")]));
    assert_eq!(shared(&actions), vec![page(1, "A", "a"), page(2, "A", "b")]);
    match &actions[1] {
        Action::Notify(Notice::PagesChanged(info, pages)) => {
            assert_eq!(info.device_id, "d");
            assert_eq!(pages.len(), 2);
            assert_eq!(pages[1].page_num, 2);
            assert_eq!(pages[1].name, "b");
            assert_eq!(pages[1].page_type, PageType::WebPage);
            assert_eq!(pages[1].web_socket_debugger_url, "ws://localhost:9222/devtools/page/2");
            assert_eq!(pages[1].device_os_version, 0x0e0501);
        }
        _ => panic!("no notice"),
    }
    let actions = wi(&b, &mut devices, listing("B", vec![(10, "x")]));
    assert_eq!(shared(&actions), vec![page(1, "A", "a"), page(2, "A", "b"), page(3, "B", "x")]);
    // One page changes, one goes, one comes: numbers are kept, and none is given again.
    let actions = wi(&b, &mut devices, listing("A", vec![(12, "c"), (11, "b2"), (12, "c2")]));
    assert_eq!(shared(&actions), vec![page(2, "A", "b2"), page(3, "B", "x"), page(4, "A", "c2")]);
    let actions = wi(&b, &mut devices, listing("A", vec![]));
    assert_eq!(shared(&actions), vec![page(3, "B", "x")]);
    let actions = wi(&b, &mut devices, listing("A", vec![(10, "a")]));
    assert_eq!(shared(&actions), vec![page(3, "B", "x"), page(5, "A", "a")]);
    let actions = wi(&b, &mut devices, message("_rpc_applicationDisconnected:", app("A")));
    assert_eq!(shared(&actions), vec![page(3, "B", "x")]);
    assert_eq!(actions.len(), 2);
    assert_eq!(devices[0].max_page_num, 5);
}

#[test]
fn page_numbers_run_out() {
    let b = bridge(false);
    let mut devices = one_device(&b);
    wi(&b, &mut devices, listing("A", vec![(1, "a")]));
    devices[0].max_page_num = u32::MAX - 1;
    assert!(wi_event_fits("d", &listing("A", vec![(1, "a"), (2, "b")]), &devices));
    assert!(wi_event_fits("d", &listing("A", vec![(1, "a"), (2, "b"), (2, "c")]), &devices));
    assert!(!wi_event_fits("d", &listing("A", vec![(2, "b"), (3, "c")]), &devices));
    assert!(!wi_event_fits("d", &listing("B", vec![(1, "a"), (2, "b")]), &devices));
    assert!(wi_event_fits("x", &listing("B", vec![(1, "a"), (2, "b")]), &devices));
    assert!(wi_event_fits("d", &message("_rpc_reportSetup:", vec![]), &devices));
    let actions = wi(&b, &mut devices, listing("A", vec![(1, "a"), (2, "b"), (2, "c")]));
    assert_eq!(shared(&actions), vec![page(1, "A", "a"), page(u32::MAX, "A", "c")]);
}

#[test]
fn pages_are_debugged() {
    let b = bridge(false);
    let mut devices = one_device(&b);
    wi(&b, &mut devices, listing("A", vec![(10, "a")]));
    assert!(ws(&b, &mut devices, "w1", 9, &[], false).is_empty());
    assert!(ws(&b, &mut devices, "w1", 9, &[1], false).is_empty());
    // Before a session is open, data goes out in the name of the client that sends it.
    let actions = ws(&b, &mut devices, "w0", 1, &[1], false);
    assert_eq!(argument(&actions[0], "WIRSenderKey"), "w0");
    let actions = ws(&b, &mut devices, "w1", 1, &[], false);
    assert_eq!(actions.len(), 1);
    assert_eq!(sent(&actions[0]).0, "_rpc_forwardSocketSetup:");
    assert_eq!(argument(&actions[0], "WIRSenderKey"), "w1");
    assert_eq!(argument(&actions[0], "WIRPageIdentifierKey"), "10");
    assert_eq!(argument(&actions[0], "WIRApplicationIdentifierKey"), "A");
    let actions = ws(&b, &mut devices, "w1", 1, &[1, 2], false);
    assert_eq!(sent(&actions[0]).0, "_rpc_forwardSocketData:");
    assert_eq!(argument(&actions[0], "WIRSenderKey"), "w1");
    assert_eq!(argument(&actions[0], "WIRSocketDataKey"), "[1, 2]");
    // The same client again: the session is set up again, and nothing is closed.
    assert_eq!(ws(&b, &mut devices, "w1", 1, &[], false).len(), 1);
    // Another client: the first session is closed first.
    let actions = ws(&b, &mut devices, "w2", 1, &[], false);
    assert_eq!(actions.len(), 2);
    assert_eq!(sent(&actions[0]).0, "_rpc_forwardDidClose:");
    assert_eq!(argument(&actions[0], "WIRSenderKey"), "w1");
    assert_eq!(sent(&actions[1]).0, "_rpc_forwardSocketSetup:");
    assert_eq!(argument(&actions[1], "WIRSenderKey"), "w2");
    let actions = ws(&b, &mut devices, "w1", 1, &[3], false);
    assert_eq!(argument(&actions[0], "WIRSenderKey"), "w2");
    let actions = ws(&b, &mut devices, "w2", 1, &[9], true);
    assert_eq!(actions.len(), 2);
    assert_eq!(sent(&actions[0]).0, "_rpc_forwardDidClose:");
    assert!(matches!(&actions[1], Action::DropClient { device_id, ws_id } if device_id == "d" && ws_id == "w2"));
    assert_eq!(devices[0].pages[0].ws_client_id, None);
    assert_eq!(ws(&b, &mut devices, "w2", 1, &[], true).len(), 1);
}

#[test]
fn clients_get_their_data() {
    let b = bridge(false);
    let mut devices = one_device(&b);
    let data = |dest: &str| {
        message(
            "_rpc_applicationSentData:",
            vec![
                ("WIRApplicationIdentifierKey", text("A")),
                ("WIRDestinationKey", text(dest)),
                ("WIRMessageDataKey", PlistValue::Data(vec![5, 6])),
            ],
        )
    };
    assert!(wi(&b, &mut devices, data("w1")).is_empty());
    let registration = |id: &str| ProxyEvent::WsRegistration {
        device_id: id.to_string(),
        ws_id: "w1".to_string(),
        page_num: 1,
    };
    match b.handle_event(registration("d"), &mut devices) {
        Next::Go(actions) => {
            assert!(matches!(&actions[0], Action::KeepClient { ws_id, .. } if ws_id == "w1"))
        }
        _ => panic!("not to go on"),
    }
    assert!(matches!(b.handle_event(registration("x"), &mut devices), Next::Go(a) if a.is_empty()));
    match &wi(&b, &mut devices, data("w1"))[0] {
        Action::ToClient { device_id, ws_id, data } => {
            assert_eq!((device_id.as_str(), ws_id.as_str()), ("d", "w1"));
            assert_eq!(data, &vec![5, 6]);
        }
        _ => panic!("nothing for the client"),
    }
    assert!(wi(&b, &mut devices, data("w2")).is_empty());
    ws(&b, &mut devices, "w1", 1, &[], true);
    assert!(wi(&b, &mut devices, data("w1")).is_empty());
}

#[test]
fn devices_go() {
    let b = bridge(true);
    let mut devices = one_device(&b);
    b.open_device("e", 9223, phone(), "C".to_string(), &mut devices);
    wi(&b, &mut devices, message("_rpc_reportSetup:", vec![]));
    let gone = |id: &str, devices: &mut Vec<DeviceRuntime>| {
        match b.handle_event(ProxyEvent::Detached { device_id: id.to_string() }, devices) {
            Next::Go(actions) => actions,
            _ => panic!("not to go on"),
        }
    };
    let actions = gone("x", &mut devices);
    assert_eq!(actions.len(), 1);
    assert_eq!(listed(&actions[0]), vec!["d"]);
    let actions = gone("e", &mut devices);
    assert_eq!(actions.len(), 2);
    assert!(matches!(&actions[0], Action::Release { device_id } if device_id == "e"));
    let actions = gone("d", &mut devices);
    assert_eq!(actions.len(), 3);
    assert!(matches!(&actions[0], Action::Notify(Notice::Disconnected(info)) if info.device_id == "d"));
    assert!(matches!(&actions[1], Action::Release { device_id } if device_id == "d"));
    assert!(listed(&actions[2]).is_empty());
    assert!(devices.is_empty());
}

#[test]
fn proxy_stops() {
    for event in [ProxyEvent::Cancelled, ProxyEvent::ListenerClosed] {
        let b = bridge(false);
        let mut devices = one_device(&b);
        b.open_device("e", 9223, phone(), "C".to_string(), &mut devices);
        match b.handle_event(event, &mut devices) {
            Next::Stop(actions) => {
                assert_eq!(actions.len(), 4);
                assert!(matches!(&actions[0], Action::Release { device_id } if device_id == "d"));
                assert!(matches!(&actions[2], Action::Release { device_id } if device_id == "e"));
            }
            _ => panic!("not to stop"),
        }
        assert!(devices.is_empty());
    }
}

#[test]
fn device_that_comes_is_connected() {
    let b = bridge(false);
    let mut devices = Vec::new();
    let event = ProxyEvent::Attached { device_id: "d".to_string() };
    assert!(matches!(b.handle_event(event, &mut devices), Next::Connect { device_id } if device_id == "d"));
}

#[test]
fn messages_that_do_nothing() {
    let b = bridge(true);
    let mut devices = one_device(&b);
    assert!(wi(&b, &mut devices, WiEvent::RecvPlist(text("x"))).is_empty());
    assert!(wi(&b, &mut devices, message("_rpc_what:", vec![])).is_empty());
    assert!(wi(&b, &mut devices, message("_rpc_applicationConnected:", vec![])).is_empty());
    assert!(!devices[0].connected);
}

#[test]
fn readers_go_with_the_devices() {
    let bridge = bridge(false);
    for (inspector, is_sim, pieces) in [
        (Inspector::Simulator, true, false),
        (Inspector::Device { device_name: "a".to_string(), device_os_version: 0x0a_ffff }, false, true),
        (Inspector::Device { device_name: "b".to_string(), device_os_version: 0x0b_0000 }, false, false),
    ] {
        let reader = reader_for(&inspector);
        assert_eq!((reader.codec.is_sim, reader.codec.partials_supported), (is_sim, pieces));
        assert!(reader.codec.partial_buffer.is_empty());
        assert_eq!(reader.wanted(), 4);
        let mut devices = Vec::new();
        bridge.open_device("d", 9222, inspector, "C".to_string(), &mut devices);
        let codec = &devices[0].wi_codec;
        assert_eq!((codec.is_sim, codec.partials_supported), (is_sim, pieces));
    }
}
