use ios_webkit_debug_proxy::error::Error;
use ios_webkit_debug_proxy::property_list::PlistValue;
use ios_webkit_debug_proxy::rpc::{
    new_uuid, parse_rpc_message, plist_from_bin, plist_to_bin, upper_uuid, RpcMessage, RpcSender,
};
use ios_webkit_debug_proxy::PageType;

fn text(s: &str) -> PlistValue {
    PlistValue::Text(s.to_string())
}

fn dict(entries: Vec<(&str, PlistValue)>) -> PlistValue {
    PlistValue::Dictionary(entries.into_iter().map(|(k, v)| (k.to_string(), v)).collect())
}

fn message(selector: &str, args: Vec<(&str, PlistValue)>) -> PlistValue {
    dict(vec![("__selector", text(selector)), ("__argument", dict(args))])
}

fn rpc_error(value: &PlistValue) -> String {
    match parse_rpc_message(value) {
        Err(Error::Rpc(m)) => m,
        other => panic!("{:?}", other),
    }
}

fn read(bytes: &[u8]) -> plist::Dictionary {
    plist::from_bytes::<plist::Value>(bytes).unwrap().into_dictionary().unwrap()
}

#[test]
fn setup_and_unknown() {
    assert!(matches!(
        parse_rpc_message(&message("_rpc_reportSetup:", vec![])),
        Ok(RpcMessage::ReportSetup)
    ));
    match parse_rpc_message(&message("_rpc_what:", vec![])) {
        Ok(RpcMessage::Unknown(s)) => assert_eq!(s, "_rpc_what:"),
        other => panic!("{:?}", other),
    }
}

#[test]
fn malformed_messages() {
    assert_eq!(rpc_error(&text("x")), "RPC message is not a dictionary");
    assert_eq!(rpc_error(&dict(vec![])), "Missing __selector");
    assert_eq!(
        rpc_error(&dict(vec![("__selector", PlistValue::Boolean(true))])),
        "Missing __selector"
    );
    assert_eq!(rpc_error(&dict(vec![("__selector", text("x"))])), "Missing __argument");
    assert_eq!(
        rpc_error(&message("_rpc_applicationConnected:", vec![])),
        "Missing required string field: WIRApplicationIdentifierKey"
    );
    assert_eq!(
        rpc_error(&message("_rpc_reportConnectedApplicationList:", vec![])),
        "Missing WIRApplicationDictionaryKey"
    );
    assert_eq!(
        rpc_error(&message(
            "_rpc_applicationSentListing:",
            vec![("WIRApplicationIdentifierKey", text("a")), ("WIRListingKey", text("x"))],
        )),
        "WIRListingKey is not a dictionary"
    );
    assert_eq!(
        rpc_error(&message(
            "_rpc_applicationSentListing:",
            vec![
                ("WIRApplicationIdentifierKey", text("a")),
                ("WIRListingKey", dict(vec![("1", dict(vec![]))])),
            ],
        )),
        "Missing WIRPageIdentifierKey"
    );
    assert_eq!(
        rpc_error(&message(
            "_rpc_applicationSentData:",
            vec![("WIRApplicationIdentifierKey", text("a")), ("WIRDestinationKey", text("d"))],
        )),
        "Missing required data field: WIRMessageDataKey"
    );
}

#[test]
fn applications() {
    let app = |id: &str| {
        dict(vec![
            ("WIRApplicationIdentifierKey", text(id)),
            ("WIRApplicationNameKey", text("Safari")),
            ("WIRIsApplicationProxyKey", PlistValue::Boolean(true)),
        ])
    };
    let list = dict(vec![("a", app("A")), ("b", text("no")), ("c", dict(vec![])), ("d", app("D"))]);
    match parse_rpc_message(&message(
        "_rpc_reportConnectedApplicationList:",
        vec![("WIRApplicationDictionaryKey", list)],
    )) {
        Ok(RpcMessage::ReportConnectedApplicationList(apps)) => {
            assert_eq!(apps.len(), 2);
            assert_eq!(apps[0].app_id, "A");
            assert_eq!(apps[1].app_id, "D");
            assert_eq!(apps[0].app_name, "Safari");
            assert!(apps[0].is_proxy);
        }
        other => panic!("{:?}", other),
    }
    match parse_rpc_message(&message(
        "_rpc_applicationDisconnected:",
        vec![("WIRApplicationIdentifierKey", text("A"))],
    )) {
        Ok(RpcMessage::ApplicationDisconnected(app)) => {
            assert_eq!(app.app_id, "A");
            assert_eq!(app.app_name, "");
            assert!(!app.is_proxy);
        }
        other => panic!("{:?}", other),
    }
}

#[test]
fn updates() {
    match parse_rpc_message(&message(
        "_rpc_applicationUpdated:",
        vec![
            ("WIRHostApplicationIdentifierKey", text("host")),
            ("WIRApplicationIdentifierKey", text("app")),
        ],
    )) {
        Ok(RpcMessage::ApplicationUpdated { app_id, dest_id }) => {
            assert_eq!((app_id.as_str(), dest_id.as_str()), ("host", "app"));
        }
        other => panic!("{:?}", other),
    }
    match parse_rpc_message(&message(
        "_rpc_applicationUpdated:",
        vec![("WIRApplicationNameKey", text("n")), ("WIRApplicationIdentifierKey", text("app"))],
    )) {
        Ok(RpcMessage::ApplicationUpdated { app_id, .. }) => assert_eq!(app_id, "n"),
        other => panic!("{:?}", other),
    }
}

#[test]
fn listing() {
    let page = dict(vec![
        ("WIRPageIdentifierKey", PlistValue::Unsigned(0x1_0000_0007)),
        ("WIRTypeKey", text("WIRTypeWebPage")),
        ("WIRTitleKey", text("T")),
        ("WIRURLKey", text("U")),
        ("WIRConnectionIdentifierKey", text("C")),
    ]);
    let script = dict(vec![
        ("WIRPageIdentifierKey", PlistValue::Unsigned(2)),
        ("WIRTypeKey", text("WIRTypeJavaScript")),
    ]);
    let other = dict(vec![("WIRPageIdentifierKey", PlistValue::Unsigned(3))]);
    match parse_rpc_message(&message(
        "_rpc_applicationSentListing:",
        vec![
            ("WIRApplicationIdentifierKey", text("a")),
            ("WIRListingKey", dict(vec![("1", page), ("2", script), ("3", other), ("4", text("x"))])),
        ],
    )) {
        Ok(RpcMessage::ApplicationSentListing { app_id, pages }) => {
            assert_eq!(app_id, "a");
            assert_eq!(pages.len(), 3);
            assert_eq!(pages[0].page_id, 7);
            assert_eq!(pages[0].page_type, PageType::WebPage);
            assert_eq!(pages[0].title, Some("T".to_string()));
            assert_eq!(pages[0].url, Some("U".to_string()));
            assert_eq!(pages[0].connection_id, Some("C".to_string()));
            assert_eq!(pages[1].page_type, PageType::JavaScript);
            assert_eq!(pages[2].page_type, PageType::Unknown);
            assert_eq!(pages[2].title, None);
        }
        other => panic!("{:?}", other),
    }
    match parse_rpc_message(&message(
        "_rpc_applicationSentListing:",
        vec![("WIRApplicationIdentifierKey", text("a"))],
    )) {
        Ok(RpcMessage::ApplicationSentListing { pages, .. }) => assert_eq!(pages.len(), 0),
        other => panic!("{:?}", other),
    }
}

#[test]
fn data() {
    match parse_rpc_message(&message(
        "_rpc_applicationSentData:",
        vec![
            ("WIRApplicationIdentifierKey", text("a")),
            ("WIRDestinationKey", text("d")),
            ("WIRMessageDataKey", PlistValue::Data(vec![1, 2])),
        ],
    )) {
        Ok(RpcMessage::ApplicationSentData { app_id, dest_id, data }) => {
            assert_eq!((app_id.as_str(), dest_id.as_str()), ("a", "d"));
            assert_eq!(data, vec![1, 2]);
        }
        other => panic!("{:?}", other),
    }
}

#[test]
fn sent_messages() {
    let sender = RpcSender::new("CONN".to_string());
    let check = |bytes: Vec<u8>, selector: &str, expected: Vec<(&str, plist::Value)>| {
        let message = read(&bytes);
        assert_eq!(message.get("__selector").unwrap().as_string(), Some(selector));
        let args = message.get("__argument").unwrap().as_dictionary().unwrap();
        assert_eq!(args.len(), expected.len() + 1);
        assert_eq!(args.get("WIRConnectionIdentifierKey").unwrap().as_string(), Some("CONN"));
        for (key, value) in expected {
            assert_eq!(args.get(key), Some(&value));
        }
    };
    let app = || ("WIRApplicationIdentifierKey", plist::Value::String("app".to_string()));
    let page = || ("WIRPageIdentifierKey", plist::Value::Integer(7.into()));
    let from = || ("WIRSenderKey", plist::Value::String("ws".to_string()));
    check(sender.build_report_identifier(), "_rpc_reportIdentifier:", vec![]);
    check(sender.build_get_connected_applications(), "_rpc_getConnectedApplications:", vec![]);
    check(sender.build_forward_get_listing("app"), "_rpc_forwardGetListing:", vec![app()]);
    check(
        sender.build_forward_indicate_web_view("app", 7, true),
        "_rpc_forwardIndicateWebView:",
        vec![app(), page(), ("WIRIndicateEnabledKey", plist::Value::Boolean(true))],
    );
    check(
        sender.build_forward_socket_setup("app", 7, "ws"),
        "_rpc_forwardSocketSetup:",
        vec![app(), page(), from(), ("WIRAutomaticallyPause", plist::Value::Boolean(false))],
    );
    check(
        sender.build_forward_socket_data("app", 7, "ws", &[9, 8]),
        "_rpc_forwardSocketData:",
        vec![app(), page(), from(), ("WIRSocketDataKey", plist::Value::Data(vec![9, 8]))],
    );
    check(
        sender.build_forward_did_close("app", 7, "ws"),
        "_rpc_forwardDidClose:",
        vec![app(), page(), from()],
    );
}

#[test]
fn what_is_written_is_read_back() {
    let value = dict(vec![
        ("text", text("\u{e9}\u{1f600}")),
        ("data", PlistValue::Data(vec![0; 1000])),
        ("flag", PlistValue::Boolean(false)),
        ("number", PlistValue::Unsigned(u64::MAX)),
        ("inner", dict(vec![("x", text("")), ("y", PlistValue::Unsigned(0))])),
    ]);
    let back = plist_from_bin(&plist_to_bin(&value)).unwrap();
    assert_eq!(format!("{:?}", back), format!("{:?}", value));
}

#[test]
fn other_values_are_carried() {
    let bytes = b"<plist version=\"1.0\"><dict><key>a</key><array><string>x</string></array><key>n</key><integer>-1</integer></dict></plist>";
    let value = plist_from_bin(bytes).unwrap();
    let entries = value.as_dictionary().unwrap();
    assert_eq!(entries.len(), 2);
    assert!(matches!(entries[0].1, PlistValue::Other(_)));
    assert!(entries[1].1.as_unsigned_integer().is_none());
    let again = read(&plist_to_bin(&value));
    assert_eq!(again.get("a").unwrap().as_array().unwrap().len(), 1);
    assert_eq!(again.get("n").unwrap().as_signed_integer(), Some(-1));
}

#[test]
fn bytes_that_are_no_property_list() {
    match plist_from_bin(b"<plist>") {
        Err(Error::Plist(m)) => {
            let cause = plist::from_bytes::<plist::Value>(b"<plist>").unwrap_err();
            assert_eq!(m, format!("plist deserialization failed: {}", cause));
        }
        other => panic!("{:?}", other),
    }
}

#[test]
fn identifiers() {
    let a = new_uuid();
    let b = new_uuid();
    assert_ne!(a, b);
    for id in [a, b] {
        let parsed = uuid::Uuid::parse_str(&id).unwrap();
        assert_eq!(parsed.get_version_num(), 4);
        assert_eq!(id, parsed.to_string().to_uppercase());
    }
    assert_eq!(
        upper_uuid("67e55044-10b1-426f-9247-bb680e5fe0c8"),
        "67E55044-10B1-426F-9247-BB680E5FE0C8"
    );
}
