use ios_webkit_debug_proxy::error::Error;

#[test]
fn errors_in_words() {
    let cases = vec![
        (Error::Plist("m".to_string()), "plist error: m"),
        (Error::Rpc("m".to_string()), "RPC error: m"),
        (Error::WebInspector("m".to_string()), "WebInspector error: m"),
        (Error::DeviceConnection("m".to_string()), "device connection error: m"),
        (Error::Tls("m".to_string()), "TLS error: m"),
        (Error::Usbmuxd("m".to_string()), "usbmuxd error: m"),
        (Error::PortBind("m".to_string()), "port error: m"),
        (Error::ChannelClosed, "internal channel closed"),
        (Error::TaskJoin("m".to_string()), "async task error: m"),
    ];
    for (e, words) in cases {
        assert_eq!(e.to_string(), words);
        assert!(e.source().is_none());
    }
}

#[test]
fn io_error() {
    let e = Error::from(std::io::Error::new(std::io::ErrorKind::Other, "gone"));
    assert_eq!(e.to_string(), "I/O error: gone");
    assert!(e.source().is_some());
}

#[test]
fn plist_error() {
    let cause = plist::from_bytes::<plist::Value>(b"<plist>").unwrap_err();
    let words = cause.to_string();
    match Error::from(cause) {
        Error::Plist(m) => assert_eq!(m, words),
        other => panic!("{:?}", other),
    }
}

#[test]
fn join_error() {
    let runtime = tokio::runtime::Builder::new_current_thread().build().unwrap();
    let cause = runtime.block_on(async {
        let task = tokio::spawn(std::future::pending::<()>());
        task.abort();
        task.await.unwrap_err()
    });
    let words = cause.to_string();
    match Error::from(cause) {
        Error::TaskJoin(m) => assert_eq!(m, words),
        other => panic!("{:?}", other),
    }
}
