use ios_webkit_debug_proxy::error::Error;
use ios_webkit_debug_proxy::idevice_ext::{
    build_tls_identity, check_record, connect_failure, key_name, lockdownd_error_string,
    make_identity, pack_version, Call, ConnectStage, Dialogue, Held, Key, KeyKind, PrivateKey,
    Reply, Turn,
};
use ios_webkit_debug_proxy::property_list::PlistValue;
use ios_webkit_debug_proxy::rpc::plist_to_bin;

#[test]
fn versions() {
    assert_eq!(pack_version("14.5.1"), Some(0x0e0501));
    assert_eq!(pack_version("14.5"), Some(0x0e0500));
    assert_eq!(pack_version("14.5.1.2"), Some(0x0e0501));
    assert_eq!(pack_version("14.x.5"), Some(0x0e0500));
    assert_eq!(pack_version("256.257.258"), Some(0x000102));
    assert_eq!(pack_version("14"), None);
    assert_eq!(pack_version(""), None);
    assert_eq!(pack_version("a.b"), None);
    assert_eq!(pack_version("+1.2"), Some(0x010200));
}

#[test]
fn lockdownd_codes() {
    assert_eq!(
        lockdownd_error_string(-17),
        "Please enter the passcode on the device and try again"
    );
    assert_eq!(
        lockdownd_error_string(-18),
        "Please accept the trust dialog on the device screen and try again"
    );
    assert_eq!(
        lockdownd_error_string(-19),
        "User denied the trust dialog, please re-plug the device and try again"
    );
    for code in [-6, -15] {
        assert_eq!(
            lockdownd_error_string(code),
            "Device is not paired with this host, please re-plug the device and try again"
        );
    }
    assert_eq!(lockdownd_error_string(-5), "Cannot connect to lockdownd, error code: -5");
    assert_eq!(lockdownd_error_string(3), "Cannot connect to lockdownd, error code: 3");
}

fn goes(turn: Turn, expected: Call) -> Vec<Held> {
    match turn {
        Turn::Go { release, call } => {
            assert_eq!(call, expected);
            release
        }
        _ => panic!("the dialogue is over"),
    }
}

fn fails(turn: Turn) -> (Vec<Held>, String) {
    match turn {
        Turn::Failed { release, error: Error::DeviceConnection(m) } => (release, m),
        _ => panic!("the dialogue has not failed"),
    }
}

fn up_to_service() -> Dialogue {
    let mut d = Dialogue::new();
    assert_eq!(d.call, Call::Open);
    assert!(goes(d.advance(Reply::Opened(0)), Call::Handshake).is_empty());
    assert!(goes(d.advance(Reply::Shaken(0)), Call::GetValue(Key::UniqueDeviceId)).is_empty());
    let value = |s: &str| Reply::Value(Some(s.to_string()));
    assert!(goes(d.advance(value("ID")), Call::GetValue(Key::DeviceName)).is_empty());
    assert!(goes(d.advance(value("Phone")), Call::GetValue(Key::ProductVersion)).is_empty());
    assert!(goes(d.advance(value("14.5.1")), Call::StartService).is_empty());
    d
}

#[test]
fn device_is_reached() {
    for (ssl, ssl_enabled) in [(0u8, false), (1, true), (2, false)] {
        let mut d = up_to_service();
        let started = Reply::Started { code: 0, service: Some((1234, ssl)) };
        assert!(goes(d.advance(started), Call::Connect(1234)).is_empty());
        assert_eq!(goes(d.advance(Reply::Connected(0)), Call::GetFd), vec![Held::Client]);
        match d.advance(Reply::Located { code: 0, fd: 9 }) {
            Turn::Reached { release, connection } => {
                assert_eq!(release, vec![Held::Connection, Held::Device]);
                assert_eq!(connection.fd, 9);
                assert_eq!(connection.device_id, "ID");
                assert_eq!(connection.device_name, "Phone");
                assert_eq!(connection.device_os_version, 0x0e0501);
                assert_eq!(connection.ssl_enabled, ssl_enabled);
            }
            _ => panic!("the device was not reached"),
        }
    }
}

#[test]
fn values_may_be_missing() {
    let mut d = Dialogue::new();
    d.advance(Reply::Opened(0));
    d.advance(Reply::Shaken(0));
    d.advance(Reply::Value(None));
    d.advance(Reply::Value(None));
    goes(d.advance(Reply::Value(Some("14".to_string()))), Call::StartService);
    assert_eq!(d.known.device_id, "");
    assert_eq!(d.known.device_name, "");
    assert_eq!(d.known.device_os_version, 0);
}

#[test]
fn dialogue_fails() {
    assert_eq!(
        fails(Dialogue::new().advance(Reply::Opened(-1))),
        (vec![], "Device not found, please make sure it is connected".to_string())
    );
    let mut d = Dialogue::new();
    d.advance(Reply::Opened(0));
    assert_eq!(
        fails(d.advance(Reply::Shaken(-3))),
        (vec![Held::Device], "Cannot connect to lockdownd, error code: -3".to_string())
    );
    for (code, service) in [(-5, Some((1, 0))), (0, None), (0, Some((0, 0)))] {
        assert_eq!(
            fails(up_to_service().advance(Reply::Started { code, service })),
            (
                vec![Held::Client, Held::Device],
                format!("Cannot start com.apple.webinspector service, error code: {}", code)
            )
        );
    }
    let mut d = up_to_service();
    d.advance(Reply::Started { code: 0, service: Some((1, 0)) });
    assert_eq!(
        fails(d.advance(Reply::Connected(1))),
        (vec![Held::Client, Held::Device], "idevice_connect failed".to_string())
    );
    let mut d = up_to_service();
    d.advance(Reply::Started { code: 0, service: Some((1, 0)) });
    d.advance(Reply::Connected(0));
    assert_eq!(
        fails(d.advance(Reply::Located { code: 1, fd: -1 })),
        (vec![Held::Device], "Cannot get connection file descriptor".to_string())
    );
}

#[test]
fn names_of_values() {
    assert_eq!(key_name(Key::UniqueDeviceId), "UniqueDeviceID");
    assert_eq!(key_name(Key::DeviceName), "DeviceName");
    assert_eq!(key_name(Key::ProductVersion), "ProductVersion");
}

fn pem(label: &str, body: &str) -> Vec<u8> {
    format!("-----BEGIN {}-----\n{}\n-----END {}-----\n", label, body, label).into_bytes()
}

fn record(cert: &[u8], key: &[u8]) -> Vec<u8> {
    plist_to_bin(&PlistValue::Dictionary(vec![
        ("RootCertificate".to_string(), PlistValue::Data(cert.to_vec())),
        ("RootPrivateKey".to_string(), PlistValue::Data(key.to_vec())),
    ]))
}

fn refused(record: &[u8]) -> String {
    match build_tls_identity(record) {
        Err(e) => e.to_string(),
        Ok(_) => panic!("an identity"),
    }
}

#[test]
fn identities() {
    let mut certs = pem("CERTIFICATE", "AQID");
    certs.extend_from_slice(&pem("OTHER", "AAAA"));
    certs.extend_from_slice(&pem("CERTIFICATE", "BAU="));
    let kinds = [
        ("RSA PRIVATE KEY", KeyKind::Pkcs1),
        ("EC PRIVATE KEY", KeyKind::Sec1),
        ("PRIVATE KEY", KeyKind::Pkcs8),
    ];
    for (label, kind) in kinds {
        let identity = build_tls_identity(&record(&certs, &pem(label, "BwgJ"))).unwrap();
        assert_eq!(identity.certs, vec![vec![1, 2, 3], vec![4, 5]]);
        assert_eq!(identity.key.kind, kind);
        assert_eq!(identity.key.der, vec![7, 8, 9]);
    }
}

#[test]
fn records_that_make_no_identity() {
    let cert = pem("CERTIFICATE", "AQID");
    let key = pem("PRIVATE KEY", "BwgJ");
    assert!(refused(b"<plist>").starts_with("plist error: Pair record parsing failed: "));
    assert_eq!(
        refused(&plist_to_bin(&PlistValue::Boolean(true))),
        "plist error: Pair record is not a dictionary"
    );
    assert_eq!(
        refused(&plist_to_bin(&PlistValue::Dictionary(vec![]))),
        "TLS error: Missing RootCertificate"
    );
    assert_eq!(
        refused(&plist_to_bin(&PlistValue::Dictionary(vec![(
            "RootCertificate".to_string(),
            PlistValue::Data(cert.clone())
        )]))),
        "TLS error: Missing RootPrivateKey"
    );
    assert_eq!(refused(&record(b"", &key)), "TLS error: No valid certificate found");
    assert_eq!(refused(&record(&cert, b"")), "TLS error: No valid private key found");
    let broken = b"-----BEGIN CERTIFICATE-----\nAQID\n";
    let cause = rustls_pemfile::private_key(&mut std::io::Cursor::new(broken)).unwrap_err();
    assert_eq!(
        refused(&record(broken, &key)),
        format!("TLS error: Certificate parsing failed: {}", cause)
    );
    assert_eq!(
        refused(&record(&cert, broken)),
        format!("TLS error: Private key parsing failed: {}", cause)
    );
    assert!(make_identity(vec![], None).is_err());
    let key = PrivateKey { kind: KeyKind::Sec1, der: vec![1] };
    assert_eq!(make_identity(vec![vec![2]], Some(key)).unwrap().key.der, vec![1]);
}

#[test]
fn records_that_cannot_be_had() {
    assert!(check_record(0, 1).is_ok());
    assert!(check_record(1, 1).is_ok());
    assert_eq!(check_record(-1, 1).unwrap_err().to_string(), "TLS error: Cannot read pair record");
    assert_eq!(check_record(0, 0).unwrap_err().to_string(), "TLS error: Pair record is empty");
}

#[test]
fn failures_on_the_way() {
    let cases = vec![
        (ConnectStage::FfiTask, "async task error: FFI task failed: r"),
        (ConnectStage::NonBlocking, "device connection error: Failed to set non-blocking: r"),
        (
            ConnectStage::Stream,
            "device connection error: Failed to convert to tokio TcpStream: r",
        ),
        (ConnectStage::TlsTask, "async task error: TLS config task failed: r"),
        (ConnectStage::ServerName, "TLS error: ServerName creation failed: r"),
        (ConnectStage::TlsConfig, "TLS error: rustls configuration failed: r"),
        (ConnectStage::TlsHandshake, "TLS error: TLS handshake failed: r"),
    ];
    for (stage, words) in cases {
        assert_eq!(connect_failure(stage, "r").to_string(), words);
    }
}
