use ios_webkit_debug_proxy::device_listener::DeviceListenerParser;
use ios_webkit_debug_proxy::error::Error;
use ios_webkit_debug_proxy::idevice_ext::try_tls_identity;
use ios_webkit_debug_proxy::plist_dates::check_dates;
use ios_webkit_debug_proxy::property_list::PlistValue;
use ios_webkit_debug_proxy::rpc::{plist_to_bin, try_plist_from_bin};
use ios_webkit_debug_proxy::webinspector::{WebInspectorCodec, WiEvent, WiReader};
use std::time::{Duration, UNIX_EPOCH};

/// A date so many seconds before 2001.
fn before_2001(seconds: u64) -> plist::Value {
    let start = UNIX_EPOCH + Duration::from_secs(978_307_200);
    plist::Value::Date((start - Duration::from_secs(seconds)).into())
}

fn binary(value: &plist::Value) -> Vec<u8> {
    let mut bytes = Vec::new();
    value.to_writer_binary(&mut bytes).unwrap();
    bytes
}

fn nested(value: plist::Value) -> plist::Value {
    let mut inner = plist::Dictionary::new();
    inner.insert("when".to_string(), value);
    plist::Value::Array(vec![
        plist::Value::String("x".to_string()),
        plist::Value::Dictionary(inner),
    ])
}

/// A binary property list that is one date, by its bits.
fn one_date(bits: u64) -> Vec<u8> {
    let mut bytes = b"bplist00\x33".to_vec();
    bytes.extend_from_slice(&bits.to_be_bytes());
    bytes.push(8);
    bytes.extend_from_slice(&[0, 0, 0, 0, 0, 0, 1, 1]);
    bytes.extend_from_slice(&1u64.to_be_bytes());
    bytes.extend_from_slice(&0u64.to_be_bytes());
    bytes.extend_from_slice(&17u64.to_be_bytes());
    bytes
}

fn xml(inner: &str) -> Vec<u8> {
    format!("<?xml version=\"1.0\"?><plist version=\"1.0\">{}</plist>", inner).into_bytes()
}

fn xml_date(date: &str) -> Vec<u8> {
    xml(&format!("<date>{}</date>", date))
}

fn reads(bytes: &[u8]) {
    assert!(check_dates(bytes));
    assert!(try_plist_from_bin(bytes).unwrap().is_ok());
}

fn fails(bytes: &[u8]) {
    assert!(check_dates(bytes));
    match try_plist_from_bin(bytes).unwrap() {
        Err(Error::Plist(m)) => assert!(m.starts_with("plist deserialization failed: ")),
        other => panic!("{:?}", other),
    }
}

fn left_alone(bytes: &[u8]) {
    assert!(!check_dates(bytes));
    assert!(try_plist_from_bin(bytes).is_none());
}

#[test]
fn binary_dates() {
    for seconds in [0, 1, 63_145_526_399, 63_145_526_400] {
        reads(&binary(&before_2001(seconds)));
        reads(&binary(&nested(before_2001(seconds))));
    }
    for seconds in [63_145_526_401, 100_000_000_000, 378_683_424_000] {
        left_alone(&binary(&before_2001(seconds)));
        left_alone(&binary(&nested(before_2001(seconds))));
    }
    fails(&binary(&before_2001(378_683_424_001)));
    fails(&binary(&nested(before_2001(378_683_424_001))));
}

#[test]
fn binary_dates_by_their_bits() {
    reads(&one_date(0f64.to_bits()));
    reads(&one_date((-63_145_526_400f64).to_bits()));
    left_alone(&one_date((-63_145_526_400f64).to_bits() + 1));
    left_alone(&one_date((-1e11f64).to_bits()));
    left_alone(&one_date((-378_683_424_000f64).to_bits()));
    fails(&one_date((-378_683_424_000f64).to_bits() + 1));
    reads(&one_date(252_423_993_599f64.to_bits()));
    for number in [252_423_993_600f64, 1e12, -1e12, f64::NAN, f64::INFINITY, f64::NEG_INFINITY] {
        fails(&one_date(number.to_bits()));
    }
}

#[test]
fn binary_tables_of_every_size() {
    for size in [100, 1_000, 70_000] {
        let mut entries = plist::Dictionary::new();
        entries.insert("data".to_string(), plist::Value::Data(vec![0x33; size]));
        entries.insert("when".to_string(), before_2001(1));
        reads(&binary(&plist::Value::Dictionary(entries.clone())));
        entries.insert("then".to_string(), before_2001(100_000_000_000));
        left_alone(&binary(&plist::Value::Dictionary(entries)));
    }
}

#[test]
fn bytes_that_look_like_a_date() {
    let mut entries = plist::Dictionary::new();
    let bytes = one_date((-1e11f64).to_bits());
    entries.insert("data".to_string(), plist::Value::Data(bytes.clone()));
    entries.insert("text".to_string(), plist::Value::String("3\u{c232}\u{5200}".to_string()));
    reads(&binary(&plist::Value::Dictionary(entries)));
    for cut in 8..bytes.len() {
        fails(&bytes[..cut]);
    }
    for at in [bytes.len() - 26, bytes.len() - 24, bytes.len() - 8] {
        let mut broken = bytes.clone();
        broken[at] = 7;
        fails(&broken);
    }
}

#[test]
fn dates_in_xml() {
    for date in [
        "2024-02-29T12:00:00Z",
        "2024-02-29T12:00:00+01:00",
        "0000-01-01T00:00:00Z",
        "0000-01-02T00:00:00+23:59",
        "9999-12-31T23:59:59Z",
        "9999-12-31T23:59:60z",
        "9999-12-30T23:59:59-23:59",
    ] {
        reads(&xml_date(date));
        reads(&xml(&format!("<dict><key>a</key><x:date a='>' >{}</x:date></dict>", date)));
    }
    for date in ["0000-01-01T00:00:00+01:00", "9999-12-31T23:59:59-01:00"] {
        left_alone(&xml_date(date));
        left_alone(&xml(&format!("<array><x:date>{}</x:date></array>", date)));
        left_alone(&xml(&format!("<date a='>' \n>{}</date>", date)));
        left_alone(&xml(&format!("<a'>':date>{}</a'>':date>", date)));
        left_alone(&xml_date(&format!("<!-- -->{}", date)));
        left_alone(&xml_date(&date.replace("01", "&#48;1")));
        left_alone(&xml_date(&date.replace("-", "-<?x?>")));
        left_alone(format!("<date>{}</date>", date).as_bytes());
    }
    for date in ["", " 9999-12-31T23:59:59-01:00", "9999-12-32", "yesterday"] {
        fails(&xml_date(date));
    }
    fails(&xml("<date/>"));
    fails(b"<?xml version=\"1.0\"?><plist><date>9999-12-31T23:59:59-01:00");
    fails(b"<?xml version=\"1.0\"?><plist><date a='>9999-12-31T23:59:59-01:00</date>");
}

#[test]
fn text_that_mentions_dates() {
    reads(&xml("<string>due:date &amp; 9999-12-31T23:59:59-01:00</string>"));
    reads(&xml("<string>9999-12-31T23:59:59-01:00</string>"));
    reads(&xml("<key>date</key><!-- <date> -->"));
    reads(b"{ date = \"9999-12-31T23:59:59-01:00\"; }");
    reads(b"<plist><date>9999-12-31T23:59:59-01:00");
}

#[test]
fn devices_with_such_dates_are_left_alone() {
    let mut parser = DeviceListenerParser::new();
    for (date, fits) in [("2024-02-29T12:00:00Z", true), ("9999-12-31T23:59:59-01:00", false)] {
        let body = xml(&format!("<dict><key>a</key><date>{}</date></dict>", date));
        let mut packet = Vec::new();
        for number in [16 + body.len() as u32, 1, 8, 1] {
            packet.extend_from_slice(&number.to_le_bytes());
        }
        packet.extend_from_slice(&body);
        assert_eq!(parser.recv(&packet).is_some(), fits);
        assert_eq!(parser.buffer.len(), 0);
    }
}

#[test]
fn pair_records_with_such_dates_are_left_alone() {
    let mut entries = plist::Dictionary::new();
    entries.insert("when".to_string(), before_2001(1));
    match try_tls_identity(&binary(&plist::Value::Dictionary(entries.clone()))) {
        Some(Err(e)) => assert_eq!(e.to_string(), "TLS error: Missing RootCertificate"),
        _ => panic!("an identity"),
    }
    entries.insert("then".to_string(), before_2001(100_000_000_000));
    assert!(try_tls_identity(&binary(&plist::Value::Dictionary(entries))).is_none());
}

fn header(n: usize) -> [u8; 4] {
    (n as u32).to_be_bytes()
}

#[test]
fn messages_with_such_dates_are_left_alone() {
    let mut reader = WiReader::new(true, false);
    let bytes = binary(&nested(before_2001(100_000_000_000)));
    assert!(reader.try_feed(&header(bytes.len())).unwrap().unwrap().is_none());
    assert!(reader.try_feed(&bytes).is_none());
    assert_eq!(reader.wanted(), bytes.len());
    let bytes = binary(&nested(before_2001(1)));
    assert!(matches!(reader.try_feed(&bytes), Some(Ok(Some(WiEvent::RecvPlist(_))))));
    assert_eq!(reader.wanted(), 4);
}

#[test]
fn pieces_that_make_such_dates_are_left_alone() {
    let piece = |key: &str, bytes: &[u8]| {
        plist_to_bin(&PlistValue::Dictionary(vec![(
            key.to_string(),
            PlistValue::Data(bytes.to_vec()),
        )]))
    };
    for (seconds, fits) in [(1, true), (100_000_000_000, false)] {
        let bytes = binary(&before_2001(seconds));
        let mut codec = WebInspectorCodec::new(false, true);
        let first = piece("WIRPartialMessageKey", &bytes[..20]);
        assert!(codec.can_decode(&first));
        assert!(codec.decode_body(&first).unwrap().is_none());
        let last = piece("WIRFinalMessageKey", &bytes[20..]);
        assert!(check_dates(&last));
        assert_eq!(codec.can_decode(&last), fits);

        let mut reader = WiReader::new(false, true);
        for body in [&first, &last] {
            assert!(reader.try_feed(&header(body.len())).unwrap().unwrap().is_none());
            let fed = reader.try_feed(body);
            if body == &first {
                assert!(matches!(fed, Some(Ok(None))));
            } else if fits {
                assert!(matches!(fed, Some(Ok(Some(WiEvent::RecvPlist(_))))));
                assert!(reader.codec.partial_buffer.is_empty());
            } else {
                assert!(fed.is_none());
                assert_eq!(reader.codec.partial_buffer, &bytes[..20]);
                assert_eq!(reader.wanted(), last.len());
            }
        }
    }
}

#[test]
fn messages_of_the_library_hold_no_dates() {
    for size in [0, 100, 10_000, 100_000] {
        let value = PlistValue::Dictionary(vec![
            ("3".to_string(), PlistValue::Text("3\u{c232}".to_string())),
            ("data".to_string(), PlistValue::Data(vec![0x33; size])),
            ("number".to_string(), PlistValue::Unsigned(u64::MAX)),
        ]);
        reads(&plist_to_bin(&value));
    }
}
