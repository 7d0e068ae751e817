use ios_webkit_debug_proxy::error::Error;
use ios_webkit_debug_proxy::property_list::PlistValue;
use ios_webkit_debug_proxy::rpc::{plist_to_bin, RpcSender};
use ios_webkit_debug_proxy::webinspector::{
    io_failure, WebInspectorCodec, WiEvent, WiReader, WiStage, MAX_BODY_LENGTH, MAX_RPC_LEN,
};

fn message(size: usize) -> PlistValue {
    PlistValue::Dictionary(vec![("data".to_string(), PlistValue::Data(vec![7; size]))])
}

/// Reads a stream to its end.
fn hear(is_sim: bool, partials: bool, stream: &[u8]) -> Result<Vec<PlistValue>, Error> {
    let mut reader = WiReader::new(is_sim, partials);
    let mut heard = Vec::new();
    let mut pos = 0;
    while stream.len() - pos >= reader.wanted() {
        let end = pos + reader.wanted();
        if let Some(WiEvent::RecvPlist(value)) = reader.try_feed(&stream[pos..end]).unwrap()? {
            heard.push(value);
        }
        pos = end;
        if pos == stream.len() {
            break;
        }
    }
    Ok(heard)
}

#[test]
fn messages_are_heard_as_sent() {
    for (is_sim, partials) in [(true, false), (false, false), (false, true)] {
        let codec = WebInspectorCodec::new(is_sim, partials);
        let mut stream = Vec::new();
        let mut sent = Vec::new();
        for size in [0, 1, 7000, 8000, 30000] {
            let value = message(size);
            for packet in codec.encode_plist(&plist_to_bin(&value)) {
                stream.extend_from_slice(&packet);
            }
            sent.push(value);
        }
        let heard = hear(is_sim, partials, &stream).unwrap();
        assert_eq!(format!("{:?}", heard), format!("{:?}", sent));
    }
}

#[test]
fn packets() {
    assert_eq!(WebInspectorCodec::build_packet(&[5, 6]), vec![0, 0, 0, 2, 5, 6]);
    assert_eq!(WebInspectorCodec::build_packet(&[]), vec![0, 0, 0, 0]);
    let long = vec![0u8; 0x10203];
    assert_eq!(&WebInspectorCodec::build_packet(&long)[..4], &[0, 1, 2, 3]);
    let bytes = vec![1, 2, 3];
    assert_eq!(
        WebInspectorCodec::new(true, false).encode_plist(&bytes),
        vec![vec![0, 0, 0, 3, 1, 2, 3]]
    );
    assert_eq!(
        WebInspectorCodec::new(false, false).encode_plist(&bytes),
        vec![vec![0, 0, 0, 3, 1, 2, 3], vec![0, 0, 0, 0]]
    );
}

#[test]
fn pieces() {
    let codec = WebInspectorCodec::new(false, true);
    let keys = |size: usize| -> Vec<String> {
        codec
            .encode_plist(&vec![1; size])
            .iter()
            .map(|packet| {
                let value = plist::from_bytes::<plist::Value>(&packet[4..]).unwrap();
                let dict = value.into_dictionary().unwrap();
                assert_eq!(dict.len(), 1);
                dict.keys().next().unwrap().to_string()
            })
            .collect()
    };
    let (partial, last) = ("WIRPartialMessageKey".to_string(), "WIRFinalMessageKey".to_string());
    assert_eq!(MAX_RPC_LEN, 7596);
    assert_eq!(keys(0), vec![last.clone()]);
    assert_eq!(keys(MAX_RPC_LEN), vec![last.clone()]);
    assert_eq!(keys(MAX_RPC_LEN + 1), vec![partial.clone(), last.clone()]);
    assert_eq!(keys(2 * MAX_RPC_LEN), vec![partial.clone(), last.clone()]);
    assert_eq!(keys(2 * MAX_RPC_LEN + 1), vec![partial.clone(), partial, last]);
}

#[test]
fn lengths() {
    assert_eq!(WebInspectorCodec::parse_length(&[0, 1, 2, 3]).unwrap(), 0x10203);
    assert_eq!(MAX_BODY_LENGTH, 1 << 26);
    assert_eq!(WebInspectorCodec::parse_length(&[4, 0, 0, 0]).unwrap(), MAX_BODY_LENGTH);
    match WebInspectorCodec::parse_length(&[4, 0, 0, 1]) {
        Err(Error::WebInspector(m)) => {
            assert_eq!(m, "Invalid packet header: length 67108865 exceeds maximum")
        }
        other => panic!("{:?}", other),
    }
    match WebInspectorCodec::parse_length(&[1, 2, 3]) {
        Err(Error::WebInspector(m)) => assert_eq!(m, "Insufficient data to parse length"),
        other => panic!("{:?}", other),
    }
    assert_eq!(WebInspectorCodec::body_to_read(&[0, 0, 0, 0]).unwrap(), None);
    assert_eq!(WebInspectorCodec::body_to_read(&[0, 0, 0, 9]).unwrap(), Some(9));
}

#[test]
fn wrappers_that_cannot_be_read() {
    let fails = |body: &[u8]| -> Error {
        match WebInspectorCodec::new(false, true).decode_body(body) {
            Err(e) => e,
            other => panic!("{:?}", other),
        }
    };
    let wrapped = |key: &str, value: PlistValue| -> Vec<u8> {
        plist_to_bin(&PlistValue::Dictionary(vec![(key.to_string(), value)]))
    };
    assert!(fails(b"<plist>").to_string().starts_with("plist error: plist parsing failed: "));
    assert_eq!(
        fails(&plist_to_bin(&PlistValue::Boolean(true))).to_string(),
        "WebInspector error: Outer wrapper is not a dictionary"
    );
    assert_eq!(
        fails(&wrapped("WIRFinalMessageKey", PlistValue::Boolean(true))).to_string(),
        "WebInspector error: WIRFinalMessageKey is not data type"
    );
    assert_eq!(
        fails(&wrapped("WIRPartialMessageKey", PlistValue::Boolean(true))).to_string(),
        "WebInspector error: WIRPartialMessageKey is not data type"
    );
    assert_eq!(
        fails(&wrapped("x", PlistValue::Boolean(true))).to_string(),
        "WebInspector error: Missing WIRFinalMessageKey or WIRPartialMessageKey"
    );
    assert!(fails(&wrapped("WIRFinalMessageKey", PlistValue::Data(b"<plist>".to_vec())))
        .to_string()
        .starts_with("plist error: RPC plist parsing failed: "));
}

#[test]
fn bad_bodies_are_passed_over_and_bad_lengths_end() {
    let good = RpcSender::new("c".to_string()).build_report_identifier();
    let mut stream = WebInspectorCodec::build_packet(b"<plist>");
    stream.extend_from_slice(&WebInspectorCodec::build_packet(&[]));
    stream.extend_from_slice(&WebInspectorCodec::build_packet(&good));
    assert_eq!(hear(true, false, &stream).unwrap().len(), 1);
    stream.extend_from_slice(&[0xff, 0, 0, 0]);
    assert!(matches!(hear(true, false, &stream), Err(Error::WebInspector(_))));
}

#[test]
fn io_failures() {
    let e = std::io::Error::new(std::io::ErrorKind::Other, "gone");
    for (stage, words) in [
        (WiStage::Header, "Failed to read length header: gone"),
        (WiStage::Body, "Failed to read message body: gone"),
        (WiStage::Write, "Write failed: gone"),
        (WiStage::Flush, "Flush failed: gone"),
    ] {
        match io_failure(stage, &e) {
            Error::WebInspector(m) => assert_eq!(m, words),
            other => panic!("{:?}", other),
        }
    }
    let mut reader = WiReader::new(true, false);
    assert!(matches!(reader.stage(), WiStage::Header));
    assert!(reader.feed(&[0, 0, 0, 1]).unwrap().is_none());
    assert!(matches!(reader.stage(), WiStage::Body));
    assert_eq!(reader.wanted(), 1);
}
