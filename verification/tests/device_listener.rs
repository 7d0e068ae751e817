use ios_webkit_debug_proxy::device_listener::{
    closed_by_usbmuxd, create_listen_packet, listen_failure, reconnect_delay, DeviceEvent,
    DeviceListenerParser, ListenStage,
};
use ios_webkit_debug_proxy::error::Error;

fn packet_of(version: u32, kind: u32, body: &[u8]) -> Vec<u8> {
    let mut packet = Vec::new();
    for n in [16 + body.len() as u32, version, kind, 1] {
        packet.extend_from_slice(&n.to_le_bytes());
    }
    packet.extend_from_slice(body);
    packet
}

fn packet(xml: &str) -> Vec<u8> {
    packet_of(1, 8, xml.as_bytes())
}

fn plist(body: &str) -> String {
    format!("<plist version=\"1.0\"><dict>{}</dict></plist>", body)
}

fn attached(num: u64, serial: &str) -> String {
    plist(&format!(
        "<key>MessageType</key><string>Attached</string><key>Properties</key><dict><key>DeviceID</key><integer>{}</integer><key>SerialNumber</key><string>{}</string></dict>",
        num, serial
    ))
}

fn detached(num: u64) -> String {
    plist(&format!(
        "<key>MessageType</key><string>Detached</string><key>DeviceID</key><integer>{}</integer>",
        num
    ))
}

fn told(events: &[DeviceEvent]) -> Vec<(bool, String, i32)> {
    events
        .iter()
        .map(|e| match e {
            DeviceEvent::Attached { device_id, device_num } => (true, device_id.clone(), *device_num),
            DeviceEvent::Detached { device_id, device_num } => (false, device_id.clone(), *device_num),
        })
        .collect()
}

#[test]
fn devices_come_and_go() {
    let mut parser = DeviceListenerParser::new();
    let mut stream = packet(&attached(5, "0123456789abcdef01234567"));
    stream.extend_from_slice(&packet(&attached(6, "short")));
    stream.extend_from_slice(&packet(&detached(5)));
    stream.extend_from_slice(&packet(&detached(5)));
    let events = parser.on_recv(&stream).unwrap();
    assert_eq!(
        told(&events),
        vec![
            (true, "01234567-89abcdef01234567".to_string(), 5),
            (true, "short".to_string(), 6),
            (false, "01234567-89abcdef01234567".to_string(), 5),
        ]
    );
    assert_eq!(parser.buffer.len(), 0);
    assert_eq!(parser.device_num_to_id.len(), 1);
}

#[test]
fn pieces_do_not_matter() {
    let mut stream = packet(&attached(1, "a"));
    stream.extend_from_slice(&packet_of(1, 3, b"other"));
    stream.extend_from_slice(&packet("<plist>"));
    stream.extend_from_slice(&[4, 0, 0, 0]);
    stream.extend_from_slice(&packet(&detached(1)));
    let mut whole = DeviceListenerParser::new();
    let expected = told(&whole.on_recv(&stream).unwrap());
    assert_eq!(expected.len(), 2);
    for size in [1, 2, 3, 5, 16, 100] {
        let mut parser = DeviceListenerParser::new();
        let mut events = Vec::new();
        for piece in stream.chunks(size) {
            events.extend(parser.on_recv(piece).unwrap());
        }
        assert_eq!(told(&events), expected);
    }
}

#[test]
fn numbers_are_cut_to_32_bits() {
    let mut parser = DeviceListenerParser::new();
    let events = parser.on_recv(&packet(&attached(0x1_ffff_ffff, "a"))).unwrap();
    assert_eq!(told(&events), vec![(true, "a".to_string(), -1)]);
}

#[test]
fn packets_that_cannot_be_read() {
    let error = |packet: &[u8]| -> String {
        match DeviceListenerParser::new().parse_packet(packet) {
            Err(e) => e.to_string(),
            other => panic!("{:?}", other),
        }
    };
    assert_eq!(error(&[1, 2, 3]), "usbmuxd error: Packet too short");
    let mut long = packet("x");
    long.push(0);
    assert_eq!(error(&long), "usbmuxd error: Length mismatch: 17 != 18");
    assert!(error(&packet("<plist>")).starts_with("plist error: plist parsing failed: "));
    assert_eq!(
        error(&packet("<plist version=\"1.0\"><string>x</string></plist>")),
        "plist error: Not a dictionary type"
    );
    assert_eq!(
        error(&packet(&plist("<key>MessageType</key><string>Attached</string>"))),
        "usbmuxd error: Missing Properties"
    );
    assert_eq!(
        error(&packet(&plist("<key>MessageType</key><string>Detached</string>"))),
        "usbmuxd error: Missing DeviceID"
    );
    assert_eq!(
        error(&packet(&plist(
            "<key>MessageType</key><string>Result</string><key>Number</key><integer>6</integer>"
        ))),
        "usbmuxd error: Listen request failed, error code: 6"
    );
}

#[test]
fn packets_that_tell_nothing() {
    for packet in [
        packet(&plist("<key>MessageType</key><string>Result</string><key>Number</key><integer>0</integer>")),
        packet(&plist("<key>MessageType</key><string>Paired</string>")),
        packet(&plist("")),
        packet_of(0, 8, b"<plist>"),
        packet_of(1, 1, b"<plist>"),
    ] {
        assert!(matches!(DeviceListenerParser::new().parse_packet(&packet), Ok(None)));
    }
}

#[test]
fn text_that_is_not_utf8() {
    let mut body = attached(1, "a\u{1}").into_bytes();
    let at = body.iter().position(|b| *b == 1).unwrap();
    body[at] = 0xff;
    let events = DeviceListenerParser::new().on_recv(&packet_of(1, 8, &body)).unwrap();
    assert_eq!(told(&events), vec![(true, "a\u{fffd}".to_string(), 1)]);
}

#[test]
fn streams_that_cannot_be_read_are_left_alone() {
    let mut parser = DeviceListenerParser::new();
    assert_eq!(told(&parser.recv(&packet(&attached(1, "a"))).unwrap()).len(), 1);
    assert!(parser.recv(&[0, 0, 0, 0]).is_none());
    assert_eq!(parser.buffer.len(), 0);
    let serial = "1234567\u{e9}890123456789012";
    assert_eq!(serial.len(), 24);
    assert!(parser.recv(&packet(&attached(2, serial))).is_none());
    assert_eq!(parser.device_num_to_id.len(), 1);
    let serial = "123456\u{e9}8901234567890123";
    assert_eq!(serial.len(), 24);
    let events = parser.recv(&packet(&attached(2, serial))).unwrap();
    assert_eq!(told(&events), vec![(true, "123456\u{e9}-8901234567890123".to_string(), 2)]);
}

#[test]
fn request_to_listen() {
    let packet = create_listen_packet();
    assert_eq!(&packet[..4], &(packet.len() as u32).to_le_bytes());
    assert_eq!(&packet[4..16], &[1, 0, 0, 0, 8, 0, 0, 0, 1, 0, 0, 0]);
    let expected = r#"<?xml version="1.0" encoding="UTF-8"?>
<!DOCTYPE plist PUBLIC "-//Apple//DTD PLIST 1.0//EN" "http://www.apple.com/DTDs/PropertyList-1.0.dtd">
<plist version="1.0">
<dict>
	<key>ClientVersionString</key>
	<string>device_listener</string>
	<key>MessageType</key>
	<string>Listen</string>
	<key>ProgName</key>
	<string>libusbmuxd</string>
	<key>kLibUSBMuxVersion</key>
	<integer>3</integer>
</dict>
</plist>"#;
    assert_eq!(String::from_utf8(packet[16..].to_vec()).unwrap(), expected);
    assert!(matches!(DeviceListenerParser::new().parse_packet(&packet), Ok(None)));
}

#[test]
fn ends_of_a_connection() {
    let e = std::io::Error::new(std::io::ErrorKind::Other, "gone");
    for (stage, words) in [
        (ListenStage::Connect, "Failed to connect to usbmuxd: gone"),
        (ListenStage::Request, "Failed to send Listen request: gone"),
        (ListenStage::Read, "Failed to read usbmuxd data: gone"),
    ] {
        match listen_failure(stage, &e) {
            Error::Usbmuxd(m) => assert_eq!(m, words),
            other => panic!("{:?}", other),
        }
    }
    assert!(closed_by_usbmuxd(1).is_ok());
    let closed = closed_by_usbmuxd(0);
    assert_eq!(reconnect_delay(&closed), Some(2));
    assert_eq!(reconnect_delay(&Ok(())), None);
    match closed {
        Err(Error::Usbmuxd(m)) => assert_eq!(m, "usbmuxd connection closed"),
        other => panic!("{:?}", other),
    }
}
