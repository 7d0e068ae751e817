//! The usbmuxd protocol, as far as it tells of devices that come and go.

use crate::error;
use crate::error::{Error, Failure, Result};
use crate::plist_dates;
use crate::property_list;
use crate::property_list::{PlistValue, PlistView};
use crate::rpc;
use crate::rpc::Entries;
use crate::text;
use byteorder::{LittleEndian, ReadBytesExt, WriteBytesExt};
use std::collections::HashMap;
use vstd::prelude::*;
#[allow(unused_imports)]
use vstd::string::*;

verus! {

/// Where usbmuxd listens.
pub const USBMUXD_FILE_PATH: &'static str = "/var/run/usbmuxd";

/// The type of a packet that holds a property list.
pub const TYPE_PLIST: u32 = 8;

/// The version of the protocol that is asked for.
pub const LIBUSBMUX_VERSION: u32 = 3;

/// How long to wait before connecting again, in seconds.
pub const RECONNECT_DELAY_SECS: u64 = 2;

// ---------------------------------------------------------------------------------------------
// Numbers in packets
// ---------------------------------------------------------------------------------------------

/// A number as four bytes, the least significant first.
pub open spec fn le32(n: nat) -> Seq<u8> {
    seq![
        (n % 256) as u8,
        (n / 0x100 % 256) as u8,
        (n / 0x1_0000 % 256) as u8,
        (n / 0x100_0000 % 256) as u8,
    ]
}

/// The number that the first four bytes denote, the least significant first.
pub open spec fn le32_value(b: Seq<u8>) -> nat {
    (b[0] as nat) + (b[1] as nat) * 0x100 + (b[2] as nat) * 0x1_0000 + (b[3] as nat) * 0x100_0000
}

/// Reading what was written gives the number back.
pub proof fn law_le32_reads_back(n: nat)
    requires
        n < 0x1_0000_0000,
    ensures
        le32(n).len() == 4,
        le32_value(le32(n)) == n,
{
    let a = n / 0x100;
    let b = n / 0x1_0000;
    let c = n / 0x100_0000;
    assert(a / 256 == b);
    assert(b / 256 == c);
    assert(n == a * 256 + n % 256);
    assert(a == b * 256 + a % 256);
    assert(b == c * 256 + b % 256);
}

/// `byteorder::ReadBytesExt::read_u32` of a little-endian number from the bytes of a slice: the
/// first four of them make it up. It fails on fewer.
#[verifier::external_body]
fn read_u32(data: &[u8]) -> (r: u32)
    requires
        data@.len() >= 4,
    ensures
        r == le32_value(data@),
{
    std::io::Cursor::new(data).read_u32::<LittleEndian>().unwrap()
}

/// `byteorder::WriteBytesExt::write_u32` of a little-endian number to a vector: its four bytes go
/// to the end.
#[verifier::external_body]
fn write_u32(out: &mut Vec<u8>, n: u32)
    ensures
        final(out)@ == old(out)@ + le32(n as nat),
{
    out.write_u32::<LittleEndian>(n).unwrap();
}

// ---------------------------------------------------------------------------------------------
// Messages
// ---------------------------------------------------------------------------------------------

/// A device that came or went.
#[derive(Debug)]
pub enum DeviceEvent {
    Attached { device_id: String, device_num: i32 },
    Detached { device_id: String, device_num: i32 },
}

/// A [`DeviceEvent`] over characters.
pub enum EventView {
    Attached { device_id: Seq<char>, device_num: i32 },
    Detached { device_id: Seq<char>, device_num: i32 },
}

impl View for DeviceEvent {
    type V = EventView;

    open spec fn view(&self) -> EventView {
        match *self {
            DeviceEvent::Attached { device_id, device_num } => EventView::Attached {
                device_id: device_id@,
                device_num,
            },
            DeviceEvent::Detached { device_id, device_num } => EventView::Detached {
                device_id: device_id@,
                device_num,
            },
        }
    }
}

/// The views of a list of events.
pub open spec fn events_view(events: Seq<DeviceEvent>) -> Seq<EventView> {
    Seq::new(events.len(), |i: int| events[i]@)
}

/// The identifiers of the devices that are there, by the numbers that usbmuxd gives them.
pub type Ids = Map<u64, Seq<char>>;

/// What a message does to the known devices, and what it tells.
pub struct Parsed {
    pub ids: Ids,
    pub outcome: std::result::Result<Option<EventView>, Failure>,
}

/// The identifier that belongs to a serial number: one of 24 bytes gets a dash behind the eighth.
pub open spec fn dashed(serial: Seq<char>) -> Seq<char> {
    let bytes = vstd::utf8::encode_utf8(serial);
    if bytes.len() == 24 {
        vstd::utf8::decode_utf8(bytes.take(8)) + "-"@ + vstd::utf8::decode_utf8(bytes.skip(8))
    } else {
        serial
    }
}

/// Whether a dash can be put into a serial number where one is due: not in the middle of a
/// character.
pub open spec fn can_be_dashed(serial: Seq<char>) -> bool {
    let bytes = vstd::utf8::encode_utf8(serial);
    bytes.len() == 24 ==> vstd::utf8::is_char_boundary(bytes, 8)
}

/// A serial number of 24 ASCII characters gets a dash behind the eighth.
pub proof fn law_ascii_serial(serial: Seq<char>)
    requires
        vstd::utf8::is_ascii_chars(serial),
    ensures
        can_be_dashed(serial),
        serial.len() == 24 ==> dashed(serial) == serial.take(8) + "-"@ + serial.skip(8),
        serial.len() != 24 ==> dashed(serial) == serial,
{
    let bytes = vstd::utf8::encode_utf8(serial);
    vstd::utf8::is_ascii_chars_encode_utf8(serial);
    vstd::utf8::encode_utf8_valid_utf8(serial);
    if serial.len() == 24 {
        let head = serial.take(8);
        let tail = serial.skip(8);
        assert(serial[8] as u8 == bytes[8]);
        vstd::utf8::is_char_boundary_iff_not_is_continuation_byte(bytes, 8);
        vstd::utf8::is_ascii_chars_encode_utf8(head);
        vstd::utf8::is_ascii_chars_encode_utf8(tail);
        assert(bytes.take(8) =~= vstd::utf8::encode_utf8(head)) by {
            assert forall|i: int| 0 <= i < 8 implies bytes[i] == vstd::utf8::encode_utf8(
                head,
            )[i] by {
                assert(serial[i] == head[i]);
            }
        }
        assert(bytes.skip(8) =~= vstd::utf8::encode_utf8(tail)) by {
            assert forall|i: int| 0 <= i < 16 implies bytes[i + 8] == vstd::utf8::encode_utf8(
                tail,
            )[i] by {
                assert(serial[i + 8] == tail[i]);
            }
        }
        vstd::utf8::encode_utf8_decode_utf8(head);
        vstd::utf8::encode_utf8_decode_utf8(tail);
    }
}

/// The serial number that a message on a new device gives, if the message is one.
pub open spec fn serial_in(dict: Entries) -> Option<Seq<char>> {
    if text::chars_or(property_list::string_at(dict, "MessageType"@), Seq::empty())
        == "Attached"@ {
        match property_list::dictionary_at(dict, "Properties"@) {
            Some(props) => Some(
                text::chars_or(
                    property_list::string_at(props, "SerialNumber"@),
                    Seq::empty(),
                ),
            ),
            None => None,
        }
    } else {
        None
    }
}

/// Whether a message can be handled: the serial number in it, if there is one, can be dashed.
pub open spec fn dict_fits(dict: Entries) -> bool {
    serial_in(dict) matches Some(serial) ==> can_be_dashed(serial)
}

/// What the entries of a message do and tell.
pub open spec fn dict_parsed(ids: Ids, dict: Entries) -> Parsed {
    let message_type = text::chars_or(
        property_list::string_at(dict, "MessageType"@),
        Seq::empty(),
    );
    if message_type == "Result"@ {
        match property_list::unsigned_at(dict, "Number"@) {
            Some(n) if n != 0 => Parsed {
                ids,
                outcome: Err(
                    Failure::Usbmuxd(
                        "Listen request failed, error code: "@ + text::decimal(n as nat),
                    ),
                ),
            },
            _ => Parsed { ids, outcome: Ok(None) },
        }
    } else if message_type == "Attached"@ {
        match property_list::dictionary_at(dict, "Properties"@) {
            Some(props) => {
                let num = match property_list::unsigned_at(props, "DeviceID"@) {
                    Some(n) => n,
                    None => 0,
                };
                let device_id = dashed(serial_in(dict).unwrap());
                Parsed {
                    ids: ids.insert(num, device_id),
                    outcome: Ok(
                        Some(EventView::Attached { device_id, device_num: num as i32 }),
                    ),
                }
            },
            None => Parsed { ids, outcome: Err(Failure::Usbmuxd("Missing Properties"@)) },
        }
    } else if message_type == "Detached"@ {
        match property_list::unsigned_at(dict, "DeviceID"@) {
            Some(num) => if ids.contains_key(num) {
                Parsed {
                    ids: ids.remove(num),
                    outcome: Ok(
                        Some(
                            EventView::Detached { device_id: ids[num], device_num: num as i32 },
                        ),
                    ),
                }
            } else {
                Parsed { ids, outcome: Ok(None) }
            },
            None => Parsed { ids, outcome: Err(Failure::Usbmuxd("Missing DeviceID"@)) },
        }
    } else {
        Parsed { ids, outcome: Ok(None) }
    }
}

/// The dictionary that a message holds, if it holds one.
pub open spec fn message_dict(xml: Seq<char>) -> Option<Entries> {
    match property_list::plist_read(vstd::utf8::encode_utf8(xml)) {
        Some(v) => v.dictionary(),
        None => None,
    }
}

/// Whether a message can be handled: no date keeps it from being read, and its entries fit.
pub open spec fn message_fits(xml: Seq<char>) -> bool {
    &&& plist_dates::dates_fit(vstd::utf8::encode_utf8(xml))
    &&& message_dict(xml) matches Some(dict) ==> dict_fits(dict)
}

/// What a message does and tells.
pub open spec fn message_parsed(ids: Ids, xml: Seq<char>) -> Parsed {
    match property_list::plist_read(vstd::utf8::encode_utf8(xml)) {
        None => Parsed { ids, outcome: Err(Failure::PlistThen("plist parsing failed: "@)) },
        Some(v) => match v.dictionary() {
            None => Parsed { ids, outcome: Err(Failure::Plist("Not a dictionary type"@)) },
            Some(dict) => dict_parsed(ids, dict),
        },
    }
}

/// The text of a packet that holds a property list.
pub open spec fn packet_text(packet: Seq<u8>) -> Option<Seq<char>> {
    if packet.len() >= 16 && le32_value(packet) == packet.len() && le32_value(packet.skip(4)) == 1
        && le32_value(packet.skip(8)) == TYPE_PLIST {
        Some(text::utf8_lossy(packet.skip(16)))
    } else {
        None
    }
}

/// What a packet does and tells. It has its length, a version, its type and a tag in front; what
/// is not a property list is passed over.
pub open spec fn packet_parsed(ids: Ids, packet: Seq<u8>) -> Parsed {
    if packet.len() < 16 {
        Parsed { ids, outcome: Err(Failure::Usbmuxd("Packet too short"@)) }
    } else if le32_value(packet) != packet.len() {
        Parsed {
            ids,
            outcome: Err(
                Failure::Usbmuxd(
                    "Length mismatch: "@ + text::decimal(le32_value(packet)) + " != "@
                        + text::decimal(packet.len()),
                ),
            ),
        }
    } else {
        match packet_text(packet) {
            Some(xml) => message_parsed(ids, xml),
            None => Parsed { ids, outcome: Ok(None) },
        }
    }
}

/// Whether a packet can be handled.
pub open spec fn packet_fits(packet: Seq<u8>) -> bool {
    match packet_text(packet) {
        Some(xml) => message_fits(xml),
        None => true,
    }
}

/// What the packets of a stream have told.
pub struct Received {
    pub ids: Ids,
    pub events: Seq<EventView>,
    /// The bytes that were not enough for another packet.
    pub rest: Seq<u8>,
}

/// Whether a stream can be read: no packet in it says that it has no length, which would never
/// come to an end, and every packet can be handled.
pub open spec fn stream_fits(stream: Seq<u8>) -> bool
    decreases stream.len(),
{
    if stream.len() < 4 || stream.len() < le32_value(stream) {
        true
    } else {
        let n = le32_value(stream) as int;
        n > 0 && packet_fits(stream.take(n)) && stream_fits(stream.skip(n))
    }
}

/// What a stream of packets tells. Packets that cannot be read are passed over.
pub open spec fn received(ids: Ids, stream: Seq<u8>) -> Received
    decreases stream.len(),
{
    if stream.len() < 4 || stream.len() < le32_value(stream) || le32_value(stream) == 0 {
        Received { ids, events: Seq::empty(), rest: stream }
    } else {
        let n = le32_value(stream) as int;
        let p = packet_parsed(ids, stream.take(n));
        let after = received(p.ids, stream.skip(n));
        match p.outcome {
            Ok(Some(e)) => Received { events: seq![e] + after.events, ..after },
            _ => after,
        }
    }
}

/// The identifiers by their characters.
pub open spec fn ids_view(m: Map<u64, String>) -> Ids {
    m.map_values(|s: String| s@)
}

/// Reads the packets from usbmuxd.
pub struct DeviceListenerParser {
    /// The devices that are there, by number.
    pub device_num_to_id: HashMap<u64, String>,
    /// The bytes that were not enough for a packet yet.
    pub buffer: Vec<u8>,
    /// Whether the length of the packet at the front is known.
    pub has_length: bool,
    /// That length, if it is known.
    pub body_length: usize,
}

fn usbmuxd_error(m: &str) -> (e: Error)
    ensures
        e.says(Failure::Usbmuxd(m@)),
{
    Error::Usbmuxd(m.to_owned())
}

/// The identifier that belongs to a serial number.
fn with_dash(serial: String) -> (r: String)
    requires
        can_be_dashed(serial@),
    ensures
        r@ == dashed(serial@),
{
    let ghost bytes = vstd::utf8::encode_utf8(serial@);
    let all = serial.as_str();
    if all.as_bytes().len() == 24 {
        let (head, tail) = all.split_at(8);
        proof {
            vstd::utf8::encode_utf8_decode_utf8(head@);
            vstd::utf8::encode_utf8_decode_utf8(tail@);
            assert(bytes.take(8) =~= vstd::utf8::encode_utf8(head@));
            assert(bytes.skip(8) =~= vstd::utf8::encode_utf8(tail@));
        }
        let mut s = head.to_owned();
        s.append("-");
        s.append(tail);
        return s;
    }
    serial
}

/// Tests whether a dash can be put into a serial number where one is due.
fn dash_fits(serial: &str) -> (r: bool)
    ensures
        r == can_be_dashed(serial@),
{
    serial.as_bytes().len() != 24 || serial.is_char_boundary(8)
}

impl DeviceListenerParser {
    /// Whether the length that is known is that of the packet at the front.
    pub open spec fn wf(self) -> bool {
        self.has_length ==> self.buffer@.len() >= 4 && self.body_length == le32_value(self.buffer@)
    }

    /// The devices that are there, by number.
    pub open spec fn ids(self) -> Ids {
        ids_view(self.device_num_to_id@)
    }

    /// A parser that knows of no device.
    pub fn new() -> (r: Self)
        ensures
            r.wf(),
            r.ids() == Map::<u64, Seq<char>>::empty(),
            r.buffer@ == Seq::<u8>::empty(),
    {
        let r = DeviceListenerParser {
            device_num_to_id: HashMap::new(),
            buffer: Vec::new(),
            has_length: false,
            body_length: 0,
        };
        assert(r.ids() =~= Map::empty());
        r
    }

    /// Takes the entries of a message.
    pub fn handle_message(&mut self, dict: &Vec<(String, PlistValue)>) -> (r: Result<
        Option<DeviceEvent>,
    >)
        requires
            dict_fits(property_list::entries_view(dict@)),
        ensures
            final(self).ids() == dict_parsed(
                old(self).ids(),
                property_list::entries_view(dict@),
            ).ids,
            final(self).buffer == old(self).buffer,
            final(self).has_length == old(self).has_length,
            final(self).body_length == old(self).body_length,
            match dict_parsed(old(self).ids(), property_list::entries_view(dict@)).outcome {
                Ok(Some(e)) => r matches Ok(Some(t)) && t@ == e,
                Ok(None) => r matches Ok(None),
                Err(f) => r matches Err(e) && e.says(f),
            },
    {
        broadcast use vstd::std_specs::hash::group_hash_axioms;

        proof {
            reveal_strlit("");
        }
        assert(""@ =~= Seq::<char>::empty());
        let ghost before = self.device_num_to_id@;
        let message_type = text::text_or(&property_list::get_string(dict, "MessageType"), "");
        if text::str_eq(message_type.as_str(), "Result") {
            if let Some(number) = property_list::get_unsigned(dict, "Number") {
                if number != 0 {
                    return Err(
                        Error::Usbmuxd(
                            error::prefixed(
                                "Listen request failed, error code: ",
                                text::u64_text(number).as_str(),
                            ),
                        ),
                    );
                }
            }
            Ok(None)
        } else if text::str_eq(message_type.as_str(), "Attached") {
            match property_list::get_dictionary(dict, "Properties") {
                Some(props) => {
                    let device_num: u64 = match property_list::get_unsigned(props, "DeviceID") {
                        Some(n) => n,
                        None => 0,
                    };
                    let serial = text::text_or(
                        &property_list::get_string(props, "SerialNumber"),
                        "",
                    );
                    let device_id = with_dash(serial);
                    self.device_num_to_id.insert(device_num, device_id.clone());
                    assert(self.ids() =~= ids_view(before).insert(device_num, device_id@));
                    Ok(Some(DeviceEvent::Attached { device_id, device_num: device_num as i32 }))
                },
                None => Err(usbmuxd_error("Missing Properties")),
            }
        } else if text::str_eq(message_type.as_str(), "Detached") {
            match property_list::get_unsigned(dict, "DeviceID") {
                Some(device_num) => match self.device_num_to_id.remove(&device_num) {
                    Some(device_id) => {
                        assert(self.ids() =~= ids_view(before).remove(device_num));
                        Ok(
                            Some(
                                DeviceEvent::Detached { device_id, device_num: device_num as i32 },
                            ),
                        )
                    },
                    None => {
                        assert(self.ids() =~= ids_view(before));
                        Ok(None)
                    },
                },
                None => Err(usbmuxd_error("Missing DeviceID")),
            }
        } else {
            Ok(None)
        }
    }
}

/// Tests whether a message can be handled.
fn can_handle(xml: &str) -> (r: bool)
    ensures
        r == message_fits(xml@),
{
    proof {
        reveal_strlit("");
    }
    assert(""@ =~= Seq::<char>::empty());
    if !plist_dates::check_dates(xml.as_bytes()) {
        return false;
    }
    match rpc::read_plist(xml.as_bytes(), "") {
        Ok(value) => match value.as_dictionary() {
            Some(dict) => {
                let message_type = text::text_or(
                    &property_list::get_string(dict, "MessageType"),
                    "",
                );
                if !text::str_eq(message_type.as_str(), "Attached") {
                    return true;
                }
                match property_list::get_dictionary(dict, "Properties") {
                    Some(props) => dash_fits(
                        text::text_or(
                            &property_list::get_string(props, "SerialNumber"),
                            "",
                        ).as_str(),
                    ),
                    None => true,
                }
            },
            None => true,
        },
        Err(_) => true,
    }
}

/// The text of a packet, if it holds a property list.
fn text_of_packet(packet: &[u8]) -> (r: Option<String>)
    ensures
        text::option_view(r) == packet_text(packet@),
{
    let n: usize = packet.len();
    if n < 16 {
        return None;
    }
    let len: u32 = read_u32(packet);
    let version: u32 = read_u32(vstd::slice::slice_subrange(packet, 4, n));
    let ptype: u32 = read_u32(vstd::slice::slice_subrange(packet, 8, n));
    assert(packet@.subrange(4, n as int) =~= packet@.skip(4));
    assert(packet@.subrange(8, n as int) =~= packet@.skip(8));
    assert(packet@.subrange(16, n as int) =~= packet@.skip(16));
    if len as usize == n && version == 1 && ptype == TYPE_PLIST {
        Some(text::from_utf8_lossy(vstd::slice::slice_subrange(packet, 16, n)))
    } else {
        None
    }
}

/// Tests whether a stream can be read.
fn is_readable(stream: &[u8]) -> (r: bool)
    ensures
        r == stream_fits(stream@),
{
    let n: usize = stream.len();
    let mut pos: usize = 0;
    assert(stream@.skip(0) =~= stream@);
    while n - pos >= 4
        invariant
            n == stream@.len(),
            pos <= n,
            stream_fits(stream@) == stream_fits(stream@.skip(pos as int)),
        decreases n - pos,
    {
        let left = vstd::slice::slice_subrange(stream, pos, n);
        assert(left@ =~= stream@.skip(pos as int));
        let len: usize = read_u32(left) as usize;
        if len > n - pos {
            return true;
        }
        if len == 0 {
            return false;
        }
        let packet = vstd::slice::slice_subrange(left, 0, len);
        assert(packet@ =~= left@.take(len as int));
        if let Some(xml) = text_of_packet(packet) {
            if !can_handle(xml.as_str()) {
                return false;
            }
        }
        assert(left@.skip(len as int) =~= stream@.skip(pos + len));
        pos = pos + len;
    }
    true
}

impl DeviceListenerParser {
    /// Takes a message.
    pub fn parse_plist_message(&mut self, xml: &str) -> (r: Result<Option<DeviceEvent>>)
        requires
            message_fits(xml@),
        ensures
            final(self).ids() == message_parsed(old(self).ids(), xml@).ids,
            final(self).buffer == old(self).buffer,
            final(self).has_length == old(self).has_length,
            final(self).body_length == old(self).body_length,
            match message_parsed(old(self).ids(), xml@).outcome {
                Ok(Some(e)) => r matches Ok(Some(t)) && t@ == e,
                Ok(None) => r matches Ok(None),
                Err(f) => r matches Err(e) && e.says(f),
            },
    {
        let value = rpc::read_plist(xml.as_bytes(), "plist parsing failed: ")?;
        match value.as_dictionary() {
            Some(dict) => self.handle_message(dict),
            None => Err(Error::Plist("Not a dictionary type".to_owned())),
        }
    }

    /// Takes a packet.
    pub fn parse_packet(&mut self, packet: &[u8]) -> (r: Result<Option<DeviceEvent>>)
        requires
            packet_fits(packet@),
        ensures
            final(self).ids() == packet_parsed(old(self).ids(), packet@).ids,
            final(self).buffer == old(self).buffer,
            final(self).has_length == old(self).has_length,
            final(self).body_length == old(self).body_length,
            match packet_parsed(old(self).ids(), packet@).outcome {
                Ok(Some(e)) => r matches Ok(Some(t)) && t@ == e,
                Ok(None) => r matches Ok(None),
                Err(f) => r matches Err(e) && e.says(f),
            },
    {
        if packet.len() < 16 {
            return Err(usbmuxd_error("Packet too short"));
        }
        let len: usize = read_u32(packet) as usize;
        if len != packet.len() {
            let mut m = "Length mismatch: ".to_owned();
            m.append(text::u64_text(len as u64).as_str());
            m.append(" != ");
            m.append(text::u64_text(packet.len() as u64).as_str());
            return Err(Error::Usbmuxd(m));
        }
        match text_of_packet(packet) {
            Some(xml) => self.parse_plist_message(xml.as_str()),
            None => Ok(None),
        }
    }

    /// Takes bytes as they arrive, and tells what the packets that are complete now have told.
    pub fn on_recv(&mut self, data: &[u8]) -> (r: Result<Vec<DeviceEvent>>)
        requires
            old(self).wf(),
            stream_fits(old(self).buffer@ + data@),
        ensures
            final(self).wf(),
            final(self).ids() == received(old(self).ids(), old(self).buffer@ + data@).ids,
            final(self).buffer@ == received(old(self).ids(), old(self).buffer@ + data@).rest,
            r matches Ok(events) && events_view(events@) == received(
                old(self).ids(),
                old(self).buffer@ + data@,
            ).events,
    {
        let ghost all = self.buffer@ + data@;
        let ghost told = received(self.ids(), all);
        self.buffer.extend_from_slice(data);
        assert(self.buffer@ =~= all);
        assert(self.has_length ==> le32_value(all) == le32_value(old(self).buffer@));
        let mut events: Vec<DeviceEvent> = Vec::new();
        assert(events_view(events@) + told.events =~= told.events);
        loop
            invariant
                self.wf(),
                stream_fits(self.buffer@),
                told.ids == received(self.ids(), self.buffer@).ids,
                told.rest == received(self.ids(), self.buffer@).rest,
                told.events == events_view(events@) + received(self.ids(), self.buffer@).events,
            ensures
                self.wf(),
                told.ids == self.ids(),
                told.rest == self.buffer@,
                told.events == events_view(events@),
            decreases self.buffer@.len(),
        {
            if !self.has_length && self.buffer.len() >= 4 {
                self.body_length = read_u32(self.buffer.as_slice()) as usize;
                self.has_length = true;
            }
            if self.has_length && self.buffer.len() >= self.body_length {
                let ghost stream = self.buffer@;
                let ghost ids = self.ids();
                let ghost done = events_view(events@);
                let mut packet = self.buffer.split_off(self.body_length);
                std::mem::swap(&mut packet, &mut self.buffer);
                self.has_length = false;
                assert(packet@ =~= stream.take(self.body_length as int));
                assert(self.buffer@ =~= stream.skip(self.body_length as int));
                let ghost p = packet_parsed(ids, packet@);
                let ghost after = received(p.ids, self.buffer@);
                match self.parse_packet(packet.as_slice()) {
                    Ok(Some(event)) => {
                        let ghost e = event@;
                        let ghost earlier = events@;
                        events.push(event);
                        assert(events_view(events@) =~= events_view(earlier).push(e));
                        assert(done.push(e) + after.events =~= done + (seq![e] + after.events));
                    },
                    Ok(None) => {},
                    Err(_) => {},
                }
            } else {
                assert(received(self.ids(), self.buffer@).events =~= Seq::empty());
                assert(events_view(events@) + Seq::empty() =~= events_view(events@));
                break;
            }
        }
        Ok(events)
    }

    /// Takes bytes as they arrive, if they can be read. Otherwise nothing is taken and nothing is
    /// told.
    pub fn recv(&mut self, data: &[u8]) -> (r: Option<Vec<DeviceEvent>>)
        requires
            old(self).wf(),
        ensures
            final(self).wf(),
            if stream_fits(old(self).buffer@ + data@) {
                &&& final(self).ids() == received(
                    old(self).ids(),
                    old(self).buffer@ + data@,
                ).ids
                &&& final(self).buffer@ == received(
                    old(self).ids(),
                    old(self).buffer@ + data@,
                ).rest
                &&& r matches Some(events) && events_view(events@) == received(
                    old(self).ids(),
                    old(self).buffer@ + data@,
                ).events
            } else {
                r is None && *final(self) == *old(self)
            },
    {
        let mut stream: Vec<u8> = Vec::new();
        stream.extend_from_slice(self.buffer.as_slice());
        stream.extend_from_slice(data);
        assert(stream@ =~= self.buffer@ + data@);
        if is_readable(stream.as_slice()) {
            match self.on_recv(data) {
                Ok(events) => Some(events),
                Err(_) => None,
            }
        } else {
            None
        }
    }
}

// ---------------------------------------------------------------------------------------------
// The request
// ---------------------------------------------------------------------------------------------

/// The request to listen, up to the version.
pub const LISTEN_HEAD: &'static str = "<?xml version=\"1.0\" encoding=\"UTF-8\"?>\n<!DOCTYPE plist PUBLIC \"-//Apple//DTD PLIST 1.0//EN\" \"http://www.apple.com/DTDs/PropertyList-1.0.dtd\">\n<plist version=\"1.0\">\n<dict>\n\t<key>ClientVersionString</key>\n\t<string>device_listener</string>\n\t<key>MessageType</key>\n\t<string>Listen</string>\n\t<key>ProgName</key>\n\t<string>libusbmuxd</string>\n\t<key>kLibUSBMuxVersion</key>\n\t<integer>";

/// The request to listen, behind the version.
pub const LISTEN_TAIL: &'static str = "</integer>\n</dict>\n</plist>";

/// The property list of the request to listen: who asks, for what, and in which version.
pub open spec fn listen_xml() -> Seq<char> {
    LISTEN_HEAD@ + text::decimal(LIBUSBMUX_VERSION as nat) + LISTEN_TAIL@
}

/// A packet with a property list: its length, version one, its type, tag one, and the text.
pub open spec fn plist_packet(xml: Seq<char>) -> Seq<u8> {
    let body = vstd::utf8::encode_utf8(xml);
    le32(16 + body.len()) + le32(1) + le32(TYPE_PLIST as nat) + le32(1) + body
}

/// The request is short.
proof fn lemma_listen_is_short()
    ensures
        vstd::utf8::encode_utf8(listen_xml()).len() == 404,
{
    reveal_strlit("<?xml version=\"1.0\" encoding=\"UTF-8\"?>\n<!DOCTYPE plist PUBLIC \"-//Apple//DTD PLIST 1.0//EN\" \"http://www.apple.com/DTDs/PropertyList-1.0.dtd\">\n<plist version=\"1.0\">\n<dict>\n\t<key>ClientVersionString</key>\n\t<string>device_listener</string>\n\t<key>MessageType</key>\n\t<string>Listen</string>\n\t<key>ProgName</key>\n\t<string>libusbmuxd</string>\n\t<key>kLibUSBMuxVersion</key>\n\t<integer>");
    reveal_strlit("</integer>\n</dict>\n</plist>");
    let xml = listen_xml();
    assert(text::decimal(3) =~= seq!['3']);
    assert(vstd::utf8::is_ascii_chars(xml));
    vstd::utf8::is_ascii_chars_encode_utf8(xml);
}

/// The request to be told of devices.
pub fn create_listen_packet() -> (r: Vec<u8>)
    ensures
        r@ == plist_packet(listen_xml()),
{
    let mut xml = LISTEN_HEAD.to_owned();
    xml.append(text::u64_text(LIBUSBMUX_VERSION as u64).as_str());
    xml.append(LISTEN_TAIL);
    let xml_bytes = xml.as_str().as_bytes();
    proof {
        lemma_listen_is_short();
    }
    let length: usize = 16 + xml_bytes.len();
    let mut packet: Vec<u8> = Vec::new();
    write_u32(&mut packet, length as u32);
    write_u32(&mut packet, 1);
    write_u32(&mut packet, TYPE_PLIST);
    write_u32(&mut packet, 1);
    packet.extend_from_slice(xml_bytes);
    assert(packet@ =~= plist_packet(listen_xml()));
    packet
}

/// Where the connection to usbmuxd failed.
pub enum ListenStage {
    Connect,
    Request,
    Read,
}

/// The words before those of the I/O error.
pub open spec fn stage_words(stage: ListenStage) -> Seq<char> {
    match stage {
        ListenStage::Connect => "Failed to connect to usbmuxd: "@,
        ListenStage::Request => "Failed to send Listen request: "@,
        ListenStage::Read => "Failed to read usbmuxd data: "@,
    }
}

/// The error that ends a connection to usbmuxd when I/O on it fails.
pub fn listen_failure(stage: ListenStage, e: &std::io::Error) -> (r: Error)
    ensures
        exists|words: String| #[trigger]
            to_string_from_display_ensures::<std::io::Error>(e, words) && r.says(
                Failure::Usbmuxd(stage_words(stage) + words@),
            ),
{
    let words = e.to_string();
    let heading = match stage {
        ListenStage::Connect => "Failed to connect to usbmuxd: ",
        ListenStage::Request => "Failed to send Listen request: ",
        ListenStage::Read => "Failed to read usbmuxd data: ",
    };
    Error::Usbmuxd(error::prefixed(heading, words.as_str()))
}

/// The error for a read that gave nothing: usbmuxd has closed the connection.
pub fn closed_by_usbmuxd(bytes_read: usize) -> (r: Result<()>)
    ensures
        bytes_read == 0 ==> (r matches Err(e) && e.says(
            Failure::Usbmuxd("usbmuxd connection closed"@),
        )),
        bytes_read != 0 ==> r is Ok,
{
    if bytes_read == 0 {
        Err(usbmuxd_error("usbmuxd connection closed"))
    } else {
        Ok(())
    }
}

/// How long to wait before listening again, in seconds: not at all if listening was to end.
pub fn reconnect_delay(ended: &Result<()>) -> (r: Option<u64>)
    ensures
        r == (if ended is Ok { None } else { Some(RECONNECT_DELAY_SECS) }),
{
    match ended {
        Ok(_) => None,
        Err(_) => Some(RECONNECT_DELAY_SECS),
    }
}

// ---------------------------------------------------------------------------------------------
// What always holds
// ---------------------------------------------------------------------------------------------

/// It does not matter in which pieces the bytes arrive: taking them in two pieces tells the same,
/// in the same order, and ends in the same state as taking them at once.
pub proof fn law_pieces(ids: Ids, a: Seq<u8>, b: Seq<u8>)
    requires
        stream_fits(a + b),
    ensures
        stream_fits(a),
        stream_fits(received(ids, a).rest + b),
        ({
            let first = received(ids, a);
            let second = received(first.ids, first.rest + b);
            &&& received(ids, a + b).ids == second.ids
            &&& received(ids, a + b).rest == second.rest
            &&& received(ids, a + b).events == first.events + second.events
        }),
    decreases a.len(),
{
    let all = a + b;
    let first = received(ids, a);
    if a.len() >= 4 {
        assert(le32_value(all) == le32_value(a));
    }
    if a.len() < 4 || a.len() < le32_value(a) {
        let second = received(first.ids, first.rest + b);
        assert(first.events + second.events =~= second.events);
    } else {
        let n = le32_value(a) as int;
        assert(all.take(n) =~= a.take(n));
        assert(all.skip(n) =~= a.skip(n) + b);
        let p = packet_parsed(ids, a.take(n));
        law_pieces(p.ids, a.skip(n), b);
        let then_first = received(p.ids, a.skip(n));
        let second = received(then_first.ids, then_first.rest + b);
        match p.outcome {
            Ok(Some(e)) => {
                assert(seq![e] + (then_first.events + second.events) =~= (seq![e]
                    + then_first.events) + second.events);
            },
            _ => {},
        }
    }
}

/// A packet with a property list in front of a stream is read as one: its text is taken as a
/// message, and then the rest is read.
pub proof fn law_packet_in_front(ids: Ids, xml: Seq<char>, rest: Seq<u8>)
    requires
        16 + vstd::utf8::encode_utf8(xml).len() < 0x1_0000_0000,
    ensures
        packet_text(plist_packet(xml)) == Some(text::utf8_lossy(vstd::utf8::encode_utf8(xml))),
        ({
            let p = message_parsed(ids, text::utf8_lossy(vstd::utf8::encode_utf8(xml)));
            let all = received(ids, plist_packet(xml) + rest);
            let after = received(p.ids, rest);
            &&& all.ids == after.ids
            &&& all.rest == after.rest
            &&& all.events == (match p.outcome {
                Ok(Some(e)) => seq![e] + after.events,
                _ => after.events,
            })
        }),
{
    let body = vstd::utf8::encode_utf8(xml);
    let packet = plist_packet(xml);
    let n = 16 + body.len();
    law_le32_reads_back(n);
    law_le32_reads_back(1);
    law_le32_reads_back(TYPE_PLIST as nat);
    assert(packet.len() == n);
    assert(le32_value(packet) == le32_value(le32(n)));
    assert(le32_value(packet.skip(4)) == le32_value(le32(1)));
    assert(le32_value(packet.skip(8)) == le32_value(le32(TYPE_PLIST as nat)));
    assert(packet.skip(16) =~= body);
    let all = packet + rest;
    assert(le32_value(all) == le32_value(packet));
    assert(all.take(n as int) =~= packet);
    assert(all.skip(n as int) =~= rest);
}

/// The number under which a message on a new device announces it.
pub open spec fn attached_num(dict: Entries) -> u64 {
    match property_list::dictionary_at(dict, "Properties"@) {
        Some(props) => match property_list::unsigned_at(props, "DeviceID"@) {
            Some(n) => n,
            None => 0,
        },
        None => 0,
    }
}

/// A device that goes is named as it was when it came, and is then forgotten; a second message
/// that it went tells nothing.
pub proof fn law_detached_as_attached(ids: Ids, came: Entries, went: Entries)
    requires
        serial_in(came) is Some,
        property_list::string_at(went, "MessageType"@) == Some("Detached"@),
        property_list::unsigned_at(went, "DeviceID"@) == Some(attached_num(came)),
    ensures
        ({
            let device_id = dashed(serial_in(came).unwrap());
            let device_num = attached_num(came) as i32;
            let first = dict_parsed(ids, came);
            let second = dict_parsed(first.ids, went);
            &&& first.outcome == Ok::<Option<EventView>, Failure>(
                Some(EventView::Attached { device_id, device_num }),
            )
            &&& second.outcome == Ok::<Option<EventView>, Failure>(
                Some(EventView::Detached { device_id, device_num }),
            )
            &&& second.ids == ids.remove(attached_num(came))
            &&& dict_parsed(second.ids, went) == (Parsed { ids: second.ids, outcome: Ok(None) })
        }),
{
    reveal_strlit("Result");
    reveal_strlit("Attached");
    reveal_strlit("Detached");
    assert("Attached"@[0] == 'A');
    assert("Detached"@[0] == 'D');
    assert("Result"@.len() != "Attached"@.len());
    let first = dict_parsed(ids, came);
    assert(first.ids.remove(attached_num(came)) =~= ids.remove(attached_num(came)));
}

} // verus!
