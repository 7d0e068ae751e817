//! What can be handled, and what a refusal says.

use crate::device_listener;
use crate::error::Failure;
use crate::http_server;
use crate::laws::bridge;
use crate::options;
use crate::plist_dates;
use crate::port_config::PortConfig;
use crate::property_list;
use crate::property_list::PlistView;
use crate::proxy;
use crate::proxy::{DeviceView, ProxyEvent};
use crate::rpc;
use crate::rpc::{Entries, MessageView};
use crate::seqs;
use crate::text;
use crate::webinspector;
use vstd::prelude::*;
#[allow(unused_imports)]
use vstd::string::*;

verus! {

// ---------------------------------------------------------------------------------------------
// Numbers and names
// ---------------------------------------------------------------------------------------------

/// A number may have a plus sign in front, and a signed one a minus sign, which turns it round.
/// A number that does not fit is none, and neither is text with anything but digits in it.
pub proof fn law_signs(s: Seq<char>, v: nat)
    ensures
        text::numeral(s) == Some(v) ==> {
            &&& text::parsed_u32(s) == text::parsed_u32(seq!['+'] + s)
            &&& text::parsed_i32(s) == text::parsed_i32(seq!['+'] + s)
            &&& v <= u32::MAX ==> text::parsed_u32(s) == Some(v as u32)
            &&& v > u32::MAX ==> text::parsed_u32(s) is None
            &&& v <= i32::MAX ==> text::parsed_i32(s) == Some(v as i32) && text::parsed_i32(
                seq!['-'] + s,
            ) == Some((-(v as int)) as i32)
            &&& v > i32::MAX ==> text::parsed_i32(s) is None
            &&& text::parsed_u32(seq!['-'] + s) is None
        },
        text::numeral(s) is None && (s.len() == 0 || (s[0] != '+' && s[0] != '-')) ==> {
            &&& text::parsed_u32(s) is None
            &&& text::parsed_i32(s) is None
        },
{
    let plus = seq!['+'] + s;
    let minus = seq!['-'] + s;
    assert(plus.skip(1) =~= s);
    assert(minus.skip(1) =~= s);
    if text::numeral(s) is Some {
        assert(text::is_digit(s[0]));
        assert(!text::is_digit(minus[0]));
    }
}

/// A string, or data, that must be there is what stands under its key; where there is none, the key
/// is told.
pub proof fn law_required(dict: Entries, key: Seq<char>, s: Seq<char>, d: Seq<u8>)
    ensures
        property_list::lookup(dict, key) == Some(PlistView::Text(s)) <==> rpc::required_string(
            dict,
            key,
        ) == std::result::Result::<Seq<char>, Failure>::Ok(s),
        property_list::lookup(dict, key) == Some(PlistView::Data(d)) <==> rpc::required_data(
            dict,
            key,
        ) == std::result::Result::<Seq<u8>, Failure>::Ok(d),
        property_list::string_at(dict, key) is None ==> rpc::required_string(dict, key)
            == std::result::Result::<Seq<char>, Failure>::Err(
            Failure::Rpc("Missing required string field: "@ + key),
        ),
        property_list::data_at(dict, key) is None ==> rpc::required_data(dict, key)
            == std::result::Result::<Seq<u8>, Failure>::Err(
            Failure::Rpc("Missing required data field: "@ + key),
        ),
{
}

/// A character in upper case is the same letter, and is no small one; other characters stay.
pub proof fn law_upper(c: char)
    ensures
        text::same_ignoring_case(seq![c], seq![rpc::ascii_upper(c)]),
        !('a' <= rpc::ascii_upper(c) <= 'z'),
        !('a' <= c <= 'z') ==> rpc::ascii_upper(c) == c,
{
    let a = seq![c];
    let b = seq![rpc::ascii_upper(c)];
    assert forall|i: int| 0 <= i < a.len() implies text::ascii_lower(#[trigger] a[i])
        == text::ascii_lower(b[i]) by {}
}

/// A fresh identifier has five groups, of eight, four, four, four and twelve hexadecimal digits, in
/// capitals, with dashes between them; its version is the fourth.
pub proof fn law_identifier_form(id: Seq<char>, i: int)
    requires
        rpc::is_upper_uuid(id),
        0 <= i < id.len(),
    ensures
        id.len() == 8 + 1 + 4 + 1 + 4 + 1 + 4 + 1 + 12,
        id[i] == '-' <==> i == 8 || i == 13 || i == 18 || i == 23,
        id[i] != '-' ==> ('0' <= id[i] <= '9') || ('A' <= id[i] <= 'F'),
        id[14] == '4',
        id[19] == '8' || id[19] == '9' || id[19] == 'A' || id[19] == 'B',
{
    assert(if rpc::is_dash_position(i) {
        id[i] == '-'
    } else {
        rpc::is_upper_hex(id[i])
    });
}

/// Where I/O failed is told.
pub proof fn law_stages()
    ensures
        webinspector::stage_words(webinspector::WiStage::Header)
            == "Failed to read length header: "@,
        webinspector::stage_words(webinspector::WiStage::Body) == "Failed to read message body: "@,
        webinspector::stage_words(webinspector::WiStage::Write) == "Write failed: "@,
        webinspector::stage_words(webinspector::WiStage::Flush) == "Flush failed: "@,
        device_listener::stage_words(device_listener::ListenStage::Connect)
            == "Failed to connect to usbmuxd: "@,
        device_listener::stage_words(device_listener::ListenStage::Request)
            == "Failed to send Listen request: "@,
        device_listener::stage_words(device_listener::ListenStage::Read)
            == "Failed to read usbmuxd data: "@,
{
}

// ---------------------------------------------------------------------------------------------
// Events and streams
// ---------------------------------------------------------------------------------------------

/// Every event can be handled, but for a listing for which there are not enough numbers left.
pub proof fn law_event_can_be_handled(
    devices: Seq<DeviceView>,
    event: ProxyEvent,
    app_id: Seq<char>,
    pages: Seq<rpc::PageView>,
    i: int,
)
    ensures
        !(event is Wi) ==> proxy::proxy_event_fits(devices, event),
        event is Wi ==> {
            let id = event->Wi_device_id@;
            let read = rpc::message_in(event->Wi_event->RecvPlist_0@);
            &&& read is Err ==> proxy::proxy_event_fits(devices, event)
            &&& read matches Ok(m) ==> (!(m is ApplicationSentListing) ==> proxy::proxy_event_fits(
                devices,
                event,
            ))
            &&& read == std::result::Result::<MessageView, Failure>::Ok(
                MessageView::ApplicationSentListing { app_id, pages },
            ) ==> {
                &&& bridge::is_absent(devices, id) ==> proxy::proxy_event_fits(devices, event)
                &&& bridge::found_at(devices, id, i) ==> (proxy::proxy_event_fits(devices, event)
                    <==> proxy::has_numbers(devices[i].table, app_id, pages))
            }
        },
{
    if event is Wi {
        let id = event->Wi_device_id@;
        let f = proxy::with_id(id);
        if bridge::is_absent(devices, id) {
            assert forall|k: int| 0 <= k < devices.len() implies !f(#[trigger] devices[k]) by {}
            seqs::lemma_is_first_index(devices, f, devices.len() as int);
        }
        if bridge::found_at(devices, id, i) {
            assert forall|k: int| 0 <= k < i implies !f(#[trigger] devices[k]) by {}
            assert(f(devices[i]));
            seqs::lemma_is_first_index(devices, f, i);
        }
    }
}

/// A message from usbmuxd can be handled unless a date keeps it from being read, or a serial number
/// of 24 bytes in it has its eighth byte within a character.
pub proof fn law_message_can_be_handled(xml: Seq<char>, dict: Entries, serial: Seq<char>)
    ensures
        !plist_dates::dates_fit(vstd::utf8::encode_utf8(xml)) ==> !device_listener::message_fits(
            xml,
        ),
        plist_dates::dates_fit(vstd::utf8::encode_utf8(xml)) ==> {
            let read = property_list::plist_read(vstd::utf8::encode_utf8(xml));
            &&& read is None ==> device_listener::message_fits(xml)
            &&& read matches Some(v) ==> (!(v is Dictionary) ==> device_listener::message_fits(xml))
            &&& read == Some(PlistView::Dictionary(dict)) ==> {
                &&& property_list::string_at(dict, "MessageType"@) != Some("Attached"@)
                    ==> device_listener::message_fits(xml)
                &&& property_list::dictionary_at(dict, "Properties"@) is None
                    ==> device_listener::message_fits(xml)
                &&& property_list::string_at(dict, "MessageType"@) == Some("Attached"@) ==> (
                property_list::dictionary_at(dict, "Properties"@) matches Some(props) ==> (
                property_list::string_at(props, "SerialNumber"@) == Some(serial) ==> (
                device_listener::message_fits(xml) <==> vstd::utf8::encode_utf8(serial).len() != 24
                    || vstd::utf8::is_char_boundary(vstd::utf8::encode_utf8(serial), 8))))
            }
        },
{
    reveal_strlit("Attached");
    assert("Attached"@.len() == 8);
}

/// A stream can be read if its first packet can be handled and the rest can be read; a stream that
/// does not hold a whole packet can always be read, and one whose packet has no length never.
pub proof fn law_stream_can_be_read(xml: Seq<char>, rest: Seq<u8>, short: Seq<u8>)
    requires
        16 + vstd::utf8::encode_utf8(xml).len() < 0x1_0000_0000,
    ensures
        device_listener::stream_fits(device_listener::plist_packet(xml) + rest) <==> (
        device_listener::message_fits(text::utf8_lossy(vstd::utf8::encode_utf8(xml)))
            && device_listener::stream_fits(rest)),
        short.len() < 4 ==> device_listener::stream_fits(short),
        short.len() >= 4 && device_listener::le32_value(short) > short.len()
            ==> device_listener::stream_fits(short),
        short.len() >= 4 && device_listener::le32_value(short) == 0
            ==> !device_listener::stream_fits(short),
{
    let packet = device_listener::plist_packet(xml);
    let all = packet + rest;
    let n = packet.len() as int;
    let none: device_listener::Ids = Map::empty();
    device_listener::law_packet_in_front(none, xml, rest);
    device_listener::law_le32_reads_back(packet.len());
    assert(device_listener::le32_value(all) == device_listener::le32_value(
        device_listener::le32(packet.len()),
    ));
    assert(all.take(n) =~= packet);
    assert(all.skip(n) =~= rest);
}

// ---------------------------------------------------------------------------------------------
// Addresses and ports
// ---------------------------------------------------------------------------------------------

/// The characters of a path take at most twelve bytes each.
proof fn lemma_path_cost(path: Seq<char>)
    ensures
        http_server::path_cost(path) <= 12 * path.len(),
    decreases path.len(),
{
    if path.len() > 0 {
        lemma_path_cost(path.drop_last());
    }
}

/// There is room for every address and path that together stay below four billion bytes, by far.
pub proof fn law_room_for_address(written: Seq<char>, own_path: Seq<char>, path: Seq<char>)
    requires
        vstd::utf8::encode_utf8(written).len() + 12 * path.len() <= 0xffff_0000,
    ensures
        http_server::has_url_room(written, own_path, path),
{
    lemma_path_cost(path);
}

/// A range of ports can be told unless its end is the last port there is, by its low sixteen bits.
pub proof fn law_range_can_be_told(pc: PortConfig)
    ensures
        options::every_device_ports(pc).max < 0xffff ==> options::range_fits(pc),
        options::every_device_ports(pc).min <= 0 ==> options::range_fits(pc),
        options::every_device_ports(pc).max < options::every_device_ports(pc).min
            ==> options::range_fits(pc),
{
}

// ---------------------------------------------------------------------------------------------
// Dates
// ---------------------------------------------------------------------------------------------

/// Text without a tag has no date that keeps it from being read.
pub proof fn law_text_without_tags(data: Seq<u8>)
    requires
        !data.contains(0x3c),
        !plist_dates::begins(data, vstd::utf8::encode_utf8("bplist00"@)),
    ensures
        plist_dates::dates_fit(data),
{
    assert forall|at: int| 0 <= at < data.len() implies #[trigger] plist_dates::fits_at(
        data,
        at,
    ) by {
        assert(data[at] != 0x3c);
    }
}


/// A binary property list is unfit to be read if one of its objects is a date whose seconds go
/// further back than the year 0, but not than the year -9999: the place of the object is in the
/// table that the last bytes tell of.
pub proof fn law_early_date(data: Seq<u8>, i: int)
    requires
        plist_dates::begins(data, vstd::utf8::encode_utf8("bplist00"@)),
        data.len() >= 32,
        data[data.len() - 26] == 1 || data[data.len() - 26] == 2 || data[data.len() - 26] == 4
            || data[data.len() - 26] == 8,
        ({
            let n = data.len() as int;
            let size = data[n - 26] as int;
            let count = plist_dates::be_value(data.subrange(n - 24, n - 16)) as int;
            let start = plist_dates::be_value(data.subrange(n - 8, n)) as int;
            let at = plist_dates::be_value(
                data.subrange(start + i * size, start + i * size + size),
            ) as int;
            &&& start + count * size <= n - 32
            &&& 0 <= i < count
            &&& at < n - 32
            &&& data[at] == 0x33
            &&& 0xc22d_6788_8900_0000 < plist_dates::be_value(data.subrange(at + 1, at + 9))
                <= 0xc256_0ad2_9f40_0000
        }),
    ensures
        !plist_dates::dates_fit(data),
{
    let at = plist_dates::object_at(data, i);
    assert(plist_dates::early_date_at(data, at));
}

/// The bytes of a number, the most significant first, count in base 256.
pub proof fn law_number_in_bytes(b: Seq<u8>, x: u8)
    ensures
        plist_dates::be_value(Seq::empty()) == 0,
        plist_dates::be_value(b.push(x)) == plist_dates::be_value(b) * 256 + x,
{
    assert(b.push(x).drop_last() =~= b);
}

} // verus!
