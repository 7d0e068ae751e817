//! Reaching devices: versions, the dialogue with a device, usbmuxd and pair records.

use crate::device_listener;
use crate::device_listener::{EventView, Ids};
use crate::error::Failure;
use crate::idevice_ext;
use crate::idevice_ext::{Call, Key, KnownView, Reply, TurnView};
use crate::laws::answers;
use crate::laws::numerals;
use crate::property_list;
use crate::property_list::PlistView;
use crate::proxy;
use crate::rpc::Entries;
use crate::text;
use vstd::prelude::*;
#[allow(unused_imports)]
use vstd::string::*;

verus! {

// ---------------------------------------------------------------------------------------------
// Versions
// ---------------------------------------------------------------------------------------------

/// The numbers among pieces of text come in the order of the pieces; a piece that is no number is
/// passed over.
pub proof fn law_numbers_in_order(a: Seq<Seq<char>>, b: Seq<Seq<char>>, piece: Seq<char>)
    ensures
        idevice_ext::numbers_in(a + b) == idevice_ext::numbers_in(a) + idevice_ext::numbers_in(b),
        text::parsed_u32(piece) matches Some(n) ==> idevice_ext::numbers_in(seq![piece]) == seq![n],
        text::parsed_u32(piece) is None ==> idevice_ext::numbers_in(seq![piece]).len() == 0,
    decreases b.len(),
{
    let one = seq![piece];
    assert(one.drop_last() =~= Seq::empty());
    assert(idevice_ext::numbers_in(one.drop_last()) =~= Seq::empty());
    if let Some(n) = text::parsed_u32(piece) {
        assert(idevice_ext::numbers_in(one) =~= seq![n]);
    }
    if b.len() == 0 {
        assert(a + b =~= a);
        assert(idevice_ext::numbers_in(b) =~= Seq::empty());
        assert(idevice_ext::numbers_in(a) + idevice_ext::numbers_in(b) =~= idevice_ext::numbers_in(
            a,
        ));
    } else {
        assert((a + b).drop_last() =~= a + b.drop_last());
        law_numbers_in_order(a, b.drop_last(), piece);
        assert(idevice_ext::numbers_in(a + b) =~= idevice_ext::numbers_in(a)
            + idevice_ext::numbers_in(b));
    }
}

/// Packing and unpacking agree: the three parts of a packed version are the low eight bits of the
/// three numbers in the text, whatever stands behind them. Where there is no third number, its part
/// is zero, and text with fewer than two numbers is no version.
pub proof fn law_version_packed(a: u32, b: u32, c: u32, rest: Seq<char>)
    ensures
        ({
            let two = text::decimal(a as nat) + seq!['.'] + text::decimal(b as nat);
            let three = two + seq!['.'] + text::decimal(c as nat);
            &&& idevice_ext::packed_version(three) matches Some(v) && v as int / 0x1_0000 == a as int
                % 256 && (v as int / 256) % 256 == b as int % 256 && v as int % 256 == c as int
                % 256
            &&& idevice_ext::packed_version(three + seq!['.'] + rest)
                == idevice_ext::packed_version(three)
            &&& idevice_ext::packed_version(two) matches Some(v) && v as int / 0x1_0000 == a as int
                % 256 && (v as int / 256) % 256 == b as int % 256 && v as int % 256 == 0
            &&& idevice_ext::packed_version(text::decimal(a as nat)) is None
        }),
{
    let x = text::decimal(a as nat);
    let y = text::decimal(b as nat);
    let z = text::decimal(c as nat);
    let two = x + seq!['.'] + y;
    let three = two + seq!['.'] + z;
    numerals::law_numeral_reads_back(a as nat);
    numerals::law_numeral_reads_back(b as nat);
    numerals::law_numeral_reads_back(c as nat);
    answers::lemma_three_parts(a as nat, b as nat, c as nat);
    answers::lemma_three_numbers(x, y, z);
    numerals::law_split(three, rest, '.');
    law_numbers_in_order(text::split_on(three, '.'), text::split_on(rest, '.'), x);
    assert forall|i: int| 0 <= i < x.len() implies x[i] != '.' by {
        assert('0' <= x[i] <= '9');
    }
    numerals::law_split(x, x, '.');
    law_numbers_in_order(Seq::empty(), Seq::empty(), x);
    lemma_unpacked(a as int % 256, b as int % 256, c as int % 256);
    lemma_unpacked(a as int % 256, b as int % 256, 0);
    assert(idevice_ext::numbers_in(text::split_on(three, '.')) == seq![a, b, c]);
    assert(idevice_ext::numbers_in(text::split_on(three + seq!['.'] + rest, '.')).take(3)
        =~= seq![a, b, c]);
    assert(idevice_ext::numbers_in(text::split_on(two, '.')) == seq![a, b]);
}

/// The parts of a number that is put together from them.
proof fn lemma_unpacked(a: int, b: int, c: int)
    requires
        0 <= a < 256,
        0 <= b < 256,
        0 <= c < 256,
    ensures
        ({
            let v = a * 0x1_0000 + b * 256 + c;
            &&& 0 <= v < 0x100_0000
            &&& v / 0x1_0000 == a
            &&& (v / 256) % 256 == b
            &&& v % 256 == c
        }),
{
    let v = a * 0x1_0000 + b * 256 + c;
    assert(v / 256 == a * 256 + b);
}

/// Whatever else stands in the text of a version, its numbers are packed, in order, each by its low
/// eight bits, and the third as zero where there is none; text with fewer than two is no version.
pub proof fn law_version_of_text(version: Seq<char>)
    ensures
        ({
            let parts = idevice_ext::numbers_in(text::split_on(version, '.'));
            &&& parts.len() < 2 <==> idevice_ext::packed_version(version) is None
            &&& idevice_ext::packed_version(version) matches Some(v) ==> v as int / 0x1_0000
                == parts[0] as int % 256 && (v as int / 256) % 256 == parts[1] as int % 256
                && v as int % 256 == (if parts.len() >= 3 {
                parts[2] as int % 256
            } else {
                0
            })
        }),
{
    let parts = idevice_ext::numbers_in(text::split_on(version, '.'));
    if parts.len() >= 3 {
        lemma_unpacked(parts[0] as int % 256, parts[1] as int % 256, parts[2] as int % 256);
    } else if parts.len() >= 2 {
        lemma_unpacked(parts[0] as int % 256, parts[1] as int % 256, 0);
    }
}

/// The text of a version with three numbers.
pub open spec fn version_text(a: nat, b: nat, c: nat) -> Seq<char> {
    text::decimal(a) + seq!['.'] + text::decimal(b) + seq!['.'] + text::decimal(c)
}

/// A packed version is put together from the three numbers.
#[verifier::rlimit(40)]
proof fn lemma_packed(a: u32, b: u32, c: u32)
    requires
        a < 256,
        b < 256,
        c < 256,
    ensures
        idevice_ext::packed_version(version_text(a as nat, b as nat, c as nat)) == Some(
            (a * 0x1_0000 + b * 256 + c) as u32,
        ),
{
    law_version_packed(a, b, c, Seq::empty());
    let v = idevice_ext::packed_version(version_text(a as nat, b as nat, c as nat)).unwrap();
    lemma_parts(v as int, a as int, b as int, c as int);
}

/// Versions keep their order when they are packed, and messages are split into pieces just for
/// those below the eleventh.
pub proof fn law_packed_in_order(a: u32, b: u32, c: u32, a2: u32, b2: u32, c2: u32, v: u32, v2: u32)
    requires
        a < 256,
        b < 256,
        c < 256,
        a2 < 256,
        b2 < 256,
        c2 < 256,
        idevice_ext::packed_version(version_text(a as nat, b as nat, c as nat)) == Some(v),
        idevice_ext::packed_version(version_text(a2 as nat, b2 as nat, c2 as nat)) == Some(v2),
    ensures
        v < v2 <==> (a < a2 || (a == a2 && (b < b2 || (b == b2 && c < c2)))),
        proxy::takes_pieces(v) <==> a < 11,
{
    lemma_packed(a, b, c);
    lemma_packed(a2, b2, c2);
    lemma_order(v, a as int, b as int, c as int, v2, a2 as int, b2 as int, c2 as int);
}

/// A number is put together from its parts.
proof fn lemma_parts(v: int, a: int, b: int, c: int)
    requires
        0 <= v,
        v / 0x1_0000 == a,
        (v / 256) % 256 == b,
        v % 256 == c,
    ensures
        v == a * 0x1_0000 + b * 256 + c,
{
    assert((v / 256) / 256 == v / 0x1_0000);
}

/// Numbers compare as their parts do.
proof fn lemma_order(v: u32, a: int, b: int, c: int, v2: u32, a2: int, b2: int, c2: int)
    requires
        v == a * 0x1_0000 + b * 256 + c,
        v2 == a2 * 0x1_0000 + b2 * 256 + c2,
        0 <= a < 256,
        0 <= b < 256,
        0 <= c < 256,
        0 <= a2 < 256,
        0 <= b2 < 256,
        0 <= c2 < 256,
    ensures
        v < v2 <==> (a < a2 || (a == a2 && (b < b2 || (b == b2 && c < c2)))),
        proxy::takes_pieces(v) <==> a < 11,
{
}

// ---------------------------------------------------------------------------------------------
// The dialogue
// ---------------------------------------------------------------------------------------------

/// What is known when a dialogue starts.
pub open spec fn nothing_known() -> KnownView {
    KnownView {
        device_id: Seq::empty(),
        device_name: Seq::empty(),
        device_os_version: 0,
        ssl_enabled: false,
    }
}

/// Whether a turn goes on to a call.
pub open spec fn goes_on(turn: TurnView, next: Call) -> bool {
    turn matches TurnView::Go { call, .. } && call == next
}

/// A dialogue in which every call succeeds asks for the identifier, the name and the version, in
/// this order, starts the service, connects to the port that it is given, and ends with the
/// connection. What is told of the device is what the device answered: its identifier, its name,
/// its version as it is packed, and whether the service speaks TLS; what it did not answer is left
/// out.
pub proof fn law_dialogue(
    id: Option<String>,
    name: Option<String>,
    version: Option<String>,
    port: u16,
    ssl: u8,
    fd: i32,
)
    requires
        port != 0,
    ensures
        ({
            let k0 = idevice_ext::known_after(nothing_known(), Call::Open, Reply::Opened(0));
            let k1 = idevice_ext::known_after(k0, Call::Handshake, Reply::Shaken(0));
            let k2 = idevice_ext::known_after(
                k1,
                Call::GetValue(Key::UniqueDeviceId),
                Reply::Value(id),
            );
            let k3 = idevice_ext::known_after(
                k2,
                Call::GetValue(Key::DeviceName),
                Reply::Value(name),
            );
            let k4 = idevice_ext::known_after(
                k3,
                Call::GetValue(Key::ProductVersion),
                Reply::Value(version),
            );
            let service = Some((port, ssl));
            let k5 = idevice_ext::known_after(
                k4,
                Call::StartService,
                Reply::Started { code: 0, service },
            );
            let k6 = idevice_ext::known_after(k5, Call::Connect(port), Reply::Connected(0));
            let k7 = idevice_ext::known_after(k6, Call::GetFd, Reply::Located { code: 0, fd });
            &&& goes_on(
                idevice_ext::turn_after(k0, Call::Open, Reply::Opened(0)),
                Call::Handshake,
            )
            &&& goes_on(
                idevice_ext::turn_after(k1, Call::Handshake, Reply::Shaken(0)),
                Call::GetValue(Key::UniqueDeviceId),
            )
            &&& goes_on(
                idevice_ext::turn_after(k2, Call::GetValue(Key::UniqueDeviceId), Reply::Value(id)),
                Call::GetValue(Key::DeviceName),
            )
            &&& goes_on(
                idevice_ext::turn_after(k3, Call::GetValue(Key::DeviceName), Reply::Value(name)),
                Call::GetValue(Key::ProductVersion),
            )
            &&& goes_on(
                idevice_ext::turn_after(
                    k4,
                    Call::GetValue(Key::ProductVersion),
                    Reply::Value(version),
                ),
                Call::StartService,
            )
            &&& goes_on(
                idevice_ext::turn_after(
                    k5,
                    Call::StartService,
                    Reply::Started { code: 0, service },
                ),
                Call::Connect(port),
            )
            &&& goes_on(
                idevice_ext::turn_after(k6, Call::Connect(port), Reply::Connected(0)),
                Call::GetFd,
            )
            &&& idevice_ext::turn_after(k7, Call::GetFd, Reply::Located { code: 0, fd }) matches
                TurnView::Reached { fd: f, known, .. } && f == fd && known.device_id == (match id {
                Some(s) => s@,
                None => Seq::empty(),
            }) && known.device_name == (match name {
                Some(s) => s@,
                None => Seq::empty(),
            }) && known.device_os_version == (match version {
                Some(s) => match idevice_ext::packed_version(s@) {
                    Some(v) => v,
                    None => 0u32,
                },
                None => 0u32,
            }) && (known.ssl_enabled <==> ssl == 1)
        }),
{
}

/// A device that tells its version with three numbers below 256 is reached with just that version.
pub proof fn law_version_learned(known: KnownView, version: String, a: u32, b: u32, c: u32)
    requires
        a < 256,
        b < 256,
        c < 256,
        version@ == text::decimal(a as nat) + seq!['.'] + text::decimal(b as nat) + seq!['.']
            + text::decimal(c as nat),
    ensures
        ({
            let after = idevice_ext::known_after(
                known,
                Call::GetValue(Key::ProductVersion),
                Reply::Value(Some(version)),
            );
            &&& after.device_os_version as int / 0x1_0000 == a
            &&& (after.device_os_version as int / 256) % 256 == b
            &&& after.device_os_version as int % 256 == c
            &&& after.device_id == known.device_id
            &&& after.device_name == known.device_name
            &&& after.ssl_enabled == known.ssl_enabled
        }),
{
    lemma_packed(a, b, c);
    lemma_unpacked(a as int, b as int, c as int);
    assert(version@ == version_text(a as nat, b as nat, c as nat));
    let packed = (a * 0x1_0000 + b * 256 + c) as u32;
    assert(idevice_ext::learned(known, Key::ProductVersion, Some(version@)) == (KnownView {
        device_os_version: packed,
        ..known
    }));
}

/// A call that fails ends the dialogue with the reason.
pub proof fn law_dialogue_fails(known: KnownView, code: i32, port: u16, ssl: u8, fd: i32)
    requires
        code != 0,
    ensures
        idevice_ext::turn_after(known, Call::Open, Reply::Opened(code)) matches TurnView::Failed {
            words,
            ..
        } && words == "Device not found, please make sure it is connected"@,
        idevice_ext::turn_after(known, Call::Handshake, Reply::Shaken(code)) matches TurnView::Failed {
            words,
            ..
        } && words == idevice_ext::lockdownd_words(code),
        idevice_ext::turn_after(
            known,
            Call::StartService,
            Reply::Started { code, service: Some((port, ssl)) },
        ) matches TurnView::Failed { words, .. } && words
            == "Cannot start com.apple.webinspector service, error code: "@ + text::signed_decimal(
            code as int,
        ),
        idevice_ext::turn_after(known, Call::StartService, Reply::Started { code: 0, service: None })
            is Failed,
        idevice_ext::turn_after(
            known,
            Call::StartService,
            Reply::Started { code: 0, service: Some((0, ssl)) },
        ) is Failed,
        idevice_ext::turn_after(known, Call::Connect(port), Reply::Connected(code)) matches
            TurnView::Failed { words, .. } && words == "idevice_connect failed"@,
        idevice_ext::turn_after(known, Call::GetFd, Reply::Located { code, fd }) matches
            TurnView::Failed { words, .. } && words == "Cannot get connection file descriptor"@,
{
}

/// The codes that call for something from the one who holds the device say so; any other is told as
/// a number that can be read back.
pub proof fn law_lockdownd(code: i32)
    ensures
        code == -17 ==> idevice_ext::lockdownd_words(code)
            == "Please enter the passcode on the device and try again"@,
        code == -18 ==> idevice_ext::lockdownd_words(code)
            == "Please accept the trust dialog on the device screen and try again"@,
        code == -19 ==> idevice_ext::lockdownd_words(code)
            == "User denied the trust dialog, please re-plug the device and try again"@,
        code == -6 || code == -15 ==> idevice_ext::lockdownd_words(code)
            == "Device is not paired with this host, please re-plug the device and try again"@,
        ({
            let head = "Cannot connect to lockdownd, error code: "@;
            let words = idevice_ext::lockdownd_words(code);
            code != -17 && code != -18 && code != -19 && code != -6 && code != -15
                ==> text::begins_with(words, head) && text::parsed_i32(
                words.skip(head.len() as int),
            ) == Some(code)
        }),
{
    let head = "Cannot connect to lockdownd, error code: "@;
    let n = text::signed_decimal(code as int);
    numerals::law_signed_numeral_reads_back(code);
    numerals::law_begins(head, n);
    assert((head + n).skip(head.len() as int) =~= n);
}

// ---------------------------------------------------------------------------------------------
// usbmuxd
// ---------------------------------------------------------------------------------------------

/// The bytes of a number in a packet count from the least significant.
pub proof fn law_little_endian(a: u8, b: u8, c: u8, d: u8, rest: Seq<u8>)
    ensures
        device_listener::le32_value(seq![a, b, c, d] + rest) == a + 256 * (b + 256 * (c + 256 * d)),
{
}

/// A serial number of 24 bytes gets a dash behind the eighth, and stays otherwise as it is; any other
/// stays as it is altogether.
pub proof fn law_serial_dashed(serial: Seq<char>)
    requires
        device_listener::can_be_dashed(serial),
    ensures
        vstd::utf8::encode_utf8(serial).len() != 24 ==> device_listener::dashed(serial) == serial,
        vstd::utf8::encode_utf8(serial).len() == 24 ==> exists|head: Seq<char>, tail: Seq<char>|
            #![trigger head + tail]
            serial == head + tail && vstd::utf8::encode_utf8(head).len() == 8
                && device_listener::dashed(serial) == head + seq!['-'] + tail,
{
    let bytes = vstd::utf8::encode_utf8(serial);
    if bytes.len() == 24 {
        vstd::utf8::encode_utf8_valid_utf8(serial);
        vstd::utf8::encode_utf8_decode_utf8(serial);
        vstd::utf8::valid_utf8_split(bytes, 8);
        vstd::utf8::decode_utf8_split(bytes, 8);
        assert(bytes.subrange(0, 8) =~= bytes.take(8));
        assert(bytes.subrange(8, 24) =~= bytes.skip(8));
        let head = vstd::utf8::decode_utf8(bytes.take(8));
        let tail = vstd::utf8::decode_utf8(bytes.skip(8));
        vstd::utf8::decode_utf8_encode_utf8(bytes.take(8));
        reveal_strlit("-");
        assert("-"@ =~= seq!['-']);
        assert(serial == head + tail);
    }
}

/// Whether a number is told in 32 bits with a sign: by its low 32 bits.
pub open spec fn is_low_half(told: i32, num: u64) -> bool {
    num % 0x1_0000_0000 == (if told < 0 {
        told + 0x1_0000_0000
    } else {
        told as int
    })
}

proof fn lemma_low_half(num: u64)
    ensures
        is_low_half(num as i32, num),
{
    assert((num as i32) as u32 == num % 0x1_0000_0000) by (bit_vector);
    let told = num as i32;
    assert(told < 0 ==> told as u32 == told + 0x1_0000_0000) by (bit_vector);
    assert(told >= 0 ==> told as u32 == told) by (bit_vector);
}

/// Word of a device that came tells of it, by the identifier that its serial number gives and by its
/// number; the device is then known under that number, and the others as before. A device without
/// a number has the number zero, and one without a serial number an empty identifier.
pub proof fn law_device_came(ids: Ids, dict: Entries, props: Entries, serial: Seq<char>, num: u64)
    requires
        property_list::lookup(dict, "MessageType"@) == Some(PlistView::Text("Attached"@)),
        property_list::lookup(dict, "Properties"@) == Some(PlistView::Dictionary(props)),
        property_list::string_at(props, "SerialNumber"@) == Some(serial) || (serial
            == Seq::<char>::empty() && property_list::string_at(props, "SerialNumber"@) is None),
        property_list::unsigned_at(props, "DeviceID"@) == Some(num) || (num == 0
            && property_list::unsigned_at(props, "DeviceID"@) is None),
    ensures
        ({
            let p = device_listener::dict_parsed(ids, dict);
            &&& p.outcome matches Ok(Some(EventView::Attached { device_id, device_num }))
                && device_id == device_listener::dashed(serial) && is_low_half(device_num, num)
            &&& p.ids.contains_key(num)
            &&& p.ids[num] == device_listener::dashed(serial)
            &&& p.ids.remove(num) == ids.remove(num)
        }),
{
    reveal_strlit("Result");
    reveal_strlit("Attached");
    assert("Result"@.len() != "Attached"@.len());
    lemma_low_half(num);
    let p = device_listener::dict_parsed(ids, dict);
    assert(p.ids.remove(num) =~= ids.remove(num));
}

/// Word of a device that went tells of it just if it was known under its number, by the identifier
/// under which it was; it is then forgotten.
pub proof fn law_device_went(ids: Ids, dict: Entries, num: u64)
    requires
        property_list::lookup(dict, "MessageType"@) == Some(PlistView::Text("Detached"@)),
        property_list::lookup(dict, "DeviceID"@) == Some(PlistView::Unsigned(num)),
    ensures
        ({
            let p = device_listener::dict_parsed(ids, dict);
            &&& p.ids == ids.remove(num)
            &&& ids.contains_key(num) ==> (p.outcome matches Ok(
                Some(EventView::Detached { device_id, device_num }),
            ) && device_id == ids[num] && is_low_half(device_num, num))
            &&& !ids.contains_key(num) ==> (p.outcome matches Ok(None))
        }),
{
    reveal_strlit("Result");
    reveal_strlit("Attached");
    reveal_strlit("Detached");
    assert("Attached"@[0] == 'A');
    assert("Detached"@[0] == 'D');
    assert("Result"@.len() != "Detached"@.len());
    lemma_low_half(num);
    let p = device_listener::dict_parsed(ids, dict);
    assert(p.ids =~= ids.remove(num));
}

/// A device that is unknown by number, or a message without what it needs, is refused; and no such
/// message changes what is known.
pub proof fn law_incomplete_message(ids: Ids, dict: Entries)
    ensures
        property_list::lookup(dict, "MessageType"@) == Some(PlistView::Text("Attached"@))
            && property_list::dictionary_at(dict, "Properties"@) is None
            ==> device_listener::dict_parsed(ids, dict) == (device_listener::Parsed {
            ids,
            outcome: Err(Failure::Usbmuxd("Missing Properties"@)),
        }),
        property_list::lookup(dict, "MessageType"@) == Some(PlistView::Text("Detached"@))
            && property_list::unsigned_at(dict, "DeviceID"@) is None
            ==> device_listener::dict_parsed(ids, dict) == (device_listener::Parsed {
            ids,
            outcome: Err(Failure::Usbmuxd("Missing DeviceID"@)),
        }),
{
    reveal_strlit("Result");
    reveal_strlit("Attached");
    reveal_strlit("Detached");
    assert("Attached"@[0] == 'A');
    assert("Detached"@[0] == 'D');
    assert("Result"@.len() != "Detached"@.len());
    assert("Result"@.len() != "Attached"@.len());
}

/// The answer to the request is a failure just if its code is not zero, and the failure tells the
/// code. Neither it nor a message of another kind changes what is known.
pub proof fn law_request_answered(ids: Ids, dict: Entries, n: u64)
    ensures
        property_list::lookup(dict, "MessageType"@) == Some(PlistView::Text("Result"@)) ==> {
            let p = device_listener::dict_parsed(ids, dict);
            &&& p.ids == ids
            &&& property_list::lookup(dict, "Number"@) == Some(PlistView::Unsigned(n)) && n != 0
                ==> p.outcome == std::result::Result::<Option<EventView>, Failure>::Err(
                Failure::Usbmuxd("Listen request failed, error code: "@ + text::decimal(n as nat)),
            )
            &&& property_list::unsigned_at(dict, "Number"@) == Some(0u64)
                || property_list::unsigned_at(dict, "Number"@) is None ==> (p.outcome matches Ok(
                None,
            ))
        },
        property_list::string_at(dict, "MessageType"@) != Some("Result"@)
            && property_list::string_at(dict, "MessageType"@) != Some("Attached"@)
            && property_list::string_at(dict, "MessageType"@) != Some("Detached"@)
            ==> device_listener::dict_parsed(ids, dict) == (device_listener::Parsed {
            ids,
            outcome: Ok(None),
        }),
{
    reveal_strlit("Result");
    reveal_strlit("Attached");
    reveal_strlit("Detached");
    assert("Result"@.len() == 6 && "Attached"@.len() == 8 && "Detached"@.len() == 8);
}

/// Text that cannot be read, or is no dictionary, is refused; a dictionary is taken as a message.
pub proof fn law_message_text(ids: Ids, xml: Seq<char>, dict: Entries)
    ensures
        ({
            let read = property_list::plist_read(vstd::utf8::encode_utf8(xml));
            let p = device_listener::message_parsed(ids, xml);
            &&& read is None ==> p == (device_listener::Parsed {
                ids,
                outcome: Err(Failure::PlistThen("plist parsing failed: "@)),
            })
            &&& read matches Some(v) ==> (!(v is Dictionary) ==> p == (device_listener::Parsed {
                ids,
                outcome: Err(Failure::Plist("Not a dictionary type"@)),
            }))
            &&& read == Some(PlistView::Dictionary(dict)) ==> p == device_listener::dict_parsed(
                ids,
                dict,
            )
        }),
{
}

/// A packet is refused if it is shorter than its front, or if it is not as long as it says. One that
/// is no property list of the first version is passed over.
pub proof fn law_packet(ids: Ids, packet: Seq<u8>)
    ensures
        ({
            let p = device_listener::packet_parsed(ids, packet);
            &&& packet.len() < 16 ==> p == (device_listener::Parsed {
                ids,
                outcome: Err(Failure::Usbmuxd("Packet too short"@)),
            })
            &&& packet.len() >= 16 && device_listener::le32_value(packet) != packet.len()
                ==> p.ids == ids && p.outcome is Err
            &&& packet.len() >= 16 && device_listener::le32_value(packet) == packet.len() ==> {
                let version = device_listener::le32_value(packet.skip(4));
                let kind = device_listener::le32_value(packet.skip(8));
                &&& version != 1 || kind != 8 ==> p == (device_listener::Parsed {
                    ids,
                    outcome: Ok(None),
                })
                &&& version == 1 && kind == 8 ==> p == device_listener::message_parsed(
                    ids,
                    text::utf8_lossy(packet.skip(16)),
                )
            }
        }),
{
}

/// A packet that is made of text tells its length, that it is a property list of the first version,
/// and holds the text.
pub proof fn law_packet_made(xml: Seq<char>)
    requires
        16 + vstd::utf8::encode_utf8(xml).len() < 0x1_0000_0000,
    ensures
        ({
            let p = device_listener::plist_packet(xml);
            &&& p.len() == 16 + vstd::utf8::encode_utf8(xml).len()
            &&& device_listener::le32_value(p) == p.len()
            &&& device_listener::le32_value(p.skip(4)) == 1
            &&& device_listener::le32_value(p.skip(8)) == 8
            &&& device_listener::le32_value(p.skip(12)) == 1
            &&& p.skip(16) == vstd::utf8::encode_utf8(xml)
        }),
{
    let body = vstd::utf8::encode_utf8(xml);
    let p = device_listener::plist_packet(xml);
    let n = 16 + body.len();
    device_listener::law_le32_reads_back(n);
    device_listener::law_le32_reads_back(1);
    device_listener::law_le32_reads_back(8);
    assert(p.skip(16) =~= body);
    assert(device_listener::le32_value(p) == device_listener::le32_value(device_listener::le32(n)));
    assert(device_listener::le32_value(p.skip(4)) == device_listener::le32_value(
        device_listener::le32(1),
    ));
    assert(device_listener::le32_value(p.skip(8)) == device_listener::le32_value(
        device_listener::le32(8),
    ));
    assert(device_listener::le32_value(p.skip(12)) == device_listener::le32_value(
        device_listener::le32(1),
    ));
}

// ---------------------------------------------------------------------------------------------
// Pair records
// ---------------------------------------------------------------------------------------------

/// A pair record gives the certificate and the key that stand in it, whatever else does; it is
/// refused if one of them is not there.
pub proof fn law_pair_record(record: Seq<u8>, dict: Entries, cert: Seq<u8>, key: Seq<u8>)
    requires
        property_list::plist_read(record) == Some(PlistView::Dictionary(dict)),
    ensures
        property_list::lookup(dict, "RootCertificate"@) == Some(PlistView::Data(cert))
            && property_list::lookup(dict, "RootPrivateKey"@) == Some(PlistView::Data(key))
            <==> idevice_ext::record_in(record) == std::result::Result::<
            (Seq<u8>, Seq<u8>),
            Failure,
        >::Ok((cert, key)),
        property_list::data_at(dict, "RootCertificate"@) is None ==> idevice_ext::record_in(record)
            == std::result::Result::<(Seq<u8>, Seq<u8>), Failure>::Err(
            Failure::Tls("Missing RootCertificate"@),
        ),
        property_list::data_at(dict, "RootCertificate"@) is Some && property_list::data_at(
            dict,
            "RootPrivateKey"@,
        ) is None ==> idevice_ext::record_in(record) == std::result::Result::<
            (Seq<u8>, Seq<u8>),
            Failure,
        >::Err(Failure::Tls("Missing RootPrivateKey"@)),
{
}

/// Bytes that cannot be read, or are no dictionary, are no pair record.
pub proof fn law_no_pair_record(record: Seq<u8>)
    ensures
        property_list::plist_read(record) is None ==> idevice_ext::record_in(record)
            == std::result::Result::<(Seq<u8>, Seq<u8>), Failure>::Err(
            Failure::PlistThen("Pair record parsing failed: "@),
        ),
        property_list::plist_read(record) matches Some(v) ==> (!(v is Dictionary)
            ==> idevice_ext::record_in(record) == std::result::Result::<
            (Seq<u8>, Seq<u8>),
            Failure,
        >::Err(Failure::Plist("Pair record is not a dictionary"@))),
{
}

/// The identity is made of all certificates that are read in the one text and of the key that is
/// read in the other; it is refused if there is no certificate or no key.
pub proof fn law_identity(cert_pem: Seq<u8>, key_pem: Seq<u8>)
    ensures
        ({
            let made = idevice_ext::identity_in(cert_pem, key_pem);
            &&& made matches Ok(identity) ==> idevice_ext::pem_certs(cert_pem) == Some(
                identity.certs,
            ) && identity.certs.len() > 0 && idevice_ext::pem_key(key_pem) == Some(
                Some(identity.key),
            )
            &&& made is Ok <==> (idevice_ext::pem_certs(cert_pem) matches Some(certs) && certs.len()
                > 0) && (idevice_ext::pem_key(key_pem) matches Some(key) && key is Some)
        }),
{
}

/// A pair record that was had has a code that is not negative and some bytes.
pub proof fn law_record_had(code: i32, size: nat)
    ensures
        idevice_ext::record_refused(code, size) is None <==> code >= 0 && size > 0,
        code < 0 ==> idevice_ext::record_refused(code, size) == Some("Cannot read pair record"@),
        code >= 0 && size == 0 ==> idevice_ext::record_refused(code, size) == Some(
            "Pair record is empty"@,
        ),
{
}

/// The reason is told as it is, behind the words for the place.
pub proof fn law_reason_told(stage: idevice_ext::ConnectStage, a: Seq<char>, b: Seq<char>)
    ensures
        idevice_ext::connect_failed(stage, a) == idevice_ext::connect_failed(stage, b) <==> a == b,
        match idevice_ext::connect_failed(stage, a) {
            Failure::TaskJoin(words) => (stage is FfiTask && words == "FFI task failed: "@ + a) || (
            stage is TlsTask && words == "TLS config task failed: "@ + a),
            Failure::DeviceConnection(words) => (stage is NonBlocking && words
                == "Failed to set non-blocking: "@ + a) || (stage is Stream && words
                == "Failed to convert to tokio TcpStream: "@ + a),
            Failure::Tls(words) => (stage is ServerName && words == "ServerName creation failed: "@
                + a) || (stage is TlsConfig && words == "rustls configuration failed: "@ + a) || (
            stage is TlsHandshake && words == "TLS handshake failed: "@ + a),
            _ => false,
        },
{
    if idevice_ext::connect_failed(stage, a) == idevice_ext::connect_failed(stage, b) {
        let head = match stage {
            idevice_ext::ConnectStage::FfiTask => "FFI task failed: "@,
            idevice_ext::ConnectStage::NonBlocking => "Failed to set non-blocking: "@,
            idevice_ext::ConnectStage::Stream => "Failed to convert to tokio TcpStream: "@,
            idevice_ext::ConnectStage::TlsTask => "TLS config task failed: "@,
            idevice_ext::ConnectStage::ServerName => "ServerName creation failed: "@,
            idevice_ext::ConnectStage::TlsConfig => "rustls configuration failed: "@,
            idevice_ext::ConnectStage::TlsHandshake => "TLS handshake failed: "@,
        };
        assert(head + a == head + b);
        assert((head + a).skip(head.len() as int) =~= a);
        assert((head + b).skip(head.len() as int) =~= b);
    }
}

} // verus!
