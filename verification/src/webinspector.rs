//! The WebInspector protocol: packets with a length in front, and messages split over several of
//! them where the device asks for that.

use crate::error;
use crate::error::{Error, Failure, Result};
use crate::plist_dates;
use crate::property_list;
use crate::property_list::{PlistValue, PlistView};
use crate::rpc;
use crate::text;
use vstd::prelude::*;
#[allow(unused_imports)]
use vstd::string::*;

verus! {

/// The longest piece of a message that is put into one packet.
pub const MAX_RPC_LEN: usize = 8096 - 500;

/// The longest packet body that is accepted.
pub const MAX_BODY_LENGTH: usize = 0x400_0000;

// ---------------------------------------------------------------------------------------------
// Packets
// ---------------------------------------------------------------------------------------------

/// The low 32 bits of `n` as four bytes, the most significant first.
pub open spec fn be32(n: nat) -> Seq<u8> {
    seq![
        (n / 0x100_0000 % 256) as u8,
        (n / 0x1_0000 % 256) as u8,
        (n / 0x100 % 256) as u8,
        (n % 256) as u8,
    ]
}

/// The number that four bytes denote, the most significant first.
pub open spec fn be32_value(b: Seq<u8>) -> nat {
    (b[0] as nat) * 0x100_0000 + (b[1] as nat) * 0x1_0000 + (b[2] as nat) * 0x100 + (b[3] as nat)
}

/// A packet: the length of its body, then its body.
pub open spec fn packet(body: Seq<u8>) -> Seq<u8> {
    be32(body.len()) + body
}

/// Reading what was written gives the number back.
pub proof fn law_be32_reads_back(n: nat)
    requires
        n < 0x1_0000_0000,
    ensures
        be32(n).len() == 4,
        be32_value(be32(n)) == n,
{
    let a = n / 0x100_0000;
    let b = n / 0x1_0000;
    let c = n / 0x100;
    assert(b == a * 256 + b % 256) by {
        assert(b / 256 == a);
    }
    assert(c == b * 256 + c % 256) by {
        assert(c / 256 == b);
    }
    assert(n == c * 256 + n % 256);
}

/// A message wrapped for sending in pieces: one entry, whose key tells whether more follows.
pub open spec fn wrapped(key: Seq<char>, piece: Seq<u8>) -> PlistView {
    PlistView::Dictionary(seq![(key, PlistView::Data(piece))])
}

/// The bytes of a piece of a message that is followed by another.
pub open spec fn partial_body(piece: Seq<u8>) -> Seq<u8> {
    property_list::plist_written(wrapped("WIRPartialMessageKey"@, piece))
}

/// The bytes of the last piece of a message.
pub open spec fn final_body(piece: Seq<u8>) -> Seq<u8> {
    property_list::plist_written(wrapped("WIRFinalMessageKey"@, piece))
}

/// The bodies of the packets of a message that is sent in pieces: as long as there is more than
/// fits into one packet, a full piece, then the rest.
pub open spec fn piece_bodies(rpc_bin: Seq<u8>) -> Seq<Seq<u8>>
    decreases rpc_bin.len(),
{
    if rpc_bin.len() > MAX_RPC_LEN {
        seq![partial_body(rpc_bin.take(MAX_RPC_LEN as int))] + piece_bodies(
            rpc_bin.skip(MAX_RPC_LEN as int),
        )
    } else {
        seq![final_body(rpc_bin)]
    }
}

/// The bodies of the packets that carry a message. A device that takes messages whole gets an
/// empty packet after it; the simulator does not.
pub open spec fn bodies(is_sim: bool, partials_supported: bool, rpc_bin: Seq<u8>) -> Seq<Seq<u8>> {
    if partials_supported {
        piece_bodies(rpc_bin)
    } else if is_sim {
        seq![rpc_bin]
    } else {
        seq![rpc_bin, Seq::empty()]
    }
}

/// The packets with given bodies.
pub open spec fn packets_of(bodies: Seq<Seq<u8>>) -> Seq<Seq<u8>> {
    Seq::new(bodies.len(), |i: int| packet(bodies[i]))
}

/// The views of a list of byte vectors.
pub open spec fn bytes_view(v: Seq<Vec<u8>>) -> Seq<Seq<u8>> {
    Seq::new(v.len(), |i: int| v[i]@)
}

/// The bytes of a list of packets, one after the other.
pub open spec fn stream_of(packets: Seq<Seq<u8>>) -> Seq<u8>
    decreases packets.len(),
{
    if packets.len() == 0 {
        Seq::empty()
    } else {
        packets[0] + stream_of(packets.skip(1))
    }
}

// ---------------------------------------------------------------------------------------------
// Receiving
// ---------------------------------------------------------------------------------------------

/// What becomes of a packet body: the pieces held back afterwards, and the message that is now
/// complete, if any.
pub struct Decoded {
    pub held: Seq<u8>,
    pub outcome: std::result::Result<Option<PlistView>, Failure>,
}

/// The message that complete bytes hold, where nothing is held back any more.
pub open spec fn complete(bytes: Seq<u8>) -> Decoded {
    Decoded {
        held: Seq::empty(),
        outcome: match property_list::plist_read(bytes) {
            Some(v) => Ok(Some(v)),
            None => Err(Failure::PlistThen("RPC plist parsing failed: "@)),
        },
    }
}

/// What becomes of a packet body when `held` is what was held back so far. A partial piece is
/// appended to it; a final one completes it.
pub open spec fn decoded(partials_supported: bool, held: Seq<u8>, body: Seq<u8>) -> Decoded {
    match property_list::plist_read(body) {
        None => Decoded { held, outcome: Err(Failure::PlistThen("plist parsing failed: "@)) },
        Some(value) => if !partials_supported {
            Decoded { held, outcome: Ok(Some(value)) }
        } else {
            match value.dictionary() {
                None => Decoded {
                    held,
                    outcome: Err(Failure::WebInspector("Outer wrapper is not a dictionary"@)),
                },
                Some(dict) => match property_list::lookup(dict, "WIRFinalMessageKey"@) {
                    Some(rpc) => match rpc.data() {
                        None => Decoded {
                            held,
                            outcome: Err(
                                Failure::WebInspector("WIRFinalMessageKey is not data type"@),
                            ),
                        },
                        Some(piece) => complete(held + piece),
                    },
                    None => match property_list::lookup(dict, "WIRPartialMessageKey"@) {
                        Some(rpc) => match rpc.data() {
                            None => Decoded {
                                held,
                                outcome: Err(
                                    Failure::WebInspector("WIRPartialMessageKey is not data type"@),
                                ),
                            },
                            Some(piece) => Decoded { held: held + piece, outcome: Ok(None) },
                        },
                        None => Decoded {
                            held,
                            outcome: Err(
                                Failure::WebInspector(
                                    "Missing WIRFinalMessageKey or WIRPartialMessageKey"@,
                                ),
                            ),
                        },
                    },
                },
            }
        },
    }
}

/// The bytes that a packet body completes, if it holds the last piece of a message: those held back
/// so far, and the piece.
pub open spec fn completed(partials_supported: bool, held: Seq<u8>, body: Seq<u8>) -> Option<
    Seq<u8>,
> {
    if !partials_supported {
        None
    } else {
        match property_list::plist_read(body) {
            Some(value) => match value.dictionary() {
                Some(dict) => match property_list::data_at(dict, "WIRFinalMessageKey"@) {
                    Some(piece) => Some(held + piece),
                    None => None,
                },
                None => None,
            },
            None => None,
        }
    }
}

/// Whether a packet body can be decoded: no date keeps it, or the message that it completes, from
/// being read.
pub open spec fn body_fits(partials_supported: bool, held: Seq<u8>, body: Seq<u8>) -> bool {
    &&& plist_dates::dates_fit(body)
    &&& completed(partials_supported, held, body) matches Some(bytes) ==> plist_dates::dates_fit(
        bytes,
    )
}

/// Whether the bodies of packets can be decoded, one after the other.
pub open spec fn bodies_fit(partials_supported: bool, held: Seq<u8>, bodies: Seq<Seq<u8>>) -> bool
    decreases bodies.len(),
{
    if bodies.len() == 0 {
        true
    } else if bodies[0].len() == 0 {
        bodies_fit(partials_supported, held, bodies.skip(1))
    } else {
        body_fits(partials_supported, held, bodies[0]) && bodies_fit(
            partials_supported,
            decoded(partials_supported, held, bodies[0]).held,
            bodies.skip(1),
        )
    }
}

/// What a receiver has made of the bytes that it was given.
pub struct Heard {
    /// The pieces held back.
    pub held: Seq<u8>,
    /// The messages, in order.
    pub messages: Seq<PlistView>,
    /// The bytes that were not enough for another packet.
    pub rest: Seq<u8>,
}

/// What a receiver makes of a stream of bytes. It reads a length, then a body of that length; an
/// empty body says nothing; a body that holds no message is passed over; a length beyond the limit
/// ends it.
pub open spec fn heard(partials_supported: bool, held: Seq<u8>, stream: Seq<u8>) -> Heard
    decreases stream.len(),
{
    if stream.len() < 4 {
        Heard { held, messages: Seq::empty(), rest: stream }
    } else {
        let n = be32_value(stream.take(4));
        if n > MAX_BODY_LENGTH || stream.len() < 4 + n {
            Heard { held, messages: Seq::empty(), rest: stream }
        } else if n == 0 {
            heard(partials_supported, held, stream.skip(4))
        } else {
            let d = decoded(partials_supported, held, stream.subrange(4, 4 + n as int));
            let after = heard(partials_supported, d.held, stream.skip(4 + n as int));
            match d.outcome {
                Ok(Some(m)) => Heard { messages: seq![m] + after.messages, ..after },
                _ => after,
            }
        }
    }
}

/// What a receiver makes of the bodies of packets, one after the other, however long they are.
pub open spec fn bodies_decoded(
    partials_supported: bool,
    held: Seq<u8>,
    bodies: Seq<Seq<u8>>,
) -> (Seq<u8>, Seq<PlistView>)
    decreases bodies.len(),
{
    if bodies.len() == 0 {
        (held, Seq::empty())
    } else if bodies[0].len() == 0 {
        bodies_decoded(partials_supported, held, bodies.skip(1))
    } else {
        let d = decoded(partials_supported, held, bodies[0]);
        let (after, messages) = bodies_decoded(partials_supported, d.held, bodies.skip(1));
        match d.outcome {
            Ok(Some(m)) => (after, seq![m] + messages),
            _ => (after, messages),
        }
    }
}

/// The message that bytes hold, if they hold one.
pub open spec fn message_held(rpc_bin: Seq<u8>) -> Seq<PlistView> {
    match property_list::plist_read(rpc_bin) {
        Some(v) => seq![v],
        None => Seq::empty(),
    }
}

/// Whether no body is longer than a receiver accepts.
pub open spec fn within_limit(bodies: Seq<Seq<u8>>) -> bool {
    forall|i: int| 0 <= i < bodies.len() ==> (#[trigger] bodies[i]).len() <= MAX_BODY_LENGTH
}

/// Whether the property lists that carry the pieces of a message are read back as written, with no
/// date in them.
pub open spec fn pieces_read_back(rpc_bin: Seq<u8>) -> bool
    decreases rpc_bin.len(),
{
    if rpc_bin.len() > MAX_RPC_LEN {
        let piece = rpc_bin.take(MAX_RPC_LEN as int);
        &&& property_list::plist_read(partial_body(piece)) == Some(
            wrapped("WIRPartialMessageKey"@, piece),
        )
        &&& plist_dates::dates_fit(partial_body(piece))
        &&& partial_body(piece).len() > 0
        &&& pieces_read_back(rpc_bin.skip(MAX_RPC_LEN as int))
    } else {
        &&& property_list::plist_read(final_body(rpc_bin)) == Some(
            wrapped("WIRFinalMessageKey"@, rpc_bin),
        )
        &&& plist_dates::dates_fit(final_body(rpc_bin))
        &&& final_body(rpc_bin).len() > 0
    }
}

/// What is heard when a message comes first and `after` is what is heard of the rest: the message,
/// if it can be read, and then the rest.
pub open spec fn first_heard(rpc_bin: Seq<u8>, after: Heard) -> Heard {
    match property_list::plist_read(rpc_bin) {
        Some(v) => Heard { messages: seq![v] + after.messages, ..after },
        None => after,
    }
}

/// A packet at the front of a stream is read as one.
proof fn lemma_heard_packet(partials: bool, held: Seq<u8>, body: Seq<u8>, rest: Seq<u8>)
    requires
        body.len() <= MAX_BODY_LENGTH,
    ensures
        body.len() == 0 ==> heard(partials, held, packet(body) + rest) == heard(
            partials,
            held,
            rest,
        ),
        body.len() > 0 ==> heard(partials, held, packet(body) + rest) == ({
            let d = decoded(partials, held, body);
            let after = heard(partials, d.held, rest);
            match d.outcome {
                Ok(Some(m)) => Heard { messages: seq![m] + after.messages, ..after },
                _ => after,
            }
        }),
{
    let stream = packet(body) + rest;
    law_be32_reads_back(body.len());
    assert(stream.take(4) =~= be32(body.len()));
    assert(stream.subrange(4, 4 + body.len() as int) =~= body);
    assert(stream.skip(4 + body.len() as int) =~= rest);
}

/// The first of several packets is at the front of their stream.
proof fn lemma_stream_front(first: Seq<u8>, more: Seq<Seq<u8>>, rest: Seq<u8>)
    ensures
        stream_of(seq![first] + more) + rest == first + (stream_of(more) + rest),
{
    let all = seq![first] + more;
    assert(all.skip(1) =~= more);
    assert(stream_of(all) == all[0] + stream_of(all.skip(1)));
    assert(stream_of(all) + rest =~= first + (stream_of(more) + rest));
}

/// Pieces that are read back add up to the message.
proof fn lemma_pieces_add_up(held: Seq<u8>, rpc_bin: Seq<u8>, rest: Seq<u8>)
    requires
        pieces_read_back(rpc_bin),
        within_limit(piece_bodies(rpc_bin)),
    ensures
        heard(true, held, stream_of(packets_of(piece_bodies(rpc_bin))) + rest) == first_heard(
            held + rpc_bin,
            heard(true, Seq::empty(), rest),
        ),
    decreases rpc_bin.len(),
{
    reveal_strlit("WIRPartialMessageKey");
    reveal_strlit("WIRFinalMessageKey");
    let all = piece_bodies(rpc_bin);
    let more = packets_of(all.skip(1));
    assert(packets_of(all) =~= seq![packet(all[0])] + more);
    assert(all[0].len() <= MAX_BODY_LENGTH);
    lemma_stream_front(packet(all[0]), more, rest);
    lemma_heard_packet(true, held, all[0], stream_of(more) + rest);
    if rpc_bin.len() > MAX_RPC_LEN {
        let piece = rpc_bin.take(MAX_RPC_LEN as int);
        let later = rpc_bin.skip(MAX_RPC_LEN as int);
        assert(all.skip(1) =~= piece_bodies(later));
        assert forall|i: int| 0 <= i < piece_bodies(later).len() implies (
        #[trigger] piece_bodies(later)[i]).len() <= MAX_BODY_LENGTH by {
            assert(piece_bodies(later)[i] == all[i + 1]);
        }
        lemma_pieces_add_up(held + piece, later, rest);
        assert(held + piece + later =~= held + rpc_bin);
        let dict = wrapped("WIRPartialMessageKey"@, piece).dictionary().unwrap();
        assert("WIRPartialMessageKey"@.len() != "WIRFinalMessageKey"@.len());
        assert(property_list::lookup(dict.skip(1), "WIRFinalMessageKey"@) is None);
        assert(property_list::lookup(dict, "WIRFinalMessageKey"@) is None);
        assert(property_list::lookup(dict, "WIRPartialMessageKey"@) == Some(PlistView::Data(piece)));
    } else {
        assert(more =~= Seq::empty());
        assert(stream_of(more) + rest =~= rest);
        let dict = wrapped("WIRFinalMessageKey"@, rpc_bin).dictionary().unwrap();
        assert(property_list::lookup(dict, "WIRFinalMessageKey"@) == Some(
            PlistView::Data(rpc_bin),
        ));
    }
}

/// Pieces that are read back are decoded to the message that they make up.
proof fn lemma_pieces_decoded(held: Seq<u8>, rpc_bin: Seq<u8>)
    requires
        pieces_read_back(rpc_bin),
    ensures
        bodies_decoded(true, held, piece_bodies(rpc_bin)) == (
            Seq::<u8>::empty(),
            message_held(held + rpc_bin),
        ),
        plist_dates::dates_fit(held + rpc_bin) ==> bodies_fit(true, held, piece_bodies(rpc_bin)),
    decreases rpc_bin.len(),
{
    reveal_strlit("WIRPartialMessageKey");
    reveal_strlit("WIRFinalMessageKey");
    let all = piece_bodies(rpc_bin);
    if rpc_bin.len() > MAX_RPC_LEN {
        let piece = rpc_bin.take(MAX_RPC_LEN as int);
        let later = rpc_bin.skip(MAX_RPC_LEN as int);
        assert(all.skip(1) =~= piece_bodies(later));
        lemma_pieces_decoded(held + piece, later);
        assert(held + piece + later =~= held + rpc_bin);
        let dict = wrapped("WIRPartialMessageKey"@, piece).dictionary().unwrap();
        assert("WIRPartialMessageKey"@.len() != "WIRFinalMessageKey"@.len());
        assert(property_list::lookup(dict.skip(1), "WIRFinalMessageKey"@) is None);
        assert(property_list::lookup(dict, "WIRFinalMessageKey"@) is None);
        assert(property_list::lookup(dict, "WIRPartialMessageKey"@) == Some(
            PlistView::Data(piece),
        ));
    } else {
        let dict = wrapped("WIRFinalMessageKey"@, rpc_bin).dictionary().unwrap();
        assert(property_list::lookup(dict, "WIRFinalMessageKey"@) == Some(
            PlistView::Data(rpc_bin),
        ));
        let d = decoded(true, held, all[0]);
        assert(all.skip(1) =~= Seq::empty());
        assert(bodies_decoded(true, d.held, all.skip(1)).1 =~= Seq::empty());
        assert(bodies_fit(true, d.held, all.skip(1)));
        assert(bodies_decoded(true, held, all).1 =~= message_held(held + rpc_bin));
    }
}

/// A message that is taken whole is decoded as it was sent.
proof fn lemma_whole_decoded(is_sim: bool, rpc_bin: Seq<u8>)
    requires
        rpc_bin.len() > 0,
    ensures
        bodies_decoded(false, Seq::empty(), bodies(is_sim, false, rpc_bin)) == (
            Seq::<u8>::empty(),
            message_held(rpc_bin),
        ),
        plist_dates::dates_fit(rpc_bin) ==> bodies_fit(
            false,
            Seq::empty(),
            bodies(is_sim, false, rpc_bin),
        ),
{
    let all = bodies(is_sim, false, rpc_bin);
    let rest = all.skip(1);
    let none: Seq<u8> = Seq::empty();
    if !is_sim {
        assert(rest[0] =~= none);
        assert(rest.skip(1) =~= Seq::empty());
        assert(bodies_decoded(false, none, rest.skip(1)).1 =~= Seq::empty());
        assert(bodies_decoded(false, none, rest) == bodies_decoded(false, none, rest.skip(1)));
        assert(bodies_fit(false, none, rest.skip(1)));
    } else {
        assert(rest =~= Seq::empty());
    }
    assert(bodies_decoded(false, Seq::empty(), rest).1 =~= Seq::empty());
    assert(bodies_fit(false, none, rest));
    assert(decoded(false, none, all[0]).held == none);
    assert(bodies_decoded(false, Seq::empty(), all).1 =~= message_held(rpc_bin));
}

/// A message that is taken whole is heard as it was sent.
proof fn lemma_whole_is_heard(is_sim: bool, rpc_bin: Seq<u8>, rest: Seq<u8>)
    requires
        0 < rpc_bin.len() <= MAX_BODY_LENGTH,
    ensures
        heard(
            false,
            Seq::empty(),
            stream_of(packets_of(bodies(is_sim, false, rpc_bin))) + rest,
        ) == first_heard(rpc_bin, heard(false, Seq::empty(), rest)),
{
    let all = bodies(is_sim, false, rpc_bin);
    let more = packets_of(all.skip(1));
    assert(packets_of(all) =~= seq![packet(rpc_bin)] + more);
    lemma_stream_front(packet(rpc_bin), more, rest);
    lemma_heard_packet(false, Seq::empty(), rpc_bin, stream_of(more) + rest);
    if is_sim {
        assert(more =~= Seq::empty());
        assert(stream_of(more) + rest =~= rest);
    } else {
        let none: Seq<Seq<u8>> = Seq::empty();
        assert(more =~= seq![packet(Seq::empty())] + none);
        lemma_stream_front(packet(Seq::empty()), none, rest);
        lemma_heard_packet(false, Seq::empty(), Seq::empty(), stream_of(none) + rest);
        assert(stream_of(none) + rest =~= rest);
    }
}

/// A received event.
#[derive(Debug)]
pub enum WiEvent {
    /// A complete message.
    RecvPlist(PlistValue),
}

/// Where an I/O operation on the connection failed.
pub enum WiStage {
    Header,
    Body,
    Write,
    Flush,
}

/// The words before those of the I/O error.
pub open spec fn stage_words(stage: WiStage) -> Seq<char> {
    match stage {
        WiStage::Header => "Failed to read length header: "@,
        WiStage::Body => "Failed to read message body: "@,
        WiStage::Write => "Write failed: "@,
        WiStage::Flush => "Flush failed: "@,
    }
}

/// The error that ends a connection when I/O on it fails.
pub fn io_failure(stage: WiStage, e: &std::io::Error) -> (r: Error)
    ensures
        exists|words: String| #[trigger]
            to_string_from_display_ensures::<std::io::Error>(e, words) && r.says(
                Failure::WebInspector(stage_words(stage) + words@),
            ),
{
    let words = e.to_string();
    let heading = match stage {
        WiStage::Header => "Failed to read length header: ",
        WiStage::Body => "Failed to read message body: ",
        WiStage::Write => "Write failed: ",
        WiStage::Flush => "Flush failed: ",
    };
    Error::WebInspector(error::prefixed(heading, words.as_str()))
}

/// Puts messages into packets and takes them out again.
pub struct WebInspectorCodec {
    /// Whether the other side is the simulator.
    pub is_sim: bool,
    /// Whether messages are split into pieces.
    pub partials_supported: bool,
    /// The pieces held back until the message is complete.
    pub partial_buffer: Vec<u8>,
}

/// What a length header announces.
pub open spec fn announced(header: Seq<u8>) -> std::result::Result<nat, Failure> {
    if header.len() < 4 {
        Err(Failure::WebInspector("Insufficient data to parse length"@))
    } else if be32_value(header) > MAX_BODY_LENGTH {
        Err(
            Failure::WebInspector(
                "Invalid packet header: length "@ + text::decimal(be32_value(header))
                    + " exceeds maximum"@,
            ),
        )
    } else {
        Ok(be32_value(header))
    }
}

fn wi_error(m: &str) -> (e: Error)
    ensures
        e.says(Failure::WebInspector(m@)),
{
    Error::WebInspector(m.to_owned())
}

impl WebInspectorCodec {
    /// A codec that holds nothing back yet.
    pub fn new(is_sim: bool, partials_supported: bool) -> (r: Self)
        ensures
            r.is_sim == is_sim,
            r.partials_supported == partials_supported,
            r.partial_buffer@ == Seq::<u8>::empty(),
    {
        WebInspectorCodec { is_sim, partials_supported, partial_buffer: Vec::new() }
    }

    /// A packet with the given body.
    pub fn build_packet(data: &[u8]) -> (r: Vec<u8>)
        ensures
            r@ == packet(data@),
    {
        let data_len: usize = data.len();
        let mut out: Vec<u8> = Vec::new();
        out.push((data_len / 0x100_0000 % 256) as u8);
        out.push((data_len / 0x1_0000 % 256) as u8);
        out.push((data_len / 0x100 % 256) as u8);
        out.push((data_len % 256) as u8);
        assert(out@ =~= be32(data@.len()));
        out.extend_from_slice(data);
        assert(out@ =~= packet(data@));
        out
    }

    /// The packets that carry a message. Decoding their bodies gives the message back, however long
    /// they are. A receiver with the same setting that holds nothing back hears that message, and
    /// then whatever follows, as long as no body is beyond what it accepts.
    pub fn encode_plist(&self, rpc_bin: &[u8]) -> (r: Vec<Vec<u8>>)
        ensures
            bytes_view(r@) == packets_of(bodies(self.is_sim, self.partials_supported, rpc_bin@)),
            self.partials_supported ==> pieces_read_back(rpc_bin@),
            rpc_bin@.len() > 0 || self.partials_supported ==> bodies_decoded(
                self.partials_supported,
                Seq::empty(),
                bodies(self.is_sim, self.partials_supported, rpc_bin@),
            ) == (Seq::<u8>::empty(), message_held(rpc_bin@)),
            plist_dates::dates_fit(rpc_bin@) && (rpc_bin@.len() > 0 || self.partials_supported)
                ==> bodies_fit(
                self.partials_supported,
                Seq::empty(),
                bodies(self.is_sim, self.partials_supported, rpc_bin@),
            ),
            rpc_bin@.len() > 0 && within_limit(
                bodies(self.is_sim, self.partials_supported, rpc_bin@),
            ) ==> forall|rest: Seq<u8>|
                #[trigger] heard(
                    self.partials_supported,
                    Seq::empty(),
                    stream_of(bytes_view(r@)) + rest,
                ) == first_heard(rpc_bin@, heard(self.partials_supported, Seq::empty(), rest)),
    {
        let mut packets: Vec<Vec<u8>> = Vec::new();
        if !self.partials_supported {
            packets.push(Self::build_packet(rpc_bin));
            if !self.is_sim {
                let empty: Vec<u8> = Vec::new();
                packets.push(Self::build_packet(empty.as_slice()));
            }
            proof {
                let b = bodies(self.is_sim, self.partials_supported, rpc_bin@);
                assert(bytes_view(packets@) =~= packets_of(b));
                if rpc_bin@.len() > 0 {
                    lemma_whole_decoded(self.is_sim, rpc_bin@);
                }
                if rpc_bin@.len() > 0 && within_limit(b) {
                    assert(b[0].len() <= MAX_BODY_LENGTH);
                    assert forall|rest: Seq<u8>|
                        #[trigger] heard(
                            false,
                            Seq::empty(),
                            stream_of(bytes_view(packets@)) + rest,
                        ) == first_heard(rpc_bin@, heard(false, Seq::empty(), rest)) by {
                        lemma_whole_is_heard(self.is_sim, rpc_bin@, rest);
                    }
                }
            }
            return packets;
        }
        let mut offset: usize = 0;
        let ghost done: Seq<Seq<u8>> = Seq::empty();
        assert(rpc_bin@.skip(0) =~= rpc_bin@);
        assert(done + piece_bodies(rpc_bin@.skip(0)) =~= piece_bodies(rpc_bin@));
        while rpc_bin.len() - offset > MAX_RPC_LEN
            invariant
                offset <= rpc_bin@.len(),
                bytes_view(packets@) =~= packets_of(done),
                done + piece_bodies(rpc_bin@.skip(offset as int)) =~= piece_bodies(rpc_bin@),
                pieces_read_back(rpc_bin@.skip(offset as int)) ==> pieces_read_back(rpc_bin@),
            decreases rpc_bin@.len() - offset,
        {
            let ghost left = rpc_bin@.skip(offset as int);
            let chunk_end: usize = offset + MAX_RPC_LEN;
            let chunk = vstd::slice::slice_subrange(rpc_bin, offset, chunk_end);
            assert(chunk@ =~= left.take(MAX_RPC_LEN as int));
            assert(left.skip(MAX_RPC_LEN as int) =~= rpc_bin@.skip(chunk_end as int));
            let data = wrap("WIRPartialMessageKey", chunk);
            let ghost earlier = packets@;
            packets.push(Self::build_packet(data.as_slice()));
            proof {
                let before = done;
                done = done.push(data@);
                assert(bytes_view(packets@) =~= bytes_view(earlier).push(packet(data@)));
                assert(packets_of(done) =~= packets_of(before).push(packet(data@)));
                assert(done + piece_bodies(rpc_bin@.skip(chunk_end as int)) =~= before
                    + piece_bodies(left));
            }
            offset = chunk_end;
        }
        let ghost left = rpc_bin@.skip(offset as int);
        let chunk = vstd::slice::slice_subrange(rpc_bin, offset, rpc_bin.len());
        assert(chunk@ =~= left);
        let data = wrap("WIRFinalMessageKey", chunk);
        let ghost earlier = packets@;
        packets.push(Self::build_packet(data.as_slice()));
        proof {
            assert(bytes_view(packets@) =~= bytes_view(earlier).push(packet(data@)));
            assert(packets_of(done.push(data@)) =~= packets_of(done).push(packet(data@)));
            assert(piece_bodies(rpc_bin@) =~= done.push(data@));
            assert(bytes_view(packets@) =~= packets_of(piece_bodies(rpc_bin@)));
            lemma_pieces_decoded(Seq::empty(), rpc_bin@);
            assert(Seq::<u8>::empty() + rpc_bin@ =~= rpc_bin@);
            if within_limit(piece_bodies(rpc_bin@)) {
                assert forall|rest: Seq<u8>|
                    #[trigger] heard(
                        true,
                        Seq::empty(),
                        stream_of(bytes_view(packets@)) + rest,
                    ) == first_heard(rpc_bin@, heard(true, Seq::empty(), rest)) by {
                    lemma_pieces_add_up(Seq::empty(), rpc_bin@, rest);
                    assert(Seq::<u8>::empty() + rpc_bin@ =~= rpc_bin@);
                }
            }
        }
        packets
    }

    /// Reads a length header.
    pub fn parse_length(buf: &[u8]) -> (r: Result<usize>)
        ensures
            match announced(buf@) {
                Ok(n) => r matches Ok(t) && t == n,
                Err(f) => r matches Err(e) && e.says(f),
            },
    {
        if buf.len() < 4 {
            return Err(wi_error("Insufficient data to parse length"));
        }
        let length: u64 = (buf[0] as u64) * 0x100_0000 + (buf[1] as u64) * 0x1_0000 + (
        buf[2] as u64) * 0x100 + (buf[3] as u64);
        if length > MAX_BODY_LENGTH as u64 {
            let mut m = "Invalid packet header: length ".to_owned();
            m.append(text::u64_text(length).as_str());
            m.append(" exceeds maximum");
            return Err(Error::WebInspector(m));
        }
        Ok(length as usize)
    }

    /// The length of the body to read after a header, if there is one to read: an empty packet
    /// has none.
    pub fn body_to_read(header: &[u8]) -> (r: Result<Option<usize>>)
        ensures
            match announced(header@) {
                Ok(n) => r matches Ok(t) && t == (if n == 0 {
                    None
                } else {
                    Some(n as usize)
                }),
                Err(f) => r matches Err(e) && e.says(f),
            },
    {
        let n = Self::parse_length(header)?;
        if n == 0 {
            Ok(None)
        } else {
            Ok(Some(n))
        }
    }

    /// Tests whether a packet body can be decoded.
    pub fn can_decode(&self, body: &[u8]) -> (r: bool)
        ensures
            r == body_fits(self.partials_supported, self.partial_buffer@, body@),
    {
        if !plist_dates::check_dates(body) {
            return false;
        }
        if !self.partials_supported {
            return true;
        }
        match rpc::read_plist(body, "") {
            Ok(value) => match value.as_dictionary() {
                Some(dict) => match property_list::get_data(dict, "WIRFinalMessageKey") {
                    Some(piece) => {
                        let mut full: Vec<u8> = Vec::new();
                        full.extend_from_slice(self.partial_buffer.as_slice());
                        full.extend_from_slice(piece.as_slice());
                        assert(full@ =~= self.partial_buffer@ + piece@);
                        plist_dates::check_dates(full.as_slice())
                    },
                    None => true,
                },
                None => true,
            },
            Err(_) => true,
        }
    }

    /// Takes a packet body: a message if one is complete now, nothing if more pieces are to come.
    pub fn parse_plist(&mut self, data: &[u8]) -> (r: Result<Option<PlistValue>>)
        requires
            body_fits(old(self).partials_supported, old(self).partial_buffer@, data@),
        ensures
            final(self).is_sim == old(self).is_sim,
            final(self).partials_supported == old(self).partials_supported,
            final(self).partial_buffer@ == decoded(
                old(self).partials_supported,
                old(self).partial_buffer@,
                data@,
            ).held,
            match decoded(old(self).partials_supported, old(self).partial_buffer@, data@).outcome {
                Ok(Some(v)) => r matches Ok(Some(t)) && t@ == v,
                Ok(None) => r matches Ok(None),
                Err(f) => r matches Err(e) && e.says(f),
            },
    {
        let value = rpc::read_plist(data, "plist parsing failed: ")?;
        if !self.partials_supported {
            return Ok(Some(value));
        }
        let dict = match value.as_dictionary() {
            Some(d) => d,
            None => return Err(wi_error("Outer wrapper is not a dictionary")),
        };
        if let Some(rpc_value) = property_list::get(dict, "WIRFinalMessageKey") {
            let piece = match rpc_value.as_data() {
                Some(d) => d,
                None => return Err(wi_error("WIRFinalMessageKey is not data type")),
            };
            let mut full: Vec<u8> = Vec::new();
            std::mem::swap(&mut full, &mut self.partial_buffer);
            full.extend_from_slice(piece.as_slice());
            assert(full@ =~= old(self).partial_buffer@ + piece@);
            let message = rpc::read_plist(full.as_slice(), "RPC plist parsing failed: ")?;
            Ok(Some(message))
        } else if let Some(rpc_value) = property_list::get(dict, "WIRPartialMessageKey") {
            let piece = match rpc_value.as_data() {
                Some(d) => d,
                None => return Err(wi_error("WIRPartialMessageKey is not data type")),
            };
            self.partial_buffer.extend_from_slice(piece.as_slice());
            assert(self.partial_buffer@ =~= old(self).partial_buffer@ + piece@);
            Ok(None)
        } else {
            Err(wi_error("Missing WIRFinalMessageKey or WIRPartialMessageKey"))
        }
    }

    /// Takes a packet body and makes an event of a complete message.
    pub fn decode_body(&mut self, body: &[u8]) -> (r: Result<Option<WiEvent>>)
        requires
            body_fits(old(self).partials_supported, old(self).partial_buffer@, body@),
        ensures
            final(self).is_sim == old(self).is_sim,
            final(self).partials_supported == old(self).partials_supported,
            final(self).partial_buffer@ == decoded(
                old(self).partials_supported,
                old(self).partial_buffer@,
                body@,
            ).held,
            match decoded(old(self).partials_supported, old(self).partial_buffer@, body@).outcome {
                Ok(Some(v)) => r matches Ok(Some(WiEvent::RecvPlist(t))) && t@ == v,
                Ok(None) => r matches Ok(None),
                Err(f) => r matches Err(e) && e.says(f),
            },
    {
        match self.parse_plist(body)? {
            Some(value) => Ok(Some(WiEvent::RecvPlist(value))),
            None => Ok(None),
        }
    }
}

/// The bytes of a property list with one entry, data under `key`.
fn wrap(key: &str, piece: &[u8]) -> (r: Vec<u8>)
    ensures
        r@ == property_list::plist_written(wrapped(key@, piece@)),
        property_list::plist_read(r@) == Some(wrapped(key@, piece@)),
        plist_dates::dates_fit(r@),
        r@.len() > 0,
{
    let mut dict: Vec<(String, PlistValue)> = Vec::new();
    dict.push((key.to_owned(), PlistValue::Data(vstd::slice::slice_to_vec(piece))));
    let value = PlistValue::Dictionary(dict);
    assert(property_list::entries_view(dict@) =~= seq![(key@, PlistView::Data(piece@))]);
    rpc::plist_to_bin(&value)
}

// ---------------------------------------------------------------------------------------------
// Reading packet by packet
// ---------------------------------------------------------------------------------------------

/// What a reader waits for.
#[derive(Debug, Clone, Copy, PartialEq, Eq, Structural)]
pub enum Awaited {
    /// The four bytes of a length.
    Header,
    /// A body of this many bytes.
    Body(usize),
}

/// Takes the bytes of a connection, a header or a body at a time.
pub struct WiReader {
    pub codec: WebInspectorCodec,
    pub awaited: Awaited,
}

/// What a reader makes of the bytes that it waited for.
pub struct Fed {
    pub held: Seq<u8>,
    pub awaited: Awaited,
    pub outcome: std::result::Result<Option<PlistView>, Failure>,
}

/// What a reader makes of the bytes that it waited for. A header tells what comes next: a body, or
/// another header if the body is empty. A length beyond the limit ends it. A body that cannot be
/// decoded is passed over.
pub open spec fn fed(
    partials_supported: bool,
    held: Seq<u8>,
    awaited: Awaited,
    bytes: Seq<u8>,
) -> Fed {
    match awaited {
        Awaited::Header => match announced(bytes) {
            Ok(n) => Fed {
                held,
                awaited: if n == 0 {
                    Awaited::Header
                } else {
                    Awaited::Body(n as usize)
                },
                outcome: Ok(None),
            },
            Err(f) => Fed { held, awaited, outcome: Err(f) },
        },
        Awaited::Body(_) => {
            let d = decoded(partials_supported, held, bytes);
            Fed {
                held: d.held,
                awaited: Awaited::Header,
                outcome: match d.outcome {
                    Ok(m) => Ok(m),
                    Err(_) => Ok(None),
                },
            }
        },
    }
}

/// Whether a reader can take the bytes that it waited for.
pub open spec fn can_be_fed(
    partials_supported: bool,
    held: Seq<u8>,
    awaited: Awaited,
    bytes: Seq<u8>,
) -> bool {
    awaited is Body ==> body_fits(partials_supported, held, bytes)
}

impl WiReader {
    /// A reader at the start of a connection.
    pub fn new(is_sim: bool, partials_supported: bool) -> (r: Self)
        ensures
            r.codec.is_sim == is_sim,
            r.codec.partials_supported == partials_supported,
            r.codec.partial_buffer@ == Seq::<u8>::empty(),
            r.awaited == Awaited::Header,
    {
        WiReader {
            codec: WebInspectorCodec::new(is_sim, partials_supported),
            awaited: Awaited::Header,
        }
    }

    /// How many bytes are to be read next.
    pub fn wanted(&self) -> (r: usize)
        ensures
            r == (match self.awaited {
                Awaited::Header => 4,
                Awaited::Body(n) => n,
            }),
    {
        match self.awaited {
            Awaited::Header => 4,
            Awaited::Body(n) => n,
        }
    }

    /// Where I/O fails, if reading those bytes does.
    pub fn stage(&self) -> (r: WiStage)
        ensures
            r is Header <==> self.awaited is Header,
            r is Body <==> self.awaited is Body,
    {
        match self.awaited {
            Awaited::Header => WiStage::Header,
            Awaited::Body(_) => WiStage::Body,
        }
    }

    /// Takes the bytes that were waited for: a message if one is complete now. An error ends the
    /// connection.
    pub fn feed(&mut self, bytes: &[u8]) -> (r: Result<Option<WiEvent>>)
        requires
            can_be_fed(
                old(self).codec.partials_supported,
                old(self).codec.partial_buffer@,
                old(self).awaited,
                bytes@,
            ),
        ensures
            final(self).codec.is_sim == old(self).codec.is_sim,
            final(self).codec.partials_supported == old(self).codec.partials_supported,
            ({
                let f = fed(
                    old(self).codec.partials_supported,
                    old(self).codec.partial_buffer@,
                    old(self).awaited,
                    bytes@,
                );
                &&& final(self).codec.partial_buffer@ == f.held
                &&& final(self).awaited == f.awaited
                &&& match f.outcome {
                    Ok(Some(v)) => r matches Ok(Some(WiEvent::RecvPlist(t))) && t@ == v,
                    Ok(None) => r matches Ok(None),
                    Err(f) => r matches Err(e) && e.says(f),
                }
            }),
    {
        match self.awaited {
            Awaited::Header => {
                match WebInspectorCodec::body_to_read(bytes)? {
                    Some(n) => {
                        self.awaited = Awaited::Body(n);
                    },
                    None => {},
                }
                Ok(None)
            },
            Awaited::Body(_) => {
                self.awaited = Awaited::Header;
                match self.codec.decode_body(bytes) {
                    Ok(event) => Ok(event),
                    Err(_) => Ok(None),
                }
            },
        }
    }

    /// Takes the bytes that were waited for, if no date keeps them from being read. Otherwise
    /// nothing is taken.
    pub fn try_feed(&mut self, bytes: &[u8]) -> (r: Option<Result<Option<WiEvent>>>)
        ensures
            if can_be_fed(
                old(self).codec.partials_supported,
                old(self).codec.partial_buffer@,
                old(self).awaited,
                bytes@,
            ) {
                let f = fed(
                    old(self).codec.partials_supported,
                    old(self).codec.partial_buffer@,
                    old(self).awaited,
                    bytes@,
                );
                &&& final(self).codec.is_sim == old(self).codec.is_sim
                &&& final(self).codec.partials_supported == old(self).codec.partials_supported
                &&& final(self).codec.partial_buffer@ == f.held
                &&& final(self).awaited == f.awaited
                &&& match f.outcome {
                    Ok(Some(v)) => r matches Some(Ok(Some(WiEvent::RecvPlist(t)))) && t@ == v,
                    Ok(None) => r matches Some(Ok(None)),
                    Err(f) => r matches Some(Err(e)) && e.says(f),
                }
            } else {
                r is None && *final(self) == *old(self)
            },
    {
        let fits = match self.awaited {
            Awaited::Header => true,
            Awaited::Body(_) => self.codec.can_decode(bytes),
        };
        if fits {
            Some(self.feed(bytes))
        } else {
            None
        }
    }
}

/// A reader hears what there is to hear in a stream: what it makes of the first header, and of the
/// body that the header announces, and then of the rest, is what is heard of the stream.
pub proof fn law_reader_hears(partials_supported: bool, held: Seq<u8>, stream: Seq<u8>)
    requires
        stream.len() >= 4,
        announced(stream.take(4)) matches Ok(n) && stream.len() >= 4 + n,
    ensures
        ({
            let header = fed(partials_supported, held, Awaited::Header, stream.take(4));
            let n = be32_value(stream.take(4)) as int;
            match header.awaited {
                Awaited::Header => n == 0 && heard(partials_supported, held, stream) == heard(
                    partials_supported,
                    header.held,
                    stream.skip(4),
                ),
                Awaited::Body(k) => {
                    let body = fed(
                        partials_supported,
                        header.held,
                        header.awaited,
                        stream.subrange(4, 4 + k),
                    );
                    let after = heard(partials_supported, body.held, stream.skip(4 + k));
                    let all = heard(partials_supported, held, stream);
                    &&& k == n
                    &&& body.awaited == Awaited::Header
                    &&& all.held == after.held
                    &&& all.rest == after.rest
                    &&& all.messages == (match body.outcome {
                        Ok(Some(m)) => seq![m] + after.messages,
                        _ => after.messages,
                    })
                },
            }
        }),
{
}

} // verus!
