//! Packets, and messages that are split over several of them.

use crate::error::Failure;
use crate::property_list;
use crate::property_list::PlistView;
use crate::rpc::Entries;
use crate::text;
use crate::webinspector;
use crate::webinspector::{Awaited, Decoded};
use vstd::prelude::*;
#[allow(unused_imports)]
use vstd::string::*;

verus! {

/// The bytes of a length count from the most significant.
pub proof fn law_big_endian(a: u8, b: u8, c: u8, d: u8, rest: Seq<u8>)
    ensures
        webinspector::be32_value(seq![a, b, c, d] + rest) == ((a * 256 + b) * 256 + c) * 256 + d,
{
}

/// A packet is its body with the length of it in front, in four bytes.
pub proof fn law_packet(body: Seq<u8>)
    requires
        body.len() < 0x1_0000_0000,
    ensures
        webinspector::packet(body).len() == 4 + body.len(),
        webinspector::be32_value(webinspector::packet(body).take(4)) == body.len(),
        webinspector::packet(body).skip(4) == body,
{
    let p = webinspector::packet(body);
    webinspector::law_be32_reads_back(body.len());
    assert(p.take(4) =~= webinspector::be32(body.len()));
    assert(p.skip(4) =~= body);
}

/// The packets of a message are as many as its bodies, each made of its body.
pub proof fn law_packets(bodies: Seq<Seq<u8>>)
    ensures
        webinspector::packets_of(bodies).len() == bodies.len(),
        forall|i: int|
            0 <= i < bodies.len() ==> #[trigger] webinspector::packets_of(bodies)[i]
                == webinspector::packet(bodies[i]),
{
}

/// A message for a device that takes it whole is one body, with an empty one behind it; for the
/// simulator it is one body alone.
pub proof fn law_whole_message(rpc_bin: Seq<u8>)
    ensures
        webinspector::bodies(true, false, rpc_bin) == seq![rpc_bin],
        webinspector::bodies(false, false, rpc_bin).len() == 2,
        webinspector::bodies(false, false, rpc_bin)[0] == rpc_bin,
        webinspector::bodies(false, false, rpc_bin)[1].len() == 0,
{
}

/// Whether pieces make up a message and are what the bodies carry: all but the last full and marked
/// as followed by another, and the last marked as the last.
pub open spec fn in_pieces(
    pieces: Seq<Seq<u8>>,
    bodies: Seq<Seq<u8>>,
    rpc_bin: Seq<u8>,
) -> bool {
    &&& pieces.len() == bodies.len()
    &&& pieces.len() > 0
    &&& webinspector::stream_of(pieces) == rpc_bin
    &&& pieces.last().len() <= 7596
    &&& forall|i: int| 0 <= i < pieces.len() - 1 ==> (#[trigger] pieces[i]).len() == 7596
    &&& forall|i: int|
        0 <= i < pieces.len() - 1 ==> #[trigger] bodies[i] == property_list::plist_written(
            PlistView::Dictionary(
                seq![("WIRPartialMessageKey"@, PlistView::Data(pieces[i]))],
            ),
        )
    &&& bodies.last() == property_list::plist_written(
        PlistView::Dictionary(seq![("WIRFinalMessageKey"@, PlistView::Data(pieces.last()))]),
    )
}

/// A message for a device that takes it in pieces is cut into pieces that make it up again, and
/// each body carries one of them, in order. It does not matter whether the device is the simulator.
pub proof fn law_message_in_pieces(is_sim: bool, rpc_bin: Seq<u8>)
    ensures
        exists|pieces: Seq<Seq<u8>>|
            in_pieces(pieces, webinspector::bodies(is_sim, true, rpc_bin), rpc_bin),
    decreases rpc_bin.len(),
{
    let bodies = webinspector::bodies(is_sim, true, rpc_bin);
    if rpc_bin.len() > webinspector::MAX_RPC_LEN {
        let first = rpc_bin.take(webinspector::MAX_RPC_LEN as int);
        let rest = rpc_bin.skip(webinspector::MAX_RPC_LEN as int);
        law_message_in_pieces(is_sim, rest);
        let later = webinspector::bodies(is_sim, true, rest);
        let more = choose|pieces: Seq<Seq<u8>>| in_pieces(pieces, later, rest);
        let pieces = seq![first] + more;
        assert(bodies =~= seq![webinspector::partial_body(first)] + later);
        assert(pieces.skip(1) =~= more);
        assert(webinspector::stream_of(pieces) =~= rpc_bin);
        assert(pieces.last() == more.last());
        assert(bodies.last() == later.last());
        assert forall|i: int| 0 <= i < pieces.len() - 1 implies (#[trigger] pieces[i]).len()
            == 7596 by {
            if i > 0 {
                assert(pieces[i] == more[i - 1]);
            }
        }
        assert forall|i: int| 0 <= i < pieces.len() - 1 implies #[trigger] bodies[i]
            == property_list::plist_written(
            PlistView::Dictionary(
                seq![("WIRPartialMessageKey"@, PlistView::Data(pieces[i]))],
            ),
        ) by {
            if i > 0 {
                assert(pieces[i] == more[i - 1]);
                assert(bodies[i] == later[i - 1]);
            }
        }
        assert(in_pieces(pieces, bodies, rpc_bin));
    } else {
        let pieces = seq![rpc_bin];
        assert(pieces.skip(1) =~= Seq::empty());
        assert(webinspector::stream_of(pieces.skip(1)) =~= Seq::empty());
        assert(webinspector::stream_of(pieces) =~= rpc_bin);
        assert(in_pieces(pieces, bodies, rpc_bin));
    }
}

/// A length of at most 64 MiB is accepted as it is; a longer one, and a header that is too short,
/// are refused.
pub proof fn law_length_announced(header: Seq<u8>)
    ensures
        header.len() < 4 ==> webinspector::announced(header) == std::result::Result::<
            nat,
            Failure,
        >::Err(Failure::WebInspector("Insufficient data to parse length"@)),
        header.len() >= 4 && webinspector::be32_value(header) <= 64 * 1024 * 1024
            ==> webinspector::announced(header) == std::result::Result::<nat, Failure>::Ok(
            webinspector::be32_value(header),
        ),
        header.len() >= 4 && webinspector::be32_value(header) > 64 * 1024 * 1024
            ==> webinspector::announced(header) == std::result::Result::<nat, Failure>::Err(
            Failure::WebInspector(
                "Invalid packet header: length "@ + text::decimal(webinspector::be32_value(header))
                    + " exceeds maximum"@,
            ),
        ),
{
}

/// A body that comes whole is the message in it, and nothing is held back on its account; one that
/// cannot be read is refused.
pub proof fn law_whole_body(held: Seq<u8>, body: Seq<u8>, v: PlistView)
    ensures
        property_list::plist_read(body) == Some(v) ==> webinspector::decoded(false, held, body) == (
        Decoded { held, outcome: Ok(Some(v)) }),
        property_list::plist_read(body) is None ==> webinspector::decoded(false, held, body) == (
        Decoded { held, outcome: Err(Failure::PlistThen("plist parsing failed: "@)) }),
        property_list::plist_read(body) is None ==> webinspector::decoded(true, held, body) == (
        Decoded { held, outcome: Err(Failure::PlistThen("plist parsing failed: "@)) }),
{
}

/// A piece that is followed by another is held back behind those before it, and is no message yet.
/// The last piece completes them: together they are the message, and nothing is held back any more.
pub proof fn law_piece_taken(
    held: Seq<u8>,
    body: Seq<u8>,
    dict: Entries,
    piece: Seq<u8>,
    v: PlistView,
)
    requires
        property_list::plist_read(body) == Some(PlistView::Dictionary(dict)),
    ensures
        property_list::lookup(dict, "WIRFinalMessageKey"@) is None && property_list::lookup(
            dict,
            "WIRPartialMessageKey"@,
        ) == Some(PlistView::Data(piece)) ==> webinspector::decoded(true, held, body) == (Decoded {
            held: held + piece,
            outcome: Ok(None),
        }),
        property_list::lookup(dict, "WIRFinalMessageKey"@) == Some(PlistView::Data(piece)) ==> {
            let d = webinspector::decoded(true, held, body);
            &&& d.held.len() == 0
            &&& property_list::plist_read(held + piece) == Some(v) ==> d.outcome
                == std::result::Result::<Option<PlistView>, Failure>::Ok(Some(v))
            &&& property_list::plist_read(held + piece) is None ==> d.outcome
                == std::result::Result::<Option<PlistView>, Failure>::Err(
                Failure::PlistThen("RPC plist parsing failed: "@),
            )
        },
{
}

/// What is no piece is refused, and what is held back stays.
pub proof fn law_no_piece(held: Seq<u8>, body: Seq<u8>, dict: Entries)
    ensures
        property_list::plist_read(body) matches Some(v) ==> (!(v is Dictionary)
            ==> webinspector::decoded(true, held, body) == (Decoded {
            held,
            outcome: Err(Failure::WebInspector("Outer wrapper is not a dictionary"@)),
        })),
        property_list::plist_read(body) == Some(PlistView::Dictionary(dict)) ==> {
            let last = property_list::lookup(dict, "WIRFinalMessageKey"@);
            let part = property_list::lookup(dict, "WIRPartialMessageKey"@);
            &&& last matches Some(x) ==> (!(x is Data) ==> webinspector::decoded(true, held, body)
                == (Decoded {
                held,
                outcome: Err(Failure::WebInspector("WIRFinalMessageKey is not data type"@)),
            }))
            &&& last is None ==> (part matches Some(x) ==> (!(x is Data) ==> webinspector::decoded(
                true,
                held,
                body,
            ) == (Decoded {
                held,
                outcome: Err(Failure::WebInspector("WIRPartialMessageKey is not data type"@)),
            })))
            &&& last is None && part is None ==> webinspector::decoded(true, held, body) == (
            Decoded {
                held,
                outcome: Err(
                    Failure::WebInspector("Missing WIRFinalMessageKey or WIRPartialMessageKey"@),
                ),
            })
        },
{
}

/// A reader that has got a length waits for a body of that length, or for the next length if it is
/// zero; a length that is refused ends it. A reader that has got a body waits for the next length,
/// and passes over what cannot be decoded.
pub proof fn law_reader(partials: bool, held: Seq<u8>, bytes: Seq<u8>, n: usize)
    ensures
        ({
            let f = webinspector::fed(partials, held, Awaited::Header, bytes);
            &&& f.held == held
            &&& webinspector::announced(bytes) matches Ok(k) ==> f.outcome == std::result::Result::<
                Option<PlistView>,
                Failure,
            >::Ok(None) && (k == 0 ==> f.awaited == Awaited::Header) && (k > 0 ==> f.awaited
                == Awaited::Body(k as usize))
            &&& webinspector::announced(bytes) matches Err(e) ==> f.outcome == std::result::Result::<
                Option<PlistView>,
                Failure,
            >::Err(e)
        }),
        ({
            let f = webinspector::fed(partials, held, Awaited::Body(n), bytes);
            let d = webinspector::decoded(partials, held, bytes);
            &&& f.held == d.held
            &&& f.awaited == Awaited::Header
            &&& d.outcome matches Ok(m) ==> f.outcome == std::result::Result::<
                Option<PlistView>,
                Failure,
            >::Ok(m)
            &&& d.outcome is Err ==> f.outcome == std::result::Result::<
                Option<PlistView>,
                Failure,
            >::Ok(None)
        }),
{
}

} // verus!
