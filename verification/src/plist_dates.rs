//! The dates in property lists that the `plist` crate does not come back from.
//!
//! That crate turns every date that it reads into UTC and puts it into words, which works for the
//! years 0 to 9999. Most dates outside these years are no dates to it, and reading fails. It panics
//! on the others: on dates before the year 0 in the binary format, and on dates in XML that an
//! offset moves out of these years. [`check_dates`] finds them in the bytes before they are read.
//!
//! In the binary format all objects are looked at, those that no other refers to among them. In XML
//! a date whose content is more than plain text is found unfit, whatever it amounts to.

use crate::seqs;
use vstd::prelude::*;
#[allow(unused_imports)]
use vstd::string::*;

verus! {

// ---------------------------------------------------------------------------------------------
// Bytes
// ---------------------------------------------------------------------------------------------

/// Whether `front` comes first in `s`.
pub open spec fn begins(s: Seq<u8>, front: Seq<u8>) -> bool {
    front.len() <= s.len() && s.take(front.len() as int) == front
}

/// The bytes of a text.
pub open spec fn bytes_of(text: Seq<char>) -> Seq<u8> {
    vstd::utf8::encode_utf8(text)
}

/// The number that bytes denote, the most significant first.
pub open spec fn be_value(b: Seq<u8>) -> nat
    decreases b.len(),
{
    if b.len() == 0 {
        0
    } else {
        be_value(b.drop_last()) * 256 + b.last() as nat
    }
}

/// Whether a byte is among `stops`.
pub open spec fn one_of(stops: Seq<u8>) -> spec_fn(u8) -> bool {
    |b: u8| stops.contains(b)
}

/// Compares bytes.
fn same_bytes(a: &[u8], b: &[u8]) -> (r: bool)
    ensures
        r == (a@ == b@),
{
    if a.len() != b.len() {
        return false;
    }
    let mut i: usize = 0;
    while i < a.len()
        invariant
            i <= a@.len() == b@.len(),
            forall|k: int| 0 <= k < i ==> a@[k] == b@[k],
        decreases a@.len() - i,
    {
        if a[i] != b[i] {
            assert(a@[i as int] != b@[i as int]);
            return false;
        }
        i = i + 1;
    }
    assert(a@ =~= b@);
    true
}

/// Tests whether `front` comes first in `s`.
fn has_front(s: &[u8], front: &[u8]) -> (r: bool)
    ensures
        r == begins(s@, front@),
{
    if front.len() > s.len() {
        return false;
    }
    let head = vstd::slice::slice_subrange(s, 0, front.len());
    assert(head@ =~= s@.take(front@.len() as int));
    same_bytes(head, front)
}

/// Tests whether a byte is among `stops`.
fn is_one_of(b: u8, stops: &[u8]) -> (r: bool)
    ensures
        r == stops@.contains(b),
{
    let mut i: usize = 0;
    while i < stops.len()
        invariant
            i <= stops@.len(),
            forall|k: int| 0 <= k < i ==> stops@[k] != b,
        decreases stops@.len() - i,
    {
        if stops[i] == b {
            assert(stops@[i as int] == b);
            return true;
        }
        i = i + 1;
    }
    false
}

/// The position of the first byte that is among `stops`.
fn find_any(s: &[u8], stops: &[u8]) -> (r: usize)
    ensures
        r == seqs::first_index(s@, one_of(stops@)),
        r <= s@.len(),
{
    let ghost f = one_of(stops@);
    let mut i: usize = 0;
    while i < s.len()
        invariant
            i <= s@.len(),
            f == one_of(stops@),
            forall|k: int| 0 <= k < i ==> !f(#[trigger] s@[k]),
        decreases s@.len() - i,
    {
        let stop = is_one_of(s[i], stops);
        assert(stop == f(s@[i as int]));
        if stop {
            proof {
                seqs::lemma_is_first_index(s@, f, i as int);
            }
            return i;
        }
        i = i + 1;
    }
    proof {
        seqs::lemma_is_first_index(s@, f, i as int);
    }
    i
}

/// How many numbers fit into `n` bytes.
spec fn room(n: nat) -> nat
    decreases n,
{
    if n == 0 {
        1
    } else {
        room((n - 1) as nat) * 256
    }
}

/// A number of at most eight bytes is below two to the power of sixty-four.
proof fn lemma_be_value(b: Seq<u8>)
    ensures
        be_value(b) < room(b.len()),
        b.len() <= 8 ==> be_value(b) <= u64::MAX,
    decreases b.len(),
{
    if b.len() > 0 {
        lemma_be_value(b.drop_last());
    }
    reveal_with_fuel(room, 9);
}

/// Reads a number of at most eight bytes.
fn read_be(b: &[u8]) -> (r: u64)
    requires
        b@.len() <= 8,
    ensures
        r == be_value(b@),
{
    let mut value: u64 = 0;
    let mut i: usize = 0;
    while i < b.len()
        invariant
            i <= b@.len() <= 8,
            value == be_value(b@.take(i as int)),
        decreases b@.len() - i,
    {
        let ghost next = b@.take(i + 1);
        assert(next.drop_last() =~= b@.take(i as int));
        proof {
            lemma_be_value(next);
        }
        value = value * 256 + b[i] as u64;
        i = i + 1;
    }
    assert(b@.take(i as int) =~= b@);
    value
}

// ---------------------------------------------------------------------------------------------
// The binary format
// ---------------------------------------------------------------------------------------------

/// The floating-point number for the seconds from the start of the year 0 to that of 2001, with a
/// minus sign, by its bits.
pub const START_OF_YEAR_0: u64 = 0xc22d_6788_8900_0000;

/// The floating-point number for the seconds from the start of the year -9999 to that of 2001, with
/// a minus sign, by its bits. An earlier date is no date to the `plist` crate, which then fails.
pub const EARLIEST_DATE: u64 = 0xc256_0ad2_9f40_0000;

/// Whether the seconds from the start of 2001, a floating-point number by its bits, lead to a year
/// before the year 0. Among negative numbers, those with larger bits are further from zero.
pub open spec fn before_year_0(bits: nat) -> bool {
    START_OF_YEAR_0 < bits <= EARLIEST_DATE
}

/// The size of an entry in the table of the objects. It is in the trailer, the last 32 bytes.
pub open spec fn entry_size(data: Seq<u8>) -> int {
    data[data.len() - 26] as int
}

/// How many objects there are.
pub open spec fn object_count(data: Seq<u8>) -> int {
    be_value(data.subrange(data.len() - 24, data.len() - 16)) as int
}

/// Where the table of the objects starts.
pub open spec fn table_start(data: Seq<u8>) -> int {
    be_value(data.subrange(data.len() - 8, data.len() as int)) as int
}

/// Whether there is a trailer, and a table in front of it. Nothing is read from other data.
pub open spec fn has_table(data: Seq<u8>) -> bool {
    &&& data.len() >= 32
    &&& entry_size(data) == 1 || entry_size(data) == 2 || entry_size(data) == 3 || entry_size(data)
        == 4 || entry_size(data) == 8
    &&& table_start(data) + object_count(data) * entry_size(data) <= data.len() - 32
}

/// Where the table says that an object is.
pub open spec fn object_at(data: Seq<u8>, i: int) -> int {
    let from = table_start(data) + i * entry_size(data);
    be_value(data.subrange(from, from + entry_size(data))) as int
}

/// Whether a date before the year 0 is there: the mark of a date, and its seconds.
pub open spec fn early_date_at(data: Seq<u8>, at: int) -> bool {
    at < data.len() - 32 && data[at] == 0x33 && before_year_0(
        be_value(data.subrange(at + 1, at + 9)),
    )
}

/// Whether no object is a date before the year 0.
pub open spec fn binary_dates_fit(data: Seq<u8>) -> bool {
    has_table(data) ==> forall|i: int|
        0 <= i < object_count(data) ==> !early_date_at(data, #[trigger] object_at(data, i))
}

/// Tests whether a date before the year 0 is at a place.
fn is_early_date(data: &[u8], at: u64) -> (r: bool)
    requires
        data@.len() >= 32,
    ensures
        r == early_date_at(data@, at as int),
{
    if at >= (data.len() - 32) as u64 {
        return false;
    }
    let at: usize = at as usize;
    if data[at] != 0x33 {
        return false;
    }
    let bits: u64 = read_be(vstd::slice::slice_subrange(data, at + 1, at + 9));
    START_OF_YEAR_0 < bits && bits <= EARLIEST_DATE
}

/// Tests whether no object is a date before the year 0.
fn check_binary(data: &[u8]) -> (r: bool)
    ensures
        r == binary_dates_fit(data@),
{
    let n: usize = data.len();
    if n < 32 {
        return true;
    }
    let size: u8 = data[n - 26];
    let count: u64 = read_be(vstd::slice::slice_subrange(data, n - 24, n - 16));
    let start: u64 = read_be(vstd::slice::slice_subrange(data, n - 8, n));
    if size != 1 && size != 2 && size != 3 && size != 4 && size != 8 {
        return true;
    }
    assert(count * size <= u64::MAX * 8) by (nonlinear_arith)
        requires
            count <= u64::MAX,
            size <= 8,
    ;
    if start as u128 + count as u128 * size as u128 > (n - 32) as u128 {
        return true;
    }
    let mut i: u64 = 0;
    let mut pos: usize = start as usize;
    while i < count
        invariant
            n == data@.len(),
            n >= 32,
            has_table(data@),
            size == entry_size(data@),
            count == object_count(data@),
            start == table_start(data@),
            i <= count,
            pos == start + i * size,
            forall|k: int|
                0 <= k < i ==> !early_date_at(data@, #[trigger] object_at(data@, k)),
        decreases count - i,
    {
        assert((i + 1) * size == i * size + size && (i + 1) * size <= count * size)
            by (nonlinear_arith)
            requires
                i < count,
        ;
        let at: u64 = read_be(vstd::slice::slice_subrange(data, pos, pos + size as usize));
        assert(at == object_at(data@, i as int));
        if is_early_date(data, at) {
            return false;
        }
        pos = pos + size as usize;
        i = i + 1;
    }
    true
}

// ---------------------------------------------------------------------------------------------
// The text formats
// ---------------------------------------------------------------------------------------------

/// `<`
pub const OPENS_TAG: u8 = 0x3c;

/// `>`
pub const CLOSES_TAG: u8 = 0x3e;

/// `/`
pub const SLASH: u8 = 0x2f;

/// `"`
pub const DOUBLE_QUOTE: u8 = 0x22;

/// `'`
pub const SINGLE_QUOTE: u8 = 0x27;

/// Where a tag ends: the first `>` outside quotes, or the end of the bytes. `quote` is the quote
/// that is open.
pub open spec fn tag_end(data: Seq<u8>, at: int, quote: Option<u8>) -> int
    decreases data.len() - at,
{
    if at >= data.len() {
        data.len() as int
    } else {
        match quote {
            Some(q) => tag_end(
                data,
                at + 1,
                if data[at] == q {
                    None
                } else {
                    quote
                },
            ),
            None => if data[at] == CLOSES_TAG {
                at
            } else {
                tag_end(
                    data,
                    at + 1,
                    if data[at] == DOUBLE_QUOTE || data[at] == SINGLE_QUOTE {
                        Some(data[at])
                    } else {
                        None
                    },
                )
            },
        }
    }
}

/// The name in a tag: what stands before the first space.
pub open spec fn tag_name(inner: Seq<u8>) -> Seq<u8> {
    inner.take(seqs::first_index(inner, one_of(bytes_of(" \r\n\t"@))))
}

/// A name without the prefix that ends in a colon.
pub open spec fn local_name(name: Seq<u8>) -> Seq<u8> {
    let colon = seqs::first_index(name, one_of(bytes_of(":"@)));
    if colon < name.len() {
        name.skip(colon + 1)
    } else {
        name
    }
}

/// Whether what stands in a tag opens a date.
pub open spec fn opens_date(inner: Seq<u8>) -> bool {
    &&& inner.len() > 0
    &&& !bytes_of("/!?"@).contains(inner[0])
    &&& inner.last() != SLASH
    &&& local_name(tag_name(inner)) == bytes_of("date"@)
}

/// Whether a date may be outside the years 0 to 9999 in UTC: it is on the first or the last day of
/// these years, and not in UTC. An offset is less than a day.
pub open spec fn may_leave_years(date: Seq<u8>) -> bool {
    &&& begins(date, bytes_of("0000-01-01"@)) || begins(date, bytes_of("9999-12-31"@))
    &&& !bytes_of("Zz"@).contains(date.last())
}

/// Whether a date that has been opened is fit to be read, where `rest` is all that follows: it is
/// never closed, so that reading fails; or its content is plain text, without references, comments
/// and instructions, and does not leave the years 0 to 9999.
pub open spec fn date_fits(rest: Seq<u8>) -> bool {
    let end = seqs::first_index(rest, one_of(bytes_of("<&"@)));
    end == rest.len() || {
        &&& rest[end] == OPENS_TAG
        &&& end + 1 < rest.len() ==> !bytes_of("!?"@).contains(rest[end + 1])
        &&& !may_leave_years(rest.take(end))
    }
}

/// Whether no date that is unfit is opened at a place.
pub open spec fn fits_at(data: Seq<u8>, at: int) -> bool {
    let end = tag_end(data, at + 1, None);
    data[at] == OPENS_TAG && end < data.len() && opens_date(data.subrange(at + 1, end))
        ==> date_fits(data.skip(end + 1))
}

/// Whether no date is unfit.
pub open spec fn text_dates_fit(data: Seq<u8>) -> bool {
    forall|at: int| 0 <= at < data.len() ==> #[trigger] fits_at(data, at)
}

/// Finds the end of a tag.
fn find_tag_end(data: &[u8], from: usize) -> (r: usize)
    requires
        from <= data@.len(),
    ensures
        r == tag_end(data@, from as int, None),
        from <= r <= data@.len(),
{
    let mut quote: Option<u8> = None;
    let mut i: usize = from;
    while i < data.len()
        invariant
            from <= i <= data@.len(),
            tag_end(data@, from as int, None) == tag_end(data@, i as int, quote),
        decreases data@.len() - i,
    {
        let b: u8 = data[i];
        match quote {
            Some(q) => {
                if b == q {
                    quote = None;
                }
            },
            None => {
                if b == CLOSES_TAG {
                    return i;
                }
                if b == DOUBLE_QUOTE || b == SINGLE_QUOTE {
                    quote = Some(b);
                }
            },
        }
        i = i + 1;
    }
    i
}

/// Tests whether what stands in a tag opens a date.
fn is_date_tag(inner: &[u8]) -> (r: bool)
    ensures
        r == opens_date(inner@),
{
    let n: usize = inner.len();
    if n == 0 || is_one_of(inner[0], "/!?".as_bytes()) || inner[n - 1] == SLASH {
        return false;
    }
    let name_end: usize = find_any(inner, " \r\n\t".as_bytes());
    let name = vstd::slice::slice_subrange(inner, 0, name_end);
    assert(name@ =~= tag_name(inner@));
    let colon: usize = find_any(name, ":".as_bytes());
    if colon < name_end {
        let local = vstd::slice::slice_subrange(name, colon + 1, name_end);
        assert(local@ =~= local_name(name@));
        same_bytes(local, "date".as_bytes())
    } else {
        same_bytes(name, "date".as_bytes())
    }
}

/// Tests whether a date that has been opened is fit to be read.
fn check_date(rest: &[u8]) -> (r: bool)
    ensures
        r == date_fits(rest@),
{
    let n: usize = rest.len();
    let end: usize = find_any(rest, "<&".as_bytes());
    if end == n {
        return true;
    }
    if rest[end] != OPENS_TAG || (end + 1 < n && is_one_of(rest[end + 1], "!?".as_bytes())) {
        return false;
    }
    let date = vstd::slice::slice_subrange(rest, 0, end);
    assert(date@ =~= rest@.take(end as int));
    if !has_front(date, "0000-01-01".as_bytes()) && !has_front(date, "9999-12-31".as_bytes()) {
        return true;
    }
    proof {
        reveal_strlit("0000-01-01");
        reveal_strlit("9999-12-31");
        vstd::utf8::is_ascii_chars_encode_utf8("0000-01-01"@);
        vstd::utf8::is_ascii_chars_encode_utf8("9999-12-31"@);
    }
    is_one_of(date[end - 1], "Zz".as_bytes())
}

/// Tests whether no date is unfit.
fn check_text(data: &[u8]) -> (r: bool)
    ensures
        r == text_dates_fit(data@),
{
    let n: usize = data.len();
    let mut at: usize = 0;
    while at < n
        invariant
            n == data@.len(),
            at <= n,
            forall|k: int| 0 <= k < at ==> #[trigger] fits_at(data@, k),
        decreases n - at,
    {
        if data[at] == OPENS_TAG {
            let end: usize = find_tag_end(data, at + 1);
            if end < n {
                let inner = vstd::slice::slice_subrange(data, at + 1, end);
                if is_date_tag(inner) {
                    let rest = vstd::slice::slice_subrange(data, end + 1, n);
                    assert(rest@ =~= data@.skip(end + 1));
                    if !check_date(rest) {
                        assert(!fits_at(data@, at as int));
                        return false;
                    }
                }
            }
        }
        assert(fits_at(data@, at as int));
        at = at + 1;
    }
    true
}

// ---------------------------------------------------------------------------------------------
// All formats
// ---------------------------------------------------------------------------------------------

/// Whether no date in the bytes keeps the `plist` crate from reading them, whatever their format.
pub open spec fn dates_fit(data: Seq<u8>) -> bool {
    if begins(data, bytes_of("bplist00"@)) {
        binary_dates_fit(data)
    } else {
        text_dates_fit(data)
    }
}

/// Tests whether no date in the bytes keeps the `plist` crate from reading them.
pub fn check_dates(data: &[u8]) -> (r: bool)
    ensures
        r == dates_fit(data@),
{
    if has_front(data, "bplist00".as_bytes()) {
        check_binary(data)
    } else {
        check_text(data)
    }
}

} // verus!
