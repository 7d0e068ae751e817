//! Numerals, searches and pieces of text.

use crate::text;
use vstd::prelude::*;
#[allow(unused_imports)]
use vstd::string::*;

verus! {

/// The numeral of a number is read as that number, and has no zero in front.
pub proof fn law_numeral_reads_back(n: nat)
    ensures
        text::numeral(text::decimal(n)) == Some(n),
        n > 0 ==> text::decimal(n)[0] != '0',
        n <= u32::MAX ==> text::parsed_u32(text::decimal(n)) == Some(n as u32),
        n <= i32::MAX ==> text::parsed_i32(text::decimal(n)) == Some(n as i32),
        forall|i: int|
            0 <= i < text::decimal(n).len() ==> '0' <= #[trigger] text::decimal(n)[i] <= '9',
    decreases n,
{
    let s = text::decimal(n);
    if n < 10 {
        assert(s.drop_last() =~= Seq::empty());
        assert(text::digits_value(s.drop_last()) == 0);
        assert(s.last() == text::digit(n as int));
    } else {
        law_numeral_reads_back(n / 10);
        let before = text::decimal(n / 10);
        assert(s.drop_last() =~= before);
        assert(s[0] == before[0]);
        assert forall|i: int| 0 <= i < s.len() implies text::is_digit(#[trigger] s[i]) by {
            if i < before.len() {
                assert(s[i] == before[i]);
            }
        }
    }
    assert(text::is_digit(s[0]));
    assert forall|i: int| 0 <= i < s.len() implies '0' <= #[trigger] s[i] <= '9' by {
        assert(text::is_digit(s[i]));
    }
}

/// No two numbers have the same numeral.
pub proof fn law_numerals_differ(a: nat, b: nat)
    ensures
        text::decimal(a) == text::decimal(b) ==> a == b,
{
    law_numeral_reads_back(a);
    law_numeral_reads_back(b);
}

/// A negative number is read back from its numeral too.
pub proof fn law_signed_numeral_reads_back(i: i32)
    ensures
        text::parsed_i32(text::signed_decimal(i as int)) == Some(i),
        i < 0 <==> text::signed_decimal(i as int)[0] == '-',
{
    if i < 0 {
        let s = text::signed_decimal(i as int);
        law_numeral_reads_back((-(i as int)) as nat);
        assert(s.skip(1) =~= text::decimal((-(i as int)) as nat));
    } else {
        law_numeral_reads_back(i as nat);
    }
}

/// A digit behind a numeral makes it ten times as much and that digit; text that has anything but
/// digits is no numeral, and neither is empty text.
pub proof fn law_numeral_in_base_ten(s: Seq<char>, c: char)
    ensures
        '0' <= c <= '9' ==> text::numeral(seq![c]) == Some((c as int - '0' as int) as nat),
        '0' <= c <= '9' ==> (text::numeral(s) matches Some(v) ==> text::numeral(s.push(c)) == Some(
            (10 * v + (c as int - '0' as int)) as nat,
        )),
        !('0' <= c <= '9') ==> text::numeral(s.push(c)) is None,
        text::numeral(Seq::empty()) is None,
{
    let one = seq![c];
    let more = s.push(c);
    assert(one.drop_last() =~= Seq::empty());
    assert(text::digits_value(one.drop_last()) == 0);
    assert(more.drop_last() =~= s);
    if '0' <= c <= '9' {
        assert(text::is_digit(one[0]));
        assert(text::all_digits(one));
        if text::numeral(s) is Some {
            assert forall|i: int| 0 <= i < more.len() implies text::is_digit(#[trigger] more[i]) by {
                if i < s.len() {
                    assert(more[i] == s[i]);
                }
            }
        }
    } else {
        assert(!text::is_digit(more[more.len() - 1]));
    }
}

/// Text without a character is one piece; two texts with it between them are the pieces of both.
pub proof fn law_split(a: Seq<char>, b: Seq<char>, c: char)
    ensures
        !a.contains(c) ==> text::split_on(a, c) == seq![a],
        text::split_on(a + seq![c] + b, c) == text::split_on(a, c) + text::split_on(b, c),
    decreases a.len() + b.len(),
{
    if !a.contains(c) {
        if a.len() > 0 {
            assert(a.last() == a[a.len() - 1]);
            assert(!a.drop_last().contains(c)) by {
                if a.drop_last().contains(c) {
                    let k = choose|k: int| 0 <= k < a.drop_last().len() && a.drop_last()[k] == c;
                    assert(a[k] == c);
                }
            }
            law_split(a.drop_last(), Seq::empty(), c);
            let before = text::split_on(a.drop_last(), c);
            assert(before.last().push(a.last()) =~= a);
            assert(text::split_on(a, c) =~= seq![a]);
        } else {
            assert(a =~= Seq::empty());
            assert(text::split_on(a, c) =~= seq![a]);
        }
    }
    let s = a + seq![c] + b;
    if b.len() == 0 {
        assert(s.drop_last() =~= a);
        assert(text::split_on(s, c) =~= text::split_on(a, c) + text::split_on(b, c));
    } else {
        assert(s.drop_last() =~= a + seq![c] + b.drop_last());
        law_split(a, b.drop_last(), c);
        lemma_some_piece(b.drop_last(), c);
        assert(s.last() == b.last());
        assert(text::split_on(s, c) =~= text::split_on(a, c) + text::split_on(b, c));
    }
}

/// There is always a piece.
proof fn lemma_some_piece(s: Seq<char>, c: char)
    ensures
        text::split_on(s, c).len() > 0,
    decreases s.len(),
{
    if s.len() > 0 {
        lemma_some_piece(s.drop_last(), c);
    }
}

/// The pieces of text, put together again, are the text.
pub proof fn law_split_and_joined(s: Seq<char>, c: char)
    ensures
        text::joined(text::split_on(s, c), seq![c]) == s,
        forall|i: int|
            0 <= i < text::split_on(s, c).len() ==> !(#[trigger] text::split_on(s, c)[i]).contains(
                c,
            ),
    decreases s.len(),
{
    let pieces = text::split_on(s, c);
    if s.len() == 0 {
        assert(pieces[0] =~= s);
    } else {
        let d = s.drop_last();
        let before = text::split_on(d, c);
        law_split_and_joined(d, c);
        lemma_some_piece(d, c);
        if s.last() == c {
            assert(pieces.drop_last() =~= before);
            assert(text::joined(pieces, seq![c]) =~= s);
            assert forall|i: int| 0 <= i < pieces.len() implies !(#[trigger] pieces[i]).contains(
                c,
            ) by {
                if i < before.len() {
                    assert(pieces[i] == before[i]);
                }
            }
        } else {
            assert(pieces.drop_last() =~= before.drop_last());
            assert(pieces.last() == before.last().push(s.last()));
            assert(text::joined(pieces, seq![c]) =~= text::joined(before, seq![c]).push(s.last()));
            assert(text::joined(pieces, seq![c]) =~= s);
            assert forall|i: int| 0 <= i < pieces.len() implies !(#[trigger] pieces[i]).contains(
                c,
            ) by {
                if i < before.len() - 1 {
                    assert(pieces[i] == before[i]);
                } else {
                    let last = before[before.len() - 1];
                    assert(!last.contains(c));
                    assert forall|k: int| 0 <= k < pieces[i].len() implies pieces[i][k] != c by {
                        if k < last.len() {
                            assert(last[k] != c);
                        }
                    }
                }
            }
        }
    }
}

/// Lists that are joined one after the other are joined with the separator between them.
pub proof fn law_joined(a: Seq<Seq<char>>, b: Seq<Seq<char>>, x: Seq<char>, sep: Seq<char>)
    ensures
        text::joined(Seq::empty(), sep) == Seq::<char>::empty(),
        text::joined(seq![x], sep) == x,
        a.len() > 0 && b.len() > 0 ==> text::joined(a + b, sep) == text::joined(a, sep) + sep
            + text::joined(b, sep),
    decreases b.len(),
{
    if a.len() > 0 && b.len() > 0 {
        let all = a + b;
        assert(all.drop_last() =~= a + b.drop_last());
        assert(all.last() == b.last());
        if b.len() == 1 {
            assert(all.drop_last() =~= a);
        } else {
            law_joined(a, b.drop_last(), x, sep);
            assert(text::joined(all, sep) =~= text::joined(a, sep) + sep + text::joined(b, sep));
        }
    }
}

/// What stands behind the last occurrence of a character does not hold it, and with what stands in
/// front it is the text.
pub proof fn law_last(a: Seq<char>, b: Seq<char>, c: char)
    requires
        !b.contains(c),
    ensures
        text::last_position(a + seq![c] + b, c) == a.len(),
        text::after_last(a + seq![c] + b, c) == b,
        text::last_position(b, c) == -1,
        text::after_last(b, c) == b,
{
    let s = a + seq![c] + b;
    let p = text::last_position(s, c);
    text::lemma_last_position(s, c);
    text::lemma_last_position(b, c);
    let q = text::last_position(b, c);
    if q >= 0 {
        assert(b[q] == c);
    }
    assert(s[a.len() as int] == c);
    if p > a.len() {
        assert(s[p] == b[p - a.len() - 1]);
    }
    assert(text::after_last(s, c) =~= b);
    assert(text::after_last(b, c) =~= b);
}

/// Text begins with what was put in front of it; and text that begins with something is that and
/// the rest.
pub proof fn law_begins(front: Seq<char>, rest: Seq<char>)
    ensures
        text::begins_with(front + rest, front),
        text::begins_with(rest, front) ==> rest == front + rest.skip(front.len() as int),
{
    assert((front + rest).take(front.len() as int) =~= front);
    if text::begins_with(rest, front) {
        assert(rest =~= rest.take(front.len() as int) + rest.skip(front.len() as int));
    }
}

/// Texts agree but for case if they are as long as each other and differ, if at all, in an ASCII
/// letter that is large in one and small in the other.
pub proof fn law_ignoring_case(a: Seq<char>, b: Seq<char>)
    ensures
        text::same_ignoring_case(a, b) <==> (a.len() == b.len() && forall|i: int|
            0 <= i < a.len() ==> (#[trigger] a[i] == b[i] || ('a' <= a[i] <= 'z' && b[i] as int + 32
                == a[i] as int) || ('A' <= a[i] <= 'Z' && b[i] as int - 32 == a[i] as int))),
{
    if text::same_ignoring_case(a, b) {
        assert forall|i: int| 0 <= i < a.len() implies #[trigger] a[i] == b[i] || ('a' <= a[i]
            <= 'z' && b[i] as int + 32 == a[i] as int) || ('A' <= a[i] <= 'Z' && b[i] as int - 32
            == a[i] as int) by {
            assert(text::ascii_lower(a[i]) == text::ascii_lower(b[i]));
        }
    }
}

/// Two neighbours that are the same are found wherever they are, and not otherwise.
pub proof fn law_pair(a: Seq<char>, b: Seq<char>, s: Seq<char>, c: char)
    ensures
        text::has_pair(a + seq![c, c] + b, c),
        !s.contains(c) ==> !text::has_pair(s, c),
{
    let all = a + seq![c, c] + b;
    assert(all[a.len() as int] == c && all[a.len() as int + 1] == c);
}

} // verus!
