//! Searching in sequences.

use vstd::prelude::*;

verus! {

/// The position of the first item that `f` holds of, or the length if there is none.
pub open spec fn first_index<A>(s: Seq<A>, f: spec_fn(A) -> bool) -> int
    decreases s.len(),
{
    if s.len() == 0 || f(s[0]) {
        0
    } else {
        1 + first_index(s.skip(1), f)
    }
}

/// The first position is in range, `f` holds there if it is not the length, and nowhere before.
pub proof fn lemma_first_index<A>(s: Seq<A>, f: spec_fn(A) -> bool)
    ensures
        0 <= first_index(s, f) <= s.len(),
        first_index(s, f) < s.len() ==> f(s[first_index(s, f)]),
        forall|k: int| 0 <= k < first_index(s, f) ==> !f(#[trigger] s[k]),
    decreases s.len(),
{
    if s.len() != 0 && !f(s[0]) {
        let rest = s.skip(1);
        lemma_first_index(rest, f);
        let p = first_index(s, f);
        assert(p < s.len() ==> rest[p - 1] == s[p]);
        assert forall|k: int| 0 <= k < p implies !f(#[trigger] s[k]) by {
            if k > 0 {
                assert(rest[k - 1] == s[k]);
            }
        }
    }
}

/// A position before which `f` never holds, and where it holds or the sequence ends, is the first.
pub proof fn lemma_is_first_index<A>(s: Seq<A>, f: spec_fn(A) -> bool, i: int)
    requires
        0 <= i <= s.len(),
        i < s.len() ==> f(s[i]),
        forall|k: int| 0 <= k < i ==> !f(#[trigger] s[k]),
    ensures
        first_index(s, f) == i,
{
    lemma_first_index(s, f);
    let p = first_index(s, f);
    if p < i {
        assert(!f(s[p]));
    } else if i < p {
        assert(!f(s[i]));
    }
}

} // verus!
