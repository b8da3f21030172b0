//! First-match lookup over a sequence.
//!
//! The read-mostly configuration stores of this crate (price feeds, swap
//! rates, supply floors, auction sizes) are association lists read by the
//! first entry that matches; a new entry put in front shadows older ones.

use vstd::prelude::*;

verus! {

/// The first element of `s` satisfying `p`, if any.
pub open spec fn first_match<T>(s: Seq<T>, p: spec_fn(T) -> bool) -> Option<T>
    decreases s.len(),
{
    if s.len() == 0 {
        None
    } else if p(s[0]) {
        Some(s[0])
    } else {
        first_match(s.drop_first(), p)
    }
}

/// Scanning past a non-matching head leaves the first match unchanged.
pub proof fn lemma_first_match_skip<T>(s: Seq<T>, p: spec_fn(T) -> bool, i: int)
    requires
        0 <= i < s.len(),
        !p(s[i]),
    ensures
        first_match(s.subrange(i, s.len() as int), p) == first_match(
            s.subrange(i + 1, s.len() as int),
            p,
        ),
{
    let n = s.len() as int;
    assert(s.subrange(i, n)[0] == s[i]);
    assert(s.subrange(i, n).drop_first() =~= s.subrange(i + 1, n));
}

/// A matching element at `i` with no match before it is the first match.
pub proof fn lemma_first_match_found<T>(s: Seq<T>, p: spec_fn(T) -> bool, i: int)
    requires
        0 <= i < s.len(),
        p(s[i]),
    ensures
        first_match(s.subrange(i, s.len() as int), p) == Some(s[i]),
{
    assert(s.subrange(i, s.len() as int)[0] == s[i]);
}

/// An element put in front is found first; everything else is unchanged.
pub proof fn lemma_first_match_prepend<T>(s: Seq<T>, p: spec_fn(T) -> bool, x: T)
    ensures
        first_match(s.insert(0, x), p) == if p(x) {
            Some(x)
        } else {
            first_match(s, p)
        },
{
    assert(s.insert(0, x)[0] == x);
    assert(s.insert(0, x).drop_first() =~= s);
}

} // verus!
