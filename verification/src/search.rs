//! The first element of a sequence that satisfies a predicate.
use vstd::prelude::*;

verus! {

/// The index of the first element at or after `from` that satisfies `p`.
pub open spec fn first_match_from<A>(s: Seq<A>, p: spec_fn(A) -> bool, from: int) -> Option<int>
    decreases s.len() - from,
{
    if from < 0 || from >= s.len() {
        None
    } else if p(s[from]) {
        Some(from)
    } else {
        first_match_from(s, p, from + 1)
    }
}

/// The index of the first element of `s` that satisfies `p`.
pub open spec fn first_match<A>(s: Seq<A>, p: spec_fn(A) -> bool) -> Option<int> {
    first_match_from(s, p, 0)
}

/// `first_match_from` finds the least satisfying index at or after `from`,
/// and finds nothing exactly when no such index exists.
pub proof fn lemma_first_match_from<A>(s: Seq<A>, p: spec_fn(A) -> bool, from: int)
    requires
        0 <= from,
    ensures
        match first_match_from(s, p, from) {
            Some(i) => from <= i < s.len() && p(s[i]) && forall|j: int| from <= j < i ==> !p(#[trigger] s[j]),
            None => forall|j: int| from <= j < s.len() ==> !p(#[trigger] s[j]),
        },
    decreases s.len() - from,
{
    if from < s.len() && !p(s[from]) {
        lemma_first_match_from(s, p, from + 1);
    }
}

/// `first_match` finds the least satisfying index, and finds nothing exactly
/// when no element satisfies `p`.
pub proof fn lemma_first_match<A>(s: Seq<A>, p: spec_fn(A) -> bool)
    ensures
        match first_match(s, p) {
            Some(i) => 0 <= i < s.len() && p(s[i]) && forall|j: int| 0 <= j < i ==> !p(#[trigger] s[j]),
            None => forall|j: int| 0 <= j < s.len() ==> !p(#[trigger] s[j]),
        },
{
    lemma_first_match_from(s, p, 0);
}

/// An index that satisfies `p` and has no satisfying index before it is the first match.
pub proof fn lemma_first_match_is<A>(s: Seq<A>, p: spec_fn(A) -> bool, i: int)
    requires
        0 <= i < s.len(),
        p(s[i]),
        forall|j: int| 0 <= j < i ==> !p(#[trigger] s[j]),
    ensures
        first_match(s, p) == Some(i),
{
    lemma_first_match(s, p);
    match first_match(s, p) {
        Some(k) => {
            if k < i {
                assert(!p(s[k]));
            } else if k > i {
                assert(!p(s[i]));
            }
        },
        None => {
            assert(!p(s[i]));
        },
    }
}

/// When no element satisfies `p`, there is no first match.
pub proof fn lemma_first_match_none<A>(s: Seq<A>, p: spec_fn(A) -> bool)
    requires
        forall|j: int| 0 <= j < s.len() ==> !p(#[trigger] s[j]),
    ensures
        first_match(s, p) is None,
{
    lemma_first_match(s, p);
    if let Some(k) = first_match(s, p) {
        assert(!p(s[k]));
    }
}

} // verus!
