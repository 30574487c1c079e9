//! Linear scans over sequences: the first element satisfying a predicate,
//! and how first-match and filter behave under the registry's two mutations,
//! appending an element and updating one element in place.

use vstd::prelude::*;

verus! {

/// The first element of `s` that satisfies `p`, if any. This is what every
/// linear scan in the registry returns.
pub open spec fn first_match<T>(s: Seq<T>, p: spec_fn(T) -> bool) -> Option<T>
    decreases s.len(),
{
    if s.len() == 0 {
        None
    } else if p(s[0]) {
        Some(s[0])
    } else {
        first_match(s.drop_first(), p)
    }
}

/// A scan that stops at position `k`, having passed no earlier match, has
/// found the first match.
pub proof fn lemma_first_match_found<T>(s: Seq<T>, p: spec_fn(T) -> bool, k: int)
    requires
        0 <= k < s.len(),
        p(s[k]),
        forall|j: int| 0 <= j < k ==> !p(s[j]),
    ensures
        first_match(s, p) == Some(s[k]),
    decreases k,
{
    if k > 0 {
        assert(forall|j: int| 0 <= j < k - 1 ==> s.drop_first()[j] == s[j + 1]);
        lemma_first_match_found(s.drop_first(), p, k - 1);
    }
}

/// A scan that passed every element without a match found none.
pub proof fn lemma_first_match_none<T>(s: Seq<T>, p: spec_fn(T) -> bool)
    requires
        forall|j: int| 0 <= j < s.len() ==> !p(s[j]),
    ensures
        first_match(s, p) is None,
    decreases s.len(),
{
    if s.len() > 0 {
        assert(forall|j: int| 0 <= j < s.len() - 1 ==> s.drop_first()[j] == s[j + 1]);
        lemma_first_match_none(s.drop_first(), p);
    }
}

/// Appending an element changes a first match only where there was none.
pub proof fn lemma_first_match_push<T>(s: Seq<T>, p: spec_fn(T) -> bool, x: T)
    ensures
        first_match(s.push(x), p) == match first_match(s, p) {
            Some(t) => Some(t),
            None => if p(x) {
                Some(x)
            } else {
                None::<T>
            },
        },
    decreases s.len(),
{
    if s.len() == 0 {
        assert(s.push(x)[0] == x);
        if p(x) {
            assert(first_match(s.push(x), p) == Some(x));
        } else {
            assert(s.push(x).drop_first() =~= Seq::<T>::empty());
            assert(first_match(s.push(x), p) == first_match(s.push(x).drop_first(), p));
        }
    } else {
        assert(s.push(x)[0] == s[0]);
        if p(s[0]) {
            assert(first_match(s.push(x), p) == Some(s[0]));
        } else {
            assert(s.push(x).drop_first() =~= s.drop_first().push(x));
            assert(first_match(s.push(x), p) == first_match(s.drop_first().push(x), p));
            lemma_first_match_push(s.drop_first(), p, x);
        }
    }
}

/// Replacing the element at a scan's stopping point with another match makes
/// the replacement the first match.
pub proof fn lemma_first_match_update_here<T>(s: Seq<T>, p: spec_fn(T) -> bool, i: int, x: T)
    requires
        0 <= i < s.len(),
        forall|j: int| 0 <= j < i ==> !p(s[j]),
        p(x),
    ensures
        first_match(s.update(i, x), p) == Some(x),
    decreases i,
{
    if i == 0 {
        assert(s.update(i, x)[0] == x);
    } else {
        assert(!p(s.update(i, x)[0]));
        assert(s.update(i, x).drop_first() =~= s.drop_first().update(i - 1, x));
        assert(forall|j: int| 0 <= j < i - 1 ==> s.drop_first()[j] == s[j + 1]);
        lemma_first_match_update_here(s.drop_first(), p, i - 1, x);
    }
}

/// Replacing a non-match with another non-match leaves every first match as
/// it was.
pub proof fn lemma_first_match_update_other<T>(s: Seq<T>, p: spec_fn(T) -> bool, i: int, x: T)
    requires
        0 <= i < s.len(),
        !p(s[i]),
        !p(x),
    ensures
        first_match(s.update(i, x), p) == first_match(s, p),
    decreases s.len(),
{
    if i == 0 {
        assert(s.update(i, x)[0] == x);
        assert(s.update(i, x).drop_first() =~= s.drop_first());
    } else {
        assert(s.update(i, x)[0] == s[0]);
        if !p(s[0]) {
            assert(s.update(i, x).drop_first() =~= s.drop_first().update(i - 1, x));
            lemma_first_match_update_other(s.drop_first(), p, i - 1, x);
        }
    }
}

/// Filtering an extended sequence keeps the old selection and appends the new
/// element exactly when it passes.
pub proof fn lemma_filter_push<T>(s: Seq<T>, p: spec_fn(T) -> bool, x: T)
    ensures
        s.push(x).filter(p) == if p(x) {
            s.filter(p).push(x)
        } else {
            s.filter(p)
        },
{
    reveal(Seq::filter);
    assert(s.push(x).drop_last() =~= s);
    assert(s.push(x).last() == x);
}

} // verus!
