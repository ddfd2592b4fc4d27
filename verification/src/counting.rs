//! Counting elements of a sequence that satisfy a predicate.
//!
//! The ledger's invariants tie each poll's `candidate_amount` and each
//! candidate's `candidate_votes` to such counts, so the lemmas here say how a
//! count behaves under the only two ways the ledger ever changes a sequence:
//! appending a record and updating one in place.

use vstd::prelude::*;

verus! {

/// The number of elements of `s` that satisfy `f`.
pub open spec fn count_where<T>(s: Seq<T>, f: spec_fn(T) -> bool) -> nat
    decreases s.len(),
{
    if s.len() == 0 {
        0
    } else {
        count_where(s.drop_last(), f) + if f(s.last()) {
            1nat
        } else {
            0nat
        }
    }
}

/// A count never exceeds the sequence's length.
pub proof fn lemma_count_where_le_len<T>(s: Seq<T>, f: spec_fn(T) -> bool)
    ensures
        count_where(s, f) <= s.len(),
    decreases s.len(),
{
    if s.len() > 0 {
        lemma_count_where_le_len(s.drop_last(), f);
    }
}

/// Appending an element raises the count by one exactly when the element
/// satisfies the predicate.
pub proof fn lemma_count_where_push<T>(s: Seq<T>, f: spec_fn(T) -> bool, x: T)
    ensures
        count_where(s.push(x), f) == count_where(s, f) + if f(x) {
            1nat
        } else {
            0nat
        },
{
    assert(s.push(x).drop_last() =~= s);
    assert(s.push(x).last() == x);
}

/// A sequence none of whose elements satisfies the predicate counts zero.
pub proof fn lemma_count_where_none<T>(s: Seq<T>, f: spec_fn(T) -> bool)
    requires
        forall|i: int| 0 <= i < s.len() ==> !f(#[trigger] s[i]),
    ensures
        count_where(s, f) == 0,
    decreases s.len(),
{
    if s.len() > 0 {
        assert(forall|i: int| 0 <= i < s.drop_last().len() ==> #[trigger] s.drop_last()[i] == s[i]);
        lemma_count_where_none(s.drop_last(), f);
        assert(!f(s[s.len() - 1]));
    }
}

/// Replacing an element with one on which the predicate agrees leaves the
/// count unchanged.
pub proof fn lemma_count_where_update<T>(s: Seq<T>, f: spec_fn(T) -> bool, k: int, x: T)
    requires
        0 <= k < s.len(),
        f(x) == f(s[k]),
    ensures
        count_where(s.update(k, x), f) == count_where(s, f),
    decreases s.len(),
{
    let t = s.update(k, x);
    if k == s.len() - 1 {
        assert(t.drop_last() =~= s.drop_last());
        assert(t.last() == x);
        assert(s.last() == s[k]);
    } else {
        assert(t.drop_last() =~= s.drop_last().update(k, x));
        assert(t.last() == s.last());
        assert(s.drop_last()[k] == s[k]);
        lemma_count_where_update(s.drop_last(), f, k, x);
    }
}

} // verus!
