//! Laws that relate several operations of the heap. Each speaks of heaps
//! before and after calls of `add` and `next`, through the relations `added`
//! and `extracted` that those two functions ensure.

use vstd::prelude::*;
use crate::heap::{added, extracted, Heap};
use crate::order::{
    above, ascending, below, decides, descending, governs, lemma_total_order_is_strict_weak,
};

verus! {

/// State `i + 1` is state `i` after `add(values[i])`.
pub open spec fn insertion_step<T: Default, F: Fn(&T, &T) -> bool>(
    states: Seq<Heap<T, F>>,
    values: Seq<T>,
    i: int,
) -> bool {
    added(states[i], values[i], states[i + 1])
}

/// State `i + 1` is state `i` after a call of `next` that gave `outs[i]`.
pub open spec fn extraction_step<T: Default, F: Fn(&T, &T) -> bool>(
    states: Seq<Heap<T, F>>,
    outs: Seq<Option<T>>,
    i: int,
) -> bool {
    extracted(states[i], states[i + 1], outs[i])
}

/// After `k` insertions into an empty heap and no extraction, the heap holds
/// `k` values: the first `k` that were inserted.
pub proof fn law_len_counts_insertions<T: Default, F: Fn(&T, &T) -> bool>(
    states: Seq<Heap<T, F>>,
    values: Seq<T>,
    k: int,
)
    requires
        states.len() == values.len() + 1,
        states[0]@.len() == 0,
        forall|i: int| 0 <= i < values.len() ==> #[trigger] insertion_step(states, values, i),
        0 <= k <= values.len(),
    ensures
        states[k]@.len() == k,
        states[k]@.to_multiset() == values.take(k).to_multiset(),
    decreases k,
{
    if k == 0 {
        assert(states[0]@ =~= values.take(0));
    } else {
        law_len_counts_insertions(states, values, k - 1);
        assert(insertion_step(states, values, k - 1));
        assert(values.take(k) =~= values.take(k - 1).push(values[k - 1]));
        vstd::seq_lib::to_multiset_build(values.take(k - 1), values[k - 1]);
    }
}

/// Extractions only take values out: whatever a later state holds, every
/// earlier state held, and the predicate stays the same.
pub proof fn law_extraction_shrinks<T: Default, F: Fn(&T, &T) -> bool>(
    states: Seq<Heap<T, F>>,
    outs: Seq<Option<T>>,
    i: int,
    j: int,
    x: T,
)
    requires
        states.len() == outs.len() + 1,
        forall|k: int| 0 <= k < outs.len() ==> #[trigger] extraction_step(states, outs, k),
        0 <= i <= j <= outs.len(),
    ensures
        states[j].comparator() == states[i].comparator(),
        states[j]@.contains(x) ==> states[i]@.contains(x),
    decreases j - i,
{
    broadcast use vstd::multiset::group_multiset_axioms;

    if i < j {
        law_extraction_shrinks(states, outs, i, j - 1, x);
        assert(extraction_step(states, outs, j - 1));
        vstd::seq_lib::to_multiset_contains(states[j]@, x);
        vstd::seq_lib::to_multiset_contains(states[j - 1]@, x);
    }
}

/// Draining gives the values out in priority order: under every strict weak
/// order that the predicate computes, a value that comes out later does not
/// outrank one that came out earlier. Where that order also ranks every two
/// different values, two different values come out in strictly falling
/// priority.
pub proof fn law_drain_is_ordered<T: Default, F: Fn(&T, &T) -> bool>(
    rel: spec_fn(T, T) -> bool,
    states: Seq<Heap<T, F>>,
    outs: Seq<Option<T>>,
    i: int,
    j: int,
)
    requires
        states.len() == outs.len() + 1,
        governs(rel, states[0].comparator()),
        forall|k: int| 0 <= k < outs.len() ==> #[trigger] extraction_step(states, outs, k),
        0 <= i < j < outs.len(),
        outs[i].is_some(),
        outs[j].is_some(),
    ensures
        !rel(outs[j].unwrap(), outs[i].unwrap()),
        (forall|a: T, b: T| a != b ==> #[trigger] rel(a, b) || rel(b, a)) && outs[j] != outs[i]
            ==> rel(outs[i].unwrap(), outs[j].unwrap()),
{
    let x = outs[j].unwrap();
    assert(extraction_step(states, outs, i));
    assert(extraction_step(states, outs, j));
    assert(states[j]@[0] == x);
    assert(states[j]@.contains(x));
    law_extraction_shrinks(states, outs, 0, i, x);
    law_extraction_shrinks(states, outs, i, j, x);
}

/// Over a type whose comparisons keep the laws of a total order, a heap whose
/// predicate computes "is below" gives its values out in non-decreasing
/// order, and one whose predicate computes "is above" in non-increasing
/// order.
pub proof fn law_natural_drain_is_sorted<T: Default + Ord, F: Fn(&T, &T) -> bool>(
    states: Seq<Heap<T, F>>,
    outs: Seq<Option<T>>,
    i: int,
    j: int,
)
    requires
        vstd::laws_cmp::obeys_cmp::<T>(),
        states.len() == outs.len() + 1,
        forall|k: int| 0 <= k < outs.len() ==> #[trigger] extraction_step(states, outs, k),
        0 <= i < j < outs.len(),
        outs[i].is_some(),
        outs[j].is_some(),
    ensures
        decides(states[0].comparator(), ascending::<T>()) ==> !below(
            outs[j].unwrap(),
            outs[i].unwrap(),
        ),
        decides(states[0].comparator(), descending::<T>()) ==> !above(
            outs[j].unwrap(),
            outs[i].unwrap(),
        ),
{
    lemma_total_order_is_strict_weak::<T>();
    if decides(states[0].comparator(), ascending::<T>()) {
        law_drain_is_ordered(ascending::<T>(), states, outs, i, j);
    }
    if decides(states[0].comparator(), descending::<T>()) {
        law_drain_is_ordered(descending::<T>(), states, outs, i, j);
    }
}

/// An empty heap stays empty under extraction: every further call of `next`
/// gives `None` and leaves the heap as it was.
pub proof fn law_empty_stays_empty<T: Default, F: Fn(&T, &T) -> bool>(
    states: Seq<Heap<T, F>>,
    outs: Seq<Option<T>>,
    k: int,
)
    requires
        states.len() == outs.len() + 1,
        states[0]@.len() == 0,
        forall|i: int| 0 <= i < outs.len() ==> #[trigger] extraction_step(states, outs, i),
        0 <= k < outs.len(),
    ensures
        outs[k].is_none(),
        states[k + 1] == states[0],
        states[k + 1]@.len() == 0,
    decreases k,
{
    if k > 0 {
        law_empty_stays_empty(states, outs, k - 1);
    }
    assert(extraction_step(states, outs, k));
}

/// A value that is put into an empty heap is the one that comes out, and the
/// heap is empty again.
pub proof fn law_single_round_trip<T: Default, F: Fn(&T, &T) -> bool>(
    empty: Heap<T, F>,
    value: T,
    one: Heap<T, F>,
    out: Option<T>,
    after: Heap<T, F>,
)
    requires
        empty@.len() == 0,
        added(empty, value, one),
        extracted(one, after, out),
    ensures
        out == Some(value),
        after@.len() == 0,
{
    broadcast use vstd::multiset::group_multiset_axioms;

    vstd::seq_lib::to_multiset_len(empty@);
    assert(empty@.to_multiset() =~= vstd::multiset::Multiset::<T>::empty());
    assert(one@.contains(one@[0]));
    vstd::seq_lib::to_multiset_contains(one@, one@[0]);
}

/// In a well-formed heap no value outranks the value in its parent slot, and
/// none outranks the root, under every strict weak order that the predicate
/// computes. The parent of slot `c` is slot `c / 2`; slot `c` holds
/// `h@[c - 1]`.
pub proof fn law_parents_are_not_outranked<T: Default, F: Fn(&T, &T) -> bool>(
    h: Heap<T, F>,
    rel: spec_fn(T, T) -> bool,
    c: int,
)
    requires
        h.wf(),
        governs(rel, h.comparator()),
        2 <= c <= h@.len(),
    ensures
        !rel(h@[c - 1], h@[c / 2 - 1]),
        !rel(h@[c - 1], h@[0]),
{
    assert(crate::shape::heap_ordered(rel, h.slots()));
    assert(crate::shape::slot_ok(rel, h.slots(), c));
    crate::shape::lemma_root_is_top(rel, h.slots(), c);
}

} // verus!
