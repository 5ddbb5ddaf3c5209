//! What the heap asks of a priority predicate.
//!
//! A predicate is any function value `f` taking two references and returning a
//! `bool`; `f(a, b) == true` means that `a` must end up closer to the root
//! than `b`. Contracts never speak of the answers of `f` directly. They speak
//! of every mathematical relation that `f` computes and that is a strict weak
//! order: whatever such relation a caller can show, the heap is ordered by it.

use core::cmp::Ordering;
use vstd::prelude::*;
use vstd::std_specs::cmp::{OrdSpec, PartialEqSpec, PartialOrdSpec};

verus! {

/// `f` accepts every pair of values.
pub open spec fn callable<T, F: Fn(&T, &T) -> bool>(f: F) -> bool {
    forall|a: T, b: T| call_requires(f, (&a, &b))
}

/// Every answer that `f` can give is the one that `rel` gives.
pub open spec fn decides<T, F: Fn(&T, &T) -> bool>(f: F, rel: spec_fn(T, T) -> bool) -> bool {
    forall|a: T, b: T, r: bool| call_ensures(f, (&a, &b), r) ==> r == rel(a, b)
}

/// `rel` is asymmetric, and its complement is transitive: if `a` does not
/// outrank `b` and `b` does not outrank `c`, then `a` does not outrank `c`.
pub open spec fn strict_weak_order<T>(rel: spec_fn(T, T) -> bool) -> bool {
    &&& forall|a: T, b: T| #[trigger] rel(a, b) ==> !rel(b, a)
    &&& forall|a: T, b: T, c: T| !#[trigger] rel(a, b) && !#[trigger] rel(b, c) ==> !rel(a, c)
}

/// `rel` is a strict weak order and is what `f` computes. Only of such
/// relations does the heap promise an order.
pub open spec fn governs<T, F: Fn(&T, &T) -> bool>(rel: spec_fn(T, T) -> bool, f: F) -> bool {
    &&& decides(f, rel)
    &&& strict_weak_order(rel)
}

/// `a` is below `b` in the natural order of `T`.
pub open spec fn below<T: PartialOrd>(a: T, b: T) -> bool {
    a.partial_cmp_spec(&b) == Some(Ordering::Less)
}

/// `a` is above `b` in the natural order of `T`.
pub open spec fn above<T: PartialOrd>(a: T, b: T) -> bool {
    a.partial_cmp_spec(&b) == Some(Ordering::Greater)
}

/// The relation "is below", as a value.
pub open spec fn ascending<T: PartialOrd>() -> spec_fn(T, T) -> bool {
    |a: T, b: T| below(a, b)
}

/// The relation "is above", as a value.
pub open spec fn descending<T: PartialOrd>() -> spec_fn(T, T) -> bool {
    |a: T, b: T| above(a, b)
}

/// Where the natural order of `T` keeps the laws of a total order, "is below"
/// and "is above" are strict weak orders, and the comparison operators of `T`
/// compute them.
pub proof fn lemma_total_order_is_strict_weak<T: Ord>()
    requires
        vstd::laws_cmp::obeys_cmp::<T>(),
    ensures
        T::obeys_partial_cmp_spec(),
        strict_weak_order(ascending::<T>()),
        strict_weak_order(descending::<T>()),
{
    reveal(vstd::laws_cmp::obeys_partial_cmp_spec_properties);
    reveal(vstd::laws_cmp::obeys_cmp_partial_ord);
    reveal(vstd::laws_cmp::obeys_cmp_ord);
    reveal(vstd::laws_eq::obeys_eq_spec_properties);
    let up = ascending::<T>();
    let down = descending::<T>();
    assert forall|a: T, b: T, c: T| !#[trigger] up(a, b) && !#[trigger] up(b, c) implies !up(
        a,
        c,
    ) by {
        lemma_ranked(a, b);
        lemma_ranked(b, c);
        lemma_ranked(a, c);
        lemma_ranked(c, a);
        lemma_ranked(b, a);
        lemma_ranked(c, b);
    }
    assert forall|a: T, b: T, c: T| !#[trigger] down(a, b) && !#[trigger] down(b, c) implies !down(
        a,
        c,
    ) by {
        lemma_ranked(a, b);
        lemma_ranked(b, c);
        lemma_ranked(a, c);
        lemma_ranked(c, a);
        lemma_ranked(b, a);
        lemma_ranked(c, b);
    }
}

/// Under the laws of a total order two values are equal by `==` of `T`
/// exactly where neither is below the other, and one is below the other
/// exactly where the other is above it.
proof fn lemma_ranked<T: Ord>(a: T, b: T)
    requires
        vstd::laws_cmp::obeys_cmp::<T>(),
    ensures
        below(a, b) || above(a, b) || a.partial_cmp_spec(&b) == Some(Ordering::Equal),
        below(a, b) <==> above(b, a),
        a.partial_cmp_spec(&b) == Some(Ordering::Equal) <==> a.eq_spec(&b),
{
    reveal(vstd::laws_cmp::obeys_partial_cmp_spec_properties);
    reveal(vstd::laws_cmp::obeys_cmp_partial_ord);
    reveal(vstd::laws_cmp::obeys_cmp_ord);
    let o = a.cmp_spec(&b);
    assert(a.partial_cmp_spec(&b) == Some(o));
}

} // verus!
