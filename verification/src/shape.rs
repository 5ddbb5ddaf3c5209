//! The heap property on a sequence of slots, and how one swap repairs it.
//!
//! Slots are numbered from 1: slot 0 is never compared, the root is slot 1,
//! the parent of slot `c` is slot `c / 2`, and the children of slot `i` are
//! slots `2 * i` and `2 * i + 1`.

use vstd::prelude::*;
use crate::order::strict_weak_order;

verus! {

/// The value in slot `c` does not outrank the value in its parent slot.
pub open spec fn slot_ok<T>(rel: spec_fn(T, T) -> bool, s: Seq<T>, c: int) -> bool {
    !rel(s[c], s[c / 2])
}

/// No value outranks the value in its parent slot.
pub open spec fn heap_ordered<T>(rel: spec_fn(T, T) -> bool, s: Seq<T>) -> bool {
    forall|c: int| 2 <= c < s.len() ==> #[trigger] slot_ok(rel, s, c)
}

/// `s` with the values of slots `i` and `j` exchanged.
pub open spec fn swapped<T>(s: Seq<T>, i: int, j: int) -> Seq<T> {
    s.update(i, s[j]).update(j, s[i])
}

/// The slots after the value of slot `idx` has been moved up: while it
/// outranks the value in its parent slot the two are exchanged, and the move
/// goes on from the parent slot.
pub open spec fn moved_up<T>(rel: spec_fn(T, T) -> bool, s: Seq<T>, idx: int) -> Seq<T>
    decreases idx,
{
    if 2 <= idx < s.len() && rel(s[idx], s[idx / 2]) {
        moved_up(rel, swapped(s, idx, idx / 2), idx / 2)
    } else {
        s
    }
}

/// The child of slot `idx` that is compared with it, for a slot that has a
/// left child: the left child where it is the only one or outranks the right
/// one, else the right child.
pub open spec fn winning_child<T>(rel: spec_fn(T, T) -> bool, s: Seq<T>, idx: int) -> int {
    if 2 * idx + 1 < s.len() && !rel(s[2 * idx], s[2 * idx + 1]) {
        2 * idx + 1
    } else {
        2 * idx
    }
}

/// The slots after the value of slot `idx` has been moved down: while its
/// winning child outranks it the two are exchanged, and the move goes on from
/// the child's slot.
pub open spec fn moved_down<T>(rel: spec_fn(T, T) -> bool, s: Seq<T>, idx: int) -> Seq<T>
    decreases s.len() - idx,
{
    if 1 <= idx && 2 * idx < s.len() && rel(s[winning_child(rel, s, idx)], s[idx]) {
        moved_down(rel, swapped(s, idx, winning_child(rel, s, idx)), winning_child(rel, s, idx))
    } else {
        s
    }
}

/// The children of slot `idx`, where it has any, do not outrank the value in
/// the parent slot of `idx`.
pub open spec fn skips_ok<T>(rel: spec_fn(T, T) -> bool, s: Seq<T>, idx: int) -> bool {
    &&& idx >= 2 && 2 * idx < s.len() ==> !rel(s[2 * idx], s[idx / 2])
    &&& idx >= 2 && 2 * idx + 1 < s.len() ==> !rel(s[2 * idx + 1], s[idx / 2])
}

/// The heap property holds but perhaps between slot `idx` and its parent:
/// the state in which a value is moved up from slot `idx`.
pub open spec fn up_ready<T>(rel: spec_fn(T, T) -> bool, s: Seq<T>, idx: int) -> bool {
    &&& forall|c: int| 2 <= c < s.len() && c != idx ==> #[trigger] slot_ok(rel, s, c)
    &&& skips_ok(rel, s, idx)
}

/// The heap property holds but perhaps between slot `idx` and its children:
/// the state in which a value is moved down from slot `idx`.
pub open spec fn down_ready<T>(rel: spec_fn(T, T) -> bool, s: Seq<T>, idx: int) -> bool {
    &&& forall|c: int| 2 <= c < s.len() && c / 2 != idx ==> #[trigger] slot_ok(rel, s, c)
    &&& skips_ok(rel, s, idx)
}

/// Moving up ends where the value does not outrank its parent, or at the root.
proof fn lemma_up_done<T>(rel: spec_fn(T, T) -> bool, s: Seq<T>, idx: int)
    requires
        up_ready(rel, s, idx),
        idx < 2 || !rel(s[idx], s[idx / 2]),
    ensures
        heap_ordered(rel, s),
{
    assert forall|c: int| 2 <= c < s.len() implies #[trigger] slot_ok(rel, s, c) by {
        if c != idx {
            assert(slot_ok(rel, s, c));
        }
    }
}

/// Exchanging an outranking value with its parent moves the exception one
/// level up.
proof fn lemma_up_step<T>(rel: spec_fn(T, T) -> bool, s: Seq<T>, idx: int)
    requires
        strict_weak_order(rel),
        up_ready(rel, s, idx),
        2 <= idx < s.len(),
        rel(s[idx], s[idx / 2]),
    ensures
        up_ready(rel, swapped(s, idx, idx / 2), idx / 2),
{
    let p = idx / 2;
    let t = swapped(s, idx, p);
    let sib = if idx % 2 == 0 { idx + 1 } else { idx - 1 };
    if sib < s.len() {
        assert(slot_ok(rel, s, sib));
    }
    if p >= 2 {
        assert(slot_ok(rel, s, p));
    }
    assert forall|c: int| 2 <= c < t.len() && c != p implies #[trigger] slot_ok(rel, t, c) by {
        if c == idx {
        } else if c / 2 == idx {
        } else if c / 2 == p {
            assert(c == sib);
        } else {
            assert(slot_ok(rel, s, c));
        }
    }
}

/// Moving down ends where slot `idx` has no child in `s`.
proof fn lemma_down_leaf<T>(rel: spec_fn(T, T) -> bool, s: Seq<T>, idx: int)
    requires
        down_ready(rel, s, idx),
        idx < 1 || 2 * idx >= s.len(),
    ensures
        heap_ordered(rel, s),
{
    assert forall|c: int| 2 <= c < s.len() implies #[trigger] slot_ok(rel, s, c) by {
        assert(c / 2 != idx);
    }
}

/// The other child of slot `idx`, where there is one, does not outrank the
/// winning child.
proof fn lemma_winner<T>(rel: spec_fn(T, T) -> bool, s: Seq<T>, idx: int)
    requires
        strict_weak_order(rel),
        1 <= idx,
        2 * idx < s.len(),
    ensures
        ({
            let w = winning_child(rel, s, idx);
            let other = 4 * idx + 1 - w;
            &&& w == 2 * idx || w == 2 * idx + 1
            &&& w < s.len()
            &&& other < s.len() ==> !rel(s[other], s[w])
        }),
{
}

/// Moving down ends where the winning child does not outrank slot `idx`.
proof fn lemma_down_done<T>(rel: spec_fn(T, T) -> bool, s: Seq<T>, idx: int)
    requires
        strict_weak_order(rel),
        down_ready(rel, s, idx),
        1 <= idx,
        2 * idx < s.len(),
        !rel(s[winning_child(rel, s, idx)], s[idx]),
    ensures
        heap_ordered(rel, s),
{
    let w = winning_child(rel, s, idx);
    lemma_winner(rel, s, idx);
    assert forall|c: int| 2 <= c < s.len() implies #[trigger] slot_ok(rel, s, c) by {
        if c / 2 != idx {
            assert(slot_ok(rel, s, c));
        } else if c != w {
            assert(c == 4 * idx + 1 - w);
        }
    }
}

/// Exchanging slot `idx` with a winning child that outranks it moves the
/// exception one level down.
proof fn lemma_down_step<T>(rel: spec_fn(T, T) -> bool, s: Seq<T>, idx: int)
    requires
        strict_weak_order(rel),
        down_ready(rel, s, idx),
        1 <= idx,
        2 * idx < s.len(),
        rel(s[winning_child(rel, s, idx)], s[idx]),
    ensures
        down_ready(
            rel,
            swapped(s, idx, winning_child(rel, s, idx)),
            winning_child(rel, s, idx),
        ),
{
    let w = winning_child(rel, s, idx);
    let t = swapped(s, idx, w);
    let other = 4 * idx + 1 - w;
    lemma_winner(rel, s, idx);
    if 2 * w < s.len() {
        assert(slot_ok(rel, s, 2 * w));
    }
    if 2 * w + 1 < s.len() {
        assert(slot_ok(rel, s, 2 * w + 1));
    }
    assert forall|c: int| 2 <= c < t.len() && c / 2 != w implies #[trigger] slot_ok(rel, t, c) by {
        if c == w {
        } else if c == other {
        } else if c == idx {
        } else {
            assert(c / 2 != idx);
            assert(slot_ok(rel, s, c));
        }
    }
}

/// Moving a value up from slot `idx` restores the heap property where slot
/// `idx` was the only exception to it.
pub proof fn lemma_moved_up_is_ordered<T>(rel: spec_fn(T, T) -> bool, s: Seq<T>, idx: int)
    requires
        strict_weak_order(rel),
        up_ready(rel, s, idx),
        1 <= idx < s.len(),
    ensures
        heap_ordered(rel, moved_up(rel, s, idx)),
    decreases idx,
{
    if 2 <= idx && rel(s[idx], s[idx / 2]) {
        lemma_up_step(rel, s, idx);
        lemma_moved_up_is_ordered(rel, swapped(s, idx, idx / 2), idx / 2);
    } else {
        lemma_up_done(rel, s, idx);
    }
}

/// Moving a value down from slot `idx` restores the heap property where the
/// children of slot `idx` were the only exception to it.
pub proof fn lemma_moved_down_is_ordered<T>(rel: spec_fn(T, T) -> bool, s: Seq<T>, idx: int)
    requires
        strict_weak_order(rel),
        down_ready(rel, s, idx),
        1 <= idx,
    ensures
        heap_ordered(rel, moved_down(rel, s, idx)),
    decreases s.len() - idx,
{
    if 2 * idx < s.len() {
        let w = winning_child(rel, s, idx);
        if rel(s[w], s[idx]) {
            lemma_down_step(rel, s, idx);
            lemma_moved_down_is_ordered(rel, swapped(s, idx, w), w);
        } else {
            lemma_down_done(rel, s, idx);
        }
    } else {
        lemma_down_leaf(rel, s, idx);
    }
}

/// In a heap-ordered sequence nothing outranks the root.
pub proof fn lemma_root_is_top<T>(rel: spec_fn(T, T) -> bool, s: Seq<T>, i: int)
    requires
        strict_weak_order(rel),
        heap_ordered(rel, s),
        1 <= i < s.len(),
    ensures
        !rel(s[i], s[1]),
    decreases i,
{
    if i >= 2 {
        assert(slot_ok(rel, s, i));
        lemma_root_is_top(rel, s, i / 2);
    }
}

/// Exchanging two slots other than slot 0 keeps the values held in the slots
/// from 1 on.
pub proof fn lemma_swap_keeps_contents<T>(s: Seq<T>, i: int, j: int)
    requires
        1 <= i < s.len(),
        1 <= j < s.len(),
    ensures
        swapped(s, i, j).skip(1).to_multiset() == s.skip(1).to_multiset(),
{
    broadcast use vstd::multiset::group_multiset_axioms;

    let u = s.skip(1);
    let v = u.update(i - 1, u[j - 1]);
    assert(v.len() == u.len());
    assert(v[j - 1] == u[j - 1]);
    assert(u.contains(u[i - 1]) && u.contains(u[j - 1]));
    vstd::seq_lib::to_multiset_contains(u, u[i - 1]);
    vstd::seq_lib::to_multiset_contains(u, u[j - 1]);
    assert(swapped(s, i, j).skip(1) =~= v.update(j - 1, u[i - 1]));
    vstd::seq_lib::to_multiset_update(u, i - 1, u[j - 1]);
    vstd::seq_lib::to_multiset_update(v, j - 1, u[i - 1]);
    assert(v.update(j - 1, u[i - 1]).to_multiset() =~= u.to_multiset());
}

} // verus!
