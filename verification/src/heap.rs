//! The heap itself: a vector of slots numbered from 1, repaired by moving one
//! value up after an insertion and one value down after an extraction.

use vstd::prelude::*;
use vstd::std_specs::cmp::PartialOrdSpec;
use crate::order::{above, ascending, below, callable, decides, descending, governs};
use crate::shape::{
    heap_ordered, lemma_moved_down_is_ordered, lemma_moved_up_is_ordered, lemma_root_is_top,
    lemma_swap_keeps_contents, moved_down, moved_up, slot_ok, swapped,
};

verus! {

/// A binary heap of `T` ordered by the predicate `F`.
///
/// `comparator(a, b)` answers whether `a` must be closer to the root than
/// `b`. Slot 0 of `items` holds a value that is never compared or returned.
///
/// `F` is the type of a function item or of a closure, which has no name:
/// write `Heap::new(f)` and let it be inferred. `Heap<T>` alone, with `()`
/// in the place of `F`, is where the constructors that bring their own
/// predicate live, so that they are reached as `Heap::<T>::new_min()`.
pub struct Heap<T, F = ()> where T: Default {
    count: usize,
    items: Vec<T>,
    comparator: F,
}

impl<T: Default, F> View for Heap<T, F> {
    type V = Seq<T>;

    /// The live values in slot order: `self@[k]` is the value of slot `k + 1`.
    open spec fn view(&self) -> Seq<T> {
        self.slots().skip(1)
    }
}

impl<T: Default, F> Heap<T, F> {
    /// All slots, slot 0 included.
    pub closed spec fn slots(&self) -> Seq<T> {
        self.items@
    }

    /// The predicate that the heap was made with.
    pub closed spec fn comparator(&self) -> F {
        self.comparator
    }

    /// The stored count is the number of slots after slot 0.
    pub closed spec fn counted(&self) -> bool {
        self.items@.len() == self.count + 1
    }
}

/// Exchanges two elements of a vector by `<[T]>::swap`, which panics on an
/// index out of bounds and otherwise leaves every other element in place.
#[verifier::external_body]
fn swap_slots<T>(items: &mut Vec<T>, i: usize, j: usize)
    requires
        i < old(items)@.len(),
        j < old(items)@.len(),
    ensures
        final(items)@ == swapped(old(items)@, i as int, j as int),
{
    items.swap(i, j);
}

/// What `add` does: `post` is `pre` with `value` put in. Under every relation
/// that the predicate computes, `value` is appended as the last slot and moved
/// up from there.
pub open spec fn added<T: Default, F: Fn(&T, &T) -> bool>(
    pre: Heap<T, F>,
    value: T,
    post: Heap<T, F>,
) -> bool {
    &&& post.wf()
    &&& post.comparator() == pre.comparator()
    &&& post@.len() == pre@.len() + 1
    &&& post@.to_multiset() == pre@.to_multiset().insert(value)
    &&& forall|rel: spec_fn(T, T) -> bool| #[trigger]
        decides(pre.comparator(), rel) ==> post.slots() == moved_up(
            rel,
            pre.slots().push(value),
            pre.slots().len() as int,
        )
}

/// What `next` does: an empty `pre` is left as it is and gives `None`; from
/// any other the root is taken out, and nothing in `pre` outranks it. Under
/// every relation that the predicate computes, the value of the last slot
/// takes the root's place and is moved down from there.
pub open spec fn extracted<T: Default, F: Fn(&T, &T) -> bool>(
    pre: Heap<T, F>,
    post: Heap<T, F>,
    out: Option<T>,
) -> bool {
    &&& post.wf()
    &&& post.comparator() == pre.comparator()
    &&& if pre@.len() == 0 {
        out.is_none() && post == pre
    } else {
        &&& out == Some(pre@[0])
        &&& post@.len() == pre@.len() - 1
        &&& post@.to_multiset() == pre@.to_multiset().remove(pre@[0])
        &&& forall|rel: spec_fn(T, T) -> bool, x: T|
            #![trigger governs(rel, pre.comparator()), pre@.contains(x)]
            governs(rel, pre.comparator()) && pre@.contains(x) ==> !rel(x, pre@[0])
        &&& forall|rel: spec_fn(T, T) -> bool| #[trigger]
            decides(pre.comparator(), rel) ==> post.slots() == moved_down(
                rel,
                swapped(pre.slots(), 1, pre@.len() as int).drop_last(),
                1,
            )
    }
}

impl<T: Default, F: Fn(&T, &T) -> bool> Heap<T, F> {
    /// The heap's invariant: slot 0 exists, the predicate accepts every pair,
    /// and under every strict weak order that the predicate computes no value
    /// outranks the value in its parent slot.
    pub open spec fn wf(&self) -> bool {
        &&& self.counted()
        &&& self.slots().len() >= 1
        &&& callable(self.comparator())
        &&& forall|rel: spec_fn(T, T) -> bool| #[trigger]
            governs(rel, self.comparator()) ==> heap_ordered(rel, self.slots())
    }

    /// An empty heap ordered by `comparator`. Its only slot is slot 0, filled
    /// with a default value of `T`.
    pub fn new(comparator: F) -> (h: Self)
        requires
            callable(comparator),
        ensures
            h.wf(),
            h.comparator() == comparator,
            h@ == Seq::<T>::empty(),
            h.slots().len() == 1,
            call_ensures(T::default, (), h.slots()[0]),
    {
        let mut items: Vec<T> = Vec::new();
        items.push(T::default());
        let h = Heap { count: 0, items, comparator };
        assert(h@ =~= Seq::<T>::empty());
        h
    }

    /// The number of values held.
    pub fn len(&self) -> (n: usize)
        requires
            self.wf(),
        ensures
            n == self@.len(),
    {
        self.count
    }

    /// Whether no value is held.
    pub fn is_empty(&self) -> (b: bool)
        requires
            self.wf(),
        ensures
            b == (self@.len() == 0),
    {
        self.len() == 0
    }

    /// Puts `value` into the heap.
    pub fn add(&mut self, value: T)
        requires
            old(self).wf(),
        ensures
            added(*old(self), value, *final(self)),
    {
        let ghost before = self.items@;
        assert(self.count < self.items.len());
        self.items.push(value);
        self.count += 1;
        let idx = self.count;
        proof {
            assert(self.items@.skip(1) =~= before.skip(1).push(value));
            vstd::seq_lib::to_multiset_build(before.skip(1), value);
        }
        self.up(idx);
        proof {
            let pushed = before.push(value);
            assert forall|rel: spec_fn(T, T) -> bool| #[trigger]
                governs(rel, self.comparator) implies heap_ordered(rel, self.items@) by {
                assert(heap_ordered(rel, before));
                assert forall|c: int| 2 <= c < pushed.len() && c != idx implies #[trigger] slot_ok(
                    rel,
                    pushed,
                    c,
                ) by {
                    assert(slot_ok(rel, before, c));
                }
                lemma_moved_up_is_ordered(rel, pushed, idx as int);
            }
        }
    }

    /// The parent slot of slot `idx`; 0 for the root.
    fn parent_idx(&self, idx: usize) -> (p: usize)
        ensures
            p == idx / 2,
    {
        idx / 2
    }

    /// Whether slot `idx` has a left child among the live slots.
    fn children_present(&self, idx: usize) -> (b: bool)
        ensures
            b == (2 * idx <= self.count),
    {
        // Halving the count cannot overflow, as doubling `idx` could.
        idx <= self.count / 2
    }

    /// The slot of the left child of slot `idx`.
    fn left_child_idx(&self, idx: usize) -> (l: usize)
        requires
            2 * idx <= usize::MAX,
        ensures
            l == 2 * idx,
    {
        idx * 2
    }

    /// The slot of the right child of slot `idx`.
    fn right_child_idx(&self, idx: usize) -> (r: usize)
        requires
            2 * idx + 1 <= usize::MAX,
        ensures
            r == 2 * idx + 1,
    {
        self.left_child_idx(idx) + 1
    }

    /// The child of slot `idx` that is to be compared with it: the left one
    /// where it is the only one or the predicate prefers it to the right one,
    /// else the right one.
    fn smallest_child_idx(&self, idx: usize) -> (w: usize)
        requires
            self.counted(),
            callable(self.comparator),
            2 * idx <= self.count,
        ensures
            w == 2 * idx || w == 2 * idx + 1,
            w <= self.count,
            2 * idx + 1 > self.count ==> w == 2 * idx,
            2 * idx + 1 <= self.count ==> call_ensures(
                self.comparator,
                (&self.items@[2 * idx], &self.items@[2 * idx + 1]),
                w == 2 * idx,
            ),
    {
        let l_i = self.left_child_idx(idx);
        let r_i = self.right_child_idx(idx);
        if r_i > self.count {
            return l_i;
        }
        let l_v = &self.items[l_i];
        let r_v = &self.items[r_i];
        if (self.comparator)(l_v, r_v) {
            l_i
        } else {
            r_i
        }
    }

    /// Moves the value of slot `idx` up while the predicate prefers it to the
    /// value in its parent slot.
    fn up(&mut self, idx: usize)
        requires
            old(self).counted(),
            callable(old(self).comparator),
            1 <= idx <= old(self).count,
        ensures
            final(self).counted(),
            final(self).comparator == old(self).comparator,
            final(self).count == old(self).count,
            final(self)@.to_multiset() == old(self)@.to_multiset(),
            forall|rel: spec_fn(T, T) -> bool| #[trigger]
                decides(old(self).comparator, rel) ==> final(self).items@ == moved_up(
                    rel,
                    old(self).items@,
                    idx as int,
                ),
        decreases idx,
    {
        let ghost before = self.items@;
        let parent_i = self.parent_idx(idx);
        if parent_i == 0 {
            return;
        }
        if !(self.comparator)(&self.items[idx], &self.items[parent_i]) {
            return;
        }
        swap_slots(&mut self.items, idx, parent_i);
        proof {
            lemma_swap_keeps_contents(before, idx as int, parent_i as int);
        }
        self.up(parent_i);
    }

    /// Moves the value of slot `idx` down while the predicate prefers the
    /// winning child to it.
    fn down(&mut self, idx: usize)
        requires
            old(self).counted(),
            callable(old(self).comparator),
            1 <= idx,
        ensures
            final(self).counted(),
            final(self).comparator == old(self).comparator,
            final(self).count == old(self).count,
            final(self)@.to_multiset() == old(self)@.to_multiset(),
            forall|rel: spec_fn(T, T) -> bool| #[trigger]
                decides(old(self).comparator, rel) ==> final(self).items@ == moved_down(
                    rel,
                    old(self).items@,
                    idx as int,
                ),
        decreases old(self).count - idx,
    {
        let ghost before = self.items@;
        if !self.children_present(idx) {
            return;
        }
        let c_i = self.smallest_child_idx(idx);
        if (self.comparator)(&self.items[c_i], &self.items[idx]) {
            swap_slots(&mut self.items, idx, c_i);
            proof {
                lemma_swap_keeps_contents(before, idx as int, c_i as int);
            }
            self.down(c_i);
        }
    }

    /// Takes the root out of the heap, or gives `None` where the heap is
    /// empty.
    pub fn next(&mut self) -> (out: Option<T>)
        requires
            old(self).wf(),
        ensures
            extracted(*old(self), *final(self), out),
    {
        if self.count == 0 {
            return None;
        }
        let ghost before = self.items@;
        let ghost n = self.count as int;
        swap_slots(&mut self.items, 1, self.count);
        self.count -= 1;
        let ret = self.items.pop();
        proof {
            let root = before[1];
            lemma_swap_keeps_contents(before, 1, n);
            assert(swapped(before, 1, n).skip(1) =~= self.items@.skip(1).push(root));
            vstd::seq_lib::to_multiset_build(self.items@.skip(1), root);
            assert(self.items@.skip(1).to_multiset() =~= before.skip(1).to_multiset().remove(root))
                by {
                broadcast use vstd::multiset::group_multiset_axioms;

            }
            assert forall|rel: spec_fn(T, T) -> bool, x: T|
                governs(rel, self.comparator) && before.skip(1).contains(x) implies !rel(
                x,
                root,
            ) by {
                assert(heap_ordered(rel, before));
                let k = choose|k: int| 0 <= k < before.skip(1).len() && before.skip(1)[k] == x;
                lemma_root_is_top(rel, before, k + 1);
            }
        }
        let ghost shortened = self.items@;
        self.down(1);
        proof {
            assert forall|rel: spec_fn(T, T) -> bool| #[trigger]
                governs(rel, self.comparator) implies heap_ordered(rel, self.items@) by {
                assert(heap_ordered(rel, before));
                assert forall|c: int| 2 <= c < shortened.len() && c / 2 != 1 implies #[trigger] slot_ok(
                    rel,
                    shortened,
                    c,
                ) by {
                    assert(slot_ok(rel, before, c));
                }
                lemma_moved_down_is_ordered(rel, shortened, 1);
            }
        }
        ret
    }
}

/// Whether `a` is less than `b`: the predicate of a heap that gives out the
/// least value first.
fn is_below<T: Ord>(a: &T, b: &T) -> (r: bool)
    ensures
        T::obeys_partial_cmp_spec() ==> r == below(*a, *b),
{
    *a < *b
}

/// Whether `a` is greater than `b`: the predicate of a heap that gives out
/// the greatest value first.
fn is_above<T: Ord>(a: &T, b: &T) -> (r: bool)
    ensures
        T::obeys_partial_cmp_spec() ==> r == above(*a, *b),
{
    *a > *b
}

impl<T: Default + Ord> Heap<T> {
    /// An empty heap that gives out the least value first.
    pub fn new_min() -> (h: Heap<T, impl Fn(&T, &T) -> bool>)
        ensures
            h.wf(),
            h@ == Seq::<T>::empty(),
            T::obeys_partial_cmp_spec() ==> decides(h.comparator(), ascending::<T>()),
    {
        Heap::new(is_below)
    }

    /// An empty heap that gives out the greatest value first.
    pub fn new_max() -> (h: Heap<T, impl Fn(&T, &T) -> bool>)
        ensures
            h.wf(),
            h@ == Seq::<T>::empty(),
            T::obeys_partial_cmp_spec() ==> decides(h.comparator(), descending::<T>()),
    {
        Heap::new(is_above)
    }
}

/// Makes heaps that give out the least value first.
pub struct MinHeap;

impl MinHeap {
    /// An empty heap that gives out the least value first.
    pub fn new<T: Default + Ord>() -> (h: Heap<T, impl Fn(&T, &T) -> bool>)
        ensures
            h.wf(),
            h@ == Seq::<T>::empty(),
            T::obeys_partial_cmp_spec() ==> decides(h.comparator(), ascending::<T>()),
    {
        Heap::new(is_below)
    }
}

/// Makes heaps that give out the greatest value first.
pub struct MaxHeap;

impl MaxHeap {
    /// An empty heap that gives out the greatest value first.
    pub fn new<T: Default + Ord>() -> (h: Heap<T, impl Fn(&T, &T) -> bool>)
        ensures
            h.wf(),
            h@ == Seq::<T>::empty(),
            T::obeys_partial_cmp_spec() ==> decides(h.comparator(), descending::<T>()),
    {
        Heap::new(is_above)
    }
}

} // verus!
