use binary_heap::{Heap, MaxHeap, MinHeap};

#[test]
fn test_empty_heap() {
    let mut heap = MaxHeap::new::<i32>();
    assert_eq!(heap.next(), None);
}

#[test]
fn test_min_heap() {
    let mut heap = MinHeap::new();
    heap.add(4);
    heap.add(2);
    heap.add(9);
    heap.add(11);
    assert_eq!(heap.len(), 4);
    assert_eq!(heap.next(), Some(2));
    assert_eq!(heap.next(), Some(4));
    assert_eq!(heap.next(), Some(9));
    heap.add(1);
    assert_eq!(heap.next(), Some(1));
}

#[test]
fn test_max_heap() {
    let mut heap = MaxHeap::new();
    heap.add(4);
    heap.add(2);
    heap.add(9);
    heap.add(11);
    assert_eq!(heap.len(), 4);
    assert_eq!(heap.next(), Some(11));
    assert_eq!(heap.len(), 3);
    assert_eq!(heap.next(), Some(9));
    assert_eq!(heap.len(), 2);
    assert_eq!(heap.next(), Some(4));
    assert_eq!(heap.len(), 1);
    heap.add(1);
    assert_eq!(heap.next(), Some(2));
}

#[test]
fn len_counts_insertions() {
    let mut heap = MinHeap::new::<u32>();
    assert_eq!(heap.len(), 0);
    assert!(heap.is_empty());
    let values: Vec<u32> = vec![7, 3, 3, 10, 0, 8, 1];
    let mut k: usize = 0;
    for v in values {
        heap.add(v);
        k += 1;
        assert_eq!(heap.len(), k);
        assert!(!heap.is_empty());
    }
    assert_eq!(heap.len(), 7);
}

#[test]
fn min_heap_drains_in_ascending_order() {
    let mut heap = MinHeap::new::<i64>();
    for v in vec![5i64, -1, 12, 5, 0, 33, -7, 2] {
        heap.add(v);
    }
    let mut out: Vec<i64> = Vec::new();
    while let Some(v) = heap.next() {
        out.push(v);
    }
    assert_eq!(out, vec![-7, -1, 0, 2, 5, 5, 12, 33]);
}

#[test]
fn max_heap_drains_in_descending_order() {
    let mut heap = MaxHeap::new::<i64>();
    for v in vec![5i64, -1, 12, 5, 0, 33, -7, 2] {
        heap.add(v);
    }
    let mut out: Vec<i64> = Vec::new();
    while let Some(v) = heap.next() {
        out.push(v);
    }
    assert_eq!(out, vec![33, 12, 5, 5, 2, 0, -1, -7]);
}

#[test]
fn extracting_from_empty_changes_nothing() {
    let mut heap = MinHeap::new::<u8>();
    assert_eq!(heap.next(), None);
    assert_eq!(heap.len(), 0);
    assert!(heap.is_empty());
}

#[test]
fn drained_heap_stays_empty() {
    let mut heap = MaxHeap::new::<u8>();
    heap.add(3);
    heap.add(9);
    assert_eq!(heap.next(), Some(9));
    assert_eq!(heap.next(), Some(3));
    for _ in 0..4 {
        assert_eq!(heap.next(), None);
        assert!(heap.is_empty());
        assert_eq!(heap.len(), 0);
    }
    heap.add(1);
    assert_eq!(heap.len(), 1);
    assert_eq!(heap.next(), Some(1));
    assert_eq!(heap.next(), None);
}

#[test]
fn interleaved_operations_keep_the_order() {
    let mut heap = MinHeap::new::<i32>();
    heap.add(8);
    heap.add(3);
    assert_eq!(heap.next(), Some(3));
    heap.add(5);
    heap.add(1);
    heap.add(9);
    assert_eq!(heap.next(), Some(1));
    assert_eq!(heap.next(), Some(5));
    heap.add(2);
    heap.add(8);
    assert_eq!(heap.len(), 4);
    assert_eq!(heap.next(), Some(2));
    assert_eq!(heap.next(), Some(8));
    assert_eq!(heap.next(), Some(8));
    assert_eq!(heap.next(), Some(9));
    assert_eq!(heap.next(), None);
}

#[test]
fn single_element_round_trip() {
    let mut heap = MinHeap::new::<i32>();
    heap.add(42);
    assert_eq!(heap.len(), 1);
    assert_eq!(heap.next(), Some(42));
    assert_eq!(heap.next(), None);

    let mut heap = MaxHeap::new::<i32>();
    heap.add(-42);
    assert_eq!(heap.next(), Some(-42));
    assert_eq!(heap.next(), None);
}

#[test]
fn two_elements_left_child_only() {
    let mut heap = MinHeap::new::<i32>();
    heap.add(1);
    heap.add(2);
    heap.add(3);
    assert_eq!(heap.next(), Some(1));
    assert_eq!(heap.len(), 2);
    assert_eq!(heap.next(), Some(2));
    assert_eq!(heap.next(), Some(3));
    assert_eq!(heap.next(), None);
}

#[test]
fn later_smaller_value_moves_to_the_root() {
    let mut heap = MinHeap::new::<i32>();
    heap.add(5);
    heap.add(1);
    assert_eq!(heap.next(), Some(1));
    assert_eq!(heap.next(), Some(5));
}

#[test]
fn last_value_moves_down_after_extraction() {
    let mut heap = MinHeap::new::<i32>();
    for v in vec![1, 2, 3, 4, 5, 6, 7] {
        heap.add(v);
    }
    assert_eq!(heap.next(), Some(1));
    assert_eq!(heap.next(), Some(2));
    assert_eq!(heap.next(), Some(3));
    assert_eq!(heap.len(), 4);
    assert_eq!(heap.next(), Some(4));
}

#[test]
fn new_min_gives_least_first() {
    let mut heap = Heap::<u16>::new_min();
    heap.add(30);
    heap.add(10);
    heap.add(20);
    assert_eq!(heap.next(), Some(10));
    assert_eq!(heap.next(), Some(20));
    assert_eq!(heap.next(), Some(30));
    assert_eq!(heap.next(), None);
}

#[test]
fn new_max_gives_greatest_first() {
    let mut heap = Heap::<u16>::new_max();
    heap.add(30);
    heap.add(10);
    heap.add(40);
    assert_eq!(heap.next(), Some(40));
    assert_eq!(heap.next(), Some(30));
    assert_eq!(heap.next(), Some(10));
    assert_eq!(heap.next(), None);
}

fn shorter_first(a: &String, b: &String) -> bool {
    a.len() < b.len()
}

#[test]
fn custom_predicate_orders_by_length() {
    let mut heap = Heap::new(shorter_first);
    heap.add(String::from("ccc"));
    heap.add(String::from("a"));
    heap.add(String::from("dddd"));
    heap.add(String::from("bb"));
    assert_eq!(heap.len(), 4);
    assert_eq!(heap.next(), Some(String::from("a")));
    assert_eq!(heap.next(), Some(String::from("bb")));
    assert_eq!(heap.next(), Some(String::from("ccc")));
    assert_eq!(heap.next(), Some(String::from("dddd")));
    assert_eq!(heap.next(), None);
}

#[test]
fn closure_predicate_on_pairs() {
    let mut heap = Heap::new(|a: &(u8, u8), b: &(u8, u8)| a.1 > b.1);
    heap.add((1, 10));
    heap.add((2, 30));
    heap.add((3, 20));
    assert_eq!(heap.next(), Some((2, 30)));
    assert_eq!(heap.next(), Some((3, 20)));
    assert_eq!(heap.next(), Some((1, 10)));
    assert!(heap.is_empty());
}

#[test]
fn non_strict_predicate_keeps_every_value() {
    let mut heap = Heap::new(|a: &i32, b: &i32| a <= b);
    for v in vec![3, 1, 3, 2, 1] {
        heap.add(v);
    }
    assert_eq!(heap.len(), 5);
    let mut out: Vec<i32> = Vec::new();
    while let Some(v) = heap.next() {
        out.push(v);
    }
    out.sort();
    assert_eq!(out, vec![1, 1, 2, 3, 3]);
}

#[test]
fn equal_priorities_come_out_by_slot() {
    let mut heap = Heap::new(|a: &(u8, char), b: &(u8, char)| a.0 < b.0);
    heap.add((1, 'a'));
    heap.add((1, 'b'));
    heap.add((1, 'c'));
    assert_eq!(heap.next(), Some((1, 'a')));
    assert_eq!(heap.next(), Some((1, 'c')));
    assert_eq!(heap.next(), Some((1, 'b')));
    assert_eq!(heap.next(), None);
}

#[test]
fn right_child_wins_when_left_is_not_preferred() {
    let mut heap = MinHeap::new::<i32>();
    for v in vec![1, 9, 3, 10, 11, 4] {
        heap.add(v);
    }
    assert_eq!(heap.next(), Some(1));
    assert_eq!(heap.next(), Some(3));
    assert_eq!(heap.next(), Some(4));
    assert_eq!(heap.next(), Some(9));
    assert_eq!(heap.next(), Some(10));
    assert_eq!(heap.next(), Some(11));
    assert!(heap.is_empty());
}
