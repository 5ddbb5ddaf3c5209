//! An array-backed binary heap whose order is chosen by a caller-supplied
//! priority predicate, together with the laws that relate its operations.

pub mod heap;
pub mod laws;
pub mod order;
pub mod shape;

pub use heap::{Heap, MaxHeap, MinHeap};

