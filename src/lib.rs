//! In-memory containers behind capability traits, with verified contracts: an
//! array-backed `List`, a binary-heap `PriorityQueue` ranked by a comparator,
//! and a bubble sort written against the `List` capability alone.

pub mod arraylist;
pub mod bubblesort;
pub mod heap;
pub mod list;
pub mod map;
pub mod order;
pub mod priority_queue;
pub mod queue;
pub mod set;
pub mod stack;
