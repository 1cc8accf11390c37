use oxcart::heap::Heap;
use oxcart::order::{Comparator, NaturalOrder, ReverseOrder, TotalOrder};
use oxcart::priority_queue::{PriorityQueue, PriorityQueueError};

#[test]
fn heap_test_new_normal() -> Result<(), PriorityQueueError> {
    let actual_priority_queue: Heap<u64> = Heap::new();
    let expected_priority_queue: Heap<u64> = <Heap<u64> as PriorityQueue<u64>>::new();

    assert_eq!(actual_priority_queue, expected_priority_queue);
    assert_eq!(actual_priority_queue.length()?, 0);
    Ok(())
}

#[test]
fn test_push_normal1() -> Result<(), PriorityQueueError> {
    let mut actual_priority_queue: Heap<u64> = Heap::new();

    for i in 1..10 {
        actual_priority_queue.push(i)?;
    }

    assert_eq!(actual_priority_queue.pop()?, 9);
    assert_eq!(actual_priority_queue.pop()?, 8);
    assert_eq!(actual_priority_queue.pop()?, 7);
    assert_eq!(actual_priority_queue.pop()?, 6);
    assert_eq!(actual_priority_queue.pop()?, 5);
    assert_eq!(actual_priority_queue.pop()?, 4);
    assert_eq!(actual_priority_queue.pop()?, 3);
    assert_eq!(actual_priority_queue.pop()?, 2);
    assert_eq!(actual_priority_queue.pop()?, 1);

    Ok(())
}

#[test]
fn heap_pops_arbitrary_elements_in_descending_order() -> Result<(), PriorityQueueError> {
    let input: Vec<i64> = vec![5, -3, 12, 5, 0, 99, -40, 12, 7, 1, 1];
    let mut heap: Heap<i64> = Heap::new();
    for x in input.iter() {
        heap.push(*x)?;
    }
    assert_eq!(heap.length()?, input.len());
    let mut out: Vec<i64> = Vec::new();
    for _ in 0..input.len() {
        out.push(heap.pop()?);
    }
    assert_eq!(out, vec![99, 12, 12, 7, 5, 5, 1, 1, 0, -3, -40]);
    assert_eq!(heap.length()?, 0);
    Ok(())
}

#[test]
fn heap_pop_and_peek_on_empty_fail() {
    let mut heap: Heap<u32> = Heap::new();
    assert_eq!(heap.pop(), Err(PriorityQueueError::OutOfBounds));
    assert_eq!(heap.peek(), Err(PriorityQueueError::OutOfBounds));
    assert_eq!(heap.length(), Ok(0));
}

#[test]
fn heap_peek_shows_greatest_without_removing() -> Result<(), PriorityQueueError> {
    let mut heap: Heap<u8> = Heap::new();
    heap.push(4)?;
    heap.push(200)?;
    heap.push(17)?;
    assert_eq!(heap.peek()?, &200);
    assert_eq!(heap.length()?, 3);
    assert_eq!(heap.pop()?, 200);
    assert_eq!(heap.peek()?, &17);
    Ok(())
}

#[test]
fn heap_find_reports_position_in_heap_order() -> Result<(), PriorityQueueError> {
    let mut heap: Heap<u64> = Heap::new();
    heap.push(1)?;
    heap.push(2)?;
    heap.push(3)?;
    // after sifting, the heap array is [3, 1, 2]
    assert_eq!(heap.find(3)?, Some(0));
    assert_eq!(heap.find(1)?, Some(1));
    assert_eq!(heap.find(2)?, Some(2));
    assert_eq!(heap.find(4)?, None);
    Ok(())
}

#[test]
fn heap_interleaved_push_and_pop() -> Result<(), PriorityQueueError> {
    let mut heap: Heap<usize> = Heap::new();
    heap.push(10)?;
    heap.push(30)?;
    assert_eq!(heap.pop()?, 30);
    heap.push(20)?;
    heap.push(5)?;
    assert_eq!(heap.pop()?, 20);
    assert_eq!(heap.pop()?, 10);
    assert_eq!(heap.pop()?, 5);
    assert_eq!(heap.pop(), Err(PriorityQueueError::OutOfBounds));
    Ok(())
}

#[test]
fn natural_order_on_integers() {
    assert!(3u64.is_at_most(&3));
    assert!(3u64.is_at_most(&4));
    assert!(!4u64.is_at_most(&3));
    assert!((-5i32).is_at_most(&-1));
    assert!(!(i128::MAX).is_at_most(&0));
}

#[test]
fn heap_with_reverse_order_pops_least_first() -> Result<(), PriorityQueueError> {
    let mut heap: Heap<u64, ReverseOrder> = Heap::with_comparator(ReverseOrder);
    for x in [8u64, 3, 11, 3, 0, 6] {
        heap.push(x)?;
    }
    let mut out: Vec<u64> = Vec::new();
    while heap.length()? > 0 {
        out.push(heap.pop()?);
    }
    assert_eq!(out, vec![0, 3, 3, 6, 8, 11]);
    Ok(())
}

#[test]
fn heap_with_natural_order_matches_default() -> Result<(), PriorityQueueError> {
    let mut explicit: Heap<i16, NaturalOrder> = Heap::with_comparator(NaturalOrder);
    let mut default: Heap<i16> = Heap::new();
    for x in [4i16, -9, 15, 2] {
        explicit.push(x)?;
        default.push(x)?;
    }
    assert_eq!(explicit, default);
    assert_eq!(explicit.pop()?, 15);
    assert_eq!(default.pop()?, 15);
    Ok(())
}

#[test]
fn comparators_rank_as_stated() {
    assert!(NaturalOrder.in_order(&1u32, &2u32));
    assert!(!NaturalOrder.in_order(&2u32, &1u32));
    assert!(ReverseOrder.in_order(&2u32, &1u32));
    assert!(!ReverseOrder.in_order(&1u32, &2u32));
    assert!(ReverseOrder.in_order(&5u32, &5u32));
}
