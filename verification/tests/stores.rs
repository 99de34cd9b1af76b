use rueue::{BasicArray, PutError, QueueError};
use std::collections::VecDeque;

#[test]
fn fifo_store_hands_out_from_the_front() {
    let mut store: VecDeque<u32> = BasicArray::new(None);
    BasicArray::put(&mut store, 1);
    BasicArray::put(&mut store, 2);
    BasicArray::put(&mut store, 3);
    assert_eq!(BasicArray::len(&store), 3);
    assert_eq!(BasicArray::get(&mut store), Some(1));
    assert_eq!(BasicArray::get(&mut store), Some(2));
    assert_eq!(BasicArray::get(&mut store), Some(3));
    assert_eq!(BasicArray::get(&mut store), None);
}

#[test]
fn lifo_store_hands_out_from_the_back() {
    let mut store: Vec<u32> = BasicArray::new(Some(3));
    BasicArray::put(&mut store, 1);
    BasicArray::put(&mut store, 2);
    BasicArray::put(&mut store, 3);
    assert_eq!(BasicArray::len(&store), 3);
    assert_eq!(BasicArray::get(&mut store), Some(3));
    assert_eq!(BasicArray::get(&mut store), Some(2));
    assert_eq!(BasicArray::get(&mut store), Some(1));
    assert_eq!(BasicArray::get(&mut store), None);
}

#[test]
fn capacity_hint_does_not_limit_a_store() {
    let mut store: VecDeque<u32> = BasicArray::new(Some(1));
    for i in 0..10 {
        BasicArray::put(&mut store, i);
    }
    assert_eq!(BasicArray::len(&store), 10);
    let mut stack: Vec<u32> = BasicArray::new(Some(1));
    for i in 0..10 {
        BasicArray::put(&mut stack, i);
    }
    assert_eq!(BasicArray::len(&stack), 10);
}

#[test]
fn engine_functions_work_on_a_bare_store() {
    let mut store: VecDeque<u8> = BasicArray::new(None);
    assert!(rueue::queue::store_is_empty(&store));
    assert!(!rueue::queue::store_is_full(&store, Some(1)));
    rueue::queue::put_into(&mut store, Some(1), 7).unwrap();
    assert!(!rueue::queue::store_is_empty(&store));
    assert!(rueue::queue::store_is_full(&store, Some(1)));
    assert!(!rueue::queue::store_is_full(&store, None));
    let rejected = rueue::queue::put_into(&mut store, Some(1), 8).unwrap_err();
    assert_eq!(rejected.reason(), QueueError::Full);
    assert_eq!(rejected.into_value(), 8);
    assert_eq!(rueue::queue::get_from(&mut store), Ok(7));
    assert_eq!(rueue::queue::get_from(&mut store), Err(QueueError::Empty));
}

#[test]
fn put_error_gives_back_what_it_was_made_with() {
    let e = PutError::new(vec![1, 2, 3], QueueError::Poisoned);
    assert_eq!(e.reason(), QueueError::Poisoned);
    assert_eq!(e.rejected(), &vec![1, 2, 3]);
    assert_eq!(e.into_value(), vec![1, 2, 3]);
}

#[test]
fn stored_key_comparison_follows_the_operator() {
    assert!(rueue::order::at_most(&1, &2));
    assert!(rueue::order::at_most(&2, &2));
    assert!(!rueue::order::at_most(&3, &2));
}
