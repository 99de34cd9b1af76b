use rueue::{LifoQueue, Queue, QueueError};
use std::time::Duration;

#[test]
fn lifo_gets_reverse_the_order_of_puts() {
    let mut queue = LifoQueue::new(None);
    queue.put(1).unwrap();
    queue.put(2).unwrap();
    queue.put(3).unwrap();
    assert_eq!(queue.get().unwrap(), 3);
    assert_eq!(queue.get().unwrap(), 2);
    assert_eq!(queue.get().unwrap(), 1);
    assert_eq!(queue.get(), Err(QueueError::Empty));
}

#[test]
fn lifo_reverses_many_values() {
    let mut queue = LifoQueue::new(None);
    for i in 0..500u32 {
        queue.put(i).unwrap();
    }
    for i in (0..500u32).rev() {
        assert_eq!(queue.get().unwrap(), i);
    }
    assert!(queue.is_empty());
}

#[test]
fn lifo_put_between_gets_comes_out_next() {
    let mut queue = LifoQueue::new(Some(4));
    queue.put('a').unwrap();
    queue.put('b').unwrap();
    assert_eq!(queue.get().unwrap(), 'b');
    queue.put('c').unwrap();
    assert_eq!(queue.get().unwrap(), 'c');
    assert_eq!(queue.get().unwrap(), 'a');
    assert!(queue.is_empty());
}

#[test]
fn lifo_respects_its_bound() {
    let mut queue = LifoQueue::new(Some(2));
    queue.put(1).unwrap();
    queue.put(2).unwrap();
    let rejected = queue.put(3).unwrap_err();
    assert_eq!(rejected.reason(), QueueError::Full);
    assert_eq!(rejected.into_value(), 3);
    assert_eq!(queue.len(), 2);
    assert_eq!(queue.get_wait(Duration::from_millis(10)).unwrap(), 2);
}

#[test]
fn lifo_accepts_a_huge_capacity_hint() {
    let mut queue = LifoQueue::new(Some(usize::MAX));
    queue.put(1u64).unwrap();
    assert_eq!(queue.get().unwrap(), 1);
}
