use rueue::{FifoQueue, Queue, QueueError};
use std::time::{Duration, Instant};

#[test]
fn fifo_gets_follow_the_order_of_puts() {
    let mut queue = FifoQueue::new(None);
    queue.put(1).unwrap();
    queue.put(2).unwrap();
    queue.put(3).unwrap();
    assert_eq!(queue.len(), 3);
    assert_eq!(queue.get().unwrap(), 1);
    assert_eq!(queue.get().unwrap(), 2);
    assert_eq!(queue.get().unwrap(), 3);
    assert!(queue.is_empty());
}

#[test]
fn fifo_keeps_order_over_many_values() {
    let mut queue = FifoQueue::new(None);
    for i in 0..1000u32 {
        queue.put(i).unwrap();
    }
    assert_eq!(queue.len(), 1000);
    for i in 0..1000u32 {
        assert_eq!(queue.get().unwrap(), i);
    }
    assert_eq!(queue.get(), Err(QueueError::Empty));
}

#[test]
fn fresh_queue_is_empty_and_get_reports_empty() {
    let mut queue: FifoQueue<u8> = FifoQueue::new(None);
    assert_eq!(queue.len(), 0);
    assert!(queue.is_empty());
    assert!(!queue.is_full());
    assert_eq!(queue.get(), Err(QueueError::Empty));
    assert_eq!(queue.len(), 0);
}

#[test]
fn fresh_bounded_queue_is_empty_too() {
    let mut queue: FifoQueue<u8> = FifoQueue::new(Some(5));
    assert_eq!(queue.len(), 0);
    assert!(queue.is_empty());
    assert!(!queue.is_full());
    assert_eq!(queue.get(), Err(QueueError::Empty));
}

#[test]
fn bounded_queue_rejects_the_put_past_its_bound() {
    let mut queue = FifoQueue::new(Some(3));
    for i in 0..3 {
        assert!(!queue.is_full());
        queue.put(i).unwrap();
    }
    assert!(queue.is_full());
    let rejected = queue.put(99).unwrap_err();
    assert_eq!(rejected.reason(), QueueError::Full);
    assert_eq!(*rejected.rejected(), 99);
    assert_eq!(rejected.into_value(), 99);
    assert_eq!(queue.len(), 3);
    assert_eq!(queue.get().unwrap(), 0);
    assert!(!queue.is_full());
    queue.put(3).unwrap();
    assert_eq!(queue.len(), 3);
}

#[test]
fn rejected_value_comes_back_unchanged() {
    let mut queue = FifoQueue::new(Some(1));
    queue.put(String::from("kept")).unwrap();
    let rejected = queue.put(String::from("returned")).unwrap_err();
    assert_eq!(rejected.rejected(), "returned");
    assert_eq!(rejected.into_value(), String::from("returned"));
    assert_eq!(queue.get().unwrap(), "kept");
}

#[test]
fn queue_with_bound_zero_is_always_full() {
    let mut queue = FifoQueue::new(Some(0));
    assert!(queue.is_full());
    assert!(queue.is_empty());
    let rejected = queue.put(1).unwrap_err();
    assert_eq!(rejected.reason(), QueueError::Full);
    assert_eq!(queue.len(), 0);
}

#[test]
fn unbounded_queue_is_never_full() {
    let mut queue = FifoQueue::new(None);
    for i in 0..100 {
        assert!(!queue.is_full());
        queue.put(i).unwrap();
    }
    assert!(!queue.is_full());
    assert_eq!(queue.len(), 100);
}

#[test]
fn observers_repeat_their_answers() {
    let mut queue = FifoQueue::new(Some(2));
    queue.put(1).unwrap();
    for _ in 0..3 {
        assert_eq!(queue.len(), 1);
        assert!(!queue.is_empty());
        assert!(!queue.is_full());
    }
    queue.put(2).unwrap();
    for _ in 0..3 {
        assert_eq!(queue.len(), 2);
        assert!(!queue.is_empty());
        assert!(queue.is_full());
    }
}

#[test]
fn cloned_handles_share_one_queue() {
    let mut first = FifoQueue::new(Some(2));
    let mut second = first.clone();
    first.put(10).unwrap();
    assert_eq!(second.len(), 1);
    second.put(20).unwrap();
    assert!(first.is_full());
    assert_eq!(first.put(30).unwrap_err().reason(), QueueError::Full);
    assert_eq!(second.get().unwrap(), 10);
    assert_eq!(first.get().unwrap(), 20);
    assert!(first.is_empty());
    assert!(second.is_empty());
}

#[test]
fn queue_outlives_the_handle_it_was_made_through() {
    let mut first = FifoQueue::new(None);
    first.put(1).unwrap();
    let mut second = first.clone();
    drop(first);
    assert_eq!(second.get().unwrap(), 1);
}

#[test]
fn timed_get_on_an_empty_queue_reports_empty_after_the_timeout() {
    let mut queue: FifoQueue<u32> = FifoQueue::new(None);
    let started = Instant::now();
    assert_eq!(queue.get_wait(Duration::from_millis(100)), Err(QueueError::Empty));
    let elapsed = started.elapsed();
    assert!(elapsed >= Duration::from_millis(100));
    assert!(elapsed < Duration::from_secs(5));
    assert_eq!(queue.len(), 0);
}

#[test]
fn timed_get_returns_at_once_when_an_element_waits() {
    let mut queue = FifoQueue::new(None);
    queue.put(1).unwrap();
    let started = Instant::now();
    assert_eq!(queue.get_wait(Duration::from_millis(1000)).unwrap(), 1);
    assert!(started.elapsed() < Duration::from_millis(900));
}

#[test]
fn untimed_get_returns_at_once_when_an_element_waits() {
    let mut queue = FifoQueue::new(None);
    queue.put(5).unwrap();
    queue.put(6).unwrap();
    assert_eq!(queue.get_wait(Duration::from_millis(0)).unwrap(), 5);
    assert_eq!(queue.get_wait(Duration::ZERO).unwrap(), 6);
    assert!(queue.is_empty());
}

#[test]
fn timed_put_on_a_full_queue_hands_the_value_back_after_the_timeout() {
    let mut queue = FifoQueue::new(Some(1));
    queue.put_wait(1, Duration::from_millis(100)).unwrap();
    let started = Instant::now();
    let rejected = queue.put_wait(2, Duration::from_millis(100)).unwrap_err();
    let elapsed = started.elapsed();
    assert_eq!(rejected.reason(), QueueError::Full);
    assert_eq!(rejected.into_value(), 2);
    assert!(elapsed >= Duration::from_millis(100));
    assert!(elapsed < Duration::from_secs(5));
    assert_eq!(queue.len(), 1);
    assert_eq!(queue.get().unwrap(), 1);
}

#[test]
fn untimed_put_returns_at_once_when_there_is_room() {
    let mut queue = FifoQueue::new(Some(2));
    queue.put_wait(1, Duration::ZERO).unwrap();
    queue.put_wait(2, Duration::ZERO).unwrap();
    assert!(queue.is_full());
    let mut unbounded = FifoQueue::new(None);
    unbounded.put_wait(3, Duration::ZERO).unwrap();
    unbounded.put_wait(4, Duration::from_millis(50)).unwrap();
    assert_eq!(unbounded.len(), 2);
}

#[test]
fn huge_capacity_hint_is_only_a_hint() {
    let mut queue = FifoQueue::new(Some(usize::MAX));
    assert!(!queue.is_full());
    queue.put(1u64).unwrap();
    assert_eq!(queue.get().unwrap(), 1);
}
