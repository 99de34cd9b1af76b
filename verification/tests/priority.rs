use rueue::{BasicArray, MaxHeap, PrioritizedItem, PriorityQueue, Queue, QueueError};
use std::time::Duration;

#[test]
fn priority_gets_come_out_highest_first() {
    let mut queue = PriorityQueue::new(None);
    queue.put(PrioritizedItem(1, 10)).unwrap();
    queue.put(PrioritizedItem(2, 8)).unwrap();
    queue.put(PrioritizedItem(3, 9)).unwrap();

    let first = queue.get().unwrap();
    assert_eq!(first.0, 1);
    assert_eq!(first.1, 10);
    let second = queue.get().unwrap();
    assert_eq!(second.0, 3);
    assert_eq!(second.1, 9);
    let third = queue.get().unwrap();
    assert_eq!(third.0, 2);
    assert_eq!(third.1, 8);
    assert!(matches!(queue.get(), Err(QueueError::Empty)));
}

#[test]
fn heap_drains_in_descending_priority() {
    let keys: [u32; 12] = [5, 1, 9, 3, 7, 7, 0, 12, 4, 9, 2, 8];
    let mut heap: MaxHeap<usize, u32> = BasicArray::new(Some(12));
    for (payload, key) in keys.iter().enumerate() {
        heap.put(PrioritizedItem(payload, *key));
    }
    assert_eq!(heap.len(), 12);
    let mut drained = Vec::new();
    while let Some(item) = heap.get() {
        assert_eq!(keys[item.0], item.1);
        drained.push(item.1);
    }
    assert_eq!(drained, vec![12, 9, 9, 8, 7, 7, 5, 4, 3, 2, 1, 0]);
    assert_eq!(heap.len(), 0);
}

#[test]
fn heap_keeps_order_while_puts_and_gets_alternate() {
    let mut heap: MaxHeap<(), i64> = BasicArray::new(None);
    let mut seed: u64 = 12345;
    let mut held: Vec<i64> = Vec::new();
    for round in 0..2000 {
        seed = seed.wrapping_mul(6364136223846793005).wrapping_add(1442695040888963407);
        let key = ((seed >> 33) % 50) as i64 - 25;
        if round % 3 == 2 {
            let expected = held.iter().copied().max();
            let got = heap.get().map(|item| item.1);
            assert_eq!(got, expected);
            if let Some(k) = got {
                let at = held.iter().position(|h| *h == k).unwrap();
                held.swap_remove(at);
            }
        } else {
            heap.put(PrioritizedItem((), key));
            held.push(key);
        }
        assert_eq!(heap.len(), held.len());
    }
}

#[test]
fn payload_takes_no_part_in_the_order() {
    let mut queue = PriorityQueue::new(None);
    queue.put(PrioritizedItem("zebra", 1)).unwrap();
    queue.put(PrioritizedItem("apple", 2)).unwrap();
    assert_eq!(queue.get().unwrap().0, "apple");
    assert_eq!(queue.get().unwrap().0, "zebra");
}

#[test]
fn items_compare_by_priority_alone() {
    let low = PrioritizedItem("z", 1);
    let high = PrioritizedItem("a", 2);
    let same = PrioritizedItem("other", 2);
    assert!(low < high);
    assert!(high > low);
    assert!(high == same);
    assert!(low != high);
    assert!(high <= same && high >= same);
}

#[test]
fn priority_queue_respects_its_bound() {
    let mut queue = PriorityQueue::new(Some(2));
    queue.put(PrioritizedItem('a', 1)).unwrap();
    queue.put(PrioritizedItem('b', 3)).unwrap();
    assert!(queue.is_full());
    let rejected = queue.put_wait(PrioritizedItem('c', 2), Duration::from_millis(20)).unwrap_err();
    assert_eq!(rejected.reason(), QueueError::Full);
    let back = rejected.into_value();
    assert_eq!(back.0, 'c');
    assert_eq!(back.1, 2);
    assert_eq!(queue.get().unwrap().0, 'b');
    queue.put(PrioritizedItem('c', 2)).unwrap();
    assert_eq!(queue.get().unwrap().0, 'c');
    assert_eq!(queue.get().unwrap().0, 'a');
}

#[test]
fn equal_priorities_all_come_out() {
    let mut queue = PriorityQueue::new(None);
    for payload in 0..10 {
        queue.put(PrioritizedItem(payload, 7)).unwrap();
    }
    let mut seen = Vec::new();
    for _ in 0..10 {
        let item = queue.get().unwrap();
        assert_eq!(item.1, 7);
        seen.push(item.0);
    }
    seen.sort();
    assert_eq!(seen, (0..10).collect::<Vec<i32>>());
}
