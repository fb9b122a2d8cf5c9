use msg_supabase::prelude::ResultQueue;
use std::sync::{Arc, Mutex};

#[derive(Clone)]
struct Shared<T>(Arc<Mutex<ResultQueue<T>>>);

impl<T> Shared<T> {
    fn new() -> Self {
        Shared(Arc::new(Mutex::new(ResultQueue::new())))
    }

    fn sender(&self) -> Self {
        Shared(self.0.clone())
    }

    fn send(&self, value: T) {
        let mut lock = self.0.lock().ok();
        ResultQueue::send_locked(lock.as_deref_mut(), value);
    }

    fn drain(&self) -> Vec<T> {
        let mut lock = self.0.try_lock().ok();
        ResultQueue::drain_locked(lock.as_deref_mut())
    }

    fn is_empty(&self) -> bool {
        let lock = self.0.try_lock().ok();
        ResultQueue::is_empty_locked(lock.as_deref())
    }
}

#[test]
fn drains_in_arrival_order() {
    let queue: Shared<u8> = Shared::new();
    queue.send(1);
    queue.sender().send(2);
    queue.send(3);

    assert_eq!(queue.drain(), vec![1, 2, 3]);
    assert!(queue.drain().is_empty());
}

#[test]
fn senders_share_one_queue() {
    let queue: Shared<&str> = Shared::new();
    let first = queue.sender();
    let second = first.clone();

    first.send("a");
    second.send("b");

    assert_eq!(queue.drain(), vec!["a", "b"]);
}

#[test]
fn empty_until_a_value_arrives() {
    let queue: Shared<u8> = Shared::new();
    assert!(queue.is_empty());
    queue.send(7);
    assert!(!queue.is_empty());
}

#[test]
fn a_held_queue_drains_nothing_and_keeps_its_values() {
    let queue: Shared<u8> = Shared::new();
    queue.send(7);
    {
        let _held = queue.0.lock();
        assert!(queue.drain().is_empty());
        assert!(queue.is_empty());
    }
    assert!(!queue.is_empty());
    assert_eq!(queue.drain(), vec![7]);
}

#[test]
fn a_value_without_a_queue_is_dropped() {
    ResultQueue::send_locked(None, 3);
    assert!(ResultQueue::<u8>::drain_locked(None).is_empty());
    assert!(ResultQueue::<u8>::is_empty_locked(None));
}

#[test]
fn values_arrive_once_over_several_drains() {
    let mut queue: ResultQueue<u32> = ResultQueue::default();
    let mut seen = Vec::new();
    for round in 0..4u32 {
        queue.send(2 * round);
        queue.send(2 * round + 1);
        if round % 2 == 1 {
            seen.extend(queue.drain());
        }
    }
    queue.send(8);
    seen.extend(queue.drain());
    assert!(queue.is_empty());
    assert_eq!(seen, (0..9).collect::<Vec<u32>>());
}
