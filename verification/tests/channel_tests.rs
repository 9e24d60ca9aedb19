use aurora_kvm::channel::EventQueue;
use aurora_kvm::event::KvmEvent;

fn ev(i: i32) -> KvmEvent {
    KvmEvent::Wheel { dx: i, dy: 0 }
}

#[test]
fn overflow_keeps_the_most_recent_events() {
    // A slow subscriber: two hundred events into a hundred-capacity
    // buffer. Publishing never blocks; the subscriber then receives
    // exactly the most recent hundred, in order.
    let mut q = EventQueue::new(100);
    for i in 0..200 {
        q.push(ev(i));
    }
    assert_eq!(q.len(), 100);
    assert_eq!(q.dropped, 100);
    for i in 100..200 {
        assert_eq!(q.pop(), Some(ev(i)));
    }
    assert_eq!(q.pop(), None);
}

#[test]
fn below_capacity_nothing_is_lost() {
    let mut q = EventQueue::new(100);
    for i in 0..50 {
        q.push(ev(i));
    }
    assert_eq!(q.len(), 50);
    assert_eq!(q.dropped, 0);
    for i in 0..50 {
        assert_eq!(q.pop(), Some(ev(i)));
    }
    assert_eq!(q.pop(), None);
}

#[test]
fn capacity_one_holds_only_the_latest() {
    let mut q = EventQueue::new(1);
    q.push(ev(1));
    q.push(ev(2));
    q.push(ev(3));
    assert_eq!(q.len(), 1);
    assert_eq!(q.dropped, 2);
    assert_eq!(q.pop(), Some(ev(3)));
}
