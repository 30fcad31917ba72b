use bedside_clock::event::EventQueue;
use bedside_clock::event::InterruptEvent;

#[test]
fn fresh_queue_is_empty() {
    let mut q: EventQueue<32> = EventQueue::new();
    assert_eq!(q.count(), 0);
    assert_eq!(q.take(), None);
    assert_eq!(q.take(), None);
    assert_eq!(q.count(), 0);
}

#[test]
fn empty_take_changes_nothing() {
    let mut q: EventQueue<4> = EventQueue::new();
    for _ in 0..10 {
        assert_eq!(q.take(), None);
    }
    q.put(InterruptEvent::Tick);
    assert_eq!(q.count(), 1);
    assert_eq!(q.take(), Some(InterruptEvent::Tick));
    assert_eq!(q.take(), None);
}

#[test]
fn events_leave_in_arrival_order() {
    let mut q: EventQueue<32> = EventQueue::new();
    q.put(InterruptEvent::Tick);
    q.put(InterruptEvent::Encoder(-3));
    q.put(InterruptEvent::ShortPress);
    q.put(InterruptEvent::LongPress);
    q.put(InterruptEvent::Alarm);
    assert_eq!(q.count(), 5);
    assert_eq!(q.take(), Some(InterruptEvent::Tick));
    assert_eq!(q.take(), Some(InterruptEvent::Encoder(-3)));
    assert_eq!(q.take(), Some(InterruptEvent::ShortPress));
    assert_eq!(q.take(), Some(InterruptEvent::LongPress));
    assert_eq!(q.take(), Some(InterruptEvent::Alarm));
    assert_eq!(q.take(), None);
}

#[test]
fn full_queue_drops_the_oldest() {
    let mut q: EventQueue<32> = EventQueue::new();
    for i in 0..40i8 {
        q.put(InterruptEvent::Encoder(i));
    }
    assert_eq!(q.count(), 32);
    for i in 8..40i8 {
        assert_eq!(q.take(), Some(InterruptEvent::Encoder(i)));
    }
    assert_eq!(q.take(), None);
    assert_eq!(q.count(), 0);
}

#[test]
fn exactly_full_queue_keeps_everything() {
    let mut q: EventQueue<3> = EventQueue::new();
    q.put(InterruptEvent::Encoder(1));
    q.put(InterruptEvent::Encoder(2));
    q.put(InterruptEvent::Encoder(3));
    assert_eq!(q.count(), 3);
    assert_eq!(q.take(), Some(InterruptEvent::Encoder(1)));
    q.put(InterruptEvent::Encoder(4));
    assert_eq!(q.count(), 3);
    q.put(InterruptEvent::Encoder(5));
    assert_eq!(q.count(), 3);
    assert_eq!(q.take(), Some(InterruptEvent::Encoder(3)));
    assert_eq!(q.take(), Some(InterruptEvent::Encoder(4)));
    assert_eq!(q.take(), Some(InterruptEvent::Encoder(5)));
    assert_eq!(q.take(), None);
}

#[test]
fn queue_of_one_keeps_the_newest() {
    let mut q: EventQueue<1> = EventQueue::new();
    q.put(InterruptEvent::Tick);
    q.put(InterruptEvent::Alarm);
    assert_eq!(q.count(), 1);
    assert_eq!(q.take(), Some(InterruptEvent::Alarm));
    assert_eq!(q.take(), None);
}

#[test]
fn count_follows_wrapped_cursors() {
    let mut q: EventQueue<4> = EventQueue::new();
    for round in 0..10i8 {
        q.put(InterruptEvent::Encoder(round));
        q.put(InterruptEvent::Encoder(round));
        q.put(InterruptEvent::Encoder(round));
        assert_eq!(q.count(), 3);
        assert_eq!(q.take(), Some(InterruptEvent::Encoder(round)));
        assert_eq!(q.count(), 2);
        assert_eq!(q.take(), Some(InterruptEvent::Encoder(round)));
        assert_eq!(q.take(), Some(InterruptEvent::Encoder(round)));
        assert_eq!(q.count(), 0);
    }
}
