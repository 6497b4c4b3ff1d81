//! The per-node emitter: late subscribers, bounded buffers, independence.

use playwright_core::emitter::Emitter;

#[test]
fn late_subscriber_sees_only_later_events() {
    let mut em: Emitter<u32> = Emitter::new();
    em.emit(1);
    em.emit(2);
    em.emit(3);

    // A subscriber created after three events receives none of them.
    let sub = em.subscribe(8);
    assert!(em.try_recv(sub).is_none());

    // Only subsequent ones arrive.
    em.emit(4);
    let idx = em.try_recv(sub).expect("the fourth event");
    assert_eq!(*em.event(idx), 4);
    assert!(em.try_recv(sub).is_none());
}

#[test]
fn slow_subscriber_loses_oldest_not_newest() {
    let mut em: Emitter<u32> = Emitter::new();
    let sub = em.subscribe(2);
    em.emit(10);
    em.emit(20);
    em.emit(30);
    // Capacity two: the oldest buffered entry fell out.
    let a = em.try_recv(sub).expect("first kept entry");
    assert_eq!(*em.event(a), 20);
    let b = em.try_recv(sub).expect("second kept entry");
    assert_eq!(*em.event(b), 30);
    assert!(em.try_recv(sub).is_none());
}

#[test]
fn subscribers_are_independent() {
    let mut em: Emitter<u32> = Emitter::new();
    let fast = em.subscribe(8);
    let slow = em.subscribe(1);
    em.emit(1);
    em.emit(2);
    // The fast subscriber sees both; the slow one only the newest.
    let a = em.try_recv(fast).unwrap();
    assert_eq!(*em.event(a), 1);
    let b = em.try_recv(fast).unwrap();
    assert_eq!(*em.event(b), 2);
    let c = em.try_recv(slow).unwrap();
    assert_eq!(*em.event(c), 2);
    assert!(em.try_recv(slow).is_none());
}

#[test]
fn emission_without_subscribers_is_a_no_op() {
    let mut em: Emitter<u32> = Emitter::new();
    em.emit(7);
    assert_eq!(em.subscriber_count(), 0);
    assert_eq!(em.emitted(), 1);
}
