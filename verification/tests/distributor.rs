use servocam::distributor::Distributor;

#[test]
fn new_distributor_is_empty() {
    let d = Distributor::new();
    assert_eq!(d.subscriber_count(), 0);
    assert_eq!(d.next_sequence(), 0);
    assert!(d.can_publish());
    assert!(d.can_subscribe());
}

#[test]
fn publish_without_subscribers_is_discarded() {
    let mut d = Distributor::new();
    for n in 0..1000u64 {
        let sequence = d.publish(vec![1, 2, 3], n);
        assert_eq!(sequence, n);
        assert_eq!(d.subscriber_count(), 0);
    }
    assert_eq!(d.next_sequence(), 1000);
    // A subscriber that arrives afterwards finds nothing of what was published.
    let late = d.subscribe();
    assert!(d.receive(&late).is_none());
}

#[test]
fn subscriber_receives_published_frame() {
    let mut d = Distributor::new();
    let s = d.subscribe();
    let sequence = d.publish(vec![9, 8, 7], 1234);
    assert_eq!(sequence, 0);
    let frame = d.receive(&s).expect("a frame was published");
    assert_eq!(frame.sequence(), 0);
    assert_eq!(frame.captured_at_ms(), 1234);
    assert_eq!(frame.payload(), &vec![9u8, 8, 7]);
    assert!(d.receive(&s).is_none());
}

#[test]
fn slow_subscriber_sees_latest_frame_only() {
    let mut d = Distributor::new();
    let s = d.subscribe();
    d.publish(vec![0], 10);
    d.publish(vec![1], 20);
    d.publish(vec![2], 30);
    let frame = d.receive(&s).expect("the latest frame waits");
    assert_eq!(frame.sequence(), 2);
    assert_eq!(frame.into_payload(), vec![2u8]);
    assert!(d.receive(&s).is_none());
}

#[test]
fn slow_subscriber_sequences_strictly_increase() {
    let mut d = Distributor::new();
    let s = d.subscribe();
    let mut seen: Vec<u64> = Vec::new();
    let mut clock = 0u64;
    // Reads after 1, 3, 2, 5 and 1 publishes, and twice with nothing new.
    for burst in [1usize, 3, 0, 2, 5, 0, 1] {
        for _ in 0..burst {
            clock += 33;
            d.publish(vec![clock as u8], clock);
        }
        if let Some(frame) = d.receive(&s) {
            seen.push(frame.sequence());
        }
    }
    assert_eq!(seen, vec![0, 3, 5, 10, 11]);
    for pair in seen.windows(2) {
        assert!(pair[0] < pair[1]);
    }
}

#[test]
fn subscribers_read_independently() {
    let mut d = Distributor::new();
    let fast = d.subscribe();
    let slow = d.subscribe();
    d.publish(vec![1], 1);
    assert_eq!(d.receive(&fast).unwrap().sequence(), 0);
    d.publish(vec![2], 2);
    assert_eq!(d.receive(&fast).unwrap().sequence(), 1);
    assert_eq!(d.receive(&slow).unwrap().sequence(), 1);
    assert!(d.receive(&fast).is_none());
    assert!(d.receive(&slow).is_none());
}

#[test]
fn subscriber_count_tracks_live_subscriptions() {
    let mut d = Distributor::new();
    let a = d.subscribe();
    assert_eq!(d.subscriber_count(), 1);
    let b = d.subscribe();
    let c = d.subscribe();
    assert_eq!(d.subscriber_count(), 3);
    assert_ne!(a.id(), b.id());
    assert_ne!(b.id(), c.id());
    d.unsubscribe(b);
    assert_eq!(d.subscriber_count(), 2);
    assert!(d.is_subscribed(&a));
    assert!(d.is_subscribed(&c));
    d.unsubscribe(a);
    d.unsubscribe(c);
    assert_eq!(d.subscriber_count(), 0);
}

#[test]
fn subscription_ids_are_never_reused() {
    let mut d = Distributor::new();
    let first = d.subscribe();
    let first_id = first.id();
    d.unsubscribe(first);
    let second = d.subscribe();
    assert_eq!(first_id, 0);
    assert_eq!(second.id(), 1);
    assert_eq!(d.subscriber_count(), 1);
}

#[test]
fn unsubscribe_discards_pending_frame() {
    let mut d = Distributor::new();
    let s = d.subscribe();
    d.publish(vec![5; 16], 7);
    d.unsubscribe(s);
    assert_eq!(d.subscriber_count(), 0);
    // Publishing goes on without error once the subscriber is gone.
    assert_eq!(d.publish(vec![6; 16], 8), 1);
    assert_eq!(d.subscriber_count(), 0);
}

#[test]
fn foreign_subscription_reads_nothing_and_changes_nothing() {
    let mut d = Distributor::new();
    let mine = d.subscribe();
    let mut elsewhere = Distributor::new();
    let _zero = elsewhere.subscribe();
    let foreign = elsewhere.subscribe();
    d.publish(vec![1], 1);
    assert!(!d.is_subscribed(&foreign));
    assert!(d.receive(&foreign).is_none());
    d.unsubscribe(foreign);
    assert_eq!(d.subscriber_count(), 1);
    assert_eq!(d.receive(&mine).unwrap().sequence(), 0);
}

#[test]
fn frame_duplicate_is_equal_and_independent() {
    let mut d = Distributor::new();
    let s = d.subscribe();
    d.publish(vec![1, 2, 3, 4], 99);
    let frame = d.receive(&s).unwrap();
    let copy = frame.duplicate();
    assert_eq!(copy.sequence(), frame.sequence());
    assert_eq!(copy.captured_at_ms(), frame.captured_at_ms());
    assert_eq!(copy.payload(), frame.payload());
    let mut bytes = copy.into_payload();
    bytes[0] = 42;
    assert_eq!(frame.payload(), &vec![1u8, 2, 3, 4]);
}
