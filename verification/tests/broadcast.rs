use named_queue::{
    MessageType, QueueError, QueueRegistry, QueueState, RecvError, SendError, TryRecvError,
    TrySendError,
};

fn numbers() -> MessageType {
    MessageType::of::<i32>("i32")
}

fn strings() -> MessageType {
    MessageType::of::<String>("String")
}

#[test]
fn every_subscriber_sees_every_message() {
    let mut registry: QueueRegistry<String> = QueueRegistry::new();
    registry.create_broadcasting("news", 8, strings()).unwrap();

    let tx = registry.acquire_sender("news", strings()).unwrap();
    let a = registry.acquire_receiver("news", strings()).unwrap();
    let b = registry.acquire_receiver("news", strings()).unwrap();

    tx.send(&mut registry, "one".to_string()).unwrap();
    tx.send(&mut registry, "two".to_string()).unwrap();

    assert_eq!(a.recv(&mut registry).unwrap(), "one");
    assert_eq!(a.recv(&mut registry).unwrap(), "two");
    assert_eq!(b.recv(&mut registry).unwrap(), "one");
    assert_eq!(b.recv(&mut registry).unwrap(), "two");
}

#[test]
fn subscription_starts_from_now() {
    let mut registry: QueueRegistry<i32> = QueueRegistry::new();
    registry.create_broadcasting("ticks", 8, numbers()).unwrap();
    let tx = registry.acquire_sender("ticks", numbers()).unwrap();

    tx.send(&mut registry, 1).unwrap();
    let late = registry.acquire_receiver("ticks", numbers()).unwrap();
    tx.send(&mut registry, 2).unwrap();

    assert_eq!(late.recv(&mut registry).unwrap(), 2);
    assert_eq!(late.try_recv(&mut registry), Err(TryRecvError::WouldBlock));
}

#[test]
fn send_without_subscribers_succeeds_and_discards() {
    let mut registry: QueueRegistry<i32> = QueueRegistry::new();
    registry.create_broadcasting("void", 4, numbers()).unwrap();
    let tx = registry.acquire_sender("void", numbers()).unwrap();

    tx.send(&mut registry, 42).unwrap();
    tx.try_send(&mut registry, 43).unwrap();

    let rx = registry.acquire_receiver("void", numbers()).unwrap();
    assert_eq!(rx.try_recv(&mut registry), Err(TryRecvError::WouldBlock));
}

#[test]
fn slow_subscriber_loses_oldest_fast_one_gets_all() {
    let mut registry: QueueRegistry<i32> = QueueRegistry::new();
    registry.create_broadcasting("firehose", 2, numbers()).unwrap();
    let tx = registry.acquire_sender("firehose", numbers()).unwrap();

    let slow = registry.acquire_receiver("firehose", numbers()).unwrap();
    let fast = registry.acquire_receiver("firehose", numbers()).unwrap();

    for i in 1..=5 {
        tx.send(&mut registry, i).unwrap();
        // fast keeps up
        assert_eq!(fast.recv(&mut registry).unwrap(), i);
    }

    // slow's buffer holds only the newest 2 (drop-oldest)
    assert_eq!(slow.recv(&mut registry).unwrap(), 4);
    assert_eq!(slow.recv(&mut registry).unwrap(), 5);
    assert_eq!(slow.try_recv(&mut registry), Err(TryRecvError::WouldBlock));
}

#[test]
fn sender_never_blocks_on_full_subscriber() {
    let mut registry: QueueRegistry<i32> = QueueRegistry::new();
    registry.create_broadcasting("nb", 1, numbers()).unwrap();
    let tx = registry.acquire_sender("nb", numbers()).unwrap();
    let _lagging = registry.acquire_receiver("nb", numbers()).unwrap();

    // With a work-sharing queue of capacity 1 this second send would block;
    // broadcasting must not.
    tx.send(&mut registry, 1).unwrap();
    assert!(!tx.would_block(&registry));
    tx.send(&mut registry, 2).unwrap();
    tx.try_send(&mut registry, 3).unwrap();
}

#[test]
fn receiver_clones_compete_new_acquire_is_independent() {
    let mut registry: QueueRegistry<i32> = QueueRegistry::new();
    registry.create_broadcasting("mix", 8, numbers()).unwrap();
    let tx = registry.acquire_sender("mix", numbers()).unwrap();

    let a = registry.acquire_receiver("mix", numbers()).unwrap();
    let a2 = a.clone(&mut registry); // shares a's subscription
    let b = registry.acquire_receiver("mix", numbers()).unwrap(); // independent

    tx.send(&mut registry, 7).unwrap();

    // Exactly one of {a, a2} gets the message.
    assert_eq!(a.try_recv(&mut registry).unwrap(), 7);
    assert_eq!(a2.try_recv(&mut registry), Err(TryRecvError::WouldBlock));
    // b has its own copy.
    assert_eq!(b.try_recv(&mut registry).unwrap(), 7);
}

#[test]
fn dropped_subscriber_is_unsubscribed() {
    let mut registry: QueueRegistry<i32> = QueueRegistry::new();
    registry.create_broadcasting("churn", 2, numbers()).unwrap();
    let tx = registry.acquire_sender("churn", numbers()).unwrap();

    let gone = registry.acquire_receiver("churn", numbers()).unwrap();
    gone.drop(&mut registry);
    tx.send(&mut registry, 1).unwrap();
    assert_eq!(registry.state("churn"), Ok(QueueState::Open { pending: 0 }));

    let live = registry.acquire_receiver("churn", numbers()).unwrap();
    tx.send(&mut registry, 2).unwrap();
    assert_eq!(live.recv(&mut registry).unwrap(), 2);
}

#[test]
fn shutdown_fails_sends_lets_subscribers_drain() {
    let mut registry: QueueRegistry<i32> = QueueRegistry::new();
    registry.create_broadcasting("closing", 8, numbers()).unwrap();
    let tx = registry.acquire_sender("closing", numbers()).unwrap();
    let rx = registry.acquire_receiver("closing", numbers()).unwrap();

    tx.send(&mut registry, 1).unwrap();
    tx.send(&mut registry, 2).unwrap();
    registry.shutdown("closing").unwrap();

    assert_eq!(tx.send(&mut registry, 3), Err(SendError::Closed(3)));
    assert_eq!(tx.try_send(&mut registry, 4), Err(TrySendError::Closed(4)));

    // Unlike a closed work-sharing queue, a closed broadcasting queue never
    // admits new subscribers: a fresh subscription could hold nothing.
    assert_eq!(
        registry.acquire_receiver("closing", numbers()).err(),
        Some(QueueError::Shutdown("closing".to_string()))
    );

    // Buffered messages drain, then Closed; the drained entry is retired.
    assert_eq!(rx.recv(&mut registry).unwrap(), 1);
    assert_eq!(rx.recv(&mut registry).unwrap(), 2);
    assert_eq!(rx.recv(&mut registry), Err(RecvError::Closed));
    assert_eq!(
        registry.acquire_receiver("closing", numbers()).err(),
        Some(QueueError::NoSuchQueue("closing".to_string()))
    );
}

#[test]
fn shutdown_retires_entry_once_drained() {
    let mut registry: QueueRegistry<i32> = QueueRegistry::new();
    registry.create_broadcasting("bye", 4, numbers()).unwrap();
    let rx = registry.acquire_receiver("bye", numbers()).unwrap();

    registry.shutdown("bye").unwrap();
    assert_eq!(rx.recv(&mut registry), Err(RecvError::Closed));
    rx.drop(&mut registry);

    // Entry retired: the name is free again.
    registry.create_broadcasting("bye", 4, numbers()).unwrap();
}

#[test]
fn state_reports_worst_subscriber_lag() {
    let mut registry: QueueRegistry<i32> = QueueRegistry::new();
    registry.create_broadcasting("lag", 8, numbers()).unwrap();
    let tx = registry.acquire_sender("lag", numbers()).unwrap();
    let ahead = registry.acquire_receiver("lag", numbers()).unwrap();
    let _behind = registry.acquire_receiver("lag", numbers()).unwrap();

    tx.send(&mut registry, 1).unwrap();
    tx.send(&mut registry, 2).unwrap();
    ahead.recv(&mut registry).unwrap();
    ahead.recv(&mut registry).unwrap();

    assert_eq!(registry.state("lag"), Ok(QueueState::Open { pending: 2 }));
}

#[test]
fn destroy_discards_and_frees_name() {
    let mut registry: QueueRegistry<i32> = QueueRegistry::new();
    registry.create_broadcasting("doomed", 4, numbers()).unwrap();
    let tx = registry.acquire_sender("doomed", numbers()).unwrap();
    let rx = registry.acquire_receiver("doomed", numbers()).unwrap();

    tx.send(&mut registry, 1).unwrap();
    registry.destroy("doomed").unwrap();

    assert_eq!(tx.send(&mut registry, 2), Err(SendError::Closed(2)));
    assert_eq!(rx.recv(&mut registry), Err(RecvError::Closed));
    registry.create("doomed", 4, numbers()).unwrap();
}

#[test]
fn type_mismatch_and_name_collision_across_kinds() {
    let mut registry: QueueRegistry<i32> = QueueRegistry::new();
    registry.create_broadcasting("shared-ns", 4, numbers()).unwrap();

    assert_eq!(
        registry.create("shared-ns", 4, numbers()),
        Err(QueueError::QueueAlreadyExists("shared-ns".to_string()))
    );
    assert!(matches!(
        registry.acquire_sender("shared-ns", strings()),
        Err(QueueError::TypeMismatch { .. })
    ));

    // Same type, same name: acquire works against whichever kind holds the name.
    registry.create("plain", 4, numbers()).unwrap();
    let tx = registry.acquire_sender("plain", numbers()).unwrap();
    let rx = registry.acquire_receiver("plain", numbers()).unwrap();
    tx.send(&mut registry, 9).unwrap();
    assert_eq!(rx.recv(&mut registry).unwrap(), 9);
}

#[test]
fn name_accessor_works() {
    let mut registry: QueueRegistry<i32> = QueueRegistry::new();
    registry.create_broadcasting("named", 4, numbers()).unwrap();
    let tx = registry.acquire_sender("named", numbers()).unwrap();
    let rx = registry.acquire_receiver("named", numbers()).unwrap();
    assert_eq!(tx.name(), "named");
    assert_eq!(rx.name(), "named");
}

#[test]
fn zero_capacity_broadcast_buffers_one_message() {
    let mut registry: QueueRegistry<i32> = QueueRegistry::new();
    registry.create_broadcasting("tiny", 0, numbers()).unwrap();
    let tx = registry.acquire_sender("tiny", numbers()).unwrap();
    let rx = registry.acquire_receiver("tiny", numbers()).unwrap();
    tx.send(&mut registry, 1).unwrap();
    tx.send(&mut registry, 2).unwrap();
    assert_eq!(registry.state("tiny"), Ok(QueueState::Open { pending: 1 }));
    assert_eq!(rx.recv(&mut registry), Ok(2));
}

#[test]
fn stalled_subscriber_resumes_with_the_freshest_messages() {
    let mut registry: QueueRegistry<i32> = QueueRegistry::new();
    registry.create_broadcasting("feed", 3, numbers()).unwrap();
    let tx = registry.acquire_sender("feed", numbers()).unwrap();
    let rx = registry.acquire_receiver("feed", numbers()).unwrap();
    for i in 0..100 {
        tx.send(&mut registry, i).unwrap();
    }
    assert_eq!(rx.try_recv(&mut registry), Ok(97));
    assert_eq!(rx.try_recv(&mut registry), Ok(98));
    assert_eq!(rx.try_recv(&mut registry), Ok(99));
    assert_eq!(rx.try_recv(&mut registry), Err(TryRecvError::WouldBlock));
}

#[test]
fn subscription_lives_until_its_last_receiver_is_dropped() {
    let mut registry: QueueRegistry<i32> = QueueRegistry::new();
    registry.create_broadcasting("pair", 4, numbers()).unwrap();
    let tx = registry.acquire_sender("pair", numbers()).unwrap();
    let a = registry.acquire_receiver("pair", numbers()).unwrap();
    let b = a.clone(&mut registry);

    a.drop(&mut registry);
    tx.send(&mut registry, 1).unwrap();
    assert_eq!(registry.state("pair"), Ok(QueueState::Open { pending: 1 }));
    b.drop(&mut registry);
    assert_eq!(registry.state("pair"), Ok(QueueState::Open { pending: 0 }));
}

#[test]
fn closed_broadcast_is_retired_by_its_last_lagging_subscriber() {
    let mut registry: QueueRegistry<i32> = QueueRegistry::new();
    registry.create_broadcasting("tail", 4, numbers()).unwrap();
    let tx = registry.acquire_sender("tail", numbers()).unwrap();
    let quick = registry.acquire_receiver("tail", numbers()).unwrap();
    let lagging = registry.acquire_receiver("tail", numbers()).unwrap();
    tx.send(&mut registry, 5).unwrap();
    registry.shutdown("tail").unwrap();

    assert_eq!(quick.recv(&mut registry), Ok(5));
    assert_eq!(quick.recv(&mut registry), Err(RecvError::Closed));
    // The other subscriber still has something to drain.
    assert_eq!(registry.state("tail"), Ok(QueueState::Closed { pending: 1 }));
    lagging.drop(&mut registry);
    assert_eq!(
        registry.state("tail"),
        Err(QueueError::NoSuchQueue("tail".to_string()))
    );
}

#[test]
fn destroy_take_of_a_broadcast_is_empty() {
    let mut registry: QueueRegistry<i32> = QueueRegistry::new();
    registry.create_broadcasting("copies", 4, numbers()).unwrap();
    let tx = registry.acquire_sender("copies", numbers()).unwrap();
    let rx = registry.acquire_receiver("copies", numbers()).unwrap();
    tx.send(&mut registry, 5).unwrap();
    assert_eq!(registry.destroy_take("copies", numbers()), Ok(vec![]));
    assert_eq!(rx.try_recv(&mut registry), Err(TryRecvError::Closed));
    assert_eq!(
        registry.state("copies"),
        Err(QueueError::NoSuchQueue("copies".to_string()))
    );
}

#[test]
fn free_subscription_is_used_again_and_starts_empty() {
    let mut registry: QueueRegistry<i32> = QueueRegistry::new();
    registry.create_broadcasting("seats", 4, numbers()).unwrap();
    let tx = registry.acquire_sender("seats", numbers()).unwrap();
    let first = registry.acquire_receiver("seats", numbers()).unwrap();
    let second = registry.acquire_receiver("seats", numbers()).unwrap();
    tx.send(&mut registry, 1).unwrap();
    first.drop(&mut registry);
    let third = registry.acquire_receiver("seats", numbers()).unwrap();
    assert_eq!(third.try_recv(&mut registry), Err(TryRecvError::WouldBlock));
    tx.send(&mut registry, 2).unwrap();
    assert_eq!(third.recv(&mut registry), Ok(2));
    assert_eq!(second.recv(&mut registry), Ok(1));
    assert_eq!(second.recv(&mut registry), Ok(2));
}

#[test]
fn subscriber_that_keeps_up_misses_nothing() {
    let mut registry: QueueRegistry<i32> = QueueRegistry::new();
    registry.create_broadcasting("stream", 2, numbers()).unwrap();
    let tx = registry.acquire_sender("stream", numbers()).unwrap();
    let rx = registry.acquire_receiver("stream", numbers()).unwrap();
    let idle = registry.acquire_receiver("stream", numbers()).unwrap();

    let mut got = Vec::new();
    for i in 0..50 {
        tx.send(&mut registry, 2 * i).unwrap();
        tx.send(&mut registry, 2 * i + 1).unwrap();
        got.push(rx.recv(&mut registry).unwrap());
        got.push(rx.recv(&mut registry).unwrap());
    }
    assert_eq!(got, (0..100).collect::<Vec<i32>>());
    assert_eq!(idle.recv(&mut registry), Ok(98));
    assert_eq!(idle.recv(&mut registry), Ok(99));
    assert_eq!(idle.try_recv(&mut registry), Err(TryRecvError::WouldBlock));
}

#[test]
fn dropping_a_clone_undoes_the_cloning() {
    let mut registry: QueueRegistry<i32> = QueueRegistry::new();
    registry.create_broadcasting("pair", 4, numbers()).unwrap();
    let tx = registry.acquire_sender("pair", numbers()).unwrap();
    let rx = registry.acquire_receiver("pair", numbers()).unwrap();
    tx.send(&mut registry, 1).unwrap();

    let clone = rx.clone(&mut registry);
    assert_eq!(clone.name(), "pair");
    clone.drop(&mut registry);
    assert_eq!(registry.state("pair"), Ok(QueueState::Open { pending: 1 }));
    assert_eq!(rx.recv(&mut registry), Ok(1));

    rx.drop(&mut registry);
    tx.send(&mut registry, 2).unwrap();
    assert_eq!(registry.state("pair"), Ok(QueueState::Open { pending: 0 }));
}

#[test]
fn subscriber_drains_in_order_after_shutdown_while_another_leaves() {
    let mut registry: QueueRegistry<i32> = QueueRegistry::new();
    registry.create_broadcasting("end", 3, numbers()).unwrap();
    let tx = registry.acquire_sender("end", numbers()).unwrap();
    let rx = registry.acquire_receiver("end", numbers()).unwrap();
    registry.create_broadcasting("side", 3, numbers()).unwrap();
    let side = registry.acquire_receiver("side", numbers()).unwrap();
    for i in 0..3 {
        tx.send(&mut registry, i).unwrap();
    }
    registry.shutdown("end").unwrap();
    side.drop(&mut registry);
    assert_eq!(registry.state("end"), Ok(QueueState::Closed { pending: 3 }));
    assert_eq!(rx.recv(&mut registry), Ok(0));
    assert_eq!(rx.recv(&mut registry), Ok(1));
    assert_eq!(rx.recv(&mut registry), Ok(2));
    assert_eq!(rx.recv(&mut registry), Err(RecvError::Closed));
}
