use named_queue::{
    MessageType, QueueError, QueueRegistry, QueueState, RecvError, SendError, TryRecvError,
    TrySendError,
};

fn numbers() -> MessageType {
    MessageType::of::<u32>("u32")
}

#[test]
fn shutdown_unknown_name_is_no_such_queue() {
    let mut registry: QueueRegistry<u32> = QueueRegistry::new();
    assert_eq!(
        registry.shutdown("ghost"),
        Err(QueueError::NoSuchQueue("ghost".into()))
    );
}

#[test]
fn shutdown_cuts_senders_but_lets_receivers_drain() {
    let mut registry: QueueRegistry<u32> = QueueRegistry::new();
    registry.create("q", 8, numbers()).unwrap();
    let tx = registry.acquire_sender("q", numbers()).unwrap();
    let rx = registry.acquire_receiver("q", numbers()).unwrap();
    tx.send(&mut registry, 42).unwrap();

    assert_eq!(registry.shutdown("q"), Ok(()));
    assert_eq!(
        registry.acquire_sender("q", numbers()).err(),
        Some(QueueError::Shutdown("q".into()))
    );
    assert_eq!(
        registry.shutdown("q"),
        Err(QueueError::Shutdown("q".into()))
    );
    assert_eq!(tx.send(&mut registry, 1), Err(SendError::Closed(1)));
    assert_eq!(tx.try_send(&mut registry, 2), Err(TrySendError::Closed(2)));
    assert_eq!(rx.recv(&mut registry), Ok(42));
    assert_eq!(rx.recv(&mut registry), Err(RecvError::Closed));
    assert_eq!(
        registry.acquire_receiver("q", numbers()).err(),
        Some(QueueError::NoSuchQueue("q".into()))
    );
}

#[test]
fn closed_queue_admits_new_receivers_while_messages_remain() {
    let mut registry: QueueRegistry<u32> = QueueRegistry::new();
    registry.create("q", 8, numbers()).unwrap();
    let tx = registry.acquire_sender("q", numbers()).unwrap();
    let rx = registry.acquire_receiver("q", numbers()).unwrap();
    tx.send(&mut registry, 7).unwrap();
    registry.shutdown("q").unwrap();

    let late = registry.acquire_receiver("q", numbers()).unwrap();
    assert_eq!(rx.recv(&mut registry), Ok(7));
    assert_eq!(
        registry.acquire_receiver("q", numbers()).err(),
        Some(QueueError::Shutdown("q".into()))
    );
    assert_eq!(late.recv(&mut registry), Err(RecvError::Closed));
    assert_eq!(registry.create("q", 8, numbers()), Ok(()));
}

#[test]
fn empty_queue_is_retired_immediately_on_shutdown() {
    let mut registry: QueueRegistry<u8> = QueueRegistry::new();
    registry.create("q", 4, MessageType::of::<u8>("u8")).unwrap();
    assert_eq!(registry.shutdown("q"), Ok(()));
    assert_eq!(registry.create("q", 4, MessageType::of::<u8>("u8")), Ok(()));

    let mut registry2: QueueRegistry<u8> = QueueRegistry::new();
    registry2.create("gone", 4, MessageType::of::<u8>("u8")).unwrap();
    registry2.shutdown("gone").unwrap();
    assert_eq!(
        registry2.shutdown("gone"),
        Err(QueueError::NoSuchQueue("gone".into()))
    );
}

#[test]
fn shutdown_with_no_receivers_retains_messages_for_a_late_drain() {
    let mut registry: QueueRegistry<u32> = QueueRegistry::new();
    registry.create("q", 8, numbers()).unwrap();
    let tx = registry.acquire_sender("q", numbers()).unwrap();
    tx.send(&mut registry, 1).unwrap();
    tx.send(&mut registry, 2).unwrap();
    assert_eq!(registry.shutdown("q"), Ok(()));
    assert_eq!(
        registry.create("q", 8, numbers()),
        Err(QueueError::QueueAlreadyExists("q".into()))
    );
    let rx = registry.acquire_receiver("q", numbers()).unwrap();
    assert_eq!(rx.recv(&mut registry), Ok(1));
    assert_eq!(rx.recv(&mut registry), Ok(2));
    assert_eq!(rx.recv(&mut registry), Err(RecvError::Closed));
    assert_eq!(registry.create("q", 8, numbers()), Ok(()));
}

#[test]
fn drained_receiver_drop_retires_the_queue_without_a_final_recv() {
    let mut registry: QueueRegistry<u32> = QueueRegistry::new();
    registry.create("q", 4, numbers()).unwrap();
    let tx = registry.acquire_sender("q", numbers()).unwrap();
    let rx = registry.acquire_receiver("q", numbers()).unwrap();
    tx.send(&mut registry, 1).unwrap();
    registry.shutdown("q").unwrap();

    assert_eq!(rx.recv(&mut registry), Ok(1));
    rx.drop(&mut registry);
    assert_eq!(registry.create("q", 4, numbers()), Ok(()));
}

#[test]
fn stale_handles_do_not_reach_a_later_queue_of_the_same_name() {
    let mut registry: QueueRegistry<u32> = QueueRegistry::new();
    registry.create("q", 4, numbers()).unwrap();
    let old_tx = registry.acquire_sender("q", numbers()).unwrap();
    let old_rx = registry.acquire_receiver("q", numbers()).unwrap();
    let other_rx = registry.acquire_receiver("q", numbers()).unwrap();
    registry.destroy("q").unwrap();

    registry.create("q", 4, numbers()).unwrap();
    let tx = registry.acquire_sender("q", numbers()).unwrap();
    tx.send(&mut registry, 1).unwrap();
    assert_eq!(old_tx.send(&mut registry, 2), Err(SendError::Closed(2)));
    assert!(!old_rx.would_block(&registry));
    assert_eq!(old_rx.recv(&mut registry), Err(RecvError::Closed));
    assert_eq!(
        other_rx.try_recv(&mut registry),
        Err(TryRecvError::Closed)
    );
    other_rx.drop(&mut registry);
    old_rx.drop(&mut registry);
    assert_eq!(registry.state("q"), Ok(QueueState::Open { pending: 1 }));
}

#[test]
fn dropping_a_receiver_of_an_open_queue_keeps_it() {
    let mut registry: QueueRegistry<u32> = QueueRegistry::new();
    registry.create("q", 4, numbers()).unwrap();
    let rx = registry.acquire_receiver("q", numbers()).unwrap();
    rx.drop(&mut registry);
    assert_eq!(registry.state("q"), Ok(QueueState::Open { pending: 0 }));
}
