use named_queue::{BusError, MessageBus, MessageType, QueueState, RecvError};

fn numbers() -> MessageType {
    MessageType::of::<u32>("u32")
}

fn strings() -> MessageType {
    MessageType::of::<String>("String")
}

#[test]
fn state_reports_open_with_pending_count() {
    let mut bus: MessageBus<u32> = MessageBus::new();
    bus.create("q", 4, numbers()).unwrap();
    assert_eq!(bus.state("q"), Ok(QueueState::Open { pending: 0 }));

    let tx = bus.acquire_sender("q", numbers()).unwrap();
    tx.send(bus.queues(), 1).unwrap();
    tx.send(bus.queues(), 2).unwrap();
    assert_eq!(bus.state("q"), Ok(QueueState::Open { pending: 2 }));
}

#[test]
fn state_reports_closed_with_remaining_then_no_such_queue() {
    let mut bus: MessageBus<u32> = MessageBus::new();
    bus.create("q", 4, numbers()).unwrap();
    let tx = bus.acquire_sender("q", numbers()).unwrap();
    let rx = bus.acquire_receiver("q", numbers()).unwrap();
    tx.send(bus.queues(), 9).unwrap();
    bus.shutdown("q").unwrap();

    assert_eq!(bus.state("q"), Ok(QueueState::Closed { pending: 1 }));
    assert_eq!(rx.recv(bus.queues()), Ok(9));
    assert_eq!(rx.recv(bus.queues()), Err(RecvError::Closed));
    assert_eq!(bus.state("q"), Err(BusError::NoSuchQueue("q".into())));
}

#[test]
fn state_of_unknown_queue_is_no_such_queue() {
    let bus: MessageBus<u32> = MessageBus::new();
    assert_eq!(
        bus.state("ghost"),
        Err(BusError::NoSuchQueue("ghost".into()))
    );
}

#[test]
fn destroy_discards_pending_and_frees_the_name() {
    let mut bus: MessageBus<u32> = MessageBus::new();
    bus.create("q", 8, numbers()).unwrap();
    let tx = bus.acquire_sender("q", numbers()).unwrap();
    tx.send(bus.queues(), 1).unwrap();
    tx.send(bus.queues(), 2).unwrap();
    bus.shutdown("q").unwrap();

    assert_eq!(bus.destroy("q"), Ok(()));
    assert_eq!(bus.state("q"), Err(BusError::NoSuchQueue("q".into())));
    assert_eq!(bus.destroy("q"), Err(BusError::NoSuchQueue("q".into())));
    assert_eq!(bus.create("q", 8, numbers()), Ok(()));
}

#[test]
fn destroy_take_returns_unconsumed_messages() {
    let mut bus: MessageBus<u32> = MessageBus::new();
    bus.create("q", 8, numbers()).unwrap();
    let tx = bus.acquire_sender("q", numbers()).unwrap();
    tx.send(bus.queues(), 1).unwrap();
    tx.send(bus.queues(), 2).unwrap();
    bus.shutdown("q").unwrap();

    assert_eq!(bus.destroy_take("q", numbers()), Ok(vec![1, 2]));
    assert_eq!(bus.state("q"), Err(BusError::NoSuchQueue("q".into())));
    assert_eq!(bus.create("q", 8, numbers()), Ok(()));
    assert_eq!(bus.destroy_take("q", numbers()), Ok(vec![]));
    assert_eq!(
        bus.destroy_take("q", numbers()),
        Err(BusError::NoSuchQueue("q".into()))
    );
}

#[test]
fn destroy_take_with_wrong_type_is_type_mismatch_and_keeps_the_queue() {
    let mut bus: MessageBus<u32> = MessageBus::new();
    bus.create("q", 8, numbers()).unwrap();
    match bus.destroy_take("q", strings()) {
        Err(BusError::TypeMismatch { name, .. }) => assert_eq!(name, "q"),
        other => panic!("expected TypeMismatch, got {other:?}"),
    }
    assert_eq!(bus.state("q"), Ok(QueueState::Open { pending: 0 }));
}

#[test]
fn bus_refuses_taken_names_and_second_shutdowns() {
    let mut bus: MessageBus<u32> = MessageBus::new();
    bus.create("q", 2, numbers()).unwrap();
    assert_eq!(
        bus.create("q", 2, numbers()),
        Err(BusError::QueueAlreadyExists("q".into()))
    );
    let tx = bus.acquire_sender("q", numbers()).unwrap();
    tx.send(bus.queues(), 1).unwrap();
    assert_eq!(bus.shutdown("q"), Ok(()));
    assert_eq!(bus.shutdown("q"), Err(BusError::ShutDown("q".into())));
    assert_eq!(
        bus.acquire_sender("q", numbers()).err(),
        Some(BusError::ShutDown("q".into()))
    );
    let rx = bus.acquire_receiver("q", numbers()).unwrap();
    assert_eq!(rx.recv(bus.queues()), Ok(1));
    assert_eq!(
        bus.acquire_receiver("q", numbers()).err(),
        Some(BusError::ShutDown("q".into()))
    );
}
