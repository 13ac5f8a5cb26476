use named_queue::{BusError, MessageBus, MessageType, QueueState, RecvError};

fn numbers() -> MessageType {
    MessageType::of::<u32>("u32")
}

#[test]
fn name_frees_only_after_last_message_is_consumed() {
    let mut bus: MessageBus<u32> = MessageBus::new();
    bus.create("q", 4, numbers()).unwrap();
    let tx = bus.acquire_sender("q", numbers()).unwrap();
    let rx = bus.acquire_receiver("q", numbers()).unwrap();
    tx.send(bus.queues(), 1).unwrap();
    tx.send(bus.queues(), 2).unwrap();

    bus.shutdown("q").unwrap();
    assert_eq!(
        bus.create("q", 4, numbers()),
        Err(BusError::QueueAlreadyExists("q".into()))
    );
    assert_eq!(bus.state("q"), Ok(QueueState::Closed { pending: 2 }));

    assert_eq!(rx.recv(bus.queues()), Ok(1));
    assert_eq!(rx.recv(bus.queues()), Ok(2));
    assert_eq!(rx.recv(bus.queues()), Err(RecvError::Closed));
    assert_eq!(bus.create("q", 4, numbers()), Ok(()));
}
