use std::collections::HashSet;

use named_queue::{
    BusError, MessageBus, MessageType, QueueRegistry, QueueState, Receiver, SendError, Sender,
    TryRecvError, TrySendError,
};

fn numbers() -> MessageType {
    MessageType::of::<u32>("u32")
}

fn bytes() -> MessageType {
    MessageType::of::<u8>("u8")
}

fn strings() -> MessageType {
    MessageType::of::<String>("String")
}

#[test]
fn roundtrip() {
    let mut bus: MessageBus<String> = MessageBus::new();
    bus.create("chat", 8, strings()).unwrap();
    let tx = bus.acquire_sender("chat", strings()).unwrap();
    let rx = bus.acquire_receiver("chat", strings()).unwrap();
    tx.send(bus.queues(), "hi".to_string()).unwrap();
    assert_eq!(rx.recv(bus.queues()).unwrap(), "hi");
    assert_eq!(tx.name(), "chat");
    assert_eq!(rx.name(), "chat");
}

#[test]
fn acquire_on_missing_queue_is_no_such_queue() {
    let mut bus: MessageBus<u8> = MessageBus::new();
    assert_eq!(
        bus.acquire_sender("nope", bytes()).err(),
        Some(BusError::NoSuchQueue("nope".into()))
    );
    assert_eq!(
        bus.acquire_receiver("nope", bytes()).err(),
        Some(BusError::NoSuchQueue("nope".into()))
    );
}

#[test]
fn acquire_with_wrong_type_is_type_mismatch() {
    let mut bus: MessageBus<String> = MessageBus::new();
    bus.create("events", 4, strings()).unwrap();
    match bus.acquire_sender("events", MessageType::of::<u64>("u64")) {
        Err(BusError::TypeMismatch { name, expected, actual }) => {
            assert_eq!(name, "events");
            assert_eq!(expected, "u64");
            assert_eq!(actual, "String");
        }
        other => panic!("expected TypeMismatch, got {:?}", other.err()),
    }
    match bus.acquire_receiver("events", MessageType::of::<u64>("u64")) {
        Err(BusError::TypeMismatch { name, .. }) => assert_eq!(name, "events"),
        other => panic!("expected TypeMismatch, got {:?}", other.err()),
    }
}

#[test]
fn try_send_would_block_when_full_and_try_recv_would_block_when_empty() {
    let mut bus: MessageBus<u32> = MessageBus::new();
    bus.create("q", 2, numbers()).unwrap();
    let tx = bus.acquire_sender("q", numbers()).unwrap();
    let rx = bus.acquire_receiver("q", numbers()).unwrap();

    assert_eq!(rx.try_recv(bus.queues()), Err(TryRecvError::WouldBlock));
    tx.try_send(bus.queues(), 1).unwrap();
    tx.try_send(bus.queues(), 2).unwrap();
    assert_eq!(
        tx.try_send(bus.queues(), 3),
        Err(TrySendError::WouldBlock(3))
    );
    assert_eq!(rx.try_recv(bus.queues()), Ok(1));
    assert_eq!(tx.try_send(bus.queues(), 3), Ok(()));
}

#[test]
fn clones_share_one_queue() {
    let mut bus: MessageBus<u32> = MessageBus::new();
    bus.create("shared", 8, numbers()).unwrap();
    let tx1 = bus.acquire_sender("shared", numbers()).unwrap();
    let tx2 = tx1.clone();
    let rx1 = bus.acquire_receiver("shared", numbers()).unwrap();
    let rx2 = rx1.clone(bus.queues());

    tx1.send(bus.queues(), 1).unwrap();
    tx2.send(bus.queues(), 2).unwrap();
    let got: HashSet<u32> = [
        rx1.recv(bus.queues()).unwrap(),
        rx2.recv(bus.queues()).unwrap(),
    ]
    .into();
    assert_eq!(got, HashSet::from([1, 2]));
}

#[test]
fn messages_do_not_require_clone_or_debug() {
    struct Opaque(Vec<u8>);
    let mut bus: MessageBus<Opaque> = MessageBus::new();
    let opaque = MessageType::of::<Opaque>("Opaque");
    bus.create("blobs", 4, opaque).unwrap();
    let tx = bus.acquire_sender("blobs", opaque).unwrap();
    let rx = bus.acquire_receiver("blobs", opaque).unwrap();
    assert!(tx.send(bus.queues(), Opaque(vec![1, 2, 3])).is_ok());
    assert_eq!(rx.recv(bus.queues()).ok().map(|o| o.0), Some(vec![1, 2, 3]));
}

#[test]
fn registry_carries_messages_that_cannot_be_cloned() {
    struct Opaque(u8);
    let opaque = MessageType::of::<Opaque>("Opaque");
    let mut registry: QueueRegistry<Opaque> = QueueRegistry::new();
    registry.create("blobs", 1, opaque).unwrap();
    let tx = registry.acquire_sender("blobs", opaque).unwrap();
    let rx = registry.acquire_receiver("blobs", opaque).unwrap();
    assert!(tx.try_send(&mut registry, Opaque(4)).is_ok());
    match tx.try_send(&mut registry, Opaque(5)) {
        Err(e) => assert_eq!(e.into_inner().0, 5),
        Ok(()) => panic!("the queue is full"),
    }
    assert_eq!(rx.recv(&mut registry).ok().map(|o| o.0), Some(4));
}

#[test]
fn queue_is_first_in_first_out_over_many_rounds() {
    let mut registry: QueueRegistry<u32> = QueueRegistry::new();
    registry.create("q", 3, numbers()).unwrap();
    let tx = registry.acquire_sender("q", numbers()).unwrap();
    let rx = registry.acquire_receiver("q", numbers()).unwrap();
    let mut next_in: u32 = 0;
    let mut next_out: u32 = 0;
    for round in 0..50 {
        while !tx.would_block(&registry) && next_in < 3 * round {
            tx.send(&mut registry, next_in).unwrap();
            next_in += 1;
        }
        for _ in 0..round % 4 {
            if !rx.would_block(&registry) {
                assert_eq!(rx.recv(&mut registry), Ok(next_out));
                next_out += 1;
            }
        }
        assert_eq!(
            registry.state("q"),
            Ok(QueueState::Open {
                pending: (next_in - next_out) as usize
            })
        );
    }
    assert!(next_out > 20);
}

#[test]
fn receivers_of_one_queue_share_the_work() {
    let mut registry: QueueRegistry<u32> = QueueRegistry::new();
    registry.create("work", 4, numbers()).unwrap();
    let tx = registry.acquire_sender("work", numbers()).unwrap();
    let a = registry.acquire_receiver("work", numbers()).unwrap();
    let b = registry.acquire_receiver("work", numbers()).unwrap();
    tx.send(&mut registry, 1).unwrap();
    assert_eq!(a.try_recv(&mut registry), Ok(1));
    assert_eq!(b.try_recv(&mut registry), Err(TryRecvError::WouldBlock));
}

#[test]
fn every_message_is_received_once_under_backpressure() {
    let mut registry: QueueRegistry<u32> = QueueRegistry::new();
    registry.create("work", 16, numbers()).unwrap();
    let senders: Vec<Sender> = (0..4)
        .map(|_| registry.acquire_sender("work", numbers()).unwrap())
        .collect();
    let receivers: Vec<Receiver> = (0..4)
        .map(|_| registry.acquire_receiver("work", numbers()).unwrap())
        .collect();

    let mut sent: u32 = 0;
    let mut got = Vec::new();
    while got.len() < 1000 {
        for tx in &senders {
            for _ in 0..5 {
                if sent < 1000 && !tx.would_block(&registry) {
                    tx.send(&mut registry, sent).unwrap();
                    sent += 1;
                }
            }
        }
        if sent < 1000 {
            assert_eq!(
                senders[0].try_send(&mut registry, 7),
                Err(TrySendError::WouldBlock(7))
            );
            assert_eq!(registry.state("work"), Ok(QueueState::Open { pending: 16 }));
        }
        for rx in &receivers {
            for _ in 0..4 {
                if let Ok(msg) = rx.try_recv(&mut registry) {
                    got.push(msg);
                }
            }
        }
    }
    assert_eq!(got, (0..1000).collect::<Vec<u32>>());
}
