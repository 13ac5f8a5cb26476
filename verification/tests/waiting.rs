use named_queue::{
    MessageType, QueueError, QueueRegistry, QueueState, Receiver, RecvError, RecvProgress,
    SendError, SendProgress, SendTurn, Sender, TryRecvError, TrySendError,
};

fn numbers() -> MessageType {
    MessageType::of::<u32>("u32")
}

fn queue(capacity: usize) -> (QueueRegistry<u32>, Sender, Receiver) {
    let mut registry = QueueRegistry::new();
    registry.create("q", capacity, numbers()).unwrap();
    let tx = registry.acquire_sender("q", numbers()).unwrap();
    let rx = registry.acquire_receiver("q", numbers()).unwrap();
    (registry, tx, rx)
}

#[test]
fn zero_capacity_queue_takes_nothing_while_nobody_waits() {
    let (mut registry, tx, rx) = queue(0);
    assert!(tx.would_block(&registry));
    assert!(rx.would_block(&registry));
    assert_eq!(
        tx.try_send(&mut registry, 1),
        Err(TrySendError::WouldBlock(1))
    );
    assert_eq!(rx.try_recv(&mut registry), Err(TryRecvError::WouldBlock));
    registry.shutdown("q").unwrap();
    assert_eq!(tx.send(&mut registry, 1), Err(SendError::Closed(1)));
}

#[test]
fn waiting_send_passes_its_message_to_a_receive() {
    let (mut registry, tx, rx) = queue(0);
    let first = tx.wait(&mut registry, 1).unwrap();
    let second = tx.wait(&mut registry, 2).unwrap();
    assert!(tx.is_waiting(&registry, first));
    assert!(!rx.would_block(&registry));
    assert_eq!(registry.state("q"), Ok(QueueState::Open { pending: 0 }));

    assert_eq!(rx.recv(&mut registry), Ok(1));
    assert!(!tx.is_waiting(&registry, first));
    assert!(tx.is_waiting(&registry, second));
    assert_eq!(rx.try_recv(&mut registry), Ok(2));
    assert!(!tx.is_waiting(&registry, second));
    assert!(rx.would_block(&registry));
}

#[test]
fn waiting_receives_get_the_next_messages_in_turn() {
    let (mut registry, tx, rx) = queue(0);
    let first = rx.wait(&mut registry).unwrap();
    let second = rx.wait(&mut registry).unwrap();
    assert!(rx.is_waiting(&registry, first));
    assert!(!tx.would_block(&registry));

    assert_eq!(tx.try_send(&mut registry, 1), Ok(()));
    assert!(!rx.is_waiting(&registry, first));
    assert!(rx.is_waiting(&registry, second));
    assert_eq!(tx.send(&mut registry, 2), Ok(()));
    assert_eq!(
        tx.try_send(&mut registry, 3),
        Err(TrySendError::WouldBlock(3))
    );

    assert_eq!(rx.try_recv(&mut registry), Err(TryRecvError::WouldBlock));
    assert_eq!(rx.collect(&mut registry, second), Some(2));
    assert_eq!(rx.collect(&mut registry, first), Some(1));
    assert_eq!(rx.collect(&mut registry, first), None);
}

#[test]
fn waiting_receive_leaves_the_whole_capacity_to_others() {
    let (mut registry, tx, rx) = queue(1);
    let ticket = rx.wait(&mut registry).unwrap();
    assert_eq!(tx.try_send(&mut registry, 1), Ok(()));
    assert_eq!(tx.try_send(&mut registry, 2), Ok(()));
    assert_eq!(
        tx.try_send(&mut registry, 3),
        Err(TrySendError::WouldBlock(3))
    );
    assert_eq!(registry.state("q"), Ok(QueueState::Open { pending: 1 }));
    assert_eq!(rx.try_recv(&mut registry), Ok(2));
    assert_eq!(rx.collect(&mut registry, ticket), Some(1));
}

#[test]
fn waiting_sends_get_the_room_in_turn() {
    let (mut registry, tx, rx) = queue(1);
    tx.send(&mut registry, 1).unwrap();
    let second = tx.wait(&mut registry, 2).unwrap();
    let third = tx.wait(&mut registry, 3).unwrap();
    assert_eq!(rx.try_recv(&mut registry), Ok(1));
    assert!(!tx.is_waiting(&registry, second));
    assert!(tx.is_waiting(&registry, third));
    assert_eq!(
        tx.try_send(&mut registry, 9),
        Err(TrySendError::WouldBlock(9))
    );
    assert_eq!(rx.recv(&mut registry), Ok(2));
    assert_eq!(rx.recv(&mut registry), Ok(3));
    assert!(!tx.is_waiting(&registry, third));
    assert_eq!(rx.try_recv(&mut registry), Err(TryRecvError::WouldBlock));
}

#[test]
fn send_that_gives_up_takes_its_message_back() {
    let (mut registry, tx, rx) = queue(1);
    tx.send(&mut registry, 1).unwrap();
    let second = tx.wait(&mut registry, 2).unwrap();
    let third = tx.wait(&mut registry, 3).unwrap();
    assert_eq!(tx.give_up(&mut registry, second), Some(2));
    assert_eq!(tx.give_up(&mut registry, second), None);
    assert_eq!(rx.recv(&mut registry), Ok(1));
    assert_eq!(rx.recv(&mut registry), Ok(3));
    assert_eq!(tx.give_up(&mut registry, third), None);
}

#[test]
fn waiting_send_still_completes_after_shutdown() {
    let (mut registry, tx, rx) = queue(1);
    tx.send(&mut registry, 1).unwrap();
    let ticket = tx.wait(&mut registry, 2).unwrap();
    registry.shutdown("q").unwrap();
    assert_eq!(registry.state("q"), Ok(QueueState::Closed { pending: 1 }));
    assert_eq!(tx.send(&mut registry, 3), Err(SendError::Closed(3)));
    assert!(tx.is_waiting(&registry, ticket));

    assert_eq!(rx.recv(&mut registry), Ok(1));
    assert!(!tx.is_waiting(&registry, ticket));
    assert_eq!(registry.state("q"), Ok(QueueState::Closed { pending: 1 }));
    assert_eq!(rx.recv(&mut registry), Ok(2));
    assert_eq!(rx.recv(&mut registry), Err(RecvError::Closed));
    assert_eq!(
        registry.state("q"),
        Err(QueueError::NoSuchQueue("q".into()))
    );
}

#[test]
fn waiting_send_outlives_the_registration_of_its_queue() {
    let (mut registry, tx, rx) = queue(0);
    let ticket = tx.wait(&mut registry, 1).unwrap();
    registry.shutdown("q").unwrap();
    assert_eq!(registry.create("q", 4, numbers()), Ok(()));
    let later = registry.acquire_receiver("q", numbers()).unwrap();
    assert_eq!(later.try_recv(&mut registry), Err(TryRecvError::WouldBlock));

    assert!(tx.is_waiting(&registry, ticket));
    assert_eq!(rx.try_recv(&mut registry), Ok(1));
    assert!(!tx.is_waiting(&registry, ticket));
    assert_eq!(rx.try_recv(&mut registry), Err(TryRecvError::Closed));
    assert_eq!(registry.state("q"), Ok(QueueState::Open { pending: 0 }));
}

#[test]
fn shutdown_ends_a_waiting_receive() {
    let (mut registry, tx, rx) = queue(4);
    let served = rx.wait(&mut registry).unwrap();
    let ended = rx.wait(&mut registry).unwrap();
    tx.send(&mut registry, 1).unwrap();
    registry.shutdown("q").unwrap();
    assert_eq!(
        registry.state("q"),
        Err(QueueError::NoSuchQueue("q".into()))
    );
    assert!(!rx.is_waiting(&registry, ended));
    assert_eq!(rx.collect(&mut registry, ended), None);
    assert_eq!(rx.collect(&mut registry, served), Some(1));
    assert_eq!(rx.recv(&mut registry), Err(RecvError::Closed));
}

#[test]
fn destroy_lets_waiting_sends_through_and_takes_their_messages() {
    let (mut registry, tx, rx) = queue(1);
    tx.send(&mut registry, 1).unwrap();
    let ticket = tx.wait(&mut registry, 2).unwrap();
    assert_eq!(registry.destroy_take("q", numbers()), Ok(vec![1, 2]));
    assert!(!tx.is_waiting(&registry, ticket));
    assert_eq!(tx.give_up(&mut registry, ticket), None);
    assert_eq!(rx.try_recv(&mut registry), Err(TryRecvError::Closed));
}

#[test]
fn destroy_leaves_what_was_handed_over() {
    let (mut registry, tx, rx) = queue(2);
    let ticket = rx.wait(&mut registry).unwrap();
    tx.send(&mut registry, 1).unwrap();
    tx.send(&mut registry, 2).unwrap();
    registry.destroy("q").unwrap();
    assert_eq!(registry.create("q", 2, numbers()), Ok(()));
    assert_eq!(rx.collect(&mut registry, ticket), Some(1));
    assert_eq!(rx.recv(&mut registry), Err(RecvError::Closed));
}

fn broadcast(capacity: usize) -> (QueueRegistry<u32>, Sender, Receiver) {
    let mut registry = QueueRegistry::new();
    registry
        .create_broadcasting("b", capacity, numbers())
        .unwrap();
    let tx = registry.acquire_sender("b", numbers()).unwrap();
    let rx = registry.acquire_receiver("b", numbers()).unwrap();
    (registry, tx, rx)
}

#[test]
fn waiting_subscriber_gets_the_next_message_and_keeps_its_capacity() {
    let (mut registry, tx, rx) = broadcast(1);
    let other = registry.acquire_receiver("b", numbers()).unwrap();
    let ticket = rx.wait(&mut registry).unwrap();
    assert!(rx.is_waiting(&registry, ticket));
    assert!(!other.is_waiting(&registry, ticket));

    tx.send(&mut registry, 1).unwrap();
    tx.send(&mut registry, 2).unwrap();
    assert!(!rx.is_waiting(&registry, ticket));
    assert_eq!(other.collect(&mut registry, ticket), None);
    assert_eq!(rx.collect(&mut registry, ticket), Some(1));
    assert_eq!(rx.recv(&mut registry), Ok(2));
    assert_eq!(other.recv(&mut registry), Ok(2));
    assert_eq!(registry.state("b"), Ok(QueueState::Open { pending: 0 }));
}

#[test]
fn shutdown_ends_a_waiting_subscriber() {
    let (mut registry, tx, rx) = broadcast(2);
    let served = rx.wait(&mut registry).unwrap();
    let ended = rx.wait(&mut registry).unwrap();
    tx.send(&mut registry, 1).unwrap();
    registry.shutdown("b").unwrap();
    assert_eq!(
        registry.state("b"),
        Err(QueueError::NoSuchQueue("b".into()))
    );
    assert!(!rx.is_waiting(&registry, ended));
    assert_eq!(rx.collect(&mut registry, ended), None);
    assert_eq!(rx.collect(&mut registry, served), Some(1));
    assert_eq!(rx.recv(&mut registry), Err(RecvError::Closed));
}

#[test]
fn destroy_leaves_what_was_handed_to_a_subscriber() {
    let (mut registry, tx, rx) = broadcast(2);
    let ticket = rx.wait(&mut registry).unwrap();
    tx.send(&mut registry, 1).unwrap();
    tx.send(&mut registry, 2).unwrap();
    registry.destroy("b").unwrap();
    assert_eq!(registry.create("b", 2, numbers()), Ok(()));
    assert_eq!(rx.collect(&mut registry, ticket), Some(1));
    assert_eq!(rx.try_recv(&mut registry), Err(TryRecvError::Closed));
    rx.drop(&mut registry);
    assert_eq!(registry.state("b"), Ok(QueueState::Open { pending: 0 }));
}

#[test]
fn blocking_send_resumes_until_its_message_is_taken() {
    let (mut registry, tx, rx) = queue(1);
    assert_eq!(
        tx.resume(&mut registry, SendTurn::Message(1)),
        SendProgress::Sent
    );
    let ticket = match tx.resume(&mut registry, SendTurn::Message(2)) {
        SendProgress::Waiting(SendTurn::Ticket(ticket)) => ticket,
        other => panic!("expected a ticket, got {:?}", other),
    };
    assert_eq!(
        tx.resume(&mut registry, SendTurn::Ticket(ticket)),
        SendProgress::Waiting(SendTurn::Ticket(ticket))
    );
    assert_eq!(rx.recv(&mut registry), Ok(1));
    assert_eq!(
        tx.resume(&mut registry, SendTurn::Ticket(ticket)),
        SendProgress::Sent
    );
    registry.shutdown("q").unwrap();
    assert_eq!(
        tx.resume(&mut registry, SendTurn::Message(3)),
        SendProgress::Closed(3)
    );
    assert_eq!(rx.recv(&mut registry), Ok(2));
}

#[test]
fn blocking_receive_resumes_until_a_message_comes() {
    let (mut registry, tx, rx) = queue(0);
    let ticket = match rx.resume(&mut registry, None) {
        RecvProgress::Waiting(Some(ticket)) => ticket,
        other => panic!("expected a ticket, got {:?}", other),
    };
    assert_eq!(
        rx.resume(&mut registry, Some(ticket)),
        RecvProgress::Waiting(Some(ticket))
    );
    assert_eq!(tx.try_send(&mut registry, 5), Ok(()));
    assert_eq!(
        rx.resume(&mut registry, Some(ticket)),
        RecvProgress::Received(5)
    );

    tx.wait(&mut registry, 6).unwrap();
    assert_eq!(rx.resume(&mut registry, None), RecvProgress::Received(6));

    let ended = match rx.resume(&mut registry, None) {
        RecvProgress::Waiting(Some(ticket)) => ticket,
        other => panic!("expected a ticket, got {:?}", other),
    };
    registry.shutdown("q").unwrap();
    assert_eq!(rx.resume(&mut registry, Some(ended)), RecvProgress::Closed);
}
