use named_queue::{MessageType, QueueError, QueueRegistry, QueueState};

fn strings() -> MessageType {
    MessageType::of::<String>("String")
}

fn numbers() -> MessageType {
    MessageType::of::<u64>("u64")
}

#[test]
fn create_registers_a_queue() {
    let mut registry: QueueRegistry<String> = QueueRegistry::new();
    assert_eq!(registry.create("events", 16, strings()), Ok(()));
}

#[test]
fn create_rejects_duplicate_names_even_across_types() {
    let mut registry: QueueRegistry<String> = QueueRegistry::new();
    registry.create("events", 16, strings()).unwrap();
    assert_eq!(
        registry.create("events", 16, strings()),
        Err(QueueError::QueueAlreadyExists("events".into()))
    );
    assert_eq!(
        registry.create("events", 16, numbers()),
        Err(QueueError::QueueAlreadyExists("events".into()))
    );
}

#[test]
fn distinct_names_coexist() {
    let mut registry: QueueRegistry<String> = QueueRegistry::new();
    assert_eq!(registry.create("a", 4, strings()), Ok(()));
    assert_eq!(registry.create("b", 4, numbers()), Ok(()));
}

#[test]
fn new_registries_are_independent() {
    let mut registry: QueueRegistry<u8> = QueueRegistry::new();
    registry.create("a", 4, MessageType::of::<u8>("u8")).unwrap();
    assert_eq!(
        registry.create("a", 4, MessageType::of::<u8>("u8")),
        Err(QueueError::QueueAlreadyExists("a".into()))
    );
    let mut other: QueueRegistry<u8> = QueueRegistry::new();
    assert_eq!(other.create("a", 4, MessageType::of::<u8>("u8")), Ok(()));
}

#[test]
fn refused_create_leaves_the_queue_alone() {
    let mut registry: QueueRegistry<u64> = QueueRegistry::new();
    registry.create("q", 2, numbers()).unwrap();
    let tx = registry.acquire_sender("q", numbers()).unwrap();
    tx.send(&mut registry, 7).unwrap();
    assert!(registry.create("q", 9, numbers()).is_err());
    assert!(registry.create_broadcasting("q", 9, numbers()).is_err());
    assert_eq!(registry.state("q"), Ok(QueueState::Open { pending: 1 }));
    assert_eq!(registry.destroy_take("q", numbers()), Ok(vec![7]));
}

#[test]
fn message_types_differ_by_type_and_not_by_name() {
    let a = MessageType::of::<u64>("number");
    let b = MessageType::of::<u64>("count");
    let c = MessageType::of::<String>("number");
    assert!(a.same_as(&b));
    assert!(!a.same_as(&c));
    assert_eq!(a.name(), "number");
    assert_eq!(b.name(), "count");
}

#[test]
fn default_registry_value_is_empty() {
    let mut registry: QueueRegistry<u64> = QueueRegistry::default();
    assert_eq!(
        registry.state("jobs"),
        Err(QueueError::NoSuchQueue("jobs".into()))
    );
    assert_eq!(registry.create("jobs", 1, numbers()), Ok(()));
    assert_eq!(registry.state("jobs"), Ok(QueueState::Open { pending: 0 }));
}
