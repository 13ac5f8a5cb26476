use vstd::prelude::*;

verus! {

/// Errors from registry lifecycle operations: `create`, `acquire_*`, `shutdown`,
/// `state`, `destroy`.
#[derive(Debug, Clone, PartialEq, Eq)]
pub enum QueueError {
    /// `create` was called with a name that is already registered
    /// (including a queue that is shut down but not yet drained).
    QueueAlreadyExists(String),
    /// The named queue does not exist (never created, or already retired).
    NoSuchQueue(String),
    /// The queue exists but carries a different message type.
    TypeMismatch { name: String, expected: &'static str, actual: &'static str },
    /// The queue is shut down. For `acquire_receiver` this means it is also
    /// already drained; a closed queue with pending messages still admits
    /// receivers.
    Shutdown(String),
}

impl QueueError {
    /// The text that describes the error.
    pub open spec fn text(self) -> Seq<char> {
        match self {
            QueueError::QueueAlreadyExists(name) => already_exists_text(name@),
            QueueError::NoSuchQueue(name) => no_such_queue_text(name@),
            QueueError::TypeMismatch { name, expected, actual } => type_mismatch_text(
                name@,
                expected@,
                actual@,
            ),
            QueueError::Shutdown(name) => shut_down_text(name@),
        }
    }

    /// Describe the error.
    pub fn to_string(&self) -> (text: String)
        ensures
            text@ == self.text(),
    {
        match self {
            QueueError::QueueAlreadyExists(name) => already_exists(name.as_str()),
            QueueError::NoSuchQueue(name) => no_such_queue(name.as_str()),
            QueueError::TypeMismatch { name, expected, actual } => type_mismatch(
                name.as_str(),
                expected,
                actual,
            ),
            QueueError::Shutdown(name) => shut_down(name.as_str()),
        }
    }
}

/// Errors from the lifecycle operations of a `MessageBus`.
#[derive(Debug, Clone, PartialEq, Eq)]
pub enum BusError {
    /// `create` was called with a name that is already registered
    /// (including a queue that is shut down but not yet drained).
    QueueAlreadyExists(String),
    /// The named queue does not exist (never created, or already retired).
    NoSuchQueue(String),
    /// The queue exists but carries a different message type.
    TypeMismatch { name: String, expected: &'static str, actual: &'static str },
    /// The queue is shut down. For `acquire_receiver` this means it is also
    /// already drained.
    ShutDown(String),
}

impl BusError {
    /// The registry error that says the same.
    pub open spec fn as_queue_error(self) -> QueueError {
        match self {
            BusError::QueueAlreadyExists(name) => QueueError::QueueAlreadyExists(name),
            BusError::NoSuchQueue(name) => QueueError::NoSuchQueue(name),
            BusError::TypeMismatch { name, expected, actual } => QueueError::TypeMismatch {
                name,
                expected,
                actual,
            },
            BusError::ShutDown(name) => QueueError::Shutdown(name),
        }
    }

    /// The text that describes the error.
    pub open spec fn text(self) -> Seq<char> {
        match self {
            BusError::QueueAlreadyExists(name) => already_exists_text(name@),
            BusError::NoSuchQueue(name) => no_such_queue_text(name@),
            BusError::TypeMismatch { name, expected, actual } => type_mismatch_text(
                name@,
                expected@,
                actual@,
            ),
            BusError::ShutDown(name) => shut_down_text(name@),
        }
    }

    /// Describe the error.
    pub fn to_string(&self) -> (text: String)
        ensures
            text@ == self.text(),
    {
        match self {
            BusError::QueueAlreadyExists(name) => already_exists(name.as_str()),
            BusError::NoSuchQueue(name) => no_such_queue(name.as_str()),
            BusError::TypeMismatch { name, expected, actual } => type_mismatch(
                name.as_str(),
                expected,
                actual,
            ),
            BusError::ShutDown(name) => shut_down(name.as_str()),
        }
    }
}

/// What is said of a name that is taken.
pub open spec fn already_exists_text(name: Seq<char>) -> Seq<char> {
    "queue `"@ + name + "` already exists"@
}

/// What is said of a name that nothing is registered under.
pub open spec fn no_such_queue_text(name: Seq<char>) -> Seq<char> {
    "no such queue `"@ + name + "`"@
}

/// What is said of a queue that carries another type than the expected one.
pub open spec fn type_mismatch_text(
    name: Seq<char>,
    expected: Seq<char>,
    actual: Seq<char>,
) -> Seq<char> {
    "queue `"@ + name + "` carries `"@ + actual + "`, not `"@ + expected + "`"@
}

/// What is said of a queue that is shut down.
pub open spec fn shut_down_text(name: Seq<char>) -> Seq<char> {
    "queue `"@ + name + "` is shut down"@
}

fn already_exists(name: &str) -> (text: String)
    ensures
        text@ == already_exists_text(name@),
{
    "queue `".to_string().concat(name).concat("` already exists")
}

fn no_such_queue(name: &str) -> (text: String)
    ensures
        text@ == no_such_queue_text(name@),
{
    "no such queue `".to_string().concat(name).concat("`")
}

fn type_mismatch(name: &str, expected: &str, actual: &str) -> (text: String)
    ensures
        text@ == type_mismatch_text(name@, expected@, actual@),
{
    "queue `".to_string().concat(name).concat("` carries `").concat(actual).concat(
        "`, not `",
    ).concat(expected).concat("`")
}

fn shut_down(name: &str) -> (text: String)
    ensures
        text@ == shut_down_text(name@),
{
    "queue `".to_string().concat(name).concat("` is shut down")
}

/// The queue is shut down; the unsent message is handed back.
#[derive(Debug, Clone, PartialEq, Eq)]
pub enum SendError<T> {
    Closed(T),
}

impl<T> SendError<T> {
    /// Recover the message that could not be sent.
    pub fn into_inner(self) -> (msg: T)
        ensures
            self == SendError::Closed(msg),
    {
        match self {
            SendError::Closed(msg) => msg,
        }
    }

    /// Describe the error.
    pub fn to_string(&self) -> (text: String)
        ensures
            text@ == "sending on a closed queue"@,
    {
        "sending on a closed queue".to_string()
    }
}

/// Outcome of a non-blocking send probe.
#[derive(Debug, Clone, PartialEq, Eq)]
pub enum TrySendError<T> {
    /// The buffer is full; a blocking `send` would wait. Message handed back.
    WouldBlock(T),
    /// The queue is shut down. Message handed back.
    Closed(T),
}

impl<T> TrySendError<T> {
    /// Recover the message that could not be sent.
    pub fn into_inner(self) -> (msg: T)
        ensures
            self == TrySendError::WouldBlock(msg) || self == TrySendError::Closed(msg),
    {
        match self {
            TrySendError::WouldBlock(msg) => msg,
            TrySendError::Closed(msg) => msg,
        }
    }

    /// The text that describes the error.
    pub open spec fn text(self) -> Seq<char> {
        match self {
            TrySendError::WouldBlock(_) => "queue is full; send would block"@,
            TrySendError::Closed(_) => "sending on a closed queue"@,
        }
    }

    /// Describe the error.
    pub fn to_string(&self) -> (text: String)
        ensures
            text@ == self.text(),
    {
        match self {
            TrySendError::WouldBlock(_) => "queue is full; send would block".to_string(),
            TrySendError::Closed(_) => "sending on a closed queue".to_string(),
        }
    }
}

/// The queue is shut down and every remaining message has been consumed.
#[derive(Debug, Clone, Copy, PartialEq, Eq)]
pub enum RecvError {
    Closed,
}

impl RecvError {
    /// Describe the error.
    pub fn to_string(&self) -> (text: String)
        ensures
            text@ == "queue is shut down and drained"@,
    {
        "queue is shut down and drained".to_string()
    }
}

/// Outcome of a non-blocking receive probe.
#[derive(Debug, Clone, Copy, PartialEq, Eq)]
pub enum TryRecvError {
    /// The queue is currently empty; a blocking `recv` would wait.
    WouldBlock,
    /// The queue is shut down and drained.
    Closed,
}

impl TryRecvError {
    /// The text that describes the error.
    pub open spec fn text(self) -> Seq<char> {
        match self {
            TryRecvError::WouldBlock => "queue is empty; recv would block"@,
            TryRecvError::Closed => "queue is shut down and drained"@,
        }
    }

    /// Describe the error.
    pub fn to_string(&self) -> (text: String)
        ensures
            text@ == self.text(),
    {
        match self {
            TryRecvError::WouldBlock => "queue is empty; recv would block".to_string(),
            TryRecvError::Closed => "queue is shut down and drained".to_string(),
        }
    }
}

} // verus!
