//! Named, typed, bounded queues over flume, with a graceful shutdown lifecycle.
//!
//! A [`QueueRegistry`] holds queues under their names. Senders and receivers are
//! small handles; a call through one takes the registry along.
//!
//! - `create` registers a work-sharing queue: each message goes to one receiver,
//!   in the order of sending, and a full queue makes its senders wait.
//! - `create_broadcasting` registers a broadcasting queue: every
//!   `acquire_receiver` starts a subscription that gets a copy of each message
//!   sent from then on. A subscriber that lags more than `capacity` messages
//!   behind loses its oldest ones, and senders never wait.
//! - `shutdown` refuses further sends; receivers drain what is there, and the
//!   name is free again once that is done.
//! - `state` probes a queue, `destroy` retires one and discards its messages.
//!
//! The contracts speak of the model in [`model`]; what holds across calls is
//! stated and proved in [`laws`], and what each operation does to the messages and
//! names themselves in [`meaning`].

mod broadcast;
mod buffer;
mod bus;
mod channel;
mod error;
pub mod laws;
pub mod meaning;
mod message_type;
pub mod model;
mod receiver;
mod registry;
mod sender;
mod slot_channel;
mod wait_line;

pub use bus::MessageBus;
pub use error::{BusError, QueueError, RecvError, SendError, TryRecvError, TrySendError};
pub use message_type::MessageType;
pub use receiver::{Receiver, RecvProgress};
pub use registry::{QueueRegistry, QueueState};
pub use sender::{SendProgress, SendTurn, Sender};
