use crate::error::{BusError, QueueError};
use crate::message_type::MessageType;
use crate::model;
use crate::model::{QueueView, RegistryStep, RegistryView};
use crate::receiver::Receiver;
use crate::registry::{QueueRegistry, QueueState};
use crate::sender::Sender;
use vstd::prelude::*;

verus! {

/// A registry of named, typed, bounded work-sharing queues, for messages that
/// need not be cloned.
#[verifier::reject_recursive_types(M)]
pub struct MessageBus<M> {
    registry: QueueRegistry<M>,
}

/// The bus error that stands for a registry error.
fn bus_error(e: QueueError) -> (error: BusError)
    ensures
        error.as_queue_error() == e,
{
    match e {
        QueueError::QueueAlreadyExists(name) => BusError::QueueAlreadyExists(name),
        QueueError::NoSuchQueue(name) => BusError::NoSuchQueue(name),
        QueueError::TypeMismatch { name, expected, actual } => BusError::TypeMismatch {
            name,
            expected,
            actual,
        },
        QueueError::Shutdown(name) => BusError::ShutDown(name),
    }
}

impl<M> Default for MessageBus<M> {
    fn default() -> (bus: MessageBus<M>)
        ensures
            bus.wf(),
            bus@ == RegistryView::<M>::empty(),
    {
        MessageBus::new()
    }
}

impl<M> MessageBus<M> {
    /// The registry that the bus represents.
    pub closed spec fn view(self) -> RegistryView<M> {
        self.registry@
    }

    /// The registry is sound.
    pub closed spec fn wf(self) -> bool {
        self.registry.wf()
    }

    /// A bus without queues.
    pub fn new() -> (bus: MessageBus<M>)
        ensures
            bus.wf(),
            bus@ == RegistryView::<M>::empty(),
    {
        MessageBus { registry: QueueRegistry::new() }
    }

    /// The queues, for the use of senders and receivers.
    pub fn queues(&mut self) -> (registry: &mut QueueRegistry<M>)
        requires
            old(self).wf(),
        ensures
            registry.wf(),
            registry@ == old(self)@,
            final(self)@ == final(registry)@,
            final(self).wf() == final(registry).wf(),
    {
        &mut self.registry
    }

    /// Register a new bounded queue that carries messages of type `ty`.
    pub fn create(&mut self, name: &str, capacity: usize, ty: MessageType) -> (created: Result<
        (),
        BusError,
    >)
        requires
            old(self).wf(),
            capacity < usize::MAX,
        ensures
            final(self).wf(),
            created is Ok ==> RegistryStep::Created(
                QueueView::new_work(name@, capacity as nat),
                ty,
            ).takes(old(self)@, final(self)@),
            match created {
                Ok(()) => !old(self)@.names.contains_key(name@) && final(self)@
                    == old(self)@.with_new(QueueView::new_work(name@, capacity as nat), ty),
                Err(e) => old(self)@.names.contains_key(name@) && final(self)@ == old(self)@ && (
                e matches BusError::QueueAlreadyExists(n) && n@ == name@),
            },
    {
        match self.registry.create(name, capacity, ty) {
            Ok(()) => Ok(()),
            Err(e) => Err(bus_error(e)),
        }
    }

    /// Get a producer handle.
    pub fn acquire_sender(&self, name: &str, ty: MessageType) -> (acquired: Result<
        Sender,
        BusError,
    >)
        requires
            self.wf(),
        ensures
            match acquired {
                Ok(tx) => self@.find(name@) matches Some(entry) && entry.ty.id() == ty.id()
                    && entry.queue.open && tx.queue_name() == name@ && tx.slot()
                    == self@.names[name@],
                Err(BusError::ShutDown(n)) => n@ == name@ && (self@.find(name@) matches Some(entry)
                    && entry.ty.id() == ty.id() && !entry.queue.open),
                Err(e) => model::refused(self@, name@, ty, e.as_queue_error()),
            },
    {
        match self.registry.acquire_sender(name, ty) {
            Ok(tx) => Ok(tx),
            Err(e) => Err(bus_error(e)),
        }
    }

    /// Get a consumer handle. A closed queue admits new receivers while
    /// messages remain to be drained.
    pub fn acquire_receiver(&mut self, name: &str, ty: MessageType) -> (acquired: Result<
        Receiver,
        BusError,
    >)
        requires
            old(self).wf(),
        ensures
            final(self).wf(),
            acquired matches Ok(rx) ==> (rx.sub() matches Some(sub) ==> RegistryStep::Subscribed(
                rx.slot(),
                sub,
            ).takes(old(self)@, final(self)@)),
            match acquired {
                Ok(rx) => old(self)@.find(name@) matches Some(entry) && entry.ty.id() == ty.id()
                    && rx.queue_name() == name@ && rx.slot() == old(self)@.names[name@]
                    && model::admitted(old(self)@, entry.queue, rx, final(self)@),
                Err(BusError::ShutDown(n)) => n@ == name@ && final(self)@ == old(self)@ && (
                old(self)@.find(name@) matches Some(entry) && entry.ty.id() == ty.id()
                    && !entry.queue.admits_receivers()),
                Err(e) => model::refused(old(self)@, name@, ty, e.as_queue_error())
                    && final(self)@ == old(self)@,
            },
    {
        match self.registry.acquire_receiver(name, ty) {
            Ok(rx) => Ok(rx),
            Err(e) => Err(bus_error(e)),
        }
    }

    /// Shut the named queue down: no new senders, all sends fail. Existing
    /// receivers and new ones acquired while messages remain drain the queue.
    pub fn shutdown(&mut self, name: &str) -> (shut: Result<(), BusError>)
        requires
            old(self).wf(),
        ensures
            final(self).wf(),
            shut is Ok ==> RegistryStep::Shut(old(self)@.names[name@] as int).takes(
                old(self)@,
                final(self)@,
            ),
            match shut {
                Ok(()) => old(self)@.find(name@) matches Some(entry) && entry.queue.open
                    && final(self)@ == old(self)@.with_queue(
                    old(self)@.names[name@] as int,
                    entry.queue.shut(),
                ).settled(old(self)@.names[name@] as int),
                Err(BusError::NoSuchQueue(n)) => n@ == name@ && final(self)@ == old(self)@
                    && old(self)@.find(name@) is None,
                Err(BusError::ShutDown(n)) => n@ == name@ && final(self)@ == old(self)@ && (
                old(self)@.find(name@) matches Some(entry) && !entry.queue.open),
                Err(_) => false,
            },
    {
        match self.registry.shutdown(name) {
            Ok(()) => Ok(()),
            Err(e) => Err(bus_error(e)),
        }
    }

    /// Probe a queue's lifecycle state.
    pub fn state(&self, name: &str) -> (state: Result<QueueState, BusError>)
        requires
            self.wf(),
        ensures
            match state {
                Ok(QueueState::Open { pending }) => self@.find(name@) matches Some(entry)
                    && entry.queue.open && pending == entry.queue.pending(),
                Ok(QueueState::Closed { pending }) => self@.find(name@) matches Some(entry)
                    && !entry.queue.open && pending == entry.queue.pending(),
                Err(e) => self@.find(name@) is None && (e matches BusError::NoSuchQueue(n) && n@
                    == name@),
            },
    {
        match self.registry.state(name) {
            Ok(state) => Ok(state),
            Err(e) => Err(bus_error(e)),
        }
    }

    /// Force-retire a queue in any state, discarding pending messages.
    pub fn destroy(&mut self, name: &str) -> (destroyed: Result<(), BusError>)
        requires
            old(self).wf(),
        ensures
            final(self).wf(),
            destroyed is Ok ==> RegistryStep::Destroyed(old(self)@.names[name@] as int).takes(
                old(self)@,
                final(self)@,
            ),
            match destroyed {
                Ok(()) => old(self)@.find(name@) is Some && final(self)@ == old(self)@.without(
                    old(self)@.names[name@] as int,
                ),
                Err(e) => old(self)@.find(name@) is None && final(self)@ == old(self)@ && (
                e matches BusError::NoSuchQueue(n) && n@ == name@),
            },
    {
        match self.registry.destroy(name) {
            Ok(()) => Ok(()),
            Err(e) => Err(bus_error(e)),
        }
    }

    /// Typed force-retire: like [`destroy`](Self::destroy), but hands the
    /// unconsumed messages back to the caller instead of discarding them.
    pub fn destroy_take(&mut self, name: &str, ty: MessageType) -> (destroyed: Result<
        Vec<M>,
        BusError,
    >)
        requires
            old(self).wf(),
        ensures
            final(self).wf(),
            destroyed is Ok ==> RegistryStep::Destroyed(old(self)@.names[name@] as int).takes(
                old(self)@,
                final(self)@,
            ),
            match destroyed {
                Ok(taken) => old(self)@.find(name@) matches Some(entry) && entry.ty.id() == ty.id()
                    && taken@ == entry.queue.unconsumed() && final(self)@ == old(self)@.without(
                    old(self)@.names[name@] as int,
                ),
                Err(e) => model::refused(old(self)@, name@, ty, e.as_queue_error())
                    && final(self)@ == old(self)@,
            },
    {
        match self.registry.destroy_take(name, ty) {
            Ok(taken) => Ok(taken),
            Err(e) => Err(bus_error(e)),
        }
    }
}

} // verus!
