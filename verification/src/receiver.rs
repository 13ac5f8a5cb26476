use crate::error::{RecvError, TryRecvError};
use crate::model::RegistryStep;
use crate::registry::{AnyCore, QueueRegistry};
use vstd::prelude::*;

verus! {

/// A consumer handle for one named queue of the registry that issued it. Clones
/// compete for messages: on a work-sharing queue they share the queue's single
/// buffer, on a broadcasting queue they share one subscription's buffer. To
/// receive an independent copy of the broadcast stream, call
/// `acquire_receiver` again instead of cloning. A subscription lasts until
/// [`drop`](Self::drop) has been called on each of its receivers.
pub struct Receiver {
    name: String,
    slot: usize,
    sub: Option<usize>,
}

/// How far a blocking receive has come.
#[derive(Debug, PartialEq, Eq)]
pub enum RecvProgress<M> {
    /// A message came.
    Received(M),
    /// The queue is shut down and drained.
    Closed,
    /// The receive has to wait, and goes on with its ticket, if it has one, when
    /// the queue has changed.
    Waiting(Option<u64>),
}

impl Receiver {
    /// The name of the queue.
    pub closed spec fn queue_name(self) -> Seq<char> {
        self.name@
    }

    /// The registry slot of the queue.
    pub closed spec fn slot(self) -> int {
        self.slot as int
    }

    /// The subscription, on a broadcasting queue.
    pub closed spec fn sub(self) -> Option<int> {
        match self.sub {
            Some(sub) => Some(sub as int),
            None => None,
        }
    }

    /// A receiver of a work-sharing queue.
    pub(crate) fn new(name: &str, slot: usize) -> (rx: Receiver)
        ensures
            rx.queue_name() == name@,
            rx.slot() == slot,
            rx.sub() is None,
    {
        Receiver { name: name.to_string(), slot, sub: None }
    }

    /// The first receiver of a subscription.
    pub(crate) fn new_broadcast(name: &str, slot: usize, sub: usize) -> (rx: Receiver)
        ensures
            rx.queue_name() == name@,
            rx.slot() == slot,
            rx.sub() == Some(sub as int),
    {
        Receiver { name: name.to_string(), slot, sub: Some(sub) }
    }

    /// The queue name this receiver drains.
    pub fn name(&self) -> (name: &str)
        ensures
            name@ == self.queue_name(),
    {
        self.name.as_str()
    }

    /// Whether a blocking receive would have to wait now: the queue is open and
    /// has nothing for this receiver.
    pub fn would_block<M>(&self, registry: &QueueRegistry<M>) -> (blocks: bool)
        requires
            registry.wf(),
        ensures
            blocks == registry@.recv_blocks(self.slot(), self.sub()),
    {
        match (registry.core_ref(self.slot), self.sub) {
            (Some(AnyCore::Queue(core)), None) => core.recv_blocks(),
            (Some(AnyCore::Broadcast(core)), Some(sub)) => core.recv_blocks(sub),
            _ => false,
        }
    }

    /// Receive a message, where that needs no waiting. A receiver that finds
    /// the queue shut down and drained retires it.
    pub fn recv<M>(&self, registry: &mut QueueRegistry<M>) -> (received: Result<M, RecvError>)
        requires
            old(registry).wf(),
            !old(registry)@.recv_blocks(self.slot(), self.sub()),
        ensures
            final(registry).wf(),
            received matches Ok(msg) ==> RegistryStep::Received(self.slot(), self.sub(), msg).takes(
                old(registry)@,
                final(registry)@,
            ),
            received is Err ==> RegistryStep::<M>::Settled(self.slot()).takes(
                old(registry)@,
                final(registry)@,
            ),
            match received {
                Ok(msg) => old(registry)@.hands_out(
                    self.slot(),
                    self.sub(),
                    msg,
                    final(registry)@,
                ),
                Err(RecvError::Closed) => old(registry)@.exhausted(self.slot(), self.sub())
                    && final(registry)@ == old(registry)@.settled(self.slot()),
            },
    {
        let received = match (registry.core_mut(self.slot), self.sub) {
            (Some(AnyCore::Queue(core)), None) => core.recv(),
            (Some(AnyCore::Broadcast(core)), Some(sub)) => core.recv(sub),
            _ => Err(RecvError::Closed),
        };
        if received.is_err() {
            registry.settle(self.slot);
        }
        received
    }

    /// Probe-receive: never blocks. A receiver that finds the queue shut down
    /// and drained retires it.
    pub fn try_recv<M>(&self, registry: &mut QueueRegistry<M>) -> (received: Result<
        M,
        TryRecvError,
    >)
        requires
            old(registry).wf(),
        ensures
            final(registry).wf(),
            received matches Ok(msg) ==> RegistryStep::Received(self.slot(), self.sub(), msg).takes(
                old(registry)@,
                final(registry)@,
            ),
            received == Err::<M, TryRecvError>(TryRecvError::Closed)
                ==> RegistryStep::<M>::Settled(self.slot()).takes(
                old(registry)@,
                final(registry)@,
            ),
            match received {
                Ok(msg) => old(registry)@.hands_out(
                    self.slot(),
                    self.sub(),
                    msg,
                    final(registry)@,
                ),
                Err(TryRecvError::WouldBlock) => old(registry)@.recv_blocks(
                    self.slot(),
                    self.sub(),
                ) && final(registry)@ == old(registry)@,
                Err(TryRecvError::Closed) => old(registry)@.exhausted(self.slot(), self.sub())
                    && final(registry)@ == old(registry)@.settled(self.slot()),
            },
    {
        let received = match (registry.core_mut(self.slot), self.sub) {
            (Some(AnyCore::Queue(core)), None) => core.try_recv(),
            (Some(AnyCore::Broadcast(core)), Some(sub)) => core.try_recv(sub),
            _ => Err(TryRecvError::Closed),
        };
        if let Err(TryRecvError::Closed) = received {
            registry.settle(self.slot);
        }
        received
    }

    /// Wait for a message: the receive gets in line, behind those that wait for
    /// the same messages already, and the next messages are handed to those in
    /// line. There is something to [collect](Self::collect), or the queue is
    /// shut down, once the receive [waits](Self::is_waiting) no longer. Gives
    /// nothing when there are no more tickets.
    pub fn wait<M>(&self, registry: &mut QueueRegistry<M>) -> (waiting: Option<u64>)
        requires
            old(registry).wf(),
            old(registry)@.recv_blocks(self.slot(), self.sub()),
        ensures
            final(registry).wf(),
            waiting matches Some(ticket) ==> RegistryStep::<M>::QueuedUp(
                self.slot(),
                self.sub(),
                ticket,
            ).takes(old(registry)@, final(registry)@),
            match waiting {
                Some(ticket) => old(registry)@.queues_up(
                    self.slot(),
                    self.sub(),
                    ticket,
                    final(registry)@,
                ),
                None => final(registry)@ == old(registry)@ && old(registry)@.at(
                    self.slot(),
                )->0.line_of(self.sub())->0.issued == u64::MAX,
            },
    {
        match (registry.core_mut(self.slot), self.sub) {
            (Some(AnyCore::Queue(core)), None) => core.queue_up(),
            (Some(AnyCore::Broadcast(core)), Some(sub)) => core.queue_up(sub),
            _ => None,
        }
    }

    /// Whether a receive is still in line.
    pub fn is_waiting<M>(&self, registry: &QueueRegistry<M>, ticket: u64) -> (waits: bool)
        requires
            registry.wf(),
        ensures
            waits == registry@.recv_waits(self.slot(), self.sub(), ticket),
    {
        match (registry.core_ref(self.slot), self.sub) {
            (Some(AnyCore::Queue(core)), None) => core.recv_waits(ticket),
            (Some(AnyCore::Broadcast(core)), Some(sub)) => core.recv_waits(sub, ticket),
            _ => false,
        }
    }

    /// Collect the message that was handed to a receive that waited.
    pub fn collect<M>(&self, registry: &mut QueueRegistry<M>, ticket: u64) -> (collected: Option<
        M,
    >)
        requires
            old(registry).wf(),
        ensures
            final(registry).wf(),
            collected matches Some(msg) ==> RegistryStep::Collected(
                self.slot(),
                self.sub(),
                ticket,
                msg,
            ).takes(old(registry)@, final(registry)@),
            match collected {
                Some(msg) => old(registry)@.collects(
                    self.slot(),
                    self.sub(),
                    ticket,
                    msg,
                    final(registry)@,
                ),
                None => !old(registry)@.served(self.slot(), self.sub(), ticket)
                    && final(registry)@ == old(registry)@,
            },
    {
        let collected = match (registry.core_mut(self.slot), self.sub) {
            (Some(AnyCore::Queue(core)), None) => core.collect(ticket),
            (Some(AnyCore::Broadcast(core)), Some(sub)) => core.collect(sub, ticket),
            _ => None,
        };
        if collected.is_some() {
            registry.sweep(self.slot);
        }
        collected
    }

    /// Take a blocking receive as far as it goes without waiting. A receive in
    /// line goes on waiting, or collects the message handed to it. Otherwise a
    /// message is taken, the queue is found shut down and drained, or the
    /// receive gets in line, while there are tickets.
    pub fn resume<M>(&self, registry: &mut QueueRegistry<M>, ticket: Option<u64>) -> (next:
        RecvProgress<M>)
        requires
            old(registry).wf(),
        ensures
            final(registry).wf(),
            match ticket {
                Some(t) if old(registry)@.recv_waits(self.slot(), self.sub(), t) => next
                    == RecvProgress::<M>::Waiting(ticket) && final(registry)@ == old(registry)@,
                Some(t) if old(registry)@.served(self.slot(), self.sub(), t) => next
                    matches RecvProgress::Received(msg) && RegistryStep::Collected(
                    self.slot(),
                    self.sub(),
                    t,
                    msg,
                ).takes(old(registry)@, final(registry)@),
                _ => match next {
                    RecvProgress::Received(msg) => RegistryStep::Received(
                        self.slot(),
                        self.sub(),
                        msg,
                    ).takes(old(registry)@, final(registry)@),
                    RecvProgress::Closed => old(registry)@.exhausted(self.slot(), self.sub())
                        && final(registry)@ == old(registry)@.settled(self.slot()),
                    RecvProgress::Waiting(Some(t)) => RegistryStep::<M>::QueuedUp(
                        self.slot(),
                        self.sub(),
                        t,
                    ).takes(old(registry)@, final(registry)@),
                    RecvProgress::Waiting(None) => old(registry)@.recv_blocks(
                        self.slot(),
                        self.sub(),
                    ) && final(registry)@ == old(registry)@ && old(registry)@.at(
                        self.slot(),
                    )->0.line_of(self.sub())->0.issued == u64::MAX,
                },
            },
    {
        if let Some(t) = ticket {
            if self.is_waiting(registry, t) {
                return RecvProgress::Waiting(ticket);
            }
            if let Some(msg) = self.collect(registry, t) {
                return RecvProgress::Received(msg);
            }
        }
        if self.would_block(registry) {
            return RecvProgress::Waiting(self.wait(registry));
        }
        match self.recv(registry) {
            Ok(msg) => RecvProgress::Received(msg),
            Err(RecvError::Closed) => RecvProgress::Closed,
        }
    }

    /// Another receiver of the same buffer; the two compete for its messages.
    pub fn clone<M>(&self, registry: &mut QueueRegistry<M>) -> (rx: Receiver)
        requires
            old(registry).wf(),
        ensures
            final(registry).wf(),
            RegistryStep::<M>::Joined(self.slot(), self.sub()).takes(
                old(registry)@,
                final(registry)@,
            ),
            final(registry)@ == old(registry)@.joined(self.slot(), self.sub()),
            rx.queue_name() == self.queue_name(),
            rx.slot() == self.slot(),
            rx.sub() == self.sub(),
    {
        match (registry.core_mut(self.slot), self.sub) {
            (Some(AnyCore::Broadcast(core)), Some(sub)) => core.join(sub),
            _ => {},
        }
        Receiver { name: self.name.clone(), slot: self.slot, sub: self.sub }
    }

    /// Give the receiver up. With the last receiver of a subscription goes the
    /// subscription, and a queue that is shut down and drained is retired.
    pub fn drop<M>(self, registry: &mut QueueRegistry<M>)
        requires
            old(registry).wf(),
        ensures
            final(registry).wf(),
            RegistryStep::<M>::Parted(self.slot(), self.sub()).takes(
                old(registry)@,
                final(registry)@,
            ),
            final(registry)@ == old(registry)@.parted(self.slot(), self.sub()),
    {
        let gone = match (registry.core_mut(self.slot), self.sub) {
            (Some(AnyCore::Broadcast(core)), Some(sub)) => core.unsubscribe(sub),
            _ => true,
        };
        if gone {
            registry.settle(self.slot);
        }
    }
}

} // verus!
