use crate::error::{SendError, TrySendError};
use crate::model::RegistryStep;
use crate::registry::{AnyCore, QueueRegistry};
use vstd::prelude::*;

verus! {

/// A producer handle for one named queue of the registry that issued it. Clone
/// freely; all clones feed the same queue. Every send fails with `Closed` once
/// the queue is shut down.
///
/// On a work-sharing queue each message goes to one receiver and a full
/// buffer applies backpressure. On a broadcasting queue each message is
/// copied to every current subscriber, sends never block, and slow
/// subscribers lose their oldest buffered messages instead.
pub struct Sender {
    name: String,
    slot: usize,
}

/// What a blocking send goes on with: its message, or its place in line.
#[derive(Debug, PartialEq, Eq)]
pub enum SendTurn<M> {
    /// The message is still to be sent.
    Message(M),
    /// The message is in line, under a ticket.
    Ticket(u64),
}

/// How far a blocking send has come.
#[derive(Debug, PartialEq, Eq)]
pub enum SendProgress<M> {
    /// The send is done.
    Sent,
    /// The queue is shut down. Message handed back.
    Closed(M),
    /// The send has to wait, and goes on with this when the queue has changed.
    Waiting(SendTurn<M>),
}

impl Sender {
    /// The name of the queue.
    pub closed spec fn queue_name(self) -> Seq<char> {
        self.name@
    }

    /// The registry slot of the queue.
    pub closed spec fn slot(self) -> int {
        self.slot as int
    }

    pub(crate) fn new(name: &str, slot: usize) -> (tx: Sender)
        ensures
            tx.queue_name() == name@,
            tx.slot() == slot,
    {
        Sender { name: name.to_string(), slot }
    }

    /// The queue name this sender feeds.
    pub fn name(&self) -> (name: &str)
        ensures
            name@ == self.queue_name(),
    {
        self.name.as_str()
    }

    /// Whether a blocking send would have to wait now: only for an open
    /// work-sharing queue that is full and that no receive waits on.
    pub fn would_block<M>(&self, registry: &QueueRegistry<M>) -> (blocks: bool)
        requires
            registry.wf(),
        ensures
            blocks == registry@.send_blocks(self.slot()),
    {
        match registry.core_ref(self.slot) {
            Some(AnyCore::Queue(core)) => core.send_blocks(),
            Some(AnyCore::Broadcast(_)) => false,
            None => false,
        }
    }

    /// Send a message, where that needs no waiting. Broadcasting queues never
    /// make a sender wait: the message is copied to every subscriber
    /// immediately (dropping each full subscriber's oldest message).
    pub fn send<M>(&self, registry: &mut QueueRegistry<M>, msg: M) -> (sent: Result<
        (),
        SendError<M>,
    >)
        requires
            old(registry).wf(),
            !old(registry)@.send_blocks(self.slot()),
        ensures
            final(registry).wf(),
            sent is Ok ==> RegistryStep::Sent(self.slot(), msg).takes(
                old(registry)@,
                final(registry)@,
            ),
            match sent {
                Ok(()) => old(registry)@.accepts(self.slot()) && old(registry)@.delivers(
                    self.slot(),
                    msg,
                    final(registry)@,
                ),
                Err(SendError::Closed(back)) => !old(registry)@.accepts(self.slot()) && back == msg
                    && final(registry)@ == old(registry)@,
            },
    {
        match registry.core_mut(self.slot) {
            Some(AnyCore::Queue(core)) => core.send(msg),
            Some(AnyCore::Broadcast(core)) => {
                if core.is_shutdown() {
                    return Err(SendError::Closed(msg));
                }
                core.broadcast(&msg);
                Ok(())
            },
            None => Err(SendError::Closed(msg)),
        }
    }

    /// Probe-send: never blocks. Broadcasting queues never report
    /// `WouldBlock`; a send either succeeds or the queue is closed.
    pub fn try_send<M>(&self, registry: &mut QueueRegistry<M>, msg: M) -> (sent: Result<
        (),
        TrySendError<M>,
    >)
        requires
            old(registry).wf(),
        ensures
            final(registry).wf(),
            sent is Ok ==> RegistryStep::Sent(self.slot(), msg).takes(
                old(registry)@,
                final(registry)@,
            ),
            match sent {
                Ok(()) => old(registry)@.accepts(self.slot()) && !old(registry)@.send_blocks(
                    self.slot(),
                ) && old(registry)@.delivers(self.slot(), msg, final(registry)@),
                Err(TrySendError::WouldBlock(back)) => old(registry)@.send_blocks(self.slot())
                    && back == msg && final(registry)@ == old(registry)@,
                Err(TrySendError::Closed(back)) => !old(registry)@.accepts(self.slot()) && back
                    == msg && final(registry)@ == old(registry)@,
            },
    {
        match registry.core_mut(self.slot) {
            Some(AnyCore::Queue(core)) => core.try_send(msg),
            Some(AnyCore::Broadcast(core)) => {
                if core.is_shutdown() {
                    return Err(TrySendError::Closed(msg));
                }
                core.broadcast(&msg);
                Ok(())
            },
            None => Err(TrySendError::Closed(msg)),
        }
    }

    /// Wait with a message for room, or for a receive to take it: the send gets
    /// in line, behind those that wait already. It is done once it
    /// [waits](Self::is_waiting) no longer. Hands the message back when the
    /// queue has no more tickets to give out.
    pub fn wait<M>(&self, registry: &mut QueueRegistry<M>, msg: M) -> (waiting: Result<u64, M>)
        requires
            old(registry).wf(),
            old(registry)@.send_blocks(self.slot()),
        ensures
            final(registry).wf(),
            waiting matches Ok(ticket) ==> RegistryStep::Parked(self.slot(), ticket, msg).takes(
                old(registry)@,
                final(registry)@,
            ),
            match waiting {
                Ok(ticket) => old(registry)@.parks(self.slot(), ticket, msg, final(registry)@),
                Err(back) => back == msg && final(registry)@ == old(registry)@ && old(registry)@.at(
                    self.slot(),
                )->0.body->Work_0.issued == u64::MAX,
            },
    {
        match registry.core_mut(self.slot) {
            Some(AnyCore::Queue(core)) => core.park(msg),
            _ => Err(msg),
        }
    }

    /// Whether a send is still in line.
    pub fn is_waiting<M>(&self, registry: &QueueRegistry<M>, ticket: u64) -> (waits: bool)
        requires
            registry.wf(),
        ensures
            waits == registry@.send_waits(self.slot(), ticket),
    {
        match registry.core_ref(self.slot) {
            Some(AnyCore::Queue(core)) => core.send_waits(ticket),
            _ => false,
        }
    }

    /// Take a blocking send as far as it goes without waiting. A message is
    /// sent, refused because the queue is shut down, or put in line; when there
    /// are no more tickets, it is kept for another try. A send in line is done
    /// once it is no longer there.
    pub fn resume<M>(&self, registry: &mut QueueRegistry<M>, turn: SendTurn<M>) -> (next:
        SendProgress<M>)
        requires
            old(registry).wf(),
        ensures
            final(registry).wf(),
            match (turn, next) {
                (SendTurn::Ticket(ticket), SendProgress::Sent) => !old(registry)@.send_waits(
                    self.slot(),
                    ticket,
                ) && final(registry)@ == old(registry)@,
                (
                    SendTurn::Ticket(ticket),
                    SendProgress::Waiting(SendTurn::Ticket(same)),
                ) => same == ticket && old(registry)@.send_waits(self.slot(), ticket)
                    && final(registry)@ == old(registry)@,
                (SendTurn::Message(msg), SendProgress::Sent) => RegistryStep::Sent(
                    self.slot(),
                    msg,
                ).takes(old(registry)@, final(registry)@),
                (SendTurn::Message(msg), SendProgress::Closed(back)) => back == msg
                    && !old(registry)@.accepts(self.slot()) && final(registry)@ == old(registry)@,
                (
                    SendTurn::Message(msg),
                    SendProgress::Waiting(SendTurn::Ticket(ticket)),
                ) => RegistryStep::Parked(self.slot(), ticket, msg).takes(
                    old(registry)@,
                    final(registry)@,
                ),
                (
                    SendTurn::Message(msg),
                    SendProgress::Waiting(SendTurn::Message(back)),
                ) => back == msg && old(registry)@.send_blocks(self.slot()) && final(registry)@
                    == old(registry)@ && old(registry)@.at(self.slot())->0.body->Work_0.issued
                    == u64::MAX,
                _ => false,
            },
    {
        match turn {
            SendTurn::Ticket(ticket) => if self.is_waiting(registry, ticket) {
                SendProgress::Waiting(SendTurn::Ticket(ticket))
            } else {
                SendProgress::Sent
            },
            SendTurn::Message(msg) => if self.would_block(registry) {
                match self.wait(registry, msg) {
                    Ok(ticket) => SendProgress::Waiting(SendTurn::Ticket(ticket)),
                    Err(back) => SendProgress::Waiting(SendTurn::Message(back)),
                }
            } else {
                match self.send(registry, msg) {
                    Ok(()) => SendProgress::Sent,
                    Err(SendError::Closed(back)) => SendProgress::Closed(back),
                }
            },
        }
    }

    /// Stop waiting and take the message back, if the send is still in line.
    pub fn give_up<M>(&self, registry: &mut QueueRegistry<M>, ticket: u64) -> (back: Option<M>)
        requires
            old(registry).wf(),
        ensures
            final(registry).wf(),
            back matches Some(msg) ==> RegistryStep::Unparked(self.slot(), ticket, msg).takes(
                old(registry)@,
                final(registry)@,
            ),
            match back {
                Some(msg) => old(registry)@.unparks(self.slot(), ticket, msg, final(registry)@),
                None => !old(registry)@.send_waits(self.slot(), ticket) && final(registry)@
                    == old(registry)@,
            },
    {
        let back = match registry.core_mut(self.slot) {
            Some(AnyCore::Queue(core)) => core.unpark(ticket),
            _ => None,
        };
        if back.is_some() {
            registry.sweep(self.slot);
        }
        back
    }
}

impl Clone for Sender {
    fn clone(&self) -> (tx: Sender)
        ensures
            tx.queue_name() == self.queue_name(),
            tx.slot() == self.slot(),
    {
        Sender { name: self.name.clone(), slot: self.slot }
    }
}

} // verus!
