use crate::buffer::Buffer;
use crate::error::{RecvError, SendError, TryRecvError, TrySendError};
use crate::model;
use crate::model::{BodyView, QueueView, WorkView};
use crate::wait_line::{find, WaitLine};
use vstd::prelude::*;

verus! {

/// The state of one work-sharing queue: a single buffer that every receiver
/// drains, and the calls that wait.
///
/// The buffer stays open for the sends that wait also when the queue is shut
/// down, and is closed with the last of them.
pub struct ChannelCore<M> {
    name: String,
    open: bool,
    buffer: Buffer<M>,
    receives: WaitLine<M>,
    parked: Vec<(u64, M)>,
    issued: u64,
}

impl<M> ChannelCore<M> {
    spec fn work(self) -> WorkView<M> {
        WorkView {
            buffer: self.buffer@,
            receives: self.receives@,
            parked: self.parked@,
            issued: self.issued as nat,
        }
    }

    /// The queue that this state represents.
    pub closed spec fn view(self) -> QueueView<M> {
        QueueView {
            name: self.name@,
            open: self.open,
            capacity: self.buffer.capacity(),
            body: BodyView::Work(self.work()),
        }
    }

    /// The buffer is sound, and calls wait only for a reason.
    pub closed spec fn wf(self) -> bool {
        &&& self.buffer.wf()
        &&& self.buffer.is_open() == (self.open || self.parked@.len() > 0)
        &&& self.work().orderly(self.open, self.buffer.capacity())
    }

    /// A sound queue keeps within its bound.
    pub proof fn lemma_bounded(&self)
        requires
            self.wf(),
        ensures
            self@.bounded(),
    {
    }

    /// An open, empty queue.
    pub fn new(name: &str, capacity: usize) -> (core: ChannelCore<M>)
        requires
            capacity < usize::MAX,
        ensures
            core.wf(),
            core@ == QueueView::<M>::new_work(name@, capacity as nat),
    {
        ChannelCore {
            name: name.to_string(),
            open: true,
            buffer: Buffer::bounded(capacity),
            receives: WaitLine::new(),
            parked: Vec::new(),
            issued: 0,
        }
    }

    /// The name of the queue.
    pub fn name(&self) -> (name: &str)
        ensures
            name@ == self@.name,
    {
        self.name.as_str()
    }

    /// Whether the queue has been shut down.
    pub fn is_shutdown(&self) -> (shut: bool)
        ensures
            shut == !self@.open,
    {
        !self.open
    }

    /// Messages currently buffered.
    pub fn pending(&self) -> (pending: usize)
        ensures
            pending == self@.pending(),
    {
        self.buffer.len()
    }

    /// Whether a call that waited is still to be served.
    pub fn outstanding(&self) -> (outstanding: bool)
        ensures
            outstanding == self@.outstanding(),
    {
        self.receives.has_handed() || self.parked.len() > 0
    }

    /// Revoke the sender, once no send waits. Returns `true` when the queue is
    /// already drained, meaning the registry entry can be retired immediately.
    pub fn shutdown(&mut self) -> (drained: bool)
        requires
            old(self).wf(),
        ensures
            final(self).wf(),
            final(self)@ == old(self)@.shut(),
            final(self)@.pending() == old(self)@.pending(),
            drained == (old(self)@.pending() == 0),
    {
        self.open = false;
        self.receives.end();
        if self.parked.len() == 0 {
            self.buffer.close();
        }
        self.buffer.is_empty()
    }

    /// Tear the queue down: revoke the sender and hand out what was not
    /// consumed, oldest first.
    pub fn destroy(&mut self) -> (taken: Vec<M>)
        requires
            old(self).wf(),
        ensures
            final(self).wf(),
            final(self)@ == old(self)@.torn_down(),
            taken@ == old(self)@.unconsumed(),
    {
        let _ = self.shutdown();
        let ghost shut = *self;
        let mut taken: Vec<M> = Vec::new();
        loop
            invariant
                self.wf(),
                shut@ == old(self)@.shut(),
                !self.open,
                self.name@ == shut.name@,
                self.buffer.capacity() == shut.buffer.capacity(),
                self.receives@ == shut.receives@,
                self.issued == shut.issued,
                taken@ + self.work().line() =~= shut.work().line(),
            decreases self.work().line().len(),
        {
            match self.try_recv() {
                Ok(msg) => {
                    taken.push(msg);
                },
                Err(_) => {
                    assert(self.buffer@ =~= Seq::empty());
                    assert(self.parked@ =~= Seq::empty());
                    return taken;
                },
            }
        }
    }

    /// Whether a blocking send would have to wait.
    pub fn send_blocks(&self) -> (blocks: bool)
        requires
            self.wf(),
        ensures
            blocks == self@.send_blocks(),
    {
        self.open && self.receives.is_idle() && self.buffer.is_full()
    }

    /// Send a message where a receive waits for it or the queue has room.
    pub fn send(&mut self, msg: M) -> (sent: Result<(), SendError<M>>)
        requires
            old(self).wf(),
            !old(self)@.send_blocks(),
        ensures
            final(self).wf(),
            match sent {
                Ok(()) => old(self)@.open && old(self)@.delivers(msg, final(self)@),
                Err(SendError::Closed(back)) => !old(self)@.open && back == msg && final(self)@
                    == old(self)@,
            },
    {
        if !self.open {
            return Err(SendError::Closed(msg));
        }
        if !self.receives.is_idle() {
            self.receives.serve(msg);
            return Ok(());
        }
        self.buffer.send(msg)
    }

    /// Send a message unless that would have to wait.
    pub fn try_send(&mut self, msg: M) -> (sent: Result<(), TrySendError<M>>)
        requires
            old(self).wf(),
        ensures
            final(self).wf(),
            match sent {
                Ok(()) => old(self)@.open && !old(self)@.send_blocks() && old(self)@.delivers(
                    msg,
                    final(self)@,
                ),
                Err(TrySendError::WouldBlock(back)) => old(self)@.send_blocks() && back == msg
                    && final(self)@ == old(self)@,
                Err(TrySendError::Closed(back)) => !old(self)@.open && back == msg && final(self)@
                    == old(self)@,
            },
    {
        if !self.open {
            return Err(TrySendError::Closed(msg));
        }
        if !self.receives.is_idle() {
            self.receives.serve(msg);
            return Ok(());
        }
        self.buffer.try_send(msg)
    }

    /// Put a send that has to wait in line. Hands the message back when there
    /// are no more tickets.
    pub fn park(&mut self, msg: M) -> (parked: Result<u64, M>)
        requires
            old(self).wf(),
            old(self)@.send_blocks(),
        ensures
            final(self).wf(),
            match parked {
                Ok(ticket) => old(self)@.parks(ticket, msg, final(self)@),
                Err(back) => back == msg && final(self)@ == old(self)@
                    && old(self)@.body->Work_0.issued == u64::MAX,
            },
    {
        if self.issued == u64::MAX {
            return Err(msg);
        }
        let ticket = self.issued;
        self.parked.push((ticket, msg));
        self.issued = ticket + 1;
        proof {
            let line = model::tickets(old(self).parked@);
            assert(model::tickets(self.parked@) =~= line.push(ticket));
        }
        Ok(ticket)
    }

    /// Whether a send is still in line.
    pub fn send_waits(&self, ticket: u64) -> (waits: bool)
        ensures
            waits == self@.send_waits(ticket),
    {
        find(&self.parked, ticket).is_some()
    }

    /// Take a send out of the line, if it is still there.
    pub fn unpark(&mut self, ticket: u64) -> (back: Option<M>)
        requires
            old(self).wf(),
        ensures
            final(self).wf(),
            match back {
                Some(msg) => old(self)@.unparks(ticket, msg, final(self)@),
                None => !old(self)@.send_waits(ticket) && final(self)@ == old(self)@,
            },
    {
        match find(&self.parked, ticket) {
            Some(i) => {
                proof {
                    crate::wait_line::lemma_place(self.parked@, self.issued as nat, i as int);
                }
                let (_, msg) = self.parked.remove(i);
                proof {
                    assert(model::tickets(self.parked@) =~= model::tickets(
                        old(self).parked@,
                    ).remove(i as int));
                }
                if !self.open && self.parked.len() == 0 {
                    self.buffer.close();
                }
                Some(msg)
            },
            None => None,
        }
    }

    /// Whether nothing is buffered.
    pub fn is_drained(&self) -> (drained: bool)
        ensures
            drained == (self@.pending() == 0),
    {
        self.buffer.is_empty()
    }

    /// Whether a blocking receive would have to wait.
    pub fn recv_blocks(&self) -> (blocks: bool)
        requires
            self.wf(),
        ensures
            blocks == self@.recv_blocks(None),
    {
        self.open && self.buffer.is_empty() && self.parked.len() == 0
    }

    /// Takes the message of the send that has waited longest, on a queue
    /// without a place for it.
    fn take_parked(&mut self) -> (msg: M)
        requires
            old(self).wf(),
            old(self).parked@.len() > 0,
            old(self).buffer@.len() == 0,
        ensures
            final(self).wf(),
            old(self)@.hands_out(None, msg, final(self)@),
    {
        let (_, msg) = self.parked.remove(0);
        proof {
            self.lemma_parked_left(*old(self));
            assert(self.buffer@ =~= self.buffer@.push(msg).drop_first());
        }
        self.seal();
        msg
    }

    /// Gives the room that was made in the buffer to the send that has waited
    /// longest.
    fn let_in(&mut self, Ghost(before): Ghost<ChannelCore<M>>)
        requires
            before.wf(),
            before.buffer@.len() > 0,
            old(self).name == before.name,
            old(self).open == before.open,
            old(self).receives == before.receives,
            old(self).parked == before.parked,
            old(self).issued == before.issued,
            old(self).buffer.wf(),
            old(self).buffer.is_open() == before.buffer.is_open(),
            old(self).buffer.capacity() == before.buffer.capacity(),
            old(self).buffer@ == before.buffer@.drop_first(),
        ensures
            final(self).wf(),
            before@.hands_out(None, before.buffer@[0], final(self)@),
    {
        if self.parked.len() > 0 {
            let (_, msg) = self.parked.remove(0);
            let _ = self.buffer.try_send(msg);
            proof {
                self.lemma_parked_left(before);
                assert(self.buffer@ =~= before.buffer@.push(msg).drop_first());
            }
            self.seal();
        }
    }

    /// The tickets stay ranked when the first send leaves the line.
    proof fn lemma_parked_left(self, before: ChannelCore<M>)
        requires
            before.wf(),
            before.parked@.len() > 0,
            self.parked@ == before.parked@.remove(0),
        ensures
            self.parked@ == before.parked@.drop_first(),
            model::ranked(model::tickets(self.parked@), before.issued as nat),
            before.work().line() == (before.buffer@.push(before.parked@[0].1)) + model::messages(
                self.parked@,
            ),
    {
        assert(self.parked@ =~= before.parked@.drop_first());
        let line = model::tickets(before.parked@);
        assert(model::tickets(self.parked@) =~= line.drop_first());
        assert(model::messages(before.parked@) =~= seq![before.parked@[0].1] + model::messages(
            self.parked@,
        ));
        assert(before.work().line() =~= (before.buffer@.push(before.parked@[0].1))
            + model::messages(self.parked@));
    }

    /// Closes the buffer of a queue that is shut down, once no send waits.
    fn seal(&mut self)
        requires
            old(self).buffer.wf(),
            old(self).buffer.is_open(),
        ensures
            final(self).buffer.wf(),
            final(self).buffer.is_open() == (final(self).open || final(self).parked@.len() > 0),
            final(self).buffer.capacity() == old(self).buffer.capacity(),
            final(self).buffer@ == old(self).buffer@,
            final(self).name == old(self).name,
            final(self).open == old(self).open,
            final(self).receives == old(self).receives,
            final(self).parked == old(self).parked,
            final(self).issued == old(self).issued,
    {
        if !self.open && self.parked.len() == 0 {
            self.buffer.close();
        }
    }

    /// Take the oldest message, where there is one or none will ever come.
    pub fn recv(&mut self) -> (received: Result<M, RecvError>)
        requires
            old(self).wf(),
            !old(self)@.recv_blocks(None),
        ensures
            final(self).wf(),
            match received {
                Ok(msg) => old(self)@.hands_out(None, msg, final(self)@),
                Err(RecvError::Closed) => old(self)@.exhausted(None) && final(self)@ == old(self)@,
            },
    {
        if self.buffer.is_empty() && self.parked.len() > 0 {
            return Ok(self.take_parked());
        }
        let received = self.buffer.recv();
        if received.is_ok() {
            self.let_in(Ghost(*old(self)));
        }
        received
    }

    /// Take the oldest message if there is one.
    pub fn try_recv(&mut self) -> (received: Result<M, TryRecvError>)
        requires
            old(self).wf(),
        ensures
            final(self).wf(),
            match received {
                Ok(msg) => old(self)@.hands_out(None, msg, final(self)@),
                Err(TryRecvError::WouldBlock) => old(self)@.recv_blocks(None) && final(self)@
                    == old(self)@,
                Err(TryRecvError::Closed) => old(self)@.exhausted(None) && final(self)@
                    == old(self)@,
            },
    {
        if self.buffer.is_empty() && self.parked.len() > 0 {
            return Ok(self.take_parked());
        }
        let received = self.buffer.try_recv();
        if received.is_ok() {
            self.let_in(Ghost(*old(self)));
        }
        received
    }

    /// Put a receive that has to wait in line, while there are tickets.
    pub fn queue_up(&mut self) -> (ticket: Option<u64>)
        requires
            old(self).wf(),
            old(self)@.recv_blocks(None),
        ensures
            final(self).wf(),
            match ticket {
                Some(t) => old(self)@.queues_up(None, t, final(self)@),
                None => final(self)@ == old(self)@ && old(self)@.line_of(None)->0.issued
                    == u64::MAX,
            },
    {
        assert(self.work().line().len() == 0);
        self.receives.queue_up()
    }

    /// Whether a receive is still in line.
    pub fn recv_waits(&self, ticket: u64) -> (waits: bool)
        ensures
            waits == self@.recv_waits(None, ticket),
    {
        self.receives.waits(ticket)
    }

    /// Collect the message that was handed to a receive that waited.
    pub fn collect(&mut self, ticket: u64) -> (collected: Option<M>)
        requires
            old(self).wf(),
        ensures
            final(self).wf(),
            match collected {
                Some(msg) => old(self)@.collects(None, ticket, msg, final(self)@),
                None => !old(self)@.served(None, ticket) && final(self)@ == old(self)@,
            },
    {
        self.receives.collect(ticket)
    }
}

} // verus!
