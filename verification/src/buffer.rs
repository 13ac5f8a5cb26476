use crate::error::{RecvError, SendError, TryRecvError, TrySendError};
use crate::slot_channel::SlotChannel;
use vstd::prelude::*;

verus! {

/// A bounded first-in first-out buffer of messages.
///
/// The messages wait in numbered slots; a flume channel of the slot numbers
/// decides their order, when the buffer is full and when it is closed.
pub struct Buffer<M> {
    limit: usize,
    order: SlotChannel,
    slots: Vec<Option<M>>,
    vacant: Vec<usize>,
}

impl<M> Buffer<M> {
    /// The buffered messages, oldest first.
    pub closed spec fn view(self) -> Seq<M> {
        self.order@.map_values(|t: u64| self.slots@[t as int]->0)
    }

    /// How many messages the buffer takes before it is full.
    pub closed spec fn capacity(self) -> nat {
        self.order.capacity()
    }

    /// Whether the buffer still accepts messages.
    pub closed spec fn is_open(self) -> bool {
        self.order.is_open()
    }

    /// Every queued number names an occupied slot, no slot is queued twice, and
    /// the slots on the vacant list are empty and listed once.
    pub closed spec fn wf(self) -> bool {
        &&& forall|i: int|
            0 <= i < self.order@.len() ==> (#[trigger] self.order@[i]) < self.slots@.len()
                && self.slots@[self.order@[i] as int] is Some
        &&& self.order@.no_duplicates()
        &&& forall|i: int|
            0 <= i < self.vacant@.len() ==> (#[trigger] self.vacant@[i]) < self.slots@.len()
                && self.slots@[self.vacant@[i] as int] is None
        &&& self.vacant@.no_duplicates()
        &&& self.order.capacity() == self.limit
        &&& self.limit < usize::MAX
    }

    /// A new buffer of the given capacity, open and empty.
    pub fn bounded(capacity: usize) -> (buffer: Buffer<M>)
        requires
            capacity < usize::MAX,
        ensures
            buffer.wf(),
            buffer@ == Seq::<M>::empty(),
            buffer.capacity() == capacity,
            buffer.is_open(),
    {
        let buffer = Buffer {
            limit: capacity,
            order: SlotChannel::bounded(capacity),
            slots: Vec::new(),
            vacant: Vec::new(),
        };
        assert(buffer@ =~= Seq::<M>::empty());
        buffer
    }

    /// Puts a message into an empty slot and returns the slot's number.
    fn place(&mut self, msg: M) -> (slot: usize)
        requires
            old(self).wf(),
        ensures
            final(self).wf(),
            final(self).order == old(self).order,
            final(self).limit == old(self).limit,
            final(self)@ == old(self)@,
            slot < final(self).slots@.len(),
            final(self).slots@[slot as int] == Some(msg),
            forall|i: int| 0 <= i < final(self).order@.len() ==> final(self).order@[i] != slot,
            forall|i: int| 0 <= i < final(self).vacant@.len() ==> final(self).vacant@[i] != slot,
    {
        let slot = match self.vacant.pop() {
            Some(slot) => {
                self.slots[slot] = Some(msg);
                slot
            },
            None => {
                let slot = self.slots.len();
                self.slots.push(Some(msg));
                slot
            },
        };
        assert(self@ =~= old(self)@);
        slot
    }

    /// Empties a slot that no queued number names.
    fn vacate(&mut self, slot: usize) -> (msg: M)
        requires
            old(self).wf(),
            slot < old(self).slots@.len(),
            old(self).slots@[slot as int] is Some,
            forall|i: int| 0 <= i < old(self).order@.len() ==> old(self).order@[i] != slot,
        ensures
            final(self).wf(),
            final(self).order == old(self).order,
            final(self).limit == old(self).limit,
            final(self)@ == old(self)@,
            old(self).slots@[slot as int] == Some(msg),
    {
        let msg = self.slots[slot].take().unwrap();
        self.vacant.push(slot);
        assert(self@ =~= old(self)@);
        msg
    }

    /// Appends a message where there is room for it, or hands it back once the
    /// buffer is closed.
    pub fn send(&mut self, msg: M) -> (sent: Result<(), SendError<M>>)
        requires
            old(self).wf(),
            old(self).is_open() ==> old(self)@.len() < old(self).capacity(),
        ensures
            final(self).wf(),
            final(self).is_open() == old(self).is_open(),
            final(self).capacity() == old(self).capacity(),
            match sent {
                Ok(()) => old(self).is_open() && final(self)@ == old(self)@.push(msg),
                Err(SendError::Closed(back)) => !old(self).is_open() && back == msg
                    && final(self)@ == old(self)@,
            },
    {
        let slot = self.place(msg);
        let ghost placed = *self;
        match self.order.send(slot as u64) {
            Ok(()) => {
                assert(self@ =~= placed@.push(msg));
                Ok(())
            },
            Err(SendError::Closed(back)) => {
                assert(self@ =~= placed@);
                Err(SendError::Closed(self.vacate(back as usize)))
            },
        }
    }

    /// Appends a message, or hands it back when the buffer is full or closed.
    pub fn try_send(&mut self, msg: M) -> (sent: Result<(), TrySendError<M>>)
        requires
            old(self).wf(),
        ensures
            final(self).wf(),
            final(self).is_open() == old(self).is_open(),
            final(self).capacity() == old(self).capacity(),
            match sent {
                Ok(()) => old(self).is_open() && old(self)@.len() < old(self).capacity()
                    && final(self)@ == old(self)@.push(msg),
                Err(TrySendError::WouldBlock(back)) => old(self).is_open() && old(self)@.len()
                    >= old(self).capacity() && back == msg && final(self)@ == old(self)@,
                Err(TrySendError::Closed(back)) => !old(self).is_open() && back == msg
                    && final(self)@ == old(self)@,
            },
    {
        let slot = self.place(msg);
        let ghost placed = *self;
        match self.order.try_send(slot as u64) {
            Ok(()) => {
                assert(self@ =~= placed@.push(msg));
                Ok(())
            },
            Err(TrySendError::WouldBlock(back)) => {
                assert(self@ =~= placed@);
                Err(TrySendError::WouldBlock(self.vacate(back as usize)))
            },
            Err(TrySendError::Closed(back)) => {
                assert(self@ =~= placed@);
                Err(TrySendError::Closed(self.vacate(back as usize)))
            },
        }
    }

    /// Takes the oldest message, or reports that none will ever come.
    pub fn recv(&mut self) -> (received: Result<M, RecvError>)
        requires
            old(self).wf(),
            old(self)@.len() > 0 || !old(self).is_open(),
        ensures
            final(self).wf(),
            final(self).is_open() == old(self).is_open(),
            final(self).capacity() == old(self).capacity(),
            match received {
                Ok(msg) => old(self)@.len() > 0 && msg == old(self)@[0] && final(self)@
                    == old(self)@.drop_first(),
                Err(RecvError::Closed) => old(self)@.len() == 0 && final(self)@ == old(self)@,
            },
    {
        match self.order.recv() {
            Ok(slot) => {
                assert(old(self).order@[0] < old(self).slots.len());
                assert(self@ =~= old(self)@.drop_first());
                Ok(self.vacate(slot as usize))
            },
            Err(e) => {
                assert(self@ =~= old(self)@);
                Err(e)
            },
        }
    }

    /// Takes the oldest message, or tells an empty buffer from one that is also
    /// closed.
    pub fn try_recv(&mut self) -> (received: Result<M, TryRecvError>)
        requires
            old(self).wf(),
        ensures
            final(self).wf(),
            final(self).is_open() == old(self).is_open(),
            final(self).capacity() == old(self).capacity(),
            match received {
                Ok(msg) => old(self)@.len() > 0 && msg == old(self)@[0] && final(self)@
                    == old(self)@.drop_first(),
                Err(e) => old(self)@.len() == 0 && final(self)@ == old(self)@ && (e is WouldBlock
                    <==> old(self).is_open()),
            },
    {
        match self.order.try_recv() {
            Ok(slot) => {
                assert(old(self).order@[0] < old(self).slots.len());
                assert(self@ =~= old(self)@.drop_first());
                Ok(self.vacate(slot as usize))
            },
            Err(e) => {
                assert(self@ =~= old(self)@);
                Err(e)
            },
        }
    }

    /// How many messages are buffered.
    pub fn len(&self) -> (n: usize)
        ensures
            n == self@.len(),
    {
        self.order.len()
    }

    /// Whether no message is buffered.
    pub fn is_empty(&self) -> (empty: bool)
        ensures
            empty == (self@.len() == 0),
    {
        self.order.is_empty()
    }

    /// Whether the buffer takes no more messages for now.
    pub fn is_full(&self) -> (full: bool)
        requires
            self.wf(),
        ensures
            full == (self@.len() >= self.capacity()),
    {
        self.order.len() >= self.limit
    }

    /// Closes the buffer: what is buffered can still be taken, nothing can be
    /// added.
    pub fn close(&mut self)
        requires
            old(self).wf(),
        ensures
            final(self).wf(),
            !final(self).is_open(),
            final(self)@ == old(self)@,
            final(self).capacity() == old(self).capacity(),
    {
        self.order.revoke();
        assert(self@ =~= old(self)@);
    }

    /// Discards every buffered message.
    pub fn clear(&mut self)
        requires
            old(self).wf(),
        ensures
            final(self).wf(),
            final(self).is_open() == old(self).is_open(),
            final(self).capacity() == old(self).capacity(),
            final(self)@ == Seq::<M>::empty(),
    {
        loop
            invariant
                self.wf(),
                self.is_open() == old(self).is_open(),
                self.capacity() == old(self).capacity(),
            decreases self@.len(),
        {
            if self.try_recv().is_err() {
                assert(self@ =~= Seq::<M>::empty());
                return ;
            }
        }
    }
}

} // verus!
