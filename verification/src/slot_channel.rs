use crate::error::{RecvError, SendError, TryRecvError, TrySendError};
use flume::Receiver as FlumeReceiver;
use flume::Sender as FlumeSender;
use vstd::prelude::*;

verus! {

/// `flume::Sender`, the end of a channel that messages enter.
#[verifier::external_type_specification]
#[verifier::external_body]
#[verifier::reject_recursive_types(T)]
pub struct ExFlumeSender<T>(FlumeSender<T>);

/// `flume::Receiver`, the end of a channel that messages leave.
#[verifier::external_type_specification]
#[verifier::external_body]
#[verifier::reject_recursive_types(T)]
pub struct ExFlumeReceiver<T>(FlumeReceiver<T>);

/// The slot numbers that wait in the channel behind `rx`, oldest first.
pub uninterp spec fn buffered(rx: FlumeReceiver<u64>) -> Seq<u64>;

/// The capacity that the channel behind `rx` was made with.
pub uninterp spec fn limit(rx: FlumeReceiver<u64>) -> nat;

/// A bounded flume channel of slot numbers, held by both its ends.
///
/// The two ends are made together and never leave this module, neither is
/// cloned, and the sending end is there exactly while the channel is open. So
/// what a `SlotChannel` holds changes by the methods below and in no other way.
pub struct SlotChannel {
    tx: Option<FlumeSender<u64>>,
    rx: FlumeReceiver<u64>,
}

impl SlotChannel {
    /// The slot numbers in the channel, oldest first.
    pub closed spec fn view(self) -> Seq<u64> {
        buffered(self.rx)
    }

    /// How many slot numbers the channel takes before it is full.
    pub closed spec fn capacity(self) -> nat {
        limit(self.rx)
    }

    /// Whether the sending end is still there.
    pub closed spec fn is_open(self) -> bool {
        self.tx is Some
    }

    /// Calls `flume::bounded`: an empty channel of the given capacity, with
    /// both its ends.
    #[verifier::external_body]
    fn flume_bounded(capacity: usize) -> (channel: SlotChannel)
        ensures
            channel.tx is Some,
            buffered(channel.rx) == Seq::<u64>::empty(),
            limit(channel.rx) == capacity,
    {
        let (tx, rx) = flume::bounded(capacity);
        SlotChannel { tx: Some(tx), rx }
    }

    /// Calls `flume::Sender::send`. The receiving end is there, so the call
    /// does not fail; with a free place in the buffer and nobody waiting to
    /// receive, it appends the number and returns at once. Without a free place
    /// it would wait for ever, since nobody else can receive.
    #[verifier::external_body]
    fn flume_send(&mut self, slot: u64) -> (sent: Result<(), SendError<u64>>)
        requires
            old(self).tx is Some,
            buffered(old(self).rx).len() < limit(old(self).rx),
        ensures
            sent is Ok,
            final(self).tx == old(self).tx,
            buffered(final(self).rx) == buffered(old(self).rx).push(slot),
            limit(final(self).rx) == limit(old(self).rx),
    {
        match self.tx.as_ref().unwrap().send(slot) {
            Ok(()) => Ok(()),
            Err(flume::SendError(slot)) => Err(SendError::Closed(slot)),
        }
    }

    /// Calls `flume::Sender::try_send`. The receiving end is there and nobody
    /// waits to receive, so the number is appended while fewer than the
    /// capacity are buffered, and is handed back as `Full` otherwise.
    #[verifier::external_body]
    fn flume_try_send(&mut self, slot: u64) -> (sent: Result<(), TrySendError<u64>>)
        requires
            old(self).tx is Some,
        ensures
            final(self).tx == old(self).tx,
            limit(final(self).rx) == limit(old(self).rx),
            match sent {
                Ok(()) => buffered(old(self).rx).len() < limit(old(self).rx) && buffered(
                    final(self).rx,
                ) == buffered(old(self).rx).push(slot),
                Err(TrySendError::WouldBlock(back)) => back == slot && buffered(old(self).rx).len()
                    >= limit(old(self).rx) && buffered(final(self).rx) == buffered(old(self).rx),
                Err(TrySendError::Closed(_)) => false,
            },
    {
        match self.tx.as_ref().unwrap().try_send(slot) {
            Ok(()) => Ok(()),
            Err(flume::TrySendError::Full(slot)) => Err(TrySendError::WouldBlock(slot)),
            Err(flume::TrySendError::Disconnected(slot)) => Err(TrySendError::Closed(slot)),
        }
    }

    /// Calls `flume::Receiver::recv`. It takes the oldest number; with none
    /// left and the sending end gone it reports the disconnect. With none left
    /// and the sending end there it would wait for ever, since nobody else can
    /// send. The call adds one to the capacity, which must not overflow.
    #[verifier::external_body]
    fn flume_recv(&mut self) -> (received: Result<u64, RecvError>)
        requires
            buffered(old(self).rx).len() > 0 || old(self).tx is None,
            limit(old(self).rx) < usize::MAX,
        ensures
            final(self).tx == old(self).tx,
            limit(final(self).rx) == limit(old(self).rx),
            match received {
                Ok(slot) => buffered(old(self).rx).len() > 0 && slot == buffered(old(self).rx)[0]
                    && buffered(final(self).rx) == buffered(old(self).rx).drop_first(),
                Err(RecvError::Closed) => buffered(old(self).rx).len() == 0 && buffered(
                    final(self).rx,
                ) == buffered(old(self).rx),
            },
    {
        match self.rx.recv() {
            Ok(slot) => Ok(slot),
            Err(flume::RecvError::Disconnected) => Err(RecvError::Closed),
        }
    }

    /// Calls `flume::Receiver::try_recv`. It takes the oldest number; with none
    /// left it reports `Empty` while the sending end is there and
    /// `Disconnected` once it is gone. The call adds one to the capacity, which
    /// must not overflow.
    #[verifier::external_body]
    fn flume_try_recv(&mut self) -> (received: Result<u64, TryRecvError>)
        requires
            limit(old(self).rx) < usize::MAX,
        ensures
            final(self).tx == old(self).tx,
            limit(final(self).rx) == limit(old(self).rx),
            match received {
                Ok(slot) => buffered(old(self).rx).len() > 0 && slot == buffered(old(self).rx)[0]
                    && buffered(final(self).rx) == buffered(old(self).rx).drop_first(),
                Err(e) => buffered(old(self).rx).len() == 0 && buffered(final(self).rx)
                    == buffered(old(self).rx) && (e is WouldBlock <==> old(self).tx is Some),
            },
    {
        match self.rx.try_recv() {
            Ok(slot) => Ok(slot),
            Err(flume::TryRecvError::Empty) => Err(TryRecvError::WouldBlock),
            Err(flume::TryRecvError::Disconnected) => Err(TryRecvError::Closed),
        }
    }

    /// Calls `flume::Receiver::len`: how many numbers are buffered.
    #[verifier::external_body]
    fn flume_len(&self) -> (n: usize)
        ensures
            n == buffered(self.rx).len(),
    {
        self.rx.len()
    }

    /// Calls `flume::Receiver::is_empty`: whether no number is buffered.
    #[verifier::external_body]
    fn flume_is_empty(&self) -> (empty: bool)
        ensures
            empty == (buffered(self.rx).len() == 0),
    {
        self.rx.is_empty()
    }

    /// A new channel of the given capacity, open and empty.
    pub fn bounded(capacity: usize) -> (channel: SlotChannel)
        ensures
            channel@ == Seq::<u64>::empty(),
            channel.capacity() == capacity,
            channel.is_open(),
    {
        SlotChannel::flume_bounded(capacity)
    }

    /// Drops the sending end: what is buffered can still be taken, nothing can
    /// be added.
    pub fn revoke(&mut self)
        ensures
            !final(self).is_open(),
            final(self)@ == old(self)@,
            final(self).capacity() == old(self).capacity(),
    {
        self.tx = None;
    }

    /// Appends a slot number where there is room for it.
    pub fn send(&mut self, slot: u64) -> (sent: Result<(), SendError<u64>>)
        requires
            old(self).is_open() ==> old(self)@.len() < old(self).capacity(),
        ensures
            final(self).is_open() == old(self).is_open(),
            final(self).capacity() == old(self).capacity(),
            match sent {
                Ok(()) => old(self).is_open() && final(self)@ == old(self)@.push(slot),
                Err(SendError::Closed(back)) => !old(self).is_open() && back == slot
                    && final(self)@ == old(self)@,
            },
    {
        if self.tx.is_none() {
            return Err(SendError::Closed(slot));
        }
        self.flume_send(slot)
    }

    /// Appends a slot number, or hands it back when the channel is full or
    /// revoked.
    pub fn try_send(&mut self, slot: u64) -> (sent: Result<(), TrySendError<u64>>)
        ensures
            final(self).is_open() == old(self).is_open(),
            final(self).capacity() == old(self).capacity(),
            match sent {
                Ok(()) => old(self).is_open() && old(self)@.len() < old(self).capacity()
                    && final(self)@ == old(self)@.push(slot),
                Err(TrySendError::WouldBlock(back)) => old(self).is_open() && old(self)@.len()
                    >= old(self).capacity() && back == slot && final(self)@ == old(self)@,
                Err(TrySendError::Closed(back)) => !old(self).is_open() && back == slot
                    && final(self)@ == old(self)@,
            },
    {
        if self.tx.is_none() {
            return Err(TrySendError::Closed(slot));
        }
        self.flume_try_send(slot)
    }

    /// Takes the oldest slot number, or reports that none will ever come.
    pub fn recv(&mut self) -> (received: Result<u64, RecvError>)
        requires
            old(self)@.len() > 0 || !old(self).is_open(),
            old(self).capacity() < usize::MAX,
        ensures
            final(self).is_open() == old(self).is_open(),
            final(self).capacity() == old(self).capacity(),
            match received {
                Ok(slot) => old(self)@.len() > 0 && slot == old(self)@[0] && final(self)@
                    == old(self)@.drop_first(),
                Err(RecvError::Closed) => old(self)@.len() == 0 && final(self)@ == old(self)@,
            },
    {
        self.flume_recv()
    }

    /// Takes the oldest slot number, or tells an empty channel from one that is
    /// also revoked.
    pub fn try_recv(&mut self) -> (received: Result<u64, TryRecvError>)
        requires
            old(self).capacity() < usize::MAX,
        ensures
            final(self).is_open() == old(self).is_open(),
            final(self).capacity() == old(self).capacity(),
            match received {
                Ok(slot) => old(self)@.len() > 0 && slot == old(self)@[0] && final(self)@
                    == old(self)@.drop_first(),
                Err(e) => old(self)@.len() == 0 && final(self)@ == old(self)@ && (e is WouldBlock
                    <==> old(self).is_open()),
            },
    {
        self.flume_try_recv()
    }

    /// How many slot numbers are buffered.
    pub fn len(&self) -> (n: usize)
        ensures
            n == self@.len(),
    {
        self.flume_len()
    }

    /// Whether no slot number is buffered.
    pub fn is_empty(&self) -> (empty: bool)
        ensures
            empty == (self@.len() == 0),
    {
        self.flume_is_empty()
    }
}

} // verus!
