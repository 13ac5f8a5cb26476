use crate::buffer::Buffer;
use crate::error::{RecvError, TryRecvError, TrySendError};
use crate::model;
use crate::model::{BodyView, QueueView, SubView};
use crate::wait_line::WaitLine;
use vstd::prelude::*;

verus! {

/// How often a broadcast tries to get a message into one full buffer.
const ATTEMPTS: u32 = 8;

/// A way to make copies of a message, picked where `M: Clone` is known, so that
/// the handle types need no such bound.
pub trait Copier<M>: Send + Sync {
    /// Whether `b` may come out as a copy of `a`.
    spec fn copies(&self, a: M, b: M) -> bool;

    /// Makes a copy.
    fn copy_of(&self, msg: &M) -> (copy: M)
        ensures
            self.copies(*msg, copy),
    ;
}

/// Copies by `Clone::clone`.
pub struct ByClone;

impl<M: Clone> Copier<M> for ByClone {
    open spec fn copies(&self, a: M, b: M) -> bool {
        cloned(a, b)
    }

    fn copy_of(&self, msg: &M) -> (copy: M) {
        msg.clone()
    }
}

/// One subscriber's private buffer.
pub struct Subscription<M> {
    buffer: Buffer<M>,
    receivers: u64,
    receives: WaitLine<M>,
}

impl<M> Subscription<M> {
    spec fn view(self) -> SubView<M> {
        SubView {
            buffer: self.buffer@,
            receivers: self.receivers as nat,
            receives: self.receives@,
        }
    }

    spec fn wf(self, open: bool, capacity: nat) -> bool {
        &&& self.buffer.wf()
        &&& self.buffer.is_open() == open
        &&& self.buffer.capacity() == capacity
        &&& self@.orderly(open, capacity)
    }

    /// Hands a message to a receive that waits, or else appends it; a full
    /// buffer loses its oldest message to make room.
    fn offer(&mut self, msg: M)
        requires
            old(self).wf(true, old(self).buffer.capacity()),
            old(self).buffer.capacity() > 0,
        ensures
            final(self).wf(true, old(self).buffer.capacity()),
            final(self)@ == old(self)@.took_in(msg, old(self).buffer.capacity()),
    {
        if !self.receives.is_idle() {
            self.receives.serve(msg);
            return ;
        }
        let ghost capacity = self.buffer.capacity();
        let mut m = msg;
        let mut attempt: u32 = 0;
        while attempt < ATTEMPTS
            invariant
                0 <= attempt < ATTEMPTS,
                capacity == old(self).buffer.capacity(),
                capacity > 0,
                old(self).wf(true, capacity),
                self.wf(true, capacity),
                self.receivers == old(self).receivers,
                self.receives == old(self).receives,
                self.receives@.waiting.len() == 0,
                m == msg,
                attempt == 0 ==> self.buffer@ == old(self).buffer@,
                attempt > 0 ==> old(self).buffer@.len() == capacity && self.buffer@
                    == old(self).buffer@.drop_first(),
            decreases ATTEMPTS - attempt,
        {
            match self.buffer.try_send(m) {
                Ok(()) => {
                    assert(self.buffer@ =~= model::newest(old(self).buffer@.push(msg), capacity));
                    return ;
                },
                Err(TrySendError::WouldBlock(back)) => {
                    let _ = self.buffer.try_recv();
                    m = back;
                },
                Err(TrySendError::Closed(_)) => {
                    return ;
                },
            }
            attempt = attempt + 1;
        }
    }
}

/// The state of one broadcasting queue. Every subscriber owns a bounded buffer
/// created empty at subscribe time, so it sees only messages sent from then on.
/// Delivery is lossy per subscriber: a full buffer loses its oldest message to
/// make room, and senders never block.
#[verifier::reject_recursive_types(M)]
pub struct BroadcastCore<M> {
    name: String,
    /// Per-subscriber buffer capacity (at least 1).
    capacity: usize,
    copier: Box<dyn Copier<M>>,
    open: bool,
    /// A subscription is known by its index. An index is free again once the
    /// last receiver that knows it is gone.
    subs: Vec<Option<Subscription<M>>>,
}

spec fn sub_view<M>(sub: Option<Subscription<M>>) -> Option<SubView<M>> {
    match sub {
        Some(s) => Some(s@),
        None => None,
    }
}

/// Shutting subscriptions down takes no message away.
pub proof fn lemma_shut_lag<M>(subs: Seq<Option<SubView<M>>>)
    ensures
        model::worst_lag(subs.map_values(|sub: Option<SubView<M>>| model::shut_sub(sub)))
            == model::worst_lag(subs),
    decreases subs.len(),
{
    let shut = subs.map_values(|sub: Option<SubView<M>>| model::shut_sub(sub));
    if subs.len() > 0 {
        lemma_shut_lag(subs.drop_last());
        assert(shut.drop_last() =~= subs.drop_last().map_values(
            |sub: Option<SubView<M>>| model::shut_sub(sub),
        ));
    }
}

impl<M> BroadcastCore<M> {
    spec fn sub_views(self) -> Seq<Option<SubView<M>>> {
        self.subs@.map_values(|sub: Option<Subscription<M>>| sub_view(sub))
    }

    /// The queue that this state represents.
    pub closed spec fn view(self) -> QueueView<M> {
        QueueView {
            name: self.name@,
            open: self.open,
            capacity: self.capacity as nat,
            body: BodyView::Broadcast {
                copies: |a: M, b: M| self.copier.copies(a, b),
                subs: self.sub_views(),
            },
        }
    }

    /// Every buffer is sound, within the common bound, and open as long as the
    /// queue is; every subscription has a receiver.
    pub closed spec fn wf(self) -> bool {
        &&& 0 < self.capacity < usize::MAX
        &&& forall|i: int|
            0 <= i < self.subs@.len() ==> ((#[trigger] self.subs@[i]) matches Some(sub) ==> sub.wf(
                self.open,
                self.capacity as nat,
            ))
    }

    /// A sound queue keeps within its bounds.
    pub proof fn lemma_bounded(&self)
        requires
            self.wf(),
        ensures
            self@.bounded(),
    {
        let subs = self.sub_views();
        assert forall|i: int| 0 <= i < subs.len() implies ((#[trigger] subs[i]) matches Some(sub)
            ==> sub.orderly(self.open, self.capacity as nat)) by {
            assert(subs[i] == sub_view(self.subs@[i]));
        }
    }

    /// An open queue without subscribers, for messages that can be cloned.
    pub fn new(name: &str, capacity: usize) -> (core: BroadcastCore<M>) where M: Clone
        requires
            capacity < usize::MAX,
        ensures
            core.wf(),
            core@ == QueueView::<M>::new_broadcast(
                name@,
                capacity as nat,
                model::clones(),
            ),
    {
        let core = BroadcastCore {
            name: name.to_string(),
            capacity: if capacity == 0 {
                1
            } else {
                capacity
            },
            copier: Box::new(ByClone),
            open: true,
            subs: Vec::new(),
        };
        proof {
            assert forall|a: M, b: M| #[trigger] core.copier.copies(a, b) == cloned(a, b) by {
                assert(Copier::<M>::copies(&ByClone, a, b) == cloned(a, b));
            }
            assert(core.sub_views() =~= Seq::<Option<SubView<M>>>::empty());
            assert((|a: M, b: M| core.copier.copies(a, b)) =~= model::clones());
        }
        core
    }

    /// The name of the queue.
    pub fn name(&self) -> (name: &str)
        ensures
            name@ == self@.name,
    {
        self.name.as_str()
    }

    /// Whether the queue has been shut down.
    pub fn is_shutdown(&self) -> (shut: bool)
        ensures
            shut == !self@.open,
    {
        !self.open
    }

    /// Deliver a copy of `msg` to every live subscriber. A full subscriber
    /// loses its oldest buffered message. A queue that is shut down keeps its
    /// buffers as they are. Never blocks.
    pub fn broadcast(&mut self, msg: &M)
        requires
            old(self).wf(),
        ensures
            final(self).wf(),
            old(self)@.open ==> old(self)@.delivers(*msg, final(self)@),
            !old(self)@.open ==> final(self)@ == old(self)@,
    {
        if !self.open {
            return ;
        }
        let ghost copies = self@.body->copies;
        let n = self.subs.len();
        let mut i: usize = 0;
        while i < n
            invariant
                i <= n == self.subs@.len() == old(self).subs@.len(),
                old(self).wf(),
                old(self).open,
                self.wf(),
                self.name == old(self).name,
                self.capacity == old(self).capacity,
                self.copier == old(self).copier,
                self.open == old(self).open,
                copies == (|a: M, b: M| self.copier.copies(a, b)),
                forall|j: int| i <= j < n ==> self.subs@[j] == old(self).subs@[j],
                forall|j: int|
                    0 <= j < i ==> model::copied_to(
                        copies,
                        self.capacity as nat,
                        *msg,
                        sub_view(old(self).subs@[j]),
                        #[trigger] sub_view(self.subs@[j]),
                    ),
            decreases n - i,
        {
            if let Some(sub) = &mut self.subs[i] {
                let copy = self.copier.copy_of(msg);
                assert(copies(*msg, copy));
                sub.offer(copy);
            }
            i = i + 1;
        }
    }

    /// The first free index, or the next new one.
    fn free_seat(&self) -> (sub: usize)
        ensures
            self@.has_seat(sub as int),
    {
        let n = self.subs.len();
        let mut i: usize = 0;
        while i < n
            invariant
                i <= n == self.subs@.len(),
            decreases n - i,
        {
            if self.subs[i].is_none() {
                return i;
            }
            i = i + 1;
        }
        n
    }

    /// Register a new subscriber with an empty buffer, and return its index.
    pub fn subscribe(&mut self) -> (sub: usize)
        requires
            old(self).wf(),
            old(self)@.open,
        ensures
            final(self).wf(),
            old(self)@.has_seat(sub as int),
            final(self)@ == old(self)@.subscribed(sub as int),
    {
        let sub = self.free_seat();
        let seat = Some(
            Subscription {
                buffer: Buffer::bounded(self.capacity),
                receivers: 1,
                receives: WaitLine::new(),
            },
        );
        if sub < self.subs.len() {
            self.subs[sub] = seat;
        } else {
            self.subs.push(seat);
        }
        proof {
            let empty = SubView::<M>::new();
            assert(seat->0@ == empty);
            assert(self.sub_views() =~= model::seated(old(self).sub_views(), sub as int, empty));
        }
        sub
    }

    /// Count one more receiver of a subscription.
    pub fn join(&mut self, sub: usize)
        requires
            old(self).wf(),
        ensures
            final(self).wf(),
            final(self)@ == old(self)@.joined(sub as int),
    {
        if sub < self.subs.len() {
            if let Some(s) = &mut self.subs[sub] {
                if s.receivers < u64::MAX {
                    s.receivers = s.receivers + 1;
                }
            }
        }
        proof {
            if sub < self.subs@.len() {
                assert(self.sub_views() =~= old(self).sub_views().update(
                    sub as int,
                    self.sub_views()[sub as int],
                ));
            }
        }
    }

    /// Count one receiver of a subscription less; with the last one the
    /// subscription is retired. Returns `true` when there is no such
    /// subscription any more.
    pub fn unsubscribe(&mut self, sub: usize) -> (gone: bool)
        requires
            old(self).wf(),
        ensures
            final(self).wf(),
            final(self)@ == old(self)@.parted(sub as int),
            gone == (final(self)@.buffer_of(Some(sub as int)) is None),
    {
        if sub < self.subs.len() {
            let mut last = false;
            if let Some(s) = &mut self.subs[sub] {
                if s.receivers < u64::MAX {
                    s.receivers = s.receivers - 1;
                    last = s.receivers == 0;
                }
            }
            if last {
                self.subs[sub] = None;
            }
        }
        proof {
            if sub < self.subs@.len() {
                assert(self.sub_views() =~= old(self).sub_views().update(
                    sub as int,
                    self.sub_views()[sub as int],
                ));
            }
        }
        sub >= self.subs.len() || self.subs[sub].is_none()
    }

    /// The worst subscriber lag: the largest buffered count.
    pub fn pending(&self) -> (pending: usize)
        ensures
            pending == self@.pending(),
    {
        let n = self.subs.len();
        let mut most: usize = 0;
        let mut i: usize = 0;
        while i < n
            invariant
                i <= n == self.subs@.len(),
                most == model::worst_lag(self.sub_views().take(i as int)),
            decreases n - i,
        {
            let count = match &self.subs[i] {
                Some(sub) => sub.buffer.len(),
                None => 0,
            };
            if count > most {
                most = count;
            }
            proof {
                let seen = self.sub_views().take(i + 1);
                assert(seen.drop_last() =~= self.sub_views().take(i as int));
                assert(seen.last() == sub_view(self.subs@[i as int]));
                assert(count == model::lag(seen.last()));
            }
            i = i + 1;
        }
        assert(self.sub_views().take(n as int) =~= self.sub_views());
        most
    }

    /// Refuse further sends and close every subscription. Returns `true` when
    /// every subscription is already drained.
    pub fn shutdown(&mut self) -> (drained: bool)
        requires
            old(self).wf(),
        ensures
            final(self).wf(),
            final(self)@ == old(self)@.shut(),
            final(self)@.pending() == old(self)@.pending(),
            drained == (old(self)@.pending() == 0),
    {
        let n = self.subs.len();
        let mut i: usize = 0;
        while i < n
            invariant
                i <= n == self.subs@.len() == old(self).subs@.len(),
                old(self).wf(),
                self.name == old(self).name,
                self.capacity == old(self).capacity,
                self.copier == old(self).copier,
                self.open == old(self).open,
                forall|j: int| i <= j < n ==> self.subs@[j] == old(self).subs@[j],
                forall|j: int|
                    0 <= j < i ==> sub_view(#[trigger] self.subs@[j]) == model::shut_sub(
                        sub_view(old(self).subs@[j]),
                    ) && (self.subs@[j] matches Some(sub) ==> sub.wf(false, self.capacity as nat)),
            decreases n - i,
        {
            if let Some(sub) = &mut self.subs[i] {
                sub.buffer.close();
                sub.receives.end();
            }
            i = i + 1;
        }
        self.open = false;
        proof {
            assert(self.sub_views() =~= old(self).sub_views().map_values(
                |sub: Option<SubView<M>>| model::shut_sub(sub),
            ));
            lemma_shut_lag(old(self).sub_views());
        }
        self.pending() == 0
    }

    /// Tear the queue down: refuse further sends and discard what is buffered.
    /// A subscription stays only where a message was handed over and waits to be
    /// collected.
    pub fn destroy(&mut self)
        requires
            old(self).wf(),
        ensures
            final(self).wf(),
            final(self)@ == old(self)@.torn_down(),
    {
        let n = self.subs.len();
        let mut i: usize = 0;
        while i < n
            invariant
                i <= n == self.subs@.len() == old(self).subs@.len(),
                old(self).wf(),
                self.name == old(self).name,
                self.capacity == old(self).capacity,
                self.copier == old(self).copier,
                self.open == old(self).open,
                forall|j: int| i <= j < n ==> self.subs@[j] == old(self).subs@[j],
                forall|j: int|
                    0 <= j < i ==> sub_view(#[trigger] self.subs@[j]) == model::torn_down_sub(
                        sub_view(old(self).subs@[j]),
                    ) && (self.subs@[j] matches Some(sub) ==> sub.wf(false, self.capacity as nat)),
            decreases n - i,
        {
            let mut keep = false;
            if let Some(sub) = &mut self.subs[i] {
                sub.buffer.close();
                sub.buffer.clear();
                sub.receives.end();
                keep = sub.receives.has_handed();
            }
            if !keep {
                self.subs[i] = None;
            }
            i = i + 1;
        }
        self.open = false;
        assert(self.sub_views() =~= old(self).sub_views().map_values(
            |sub: Option<SubView<M>>| model::torn_down_sub(sub),
        ));
    }

    /// Whether a receive that waited is still to collect its message.
    pub fn outstanding(&self) -> (outstanding: bool)
        ensures
            outstanding == self@.outstanding(),
    {
        let n = self.subs.len();
        let mut i: usize = 0;
        while i < n
            invariant
                i <= n == self.subs@.len(),
                forall|j: int| 0 <= j < i ==> !model::owes(#[trigger] self.sub_views()[j]),
            decreases n - i,
        {
            let owes = match &self.subs[i] {
                Some(sub) => sub.receives.has_handed(),
                None => false,
            };
            assert(owes == model::owes(self.sub_views()[i as int]));
            if owes {
                assert(model::owes(self@.body->subs[i as int]));
                return true;
            }
            i = i + 1;
        }
        false
    }

    /// Put a receive of a subscriber that has to wait in line, while there are
    /// tickets.
    pub fn queue_up(&mut self, sub: usize) -> (ticket: Option<u64>)
        requires
            old(self).wf(),
            old(self)@.recv_blocks(Some(sub as int)),
        ensures
            final(self).wf(),
            match ticket {
                Some(t) => old(self)@.queues_up(Some(sub as int), t, final(self)@),
                None => final(self)@ == old(self)@ && old(self)@.line_of(
                    Some(sub as int),
                )->0.issued == u64::MAX,
            },
    {
        let ticket = match &mut self.subs[sub] {
            Some(s) => s.receives.queue_up(),
            None => None,
        };
        assert(self.sub_views() =~= old(self).sub_views().update(
            sub as int,
            self.sub_views()[sub as int],
        ));
        ticket
    }

    /// Whether a receive of a subscriber is still in line.
    pub fn recv_waits(&self, sub: usize, ticket: u64) -> (waits: bool)
        ensures
            waits == self@.recv_waits(Some(sub as int), ticket),
    {
        if sub >= self.subs.len() {
            return false;
        }
        match &self.subs[sub] {
            Some(s) => s.receives.waits(ticket),
            None => false,
        }
    }

    /// Collect the message that was handed to a receive that waited.
    pub fn collect(&mut self, sub: usize, ticket: u64) -> (collected: Option<M>)
        requires
            old(self).wf(),
        ensures
            final(self).wf(),
            match collected {
                Some(msg) => old(self)@.collects(Some(sub as int), ticket, msg, final(self)@),
                None => !old(self)@.served(Some(sub as int), ticket) && final(self)@
                    == old(self)@,
            },
    {
        if sub >= self.subs.len() {
            return None;
        }
        let collected = match &mut self.subs[sub] {
            Some(s) => s.receives.collect(ticket),
            None => None,
        };
        assert(self.sub_views() =~= old(self).sub_views().update(
            sub as int,
            self.sub_views()[sub as int],
        ));
        collected
    }

    /// Whether a blocking receive by a subscriber would have to wait.
    pub fn recv_blocks(&self, sub: usize) -> (blocks: bool)
        requires
            self.wf(),
        ensures
            blocks == self@.recv_blocks(Some(sub as int)),
    {
        if sub < self.subs.len() {
            match &self.subs[sub] {
                Some(s) => self.open && s.buffer.is_empty(),
                None => false,
            }
        } else {
            false
        }
    }

    /// Take a subscriber's oldest message, where there is one or none will ever
    /// come.
    pub fn recv(&mut self, sub: usize) -> (received: Result<M, RecvError>)
        requires
            old(self).wf(),
            !old(self)@.recv_blocks(Some(sub as int)),
        ensures
            final(self).wf(),
            match received {
                Ok(msg) => old(self)@.hands_out(Some(sub as int), msg, final(self)@),
                Err(RecvError::Closed) => old(self)@.exhausted(Some(sub as int)) && final(self)@
                    == old(self)@,
            },
    {
        if sub >= self.subs.len() {
            return Err(RecvError::Closed);
        }
        let received = match &mut self.subs[sub] {
            Some(s) => s.buffer.recv(),
            None => Err(RecvError::Closed),
        };
        assert(self.sub_views() =~= old(self).sub_views().update(
            sub as int,
            self.sub_views()[sub as int],
        ));
        received
    }

    /// Take a subscriber's oldest message if there is one.
    pub fn try_recv(&mut self, sub: usize) -> (received: Result<M, TryRecvError>)
        requires
            old(self).wf(),
        ensures
            final(self).wf(),
            match received {
                Ok(msg) => old(self)@.hands_out(Some(sub as int), msg, final(self)@),
                Err(TryRecvError::WouldBlock) => old(self)@.recv_blocks(Some(sub as int))
                    && final(self)@ == old(self)@,
                Err(TryRecvError::Closed) => old(self)@.exhausted(Some(sub as int)) && final(self)@
                    == old(self)@,
            },
    {
        if sub >= self.subs.len() {
            return Err(TryRecvError::Closed);
        }
        let received = match &mut self.subs[sub] {
            Some(s) => s.buffer.try_recv(),
            None => Err(TryRecvError::Closed),
        };
        assert(self.sub_views() =~= old(self).sub_views().update(
            sub as int,
            self.sub_views()[sub as int],
        ));
        received
    }
}

} // verus!
