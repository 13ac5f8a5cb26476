use crate::error::QueueError;
use crate::message_type::MessageType;
use crate::receiver::Receiver;
use vstd::prelude::*;

verus! {

/// The receives that wait for the messages of one buffer. Each has a ticket.
#[verifier::ext_equal]
pub struct LineView<M> {
    /// The receives in line, in the order in which they came.
    pub waiting: Seq<u64>,
    /// The messages handed to receives that waited, until they are collected.
    pub handed: Seq<(u64, M)>,
    /// How many tickets have been given out.
    pub issued: nat,
}

/// One subscription of a broadcasting queue: what it has buffered, how many
/// receivers share it, and which of their calls wait.
#[verifier::ext_equal]
pub struct SubView<M> {
    pub buffer: Seq<M>,
    pub receivers: nat,
    pub receives: LineView<M>,
}

/// A work-sharing queue: what waits in its buffer, and the calls that wait. At
/// most one side waits: receivers while there is nothing to take, senders while
/// there is no room.
#[verifier::ext_equal]
pub struct WorkView<M> {
    /// The messages in the buffer, oldest first.
    pub buffer: Seq<M>,
    /// The receives that wait.
    pub receives: LineView<M>,
    /// The sends that wait, each with its ticket and its message, in the order
    /// in which they came.
    pub parked: Seq<(u64, M)>,
    /// How many tickets sends have been given.
    pub issued: nat,
}

/// What a queue holds, by kind.
#[verifier::ext_equal]
#[verifier::reject_recursive_types(M)]
pub enum BodyView<M> {
    /// Work-sharing: one buffer that all receivers drain.
    Work(WorkView<M>),
    /// Broadcasting: one buffer for each subscription. `copies(a, b)` says that
    /// `b` may be delivered as the copy of `a`. A subscription is known by its
    /// index; an index that is `None` is free.
    Broadcast { copies: spec_fn(M, M) -> bool, subs: Seq<Option<SubView<M>>> },
}

/// One queue. `capacity` bounds each of its buffers.
#[verifier::ext_equal]
#[verifier::reject_recursive_types(M)]
pub struct QueueView<M> {
    pub name: Seq<char>,
    pub open: bool,
    pub capacity: nat,
    pub body: BodyView<M>,
}

/// The last `n` messages of `s`, or all of them if there are fewer.
pub open spec fn newest<M>(s: Seq<M>, n: nat) -> Seq<M> {
    if s.len() <= n {
        s
    } else {
        s.skip(s.len() - n)
    }
}

/// How many messages a subscription has buffered.
pub open spec fn lag<M>(sub: Option<SubView<M>>) -> nat {
    match sub {
        Some(s) => s.buffer.len(),
        None => 0,
    }
}

/// The largest number of messages that any subscription has buffered.
pub open spec fn worst_lag<M>(subs: Seq<Option<SubView<M>>>) -> nat
    decreases subs.len(),
{
    if subs.len() == 0 {
        0
    } else if lag(subs.last()) > worst_lag(subs.drop_last()) {
        lag(subs.last())
    } else {
        worst_lag(subs.drop_last())
    }
}

/// How many receivers share a subscription once one more has joined. The count
/// stops at its largest value, and such a subscription is kept for ever.
pub open spec fn joined(receivers: nat) -> nat {
    if receivers < u64::MAX {
        receivers + 1
    } else {
        receivers
    }
}

/// How many receivers share a subscription once one of them has left.
pub open spec fn left(receivers: nat) -> nat {
    if 0 < receivers < u64::MAX {
        (receivers - 1) as nat
    } else {
        receivers
    }
}

/// `subs` with a subscription put at index `sub`, which is free or the next new
/// one.
pub open spec fn seated<M>(
    subs: Seq<Option<SubView<M>>>,
    sub: int,
    s: SubView<M>,
) -> Seq<Option<SubView<M>>> {
    if sub < subs.len() {
        subs.update(sub, Some(s))
    } else {
        subs.push(Some(s))
    }
}

/// The tickets of those who wait with something, in order.
pub open spec fn tickets<M>(places: Seq<(u64, M)>) -> Seq<u64> {
    places.map_values(|place: (u64, M)| place.0)
}

/// What they wait with, in order.
pub open spec fn messages<M>(places: Seq<(u64, M)>) -> Seq<M> {
    places.map_values(|place: (u64, M)| place.1)
}

/// Tickets in rising order, all of them given out.
pub open spec fn ranked(tickets: Seq<u64>, issued: nat) -> bool {
    &&& forall|i: int, j: int|
        0 <= i < j < tickets.len() ==> #[trigger] tickets[i] < #[trigger] tickets[j]
    &&& forall|i: int| 0 <= i < tickets.len() ==> (#[trigger] tickets[i]) < issued
}

/// Whether a ticket is there.
pub open spec fn holds<M>(places: Seq<(u64, M)>, ticket: u64) -> bool {
    exists|i: int| 0 <= i < places.len() && (#[trigger] places[i]).0 == ticket
}

/// The place of a ticket that is there.
pub open spec fn place_of<M>(places: Seq<(u64, M)>, ticket: u64) -> int {
    choose|i: int| 0 <= i < places.len() && (#[trigger] places[i]).0 == ticket
}

impl<M> LineView<M> {
    /// Nobody waits, and nobody ever did.
    pub open spec fn empty() -> LineView<M> {
        LineView { waiting: Seq::empty(), handed: Seq::empty(), issued: 0 }
    }

    /// No ticket is held twice.
    pub open spec fn wf(self) -> bool {
        &&& ranked(tickets(self.handed) + self.waiting, self.issued)
        &&& self.issued <= u64::MAX
    }

    /// The line with one more receive at its end.
    pub open spec fn joined_by(self, ticket: u64) -> LineView<M> {
        LineView { waiting: self.waiting.push(ticket), issued: self.issued + 1, ..self }
    }

    /// The line once a message was handed to its first receive.
    pub open spec fn served_with(self, msg: M) -> LineView<M> {
        LineView {
            waiting: self.waiting.drop_first(),
            handed: self.handed.push((self.waiting[0], msg)),
            ..self
        }
    }

    /// The line before and after a receive collected the message handed to it.
    pub open spec fn collected_by(self, ticket: u64, msg: M, after: LineView<M>) -> bool {
        &&& holds(self.handed, ticket)
        &&& msg == self.handed[place_of(self.handed, ticket)].1
        &&& after == LineView {
            handed: self.handed.remove(place_of(self.handed, ticket)),
            ..self
        }
    }

    /// The line once everyone in it was sent away.
    pub open spec fn ended(self) -> LineView<M> {
        LineView { waiting: Seq::empty(), ..self }
    }
}

impl<M> SubView<M> {
    /// A subscription that starts now, with one receiver.
    pub open spec fn new() -> SubView<M> {
        SubView { buffer: Seq::empty(), receivers: 1, receives: LineView::empty() }
    }

    /// Once a message was delivered: it goes to the receive that has waited
    /// longest, or else into the buffer, which keeps its newest `capacity`
    /// messages.
    pub open spec fn took_in(self, msg: M, capacity: nat) -> SubView<M> {
        if self.receives.waiting.len() > 0 {
            SubView { receives: self.receives.served_with(msg), ..self }
        } else {
            SubView { buffer: newest(self.buffer.push(msg), capacity), ..self }
        }
    }

    /// The buffer is within its bound, somebody receives, and receives wait only
    /// while there is nothing to take.
    pub open spec fn orderly(self, open: bool, capacity: nat) -> bool {
        &&& self.buffer.len() <= capacity
        &&& self.receivers >= 1
        &&& self.receives.wf()
        &&& self.receives.waiting.len() > 0 ==> open && self.buffer.len() == 0
    }
}

/// One subscription before and after a message was broadcast: a copy of it was
/// delivered.
pub open spec fn copied_to<M>(
    copies: spec_fn(M, M) -> bool,
    capacity: nat,
    msg: M,
    before: Option<SubView<M>>,
    after: Option<SubView<M>>,
) -> bool {
    match (before, after) {
        (None, None) => true,
        (Some(b), Some(a)) => exists|copy: M|
            #![trigger copies(msg, copy)]
            copies(msg, copy) && a == b.took_in(copy, capacity),
        _ => false,
    }
}

/// Copies that `Clone::clone` may make.
pub open spec fn clones<M: Clone>() -> spec_fn(M, M) -> bool {
    |a: M, b: M| cloned(a, b)
}

/// A subscription, shut down.
pub open spec fn shut_sub<M>(sub: Option<SubView<M>>) -> Option<SubView<M>> {
    match sub {
        Some(s) => Some(SubView { receives: s.receives.ended(), ..s }),
        None => None,
    }
}

/// A subscription, torn down: it is there only for the messages already handed
/// over.
pub open spec fn torn_down_sub<M>(sub: Option<SubView<M>>) -> Option<SubView<M>> {
    match sub {
        Some(s) => if s.receives.handed.len() > 0 {
            Some(SubView { buffer: Seq::empty(), receives: s.receives.ended(), ..s })
        } else {
            None
        },
        None => None,
    }
}

/// Whether a message waits to be collected from a subscription.
pub open spec fn owes<M>(sub: Option<SubView<M>>) -> bool {
    sub matches Some(s) && s.receives.handed.len() > 0
}

impl<M> WorkView<M> {
    /// Nothing in it, and nobody waits.
    pub open spec fn empty() -> WorkView<M> {
        WorkView {
            buffer: Seq::empty(),
            receives: LineView::empty(),
            parked: Seq::empty(),
            issued: 0,
        }
    }

    /// All that a receiver may take, oldest first: the buffer, and behind it
    /// the messages of the sends that wait.
    pub open spec fn line(self) -> Seq<M> {
        self.buffer + messages(self.parked)
    }

    /// Once `msg` was sent: it goes to the receive that has waited longest, or
    /// else into the buffer.
    pub open spec fn took_in(self, msg: M) -> WorkView<M> {
        if self.receives.waiting.len() > 0 {
            WorkView { receives: self.receives.served_with(msg), ..self }
        } else {
            WorkView { buffer: self.buffer.push(msg), ..self }
        }
    }

    /// Once the oldest message was taken: the send that has waited longest gets
    /// the room.
    pub open spec fn gave_out(self) -> WorkView<M> {
        if self.parked.len() > 0 {
            WorkView {
                buffer: self.buffer.push(self.parked[0].1).drop_first(),
                parked: self.parked.drop_first(),
                ..self
            }
        } else {
            WorkView { buffer: self.buffer.drop_first(), ..self }
        }
    }

    /// The buffer is within its bound, and calls wait only for a reason.
    pub open spec fn orderly(self, open: bool, capacity: nat) -> bool {
        &&& self.buffer.len() <= capacity
        &&& self.parked.len() > 0 ==> self.buffer.len() == capacity
        &&& self.receives.waiting.len() > 0 ==> open && self.buffer.len() == 0
            && self.parked.len() == 0
        &&& self.receives.wf()
        &&& ranked(tickets(self.parked), self.issued)
        &&& self.issued <= u64::MAX
    }
}

impl<M> QueueView<M> {
    /// An open work-sharing queue with nothing in it.
    pub open spec fn new_work(name: Seq<char>, capacity: nat) -> QueueView<M> {
        QueueView { name, open: true, capacity, body: BodyView::Work(WorkView::empty()) }
    }

    /// An open broadcasting queue without subscriptions. Its buffers hold at
    /// least one message.
    pub open spec fn new_broadcast(
        name: Seq<char>,
        capacity: nat,
        copies: spec_fn(M, M) -> bool,
    ) -> QueueView<M> {
        QueueView {
            name,
            open: true,
            capacity: if capacity == 0 {
                1
            } else {
                capacity
            },
            body: BodyView::Broadcast { copies, subs: Seq::empty() },
        }
    }

    /// The pending count: the buffered messages of a work-sharing queue, the
    /// worst lag of a broadcasting queue.
    pub open spec fn pending(self) -> nat {
        match self.body {
            BodyView::Work(work) => work.buffer.len(),
            BodyView::Broadcast { subs, .. } => worst_lag(subs),
        }
    }

    /// Every buffer is within the capacity, and calls wait only for a reason. A
    /// broadcasting queue has room for at least one message per subscription,
    /// and no subscription without a receiver.
    pub open spec fn bounded(self) -> bool {
        match self.body {
            BodyView::Work(work) => work.orderly(self.open, self.capacity),
            BodyView::Broadcast { subs, .. } => {
                &&& self.capacity >= 1
                &&& forall|i: int|
                    0 <= i < subs.len() ==> ((#[trigger] subs[i]) matches Some(sub)
                        ==> sub.orderly(self.open, self.capacity))
            },
        }
    }

    /// Whether the queue gives out receivers: while it is open, and a
    /// work-sharing queue also while it has messages to drain.
    pub open spec fn admits_receivers(self) -> bool {
        self.open || (self.body matches BodyView::Work(work) && work.buffer.len() > 0)
    }

    /// The queue, shut down. No receive waits any longer; a send that waits
    /// goes on waiting for room.
    pub open spec fn shut(self) -> QueueView<M> {
        QueueView {
            open: false,
            body: match self.body {
                BodyView::Work(work) => BodyView::Work(
                    WorkView { receives: work.receives.ended(), ..work },
                ),
                BodyView::Broadcast { copies, subs } => BodyView::Broadcast {
                    copies,
                    subs: subs.map_values(|sub: Option<SubView<M>>| shut_sub(sub)),
                },
            },
            ..self
        }
    }

    /// The queue, shut down and with nothing left in it but the messages already
    /// handed over to receives that waited.
    pub open spec fn torn_down(self) -> QueueView<M> {
        QueueView {
            open: false,
            body: match self.body {
                BodyView::Work(work) => BodyView::Work(
                    WorkView {
                        buffer: Seq::empty(),
                        receives: work.receives.ended(),
                        parked: Seq::empty(),
                        ..work
                    },
                ),
                BodyView::Broadcast { copies, subs } => BodyView::Broadcast {
                    copies,
                    subs: subs.map_values(|sub: Option<SubView<M>>| torn_down_sub(sub)),
                },
            },
            ..self
        }
    }

    /// The messages that nobody has consumed and that have one owner: those of
    /// a work-sharing queue, of the sends that wait too. Every subscriber of a
    /// broadcasting queue has copies of its own, so there are none.
    pub open spec fn unconsumed(self) -> Seq<M> {
        match self.body {
            BodyView::Work(work) => work.line(),
            BodyView::Broadcast { .. } => Seq::empty(),
        }
    }

    /// Whether a call that waited is still to be served: a message was handed
    /// to it and not collected, or its own message is not taken.
    pub open spec fn outstanding(self) -> bool {
        match self.body {
            BodyView::Work(work) => work.receives.handed.len() > 0 || work.parked.len() > 0,
            BodyView::Broadcast { subs, .. } => exists|i: int|
                0 <= i < subs.len() && owes(#[trigger] subs[i]),
        }
    }

    /// Whether a blocking send would have to wait. Only an open work-sharing
    /// queue that is full makes its senders wait, and only while no receive
    /// waits for their messages.
    pub open spec fn send_blocks(self) -> bool {
        self.open && (self.body matches BodyView::Work(work) && work.buffer.len() >= self.capacity
            && work.receives.waiting.len() == 0)
    }

    /// The queue before and after `msg` was sent into it: handed to a receive
    /// that waits or appended to the one buffer, or copied to every
    /// subscription.
    pub open spec fn delivers(self, msg: M, after: QueueView<M>) -> bool {
        match (self.body, after.body) {
            (BodyView::Work(work), _) => after == (QueueView {
                body: BodyView::Work(work.took_in(msg)),
                ..self
            }),
            (
                BodyView::Broadcast { copies, subs },
                BodyView::Broadcast { copies: copies_after, subs: subs_after },
            ) => {
                &&& after == QueueView { body: after.body, ..self }
                &&& copies_after == copies
                &&& subs_after.len() == subs.len()
                &&& forall|i: int|
                    0 <= i < subs.len() ==> copied_to(
                        copies,
                        self.capacity,
                        msg,
                        subs[i],
                        #[trigger] subs_after[i],
                    )
            },
            _ => false,
        }
    }

    /// What a receiver drains: the one line of a work-sharing queue, or the
    /// buffer of the receiver's own subscription.
    pub open spec fn buffer_of(self, sub: Option<int>) -> Option<Seq<M>> {
        match (self.body, sub) {
            (BodyView::Work(work), None) => Some(work.line()),
            (BodyView::Broadcast { subs, .. }, Some(i)) => if 0 <= i < subs.len()
                && subs[i] is Some {
                Some(subs[i]->0.buffer)
            } else {
                None
            },
            _ => None,
        }
    }

    /// Whether a blocking receive would have to wait: nothing is buffered, and
    /// something may still come.
    pub open spec fn recv_blocks(self, sub: Option<int>) -> bool {
        self.open && (self.buffer_of(sub) matches Some(buffer) && buffer.len() == 0)
    }

    /// Whether nothing is buffered for a receiver and nothing will ever come.
    pub open spec fn exhausted(self, sub: Option<int>) -> bool {
        match self.buffer_of(sub) {
            Some(buffer) => !self.open && buffer.len() == 0,
            None => true,
        }
    }

    /// The queue before and after a receiver took `msg`: the oldest message of
    /// what the receiver drains, which is then gone from it.
    pub open spec fn hands_out(self, sub: Option<int>, msg: M, after: QueueView<M>) -> bool {
        self.buffer_of(sub) matches Some(buffer) && buffer.len() > 0 && msg == buffer[0] && after
            == self.taken(sub)
    }

    /// The queue once a receiver has taken the oldest message.
    pub open spec fn taken(self, sub: Option<int>) -> QueueView<M> {
        match (self.body, sub) {
            (BodyView::Work(work), None) => QueueView {
                body: BodyView::Work(work.gave_out()),
                ..self
            },
            (BodyView::Broadcast { copies, subs }, Some(i)) => QueueView {
                body: BodyView::Broadcast {
                    copies,
                    subs: subs.update(
                        i,
                        Some(
                            SubView { buffer: subs[i]->0.buffer.drop_first(), ..subs[i]->0 },
                        ),
                    ),
                },
                ..self
            },
            _ => self,
        }
    }

    /// The queue before and after a send that has to wait got in line.
    pub open spec fn parks(self, ticket: u64, msg: M, after: QueueView<M>) -> bool {
        self.body matches BodyView::Work(work) && ticket == work.issued && after == (QueueView {
            body: BodyView::Work(
                WorkView {
                    parked: work.parked.push((ticket, msg)),
                    issued: work.issued + 1,
                    ..work
                },
            ),
            ..self
        })
    }

    /// Whether a send is still in line.
    pub open spec fn send_waits(self, ticket: u64) -> bool {
        self.body matches BodyView::Work(work) && holds(work.parked, ticket)
    }

    /// The queue before and after a send gave up waiting and took its message
    /// back.
    pub open spec fn unparks(self, ticket: u64, msg: M, after: QueueView<M>) -> bool {
        self.body matches BodyView::Work(work) && holds(work.parked, ticket)
            && work.parked[place_of(work.parked, ticket)].1 == msg && after == (QueueView {
            body: BodyView::Work(
                WorkView { parked: work.parked.remove(place_of(work.parked, ticket)), ..work },
            ),
            ..self
        })
    }

    /// The receives that wait for the same messages as a receiver's.
    pub open spec fn line_of(self, sub: Option<int>) -> Option<LineView<M>> {
        match (self.body, sub) {
            (BodyView::Work(work), None) => Some(work.receives),
            (BodyView::Broadcast { subs, .. }, Some(i)) => if 0 <= i < subs.len()
                && subs[i] is Some {
                Some(subs[i]->0.receives)
            } else {
                None
            },
            _ => None,
        }
    }

    /// The queue with another line of receives.
    pub open spec fn with_line(self, sub: Option<int>, line: LineView<M>) -> QueueView<M> {
        match (self.body, sub) {
            (BodyView::Work(work), None) => QueueView {
                body: BodyView::Work(WorkView { receives: line, ..work }),
                ..self
            },
            (BodyView::Broadcast { copies, subs }, Some(i)) => QueueView {
                body: BodyView::Broadcast {
                    copies,
                    subs: subs.update(i, Some(SubView { receives: line, ..subs[i]->0 })),
                },
                ..self
            },
            _ => self,
        }
    }

    /// The queue before and after a receive that has to wait got in line.
    pub open spec fn queues_up(self, sub: Option<int>, ticket: u64, after: QueueView<M>) -> bool {
        self.line_of(sub) matches Some(line) && ticket == line.issued && after == self.with_line(
            sub,
            line.joined_by(ticket),
        )
    }

    /// Whether a receive is still in line.
    pub open spec fn recv_waits(self, sub: Option<int>, ticket: u64) -> bool {
        self.line_of(sub) matches Some(line) && line.waiting.contains(ticket)
    }

    /// Whether a message was handed to a receive that waited.
    pub open spec fn served(self, sub: Option<int>, ticket: u64) -> bool {
        self.line_of(sub) matches Some(line) && holds(line.handed, ticket)
    }

    /// The queue before and after a receive that waited collected its message.
    pub open spec fn collects(
        self,
        sub: Option<int>,
        ticket: u64,
        msg: M,
        after: QueueView<M>,
    ) -> bool {
        &&& self.line_of(sub) matches Some(line)
        &&& after.line_of(sub) matches Some(line_after)
        &&& line.collected_by(ticket, msg, line_after)
        &&& after == self.with_line(sub, line_after)
    }

    /// Whether index `sub` can take a new subscription.
    pub open spec fn has_seat(self, sub: int) -> bool {
        self.body matches BodyView::Broadcast { subs, .. } && (sub == subs.len() || (0 <= sub
            < subs.len() && subs[sub] is None))
    }

    /// The queue with a new, empty subscription at index `sub`.
    pub open spec fn subscribed(self, sub: int) -> QueueView<M> {
        match self.body {
            BodyView::Broadcast { copies, subs } => QueueView {
                body: BodyView::Broadcast {
                    copies,
                    subs: seated(subs, sub, SubView::new()),
                },
                ..self
            },
            _ => self,
        }
    }

    /// The queue once one more receiver shares subscription `sub`.
    pub open spec fn joined(self, sub: int) -> QueueView<M> {
        match self.body {
            BodyView::Broadcast { copies, subs } => if 0 <= sub < subs.len() && subs[sub] is Some {
                QueueView {
                    body: BodyView::Broadcast {
                        copies,
                        subs: subs.update(
                            sub,
                            Some(
                                SubView { receivers: joined(subs[sub]->0.receivers), ..subs[sub]->0
                                },
                            ),
                        ),
                    },
                    ..self
                }
            } else {
                self
            },
            _ => self,
        }
    }

    /// The queue once a receiver of subscription `sub` is gone. With the last
    /// one goes the subscription.
    pub open spec fn parted(self, sub: int) -> QueueView<M> {
        match self.body {
            BodyView::Broadcast { copies, subs } => if 0 <= sub < subs.len() && subs[sub] is Some {
                let receivers = left(subs[sub]->0.receivers);
                QueueView {
                    body: BodyView::Broadcast {
                        copies,
                        subs: subs.update(
                            sub,
                            if receivers == 0 {
                                None
                            } else {
                                Some(SubView { receivers, ..subs[sub]->0 })
                            },
                        ),
                    },
                    ..self
                }
            } else {
                self
            },
            _ => self,
        }
    }
}

/// One registered queue and the type of message that it carries.
#[verifier::ext_equal]
#[verifier::reject_recursive_types(M)]
pub struct EntryView<M> {
    pub queue: QueueView<M>,
    pub ty: MessageType,
}

/// A registry: which slot each name stands for, and what is in each slot. A slot
/// that is `None` held a queue that has been retired; slots are not used again.
#[verifier::ext_equal]
#[verifier::reject_recursive_types(M)]
pub struct RegistryView<M> {
    pub names: Map<Seq<char>, usize>,
    pub slots: Seq<Option<EntryView<M>>>,
}

impl<M> RegistryView<M> {
    /// A registry without queues.
    pub open spec fn empty() -> RegistryView<M> {
        RegistryView { names: Map::empty(), slots: Seq::empty() }
    }

    /// Every name stands for a queue of that name, and every queue is found
    /// under its name, unless it is shut down and only serves the calls that
    /// waited.
    pub open spec fn wf(self) -> bool {
        &&& forall|name: Seq<char>| #[trigger]
            self.names.contains_key(name) ==> self.names[name] < self.slots.len() && (
            self.slots[self.names[name] as int] matches Some(entry) && entry.queue.name == name)
        &&& forall|slot: int|
            0 <= slot < self.slots.len() ==> ((#[trigger] self.slots[slot]) matches Some(entry)
                ==> self.registered(slot, entry.queue.name) || !entry.queue.open)
    }

    /// Whether a name stands for a slot.
    pub open spec fn registered(self, slot: int, name: Seq<char>) -> bool {
        self.names.contains_key(name) && self.names[name] == slot
    }

    /// The entry registered under a name.
    pub open spec fn find(self, name: Seq<char>) -> Option<EntryView<M>> {
        if self.names.contains_key(name) {
            self.slots[self.names[name] as int]
        } else {
            None
        }
    }

    /// The queue in a slot.
    pub open spec fn at(self, slot: int) -> Option<QueueView<M>> {
        if 0 <= slot < self.slots.len() {
            match self.slots[slot] {
                Some(entry) => Some(entry.queue),
                None => None,
            }
        } else {
            None
        }
    }

    /// The registry with one more queue, in a new slot.
    pub open spec fn with_new(self, queue: QueueView<M>, ty: MessageType) -> RegistryView<M> {
        RegistryView {
            names: self.names.insert(queue.name, self.slots.len() as usize),
            slots: self.slots.push(Some(EntryView { queue, ty })),
        }
    }

    /// The registry with another queue in a slot that is in use.
    pub open spec fn with_queue(self, slot: int, queue: QueueView<M>) -> RegistryView<M> {
        RegistryView {
            slots: self.slots.update(slot, Some(EntryView { queue, ..self.slots[slot]->0 })),
            ..self
        }
    }

    /// The registry once the queue in a slot is retired as `queue`: its name is
    /// free, and its slot is empty unless a call that waited is still to be
    /// served.
    pub open spec fn retired(self, slot: int, queue: QueueView<M>) -> RegistryView<M> {
        RegistryView {
            names: if self.registered(slot, queue.name) {
                self.names.remove(queue.name)
            } else {
                self.names
            },
            slots: self.slots.update(
                slot,
                if queue.outstanding() {
                    Some(EntryView { queue, ..self.slots[slot]->0 })
                } else {
                    None
                },
            ),
        }
    }

    /// The registry once the queue in a slot is torn down and retired.
    pub open spec fn without(self, slot: int) -> RegistryView<M> {
        match self.at(slot) {
            Some(queue) => self.retired(slot, queue.torn_down()),
            None => self,
        }
    }

    /// The registry once the queue in a slot is retired, if it is shut down and
    /// drained.
    pub open spec fn settled(self, slot: int) -> RegistryView<M> {
        match self.at(slot) {
            Some(queue) => if !queue.open && queue.pending() == 0 {
                self.retired(slot, queue)
            } else {
                self
            },
            None => self,
        }
    }

    /// The registry once the slot of a retired queue is empty, if nobody is
    /// still to be served there.
    pub open spec fn swept(self, slot: int) -> RegistryView<M> {
        match self.at(slot) {
            Some(queue) => if !self.registered(slot, queue.name) && queue.pending() == 0
                && !queue.outstanding() {
                RegistryView { slots: self.slots.update(slot, None), ..self }
            } else {
                self
            },
            None => self,
        }
    }

    /// Whether a blocking send to the queue in a slot would have to wait.
    pub open spec fn send_blocks(self, slot: int) -> bool {
        self.at(slot) matches Some(queue) && queue.send_blocks()
    }

    /// Whether the queue in a slot accepts messages.
    pub open spec fn accepts(self, slot: int) -> bool {
        self.at(slot) matches Some(queue) && queue.open
    }

    /// The registry before and after `msg` was sent to the queue in a slot.
    pub open spec fn delivers(self, slot: int, msg: M, after: RegistryView<M>) -> bool {
        &&& self.at(slot) matches Some(queue)
        &&& after.at(slot) matches Some(queue_after)
        &&& queue.delivers(msg, queue_after)
        &&& after == self.with_queue(slot, queue_after)
    }

    /// Whether a blocking receive would have to wait.
    pub open spec fn recv_blocks(self, slot: int, sub: Option<int>) -> bool {
        self.at(slot) matches Some(queue) && queue.recv_blocks(sub)
    }

    /// Whether nothing is buffered for a receiver and nothing will ever come.
    pub open spec fn exhausted(self, slot: int, sub: Option<int>) -> bool {
        match self.at(slot) {
            Some(queue) => queue.exhausted(sub),
            None => true,
        }
    }

    /// The registry before and after a receiver took `msg`.
    pub open spec fn hands_out(
        self,
        slot: int,
        sub: Option<int>,
        msg: M,
        after: RegistryView<M>,
    ) -> bool {
        &&& self.at(slot) matches Some(queue)
        &&& after.at(slot) matches Some(queue_after)
        &&& queue.hands_out(sub, msg, queue_after)
        &&& after == self.with_queue(slot, queue_after)
    }

    /// The registry before and after a send to the queue in a slot got in line.
    pub open spec fn parks(self, slot: int, ticket: u64, msg: M, after: RegistryView<M>) -> bool {
        &&& self.at(slot) matches Some(queue)
        &&& after.at(slot) matches Some(queue_after)
        &&& queue.parks(ticket, msg, queue_after)
        &&& after == self.with_queue(slot, queue_after)
    }

    /// Whether a send to the queue in a slot is still in line.
    pub open spec fn send_waits(self, slot: int, ticket: u64) -> bool {
        self.at(slot) matches Some(queue) && queue.send_waits(ticket)
    }

    /// The registry before and after a send gave up waiting.
    pub open spec fn unparks(
        self,
        slot: int,
        ticket: u64,
        msg: M,
        after: RegistryView<M>,
    ) -> bool {
        &&& self.at(slot) matches Some(queue)
        &&& exists|queue_after: QueueView<M>| #[trigger]
            queue.unparks(ticket, msg, queue_after) && after == self.with_queue(
                slot,
                queue_after,
            ).swept(slot)
    }

    /// The registry before and after a receive got in line.
    pub open spec fn queues_up(
        self,
        slot: int,
        sub: Option<int>,
        ticket: u64,
        after: RegistryView<M>,
    ) -> bool {
        &&& self.at(slot) matches Some(queue)
        &&& after.at(slot) matches Some(queue_after)
        &&& queue.queues_up(sub, ticket, queue_after)
        &&& after == self.with_queue(slot, queue_after)
    }

    /// Whether a receive from the queue in a slot is still in line.
    pub open spec fn recv_waits(self, slot: int, sub: Option<int>, ticket: u64) -> bool {
        self.at(slot) matches Some(queue) && queue.recv_waits(sub, ticket)
    }

    /// Whether a message was handed to a receive that waited.
    pub open spec fn served(self, slot: int, sub: Option<int>, ticket: u64) -> bool {
        self.at(slot) matches Some(queue) && queue.served(sub, ticket)
    }

    /// The registry before and after a receive that waited collected its
    /// message. A queue that is retired is gone with the last of them.
    pub open spec fn collects(
        self,
        slot: int,
        sub: Option<int>,
        ticket: u64,
        msg: M,
        after: RegistryView<M>,
    ) -> bool {
        &&& self.at(slot) matches Some(queue)
        &&& exists|queue_after: QueueView<M>| #[trigger]
            queue.collects(sub, ticket, msg, queue_after) && after == self.with_queue(
                slot,
                queue_after,
            ).swept(slot)
    }

    /// The registry once a receiver has been cloned.
    pub open spec fn joined(self, slot: int, sub: Option<int>) -> RegistryView<M> {
        match (self.at(slot), sub) {
            (Some(queue), Some(i)) => self.with_queue(slot, queue.joined(i)),
            _ => self,
        }
    }

    /// The registry once a receiver has been dropped. The last receiver takes
    /// its subscription along. A queue that is shut down and drained is then
    /// retired, except that receivers which share a subscription leave this to
    /// the last of them.
    pub open spec fn parted(self, slot: int, sub: Option<int>) -> RegistryView<M> {
        match (self.at(slot), sub) {
            (Some(queue), Some(i)) => {
                let after = self.with_queue(slot, queue.parted(i));
                if queue.parted(i).buffer_of(sub) is None {
                    after.settled(slot)
                } else {
                    after
                }
            },
            _ => self.settled(slot),
        }
    }
}

impl<M> QueueView<M> {
    /// What a queue may become: name, capacity and kind are fixed, once shut
    /// down it stays shut down, and a work-sharing queue gives no ticket out
    /// twice.
    pub open spec fn becomes(self, after: QueueView<M>) -> bool {
        &&& after.name == self.name
        &&& after.capacity == self.capacity
        &&& after.open ==> self.open
        &&& match (self.body, after.body) {
            (BodyView::Work(work), BodyView::Work(work_after)) => work_after.issued
                >= work.issued && work_after.receives.issued >= work.receives.issued,
            (
                BodyView::Broadcast { copies, .. },
                BodyView::Broadcast { copies: copies_after, .. },
            ) => copies_after == copies,
            _ => false,
        }
    }
}

impl<M> RegistryView<M> {
    /// What a registry may become: an empty slot stays empty, a queue keeps its
    /// slot and its type until it is retired and changes only as a queue may,
    /// and what is new has a new slot.
    pub open spec fn evolves(self, after: RegistryView<M>) -> bool {
        &&& self.slots.len() <= after.slots.len()
        &&& forall|slot: int|
            0 <= slot < self.slots.len() ==> match (
                self.slots[slot],
                #[trigger] after.slots[slot],
            ) {
                (_, None) => true,
                (Some(entry), Some(entry_after)) => entry_after.ty == entry.ty
                    && entry.queue.becomes(entry_after.queue),
                (None, Some(_)) => false,
            }
    }
}

/// One thing that happens to a work-sharing queue.
pub enum WorkStep<M> {
    /// A message was sent.
    Sent(M),
    /// A message was received.
    Received(M),
    /// A send got in line with its message.
    Parked(u64, M),
    /// A send gave up waiting and took its message back.
    Unparked(u64, M),
    /// A receive got in line.
    QueuedUp(u64),
    /// A receive that waited collected the message handed to it.
    Collected(u64, M),
    /// The queue was shut down.
    Shut,
    /// Nothing changed.
    Idle,
}

impl<M> WorkStep<M> {
    /// The queue before and after the step.
    pub open spec fn takes(self, before: QueueView<M>, after: QueueView<M>) -> bool {
        match self {
            WorkStep::Sent(msg) => before.open && !before.send_blocks() && before.delivers(
                msg,
                after,
            ),
            WorkStep::Received(msg) => before.hands_out(None, msg, after),
            WorkStep::Parked(ticket, msg) => before.send_blocks() && before.parks(
                ticket,
                msg,
                after,
            ),
            WorkStep::Unparked(ticket, msg) => before.unparks(ticket, msg, after),
            WorkStep::QueuedUp(ticket) => before.recv_blocks(None) && before.queues_up(
                None,
                ticket,
                after,
            ),
            WorkStep::Collected(ticket, msg) => before.collects(None, ticket, msg, after),
            WorkStep::Shut => after == before.shut(),
            WorkStep::Idle => after == before,
        }
    }
}

/// The messages that the steps brought, in order, by a send that went through
/// or by one that waits.
pub open spec fn sent<M>(steps: Seq<WorkStep<M>>) -> Seq<M>
    decreases steps.len(),
{
    if steps.len() == 0 {
        Seq::empty()
    } else {
        match steps.last() {
            WorkStep::Sent(msg) => sent(steps.drop_last()).push(msg),
            WorkStep::Parked(_, msg) => sent(steps.drop_last()).push(msg),
            _ => sent(steps.drop_last()),
        }
    }
}

/// What there was at the start and what the steps brought, in order, without
/// what was taken back by a send that gave up.
pub open spec fn posted<M>(states: Seq<QueueView<M>>, steps: Seq<WorkStep<M>>) -> Seq<M>
    decreases steps.len(),
{
    if steps.len() == 0 {
        states[0].unconsumed()
    } else {
        let before = posted(states.drop_last(), steps.drop_last());
        match steps.last() {
            WorkStep::Sent(msg) => before.push(msg),
            WorkStep::Parked(_, msg) => before.push(msg),
            WorkStep::Unparked(ticket, _) => {
                let parked = states[steps.len() - 1].body->Work_0.parked;
                before.remove(before.len() - parked.len() + place_of(parked, ticket))
            },
            _ => before,
        }
    }
}

/// The messages that receivers got, in order: each when it was taken, or when it
/// was handed to a receive that waited.
pub open spec fn given_out<M>(states: Seq<QueueView<M>>, steps: Seq<WorkStep<M>>) -> Seq<M>
    decreases steps.len(),
{
    if steps.len() == 0 {
        Seq::empty()
    } else {
        let before = given_out(states.drop_last(), steps.drop_last());
        match steps.last() {
            WorkStep::Received(msg) => before.push(msg),
            WorkStep::Sent(msg) => if states[steps.len() - 1].line_of(None)->0.waiting.len() > 0 {
                before.push(msg)
            } else {
                before
            },
            _ => before,
        }
    }
}

/// `states` is a work-sharing queue's history under `steps`: each step leads
/// from one state to the next.
pub open spec fn work_history<M>(states: Seq<QueueView<M>>, steps: Seq<WorkStep<M>>) -> bool {
    &&& states.len() == steps.len() + 1
    &&& forall|i: int|
        0 <= i < states.len() ==> (#[trigger] states[i]).body is Work && states[i].bounded()
    &&& forall|i: int|
        0 <= i < steps.len() ==> (#[trigger] steps[i]).takes(states[i], states[i + 1])
}

/// One thing that happens to a broadcasting queue.
pub enum BroadcastStep<M> {
    /// A message was sent.
    Sent(M),
    /// A receiver of a subscription took a message.
    Received(int, M),
    /// A subscription was added.
    Subscribed(int),
    /// A receive of a subscription got in line.
    QueuedUp(int, u64),
    /// A receive that waited collected the message handed to it.
    Collected(int, u64, M),
    /// One more receiver shares a subscription.
    Joined(int),
    /// A receiver of a subscription is gone.
    Parted(int),
    /// The queue was shut down.
    Shut,
    /// Nothing changed.
    Idle,
}

impl<M> BroadcastStep<M> {
    /// The queue before and after the step.
    pub open spec fn takes(self, before: QueueView<M>, after: QueueView<M>) -> bool {
        match self {
            BroadcastStep::Sent(msg) => before.open && before.delivers(msg, after),
            BroadcastStep::Received(sub, msg) => before.hands_out(Some(sub), msg, after),
            BroadcastStep::Subscribed(sub) => before.has_seat(sub) && after == before.subscribed(
                sub,
            ),
            BroadcastStep::QueuedUp(sub, ticket) => before.recv_blocks(Some(sub))
                && before.queues_up(Some(sub), ticket, after),
            BroadcastStep::Collected(sub, ticket, msg) => before.collects(
                Some(sub),
                ticket,
                msg,
                after,
            ),
            BroadcastStep::Joined(sub) => after == before.joined(sub),
            BroadcastStep::Parted(sub) => after == before.parted(sub),
            BroadcastStep::Shut => after == before.shut(),
            BroadcastStep::Idle => after == before,
        }
    }
}

/// The messages that the steps broadcast, in order.
pub open spec fn broadcast_sent<M>(steps: Seq<BroadcastStep<M>>) -> Seq<M>
    decreases steps.len(),
{
    if steps.len() == 0 {
        Seq::empty()
    } else {
        match steps.last() {
            BroadcastStep::Sent(msg) => broadcast_sent(steps.drop_last()).push(msg),
            _ => broadcast_sent(steps.drop_last()),
        }
    }
}

/// The messages that the receivers of one subscription got, in order: each when
/// it was taken, or when it was handed to a receive that waited.
pub open spec fn given_to<M>(
    states: Seq<QueueView<M>>,
    steps: Seq<BroadcastStep<M>>,
    sub: int,
) -> Seq<M>
    decreases steps.len(),
{
    if steps.len() == 0 {
        Seq::empty()
    } else {
        let before = given_to(states.drop_last(), steps.drop_last(), sub);
        match steps.last() {
            BroadcastStep::Received(i, msg) => if i == sub {
                before.push(msg)
            } else {
                before
            },
            BroadcastStep::Sent(_) => if states[steps.len() - 1].line_of(
                Some(sub),
            )->0.waiting.len() > 0 {
                before.push(states[steps.len() as int].line_of(Some(sub))->0.handed.last().1)
            } else {
                before
            },
            _ => before,
        }
    }
}

/// `states` is a broadcasting queue's history under `steps`, in all of which
/// `sub` is subscribed.
pub open spec fn broadcast_history<M>(
    states: Seq<QueueView<M>>,
    steps: Seq<BroadcastStep<M>>,
    sub: int,
) -> bool {
    &&& states.len() == steps.len() + 1
    &&& forall|i: int|
        0 <= i < states.len() ==> (#[trigger] states[i]).buffer_of(Some(sub)) is Some
            && states[i].bounded()
    &&& forall|i: int|
        0 <= i < steps.len() ==> (#[trigger] steps[i]).takes(states[i], states[i + 1])
}

/// Whether `sub` has room in its buffer, or a receive that waits, whenever a
/// message is sent.
pub open spec fn keeps_up<M>(
    states: Seq<QueueView<M>>,
    steps: Seq<BroadcastStep<M>>,
    sub: int,
) -> bool {
    forall|i: int|
        0 <= i < steps.len() && (#[trigger] steps[i]) is Sent ==> states[i].buffer_of(
            Some(sub),
        )->0.len() < states[i].capacity || states[i].line_of(Some(sub))->0.waiting.len() > 0
}

/// `made` are copies of `msgs`, one for one.
pub open spec fn copies_of<M>(copies: spec_fn(M, M) -> bool, msgs: Seq<M>, made: Seq<M>) -> bool {
    &&& made.len() == msgs.len()
    &&& forall|i: int| 0 <= i < msgs.len() ==> copies(msgs[i], #[trigger] made[i])
}

/// `picked` are positions of `stream` in rising order, all before `end`, and
/// `got` are the messages there.
pub open spec fn picked_from<M>(
    stream: Seq<M>,
    end: int,
    picked: Seq<int>,
    got: Seq<M>,
) -> bool {
    &&& got.len() == picked.len()
    &&& forall|i: int|
        0 <= i < picked.len() ==> 0 <= #[trigger] picked[i] < end && got[i] == stream[picked[i]]
    &&& forall|i: int, j: int|
        0 <= i < j < picked.len() ==> #[trigger] picked[i] < #[trigger] picked[j]
}

/// A subscriber follows a stream: its buffer is the end of the stream, within
/// the capacity, and what its receivers got was picked from what came before.
/// With nothing got, the buffer is the newest `capacity` messages.
pub open spec fn follows<M>(
    capacity: nat,
    stream: Seq<M>,
    buffer: Seq<M>,
    got: Seq<M>,
    picked: Seq<int>,
) -> bool {
    &&& buffer.len() <= capacity
    &&& buffer.len() <= stream.len()
    &&& buffer == stream.skip(stream.len() - buffer.len())
    &&& picked_from(stream, stream.len() - buffer.len(), picked, got)
    &&& got.len() == 0 ==> buffer == newest(stream, capacity)
}

/// One thing that happens to a registry.
#[verifier::reject_recursive_types(M)]
pub enum RegistryStep<M> {
    /// A queue was registered under a name that was free.
    Created(QueueView<M>, MessageType),
    /// A message was sent to the queue in a slot.
    Sent(int, M),
    /// A receiver took a message from the queue in a slot.
    Received(int, Option<int>, M),
    /// A send to the queue in a slot got in line with its message.
    Parked(int, u64, M),
    /// A send to the queue in a slot gave up waiting.
    Unparked(int, u64, M),
    /// A receive from the queue in a slot got in line.
    QueuedUp(int, Option<int>, u64),
    /// A receive that waited collected the message handed to it.
    Collected(int, Option<int>, u64, M),
    /// A subscription was added to the queue in a slot.
    Subscribed(int, int),
    /// A receiver was cloned.
    Joined(int, Option<int>),
    /// A receiver was dropped.
    Parted(int, Option<int>),
    /// The queue in a slot was shut down, and retired if it was drained.
    Shut(int),
    /// The queue in a slot was retired if it was shut down and drained.
    Settled(int),
    /// The queue in a slot was destroyed.
    Destroyed(int),
}

impl<M> RegistryStep<M> {
    /// The registry before and after the step.
    pub open spec fn takes(self, before: RegistryView<M>, after: RegistryView<M>) -> bool {
        match self {
            RegistryStep::Created(queue, ty) => !before.names.contains_key(queue.name) && after
                == before.with_new(queue, ty),
            RegistryStep::Sent(slot, msg) => before.accepts(slot) && !before.send_blocks(slot)
                && before.delivers(slot, msg, after),
            RegistryStep::Received(slot, sub, msg) => before.hands_out(slot, sub, msg, after),
            RegistryStep::Parked(slot, ticket, msg) => before.send_blocks(slot) && before.parks(
                slot,
                ticket,
                msg,
                after,
            ),
            RegistryStep::Unparked(slot, ticket, msg) => before.unparks(slot, ticket, msg, after),
            RegistryStep::QueuedUp(slot, sub, ticket) => before.recv_blocks(slot, sub)
                && before.queues_up(slot, sub, ticket, after),
            RegistryStep::Collected(slot, sub, ticket, msg) => before.collects(
                slot,
                sub,
                ticket,
                msg,
                after,
            ),
            RegistryStep::Subscribed(slot, sub) => before.at(slot) matches Some(queue)
                && queue.has_seat(sub) && after == before.with_queue(slot, queue.subscribed(sub)),
            RegistryStep::Joined(slot, sub) => after == before.joined(slot, sub),
            RegistryStep::Parted(slot, sub) => after == before.parted(slot, sub),
            RegistryStep::Shut(slot) => before.at(slot) matches Some(queue) && after
                == before.with_queue(slot, queue.shut()).settled(slot),
            RegistryStep::Settled(slot) => after == before.settled(slot),
            RegistryStep::Destroyed(slot) => after == before.without(slot),
        }
    }
}

impl<M> RegistryStep<M> {
    /// What the step is to the work-sharing queue in a slot.
    pub open spec fn at_work(self, slot: int) -> WorkStep<M> {
        match self {
            RegistryStep::Sent(s, msg) if s == slot => WorkStep::Sent(msg),
            RegistryStep::Received(s, _, msg) if s == slot => WorkStep::Received(msg),
            RegistryStep::Parked(s, ticket, msg) if s == slot => WorkStep::Parked(ticket, msg),
            RegistryStep::Unparked(s, ticket, msg) if s == slot => WorkStep::Unparked(ticket, msg),
            RegistryStep::QueuedUp(s, _, ticket) if s == slot => WorkStep::QueuedUp(ticket),
            RegistryStep::Collected(s, _, ticket, msg) if s == slot => WorkStep::Collected(
                ticket,
                msg,
            ),
            RegistryStep::Shut(s) if s == slot => WorkStep::Shut,
            _ => WorkStep::Idle,
        }
    }

    /// What the step is to the broadcasting queue in a slot.
    pub open spec fn at_broadcast(self, slot: int) -> BroadcastStep<M> {
        match self {
            RegistryStep::Sent(s, msg) if s == slot => BroadcastStep::Sent(msg),
            RegistryStep::Received(s, Some(sub), msg) if s == slot => BroadcastStep::Received(
                sub,
                msg,
            ),
            RegistryStep::Subscribed(s, sub) if s == slot => BroadcastStep::Subscribed(sub),
            RegistryStep::QueuedUp(s, Some(sub), ticket) if s == slot => BroadcastStep::QueuedUp(
                sub,
                ticket,
            ),
            RegistryStep::Collected(s, Some(sub), ticket, msg) if s
                == slot => BroadcastStep::Collected(sub, ticket, msg),
            RegistryStep::Joined(s, Some(sub)) if s == slot => BroadcastStep::Joined(sub),
            RegistryStep::Parted(s, Some(sub)) if s == slot => BroadcastStep::Parted(sub),
            RegistryStep::Shut(s) if s == slot => BroadcastStep::Shut,
            _ => BroadcastStep::Idle,
        }
    }
}

/// The queue in a slot, over a registry's history.
pub open spec fn queues_at<M>(states: Seq<RegistryView<M>>, slot: int) -> Seq<QueueView<M>> {
    Seq::new(states.len(), |i: int| states[i].at(slot)->0)
}

/// What the steps are to the work-sharing queue in a slot.
pub open spec fn work_at<M>(steps: Seq<RegistryStep<M>>, slot: int) -> Seq<WorkStep<M>> {
    Seq::new(steps.len(), |i: int| steps[i].at_work(slot))
}

/// What the steps are to the broadcasting queue in a slot.
pub open spec fn broadcasts_at<M>(steps: Seq<RegistryStep<M>>, slot: int) -> Seq<BroadcastStep<M>> {
    Seq::new(steps.len(), |i: int| steps[i].at_broadcast(slot))
}

/// `states` is a registry's history under `steps`.
pub open spec fn registry_history<M>(
    states: Seq<RegistryView<M>>,
    steps: Seq<RegistryStep<M>>,
) -> bool {
    &&& states.len() == steps.len() + 1
    &&& forall|i: int|
        0 <= i < steps.len() ==> (#[trigger] steps[i]).takes(states[i], states[i + 1])
}

/// A receiver was admitted to a queue: it drains the one buffer of a
/// work-sharing queue, and on a broadcasting queue a fresh subscription of its
/// own.
pub open spec fn admitted<M>(
    before: RegistryView<M>,
    queue: QueueView<M>,
    rx: Receiver,
    after: RegistryView<M>,
) -> bool {
    queue.admits_receivers() && match queue.body {
        BodyView::Work(_) => rx.sub() is None && after == before,
        BodyView::Broadcast { .. } => rx.sub() matches Some(sub) && queue.has_seat(sub) && after
            == before.with_queue(rx.slot(), queue.subscribed(sub)),
    }
}

/// A name leads to no queue, or to one of another type.
pub open spec fn refused<M>(
    registry: RegistryView<M>,
    name: Seq<char>,
    ty: MessageType,
    e: QueueError,
) -> bool {
    match registry.find(name) {
        None => e matches QueueError::NoSuchQueue(n) && n@ == name,
        Some(entry) => entry.ty.id() != ty.id() && (e matches QueueError::TypeMismatch {
            name: n,
            expected,
            actual,
        } && n@ == name && expected == ty.label() && actual == entry.ty.label()),
    }
}

} // verus!
