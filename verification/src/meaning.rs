//! What every operation does, told by the messages, names and tickets that are
//! there before and after it.

use crate::error::{BusError, QueueError, TryRecvError, TrySendError};
use crate::message_type::MessageType;
use crate::model;
use crate::model::{BodyView, QueueView, RegistryView, SubView};
use crate::receiver::Receiver;
use vstd::prelude::*;

verus! {

// ---------------------------------------------------------------------------
// New queues
// ---------------------------------------------------------------------------
/// A new work-sharing queue has the name and the capacity that were asked for,
/// is open, and holds nothing.
pub proof fn law_new_queue_has_the_capacity<M>(name: Seq<char>, capacity: nat)
    ensures
        ({
            let queue = QueueView::<M>::new_work(name, capacity);
            &&& queue.name == name
            &&& queue.open
            &&& queue.capacity == capacity
            &&& queue.body matches BodyView::Work(work)
            &&& work.buffer.len() == 0
            &&& work.parked.len() == 0
            &&& work.issued == 0
            &&& work.receives.waiting.len() == 0
            &&& work.receives.handed.len() == 0
            &&& work.receives.issued == 0
        }),
{
}

/// A new work-sharing queue takes exactly as many messages as its capacity says
/// before a send has to wait, and keeps them in the order in which they came.
pub proof fn law_capacity_is_the_room<M>(
    states: Seq<QueueView<M>>,
    msgs: Seq<M>,
    name: Seq<char>,
    capacity: nat,
)
    requires
        states.len() == msgs.len() + 1,
        states[0] == QueueView::<M>::new_work(name, capacity),
        forall|i: int| 0 <= i < msgs.len() ==> !(#[trigger] states[i]).send_blocks(),
        forall|i: int|
            0 <= i < msgs.len() ==> states[i].delivers(#[trigger] msgs[i], states[i + 1]),
    ensures
        msgs.len() <= capacity,
        states.last().open,
        states.last().send_blocks() <==> msgs.len() == capacity,
        states.last().pending() == msgs.len(),
        states.last().body matches BodyView::Work(work) && work.buffer == msgs,
{
    law_new_queue_has_the_capacity::<M>(name, capacity);
    lemma_filling(states, msgs, name, capacity);
}

proof fn lemma_filling<M>(
    states: Seq<QueueView<M>>,
    msgs: Seq<M>,
    name: Seq<char>,
    capacity: nat,
)
    requires
        states.len() == msgs.len() + 1,
        states[0] == QueueView::<M>::new_work(name, capacity),
        forall|i: int| 0 <= i < msgs.len() ==> !(#[trigger] states[i]).send_blocks(),
        forall|i: int|
            0 <= i < msgs.len() ==> states[i].delivers(#[trigger] msgs[i], states[i + 1]),
    ensures
        msgs.len() <= capacity,
        states.last().open,
        states.last().capacity == capacity,
        states.last().body matches BodyView::Work(work) && work.buffer == msgs
            && work.receives.waiting.len() == 0,
    decreases msgs.len(),
{
    if msgs.len() == 0 {
        assert(states[0].body->Work_0.buffer =~= msgs);
    } else {
        let n = msgs.len() - 1;
        let before = states.drop_last();
        let earlier = msgs.drop_last();
        assert forall|i: int| 0 <= i < earlier.len() implies before[i].delivers(
            #[trigger] earlier[i],
            before[i + 1],
        ) by {
            assert(states[i].delivers(msgs[i], states[i + 1]));
        }
        assert forall|i: int| 0 <= i < earlier.len() implies !(
        #[trigger] before[i]).send_blocks() by {
            assert(!states[i].send_blocks());
        }
        assert(!states[n].send_blocks());
        lemma_filling(before, earlier, name, capacity);
        assert(states[n].delivers(msgs[n], states[n + 1]));
        law_send_to_a_work_queue(states[n], states[n + 1], msgs[n]);
        assert(states[n + 1].body->Work_0.buffer =~= msgs);
    }
}

/// A new broadcasting queue has the name that was asked for and room for as many
/// messages per subscription as its capacity says, at least one. It is open and
/// has no subscriptions.
pub proof fn law_new_broadcast_has_the_capacity<M>(
    name: Seq<char>,
    capacity: nat,
    copies: spec_fn(M, M) -> bool,
)
    ensures
        ({
            let queue = QueueView::<M>::new_broadcast(name, capacity, copies);
            &&& queue.name == name
            &&& queue.open
            &&& capacity >= 1 ==> queue.capacity == capacity
            &&& capacity == 0 ==> queue.capacity == 1
            &&& queue.body is Broadcast
            &&& queue.body->copies == copies
            &&& queue.body->subs.len() == 0
        }),
{
}

/// The copies of a queue that was created for messages that can be cloned are
/// their clones.
pub proof fn law_copies_are_clones<M: Clone>(a: M, b: M)
    ensures
        model::clones::<M>()(a, b) <==> cloned(a, b),
{
}

// ---------------------------------------------------------------------------
// Sending
// ---------------------------------------------------------------------------
/// A send has to wait on an open work-sharing queue without room and without a
/// receive that waits, and nowhere else.
pub proof fn law_send_waits_for_room_only<M>(queue: QueueView<M>)
    ensures
        !queue.open ==> !queue.send_blocks(),
        queue.body is Broadcast ==> !queue.send_blocks(),
        queue.body matches BodyView::Work(work) ==> {
            &&& work.buffer.len() < queue.capacity ==> !queue.send_blocks()
            &&& work.receives.waiting.len() > 0 ==> !queue.send_blocks()
            &&& queue.open && work.buffer.len() >= queue.capacity && work.receives.waiting.len()
                == 0 ==> queue.send_blocks()
        },
{
}

/// A message that is sent to a work-sharing queue is added to it once, and
/// nothing else changes. It goes to the end of the buffer, or to the receive that
/// has waited longest.
pub proof fn law_send_to_a_work_queue<M>(queue: QueueView<M>, after: QueueView<M>, msg: M)
    requires
        queue.body is Work,
        queue.delivers(msg, after),
    ensures
        after.name == queue.name,
        after.open == queue.open,
        after.capacity == queue.capacity,
        after.body is Work,
        ({
            let work = queue.body->Work_0;
            let next = after.body->Work_0;
            &&& next.parked == work.parked
            &&& next.issued == work.issued
            &&& next.receives.issued == work.receives.issued
            &&& work.receives.waiting.len() == 0 ==> {
                &&& next.receives == work.receives
                &&& next.buffer.len() == work.buffer.len() + 1
                &&& next.buffer[work.buffer.len() as int] == msg
                &&& forall|k: int|
                    0 <= k < work.buffer.len() ==> #[trigger] next.buffer[k] == work.buffer[k]
            }
            &&& work.receives.waiting.len() > 0 ==> {
                &&& next.buffer == work.buffer
                &&& next.receives.waiting.len() == work.receives.waiting.len() - 1
                &&& forall|k: int|
                    0 <= k < next.receives.waiting.len() ==> #[trigger] next.receives.waiting[k]
                        == work.receives.waiting[k + 1]
                &&& next.receives.handed.len() == work.receives.handed.len() + 1
                &&& next.receives.handed[work.receives.handed.len() as int] == (
                    work.receives.waiting[0],
                    msg,
                )
                &&& forall|k: int|
                    0 <= k < work.receives.handed.len() ==> #[trigger] next.receives.handed[k]
                        == work.receives.handed[k]
                &&& next.receives.issued == work.receives.issued
            }
        }),
{
}

/// A broadcast message reaches every subscription once, as a copy of it, and
/// changes nothing else. Where a receive waits, the one that has waited longest
/// gets the copy. Otherwise the copy is the last message of the buffer, and before
/// it stand the messages that were there: all of them if there was room, all but
/// the oldest if the buffer was full.
pub proof fn law_broadcast_reaches_every_subscription<M>(
    queue: QueueView<M>,
    after: QueueView<M>,
    msg: M,
    sub: int,
) -> (copy: M)
    requires
        queue.body is Broadcast,
        queue.capacity >= 1,
        queue.delivers(msg, after),
        0 <= sub < queue.body->subs.len(),
        queue.body->subs[sub] matches Some(s) ==> s.buffer.len() <= queue.capacity,
    ensures
        after.name == queue.name,
        after.open == queue.open,
        after.capacity == queue.capacity,
        after.body is Broadcast,
        after.body->copies == queue.body->copies,
        after.body->subs.len() == queue.body->subs.len(),
        after.body->subs[sub] is Some <==> queue.body->subs[sub] is Some,
        queue.body->subs[sub] is Some ==> (queue.body->copies)(msg, copy),
        queue.body->subs[sub] matches Some(seat) ==> {
            let next = after.body->subs[sub]->0;
            &&& next.receivers == seat.receivers
            &&& seat.receives.waiting.len() == 0 ==> {
                &&& next.receives == seat.receives
                &&& next.buffer.len() > 0
                &&& next.buffer[next.buffer.len() - 1] == copy
                &&& seat.buffer.len() < queue.capacity ==> {
                    &&& next.buffer.len() == seat.buffer.len() + 1
                    &&& forall|k: int|
                        0 <= k < seat.buffer.len() ==> #[trigger] next.buffer[k] == seat.buffer[k]
                }
                &&& seat.buffer.len() == queue.capacity ==> {
                    &&& next.buffer.len() == queue.capacity
                    &&& forall|k: int|
                        0 <= k < queue.capacity - 1 ==> #[trigger] next.buffer[k]
                            == seat.buffer[k + 1]
                }
            }
            &&& seat.receives.waiting.len() > 0 ==> {
                &&& next.buffer == seat.buffer
                &&& next.receives.waiting.len() == seat.receives.waiting.len() - 1
                &&& forall|k: int|
                    0 <= k < next.receives.waiting.len() ==> #[trigger] next.receives.waiting[k]
                        == seat.receives.waiting[k + 1]
                &&& next.receives.handed.len() == seat.receives.handed.len() + 1
                &&& next.receives.handed[seat.receives.handed.len() as int] == (
                    seat.receives.waiting[0],
                    copy,
                )
                &&& forall|k: int|
                    0 <= k < seat.receives.handed.len() ==> #[trigger] next.receives.handed[k]
                        == seat.receives.handed[k]
                &&& next.receives.issued == seat.receives.issued
            }
        },
{
    let copies = queue.body->copies;
    let seat = queue.body->subs[sub];
    let next = after.body->subs[sub];
    assert(model::copied_to(copies, queue.capacity, msg, seat, next));
    if seat is Some {
        choose|copy: M|
            #![trigger copies(msg, copy)]
            copies(msg, copy) && next->0 == seat->0.took_in(copy, queue.capacity)
    } else {
        msg
    }
}

/// The newest messages are at the end of a sequence: as many as were asked for,
/// or all if there are fewer.
pub proof fn law_newest_is_the_end<M>(s: Seq<M>, n: nat)
    ensures
        s.len() <= n ==> model::newest(s, n).len() == s.len(),
        s.len() > n ==> model::newest(s, n).len() == n,
        forall|k: int|
            0 <= k < model::newest(s, n).len() ==> #[trigger] model::newest(s, n)[k] == s[s.len()
                - model::newest(s, n).len() + k],
{
}

/// A subscriber that takes nothing while messages are sent has a copy of each of
/// the newest of them, as many as the capacity says, and of all if there are no
/// more than that.
pub proof fn law_stalled_subscriber_has_the_freshest<M>(
    states: Seq<QueueView<M>>,
    msgs: Seq<M>,
    sub: int,
)
    requires
        states.len() == msgs.len() + 1,
        states[0].body is Broadcast,
        states[0].capacity >= 1,
        0 <= sub < states[0].body->subs.len(),
        states[0].body->subs[sub] matches Some(seat) && seat.buffer.len() == 0
            && seat.receives.waiting.len() == 0,
        forall|i: int|
            0 <= i < msgs.len() ==> states[i].delivers(#[trigger] msgs[i], states[i + 1]),
    ensures
        states.last().body is Broadcast,
        states.last().body->subs.len() == states[0].body->subs.len(),
        states.last().body->subs[sub] is Some,
        ({
            let buffer = states.last().body->subs[sub]->0.buffer;
            let copies = states[0].body->copies;
            &&& msgs.len() <= states[0].capacity ==> buffer.len() == msgs.len()
            &&& msgs.len() > states[0].capacity ==> buffer.len() == states[0].capacity
            &&& forall|k: int|
                0 <= k < buffer.len() ==> copies(
                    msgs[msgs.len() - buffer.len() + k],
                    #[trigger] buffer[k],
                )
        }),
{
    lemma_stalled(states, msgs, sub);
}

proof fn lemma_stalled<M>(states: Seq<QueueView<M>>, msgs: Seq<M>, sub: int)
    requires
        states.len() == msgs.len() + 1,
        states[0].body is Broadcast,
        states[0].capacity >= 1,
        0 <= sub < states[0].body->subs.len(),
        states[0].body->subs[sub] matches Some(seat) && seat.buffer.len() == 0
            && seat.receives.waiting.len() == 0,
        forall|i: int|
            0 <= i < msgs.len() ==> states[i].delivers(#[trigger] msgs[i], states[i + 1]),
    ensures
        states.last().body is Broadcast,
        states.last().capacity == states[0].capacity,
        states.last().body->copies == states[0].body->copies,
        states.last().body->subs.len() == states[0].body->subs.len(),
        states.last().body->subs[sub] matches Some(seat) && seat.receives.waiting.len() == 0,
        ({
            let buffer = states.last().body->subs[sub]->0.buffer;
            let copies = states[0].body->copies;
            &&& msgs.len() <= states[0].capacity ==> buffer.len() == msgs.len()
            &&& msgs.len() > states[0].capacity ==> buffer.len() == states[0].capacity
            &&& forall|k: int|
                0 <= k < buffer.len() ==> copies(
                    msgs[msgs.len() - buffer.len() + k],
                    #[trigger] buffer[k],
                )
        }),
    decreases msgs.len(),
{
    if msgs.len() > 0 {
        let n = msgs.len() - 1;
        let before = states.drop_last();
        let earlier = msgs.drop_last();
        assert forall|i: int| 0 <= i < earlier.len() implies before[i].delivers(
            #[trigger] earlier[i],
            before[i + 1],
        ) by {
            assert(states[i].delivers(msgs[i], states[i + 1]));
        }
        lemma_stalled(before, earlier, sub);
        assert(states[n].delivers(msgs[n], states[n + 1]));
        let _ = law_broadcast_reaches_every_subscription(states[n], states[n + 1], msgs[n], sub);
        let held = states[n].body->subs[sub]->0.buffer;
        let buffer = states[n + 1].body->subs[sub]->0.buffer;
        let copies = states[0].body->copies;
        assert forall|k: int| 0 <= k < buffer.len() implies copies(
            msgs[msgs.len() - buffer.len() + k],
            #[trigger] buffer[k],
        ) by {
            if k < buffer.len() - 1 {
                let j = if held.len() < states[0].capacity {
                    k
                } else {
                    k + 1
                };
                assert(buffer[k] == held[j]);
                assert(copies(earlier[earlier.len() - held.len() + j], held[j]));
            }
        }
    }
}

/// In a sound queue no buffer holds more than the capacity, sends wait only while
/// the buffer is full, and receives wait only while it is empty and the queue is
/// open. Every subscription has a receiver.
pub proof fn law_sound_queue<M>(queue: QueueView<M>)
    requires
        queue.bounded(),
    ensures
        queue.body matches BodyView::Work(work) ==> {
            &&& work.buffer.len() <= queue.capacity
            &&& work.parked.len() > 0 ==> work.buffer.len() == queue.capacity
            &&& work.receives.waiting.len() > 0 ==> queue.open && work.buffer.len() == 0
                && work.parked.len() == 0
            &&& forall|i: int, j: int|
                0 <= i < j < work.parked.len() ==> (#[trigger] work.parked[i]).0 != (
                #[trigger] work.parked[j]).0
        },
        queue.body is Broadcast ==> {
            &&& queue.capacity >= 1
            &&& forall|i: int|
                0 <= i < queue.body->subs.len() ==> ((
                #[trigger] queue.body->subs[i]) matches Some(seat) ==> seat.buffer.len()
                    <= queue.capacity && seat.receivers >= 1 && (seat.receives.waiting.len() > 0
                    ==> queue.open && seat.buffer.len() == 0))
        },
{
    if let BodyView::Work(work) = queue.body {
        let ranks = model::tickets(work.parked);
        assert forall|i: int, j: int| 0 <= i < j < work.parked.len() implies (
        #[trigger] work.parked[i]).0 != (#[trigger] work.parked[j]).0 by {
            assert(ranks[i] < ranks[j]);
        }
    }
}

// ---------------------------------------------------------------------------
// Receiving
// ---------------------------------------------------------------------------
/// What a receiver of a work-sharing queue may take: the buffer, and behind it
/// the messages of the sends that wait.
pub proof fn law_work_receivers_drain_the_line<M>(queue: QueueView<M>)
    requires
        queue.body is Work,
    ensures
        ({
            let work = queue.body->Work_0;
            &&& queue.buffer_of(None) matches Some(line)
            &&& line.len() == work.buffer.len() + work.parked.len()
            &&& forall|k: int| 0 <= k < work.buffer.len() ==> #[trigger] line[k] == work.buffer[k]
            &&& forall|k: int|
                0 <= k < work.parked.len() ==> line[work.buffer.len() + k]
                    == (#[trigger] work.parked[k]).1
        }),
        forall|i: int| #[trigger] queue.buffer_of(Some(i)) is None,
{
}

/// What a receiver of a broadcasting queue may take: the buffer of its own
/// subscription.
pub proof fn law_subscribers_drain_their_own_buffer<M>(queue: QueueView<M>, sub: int)
    requires
        queue.body is Broadcast,
    ensures
        queue.buffer_of(None) is None,
        queue.buffer_of(Some(sub)) is Some <==> 0 <= sub < queue.body->subs.len()
            && queue.body->subs[sub] is Some,
        queue.buffer_of(Some(sub)) matches Some(buffer) ==> buffer
            == queue.body->subs[sub]->0.buffer,
{
}

/// A receive finds a message if there is one for it, open or shut down. With
/// none, it waits while the queue is open and ends with `Closed` once it is shut
/// down. One that belongs to no buffer ends with `Closed`.
pub proof fn law_closed_only_when_drained<M>(queue: QueueView<M>, sub: Option<int>)
    ensures
        queue.buffer_of(sub) matches Some(buffer) ==> {
            &&& buffer.len() > 0 ==> !queue.recv_blocks(sub) && !queue.exhausted(sub)
            &&& buffer.len() == 0 && queue.open ==> queue.recv_blocks(sub) && !queue.exhausted(sub)
            &&& buffer.len() == 0 && !queue.open ==> !queue.recv_blocks(sub) && queue.exhausted(
                sub,
            )
        },
        queue.buffer_of(sub) is None ==> !queue.recv_blocks(sub) && queue.exhausted(sub),
        forall|msg: M, after: QueueView<M>| #[trigger]
            queue.hands_out(sub, msg, after) ==> (queue.buffer_of(sub) matches Some(buffer)
                && buffer.len() > 0 && msg == buffer[0]),
{
}

/// A receive from a work-sharing queue takes its oldest message and nothing else.
/// What is behind it moves up, the message of the send that has waited longest
/// into the room that is made.
pub proof fn law_receive_from_a_work_queue<M>(queue: QueueView<M>, after: QueueView<M>, msg: M)
    requires
        queue.body is Work,
        queue.hands_out(None, msg, after),
    ensures
        after.name == queue.name,
        after.open == queue.open,
        after.capacity == queue.capacity,
        after.body is Work,
        ({
            let work = queue.body->Work_0;
            let next = after.body->Work_0;
            &&& next.receives == work.receives
            &&& next.issued == work.issued
            &&& work.buffer.len() > 0 ==> msg == work.buffer[0]
            &&& work.buffer.len() == 0 ==> work.parked.len() > 0 && msg == work.parked[0].1
            &&& next.buffer.len() + next.parked.len() + 1 == work.buffer.len() + work.parked.len()
            &&& forall|k: int|
                0 <= k < work.buffer.len() - 1 ==> #[trigger] next.buffer[k] == work.buffer[k + 1]
            &&& work.parked.len() == 0 ==> next.parked.len() == 0
            &&& work.parked.len() > 0 ==> {
                &&& next.parked.len() == work.parked.len() - 1
                &&& forall|k: int|
                    0 <= k < next.parked.len() ==> #[trigger] next.parked[k] == work.parked[k + 1]
                &&& work.buffer.len() > 0 ==> next.buffer[work.buffer.len() - 1]
                    == work.parked[0].1
            }
        }),
{
}

/// A receive of a subscriber takes the oldest message of its own buffer and
/// nothing else.
pub proof fn law_receive_from_a_subscription<M>(
    queue: QueueView<M>,
    after: QueueView<M>,
    sub: int,
    msg: M,
)
    requires
        queue.body is Broadcast,
        queue.hands_out(Some(sub), msg, after),
    ensures
        0 <= sub < queue.body->subs.len(),
        after.name == queue.name,
        after.open == queue.open,
        after.capacity == queue.capacity,
        after.body is Broadcast,
        after.body->copies == queue.body->copies,
        after.body->subs.len() == queue.body->subs.len(),
        forall|i: int|
            0 <= i < queue.body->subs.len() && i != sub ==> #[trigger] after.body->subs[i]
                == queue.body->subs[i],
        queue.body->subs[sub] is Some,
        after.body->subs[sub] is Some,
        ({
            let seat = queue.body->subs[sub]->0;
            let next = after.body->subs[sub]->0;
            &&& next.receivers == seat.receivers
            &&& next.receives == seat.receives
            &&& seat.buffer.len() > 0
            &&& msg == seat.buffer[0]
            &&& next.buffer.len() == seat.buffer.len() - 1
            &&& forall|k: int|
                0 <= k < next.buffer.len() ==> #[trigger] next.buffer[k] == seat.buffer[k + 1]
        }),
{
}

// ---------------------------------------------------------------------------
// The pending count
// ---------------------------------------------------------------------------
/// The pending count of a work-sharing queue is the number of messages in its
/// buffer.
pub proof fn law_pending_of_a_work_queue<M>(queue: QueueView<M>)
    requires
        queue.body is Work,
    ensures
        queue.pending() == queue.body->Work_0.buffer.len(),
{
}

/// The pending count of a broadcasting queue is the length of the longest buffer
/// of its subscriptions, however many receivers share one: no buffer is longer,
/// some buffer is as long, and the count is 0 exactly if all are empty.
pub proof fn law_pending_of_a_broadcasting_queue<M>(queue: QueueView<M>)
    requires
        queue.body is Broadcast,
    ensures
        ({
            let subs = queue.body->subs;
            &&& forall|i: int|
                0 <= i < subs.len() ==> ((#[trigger] subs[i]) matches Some(seat)
                    ==> seat.buffer.len() <= queue.pending())
            &&& queue.pending() > 0 ==> exists|i: int|
                0 <= i < subs.len() && ((#[trigger] subs[i]) matches Some(seat)
                    && seat.buffer.len() == queue.pending())
        }),
        forall|i: int|
            (#[trigger] queue.buffer_of(Some(i))) matches Some(buffer) ==> buffer.len()
                <= queue.pending(),
        queue.pending() == 0 <==> forall|i: int|
            (#[trigger] queue.buffer_of(Some(i))) matches Some(buffer) ==> buffer.len() == 0,
{
    lemma_longest(queue.body->subs);
    if queue.pending() > 0 {
        let subs = queue.body->subs;
        let i = choose|i: int|
            0 <= i < subs.len() && ((#[trigger] subs[i]) matches Some(seat) && seat.buffer.len()
                == queue.pending());
        assert(queue.buffer_of(Some(i)) is Some);
    }
}

proof fn lemma_longest<M>(subs: Seq<Option<SubView<M>>>)
    ensures
        forall|i: int|
            0 <= i < subs.len() ==> ((#[trigger] subs[i]) matches Some(seat) ==> seat.buffer.len()
                <= model::worst_lag(subs)),
        model::worst_lag(subs) > 0 ==> exists|i: int|
            0 <= i < subs.len() && ((#[trigger] subs[i]) matches Some(seat) && seat.buffer.len()
                == model::worst_lag(subs)),
    decreases subs.len(),
{
    if subs.len() > 0 {
        let rest = subs.drop_last();
        lemma_longest(rest);
        assert forall|i: int| 0 <= i < subs.len() implies ((#[trigger] subs[i]) matches Some(seat)
            ==> seat.buffer.len() <= model::worst_lag(subs)) by {
            if i < rest.len() {
                assert(rest[i] == subs[i]);
            }
        }
        if model::worst_lag(subs) > 0 {
            if model::worst_lag(subs) == model::worst_lag(rest) {
                let i = choose|i: int|
                    0 <= i < rest.len() && ((#[trigger] rest[i]) matches Some(seat)
                        && seat.buffer.len() == model::worst_lag(rest));
                assert(subs[i] == rest[i]);
            } else {
                assert(subs[subs.len() - 1] is Some);
            }
        }
    }
}

// ---------------------------------------------------------------------------
// Subscribing, cloning and dropping
// ---------------------------------------------------------------------------
/// Receivers are given out by every open queue, and by a work-sharing queue that
/// is shut down exactly while its buffer holds a message.
pub proof fn law_who_admits_receivers<M>(queue: QueueView<M>)
    ensures
        queue.open ==> queue.admits_receivers(),
        !queue.open && queue.body is Broadcast ==> !queue.admits_receivers(),
        !queue.open && queue.body is Work ==> (queue.admits_receivers()
            <==> queue.body->Work_0.buffer.len() > 0),
{
}

/// A receiver that is admitted to a work-sharing queue changes nothing. One that
/// is admitted to a broadcasting queue has a subscription of its own, with nothing
/// in it, and no other subscription is touched.
pub proof fn law_admitted_receiver_starts_afresh<M>(
    before: RegistryView<M>,
    queue: QueueView<M>,
    rx: Receiver,
    after: RegistryView<M>,
)
    requires
        before.at(rx.slot()) == Some(queue),
        model::admitted(before, queue, rx, after),
    ensures
        queue.admits_receivers(),
        queue.body is Work ==> rx.sub() is None && after == before,
        queue.body is Broadcast ==> {
            &&& rx.sub() matches Some(sub)
            &&& after.at(rx.slot()) matches Some(next)
            &&& next.name == queue.name && next.open == queue.open && next.capacity
                == queue.capacity
            &&& next.body is Broadcast
            &&& next.body->copies == queue.body->copies
            &&& 0 <= sub < next.body->subs.len()
            &&& sub < queue.body->subs.len() ==> queue.body->subs[sub] is None
                && next.body->subs.len() == queue.body->subs.len()
            &&& sub >= queue.body->subs.len() ==> next.body->subs.len()
                == queue.body->subs.len() + 1
            &&& next.body->subs[sub] matches Some(seat)
            &&& seat.buffer.len() == 0 && seat.receivers == 1
            &&& seat.receives.waiting.len() == 0 && seat.receives.handed.len() == 0
                && seat.receives.issued == 0
            &&& forall|i: int|
                0 <= i < queue.body->subs.len() && i != sub ==> #[trigger] next.body->subs[i]
                    == queue.body->subs[i]
        },
{
}

/// Cloning a receiver of a subscription adds one to those who share it, while
/// they can be counted, and changes nothing else.
pub proof fn law_clone_counts_one_more<M>(queue: QueueView<M>, sub: int)
    requires
        queue.body is Broadcast,
    ensures
        ({
            let next = queue.joined(sub);
            let subs = queue.body->subs;
            &&& next.name == queue.name && next.open == queue.open && next.capacity
                == queue.capacity
            &&& next.body is Broadcast
            &&& next.body->copies == queue.body->copies
            &&& next.body->subs.len() == subs.len()
            &&& forall|i: int|
                0 <= i < subs.len() && i != sub ==> #[trigger] next.body->subs[i] == subs[i]
            &&& 0 <= sub < subs.len() && subs[sub] is None ==> next.body->subs[sub] is None
            &&& 0 <= sub < subs.len() && subs[sub] is Some ==> {
                &&& next.body->subs[sub] matches Some(seat)
                &&& seat.buffer == subs[sub]->0.buffer
                &&& seat.receives == subs[sub]->0.receives
                &&& subs[sub]->0.receivers < u64::MAX ==> seat.receivers
                    == subs[sub]->0.receivers + 1
                &&& subs[sub]->0.receivers >= u64::MAX ==> seat.receivers
                    == subs[sub]->0.receivers
            }
        }),
{
}

/// Dropping a receiver of a subscription takes one from those who share it, the
/// last one ends the subscription, and nothing else changes.
pub proof fn law_drop_counts_one_less<M>(queue: QueueView<M>, sub: int)
    requires
        queue.body is Broadcast,
    ensures
        ({
            let next = queue.parted(sub);
            let subs = queue.body->subs;
            &&& next.name == queue.name && next.open == queue.open && next.capacity
                == queue.capacity
            &&& next.body is Broadcast
            &&& next.body->copies == queue.body->copies
            &&& next.body->subs.len() == subs.len()
            &&& forall|i: int|
                0 <= i < subs.len() && i != sub ==> #[trigger] next.body->subs[i] == subs[i]
            &&& 0 <= sub < subs.len() && subs[sub] is None ==> next.body->subs[sub] is None
            &&& 0 <= sub < subs.len() && subs[sub] is Some && subs[sub]->0.receivers == 1
                ==> next.body->subs[sub] is None
            &&& 0 <= sub < subs.len() && subs[sub] is Some && subs[sub]->0.receivers > 1 ==> {
                &&& next.body->subs[sub] matches Some(seat)
                &&& seat.buffer == subs[sub]->0.buffer
                &&& seat.receives == subs[sub]->0.receives
                &&& subs[sub]->0.receivers < u64::MAX ==> seat.receivers
                    == subs[sub]->0.receivers - 1
                &&& subs[sub]->0.receivers >= u64::MAX ==> seat.receivers
                    == subs[sub]->0.receivers
            }
        }),
{
}

/// Cloning or dropping a receiver of a work-sharing queue, or one that belongs to
/// another kind of queue, leaves the queue as it is.
pub proof fn law_work_queues_count_no_receivers<M>(queue: QueueView<M>, sub: int)
    requires
        queue.body is Work,
    ensures
        queue.joined(sub) == queue,
        queue.parted(sub) == queue,
{
}

/// Cloning a receiver changes no more than the count of its own subscription.
pub proof fn law_clone_stays_in_its_slot<M>(
    registry: RegistryView<M>,
    slot: int,
    sub: Option<int>,
)
    ensures
        ({
            let after = registry.joined(slot, sub);
            &&& after.names == registry.names
            &&& after.slots.len() == registry.slots.len()
            &&& forall|other: int|
                0 <= other < registry.slots.len() && other != slot ==> #[trigger] after.slots[other]
                    == registry.slots[other]
            &&& sub is None || registry.at(slot) is None ==> after == registry
            &&& sub is Some && registry.at(slot) is Some ==> {
                &&& after.slots[slot] matches Some(entry)
                &&& entry.ty == registry.slots[slot]->0.ty
                &&& entry.queue == registry.slots[slot]->0.queue.joined(sub->0)
            }
        }),
{
}

/// Dropping a receiver of a subscription leaves every other subscriber of the
/// queue with all that it has buffered. While one of them has a message, the
/// queue stays where it is and registered. It is retired only if it is shut down
/// and no buffer that is left holds a message.
pub proof fn law_leaving_subscriber_spares_the_others<M>(
    registry: RegistryView<M>,
    slot: int,
    sub: int,
    other: int,
)
    requires
        registry.at(slot) matches Some(queue) && queue.body is Broadcast,
        other != sub,
        registry.at(slot)->0.buffer_of(Some(other)) is Some,
    ensures
        ({
            let queue = registry.at(slot)->0;
            let after = registry.parted(slot, Some(sub));
            &&& queue.open || queue.buffer_of(Some(other))->0.len() > 0 ==> {
                &&& after.at(slot) matches Some(next)
                &&& next.buffer_of(Some(other)) == queue.buffer_of(Some(other))
                &&& next.body->subs[other] == queue.body->subs[other]
                &&& next.open == queue.open
                &&& after.names == registry.names
            }
        }),
{
    let queue = registry.at(slot)->0;
    law_pending_of_a_broadcasting_queue(queue.parted(sub));
    assert(queue.parted(sub).body->subs[other] == queue.body->subs[other]);
    assert(queue.parted(sub).buffer_of(Some(other)) == queue.buffer_of(Some(other)));
}

/// What dropping a receiver does to the registry: its own queue counts it out,
/// and is retired if it is shut down and drained and the receiver was the last of
/// its subscription. No other queue is touched.
pub proof fn law_drop_in_the_registry<M>(registry: RegistryView<M>, slot: int, sub: Option<int>)
    ensures
        ({
            let after = registry.parted(slot, sub);
            &&& after.slots.len() == registry.slots.len()
            &&& forall|other: int|
                0 <= other < registry.slots.len() && other != slot ==> #[trigger] after.slots[other]
                    == registry.slots[other]
            &&& registry.at(slot) is None ==> after == registry
            &&& registry.at(slot) matches Some(queue) ==> {
                let next = if sub is Some {
                    queue.parted(sub->0)
                } else {
                    queue
                };
                let last = sub is None || next.buffer_of(sub) is None;
                &&& next.open || next.pending() > 0 || !last ==> after.names == registry.names
                    && after.at(slot) == Some(next) && after.slots[slot]->0.ty
                    == registry.slots[slot]->0.ty
                &&& !next.open && next.pending() == 0 && last ==> {
                    &&& registry.names.contains_key(queue.name) && registry.names[queue.name]
                        == slot ==> after.names == registry.names.remove(queue.name)
                    &&& !(registry.names.contains_key(queue.name) && registry.names[queue.name]
                        == slot) ==> after.names == registry.names
                    &&& next.outstanding() ==> after.at(slot) == Some(next)
                    &&& !next.outstanding() ==> after.at(slot) is None
                }
            }
        }),
{
    let after = registry.parted(slot, sub);
    if registry.at(slot) is Some {
        let queue = registry.at(slot)->0;
        if queue.body is Broadcast && sub is Some {
            law_drop_counts_one_less(queue, sub->0);
        }
        assert(registry.with_queue(slot, queue) =~= registry);
    }
}

// ---------------------------------------------------------------------------
// Shutting down and destroying
// ---------------------------------------------------------------------------
/// Shutting a work-sharing queue down closes it and sends its waiting receives
/// away. Every message stays.
pub proof fn law_shut_work_queue_keeps_everything<M>(queue: QueueView<M>)
    requires
        queue.body is Work,
    ensures
        ({
            let next = queue.shut();
            let work = queue.body->Work_0;
            &&& next.name == queue.name && !next.open && next.capacity == queue.capacity
            &&& next.body matches BodyView::Work(shut)
            &&& shut.buffer == work.buffer
            &&& shut.parked == work.parked
            &&& shut.issued == work.issued
            &&& shut.receives.waiting.len() == 0
            &&& shut.receives.handed == work.receives.handed
            &&& shut.receives.issued == work.receives.issued
        }),
{
}

/// Shutting a broadcasting queue down closes it and sends its waiting receives
/// away. Every subscription keeps every message.
pub proof fn law_shut_broadcasting_queue_keeps_everything<M>(queue: QueueView<M>)
    requires
        queue.body is Broadcast,
    ensures
        ({
            let next = queue.shut();
            let subs = queue.body->subs;
            &&& next.name == queue.name && !next.open && next.capacity == queue.capacity
            &&& next.body is Broadcast
            &&& next.body->copies == queue.body->copies
            &&& next.body->subs.len() == subs.len()
            &&& forall|i: int|
                0 <= i < subs.len() && subs[i] is None ==> #[trigger] next.body->subs[i] is None
            &&& forall|i: int|
                0 <= i < subs.len() && subs[i] is Some ==> ((
                #[trigger] next.body->subs[i]) matches Some(seat) && seat.buffer
                    == subs[i]->0.buffer && seat.receivers == subs[i]->0.receivers
                    && seat.receives.waiting.len() == 0 && seat.receives.handed
                    == subs[i]->0.receives.handed && seat.receives.issued
                    == subs[i]->0.receives.issued)
        }),
{
}

/// Destroying a queue closes it, sends its waiting calls away, and leaves no
/// message but those already handed over.
pub proof fn law_torn_down_queue_is_empty<M>(queue: QueueView<M>)
    ensures
        ({
            let next = queue.torn_down();
            &&& next.name == queue.name && !next.open && next.capacity == queue.capacity
            &&& queue.body matches BodyView::Work(work) ==> {
                &&& next.body matches BodyView::Work(torn)
                &&& torn.buffer.len() == 0
                &&& torn.parked.len() == 0
                &&& torn.issued == work.issued
                &&& torn.receives.waiting.len() == 0
                &&& torn.receives.handed == work.receives.handed
                &&& torn.receives.issued == work.receives.issued
            }
            &&& queue.body is Broadcast ==> {
                let subs = queue.body->subs;
                &&& next.body is Broadcast
                &&& next.body->copies == queue.body->copies
                &&& next.body->subs.len() == subs.len()
                &&& forall|i: int|
                    0 <= i < subs.len() && (subs[i] matches Some(seat)
                        && seat.receives.handed.len() > 0) ==> ((
                    #[trigger] next.body->subs[i]) matches Some(seat) && seat.buffer.len() == 0
                        && seat.receives.waiting.len() == 0 && seat.receives.handed
                        == subs[i]->0.receives.handed && seat.receives.issued
                        == subs[i]->0.receives.issued && seat.receivers == subs[i]->0.receivers)
                &&& forall|i: int|
                    0 <= i < subs.len() && !(subs[i] matches Some(seat)
                        && seat.receives.handed.len() > 0) ==> #[trigger] next.body->subs[i] is None
            }
        }),
{
}

/// What `destroy_take` gives back: every message of a work-sharing queue that
/// nobody has taken, oldest first, those of the sends that wait at the end, and
/// nothing of a broadcasting queue.
pub proof fn law_unconsumed_is_all_that_was_not_taken<M>(queue: QueueView<M>)
    ensures
        queue.body is Broadcast ==> queue.unconsumed().len() == 0,
        queue.body matches BodyView::Work(work) ==> {
            &&& queue.unconsumed().len() == work.buffer.len() + work.parked.len()
            &&& forall|k: int|
                0 <= k < work.buffer.len() ==> #[trigger] queue.unconsumed()[k] == work.buffer[k]
            &&& forall|k: int|
                0 <= k < work.parked.len() ==> queue.unconsumed()[work.buffer.len() + k]
                    == (#[trigger] work.parked[k]).1
        },
{
}

/// A call that waited is still to be served if a message was handed to it and
/// not collected, or if it waits with a message of its own.
pub proof fn law_who_is_still_to_be_served<M>(queue: QueueView<M>)
    ensures
        queue.body matches BodyView::Work(work) ==> (queue.outstanding()
            <==> work.receives.handed.len() + work.parked.len() > 0),
        queue.body is Broadcast ==> (queue.outstanding() <==> exists|i: int|
            0 <= i < queue.body->subs.len() && ((#[trigger] queue.body->subs[i]) matches Some(seat)
                && seat.receives.handed.len() > 0)),
{
    if let BodyView::Broadcast { subs, .. } = queue.body {
        if queue.outstanding() {
            let i = choose|i: int| 0 <= i < subs.len() && model::owes(#[trigger] subs[i]);
            assert(queue.body->subs[i] is Some);
        }
        if exists|i: int|
            0 <= i < subs.len() && ((#[trigger] subs[i]) matches Some(seat)
                && seat.receives.handed.len() > 0) {
            let i = choose|i: int|
                0 <= i < subs.len() && ((#[trigger] subs[i]) matches Some(seat)
                    && seat.receives.handed.len() > 0);
            assert(model::owes(subs[i]));
        }
    }
}

/// Retiring a queue takes its name away if that stands for it, and empties its
/// slot unless somebody is still to be served there. Nothing else changes.
pub proof fn law_what_retirement_changes<M>(
    registry: RegistryView<M>,
    slot: int,
    queue: QueueView<M>,
)
    requires
        registry.at(slot) is Some,
    ensures
        ({
            let after = registry.retired(slot, queue);
            let own = registry.names.contains_key(queue.name) && registry.names[queue.name] == slot;
            &&& own ==> after.names == registry.names.remove(queue.name)
            &&& !own ==> after.names == registry.names
            &&& after.slots.len() == registry.slots.len()
            &&& forall|other: int|
                0 <= other < registry.slots.len() && other != slot ==> #[trigger] after.slots[other]
                    == registry.slots[other]
            &&& !queue.outstanding() ==> after.slots[slot] is None
            &&& queue.outstanding() ==> (after.slots[slot] matches Some(entry) && entry.queue
                == queue && entry.ty == registry.slots[slot]->0.ty)
        }),
{
}

/// A queue is retired when it is shut down and its pending count is 0, and left
/// alone otherwise.
pub proof fn law_when_a_queue_is_retired<M>(registry: RegistryView<M>, slot: int)
    ensures
        registry.at(slot) is None ==> registry.settled(slot) == registry,
        registry.at(slot) matches Some(queue) ==> {
            &&& queue.open || queue.pending() > 0 ==> registry.settled(slot) == registry
            &&& !queue.open && queue.pending() == 0 ==> registry.settled(slot) == registry.retired(
                slot,
                queue,
            )
        },
        registry.at(slot) is None ==> registry.without(slot) == registry,
        registry.at(slot) matches Some(queue) ==> registry.without(slot) == registry.retired(
            slot,
            queue.torn_down(),
        ),
{
}

/// The slot of a queue without a name is emptied when nothing is left there, and
/// nothing else is changed.
pub proof fn law_what_sweeping_changes<M>(registry: RegistryView<M>, slot: int)
    ensures
        ({
            let after = registry.swept(slot);
            &&& after.names == registry.names
            &&& after.slots.len() == registry.slots.len()
            &&& forall|other: int|
                0 <= other < registry.slots.len() && other != slot ==> #[trigger] after.slots[other]
                    == registry.slots[other]
            &&& registry.at(slot) matches Some(queue) ==> {
                let named = registry.names.contains_key(queue.name) && registry.names[queue.name]
                    == slot;
                &&& named || queue.pending() > 0 || queue.outstanding() ==> after.slots[slot]
                    == registry.slots[slot]
                &&& !named && queue.pending() == 0 && !queue.outstanding()
                    ==> after.slots[slot] is None
            }
        }),
{
}

// ---------------------------------------------------------------------------
// Waiting
// ---------------------------------------------------------------------------
/// A send that has to wait stands at the end of the line with its message, under
/// a ticket that nobody had before. Nothing else changes.
pub proof fn law_send_lines_up_at_the_end<M>(
    queue: QueueView<M>,
    after: QueueView<M>,
    ticket: u64,
    msg: M,
)
    requires
        queue.parks(ticket, msg, after),
    ensures
        after.name == queue.name,
        after.open == queue.open,
        after.capacity == queue.capacity,
        queue.body is Work,
        after.body is Work,
        ({
            let work = queue.body->Work_0;
            let next = after.body->Work_0;
            &&& next.buffer == work.buffer
            &&& next.receives == work.receives
            &&& ticket == work.issued
            &&& next.issued == work.issued + 1
            &&& next.parked.len() == work.parked.len() + 1
            &&& next.parked[work.parked.len() as int] == (ticket, msg)
            &&& forall|k: int|
                0 <= k < work.parked.len() ==> #[trigger] next.parked[k] == work.parked[k]
        }),
{
}

/// A send that gives up takes its own message back, and those behind it move up.
/// Nothing else changes.
pub proof fn law_send_gives_up_its_own_place<M>(
    queue: QueueView<M>,
    after: QueueView<M>,
    ticket: u64,
    msg: M,
) -> (place: int)
    requires
        queue.unparks(ticket, msg, after),
    ensures
        after.name == queue.name,
        after.open == queue.open,
        after.capacity == queue.capacity,
        queue.body is Work,
        after.body is Work,
        ({
            let work = queue.body->Work_0;
            let next = after.body->Work_0;
            &&& next.buffer == work.buffer
            &&& next.receives == work.receives
            &&& next.issued == work.issued
            &&& 0 <= place < work.parked.len()
            &&& work.parked[place] == (ticket, msg)
            &&& next.parked.len() == work.parked.len() - 1
            &&& forall|k: int| 0 <= k < place ==> #[trigger] next.parked[k] == work.parked[k]
            &&& forall|k: int|
                place <= k < next.parked.len() ==> #[trigger] next.parked[k] == work.parked[k + 1]
        }),
{
    let parked = queue.body->Work_0.parked;
    let place = model::place_of(parked, ticket);
    assert(0 <= place < parked.len() && parked[place].0 == ticket);
    place
}

/// Whether a send is in line: its ticket is there.
pub proof fn law_sends_in_line<M>(queue: QueueView<M>, ticket: u64)
    ensures
        queue.body is Broadcast ==> !queue.send_waits(ticket),
        queue.body matches BodyView::Work(work) ==> (queue.send_waits(ticket) <==> exists|i: int|
            0 <= i < work.parked.len() && (#[trigger] work.parked[i]).0 == ticket),
{
}

/// The line that a receive joins: that of the queue, or of its own subscription.
pub proof fn law_which_line_a_receive_joins<M>(queue: QueueView<M>, sub: Option<int>)
    ensures
        queue.body matches BodyView::Work(work) ==> (if sub is None {
            queue.line_of(sub) == Some(work.receives)
        } else {
            queue.line_of(sub) is None
        }),
        queue.body is Broadcast ==> {
            &&& queue.line_of(sub) is Some <==> (sub is Some && 0 <= sub->0
                < queue.body->subs.len() && queue.body->subs[sub->0] is Some)
            &&& queue.line_of(sub) matches Some(line) ==> line
                == queue.body->subs[sub->0]->0.receives
        },
{
}

/// A receive that has to wait stands at the end of its line, under a ticket that
/// nobody in it had before. Nothing else changes.
pub proof fn law_receive_lines_up_at_the_end<M>(
    queue: QueueView<M>,
    after: QueueView<M>,
    sub: Option<int>,
    ticket: u64,
)
    requires
        queue.queues_up(sub, ticket, after),
    ensures
        queue.line_of(sub) is Some,
        after.line_of(sub) is Some,
        ({
            let line = queue.line_of(sub)->0;
            let next = after.line_of(sub)->0;
            &&& ticket == line.issued
            &&& next.issued == line.issued + 1
            &&& next.handed == line.handed
            &&& next.waiting.len() == line.waiting.len() + 1
            &&& next.waiting[line.waiting.len() as int] == ticket
            &&& forall|k: int|
                0 <= k < line.waiting.len() ==> #[trigger] next.waiting[k] == line.waiting[k]
        }),
        after.name == queue.name,
        after.open == queue.open,
        after.capacity == queue.capacity,
        queue.body matches BodyView::Work(work) ==> (after.body matches BodyView::Work(next)
            && next.buffer == work.buffer && next.parked == work.parked && next.issued
            == work.issued),
        queue.body is Broadcast ==> {
            &&& after.body is Broadcast
            &&& after.body->copies == queue.body->copies
            &&& after.body->subs.len() == queue.body->subs.len()
            &&& forall|i: int|
                0 <= i < queue.body->subs.len() && i != sub->0 ==> #[trigger] after.body->subs[i]
                    == queue.body->subs[i]
            &&& after.body->subs[sub->0]->0.buffer == queue.body->subs[sub->0]->0.buffer
            &&& after.body->subs[sub->0]->0.receivers == queue.body->subs[sub->0]->0.receivers
        },
{
}

/// A receive that waited collects the message that was handed to it, and no
/// other. Nothing else changes.
pub proof fn law_receive_collects_its_own_message<M>(
    queue: QueueView<M>,
    after: QueueView<M>,
    sub: Option<int>,
    ticket: u64,
    msg: M,
) -> (place: int)
    requires
        queue.collects(sub, ticket, msg, after),
    ensures
        queue.line_of(sub) is Some,
        after.line_of(sub) is Some,
        ({
            let line = queue.line_of(sub)->0;
            let next = after.line_of(sub)->0;
            &&& 0 <= place < line.handed.len()
            &&& line.handed[place] == (ticket, msg)
            &&& next.waiting == line.waiting
            &&& next.issued == line.issued
            &&& next.handed.len() == line.handed.len() - 1
            &&& forall|k: int| 0 <= k < place ==> #[trigger] next.handed[k] == line.handed[k]
            &&& forall|k: int|
                place <= k < next.handed.len() ==> #[trigger] next.handed[k] == line.handed[k + 1]
        }),
        after.name == queue.name,
        after.open == queue.open,
        after.capacity == queue.capacity,
        queue.body matches BodyView::Work(work) ==> (after.body matches BodyView::Work(next)
            && next.buffer == work.buffer && next.parked == work.parked && next.issued
            == work.issued),
        queue.body is Broadcast ==> {
            &&& after.body is Broadcast
            &&& after.body->copies == queue.body->copies
            &&& after.body->subs.len() == queue.body->subs.len()
            &&& forall|i: int|
                0 <= i < queue.body->subs.len() && i != sub->0 ==> #[trigger] after.body->subs[i]
                    == queue.body->subs[i]
            &&& after.body->subs[sub->0]->0.buffer == queue.body->subs[sub->0]->0.buffer
            &&& after.body->subs[sub->0]->0.receivers == queue.body->subs[sub->0]->0.receivers
        },
{
    let handed = queue.line_of(sub)->0.handed;
    let place = model::place_of(handed, ticket);
    assert(0 <= place < handed.len() && handed[place].0 == ticket);
    place
}

/// Whether a receive is in line, or was handed a message: its ticket is there.
pub proof fn law_receives_in_line<M>(queue: QueueView<M>, sub: Option<int>, ticket: u64)
    ensures
        queue.line_of(sub) is None ==> !queue.recv_waits(sub, ticket) && !queue.served(sub, ticket),
        queue.line_of(sub) matches Some(line) ==> {
            &&& queue.recv_waits(sub, ticket) <==> exists|i: int|
                0 <= i < line.waiting.len() && #[trigger] line.waiting[i] == ticket
            &&& queue.served(sub, ticket) <==> exists|i: int|
                0 <= i < line.handed.len() && (#[trigger] line.handed[i]).0 == ticket
        },
{
    if let Some(line) = queue.line_of(sub) {
        if queue.recv_waits(sub, ticket) {
            let i = choose|i: int| 0 <= i < line.waiting.len() && line.waiting[i] == ticket;
            assert(line.waiting[i] == ticket);
        }
    }
}

// ---------------------------------------------------------------------------
// The registry
// ---------------------------------------------------------------------------
/// What is found under a name and in a slot.
pub proof fn law_names_and_slots<M>(registry: RegistryView<M>, name: Seq<char>, slot: int)
    ensures
        registry.names.contains_key(name) ==> registry.find(name)
            == registry.slots[registry.names[name] as int],
        !registry.names.contains_key(name) ==> registry.find(name) is None,
        registry.registered(slot, name) <==> registry.names.contains_key(name)
            && registry.names[name] == slot,
        registry.at(slot) is Some <==> 0 <= slot < registry.slots.len()
            && registry.slots[slot] is Some,
        registry.at(slot) matches Some(queue) ==> queue == registry.slots[slot]->0.queue,
        registry.accepts(slot) <==> 0 <= slot < registry.slots.len() && (
        registry.slots[slot] matches Some(entry) && entry.queue.open),
{
}

/// In a sound registry a name leads to a queue of that name, two names lead to
/// two queues, and an open queue is found under its name.
pub proof fn law_sound_registry<M>(registry: RegistryView<M>)
    requires
        registry.wf(),
    ensures
        forall|name: Seq<char>| #[trigger]
            registry.names.contains_key(name) ==> registry.names[name] < registry.slots.len() && (
            registry.slots[registry.names[name] as int] matches Some(entry) && entry.queue.name
                == name),
        forall|a: Seq<char>, b: Seq<char>| #[trigger]
            registry.names.contains_key(a) && #[trigger] registry.names.contains_key(b) && a != b
                ==> registry.names[a] != registry.names[b],
        forall|slot: int|
            0 <= slot < registry.slots.len() ==> ((
            #[trigger] registry.slots[slot]) matches Some(entry) ==> (entry.queue.open
                ==> registry.names.contains_key(entry.queue.name)
                && registry.names[entry.queue.name] == slot)),
{
    assert forall|a: Seq<char>, b: Seq<char>| #[trigger]
        registry.names.contains_key(a) && #[trigger] registry.names.contains_key(b) && a
            != b implies registry.names[a] != registry.names[b] by {
        assert(registry.slots[registry.names[a] as int]->0.queue.name == a);
        assert(registry.slots[registry.names[b] as int]->0.queue.name == b);
    }
}

/// A new registry has neither names nor queues.
pub proof fn law_empty_registry<M>()
    ensures
        RegistryView::<M>::empty().slots.len() == 0,
        forall|name: Seq<char>| !#[trigger] RegistryView::<M>::empty().names.contains_key(name),
{
}

/// Creating a queue adds one name and one slot, and changes nothing that was
/// there.
pub proof fn law_what_creation_changes<M>(
    registry: RegistryView<M>,
    queue: QueueView<M>,
    ty: MessageType,
)
    requires
        registry.slots.len() <= usize::MAX,
    ensures
        ({
            let after = registry.with_new(queue, ty);
            let slot = registry.slots.len() as int;
            &&& after.slots.len() == slot + 1
            &&& after.slots[slot] matches Some(entry)
            &&& entry.queue == queue
            &&& entry.ty == ty
            &&& forall|i: int| 0 <= i < slot ==> #[trigger] after.slots[i] == registry.slots[i]
            &&& after.names.contains_key(queue.name) && after.names[queue.name] == slot
            &&& forall|name: Seq<char>|
                name != queue.name ==> (#[trigger] after.names.contains_key(name)
                    <==> registry.names.contains_key(name))
            &&& forall|name: Seq<char>|
                name != queue.name && #[trigger] registry.names.contains_key(name)
                    ==> after.names[name] == registry.names[name]
        }),
{
}

/// A change of one queue stays in its slot: no name and no other slot is touched,
/// and the type of its messages is the same.
pub proof fn law_change_stays_in_its_slot<M>(
    registry: RegistryView<M>,
    slot: int,
    queue: QueueView<M>,
)
    requires
        registry.at(slot) is Some,
    ensures
        ({
            let after = registry.with_queue(slot, queue);
            &&& after.names == registry.names
            &&& after.slots.len() == registry.slots.len()
            &&& after.slots[slot] matches Some(entry)
            &&& entry.queue == queue
            &&& entry.ty == registry.slots[slot]->0.ty
            &&& forall|other: int|
                0 <= other < registry.slots.len() && other != slot ==> #[trigger] after.slots[other]
                    == registry.slots[other]
        }),
{
}

/// Whether a call on a slot has to wait, or finds nothing, is a matter of the
/// queue that is there. An empty slot makes nobody wait and has nothing to give.
pub proof fn law_slots_decide_by_their_queue<M>(
    registry: RegistryView<M>,
    slot: int,
    sub: Option<int>,
    ticket: u64,
)
    ensures
        registry.at(slot) is None ==> {
            &&& !registry.accepts(slot)
            &&& !registry.send_blocks(slot)
            &&& !registry.recv_blocks(slot, sub)
            &&& registry.exhausted(slot, sub)
            &&& !registry.send_waits(slot, ticket)
            &&& !registry.recv_waits(slot, sub, ticket)
            &&& !registry.served(slot, sub, ticket)
        },
        registry.at(slot) matches Some(queue) ==> {
            &&& registry.accepts(slot) == queue.open
            &&& registry.send_blocks(slot) == queue.send_blocks()
            &&& registry.recv_blocks(slot, sub) == queue.recv_blocks(sub)
            &&& registry.exhausted(slot, sub) == queue.exhausted(sub)
            &&& registry.send_waits(slot, ticket) == queue.send_waits(ticket)
            &&& registry.recv_waits(slot, sub, ticket) == queue.recv_waits(sub, ticket)
            &&& registry.served(slot, sub, ticket) == queue.served(sub, ticket)
        },
{
}

/// A send, a receive, or a call that gets in line does to the queue in its slot
/// what it does to a queue, and nothing to the rest of the registry.
pub proof fn law_calls_stay_in_their_slot<M>(
    before: RegistryView<M>,
    after: RegistryView<M>,
    slot: int,
    sub: Option<int>,
    ticket: u64,
    msg: M,
)
    requires
        before.delivers(slot, msg, after) || before.hands_out(slot, sub, msg, after)
            || before.parks(slot, ticket, msg, after) || before.queues_up(slot, sub, ticket, after),
    ensures
        before.at(slot) is Some,
        after.at(slot) is Some,
        after.names == before.names,
        after.slots.len() == before.slots.len(),
        after.slots[slot]->0.ty == before.slots[slot]->0.ty,
        forall|other: int|
            0 <= other < before.slots.len() && other != slot ==> #[trigger] after.slots[other]
                == before.slots[other],
        ({
            let queue = before.at(slot)->0;
            let next = after.at(slot)->0;
            &&& before.delivers(slot, msg, after) ==> queue.delivers(msg, next)
            &&& before.hands_out(slot, sub, msg, after) ==> queue.hands_out(sub, msg, next)
            &&& before.parks(slot, ticket, msg, after) ==> queue.parks(ticket, msg, next)
            &&& before.queues_up(slot, sub, ticket, after) ==> queue.queues_up(sub, ticket, next)
        }),
{
}

/// A send that gives up does to the queue in its slot what it does to a queue. No
/// name and no other slot is touched, and the slot is emptied only if it has no
/// name and nothing is left there.
pub proof fn law_giving_up_stays_in_its_slot<M>(
    before: RegistryView<M>,
    after: RegistryView<M>,
    slot: int,
    ticket: u64,
    msg: M,
) -> (next: QueueView<M>)
    requires
        before.unparks(slot, ticket, msg, after),
    ensures
        before.at(slot) matches Some(queue) && queue.unparks(ticket, msg, next),
        after.names == before.names,
        after.slots.len() == before.slots.len(),
        forall|other: int|
            0 <= other < before.slots.len() && other != slot ==> #[trigger] after.slots[other]
                == before.slots[other],
        ({
            let named = before.names.contains_key(next.name) && before.names[next.name] == slot;
            &&& named || next.pending() > 0 || next.outstanding() ==> after.at(slot) == Some(next)
                && after.slots[slot]->0.ty == before.slots[slot]->0.ty
            &&& !named && next.pending() == 0 && !next.outstanding() ==> after.at(slot) is None
        }),
{
    let queue = before.at(slot)->0;
    choose|next: QueueView<M>| #[trigger]
        queue.unparks(ticket, msg, next) && after == before.with_queue(slot, next).swept(slot)
}

/// A receive that collects does to the queue in its slot what it does to a queue.
/// No name and no other slot is touched, and the slot is emptied only if it has no
/// name and nothing is left there.
pub proof fn law_collecting_stays_in_its_slot<M>(
    before: RegistryView<M>,
    after: RegistryView<M>,
    slot: int,
    sub: Option<int>,
    ticket: u64,
    msg: M,
) -> (next: QueueView<M>)
    requires
        before.collects(slot, sub, ticket, msg, after),
    ensures
        before.at(slot) matches Some(queue) && queue.collects(sub, ticket, msg, next),
        after.names == before.names,
        after.slots.len() == before.slots.len(),
        forall|other: int|
            0 <= other < before.slots.len() && other != slot ==> #[trigger] after.slots[other]
                == before.slots[other],
        ({
            let named = before.names.contains_key(next.name) && before.names[next.name] == slot;
            &&& named || next.pending() > 0 || next.outstanding() ==> after.at(slot) == Some(next)
                && after.slots[slot]->0.ty == before.slots[slot]->0.ty
            &&& !named && next.pending() == 0 && !next.outstanding() ==> after.at(slot) is None
        }),
{
    let queue = before.at(slot)->0;
    choose|next: QueueView<M>| #[trigger]
        queue.collects(sub, ticket, msg, next) && after == before.with_queue(slot, next).swept(slot)
}

/// How a request for a handle is refused: a name that leads nowhere as such, and
/// a queue of another type with the names of both types. A queue of the right type
/// is not refused.
pub proof fn law_how_a_request_is_refused<M>(
    registry: RegistryView<M>,
    name: Seq<char>,
    ty: MessageType,
    e: QueueError,
)
    ensures
        registry.find(name) is None ==> (model::refused(registry, name, ty, e) <==> (
        e matches QueueError::NoSuchQueue(n) && n@ == name)),
        registry.find(name) matches Some(entry) ==> {
            &&& entry.ty.id() == ty.id() ==> !model::refused(registry, name, ty, e)
            &&& entry.ty.id() != ty.id() ==> (model::refused(registry, name, ty, e) <==> (
            e matches QueueError::TypeMismatch { name: n, expected, actual } && n@ == name
                && expected == ty.label() && actual == entry.ty.label()))
        },
{
}

// ---------------------------------------------------------------------------
// Errors
// ---------------------------------------------------------------------------
/// What an error of the registry says, piece by piece.
pub proof fn law_what_a_queue_error_says(e: QueueError)
    ensures
        e matches QueueError::QueueAlreadyExists(name) ==> e.text() == "queue `"@ + (name@
            + "` already exists"@),
        e matches QueueError::NoSuchQueue(name) ==> e.text() == "no such queue `"@ + (name@
            + "`"@),
        e matches QueueError::TypeMismatch { name, expected, actual } ==> e.text() == "queue `"@ + (
        name@ + ("` carries `"@ + (actual@ + ("`, not `"@ + (expected@ + "`"@))))),
        e matches QueueError::Shutdown(name) ==> e.text() == "queue `"@ + (name@
            + "` is shut down"@),
{
    if let QueueError::QueueAlreadyExists(name) = e {
        assert(e.text() =~= "queue `"@ + (name@ + "` already exists"@));
    }
    if let QueueError::NoSuchQueue(name) = e {
        assert(e.text() =~= "no such queue `"@ + (name@ + "`"@));
    }
    if let QueueError::TypeMismatch { name, expected, actual } = e {
        assert(e.text() =~= "queue `"@ + (name@ + ("` carries `"@ + (actual@ + ("`, not `"@ + (
        expected@ + "`"@))))));
    }
    if let QueueError::Shutdown(name) = e {
        assert(e.text() =~= "queue `"@ + (name@ + "` is shut down"@));
    }
}

/// A bus error says what the registry error that stands behind it says, and is of
/// the same kind and about the same queue.
pub proof fn law_bus_errors_are_queue_errors(e: BusError)
    ensures
        e.text() == e.as_queue_error().text(),
        e matches BusError::QueueAlreadyExists(name) ==> e.as_queue_error()
            == QueueError::QueueAlreadyExists(name),
        e matches BusError::NoSuchQueue(name) ==> e.as_queue_error() == QueueError::NoSuchQueue(
            name,
        ),
        e matches BusError::TypeMismatch { name, expected, actual } ==> e.as_queue_error() == (
        QueueError::TypeMismatch { name, expected, actual }),
        e matches BusError::ShutDown(name) ==> e.as_queue_error() == QueueError::Shutdown(name),
{
}

/// What the errors of the probes say.
pub proof fn law_what_the_probes_say<T>(send: TrySendError<T>, recv: TryRecvError)
    ensures
        send is WouldBlock ==> send.text() == "queue is full; send would block"@,
        send is Closed ==> send.text() == "sending on a closed queue"@,
        recv is WouldBlock ==> recv.text() == "queue is empty; recv would block"@,
        recv is Closed ==> recv.text() == "queue is shut down and drained"@,
{
}

} // verus!
