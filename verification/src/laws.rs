//! What holds of the queues across calls.

use crate::message_type::MessageType;
use crate::model;
use crate::model::{
    BodyView, BroadcastStep, EntryView, LineView, QueueView, RegistryStep, RegistryView, SubView,
    WorkStep, WorkView,
};
use vstd::prelude::*;

verus! {

// ---------------------------------------------------------------------------
// Work-sharing queues
// ---------------------------------------------------------------------------
/// The history without its last step.
proof fn lemma_work_prefix<M>(states: Seq<QueueView<M>>, steps: Seq<WorkStep<M>>)
    requires
        model::work_history(states, steps),
        steps.len() > 0,
    ensures
        model::work_history(states.drop_last(), steps.drop_last()),
        steps.last().takes(states[steps.len() - 1], states[steps.len() as int]),
{
    let before = states.drop_last();
    let earlier = steps.drop_last();
    assert forall|i: int| 0 <= i < before.len() implies (#[trigger] before[i]).body is Work
        && before[i].bounded() by {
        assert(states[i].body is Work && states[i].bounded());
    }
    assert forall|i: int| 0 <= i < earlier.len() implies (#[trigger] earlier[i]).takes(
        before[i],
        before[i + 1],
    ) by {
        assert(steps[i].takes(states[i], states[i + 1]));
    }
    assert(steps[steps.len() - 1].takes(states[steps.len() - 1], states[steps.len() as int]));
}

/// Whatever is sent to a work-sharing queue comes out of it once and in the
/// order it was sent: over any history, what was there and what was brought is
/// what receivers got followed by what is left, but for what senders took back
/// when they gave up waiting. Shutting down loses nothing.
pub proof fn law_first_in_first_out<M>(states: Seq<QueueView<M>>, steps: Seq<WorkStep<M>>)
    requires
        model::work_history(states, steps),
    ensures
        model::posted(states, steps) == model::given_out(states, steps)
            + states.last().unconsumed(),
        (forall|i: int| 0 <= i < steps.len() ==> !((#[trigger] steps[i]) is Unparked))
            ==> states[0].unconsumed() + model::sent(steps) == model::given_out(states, steps)
            + states.last().unconsumed(),
    decreases steps.len(),
{
    if steps.len() == 0 {
        assert(model::posted(states, steps) =~= model::given_out(states, steps)
            + states.last().unconsumed());
        assert(states[0].unconsumed() + model::sent(steps) =~= states[0].unconsumed());
    } else {
        let n = steps.len() - 1;
        let before = states.drop_last();
        let earlier = steps.drop_last();
        lemma_work_prefix(states, steps);
        law_first_in_first_out(before, earlier);
        let kept = forall|i: int| 0 <= i < steps.len() ==> !((#[trigger] steps[i]) is Unparked);
        if kept {
            assert forall|i: int| 0 <= i < earlier.len() implies !((
            #[trigger] earlier[i]) is Unparked) by {
                assert(!(steps[i] is Unparked));
            }
            assert(!(steps[n] is Unparked));
        }
        assert(states[n].body is Work && states[n].bounded());
        lemma_line_moves(states[n], states[n + 1], steps[n]);
        let work = states[n].body->Work_0;
        let start = states[0].unconsumed();
        let put = model::sent(earlier);
        let all = model::posted(before, earlier);
        let got = model::given_out(before, earlier);
        let here = states[n].unconsumed();
        let next = states[n + 1].unconsumed();
        assert(all == got + here);
        match steps[n] {
            WorkStep::Sent(msg) => {
                assert(start + put.push(msg) =~= (start + put).push(msg));
                if work.receives.waiting.len() > 0 {
                    assert(got.push(msg) + next =~= (got + here).push(msg));
                } else {
                    assert(got + next =~= (got + here).push(msg));
                }
            },
            WorkStep::Received(msg) => {
                assert(got.push(msg) + next =~= got + here);
            },
            WorkStep::Parked(_, msg) => {
                assert(start + put.push(msg) =~= (start + put).push(msg));
                assert(got + next =~= (got + here).push(msg));
            },
            WorkStep::Unparked(ticket, msg) => {
                let gone = work.buffer.len() + model::place_of(work.parked, ticket);
                assert(got + next =~= (got + here).remove(got.len() + gone));
            },
            _ => {},
        }
    }
}

/// What one step does to the messages that nobody has consumed.
proof fn lemma_line_moves<M>(before: QueueView<M>, after: QueueView<M>, step: WorkStep<M>)
    requires
        before.body is Work,
        before.bounded(),
        step.takes(before, after),
    ensures
        ({
            let work = before.body->Work_0;
            let here = before.unconsumed();
            let next = after.unconsumed();
            match step {
                WorkStep::Sent(msg) => if work.receives.waiting.len() > 0 {
                    here.len() == 0 && next.len() == 0
                } else {
                    next == here.push(msg)
                },
                WorkStep::Received(msg) => here == seq![msg] + next,
                WorkStep::Parked(_, msg) => next == here.push(msg),
                WorkStep::Unparked(ticket, _) => {
                    let place = model::place_of(work.parked, ticket);
                    0 <= place < work.parked.len() && next == here.remove(
                        work.buffer.len() + place,
                    )
                },
                _ => next == here,
            }
        }),
{
    let work = before.body->Work_0;
    let here = before.unconsumed();
    let next = after.unconsumed();
    match step {
        WorkStep::Sent(msg) => {
            assert(work.parked.len() == 0);
            if work.receives.waiting.len() == 0 {
                assert(next =~= here.push(msg));
            }
        },
        WorkStep::Received(msg) => {
            lemma_gave_out(work);
            assert(here =~= seq![msg] + next);
        },
        WorkStep::Parked(_, msg) => {
            assert(next =~= here.push(msg));
        },
        WorkStep::Unparked(ticket, _) => {
            let place = model::place_of(work.parked, ticket);
            assert(next =~= here.remove(work.buffer.len() + place));
        },
        _ => {
            assert(next =~= here);
        },
    }
}

/// What is left once the oldest message was taken.
proof fn lemma_gave_out<M>(work: WorkView<M>)
    requires
        work.line().len() > 0,
        work.parked.len() == 0 ==> work.buffer.len() > 0,
    ensures
        work.gave_out().line() == work.line().drop_first(),
{
    assert(work.gave_out().line() =~= work.line().drop_first());
}

/// A queue that is shut down hands out all that it holds, in order, and has
/// nothing more to give once that is done.
pub proof fn law_shut_queue_drains<M>(states: Seq<QueueView<M>>, steps: Seq<WorkStep<M>>)
    requires
        model::work_history(states, steps),
        !states[0].open,
        steps.len() == states[0].unconsumed().len(),
        forall|i: int| 0 <= i < steps.len() ==> (#[trigger] steps[i]) is Received,
    ensures
        model::given_out(states, steps) == states[0].unconsumed(),
        !states.last().open,
        states.last().exhausted(None),
{
    law_first_in_first_out(states, steps);
    lemma_only_received(states, steps);
    assert(states.last().body is Work);
    assert(states[0].unconsumed() + model::sent(steps) =~= states[0].unconsumed());
    assert(states.last().unconsumed().len() == 0);
    assert(model::given_out(states, steps) + states.last().unconsumed() =~= model::given_out(
        states,
        steps,
    ));
}

proof fn lemma_only_received<M>(states: Seq<QueueView<M>>, steps: Seq<WorkStep<M>>)
    requires
        model::work_history(states, steps),
        !states[0].open,
        forall|i: int| 0 <= i < steps.len() ==> (#[trigger] steps[i]) is Received,
    ensures
        model::sent(steps) == Seq::<M>::empty(),
        model::given_out(states, steps).len() == steps.len(),
        !states.last().open,
    decreases steps.len(),
{
    if steps.len() > 0 {
        assert(steps.last() == steps[steps.len() - 1]);
        lemma_work_prefix(states, steps);
        lemma_only_received(states.drop_last(), steps.drop_last());
    }
}

/// A message sent to an empty work-sharing queue that nobody waits on is the one
/// that the next receive gives back, and the registry is then as it was.
pub proof fn law_receive_gives_back_what_was_sent<M>(
    before: RegistryView<M>,
    between: RegistryView<M>,
    after: RegistryView<M>,
    slot: int,
    msg: M,
    got: M,
)
    requires
        before.at(slot) matches Some(queue) && (queue.body matches BodyView::Work(work)
            && work.line().len() == 0 && work.receives.waiting.len() == 0),
        before.delivers(slot, msg, between),
        between.hands_out(slot, None, got, after),
    ensures
        got == msg,
        after == before,
{
    let queue = before.at(slot)->0;
    let work = queue.body->Work_0;
    assert(work.buffer.len() == 0 && work.parked.len() == 0);
    assert(after.at(slot)->0.body->Work_0.buffer =~= work.buffer);
    assert(after.at(slot)->0 == queue);
    assert(after =~= before);
}

/// A send that waits on a queue with nothing in it, as every send does on a queue
/// of capacity 0 that no receive waits on, passes its message to the next
/// receive and waits no longer.
pub proof fn law_waiting_send_meets_receive<M>(
    queue: QueueView<M>,
    between: QueueView<M>,
    after: QueueView<M>,
    ticket: u64,
    msg: M,
    got: M,
)
    requires
        queue.bounded(),
        queue.send_blocks(),
        queue.unconsumed().len() == 0,
        queue.parks(ticket, msg, between),
        between.hands_out(None, got, after),
    ensures
        between.send_waits(ticket),
        got == msg,
        !after.send_waits(ticket),
        after.unconsumed() == queue.unconsumed(),
{
    let work = queue.body->Work_0;
    let line = between.body->Work_0.parked;
    assert(work.buffer.len() == 0 && work.parked.len() == 0);
    assert(line[0] == (ticket, msg));
    lemma_gave_out(between.body->Work_0);
    assert(after.unconsumed() =~= queue.unconsumed());
}

/// A receive that is alone in line gets the next message that is sent, also on a
/// queue of capacity 0, and the queue is then as it was but for the ticket.
pub proof fn law_waiting_receive_meets_send<M>(
    queue: QueueView<M>,
    between: QueueView<M>,
    served: QueueView<M>,
    after: QueueView<M>,
    ticket: u64,
    msg: M,
    got: M,
)
    requires
        queue.bounded(),
        queue.recv_blocks(None),
        queue.line_of(None)->0.waiting.len() == 0,
        queue.queues_up(None, ticket, between),
        between.delivers(msg, served),
        served.collects(None, ticket, got, after),
    ensures
        between.recv_waits(None, ticket),
        !between.send_blocks(),
        !served.recv_waits(None, ticket),
        got == msg,
        after.unconsumed() == queue.unconsumed(),
        after.line_of(None)->0.handed == queue.line_of(None)->0.handed,
        after.line_of(None)->0.waiting == queue.line_of(None)->0.waiting,
{
    let line = queue.line_of(None)->0;
    let joined = between.line_of(None)->0;
    assert(joined.waiting[0] == ticket);
    lemma_served(line, ticket, msg);
    assert(after.line_of(None)->0.waiting =~= line.waiting);
}

/// A receive of a subscriber that is alone in line gets a copy of the next
/// message, and the subscriber's buffer is as it was.
pub proof fn law_waiting_subscriber_meets_send<M>(
    queue: QueueView<M>,
    between: QueueView<M>,
    served: QueueView<M>,
    after: QueueView<M>,
    sub: int,
    ticket: u64,
    msg: M,
    got: M,
)
    requires
        queue.bounded(),
        queue.recv_blocks(Some(sub)),
        queue.line_of(Some(sub))->0.waiting.len() == 0,
        queue.queues_up(Some(sub), ticket, between),
        between.delivers(msg, served),
        served.collects(Some(sub), ticket, got, after),
    ensures
        between.recv_waits(Some(sub), ticket),
        !served.recv_waits(Some(sub), ticket),
        (queue.body->copies)(msg, got),
        after.buffer_of(Some(sub)) == queue.buffer_of(Some(sub)),
        after.line_of(Some(sub))->0.handed == queue.line_of(Some(sub))->0.handed,
        after.line_of(Some(sub))->0.waiting == queue.line_of(Some(sub))->0.waiting,
{
    let line = queue.line_of(Some(sub))->0;
    let joined = between.line_of(Some(sub))->0;
    let copies = queue.body->copies;
    assert(queue.body->subs[sub] is Some);
    assert(joined.waiting[0] == ticket);
    assert(model::copied_to(
        copies,
        queue.capacity,
        msg,
        between.body->subs[sub],
        served.body->subs[sub],
    ));
    let copy = choose|copy: M|
        #![trigger copies(msg, copy)]
        copies(msg, copy) && served.body->subs[sub]->0 == between.body->subs[sub]->0.took_in(
            copy,
            queue.capacity,
        );
    lemma_served(line, ticket, copy);
    assert(after.line_of(Some(sub))->0.waiting =~= line.waiting);
}

/// Who joins a line with nobody in it is handed the next message.
proof fn lemma_served<M>(line: LineView<M>, ticket: u64, msg: M)
    requires
        line.wf(),
        line.waiting.len() == 0,
        ticket == line.issued,
    ensures
        ({
            let served = line.joined_by(ticket).served_with(msg);
            &&& served.waiting == line.waiting
            &&& model::place_of(served.handed, ticket) == line.handed.len()
            &&& served.handed[line.handed.len() as int] == (ticket, msg)
            &&& served.handed.remove(line.handed.len() as int) == line.handed
        }),
{
    let handed = line.joined_by(ticket).served_with(msg).handed;
    let n = line.handed.len() as int;
    assert(handed[n] == (ticket, msg));
    let i = model::place_of(handed, ticket);
    assert(handed[i].0 == ticket);
    if i < n {
        let ranks = model::tickets(line.handed) + line.waiting;
        assert(ranks[i] == ticket);
        assert(ranks[i] < line.issued);
    }
    assert(handed.remove(n) =~= line.handed);
    assert(line.joined_by(ticket).served_with(msg).waiting =~= line.waiting);
}

/// A send leaves the line only when a receiver takes a message, when it gives up,
/// or when the queue is destroyed, which takes its message too.
pub proof fn law_waiting_send_is_taken<M>(
    before: RegistryView<M>,
    after: RegistryView<M>,
    step: RegistryStep<M>,
    slot: int,
    ticket: u64,
)
    requires
        step.takes(before, after),
        before.at(slot) matches Some(queue) && queue.bounded(),
        before.send_waits(slot, ticket),
        !after.send_waits(slot, ticket),
    ensures
        match step {
            RegistryStep::Received(s, _, _) => s == slot
                && before.at(slot)->0.body->Work_0.parked[0].0 == ticket,
            RegistryStep::Unparked(s, t, _) => s == slot && t == ticket,
            RegistryStep::Destroyed(s) => s == slot,
            _ => false,
        },
{
    let queue = before.at(slot)->0;
    let parked = queue.body->Work_0.parked;
    let i = model::place_of(parked, ticket);
    assert(parked[i].0 == ticket);
    if let Some(queue_after) = after.at(slot) {
        let rest = queue_after.body->Work_0.parked;
        match step {
            RegistryStep::Received(s, _, _) if s == slot => {
                if i > 0 {
                    assert(rest[i - 1].0 == ticket);
                }
            },
            RegistryStep::Unparked(s, t, _) if s == slot => {
                let j = model::place_of(parked, t);
                assert(rest == parked.remove(j));
                if i < j {
                    assert(rest[i].0 == ticket);
                }
                if i > j {
                    assert(rest[i - 1].0 == ticket);
                }
            },
            RegistryStep::Parked(s, _, _) if s == slot => {
                assert(rest[i].0 == ticket);
            },
            RegistryStep::Destroyed(s) if s == slot => {},
            _ => {
                assert(rest == parked);
                assert(rest[i].0 == ticket);
            },
        }
    }
}

/// A receive leaves the line only when it is handed a message, when the queue is
/// shut down, or when its subscription goes.
pub proof fn law_waiting_receive_is_served<M>(
    before: RegistryView<M>,
    after: RegistryView<M>,
    step: RegistryStep<M>,
    slot: int,
    sub: Option<int>,
    ticket: u64,
)
    requires
        step.takes(before, after),
        before.at(slot) matches Some(queue) && queue.bounded(),
        before.recv_waits(slot, sub, ticket),
        !after.recv_waits(slot, sub, ticket),
    ensures
        after.served(slot, sub, ticket) || !after.accepts(slot) || (
        step matches RegistryStep::Parted(s, _) && s == slot),
{
    let queue = before.at(slot)->0;
    let line = queue.line_of(sub)->0;
    let i = choose|i: int| 0 <= i < line.waiting.len() && line.waiting[i] == ticket;
    if after.accepts(slot) {
        let queue_after = after.at(slot)->0;
        let line_after = queue_after.line_of(sub)->0;
        match step {
            RegistryStep::Sent(s, msg) if s == slot => {
                if let Some(k) = sub {
                    assert(model::copied_to(
                        queue.body->copies,
                        queue.capacity,
                        msg,
                        queue.body->subs[k],
                        queue_after.body->subs[k],
                    ));
                }
                if i == 0 {
                    assert(line_after.handed[line.handed.len() as int].0 == ticket);
                } else {
                    assert(line_after.waiting[i - 1] == ticket);
                }
            },
            RegistryStep::QueuedUp(s, other, _) if s == slot => {
                assert(line_after.waiting[i] == ticket);
            },
            _ => {},
        }
    }
}

/// Senders and receivers of one queue never wait at the same time.
pub proof fn law_one_side_waits<M>(queue: QueueView<M>)
    requires
        queue.bounded(),
        queue.body is Work,
    ensures
        queue.line_of(None)->0.waiting.len() == 0 || queue.body->Work_0.parked.len() == 0,
        queue.line_of(None)->0.waiting.len() > 0 ==> !queue.send_blocks(),
        queue.body->Work_0.parked.len() > 0 ==> !queue.recv_blocks(None),
{
}

/// Over any history of the registry, what was in a work-sharing queue and what
/// was sent to it is what its receivers got followed by what is left.
pub proof fn law_registry_first_in_first_out<M>(
    states: Seq<RegistryView<M>>,
    steps: Seq<RegistryStep<M>>,
    slot: int,
)
    requires
        model::registry_history(states, steps),
        forall|i: int|
            0 <= i < states.len() ==> ((#[trigger] states[i]).at(slot) matches Some(queue)
                && queue.body is Work && queue.bounded()),
        forall|i: int|
            0 <= i < steps.len() ==> (#[trigger] steps[i]) != RegistryStep::<M>::Destroyed(slot),
    ensures
        ({
            let queues = model::queues_at(states, slot);
            let work = model::work_at(steps, slot);
            let start = states[0].at(slot)->0.unconsumed();
            let left = states.last().at(slot)->0.unconsumed();
            &&& model::posted(queues, work) == model::given_out(queues, work) + left
            &&& (forall|i: int| 0 <= i < steps.len() ==> !((#[trigger] steps[i]) is Unparked))
                ==> start + model::sent(work) == model::given_out(queues, work) + left
        }),
{
    let queues = model::queues_at(states, slot);
    let work = model::work_at(steps, slot);
    assert forall|i: int| 0 <= i < queues.len() implies (#[trigger] queues[i]).body is Work
        && queues[i].bounded() by {
        assert(states[i].at(slot) is Some);
    }
    assert forall|i: int| 0 <= i < work.len() implies (#[trigger] work[i]).takes(
        queues[i],
        queues[i + 1],
    ) by {
        assert(steps[i].takes(states[i], states[i + 1]));
        assert(steps[i] != RegistryStep::<M>::Destroyed(slot));
        assert(states[i].at(slot) is Some && states[i + 1].at(slot) is Some);
        lemma_step_at_work(states[i], states[i + 1], steps[i], slot);
    }
    law_first_in_first_out(queues, work);
    if forall|i: int| 0 <= i < steps.len() ==> !((#[trigger] steps[i]) is Unparked) {
        assert forall|i: int| 0 <= i < work.len() implies !((#[trigger] work[i]) is Unparked) by {
            assert(!(steps[i] is Unparked));
        }
    }
}

proof fn lemma_step_at_work<M>(
    before: RegistryView<M>,
    after: RegistryView<M>,
    step: RegistryStep<M>,
    slot: int,
)
    requires
        step.takes(before, after),
        before.at(slot) matches Some(queue) && queue.body is Work,
        after.at(slot) is Some,
        step != RegistryStep::<M>::Destroyed(slot),
    ensures
        step.at_work(slot).takes(before.at(slot)->0, after.at(slot)->0),
{
}

// ---------------------------------------------------------------------------
// Broadcasting queues
// ---------------------------------------------------------------------------
/// Sending to a broadcasting queue never has to wait.
pub proof fn law_broadcast_never_blocks<M>(queue: QueueView<M>)
    requires
        queue.body is Broadcast,
    ensures
        !queue.send_blocks(),
{
}

/// A subscriber follows the stream, which is what it has buffered and then a
/// copy of each message that is sent. Whatever else happens to the queue, the
/// subscriber's buffer is the end of the stream so far, and what its receivers
/// got came before that, in order and each message once.
///
/// - A subscriber that has room, or a receive that waits, whenever a message is
///   sent loses nothing.
/// - A subscriber that gets nothing is left with the newest `capacity` messages.
pub proof fn law_subscriber_follows_the_stream<M>(
    states: Seq<QueueView<M>>,
    steps: Seq<BroadcastStep<M>>,
    sub: int,
) -> (seen: (Seq<M>, Seq<int>))
    requires
        model::broadcast_history(states, steps, sub),
    ensures
        states[0].becomes(states.last()),
        model::copies_of(states[0].body->copies, model::broadcast_sent(steps), seen.0),
        ({
            let stream = states[0].buffer_of(Some(sub))->0 + seen.0;
            let buffer = states.last().buffer_of(Some(sub))->0;
            let got = model::given_to(states, steps, sub);
            &&& model::follows(states[0].capacity, stream, buffer, got, seen.1)
            &&& model::keeps_up(states, steps, sub) ==> got + buffer == stream
        }),
    decreases steps.len(),
{
    let held = states[0].buffer_of(Some(sub))->0;
    let capacity = states[0].capacity;
    if steps.len() == 0 {
        let made = Seq::<M>::empty();
        assert(states[0].body->subs[sub]->0.buffer == held);
        assert(held + made =~= held);
        assert(held.skip(0) =~= held);
        assert(model::given_to(states, steps, sub) + held =~= held);
        (made, Seq::empty())
    } else {
        let n = steps.len() - 1;
        let before = states.drop_last();
        let earlier = steps.drop_last();
        lemma_broadcast_prefix(states, steps, sub);
        let (made, picked) = law_subscriber_follows_the_stream(before, earlier, sub);
        let stream = held + made;
        let here = states[n];
        let next = states[n + 1];
        let buffer = here.buffer_of(Some(sub))->0;
        let got = model::given_to(before, earlier, sub);
        let end = stream.len() - buffer.len();
        let copy = lemma_sub_moves(here, next, steps[n], sub);
        match steps[n] {
            BroadcastStep::Sent(msg) => {
                assert(held + made.push(copy) =~= stream.push(copy));
                if here.line_of(Some(sub))->0.waiting.len() > 0 {
                    assert(buffer =~= Seq::empty());
                    lemma_follow_handed(capacity, stream, got, picked, copy);
                    (made.push(copy), picked.push(end))
                } else {
                    lemma_follow_buffered(capacity, stream, buffer, got, picked, copy);
                    if model::keeps_up(states, steps, sub) {
                        assert(steps[n] is Sent);
                    }
                    (made.push(copy), picked)
                }
            },
            BroadcastStep::Received(i, msg) => {
                if i == sub {
                    lemma_follow_taken(capacity, stream, buffer, got, picked);
                    (made, picked.push(end))
                } else {
                    (made, picked)
                }
            },
            _ => (made, picked),
        }
    }
}

/// The history without its last step.
proof fn lemma_broadcast_prefix<M>(
    states: Seq<QueueView<M>>,
    steps: Seq<BroadcastStep<M>>,
    sub: int,
)
    requires
        model::broadcast_history(states, steps, sub),
        steps.len() > 0,
    ensures
        model::broadcast_history(states.drop_last(), steps.drop_last(), sub),
        model::keeps_up(states, steps, sub) ==> model::keeps_up(
            states.drop_last(),
            steps.drop_last(),
            sub,
        ),
        steps.last().takes(states[steps.len() - 1], states[steps.len() as int]),
        states[steps.len() - 1].buffer_of(Some(sub)) is Some,
        states[steps.len() - 1].bounded(),
        states[steps.len() as int].buffer_of(Some(sub)) is Some,
{
    let before = states.drop_last();
    let earlier = steps.drop_last();
    assert forall|i: int| 0 <= i < before.len() implies (#[trigger] before[i]).buffer_of(
        Some(sub),
    ) is Some && before[i].bounded() by {
        assert(states[i].buffer_of(Some(sub)) is Some && states[i].bounded());
    }
    assert forall|i: int| 0 <= i < earlier.len() implies (#[trigger] earlier[i]).takes(
        before[i],
        before[i + 1],
    ) by {
        assert(steps[i].takes(states[i], states[i + 1]));
    }
    if model::keeps_up(states, steps, sub) {
        assert forall|i: int| 0 <= i < earlier.len() && (
        #[trigger] earlier[i]) is Sent implies before[i].buffer_of(Some(sub))->0.len()
            < before[i].capacity || before[i].line_of(Some(sub))->0.waiting.len() > 0 by {
            assert(steps[i] is Sent);
        }
    }
    assert(steps[steps.len() - 1].takes(states[steps.len() - 1], states[steps.len() as int]));
    assert(states[steps.len() - 1].bounded());
    assert(states[steps.len() as int].bounded());
}

/// What one step does to a subscription that is there before and after. On a
/// send, returns the copy that was delivered.
proof fn lemma_sub_moves<M>(
    before: QueueView<M>,
    after: QueueView<M>,
    step: BroadcastStep<M>,
    sub: int,
) -> (copy: M)
    requires
        before.bounded(),
        before.buffer_of(Some(sub)) is Some,
        after.buffer_of(Some(sub)) is Some,
        step.takes(before, after),
    ensures
        before.becomes(after),
        ({
            let buffer = before.buffer_of(Some(sub))->0;
            let buffer_after = after.buffer_of(Some(sub))->0;
            match step {
                BroadcastStep::Sent(msg) => {
                    &&& (before.body->copies)(msg, copy)
                    &&& if before.line_of(Some(sub))->0.waiting.len() > 0 {
                        &&& buffer.len() == 0
                        &&& buffer_after == buffer
                        &&& after.line_of(Some(sub))->0.handed.last().1 == copy
                    } else {
                        buffer_after == model::newest(buffer.push(copy), before.capacity)
                    }
                },
                BroadcastStep::Received(i, msg) => if i == sub {
                    buffer.len() > 0 && msg == buffer[0] && buffer_after == buffer.drop_first()
                } else {
                    buffer_after == buffer
                },
                _ => buffer_after == buffer,
            }
        }),
{
    let seat = before.body->subs[sub];
    assert(seat is Some);
    match step {
        BroadcastStep::Sent(msg) => {
            let copies = before.body->copies;
            assert(model::copied_to(copies, before.capacity, msg, seat, after.body->subs[sub]));
            choose|copy: M|
                #![trigger copies(msg, copy)]
                copies(msg, copy) && after.body->subs[sub]->0 == seat->0.took_in(
                    copy,
                    before.capacity,
                )
        },
        _ => arbitrary(),
    }
}

/// The stream goes on with a message that is handed to a receive that waits.
proof fn lemma_follow_handed<M>(
    capacity: nat,
    stream: Seq<M>,
    got: Seq<M>,
    picked: Seq<int>,
    copy: M,
)
    requires
        model::follows(capacity, stream, Seq::empty(), got, picked),
    ensures
        model::follows(
            capacity,
            stream.push(copy),
            Seq::empty(),
            got.push(copy),
            picked.push(stream.len() as int),
        ),
        got + Seq::<M>::empty() == stream ==> got.push(copy) + Seq::<M>::empty() == stream.push(
            copy,
        ),
{
    let next = stream.push(copy);
    assert(next.skip(next.len() as int) =~= Seq::<M>::empty());
    assert(got + Seq::<M>::empty() =~= got);
    assert(got.push(copy) + Seq::<M>::empty() =~= got.push(copy));
}

/// The stream goes on with a message that goes into the buffer.
proof fn lemma_follow_buffered<M>(
    capacity: nat,
    stream: Seq<M>,
    buffer: Seq<M>,
    got: Seq<M>,
    picked: Seq<int>,
    copy: M,
)
    requires
        capacity >= 1,
        model::follows(capacity, stream, buffer, got, picked),
    ensures
        ({
            let next = model::newest(buffer.push(copy), capacity);
            &&& model::follows(capacity, stream.push(copy), next, got, picked)
            &&& got + buffer == stream && buffer.len() < capacity ==> got + next == stream.push(
                copy,
            )
        }),
{
    let next = model::newest(buffer.push(copy), capacity);
    let longer = stream.push(copy);
    assert(next =~= longer.skip(longer.len() - next.len()));
    if got.len() == 0 {
        assert(next =~= model::newest(longer, capacity));
    }
    if buffer.len() < capacity {
        assert(got + next =~= (got + buffer).push(copy));
    }
}

/// A receiver takes the oldest message of the buffer.
proof fn lemma_follow_taken<M>(
    capacity: nat,
    stream: Seq<M>,
    buffer: Seq<M>,
    got: Seq<M>,
    picked: Seq<int>,
)
    requires
        model::follows(capacity, stream, buffer, got, picked),
        buffer.len() > 0,
    ensures
        model::follows(
            capacity,
            stream,
            buffer.drop_first(),
            got.push(buffer[0]),
            picked.push(stream.len() - buffer.len()),
        ),
        got.push(buffer[0]) + buffer.drop_first() == got + buffer,
{
    let end = stream.len() - buffer.len();
    assert(buffer[0] == stream[end]);
    assert(buffer.drop_first() =~= stream.skip(end + 1));
    assert(got.push(buffer[0]) + buffer.drop_first() =~= got + buffer);
}

/// Over any history of the registry, a subscriber of a broadcasting queue follows
/// the stream of the copies of what is sent to the queue.
pub proof fn law_registry_subscriber_follows_the_stream<M>(
    states: Seq<RegistryView<M>>,
    steps: Seq<RegistryStep<M>>,
    slot: int,
    sub: int,
) -> (seen: (Seq<M>, Seq<int>))
    requires
        model::registry_history(states, steps),
        forall|i: int|
            0 <= i < states.len() ==> ((#[trigger] states[i]).at(slot) matches Some(queue)
                && queue.buffer_of(Some(sub)) is Some && queue.bounded()),
        forall|i: int|
            0 <= i < steps.len() ==> (#[trigger] steps[i]) != RegistryStep::<M>::Destroyed(slot),
    ensures
        ({
            let queues = model::queues_at(states, slot);
            let broadcasts = model::broadcasts_at(steps, slot);
            let stream = queues[0].buffer_of(Some(sub))->0 + seen.0;
            let buffer = queues.last().buffer_of(Some(sub))->0;
            let got = model::given_to(queues, broadcasts, sub);
            &&& model::copies_of(
                queues[0].body->copies,
                model::broadcast_sent(broadcasts),
                seen.0,
            )
            &&& model::follows(queues[0].capacity, stream, buffer, got, seen.1)
            &&& model::keeps_up(queues, broadcasts, sub) ==> got + buffer == stream
        }),
{
    let queues = model::queues_at(states, slot);
    let broadcasts = model::broadcasts_at(steps, slot);
    assert forall|i: int| 0 <= i < queues.len() implies (#[trigger] queues[i]).buffer_of(
        Some(sub),
    ) is Some && queues[i].bounded() by {
        assert(states[i].at(slot) is Some);
    }
    assert forall|i: int| 0 <= i < broadcasts.len() implies (#[trigger] broadcasts[i]).takes(
        queues[i],
        queues[i + 1],
    ) by {
        assert(steps[i].takes(states[i], states[i + 1]));
        assert(steps[i] != RegistryStep::<M>::Destroyed(slot));
        assert(states[i].at(slot) is Some && states[i + 1].at(slot) is Some);
        lemma_step_at_broadcast(states[i], states[i + 1], steps[i], slot);
    }
    law_subscriber_follows_the_stream(queues, broadcasts, sub)
}

proof fn lemma_step_at_broadcast<M>(
    before: RegistryView<M>,
    after: RegistryView<M>,
    step: RegistryStep<M>,
    slot: int,
)
    requires
        step.takes(before, after),
        before.at(slot) matches Some(queue) && queue.body is Broadcast,
        after.at(slot) is Some,
        step != RegistryStep::<M>::Destroyed(slot),
    ensures
        step.at_broadcast(slot).takes(before.at(slot)->0, after.at(slot)->0),
{
}

/// A subscriber of a queue that is shut down gets all that it has buffered, in
/// order, and there is nothing more to get once that is done.
pub proof fn law_shut_subscriber_drains<M>(
    states: Seq<QueueView<M>>,
    steps: Seq<BroadcastStep<M>>,
    sub: int,
)
    requires
        model::broadcast_history(states, steps, sub),
        !states[0].open,
        steps.len() == states[0].buffer_of(Some(sub))->0.len(),
        forall|i: int|
            0 <= i < steps.len() ==> ((#[trigger] steps[i]) matches BroadcastStep::Received(s, _)
                && s == sub),
    ensures
        model::given_to(states, steps, sub) == states[0].buffer_of(Some(sub))->0,
        !states.last().open,
        states.last().exhausted(Some(sub)),
{
    let (made, _) = law_subscriber_follows_the_stream(states, steps, sub);
    lemma_only_taken(states, steps, sub);
    let held = states[0].buffer_of(Some(sub))->0;
    let got = model::given_to(states, steps, sub);
    let left = states.last().buffer_of(Some(sub))->0;
    assert(states.last().buffer_of(Some(sub)) is Some);
    assert(held + made =~= held);
    assert(model::keeps_up(states, steps, sub)) by {
        assert forall|i: int| 0 <= i < steps.len() implies !((#[trigger] steps[i]) is Sent) by {
            assert(steps[i] is Received);
        }
    }
    assert(got + left == held);
    assert(got + left =~= got);
}

proof fn lemma_only_taken<M>(states: Seq<QueueView<M>>, steps: Seq<BroadcastStep<M>>, sub: int)
    requires
        model::broadcast_history(states, steps, sub),
        !states[0].open,
        forall|i: int|
            0 <= i < steps.len() ==> ((#[trigger] steps[i]) matches BroadcastStep::Received(s, _)
                && s == sub),
    ensures
        model::broadcast_sent(steps) == Seq::<M>::empty(),
        model::given_to(states, steps, sub).len() == steps.len(),
        !states.last().open,
    decreases steps.len(),
{
    if steps.len() > 0 {
        assert(steps.last() == steps[steps.len() - 1]);
        lemma_broadcast_prefix(states, steps, sub);
        lemma_only_taken(states.drop_last(), steps.drop_last(), sub);
    }
}

/// Where copies are equal to what they are made of, the stream is made of the
/// sent messages themselves.
pub proof fn law_equal_copies_are_the_messages<M>(
    copies: spec_fn(M, M) -> bool,
    msgs: Seq<M>,
    made: Seq<M>,
)
    requires
        model::copies_of(copies, msgs, made),
        forall|a: M, b: M| (#[trigger] copies(a, b)) ==> a == b,
    ensures
        made == msgs,
{
    assert(made =~= msgs);
}

/// A new subscription starts empty, whatever was sent before, and leaves the
/// others as they are.
pub proof fn law_subscription_starts_from_now<M>(queue: QueueView<M>, sub: int)
    requires
        queue.has_seat(sub),
    ensures
        queue.buffer_of(Some(sub)) is None,
        queue.subscribed(sub).buffer_of(Some(sub)) == Some(Seq::<M>::empty()),
        forall|other: int|
            other != sub ==> #[trigger] queue.subscribed(sub).buffer_of(Some(other))
                == queue.buffer_of(Some(other)),
{
}

/// What one subscriber receives, the others still have.
pub proof fn law_subscribers_do_not_compete<M>(
    queue: QueueView<M>,
    after: QueueView<M>,
    sub: int,
    msg: M,
)
    requires
        queue.hands_out(Some(sub), msg, after),
    ensures
        forall|other: int|
            other != sub ==> #[trigger] after.buffer_of(Some(other)) == queue.buffer_of(
                Some(other),
            ),
{
}

/// Receivers that share a subscription drain one buffer: cloning a receiver
/// adds no copy of anything, dropping the clone undoes it, and dropping a
/// receiver takes the buffer away only if it was the last. A subscription that
/// so many receivers share that the count is full is kept.
pub proof fn law_clones_share_a_buffer<M>(queue: QueueView<M>, sub: int)
    requires
        queue.bounded(),
        queue.buffer_of(Some(sub)) is Some,
    ensures
        forall|any: int| #[trigger]
            queue.joined(sub).buffer_of(Some(any)) == queue.buffer_of(Some(any)),
        queue.body->subs[sub]->0.receivers + 1 < u64::MAX ==> queue.joined(sub).parted(sub)
            == queue,
        queue.body->subs[sub]->0.receivers > 1 ==> queue.parted(sub).buffer_of(Some(sub))
            == queue.buffer_of(Some(sub)),
        queue.body->subs[sub]->0.receivers == 1 ==> queue.parted(sub).buffer_of(Some(sub)) is None,
        forall|other: int|
            other != sub ==> #[trigger] queue.parted(sub).buffer_of(Some(other))
                == queue.buffer_of(Some(other)),
{
    let subs = queue.body->subs;
    assert(subs[sub] is Some);
    if subs[sub]->0.receivers + 1 < u64::MAX {
        assert(queue.joined(sub).parted(sub).body->subs =~= subs);
    }
}

/// The pending count of a broadcasting queue is the worst lag: no subscriber
/// has more buffered, and some subscriber has as much.
pub proof fn law_pending_is_the_worst_lag<M>(subs: Seq<Option<SubView<M>>>)
    ensures
        forall|i: int|
            0 <= i < subs.len() ==> model::lag(#[trigger] subs[i]) <= model::worst_lag(subs),
        model::worst_lag(subs) > 0 ==> exists|i: int|
            0 <= i < subs.len() && model::lag(#[trigger] subs[i]) == model::worst_lag(subs),
    decreases subs.len(),
{
    if subs.len() > 0 {
        let rest = subs.drop_last();
        law_pending_is_the_worst_lag(rest);
        assert forall|i: int| 0 <= i < subs.len() implies model::lag(#[trigger] subs[i])
            <= model::worst_lag(subs) by {
            if i < rest.len() {
                assert(rest[i] == subs[i]);
            }
        }
        if model::worst_lag(subs) > 0 {
            if model::lag(subs.last()) > model::worst_lag(rest) {
                assert(model::lag(subs[subs.len() - 1]) == model::worst_lag(subs));
            } else {
                let i = choose|i: int|
                    0 <= i < rest.len() && model::lag(#[trigger] rest[i]) == model::worst_lag(rest);
                assert(subs[i] == rest[i]);
            }
        }
    }
}

// ---------------------------------------------------------------------------
// Lifecycle
// ---------------------------------------------------------------------------
/// Over any history a queue keeps its slot, its name, its type, its capacity
/// and its kind until it is retired, stays shut down once it is, and an empty
/// slot stays empty.
pub proof fn law_history_evolves<M>(states: Seq<RegistryView<M>>, steps: Seq<RegistryStep<M>>)
    requires
        model::registry_history(states, steps),
    ensures
        states[0].evolves(states.last()),
    decreases steps.len(),
{
    if steps.len() > 0 {
        let n = steps.len() - 1;
        let before = states.drop_last();
        let earlier = steps.drop_last();
        assert forall|i: int| 0 <= i < earlier.len() implies (#[trigger] earlier[i]).takes(
            before[i],
            before[i + 1],
        ) by {
            assert(steps[i].takes(states[i], states[i + 1]));
        }
        law_history_evolves(before, earlier);
        assert(steps[n].takes(states[n], states[n + 1]));
        lemma_step_evolves(states[n], states[n + 1], steps[n]);
        lemma_evolves_transitive(states[0], states[n], states[n + 1]);
    }
}

proof fn lemma_evolves_transitive<M>(a: RegistryView<M>, b: RegistryView<M>, c: RegistryView<M>)
    requires
        a.evolves(b),
        b.evolves(c),
    ensures
        a.evolves(c),
{
    assert forall|slot: int| 0 <= slot < a.slots.len() implies match (
        a.slots[slot],
        #[trigger] c.slots[slot],
    ) {
        (_, None) => true,
        (Some(entry), Some(entry_after)) => entry_after.ty == entry.ty && entry.queue.becomes(
            entry_after.queue,
        ),
        (None, Some(_)) => false,
    } by {
        assert(b.slots[slot] is Some || b.slots[slot] is None);
    }
}

proof fn lemma_with_queue_evolves<M>(registry: RegistryView<M>, slot: int, queue: QueueView<M>)
    requires
        registry.at(slot) matches Some(old_queue) && old_queue.becomes(queue),
    ensures
        registry.evolves(registry.with_queue(slot, queue)),
{
}

proof fn lemma_step_evolves<M>(
    before: RegistryView<M>,
    after: RegistryView<M>,
    step: RegistryStep<M>,
)
    requires
        step.takes(before, after),
    ensures
        before.evolves(after),
{
    match step {
        RegistryStep::Sent(slot, _) => {
            lemma_with_queue_evolves(before, slot, after.at(slot)->0);
        },
        RegistryStep::Received(slot, _, _) => {
            lemma_with_queue_evolves(before, slot, after.at(slot)->0);
        },
        RegistryStep::Subscribed(slot, sub) => {
            lemma_with_queue_evolves(before, slot, before.at(slot)->0.subscribed(sub));
        },
        RegistryStep::Joined(slot, sub) => {
            if let (Some(queue), Some(i)) = (before.at(slot), sub) {
                lemma_with_queue_evolves(before, slot, queue.joined(i));
            }
        },
        RegistryStep::Parted(slot, sub) => {
            if let (Some(queue), Some(i)) = (before.at(slot), sub) {
                lemma_with_queue_evolves(before, slot, queue.parted(i));
            }
        },
        RegistryStep::Shut(slot) => {
            lemma_with_queue_evolves(before, slot, before.at(slot)->0.shut());
        },
        _ => {},
    }
}

/// A new registry knows no name.
pub proof fn law_new_registry_knows_no_name<M>(name: Seq<char>)
    ensures
        !RegistryView::<M>::empty().names.contains_key(name),
        RegistryView::<M>::empty().find(name) is None,
{
}

/// A queue that is created is found under its name, with its type, and no other
/// name or queue is touched.
pub proof fn law_created_queue_is_found<M>(
    registry: RegistryView<M>,
    queue: QueueView<M>,
    ty: MessageType,
)
    requires
        registry.wf(),
        registry.slots.len() <= usize::MAX,
        !registry.names.contains_key(queue.name),
    ensures
        ({
            let after = registry.with_new(queue, ty);
            &&& after.find(queue.name) == Some(EntryView { queue, ty })
            &&& after.at(registry.slots.len() as int) == Some(queue)
            &&& forall|other: Seq<char>|
                other != queue.name ==> #[trigger] after.find(other) == registry.find(other)
            &&& forall|slot: int|
                slot != registry.slots.len() ==> #[trigger] after.at(slot) == registry.at(slot)
        }),
{
    let after = registry.with_new(queue, ty);
    assert forall|other: Seq<char>| other != queue.name implies #[trigger] after.find(other)
        == registry.find(other) by {
        if registry.names.contains_key(other) {
            assert(registry.names[other] < registry.slots.len());
        }
    }
}

/// A handle whose queue has been retired is of no more use, whatever happens
/// later: no send through it is accepted, and a receive through it finds
/// nothing, also when the name is used for another queue.
pub proof fn law_stale_handles_reach_nothing<M>(
    before: RegistryView<M>,
    after: RegistryView<M>,
    slot: int,
)
    requires
        before.evolves(after),
        0 <= slot < before.slots.len(),
        before.at(slot) is None,
    ensures
        after.at(slot) is None,
        !after.accepts(slot),
        !after.send_blocks(slot),
        forall|sub: Option<int>| #[trigger] after.exhausted(slot, sub),
        forall|sub: Option<int>| !(#[trigger] after.recv_blocks(slot, sub)),
        forall|name: Seq<char>|
            after.wf() && #[trigger] after.names.contains_key(name) ==> after.names[name] != slot,
{
    assert(after.slots[slot] is None);
}

/// Shutdown is for good: a queue that refuses sends refuses them in every later
/// state, whether it is drained, retired or destroyed in between.
pub proof fn law_shutdown_is_for_good<M>(
    before: RegistryView<M>,
    after: RegistryView<M>,
    slot: int,
)
    requires
        before.evolves(after),
        0 <= slot < before.slots.len(),
        !before.accepts(slot),
    ensures
        !after.accepts(slot),
{
    assert(after.slots[slot] is None || after.slots[slot] is Some);
}

/// Shutting a queue down revokes its senders and takes no message away: what was
/// buffered stays for the receivers. A queue that was drained is retired at
/// once, and its name is free; another keeps its name.
pub proof fn law_shutdown_keeps_messages<M>(
    before: RegistryView<M>,
    after: RegistryView<M>,
    name: Seq<char>,
)
    requires
        before.wf(),
        before.names.contains_key(name),
        RegistryStep::Shut(before.names[name] as int).takes(before, after),
    ensures
        ({
            let slot = before.names[name] as int;
            let queue = before.at(slot)->0;
            &&& !after.accepts(slot)
            &&& queue.pending() == 0 ==> after.find(name) is None && !after.names.contains_key(name)
            &&& queue.pending() > 0 ==> {
                &&& after.find(name) matches Some(entry)
                &&& !entry.queue.open
                &&& entry.queue.pending() == queue.pending()
                &&& entry.queue.unconsumed() == queue.unconsumed()
                &&& forall|sub: Option<int>| #[trigger]
                    entry.queue.buffer_of(sub) == queue.buffer_of(sub)
            }
        }),
{
    let queue = before.at(before.names[name] as int)->0;
    assert(before.slots[before.names[name] as int] is Some);
    lemma_shut_pending(queue);
}

/// Shutting a queue down takes no message out of a buffer.
proof fn lemma_shut_pending<M>(queue: QueueView<M>)
    ensures
        queue.shut().pending() == queue.pending(),
{
    if let BodyView::Broadcast { subs, .. } = queue.body {
        crate::broadcast::lemma_shut_lag(subs);
    }
}

/// Destroying a queue frees its name, and no other name or queue is touched. At
/// most the messages already handed to receives that waited are left of it.
pub proof fn law_retirement_frees_the_name<M>(registry: RegistryView<M>, name: Seq<char>)
    requires
        registry.wf(),
        registry.names.contains_key(name),
    ensures
        ({
            let slot = registry.names[name] as int;
            let after = registry.without(slot);
            &&& !after.names.contains_key(name)
            &&& after.find(name) is None
            &&& after.at(slot) matches Some(queue) ==> !queue.open && queue.unconsumed().len() == 0
            &&& forall|other: Seq<char>|
                other != name ==> #[trigger] after.find(other) == registry.find(other)
            &&& forall|other: int|
                other != slot ==> #[trigger] after.at(other) == registry.at(other)
        }),
{
    let slot = registry.names[name] as int;
    let after = registry.without(slot);
    assert(registry.slots[slot] is Some);
    assert forall|other: Seq<char>| other != name implies #[trigger] after.find(other)
        == registry.find(other) by {
        if registry.names.contains_key(other) {
            assert(registry.names[other] != registry.names[name]) by {
                assert(registry.slots[registry.names[other] as int]->0.queue.name == other);
                assert(registry.slots[registry.names[name] as int]->0.queue.name == name);
            }
        }
    }
}

/// Retiring a queue frees its name if that still stands for this very queue, and
/// touches no other name and no other queue.
pub proof fn law_retirement_spares_the_others<M>(registry: RegistryView<M>, slot: int)
    requires
        registry.wf(),
        registry.at(slot) is Some,
    ensures
        ({
            let queue = registry.at(slot)->0;
            let after = registry.retired(slot, queue);
            &&& registry.registered(slot, queue.name) ==> !after.names.contains_key(queue.name)
            &&& !registry.registered(slot, queue.name) ==> after.names == registry.names
            &&& forall|name: Seq<char>|
                name != queue.name || !registry.registered(slot, queue.name)
                    ==> #[trigger] after.find(name) == registry.find(name)
            &&& forall|other: int|
                other != slot ==> #[trigger] after.at(other) == registry.at(other)
        }),
{
    let queue = registry.at(slot)->0;
    let after = registry.retired(slot, queue);
    assert forall|name: Seq<char>|
        name != queue.name || !registry.registered(slot, queue.name) implies #[trigger] after.find(
        name,
    ) == registry.find(name) by {
        if registry.names.contains_key(name) {
            assert(registry.slots[registry.names[name] as int]->0.queue.name == name);
        }
    }
}

/// A receiver that finds its queue shut down and drained leaves the name free,
/// unless another subscriber still has messages to drain. The slot is then empty,
/// once every receive that waited has collected its message.
pub proof fn law_drained_queue_is_retired<M>(
    registry: RegistryView<M>,
    slot: int,
    sub: Option<int>,
)
    requires
        registry.wf(),
        registry.at(slot) matches Some(queue) && queue.buffer_of(sub) is Some
            && registry.registered(slot, queue.name),
        registry.exhausted(slot, sub),
    ensures
        ({
            let queue = registry.at(slot)->0;
            let after = registry.settled(slot);
            &&& queue.body is Work || queue.pending() == 0 ==> !after.names.contains_key(queue.name)
                && (!queue.outstanding() ==> after.at(slot) is None)
            &&& queue.body is Broadcast && queue.pending() > 0 ==> after == registry
        }),
{
}

/// A queue with messages that nobody drains stays registered, also when it is
/// shut down: no step but its destruction retires it, nor, if it is a
/// broadcasting queue, but the departure of a subscriber.
pub proof fn law_undrained_queue_stays<M>(
    before: RegistryView<M>,
    after: RegistryView<M>,
    slot: int,
    step: RegistryStep<M>,
)
    requires
        step.takes(before, after),
        before.at(slot) matches Some(queue) && queue.pending() > 0 && before.registered(
            slot,
            queue.name,
        ) && (queue.body is Work || !(step matches RegistryStep::Parted(s, _) && s == slot)),
        step != RegistryStep::<M>::Destroyed(slot),
    ensures
        after.at(slot) is Some,
        after.registered(slot, before.at(slot)->0.name),
{
    assert(before.slots[slot] is Some);
    lemma_shut_pending(before.at(slot)->0);
}

/// What happens to one queue is not seen by any other.
pub proof fn law_queues_are_independent<M>(
    registry: RegistryView<M>,
    slot: int,
    queue: QueueView<M>,
    other: int,
)
    requires
        registry.at(slot) is Some,
        other != slot,
    ensures
        registry.with_queue(slot, queue).at(other) == registry.at(other),
        registry.with_queue(slot, queue).settled(slot).at(other) == registry.at(other),
        registry.with_queue(slot, queue).names == registry.names,
{
}

} // verus!
