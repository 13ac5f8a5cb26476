use crate::model;
use crate::model::LineView;
use vstd::prelude::*;

verus! {

/// The receives that wait for messages, in the order in which they came, and
/// the messages that were handed to them.
pub struct WaitLine<M> {
    waiting: Vec<u64>,
    handed: Vec<(u64, M)>,
    issued: u64,
}

/// The place of a ticket among others, if it is there.
pub fn find<M>(places: &Vec<(u64, M)>, ticket: u64) -> (place: Option<usize>)
    ensures
        match place {
            Some(i) => i < places@.len() && places@[i as int].0 == ticket,
            None => !model::holds(places@, ticket),
        },
{
    let n = places.len();
    let mut i: usize = 0;
    while i < n
        invariant
            i <= n == places@.len(),
            forall|j: int| 0 <= j < i ==> (#[trigger] places@[j]).0 != ticket,
        decreases n - i,
    {
        if places[i].0 == ticket {
            return Some(i);
        }
        i = i + 1;
    }
    None
}

/// Among ranked tickets each has one place.
pub proof fn lemma_place<M>(places: Seq<(u64, M)>, issued: nat, i: int)
    requires
        model::ranked(model::tickets(places), issued),
        0 <= i < places.len(),
    ensures
        model::holds(places, places[i].0),
        model::place_of(places, places[i].0) == i,
{
    let j = model::place_of(places, places[i].0);
    assert(0 <= j < places.len() && places[j].0 == places[i].0);
    let ranks = model::tickets(places);
    assert(ranks[i] == places[i].0 && ranks[j] == places[j].0);
    if i < j {
        assert(ranks[i] < ranks[j]);
    }
    if j < i {
        assert(ranks[j] < ranks[i]);
    }
}

impl<M> WaitLine<M> {
    /// The line that this state represents.
    pub closed spec fn view(self) -> LineView<M> {
        LineView {
            waiting: self.waiting@,
            handed: self.handed@,
            issued: self.issued as nat,
        }
    }

    /// A line in which nobody waits.
    pub fn new() -> (line: WaitLine<M>)
        ensures
            line@ == LineView::<M>::empty(),
    {
        let line = WaitLine { waiting: Vec::new(), handed: Vec::new(), issued: 0 };
        assert(line@ =~= LineView::<M>::empty());
        line
    }

    /// Whether nobody waits.
    pub fn is_idle(&self) -> (idle: bool)
        ensures
            idle == (self@.waiting.len() == 0),
    {
        self.waiting.len() == 0
    }

    /// Whether a message waits to be collected.
    pub fn has_handed(&self) -> (handed: bool)
        ensures
            handed == (self@.handed.len() > 0),
    {
        self.handed.len() > 0
    }

    /// Puts a receive in line, while there are tickets.
    pub fn queue_up(&mut self) -> (ticket: Option<u64>)
        requires
            old(self)@.wf(),
        ensures
            final(self)@.wf(),
            match ticket {
                Some(t) => t == old(self)@.issued && final(self)@ == old(self)@.joined_by(t),
                None => old(self)@.issued == u64::MAX && final(self)@ == old(self)@,
            },
    {
        if self.issued == u64::MAX {
            return None;
        }
        let ticket = self.issued;
        self.waiting.push(ticket);
        self.issued = ticket + 1;
        proof {
            let given = model::tickets(self.handed@);
            assert(given + self.waiting@ =~= (given + old(self).waiting@).push(ticket));
        }
        Some(ticket)
    }

    /// Hands a message to the receive that has waited longest.
    pub fn serve(&mut self, msg: M)
        requires
            old(self)@.wf(),
            old(self)@.waiting.len() > 0,
        ensures
            final(self)@.wf(),
            final(self)@ == old(self)@.served_with(msg),
    {
        let ticket = self.waiting.remove(0);
        self.handed.push((ticket, msg));
        proof {
            assert(self.waiting@ =~= old(self).waiting@.drop_first());
            assert(model::tickets(self.handed@) + self.waiting@ =~= model::tickets(
                old(self).handed@,
            ) + old(self).waiting@);
        }
    }

    /// Whether a receive is still in line.
    pub fn waits(&self, ticket: u64) -> (waits: bool)
        ensures
            waits == self@.waiting.contains(ticket),
    {
        let n = self.waiting.len();
        let mut i: usize = 0;
        while i < n
            invariant
                i <= n == self.waiting@.len(),
                forall|j: int| 0 <= j < i ==> (#[trigger] self.waiting@[j]) != ticket,
            decreases n - i,
        {
            if self.waiting[i] == ticket {
                return true;
            }
            i = i + 1;
        }
        false
    }

    /// Takes the message that was handed to a receive.
    pub fn collect(&mut self, ticket: u64) -> (collected: Option<M>)
        requires
            old(self)@.wf(),
        ensures
            final(self)@.wf(),
            match collected {
                Some(msg) => old(self)@.collected_by(ticket, msg, final(self)@),
                None => !model::holds(old(self)@.handed, ticket) && final(self)@ == old(self)@,
            },
    {
        match find(&self.handed, ticket) {
            Some(i) => {
                proof {
                    let given = model::tickets(self.handed@);
                    let all = given + self.waiting@;
                    assert forall|j: int| 0 <= j < given.len() implies #[trigger] given[j]
                        == all[j] by {}
                    lemma_place(self.handed@, self.issued as nat, i as int);
                }
                let (_, msg) = self.handed.remove(i);
                proof {
                    assert(model::tickets(self.handed@) + self.waiting@ =~= (model::tickets(
                        old(self).handed@,
                    ) + self.waiting@).remove(i as int));
                }
                Some(msg)
            },
            None => None,
        }
    }

    /// Sends everyone in line away.
    pub fn end(&mut self)
        requires
            old(self)@.wf(),
        ensures
            final(self)@.wf(),
            final(self)@ == old(self)@.ended(),
    {
        self.waiting = Vec::new();
        proof {
            let given = model::tickets(self.handed@);
            let all = given + old(self).waiting@;
            assert forall|i: int| 0 <= i < given.len() implies #[trigger] given[i] == all[i] by {}
            assert(given + self.waiting@ =~= given);
            assert(self@ =~= old(self)@.ended());
        }
    }
}

} // verus!
