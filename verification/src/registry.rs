use crate::broadcast::BroadcastCore;
use crate::channel::ChannelCore;
use crate::error::QueueError;
use crate::message_type::MessageType;
use crate::model;
use crate::model::{EntryView, QueueView, RegistryStep, RegistryView};
use crate::receiver::Receiver;
use crate::sender::Sender;
use vstd::hash_map::StringHashMap;
use vstd::prelude::*;

verus! {

/// A registered queue's state, either kind.
#[verifier::reject_recursive_types(M)]
pub enum AnyCore<M> {
    Queue(ChannelCore<M>),
    Broadcast(BroadcastCore<M>),
}

impl<M> AnyCore<M> {
    /// The queue that this state represents.
    pub open spec fn view(self) -> QueueView<M> {
        match self {
            AnyCore::Queue(core) => core@,
            AnyCore::Broadcast(core) => core@,
        }
    }

    /// The state is sound, and its kind is the queue's kind.
    pub open spec fn wf(self) -> bool {
        match self {
            AnyCore::Queue(core) => core.wf() && core@.body is Work,
            AnyCore::Broadcast(core) => core.wf() && core@.body is Broadcast,
        }
    }

    /// The name of the queue.
    pub fn name(&self) -> (name: &str)
        ensures
            name@ == self@.name,
    {
        match self {
            AnyCore::Queue(core) => core.name(),
            AnyCore::Broadcast(core) => core.name(),
        }
    }

    /// Whether the queue has been shut down.
    pub fn is_shutdown(&self) -> (shut: bool)
        ensures
            shut == !self@.open,
    {
        match self {
            AnyCore::Queue(core) => core.is_shutdown(),
            AnyCore::Broadcast(core) => core.is_shutdown(),
        }
    }

    /// The pending count.
    pub fn pending(&self) -> (pending: usize)
        ensures
            pending == self@.pending(),
    {
        match self {
            AnyCore::Queue(core) => core.pending(),
            AnyCore::Broadcast(core) => core.pending(),
        }
    }

    /// Whether a call that waited is still to be served.
    pub fn outstanding(&self) -> (outstanding: bool)
        ensures
            outstanding == self@.outstanding(),
    {
        match self {
            AnyCore::Queue(core) => core.outstanding(),
            AnyCore::Broadcast(core) => core.outstanding(),
        }
    }

    /// Refuse further sends. Returns `true` when the queue is already drained.
    pub fn shutdown(&mut self) -> (drained: bool)
        requires
            old(self).wf(),
        ensures
            final(self).wf(),
            final(self)@ == old(self)@.shut(),
            final(self)@.pending() == old(self)@.pending(),
            drained == (old(self)@.pending() == 0),
    {
        match self {
            AnyCore::Queue(core) => core.shutdown(),
            AnyCore::Broadcast(core) => core.shutdown(),
        }
    }

    /// Tear the queue down. A work-sharing queue hands out what it had
    /// buffered; the buffers of a broadcasting queue are discarded.
    pub fn destroy(&mut self) -> (taken: Vec<M>)
        requires
            old(self).wf(),
        ensures
            final(self).wf(),
            final(self)@ == old(self)@.torn_down(),
            taken@ == old(self)@.unconsumed(),
    {
        match self {
            AnyCore::Queue(core) => core.destroy(),
            AnyCore::Broadcast(core) => {
                core.destroy();
                Vec::new()
            },
        }
    }
}

/// A queue and the type of message that it carries.
#[verifier::reject_recursive_types(M)]
struct Entry<M> {
    core: AnyCore<M>,
    ty: MessageType,
}

/// Snapshot of one queue's lifecycle state.
#[derive(Debug, Clone, Copy, PartialEq, Eq)]
pub enum QueueState {
    /// Accepting sends and acquires; `pending` messages currently buffered.
    Open { pending: usize },
    /// Shut down, still draining; `pending` messages remain consumable.
    Closed { pending: usize },
}

/// A registry of named, typed, bounded queues that carry messages of type `M`.
#[verifier::reject_recursive_types(M)]
pub struct QueueRegistry<M> {
    names: StringHashMap<usize>,
    slots: Vec<Option<Entry<M>>>,
}

spec fn entry_view<M>(entry: Option<Entry<M>>) -> Option<EntryView<M>> {
    match entry {
        Some(e) => Some(EntryView { queue: e.core@, ty: e.ty }),
        None => None,
    }
}

impl<M> Default for QueueRegistry<M> {
    fn default() -> (registry: QueueRegistry<M>)
        ensures
            registry.wf(),
            registry@ == RegistryView::<M>::empty(),
    {
        QueueRegistry::new()
    }
}

impl<M> QueueRegistry<M> {
    /// The registry that this state represents.
    pub closed spec fn view(self) -> RegistryView<M> {
        RegistryView {
            names: self.names@,
            slots: self.slots@.map_values(|entry: Option<Entry<M>>| entry_view(entry)),
        }
    }

    /// Every queue is sound, and names and slots agree.
    pub closed spec fn wf(self) -> bool {
        &&& self@.wf()
        &&& forall|i: int|
            0 <= i < self.slots@.len() ==> ((#[trigger] self.slots@[i]) matches Some(entry)
                ==> entry.core.wf())
    }

    /// In a sound registry every name stands for a queue of that name, every
    /// open queue is found under its name, every buffer is within its capacity,
    /// and the slots can be counted.
    pub proof fn law_invariant(&self)
        requires
            self.wf(),
        ensures
            self@.wf(),
            self@.slots.len() <= usize::MAX,
            forall|slot: int| (#[trigger] self@.at(slot)) matches Some(queue) ==> queue.bounded(),
    {
        assert(self@.slots.len() == self.slots.len());
        assert forall|slot: int| (#[trigger] self@.at(slot)) matches Some(queue) implies self@.at(
            slot,
        )->0.bounded() by {
            assert(entry_view(self.slots@[slot]) is Some);
            match self.slots@[slot]->0.core {
                AnyCore::Queue(core) => core.lemma_bounded(),
                AnyCore::Broadcast(core) => core.lemma_bounded(),
            }
        }
    }

    /// A registry without queues.
    pub fn new() -> (registry: QueueRegistry<M>)
        ensures
            registry.wf(),
            registry@ == RegistryView::<M>::empty(),
    {
        let registry = QueueRegistry { names: StringHashMap::new(), slots: Vec::new() };
        assert(registry@ =~= RegistryView::<M>::empty());
        registry
    }

    /// The state of the queue in a slot, to be changed in place.
    pub(crate) fn core_mut(&mut self, slot: usize) -> (core: Option<&mut AnyCore<M>>)
        requires
            old(self).wf(),
        ensures
            match core {
                None => old(self)@.at(slot as int) is None && final(self)@ == old(self)@
                    && final(self).wf(),
                Some(c) => {
                    &&& old(self)@.at(slot as int) == Some(c@)
                    &&& c.wf()
                    &&& final(self)@ == old(self)@.with_queue(slot as int, final(c)@)
                    &&& final(c)@ == c@ ==> final(self)@ == old(self)@
                    &&& final(c).wf() && final(c)@.name == c@.name && (final(c)@.open
                        ==> c@.open) ==> final(self).wf()
                },
            },
    {
        if slot >= self.slots.len() {
            return None;
        }
        match &mut self.slots[slot] {
            Some(entry) => Some(&mut entry.core),
            None => None,
        }
    }

    /// The state of the queue in a slot.
    pub(crate) fn core_ref(&self, slot: usize) -> (core: Option<&AnyCore<M>>)
        requires
            self.wf(),
        ensures
            match core {
                None => self@.at(slot as int) is None,
                Some(c) => self@.at(slot as int) == Some(c@) && c.wf(),
            },
    {
        if slot >= self.slots.len() {
            return None;
        }
        match &self.slots[slot] {
            Some(entry) => Some(&entry.core),
            None => None,
        }
    }

    /// Retire the queue in a slot, if it is shut down and drained.
    pub(crate) fn settle(&mut self, slot: usize)
        requires
            old(self).wf(),
        ensures
            final(self).wf(),
            final(self)@ == old(self)@.settled(slot as int),
    {
        let retire = match self.core_ref(slot) {
            Some(core) => core.is_shutdown() && core.pending() == 0,
            None => false,
        };
        if retire {
            self.remove_core(slot);
        }
    }

    /// Empty the slot of a retired queue, if nobody is still to be served there.
    pub(crate) fn sweep(&mut self, slot: usize)
        requires
            old(self).wf(),
        ensures
            final(self).wf(),
            final(self)@ == old(self)@.swept(slot as int),
    {
        let spent = match self.core_ref(slot) {
            Some(core) => !self.is_registered(slot, core.name()) && core.pending() == 0
                && !core.outstanding(),
            None => false,
        };
        if spent {
            self.slots[slot] = None;
            assert(self@ =~= old(self)@.swept(slot as int));
        }
    }

    /// Whether a name stands for a slot.
    fn is_registered(&self, slot: usize, name: &str) -> (registered: bool)
        ensures
            registered == self@.registered(slot as int, name@),
    {
        match self.names.get(name) {
            Some(found) => *found == slot,
            None => false,
        }
    }

    /// Adds a queue under a name that is free.
    fn insert(&mut self, core: AnyCore<M>, ty: MessageType)
        requires
            old(self).wf(),
            core.wf(),
            !old(self)@.names.contains_key(core@.name),
        ensures
            final(self).wf(),
            final(self)@ == old(self)@.with_new(core@, ty),
    {
        let slot = self.slots.len();
        self.names.insert(core.name().to_string(), slot);
        self.slots.push(Some(Entry { core, ty }));
        assert(self@ =~= old(self)@.with_new(core@, ty));
    }

    /// Retire the queue in a slot, which is shut down, and free its name if it
    /// is still the one registered under it. An empty slot is left alone.
    pub(crate) fn remove_core(&mut self, slot: usize)
        requires
            old(self).wf(),
            old(self)@.at(slot as int) matches Some(queue) ==> !queue.open,
        ensures
            final(self).wf(),
            match old(self)@.at(slot as int) {
                Some(queue) => final(self)@ == old(self)@.retired(slot as int, queue),
                None => final(self)@ == old(self)@,
            },
    {
        if self.core_ref(slot).is_none() {
            return ;
        }
        let core = &self.slots[slot].as_ref().unwrap().core;
        let keep = core.outstanding();
        let registered = self.is_registered(slot, core.name());
        if registered {
            self.names.remove(core.name());
        }
        if !keep {
            self.slots[slot] = None;
        }
        assert(self@ =~= old(self)@.retired(slot as int, old(self)@.at(slot as int)->0));
    }

    /// Tear down the queue in a slot that is in use and retire it. Hands out
    /// what was not consumed.
    fn tear_down(&mut self, slot: usize) -> (taken: Vec<M>)
        requires
            old(self).wf(),
            old(self)@.at(slot as int) is Some,
        ensures
            final(self).wf(),
            final(self)@ == old(self)@.without(slot as int),
            taken@ == old(self)@.at(slot as int)->0.unconsumed(),
    {
        let mut taken: Vec<M> = Vec::new();
        if let Some(core) = self.core_mut(slot) {
            taken = core.destroy();
        }
        self.remove_core(slot);
        assert(self@ =~= old(self)@.without(slot as int));
        taken
    }

    /// The slot of the queue that is registered under a name and carries a type.
    fn core_of(&self, name: &str, ty: &MessageType) -> (found: Result<usize, QueueError>)
        requires
            self.wf(),
        ensures
            match found {
                Ok(slot) => self@.find(name@) matches Some(entry) && entry.ty.id() == ty.id()
                    && slot == self@.names[name@],
                Err(e) => model::refused(self@, name@, *ty, e),
            },
    {
        let slot = match self.names.get(name) {
            Some(slot) => *slot,
            None => {
                return Err(QueueError::NoSuchQueue(name.to_string()));
            },
        };
        let entry = self.slots[slot].as_ref().unwrap();
        if entry.ty.same_as(ty) {
            Ok(slot)
        } else {
            Err(
                QueueError::TypeMismatch {
                    name: name.to_string(),
                    expected: ty.name(),
                    actual: entry.ty.name(),
                },
            )
        }
    }

    /// Register a new bounded queue that carries messages of type `ty`. On a
    /// queue of capacity 0 a message passes from a send to a receive when one of
    /// them waits for the other. The capacity stays below the largest number,
    /// since receiving from a flume channel adds one to it.
    pub fn create(&mut self, name: &str, capacity: usize, ty: MessageType) -> (created: Result<
        (),
        QueueError,
    >)
        requires
            old(self).wf(),
            capacity < usize::MAX,
        ensures
            final(self).wf(),
            created is Ok ==> RegistryStep::Created(
                QueueView::new_work(name@, capacity as nat),
                ty,
            ).takes(old(self)@, final(self)@),
            match created {
                Ok(()) => !old(self)@.names.contains_key(name@) && final(self)@
                    == old(self)@.with_new(QueueView::new_work(name@, capacity as nat), ty),
                Err(e) => old(self)@.names.contains_key(name@) && final(self)@ == old(self)@ && (
                e matches QueueError::QueueAlreadyExists(n) && n@ == name@),
            },
    {
        if self.names.contains_key(name) {
            return Err(QueueError::QueueAlreadyExists(name.to_string()));
        }
        self.insert(AnyCore::Queue(ChannelCore::new(name, capacity)), ty);
        Ok(())
    }

    /// Register a new broadcasting queue that carries messages of type `ty`.
    /// Every subscriber gets its own bounded buffer of `capacity` (at least 1),
    /// created empty at subscribe time, so it sees only messages sent from then
    /// on. Delivery is lossy per subscriber: a full buffer loses its oldest
    /// message, and senders never block.
    pub fn create_broadcasting(&mut self, name: &str, capacity: usize, ty: MessageType) -> (created:
        Result<(), QueueError>) where M: Clone
        requires
            old(self).wf(),
            capacity < usize::MAX,
        ensures
            final(self).wf(),
            created is Ok ==> RegistryStep::Created(
                QueueView::new_broadcast(name@, capacity as nat, model::clones()),
                ty,
            ).takes(old(self)@, final(self)@),
            match created {
                Ok(()) => !old(self)@.names.contains_key(name@) && final(self)@
                    == old(self)@.with_new(
                    QueueView::new_broadcast(
                        name@,
                        capacity as nat,
                        model::clones(),
                    ),
                    ty,
                ),
                Err(e) => old(self)@.names.contains_key(name@) && final(self)@ == old(self)@ && (
                e matches QueueError::QueueAlreadyExists(n) && n@ == name@),
            },
    {
        if self.names.contains_key(name) {
            return Err(QueueError::QueueAlreadyExists(name.to_string()));
        }
        self.insert(AnyCore::Broadcast(BroadcastCore::new(name, capacity)), ty);
        Ok(())
    }

    /// Get a producer handle.
    pub fn acquire_sender(&self, name: &str, ty: MessageType) -> (acquired: Result<
        Sender,
        QueueError,
    >)
        requires
            self.wf(),
        ensures
            match acquired {
                Ok(tx) => self@.find(name@) matches Some(entry) && entry.ty.id() == ty.id()
                    && entry.queue.open && tx.queue_name() == name@ && tx.slot()
                    == self@.names[name@],
                Err(QueueError::Shutdown(n)) => n@ == name@ && (self@.find(name@) matches Some(
                    entry,
                ) && entry.ty.id() == ty.id() && !entry.queue.open),
                Err(e) => model::refused(self@, name@, ty, e),
            },
    {
        let slot = self.core_of(name, &ty)?;
        if self.slots[slot].as_ref().unwrap().core.is_shutdown() {
            return Err(QueueError::Shutdown(name.to_string()));
        }
        Ok(Sender::new(name, slot))
    }

    /// Get a consumer handle. A closed work-sharing queue admits new
    /// receivers while messages remain to be drained. On a broadcasting
    /// queue this registers a fresh subscription that receives messages
    /// from now on; a shut-down broadcasting queue admits no new
    /// subscribers (a new subscription could never hold anything to drain).
    pub fn acquire_receiver(&mut self, name: &str, ty: MessageType) -> (acquired: Result<
        Receiver,
        QueueError,
    >)
        requires
            old(self).wf(),
        ensures
            final(self).wf(),
            acquired matches Ok(rx) ==> (rx.sub() matches Some(sub) ==> RegistryStep::Subscribed(
                rx.slot(),
                sub,
            ).takes(old(self)@, final(self)@)),
            match acquired {
                Ok(rx) => old(self)@.find(name@) matches Some(entry) && entry.ty.id() == ty.id()
                    && rx.queue_name() == name@ && rx.slot() == old(self)@.names[name@]
                    && model::admitted(old(self)@, entry.queue, rx, final(self)@),
                Err(QueueError::Shutdown(n)) => n@ == name@ && final(self)@ == old(self)@ && (
                old(self)@.find(name@) matches Some(entry) && entry.ty.id() == ty.id()
                    && !entry.queue.admits_receivers()),
                Err(e) => model::refused(old(self)@, name@, ty, e) && final(self)@
                    == old(self)@,
            },
    {
        let slot = self.core_of(name, &ty)?;
        match self.core_mut(slot) {
            Some(AnyCore::Queue(core)) => {
                if core.is_shutdown() && core.is_drained() {
                    return Err(QueueError::Shutdown(name.to_string()));
                }
                Ok(Receiver::new(name, slot))
            },
            Some(AnyCore::Broadcast(core)) => {
                if core.is_shutdown() {
                    return Err(QueueError::Shutdown(name.to_string()));
                }
                let sub = core.subscribe();
                Ok(Receiver::new_broadcast(name, slot, sub))
            },
            None => Err(QueueError::NoSuchQueue(name.to_string())),
        }
    }

    /// Shut the named queue down: no new senders are issued, and sends that
    /// observe shutdown fail. Existing receivers and new ones acquired while
    /// messages remain can drain the queue.
    pub fn shutdown(&mut self, name: &str) -> (shut: Result<(), QueueError>)
        requires
            old(self).wf(),
        ensures
            final(self).wf(),
            shut is Ok ==> RegistryStep::Shut(old(self)@.names[name@] as int).takes(
                old(self)@,
                final(self)@,
            ),
            match shut {
                Ok(()) => old(self)@.find(name@) matches Some(entry) && entry.queue.open
                    && final(self)@ == old(self)@.with_queue(
                    old(self)@.names[name@] as int,
                    entry.queue.shut(),
                ).settled(old(self)@.names[name@] as int),
                Err(QueueError::NoSuchQueue(n)) => n@ == name@ && final(self)@ == old(self)@
                    && old(self)@.find(name@) is None,
                Err(QueueError::Shutdown(n)) => n@ == name@ && final(self)@ == old(self)@ && (
                old(self)@.find(name@) matches Some(entry) && !entry.queue.open),
                Err(_) => false,
            },
    {
        let slot = match self.names.get(name) {
            Some(slot) => *slot,
            None => {
                return Err(QueueError::NoSuchQueue(name.to_string()));
            },
        };
        let mut drained = false;
        if let Some(core) = self.core_mut(slot) {
            if core.is_shutdown() {
                return Err(QueueError::Shutdown(name.to_string()));
            }
            drained = core.shutdown();
        }
        if drained {
            self.remove_core(slot);
        }
        Ok(())
    }

    /// Probe a queue's lifecycle state.
    pub fn state(&self, name: &str) -> (state: Result<QueueState, QueueError>)
        requires
            self.wf(),
        ensures
            match state {
                Ok(QueueState::Open { pending }) => self@.find(name@) matches Some(entry)
                    && entry.queue.open && pending == entry.queue.pending(),
                Ok(QueueState::Closed { pending }) => self@.find(name@) matches Some(entry)
                    && !entry.queue.open && pending == entry.queue.pending(),
                Err(e) => self@.find(name@) is None && (e matches QueueError::NoSuchQueue(n) && n@
                    == name@),
            },
    {
        let slot = match self.names.get(name) {
            Some(slot) => *slot,
            None => {
                return Err(QueueError::NoSuchQueue(name.to_string()));
            },
        };
        let core = &self.slots[slot].as_ref().unwrap().core;
        let pending = core.pending();
        Ok(
            if core.is_shutdown() {
                QueueState::Closed { pending }
            } else {
                QueueState::Open { pending }
            },
        )
    }

    /// Force-retire the registry entry in any state, discarding pending messages.
    pub fn destroy(&mut self, name: &str) -> (destroyed: Result<(), QueueError>)
        requires
            old(self).wf(),
        ensures
            final(self).wf(),
            destroyed is Ok ==> RegistryStep::Destroyed(old(self)@.names[name@] as int).takes(
                old(self)@,
                final(self)@,
            ),
            match destroyed {
                Ok(()) => old(self)@.find(name@) is Some && final(self)@ == old(self)@.without(
                    old(self)@.names[name@] as int,
                ),
                Err(e) => old(self)@.find(name@) is None && final(self)@ == old(self)@ && (
                e matches QueueError::NoSuchQueue(n) && n@ == name@),
            },
    {
        let slot = match self.names.get(name) {
            Some(slot) => *slot,
            None => {
                return Err(QueueError::NoSuchQueue(name.to_string()));
            },
        };
        let _ = self.tear_down(slot);
        Ok(())
    }

    /// Typed force-retire: like [`destroy`](Self::destroy), but hands the
    /// unconsumed messages back to the caller instead of discarding them.
    ///
    /// On a broadcasting queue there is no canonical pending set (every
    /// subscriber holds its own copy), so the queue is destroyed and an
    /// empty `Vec` is returned.
    pub fn destroy_take(&mut self, name: &str, ty: MessageType) -> (destroyed: Result<
        Vec<M>,
        QueueError,
    >)
        requires
            old(self).wf(),
        ensures
            final(self).wf(),
            destroyed is Ok ==> RegistryStep::Destroyed(old(self)@.names[name@] as int).takes(
                old(self)@,
                final(self)@,
            ),
            match destroyed {
                Ok(taken) => old(self)@.find(name@) matches Some(entry) && entry.ty.id() == ty.id()
                    && taken@ == entry.queue.unconsumed() && final(self)@ == old(self)@.without(
                    old(self)@.names[name@] as int,
                ),
                Err(e) => model::refused(old(self)@, name@, ty, e) && final(self)@
                    == old(self)@,
            },
    {
        let slot = self.core_of(name, &ty)?;
        Ok(self.tear_down(slot))
    }
}

} // verus!
