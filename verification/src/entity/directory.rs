//! Storage for the lifecycle slots of a local family.

use std::collections::hash_map::RandomState;
use std::collections::HashMap;
use std::hash::{BuildHasher, Hash};

use vstd::arithmetic::power2::is_pow2;
use vstd::prelude::*;
use vstd::std_specs::hash::{builds_valid_hashers, obeys_key_model};
use vstd::std_specs::iter::IteratorSpec;

use crate::cloning::{copied, faithful};
use crate::entity::id::{
    law_identity_is_the_domain_value, ActivationId, DispatchId, EntityId,
};
use crate::entity::lifecycle::{
    effects_of, evidence_of, lemma_next_state_wf, next_state, DrainFailure, EntitySlot, Refusal,
    RetirementMode, SlotEffect, SlotEvent, SlotModel, TransitionEvidence, Waiting,
};
use crate::entity::shards::{is_power_of_two, shard_index};
use crate::nonzero::{NonZeroU64, NonZeroUsize};

verus! {

broadcast use vstd::std_specs::hash::group_hash_axioms;

/// Fixed sizing and admission limits for a local directory.
#[derive(Debug, Clone, Copy, PartialEq, Eq, Structural)]
pub struct DirectoryConfig {
    /// Number of shards that a hash selects among; must be a power of two.
    pub shards: NonZeroUsize,
    /// Maximum commands retained by one in-flight activation.
    pub activation_waiters: NonZeroUsize,
}

/// Failure before a command can be submitted to a lifecycle slot.
#[derive(Debug)]
pub enum DirectoryError<C> {
    /// The shard count was not a power of two.
    InvalidShardCount,
    /// The monotonically increasing activation namespace is exhausted.
    ActivationIdsExhausted(C),
    /// The monotonically increasing dispatch namespace is exhausted.
    DispatchIdsExhausted(C),
}

impl<C> DirectoryError<C> {
    /// The failure in words.
    pub fn message(&self) -> (message: &'static str)
        ensures
            message@ == match self {
                DirectoryError::InvalidShardCount => "shard count was not a power of two"@,
                DirectoryError::ActivationIdsExhausted(_) =>
                    "activation identity namespace is exhausted"@,
                DirectoryError::DispatchIdsExhausted(_) =>
                    "dispatch identity namespace is exhausted"@,
            },
    {
        match self {
            DirectoryError::InvalidShardCount => "shard count was not a power of two",
            DirectoryError::ActivationIdsExhausted(_) => {
                "activation identity namespace is exhausted"
            },
            DirectoryError::DispatchIdsExhausted(_) => "dispatch identity namespace is exhausted",
        }
    }
}

/// One represented slot. Its identity is that of the one activation it is
/// created for, and stays when the slot is inactive again.
pub struct DirectorySlot<C, E, L> {
    identity: ActivationId,
    state: EntitySlot<C, E, L>,
}

impl<C, E, L> View for DirectorySlot<C, E, L> {
    type V = (ActivationId, SlotModel<C, E, L>);

    closed spec fn view(&self) -> (ActivationId, SlotModel<C, E, L>) {
        (self.identity, self.state@)
    }
}

/// The directory as a mathematical value.
#[verifier::ext_equal]
#[verifier::reject_recursive_types(I)]
pub struct DirectoryModel<I, C, E, L> {
    /// The represented slots, each with its identity.
    pub slots: Map<I, (ActivationId, SlotModel<C, E, L>)>,
    /// The next activation identity.
    pub next_activation: u64,
    /// The next dispatch identity.
    pub next_dispatch: u64,
    /// How many commands an activation in flight may retain.
    pub waiter_limit: NonZeroUsize,
}

impl<I, C, E, L> DirectoryModel<I, C, E, L> {
    /// The state of the slot of `id`; nothing represented is inactive.
    pub open spec fn state(self, id: I) -> SlotModel<C, E, L> {
        if self.slots.contains_key(id) {
            self.slots[id].1
        } else {
            SlotModel::Inactive
        }
    }

    /// The directory with another state in the slot of `id`.
    pub open spec fn with_state(self, id: I, state: SlotModel<C, E, L>) -> Self {
        DirectoryModel { slots: self.slots.insert(id, (self.slots[id].0, state)), ..self }
    }

    /// The directory after an event for `id`. An event for an entity that is
    /// not represented leaves nothing behind.
    pub open spec fn submitted(self, id: I, event: SlotEvent<C, E, L>) -> Self {
        if self.slots.contains_key(id) {
            self.with_state(id, next_state(self.slots[id].1, event))
        } else {
            self
        }
    }

    /// The directory after one more dispatch identity was handed out.
    pub open spec fn issued(self) -> Self {
        DirectoryModel { next_dispatch: (self.next_dispatch + 1) as u64, ..self }
    }

    /// The directory after the first command for `id` claimed an activation.
    pub open spec fn claimed(
        self,
        id: I,
        activation_id: ActivationId,
        dispatch_id: DispatchId,
        command: C,
    ) -> Self {
        let claim = SlotEvent::ClaimActivation {
            activation_id,
            dispatch_id,
            command,
            waiter_limit: self.waiter_limit,
        };
        DirectoryModel {
            slots: self.slots.insert(id, (activation_id, next_state(SlotModel::Inactive, claim))),
            next_activation: (self.next_activation + 1) as u64,
            next_dispatch: (self.next_dispatch + 1) as u64,
            ..self
        }
    }

    /// What the slot of `id` is told of a dispatched command: the first one
    /// claims the activation `fresh`.
    pub open spec fn dispatch_event(
        self,
        id: I,
        dispatch_id: DispatchId,
        fresh: ActivationId,
        command: C,
    ) -> SlotEvent<C, E, L> {
        if self.slots.contains_key(id) {
            SlotEvent::Dispatch { dispatch_id, command }
        } else {
            SlotEvent::ClaimActivation {
                activation_id: fresh,
                dispatch_id,
                command,
                waiter_limit: self.waiter_limit,
            }
        }
    }

    /// The directory after a command was dispatched to `id`.
    pub open spec fn dispatched(
        self,
        id: I,
        dispatch_id: DispatchId,
        fresh: ActivationId,
        command: C,
    ) -> Self {
        if self.slots.contains_key(id) {
            self.issued().submitted(id, SlotEvent::Dispatch { dispatch_id, command })
        } else {
            self.claimed(id, fresh, dispatch_id, command)
        }
    }

    /// The directory after a decision of `slot` for `id` was interpreted: the
    /// slot is forgotten if the decision says so and it is still the one that
    /// represents the entity.
    pub open spec fn interpreted(
        self,
        id: I,
        slot: Option<ActivationId>,
        effects: Seq<SlotEffect<C, E, L>>,
    ) -> Self {
        if forgets(effects) && self.slots.contains_key(id) && slot == Some(self.slots[id].0) {
            DirectoryModel { slots: self.slots.remove(id), ..self }
        } else {
            self
        }
    }

    /// The directory after a drain request for every represented incarnation.
    pub open spec fn drained(self) -> Self {
        DirectoryModel {
            slots: self.slots.map_values(
                |slot: (ActivationId, SlotModel<C, E, L>)| (slot.0, drained_state(slot.1)),
            ),
            ..self
        }
    }

    /// A slot is about the activation it was created for, activations are
    /// never shared, and no identity has been handed out twice.
    pub open spec fn wf(self) -> bool {
        &&& self.slots.dom().finite()
        &&& self.next_activation >= 1
        &&& self.next_dispatch >= 1
        &&& self.waiter_limit@ >= 1
        &&& forall|id: I|
            #![trigger self.slots[id]]
            self.slots.contains_key(id) ==> {
                let (identity, state) = self.slots[id];
                &&& identity@ < self.next_activation
                &&& state.wf()
                &&& state.activation() is Some ==> state.activation() == Some(identity)
                &&& state.load() < self.next_dispatch
            }
        &&& forall|a: I, b: I|
            #![trigger self.slots[a], self.slots[b]]
            self.slots.contains_key(a) && self.slots.contains_key(b) && self.slots[a].0
                == self.slots[b].0 ==> a == b
    }
}

/// The state of a slot after a drain request for its own incarnation.
pub open spec fn drained_state<C, E, L>(state: SlotModel<C, E, L>) -> SlotModel<C, E, L> {
    match state.activation() {
        Some(activation_id) => next_state(state, SlotEvent::BeginDrain { activation_id }),
        None => state,
    }
}

/// Whether effects ask to forget the slot.
pub open spec fn forgets<C, E, L>(effects: Seq<SlotEffect<C, E, L>>) -> bool {
    exists|i: int| 0 <= i < effects.len() && (#[trigger] effects[i]) is Remove
}

/// The effects that await interpretation, by the slot that decided them. Those
/// of one slot stand in order of submission.
pub type PendingEffects<C, E, L> = Map<u64, Seq<SlotEffect<C, E, L>>>;

/// The effects of a slot that await interpretation.
pub open spec fn queued<C, E, L>(
    pending: PendingEffects<C, E, L>,
    slot: ActivationId,
) -> Seq<SlotEffect<C, E, L>> {
    if pending.contains_key(slot@) {
        pending[slot@]
    } else {
        Seq::empty()
    }
}

/// What awaits interpretation after one more decision of a slot. A decision
/// that belongs to no slot is not queued.
pub open spec fn enqueued<C, E, L>(
    pending: PendingEffects<C, E, L>,
    slot: Option<ActivationId>,
    effects: Seq<SlotEffect<C, E, L>>,
) -> PendingEffects<C, E, L> {
    match slot {
        Some(slot) => pending.insert(slot@, queued(pending, slot) + effects),
        None => pending,
    }
}

/// What awaits interpretation after everything of a slot was interpreted.
pub open spec fn dequeued<C, E, L>(
    pending: PendingEffects<C, E, L>,
    slot: Option<ActivationId>,
) -> PendingEffects<C, E, L> {
    match slot {
        Some(slot) => pending.remove(slot@),
        None => pending,
    }
}

/// One installed decision awaiting interpretation of its effects. Those of a
/// represented slot are queued with the slot.
pub struct DirectoryOutput<I, C, E, L> {
    /// What the event did.
    pub evidence: TransitionEvidence,
    /// The activation that the slot is about afterwards.
    pub activation_id: Option<ActivationId>,
    /// The entity that the event was about.
    pub entity_id: EntityId<I>,
    /// The identity of the slot that took the event, unless the entity was not
    /// represented.
    pub slot: Option<ActivationId>,
    /// What the runtime is asked to do, in order, if no slot took the event.
    pub effects: Vec<SlotEffect<C, E, L>>,
}

impl<I, C, E, L> DirectoryOutput<I, C, E, L> {
    /// The effects that are interpreted for this decision: everything that the
    /// slot has queued, or the effects of a decision that belongs to none.
    pub open spec fn awaiting(self, pending: PendingEffects<C, E, L>) -> Seq<
        SlotEffect<C, E, L>,
    > {
        match self.slot {
            Some(slot) => queued(pending, slot),
            None => self.effects@,
        }
    }

    /// Whether this is the decision of `event` for `id` in `directory`.
    pub open spec fn decides(
        self,
        directory: DirectoryModel<I, C, E, L>,
        id: I,
        event: SlotEvent<C, E, L>,
    ) -> bool {
        let state = directory.state(id);
        &&& self.evidence == evidence_of(state, event)
        &&& self.activation_id == next_state(state, event).activation()
        &&& self.entity_id@ == id
        &&& self.slot == if directory.slots.contains_key(id) {
            Some(directory.slots[id].0)
        } else {
            None
        }
        &&& self.effects@ == if directory.slots.contains_key(id) {
            Seq::empty()
        } else {
            effects_of(state, event)
        }
    }
}

impl<I, C, E, L> DirectoryOutput<I, C, E, L> {
    /// Whether this is the decision for a command dispatched to `entity_id`. A
    /// first command claims the next activation of the directory.
    pub open spec fn answers(
        self,
        directory: DirectoryModel<I, C, E, L>,
        entity_id: EntityId<I>,
        dispatch_id: DispatchId,
        command: C,
    ) -> bool {
        let state = directory.state(entity_id@);
        let event = directory.dispatch_event(entity_id@, dispatch_id, self.slot->0, command);
        &&& self.slot is Some
        &&& directory.slots.contains_key(entity_id@) ==> self.slot->0
            == directory.slots[entity_id@].0
        &&& !directory.slots.contains_key(entity_id@) ==> self.slot->0@ == directory.next_activation
        &&& self.entity_id == entity_id
        &&& self.evidence == evidence_of(state, event)
        &&& self.activation_id == next_state(state, event).activation()
        &&& self.effects@.len() == 0
    }
}

/// The installed decision for one dispatched command.
pub struct DispatchOutput<I, C, E, L> {
    /// Correlation identity allocated for the dispatched command.
    pub dispatch_id: DispatchId,
    /// Installed decision awaiting interpretation.
    pub output: DirectoryOutput<I, C, E, L>,
}

/// One call of the runtime.
pub enum EffectCall<I, C, E, L> {
    /// Start one directory-owned activation attempt.
    StartActivation { entity_id: EntityId<I>, activation_id: ActivationId },
    /// Start delivery to one exact-incarnation endpoint.
    Deliver {
        entity_id: EntityId<I>,
        activation_id: ActivationId,
        dispatch_id: DispatchId,
        endpoint: E,
        command: C,
    },
    /// Return a command that was not admitted or delivered.
    Reject { dispatch_id: DispatchId, command: C, reason: Refusal },
    /// Enqueue an ordered processing fence for one exact incarnation.
    EnqueueFence { entity_id: EntityId<I>, activation_id: ActivationId, endpoint: E },
    /// Exercise exact-incarnation retirement authority.
    Retire {
        entity_id: EntityId<I>,
        activation_id: ActivationId,
        lease: L,
        retirement: RetirementMode,
    },
}

/// The calls that effects ask for, in order. Forgetting a slot is the
/// directory's own business.
pub open spec fn calls_of<I, C, E, L>(
    entity_id: EntityId<I>,
    effects: Seq<SlotEffect<C, E, L>>,
) -> Seq<EffectCall<I, C, E, L>>
    decreases effects.len(),
{
    if effects.len() == 0 {
        Seq::empty()
    } else {
        let before = calls_of(entity_id, effects.drop_last());
        match effects.last() {
            SlotEffect::StartActivation { activation_id } => before.push(
                EffectCall::StartActivation { entity_id, activation_id },
            ),
            SlotEffect::Deliver { activation_id, dispatch_id, endpoint, command } => before.push(
                EffectCall::Deliver { entity_id, activation_id, dispatch_id, endpoint, command },
            ),
            SlotEffect::Reject { dispatch_id, command, reason } => before.push(
                EffectCall::Reject { dispatch_id, command, reason },
            ),
            SlotEffect::EnqueueFence { activation_id, endpoint } => before.push(
                EffectCall::EnqueueFence { entity_id, activation_id, endpoint },
            ),
            SlotEffect::Retire { activation_id, lease, retirement } => before.push(
                EffectCall::Retire { entity_id, activation_id, lease, retirement },
            ),
            SlotEffect::Remove { .. } => before,
        }
    }
}

/// Runtime capabilities used to interpret lifecycle effects. Calls for one
/// slot occur in declared effect order.
pub trait EffectInterpreter<I, C, E, L>: Sized {
    /// The calls made so far.
    spec fn interpreted(&self) -> Seq<EffectCall<I, C, E, L>>;

    /// Start one directory-owned activation attempt.
    fn start_activation(&mut self, entity_id: EntityId<I>, activation_id: ActivationId)
        ensures
            final(self).interpreted() == old(self).interpreted().push(
                EffectCall::StartActivation { entity_id, activation_id },
            ),
    ;

    /// Start delivery to one exact-incarnation endpoint.
    fn deliver(
        &mut self,
        entity_id: EntityId<I>,
        activation_id: ActivationId,
        dispatch_id: DispatchId,
        endpoint: E,
        command: C,
    )
        ensures
            final(self).interpreted() == old(self).interpreted().push(
                EffectCall::Deliver { entity_id, activation_id, dispatch_id, endpoint, command },
            ),
    ;

    /// Return a command that was not admitted or delivered.
    fn reject(&mut self, dispatch_id: DispatchId, command: C, reason: Refusal)
        ensures
            final(self).interpreted() == old(self).interpreted().push(
                EffectCall::Reject { dispatch_id, command, reason },
            ),
    ;

    /// Enqueue an ordered processing fence for one exact incarnation.
    fn enqueue_fence(&mut self, entity_id: EntityId<I>, activation_id: ActivationId, endpoint: E)
        ensures
            final(self).interpreted() == old(self).interpreted().push(
                EffectCall::EnqueueFence { entity_id, activation_id, endpoint },
            ),
    ;

    /// Exercise exact-incarnation retirement authority.
    fn retire(
        &mut self,
        entity_id: EntityId<I>,
        activation_id: ActivationId,
        lease: L,
        retirement: RetirementMode,
    )
        ensures
            final(self).interpreted() == old(self).interpreted().push(
                EffectCall::Retire { entity_id, activation_id, lease, retirement },
            ),
    ;
}

/// The interpreter that keeps the calls for somebody to make.
pub struct EffectLog<I, C, E, L> {
    calls: Vec<EffectCall<I, C, E, L>>,
}

impl<I, C, E, L> EffectLog<I, C, E, L> {
    /// No calls yet.
    pub fn new() -> (log: Self)
        ensures
            log.interpreted() == Seq::<EffectCall<I, C, E, L>>::empty(),
    {
        EffectLog { calls: Vec::new() }
    }

    /// The calls, in order.
    pub fn into_calls(self) -> (calls: Vec<EffectCall<I, C, E, L>>)
        ensures
            calls@ == self.interpreted(),
    {
        self.calls
    }
}

impl<I, C, E, L> EffectInterpreter<I, C, E, L> for EffectLog<I, C, E, L> {
    closed spec fn interpreted(&self) -> Seq<EffectCall<I, C, E, L>> {
        self.calls@
    }

    fn start_activation(&mut self, entity_id: EntityId<I>, activation_id: ActivationId) {
        self.calls.push(EffectCall::StartActivation { entity_id, activation_id });
    }

    fn deliver(
        &mut self,
        entity_id: EntityId<I>,
        activation_id: ActivationId,
        dispatch_id: DispatchId,
        endpoint: E,
        command: C,
    ) {
        self.calls.push(
            EffectCall::Deliver { entity_id, activation_id, dispatch_id, endpoint, command },
        );
    }

    fn reject(&mut self, dispatch_id: DispatchId, command: C, reason: Refusal) {
        self.calls.push(EffectCall::Reject { dispatch_id, command, reason });
    }

    fn enqueue_fence(&mut self, entity_id: EntityId<I>, activation_id: ActivationId, endpoint: E) {
        self.calls.push(EffectCall::EnqueueFence { entity_id, activation_id, endpoint });
    }

    fn retire(
        &mut self,
        entity_id: EntityId<I>,
        activation_id: ActivationId,
        lease: L,
        retirement: RetirementMode,
    ) {
        self.calls.push(EffectCall::Retire { entity_id, activation_id, lease, retirement });
    }
}

/// Local storage for authoritative per-entity lifecycle slots. `S` hashes the
/// identities of entities.
#[verifier::reject_recursive_types(S)]
pub struct LocalDirectory<I, C, E, L, S = RandomState> {
    entries: HashMap<I, DirectorySlot<C, E, L>, S>,
    queues: HashMap<u64, Vec<SlotEffect<C, E, L>>>,
    mask: u64,
    waiter_limit: NonZeroUsize,
    next_activation: u64,
    next_dispatch: u64,
}

impl<I, C, E, L, S> View for LocalDirectory<I, C, E, L, S> {
    type V = DirectoryModel<I, C, E, L>;

    closed spec fn view(&self) -> DirectoryModel<I, C, E, L> {
        DirectoryModel {
            slots: self.entries@.map_values(|slot: DirectorySlot<C, E, L>| slot@),
            next_activation: self.next_activation,
            next_dispatch: self.next_dispatch,
            waiter_limit: self.waiter_limit,
        }
    }
}

impl<I: Clone, C, E: Clone, L, S> LocalDirectory<I, C, E, L, S> {
    /// The effects that await interpretation.
    pub closed spec fn pending(&self) -> PendingEffects<C, E, L> {
        self.queues@.map_values(|queue: Vec<SlotEffect<C, E, L>>| queue@)
    }

    /// The number of shards that the configuration asks for.
    pub closed spec fn shards(&self) -> nat {
        (self.mask + 1) as nat
    }

    /// The storage agrees with itself.
    pub closed spec fn stored(&self) -> bool {
        &&& obeys_key_model::<I>()
        &&& builds_valid_hashers::<S>()
        &&& faithful::<I>()
        &&& faithful::<E>()
        &&& self.mask < usize::MAX
        &&& is_pow2(self.mask + 1)
    }

    /// The invariant that every operation keeps.
    pub open spec fn wf(&self) -> bool {
        &&& self.stored()
        &&& self@.wf()
    }
}

/// `std::collections::HashMap::with_hasher`: an empty map that uses the given
/// hash builder.
#[verifier::external_body]
fn map_with_hasher<K, V, S>(hash_builder: S) -> (entries: HashMap<K, V, S>)
    ensures
        entries@ == (Map::<K, V>::empty()),
{
    HashMap::with_hasher(hash_builder)
}

impl DirectoryConfig {
    /// The limits of a directory that nobody configured.
    pub fn standard() -> (config: Self)
        ensures
            config.shards@ == 64,
            config.activation_waiters@ == 64,
    {
        let limit = NonZeroUsize::new(64).unwrap();
        DirectoryConfig { shards: limit, activation_waiters: limit }
    }
}

impl Default for DirectoryConfig {
    fn default() -> (config: Self)
        ensures
            config.shards@ == 64,
            config.activation_waiters@ == 64,
    {
        DirectoryConfig::standard()
    }
}

/// Whether this is what came of the creation of a directory.
pub open spec fn directory_created<I: Clone, C, E: Clone, L, S>(
    config: DirectoryConfig,
    created: Result<LocalDirectory<I, C, E, L, S>, DirectoryError<C>>,
) -> bool {
    match created {
        Ok(directory) => {
            &&& is_pow2(config.shards@ as int)
            &&& directory.wf()
            &&& directory.shards() == config.shards@
            &&& directory.pending() == Map::<u64, Seq<SlotEffect<C, E, L>>>::empty()
            &&& directory@ == (DirectoryModel::<I, C, E, L> {
                slots: Map::empty(),
                next_activation: 1,
                next_dispatch: 1,
                waiter_limit: config.activation_waiters,
            })
        },
        Err(DirectoryError::InvalidShardCount) => !is_pow2(config.shards@ as int),
        Err(_) => false,
    }
}

impl<I: Clone + Eq + Hash, C, E: Clone, L> LocalDirectory<I, C, E, L> {
    /// An empty directory with the standard randomized hash builder, unless the
    /// shard count is not a power of two.
    pub fn new(config: DirectoryConfig) -> (created: Result<Self, DirectoryError<C>>)
        requires
            obeys_key_model::<I>(),
            faithful::<I>(),
            faithful::<E>(),
        ensures
            directory_created(config, created),
    {
        let entries: HashMap<I, DirectorySlot<C, E, L>> = HashMap::new();
        Self::over(config, entries)
    }
}

impl<I: Clone + Eq + Hash, C, E: Clone, L, S: BuildHasher> LocalDirectory<I, C, E, L, S> {
    /// An empty directory with an explicit hash builder, unless the shard count
    /// is not a power of two.
    pub fn with_hasher(config: DirectoryConfig, hash_builder: S) -> (created: Result<
        Self,
        DirectoryError<C>,
    >)
        requires
            obeys_key_model::<I>(),
            builds_valid_hashers::<S>(),
            faithful::<I>(),
            faithful::<E>(),
        ensures
            directory_created(config, created),
    {
        Self::over(config, map_with_hasher(hash_builder))
    }

    /// A directory over empty storage.
    fn over(config: DirectoryConfig, entries: HashMap<I, DirectorySlot<C, E, L>, S>) -> (created:
        Result<Self, DirectoryError<C>>)
        requires
            obeys_key_model::<I>(),
            builds_valid_hashers::<S>(),
            faithful::<I>(),
            faithful::<E>(),
            entries@ == Map::<I, DirectorySlot<C, E, L>>::empty(),
        ensures
            directory_created(config, created),
    {
        let shards: usize = config.shards.get();
        if !is_power_of_two(shards) {
            return Err(DirectoryError::InvalidShardCount);
        }
        proof {
            use_type_invariant(&config.activation_waiters);
        }
        let directory = LocalDirectory {
            entries,
            queues: HashMap::new(),
            mask: (shards - 1) as u64,
            waiter_limit: config.activation_waiters,
            next_activation: 1,
            next_dispatch: 1,
        };
        assert(directory@.slots =~= Map::<I, (ActivationId, SlotModel<C, E, L>)>::empty());
        assert(directory.pending() =~= Map::<u64, Seq<SlotEffect<C, E, L>>>::empty());
        Ok(directory)
    }

    /// Queue the effects of a slot behind those that await interpretation.
    fn enqueue(&mut self, slot: ActivationId, effects: Vec<SlotEffect<C, E, L>>)
        requires
            old(self).stored(),
        ensures
            final(self).stored(),
            final(self)@ == old(self)@,
            final(self).shards() == old(self).shards(),
            final(self).pending() == enqueued(old(self).pending(), Some(slot), effects@),
    {
        let ghost before = self.pending();
        let mut later = effects;
        let key: u64 = slot.get().get();
        let mut queue: Vec<SlotEffect<C, E, L>> = match self.queues.remove(&key) {
            Some(queue) => {
                assert(before[key] == queue@);
                queue
            },
            None => Vec::new(),
        };
        queue.append(&mut later);
        self.queues.insert(key, queue);
        assert(self.pending() =~= enqueued(before, Some(slot), effects@));
    }

    /// Take everything that a slot has queued, in order of submission.
    fn dequeue(&mut self, slot: ActivationId) -> (effects: Vec<SlotEffect<C, E, L>>)
        requires
            old(self).stored(),
        ensures
            final(self).stored(),
            final(self)@ == old(self)@,
            final(self).shards() == old(self).shards(),
            effects@ == queued(old(self).pending(), slot),
            final(self).pending() == dequeued(old(self).pending(), Some(slot)),
    {
        let ghost before = self.pending();
        let key: u64 = slot.get().get();
        let effects: Vec<SlotEffect<C, E, L>> = match self.queues.remove(&key) {
            Some(queue) => {
                assert(before[key] == queue@);
                queue
            },
            None => Vec::new(),
        };
        assert(self.pending() =~= dequeued(before, Some(slot)));
        effects
    }

    /// The shard that a hash selects.
    pub fn shard_index(&self, hash: u64) -> (index: usize)
        requires
            self.wf(),
        ensures
            index == hash as int % self.shards() as int,
    {
        shard_index(hash, self.mask)
    }

    /// Submit an event to the slot of an entity. An entity that is not
    /// represented decides like an inactive slot and stays unrepresented.
    fn submit_or_inactive(&mut self, entity_id: &EntityId<I>, event: SlotEvent<C, E, L>) -> (output:
        DirectoryOutput<I, C, E, L>)
        requires
            old(self).wf(),
            event is Dispatch ==> old(self)@.state(entity_id@).load() + 1 < old(
                self,
            )@.next_dispatch,
            !(event is ClaimActivation),
        ensures
            final(self).wf(),
            final(self).shards() == old(self).shards(),
            output.decides(old(self)@, entity_id@, event),
            final(self)@ == old(self)@.submitted(entity_id@, event),
            final(self).pending() == enqueued(
                old(self).pending(),
                output.slot,
                effects_of(old(self)@.state(entity_id@), event),
            ),
    {
        let key: I = copied(entity_id.get());
        let named = EntityId::new(copied(entity_id.get()));
        let ghost before = self@;
        let ghost entries = self.entries@;
        proof {
            lemma_next_state_wf(before.state(key), event);
        }
        match self.entries.remove(&key) {
            Some(slot) => {
                let identity = slot.identity;
                assert(before.slots[key] == slot@);
                let (output, state) = slot.state.step(event);
                let ghost stepped = state@;
                let ghost id = key;
                self.entries.insert(key, DirectorySlot { identity, state });
                proof {
                    assert(self@.slots =~= before.with_state(id, stepped).slots);
                    assert(self@ =~= before.submitted(id, event));
                    lemma_submitted_wf(before, id, event);
                }
                self.enqueue(identity, output.effects);
                DirectoryOutput {
                    evidence: output.evidence,
                    activation_id: output.activation_id,
                    entity_id: named,
                    slot: Some(identity),
                    effects: Vec::new(),
                }
            },
            None => {
                assert(self.entries@ =~= entries);
                let (output, _) = EntitySlot::Inactive.step(event);
                DirectoryOutput {
                    evidence: output.evidence,
                    activation_id: output.activation_id,
                    entity_id: named,
                    slot: None,
                    effects: output.effects,
                }
            },
        }
    }

    /// Dispatch a command through the slot for `entity_id`.
    ///
    /// The first caller installs an activating slot. Others use that same slot
    /// and bounded activation attempt. The original command comes back if
    /// either identity namespace is exhausted.
    pub fn dispatch(&mut self, entity_id: EntityId<I>, command: C) -> (dispatched: Result<
        DispatchOutput<I, C, E, L>,
        DirectoryError<C>,
    >)
        requires
            old(self).wf(),
        ensures
            final(self).wf(),
            final(self).shards() == old(self).shards(),
            match dispatched {
                Err(DirectoryError::InvalidShardCount) => false,
                Err(DirectoryError::DispatchIdsExhausted(returned)) => {
                    &&& old(self)@.next_dispatch == u64::MAX
                    &&& returned == command
                    &&& final(self)@ == old(self)@
                    &&& final(self).pending() == old(self).pending()
                },
                Err(DirectoryError::ActivationIdsExhausted(returned)) => {
                    &&& old(self)@.next_dispatch < u64::MAX
                    &&& !old(self)@.slots.contains_key(entity_id@)
                    &&& old(self)@.next_activation == u64::MAX
                    &&& returned == command
                    &&& final(self)@ == old(self)@.issued()
                    &&& final(self).pending() == old(self).pending()
                },
                Ok(DispatchOutput { dispatch_id, output }) => {
                    &&& old(self)@.next_dispatch < u64::MAX
                    &&& dispatch_id@ == old(self)@.next_dispatch
                    &&& old(self)@.slots.contains_key(entity_id@) || old(self)@.next_activation
                        < u64::MAX
                    &&& output.answers(old(self)@, entity_id, dispatch_id, command)
                    &&& final(self)@ == old(self)@.dispatched(
                        entity_id@,
                        dispatch_id,
                        output.slot->0,
                        command,
                    )
                    &&& final(self).pending() == enqueued(
                        old(self).pending(),
                        output.slot,
                        effects_of(
                            old(self)@.state(entity_id@),
                            old(self)@.dispatch_event(
                                entity_id@,
                                dispatch_id,
                                output.slot->0,
                                command,
                            ),
                        ),
                    )
                },
            },
    {
        let ghost before = self@;
        let dispatch_id = match allocate(&mut self.next_dispatch) {
            Some(sequence) => DispatchId::new(sequence),
            None => {
                assert(self@ =~= before);
                return Err(DirectoryError::DispatchIdsExhausted(command));
            },
        };
        assert(self@ =~= before.issued());
        if self.entries.contains_key(entity_id.get()) {
            proof {
                let slot = before.slots[entity_id@];
                lemma_issued_wf(before);
            }
            let output = self.submit_or_inactive(
                &entity_id,
                SlotEvent::Dispatch { dispatch_id, command },
            );
            proof {
                law_identity_is_the_domain_value(output.entity_id, entity_id);
            }
            return Ok(DispatchOutput { dispatch_id, output });
        }
        let activation_id = match allocate(&mut self.next_activation) {
            Some(sequence) => ActivationId::new(sequence),
            None => {
                proof {
                    assert(self@ =~= before.issued());
                    lemma_issued_wf(before);
                }
                return Err(DirectoryError::ActivationIdsExhausted(command));
            },
        };
        let waiter_limit = self.waiter_limit;
        proof {
            use_type_invariant(&waiter_limit);
        }
        let ghost claim = SlotEvent::<C, E, L>::ClaimActivation {
            activation_id,
            dispatch_id,
            command,
            waiter_limit,
        };
        let (decided, state) = EntitySlot::Inactive.step(
            SlotEvent::ClaimActivation { activation_id, dispatch_id, command, waiter_limit },
        );
        let key: I = copied(entity_id.get());
        let ghost id = key;
        self.entries.insert(key, DirectorySlot { identity: activation_id, state });
        proof {
            let after = before.claimed(id, activation_id, dispatch_id, command);
            assert(self@.slots =~= after.slots);
            assert(self@ =~= after);
            lemma_claimed_wf(before, id, activation_id, dispatch_id, command);
        }
        self.enqueue(activation_id, decided.effects);
        Ok(
            DispatchOutput {
                dispatch_id,
                output: DirectoryOutput {
                    evidence: decided.evidence,
                    activation_id: decided.activation_id,
                    entity_id,
                    slot: Some(activation_id),
                    effects: Vec::new(),
                },
            },
        )
    }

    /// Interpret everything that is queued for the slot of an installed
    /// decision, in order of submission.
    ///
    /// Decisions of that slot that were installed later are interpreted with it,
    /// so that their own outputs find nothing left. A slot never acquires a
    /// second activation, so its identity is the exact removal authority: a
    /// decision of another slot removes nothing.
    pub fn interpret<R: EffectInterpreter<I, C, E, L>>(
        &mut self,
        output: DirectoryOutput<I, C, E, L>,
        runtime: &mut R,
    )
        requires
            old(self).wf(),
        ensures
            final(self).wf(),
            final(self).shards() == old(self).shards(),
            final(self)@ == old(self)@.interpreted(
                output.entity_id@,
                output.slot,
                output.awaiting(old(self).pending()),
            ),
            final(self).pending() == dequeued(old(self).pending(), output.slot),
            final(runtime).interpreted() == old(runtime).interpreted() + calls_of(
                output.entity_id,
                output.awaiting(old(self).pending()),
            ),
    {
        let entity_id = output.entity_id;
        let slot = output.slot;
        let effects = match slot {
            Some(identity) => self.dequeue(identity),
            None => output.effects,
        };
        let ghost left = self.pending();
        let ghost all = effects@;
        let ghost before = self@;
        let ghost made = runtime.interpreted();
        assert(made + calls_of(entity_id, all.take(0)) =~= made);
        for effect in iter: effects
            invariant
                iter.seq() == all,
                self.wf(),
                self.shards() == old(self).shards(),
                self@ == before.interpreted(entity_id@, slot, all.take(iter.index() as int)),
                self.pending() == left,
                runtime.interpreted() == made + calls_of(
                    entity_id,
                    all.take(iter.index() as int),
                ),
        {
            let ghost seen = all.take(iter.index() as int);
            proof {
                assert(all.take(iter.index() + 1) =~= seen.push(effect));
                assert(seen.push(effect).drop_last() =~= seen);
                lemma_forgets_push(seen, effect);
                lemma_calls_push(entity_id, seen, effect);
            }
            self.apply_effect(&entity_id, slot, effect, runtime);
            proof {
                assert(self@ =~= before.interpreted(entity_id@, slot, seen.push(effect)));
                assert(runtime.interpreted() =~= made + calls_of(entity_id, seen.push(effect)));
            }
        }
        proof {
            assert(all.take(all.len() as int) =~= all);
        }
    }

    /// Interpret one effect.
    fn apply_effect<R: EffectInterpreter<I, C, E, L>>(
        &mut self,
        entity_id: &EntityId<I>,
        slot: Option<ActivationId>,
        effect: SlotEffect<C, E, L>,
        runtime: &mut R,
    )
        requires
            old(self).wf(),
        ensures
            final(self).wf(),
            final(self).shards() == old(self).shards(),
            final(self)@ == old(self)@.interpreted(entity_id@, slot, seq![effect]),
            final(self).pending() == old(self).pending(),
            final(runtime).interpreted() == old(runtime).interpreted() + calls_of(
                *entity_id,
                seq![effect],
            ),
    {
        proof {
            let one = seq![effect];
            assert(one.drop_last() =~= Seq::empty());
            assert(calls_of(*entity_id, Seq::<SlotEffect<C, E, L>>::empty()) =~= Seq::<
                EffectCall<I, C, E, L>,
            >::empty());
            assert(one[0] == effect);
            assert(forgets(one) == effect is Remove);
        }
        let named = EntityId::new(copied(entity_id.get()));
        proof {
            law_identity_is_the_domain_value(named, *entity_id);
        }
        match effect {
            SlotEffect::StartActivation { activation_id } => runtime.start_activation(
                named,
                activation_id,
            ),
            SlotEffect::Deliver { activation_id, dispatch_id, endpoint, command } =>
                runtime.deliver(named, activation_id, dispatch_id, endpoint, command),
            SlotEffect::Reject { dispatch_id, command, reason } => runtime.reject(
                dispatch_id,
                command,
                reason,
            ),
            SlotEffect::EnqueueFence { activation_id, endpoint } => runtime.enqueue_fence(
                named,
                activation_id,
                endpoint,
            ),
            SlotEffect::Retire { activation_id, lease, retirement } => runtime.retire(
                named,
                activation_id,
                lease,
                retirement,
            ),
            SlotEffect::Remove { .. } => {
                if let Some(identity) = slot {
                    self.remove_matching(entity_id, identity);
                }
            },
        }
        assert(runtime.interpreted() =~= old(runtime).interpreted() + calls_of(
            *entity_id,
            seq![effect],
        ));
    }

    /// Forget the slot of an entity if it is the one with this identity.
    fn remove_matching(&mut self, entity_id: &EntityId<I>, identity: ActivationId)
        requires
            old(self).wf(),
        ensures
            final(self).wf(),
            final(self).shards() == old(self).shards(),
            final(self)@ == if old(self)@.slots.contains_key(entity_id@)
                && old(self)@.slots[entity_id@].0 == identity {
                DirectoryModel { slots: old(self)@.slots.remove(entity_id@), ..old(self)@ }
            } else {
                old(self)@
            },
            final(self).pending() == old(self).pending(),
    {
        let ghost before = self@;
        let matching = match self.entries.get(entity_id.get()) {
            Some(stored) => {
                assert(before.slots[entity_id@] == stored@);
                stored.identity == identity
            },
            None => false,
        };
        if matching {
            self.entries.remove(entity_id.get());
            proof {
                assert(self@.slots =~= before.slots.remove(entity_id@));
                lemma_removed_wf(before, entity_id@);
            }
        }
    }

    /// Submit successful exact-incarnation activation to the represented slot.
    pub fn activation_succeeded(
        &mut self,
        entity_id: &EntityId<I>,
        activation_id: ActivationId,
        endpoint: E,
        lease: L,
    ) -> (output: DirectoryOutput<I, C, E, L>)
        requires
            old(self).wf(),
        ensures
            final(self).wf(),
            final(self).shards() == old(self).shards(),
            output.decides(
                old(self)@,
                entity_id@,
                SlotEvent::ActivationSucceeded { activation_id, endpoint, lease },
            ),
            final(self)@ == old(self)@.submitted(
                entity_id@,
                SlotEvent::ActivationSucceeded { activation_id, endpoint, lease },
            ),
            final(self).pending() == enqueued(
                old(self).pending(),
                output.slot,
                effects_of(
                    old(self)@.state(entity_id@),
                    SlotEvent::ActivationSucceeded { activation_id, endpoint, lease },
                ),
            ),
    {
        self.submit_or_inactive(
            entity_id,
            SlotEvent::ActivationSucceeded { activation_id, endpoint, lease },
        )
    }

    /// Submit a failed activation attempt to the represented slot.
    pub fn activation_failed(&mut self, entity_id: &EntityId<I>, activation_id: ActivationId) -> (
    output: DirectoryOutput<I, C, E, L>)
        requires
            old(self).wf(),
        ensures
            final(self).wf(),
            final(self).shards() == old(self).shards(),
            output.decides(old(self)@, entity_id@, SlotEvent::ActivationFailed { activation_id }),
            final(self)@ == old(self)@.submitted(
                entity_id@,
                SlotEvent::ActivationFailed { activation_id },
            ),
            final(self).pending() == enqueued(
                old(self).pending(),
                output.slot,
                effects_of(
                    old(self)@.state(entity_id@),
                    SlotEvent::ActivationFailed { activation_id },
                ),
            ),
    {
        self.submit_or_inactive(entity_id, SlotEvent::ActivationFailed { activation_id })
    }

    /// Cancel one bounded activation waiter.
    pub fn cancel_waiter(
        &mut self,
        entity_id: &EntityId<I>,
        activation_id: ActivationId,
        dispatch_id: DispatchId,
    ) -> (output: DirectoryOutput<I, C, E, L>)
        requires
            old(self).wf(),
        ensures
            final(self).wf(),
            final(self).shards() == old(self).shards(),
            output.decides(
                old(self)@,
                entity_id@,
                SlotEvent::CancelWaiter { activation_id, dispatch_id },
            ),
            final(self)@ == old(self)@.submitted(
                entity_id@,
                SlotEvent::CancelWaiter { activation_id, dispatch_id },
            ),
            final(self).pending() == enqueued(
                old(self).pending(),
                output.slot,
                effects_of(
                    old(self)@.state(entity_id@),
                    SlotEvent::CancelWaiter { activation_id, dispatch_id },
                ),
            ),
    {
        self.submit_or_inactive(entity_id, SlotEvent::CancelWaiter { activation_id, dispatch_id })
    }

    /// Resolve one previously admitted exact-incarnation delivery.
    pub fn delivery_resolved(
        &mut self,
        entity_id: &EntityId<I>,
        activation_id: ActivationId,
        failure: Option<(DispatchId, C)>,
    ) -> (output: DirectoryOutput<I, C, E, L>)
        requires
            old(self).wf(),
        ensures
            final(self).wf(),
            final(self).shards() == old(self).shards(),
            output.decides(
                old(self)@,
                entity_id@,
                SlotEvent::DeliveryResolved { activation_id, failure },
            ),
            final(self)@ == old(self)@.submitted(
                entity_id@,
                SlotEvent::DeliveryResolved { activation_id, failure },
            ),
            final(self).pending() == enqueued(
                old(self).pending(),
                output.slot,
                effects_of(
                    old(self)@.state(entity_id@),
                    SlotEvent::DeliveryResolved { activation_id, failure },
                ),
            ),
    {
        self.submit_or_inactive(entity_id, SlotEvent::DeliveryResolved { activation_id, failure })
    }

    /// Close admission for an exact active incarnation.
    pub fn begin_drain(&mut self, entity_id: &EntityId<I>, activation_id: ActivationId) -> (output:
        DirectoryOutput<I, C, E, L>)
        requires
            old(self).wf(),
        ensures
            final(self).wf(),
            final(self).shards() == old(self).shards(),
            output.decides(old(self)@, entity_id@, SlotEvent::BeginDrain { activation_id }),
            final(self)@ == old(self)@.submitted(
                entity_id@,
                SlotEvent::BeginDrain { activation_id },
            ),
            final(self).pending() == enqueued(
                old(self).pending(),
                output.slot,
                effects_of(
                    old(self)@.state(entity_id@),
                    SlotEvent::BeginDrain { activation_id },
                ),
            ),
    {
        self.submit_or_inactive(entity_id, SlotEvent::BeginDrain { activation_id })
    }

    /// Submit acknowledgement of the ordered processing fence.
    pub fn fence_acknowledged(&mut self, entity_id: &EntityId<I>, activation_id: ActivationId) -> (
    output: DirectoryOutput<I, C, E, L>)
        requires
            old(self).wf(),
        ensures
            final(self).wf(),
            final(self).shards() == old(self).shards(),
            output.decides(old(self)@, entity_id@, SlotEvent::FenceAcknowledged { activation_id }),
            final(self)@ == old(self)@.submitted(
                entity_id@,
                SlotEvent::FenceAcknowledged { activation_id },
            ),
            final(self).pending() == enqueued(
                old(self).pending(),
                output.slot,
                effects_of(
                    old(self)@.state(entity_id@),
                    SlotEvent::FenceAcknowledged { activation_id },
                ),
            ),
    {
        self.submit_or_inactive(entity_id, SlotEvent::FenceAcknowledged { activation_id })
    }

    /// Force a bounded drain to retirement with its exact failure stage.
    pub fn force_drain(
        &mut self,
        entity_id: &EntityId<I>,
        activation_id: ActivationId,
        failure: DrainFailure,
    ) -> (output: DirectoryOutput<I, C, E, L>)
        requires
            old(self).wf(),
        ensures
            final(self).wf(),
            final(self).shards() == old(self).shards(),
            output.decides(
                old(self)@,
                entity_id@,
                SlotEvent::ForceDrain { activation_id, failure },
            ),
            final(self)@ == old(self)@.submitted(
                entity_id@,
                SlotEvent::ForceDrain { activation_id, failure },
            ),
            final(self).pending() == enqueued(
                old(self).pending(),
                output.slot,
                effects_of(
                    old(self)@.state(entity_id@),
                    SlotEvent::ForceDrain { activation_id, failure },
                ),
            ),
    {
        self.submit_or_inactive(entity_id, SlotEvent::ForceDrain { activation_id, failure })
    }

    /// Submit an exact-incarnation termination observation.
    pub fn terminated(&mut self, entity_id: &EntityId<I>, activation_id: ActivationId) -> (output:
        DirectoryOutput<I, C, E, L>)
        requires
            old(self).wf(),
        ensures
            final(self).wf(),
            final(self).shards() == old(self).shards(),
            output.decides(old(self)@, entity_id@, SlotEvent::Terminated { activation_id }),
            final(self)@ == old(self)@.submitted(
                entity_id@,
                SlotEvent::Terminated { activation_id },
            ),
            final(self).pending() == enqueued(
                old(self).pending(),
                output.slot,
                effects_of(
                    old(self)@.state(entity_id@),
                    SlotEvent::Terminated { activation_id },
                ),
            ),
    {
        self.submit_or_inactive(entity_id, SlotEvent::Terminated { activation_id })
    }

    /// The number of represented slots.
    pub fn len(&self) -> (count: usize)
        requires
            self.wf(),
        ensures
            count == self@.slots.len(),
    {
        assert(self@.slots.dom() =~= self.entries@.dom());
        self.entries.len()
    }

    /// Whether no slot is represented.
    pub fn is_empty(&self) -> (empty: bool)
        requires
            self.wf(),
        ensures
            empty == (self@.slots.len() == 0),
    {
        self.len() == 0
    }

    /// The activation that the slot of an entity is about.
    pub fn current_activation(&self, entity_id: &EntityId<I>) -> (activation_id: Option<
        ActivationId,
    >)
        requires
            self.wf(),
        ensures
            activation_id == self@.state(entity_id@).activation(),
    {
        match self.entries.get(entity_id.get()) {
            Some(slot) => {
                assert(self@.slots[entity_id@] == slot@);
                slot.state.activation_id()
            },
            None => None,
        }
    }

    /// Install a drain request for every currently represented incarnation.
    ///
    /// Each request names the exact activation, so that a stale output cannot
    /// drain a replacement incarnation.
    pub fn begin_family_drain(&mut self) -> (outputs: Vec<DirectoryOutput<I, C, E, L>>)
        requires
            old(self).wf(),
        ensures
            final(self).wf(),
            final(self).shards() == old(self).shards(),
            final(self)@ == old(self)@.drained(),
            drains(outputs@, old(self)@),
            final(self).pending() == drain_pending(old(self).pending(), old(self)@, outputs@),
    {
        let ghost before = self@;
        let found = self.represented();
        let mut outputs: Vec<DirectoryOutput<I, C, E, L>> = Vec::new();
        let mut i: usize = 0;
        while i < found.len()
            invariant
                i <= found@.len(),
                self.wf(),
                self.shards() == old(self).shards(),
                before == old(self)@,
                before.wf(),
                represents(found@, before),
                self@.next_activation == before.next_activation,
                self@.next_dispatch == before.next_dispatch,
                self@.waiter_limit == before.waiter_limit,
                self@.slots.dom() == before.slots.dom(),
                forall|id: I| #[trigger]
                    before.slots.contains_key(id) ==> self@.slots[id] == if lists(
                        found@.take(i as int),
                        id,
                    ) {
                        (before.slots[id].0, drained_state(before.slots[id].1))
                    } else {
                        before.slots[id]
                    },
                outputs@.len() == i,
                forall|k: int|
                    0 <= k < i ==> (#[trigger] outputs@[k]).decides(
                        before,
                        found@[k].0,
                        SlotEvent::BeginDrain { activation_id: found@[k].1 },
                    ),
                self.pending() == drain_pending(old(self).pending(), before, outputs@),
            decreases found@.len() - i,
        {
            let activation_id = found[i].1;
            let entity_id = EntityId::new(copied(&found[i].0));
            let ghost key = entity_id@;
            let ghost current = self@;
            let ghost decided = outputs@;
            proof {
                assert(before.slots.contains_key(found@[i as int].0));
                assert(!lists(found@.take(i as int), key)) by {
                    if lists(found@.take(i as int), key) {
                        let j = choose|j: int|
                            0 <= j < i && (#[trigger] found@.take(i as int)[j]).0 == key;
                        assert(found@[j].0 == key);
                    }
                }
                assert(current.slots.contains_key(key));
            }
            let output = self.begin_drain(&entity_id, activation_id);
            outputs.push(output);
            proof {
                assert(outputs@.drop_last() =~= decided);
                assert(current.state(key) == before.state(key));
                let next = found@.take(i + 1);
                assert(next =~= found@.take(i as int).push(found@[i as int]));
                assert(self@.slots.dom() =~= before.slots.dom());
                assert forall|id: I| #[trigger] before.slots.contains_key(id) implies self@.slots[id]
                    == if lists(next, id) {
                    (before.slots[id].0, drained_state(before.slots[id].1))
                } else {
                    before.slots[id]
                } by {
                    lemma_lists_push(found@.take(i as int), found@[i as int], id);
                }
            }
            i = i + 1;
        }
        proof {
            assert(found@.take(i as int) =~= found@);
            assert forall|id: I| #[trigger] before.slots.contains_key(id) implies self@.slots[id]
                == before.drained().slots[id] by {
                if !lists(found@, id) {
                    assert(before.state(id).activation() is None);
                }
            }
            assert(self@.slots =~= before.drained().slots);
            assert forall|id: I| before.state(id).activation() is Some implies #[trigger] drained_once(
                outputs@,
                id,
            ) by {
                assert(lists(found@, id));
                let j = choose|j: int| 0 <= j < found@.len() && (#[trigger] found@[j]).0 == id;
                assert(outputs@[j].entity_id@ == id);
            }
            assert forall|k: int| 0 <= k < outputs@.len() implies {
                let id = (#[trigger] outputs@[k]).entity_id@;
                &&& before.state(id).activation() is Some
                &&& outputs@[k].decides(
                    before,
                    id,
                    SlotEvent::BeginDrain { activation_id: before.state(id).activation()->0 },
                )
            } by {
                assert(before.slots.contains_key(found@[k].0));
            }
            assert forall|a: int, b: int| 0 <= a < b < outputs@.len() implies (
            #[trigger] outputs@[a]).entity_id@ != (#[trigger] outputs@[b]).entity_id@ by {
                assert(found@[a].0 != found@[b].0);
            }
        }
        outputs
    }

    /// The entities that have an activation, each once.
    fn represented(&self) -> (found: Vec<(I, ActivationId)>)
        requires
            self.wf(),
        ensures
            represents(found@, self@),
    {
        let mut found: Vec<(I, ActivationId)> = Vec::new();
        let ghost keys = self.entries.keys().remaining();
        for key in iter: self.entries.keys()
            invariant
                self.wf(),
                iter.seq() == keys,
                keys == vstd::std_specs::hash::spec_keys_iter(&self.entries).remaining(),
                sound(found@, self@),
                forall|j: int|
                    0 <= j < found@.len() ==> among(
                        keys,
                        iter.index() as int,
                        (#[trigger] found@[j]).0,
                    ),
                forall|i: int|
                    0 <= i < iter.index() && self@.state(*(#[trigger] keys[i])).activation() is Some
                        ==> lists(found@, *keys[i]),
        {
            let ghost before = found@;
            let ghost n = iter.index() as int;
            assert(key == keys[n]);
            proof {
                assert forall|j: int| 0 <= j < before.len() implies (#[trigger] before[j]).0
                    != *key && among(keys, n + 1, before[j].0) by {
                    let i = choose|i: int| 0 <= i < n && *(#[trigger] keys[i]) == before[j].0;
                    assert(*keys[i] == before[j].0);
                }
            }
            if let Some(slot) = self.entries.get(key) {
                assert(self@.slots[*key] == slot@);
                if let Some(activation_id) = slot.state.activation_id() {
                    found.push((copied(key), activation_id));
                    proof {
                        assert(found@[before.len() as int].0 == *key);
                        assert(among(keys, n + 1, *key));
                    }
                }
            }
            proof {
                assert forall|i: int|
                    0 <= i < n + 1 && self@.state(*(#[trigger] keys[i])).activation() is Some implies lists(
                    found@,
                    *keys[i],
                ) by {
                    if i < n {
                        let j = choose|j: int|
                            0 <= j < before.len() && (#[trigger] before[j]).0 == *keys[i];
                        assert(found@[j].0 == *keys[i]);
                    } else {
                        assert(found@[before.len() as int].0 == *keys[i]);
                    }
                }
            }
        }
        proof {
            assert forall|id: I| self@.state(id).activation() is Some implies #[trigger] lists(
                found@,
                id,
            ) by {
                assert(self.entries@.contains_key(id));
                assert(keys.unref().to_set().contains(id));
                let i = choose|i: int| 0 <= i < keys.unref().len() && keys.unref()[i] == id;
                assert(*keys[i] == id);
            }
        }
        found
    }
}

/// The effects of a drain request for the incarnation of a slot.
pub open spec fn drain_effects<C, E, L>(state: SlotModel<C, E, L>) -> Seq<SlotEffect<C, E, L>> {
    match state.activation() {
        Some(activation_id) => effects_of(state, SlotEvent::BeginDrain { activation_id }),
        None => Seq::empty(),
    }
}

/// What awaits interpretation after the drain requests of a family.
pub open spec fn drain_pending<I, C, E, L>(
    pending: PendingEffects<C, E, L>,
    directory: DirectoryModel<I, C, E, L>,
    outputs: Seq<DirectoryOutput<I, C, E, L>>,
) -> PendingEffects<C, E, L>
    decreases outputs.len(),
{
    if outputs.len() == 0 {
        pending
    } else {
        enqueued(
            drain_pending(pending, directory, outputs.drop_last()),
            outputs.last().slot,
            drain_effects(directory.state(outputs.last().entity_id@)),
        )
    }
}

/// Whether there is a decision about `id`.
pub open spec fn drained_once<I, C, E, L>(
    outputs: Seq<DirectoryOutput<I, C, E, L>>,
    id: I,
) -> bool {
    exists|k: int| 0 <= k < outputs.len() && (#[trigger] outputs[k]).entity_id@ == id
}

/// Whether the outputs are the decisions of one drain request for each
/// incarnation that the directory represents, in whatever order.
pub open spec fn drains<I, C, E, L>(
    outputs: Seq<DirectoryOutput<I, C, E, L>>,
    directory: DirectoryModel<I, C, E, L>,
) -> bool {
    &&& forall|k: int|
        0 <= k < outputs.len() ==> {
            let id = (#[trigger] outputs[k]).entity_id@;
            &&& directory.state(id).activation() is Some
            &&& outputs[k].decides(
                directory,
                id,
                SlotEvent::BeginDrain { activation_id: directory.state(id).activation()->0 },
            )
        }
    &&& forall|a: int, b: int|
        0 <= a < b < outputs.len() ==> (#[trigger] outputs[a]).entity_id@ != (
        #[trigger] outputs[b]).entity_id@
    &&& forall|id: I|
        directory.state(id).activation() is Some ==> #[trigger] drained_once(outputs, id)
}

/// One more entry lists its own entity.
proof fn lemma_lists_push<I>(found: Seq<(I, ActivationId)>, entry: (I, ActivationId), id: I)
    ensures
        lists(found.push(entry), id) == (lists(found, id) || entry.0 == id),
{
    let all = found.push(entry);
    if lists(found, id) {
        let j = choose|j: int| 0 <= j < found.len() && (#[trigger] found[j]).0 == id;
        assert(all[j].0 == id);
    }
    if entry.0 == id {
        assert(all[found.len() as int].0 == id);
    }
    if lists(all, id) {
        let j = choose|j: int| 0 <= j < all.len() && (#[trigger] all[j]).0 == id;
        if j < found.len() {
            assert(found[j].0 == id);
        }
    }
}

/// Whether `id` is among the first `n` keys.
spec fn among<I>(keys: Seq<&I>, n: int, id: I) -> bool {
    exists|i: int| 0 <= i < n && *(#[trigger] keys[i]) == id
}

/// Whether `id` is listed.
spec fn lists<I>(found: Seq<(I, ActivationId)>, id: I) -> bool {
    exists|j: int| 0 <= j < found.len() && (#[trigger] found[j]).0 == id
}

/// Whether what is listed has the activation given, and nothing is listed twice.
spec fn sound<I, C, E, L>(
    found: Seq<(I, ActivationId)>,
    directory: DirectoryModel<I, C, E, L>,
) -> bool {
    &&& forall|j: int|
        0 <= j < found.len() ==> directory.slots.contains_key((#[trigger] found[j]).0)
            && directory.state(found[j].0).activation() == Some(found[j].1)
    &&& forall|a: int, b: int|
        0 <= a < b < found.len() ==> (#[trigger] found[a]).0 != (#[trigger] found[b]).0
}

/// Whether exactly the entities with an activation are listed, each once.
spec fn represents<I, C, E, L>(
    found: Seq<(I, ActivationId)>,
    directory: DirectoryModel<I, C, E, L>,
) -> bool {
    &&& sound(found, directory)
    &&& forall|id: I| directory.state(id).activation() is Some ==> #[trigger] lists(found, id)
}

/// The next identity of a monotonic sequence, which never wraps: the last value
/// is never handed out.
fn allocate(sequence: &mut u64) -> (allocated: Option<NonZeroU64>)
    requires
        *old(sequence) >= 1,
    ensures
        match allocated {
            Some(n) => *old(sequence) < u64::MAX && n@ == *old(sequence) && *final(sequence)
                == *old(sequence) + 1,
            None => *old(sequence) == u64::MAX && *final(sequence) == *old(sequence),
        },
{
    match sequence.checked_add(1) {
        Some(next) => {
            let allocated = NonZeroU64::new(*sequence);
            *sequence = next;
            allocated
        },
        None => None,
    }
}

/// What two decisions ask for is what the earlier one does and then what the
/// later one does.
proof fn lemma_calls_add<I, C, E, L>(
    entity_id: EntityId<I>,
    earlier: Seq<SlotEffect<C, E, L>>,
    later: Seq<SlotEffect<C, E, L>>,
)
    ensures
        calls_of(entity_id, earlier + later) == calls_of(entity_id, earlier) + calls_of(
            entity_id,
            later,
        ),
    decreases later.len(),
{
    if later.len() == 0 {
        assert(earlier + later =~= earlier);
        assert(calls_of(entity_id, later) =~= Seq::empty());
    } else {
        lemma_calls_add(entity_id, earlier, later.drop_last());
        assert((earlier + later).drop_last() =~= earlier + later.drop_last());
        assert((earlier + later).last() == later.last());
    }
    assert(calls_of(entity_id, earlier + later) =~= calls_of(entity_id, earlier) + calls_of(
        entity_id,
        later,
    ));
}

/// The effects of one slot are interpreted in order of submission: if a decision
/// was queued when another one is, the calls of the first precede those of the
/// second, whichever of the two outputs is interpreted.
pub proof fn law_effects_follow_the_order_of_submission<I, C, E, L>(
    pending: PendingEffects<C, E, L>,
    entity_id: EntityId<I>,
    slot: ActivationId,
    earlier: Seq<SlotEffect<C, E, L>>,
    later: Seq<SlotEffect<C, E, L>>,
)
    ensures
        ({
            let both = enqueued(enqueued(pending, Some(slot), earlier), Some(slot), later);
            calls_of(entity_id, queued(both, slot)) == calls_of(entity_id, queued(pending, slot))
                + calls_of(entity_id, earlier) + calls_of(entity_id, later)
        }),
{
    let before = queued(pending, slot);
    lemma_calls_add(entity_id, before + earlier, later);
    lemma_calls_add(entity_id, before, earlier);
}

/// What is queued for one slot is interpreted once, and apart from every other
/// slot: afterwards nothing is left of it, and the others keep theirs.
pub proof fn law_effects_are_interpreted_once<C, E, L>(
    pending: PendingEffects<C, E, L>,
    slot: ActivationId,
    other: ActivationId,
    effects: Seq<SlotEffect<C, E, L>>,
)
    requires
        slot@ != other@,
    ensures
        queued(dequeued(pending, Some(slot)), slot).len() == 0,
        queued(dequeued(pending, Some(slot)), other) == queued(pending, other),
        queued(enqueued(pending, Some(slot), effects), other) == queued(pending, other),
{
}

/// One more effect forgets the slot if it did before or if it says so itself.
proof fn lemma_forgets_push<C, E, L>(effects: Seq<SlotEffect<C, E, L>>, effect: SlotEffect<C, E, L>)
    ensures
        forgets(effects.push(effect)) == (forgets(effects) || effect is Remove),
{
    let all = effects.push(effect);
    if forgets(effects) {
        let i = choose|i: int| 0 <= i < effects.len() && (#[trigger] effects[i]) is Remove;
        assert(all[i] is Remove);
    }
    if effect is Remove {
        assert(all[effects.len() as int] is Remove);
    }
    if forgets(all) {
        let i = choose|i: int| 0 <= i < all.len() && (#[trigger] all[i]) is Remove;
        if i < effects.len() {
            assert(effects[i] is Remove);
        }
    }
}

/// One more effect asks for its own call after the others.
proof fn lemma_calls_push<I, C, E, L>(
    entity_id: EntityId<I>,
    effects: Seq<SlotEffect<C, E, L>>,
    effect: SlotEffect<C, E, L>,
)
    ensures
        calls_of(entity_id, effects.push(effect)) == calls_of(entity_id, effects) + calls_of(
            entity_id,
            seq![effect],
        ),
{
    let one = seq![effect];
    assert(effects.push(effect).drop_last() =~= effects);
    assert(one.drop_last() =~= Seq::empty());
    assert(calls_of(entity_id, one.drop_last()) =~= Seq::empty());
    assert(calls_of(entity_id, effects.push(effect)) =~= calls_of(entity_id, effects) + calls_of(
        entity_id,
        one,
    ));
}

/// Handing out a dispatch identity keeps the directory well formed.
proof fn lemma_issued_wf<I, C, E, L>(directory: DirectoryModel<I, C, E, L>)
    requires
        directory.wf(),
        directory.next_dispatch < u64::MAX,
    ensures
        directory.issued().wf(),
{
    let after = directory.issued();
    assert forall|id: I|
        #![trigger after.slots[id]]
        after.slots.contains_key(id) implies {
        let (identity, state) = after.slots[id];
        &&& identity@ < after.next_activation
        &&& state.wf()
        &&& state.activation() is Some ==> state.activation() == Some(identity)
        &&& state.load() < after.next_dispatch
    } by {
        let unchanged = directory.slots[id];
    }
}

/// Claiming an activation keeps the directory well formed.
proof fn lemma_claimed_wf<I, C, E, L>(
    directory: DirectoryModel<I, C, E, L>,
    id: I,
    activation_id: ActivationId,
    dispatch_id: DispatchId,
    command: C,
)
    requires
        directory.wf(),
        !directory.slots.contains_key(id),
        activation_id@ == directory.next_activation,
        directory.next_activation < u64::MAX,
        directory.next_dispatch < u64::MAX,
    ensures
        directory.claimed(id, activation_id, dispatch_id, command).wf(),
{
    let after = directory.claimed(id, activation_id, dispatch_id, command);
    assert forall|other: I|
        #![trigger after.slots[other]]
        after.slots.contains_key(other) implies {
        let (identity, state) = after.slots[other];
        &&& identity@ < after.next_activation
        &&& state.wf()
        &&& state.activation() is Some ==> state.activation() == Some(identity)
        &&& state.load() < after.next_dispatch
    } by {
        if other != id {
            let unchanged = directory.slots[other];
        }
    }
    assert forall|a: I, b: I|
        #![trigger after.slots[a], after.slots[b]]
        after.slots.contains_key(a) && after.slots.contains_key(b) && after.slots[a].0
            == after.slots[b].0 implies a == b by {
        if a != id {
            let unchanged = directory.slots[a];
        }
        if b != id {
            let unchanged = directory.slots[b];
        }
    }
}

/// Forgetting a slot keeps the directory well formed.
proof fn lemma_removed_wf<I, C, E, L>(directory: DirectoryModel<I, C, E, L>, id: I)
    requires
        directory.wf(),
    ensures
        (DirectoryModel { slots: directory.slots.remove(id), ..directory }).wf(),
{
    let after = DirectoryModel { slots: directory.slots.remove(id), ..directory };
    assert forall|other: I|
        #![trigger after.slots[other]]
        after.slots.contains_key(other) implies {
        let (identity, state) = after.slots[other];
        &&& identity@ < after.next_activation
        &&& state.wf()
        &&& state.activation() is Some ==> state.activation() == Some(identity)
        &&& state.load() < after.next_dispatch
    } by {
        let unchanged = directory.slots[other];
    }
    assert forall|a: I, b: I|
        #![trigger after.slots[a], after.slots[b]]
        after.slots.contains_key(a) && after.slots.contains_key(b) && after.slots[a].0
            == after.slots[b].0 implies a == b by {
        let unchanged = (directory.slots[a], directory.slots[b]);
    }
}

/// An event keeps the directory well formed.
proof fn lemma_submitted_wf<I, C, E, L>(
    directory: DirectoryModel<I, C, E, L>,
    id: I,
    event: SlotEvent<C, E, L>,
)
    requires
        directory.wf(),
        event is Dispatch ==> directory.state(id).load() + 1 < directory.next_dispatch,
        !(event is ClaimActivation),
    ensures
        directory.submitted(id, event).wf(),
{
    let after = directory.submitted(id, event);
    if directory.slots.contains_key(id) {
        let (identity, state) = directory.slots[id];
        lemma_next_state_wf(state, event);
        assert(after.slots.dom() =~= directory.slots.dom());
        assert forall|other: I|
            #![trigger after.slots[other]]
            after.slots.contains_key(other) implies {
            let (identity, state) = after.slots[other];
            &&& identity@ < after.next_activation
            &&& state.wf()
            &&& state.activation() is Some ==> state.activation() == Some(identity)
            &&& state.load() < after.next_dispatch
        } by {
            assert(directory.slots.contains_key(other));
            let unchanged = directory.slots[other];
        }
        assert forall|a: I, b: I|
            #![trigger after.slots[a], after.slots[b]]
            after.slots.contains_key(a) && after.slots.contains_key(b) && after.slots[a].0
                == after.slots[b].0 implies a == b by {
            assert(directory.slots[a].0 == after.slots[a].0);
            assert(directory.slots[b].0 == after.slots[b].0);
        }
    }
}

/// An entity is in the state of the slot that represents it, and inactive if
/// none does.
pub proof fn law_an_entity_is_what_its_slot_is<I, C, E, L>(
    directory: DirectoryModel<I, C, E, L>,
    id: I,
)
    ensures
        directory.slots.contains_key(id) ==> directory.state(id) == directory.slots[id].1,
        !directory.slots.contains_key(id) ==> directory.state(id) is Inactive,
{
}

/// An event reaches the slot of its entity and no other: that slot keeps its
/// identity and takes the step, and nothing else of the directory changes. An
/// event for an entity that is not represented changes nothing.
pub proof fn law_an_event_reaches_one_slot<I, C, E, L>(
    directory: DirectoryModel<I, C, E, L>,
    id: I,
    event: SlotEvent<C, E, L>,
)
    ensures
        ({
            let after = directory.submitted(id, event);
            &&& after.next_activation == directory.next_activation
            &&& after.next_dispatch == directory.next_dispatch
            &&& after.waiter_limit == directory.waiter_limit
            &&& after.slots.dom() == directory.slots.dom()
            &&& after.slots.remove(id) == directory.slots.remove(id)
            &&& directory.slots.contains_key(id) ==> after.slots[id] == (
                directory.slots[id].0,
                next_state(directory.slots[id].1, event),
            )
        }),
{
    let after = directory.submitted(id, event);
    assert(after.slots.dom() =~= directory.slots.dom());
    assert(after.slots.remove(id) =~= directory.slots.remove(id));
}

/// The first command for an entity claims a fresh activation, which retains it,
/// and takes one identity of each kind. Every other entity stays as it is.
pub proof fn law_a_first_command_claims_an_activation<I, C, E, L>(
    directory: DirectoryModel<I, C, E, L>,
    id: I,
    dispatch_id: DispatchId,
    fresh: ActivationId,
    command: C,
)
    requires
        !directory.slots.contains_key(id),
        directory.next_activation < u64::MAX,
        directory.next_dispatch < u64::MAX,
    ensures
        directory.dispatch_event(id, dispatch_id, fresh, command) == (SlotEvent::<
            C,
            E,
            L,
        >::ClaimActivation {
            activation_id: fresh,
            dispatch_id,
            command,
            waiter_limit: directory.waiter_limit,
        }),
        ({
            let after = directory.dispatched(id, dispatch_id, fresh, command);
            &&& after.next_activation == directory.next_activation + 1
            &&& after.next_dispatch == directory.next_dispatch + 1
            &&& after.waiter_limit == directory.waiter_limit
            &&& after.slots.contains_key(id)
            &&& after.slots[id] == (
                fresh,
                SlotModel::<C, E, L>::Activating {
                    activation_id: fresh,
                    limit: directory.waiter_limit@ as nat,
                    waiters: seq![Waiting { dispatch_id, command }],
                },
            )
            &&& after.slots.remove(id) == directory.slots
        }),
{
    assert(directory.dispatched(id, dispatch_id, fresh, command).slots.remove(id)
        =~= directory.slots);
}

/// A further command is dispatched to the slot that represents its entity. It
/// takes a dispatch identity and no activation, and no other entity changes.
pub proof fn law_a_further_command_reaches_the_slot<I, C, E, L>(
    directory: DirectoryModel<I, C, E, L>,
    id: I,
    dispatch_id: DispatchId,
    fresh: ActivationId,
    command: C,
)
    requires
        directory.slots.contains_key(id),
        directory.next_dispatch < u64::MAX,
    ensures
        directory.dispatch_event(id, dispatch_id, fresh, command) == (SlotEvent::<
            C,
            E,
            L,
        >::Dispatch { dispatch_id, command }),
        ({
            let after = directory.dispatched(id, dispatch_id, fresh, command);
            &&& after.next_activation == directory.next_activation
            &&& after.next_dispatch == directory.next_dispatch + 1
            &&& after.waiter_limit == directory.waiter_limit
            &&& after.slots.dom() == directory.slots.dom()
            &&& after.slots.remove(id) == directory.slots.remove(id)
            &&& after.slots[id] == (
                directory.slots[id].0,
                next_state(
                    directory.slots[id].1,
                    SlotEvent::<C, E, L>::Dispatch { dispatch_id, command },
                ),
            )
        }),
{
    let after = directory.dispatched(id, dispatch_id, fresh, command);
    assert(after.slots.dom() =~= directory.slots.dom());
    assert(after.slots.remove(id) =~= directory.slots.remove(id));
}

/// A slot is forgotten by a decision of its own that removes it, and by nothing
/// else: a decision without a removal, one of another slot and one of none leave
/// the directory as it is.
pub proof fn law_a_slot_is_forgotten_by_its_own_decision<I, C, E, L>(
    directory: DirectoryModel<I, C, E, L>,
    id: I,
    slot: Option<ActivationId>,
    effects: Seq<SlotEffect<C, E, L>>,
    i: int,
)
    ensures
        0 <= i < effects.len() && effects[i] is Remove && directory.slots.contains_key(id) && slot
            == Some(directory.slots[id].0) ==> directory.interpreted(id, slot, effects) == (
        DirectoryModel { slots: directory.slots.remove(id), ..directory }),
        (forall|j: int| 0 <= j < effects.len() ==> !((#[trigger] effects[j]) is Remove))
            ==> directory.interpreted(id, slot, effects) == directory,
        directory.slots.contains_key(id) && slot != Some(directory.slots[id].0)
            ==> directory.interpreted(id, slot, effects) == directory,
        !directory.slots.contains_key(id) ==> directory.interpreted(id, slot, effects)
            == directory,
{
    if 0 <= i < effects.len() && effects[i] is Remove {
        assert(forgets(effects));
    }
}

/// Draining a family closes every active incarnation and leaves every other
/// slot, every slot's identity and everything else as it is. The fence of an
/// incarnation with nothing outstanding goes in at once.
pub proof fn law_a_family_drains_every_incarnation<I, C, E, L>(
    directory: DirectoryModel<I, C, E, L>,
    id: I,
)
    requires
        directory.slots.contains_key(id),
    ensures
        ({
            let after = directory.drained();
            let (identity, state) = directory.slots[id];
            &&& after.slots.dom() == directory.slots.dom()
            &&& after.next_activation == directory.next_activation
            &&& after.next_dispatch == directory.next_dispatch
            &&& after.waiter_limit == directory.waiter_limit
            &&& after.slots[id].0 == identity
            &&& match state {
                SlotModel::Active { activation_id, endpoint, lease, outstanding } => {
                    &&& after.slots[id].1 == (SlotModel::<C, E, L>::Draining {
                        activation_id,
                        endpoint,
                        lease,
                        outstanding,
                    })
                    &&& outstanding == 0 ==> drain_effects(state) == seq![
                        SlotEffect::<C, E, L>::EnqueueFence { activation_id, endpoint },
                    ]
                    &&& outstanding > 0 ==> drain_effects(state).len() == 0
                },
                _ => after.slots[id].1 == state && drain_effects(state).len() == 0,
            }
        }),
{
    assert(directory.drained().slots.dom() =~= directory.slots.dom());
}

/// A decision of a slot is queued behind what the slot has queued already, and
/// one of no slot is not queued. A fresh queue holds nothing.
pub proof fn law_a_decision_is_queued_with_its_slot<C, E, L>(
    pending: PendingEffects<C, E, L>,
    slot: ActivationId,
    effects: Seq<SlotEffect<C, E, L>>,
)
    ensures
        queued(enqueued(pending, Some(slot), effects), slot) == queued(pending, slot) + effects,
        enqueued(pending, None, effects) == pending,
        dequeued(pending, None) == pending,
        pending.contains_key(slot@) ==> queued(pending, slot) == pending[slot@],
        !pending.contains_key(slot@) ==> queued(pending, slot).len() == 0,
{
}

/// Every effect but the removal of a slot is one call of the runtime, with all
/// that the effect carries and for the entity that it is about, in order.
pub proof fn law_every_effect_is_one_call<I, C, E, L>(
    entity_id: EntityId<I>,
    effects: Seq<SlotEffect<C, E, L>>,
    effect: SlotEffect<C, E, L>,
)
    ensures
        calls_of(entity_id, Seq::<SlotEffect<C, E, L>>::empty()).len() == 0,
        ({
            let before = calls_of(entity_id, effects);
            let after = calls_of(entity_id, effects.push(effect));
            match effect {
                SlotEffect::StartActivation { activation_id } => after == before.push(
                    EffectCall::<I, C, E, L>::StartActivation { entity_id, activation_id },
                ),
                SlotEffect::Deliver { activation_id, dispatch_id, endpoint, command } => after
                    == before.push(
                    EffectCall::<I, C, E, L>::Deliver {
                        entity_id,
                        activation_id,
                        dispatch_id,
                        endpoint,
                        command,
                    },
                ),
                SlotEffect::Reject { dispatch_id, command, reason } => after == before.push(
                    EffectCall::<I, C, E, L>::Reject { dispatch_id, command, reason },
                ),
                SlotEffect::EnqueueFence { activation_id, endpoint } => after == before.push(
                    EffectCall::<I, C, E, L>::EnqueueFence { entity_id, activation_id, endpoint },
                ),
                SlotEffect::Retire { activation_id, lease, retirement } => after == before.push(
                    EffectCall::<I, C, E, L>::Retire {
                        entity_id,
                        activation_id,
                        lease,
                        retirement,
                    },
                ),
                SlotEffect::Remove { .. } => after == before,
            }
        }),
{
    assert(effects.push(effect).drop_last() =~= effects);
}

/// A decision tells what its event did and which slot took it. The effects of a
/// slot are queued with it, and those of an event that no slot took stay with
/// the decision.
pub proof fn law_a_decision_tells_its_slot<I, C, E, L>(
    output: DirectoryOutput<I, C, E, L>,
    directory: DirectoryModel<I, C, E, L>,
    id: I,
    event: SlotEvent<C, E, L>,
    pending: PendingEffects<C, E, L>,
)
    requires
        output.decides(directory, id, event),
    ensures
        output.entity_id@ == id,
        directory.slots.contains_key(id) ==> {
            &&& output.slot == Some(directory.slots[id].0)
            &&& output.effects@.len() == 0
            &&& output.evidence == evidence_of(directory.slots[id].1, event)
            &&& output.activation_id == next_state(directory.slots[id].1, event).activation()
            &&& output.awaiting(pending) == queued(pending, directory.slots[id].0)
        },
        !directory.slots.contains_key(id) ==> {
            &&& output.slot is None
            &&& output.effects@ == effects_of(SlotModel::<C, E, L>::Inactive, event)
            &&& output.evidence == evidence_of(SlotModel::<C, E, L>::Inactive, event)
            &&& output.awaiting(pending) == output.effects@
        },
{
}

/// The decision for a command tells the slot that took it: the one that
/// represents the entity, or the one of the next activation if none does.
pub proof fn law_a_dispatch_tells_its_slot<I, C, E, L>(
    output: DirectoryOutput<I, C, E, L>,
    directory: DirectoryModel<I, C, E, L>,
    entity_id: EntityId<I>,
    dispatch_id: DispatchId,
    command: C,
)
    requires
        output.answers(directory, entity_id, dispatch_id, command),
    ensures
        output.entity_id == entity_id,
        output.slot is Some,
        output.effects@.len() == 0,
        directory.slots.contains_key(entity_id@) ==> output.slot == Some(
            directory.slots[entity_id@].0,
        ) && output.evidence == evidence_of(
            directory.slots[entity_id@].1,
            SlotEvent::<C, E, L>::Dispatch { dispatch_id, command },
        ) && output.activation_id == next_state(
            directory.slots[entity_id@].1,
            SlotEvent::<C, E, L>::Dispatch { dispatch_id, command },
        ).activation(),
        !directory.slots.contains_key(entity_id@) ==> output.slot->0@ == directory.next_activation
            && output.activation_id == output.slot && output.evidence is Traversed,
{
}

/// A directory is created exactly with a power of two of shards. It then
/// represents nobody, has nothing queued, and counts its identities from one.
pub proof fn law_a_directory_starts_empty<I: Clone, C, E: Clone, L, S>(
    config: DirectoryConfig,
    created: Result<LocalDirectory<I, C, E, L, S>, DirectoryError<C>>,
    id: I,
    slot: ActivationId,
)
    requires
        directory_created(config, created),
    ensures
        created is Ok <==> is_pow2(config.shards@ as int),
        created is Err ==> created->Err_0 is InvalidShardCount,
        created matches Ok(directory) ==> {
            &&& directory.wf()
            &&& !directory@.slots.contains_key(id)
            &&& directory@.next_activation == 1
            &&& directory@.next_dispatch == 1
            &&& directory@.waiter_limit == config.activation_waiters
            &&& directory.shards() == config.shards@
            &&& queued(directory.pending(), slot).len() == 0
        },
{
}

/// The drain of a family decides once for every entity that has an incarnation
/// and for no other, and each decision is that of the entity's own incarnation.
pub proof fn law_a_family_drain_decides_once_for_each<I, C, E, L>(
    outputs: Seq<DirectoryOutput<I, C, E, L>>,
    directory: DirectoryModel<I, C, E, L>,
    id: I,
)
    requires
        drains(outputs, directory),
    ensures
        directory.slots.contains_key(id) && !(directory.slots[id].1 is Inactive) <==> exists|k: int|
            0 <= k < outputs.len() && (#[trigger] outputs[k]).entity_id@ == id,
        forall|a: int, b: int|
            0 <= a < b < outputs.len() ==> (#[trigger] outputs[a]).entity_id@ != (
            #[trigger] outputs[b]).entity_id@,
        forall|k: int|
            0 <= k < outputs.len() && (#[trigger] outputs[k]).entity_id@ == id
                ==> outputs[k].slot == Some(directory.slots[id].0) && (
            outputs[k].evidence is Traversed <==> directory.slots[id].1 is Active),
{
    if directory.slots.contains_key(id) && !(directory.slots[id].1 is Inactive) {
        assert(drained_once(outputs, id));
    }
}

/// Each decision of a family drain is queued with its own slot, behind those
/// that were queued before.
pub proof fn law_a_family_drain_queues_each_decision<I, C, E, L>(
    pending: PendingEffects<C, E, L>,
    directory: DirectoryModel<I, C, E, L>,
    outputs: Seq<DirectoryOutput<I, C, E, L>>,
    output: DirectoryOutput<I, C, E, L>,
)
    ensures
        drain_pending(pending, directory, Seq::<DirectoryOutput<I, C, E, L>>::empty()) == pending,
        ({
            let before = drain_pending(pending, directory, outputs);
            let after = drain_pending(pending, directory, outputs.push(output));
            match output.slot {
                Some(slot) => after == before.insert(
                    slot@,
                    queued(before, slot) + drain_effects(directory.state(output.entity_id@)),
                ),
                None => after == before,
            }
        }),
{
    assert(outputs.push(output).drop_last() =~= outputs);
}

} // verus!
