//! The lifecycle of one entity slot: a total function from state and event to
//! state and effects.

use vstd::prelude::*;

use crate::cloning::{copied, faithful};
use crate::entity::id::{ActivationId, DispatchId};
use crate::nonzero::NonZeroUsize;

verus! {

/// Why a command came back to its owner.
#[derive(Debug, Clone, Copy, PartialEq, Eq, Structural)]
pub enum Refusal {
    /// The family no longer admits commands.
    Shutdown,
    /// No incarnation could take the command.
    Unavailable,
    /// The activation in flight already retains as many commands as it may.
    Overloaded,
    /// The owner gave the command up while it waited for the activation.
    Cancelled,
}

/// Where a graceful drain broke off.
#[derive(Debug, Clone, Copy, PartialEq, Eq, Structural)]
pub enum DrainStage {
    /// Admitted deliveries did not settle.
    Deliveries,
    /// The fence was not enqueued.
    FenceEnqueue,
    /// The fence was enqueued but not acknowledged.
    FenceAcknowledgement,
}

/// Why a drain was forced.
#[derive(Debug, Clone, Copy, PartialEq, Eq, Structural)]
pub struct DrainFailure {
    /// The stage that failed.
    pub stage: DrainStage,
    /// Admitted deliveries that had not settled.
    pub outstanding_reservations: u64,
}

/// How an incarnation retires.
#[derive(Debug, Clone, Copy, PartialEq, Eq, Structural)]
pub enum RetirementMode {
    /// Everything admitted has been processed.
    Graceful,
    /// The drain broke off.
    Forced(DrainFailure),
}

/// The phases of a slot.
#[derive(Debug, Clone, Copy, PartialEq, Eq, Structural)]
pub enum LifecyclePhase {
    /// No incarnation.
    Inactive,
    /// One activation is in flight.
    Activating,
    /// One incarnation takes commands.
    Active,
    /// Admission is closed; admitted work settles.
    Draining,
    /// The incarnation terminates.
    Retiring,
}

/// What drives a slot.
#[derive(Debug, Clone, Copy, PartialEq, Eq, Structural)]
pub enum LifecycleTrigger {
    ClaimActivation,
    Dispatch,
    ActivationSucceeded,
    ActivationFailed,
    CancelWaiter,
    DeliveryResolved,
    BeginDrain,
    FenceAcknowledged,
    ForceDrain,
    Terminated,
}

/// One traversed edge of the lifecycle.
#[derive(Debug, Clone, Copy, PartialEq, Eq, Structural)]
pub struct LifecycleEdge {
    pub from: LifecyclePhase,
    pub trigger: LifecycleTrigger,
    pub to: LifecyclePhase,
}

/// What one event did to a slot.
#[derive(Debug, Clone, Copy, PartialEq, Eq, Structural)]
pub enum TransitionEvidence {
    /// The event moved the slot along an edge.
    Traversed(LifecycleEdge),
    /// The event was handled within the phase.
    SelfLoop { phase: LifecyclePhase, trigger: LifecycleTrigger },
    /// The event did not concern this incarnation in this phase.
    Ignored { phase: LifecyclePhase, trigger: LifecycleTrigger },
}

/// A command retained by the activation in flight.
#[derive(Debug)]
pub struct Waiting<C> {
    pub dispatch_id: DispatchId,
    pub command: C,
}

/// A slot with one activation in flight.
#[derive(Debug)]
pub struct ActivatingSlot<C> {
    pub activation_id: ActivationId,
    pub waiter_limit: NonZeroUsize,
    pub waiters: Vec<Waiting<C>>,
}

/// A slot whose incarnation takes commands.
#[derive(Debug)]
pub struct ActiveSlot<E, L> {
    pub activation_id: ActivationId,
    pub endpoint: E,
    pub lease: L,
    pub outstanding: u64,
}

/// A slot whose admitted work settles.
#[derive(Debug)]
pub struct DrainingSlot<E, L> {
    pub activation_id: ActivationId,
    pub endpoint: E,
    pub lease: L,
    pub outstanding: u64,
}

/// The state of one slot.
#[derive(Debug)]
pub enum EntitySlot<C, E, L> {
    Inactive,
    Activating(ActivatingSlot<C>),
    Active(ActiveSlot<E, L>),
    Draining(DrainingSlot<E, L>),
    Retiring { activation_id: ActivationId },
}

/// What a slot is told.
#[allow(inconsistent_fields)]
#[derive(Debug)]
pub enum SlotEvent<C, E, L> {
    /// The first command asks for an incarnation.
    ClaimActivation {
        activation_id: ActivationId,
        dispatch_id: DispatchId,
        command: C,
        waiter_limit: NonZeroUsize,
    },
    /// A further command.
    Dispatch { dispatch_id: DispatchId, command: C },
    /// The activation produced an incarnation.
    ActivationSucceeded { activation_id: ActivationId, endpoint: E, lease: L },
    /// The activation failed.
    ActivationFailed { activation_id: ActivationId },
    /// The owner of a waiting command gave it up.
    CancelWaiter { activation_id: ActivationId, dispatch_id: DispatchId },
    /// An admitted delivery settled; a failed one brings its command back.
    DeliveryResolved { activation_id: ActivationId, failure: Option<(DispatchId, C)> },
    /// Admission closes.
    BeginDrain { activation_id: ActivationId },
    /// Everything admitted before the fence has been processed.
    FenceAcknowledged { activation_id: ActivationId },
    /// The drain broke off.
    ForceDrain { activation_id: ActivationId, failure: DrainFailure },
    /// The incarnation has terminated.
    Terminated { activation_id: ActivationId },
}

/// What a slot asks of the runtime.
#[derive(Debug)]
pub enum SlotEffect<C, E, L> {
    /// Start the activation.
    StartActivation { activation_id: ActivationId },
    /// Deliver a command to the incarnation.
    Deliver { activation_id: ActivationId, dispatch_id: DispatchId, endpoint: E, command: C },
    /// Return a command to its owner.
    Reject { dispatch_id: DispatchId, command: C, reason: Refusal },
    /// Enqueue the fence behind everything admitted.
    EnqueueFence { activation_id: ActivationId, endpoint: E },
    /// Terminate the incarnation.
    Retire { activation_id: ActivationId, lease: L, retirement: RetirementMode },
    /// Forget the slot.
    Remove { activation_id: ActivationId },
}

/// The state of one slot as a mathematical value.
pub enum SlotModel<C, E, L> {
    Inactive,
    Activating { activation_id: ActivationId, limit: nat, waiters: Seq<Waiting<C>> },
    Active { activation_id: ActivationId, endpoint: E, lease: L, outstanding: nat },
    Draining { activation_id: ActivationId, endpoint: E, lease: L, outstanding: nat },
    Retiring { activation_id: ActivationId },
}

impl<C, E, L> SlotModel<C, E, L> {
    /// The phase of the slot.
    pub open spec fn phase(self) -> LifecyclePhase {
        match self {
            SlotModel::Inactive => LifecyclePhase::Inactive,
            SlotModel::Activating { .. } => LifecyclePhase::Activating,
            SlotModel::Active { .. } => LifecyclePhase::Active,
            SlotModel::Draining { .. } => LifecyclePhase::Draining,
            SlotModel::Retiring { .. } => LifecyclePhase::Retiring,
        }
    }

    /// The activation that the slot is about.
    pub open spec fn activation(self) -> Option<ActivationId> {
        match self {
            SlotModel::Inactive => None,
            SlotModel::Activating { activation_id, .. } => Some(activation_id),
            SlotModel::Active { activation_id, .. } => Some(activation_id),
            SlotModel::Draining { activation_id, .. } => Some(activation_id),
            SlotModel::Retiring { activation_id } => Some(activation_id),
        }
    }

    /// How many dispatched commands the slot still accounts for.
    pub open spec fn load(self) -> nat {
        match self {
            SlotModel::Inactive => 0,
            SlotModel::Activating { waiters, .. } => waiters.len(),
            SlotModel::Active { outstanding, .. } => outstanding,
            SlotModel::Draining { outstanding, .. } => outstanding,
            SlotModel::Retiring { .. } => 0,
        }
    }

    /// A slot never retains more commands than it may, and an activation in
    /// flight may retain one.
    pub open spec fn wf(self) -> bool {
        self matches SlotModel::Activating { limit, waiters, .. } ==> 1 <= limit && waiters.len()
            <= limit
    }
}

impl<C, E, L> SlotEvent<C, E, L> {
    /// An activation may retain at least the command that asked for it.
    pub open spec fn wf(self) -> bool {
        self matches SlotEvent::ClaimActivation { waiter_limit, .. } ==> waiter_limit@ >= 1
    }

    /// The trigger of the event.
    pub open spec fn trigger(self) -> LifecycleTrigger {
        match self {
            SlotEvent::ClaimActivation { .. } => LifecycleTrigger::ClaimActivation,
            SlotEvent::Dispatch { .. } => LifecycleTrigger::Dispatch,
            SlotEvent::ActivationSucceeded { .. } => LifecycleTrigger::ActivationSucceeded,
            SlotEvent::ActivationFailed { .. } => LifecycleTrigger::ActivationFailed,
            SlotEvent::CancelWaiter { .. } => LifecycleTrigger::CancelWaiter,
            SlotEvent::DeliveryResolved { .. } => LifecycleTrigger::DeliveryResolved,
            SlotEvent::BeginDrain { .. } => LifecycleTrigger::BeginDrain,
            SlotEvent::FenceAcknowledged { .. } => LifecycleTrigger::FenceAcknowledged,
            SlotEvent::ForceDrain { .. } => LifecycleTrigger::ForceDrain,
            SlotEvent::Terminated { .. } => LifecycleTrigger::Terminated,
        }
    }

    /// The incarnation that the event is a fact of, if it is about one.
    pub open spec fn subject(self) -> Option<ActivationId> {
        match self {
            SlotEvent::ClaimActivation { .. } => None,
            SlotEvent::Dispatch { .. } => None,
            SlotEvent::ActivationSucceeded { activation_id, .. } => Some(activation_id),
            SlotEvent::ActivationFailed { activation_id } => Some(activation_id),
            SlotEvent::CancelWaiter { activation_id, .. } => Some(activation_id),
            SlotEvent::DeliveryResolved { activation_id, .. } => Some(activation_id),
            SlotEvent::BeginDrain { activation_id } => Some(activation_id),
            SlotEvent::FenceAcknowledged { activation_id } => Some(activation_id),
            SlotEvent::ForceDrain { activation_id, .. } => Some(activation_id),
            SlotEvent::Terminated { activation_id } => Some(activation_id),
        }
    }
}

/// Whether some waiting command has this identity.
pub open spec fn waits<C>(waiters: Seq<Waiting<C>>, dispatch_id: DispatchId) -> bool {
    exists|i: int| 0 <= i < waiters.len() && (#[trigger] waiters[i]).dispatch_id == dispatch_id
}

/// The position of the first waiting command with this identity.
pub open spec fn waiter_at<C>(waiters: Seq<Waiting<C>>, dispatch_id: DispatchId) -> int
    decreases waiters.len(),
{
    if waiters.len() == 0 || waiters[0].dispatch_id == dispatch_id {
        0
    } else {
        1 + waiter_at(waiters.skip(1), dispatch_id)
    }
}

/// Whether the event concerns the slot in its phase.
pub open spec fn applies<C, E, L>(state: SlotModel<C, E, L>, event: SlotEvent<C, E, L>) -> bool {
    match event {
        SlotEvent::ClaimActivation { .. } => state is Inactive,
        SlotEvent::Dispatch { .. } => state is Activating || state is Active,
        SlotEvent::ActivationSucceeded { .. } => state is Activating && event.subject()
            == state.activation(),
        SlotEvent::ActivationFailed { .. } => state is Activating && event.subject()
            == state.activation(),
        SlotEvent::CancelWaiter { dispatch_id, .. } => state is Activating && event.subject()
            == state.activation() && waits(state->waiters, dispatch_id),
        SlotEvent::DeliveryResolved { .. } => (state is Active || state is Draining)
            && event.subject() == state.activation() && state.load() >= 1,
        SlotEvent::BeginDrain { .. } => state is Active && event.subject() == state.activation(),
        SlotEvent::FenceAcknowledged { .. } => state is Draining && event.subject()
            == state.activation() && state.load() == 0,
        SlotEvent::ForceDrain { .. } => state is Draining && event.subject() == state.activation(),
        SlotEvent::Terminated { .. } => (state is Active || state is Draining
            || state is Retiring) && event.subject() == state.activation(),
    }
}

/// The deliveries of retained commands, in order of arrival.
pub open spec fn deliveries<C, E, L>(
    activation_id: ActivationId,
    endpoint: E,
    waiters: Seq<Waiting<C>>,
) -> Seq<SlotEffect<C, E, L>> {
    waiters.map_values(
        |waiting: Waiting<C>|
            SlotEffect::Deliver {
                activation_id,
                dispatch_id: waiting.dispatch_id,
                endpoint,
                command: waiting.command,
            },
    )
}

/// The rejections of retained commands, in order of arrival.
pub open spec fn rejections<C, E, L>(
    waiters: Seq<Waiting<C>>,
    reason: Refusal,
) -> Seq<SlotEffect<C, E, L>> {
    waiters.map_values(
        |waiting: Waiting<C>|
            SlotEffect::Reject {
                dispatch_id: waiting.dispatch_id,
                command: waiting.command,
                reason,
            },
    )
}

/// The rejection of a delivery that failed.
pub open spec fn returned<C, E, L>(failure: Option<(DispatchId, C)>) -> Seq<SlotEffect<C, E, L>> {
    match failure {
        Some((dispatch_id, command)) => seq![
            SlotEffect::Reject { dispatch_id, command, reason: Refusal::Unavailable },
        ],
        None => Seq::empty(),
    }
}

/// What an event that does not concern the slot leaves to do: whatever it
/// carries goes back, and an incarnation that nobody waits for is retired.
pub open spec fn leftovers<C, E, L>(event: SlotEvent<C, E, L>) -> Seq<SlotEffect<C, E, L>> {
    match event {
        SlotEvent::ClaimActivation { dispatch_id, command, .. } => seq![
            SlotEffect::Reject { dispatch_id, command, reason: Refusal::Unavailable },
        ],
        SlotEvent::Dispatch { dispatch_id, command } => seq![
            SlotEffect::Reject { dispatch_id, command, reason: Refusal::Unavailable },
        ],
        SlotEvent::ActivationSucceeded { activation_id, lease, .. } => seq![
            SlotEffect::Retire { activation_id, lease, retirement: RetirementMode::Graceful },
        ],
        SlotEvent::DeliveryResolved { failure, .. } => returned(failure),
        _ => Seq::empty(),
    }
}

/// The fence of a drain with nothing outstanding.
pub open spec fn fence<C, E, L>(
    activation_id: ActivationId,
    endpoint: E,
    outstanding: nat,
) -> Seq<SlotEffect<C, E, L>> {
    if outstanding == 0 {
        seq![SlotEffect::EnqueueFence { activation_id, endpoint }]
    } else {
        Seq::empty()
    }
}

/// The state after an event.
pub open spec fn next_state<C, E, L>(
    state: SlotModel<C, E, L>,
    event: SlotEvent<C, E, L>,
) -> SlotModel<C, E, L> {
    if !applies(state, event) {
        state
    } else {
        match (state, event) {
            (
                _,
                SlotEvent::ClaimActivation { activation_id, dispatch_id, command, waiter_limit },
            ) => SlotModel::Activating {
                activation_id,
                limit: waiter_limit@ as nat,
                waiters: seq![Waiting { dispatch_id, command }],
            },
            (
                SlotModel::Activating { activation_id, limit, waiters },
                SlotEvent::Dispatch { dispatch_id, command },
            ) => if waiters.len() < limit {
                SlotModel::Activating {
                    activation_id,
                    limit,
                    waiters: waiters.push(Waiting { dispatch_id, command }),
                }
            } else {
                state
            },
            (
                SlotModel::Active { activation_id, endpoint, lease, outstanding },
                SlotEvent::Dispatch { .. },
            ) => SlotModel::Active { activation_id, endpoint, lease, outstanding: outstanding + 1 },
            (
                SlotModel::Activating { activation_id, waiters, .. },
                SlotEvent::ActivationSucceeded { endpoint, lease, .. },
            ) => SlotModel::Active { activation_id, endpoint, lease, outstanding: waiters.len() },
            (_, SlotEvent::ActivationFailed { .. }) => SlotModel::Inactive,
            (
                SlotModel::Activating { activation_id, limit, waiters },
                SlotEvent::CancelWaiter { dispatch_id, .. },
            ) => SlotModel::Activating {
                activation_id,
                limit,
                waiters: waiters.remove(waiter_at(waiters, dispatch_id)),
            },
            (
                SlotModel::Active { activation_id, endpoint, lease, outstanding },
                SlotEvent::DeliveryResolved { .. },
            ) => SlotModel::Active {
                activation_id,
                endpoint,
                lease,
                outstanding: (outstanding - 1) as nat,
            },
            (
                SlotModel::Draining { activation_id, endpoint, lease, outstanding },
                SlotEvent::DeliveryResolved { .. },
            ) => SlotModel::Draining {
                activation_id,
                endpoint,
                lease,
                outstanding: (outstanding - 1) as nat,
            },
            (
                SlotModel::Active { activation_id, endpoint, lease, outstanding },
                SlotEvent::BeginDrain { .. },
            ) => SlotModel::Draining { activation_id, endpoint, lease, outstanding },
            (
                SlotModel::Draining { activation_id, .. },
                SlotEvent::FenceAcknowledged { .. },
            ) => SlotModel::Retiring { activation_id },
            (SlotModel::Draining { activation_id, .. }, SlotEvent::ForceDrain { .. }) =>
                SlotModel::Retiring { activation_id },
            (_, SlotEvent::Terminated { .. }) => SlotModel::Inactive,
            _ => state,
        }
    }
}

/// The effects of an event, in the order in which they take place.
pub open spec fn effects_of<C, E, L>(
    state: SlotModel<C, E, L>,
    event: SlotEvent<C, E, L>,
) -> Seq<SlotEffect<C, E, L>> {
    if !applies(state, event) {
        leftovers(event)
    } else {
        match (state, event) {
            (_, SlotEvent::ClaimActivation { activation_id, .. }) => seq![
                SlotEffect::StartActivation { activation_id },
            ],
            (
                SlotModel::Activating { limit, waiters, .. },
                SlotEvent::Dispatch { dispatch_id, command },
            ) => if waiters.len() < limit {
                Seq::empty()
            } else {
                seq![SlotEffect::Reject { dispatch_id, command, reason: Refusal::Overloaded }]
            },
            (
                SlotModel::Active { activation_id, endpoint, .. },
                SlotEvent::Dispatch { dispatch_id, command },
            ) => seq![SlotEffect::Deliver { activation_id, dispatch_id, endpoint, command }],
            (
                SlotModel::Activating { activation_id, waiters, .. },
                SlotEvent::ActivationSucceeded { endpoint, .. },
            ) => deliveries(activation_id, endpoint, waiters),
            (
                SlotModel::Activating { activation_id, waiters, .. },
                SlotEvent::ActivationFailed { .. },
            ) => rejections(waiters, Refusal::Unavailable).push(
                SlotEffect::Remove { activation_id },
            ),
            (
                SlotModel::Activating { waiters, .. },
                SlotEvent::CancelWaiter { dispatch_id, .. },
            ) => {
                let cancelled = waiters[waiter_at(waiters, dispatch_id)];
                seq![
                    SlotEffect::Reject {
                        dispatch_id: cancelled.dispatch_id,
                        command: cancelled.command,
                        reason: Refusal::Cancelled,
                    },
                ]
            },
            (SlotModel::Active { .. }, SlotEvent::DeliveryResolved { failure, .. }) => returned(
                failure,
            ),
            (
                SlotModel::Draining { activation_id, endpoint, outstanding, .. },
                SlotEvent::DeliveryResolved { failure, .. },
            ) => returned(failure) + fence(activation_id, endpoint, (outstanding - 1) as nat),
            (
                SlotModel::Active { activation_id, endpoint, outstanding, .. },
                SlotEvent::BeginDrain { .. },
            ) => fence(activation_id, endpoint, outstanding),
            (
                SlotModel::Draining { activation_id, lease, .. },
                SlotEvent::FenceAcknowledged { .. },
            ) => seq![
                SlotEffect::Retire { activation_id, lease, retirement: RetirementMode::Graceful },
            ],
            (
                SlotModel::Draining { activation_id, lease, .. },
                SlotEvent::ForceDrain { failure, .. },
            ) => seq![
                SlotEffect::Retire {
                    activation_id,
                    lease,
                    retirement: RetirementMode::Forced(failure),
                },
            ],
            (_, SlotEvent::Terminated { activation_id }) => seq![
                SlotEffect::Remove { activation_id },
            ],
            _ => Seq::empty(),
        }
    }
}

/// What the event did to the slot.
pub open spec fn evidence_of<C, E, L>(
    state: SlotModel<C, E, L>,
    event: SlotEvent<C, E, L>,
) -> TransitionEvidence {
    let from = state.phase();
    let to = next_state(state, event).phase();
    let trigger = event.trigger();
    if !applies(state, event) {
        TransitionEvidence::Ignored { phase: from, trigger }
    } else if from == to {
        TransitionEvidence::SelfLoop { phase: from, trigger }
    } else {
        TransitionEvidence::Traversed(LifecycleEdge { from, trigger, to })
    }
}

impl<C, E, L> View for EntitySlot<C, E, L> {
    type V = SlotModel<C, E, L>;

    open spec fn view(&self) -> SlotModel<C, E, L> {
        match self {
            EntitySlot::Inactive => SlotModel::Inactive,
            EntitySlot::Activating(slot) => SlotModel::Activating {
                activation_id: slot.activation_id,
                limit: slot.waiter_limit@ as nat,
                waiters: slot.waiters@,
            },
            EntitySlot::Active(slot) => SlotModel::Active {
                activation_id: slot.activation_id,
                endpoint: slot.endpoint,
                lease: slot.lease,
                outstanding: slot.outstanding as nat,
            },
            EntitySlot::Draining(slot) => SlotModel::Draining {
                activation_id: slot.activation_id,
                endpoint: slot.endpoint,
                lease: slot.lease,
                outstanding: slot.outstanding as nat,
            },
            EntitySlot::Retiring { activation_id } => SlotModel::Retiring {
                activation_id: *activation_id,
            },
        }
    }
}

/// One installed decision.
#[derive(Debug)]
pub struct LifecycleOutput<C, E, L> {
    /// What the event did.
    pub evidence: TransitionEvidence,
    /// The activation that the slot is about afterwards.
    pub activation_id: Option<ActivationId>,
    /// What the runtime is asked to do, in order.
    pub effects: Vec<SlotEffect<C, E, L>>,
}

/// The first position of a waiting command with this identity is where it waits.
pub(crate) proof fn lemma_waiter_at<C>(waiters: Seq<Waiting<C>>, dispatch_id: DispatchId, i: int)
    requires
        0 <= i < waiters.len(),
        waiters[i].dispatch_id == dispatch_id,
        forall|j: int| 0 <= j < i ==> (#[trigger] waiters[j]).dispatch_id != dispatch_id,
    ensures
        waiter_at(waiters, dispatch_id) == i,
    decreases waiters.len(),
{
    if i > 0 {
        let rest = waiters.skip(1);
        assert(rest[i - 1] == waiters[i]);
        assert forall|j: int| 0 <= j < i - 1 implies (#[trigger] rest[j]).dispatch_id
            != dispatch_id by {
            assert(rest[j] == waiters[j + 1]);
        }
        lemma_waiter_at(rest, dispatch_id, i - 1);
    }
}

impl<C, E, L> EntitySlot<C, E, L> {
    /// The activation that the slot is about.
    pub fn activation_id(&self) -> (activation_id: Option<ActivationId>)
        ensures
            activation_id == self@.activation(),
    {
        match self {
            EntitySlot::Inactive => None,
            EntitySlot::Activating(slot) => Some(slot.activation_id),
            EntitySlot::Active(slot) => Some(slot.activation_id),
            EntitySlot::Draining(slot) => Some(slot.activation_id),
            EntitySlot::Retiring { activation_id } => Some(*activation_id),
        }
    }

    /// The phase of the slot.
    pub fn phase(&self) -> (phase: LifecyclePhase)
        ensures
            phase == self@.phase(),
    {
        match self {
            EntitySlot::Inactive => LifecyclePhase::Inactive,
            EntitySlot::Activating(_) => LifecyclePhase::Activating,
            EntitySlot::Active(_) => LifecyclePhase::Active,
            EntitySlot::Draining(_) => LifecyclePhase::Draining,
            EntitySlot::Retiring { .. } => LifecyclePhase::Retiring,
        }
    }
}

impl<C> ActivatingSlot<C> {
    /// The position of the first waiting command with this identity.
    fn find(&self, dispatch_id: DispatchId) -> (found: Option<usize>)
        ensures
            match found {
                Some(i) => i < self.waiters@.len() && waits(self.waiters@, dispatch_id) && i
                    == waiter_at(self.waiters@, dispatch_id),
                None => !waits(self.waiters@, dispatch_id),
            },
    {
        let mut i: usize = 0;
        while i < self.waiters.len()
            invariant
                i <= self.waiters@.len(),
                forall|j: int|
                    0 <= j < i ==> (#[trigger] self.waiters@[j]).dispatch_id != dispatch_id,
            decreases self.waiters@.len() - i,
        {
            if self.waiters[i].dispatch_id == dispatch_id {
                proof {
                    lemma_waiter_at(self.waiters@, dispatch_id, i as int);
                }
                return Some(i);
            }
            i = i + 1;
        }
        None
    }
}

/// The deliveries of retained commands.
fn deliver_all<C, E: Clone, L>(
    activation_id: ActivationId,
    endpoint: &E,
    waiters: Vec<Waiting<C>>,
) -> (effects: Vec<SlotEffect<C, E, L>>)
    requires
        faithful::<E>(),
    ensures
        effects@ == deliveries::<C, E, L>(activation_id, *endpoint, waiters@),
{
    let ghost all = waiters@;
    let mut effects: Vec<SlotEffect<C, E, L>> = Vec::new();
    for waiting in iter: waiters
        invariant
            iter.seq() == all,
            faithful::<E>(),
            effects@ == deliveries::<C, E, L>(
                activation_id,
                *endpoint,
                all.take(iter.index() as int),
            ),
    {
        proof {
            assert(all.take(iter.index() + 1) =~= all.take(iter.index() as int).push(
                all[iter.index() as int],
            ));
        }
        effects.push(
            SlotEffect::Deliver {
                activation_id,
                dispatch_id: waiting.dispatch_id,
                endpoint: copied(endpoint),
                command: waiting.command,
            },
        );
    }
    proof {
        assert(all.take(all.len() as int) =~= all);
    }
    effects
}

/// The rejections of retained commands.
fn reject_all<C, E, L>(waiters: Vec<Waiting<C>>, reason: Refusal) -> (effects: Vec<
    SlotEffect<C, E, L>,
>)
    ensures
        effects@ == rejections::<C, E, L>(waiters@, reason),
{
    let ghost all = waiters@;
    let mut effects: Vec<SlotEffect<C, E, L>> = Vec::new();
    for waiting in iter: waiters
        invariant
            iter.seq() == all,
            effects@ == rejections::<C, E, L>(all.take(iter.index() as int), reason),
    {
        proof {
            assert(all.take(iter.index() + 1) =~= all.take(iter.index() as int).push(
                all[iter.index() as int],
            ));
        }
        effects.push(
            SlotEffect::Reject {
                dispatch_id: waiting.dispatch_id,
                command: waiting.command,
                reason,
            },
        );
    }
    proof {
        assert(all.take(all.len() as int) =~= all);
    }
    effects
}

/// A single effect.
fn only<C, E, L>(effect: SlotEffect<C, E, L>) -> (effects: Vec<SlotEffect<C, E, L>>)
    ensures
        effects@ == seq![effect],
{
    let mut effects: Vec<SlotEffect<C, E, L>> = Vec::new();
    effects.push(effect);
    effects
}

/// The rejection of a delivery that failed.
fn return_failed<C, E, L>(failure: Option<(DispatchId, C)>) -> (effects: Vec<SlotEffect<C, E, L>>)
    ensures
        effects@ == returned::<C, E, L>(failure),
{
    match failure {
        Some((dispatch_id, command)) => only(
            SlotEffect::Reject { dispatch_id, command, reason: Refusal::Unavailable },
        ),
        None => Vec::new(),
    }
}

/// What an event that does not concern the slot leaves to do.
fn leave<C, E, L>(event: SlotEvent<C, E, L>) -> (effects: Vec<SlotEffect<C, E, L>>)
    ensures
        effects@ == leftovers(event),
{
    match event {
        SlotEvent::ClaimActivation { dispatch_id, command, .. } => only(
            SlotEffect::Reject { dispatch_id, command, reason: Refusal::Unavailable },
        ),
        SlotEvent::Dispatch { dispatch_id, command } => only(
            SlotEffect::Reject { dispatch_id, command, reason: Refusal::Unavailable },
        ),
        SlotEvent::ActivationSucceeded { activation_id, lease, .. } => only(
            SlotEffect::Retire { activation_id, lease, retirement: RetirementMode::Graceful },
        ),
        SlotEvent::DeliveryResolved { failure, .. } => return_failed(failure),
        _ => Vec::new(),
    }
}

impl<C, E, L> SlotEvent<C, E, L> {
    /// The trigger of the event.
    fn kind(&self) -> (trigger: LifecycleTrigger)
        ensures
            trigger == self.trigger(),
    {
        match self {
            SlotEvent::ClaimActivation { .. } => LifecycleTrigger::ClaimActivation,
            SlotEvent::Dispatch { .. } => LifecycleTrigger::Dispatch,
            SlotEvent::ActivationSucceeded { .. } => LifecycleTrigger::ActivationSucceeded,
            SlotEvent::ActivationFailed { .. } => LifecycleTrigger::ActivationFailed,
            SlotEvent::CancelWaiter { .. } => LifecycleTrigger::CancelWaiter,
            SlotEvent::DeliveryResolved { .. } => LifecycleTrigger::DeliveryResolved,
            SlotEvent::BeginDrain { .. } => LifecycleTrigger::BeginDrain,
            SlotEvent::FenceAcknowledged { .. } => LifecycleTrigger::FenceAcknowledged,
            SlotEvent::ForceDrain { .. } => LifecycleTrigger::ForceDrain,
            SlotEvent::Terminated { .. } => LifecycleTrigger::Terminated,
        }
    }
}

impl<C, E: Clone, L> EntitySlot<C, E, L> {
    /// Whether the event concerns the slot in its phase.
    fn concerned(&self, event: &SlotEvent<C, E, L>) -> (concerned: bool)
        ensures
            concerned == applies(self@, *event),
    {
        match (self, event) {
            (EntitySlot::Inactive, SlotEvent::ClaimActivation { .. }) => true,
            (EntitySlot::Activating(_), SlotEvent::Dispatch { .. }) => true,
            (EntitySlot::Active(_), SlotEvent::Dispatch { .. }) => true,
            (
                EntitySlot::Activating(slot),
                SlotEvent::ActivationSucceeded { activation_id, .. },
            ) => slot.activation_id == *activation_id,
            (EntitySlot::Activating(slot), SlotEvent::ActivationFailed { activation_id }) =>
                slot.activation_id == *activation_id,
            (
                EntitySlot::Activating(slot),
                SlotEvent::CancelWaiter { activation_id, dispatch_id },
            ) => slot.activation_id == *activation_id && slot.find(*dispatch_id).is_some(),
            (EntitySlot::Active(slot), SlotEvent::DeliveryResolved { activation_id, .. }) =>
                slot.activation_id == *activation_id && slot.outstanding >= 1,
            (EntitySlot::Draining(slot), SlotEvent::DeliveryResolved { activation_id, .. }) =>
                slot.activation_id == *activation_id && slot.outstanding >= 1,
            (EntitySlot::Active(slot), SlotEvent::BeginDrain { activation_id }) =>
                slot.activation_id == *activation_id,
            (EntitySlot::Draining(slot), SlotEvent::FenceAcknowledged { activation_id }) =>
                slot.activation_id == *activation_id && slot.outstanding == 0,
            (EntitySlot::Draining(slot), SlotEvent::ForceDrain { activation_id, .. }) =>
                slot.activation_id == *activation_id,
            (EntitySlot::Active(slot), SlotEvent::Terminated { activation_id }) =>
                slot.activation_id == *activation_id,
            (EntitySlot::Draining(slot), SlotEvent::Terminated { activation_id }) =>
                slot.activation_id == *activation_id,
            (
                EntitySlot::Retiring { activation_id: present },
                SlotEvent::Terminated { activation_id },
            ) => *present == *activation_id,
            _ => false,
        }
    }

    /// Take an event that concerns the slot.
    fn take(self, event: SlotEvent<C, E, L>) -> (taken: (Self, Vec<SlotEffect<C, E, L>>))
        requires
            faithful::<E>(),
            self@.wf(),
            applies(self@, event),
            self is Active && event is Dispatch ==> self@.load() < u64::MAX,
        ensures
            taken.0@ == next_state(self@, event),
            taken.1@ == effects_of(self@, event),
    {
        match (self, event) {
            (
                EntitySlot::Inactive,
                SlotEvent::ClaimActivation { activation_id, dispatch_id, command, waiter_limit },
            ) => {
                let mut waiters: Vec<Waiting<C>> = Vec::new();
                waiters.push(Waiting { dispatch_id, command });
                (
                    EntitySlot::Activating(ActivatingSlot { activation_id, waiter_limit, waiters }),
                    only(SlotEffect::StartActivation { activation_id }),
                )
            },
            (EntitySlot::Activating(mut slot), SlotEvent::Dispatch { dispatch_id, command }) => {
                if slot.waiters.len() < slot.waiter_limit.get() {
                    slot.waiters.push(Waiting { dispatch_id, command });
                    (EntitySlot::Activating(slot), Vec::new())
                } else {
                    (
                        EntitySlot::Activating(slot),
                        only(
                            SlotEffect::Reject {
                                dispatch_id,
                                command,
                                reason: Refusal::Overloaded,
                            },
                        ),
                    )
                }
            },
            (EntitySlot::Active(slot), SlotEvent::Dispatch { dispatch_id, command }) => {
                let deliver = SlotEffect::Deliver {
                    activation_id: slot.activation_id,
                    dispatch_id,
                    endpoint: copied(&slot.endpoint),
                    command,
                };
                (
                    EntitySlot::Active(
                        ActiveSlot {
                            activation_id: slot.activation_id,
                            endpoint: slot.endpoint,
                            lease: slot.lease,
                            outstanding: slot.outstanding + 1,
                        },
                    ),
                    only(deliver),
                )
            },
            (
                EntitySlot::Activating(slot),
                SlotEvent::ActivationSucceeded { endpoint, lease, .. },
            ) => {
                let outstanding: u64 = slot.waiters.len() as u64;
                let effects = deliver_all(slot.activation_id, &endpoint, slot.waiters);
                (
                    EntitySlot::Active(
                        ActiveSlot {
                            activation_id: slot.activation_id,
                            endpoint,
                            lease,
                            outstanding,
                        },
                    ),
                    effects,
                )
            },
            (EntitySlot::Activating(slot), SlotEvent::ActivationFailed { .. }) => {
                let mut effects = reject_all(slot.waiters, Refusal::Unavailable);
                effects.push(SlotEffect::Remove { activation_id: slot.activation_id });
                (EntitySlot::Inactive, effects)
            },
            (EntitySlot::Activating(mut slot), SlotEvent::CancelWaiter { dispatch_id, .. }) => {
                match slot.find(dispatch_id) {
                    Some(i) => {
                        let cancelled = slot.waiters.remove(i);
                        (
                            EntitySlot::Activating(slot),
                            only(
                                SlotEffect::Reject {
                                    dispatch_id: cancelled.dispatch_id,
                                    command: cancelled.command,
                                    reason: Refusal::Cancelled,
                                },
                            ),
                        )
                    },
                    None => (EntitySlot::Activating(slot), Vec::new()),
                }
            },
            (EntitySlot::Active(slot), SlotEvent::DeliveryResolved { failure, .. }) => (
                EntitySlot::Active(
                    ActiveSlot {
                        activation_id: slot.activation_id,
                        endpoint: slot.endpoint,
                        lease: slot.lease,
                        outstanding: slot.outstanding - 1,
                    },
                ),
                return_failed(failure),
            ),
            (EntitySlot::Draining(slot), SlotEvent::DeliveryResolved { failure, .. }) => {
                let outstanding: u64 = slot.outstanding - 1;
                let mut effects = return_failed(failure);
                if outstanding == 0 {
                    effects.push(
                        SlotEffect::EnqueueFence {
                            activation_id: slot.activation_id,
                            endpoint: copied(&slot.endpoint),
                        },
                    );
                }
                (
                    EntitySlot::Draining(
                        DrainingSlot {
                            activation_id: slot.activation_id,
                            endpoint: slot.endpoint,
                            lease: slot.lease,
                            outstanding,
                        },
                    ),
                    effects,
                )
            },
            (EntitySlot::Active(slot), SlotEvent::BeginDrain { .. }) => {
                let effects = if slot.outstanding == 0 {
                    only(
                        SlotEffect::EnqueueFence {
                            activation_id: slot.activation_id,
                            endpoint: copied(&slot.endpoint),
                        },
                    )
                } else {
                    Vec::new()
                };
                (
                    EntitySlot::Draining(
                        DrainingSlot {
                            activation_id: slot.activation_id,
                            endpoint: slot.endpoint,
                            lease: slot.lease,
                            outstanding: slot.outstanding,
                        },
                    ),
                    effects,
                )
            },
            (EntitySlot::Draining(slot), SlotEvent::FenceAcknowledged { .. }) => (
                EntitySlot::Retiring { activation_id: slot.activation_id },
                only(
                    SlotEffect::Retire {
                        activation_id: slot.activation_id,
                        lease: slot.lease,
                        retirement: RetirementMode::Graceful,
                    },
                ),
            ),
            (EntitySlot::Draining(slot), SlotEvent::ForceDrain { failure, .. }) => (
                EntitySlot::Retiring { activation_id: slot.activation_id },
                only(
                    SlotEffect::Retire {
                        activation_id: slot.activation_id,
                        lease: slot.lease,
                        retirement: RetirementMode::Forced(failure),
                    },
                ),
            ),
            (_, SlotEvent::Terminated { activation_id }) => (
                EntitySlot::Inactive,
                only(SlotEffect::Remove { activation_id }),
            ),
            (state, _) => (state, Vec::new()),
        }
    }

    /// Consume one event: the decision it installs and the state afterwards.
    pub fn step(self, event: SlotEvent<C, E, L>) -> (stepped: (LifecycleOutput<C, E, L>, Self))
        requires
            faithful::<E>(),
            self@.wf(),
            self is Active && event is Dispatch ==> self@.load() < u64::MAX,
        ensures
            stepped.1@ == next_state(self@, event),
            stepped.1@.wf(),
            stepped.0.effects@ == effects_of(self@, event),
            stepped.0.evidence == evidence_of(self@, event),
            stepped.0.activation_id == next_state(self@, event).activation(),
    {
        if let SlotEvent::ClaimActivation { waiter_limit, .. } = &event {
            proof {
                use_type_invariant(waiter_limit);
            }
        }
        proof {
            lemma_next_state_wf(self@, event);
        }
        let from = self.phase();
        let trigger = event.kind();
        if !self.concerned(&event) {
            let activation_id = self.activation_id();
            let output = LifecycleOutput {
                evidence: TransitionEvidence::Ignored { phase: from, trigger },
                activation_id,
                effects: leave(event),
            };
            return (output, self);
        }
        let (state, effects) = self.take(event);
        let to = state.phase();
        let evidence = if from == to {
            TransitionEvidence::SelfLoop { phase: from, trigger }
        } else {
            TransitionEvidence::Traversed(LifecycleEdge { from, trigger, to })
        };
        let activation_id = state.activation_id();
        (LifecycleOutput { evidence, activation_id, effects }, state)
    }
}

/// No event makes a slot retain more than it may.
pub(crate) proof fn lemma_next_state_wf<C, E, L>(state: SlotModel<C, E, L>, event: SlotEvent<C, E, L>)
    requires
        state.wf(),
        event.wf(),
    ensures
        next_state(state, event).wf(),
        next_state(state, event).load() <= state.load() + if event is Dispatch
            || event is ClaimActivation {
            1nat
        } else {
            0
        },
{
    if let SlotEvent::CancelWaiter { dispatch_id, .. } = event {
        if applies(state, event) {
            lemma_waiter_exists(state->waiters, dispatch_id);
        }
    }
}

/// A command that waits has a first position.
pub(crate) proof fn lemma_waiter_exists<C>(waiters: Seq<Waiting<C>>, dispatch_id: DispatchId)
    requires
        waits(waiters, dispatch_id),
    ensures
        0 <= waiter_at(waiters, dispatch_id) < waiters.len(),
        waiters[waiter_at(waiters, dispatch_id)].dispatch_id == dispatch_id,
    decreases waiters.len(),
{
    let i = choose|i: int| 0 <= i < waiters.len() && (#[trigger] waiters[i]).dispatch_id == dispatch_id;
    if waiters[0].dispatch_id != dispatch_id {
        let rest = waiters.skip(1);
        assert(rest[i - 1] == waiters[i]);
        lemma_waiter_exists(rest, dispatch_id);
        let p = waiter_at(rest, dispatch_id);
        assert(rest[p] == waiters[p + 1]);
    }
}

} // verus!
