//! What each event does to a slot, in every state that it can find the slot in.

use vstd::prelude::*;

use crate::entity::id::{ActivationId, DispatchId};
use crate::entity::lifecycle::{
    effects_of, evidence_of, lemma_waiter_at, next_state, DrainFailure, EntitySlot,
    LifecycleEdge, LifecyclePhase, LifecycleTrigger, Refusal, RetirementMode, SlotEffect,
    SlotEvent, SlotModel, TransitionEvidence, Waiting,
};
use crate::nonzero::NonZeroUsize;

verus! {

/// The phase of a slot is the variant that it is in, and every slot but an
/// inactive one is about the activation that it carries.
pub proof fn law_the_phase_names_the_state<C, E, L>(state: SlotModel<C, E, L>)
    ensures
        state.phase() == LifecyclePhase::Inactive <==> state is Inactive,
        state.phase() == LifecyclePhase::Activating <==> state is Activating,
        state.phase() == LifecyclePhase::Active <==> state is Active,
        state.phase() == LifecyclePhase::Draining <==> state is Draining,
        state.phase() == LifecyclePhase::Retiring <==> state is Retiring,
        state.activation() is None <==> state is Inactive,
        state matches SlotModel::Activating { activation_id, waiters, .. } ==> state.activation()
            == Some(activation_id) && state.load() == waiters.len(),
        state matches SlotModel::Active { activation_id, outstanding, .. } ==> state.activation()
            == Some(activation_id) && state.load() == outstanding,
        state matches SlotModel::Draining { activation_id, outstanding, .. }
            ==> state.activation() == Some(activation_id) && state.load() == outstanding,
        state matches SlotModel::Retiring { activation_id } ==> state.activation() == Some(
            activation_id,
        ) && state.load() == 0,
        state is Inactive ==> state.load() == 0,
{
}

/// The trigger of an event is the variant that it is.
pub proof fn law_the_trigger_names_the_event<C, E, L>(event: SlotEvent<C, E, L>)
    ensures
        event.trigger() == LifecycleTrigger::ClaimActivation <==> event is ClaimActivation,
        event.trigger() == LifecycleTrigger::Dispatch <==> event is Dispatch,
        event.trigger() == LifecycleTrigger::ActivationSucceeded
            <==> event is ActivationSucceeded,
        event.trigger() == LifecycleTrigger::ActivationFailed <==> event is ActivationFailed,
        event.trigger() == LifecycleTrigger::CancelWaiter <==> event is CancelWaiter,
        event.trigger() == LifecycleTrigger::DeliveryResolved <==> event is DeliveryResolved,
        event.trigger() == LifecycleTrigger::BeginDrain <==> event is BeginDrain,
        event.trigger() == LifecycleTrigger::FenceAcknowledged <==> event is FenceAcknowledged,
        event.trigger() == LifecycleTrigger::ForceDrain <==> event is ForceDrain,
        event.trigger() == LifecycleTrigger::Terminated <==> event is Terminated,
{
}

/// The evidence of a step tells whether the slot changed its phase, names the
/// phases before and after it and the event that drove it, and a step that
/// ignores its event leaves the slot as it is.
pub proof fn law_evidence_tells_the_step<C, E, L>(
    state: SlotModel<C, E, L>,
    event: SlotEvent<C, E, L>,
)
    ensures
        evidence_of(state, event) is Traversed <==> state.phase() != next_state(
            state,
            event,
        ).phase(),
        evidence_of(state, event) matches TransitionEvidence::Traversed(edge) ==> edge == (
        LifecycleEdge {
            from: state.phase(),
            trigger: event.trigger(),
            to: next_state(state, event).phase(),
        }),
        evidence_of(state, event) matches TransitionEvidence::SelfLoop { phase, trigger }
            ==> phase == state.phase() && trigger == event.trigger(),
        evidence_of(state, event) matches TransitionEvidence::Ignored { phase, trigger }
            ==> phase == state.phase() && trigger == event.trigger() && next_state(state, event)
            == state,
{
}

/// A claim on an inactive slot starts one activation, which retains the
/// claiming command and as many others as the claim allows. Any other slot
/// stays as it is and the command goes back as unavailable.
pub proof fn law_a_claim_starts_one_activation<C, E, L>(
    state: SlotModel<C, E, L>,
    activation_id: ActivationId,
    dispatch_id: DispatchId,
    command: C,
    waiter_limit: NonZeroUsize,
)
    ensures
        ({
            let event = SlotEvent::<C, E, L>::ClaimActivation {
                activation_id,
                dispatch_id,
                command,
                waiter_limit,
            };
            if state is Inactive {
                &&& next_state(state, event) == (SlotModel::<C, E, L>::Activating {
                    activation_id,
                    limit: waiter_limit@ as nat,
                    waiters: seq![Waiting { dispatch_id, command }],
                })
                &&& effects_of(state, event) == seq![
                    SlotEffect::<C, E, L>::StartActivation { activation_id },
                ]
                &&& evidence_of(state, event) is Traversed
            } else {
                &&& next_state(state, event) == state
                &&& effects_of(state, event) == seq![
                    SlotEffect::<C, E, L>::Reject {
                        dispatch_id,
                        command,
                        reason: Refusal::Unavailable,
                    },
                ]
                &&& evidence_of(state, event) is Ignored
            }
        }),
{
}

/// An activation in flight retains a further command behind those that wait
/// already as long as fewer wait than its limit, and no other slot retains one.
/// A command that finds the limit reached goes back as overloaded and changes
/// nothing.
pub proof fn law_commands_are_retained_up_to_the_limit<C, E, L>(
    activation_id: ActivationId,
    limit: nat,
    waiters: Seq<Waiting<C>>,
    dispatch_id: DispatchId,
    command: C,
)
    ensures
        ({
            let state = SlotModel::<C, E, L>::Activating { activation_id, limit, waiters };
            let event = SlotEvent::<C, E, L>::Dispatch { dispatch_id, command };
            &&& evidence_of(state, event) is SelfLoop
            &&& if waiters.len() < limit {
                &&& next_state(state, event) == (SlotModel::<C, E, L>::Activating {
                    activation_id,
                    limit,
                    waiters: waiters.push(Waiting { dispatch_id, command }),
                })
                &&& effects_of(state, event).len() == 0
            } else {
                &&& next_state(state, event) == state
                &&& effects_of(state, event) == seq![
                    SlotEffect::<C, E, L>::Reject {
                        dispatch_id,
                        command,
                        reason: Refusal::Overloaded,
                    },
                ]
            }
        }),
{
}

/// An active slot delivers a command at once and accounts for one delivery
/// more. An inactive slot and one whose admission is closed stay as they are
/// and the command goes back as unavailable.
pub proof fn law_a_command_is_delivered_or_returned<C, E, L>(
    state: SlotModel<C, E, L>,
    dispatch_id: DispatchId,
    command: C,
)
    ensures
        ({
            let event = SlotEvent::<C, E, L>::Dispatch { dispatch_id, command };
            &&& state matches SlotModel::Active { activation_id, endpoint, lease, outstanding }
                ==> {
                &&& next_state(state, event) == (SlotModel::<C, E, L>::Active {
                    activation_id,
                    endpoint,
                    lease,
                    outstanding: outstanding + 1,
                })
                &&& effects_of(state, event) == seq![
                    SlotEffect::<C, E, L>::Deliver { activation_id, dispatch_id, endpoint, command },
                ]
                &&& evidence_of(state, event) is SelfLoop
            }
            &&& state is Inactive || state is Draining || state is Retiring ==> {
                &&& next_state(state, event) == state
                &&& effects_of(state, event) == seq![
                    SlotEffect::<C, E, L>::Reject {
                        dispatch_id,
                        command,
                        reason: Refusal::Unavailable,
                    },
                ]
                &&& evidence_of(state, event) is Ignored
            }
        }),
{
}

/// A command goes back as overloaded only from an activation that retains as
/// many commands as it may, and as cancelled only when its owner gave it up.
pub proof fn law_refusals_tell_their_reason<C, E, L>(
    state: SlotModel<C, E, L>,
    event: SlotEvent<C, E, L>,
    i: int,
)
    requires
        state.wf(),
        0 <= i < effects_of(state, event).len(),
    ensures
        effects_of(state, event)[i] matches SlotEffect::Reject { reason, .. } ==> {
            &&& reason == Refusal::Overloaded ==> event is Dispatch && state is Activating
                && state->waiters.len() == state->limit
            &&& reason == Refusal::Cancelled ==> event is CancelWaiter
            &&& reason != Refusal::Shutdown
        },
{
}

/// An activation that succeeds makes the slot active with the incarnation that
/// it produced, and delivers every retained command to it, in the order in
/// which the commands came. An incarnation that nobody waits for is retired at
/// once, and the slot stays as it is.
pub proof fn law_an_activation_delivers_what_waited<C, E, L>(
    state: SlotModel<C, E, L>,
    activation_id: ActivationId,
    endpoint: E,
    lease: L,
)
    ensures
        ({
            let event = SlotEvent::<C, E, L>::ActivationSucceeded {
                activation_id,
                endpoint,
                lease,
            };
            if state matches SlotModel::Activating { activation_id: own, .. } && own
                == activation_id {
                let waiters = state->waiters;
                &&& next_state(state, event) == (SlotModel::<C, E, L>::Active {
                    activation_id,
                    endpoint,
                    lease,
                    outstanding: waiters.len(),
                })
                &&& effects_of(state, event).len() == waiters.len()
                &&& forall|i: int|
                    0 <= i < waiters.len() ==> #[trigger] effects_of(state, event)[i] == (
                    SlotEffect::<C, E, L>::Deliver {
                        activation_id,
                        dispatch_id: waiters[i].dispatch_id,
                        endpoint,
                        command: waiters[i].command,
                    })
                &&& evidence_of(state, event) is Traversed
            } else {
                &&& next_state(state, event) == state
                &&& effects_of(state, event) == seq![
                    SlotEffect::<C, E, L>::Retire {
                        activation_id,
                        lease,
                        retirement: RetirementMode::Graceful,
                    },
                ]
                &&& evidence_of(state, event) is Ignored
            }
        }),
{
}

/// An activation that fails leaves the slot inactive: every retained command
/// goes back as unavailable, in the order in which the commands came, and then
/// the slot is forgotten. A failure of another activation does nothing.
pub proof fn law_a_failed_activation_returns_what_waited<C, E, L>(
    state: SlotModel<C, E, L>,
    activation_id: ActivationId,
)
    ensures
        ({
            let event = SlotEvent::<C, E, L>::ActivationFailed { activation_id };
            if state matches SlotModel::Activating { activation_id: own, .. } && own
                == activation_id {
                let waiters = state->waiters;
                &&& next_state(state, event) is Inactive
                &&& effects_of(state, event).len() == waiters.len() + 1
                &&& forall|i: int|
                    0 <= i < waiters.len() ==> #[trigger] effects_of(state, event)[i] == (
                    SlotEffect::<C, E, L>::Reject {
                        dispatch_id: waiters[i].dispatch_id,
                        command: waiters[i].command,
                        reason: Refusal::Unavailable,
                    })
                &&& effects_of(state, event).last() == (SlotEffect::<C, E, L>::Remove {
                    activation_id,
                })
                &&& evidence_of(state, event) is Traversed
            } else {
                &&& next_state(state, event) == state
                &&& effects_of(state, event).len() == 0
                &&& evidence_of(state, event) is Ignored
            }
        }),
{
}

/// Every waiting command can be cancelled, wherever it waits: it alone goes
/// back, as cancelled, and the others keep waiting in their order. Where
/// several wait under one identity the one that came first is meant.
pub proof fn law_every_waiting_command_can_be_cancelled<C, E, L>(
    activation_id: ActivationId,
    limit: nat,
    waiters: Seq<Waiting<C>>,
    i: int,
)
    requires
        0 <= i < waiters.len(),
        forall|j: int|
            0 <= j < i ==> (#[trigger] waiters[j]).dispatch_id != waiters[i].dispatch_id,
    ensures
        ({
            let state = SlotModel::<C, E, L>::Activating { activation_id, limit, waiters };
            let event = SlotEvent::<C, E, L>::CancelWaiter {
                activation_id,
                dispatch_id: waiters[i].dispatch_id,
            };
            &&& next_state(state, event) == (SlotModel::<C, E, L>::Activating {
                activation_id,
                limit,
                waiters: waiters.remove(i),
            })
            &&& effects_of(state, event) == seq![
                SlotEffect::<C, E, L>::Reject {
                    dispatch_id: waiters[i].dispatch_id,
                    command: waiters[i].command,
                    reason: Refusal::Cancelled,
                },
            ]
            &&& evidence_of(state, event) is SelfLoop
        }),
{
    lemma_waiter_at(waiters, waiters[i].dispatch_id, i);
}

/// A cancellation of a command that does not wait for this activation does
/// nothing.
pub proof fn law_only_a_waiting_command_can_be_cancelled<C, E, L>(
    state: SlotModel<C, E, L>,
    activation_id: ActivationId,
    dispatch_id: DispatchId,
)
    requires
        state matches SlotModel::Activating { activation_id: own, waiters, .. } ==> own
            != activation_id || forall|j: int|
            0 <= j < waiters.len() ==> (#[trigger] waiters[j]).dispatch_id != dispatch_id,
    ensures
        ({
            let event = SlotEvent::<C, E, L>::CancelWaiter { activation_id, dispatch_id };
            &&& next_state(state, event) == state
            &&& effects_of(state, event).len() == 0
            &&& evidence_of(state, event) is Ignored
        }),
{
}

/// A cancelled command is never delivered: once the activation succeeds, the
/// commands that are delivered are the others, in their order.
pub proof fn law_a_cancelled_command_is_never_delivered<C, E, L>(
    activation_id: ActivationId,
    limit: nat,
    waiters: Seq<Waiting<C>>,
    i: int,
    endpoint: E,
    lease: L,
)
    requires
        0 <= i < waiters.len(),
        forall|j: int|
            0 <= j < waiters.len() && j != i ==> (#[trigger] waiters[j]).dispatch_id
                != waiters[i].dispatch_id,
    ensures
        ({
            let state = SlotModel::<C, E, L>::Activating { activation_id, limit, waiters };
            let cancelled = next_state(
                state,
                SlotEvent::<C, E, L>::CancelWaiter {
                    activation_id,
                    dispatch_id: waiters[i].dispatch_id,
                },
            );
            let delivered = effects_of(
                cancelled,
                SlotEvent::<C, E, L>::ActivationSucceeded { activation_id, endpoint, lease },
            );
            &&& delivered.len() == waiters.len() - 1
            &&& forall|k: int|
                0 <= k < delivered.len() ==> {
                    let waiter = waiters[if k < i { k } else { k + 1 }];
                    #[trigger] delivered[k] == (SlotEffect::<C, E, L>::Deliver {
                        activation_id,
                        dispatch_id: waiter.dispatch_id,
                        endpoint,
                        command: waiter.command,
                    })
                }
        }),
{
    law_every_waiting_command_can_be_cancelled::<C, E, L>(activation_id, limit, waiters, i);
}

/// A delivery that settles is accounted for once, in an active slot as in a
/// draining one, and the last one of a drain is followed by the fence. A failed
/// delivery gives its command back as unavailable in any case; a fact about
/// another incarnation, or one that nothing is outstanding for, changes nothing
/// else.
pub proof fn law_a_settled_delivery_is_accounted_for<C, E, L>(
    state: SlotModel<C, E, L>,
    activation_id: ActivationId,
    failure: Option<(DispatchId, C)>,
)
    ensures
        ({
            let event = SlotEvent::<C, E, L>::DeliveryResolved { activation_id, failure };
            let back: Seq<SlotEffect<C, E, L>> = if failure is Some {
                seq![
                    SlotEffect::<C, E, L>::Reject {
                        dispatch_id: (failure->0).0,
                        command: (failure->0).1,
                        reason: Refusal::Unavailable,
                    },
                ]
            } else {
                Seq::empty()
            };
            match state {
                SlotModel::Active { activation_id: own, endpoint, lease, outstanding } if own
                    == activation_id && outstanding > 0 => {
                    &&& next_state(state, event) == (SlotModel::<C, E, L>::Active {
                        activation_id,
                        endpoint,
                        lease,
                        outstanding: (outstanding - 1) as nat,
                    })
                    &&& effects_of(state, event) == back
                    &&& evidence_of(state, event) is SelfLoop
                },
                SlotModel::Draining { activation_id: own, endpoint, lease, outstanding } if own
                    == activation_id && outstanding > 0 => {
                    &&& next_state(state, event) == (SlotModel::<C, E, L>::Draining {
                        activation_id,
                        endpoint,
                        lease,
                        outstanding: (outstanding - 1) as nat,
                    })
                    &&& effects_of(state, event) == if outstanding == 1 {
                        back.push(
                            SlotEffect::<C, E, L>::EnqueueFence { activation_id, endpoint },
                        )
                    } else {
                        back
                    }
                    &&& evidence_of(state, event) is SelfLoop
                },
                _ => {
                    &&& next_state(state, event) == state
                    &&& effects_of(state, event) == back
                    &&& evidence_of(state, event) is Ignored
                },
            }
        }),
{
}

/// A drain closes an active slot and keeps everything that it carries. Its
/// fence goes in at once if nothing is outstanding, and else later. A drain of
/// another incarnation, or in another phase, does nothing.
pub proof fn law_a_drain_closes_an_active_slot<C, E, L>(
    state: SlotModel<C, E, L>,
    activation_id: ActivationId,
)
    ensures
        ({
            let event = SlotEvent::<C, E, L>::BeginDrain { activation_id };
            match state {
                SlotModel::Active { activation_id: own, endpoint, lease, outstanding } if own
                    == activation_id => {
                    &&& next_state(state, event) == (SlotModel::<C, E, L>::Draining {
                        activation_id,
                        endpoint,
                        lease,
                        outstanding,
                    })
                    &&& outstanding == 0 ==> effects_of(state, event) == seq![
                        SlotEffect::<C, E, L>::EnqueueFence { activation_id, endpoint },
                    ]
                    &&& outstanding > 0 ==> effects_of(state, event).len() == 0
                    &&& evidence_of(state, event) is Traversed
                },
                _ => {
                    &&& next_state(state, event) == state
                    &&& effects_of(state, event).len() == 0
                    &&& evidence_of(state, event) is Ignored
                },
            }
        }),
{
}

/// An acknowledged fence retires the incarnation of a drain with nothing
/// outstanding gracefully, with the lease that the slot carries. In every other
/// state it does nothing.
pub proof fn law_an_acknowledged_fence_retires<C, E, L>(
    state: SlotModel<C, E, L>,
    activation_id: ActivationId,
)
    ensures
        ({
            let event = SlotEvent::<C, E, L>::FenceAcknowledged { activation_id };
            match state {
                SlotModel::Draining { activation_id: own, lease, outstanding, .. } if own
                    == activation_id && outstanding == 0 => {
                    &&& next_state(state, event) == (SlotModel::<C, E, L>::Retiring {
                        activation_id,
                    })
                    &&& effects_of(state, event) == seq![
                        SlotEffect::<C, E, L>::Retire {
                            activation_id,
                            lease,
                            retirement: RetirementMode::Graceful,
                        },
                    ]
                    &&& evidence_of(state, event) is Traversed
                },
                _ => {
                    &&& next_state(state, event) == state
                    &&& effects_of(state, event).len() == 0
                    &&& evidence_of(state, event) is Ignored
                },
            }
        }),
{
}

/// A forced drain retires the incarnation with the failure that forced it,
/// whatever is outstanding. In every other state it does nothing.
pub proof fn law_a_forced_drain_retires<C, E, L>(
    state: SlotModel<C, E, L>,
    activation_id: ActivationId,
    failure: DrainFailure,
)
    ensures
        ({
            let event = SlotEvent::<C, E, L>::ForceDrain { activation_id, failure };
            match state {
                SlotModel::Draining { activation_id: own, lease, .. } if own == activation_id => {
                    &&& next_state(state, event) == (SlotModel::<C, E, L>::Retiring {
                        activation_id,
                    })
                    &&& effects_of(state, event) == seq![
                        SlotEffect::<C, E, L>::Retire {
                            activation_id,
                            lease,
                            retirement: RetirementMode::Forced(failure),
                        },
                    ]
                    &&& evidence_of(state, event) is Traversed
                },
                _ => {
                    &&& next_state(state, event) == state
                    &&& effects_of(state, event).len() == 0
                    &&& evidence_of(state, event) is Ignored
                },
            }
        }),
{
}

/// The end of the incarnation that a slot has, whether it still takes commands,
/// drains or retires, leaves the slot inactive and has it forgotten. The end of
/// any other one does nothing.
pub proof fn law_termination_ends_the_incarnation<C, E, L>(
    state: SlotModel<C, E, L>,
    activation_id: ActivationId,
)
    ensures
        ({
            let event = SlotEvent::<C, E, L>::Terminated { activation_id };
            let own = match state {
                SlotModel::Active { activation_id, .. } => Some(activation_id),
                SlotModel::Draining { activation_id, .. } => Some(activation_id),
                SlotModel::Retiring { activation_id } => Some(activation_id),
                _ => None,
            };
            if own == Some(activation_id) {
                &&& next_state(state, event) is Inactive
                &&& effects_of(state, event) == seq![
                    SlotEffect::<C, E, L>::Remove { activation_id },
                ]
                &&& evidence_of(state, event) is Traversed
            } else {
                &&& next_state(state, event) == state
                &&& effects_of(state, event).len() == 0
                &&& evidence_of(state, event) is Ignored
            }
        }),
{
}

/// A slot is modelled as what it stores: nothing of it is left out or counted
/// otherwise.
pub proof fn law_a_slot_is_what_it_stores<C, E, L>(slot: EntitySlot<C, E, L>)
    ensures
        match slot {
            EntitySlot::Inactive => slot@ is Inactive,
            EntitySlot::Activating(stored) => slot@ == (SlotModel::<C, E, L>::Activating {
                activation_id: stored.activation_id,
                limit: stored.waiter_limit@ as nat,
                waiters: stored.waiters@,
            }),
            EntitySlot::Active(stored) => slot@ == (SlotModel::<C, E, L>::Active {
                activation_id: stored.activation_id,
                endpoint: stored.endpoint,
                lease: stored.lease,
                outstanding: stored.outstanding as nat,
            }),
            EntitySlot::Draining(stored) => slot@ == (SlotModel::<C, E, L>::Draining {
                activation_id: stored.activation_id,
                endpoint: stored.endpoint,
                lease: stored.lease,
                outstanding: stored.outstanding as nat,
            }),
            EntitySlot::Retiring { activation_id } => slot@ == (SlotModel::<C, E, L>::Retiring {
                activation_id,
            }),
        },
{
}

} // verus!
