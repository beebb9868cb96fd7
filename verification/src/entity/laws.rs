//! What holds of every step of an entity slot.

use vstd::multiset::Multiset;
use vstd::prelude::*;

use crate::entity::id::{ActivationId, DispatchId};
use crate::entity::lifecycle::{
    applies, deliveries, effects_of, evidence_of, fence, leftovers, lemma_waiter_exists,
    next_state, rejections, returned, waiter_at, LifecycleEdge, LifecyclePhase, Refusal,
    RetirementMode, SlotEffect, SlotEvent, SlotModel, TransitionEvidence, Waiting,
};

verus! {

/// The commands that a sequence of retained commands holds.
pub open spec fn retained<C>(waiters: Seq<Waiting<C>>) -> Multiset<(DispatchId, C)>
    decreases waiters.len(),
{
    if waiters.len() == 0 {
        Multiset::empty()
    } else {
        retained(waiters.drop_last()).insert((waiters.last().dispatch_id, waiters.last().command))
    }
}

/// The commands that a slot holds.
pub open spec fn held<C, E, L>(state: SlotModel<C, E, L>) -> Multiset<(DispatchId, C)> {
    match state {
        SlotModel::Activating { waiters, .. } => retained(waiters),
        _ => Multiset::empty(),
    }
}

/// The command that an event brings.
pub open spec fn brought<C, E, L>(event: SlotEvent<C, E, L>) -> Multiset<(DispatchId, C)> {
    match event {
        SlotEvent::ClaimActivation { dispatch_id, command, .. } => Multiset::singleton(
            (dispatch_id, command),
        ),
        SlotEvent::Dispatch { dispatch_id, command } => Multiset::singleton(
            (dispatch_id, command),
        ),
        SlotEvent::DeliveryResolved { failure: Some((dispatch_id, command)), .. } =>
            Multiset::singleton((dispatch_id, command)),
        _ => Multiset::empty(),
    }
}

/// The command that an effect hands over, to the incarnation or to its owner.
pub open spec fn handed<C, E, L>(effect: SlotEffect<C, E, L>) -> Multiset<(DispatchId, C)> {
    match effect {
        SlotEffect::Deliver { dispatch_id, command, .. } => Multiset::singleton(
            (dispatch_id, command),
        ),
        SlotEffect::Reject { dispatch_id, command, .. } => Multiset::singleton(
            (dispatch_id, command),
        ),
        _ => Multiset::empty(),
    }
}

/// The commands that effects hand over.
pub open spec fn handed_over<C, E, L>(effects: Seq<SlotEffect<C, E, L>>) -> Multiset<
    (DispatchId, C),
>
    decreases effects.len(),
{
    if effects.len() == 0 {
        Multiset::empty()
    } else {
        handed_over(effects.drop_last()).add(handed(effects.last()))
    }
}

proof fn lemma_handed_over_push<C, E, L>(
    effects: Seq<SlotEffect<C, E, L>>,
    effect: SlotEffect<C, E, L>,
)
    ensures
        handed_over(effects.push(effect)) == handed_over(effects).add(handed(effect)),
{
    assert(effects.push(effect).drop_last() =~= effects);
}

proof fn lemma_handed_over_one<C, E, L>(effect: SlotEffect<C, E, L>)
    ensures
        handed_over(seq![effect]) =~= handed(effect),
{
    assert(seq![effect] =~= Seq::empty().push(effect));
    lemma_handed_over_push(Seq::empty(), effect);
}

proof fn lemma_deliveries_hand_over<C, E, L>(
    activation_id: ActivationId,
    endpoint: E,
    waiters: Seq<Waiting<C>>,
)
    ensures
        handed_over(deliveries::<C, E, L>(activation_id, endpoint, waiters)) =~= retained(waiters),
    decreases waiters.len(),
{
    let all = deliveries::<C, E, L>(activation_id, endpoint, waiters);
    if waiters.len() > 0 {
        lemma_deliveries_hand_over::<C, E, L>(activation_id, endpoint, waiters.drop_last());
        assert(all.drop_last() =~= deliveries::<C, E, L>(
            activation_id,
            endpoint,
            waiters.drop_last(),
        ));
    }
}

proof fn lemma_rejections_hand_over<C, E, L>(waiters: Seq<Waiting<C>>, reason: Refusal)
    ensures
        handed_over(rejections::<C, E, L>(waiters, reason)) =~= retained(waiters),
    decreases waiters.len(),
{
    let all = rejections::<C, E, L>(waiters, reason);
    if waiters.len() > 0 {
        lemma_rejections_hand_over::<C, E, L>(waiters.drop_last(), reason);
        assert(all.drop_last() =~= rejections::<C, E, L>(waiters.drop_last(), reason));
    }
}

proof fn lemma_retained_remove<C>(waiters: Seq<Waiting<C>>, i: int)
    requires
        0 <= i < waiters.len(),
    ensures
        retained(waiters.remove(i)).insert((waiters[i].dispatch_id, waiters[i].command))
            =~= retained(waiters),
    decreases waiters.len(),
{
    let last = waiters.len() - 1;
    if i == last {
        assert(waiters.remove(i) =~= waiters.drop_last());
    } else {
        lemma_retained_remove(waiters.drop_last(), i);
        assert(waiters.remove(i).drop_last() =~= waiters.drop_last().remove(i));
        assert(waiters.remove(i).last() == waiters.last());
        assert(waiters.drop_last()[i] == waiters[i]);
    }
}

/// Every command stays in exactly one place: what the slot held and what the
/// event brought is what the slot holds afterwards and what the effects hand
/// over, to the incarnation or back to the owner. No command is lost and none
/// is duplicated.
pub proof fn law_commands_keep_one_owner<C, E, L>(
    state: SlotModel<C, E, L>,
    event: SlotEvent<C, E, L>,
)
    ensures
        held(state).add(brought(event)) == held(next_state(state, event)).add(
            handed_over(effects_of(state, event)),
        ),
{
    let next = next_state(state, event);
    let effects = effects_of(state, event);
    let none = Seq::<SlotEffect<C, E, L>>::empty();
    assert(handed_over(none) =~= Multiset::empty());
    if effects.len() == 1 {
        assert(effects =~= seq![effects[0]]);
        lemma_handed_over_one(effects[0]);
    }
    if effects.len() == 0 {
        assert(effects =~= none);
    }
    if applies(state, event) {
        match (state, event) {
            (_, SlotEvent::ClaimActivation { dispatch_id, command, .. }) => {
                let first = Waiting { dispatch_id, command };
                assert(seq![first].drop_last() =~= Seq::empty());
                assert(retained(Seq::<Waiting<C>>::empty()) == Multiset::<(DispatchId, C)>::empty());
                assert(retained(seq![first]) =~= brought(event));
            },
            (
                SlotModel::Activating { limit, waiters, .. },
                SlotEvent::Dispatch { dispatch_id, command },
            ) => {
                let waiting = Waiting { dispatch_id, command };
                assert(waiters.push(waiting).drop_last() =~= waiters);
            },
            (
                SlotModel::Activating { activation_id, waiters, .. },
                SlotEvent::ActivationSucceeded { endpoint, .. },
            ) => {
                lemma_deliveries_hand_over::<C, E, L>(activation_id, endpoint, waiters);
            },
            (
                SlotModel::Activating { activation_id, waiters, .. },
                SlotEvent::ActivationFailed { .. },
            ) => {
                lemma_rejections_hand_over::<C, E, L>(waiters, Refusal::Unavailable);
                lemma_handed_over_push(
                    rejections::<C, E, L>(waiters, Refusal::Unavailable),
                    SlotEffect::Remove { activation_id },
                );
            },
            (
                SlotModel::Activating { waiters, .. },
                SlotEvent::CancelWaiter { dispatch_id, .. },
            ) => {
                lemma_waiter_exists(waiters, dispatch_id);
                lemma_retained_remove(waiters, waiter_at(waiters, dispatch_id));
            },
            (
                SlotModel::Draining { activation_id, endpoint, outstanding, .. },
                SlotEvent::DeliveryResolved { failure, .. },
            ) => {
                let back = returned::<C, E, L>(failure);
                let fenced = SlotEffect::EnqueueFence { activation_id, endpoint };
                if outstanding == 1 {
                    assert(effects =~= back.push(fenced));
                    lemma_handed_over_push(back, fenced);
                } else {
                    assert(effects =~= back);
                }
                if let Some((dispatch_id, command)) = failure {
                    lemma_handed_over_one(
                        SlotEffect::<C, E, L>::Reject {
                            dispatch_id,
                            command,
                            reason: Refusal::Unavailable,
                        },
                    );
                }
            },
            _ => {},
        }
    }
    assert(held(state).add(brought(event)) =~= held(next).add(handed_over(effects)));
}

/// A fact of another incarnation changes nothing: the slot stays as it is, and
/// only what the fact carries is given back or retired.
pub proof fn law_stale_facts_are_ignored<C, E, L>(
    state: SlotModel<C, E, L>,
    event: SlotEvent<C, E, L>,
)
    requires
        event.subject() is Some,
        event.subject() != state.activation(),
    ensures
        next_state(state, event) == state,
        effects_of(state, event) == leftovers(event),
        evidence_of(state, event) == (TransitionEvidence::Ignored {
            phase: state.phase(),
            trigger: event.trigger(),
        }),
{
}

/// Whether the lifecycle has an edge from one phase to another.
pub open spec fn connected(edge: LifecycleEdge) -> bool {
    match (edge.from, edge.to) {
        (LifecyclePhase::Inactive, LifecyclePhase::Activating) => true,
        (LifecyclePhase::Activating, LifecyclePhase::Active) => true,
        (LifecyclePhase::Activating, LifecyclePhase::Inactive) => true,
        (LifecyclePhase::Active, LifecyclePhase::Draining) => true,
        (LifecyclePhase::Active, LifecyclePhase::Inactive) => true,
        (LifecyclePhase::Draining, LifecyclePhase::Retiring) => true,
        (LifecyclePhase::Draining, LifecyclePhase::Inactive) => true,
        (LifecyclePhase::Retiring, LifecyclePhase::Inactive) => true,
        _ => false,
    }
}

/// A slot only moves along the edges of the lifecycle: an incarnation is
/// activated, drains, retires and leaves, and never goes back.
pub proof fn law_phases_follow_the_lifecycle<C, E, L>(
    state: SlotModel<C, E, L>,
    event: SlotEvent<C, E, L>,
)
    ensures
        evidence_of(state, event) matches TransitionEvidence::Traversed(edge) ==> connected(edge)
            && edge.from == state.phase() && edge.to == next_state(state, event).phase(),
        !(evidence_of(state, event) is Traversed) ==> next_state(state, event).phase()
            == state.phase(),
{
}

/// A slot never acquires a second activation: it keeps the one it has until it
/// is inactive, and only an inactive slot can be claimed.
pub proof fn law_a_slot_has_one_activation<C, E, L>(
    state: SlotModel<C, E, L>,
    event: SlotEvent<C, E, L>,
)
    requires
        !(state is Inactive),
    ensures
        next_state(state, event) is Inactive || next_state(state, event).activation()
            == state.activation(),
        forall|i: int|
            0 <= i < effects_of(state, event).len() ==> !((#[trigger] effects_of(
                state,
                event,
            )[i]) is StartActivation),
{
}

/// The fence of a drain is enqueued when the last admitted delivery has
/// settled and not before, and never a second time.
pub proof fn law_the_fence_follows_every_delivery<C, E, L>(
    state: SlotModel<C, E, L>,
    event: SlotEvent<C, E, L>,
)
    ensures
        forall|i: int|
            0 <= i < effects_of(state, event).len() && ((#[trigger] effects_of(
                state,
                event,
            )[i]) is EnqueueFence) ==> next_state(state, event) is Draining && next_state(
                state,
                event,
            ).load() == 0,
        !(state is Draining && state.load() == 0) && next_state(state, event) is Draining
            && next_state(state, event).load() == 0 ==> effects_of(state, event).len() >= 1
            && effects_of(state, event).last() is EnqueueFence,
        state is Draining && state.load() == 0 ==> forall|i: int|
            0 <= i < effects_of(state, event).len() ==> !((#[trigger] effects_of(
                state,
                event,
            )[i]) is EnqueueFence),
{
    let effects = effects_of(state, event);
    if applies(state, event) {
        match (state, event) {
            (
                SlotModel::Draining { activation_id, endpoint, outstanding, .. },
                SlotEvent::DeliveryResolved { failure, .. },
            ) => {
                let back = returned::<C, E, L>(failure);
                let fenced = fence::<C, E, L>(activation_id, endpoint, (outstanding - 1) as nat);
                assert(effects == back + fenced);
                if outstanding == 1 {
                    assert(effects.last() == fenced[0]);
                }
            },
            _ => {},
        }
    }
}

/// Once admission has closed no command reaches the incarnation any more.
pub proof fn law_a_drain_admits_nothing<C, E, L>(
    state: SlotModel<C, E, L>,
    event: SlotEvent<C, E, L>,
)
    requires
        state is Draining || state is Retiring,
    ensures
        forall|i: int|
            0 <= i < effects_of(state, event).len() ==> !((#[trigger] effects_of(
                state,
                event,
            )[i]) is Deliver),
        next_state(state, event).load() <= state.load(),
{
}

/// The incarnation of a slot is retired only when its drain ends, with the
/// lease that its activation brought: gracefully after the fence, with nothing
/// outstanding, or by force with the reason given.
pub proof fn law_retirement_ends_a_drain<C, E, L>(
    state: SlotModel<C, E, L>,
    event: SlotEvent<C, E, L>,
)
    requires
        !(state is Retiring),
        next_state(state, event) is Retiring,
    ensures
        state is Draining,
        effects_of(state, event) == seq![
            SlotEffect::<C, E, L>::Retire {
                activation_id: state.activation()->0,
                lease: state->Draining_lease,
                retirement: match event {
                    SlotEvent::ForceDrain { failure, .. } => RetirementMode::Forced(failure),
                    _ => RetirementMode::Graceful,
                },
            },
        ],
        !(event is ForceDrain) ==> event is FenceAcknowledged && state.load() == 0,
{
}

/// A slot is forgotten exactly when its activation failed or its incarnation
/// terminated, after everything else that the event asked for.
pub proof fn law_removal_follows_the_end<C, E, L>(
    state: SlotModel<C, E, L>,
    event: SlotEvent<C, E, L>,
)
    ensures
        !(state is Inactive) && next_state(state, event) is Inactive ==> effects_of(
            state,
            event,
        ).len() >= 1 && effects_of(state, event).last() == (SlotEffect::<C, E, L>::Remove {
            activation_id: state.activation()->0,
        }),
        forall|i: int|
            0 <= i < effects_of(state, event).len() && ((#[trigger] effects_of(
                state,
                event,
            )[i]) is Remove) ==> next_state(state, event) is Inactive && i == effects_of(
                state,
                event,
            ).len() - 1,
{
}

/// How many facts are still to come of work that was scheduled for a slot: one
/// of its activation, one of every outstanding delivery, one of its fence, and
/// one of its termination.
pub open spec fn owed<C, E, L>(state: SlotModel<C, E, L>) -> nat {
    match state {
        SlotModel::Inactive => 0,
        SlotModel::Activating { .. } => 1,
        SlotModel::Active { outstanding, .. } => outstanding,
        SlotModel::Draining { outstanding, .. } => if outstanding == 0 {
            1
        } else {
            outstanding
        },
        SlotModel::Retiring { .. } => 1,
    }
}

/// Whether an effect schedules work of which a fact will come.
pub open spec fn schedules<C, E, L>(effect: SlotEffect<C, E, L>) -> bool {
    match effect {
        SlotEffect::StartActivation { .. } => true,
        SlotEffect::Deliver { .. } => true,
        SlotEffect::EnqueueFence { .. } => true,
        SlotEffect::Retire { .. } => true,
        SlotEffect::Reject { .. } => false,
        SlotEffect::Remove { .. } => false,
    }
}

/// How much work effects schedule.
pub open spec fn scheduled<C, E, L>(effects: Seq<SlotEffect<C, E, L>>) -> nat
    decreases effects.len(),
{
    if effects.len() == 0 {
        0
    } else {
        scheduled(effects.drop_last()) + if schedules(effects.last()) {
            1nat
        } else {
            0nat
        }
    }
}

/// Whether an event is the fact of work that was scheduled.
pub open spec fn is_fact<C, E, L>(event: SlotEvent<C, E, L>) -> bool {
    match event {
        SlotEvent::ActivationSucceeded { .. } => true,
        SlotEvent::ActivationFailed { .. } => true,
        SlotEvent::DeliveryResolved { .. } => true,
        SlotEvent::FenceAcknowledged { .. } => true,
        SlotEvent::ForceDrain { .. } => true,
        SlotEvent::Terminated { .. } => true,
        _ => false,
    }
}

proof fn lemma_scheduled_push<C, E, L>(
    effects: Seq<SlotEffect<C, E, L>>,
    effect: SlotEffect<C, E, L>,
)
    ensures
        scheduled(effects.push(effect)) == scheduled(effects) + if schedules(effect) {
            1nat
        } else {
            0nat
        },
{
    assert(effects.push(effect).drop_last() =~= effects);
}

proof fn lemma_scheduled_one<C, E, L>(effect: SlotEffect<C, E, L>)
    ensures
        scheduled(seq![effect]) == if schedules(effect) {
            1nat
        } else {
            0nat
        },
{
    assert(seq![effect] =~= Seq::empty().push(effect));
    lemma_scheduled_push(Seq::empty(), effect);
}

proof fn lemma_scheduled_alike<C, E, L>(effects: Seq<SlotEffect<C, E, L>>, all: bool)
    requires
        forall|i: int| 0 <= i < effects.len() ==> schedules(#[trigger] effects[i]) == all,
    ensures
        scheduled(effects) == if all {
            effects.len()
        } else {
            0
        },
    decreases effects.len(),
{
    if effects.len() > 0 {
        let before = effects.drop_last();
        assert forall|i: int| 0 <= i < before.len() implies schedules(#[trigger] before[i])
            == all by {
            assert(before[i] == effects[i]);
        }
        lemma_scheduled_alike(before, all);
        assert(schedules(effects[effects.len() - 1]) == all);
    }
}

/// Work and facts balance: what a slot still waits for is what it waited for,
/// without the fact that arrived, and with the work that was scheduled in
/// answer. The fact of a fence comes when nothing else is outstanding, and that
/// of a termination when the incarnation was told to end.
pub proof fn law_every_scheduled_work_is_owed_a_fact<C, E, L>(
    state: SlotModel<C, E, L>,
    event: SlotEvent<C, E, L>,
)
    requires
        applies(state, event),
        event is ForceDrain ==> state.load() == 0,
        event is Terminated ==> state is Retiring,
    ensures
        owed(next_state(state, event)) + if is_fact(event) {
            1nat
        } else {
            0nat
        } == owed(state) + scheduled(effects_of(state, event)),
{
    let effects = effects_of(state, event);
    if effects.len() == 0 {
        assert(effects =~= Seq::empty());
    }
    if effects.len() == 1 {
        assert(effects =~= seq![effects[0]]);
        lemma_scheduled_one(effects[0]);
    }
    match (state, event) {
        (SlotModel::Activating { .. }, SlotEvent::ActivationSucceeded { .. }) => {
            lemma_scheduled_alike(effects, true);
        },
        (SlotModel::Activating { .. }, SlotEvent::ActivationFailed { .. }) => {
            lemma_scheduled_alike(effects, false);
        },
        (
            SlotModel::Draining { activation_id, endpoint, outstanding, .. },
            SlotEvent::DeliveryResolved { failure, .. },
        ) => {
            let back = returned::<C, E, L>(failure);
            let fenced = SlotEffect::EnqueueFence { activation_id, endpoint };
            lemma_scheduled_alike(back, false);
            if outstanding == 1 {
                assert(effects =~= back.push(fenced));
                lemma_scheduled_push(back, fenced);
            } else {
                assert(effects =~= back);
            }
        },
        _ => {},
    }
}

/// Once admission is closed and no fact is to come, nothing is left of a slot:
/// a drain that has settled retains no incarnation.
pub proof fn law_a_settled_drain_leaves_nothing<C, E, L>(state: SlotModel<C, E, L>)
    requires
        !(state is Active),
        owed(state) == 0,
    ensures
        state is Inactive,
{
}

} // verus!
