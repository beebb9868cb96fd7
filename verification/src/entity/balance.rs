//! What holds between the lifecycle tasks of a family and its slots.

use vstd::prelude::*;

use crate::entity::directory::{
    calls_of, drain_effects, drained_state, drains, forgets, DirectoryModel, DirectoryOutput,
    EffectCall,
};
use crate::entity::id::{ActivationId, DispatchId, EntityId};
use crate::entity::laws::{
    is_fact, law_a_settled_drain_leaves_nothing, law_every_scheduled_work_is_owed_a_fact,
    law_removal_follows_the_end, owed, scheduled,
};
use crate::entity::lifecycle::{
    applies, effects_of, next_state, SlotEffect, SlotEvent, SlotModel,
};
use crate::entity::runtime::{calls_of_all, settled_by};

verus! {

/// How many facts are still to come of work that was scheduled for some
/// entities.
pub open spec fn owed_by<I, C, E, L>(directory: DirectoryModel<I, C, E, L>, ids: Set<I>) -> nat
    decreases ids.len(),
    when ids.finite()
{
    if ids.len() == 0 {
        0
    } else {
        let id = ids.choose();
        owed(directory.state(id)) + owed_by(directory, ids.remove(id))
    }
}

/// How many facts are still to come of work that was scheduled for a family.
pub open spec fn owed_in_all<I, C, E, L>(directory: DirectoryModel<I, C, E, L>) -> nat {
    owed_by(directory, directory.slots.dom())
}

/// How many of these calls are carried out by a lifecycle task. A command that
/// is returned needs none.
pub open spec fn tasks<I, C, E, L>(calls: Seq<EffectCall<I, C, E, L>>) -> nat
    decreases calls.len(),
{
    if calls.len() == 0 {
        0
    } else {
        tasks(calls.drop_last()) + if calls.last() is Reject {
            0nat
        } else {
            1nat
        }
    }
}

/// Whether every represented entity has an incarnation, or is about to.
pub open spec fn all_live<I, C, E, L>(directory: DirectoryModel<I, C, E, L>) -> bool {
    forall|id: I| #[trigger]
        directory.slots.contains_key(id) ==> !(directory.state(id) is Inactive)
}

proof fn lemma_owed_by_remove<I, C, E, L>(
    directory: DirectoryModel<I, C, E, L>,
    ids: Set<I>,
    id: I,
)
    requires
        ids.finite(),
        ids.contains(id),
    ensures
        owed_by(directory, ids) == owed(directory.state(id)) + owed_by(directory, ids.remove(id)),
    decreases ids.len(),
{
    let chosen = ids.choose();
    if chosen != id {
        lemma_owed_by_remove(directory, ids.remove(chosen), id);
        lemma_owed_by_remove(directory, ids.remove(id), chosen);
        assert(ids.remove(chosen).remove(id) =~= ids.remove(id).remove(chosen));
    }
}

proof fn lemma_owed_by_alike<I, C, E, L>(
    one: DirectoryModel<I, C, E, L>,
    other: DirectoryModel<I, C, E, L>,
    ids: Set<I>,
)
    requires
        ids.finite(),
        forall|id: I| #[trigger] ids.contains(id) ==> one.state(id) == other.state(id),
    ensures
        owed_by(one, ids) == owed_by(other, ids),
    decreases ids.len(),
{
    if ids.len() > 0 {
        let chosen = ids.choose();
        assert(ids.contains(chosen));
        lemma_owed_by_alike(one, other, ids.remove(chosen));
    }
}

/// A change to one entity changes what is owed in all by what it changes for
/// that entity.
proof fn lemma_owed_change<I, C, E, L>(
    before: DirectoryModel<I, C, E, L>,
    after: DirectoryModel<I, C, E, L>,
    id: I,
)
    requires
        before.slots.dom().finite(),
        after.slots.dom().finite(),
        before.slots.dom().remove(id) == after.slots.dom().remove(id),
        forall|other: I| other != id ==> #[trigger] before.state(other) == after.state(other),
    ensures
        owed_in_all(after) + owed(before.state(id)) == owed_in_all(before) + owed(after.state(id)),
{
    let rest = before.slots.dom().remove(id);
    lemma_owed_by_alike(before, after, rest);
    if before.slots.contains_key(id) {
        lemma_owed_by_remove(before, before.slots.dom(), id);
    } else {
        assert(rest =~= before.slots.dom());
    }
    if after.slots.contains_key(id) {
        lemma_owed_by_remove(after, after.slots.dom(), id);
    } else {
        assert(rest =~= after.slots.dom());
    }
}

proof fn lemma_tasks_of_calls<I, C, E, L>(
    entity_id: EntityId<I>,
    effects: Seq<SlotEffect<C, E, L>>,
)
    ensures
        tasks(calls_of(entity_id, effects)) == scheduled(effects),
    decreases effects.len(),
{
    if effects.len() > 0 {
        let before = effects.drop_last();
        lemma_tasks_of_calls(entity_id, before);
        let calls = calls_of(entity_id, effects);
        if !(effects.last() is Remove) {
            assert(calls.drop_last() =~= calls_of(entity_id, before));
        }
    }
}

/// A settled event leaves in the slot what the slot decided, and nothing of a
/// slot that came to its end.
proof fn lemma_settled_state<I, C, E, L>(
    directory: DirectoryModel<I, C, E, L>,
    id: I,
    event: SlotEvent<C, E, L>,
)
    requires
        directory.wf(),
        directory.slots.contains_key(id),
        !(directory.state(id) is Inactive),
    ensures
        settled_by(directory, id, event).state(id) == next_state(directory.state(id), event),
        settled_by(directory, id, event).slots.contains_key(id) <==> !(next_state(
            directory.state(id),
            event,
        ) is Inactive),
        settled_by(directory, id, event).slots.dom().remove(id) == directory.slots.dom().remove(id),
        settled_by(directory, id, event).slots.dom().finite(),
        forall|other: I|
            other != id ==> #[trigger] settled_by(directory, id, event).state(other)
                == directory.state(other),
{
    let state = directory.state(id);
    let effects = effects_of(state, event);
    let after = settled_by(directory, id, event);
    law_removal_follows_the_end(state, event);
    if next_state(state, event) is Inactive {
        assert(effects[effects.len() - 1] is Remove);
        assert(forgets(effects));
    } else {
        assert(!forgets(effects));
    }
    assert(after.slots.dom().remove(id) =~= directory.slots.dom().remove(id));
    assert forall|other: I| other != id implies #[trigger] after.state(other) == directory.state(
        other,
    ) by {
        assert(after.slots.contains_key(other) == directory.slots.contains_key(other));
    }
}

/// Tasks and facts of a family balance: the facts that are still to come are
/// those that were, without the one that arrived, and with one for every task
/// that is scheduled in answer.
pub proof fn law_every_task_of_a_family_is_owed_a_fact<I, C, E, L>(
    directory: DirectoryModel<I, C, E, L>,
    entity_id: EntityId<I>,
    event: SlotEvent<C, E, L>,
)
    requires
        directory.wf(),
        directory.slots.contains_key(entity_id@),
        !(directory.state(entity_id@) is Inactive),
        applies(directory.state(entity_id@), event),
        event is ForceDrain ==> directory.state(entity_id@).load() == 0,
        event is Terminated ==> directory.state(entity_id@) is Retiring,
    ensures
        owed_in_all(settled_by(directory, entity_id@, event)) + if is_fact(event) {
            1nat
        } else {
            0nat
        } == owed_in_all(directory) + tasks(
            calls_of(entity_id, effects_of(directory.state(entity_id@), event)),
        ),
{
    let id = entity_id@;
    lemma_settled_state(directory, id, event);
    lemma_owed_change(directory, settled_by(directory, id, event), id);
    law_every_scheduled_work_is_owed_a_fact(directory.state(id), event);
    lemma_tasks_of_calls(entity_id, effects_of(directory.state(id), event));
}

/// A dispatched command schedules as many tasks as facts are owed of it: one
/// activation for the first command of an entity, one delivery for a command of
/// an active one, and none for a command that is retained or returned.
pub proof fn law_a_dispatch_schedules_what_it_owes<I, C, E, L>(
    directory: DirectoryModel<I, C, E, L>,
    entity_id: EntityId<I>,
    dispatch_id: DispatchId,
    fresh: ActivationId,
    command: C,
)
    requires
        directory.wf(),
        all_live(directory),
    ensures
        owed_in_all(directory.dispatched(entity_id@, dispatch_id, fresh, command)) == owed_in_all(
            directory,
        ) + tasks(
            calls_of(
                entity_id,
                effects_of(
                    directory.state(entity_id@),
                    directory.dispatch_event(entity_id@, dispatch_id, fresh, command),
                ),
            ),
        ),
        all_live(directory.dispatched(entity_id@, dispatch_id, fresh, command)),
{
    let id = entity_id@;
    let state = directory.state(id);
    let event = directory.dispatch_event(id, dispatch_id, fresh, command);
    let after = directory.dispatched(id, dispatch_id, fresh, command);
    let effects = effects_of(state, event);
    lemma_tasks_of_calls(entity_id, effects);
    assert(after.state(id) == next_state(state, event));
    assert(after.slots.dom().remove(id) =~= directory.slots.dom().remove(id));
    assert forall|other: I| other != id implies #[trigger] after.state(other) == directory.state(
        other,
    ) by {
        assert(after.slots.contains_key(other) == directory.slots.contains_key(other));
    }
    lemma_owed_change(directory, after, id);
    if applies(state, event) {
        law_every_scheduled_work_is_owed_a_fact(state, event);
    } else {
        assert(effects.len() == 1);
        assert(effects.drop_last() =~= Seq::empty());
        assert(scheduled(effects.drop_last()) == 0);
    }
    assert forall|other: I| #[trigger] after.slots.contains_key(other) implies !(after.state(
        other,
    ) is Inactive) by {
        if other != id {
            assert(directory.slots.contains_key(other));
            assert(after.state(other) == directory.state(other));
        }
    }
}

/// No entity stays represented without an incarnation: whatever ends the last
/// one removes its slot.
pub proof fn law_only_live_entities_are_represented<I, C, E, L>(
    directory: DirectoryModel<I, C, E, L>,
    id: I,
    event: SlotEvent<C, E, L>,
)
    requires
        directory.wf(),
        all_live(directory),
    ensures
        all_live(settled_by(directory, id, event)),
        all_live(directory.drained()),
{
    let after = settled_by(directory, id, event);
    if directory.slots.contains_key(id) {
        lemma_settled_state(directory, id, event);
    } else {
        assert(after == directory);
    }
    assert forall|other: I| #[trigger] after.slots.contains_key(other) implies !(after.state(
        other,
    ) is Inactive) by {
        if other != id {
            assert(directory.slots.dom().remove(id).contains(other));
            assert(directory.slots.contains_key(other));
            assert(after.state(other) == directory.state(other));
        }
    }
    let drained = directory.drained();
    assert forall|other: I| #[trigger] drained.slots.contains_key(other) implies !(drained.state(
        other,
    ) is Inactive) by {
        assert(directory.slots.contains_key(other));
        assert(drained.state(other) == drained_state(directory.state(other)));
    }
}

/// A family whose tasks have settled drains every incarnation: none of them is
/// active after the drain request, and each owes the answer to its fence.
pub proof fn law_a_settled_family_drains_whole<I, C, E, L>(
    directory: DirectoryModel<I, C, E, L>,
    id: I,
)
    requires
        directory.wf(),
        all_live(directory),
        owed_in_all(directory) == 0,
        directory.slots.contains_key(id),
    ensures
        directory.state(id) is Active,
        directory.drained().state(id) is Draining,
        owed(directory.drained().state(id)) == 1,
{
    lemma_owed_by_remove(directory, directory.slots.dom(), id);
    assert(directory.slots.contains_key(id));
    assert(directory.drained().state(id) == drained_state(directory.state(id)));
}

proof fn lemma_tasks_add<I, C, E, L>(
    earlier: Seq<EffectCall<I, C, E, L>>,
    later: Seq<EffectCall<I, C, E, L>>,
)
    ensures
        tasks(earlier + later) == tasks(earlier) + tasks(later),
    decreases later.len(),
{
    if later.len() == 0 {
        assert(earlier + later =~= earlier);
    } else {
        lemma_tasks_add(earlier, later.drop_last());
        assert((earlier + later).drop_last() =~= earlier + later.drop_last());
        assert((earlier + later).last() == later.last());
    }
}

/// The drain of a family whose tasks have settled schedules one fence for every
/// incarnation, and that is what it is owed then.
pub proof fn law_a_settled_family_is_fenced<I, C, E, L>(
    directory: DirectoryModel<I, C, E, L>,
    outputs: Seq<DirectoryOutput<I, C, E, L>>,
)
    requires
        directory.wf(),
        all_live(directory),
        owed_in_all(directory) == 0,
        drains(outputs, directory),
    ensures
        tasks(calls_of_all(directory, outputs)) == outputs.len(),
        owed_in_all(directory.drained()) == directory.slots.len(),
{
    lemma_fences(directory, outputs, outputs.len());
    assert(outputs.take(outputs.len() as int) =~= outputs);
    let drained = directory.drained();
    assert(drained.slots.dom() =~= directory.slots.dom());
    lemma_each_owes_one(directory, drained.slots.dom());
}

proof fn lemma_fences<I, C, E, L>(
    directory: DirectoryModel<I, C, E, L>,
    outputs: Seq<DirectoryOutput<I, C, E, L>>,
    count: nat,
)
    requires
        directory.wf(),
        all_live(directory),
        owed_in_all(directory) == 0,
        drains(outputs, directory),
        count <= outputs.len(),
    ensures
        tasks(calls_of_all(directory, outputs.take(count as int))) == count,
    decreases count,
{
    let first = outputs.take(count as int);
    if count > 0 {
        let before = (count - 1) as nat;
        let output = outputs[count - 1];
        let id = output.entity_id@;
        lemma_fences(directory, outputs, before);
        assert(first.drop_last() =~= outputs.take(before as int));
        assert(first.last() == output);
        assert(directory.state(id).activation() is Some);
        assert(directory.slots.contains_key(id));
        law_a_settled_family_drains_whole(directory, id);
        lemma_owed_by_remove(directory, directory.slots.dom(), id);
        let effects = drain_effects(directory.state(id));
        assert(effects.len() == 1);
        assert(effects.drop_last() =~= Seq::empty());
        assert(scheduled(effects.drop_last()) == 0);
        lemma_tasks_of_calls(output.entity_id, effects);
        lemma_tasks_add(
            calls_of_all(directory, outputs.take(before as int)),
            calls_of(output.entity_id, effects),
        );
    }
}

proof fn lemma_each_owes_one<I, C, E, L>(directory: DirectoryModel<I, C, E, L>, ids: Set<I>)
    requires
        directory.wf(),
        all_live(directory),
        owed_in_all(directory) == 0,
        ids.finite(),
        ids.subset_of(directory.slots.dom()),
    ensures
        owed_by(directory.drained(), ids) == ids.len(),
    decreases ids.len(),
{
    if ids.len() > 0 {
        let chosen = ids.choose();
        assert(ids.contains(chosen));
        assert(directory.slots.contains_key(chosen));
        law_a_settled_family_drains_whole(directory, chosen);
        lemma_each_owes_one(directory, ids.remove(chosen));
    }
}

/// A family that has drained and whose tasks have settled represents nothing
/// any more.
pub proof fn law_a_settled_family_leaves_nothing<I, C, E, L>(
    directory: DirectoryModel<I, C, E, L>,
)
    requires
        directory.wf(),
        all_live(directory),
        owed_in_all(directory) == 0,
        forall|id: I| #[trigger]
            directory.slots.contains_key(id) ==> !(directory.state(id) is Active),
    ensures
        directory.slots.len() == 0,
{
    let ids = directory.slots.dom();
    if ids.len() > 0 {
        let id = ids.choose();
        assert(ids.contains(id));
        assert(directory.slots.contains_key(id));
        lemma_owed_by_remove(directory, ids, id);
        law_a_settled_drain_leaves_nothing(directory.state(id));
    }
}

} // verus!
