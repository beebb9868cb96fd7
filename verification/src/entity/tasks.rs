//! The count of scheduled lifecycle tasks between idle epochs.

use vstd::prelude::*;

verus! {

/// Coordination cell counting scheduled lifecycle tasks.
///
/// Every scheduled task is counted for its whole lifetime, so family shutdown
/// cannot observe an idle composition while a completion fact still owes
/// effects. `T` stands for what tells that an epoch of activity is over.
pub enum EntityTaskGroup<T> {
    /// Tasks may be scheduled. An epoch runs while some are.
    Open { active: usize, idle_epoch: Option<T> },
    /// The family has shut down.
    Closed,
}

impl<T> EntityTaskGroup<T> {
    /// An epoch runs exactly while tasks are scheduled.
    pub open spec fn wf(self) -> bool {
        self matches EntityTaskGroup::Open { active, idle_epoch } ==> (active > 0
            <==> idle_epoch is Some)
    }

    /// No task is scheduled.
    pub open spec fn idle(self) -> bool {
        match self {
            EntityTaskGroup::Open { active, .. } => active == 0,
            EntityTaskGroup::Closed => true,
        }
    }

    /// A group with no task.
    pub fn new() -> (group: Self)
        ensures
            group.wf(),
            group == (EntityTaskGroup::<T>::Open { active: 0, idle_epoch: None }),
    {
        EntityTaskGroup::Open { active: 0, idle_epoch: None }
    }

    /// Count one more task. The first task of an epoch installs `fresh`; later
    /// ones hand it back.
    pub fn begin(&mut self, fresh: T) -> (unused: Option<T>)
        requires
            old(self).wf(),
            *old(self) is Open,
            old(self)->active < usize::MAX,
        ensures
            final(self).wf(),
            *final(self) == begun(*old(self), fresh),
            unused == if old(self)->active == 0 {
                None
            } else {
                Some(fresh)
            },
    {
        let mut taken = EntityTaskGroup::Closed;
        core::mem::swap(&mut taken, self);
        match taken {
            EntityTaskGroup::Open { active, idle_epoch } => {
                if active == 0 {
                    *self = EntityTaskGroup::Open { active: 1, idle_epoch: Some(fresh) };
                    None
                } else {
                    *self = EntityTaskGroup::Open { active: active + 1, idle_epoch };
                    Some(fresh)
                }
            },
            EntityTaskGroup::Closed => Some(fresh),
        }
    }

    /// Settle one task. The last task of an epoch hands out what ends it.
    pub fn finish(&mut self) -> (ended: Option<T>)
        requires
            old(self).wf(),
            *old(self) is Open,
            old(self)->active >= 1,
        ensures
            final(self).wf(),
            *final(self) == finished(*old(self)),
            ended == if old(self)->active == 1 {
                old(self)->idle_epoch
            } else {
                None
            },
    {
        let mut taken = EntityTaskGroup::Closed;
        core::mem::swap(&mut taken, self);
        match taken {
            EntityTaskGroup::Open { active, idle_epoch } => {
                if active == 1 {
                    *self = EntityTaskGroup::Open { active: 0, idle_epoch: None };
                    idle_epoch
                } else {
                    *self = EntityTaskGroup::Open { active: active - 1, idle_epoch };
                    None
                }
            },
            EntityTaskGroup::Closed => None,
        }
    }

    /// What a caller waits for until no task is scheduled; `None` if none is.
    pub fn wait_idle(&self) -> (epoch: Option<&T>)
        requires
            self.wf(),
        ensures
            epoch is None <==> self.idle(),
            epoch matches Some(running) ==> self->idle_epoch == Some(*running),
    {
        match self {
            EntityTaskGroup::Open { idle_epoch, .. } => idle_epoch.as_ref(),
            EntityTaskGroup::Closed => None,
        }
    }

    /// Admit no further task. Closing again changes nothing.
    pub fn close(&mut self)
        requires
            old(self).wf(),
            old(self).idle(),
        ensures
            final(self).wf(),
            *final(self) is Closed,
    {
        *self = EntityTaskGroup::Closed;
    }
}

/// The group after one more task was scheduled.
pub open spec fn begun<T>(group: EntityTaskGroup<T>, fresh: T) -> EntityTaskGroup<T> {
    EntityTaskGroup::Open {
        active: (group->active + 1) as usize,
        idle_epoch: if group->active == 0 {
            Some(fresh)
        } else {
            group->idle_epoch
        },
    }
}

/// The group after one task settled.
pub open spec fn finished<T>(group: EntityTaskGroup<T>) -> EntityTaskGroup<T> {
    EntityTaskGroup::Open {
        active: (group->active - 1) as usize,
        idle_epoch: if group->active == 1 {
            None
        } else {
            group->idle_epoch
        },
    }
}

/// The group after a task was scheduled for each of `fresh`.
pub open spec fn begun_all<T>(group: EntityTaskGroup<T>, fresh: Seq<T>) -> EntityTaskGroup<T>
    decreases fresh.len(),
{
    if fresh.len() == 0 {
        group
    } else {
        begun(begun_all(group, fresh.drop_last()), fresh.last())
    }
}

/// The group after `count` tasks settled.
pub open spec fn finished_times<T>(group: EntityTaskGroup<T>, count: nat) -> EntityTaskGroup<T>
    decreases count,
{
    if count == 0 {
        group
    } else {
        finished(finished_times(group, (count - 1) as nat))
    }
}

/// An idle group that schedules tasks is idle again exactly when as many have
/// settled; until then the epoch that the first task installed keeps running.
pub proof fn law_a_group_is_idle_when_every_task_settled<T>(
    group: EntityTaskGroup<T>,
    fresh: Seq<T>,
    settled: nat,
)
    requires
        group.wf(),
        group is Open,
        group.idle(),
        settled <= fresh.len() <= usize::MAX,
    ensures
        finished_times(begun_all(group, fresh), settled).wf(),
        finished_times(begun_all(group, fresh), settled).idle() <==> settled == fresh.len(),
        settled < fresh.len() ==> finished_times(begun_all(group, fresh), settled)->idle_epoch
            == Some(fresh[0]),
{
    lemma_counts(group, fresh, settled);
}

proof fn lemma_counts<T>(group: EntityTaskGroup<T>, fresh: Seq<T>, settled: nat)
    requires
        group.wf(),
        group is Open,
        group.idle(),
        settled <= fresh.len() <= usize::MAX,
    ensures
        finished_times(begun_all(group, fresh), settled) == (EntityTaskGroup::Open {
            active: (fresh.len() - settled) as usize,
            idle_epoch: if settled < fresh.len() {
                Some(fresh[0])
            } else {
                None
            },
        }),
    decreases fresh.len() + settled,
{
    if settled > 0 {
        lemma_counts(group, fresh, (settled - 1) as nat);
    } else if fresh.len() > 0 {
        lemma_counts(group, fresh.drop_last(), 0);
        assert(finished_times(begun_all(group, fresh.drop_last()), 0) == begun_all(
            group,
            fresh.drop_last(),
        ));
    }
}

/// A scheduled task is counted, and the first one of an epoch installs what ends
/// it. A settled task is discounted, and the last one takes that away. In
/// between the epoch stays.
pub proof fn law_tasks_are_counted_one_by_one<T>(active: usize, epoch: Option<T>, fresh: T)
    ensures
        ({
            let group = EntityTaskGroup::Open { active, idle_epoch: epoch };
            &&& group.idle() <==> active == 0
            &&& group.wf() <==> (active > 0 <==> epoch is Some)
            &&& active == 0 ==> begun(group, fresh) == (EntityTaskGroup::Open {
                active: 1,
                idle_epoch: Some(fresh),
            })
            &&& 0 < active < usize::MAX ==> begun(group, fresh) == (EntityTaskGroup::Open {
                active: (active + 1) as usize,
                idle_epoch: epoch,
            })
            &&& active == 1 ==> finished(group) == (EntityTaskGroup::<T>::Open {
                active: 0,
                idle_epoch: None,
            })
            &&& active > 1 ==> finished(group) == (EntityTaskGroup::Open {
                active: (active - 1) as usize,
                idle_epoch: epoch,
            })
        }),
        EntityTaskGroup::<T>::Closed.idle(),
{
}

} // verus!
