//! What one actor leaves behind when its environment retires.

use vstd::prelude::*;

use crate::local::ingress::RetiredIngress;

verus! {

/// The event of each activation task whose control lane was closed when it
/// completed, in order of completion.
pub open spec fn recovered<E>(completed: Seq<Result<(), E>>) -> Seq<E>
    decreases completed.len(),
{
    if completed.len() == 0 {
        Seq::empty()
    } else {
        let before = recovered(completed.drop_last());
        match completed.last() {
            Ok(_) => before,
            Err(event) => before.push(event),
        }
    }
}

/// Recover the events of completed activation tasks that found the control lane
/// closed.
pub fn recover_events<E>(completed: Vec<Result<(), E>>) -> (control: Vec<E>)
    ensures
        control@ == recovered(completed@),
{
    let ghost all = completed@;
    let mut control: Vec<E> = Vec::new();
    for result in iter: completed
        invariant
            iter.seq() == all,
            control@ == recovered(all.take(iter.index() as int)),
    {
        proof {
            let next = all.take(iter.index() + 1);
            assert(next.drop_last() =~= all.take(iter.index() as int));
            assert(next.last() == result);
        }
        match result {
            Ok(_) => {},
            Err(event) => control.push(event),
        }
    }
    proof {
        assert(all.take(all.len() as int) =~= all);
    }
    control
}

/// What one actor leaves behind. `A` is its initialization, `S` a settlement,
/// `E` an event, `T` its running activation tasks, `D` its descendants, `X`
/// the fact that its owner cancelled it.
#[derive(Debug)]
pub enum LocalResidual<A, S, E, Addr, M, P, T, D, X> {
    /// The address was refused, so that the initialization was never committed.
    Uncommitted {
        initialization: A,
        ingress: RetiredIngress<E, Addr, M, P>,
        activation_tasks: T,
        descendants: D,
    },
    /// The environment retired.
    Retired {
        settlements: Vec<S>,
        ingress: RetiredIngress<E, Addr, M, P>,
        activation_tasks: T,
        descendants: D,
        owner_cancellation: Option<X>,
    },
}

impl<A, S, E, Addr, M, P, T, D, X> LocalResidual<A, S, E, Addr, M, P, T, D, X> {
    /// The queued items.
    pub open spec fn ingress(self) -> RetiredIngress<E, Addr, M, P> {
        match self {
            LocalResidual::Uncommitted { ingress, .. } => ingress,
            LocalResidual::Retired { ingress, .. } => ingress,
        }
    }

    /// Whether nothing but the control items and the tasks differs.
    pub open spec fn same_but_control<U>(
        self,
        other: LocalResidual<A, S, E, Addr, M, P, U, D, X>,
    ) -> bool {
        match (self, other) {
            (
                LocalResidual::Uncommitted { initialization, ingress, descendants, .. },
                LocalResidual::Uncommitted {
                    initialization: initialization2,
                    ingress: ingress2,
                    descendants: descendants2,
                    ..
                },
            ) => initialization == initialization2 && ingress.user == ingress2.user
                && ingress.fences == ingress2.fences && descendants == descendants2,
            (
                LocalResidual::Retired {
                    settlements,
                    ingress,
                    descendants,
                    owner_cancellation,
                    ..
                },
                LocalResidual::Retired {
                    settlements: settlements2,
                    ingress: ingress2,
                    descendants: descendants2,
                    owner_cancellation: owner_cancellation2,
                    ..
                },
            ) => settlements == settlements2 && ingress.user == ingress2.user && ingress.fences
                == ingress2.fences && descendants == descendants2 && owner_cancellation
                == owner_cancellation2,
            _ => false,
        }
    }

    /// Note that every activation task has completed: the events that came
    /// back follow the control items that were queued.
    pub fn settle_activation_tasks(self, completed: Vec<Result<(), E>>) -> (settled: LocalResidual<
        A,
        S,
        E,
        Addr,
        M,
        P,
        (),
        D,
        X,
    >)
        ensures
            self.same_but_control(settled),
            settled.ingress().control@ == self.ingress().control@ + recovered(completed@),
    {
        let mut control = recover_events(completed);
        match self {
            LocalResidual::Uncommitted { initialization, mut ingress, descendants, .. } => {
                ingress.control.append(&mut control);
                LocalResidual::Uncommitted {
                    initialization,
                    ingress,
                    activation_tasks: (),
                    descendants,
                }
            },
            LocalResidual::Retired {
                settlements,
                mut ingress,
                descendants,
                owner_cancellation,
                ..
            } => {
                ingress.control.append(&mut control);
                LocalResidual::Retired {
                    settlements,
                    ingress,
                    activation_tasks: (),
                    descendants,
                    owner_cancellation,
                }
            },
        }
    }
}

/// The events that came back are recovered in the order in which their tasks
/// completed, each once, and a task that delivered its event leaves none.
pub proof fn law_events_come_back_in_order<E>(
    completed: Seq<Result<(), E>>,
    event: E,
)
    ensures
        recovered(Seq::<Result<(), E>>::empty()).len() == 0,
        recovered(completed.push(Ok(()))) == recovered(completed),
        recovered(completed.push(Err(event))) == recovered(completed).push(event),
{
    assert(completed.push(Ok(())).drop_last() =~= completed);
    assert(completed.push(Err(event)).drop_last() =~= completed);
}

/// Settling the tasks of an actor touches nothing else that it leaves: its
/// messages, its fences, its descendants, what its turns settled, its
/// initialization and the cancellation by its owner stay.
pub proof fn law_settling_keeps_what_was_left<A, S, E, Addr, M, P, T, U, D, X>(
    before: LocalResidual<A, S, E, Addr, M, P, T, D, X>,
    after: LocalResidual<A, S, E, Addr, M, P, U, D, X>,
)
    requires
        before.same_but_control(after),
    ensures
        before is Retired <==> after is Retired,
        after.ingress().user == before.ingress().user,
        after.ingress().fences == before.ingress().fences,
        before is Uncommitted ==> after->initialization == before->initialization
            && after->Uncommitted_descendants == before->Uncommitted_descendants,
        before is Retired ==> after->settlements == before->settlements
            && after->Retired_descendants == before->Retired_descendants
            && after->owner_cancellation == before->owner_cancellation,
        before is Uncommitted ==> before.ingress() == before->Uncommitted_ingress,
        before is Retired ==> before.ingress() == before->Retired_ingress,
{
}

} // verus!
