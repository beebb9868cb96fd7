//! Ordered preparation of the workers of a supervisor or a pool.

use vstd::prelude::*;

verus! {

/// The settled outcome of one preparation.
#[derive(Debug)]
pub enum WorkerPreparation<Source, Role, S, R> {
    /// Every role was prepared.
    Prepared { source: Source, workers: Vec<(Role, S)> },
    /// One role was rejected: the workers before it are prepared, and the roles
    /// after it untouched.
    Rejected {
        source: Source,
        prepared: Vec<(Role, S)>,
        failed: Role,
        reason: R,
        untouched: Vec<Role>,
    },
}

/// The roles of prepared workers.
pub open spec fn roles_of<Role, S>(workers: Seq<(Role, S)>) -> Seq<Role> {
    Seq::new(workers.len(), |i: int| workers[i].0)
}

/// Whether the source went through these states while it prepared these
/// workers, one after the other.
pub open spec fn walked<Source, Role, S, R, F: Fn(Source, &Role) -> (Source, Result<S, R>)>(
    prepare: F,
    states: Seq<Source>,
    workers: Seq<(Role, S)>,
) -> bool {
    &&& states.len() == workers.len() + 1
    &&& forall|i: int|
        0 <= i < workers.len() ==> call_ensures(
            prepare,
            (#[trigger] states[i], &workers[i].0),
            (states[i + 1], Ok(workers[i].1)),
        )
}

/// Whether the preparation of `roles`, which began with `source`, can end like
/// this.
pub open spec fn prepares<Source, Role, S, R, F: Fn(Source, &Role) -> (Source, Result<S, R>)>(
    prepare: F,
    source: Source,
    roles: Seq<Role>,
    outcome: WorkerPreparation<Source, Role, S, R>,
) -> bool {
    match outcome {
        WorkerPreparation::Prepared { source: last, workers } => {
            &&& roles_of(workers@) == roles
            &&& exists|states: Seq<Source>| #[trigger]
                walked(prepare, states, workers@) && states[0] == source && states.last() == last
        },
        WorkerPreparation::Rejected { source: last, prepared, failed, reason, untouched } => {
            &&& roles_of(prepared@) + seq![failed] + untouched@ == roles
            &&& exists|states: Seq<Source>| #[trigger]
                walked(prepare, states, prepared@) && states[0] == source && call_ensures(
                    prepare,
                    (states.last(), &failed),
                    (last, Err(reason)),
                )
        },
    }
}

/// Drive one complete ordered preparation to its settled outcome. `prepare`
/// prepares one submission for one role, or rejects it.
///
/// Roles are attempted strictly in order. The first rejection ends the walk:
/// no later role is attempted.
pub fn drive_preparation<Source, Role, S, R, F: Fn(Source, &Role) -> (Source, Result<S, R>)>(
    source: Source,
    roles: Vec<Role>,
    prepare: F,
) -> (outcome: WorkerPreparation<Source, Role, S, R>)
    requires
        forall|state: Source, role: &Role| call_requires(prepare, (state, role)),
    ensures
        prepares(prepare, source, roles@, outcome),
{
    let ghost first = source;
    let ghost all = roles@;
    let ghost mut states: Seq<Source> = seq![source];
    let mut source = source;
    let mut workers: Vec<(Role, S)> = Vec::new();
    let mut failure: Option<(Role, R)> = None;
    let mut untouched: Vec<Role> = Vec::new();
    for role in iter: roles
        invariant
            iter.seq() == all,
            forall|state: Source, role: &Role| call_requires(prepare, (state, role)),
            states.len() > 0,
            states[0] == first,
            walked(prepare, states, workers@),
            failure is None ==> {
                &&& untouched@.len() == 0
                &&& roles_of(workers@) =~= all.take(iter.index() as int)
                &&& states.last() == source
            },
            failure matches Some((failed, reason)) ==> {
                &&& roles_of(workers@) + seq![failed] + untouched@ =~= all.take(iter.index() as int)
                &&& call_ensures(prepare, (states.last(), &failed), (source, Err(reason)))
            },
    {
        let ghost index = iter.index() as int;
        proof {
            assert(all.take(index + 1) =~= all.take(index).push(role));
        }
        if failure.is_some() {
            let ghost before = untouched@;
            untouched.push(role);
            proof {
                let failed = (failure->0).0;
                assert(roles_of(workers@) + seq![failed] + untouched@ =~= (roles_of(workers@)
                    + seq![failed] + before).push(role));
            }
        } else {
            let (next, prepared) = prepare(source, &role);
            source = next;
            match prepared {
                Ok(submission) => {
                    let ghost before = workers@;
                    let ghost walk = states;
                    workers.push((role, submission));
                    proof {
                        states = states.push(source);
                        assert(roles_of(workers@) =~= roles_of(before).push(role));
                        assert forall|i: int| 0 <= i < workers@.len() implies call_ensures(
                            prepare,
                            (#[trigger] states[i], &workers@[i].0),
                            (states[i + 1], Ok(workers@[i].1)),
                        ) by {
                            if i < before.len() {
                                assert(states[i] == walk[i]);
                                assert(workers@[i] == before[i]);
                            }
                        }
                    }
                },
                Err(reason) => {
                    failure = Some((role, reason));
                },
            }
        }
    }
    proof {
        assert(all.take(all.len() as int) =~= all);
    }
    match failure {
        None => WorkerPreparation::Prepared { source, workers },
        Some((failed, reason)) => WorkerPreparation::Rejected {
            source,
            prepared: workers,
            failed,
            reason,
            untouched,
        },
    }
}

/// No role is lost or made up: those that were prepared, the one that was
/// rejected and those that were not attempted are the requested ones, in order.
pub proof fn law_preparation_keeps_every_role<
    Source,
    Role,
    S,
    R,
    F: Fn(Source, &Role) -> (Source, Result<S, R>),
>(
    prepare: F,
    source: Source,
    roles: Seq<Role>,
    outcome: WorkerPreparation<Source, Role, S, R>,
)
    requires
        prepares(prepare, source, roles, outcome),
    ensures
        match outcome {
            WorkerPreparation::Prepared { workers, .. } => workers@.len() == roles.len(),
            WorkerPreparation::Rejected { prepared, failed, untouched, .. } => {
                &&& prepared@.len() + 1 + untouched@.len() == roles.len()
                &&& roles[prepared@.len() as int] == failed
                &&& untouched@ == roles.skip((prepared@.len() + 1) as int)
            },
        },
{
    match outcome {
        WorkerPreparation::Prepared { workers, .. } => {
            assert(roles_of(workers@).len() == workers@.len());
        },
        WorkerPreparation::Rejected { prepared, failed, untouched, .. } => {
            let split = roles_of(prepared@) + seq![failed] + untouched@;
            assert(split[prepared@.len() as int] == failed);
            assert(split.skip((prepared@.len() + 1) as int) =~= untouched@);
        },
    }
}

/// Roles are prepared one after the other, each with the source that the one
/// before it left, and a rejection ends the walk: the worker at a place has the
/// role that was requested there, and the reason is that of the role after the
/// last worker.
pub proof fn law_roles_are_prepared_in_turn<
    Source,
    Role,
    S,
    R,
    F: Fn(Source, &Role) -> (Source, Result<S, R>),
>(
    prepare: F,
    source: Source,
    roles: Seq<Role>,
    outcome: WorkerPreparation<Source, Role, S, R>,
)
    requires
        prepares(prepare, source, roles, outcome),
    ensures
        ({
            let workers = match outcome {
                WorkerPreparation::Prepared { workers, .. } => workers@,
                WorkerPreparation::Rejected { prepared, .. } => prepared@,
            };
            &&& workers.len() <= roles.len()
            &&& forall|i: int|
                0 <= i < workers.len() ==> (#[trigger] workers[i]).0 == roles[i]
            &&& exists|states: Seq<Source>|
                {
                    &&& #[trigger] states.len() == workers.len() + 1
                    &&& states[0] == source
                    &&& forall|i: int|
                        0 <= i < workers.len() ==> call_ensures(
                            prepare,
                            (#[trigger] states[i], &workers[i].0),
                            (states[i + 1], Ok(workers[i].1)),
                        )
                    &&& match outcome {
                        WorkerPreparation::Prepared { source: last, .. } => last
                            == states[workers.len() as int],
                        WorkerPreparation::Rejected { source: last, failed, reason, .. } => {
                            call_ensures(
                                prepare,
                                (states[workers.len() as int], &failed),
                                (last, Err(reason)),
                            )
                        },
                    }
                }
        }),
{
    match outcome {
        WorkerPreparation::Prepared { source: last, workers } => {
            assert forall|i: int| 0 <= i < workers@.len() implies (#[trigger] workers@[i]).0
                == roles[i] by {
                assert(roles_of(workers@)[i] == workers@[i].0);
            }
            let states = choose|states: Seq<Source>| #[trigger]
                walked(prepare, states, workers@) && states[0] == source && states.last() == last;
            assert(states.len() == workers@.len() + 1);
        },
        WorkerPreparation::Rejected { source: last, prepared, failed, reason, untouched } => {
            let split = roles_of(prepared@) + seq![failed] + untouched@;
            assert forall|i: int| 0 <= i < prepared@.len() implies (#[trigger] prepared@[i]).0
                == roles[i] by {
                assert(split[i] == prepared@[i].0);
            }
            let states = choose|states: Seq<Source>| #[trigger]
                walked(prepare, states, prepared@) && states[0] == source && call_ensures(
                    prepare,
                    (states.last(), &failed),
                    (last, Err(reason)),
                );
            assert(states.len() == prepared@.len() + 1);
        },
    }
}

} // verus!
