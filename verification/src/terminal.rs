//! The terminal facts of one actor and where it came from.

use vstd::prelude::*;

use crate::address::{AllocationRejection, MailAddr};
use crate::launch::{retirement_of, startup_failure_of, LocalOutcome};
use crate::local::environment::ClaimError;
use crate::local::ingress::User;
use crate::local::residual::LocalResidual;
use crate::outcome::{Completion, IncarnationOutcome};

verus! {

/// Where an actor came from: the root of an application, or a child that its
/// creator told apart from others by a nonce.
#[derive(Debug, Clone, Copy, PartialEq, Eq, Structural)]
pub struct ActorOrigin {
    address: MailAddr,
    nonce: Option<u64>,
}

impl ActorOrigin {
    /// The address of the actor, and the nonce of a child.
    pub closed spec fn parts(self) -> (MailAddr, Option<u64>) {
        (self.address, self.nonce)
    }

    /// The root at `address`.
    pub fn root(address: MailAddr) -> (origin: Self)
        ensures
            origin.parts() == (address, None::<u64>),
    {
        ActorOrigin { address, nonce: None }
    }

    /// The child at `address` that was created under `nonce`.
    pub fn child(address: MailAddr, nonce: u64) -> (origin: Self)
        ensures
            origin.parts() == (address, Some(nonce)),
    {
        ActorOrigin { address, nonce: Some(nonce) }
    }

    /// The address of the actor.
    pub fn address(&self) -> (address: MailAddr)
        ensures
            address == self.parts().0,
    {
        self.address
    }

    /// The nonce of a child.
    pub fn nonce(&self) -> (nonce: Option<u64>)
        ensures
            nonce == self.parts().1,
    {
        self.nonce
    }
}

/// The terminal facts of an actor. `B` is the behavior, `F` its failure, `I`
/// its initialization, `S` a settlement, `E` an event, `M` a message, `D` the
/// descendants, `G` an environment failure.
#[derive(Debug)]
#[allow(inconsistent_fields)]
pub enum ActorRetirement<B, F, I, S, E, M, D, G> {
    /// No address could be had.
    AllocationRejected { behavior: B, reason: AllocationRejection },
    /// The behavior rejected initialization.
    InitializationRejected {
        behavior: B,
        error: F,
        control: Vec<E>,
        user: Vec<User<MailAddr, M>>,
        descendants: D,
    },
    /// The address was refused.
    HostRejected {
        behavior: B,
        initialization: I,
        error: ClaimError,
        control: Vec<E>,
        user: Vec<User<MailAddr, M>>,
        descendants: D,
    },
    /// The actor ended before it was published.
    EndedBeforeActivation { completion: Completion },
    /// The actor completed.
    Completed {
        behavior: B,
        settlements: Vec<S>,
        control: Vec<E>,
        user: Vec<User<MailAddr, M>>,
        descendants: D,
        completion: Completion,
    },
    /// The behavior failed.
    BehaviorFailed {
        behavior: B,
        settlements: Vec<S>,
        control: Vec<E>,
        user: Vec<User<MailAddr, M>>,
        descendants: D,
        error: F,
    },
    /// The environment failed.
    EnvironmentFailed {
        behavior: B,
        settlements: Vec<S>,
        control: Vec<E>,
        user: Vec<User<MailAddr, M>>,
        descendants: D,
        error: G,
    },
    /// Execution panicked.
    Panicked,
    /// Execution was cancelled.
    Cancelled,
}

/// Whether the environment left what an actor that ended like this leaves: only
/// a refused address leaves an uncommitted initialization.
pub open spec fn leaves_its_residual<B, F, I, S, E, M, P, T, D, X, G>(
    outcome: LocalOutcome<B, F, I, S, E, M, P, T, D, X, G>,
) -> bool {
    match outcome {
        IncarnationOutcome::Completed { residual, .. } => residual is Retired,
        IncarnationOutcome::BehaviorFailed { residual, .. } => residual is Retired,
        IncarnationOutcome::ActivationFailed { residual, .. } => residual is Uncommitted,
        IncarnationOutcome::EnvironmentFailed { residual, .. } => residual is Retired,
        IncarnationOutcome::Panicked => true,
        IncarnationOutcome::Cancelled => true,
    }
}

/// Whether the environment left what an actor that ended like this leaves.
pub fn has_its_residual<B, F, I, S, E, M, P, T, D, X, G>(
    outcome: &LocalOutcome<B, F, I, S, E, M, P, T, D, X, G>,
) -> (has: bool)
    ensures
        has == leaves_its_residual(*outcome),
{
    let residual = match outcome {
        IncarnationOutcome::Panicked => return true,
        IncarnationOutcome::Cancelled => return true,
        IncarnationOutcome::Completed { residual, .. } => residual,
        IncarnationOutcome::BehaviorFailed { residual, .. } => residual,
        IncarnationOutcome::ActivationFailed { residual, .. } => residual,
        IncarnationOutcome::EnvironmentFailed { residual, .. } => residual,
    };
    let committed = match residual {
        LocalResidual::Uncommitted { .. } => false,
        LocalResidual::Retired { .. } => true,
    };
    match outcome {
        IncarnationOutcome::ActivationFailed { .. } => !committed,
        _ => committed,
    }
}

/// The terminal facts that an outcome amounts to.
pub open spec fn terminal_facts<B, F, I, S, E, M, P, T, D, X, G>(
    outcome: LocalOutcome<B, F, I, S, E, M, P, T, D, X, G>,
) -> ActorRetirement<B, F, I, S, E, M, D, G> {
    match outcome {
        IncarnationOutcome::Completed {
            behavior,
            residual: LocalResidual::Retired { settlements, ingress, descendants, .. },
            completion,
        } => ActorRetirement::Completed {
            behavior,
            settlements,
            control: ingress.control,
            user: ingress.user,
            descendants,
            completion,
        },
        IncarnationOutcome::BehaviorFailed {
            behavior,
            residual: LocalResidual::Retired { settlements, ingress, descendants, .. },
            error,
        } => ActorRetirement::BehaviorFailed {
            behavior,
            settlements,
            control: ingress.control,
            user: ingress.user,
            descendants,
            error,
        },
        IncarnationOutcome::ActivationFailed {
            behavior,
            residual: LocalResidual::Uncommitted { initialization, ingress, descendants, .. },
            error,
        } => ActorRetirement::HostRejected {
            behavior,
            initialization,
            error,
            control: ingress.control,
            user: ingress.user,
            descendants,
        },
        IncarnationOutcome::EnvironmentFailed {
            behavior,
            residual: LocalResidual::Retired { settlements, ingress, descendants, .. },
            error,
        } => ActorRetirement::EnvironmentFailed {
            behavior,
            settlements,
            control: ingress.control,
            user: ingress.user,
            descendants,
            error,
        },
        IncarnationOutcome::Cancelled => ActorRetirement::Cancelled,
        _ => ActorRetirement::Panicked,
    }
}

impl<B, F, I, S, E, M, D, G> ActorRetirement<B, F, I, S, E, M, D, G> {
    /// The terminal facts that an outcome amounts to, with the final behavior,
    /// what its turns settled, what was queued and what its descendants left.
    pub fn from_local<P, T, X>(
        outcome: LocalOutcome<B, F, I, S, E, M, P, T, D, X, G>,
    ) -> (retirement: Self)
        requires
            leaves_its_residual(outcome),
        ensures
            retirement == terminal_facts(outcome),
    {
        match outcome {
            IncarnationOutcome::Completed { behavior, residual, completion } => match residual {
                LocalResidual::Retired { settlements, ingress, descendants, .. } => {
                    ActorRetirement::Completed {
                        behavior,
                        settlements,
                        control: ingress.control,
                        user: ingress.user,
                        descendants,
                        completion,
                    }
                },
                LocalResidual::Uncommitted { .. } => vstd::pervasive::unreached(),
            },
            IncarnationOutcome::BehaviorFailed { behavior, residual, error } => match residual {
                LocalResidual::Retired { settlements, ingress, descendants, .. } => {
                    ActorRetirement::BehaviorFailed {
                        behavior,
                        settlements,
                        control: ingress.control,
                        user: ingress.user,
                        descendants,
                        error,
                    }
                },
                LocalResidual::Uncommitted { .. } => vstd::pervasive::unreached(),
            },
            IncarnationOutcome::ActivationFailed { behavior, residual, error } => match residual {
                LocalResidual::Uncommitted { initialization, ingress, descendants, .. } => {
                    ActorRetirement::HostRejected {
                        behavior,
                        initialization,
                        error,
                        control: ingress.control,
                        user: ingress.user,
                        descendants,
                    }
                },
                LocalResidual::Retired { .. } => vstd::pervasive::unreached(),
            },
            IncarnationOutcome::EnvironmentFailed { behavior, residual, error } => match residual {
                LocalResidual::Retired { settlements, ingress, descendants, .. } => {
                    ActorRetirement::EnvironmentFailed {
                        behavior,
                        settlements,
                        control: ingress.control,
                        user: ingress.user,
                        descendants,
                        error,
                    }
                },
                LocalResidual::Uncommitted { .. } => vstd::pervasive::unreached(),
            },
            IncarnationOutcome::Panicked => ActorRetirement::Panicked,
            IncarnationOutcome::Cancelled => ActorRetirement::Cancelled,
        }
    }
}

/// Two actors with the same terminal facts ended alike, with the same final
/// behavior: nothing of an outcome is told as another.
pub proof fn law_terminal_facts_keep_the_outcome<B, F, I, S, E, M, P, T, D, X, G>(
    one: LocalOutcome<B, F, I, S, E, M, P, T, D, X, G>,
    other: LocalOutcome<B, F, I, S, E, M, P, T, D, X, G>,
)
    requires
        leaves_its_residual(one),
        leaves_its_residual(other),
        terminal_facts(one) == terminal_facts(other),
    ensures
        match (one, other) {
            (
                IncarnationOutcome::Completed { behavior, residual, completion },
                IncarnationOutcome::Completed {
                    behavior: behavior2,
                    residual: residual2,
                    completion: completion2,
                },
            ) => behavior == behavior2 && completion == completion2 && residual->settlements
                == residual2->settlements && residual->Retired_descendants
                == residual2->Retired_descendants,
            (
                IncarnationOutcome::BehaviorFailed { behavior, residual, error },
                IncarnationOutcome::BehaviorFailed {
                    behavior: behavior2,
                    residual: residual2,
                    error: error2,
                },
            ) => behavior == behavior2 && error == error2 && residual->settlements
                == residual2->settlements && residual->Retired_descendants
                == residual2->Retired_descendants,
            (
                IncarnationOutcome::ActivationFailed { behavior, residual, error },
                IncarnationOutcome::ActivationFailed {
                    behavior: behavior2,
                    residual: residual2,
                    error: error2,
                },
            ) => behavior == behavior2 && error == error2 && residual->initialization
                == residual2->initialization && residual->Uncommitted_descendants
                == residual2->Uncommitted_descendants,
            (
                IncarnationOutcome::EnvironmentFailed { behavior, residual, error },
                IncarnationOutcome::EnvironmentFailed {
                    behavior: behavior2,
                    residual: residual2,
                    error: error2,
                },
            ) => behavior == behavior2 && error == error2 && residual->settlements
                == residual2->settlements && residual->Retired_descendants
                == residual2->Retired_descendants,
            (IncarnationOutcome::Panicked, IncarnationOutcome::Panicked) => true,
            (IncarnationOutcome::Cancelled, IncarnationOutcome::Cancelled) => true,
            _ => false,
        },
{
}

/// An actor whose address was refused, that panicked or that was cancelled
/// before it was published is told of in one way, whether as a startup failure
/// or by its outcome.
pub proof fn law_startup_failures_are_terminal_facts<B, F, I, S, E, M, P, T, D, X, G>(
    outcome: LocalOutcome<B, F, I, S, E, M, P, T, D, X, G>,
)
    requires
        leaves_its_residual(outcome),
        outcome is ActivationFailed || outcome is Panicked || outcome is Cancelled,
    ensures
        retirement_of::<B, F, I, S, E, M, D, G>(startup_failure_of(outcome)) == terminal_facts(
            outcome,
        ),
{
}

/// Only a refused address leaves an initialization that was never committed.
pub proof fn law_only_a_refused_address_leaves_an_initialization<
    B,
    F,
    I,
    S,
    E,
    M,
    P,
    T,
    D,
    X,
    G,
>(outcome: LocalOutcome<B, F, I, S, E, M, P, T, D, X, G>)
    ensures
        outcome is Panicked || outcome is Cancelled ==> leaves_its_residual(outcome),
        outcome matches IncarnationOutcome::ActivationFailed { residual, .. } ==> (
        leaves_its_residual(outcome) <==> residual is Uncommitted),
        outcome matches IncarnationOutcome::Completed { residual, .. } ==> (leaves_its_residual(
            outcome,
        ) <==> residual is Retired),
        outcome matches IncarnationOutcome::BehaviorFailed { residual, .. } ==> (
        leaves_its_residual(outcome) <==> residual is Retired),
        outcome matches IncarnationOutcome::EnvironmentFailed { residual, .. } ==> (
        leaves_its_residual(outcome) <==> residual is Retired),
{
}

/// The terminal facts of an actor are of the kind of its end, and hold its final
/// behavior, what its turns settled, what was queued in both lanes, what its
/// descendants left and why it ended.
pub proof fn law_terminal_facts_tell_everything<B, F, I, S, E, M, P, T, D, X, G>(
    outcome: LocalOutcome<B, F, I, S, E, M, P, T, D, X, G>,
)
    requires
        leaves_its_residual(outcome),
    ensures
        match outcome {
            IncarnationOutcome::Completed { behavior, residual, completion } => terminal_facts(
                outcome,
            ) == (ActorRetirement::<B, F, I, S, E, M, D, G>::Completed {
                behavior,
                settlements: residual->settlements,
                control: residual->Retired_ingress.control,
                user: residual->Retired_ingress.user,
                descendants: residual->Retired_descendants,
                completion,
            }),
            IncarnationOutcome::BehaviorFailed { behavior, residual, error } => terminal_facts(
                outcome,
            ) == (ActorRetirement::<B, F, I, S, E, M, D, G>::BehaviorFailed {
                behavior,
                settlements: residual->settlements,
                control: residual->Retired_ingress.control,
                user: residual->Retired_ingress.user,
                descendants: residual->Retired_descendants,
                error,
            }),
            IncarnationOutcome::ActivationFailed { behavior, residual, error } => terminal_facts(
                outcome,
            ) == (ActorRetirement::<B, F, I, S, E, M, D, G>::HostRejected {
                behavior,
                initialization: residual->initialization,
                error,
                control: residual->Uncommitted_ingress.control,
                user: residual->Uncommitted_ingress.user,
                descendants: residual->Uncommitted_descendants,
            }),
            IncarnationOutcome::EnvironmentFailed { behavior, residual, error } => terminal_facts(
                outcome,
            ) == (ActorRetirement::<B, F, I, S, E, M, D, G>::EnvironmentFailed {
                behavior,
                settlements: residual->settlements,
                control: residual->Retired_ingress.control,
                user: residual->Retired_ingress.user,
                descendants: residual->Retired_descendants,
                error,
            }),
            IncarnationOutcome::Panicked => terminal_facts(outcome) is Panicked,
            IncarnationOutcome::Cancelled => terminal_facts(outcome) is Cancelled,
        },
{
}

} // verus!
