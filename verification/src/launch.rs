//! The task boundary of local actors: startup, settlement and retirement.

use vstd::prelude::*;

use crate::address::{AllocationRejection, MailAddr};
use crate::local::environment::ClaimError;
use crate::local::ingress::User;
use crate::local::residual::{recovered, LocalResidual};
use crate::outcome::{termination_of, Completion, Crash, Exit, IncarnationOutcome};
use crate::reports::TerminationSelection;
use crate::terminal::ActorRetirement;

verus! {

/// Failure before a launched actor publishes its live reference. `B` is the
/// behavior, `F` its failure, `I` its initialization, `E` an event, `M` a
/// message, `D` the descendants.
#[derive(Debug)]
#[allow(inconsistent_fields)]
pub enum SpawnError<B, F, I, E, M, D> {
    /// No address could be had.
    AllocationRejected { behavior: B, reason: AllocationRejection },
    /// The behavior rejected initialization.
    InitializationRejected {
        behavior: B,
        error: F,
        control: Vec<E>,
        user: Vec<User<MailAddr, M>>,
        descendants: D,
    },
    /// The address was refused.
    HostRejected {
        behavior: B,
        initialization: I,
        error: ClaimError,
        control: Vec<E>,
        user: Vec<User<MailAddr, M>>,
        descendants: D,
    },
    /// Initialization panicked.
    Panicked,
    /// Initialization was cancelled.
    Cancelled,
    /// The actor ended before it was published.
    Ended(Completion),
}

/// How one local actor ended. `S` is a settlement, `P` answers a fence, `T` its
/// activation tasks, `X` the owner's cancellation, `G` an environment failure.
pub type LocalOutcome<B, F, I, S, E, M, P, T, D, X, G> = IncarnationOutcome<
    B,
    LocalResidual<I, S, E, MailAddr, M, P, T, D, X>,
    F,
    ClaimError,
    G,
>;

/// Whether an actor can have ended like this before it was published: the
/// behavior fails in an environment that retired, the activation in one that
/// committed nothing, and an environment that is not active cannot fail.
pub open spec fn ends_before_publication<B, F, I, S, E, M, P, T, D, X, G>(
    outcome: LocalOutcome<B, F, I, S, E, M, P, T, D, X, G>,
) -> bool {
    match outcome {
        IncarnationOutcome::BehaviorFailed { residual, .. } => residual is Retired,
        IncarnationOutcome::ActivationFailed { residual, .. } => residual is Uncommitted,
        IncarnationOutcome::EnvironmentFailed { .. } => false,
        _ => true,
    }
}

/// Whether an actor can have ended like this before it was published.
pub fn can_end_before_publication<B, F, I, S, E, M, P, T, D, X, G>(
    outcome: &LocalOutcome<B, F, I, S, E, M, P, T, D, X, G>,
) -> (can: bool)
    ensures
        can == ends_before_publication(*outcome),
{
    match outcome {
        IncarnationOutcome::BehaviorFailed { residual, .. } => match residual {
            LocalResidual::Retired { .. } => true,
            LocalResidual::Uncommitted { .. } => false,
        },
        IncarnationOutcome::ActivationFailed { residual, .. } => match residual {
            LocalResidual::Retired { .. } => false,
            LocalResidual::Uncommitted { .. } => true,
        },
        IncarnationOutcome::EnvironmentFailed { .. } => false,
        IncarnationOutcome::Completed { .. } => true,
        IncarnationOutcome::Panicked => true,
        IncarnationOutcome::Cancelled => true,
    }
}

/// The startup failure that an outcome amounts to.
pub open spec fn startup_failure_of<B, F, I, S, E, M, P, T, D, X, G>(
    outcome: LocalOutcome<B, F, I, S, E, M, P, T, D, X, G>,
) -> SpawnError<B, F, I, E, M, D> {
    match outcome {
        IncarnationOutcome::BehaviorFailed {
            behavior,
            residual: LocalResidual::Retired { ingress, descendants, .. },
            error,
        } => SpawnError::InitializationRejected {
            behavior,
            error,
            control: ingress.control,
            user: ingress.user,
            descendants,
        },
        IncarnationOutcome::ActivationFailed {
            behavior,
            residual: LocalResidual::Uncommitted { initialization, ingress, descendants, .. },
            error,
        } => SpawnError::HostRejected {
            behavior,
            initialization,
            error,
            control: ingress.control,
            user: ingress.user,
            descendants,
        },
        IncarnationOutcome::Panicked => SpawnError::Panicked,
        IncarnationOutcome::Cancelled => SpawnError::Cancelled,
        IncarnationOutcome::Completed { completion, .. } => SpawnError::Ended(completion),
        _ => SpawnError::Panicked,
    }
}

impl<B, F, I, E, M, D> SpawnError<B, F, I, E, M, D> {
    /// The startup failure that an outcome amounts to, with everything that
    /// the actor owned.
    pub fn from_local<S, P, T, X, G>(
        outcome: LocalOutcome<B, F, I, S, E, M, P, T, D, X, G>,
    ) -> (failure: Self)
        requires
            ends_before_publication(outcome),
        ensures
            failure == startup_failure_of(outcome),
    {
        match outcome {
            IncarnationOutcome::BehaviorFailed { behavior, residual, error } => match residual {
                LocalResidual::Retired { ingress, descendants, .. } => {
                    SpawnError::InitializationRejected {
                        behavior,
                        error,
                        control: ingress.control,
                        user: ingress.user,
                        descendants,
                    }
                },
                LocalResidual::Uncommitted { .. } => vstd::pervasive::unreached(),
            },
            IncarnationOutcome::ActivationFailed { behavior, residual, error } => match residual {
                LocalResidual::Uncommitted { initialization, ingress, descendants, .. } => {
                    SpawnError::HostRejected {
                        behavior,
                        initialization,
                        error,
                        control: ingress.control,
                        user: ingress.user,
                        descendants,
                    }
                },
                LocalResidual::Retired { .. } => vstd::pervasive::unreached(),
            },
            IncarnationOutcome::Panicked => SpawnError::Panicked,
            IncarnationOutcome::Cancelled => SpawnError::Cancelled,
            IncarnationOutcome::Completed { completion, .. } => SpawnError::Ended(completion),
            IncarnationOutcome::EnvironmentFailed { .. } => vstd::pervasive::unreached(),
        }
    }

    /// The terminal facts that a startup failure amounts to.
    pub fn into_retirement<S, G>(self) -> (retirement: ActorRetirement<B, F, I, S, E, M, D, G>)
        ensures
            retirement == retirement_of::<B, F, I, S, E, M, D, G>(self),
    {
        match self {
            SpawnError::AllocationRejected { behavior, reason } => {
                ActorRetirement::AllocationRejected { behavior, reason }
            },
            SpawnError::InitializationRejected { behavior, error, control, user, descendants } => {
                ActorRetirement::InitializationRejected {
                    behavior,
                    error,
                    control,
                    user,
                    descendants,
                }
            },
            SpawnError::HostRejected {
                behavior,
                initialization,
                error,
                control,
                user,
                descendants,
            } => ActorRetirement::HostRejected {
                behavior,
                initialization,
                error,
                control,
                user,
                descendants,
            },
            SpawnError::Panicked => ActorRetirement::Panicked,
            SpawnError::Cancelled => ActorRetirement::Cancelled,
            SpawnError::Ended(completion) => ActorRetirement::EndedBeforeActivation { completion },
        }
    }

    /// The name of the failure.
    pub fn name(&self) -> (name: &'static str)
        ensures
            name@ == match self {
                SpawnError::AllocationRejected { .. } => "AllocationRejected"@,
                SpawnError::InitializationRejected { .. } => "InitializationRejected"@,
                SpawnError::HostRejected { .. } => "HostRejected"@,
                SpawnError::Panicked => "Panicked"@,
                SpawnError::Cancelled => "Cancelled"@,
                SpawnError::Ended(_) => "Ended"@,
            },
    {
        match self {
            SpawnError::AllocationRejected { .. } => "AllocationRejected",
            SpawnError::InitializationRejected { .. } => "InitializationRejected",
            SpawnError::HostRejected { .. } => "HostRejected",
            SpawnError::Panicked => "Panicked",
            SpawnError::Cancelled => "Cancelled",
            SpawnError::Ended(_) => "Ended",
        }
    }

    /// The failure in words.
    pub fn message(&self) -> (message: &'static str)
        ensures
            message@ == match self {
                SpawnError::AllocationRejected { .. } =>
                    "the actor address source rejected allocation"@,
                SpawnError::InitializationRejected { .. } =>
                    "the behavior rejected initialization"@,
                SpawnError::HostRejected { .. } => "the actor host rejected initialization"@,
                SpawnError::Panicked => "actor initialization panicked"@,
                SpawnError::Cancelled => "actor initialization was cancelled"@,
                SpawnError::Ended(Completion::Stopped) =>
                    "the actor ended before publishing activation: Stopped"@,
                SpawnError::Ended(Completion::Exhausted) =>
                    "the actor ended before publishing activation: Exhausted"@,
            },
    {
        match self {
            SpawnError::AllocationRejected { .. } => "the actor address source rejected allocation",
            SpawnError::InitializationRejected { .. } => "the behavior rejected initialization",
            SpawnError::HostRejected { .. } => "the actor host rejected initialization",
            SpawnError::Panicked => "actor initialization panicked",
            SpawnError::Cancelled => "actor initialization was cancelled",
            SpawnError::Ended(completion) => match completion {
                Completion::Stopped => "the actor ended before publishing activation: Stopped",
                Completion::Exhausted => "the actor ended before publishing activation: Exhausted",
            },
        }
    }
}

/// The terminal facts that a startup failure amounts to.
pub open spec fn retirement_of<B, F, I, S, E, M, D, G>(
    failure: SpawnError<B, F, I, E, M, D>,
) -> ActorRetirement<B, F, I, S, E, M, D, G> {
    match failure {
        SpawnError::AllocationRejected { behavior, reason } => {
            ActorRetirement::AllocationRejected { behavior, reason }
        },
        SpawnError::InitializationRejected { behavior, error, control, user, descendants } => {
            ActorRetirement::InitializationRejected { behavior, error, control, user, descendants }
        },
        SpawnError::HostRejected {
            behavior,
            initialization,
            error,
            control,
            user,
            descendants,
        } => ActorRetirement::HostRejected {
            behavior,
            initialization,
            error,
            control,
            user,
            descendants,
        },
        SpawnError::Panicked => ActorRetirement::Panicked,
        SpawnError::Cancelled => ActorRetirement::Cancelled,
        SpawnError::Ended(completion) => ActorRetirement::EndedBeforeActivation { completion },
    }
}

/// No two startup failures amount to the same terminal facts: nothing that a
/// failed actor owned is lost on the way.
pub proof fn law_retirement_keeps_every_startup_fact<B, F, I, S, E, M, D, G>(
    one: SpawnError<B, F, I, E, M, D>,
    other: SpawnError<B, F, I, E, M, D>,
)
    requires
        retirement_of::<B, F, I, S, E, M, D, G>(one) == retirement_of::<B, F, I, S, E, M, D, G>(
            other,
        ),
    ensures
        one == other,
{
}

/// What came of joining the task of an actor.
#[derive(Debug)]
pub enum Joined<O> {
    /// The task returned.
    Returned(O),
    /// The task panicked.
    Panicked,
    /// The task was aborted.
    Aborted,
}

/// The outcome of an actor whose task was joined.
pub open spec fn joined_outcome<B, R, BE, AE, EE>(
    joined: Joined<IncarnationOutcome<B, R, BE, AE, EE>>,
) -> IncarnationOutcome<B, R, BE, AE, EE> {
    match joined {
        Joined::Returned(outcome) => outcome,
        Joined::Panicked => IncarnationOutcome::Panicked,
        Joined::Aborted => IncarnationOutcome::Cancelled,
    }
}

/// The outcome of an actor whose task was joined.
pub fn finish_owned_task<B, R, BE, AE, EE>(
    joined: Joined<IncarnationOutcome<B, R, BE, AE, EE>>,
) -> (outcome: IncarnationOutcome<B, R, BE, AE, EE>)
    ensures
        outcome == joined_outcome(joined),
{
    match joined {
        Joined::Returned(outcome) => outcome,
        Joined::Panicked => IncarnationOutcome::Panicked,
        Joined::Aborted => IncarnationOutcome::Cancelled,
    }
}

/// Whether nothing but the control items and the tasks of the residual differs.
pub open spec fn settles<B, F, I, S, E, M, P, T, D, X, G>(
    before: LocalOutcome<B, F, I, S, E, M, P, T, D, X, G>,
    after: LocalOutcome<B, F, I, S, E, M, P, (), D, X, G>,
    completed: Seq<Result<(), E>>,
) -> bool {
    match (before, after) {
        (
            IncarnationOutcome::Completed { behavior, residual, completion },
            IncarnationOutcome::Completed {
                behavior: behavior2,
                residual: residual2,
                completion: completion2,
            },
        ) => behavior == behavior2 && completion == completion2 && residual_settles(
            residual,
            residual2,
            completed,
        ),
        (
            IncarnationOutcome::BehaviorFailed { behavior, residual, error },
            IncarnationOutcome::BehaviorFailed {
                behavior: behavior2,
                residual: residual2,
                error: error2,
            },
        ) => behavior == behavior2 && error == error2 && residual_settles(
            residual,
            residual2,
            completed,
        ),
        (
            IncarnationOutcome::ActivationFailed { behavior, residual, error },
            IncarnationOutcome::ActivationFailed {
                behavior: behavior2,
                residual: residual2,
                error: error2,
            },
        ) => behavior == behavior2 && error == error2 && residual_settles(
            residual,
            residual2,
            completed,
        ),
        (
            IncarnationOutcome::EnvironmentFailed { behavior, residual, error },
            IncarnationOutcome::EnvironmentFailed {
                behavior: behavior2,
                residual: residual2,
                error: error2,
            },
        ) => behavior == behavior2 && error == error2 && residual_settles(
            residual,
            residual2,
            completed,
        ),
        (IncarnationOutcome::Panicked, IncarnationOutcome::Panicked) => true,
        (IncarnationOutcome::Cancelled, IncarnationOutcome::Cancelled) => true,
        _ => false,
    }
}

/// Whether the events of completed activation tasks follow the control items.
pub open spec fn residual_settles<I, S, E, M, P, T, D, X>(
    before: LocalResidual<I, S, E, MailAddr, M, P, T, D, X>,
    after: LocalResidual<I, S, E, MailAddr, M, P, (), D, X>,
    completed: Seq<Result<(), E>>,
) -> bool {
    &&& before.same_but_control(after)
    &&& after.ingress().control@ == before.ingress().control@ + recovered(completed)
}

/// Note that every activation task of an ended actor has completed. An actor
/// that panicked or was cancelled left none.
pub fn settle_local_outcome<B, F, I, S, E, M, P, T, D, X, G>(
    outcome: LocalOutcome<B, F, I, S, E, M, P, T, D, X, G>,
    completed: Vec<Result<(), E>>,
) -> (settled: LocalOutcome<B, F, I, S, E, M, P, (), D, X, G>)
    ensures
        settles(outcome, settled, completed@),
{
    match outcome {
        IncarnationOutcome::Completed { behavior, residual, completion } => {
            IncarnationOutcome::Completed {
                behavior,
                residual: residual.settle_activation_tasks(completed),
                completion,
            }
        },
        IncarnationOutcome::BehaviorFailed { behavior, residual, error } => {
            IncarnationOutcome::BehaviorFailed {
                behavior,
                residual: residual.settle_activation_tasks(completed),
                error,
            }
        },
        IncarnationOutcome::ActivationFailed { behavior, residual, error } => {
            IncarnationOutcome::ActivationFailed {
                behavior,
                residual: residual.settle_activation_tasks(completed),
                error,
            }
        },
        IncarnationOutcome::EnvironmentFailed { behavior, residual, error } => {
            IncarnationOutcome::EnvironmentFailed {
                behavior,
                residual: residual.settle_activation_tasks(completed),
                error,
            }
        },
        IncarnationOutcome::Panicked => IncarnationOutcome::Panicked,
        IncarnationOutcome::Cancelled => IncarnationOutcome::Cancelled,
    }
}

/// The startup failure of an actor whose task was joined, its activation tasks
/// having completed.
pub fn startup_failure<B, F, I, S, E, M, P, T, D, X, G>(
    joined: Joined<LocalOutcome<B, F, I, S, E, M, P, T, D, X, G>>,
    completed: Vec<Result<(), E>>,
) -> (failure: SpawnError<B, F, I, E, M, D>)
    requires
        joined matches Joined::Returned(outcome) ==> ends_before_publication(outcome),
    ensures
        match joined {
            Joined::Returned(outcome) => exists|
                settled: LocalOutcome<B, F, I, S, E, M, P, (), D, X, G>,
            | #[trigger]
                settles(outcome, settled, completed@) && failure == startup_failure_of(settled),
            Joined::Panicked => failure == SpawnError::<B, F, I, E, M, D>::Panicked,
            Joined::Aborted => failure == SpawnError::<B, F, I, E, M, D>::Cancelled,
        },
{
    match joined {
        Joined::Returned(outcome) => {
            let ghost ended = outcome;
            let settled = settle_local_outcome(outcome, completed);
            assert(settles(ended, settled, completed@));
            SpawnError::from_local(settled)
        },
        Joined::Panicked => SpawnError::Panicked,
        Joined::Aborted => SpawnError::Cancelled,
    }
}

/// Why an actor was not published.
#[derive(Debug, Clone, Copy, PartialEq, Eq, Structural)]
pub enum ActivationRejection {
    /// It ended first.
    EndedBeforePublication,
}

/// The authority to tell, once, whether an actor became live.
#[derive(Debug)]
pub struct ActivationPublisher<P> {
    publisher: Option<P>,
}

impl<P> View for ActivationPublisher<P> {
    type V = Option<P>;

    closed spec fn view(&self) -> Option<P> {
        self.publisher
    }
}

impl<P> ActivationPublisher<P> {
    /// Nobody has been told.
    pub fn new(publisher: P) -> (activation: Self)
        ensures
            activation@ == Some(publisher),
    {
        ActivationPublisher { publisher: Some(publisher) }
    }

    /// Take the authority, if it has not been used.
    pub fn complete_activation(&mut self) -> (publisher: Option<P>)
        ensures
            publisher == old(self)@,
            final(self)@ is None,
    {
        self.publisher.take()
    }
}

/// A live actor and what owns it: `R` refers to it, `C` is its control lane and
/// `T` its task.
#[derive(Debug)]
pub struct OwnedActor<R, C, T> {
    /// Refers to the actor.
    pub actor: R,
    /// Its control lane.
    pub control: C,
    /// Its task.
    pub task: T,
}

/// Go on with what was told of an actor that is being launched. The task of one
/// that never became live comes back, to be joined for its startup failure.
pub fn settle_launch<R, C, T>(
    activation: Result<R, ActivationRejection>,
    control: C,
    task: T,
) -> (launched: Result<OwnedActor<R, C, T>, T>)
    ensures
        launched == match activation {
            Ok(actor) => Ok::<OwnedActor<R, C, T>, T>(OwnedActor { actor, control, task }),
            Err(_) => Err::<OwnedActor<R, C, T>, T>(task),
        },
{
    match activation {
        Ok(actor) => Ok(OwnedActor { actor, control, task }),
        Err(ActivationRejection::EndedBeforePublication) => Err(task),
    }
}

/// What is told when an actor retires. `P` tells its launcher.
#[derive(Debug)]
pub enum RetirementNotice<P, A> {
    /// It never became live.
    NeverLive { publisher: P, rejection: ActivationRejection },
    /// It was live, and its owner cancelled it.
    OwnerCancelled,
    /// It was live, and ended by itself with this terminal fact.
    Terminated(Result<Exit<A>, Crash>),
}

/// Whether the owner of an actor that ended like this had cancelled it.
pub open spec fn cancelled_by_owner<B, F, I, S, E, M, P, T, D, X, G>(
    outcome: LocalOutcome<B, F, I, S, E, M, P, T, D, X, G>,
) -> bool {
    outcome matches IncarnationOutcome::Completed { residual, .. } && residual is Retired
        && residual->owner_cancellation is Some
}

/// Decide what is told when an actor retires: its launcher if it never became
/// live, and otherwise those who observe its termination.
pub fn retire_local<B, F, I, S, E, M, P, T, D, X, G, Q>(
    activation: &mut ActivationPublisher<Q>,
    selected: &mut TerminationSelection<MailAddr>,
    outcome: &LocalOutcome<B, F, I, S, E, M, P, T, D, X, G>,
) -> (notice: RetirementNotice<Q, MailAddr>)
    ensures
        final(activation)@ is None,
        match old(activation)@ {
            Some(publisher) => notice == (RetirementNotice::<Q, MailAddr>::NeverLive {
                publisher,
                rejection: ActivationRejection::EndedBeforePublication,
            }) && final(selected).retained() == old(selected).retained(),
            None => if cancelled_by_owner(*outcome) {
                notice == RetirementNotice::<Q, MailAddr>::OwnerCancelled && final(selected).retained()
                    == old(selected).retained()
            } else {
                notice == RetirementNotice::<Q, MailAddr>::Terminated(
                    match old(selected).retained() {
                        Some(termination) => termination,
                        None => termination_of(*outcome),
                    },
                ) && final(selected).retained() is None
            },
        },
{
    match activation.complete_activation() {
        Some(publisher) => RetirementNotice::NeverLive {
            publisher,
            rejection: ActivationRejection::EndedBeforePublication,
        },
        None => {
            let by_owner = match outcome {
                IncarnationOutcome::Completed { residual, .. } => match residual {
                    LocalResidual::Retired { owner_cancellation, .. } => owner_cancellation.is_some(),
                    LocalResidual::Uncommitted { .. } => false,
                },
                _ => false,
            };
            if by_owner {
                RetirementNotice::OwnerCancelled
            } else {
                RetirementNotice::Terminated(selected.retire(outcome))
            }
        },
    }
}

/// An actor can end before it is published unless its environment failed, or
/// what it left is not what such an end leaves.
pub proof fn law_what_ends_before_publication<B, F, I, S, E, M, P, T, D, X, G>(
    outcome: LocalOutcome<B, F, I, S, E, M, P, T, D, X, G>,
)
    ensures
        outcome is Completed || outcome is Panicked || outcome is Cancelled
            ==> ends_before_publication(outcome),
        outcome is EnvironmentFailed ==> !ends_before_publication(outcome),
        outcome matches IncarnationOutcome::BehaviorFailed { residual, .. } ==> (
        ends_before_publication(outcome) <==> residual is Retired),
        outcome matches IncarnationOutcome::ActivationFailed { residual, .. } ==> (
        ends_before_publication(outcome) <==> residual is Uncommitted),
{
}

/// A startup failure tells how the actor ended and carries everything that it
/// owned: its behavior, the reason, what was queued in both lanes, its
/// descendants, and its initialization if its address was refused.
pub proof fn law_a_startup_failure_carries_everything<B, F, I, S, E, M, P, T, D, X, G>(
    outcome: LocalOutcome<B, F, I, S, E, M, P, T, D, X, G>,
)
    requires
        ends_before_publication(outcome),
    ensures
        match outcome {
            IncarnationOutcome::Completed { completion, .. } => startup_failure_of(outcome)
                == SpawnError::<B, F, I, E, M, D>::Ended(completion),
            IncarnationOutcome::Panicked => startup_failure_of(outcome) is Panicked,
            IncarnationOutcome::Cancelled => startup_failure_of(outcome) is Cancelled,
            IncarnationOutcome::BehaviorFailed { behavior, residual, error } => {
                startup_failure_of(outcome) == (SpawnError::<
                    B,
                    F,
                    I,
                    E,
                    M,
                    D,
                >::InitializationRejected {
                    behavior,
                    error,
                    control: residual->Retired_ingress.control,
                    user: residual->Retired_ingress.user,
                    descendants: residual->Retired_descendants,
                })
            },
            IncarnationOutcome::ActivationFailed { behavior, residual, error } => {
                startup_failure_of(outcome) == (SpawnError::<B, F, I, E, M, D>::HostRejected {
                    behavior,
                    initialization: residual->initialization,
                    error,
                    control: residual->Uncommitted_ingress.control,
                    user: residual->Uncommitted_ingress.user,
                    descendants: residual->Uncommitted_descendants,
                })
            },
            IncarnationOutcome::EnvironmentFailed { .. } => true,
        },
{
}

/// The terminal facts of a startup failure are of its own kind.
pub proof fn law_a_startup_failure_retires_as_itself<B, F, I, S, E, M, D, G>(
    failure: SpawnError<B, F, I, E, M, D>,
)
    ensures
        ({
            let facts = retirement_of::<B, F, I, S, E, M, D, G>(failure);
            match failure {
                SpawnError::AllocationRejected { behavior, reason } => facts == (ActorRetirement::<
                    B,
                    F,
                    I,
                    S,
                    E,
                    M,
                    D,
                    G,
                >::AllocationRejected { behavior, reason }),
                SpawnError::InitializationRejected { behavior, error, control, user, descendants }
                => facts is InitializationRejected
                    && facts->InitializationRejected_behavior == behavior
                    && facts->InitializationRejected_error == error
                    && facts->InitializationRejected_control == control
                    && facts->InitializationRejected_user == user
                    && facts->InitializationRejected_descendants == descendants,
                SpawnError::HostRejected {
                    behavior,
                    initialization,
                    error,
                    control,
                    user,
                    descendants,
                } => facts is HostRejected && facts->HostRejected_behavior == behavior
                    && facts->initialization == initialization && facts->HostRejected_error
                    == error && facts->HostRejected_control == control && facts->HostRejected_user
                    == user && facts->HostRejected_descendants == descendants,
                SpawnError::Panicked => facts is Panicked,
                SpawnError::Cancelled => facts is Cancelled,
                SpawnError::Ended(completion) => facts is EndedBeforeActivation
                    && facts->EndedBeforeActivation_completion == completion,
            }
        }),
{
}

/// A task that returned gives the outcome that it returned; one that panicked
/// has panicked, and one that was aborted was cancelled.
pub proof fn law_a_joined_task_tells_its_outcome<B, R, BE, AE, EE>(
    joined: Joined<IncarnationOutcome<B, R, BE, AE, EE>>,
)
    ensures
        joined matches Joined::Returned(outcome) ==> joined_outcome(joined) == outcome,
        joined is Panicked ==> joined_outcome(joined) is Panicked,
        joined is Aborted ==> joined_outcome(joined) is Cancelled,
{
}

/// Settling the tasks of an ended actor keeps how it ended, its behavior and its
/// reason, and puts the events that came back behind the control items that were
/// queued.
pub proof fn law_settling_keeps_the_outcome<B, F, I, S, E, M, P, T, D, X, G>(
    before: LocalOutcome<B, F, I, S, E, M, P, T, D, X, G>,
    after: LocalOutcome<B, F, I, S, E, M, P, (), D, X, G>,
    completed: Seq<Result<(), E>>,
)
    requires
        settles(before, after, completed),
    ensures
        before is Panicked <==> after is Panicked,
        before is Cancelled <==> after is Cancelled,
        before matches IncarnationOutcome::Completed { behavior, residual, completion } ==> {
            &&& after is Completed
            &&& after->Completed_behavior == behavior
            &&& after->completion == completion
            &&& residual.same_but_control(after->Completed_residual)
            &&& after->Completed_residual.ingress().control@ == residual.ingress().control@
                + recovered(completed)
        },
        before matches IncarnationOutcome::BehaviorFailed { behavior, residual, error } ==> {
            &&& after is BehaviorFailed
            &&& after->BehaviorFailed_behavior == behavior
            &&& after->BehaviorFailed_error == error
            &&& residual.same_but_control(after->BehaviorFailed_residual)
            &&& after->BehaviorFailed_residual.ingress().control@ == residual.ingress().control@
                + recovered(completed)
        },
        before matches IncarnationOutcome::ActivationFailed { behavior, residual, error } ==> {
            &&& after is ActivationFailed
            &&& after->ActivationFailed_behavior == behavior
            &&& after->ActivationFailed_error == error
            &&& residual.same_but_control(after->ActivationFailed_residual)
            &&& after->ActivationFailed_residual.ingress().control@ == residual.ingress().control@
                + recovered(completed)
        },
        before matches IncarnationOutcome::EnvironmentFailed { behavior, residual, error } ==> {
            &&& after is EnvironmentFailed
            &&& after->EnvironmentFailed_behavior == behavior
            &&& after->EnvironmentFailed_error == error
            &&& residual.same_but_control(after->EnvironmentFailed_residual)
            &&& after->EnvironmentFailed_residual.ingress().control@ == residual.ingress().control@
                + recovered(completed)
        },
{
}

/// An actor was cancelled by its owner if it completed and left the cancellation
/// behind, and in no other case.
pub proof fn law_a_cancelled_actor_left_the_cancellation<B, F, I, S, E, M, P, T, D, X, G>(
    outcome: LocalOutcome<B, F, I, S, E, M, P, T, D, X, G>,
)
    ensures
        !(outcome is Completed) ==> !cancelled_by_owner(outcome),
        outcome matches IncarnationOutcome::Completed { residual, .. } ==> {
            &&& residual is Uncommitted ==> !cancelled_by_owner(outcome)
            &&& residual is Retired ==> (cancelled_by_owner(outcome)
                <==> residual->owner_cancellation is Some)
        },
{
}

} // verus!
