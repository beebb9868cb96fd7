//! Exact terminal classification of one actor execution.

use vstd::prelude::*;
use vstd::std_specs::convert::{FromSpec, FromSpecImpl};

verus! {

/// Why a driver returned successfully.
#[derive(Debug, Clone, Copy, PartialEq, Eq, Structural)]
pub enum Completion {
    /// The behavior stopped.
    Stopped,
    /// Every source of events was exhausted.
    Exhausted,
}

/// Why a driver failed.
#[derive(Debug)]
pub enum DriverError<BehaviorError, ActivationError, EnvironmentError> {
    /// Behavior initialization or one fold failed.
    Behavior(BehaviorError),
    /// The prepared environment rejected activation.
    Activation(ActivationError),
    /// The environment rejected one complete action commitment.
    Environment(EnvironmentError),
}

/// What a driver returns: the final behavior, what its environment left, and
/// how it ended.
#[derive(Debug)]
pub struct DriverRetirement<B, R, E> {
    pub behavior: B,
    pub residual: R,
    pub disposition: Result<Completion, E>,
}

/// Every factual way one incarnation can terminate.
///
/// Behavior and environment failures retain their concrete owned payloads.
/// Panic and cancellation are properties of executing the driver.
#[allow(inconsistent_fields)]
#[derive(Debug)]
pub enum IncarnationOutcome<B, R, BehaviorError, ActivationError, EnvironmentError> {
    /// The driver returned successfully for the stated reason.
    Completed { behavior: B, residual: R, completion: Completion },
    /// Behavior initialization or one behavior fold failed.
    BehaviorFailed { behavior: B, residual: R, error: BehaviorError },
    /// The prepared environment rejected activation.
    ActivationFailed { behavior: B, residual: R, error: ActivationError },
    /// The environment rejected one complete action commitment.
    EnvironmentFailed { behavior: B, residual: R, error: EnvironmentError },
    /// Driver execution unwound through a panic.
    Panicked,
    /// Driver execution was dropped before returning.
    Cancelled,
}

impl<B, R, BehaviorError, ActivationError, EnvironmentError> From<
    DriverRetirement<B, R, DriverError<BehaviorError, ActivationError, EnvironmentError>>,
> for IncarnationOutcome<B, R, BehaviorError, ActivationError, EnvironmentError> {
    fn from(
        retirement: DriverRetirement<
            B,
            R,
            DriverError<BehaviorError, ActivationError, EnvironmentError>,
        >,
    ) -> (outcome: Self) {
        let DriverRetirement { behavior, residual, disposition } = retirement;
        match disposition {
            Ok(completion) => IncarnationOutcome::Completed { behavior, residual, completion },
            Err(DriverError::Behavior(error)) => IncarnationOutcome::BehaviorFailed {
                behavior,
                residual,
                error,
            },
            Err(DriverError::Activation(error)) => IncarnationOutcome::ActivationFailed {
                behavior,
                residual,
                error,
            },
            Err(DriverError::Environment(error)) => IncarnationOutcome::EnvironmentFailed {
                behavior,
                residual,
                error,
            },
        }
    }
}

impl<B, R, BehaviorError, ActivationError, EnvironmentError> FromSpecImpl<
    DriverRetirement<B, R, DriverError<BehaviorError, ActivationError, EnvironmentError>>,
> for IncarnationOutcome<B, R, BehaviorError, ActivationError, EnvironmentError> {
    open spec fn obeys_from_spec() -> bool {
        true
    }

    open spec fn from_spec(
        retirement: DriverRetirement<
            B,
            R,
            DriverError<BehaviorError, ActivationError, EnvironmentError>,
        >,
    ) -> Self {
        classified(retirement)
    }
}

/// The classification of what a driver returned.
pub open spec fn classified<B, R, BE, AE, EE>(
    retirement: DriverRetirement<B, R, DriverError<BE, AE, EE>>,
) -> IncarnationOutcome<B, R, BE, AE, EE> {
    let behavior = retirement.behavior;
    let residual = retirement.residual;
    match retirement.disposition {
        Ok(completion) => IncarnationOutcome::Completed { behavior, residual, completion },
        Err(DriverError::Behavior(error)) => IncarnationOutcome::BehaviorFailed {
            behavior,
            residual,
            error,
        },
        Err(DriverError::Activation(error)) => IncarnationOutcome::ActivationFailed {
            behavior,
            residual,
            error,
        },
        Err(DriverError::Environment(error)) => IncarnationOutcome::EnvironmentFailed {
            behavior,
            residual,
            error,
        },
    }
}

/// How an execution that did not return was interrupted.
pub open spec fn interruption<B, R, BE, AE, EE>(panicking: bool) -> IncarnationOutcome<
    B,
    R,
    BE,
    AE,
    EE,
> {
    if panicking {
        IncarnationOutcome::Panicked
    } else {
        IncarnationOutcome::Cancelled
    }
}

/// The guard that retires one incarnation exactly once: with the outcome of its
/// driver, or with the classification of its interruption.
#[derive(Debug)]
pub struct Terminal<R> {
    retirement: Option<R>,
}

impl<R> View for Terminal<R> {
    type V = Option<R>;

    /// The retirement that is still owed.
    closed spec fn view(&self) -> Option<R> {
        self.retirement
    }
}

impl<R> Terminal<R> {
    /// A guard that owes `retirement`.
    pub fn new(retirement: R) -> (terminal: Self)
        ensures
            terminal@ == Some(retirement),
    {
        Terminal { retirement: Some(retirement) }
    }

    /// The driver returned: the retirement and the outcome it is given.
    pub fn complete<O>(&mut self, outcome: O) -> (retired: (R, O))
        requires
            old(self)@ is Some,
        ensures
            retired == (old(self)@->0, outcome),
            final(self)@ is None,
    {
        (self.retirement.take().unwrap(), outcome)
    }

    /// The guard is dropped: if the driver has not returned, the retirement and
    /// the classification of its interruption.
    pub fn release<B, Res, BE, AE, EE>(&mut self, panicking: bool) -> (retired: Option<
        (R, IncarnationOutcome<B, Res, BE, AE, EE>),
    >)
        ensures
            retired == match old(self)@ {
                Some(retirement) => Some(
                    (retirement, interruption::<B, Res, BE, AE, EE>(panicking)),
                ),
                None => None,
            },
            final(self)@ is None,
    {
        match self.retirement.take() {
            Some(retirement) => {
                let outcome = if panicking {
                    IncarnationOutcome::Panicked
                } else {
                    IncarnationOutcome::Cancelled
                };
                Some((retirement, outcome))
            },
            None => None,
        }
    }
}

/// How an incarnation ended on purpose.
#[derive(Debug, Clone, Copy, PartialEq, Eq, Structural)]
pub enum Exit<A> {
    /// The behavior explicitly designated termination.
    Normal,
    /// The actor was collected after its sources were exhausted.
    Collected,
    /// A watch composition propagated a linked peer's death.
    LinkDied(A),
}

/// How an incarnation ended otherwise.
#[derive(Debug, Clone, Copy, PartialEq, Eq, Structural)]
pub enum Crash {
    /// The behavior failed.
    Failed,
    /// The environment failed.
    EnvironmentFailed,
    /// Execution panicked.
    Panicked,
    /// Execution was cancelled.
    Cancelled,
}

/// The terminal fact of an incarnation whose execution ended like this.
pub open spec fn termination_of<A, B, R, BE, AE, EE>(
    outcome: IncarnationOutcome<B, R, BE, AE, EE>,
) -> Result<Exit<A>, Crash> {
    match outcome {
        IncarnationOutcome::Completed { completion: Completion::Stopped, .. } => Ok(Exit::Normal),
        IncarnationOutcome::Completed { completion: Completion::Exhausted, .. } => Ok(
            Exit::Collected,
        ),
        IncarnationOutcome::BehaviorFailed { .. } => Err(Crash::Failed),
        IncarnationOutcome::ActivationFailed { .. } => Err(Crash::EnvironmentFailed),
        IncarnationOutcome::EnvironmentFailed { .. } => Err(Crash::EnvironmentFailed),
        IncarnationOutcome::Panicked => Err(Crash::Panicked),
        IncarnationOutcome::Cancelled => Err(Crash::Cancelled),
    }
}

impl<B, R, BE, AE, EE> IncarnationOutcome<B, R, BE, AE, EE> {
    /// The terminal fact of the incarnation.
    pub fn termination<A>(&self) -> (termination: Result<Exit<A>, Crash>)
        ensures
            termination == termination_of::<A, B, R, BE, AE, EE>(*self),
    {
        match self {
            IncarnationOutcome::Completed { completion, .. } => match completion {
                Completion::Stopped => Ok(Exit::Normal),
                Completion::Exhausted => Ok(Exit::Collected),
            },
            IncarnationOutcome::BehaviorFailed { .. } => Err(Crash::Failed),
            IncarnationOutcome::ActivationFailed { .. } => Err(Crash::EnvironmentFailed),
            IncarnationOutcome::EnvironmentFailed { .. } => Err(Crash::EnvironmentFailed),
            IncarnationOutcome::Panicked => Err(Crash::Panicked),
            IncarnationOutcome::Cancelled => Err(Crash::Cancelled),
        }
    }
}

/// A terminal fact that replaces the one that execution gives.
#[derive(Debug)]
pub struct TerminalOverride<A> {
    outcome: Option<Result<Exit<A>, Crash>>,
}

impl<A> View for TerminalOverride<A> {
    type V = Option<Result<Exit<A>, Crash>>;

    closed spec fn view(&self) -> Option<Result<Exit<A>, Crash>> {
        self.outcome
    }
}

impl<A> TerminalOverride<A> {
    /// Nothing replaces the fact that execution gives.
    pub fn new() -> (replacement: Self)
        ensures
            replacement@ is None,
    {
        TerminalOverride { outcome: None }
    }

    /// Replace the fact that execution gives. The last call counts.
    pub fn set(&mut self, outcome: Result<Exit<A>, Crash>)
        ensures
            final(self)@ == Some(outcome),
    {
        self.outcome = Some(outcome);
    }

    /// The replacement if there is one, else the given fact.
    pub fn resolve(&mut self, outcome: Result<Exit<A>, Crash>) -> (resolved: Result<
        Exit<A>,
        Crash,
    >)
        ensures
            resolved == match old(self)@ {
                Some(replacement) => replacement,
                None => outcome,
            },
            final(self)@ is None,
    {
        match self.outcome.take() {
            Some(replacement) => replacement,
            None => outcome,
        }
    }

    /// The fact that is published of an incarnation that ended like this.
    pub fn retire<B, R, BE, AE, EE>(&mut self, outcome: &IncarnationOutcome<B, R, BE, AE, EE>) -> (
    published: Result<Exit<A>, Crash>)
        ensures
            published == match old(self)@ {
                Some(replacement) => replacement,
                None => termination_of::<A, B, R, BE, AE, EE>(*outcome),
            },
            final(self)@ is None,
    {
        self.resolve(outcome.termination())
    }
}

/// A behavior failure, an environment failure, a panic, a cancellation and the
/// two successes are told apart: no two of them end in one terminal fact.
pub proof fn law_terminal_facts_are_distinct<A, B, R, BE, AE, EE>(
    one: IncarnationOutcome<B, R, BE, AE, EE>,
    other: IncarnationOutcome<B, R, BE, AE, EE>,
)
    requires
        termination_of::<A, B, R, BE, AE, EE>(one) == termination_of::<A, B, R, BE, AE, EE>(other),
    ensures
        one is Panicked <==> other is Panicked,
        one is Cancelled <==> other is Cancelled,
        one is BehaviorFailed <==> other is BehaviorFailed,
        (one is ActivationFailed || one is EnvironmentFailed) <==> (other is ActivationFailed
            || other is EnvironmentFailed),
        one is Completed <==> other is Completed,
        one is Completed ==> one->completion == other->completion,
{
}

/// A success is never published as a crash, nor a failure as an exit.
pub proof fn law_only_completion_is_an_exit<A, B, R, BE, AE, EE>(
    outcome: IncarnationOutcome<B, R, BE, AE, EE>,
)
    ensures
        termination_of::<A, B, R, BE, AE, EE>(outcome) is Ok <==> outcome is Completed,
{
}

/// Nothing of what a driver returns is lost by its classification: the
/// behavior and the residual are the ones it returned.
pub proof fn law_classification_keeps_custody<B, R, BE, AE, EE>(
    retirement: DriverRetirement<B, R, DriverError<BE, AE, EE>>,
)
    ensures
        ({
            let outcome = classified(retirement);
            &&& match outcome {
                IncarnationOutcome::Completed { behavior, residual, completion } => behavior
                    == retirement.behavior && residual == retirement.residual
                    && retirement.disposition == Ok::<Completion, DriverError<BE, AE, EE>>(
                    completion,
                ),
                IncarnationOutcome::BehaviorFailed { behavior, residual, error } => behavior
                    == retirement.behavior && residual == retirement.residual
                    && retirement.disposition == Err::<Completion, DriverError<BE, AE, EE>>(
                    DriverError::Behavior(error),
                ),
                IncarnationOutcome::ActivationFailed { behavior, residual, error } => behavior
                    == retirement.behavior && residual == retirement.residual
                    && retirement.disposition == Err::<Completion, DriverError<BE, AE, EE>>(
                    DriverError::Activation(error),
                ),
                IncarnationOutcome::EnvironmentFailed { behavior, residual, error } => behavior
                    == retirement.behavior && residual == retirement.residual
                    && retirement.disposition == Err::<Completion, DriverError<BE, AE, EE>>(
                    DriverError::Environment(error),
                ),
                IncarnationOutcome::Panicked => false,
                IncarnationOutcome::Cancelled => false,
            }
        }),
{
}

/// Every end has its own terminal fact: a stop is a normal exit and exhaustion a
/// collection, a failed behavior is a failure, a failed activation or commitment
/// a failure of the environment, and a panic and a cancellation are themselves.
/// None of them is the death of a linked peer.
pub proof fn law_every_end_has_its_terminal_fact<A, B, R, BE, AE, EE>(
    outcome: IncarnationOutcome<B, R, BE, AE, EE>,
)
    ensures
        ({
            let fact = termination_of::<A, B, R, BE, AE, EE>(outcome);
            &&& fact == Ok::<Exit<A>, Crash>(Exit::Normal) <==> (outcome is Completed
                && outcome->completion == Completion::Stopped)
            &&& fact == Ok::<Exit<A>, Crash>(Exit::Collected) <==> (outcome is Completed
                && outcome->completion == Completion::Exhausted)
            &&& fact == Err::<Exit<A>, Crash>(Crash::Failed) <==> outcome is BehaviorFailed
            &&& fact == Err::<Exit<A>, Crash>(Crash::EnvironmentFailed) <==> (
            outcome is ActivationFailed || outcome is EnvironmentFailed)
            &&& fact == Err::<Exit<A>, Crash>(Crash::Panicked) <==> outcome is Panicked
            &&& fact == Err::<Exit<A>, Crash>(Crash::Cancelled) <==> outcome is Cancelled
            &&& !(fact matches Ok(Exit::LinkDied(_)))
        }),
{
}

/// An execution that did not return has panicked if it was unwinding, and was
/// cancelled if it was not.
pub proof fn law_an_interruption_tells_a_panic<B, R, BE, AE, EE>(panicking: bool)
    ensures
        interruption::<B, R, BE, AE, EE>(panicking) is Panicked <==> panicking,
        interruption::<B, R, BE, AE, EE>(panicking) is Cancelled <==> !panicking,
{
}

/// What a driver returned decides the class of its outcome, which it converts
/// to.
pub proof fn law_the_disposition_decides_the_class<B, R, BE, AE, EE>(
    retirement: DriverRetirement<B, R, DriverError<BE, AE, EE>>,
)
    ensures
        <IncarnationOutcome<B, R, BE, AE, EE> as FromSpec<
            DriverRetirement<B, R, DriverError<BE, AE, EE>>,
        >>::obeys_from_spec(),
        <IncarnationOutcome<B, R, BE, AE, EE> as FromSpec<
            DriverRetirement<B, R, DriverError<BE, AE, EE>>,
        >>::from_spec(retirement) == classified(retirement),
        classified(retirement) is Completed <==> retirement.disposition is Ok,
        classified(retirement) is BehaviorFailed <==> (retirement.disposition matches Err(error)
            && error is Behavior),
        classified(retirement) is ActivationFailed <==> (retirement.disposition matches Err(error)
            && error is Activation),
        classified(retirement) is EnvironmentFailed <==> (retirement.disposition matches Err(error)
            && error is Environment),
{
}

} // verus!
