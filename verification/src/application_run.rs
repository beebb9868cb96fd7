//! The one order in which an application runs: its executor, its entity
//! families, its root, the boundary, and back.

use vstd::prelude::*;

use crate::address::MailAddr;
use crate::application_runtime::{ApplicationHandle, RunError};
use crate::launch::OwnedActor;

verus! {

/// How far an application has come.
#[derive(Debug, Clone, Copy, PartialEq, Eq, Structural)]
pub enum RunPhase {
    /// Its executor is to be built.
    Starting,
    /// Its declared families are to be installed.
    Installing,
    /// Its root is to be launched.
    Launching,
    /// Its root is live, and the boundary runs.
    Live,
    /// The boundary has returned, and the root is to end.
    Finishing,
    /// The root has settled, and the families are to shut down.
    Draining,
    /// Nothing is left to do.
    Ended,
}

/// What happens to an application.
#[derive(Debug, Clone, Copy, PartialEq, Eq, Structural)]
pub enum RunStep {
    /// The executor could not be built.
    ExecutorFailed,
    /// The executor was built.
    ExecutorBuilt,
    /// The declared families were installed.
    FamiliesInstalled,
    /// The root did not become live.
    RootFailed,
    /// The root became live, and the boundary got its handle.
    RootLive,
    /// The boundary returned.
    BoundaryReturned,
    /// The root ended.
    RootEnded,
    /// The installed families shut down.
    FamiliesShutDown,
}

/// The phase after one step, if the step can happen.
pub open spec fn advanced(phase: RunPhase, step: RunStep) -> Option<RunPhase> {
    match (phase, step) {
        (RunPhase::Starting, RunStep::ExecutorFailed) => Some(RunPhase::Ended),
        (RunPhase::Starting, RunStep::ExecutorBuilt) => Some(RunPhase::Installing),
        (RunPhase::Installing, RunStep::FamiliesInstalled) => Some(RunPhase::Launching),
        (RunPhase::Launching, RunStep::RootFailed) => Some(RunPhase::Draining),
        (RunPhase::Launching, RunStep::RootLive) => Some(RunPhase::Live),
        (RunPhase::Live, RunStep::BoundaryReturned) => Some(RunPhase::Finishing),
        (RunPhase::Finishing, RunStep::RootEnded) => Some(RunPhase::Draining),
        (RunPhase::Draining, RunStep::FamiliesShutDown) => Some(RunPhase::Ended),
        _ => None,
    }
}

/// The phase after some steps of a fresh application, if they can happen.
pub open spec fn ran(steps: Seq<RunStep>) -> Option<RunPhase>
    decreases steps.len(),
{
    if steps.len() == 0 {
        Some(RunPhase::Starting)
    } else {
        match ran(steps.drop_last()) {
            Some(phase) => advanced(phase, steps.last()),
            None => None,
        }
    }
}

/// An application whose executor is to be built. `D` declares its families.
#[derive(Debug)]
pub struct ApplicationStarting<D> {
    families: D,
}

/// An application whose declared families are to be installed.
#[derive(Debug)]
pub struct ApplicationInstalling {
    _built: (),
}

/// An application whose root is to be launched. `I` is its installed families.
#[derive(Debug)]
pub struct ApplicationLaunching<I> {
    installed: I,
}

/// An application whose root is live. `K` is the task of the root.
#[derive(Debug)]
pub struct ApplicationLive<I, K> {
    installed: I,
    task: K,
}

/// An application whose boundary has returned `O`.
#[derive(Debug)]
pub struct ApplicationFinishing<I, O> {
    installed: I,
    output: O,
}

/// An application whose root has settled: it ended with `T` after the boundary
/// had returned `O`, or did not become live.
#[derive(Debug)]
pub struct ApplicationDraining<O, T, E, X> {
    settled: Result<(O, T), RunError<E, X>>,
}

impl<D> ApplicationStarting<D> {
    /// The phase of such an application.
    pub open spec fn phase(&self) -> RunPhase {
        RunPhase::Starting
    }

    /// The declared families.
    pub closed spec fn families(&self) -> D {
        self.families
    }

    /// An application with these declared families, of which none is installed.
    pub fn new(families: D) -> (starting: Self)
        ensures
            starting.families() == families,
    {
        ApplicationStarting { families }
    }

    /// The executor was built, or not: then no declared family is handed out, so
    /// that none is installed.
    pub fn executor<Rt, E, X>(self, built: Result<Rt, X>) -> (started: Result<
        (Rt, D, ApplicationInstalling),
        RunError<E, X>,
    >)
        ensures
            match built {
                Ok(executor) => {
                    &&& started matches Ok((running, families, installing))
                    &&& running == executor
                    &&& families == self.families()
                    &&& advanced(self.phase(), RunStep::ExecutorBuilt) == Some(installing.phase())
                },
                Err(error) => {
                    &&& started == Err::<(Rt, D, ApplicationInstalling), RunError<E, X>>(
                        RunError::Runtime(error),
                    )
                    &&& advanced(self.phase(), RunStep::ExecutorFailed) == Some(RunPhase::Ended)
                },
            },
    {
        match built {
            Ok(executor) => Ok((executor, self.families, ApplicationInstalling { _built: () })),
            Err(error) => Err(RunError::Runtime(error)),
        }
    }
}

impl ApplicationInstalling {
    /// The phase of such an application.
    pub open spec fn phase(&self) -> RunPhase {
        RunPhase::Installing
    }

    /// The declared families were installed.
    pub fn installed<I>(self, installed: I) -> (launching: ApplicationLaunching<I>)
        ensures
            launching.installed() == installed,
            advanced(self.phase(), RunStep::FamiliesInstalled) == Some(launching.phase()),
    {
        ApplicationLaunching { installed }
    }
}

impl<I> ApplicationLaunching<I> {
    /// The phase of such an application.
    pub open spec fn phase(&self) -> RunPhase {
        RunPhase::Launching
    }

    /// The installed families.
    pub closed spec fn installed(&self) -> I {
        self.installed
    }

    /// The installed families, for access to their entities.
    pub fn families(&self) -> (installed: &I)
        ensures
            *installed == self.installed(),
    {
        &self.installed
    }

    /// The address at which the root is launched.
    pub fn root_address(&self) -> (address: MailAddr)
        ensures
            address == MailAddr::root(),
    {
        MailAddr::application_root()
    }

    /// The root was launched, or not. The boundary gets the handle of a live
    /// root, once. If the root is not live there is none, and the families are
    /// handed out to be shut down.
    pub fn launched<R, C, K, Receptionists, O, T, E, X>(
        self,
        launched: Result<OwnedActor<R, C, K>, RunError<E, X>>,
        receptionists: Receptionists,
    ) -> (live: Result<
        (ApplicationHandle<R, Receptionists>, ApplicationLive<I, K>),
        (I, ApplicationDraining<O, T, E, X>),
    >)
        ensures
            match launched {
                Ok(root) => {
                    &&& live matches Ok((handle, live))
                    &&& handle.root_view() == root.actor
                    &&& handle.families_view() == receptionists
                    &&& live.installed() == self.installed()
                    &&& live.task_view() == root.task
                    &&& advanced(self.phase(), RunStep::RootLive) == Some(live.phase())
                },
                Err(error) => {
                    &&& live matches Err((installed, draining))
                    &&& installed == self.installed()
                    &&& draining.settled() == Err::<(O, T), RunError<E, X>>(error)
                    &&& advanced(self.phase(), RunStep::RootFailed) == Some(draining.phase())
                },
            },
    {
        match launched {
            Ok(root) => Ok(
                (
                    ApplicationHandle::new(root.actor, receptionists),
                    ApplicationLive { installed: self.installed, task: root.task },
                ),
            ),
            Err(error) => Err((self.installed, ApplicationDraining { settled: Err(error) })),
        }
    }
}

impl<I, K> ApplicationLive<I, K> {
    /// The phase of such an application.
    pub open spec fn phase(&self) -> RunPhase {
        RunPhase::Live
    }

    /// The installed families.
    pub closed spec fn installed(&self) -> I {
        self.installed
    }

    /// The task of the root.
    pub closed spec fn task_view(&self) -> K {
        self.task
    }

    /// The boundary returned. That does not stop the root: its task is handed
    /// out to be waited for.
    pub fn returned<O>(self, output: O) -> (finishing: (K, ApplicationFinishing<I, O>))
        ensures
            finishing.0 == self.task_view(),
            finishing.1.installed() == self.installed(),
            finishing.1.output() == output,
            advanced(self.phase(), RunStep::BoundaryReturned) == Some(finishing.1.phase()),
    {
        (self.task, ApplicationFinishing { installed: self.installed, output })
    }
}

impl<I, O> ApplicationFinishing<I, O> {
    /// The phase of such an application.
    pub open spec fn phase(&self) -> RunPhase {
        RunPhase::Finishing
    }

    /// The installed families.
    pub closed spec fn installed(&self) -> I {
        self.installed
    }

    /// What the boundary returned.
    pub closed spec fn output(&self) -> O {
        self.output
    }

    /// The root ended: only now are the families handed out, to be shut down.
    pub fn finished<T, E, X>(self, terminal: T) -> (draining: (I, ApplicationDraining<O, T, E, X>))
        ensures
            draining.0 == self.installed(),
            draining.1.settled() == Ok::<(O, T), RunError<E, X>>((self.output(), terminal)),
            advanced(self.phase(), RunStep::RootEnded) == Some(draining.1.phase()),
    {
        (self.installed, ApplicationDraining { settled: Ok((self.output, terminal)) })
    }
}

impl<O, T, E, X> ApplicationDraining<O, T, E, X> {
    /// The phase of such an application.
    pub open spec fn phase(&self) -> RunPhase {
        RunPhase::Draining
    }

    /// How the root settled.
    pub closed spec fn settled(&self) -> Result<(O, T), RunError<E, X>> {
        self.settled
    }

    /// The families shut down. What the boundary returned comes back unchanged,
    /// with how the root ended and what the families report; a root that did not
    /// become live comes back as its own failure.
    pub fn shut_down<S>(self, shutdowns: S) -> (ended: Result<(O, T, S), RunError<E, X>>)
        ensures
            ended == application_outcome(self.settled(), shutdowns),
            advanced(self.phase(), RunStep::FamiliesShutDown) == Some(RunPhase::Ended),
    {
        match self.settled {
            Ok((output, terminal)) => Ok((output, terminal, shutdowns)),
            Err(error) => Err(error),
        }
    }
}

/// What an application ends with whose root settled like this and whose families
/// have shut down.
pub open spec fn application_outcome<O, T, S, E, X>(
    settled: Result<(O, T), RunError<E, X>>,
    shutdowns: S,
) -> Result<(O, T, S), RunError<E, X>> {
    match settled {
        Ok((output, terminal)) => Ok((output, terminal, shutdowns)),
        Err(error) => Err(error),
    }
}

/// The steps of an application up to its phase: there is one row of them, but for
/// the two early ends.
proof fn lemma_ran(steps: Seq<RunStep>)
    requires
        ran(steps) is Some,
    ensures
        match ran(steps)->0 {
            RunPhase::Starting => steps == Seq::<RunStep>::empty(),
            RunPhase::Installing => steps == seq![RunStep::ExecutorBuilt],
            RunPhase::Launching => steps == launching_steps(),
            RunPhase::Live => steps == launching_steps().push(RunStep::RootLive),
            RunPhase::Finishing => steps == finishing_steps(),
            RunPhase::Draining => steps == launching_steps().push(RunStep::RootFailed) || steps
                == finishing_steps().push(RunStep::RootEnded),
            RunPhase::Ended => {
                ||| steps == seq![RunStep::ExecutorFailed]
                ||| steps == launching_steps().push(RunStep::RootFailed).push(
                    RunStep::FamiliesShutDown,
                )
                ||| steps == finishing_steps().push(RunStep::RootEnded).push(
                    RunStep::FamiliesShutDown,
                )
            },
        },
    decreases steps.len(),
{
    if steps.len() > 0 {
        let before = steps.drop_last();
        lemma_ran(before);
        assert(steps =~= before.push(steps.last()));
        assert(Seq::<RunStep>::empty().push(RunStep::ExecutorBuilt) =~= seq![
            RunStep::ExecutorBuilt,
        ]);
        assert(Seq::<RunStep>::empty().push(RunStep::ExecutorFailed) =~= seq![
            RunStep::ExecutorFailed,
        ]);
        assert(seq![RunStep::ExecutorBuilt].push(RunStep::FamiliesInstalled)
            =~= launching_steps());
    } else {
        assert(steps =~= Seq::<RunStep>::empty());
    }
}

/// The steps until the root is launched.
spec fn launching_steps() -> Seq<RunStep> {
    seq![RunStep::ExecutorBuilt, RunStep::FamiliesInstalled]
}

/// The steps until the boundary has returned.
spec fn finishing_steps() -> Seq<RunStep> {
    launching_steps().push(RunStep::RootLive).push(RunStep::BoundaryReturned)
}

/// The families of an application shut down at most once, after they were
/// installed and right after the root settled, as the last step of the run.
pub proof fn law_families_shut_down_once_after_the_root(steps: Seq<RunStep>, i: int)
    requires
        ran(steps) is Some,
        0 <= i < steps.len(),
        steps[i] is FamiliesShutDown,
    ensures
        i == steps.len() - 1,
        i >= 2,
        steps[i - 1] is RootEnded || steps[i - 1] is RootFailed,
        steps[1] is FamiliesInstalled,
        forall|j: int| 0 <= j < i ==> !((#[trigger] steps[j]) is FamiliesShutDown),
{
    lemma_ran(steps);
}

/// Installed families are never left running: a run that installed them ends
/// with their shutdown.
pub proof fn law_installed_families_always_shut_down(steps: Seq<RunStep>, i: int)
    requires
        ran(steps) == Some(RunPhase::Ended),
        0 <= i < steps.len(),
        steps[i] is FamiliesInstalled,
    ensures
        steps.last() is FamiliesShutDown,
{
    lemma_ran(steps);
}

/// An application without an executor installs nothing, launches nothing and
/// shuts nothing down.
pub proof fn law_a_failed_executor_installs_nothing(steps: Seq<RunStep>, i: int)
    requires
        ran(steps) is Some,
        0 <= i < steps.len(),
        steps[i] is ExecutorFailed,
    ensures
        steps.len() == 1,
{
    lemma_ran(steps);
}

/// The boundary gets a handle at most once, and never if the root did not become
/// live; when it has returned, the application ends only after the root has
/// ended.
pub proof fn law_the_boundary_does_not_end_the_application(steps: Seq<RunStep>, i: int)
    requires
        ran(steps) is Some,
        0 <= i < steps.len(),
        steps[i] is RootLive,
    ensures
        forall|j: int|
            0 <= j < steps.len() && j != i ==> !((#[trigger] steps[j]) is RootLive) && !(
            steps[j] is RootFailed),
        ran(steps) == Some(RunPhase::Ended) ==> steps.len() == i + 4 && steps[i + 1]
            is BoundaryReturned && steps[i + 2] is RootEnded,
{
    lemma_ran(steps);
}

/// What the boundary returned and how the root ended come back together and
/// unchanged, and a root that did not become live comes back as its own failure.
pub proof fn law_a_run_gives_back_what_happened<O, T, S, E, X>(
    output: O,
    terminal: T,
    error: RunError<E, X>,
    shutdowns: S,
)
    ensures
        application_outcome(Ok::<(O, T), RunError<E, X>>((output, terminal)), shutdowns) == Ok::<
            (O, T, S),
            RunError<E, X>,
        >((output, terminal, shutdowns)),
        application_outcome(Err::<(O, T), RunError<E, X>>(error), shutdowns) == Err::<
            (O, T, S),
            RunError<E, X>,
        >(error),
{
}

/// What can happen to an application is decided by how far it has come, and each
/// of it takes the application one phase further: a root that fails and one that
/// ends both leave the families to be shut down.
pub proof fn law_each_phase_has_its_steps(phase: RunPhase, step: RunStep)
    ensures
        advanced(phase, step) is Some <==> match step {
            RunStep::ExecutorFailed => phase is Starting,
            RunStep::ExecutorBuilt => phase is Starting,
            RunStep::FamiliesInstalled => phase is Installing,
            RunStep::RootFailed => phase is Launching,
            RunStep::RootLive => phase is Launching,
            RunStep::BoundaryReturned => phase is Live,
            RunStep::RootEnded => phase is Finishing,
            RunStep::FamiliesShutDown => phase is Draining,
        },
        advanced(phase, step) matches Some(next) ==> {
            &&& next is Ended <==> step is ExecutorFailed || step is FamiliesShutDown
            &&& next is Installing <==> step is ExecutorBuilt
            &&& next is Launching <==> step is FamiliesInstalled
            &&& next is Draining <==> step is RootFailed || step is RootEnded
            &&& next is Live <==> step is RootLive
            &&& next is Finishing <==> step is BoundaryReturned
        },
{
}

/// A run is its steps in order: a further step happens if the steps before it
/// can happen and lead where it is possible.
pub proof fn law_a_run_goes_step_by_step(steps: Seq<RunStep>, step: RunStep)
    ensures
        ran(Seq::<RunStep>::empty()) == Some(RunPhase::Starting),
        ran(steps) is None ==> ran(steps.push(step)) is None,
        ran(steps) matches Some(phase) ==> ran(steps.push(step)) == advanced(phase, step),
{
    assert(steps.push(step).drop_last() =~= steps);
}

/// An application is in the phase that its type names.
pub proof fn law_an_application_is_in_its_phase<D, I, K, O, T, E, X>(
    starting: ApplicationStarting<D>,
    installing: ApplicationInstalling,
    launching: ApplicationLaunching<I>,
    live: ApplicationLive<I, K>,
    finishing: ApplicationFinishing<I, O>,
    draining: ApplicationDraining<O, T, E, X>,
)
    ensures
        starting.phase() is Starting,
        installing.phase() is Installing,
        launching.phase() is Launching,
        live.phase() is Live,
        finishing.phase() is Finishing,
        draining.phase() is Draining,
{
}

} // verus!
