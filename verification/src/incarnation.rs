//! One driver execution and its one retirement.

use vstd::prelude::*;

use crate::outcome::{interruption, IncarnationOutcome, Terminal};

verus! {

/// How far the execution of one incarnation has come.
#[derive(Debug, Clone, Copy, PartialEq, Eq, Structural)]
pub enum ExecutionPhase {
    /// The driver is held and can run.
    Running,
    /// The driver is gone, and the retirement is owed.
    Ended,
    /// The retirement has been handed out.
    Retired,
}

/// What happens to an incarnation.
#[derive(Debug, Clone, Copy, PartialEq, Eq, Structural)]
pub enum ExecutionStep {
    /// The driver is given up, with everything that it owns.
    GiveUpDriver,
    /// The retirement is handed out.
    Retire,
}

/// The phase after one step; only a running driver can be given up, and only
/// then is the retirement to be had.
pub open spec fn stepped(phase: ExecutionPhase, step: ExecutionStep) -> Option<ExecutionPhase> {
    match (phase, step) {
        (ExecutionPhase::Running, ExecutionStep::GiveUpDriver) => Some(ExecutionPhase::Ended),
        (ExecutionPhase::Ended, ExecutionStep::Retire) => Some(ExecutionPhase::Retired),
        _ => None,
    }
}

/// The phase after some steps of a fresh incarnation, if they can happen.
pub open spec fn executed(steps: Seq<ExecutionStep>) -> Option<ExecutionPhase>
    decreases steps.len(),
{
    if steps.len() == 0 {
        Some(ExecutionPhase::Running)
    } else {
        match executed(steps.drop_last()) {
            Some(phase) => stepped(phase, steps.last()),
            None => None,
        }
    }
}

/// Owns exactly one driver execution and one terminal retirement capability.
///
/// The retirement can be had only when the driver has been given up, so that
/// whatever the driver owned is gone before the incarnation retires.
pub struct Incarnation<D, R> {
    driver: Option<D>,
    terminal: Terminal<R>,
}

impl<D, R> Incarnation<D, R> {
    /// The driver, until it is given up.
    pub closed spec fn held(self) -> Option<D> {
        self.driver
    }

    /// The retirement, until it is handed out.
    pub closed spec fn owed(self) -> Option<R> {
        self.terminal@
    }

    /// A driver is held only while its retirement is owed.
    pub open spec fn wf(self) -> bool {
        self.held() is Some ==> self.owed() is Some
    }

    /// How far the execution has come.
    pub open spec fn phase(self) -> ExecutionPhase {
        if self.held() is Some {
            ExecutionPhase::Running
        } else if self.owed() is Some {
            ExecutionPhase::Ended
        } else {
            ExecutionPhase::Retired
        }
    }

    /// Bind one driver to one retirement.
    pub fn new(driver: D, retirement: R) -> (incarnation: Self)
        ensures
            incarnation.wf(),
            incarnation.held() == Some(driver),
            incarnation.owed() == Some(retirement),
    {
        Incarnation { driver: Some(driver), terminal: Terminal::new(retirement) }
    }

    /// Give the driver up, to be dropped. Only the first call finds it.
    pub fn give_up_driver(&mut self) -> (driver: Option<D>)
        requires
            old(self).wf(),
        ensures
            final(self).wf(),
            driver == old(self).held(),
            final(self).held() is None,
            final(self).owed() == old(self).owed(),
            old(self).phase() is Running ==> Some(final(self).phase()) == stepped(
                old(self).phase(),
                ExecutionStep::GiveUpDriver,
            ),
    {
        self.driver.take()
    }

    /// The driver, to run it.
    pub fn driver(&mut self) -> (driver: &mut D)
        requires
            old(self).phase() is Running,
        ensures
            old(self).held() == Some(*driver),
            final(self).held() == Some(*final(driver)),
            final(self).owed() == old(self).owed(),
    {
        self.driver.as_mut().unwrap()
    }

    /// The driver returned, and is gone: the retirement and the outcome it is
    /// given.
    pub fn complete<O>(&mut self, outcome: O) -> (retired: (R, O))
        requires
            old(self).phase() is Ended,
        ensures
            retired == (old(self).owed()->0, outcome),
            final(self).held() is None,
            final(self).owed() is None,
            Some(final(self).phase()) == stepped(old(self).phase(), ExecutionStep::Retire),
    {
        self.terminal.complete(outcome)
    }

    /// The execution is dropped, and the driver is gone: if the retirement has
    /// not been handed out, it comes with the classification of the interruption.
    pub fn interrupt<B, Res, BE, AE, EE>(&mut self, panicking: bool) -> (retired: Option<
        (R, IncarnationOutcome<B, Res, BE, AE, EE>),
    >)
        requires
            !(old(self).phase() is Running),
        ensures
            retired == match old(self).owed() {
                Some(retirement) => Some(
                    (retirement, interruption::<B, Res, BE, AE, EE>(panicking)),
                ),
                None => None,
            },
            final(self).held() is None,
            final(self).owed() is None,
    {
        self.terminal.release(panicking)
    }
}

/// An incarnation retires at most once, and always after its driver was given
/// up: whatever can happen to it, a retirement has exactly one step before it,
/// which gave up the driver, and none after it.
pub proof fn law_retirement_follows_the_driver_once(steps: Seq<ExecutionStep>, i: int)
    requires
        executed(steps) is Some,
        0 <= i < steps.len(),
        steps[i] is Retire,
    ensures
        i == 1,
        steps.len() == 2,
        steps[0] is GiveUpDriver,
{
    lemma_executed(steps);
}

proof fn lemma_executed(steps: Seq<ExecutionStep>)
    requires
        executed(steps) is Some,
    ensures
        match executed(steps)->0 {
            ExecutionPhase::Running => steps.len() == 0,
            ExecutionPhase::Ended => steps.len() == 1 && steps[0] is GiveUpDriver,
            ExecutionPhase::Retired => steps.len() == 2 && steps[0] is GiveUpDriver
                && steps[1] is Retire,
        },
    decreases steps.len(),
{
    if steps.len() > 0 {
        lemma_executed(steps.drop_last());
        assert(steps.drop_last().len() > 0 ==> steps.drop_last()[0] == steps[0]);
    }
}

/// A driver is given up while it runs, and the retirement is handed out when the
/// driver has been given up. Nothing else can happen.
pub proof fn law_an_execution_has_two_steps(phase: ExecutionPhase, step: ExecutionStep)
    ensures
        stepped(phase, step) is Some <==> (phase is Running && step is GiveUpDriver || phase
            is Ended && step is Retire),
        stepped(phase, step) matches Some(next) ==> (step is GiveUpDriver ==> next is Ended) && (
        step is Retire ==> next is Retired),
        executed(Seq::<ExecutionStep>::empty()) == Some(ExecutionPhase::Running),
{
}

/// An execution is its steps in order: a further step happens if the steps
/// before it can happen and lead where it is possible. How far it has come shows
/// in what the incarnation still holds.
pub proof fn law_an_execution_goes_step_by_step<D, R>(
    steps: Seq<ExecutionStep>,
    step: ExecutionStep,
    incarnation: Incarnation<D, R>,
)
    ensures
        executed(steps) is None ==> executed(steps.push(step)) is None,
        executed(steps) matches Some(phase) ==> executed(steps.push(step)) == stepped(phase, step),
        incarnation.phase() is Running <==> incarnation.held() is Some,
        incarnation.phase() is Retired <==> incarnation.held() is None && incarnation.owed()
            is None,
        incarnation.wf() <==> (incarnation.held() is Some ==> incarnation.owed() is Some),
{
    assert(steps.push(step).drop_last() =~= steps);
}

} // verus!
