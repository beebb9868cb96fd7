//! Reports that an actor makes of its own end and to its parent.

use vstd::prelude::*;

use communication::ControlSender;

use crate::authoring::Step;
use crate::mailbox::{answered, enqueue_control, lemma_answered};
use crate::outcome::{termination_of, Crash, Exit, IncarnationOutcome};

verus! {

/// What becomes of the terminal reports of one turn.
#[derive(Debug, Clone, Copy, PartialEq, Eq, Structural)]
pub enum TerminalReportDisposition {
    /// The actor goes on: they are forgotten.
    Discard,
    /// The actor stops: the last one is what it is known to have ended with.
    Retain,
}

/// The disposition that a turn ends with.
pub open spec fn disposition_of(step: Step) -> TerminalReportDisposition {
    match step {
        Step::Continue => TerminalReportDisposition::Discard,
        Step::Stop => TerminalReportDisposition::Retain,
    }
}

impl TerminalReportDisposition {
    /// The disposition that a turn ends with.
    pub fn of(step: Step) -> (disposition: Self)
        ensures
            disposition == disposition_of(step),
    {
        match step {
            Step::Continue => TerminalReportDisposition::Discard,
            Step::Stop => TerminalReportDisposition::Retain,
        }
    }
}

/// What an actor has selected to be known to have ended with.
#[derive(Debug)]
pub struct TerminationSelection<A> {
    staged: Option<Result<Exit<A>, Crash>>,
    retained: Option<Result<Exit<A>, Crash>>,
}

impl<A> TerminationSelection<A> {
    /// The report of the turn that is being interpreted.
    pub closed spec fn staged(self) -> Option<Result<Exit<A>, Crash>> {
        self.staged
    }

    /// The report that counts.
    pub closed spec fn retained(self) -> Option<Result<Exit<A>, Crash>> {
        self.retained
    }

    /// Nothing has been selected.
    pub fn new() -> (selection: Self)
        ensures
            selection.staged() is None,
            selection.retained() is None,
    {
        TerminationSelection { staged: None, retained: None }
    }

    /// A turn begins.
    pub fn begin(&mut self)
        ensures
            final(self).staged() is None,
            final(self).retained() == old(self).retained(),
    {
        self.staged = None;
    }

    /// The turn reports a terminal outcome.
    pub fn select(&mut self, outcome: Result<Exit<A>, Crash>)
        ensures
            final(self).staged() == Some(outcome),
            final(self).retained() == old(self).retained(),
    {
        self.staged = Some(outcome);
    }

    /// The turn ends.
    pub fn finish(&mut self, disposition: TerminalReportDisposition)
        ensures
            final(self).staged() is None,
            final(self).retained() == match (disposition, old(self).staged()) {
                (TerminalReportDisposition::Retain, Some(outcome)) => Some(outcome),
                _ => old(self).retained(),
            },
    {
        let staged = self.staged.take();
        match disposition {
            TerminalReportDisposition::Discard => {},
            TerminalReportDisposition::Retain => match staged {
                Some(outcome) => {
                    self.retained = Some(outcome);
                },
                None => {},
            },
        }
    }

    /// Interpret the terminal reports of one whole turn.
    pub fn commit(&mut self, step: Step, reports: Vec<Result<Exit<A>, Crash>>)
        ensures
            final(self).staged() is None,
            final(self).retained() == selected(old(self).retained(), step, reports@),
    {
        self.begin();
        let ghost all = reports@;
        let ghost before = self.retained();
        for report in iter: reports
            invariant
                iter.seq() == all,
                self.retained() == before,
                iter.index() == 0 ==> self.staged() is None,
                iter.index() > 0 ==> self.staged() == Some(all[iter.index() - 1]),
        {
            self.select(report);
        }
        self.finish(TerminalReportDisposition::of(step));
    }

    /// The fact that is published of an incarnation that ended like this: the
    /// selected one, or else the one that its end amounts to.
    pub fn retire<B, R, BE, AE, EE>(&mut self, outcome: &IncarnationOutcome<B, R, BE, AE, EE>) -> (
    published: Result<Exit<A>, Crash>)
        ensures
            published == match old(self).retained() {
                Some(selected) => selected,
                None => termination_of::<A, B, R, BE, AE, EE>(*outcome),
            },
            final(self).retained() is None,
            final(self).staged() == old(self).staged(),
    {
        match self.retained.take() {
            Some(selected) => selected,
            None => outcome.termination(),
        }
    }
}

/// What counts once a turn with these reports has been interpreted.
pub open spec fn selected<A>(
    retained: Option<Result<Exit<A>, Crash>>,
    step: Step,
    reports: Seq<Result<Exit<A>, Crash>>,
) -> Option<Result<Exit<A>, Crash>> {
    if step == Step::Stop && reports.len() > 0 {
        Some(reports.last())
    } else {
        retained
    }
}

/// A turn after which the actor goes on changes nothing about how it is known
/// to have ended, whatever it reports.
pub proof fn law_a_continuing_turn_reports_no_end<A>(
    retained: Option<Result<Exit<A>, Crash>>,
    reports: Seq<Result<Exit<A>, Crash>>,
)
    ensures
        selected(retained, Step::Continue, reports) == retained,
{
}

/// A report that a child makes, with the creation that the parent knows the
/// child by.
#[derive(Debug)]
pub struct ChildReport<R> {
    /// The creation.
    pub child: u64,
    /// The report.
    pub report: R,
}

/// The way from one child to its parent, whose control lane takes `E`.
#[verifier::reject_recursive_types(E)]
pub struct LocalParentReports<E> {
    child: u64,
    parent: ControlSender<E>,
}

impl<E> LocalParentReports<E> {
    /// The creation of the child.
    pub closed spec fn child(self) -> u64 {
        self.child
    }

    /// The control lane of the parent.
    pub closed spec fn parent_lane(self) -> ControlSender<E> {
        self.parent
    }

    /// The way from the child with this creation.
    pub fn new(child: u64, parent: ControlSender<E>) -> (reports: Self)
        ensures
            reports.child() == child,
            reports.parent_lane() == parent,
    {
        LocalParentReports { child, parent }
    }

    /// Report to the parent. `inject` makes the event of the report under the
    /// creation of the child, and the answer is that of the parent's control
    /// lane to this event. Whether the parent still listens is not stated: it
    /// does so as long as it owns the child.
    pub fn report<R, F: Fn(ChildReport<R>) -> E>(&self, report: R, inject: F) -> (reported: Result<
        (),
        E,
    >)
        requires
            call_requires(inject, (ChildReport { child: self.child(), report },)),
        ensures
            exists|event: E| #[trigger]
                answered(self.parent_lane(), event, reported) && call_ensures(
                    inject,
                    (ChildReport { child: self.child(), report },),
                    event,
                ),
            reported matches Err(event) ==> call_ensures(
                inject,
                (ChildReport { child: self.child(), report },),
                event,
            ),
    {
        let event = inject(ChildReport { child: self.child, report });
        let ghost injected = event;
        let answer = enqueue_control(&self.parent, event);
        proof {
            lemma_answered(self.parent, injected, answer);
            assert(answered(self.parent_lane(), injected, answer));
        }
        answer
    }
}

/// The fact that a stopping turn reports last is the fact that counts, whatever
/// it is and whatever counted before. A stopping turn that reports none leaves
/// what counted.
pub proof fn law_the_last_report_of_a_stopping_turn_counts<A>(
    retained: Option<Result<Exit<A>, Crash>>,
    reports: Seq<Result<Exit<A>, Crash>>,
)
    ensures
        reports.len() > 0 ==> selected(retained, Step::Stop, reports) == Some(
            reports[reports.len() - 1],
        ),
        reports.len() == 0 ==> selected(retained, Step::Stop, reports) == retained,
{
}

/// The reports of a turn are retained if the actor stops with it, and only then.
pub proof fn law_only_a_stopping_turn_retains_reports(step: Step)
    ensures
        disposition_of(step) == TerminalReportDisposition::Retain <==> step == Step::Stop,
        disposition_of(step) == TerminalReportDisposition::Discard <==> step == Step::Continue,
{
}

} // verus!
