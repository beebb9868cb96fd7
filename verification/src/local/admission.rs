//! Admission to one mailbox, and its closing by shutdown requests.

use communication::{ControlSender, MailboxOwner};
use vstd::prelude::*;

use crate::mailbox::{
    admission_closed, answered, close_owner, enqueue_control, lemma_admission_closed,
    lemma_answered,
};
use crate::observe::slot::Slot;

verus! {

/// Access to one affine admission owner. Closing takes the owner exactly once.
#[verifier::reject_recursive_types(U)]
pub struct Admission<U> {
    owner: Option<MailboxOwner<U>>,
}

/// Whether closing the admission that `before` governs, if anything, answers
/// `closed` and leaves `after`: the owner is consumed by the call that closes
/// its admission, and only that call is told so.
pub open spec fn closes<U>(
    before: Option<MailboxOwner<U>>,
    closed: Option<()>,
    after: Option<MailboxOwner<U>>,
) -> bool {
    &&& closed is Some <==> before is Some
    &&& before matches Some(owner) ==> admission_closed(owner)
    &&& after is None
}

impl<U> Admission<U> {
    /// The owner that governs admission, until it is closed or handed on.
    pub closed spec fn owner(&self) -> Option<MailboxOwner<U>> {
        self.owner
    }

    /// Whether messages are admitted.
    pub open spec fn open(&self) -> bool {
        self.owner() is Some
    }

    /// Admission that `owner` governs.
    pub fn new(owner: MailboxOwner<U>) -> (admission: Self)
        ensures
            admission.owner() == Some(owner),
    {
        Admission { owner: Some(owner) }
    }

    /// Close admission. Only the call that closes it is told so.
    pub fn close(&mut self) -> (closed: Option<()>)
        ensures
            closes(old(self).owner(), closed, final(self).owner()),
    {
        match self.owner.take() {
            Some(owner) => {
                let ghost consumed = owner;
                close_owner(owner);
                proof {
                    lemma_admission_closed(consumed);
                }
                Some(())
            },
            None => None,
        }
    }

    /// Hand the authority on. What stays behind governs nothing.
    pub fn take(&mut self) -> (admission: Self)
        ensures
            admission.owner() == old(self).owner(),
            final(self).owner() is None,
    {
        Admission { owner: self.owner.take() }
    }

    /// Whether messages are admitted.
    pub fn is_open(&self) -> (open: bool)
        ensures
            open == self.open(),
    {
        self.owner.is_some()
    }
}

/// Of any number of calls that close one admission, exactly the first is told
/// that it did, and the owner is consumed by that call alone.
pub proof fn law_admission_closes_once<U>(
    owners: Seq<Option<MailboxOwner<U>>>,
    answers: Seq<Option<()>>,
)
    requires
        answers.len() >= 1,
        owners.len() == answers.len() + 1,
        owners[0] is Some,
        forall|i: int|
            0 <= i < answers.len() ==> closes(
                owners[i],
                #[trigger] answers[i],
                owners[i + 1],
            ),
    ensures
        answers[0] is Some,
        forall|i: int| 1 <= i < answers.len() ==> (#[trigger] answers[i]) is None,
        admission_closed(owners[0]->0),
        forall|i: int| 1 <= i < owners.len() ==> (#[trigger] owners[i]) is None,
{
    assert forall|i: int| 1 <= i < owners.len() implies (#[trigger] owners[i]) is None by {
        assert(closes(owners[i - 1], answers[i - 1], owners[(i - 1) + 1]));
    }
    assert forall|i: int| 1 <= i < answers.len() implies (#[trigger] answers[i]) is None by {
        assert(owners[i] is None);
    }
}

/// Why a shutdown request was not sent.
#[derive(Debug, Clone, Copy, PartialEq, Eq, Structural)]
pub enum ShutdownRejection {
    /// The actor is on its way out.
    AlreadyStopping,
    /// The actor has terminated.
    AlreadyStopped,
}

/// The rejection of a request that came too late.
pub open spec fn rejection(stopped: bool) -> ShutdownRejection {
    if stopped {
        ShutdownRejection::AlreadyStopped
    } else {
        ShutdownRejection::AlreadyStopping
    }
}

/// The rejection of a request that came too late.
pub fn shutdown_rejection<O>(termination: &Slot<O>) -> (rejected: ShutdownRejection)
    ensures
        rejected == rejection(termination@.completed),
{
    if termination.is_completed() {
        ShutdownRejection::AlreadyStopped
    } else {
        ShutdownRejection::AlreadyStopping
    }
}

/// The answer to a request whose event was `sent`, by an actor that has
/// terminated or not.
pub open spec fn answer<E>(sent: Result<(), E>, stopped: bool) -> Result<
    (),
    (ShutdownRejection, E),
> {
    match sent {
        Ok(_) => Ok(()),
        Err(event) => Err((rejection(stopped), event)),
    }
}

/// Answer a request whose event was sent, or came back from a closed lane.
pub fn settle_request<O, E>(termination: &Slot<O>, sent: Result<(), E>) -> (settled: Result<
    (),
    (ShutdownRejection, E),
>)
    ensures
        settled == answer(sent, termination@.completed),
{
    match sent {
        Ok(_) => Ok(()),
        Err(event) => Err((shutdown_rejection(termination), event)),
    }
}

/// The control lane that is lent, if any.
pub open spec fn lane_of<E>(control: Option<&ControlSender<E>>) -> Option<ControlSender<E>> {
    match control {
        Some(lane) => Some(*lane),
        None => None,
    }
}

/// Whether a request of shutdown is sent to the control lane: there is one, the
/// actor has not terminated, and no request came before.
pub open spec fn signals<U, E>(
    stopped: bool,
    control: Option<ControlSender<E>>,
    owner: Option<MailboxOwner<U>>,
) -> bool {
    !stopped && control is Some && owner is Some
}

/// Whether a request of shutdown is answered like this. One that is sent closes
/// admission and is answered by the control lane; every other one is turned
/// away with its event.
pub open spec fn shutdown_requested<U, E>(
    stopped: bool,
    control: Option<ControlSender<E>>,
    before: Option<MailboxOwner<U>>,
    event: E,
    requested: Result<(), (ShutdownRejection, E)>,
    after: Option<MailboxOwner<U>>,
) -> bool {
    &&& requested matches Err((_, returned)) ==> returned == event
    &&& if signals(stopped, control, before) {
        &&& admission_closed(before->0)
        &&& after is None
        &&& exists|sent: Result<(), E>| #[trigger]
            answered(control->0, event, sent) && requested == answer(sent, stopped)
    } else {
        &&& requested == Err::<(), (ShutdownRejection, E)>((rejection(stopped), event))
        &&& after == before
    }
}

/// Request the shutdown of one exact incarnation.
///
/// The first request closes admission and sends `event` through the control
/// lane. Every rejected request hands the event back: a repeated one is not
/// sent again, and neither is one for an actor that has terminated.
pub fn request_shutdown<O, U, E>(
    termination: &Slot<O>,
    control: Option<&ControlSender<E>>,
    admission: &mut Admission<U>,
    event: E,
) -> (requested: Result<(), (ShutdownRejection, E)>)
    ensures
        shutdown_requested(
            termination@.completed,
            lane_of(control),
            old(admission).owner(),
            event,
            requested,
            final(admission).owner(),
        ),
{
    let ghost lent = control;
    if termination.is_completed() {
        return Err((ShutdownRejection::AlreadyStopped, event));
    }
    match control {
        Some(control) => {
            if admission.close().is_none() {
                return Err((shutdown_rejection(termination), event));
            }
            let ghost item = event;
            let sent = enqueue_control(control, event);
            proof {
                lemma_answered(*control, item, sent);
            }
            let settled = settle_request(termination, sent);
            assert(answered(lane_of(lent)->0, item, sent));
            settled
        },
        None => Err((shutdown_rejection(termination), event)),
    }
}

/// Only the first of several requests of shutdown signals the control lane:
/// every later one is turned away with its own event, as one for an actor that
/// is stopping until it has stopped.
pub proof fn law_only_the_first_request_signals<U, E>(
    control: Option<ControlSender<E>>,
    owners: Seq<Option<MailboxOwner<U>>>,
    stopped: Seq<bool>,
    events: Seq<E>,
    answers: Seq<Result<(), (ShutdownRejection, E)>>,
)
    requires
        answers.len() >= 1,
        owners.len() == answers.len() + 1,
        stopped.len() == answers.len(),
        events.len() == answers.len(),
        signals(stopped[0], control, owners[0]),
        forall|i: int|
            0 <= i < answers.len() ==> shutdown_requested(
                stopped[i],
                control,
                owners[i],
                events[i],
                #[trigger] answers[i],
                owners[i + 1],
            ),
    ensures
        exists|sent: Result<(), E>| #[trigger]
            answered(control->0, events[0], sent) && answers[0] == answer(sent, stopped[0]),
        forall|i: int|
            1 <= i < answers.len() ==> !signals(stopped[i], control, owners[i]) && (
            #[trigger] answers[i]) == Err::<(), (ShutdownRejection, E)>(
                (rejection(stopped[i]), events[i]),
            ),
{
    assert(shutdown_requested(stopped[0], control, owners[0], events[0], answers[0], owners[1]));
    lemma_owners_stay_closed(control, owners, stopped, events, answers, answers.len() as int);
}

proof fn lemma_owners_stay_closed<U, E>(
    control: Option<ControlSender<E>>,
    owners: Seq<Option<MailboxOwner<U>>>,
    stopped: Seq<bool>,
    events: Seq<E>,
    answers: Seq<Result<(), (ShutdownRejection, E)>>,
    n: int,
)
    requires
        1 <= n <= answers.len(),
        owners.len() == answers.len() + 1,
        signals(stopped[0], control, owners[0]),
        forall|i: int|
            0 <= i < answers.len() ==> shutdown_requested(
                stopped[i],
                control,
                owners[i],
                events[i],
                #[trigger] answers[i],
                owners[i + 1],
            ),
    ensures
        forall|i: int| 1 <= i <= n ==> (#[trigger] owners[i]) is None,
    decreases n,
{
    if n > 1 {
        lemma_owners_stay_closed(control, owners, stopped, events, answers, n - 1);
        assert(owners[n - 1] is None);
    }
    assert(shutdown_requested(
        stopped[n - 1],
        control,
        owners[n - 1],
        events[n - 1],
        answers[n - 1],
        owners[(n - 1) + 1],
    ));
}

/// A request of shutdown that finds a live actor with a control lane and open
/// admission closes the admission and sends its event to that lane. Every other
/// request comes back with its event and changes nothing: as one for an actor
/// that has stopped if it has terminated, and else as one for an actor that is
/// stopping.
pub proof fn law_a_request_signals_or_comes_back<U, E>(
    stopped: bool,
    control: Option<ControlSender<E>>,
    before: Option<MailboxOwner<U>>,
    event: E,
    requested: Result<(), (ShutdownRejection, E)>,
    after: Option<MailboxOwner<U>>,
)
    requires
        shutdown_requested(stopped, control, before, event, requested, after),
    ensures
        !stopped && control is Some && before is Some ==> {
            &&& admission_closed(before->0)
            &&& after is None
            &&& exists|sent: Result<(), E>| #[trigger]
                answered(control->0, event, sent) && (sent is Ok <==> requested is Ok)
            &&& requested is Err ==> requested->Err_0 == (
                ShutdownRejection::AlreadyStopping,
                event,
            )
        },
        stopped || control is None || before is None ==> {
            &&& after == before
            &&& requested is Err
            &&& (requested->Err_0).1 == event
            &&& (requested->Err_0).0 == ShutdownRejection::AlreadyStopped <==> stopped
        },
{
}

/// A late request is told that the actor has stopped exactly when it has
/// terminated, and a request is answered by the lane that its event went to.
pub proof fn law_late_requests_are_told_apart<E>(sent: Result<(), E>, stopped: bool)
    ensures
        rejection(stopped) == ShutdownRejection::AlreadyStopped <==> stopped,
        rejection(stopped) == ShutdownRejection::AlreadyStopping <==> !stopped,
        answer(sent, stopped) is Ok <==> sent is Ok,
        sent matches Err(event) ==> (answer(sent, stopped)->Err_0).1 == event && ((answer(
            sent,
            stopped,
        )->Err_0).0 == ShutdownRejection::AlreadyStopped <==> stopped),
{
}

/// Closing tells the call that had an owner to consume, and no other, and leaves
/// none.
pub proof fn law_closing_consumes_the_owner<U>(
    before: Option<MailboxOwner<U>>,
    closed: Option<()>,
    after: Option<MailboxOwner<U>>,
)
    requires
        closes(before, closed, after),
    ensures
        before is Some ==> closed is Some && admission_closed(before->0),
        before is None ==> closed is None,
        after is None,
{
}

/// The control lane that is lent is the one that is used.
pub proof fn law_the_lent_lane_is_used<E>(control: Option<&ControlSender<E>>)
    ensures
        control is None <==> lane_of(control) is None,
        control matches Some(lane) ==> lane_of(control) == Some(*lane),
{
}

/// Messages are admitted as long as the owner has not been consumed or handed
/// on.
pub proof fn law_admission_is_open_while_it_is_owned<U>(admission: Admission<U>)
    ensures
        admission.owner() is Some ==> admission.open(),
        admission.owner() is None ==> !admission.open(),
{
}

} // verus!
