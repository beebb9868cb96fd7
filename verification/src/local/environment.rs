//! The prepared and the active half of one mailbox-backed actor generation.

use communication::{Consumer, ControlSender, MailboxOwner, MailboxRef};
use vstd::prelude::*;

use crate::address::MailAddr;
use crate::entity::runtime::FenceFailure;
use crate::local::admission::{closes, Admission};
use crate::local::ingress::{
    collect_retired_ingress, messages, retired_from, IngressMode, LocalInbox, User,
};
use crate::local::reference::ActorRef;
use crate::local::residual::LocalResidual;
use crate::mailbox::{
    admission_closed, lane_closed, lemma_opened_mailbox, open_mailbox, opened_mailbox, Received,
    MAX_USER_CAPACITY,
};

verus! {

/// Why an address could not be claimed.
#[derive(Debug, Clone, Copy, PartialEq, Eq, Structural)]
pub enum ClaimError {
    /// The address is already claimed or reserved.
    AddressInUse(MailAddr),
    /// Every registration identity has been issued.
    RegistrationIdsExhausted(MailAddr),
}

/// What an actor acquired. `E` is an event, `U` an item of the user lane, `X`
/// the fact that the owner cancelled the actor.
#[derive(Debug)]
pub enum Acquired<E, U, X> {
    /// The mailbox yielded an item, or is complete.
    Mailbox(Option<Received<E, U>>),
    /// An observed fact.
    Fact(E),
    /// A deadline passed; an event was due unless its timer had been cancelled.
    Deadline(Option<E>),
    /// The owner cancelled the actor, or gave up its authority to do so.
    OwnerCancellation(Option<X>),
}

/// What an actor does with what it acquired.
#[derive(Debug)]
pub enum NextEvent<E, A, M, P> {
    /// It takes an event.
    Event(E),
    /// It takes a user message.
    User(User<A, M>),
    /// A fence is answered, and it acquires again.
    Acknowledge { fence: P, answer: Result<(), FenceFailure> },
    /// It acquires again.
    Again,
    /// It is complete.
    End,
}

/// The owner's hold on an active actor.
#[derive(Debug)]
pub struct OwnerHold<X> {
    /// Whether the owner can still cancel the actor.
    pub listening: bool,
    /// The fact that it did.
    pub cancellation: Option<X>,
}

/// What an actor does with what it acquired.
pub open spec fn decided<E, A, M, P, U: IngressMode<A, M, P>, X>(
    acquired: Acquired<E, U, X>,
) -> NextEvent<E, A, M, P> {
    match acquired {
        Acquired::OwnerCancellation(Some(_)) => NextEvent::End,
        Acquired::OwnerCancellation(None) => NextEvent::Again,
        Acquired::Fact(event) => NextEvent::Event(event),
        Acquired::Deadline(Some(event)) => NextEvent::Event(event),
        Acquired::Deadline(None) => NextEvent::Again,
        Acquired::Mailbox(None) => NextEvent::End,
        Acquired::Mailbox(Some(Received::Control(event))) => NextEvent::Event(event),
        Acquired::Mailbox(Some(Received::User(item))) => match item.content() {
            Ok(user) => NextEvent::User(user),
            Err(fence) => NextEvent::Acknowledge { fence, answer: Ok(()) },
        },
        Acquired::Mailbox(Some(Received::UserLaneClosed)) => NextEvent::Again,
    }
}

/// The owner's hold after the actor acquired this.
pub open spec fn held<E, U, X>(hold: OwnerHold<X>, acquired: Acquired<E, U, X>) -> OwnerHold<X> {
    match acquired {
        Acquired::OwnerCancellation(Some(cancellation)) => OwnerHold {
            listening: false,
            cancellation: Some(cancellation),
        },
        Acquired::OwnerCancellation(None) => OwnerHold {
            listening: false,
            cancellation: hold.cancellation,
        },
        _ => hold,
    }
}

impl<X> OwnerHold<X> {
    /// An owner that can cancel.
    pub fn new() -> (hold: Self)
        ensures
            hold == (OwnerHold::<X> { listening: true, cancellation: None }),
    {
        OwnerHold { listening: true, cancellation: None }
    }

    /// Decide what to do with what was acquired.
    ///
    /// A cancellation ends the actor and is retained for its retirement. An
    /// owner that gave up its authority is not listened to any more. A closed
    /// user lane closes only that lane: control events remain admissible.
    pub fn decide<E, A, M, P, U: IngressMode<A, M, P>>(
        &mut self,
        acquired: Acquired<E, U, X>,
    ) -> (next: NextEvent<E, A, M, P>)
        ensures
            next == decided::<E, A, M, P, U, X>(acquired),
            *final(self) == held(*old(self), acquired),
    {
        match acquired {
            Acquired::OwnerCancellation(Some(cancellation)) => {
                self.listening = false;
                self.cancellation = Some(cancellation);
                NextEvent::End
            },
            Acquired::OwnerCancellation(None) => {
                self.listening = false;
                NextEvent::Again
            },
            Acquired::Fact(event) => NextEvent::Event(event),
            Acquired::Deadline(due) => match due {
                Some(event) => NextEvent::Event(event),
                None => NextEvent::Again,
            },
            Acquired::Mailbox(received) => match received {
                Some(Received::Control(event)) => NextEvent::Event(event),
                Some(Received::User(item)) => match item.into_event() {
                    Ok(user) => NextEvent::User(user),
                    Err(fence) => NextEvent::Acknowledge { fence, answer: Ok(()) },
                },
                Some(Received::UserLaneClosed) => NextEvent::Again,
                None => NextEvent::End,
            },
        }
    }
}

/// What is published of an actor, once.
#[derive(Debug)]
pub enum Publication<F, N> {
    /// `publish` is owed `endpoint`.
    Pending { publish: F, endpoint: N },
    /// The endpoint has been published.
    Published,
}

impl<F, N> Publication<F, N> {
    /// Take what is owed. An installed incarnation is published exactly once.
    pub fn publish(&mut self) -> (owed: (F, N))
        requires
            *old(self) is Pending,
        ensures
            owed == (old(self)->publish, old(self)->endpoint),
            *final(self) is Published,
    {
        let mut taken = Publication::Published;
        core::mem::swap(&mut taken, self);
        match taken {
            Publication::Pending { publish, endpoint } => (publish, endpoint),
            Publication::Published => vstd::pervasive::unreached(),
        }
    }
}

/// The prepared local half of one generation.
#[verifier::reject_recursive_types(E)]
#[verifier::reject_recursive_types(U)]
pub struct LocalEnvironment<E, U> {
    address: MailAddr,
    control: ControlSender<E>,
    mailbox: MailboxRef<U>,
    admission: Admission<U>,
    consumer: Consumer<E, U>,
}

/// An activation that the address space refused.
#[verifier::reject_recursive_types(E)]
#[verifier::reject_recursive_types(U)]
pub struct RefusedActivation<E, U> {
    error: ClaimError,
    admission: Admission<U>,
    consumer: Consumer<E, U>,
}

/// The only local value with mailbox ingress and address ownership. `L` is the
/// claim on the address, `F` and `N` what is published, `X` the cancellation.
#[verifier::reject_recursive_types(E)]
#[verifier::reject_recursive_types(U)]
pub struct ActiveLocalEnvironment<E, U, L, F, N, X> {
    inbox: LocalInbox<E, U>,
    admission: Admission<U>,
    control: ControlSender<E>,
    hold: OwnerHold<X>,
    publication: Publication<F, N>,
    lease: L,
}

impl<E, U> LocalEnvironment<E, U> {
    /// The address that will be claimed.
    pub closed spec fn address(&self) -> MailAddr {
        self.address
    }

    /// The owner of admission, until it is handed on.
    pub closed spec fn owner(&self) -> Option<MailboxOwner<U>> {
        self.admission.owner()
    }

    /// Whether messages are admitted.
    pub open spec fn open(&self) -> bool {
        self.owner() is Some
    }

    /// The control lane.
    pub closed spec fn control_lane(&self) -> ControlSender<E> {
        self.control
    }

    /// The user lane.
    pub closed spec fn user_lane(&self) -> MailboxRef<U> {
        self.mailbox
    }

    /// The receiving end of both lanes.
    pub closed spec fn lanes(&self) -> Consumer<E, U> {
        self.consumer
    }

    /// Prepare a fresh mailbox for the actor at `address`.
    pub fn prepare(address: MailAddr, user_capacity: usize) -> (environment: Self)
        requires
            user_capacity <= MAX_USER_CAPACITY,
        ensures
            environment.address() == address,
            environment.owner() matches Some(owner) && opened_mailbox(
                user_capacity,
                environment.control_lane(),
                owner,
                environment.user_lane(),
                environment.lanes(),
            ),
    {
        let (control, owner, mailbox, consumer) = open_mailbox(user_capacity);
        proof {
            lemma_opened_mailbox(user_capacity, control, owner, mailbox, consumer);
        }
        LocalEnvironment { address, control, mailbox, admission: Admission::new(owner), consumer }
    }

    /// The address that will be claimed.
    pub fn mail_address(&self) -> (address: MailAddr)
        ensures
            address == self.address(),
    {
        self.address
    }

    /// The control lane.
    pub fn control(&self) -> (control: &ControlSender<E>)
        ensures
            *control == self.control_lane(),
    {
        &self.control
    }

    /// The user lane.
    pub fn mailbox(&self) -> (mailbox: &MailboxRef<U>)
        ensures
            *mailbox == self.user_lane(),
    {
        &self.mailbox
    }

    /// Hand admission on to whoever may close it from outside the actor.
    pub fn share_admission(&mut self) -> (admission: Admission<U>)
        ensures
            admission.owner() == old(self).owner(),
            final(self).owner() is None,
            final(self).address() == old(self).address(),
            final(self).control_lane() == old(self).control_lane(),
            final(self).user_lane() == old(self).user_lane(),
            final(self).lanes() == old(self).lanes(),
    {
        self.admission.take()
    }

    /// Go on with the answer to the claim of the address. Only a claimed
    /// address becomes active, with its publication still owed.
    pub fn activate<L, F, N, X>(
        self,
        claimed: Result<L, ClaimError>,
        publish: F,
        endpoint: N,
    ) -> (activated: Result<
        ActiveLocalEnvironment<E, U, L, F, N, X>,
        RefusedActivation<E, U>,
    >)
        ensures
            match (activated, claimed) {
                (Ok(active), Ok(lease)) => {
                    &&& active.lease() == lease
                    &&& active.publication() == (Publication::Pending { publish, endpoint })
                    &&& active.hold() == (OwnerHold::<X> { listening: true, cancellation: None })
                    &&& active.lanes() == Some(self.lanes())
                    &&& active.control_lane() == self.control_lane()
                    &&& active.owner() == self.owner()
                },
                (Err(refused), Err(error)) => {
                    &&& refused.error() == error
                    &&& refused.lanes() == self.lanes()
                    &&& refused.owner() == self.owner()
                },
                _ => false,
            },
    {
        match claimed {
            Ok(lease) => Ok(
                ActiveLocalEnvironment {
                    inbox: LocalInbox::new(self.consumer),
                    admission: self.admission,
                    control: self.control,
                    hold: OwnerHold::new(),
                    publication: Publication::Pending { publish, endpoint },
                    lease,
                },
            ),
            Err(error) => Err(
                RefusedActivation { error, admission: self.admission, consumer: self.consumer },
            ),
        }
    }

    /// Retire an environment that was never activated: admission closes, and
    /// what is queued is taken.
    pub fn retire<I, S, A, M, P, T, D, X>(self, activation_tasks: T, descendants: D) -> (residual:
        LocalResidual<I, S, E, A, M, P, T, D, X>)
        where U: IngressMode<A, M, P>
        ensures
            self.owner() matches Some(owner) ==> admission_closed(owner),
            residual matches LocalResidual::Retired {
                settlements,
                ingress,
                activation_tasks: retired_tasks,
                descendants: retired_descendants,
                owner_cancellation,
            } && settlements@.len() == 0 && retired_from::<E, A, M, P, U>(self.lanes(), ingress)
                && retired_tasks == activation_tasks && retired_descendants == descendants
                && owner_cancellation is None,
    {
        let mut admission = self.admission;
        admission.close();
        LocalResidual::Retired {
            settlements: Vec::new(),
            ingress: collect_retired_ingress(self.consumer),
            activation_tasks,
            descendants,
            owner_cancellation: None,
        }
    }
}

impl<E, U> RefusedActivation<E, U> {
    /// Why the address was refused.
    pub closed spec fn error(&self) -> ClaimError {
        self.error
    }

    /// The receiving end of both lanes.
    pub closed spec fn lanes(&self) -> Consumer<E, U> {
        self.consumer
    }

    /// The owner of admission, unless it was handed on.
    pub closed spec fn owner(&self) -> Option<MailboxOwner<U>> {
        self.admission.owner()
    }

    /// Retire the refused activation: the initialization comes back as it was,
    /// what is queued is taken, and admission closes.
    pub fn retire<I, S, A, M, P, T, D, X>(
        self,
        initialization: I,
        activation_tasks: T,
        descendants: D,
    ) -> (retired: (ClaimError, LocalResidual<I, S, E, A, M, P, T, D, X>))
        where U: IngressMode<A, M, P>
        ensures
            self.owner() matches Some(owner) ==> admission_closed(owner),
            retired.0 == self.error(),
            retired.1 matches LocalResidual::Uncommitted {
                initialization: returned,
                ingress,
                activation_tasks: retired_tasks,
                descendants: retired_descendants,
            } && returned == initialization && retired_from::<E, A, M, P, U>(
                self.lanes(),
                ingress,
            ) && retired_tasks == activation_tasks && retired_descendants == descendants,
    {
        let ingress = collect_retired_ingress(self.consumer);
        let mut admission = self.admission;
        admission.close();
        (
            self.error,
            LocalResidual::Uncommitted { initialization, ingress, activation_tasks, descendants },
        )
    }
}

impl<E, U, L, F, N, X> ActiveLocalEnvironment<E, U, L, F, N, X> {
    /// The claim on the address.
    pub closed spec fn lease(&self) -> L {
        self.lease
    }

    /// What is owed to be published.
    pub closed spec fn publication(&self) -> Publication<F, N> {
        self.publication
    }

    /// The owner's hold.
    pub closed spec fn hold(&self) -> OwnerHold<X> {
        self.hold
    }

    /// The receiving end, until it is drained.
    pub closed spec fn lanes(&self) -> Option<Consumer<E, U>> {
        self.inbox.lanes()
    }

    /// Whether the inbox has not been drained.
    pub open spec fn receives(&self) -> bool {
        self.lanes() is Some
    }

    /// The control lane.
    pub closed spec fn control_lane(&self) -> ControlSender<E> {
        self.control
    }

    /// The owner of admission, until it is closed or handed on.
    pub closed spec fn owner(&self) -> Option<MailboxOwner<U>> {
        self.admission.owner()
    }

    /// Whether messages are admitted.
    pub open spec fn open(&self) -> bool {
        self.owner() is Some
    }

    /// The receiving end.
    pub fn receiver(&mut self) -> (consumer: &mut Consumer<E, U>)
        requires
            old(self).receives(),
        ensures
            old(self).lanes() == Some(*consumer),
            final(self).lanes() == Some(*final(consumer)),
            final(self).lease() == old(self).lease(),
            final(self).publication() == old(self).publication(),
            final(self).hold() == old(self).hold(),
            final(self).owner() == old(self).owner(),
            final(self).control_lane() == old(self).control_lane(),
    {
        self.inbox.receiver()
    }

    /// Whether the owner can still cancel the actor.
    pub fn listens(&self) -> (listening: bool)
        ensures
            listening == self.hold().listening,
    {
        self.hold.listening
    }

    /// Decide what to do with what was acquired.
    pub fn next<A, M, P>(&mut self, acquired: Acquired<E, U, X>) -> (next: NextEvent<E, A, M, P>)
        where U: IngressMode<A, M, P>
        ensures
            next == decided::<E, A, M, P, U, X>(acquired),
            final(self).hold() == held(old(self).hold(), acquired),
            final(self).lease() == old(self).lease(),
            final(self).publication() == old(self).publication(),
            final(self).lanes() == old(self).lanes(),
            final(self).owner() == old(self).owner(),
            final(self).control_lane() == old(self).control_lane(),
    {
        self.hold.decide(acquired)
    }

    /// Publish the installed incarnation.
    pub fn publish(&mut self) -> (owed: (F, N))
        requires
            old(self).publication() is Pending,
        ensures
            owed == (old(self).publication()->publish, old(self).publication()->endpoint),
            final(self).publication() is Published,
            final(self).hold() == old(self).hold(),
            final(self).lease() == old(self).lease(),
            final(self).lanes() == old(self).lanes(),
            final(self).owner() == old(self).owner(),
            final(self).control_lane() == old(self).control_lane(),
    {
        self.publication.publish()
    }

    /// Close admission, before the descendants retire.
    pub fn close_admission(&mut self) -> (closed: Option<()>)
        ensures
            closes(old(self).owner(), closed, final(self).owner()),
            final(self).control_lane() == old(self).control_lane(),
            final(self).publication() == old(self).publication(),
            final(self).hold() == old(self).hold(),
            final(self).lease() == old(self).lease(),
            final(self).lanes() == old(self).lanes(),
    {
        self.admission.close()
    }

    /// Retire the environment: admission closes, the settlements and the
    /// owner's cancellation come back as they were, what is queued is taken,
    /// and the claim on the address is given up.
    pub fn retire<I, S, A, M, P, T, D>(
        self,
        settlements: Vec<S>,
        activation_tasks: T,
        descendants: D,
    ) -> (retired: (LocalResidual<I, S, E, A, M, P, T, D, X>, L))
        where U: IngressMode<A, M, P>
        requires
            self.receives(),
        ensures
            self.owner() matches Some(owner) ==> admission_closed(owner),
            retired.1 == self.lease(),
            retired.0 matches LocalResidual::Retired {
                settlements: returned,
                ingress,
                activation_tasks: retired_tasks,
                descendants: retired_descendants,
                owner_cancellation,
            } && returned == settlements && retired_from::<E, A, M, P, U>(
                self.lanes()->0,
                ingress,
            ) && retired_tasks == activation_tasks && retired_descendants == descendants
                && owner_cancellation == self.hold().cancellation,
    {
        let mut admission = self.admission;
        admission.close();
        let mut inbox = self.inbox;
        let ingress = inbox.drain().unwrap();
        (
            LocalResidual::Retired {
                settlements,
                ingress,
                activation_tasks,
                descendants,
                owner_cancellation: self.hold.cancellation,
            },
            self.lease,
        )
    }
}

/// Only the owner's cancellation and a complete mailbox end an actor: a closed
/// user lane, a withdrawn owner and a cancelled timer do not.
pub proof fn law_only_cancellation_or_completion_ends<E, A, M, P, U: IngressMode<A, M, P>, X>(
    acquired: Acquired<E, U, X>,
)
    ensures
        decided::<E, A, M, P, U, X>(acquired) is End <==> (
        acquired matches Acquired::OwnerCancellation(Some(_))) || acquired
            == Acquired::<E, U, X>::Mailbox(None),
{
}

/// An established recipient closes with its incarnation: the user lane of the
/// references to a prepared actor is the one that its retirement closes.
pub proof fn law_a_recipient_closes_with_its_incarnation<
    E,
    A: Copy,
    M,
    P,
    C,
    U: IngressMode<A, M, P>,
>(
    prepared: LocalEnvironment<E, U>,
    user_capacity: usize,
    owner: MailboxOwner<U>,
    reference: ActorRef<A, M, P, C>,
)
    requires
        prepared.owner() == Some(owner),
        opened_mailbox(
            user_capacity,
            prepared.control_lane(),
            owner,
            prepared.user_lane(),
            prepared.lanes(),
        ),
        reference.lane() == U::lane(prepared.user_lane()),
        admission_closed(owner),
    ensures
        lane_closed::<E, U>(prepared.user_lane()),
        forall|from: A, message: M|
            (#[trigger] reference.delivery(from, message)).0 == U::lane(prepared.user_lane()),
{
}

/// The user messages that an actor takes of the items of its user lane, one after
/// the other.
pub open spec fn taken<E, A, M, P, U: IngressMode<A, M, P>, X>(items: Seq<U>) -> Seq<User<A, M>>
    decreases items.len(),
{
    if items.len() == 0 {
        Seq::empty()
    } else {
        let before = taken::<E, A, M, P, U, X>(items.drop_last());
        match decided::<E, A, M, P, U, X>(
            Acquired::Mailbox(Some(Received::User(items.last()))),
        ) {
            NextEvent::User(user) => before.push(user),
            _ => before,
        }
    }
}

/// A fence is acknowledged when the actor has taken every message before it in
/// the user lane, and no sooner.
pub proof fn law_a_fence_follows_the_messages_before_it<E, A, M, P, U: IngressMode<A, M, P>, X>(
    items: Seq<U>,
    fence: P,
)
    requires
        items.len() > 0,
        items.last().content() == Err::<User<A, M>, P>(fence),
    ensures
        decided::<E, A, M, P, U, X>(Acquired::Mailbox(Some(Received::User(items.last()))))
            == (NextEvent::<E, A, M, P>::Acknowledge { fence, answer: Ok(()) }),
        taken::<E, A, M, P, U, X>(items.drop_last()) == messages::<A, M, P, U>(items.drop_last()),
{
    lemma_taken::<E, A, M, P, U, X>(items.drop_last());
}

proof fn lemma_taken<E, A, M, P, U: IngressMode<A, M, P>, X>(items: Seq<U>)
    ensures
        taken::<E, A, M, P, U, X>(items) == messages::<A, M, P, U>(items),
    decreases items.len(),
{
    if items.len() > 0 {
        lemma_taken::<E, A, M, P, U, X>(items.drop_last());
    }
}

/// A cancelled actor ends, and the cancellation is held until it retires: what
/// it acquires afterwards does not take it away, unless it is another one.
pub proof fn law_a_cancellation_is_held<E, A, M, P, U: IngressMode<A, M, P>, X>(
    hold: OwnerHold<X>,
    cancellation: X,
    later: Acquired<E, U, X>,
)
    ensures
        decided::<E, A, M, P, U, X>(Acquired::OwnerCancellation(Some(cancellation))) is End,
        held(hold, Acquired::<E, U, X>::OwnerCancellation(Some(cancellation))) == (OwnerHold {
            listening: false,
            cancellation: Some(cancellation),
        }),
        !(later matches Acquired::OwnerCancellation(Some(_))) ==> held(
            held(hold, Acquired::<E, U, X>::OwnerCancellation(Some(cancellation))),
            later,
        ).cancellation == Some(cancellation),
{
}

/// A control event, an observed fact and a due timer reach the actor as they
/// are, and so does a user message with its origin.
pub proof fn law_events_reach_the_actor_unchanged<E, A, M, P, U: IngressMode<A, M, P>, X>(
    event: E,
    item: U,
    user: User<A, M>,
)
    requires
        item.content() == Ok::<User<A, M>, P>(user),
    ensures
        decided::<E, A, M, P, U, X>(Acquired::Mailbox(Some(Received::Control(event))))
            == NextEvent::<E, A, M, P>::Event(event),
        decided::<E, A, M, P, U, X>(Acquired::Fact(event)) == NextEvent::<E, A, M, P>::Event(event),
        decided::<E, A, M, P, U, X>(Acquired::Deadline(Some(event))) == NextEvent::<
            E,
            A,
            M,
            P,
        >::Event(event),
        decided::<E, A, M, P, U, X>(Acquired::Mailbox(Some(Received::User(item))))
            == NextEvent::<E, A, M, P>::User(user),
{
}

/// A withdrawn owner, a timer that had been cancelled and a closed user lane let
/// the actor acquire again, and a fence that it reaches is acknowledged.
pub proof fn law_an_actor_goes_on_without_an_event<E, A, M, P, U: IngressMode<A, M, P>, X>(
    acquired: Acquired<E, U, X>,
)
    ensures
        decided::<E, A, M, P, U, X>(acquired) is Again <==> (acquired
            == Acquired::<E, U, X>::OwnerCancellation(None) || acquired
            == Acquired::<E, U, X>::Deadline(None) || acquired == Acquired::<E, U, X>::Mailbox(
            Some(Received::UserLaneClosed),
        )),
        decided::<E, A, M, P, U, X>(acquired) matches NextEvent::Acknowledge { fence, answer }
            ==> answer is Ok && acquired is Mailbox && acquired->Mailbox_0 is Some
            && (acquired->Mailbox_0)->0 is User && ((acquired->Mailbox_0)->0->User_0).content()
            == Err::<User<A, M>, P>(fence),
{
}

/// Only what the owner does changes its hold: an owner that withdraws is not
/// listened to any more, and what it cancelled before stays.
pub proof fn law_only_the_owner_changes_its_hold<E, U, X>(
    hold: OwnerHold<X>,
    acquired: Acquired<E, U, X>,
)
    ensures
        !(acquired is OwnerCancellation) ==> held(hold, acquired) == hold,
        acquired is OwnerCancellation ==> !held(hold, acquired).listening,
        acquired == Acquired::<E, U, X>::OwnerCancellation(None) ==> held(
            hold,
            acquired,
        ).cancellation == hold.cancellation,
{
}

/// A prepared actor and an active one admit messages as long as they own their
/// admission, and an active one receives until it was drained.
pub proof fn law_an_actor_admits_while_it_owns_admission<E, U, L, F, N, X>(
    prepared: LocalEnvironment<E, U>,
    active: ActiveLocalEnvironment<E, U, L, F, N, X>,
)
    ensures
        prepared.open() <==> prepared.owner() is Some,
        active.open() <==> active.owner() is Some,
        active.receives() <==> active.lanes() is Some,
{
}

} // verus!
