//! References to exact incarnations.

use communication::{ControlSender, MailboxRef};
use vstd::prelude::*;

use crate::entity::runtime::FenceFailure;
use crate::local::admission::{
    request_shutdown, shutdown_requested, Admission, ShutdownRejection,
};
use crate::local::environment::{decided, Acquired, NextEvent};
use crate::local::ingress::{collected, LocalIngress, SendError, User};
use crate::mailbox::Received;
use crate::observe::slot::Slot;

verus! {

/// The user lane of an actor. Only that of an entity takes fences.
#[verifier::reject_recursive_types(A)]
#[verifier::reject_recursive_types(M)]
#[verifier::reject_recursive_types(P)]
pub enum EndpointMailbox<A, M, P> {
    /// The user lane of an ordinary actor.
    Standard(MailboxRef<User<A, M>>),
    /// The user lane of an entity.
    Entity(MailboxRef<LocalIngress<A, M, P>>),
}

/// What is sent through the user lane of an actor.
#[derive(Debug)]
pub enum Outgoing<A, M, P> {
    /// A message for an ordinary actor.
    Standard(User<A, M>),
    /// An item for an entity.
    Entity(LocalIngress<A, M, P>),
}

/// A non-owning reference to one exact incarnation. `C` is one of its control
/// events; an external actor has none.
#[verifier::reject_recursive_types(A)]
#[verifier::reject_recursive_types(M)]
#[verifier::reject_recursive_types(P)]
#[verifier::reject_recursive_types(C)]
pub struct ActorRef<A, M, P, C> {
    address: A,
    endpoint: EndpointMailbox<A, M, P>,
    control: Option<ControlSender<C>>,
}

impl<A: Copy, M, P, C> ActorRef<A, M, P, C> {
    /// Its address.
    pub closed spec fn address_view(self) -> A {
        self.address
    }

    /// The user lane of the incarnation that it refers to.
    pub closed spec fn lane(self) -> EndpointMailbox<A, M, P> {
        self.endpoint
    }

    /// The control lane of that incarnation, unless it is an external actor.
    pub closed spec fn control_lane(self) -> Option<ControlSender<C>> {
        self.control
    }

    /// Whether it refers to an entity.
    pub open spec fn is_entity(self) -> bool {
        self.lane() is Entity
    }

    /// Whether its actor can be told to stop.
    pub open spec fn has_control(self) -> bool {
        self.control_lane() is Some
    }

    /// Where a message from `from` goes, and what is sent there.
    pub open spec fn delivery(self, from: A, message: M) -> (
        EndpointMailbox<A, M, P>,
        Outgoing<A, M, P>,
    ) {
        (self.lane(), message_for(self.is_entity(), User { from, message }))
    }

    /// A reference to an actor with a control lane.
    pub fn new(
        address: A,
        endpoint: EndpointMailbox<A, M, P>,
        control: ControlSender<C>,
    ) -> (reference: Self)
        ensures
            reference.address_view() == address,
            reference.lane() == endpoint,
            reference.control_lane() == Some(control),
    {
        ActorRef { address, endpoint, control: Some(control) }
    }

    /// A reference to an external actor, which cannot be told to stop.
    pub fn external(address: A, mailbox: MailboxRef<User<A, M>>) -> (reference: Self)
        ensures
            reference.address_view() == address,
            reference.lane() == EndpointMailbox::<A, M, P>::Standard(mailbox),
            reference.control_lane() is None,
    {
        ActorRef { address, endpoint: EndpointMailbox::Standard(mailbox), control: None }
    }

    /// The typed address of this exact actor reference.
    pub fn address(&self) -> (address: A)
        ensures
            address == self.address_view(),
    {
        self.address
    }

    /// The user lane.
    pub fn endpoint(&self) -> (endpoint: &EndpointMailbox<A, M, P>)
        ensures
            *endpoint == self.lane(),
    {
        &self.endpoint
    }

    /// One message from an explicitly supplied origin, as the user lane of the
    /// actor takes it.
    pub fn send_from(&self, from: A, message: M) -> (outgoing: Outgoing<A, M, P>)
        ensures
            outgoing == self.delivery(from, message).1,
    {
        match &self.endpoint {
            EndpointMailbox::Standard(_) => Outgoing::Standard(User::new(from, message)),
            EndpointMailbox::Entity(_) => Outgoing::Entity(
                LocalIngress::Message(User::new(from, message)),
            ),
        }
    }

    /// A fence, as the user lane of an entity takes it. An ordinary actor takes
    /// none: the authority to answer it comes back. One that the lane accepts is
    /// answered when the actor reaches it or collects it at retirement, and
    /// settled by that answer.
    pub fn fence(&self, publisher: P) -> (fenced: Result<
        LocalIngress<A, M, P>,
        (FenceFailure, P),
    >)
        ensures
            fenced == if self.is_entity() {
                Ok::<LocalIngress<A, M, P>, (FenceFailure, P)>(LocalIngress::Fence(publisher))
            } else {
                Err::<LocalIngress<A, M, P>, (FenceFailure, P)>((FenceFailure::Enqueue, publisher))
            },
    {
        match &self.endpoint {
            EndpointMailbox::Standard(_) => Err((FenceFailure::Enqueue, publisher)),
            EndpointMailbox::Entity(_) => Ok(LocalIngress::Fence(publisher)),
        }
    }

    /// Request the shutdown of this exact incarnation, whose termination is
    /// observed in `termination`.
    pub fn request_shutdown<O, U>(
        &self,
        termination: &Slot<O>,
        admission: &mut Admission<U>,
        event: C,
    ) -> (requested: Result<(), (ShutdownRejection, C)>)
        ensures
            shutdown_requested(
                termination@.completed,
                self.control_lane(),
                old(admission).owner(),
                event,
                requested,
                final(admission).owner(),
            ),
    {
        match &self.control {
            Some(control) => request_shutdown(termination, Some(control), admission, event),
            None => request_shutdown(termination, None, admission, event),
        }
    }
}

/// A message as the user lane of an actor takes it.
pub open spec fn message_for<A, M, P>(entity: bool, user: User<A, M>) -> Outgoing<A, M, P> {
    if entity {
        Outgoing::Entity(LocalIngress::Message(user))
    } else {
        Outgoing::Standard(user)
    }
}

/// The message that an item carries.
pub open spec fn carried<A, M, P>(outgoing: Outgoing<A, M, P>) -> Option<User<A, M>> {
    match outgoing {
        Outgoing::Standard(user) => Some(user),
        Outgoing::Entity(LocalIngress::Message(user)) => Some(user),
        Outgoing::Entity(LocalIngress::Fence(_)) => None,
    }
}

/// Settle a message that was sent, or came back from a closed user lane.
pub fn settle_send<A, M, P>(sent: Result<(), Outgoing<A, M, P>>) -> (settled: Result<
    (),
    SendError<M>,
>)
    requires
        sent matches Err(rejected) ==> carried(rejected) is Some,
    ensures
        match sent {
            Ok(_) => settled is Ok,
            Err(rejected) => settled matches Err(error) && error@ == carried(rejected)->0.message,
        },
{
    match sent {
        Ok(_) => Ok(()),
        Err(Outgoing::Standard(user)) => Err(SendError::from_standard_rejection(user)),
        Err(Outgoing::Entity(item)) => Err(SendError::from_entity_rejection(item)),
    }
}

/// What the caller of a fence is told: that it was not enqueued, or how it was
/// answered.
pub open spec fn fence_settlement(enqueued: bool, answer: Result<(), FenceFailure>) -> Result<
    (),
    FenceFailure,
> {
    if enqueued {
        answer
    } else {
        Err(FenceFailure::Enqueue)
    }
}

/// Settle a fence that was enqueued and answered like this, or not enqueued.
pub fn settle_fence(enqueued: bool, answer: Result<(), FenceFailure>) -> (settled: Result<
    (),
    FenceFailure,
>)
    ensures
        settled == fence_settlement(enqueued, answer),
{
    if enqueued {
        answer
    } else {
        Err(FenceFailure::Enqueue)
    }
}

/// A fence is settled by what became of it: one that was refused was not
/// enqueued, one that its actor reached is acknowledged, and one that was
/// accepted and then collected at retirement was enqueued and is not
/// acknowledged.
pub proof fn law_a_fence_is_settled_by_its_fate<E, A, M, P, X>(
    unused: Result<(), FenceFailure>,
    fence: P,
    queued: Seq<P>,
    i: int,
)
    requires
        0 <= i < queued.len(),
    ensures
        fence_settlement(false, unused) == Err::<(), FenceFailure>(FenceFailure::Enqueue),
        ({
            let reached = Acquired::<E, LocalIngress<A, M, P>, X>::Mailbox(
                Some(Received::User(LocalIngress::Fence(fence))),
            );
            let next = decided::<E, A, M, P, LocalIngress<A, M, P>, X>(reached);
            &&& next matches NextEvent::Acknowledge { fence: answered, answer }
            &&& answered == fence
            &&& fence_settlement(true, answer) == Ok::<(), FenceFailure>(())
        }),
        collected(queued)[i].0 == queued[i],
        fence_settlement(true, collected(queued)[i].1) == Err::<(), FenceFailure>(
            FenceFailure::Acknowledgement,
        ),
{
}

/// A reference delivers to its own incarnation and never retargets: an actor
/// that takes over its address has another user lane, and nothing that is sent
/// through the reference goes there.
pub proof fn law_a_reference_never_retargets<A: Copy, M, P, C>(
    reference: ActorRef<A, M, P, C>,
    replacement: ActorRef<A, M, P, C>,
    from: A,
    message: M,
)
    requires
        replacement.address_view() == reference.address_view(),
        replacement.lane() != reference.lane(),
    ensures
        reference.delivery(from, message).0 == reference.lane(),
        reference.delivery(from, message).0 != replacement.delivery(from, message).0,
        carried(reference.delivery(from, message).1) == Some(User { from, message }),
{
}

/// A rejected message is the one that was sent, from the origin that was given,
/// whichever kind of actor rejected it.
pub proof fn law_a_rejected_message_is_the_one_sent<A, M, P>(entity: bool, user: User<A, M>)
    ensures
        carried(message_for::<A, M, P>(entity, user)) == Some(user),
{
}

/// A message goes out in the form that the user lane of its actor takes: as a
/// message among fences to an entity, and plain to an ordinary actor.
pub proof fn law_a_message_fits_its_lane<A: Copy, M, P, C>(
    reference: ActorRef<A, M, P, C>,
    from: A,
    message: M,
)
    ensures
        reference.lane() is Entity ==> reference.delivery(from, message).1 == Outgoing::<
            A,
            M,
            P,
        >::Entity(LocalIngress::Message(User { from, message })),
        reference.lane() is Standard ==> reference.delivery(from, message).1 == Outgoing::<
            A,
            M,
            P,
        >::Standard(User { from, message }),
        reference.is_entity() <==> reference.lane() is Entity,
        reference.has_control() <==> reference.control_lane() is Some,
{
}

/// A message comes back from either kind of lane, and a fence carries none.
pub proof fn law_only_messages_carry_a_message<A, M, P>(user: User<A, M>, fence: P)
    ensures
        carried(Outgoing::<A, M, P>::Standard(user)) == Some(user),
        carried(Outgoing::<A, M, P>::Entity(LocalIngress::Message(user))) == Some(user),
        carried(Outgoing::<A, M, P>::Entity(LocalIngress::Fence(fence))) is None,
{
}

/// The caller of a fence is told its answer if it was enqueued, and that it was
/// not if it was not.
pub proof fn law_an_enqueued_fence_is_settled_by_its_answer(
    enqueued: bool,
    answer: Result<(), FenceFailure>,
)
    ensures
        enqueued ==> fence_settlement(enqueued, answer) == answer,
        !enqueued ==> fence_settlement(enqueued, answer) == Err::<(), FenceFailure>(
            FenceFailure::Enqueue,
        ),
{
}

} // verus!
