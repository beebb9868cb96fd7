//! Transport-neutral access to explicitly exported actor capabilities.

use communication::{Consumer, ControlSender, MailboxOwner, MailboxRef};
use vstd::prelude::*;

use crate::address::{
    after_allocation, allocation, AllocationRejection, ApplicationAddresses, MailAddr,
};
use crate::local::admission::Admission;
use crate::local::environment::ClaimError;
use crate::local::ingress::User;
use crate::local::reference::{message_for, ActorRef, Outgoing};
use crate::mailbox::{
    admission_closed, lemma_opened_mailbox, open_mailbox, opened_mailbox, Received,
};
use crate::outcome::{Crash, Exit};

verus! {

/// How many messages an external actor holds before its senders wait.
pub const EXTERNAL_USER_CAPACITY: usize = 1_024;

/// A transport-neutral product of explicitly exported actor capabilities.
///
/// `Api` is application-defined. Nothing is exported that it does not hold, and
/// it grants no lifecycle authority.
#[derive(Debug, Clone, Copy)]
pub struct ActorInterface<Api> {
    api: Api,
}

impl<Api> ActorInterface<Api> {
    /// The exported capabilities.
    pub closed spec fn api_view(self) -> Api {
        self.api
    }

    /// An interface that exports `api`.
    pub fn new(api: Api) -> (interface: Self)
        ensures
            interface.api_view() == api,
    {
        ActorInterface { api }
    }

    /// Borrow the statically declared receptionist product.
    pub fn api(&self) -> (api: &Api)
        ensures
            *api == self.api_view(),
    {
        &self.api
    }

    /// Begin to establish one real external actor: it gets the next address of
    /// the application and a fresh mailbox, whose one receiver it is. No address
    /// and no recipient comes of a failure.
    pub fn external<M>(&self, addresses: &mut ApplicationAddresses) -> (begun: Result<
        UnclaimedActor<M>,
        ExternalActorError,
    >)
        ensures
            final(addresses)@ == after_allocation(old(addresses)@),
            match allocation(old(addresses)@) {
                Ok(address) => begun matches Ok(actor) && actor.address() == address
                    && actor.fresh(),
                Err(reason) => begun == Err::<UnclaimedActor<M>, ExternalActorError>(
                    ExternalActorError::Allocation(reason),
                ),
            },
    {
        UnclaimedActor::establish(addresses)
    }
}

/// Exact failure to establish an external actor.
#[derive(Debug, Clone, Copy, PartialEq, Eq, Structural)]
pub enum ExternalActorError {
    /// The application's address source is exhausted.
    Allocation(AllocationRejection),
    /// The address could not be claimed.
    Address(ClaimError),
}

impl ExternalActorError {
    /// The failure in words.
    pub fn message(&self) -> (message: &'static str)
        ensures
            message@ == match self {
                ExternalActorError::Allocation(_) =>
                    "the Bombay application has exhausted its local address space"@,
                ExternalActorError::Address(_) =>
                    "the external actor address could not be claimed"@,
            },
    {
        match self {
            ExternalActorError::Allocation(_) => {
                "the Bombay application has exhausted its local address space"
            },
            ExternalActorError::Address(_) => "the external actor address could not be claimed",
        }
    }
}

/// An external actor gets no control event: nothing makes a value of this type.
#[derive(Debug, Clone, Copy, PartialEq, Eq)]
pub struct NoControl {
    _never: (),
}

/// An external actor whose address has not been claimed.
#[verifier::reject_recursive_types(M)]
pub struct UnclaimedActor<M> {
    address: MailAddr,
    control: ControlSender<NoControl>,
    mailbox: MailboxRef<User<MailAddr, M>>,
    admission: Admission<User<MailAddr, M>>,
    receiver: Consumer<NoControl, User<MailAddr, M>>,
}

/// One claimed external actor with affine receive authority. `L` is the claim
/// on its address, `P` tells of its end.
#[verifier::reject_recursive_types(M)]
pub struct ExternalActor<M, L, P> {
    address: MailAddr,
    control: ControlSender<NoControl>,
    mailbox: MailboxRef<User<MailAddr, M>>,
    admission: Admission<User<MailAddr, M>>,
    receiver: Consumer<NoControl, User<MailAddr, M>>,
    lease: Option<L>,
    termination: Option<P>,
}

/// What an external actor hands out when it ends: the claim on its address,
/// which is given up first, and what tells of its end with the end to tell.
#[derive(Debug, Clone, Copy, PartialEq, Eq)]
pub struct RetiredExternal<L, P> {
    pub lease: Option<L>,
    pub termination: Option<(P, Result<Exit<MailAddr>, Crash>)>,
}

impl<M> UnclaimedActor<M> {
    /// The address to be claimed.
    pub closed spec fn address(self) -> MailAddr {
        self.address
    }

    /// The owner of admission.
    pub closed spec fn owner(self) -> Option<MailboxOwner<User<MailAddr, M>>> {
        self.admission.owner()
    }

    /// Whether messages are admitted.
    pub open spec fn open(self) -> bool {
        self.owner() is Some
    }

    /// The control lane.
    pub closed spec fn control_lane(self) -> ControlSender<NoControl> {
        self.control
    }

    /// The user lane.
    pub closed spec fn user_lane(self) -> MailboxRef<User<MailAddr, M>> {
        self.mailbox
    }

    /// The receiving end.
    pub closed spec fn lanes(self) -> Consumer<NoControl, User<MailAddr, M>> {
        self.receiver
    }

    /// Whether it holds every end of one mailbox that was opened for it.
    pub open spec fn fresh(self) -> bool {
        self.owner() matches Some(owner) && opened_mailbox(
            EXTERNAL_USER_CAPACITY,
            self.control_lane(),
            owner,
            self.user_lane(),
            self.lanes(),
        )
    }

    fn establish(addresses: &mut ApplicationAddresses) -> (begun: Result<Self, ExternalActorError>)
        ensures
            final(addresses)@ == after_allocation(old(addresses)@),
            match allocation(old(addresses)@) {
                Ok(address) => begun matches Ok(actor) && actor.address() == address
                    && actor.fresh(),
                Err(reason) => begun == Err::<Self, ExternalActorError>(
                    ExternalActorError::Allocation(reason),
                ),
            },
    {
        match addresses.allocate() {
            Err(reason) => Err(ExternalActorError::Allocation(reason)),
            Ok(address) => {
                let (control, owner, mailbox, receiver) = open_mailbox(EXTERNAL_USER_CAPACITY);
                proof {
                    lemma_opened_mailbox(
                        EXTERNAL_USER_CAPACITY,
                        control,
                        owner,
                        mailbox,
                        receiver,
                    );
                }
                Ok(
                    UnclaimedActor {
                        address,
                        control,
                        mailbox,
                        admission: Admission::new(owner),
                        receiver,
                    },
                )
            },
        }
    }

    /// The address to be claimed.
    pub fn mail_address(&self) -> (address: MailAddr)
        ensures
            address == self.address(),
    {
        self.address
    }

    /// The user lane.
    pub fn mailbox(&self) -> (mailbox: &MailboxRef<User<MailAddr, M>>)
        ensures
            *mailbox == self.user_lane(),
    {
        &self.mailbox
    }

    /// Go on with the answer to the claim of the address. A refused claim closes
    /// admission.
    pub fn claimed<L, P>(self, claimed: Result<L, ClaimError>, termination: P) -> (established:
        Result<ExternalActor<M, L, P>, ExternalActorError>)
        ensures
            match claimed {
                Ok(lease) => {
                    &&& established matches Ok(actor)
                    &&& actor.origin() == self.address()
                    &&& actor.owner() == self.owner()
                    &&& actor.control_lane() == self.control_lane()
                    &&& actor.user_lane() == self.user_lane()
                    &&& actor.lanes() == self.lanes()
                    &&& actor.lease() == Some(lease)
                    &&& actor.termination() == Some(termination)
                },
                Err(error) => {
                    &&& established == Err::<ExternalActor<M, L, P>, ExternalActorError>(
                        ExternalActorError::Address(error),
                    )
                    &&& self.owner() matches Some(owner) ==> admission_closed(owner)
                },
            },
    {
        match claimed {
            Ok(lease) => Ok(
                ExternalActor {
                    address: self.address,
                    control: self.control,
                    mailbox: self.mailbox,
                    admission: self.admission,
                    receiver: self.receiver,
                    lease: Some(lease),
                    termination: Some(termination),
                },
            ),
            Err(error) => {
                let mut admission = self.admission;
                admission.close();
                Err(ExternalActorError::Address(error))
            },
        }
    }
}

/// What an external actor received, if its lanes yielded this. A closed user
/// lane and the end of both yield nothing.
pub open spec fn received<M>(item: Option<Received<NoControl, User<MailAddr, M>>>) -> Option<
    User<MailAddr, M>,
> {
    match item {
        Some(Received::User(message)) => Some(message),
        _ => None,
    }
}

impl<M, L, P> ExternalActor<M, L, P> {
    /// Its address.
    pub closed spec fn origin(self) -> MailAddr {
        self.address
    }

    /// The owner of admission, until it is closed.
    pub closed spec fn owner(self) -> Option<MailboxOwner<User<MailAddr, M>>> {
        self.admission.owner()
    }

    /// Whether messages are admitted.
    pub open spec fn open(self) -> bool {
        self.owner() is Some
    }

    /// The control lane.
    pub closed spec fn control_lane(self) -> ControlSender<NoControl> {
        self.control
    }

    /// The user lane.
    pub closed spec fn user_lane(self) -> MailboxRef<User<MailAddr, M>> {
        self.mailbox
    }

    /// The receiving end.
    pub closed spec fn lanes(self) -> Consumer<NoControl, User<MailAddr, M>> {
        self.receiver
    }

    /// The claim on its address, until it is released.
    pub closed spec fn lease(self) -> Option<L> {
        self.lease
    }

    /// What tells of its end, until it is told.
    pub closed spec fn termination(self) -> Option<P> {
        self.termination
    }

    /// The fresh logical identity that its messages come from.
    pub fn address(&self) -> (address: MailAddr)
        ensures
            address == self.origin(),
    {
        self.address
    }

    /// The user lane, through which the actor is replied to.
    pub fn recipient(&self) -> (mailbox: &MailboxRef<User<MailAddr, M>>)
        ensures
            *mailbox == self.user_lane(),
    {
        &self.mailbox
    }

    /// Send directly to one exact exported or extruded actor capability. The
    /// origin is always the claimed address.
    pub fn send<X, Q, C>(&self, target: &ActorRef<MailAddr, X, Q, C>, message: X) -> (outgoing:
        Outgoing<MailAddr, X, Q>)
        ensures
            outgoing == message_for::<MailAddr, X, Q>(
                target.is_entity(),
                User { from: self.origin(), message },
            ),
    {
        target.send_from(self.address, message)
    }

    /// The receiving end.
    pub fn receiver(&mut self) -> (receiver: &mut Consumer<NoControl, User<MailAddr, M>>)
        ensures
            *receiver == old(self).lanes(),
            final(self).lanes() == *final(receiver),
            final(self).origin() == old(self).origin(),
            final(self).owner() == old(self).owner(),
            final(self).control_lane() == old(self).control_lane(),
            final(self).user_lane() == old(self).user_lane(),
            final(self).lease() == old(self).lease(),
            final(self).termination() == old(self).termination(),
    {
        &mut self.receiver
    }

    /// Receive what the receiving end yielded.
    pub fn receive(item: Option<Received<NoControl, User<MailAddr, M>>>) -> (message: Option<
        User<MailAddr, M>,
    >)
        ensures
            message == received(item),
    {
        match item {
            Some(Received::User(message)) => Some(message),
            _ => None,
        }
    }

    /// Close new reply admission while retaining the already accepted prefix.
    pub fn close_admission(&mut self)
        ensures
            old(self).owner() matches Some(owner) ==> admission_closed(owner),
            final(self).owner() is None,
            final(self).control_lane() == old(self).control_lane(),
            final(self).origin() == old(self).origin(),
            final(self).lanes() == old(self).lanes(),
            final(self).user_lane() == old(self).user_lane(),
            final(self).lease() == old(self).lease(),
            final(self).termination() == old(self).termination(),
    {
        self.admission.close();
    }

    /// End the actor: admission closes, and what releases its address and what
    /// tells of its end are handed out, in this order and once. The end that is
    /// told is a normal exit.
    pub fn retire(&mut self) -> (retired: RetiredExternal<L, P>)
        ensures
            old(self).owner() matches Some(owner) ==> admission_closed(owner),
            final(self).owner() is None,
            retired.lease == old(self).lease(),
            retired.termination == match old(self).termination() {
                Some(termination) => Some(
                    (termination, Ok::<Exit<MailAddr>, Crash>(Exit::Normal)),
                ),
                None => None,
            },
            final(self).lease() is None,
            final(self).termination() is None,
            final(self).origin() == old(self).origin(),
            final(self).control_lane() == old(self).control_lane(),
            final(self).user_lane() == old(self).user_lane(),
            final(self).lanes() == old(self).lanes(),
    {
        self.admission.close();
        let lease = self.lease.take();
        let termination = match self.termination.take() {
            Some(termination) => Some((termination, Ok(Exit::Normal))),
            None => None,
        };
        RetiredExternal { lease, termination }
    }
}

/// A closed external actor receives exactly what was accepted, in order, and
/// then nothing: whenever its lanes yield an accepted prefix and then the close
/// of the user lane, or their own end.
pub proof fn law_a_closed_actor_receives_the_accepted_prefix<M>(
    accepted: Seq<User<MailAddr, M>>,
    yielded: Seq<Option<Received<NoControl, User<MailAddr, M>>>>,
)
    requires
        yielded.len() == accepted.len() + 1,
        forall|i: int|
            0 <= i < accepted.len() ==> (#[trigger] yielded[i]) == Some(
                Received::<NoControl, User<MailAddr, M>>::User(accepted[i]),
            ),
        yielded.last() is None || yielded.last() == Some(
            Received::<NoControl, User<MailAddr, M>>::UserLaneClosed,
        ),
    ensures
        forall|i: int|
            0 <= i < accepted.len() ==> received(#[trigger] yielded[i]) == Some(accepted[i]),
        received(yielded.last()) is None,
{
}

/// The replies to an external actor reach its own mailbox: its recipient, its
/// one receiver and the admission that its end closes belong to the mailbox that
/// was opened for it.
pub proof fn law_an_external_actor_owns_its_mailbox<M, L, P>(
    unclaimed: UnclaimedActor<M>,
    actor: ExternalActor<M, L, P>,
)
    requires
        unclaimed.fresh(),
        actor.owner() == unclaimed.owner(),
        actor.control_lane() == unclaimed.control_lane(),
        actor.user_lane() == unclaimed.user_lane(),
        actor.lanes() == unclaimed.lanes(),
    ensures
        actor.owner() matches Some(owner) && opened_mailbox(
            EXTERNAL_USER_CAPACITY,
            actor.control_lane(),
            owner,
            actor.user_lane(),
            actor.lanes(),
        ),
{
}

/// An external actor, claimed or not, admits messages as long as it owns its
/// admission.
pub proof fn law_an_external_actor_admits_while_it_owns_admission<M, L, P>(
    unclaimed: UnclaimedActor<M>,
    actor: ExternalActor<M, L, P>,
)
    ensures
        unclaimed.open() <==> unclaimed.owner() is Some,
        actor.open() <==> actor.owner() is Some,
        unclaimed.fresh() ==> unclaimed.open(),
{
}

/// An external actor receives the user messages that its lanes yield, as they
/// are, and nothing else.
pub proof fn law_an_external_actor_receives_messages_alone<M>(
    item: Option<Received<NoControl, User<MailAddr, M>>>,
)
    ensures
        item matches Some(Received::User(message)) ==> received(item) == Some(message),
        !(item matches Some(Received::User(_))) ==> received(item) is None,
{
}

} // verus!
