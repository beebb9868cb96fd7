//! What arrives in the user lane, and what is left of it at retirement.

use communication::{Consumer, MailboxRef};
use vstd::prelude::*;

use crate::entity::runtime::FenceFailure;
use crate::local::reference::EndpointMailbox;
use crate::mailbox::{drain_lanes, drained, lemma_drained};

verus! {

/// One user message and its truthful origin.
#[derive(Debug, Clone, Copy, PartialEq, Eq)]
pub struct User<A, M> {
    pub from: A,
    pub message: M,
}

impl<A, M> User<A, M> {
    /// A message from `from`.
    pub fn new(from: A, message: M) -> (user: Self)
        ensures
            user == (User { from, message }),
    {
        User { from, message }
    }
}

/// One item of the user lane of an entity: a message, or a fence that is
/// acknowledged when everything before it has been processed. `P` is the
/// authority to answer the fence.
#[derive(Debug)]
pub enum LocalIngress<A, M, P> {
    Message(User<A, M>),
    Fence(P),
}

/// What the user lane of an actor holds: plain messages, if the actor is an
/// ordinary one, or messages and fences, if it is an entity.
pub trait IngressMode<A, M, P>: Sized {
    /// The message or the fence that an item is.
    spec fn content(self) -> Result<User<A, M>, P>;

    /// The lane of such items, as references to the actor hold it.
    spec fn lane(mailbox: MailboxRef<Self>) -> EndpointMailbox<A, M, P>;

    /// Take an item: a message for the actor, or a fence to acknowledge.
    fn into_event(self) -> (taken: Result<User<A, M>, P>)
        ensures
            taken == self.content(),
    ;

    /// The lane of such items, as references to the actor hold it.
    fn endpoint(mailbox: MailboxRef<Self>) -> (endpoint: EndpointMailbox<A, M, P>)
        ensures
            endpoint == Self::lane(mailbox),
    ;
}

impl<A, M, P> IngressMode<A, M, P> for User<A, M> {
    open spec fn content(self) -> Result<User<A, M>, P> {
        Ok(self)
    }

    open spec fn lane(mailbox: MailboxRef<Self>) -> EndpointMailbox<A, M, P> {
        EndpointMailbox::Standard(mailbox)
    }

    fn into_event(self) -> (taken: Result<User<A, M>, P>) {
        Ok(self)
    }

    fn endpoint(mailbox: MailboxRef<Self>) -> (endpoint: EndpointMailbox<A, M, P>) {
        EndpointMailbox::Standard(mailbox)
    }
}

impl<A, M, P> IngressMode<A, M, P> for LocalIngress<A, M, P> {
    open spec fn content(self) -> Result<User<A, M>, P> {
        match self {
            LocalIngress::Message(user) => Ok(user),
            LocalIngress::Fence(publisher) => Err(publisher),
        }
    }

    open spec fn lane(mailbox: MailboxRef<Self>) -> EndpointMailbox<A, M, P> {
        EndpointMailbox::Entity(mailbox)
    }

    fn into_event(self) -> (taken: Result<User<A, M>, P>) {
        match self {
            LocalIngress::Message(user) => Ok(user),
            LocalIngress::Fence(publisher) => Err(publisher),
        }
    }

    fn endpoint(mailbox: MailboxRef<Self>) -> (endpoint: EndpointMailbox<A, M, P>) {
        EndpointMailbox::Entity(mailbox)
    }
}

/// The messages among queued items, in order.
pub open spec fn messages<A, M, P, U: IngressMode<A, M, P>>(items: Seq<U>) -> Seq<User<A, M>>
    decreases items.len(),
{
    if items.len() == 0 {
        Seq::empty()
    } else {
        let before = messages::<A, M, P, U>(items.drop_last());
        match items.last().content() {
            Ok(user) => before.push(user),
            Err(_) => before,
        }
    }
}

/// The fences among queued items, in order.
pub open spec fn fences<A, M, P, U: IngressMode<A, M, P>>(items: Seq<U>) -> Seq<P>
    decreases items.len(),
{
    if items.len() == 0 {
        Seq::empty()
    } else {
        let before = fences::<A, M, P, U>(items.drop_last());
        match items.last().content() {
            Ok(_) => before,
            Err(publisher) => before.push(publisher),
        }
    }
}

/// Everything that was queued when the actor retired.
#[derive(Debug)]
pub struct RetiredIngress<C, A, M, P> {
    /// Control items, in order of admission.
    pub control: Vec<C>,
    /// Messages, in order of admission.
    pub user: Vec<User<A, M>>,
    /// Fences that will not be acknowledged, in order of admission, each with
    /// its answer.
    pub fences: Vec<(P, Result<(), FenceFailure>)>,
}

/// Fences that are collected before they were processed, each with its answer:
/// it was enqueued, and is not acknowledged.
pub open spec fn collected<P>(fences: Seq<P>) -> Seq<(P, Result<(), FenceFailure>)> {
    Seq::new(
        fences.len(),
        |i: int| (fences[i], Err::<(), FenceFailure>(FenceFailure::Acknowledgement)),
    )
}

/// Part queued items into messages, which are retained, and fences, which are
/// answered as collected ones.
pub fn retain_at_retirement<C, A, M, P, U: IngressMode<A, M, P>>(
    control: Vec<C>,
    items: Vec<U>,
) -> (retired: RetiredIngress<C, A, M, P>)
    ensures
        retired.control@ == control@,
        retired.user@ == messages::<A, M, P, U>(items@),
        retired.fences@ == collected(fences::<A, M, P, U>(items@)),
{
    let ghost all = items@;
    let mut user: Vec<User<A, M>> = Vec::new();
    let mut failed: Vec<(P, Result<(), FenceFailure>)> = Vec::new();
    for item in iter: items
        invariant
            iter.seq() == all,
            user@ == messages::<A, M, P, U>(all.take(iter.index() as int)),
            failed@ == collected(fences::<A, M, P, U>(all.take(iter.index() as int))),
    {
        proof {
            let next = all.take(iter.index() + 1);
            assert(next.drop_last() =~= all.take(iter.index() as int));
            assert(next.last() == item);
        }
        match item.into_event() {
            Ok(message) => user.push(message),
            Err(publisher) => failed.push((publisher, FenceFailure::collected())),
        }
    }
    proof {
        assert(all.take(all.len() as int) =~= all);
    }
    RetiredIngress { control, user, fences: failed }
}

/// Whether this is left of everything that was queued in both lanes.
pub open spec fn retired_from<C, A, M, P, U: IngressMode<A, M, P>>(
    consumer: Consumer<C, U>,
    retired: RetiredIngress<C, A, M, P>,
) -> bool {
    exists|control: Vec<C>, items: Vec<U>|
        {
            &&& #[trigger] drained(consumer, control, items)
            &&& retired.control@ == control@
            &&& retired.user@ == messages::<A, M, P, U>(items@)
            &&& retired.fences@ == collected(fences::<A, M, P, U>(items@))
        }
}

/// Take everything that is queued in both lanes, and part it into control
/// items, messages and fences. What is queued depends on who sent.
pub fn collect_retired_ingress<C, A, M, P, U: IngressMode<A, M, P>>(consumer: Consumer<C, U>) -> (
retired: RetiredIngress<C, A, M, P>)
    ensures
        retired_from::<C, A, M, P, U>(consumer, retired),
{
    let (control, items) = drain_lanes(consumer);
    proof {
        lemma_drained(consumer, control, items);
    }
    retain_at_retirement(control, items)
}

/// The receiving end of an actor, until it is drained.
#[verifier::reject_recursive_types(C)]
#[verifier::reject_recursive_types(U)]
pub struct LocalInbox<C, U> {
    consumer: Option<Consumer<C, U>>,
}

impl<C, U> LocalInbox<C, U> {
    /// Whether the inbox has not been drained.
    pub open spec fn active(&self) -> bool {
        self.lanes() is Some
    }

    /// The receiving end, until it is drained.
    pub closed spec fn lanes(&self) -> Option<Consumer<C, U>> {
        self.consumer
    }

    /// An inbox that nobody has drained.
    pub fn new(consumer: Consumer<C, U>) -> (inbox: Self)
        ensures
            inbox.lanes() == Some(consumer),
    {
        LocalInbox { consumer: Some(consumer) }
    }

    /// The receiving end of an inbox that has not been drained.
    pub fn receiver(&mut self) -> (consumer: &mut Consumer<C, U>)
        requires
            old(self).active(),
        ensures
            old(self).lanes() == Some(*consumer),
            final(self).lanes() == Some(*final(consumer)),
    {
        self.consumer.as_mut().unwrap()
    }

    /// Take everything that is queued. Only the first call finds anything.
    pub fn drain<A, M, P>(&mut self) -> (drained: Option<RetiredIngress<C, A, M, P>>)
        where U: IngressMode<A, M, P>
        ensures
            drained is Some <==> old(self).active(),
            old(self).lanes() matches Some(consumer) ==> retired_from::<C, A, M, P, U>(
                consumer,
                drained->0,
            ),
            final(self).lanes() is None,
    {
        match self.consumer.take() {
            Some(consumer) => Some(collect_retired_ingress(consumer)),
            None => None,
        }
    }
}

/// Nothing that was queued is lost at retirement: every item is a retained
/// message or a failed fence.
pub proof fn law_retirement_accounts_for_every_item<A, M, P, U: IngressMode<A, M, P>>(
    items: Seq<U>,
)
    ensures
        messages::<A, M, P, U>(items).len() + fences::<A, M, P, U>(items).len() == items.len(),
    decreases items.len(),
{
    if items.len() > 0 {
        law_retirement_accounts_for_every_item::<A, M, P, U>(items.drop_last());
    }
}

/// Retirement keeps the order of admission: what was queued before is returned
/// before what was queued after.
pub proof fn law_retirement_is_first_in_first_out<A, M, P, U: IngressMode<A, M, P>>(
    earlier: Seq<U>,
    later: Seq<U>,
)
    ensures
        messages::<A, M, P, U>(earlier + later) == messages::<A, M, P, U>(earlier) + messages::<
            A,
            M,
            P,
            U,
        >(later),
        fences::<A, M, P, U>(earlier + later) == fences::<A, M, P, U>(earlier) + fences::<
            A,
            M,
            P,
            U,
        >(later),
    decreases later.len(),
{
    let all = earlier + later;
    if later.len() == 0 {
        assert(all =~= earlier);
        assert(messages::<A, M, P, U>(later) =~= Seq::empty());
        assert(fences::<A, M, P, U>(later) =~= Seq::empty());
    } else {
        law_retirement_is_first_in_first_out::<A, M, P, U>(earlier, later.drop_last());
        assert(all.drop_last() =~= earlier + later.drop_last());
        assert(all.last() == later.last());
    }
    assert(messages::<A, M, P, U>(all) =~= messages::<A, M, P, U>(earlier) + messages::<
        A,
        M,
        P,
        U,
    >(later));
    assert(fences::<A, M, P, U>(all) =~= fences::<A, M, P, U>(earlier) + fences::<A, M, P, U>(
        later,
    ));
}

/// An ordinary actor, whose user lane holds messages alone, gets every one of
/// them back as it was queued, and owes no fence.
pub proof fn law_an_ordinary_actor_gets_every_message_back<A, M, P>(items: Seq<User<A, M>>)
    ensures
        messages::<A, M, P, User<A, M>>(items) == items,
        fences::<A, M, P, User<A, M>>(items).len() == 0,
    decreases items.len(),
{
    if items.len() > 0 {
        law_an_ordinary_actor_gets_every_message_back::<A, M, P>(items.drop_last());
    }
    assert(messages::<A, M, P, User<A, M>>(items) =~= items);
}

/// What is left of both lanes is everything that was queued in them: the control
/// items as they were, and each item of the user lane as a message or a fence.
pub proof fn law_retired_ingress_is_everything_queued<C, A, M, P, U: IngressMode<A, M, P>>(
    consumer: Consumer<C, U>,
    retired: RetiredIngress<C, A, M, P>,
)
    requires
        retired_from::<C, A, M, P, U>(consumer, retired),
    ensures
        exists|control: Vec<C>, items: Vec<U>| #[trigger]
            drained(consumer, control, items) && retired.control@ == control@
                && retired.user@.len() + retired.fences@.len() == items@.len(),
{
    let (control, items) = choose|control: Vec<C>, items: Vec<U>|
        {
            &&& #[trigger] drained(consumer, control, items)
            &&& retired.control@ == control@
            &&& retired.user@ == messages::<A, M, P, U>(items@)
            &&& retired.fences@ == collected(fences::<A, M, P, U>(items@))
        };
    law_retirement_accounts_for_every_item::<A, M, P, U>(items@);
    assert(drained(consumer, control, items));
}

/// A fence that is still queued at retirement was enqueued and is not
/// acknowledged: each of them comes out once, in order, with that answer.
pub proof fn law_a_queued_fence_fails_at_retirement<C, A, M, P, U: IngressMode<A, M, P>>(
    consumer: Consumer<C, U>,
    retired: RetiredIngress<C, A, M, P>,
)
    requires
        retired_from::<C, A, M, P, U>(consumer, retired),
    ensures
        exists|control: Vec<C>, items: Vec<U>| #[trigger]
            drained(consumer, control, items) && retired.fences@.len() == fences::<A, M, P, U>(
                items@,
            ).len() && (forall|i: int|
                0 <= i < retired.fences@.len() ==> (#[trigger] retired.fences@[i]) == (
                    fences::<A, M, P, U>(items@)[i],
                    Err::<(), FenceFailure>(FenceFailure::Acknowledgement),
                )),
{
    let (control, items) = choose|control: Vec<C>, items: Vec<U>|
        {
            &&& #[trigger] drained(consumer, control, items)
            &&& retired.control@ == control@
            &&& retired.user@ == messages::<A, M, P, U>(items@)
            &&& retired.fences@ == collected(fences::<A, M, P, U>(items@))
        };
    assert(drained(consumer, control, items));
}

/// What is left of both lanes of an ordinary actor is what was queued in them,
/// item by item and in order of admission.
pub proof fn law_an_ordinary_actor_retires_what_was_queued<C, A, M, P>(
    consumer: Consumer<C, User<A, M>>,
    retired: RetiredIngress<C, A, M, P>,
)
    requires
        retired_from::<C, A, M, P, User<A, M>>(consumer, retired),
    ensures
        exists|control: Vec<C>, items: Vec<User<A, M>>| #[trigger]
            drained(consumer, control, items) && retired.control@ == control@ && retired.user@
                == items@,
        retired.fences@.len() == 0,
{
    let (control, items) = choose|control: Vec<C>, items: Vec<User<A, M>>|
        {
            &&& #[trigger] drained(consumer, control, items)
            &&& retired.control@ == control@
            &&& retired.user@ == messages::<A, M, P, User<A, M>>(items@)
            &&& retired.fences@ == collected(fences::<A, M, P, User<A, M>>(items@))
        };
    law_an_ordinary_actor_gets_every_message_back::<A, M, P>(items@);
    assert(drained(consumer, control, items));
}

/// Exact user payload rejected because the incarnation is no longer live.
#[derive(Debug)]
pub struct SendError<M>(M);

impl<M> View for SendError<M> {
    type V = M;

    closed spec fn view(&self) -> M {
        self.0
    }
}

impl<M> SendError<M> {
    /// The failure in words.
    pub fn message(&self) -> (message: &'static str)
        ensures
            message@ == "actor reference is closed"@,
    {
        "actor reference is closed"
    }

    /// Recover the exact message rejected by the closed actor reference.
    pub fn into_message(self) -> (message: M)
        ensures
            message == self@,
    {
        self.0
    }

    /// The rejection of a message by a closed user lane.
    pub fn from_standard_rejection<A>(rejected: User<A, M>) -> (error: Self)
        ensures
            error@ == rejected.message,
    {
        SendError(rejected.message)
    }

    /// The rejection of a message by the closed user lane of an entity.
    pub fn from_entity_rejection<A, P>(rejected: LocalIngress<A, M, P>) -> (error: Self)
        requires
            rejected is Message,
        ensures
            error@ == rejected->Message_0.message,
    {
        match rejected {
            LocalIngress::Message(user) => SendError(user.message),
            LocalIngress::Fence(_) => vstd::pervasive::unreached(),
        }
    }
}

/// One queued item is a message that is retained or a fence that fails, and not
/// both; nothing queued leaves nothing.
pub proof fn law_a_queued_item_is_a_message_or_a_fence<A, M, P, U: IngressMode<A, M, P>>(
    items: Seq<U>,
    item: U,
)
    ensures
        messages::<A, M, P, U>(Seq::<U>::empty()).len() == 0,
        fences::<A, M, P, U>(Seq::<U>::empty()).len() == 0,
        item.content() matches Ok(user) ==> messages::<A, M, P, U>(items.push(item)) == messages::<
            A,
            M,
            P,
            U,
        >(items).push(user) && fences::<A, M, P, U>(items.push(item)) == fences::<A, M, P, U>(
            items,
        ),
        item.content() matches Err(fence) ==> messages::<A, M, P, U>(items.push(item)) == messages::<
            A,
            M,
            P,
            U,
        >(items) && fences::<A, M, P, U>(items.push(item)) == fences::<A, M, P, U>(items).push(
            fence,
        ),
{
    assert(items.push(item).drop_last() =~= items);
}

/// Every collected fence is answered that it was not acknowledged, each at its
/// place.
pub proof fn law_collected_fences_are_not_acknowledged<P>(fences: Seq<P>)
    ensures
        collected(fences).len() == fences.len(),
        forall|i: int|
            0 <= i < fences.len() ==> #[trigger] collected(fences)[i] == (
                fences[i],
                Err::<(), FenceFailure>(FenceFailure::Acknowledgement),
            ),
{
}

/// An entity takes messages and fences as what they are through its own kind of
/// lane, and an ordinary actor takes only messages through its own.
pub proof fn law_an_item_is_what_was_sent<A, M, P>(
    user: User<A, M>,
    fence: P,
    plain: MailboxRef<User<A, M>>,
    fenced: MailboxRef<LocalIngress<A, M, P>>,
)
    ensures
        IngressMode::<A, M, P>::content(user) == Ok::<User<A, M>, P>(user),
        IngressMode::<A, M, P>::content(LocalIngress::<A, M, P>::Message(user)) == Ok::<
            User<A, M>,
            P,
        >(user),
        IngressMode::<A, M, P>::content(LocalIngress::<A, M, P>::Fence(fence)) == Err::<
            User<A, M>,
            P,
        >(fence),
        <User<A, M> as IngressMode<A, M, P>>::lane(plain) == EndpointMailbox::<A, M, P>::Standard(
            plain,
        ),
        <LocalIngress<A, M, P> as IngressMode<A, M, P>>::lane(fenced) == EndpointMailbox::<
            A,
            M,
            P,
        >::Entity(fenced),
{
}

/// What is left at retirement is what both lanes held: the control items as they
/// were, the messages, and the fences with their answers.
pub proof fn law_retirement_leaves_what_the_lanes_held<C, A, M, P, U: IngressMode<A, M, P>>(
    consumer: Consumer<C, U>,
    retired: RetiredIngress<C, A, M, P>,
)
    requires
        retired_from::<C, A, M, P, U>(consumer, retired),
    ensures
        exists|control: Vec<C>, items: Vec<U>|
            {
                &&& #[trigger] drained(consumer, control, items)
                &&& retired.control@ == control@
                &&& retired.user@.len() + retired.fences@.len() == items@.len()
                &&& retired.user@ == messages::<A, M, P, U>(items@)
                &&& forall|i: int|
                    0 <= i < retired.fences@.len() ==> (#[trigger] retired.fences@[i]).0
                        == fences::<A, M, P, U>(items@)[i] && retired.fences@[i].1 is Err
            },
{
    let (control, items) = choose|control: Vec<C>, items: Vec<U>|
        {
            &&& #[trigger] drained(consumer, control, items)
            &&& retired.control@ == control@
            &&& retired.user@ == messages::<A, M, P, U>(items@)
            &&& retired.fences@ == collected(fences::<A, M, P, U>(items@))
        };
    law_retirement_accounts_for_every_item::<A, M, P, U>(items@);
    assert(drained(consumer, control, items));
}

/// An inbox is active until it was drained.
pub proof fn law_an_inbox_is_active_until_drained<C, U>(inbox: LocalInbox<C, U>)
    ensures
        inbox.active() <==> inbox.lanes() is Some,
{
}

} // verus!
