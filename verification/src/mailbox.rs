//! Two-lane actor mailboxes.
//!
//! The lanes themselves belong to the `communication` crate: an unbounded
//! control lane that is served first, and a bounded user lane with
//! backpressure. What is queued depends on every holder of a sender, so
//! nothing is claimed of it here. Contracts say which call a handle or a result
//! comes from, and what was handed to that call.

use communication::{
    channel, mailbox_channel, Config, Consumer, ControlSender, MailboxOwner, MailboxRef,
    UserAnchor, UserSender,
};
use vstd::prelude::*;

verus! {

/// The control-lane handle of the `communication` crate.
#[verifier::external_type_specification]
#[verifier::external_body]
#[verifier::reject_recursive_types(C)]
pub struct ExControlSender<C>(communication::ControlSender<C>);

/// The user-lane handle of the `communication` crate.
#[verifier::external_type_specification]
#[verifier::external_body]
#[verifier::reject_recursive_types(U)]
pub struct ExUserSender<U>(communication::UserSender<U>);

/// The non-owning user-lane handle of the `communication` crate.
#[verifier::external_type_specification]
#[verifier::external_body]
#[verifier::reject_recursive_types(U)]
pub struct ExUserAnchor<U>(communication::UserAnchor<U>);

/// The affine admission authority of the `communication` crate.
#[verifier::external_type_specification]
#[verifier::external_body]
#[verifier::reject_recursive_types(U)]
pub struct ExMailboxOwner<U>(communication::MailboxOwner<U>);

/// The cloneable mailbox address of the `communication` crate.
#[verifier::external_type_specification]
#[verifier::external_body]
#[verifier::reject_recursive_types(U)]
pub struct ExMailboxRef<U>(communication::MailboxRef<U>);

/// The receiving end of both lanes of the `communication` crate.
#[verifier::external_type_specification]
#[verifier::external_body]
#[verifier::reject_recursive_types(C)]
#[verifier::reject_recursive_types(U)]
pub struct ExConsumer<C, U>(communication::Consumer<C, U>);

/// The largest user capacity that fits the ticket window of a user lane.
pub const MAX_USER_CAPACITY: usize = 0x4000_0000;

/// `communication::channel` with `Config::new`: two empty lanes and their
/// receiving end, without an aging policy. It panics when the capacity, rounded
/// up to a power of two, does not fit its ticket window. What the handles hold
/// afterwards depends on who sends, so nothing is claimed of them.
#[verifier::external_body]
pub(crate) fn open_channel<E>(user_capacity: usize) -> (lanes: (
    ControlSender<E>,
    UserSender<E>,
    Consumer<E, E>,
))
    requires
        user_capacity <= MAX_USER_CAPACITY,
{
    channel::<E, E>(Config::new(user_capacity))
}

/// `communication::mailbox_channel` with `Config::new`: two empty lanes whose
/// user admission has one owner. It panics when the capacity, rounded up to a
/// power of two, does not fit its ticket window. What the handles hold
/// afterwards depends on who sends, so nothing is claimed of them.
#[verifier::external_body]
pub(crate) fn open_mailbox<C, U>(user_capacity: usize) -> (mailbox: (
    ControlSender<C>,
    MailboxOwner<U>,
    MailboxRef<U>,
    Consumer<C, U>,
))
    requires
        user_capacity <= MAX_USER_CAPACITY,
{
    mailbox_channel::<C, U>(Config::new(user_capacity))
}

/// `communication::ControlSender::send`: enqueue a control item, or hand the
/// same item back because the receiving end is gone. Which of the two depends
/// on the receiver.
#[verifier::external_body]
pub(crate) fn enqueue_control<C>(control: &ControlSender<C>, item: C) -> (sent: Result<(), C>)
    ensures
        sent matches Err(rejected) ==> rejected == item,
{
    control.send(item).map_err(|closed| closed.0)
}

/// `communication::UserSender::anchor`: a handle to the same user lane that
/// does not keep it open. Nothing is claimed of the handle.
#[verifier::external_body]
pub(crate) fn anchor_of<U>(user: &UserSender<U>) -> (anchor: UserAnchor<U>) {
    user.anchor()
}

/// `communication::MailboxOwner::close_admission`: no later delivery is
/// admitted. The owner is consumed; nothing comes back.
#[verifier::external_body]
pub(crate) fn close_owner<U>(owner: MailboxOwner<U>) {
    owner.close_admission();
}

/// `communication::Consumer::drain`: close both lanes and take what is queued,
/// each lane in order of admission. What is queued depends on who sent, so
/// nothing is claimed of it.
#[verifier::external_body]
pub(crate) fn drain_lanes<C, U>(consumer: Consumer<C, U>) -> (queued: (Vec<C>, Vec<U>)) {
    let drained = consumer.drain();
    (drained.control, drained.user)
}

/// Whether these are the ends of one pair of lanes that was opened with this
/// bound of the user lane.
pub closed spec fn opened<E>(
    user_capacity: usize,
    control: ControlSender<E>,
    user: UserSender<E>,
    consumer: Consumer<E, E>,
) -> bool {
    call_ensures(open_channel::<E>, (user_capacity,), (control, user, consumer))
}

/// Whether these are the ends of one mailbox that was opened with this bound of
/// the user lane: `owner` governs who is admitted through `mailbox`.
pub closed spec fn opened_mailbox<C, U>(
    user_capacity: usize,
    control: ControlSender<C>,
    owner: MailboxOwner<U>,
    mailbox: MailboxRef<U>,
    consumer: Consumer<C, U>,
) -> bool {
    call_ensures(open_mailbox::<C, U>, (user_capacity,), (control, owner, mailbox, consumer))
}

/// Whether the admission that this owner governs was closed.
pub closed spec fn admission_closed<U>(owner: MailboxOwner<U>) -> bool {
    call_ensures(close_owner::<U>, (owner,), ())
}

/// Whether admission to this user lane was closed by the one owner that was
/// opened with it.
pub open spec fn lane_closed<C, U>(mailbox: MailboxRef<U>) -> bool {
    exists|
        user_capacity: usize,
        control: ControlSender<C>,
        owner: MailboxOwner<U>,
        consumer: Consumer<C, U>,
    | #[trigger]
        opened_mailbox(user_capacity, control, owner, mailbox, consumer) && admission_closed(owner)
}

/// Whether a non-owning handle was derived from this user lane.
pub closed spec fn anchored<U>(user: UserSender<U>, anchor: UserAnchor<U>) -> bool {
    call_ensures(anchor_of::<U>, (&user,), anchor)
}

/// Whether the control lane answered like this when it was sent this item.
pub closed spec fn answered<C>(control: ControlSender<C>, item: C, sent: Result<(), C>) -> bool {
    call_ensures(enqueue_control::<C>, (&control, item), sent)
}

/// Whether this is what was queued when the lanes were drained.
pub closed spec fn drained<C, U>(consumer: Consumer<C, U>, control: Vec<C>, user: Vec<U>) -> bool {
    call_ensures(drain_lanes::<C, U>, (consumer,), (control, user))
}

/// The ends of a fresh mailbox belong together.
pub(crate) proof fn lemma_opened_mailbox<C, U>(
    user_capacity: usize,
    control: ControlSender<C>,
    owner: MailboxOwner<U>,
    mailbox: MailboxRef<U>,
    consumer: Consumer<C, U>,
)
    requires
        call_ensures(open_mailbox::<C, U>, (user_capacity,), (control, owner, mailbox, consumer)),
    ensures
        opened_mailbox(user_capacity, control, owner, mailbox, consumer),
{
}

/// An owner that was consumed has closed its admission.
pub(crate) proof fn lemma_admission_closed<U>(owner: MailboxOwner<U>)
    requires
        call_ensures(close_owner::<U>, (owner,), ()),
    ensures
        admission_closed(owner),
{
}

/// The result of a send is the answer of the control lane.
pub(crate) proof fn lemma_answered<C>(control: ControlSender<C>, item: C, sent: Result<(), C>)
    requires
        call_ensures(enqueue_control::<C>, (&control, item), sent),
    ensures
        answered(control, item, sent),
{
}

/// The result of a drain is what was queued.
pub(crate) proof fn lemma_drained<C, U>(
    consumer: Consumer<C, U>,
    control: Vec<C>,
    user: Vec<U>,
)
    requires
        call_ensures(drain_lanes::<C, U>, (consumer,), (control, user)),
    ensures
        drained(consumer, control, user),
{
}

/// What the receiving end yields.
#[derive(Debug, Clone, Copy, PartialEq, Eq)]
pub enum Received<C, U> {
    /// A control-lane item.
    Control(C),
    /// A user-lane item.
    User(U),
    /// The user lane is terminally closed and drained.
    UserLaneClosed,
}

/// Configuration for bounded actor user mailboxes.
///
/// Every waiting control event precedes every waiting user event. User events
/// are served in order of admission. The user lane is bounded: senders wait
/// while it is full, and get their event back if retirement closes it.
#[derive(Debug, Clone, Copy)]
pub struct MailboxConfig {
    user_capacity: usize,
}

impl View for MailboxConfig {
    type V = usize;

    /// The bound of the user lane.
    closed spec fn view(&self) -> usize {
        self.user_capacity
    }
}

impl MailboxConfig {
    /// Construct a bounded user input.
    pub fn bounded(user_capacity: usize) -> (config: Self)
        ensures
            config@ == user_capacity,
    {
        MailboxConfig { user_capacity }
    }

    /// Create one sender and source pair with this configuration: the two ends
    /// of one fresh mailbox.
    pub fn create<E>(&self) -> (ends: (MailboxSender<E>, MailboxReceiver<E>))
        requires
            self@ <= MAX_USER_CAPACITY,
        ensures
            opened(self@, ends.0.control_lane(), ends.0.user_lane(), ends.1.lanes()),
    {
        let (control, user, consumer) = open_channel::<E>(self.user_capacity);
        (MailboxSender { control, user }, MailboxReceiver { consumer })
    }
}

/// Counting edge handle for bounded user delivery.
#[verifier::reject_recursive_types(E)]
pub struct MailboxSender<E> {
    control: ControlSender<E>,
    user: UserSender<E>,
}

impl<E> MailboxSender<E> {
    /// The control lane.
    pub closed spec fn control_lane(&self) -> ControlSender<E> {
        self.control
    }

    /// The user lane.
    pub closed spec fn user_lane(&self) -> UserSender<E> {
        self.user
    }

    /// Derive a non-owning user endpoint suitable for address registration.
    pub fn anchor(&self) -> (anchor: MailboxAnchor<E>)
        ensures
            anchored(self.user_lane(), anchor.user_lane()),
    {
        MailboxAnchor { anchor: anchor_of(&self.user) }
    }

    /// Submit one already-formed priority event without user backpressure: the
    /// answer is that of the control lane to this event. A receiver that is gone
    /// returns that exact event.
    pub fn send_control(&self, event: E) -> (sent: Result<(), E>)
        ensures
            answered(self.control_lane(), event, sent),
            sent matches Err(rejected) ==> rejected == event,
    {
        enqueue_control(&self.control, event)
    }

    /// The user lane.
    pub fn user(&self) -> (user: &UserSender<E>)
        ensures
            *user == self.user_lane(),
    {
        &self.user
    }
}

/// Non-owning address-table endpoint; it cannot keep the user lane alive.
#[verifier::reject_recursive_types(E)]
pub struct MailboxAnchor<E> {
    anchor: UserAnchor<E>,
}

impl<E> MailboxAnchor<E> {
    /// The user lane.
    pub closed spec fn user_lane(&self) -> UserAnchor<E> {
        self.anchor
    }

    /// The user lane.
    pub fn user(&self) -> (anchor: &UserAnchor<E>)
        ensures
            *anchor == self.user_lane(),
    {
        &self.anchor
    }
}

/// Actor-owned bounded user event source.
#[verifier::reject_recursive_types(E)]
pub struct MailboxReceiver<E> {
    consumer: Consumer<E, E>,
}

impl<E> MailboxReceiver<E> {
    /// The receiving end of both lanes.
    pub closed spec fn lanes(&self) -> Consumer<E, E> {
        self.consumer
    }

    /// The receiving end of both lanes.
    pub fn into_consumer(self) -> (consumer: Consumer<E, E>)
        ensures
            consumer == self.lanes(),
    {
        self.consumer
    }
}

/// The next event of a source whose receiving end yielded `received`: an item
/// of either lane is an event, and a closed user lane ends the source.
pub fn next_event<E>(received: Option<Received<E, E>>) -> (event: Option<E>)
    ensures
        event == match received {
            Some(Received::Control(event)) => Some(event),
            Some(Received::User(event)) => Some(event),
            Some(Received::UserLaneClosed) => None,
            None => None,
        },
{
    match received {
        Some(Received::Control(event)) => Some(event),
        Some(Received::User(event)) => Some(event),
        Some(Received::UserLaneClosed) => None,
        None => None,
    }
}

} // verus!
