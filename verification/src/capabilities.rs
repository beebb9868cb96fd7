//! Local interpretation of the actions of one actor.

use communication::ControlSender;
use vstd::prelude::*;

use crate::address::{
    after_allocation, allocation, AllocationRejection, ApplicationAddresses, MailAddr,
};
use crate::child_bindings::{
    BindingModel, BoundChild, ChildBinding, CreationBinding, CreationKind, Location,
};
use crate::creation::{CreateChild, RoutedCreation};
use crate::launch::SpawnError;
use crate::local::admission::ShutdownRejection;
use crate::local::environment::ClaimError;
use crate::mailbox::{answered, enqueue_control, lemma_answered};
use crate::observation::{FactQueue, FactSource, ObservationError, PendingFact};
use crate::settlement::{InterpreterFault, ItemSettlement};

verus! {

/// Complete semantic rejection of one staged creation.
#[derive(Debug, Clone, Copy, PartialEq, Eq, Structural)]
pub enum CreationRejection {
    /// Fresh address allocation failed.
    Allocation(AllocationRejection),
    /// Installation failed after allocation.
    EnvironmentFailed,
}

/// What came of one creation that the interpreter consumed.
#[derive(Debug)]
pub enum ChildCreationOutcome<N, F, I, E> {
    /// The child is live, and `endpoint` delivers to it.
    Established { id: u64, kind: CreationKind, endpoint: E },
    /// The child's initialization rejected it.
    InitializationRejected { creation: RoutedCreation<N>, error: F },
    /// The address space refused the child, whose initialization had succeeded.
    HostRejected { creation: RoutedCreation<N>, initialization: I, reason: CreationRejection },
}

/// A child that was launched: `E` delivers messages to it, `C` control events,
/// and `T` is its task.
#[derive(Debug)]
pub struct InstalledChild<E, C, T> {
    /// Delivers messages.
    pub endpoint: E,
    /// Delivers control events.
    pub control: C,
    /// The task.
    pub task: T,
}

/// The rejection that a refused claim amounts to.
pub open spec fn claim_rejection(error: ClaimError) -> CreationRejection {
    match error {
        ClaimError::AddressInUse(_) => CreationRejection::Allocation(
            AllocationRejection::AddressAlreadyClaimed,
        ),
        ClaimError::RegistrationIdsExhausted(_) => CreationRejection::EnvironmentFailed,
    }
}

/// The rejection that a refused claim amounts to.
pub fn classify_claim(error: ClaimError) -> (reason: CreationRejection)
    ensures
        reason == claim_rejection(error),
{
    match error {
        ClaimError::AddressInUse(_) => CreationRejection::Allocation(
            AllocationRejection::AddressAlreadyClaimed,
        ),
        ClaimError::RegistrationIdsExhausted(_) => CreationRejection::EnvironmentFailed,
    }
}

/// A child that is being launched.
#[derive(Debug, Clone, Copy, PartialEq, Eq, Structural)]
pub struct Establishing {
    /// Its creation.
    pub id: u64,
    /// Why it is created.
    pub kind: CreationKind,
    /// Its route.
    pub route: u64,
    /// Its address.
    pub address: MailAddr,
}

/// The settlement of one creation.
pub type CreationSettlement<N, F, I, E> = ItemSettlement<
    RoutedCreation<N>,
    ChildCreationOutcome<N, F, I, E>,
    CreationRejection,
    u64,
>;

/// Begin to establish a child: it gets the next address of the application.
/// The request comes back as it was when no address is left.
pub fn begin_establishment<N, F, I, E, C, T>(
    bindings: &mut ChildBinding<E, C, T>,
    addresses: &mut ApplicationAddresses,
    creation: RoutedCreation<N>,
) -> (begun: Result<(Establishing, N), CreationSettlement<N, F, I, E>>)
    ensures
        final(addresses)@ == after_allocation(old(addresses)@),
        match allocation(old(addresses)@) {
            Ok(address) => {
                &&& begun == Ok::<(Establishing, N), CreationSettlement<N, F, I, E>>(
                    (
                        Establishing {
                            id: creation.creation.id,
                            kind: creation.creation.kind,
                            route: creation.route,
                            address,
                        },
                        creation.creation.child,
                    ),
                )
                &&& final(bindings)@ == old(bindings)@
            },
            Err(reason) => {
                &&& begun == Err::<(Establishing, N), CreationSettlement<N, F, I, E>>(
                    ItemSettlement::Rejected {
                        item: creation,
                        reason: CreationRejection::Allocation(reason),
                    },
                )
                &&& final(bindings)@ == old(bindings)@.rejected(creation.creation.id)
            },
        },
{
    let RoutedCreation { creation: CreateChild { id, child, kind }, route } = creation;
    match addresses.allocate() {
        Ok(address) => Ok((Establishing { id, kind, route, address }, child)),
        Err(reason) => {
            bindings.record_creation(id, CreationBinding::Rejected);
            Err(
                ItemSettlement::Rejected {
                    item: RoutedCreation { creation: CreateChild { id, child, kind }, route },
                    reason: CreationRejection::Allocation(reason),
                },
            )
        },
    }
}

impl Establishing {
    /// The request that the child was launched for.
    pub open spec fn request<N>(self, child: N) -> RoutedCreation<N> {
        RoutedCreation {
            creation: CreateChild { id: self.id, child, kind: self.kind },
            route: self.route,
        }
    }
}

/// Whether the launch of a child can be settled: it did not panic or end, and a
/// child that never ran took no message and has no descendant.
pub open spec fn recoverable<N, F, I, Ev, M, X, E, C, T>(
    launched: Result<InstalledChild<E, C, T>, SpawnError<N, F, I, Ev, M, Vec<X>>>,
) -> bool {
    match launched {
        Ok(_) => true,
        Err(SpawnError::AllocationRejected { .. }) => true,
        Err(SpawnError::InitializationRejected { control, user, descendants, .. }) =>
            control@.len() == 0 && user@.len() == 0 && descendants@.len() == 0,
        Err(SpawnError::HostRejected { control, user, descendants, .. }) => control@.len() == 0
            && user@.len() == 0 && descendants@.len() == 0,
        Err(_) => false,
    }
}

/// Whether the launch of a child can be settled.
pub fn is_recoverable<N, F, I, Ev, M, X, E, C, T>(
    launched: &Result<InstalledChild<E, C, T>, SpawnError<N, F, I, Ev, M, Vec<X>>>,
) -> (yes: bool)
    ensures
        yes == recoverable(*launched),
{
    match launched {
        Ok(_) => true,
        Err(failure) => match failure {
            SpawnError::AllocationRejected { .. } => true,
            SpawnError::InitializationRejected { control, user, descendants, .. } => control.len()
                == 0 && user.len() == 0 && descendants.len() == 0,
            SpawnError::HostRejected { control, user, descendants, .. } => control.len() == 0
                && user.len() == 0 && descendants.len() == 0,
            SpawnError::Panicked => false,
            SpawnError::Cancelled => false,
            SpawnError::Ended(_) => false,
        },
    }
}

/// The settlement of a creation whose child was launched.
pub open spec fn creation_settlement<N, F, I, Ev, M, X, E, C, T>(
    child: Establishing,
    launched: Result<InstalledChild<E, C, T>, SpawnError<N, F, I, Ev, M, Vec<X>>>,
) -> CreationSettlement<N, F, I, E> {
    match launched {
        Ok(installed) => ItemSettlement::Accepted(
            ChildCreationOutcome::Established {
                id: child.id,
                kind: child.kind,
                endpoint: installed.endpoint,
            },
        ),
        Err(SpawnError::AllocationRejected { behavior, reason }) => ItemSettlement::Rejected {
            item: child.request(behavior),
            reason: CreationRejection::Allocation(reason),
        },
        Err(SpawnError::InitializationRejected { behavior, error, .. }) => ItemSettlement::Accepted(
            ChildCreationOutcome::InitializationRejected {
                creation: child.request(behavior),
                error,
            },
        ),
        Err(SpawnError::HostRejected { behavior, initialization, error, .. }) =>
            ItemSettlement::Accepted(
            ChildCreationOutcome::HostRejected {
                creation: child.request(behavior),
                initialization,
                reason: claim_rejection(error),
            },
        ),
        Err(_) => arbitrary(),
    }
}

/// Settle the creation of a child that was launched.
///
/// A live child is bound to its route and its creation, and its task is kept.
/// A child that was rejected comes back whole, and its creation is known to
/// have been rejected.
pub fn finish_establishment<N, F, I, Ev, M, X, E: Clone, C, T>(
    bindings: &mut ChildBinding<E, C, T>,
    child: Establishing,
    launched: Result<InstalledChild<E, C, T>, SpawnError<N, F, I, Ev, M, Vec<X>>>,
) -> (settlement: CreationSettlement<N, F, I, E>)
    requires
        launched is Ok ==> !old(bindings)@.endpoints.contains_key(child.route),
        recoverable(launched),
    ensures
        match launched {
            Ok(installed) => settlement matches ItemSettlement::Accepted(
                ChildCreationOutcome::Established { id, kind, endpoint },
            ) && id == child.id && kind == child.kind && cloned(installed.endpoint, endpoint),
            Err(_) => settlement == creation_settlement(child, launched),
        },
        final(bindings)@ == match launched {
            Ok(installed) => old(bindings)@.established(
                child.id,
                child.kind,
                child.route,
                BoundChild { endpoint: installed.endpoint, control: installed.control },
                installed.task,
            ),
            Err(_) => old(bindings)@.rejected(child.id),
        },
{
    let Establishing { id, kind, route, .. } = child;
    match launched {
        Ok(installed) => {
            let endpoint = installed.endpoint.clone();
            bindings.bind(route, installed.endpoint, installed.control);
            bindings.retain_task(installed.task);
            bindings.record_creation(id, CreationBinding::Established { route, kind });
            ItemSettlement::Accepted(ChildCreationOutcome::Established { id, kind, endpoint })
        },
        Err(failure) => {
            bindings.record_creation(id, CreationBinding::Rejected);
            match failure {
                SpawnError::AllocationRejected { behavior, reason } => ItemSettlement::Rejected {
                    item: RoutedCreation {
                        creation: CreateChild { id, child: behavior, kind },
                        route,
                    },
                    reason: CreationRejection::Allocation(reason),
                },
                SpawnError::InitializationRejected { behavior, error, .. } => {
                    ItemSettlement::Accepted(
                        ChildCreationOutcome::InitializationRejected {
                            creation: RoutedCreation {
                                creation: CreateChild { id, child: behavior, kind },
                                route,
                            },
                            error,
                        },
                    )
                },
                SpawnError::HostRejected { behavior, initialization, error, .. } => {
                    ItemSettlement::Accepted(
                        ChildCreationOutcome::HostRejected {
                            creation: RoutedCreation {
                                creation: CreateChild { id, child: behavior, kind },
                                route,
                            },
                            initialization,
                            reason: classify_claim(error),
                        },
                    )
                },
                SpawnError::Panicked => vstd::pervasive::unreached(),
                SpawnError::Cancelled => vstd::pervasive::unreached(),
                SpawnError::Ended(_) => vstd::pervasive::unreached(),
            }
        },
    }
}

/// A message for the child of one creation.
#[derive(Debug)]
pub struct ChildDelivery<M> {
    /// The creation.
    pub creation: u64,
    /// The message.
    pub message: M,
}

/// Why a message for a child was not delivered.
#[derive(Debug, Clone, Copy, PartialEq, Eq, Structural)]
pub enum ChildDeliveryReason {
    /// There is no such child.
    MissingBinding,
    /// The child takes no more messages.
    ClosedRecipient,
}

/// Why an input for a child was not delivered.
#[derive(Debug, Clone, Copy, PartialEq, Eq, Structural)]
pub enum ChildInputReason {
    /// There is no such child.
    MissingBinding,
}

/// The settlement of one delivery to a child.
pub type DeliverySettlement<M> = ItemSettlement<ChildDelivery<M>, (), ChildDeliveryReason, u64>;

/// The settlement of one input for a child.
pub type InputSettlement<M> = ItemSettlement<ChildDelivery<M>, (), ChildInputReason, u64>;

/// The child that a message is for, and the message; or the settlement of a
/// delivery that has no recipient.
pub fn begin_delivery<'a, M, E, C, T>(
    bindings: &'a ChildBinding<E, C, T>,
    delivery: ChildDelivery<M>,
) -> (begun: Result<(&'a E, ChildDelivery<M>), DeliverySettlement<M>>)
    ensures
        match bindings@.location(delivery.creation) {
            Location::Bound(child) => begun matches Ok((endpoint, kept)) && *endpoint
                == child.endpoint && kept == delivery,
            Location::Rejected => begun == Err::<
                (&E, ChildDelivery<M>),
                DeliverySettlement<M>,
            >(ItemSettlement::Blocked { item: delivery, prerequisite: delivery.creation }),
            Location::Unknown | Location::Unbound => begun == Err::<
                (&E, ChildDelivery<M>),
                DeliverySettlement<M>,
            >(
                ItemSettlement::Rejected {
                    item: delivery,
                    reason: ChildDeliveryReason::MissingBinding,
                },
            ),
        },
{
    let creation: u64 = delivery.creation;
    match bindings.recipient(creation, delivery, ChildDeliveryReason::MissingBinding) {
        Ok((bound, delivery)) => Ok((&bound.endpoint, delivery)),
        Err(settlement) => Err(settlement),
    }
}

/// Settle a delivery that was sent, or whose message came back because the
/// child takes no more.
pub fn finish_delivery<M>(creation: u64, sent: Result<(), M>) -> (settlement: DeliverySettlement<M>)
    ensures
        settlement == match sent {
            Ok(_) => DeliverySettlement::<M>::Accepted(()),
            Err(message) => DeliverySettlement::<M>::Rejected {
                item: ChildDelivery { creation, message },
                reason: ChildDeliveryReason::ClosedRecipient,
            },
        },
{
    match sent {
        Ok(_) => ItemSettlement::Accepted(()),
        Err(message) => ItemSettlement::Rejected {
            item: ChildDelivery { creation, message },
            reason: ChildDeliveryReason::ClosedRecipient,
        },
    }
}

/// The child whose control lane an input is for, and the input; or the
/// settlement of an input that has no recipient.
pub fn begin_input<'a, M, E, C, T>(
    bindings: &'a ChildBinding<E, C, T>,
    input: ChildDelivery<M>,
) -> (begun: Result<(&'a C, ChildDelivery<M>), InputSettlement<M>>)
    ensures
        match bindings@.location(input.creation) {
            Location::Bound(child) => begun matches Ok((control, kept)) && *control
                == child.control && kept == input,
            Location::Rejected => begun == Err::<(&C, ChildDelivery<M>), InputSettlement<M>>(
                ItemSettlement::Blocked { item: input, prerequisite: input.creation },
            ),
            Location::Unknown | Location::Unbound => begun == Err::<
                (&C, ChildDelivery<M>),
                InputSettlement<M>,
            >(
                ItemSettlement::Rejected { item: input, reason: ChildInputReason::MissingBinding },
            ),
        },
{
    let creation: u64 = input.creation;
    match bindings.recipient(creation, input, ChildInputReason::MissingBinding) {
        Ok((bound, input)) => Ok((&bound.control, input)),
        Err(settlement) => Err(settlement),
    }
}

/// What comes of an input whose event the control lane answered like this: it
/// is accepted, or that event comes back.
pub open spec fn input_delivered<M, Ev>(event: Ev, sent: Result<(), Ev>) -> Result<
    InputSettlement<M>,
    Ev,
> {
    match sent {
        Ok(_) => Ok(ItemSettlement::Accepted(())),
        Err(_) => Err(event),
    }
}

/// Deliver an input to the child whose control lane it is for. `inject` makes
/// the event of it. The event comes back when that lane is closed, which the
/// lane of an owned child is not while it is bound.
pub fn interpret_input<M, Ev, E, T, F: Fn(M) -> Ev>(
    bindings: &ChildBinding<E, ControlSender<Ev>, T>,
    input: ChildDelivery<M>,
    inject: F,
) -> (delivered: Result<InputSettlement<M>, Ev>)
    requires
        call_requires(inject, (input.message,)),
    ensures
        match bindings@.location(input.creation) {
            Location::Bound(child) => exists|event: Ev, sent: Result<(), Ev>|
                {
                    &&& #[trigger] answered(child.control, event, sent)
                    &&& call_ensures(inject, (input.message,), event)
                    &&& delivered == input_delivered::<M, Ev>(event, sent)
                },
            Location::Rejected => delivered == Ok::<InputSettlement<M>, Ev>(
                ItemSettlement::Blocked { item: input, prerequisite: input.creation },
            ),
            Location::Unknown | Location::Unbound => delivered == Ok::<InputSettlement<M>, Ev>(
                ItemSettlement::Rejected { item: input, reason: ChildInputReason::MissingBinding },
            ),
        },
{
    match begin_input(bindings, input) {
        Ok((control, input)) => {
            let event = inject(input.message);
            let ghost injected = event;
            let sent = enqueue_control(control, event);
            proof {
                lemma_answered(*control, injected, sent);
            }
            match sent {
                Ok(_) => Ok(ItemSettlement::Accepted(())),
                Err(event) => Err(event),
            }
        },
        Err(settlement) => Ok(settlement),
    }
}

/// Return a fact to the actor through its own control lane. `inject` makes the
/// event of it, and the answer is that of the lane to this event. The event
/// comes back when the lane is closed, which it is not while the effects of the
/// actor commit.
pub fn return_fact<Fact, Ev, F: Fn(Fact) -> Ev>(
    control: &ControlSender<Ev>,
    fact: Fact,
    inject: F,
) -> (returned: Result<(), Ev>)
    requires
        call_requires(inject, (fact,)),
    ensures
        exists|event: Ev| #[trigger]
            answered(*control, event, returned) && call_ensures(inject, (fact,), event),
        returned matches Err(event) ==> call_ensures(inject, (fact,), event),
{
    let event = inject(fact);
    let ghost injected = event;
    let answer = enqueue_control(control, event);
    proof {
        lemma_answered(*control, injected, answer);
    }
    answer
}

/// A message for one exact incarnation, which `to` delivers to.
#[derive(Debug)]
pub struct ExactDelivery<R, M> {
    /// The incarnation.
    pub to: R,
    /// The message.
    pub message: M,
}

/// Why a message for an exact incarnation was not delivered.
#[derive(Debug, Clone, Copy, PartialEq, Eq, Structural)]
pub enum ExactDeliveryReason {
    /// The incarnation takes no more messages.
    ClosedRecipient,
}

/// Settle a delivery to an exact incarnation. It never goes to another one.
pub fn finish_exact_delivery<R, M, P>(to: R, sent: Result<(), M>) -> (settlement: ItemSettlement<
    ExactDelivery<R, M>,
    (),
    ExactDeliveryReason,
    P,
>)
    ensures
        match sent {
            Ok(_) => settlement matches ItemSettlement::Accepted(_),
            Err(message) => settlement == (ItemSettlement::<
                ExactDelivery<R, M>,
                (),
                ExactDeliveryReason,
                P,
            >::Rejected {
                item: ExactDelivery { to, message },
                reason: ExactDeliveryReason::ClosedRecipient,
            }),
        },
{
    match sent {
        Ok(_) => ItemSettlement::Accepted(()),
        Err(message) => ItemSettlement::Rejected {
            item: ExactDelivery { to, message },
            reason: ExactDeliveryReason::ClosedRecipient,
        },
    }
}

/// The fact that a creation has been resolved.
#[derive(Debug)]
pub struct CreationResolved<E> {
    /// The creation.
    pub creation: u64,
    /// Why the child was created.
    pub kind: CreationKind,
    /// What delivers to the child.
    pub endpoint: E,
}

/// The settlement of one request about a child, which names it by creation.
pub type SubjectSettlement<R> = ItemSettlement<u64, (), R, u64>;

/// Observe how a creation was resolved. The fact is owed to the actor exactly
/// when the request is accepted.
pub fn observe_creation<R, E: Clone, C, T>(bindings: &ChildBinding<E, C, T>, creation: u64) -> (
observed: (SubjectSettlement<R>, Option<CreationResolved<E>>))
    ensures
        match bindings@.location(creation) {
            Location::Bound(child) => {
                &&& observed.0 == SubjectSettlement::<R>::Accepted(())
                &&& observed.1 matches Some(fact)
                &&& fact.creation == creation
                &&& cloned(child.endpoint, fact.endpoint)
                &&& bindings@.creations[creation] == (CreationBinding::Established {
                    route: bindings@.creations[creation]->route,
                    kind: fact.kind,
                })
            },
            Location::Rejected => observed == (
                SubjectSettlement::<R>::Blocked { item: creation, prerequisite: creation },
                None::<CreationResolved<E>>,
            ),
            Location::Unknown | Location::Unbound => observed == (
                SubjectSettlement::<R>::Corrupt {
                    item: creation,
                    fault: InterpreterFault::MissingCapability,
                },
                None::<CreationResolved<E>>,
            ),
        },
{
    match bindings.subject(creation, creation) {
        Ok((bound, kind, _)) => (
            ItemSettlement::Accepted(()),
            Some(CreationResolved { creation, kind, endpoint: bound.endpoint.clone() }),
        ),
        Err(settlement) => (settlement, None),
    }
}

/// The child that a request to observe or stop one is about, or the settlement
/// of a request that has no subject.
pub fn begin_child_request<'a, R, E, C, T>(bindings: &'a ChildBinding<E, C, T>, creation: u64) -> (
begun: Result<&'a E, SubjectSettlement<R>>)
    ensures
        match bindings@.location(creation) {
            Location::Bound(child) => begun matches Ok(endpoint) && *endpoint == child.endpoint,
            Location::Rejected => begun == Err::<&E, SubjectSettlement<R>>(
                ItemSettlement::Blocked { item: creation, prerequisite: creation },
            ),
            Location::Unknown | Location::Unbound => begun == Err::<&E, SubjectSettlement<R>>(
                ItemSettlement::Corrupt {
                    item: creation,
                    fault: InterpreterFault::MissingCapability,
                },
            ),
        },
{
    match bindings.subject(creation, creation) {
        Ok((bound, _, _)) => Ok(&bound.endpoint),
        Err(settlement) => Err(settlement),
    }
}

/// Go on to observe a child, whose termination `observation` observes.
pub fn finish_observe_child<R, F, J>(
    facts: &mut FactQueue<F, J>,
    creation: u64,
    observation: F,
    inject: J,
) -> (settlement: SubjectSettlement<R>)
    ensures
        settlement == SubjectSettlement::<R>::Accepted(()),
        final(facts)@ == old(facts)@.push(
            PendingFact { future: observation, source: FactSource::Child(creation), inject },
        ),
{
    facts.insert_child(creation, observation, inject);
    ItemSettlement::Accepted(())
}

/// Why a child was not told to stop.
#[derive(Debug, Clone, Copy, PartialEq, Eq, Structural)]
pub enum ChildShutdownRejection {
    /// It has terminated.
    NotEstablished,
    /// It is on its way out.
    AlreadyStopping,
}

/// Settle a request to stop a child. Its termination is observed exactly when
/// it took the request.
pub fn finish_shutdown_child<F, J>(
    facts: &mut FactQueue<F, J>,
    creation: u64,
    requested: Result<(), ShutdownRejection>,
    observation: F,
    inject: J,
) -> (settlement: SubjectSettlement<ChildShutdownRejection>)
    ensures
        match requested {
            Ok(_) => {
                &&& settlement == SubjectSettlement::<ChildShutdownRejection>::Accepted(())
                &&& final(facts)@ == old(facts)@.push(
                    PendingFact { future: observation, source: FactSource::Child(creation), inject },
                )
            },
            Err(rejection) => {
                &&& final(facts)@ == old(facts)@
                &&& settlement == (SubjectSettlement::<ChildShutdownRejection>::Rejected {
                    item: creation,
                    reason: match rejection {
                        ShutdownRejection::AlreadyStopping =>
                            ChildShutdownRejection::AlreadyStopping,
                        ShutdownRejection::AlreadyStopped => ChildShutdownRejection::NotEstablished,
                    },
                })
            },
        },
{
    match requested {
        Ok(_) => {
            facts.insert_child(creation, observation, inject);
            ItemSettlement::Accepted(())
        },
        Err(ShutdownRejection::AlreadyStopping) => ItemSettlement::Rejected {
            item: creation,
            reason: ChildShutdownRejection::AlreadyStopping,
        },
        Err(ShutdownRejection::AlreadyStopped) => ItemSettlement::Rejected {
            item: creation,
            reason: ChildShutdownRejection::NotEstablished,
        },
    }
}

/// Why a peer is not observed.
#[derive(Debug, Clone, Copy, PartialEq, Eq, Structural)]
pub enum PeerObservationRejection {
    /// Nothing is live at the address.
    UnknownAddress,
}

/// Observe the peer at an address, given what is live there.
pub fn observe_peer<P, F, J>(
    facts: &mut FactQueue<F, J>,
    peer: MailAddr,
    resolved: Option<F>,
    inject: J,
) -> (settlement: ItemSettlement<MailAddr, (), PeerObservationRejection, P>)
    ensures
        match resolved {
            Some(observation) => {
                &&& settlement is Accepted
                &&& final(facts)@ == old(facts)@.push(
                    PendingFact { future: observation, source: FactSource::Peer(peer), inject },
                )
            },
            None => {
                &&& settlement == (ItemSettlement::<
                    MailAddr,
                    (),
                    PeerObservationRejection,
                    P,
                >::Rejected { item: peer, reason: PeerObservationRejection::UnknownAddress })
                &&& final(facts)@ == old(facts)@
            },
        },
{
    match facts.observe(peer, resolved, inject) {
        Ok(_) => ItemSettlement::Accepted(()),
        Err(ObservationError::Unknown(peer)) => ItemSettlement::Rejected {
            item: peer,
            reason: PeerObservationRejection::UnknownAddress,
        },
    }
}

/// Why the timer queue of an actor took no timer.
#[derive(Debug, Clone, Copy, PartialEq, Eq, Structural)]
pub enum TimerError {
    /// The deadline is beyond what the clock can express.
    DeadlineOverflow,
    /// The queue cannot issue another internal generation.
    GenerationExhausted,
    /// The queue cannot issue another insertion sequence.
    SequenceExhausted,
}

/// The receipt for a scheduled timer.
#[derive(Debug, Clone, Copy, PartialEq, Eq, Structural)]
pub struct TimerScheduled {
    /// The timer.
    pub id: u64,
    /// Its generation.
    pub generation: u64,
}

/// A request to schedule a timer. `W` says when it is due.
#[derive(Debug)]
pub struct TimerRequest<W> {
    /// The timer.
    pub id: u64,
    /// Its generation.
    pub generation: u64,
    /// When it is due.
    pub due: W,
}

/// Why a timer with an absolute deadline was not scheduled.
#[derive(Debug, Clone, Copy, PartialEq, Eq, Structural)]
pub enum ScheduleAtRejection {
    /// The queue cannot issue another internal generation.
    QueueGenerationExhausted,
    /// The queue cannot issue another insertion sequence.
    QueueSequenceExhausted,
}

/// Why a timer with a relative delay was not scheduled.
#[derive(Debug, Clone, Copy, PartialEq, Eq, Structural)]
pub enum ScheduleAfterRejection {
    /// The deadline is beyond what the clock can express.
    DeadlineOverflow,
    /// The queue cannot issue another internal generation.
    QueueGenerationExhausted,
    /// The queue cannot issue another insertion sequence.
    QueueSequenceExhausted,
}

/// Settle a request with an absolute deadline, which cannot overflow.
pub fn settle_schedule_at<W, P>(
    request: TimerRequest<W>,
    scheduled: Result<(), TimerError>,
) -> (settlement: ItemSettlement<TimerRequest<W>, TimerScheduled, ScheduleAtRejection, P>)
    requires
        scheduled != Err::<(), TimerError>(TimerError::DeadlineOverflow),
    ensures
        settlement == match scheduled {
            Ok(_) => ItemSettlement::<
                TimerRequest<W>,
                TimerScheduled,
                ScheduleAtRejection,
                P,
            >::Accepted(TimerScheduled { id: request.id, generation: request.generation }),
            Err(error) => ItemSettlement::<
                TimerRequest<W>,
                TimerScheduled,
                ScheduleAtRejection,
                P,
            >::Rejected {
                item: request,
                reason: if error == TimerError::GenerationExhausted {
                    ScheduleAtRejection::QueueGenerationExhausted
                } else {
                    ScheduleAtRejection::QueueSequenceExhausted
                },
            },
        },
{
    match scheduled {
        Ok(_) => ItemSettlement::Accepted(
            TimerScheduled { id: request.id, generation: request.generation },
        ),
        Err(TimerError::GenerationExhausted) => ItemSettlement::Rejected {
            item: request,
            reason: ScheduleAtRejection::QueueGenerationExhausted,
        },
        Err(TimerError::SequenceExhausted) => ItemSettlement::Rejected {
            item: request,
            reason: ScheduleAtRejection::QueueSequenceExhausted,
        },
        Err(TimerError::DeadlineOverflow) => vstd::pervasive::unreached(),
    }
}

/// Settle a request with a relative delay.
pub fn settle_schedule_after<W, P>(
    request: TimerRequest<W>,
    scheduled: Result<(), TimerError>,
) -> (settlement: ItemSettlement<TimerRequest<W>, TimerScheduled, ScheduleAfterRejection, P>)
    ensures
        settlement == match scheduled {
            Ok(_) => ItemSettlement::<
                TimerRequest<W>,
                TimerScheduled,
                ScheduleAfterRejection,
                P,
            >::Accepted(TimerScheduled { id: request.id, generation: request.generation }),
            Err(error) => ItemSettlement::<
                TimerRequest<W>,
                TimerScheduled,
                ScheduleAfterRejection,
                P,
            >::Rejected {
                item: request,
                reason: match error {
                    TimerError::DeadlineOverflow => ScheduleAfterRejection::DeadlineOverflow,
                    TimerError::GenerationExhausted =>
                        ScheduleAfterRejection::QueueGenerationExhausted,
                    TimerError::SequenceExhausted => ScheduleAfterRejection::QueueSequenceExhausted,
                },
            },
        },
{
    match scheduled {
        Ok(_) => ItemSettlement::Accepted(
            TimerScheduled { id: request.id, generation: request.generation },
        ),
        Err(TimerError::DeadlineOverflow) => ItemSettlement::Rejected {
            item: request,
            reason: ScheduleAfterRejection::DeadlineOverflow,
        },
        Err(TimerError::GenerationExhausted) => ItemSettlement::Rejected {
            item: request,
            reason: ScheduleAfterRejection::QueueGenerationExhausted,
        },
        Err(TimerError::SequenceExhausted) => ItemSettlement::Rejected {
            item: request,
            reason: ScheduleAfterRejection::QueueSequenceExhausted,
        },
    }
}

/// A creation that was settled gave its child back or bound it, and never both:
/// what is accepted as established is found by its creation, and everything
/// else leads nowhere.
pub proof fn law_a_settled_creation_is_bound_or_returned<N, F, I, Ev, M, X, E, C, T>(
    bindings: BindingModel<E, C, T>,
    child: Establishing,
    launched: Result<InstalledChild<E, C, T>, SpawnError<N, F, I, Ev, M, Vec<X>>>,
)
    requires
        launched is Ok ==> !bindings.endpoints.contains_key(child.route),
        recoverable(launched),
    ensures
        match launched {
            Ok(installed) => {
                let after = bindings.established(
                    child.id,
                    child.kind,
                    child.route,
                    BoundChild { endpoint: installed.endpoint, control: installed.control },
                    installed.task,
                );
                &&& after.location(child.id) is Bound
                &&& creation_settlement(child, launched).returned() is None
                &&& creation_settlement(child, launched)->Accepted_0 is Established
            },
            Err(failure) => {
                let behavior = match failure {
                    SpawnError::AllocationRejected { behavior, .. } => behavior,
                    SpawnError::InitializationRejected { behavior, .. } => behavior,
                    SpawnError::HostRejected { behavior, .. } => behavior,
                    _ => arbitrary(),
                };
                &&& bindings.rejected(child.id).location(child.id) is Rejected
                &&& match creation_settlement(child, launched) {
                    ItemSettlement::Accepted(
                        ChildCreationOutcome::InitializationRejected { creation, .. },
                    ) => creation == child.request(behavior),
                    ItemSettlement::Accepted(
                        ChildCreationOutcome::HostRejected { creation, .. },
                    ) => creation == child.request(behavior),
                    ItemSettlement::Rejected { item, .. } => item == child.request(behavior),
                    _ => false,
                }
            },
        },
{
}

/// A claim of an address in use is a refused allocation, and any other refused
/// claim a failure of the environment.
pub proof fn law_a_refused_claim_tells_its_reason(error: ClaimError)
    ensures
        claim_rejection(error) == CreationRejection::Allocation(
            AllocationRejection::AddressAlreadyClaimed,
        ) <==> error is AddressInUse,
        claim_rejection(error) == CreationRejection::EnvironmentFailed
            <==> error is RegistrationIdsExhausted,
{
}

/// A launch can be settled unless it panicked, was cancelled or ended, or the
/// rejected child left a message or a descendant behind.
pub proof fn law_a_launch_without_leftovers_can_be_settled<N, F, I, Ev, M, X, E, C, T>(
    launched: Result<InstalledChild<E, C, T>, SpawnError<N, F, I, Ev, M, Vec<X>>>,
)
    ensures
        launched is Ok ==> recoverable(launched),
        launched matches Err(failure) ==> {
            &&& failure is AllocationRejected ==> recoverable(launched)
            &&& failure is Panicked || failure is Cancelled || failure is Ended ==> !recoverable(
                launched,
            )
            &&& failure matches SpawnError::InitializationRejected {
                control,
                user,
                descendants,
                ..
            } ==> (recoverable(launched) <==> control@.len() + user@.len() + descendants@.len()
                == 0)
            &&& failure matches SpawnError::HostRejected { control, user, descendants, .. } ==> (
            recoverable(launched) <==> control@.len() + user@.len() + descendants@.len() == 0)
        },
{
}

/// A child that was not established comes back in the request that asked for it,
/// under its creation, its kind and its route, and with the reason for which it
/// was refused.
pub proof fn law_a_refused_child_comes_back_with_its_reason<N, F, I, Ev, M, X, E, C, T>(
    child: Establishing,
    launched: Result<InstalledChild<E, C, T>, SpawnError<N, F, I, Ev, M, Vec<X>>>,
    behavior: N,
)
    ensures
        child.request(behavior).creation.id == child.id,
        child.request(behavior).creation.kind == child.kind,
        child.request(behavior).creation.child == behavior,
        child.request(behavior).route == child.route,
        launched matches Err(SpawnError::AllocationRejected { behavior: rejected, reason })
            ==> creation_settlement(child, launched) == (CreationSettlement::<
            N,
            F,
            I,
            E,
        >::Rejected {
            item: child.request(rejected),
            reason: CreationRejection::Allocation(reason),
        }),
        launched matches Err(
            SpawnError::InitializationRejected { behavior: rejected, error: failure, .. },
        ) ==> creation_settlement(child, launched) == CreationSettlement::<N, F, I, E>::Accepted(
            ChildCreationOutcome::InitializationRejected {
                creation: child.request(rejected),
                error: failure,
            },
        ),
        launched matches Err(
            SpawnError::HostRejected { behavior: rejected, initialization: kept, error: refused, .. },
        ) ==> {
            &&& creation_settlement(child, launched) matches ItemSettlement::Accepted(
                ChildCreationOutcome::HostRejected { creation, initialization, reason },
            )
            &&& creation == child.request(rejected)
            &&& initialization == kept
            &&& refused is AddressInUse ==> reason == CreationRejection::Allocation(
                AllocationRejection::AddressAlreadyClaimed,
            )
            &&& refused is RegistrationIdsExhausted ==> reason
                == CreationRejection::EnvironmentFailed
        },
{
}

/// An input is accepted when the lane took its event, and else that event comes
/// back.
pub proof fn law_an_input_is_accepted_or_comes_back<M, Ev>(event: Ev, sent: Result<(), Ev>)
    ensures
        sent is Ok ==> input_delivered::<M, Ev>(event, sent) == Ok::<InputSettlement<M>, Ev>(
            ItemSettlement::Accepted(()),
        ),
        sent is Err ==> input_delivered::<M, Ev>(event, sent) == Err::<InputSettlement<M>, Ev>(
            event,
        ),
{
}

/// A timer is accepted exactly when the queue took it, under its own identity
/// and generation. A refused request comes back whole and with the reason that
/// the queue gave, whether its deadline is absolute or relative.
pub proof fn law_a_timer_is_scheduled_or_comes_back<W, P>(
    request: TimerRequest<W>,
    scheduled: Result<(), TimerError>,
    at: ItemSettlement<TimerRequest<W>, TimerScheduled, ScheduleAtRejection, P>,
    after: ItemSettlement<TimerRequest<W>, TimerScheduled, ScheduleAfterRejection, P>,
)
    requires
        scheduled != Err::<(), TimerError>(TimerError::DeadlineOverflow) ==> call_ensures(
            settle_schedule_at::<W, P>,
            (request, scheduled),
            at,
        ),
        call_ensures(settle_schedule_after::<W, P>, (request, scheduled), after),
    ensures
        after is Accepted <==> scheduled is Ok,
        after matches ItemSettlement::Accepted(receipt) ==> receipt.id == request.id
            && receipt.generation == request.generation,
        scheduled matches Err(error) ==> {
            &&& after matches ItemSettlement::Rejected { item, reason }
            &&& item == request
            &&& reason == ScheduleAfterRejection::DeadlineOverflow
                <==> error == TimerError::DeadlineOverflow
            &&& reason == ScheduleAfterRejection::QueueGenerationExhausted
                <==> error == TimerError::GenerationExhausted
            &&& reason == ScheduleAfterRejection::QueueSequenceExhausted
                <==> error == TimerError::SequenceExhausted
        },
        scheduled is Ok ==> at == (ItemSettlement::<
            TimerRequest<W>,
            TimerScheduled,
            ScheduleAtRejection,
            P,
        >::Accepted(after->Accepted_0)),
        scheduled matches Err(error) ==> error != TimerError::DeadlineOverflow ==> {
            &&& at matches ItemSettlement::Rejected { item, reason }
            &&& item == request
            &&& reason == ScheduleAtRejection::QueueGenerationExhausted
                <==> error == TimerError::GenerationExhausted
            &&& reason == ScheduleAtRejection::QueueSequenceExhausted
                <==> error == TimerError::SequenceExhausted
        },
{
}

/// A message that its recipient did not take comes back whole, for the child or
/// the incarnation that it was for, and one that was taken does not.
pub proof fn law_an_undelivered_message_comes_back<R, M, P>(
    creation: u64,
    to: R,
    sent: Result<(), M>,
    delivered: DeliverySettlement<M>,
    exact: ItemSettlement<ExactDelivery<R, M>, (), ExactDeliveryReason, P>,
)
    requires
        call_ensures(finish_delivery::<M>, (creation, sent), delivered),
        call_ensures(finish_exact_delivery::<R, M, P>, (to, sent), exact),
    ensures
        sent is Ok ==> delivered is Accepted && exact is Accepted,
        sent matches Err(message) ==> {
            &&& delivered.returned() == Some(ChildDelivery { creation, message })
            &&& exact.returned() == Some(ExactDelivery { to, message })
        },
{
}

} // verus!
