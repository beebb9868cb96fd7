//! Assembly, startup and end of one local application.

use behavior::CreationSequence;
use vstd::prelude::*;

use crate::actor_interface::ActorInterface;
use crate::address::AllocationRejection;
use crate::authoring::Step;
use crate::creation::{
    fresh_sequence, left, stage_children, staged, upcoming, CreateChild, NonceExhausted,
};
use crate::entity::directory::{DirectoryConfig, DirectoryError};
use crate::entity::family::EntityCapacity;
use crate::entity::shards::is_power_of_two;
use crate::launch::{OwnedActor, SpawnError};
use crate::local::environment::ClaimError;
use crate::outcome::Completion;

verus! {

/// Failure at the complete local application boundary. `E` is the failure of
/// the root, `X` one of the executor.
#[derive(Debug)]
pub enum RunError<E, X> {
    /// The application executor could not be constructed.
    Runtime(X),
    /// The root address source rejected allocation.
    AllocationRejected(AllocationRejection),
    /// The root's controlled initialization failed.
    InitializationRejected(E),
    /// The root's address could not be claimed.
    HostRejected(ClaimError),
    /// The root task panicked before activation.
    Panicked,
    /// The root task was cancelled before activation.
    Cancelled,
    /// The root stopped before publishing its live reference.
    Ended(Completion),
    /// The running application was initialized more than once.
    InitializedTwice,
    /// No creator-local identity remained for an application actor.
    NonceExhausted,
}

impl<E, X> RunError<E, X> {
    /// The name of the failure.
    pub fn name(&self) -> (name: &'static str)
        ensures
            name@ == match self {
                RunError::Runtime(_) => "Runtime"@,
                RunError::AllocationRejected(_) => "AllocationRejected"@,
                RunError::InitializationRejected(_) => "InitializationRejected"@,
                RunError::HostRejected(_) => "HostRejected"@,
                RunError::Panicked => "Panicked"@,
                RunError::Cancelled => "Cancelled"@,
                RunError::Ended(_) => "Ended"@,
                RunError::InitializedTwice => "InitializedTwice"@,
                RunError::NonceExhausted => "NonceExhausted"@,
            },
    {
        match self {
            RunError::Runtime(_) => "Runtime",
            RunError::AllocationRejected(_) => "AllocationRejected",
            RunError::InitializationRejected(_) => "InitializationRejected",
            RunError::HostRejected(_) => "HostRejected",
            RunError::Panicked => "Panicked",
            RunError::Cancelled => "Cancelled",
            RunError::Ended(_) => "Ended",
            RunError::InitializedTwice => "InitializedTwice",
            RunError::NonceExhausted => "NonceExhausted",
        }
    }

    /// The failure in words.
    pub open spec fn text(&self) -> &'static str {
        match self {
            RunError::Runtime(_) => "Bombay could not construct its Tokio runtime",
            RunError::AllocationRejected(_) => "the root address source rejected allocation",
            RunError::InitializationRejected(_) => "the root rejected initialization",
            RunError::HostRejected(_) => "the actor host rejected root initialization",
            RunError::Panicked => "root initialization panicked",
            RunError::Cancelled => "root initialization was cancelled",
            RunError::Ended(_) => "the root ended before publishing activation",
            RunError::InitializedTwice => "the running application was initialized more than once",
            RunError::NonceExhausted => "application actor nonce allocation was exhausted",
        }
    }

    /// The failure in words.
    pub fn message(&self) -> (message: &'static str)
        ensures
            message@ == self.text()@,
    {
        match self {
            RunError::Runtime(_) => "Bombay could not construct its Tokio runtime",
            RunError::AllocationRejected(_) => "the root address source rejected allocation",
            RunError::InitializationRejected(_) => "the root rejected initialization",
            RunError::HostRejected(_) => "the actor host rejected root initialization",
            RunError::Panicked => "root initialization panicked",
            RunError::Cancelled => "root initialization was cancelled",
            RunError::Ended(_) => "the root ended before publishing activation",
            RunError::InitializedTwice => "the running application was initialized more than once",
            RunError::NonceExhausted => "application actor nonce allocation was exhausted",
        }
    }

    /// The failure of the executor, where that is the cause.
    pub fn source(&self) -> (source: Option<&X>)
        ensures
            match self {
                RunError::Runtime(error) => source == Some(error),
                _ => source is None,
            },
    {
        match self {
            RunError::Runtime(error) => Some(error),
            _ => None,
        }
    }
}

/// The application failure that a failed launch of a plain root amounts to.
pub open spec fn direct_failure<B, F, I, Ev, M, D, X>(
    error: SpawnError<B, F, I, Ev, M, D>,
) -> RunError<F, X> {
    match error {
        SpawnError::AllocationRejected { reason, .. } => RunError::AllocationRejected(reason),
        SpawnError::InitializationRejected { error, .. } => RunError::InitializationRejected(error),
        SpawnError::HostRejected { error, .. } => RunError::HostRejected(error),
        SpawnError::Panicked => RunError::Panicked,
        SpawnError::Cancelled => RunError::Cancelled,
        SpawnError::Ended(completion) => RunError::Ended(completion),
    }
}

/// The application failure that a failed launch of a plain root amounts to.
pub fn startup_error<B, F, I, Ev, M, D, X>(error: SpawnError<B, F, I, Ev, M, D>) -> (failure:
    RunError<F, X>)
    ensures
        failure == direct_failure::<B, F, I, Ev, M, D, X>(error),
{
    match error {
        SpawnError::AllocationRejected { reason, .. } => RunError::AllocationRejected(reason),
        SpawnError::InitializationRejected { error, .. } => RunError::InitializationRejected(error),
        SpawnError::HostRejected { error, .. } => RunError::HostRejected(error),
        SpawnError::Panicked => RunError::Panicked,
        SpawnError::Cancelled => RunError::Cancelled,
        SpawnError::Ended(completion) => RunError::Ended(completion),
    }
}

/// Failure while initializing the composed application behavior.
#[derive(Debug, Clone, Copy, PartialEq, Eq)]
pub enum ApplicationDefinitionError<E> {
    /// The root failed.
    Root(E),
    /// The behavior had been initialized.
    InitializedTwice,
}

/// The application failure that a failed launch of a root with declared actors
/// amounts to.
pub open spec fn declared_failure<B, F, I, Ev, M, D, X>(
    error: SpawnError<B, ApplicationDefinitionError<F>, I, Ev, M, D>,
) -> RunError<F, X> {
    match error {
        SpawnError::AllocationRejected { reason, .. } => RunError::AllocationRejected(reason),
        SpawnError::InitializationRejected { error: ApplicationDefinitionError::Root(error), .. } =>
            RunError::InitializationRejected(error),
        SpawnError::InitializationRejected {
            error: ApplicationDefinitionError::InitializedTwice,
            ..
        } => RunError::InitializedTwice,
        SpawnError::HostRejected { error, .. } => RunError::HostRejected(error),
        SpawnError::Panicked => RunError::Panicked,
        SpawnError::Cancelled => RunError::Cancelled,
        SpawnError::Ended(completion) => RunError::Ended(completion),
    }
}

/// The application failure that a failed launch of a root with declared actors
/// amounts to.
pub fn declared_startup_error<B, F, I, Ev, M, D, X>(
    error: SpawnError<B, ApplicationDefinitionError<F>, I, Ev, M, D>,
) -> (failure: RunError<F, X>)
    ensures
        failure == declared_failure::<B, F, I, Ev, M, D, X>(error),
{
    match error {
        SpawnError::AllocationRejected { reason, .. } => RunError::AllocationRejected(reason),
        SpawnError::InitializationRejected { error, .. } => match error {
            ApplicationDefinitionError::Root(error) => RunError::InitializationRejected(error),
            ApplicationDefinitionError::InitializedTwice => RunError::InitializedTwice,
        },
        SpawnError::HostRejected { error, .. } => RunError::HostRejected(error),
        SpawnError::Panicked => RunError::Panicked,
        SpawnError::Cancelled => RunError::Cancelled,
        SpawnError::Ended(completion) => RunError::Ended(completion),
    }
}

/// Everything that one turn of a behavior asks for.
#[derive(Debug)]
pub struct Actions<S, N> {
    /// What it sends.
    pub sends: S,
    /// Whom it creates, in order.
    pub creates: Vec<CreateChild<N>>,
    /// Whether it goes on.
    pub become_: Step,
}

/// The behavior of a root together with the actors declared beside it.
#[derive(Debug)]
pub struct ApplicationBehavior<R, N> {
    root: R,
    application: Option<Vec<CreateChild<N>>>,
}

impl<R, N> ApplicationBehavior<R, N> {
    /// The root.
    pub closed spec fn root_view(self) -> R {
        self.root
    }

    /// The declared actors that are still to be created, in order.
    pub closed spec fn pending(self) -> Option<Seq<CreateChild<N>>> {
        match self.application {
            Some(creates) => Some(creates@),
            None => None,
        }
    }

    /// A root, and the staged actors declared beside it.
    pub fn new(root: R, application: Vec<CreateChild<N>>) -> (behavior: Self)
        ensures
            behavior.root_view() == root,
            behavior.pending() == Some(application@),
    {
        ApplicationBehavior { root, application: Some(application) }
    }

    /// The root.
    pub fn base(&self) -> (root: &R)
        ensures
            *root == self.root_view(),
    {
        &self.root
    }

    /// The root, for a turn of its own.
    pub fn base_mut(&mut self) -> (root: &mut R)
        ensures
            *root == old(self).root_view(),
            final(self).root_view() == *final(root),
            final(self).pending() == old(self).pending(),
    {
        &mut self.root
    }

    /// Initialize the application, whose root initialized like this. The
    /// declared actors are created after those of the root, once.
    pub fn init<S, E>(&mut self, initialized: Result<Actions<S, N>, E>) -> (acted: Result<
        Actions<S, N>,
        ApplicationDefinitionError<E>,
    >)
        ensures
            final(self).root_view() == old(self).root_view(),
            match initialized {
                Err(error) => {
                    &&& acted == Err::<Actions<S, N>, ApplicationDefinitionError<E>>(
                        ApplicationDefinitionError::Root(error),
                    )
                    &&& final(self).pending() == old(self).pending()
                },
                Ok(actions) => {
                    &&& final(self).pending() is None
                    &&& match old(self).pending() {
                        None => acted == Err::<Actions<S, N>, ApplicationDefinitionError<E>>(
                            ApplicationDefinitionError::InitializedTwice,
                        ),
                        Some(declared) => {
                            &&& acted matches Ok(composed)
                            &&& composed.sends == actions.sends
                            &&& composed.become_ == actions.become_
                            &&& composed.creates@ == actions.creates@ + declared
                        },
                    }
                },
            },
    {
        match initialized {
            Err(error) => Err(ApplicationDefinitionError::Root(error)),
            Ok(actions) => match self.application.take() {
                None => Err(ApplicationDefinitionError::InitializedTwice),
                Some(declared) => {
                    let mut declared = declared;
                    let mut creates = actions.creates;
                    creates.append(&mut declared);
                    Ok(Actions { sends: actions.sends, creates, become_: actions.become_ })
                },
            },
        }
    }

    /// A later turn is the root's own.
    pub fn transition<S, E>(&self, acted: Result<Actions<S, N>, E>) -> (composed: Result<
        Actions<S, N>,
        ApplicationDefinitionError<E>,
    >)
        ensures
            composed == match acted {
                Ok(actions) => Ok::<Actions<S, N>, ApplicationDefinitionError<E>>(actions),
                Err(error) => Err::<Actions<S, N>, ApplicationDefinitionError<E>>(
                    ApplicationDefinitionError::Root(error),
                ),
            },
    {
        match acted {
            Ok(actions) => Ok(actions),
            Err(error) => Err(ApplicationDefinitionError::Root(error)),
        }
    }
}

/// Compose a root with the actors declared beside it, in the order of their
/// declaration. A fresh application has an identity for each of them.
pub fn stage_application<R, N, E, X>(root: R, members: Vec<N>) -> (composed: Result<
    ApplicationBehavior<R, N>,
    RunError<E, X>,
>)
    ensures
        composed matches Ok(behavior) && behavior.root_view() == root && behavior.pending() == Some(
            staged(members@, 1),
        ),
{
    let mut creations: CreationSequence = fresh_sequence();
    let count: usize = members.len();
    assert(left(upcoming(creations)) == u64::MAX);
    assert(count <= u64::MAX);
    match stage_children(members, &mut creations) {
        Ok(application) => Ok(ApplicationBehavior::new(root, application)),
        Err(NonceExhausted) => Err(RunError::NonceExhausted),
    }
}

/// The declared actors of an application are created exactly once, by its first
/// successful initialization, after the root's own children, in the order of
/// their declaration and with distinct identities.
pub proof fn law_declared_actors_are_staged_in_order<N>(members: Seq<N>, i: int, j: int)
    requires
        members.len() < u64::MAX,
        0 <= i < j < members.len(),
    ensures
        staged(members, 1).len() == members.len(),
        staged(members, 1)[i].child == members[i],
        staged(members, 1)[i].id < staged(members, 1)[j].id,
{
}

/// Explicit composition of one root, its logical protocol spaces and its
/// entity families.
#[derive(Debug)]
pub struct App<Root, Spaces, Families> {
    root: Root,
    spaces: Spaces,
    families: Families,
}

impl<Root, Spaces, Families> App<Root, Spaces, Families> {
    /// The root, the spaces and the families.
    pub closed spec fn parts(self) -> (Root, Spaces, Families) {
        (self.root, self.spaces, self.families)
    }
}

impl<Root, Spaces> App<Root, Spaces, ()> {
    /// An application without entity families.
    pub fn new(root: Root, spaces: Spaces) -> (app: Self)
        ensures
            app.parts() == (root, spaces, ()),
    {
        App { root, spaces, families: () }
    }
}

/// An entity family that could not be declared. Nothing of the declaration is
/// consumed: the composition, the role and the definition come back.
#[derive(Debug)]
pub struct UndeclaredFamily<Root, Spaces, Families, Role, D, C> {
    /// Why the family could not be declared.
    pub error: DirectoryError<C>,
    /// The composition as it was.
    pub app: App<Root, Spaces, Families>,
    /// The role.
    pub role: Role,
    /// The definition.
    pub definition: D,
}

impl<Root, Spaces, Families> App<Root, Spaces, Families> {
    /// Declare one application-owned native entity family under a semantic
    /// role. Only a directory whose number of shards is a power of two can be
    /// declared; any other is refused with
    /// everything that was given.
    pub fn entity_family<Role, D, C>(
        self,
        role: Role,
        definition: D,
        directory: DirectoryConfig,
        capacity: EntityCapacity,
    ) -> (declared: Result<
        App<Root, Spaces, (Role, D, DirectoryConfig, EntityCapacity, Families)>,
        UndeclaredFamily<Root, Spaces, Families, Role, D, C>,
    >)
        ensures
            match declared {
                Ok(app) => {
                    &&& vstd::arithmetic::power2::is_pow2(directory.shards@ as int)
                    &&& app.parts() == (
                        self.parts().0,
                        self.parts().1,
                        (role, definition, directory, capacity, self.parts().2),
                    )
                },
                Err(undeclared) => {
                    &&& !vstd::arithmetic::power2::is_pow2(directory.shards@ as int)
                    &&& undeclared.error == DirectoryError::<C>::InvalidShardCount
                    &&& undeclared.app == self
                    &&& undeclared.role == role
                    &&& undeclared.definition == definition
                },
            },
    {
        if !is_power_of_two(directory.shards.get()) {
            return Err(
                UndeclaredFamily {
                    error: DirectoryError::InvalidShardCount,
                    app: self,
                    role,
                    definition,
                },
            );
        }
        Ok(
            App {
                root: self.root,
                spaces: self.spaces,
                families: (role, definition, directory, capacity, self.families),
            },
        )
    }

    /// The root, the spaces and the families.
    pub fn into_parts(self) -> (parts: (Root, Spaces, Families))
        ensures
            parts == self.parts(),
    {
        (self.root, self.spaces, self.families)
    }
}

/// A live application's root and capability projections. `R` refers to the
/// root.
#[derive(Debug, Clone, Copy)]
pub struct ApplicationHandle<R, Families> {
    root: R,
    families: Families,
}

/// Explicit application lifecycle authority, separate from actor messaging.
#[derive(Debug, Clone, Copy)]
pub struct ApplicationLifecycle<R> {
    root: R,
}

impl<R, Families> ApplicationHandle<R, Families> {
    /// The root.
    pub closed spec fn root_view(self) -> R {
        self.root
    }

    /// The families.
    pub closed spec fn families_view(self) -> Families {
        self.families
    }

    /// The handle of an application whose root is live.
    pub fn new(root: R, families: Families) -> (handle: Self)
        ensures
            handle.root_view() == root,
            handle.families_view() == families,
    {
        ApplicationHandle { root, families }
    }

    /// Borrow the exact live root's delivery reference.
    pub fn root(&self) -> (root: &R)
        ensures
            *root == self.root_view(),
    {
        &self.root
    }

    /// Borrow the installed families.
    pub fn families(&self) -> (families: &Families)
        ensures
            *families == self.families_view(),
    {
        &self.families
    }

    /// Form a transport-neutral interface from an explicit receptionist product.
    pub fn interface<Api>(&self, api: Api) -> (interface: ActorInterface<Api>)
        ensures
            interface.api_view() == api,
    {
        ActorInterface::new(api)
    }

    /// Project lifecycle authority without exposing topology ownership.
    pub fn lifecycle(&self) -> (lifecycle: ApplicationLifecycle<R>) where R: Clone
        ensures
            cloned(self.root_view(), lifecycle.root_view()),
    {
        ApplicationLifecycle { root: self.root.clone() }
    }
}

impl<R> ApplicationLifecycle<R> {
    /// The root.
    pub closed spec fn root_view(self) -> R {
        self.root
    }

    /// The root whose shutdown may be requested and observed.
    pub fn root(&self) -> (root: &R)
        ensures
            *root == self.root_view(),
    {
        &self.root
    }
}

/// Failure at the HTTP boundary of an application. `T` is how the root ended,
/// `E` its failure, `A` the address of the listener, `X` a failure of the
/// executor, the listener or the server.
#[derive(Debug)]
#[allow(inconsistent_fields)]
pub enum AxumRunError<T, E, A, X> {
    /// The application failed before its root was live.
    Application(RunError<E, X>),
    /// The listener could not be bound.
    Bind { address: A, source: X },
    /// The server failed before the root retired.
    Serve { source: X, terminal: T },
}

impl<T, E, A, X> AxumRunError<T, E, A, X> {
    /// The failure in words. That of a listener names the address.
    pub fn message(&self) -> (message: String) where A: core::fmt::Display
        ensures
            match self {
                AxumRunError::Application(error) => message@ == error.text()@,
                AxumRunError::Bind { address, .. } => exists|shown: String| #[trigger]
                    vstd::string::to_string_from_display_ensures::<A>(address, shown) && message@
                        == "Bombay could not bind the Axum listener at "@ + shown@,
                AxumRunError::Serve { .. } => message@
                    == "the Axum server failed before the application root retired"@,
            },
    {
        match self {
            AxumRunError::Application(error) => String::from_str(error.message()),
            AxumRunError::Bind { address, .. } => {
                let shown = address.to_string();
                let mut message = String::from_str("Bombay could not bind the Axum listener at ");
                message.append(shown.as_str());
                message
            },
            AxumRunError::Serve { .. } => String::from_str(
                "the Axum server failed before the application root retired",
            ),
        }
    }

    /// The failure that is the cause, where there is one.
    pub fn source(&self) -> (source: Option<&X>)
        ensures
            match self {
                AxumRunError::Application(RunError::Runtime(error)) => source == Some(error),
                AxumRunError::Application(_) => source is None,
                AxumRunError::Bind { source: error, .. } => source == Some(error),
                AxumRunError::Serve { source: error, .. } => source == Some(error),
            },
    {
        match self {
            AxumRunError::Application(error) => error.source(),
            AxumRunError::Bind { source, .. } => Some(source),
            AxumRunError::Serve { source, .. } => Some(source),
        }
    }
}

/// A served application whose listener is to be bound.
#[derive(Debug)]
pub struct AxumBinding<A> {
    address: A,
}

/// A served application whose root is to be launched.
#[derive(Debug)]
pub struct AxumLaunching {
    _bound: (),
}

/// A served application whose root is live. `K` is its task.
#[derive(Debug)]
pub struct AxumServing<K> {
    task: K,
}

/// A served application whose root is to be finished.
#[derive(Debug)]
pub struct AxumSettling<X> {
    served: Result<(), X>,
}

impl<A> AxumBinding<A> {
    /// The address of the listener.
    pub closed spec fn address_view(self) -> A {
        self.address
    }

    /// The listener is bound before anything else.
    pub fn new(address: A) -> (binding: Self)
        ensures
            binding.address_view() == address,
    {
        AxumBinding { address }
    }

    /// The address of the listener.
    pub fn address(&self) -> (address: &A)
        ensures
            *address == self.address_view(),
    {
        &self.address
    }

    /// The listener was bound, or not: then nothing is launched.
    pub fn bound<L, T, E, X>(self, listener: Result<L, X>) -> (bound: Result<
        (AxumLaunching, L),
        AxumRunError<T, E, A, X>,
    >)
        ensures
            match listener {
                Ok(listener) => bound matches Ok((_, opened)) && opened == listener,
                Err(source) => bound == Err::<(AxumLaunching, L), AxumRunError<T, E, A, X>>(
                    AxumRunError::Bind { address: self.address_view(), source },
                ),
            },
    {
        match listener {
            Ok(listener) => Ok((AxumLaunching { _bound: () }, listener)),
            Err(source) => Err(AxumRunError::Bind { address: self.address, source }),
        }
    }
}

impl AxumLaunching {
    /// The root was launched, or not: then nothing is served.
    pub fn launched<R, C, K, T, E, A, X>(
        self,
        launched: Result<OwnedActor<R, C, K>, RunError<E, X>>,
    ) -> (serving: Result<
        (AxumServing<K>, ApplicationHandle<R, ()>),
        AxumRunError<T, E, A, X>,
    >)
        ensures
            match launched {
                Ok(root) => serving matches Ok((serving, handle)) && serving.task_view()
                    == root.task && handle.root_view() == root.actor,
                Err(error) => serving == Err::<
                    (AxumServing<K>, ApplicationHandle<R, ()>),
                    AxumRunError<T, E, A, X>,
                >(AxumRunError::Application(error)),
            },
    {
        match launched {
            Ok(root) => Ok(
                (AxumServing { task: root.task }, ApplicationHandle::new(root.actor, ())),
            ),
            Err(error) => Err(AxumRunError::Application(error)),
        }
    }
}

impl<K> AxumServing<K> {
    /// The task of the root.
    pub closed spec fn task_view(self) -> K {
        self.task
    }

    /// The server ended. It ends with the root, so that one that ended by
    /// itself has failed, and the root has to be asked to stop.
    pub fn served<X>(self, served: Result<(), X>) -> (settling: (AxumSettling<X>, K, bool))
        ensures
            settling.0.served_view() == served,
            settling.1 == self.task_view(),
            settling.2 == served is Err,
    {
        let must_request_shutdown = served.is_err();
        (AxumSettling { served }, self.task, must_request_shutdown)
    }
}

/// What a served application ends with.
pub open spec fn served_outcome<T, E, A, X>(served: Result<(), X>, terminal: T) -> Result<
    T,
    AxumRunError<T, E, A, X>,
> {
    match served {
        Ok(_) => Ok(terminal),
        Err(source) => Err(AxumRunError::Serve { source, terminal }),
    }
}

impl<X> AxumSettling<X> {
    /// How the server ended.
    pub closed spec fn served_view(self) -> Result<(), X> {
        self.served
    }

    /// The root ended.
    pub fn finished<T, E, A>(self, terminal: T) -> (settled: Result<
        T,
        AxumRunError<T, E, A, X>,
    >)
        ensures
            settled == served_outcome::<T, E, A, X>(self.served_view(), terminal),
    {
        match self.served {
            Ok(_) => Ok(terminal),
            Err(source) => Err(AxumRunError::Serve { source, terminal }),
        }
    }
}

/// How a root that became live ended is never lost: it comes back whether or
/// not the server failed.
pub proof fn law_a_live_root_is_always_returned<T, E, A, X>(served: Result<(), X>, terminal: T)
    ensures
        match served_outcome::<T, E, A, X>(served, terminal) {
            Ok(returned) => served is Ok && returned == terminal,
            Err(AxumRunError::Serve { source, terminal: returned }) => served == Err::<(), X>(
                source,
            ) && returned == terminal,
            Err(_) => false,
        },
{
}

/// Startup failures of a plain root are told apart: two launches that fail the
/// application alike failed in one way and for one reason.
pub proof fn law_startup_failures_keep_their_reason<B, F, I, Ev, M, D, X>(
    one: SpawnError<B, F, I, Ev, M, D>,
    other: SpawnError<B, F, I, Ev, M, D>,
)
    requires
        direct_failure::<B, F, I, Ev, M, D, X>(one) == direct_failure::<B, F, I, Ev, M, D, X>(
            other,
        ),
    ensures
        one is AllocationRejected <==> other is AllocationRejected,
        one is InitializationRejected <==> other is InitializationRejected,
        one is HostRejected <==> other is HostRejected,
        one is Panicked <==> other is Panicked,
        one is Cancelled <==> other is Cancelled,
        one is Ended <==> other is Ended,
        one is AllocationRejected ==> one->reason == other->reason,
        one is InitializationRejected ==> one->InitializationRejected_error
            == other->InitializationRejected_error,
        one is HostRejected ==> one->HostRejected_error == other->HostRejected_error,
        one is Ended ==> one->Ended_0 == other->Ended_0,
{
}

/// A failed launch of a root fails the application in the same way and for the
/// same reason, with or without declared actors. Only a root with declared
/// actors can have been initialized twice.
pub proof fn law_a_failed_root_fails_the_application<B, F, I, Ev, M, D, X>(
    direct: SpawnError<B, F, I, Ev, M, D>,
    declared: SpawnError<B, ApplicationDefinitionError<F>, I, Ev, M, D>,
)
    ensures
        match direct {
            SpawnError::AllocationRejected { reason, .. } => direct_failure::<B, F, I, Ev, M, D, X>(
                direct,
            ) == RunError::<F, X>::AllocationRejected(reason),
            SpawnError::InitializationRejected { error, .. } => direct_failure::<
                B,
                F,
                I,
                Ev,
                M,
                D,
                X,
            >(direct) == RunError::<F, X>::InitializationRejected(error),
            SpawnError::HostRejected { error, .. } => direct_failure::<B, F, I, Ev, M, D, X>(direct)
                == RunError::<F, X>::HostRejected(error),
            SpawnError::Panicked => direct_failure::<B, F, I, Ev, M, D, X>(direct)
                is Panicked,
            SpawnError::Cancelled => direct_failure::<B, F, I, Ev, M, D, X>(direct)
                is Cancelled,
            SpawnError::Ended(completion) => direct_failure::<B, F, I, Ev, M, D, X>(direct)
                == RunError::<F, X>::Ended(completion),
        },
        match declared {
            SpawnError::AllocationRejected { reason, .. } => declared_failure::<
                B,
                F,
                I,
                Ev,
                M,
                D,
                X,
            >(declared) == RunError::<F, X>::AllocationRejected(reason),
            SpawnError::InitializationRejected { error, .. } => match error {
                ApplicationDefinitionError::Root(failure) => declared_failure::<
                    B,
                    F,
                    I,
                    Ev,
                    M,
                    D,
                    X,
                >(declared) == RunError::<F, X>::InitializationRejected(failure),
                ApplicationDefinitionError::InitializedTwice => declared_failure::<
                    B,
                    F,
                    I,
                    Ev,
                    M,
                    D,
                    X,
                >(declared) is InitializedTwice,
            },
            SpawnError::HostRejected { error, .. } => declared_failure::<B, F, I, Ev, M, D, X>(
                declared,
            ) == RunError::<F, X>::HostRejected(error),
            SpawnError::Panicked => declared_failure::<B, F, I, Ev, M, D, X>(declared)
                is Panicked,
            SpawnError::Cancelled => declared_failure::<B, F, I, Ev, M, D, X>(declared)
                is Cancelled,
            SpawnError::Ended(completion) => declared_failure::<B, F, I, Ev, M, D, X>(declared)
                == RunError::<F, X>::Ended(completion),
        },
{
}

} // verus!
