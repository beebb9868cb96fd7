//! Native entity families: bounds, measurements, and the activation protocol.

use vstd::prelude::*;

use crate::address::{
    after_allocation, allocation, AllocationRejection, ApplicationAddresses, MailAddr,
};
use crate::entity::id::EntityId;
use crate::entity::lifecycle::{DrainFailure, RetirementMode};
use crate::nonzero::NonZeroUsize;

verus! {

/// Independent native activation bounds for one family.
#[derive(Debug, Clone, Copy, PartialEq, Eq)]
pub struct EntityCapacity {
    concurrent_hydrations: NonZeroUsize,
    residents: NonZeroUsize,
}

impl EntityCapacity {
    /// How many entities may be hydrated at once.
    pub closed spec fn hydration_bound(self) -> usize {
        self.concurrent_hydrations@
    }

    /// How many entities may be active or activating at once.
    pub closed spec fn resident_bound(self) -> usize {
        self.residents@
    }

    /// Bind independent hydration-work and active-or-activating limits.
    pub fn new(concurrent_hydrations: NonZeroUsize, residents: NonZeroUsize) -> (capacity: Self)
        ensures
            capacity.hydration_bound() == concurrent_hydrations@,
            capacity.resident_bound() == residents@,
    {
        EntityCapacity { concurrent_hydrations, residents }
    }

    /// How many entities may be hydrated at once.
    pub fn concurrent_hydrations(self) -> (bound: NonZeroUsize)
        ensures
            bound@ == self.hydration_bound(),
    {
        self.concurrent_hydrations
    }

    /// How many entities may be active or activating at once.
    pub fn residents(self) -> (bound: NonZeroUsize)
        ensures
            bound@ == self.resident_bound(),
    {
        self.residents
    }
}

/// Exact phase and fact that prevented native activation.
#[derive(Debug)]
pub enum EntityActivationError<Hydration, R> {
    /// The explicit active-or-activating family bound was full.
    ResidentCapacity,
    /// Domain reconstruction failed before address allocation.
    Hydration(Hydration),
    /// Actor launch failed with exact final state when state existed.
    Launch(R),
}

/// Why an actor whose behavior had been hydrated was not launched.
#[derive(Debug)]
pub enum LaunchFailure<B, R> {
    /// No address was left for it.
    AllocationRejected { behavior: B, reason: AllocationRejection },
    /// It retired before it became live.
    Retired(R),
}

/// Fixed-cardinality observations for one native family.
#[derive(Debug, Clone, Copy, PartialEq, Eq, Structural)]
pub struct EntityMetrics {
    /// Activations that succeeded.
    pub activations: usize,
    /// Activations that ended with a failed hydration.
    pub hydration_failures: usize,
    /// Activations that ended with a failed launch.
    pub launch_failures: usize,
    /// Activations refused at the resident bound.
    pub capacity_refusals: usize,
    /// Retirements that were forced.
    pub forced_retirements: usize,
    /// The largest number of simultaneous hydrations.
    pub peak_hydrations: usize,
    /// Live incarnations.
    pub residents: usize,
}

/// `count` and one more, in wrapping machine arithmetic.
pub open spec fn bumped(count: usize) -> usize {
    if count == usize::MAX {
        0
    } else {
        (count + 1) as usize
    }
}

/// `count` and one less, in wrapping machine arithmetic.
pub open spec fn dropped(count: usize) -> usize {
    if count == 0 {
        usize::MAX
    } else {
        (count - 1) as usize
    }
}

fn bump(count: usize) -> (next: usize)
    ensures
        next == bumped(count),
{
    if count == usize::MAX {
        0
    } else {
        count + 1
    }
}

fn unbump(count: usize) -> (next: usize)
    ensures
        next == dropped(count),
{
    if count == 0 {
        usize::MAX
    } else {
        count - 1
    }
}

/// The counters of one family.
#[derive(Debug)]
pub struct EntityMetricState {
    metrics: EntityMetrics,
    active_hydrations: usize,
}

impl EntityMetricState {
    /// What a snapshot shows.
    pub closed spec fn counts(self) -> EntityMetrics {
        self.metrics
    }

    /// Hydrations that have begun and not finished.
    pub closed spec fn hydrating(self) -> usize {
        self.active_hydrations
    }

    /// No family has more hydrations at a time than its peak.
    pub open spec fn wf(self) -> bool {
        self.hydrating() <= self.counts().peak_hydrations
    }

    /// Nothing has happened.
    pub fn new() -> (state: Self)
        ensures
            state.counts() == (EntityMetrics {
                activations: 0,
                hydration_failures: 0,
                launch_failures: 0,
                capacity_refusals: 0,
                forced_retirements: 0,
                peak_hydrations: 0,
                residents: 0,
            }),
            state.hydrating() == 0,
            state.wf(),
    {
        EntityMetricState {
            metrics: EntityMetrics {
                activations: 0,
                hydration_failures: 0,
                launch_failures: 0,
                capacity_refusals: 0,
                forced_retirements: 0,
                peak_hydrations: 0,
                residents: 0,
            },
            active_hydrations: 0,
        }
    }

    /// An incarnation became live.
    pub fn activation_succeeded(&mut self)
        ensures
            final(self).counts() == (EntityMetrics {
                activations: bumped(old(self).counts().activations),
                residents: bumped(old(self).counts().residents),
                ..old(self).counts()
            }),
            final(self).hydrating() == old(self).hydrating(),
    {
        self.metrics.activations = bump(self.metrics.activations);
        self.metrics.residents = bump(self.metrics.residents);
    }

    /// A hydration began.
    pub fn hydration_started(&mut self)
        requires
            old(self).hydrating() < usize::MAX,
        ensures
            final(self).hydrating() == old(self).hydrating() + 1,
            final(self).counts() == (EntityMetrics {
                peak_hydrations: if old(self).counts().peak_hydrations < old(self).hydrating() + 1 {
                    (old(self).hydrating() + 1) as usize
                } else {
                    old(self).counts().peak_hydrations
                },
                ..old(self).counts()
            }),
            final(self).wf(),
    {
        self.active_hydrations = self.active_hydrations + 1;
        if self.metrics.peak_hydrations < self.active_hydrations {
            self.metrics.peak_hydrations = self.active_hydrations;
        }
    }

    /// A hydration finished, with whatever result.
    pub fn hydration_finished(&mut self)
        ensures
            final(self).counts() == old(self).counts(),
            final(self).hydrating() == dropped(old(self).hydrating()),
            old(self).wf() && old(self).hydrating() > 0 ==> final(self).wf(),
    {
        self.active_hydrations = unbump(self.active_hydrations);
    }

    /// A hydration failed.
    pub fn hydration_failed(&mut self)
        ensures
            final(self).counts() == (EntityMetrics {
                hydration_failures: bumped(old(self).counts().hydration_failures),
                ..old(self).counts()
            }),
            final(self).hydrating() == old(self).hydrating(),
    {
        self.metrics.hydration_failures = bump(self.metrics.hydration_failures);
    }

    /// A launch failed.
    pub fn launch_failed(&mut self)
        ensures
            final(self).counts() == (EntityMetrics {
                launch_failures: bumped(old(self).counts().launch_failures),
                ..old(self).counts()
            }),
            final(self).hydrating() == old(self).hydrating(),
    {
        self.metrics.launch_failures = bump(self.metrics.launch_failures);
    }

    /// The resident bound refused an activation.
    pub fn capacity_refused(&mut self)
        ensures
            final(self).counts() == (EntityMetrics {
                capacity_refusals: bumped(old(self).counts().capacity_refusals),
                ..old(self).counts()
            }),
            final(self).hydrating() == old(self).hydrating(),
    {
        self.metrics.capacity_refusals = bump(self.metrics.capacity_refusals);
    }

    /// A retirement was forced.
    pub fn forced_retirement(&mut self)
        ensures
            final(self).counts() == (EntityMetrics {
                forced_retirements: bumped(old(self).counts().forced_retirements),
                ..old(self).counts()
            }),
            final(self).hydrating() == old(self).hydrating(),
    {
        self.metrics.forced_retirements = bump(self.metrics.forced_retirements);
    }

    /// A live incarnation retired.
    pub fn retired(&mut self)
        ensures
            final(self).counts() == (EntityMetrics {
                residents: dropped(old(self).counts().residents),
                ..old(self).counts()
            }),
            final(self).hydrating() == old(self).hydrating(),
    {
        self.metrics.residents = unbump(self.metrics.residents);
    }

    /// What has been counted so far.
    pub fn snapshot(&self) -> (metrics: EntityMetrics)
        ensures
            metrics == self.counts(),
    {
        self.metrics
    }
}

/// How many incarnations of a family are active or activating.
#[derive(Debug)]
pub struct ResidentBound {
    limit: usize,
    held: usize,
}

impl ResidentBound {
    /// The bound.
    pub closed spec fn limit(self) -> usize {
        self.limit
    }

    /// How many places are taken.
    pub closed spec fn held(self) -> usize {
        self.held
    }

    /// No more places are ever taken than there are.
    #[verifier::type_invariant]
    pub closed spec fn wf(self) -> bool {
        self.held <= self.limit
    }

    /// Every place is free.
    pub fn new(limit: NonZeroUsize) -> (bound: Self)
        ensures
            bound.limit() == limit@,
            bound.held() == 0,
    {
        ResidentBound { limit: limit.get(), held: 0 }
    }

    /// Take a place, if one is free.
    pub fn try_reserve(&mut self) -> (reserved: bool)
        ensures
            final(self).limit() == old(self).limit(),
            reserved == (old(self).held() < old(self).limit()),
            final(self).held() == if reserved {
                old(self).held() + 1
            } else {
                old(self).held() as int
            },
    {
        if self.held < self.limit {
            self.held = self.held + 1;
            true
        } else {
            false
        }
    }

    /// Free a place.
    pub fn release(&mut self)
        requires
            old(self).held() > 0,
        ensures
            final(self).limit() == old(self).limit(),
            final(self).held() == old(self).held() - 1,
    {
        proof {
            use_type_invariant(&*self);
        }
        self.held = self.held - 1;
    }

    /// How many places are taken.
    pub fn residents(&self) -> (held: usize)
        ensures
            held == self.held(),
            held <= self.limit(),
    {
        proof {
            use_type_invariant(self);
        }
        self.held
    }
}

/// A native activation that holds a place among the residents.
#[derive(Debug)]
pub struct AdmittedActivation {
    _held: (),
}

/// A native activation whose domain state is being reconstructed.
#[derive(Debug)]
pub struct HydratingActivation {
    _held: (),
}

/// A native activation whose actor is being launched.
#[derive(Debug)]
pub struct LaunchingActivation {
    address: MailAddr,
}

/// A live native incarnation.
#[derive(Debug)]
pub struct NativeEntityLease<A> {
    actor: A,
}

/// Begin an activation: it takes a place among the residents, or fails at once.
pub fn admit_activation<H, R>(
    residents: &mut ResidentBound,
    metrics: &mut EntityMetricState,
) -> (admitted: Result<AdmittedActivation, EntityActivationError<H, R>>)
    ensures
        final(residents).limit() == old(residents).limit(),
        final(metrics).hydrating() == old(metrics).hydrating(),
        match admitted {
            Ok(_) => {
                &&& old(residents).held() < old(residents).limit()
                &&& final(residents).held() == old(residents).held() + 1
                &&& final(metrics).counts() == old(metrics).counts()
            },
            Err(error) => {
                &&& old(residents).held() >= old(residents).limit()
                &&& final(residents).held() == old(residents).held()
                &&& error == EntityActivationError::<H, R>::ResidentCapacity
                &&& final(metrics).counts() == counted(
                    old(metrics).counts(),
                    ActivationEnd::Refused,
                )
            },
        },
{
    if residents.try_reserve() {
        Ok(AdmittedActivation { _held: () })
    } else {
        metrics.capacity_refused();
        Err(EntityActivationError::ResidentCapacity)
    }
}

/// Whether a family with these bounds may begin one more hydration.
pub open spec fn may_hydrate(capacity: EntityCapacity, hydrating: usize) -> bool {
    hydrating < capacity.hydration_bound()
}

impl AdmittedActivation {
    /// The hydration begins, unless as many are under way as the family may
    /// have at once: then the activation has to wait.
    pub fn begin_hydration(self, capacity: EntityCapacity, metrics: &mut EntityMetricState) -> (
    hydrating: Result<HydratingActivation, AdmittedActivation>)
        ensures
            hydrating is Ok <==> may_hydrate(capacity, old(metrics).hydrating()),
            hydrating is Ok ==> {
                &&& final(metrics).hydrating() == old(metrics).hydrating() + 1
                &&& final(metrics).hydrating() <= capacity.hydration_bound()
                &&& final(metrics).counts() == (EntityMetrics {
                    peak_hydrations: if old(metrics).counts().peak_hydrations
                        < final(metrics).hydrating() {
                        final(metrics).hydrating()
                    } else {
                        old(metrics).counts().peak_hydrations
                    },
                    ..old(metrics).counts()
                })
                &&& final(metrics).wf()
            },
            hydrating matches Err(waiting) ==> waiting == self && *final(metrics) == *old(metrics),
    {
        if metrics.active_hydrations < capacity.concurrent_hydrations.get() {
            metrics.hydration_started();
            Ok(HydratingActivation { _held: () })
        } else {
            Err(self)
        }
    }

    /// The activation was abandoned before its hydration began.
    pub fn abandon(self, residents: &mut ResidentBound)
        requires
            old(residents).held() > 0,
        ensures
            final(residents).limit() == old(residents).limit(),
            final(residents).held() == old(residents).held() - 1,
    {
        residents.release();
    }
}

impl HydratingActivation {
    /// The hydration ended. A hydrated behavior gets the next address of the
    /// application; a failure gives the place among the residents back.
    pub fn hydrated<B, H, R>(
        self,
        hydration: Result<B, H>,
        addresses: &mut ApplicationAddresses,
        residents: &mut ResidentBound,
        metrics: &mut EntityMetricState,
    ) -> (launching: Result<
        (LaunchingActivation, B),
        EntityActivationError<H, LaunchFailure<B, R>>,
    >)
        requires
            old(residents).held() > 0,
        ensures
            final(residents).limit() == old(residents).limit(),
            final(metrics).hydrating() == dropped(old(metrics).hydrating()),
            match hydration {
                Err(error) => {
                    &&& launching == Err::<
                        (LaunchingActivation, B),
                        EntityActivationError<H, LaunchFailure<B, R>>,
                    >(EntityActivationError::Hydration(error))
                    &&& final(addresses)@ == old(addresses)@
                    &&& final(residents).held() == old(residents).held() - 1
                    &&& final(metrics).counts() == counted(
                        old(metrics).counts(),
                        ActivationEnd::HydrationFailed,
                    )
                },
                Ok(behavior) => {
                    &&& final(addresses)@ == after_allocation(old(addresses)@)
                    &&& match allocation(old(addresses)@) {
                        Ok(address) => {
                            &&& launching matches Ok((launch, hydrated))
                            &&& launch.address() == address
                            &&& hydrated == behavior
                            &&& final(residents).held() == old(residents).held()
                            &&& final(metrics).counts() == old(metrics).counts()
                        },
                        Err(reason) => {
                            &&& launching == Err::<
                                (LaunchingActivation, B),
                                EntityActivationError<H, LaunchFailure<B, R>>,
                            >(
                                EntityActivationError::Launch(
                                    LaunchFailure::AllocationRejected { behavior, reason },
                                ),
                            )
                            &&& final(residents).held() == old(residents).held() - 1
                            &&& final(metrics).counts() == counted(
                                old(metrics).counts(),
                                ActivationEnd::LaunchFailed,
                            )
                        },
                    }
                },
            },
    {
        metrics.hydration_finished();
        match hydration {
            Err(error) => {
                metrics.hydration_failed();
                residents.release();
                Err(EntityActivationError::Hydration(error))
            },
            Ok(behavior) => match addresses.allocate() {
                Ok(address) => Ok((LaunchingActivation { address }, behavior)),
                Err(reason) => {
                    metrics.launch_failed();
                    residents.release();
                    Err(
                        EntityActivationError::Launch(
                            LaunchFailure::AllocationRejected { behavior, reason },
                        ),
                    )
                },
            },
        }
    }

    /// The activation was abandoned while it was hydrating.
    pub fn abandon(self, residents: &mut ResidentBound, metrics: &mut EntityMetricState)
        requires
            old(residents).held() > 0,
        ensures
            final(residents).limit() == old(residents).limit(),
            final(residents).held() == old(residents).held() - 1,
            final(metrics).counts() == old(metrics).counts(),
            final(metrics).hydrating() == dropped(old(metrics).hydrating()),
    {
        metrics.hydration_finished();
        residents.release();
    }
}

impl LaunchingActivation {
    /// The address of the actor.
    pub closed spec fn address(self) -> MailAddr {
        self.address
    }

    /// The address of the actor.
    pub fn mail_address(&self) -> (address: MailAddr)
        ensures
            address == self.address(),
    {
        self.address
    }

    /// The activation was abandoned while its actor was being launched.
    pub fn abandon(self, residents: &mut ResidentBound)
        requires
            old(residents).held() > 0,
        ensures
            final(residents).limit() == old(residents).limit(),
            final(residents).held() == old(residents).held() - 1,
    {
        residents.release();
    }

    /// The launch ended.
    pub fn launched<A, B, H, R>(
        self,
        launch: Result<A, R>,
        residents: &mut ResidentBound,
        metrics: &mut EntityMetricState,
    ) -> (activated: Result<
        NativeEntityLease<A>,
        EntityActivationError<H, LaunchFailure<B, R>>,
    >)
        requires
            old(residents).held() > 0,
        ensures
            final(residents).limit() == old(residents).limit(),
            final(metrics).hydrating() == old(metrics).hydrating(),
            match launch {
                Ok(actor) => {
                    &&& activated matches Ok(lease)
                    &&& lease.actor() == actor
                    &&& final(residents).held() == old(residents).held()
                    &&& final(metrics).counts() == counted(
                        old(metrics).counts(),
                        ActivationEnd::Activated,
                    )
                },
                Err(retirement) => {
                    &&& activated == Err::<
                        NativeEntityLease<A>,
                        EntityActivationError<H, LaunchFailure<B, R>>,
                    >(EntityActivationError::Launch(LaunchFailure::Retired(retirement)))
                    &&& final(residents).held() == old(residents).held() - 1
                    &&& final(metrics).counts() == counted(
                        old(metrics).counts(),
                        ActivationEnd::LaunchFailed,
                    )
                },
            },
    {
        match launch {
            Ok(actor) => {
                metrics.activation_succeeded();
                Ok(NativeEntityLease { actor })
            },
            Err(retirement) => {
                metrics.launch_failed();
                residents.release();
                Err(EntityActivationError::Launch(LaunchFailure::Retired(retirement)))
            },
        }
    }
}

impl<A> NativeEntityLease<A> {
    /// The live actor.
    pub closed spec fn actor(self) -> A {
        self.actor
    }

    /// Begin to retire the incarnation: its actor is to be ended, and its place
    /// among the residents given back after that. The reason of a forced
    /// retirement is to be reported.
    pub fn begin_retirement(
        self,
        mode: RetirementMode,
        metrics: &mut EntityMetricState,
    ) -> (begun: (A, RetiringLease, Option<DrainFailure>))
        ensures
            begun.0 == self.actor(),
            final(metrics).hydrating() == old(metrics).hydrating(),
            match mode {
                RetirementMode::Graceful => {
                    &&& begun.2 is None
                    &&& final(metrics).counts() == old(metrics).counts()
                },
                RetirementMode::Forced(failure) => {
                    &&& begun.2 == Some(failure)
                    &&& final(metrics).counts() == (EntityMetrics {
                        forced_retirements: bumped(old(metrics).counts().forced_retirements),
                        ..old(metrics).counts()
                    })
                },
            },
    {
        let forced = match mode {
            RetirementMode::Graceful => None,
            RetirementMode::Forced(failure) => {
                metrics.forced_retirement();
                Some(failure)
            },
        };
        (self.actor, RetiringLease { _held: () }, forced)
    }
}

/// The place among the residents of a native incarnation that is being retired.
#[derive(Debug)]
pub struct RetiringLease {
    _held: (),
}

impl RetiringLease {
    /// The actor has ended: it no longer counts as a resident.
    pub fn retired(self, residents: &mut ResidentBound, metrics: &mut EntityMetricState)
        requires
            old(residents).held() > 0,
        ensures
            final(residents).limit() == old(residents).limit(),
            final(residents).held() == old(residents).held() - 1,
            final(metrics).counts() == (EntityMetrics {
                residents: dropped(old(metrics).counts().residents),
                ..old(metrics).counts()
            }),
            final(metrics).hydrating() == old(metrics).hydrating(),
    {
        metrics.retired();
        residents.release();
    }
}

/// How one native activation can end.
pub enum ActivationEnd {
    /// There was no place for it.
    Refused,
    /// Its hydration failed.
    HydrationFailed,
    /// Its launch failed.
    LaunchFailed,
    /// It became live.
    Activated,
}

/// The counters once one activation that began at `metrics` has ended.
pub open spec fn counted(metrics: EntityMetrics, end: ActivationEnd) -> EntityMetrics {
    match end {
        ActivationEnd::Refused => EntityMetrics {
            capacity_refusals: bumped(metrics.capacity_refusals),
            ..metrics
        },
        ActivationEnd::HydrationFailed => EntityMetrics {
            hydration_failures: bumped(metrics.hydration_failures),
            ..metrics
        },
        ActivationEnd::LaunchFailed => EntityMetrics {
            launch_failures: bumped(metrics.launch_failures),
            ..metrics
        },
        ActivationEnd::Activated => EntityMetrics {
            activations: bumped(metrics.activations),
            residents: bumped(metrics.residents),
            ..metrics
        },
    }
}

/// How many activations have ended.
pub open spec fn ended(metrics: EntityMetrics) -> int {
    metrics.activations + metrics.hydration_failures + metrics.launch_failures
        + metrics.capacity_refusals
}

/// Every activation is counted once, whichever way it ends.
pub proof fn law_every_activation_is_counted_once(metrics: EntityMetrics, end: ActivationEnd)
    requires
        metrics.activations < usize::MAX,
        metrics.hydration_failures < usize::MAX,
        metrics.launch_failures < usize::MAX,
        metrics.capacity_refusals < usize::MAX,
    ensures
        ended(counted(metrics, end)) == ended(metrics) + 1,
        counted(metrics, end).peak_hydrations == metrics.peak_hydrations,
        counted(metrics, end).forced_retirements == metrics.forced_retirements,
        counted(metrics, end).residents != metrics.residents ==> end is Activated,
{
}

/// A family never hydrates more entities at once than its bound: beginning one
/// that it may begin stays within it, and so does the peak, and so does the end of
/// one that had begun.
pub proof fn law_hydrations_stay_within_the_bound(
    capacity: EntityCapacity,
    hydrating: usize,
    peak: usize,
)
    requires
        hydrating <= capacity.hydration_bound(),
        peak <= capacity.hydration_bound(),
    ensures
        may_hydrate(capacity, hydrating) ==> hydrating + 1 <= capacity.hydration_bound() && (
        if peak < hydrating + 1 {
            hydrating + 1
        } else {
            peak as int
        }) <= capacity.hydration_bound(),
        hydrating > 0 ==> dropped(hydrating) <= capacity.hydration_bound(),
        !may_hydrate(capacity, hydrating) ==> hydrating == capacity.hydration_bound(),
{
}

/// A retirement undoes what an activation did to the number of residents.
pub proof fn law_a_retirement_undoes_an_activation(residents: usize)
    ensures
        dropped(bumped(residents)) == residents,
        bumped(dropped(residents)) == residents,
{
}

/// Stable identity reference to one entity of one family.
#[derive(Debug, Clone, Copy)]
pub struct EntityRef<F, I> {
    entities: F,
    id: EntityId<I>,
}

/// Receptionist for one installed family.
#[derive(Debug, Clone, Copy)]
pub struct Entities<F> {
    family: F,
}

/// One command for one entity, as an actor asks its interpreter to admit it.
#[derive(Debug)]
pub struct EntityAdmission<F, I, C> {
    /// The entity.
    pub entity: EntityRef<F, I>,
    /// The command.
    pub command: C,
}

impl<F: Clone> Entities<F> {
    /// The family.
    pub closed spec fn family(self) -> F {
        self.family
    }

    /// The receptionist of an installed family.
    pub fn new(family: F) -> (entities: Self)
        ensures
            entities.family() == family,
    {
        Entities { family }
    }

    /// Bind one domain identity into a stable family-specific reference.
    pub fn entity<I>(&self, id: I) -> (entity: EntityRef<F, I>)
        ensures
            cloned(self.family(), entity.family()),
            entity.identity() == id,
    {
        EntityRef { entities: self.family.clone(), id: EntityId::new(id) }
    }
}

impl<F: Clone, I> EntityRef<F, I> {
    /// The family.
    pub closed spec fn family(self) -> F {
        self.entities
    }

    /// The domain identity.
    pub closed spec fn identity(self) -> I {
        self.id@
    }

    /// Borrow the stable domain identity.
    pub fn id(&self) -> (id: &I)
        ensures
            *id == self.identity(),
    {
        self.id.get()
    }

    /// The family that the entity belongs to.
    pub fn entities(&self) -> (family: F)
        ensures
            cloned(self.family(), family),
    {
        self.entities.clone()
    }

    /// Form one typed request for the emitting actor's interpreter.
    pub fn request<C>(&self, command: C) -> (request: EntityAdmission<F, I, C>) where I: Clone
        ensures
            cloned(self.family(), request.entity.family()),
            cloned(self.identity(), request.entity.identity()),
            request.command == command,
    {
        let entity = EntityRef {
            entities: self.entities.clone(),
            id: EntityId::new(self.id.get().clone()),
        };
        EntityAdmission { entity, command }
    }
}

/// The tasks that a family has started and not joined.
#[derive(Debug)]
pub struct EntityTaskOwner<T> {
    tasks: Vec<T>,
}

/// The tasks that have not finished, in order.
pub open spec fn unfinished<T>(tasks: Seq<T>, finished: Seq<bool>) -> Seq<T>
    decreases tasks.len(),
{
    if tasks.len() == 0 {
        Seq::empty()
    } else if finished[tasks.len() - 1] {
        unfinished(tasks.drop_last(), finished)
    } else {
        unfinished(tasks.drop_last(), finished).push(tasks.last())
    }
}

impl<T> View for EntityTaskOwner<T> {
    type V = Seq<T>;

    closed spec fn view(&self) -> Seq<T> {
        self.tasks@
    }
}

impl<T> EntityTaskOwner<T> {
    /// There is no task.
    pub fn new() -> (owner: Self)
        ensures
            owner@ == Seq::<T>::empty(),
    {
        EntityTaskOwner { tasks: Vec::new() }
    }

    /// The tasks, oldest first.
    pub fn tasks(&self) -> (tasks: &Vec<T>)
        ensures
            tasks@ == self@,
    {
        &self.tasks
    }

    /// Own one more task, and forget those that have finished.
    pub fn track(&mut self, finished: &Vec<bool>, task: T)
        requires
            finished@.len() == old(self)@.len(),
        ensures
            final(self)@ == unfinished(old(self)@, finished@).push(task),
    {
        let mut tasks: Vec<T> = Vec::new();
        core::mem::swap(&mut tasks, &mut self.tasks);
        let ghost all = tasks@;
        let mut kept: Vec<T> = Vec::new();
        let count: usize = finished.len();
        let mut index: usize = 0;
        for owned in iter: tasks
            invariant
                iter.seq() == all,
                all.len() == finished@.len(),
                count == finished@.len(),
                index == iter.index(),
                kept@ == unfinished(all.take(iter.index() as int), finished@),
        {
            proof {
                assert(all.take(index + 1).drop_last() =~= all.take(index as int));
                assert(all.take(index + 1).last() == owned);
            }
            if !finished[index] {
                kept.push(owned);
            }
            index = index + 1;
        }
        proof {
            assert(all.take(all.len() as int) =~= all);
        }
        kept.push(task);
        self.tasks = kept;
    }

    /// Give every task up, to be joined in order.
    pub fn join(&mut self) -> (tasks: Vec<T>)
        ensures
            tasks@ == old(self)@,
            final(self)@ == Seq::<T>::empty(),
    {
        let mut tasks: Vec<T> = Vec::new();
        core::mem::swap(&mut tasks, &mut self.tasks);
        tasks
    }
}

/// A counter goes up and down by one, and wraps at its ends.
pub proof fn law_counters_step_by_one(count: usize)
    ensures
        count < usize::MAX ==> bumped(count) == count + 1,
        count == usize::MAX ==> bumped(count) == 0,
        count > 0 ==> dropped(count) == count - 1,
        count == 0 ==> dropped(count) == usize::MAX,
{
}

/// Each way in which an activation ends has its own counter, and only one that
/// became live counts as a resident. No other counter moves.
pub proof fn law_each_end_has_its_counter(metrics: EntityMetrics, end: ActivationEnd)
    requires
        metrics.activations < usize::MAX,
        metrics.hydration_failures < usize::MAX,
        metrics.launch_failures < usize::MAX,
        metrics.capacity_refusals < usize::MAX,
        metrics.residents < usize::MAX,
    ensures
        ({
            let after = counted(metrics, end);
            &&& after.activations == metrics.activations + if end is Activated {
                1int
            } else {
                0
            }
            &&& after.residents == metrics.residents + if end is Activated {
                1int
            } else {
                0
            }
            &&& after.hydration_failures == metrics.hydration_failures + if end is HydrationFailed {
                1int
            } else {
                0
            }
            &&& after.launch_failures == metrics.launch_failures + if end is LaunchFailed {
                1int
            } else {
                0
            }
            &&& after.capacity_refusals == metrics.capacity_refusals + if end is Refused {
                1int
            } else {
                0
            }
            &&& after.forced_retirements == metrics.forced_retirements
            &&& after.peak_hydrations == metrics.peak_hydrations
        }),
{
}

/// A hydration may begin as long as fewer are under way than the family may have
/// at once.
pub proof fn law_a_hydration_begins_below_the_bound(capacity: EntityCapacity, hydrating: usize)
    ensures
        hydrating < capacity.hydration_bound() ==> may_hydrate(capacity, hydrating),
        hydrating >= capacity.hydration_bound() ==> !may_hydrate(capacity, hydrating),
{
}

/// A finished task is forgotten, and every other one is kept at its place in the
/// order.
pub proof fn law_only_finished_tasks_are_forgotten<T>(
    tasks: Seq<T>,
    task: T,
    finished: Seq<bool>,
)
    ensures
        unfinished(Seq::<T>::empty(), finished).len() == 0,
        finished[tasks.len() as int] ==> unfinished(tasks.push(task), finished) == unfinished(
            tasks,
            finished,
        ),
        !finished[tasks.len() as int] ==> unfinished(tasks.push(task), finished) == unfinished(
            tasks,
            finished,
        ).push(task),
{
    assert(tasks.push(task).drop_last() =~= tasks);
}

} // verus!
