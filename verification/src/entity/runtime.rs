//! Admission, passivation and settled shutdown of one entity family.

use std::hash::Hash;

use vstd::arithmetic::power2::is_pow2;
use vstd::prelude::*;
use vstd::std_specs::hash::obeys_key_model;

use crate::cloning::{copied, faithful};
use crate::entity::directory::{
    calls_of, dequeued, drain_effects, drain_pending, drained_once, drains, enqueued, forgets,
    DirectoryConfig, DirectoryError, DirectoryModel, DirectoryOutput, DispatchOutput,
    EffectCall, EffectInterpreter, LocalDirectory, PendingEffects,
};
use crate::entity::id::{
    law_activation_is_its_sequence, law_identity_is_the_domain_value, ActivationId, DispatchId,
    EntityId,
};
use crate::entity::lifecycle::{
    effects_of, evidence_of, next_state, rejections, DrainFailure, DrainStage, LifecycleEdge,
    LifecyclePhase, LifecycleTrigger, Refusal, SlotEffect, SlotEvent, SlotModel,
    TransitionEvidence,
};
use crate::entity::tasks::{begun, finished, EntityTaskGroup};

verus! {

/// Exact-incarnation capabilities returned by transactional activation.
#[derive(Debug)]
pub struct Activated<E, L> {
    /// Delivery-only capability.
    pub endpoint: E,
    /// Affine retirement capability.
    pub lease: L,
}

/// Stage at which an ordered fence operation failed.
#[derive(Debug, Clone, Copy, PartialEq, Eq, Structural)]
pub enum FenceFailure {
    /// The fence was not enqueued.
    Enqueue,
    /// The fence was enqueued but not acknowledged.
    Acknowledgement,
}

impl FenceFailure {
    /// How a fence is answered that its actor collects at retirement, before it
    /// was reached.
    pub fn collected() -> (answer: Result<(), FenceFailure>)
        ensures
            answer == Err::<(), FenceFailure>(FenceFailure::Acknowledgement),
    {
        Err(FenceFailure::Acknowledgement)
    }

    /// The failure in words.
    pub fn message(&self) -> (message: &'static str)
        ensures
            message@ == match self {
                FenceFailure::Enqueue => "fence was not enqueued"@,
                FenceFailure::Acknowledgement => "fence was enqueued but not acknowledged"@,
            },
    {
        match self {
            FenceFailure::Enqueue => "fence was not enqueued",
            FenceFailure::Acknowledgement => "fence was enqueued but not acknowledged",
        }
    }

    /// The drain failure that a failed fence amounts to. The fence is enqueued
    /// when every delivery has settled, so nothing is outstanding.
    pub fn drain_failure(self) -> (failure: DrainFailure)
        ensures
            failure == (DrainFailure {
                stage: match self {
                    FenceFailure::Enqueue => DrainStage::FenceEnqueue,
                    FenceFailure::Acknowledgement => DrainStage::FenceAcknowledgement,
                },
                outstanding_reservations: 0,
            }),
    {
        DrainFailure {
            stage: match self {
                FenceFailure::Enqueue => DrainStage::FenceEnqueue,
                FenceFailure::Acknowledgement => DrainStage::FenceAcknowledgement,
            },
            outstanding_reservations: 0,
        }
    }
}

/// Outcome of one graceful passivation call.
#[derive(Debug, Clone, Copy, PartialEq, Eq, Structural)]
pub enum Passivation {
    /// Admission was closed by this call.
    Begun,
    /// No active incarnation exists to passivate.
    NotActive,
    /// A passivation was already in progress for the exact incarnation.
    AlreadyPassivating,
    /// The observed incarnation was superseded before the drain took effect.
    Superseded,
}

/// The outcome of a passivation whose drain request did this to the slot.
pub open spec fn passivation_of(evidence: TransitionEvidence) -> Passivation {
    match evidence {
        TransitionEvidence::Traversed(_) => Passivation::Begun,
        TransitionEvidence::SelfLoop { phase, .. } => stalled_passivation(phase),
        TransitionEvidence::Ignored { phase, .. } => stalled_passivation(phase),
    }
}

/// The outcome of a passivation that found the slot in this phase and left it.
pub open spec fn stalled_passivation(phase: LifecyclePhase) -> Passivation {
    match phase {
        LifecyclePhase::Active => Passivation::Superseded,
        LifecyclePhase::Draining | LifecyclePhase::Retiring => Passivation::AlreadyPassivating,
        LifecyclePhase::Inactive | LifecyclePhase::Activating => Passivation::NotActive,
    }
}

impl Passivation {
    /// Classify what a drain request did to the slot.
    pub fn classify(evidence: TransitionEvidence) -> (passivation: Self)
        ensures
            passivation == passivation_of(evidence),
    {
        match evidence {
            TransitionEvidence::Traversed(_) => Passivation::Begun,
            TransitionEvidence::SelfLoop { phase, .. }
            | TransitionEvidence::Ignored { phase, .. } => match phase {
                LifecyclePhase::Active => Passivation::Superseded,
                LifecyclePhase::Draining
                | LifecyclePhase::Retiring => Passivation::AlreadyPassivating,
                LifecyclePhase::Inactive | LifecyclePhase::Activating => Passivation::NotActive,
            },
        }
    }
}

/// Failure from one admitted command with command ownership preserved.
#[derive(Debug)]
pub enum AdmissionFailure<C> {
    /// Lifecycle admission or delivery refused the command.
    Refused {
        /// Original command.
        command: C,
        /// Exact refusal classification.
        reason: Refusal,
    },
    /// The non-reusable activation identity namespace is exhausted.
    ActivationIdsExhausted(C),
    /// The non-reusable dispatch identity namespace is exhausted.
    DispatchIdsExhausted(C),
}

impl<C> AdmissionFailure<C> {
    /// The failure in words.
    pub fn message(&self) -> (message: &'static str)
        ensures
            message@ == match self {
                AdmissionFailure::Refused { .. } =>
                    "lifecycle admission or delivery refused the command"@,
                AdmissionFailure::ActivationIdsExhausted(_) =>
                    "activation identity namespace is exhausted"@,
                AdmissionFailure::DispatchIdsExhausted(_) =>
                    "dispatch identity namespace is exhausted"@,
            },
    {
        match self {
            AdmissionFailure::Refused { .. } => {
                "lifecycle admission or delivery refused the command"
            },
            AdmissionFailure::ActivationIdsExhausted(_) => {
                "activation identity namespace is exhausted"
            },
            AdmissionFailure::DispatchIdsExhausted(_) => "dispatch identity namespace is exhausted",
        }
    }
}

/// Exact caller provenance and command custody for one admitted delivery.
///
/// `P` is the authority to tell the caller what became of the command.
#[derive(Debug)]
pub struct PendingCommand<O, C, P> {
    pub origin: O,
    pub command: C,
    pub publisher: P,
}

/// What is left of a delivery once the endpoint answered.
#[derive(Debug)]
pub enum DeliverySettlement<O, C, P> {
    /// The caller is told of success.
    Delivered { publisher: P },
    /// The command goes back through the lifecycle.
    Failed { failure: (DispatchId, PendingCommand<O, C, P>) },
}

impl<O, C, P> PendingCommand<O, C, P> {
    /// Settle a delivery: a command that the endpoint returned keeps its
    /// origin and the authority over its caller.
    pub fn settle(dispatch_id: DispatchId, origin: O, publisher: P, answer: Result<(), C>) -> (
    settlement: DeliverySettlement<O, C, P>)
        ensures
            settlement == match answer {
                Ok(_) => DeliverySettlement::Delivered { publisher },
                Err(command) => DeliverySettlement::Failed {
                    failure: (dispatch_id, PendingCommand { origin, command, publisher }),
                },
            },
    {
        match answer {
            Ok(_) => DeliverySettlement::Delivered { publisher },
            Err(command) => DeliverySettlement::Failed {
                failure: (dispatch_id, PendingCommand { origin, command, publisher }),
            },
        }
    }

    /// Refuse a command: whom to tell, and the failure with the command itself.
    pub fn refuse(self, reason: Refusal) -> (refused: (P, AdmissionFailure<C>))
        ensures
            refused == (
                self.publisher,
                AdmissionFailure::Refused { command: self.command, reason },
            ),
    {
        (self.publisher, AdmissionFailure::Refused { command: self.command, reason })
    }
}

/// Exact summary of one completed family shutdown transaction.
#[derive(Debug, Clone, Copy, PartialEq, Eq, Structural)]
pub struct EntityShutdown {
    /// Number of represented incarnation slots observed at the drain boundary.
    pub represented: usize,
}

/// Whether the family takes commands.
#[derive(Debug, Clone, Copy, PartialEq, Eq, Structural)]
pub enum EntityAdmission {
    Open,
    Closed,
}

/// What a caller whose command was dispatched holds while it waits.
#[derive(Debug)]
pub struct DispatchWait<I> {
    pub entity_id: EntityId<I>,
    /// The activation that may still retain the command.
    pub activation_id: Option<ActivationId>,
    pub dispatch_id: DispatchId,
    /// The slot that took the command.
    pub slot: ActivationId,
}

impl<I> DispatchWait<I> {
    /// What the slot asked for when it took the command.
    pub open spec fn effects<C, E, L>(
        self,
        directory: DirectoryModel<I, C, E, L>,
        command: C,
    ) -> Seq<SlotEffect<C, E, L>> {
        effects_of(
            directory.state(self.entity_id@),
            directory.dispatch_event(self.entity_id@, self.dispatch_id, self.slot, command),
        )
    }

    /// Whether the caller waits for a command that this directory dispatched
    /// to `entity_id`.
    pub open spec fn answers<C, E, L>(
        self,
        directory: DirectoryModel<I, C, E, L>,
        entity_id: EntityId<I>,
        command: C,
    ) -> bool {
        &&& self.entity_id == entity_id
        &&& self.dispatch_id@ == directory.next_dispatch
        &&& directory.slots.contains_key(entity_id@) ==> self.slot
            == directory.slots[entity_id@].0
        &&& !directory.slots.contains_key(entity_id@) ==> self.slot@ == directory.next_activation
        &&& self.activation_id == next_state(
            directory.state(entity_id@),
            directory.dispatch_event(entity_id@, self.dispatch_id, self.slot, command),
        ).activation()
    }

    /// Note that the caller has been told: nothing is left to cancel.
    pub fn settled(&mut self)
        ensures
            final(self).activation_id is None,
            final(self).entity_id == old(self).entity_id,
            final(self).dispatch_id == old(self).dispatch_id,
            final(self).slot == old(self).slot,
    {
        self.activation_id = None;
    }
}

/// What a family shutdown waits for or yields.
#[derive(Debug, Clone, Copy, PartialEq, Eq, Structural)]
pub enum ShutdownStep {
    /// Go on when no lifecycle task is scheduled.
    AwaitIdle,
    /// The shutdown is complete.
    Finished(EntityShutdown),
}

/// How far a family shutdown has come.
#[derive(Debug, Clone, Copy, PartialEq, Eq, Structural)]
pub enum FamilyShutdown {
    /// Installed activations and deliveries settle.
    Settling,
    /// Every represented incarnation drains.
    Draining { represented: usize },
    /// Nothing is left.
    Done(EntityShutdown),
}

/// Local stable routing to the entities of one family.
pub struct EntityRuntime<I, O, C, P, E, L, T> {
    directory: LocalDirectory<I, PendingCommand<O, C, P>, E, L>,
    admission: EntityAdmission,
    tasks: EntityTaskGroup<T>,
}

impl<I: Clone, O, C, P, E: Clone, L, T> EntityRuntime<I, O, C, P, E, L, T> {
    /// The represented slots.
    pub closed spec fn directory(&self) -> DirectoryModel<I, PendingCommand<O, C, P>, E, L> {
        self.directory@
    }

    /// Whether the family takes commands.
    pub closed spec fn admission(&self) -> EntityAdmission {
        self.admission
    }

    /// The scheduled lifecycle tasks.
    pub closed spec fn tasks(&self) -> EntityTaskGroup<T> {
        self.tasks
    }

    /// The invariant that every operation keeps: every decision of the
    /// directory has been interpreted.
    pub closed spec fn wf(&self) -> bool {
        &&& self.directory.wf()
        &&& self.directory.pending() == Map::<
            u64,
            Seq<SlotEffect<PendingCommand<O, C, P>, E, L>>,
        >::empty()
        &&& self.tasks.wf()
        &&& faithful::<I>()
    }
}

impl<I: Clone + Eq + Hash, O, C, P, E: Clone, L, T> EntityRuntime<I, O, C, P, E, L, T> {
    /// Routing with nothing represented, unless the shard count is not a power
    /// of two.
    pub fn new(config: DirectoryConfig) -> (created: Result<Self, DirectoryError<C>>)
        requires
            obeys_key_model::<I>(),
            faithful::<I>(),
            faithful::<E>(),
        ensures
            match created {
                Ok(runtime) => {
                    &&& is_pow2(config.shards@ as int)
                    &&& runtime.wf()
                    &&& runtime.admission() == EntityAdmission::Open
                    &&& runtime.tasks() == (EntityTaskGroup::<T>::Open {
                        active: 0,
                        idle_epoch: None,
                    })
                    &&& runtime.directory() == (DirectoryModel::<I, PendingCommand<O, C, P>, E, L> {
                        slots: Map::empty(),
                        next_activation: 1,
                        next_dispatch: 1,
                        waiter_limit: config.activation_waiters,
                    })
                },
                Err(DirectoryError::InvalidShardCount) => !is_pow2(config.shards@ as int),
                Err(_) => false,
            },
    {
        match LocalDirectory::new(config) {
            Ok(directory) => Ok(
                EntityRuntime {
                    directory,
                    admission: EntityAdmission::Open,
                    tasks: EntityTaskGroup::new(),
                },
            ),
            Err(DirectoryError::InvalidShardCount) => Err(DirectoryError::InvalidShardCount),
            Err(DirectoryError::ActivationIdsExhausted(pending)) => Err(
                DirectoryError::ActivationIdsExhausted(pending.command),
            ),
            Err(DirectoryError::DispatchIdsExhausted(pending)) => Err(
                DirectoryError::DispatchIdsExhausted(pending.command),
            ),
        }
    }

    /// Admit a command for delivery through stable entity routing.
    ///
    /// A closed family refuses it. Otherwise it is dispatched and the effects
    /// are handed to `runtime`; the caller waits to be told through
    /// `publisher`. Every failure brings the original command back.
    pub fn admit_command<R: EffectInterpreter<I, PendingCommand<O, C, P>, E, L>>(
        &mut self,
        origin: O,
        entity_id: EntityId<I>,
        command: C,
        publisher: P,
        runtime: &mut R,
    ) -> (admitted: Result<DispatchWait<I>, AdmissionFailure<C>>)
        requires
            old(self).wf(),
        ensures
            final(self).wf(),
            final(self).admission() == old(self).admission(),
            final(self).tasks() == old(self).tasks(),
            match admitted {
                Err(AdmissionFailure::Refused { command: returned, reason }) => {
                    &&& old(self).admission() == EntityAdmission::Closed
                    &&& returned == command
                    &&& reason == Refusal::Shutdown
                    &&& final(self).directory() == old(self).directory()
                    &&& final(runtime).interpreted() == old(runtime).interpreted()
                },
                Err(AdmissionFailure::DispatchIdsExhausted(returned)) => {
                    &&& old(self).admission() == EntityAdmission::Open
                    &&& old(self).directory().next_dispatch == u64::MAX
                    &&& returned == command
                    &&& final(self).directory() == old(self).directory()
                    &&& final(runtime).interpreted() == old(runtime).interpreted()
                },
                Err(AdmissionFailure::ActivationIdsExhausted(returned)) => {
                    &&& old(self).admission() == EntityAdmission::Open
                    &&& old(self).directory().next_dispatch < u64::MAX
                    &&& !old(self).directory().slots.contains_key(entity_id@)
                    &&& old(self).directory().next_activation == u64::MAX
                    &&& returned == command
                    &&& final(self).directory() == old(self).directory().issued()
                    &&& final(runtime).interpreted() == old(runtime).interpreted()
                },
                Ok(wait) => {
                    let pending = PendingCommand { origin, command, publisher };
                    &&& old(self).admission() == EntityAdmission::Open
                    &&& old(self).directory().next_dispatch < u64::MAX
                    &&& old(self).directory().slots.contains_key(entity_id@) || old(
                        self,
                    ).directory().next_activation < u64::MAX
                    &&& wait.answers(old(self).directory(), entity_id, pending)
                    &&& final(self).directory() == old(self).directory().dispatched(
                        entity_id@,
                        wait.dispatch_id,
                        wait.slot,
                        pending,
                    ).interpreted(
                        entity_id@,
                        Some(wait.slot),
                        wait.effects(old(self).directory(), pending),
                    )
                    &&& final(runtime).interpreted() == old(runtime).interpreted() + calls_of(
                        entity_id,
                        wait.effects(old(self).directory(), pending),
                    )
                },
            },
    {
        match self.admission {
            EntityAdmission::Open => {},
            EntityAdmission::Closed => {
                return Err(AdmissionFailure::Refused { command, reason: Refusal::Shutdown });
            },
        }
        let pending = PendingCommand { origin, command, publisher };
        let ghost before = self.directory();
        let waiting = EntityId::new(copied(entity_id.get()));
        proof {
            law_identity_is_the_domain_value(waiting, entity_id);
        }
        match self.directory.dispatch(entity_id, pending) {
            Ok(DispatchOutput { dispatch_id, output }) => {
                let activation_id = output.activation_id;
                let slot = output.slot.unwrap();
                proof {
                    lemma_decision_alone(
                        output,
                        effects_of(
                            before.state(waiting@),
                            before.dispatch_event(waiting@, dispatch_id, slot, pending),
                        ),
                    );
                }
                self.interpret(output, runtime);
                Ok(DispatchWait { entity_id: waiting, activation_id, dispatch_id, slot })
            },
            Err(DirectoryError::InvalidShardCount) => vstd::pervasive::unreached(),
            Err(DirectoryError::ActivationIdsExhausted(pending)) => Err(
                AdmissionFailure::ActivationIdsExhausted(pending.command),
            ),
            Err(DirectoryError::DispatchIdsExhausted(pending)) => Err(
                AdmissionFailure::DispatchIdsExhausted(pending.command),
            ),
        }
    }

    /// Whether the family takes commands.
    pub fn admission_is_closed(&self) -> (closed: bool)
        ensures
            closed == (self.admission() == EntityAdmission::Closed),
    {
        self.admission == EntityAdmission::Closed
    }

    /// Whether no entity is represented.
    pub fn is_empty(&self) -> (empty: bool)
        requires
            self.wf(),
        ensures
            empty == (self.directory().slots.len() == 0),
    {
        self.directory.is_empty()
    }

    /// Hand the one decision that awaits interpretation to the runtime.
    fn interpret<R: EffectInterpreter<I, PendingCommand<O, C, P>, E, L>>(
        &mut self,
        output: DirectoryOutput<I, PendingCommand<O, C, P>, E, L>,
        runtime: &mut R,
    )
        requires
            faithful::<I>(),
            old(self).directory.wf(),
            old(self).tasks.wf(),
            old(self).directory.pending() == decision_alone(
                output.slot,
                output.awaiting(old(self).directory.pending()),
            ),
        ensures
            final(self).wf(),
            final(self).admission() == old(self).admission(),
            final(self).tasks() == old(self).tasks(),
            final(self).directory() == old(self).directory().interpreted(
                output.entity_id@,
                output.slot,
                output.awaiting(old(self).directory.pending()),
            ),
            final(runtime).interpreted() == old(runtime).interpreted() + calls_of(
                output.entity_id,
                output.awaiting(old(self).directory.pending()),
            ),
    {
        self.directory.interpret(output, runtime);
        assert(self.directory.pending() =~= Map::<
            u64,
            Seq<SlotEffect<PendingCommand<O, C, P>, E, L>>,
        >::empty());
    }

    /// An activation task is done: install its incarnation or its failure.
    pub fn activation_completed<R: EffectInterpreter<I, PendingCommand<O, C, P>, E, L>>(
        &mut self,
        entity_id: &EntityId<I>,
        activation_id: ActivationId,
        activated: Option<Activated<E, L>>,
        runtime: &mut R,
    )
        requires
            old(self).wf(),
        ensures
            final(self).wf(),
            final(self).admission() == old(self).admission(),
            final(self).tasks() == old(self).tasks(),
            final(self).directory() == settled_by(
                old(self).directory(),
                entity_id@,
                activation_event(activation_id, activated),
            ),
            final(runtime).interpreted() == old(runtime).interpreted() + calls_of(
                *entity_id,
                effects_of(
                    old(self).directory().state(entity_id@),
                    activation_event::<PendingCommand<O, C, P>, E, L>(activation_id, activated),
                ),
            ),
    {
        let ghost before = self.directory();
        let output = match activated {
            Some(activated) => self.directory.activation_succeeded(
                entity_id,
                activation_id,
                activated.endpoint,
                activated.lease,
            ),
            None => self.directory.activation_failed(entity_id, activation_id),
        };
        proof {
            law_identity_is_the_domain_value(output.entity_id, *entity_id);
            lemma_decision_alone(
                output,
                effects_of(
                    before.state(entity_id@),
                    activation_event(activation_id, activated),
                ),
            );
        }
        self.interpret(output, runtime);
    }

    /// A delivery task is done: a failed delivery brings its command back.
    pub fn delivery_completed<R: EffectInterpreter<I, PendingCommand<O, C, P>, E, L>>(
        &mut self,
        entity_id: &EntityId<I>,
        activation_id: ActivationId,
        failure: Option<(DispatchId, PendingCommand<O, C, P>)>,
        runtime: &mut R,
    )
        requires
            old(self).wf(),
        ensures
            final(self).wf(),
            final(self).admission() == old(self).admission(),
            final(self).tasks() == old(self).tasks(),
            final(self).directory() == settled_by(
                old(self).directory(),
                entity_id@,
                SlotEvent::DeliveryResolved { activation_id, failure },
            ),
            final(runtime).interpreted() == old(runtime).interpreted() + calls_of(
                *entity_id,
                effects_of(
                    old(self).directory().state(entity_id@),
                    SlotEvent::DeliveryResolved { activation_id, failure },
                ),
            ),
    {
        let ghost before = self.directory();
        let output = self.directory.delivery_resolved(entity_id, activation_id, failure);
        proof {
            law_identity_is_the_domain_value(output.entity_id, *entity_id);
            lemma_decision_alone(
                output,
                effects_of(
                    before.state(entity_id@),
                    SlotEvent::DeliveryResolved { activation_id, failure },
                ),
            );
        }
        self.interpret(output, runtime);
    }

    /// A fence task is done: the drain goes on, or is forced.
    pub fn fence_completed<R: EffectInterpreter<I, PendingCommand<O, C, P>, E, L>>(
        &mut self,
        entity_id: &EntityId<I>,
        activation_id: ActivationId,
        fenced: Result<(), FenceFailure>,
        runtime: &mut R,
    )
        requires
            old(self).wf(),
        ensures
            final(self).wf(),
            final(self).admission() == old(self).admission(),
            final(self).tasks() == old(self).tasks(),
            final(self).directory() == settled_by(
                old(self).directory(),
                entity_id@,
                fence_event(activation_id, fenced),
            ),
            final(runtime).interpreted() == old(runtime).interpreted() + calls_of(
                *entity_id,
                effects_of(
                    old(self).directory().state(entity_id@),
                    fence_event::<PendingCommand<O, C, P>, E, L>(activation_id, fenced),
                ),
            ),
    {
        let ghost before = self.directory();
        let output = match fenced {
            Ok(_) => self.directory.fence_acknowledged(entity_id, activation_id),
            Err(failure) => self.directory.force_drain(
                entity_id,
                activation_id,
                failure.drain_failure(),
            ),
        };
        proof {
            law_identity_is_the_domain_value(output.entity_id, *entity_id);
            lemma_decision_alone(
                output,
                effects_of(
                    before.state(entity_id@),
                    fence_event(activation_id, fenced),
                ),
            );
        }
        self.interpret(output, runtime);
    }

    /// A retirement task is done: the incarnation has terminated.
    pub fn retirement_completed<R: EffectInterpreter<I, PendingCommand<O, C, P>, E, L>>(
        &mut self,
        entity_id: &EntityId<I>,
        activation_id: ActivationId,
        runtime: &mut R,
    )
        requires
            old(self).wf(),
        ensures
            final(self).wf(),
            final(self).admission() == old(self).admission(),
            final(self).tasks() == old(self).tasks(),
            final(self).directory() == settled_by(
                old(self).directory(),
                entity_id@,
                SlotEvent::Terminated { activation_id },
            ),
            final(runtime).interpreted() == old(runtime).interpreted() + calls_of(
                *entity_id,
                effects_of(
                    old(self).directory().state(entity_id@),
                    SlotEvent::Terminated { activation_id },
                ),
            ),
    {
        let ghost before = self.directory();
        let output = self.directory.terminated(entity_id, activation_id);
        proof {
            law_identity_is_the_domain_value(output.entity_id, *entity_id);
            lemma_decision_alone(
                output,
                effects_of(
                    before.state(entity_id@),
                    SlotEvent::Terminated { activation_id },
                ),
            );
        }
        self.interpret(output, runtime);
    }

    /// A caller stopped waiting. Its command is given up only while it is
    /// retained by the activation in flight.
    pub fn cancel_wait<R: EffectInterpreter<I, PendingCommand<O, C, P>, E, L>>(
        &mut self,
        wait: DispatchWait<I>,
        runtime: &mut R,
    )
        requires
            old(self).wf(),
        ensures
            final(self).wf(),
            final(self).admission() == old(self).admission(),
            final(self).tasks() == old(self).tasks(),
            match wait.activation_id {
                Some(activation_id) => {
                    let event = SlotEvent::CancelWaiter {
                        activation_id,
                        dispatch_id: wait.dispatch_id,
                    };
                    &&& final(self).directory() == settled_by(
                        old(self).directory(),
                        wait.entity_id@,
                        event,
                    )
                    &&& final(runtime).interpreted() == old(runtime).interpreted() + calls_of(
                        wait.entity_id,
                        effects_of(old(self).directory().state(wait.entity_id@), event),
                    )
                },
                None => final(self).directory() == old(self).directory()
                    && final(runtime).interpreted() == old(runtime).interpreted(),
            },
    {
        let ghost before = self.directory();
        if let Some(activation_id) = wait.activation_id {
            let output = self.directory.cancel_waiter(
                &wait.entity_id,
                activation_id,
                wait.dispatch_id,
            );
            proof {
                law_identity_is_the_domain_value(output.entity_id, wait.entity_id);
                lemma_decision_alone(
                    output,
                    effects_of(
                        before.state(wait.entity_id@),
                        SlotEvent::CancelWaiter { activation_id, dispatch_id: wait.dispatch_id },
                    ),
                );
            }
            self.interpret(output, runtime);
        }
    }

    /// Begin graceful passivation if the entity has an active incarnation.
    pub fn passivate<R: EffectInterpreter<I, PendingCommand<O, C, P>, E, L>>(
        &mut self,
        entity_id: &EntityId<I>,
        runtime: &mut R,
    ) -> (passivation: Passivation)
        requires
            old(self).wf(),
        ensures
            final(self).wf(),
            final(self).admission() == old(self).admission(),
            final(self).tasks() == old(self).tasks(),
            match old(self).directory().state(entity_id@).activation() {
                Some(activation_id) => {
                    let state = old(self).directory().state(entity_id@);
                    let event = SlotEvent::BeginDrain { activation_id };
                    &&& passivation == passivation_of(evidence_of(state, event))
                    &&& final(self).directory() == old(self).directory().submitted(
                        entity_id@,
                        event,
                    )
                    &&& final(runtime).interpreted() == old(runtime).interpreted() + calls_of(
                        *entity_id,
                        effects_of(state, event),
                    )
                },
                None => passivation == Passivation::NotActive && final(self).directory() == old(
                    self,
                ).directory() && final(runtime).interpreted() == old(runtime).interpreted(),
            },
    {
        let ghost before = self.directory();
        match self.directory.current_activation(entity_id) {
            Some(activation_id) => {
                let output = self.directory.begin_drain(entity_id, activation_id);
                let passivation = Passivation::classify(output.evidence);
                proof {
                    law_identity_is_the_domain_value(output.entity_id, *entity_id);
                    lemma_decision_alone(
                        output,
                        effects_of(
                            before.state(entity_id@),
                            SlotEvent::BeginDrain { activation_id },
                        ),
                    );
                    lemma_drain_forgets_nothing(
                        old(self).directory().state(entity_id@),
                        activation_id,
                    );
                }
                self.interpret(output, runtime);
                passivation
            },
            None => Passivation::NotActive,
        }
    }

    /// Count one more lifecycle task; the first of an epoch installs `fresh`.
    pub fn begin_task(&mut self, fresh: T) -> (unused: Option<T>)
        requires
            old(self).wf(),
            old(self).tasks() is Open,
            old(self).tasks()->active < usize::MAX,
        ensures
            final(self).wf(),
            final(self).directory() == old(self).directory(),
            final(self).admission() == old(self).admission(),
            final(self).tasks() == begun(old(self).tasks(), fresh),
            unused == if old(self).tasks()->active == 0 {
                None
            } else {
                Some(fresh)
            },
    {
        self.tasks.begin(fresh)
    }

    /// Settle one lifecycle task; the last of an epoch ends it.
    pub fn finish_task(&mut self) -> (ended: Option<T>)
        requires
            old(self).wf(),
            old(self).tasks() is Open,
            old(self).tasks()->active >= 1,
        ensures
            final(self).wf(),
            final(self).directory() == old(self).directory(),
            final(self).admission() == old(self).admission(),
            final(self).tasks() == finished(old(self).tasks()),
            ended == if old(self).tasks()->active == 1 {
                old(self).tasks()->idle_epoch
            } else {
                None
            },
    {
        self.tasks.finish()
    }

    /// How many lifecycle tasks are scheduled; `None` once the family has shut
    /// down.
    pub fn scheduled_tasks(&self) -> (scheduled: Option<usize>)
        ensures
            scheduled == match self.tasks() {
                EntityTaskGroup::Open { active, .. } => Some(active),
                EntityTaskGroup::Closed => None,
            },
    {
        match &self.tasks {
            EntityTaskGroup::Open { active, .. } => Some(*active),
            EntityTaskGroup::Closed => None,
        }
    }

    /// What a caller waits for until no lifecycle task is scheduled.
    pub fn wait_idle(&self) -> (epoch: Option<&T>)
        requires
            self.wf(),
        ensures
            epoch is None <==> self.tasks().idle(),
            epoch matches Some(running) ==> self.tasks()->idle_epoch == Some(*running),
    {
        self.tasks.wait_idle()
    }
}

/// What awaits interpretation when one decision of `slot` does, and nothing
/// else.
pub open spec fn decision_alone<C, E, L>(
    slot: Option<ActivationId>,
    effects: Seq<SlotEffect<C, E, L>>,
) -> PendingEffects<C, E, L> {
    match slot {
        Some(slot) => Map::empty().insert(slot@, effects),
        None => Map::empty(),
    }
}

/// A decision that is queued where nothing was awaits interpretation alone.
proof fn lemma_decision_alone<I, C, E, L>(
    output: DirectoryOutput<I, C, E, L>,
    effects: Seq<SlotEffect<C, E, L>>,
)
    requires
        output.slot is None ==> output.effects@ == effects,
    ensures
        ({
            let pending = enqueued(
                Map::<u64, Seq<SlotEffect<C, E, L>>>::empty(),
                output.slot,
                effects,
            );
            &&& output.awaiting(pending) == effects
            &&& pending == decision_alone(output.slot, effects)
        }),
{
    assert(Seq::<SlotEffect<C, E, L>>::empty() + effects =~= effects);
}

/// What the slot is told of a completed activation.
pub open spec fn activation_event<C, E, L>(
    activation_id: ActivationId,
    activated: Option<Activated<E, L>>,
) -> SlotEvent<C, E, L> {
    match activated {
        Some(Activated { endpoint, lease }) => SlotEvent::ActivationSucceeded {
            activation_id,
            endpoint,
            lease,
        },
        None => SlotEvent::ActivationFailed { activation_id },
    }
}

/// What the slot is told of a completed fence.
pub open spec fn fence_event<C, E, L>(
    activation_id: ActivationId,
    fenced: Result<(), FenceFailure>,
) -> SlotEvent<C, E, L> {
    match fenced {
        Ok(_) => SlotEvent::FenceAcknowledged { activation_id },
        Err(failure) => SlotEvent::ForceDrain {
            activation_id,
            failure: DrainFailure {
                stage: match failure {
                    FenceFailure::Enqueue => DrainStage::FenceEnqueue,
                    FenceFailure::Acknowledgement => DrainStage::FenceAcknowledgement,
                },
                outstanding_reservations: 0,
            },
        },
    }
}

/// The directory after a fact about `id` was submitted and interpreted.
pub open spec fn settled_by<I, C, E, L>(
    directory: DirectoryModel<I, C, E, L>,
    id: I,
    event: SlotEvent<C, E, L>,
) -> DirectoryModel<I, C, E, L> {
    directory.submitted(id, event).interpreted(
        id,
        if directory.slots.contains_key(id) {
            Some(directory.slots[id].0)
        } else {
            None
        },
        effects_of(directory.state(id), event),
    )
}

/// A drain request alone never forgets a slot.
proof fn lemma_drain_forgets_nothing<C, E, L>(
    state: SlotModel<C, E, L>,
    activation_id: ActivationId,
)
    ensures
        !forgets(effects_of(state, SlotEvent::BeginDrain { activation_id })),
{
}

/// The entities whose incarnation a family shutdown drains.
pub open spec fn represented_ids<I, C, E, L>(directory: DirectoryModel<I, C, E, L>) -> Set<I> {
    directory.slots.dom().filter(|id: I| directory.state(id).activation() is Some)
}

/// The calls that the drain requests of a family ask for, one decision after the
/// other.
pub open spec fn calls_of_all<I, C, E, L>(
    directory: DirectoryModel<I, C, E, L>,
    outputs: Seq<DirectoryOutput<I, C, E, L>>,
) -> Seq<EffectCall<I, C, E, L>>
    decreases outputs.len(),
{
    if outputs.len() == 0 {
        Seq::empty()
    } else {
        calls_of_all(directory, outputs.drop_last()) + calls_of(
            outputs.last().entity_id,
            drain_effects(directory.state(outputs.last().entity_id@)),
        )
    }
}

/// Whether what awaits interpretation is the decisions of the drain requests
/// from the one numbered `from` to before the one numbered `to`.
spec fn awaits<I, C, E, L>(
    pending: PendingEffects<C, E, L>,
    directory: DirectoryModel<I, C, E, L>,
    outputs: Seq<DirectoryOutput<I, C, E, L>>,
    from: int,
    to: int,
) -> bool {
    &&& forall|j: int|
        from <= j < to ==> pending.contains_key((#[trigger] outputs[j]).slot->0@)
            && pending[outputs[j].slot->0@] == drain_effects(
            directory.state(outputs[j].entity_id@),
        )
    &&& forall|key: u64| #[trigger]
        pending.contains_key(key) ==> exists|j: int|
            from <= j < to && (#[trigger] outputs[j]).slot->0@ == key
}

/// The drain requests of a family go to different slots.
proof fn lemma_drains_part<I, C, E, L>(
    directory: DirectoryModel<I, C, E, L>,
    outputs: Seq<DirectoryOutput<I, C, E, L>>,
    a: int,
    b: int,
)
    requires
        directory.wf(),
        drains(outputs, directory),
        0 <= a < b < outputs.len(),
    ensures
        outputs[a].slot is Some,
        outputs[b].slot is Some,
        outputs[a].slot->0@ != outputs[b].slot->0@,
{
    let (one, other) = (outputs[a].entity_id@, outputs[b].entity_id@);
    assert(directory.slots.contains_key(one) && directory.slots.contains_key(other));
    assert(directory.slots[one].0 != directory.slots[other].0);
    law_activation_is_its_sequence(directory.slots[one].0, directory.slots[other].0);
}

/// The drain requests of a family that had nothing to interpret await
/// interpretation one for each slot.
proof fn lemma_drain_pending<I, C, E, L>(
    directory: DirectoryModel<I, C, E, L>,
    outputs: Seq<DirectoryOutput<I, C, E, L>>,
    count: nat,
)
    requires
        directory.wf(),
        drains(outputs, directory),
        count <= outputs.len(),
    ensures
        awaits(
            drain_pending(
                Map::<u64, Seq<SlotEffect<C, E, L>>>::empty(),
                directory,
                outputs.take(count as int),
            ),
            directory,
            outputs,
            0,
            count as int,
        ),
    decreases count,
{
    let empty = Map::<u64, Seq<SlotEffect<C, E, L>>>::empty();
    let first = outputs.take(count as int);
    if count > 0 {
        let n = count - 1;
        lemma_drain_pending(directory, outputs, n as nat);
        assert(first.drop_last() =~= outputs.take(n));
        assert(first.last() == outputs[n]);
        let before = drain_pending(empty, directory, outputs.take(n));
        let after = drain_pending(empty, directory, first);
        let slot = outputs[n].slot->0;
        let effects = drain_effects(directory.state(outputs[n].entity_id@));
        assert(directory.state(outputs[n].entity_id@).activation() is Some);
        assert(outputs[n].slot is Some);
        if before.contains_key(slot@) {
            let j = choose|j: int| 0 <= j < n && (#[trigger] outputs[j]).slot->0@ == slot@;
            lemma_drains_part(directory, outputs, j, n);
        }
        assert(Seq::<SlotEffect<C, E, L>>::empty() + effects =~= effects);
        assert(after == before.insert(slot@, effects));
        assert forall|j: int| 0 <= j < count implies after.contains_key(
            (#[trigger] outputs[j]).slot->0@,
        ) && after[outputs[j].slot->0@] == drain_effects(
            directory.state(outputs[j].entity_id@),
        ) by {
            if j < n {
                lemma_drains_part(directory, outputs, j, n);
            }
        }
        assert forall|key: u64| #[trigger] after.contains_key(key) implies exists|j: int|
            0 <= j < count && (#[trigger] outputs[j]).slot->0@ == key by {
            if key == slot@ {
                assert(outputs[n].slot->0@ == key);
            } else {
                assert(before.contains_key(key));
                let j = choose|j: int| 0 <= j < n && (#[trigger] outputs[j]).slot->0@ == key;
                assert(outputs[j].slot->0@ == key);
            }
        }
    }
}

/// Interpreting one drain request leaves the later ones.
proof fn lemma_interpreted_drain<I, C, E, L>(
    pending: PendingEffects<C, E, L>,
    directory: DirectoryModel<I, C, E, L>,
    outputs: Seq<DirectoryOutput<I, C, E, L>>,
    k: int,
)
    requires
        directory.wf(),
        drains(outputs, directory),
        0 <= k < outputs.len(),
        awaits(pending, directory, outputs, k, outputs.len() as int),
    ensures
        awaits(
            dequeued(pending, outputs[k].slot),
            directory,
            outputs,
            k + 1,
            outputs.len() as int,
        ),
{
    let after = dequeued(pending, outputs[k].slot);
    assert(directory.state(outputs[k].entity_id@).activation() is Some);
    assert(outputs[k].slot is Some);
    assert forall|j: int| k + 1 <= j < outputs.len() implies after.contains_key(
        (#[trigger] outputs[j]).slot->0@,
    ) && after[outputs[j].slot->0@] == drain_effects(directory.state(outputs[j].entity_id@)) by {
        lemma_drains_part(directory, outputs, k, j);
    }
    assert forall|key: u64| #[trigger] after.contains_key(key) implies exists|j: int|
        k + 1 <= j < outputs.len() && (#[trigger] outputs[j]).slot->0@ == key by {
        assert(pending.contains_key(key));
        let j = choose|j: int|
            k <= j < outputs.len() && (#[trigger] outputs[j]).slot->0@ == key;
        assert(outputs[j].slot->0@ == key && j != k);
    }
}

/// One decision for each of a set of entities is as many decisions as entities.
proof fn lemma_drains_count<I, C, E, L>(
    outputs: Seq<DirectoryOutput<I, C, E, L>>,
    directory: DirectoryModel<I, C, E, L>,
)
    requires
        drains(outputs, directory),
    ensures
        outputs.len() == represented_ids(directory).len(),
{
    let ids = outputs.map_values(|output: DirectoryOutput<I, C, E, L>| output.entity_id@);
    assert(ids.no_duplicates()) by {
        assert forall|a: int, b: int| 0 <= a < ids.len() && 0 <= b < ids.len() && a != b implies ids[a]
            != ids[b] by {
            if a < b {
                assert(outputs[a].entity_id@ != outputs[b].entity_id@);
            } else {
                assert(outputs[b].entity_id@ != outputs[a].entity_id@);
            }
        }
    }
    ids.unique_seq_to_set();
    assert(ids.to_set() =~= represented_ids(directory)) by {
        assert forall|id: I| ids.to_set().contains(id) <==> represented_ids(directory).contains(
            id,
        ) by {
            if ids.to_set().contains(id) {
                let k = choose|k: int| 0 <= k < ids.len() && ids[k] == id;
                assert(outputs[k].entity_id@ == id);
            }
            if represented_ids(directory).contains(id) {
                assert(drained_once(outputs, id));
                let k = choose|k: int|
                    0 <= k < outputs.len() && (#[trigger] outputs[k]).entity_id@ == id;
                assert(ids[k] == id);
            }
        }
    }
}

impl<I: Clone + Eq + Hash, O, C, P, E: Clone, L, T> EntityRuntime<I, O, C, P, E, L, T> {
    /// Close admission and begin to shut the family down.
    pub fn begin_shutdown(&mut self) -> (shutdown: FamilyShutdown)
        requires
            old(self).wf(),
        ensures
            final(self).wf(),
            final(self).admission() == EntityAdmission::Closed,
            final(self).directory() == old(self).directory(),
            final(self).tasks() == old(self).tasks(),
            shutdown == FamilyShutdown::Settling,
    {
        self.admission = EntityAdmission::Closed;
        FamilyShutdown::Settling
    }

    /// Request the drain of every represented incarnation.
    fn drain_family<R: EffectInterpreter<I, PendingCommand<O, C, P>, E, L>>(
        &mut self,
        runtime: &mut R,
    ) -> (represented: usize)
        requires
            old(self).wf(),
        ensures
            final(self).wf(),
            final(self).admission() == old(self).admission(),
            final(self).tasks() == old(self).tasks(),
            final(self).directory() == old(self).directory().drained(),
            represented == represented_ids(old(self).directory()).len(),
            exists|outputs: Seq<DirectoryOutput<I, PendingCommand<O, C, P>, E, L>>|
                drains(outputs, old(self).directory()) && final(runtime).interpreted() == old(
                    runtime,
                ).interpreted() + #[trigger] calls_of_all(old(self).directory(), outputs),
    {
        let ghost before = self.directory();
        let ghost made = runtime.interpreted();
        let outputs = self.directory.begin_family_drain();
        let ghost all = outputs@;
        let represented: usize = outputs.len();
        proof {
            assert(made + calls_of_all(before, all.take(0)) =~= made);
            assert(all.take(all.len() as int) =~= all);
            lemma_drain_pending(before, all, all.len());
        }
        for output in iter: outputs
            invariant
                iter.seq() == all,
                faithful::<I>(),
                before.wf(),
                drains(all, before),
                self.directory.wf(),
                self.tasks.wf(),
                self.admission() == old(self).admission(),
                self.tasks() == old(self).tasks(),
                self.directory() == before.drained(),
                awaits(self.directory.pending(), before, all, iter.index() as int, all.len() as int),
                runtime.interpreted() == made + calls_of_all(
                    before,
                    all.take(iter.index() as int),
                ),
        {
            let ghost pending = self.directory.pending();
            let ghost k = iter.index() as int;
            proof {
                assert(output == all[k]);
                let id = all[k].entity_id@;
                assert(before.state(id).activation() is Some);
                lemma_drain_forgets_nothing(before.state(id), before.state(id).activation()->0);
                assert(all.take(k + 1).drop_last() =~= all.take(k));
                assert(all.take(k + 1).last() == output);
            }
            self.directory.interpret(output, runtime);
            proof {
                lemma_interpreted_drain(pending, before, all, k);
                assert(runtime.interpreted() =~= made + calls_of_all(before, all.take(k + 1)));
            }
        }
        proof {
            assert(self.directory.pending() =~= Map::<
                u64,
                Seq<SlotEffect<PendingCommand<O, C, P>, E, L>>,
            >::empty());
            lemma_drains_count(all, before);
        }
        represented
    }

    /// Go on with a shutdown.
    ///
    /// Installed work settles first, then every represented incarnation is
    /// drained, and when that has settled as well the task group is closed.
    pub fn advance_shutdown<R: EffectInterpreter<I, PendingCommand<O, C, P>, E, L>>(
        &mut self,
        shutdown: &mut FamilyShutdown,
        runtime: &mut R,
    ) -> (step: ShutdownStep)
        requires
            old(self).wf(),
            old(self).tasks().idle() && *old(shutdown) is Draining ==> old(
                self,
            ).directory().slots.len() == 0,
        ensures
            final(self).wf(),
            final(self).admission() == old(self).admission(),
            !old(self).tasks().idle() && !(*old(shutdown) is Done) ==> {
                &&& step == ShutdownStep::AwaitIdle
                &&& *final(shutdown) == *old(shutdown)
                &&& final(self).directory() == old(self).directory()
                &&& final(self).tasks() == old(self).tasks()
                &&& final(runtime).interpreted() == old(runtime).interpreted()
            },
            old(self).tasks().idle() && *old(shutdown) is Settling ==> {
                &&& step == ShutdownStep::AwaitIdle
                &&& *final(shutdown) is Draining
                &&& final(shutdown)->represented == represented_ids(old(self).directory()).len()
                &&& final(self).directory() == old(self).directory().drained()
                &&& final(self).tasks() == old(self).tasks()
                &&& exists|outputs: Seq<DirectoryOutput<I, PendingCommand<O, C, P>, E, L>>|
                    drains(outputs, old(self).directory()) && final(runtime).interpreted() == old(
                        runtime,
                    ).interpreted() + #[trigger] calls_of_all(old(self).directory(), outputs)
            },
            old(self).tasks().idle() && *old(shutdown) is Draining ==> {
                &&& step == ShutdownStep::Finished(
                    EntityShutdown { represented: old(shutdown)->represented },
                )
                &&& *final(shutdown) == FamilyShutdown::Done(
                    EntityShutdown { represented: old(shutdown)->represented },
                )
                &&& final(self).directory() == old(self).directory()
                &&& final(self).tasks() is Closed
                &&& final(runtime).interpreted() == old(runtime).interpreted()
            },
            *old(shutdown) matches FamilyShutdown::Done(summary) ==> {
                &&& step == ShutdownStep::Finished(summary)
                &&& *final(shutdown) == *old(shutdown)
                &&& final(self).directory() == old(self).directory()
                &&& final(self).tasks() == old(self).tasks()
                &&& final(runtime).interpreted() == old(runtime).interpreted()
            },
    {
        if let FamilyShutdown::Done(summary) = *shutdown {
            return ShutdownStep::Finished(summary);
        }
        if self.tasks.wait_idle().is_some() {
            return ShutdownStep::AwaitIdle;
        }
        match *shutdown {
            FamilyShutdown::Settling => {
                let represented: usize = self.drain_family(runtime);
                *shutdown = FamilyShutdown::Draining { represented };
                ShutdownStep::AwaitIdle
            },
            FamilyShutdown::Draining { represented } => {
                self.tasks.close();
                let summary = EntityShutdown { represented };
                *shutdown = FamilyShutdown::Done(summary);
                ShutdownStep::Finished(summary)
            },
            FamilyShutdown::Done(summary) => ShutdownStep::Finished(summary),
        }
    }
}

/// Passivating an active incarnation begins its drain, and passivating it
/// again, at once or while it retires, reports that it is under way.
pub proof fn law_passivation_begins_once<C, E, L>(
    state: SlotModel<C, E, L>,
    activation_id: ActivationId,
    again: ActivationId,
)
    requires
        state is Active,
        state.activation() == Some(activation_id),
    ensures
        passivation_of(evidence_of(state, SlotEvent::BeginDrain { activation_id }))
            == Passivation::Begun,
        passivation_of(
            evidence_of(
                next_state(state, SlotEvent::BeginDrain { activation_id }),
                SlotEvent::BeginDrain { activation_id: again },
            ),
        ) == Passivation::AlreadyPassivating,
{
}

/// A drain request for an incarnation that has been replaced by an active one
/// is reported as superseded and drains nothing.
pub proof fn law_a_replacement_supersedes<C, E, L>(
    replacement: SlotModel<C, E, L>,
    observed: ActivationId,
)
    requires
        replacement is Active,
        replacement.activation() != Some(observed),
    ensures
        passivation_of(evidence_of(replacement, SlotEvent::BeginDrain { activation_id: observed }))
            == Passivation::Superseded,
        next_state(replacement, SlotEvent::BeginDrain { activation_id: observed }) == replacement,
        effects_of(replacement, SlotEvent::BeginDrain { activation_id: observed }).len() == 0,
{
}

/// A command for a represented entity never starts another activation:
/// concurrent first commands share one attempt.
pub proof fn law_first_commands_share_one_activation<I, C, E, L>(
    directory: DirectoryModel<I, C, E, L>,
    id: I,
    first: (DispatchId, C),
    next: (DispatchId, C),
    fresh: ActivationId,
    unused: ActivationId,
)
    requires
        directory.wf(),
        !directory.slots.contains_key(id),
    ensures
        ({
            let claimed = directory.dispatched(id, first.0, fresh, first.1);
            let event = claimed.dispatch_event(id, next.0, unused, next.1);
            &&& claimed.state(id).activation() == Some(fresh)
            &&& claimed.dispatched(id, next.0, unused, next.1).state(id).activation() == Some(fresh)
            &&& forall|i: int|
                0 <= i < effects_of(claimed.state(id), event).len() ==> !((#[trigger] effects_of(
                    claimed.state(id),
                    event,
                )[i]) is StartActivation)
        }),
{
}

/// A fact of an incarnation that has been replaced neither changes the
/// replacement nor removes it.
pub proof fn law_stale_facts_spare_the_replacement<I, C, E, L>(
    directory: DirectoryModel<I, C, E, L>,
    id: I,
    event: SlotEvent<C, E, L>,
)
    requires
        directory.wf(),
        directory.slots.contains_key(id),
        event.subject() is Some,
        event.subject() != directory.state(id).activation(),
    ensures
        settled_by(directory, id, event) == directory,
{
    assert(directory.submitted(id, event).slots =~= directory.slots);
}

/// An entity whose incarnation has terminated is no longer represented, so that
/// the next command activates a new one.
pub proof fn law_a_terminated_entity_can_be_activated_again<I, C, E, L>(
    directory: DirectoryModel<I, C, E, L>,
    id: I,
    activation_id: ActivationId,
)
    requires
        directory.wf(),
        directory.slots.contains_key(id),
        directory.state(id).activation() == Some(activation_id),
        !(directory.state(id) is Activating),
    ensures
        settled_by(directory, id, SlotEvent::Terminated { activation_id }) == (DirectoryModel {
            slots: directory.slots.remove(id),
            ..directory
        }),
{
    let event = SlotEvent::<C, E, L>::Terminated { activation_id };
    let effects = effects_of(directory.state(id), event);
    assert(effects[0] is Remove);
    assert(forgets(effects));
    assert(settled_by(directory, id, event).slots =~= directory.slots.remove(id));
}

/// An entity whose activation failed is no longer represented, and every
/// retained command has been returned first.
pub proof fn law_a_failed_activation_can_be_retried<I, C, E, L>(
    directory: DirectoryModel<I, C, E, L>,
    id: I,
    activation_id: ActivationId,
)
    requires
        directory.wf(),
        directory.slots.contains_key(id),
        directory.state(id) is Activating,
        directory.state(id).activation() == Some(activation_id),
    ensures
        settled_by(directory, id, SlotEvent::ActivationFailed { activation_id })
            == (DirectoryModel { slots: directory.slots.remove(id), ..directory }),
        effects_of(directory.state(id), SlotEvent::ActivationFailed { activation_id })
            == rejections::<C, E, L>(
            directory.state(id)->waiters,
            Refusal::Unavailable,
        ).push(SlotEffect::Remove { activation_id }),
{
    let event = SlotEvent::<C, E, L>::ActivationFailed { activation_id };
    let effects = effects_of(directory.state(id), event);
    assert(effects.last() is Remove);
    assert(forgets(effects));
    assert(settled_by(directory, id, event).slots =~= directory.slots.remove(id));
}

/// Passivating an entity by its own incarnation begins a drain exactly when the
/// incarnation is active. A draining or retiring one is reported as under way,
/// and one that is only activating as not active, which is also what an inactive
/// slot is reported as.
pub proof fn law_passivation_tells_the_state<C, E, L>(
    state: SlotModel<C, E, L>,
    activation_id: ActivationId,
)
    requires
        match state {
            SlotModel::Inactive => true,
            SlotModel::Activating { activation_id: own, .. } => own == activation_id,
            SlotModel::Active { activation_id: own, .. } => own == activation_id,
            SlotModel::Draining { activation_id: own, .. } => own == activation_id,
            SlotModel::Retiring { activation_id: own } => own == activation_id,
        },
    ensures
        ({
            let passivation = passivation_of(
                evidence_of(state, SlotEvent::<C, E, L>::BeginDrain { activation_id }),
            );
            &&& passivation == Passivation::Begun <==> state is Active
            &&& passivation == Passivation::AlreadyPassivating <==> (state is Draining
                || state is Retiring)
            &&& passivation == Passivation::NotActive <==> (state is Activating
                || state is Inactive)
            &&& passivation != Passivation::Superseded
        }),
{
}

/// A drain request that did not take effect is told by the phase that it found,
/// and one that did is told as begun, whatever the slot was.
pub proof fn law_a_drain_request_is_told_by_what_it_did(
    edge: LifecycleEdge,
    phase: LifecyclePhase,
    trigger: LifecycleTrigger,
)
    ensures
        passivation_of(TransitionEvidence::Traversed(edge)) == Passivation::Begun,
        passivation_of(TransitionEvidence::SelfLoop { phase, trigger }) == passivation_of(
            TransitionEvidence::Ignored { phase, trigger },
        ),
        ({
            let told = passivation_of(TransitionEvidence::Ignored { phase, trigger });
            &&& told == Passivation::Superseded <==> phase == LifecyclePhase::Active
            &&& told == Passivation::AlreadyPassivating <==> (phase == LifecyclePhase::Draining
                || phase == LifecyclePhase::Retiring)
            &&& told == Passivation::NotActive <==> (phase == LifecyclePhase::Inactive || phase
                == LifecyclePhase::Activating)
        }),
{
}

/// A completed activation tells its own slot of the incarnation that it
/// produced, or that it failed.
pub proof fn law_an_activation_reports_what_it_produced<C, E, L>(
    activation_id: ActivationId,
    endpoint: E,
    lease: L,
)
    ensures
        activation_event::<C, E, L>(activation_id, Some(Activated { endpoint, lease })) == (
        SlotEvent::<C, E, L>::ActivationSucceeded { activation_id, endpoint, lease }),
        activation_event::<C, E, L>(activation_id, None) == (SlotEvent::<
            C,
            E,
            L,
        >::ActivationFailed { activation_id }),
{
}

/// A fence that was acknowledged lets the drain end, and a failed one forces it
/// at the stage at which the fence failed, with nothing outstanding.
pub proof fn law_a_failed_fence_forces_the_drain<C, E, L>(
    activation_id: ActivationId,
    fenced: Result<(), FenceFailure>,
)
    ensures
        fenced is Ok ==> fence_event::<C, E, L>(activation_id, fenced) == (SlotEvent::<
            C,
            E,
            L,
        >::FenceAcknowledged { activation_id }),
        fenced matches Err(failure) ==> {
            &&& fence_event::<C, E, L>(activation_id, fenced) matches SlotEvent::ForceDrain {
                activation_id: about,
                failure: reported,
            }
            &&& about == activation_id
            &&& reported.outstanding_reservations == 0
            &&& reported.stage == DrainStage::FenceEnqueue <==> failure == FenceFailure::Enqueue
            &&& reported.stage == DrainStage::FenceAcknowledgement <==> failure
                == FenceFailure::Acknowledgement
        },
{
}

/// A fact about an entity takes its slot one step and forgets the slot when the
/// step removes it. No other entity and no identity is touched.
pub proof fn law_a_fact_settles_one_entity<I, C, E, L>(
    directory: DirectoryModel<I, C, E, L>,
    id: I,
    event: SlotEvent<C, E, L>,
)
    ensures
        ({
            let after = settled_by(directory, id, event);
            let effects = effects_of(directory.slots[id].1, event);
            &&& after.next_activation == directory.next_activation
            &&& after.next_dispatch == directory.next_dispatch
            &&& after.waiter_limit == directory.waiter_limit
            &&& after.slots.remove(id) == directory.slots.remove(id)
            &&& !directory.slots.contains_key(id) ==> after == directory
            &&& directory.slots.contains_key(id) ==> (!after.slots.contains_key(id) <==> exists|
                i: int,
            |
                0 <= i < effects.len() && (#[trigger] effects[i]) is Remove)
            &&& directory.slots.contains_key(id) && after.slots.contains_key(id)
                ==> after.slots[id] == (
                directory.slots[id].0,
                next_state(directory.slots[id].1, event),
            )
        }),
{
    let after = settled_by(directory, id, event);
    let effects = effects_of(directory.slots[id].1, event);
    assert(after.slots.remove(id) =~= directory.slots.remove(id));
    if directory.slots.contains_key(id) {
        assert(forgets(effects) <==> exists|i: int|
            0 <= i < effects.len() && (#[trigger] effects[i]) is Remove);
    }
}

/// A family shutdown drains the entities that have an incarnation or are about
/// to, and no others.
pub proof fn law_every_incarnation_is_represented<I, C, E, L>(
    directory: DirectoryModel<I, C, E, L>,
    id: I,
)
    ensures
        represented_ids(directory).contains(id) <==> directory.slots.contains_key(id) && !(
        directory.slots[id].1 is Inactive),
{
}

/// The drain requests of a family are carried out decision by decision: the
/// calls of a further one come behind those of all others.
pub proof fn law_drains_are_carried_out_in_turn<I, C, E, L>(
    directory: DirectoryModel<I, C, E, L>,
    outputs: Seq<DirectoryOutput<I, C, E, L>>,
    output: DirectoryOutput<I, C, E, L>,
)
    ensures
        calls_of_all(directory, Seq::<DirectoryOutput<I, C, E, L>>::empty()).len() == 0,
        calls_of_all(directory, outputs.push(output)) == calls_of_all(directory, outputs)
            + calls_of(output.entity_id, drain_effects(directory.state(output.entity_id@))),
{
    assert(outputs.push(output).drop_last() =~= outputs);
}

/// A decision that awaits interpretation alone is all that its slot has queued,
/// and no other slot has anything queued.
pub proof fn law_a_decision_alone_is_all_there_is<C, E, L>(
    slot: ActivationId,
    effects: Seq<SlotEffect<C, E, L>>,
    key: u64,
)
    ensures
        decision_alone(Some(slot), effects).contains_key(key) <==> key == slot@,
        decision_alone(Some(slot), effects)[slot@] == effects,
        !decision_alone::<C, E, L>(None, effects).contains_key(key),
{
}

/// The caller of a dispatched command waits for the entity, the dispatch
/// identity and the slot that it was dispatched with, and can cancel it as long
/// as that slot is about an activation.
pub proof fn law_a_caller_waits_for_its_own_command<I, C, E, L>(
    wait: DispatchWait<I>,
    directory: DirectoryModel<I, C, E, L>,
    entity_id: EntityId<I>,
    command: C,
)
    requires
        wait.answers(directory, entity_id, command),
    ensures
        wait.entity_id == entity_id,
        wait.dispatch_id@ == directory.next_dispatch,
        directory.slots.contains_key(entity_id@) ==> {
            let event = SlotEvent::<C, E, L>::Dispatch { dispatch_id: wait.dispatch_id, command };
            let state = directory.slots[entity_id@].1;
            &&& wait.slot == directory.slots[entity_id@].0
            &&& wait.activation_id == next_state(state, event).activation()
            &&& wait.effects(directory, command) == effects_of(state, event)
        },
        !directory.slots.contains_key(entity_id@) ==> {
            &&& wait.slot@ == directory.next_activation
            &&& wait.activation_id == Some(wait.slot)
            &&& wait.effects(directory, command) == seq![
                SlotEffect::<C, E, L>::StartActivation { activation_id: wait.slot },
            ]
        },
{
}

/// A command that its endpoint returned goes back through the lifecycle with its
/// origin and the authority over its caller, and one that was delivered leaves
/// only that authority.
pub proof fn law_a_returned_command_keeps_its_caller<O, C, P>(
    dispatch_id: DispatchId,
    origin: O,
    publisher: P,
    answer: Result<(), C>,
    settlement: DeliverySettlement<O, C, P>,
)
    requires
        call_ensures(
            PendingCommand::<O, C, P>::settle,
            (dispatch_id, origin, publisher, answer),
            settlement,
        ),
    ensures
        settlement is Delivered <==> answer is Ok,
        settlement matches DeliverySettlement::Delivered { publisher: told } ==> told == publisher,
        settlement matches DeliverySettlement::Failed { failure } ==> failure.0 == dispatch_id
            && failure.1.origin == origin && failure.1.publisher == publisher && answer == Err::<
            (),
            C,
        >(failure.1.command),
{
}

/// A refused command is handed back to its own caller, whole and with the reason
/// of the refusal.
pub proof fn law_a_refused_command_comes_back<O, C, P>(
    pending: PendingCommand<O, C, P>,
    reason: Refusal,
    refused: (P, AdmissionFailure<C>),
)
    requires
        call_ensures(PendingCommand::<O, C, P>::refuse, (pending, reason), refused),
    ensures
        refused.0 == pending.publisher,
        refused.1 matches AdmissionFailure::Refused { command, reason: told } && command
            == pending.command && told == reason,
{
}

} // verus!
