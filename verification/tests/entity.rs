use std::cell::Cell;
use std::collections::hash_map::DefaultHasher;
use std::collections::VecDeque;
use std::hash::BuildHasherDefault;
use std::rc::Rc;

use bombay::entity::directory::{
    DirectoryConfig, DirectoryError, EffectCall, EffectLog, LocalDirectory,
};
use bombay::entity::id::{ActivationId, DispatchId, EntityId};
use bombay::entity::lifecycle::{
    DrainFailure, DrainStage, EntitySlot, LifecycleEdge, LifecyclePhase, LifecycleTrigger,
    Refusal, RetirementMode, SlotEffect, SlotEvent, TransitionEvidence,
};
use bombay::entity::runtime::{
    Activated, AdmissionFailure, DeliverySettlement, DispatchWait, EntityRuntime, EntityShutdown,
    FamilyShutdown, FenceFailure, Passivation, PendingCommand, ShutdownStep,
};
use bombay::entity::shards::{is_power_of_two, shard_index};
use bombay::entity::tasks::EntityTaskGroup;
use bombay::nonzero::{NonZeroU64, NonZeroUsize};

type Pending<C> = PendingCommand<(), C, u64>;
type Call<C> = EffectCall<u64, Pending<C>, u64, u64>;

/// A family whose scheduled tasks are run one at a time.
struct Family<C> {
    runtime: EntityRuntime<u64, (), C, u64, u64, u64, ()>,
    scheduled: VecDeque<Call<C>>,
    fail_activation: bool,
    fail_delivery: bool,
    fence_failure: Option<FenceFailure>,
    activations: usize,
    activation_completions: usize,
    delivered: Vec<C>,
    fences: usize,
    retirement_modes: Vec<RetirementMode>,
    told: Vec<(u64, Result<(), AdmissionFailure<C>>)>,
    next_publisher: u64,
}

impl<C> Family<C> {
    fn new() -> Self {
        let Ok(runtime) = EntityRuntime::new(DirectoryConfig::default()) else {
            panic!("the default directory is valid")
        };
        Family {
            runtime,
            scheduled: VecDeque::new(),
            fail_activation: false,
            fail_delivery: false,
            fence_failure: None,
            activations: 0,
            activation_completions: 0,
            delivered: Vec::new(),
            fences: 0,
            retirement_modes: Vec::new(),
            told: Vec::new(),
            next_publisher: 0,
        }
    }

    fn schedule(&mut self, log: EffectLog<u64, Pending<C>, u64, u64>) {
        for call in log.into_calls() {
            match call {
                EffectCall::Reject {
                    command, reason, ..
                } => {
                    let (publisher, failure) = command.refuse(reason);
                    self.told.push((publisher, Err(failure)));
                }
                other => {
                    self.runtime.begin_task(());
                    if matches!(other, EffectCall::StartActivation { .. }) {
                        self.activations += 1;
                    }
                    self.scheduled.push_back(other);
                }
            }
        }
    }

    fn begin(&mut self, id: u64, command: C) -> Result<(u64, DispatchWait<u64>), AdmissionFailure<C>> {
        let publisher = self.next_publisher;
        self.next_publisher += 1;
        let mut log = EffectLog::new();
        let admitted =
            self.runtime
                .admit_command((), EntityId::new(id), command, publisher, &mut log);
        self.schedule(log);
        admitted.map(|wait| (publisher, wait))
    }

    fn step(&mut self) -> bool {
        let Some(call) = self.scheduled.pop_front() else {
            return false;
        };
        let mut log = EffectLog::new();
        match call {
            EffectCall::StartActivation {
                entity_id,
                activation_id,
            } => {
                self.activation_completions += 1;
                let activated = if self.fail_activation {
                    None
                } else {
                    Some(Activated {
                        endpoint: activation_id.get().get(),
                        lease: activation_id.get().get(),
                    })
                };
                self.runtime
                    .activation_completed(&entity_id, activation_id, activated, &mut log);
            }
            EffectCall::Deliver {
                entity_id,
                activation_id,
                dispatch_id,
                command,
                ..
            } => {
                let PendingCommand {
                    origin,
                    command,
                    publisher,
                } = command;
                let answer = if self.fail_delivery {
                    Err(command)
                } else {
                    self.delivered.push(command);
                    Ok(())
                };
                let failure =
                    match PendingCommand::settle(dispatch_id, origin, publisher, answer) {
                        DeliverySettlement::Delivered { publisher } => {
                            self.told.push((publisher, Ok(())));
                            None
                        }
                        DeliverySettlement::Failed { failure } => Some(failure),
                    };
                self.runtime
                    .delivery_completed(&entity_id, activation_id, failure, &mut log);
            }
            EffectCall::EnqueueFence {
                entity_id,
                activation_id,
                ..
            } => {
                self.fences += 1;
                let fenced = self.fence_failure.map_or(Ok(()), Err);
                self.runtime
                    .fence_completed(&entity_id, activation_id, fenced, &mut log);
            }
            EffectCall::Retire {
                entity_id,
                activation_id,
                retirement,
                ..
            } => {
                self.retirement_modes.push(retirement);
                self.runtime
                    .retirement_completed(&entity_id, activation_id, &mut log);
            }
            EffectCall::Reject { .. } => unreachable!("rejections are settled at once"),
        }
        self.schedule(log);
        self.runtime.finish_task();
        true
    }

    fn run(&mut self) {
        while self.step() {}
    }

    fn submit(&mut self, id: u64, command: C) -> Result<(), AdmissionFailure<C>> {
        let (publisher, _) = self.begin(id, command)?;
        loop {
            if let Some(position) = self.told.iter().position(|(told, _)| *told == publisher) {
                return self.told.remove(position).1;
            }
            assert!(self.step(), "nobody will tell the caller");
        }
    }

    fn passivate(&mut self, id: u64) -> Passivation {
        let mut log = EffectLog::new();
        let passivation = self.runtime.passivate(&EntityId::new(id), &mut log);
        self.schedule(log);
        passivation
    }

    fn shutdown(&mut self) -> EntityShutdown {
        let mut shutdown = self.runtime.begin_shutdown();
        loop {
            let mut log = EffectLog::new();
            match self.runtime.advance_shutdown(&mut shutdown, &mut log) {
                ShutdownStep::AwaitIdle => {
                    self.schedule(log);
                    self.run();
                }
                ShutdownStep::Finished(summary) => return summary,
            }
        }
    }
}

#[test]
fn application_admission_is_one_asynchronous_operation() {
    let mut family = Family::new();

    family.submit(42, 7).unwrap();

    assert_eq!(family.activations, 1);
    assert_eq!(family.delivered, [7]);
}

#[test]
fn failed_delivery_returns_the_original_command() {
    let mut family = Family::new();
    family.fail_delivery = true;

    let failure = family.submit(9, 77).unwrap_err();

    assert!(matches!(
        failure,
        AdmissionFailure::Refused {
            command: 77,
            reason: Refusal::Unavailable,
        }
    ));
}

#[derive(Debug)]
struct MoveOnlyCommand {
    value: String,
    drops: Rc<Cell<usize>>,
}

impl Drop for MoveOnlyCommand {
    fn drop(&mut self) {
        self.drops.set(self.drops.get() + 1);
    }
}

#[test]
fn failed_delivery_returns_one_exact_move_only_command() {
    let drops = Rc::new(Cell::new(0));
    let command = MoveOnlyCommand {
        value: String::from("owned command"),
        drops: Rc::clone(&drops),
    };
    let allocation = command.value.as_ptr();
    let mut family = Family::new();
    family.fail_delivery = true;

    let failure = family.submit(9, command).unwrap_err();
    let AdmissionFailure::Refused { command, reason } = failure else {
        panic!("delivery must preserve the rejected command");
    };

    assert_eq!(reason, Refusal::Unavailable);
    assert_eq!(command.value, "owned command");
    assert_eq!(command.value.as_ptr(), allocation);
    assert_eq!(drops.get(), 0);
    drop(command);
    assert_eq!(drops.get(), 1);
}

#[test]
fn failed_activation_returns_the_command_and_eventually_allows_retry() {
    let mut family = Family::new();
    family.fail_activation = true;

    assert!(matches!(
        family.submit(11, 81),
        Err(AdmissionFailure::Refused {
            command: 81,
            reason: Refusal::Unavailable,
        })
    ));
    family.fail_activation = false;
    family.submit(11, 82).unwrap();

    assert_eq!(family.activations, 2);
    assert_eq!(family.delivered, [82]);
}

#[test]
fn canceling_admission_does_not_cancel_shared_activation_or_deliver_command() {
    let mut family = Family::new();
    let (_, wait) = family.begin(5, 91).unwrap();
    let mut log = EffectLog::new();
    family.runtime.cancel_wait(wait, &mut log);
    family.schedule(log);
    family.run();

    assert_eq!(family.activations, 1);
    assert_eq!(family.activation_completions, 1);
    family.submit(5, 92).unwrap();
    assert_eq!(family.delivered, [92]);
}

#[test]
fn dropping_active_admission_does_not_retract_owned_delivery() {
    let mut family = Family::new();
    family.submit(8, 1).unwrap();

    let (_, wait) = family.begin(8, 2).unwrap();
    let mut log = EffectLog::new();
    family.runtime.cancel_wait(wait, &mut log);
    family.schedule(log);
    family.run();

    assert_eq!(family.delivered, [1, 2]);
}

#[test]
fn a_settled_wait_has_nothing_to_cancel() {
    let mut family = Family::new();
    let (_, mut wait) = family.begin(8, 2).unwrap();
    wait.settled();
    let mut log = EffectLog::new();
    family.runtime.cancel_wait(wait, &mut log);
    assert!(log.into_calls().is_empty());
    family.run();
    assert_eq!(family.delivered, [2]);
}

#[test]
fn passivation_reports_not_active_for_unknown_entity() {
    let mut family: Family<u32> = Family::new();

    assert_eq!(family.passivate(99), Passivation::NotActive);
}

#[test]
fn repeated_passivation_reports_already_passivating() {
    let mut family = Family::new();
    family.submit(7, 1).unwrap();

    assert_eq!(family.passivate(7), Passivation::Begun);
    assert_eq!(family.passivate(7), Passivation::AlreadyPassivating);

    family.run();
    assert_eq!(family.fences, 1);
    assert_eq!(family.retirement_modes.len(), 1);
}

#[test]
fn passivation_reports_superseded_after_incarnation_replacement() {
    let mut directory: LocalDirectory<u64, u32, u64, u64> =
        LocalDirectory::new(DirectoryConfig::default()).ok().unwrap();
    let id = EntityId::new(8);
    let mut log = EffectLog::new();
    let first = directory.dispatch(id, 1).ok().unwrap();
    let old = first.output.activation_id.unwrap();
    directory.interpret(first.output, &mut log);
    let output = directory.activation_failed(&id, old);
    directory.interpret(output, &mut log);
    let output = directory.terminated(&id, old);
    directory.interpret(output, &mut log);
    let second = directory.dispatch(id, 2).ok().unwrap();
    let new = second.output.activation_id.unwrap();
    assert_ne!(old, new);
    directory.interpret(second.output, &mut log);
    let output = directory.activation_succeeded(&id, new, 5, 5);
    directory.interpret(output, &mut log);

    let late = directory.begin_drain(&id, old);
    assert_eq!(
        Passivation::classify(late.evidence),
        Passivation::Superseded
    );
    let mut after = EffectLog::new();
    directory.interpret(late, &mut after);
    assert!(after.into_calls().is_empty());
    assert_eq!(directory.current_activation(&id), Some(new));
}

#[test]
fn passivation_fences_and_retires_the_exact_incarnation() {
    let mut family = Family::new();
    family.submit(6, 1).unwrap();

    assert_eq!(family.passivate(6), Passivation::Begun);
    family.run();
    assert_eq!(family.fences, 1);
    assert_eq!(family.retirement_modes, [RetirementMode::Graceful]);
    assert_eq!(family.activations, 1);
    assert!(family.runtime.is_empty());
}

#[test]
fn fence_failures_preserve_the_forced_retirement_stage() {
    for (failure, stage) in [
        (FenceFailure::Enqueue, DrainStage::FenceEnqueue),
        (
            FenceFailure::Acknowledgement,
            DrainStage::FenceAcknowledgement,
        ),
    ] {
        let mut family = Family::new();
        family.fence_failure = Some(failure);
        family.submit(10, 1).unwrap();

        assert_eq!(family.passivate(10), Passivation::Begun);
        family.run();

        assert_eq!(
            family.retirement_modes,
            [RetirementMode::Forced(DrainFailure {
                stage,
                outstanding_reservations: 0,
            })]
        );
    }
}

#[test]
fn family_shutdown_closes_admission_drains_every_slot_and_joins_tasks() {
    let mut family = Family::new();

    family.submit(41, 7).unwrap();
    family.submit(73, 11).unwrap();

    let shutdown = family.shutdown();

    assert_eq!(shutdown.represented, 2);
    assert_eq!(family.activations, 2);
    assert_eq!(family.delivered, [7, 11]);
    assert_eq!(family.fences, 2);
    assert_eq!(family.retirement_modes.len(), 2);
    assert!(matches!(
        family.submit(89, 13),
        Err(AdmissionFailure::Refused {
            command: 13,
            reason: Refusal::Shutdown,
        })
    ));
}

#[test]
fn shutdown_settles_an_installed_activation_before_draining_and_joining() {
    let mut family = Family::new();
    let (publisher, _) = family.begin(41, 7).unwrap();
    let mut shutdown = family.runtime.begin_shutdown();
    assert_eq!(shutdown, FamilyShutdown::Settling);
    assert!(family.runtime.admission_is_closed());

    let mut log = EffectLog::new();
    assert_eq!(
        family.runtime.advance_shutdown(&mut shutdown, &mut log),
        ShutdownStep::AwaitIdle
    );
    assert!(log.into_calls().is_empty());
    assert_eq!(shutdown, FamilyShutdown::Settling);
    assert!(matches!(
        family.submit(73, 11),
        Err(AdmissionFailure::Refused {
            command: 11,
            reason: Refusal::Shutdown,
        })
    ));

    family.run();
    assert!(matches!(family.told[..], [(told, Ok(()))] if told == publisher));
    let mut log = EffectLog::new();
    assert_eq!(
        family.runtime.advance_shutdown(&mut shutdown, &mut log),
        ShutdownStep::AwaitIdle
    );
    family.schedule(log);
    assert_eq!(shutdown, FamilyShutdown::Draining { represented: 1 });
    family.run();
    let mut log = EffectLog::new();
    assert_eq!(
        family.runtime.advance_shutdown(&mut shutdown, &mut log),
        ShutdownStep::Finished(EntityShutdown { represented: 1 })
    );
}

#[test]
fn runtime_admission_returns_the_exact_move_only_command() {
    let drops = Rc::new(Cell::new(0));
    let command = MoveOnlyCommand {
        value: String::from("owned command"),
        drops: Rc::clone(&drops),
    };
    let allocation = command.value.as_ptr();
    let mut family = Family::new();
    family.fail_delivery = true;

    let failure = family.submit(9, command).unwrap_err();
    let AdmissionFailure::Refused { command, reason } = failure else {
        panic!("delivery must preserve the rejected command");
    };

    assert_eq!(reason, Refusal::Unavailable);
    assert_eq!(command.value, "owned command");
    assert_eq!(command.value.as_ptr(), allocation);
    assert_eq!(drops.get(), 0);
    drop(command);
    assert_eq!(drops.get(), 1);
    assert_eq!(family.shutdown().represented, 1);
}

#[test]
fn first_commands_share_one_activation() {
    let mut family = Family::new();
    family.begin(1, "a").unwrap();
    family.begin(1, "b").unwrap();
    family.begin(1, "c").unwrap();
    family.run();
    assert_eq!(family.activations, 1);
    assert_eq!(family.delivered, ["a", "b", "c"]);
}

#[test]
fn waiters_beyond_the_limit_are_refused() {
    let config = DirectoryConfig {
        shards: NonZeroUsize::new(1).unwrap(),
        activation_waiters: NonZeroUsize::new(1).unwrap(),
    };
    let mut directory: LocalDirectory<u64, u32, u64, u64> =
        LocalDirectory::new(config).ok().unwrap();
    let mut log = EffectLog::new();
    let first = directory.dispatch(EntityId::new(1), 10).ok().unwrap();
    directory.interpret(first.output, &mut log);
    let second = directory.dispatch(EntityId::new(1), 11).ok().unwrap();
    directory.interpret(second.output, &mut log);
    let calls = log.into_calls();
    assert!(matches!(
        calls[..],
        [
            EffectCall::StartActivation { .. },
            EffectCall::Reject {
                command: 11,
                reason: Refusal::Overloaded,
                ..
            }
        ]
    ));
    assert_eq!(directory.len(), 1);
    assert!(!directory.is_empty());
}

#[test]
fn a_directory_has_a_power_of_two_shards() {
    for (shards, valid) in [(1, true), (2, true), (3, false), (48, false), (64, true)] {
        assert_eq!(is_power_of_two(shards), valid);
        let config = DirectoryConfig {
            shards: NonZeroUsize::new(shards).unwrap(),
            activation_waiters: NonZeroUsize::new(1).unwrap(),
        };
        let created: Result<LocalDirectory<u64, u32, u64, u64>, _> = LocalDirectory::new(config);
        match created {
            Ok(directory) => {
                assert!(valid);
                assert_eq!(directory.shard_index(0x1_0000_0005), 5 % shards);
            }
            Err(error) => {
                assert!(!valid);
                assert!(matches!(error, DirectoryError::InvalidShardCount));
            }
        }
    }
    assert!(!is_power_of_two(0));
    assert_eq!(shard_index(0xffff_ffff_ffff_ff13, 0xf), 3);
}

#[test]
fn the_default_directory_has_sixty_four_shards_and_waiters() {
    let config = DirectoryConfig::default();
    assert_eq!(config.shards.get(), 64);
    assert_eq!(config.activation_waiters.get(), 64);
    assert_eq!(config, DirectoryConfig::standard());
}

fn activation(sequence: u64) -> ActivationId {
    ActivationId::new(NonZeroU64::new(sequence).unwrap())
}

fn dispatch(sequence: u64) -> DispatchId {
    DispatchId::new(NonZeroU64::new(sequence).unwrap())
}

#[test]
fn a_stale_fact_is_ignored() {
    let slot: EntitySlot<u32, u64, u64> = EntitySlot::Inactive;
    let (output, slot) = slot.step(SlotEvent::Terminated {
        activation_id: activation(3),
    });
    assert!(output.effects.is_empty());
    assert_eq!(
        output.evidence,
        TransitionEvidence::Ignored {
            phase: LifecyclePhase::Inactive,
            trigger: LifecycleTrigger::Terminated
        }
    );
    assert_eq!(slot.phase(), LifecyclePhase::Inactive);
    assert_eq!(slot.activation_id(), None);
}

#[test]
fn a_claimed_slot_activates_and_delivers_in_order() {
    let slot: EntitySlot<&str, u64, u64> = EntitySlot::Inactive;
    let limit = NonZeroUsize::new(4).unwrap();
    let (output, slot) = slot.step(SlotEvent::ClaimActivation {
        activation_id: activation(1),
        dispatch_id: dispatch(1),
        command: "first",
        waiter_limit: limit,
    });
    assert_eq!(
        output.evidence,
        TransitionEvidence::Traversed(LifecycleEdge {
            from: LifecyclePhase::Inactive,
            trigger: LifecycleTrigger::ClaimActivation,
            to: LifecyclePhase::Activating
        })
    );
    assert!(matches!(
        output.effects[..],
        [SlotEffect::StartActivation { .. }]
    ));
    let (_, slot) = slot.step(SlotEvent::Dispatch {
        dispatch_id: dispatch(2),
        command: "second",
    });
    let (output, slot) = slot.step(SlotEvent::ActivationSucceeded {
        activation_id: activation(1),
        endpoint: 9,
        lease: 9,
    });
    assert!(matches!(
        output.effects[..],
        [
            SlotEffect::Deliver {
                command: "first",
                ..
            },
            SlotEffect::Deliver {
                command: "second",
                ..
            }
        ]
    ));
    assert_eq!(slot.phase(), LifecyclePhase::Active);
}

#[test]
fn a_task_group_is_idle_when_every_task_settled() {
    let mut group = EntityTaskGroup::new();
    assert_eq!(group.wait_idle(), None);
    assert_eq!(group.begin("epoch"), None);
    assert_eq!(group.begin("unused"), Some("unused"));
    assert_eq!(group.wait_idle(), Some(&"epoch"));
    assert_eq!(group.finish(), None);
    assert_eq!(group.finish(), Some("epoch"));
    assert_eq!(group.wait_idle(), None);
    group.close();
    assert!(matches!(group, EntityTaskGroup::Closed));
}

#[test]
fn every_scheduled_task_is_owed_a_fact() {
    let mut family: Family<&str> = Family::new();
    family.begin(7, "first").expect("the family is open");
    family.begin(7, "second").expect("the family is open");
    assert_eq!(family.runtime.scheduled_tasks(), Some(1));
    assert!(family.step());
    assert_eq!(family.runtime.scheduled_tasks(), Some(2));
    assert_eq!(family.passivate(7), Passivation::Begun);
    assert_eq!(family.runtime.scheduled_tasks(), Some(2));
    let mut steps = 0;
    while family.step() {
        steps += 1;
        assert_eq!(
            family.runtime.scheduled_tasks(),
            Some(family.scheduled.len())
        );
    }
    assert_eq!(steps, 4);
    assert_eq!(family.fences, 1);
}

#[test]
fn a_settled_drain_leaves_nothing() {
    let mut family: Family<&str> = Family::new();
    for id in 0..3 {
        family.submit(id, "command").expect("the command is delivered");
    }
    assert!(!family.runtime.is_empty());
    assert_eq!(family.shutdown(), EntityShutdown { represented: 3 });
    assert_eq!(family.fences, 3);
    assert!(family.runtime.is_empty());
    assert_eq!(family.runtime.scheduled_tasks(), None);
}

#[test]
fn effects_of_one_slot_are_interpreted_in_order_of_submission() {
    let mut directory: LocalDirectory<u64, u32, u64, u64> =
        LocalDirectory::new(DirectoryConfig::default()).ok().unwrap();
    let id = EntityId::new(3);
    let first = directory.dispatch(id, 10).ok().unwrap();
    let activation_id = first.output.activation_id.unwrap();
    let activated = directory.activation_succeeded(&id, activation_id, 5, 6);
    let second = directory.dispatch(id, 11).ok().unwrap();

    let mut log = EffectLog::new();
    directory.interpret(second.output, &mut log);
    let calls = log.into_calls();
    assert!(matches!(
        calls[..],
        [
            EffectCall::StartActivation { .. },
            EffectCall::Deliver { command: 10, .. },
            EffectCall::Deliver { command: 11, .. },
        ]
    ));
    let mut rest = EffectLog::new();
    directory.interpret(first.output, &mut rest);
    directory.interpret(activated, &mut rest);
    assert!(rest.into_calls().is_empty());
}

#[test]
fn the_effects_of_a_removed_slot_leave_its_replacement_alone() {
    let mut directory: LocalDirectory<u64, u32, u64, u64> =
        LocalDirectory::new(DirectoryConfig::default()).ok().unwrap();
    let id = EntityId::new(3);
    let mut log = EffectLog::new();
    let first = directory.dispatch(id, 10).ok().unwrap();
    let old = first.output.activation_id.unwrap();
    let failed = directory.activation_failed(&id, old);
    directory.interpret(failed, &mut log);
    assert!(directory.is_empty());
    let second = directory.dispatch(id, 11).ok().unwrap();
    assert_ne!(second.output.activation_id, Some(old));

    let mut late = EffectLog::new();
    directory.interpret(first.output, &mut late);
    assert!(late.into_calls().is_empty());
    assert_eq!(directory.len(), 1);
    let mut started = EffectLog::new();
    directory.interpret(second.output, &mut started);
    assert!(matches!(
        started.into_calls()[..],
        [EffectCall::StartActivation { .. }]
    ));
}

#[test]
fn a_fact_about_an_unknown_entity_is_interpreted_from_its_own_output() {
    let mut directory: LocalDirectory<u64, u32, u64, u64> =
        LocalDirectory::new(DirectoryConfig::default()).ok().unwrap();
    let id = EntityId::new(4);
    let stale = directory.delivery_resolved(&id, activation(9), Some((dispatch(2), 77)));
    assert!(stale.slot.is_none());
    let mut log = EffectLog::new();
    directory.interpret(stale, &mut log);
    assert!(matches!(
        log.into_calls()[..],
        [EffectCall::Reject { command: 77, .. }]
    ));
    assert!(directory.is_empty());
}

#[test]
fn identities_can_be_owned_strings_under_an_explicit_hasher() {
    let hasher: BuildHasherDefault<DefaultHasher> = BuildHasherDefault::default();
    let mut directory: LocalDirectory<String, u32, String, u64, BuildHasherDefault<DefaultHasher>> =
        LocalDirectory::with_hasher(DirectoryConfig::default(), hasher)
            .ok()
            .unwrap();
    let id = EntityId::new(String::from("orders/7"));
    let first = directory.dispatch(id.clone(), 1).ok().unwrap();
    let activation_id = first.output.activation_id.unwrap();
    let mut log = EffectLog::new();
    directory.interpret(first.output, &mut log);
    let output =
        directory.activation_succeeded(&id, activation_id, String::from("endpoint"), 9);
    directory.interpret(output, &mut log);
    assert_eq!(directory.current_activation(&id), Some(activation_id));
    let calls = log.into_calls();
    let Some(EffectCall::Deliver {
        entity_id,
        endpoint,
        command,
        ..
    }) = calls.last()
    else {
        panic!("the first command is delivered")
    };
    assert_eq!(entity_id.get(), "orders/7");
    assert_eq!(endpoint, "endpoint");
    assert_eq!(*command, 1);

    let odd = DirectoryConfig {
        shards: NonZeroUsize::new(3).unwrap(),
        activation_waiters: NonZeroUsize::new(1).unwrap(),
    };
    let refused: Result<LocalDirectory<String, u32, String, u64, _>, _> =
        LocalDirectory::with_hasher(odd, BuildHasherDefault::<DefaultHasher>::default());
    assert!(matches!(refused, Err(DirectoryError::InvalidShardCount)));
}
