use std::cell::RefCell;
use std::rc::Rc;

use bombay::address::{AllocationRejection, MailAddr};
use bombay::authoring::{Effect, Step};
use bombay::generation::{Generation, GenerationStep, LocalActivationError, NeverLive};
use bombay::incarnation::Incarnation;
use bombay::launch::{
    can_end_before_publication, finish_owned_task, retire_local, settle_launch,
    settle_local_outcome, startup_failure,
    ActivationPublisher, ActivationRejection, Joined, LocalOutcome, OwnedActor, RetirementNotice,
    SpawnError,
};
use bombay::local::environment::ClaimError;
use bombay::local::ingress::{RetiredIngress, User};
use bombay::local::residual::LocalResidual;
use bombay::mailbox::MailboxConfig;
use bombay::outcome::{
    Completion, Crash, DriverError, DriverRetirement, Exit, IncarnationOutcome, Terminal,
    TerminalOverride,
};
use bombay::terminal::{has_its_residual, ActorOrigin, ActorRetirement};
use bombay::reports::{
    ChildReport, LocalParentReports, TerminalReportDisposition, TerminationSelection,
};
use communication::{channel, Config};

type Outcome = IncarnationOutcome<&'static str, u8, &'static str, &'static str, &'static str>;

fn outcomes() -> Vec<(Outcome, Result<Exit<MailAddr>, Crash>)> {
    let returned = |disposition| {
        Outcome::from(DriverRetirement {
            behavior: "final",
            residual: 3,
            disposition,
        })
    };
    vec![
        (returned(Ok(Completion::Stopped)), Ok(Exit::Normal)),
        (returned(Ok(Completion::Exhausted)), Ok(Exit::Collected)),
        (
            returned(Err(DriverError::Behavior("b"))),
            Err(Crash::Failed),
        ),
        (
            returned(Err(DriverError::Activation("a"))),
            Err(Crash::EnvironmentFailed),
        ),
        (
            returned(Err(DriverError::Environment("e"))),
            Err(Crash::EnvironmentFailed),
        ),
        (IncarnationOutcome::Panicked, Err(Crash::Panicked)),
        (IncarnationOutcome::Cancelled, Err(Crash::Cancelled)),
    ]
}

#[test]
fn exact_driver_failures_remain_distinct() {
    for (outcome, expected) in outcomes() {
        assert_eq!(outcome.termination(), expected);
        match outcome {
            IncarnationOutcome::Completed {
                behavior, residual, ..
            } => assert_eq!((behavior, residual), ("final", 3)),
            IncarnationOutcome::BehaviorFailed {
                behavior,
                residual,
                error,
            } => assert_eq!((behavior, residual, error), ("final", 3, "b")),
            IncarnationOutcome::ActivationFailed {
                behavior,
                residual,
                error,
            } => assert_eq!((behavior, residual, error), ("final", 3, "a")),
            IncarnationOutcome::EnvironmentFailed {
                behavior,
                residual,
                error,
            } => assert_eq!((behavior, residual, error), ("final", 3, "e")),
            IncarnationOutcome::Panicked | IncarnationOutcome::Cancelled => {}
        }
    }
}

type Log = Rc<RefCell<Vec<&'static str>>>;

/// A driver that tells when it is dropped.
struct Driver(Log);

impl Drop for Driver {
    fn drop(&mut self) {
        self.0.borrow_mut().push("driver dropped");
    }
}

#[test]
fn successful_completion_drops_driver_then_retires_once() {
    let log: Log = Rc::default();
    let mut incarnation = Incarnation::new(Driver(Rc::clone(&log)), "retired");
    assert!(Rc::ptr_eq(&incarnation.driver().0, &log));
    drop(incarnation.give_up_driver());
    let (retirement, outcome) = incarnation.complete("outcome");
    log.borrow_mut().push(retirement);
    assert_eq!(outcome, "outcome");
    assert_eq!(*log.borrow(), ["driver dropped", "retired"]);
    assert!(incarnation.give_up_driver().is_none());
    assert!(incarnation
        .interrupt::<(), (), (), (), ()>(false)
        .is_none());
}

#[test]
fn panic_drops_driver_before_exactly_one_terminal_classification() {
    let log: Log = Rc::default();
    let mut incarnation = Incarnation::new(Driver(Rc::clone(&log)), "retired");
    drop(incarnation.give_up_driver());
    let Some((retirement, outcome)) = incarnation.interrupt::<(), (), (), (), ()>(true) else {
        panic!("the retirement is owed")
    };
    log.borrow_mut().push(retirement);
    assert!(matches!(outcome, IncarnationOutcome::Panicked));
    assert_eq!(*log.borrow(), ["driver dropped", "retired"]);
    assert!(incarnation.interrupt::<(), (), (), (), ()>(true).is_none());
}

#[test]
fn cancellation_drops_driver_before_exactly_one_terminal_classification() {
    let log: Log = Rc::default();
    let mut incarnation = Incarnation::new(Driver(Rc::clone(&log)), "retired");
    drop(incarnation.give_up_driver());
    let Some((retirement, outcome)) = incarnation.interrupt::<(), (), (), (), ()>(false) else {
        panic!("the retirement is owed")
    };
    log.borrow_mut().push(retirement);
    assert!(matches!(outcome, IncarnationOutcome::Cancelled));
    assert_eq!(*log.borrow(), ["driver dropped", "retired"]);
    assert!(incarnation
        .interrupt::<(), (), (), (), ()>(false)
        .is_none());
}

#[test]
fn a_retirement_is_consumed_exactly_once() {
    let mut terminal = Terminal::new("retirement");
    assert_eq!(terminal.complete("outcome"), ("retirement", "outcome"));
    assert!(terminal
        .release::<(), (), (), (), ()>(false)
        .is_none());
    let mut terminal = Terminal::new("retirement");
    assert!(matches!(
        terminal.release::<(), (), (), (), ()>(true),
        Some(("retirement", IncarnationOutcome::Panicked))
    ));
    assert!(terminal.release::<(), (), (), (), ()>(true).is_none());
}

#[test]
fn a_replacement_is_published_once() {
    for (outcome, expected) in outcomes() {
        let mut replacement = TerminalOverride::new();
        replacement.set(Ok(Exit::LinkDied(MailAddr(1))));
        replacement.set(Ok(Exit::LinkDied(MailAddr(2))));
        assert_eq!(
            replacement.retire(&outcome),
            Ok(Exit::LinkDied(MailAddr(2)))
        );
        assert_eq!(replacement.retire(&outcome), expected);
        assert_eq!(replacement.resolve(Err(Crash::Failed)), Err(Crash::Failed));
    }
}

#[test]
fn only_a_stopping_turn_selects_its_end() {
    let mut selection: TerminationSelection<MailAddr> = TerminationSelection::new();
    selection.commit(Step::Continue, vec![Err(Crash::Failed)]);
    assert_eq!(
        selection.retire(&Outcome::Panicked),
        Err(Crash::Panicked)
    );

    selection.commit(Step::Stop, vec![Err(Crash::Failed), Ok(Exit::Collected)]);
    selection.commit(Step::Stop, vec![]);
    assert_eq!(selection.retire(&Outcome::Panicked), Ok(Exit::Collected));
    assert_eq!(
        selection.retire(&Outcome::Cancelled),
        Err(Crash::Cancelled)
    );
    assert_eq!(
        TerminalReportDisposition::of(Step::Stop),
        TerminalReportDisposition::Retain
    );
    assert_eq!(
        TerminalReportDisposition::of(Step::Continue),
        TerminalReportDisposition::Discard
    );
}

#[test]
fn a_child_report_names_its_creation() {
    let (parent, user, consumer) = channel::<(u64, &str), ()>(Config::new(1));
    let reports = LocalParentReports::new(5, parent);
    let inject = |report: ChildReport<&'static str>| (report.child, report.report);
    assert_eq!(reports.report("up", inject), Ok(()));
    assert_eq!(consumer.drain().control, [(5, "up")]);
    assert_eq!(reports.report("lost", inject), Err((5, "lost")));
    drop(user);
}

#[test]
fn effects_keep_their_order_and_survive_a_stop() {
    assert_eq!(
        Effect::<u8>::none().into_actions(),
        (vec![], Step::Continue)
    );
    assert_eq!(Effect::send(1).into_actions(), (vec![1], Step::Continue));
    assert_eq!(
        Effect::send_all(vec![1, 2, 3]).stop().into_actions(),
        (vec![1, 2, 3], Step::Stop)
    );
    assert_eq!(
        Effect::send("7 says hello (1)").stop().stop().into_actions(),
        (vec!["7 says hello (1)"], Step::Stop)
    );
}

type Local = LocalOutcome<
    &'static str,
    &'static str,
    &'static str,
    (),
    u8,
    u32,
    (),
    &'static str,
    Vec<u16>,
    &'static str,
    &'static str,
>;
type Spawn = SpawnError<&'static str, &'static str, &'static str, u8, u32, Vec<u16>>;

fn ingress() -> RetiredIngress<u8, MailAddr, u32, ()> {
    RetiredIngress {
        control: vec![1],
        user: vec![User::new(MailAddr(9), 90)],
        fences: vec![],
    }
}

fn retired(owner_cancellation: Option<&'static str>) -> LocalResidual<
    &'static str,
    (),
    u8,
    MailAddr,
    u32,
    (),
    &'static str,
    Vec<u16>,
    &'static str,
> {
    LocalResidual::Retired {
        settlements: vec![],
        ingress: ingress(),
        activation_tasks: "tasks",
        descendants: vec![4],
        owner_cancellation,
    }
}

#[test]
fn a_rejected_initialization_returns_everything_the_actor_owned() {
    let outcome: Local = IncarnationOutcome::BehaviorFailed {
        behavior: "actor",
        residual: retired(None),
        error: "rejected",
    };
    let failure: Spawn =
        startup_failure(Joined::Returned(outcome), vec![Ok(()), Err(2)]);
    assert_eq!(failure.name(), "InitializationRejected");
    assert_eq!(failure.message(), "the behavior rejected initialization");
    let ActorRetirement::InitializationRejected {
        behavior,
        error,
        control,
        user,
        descendants,
    } = failure.into_retirement::<(), &str>()
    else {
        panic!("the behavior rejected initialization")
    };
    assert_eq!((behavior, error), ("actor", "rejected"));
    assert_eq!(control, [1, 2]);
    assert_eq!(user, [User::new(MailAddr(9), 90)]);
    assert_eq!(descendants, [4]);
}

#[test]
fn entity_launch_preserves_the_exact_conflicting_address() {
    let outcome: Local = IncarnationOutcome::ActivationFailed {
        behavior: "actor",
        residual: LocalResidual::Uncommitted {
            initialization: "initialization",
            ingress: ingress(),
            activation_tasks: "tasks",
            descendants: vec![],
        },
        error: ClaimError::AddressInUse(MailAddr(40)),
    };
    let failure: Spawn = SpawnError::from_local(outcome);
    assert_eq!(failure.name(), "HostRejected");
    assert_eq!(failure.message(), "the actor host rejected initialization");
    let SpawnError::HostRejected {
        initialization,
        error,
        ..
    } = failure
    else {
        panic!("the host rejected the address")
    };
    assert_eq!(initialization, "initialization");
    assert_eq!(error, ClaimError::AddressInUse(MailAddr(40)));
}

#[test]
fn every_startup_failure_has_its_words() {
    let failures: [(Spawn, &str, &str); 5] = [
        (
            SpawnError::AllocationRejected {
                behavior: "actor",
                reason: AllocationRejection::Exhausted,
            },
            "AllocationRejected",
            "the actor address source rejected allocation",
        ),
        (
            startup_failure::<_, _, _, (), _, _, (), &str, _, &str, &str>(Joined::Panicked, vec![]),
            "Panicked",
            "actor initialization panicked",
        ),
        (
            startup_failure::<_, _, _, (), _, _, (), &str, _, &str, &str>(Joined::Aborted, vec![]),
            "Cancelled",
            "actor initialization was cancelled",
        ),
        (
            SpawnError::Ended(Completion::Stopped),
            "Ended",
            "the actor ended before publishing activation: Stopped",
        ),
        (
            SpawnError::Ended(Completion::Exhausted),
            "Ended",
            "the actor ended before publishing activation: Exhausted",
        ),
    ];
    for (failure, name, message) in failures {
        assert_eq!(failure.name(), name);
        assert_eq!(failure.message(), message);
    }
    assert!(matches!(
        Spawn::AllocationRejected {
            behavior: "actor",
            reason: AllocationRejection::Exhausted
        }
        .into_retirement::<(), &str>(),
        ActorRetirement::AllocationRejected {
            behavior: "actor",
            reason: AllocationRejection::Exhausted
        }
    ));
    assert!(matches!(
        Spawn::Ended(Completion::Stopped).into_retirement::<(), &str>(),
        ActorRetirement::EndedBeforeActivation {
            completion: Completion::Stopped
        }
    ));
}

#[test]
fn a_joined_task_is_classified() {
    assert!(matches!(
        finish_owned_task(Joined::Returned(Outcome::Cancelled)),
        IncarnationOutcome::Cancelled
    ));
    assert!(matches!(
        finish_owned_task::<(), (), (), (), ()>(Joined::Panicked),
        IncarnationOutcome::Panicked
    ));
    assert!(matches!(
        finish_owned_task::<(), (), (), (), ()>(Joined::Aborted),
        IncarnationOutcome::Cancelled
    ));
}

#[test]
fn settling_keeps_the_final_behavior_and_appends_late_events() {
    let outcome: Local = IncarnationOutcome::Completed {
        behavior: "actor",
        residual: retired(Some("cancelled")),
        completion: Completion::Exhausted,
    };
    let IncarnationOutcome::Completed {
        behavior,
        residual:
            LocalResidual::Retired {
                ingress,
                owner_cancellation,
                descendants,
                ..
            },
        completion,
    } = settle_local_outcome(outcome, vec![Err(7), Err(8)])
    else {
        panic!("the actor completed")
    };
    assert_eq!(behavior, "actor");
    assert_eq!(completion, Completion::Exhausted);
    assert_eq!(ingress.control, [1, 7, 8]);
    assert_eq!(owner_cancellation, Some("cancelled"));
    assert_eq!(descendants, [4]);
}

#[test]
fn a_retirement_tells_the_launcher_or_the_observers() {
    let completed = |owner| -> Local {
        IncarnationOutcome::Completed {
            behavior: "actor",
            residual: retired(owner),
            completion: Completion::Stopped,
        }
    };
    let mut activation = ActivationPublisher::new("launcher");
    let mut selection = TerminationSelection::new();
    assert!(matches!(
        retire_local(&mut activation, &mut selection, &completed(None)),
        RetirementNotice::NeverLive {
            publisher: "launcher",
            rejection: ActivationRejection::EndedBeforePublication
        }
    ));
    assert!(matches!(
        retire_local(&mut activation, &mut selection, &completed(None)),
        RetirementNotice::Terminated(Ok(Exit::Normal))
    ));
    assert!(matches!(
        retire_local(&mut activation, &mut selection, &completed(Some("owner"))),
        RetirementNotice::OwnerCancelled
    ));
    selection.commit(Step::Stop, vec![Err(Crash::Failed)]);
    assert!(matches!(
        retire_local(&mut activation, &mut selection, &completed(None)),
        RetirementNotice::Terminated(Err(Crash::Failed))
    ));
    assert_eq!(activation.complete_activation(), None);
}

fn transcript(
    committed: Result<(), &'static str>,
    claimed: Result<&'static str, &'static str>,
) -> (
    Vec<GenerationStep>,
    Option<&'static str>,
    Option<LocalActivationError<&'static str, &'static str>>,
) {
    let mut generation = Generation::prepare("endpoint");
    let mut steps = Vec::new();
    let mut published = None;
    let mut failed = None;
    while let Some(step) = generation.step() {
        steps.push(step);
        generation = match step {
            GenerationStep::Commit => generation.committed(committed),
            GenerationStep::Claim => generation.claimed(claimed),
            GenerationStep::Publish => {
                let (endpoint, next) = generation.publish();
                published = Some(endpoint);
                next
            }
            GenerationStep::Retire => generation.retired(),
            GenerationStep::Release => {
                let (lease, next) = generation.release();
                assert_eq!(lease, "lease");
                next
            }
            GenerationStep::Outcome => {
                let (failure, next) = generation.conclude();
                failed = failure;
                next
            }
        };
    }
    (steps, published, failed)
}

#[test]
fn spawn_returns_only_after_initial_commit_and_publication() {
    assert_eq!(
        transcript(Ok(()), Ok("lease")),
        (
            vec![
                GenerationStep::Commit,
                GenerationStep::Claim,
                GenerationStep::Publish,
                GenerationStep::Retire,
                GenerationStep::Release,
                GenerationStep::Outcome,
            ],
            Some("endpoint"),
            None
        )
    );
}

#[test]
fn failed_initial_commit_returns_no_reference_and_publishes_nothing() {
    assert_eq!(
        transcript(Err("commit"), Ok("lease")),
        (
            vec![GenerationStep::Commit, GenerationStep::Outcome],
            None,
            Some(LocalActivationError::Commit("commit"))
        )
    );
    assert_eq!(
        NeverLive.message(),
        "actor terminated before becoming live"
    );
}

#[test]
fn address_collision_rejects_activation_without_replacing_the_live_generation() {
    assert_eq!(
        transcript(Ok(()), Err("address")),
        (
            vec![
                GenerationStep::Commit,
                GenerationStep::Claim,
                GenerationStep::Outcome
            ],
            None,
            Some(LocalActivationError::Address("address"))
        )
    );
}

#[test]
fn a_mailbox_configuration_keeps_its_bound() {
    let (sender, receiver) = MailboxConfig::bounded(3).create::<u8>();
    assert!(sender.send_control(1).is_ok());
    let drained = receiver.into_consumer().drain();
    assert_eq!(drained.control, [1]);
    assert!(drained.user.is_empty());
}

#[test]
fn a_launched_actor_is_owned_only_when_it_became_live() {
    let live = settle_launch(Ok::<_, ActivationRejection>("actor"), "control", 7);
    assert!(matches!(
        live,
        Ok(OwnedActor {
            actor: "actor",
            control: "control",
            task: 7
        })
    ));
    let ended: Result<OwnedActor<&str, &str, i32>, i32> = settle_launch(
        Err(ActivationRejection::EndedBeforePublication),
        "control",
        7,
    );
    assert!(matches!(ended, Err(7)));
}

#[derive(Debug)]
enum ProbeTerminal {
    Probe {
        origin: ActorOrigin,
        terminal: Box<
            ActorRetirement<u8, &'static str, (), u8, u8, u8, Vec<ProbeTerminal>, &'static str>,
        >,
    },
}

type Nested = LocalOutcome<
    u8,
    &'static str,
    (),
    u8,
    u8,
    u8,
    (),
    (),
    Vec<ProbeTerminal>,
    (),
    &'static str,
>;

fn nested_residual(
    descendants: Vec<ProbeTerminal>,
) -> LocalResidual<(), u8, u8, MailAddr, u8, (), (), Vec<ProbeTerminal>, ()> {
    LocalResidual::Retired {
        settlements: vec![5],
        ingress: RetiredIngress {
            control: vec![],
            user: vec![],
            fences: vec![],
        },
        activation_tasks: (),
        descendants,
        owner_cancellation: None,
    }
}

#[test]
fn projected_child_retirement_preserves_origin_state_and_descendants() {
    let descendant_origin = ActorOrigin::child(MailAddr(2), 0);
    let descendant = ProbeTerminal::Probe {
        origin: descendant_origin,
        terminal: Box::new(ActorRetirement::Cancelled),
    };
    let child_origin = ActorOrigin::child(MailAddr(1), 0);
    let outcome: Nested = IncarnationOutcome::Completed {
        behavior: 19,
        residual: nested_residual(vec![descendant]),
        completion: Completion::Stopped,
    };
    let ProbeTerminal::Probe { origin, terminal } = ProbeTerminal::Probe {
        origin: child_origin,
        terminal: Box::new(ActorRetirement::from_local(outcome)),
    };
    let ActorRetirement::Completed {
        behavior,
        settlements,
        control,
        user,
        descendants,
        completion,
    } = *terminal
    else {
        panic!("the projected child must preserve its completed disposition")
    };
    assert_eq!(origin, child_origin);
    assert_eq!(behavior, 19);
    assert_eq!(settlements, [5]);
    assert!(control.is_empty());
    assert!(user.is_empty());
    assert_eq!(descendants.len(), 1);
    let ProbeTerminal::Probe { origin, terminal } = descendants
        .into_iter()
        .next()
        .expect("the nested terminal remains in the child retirement");
    assert!(matches!(*terminal, ActorRetirement::Cancelled));
    assert_eq!(origin, descendant_origin);
    assert_eq!(completion, Completion::Stopped);
}

#[test]
fn every_outcome_has_its_terminal_facts() {
    let failed: Nested = IncarnationOutcome::BehaviorFailed {
        behavior: 3,
        residual: nested_residual(vec![]),
        error: "fold",
    };
    assert!(matches!(
        ActorRetirement::from_local(failed),
        ActorRetirement::BehaviorFailed {
            behavior: 3,
            error: "fold",
            ..
        }
    ));
    let failed: Nested = IncarnationOutcome::EnvironmentFailed {
        behavior: 4,
        residual: nested_residual(vec![]),
        error: "commit",
    };
    assert!(matches!(
        ActorRetirement::from_local(failed),
        ActorRetirement::EnvironmentFailed {
            behavior: 4,
            error: "commit",
            ..
        }
    ));
    let refused: Nested = IncarnationOutcome::ActivationFailed {
        behavior: 5,
        residual: LocalResidual::Uncommitted {
            initialization: (),
            ingress: RetiredIngress {
                control: vec![1],
                user: vec![],
                fences: vec![],
            },
            activation_tasks: (),
            descendants: vec![],
        },
        error: ClaimError::AddressInUse(MailAddr(8)),
    };
    let ActorRetirement::HostRejected {
        behavior,
        error,
        control,
        ..
    } = ActorRetirement::from_local(refused)
    else {
        panic!("the address was refused")
    };
    assert_eq!(behavior, 5);
    assert_eq!(error, ClaimError::AddressInUse(MailAddr(8)));
    assert_eq!(control, [1]);
    assert!(matches!(
        ActorRetirement::from_local(Nested::Panicked),
        ActorRetirement::Panicked
    ));
    assert!(matches!(
        ActorRetirement::from_local(Nested::Cancelled),
        ActorRetirement::Cancelled
    ));
}

#[test]
fn an_origin_tells_a_child_from_the_root() {
    let root = ActorOrigin::root(MailAddr::application_root());
    assert_eq!(root.address(), MailAddr::application_root());
    assert_eq!(root.nonce(), None);
    let child = ActorOrigin::child(MailAddr(1), 0);
    assert_eq!(child.nonce(), Some(0));
    assert_ne!(root, child);
}

#[test]
fn only_a_refused_address_leaves_an_uncommitted_initialization() {
    let completed: Nested = IncarnationOutcome::Completed {
        behavior: 1,
        residual: nested_residual(vec![]),
        completion: Completion::Exhausted,
    };
    assert!(has_its_residual(&completed));
    assert!(can_end_before_publication(&completed));
    let refused: Nested = IncarnationOutcome::ActivationFailed {
        behavior: 1,
        residual: nested_residual(vec![]),
        error: ClaimError::AddressInUse(MailAddr(1)),
    };
    assert!(!has_its_residual(&refused));
    assert!(!can_end_before_publication(&refused));
    assert!(has_its_residual(&Nested::Panicked));
    let failed: Nested = IncarnationOutcome::EnvironmentFailed {
        behavior: 1,
        residual: nested_residual(vec![]),
        error: "commit",
    };
    assert!(has_its_residual(&failed));
    assert!(!can_end_before_publication(&failed));
}
