use bombay::address::{AllocationRejection, ApplicationAddresses, MailAddr};
use bombay::capabilities::{
    begin_child_request, begin_delivery, begin_establishment, begin_input, classify_claim,
    finish_delivery, finish_establishment, finish_exact_delivery, finish_observe_child,
    finish_shutdown_child, interpret_input, is_recoverable, observe_creation, observe_peer,
    return_fact, settle_schedule_after, settle_schedule_at, ChildCreationOutcome, ChildDelivery, ChildDeliveryReason,
    ChildInputReason, ChildShutdownRejection, CreationRejection, Establishing,
    ExactDeliveryReason, InstalledChild, PeerObservationRejection, ScheduleAfterRejection,
    ScheduleAtRejection, TimerError, TimerRequest, TimerScheduled,
};
use bombay::child_bindings::{
    retire_child_tasks, ChildBinding, CreationBinding, CreationKind,
};
use bombay::creation::{ChildNamespaceExhausted, ChildRoutes, CreateChild, RoutedCreation};
use bombay::established::{
    EstablishedObservation, ExactObservations, ObservationOperation, ObservationRejection,
};
use bombay::launch::SpawnError;
use bombay::local::admission::ShutdownRejection;
use bombay::local::environment::ClaimError;
use bombay::observation::{FactPoll, FactQueue, FactSource, ObservationError};
use bombay::observe::future::ObservationFuture;
use bombay::observe::slot::Slot;
use bombay::observe::waiters::WakerId;
use bombay::outcome::Exit;
use bombay::prepare_workers::{drive_preparation, WorkerPreparation};
use bombay::settlement::{InterpreterFault, ItemSettlement};
use communication::{channel, Config, Consumer, ControlSender};

type Bindings = ChildBinding<u32, &'static str, u8>;
type Failure = SpawnError<&'static str, &'static str, &'static str, (), (), Vec<()>>;

fn creation(id: u64, route: u64) -> RoutedCreation<&'static str> {
    RoutedCreation {
        creation: CreateChild {
            id,
            child: "child",
            kind: CreationKind::Birth,
        },
        route,
    }
}

fn establish(
    bindings: &mut Bindings,
    id: u64,
    route: u64,
    launched: Result<InstalledChild<u32, &'static str, u8>, Failure>,
) -> ItemSettlement<
    RoutedCreation<&'static str>,
    ChildCreationOutcome<&'static str, &'static str, &'static str, u32>,
    CreationRejection,
    u64,
> {
    let mut addresses = ApplicationAddresses::from_next(100);
    let Ok((child, behavior)) = begin_establishment::<_, &str, &str, _, _, _>(
        bindings,
        &mut addresses,
        creation(id, route),
    ) else {
        panic!("an address is left")
    };
    assert_eq!(behavior, "child");
    assert_eq!(
        child,
        Establishing {
            id,
            kind: CreationKind::Birth,
            route,
            address: MailAddr(100)
        }
    );
    finish_establishment(bindings, child, launched)
}

fn installed(endpoint: u32) -> InstalledChild<u32, &'static str, u8> {
    InstalledChild {
        endpoint,
        control: "control",
        task: endpoint as u8,
    }
}

#[test]
fn a_live_child_is_bound_to_its_creation() {
    let mut bindings: Bindings = ChildBinding::new();
    assert!(matches!(
        establish(&mut bindings, 1, 0, Ok(installed(7))),
        ItemSettlement::Accepted(ChildCreationOutcome::Established {
            id: 1,
            kind: CreationKind::Birth,
            endpoint: 7
        })
    ));
    assert_eq!(
        bindings.creation(1),
        Some(CreationBinding::Established {
            route: 0,
            kind: CreationKind::Birth
        })
    );
    assert_eq!(bindings.creation(2), None);
    assert_eq!(bindings.endpoint(0), Some(&7));
    assert_eq!(bindings.control(0), Some(&"control"));
    assert_eq!(bindings.endpoint(1), None);
    assert_eq!(bindings.control(1), None);
    assert_eq!(bindings.retire(), [7]);
}

#[test]
fn an_exhausted_address_source_returns_the_creation() {
    let mut bindings: Bindings = ChildBinding::new();
    let mut addresses = ApplicationAddresses::from_next(u64::MAX);
    let Err(settlement) = begin_establishment::<_, &str, &str, _, _, _>(
        &mut bindings,
        &mut addresses,
        creation(3, 0),
    ) else {
        panic!("no address is left")
    };
    let ItemSettlement::Rejected { item, reason } = settlement else {
        panic!("the creation was rejected")
    };
    assert_eq!(
        reason,
        CreationRejection::Allocation(AllocationRejection::Exhausted)
    );
    assert_eq!((item.creation.id, item.creation.child, item.route), (3, "child", 0));
    assert_eq!(bindings.creation(3), Some(CreationBinding::Rejected));
}

#[test]
fn a_rejected_child_comes_back_whole() {
    let mut bindings: Bindings = ChildBinding::new();
    let ItemSettlement::Accepted(ChildCreationOutcome::InitializationRejected {
        creation,
        error,
    }) = establish(
        &mut bindings,
        1,
        0,
        Err(SpawnError::InitializationRejected {
            behavior: "final",
            error: "bad",
            control: vec![],
            user: vec![],
            descendants: vec![],
        }),
    )
    else {
        panic!("the initialization was rejected")
    };
    assert_eq!((creation.creation.id, creation.creation.child, error), (1, "final", "bad"));

    for (claim, expected) in [
        (
            ClaimError::AddressInUse(MailAddr(100)),
            CreationRejection::Allocation(AllocationRejection::AddressAlreadyClaimed),
        ),
        (
            ClaimError::RegistrationIdsExhausted(MailAddr(100)),
            CreationRejection::EnvironmentFailed,
        ),
    ] {
        assert_eq!(classify_claim(claim), expected);
        let ItemSettlement::Accepted(ChildCreationOutcome::HostRejected {
            creation,
            initialization,
            reason,
        }) = establish(
            &mut bindings,
            2,
            1,
            Err(SpawnError::HostRejected {
                behavior: "final",
                initialization: "actions",
                error: claim,
                control: vec![],
                user: vec![],
                descendants: vec![],
            }),
        )
        else {
            panic!("the host rejected the child")
        };
        assert_eq!(creation.creation.child, "final");
        assert_eq!(initialization, "actions");
        assert_eq!(reason, expected);
    }

    assert!(matches!(
        establish(
            &mut bindings,
            4,
            2,
            Err(SpawnError::AllocationRejected {
                behavior: "final",
                reason: AllocationRejection::AddressAlreadyClaimed
            })
        ),
        ItemSettlement::Rejected {
            reason: CreationRejection::Allocation(AllocationRejection::AddressAlreadyClaimed),
            ..
        }
    ));
    for id in [1, 2, 4] {
        assert_eq!(bindings.creation(id), Some(CreationBinding::Rejected));
    }
    assert!(bindings.retire().is_empty());
}

fn bindings() -> Bindings {
    let mut bindings: Bindings = ChildBinding::new();
    establish(&mut bindings, 1, 0, Ok(installed(7)));
    bindings.record_creation(2, CreationBinding::Rejected);
    bindings.record_creation(
        3,
        CreationBinding::Established {
            route: 9,
            kind: CreationKind::Replacement { previous: 1 },
        },
    );
    bindings
}

#[test]
fn a_delivery_reaches_a_bound_child_or_comes_back() {
    let bindings = bindings();
    let delivery = |creation| ChildDelivery {
        creation,
        message: "hello",
    };
    let Ok((endpoint, kept)) = begin_delivery(&bindings, delivery(1)) else {
        panic!("the child is bound")
    };
    assert_eq!((*endpoint, kept.creation, kept.message), (7, 1, "hello"));
    let Err(blocked) = begin_delivery(&bindings, delivery(2)) else {
        panic!("the creation was rejected")
    };
    assert!(matches!(
        blocked,
        ItemSettlement::Blocked {
            prerequisite: 2,
            ..
        }
    ));
    assert_eq!(blocked.into_item().unwrap().message, "hello");
    for missing in [3, 4] {
        assert!(matches!(
            begin_delivery(&bindings, delivery(missing)),
            Err(ItemSettlement::Rejected {
                reason: ChildDeliveryReason::MissingBinding,
                ..
            })
        ));
    }
    assert!(matches!(
        finish_delivery::<&str>(1, Ok(())),
        ItemSettlement::Accepted(())
    ));
    assert!(matches!(
        finish_delivery(1, Err("hello")),
        ItemSettlement::Rejected {
            item: ChildDelivery {
                creation: 1,
                message: "hello"
            },
            reason: ChildDeliveryReason::ClosedRecipient
        }
    ));
}

#[test]
fn an_input_reaches_the_control_lane_of_a_bound_child() {
    let bindings = bindings();
    let input = |creation| ChildDelivery {
        creation,
        message: 1_u8,
    };
    let Ok((control, _)) = begin_input(&bindings, input(1)) else {
        panic!("the child is bound")
    };
    assert_eq!(*control, "control");
    assert!(matches!(
        begin_input(&bindings, input(2)),
        Err(ItemSettlement::Blocked {
            prerequisite: 2,
            ..
        })
    ));
    assert!(matches!(
        begin_input(&bindings, input(4)),
        Err(ItemSettlement::Rejected {
            reason: ChildInputReason::MissingBinding,
            ..
        })
    ));
}

#[test]
fn an_exact_delivery_never_retargets() {
    assert!(matches!(
        finish_exact_delivery::<_, &str, ()>("exact", Ok(())),
        ItemSettlement::Accepted(())
    ));
    let ItemSettlement::Rejected { item, reason } =
        finish_exact_delivery::<_, _, ()>("exact", Err("hello"))
    else {
        panic!("the recipient is closed")
    };
    assert_eq!((item.to, item.message), ("exact", "hello"));
    assert_eq!(reason, ExactDeliveryReason::ClosedRecipient);
}

#[test]
fn a_creation_is_observed_as_it_was_resolved() {
    let bindings = bindings();
    let (settlement, fact) = observe_creation::<(), _, _, _>(&bindings, 1);
    assert!(matches!(settlement, ItemSettlement::Accepted(())));
    let fact = fact.unwrap();
    assert_eq!(
        (fact.creation, fact.kind, fact.endpoint),
        (1, CreationKind::Birth, 7)
    );
    let (settlement, fact) = observe_creation::<(), _, _, _>(&bindings, 2);
    assert!(matches!(
        settlement,
        ItemSettlement::Blocked {
            item: 2,
            prerequisite: 2
        }
    ));
    assert!(fact.is_none());
    for missing in [3, 4] {
        let (settlement, fact) = observe_creation::<(), _, _, _>(&bindings, missing);
        assert!(matches!(
            settlement,
            ItemSettlement::Corrupt {
                fault: InterpreterFault::MissingCapability,
                ..
            }
        ));
        assert!(fact.is_none());
        assert!(begin_child_request::<(), _, _, _>(&bindings, missing).is_err());
    }
    assert!(matches!(
        begin_child_request::<(), _, _, _>(&bindings, 1),
        Ok(&7)
    ));
}

#[test]
fn a_child_that_takes_a_shutdown_request_is_observed() {
    let mut facts: FactQueue<&str, &str> = FactQueue::new();
    assert!(matches!(
        finish_observe_child::<(), _, _>(&mut facts, 1, "first", "outer"),
        ItemSettlement::Accepted(())
    ));
    assert!(matches!(
        finish_shutdown_child(&mut facts, 1, Ok(()), "second", "outer"),
        ItemSettlement::Accepted(())
    ));
    assert_eq!(facts.len(), 2);
    assert!(matches!(
        finish_shutdown_child(
            &mut facts,
            1,
            Err(ShutdownRejection::AlreadyStopping),
            "third",
            "outer"
        ),
        ItemSettlement::Rejected {
            item: 1,
            reason: ChildShutdownRejection::AlreadyStopping
        }
    ));
    assert!(matches!(
        finish_shutdown_child(
            &mut facts,
            1,
            Err(ShutdownRejection::AlreadyStopped),
            "third",
            "outer"
        ),
        ItemSettlement::Rejected {
            item: 1,
            reason: ChildShutdownRejection::NotEstablished
        }
    ));
    assert_eq!(facts.len(), 2);
}

#[test]
fn unknown_peer_is_an_error() {
    let mut facts: FactQueue<(), ()> = FactQueue::new();
    let error = facts.observe(MailAddr(9), None, ()).unwrap_err();
    assert_eq!(error, ObservationError::Unknown(MailAddr(9)));
    assert_eq!(
        error.message(),
        "no live actor generation exists at the requested address"
    );
    assert!(matches!(
        observe_peer::<(), _, _>(&mut facts, MailAddr(9), None, ()),
        ItemSettlement::Rejected {
            item: MailAddr(9),
            reason: PeerObservationRejection::UnknownAddress
        }
    ));
    assert_eq!(facts.len(), 0);
}

fn next_fact(
    facts: &mut FactQueue<ObservationFuture, &'static str>,
    slot: &mut Slot<Exit<MailAddr>>,
) -> Option<(FactSource, &'static str, Exit<MailAddr>)> {
    if facts.len() == 0 {
        return None;
    }
    let mut index = 0;
    loop {
        let polled = facts.at(index).poll(slot, WakerId(1));
        match facts.polled(index, polled) {
            FactPoll::Ready(fact) => return Some((fact.source, fact.inject, fact.outcome)),
            FactPoll::Next(next) => index = next,
            FactPoll::Pending => return None,
        }
    }
}

#[test]
fn observation_captures_the_exact_resolved_generation() {
    let mut slot = Slot::new();
    let mut facts = FactQueue::new();
    assert!(matches!(
        observe_peer::<(), _, _>(
            &mut facts,
            MailAddr(2),
            Some(ObservationFuture::new()),
            "here"
        ),
        ItemSettlement::Accepted(())
    ));
    assert_eq!(next_fact(&mut facts, &mut slot), None);
    slot.complete(Exit::Normal);
    assert_eq!(
        next_fact(&mut facts, &mut slot),
        Some((FactSource::Peer(MailAddr(2)), "here", Exit::Normal))
    );
    assert_eq!(next_fact(&mut facts, &mut slot), None);
}

#[test]
fn structural_observations_of_one_peer_are_multiplicity_preserving() {
    let mut slot = Slot::new();
    let mut facts = FactQueue::new();
    facts.insert_peer(MailAddr(2), ObservationFuture::new(), "outer");
    facts.insert_peer(MailAddr(2), ObservationFuture::new(), "inner");
    facts.insert_child(5, ObservationFuture::new(), "child");
    assert_eq!(next_fact(&mut facts, &mut slot), None);
    slot.complete(Exit::Normal);
    let mut delivered: Vec<&str> = (0..3)
        .map(|_| next_fact(&mut facts, &mut slot).unwrap().1)
        .collect();
    delivered.sort_unstable();
    assert_eq!(delivered, ["child", "inner", "outer"]);
    assert_eq!(facts.len(), 0);
}

#[test]
fn routes_are_consecutive_and_a_batch_is_routed_whole() {
    let create = |id| CreateChild {
        id,
        child: id,
        kind: CreationKind::Birth,
    };
    let mut routes = ChildRoutes::new();
    let ItemSettlement::Accepted(first) = routes.route::<_, ()>(vec![create(1), create(2)]) else {
        panic!("routes are left")
    };
    let ItemSettlement::Accepted(second) = routes.route::<_, ()>(vec![create(3)]) else {
        panic!("routes are left")
    };
    let given: Vec<(u64, u64)> = first
        .iter()
        .chain(&second)
        .map(|routed| (routed.creation.id, routed.route))
        .collect();
    assert_eq!(given, [(1, 0), (2, 1), (3, 2)]);
    assert!(matches!(
        routes.route::<u64, ()>(vec![]),
        ItemSettlement::Accepted(_)
    ));
    assert_eq!(ChildNamespaceExhausted, ChildNamespaceExhausted);
}

#[test]
fn tasks_retire_by_occurrence_and_then_by_creation() {
    let mut first: Bindings = ChildBinding::new();
    let mut second: Bindings = ChildBinding::new();
    second.retain_task(3);
    first.retain_task(1);
    first.retain_task(2);
    assert_eq!(first.bind(0, 5, "a"), None);
    assert_eq!(first.bind(0, 6, "b"), Some(5));
    assert_eq!(retire_child_tasks(vec![first, second]), [1, 2, 3]);
}

#[test]
fn an_observation_identity_is_live_once() {
    let mut observations = ExactObservations::new();
    assert_eq!(
        observations.observe::<()>(1, "cancel one"),
        (EstablishedObservation::Started { id: 1 }, None)
    );
    assert_eq!(
        observations.observe::<()>(1, "again"),
        (
            EstablishedObservation::Rejected {
                id: 1,
                operation: ObservationOperation::Start,
                reason: ObservationRejection::IdAlreadyBound
            },
            Some("again")
        )
    );
    assert_eq!(
        observations.cancel::<()>(1),
        (
            EstablishedObservation::Cancelled { id: 1 },
            Some("cancel one")
        )
    );
    assert_eq!(
        observations.cancel::<()>(1),
        (
            EstablishedObservation::Rejected {
                id: 1,
                operation: ObservationOperation::Cancel,
                reason: ObservationRejection::NotObserved
            },
            None
        )
    );
    observations.observe::<()>(1, "one");
    observations.observe::<()>(2, "two");
    observations.observe::<()>(3, "three");
    assert_eq!(
        observations.stopped(2, "outcome"),
        EstablishedObservation::Stopped {
            id: 2,
            outcome: "outcome"
        }
    );
    assert_eq!(observations.len(), 2);
    let mut cancelled = observations.retire();
    cancelled.sort_unstable();
    assert_eq!(cancelled, [(1, "one"), (3, "three")]);
    assert_eq!(observations.len(), 0);
}

#[test]
fn a_timer_request_is_settled_by_the_queue() {
    let request = || TimerRequest {
        id: 4,
        generation: 2,
        due: "soon",
    };
    let receipt = TimerScheduled {
        id: 4,
        generation: 2,
    };
    assert!(matches!(
        settle_schedule_at::<_, ()>(request(), Ok(())),
        ItemSettlement::Accepted(scheduled) if scheduled == receipt
    ));
    assert!(matches!(
        settle_schedule_after::<_, ()>(request(), Ok(())),
        ItemSettlement::Accepted(scheduled) if scheduled == receipt
    ));
    for (error, expected) in [
        (
            TimerError::GenerationExhausted,
            ScheduleAtRejection::QueueGenerationExhausted,
        ),
        (
            TimerError::SequenceExhausted,
            ScheduleAtRejection::QueueSequenceExhausted,
        ),
    ] {
        assert!(matches!(
            settle_schedule_at::<_, ()>(request(), Err(error)),
            ItemSettlement::Rejected { item: TimerRequest { due: "soon", .. }, reason } if reason == expected
        ));
    }
    for (error, expected) in [
        (
            TimerError::DeadlineOverflow,
            ScheduleAfterRejection::DeadlineOverflow,
        ),
        (
            TimerError::GenerationExhausted,
            ScheduleAfterRejection::QueueGenerationExhausted,
        ),
        (
            TimerError::SequenceExhausted,
            ScheduleAfterRejection::QueueSequenceExhausted,
        ),
    ] {
        assert!(matches!(
            settle_schedule_after::<_, ()>(request(), Err(error)),
            ItemSettlement::Rejected { reason, .. } if reason == expected
        ));
    }
}

struct Workers {
    attempted: Vec<u32>,
    reject: Option<u32>,
}

fn prepare(mut source: Workers, role: &u32) -> (Workers, Result<String, &'static str>) {
    source.attempted.push(*role);
    let prepared = if source.reject == Some(*role) {
        Err("rejected")
    } else {
        Ok(role.to_string())
    };
    (source, prepared)
}

#[test]
fn every_role_is_prepared_in_order() {
    let source = Workers {
        attempted: vec![],
        reject: None,
    };
    let WorkerPreparation::Prepared { source, workers } =
        drive_preparation(source, vec![3, 1, 2], prepare)
    else {
        panic!("no role was rejected")
    };
    assert_eq!(source.attempted, [3, 1, 2]);
    assert_eq!(
        workers,
        [
            (3, String::from("3")),
            (1, String::from("1")),
            (2, String::from("2"))
        ]
    );
}

#[test]
fn the_first_rejection_ends_the_preparation() {
    let source = Workers {
        attempted: vec![],
        reject: Some(1),
    };
    let WorkerPreparation::Rejected {
        source,
        prepared,
        failed,
        reason,
        untouched,
    } = drive_preparation(source, vec![3, 1, 2, 4], prepare)
    else {
        panic!("one role was rejected")
    };
    assert_eq!(source.attempted, [3, 1]);
    assert_eq!(prepared, [(3, String::from("3"))]);
    assert_eq!((failed, reason), (1, "rejected"));
    assert_eq!(untouched, [2, 4]);
}

#[test]
fn an_input_is_injected_into_the_control_lane() {
    let (control, _user, consumer): (ControlSender<String>, _, Consumer<String, ()>) =
        channel(Config::new(2));
    let mut bindings: ChildBinding<u32, ControlSender<String>, u8> = ChildBinding::new();
    bindings.bind(10, 5, control);
    bindings.record_creation(
        1,
        CreationBinding::Established {
            route: 10,
            kind: CreationKind::Birth,
        },
    );
    bindings.record_creation(2, CreationBinding::Rejected);
    let input = |creation, message: &'static str| ChildDelivery { creation, message };
    let inject = |message: &'static str| format!("input {message}");
    assert!(matches!(
        interpret_input(&bindings, input(1, "a"), inject),
        Ok(ItemSettlement::Accepted(()))
    ));
    assert!(matches!(
        interpret_input(&bindings, input(2, "b"), inject),
        Ok(ItemSettlement::Blocked {
            item: ChildDelivery {
                creation: 2,
                message: "b"
            },
            prerequisite: 2
        })
    ));
    assert!(matches!(
        interpret_input(&bindings, input(3, "c"), inject),
        Ok(ItemSettlement::Rejected {
            reason: ChildInputReason::MissingBinding,
            ..
        })
    ));
    assert_eq!(consumer.drain().control, ["input a"]);
    assert!(matches!(
        interpret_input(&bindings, input(1, "d"), inject),
        Err(event) if event == "input d"
    ));
}

type Launch = Result<
    InstalledChild<u32, &'static str, u8>,
    SpawnError<&'static str, &'static str, &'static str, u8, u8, Vec<u8>>,
>;

#[test]
fn only_a_launch_that_left_nothing_behind_is_recoverable() {
    let rejected = |control: Vec<u8>, descendants: Vec<u8>| -> Launch {
        Err(SpawnError::InitializationRejected {
            behavior: "child",
            error: "error",
            control,
            user: vec![],
            descendants,
        })
    };
    let installed: Launch = Ok(InstalledChild {
        endpoint: 1,
        control: "control",
        task: 2,
    });
    assert!(is_recoverable(&installed));
    assert!(is_recoverable(&rejected(vec![], vec![])));
    assert!(!is_recoverable(&rejected(vec![1], vec![])));
    assert!(!is_recoverable(&rejected(vec![], vec![1])));
    let panicked: Launch = Err(SpawnError::Panicked);
    assert!(!is_recoverable(&panicked));
}

#[test]
fn a_fact_returns_through_the_control_lane() {
    let (control, _user, consumer): (ControlSender<String>, _, Consumer<String, ()>) =
        channel(Config::new(2));
    let mut observations = ExactObservations::new();
    let (fact, refused) = observations.observe::<()>(3, "cancel");
    assert_eq!(refused, None);
    let inject = |fact: EstablishedObservation<()>| match fact {
        EstablishedObservation::Started { id } => format!("started {id}"),
        _ => panic!("the observation started"),
    };
    assert_eq!(return_fact(&control, fact, inject), Ok(()));
    assert_eq!(consumer.drain().control, ["started 3"]);
    assert_eq!(
        return_fact(&control, fact, inject),
        Err("started 3".to_string())
    );
}
