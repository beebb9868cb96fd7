use bombay::address::{AllocationRejection, ApplicationAddresses, MailAddr};
use bombay::application_run::ApplicationStarting;
use bombay::application_runtime::{
    declared_startup_error, stage_application, startup_error, Actions, App, ApplicationBehavior,
    ApplicationDefinitionError, ApplicationHandle, AxumBinding, AxumRunError, RunError,
};
use bombay::authoring::Step;
use bombay::child_bindings::CreationKind;
use bombay::creation::CreateChild;
use bombay::entity::directory::{DirectoryConfig, DirectoryError};
use bombay::entity::family::{
    admit_activation, AdmittedActivation, Entities, EntityActivationError, EntityCapacity,
    EntityMetricState, EntityMetrics, EntityTaskOwner, LaunchFailure, ResidentBound,
};
use bombay::entity::lifecycle::{DrainFailure, DrainStage, RetirementMode};
use bombay::launch::{OwnedActor, SpawnError};
use bombay::local::environment::ClaimError;
use bombay::nonzero::NonZeroUsize;
use bombay::outcome::Completion;

type Spawn<F> = SpawnError<(), F, (), (), (), ()>;
type Run = RunError<&'static str, &'static str>;

fn rejected<F>(error: F) -> Spawn<F> {
    SpawnError::InitializationRejected {
        behavior: (),
        error,
        control: vec![],
        user: vec![],
        descendants: (),
    }
}

fn refused<F>() -> Spawn<F> {
    SpawnError::HostRejected {
        behavior: (),
        initialization: (),
        error: ClaimError::AddressInUse(MailAddr(0)),
        control: vec![],
        user: vec![],
        descendants: (),
    }
}

#[test]
fn every_run_error_has_its_words() {
    let errors: [(Run, &str, &str); 9] = [
        (
            RunError::Runtime("io"),
            "Runtime",
            "Bombay could not construct its Tokio runtime",
        ),
        (
            startup_error(Spawn::AllocationRejected {
                behavior: (),
                reason: AllocationRejection::Exhausted,
            }),
            "AllocationRejected",
            "the root address source rejected allocation",
        ),
        (
            startup_error(rejected("root")),
            "InitializationRejected",
            "the root rejected initialization",
        ),
        (
            startup_error(refused()),
            "HostRejected",
            "the actor host rejected root initialization",
        ),
        (
            startup_error(Spawn::Panicked),
            "Panicked",
            "root initialization panicked",
        ),
        (
            startup_error(Spawn::Cancelled),
            "Cancelled",
            "root initialization was cancelled",
        ),
        (
            startup_error(Spawn::Ended(Completion::Stopped)),
            "Ended",
            "the root ended before publishing activation",
        ),
        (
            declared_startup_error(rejected(ApplicationDefinitionError::InitializedTwice)),
            "InitializedTwice",
            "the running application was initialized more than once",
        ),
        (
            RunError::NonceExhausted,
            "NonceExhausted",
            "application actor nonce allocation was exhausted",
        ),
    ];
    for (error, name, message) in errors {
        assert_eq!(error.name(), name);
        assert_eq!(error.message(), message);
        assert_eq!(error.source().is_some(), name == "Runtime");
    }
}

#[test]
fn a_declared_root_fails_like_a_plain_one() {
    let failures: [(Spawn<ApplicationDefinitionError<&'static str>>, &str); 6] = [
        (
            SpawnError::AllocationRejected {
                behavior: (),
                reason: AllocationRejection::Exhausted,
            },
            "AllocationRejected",
        ),
        (
            rejected(ApplicationDefinitionError::Root("root")),
            "InitializationRejected",
        ),
        (refused(), "HostRejected"),
        (SpawnError::Panicked, "Panicked"),
        (SpawnError::Cancelled, "Cancelled"),
        (SpawnError::Ended(Completion::Exhausted), "Ended"),
    ];
    for (failure, name) in failures {
        let error: Run = declared_startup_error(failure);
        assert_eq!(error.name(), name);
    }
}

fn actions(creates: Vec<CreateChild<&'static str>>) -> Actions<&'static str, &'static str> {
    Actions {
        sends: "sends",
        creates,
        become_: Step::Continue,
    }
}

#[test]
fn declared_actors_are_created_after_those_of_the_root_and_once() {
    let composed: Result<ApplicationBehavior<&str, &str>, Run> =
        stage_application("root", vec!["first", "second"]);
    let Ok(mut behavior) = composed else {
        panic!("a fresh application has identities")
    };
    assert_eq!(*behavior.base(), "root");

    let failed: Result<_, ApplicationDefinitionError<&str>> = behavior.init(Err("not yet"));
    let Err(error) = failed.map(|acted: Actions<&str, &str>| acted.sends) else {
        panic!("the root failed")
    };
    assert_eq!(error, ApplicationDefinitionError::Root("not yet"));

    let own = CreateChild {
        id: 1,
        child: "own",
        kind: CreationKind::Birth,
    };
    let acted = behavior.init::<_, &str>(Ok(actions(vec![own]))).unwrap();
    assert_eq!(acted.sends, "sends");
    assert_eq!(acted.become_, Step::Continue);
    let created: Vec<(u64, &str)> = acted
        .creates
        .iter()
        .map(|create| (create.id, create.child))
        .collect();
    assert_eq!(created, [(1, "own"), (1, "first"), (2, "second")]);

    let again = behavior.init::<_, &str>(Ok(actions(vec![])));
    assert!(matches!(
        again,
        Err(ApplicationDefinitionError::InitializedTwice)
    ));

    *behavior.base_mut() = "changed";
    assert_eq!(*behavior.base(), "changed");
    let turn = behavior.transition::<_, &str>(Ok(actions(vec![]))).unwrap();
    assert!(turn.creates.is_empty());
    assert!(matches!(
        behavior.transition::<&str, _>(Err("failed")),
        Err(ApplicationDefinitionError::Root("failed"))
    ));
}

#[test]
fn a_family_needs_a_power_of_two_shards() {
    let capacity = EntityCapacity::new(
        NonZeroUsize::new(2).unwrap(),
        NonZeroUsize::new(3).unwrap(),
    );
    assert_eq!(capacity.concurrent_hydrations().get(), 2);
    assert_eq!(capacity.residents().get(), 3);
    let directory = DirectoryConfig::default();
    let Ok(app) =
        App::new("root", "spaces").entity_family::<_, _, ()>("role", "orders", directory, capacity)
    else {
        panic!("the default directory is valid")
    };
    assert_eq!(
        app.into_parts(),
        ("root", "spaces", ("role", "orders", directory, capacity, ()))
    );

    let odd = DirectoryConfig {
        shards: NonZeroUsize::new(6).unwrap(),
        activation_waiters: NonZeroUsize::new(1).unwrap(),
    };
    let Err(undeclared) =
        App::new("root", "spaces").entity_family::<_, _, ()>("role", "orders", odd, capacity)
    else {
        panic!("six is not a power of two")
    };
    assert!(matches!(
        undeclared.error,
        DirectoryError::InvalidShardCount
    ));
    assert_eq!(
        undeclared.error.message(),
        "shard count was not a power of two"
    );
    assert_eq!(undeclared.role, "role");
    assert_eq!(undeclared.definition, "orders");
    assert_eq!(undeclared.app.into_parts(), ("root", "spaces", ()));
}

#[test]
fn a_handle_projects_its_root() {
    let handle = ApplicationHandle::new(7, "families");
    assert_eq!(*handle.root(), 7);
    assert_eq!(*handle.families(), "families");
    assert_eq!(*handle.lifecycle().root(), 7);
    assert_eq!(*handle.interface("api").api(), "api");
}

type Served = Result<&'static str, AxumRunError<&'static str, &'static str, u16, &'static str>>;
type Owned = OwnedActor<&'static str, &'static str, u8>;

fn owned() -> Owned {
    OwnedActor {
        actor: "root",
        control: "control",
        task: 3,
    }
}

fn serve(
    listener: Result<u8, &'static str>,
    launched: Result<Owned, Run>,
    served: Result<(), &'static str>,
) -> (Served, Option<bool>) {
    let (launching, _) = match AxumBinding::new(8080).bound(listener) {
        Ok(bound) => bound,
        Err(error) => return (Err(error), None),
    };
    let (serving, handle) = match launching.launched(launched) {
        Ok(serving) => serving,
        Err(error) => return (Err(error), None),
    };
    assert_eq!(*handle.root(), "root");
    let (settling, task, must_request_shutdown) = serving.served(served);
    assert_eq!(task, 3);
    (settling.finished("terminal"), Some(must_request_shutdown))
}

#[test]
fn a_failed_server_stops_the_root_and_keeps_its_terminal() {
    assert!(matches!(
        serve(Ok(1), Ok(owned()), Ok(())),
        (Ok("terminal"), Some(false))
    ));
    let (ended, stopped) = serve(Ok(1), Ok(owned()), Err("closed"));
    assert_eq!(stopped, Some(true));
    let Err(error) = ended else {
        panic!("the server failed")
    };
    assert!(matches!(
        error,
        AxumRunError::Serve {
            source: "closed",
            terminal: "terminal"
        }
    ));
    assert_eq!(
        error.message(),
        "the Axum server failed before the application root retired"
    );
    assert_eq!(error.source(), Some(&"closed"));
}

#[test]
fn an_application_is_served_only_behind_a_bound_listener_and_a_live_root() {
    assert_eq!(*AxumBinding::new(8080).address(), 8080);
    let (ended, stopped) = serve(Err("in use"), Ok(owned()), Ok(()));
    assert_eq!(stopped, None);
    let Err(error) = ended else {
        panic!("the listener could not be bound")
    };
    assert!(matches!(
        error,
        AxumRunError::Bind {
            address: 8080,
            source: "in use"
        }
    ));
    assert_eq!(
        error.message(),
        "Bombay could not bind the Axum listener at 8080"
    );
    assert_eq!(error.source(), Some(&"in use"));

    let (ended, stopped) = serve(Ok(1), Err(RunError::Panicked), Ok(()));
    assert_eq!(stopped, None);
    let Err(error) = ended else {
        panic!("the root panicked")
    };
    assert_eq!(error.message(), "root initialization panicked");
    assert_eq!(error.source(), None);
    let (ended, _) = serve(Ok(1), Err(RunError::Runtime("executor")), Ok(()));
    assert!(matches!(ended, Err(error) if error.source() == Some(&"executor")));
}

type Application = Result<(&'static str, &'static str, &'static str), Run>;

/// Run an application; the row of what was done comes back with what it gave.
fn run_application(
    executor: Result<u8, &'static str>,
    launched: Result<Owned, Run>,
) -> (Application, Vec<&'static str>) {
    let mut done = Vec::new();
    let started = ApplicationStarting::new("declared").executor(executor);
    let (executor, families, installing) = match started {
        Ok(started) => started,
        Err(error) => return (Err(error), done),
    };
    assert_eq!(executor, 1);
    assert_eq!(families, "declared");
    done.push("install");
    let launching = installing.installed("installed");
    assert_eq!(*launching.families(), "installed");
    assert_eq!(launching.root_address(), MailAddr(0));
    let (installed, draining) = match launching.launched(launched, "receptionists") {
        Ok((handle, live)) => {
            assert_eq!(*handle.root(), "root");
            assert_eq!(*handle.families(), "receptionists");
            done.push("boundary");
            let (task, finishing) = live.returned("output");
            assert_eq!(task, 3);
            done.push("finish the root");
            finishing.finished("terminal")
        }
        Err(failed) => failed,
    };
    assert_eq!(installed, "installed");
    done.push("shut down");
    (draining.shut_down("shutdowns"), done)
}

#[test]
fn an_application_ends_with_its_root_and_then_its_families() {
    let (ended, done) = run_application(Ok(1), Ok(owned()));
    assert!(matches!(ended, Ok(("output", "terminal", "shutdowns"))));
    assert_eq!(
        done,
        ["install", "boundary", "finish the root", "shut down"]
    );
}

#[test]
fn families_shut_down_when_the_root_did_not_become_live() {
    let (ended, done) = run_application(Ok(1), Err(RunError::Panicked));
    assert!(matches!(ended, Err(RunError::Panicked)));
    assert_eq!(done, ["install", "shut down"]);
}

#[test]
fn nothing_is_installed_without_an_executor() {
    let (ended, done) = run_application(Err("no threads"), Ok(owned()));
    assert!(matches!(ended, Err(RunError::Runtime("no threads"))));
    assert!(done.is_empty());
}

struct Family {
    residents: ResidentBound,
    metrics: EntityMetricState,
    addresses: ApplicationAddresses,
}

impl Family {
    fn new(residents: usize) -> Self {
        Family {
            residents: ResidentBound::new(NonZeroUsize::new(residents).unwrap()),
            metrics: EntityMetricState::new(),
            addresses: ApplicationAddresses::new(),
        }
    }

    fn activate(
        &mut self,
        hydration: Result<&'static str, &'static str>,
        launch: Result<u32, &'static str>,
    ) -> Result<
        bombay::entity::family::NativeEntityLease<u32>,
        EntityActivationError<&'static str, LaunchFailure<&'static str, &'static str>>,
    > {
        let admitted = admit_activation(&mut self.residents, &mut self.metrics)?;
        let Ok(hydrating) = admitted.begin_hydration(capacity(1, 1), &mut self.metrics) else {
            panic!("no hydration is under way")
        };
        let (launching, _) = hydrating.hydrated(
            hydration,
            &mut self.addresses,
            &mut self.residents,
            &mut self.metrics,
        )?;
        launching.launched(launch, &mut self.residents, &mut self.metrics)
    }
}

fn capacity(concurrent_hydrations: usize, residents: usize) -> EntityCapacity {
    EntityCapacity::new(
        NonZeroUsize::new(concurrent_hydrations).unwrap(),
        NonZeroUsize::new(residents).unwrap(),
    )
}

#[test]
fn hydrations_stay_within_their_bound() {
    type Admitted = Result<AdmittedActivation, EntityActivationError<(), ()>>;

    let capacity = capacity(2, 3);
    let mut residents = ResidentBound::new(capacity.residents());
    let mut metrics = EntityMetricState::new();
    let mut admitted = Vec::new();
    for _ in 0..3 {
        let activation: Admitted = admit_activation(&mut residents, &mut metrics);
        admitted.push(activation.ok().unwrap());
    }
    let third = admitted.pop().unwrap();
    let mut hydrating = Vec::new();
    for activation in admitted {
        hydrating.push(activation.begin_hydration(capacity, &mut metrics).unwrap());
    }
    let Err(waiting) = third.begin_hydration(capacity, &mut metrics) else {
        panic!("two hydrations are under way")
    };
    assert_eq!(metrics.snapshot().peak_hydrations, 2);
    hydrating.pop().unwrap().abandon(&mut residents, &mut metrics);
    assert!(waiting.begin_hydration(capacity, &mut metrics).is_ok());
    assert_eq!(metrics.snapshot().peak_hydrations, 2);
}

#[test]
fn every_activation_is_counted_once() {
    let mut family = Family::new(1);
    assert!(matches!(
        family.activate(Err("lost"), Ok(1)),
        Err(EntityActivationError::Hydration("lost"))
    ));
    assert!(matches!(
        family.activate(Ok("state"), Err("retired")),
        Err(EntityActivationError::Launch(LaunchFailure::Retired(
            "retired"
        )))
    ));
    assert_eq!(family.residents.residents(), 0);
    let Ok(lease) = family.activate(Ok("state"), Ok(5)) else {
        panic!("there is a place")
    };
    assert_eq!(family.residents.residents(), 1);
    assert!(matches!(
        family.activate(Ok("state"), Ok(6)),
        Err(EntityActivationError::ResidentCapacity)
    ));
    let failure = DrainFailure {
        stage: DrainStage::FenceEnqueue,
        outstanding_reservations: 0,
    };
    let (actor, retiring, forced) =
        lease.begin_retirement(RetirementMode::Forced(failure), &mut family.metrics);
    assert_eq!(actor, 5);
    assert_eq!(forced, Some(failure));
    retiring.retired(&mut family.residents, &mut family.metrics);
    assert_eq!(
        family.metrics.snapshot(),
        EntityMetrics {
            activations: 1,
            hydration_failures: 1,
            launch_failures: 1,
            capacity_refusals: 1,
            forced_retirements: 1,
            peak_hydrations: 1,
            residents: 0,
        }
    );
    assert_eq!(family.residents.residents(), 0);
}

#[test]
fn a_hydrated_behavior_comes_back_when_no_address_is_left() {
    let mut family = Family::new(2);
    family.addresses = ApplicationAddresses::from_next(u64::MAX);
    assert!(matches!(
        family.activate(Ok("state"), Ok(1)),
        Err(EntityActivationError::Launch(
            LaunchFailure::AllocationRejected {
                behavior: "state",
                reason: AllocationRejection::Exhausted
            }
        ))
    ));
    assert_eq!(family.metrics.snapshot().launch_failures, 1);
    assert_eq!(family.residents.residents(), 0);
}

#[test]
fn the_peak_of_hydrations_is_kept() {
    let mut family = Family::new(3);
    let mut hydrating = Vec::new();
    for _ in 0..3 {
        let Ok(admitted) =
            admit_activation::<(), ()>(&mut family.residents, &mut family.metrics)
        else {
            panic!("there is a place")
        };
        let Ok(activation) = admitted.begin_hydration(capacity(3, 3), &mut family.metrics) else {
            panic!("fewer than three hydrations are under way")
        };
        hydrating.push(activation);
    }
    for activation in hydrating {
        activation.abandon(&mut family.residents, &mut family.metrics);
    }
    let Ok(admitted) = admit_activation::<(), ()>(&mut family.residents, &mut family.metrics)
    else {
        panic!("there is a place")
    };
    admitted.abandon(&mut family.residents);
    assert_eq!(family.metrics.snapshot().peak_hydrations, 3);
    assert_eq!(family.metrics.snapshot().activations, 0);
    assert_eq!(family.residents.residents(), 0);
}

#[test]
fn a_graceful_retirement_is_not_forced() {
    let mut family = Family::new(1);
    let Ok(lease) = family.activate(Ok("state"), Ok(5)) else {
        panic!("there is a place")
    };
    let (_, retiring, forced) =
        lease.begin_retirement(RetirementMode::Graceful, &mut family.metrics);
    assert_eq!(forced, None);
    retiring.retired(&mut family.residents, &mut family.metrics);
    assert_eq!(family.metrics.snapshot().forced_retirements, 0);
}

#[test]
fn an_abandoned_launch_gives_its_place_back() {
    let mut family = Family::new(1);
    let Ok(admitted) = admit_activation::<(), ()>(&mut family.residents, &mut family.metrics)
    else {
        panic!("there is a place")
    };
    let Ok(hydrating) = admitted.begin_hydration(capacity(1, 1), &mut family.metrics) else {
        panic!("no hydration is under way")
    };
    let Ok((launching, "state")) = hydrating.hydrated::<_, (), ()>(
        Ok("state"),
        &mut family.addresses,
        &mut family.residents,
        &mut family.metrics,
    ) else {
        panic!("the behavior is hydrated")
    };
    assert_eq!(family.residents.residents(), 1);
    launching.abandon(&mut family.residents);
    assert_eq!(family.residents.residents(), 0);
}

#[test]
fn an_entity_reference_names_its_family_and_identity() {
    let entities = Entities::new("orders");
    let entity = entities.entity(42);
    assert_eq!(*entity.id(), 42);
    assert_eq!(entity.entities(), "orders");
    let request = entity.request("ship");
    assert_eq!(request.command, "ship");
    assert_eq!(*request.entity.id(), 42);
    assert_eq!(request.entity.entities(), "orders");
    assert_eq!(entity.request("bill").command, "bill");
}

#[test]
fn a_task_owner_forgets_finished_tasks() {
    let mut owner = EntityTaskOwner::new();
    owner.track(&vec![], 'a');
    owner.track(&vec![false], 'b');
    owner.track(&vec![true, false], 'c');
    assert_eq!(*owner.tasks(), ['b', 'c']);
    assert_eq!(owner.join(), ['b', 'c']);
    assert!(owner.join().is_empty());
}
