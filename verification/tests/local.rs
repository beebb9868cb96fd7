use std::future::Future;
use std::mem::size_of;

use bombay::actor_interface::{
    ActorInterface, ExternalActorError, NoControl, RetiredExternal,
};
use bombay::address::{AllocationRejection, ApplicationAddresses, MailAddr};
use bombay::entity::runtime::FenceFailure;
use bombay::local::admission::{request_shutdown, Admission, ShutdownRejection};
use bombay::local::environment::{
    Acquired, ActiveLocalEnvironment, ClaimError, LocalEnvironment, NextEvent,
};
use bombay::local::ingress::{
    retain_at_retirement, IngressMode, LocalInbox, LocalIngress, SendError, User,
};
use bombay::local::reference::{
    settle_fence, settle_send, ActorRef, EndpointMailbox, Outgoing,
};
use bombay::local::residual::{recover_events, LocalResidual};
use bombay::mailbox::Received;
use bombay::observe::slot::Slot;
use bombay::outcome::Exit;
use communication::{mailbox_channel, Config};

fn run<F: Future>(future: F) -> F::Output {
    tokio::runtime::Builder::new_current_thread()
        .enable_all()
        .build()
        .unwrap()
        .block_on(future)
}

#[test]
fn rejected_user_delivery_recovers_the_exact_owned_payload() {
    let payload = String::from("application-owned-payload");
    let rejected: LocalIngress<MailAddr, String, ()> =
        LocalIngress::Message(User::new(MailAddr(7), payload));

    let error = SendError::from_entity_rejection(rejected);

    assert_eq!(error.into_message(), "application-owned-payload");
}

#[test]
fn ordinary_ingress_retains_the_exact_user_item_layout() {
    type StandardItem = User<MailAddr, ()>;

    assert_eq!(size_of::<StandardItem>(), size_of::<User<MailAddr, ()>>());
    assert!(size_of::<LocalIngress<MailAddr, (), ()>>() > size_of::<StandardItem>());
}

#[test]
fn retirement_returns_every_queued_ingress_item_in_fifo_order() {
    run(async {
        let (control, admission_owner, user_mailbox, consumer) =
            mailbox_channel::<User<MailAddr, ()>, User<MailAddr, ()>>(Config::new(2));
        assert!(control.send(User::new(MailAddr(71), ())).is_ok());
        assert!(control.send(User::new(MailAddr(73), ())).is_ok());
        assert!(user_mailbox
            .send(User::new(MailAddr(79), ()))
            .await
            .is_ok());
        let mut inbox = LocalInbox::new(consumer);

        let retired = inbox
            .drain::<MailAddr, (), ()>()
            .expect("the local inbox retains its consumer before retirement");
        let origins = retired
            .control
            .into_iter()
            .map(|event| event.from)
            .collect::<Vec<_>>();
        let user_origins = retired
            .user
            .into_iter()
            .map(|event| event.from)
            .collect::<Vec<_>>();

        assert_eq!(origins, vec![MailAddr(71), MailAddr(73)]);
        assert_eq!(user_origins, vec![MailAddr(79)]);
        assert!(retired.fences.is_empty());
        assert!(inbox.drain::<MailAddr, (), ()>().is_none());
        drop((admission_owner, user_mailbox));
    });
}

#[test]
fn exact_shutdown_classifies_repeated_and_stopped_requests_without_resending() {
    let (control, owner, mailbox, mut consumer) =
        mailbox_channel::<&str, User<MailAddr, ()>>(Config::new(2));
    let mut admission = Admission::new(owner);
    let mut termination: Slot<Result<Exit<MailAddr>, ()>> = Slot::new();
    let actor: ActorRef<MailAddr, (), (), &str> =
        ActorRef::new(MailAddr(36), EndpointMailbox::Standard(mailbox), control);

    assert_eq!(
        actor.request_shutdown(&termination, &mut admission, "shutdown"),
        Ok(())
    );
    assert_eq!(
        actor.request_shutdown(&termination, &mut admission, "again"),
        Err((ShutdownRejection::AlreadyStopping, "again"))
    );

    termination.complete(Ok(Exit::Normal));
    assert_eq!(
        actor.request_shutdown(&termination, &mut admission, "late"),
        Err((ShutdownRejection::AlreadyStopped, "late"))
    );
    drop((actor, admission));
    let received = run(async {
        let mut control = 0;
        while let Some(received) = consumer.recv().await {
            if let communication::Received::Control(event) = received {
                assert_eq!(event, "shutdown");
                control += 1;
            }
        }
        control
    });
    assert_eq!(received, 1);
}

#[test]
fn an_actor_without_a_control_lane_is_already_stopping() {
    let (_, owner, _, _) = mailbox_channel::<(), User<MailAddr, ()>>(Config::new(2));
    let mut admission = Admission::new(owner);
    let termination: Slot<()> = Slot::new();
    assert_eq!(
        request_shutdown(&termination, None, &mut admission, ()),
        Err((ShutdownRejection::AlreadyStopping, ()))
    );
    assert!(admission.is_open());
    assert_eq!(admission.close(), Some(()));
    assert_eq!(admission.close(), None);
}

fn standard_actor() -> ActorRef<MailAddr, u64, u8, ()> {
    let (control, _, mailbox, _) = mailbox_channel::<(), User<MailAddr, u64>>(Config::new(2));
    ActorRef::new(MailAddr(37), EndpointMailbox::Standard(mailbox), control)
}

fn entity_actor() -> ActorRef<MailAddr, u64, u8, ()> {
    let (control, _, mailbox, _) =
        mailbox_channel::<(), LocalIngress<MailAddr, u64, u8>>(Config::new(2));
    ActorRef::new(MailAddr(41), EndpointMailbox::Entity(mailbox), control)
}

#[test]
fn ordinary_actor_does_not_admit_entity_fences() {
    let actor = standard_actor();
    assert!(matches!(
        actor.fence(5),
        Err((FenceFailure::Enqueue, 5))
    ));
    assert!(matches!(
        entity_actor().fence(5),
        Ok(LocalIngress::Fence(5))
    ));
    assert_eq!(actor.address(), MailAddr(37));
}

#[test]
fn fence_rejected_before_enqueue_reports_the_exact_stage() {
    assert_eq!(settle_fence(false, Ok(())), Err(FenceFailure::Enqueue));
    assert_eq!(settle_fence(true, Ok(())), Ok(()));
    assert_eq!(
        settle_fence(true, Err(FenceFailure::Acknowledgement)),
        Err(FenceFailure::Acknowledgement)
    );
}

#[test]
fn accepted_fence_collected_during_failure_reports_acknowledgement() {
    run(async {
        let (_control, _owner, mailbox, consumer) =
            mailbox_channel::<(), LocalIngress<MailAddr, u64, u8>>(Config::new(4));
        assert!(mailbox
            .send(LocalIngress::Message(User::new(MailAddr(1), 10)))
            .await
            .is_ok());
        assert!(mailbox.send(LocalIngress::Fence(7)).await.is_ok());
        assert!(mailbox
            .send(LocalIngress::Message(User::new(MailAddr(2), 11)))
            .await
            .is_ok());
        let retired = LocalInbox::new(consumer).drain().unwrap();
        assert_eq!(
            retired.fences,
            [(7, Err(FenceFailure::Acknowledgement))]
        );
        let (_, answer) = retired.fences[0];
        assert_eq!(
            settle_fence(true, answer),
            Err(FenceFailure::Acknowledgement)
        );
        assert_eq!(
            retired.user,
            [User::new(MailAddr(1), 10), User::new(MailAddr(2), 11)]
        );
    });
}

#[test]
fn a_rejected_message_is_the_one_sent() {
    for actor in [standard_actor(), entity_actor()] {
        let outgoing = actor.send_from(MailAddr(3), 99);
        let error = settle_send(Err(outgoing)).unwrap_err();
        assert_eq!(error.message(), "actor reference is closed");
        assert_eq!(error.into_message(), 99);
    }
    assert!(settle_send::<MailAddr, u64, u8>(Ok(())).is_ok());
}

type Environment = LocalEnvironment<&'static str, LocalIngress<MailAddr, u64, u8>>;
type Active = ActiveLocalEnvironment<
    &'static str,
    LocalIngress<MailAddr, u64, u8>,
    &'static str,
    &'static str,
    &'static str,
    &'static str,
>;

fn active() -> Active {
    let environment: Environment = LocalEnvironment::prepare(MailAddr(5), 2);
    assert_eq!(environment.mail_address(), MailAddr(5));
    assert!(environment.control().send("queued").is_ok());
    match environment.activate(Ok("lease"), "publish", "endpoint") {
        Ok(active) => active,
        Err(_) => panic!("the claim succeeded"),
    }
}

#[test]
fn a_refused_claim_returns_the_initialization_and_what_was_queued() {
    let environment: Environment = LocalEnvironment::prepare(MailAddr(40), 2);
    assert!(environment.control().send("queued").is_ok());
    let refused = match environment
        .activate::<(), (), (), &str>(Err(ClaimError::AddressInUse(MailAddr(40))), (), ())
    {
        Ok(_) => panic!("the claim failed"),
        Err(refused) => refused,
    };
    let (error, residual): (_, LocalResidual<_, (), _, _, _, _, _, _, &str>) =
        refused.retire("initialization", "tasks", "descendants");
    assert_eq!(error, ClaimError::AddressInUse(MailAddr(40)));
    let LocalResidual::Uncommitted {
        initialization,
        ingress,
        activation_tasks,
        descendants,
    } = residual
    else {
        panic!("nothing was committed")
    };
    assert_eq!(initialization, "initialization");
    assert_eq!(ingress.control, ["queued"]);
    assert_eq!(activation_tasks, "tasks");
    assert_eq!(descendants, "descendants");
}

#[test]
fn an_incarnation_is_published_once_and_retires_with_everything_queued() {
    let mut active = active();
    assert_eq!(active.publish(), ("publish", "endpoint"));
    assert!(active.listens());
    assert_eq!(active.close_admission(), Some(()));
    assert_eq!(active.close_admission(), None);
    assert!(matches!(
        active.next(Acquired::OwnerCancellation(Some("cancelled"))),
        NextEvent::End
    ));
    assert!(!active.listens());
    let (residual, lease): (LocalResidual<(), _, _, _, _, _, _, _, _>, _) =
        active.retire(vec!["settlement"], "tasks", "descendants");
    assert_eq!(lease, "lease");
    let settled =
        residual.settle_activation_tasks(vec![Ok(()), Err("late"), Ok(()), Err("later")]);
    let LocalResidual::Retired {
        settlements,
        ingress,
        owner_cancellation,
        ..
    } = settled
    else {
        panic!("the environment retired")
    };
    assert_eq!(settlements, ["settlement"]);
    assert_eq!(ingress.control, ["queued", "late", "later"]);
    assert_eq!(owner_cancellation, Some("cancelled"));
}

#[test]
fn an_environment_that_was_never_activated_retires_empty() {
    let environment: Environment = LocalEnvironment::prepare(MailAddr(5), 2);
    let residual: LocalResidual<(), (), _, _, _, _, _, _, ()> = environment.retire((), ());
    assert!(matches!(
        residual,
        LocalResidual::Retired {
            owner_cancellation: None,
            ..
        }
    ));
}

#[test]
fn every_acquired_item_has_its_consequence() {
    let mut active = active();
    assert!(matches!(
        active.next(Acquired::Mailbox(Some(Received::Control("control")))),
        NextEvent::Event("control")
    ));
    assert!(matches!(
        active.next(Acquired::Mailbox(Some(Received::User(
            LocalIngress::Message(User {
                from: MailAddr(1),
                message: 5
            })
        )))),
        NextEvent::User(User {
            from: MailAddr(1),
            message: 5
        })
    ));
    assert!(matches!(
        active.next(Acquired::Mailbox(Some(Received::User(
            LocalIngress::Fence(8)
        )))),
        NextEvent::Acknowledge {
            fence: 8,
            answer: Ok(())
        }
    ));
    assert!(matches!(
        active.next(Acquired::Mailbox(Some(Received::UserLaneClosed))),
        NextEvent::Again
    ));
    assert!(matches!(
        active.next(Acquired::Fact("fact")),
        NextEvent::Event("fact")
    ));
    assert!(matches!(
        active.next(Acquired::Deadline(Some("due"))),
        NextEvent::Event("due")
    ));
    assert!(matches!(
        active.next(Acquired::Deadline(None)),
        NextEvent::Again
    ));
    assert!(active.listens());
    assert!(matches!(
        active.next(Acquired::OwnerCancellation(None)),
        NextEvent::Again
    ));
    assert!(!active.listens());
    assert!(matches!(
        active.next(Acquired::Mailbox(None)),
        NextEvent::End
    ));
}

#[test]
fn only_events_that_came_back_are_recovered() {
    assert_eq!(
        recover_events(vec![Err(1), Ok(()), Err(2)]),
        vec![1, 2]
    );
}

#[test]
fn an_external_actor_sends_from_its_claimed_address() {
    let mut addresses = ApplicationAddresses::new();
    let interface = ActorInterface::new("api");
    assert_eq!(*interface.api(), "api");
    let Ok(unclaimed) = interface.external::<u64>(&mut addresses) else {
        panic!("an address is left")
    };
    assert_eq!(unclaimed.mail_address(), MailAddr(1));
    let Ok(mut external) = unclaimed.claimed(Ok("lease"), "termination") else {
        panic!("the claim succeeded")
    };
    assert_eq!(external.address(), MailAddr(1));
    assert!(matches!(
        external.send(&standard_actor(), 5),
        Outgoing::Standard(User {
            from: MailAddr(1),
            message: 5
        })
    ));
    let recipient = external.recipient().clone();
    run(async {
        assert!(recipient.send(User::new(MailAddr(9), 77)).await.is_ok());
    });
    external.close_admission();
    let replies: Vec<u64> = run(async {
        let mut replies = Vec::new();
        loop {
            let item = external.receiver().recv().await.map(|item| match item {
                communication::Received::Control(never) => Received::Control(never),
                communication::Received::User(user) => Received::User(user),
                communication::Received::UserLaneClosed => Received::UserLaneClosed,
            });
            match bombay::actor_interface::ExternalActor::<u64, &str, &str>::receive(item) {
                Some(user) => {
                    assert_eq!(user.from, MailAddr(9));
                    replies.push(user.message);
                }
                None => return replies,
            }
        }
    });
    assert_eq!(replies, [77]);
    run(async {
        assert!(recipient.send(User::new(MailAddr(9), 78)).await.is_err());
    });
    assert_eq!(
        external.retire(),
        RetiredExternal {
            lease: Some("lease"),
            termination: Some(("termination", Ok(Exit::Normal))),
        }
    );
    assert_eq!(
        external.retire(),
        RetiredExternal {
            lease: None,
            termination: None,
        }
    );
}

#[test]
fn an_external_actor_needs_an_address_and_a_claim() {
    let interface = ActorInterface::new(());
    let mut exhausted = ApplicationAddresses::from_next(u64::MAX);
    let Err(error) = interface.external::<u64>(&mut exhausted) else {
        panic!("no address is left")
    };
    assert_eq!(
        error,
        ExternalActorError::Allocation(AllocationRejection::Exhausted)
    );
    assert_eq!(
        error.message(),
        "the Bombay application has exhausted its local address space"
    );

    let mut addresses = ApplicationAddresses::new();
    let Ok(unclaimed) = interface.external::<u64>(&mut addresses) else {
        panic!("an address is left")
    };
    let refusal = ClaimError::RegistrationIdsExhausted(unclaimed.mail_address());
    let Err(error) = unclaimed.claimed::<(), ()>(Err(refusal), ()) else {
        panic!("the claim failed")
    };
    assert_eq!(error, ExternalActorError::Address(refusal));
    assert_eq!(
        error.message(),
        "the external actor address could not be claimed"
    );
}

#[test]
fn nothing_is_received_from_a_closed_external_mailbox() {
    let closed: Option<Received<NoControl, User<MailAddr, u64>>> = Some(Received::UserLaneClosed);
    assert!(
        bombay::actor_interface::ExternalActor::<u64, (), ()>::receive(closed).is_none()
    );
    assert!(bombay::actor_interface::ExternalActor::<u64, (), ()>::receive(None).is_none());
}

#[test]
fn shared_admission_is_closed_from_outside_the_actor() {
    let mut environment: Environment = LocalEnvironment::prepare(MailAddr(5), 2);
    let mailbox = environment.mailbox().clone();
    let mut admission = environment.share_admission();
    assert!(admission.is_open());
    assert!(!environment.share_admission().is_open());
    let message = |message| LocalIngress::Message(User::new(MailAddr(1), message));
    assert!(run(mailbox.send(message(1))).is_ok());
    assert_eq!(admission.close(), Some(()));
    assert_eq!(admission.close(), None);
    assert!(run(mailbox.send(message(2))).is_err());
    assert_eq!(environment.mail_address(), MailAddr(5));
}

#[test]
fn an_ordinary_actor_takes_messages_alone() {
    let mut environment: LocalEnvironment<&str, User<MailAddr, u64>> =
        LocalEnvironment::prepare(MailAddr(6), 4);
    let mailbox = environment.mailbox().clone();
    let mut admission = environment.share_admission();
    assert!(environment.control().send("queued").is_ok());
    for message in [10, 11, 12] {
        assert!(run(mailbox.send(User::new(MailAddr(1), message))).is_ok());
    }
    let endpoint: EndpointMailbox<MailAddr, u64, u8> = User::endpoint(mailbox.clone());
    assert!(matches!(endpoint, EndpointMailbox::Standard(_)));
    assert_eq!(admission.close(), Some(()));
    assert!(run(mailbox.send(User::new(MailAddr(1), 13))).is_err());
    let Ok(mut active) = environment.activate::<_, _, _, &str>(Ok("lease"), "publish", "endpoint")
    else {
        panic!("the claim succeeded")
    };
    let next: NextEvent<&str, MailAddr, u64, u8> = active.next(Acquired::Mailbox(Some(
        Received::User(User::new(MailAddr(2), 20)),
    )));
    assert!(matches!(
        next,
        NextEvent::User(User {
            from: MailAddr(2),
            message: 20
        })
    ));
    let (residual, lease): (LocalResidual<(), (), _, MailAddr, u64, u8, _, _, _>, _) =
        active.retire(vec![], (), ());
    assert_eq!(lease, "lease");
    let LocalResidual::Retired { ingress, .. } = residual else {
        panic!("the environment retired")
    };
    assert_eq!(ingress.control, ["queued"]);
    assert_eq!(
        ingress.user,
        [
            User::new(MailAddr(1), 10),
            User::new(MailAddr(1), 11),
            User::new(MailAddr(1), 12)
        ]
    );
    assert!(ingress.fences.is_empty());
}

#[test]
fn an_item_of_an_entity_lane_is_a_message_or_a_fence() {
    let message: LocalIngress<MailAddr, u64, u8> =
        LocalIngress::Message(User::new(MailAddr(1), 4));
    assert_eq!(message.into_event(), Ok(User::new(MailAddr(1), 4)));
    let fence: LocalIngress<MailAddr, u64, u8> = LocalIngress::Fence(9);
    assert_eq!(fence.into_event(), Err(9));
    let plain: Result<User<MailAddr, u64>, u8> = User::new(MailAddr(1), 4).into_event();
    assert_eq!(plain, Ok(User::new(MailAddr(1), 4)));

    let retired = retain_at_retirement::<&str, MailAddr, u64, u8, _>(
        vec!["control"],
        vec![
            LocalIngress::Message(User::new(MailAddr(1), 4)),
            LocalIngress::Fence(9),
            LocalIngress::Message(User::new(MailAddr(2), 5)),
        ],
    );
    assert_eq!(retired.control, ["control"]);
    assert_eq!(
        retired.user,
        [User::new(MailAddr(1), 4), User::new(MailAddr(2), 5)]
    );
    assert_eq!(
        retired.fences,
        [(9, Err(FenceFailure::Acknowledgement))]
    );
    assert_eq!(
        FenceFailure::collected(),
        Err(FenceFailure::Acknowledgement)
    );
}

#[test]
fn a_refused_activation_closes_admission_when_it_retires() {
    let environment: Environment = LocalEnvironment::prepare(MailAddr(40), 2);
    let mailbox = environment.mailbox().clone();
    let message = |message| LocalIngress::Message(User::new(MailAddr(1), message));
    assert!(run(mailbox.send(message(1))).is_ok());
    let Err(refused) = environment
        .activate::<(), (), (), &str>(Err(ClaimError::AddressInUse(MailAddr(40))), (), ())
    else {
        panic!("the claim failed")
    };
    assert!(run(mailbox.send(message(2))).is_ok());
    let (_, residual): (_, LocalResidual<_, (), _, _, _, _, _, _, &str>) =
        refused.retire((), (), ());
    assert!(run(mailbox.send(message(3))).is_err());
    let LocalResidual::Uncommitted { ingress, .. } = residual else {
        panic!("nothing was committed")
    };
    assert_eq!(
        ingress.user,
        [User::new(MailAddr(1), 1), User::new(MailAddr(1), 2)]
    );
}

#[test]
fn a_reference_never_retargets() {
    let (control, first_owner, first, mut first_lanes) =
        mailbox_channel::<(), User<MailAddr, u64>>(Config::new(2));
    let (_second_control, _second_owner, second, mut second_lanes) =
        mailbox_channel::<(), User<MailAddr, u64>>(Config::new(2));
    let reference: ActorRef<MailAddr, u64, u8, ()> =
        ActorRef::new(MailAddr(8), EndpointMailbox::Standard(first), control);
    let _replacement: ActorRef<MailAddr, u64, u8, ()> =
        ActorRef::external(MailAddr(8), second.clone());
    let send = |message: u64| {
        let EndpointMailbox::Standard(lane) = reference.endpoint() else {
            panic!("an ordinary actor")
        };
        let Outgoing::Standard(user) = reference.send_from(MailAddr(3), message) else {
            panic!("an ordinary actor")
        };
        run(lane.send(user)).is_ok()
    };
    assert!(send(1));
    let received = run(async { first_lanes.recv().await });
    assert!(matches!(
        received,
        Some(communication::Received::User(User {
            from: MailAddr(3),
            message: 1
        }))
    ));
    let mut admission = Admission::new(first_owner);
    assert_eq!(admission.close(), Some(()));
    assert!(!send(2));
    assert!(run(second.send(User::new(MailAddr(4), 3))).is_ok());
    let received = run(async { second_lanes.recv().await });
    assert!(matches!(
        received,
        Some(communication::Received::User(User { message: 3, .. }))
    ));
}

#[test]
fn a_refused_external_claim_closes_its_lane() {
    let interface = ActorInterface::new(());
    let mut addresses = ApplicationAddresses::new();
    let Ok(unclaimed) = interface.external::<u64>(&mut addresses) else {
        panic!("an address is left")
    };
    let recipient = unclaimed.mailbox().clone();
    let refusal = ClaimError::AddressInUse(unclaimed.mail_address());
    assert!(unclaimed.claimed::<(), ()>(Err(refusal), ()).is_err());
    assert!(run(recipient.send(User::new(MailAddr(9), 1))).is_err());
}

fn item<E, U>(item: communication::Received<E, U>) -> Received<E, U> {
    match item {
        communication::Received::Control(event) => Received::Control(event),
        communication::Received::User(user) => Received::User(user),
        communication::Received::UserLaneClosed => Received::UserLaneClosed,
    }
}

#[test]
fn user_lane_closure_does_not_discard_later_control_input() {
    let environment: LocalEnvironment<User<MailAddr, &str>, User<MailAddr, &str>> =
        LocalEnvironment::prepare(MailAddr(10), 2);
    let control = environment.control().clone();
    let Ok(mut active) = environment.activate::<_, _, _, ()>(Ok(()), (), ()) else {
        panic!("the claim succeeded")
    };

    assert_eq!(active.close_admission(), Some(()));
    assert!(control.send(User::new(MailAddr(3), "stop")).is_ok());

    let event = run(async {
        loop {
            let acquired = Acquired::Mailbox(active.receiver().recv().await.map(item));
            let next: NextEvent<_, MailAddr, &str, ()> = active.next(acquired);
            match next {
                NextEvent::Event(event) => return event,
                NextEvent::Again => {}
                _ => panic!("the control lane remains live after user closure"),
            }
        }
    });
    assert_eq!(event.from, MailAddr(3));
    assert_eq!(event.message, "stop");
}

#[test]
fn user_lane_fence_follows_the_preceding_applied_action() {
    let environment: LocalEnvironment<(), LocalIngress<MailAddr, u64, u8>> =
        LocalEnvironment::prepare(MailAddr(41), 4);
    let actor: ActorRef<MailAddr, u64, u8, ()> = ActorRef::new(
        environment.mail_address(),
        LocalIngress::endpoint(environment.mailbox().clone()),
        environment.control().clone(),
    );
    let EndpointMailbox::Entity(lane) = actor.endpoint() else {
        panic!("an entity")
    };
    let Outgoing::Entity(message) = actor.send_from(actor.address(), 1) else {
        panic!("an entity")
    };
    assert!(run(lane.send(message)).is_ok());
    let Ok(fence) = actor.fence(2) else {
        panic!("an entity takes fences")
    };
    assert!(run(lane.send(fence)).is_ok());

    let Ok(mut active) = environment.activate::<_, _, _, ()>(Ok(()), (), ()) else {
        panic!("the claim succeeded")
    };
    let mut taken = Vec::new();
    while taken.len() < 2 {
        let received = run(active.receiver().recv()).map(item);
        match active.next(Acquired::Mailbox(received)) {
            NextEvent::User(user) => taken.push(("applied", user.message)),
            NextEvent::Acknowledge { fence, answer } => {
                assert_eq!(settle_fence(true, answer), Ok(()));
                taken.push(("acknowledged", u64::from(fence)));
            }
            _ => panic!("a message and a fence are queued"),
        }
    }
    assert_eq!(taken, [("applied", 1), ("acknowledged", 2)]);
}

#[test]
fn resolved_snapshot_returns_exact_message_after_retirement() {
    let environment: LocalEnvironment<(), User<MailAddr, &str>> =
        LocalEnvironment::prepare(MailAddr(8), 2);
    let actor: ActorRef<MailAddr, &str, (), ()> = ActorRef::new(
        environment.mail_address(),
        User::endpoint(environment.mailbox().clone()),
        environment.control().clone(),
    );
    let Ok(active) = environment.activate::<_, _, _, ()>(Ok("lease"), (), ()) else {
        panic!("the claim succeeded")
    };
    let (residual, _): (LocalResidual<(), (), _, MailAddr, &str, (), _, _, _>, _) =
        active.retire(vec![], (), ());
    assert!(matches!(residual, LocalResidual::Retired { .. }));

    let EndpointMailbox::Standard(lane) = actor.endpoint() else {
        panic!("an ordinary actor")
    };
    let Outgoing::Standard(message) = actor.send_from(MailAddr(1), "increment") else {
        panic!("an ordinary actor")
    };
    let sent = run(lane.send(message)).map_err(|closed| Outgoing::Standard(closed.0));
    let error = settle_send::<MailAddr, &str, ()>(sent).unwrap_err();
    assert_eq!(error.into_message(), "increment");
}
