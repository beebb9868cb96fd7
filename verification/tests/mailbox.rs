use std::future::Future;
use std::sync::Arc;

use bombay::mailbox::{next_event, MailboxConfig, Received};
use communication::Consumer;
use tokio::sync::Barrier;
use tokio::task::yield_now;

fn run<F: Future>(future: F) -> F::Output {
    tokio::runtime::Builder::new_current_thread()
        .enable_all()
        .build()
        .unwrap()
        .block_on(future)
}

async fn next<E>(source: &mut Consumer<E, E>) -> Option<E> {
    next_event(source.recv().await.map(|received| match received {
        communication::Received::Control(event) => Received::Control(event),
        communication::Received::User(event) => Received::User(event),
        communication::Received::UserLaneClosed => Received::UserLaneClosed,
    }))
}

#[test]
fn registry_anchor_does_not_keep_mailbox_alive() {
    run(async {
        let (sender, source) = MailboxConfig::bounded(2).create::<u64>();
        let mut source = source.into_consumer();
        let anchor = sender.anchor();
        drop(sender);
        assert_eq!(next(&mut source).await, None);
        assert!(anchor.user().send(7).await.is_err());
    });
}

#[test]
fn queued_user_events_drain_before_lane_closure() {
    run(async {
        let (sender, source) = MailboxConfig::bounded(2).create::<u64>();
        let mut source = source.into_consumer();
        assert!(sender.user().send(1).await.is_ok());
        drop(sender);
        assert_eq!(next(&mut source).await, Some(1));
        assert_eq!(next(&mut source).await, None);
    });
}

#[test]
fn blocked_producer_recovers_payload_when_receiver_retires() {
    run(async {
        let (sender, receiver) = MailboxConfig::bounded(1).create::<u64>();
        assert!(sender.user().send(1).await.is_ok());
        assert!(sender.user().send(2).await.is_ok());
        let barrier = Arc::new(Barrier::new(2));
        let blocked = tokio::spawn({
            let user = sender.user().clone();
            let barrier = barrier.clone();
            async move {
                barrier.wait().await;
                user.send(3).await
            }
        });
        barrier.wait().await;
        yield_now().await;
        assert!(!blocked.is_finished());

        drop(receiver);
        let Err(error) = blocked.await.unwrap() else {
            panic!("receiver retirement rejects send")
        };
        assert_eq!(error.0, 3);
    });
}

#[test]
fn control_event_precedes_queued_user_events() {
    run(async {
        let (sender, source) = MailboxConfig::bounded(2).create::<u64>();
        let mut source = source.into_consumer();
        assert!(sender.user().send(1).await.is_ok());
        assert!(sender.user().send(2).await.is_ok());
        sender.send_control(9).unwrap();

        assert_eq!(next(&mut source).await, Some(9));
        assert_eq!(next(&mut source).await, Some(1));
        assert_eq!(next(&mut source).await, Some(2));
    });
}

#[test]
fn zero_aging_drains_complete_control_backlog_before_waiting_user() {
    run(async {
        let (sender, source) = MailboxConfig::bounded(1).create::<u64>();
        let mut source = source.into_consumer();
        assert!(sender.user().send(1).await.is_ok());
        for control in 10..18 {
            sender.send_control(control).unwrap();
        }

        for control in 10..18 {
            assert_eq!(next(&mut source).await, Some(control));
        }
        assert_eq!(next(&mut source).await, Some(1));
    });
}

#[test]
fn a_control_event_comes_back_when_the_receiver_is_gone() {
    let (sender, receiver) = MailboxConfig::bounded(1).create::<String>();
    drop(receiver);
    assert_eq!(
        sender.send_control(String::from("event")),
        Err(String::from("event"))
    );
}

#[test]
fn a_closed_user_lane_ends_a_source() {
    assert_eq!(next_event::<u8>(Some(Received::UserLaneClosed)), None);
    assert_eq!(next_event::<u8>(None), None);
    assert_eq!(next_event(Some(Received::User(1_u8))), Some(1));
    assert_eq!(next_event(Some(Received::Control(2_u8))), Some(2));
}
