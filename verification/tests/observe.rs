use bombay::observe::future::{AffineObservation, ObservationFuture, WakeDrain};
use bombay::observe::slot::{Slot, WaitStep};
use bombay::observe::waiters::{ThreadId, Waiter, WakerId, WakerOwnership};
use bombay::outcome::IncarnationOutcome;
use std::cell::Cell;
use std::rc::Rc;

fn wakers(notified: &[Waiter]) -> Vec<u64> {
    notified
        .iter()
        .filter_map(|waiter| match waiter {
            Waiter::Waker { waker, .. } => Some(waker.0),
            Waiter::Thread(_) => None,
        })
        .collect()
}

fn threads(notified: &[Waiter]) -> Vec<u64> {
    notified
        .iter()
        .filter_map(|waiter| match waiter {
            Waiter::Waker { .. } => None,
            Waiter::Thread(thread) => Some(thread.0),
        })
        .collect()
}

fn ready<O>(step: WaitStep<O>) -> O {
    match step {
        WaitStep::Ready(outcome) => outcome,
        WaitStep::Park => panic!("the thread parked"),
        WaitStep::TimedOut => panic!("the wait timed out"),
    }
}

#[test]
fn pair_completion_racing_observation_never_loses_outcome() {
    for reads_before in 0..3 {
        let mut slot = Slot::new();
        for _ in 0..reads_before {
            assert_eq!(slot.try_get(), None);
        }
        slot.complete(42_u64);
        assert_eq!(slot.try_get(), Some(42));
    }
}

#[test]
fn pair_completion_wakes_all_blocking_observers() {
    let mut slot = Slot::new();
    assert!(matches!(slot.wait(ThreadId(1)), WaitStep::Park));
    assert!(matches!(slot.wait(ThreadId(2)), WaitStep::Park));
    let notified = slot.complete(9_u64);
    assert_eq!(threads(&notified), [1, 2]);
    assert_eq!(ready(slot.wait(ThreadId(1))), 9);
    assert_eq!(ready(slot.wait(ThreadId(2))), 9);
}

#[test]
fn late_pair_clone_reads_retained_outcome() {
    let mut slot = Slot::new();
    slot.complete(5_u64);
    assert_eq!(slot.try_get(), Some(5));
    assert_eq!(slot.try_get(), Some(5));
}

#[test]
fn concurrent_pairs_are_isolated() {
    let mut first = Slot::new();
    let mut second = Slot::new();
    second.complete(2_u64);
    assert_eq!(first.try_get(), None);
    first.complete(1_u64);
    assert_eq!(first.try_get(), Some(1));
    assert_eq!(second.try_get(), Some(2));
}

#[test]
fn incomplete_pair_drop_is_isolated_and_pending() {
    let pending: Slot<u64> = Slot::new();
    let mut completed = Slot::new();
    completed.complete(7_u64);
    assert_eq!(pending.try_get(), None);
    assert_eq!(completed.try_get(), Some(7));
}

#[test]
fn waiter_after_completion_returns_immediately() {
    let mut slot = Slot::new();
    slot.complete(4_u64);
    assert_eq!(ready(slot.wait(ThreadId(1))), 4);
}

#[test]
fn into_outcome_racing_complete() {
    #[derive(Debug, PartialEq, Eq)]
    struct Handle(u64);

    let pending: Slot<Handle> = Slot::new();
    assert_eq!(pending.into_outcome(), None);

    let mut completed = Slot::new();
    completed.complete(Handle(9));
    assert_eq!(completed.into_outcome(), Some(Handle(9)));
}

#[test]
fn wait_timeout_wakes_with_outcome() {
    let mut slot = Slot::new();
    assert!(matches!(
        slot.wait_timeout(ThreadId(1), false),
        WaitStep::Park
    ));
    assert_eq!(threads(&slot.complete(9_u64)), [1]);
    assert_eq!(ready(slot.wait_timeout(ThreadId(1), false)), 9);
}

#[test]
fn loom_future_resolves_racing_completion() {
    let mut early = Slot::new();
    let mut future = ObservationFuture::new();
    assert_eq!(future.poll(&mut early, WakerId(1)), None);
    assert_eq!(wakers(&early.complete(42_u64)), [1]);
    assert_eq!(future.poll(&mut early, WakerId(1)), Some(42));

    let mut late = Slot::new();
    let mut future = ObservationFuture::new();
    assert!(late.complete(42_u64).is_empty());
    assert_eq!(future.poll(&mut late, WakerId(1)), Some(42));
}

#[derive(Debug, PartialEq, Eq)]
struct MoveOnly(u64);

#[test]
fn loom_affine_publication_racing_await_moves_outcome() {
    let mut early = Slot::new();
    let mut observation = AffineObservation::new();
    assert_eq!(observation.poll(&mut early, WakerId(1)), None);
    assert_eq!(wakers(&early.complete(MoveOnly(42))), [1]);
    assert_eq!(observation.poll(&mut early, WakerId(1)), Some(MoveOnly(42)));

    let mut late = Slot::new();
    let mut observation = AffineObservation::new();
    late.complete(MoveOnly(42));
    assert_eq!(observation.poll(&mut late, WakerId(1)), Some(MoveOnly(42)));
}

#[test]
fn loom_affine_migration_leaves_no_stale_waker() {
    let mut slot = Slot::new();
    let mut observation = AffineObservation::new();
    assert_eq!(observation.poll(&mut slot, WakerId(1)), None);
    assert_eq!(observation.poll(&mut slot, WakerId(2)), None);
    assert_eq!(wakers(&slot.complete(MoveOnly(7))), [2]);
    assert_eq!(observation.poll(&mut slot, WakerId(2)), Some(MoveOnly(7)));
}

#[test]
fn loom_affine_cancellation_deregisters_waker() {
    let mut slot = Slot::new();
    let mut observation = AffineObservation::new();
    assert_eq!(observation.poll(&mut slot, WakerId(1)), None);
    observation.cancel(&mut slot);
    assert!(slot.complete(MoveOnly(9)).is_empty());
}

#[test]
fn loom_affine_completion_racing_cancellation_drops_once() {
    struct Counted(Rc<Cell<usize>>);

    impl Drop for Counted {
        fn drop(&mut self) {
            self.0.set(self.0.get() + 1);
        }
    }

    for cancel_first in [true, false] {
        let drops = Rc::new(Cell::new(0));
        {
            let mut slot = Slot::new();
            let observation = AffineObservation::new();
            if cancel_first {
                observation.cancel(&mut slot);
                slot.complete(Counted(Rc::clone(&drops)));
            } else {
                slot.complete(Counted(Rc::clone(&drops)));
                observation.cancel(&mut slot);
            }
        }
        assert_eq!(drops.get(), 1);
    }
}

#[test]
fn loom_two_waiters_both_woken() {
    for registered in 0..3_u64 {
        let mut slot = Slot::new();
        for thread in 0..registered {
            assert!(matches!(slot.wait(ThreadId(thread)), WaitStep::Park));
        }
        let notified = slot.complete(7_u64);
        assert_eq!(threads(&notified), (0..registered).collect::<Vec<_>>());
        assert_eq!(ready(slot.wait(ThreadId(0))), 7);
        assert_eq!(ready(slot.wait(ThreadId(1))), 7);
    }
}

#[test]
fn loom_wait_timeout_completed_path() {
    let mut slot = Slot::new();
    slot.complete(11_u64);
    assert_eq!(ready(slot.wait_timeout(ThreadId(1), true)), 11);
}

#[test]
fn panicking_waker_must_not_strand_other_waiters() {
    let mut slot = Slot::new();
    assert!(!slot.register_waker(WakerId(1)));
    assert!(!slot.register_waker(WakerId(2)));
    assert!(matches!(slot.wait(ThreadId(3)), WaitStep::Park));

    let mut drain = WakeDrain::new(slot.complete(42_u64));
    let mut woken = Vec::new();
    while let Some(waiter) = drain.next() {
        match waiter {
            Waiter::Waker { waker, .. } if waker.0 == 1 => drain.failed("user waker panicked"),
            other => woken.push(other),
        }
    }
    assert_eq!(wakers(&woken), [2]);
    assert_eq!(threads(&woken), [3]);
    assert_eq!(drain.finish(), Some("user waker panicked"));
    assert_eq!(ready(slot.wait(ThreadId(3))), 42);
}

#[test]
fn waiters_before_the_panicking_one_are_woken() {
    let mut slot = Slot::new();
    assert!(!slot.register_waker(WakerId(1)));
    assert!(!slot.register_waker(WakerId(2)));

    let mut drain = WakeDrain::new(slot.complete(7_u64));
    assert_eq!(wakers(&[drain.next().unwrap()]), [1]);
    assert_eq!(wakers(&[drain.next().unwrap()]), [2]);
    drain.failed(());
    assert!(drain.next().is_none());
    assert_eq!(drain.finish(), Some(()));
}

#[test]
fn wait_timeout_waiter_self_heals_after_panicking_drain() {
    for round in 0..20_u64 {
        let mut slot = Slot::new();
        assert!(!slot.register_waker(WakerId(1)));
        assert!(matches!(
            slot.wait_timeout(ThreadId(2), false),
            WaitStep::Park
        ));
        let mut drain = WakeDrain::new(slot.complete(42_u64));
        drain.next();
        drain.failed(round);
        assert_eq!(ready(slot.wait_timeout(ThreadId(2), true)), 42);
    }
}

#[test]
fn state_after_panicking_drain_stays_consistent() {
    let mut slot = Slot::new();
    assert!(!slot.register_waker(WakerId(1)));
    let mut drain = WakeDrain::new(slot.complete(1_u64));
    drain.next();
    drain.failed("panic");
    assert!(slot.register_waker(WakerId(2)));
    assert_eq!(slot.into_outcome(), Some(1));
}

#[test]
fn observer_failure_cannot_change_or_prevent_terminal_publication() {
    let mut slot: Slot<IncarnationOutcome<(), (), (), (), ()>> = Slot::new();
    assert!(!slot.register_waker(WakerId(1)));
    let mut drain = WakeDrain::new(slot.complete(IncarnationOutcome::Cancelled));
    assert!(drain.next().is_some());
    drain.failed("deliberate observer panic");
    assert!(drain.next().is_none());
    assert!(matches!(
        slot.into_outcome(),
        Some(IncarnationOutcome::Cancelled)
    ));
}

#[test]
fn stress_reentrant_wake_drops_observation() {
    for round in 0..100_u64 {
        let mut slot = Slot::new();
        let mut victim = ObservationFuture::new();
        assert_eq!(victim.poll(&mut slot, WakerId(9)), None);
        assert!(!slot.register_waker(WakerId(1)));
        let mut drain: WakeDrain<()> = WakeDrain::new(slot.complete(round));
        let mut victim = Some(victim);
        let mut fires = 0;
        while let Some(waiter) = drain.next() {
            if matches!(waiter, Waiter::Waker { waker, .. } if waker.0 == 1) {
                fires += 1;
                if let Some(victim) = victim.take() {
                    victim.cancel(&mut slot);
                }
            }
        }
        assert_eq!(fires, 1);
        assert_eq!(slot.try_get(), Some(round));
    }
}

#[test]
fn stress_reentrant_wake_reregistration_no_loop() {
    for round in 0..50_u64 {
        let mut slot = Slot::new();
        assert!(!slot.register_waker(WakerId(1)));
        let mut drain: WakeDrain<()> = WakeDrain::new(slot.complete(round));
        let mut fires = 0;
        while drain.next().is_some() {
            fires += 1;
            assert!(slot.register_waker(WakerId(2)));
        }
        assert_eq!(fires, 1);
        assert_eq!(slot.waiting(), 0);
    }
}

#[test]
fn stress_registration_flood_wakes_each_once() {
    const WAKERS: u64 = 256;
    let mut slot = Slot::new();
    for waker in 0..WAKERS {
        assert!(!slot.register_waker(WakerId(waker)));
    }
    let notified = slot.complete(99_u64);
    assert_eq!(wakers(&notified), (0..WAKERS).collect::<Vec<_>>());
}

#[test]
fn stress_wait_inside_wake_during_drain() {
    for round in 0..100_u64 {
        let mut slot = Slot::new();
        assert!(!slot.register_waker(WakerId(1)));
        assert!(matches!(slot.wait(ThreadId(2)), WaitStep::Park));
        let mut drain: WakeDrain<()> = WakeDrain::new(slot.complete(round));
        let mut notified = 0;
        while drain.next().is_some() {
            notified += 1;
            assert_eq!(ready(slot.wait(ThreadId(7))), round);
        }
        assert_eq!(notified, 2);
        assert_eq!(ready(slot.wait(ThreadId(2))), round);
    }
}

#[test]
fn stress_wait_timeout_inside_wake_during_drain() {
    for round in 0..50_u64 {
        let mut slot = Slot::new();
        assert!(!slot.register_waker(WakerId(1)));
        let mut drain: WakeDrain<()> = WakeDrain::new(slot.complete(round));
        let mut fires = 0;
        while drain.next().is_some() {
            fires += 1;
            assert_eq!(ready(slot.wait_timeout(ThreadId(7), false)), round);
        }
        assert_eq!(fires, 1);
        assert_eq!(slot.try_get(), Some(round));
    }
}

#[test]
fn stress_zero_timeout_boundary() {
    let mut pending: Slot<u64> = Slot::new();
    assert!(matches!(
        pending.wait_timeout(ThreadId(1), true),
        WaitStep::TimedOut
    ));
    assert_eq!(pending.waiting(), 0);

    let mut completed = Slot::new();
    completed.complete(3_u64);
    assert_eq!(ready(completed.wait_timeout(ThreadId(1), true)), 3);
}

#[test]
fn stress_duplicate_waiter_entry_stale_token_self_heals() {
    for round in 0..50_u64 {
        let mut slot = Slot::new();
        assert!(matches!(slot.wait(ThreadId(1)), WaitStep::Park));
        assert!(matches!(slot.wait(ThreadId(1)), WaitStep::Park));
        assert_eq!(slot.waiting(), 1);
        assert!(matches!(slot.wait(ThreadId(2)), WaitStep::Park));
        assert!(matches!(slot.wait(ThreadId(1)), WaitStep::Park));
        assert_eq!(threads(&slot.complete(round)), [1, 2, 1]);
        assert_eq!(ready(slot.wait(ThreadId(1))), round);
    }
}

#[test]
fn stress_pinned_pending_timeout_never_fabricates() {
    for round in 0..200_u64 {
        let mut pinned: Slot<u64> = Slot::new();
        let mut churn = Slot::new();
        assert!(matches!(
            pinned.wait_timeout(ThreadId(1), false),
            WaitStep::Park
        ));
        churn.complete(round);
        assert_eq!(churn.try_get(), Some(round));
        assert!(matches!(
            pinned.wait_timeout(ThreadId(1), true),
            WaitStep::TimedOut
        ));
        assert_eq!(pinned.try_get(), None);
        assert_eq!(pinned.waiting(), 0);
    }
}

#[test]
fn an_explicit_registration_outlives_a_cancelled_future() {
    let mut slot = Slot::new();
    let mut future = ObservationFuture::new();
    assert_eq!(future.poll(&mut slot, WakerId(1)), None);
    assert!(!slot.register_waker(WakerId(1)));
    future.cancel(&mut slot);
    let notified = slot.complete(1_u64);
    assert_eq!(notified.len(), 1);
    assert!(matches!(
        notified[0],
        Waiter::Waker {
            waker: WakerId(1),
            ownership: WakerOwnership::Persistent { future_owners: 0 }
        }
    ));
}

#[test]
fn one_waker_of_two_futures_is_notified_once() {
    let mut slot = Slot::new();
    let mut first = ObservationFuture::new();
    let mut second = ObservationFuture::new();
    assert_eq!(first.poll(&mut slot, WakerId(1)), None);
    assert_eq!(second.poll(&mut slot, WakerId(1)), None);
    assert_eq!(slot.waiting(), 1);
    first.cancel(&mut slot);
    assert_eq!(wakers(&slot.complete(1_u64)), [1]);
}

#[test]
fn polling_again_changes_nothing() {
    let mut slot: Slot<u64> = Slot::new();
    let mut future = ObservationFuture::new();
    assert_eq!(future.poll(&mut slot, WakerId(1)), None);
    assert_eq!(future.poll(&mut slot, WakerId(1)), None);
    assert_eq!(slot.waiting(), 1);
    future.cancel(&mut slot);
    assert_eq!(slot.waiting(), 0);
}

#[test]
fn an_affine_outcome_is_moved_out_once() {
    let mut slot = Slot::new();
    slot.complete(MoveOnly(3));
    assert_eq!(slot.outcome(), Some(&MoveOnly(3)));
    assert_eq!(slot.try_take_outcome(), Some(MoveOnly(3)));
    assert!(slot.is_completed());
    assert_eq!(slot.outcome(), None);
}
