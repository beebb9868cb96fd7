//! What holds of a completion cell over several operations.

use vstd::prelude::*;

use crate::observe::future::{attached, countable, polled};
use crate::observe::slot::{
    lemma_with_future, lemma_with_future_keeps_others, lemma_with_pinned, lemma_without_future,
    may_leave, migrated, with_thread, SlotView,
};
use crate::observe::waiters::{
    deduplicated, entry, futures_of, lemma_entry, lemma_filter_push, ownership_of, registered,
    with_future, with_pinned, without_future, without_thread, ThreadId, Waiter, WakerId,
    WakerOwnership,
};

verus! {

/// The registrations that a set of futures holds agree with the registry: each
/// waker's entry counts exactly the futures that have it installed.
pub open spec fn accounted(waiters: Seq<Waiter>, futures: Seq<Option<WakerId>>) -> bool {
    forall|waker: WakerId|
        #![trigger futures_of(waiters, waker)]
        futures_of(waiters, waker) == futures.to_multiset().count(Some(waker))
}

/// One more future counts once for its waker and not at all for any other.
pub proof fn law_registration_counts_one_future(
    waiters: Seq<Waiter>,
    waker: WakerId,
    other: WakerId,
)
    requires
        deduplicated(waiters),
        futures_of(waiters, waker) < usize::MAX,
    ensures
        futures_of(with_future(waiters, waker), other) == futures_of(waiters, other) + if other
            == waker {
            1nat
        } else {
            0
        },
{
    let after = with_future(waiters, waker);
    lemma_with_future(waiters, waker);
    if other == waker {
        if registered(waiters, waker) {
            let e = entry(waiters, waker);
            assert(waiters[e].wakes(waker));
            assert(after[e].wakes(waker));
            lemma_entry(after, waker, e);
        } else {
            assert(after.last().wakes(waker));
            lemma_entry(after, waker, after.len() - 1);
        }
    } else {
        lemma_with_future_keeps_others(waiters, waker, other);
    }
}

/// One future fewer counts once for its waker and not at all for any other.
pub proof fn law_deregistration_counts_one_future(
    waiters: Seq<Waiter>,
    waker: WakerId,
    other: WakerId,
)
    requires
        deduplicated(waiters),
        futures_of(waiters, waker) >= 1,
    ensures
        futures_of(without_future(waiters, waker), other) == futures_of(waiters, other) - if other
            == waker {
            1nat
        } else {
            0
        },
{
    let after = without_future(waiters, waker);
    lemma_without_future(waiters, waker);
    let e = entry(waiters, waker);
    assert(waiters[e].wakes(waker));
    let dropped = waiters[e]->ownership.left() is None;
    if other == waker {
        if dropped {
            assert forall|i: int| 0 <= i < after.len() implies !(#[trigger] after[i]).wakes(
                waker,
            ) by {
                let p = if i < e {
                    i
                } else {
                    i + 1
                };
                assert(after[i] == waiters[p]);
                assert(waiters[p] is Waker && waiters[e] is Waker || waiters[p] is Thread);
            }
        } else {
            assert(after[e].wakes(waker));
            lemma_entry(after, waker, e);
        }
    } else {
        if registered(waiters, other) {
            let i = entry(waiters, other);
            assert(waiters[i].wakes(other));
            let p = if dropped && i > e {
                i - 1
            } else {
                i
            };
            assert(after[p] == waiters[i]);
            assert(after[p].wakes(other));
            lemma_entry(after, other, p);
        }
        if registered(after, other) {
            let i = entry(after, other);
            assert(after[i].wakes(other));
            let p = if dropped && i >= e {
                i + 1
            } else {
                i
            };
            assert(after[i] == waiters[p]);
            assert(waiters[p].wakes(other));
        }
    }
}

/// Cancelling a registration restores the registry that was there before it.
pub proof fn law_cancellation_undoes_registration(waiters: Seq<Waiter>, waker: WakerId)
    requires
        deduplicated(waiters),
        futures_of(waiters, waker) < usize::MAX,
    ensures
        without_future(with_future(waiters, waker), waker) == waiters,
{
    let after = with_future(waiters, waker);
    lemma_with_future(waiters, waker);
    if registered(waiters, waker) {
        let e = entry(waiters, waker);
        assert(waiters[e].wakes(waker));
        assert(after[e].wakes(waker));
        lemma_entry(after, waker, e);
        assert(without_future(after, waker) =~= waiters);
    } else {
        assert(after.last().wakes(waker));
        lemma_entry(after, waker, after.len() - 1);
        assert(without_future(after, waker) =~= waiters);
    }
}

/// A future that has installed nothing yet changes no count.
pub proof fn law_new_future_is_accounted(waiters: Seq<Waiter>, futures: Seq<Option<WakerId>>)
    requires
        accounted(waiters, futures),
    ensures
        accounted(waiters, futures.push(None)),
{
    broadcast use vstd::seq_lib::group_to_multiset_ensures;

}

/// A future that is polled with `next` has exactly one registration afterwards,
/// that of `next`: the waker it had before loses one owner and no other future
/// is affected.
pub proof fn law_polled_future_is_accounted(
    waiters: Seq<Waiter>,
    futures: Seq<Option<WakerId>>,
    polled: int,
    next: WakerId,
)
    requires
        deduplicated(waiters),
        accounted(waiters, futures),
        0 <= polled < futures.len(),
        futures_of(waiters, next) < usize::MAX,
    ensures
        deduplicated(migrated(waiters, futures[polled], next)),
        accounted(migrated(waiters, futures[polled], next), futures.update(polled, Some(next))),
{
    broadcast use vstd::seq_lib::group_to_multiset_ensures;
    broadcast use vstd::multiset::group_multiset_axioms;

    let previous = futures[polled];
    let after = migrated(waiters, previous, next);
    let updated = futures.update(polled, Some(next));
    if previous == Some(next) {
        assert(updated =~= futures);
    } else {
        lemma_with_future(waiters, next);
        let joined = with_future(waiters, next);
        if let Some(current) = previous {
            law_registration_counts_one_future(waiters, next, current);
            assert(futures.contains(Some(current)));
            assert(futures.to_multiset().count(Some(current)) >= 1);
            assert(futures_of(joined, current) >= 1);
            lemma_without_future(joined, current);
        }
        assert forall|waker: WakerId|
            #![trigger futures_of(after, waker)]
            futures_of(after, waker) == updated.to_multiset().count(Some(waker)) by {
            law_registration_counts_one_future(waiters, next, waker);
            assert(futures_of(waiters, waker) == futures.to_multiset().count(Some(waker)));
            if let Some(current) = previous {
                law_deregistration_counts_one_future(joined, current, waker);
            }
        }
    }
}

/// A future that is dropped leaves no registration behind.
pub proof fn law_dropped_future_is_accounted(
    waiters: Seq<Waiter>,
    futures: Seq<Option<WakerId>>,
    dropped: int,
)
    requires
        deduplicated(waiters),
        accounted(waiters, futures),
        0 <= dropped < futures.len(),
    ensures
        futures[dropped] matches Some(waker) ==> may_leave(waiters, waker) && deduplicated(
            without_future(waiters, waker),
        ) && accounted(without_future(waiters, waker), futures.remove(dropped)),
        futures[dropped] is None ==> accounted(waiters, futures.remove(dropped)),
{
    broadcast use vstd::seq_lib::group_to_multiset_ensures;
    broadcast use vstd::multiset::group_multiset_axioms;

    let rest = futures.remove(dropped);
    if let Some(current) = futures[dropped] {
        assert(futures.contains(Some(current)));
        assert(futures_of(waiters, current) >= 1);
        lemma_without_future(waiters, current);
        let after = without_future(waiters, current);
        assert forall|waker: WakerId|
            #![trigger futures_of(after, waker)]
            futures_of(after, waker) == rest.to_multiset().count(Some(waker)) by {
            assert(futures_of(waiters, waker) == futures.to_multiset().count(Some(waker)));
            law_deregistration_counts_one_future(waiters, current, waker);
        }
    }
}

/// An explicit registration changes no future's registration.
pub proof fn law_explicit_registration_is_accounted(
    waiters: Seq<Waiter>,
    futures: Seq<Option<WakerId>>,
    waker: WakerId,
)
    requires
        deduplicated(waiters),
        accounted(waiters, futures),
    ensures
        deduplicated(with_pinned(waiters, waker)),
        registered(with_pinned(waiters, waker), waker),
        accounted(with_pinned(waiters, waker), futures),
{
    let after = with_pinned(waiters, waker);
    lemma_with_pinned(waiters, waker);
    if registered(waiters, waker) {
        let e = entry(waiters, waker);
        assert(waiters[e].wakes(waker));
        assert(after[e].wakes(waker));
        lemma_entry(after, waker, e);
    } else {
        assert(after.last().wakes(waker));
        lemma_entry(after, waker, after.len() - 1);
    }
    assert forall|other: WakerId|
        #![trigger futures_of(after, other)]
        futures_of(after, other) == futures.to_multiset().count(Some(other)) by {
        assert(futures_of(waiters, other) == futures.to_multiset().count(Some(other)));
        if other != waker {
            if registered(waiters, other) {
                let i = entry(waiters, other);
                assert(waiters[i].wakes(other));
                assert(after[i].wakes(other));
                lemma_entry(after, other, i);
            }
            if registered(after, other) {
                let i = entry(after, other);
                assert(after[i].wakes(other));
                assert(waiters[i].wakes(other));
            }
        }
    }
}

/// Registering the same waker explicitly again changes nothing.
pub proof fn law_explicit_registration_is_idempotent(waiters: Seq<Waiter>, waker: WakerId)
    requires
        deduplicated(waiters),
    ensures
        with_pinned(with_pinned(waiters, waker), waker) == with_pinned(waiters, waker),
{
    let once = with_pinned(waiters, waker);
    lemma_with_pinned(waiters, waker);
    if registered(waiters, waker) {
        let e = entry(waiters, waker);
        assert(waiters[e].wakes(waker));
        assert(once[e].wakes(waker));
        lemma_entry(once, waker, e);
    } else {
        assert(once.last().wakes(waker));
        lemma_entry(once, waker, once.len() - 1);
    }
    assert(with_pinned(once, waker) =~= once);
}

/// Polling again with the same waker changes nothing.
pub proof fn law_repeated_poll_is_idempotent(
    waiters: Seq<Waiter>,
    previous: Option<WakerId>,
    next: WakerId,
)
    ensures
        migrated(migrated(waiters, previous, next), Some(next), next) == migrated(
            waiters,
            previous,
            next,
        ),
{
}

/// Publication hands out each registered waker exactly once, however many
/// futures and explicit registrations share it.
pub proof fn law_each_waker_is_notified_once(notified: Seq<Waiter>, waker: WakerId)
    requires
        deduplicated(notified),
        registered(notified, waker),
    ensures
        exists|i: int| 0 <= i < notified.len() && (#[trigger] notified[i]).wakes(waker),
        forall|i: int, j: int|
            0 <= i < notified.len() && 0 <= j < notified.len() && (#[trigger] notified[i]).wakes(
                waker,
            ) && (#[trigger] notified[j]).wakes(waker) ==> i == j,
{
}

/// A thread that has registered is among those that publication notifies, and
/// one that gave up is not.
pub proof fn law_only_waiting_threads_are_notified(waiters: Seq<Waiter>, thread: ThreadId)
    ensures
        with_thread(waiters, thread).contains(Waiter::Thread(thread)),
        !without_thread(waiters, thread).contains(Waiter::Thread(thread)),
        forall|other: ThreadId|
            other != thread ==> (#[trigger] without_thread(waiters, thread).contains(
                Waiter::Thread(other),
            ) <==> waiters.contains(Waiter::Thread(other))),
{
    let keep = |waiter: Waiter| !waiter.unparks(thread);
    let kept = without_thread(waiters, thread);
    let joined = with_thread(waiters, thread);
    assert(joined.last() == Waiter::Thread(thread));
    assert(joined[joined.len() - 1] == Waiter::Thread(thread));
    if kept.contains(Waiter::Thread(thread)) {
        let i = choose|i: int| 0 <= i < kept.len() && kept[i] == Waiter::Thread(thread);
        waiters.lemma_filter_pred(keep, i);
    }
    assert forall|other: ThreadId| other != thread implies (#[trigger] kept.contains(
        Waiter::Thread(other),
    ) <==> waiters.contains(Waiter::Thread(other))) by {
        if kept.contains(Waiter::Thread(other)) {
            waiters.lemma_filter_contains_rev(keep, Waiter::Thread(other));
        }
        if waiters.contains(Waiter::Thread(other)) {
            let i = choose|i: int| 0 <= i < waiters.len() && waiters[i] == Waiter::Thread(other);
            waiters.lemma_filter_contains(keep, i);
        }
    }
}

/// A future that joins or leaves a waker entry is counted once, and whether the
/// entry stays until publication is not touched. An entry that only futures own
/// leaves with the last of them.
pub proof fn law_an_entry_counts_its_futures(ownership: WakerOwnership)
    ensures
        ownership matches WakerOwnership::Futures { owners } ==> {
            &&& ownership.futures() == owners
            &&& ownership.wf() <==> owners >= 1
            &&& owners < usize::MAX ==> ownership.joined() == (WakerOwnership::Futures {
                owners: (owners + 1) as usize,
            })
            &&& owners <= 1 ==> ownership.left() is None
            &&& owners > 1 ==> ownership.left() == Some(
                WakerOwnership::Futures { owners: (owners - 1) as usize },
            )
            &&& ownership.pinned() == (WakerOwnership::Persistent { future_owners: owners })
        },
        ownership matches WakerOwnership::Persistent { future_owners } ==> {
            &&& ownership.futures() == future_owners
            &&& ownership.wf()
            &&& future_owners < usize::MAX ==> ownership.joined() == (WakerOwnership::Persistent {
                future_owners: (future_owners + 1) as usize,
            })
            &&& future_owners >= 1 ==> ownership.left() == Some(
                WakerOwnership::Persistent { future_owners: (future_owners - 1) as usize },
            )
            &&& ownership.pinned() == ownership
        },
{
}

/// A waiter is what it was registered as: a thread is unparked and never woken,
/// and a waker entry is woken and never unparked.
pub proof fn law_a_waiter_is_notified_as_itself(
    thread: ThreadId,
    waker: WakerId,
    ownership: WakerOwnership,
    other_thread: ThreadId,
    other_waker: WakerId,
)
    ensures
        Waiter::Thread(thread).unparks(other_thread) <==> thread == other_thread,
        !Waiter::Thread(thread).wakes(other_waker),
        Waiter::Thread(thread).futures() == 0,
        (Waiter::Waker { waker, ownership }).wakes(other_waker) <==> waker == other_waker,
        !(Waiter::Waker { waker, ownership }).unparks(other_thread),
        (Waiter::Waker { waker, ownership }).futures() == ownership.futures(),
{
}

/// The entry of a waker is where it stands, and what a registration does to it
/// happens in place: nobody else moves or changes. An entry whose last future
/// leaves closes the gap that it leaves.
pub proof fn law_an_entry_changes_in_place(
    waiters: Seq<Waiter>,
    waker: WakerId,
    ownership: WakerOwnership,
    i: int,
)
    requires
        deduplicated(waiters),
        0 <= i < waiters.len(),
        waiters[i] == (Waiter::Waker { waker, ownership }),
    ensures
        registered(waiters, waker),
        ownership_of(waiters, waker) == Some(ownership),
        futures_of(waiters, waker) == ownership.futures(),
        with_future(waiters, waker) == waiters.update(
            i,
            Waiter::Waker { waker, ownership: ownership.joined() },
        ),
        with_pinned(waiters, waker) == waiters.update(
            i,
            Waiter::Waker { waker, ownership: ownership.pinned() },
        ),
        ownership.left() matches Some(rest) ==> without_future(waiters, waker) == waiters.update(
            i,
            Waiter::Waker { waker, ownership: rest },
        ),
        ownership.left() is None ==> without_future(waiters, waker) == waiters.remove(i),
        may_leave(waiters, waker) <==> !(ownership matches WakerOwnership::Persistent {
            future_owners,
        } && future_owners == 0),
{
    assert(waiters[i].wakes(waker));
    lemma_entry(waiters, waker, i);
}

/// A waker without an entry gets one behind all others: for one future, or until
/// publication. Giving it up changes nothing.
pub proof fn law_a_fresh_waker_comes_last(waiters: Seq<Waiter>, waker: WakerId)
    requires
        forall|i: int| 0 <= i < waiters.len() ==> !(#[trigger] waiters[i]).wakes(waker),
    ensures
        !registered(waiters, waker),
        ownership_of(waiters, waker) is None,
        futures_of(waiters, waker) == 0,
        with_future(waiters, waker) == waiters.push(
            Waiter::Waker { waker, ownership: WakerOwnership::Futures { owners: 1 } },
        ),
        with_pinned(waiters, waker) == waiters.push(
            Waiter::Waker { waker, ownership: WakerOwnership::Persistent { future_owners: 0 } },
        ),
        without_future(waiters, waker) == waiters,
        may_leave(waiters, waker),
{
}

/// A thread registers behind all others, unless it is the last one already. One
/// that gives up leaves the others in their order.
pub proof fn law_threads_register_behind_the_others(
    waiters: Seq<Waiter>,
    waiter: Waiter,
    thread: ThreadId,
)
    ensures
        waiters.len() > 0 && waiters[waiters.len() - 1] == Waiter::Thread(thread) ==> with_thread(
            waiters,
            thread,
        ) == waiters,
        waiters.len() == 0 || waiters[waiters.len() - 1] != Waiter::Thread(thread) ==> with_thread(
            waiters,
            thread,
        ) == waiters.push(Waiter::Thread(thread)),
        without_thread(Seq::<Waiter>::empty(), thread).len() == 0,
        waiter == Waiter::Thread(thread) ==> without_thread(waiters.push(waiter), thread)
            == without_thread(waiters, thread),
        waiter != Waiter::Thread(thread) ==> without_thread(waiters.push(waiter), thread)
            == without_thread(waiters, thread).push(waiter),
{
    let keep = |waiter: Waiter| !waiter.unparks(thread);
    lemma_filter_push(waiters, waiter, keep);
    reveal(Seq::filter);
}

/// A future that is polled for the first time registers its waker. Polled with
/// another waker it registers that one before it gives up the one it had, and
/// polled with the same waker it changes nothing.
pub proof fn law_a_poll_replaces_the_waker<O>(
    slot: SlotView<O>,
    current: WakerId,
    next: WakerId,
)
    ensures
        polled(slot, None, next) == (SlotView { waiters: with_future(slot.waiters, next), ..slot }),
        polled(slot, Some(next), next) == slot,
        current != next ==> polled(slot, Some(current), next) == (SlotView {
            waiters: without_future(with_future(slot.waiters, next), current),
            ..slot
        }),
        migrated(slot.waiters, None, next) == with_future(slot.waiters, next),
{
}

/// Nobody waits at a cell whose outcome is published, and only such a cell holds
/// an outcome.
pub proof fn law_a_published_cell_has_no_waiter<O>(slot: SlotView<O>)
    requires
        slot.wf(),
    ensures
        slot.completed ==> slot.waiters.len() == 0,
        slot.outcome is Some ==> slot.completed,
        forall|i: int, j: int, waker: WakerId|
            0 <= i < slot.waiters.len() && 0 <= j < slot.waiters.len()
                && #[trigger] slot.waiters[i].wakes(waker)
                && #[trigger] slot.waiters[j].wakes(waker) ==> i == j,
{
}

/// A future that has registered is counted at its cell until publication, and
/// one more can be counted for a waker as long as the count has room. After
/// publication nothing is asked of either.
pub proof fn law_a_registered_future_is_counted_until_publication<O>(
    registration: Option<WakerId>,
    slot: SlotView<O>,
    next: WakerId,
)
    ensures
        slot.completed ==> attached(registration, slot) && countable(registration, slot, next),
        registration is None ==> attached(registration, slot),
        !slot.completed && registration is Some ==> (attached(registration, slot) <==> futures_of(
            slot.waiters,
            registration->0,
        ) > 0),
        registration == Some(next) ==> countable(registration, slot, next),
        !slot.completed && registration != Some(next) ==> (countable(registration, slot, next)
            <==> futures_of(slot.waiters, next) + 1 <= usize::MAX),
{
}

} // verus!
