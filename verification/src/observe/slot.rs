//! One completion cell: a publication point and the registry of its waiters.

use vstd::prelude::*;

use crate::observe::waiters::{
    deduplicated, entry, futures_of, lemma_entry, ownership_of, registered, with_future,
    with_pinned, without_future, without_thread, ThreadId, Waiter, Waiters, WakerId,
    WakerOwnership,
};

verus! {

/// What one completion cell holds.
#[verifier::ext_equal]
pub struct SlotView<O> {
    /// Whether the outcome has been published.
    pub completed: bool,
    /// The published outcome, until it is moved out.
    pub outcome: Option<O>,
    /// The registered waiters, in order of registration.
    pub waiters: Seq<Waiter>,
}

impl<O> SlotView<O> {
    /// The states that a cell can be in.
    pub open spec fn wf(self) -> bool {
        &&& deduplicated(self.waiters)
        &&& self.outcome is Some ==> self.completed
        &&& self.completed ==> self.waiters.len() == 0
    }
}

/// The registry after a future that last registered `previous` registers `next`.
pub open spec fn migrated(
    waiters: Seq<Waiter>,
    previous: Option<WakerId>,
    next: WakerId,
) -> Seq<Waiter> {
    match previous {
        None => with_future(waiters, next),
        Some(current) => if current == next {
            waiters
        } else {
            without_future(with_future(waiters, next), current)
        },
    }
}

/// The registry after `thread` registers: nothing changes if it came last.
pub open spec fn with_thread(waiters: Seq<Waiter>, thread: ThreadId) -> Seq<Waiter> {
    if waiters.len() > 0 && waiters.last().unparks(thread) {
        waiters
    } else {
        waiters.push(Waiter::Thread(thread))
    }
}

/// Whether a future may give up `waker`: an explicit registration without a
/// future has nothing to give up.
pub open spec fn may_leave(waiters: Seq<Waiter>, waker: WakerId) -> bool {
    ownership_of(waiters, waker) matches Some(WakerOwnership::Persistent { future_owners })
        ==> future_owners >= 1
}

/// What a blocked thread does next.
#[derive(Debug)]
pub enum WaitStep<O> {
    /// The outcome is there.
    Ready(O),
    /// The thread is registered and parks.
    Park,
    /// The deadline has passed and the thread is no longer registered.
    TimedOut,
}

/// One completion cell.
///
/// The outcome is written once. Whoever registers before publication is handed
/// out for notification by it; whoever comes later is told so instead.
pub struct Slot<O> {
    completed: bool,
    has_waiter: bool,
    outcome: Option<O>,
    waiters: Waiters,
}

impl<O> View for Slot<O> {
    type V = SlotView<O>;

    closed spec fn view(&self) -> SlotView<O> {
        SlotView { completed: self.completed, outcome: self.outcome, waiters: self.waiters@ }
    }
}

impl<O> Slot<O> {
    /// The storage agrees with itself: whoever waits is announced.
    pub closed spec fn stored(&self) -> bool {
        &&& self.waiters.wf()
        &&& self.waiters@.len() > 0 ==> self.has_waiter
    }

    /// The invariant that every operation keeps.
    pub open spec fn wf(&self) -> bool {
        &&& self.stored()
        &&& self@.wf()
    }

    /// A fresh cell: nothing published, nobody waiting.
    pub fn new() -> (slot: Self)
        ensures
            slot.wf(),
            slot@ == (SlotView::<O> { completed: false, outcome: None, waiters: Seq::empty() }),
    {
        Slot { completed: false, has_waiter: false, outcome: None, waiters: Waiters::Empty }
    }

    /// Whether the outcome has been published.
    pub fn is_completed(&self) -> (completed: bool)
        ensures
            completed == self@.completed,
    {
        self.completed
    }

    /// The number of registered waiters.
    pub fn waiting(&self) -> (count: usize)
        ensures
            count == self@.waiters.len(),
    {
        self.waiters.len()
    }

    /// The published outcome, while the cell holds it.
    pub fn outcome(&self) -> (outcome: Option<&O>)
        ensures
            match outcome {
                Some(value) => self@.outcome == Some(*value),
                None => self@.outcome is None,
            },
    {
        self.outcome.as_ref()
    }

    /// Move the published outcome out. `None` while publication is pending.
    pub fn try_take_outcome(&mut self) -> (outcome: Option<O>)
        requires
            old(self).wf(),
            old(self)@.completed ==> old(self)@.outcome is Some,
        ensures
            final(self).wf(),
            outcome == old(self)@.outcome,
            outcome is Some <==> old(self)@.completed,
            final(self)@ == (SlotView { outcome: None, ..old(self)@ }),
    {
        if !self.completed {
            return None;
        }
        self.outcome.take()
    }

    /// Install or migrate the registration of one future.
    ///
    /// `previous` is the waker that the future has installed, if any. The
    /// replacement is installed before the previous entry loses one owner, so
    /// the future leaves no stale registration behind. Returns whether the
    /// outcome is already published; nothing is registered then.
    pub fn update_future_waker(&mut self, previous: Option<WakerId>, next: WakerId) -> (ready: bool)
        requires
            old(self).wf(),
            !old(self)@.completed && previous != Some(next) ==> futures_of(
                old(self)@.waiters,
                next,
            ) < usize::MAX,
            !old(self)@.completed && previous is Some && previous != Some(next) ==> may_leave(
                old(self)@.waiters,
                previous->0,
            ),
        ensures
            final(self).wf(),
            ready == old(self)@.completed,
            final(self)@ == if ready {
                old(self)@
            } else {
                SlotView { waiters: migrated(old(self)@.waiters, previous, next), ..old(self)@ }
            },
    {
        if self.completed {
            return true;
        }
        self.has_waiter = true;
        if let Some(current) = previous {
            if current.0 == next.0 {
                return false;
            }
        }
        let ghost before = self.waiters@;
        match self.waiters.find_waker(next) {
            Some(i) => {
                let waiter = self.waiters.get(i);
                proof {
                    lemma_entry(before, next, i as int);
                }
                let joined = match waiter {
                    Waiter::Waker { ownership: WakerOwnership::Futures { owners }, .. } => {
                        WakerOwnership::Futures { owners: owners + 1 }
                    },
                    Waiter::Waker {
                        ownership: WakerOwnership::Persistent { future_owners },
                        ..
                    } => { WakerOwnership::Persistent { future_owners: future_owners + 1 } },
                    Waiter::Thread(_) => { WakerOwnership::Futures { owners: 1 } },
                };
                self.waiters.set(i, Waiter::Waker { waker: next, ownership: joined });
            },
            None => {
                self.waiters.push(
                    Waiter::Waker {
                        waker: next,
                        ownership: WakerOwnership::Futures { owners: 1 },
                    },
                );
            },
        }
        proof {
            lemma_with_future(before, next);
        }
        if let Some(current) = previous {
            proof {
                lemma_with_future_keeps_others(before, next, current);
            }
            Self::remove_future_waker_owner(&mut self.waiters, current);
        }
        false
    }

    /// Remove one future's ownership of its current waker.
    pub fn deregister_future_waker(&mut self, waker: WakerId)
        requires
            old(self).wf(),
            may_leave(old(self)@.waiters, waker),
        ensures
            final(self).wf(),
            final(self)@ == (SlotView {
                waiters: without_future(old(self)@.waiters, waker),
                ..old(self)@
            }),
    {
        Self::remove_future_waker_owner(&mut self.waiters, waker);
    }

    /// Remove one future from the entry of `target`, and the entry with its
    /// last owner unless it was registered explicitly.
    fn remove_future_waker_owner(waiters: &mut Waiters, target: WakerId)
        requires
            old(waiters).wf(),
            deduplicated(old(waiters)@),
            may_leave(old(waiters)@, target),
        ensures
            final(waiters).wf(),
            deduplicated(final(waiters)@),
            final(waiters)@ == without_future(old(waiters)@, target),
            final(waiters)@.len() <= old(waiters)@.len(),
    {
        let ghost before = waiters@;
        if let Some(i) = waiters.find_waker(target) {
            proof {
                lemma_entry(before, target, i as int);
                lemma_without_future(before, target);
            }
            match waiters.get(i) {
                Waiter::Waker { ownership: WakerOwnership::Futures { owners }, .. } => {
                    if owners > 1 {
                        waiters.set(
                            i,
                            Waiter::Waker {
                                waker: target,
                                ownership: WakerOwnership::Futures { owners: owners - 1 },
                            },
                        );
                    } else {
                        waiters.remove(i);
                    }
                },
                Waiter::Waker { ownership: WakerOwnership::Persistent { future_owners }, .. } => {
                    waiters.set(
                        i,
                        Waiter::Waker {
                            waker: target,
                            ownership: WakerOwnership::Persistent {
                                future_owners: future_owners - 1,
                            },
                        },
                    );
                },
                Waiter::Thread(_) => {},
            }
        }
    }

    /// Register a waker explicitly. Returns whether the outcome is already
    /// published; nothing is registered then. Registering twice changes nothing.
    pub fn register_waker(&mut self, waker: WakerId) -> (ready: bool)
        requires
            old(self).wf(),
        ensures
            final(self).wf(),
            ready == old(self)@.completed,
            final(self)@ == if ready {
                old(self)@
            } else {
                SlotView { waiters: with_pinned(old(self)@.waiters, waker), ..old(self)@ }
            },
    {
        if self.completed {
            return true;
        }
        self.has_waiter = true;
        let ghost before = self.waiters@;
        match self.waiters.find_waker(waker) {
            Some(i) => {
                proof {
                    lemma_entry(before, waker, i as int);
                }
                if let Waiter::Waker { ownership: WakerOwnership::Futures { owners }, .. } =
                    self.waiters.get(i) {
                    self.waiters.set(
                        i,
                        Waiter::Waker {
                            waker,
                            ownership: WakerOwnership::Persistent { future_owners: owners },
                        },
                    );
                }
                assert(self.waiters@ =~= with_pinned(before, waker));
            },
            None => {
                self.waiters.push(
                    Waiter::Waker {
                        waker,
                        ownership: WakerOwnership::Persistent { future_owners: 0 },
                    },
                );
            },
        }
        proof {
            lemma_with_pinned(before, waker);
        }
        false
    }

    /// Announce that `thread` waits, unless it was the last to do so.
    fn register_thread(&mut self, thread: ThreadId)
        requires
            old(self).wf(),
            !old(self)@.completed,
        ensures
            final(self).wf(),
            final(self)@ == (SlotView {
                waiters: with_thread(old(self)@.waiters, thread),
                ..old(self)@
            }),
    {
        self.has_waiter = true;
        let count: usize = self.waiters.len();
        if count > 0 {
            if let Waiter::Thread(present) = self.waiters.get(count - 1) {
                if present.0 == thread.0 {
                    return ;
                }
            }
        }
        self.waiters.push(Waiter::Thread(thread));
    }

    /// Publish the outcome and hand out every registered waiter, in order.
    pub fn complete(&mut self, outcome: O) -> (notified: Vec<Waiter>)
        requires
            old(self).wf(),
            !old(self)@.completed,
        ensures
            final(self).wf(),
            notified@ == old(self)@.waiters,
            final(self)@ == (SlotView {
                completed: true,
                outcome: Some(outcome),
                waiters: Seq::empty(),
            }),
    {
        self.outcome = Some(outcome);
        self.completed = true;
        if self.has_waiter {
            self.waiters.take().into_vec()
        } else {
            Vec::new()
        }
    }

    /// The outcome of a cell that nothing else refers to; `None` while it is
    /// not published.
    pub fn into_outcome(self) -> (outcome: Option<O>)
        requires
            self.wf(),
        ensures
            outcome == self@.outcome,
    {
        self.outcome
    }
}

impl<O: Clone> Slot<O> {
    /// A copy of the outcome, when it is already published.
    pub fn try_get(&self) -> (outcome: Option<O>)
        requires
            self.wf(),
            self@.completed ==> self@.outcome is Some,
        ensures
            outcome is Some <==> self@.completed,
            outcome matches Some(value) ==> cloned(self@.outcome->0, value),
    {
        match &self.outcome {
            Some(outcome) => Some(outcome.clone()),
            None => None,
        }
    }

    /// One turn of a thread that blocks until publication: take a copy of the
    /// outcome, or be registered and park.
    pub fn wait(&mut self, thread: ThreadId) -> (step: WaitStep<O>)
        requires
            old(self).wf(),
            old(self)@.completed ==> old(self)@.outcome is Some,
        ensures
            final(self).wf(),
            match step {
                WaitStep::Ready(value) => old(self)@.completed && cloned(
                    old(self)@.outcome->0,
                    value,
                ) && final(self)@ == old(self)@,
                WaitStep::Park => !old(self)@.completed && final(self)@ == (SlotView {
                    waiters: with_thread(old(self)@.waiters, thread),
                    ..old(self)@
                }),
                WaitStep::TimedOut => false,
            },
    {
        if let Some(outcome) = self.try_get() {
            return WaitStep::Ready(outcome);
        }
        self.register_thread(thread);
        WaitStep::Park
    }

    /// One turn of a thread that blocks until publication or a deadline.
    ///
    /// A publication that races the deadline is still observed. A thread that
    /// times out is deregistered, so that a later publication cannot wake it.
    pub fn wait_timeout(&mut self, thread: ThreadId, expired: bool) -> (step: WaitStep<O>)
        requires
            old(self).wf(),
            old(self)@.completed ==> old(self)@.outcome is Some,
        ensures
            final(self).wf(),
            match step {
                WaitStep::Ready(value) => old(self)@.completed && cloned(
                    old(self)@.outcome->0,
                    value,
                ) && final(self)@ == old(self)@,
                WaitStep::Park => !old(self)@.completed && !expired && final(self)@
                    == (SlotView {
                    waiters: with_thread(old(self)@.waiters, thread),
                    ..old(self)@
                }),
                WaitStep::TimedOut => !old(self)@.completed && expired && final(self)@
                    == (SlotView {
                    waiters: without_thread(old(self)@.waiters, thread),
                    ..old(self)@
                }),
            },
    {
        if let Some(outcome) = self.try_get() {
            return WaitStep::Ready(outcome);
        }
        if expired {
            proof {
                lemma_without_thread(self.waiters@, thread);
            }
            self.waiters.retain_others(thread);
            return WaitStep::TimedOut;
        }
        self.register_thread(thread);
        WaitStep::Park
    }
}

/// Registering a future keeps the registry free of duplicates.
pub(crate) proof fn lemma_with_future(waiters: Seq<Waiter>, waker: WakerId)
    requires
        deduplicated(waiters),
        futures_of(waiters, waker) < usize::MAX,
    ensures
        deduplicated(with_future(waiters, waker)),
{
    if registered(waiters, waker) {
        let e = entry(waiters, waker);
        assert(waiters[e].wakes(waker));
    }
}

/// Registering a future for one waker leaves the entry of another as it is.
pub(crate) proof fn lemma_with_future_keeps_others(waiters: Seq<Waiter>, waker: WakerId, other: WakerId)
    requires
        deduplicated(waiters),
        futures_of(waiters, waker) < usize::MAX,
        other != waker,
    ensures
        ownership_of(with_future(waiters, waker), other) == ownership_of(waiters, other),
{
    let after = with_future(waiters, waker);
    lemma_with_future(waiters, waker);
    if registered(waiters, waker) {
        let e = entry(waiters, waker);
        assert(waiters[e].wakes(waker));
    }
    if registered(waiters, other) {
        let i = entry(waiters, other);
        assert(after[i].wakes(other));
        lemma_entry(after, other, i);
    }
    if registered(after, other) {
        let i = entry(after, other);
        assert(waiters[i].wakes(other));
    }
}

/// Removing a future keeps the registry free of duplicates.
pub(crate) proof fn lemma_without_future(waiters: Seq<Waiter>, waker: WakerId)
    requires
        deduplicated(waiters),
        may_leave(waiters, waker),
    ensures
        deduplicated(without_future(waiters, waker)),
{
    if registered(waiters, waker) {
        let e = entry(waiters, waker);
        assert(waiters[e].wakes(waker));
        let after = without_future(waiters, waker);
        if waiters[e]->ownership.left() is None {
            assert forall|i: int, j: int|
                #![trigger after[i], after[j]]
                0 <= i < after.len() && 0 <= j < after.len() && after[i] is Waker
                    && after[j] is Waker && after[i]->waker == after[j]->waker implies i == j by {
                let p = if i < e { i } else { i + 1 };
                let q = if j < e { j } else { j + 1 };
                assert(after[i] == waiters[p]);
                assert(after[j] == waiters[q]);
            }
            assert forall|i: int| 0 <= i < after.len() implies ((
            #[trigger] after[i]) matches Waiter::Waker { ownership, .. } ==> ownership.wf()) by {
                let p = if i < e { i } else { i + 1 };
                assert(after[i] == waiters[p]);
            }
        }
    }
}

/// An explicit registration keeps the registry free of duplicates.
pub(crate) proof fn lemma_with_pinned(waiters: Seq<Waiter>, waker: WakerId)
    requires
        deduplicated(waiters),
    ensures
        deduplicated(with_pinned(waiters, waker)),
{
    if registered(waiters, waker) {
        let e = entry(waiters, waker);
        assert(waiters[e].wakes(waker));
    }
}

/// Removing a thread keeps the registry free of duplicates.
pub(crate) proof fn lemma_without_thread(waiters: Seq<Waiter>, thread: ThreadId)
    requires
        deduplicated(waiters),
    ensures
        deduplicated(without_thread(waiters, thread)),
        without_thread(waiters, thread).len() <= waiters.len(),
    decreases waiters.len(),
{
    reveal(Seq::filter);
    let keep = |waiter: Waiter| !waiter.unparks(thread);
    if waiters.len() > 0 {
        let prefix = waiters.drop_last();
        let last = waiters.last();
        lemma_without_thread(prefix, thread);
        let kept = prefix.filter(keep);
        assert(without_thread(prefix, thread) == kept);
        assert forall|i: int| 0 <= i < kept.len() implies exists|j: int|
            0 <= j < prefix.len() && prefix[j] == #[trigger] kept[i] by {
            assert(kept.contains(kept[i]));
            prefix.lemma_filter_contains_rev(keep, kept[i]);
        }
    }
}

} // verus!
