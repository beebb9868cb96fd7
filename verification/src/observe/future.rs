//! The registration of one future, what it does when it is polled, and the
//! notification of everybody that waited.

use vstd::prelude::*;

use crate::observe::slot::{migrated, Slot, SlotView};
use crate::observe::waiters::{futures_of, without_future, Waiter, WakerId};

verus! {

/// One future's current registration in a completion cell.
///
/// Repeated polls with one waker change nothing, migration replaces the
/// previous waker, and release removes the current one.
#[derive(Debug)]
pub struct FutureRegistration {
    waker: Option<WakerId>,
}

impl View for FutureRegistration {
    type V = Option<WakerId>;

    closed spec fn view(&self) -> Option<WakerId> {
        self.waker
    }
}

/// Whether `registration` is the registration of a future of the cell that
/// holds `slot`: while publication is pending, its waker has an owner there.
pub open spec fn attached<O>(registration: Option<WakerId>, slot: SlotView<O>) -> bool {
    registration is Some && !slot.completed ==> futures_of(slot.waiters, registration->0) >= 1
}

/// Whether the registry can count one more future for `next`.
pub open spec fn countable<O>(
    registration: Option<WakerId>,
    slot: SlotView<O>,
    next: WakerId,
) -> bool {
    !slot.completed && registration != Some(next) ==> futures_of(slot.waiters, next) < usize::MAX
}

/// The cell after a future with `registration` registered `next`.
pub open spec fn polled<O>(
    slot: SlotView<O>,
    registration: Option<WakerId>,
    next: WakerId,
) -> SlotView<O> {
    SlotView { waiters: migrated(slot.waiters, registration, next), ..slot }
}

impl FutureRegistration {
    /// The registration of a future that has not been polled.
    pub fn new() -> (registration: Self)
        ensures
            registration@ == None::<WakerId>,
    {
        FutureRegistration { waker: None }
    }

    /// Register `next` in place of the current waker. After publication there
    /// is nothing left to register for, and nothing changes.
    pub fn update<O>(&mut self, slot: &mut Slot<O>, next: WakerId)
        requires
            old(slot).wf(),
            attached(old(self)@, old(slot)@),
            countable(old(self)@, old(slot)@, next),
        ensures
            final(slot).wf(),
            attached(final(self)@, final(slot)@),
            old(slot)@.completed ==> final(slot)@ == old(slot)@ && final(self)@ == old(self)@,
            !old(slot)@.completed ==> final(slot)@ == polled(old(slot)@, old(self)@, next)
                && final(self)@ == Some(next),
    {
        if let Some(current) = self.waker {
            if current.0 == next.0 {
                return ;
            }
        }
        proof {
            if !slot@.completed {
                crate::observe::laws::law_registration_counts_one_future(
                    slot@.waiters,
                    next,
                    next,
                );
                if let Some(current) = self@ {
                    crate::observe::laws::law_registration_counts_one_future(
                        slot@.waiters,
                        next,
                        current,
                    );
                    crate::observe::slot::lemma_with_future(slot@.waiters, next);
                    crate::observe::laws::law_deregistration_counts_one_future(
                        crate::observe::waiters::with_future(slot@.waiters, next),
                        current,
                        next,
                    );
                }
            }
        }
        if slot.update_future_waker(self.waker, next) {
            return ;
        }
        self.waker = Some(next);
    }

    /// Give up the registration, when the future is dropped.
    pub fn release<O>(self, slot: &mut Slot<O>)
        requires
            old(slot).wf(),
            attached(self@, old(slot)@),
        ensures
            final(slot).wf(),
            final(slot)@ == match self@ {
                Some(waker) => SlotView {
                    waiters: without_future(old(slot)@.waiters, waker),
                    ..old(slot)@
                },
                None => old(slot)@,
            },
    {
        if let Some(waker) = self.waker {
            slot.deregister_future_waker(waker);
        }
    }
}

/// A future that resolves to a copy of a shared outcome.
#[derive(Debug)]
pub struct ObservationFuture {
    registration: FutureRegistration,
}

impl View for ObservationFuture {
    type V = Option<WakerId>;

    closed spec fn view(&self) -> Option<WakerId> {
        self.registration@
    }
}

impl ObservationFuture {
    /// A future that has not been polled.
    pub fn new() -> (future: Self)
        ensures
            future@ == None::<WakerId>,
    {
        ObservationFuture { registration: FutureRegistration::new() }
    }

    /// Resolve to a copy of the outcome, or register `waker` and stay pending.
    pub fn poll<O: Clone>(&mut self, slot: &mut Slot<O>, waker: WakerId) -> (ready: Option<O>)
        requires
            old(slot).wf(),
            old(slot)@.completed ==> old(slot)@.outcome is Some,
            attached(old(self)@, old(slot)@),
            countable(old(self)@, old(slot)@, waker),
        ensures
            final(slot).wf(),
            attached(final(self)@, final(slot)@),
            ready is Some <==> old(slot)@.completed,
            ready matches Some(value) ==> cloned(old(slot)@.outcome->0, value) && final(slot)@
                == old(slot)@ && final(self)@ == old(self)@,
            ready is None ==> final(slot)@ == polled(old(slot)@, old(self)@, waker)
                && final(self)@ == Some(waker),
    {
        if let Some(outcome) = slot.try_get() {
            return Some(outcome);
        }
        self.registration.update(slot, waker);
        None
    }

    /// Cancel the wait.
    pub fn cancel<O>(self, slot: &mut Slot<O>)
        requires
            old(slot).wf(),
            attached(self@, old(slot)@),
        ensures
            final(slot).wf(),
            final(slot)@ == match self@ {
                Some(waker) => SlotView {
                    waiters: without_future(old(slot)@.waiters, waker),
                    ..old(slot)@
                },
                None => old(slot)@,
            },
    {
        self.registration.release(slot)
    }
}

/// The sole future of a cell: it moves the outcome out.
#[derive(Debug)]
pub struct AffineObservation {
    registration: FutureRegistration,
}

impl View for AffineObservation {
    type V = Option<WakerId>;

    closed spec fn view(&self) -> Option<WakerId> {
        self.registration@
    }
}

impl AffineObservation {
    /// An observation that has not been polled.
    pub fn new() -> (observation: Self)
        ensures
            observation@ == None::<WakerId>,
    {
        AffineObservation { registration: FutureRegistration::new() }
    }

    /// Move the outcome out, or register `waker` and stay pending.
    pub fn poll<O>(&mut self, slot: &mut Slot<O>, waker: WakerId) -> (ready: Option<O>)
        requires
            old(slot).wf(),
            old(slot)@.completed ==> old(slot)@.outcome is Some,
            attached(old(self)@, old(slot)@),
            countable(old(self)@, old(slot)@, waker),
        ensures
            final(slot).wf(),
            attached(final(self)@, final(slot)@),
            ready == old(slot)@.outcome,
            ready is Some <==> old(slot)@.completed,
            ready is Some ==> final(slot)@ == (SlotView { outcome: None, ..old(slot)@ })
                && final(self)@ == old(self)@,
            ready is None ==> final(slot)@ == polled(old(slot)@, old(self)@, waker)
                && final(self)@ == Some(waker),
    {
        if let Some(outcome) = slot.try_take_outcome() {
            return Some(outcome);
        }
        assert(slot@ == old(slot)@);
        self.registration.update(slot, waker);
        None
    }

    /// Cancel the wait.
    pub fn cancel<O>(self, slot: &mut Slot<O>)
        requires
            old(slot).wf(),
            attached(self@, old(slot)@),
        ensures
            final(slot).wf(),
            final(slot)@ == match self@ {
                Some(waker) => SlotView {
                    waiters: without_future(old(slot)@.waiters, waker),
                    ..old(slot)@
                },
                None => old(slot)@,
            },
    {
        self.registration.release(slot)
    }
}

/// The notification of everybody that publication handed out.
///
/// A wake may fail. The drain goes on, so that one faulty waiter strands
/// nobody, and keeps the first failure to report when all have been notified.
pub struct WakeDrain<P> {
    notified: Vec<Waiter>,
    position: usize,
    first_failure: Option<P>,
}

impl<P> WakeDrain<P> {
    /// Who is notified, in order.
    pub closed spec fn notified(&self) -> Seq<Waiter> {
        self.notified@
    }

    /// How many have been notified.
    pub closed spec fn position(&self) -> nat {
        self.position as nat
    }

    /// The first failure so far.
    pub closed spec fn first_failure(&self) -> Option<P> {
        self.first_failure
    }

    /// No more are notified than were handed out.
    pub closed spec fn wf(&self) -> bool {
        self.position <= self.notified@.len()
    }

    /// Start with nobody notified.
    pub fn new(notified: Vec<Waiter>) -> (drain: Self)
        ensures
            drain.wf(),
            drain.notified() == notified@,
            drain.position() == 0,
            drain.first_failure() is None,
    {
        WakeDrain { notified, position: 0, first_failure: None }
    }

    /// The next waiter to notify; `None` once all have been.
    pub fn next(&mut self) -> (waiter: Option<Waiter>)
        requires
            old(self).wf(),
        ensures
            final(self).wf(),
            final(self).notified() == old(self).notified(),
            final(self).first_failure() == old(self).first_failure(),
            match waiter {
                Some(next) => old(self).position() < old(self).notified().len() && next
                    == old(self).notified()[old(self).position() as int]
                    && final(self).position() == old(self).position() + 1,
                None => old(self).position() == old(self).notified().len()
                    && final(self).position() == old(self).position(),
            },
    {
        if self.position < self.notified.len() {
            let waiter = self.notified[self.position];
            self.position = self.position + 1;
            Some(waiter)
        } else {
            None
        }
    }

    /// Note that the last notification failed. Only the first failure is kept.
    pub fn failed(&mut self, failure: P)
        requires
            old(self).wf(),
        ensures
            final(self).wf(),
            final(self).notified() == old(self).notified(),
            final(self).position() == old(self).position(),
            final(self).first_failure() == match old(self).first_failure() {
                Some(first) => Some(first),
                None => Some(failure),
            },
    {
        if self.first_failure.is_none() {
            self.first_failure = Some(failure);
        }
    }

    /// The first failure, once all have been notified.
    pub fn finish(self) -> (failure: Option<P>)
        requires
            self.wf(),
            self.position() == self.notified().len(),
        ensures
            failure == self.first_failure(),
    {
        self.first_failure
    }
}

} // verus!
