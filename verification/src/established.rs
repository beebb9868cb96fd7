//! The exact observations that one actor has started.

use std::collections::HashMap;

use vstd::prelude::*;
use vstd::std_specs::iter::IteratorSpec;

verus! {

broadcast use vstd::std_specs::hash::group_hash_axioms;

/// What an actor asked for.
#[derive(Debug, Clone, Copy, PartialEq, Eq, Structural)]
pub enum ObservationOperation {
    /// To start an observation.
    Start,
    /// To cancel one.
    Cancel,
}

/// Why it was refused.
#[derive(Debug, Clone, Copy, PartialEq, Eq, Structural)]
pub enum ObservationRejection {
    /// This identity already names a live observation.
    IdAlreadyBound,
    /// This identity names no live observation.
    NotObserved,
}

/// The fact that an actor is told of one exact observation.
#[derive(Debug, Clone, Copy, PartialEq, Eq, Structural)]
pub enum EstablishedObservation<T> {
    /// It has started.
    Started { id: u64 },
    /// The observed incarnation ended.
    Stopped { id: u64, outcome: T },
    /// It was cancelled.
    Cancelled { id: u64 },
    /// The request was refused.
    Rejected { id: u64, operation: ObservationOperation, reason: ObservationRejection },
}

/// The live observations. `C` cancels one.
pub struct ExactObservations<C> {
    active: HashMap<u64, C>,
}

impl<C> View for ExactObservations<C> {
    type V = Map<u64, C>;

    closed spec fn view(&self) -> Map<u64, C> {
        self.active@
    }
}

/// What an actor is told that asks to start an observation.
pub open spec fn start_fact<T>(bound: bool, id: u64) -> EstablishedObservation<T> {
    if bound {
        EstablishedObservation::Rejected {
            id,
            operation: ObservationOperation::Start,
            reason: ObservationRejection::IdAlreadyBound,
        }
    } else {
        EstablishedObservation::Started { id }
    }
}

/// What an actor is told that asks to cancel an observation.
pub open spec fn cancel_fact<T>(bound: bool, id: u64) -> EstablishedObservation<T> {
    if bound {
        EstablishedObservation::Cancelled { id }
    } else {
        EstablishedObservation::Rejected {
            id,
            operation: ObservationOperation::Cancel,
            reason: ObservationRejection::NotObserved,
        }
    }
}

impl<C> ExactObservations<C> {
    /// Nothing is observed.
    pub fn new() -> (observations: Self)
        ensures
            observations@ == Map::<u64, C>::empty(),
    {
        ExactObservations { active: HashMap::new() }
    }

    /// Start an observation under a fresh identity, which `cancel` cancels. A
    /// bound identity keeps what it names, and `cancel` comes back.
    pub fn observe<T>(&mut self, id: u64, cancel: C) -> (started: (
        EstablishedObservation<T>,
        Option<C>,
    ))
        ensures
            started.0 == start_fact::<T>(old(self)@.contains_key(id), id),
            if old(self)@.contains_key(id) {
                final(self)@ == old(self)@ && started.1 == Some(cancel)
            } else {
                final(self)@ == old(self)@.insert(id, cancel) && started.1 is None
            },
    {
        if self.active.contains_key(&id) {
            return (
                EstablishedObservation::Rejected {
                    id,
                    operation: ObservationOperation::Start,
                    reason: ObservationRejection::IdAlreadyBound,
                },
                Some(cancel),
            );
        }
        self.active.insert(id, cancel);
        (EstablishedObservation::Started { id }, None)
    }

    /// The observed incarnation ended: its observation is over.
    pub fn stopped<T>(&mut self, id: u64, outcome: T) -> (fact: EstablishedObservation<T>)
        ensures
            fact == (EstablishedObservation::Stopped { id, outcome }),
            final(self)@ == old(self)@.remove(id),
    {
        self.active.remove(&id);
        EstablishedObservation::Stopped { id, outcome }
    }

    /// Cancel an observation: what cancels it is handed out, once.
    pub fn cancel<T>(&mut self, id: u64) -> (cancelled: (EstablishedObservation<T>, Option<C>))
        ensures
            cancelled.0 == cancel_fact::<T>(old(self)@.contains_key(id), id),
            cancelled.1 == if old(self)@.contains_key(id) {
                Some(old(self)@[id])
            } else {
                None
            },
            final(self)@ == old(self)@.remove(id),
    {
        match self.active.remove(&id) {
            Some(cancel) => (EstablishedObservation::Cancelled { id }, Some(cancel)),
            None => (
                EstablishedObservation::Rejected {
                    id,
                    operation: ObservationOperation::Cancel,
                    reason: ObservationRejection::NotObserved,
                },
                None,
            ),
        }
    }

    /// How many observations are live.
    pub fn len(&self) -> (count: usize)
        ensures
            count == self@.len(),
    {
        self.active.len()
    }

    /// The identities of the live observations, each once.
    fn ids(&self) -> (ids: Vec<u64>)
        ensures
            ids@.no_duplicates(),
            ids@.to_set() == self@.dom(),
    {
        let mut ids: Vec<u64> = Vec::new();
        let ghost keys = self.active.keys().remaining();
        for key in iter: self.active.keys()
            invariant
                iter.seq() == keys,
                keys == vstd::std_specs::hash::spec_keys_iter(&self.active).remaining(),
                ids@ =~= keys.unref().take(iter.index() as int),
        {
            let ghost index = iter.index() as int;
            ids.push(*key);
            proof {
                assert(keys.unref().take(index + 1) =~= keys.unref().take(index).push(
                    keys.unref()[index],
                ));
            }
        }
        proof {
            assert(keys.unref().take(keys.len() as int) =~= keys.unref());
            assert(ids@.to_set() =~= self@.dom());
        }
        ids
    }

    /// Cancel every observation, because the actor retires.
    pub fn retire(&mut self) -> (cancelled: Vec<(u64, C)>)
        ensures
            final(self)@ == Map::<u64, C>::empty(),
            cancels(cancelled@, old(self)@),
    {
        let ids = self.ids();
        let ghost before = self@;
        let mut cancelled: Vec<(u64, C)> = Vec::new();
        let mut index: usize = 0;
        while index < ids.len()
            invariant
                index <= ids@.len(),
                ids@.no_duplicates(),
                ids@.to_set() == before.dom(),
                self@ =~= before.remove_keys(ids@.take(index as int).to_set()),
                cancelled@.len() == index,
                forall|i: int|
                    0 <= i < index ==> (#[trigger] cancelled@[i]) == (ids@[i], before[ids@[i]]),
            decreases ids@.len() - index,
        {
            let id: u64 = ids[index];
            proof {
                assert(ids@.to_set().contains(ids@[index as int]));
                assert(before.contains_key(id));
                assert(!ids@.take(index as int).contains(id)) by {
                    if ids@.take(index as int).contains(id) {
                        let i = choose|i: int| 0 <= i < index && ids@.take(index as int)[i] == id;
                        assert(ids@[i] == ids@[index as int]);
                    }
                }
                assert(self@.contains_key(id));
                assert(ids@.take(index + 1) =~= ids@.take(index as int).push(id));
                assert forall|k: u64| ids@.take(index + 1).to_set().contains(k) <==> (ids@.take(
                    index as int,
                ).to_set().contains(k) || k == id) by {
                    let taken = ids@.take(index as int);
                    if taken.contains(k) {
                        let i = choose|i: int| 0 <= i < taken.len() && taken[i] == k;
                        assert(taken.push(id)[i] == k);
                    }
                    if k == id {
                        assert(taken.push(id)[taken.len() as int] == k);
                    }
                }
            }
            if let Some(cancel) = self.active.remove(&id) {
                cancelled.push((id, cancel));
            }
            index = index + 1;
        }
        proof {
            assert(ids@.take(index as int) =~= ids@);
            assert(self@ =~= Map::<u64, C>::empty());
            assert forall|id: u64| before.contains_key(id) implies #[trigger] cancels_id(
                cancelled@,
                id,
            ) by {
                assert(ids@.to_set().contains(id));
                let i = choose|i: int| 0 <= i < ids@.len() && ids@[i] == id;
                assert(cancelled@[i].0 == id);
            }
            assert forall|i: int, j: int| 0 <= i < j < cancelled@.len() implies (
            #[trigger] cancelled@[i]).0 != (#[trigger] cancelled@[j]).0 by {
                assert(ids@[i] != ids@[j]);
            }
            assert forall|i: int| 0 <= i < cancelled@.len() implies before.contains_key(
                (#[trigger] cancelled@[i]).0,
            ) && cancelled@[i].1 == before[cancelled@[i].0] by {
                assert(ids@.to_set().contains(ids@[i]));
            }
        }
        cancelled
    }
}

/// Whether `id` is among those that are cancelled.
pub open spec fn cancels_id<C>(cancelled: Seq<(u64, C)>, id: u64) -> bool {
    exists|i: int| 0 <= i < cancelled.len() && (#[trigger] cancelled[i]).0 == id
}

/// Whether every live observation is cancelled once, and nothing else.
pub open spec fn cancels<C>(cancelled: Seq<(u64, C)>, active: Map<u64, C>) -> bool {
    &&& forall|i: int|
        0 <= i < cancelled.len() ==> active.contains_key((#[trigger] cancelled[i]).0)
            && cancelled[i].1 == active[cancelled[i].0]
    &&& forall|i: int, j: int|
        0 <= i < j < cancelled.len() ==> (#[trigger] cancelled[i]).0 != (
        #[trigger] cancelled[j]).0
    &&& forall|id: u64| active.contains_key(id) ==> #[trigger] cancels_id(cancelled, id)
}

/// An identity can be used again once its observation was cancelled or is over,
/// and not before.
pub proof fn law_an_identity_names_one_live_observation<C, T>(
    active: Map<u64, C>,
    id: u64,
    cancel: C,
)
    ensures
        start_fact::<T>(active.insert(id, cancel).contains_key(id), id) is Rejected,
        start_fact::<T>(active.insert(id, cancel).remove(id).contains_key(id), id) is Started,
        cancel_fact::<T>(active.insert(id, cancel).contains_key(id), id) is Cancelled,
        cancel_fact::<T>(active.remove(id).contains_key(id), id) is Rejected,
{
}

/// Cancelling an observation that was started under a fresh identity undoes it.
pub proof fn law_cancellation_undoes_a_start<C>(active: Map<u64, C>, id: u64, cancel: C)
    requires
        !active.contains_key(id),
    ensures
        active.insert(id, cancel).remove(id) == active,
{
    assert(active.insert(id, cancel).remove(id) =~= active);
}

/// A request is answered under its own identity: a start is refused as bound
/// exactly when the identity is bound, and a cancellation as not observed
/// exactly when it is not.
pub proof fn law_requests_are_answered_under_their_identity<T>(bound: bool, id: u64)
    ensures
        start_fact::<T>(bound, id) == (EstablishedObservation::<T>::Rejected {
            id,
            operation: ObservationOperation::Start,
            reason: ObservationRejection::IdAlreadyBound,
        }) <==> bound,
        start_fact::<T>(bound, id) == (EstablishedObservation::<T>::Started { id }) <==> !bound,
        cancel_fact::<T>(bound, id) == (EstablishedObservation::<T>::Cancelled { id }) <==> bound,
        cancel_fact::<T>(bound, id) == (EstablishedObservation::<T>::Rejected {
            id,
            operation: ObservationOperation::Cancel,
            reason: ObservationRejection::NotObserved,
        }) <==> !bound,
{
}

/// Retirement hands out what cancels each live observation, each once, and
/// nothing else.
pub proof fn law_retirement_cancels_every_observation<C>(
    cancelled: Seq<(u64, C)>,
    active: Map<u64, C>,
)
    requires
        cancels(cancelled, active),
    ensures
        forall|id: u64| #[trigger]
            active.contains_key(id) <==> exists|i: int|
                0 <= i < cancelled.len() && #[trigger] cancelled[i] == (id, active[id]),
        forall|i: int, j: int|
            0 <= i < j < cancelled.len() ==> (#[trigger] cancelled[i]).0 != (
            #[trigger] cancelled[j]).0,
{
    assert forall|id: u64| #[trigger] active.contains_key(id) implies exists|i: int|
        0 <= i < cancelled.len() && #[trigger] cancelled[i] == (id, active[id]) by {
        assert(cancels_id(cancelled, id));
        let i = choose|i: int| 0 <= i < cancelled.len() && (#[trigger] cancelled[i]).0 == id;
        assert(cancelled[i] == (id, active[id]));
    }
}

} // verus!
