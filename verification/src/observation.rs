//! Actor-local delivery of peer and child termination facts.

use vstd::prelude::*;

use crate::address::MailAddr;

verus! {

/// Whom a termination fact is about.
#[derive(Debug, Clone, Copy, PartialEq, Eq, Structural)]
pub enum FactSource {
    /// A peer, by its address.
    Peer(MailAddr),
    /// A child, by its creation.
    Child(u64),
}

/// An observation that has not completed. `F` observes one termination, `J`
/// says where in the actor its fact is delivered.
#[derive(Debug)]
pub struct PendingFact<F, J> {
    /// The observation.
    pub future: F,
    /// Whom it is about.
    pub source: FactSource,
    /// Where its fact is delivered.
    pub inject: J,
}

/// A termination fact and where it is delivered.
#[derive(Debug)]
pub struct TerminationFact<J, T> {
    /// Whom it is about.
    pub source: FactSource,
    /// Where it is delivered.
    pub inject: J,
    /// How the source ended.
    pub outcome: T,
}

/// What follows when one pending observation has been polled.
#[derive(Debug)]
pub enum FactPoll<J, T> {
    /// It had completed.
    Ready(TerminationFact<J, T>),
    /// It had not: the observation at this position is polled next.
    Next(usize),
    /// It had not, and it was the last.
    Pending,
}

/// Failure to observe a peer.
#[derive(Debug, Clone, Copy, PartialEq, Eq, Structural)]
pub enum ObservationError {
    /// No live actor generation exists at the requested address.
    Unknown(MailAddr),
}

impl ObservationError {
    /// The failure in words.
    pub fn message(&self) -> (message: &'static str)
        ensures
            message@ == "no live actor generation exists at the requested address"@,
    {
        "no live actor generation exists at the requested address"
    }
}

/// The pending facts of one actor.
#[derive(Debug)]
pub struct FactQueue<F, J> {
    pending: Vec<PendingFact<F, J>>,
}

impl<F, J> View for FactQueue<F, J> {
    type V = Seq<PendingFact<F, J>>;

    closed spec fn view(&self) -> Seq<PendingFact<F, J>> {
        self.pending@
    }
}

/// `pending` without the fact at `index`, whose place the last one takes.
pub open spec fn without<X>(pending: Seq<X>, index: int) -> Seq<X> {
    pending.update(index, pending.last()).drop_last()
}

impl<F, J> FactQueue<F, J> {
    /// Nothing is observed.
    pub fn new() -> (queue: Self)
        ensures
            queue@ == Seq::<PendingFact<F, J>>::empty(),
    {
        FactQueue { pending: Vec::new() }
    }

    /// Observe a peer.
    pub fn insert_peer(&mut self, address: MailAddr, observation: F, inject: J)
        ensures
            final(self)@ == old(self)@.push(
                PendingFact { future: observation, source: FactSource::Peer(address), inject },
            ),
    {
        self.insert(observation, FactSource::Peer(address), inject);
    }

    /// Observe a child.
    pub fn insert_child(&mut self, creation: u64, observation: F, inject: J)
        ensures
            final(self)@ == old(self)@.push(
                PendingFact { future: observation, source: FactSource::Child(creation), inject },
            ),
    {
        self.insert(observation, FactSource::Child(creation), inject);
    }

    fn insert(&mut self, future: F, source: FactSource, inject: J)
        ensures
            final(self)@ == old(self)@.push(PendingFact { future, source, inject }),
    {
        self.pending.push(PendingFact { future, source, inject });
    }

    /// How many observations are pending.
    pub fn len(&self) -> (count: usize)
        ensures
            count == self@.len(),
    {
        self.pending.len()
    }

    /// The observation at `index`, to be polled.
    pub fn at(&mut self, index: usize) -> (future: &mut F)
        requires
            index < old(self)@.len(),
        ensures
            *future == old(self)@[index as int].future,
            final(self)@ == old(self)@.update(
                index as int,
                PendingFact {
                    future: *final(future),
                    source: old(self)@[index as int].source,
                    inject: old(self)@[index as int].inject,
                },
            ),
    {
        &mut self.pending[index].future
    }

    /// The observation at `index` was polled, in the order of the queue. The
    /// first completed one yields its fact and leaves the queue.
    pub fn polled<T>(&mut self, index: usize, outcome: Option<T>) -> (step: FactPoll<J, T>)
        requires
            index < old(self)@.len(),
        ensures
            match outcome {
                Some(outcome) => {
                    &&& step == FactPoll::<J, T>::Ready(
                        TerminationFact {
                            source: old(self)@[index as int].source,
                            inject: old(self)@[index as int].inject,
                            outcome,
                        },
                    )
                    &&& final(self)@ == without(old(self)@, index as int)
                },
                None => {
                    &&& final(self)@ == old(self)@
                    &&& step == if index + 1 < old(self)@.len() {
                        FactPoll::<J, T>::Next((index + 1) as usize)
                    } else {
                        FactPoll::<J, T>::Pending
                    }
                },
            },
    {
        match outcome {
            Some(outcome) => {
                let pending = self.pending.swap_remove(index);
                FactPoll::Ready(
                    TerminationFact { source: pending.source, inject: pending.inject, outcome },
                )
            },
            None => {
                if index < self.pending.len() - 1 {
                    FactPoll::Next(index + 1)
                } else {
                    FactPoll::Pending
                }
            },
        }
    }

    /// Observe the peer at an address, given what is live there.
    pub fn observe(&mut self, peer: MailAddr, resolved: Option<F>, inject: J) -> (observed: Result<
        (),
        ObservationError,
    >)
        ensures
            match resolved {
                Some(observation) => {
                    &&& observed is Ok
                    &&& final(self)@ == old(self)@.push(
                        PendingFact {
                            future: observation,
                            source: FactSource::Peer(peer),
                            inject,
                        },
                    )
                },
                None => {
                    &&& observed == Err::<(), ObservationError>(ObservationError::Unknown(peer))
                    &&& final(self)@ == old(self)@
                },
            },
    {
        match resolved {
            Some(observation) => {
                self.insert_peer(peer, observation, inject);
                Ok(())
            },
            None => Err(ObservationError::Unknown(peer)),
        }
    }
}

/// A fact that is delivered leaves every other pending fact in the queue, as
/// often as it was there.
pub proof fn law_delivery_preserves_multiplicity<X>(pending: Seq<X>, index: int)
    requires
        0 <= index < pending.len(),
    ensures
        without(pending, index).to_multiset() == pending.to_multiset().remove(pending[index]),
{
    broadcast use vstd::seq_lib::group_to_multiset_ensures;

    let last = pending.last();
    let moved = pending.update(index, last);
    assert(moved =~= moved.drop_last().push(last));
    assert(moved.to_multiset() =~= pending.to_multiset().remove(pending[index]).insert(last));
    assert(moved.drop_last().to_multiset() =~= moved.to_multiset().remove(last));
}

/// A fact that is delivered gives its place to the last one; all others keep
/// theirs.
pub proof fn law_delivery_moves_only_the_last_fact<X>(pending: Seq<X>, index: int)
    requires
        0 <= index < pending.len(),
    ensures
        without(pending, index).len() == pending.len() - 1,
        index < pending.len() - 1 ==> without(pending, index)[index] == pending[pending.len() - 1],
        forall|i: int|
            0 <= i < pending.len() - 1 && i != index ==> #[trigger] without(pending, index)[i]
                == pending[i],
{
}

} // verus!
