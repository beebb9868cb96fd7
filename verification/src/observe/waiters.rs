//! The registry of waiters that one completion slot keeps.

use vstd::prelude::*;

verus! {

/// Identity of a task waker. Two wakers that wake the same task have one identity.
#[derive(Debug, Clone, Copy, PartialEq, Eq, Hash, Structural)]
pub struct WakerId(pub u64);

/// Identity of a blocked thread.
#[derive(Debug, Clone, Copy, PartialEq, Eq, Hash, Structural)]
pub struct ThreadId(pub u64);

/// Who keeps a waker entry alive.
#[derive(Debug, Clone, Copy, PartialEq, Eq, Structural)]
pub enum WakerOwnership {
    /// Only futures own the entry: it leaves with the last of them.
    Futures { owners: usize },
    /// The entry was registered explicitly and stays until publication.
    Persistent { future_owners: usize },
}

impl WakerOwnership {
    /// The number of futures that own the entry.
    pub open spec fn futures(self) -> nat {
        match self {
            WakerOwnership::Futures { owners } => owners as nat,
            WakerOwnership::Persistent { future_owners } => future_owners as nat,
        }
    }

    /// An entry that only futures own has at least one owner.
    pub open spec fn wf(self) -> bool {
        self matches WakerOwnership::Futures { owners } ==> owners >= 1
    }

    /// The same entry with one more future.
    pub open spec fn joined(self) -> WakerOwnership {
        match self {
            WakerOwnership::Futures { owners } => WakerOwnership::Futures {
                owners: (owners + 1) as usize,
            },
            WakerOwnership::Persistent { future_owners } => WakerOwnership::Persistent {
                future_owners: (future_owners + 1) as usize,
            },
        }
    }

    /// The same entry with one future fewer; `None` when nobody keeps it.
    pub open spec fn left(self) -> Option<WakerOwnership> {
        match self {
            WakerOwnership::Futures { owners } => if owners <= 1 {
                None
            } else {
                Some(WakerOwnership::Futures { owners: (owners - 1) as usize })
            },
            WakerOwnership::Persistent { future_owners } => Some(
                WakerOwnership::Persistent { future_owners: (future_owners - 1) as usize },
            ),
        }
    }

    /// The same entry, kept until publication.
    pub open spec fn pinned(self) -> WakerOwnership {
        match self {
            WakerOwnership::Futures { owners } => WakerOwnership::Persistent {
                future_owners: owners,
            },
            WakerOwnership::Persistent { future_owners } => self,
        }
    }
}

/// One registered waiter.
#[derive(Debug, Clone, Copy, PartialEq, Eq, Structural)]
pub enum Waiter {
    /// A thread blocked until publication.
    Thread(ThreadId),
    /// A task to wake at publication.
    Waker { waker: WakerId, ownership: WakerOwnership },
}

impl Waiter {
    /// Whether this entry wakes the task of `target`.
    pub open spec fn wakes(self, target: WakerId) -> bool {
        self matches Waiter::Waker { waker, .. } && waker == target
    }

    /// Whether this entry unparks `target`.
    pub open spec fn unparks(self, target: ThreadId) -> bool {
        self matches Waiter::Thread(thread) && thread == target
    }

    /// The number of futures that own this entry.
    pub open spec fn futures(self) -> nat {
        match self {
            Waiter::Thread(_) => 0,
            Waiter::Waker { ownership, .. } => ownership.futures(),
        }
    }
}

/// Whether some entry wakes the task of `waker`.
pub open spec fn registered(waiters: Seq<Waiter>, waker: WakerId) -> bool {
    exists|i: int| 0 <= i < waiters.len() && (#[trigger] waiters[i]).wakes(waker)
}

/// The position of the entry of a registered waker.
pub open spec fn entry(waiters: Seq<Waiter>, waker: WakerId) -> int {
    choose|i: int| 0 <= i < waiters.len() && (#[trigger] waiters[i]).wakes(waker)
}

/// Each waker has at most one entry, and no entry is unowned.
pub open spec fn deduplicated(waiters: Seq<Waiter>) -> bool {
    &&& forall|i: int, j: int|
        #![trigger waiters[i], waiters[j]]
        0 <= i < waiters.len() && 0 <= j < waiters.len() && waiters[i] is Waker
            && waiters[j] is Waker && waiters[i]->waker == waiters[j]->waker ==> i == j
    &&& forall|i: int|
        0 <= i < waiters.len() ==> ((#[trigger] waiters[i]) matches Waiter::Waker { ownership, .. }
            ==> ownership.wf())
}

/// The ownership of the entry of `waker`, if it has one.
pub open spec fn ownership_of(waiters: Seq<Waiter>, waker: WakerId) -> Option<WakerOwnership> {
    if registered(waiters, waker) {
        Some(waiters[entry(waiters, waker)]->ownership)
    } else {
        None
    }
}

/// The number of futures that own the entry of `waker`.
pub open spec fn futures_of(waiters: Seq<Waiter>, waker: WakerId) -> nat {
    match ownership_of(waiters, waker) {
        Some(ownership) => ownership.futures(),
        None => 0,
    }
}

/// The registry after one more future registered `waker`.
pub open spec fn with_future(waiters: Seq<Waiter>, waker: WakerId) -> Seq<Waiter> {
    if registered(waiters, waker) {
        let i = entry(waiters, waker);
        waiters.update(i, Waiter::Waker { waker, ownership: waiters[i]->ownership.joined() })
    } else {
        waiters.push(Waiter::Waker { waker, ownership: WakerOwnership::Futures { owners: 1 } })
    }
}

/// The registry after one future gave up `waker`.
pub open spec fn without_future(waiters: Seq<Waiter>, waker: WakerId) -> Seq<Waiter> {
    if registered(waiters, waker) {
        let i = entry(waiters, waker);
        match waiters[i]->ownership.left() {
            Some(ownership) => waiters.update(i, Waiter::Waker { waker, ownership }),
            None => waiters.remove(i),
        }
    } else {
        waiters
    }
}

/// The registry after an explicit registration of `waker`.
pub open spec fn with_pinned(waiters: Seq<Waiter>, waker: WakerId) -> Seq<Waiter> {
    if registered(waiters, waker) {
        let i = entry(waiters, waker);
        waiters.update(i, Waiter::Waker { waker, ownership: waiters[i]->ownership.pinned() })
    } else {
        waiters.push(
            Waiter::Waker { waker, ownership: WakerOwnership::Persistent { future_owners: 0 } },
        )
    }
}

/// The registry after `thread` gave up waiting.
pub open spec fn without_thread(waiters: Seq<Waiter>, thread: ThreadId) -> Seq<Waiter> {
    waiters.filter(|waiter: Waiter| !waiter.unparks(thread))
}

/// Inline-first waiter storage: the first waiter needs no allocation.
#[derive(Debug)]
pub enum Waiters {
    /// Nobody waits.
    Empty,
    /// One waiter, kept in place.
    One(Waiter),
    /// Two or more waiters, in order of registration.
    Many(Vec<Waiter>),
}

impl View for Waiters {
    type V = Seq<Waiter>;

    open spec fn view(&self) -> Seq<Waiter> {
        match self {
            Waiters::Empty => Seq::empty(),
            Waiters::One(waiter) => seq![*waiter],
            Waiters::Many(waiters) => waiters@,
        }
    }
}

impl Default for Waiters {
    fn default() -> (waiters: Self)
        ensures
            waiters@ == Seq::<Waiter>::empty(),
            waiters.wf(),
    {
        Waiters::Empty
    }
}

impl Waiters {
    /// Only two or more waiters are spilled to a vector.
    pub open spec fn wf(self) -> bool {
        self matches Waiters::Many(waiters) ==> waiters@.len() >= 2
    }

    /// The number of waiters.
    pub fn len(&self) -> (count: usize)
        ensures
            count == self@.len(),
    {
        match self {
            Waiters::Empty => 0,
            Waiters::One(_) => 1,
            Waiters::Many(waiters) => waiters.len(),
        }
    }

    /// Whether nobody waits.
    pub fn is_empty(&self) -> (empty: bool)
        ensures
            empty == (self@.len() == 0),
    {
        self.len() == 0
    }

    /// The waiter at `index`.
    pub fn get(&self, index: usize) -> (waiter: Waiter)
        requires
            index < self@.len(),
        ensures
            waiter == self@[index as int],
    {
        match self {
            Waiters::One(waiter) => *waiter,
            Waiters::Many(waiters) => waiters[index],
            Waiters::Empty => Waiter::Thread(ThreadId(0)),
        }
    }

    /// Move all waiters out, in order of registration.
    pub fn take(&mut self) -> (taken: Self)
        ensures
            taken == *old(self),
            final(self)@ == Seq::<Waiter>::empty(),
            final(self).wf(),
    {
        let mut taken = Waiters::Empty;
        core::mem::swap(&mut taken, self);
        taken
    }

    /// The waiters in order of registration.
    pub fn into_vec(self) -> (waiters: Vec<Waiter>)
        ensures
            waiters@ == self@,
    {
        match self {
            Waiters::Empty => Vec::new(),
            Waiters::One(waiter) => {
                let mut waiters = Vec::new();
                waiters.push(waiter);
                waiters
            },
            Waiters::Many(waiters) => waiters,
        }
    }

    /// The storage that holds exactly `waiters`.
    fn from_vec(waiters: Vec<Waiter>) -> (stored: Self)
        ensures
            stored@ == waiters@,
            stored.wf(),
    {
        if waiters.len() == 0 {
            Waiters::Empty
        } else if waiters.len() == 1 {
            Waiters::One(waiters[0])
        } else {
            Waiters::Many(waiters)
        }
    }

    /// Register one more waiter behind the others.
    pub fn push(&mut self, waiter: Waiter)
        requires
            old(self).wf(),
        ensures
            final(self)@ == old(self)@.push(waiter),
            final(self).wf(),
    {
        match self.take() {
            Waiters::Empty => {
                *self = Waiters::One(waiter);
            },
            Waiters::One(first) => {
                let mut waiters = Vec::new();
                waiters.push(first);
                waiters.push(waiter);
                *self = Waiters::Many(waiters);
            },
            Waiters::Many(mut waiters) => {
                waiters.push(waiter);
                *self = Waiters::Many(waiters);
            },
        }
    }

    /// Replace the waiter at `index`.
    pub fn set(&mut self, index: usize, waiter: Waiter)
        requires
            old(self).wf(),
            index < old(self)@.len(),
        ensures
            final(self)@ == old(self)@.update(index as int, waiter),
            final(self).wf(),
    {
        let mut waiters = self.take().into_vec();
        waiters.set(index, waiter);
        *self = Waiters::from_vec(waiters);
    }

    /// Remove the waiter at `index`; the others keep their order.
    pub fn remove(&mut self, index: usize)
        requires
            old(self).wf(),
            index < old(self)@.len(),
        ensures
            final(self)@ == old(self)@.remove(index as int),
            final(self).wf(),
    {
        let mut waiters = self.take().into_vec();
        waiters.remove(index);
        *self = Waiters::from_vec(waiters);
    }

    /// The position of the first entry that wakes the task of `waker`.
    pub fn find_waker(&self, waker: WakerId) -> (found: Option<usize>)
        ensures
            match found {
                Some(i) => i < self@.len() && self@[i as int].wakes(waker),
                None => !registered(self@, waker),
            },
    {
        let mut i: usize = 0;
        while i < self.len()
            invariant
                i <= self@.len(),
                forall|j: int| 0 <= j < i ==> !(#[trigger] self@[j]).wakes(waker),
            decreases self@.len() - i,
        {
            if let Waiter::Waker { waker: present, ownership: _ } = self.get(i) {
                if present.0 == waker.0 {
                    return Some(i);
                }
            }
            i = i + 1;
        }
        None
    }

    /// Remove every registration of `thread`; the others keep their order.
    pub fn retain_others(&mut self, thread: ThreadId)
        requires
            old(self).wf(),
        ensures
            final(self)@ == without_thread(old(self)@, thread),
            final(self).wf(),
    {
        let waiters = self.take().into_vec();
        let mut kept: Vec<Waiter> = Vec::new();
        let mut i: usize = 0;
        let ghost keep = |waiter: Waiter| !waiter.unparks(thread);
        while i < waiters.len()
            invariant
                i <= waiters.len(),
                keep == (|waiter: Waiter| !waiter.unparks(thread)),
                kept@ == waiters@.take(i as int).filter(keep),
            decreases waiters.len() - i,
        {
            proof {
                let prefix = waiters@.take(i as int);
                assert(waiters@.take(i + 1) =~= prefix.push(waiters@[i as int]));
                lemma_filter_push(prefix, waiters@[i as int], keep);
            }
            let waiter = waiters[i];
            let leaves = match waiter {
                Waiter::Thread(present) => present.0 == thread.0,
                Waiter::Waker { .. } => false,
            };
            if !leaves {
                kept.push(waiter);
            }
            i = i + 1;
        }
        proof {
            assert(waiters@.take(i as int) =~= waiters@);
        }
        *self = Waiters::from_vec(kept);
    }
}

/// Filtering a sequence with one more element decides on that element alone.
pub(crate) proof fn lemma_filter_push(prefix: Seq<Waiter>, last: Waiter, keep: spec_fn(Waiter) -> bool)
    ensures
        prefix.push(last).filter(keep) == if keep(last) {
            prefix.filter(keep).push(last)
        } else {
            prefix.filter(keep)
        },
{
    reveal(Seq::filter);
    assert(prefix.push(last).drop_last() =~= prefix);
}

/// A position that wakes `waker` is the position of its entry.
pub(crate) proof fn lemma_entry(waiters: Seq<Waiter>, waker: WakerId, i: int)
    requires
        deduplicated(waiters),
        0 <= i < waiters.len(),
        waiters[i].wakes(waker),
    ensures
        registered(waiters, waker),
        entry(waiters, waker) == i,
{
    let e = entry(waiters, waker);
    assert(0 <= e < waiters.len() && waiters[e].wakes(waker));
    assert(waiters[i] is Waker && waiters[e] is Waker);
}

} // verus!
