//! The one order in which a generation of an actor is activated and retired.

use vstd::prelude::*;

verus! {

/// Failure while committing initialization or claiming the exact address.
#[derive(Debug, Clone, Copy, PartialEq, Eq)]
pub enum LocalActivationError<C, A> {
    /// The initialization was not committed.
    Commit(C),
    /// The address was not claimed.
    Address(A),
}

/// Failure before a launched actor publishes its live reference.
#[derive(Debug, Clone, Copy, PartialEq, Eq, Structural)]
pub struct NeverLive;

impl NeverLive {
    /// The failure in words.
    pub fn message(&self) -> (message: &'static str)
        ensures
            message@ == "actor terminated before becoming live"@,
    {
        "actor terminated before becoming live"
    }
}

/// What is done for a generation, in the order in which it is done.
#[derive(Debug, Clone, Copy, PartialEq, Eq, Structural)]
pub enum GenerationStep {
    /// Its initialization is committed.
    Commit,
    /// Its address is claimed.
    Claim,
    /// Its reference is published.
    Publish,
    /// It takes events until it ends, and its interpreter retires.
    Retire,
    /// Its address is released.
    Release,
    /// Its outcome is published.
    Outcome,
}

/// Where a generation is.
#[derive(Debug)]
pub enum Generation<N, C, A, L> {
    /// Its initialization has to be committed.
    Prepared { endpoint: N },
    /// Its initialization is committed, and its address has to be claimed.
    Committed { endpoint: N },
    /// Its address is claimed, and its reference has to be published.
    Claimed { endpoint: N, lease: L },
    /// It takes events.
    Active { lease: L },
    /// It has ended, and its address has to be released.
    Retired { lease: L },
    /// Its outcome has to be published.
    Released { failure: Option<LocalActivationError<C, A>> },
    /// Nothing is left to do.
    Ended,
}

impl<N, C, A, L> Generation<N, C, A, L> {
    /// What is to be done.
    pub open spec fn owed(self) -> Option<GenerationStep> {
        match self {
            Generation::Prepared { .. } => Some(GenerationStep::Commit),
            Generation::Committed { .. } => Some(GenerationStep::Claim),
            Generation::Claimed { .. } => Some(GenerationStep::Publish),
            Generation::Active { .. } => Some(GenerationStep::Retire),
            Generation::Retired { .. } => Some(GenerationStep::Release),
            Generation::Released { .. } => Some(GenerationStep::Outcome),
            Generation::Ended => None,
        }
    }

    /// A generation that is to be activated.
    pub fn prepare(endpoint: N) -> (generation: Self)
        ensures
            generation == (Generation::<N, C, A, L>::Prepared { endpoint }),
    {
        Generation::Prepared { endpoint }
    }

    /// What is to be done.
    pub fn step(&self) -> (step: Option<GenerationStep>)
        ensures
            step == self.owed(),
    {
        match self {
            Generation::Prepared { .. } => Some(GenerationStep::Commit),
            Generation::Committed { .. } => Some(GenerationStep::Claim),
            Generation::Claimed { .. } => Some(GenerationStep::Publish),
            Generation::Active { .. } => Some(GenerationStep::Retire),
            Generation::Retired { .. } => Some(GenerationStep::Release),
            Generation::Released { .. } => Some(GenerationStep::Outcome),
            Generation::Ended => None,
        }
    }

    /// The initialization was committed or not.
    pub fn committed(self, committed: Result<(), C>) -> (next: Self)
        requires
            self.owed() == Some(GenerationStep::Commit),
        ensures
            next == after_commit(self, committed),
    {
        match self {
            Generation::Prepared { endpoint } => match committed {
                Ok(_) => Generation::Committed { endpoint },
                Err(error) => Generation::Released {
                    failure: Some(LocalActivationError::Commit(error)),
                },
            },
            _ => vstd::pervasive::unreached(),
        }
    }

    /// The address was claimed or not.
    pub fn claimed(self, claimed: Result<L, A>) -> (next: Self)
        requires
            self.owed() == Some(GenerationStep::Claim),
        ensures
            next == after_claim(self, claimed),
    {
        match self {
            Generation::Committed { endpoint } => match claimed {
                Ok(lease) => Generation::Claimed { endpoint, lease },
                Err(error) => Generation::Released {
                    failure: Some(LocalActivationError::Address(error)),
                },
            },
            _ => vstd::pervasive::unreached(),
        }
    }

    /// The reference is published: it is the one that was prepared.
    pub fn publish(self) -> (next: (N, Self))
        requires
            self.owed() == Some(GenerationStep::Publish),
        ensures
            next.0 == self->Claimed_endpoint,
            next.1 == (Generation::<N, C, A, L>::Active { lease: self->Claimed_lease }),
    {
        match self {
            Generation::Claimed { endpoint, lease } => (endpoint, Generation::Active { lease }),
            _ => vstd::pervasive::unreached(),
        }
    }

    /// The generation ended, and its interpreter has retired.
    pub fn retired(self) -> (next: Self)
        requires
            self.owed() == Some(GenerationStep::Retire),
        ensures
            next == (Generation::<N, C, A, L>::Retired { lease: self->Active_lease }),
    {
        match self {
            Generation::Active { lease } => Generation::Retired { lease },
            _ => vstd::pervasive::unreached(),
        }
    }

    /// The address is released.
    pub fn release(self) -> (next: (L, Self))
        requires
            self.owed() == Some(GenerationStep::Release),
        ensures
            next.0 == self->Retired_lease,
            next.1 == (Generation::<N, C, A, L>::Released { failure: None }),
    {
        match self {
            Generation::Retired { lease } => (lease, Generation::Released { failure: None }),
            _ => vstd::pervasive::unreached(),
        }
    }

    /// The outcome is published.
    pub fn conclude(self) -> (next: (Option<LocalActivationError<C, A>>, Self))
        requires
            self.owed() == Some(GenerationStep::Outcome),
        ensures
            next.0 == self->failure,
            next.1 == Generation::<N, C, A, L>::Ended,
    {
        match self {
            Generation::Released { failure } => (failure, Generation::Ended),
            _ => vstd::pervasive::unreached(),
        }
    }
}

/// Once the initialization was committed or not.
pub open spec fn after_commit<N, C, A, L>(
    generation: Generation<N, C, A, L>,
    committed: Result<(), C>,
) -> Generation<N, C, A, L> {
    match committed {
        Ok(_) => Generation::Committed { endpoint: generation->Prepared_endpoint },
        Err(error) => Generation::Released { failure: Some(LocalActivationError::Commit(error)) },
    }
}

/// Once the address was claimed or not.
pub open spec fn after_claim<N, C, A, L>(
    generation: Generation<N, C, A, L>,
    claimed: Result<L, A>,
) -> Generation<N, C, A, L> {
    match claimed {
        Ok(lease) => Generation::Claimed { endpoint: generation->Committed_endpoint, lease },
        Err(error) => Generation::Released { failure: Some(LocalActivationError::Address(error)) },
    }
}

/// The steps that are done for a generation, given the answers to its commit
/// and its claim.
pub open spec fn transcript<C, A, L>(committed: Result<(), C>, claimed: Result<L, A>) -> Seq<
    GenerationStep,
> {
    match (committed, claimed) {
        (Err(_), _) => seq![GenerationStep::Commit, GenerationStep::Outcome],
        (Ok(_), Err(_)) => seq![
            GenerationStep::Commit,
            GenerationStep::Claim,
            GenerationStep::Outcome,
        ],
        (Ok(_), Ok(_)) => seq![
            GenerationStep::Commit,
            GenerationStep::Claim,
            GenerationStep::Publish,
            GenerationStep::Retire,
            GenerationStep::Release,
            GenerationStep::Outcome,
        ],
    }
}

/// The steps that a generation still owes, given the answers to its commit and
/// its claim.
pub open spec fn remaining<N, C, A, L>(
    generation: Generation<N, C, A, L>,
    committed: Result<(), C>,
    claimed: Result<L, A>,
    fuel: nat,
) -> Seq<GenerationStep>
    decreases fuel,
{
    match generation.owed() {
        None => Seq::empty(),
        Some(step) => if fuel == 0 {
            Seq::empty()
        } else {
            seq![step] + remaining(
                match generation {
                    Generation::Prepared { .. } => after_commit(generation, committed),
                    Generation::Committed { .. } => after_claim(generation, claimed),
                    Generation::Claimed { lease, .. } => Generation::Active { lease },
                    Generation::Active { lease } => Generation::Retired { lease },
                    Generation::Retired { .. } => Generation::Released { failure: None },
                    _ => Generation::Ended,
                },
                committed,
                claimed,
                (fuel - 1) as nat,
            )
        },
    }
}

/// A generation is activated and retired in one order: the initialization is
/// committed before the address is claimed, nothing is published of a
/// generation that failed to, and the address is released before the outcome is
/// published.
pub proof fn law_a_generation_has_one_order<N, C, A, L>(
    endpoint: N,
    committed: Result<(), C>,
    claimed: Result<L, A>,
)
    ensures
        remaining(
            Generation::<N, C, A, L>::Prepared { endpoint },
            committed,
            claimed,
            6,
        ) == transcript(committed, claimed),
{
    reveal_with_fuel(remaining, 8);
    assert(remaining(Generation::<N, C, A, L>::Prepared { endpoint }, committed, claimed, 6)
        =~= transcript(committed, claimed));
}

/// What a generation owes next is decided by where it is.
pub proof fn law_a_generation_owes_one_step<N, C, A, L>(generation: Generation<N, C, A, L>)
    ensures
        generation.owed() == Some(GenerationStep::Commit) <==> generation is Prepared,
        generation.owed() == Some(GenerationStep::Claim) <==> generation is Committed,
        generation.owed() == Some(GenerationStep::Publish) <==> generation is Claimed,
        generation.owed() == Some(GenerationStep::Retire) <==> generation is Active,
        generation.owed() == Some(GenerationStep::Release) <==> generation is Retired,
        generation.owed() == Some(GenerationStep::Outcome) <==> generation is Released,
        generation.owed() is None <==> generation is Ended,
{
}

/// An endpoint is carried unchanged from the preparation to the claim, with the
/// lease that was claimed. A refused commit or claim ends the generation with
/// the reason that was given.
pub proof fn law_a_generation_keeps_what_it_is_given<N, C, A, L>(
    endpoint: N,
    committed: Result<(), C>,
    claimed: Result<L, A>,
)
    ensures
        ({
            let prepared = Generation::<N, C, A, L>::Prepared { endpoint };
            match committed {
                Ok(_) => after_commit(prepared, committed) == (Generation::<
                    N,
                    C,
                    A,
                    L,
                >::Committed { endpoint }),
                Err(error) => after_commit(prepared, committed) == (Generation::<
                    N,
                    C,
                    A,
                    L,
                >::Released { failure: Some(LocalActivationError::Commit(error)) }),
            }
        }),
        ({
            let ready = Generation::<N, C, A, L>::Committed { endpoint };
            match claimed {
                Ok(lease) => after_claim(ready, claimed) == (Generation::<N, C, A, L>::Claimed {
                    endpoint,
                    lease,
                }),
                Err(error) => after_claim(ready, claimed) == (Generation::<N, C, A, L>::Released {
                    failure: Some(LocalActivationError::Address(error)),
                }),
            }
        }),
{
}

/// A generation that commits and claims is published, retired, released and
/// concluded, in this order. One that fails to is concluded at once.
pub proof fn law_a_refused_generation_is_concluded_at_once<C, A, L>(
    committed: Result<(), C>,
    claimed: Result<L, A>,
)
    ensures
        ({
            let steps = transcript(committed, claimed);
            &&& steps[0] == GenerationStep::Commit
            &&& steps.last() == GenerationStep::Outcome
            &&& committed is Err ==> steps.len() == 2
            &&& committed is Ok ==> steps[1] == GenerationStep::Claim
            &&& committed is Ok && claimed is Err ==> steps.len() == 3
            &&& committed is Ok && claimed is Ok ==> steps.len() == 6 && steps[2]
                == GenerationStep::Publish && steps[3] == GenerationStep::Retire && steps[4]
                == GenerationStep::Release
        }),
{
}

} // verus!
