//! Staged creations of children, and the routes they get.

use behavior::CreationSequence;
use vstd::prelude::*;

use crate::child_bindings::CreationKind;
use crate::settlement::ItemSettlement;

verus! {

/// The source of creation identities of the `behavior` crate.
#[verifier::external_type_specification]
#[verifier::external_body]
pub struct ExCreationSequence(behavior::CreationSequence);

/// The identity that a sequence issues next, unless it is exhausted.
pub uninterp spec fn upcoming(sequence: behavior::CreationSequence) -> Option<u64>;

/// `behavior::CreationSequence::new`: a fresh sequence, which issues one first.
#[verifier::external_body]
pub(crate) fn fresh_sequence() -> (sequence: CreationSequence)
    ensures
        upcoming(sequence) == Some(1u64),
{
    CreationSequence::new()
}

/// `behavior::CreationSequence::issue` with `behavior::CreationId::get`: the
/// upcoming identity, or none once the sequence is exhausted. Each identity is
/// one more than the last, up to the largest one; exhaustion is permanent.
#[verifier::external_body]
pub(crate) fn issue_creation(sequence: &mut CreationSequence) -> (id: Option<u64>)
    ensures
        id == upcoming(*old(sequence)),
        upcoming(*final(sequence)) == successor(upcoming(*old(sequence))),
{
    sequence.issue().map(|id| id.get())
}

/// What a sequence issues after `issued`.
pub open spec fn successor(issued: Option<u64>) -> Option<u64> {
    match issued {
        Some(id) => if id == u64::MAX {
            None
        } else {
            Some((id + 1) as u64)
        },
        None => None,
    }
}

/// How many identities are left when `next` comes next.
pub open spec fn left(next: Option<u64>) -> nat {
    match next {
        Some(id) => (u64::MAX - id + 1) as nat,
        None => 0,
    }
}

/// A staged request to establish one fresh child.
#[derive(Debug)]
pub struct CreateChild<N> {
    /// Correlation within the child occurrence.
    pub id: u64,
    /// The behavior of the child.
    pub child: N,
    /// Why the child is created.
    pub kind: CreationKind,
}

/// A staged request with the route that the child will have.
#[derive(Debug)]
pub struct RoutedCreation<N> {
    /// The request.
    pub creation: CreateChild<N>,
    /// The route.
    pub route: u64,
}

/// The staged requests for the children in `members`, in order, of which the
/// first gets the identity `first`.
pub open spec fn staged<N>(members: Seq<N>, first: u64) -> Seq<CreateChild<N>> {
    Seq::new(
        members.len(),
        |i: int|
            CreateChild { id: (first + i) as u64, child: members[i], kind: CreationKind::Birth },
    )
}

/// The creator has no identity left for a child.
#[derive(Debug, Clone, Copy, PartialEq, Eq, Structural)]
pub struct NonceExhausted;

/// Stage the declared children of an application, in the order in which they
/// were declared.
pub fn stage_children<N>(members: Vec<N>, sequence: &mut CreationSequence) -> (creates: Result<
    Vec<CreateChild<N>>,
    NonceExhausted,
>)
    ensures
        match creates {
            Ok(creates) => {
                &&& members@.len() <= left(upcoming(*old(sequence)))
                &&& creates@ == staged(
                    members@,
                    match upcoming(*old(sequence)) {
                        Some(first) => first,
                        None => 0,
                    },
                )
                &&& left(upcoming(*final(sequence))) == left(upcoming(*old(sequence)))
                    - members@.len()
            },
            Err(_) => {
                &&& members@.len() > left(upcoming(*old(sequence)))
                &&& upcoming(*final(sequence)) is None
            },
        },
{
    let ghost all = members@;
    let ghost start = upcoming(*sequence);
    let ghost first: u64 = match start {
        Some(first) => first,
        None => 0,
    };
    let mut creates: Vec<CreateChild<N>> = Vec::new();
    for child in iter: members
        invariant
            iter.seq() == all,
            start == upcoming(*old(sequence)),
            first == match start {
                Some(first) => first,
                None => 0u64,
            },
            iter.index() <= left(start),
            creates@ =~= staged(all.take(iter.index() as int), first),
            left(upcoming(*sequence)) == left(start) - iter.index(),
            upcoming(*sequence) matches Some(next) ==> next == first + iter.index(),
    {
        let ghost index = iter.index() as int;
        match issue_creation(sequence) {
            Some(id) => {
                creates.push(CreateChild { id, child, kind: CreationKind::Birth });
                proof {
                    assert(all.take(index + 1) =~= all.take(index).push(child));
                }
            },
            None => {
                return Err(NonceExhausted);
            },
        }
    }
    proof {
        assert(all.take(all.len() as int) =~= all);
    }
    Ok(creates)
}

/// The namespace in which one actor routes its children.
#[derive(Debug)]
pub struct ChildRoutes {
    next: u64,
}

/// The creator namespace cannot route an entire batch of creations.
#[derive(Debug, Clone, Copy, PartialEq, Eq, Structural)]
pub struct ChildNamespaceExhausted;

/// The creations with consecutive routes from `first` on.
pub open spec fn routed<N>(creations: Seq<CreateChild<N>>, first: u64) -> Seq<RoutedCreation<N>> {
    Seq::new(
        creations.len(),
        |i: int| RoutedCreation { creation: creations[i], route: (first + i) as u64 },
    )
}

impl View for ChildRoutes {
    type V = u64;

    closed spec fn view(&self) -> u64 {
        self.next
    }
}

impl ChildRoutes {
    /// No route has been given.
    pub fn new() -> (routes: Self)
        ensures
            routes@ == 0,
    {
        ChildRoutes { next: 0 }
    }

    /// Route a whole batch of creations, or none of them.
    pub fn route<N, P>(&mut self, creations: Vec<CreateChild<N>>) -> (settlement: ItemSettlement<
        Vec<CreateChild<N>>,
        Vec<RoutedCreation<N>>,
        ChildNamespaceExhausted,
        P,
    >)
        ensures
            if old(self)@ + creations@.len() <= u64::MAX {
                &&& settlement matches ItemSettlement::Accepted(accepted)
                &&& accepted@ == routed(creations@, old(self)@)
                &&& final(self)@ == old(self)@ + creations@.len()
            } else {
                &&& settlement == (ItemSettlement::<
                    Vec<CreateChild<N>>,
                    Vec<RoutedCreation<N>>,
                    ChildNamespaceExhausted,
                    P,
                >::Rejected { item: creations, reason: ChildNamespaceExhausted })
                &&& final(self)@ == old(self)@
            },
    {
        let count: u64 = creations.len() as u64;
        if count > u64::MAX - self.next {
            return ItemSettlement::Rejected { item: creations, reason: ChildNamespaceExhausted };
        }
        let first: u64 = self.next;
        self.next = first + count;
        let ghost all = creations@;
        let mut accepted: Vec<RoutedCreation<N>> = Vec::new();
        let mut index: u64 = 0;
        for creation in iter: creations
            invariant
                iter.seq() == all,
                count == all.len(),
                first + count <= u64::MAX,
                index == iter.index(),
                accepted@ =~= routed(all.take(iter.index() as int), first),
        {
            accepted.push(RoutedCreation { creation, route: first + index });
            proof {
                assert(all.take(index + 1) =~= all.take(index as int).push(creation));
            }
            index = index + 1;
        }
        proof {
            assert(all.take(all.len() as int) =~= all);
        }
        ItemSettlement::Accepted(accepted)
    }
}

/// No two children of one actor get the same route: routes within a batch
/// differ, and those of a later batch are larger than those of an earlier one.
pub proof fn law_routes_are_never_reused<N>(
    earlier: Seq<CreateChild<N>>,
    later: Seq<CreateChild<N>>,
    first: u64,
)
    requires
        first + earlier.len() + later.len() <= u64::MAX,
    ensures
        forall|i: int, j: int|
            0 <= i < j < earlier.len() ==> (#[trigger] routed(earlier, first)[i]).route < (
            #[trigger] routed(earlier, first)[j]).route,
        forall|i: int, j: int|
            0 <= i < earlier.len() && 0 <= j < later.len() ==> (#[trigger] routed(
                earlier,
                first,
            )[i]).route < (#[trigger] routed(later, (first + earlier.len()) as u64)[j]).route,
{
}

/// A batch is routed as a whole: every creation keeps its place and itself.
pub proof fn law_routing_preserves_creations<N>(creations: Seq<CreateChild<N>>, first: u64)
    ensures
        routed(creations, first).len() == creations.len(),
        forall|i: int|
            0 <= i < creations.len() ==> (#[trigger] routed(creations, first)[i]).creation
                == creations[i],
{
}

/// Every declared actor is staged once, at its place, and as a birth: no staged
/// creation names a previous one. The identities count up from the first one.
pub proof fn law_declared_actors_are_born<N>(members: Seq<N>, first: u64)
    ensures
        staged(members, first).len() == members.len(),
        forall|i: int|
            #![trigger staged(members, first)[i]]
            0 <= i < members.len() ==> {
                &&& staged(members, first)[i].kind == CreationKind::Birth
                &&& !(staged(members, first)[i].kind is Replacement)
                &&& staged(members, first)[i].child == members[i]
                &&& first + i <= u64::MAX ==> staged(members, first)[i].id == first + i
            },
{
}

/// A sequence that issues `next` next has every identity from it on left, and
/// issuing one leaves one less. An exhausted sequence has none left.
pub proof fn law_identities_run_out_one_by_one(next: Option<u64>)
    ensures
        next is None <==> left(next) == 0,
        next matches Some(id) ==> left(next) + id == u64::MAX + 1,
        next is Some ==> left(successor(next)) + 1 == left(next),
        next matches Some(id) ==> successor(next) == if id < u64::MAX {
            Some((id + 1) as u64)
        } else {
            None
        },
        next is None ==> successor(next) is None,
{
}

/// The routes of a batch count up from the first free one, so that the next
/// batch goes on where this one ends.
pub proof fn law_routes_are_consecutive<N>(creations: Seq<CreateChild<N>>, first: u64, i: int)
    requires
        0 <= i < creations.len(),
        first + creations.len() <= u64::MAX,
    ensures
        routed(creations, first)[i].route == first + i,
{
}

} // verus!
