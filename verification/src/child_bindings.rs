//! What one actor knows of the children it created.

use std::collections::HashMap;

use vstd::prelude::*;

use crate::settlement::{InterpreterFault, ItemSettlement};

verus! {

broadcast use vstd::std_specs::hash::group_hash_axioms;

/// Provenance of a staged creation.
#[derive(Debug, Clone, Copy, PartialEq, Eq, Structural)]
pub enum CreationKind {
    /// An initial or ordinary later birth.
    Birth,
    /// A fresh successor of the child that `previous` created.
    Replacement { previous: u64 },
}

/// How one creation was resolved.
#[derive(Debug, Clone, Copy, PartialEq, Eq, Structural)]
pub enum CreationBinding {
    /// It established the child at `route`.
    Established { route: u64, kind: CreationKind },
    /// It established nothing.
    Rejected,
}

/// One established child: `E` delivers messages to it, `C` control events.
#[derive(Debug)]
pub struct BoundChild<E, C> {
    /// Delivers messages.
    pub endpoint: E,
    /// Delivers control events.
    pub control: C,
}

/// Where the child of one creation is.
pub enum Location<E, C> {
    /// It is established.
    Bound(BoundChild<E, C>),
    /// Its creation was rejected.
    Rejected,
    /// Its creation is not known.
    Unknown,
    /// Its creation was established, and its route leads nowhere.
    Unbound,
}

/// The creations, children and tasks of one structural child occurrence. `T` is
/// the task of a child.
pub struct ChildBinding<E, C, T> {
    creations: HashMap<u64, CreationBinding>,
    endpoints: HashMap<u64, BoundChild<E, C>>,
    tasks: Vec<T>,
}

/// The creations, children and tasks of one occurrence.
#[verifier::ext_equal]
pub struct BindingModel<E, C, T> {
    pub creations: Map<u64, CreationBinding>,
    pub endpoints: Map<u64, BoundChild<E, C>>,
    pub tasks: Seq<T>,
}

impl<E, C, T> View for ChildBinding<E, C, T> {
    type V = BindingModel<E, C, T>;

    closed spec fn view(&self) -> BindingModel<E, C, T> {
        BindingModel {
            creations: self.creations@,
            endpoints: self.endpoints@,
            tasks: self.tasks@,
        }
    }
}

impl<E, C, T> BindingModel<E, C, T> {
    /// An occurrence without children.
    pub open spec fn empty() -> Self {
        BindingModel { creations: Map::empty(), endpoints: Map::empty(), tasks: Seq::empty() }
    }

    /// Where the child of a creation is.
    pub open spec fn location(self, creation: u64) -> Location<E, C> {
        if !self.creations.contains_key(creation) {
            Location::Unknown
        } else {
            match self.creations[creation] {
                CreationBinding::Rejected => Location::Rejected,
                CreationBinding::Established { route, .. } => if self.endpoints.contains_key(
                    route,
                ) {
                    Location::Bound(self.endpoints[route])
                } else {
                    Location::Unbound
                },
            }
        }
    }

    /// Once a creation established a child.
    pub open spec fn established(
        self,
        id: u64,
        kind: CreationKind,
        route: u64,
        child: BoundChild<E, C>,
        task: T,
    ) -> Self {
        BindingModel {
            creations: self.creations.insert(id, CreationBinding::Established { route, kind }),
            endpoints: self.endpoints.insert(route, child),
            tasks: self.tasks.push(task),
        }
    }

    /// Once a creation was rejected.
    pub open spec fn rejected(self, id: u64) -> Self {
        BindingModel {
            creations: self.creations.insert(id, CreationBinding::Rejected),
            ..self
        }
    }
}

impl<E, C, T> ChildBinding<E, C, T> {
    /// No child has been created.
    pub fn new() -> (binding: Self)
        ensures
            binding@ == BindingModel::<E, C, T>::empty(),
    {
        ChildBinding { creations: HashMap::new(), endpoints: HashMap::new(), tasks: Vec::new() }
    }

    /// How a creation was resolved.
    pub fn creation(&self, id: u64) -> (binding: Option<CreationBinding>)
        ensures
            binding == if self@.creations.contains_key(id) {
                Some(self@.creations[id])
            } else {
                None
            },
    {
        match self.creations.get(&id) {
            Some(binding) => Some(*binding),
            None => None,
        }
    }

    /// Note how a creation was resolved.
    pub fn record_creation(&mut self, id: u64, binding: CreationBinding)
        ensures
            final(self)@ == (BindingModel {
                creations: old(self)@.creations.insert(id, binding),
                ..old(self)@
            }),
    {
        self.creations.insert(id, binding);
    }

    /// What delivers messages to the child at a route.
    pub fn endpoint(&self, route: u64) -> (endpoint: Option<&E>)
        ensures
            match endpoint {
                Some(endpoint) => self@.endpoints.contains_key(route) && *endpoint
                    == self@.endpoints[route].endpoint,
                None => !self@.endpoints.contains_key(route),
            },
    {
        match self.endpoints.get(&route) {
            Some(bound) => Some(&bound.endpoint),
            None => None,
        }
    }

    /// What delivers control events to the child at a route.
    pub fn control(&self, route: u64) -> (control: Option<&C>)
        ensures
            match control {
                Some(control) => self@.endpoints.contains_key(route) && *control
                    == self@.endpoints[route].control,
                None => !self@.endpoints.contains_key(route),
            },
    {
        match self.endpoints.get(&route) {
            Some(bound) => Some(&bound.control),
            None => None,
        }
    }

    /// Bind a child to a route, and yield what delivered messages to the child
    /// that had been bound to it.
    pub fn bind(&mut self, route: u64, endpoint: E, control: C) -> (previous: Option<E>)
        ensures
            final(self)@ == (BindingModel {
                endpoints: old(self)@.endpoints.insert(route, BoundChild { endpoint, control }),
                ..old(self)@
            }),
            previous == if old(self)@.endpoints.contains_key(route) {
                Some(old(self)@.endpoints[route].endpoint)
            } else {
                None
            },
    {
        match self.endpoints.insert(route, BoundChild { endpoint, control }) {
            Some(bound) => Some(bound.endpoint),
            None => None,
        }
    }

    /// Keep the task of a child until the actor retires.
    pub fn retain_task(&mut self, task: T)
        ensures
            final(self)@ == (BindingModel { tasks: old(self)@.tasks.push(task), ..old(self)@ }),
    {
        self.tasks.push(task);
    }

    /// The child that an item of the user or control lane is for. The item
    /// comes back when there is none: untouched after a rejected creation,
    /// rejected for `missing` otherwise.
    pub fn recipient<I, A, R>(&self, creation: u64, item: I, missing: R) -> (found: Result<
        (&BoundChild<E, C>, I),
        ItemSettlement<I, A, R, u64>,
    >)
        ensures
            match self@.location(creation) {
                Location::Bound(child) => found matches Ok((bound, kept)) && *bound == child
                    && kept == item,
                Location::Rejected => found == Err::<
                    (&BoundChild<E, C>, I),
                    ItemSettlement<I, A, R, u64>,
                >(ItemSettlement::Blocked { item, prerequisite: creation }),
                Location::Unknown | Location::Unbound => found == Err::<
                    (&BoundChild<E, C>, I),
                    ItemSettlement<I, A, R, u64>,
                >(ItemSettlement::Rejected { item, reason: missing }),
            },
    {
        match self.creations.get(&creation) {
            None => Err(ItemSettlement::Rejected { item, reason: missing }),
            Some(CreationBinding::Rejected) => Err(
                ItemSettlement::Blocked { item, prerequisite: creation },
            ),
            Some(CreationBinding::Established { route, .. }) => match self.endpoints.get(route) {
                Some(bound) => Ok((bound, item)),
                None => Err(ItemSettlement::Rejected { item, reason: missing }),
            },
        }
    }

    /// The child that a request to observe or stop one is about, and how it was
    /// created. The request comes back when there is none: untouched after a
    /// rejected creation, and otherwise as evidence of a missing capability.
    pub fn subject<I, A, R>(&self, creation: u64, item: I) -> (found: Result<
        (&BoundChild<E, C>, CreationKind, I),
        ItemSettlement<I, A, R, u64>,
    >)
        ensures
            match self@.location(creation) {
                Location::Bound(child) => {
                    &&& found matches Ok((bound, kind, kept))
                    &&& *bound == child
                    &&& kept == item
                    &&& self@.creations[creation] == (CreationBinding::Established {
                        route: self@.creations[creation]->route,
                        kind,
                    })
                },
                Location::Rejected => found == Err::<
                    (&BoundChild<E, C>, CreationKind, I),
                    ItemSettlement<I, A, R, u64>,
                >(ItemSettlement::Blocked { item, prerequisite: creation }),
                Location::Unknown | Location::Unbound => found == Err::<
                    (&BoundChild<E, C>, CreationKind, I),
                    ItemSettlement<I, A, R, u64>,
                >(ItemSettlement::Corrupt { item, fault: InterpreterFault::MissingCapability }),
            },
    {
        match self.creations.get(&creation) {
            None => Err(
                ItemSettlement::Corrupt { item, fault: InterpreterFault::MissingCapability },
            ),
            Some(CreationBinding::Rejected) => Err(
                ItemSettlement::Blocked { item, prerequisite: creation },
            ),
            Some(CreationBinding::Established { route, kind }) => match self.endpoints.get(route) {
                Some(bound) => Ok((bound, *kind, item)),
                None => Err(
                    ItemSettlement::Corrupt { item, fault: InterpreterFault::MissingCapability },
                ),
            },
        }
    }

    /// The tasks of the children, in order of creation. Nothing reaches the
    /// children through this occurrence any more.
    pub fn retire(self) -> (tasks: Vec<T>)
        ensures
            tasks@ == self@.tasks,
    {
        self.tasks
    }
}

/// The tasks of every occurrence, in declared order, and of each one in order
/// of creation.
pub open spec fn all_tasks<E, C, T>(occurrences: Seq<ChildBinding<E, C, T>>) -> Seq<T>
    decreases occurrences.len(),
{
    if occurrences.len() == 0 {
        Seq::empty()
    } else {
        all_tasks(occurrences.drop_last()) + occurrences.last()@.tasks
    }
}

/// The tasks that an actor has to retire before it ends, in the order in which
/// it retires them.
pub fn retire_child_tasks<E, C, T>(occurrences: Vec<ChildBinding<E, C, T>>) -> (tasks: Vec<T>)
    ensures
        tasks@ == all_tasks(occurrences@),
{
    let ghost all = occurrences@;
    let mut tasks: Vec<T> = Vec::new();
    for occurrence in iter: occurrences
        invariant
            iter.seq() == all,
            tasks@ == all_tasks(all.take(iter.index() as int)),
    {
        let ghost index = iter.index() as int;
        let ghost before = tasks@;
        let mut retired = occurrence.retire();
        tasks.append(&mut retired);
        proof {
            assert(all.take(index + 1).drop_last() =~= all.take(index));
            assert(all.take(index + 1).last() == all[index]);
            assert(tasks@ =~= before + all[index]@.tasks);
        }
    }
    proof {
        assert(all.take(all.len() as int) =~= all);
    }
    tasks
}

/// A child that was established is found by its creation, and every other
/// creation leads where it led before, unless its route was taken over.
pub proof fn law_an_established_child_is_found<E, C, T>(
    binding: BindingModel<E, C, T>,
    id: u64,
    kind: CreationKind,
    route: u64,
    child: BoundChild<E, C>,
    task: T,
    other: u64,
)
    requires
        !binding.endpoints.contains_key(route),
    ensures
        binding.established(id, kind, route, child, task).location(id) == Location::Bound(child),
        other != id && !(binding.location(other) is Unbound) ==> binding.established(
            id,
            kind,
            route,
            child,
            task,
        ).location(other) == binding.location(other),
{
}

/// A rejected creation leads nowhere, and changes nothing for any other.
pub proof fn law_a_rejected_creation_binds_nothing<E, C, T>(
    binding: BindingModel<E, C, T>,
    id: u64,
    other: u64,
)
    ensures
        binding.rejected(id).location(id) is Rejected,
        binding.rejected(id).endpoints == binding.endpoints,
        binding.rejected(id).tasks == binding.tasks,
        other != id ==> binding.rejected(id).location(other) == binding.location(other),
{
}

/// A child is found by its creation through the route that the creation
/// established: a creation that is not known, one that was rejected and one
/// whose route leads nowhere are told apart.
pub proof fn law_a_creation_leads_to_its_route<E, C, T>(
    binding: BindingModel<E, C, T>,
    creation: u64,
)
    ensures
        binding.location(creation) is Unknown <==> !binding.creations.contains_key(creation),
        binding.location(creation) is Rejected <==> (binding.creations.contains_key(creation)
            && binding.creations[creation] is Rejected),
        binding.creations.contains_key(creation) ==> (binding.creations[creation] matches
            CreationBinding::Established { route, .. } ==> binding.location(creation)
            == if binding.endpoints.contains_key(route) {
            Location::Bound(binding.endpoints[route])
        } else {
            Location::Unbound
        }),
{
}

/// Establishing a child notes its creation with its kind and route, binds the
/// route to it and keeps its task behind the others. Nothing else changes.
pub proof fn law_establishing_changes_one_creation<E, C, T>(
    binding: BindingModel<E, C, T>,
    id: u64,
    kind: CreationKind,
    route: u64,
    child: BoundChild<E, C>,
    task: T,
)
    ensures
        ({
            let after = binding.established(id, kind, route, child, task);
            &&& after.creations.contains_key(id)
            &&& after.creations[id] == (CreationBinding::Established { route, kind })
            &&& after.creations.remove(id) == binding.creations.remove(id)
            &&& after.endpoints.contains_key(route)
            &&& after.endpoints[route] == child
            &&& after.endpoints.remove(route) == binding.endpoints.remove(route)
            &&& after.tasks == binding.tasks.push(task)
        }),
        ({
            let after = binding.rejected(id);
            &&& after.creations.contains_key(id)
            &&& after.creations[id] is Rejected
            &&& after.creations.remove(id) == binding.creations.remove(id)
        }),
{
}

/// An actor retires the tasks of its children occurrence by occurrence: those of
/// a further occurrence come behind all others, in their order.
pub proof fn law_tasks_are_retired_in_declared_order<E, C, T>(
    occurrences: Seq<ChildBinding<E, C, T>>,
    further: ChildBinding<E, C, T>,
)
    ensures
        all_tasks(Seq::<ChildBinding<E, C, T>>::empty()).len() == 0,
        all_tasks(occurrences.push(further)) == all_tasks(occurrences) + further@.tasks,
{
    assert(occurrences.push(further).drop_last() =~= occurrences);
}

/// An occurrence without children knows no creation, reaches nobody and keeps no
/// task.
pub proof fn law_a_fresh_occurrence_is_empty<E, C, T>(id: u64)
    ensures
        BindingModel::<E, C, T>::empty().location(id) is Unknown,
        !BindingModel::<E, C, T>::empty().endpoints.contains_key(id),
        BindingModel::<E, C, T>::empty().tasks.len() == 0,
{
}

} // verus!
