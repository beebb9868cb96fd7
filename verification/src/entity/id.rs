//! Stable identities of logical entities and of their incarnations.

use core::cmp::Ordering;

use vstd::prelude::*;
use vstd::std_specs::cmp::{PartialEqSpec, PartialEqSpecImpl, PartialOrdSpec, PartialOrdSpecImpl};

use crate::nonzero::{lemma_u64_is_its_value, NonZeroU64};

verus! {

/// A stable, typed identifier for a logical entity.
///
/// The identifier is independent of any particular actor address or
/// incarnation. Its inner domain value determines equality, ordering, and
/// hashing.
#[derive(Debug, Clone, Copy, Eq, Ord, Hash)]
pub struct EntityId<T>(T);

impl<T> View for EntityId<T> {
    type V = T;

    closed spec fn view(&self) -> T {
        self.0
    }
}

impl<T: PartialEq> PartialEq for EntityId<T> {
    fn eq(&self, other: &Self) -> (equal: bool) {
        self.0 == other.0
    }
}

impl<T: PartialEq> PartialEqSpecImpl for EntityId<T> {
    open spec fn obeys_eq_spec() -> bool {
        T::obeys_eq_spec()
    }

    open spec fn eq_spec(&self, other: &Self) -> bool {
        self@.eq_spec(&other@)
    }
}

impl<T: PartialOrd> PartialOrd for EntityId<T> {
    fn partial_cmp(&self, other: &Self) -> (order: Option<Ordering>) {
        self.0.partial_cmp(&other.0)
    }
}

impl<T: PartialOrd> PartialOrdSpecImpl for EntityId<T> {
    open spec fn obeys_partial_cmp_spec() -> bool {
        T::obeys_partial_cmp_spec()
    }

    open spec fn partial_cmp_spec(&self, other: &Self) -> Option<Ordering> {
        self@.partial_cmp_spec(&other@)
    }
}

impl<T> EntityId<T> {
    /// Wrap a domain identifier as an entity identifier.
    pub fn new(value: T) -> (id: Self)
        ensures
            id@ == value,
    {
        EntityId(value)
    }

    /// Borrow the domain identifier.
    pub fn get(&self) -> (value: &T)
        ensures
            *value == self@,
    {
        &self.0
    }

    /// Return the wrapped domain identifier.
    pub fn into_inner(self) -> (value: T)
        ensures
            value == self@,
    {
        self.0
    }

    /// The domain identifier in words.
    pub fn to_string(&self) -> (text: String) where T: core::fmt::Display
        ensures
            vstd::string::to_string_from_display_ensures::<T>(&self@, text),
    {
        self.0.to_string()
    }
}

/// Two identifiers with one domain value are one identifier.
pub proof fn law_identity_is_the_domain_value<T>(a: EntityId<T>, b: EntityId<T>)
    ensures
        a@ == b@ <==> a == b,
{
}

/// Whether equality of such values is what it is specified to be.
pub open spec fn equates<T: PartialEq>() -> bool {
    T::obeys_eq_spec()
}

/// Whether the order of such values is what it is specified to be.
pub open spec fn orders<T: PartialOrd>() -> bool {
    T::obeys_partial_cmp_spec()
}

/// Identifiers are equal when their domain values are.
pub proof fn law_equality_is_that_of_the_domain_value<T: PartialEq>(a: EntityId<T>, b: EntityId<T>)
    ensures
        PartialEqSpec::eq_spec(&a, &b) == a@.eq_spec(&b@),
        equates::<EntityId<T>>() == equates::<T>(),
{
}

/// Identifiers are ordered as their domain values are.
pub proof fn law_order_is_that_of_the_domain_value<T: PartialOrd>(a: EntityId<T>, b: EntityId<T>)
    ensures
        PartialOrdSpec::partial_cmp_spec(&a, &b) == a@.partial_cmp_spec(&b@),
        orders::<EntityId<T>>() == orders::<T>(),
{
}

/// Identity of one activation attempt and of the incarnation it produces.
#[derive(Debug, Clone, Copy, PartialEq, Eq, PartialOrd, Ord, Hash, Structural)]
pub struct ActivationId(NonZeroU64);

impl View for ActivationId {
    type V = u64;

    closed spec fn view(&self) -> u64 {
        self.0@
    }
}

impl ActivationId {
    /// The activation with this sequence number.
    pub fn new(sequence: NonZeroU64) -> (id: Self)
        ensures
            id@ == sequence@,
    {
        ActivationId(sequence)
    }

    /// The sequence number of this activation.
    pub fn get(self) -> (sequence: NonZeroU64)
        ensures
            sequence@ == self@,
    {
        self.0
    }
}

/// Identity of one dispatched command.
#[derive(Debug, Clone, Copy, PartialEq, Eq, PartialOrd, Ord, Hash, Structural)]
pub struct DispatchId(NonZeroU64);

impl View for DispatchId {
    type V = u64;

    closed spec fn view(&self) -> u64 {
        self.0@
    }
}

impl DispatchId {
    /// The dispatch with this sequence number.
    pub fn new(sequence: NonZeroU64) -> (id: Self)
        ensures
            id@ == sequence@,
    {
        DispatchId(sequence)
    }

    /// The sequence number of this dispatch.
    pub fn get(self) -> (sequence: NonZeroU64)
        ensures
            sequence@ == self@,
    {
        self.0
    }
}

/// An activation is known by its sequence number.
pub proof fn law_activation_is_its_sequence(a: ActivationId, b: ActivationId)
    ensures
        a@ == b@ <==> a == b,
{
    lemma_u64_is_its_value(a.0, b.0);
}

/// A dispatch is known by its sequence number.
pub proof fn law_dispatch_is_its_sequence(a: DispatchId, b: DispatchId)
    ensures
        a@ == b@ <==> a == b,
{
    lemma_u64_is_its_value(a.0, b.0);
}

} // verus!
