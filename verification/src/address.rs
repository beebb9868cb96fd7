//! Addresses of one application and their allocation.

use vstd::prelude::*;
use vstd::std_specs::convert::{FromSpec, FromSpecImpl};

verus! {

/// One logical address in the local runtime.
///
/// The value is a runtime identity. Creator-local child nonces are correlation
/// values and are never converted into addresses. Every local actor gets its
/// address from one application source.
#[derive(Debug, Clone, Copy, PartialEq, Eq, PartialOrd, Ord, Hash, Structural)]
pub struct MailAddr(pub u64);

impl MailAddr {
    /// The address reserved for the one local application root.
    pub open spec fn root() -> MailAddr {
        MailAddr(0)
    }

    /// The address reserved for the one local application root.
    pub fn application_root() -> (root: Self)
        ensures
            root == MailAddr::root(),
            root == MailAddr(0),
    {
        MailAddr(0)
    }
}

impl From<u64> for MailAddr {
    fn from(value: u64) -> (address: Self) {
        MailAddr(value)
    }
}

impl FromSpecImpl<u64> for MailAddr {
    open spec fn obeys_from_spec() -> bool {
        true
    }

    open spec fn from_spec(value: u64) -> Self {
        MailAddr(value)
    }
}

impl From<MailAddr> for u64 {
    fn from(address: MailAddr) -> (value: Self) {
        address.0
    }
}

impl FromSpecImpl<MailAddr> for u64 {
    open spec fn obeys_from_spec() -> bool {
        true
    }

    open spec fn from_spec(address: MailAddr) -> Self {
        address.0
    }
}

/// Why no address could be had.
#[derive(Debug, Clone, Copy, PartialEq, Eq, Structural)]
pub enum AllocationRejection {
    /// The source has handed out every address.
    Exhausted,
    /// Somebody else holds the address.
    AddressAlreadyClaimed,
}

/// One never-wrapping address source shared by a complete local application.
#[derive(Debug)]
pub struct ApplicationAddresses {
    next: u64,
}

impl View for ApplicationAddresses {
    type V = u64;

    /// The address that is handed out next.
    closed spec fn view(&self) -> u64 {
        self.next
    }
}

impl ApplicationAddresses {
    /// A source that starts behind the root.
    pub fn new() -> (addresses: Self)
        ensures
            addresses@ == 1,
    {
        ApplicationAddresses::from_next(1)
    }

    /// A source that starts at `next`.
    pub fn from_next(next: u64) -> (addresses: Self)
        ensures
            addresses@ == next,
    {
        ApplicationAddresses { next }
    }

    /// Hand out the next address. The last one is never handed out, so that the
    /// source neither wraps nor recovers.
    pub fn allocate(&mut self) -> (allocated: Result<MailAddr, AllocationRejection>)
        ensures
            allocated == allocation(old(self)@),
            final(self)@ == after_allocation(old(self)@),
    {
        match self.next.checked_add(1) {
            Some(next) => {
                let address = MailAddr(self.next);
                self.next = next;
                Ok(address)
            },
            None => Err(AllocationRejection::Exhausted),
        }
    }
}

/// What a source whose next address is `next` answers.
pub open spec fn allocation(next: u64) -> Result<MailAddr, AllocationRejection> {
    if next < u64::MAX {
        Ok(MailAddr(next))
    } else {
        Err(AllocationRejection::Exhausted)
    }
}

/// The next address of a source that has answered.
pub open spec fn after_allocation(next: u64) -> u64 {
    if next < u64::MAX {
        (next + 1) as u64
    } else {
        next
    }
}

/// The next address of a source that has answered `count` times.
pub open spec fn after_allocations(next: u64, count: nat) -> u64
    decreases count,
{
    if count == 0 {
        next
    } else {
        after_allocation(after_allocations(next, (count - 1) as nat))
    }
}

proof fn lemma_after_allocations(next: u64, count: nat)
    ensures
        after_allocations(next, count) == if next + count <= u64::MAX {
            next + count
        } else {
            u64::MAX as int
        },
    decreases count,
{
    if count > 0 {
        lemma_after_allocations(next, (count - 1) as nat);
    }
}

/// No address is handed out twice: two answers of one source that give an
/// address give different ones, and the later one is larger.
pub proof fn law_addresses_are_unique_and_increase(next: u64, first: nat, second: nat)
    requires
        first < second,
        allocation(after_allocations(next, second)) is Ok,
    ensures
        allocation(after_allocations(next, first)) is Ok,
        allocation(after_allocations(next, first))->Ok_0.0 < allocation(
            after_allocations(next, second),
        )->Ok_0.0,
{
    lemma_after_allocations(next, first);
    lemma_after_allocations(next, second);
}

/// A source that starts behind the root never hands out the root's address.
pub proof fn law_the_root_is_never_allocated(next: u64, count: nat)
    requires
        next >= 1,
    ensures
        allocation(after_allocations(next, count)) != Ok::<MailAddr, AllocationRejection>(
            MailAddr::root(),
        ),
{
    lemma_after_allocations(next, count);
}

/// A source that is exhausted stays exhausted.
pub proof fn law_exhaustion_is_permanent(next: u64, count: nat, later: nat)
    requires
        allocation(after_allocations(next, count)) is Err,
        count <= later,
    ensures
        allocation(after_allocations(next, later)) == Err::<MailAddr, AllocationRejection>(
            AllocationRejection::Exhausted,
        ),
{
    lemma_after_allocations(next, count);
    lemma_after_allocations(next, later);
}

/// A source hands out its addresses one after the other, each as it comes, and
/// only the last address of all is never handed out.
pub proof fn law_addresses_are_consecutive(next: u64)
    ensures
        next < u64::MAX ==> allocation(next) == Ok::<MailAddr, AllocationRejection>(MailAddr(next))
            && after_allocation(next) == next + 1,
        next == u64::MAX ==> allocation(next) == Err::<MailAddr, AllocationRejection>(
            AllocationRejection::Exhausted,
        ) && after_allocation(next) == next,
        MailAddr::root().0 == 0,
{
}

/// An address is its number: converting one to the other and back changes
/// nothing, and no two numbers are one address.
pub proof fn law_an_address_is_its_number(value: u64, address: MailAddr)
    ensures
        <MailAddr as FromSpec<u64>>::obeys_from_spec(),
        <u64 as FromSpec<MailAddr>>::obeys_from_spec(),
        <MailAddr as FromSpec<u64>>::from_spec(value).0 == value,
        <u64 as FromSpec<MailAddr>>::from_spec(address) == address.0,
{
}

} // verus!
