//! What an interpreter makes of one action of an actor.

use vstd::prelude::*;

verus! {

/// A violation of the interpreter's own contract.
#[derive(Debug, Clone, Copy, PartialEq, Eq, Structural)]
pub enum InterpreterFault {
    /// The capability that the item needs is not there.
    MissingCapability,
    /// The items were not attempted in order.
    CorruptTraversal,
}

/// The settlement of one action item. `P` names what had to come first.
#[derive(Debug)]
pub enum ItemSettlement<Item, Accepted, Rejection, P> {
    /// The capability consumed the item and returned its receipt.
    Accepted(Accepted),
    /// The capability lawfully rejected the complete item.
    Rejected { item: Item, reason: Rejection },
    /// A declared prerequisite did not commit, so the item remains untouched.
    Blocked { item: Item, prerequisite: P },
    /// The interpreter violated its contract while the item remained owned.
    Corrupt { item: Item, fault: InterpreterFault },
}

impl<Item, Accepted, Rejection, P> ItemSettlement<Item, Accepted, Rejection, P> {
    /// The item, unless the capability consumed it.
    pub open spec fn returned(self) -> Option<Item> {
        match self {
            ItemSettlement::Accepted(_) => None,
            ItemSettlement::Rejected { item, .. } => Some(item),
            ItemSettlement::Blocked { item, .. } => Some(item),
            ItemSettlement::Corrupt { item, .. } => Some(item),
        }
    }

    /// The item, unless the capability consumed it.
    pub fn into_item(self) -> (item: Option<Item>)
        ensures
            item == self.returned(),
    {
        match self {
            ItemSettlement::Accepted(_) => None,
            ItemSettlement::Rejected { item, .. } => Some(item),
            ItemSettlement::Blocked { item, .. } => Some(item),
            ItemSettlement::Corrupt { item, .. } => Some(item),
        }
    }
}

/// An item comes back whole unless the capability consumed it.
pub proof fn law_an_item_is_consumed_or_comes_back<Item, Accepted, Rejection, P>(
    settlement: ItemSettlement<Item, Accepted, Rejection, P>,
)
    ensures
        settlement.returned() is None <==> settlement is Accepted,
        settlement matches ItemSettlement::Rejected { item, .. } ==> settlement.returned()
            == Some(item),
        settlement matches ItemSettlement::Blocked { item, .. } ==> settlement.returned()
            == Some(item),
        settlement matches ItemSettlement::Corrupt { item, .. } ==> settlement.returned()
            == Some(item),
{
}

} // verus!
