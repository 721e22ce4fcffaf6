//! Item stacks and the static records that describe them.

use vstd::prelude::*;
use vstd::string::StringExecFns;

verus! {

/// A stack of one kind of item: which item, and how many.
#[derive(Debug, Clone, Copy, PartialEq, Eq, Structural)]
pub struct Item {
    pub id: u128,
    pub quantity: u128,
}

/// Display data of one kind of item. Never changed while the game runs.
#[derive(Debug, Clone, PartialEq, Eq)]
pub struct ItemData {
    pub id: u128,
    pub name: String,
    pub description: String,
}

impl Item {
    /// A stack of `quantity` items with id `id`.
    pub fn new(id: u128, quantity: u128) -> (item: Item)
        ensures
            item == (Item { id, quantity }),
    {
        Item { id, quantity }
    }

    /// Grows the stack.
    pub fn add_quantity(&mut self, quantity: u128)
        requires
            old(self).quantity + quantity <= u128::MAX,
        ensures
            final(self).id == old(self).id,
            final(self).quantity == old(self).quantity + quantity,
    {
        self.quantity = self.quantity + quantity;
    }

    /// Shrinks the stack.
    pub fn remove_quantity(&mut self, quantity: u128)
        requires
            quantity <= old(self).quantity,
        ensures
            final(self).id == old(self).id,
            final(self).quantity == old(self).quantity - quantity,
    {
        self.quantity = self.quantity - quantity;
    }
}

impl ItemData {
    /// The record as it is shown: the name, a colon, the description.
    pub open spec fn label(self) -> Seq<char> {
        self.name@ + ": "@ + self.description@
    }

    /// The record as it is shown.
    pub fn to_string(&self) -> (label: String)
        ensures
            label@ == self.label(),
    {
        let mut label = self.name.clone();
        label.append(": ");
        label.append(self.description.as_str());
        label
    }
}

} // verus!
