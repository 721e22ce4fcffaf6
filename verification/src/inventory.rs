//! The inventory: gold, and stacks of items kept by item id.

use vstd::prelude::*;
use std::collections::HashMap;
use crate::error::{report, GameError};
use crate::item::Item;

verus! {

broadcast use vstd::std_specs::hash::group_hash_axioms;

/// What a player owns.
#[derive(Debug, Clone, PartialEq)]
pub struct Inventory {
    pub gold: u128,
    pub items: HashMap<u128, Item>,
}

/// How many of item `id` the stock holds: nothing where it has no stack.
pub open spec fn quantity_in(stock: Map<u128, Item>, id: u128) -> nat {
    if stock.contains_key(id) {
        stock[id].quantity as nat
    } else {
        0
    }
}

/// Every stack is kept under its own id and none is empty.
pub open spec fn stock_is_tidy(stock: Map<u128, Item>) -> bool {
    forall|id: u128| #[trigger]
        stock.contains_key(id) ==> stock[id].id == id && stock[id].quantity > 0
}

/// The counter of the stack can take `item` on top of what it holds.
pub open spec fn stock_can_take(stock: Map<u128, Item>, item: Item) -> bool {
    quantity_in(stock, item.id) + item.quantity <= u128::MAX
}

/// The stock after `item` went in: its stack has grown, or is new. Adding
/// nothing changes nothing.
pub open spec fn stock_with(stock: Map<u128, Item>, item: Item) -> Map<u128, Item> {
    if item.quantity == 0 {
        stock
    } else if stock.contains_key(item.id) {
        stock.insert(
            item.id,
            Item { quantity: (stock[item.id].quantity + item.quantity) as u128, ..stock[item.id] },
        )
    } else {
        stock.insert(item.id, item)
    }
}

/// The stock holds a stack of the item that is at least as large as `item`.
pub open spec fn stock_covers(stock: Map<u128, Item>, item: Item) -> bool {
    stock.contains_key(item.id) && stock[item.id].quantity >= item.quantity
}

/// The stock after `item` went out of a stack that covers it: the stack has
/// shrunk, or is gone where all of it went.
pub open spec fn stock_without(stock: Map<u128, Item>, item: Item) -> Map<u128, Item> {
    if stock[item.id].quantity == item.quantity {
        stock.remove(item.id)
    } else {
        stock.insert(
            item.id,
            Item { quantity: (stock[item.id].quantity - item.quantity) as u128, ..stock[item.id] },
        )
    }
}

/// The stock after each item in turn went in. The first item whose stack
/// cannot take it stops the run; those before it stay in.
pub open spec fn stock_after_grants(stock: Map<u128, Item>, items: Seq<Item>) -> (
    Map<u128, Item>,
    Option<GameError>,
)
    decreases items.len(),
{
    if items.len() == 0 {
        (stock, None)
    } else if !stock_can_take(stock, items[0]) {
        (stock, Some(GameError::QuantityOverflow { id: items[0].id }))
    } else {
        stock_after_grants(stock_with(stock, items[0]), items.drop_first())
    }
}

/// Putting an item in raises the count of that item by its quantity and
/// leaves every other count alone; a tidy stock stays tidy.
pub proof fn lemma_stock_with_counts(stock: Map<u128, Item>, item: Item)
    requires
        stock_can_take(stock, item),
    ensures
        quantity_in(stock_with(stock, item), item.id) == quantity_in(stock, item.id)
            + item.quantity,
        forall|id: u128|
            id != item.id ==> #[trigger] quantity_in(stock_with(stock, item), id) == quantity_in(
                stock,
                id,
            ),
        stock_is_tidy(stock) ==> stock_is_tidy(stock_with(stock, item)),
{
}

/// Taking an item out lowers the count of that item by its quantity, leaves
/// every other count alone, and never leaves an empty stack at its id: taking
/// all that is held removes the stack.
pub proof fn lemma_stock_without_counts(stock: Map<u128, Item>, item: Item)
    requires
        stock_covers(stock, item),
    ensures
        quantity_in(stock_without(stock, item), item.id) == quantity_in(stock, item.id)
            - item.quantity,
        forall|id: u128|
            id != item.id ==> #[trigger] quantity_in(stock_without(stock, item), id)
                == quantity_in(stock, id),
        stock_without(stock, item).contains_key(item.id) ==> stock_without(
            stock,
            item,
        )[item.id].quantity > 0,
        stock[item.id].quantity == item.quantity ==> !stock_without(stock, item).contains_key(
            item.id,
        ),
        stock_is_tidy(stock) ==> stock_is_tidy(stock_without(stock, item)),
{
}

/// How many of item `id` the `items` hold between them.
pub open spec fn yield_of(items: Seq<Item>, id: u128) -> nat
    decreases items.len(),
{
    if items.len() == 0 {
        0
    } else {
        (if items[0].id == id {
            items[0].quantity as nat
        } else {
            0
        }) + yield_of(items.drop_first(), id)
    }
}

/// Where all of `items` went in, the count of every item has risen by what
/// `items` hold of it; a tidy stock stays tidy, however far the run came.
pub proof fn lemma_stock_after_grants_counts(stock: Map<u128, Item>, items: Seq<Item>)
    ensures
        stock_after_grants(stock, items).1 is None ==> forall|id: u128|
            #[trigger] quantity_in(stock_after_grants(stock, items).0, id) == quantity_in(
                stock,
                id,
            ) + yield_of(items, id),
        stock_is_tidy(stock) ==> stock_is_tidy(stock_after_grants(stock, items).0),
    decreases items.len(),
{
    if items.len() > 0 && stock_can_take(stock, items[0]) {
        lemma_stock_with_counts(stock, items[0]);
        lemma_stock_after_grants_counts(stock_with(stock, items[0]), items.drop_first());
    }
}

impl Inventory {
    /// Every stack is kept under its own id and none is empty.
    pub open spec fn wf(self) -> bool {
        stock_is_tidy(self.items@)
    }

    /// How many of item `id` are held.
    pub open spec fn quantity_of(self, id: u128) -> nat {
        quantity_in(self.items@, id)
    }

    /// An inventory without gold and without items.
    pub fn new() -> (inventory: Inventory)
        ensures
            inventory.gold == 0,
            inventory.items@ == Map::<u128, Item>::empty(),
            inventory.wf(),
    {
        Inventory { gold: 0, items: HashMap::new() }
    }

    /// Puts `item` in, unless its stack would outgrow its counter: then
    /// nothing changes.
    pub fn try_add_item(&mut self, item: &Item) -> (result: Result<(), GameError>)
        ensures
            final(self).gold == old(self).gold,
            stock_can_take(old(self).items@, *item) ==> result is Ok && final(self).items@
                == stock_with(old(self).items@, *item),
            !stock_can_take(old(self).items@, *item) ==> final(self).items@ == old(self).items@
                && result == Err::<(), GameError>(GameError::QuantityOverflow { id: item.id }),
            old(self).wf() ==> final(self).wf(),
    {
        let held: Option<Item> = match self.items.get(&item.id) {
            Some(stack) => Some(*stack),
            None => None,
        };
        match held {
            Some(stack) => {
                if stack.quantity > u128::MAX - item.quantity {
                    return Err(GameError::QuantityOverflow { id: item.id });
                }
                if item.quantity > 0 {
                    self.items.insert(
                        item.id,
                        Item { id: stack.id, quantity: stack.quantity + item.quantity },
                    );
                }
            },
            None => {
                if item.quantity > 0 {
                    self.items.insert(item.id, *item);
                }
            },
        }
        proof {
            lemma_stock_with_counts(old(self).items@, *item);
        }
        Ok(())
    }

    /// Puts each of `items` in, in order. The first whose stack cannot take
    /// it stops the run with its error; those before it stay in.
    pub fn try_add_items(&mut self, items: &Vec<Item>) -> (result: Result<(), GameError>)
        ensures
            ({
                let (filled, overflowed) = stock_after_grants(old(self).items@, items@);
                final(self).items@ == filled && result == report(overflowed)
            }),
            final(self).gold == old(self).gold,
            old(self).wf() ==> final(self).wf(),
    {
        let count: usize = items.len();
        let mut next: usize = 0;
        assert(items@.subrange(0, count as int) =~= items@);
        while next < count
            invariant
                next <= count,
                count == items@.len(),
                self.gold == old(self).gold,
                stock_after_grants(self.items@, items@.subrange(next as int, count as int))
                    == stock_after_grants(old(self).items@, items@),
                old(self).wf() ==> self.wf(),
            decreases count - next,
        {
            assert(items@.subrange(next as int, count as int).drop_first() =~= items@.subrange(
                next + 1,
                count as int,
            ));
            match self.try_add_item(&items[next]) {
                Ok(()) => {},
                Err(error) => {
                    return Err(error);
                },
            }
            next = next + 1;
        }
        Ok(())
    }

    /// Puts `item` in: its stack grows by the item's quantity, or a new stack
    /// is made where there was none.
    pub fn add_item(&mut self, item: &Item)
        requires
            stock_can_take(old(self).items@, *item),
        ensures
            final(self).gold == old(self).gold,
            final(self).items@ == stock_with(old(self).items@, *item),
            final(self).quantity_of(item.id) == old(self).quantity_of(item.id) + item.quantity,
            forall|id: u128|
                id != item.id ==> #[trigger] final(self).quantity_of(id) == old(self).quantity_of(
                    id,
                ),
            old(self).wf() ==> final(self).wf(),
    {
        let _ = self.try_add_item(item);
        proof {
            lemma_stock_with_counts(old(self).items@, *item);
        }
    }

    /// Takes `item` out. Fails, and changes nothing, where no stack of the item
    /// is held or the stack is smaller than `item`. A stack that is used up is
    /// removed, so none is ever left empty.
    pub fn remove_item(&mut self, item: Item) -> (result: Result<(), GameError>)
        ensures
            final(self).gold == old(self).gold,
            result is Ok <==> stock_covers(old(self).items@, item),
            result is Ok ==> final(self).items@ == stock_without(old(self).items@, item),
            result is Err ==> final(self).items@ == old(self).items@,
            !old(self).items@.contains_key(item.id) ==> result == Err::<(), GameError>(
                GameError::ItemNotFound { id: item.id },
            ),
            old(self).items@.contains_key(item.id) && !stock_covers(old(self).items@, item)
                ==> result == Err::<(), GameError>(
                GameError::InsufficientItems {
                    id: item.id,
                    held: old(self).items@[item.id].quantity,
                },
            ),
            result is Ok ==> final(self).quantity_of(item.id) == old(self).quantity_of(item.id)
                - item.quantity,
            result is Ok && final(self).items@.contains_key(item.id)
                ==> final(self).items@[item.id].quantity > 0,
            result is Ok && old(self).items@[item.id].quantity == item.quantity
                ==> !final(self).items@.contains_key(item.id),
            old(self).wf() ==> final(self).wf(),
    {
        let held: Option<Item> = match self.items.get(&item.id) {
            Some(stack) => Some(*stack),
            None => None,
        };
        match held {
            Some(stack) => {
                if stack.quantity > item.quantity {
                    self.items.insert(
                        item.id,
                        Item { id: stack.id, quantity: stack.quantity - item.quantity },
                    );
                    proof {
                        lemma_stock_without_counts(old(self).items@, item);
                    }
                    Ok(())
                } else if stack.quantity == item.quantity {
                    self.items.remove(&item.id);
                    proof {
                        lemma_stock_without_counts(old(self).items@, item);
                    }
                    Ok(())
                } else {
                    Err(GameError::InsufficientItems { id: item.id, held: stack.quantity })
                }
            },
            None => Err(GameError::ItemNotFound { id: item.id }),
        }
    }

    /// The stack of the item with the id of `item`, if one is held.
    pub fn get_item(&self, item: Item) -> (stack: Option<&Item>)
        ensures
            match stack {
                Some(held) => self.items@.contains_key(item.id) && *held == self.items@[item.id],
                None => !self.items@.contains_key(item.id),
            },
    {
        self.items.get(&item.id)
    }

    /// How many of item `id` are held: zero where there is no stack.
    pub fn get_item_quantity(&self, id: u128) -> (quantity: u128)
        ensures
            quantity == self.quantity_of(id),
    {
        match self.items.get(&id) {
            Some(stack) => stack.quantity,
            None => 0,
        }
    }

    /// Adds `amount` of gold.
    pub fn add_gold(&mut self, amount: u128)
        requires
            old(self).gold + amount <= u128::MAX,
        ensures
            final(self).gold == old(self).gold + amount,
            final(self).items@ == old(self).items@,
    {
        self.gold = self.gold + amount;
    }

    /// Pays `amount` of gold. Fails, and changes nothing, where less is held.
    pub fn remove_gold(&mut self, amount: u128) -> (result: Result<(), GameError>)
        ensures
            final(self).items@ == old(self).items@,
            old(self).gold >= amount ==> result is Ok && final(self).gold == old(self).gold
                - amount,
            old(self).gold < amount ==> final(self).gold == old(self).gold && result == Err::<
                (),
                GameError,
            >(GameError::InsufficientGold),
    {
        if self.gold >= amount {
            self.gold = self.gold - amount;
            Ok(())
        } else {
            Err(GameError::InsufficientGold)
        }
    }
}

} // verus!
