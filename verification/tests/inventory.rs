use idle_game::error::GameError;
use idle_game::inventory::Inventory;
use idle_game::item::{Item, ItemData};

#[test]
fn new_inventory_is_empty() {
    let inventory = Inventory::new();
    assert_eq!(inventory.gold, 0);
    assert_eq!(inventory.items.len(), 0);
    assert_eq!(inventory.get_item_quantity(1), 0);
    assert_eq!(inventory.get_item(Item::new(1, 0)), None);
}

#[test]
fn add_item_makes_a_stack_and_grows_it() {
    let mut inventory = Inventory::new();
    inventory.add_item(&Item::new(7, 3));
    assert_eq!(inventory.items.len(), 1);
    assert_eq!(inventory.items[&7], Item { id: 7, quantity: 3 });
    inventory.add_item(&Item::new(7, 4));
    inventory.add_item(&Item::new(9, 1));
    assert_eq!(inventory.items.len(), 2);
    assert_eq!(inventory.get_item_quantity(7), 7);
    assert_eq!(inventory.get_item_quantity(9), 1);
    assert_eq!(inventory.get_item(Item::new(7, 100)), Some(&Item { id: 7, quantity: 7 }));
    assert_eq!(inventory.gold, 0);
}

#[test]
fn adding_nothing_makes_no_stack() {
    let mut inventory = Inventory::new();
    inventory.add_item(&Item::new(7, 0));
    assert_eq!(inventory.items.len(), 0);
    inventory.add_item(&Item::new(7, 2));
    inventory.add_item(&Item::new(7, 0));
    assert_eq!(inventory.items[&7].quantity, 2);
}

#[test]
fn remove_item_shrinks_the_stack() {
    let mut inventory = Inventory::new();
    inventory.add_item(&Item::new(7, 5));
    assert_eq!(inventory.remove_item(Item::new(7, 2)), Ok(()));
    assert_eq!(inventory.get_item_quantity(7), 3);
    assert_eq!(inventory.items.len(), 1);
}

#[test]
fn removing_all_that_is_held_deletes_the_stack() {
    let mut inventory = Inventory::new();
    inventory.add_item(&Item::new(7, 5));
    inventory.add_item(&Item::new(8, 1));
    assert_eq!(inventory.remove_item(Item::new(7, 5)), Ok(()));
    assert!(!inventory.items.contains_key(&7));
    assert_eq!(inventory.items.len(), 1);
    assert_eq!(inventory.get_item_quantity(7), 0);
    assert!(inventory.items.values().all(|stack| stack.quantity > 0));
}

#[test]
fn removing_more_than_is_held_fails_and_changes_nothing() {
    let mut inventory = Inventory::new();
    inventory.add_item(&Item::new(7, 5));
    assert_eq!(
        inventory.remove_item(Item::new(7, 6)),
        Err(GameError::InsufficientItems { id: 7, held: 5 })
    );
    assert_eq!(inventory.get_item_quantity(7), 5);
}

#[test]
fn removing_what_is_not_held_fails() {
    let mut inventory = Inventory::new();
    assert_eq!(
        inventory.remove_item(Item::new(7, 1)),
        Err(GameError::ItemNotFound { id: 7 })
    );
    assert_eq!(
        inventory.remove_item(Item::new(7, 0)),
        Err(GameError::ItemNotFound { id: 7 })
    );
    assert_eq!(inventory.items.len(), 0);
}

#[test]
fn removing_nothing_from_a_stack_leaves_it() {
    let mut inventory = Inventory::new();
    inventory.add_item(&Item::new(7, 5));
    assert_eq!(inventory.remove_item(Item::new(7, 0)), Ok(()));
    assert_eq!(inventory.get_item_quantity(7), 5);
}

#[test]
fn try_add_item_refuses_what_the_counter_cannot_hold() {
    let mut inventory = Inventory::new();
    assert_eq!(inventory.try_add_item(&Item::new(7, u128::MAX - 1)), Ok(()));
    assert_eq!(inventory.try_add_item(&Item::new(7, 1)), Ok(()));
    assert_eq!(inventory.get_item_quantity(7), u128::MAX);
    assert_eq!(
        inventory.try_add_item(&Item::new(7, 1)),
        Err(GameError::QuantityOverflow { id: 7 })
    );
    assert_eq!(inventory.try_add_item(&Item::new(7, 0)), Ok(()));
    assert_eq!(inventory.get_item_quantity(7), u128::MAX);
}

#[test]
fn try_add_items_stops_at_the_first_that_does_not_fit() {
    let mut inventory = Inventory::new();
    inventory.add_item(&Item::new(2, u128::MAX));
    let items = vec![Item::new(1, 4), Item::new(2, 1), Item::new(3, 9)];
    assert_eq!(
        inventory.try_add_items(&items),
        Err(GameError::QuantityOverflow { id: 2 })
    );
    assert_eq!(inventory.get_item_quantity(1), 4);
    assert_eq!(inventory.get_item_quantity(2), u128::MAX);
    assert_eq!(inventory.get_item_quantity(3), 0);
    assert_eq!(inventory.try_add_items(&vec![Item::new(1, 1), Item::new(1, 2)]), Ok(()));
    assert_eq!(inventory.get_item_quantity(1), 7);
}

#[test]
fn gold_goes_in_and_out() {
    let mut inventory = Inventory::new();
    inventory.add_gold(100);
    inventory.add_gold(20);
    assert_eq!(inventory.gold, 120);
    assert_eq!(inventory.remove_gold(50), Ok(()));
    assert_eq!(inventory.gold, 70);
    assert_eq!(inventory.remove_gold(71), Err(GameError::InsufficientGold));
    assert_eq!(inventory.gold, 70);
    assert_eq!(inventory.remove_gold(70), Ok(()));
    assert_eq!(inventory.gold, 0);
    assert_eq!(inventory.items.len(), 0);
}

#[test]
fn item_quantity_goes_up_and_down() {
    let mut item = Item::new(4, 10);
    assert_eq!(item, Item { id: 4, quantity: 10 });
    item.add_quantity(5);
    assert_eq!(item.quantity, 15);
    item.remove_quantity(15);
    assert_eq!((item.id, item.quantity), (4, 0));
}

#[test]
fn item_data_as_shown() {
    let data = ItemData {
        id: 1,
        name: "Wood".to_string(),
        description: "A log".to_string(),
    };
    assert_eq!(data.to_string(), "Wood: A log");
}
