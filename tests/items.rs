use game_core::items::{EquipSlot, Equipment, Inventory, ItemId, ItemStack};

#[test]
fn new_inventory_is_empty() {
    let inv = Inventory::new(3);
    assert_eq!(inv.max_slots, 3);
    assert_eq!(inv.items.len(), 3);
    assert!(inv.items.iter().all(|s| s.is_none()));
    assert_eq!(inv.gold, 0);
    assert!(inv.has_space());
    assert!(!Inventory::new(0).has_space());
}

#[test]
fn add_item_tops_up_then_fills_empty_slots() {
    let mut inv = Inventory::new(3);
    let potion = ItemId(100);
    assert_eq!(inv.add_item(potion, 99, 50), 0);
    assert_eq!(inv.get_item(0), Some(&ItemStack::new(potion, 50)));
    assert_eq!(inv.add_item(potion, 99, 60), 0);
    assert_eq!(inv.get_item(0), Some(&ItemStack::new(potion, 99)));
    assert_eq!(inv.get_item(1), Some(&ItemStack::new(potion, 11)));
    assert_eq!(inv.count_item(potion), 110);
    assert_eq!(inv.add_item(ItemId(1), 1, 3), 2);
    assert_eq!(inv.get_item(2), Some(&ItemStack::single(ItemId(1))));
    assert!(!inv.has_space());
    assert_eq!(inv.add_item(potion, 99, 100), 12);
    assert_eq!(inv.count_item(potion), 198);
}

#[test]
fn remove_item_whole_or_partial() {
    let mut inv = Inventory::new(2);
    inv.add_item(ItemId(7), 10, 5);
    assert_eq!(inv.remove_item(0, 2), Some(ItemStack::new(ItemId(7), 2)));
    assert_eq!(inv.get_item(0), Some(&ItemStack::new(ItemId(7), 3)));
    assert_eq!(inv.remove_item(0, 10), Some(ItemStack::new(ItemId(7), 3)));
    assert_eq!(inv.get_item(0), None);
    assert_eq!(inv.remove_item(0, 1), None);
    assert_eq!(inv.remove_item(5, 1), None);
    assert_eq!(inv.get_item(5), None);
}

#[test]
fn counting_items() {
    let mut inv = Inventory::new(4);
    inv.add_item(ItemId(1), 2, 5);
    assert_eq!(inv.count_item(ItemId(1)), 5);
    assert_eq!(inv.count_item(ItemId(2)), 0);
    assert!(inv.has_at_least(ItemId(1), 5));
    assert!(!inv.has_at_least(ItemId(1), 6));
    assert!(inv.has_at_least(ItemId(2), 0));
}

#[test]
fn gold_never_goes_negative() {
    let mut inv = Inventory::new(1);
    inv.add_gold(30);
    assert_eq!(inv.gold, 30);
    assert!(!inv.spend_gold(31));
    assert_eq!(inv.gold, 30);
    assert!(inv.spend_gold(10));
    assert_eq!(inv.gold, 20);
    inv.add_gold(-50);
    assert_eq!(inv.gold, 0);
}

#[test]
fn equipment_slots() {
    let mut eq = Equipment::new();
    assert_eq!(eq.get_equipped(EquipSlot::Weapon), None);
    assert_eq!(eq.equip(EquipSlot::Weapon, ItemId(1)), None);
    assert_eq!(eq.equip(EquipSlot::Weapon, ItemId(2)), Some(ItemId(1)));
    assert_eq!(eq.equip(EquipSlot::Helmet, ItemId(11)), None);
    assert_eq!(eq.get_equipped(EquipSlot::Weapon), Some(ItemId(2)));
    assert_eq!(eq.all_equipped(), vec![(EquipSlot::Weapon, ItemId(2)), (EquipSlot::Helmet, ItemId(11))]);
    assert_eq!(eq.unequip(EquipSlot::Weapon), Some(ItemId(2)));
    assert_eq!(eq.unequip(EquipSlot::Weapon), None);
    assert_eq!(eq.all_equipped(), vec![(EquipSlot::Helmet, ItemId(11))]);
}
