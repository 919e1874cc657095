use potat::inventory::Inventory;
use potat::inventory::Item;
use potat::stat::Stat;

#[test]
fn fresh_inventory_holds_five_cans_of_beans() {
    let inv = Inventory::new();
    assert_eq!(inv.count(Item::CanOfBeans), 5);
    assert_eq!(inv.count(Item::Seeds), 0);
    assert!(inv.has_items());
    let shown = inv.items();
    assert_eq!(shown.len(), 1);
    assert_eq!(shown[0], (Item::CanOfBeans, 5));
}

#[test]
fn add_and_try_remove_keep_counts_consistent() {
    let mut inv = Inventory::new();
    inv.add(Item::Seeds, 3);
    assert_eq!(inv.count(Item::Seeds), 3);
    inv.add(Item::Seeds, 2);
    assert_eq!(inv.count(Item::Seeds), 5);
    assert!(inv.try_remove(Item::Seeds, 4));
    assert_eq!(inv.count(Item::Seeds), 1);
    assert!(inv.try_remove(Item::Seeds, 1));
    assert_eq!(inv.count(Item::Seeds), 0);
    // the depleted entry is gone, not present with count zero
    for (item, count) in inv.items() {
        assert!(item != Item::Seeds);
        assert!(count > 0);
    }
}

#[test]
fn try_remove_fails_atomically_when_short() {
    let mut inv = Inventory::new();
    inv.add(Item::CookedPotato, 2);
    assert!(!inv.try_remove(Item::CookedPotato, 3));
    assert_eq!(inv.count(Item::CookedPotato), 2);
    assert!(!inv.try_remove(Item::Gun, 1));
}

#[test]
fn remove_clamps_to_zero_without_reporting() {
    let mut inv = Inventory::new();
    inv.add(Item::Seeds, 3);
    inv.remove(Item::Seeds, 10);
    assert_eq!(inv.count(Item::Seeds), 0);
    inv.remove(Item::Gun, 1);
    assert_eq!(inv.count(Item::Gun), 0);
}

#[test]
fn cook_all_merges_both_raw_kinds_into_cooked() {
    let mut inv = Inventory::new();
    inv.add(Item::RawPotato, 2);
    inv.add(Item::RawPotatoBlight, 3);
    inv.add(Item::CookedPotato, 1);
    inv.cook_all();
    assert_eq!(inv.count(Item::RawPotato), 0);
    assert_eq!(inv.count(Item::RawPotatoBlight), 0);
    assert_eq!(inv.count(Item::CookedPotato), 6);
    assert_eq!(inv.count(Item::CanOfBeans), 5);
}

#[test]
fn cook_all_with_no_raw_stock_changes_nothing() {
    let mut inv = Inventory::new();
    inv.add(Item::CookedPotato, 4);
    inv.cook_all();
    assert_eq!(inv.count(Item::CookedPotato), 4);
    assert_eq!(inv.count(Item::CanOfBeans), 5);
}

#[test]
fn remove_edible_prefers_cooked_potato_over_beans() {
    let mut inv = Inventory::new();
    inv.add(Item::CookedPotato, 1);
    assert!(inv.remove_edible());
    assert_eq!(inv.count(Item::CookedPotato), 0);
    assert_eq!(inv.count(Item::CanOfBeans), 5);
    assert!(inv.remove_edible());
    assert_eq!(inv.count(Item::CanOfBeans), 4);
}

#[test]
fn remove_edible_reports_starvation() {
    let mut inv = Inventory::new();
    inv.remove(Item::CanOfBeans, 5);
    assert!(!inv.remove_edible());
    assert!(!inv.has_items());
}

#[test]
fn has_edibles_and_cookables_reflect_stock() {
    let mut inv = Inventory::new();
    assert!(!inv.has_edibles());
    assert!(!inv.has_cookables());
    inv.add(Item::CookedPotato, 1);
    assert!(inv.has_edibles());
    inv.add(Item::RawPotatoBlight, 1);
    assert!(inv.has_cookables());
}

#[test]
fn display_folds_blighted_stock_into_the_raw_bucket() {
    let mut inv = Inventory::new();
    inv.add(Item::RawPotato, 2);
    inv.add(Item::RawPotatoBlight, 3);
    let shown = inv.items();
    assert_eq!(shown, vec![(Item::CanOfBeans, 5), (Item::RawPotato, 5)]);
}

#[test]
fn display_shows_blighted_stock_as_raw_when_clean_is_exhausted() {
    let mut inv = Inventory::new();
    inv.add(Item::RawPotatoBlight, 3);
    let shown = inv.items();
    assert_eq!(shown, vec![(Item::CanOfBeans, 5), (Item::RawPotato, 3)]);
}

#[test]
fn item_names_hide_contamination() {
    assert_eq!(Item::RawPotato.name(), "Raw potato");
    assert_eq!(Item::RawPotatoBlight.name(), "Raw potato");
    assert_eq!(Item::Seeds.name(), "Potato seeds");
    assert_eq!(Item::CanOfBeans.name_one(), "can of beans");
    assert_eq!(Item::CookedPotato.name_multiple(), "cooked potatos");
    assert_eq!(Item::Gun.name(), "Gun");
}

#[test]
fn stat_add_saturates_at_max() {
    let mut s = Stat::new(50);
    s.subn(20);
    assert_eq!(s.current, 30);
    s.add(100);
    assert_eq!(s.current, 50);
    assert!(s.is_max());
}

#[test]
fn stat_subn_saturates_at_zero_and_reports_running_out() {
    let mut s = Stat::new(10);
    assert!(s.subn(4));
    assert_eq!(s.current, 6);
    // draining exactly to zero counts as running out
    assert!(!s.subn(6));
    assert_eq!(s.current, 0);
    assert!(!s.subn(1));
    assert_eq!(s.current, 0);
}

#[test]
fn stat_can_add_reports_headroom() {
    let mut s = Stat::new(10);
    assert_eq!(s.can_add(3), None);
    s.subn(4);
    assert_eq!(s.can_add(3), Some(3));
    assert_eq!(s.can_add(9), Some(4));
}
