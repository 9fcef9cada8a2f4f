use roguelike_engine::components::{Equipment, EquipmentSlot, Equipped, Inventory, WantsToUseItem};
use roguelike_engine::effects::{EffectType, Targets};
use roguelike_engine::item_use::{put_on, remove_used_item, resolve_item_use, take_off, ItemProps};
use roguelike_engine::map::TileMap;
use roguelike_engine::utils::Point;

fn props() -> ItemProps {
    ItemProps { aoe: None, causes_fire: None, heal: None, damage: None, confusion: None, consumable: false, equippable: None }
}

fn map_with(content: Vec<(usize, Vec<u64>)>) -> TileMap {
    let mut m = TileMap::new((5, 5));
    m.tile_content = vec![Vec::new(); 25];
    for (i, c) in content {
        m.tile_content[i] = c;
    }
    m
}

fn single(t: u64) -> Targets {
    Targets::Single { target: t }
}

#[test]
fn a_potion_heals_its_user() {
    let m = map_with(vec![]);
    let p = ItemProps { heal: Some(8), consumable: true, ..props() };
    let r = resolve_item_use(1, WantsToUseItem { item: 50, target: None }, p, &m, &vec![1], &vec![], &vec![]);
    assert_eq!(r.targets, vec![1]);
    assert_eq!(r.effects, vec![EffectType::Heal { amount: 8, target: single(1) }]);
    assert!(r.consumed);
    // a user without stats is not healed and the potion is kept
    let r = resolve_item_use(1, WantsToUseItem { item: 50, target: None }, p, &m, &vec![], &vec![], &vec![]);
    assert!(r.effects.is_empty());
    assert!(!r.consumed);
}

#[test]
fn an_aimed_scroll_hits_who_has_stats_on_the_cell() {
    // cell (2, 1) holds entities 7 (with stats) and 8 (without)
    let m = map_with(vec![(7, vec![7, 8])]);
    let p = ItemProps { damage: Some(5), confusion: Some(3), consumable: true, ..props() };
    let r = resolve_item_use(1, WantsToUseItem { item: 50, target: Some(Point::new(2, 1)) }, p, &m, &vec![1, 7], &vec![], &vec![]);
    assert_eq!(r.targets, vec![7]);
    assert_eq!(
        r.effects,
        vec![EffectType::Damage { amount: 5, target: single(7) }, EffectType::Confusion { turns: 3, target: single(7) }]
    );
    assert!(r.consumed);
    // aimed at an empty cell: nothing happens, the scroll is kept
    let r = resolve_item_use(1, WantsToUseItem { item: 50, target: Some(Point::new(0, 0)) }, p, &m, &vec![1, 7], &vec![], &vec![]);
    assert!(r.targets.is_empty() && r.effects.is_empty() && !r.consumed);
}

#[test]
fn a_fireball_burns_the_inner_cells_of_its_area() {
    let m = map_with(vec![(6, vec![3]), (12, vec![4, 5])]);
    let p = ItemProps { aoe: Some(1), causes_fire: Some(4), damage: Some(2), consumable: true, ..props() };
    // the field of view includes a border cell, which is left out
    let fov = vec![Point::new(1, 1), Point::new(0, 1), Point::new(2, 2)];
    let r = resolve_item_use(1, WantsToUseItem { item: 50, target: Some(Point::new(1, 1)) }, p, &m, &vec![3, 4], &fov, &vec![]);
    assert_eq!(r.fire, Some((4, vec![6, 12])));
    assert_eq!(r.targets, vec![3, 4]);
    assert_eq!(r.effects.len(), 2);
    assert!(r.consumed);
}

#[test]
fn wearing_replaces_what_is_in_the_slot() {
    let m = map_with(vec![]);
    let p = ItemProps { equippable: Some(EquipmentSlot::Head), ..props() };
    let worn = vec![
        (30, Equipped { owner: 1, slot: EquipmentSlot::Head }),
        (31, Equipped { owner: 1, slot: EquipmentSlot::Torso }),
        (32, Equipped { owner: 2, slot: EquipmentSlot::Head }),
    ];
    let r = resolve_item_use(1, WantsToUseItem { item: 50, target: None }, p, &m, &vec![], &vec![], &worn);
    assert_eq!(r.equip, Some((1, EquipmentSlot::Head)));
    assert_eq!(r.unequip, vec![30]);
    assert!(!r.consumed);

    let mut inv = Inventory { capacity: 5, items: vec![50, 9] };
    let mut eq = Equipment::new();
    eq.equip(30, EquipmentSlot::Head);
    take_off(&mut inv, &mut eq, 30);
    put_on(&mut inv, &mut eq, 50, EquipmentSlot::Head);
    assert_eq!(inv.items, vec![9, 30]);
    assert_eq!(eq.items[3], Some(50));
}

#[test]
fn a_used_up_item_leaves_the_inventory_once() {
    let mut inv = Inventory { capacity: 5, items: vec![4, 7, 4] };
    remove_used_item(&mut inv, 4);
    assert_eq!(inv.items, vec![7, 4]);
    remove_used_item(&mut inv, 9);
    assert_eq!(inv.items, vec![7, 4]);
}
