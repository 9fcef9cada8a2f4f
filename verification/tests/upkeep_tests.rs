use roguelike_engine::ai::{InputTargets, Task};
use roguelike_engine::components::{Inventory, PhysicalStats, Position, Turn, Vision, WantsToDropItem, WantsToPickupItem, WantsToUnequipItem};
use roguelike_engine::effects::{EffectSpawner, EffectType};
use roguelike_engine::intent::{Intent, SpatialKnowledge, Target};
use roguelike_engine::map::TileMap;
use roguelike_engine::tiles::TileType;
use roguelike_engine::upkeep::{
    reveal_map, run_cleanup_system, run_drop_item_system, run_inventory_system, run_unequip_item_system, try_next_level, vision_contains,
};
use roguelike_engine::utils::Point;

fn stats(hp: i32) -> PhysicalStats {
    PhysicalStats { max_hp: 10, hp, defense: 0, power: 1, regen_rate: 0 }
}

#[test]
fn cleanup_deletes_the_dead_but_not_the_player() {
    let st = vec![(1, stats(0)), (2, stats(5)), (3, stats(-2)), (4, stats(0))];
    let players = vec![4];
    let mut invs = vec![
        (1, Inventory { capacity: 5, items: vec![10, 11] }),
        (2, Inventory { capacity: 5, items: vec![12] }),
        (4, Inventory { capacity: 3, items: vec![13] }),
    ];
    let names = vec![(3, "Orc".to_string()), (1, "Villager".to_string())];
    let (deleted, unworn, said) = run_cleanup_system(&st, &players, &mut invs, &names);
    assert_eq!(
        deleted,
        vec![
            EffectSpawner { creator: None, effect_type: EffectType::Delete { entity: 1 } },
            EffectSpawner { creator: None, effect_type: EffectType::Delete { entity: 3 } },
        ]
    );
    assert_eq!(unworn, vec![10, 11]);
    assert_eq!(said, vec!["Villager".to_string(), "Orc".to_string()]);
    assert_eq!(invs[0].1.items, Vec::<u64>::new());
    assert_eq!(invs[0].1.capacity, 5);
    assert_eq!(invs[1].1.items, vec![12]);
    assert_eq!(invs[2].1.items, vec![13]);
}

#[test]
fn cleanup_with_no_dead_changes_nothing() {
    let st = vec![(1, stats(3))];
    let mut invs = vec![(1, Inventory { capacity: 2, items: vec![7] })];
    let (deleted, unworn, said) = run_cleanup_system(&st, &vec![], &mut invs, &vec![]);
    assert!(deleted.is_empty());
    assert!(unworn.is_empty());
    assert!(said.is_empty());
    assert_eq!(invs[0].1.items, vec![7]);
}

#[test]
fn drop_requests_become_drop_effects() {
    let wants = vec![(1, WantsToDropItem { item: 20 }), (2, WantsToDropItem { item: 21 })];
    let names = vec![(20, "Log".to_string()), (21, "Fish".to_string())];
    let (effects, said) = run_drop_item_system(&wants, &vec![2], &names);
    assert_eq!(
        effects,
        vec![
            EffectSpawner { creator: Some(1), effect_type: EffectType::Drop { entity: 20 } },
            EffectSpawner { creator: Some(2), effect_type: EffectType::Drop { entity: 21 } },
        ]
    );
    assert_eq!(said, vec!["Fish".to_string()]);
}

fn small_map() -> TileMap {
    let mut map = TileMap::new((3, 2));
    map.tiles = vec![TileType::Grass, TileType::Wall, TileType::Water, TileType::Grass, TileType::Grass, TileType::Wheat];
    map.blocked = vec![false; 6];
    map.fire_turns = vec![0; 6];
    map.tile_content = vec![vec![]; 6];
    map.tile_content[5] = vec![9];
    map
}

#[test]
fn set_visible_keeps_cells_on_the_map() {
    let map = small_map();
    let mut v = Vision { visible_tiles: vec![], range: 4, dirty: true };
    v.set_visible(&map, vec![Point { x: 0, y: 0 }, Point { x: -1, y: 0 }, Point { x: 2, y: 1 }, Point { x: 3, y: 1 }, Point { x: 1, y: 2 }]);
    assert_eq!(v.visible_tiles, vec![Point { x: 0, y: 0 }, Point { x: 2, y: 1 }]);
    assert_eq!(v.range, 4);
    assert!(!v.dirty);
}

#[test]
fn remember_overwrites_seen_cells_and_keeps_the_rest() {
    let map = small_map();
    let mut k = SpatialKnowledge { tiles: vec![(5, (TileType::Grass, vec![])), (0, (TileType::Wall, vec![3]))] };
    k.remember(&map, &vec![Point { x: 2, y: 1 }, Point { x: 1, y: 0 }]);
    assert_eq!(k.tiles.len(), 3);
    assert_eq!(k.tiles[0], (5, (TileType::Wheat, vec![9])));
    assert_eq!(k.tiles[1], (0, (TileType::Wall, vec![3])));
    assert_eq!(k.tiles[2], (1, (TileType::Wall, vec![])));
}

fn intent(owner: u64, task: Task, target: Vec<Target>) -> Intent {
    Intent { name: "test".to_string(), owner, task, target, turn: Turn(0) }
}

#[test]
fn inventory_requests_then_intents_move_items() {
    let wants = vec![(1, WantsToPickupItem { collected_by: 1, item: 30 })];
    let intents = vec![
        (2, intent(2, Task::PickUpItem(InputTargets::Log), vec![Target::ENTITY(31)])),
        (3, intent(3, Task::Fish, vec![])),
        (4, intent(4, Task::DepositItemToInventory(InputTargets::Log, InputTargets::LumberMill), vec![Target::ENTITY(32), Target::ENTITY(40)])),
        (5, intent(5, Task::PickUpItem(InputTargets::Log), vec![Target::LOCATION(Point { x: 1, y: 1 })])),
    ];
    let effects = run_inventory_system(&wants, &intents);
    assert_eq!(
        effects,
        vec![
            EffectSpawner { creator: Some(1), effect_type: EffectType::PickUp { entity: 30 } },
            EffectSpawner { creator: Some(2), effect_type: EffectType::PickUp { entity: 31 } },
            EffectSpawner { creator: Some(4), effect_type: EffectType::Drop { entity: 32 } },
            EffectSpawner { creator: Some(40), effect_type: EffectType::PickUp { entity: 32 } },
        ]
    );
}

#[test]
fn vision_contains_any_cell_of_the_entity() {
    let v = Vision { visible_tiles: vec![Point { x: 1, y: 1 }, Point { x: 2, y: 1 }], range: 3, dirty: false };
    let big = Position { ps: vec![Point { x: 5, y: 5 }, Point { x: 2, y: 1 }] };
    let far = Position { ps: vec![Point { x: 5, y: 5 }] };
    assert!(vision_contains(&v, Some(&big)));
    assert!(!vision_contains(&v, Some(&far)));
    assert!(!vision_contains(&v, None));
}

#[test]
fn next_level_only_from_stairs_down() {
    let mut map = small_map();
    map.tiles[4] = TileType::StairsDown;
    assert_eq!(try_next_level(&map, Point { x: 1, y: 1 }), (true, None));
    assert_eq!(try_next_level(&map, Point { x: 0, y: 1 }), (false, Some("There is no stairs down here".to_string())));
}

#[test]
fn reveal_map_lists_every_cell() {
    let map = small_map();
    let mut k = SpatialKnowledge { tiles: vec![(4, (TileType::Water, vec![1]))] };
    reveal_map(&map, &mut k);
    assert_eq!(k.tiles.len(), 6);
    assert_eq!(k.tiles[0], (4, (TileType::Grass, vec![])));
    for i in 1..6 {
        let cell = if i <= 4 { i - 1 } else { i };
        assert_eq!(k.tiles[i].0, cell);
        assert_eq!(k.tiles[i].1 .0, map.tiles[cell]);
        assert_eq!(k.tiles[i].1 .1, map.tile_content[cell]);
    }
}

#[test]
fn unequip_requests_move_items_to_backpacks() {
    let wants = vec![(7, WantsToUnequipItem { item: 50 }), (8, WantsToUnequipItem { item: 51 })];
    let names = vec![(50, "Dagger".to_string()), (51, "Shield".to_string())];
    let (moved, said) = run_unequip_item_system(&wants, &vec![7], &names);
    assert_eq!(moved, vec![(50, 7), (51, 8)]);
    assert_eq!(said, vec!["Dagger".to_string()]);
}
