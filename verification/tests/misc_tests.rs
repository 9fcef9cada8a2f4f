use roguelike_engine::ai::InputTargets;
use roguelike_engine::colors::{add, scale_quarters, COLOR_WATER};
use roguelike_engine::components::{
    contains_id, Equipment, EquipmentSlot, Inventory, Item, ItemType, OnFire, Position, RenderOrder, Renderable, Vision,
};
use roguelike_engine::config::{get_config, mode_name, mode_of, ConfigError, Settings, SettingsList};
use roguelike_engine::effects::{delete, drop_item, inflict_confusion, inflict_fire, pick_up, EffectSpawner, EffectType, Targets};
use roguelike_engine::entity_factory::{room_table, spawn_region, WeightedTable};
use roguelike_engine::game_modes::{get_settings, GameMode, GameSettings};
use roguelike_engine::map::TileMap;
use roguelike_engine::tiles::TileType;
use roguelike_engine::utils::{dir_to_point, div_i32, get_neighbors, normalize, point_plus, InvalidPoint, Point};

#[test]
fn colour_arithmetic() {
    assert_eq!(scale_quarters([200, 100, 7, 255], 2), [100, 50, 3, 255]);
    assert_eq!(scale_quarters([200, 100, 7, 9], 4), [200, 100, 7, 9]);
    assert_eq!(add([10, 20, 30, 40], [1, 2, 3, 4]), [11, 22, 33, 40]);
}

#[test]
fn tile_renderables() {
    let (ch, fg, bg) = TileType::Water.renderable();
    assert_eq!(ch, '~');
    assert_eq!(fg, COLOR_WATER);
    assert_eq!(bg, scale_quarters(COLOR_WATER, 3));
    assert_eq!(TileType::Wall.renderable().0, '#');
    assert_eq!(TileType::StairsDown.renderable().0, '>');
}

#[test]
fn points_and_directions() {
    assert_eq!(normalize(-7), -1);
    assert_eq!(normalize(0), 0);
    assert_eq!(normalize(12), 1);
    assert_eq!(dir_to_point(Point::new(5, 5), 1, 2), Point::new(3, 7));
    assert_eq!(dir_to_point(Point::new(5, 5), 9, 1), Point::new(6, 4));
    assert_eq!(dir_to_point(Point::new(5, 5), 5, 1), Point::new(5, 5));
    assert_eq!(point_plus(Point::new(1, 2), Point::new(3, -4)), Point::new(4, -2));
    assert_eq!(Point::invalid_point(), Point::new(-1, -1));
    assert_eq!(Point::new(3, 4).to_xy(), (3, 4));
    assert_eq!(div_i32(-7, 2), -3);
    let n = get_neighbors(Point::new(0, 0));
    assert_eq!(n.len(), 8);
    assert_eq!(n[0], Point::new(-1, -1));
    assert_eq!(n[7], Point::new(1, 1));
    assert!(!n.contains(&Point::new(0, 0)));
}

fn entry(mode: &str, w: i32) -> Settings {
    Settings { mode: mode.to_string(), mapsize: [w, 10], follow_player: true, use_player_los: false, show_player: true }
}

#[test]
fn config_takes_the_first_entry_of_the_mode() {
    let list = SettingsList { settings: vec![entry("village_sim", 1), entry("roguelike", 2), entry("roguelike", 3)] };
    let s = get_config(GameMode::RL, &list).unwrap();
    assert_eq!(s.mapsize, (2, 10));
    assert_eq!(s.mode, GameMode::RL);
    assert!(s.follow_player);
    assert_eq!(get_config(GameMode::VillageSim, &list).unwrap().mapsize, (1, 10));
}

#[test]
fn config_without_the_mode_is_an_error() {
    let list = SettingsList { settings: vec![entry("village_sim", 1)] };
    assert_eq!(get_config(GameMode::OrcArena, &list), Err(ConfigError::SettingsNotFound));
}

#[test]
fn mode_names_round_trip() {
    for m in [GameMode::RL, GameMode::VillageSim, GameMode::MapDemo, GameMode::TestMode, GameMode::OrcHalls, GameMode::OrcArena] {
        assert_eq!(mode_of(mode_name(m)), m);
    }
    assert_eq!(mode_of("nonsense"), GameMode::RL);
    let from: GameSettings = entry("orc_halls", 5).into();
    assert_eq!(from.mode, GameMode::OrcHalls);
}

#[test]
fn built_in_settings() {
    let s = get_settings(GameMode::VillageSim);
    assert_eq!(s.mode, GameMode::VillageSim);
    assert_eq!(s.mapsize, (200, 80));
    assert!(!s.show_player);
    assert_eq!(get_settings(GameMode::RL).mapsize, (70, 40));
    assert!(get_settings(GameMode::OrcHalls).follow_player);
    for m in [GameMode::RL, GameMode::VillageSim, GameMode::MapDemo, GameMode::TestMode, GameMode::OrcHalls, GameMode::OrcArena] {
        assert_eq!(get_settings(m).mode, m);
    }
}

#[test]
fn weighted_table_picks_by_cumulative_weight() {
    let t = WeightedTable::new().add("a", 2).add("none", 0).add("b", 3);
    assert_eq!(t.total_weight(), 5);
    assert_eq!(t.pick(0).as_deref(), Some("a"));
    assert_eq!(t.pick(1).as_deref(), Some("a"));
    assert_eq!(t.pick(2).as_deref(), Some("b"));
    assert_eq!(t.pick(4).as_deref(), Some("b"));
    assert_eq!(t.pick(5), None);
    let mut rng = rltk::RandomNumberGenerator::new();
    for _ in 0..20 {
        let r = t.roll(&mut rng).unwrap();
        assert!(r == "a" || r == "b");
    }
    assert_eq!(WeightedTable::new().roll(&mut rng), None);
}

#[test]
fn room_table_weights_grow_with_depth() {
    assert_eq!(room_table(1).total_weight(), 43);
    assert_eq!(room_table(4).total_weight(), 58);
    let t = room_table(1);
    assert_eq!(t.pick(0).as_deref(), Some("Wolf"));
    assert_eq!(t.pick(10).as_deref(), Some("Goblin"));
    assert_eq!(t.pick(20).as_deref(), Some("Orc"));
    // no longsword at depth 1
    for n in 0..43 {
        assert_ne!(t.pick(n).as_deref(), Some("Longsword"));
    }
}

#[test]
fn spawn_region_draws_distinct_cells_from_the_area() {
    let area: Vec<usize> = (100..130).collect();
    let mut rng = rltk::RandomNumberGenerator::new();
    for _ in 0..10 {
        let r = spawn_region(&area, 2, &mut rng);
        assert!(r.len() >= 2 && r.len() <= 8);
        for (cell, name) in r.iter() {
            assert!(area.contains(cell));
            assert!(!name.is_empty());
        }
    }
    assert!(spawn_region(&vec![], 1, &mut rng).is_empty());
}

#[test]
fn effects_on_entities() {
    let conf = EffectSpawner { creator: None, effect_type: EffectType::Confusion { turns: 4, target: Targets::Single { target: 1 } } };
    let r = inflict_confusion(&conf, &vec![5, 6]);
    assert_eq!(r.len(), 2);
    assert_eq!(r[1].0, 6);
    assert_eq!(r[1].1.turns, 4);
    let del = EffectSpawner { creator: Some(2), effect_type: EffectType::Delete { entity: 9 } };
    assert_eq!(delete(&del), Some(9));
    assert_eq!(delete(&conf), None);
    assert!(inflict_confusion(&del, &vec![5]).is_empty());
}

#[test]
fn fire_effect_lights_entities_and_flammable_cells() {
    let mut m = TileMap::new((3, 1));
    m.tiles = vec![TileType::Grass, TileType::Stone, TileType::Grass];
    m.fire_turns = vec![0, 0, 1];
    let fire = EffectSpawner { creator: None, effect_type: EffectType::Fire { turns: 5, target: Targets::Tile { tile_idx: 0 } } };
    let r = inflict_fire(&mut m, &fire, &vec![(1, None), (2, Some(OnFire { turns: 2 })), (3, Some(OnFire { turns: 9 }))], &vec![0, 1, 2, 2]);
    assert_eq!(r, vec![(1, OnFire { turns: 5 }), (2, OnFire { turns: 2 }), (3, OnFire { turns: 5 })]);
    assert_eq!(m.fire_turns, vec![5, 0, 11]);
}

#[test]
fn pick_up_then_drop() {
    let mut inv = Inventory { capacity: 5, items: vec![1, 2] };
    assert!(!pick_up(&mut inv, 3));
    assert_eq!(inv.items, vec![1, 2, 3]);
    assert!(pick_up(&mut inv, 2));
    drop_item(&mut inv, 2);
    assert_eq!(inv.items, vec![1, 3]);
    assert_eq!(inv.capacity, 5);
    assert!(contains_id(&inv.items, 3));
    assert!(!contains_id(&inv.items, 2));
}

#[test]
fn inventory_counts_carried_items_of_a_type() {
    let inv = Inventory { capacity: 5, items: vec![1, 2, 4] };
    let items = vec![
        (1, Item { typ: ItemType::Log }),
        (2, Item { typ: ItemType::Fish }),
        (3, Item { typ: ItemType::Log }),
        (4, Item { typ: ItemType::Log }),
    ];
    assert_eq!(inv.count_type(&items, ItemType::Log), 2);
    assert_eq!(inv.count_type(&items, ItemType::Potion), 0);
    assert!(InputTargets::Log.matches(ItemType::Log));
    assert!(!InputTargets::Log.matches(ItemType::Fish));
    assert!(!InputTargets::Tree.matches(ItemType::Log));
}

#[test]
fn equip_then_unequip() {
    let mut e = Equipment::new();
    assert!(e.items.iter().all(|s| s.is_none()));
    e.equip(7, EquipmentSlot::Head);
    e.equip(8, EquipmentSlot::Torso);
    assert_eq!(e.items[3], Some(7));
    e.unequip(7);
    assert_eq!(e.items[3], None);
    assert_eq!(e.items[2], Some(8));
}

#[test]
fn positions_visions_and_renderables() {
    let m = TileMap::new((10, 10));
    let pos = Position { ps: vec![Point::new(1, 2), Point::new(3, 0)] };
    assert_eq!(pos.any_point(), Point::new(1, 2));
    assert_eq!(pos.idxes(&m), vec![21, 3]);
    let v = Vision { visible_tiles: vec![Point::new(4, 4)], range: 3, dirty: false };
    assert!(v.is_visible(Point::new(4, 4)));
    assert!(!v.is_visible(Point::new(4, 5)));
    let r = Renderable::default();
    assert_eq!(r.order, RenderOrder::Player);
}
