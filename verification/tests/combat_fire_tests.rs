use roguelike_engine::components::{OnFire, PhysicalStats};
use roguelike_engine::map::TileMap;
use roguelike_engine::melee::{equipped_bonus, melee_damage, resolve_attack, AttackOutcome};
use roguelike_engine::system_fire::{burn_tiles, countdown_fires, ignite_on_roll, ignite_under, run_fire_system, NEW_FIRE_TURNS};
use roguelike_engine::tiles::TileType;
use roguelike_engine::utils::Point;

fn stats(hp: i32, power: i32, defense: i32) -> PhysicalStats {
    PhysicalStats { max_hp: hp, hp, defense, power, regen_rate: 0 }
}

#[test]
fn melee_damage_is_power_less_defense_but_not_negative() {
    assert_eq!(melee_damage(5, 2, 3, 1), 3);
    assert_eq!(melee_damage(2, 0, 3, 4), 0);
    assert_eq!(melee_damage(4, 0, 4, 0), 0);
}

#[test]
fn equipped_bonus_sums_the_owners_items() {
    let items = vec![(1u64, 2), (2u64, 5), (1u64, 3), (3u64, -1)];
    assert_eq!(equipped_bonus(&items, 1), 5);
    assert_eq!(equipped_bonus(&items, 2), 5);
    assert_eq!(equipped_bonus(&items, 3), -1);
    assert_eq!(equipped_bonus(&items, 9), 0);
}

#[test]
fn attack_outcomes() {
    let power = vec![(1u64, 2)];
    let defense = vec![(2u64, 1), (1u64, 10)];
    // 5 + 2 against 3 + 1
    assert_eq!(resolve_attack(1, stats(10, 5, 0), 2, stats(10, 0, 3), &power, &defense), AttackOutcome::Hit { damage: 3 });
    // a strong defender is not hurt
    assert_eq!(resolve_attack(1, stats(10, 1, 0), 2, stats(10, 0, 9), &power, &defense), AttackOutcome::Harmless);
    // the dead neither strike nor are struck
    assert_eq!(resolve_attack(1, stats(0, 5, 0), 2, stats(10, 0, 0), &power, &defense), AttackOutcome::Skipped);
    assert_eq!(resolve_attack(1, stats(10, 5, 0), 2, stats(0, 0, 0), &power, &defense), AttackOutcome::Skipped);
}

fn map_of(tiles: Vec<TileType>, w: usize, h: usize) -> TileMap {
    let mut m = TileMap::new((w, h));
    let n = w * h;
    m.tiles = tiles;
    m.blocked = vec![false; n];
    m.fire_turns = vec![0; n];
    m.tile_content = vec![Vec::new(); n];
    m
}

#[test]
fn ignite_under_lights_flammable_cells_only() {
    let mut m = map_of(vec![TileType::Grass, TileType::Floor, TileType::Grass, TileType::Grass], 2, 2);
    m.fire_turns[3] = 4;
    ignite_under(&mut m, &vec![Point::new(0, 0), Point::new(1, 0), Point::new(1, 1), Point::new(0, 0)]);
    assert_eq!(m.fire_turns, vec![NEW_FIRE_TURNS, 0, 0, 4]);
}

#[test]
fn countdown_fires_reports_the_burnt_out() {
    let mut fires = vec![(1u64, OnFire { turns: 3 }), (2u64, OnFire { turns: 1 }), (3u64, OnFire { turns: 0 })];
    let expired = countdown_fires(&mut fires);
    assert_eq!(fires, vec![(1u64, OnFire { turns: 2 }), (2u64, OnFire { turns: 0 }), (3u64, OnFire { turns: -1 })]);
    assert_eq!(expired, vec![2, 3]);
}

#[test]
fn burning_cell_counts_down_and_burns_out_to_dirt() {
    // one burning grass cell surrounded by stone: nothing can spread
    let mut m = map_of(vec![TileType::Stone, TileType::Grass, TileType::Stone], 3, 1);
    m.fire_turns[1] = 2;
    m.tile_content[1] = vec![42];
    let mut rng = rltk::RandomNumberGenerator::new();
    let caught = burn_tiles(&mut m, &mut rng);
    assert_eq!(caught, vec![42]);
    assert_eq!(m.fire_turns, vec![0, 1, 0]);
    assert_eq!(m.tiles[1], TileType::Grass);
    let caught = burn_tiles(&mut m, &mut rng);
    assert_eq!(caught, vec![42]);
    assert_eq!(m.fire_turns, vec![0, 0, 0]);
    assert_eq!(m.tiles[1], TileType::Dirt);
    let caught = burn_tiles(&mut m, &mut rng);
    assert!(caught.is_empty());
}

#[test]
fn fire_spreads_only_to_flammable_neighbours() {
    let mut m = map_of(vec![TileType::Grass; 9], 3, 3);
    m.fire_turns[4] = 5;
    let mut rng = rltk::RandomNumberGenerator::new();
    burn_tiles(&mut m, &mut rng);
    assert_eq!(m.fire_turns[4], 4);
    for i in 0..9 {
        if i != 4 {
            // unlit, lit after the pass went by, or lit before it and counted down
            let f = m.fire_turns[i];
            assert!(f == 0 || f == NEW_FIRE_TURNS || f == NEW_FIRE_TURNS - 1);
            assert_eq!(m.tiles[i], TileType::Grass);
        }
    }
}

#[test]
fn one_turn_of_the_fire_system() {
    let mut m = map_of(vec![TileType::Stone, TileType::Grass, TileType::Stone], 3, 1);
    let burning = vec![(7u64, vec![Point::new(1, 0)])];
    let mut fires = vec![(7u64, OnFire { turns: 1 })];
    let mut rng = rltk::RandomNumberGenerator::new();
    let turn = run_fire_system(&mut m, &burning, &mut fires, &mut rng);
    assert_eq!(turn.damaged, vec![7]);
    assert_eq!(turn.expired, vec![7]);
    assert!(turn.caught.is_empty());
    // lit under the entity, then counted down once in the same turn
    assert_eq!(m.fire_turns, vec![0, NEW_FIRE_TURNS - 1, 0]);
}

#[test]
fn a_roll_of_zero_lights_the_cell() {
    let mut map = roguelike_engine::map::TileMap::new((2, 1));
    map.tiles = vec![roguelike_engine::tiles::TileType::Grass; 2];
    map.blocked = vec![false; 2];
    map.fire_turns = vec![0; 2];
    map.tile_content = vec![vec![]; 2];
    ignite_on_roll(&mut map, 1, 3);
    assert_eq!(map.fire_turns, vec![0, 0]);
    ignite_on_roll(&mut map, 1, 0);
    assert_eq!(map.fire_turns, vec![0, NEW_FIRE_TURNS]);
}
