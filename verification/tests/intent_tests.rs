use roguelike_engine::ai::{InputTargets, IntentArchetype, Task};
use roguelike_engine::components::{Inventory, Item, ItemType, Turn};
use roguelike_engine::entity_factory::{room_floor_cells, spawn_room};
use roguelike_engine::intent::{expand_intent_archetype, EntityTraits, Intent, SpatialKnowledge, Target};
use roguelike_engine::map::TileMap;
use roguelike_engine::map_builders::Rect;
use roguelike_engine::tiles::TileType;
use roguelike_engine::utils::Point;

fn traits(id: u64, tree: bool, log: bool, fish: bool) -> EntityTraits {
    EntityTraits { id, tree, log, lumber_mill: false, fishery: false, fish }
}

fn map_4x4() -> TileMap {
    let mut m = TileMap::new((4, 4));
    m.tiles = vec![TileType::Grass; 16];
    // water in the bottom two rows
    for i in 8..16 {
        m.tiles[i] = TileType::Water;
    }
    m
}

fn knowledge() -> SpatialKnowledge {
    SpatialKnowledge {
        tiles: vec![
            (1, (TileType::Grass, vec![10, 11])),
            (9, (TileType::Water, vec![12])),
            (13, (TileType::Water, vec![12])),
            (14, (TileType::Water, vec![])),
        ],
    }
}

#[test]
fn idle_intent() {
    let i = Intent::idle();
    assert_eq!(i.name, "Idle");
    assert_eq!(i.task, Task::Idle);
    assert!(i.target.is_empty());
    assert_eq!(i.turn, Turn(0));
}

#[test]
fn targets_by_kind() {
    let m = map_4x4();
    let k = knowledge();
    let t = vec![traits(10, true, false, false), traits(11, false, true, false), traits(12, false, false, true)];
    assert_eq!(k.get_targets(&m, &t, InputTargets::Tree), vec![Target::ENTITY(10)]);
    assert_eq!(k.get_targets(&m, &t, InputTargets::Log), vec![Target::ENTITY(11)]);
    // players are looked for among trees, orcs among fish
    assert_eq!(k.get_targets(&m, &t, InputTargets::Player), vec![Target::ENTITY(10)]);
    assert_eq!(k.get_targets(&m, &t, InputTargets::Orc), vec![Target::ENTITY(12), Target::ENTITY(12)]);
    // a water cell counts once per entity seen on it
    assert_eq!(
        k.get_targets(&m, &t, InputTargets::Water),
        vec![Target::LOCATION(Point::new(1, 2)), Target::LOCATION(Point::new(1, 3))]
    );
    assert!(k.get_targets(&m, &t, InputTargets::NoTarget).is_empty());
}

#[test]
fn fishing_aims_at_the_dry_cell_above_water() {
    let m = map_4x4();
    let k = knowledge();
    let t = vec![traits(12, false, false, true)];
    let a = IntentArchetype { name: "Fish".to_string(), task: Task::Fish };
    let r = expand_intent_archetype(&a, 5, Turn(3), &m, &k, &t, &vec![], &None);
    // above (1, 2) is (1, 1), grass; above (1, 3) is (1, 2), water
    assert_eq!(r.len(), 1);
    assert_eq!(r[0].target, vec![Target::LOCATION(Point::new(1, 1))]);
    assert_eq!(r[0].owner, 5);
    assert_eq!(r[0].name, "Fish");
    assert_eq!(r[0].turn, Turn(3));
}

#[test]
fn targeted_tasks_make_one_intent_per_target() {
    let m = map_4x4();
    let k = knowledge();
    let t = vec![traits(10, true, false, false), traits(11, true, false, false)];
    let a = IntentArchetype { name: "Chop".to_string(), task: Task::Destroy(InputTargets::Tree) };
    let r = expand_intent_archetype(&a, 5, Turn(0), &m, &k, &t, &vec![], &None);
    let targets: Vec<Vec<Target>> = r.iter().map(|i| i.target.clone()).collect();
    assert_eq!(targets, vec![vec![Target::ENTITY(10)], vec![Target::ENTITY(11)]]);
    let idle = IntentArchetype { name: "Wait".to_string(), task: Task::Idle };
    let r = expand_intent_archetype(&idle, 5, Turn(0), &m, &k, &t, &vec![], &None);
    assert_eq!(r.len(), 1);
    assert!(r[0].target.is_empty());
}

#[test]
fn depositing_needs_the_owner_in_its_inventory() {
    let m = map_4x4();
    let k = knowledge();
    let t = vec![traits(12, false, false, true)];
    let items = vec![(20, Item { typ: ItemType::Fish }), (21, Item { typ: ItemType::Log }), (22, Item { typ: ItemType::Log })];
    let a = IntentArchetype {
        name: "Deposit".to_string(),
        task: Task::DepositItemToInventory(InputTargets::Log, InputTargets::Fish),
    };
    let with_owner = Some(Inventory { capacity: 5, items: vec![5] });
    let r = expand_intent_archetype(&a, 5, Turn(0), &m, &k, &t, &items, &with_owner);
    let targets: Vec<Vec<Target>> = r.iter().map(|i| i.target.clone()).collect();
    assert_eq!(targets, vec![vec![Target::ENTITY(21), Target::ENTITY(12)], vec![Target::ENTITY(21), Target::ENTITY(12)]]);
    let without_owner = Some(Inventory { capacity: 5, items: vec![21] });
    assert!(expand_intent_archetype(&a, 5, Turn(0), &m, &k, &t, &items, &without_owner).is_empty());
}

#[test]
fn room_cells_and_spawns() {
    let mut m = TileMap::new((6, 5));
    m.tiles = vec![TileType::Wall; 30];
    for i in [7, 8, 9, 13, 15, 16] {
        m.tiles[i] = TileType::Floor;
    }
    // inside of the room (0, 0)..(4, 4): x in 1..4, y in 1..4
    let room = Rect { x1: 0, y1: 0, x2: 4, y2: 4 };
    assert_eq!(room_floor_cells(&m, &room), vec![7, 8, 9, 13, 15]);
    let mut rng = rltk::RandomNumberGenerator::new();
    for _ in 0..10 {
        let spawns = spawn_room(&m, &room, 1, &mut rng);
        assert!(!spawns.is_empty());
        for (cell, _) in spawns.iter() {
            assert!([7, 8, 9, 13, 15].contains(cell));
        }
    }
}
