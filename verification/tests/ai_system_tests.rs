use roguelike_engine::ai::{InputTargets, Task};
use roguelike_engine::ai_system::{
    advance_time, ages_out, run_time_system, attack_effects, deposit_effects, dismantle, fish_to_catch, house_doors, intent_source,
    intent_step, move_step, pick_door, pick_top_villager, spawner_intent, target_idxes, top_villagers, IntentSource,
    IntentStep, MAX_AGE,
};
use roguelike_engine::components::{ActorType, Aging, Faction, Position, Spawner, SpawnerType, Turn};
use roguelike_engine::effects::{EffectSpawner, EffectType};
use roguelike_engine::intent::{Intent, Target};
use roguelike_engine::map::TileMap;
use roguelike_engine::tiles::TileType;
use roguelike_engine::utils::Point;

fn intent(task: Task, target: Vec<Target>) -> Intent {
    Intent { name: "test".to_string(), owner: 1, task, target, turn: Turn(4) }
}

fn land(w: usize, h: usize) -> TileMap {
    let mut map = TileMap::new((w, h));
    map.tiles = vec![TileType::Grass; w * h];
    map.tile_content = vec![Vec::new(); w * h];
    map
}

#[test]
fn where_intents_come_from() {
    assert_eq!(intent_source(ActorType::Player), IntentSource::Skip);
    assert_eq!(intent_source(ActorType::Fish), IntentSource::Skip);
    assert_eq!(intent_source(ActorType::Villager), IntentSource::Choose);
    assert_eq!(intent_source(ActorType::Wolf), IntentSource::Choose);
    assert_eq!(intent_source(ActorType::Spawner), IntentSource::Spawner);
}

#[test]
fn spawners_spawn_on_multiples_of_their_rate() {
    let orcs = Some(Spawner { typ: SpawnerType::Orc, rate: 5 });
    let i = spawner_intent(9, orcs, Turn(10));
    assert_eq!((i.name.as_str(), i.task, i.owner, i.turn), ("spawn", Task::Spawn(InputTargets::Orc), 9, Turn(10)));
    assert!(i.target.is_empty());
    let i = spawner_intent(9, orcs, Turn(11));
    assert_eq!((i.name.as_str(), i.task), ("none", Task::Idle));
    let fish = Some(Spawner { typ: SpawnerType::Fish, rate: 3 });
    assert_eq!(spawner_intent(9, fish, Turn(-6)).task, Task::Spawn(InputTargets::Fish));
    assert_eq!(spawner_intent(9, None, Turn(0)).task, Task::Idle);
    let backwards = Some(Spawner { typ: SpawnerType::Fish, rate: -4 });
    assert_eq!(spawner_intent(9, backwards, Turn(8)).task, Task::Spawn(InputTargets::Fish));
    assert_eq!(spawner_intent(9, backwards, Turn(6)).task, Task::Idle);
}

#[test]
fn steps_of_chosen_intents() {
    let own = Point { x: 2, y: 2 };
    let positions = vec![(7, Point { x: 5, y: 5 }), (8, Point { x: 1, y: 1 })];
    let maps = vec![8];
    let step = |i: Intent| intent_step(&i, own, Faction::Orcs, &positions, &maps);
    assert_eq!(step(intent(Task::Fish, vec![])), IntentStep::Fish { at: own });
    assert_eq!(step(intent(Task::Explore, vec![])), IntentStep::Effect { effect: EffectType::Explore {} });
    assert_eq!(
        step(intent(Task::MoveTo(InputTargets::Tree), vec![Target::ENTITY(7)])),
        IntentStep::MoveTo { from: own, to: Point { x: 5, y: 5 } }
    );
    assert_eq!(
        step(intent(Task::MoveTo(InputTargets::Tree), vec![Target::ENTITY(8)])),
        IntentStep::Downhill { from: own, target: 8 }
    );
    assert_eq!(step(intent(Task::MoveTo(InputTargets::Tree), vec![Target::ENTITY(99)])), IntentStep::Nothing);
    assert_eq!(
        step(intent(Task::PickUpItem(InputTargets::Log), vec![Target::ENTITY(7)])),
        IntentStep::Effect { effect: EffectType::PickUp { entity: 7 } }
    );
    assert_eq!(
        step(intent(Task::Attack(InputTargets::Enemy), vec![Target::ENTITY(7)])),
        IntentStep::Attack { at: Point { x: 5, y: 5 } }
    );
    assert_eq!(
        step(intent(Task::Attack(InputTargets::Enemy), vec![Target::LOCATION(Point { x: 3, y: 4 })])),
        IntentStep::Attack { at: Point { x: 3, y: 4 } }
    );
    assert_eq!(step(intent(Task::Destroy(InputTargets::Tree), vec![Target::ENTITY(7)])), IntentStep::Nothing);
    assert_eq!(step(intent(Task::Idle, vec![])), IntentStep::Nothing);
    assert_eq!(
        step(intent(Task::Spawn(InputTargets::Orc), vec![])),
        IntentStep::SpawnOrc { at: own, faction: Faction::Orcs }
    );
    assert_eq!(step(intent(Task::Spawn(InputTargets::Fish), vec![])), IntentStep::SpawnFish { at: own });
    assert_eq!(step(intent(Task::Spawn(InputTargets::Tree), vec![])), IntentStep::Nothing);
    assert_eq!(
        step(intent(Task::DepositItemToInventory(InputTargets::Log, InputTargets::LumberMill), vec![])),
        IntentStep::Deposit
    );
}

#[test]
fn short_moves_need_no_path() {
    let map = land(10, 10);
    let from = Point { x: 3, y: 3 };
    // two cells straight: distance 2
    assert_eq!(move_step(&map, from, Point { x: 5, y: 3 }), Some(35));
    // one diagonal: distance 1.41
    assert_eq!(move_step(&map, from, Point { x: 4, y: 4 }), Some(44));
    // a knight's move: distance 2.24
    assert_eq!(move_step(&map, from, Point { x: 5, y: 4 }), None);
    assert_eq!(move_step(&map, from, Point { x: 9, y: 9 }), None);
}

#[test]
fn fishing_takes_one_fish_per_water_cell() {
    let mut map = land(5, 5);
    let water = [(1usize, 1usize), (2, 1), (3, 3)];
    for (x, y) in water {
        map.tiles[y * 5 + x] = TileType::Water;
    }
    map.tile_content[1 * 5 + 1] = vec![40, 50, 51];
    map.tile_content[1 * 5 + 2] = vec![52];
    map.tile_content[3 * 5 + 3] = vec![53];
    // a fish on land next to the actor is not caught
    map.tile_content[2 * 5 + 1] = vec![54];
    let fish = vec![50, 51, 52, 53, 54];
    assert_eq!(fish_to_catch(&map, Point { x: 2, y: 2 }, &fish), vec![50, 52, 53]);
}

#[test]
fn attacks_and_deposits() {
    let map = land(10, 10);
    let effects = attack_effects(&map, &vec![(3, Point { x: 2, y: 1 })]);
    assert_eq!(effects, vec![EffectSpawner { creator: Some(3), effect_type: EffectType::MoveOrAttack { tile_idx: 12 } }]);
    let deposits = vec![
        (4, intent(Task::DepositItemToInventory(InputTargets::Log, InputTargets::LumberMill), vec![Target::ENTITY(20), Target::ENTITY(30)])),
        (5, intent(Task::DepositItemToInventory(InputTargets::Log, InputTargets::LumberMill), vec![Target::LOCATION(Point { x: 0, y: 0 })])),
    ];
    assert_eq!(
        deposit_effects(&deposits),
        vec![
            EffectSpawner { creator: Some(4), effect_type: EffectType::Drop { entity: 20 } },
            EffectSpawner { creator: Some(30), effect_type: EffectType::PickUp { entity: 20 } },
        ]
    );
}

#[test]
fn chopping_down_trees_next_to_the_actor() {
    let positions = vec![(7, Point { x: 5, y: 5 }), (8, Point { x: 9, y: 9 }), (9, Point { x: 4, y: 4 })];
    let trees = vec![7, 8];
    let actors = vec![
        // next to the tree at (5, 5): it goes, leaving a log
        (vec![Point { x: 6, y: 6 }], intent(Task::Destroy(InputTargets::Tree), vec![Target::ENTITY(7)])),
        // too far from the tree at (9, 9)
        (vec![Point { x: 6, y: 6 }], intent(Task::Destroy(InputTargets::Tree), vec![Target::ENTITY(8)])),
        // next to an entity that is no tree: it goes, leaving nothing
        (vec![Point { x: 0, y: 0 }, Point { x: 4, y: 3 }], intent(Task::Destroy(InputTargets::Tree), vec![Target::ENTITY(9)])),
        // an entity without a position
        (vec![Point { x: 6, y: 6 }], intent(Task::Destroy(InputTargets::Tree), vec![Target::ENTITY(10)])),
        // not destroying
        (vec![Point { x: 6, y: 6 }], intent(Task::MoveTo(InputTargets::Tree), vec![Target::ENTITY(7)])),
    ];
    let (logs, deleted) = dismantle(&actors, &positions, &trees);
    assert_eq!(logs, vec![Point { x: 5, y: 5 }]);
    assert_eq!(deleted, vec![7, 9]);
}

#[test]
fn the_best_three_villagers() {
    let actors = vec![
        (1, ActorType::Villager, 5),
        (2, ActorType::Orc, 100),
        (3, ActorType::Villager, 1),
        (4, ActorType::Villager, 7),
        (5, ActorType::Villager, 6),
        (6, ActorType::Villager, 0),
    ];
    // the first three are kept as seen; 5 goes before the first lower (1's 5)
    assert_eq!(top_villagers(&actors), vec![(5, 6), (1, 5), (3, 1)]);
    let mut rng = rltk::RandomNumberGenerator::new();
    for _ in 0..20 {
        let v = pick_top_villager(&actors, &mut rng);
        assert!(v == 5 || v == 1 || v == 3);
    }
}

#[test]
fn time_passes() {
    assert!(ages_out(ActorType::Villager, MAX_AGE + 1, 1));
    assert!(!ages_out(ActorType::Villager, MAX_AGE + 1, 2));
    assert!(!ages_out(ActorType::Villager, MAX_AGE, 1));
    assert!(!ages_out(ActorType::Orc, MAX_AGE + 1, 1));
    let mut turn = Turn(9);
    let mut aging = vec![(1, ActorType::Villager, Aging { turns: 3 }), (2, ActorType::Orc, Aging { turns: 400 })];
    let mut rng = rltk::RandomNumberGenerator::new();
    let (dead, left) = advance_time(&mut turn, &mut aging, &mut rng);
    assert_eq!(turn, Turn(10));
    assert_eq!(aging, vec![(1, ActorType::Villager, Aging { turns: 4 }), (2, ActorType::Orc, Aging { turns: 401 })]);
    assert!(dead.is_empty());
    assert_eq!(left, 1);
}

#[test]
fn newborns_appear_at_house_doors() {
    let map = land(10, 10);
    let doors = house_doors(&map, &vec![Point { x: 2, y: 3 }, Point { x: 7, y: 1 }]);
    assert_eq!(doors, vec![22, 7]);
    let mut rng = rltk::RandomNumberGenerator::new();
    for _ in 0..10 {
        assert!(doors.contains(&pick_door(&doors, &mut rng)));
    }
}

#[test]
fn distances_between_targets() {
    let map = land(10, 10);
    let positions = vec![(7, Position { ps: vec![Point { x: 1, y: 1 }, Point { x: 2, y: 1 }] })];
    assert_eq!(target_idxes(&map, Target::LOCATION(Point { x: 3, y: 2 }), &positions), vec![23]);
    assert_eq!(target_idxes(&map, Target::ENTITY(7), &positions), vec![11, 12]);
    assert_eq!(target_idxes(&map, Target::ENTITY(8), &positions), vec![0]);
    assert_eq!(map.min_distance_sq(&vec![11, 12], &vec![45]), Some(18));
    assert_eq!(map.min_distance_sq(&vec![11], &vec![]), None);
}

#[test]
fn the_clock_spawns_villagers_while_few_are_left() {
    let map = land(10, 10);
    let houses = vec![Point { x: 2, y: 3 }];
    let mut turn = Turn(0);
    let mut aging = vec![(1, ActorType::Villager, Aging { turns: 0 }), (2, ActorType::Orc, Aging { turns: 0 })];
    let mut rng = rltk::RandomNumberGenerator::new();
    let effects = run_time_system(&map, &mut turn, &mut aging, &houses, &mut rng);
    assert_eq!(
        effects,
        vec![EffectSpawner {
            creator: None,
            effect_type: EffectType::Spawn {
                etype: roguelike_engine::entity_factory::EntitySpawnTypes::Villager,
                target: roguelike_engine::effects::Targets::Tile { tile_idx: 22 },
            },
        }]
    );
    // no villager left: nothing is spawned
    let mut aging = vec![(2, ActorType::Orc, Aging { turns: 0 })];
    assert!(run_time_system(&map, &mut turn, &mut aging, &houses, &mut rng).is_empty());
    assert_eq!(turn, Turn(2));
}
