use roguelike_engine::blueprints::{
    dagger, fireball_scroll, health_potion, orc, plank_house, player, spawn_entity, spawn_entity_type, tmp_fireball,
    villager, wolf, Component, EntitySpawnTypes,
};
use roguelike_engine::components::{
    ActorType, CausesFire, DealsDamage, EquipmentSlot, Faction, PhysicalStats, ProvidesHealing, Ranged,
};
use roguelike_engine::utils::Point;

fn name(c: &Component) -> String {
    match c {
        Component::Name(n) => n.name.clone(),
        _ => panic!("not a name"),
    }
}

fn cells(c: &Component) -> Vec<Point> {
    match c {
        Component::Position(p) => p.ps.clone(),
        _ => panic!("not a position"),
    }
}

#[test]
fn the_player_starts_with_thirty_hit_points() {
    let p = player((3, 4), true);
    assert_eq!(p.len(), 12);
    assert_eq!(cells(&p[0]), vec![Point { x: 3, y: 4 }]);
    assert_eq!(name(&p[6]), "Player");
    match &p[7] {
        Component::PhysicalStats(s) => assert_eq!(*s, PhysicalStats { max_hp: 30, hp: 30, defense: 2, power: 5, regen_rate: 1 }),
        _ => panic!(),
    }
    match &p[3] {
        Component::Actor(a) => {
            assert_eq!(a.faction, Faction::Player);
            assert_eq!(a.atype, ActorType::Player);
        }
        _ => panic!(),
    }
}

#[test]
fn monsters_and_villagers() {
    let w = wolf((1, 1));
    assert_eq!(name(&w[5]), "Wolf");
    let o = orc((2, 2));
    assert_eq!(name(&o[5]), "Orc");
    match &o[1] {
        Component::Renderable(r) => assert_eq!(r.glyph, 'o'),
        _ => panic!(),
    }
    let v = villager((0, 0));
    assert_eq!(v.len(), 10);
    assert_eq!(name(&v[4]), "Villager");
}

#[test]
fn items_carry_their_effects() {
    let h = health_potion((5, 5));
    assert_eq!(name(&h[2]), "Health potion");
    assert!(matches!(h[4], Component::ProvidesHealing(ProvidesHealing { heal: 8 })));
    assert!(matches!(h[5], Component::Consumable));
    let f = fireball_scroll((0, 0));
    assert_eq!(f.len(), 9);
    assert!(matches!(f[5], Component::DealsDamage(DealsDamage { damage: 20 })));
    assert!(matches!(f[8], Component::CausesFire(CausesFire { turns: 5 })));
    let d = dagger((0, 0));
    assert!(matches!(&d[4], Component::Equippable(e) if e.slot == EquipmentSlot::RightHand));
    let t = tmp_fireball();
    assert_eq!(name(&t[0]), "Fireball");
    assert!(matches!(t[4], Component::Ranged(Ranged { range: 6 })));
}

#[test]
fn a_house_covers_its_block_column_by_column() {
    let h = plank_house((10, 20), 2, 3);
    assert_eq!(
        cells(&h[0]),
        vec![
            Point { x: 10, y: 20 },
            Point { x: 10, y: 21 },
            Point { x: 10, y: 22 },
            Point { x: 11, y: 20 },
            Point { x: 11, y: 21 },
            Point { x: 11, y: 22 },
        ]
    );
    assert_eq!(name(&h[2]), "Plank House");
    assert!(matches!(h[5], Component::BlocksTile));
}

#[test]
fn room_spawns_by_name_at_the_cell_of_the_index() {
    let map = roguelike_engine::map::TileMap::new((10, 5));
    let w = spawn_entity(&map, 23, "Wolf");
    assert_eq!(name(&w[5]), "Wolf");
    assert_eq!(cells(&w[0]), vec![Point { x: 3, y: 2 }]);
    let s = spawn_entity(&map, 0, "Tower Shield");
    assert_eq!(name(&s[2]), "Shield");
    let g = spawn_entity(&map, 1, "Goblin");
    assert_eq!(name(&g[5]), "Goblin");
    let v = spawn_entity_type(EntitySpawnTypes::Villager, (4, 4));
    assert_eq!(name(&v[4]), "Villager");
}
