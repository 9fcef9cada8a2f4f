use roguelike_engine::drunkard::nearest_room;
use roguelike_engine::map_builders::{DrunkardsBombingRunBuilder, Rect};
use roguelike_engine::tiles::TileType;

fn rect(x: i32, y: i32, w: i32, h: i32) -> Rect {
    Rect { x1: x, y1: y, x2: x + w, y2: y + h }
}

#[test]
fn corridors_lead_to_the_nearest_later_room() {
    // centres: (2, 2), (12, 2), (4, 2), (2, 2)
    let rooms = vec![rect(1, 1, 2, 2), rect(11, 1, 2, 2), rect(3, 1, 2, 2), rect(1, 1, 2, 2)];
    // the later room with the same centre does not count
    assert_eq!(nearest_room(&rooms, 0), 2);
    assert_eq!(nearest_room(&rooms, 1), 2);
    assert_eq!(nearest_room(&rooms, 2), 3);
    // the last room leads back to the first
    assert_eq!(nearest_room(&rooms, 3), 0);
}

#[test]
fn a_bomb_clears_left_above_and_centre() {
    let mut b = DrunkardsBombingRunBuilder::new(1, (5, 4));
    b.map.tiles[7] = TileType::Floor;
    let mut cands = vec![1];
    // cell (2, 2): left (1, 2), above (2, 1) already floor, itself
    b.bomb_at(&mut cands, 12);
    assert_eq!(cands, vec![1, 11, 12]);
    assert_eq!(b.map.tiles[11], TileType::Floor);
    assert_eq!(b.map.tiles[12], TileType::Floor);
    assert_eq!(b.map.tiles[6], TileType::Wall);
    // at the left edge only above and itself are on the map
    let mut cands = vec![];
    b.bomb_at(&mut cands, 5);
    assert_eq!(cands, vec![0, 5]);
}

#[test]
fn bombing_only_opens_cells() {
    let mut b = DrunkardsBombingRunBuilder::new(1, (12, 10));
    b.map.tiles[30] = TileType::Floor;
    b.map.tiles[55] = TileType::Grass;
    let before = b.map.tiles.clone();
    b.bomb_level();
    for (k, t) in b.map.tiles.iter().enumerate() {
        assert!(*t == before[k] || *t == TileType::Floor);
    }
    assert!(b.map.tiles.iter().filter(|t| **t == TileType::Floor).count() >= 2);
}

#[test]
fn leftover_walls_become_water_and_grass() {
    // row by row, 6 wide: the border region, an island of three and one of one
    let w = TileType::Wall;
    let f = TileType::Floor;
    let mut b = DrunkardsBombingRunBuilder::new(1, (6, 4));
    b.map.tiles = vec![
        w, w, w, w, w, w, //
        w, f, f, f, f, w, //
        f, w, w, f, w, f, //
        f, f, w, f, f, f,
    ];
    b.convert_islands();
    let t = &b.map.tiles;
    for k in [0, 1, 2, 3, 4, 5, 6, 11] {
        assert_eq!(t[k], TileType::Wall);
    }
    for k in [13, 14, 20] {
        assert_eq!(t[k], TileType::Water);
    }
    assert_eq!(t[16], TileType::Grass);
    assert_eq!(t[7], TileType::Floor);
}

#[test]
fn a_level_without_islands_is_kept() {
    let mut b = DrunkardsBombingRunBuilder::new(1, (3, 3));
    b.map.tiles[4] = TileType::Floor;
    let before = b.map.tiles.clone();
    b.convert_islands();
    assert_eq!(b.map.tiles, before);
}

#[test]
fn a_drunkards_level() {
    let mut b = DrunkardsBombingRunBuilder::new(1, (40, 30));
    b.build_map();
    assert!(!b.rooms.is_empty() && b.rooms.len() <= 20);
    for (i, r) in b.rooms.iter().enumerate() {
        assert!(1 <= r.x1 && r.x2 <= 38 && 1 <= r.y1 && r.y2 <= 28);
        assert!((4..8).contains(&(r.x2 - r.x1)) && (4..8).contains(&(r.y2 - r.y1)));
        for s in b.rooms.iter().skip(i + 1) {
            assert!(!r.intersect(s));
        }
    }
    let c = b.rooms[0].center();
    assert_eq!(b.starting_position.ps, vec![roguelike_engine::utils::Point { x: c.0, y: c.1 }]);
    for t in b.map.tiles.iter() {
        assert!(matches!(
            t,
            TileType::Wall | TileType::Floor | TileType::StairsDown | TileType::Water | TileType::Grass
        ));
    }
}

#[test]
fn of_equal_islands_the_first_becomes_water() {
    let mut b = DrunkardsBombingRunBuilder::new(1, (5, 3));
    let w = TileType::Wall;
    let f = TileType::Floor;
    b.map.tiles = vec![
        w, w, w, w, w, //
        f, f, f, f, f, //
        w, f, w, f, f,
    ];
    b.convert_islands();
    assert_eq!(&b.map.tiles[0..5], &[w, w, w, w, w]);
    assert_eq!(b.map.tiles[10], TileType::Water);
    assert_eq!(b.map.tiles[12], TileType::Grass);
}

#[test]
fn the_first_bomb_falls_on_an_open_cell() {
    for _ in 0..10 {
        let mut b = DrunkardsBombingRunBuilder::new(1, (12, 10));
        b.map.tiles[30] = TileType::Grass;
        b.map.tiles[75] = TileType::Grass;
        b.bomb_level();
        assert!(b.map.tiles[30] == TileType::Floor || b.map.tiles[75] == TileType::Floor);
    }
}
