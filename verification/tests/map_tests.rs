use roguelike_engine::map::{StepKind, TileMap};
use roguelike_engine::tiles::TileType;
use roguelike_engine::utils::Point;

fn full_map(w: usize, h: usize, tile: TileType) -> TileMap {
    let mut m = TileMap::new((w, h));
    m.tiles = vec![tile; w * h];
    m.blocked = vec![false; w * h];
    m.fire_turns = vec![0; w * h];
    m.tile_content = vec![Vec::new(); w * h];
    m
}

#[test]
fn new_map_is_all_water() {
    let m = TileMap::new((4, 3));
    assert_eq!(m.len(), 12);
    assert_eq!(m.tiles.len(), 12);
    assert!(m.tiles.iter().all(|t| *t == TileType::Water));
    assert!(m.blocked.is_empty());
    assert_eq!(m.dimensions(), Point::new(4, 3));
}

#[test]
fn xy_idx_and_idx_xy_round_trip() {
    let m = TileMap::new((7, 5));
    assert_eq!(m.xy_idx((3, 2)), 17);
    assert_eq!(m.idx_xy(17), (3, 2));
    for idx in 0..35 {
        let xy = m.idx_xy(idx);
        assert_eq!(m.xy_idx(xy), idx);
    }
    assert_eq!(m.point_idx(Point::new(6, 4)), 34);
    assert_eq!(m.idx_point(34), Point::new(6, 4));
}

#[test]
fn get_after_set_reads_back_and_leaves_the_rest() {
    let mut m = full_map(5, 5, TileType::Grass);
    m.set_tile((2, 3), TileType::Wall);
    assert_eq!(m.get_tile((2, 3)), TileType::Wall);
    assert_eq!(m.get_tile((3, 2)), TileType::Grass);
    assert!(m.is_wall(2, 3));
    assert!(!m.is_wall(3, 2));
}

#[test]
fn in_bounds_checks_both_axes() {
    let m = TileMap::new((4, 3));
    assert!(m.in_bounds((3, 2)));
    assert!(!m.in_bounds((4, 0)));
    assert!(!m.in_bounds((0, 3)));
}

#[test]
fn glyphs_and_tile_rules() {
    let mut m = full_map(3, 1, TileType::Water);
    m.tiles[1] = TileType::Grass;
    m.tiles[2] = TileType::Wall;
    assert_eq!(m.get_glyph((0, 0)), '~');
    assert!(m.is_flammable(1));
    assert!(!m.is_flammable(0));
    assert!(m.blocks_movement(0));
    assert!(m.blocks_movement(2));
    assert!(!m.blocks_movement(1));
    assert!(m.is_opaque(2));
    assert!(!m.is_opaque(0));
}

#[test]
fn set_blocked_follows_the_terrain() {
    let mut m = full_map(3, 1, TileType::Floor);
    m.tiles[0] = TileType::Wall;
    m.blocked = vec![true, true, true];
    m.set_blocked();
    assert_eq!(m.blocked, vec![true, false, false]);
}

#[test]
fn clear_tile_content_empties_every_cell() {
    let mut m = full_map(2, 2, TileType::Floor);
    m.tile_content[3] = vec![7, 8];
    m.clear_tile_content();
    assert_eq!(m.tile_content.len(), 4);
    assert!(m.tile_content.iter().all(|c| c.is_empty()));
}

#[test]
fn exits_are_open_neighbours() {
    let mut m = full_map(5, 5, TileType::Floor);
    // block the cell east of the centre
    let east = m.xy_idx((3, 2));
    m.blocked[east] = true;
    let centre = m.xy_idx((2, 2));
    let exits = m.get_available_exits(centre);
    // west, (east blocked), north, south, then four diagonals
    assert_eq!(exits.len(), 7);
    assert_eq!(exits[0], (m.xy_idx((1, 2)), StepKind::Straight));
    assert_eq!(exits[1], (m.xy_idx((2, 1)), StepKind::Straight));
    assert_eq!(exits[2], (m.xy_idx((2, 3)), StepKind::Straight));
    assert_eq!(exits[3], (m.xy_idx((1, 1)), StepKind::Diagonal));
    assert!(!exits.iter().any(|e| e.0 == east));
}

#[test]
fn exits_stop_at_the_first_row_and_column() {
    let m = full_map(3, 3, TileType::Floor);
    let idx = m.xy_idx((1, 1));
    let exits = m.get_available_exits(idx);
    // x - 1 = 0 and y - 1 = 0 are not valid exits
    let cells: Vec<usize> = exits.iter().map(|e| e.0).collect();
    assert_eq!(cells, vec![m.xy_idx((2, 1)), m.xy_idx((1, 2)), m.xy_idx((2, 2))]);
}
