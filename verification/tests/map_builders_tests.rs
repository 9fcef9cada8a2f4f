use roguelike_engine::map::TileMap;
use roguelike_engine::map_builders::{
    apply_drunkards_corrider, apply_horizontal_corridor, apply_room_to_map, apply_vertical_corridor, rect_in_bounds,
    DrunkardsBombingRunBuilder, Rect,
};
use roguelike_engine::tiles::TileType;

fn walls(w: usize, h: usize) -> TileMap {
    let mut m = TileMap::new((w, h));
    m.tiles = vec![TileType::Wall; w * h];
    m.blocked = vec![false; w * h];
    m.fire_turns = vec![0; w * h];
    m.tile_content = vec![Vec::new(); w * h];
    m
}

fn floor_cells(m: &TileMap) -> Vec<usize> {
    (0..m.tiles.len()).filter(|i| m.tiles[*i] == TileType::Floor).collect()
}

#[test]
fn rect_in_bounds_needs_both_corners_on_the_map() {
    let m = walls(10, 10);
    assert!(rect_in_bounds(&m, &Rect { x1: 1, y1: 1, x2: 9, y2: 9 }));
    assert!(!rect_in_bounds(&m, &Rect { x1: 1, y1: 1, x2: 10, y2: 9 }));
    assert!(!rect_in_bounds(&m, &Rect { x1: -1, y1: 1, x2: 5, y2: 5 }));
}

#[test]
fn filled_room_covers_its_cells() {
    let mut m = walls(6, 6);
    apply_room_to_map(&mut m, &Rect { x1: 1, y1: 2, x2: 4, y2: 4 }, TileType::Floor, true);
    let expected: Vec<usize> = vec![13, 14, 15, 19, 20, 21];
    assert_eq!(floor_cells(&m), expected);
}

#[test]
fn hollow_room_covers_its_outline() {
    let mut m = walls(6, 6);
    apply_room_to_map(&mut m, &Rect { x1: 0, y1: 0, x2: 4, y2: 4 }, TileType::Floor, false);
    // the inner 2x2 block stays wall
    assert_eq!(m.get_tile((1, 1)), TileType::Wall);
    assert_eq!(m.get_tile((2, 2)), TileType::Wall);
    assert_eq!(m.get_tile((0, 0)), TileType::Floor);
    assert_eq!(m.get_tile((3, 3)), TileType::Floor);
    assert_eq!(m.get_tile((0, 3)), TileType::Floor);
    assert_eq!(floor_cells(&m).len(), 12);
}

#[test]
fn room_off_the_map_changes_nothing() {
    let mut m = walls(6, 6);
    apply_room_to_map(&mut m, &Rect { x1: 2, y1: 2, x2: 6, y2: 5 }, TileType::Floor, true);
    assert!(floor_cells(&m).is_empty());
}

#[test]
fn vertical_corridor_runs_between_the_rows_either_way() {
    let mut m = walls(5, 6);
    apply_vertical_corridor(&mut m, 2, 4, 1);
    assert_eq!(floor_cells(&m), vec![7, 12, 17, 22]);
}

#[test]
fn horizontal_corridor_runs_between_the_columns_either_way() {
    let mut m = walls(6, 3);
    apply_horizontal_corridor(&mut m, 4, 1, 2);
    assert_eq!(floor_cells(&m), vec![13, 14, 15, 16]);
}

#[test]
fn drunkards_corridor_reaches_its_end_inside_the_box() {
    for _ in 0..20 {
        let mut m = walls(10, 10);
        apply_drunkards_corrider(&mut m, 7, 2, 2, 6);
        assert_eq!(m.get_tile((2, 6)), TileType::Floor);
        // the start is not dug, and every dug cell lies in the spanned box
        assert_eq!(m.get_tile((7, 2)), TileType::Wall);
        for i in floor_cells(&m) {
            let (x, y) = m.idx_xy(i);
            assert!((2..=7).contains(&x) && (2..=6).contains(&y));
        }
        // a monotone walk digs exactly |dx| + |dy| cells
        assert_eq!(floor_cells(&m).len(), 5 + 4);
    }
}

#[test]
fn drunkards_corridor_to_itself_digs_nothing() {
    let mut m = walls(4, 4);
    apply_drunkards_corrider(&mut m, 1, 1, 1, 1);
    assert!(floor_cells(&m).is_empty());
}

#[test]
fn builder_starts_as_solid_wall() {
    let b = DrunkardsBombingRunBuilder::new(3, (8, 5));
    assert_eq!(b.map.tiles.len(), 40);
    assert!(b.map.tiles.iter().all(|t| *t == TileType::Wall));
    assert_eq!(b.depth, 3);
    assert!(b.rooms.is_empty());
    assert_eq!(b.starting_position.ps.len(), 1);
}

#[test]
fn flood_fill_marks_the_connected_region() {
    let b = DrunkardsBombingRunBuilder::new(1, (5, 4));
    let (f, w) = (TileType::Floor, TileType::Wall);
    let image = vec![
        w, w, f, w, w,
        w, f, f, w, f,
        w, w, w, w, f,
        f, w, f, f, f,
    ];
    let (marks, count) = b.get_flood_fill(&image, 0);
    let marked: Vec<usize> = (0..20).filter(|i| marks[*i]).collect();
    // the wall region connected to the top-left corner, stepping straight only
    assert_eq!(marked, vec![0, 1, 3, 4, 5, 8, 10, 11, 12, 13, 16]);
    assert_eq!(count, 11);

    let (marks, count) = b.get_flood_fill(&image, 2);
    let marked: Vec<usize> = (0..20).filter(|i| marks[*i]).collect();
    assert_eq!(marked, vec![2, 6, 7]);
    assert_eq!(count, 3);

    let (marks, count) = b.get_flood_fill(&image, 9);
    let marked: Vec<usize> = (0..20).filter(|i| marks[*i]).collect();
    assert_eq!(marked, vec![9, 14, 17, 18, 19]);
    assert_eq!(count, 5);

    // a lone cell is its own region
    let (marks, count) = b.get_flood_fill(&image, 15);
    assert_eq!(count, 1);
    assert!(marks[15]);
}
