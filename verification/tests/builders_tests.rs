use roguelike_engine::bsp_farm::BspFarmBuilder;
use roguelike_engine::map_builders::Rect;
use roguelike_engine::simple_map::SimpleMapBuilder;
use roguelike_engine::tiles::TileType;

fn apart(a: &Rect, b: &Rect) -> bool {
    a.x2 <= b.x1 || b.x2 <= a.x1 || a.y2 <= b.y1 || b.y2 <= a.y1
}

fn within(r: &Rect, o: &Rect) -> bool {
    o.x1 <= r.x1 && r.x2 <= o.x2 && o.y1 <= r.y1 && r.y2 <= o.y2
}

#[test]
fn rect_helpers() {
    let r = Rect::new(2, 3, 4, 5);
    assert_eq!(r, Rect { x1: 2, y1: 3, x2: 6, y2: 8 });
    assert_eq!(r.width(), 4);
    assert_eq!(r.height(), 5);
    assert_eq!(r.center(), (4, 5));
    assert!(r.intersect(&Rect::new(6, 8, 1, 1)));
    assert!(!r.intersect(&Rect::new(7, 8, 1, 1)));
}

#[test]
fn splitting_a_plot_gives_separate_plots_inside_it() {
    let mut rng = rltk::RandomNumberGenerator::new();
    for _ in 0..10 {
        let mut b = BspFarmBuilder::new(1, (60, 50));
        let outer = Rect { x1: 1, y1: 1, x2: 59, y2: 49 };
        b.rects.push(Rect { x1: 0, y1: 0, x2: 1, y2: 1 });
        b.rects.push(outer);
        b.add_subrects_recursive(outer, &mut rng);
        // the first plot stays, the split one is replaced by its parts
        assert_eq!(b.rects[0], Rect { x1: 0, y1: 0, x2: 1, y2: 1 });
        let parts = &b.rects[1..];
        assert!(parts.len() >= 2);
        for (i, p) in parts.iter().enumerate() {
            assert!(within(p, &outer));
            for q in &parts[i + 1..] {
                assert!(apart(p, q));
            }
        }
    }
}

#[test]
fn a_narrow_plot_is_cut_side_by_side() {
    let mut rng = rltk::RandomNumberGenerator::new();
    let mut b = BspFarmBuilder::new(1, (100, 10));
    let plot = Rect { x1: 0, y1: 0, x2: 20, y2: 4 };
    b.rects.push(plot);
    b.add_subrects_recursive(plot, &mut rng);
    // halves of 10 are not split again
    assert_eq!(b.rects, vec![Rect { x1: 0, y1: 0, x2: 9, y2: 4 }, Rect { x1: 10, y1: 0, x2: 20, y2: 4 }]);
}

#[test]
fn farm_keeps_its_border_and_puts_stairs_in_the_last_plot() {
    let mut b = BspFarmBuilder::new(1, (40, 30));
    b.map.tiles = vec![TileType::Water; 40 * 30];
    b.build();
    let w = 40;
    let h = 30;
    let last = *b.rects.last().unwrap();
    let (sx, sy) = last.center();
    let stairs = sy as usize * w + sx as usize;
    assert_eq!(b.map.tiles[stairs], TileType::StairsDown);
    for k in 0..w * h {
        let (x, y) = (k % w, k / w);
        let border = x == 0 || y == 0 || x == w - 1 || y == h - 1;
        if k != stairs {
            if border {
                assert_eq!(b.map.tiles[k], TileType::Water);
            } else {
                assert!(matches!(b.map.tiles[k], TileType::Dirt | TileType::Wheat | TileType::WoodWall));
            }
        }
    }
    assert_eq!(b.rooms, b.rects);
    let (cx, cy) = b.rooms[0].center();
    assert_eq!(b.starting_position.ps[0].x, cx);
    assert_eq!(b.starting_position.ps[0].y, cy);
}

#[test]
fn simple_dungeon_rooms_are_apart_and_dug() {
    for _ in 0..5 {
        let mut b = SimpleMapBuilder::new(1, (40, 30));
        b.build_map();
        assert!(!b.rooms.is_empty() && b.rooms.len() <= 10);
        for (i, r) in b.rooms.iter().enumerate() {
            assert!(r.x1 >= 1 && r.x2 <= 38 && r.y1 >= 1 && r.y2 <= 28);
            assert!((4..8).contains(&r.width()) && (4..8).contains(&r.height()));
            for q in &b.rooms[i + 1..] {
                assert!(!r.intersect(q));
            }
            // the inside of every room is floor (or the stairs)
            for y in r.y1..r.y2 {
                for x in r.x1..r.x2 {
                    let t = b.map.tiles[y as usize * 40 + x as usize];
                    assert!(t == TileType::Floor || t == TileType::StairsDown);
                }
            }
        }
        let (sx, sy) = b.rooms.last().unwrap().center();
        assert_eq!(b.map.tiles[sy as usize * 40 + sx as usize], TileType::StairsDown);
        assert!(b.map.tiles.iter().all(|t| matches!(t, TileType::Wall | TileType::Floor | TileType::StairsDown)));
    }
}

#[test]
fn arena_is_walled_in() {
    let mut b = roguelike_engine::village::AernaBuilder::new((5, 4));
    b.build();
    let w = 5;
    for k in 0..20 {
        let (x, y) = (k % w, k / w);
        let border = x == 0 || y == 0 || x == 4 || y == 3;
        assert_eq!(b.map.tiles[k], if border { TileType::Wall } else { TileType::Floor });
    }
    assert_eq!(b.starting_position.ps[0], roguelike_engine::utils::Point::new(2, 2));
}

#[test]
fn village_has_a_river_near_the_bottom() {
    let mut b = roguelike_engine::village::VillageBuilder::new((20, 15));
    b.build();
    let t = |x: usize, y: usize| b.map.tiles[y * 20 + x];
    assert_eq!(t(0, 0), TileType::Wall);
    assert_eq!(t(19, 7), TileType::Wall);
    assert_eq!(t(5, 5), TileType::Grass);
    // rows 6 to 11 of 15 are river
    assert_eq!(t(5, 6), TileType::Water);
    assert_eq!(t(5, 11), TileType::Water);
    assert_eq!(t(5, 12), TileType::Grass);
    assert_eq!(t(0, 8), TileType::Wall);
}

#[test]
fn village_world_stacks_villages_in_the_first_column() {
    let mut b = roguelike_engine::village::VillageWorldBuilder::new((320, 170));
    b.build();
    let w = 320;
    let t = |x: usize, y: usize| b.map.tiles[y * w + x];
    // first village: wall border, river rows 71..=76
    assert_eq!(t(0, 0), TileType::Wall);
    assert_eq!(t(149, 10), TileType::Wall);
    assert_eq!(t(10, 10), TileType::Grass);
    assert_eq!(t(10, 72), TileType::Water);
    // second village starts at row 80
    assert_eq!(t(10, 80), TileType::Wall);
    assert_eq!(t(10, 152), TileType::Water);
    // below the villages and right of them: grass inside the border, water on it
    assert_eq!(t(10, 165), TileType::Grass);
    assert_eq!(t(200, 100), TileType::Grass);
    assert_eq!(t(319, 100), TileType::Water);
    assert_eq!(t(200, 169), TileType::Water);
    assert_eq!(b.starting_position.ps[0], roguelike_engine::utils::Point::new(160, 85));
}

#[test]
fn builders_record_their_snapshots() {
    let mut s = SimpleMapBuilder::new(1, (40, 30));
    s.build_map();
    assert_eq!(s.history.len(), 11 + s.rooms.len());
    assert_eq!(s.history.last().unwrap().tiles, s.map.tiles);
    // cells off every room and corridor stay wall
    assert_eq!(s.map.tiles[0], TileType::Wall);

    let mut d = roguelike_engine::map_builders::DrunkardsBombingRunBuilder::new(1, (40, 30));
    d.build_map();
    assert_eq!(d.history.len(), 23 + d.rooms.len());

    let mut a = roguelike_engine::village::AernaBuilder::new((5, 4));
    a.build();
    assert_eq!(a.history.len(), 1);
    assert_eq!(a.history[0].tiles, a.map.tiles);

    let mut v = roguelike_engine::village::VillageBuilder::new((20, 15));
    v.build();
    assert_eq!(v.history.len(), 1);

    let mut f = BspFarmBuilder::new(1, (60, 50));
    f.build();
    assert_eq!(f.history.len(), f.rects.len());

    let mut wb = roguelike_engine::village::VillageWorldBuilder::new((320, 170));
    wb.build();
    assert_eq!(wb.history.len(), 2 + 170 / 80);
    assert_eq!(wb.history.last().unwrap(), &wb.map.tiles);
}
