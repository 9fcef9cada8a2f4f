//! Farmland made by splitting the map into plots: plots on the edge become
//! wheat fields, inner plots get a wooden building.

use vstd::prelude::*;
use crate::snapshots::{take_tile_snapshot, tile_history_grew};
use rltk::RandomNumberGenerator;
use crate::components::Position;
use crate::map::TileMap;
use crate::map_builders::Rect;
use crate::rng::{rng_new, rng_range, rng_roll_dice};
use crate::map::{spec_xy_idx, lemma_xy_idx_bound, law_xy_idx_round_trip};
use crate::map_builders::{apply_room_to_map, room_tile};
use crate::tiles::TileType;
use crate::utils::{fits_i32, div_trunc};
use crate::utils::Point;

verus! {

/// Plots are split while half of them is wider (or higher) than this.
const MIN_ROOM_SIZE: i32 = 10;

/// The smallest building side.
const MIN_BUILDING_SIZE: i32 = 4;

/// `r` lies inside `outer`.
pub open spec fn rect_within(r: Rect, outer: Rect) -> bool {
    outer.x1 <= r.x1 && r.x2 <= outer.x2 && outer.y1 <= r.y1 && r.y2 <= outer.y2
}

/// `a` and `b` share no cell: one lies wholly left of, right of, above or
/// below the other.
pub open spec fn rects_apart(a: Rect, b: Rect) -> bool {
    a.x2 <= b.x1 || b.x2 <= a.x1 || a.y2 <= b.y1 || b.y2 <= a.y1
}

/// `r` has its corners in order, at non-negative coordinates.
pub open spec fn rect_ok(r: Rect) -> bool {
    0 <= r.x1 <= r.x2 && 0 <= r.y1 <= r.y2
}

/// The plots from index `base` on lie inside `outer`, are pairwise apart,
/// and none has its far corner more than one cell before its near one.
pub open spec fn plots_of(rects: Seq<Rect>, base: int, outer: Rect) -> bool {
    &&& forall|i: int| base <= i < rects.len() ==> rect_within(#[trigger] rects[i], outer)
    &&& forall|i: int| base <= i < rects.len() ==> #[trigger] rects[i].x2 >= rects[i].x1 - 1 && rects[i].y2 >= rects[i].y1 - 1
    &&& forall|i: int, j: int| base <= i < j < rects.len() ==> rects_apart(#[trigger] rects[i], #[trigger] rects[j])
}

proof fn lemma_apart_within(a: Rect, b: Rect, outer_a: Rect, outer_b: Rect)
    requires
        rect_within(a, outer_a),
        rect_within(b, outer_b),
        rects_apart(outer_a, outer_b),
    ensures
        rects_apart(a, b),
{
}

/// Farmland on a map of plots.
pub struct BspFarmBuilder {
    pub map: TileMap,
    pub starting_position: Position,
    pub depth: usize,
    pub rooms: Vec<Rect>,
    pub rects: Vec<Rect>,
    /// Snapshots of the terrain while the farm is built.
    pub history: Vec<Vec<TileType>>,
}

impl BspFarmBuilder {
    /// A builder for a map of `size` cells (all water), starting at `(0, 0)`,
    /// with no plots yet.
    pub fn new(new_depth: usize, size: (usize, usize)) -> (b: BspFarmBuilder)
        requires
            size.0 * size.1 <= usize::MAX,
        ensures
            b.map.size == size,
            b.map.tiles@.len() == size.0 * size.1,
            forall|i: int| 0 <= i < b.map.tiles@.len() ==> #[trigger] b.map.tiles@[i] == crate::tiles::TileType::Water,
            b.starting_position.ps@ == seq![Point { x: 0, y: 0 }],
            b.depth == new_depth,
            b.rooms@.len() == 0,
            b.rects@.len() == 0,
            b.history@.len() == 0,
    {
        BspFarmBuilder {
            map: TileMap::new(size),
            starting_position: Position { ps: vec![Point::new(0, 0)] },
            depth: new_depth,
            rooms: Vec::new(),
            rects: Vec::new(),
            history: Vec::new(),
        }
    }

    /// Splits `rect` into plots: the last listed plot (the one being split)
    /// is taken off and replaced by the plots `rect` splits into. A plot is
    /// cut in two halves, side by side or one above the other, with a
    /// one-cell lane between them (the first half is one cell narrower);
    /// halves more than `MIN_ROOM_SIZE` across are split again. A plot much
    /// wider than high is cut side by side, one much higher than wide one
    /// above the other; otherwise the way is chosen at random.
    pub fn add_subrects_recursive(&mut self, rect: Rect, rng: &mut RandomNumberGenerator)
        requires
            rect_ok(rect),
            rect.x2 <= i32::MAX,
            rect.y2 <= i32::MAX,
        ensures
            final(self).map == old(self).map,
            final(self).starting_position == old(self).starting_position,
            final(self).depth == old(self).depth,
            final(self).rooms@ == old(self).rooms@,
            final(self).history@ == old(self).history@,
            ({
                let base = if old(self).rects@.len() > 0 { old(self).rects@.len() - 1 } else { 0 };
                &&& final(self).rects@.len() >= base + 2
                &&& forall|i: int| 0 <= i < base ==> #[trigger] final(self).rects@[i] == old(self).rects@[i]
                &&& plots_of(final(self).rects@, base, rect)
                &&& final(self).rects@.last().x1 <= final(self).rects@.last().x2
                &&& final(self).rects@.last().y1 <= final(self).rects@.last().y2
            }),
        decreases (rect.x2 - rect.x1) + (rect.y2 - rect.y1),
    {
        if self.rects.len() > 0 {
            let last = self.rects.len() - 1;
            self.rects.remove(last);
        }
        let ghost base = self.rects@.len() as int;
        let ghost kept = self.rects@;
        let width = rect.x2 - rect.x1;
        let height = rect.y2 - rect.y1;
        let half_width = width / 2;
        let half_height = height / 2;
        let split: i32;
        if width < half_height {
            split = 3;
        } else if height < half_width {
            split = 2;
        } else {
            split = rng_roll_dice(rng, 1, 4);
        }
        if split <= 2 {
            let h1 = Rect { x1: rect.x1, y1: rect.y1, x2: rect.x1 + half_width - 1, y2: rect.y1 + height };
            let h2 = Rect { x1: rect.x1 + half_width, y1: rect.y1, x2: rect.x1 + half_width + half_width, y2: rect.y1 + height };
            self.rects.push(h1);
            if half_width > MIN_ROOM_SIZE {
                self.add_subrects_recursive(h1, rng);
            }
            let ghost mid = self.rects@.len() as int;
            self.rects.push(h2);
            if half_width > MIN_ROOM_SIZE {
                self.add_subrects_recursive(h2, rng);
            }
            proof {
                self.lemma_two_halves(kept, base, mid, h1, h2, rect);
            }
        } else {
            let v1 = Rect { x1: rect.x1, y1: rect.y1, x2: rect.x1 + width, y2: rect.y1 + half_height - 1 };
            let v2 = Rect { x1: rect.x1, y1: rect.y1 + half_height, x2: rect.x1 + width, y2: rect.y1 + half_height + half_height };
            self.rects.push(v1);
            if half_height > MIN_ROOM_SIZE {
                self.add_subrects_recursive(v1, rng);
            }
            let ghost mid = self.rects@.len() as int;
            self.rects.push(v2);
            if half_height > MIN_ROOM_SIZE {
                self.add_subrects_recursive(v2, rng);
            }
            proof {
                self.lemma_two_halves(kept, base, mid, v1, v2, rect);
            }
        }
    }

    /// The plots of two halves that are apart and inside `rect` are plots of `rect`.
    proof fn lemma_two_halves(&self, kept: Seq<Rect>, base: int, mid: int, a: Rect, b: Rect, rect: Rect)
        requires
            0 <= base < mid < self.rects@.len(),
            forall|i: int| 0 <= i < base ==> #[trigger] self.rects@[i] == kept[i],
            plots_of(self.rects@.subrange(0, mid), base, a),
            plots_of(self.rects@, mid, b),
            rect_within(a, rect),
            rect_within(b, rect),
            rects_apart(a, b),
        ensures
            plots_of(self.rects@, base, rect),
    {
        let s = self.rects@;
        let first = s.subrange(0, mid);
        assert forall|i: int| base <= i < s.len() implies rect_within(#[trigger] s[i], rect) by {
            if i < mid {
                assert(rect_within(first[i], a));
            }
        }
        assert forall|i: int| base <= i < s.len() implies #[trigger] s[i].x2 >= s[i].x1 - 1 && s[i].y2 >= s[i].y1 - 1 by {
            if i < mid {
                assert(first[i] == s[i]);
            }
        }
        assert forall|i: int, j: int| base <= i < j < s.len() implies rects_apart(#[trigger] s[i], #[trigger] s[j]) by {
            if j < mid {
                assert(rects_apart(first[i], first[j]));
            } else if i < mid {
                assert(rect_within(first[i], a));
                lemma_apart_within(s[i], s[j], a, b);
            }
        }
    }
}

/// Cell index `k` of a map `w` by `h` is off its border.
pub open spec fn inner_cell(w: int, h: int, k: int) -> bool {
    1 <= k % w < w - 1 && 1 <= k / w < h - 1
}

/// The terrain that farmland is made of.
pub open spec fn farm_tile(t: TileType) -> bool {
    t == TileType::Dirt || t == TileType::Wheat || t == TileType::WoodWall || t == TileType::StairsDown
}

/// The map's border is as it was and every inner cell is farmland.
pub open spec fn farm_so_far(before: Seq<TileType>, tiles: Seq<TileType>, w: int, h: int) -> bool {
    &&& tiles.len() == before.len()
    &&& forall|k: int| 0 <= k < tiles.len() ==> #[trigger] tiles[k] == before[k] || (inner_cell(w, h, k) && farm_tile(tiles[k]))
}

/// The middle cell of `r`.
pub open spec fn spec_center(r: Rect) -> (i32, i32) {
    (div_trunc(r.x1 + r.x2, 2) as i32, div_trunc(r.y1 + r.y2, 2) as i32)
}

/// The plot covering everything inside the border of a `w` by `h` map.
pub open spec fn inner_plot(w: int, h: int) -> Rect {
    Rect { x1: 1, y1: 1, x2: (w - 1) as i32, y2: (h - 1) as i32 }
}

impl BspFarmBuilder {
    /// Lays out the farm: every inner cell becomes dirt; the inside of the
    /// border is split into plots (`add_subrects_recursive`), each also
    /// listed as a room; a plot touching the map's edge (its left or top on
    /// the first inner row or column, or its right or bottom within five
    /// cells of the far edge) becomes a wheat field inset by one cell, and
    /// any other plot wider and higher than five cells gets the walls of a
    /// wooden building of random size (at least four) and place inside it.
    /// The start is the centre of the first room, and stairs down go at the
    /// centre of the last plot. The border keeps its terrain. A snapshot of
    /// the terrain is recorded after each plot.
    pub fn build(&mut self)
        requires
            old(self).map.tiles_fit(),
            2 <= old(self).map.size.0 <= 0x3fff_ffff,
            2 <= old(self).map.size.1 <= 0x3fff_ffff,
            old(self).rooms@.len() > 0 ==> fits_i32(old(self).rooms@[0].x1 + old(self).rooms@[0].x2)
                && fits_i32(old(self).rooms@[0].y1 + old(self).rooms@[0].y2),
        ensures
            final(self).map.tiles_fit(),
            final(self).map.size == old(self).map.size,
            final(self).map.blocked@ == old(self).map.blocked@,
            final(self).map.fire_turns@ == old(self).map.fire_turns@,
            final(self).map.tile_content@ == old(self).map.tile_content@,
            final(self).rects@.len() >= 2,
            plots_of(final(self).rects@, 0, inner_plot(old(self).map.size.0 as int, old(self).map.size.1 as int)),
            final(self).rooms@ == old(self).rooms@ + final(self).rects@,
            ({
                let w = old(self).map.size.0 as int;
                let h = old(self).map.size.1 as int;
                let c = spec_center(final(self).rects@.last());
                let stairs = spec_xy_idx(w, c.0 as int, c.1 as int);
                &&& 0 <= stairs < final(self).map.tiles@.len()
                &&& final(self).map.tiles@[stairs] == TileType::StairsDown
                &&& final(self).map.tiles@.len() == old(self).map.tiles@.len()
                &&& forall|k: int| 0 <= k < final(self).map.tiles@.len() && k != stairs ==> #[trigger] final(self).map.tiles@[k]
                    == old(self).map.tiles@[k] || (inner_cell(w, h, k) && farm_tile(final(self).map.tiles@[k]))
            }),
            ({
                let c = spec_center(final(self).rooms@[0]);
                final(self).starting_position.ps@ == seq![Point { x: c.0, y: c.1 }]
            }),
            final(self).depth == old(self).depth,
            tile_history_grew(old(self).history@, final(self).history@, final(self).rects@.len() as int),
    {
        let ghost h0 = self.history@;
        let w = self.map.size.0;
        let h = self.map.size.1;
        let ghost wi = w as int;
        let ghost hi = h as int;
        let ghost before = self.map.tiles@;
        let ghost m0 = self.map;
        proof {
            assert(wi * hi > 0) by (nonlinear_arith) requires wi >= 2, hi >= 2;
        }
        let mut x: usize = 1;
        while x < w - 1
            invariant
                self.map.tiles_fit(),
                self.map.size == m0.size,
                self.map.blocked@ == m0.blocked@,
                self.map.fire_turns@ == m0.fire_turns@,
                self.map.tile_content@ == m0.tile_content@,
                w == m0.size.0,
                h == m0.size.1,
                wi == w,
                hi == h,
                2 <= w <= 0x3fff_ffff,
                2 <= h <= 0x3fff_ffff,
                before == m0.tiles@,
                self.rooms@ == old(self).rooms@,
                self.depth == old(self).depth,
                self.history@ == h0,
                1 <= x <= w - 1,
                farm_so_far(before, self.map.tiles@, wi, hi),
            decreases w - x,
        {
            let mut y: usize = 1;
            while y < h - 1
                invariant
                    self.map.tiles_fit(),
                    self.map.size == m0.size,
                    self.map.blocked@ == m0.blocked@,
                    self.map.fire_turns@ == m0.fire_turns@,
                    self.map.tile_content@ == m0.tile_content@,
                    w == m0.size.0,
                    h == m0.size.1,
                    wi == w,
                    hi == h,
                    2 <= w <= 0x3fff_ffff,
                    2 <= h <= 0x3fff_ffff,
                    before == m0.tiles@,
                    self.rooms@ == old(self).rooms@,
                    self.depth == old(self).depth,
                    self.history@ == h0,
                    1 <= x < w - 1,
                    1 <= y <= h - 1,
                    farm_so_far(before, self.map.tiles@, wi, hi),
                decreases h - y,
            {
                proof {
                    lemma_xy_idx_bound(wi, hi, x as int, y as int);
                    law_xy_idx_round_trip(wi, x as int, y as int, 0);
                }
                let idx = self.map.xy_idx((x, y));
                self.map.tiles.set(idx, TileType::Dirt);
                y += 1;
            }
            x += 1;
        }
        let mut rng = rng_new();
        self.rects.clear();
        let first_room = Rect::new(1, 1, w as i32 - 2, h as i32 - 2);
        self.rects.push(first_room);
        self.add_subrects_recursive(first_room, &mut rng);
        let rooms = self.rects.clone();
        proof {
            assert(rooms@ == self.rects@);
        }
        let ghost rooms_before = self.rooms@;
        let mut i: usize = 0;
        while i < rooms.len()
            invariant
                self.map.tiles_fit(),
                self.map.size == m0.size,
                self.map.blocked@ == m0.blocked@,
                self.map.fire_turns@ == m0.fire_turns@,
                self.map.tile_content@ == m0.tile_content@,
                w == m0.size.0,
                h == m0.size.1,
                wi == w,
                hi == h,
                2 <= w <= 0x3fff_ffff,
                2 <= h <= 0x3fff_ffff,
                before == m0.tiles@,
                self.depth == old(self).depth,
                rooms_before == old(self).rooms@,
                self.rects@ == rooms@,
                tile_history_grew(h0, self.history@, i as int),
                rooms@.len() >= 2,
                plots_of(rooms@, 0, inner_plot(wi, hi)),
                i <= rooms@.len(),
                self.rooms@ == rooms_before + rooms@.subrange(0, i as int),
                farm_so_far(before, self.map.tiles@, wi, hi),
            decreases rooms@.len() - i,
        {
            let room = rooms[i];
            self.rooms.push(room);
            proof {
                assert(rect_within(rooms@[i as int], inner_plot(wi, hi)));
                assert(self.rooms@ =~= rooms_before + rooms@.subrange(0, i + 1));
            }
            if room.x1 == 1 || room.y1 == 1 || room.x2 > w as i32 - 5 || room.y2 > h as i32 - 5 {
                let new_rect = Rect::new(room.x1 + 1, room.y1 + 1, room.width() - 2, room.height() - 2);
                self.apply_farm_room(&new_rect, TileType::Wheat, true);
            } else {
                if room.width() > MIN_BUILDING_SIZE + 1 && room.height() > MIN_BUILDING_SIZE + 1 {
                    let b_width = rng_range(&mut rng, MIN_BUILDING_SIZE, room.width());
                    let b_height = rng_range(&mut rng, MIN_BUILDING_SIZE, room.height());
                    let bx = rng_range(&mut rng, 0, room.width() - b_width);
                    let by = rng_range(&mut rng, 0, room.height() - b_height);
                    let building = Rect::new(room.x1 + bx, room.y1 + by, b_width, b_height);
                    self.apply_farm_room(&building, TileType::WoodWall, false);
                }
            }
            let ghost hb = self.history@;
            take_tile_snapshot(&mut self.history, &self.map.tiles);
            proof {
                assert forall|q: int| 0 <= q < h0.len() implies #[trigger] self.history@[q] == h0[q] by {
                    assert(self.history@[q] == hb[q]);
                }
            }
            i += 1;
        }
        proof {
            assert(rooms@.subrange(0, rooms@.len() as int) =~= rooms@);
        }
        let start = self.rooms[0].center();
        self.starting_position = Position { ps: vec![Point { x: start.0, y: start.1 }] };
        let last = rooms.len() - 1;
        let stairs = rooms[last].center();
        proof {
            let r = rooms@[last as int];
            assert(rect_within(r, inner_plot(wi, hi)));
            assert(r == rooms@.last());
            lemma_xy_idx_bound(wi, hi, stairs.0 as int, stairs.1 as int);
        }
        let stairs_idx = self.map.xy_idx((stairs.0 as usize, stairs.1 as usize));
        let ghost pre = self.map.tiles@;
        self.map.tiles.set(stairs_idx, TileType::StairsDown);
        proof {
            assert forall|k: int| 0 <= k < self.map.tiles@.len() && k != stairs_idx as int implies #[trigger] self.map.tiles@[k] == before[k]
                || (inner_cell(wi, hi, k) && farm_tile(self.map.tiles@[k])) by {
                assert(pre[k] == before[k] || (inner_cell(wi, hi, k) && farm_tile(pre[k])));
            }
        }
    }

    /// Applies `room` (filled or as an outline) in farmland terrain, for a
    /// room inside the border: each cell becomes what `room_tile` says.
    fn apply_farm_room(&mut self, room: &Rect, tile: TileType, filled: bool)
        requires
            old(self).map.tiles_fit(),
            old(self).map.size.0 <= i32::MAX,
            old(self).map.size.1 <= i32::MAX,
            farm_tile(tile),
            1 <= room.x1,
            1 <= room.y1,
            room.x2 <= old(self).map.size.0 - 1,
            room.y2 <= old(self).map.size.1 - 1,
        ensures
            final(self).map.tiles_fit(),
            final(self).map.size == old(self).map.size,
            final(self).map.blocked@ == old(self).map.blocked@,
            final(self).map.fire_turns@ == old(self).map.fire_turns@,
            final(self).map.tile_content@ == old(self).map.tile_content@,
            final(self).rooms@ == old(self).rooms@,
            final(self).rects@ == old(self).rects@,
            final(self).depth == old(self).depth,
            final(self).starting_position == old(self).starting_position,
            final(self).history@ == old(self).history@,
            final(self).map.tiles@.len() == old(self).map.tiles@.len(),
            forall|k: int| 0 <= k < old(self).map.tiles@.len() ==> #[trigger] final(self).map.tiles@[k]
                == room_tile(old(self).map, *room, tile, filled, k),
            forall|before: Seq<TileType>| farm_so_far(before, old(self).map.tiles@, old(self).map.size.0 as int, old(self).map.size.1 as int)
                ==> farm_so_far(before, final(self).map.tiles@, old(self).map.size.0 as int, old(self).map.size.1 as int),
    {
        let ghost m0 = self.map;
        apply_room_to_map(&mut self.map, room, tile, filled);
        proof {
            let w = m0.size.0 as int;
            let h = m0.size.1 as int;
            assert forall|k: int| 0 <= k < m0.tiles@.len() && self.map.tiles@[k] != m0.tiles@[k] implies inner_cell(w, h, k)
                && farm_tile(self.map.tiles@[k]) by {
                assert(self.map.tiles@[k] == room_tile(m0, *room, tile, filled, k));
            }
        }
    }
}

} // verus!
