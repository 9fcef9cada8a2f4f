//! Map generation helpers: carving rooms and corridors into a map.

use vstd::prelude::*;
use crate::map::{TileMap, spec_xy_idx, lemma_xy_idx_bound, lemma_idx_parts};
use crate::rng::{rng_new, rng_range};
use rltk::RandomNumberGenerator;
use crate::tiles::TileType;
use crate::components::Position;
use crate::utils::{Point, fits_i32, div_i32, div_trunc};

verus! {

/// A rectangle of cells from corner `(x1, y1)` (included) to corner
/// `(x2, y2)` (excluded).
#[derive(PartialEq, Eq, Structural, Copy, Clone, Debug)]
pub struct Rect {
    pub x1: i32,
    pub y1: i32,
    pub x2: i32,
    pub y2: i32,
}

impl Rect {
    /// The rectangle `w` wide and `h` high whose top-left corner is `(x, y)`.
    pub fn new(x: i32, y: i32, w: i32, h: i32) -> (r: Rect)
        requires
            fits_i32(x + w),
            fits_i32(y + h),
        ensures
            r == (Rect { x1: x, y1: y, x2: (x + w) as i32, y2: (y + h) as i32 }),
    {
        Rect { x1: x, y1: y, x2: x + w, y2: y + h }
    }

    /// `x2 - x1`.
    pub fn width(&self) -> (r: i32)
        requires
            fits_i32(self.x2 - self.x1),
        ensures
            r == self.x2 - self.x1,
    {
        self.x2 - self.x1
    }

    /// `y2 - y1`.
    pub fn height(&self) -> (r: i32)
        requires
            fits_i32(self.y2 - self.y1),
        ensures
            r == self.y2 - self.y1,
    {
        self.y2 - self.y1
    }

    /// The middle cell, halves rounded towards zero.
    pub fn center(&self) -> (r: (i32, i32))
        requires
            fits_i32(self.x1 + self.x2),
            fits_i32(self.y1 + self.y2),
        ensures
            r == (div_trunc(self.x1 + self.x2, 2) as i32, div_trunc(self.y1 + self.y2, 2) as i32),
    {
        (div_i32(self.x1 + self.x2, 2), div_i32(self.y1 + self.y2, 2))
    }

    /// Whether the two rectangles overlap or touch, edges included.
    pub fn intersect(&self, other: &Rect) -> (r: bool)
        ensures
            r == (self.x1 <= other.x2 && self.x2 >= other.x1 && self.y1 <= other.y2 && self.y2 >= other.y1),
    {
        self.x1 <= other.x2 && self.x2 >= other.x1 && self.y1 <= other.y2 && self.y2 >= other.y1
    }
}

/// Cell `(x, y)` lies on a map of `w` by `h` cells.
pub open spec fn cell_on(w: int, h: int, x: int, y: int) -> bool {
    0 <= x < w && 0 <= y < h
}

/// Both corners of `room` lie on the map.
pub open spec fn spec_rect_in_bounds(map: TileMap, room: Rect) -> bool {
    cell_on(map.size.0 as int, map.size.1 as int, room.x1 as int, room.y1 as int)
        && cell_on(map.size.0 as int, map.size.1 as int, room.x2 as int, room.y2 as int)
}

/// Whether both corners of `room` lie on the map.
pub fn rect_in_bounds(map: &TileMap, room: &Rect) -> (r: bool)
    requires
        map.size.0 <= i32::MAX,
        map.size.1 <= i32::MAX,
    ensures
        r == spec_rect_in_bounds(*map, *room),
{
    room.x1 >= 0 && room.y1 >= 0 && room.x2 >= 0 && room.y2 >= 0
        && map.in_bounds((room.x1 as usize, room.y1 as usize))
        && map.in_bounds((room.x2 as usize, room.y2 as usize))
}

/// Cell `(x, y)` is on the outline of `room`.
pub open spec fn on_outline(room: Rect, x: int, y: int) -> bool {
    x == room.x1 || x == room.x2 - 1 || y == room.y1 || y == room.y2 - 1
}

/// The tile of cell `k` after `apply_room_to_map`.
pub open spec fn room_tile(map: TileMap, room: Rect, tile_type: TileType, filled: bool, k: int) -> TileType {
    let w = map.size.0 as int;
    let x = k % w;
    let y = k / w;
    if spec_rect_in_bounds(map, room) && room.x1 <= x < room.x2 && room.y1 <= y < room.y2
        && (filled || on_outline(room, x, y)) {
        tile_type
    } else {
        map.tiles@[k]
    }
}

/// Sets the cells of `room` (all of them when `filled`, else its outline)
/// to `tile_type`, when both corners of the room lie on the map; otherwise
/// changes nothing.
pub fn apply_room_to_map(map: &mut TileMap, room: &Rect, tile_type: TileType, filled: bool)
    requires
        old(map).tiles_fit(),
        old(map).size.0 <= i32::MAX,
        old(map).size.1 <= i32::MAX,
    ensures
        final(map).tiles_fit(),
        final(map).size == old(map).size,
        final(map).blocked@ == old(map).blocked@,
        final(map).fire_turns@ == old(map).fire_turns@,
        final(map).tile_content@ == old(map).tile_content@,
        final(map).tiles@.len() == old(map).tiles@.len(),
        forall|k: int| 0 <= k < old(map).tiles@.len() ==> #[trigger] final(map).tiles@[k] == room_tile(*old(map), *room, tile_type, filled, k),
{
    if !rect_in_bounds(map, room) {
        proof {
            assert forall|k: int| 0 <= k < old(map).tiles@.len() implies #[trigger] map.tiles@[k] == room_tile(*old(map), *room, tile_type, filled, k) by {}
        }
        return;
    }
    let ghost m0 = *map;
    let w = map.size.0;
    let mut y = room.y1;
    while y < room.y2
        invariant
            m0 == *old(map),
            map.tiles_fit(),
            map.size == m0.size,
            map.blocked@ == m0.blocked@,
            map.fire_turns@ == m0.fire_turns@,
            map.tile_content@ == m0.tile_content@,
            map.tiles@.len() == m0.tiles@.len(),
            w == m0.size.0,
            w <= i32::MAX,
            m0.size.1 <= i32::MAX,
            spec_rect_in_bounds(m0, *room),
            room.y1 <= y,
            y <= room.y2 || y == room.y1,
            forall|k: int| 0 <= k < m0.tiles@.len() ==> #[trigger] map.tiles@[k] == if k / (w as int) < y {
                room_tile(m0, *room, tile_type, filled, k)
            } else {
                m0.tiles@[k]
            },
        decreases room.y2 - y,
    {
        let mut x = room.x1;
        while x < room.x2
            invariant
                m0 == *old(map),
                map.tiles_fit(),
                map.size == m0.size,
                map.blocked@ == m0.blocked@,
                map.fire_turns@ == m0.fire_turns@,
                map.tile_content@ == m0.tile_content@,
                map.tiles@.len() == m0.tiles@.len(),
                w == m0.size.0,
                w <= i32::MAX,
                m0.size.1 <= i32::MAX,
                spec_rect_in_bounds(m0, *room),
                room.y1 <= y < room.y2,
                room.x1 <= x,
                x <= room.x2 || x == room.x1,
                forall|k: int| 0 <= k < m0.tiles@.len() ==> #[trigger] map.tiles@[k] == if k / (w as int) < y || (k / (w as int) == y && k % (w as int) < x) {
                    room_tile(m0, *room, tile_type, filled, k)
                } else {
                    m0.tiles@[k]
                },
            decreases room.x2 - x,
        {
            proof {
                lemma_xy_idx_bound(w as int, m0.size.1 as int, x as int, y as int);
                lemma_cell_parts(w as int, x as int, y as int);
            }
            if filled || x == room.x1 || x == room.x2 - 1 || y == room.y1 || y == room.y2 - 1 {
                map.set_tile((x as usize, y as usize), tile_type);
            }
            proof {
                let i = spec_xy_idx(w as int, x as int, y as int);
                assert forall|k: int| 0 <= k < m0.tiles@.len() implies #[trigger] map.tiles@[k] == if k / (w as int) < y || (k / (w as int) == y && k % (w as int) < x + 1) {
                    room_tile(m0, *room, tile_type, filled, k)
                } else {
                    m0.tiles@[k]
                } by {
                    if k == i {
                    } else {
                        assert(k / (w as int) != y || k % (w as int) != x) by {
                            lemma_idx_parts(k, w as int);
                        }
                    }
                }
            }
            x += 1;
        }
        proof {
            assert forall|k: int| 0 <= k < m0.tiles@.len() implies #[trigger] map.tiles@[k] == if k / (w as int) < y + 1 {
                room_tile(m0, *room, tile_type, filled, k)
            } else {
                m0.tiles@[k]
            } by {
                if k / (w as int) == y {
                    vstd::arithmetic::div_mod::lemma_fundamental_div_mod(k, w as int);
                    if k % (w as int) >= room.x2 || k % (w as int) < room.x1 {
                    }
                }
            }
        }
        y += 1;
    }
    proof {
        assert forall|k: int| 0 <= k < old(map).tiles@.len() implies #[trigger] map.tiles@[k] == room_tile(*old(map), *room, tile_type, filled, k) by {
            if k / (w as int) >= y {
            }
        }
    }
}

/// Cell `(x, y)` of a map `w` wide has index `y * w + x`, column `x` and row `y`.
proof fn lemma_cell_parts(w: int, x: int, y: int)
    requires
        0 <= x < w,
        0 <= y,
    ensures
        spec_xy_idx(w, x, y) % w == x,
        spec_xy_idx(w, x, y) / w == y,
{
    vstd::arithmetic::div_mod::lemma_fundamental_div_mod_converse(spec_xy_idx(w, x, y), w, y, x);
}

/// The smaller of `a` and `b`.
pub open spec fn min_i(a: int, b: int) -> int {
    if a <= b { a } else { b }
}

/// The larger of `a` and `b`.
pub open spec fn max_i(a: int, b: int) -> int {
    if a <= b { b } else { a }
}

/// Index `k` is that of a cell `(x, y)` of a map `w` wide with `lo <= y <= hi`.
pub open spec fn in_column(w: int, x: int, lo: int, hi: int, k: int) -> bool {
    exists|y: int| lo <= y <= hi && k == #[trigger] spec_xy_idx(w, x, y)
}

/// Index `k` lies between those of cells `(lo, y)` and `(hi, y)` of a map `w` wide.
pub open spec fn in_row(w: int, y: int, lo: int, hi: int, k: int) -> bool {
    spec_xy_idx(w, lo, y) <= k <= spec_xy_idx(w, hi, y)
}

/// A map of `len` cells with `len > 0` is at least one cell wide.
proof fn lemma_width_positive(w: int, h: int)
    requires
        0 <= w,
        0 <= h,
        w * h > 0,
    ensures
        w > 0,
{
    if w == 0 {
        assert(w * h == 0) by (nonlinear_arith) requires w == 0;
    }
}

/// The index of a cell grows with its row.
pub(crate) proof fn lemma_index_monotone_in_row(w: int, x: int, y1: int, y2: int)
    requires
        0 <= w,
        y1 <= y2,
    ensures
        spec_xy_idx(w, x, y1) <= spec_xy_idx(w, x, y2),
{
    assert(y1 * w <= y2 * w) by (nonlinear_arith) requires y1 <= y2, 0 <= w;
}

/// Sets to floor the cells `(x, y)` for every `y` from `min(y1, y2)` to
/// `max(y1, y2)`, both included; every other cell keeps its terrain.
pub fn apply_vertical_corridor(map: &mut TileMap, x: i32, y1: i32, y2: i32)
    requires
        old(map).tiles_fit(),
        0 <= x,
        0 <= min_i(y1 as int, y2 as int),
        spec_xy_idx(old(map).size.0 as int, x as int, max_i(y1 as int, y2 as int)) < old(map).tiles@.len(),
    ensures
        final(map).tiles_fit(),
        final(map).size == old(map).size,
        final(map).blocked@ == old(map).blocked@,
        final(map).fire_turns@ == old(map).fire_turns@,
        final(map).tile_content@ == old(map).tile_content@,
        final(map).tiles@.len() == old(map).tiles@.len(),
        forall|k: int| 0 <= k < old(map).tiles@.len() ==> #[trigger] final(map).tiles@[k] == if in_column(
            old(map).size.0 as int, x as int, min_i(y1 as int, y2 as int), max_i(y1 as int, y2 as int), k) {
            TileType::Floor
        } else {
            old(map).tiles@[k]
        },
{
    let ghost m0 = *map;
    let ghost w = map.size.0 as int;
    let lo: i64 = if y1 <= y2 { y1 as i64 } else { y2 as i64 };
    let hi: i64 = if y1 <= y2 { y2 as i64 } else { y1 as i64 };
    proof {
        lemma_width_positive(w, m0.size.1 as int);
    }
    let mut y: i64 = lo;
    while y <= hi
        invariant
            m0 == *old(map),
            map.tiles_fit(),
            map.size == m0.size,
            map.blocked@ == m0.blocked@,
            map.fire_turns@ == m0.fire_turns@,
            map.tile_content@ == m0.tile_content@,
            map.tiles@.len() == m0.tiles@.len(),
            w == m0.size.0,
            w > 0,
            0 <= x,
            lo == min_i(y1 as int, y2 as int),
            hi == max_i(y1 as int, y2 as int),
            0 <= lo,
            lo <= y <= hi + 1,
            spec_xy_idx(w, x as int, hi as int) < m0.tiles@.len(),
            forall|k: int| 0 <= k < m0.tiles@.len() ==> #[trigger] map.tiles@[k] == if in_column(w, x as int, lo as int, y - 1, k) {
                TileType::Floor
            } else {
                m0.tiles@[k]
            },
        decreases hi + 1 - y,
    {
        proof {
            lemma_index_monotone_in_row(w, x as int, y as int, hi as int);
        }
        map.set_tile((x as usize, y as usize), TileType::Floor);
        proof {
            let i = spec_xy_idx(w, x as int, y as int);
            assert forall|k: int| 0 <= k < m0.tiles@.len() implies #[trigger] map.tiles@[k] == if in_column(w, x as int, lo as int, y as int, k) {
                TileType::Floor
            } else {
                m0.tiles@[k]
            } by {
                if k == i {
                    assert(in_column(w, x as int, lo as int, y as int, k));
                } else {
                    if in_column(w, x as int, lo as int, y as int, k) {
                        let yy = choose|yy: int| lo <= yy <= y && k == #[trigger] spec_xy_idx(w, x as int, yy);
                        if yy == y {
                            assert(false);
                        }
                        assert(in_column(w, x as int, lo as int, y - 1, k));
                    } else {
                        if in_column(w, x as int, lo as int, y - 1, k) {
                            let yy = choose|yy: int| lo <= yy <= y - 1 && k == #[trigger] spec_xy_idx(w, x as int, yy);
                            assert(in_column(w, x as int, lo as int, y as int, k));
                        }
                    }
                }
            }
        }
        y += 1;
    }
}

/// Sets to floor the cells whose indices run from that of `(min(x1, x2), y)`
/// to that of `(max(x1, x2), y)`, both included; every other cell keeps its
/// terrain.
pub fn apply_horizontal_corridor(map: &mut TileMap, x1: i32, x2: i32, y: i32)
    requires
        old(map).tiles_fit(),
        0 <= y,
        0 <= min_i(x1 as int, x2 as int),
        spec_xy_idx(old(map).size.0 as int, max_i(x1 as int, x2 as int), y as int) < old(map).tiles@.len(),
    ensures
        final(map).tiles_fit(),
        final(map).size == old(map).size,
        final(map).blocked@ == old(map).blocked@,
        final(map).fire_turns@ == old(map).fire_turns@,
        final(map).tile_content@ == old(map).tile_content@,
        final(map).tiles@.len() == old(map).tiles@.len(),
        forall|k: int| 0 <= k < old(map).tiles@.len() ==> #[trigger] final(map).tiles@[k] == if in_row(
            old(map).size.0 as int, y as int, min_i(x1 as int, x2 as int), max_i(x1 as int, x2 as int), k) {
            TileType::Floor
        } else {
            old(map).tiles@[k]
        },
{
    let ghost m0 = *map;
    let ghost w = map.size.0 as int;
    let lo: i64 = if x1 <= x2 { x1 as i64 } else { x2 as i64 };
    let hi: i64 = if x1 <= x2 { x2 as i64 } else { x1 as i64 };
    proof {
        assert(0 <= y * w) by (nonlinear_arith) requires 0 <= y, 0 <= w;
    }
    let mut x: i64 = lo;
    while x <= hi
        invariant
            m0 == *old(map),
            map.tiles_fit(),
            map.size == m0.size,
            map.blocked@ == m0.blocked@,
            map.fire_turns@ == m0.fire_turns@,
            map.tile_content@ == m0.tile_content@,
            map.tiles@.len() == m0.tiles@.len(),
            w == m0.size.0,
            0 <= y * w,
            0 <= y,
            lo == min_i(x1 as int, x2 as int),
            hi == max_i(x1 as int, x2 as int),
            0 <= lo,
            lo <= x <= hi + 1,
            spec_xy_idx(w, hi as int, y as int) < m0.tiles@.len(),
            forall|k: int| 0 <= k < m0.tiles@.len() ==> #[trigger] map.tiles@[k] == if in_row(w, y as int, lo as int, x - 1, k) {
                TileType::Floor
            } else {
                m0.tiles@[k]
            },
        decreases hi + 1 - x,
    {
        map.set_tile((x as usize, y as usize), TileType::Floor);
        x += 1;
    }
}

/// Index `k` is that of a cell `(x, y)` of a map `w` wide with
/// `xlo <= x <= xhi` and `ylo <= y <= yhi`.
pub open spec fn in_box(w: int, xlo: int, xhi: int, ylo: int, yhi: int, k: int) -> bool {
    exists|x: int, y: int| xlo <= x <= xhi && ylo <= y <= yhi && k == #[trigger] spec_xy_idx(w, x, y)
}

/// `v` lies between `a` and `b`, both included.
pub open spec fn between(a: int, b: int, v: int) -> bool {
    min_i(a, b) <= v <= max_i(a, b)
}

/// The distance from `a` to `b`.
pub open spec fn dist_i(a: int, b: int) -> int {
    if a <= b { b - a } else { a - b }
}

/// Digs a corridor from `(x1, y1)` to `(x2, y2)` by a random walk that, at
/// each step, moves one cell towards the target along `x` or along `y`
/// (along the only axis left once one coordinate matches), setting each cell
/// it enters to floor. The walk stays in the rectangle spanned by the two
/// ends, and reaches `(x2, y2)`.
pub fn apply_drunkards_corrider(map: &mut TileMap, x1: i32, y1: i32, x2: i32, y2: i32)
    requires
        old(map).tiles_fit(),
        0 <= min_i(x1 as int, x2 as int),
        0 <= min_i(y1 as int, y2 as int),
        spec_xy_idx(old(map).size.0 as int, max_i(x1 as int, x2 as int), max_i(y1 as int, y2 as int)) < old(map).tiles@.len(),
    ensures
        final(map).tiles_fit(),
        final(map).size == old(map).size,
        final(map).blocked@ == old(map).blocked@,
        final(map).fire_turns@ == old(map).fire_turns@,
        final(map).tile_content@ == old(map).tile_content@,
        final(map).tiles@.len() == old(map).tiles@.len(),
        forall|k: int| 0 <= k < old(map).tiles@.len() ==> #[trigger] final(map).tiles@[k] == old(map).tiles@[k] || (
            final(map).tiles@[k] == TileType::Floor && in_box(old(map).size.0 as int,
                min_i(x1 as int, x2 as int), max_i(x1 as int, x2 as int),
                min_i(y1 as int, y2 as int), max_i(y1 as int, y2 as int), k)),
        (x1 != x2 || y1 != y2) ==> final(map).tiles@[spec_xy_idx(old(map).size.0 as int, x2 as int, y2 as int)] == TileType::Floor,
{
    let ghost m0 = *map;
    let ghost w = map.size.0 as int;
    let ghost xlo = min_i(x1 as int, x2 as int);
    let ghost xhi = max_i(x1 as int, x2 as int);
    let ghost ylo = min_i(y1 as int, y2 as int);
    let ghost yhi = max_i(y1 as int, y2 as int);
    let mut rng: RandomNumberGenerator = rng_new();
    let xdir: i32 = if x1 > x2 { -1 } else { 1 };
    let ydir: i32 = if y1 > y2 { -1 } else { 1 };
    let mut x: i32 = x1;
    let mut y: i32 = y1;
    proof {
        lemma_index_monotone_in_row(w, xhi, ylo, yhi);
    }
    while x != x2 || y != y2
        invariant
            m0 == *old(map),
            map.tiles_fit(),
            map.size == m0.size,
            map.blocked@ == m0.blocked@,
            map.fire_turns@ == m0.fire_turns@,
            map.tile_content@ == m0.tile_content@,
            map.tiles@.len() == m0.tiles@.len(),
            w == m0.size.0,
            xlo == min_i(x1 as int, x2 as int),
            xhi == max_i(x1 as int, x2 as int),
            ylo == min_i(y1 as int, y2 as int),
            yhi == max_i(y1 as int, y2 as int),
            0 <= xlo,
            0 <= ylo,
            spec_xy_idx(w, xhi, yhi) < m0.tiles@.len(),
            xdir == (if x1 > x2 { -1i32 } else { 1i32 }),
            ydir == (if y1 > y2 { -1i32 } else { 1i32 }),
            xdir == 1 ==> x1 <= x <= x2,
            xdir == -1 ==> x2 <= x <= x1,
            ydir == 1 ==> y1 <= y <= y2,
            ydir == -1 ==> y2 <= y <= y1,
            (x != x1 || y != y1) ==> map.tiles@[spec_xy_idx(w, x as int, y as int)] == TileType::Floor,
            forall|k: int| 0 <= k < m0.tiles@.len() ==> #[trigger] map.tiles@[k] == m0.tiles@[k] || (
                map.tiles@[k] == TileType::Floor && in_box(w, xlo, xhi, ylo, yhi, k)),
        decreases dist_i(x as int, x2 as int) + dist_i(y as int, y2 as int),
    {
        if x == x2 {
            y = y + ydir;
        } else if y == y2 {
            x = x + xdir;
        } else {
            if rng_range(&mut rng, 0, 2) == 0 {
                x = x + xdir;
            } else {
                y = y + ydir;
            }
        }
        proof {
            lemma_index_monotone_in_row(w, x as int, y as int, yhi);
            assert(spec_xy_idx(w, x as int, yhi) <= spec_xy_idx(w, xhi, yhi));
        }
        map.set_tile((x as usize, y as usize), TileType::Floor);
        proof {
            let i = spec_xy_idx(w, x as int, y as int);
            assert(in_box(w, xlo, xhi, ylo, yhi, i));
        }
    }
}

/// Cell `b` is one of the four cells beside cell `a` (left, right, above,
/// below) on a map of `w` by `h` cells.
pub open spec fn beside(w: int, h: int, a: int, b: int) -> bool {
    &&& 0 <= a < w * h
    &&& 0 <= b < w * h
    &&& dist_i(a % w, b % w) + dist_i(a / w, b / w) == 1
}

/// Step `i` of walk `p` goes to a cell beside the one before.
pub open spec fn step_ok(w: int, h: int, p: Seq<int>, i: int) -> bool {
    beside(w, h, p[i], p[i + 1])
}

/// `p` is a walk of at least one cell over `image` whose cells all have
/// colour `c` and each lie beside the next.
pub open spec fn is_walk(w: int, h: int, image: Seq<TileType>, c: TileType, p: Seq<int>) -> bool {
    &&& p.len() >= 1
    &&& forall|i: int| 0 <= i < p.len() ==> 0 <= #[trigger] p[i] < image.len() && image[p[i]] == c
    &&& forall|i: int| 0 <= i < p.len() - 1 ==> #[trigger] step_ok(w, h, p, i)
}

/// Cell `t` is reached from cell `s` by a walk over cells of the colour of `s`.
pub open spec fn connected(w: int, h: int, image: Seq<TileType>, s: int, t: int) -> bool {
    exists|p: Seq<int>| #[trigger] is_walk(w, h, image, image[s], p) && p[0] == s && p.last() == t
}

/// The number of `true` entries of `s`.
pub open spec fn count_true(s: Seq<bool>) -> int
    decreases s.len(),
{
    if s.len() == 0 {
        0
    } else {
        count_true(s.drop_last()) + if s.last() { 1int } else { 0int }
    }
}

proof fn lemma_count_true_bounds(s: Seq<bool>)
    ensures
        0 <= count_true(s) <= s.len(),
    decreases s.len(),
{
    if s.len() > 0 {
        lemma_count_true_bounds(s.drop_last());
    }
}

proof fn lemma_count_true_none(s: Seq<bool>)
    requires
        forall|i: int| 0 <= i < s.len() ==> !#[trigger] s[i],
    ensures
        count_true(s) == 0,
    decreases s.len(),
{
    if s.len() > 0 {
        lemma_count_true_none(s.drop_last());
    }
}

proof fn lemma_count_true_set(s: Seq<bool>, j: int)
    requires
        0 <= j < s.len(),
        !s[j],
    ensures
        count_true(s.update(j, true)) == count_true(s) + 1,
    decreases s.len(),
{
    let t = s.update(j, true);
    if j == s.len() - 1 {
        assert(t.drop_last() =~= s.drop_last());
    } else {
        assert(t.drop_last() =~= s.drop_last().update(j, true));
        lemma_count_true_set(s.drop_last(), j);
    }
}

/// The index `m` of a cell below the last row lies past the map.
pub(crate) proof fn lemma_row_below_map(w: int, h: int, m: int)
    requires
        w > 0,
        0 <= m < w * h,
    ensures
        m / w < h,
{
    lemma_idx_parts(m, w);
    if m / w >= h {
        assert((m / w) * w >= h * w) by (nonlinear_arith) requires m / w >= h, w > 0;
        assert(h * w == w * h) by (nonlinear_arith);
    }
}

/// The cells beside cell `a` are the four that the fill looks at.
proof fn lemma_beside_cases(w: int, h: int, a: int, m: int)
    requires
        w > 0,
        beside(w, h, a, m),
    ensures
        (a % w > 0 && m == a - 1) || (a % w + 1 < w && m == a + 1)
            || (a / w > 0 && m == a - w) || (a / w + 1 < h && m == a + w),
{
    lemma_idx_parts(a, w);
    lemma_idx_parts(m, w);
    lemma_row_below_map(w, h, m);
}

/// A cell computed from the coordinates of `a` by one step lies beside `a`.
proof fn lemma_step_beside(w: int, h: int, a: int, x: int, y: int)
    requires
        w > 0,
        0 <= a < w * h,
        0 <= x < w,
        0 <= y < h,
        dist_i(a % w, x) + dist_i(a / w, y) == 1,
    ensures
        beside(w, h, a, spec_xy_idx(w, x, y)),
{
    lemma_cell_parts(w, x, y);
    lemma_xy_idx_bound(w, h, x, y);
}

proof fn lemma_walk_push(w: int, h: int, image: Seq<TileType>, c: TileType, p: Seq<int>, m: int)
    requires
        is_walk(w, h, image, c, p),
        0 <= m < image.len(),
        image[m] == c,
        beside(w, h, p.last(), m),
    ensures
        is_walk(w, h, image, c, p.push(m)),
        p.push(m)[0] == p[0],
        p.push(m).last() == m,
{
    let q = p.push(m);
    assert forall|i: int| 0 <= i < q.len() - 1 implies #[trigger] step_ok(w, h, q, i) by {
        if i < p.len() - 1 {
            assert(step_ok(w, h, p, i));
        }
    }
}

/// Every cell of a walk that starts on a marked cell is marked, when the
/// marks are closed under stepping to a cell of the same colour beside.
proof fn lemma_walk_marked(w: int, h: int, image: Seq<TileType>, c: TileType, p: Seq<int>, marks: Seq<bool>)
    requires
        is_walk(w, h, image, c, p),
        marks.len() == image.len(),
        marks[p[0]],
        forall|j: int, m: int|
            0 <= j < image.len() && 0 <= m < image.len() && #[trigger] marks[j] && beside(w, h, j, m)
                && image[m] == c ==> #[trigger] marks[m],
    ensures
        marks[p.last()],
    decreases p.len(),
{
    if p.len() > 1 {
        let q = p.drop_last();
        assert forall|i: int| 0 <= i < q.len() - 1 implies #[trigger] step_ok(w, h, q, i) by {
            assert(step_ok(w, h, p, i));
        }
        lemma_walk_marked(w, h, image, c, q, marks);
        assert(step_ok(w, h, p, p.len() - 2));
        assert(marks[p[p.len() - 2]]);
        assert(marks[p[p.len() - 1]]);
    }
}

/// A level dug by random corridors between rooms, then bombed open.
pub struct DrunkardsBombingRunBuilder {
    pub map: TileMap,
    pub starting_position: Position,
    pub depth: i32,
    pub rooms: Vec<Rect>,
    pub history: Vec<TileMap>,
}

impl DrunkardsBombingRunBuilder {
    /// A builder for a level `new_depth` deep, on a map of `size` cells that
    /// are all wall, starting at cell `(0, 0)`, with no rooms yet.
    pub fn new(new_depth: i32, size: (usize, usize)) -> (b: DrunkardsBombingRunBuilder)
        requires
            size.0 * size.1 <= usize::MAX,
        ensures
            b.map.size == size,
            b.map.tiles@.len() == size.0 * size.1,
            forall|i: int| 0 <= i < b.map.tiles@.len() ==> #[trigger] b.map.tiles@[i] == TileType::Wall,
            b.starting_position.ps@ == seq![Point { x: 0, y: 0 }],
            b.depth == new_depth,
            b.rooms@.len() == 0,
            b.history@.len() == 0,
    {
        let mut map = TileMap::new(size);
        map.tiles = vec![TileType::Wall; size.0 * size.1];
        DrunkardsBombingRunBuilder {
            map,
            starting_position: Position { ps: vec![Point { x: 0, y: 0 }] },
            depth: new_depth,
            rooms: Vec::new(),
            history: Vec::new(),
        }
    }

    /// The cells connected to cell `sidx` through cells of its colour in
    /// `image` (stepping left, right, up or down on the builder's map), and
    /// how many there are.
    pub fn get_flood_fill(&self, image: &Vec<TileType>, sidx: usize) -> (r: (Vec<bool>, i32))
        requires
            image@.len() == self.map.size.0 * self.map.size.1,
            sidx < image@.len(),
            image@.len() < i32::MAX,
        ensures
            r.0@.len() == image@.len(),
            forall|k: int| 0 <= k < image@.len() ==> (#[trigger] r.0@[k] <==> connected(
                self.map.size.0 as int, self.map.size.1 as int, image@, sidx as int, k)),
            r.1 == count_true(r.0@),
    {
        let n = image.len();
        let w = self.map.size.0;
        let h = self.map.size.1;
        let ghost wi = w as int;
        let ghost hi = h as int;
        let ghost s = sidx as int;
        proof {
            lemma_width_positive(wi, hi);
        }
        let c = image[sidx];
        let mut ret: Vec<bool> = vec![false; n];
        let mut count: i32 = 0;
        let mut cells: Vec<usize> = Vec::new();
        cells.push(sidx);
        let mut head: usize = 0;
        proof {
            lemma_count_true_none(ret@);
            let p0 = seq![s];
            assert(is_walk(wi, hi, image@, image@[s], p0));
            assert(connected(wi, hi, image@, s, s));
        }
        while head < cells.len()
            invariant
                n == image@.len(),
                n == wi * hi,
                w == self.map.size.0,
                h == self.map.size.1,
                wi == w,
                hi == h,
                wi > 0,
                n < i32::MAX,
                s == sidx,
                sidx < n,
                c == image@[s],
                ret@.len() == n,
                count == count_true(ret@),
                0 <= count <= n,
                head <= cells.len(),
                cells.len() <= 1 + 4 * count,
                cells@.len() >= 1,
                cells@[0] == sidx,
                head > 0 ==> ret@[s],
                forall|t: int| 0 <= t < cells@.len() ==> #[trigger] cells@[t] < n && connected(wi, hi, image@, s, cells@[t] as int),
                forall|j: int| 0 <= j < n && #[trigger] ret@[j] ==> connected(wi, hi, image@, s, j),
                forall|j: int, m: int|
                    0 <= j < n && 0 <= m < n && #[trigger] ret@[j] && beside(wi, hi, j, m) && image@[m] == c
                        ==> #[trigger] ret@[m] || exists|t: int| head <= t < cells@.len() && #[trigger] cells@[t] == m,
            decreases 5 * (n - count) + (cells.len() - head),
        {
            let idx = cells[head];
            let ghost old_cells = cells@;
            let ghost old_ret = ret@;
            let ghost old_head = head as int;
            head += 1;
            if image[idx] == c && !ret[idx] {
                proof {
                    lemma_count_true_set(ret@, idx as int);
                    lemma_count_true_bounds(ret@.update(idx as int, true));
                }
                ret.set(idx, true);
                count += 1;
                let ghost base = cells@.len() as int;
                self.push_same_colour_neighbours(image, c, idx, &mut cells);
                proof {
                    assert forall|t: int| base <= t < cells@.len() implies connected(wi, hi, image@, s, #[trigger] cells@[t] as int) by {
                        self.lemma_extend(image@, s, idx as int, cells@[t] as int);
                    }
                }
                proof {
                    assert forall|t: int| 0 <= t < old_cells.len() implies #[trigger] cells@[t] == old_cells[t] by {}
                    assert forall|j: int, m: int|
                        0 <= j < n && 0 <= m < n && #[trigger] ret@[j] && beside(wi, hi, j, m) && image@[m] == c
                            implies #[trigger] ret@[m] || exists|t: int| head <= t < cells@.len() && #[trigger] cells@[t] == m by {
                        if j == idx as int {
                            if !ret@[m] {
                                let t = choose|t: int| base <= t < cells@.len() && #[trigger] cells@[t] == m;
                                assert(head <= t);
                            }
                        } else {
                            assert(old_ret[j]);
                            if !ret@[m] {
                                assert(!old_ret[m]);
                                let t = choose|t: int| old_head <= t < old_cells.len() && #[trigger] old_cells[t] == m;
                                assert(t != old_head);
                                assert(cells@[t] == m);
                            }
                        }
                    }
                }
            } else {
                proof {
                    assert forall|j: int, m: int|
                        0 <= j < n && 0 <= m < n && #[trigger] ret@[j] && beside(wi, hi, j, m) && image@[m] == c
                            implies #[trigger] ret@[m] || exists|t: int| head <= t < cells@.len() && #[trigger] cells@[t] == m by {
                        if !ret@[m] {
                            let t = choose|t: int| old_head <= t < old_cells.len() && #[trigger] old_cells[t] == m;
                            assert(t != old_head);
                        }
                    }
                }
            }
        }
        proof {
            assert forall|k: int| 0 <= k < n implies (#[trigger] ret@[k] <==> connected(wi, hi, image@, s, k)) by {
                if connected(wi, hi, image@, s, k) {
                    let p = choose|p: Seq<int>| #[trigger] is_walk(wi, hi, image@, image@[s], p) && p[0] == s && p.last() == k;
                    lemma_walk_marked(wi, hi, image@, c, p, ret@);
                }
            }
        }
        (ret, count)
    }

    /// Appends to `cells` the cells of colour `c` beside cell `idx` (left,
    /// right, above, below, in that order); what `cells` held stays.
    #[verifier::rlimit(40)]
    fn push_same_colour_neighbours(&self, image: &Vec<TileType>, c: TileType, idx: usize, cells: &mut Vec<usize>)
        requires
            image@.len() == self.map.size.0 * self.map.size.1,
            idx < image@.len(),
        ensures
            old(cells)@.len() <= final(cells)@.len() <= old(cells)@.len() + 4,
            forall|t: int| 0 <= t < old(cells)@.len() ==> #[trigger] final(cells)@[t] == old(cells)@[t],
            forall|t: int| old(cells)@.len() <= t < final(cells)@.len() ==> {
                &&& #[trigger] final(cells)@[t] < image@.len()
                &&& beside(self.map.size.0 as int, self.map.size.1 as int, idx as int, final(cells)@[t] as int)
                &&& image@[final(cells)@[t] as int] == c
            },
            forall|m: int| 0 <= m < image@.len() && beside(self.map.size.0 as int, self.map.size.1 as int, idx as int, m)
                && image@[m] == c ==> exists|t: int| old(cells)@.len() <= t < final(cells)@.len() && #[trigger] final(cells)@[t] == m,
    {
        let n = image.len();
        let w = self.map.size.0;
        let h = self.map.size.1;
        let ghost wi = w as int;
        let ghost hi = h as int;
        let ghost i = idx as int;
        proof {
            lemma_width_positive(wi, hi);
        }
        let (sr, sc) = self.map.idx_xy(idx);
        proof {
            lemma_idx_parts(i, wi);
            lemma_row_below_map(wi, hi, i);
        }
        let ghost base = old(cells)@.len() as int;
        let ghost mut pos: Seq<int> = seq![-1int, -1int, -1int, -1int];
        if sr > 0 {
            proof {
                lemma_step_beside(wi, hi, i, sr - 1, sc as int);
            }
            let ni = self.map.xy_idx((sr - 1, sc));
            if image[ni] == c {
                proof {
                    pos = pos.update(0, cells@.len() as int);
                }
                cells.push(ni);
            }
        }
        if sr + 1 < w {
            proof {
                lemma_step_beside(wi, hi, i, sr + 1, sc as int);
            }
            let ni = self.map.xy_idx((sr + 1, sc));
            if image[ni] == c {
                proof {
                    pos = pos.update(1, cells@.len() as int);
                }
                cells.push(ni);
            }
        }
        if sc > 0 {
            proof {
                lemma_step_beside(wi, hi, i, sr as int, sc - 1);
            }
            let ni = self.map.xy_idx((sr, sc - 1));
            if image[ni] == c {
                proof {
                    pos = pos.update(2, cells@.len() as int);
                }
                cells.push(ni);
            }
        }
        if sc + 1 < h {
            proof {
                lemma_step_beside(wi, hi, i, sr as int, sc + 1);
            }
            let ni = self.map.xy_idx((sr, sc + 1));
            if image[ni] == c {
                proof {
                    pos = pos.update(3, cells@.len() as int);
                }
                cells.push(ni);
            }
        }
        proof {
            assert forall|m: int| 0 <= m < image@.len() && beside(wi, hi, i, m) && image@[m] == c
                implies exists|t: int| base <= t < cells@.len() && #[trigger] cells@[t] == m by {
                lemma_beside_cases(wi, hi, i, m);
                if sr > 0 && m == i - 1 {
                    assert(cells@[pos[0]] == m);
                } else if sr + 1 < w && m == i + 1 {
                    assert(cells@[pos[1]] == m);
                } else if sc > 0 && m == i - wi {
                    assert(cells@[pos[2]] == m);
                } else {
                    assert(cells@[pos[3]] == m);
                }
            }
        }
    }

    /// A walk to a connected cell extends to a cell of the same colour beside it.
    proof fn lemma_extend(&self, image: Seq<TileType>, s: int, a: int, m: int)
        requires
            0 <= s < image.len(),
            connected(self.map.size.0 as int, self.map.size.1 as int, image, s, a),
            0 <= m < image.len(),
            image[m] == image[s],
            beside(self.map.size.0 as int, self.map.size.1 as int, a, m),
        ensures
            connected(self.map.size.0 as int, self.map.size.1 as int, image, s, m),
    {
        let w = self.map.size.0 as int;
        let h = self.map.size.1 as int;
        let p = choose|p: Seq<int>| #[trigger] is_walk(w, h, image, image[s], p) && p[0] == s && p.last() == a;
        lemma_walk_push(w, h, image, image[s], p, m);
        assert(is_walk(w, h, image, image[s], p.push(m)));
    }
}

} // verus!
