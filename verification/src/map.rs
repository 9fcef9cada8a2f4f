//! The map grid: terrain per cell, which cells block movement, how long each
//! cell keeps burning, and which entities stand on it.

use vstd::prelude::*;
use crate::tiles::TileType;
use crate::utils::{Point, fits_i32};

verus! {

/// The id of an entity of the simulation (the integer the entity store hands out).
pub type EntityId = u64;

/// A step from one cell to a neighbouring one, as the path finder sees it:
/// a straight step costs 1.0 and a diagonal one 1.45.
#[derive(PartialEq, Eq, Structural, Copy, Clone, Debug)]
pub enum StepKind {
    Straight,
    Diagonal,
}

/// Tiles that are walls.
pub open spec fn spec_is_wall_tile(t: TileType) -> bool {
    t == TileType::Wall || t == TileType::WoodWall || t == TileType::WoodDoor
}

/// Tiles that burn.
pub open spec fn spec_is_flammable_tile(t: TileType) -> bool {
    t == TileType::Grass || t == TileType::Wheat || t == TileType::WoodWall || t == TileType::WoodDoor
}

/// Tiles that nothing walks through.
pub open spec fn spec_blocks_movement_tile(t: TileType) -> bool {
    t == TileType::Wall || t == TileType::Water || t == TileType::WoodWall || t == TileType::WoodDoor
}

/// Tiles that block sight.
pub open spec fn spec_is_opaque_tile(t: TileType) -> bool {
    t == TileType::Wall || t == TileType::Wheat || t == TileType::WoodWall || t == TileType::WoodDoor
}

/// The character shown for a tile on the overview map.
pub open spec fn spec_glyph(t: TileType) -> char {
    match t {
        TileType::Water => '~',
        TileType::Sand => '.',
        TileType::Dirt => '.',
        TileType::Stone => '#',
        _ => '!',
    }
}

/// The row-major index of cell `(x, y)` on a grid `w` cells wide.
pub open spec fn spec_xy_idx(w: int, x: int, y: int) -> int {
    y * w + x
}

/// The terrain grid of the world.
pub struct TileMap {
    /// Terrain of every cell, row by row.
    pub tiles: Vec<TileType>,
    /// Width and height in cells.
    pub size: (usize, usize),
    /// Per cell: whether it blocks movement.
    pub blocked: Vec<bool>,
    /// Per cell: how many more turns it burns (0 when not burning).
    pub fire_turns: Vec<usize>,
    /// Per cell: the entities standing on it.
    pub tile_content: Vec<Vec<EntityId>>,
}

/// `idx` splits into its column `idx % w` and row `idx / w`.
pub proof fn lemma_idx_parts(idx: int, w: int)
    requires
        0 <= idx,
        0 < w,
    ensures
        idx == spec_xy_idx(w, idx % w, idx / w),
        0 <= idx % w < w,
        0 <= idx / w,
        spec_xy_idx(w, idx % w - 1, idx / w) == idx - 1,
        spec_xy_idx(w, idx % w + 1, idx / w) == idx + 1,
        spec_xy_idx(w, idx % w, idx / w - 1) == idx - w,
        spec_xy_idx(w, idx % w, idx / w + 1) == idx + w,
        spec_xy_idx(w, idx % w - 1, idx / w - 1) == idx - w - 1,
        spec_xy_idx(w, idx % w + 1, idx / w - 1) == idx - w + 1,
        spec_xy_idx(w, idx % w - 1, idx / w + 1) == idx + w - 1,
        spec_xy_idx(w, idx % w + 1, idx / w + 1) == idx + w + 1,
{
    vstd::arithmetic::div_mod::lemma_fundamental_div_mod(idx, w);
    let q = idx / w;
    assert((q - 1) * w == q * w - w) by (nonlinear_arith);
    assert((q + 1) * w == q * w + w) by (nonlinear_arith);
    assert(q * w == w * q) by (nonlinear_arith);
    vstd::arithmetic::div_mod::lemma_div_pos_is_pos(idx, w);
}

/// Within a grid of `w` columns and `h` rows, a cell's index is below `w * h`.
pub proof fn lemma_xy_idx_bound(w: int, h: int, x: int, y: int)
    requires
        0 <= x < w,
        0 <= y < h,
    ensures
        0 <= spec_xy_idx(w, x, y) < w * h,
{
    assert(y * w + x < w * h) by (nonlinear_arith)
        requires 0 <= x < w, 0 <= y < h;
    assert(0 <= y * w) by (nonlinear_arith)
        requires 0 <= y, 0 <= w;
}

impl Clone for TileMap {
    fn clone(&self) -> (r: Self)
        ensures
            r.size == self.size,
            r.tiles@ == self.tiles@,
            r.blocked@ == self.blocked@,
            r.fire_turns@ == self.fire_turns@,
            r.tile_content@.len() == self.tile_content@.len(),
    {
        TileMap {
            tiles: self.tiles.clone(),
            size: self.size,
            blocked: self.blocked.clone(),
            fire_turns: self.fire_turns.clone(),
            tile_content: self.tile_content.clone(),
        }
    }
}

impl TileMap {
    /// The number of cells, `width * height`.
    pub open spec fn spec_len(&self) -> int {
        self.size.0 * self.size.1
    }

    /// The terrain covers the whole grid.
    pub open spec fn tiles_fit(&self) -> bool {
        &&& self.tiles@.len() == self.spec_len()
        &&& self.spec_len() <= usize::MAX
    }

    /// The per-cell vectors cover the whole grid.
    pub open spec fn wf(&self) -> bool {
        &&& self.tiles@.len() == self.spec_len()
        &&& self.blocked@.len() == self.spec_len()
        &&& self.fire_turns@.len() == self.spec_len()
        &&& self.tile_content@.len() == self.spec_len()
        &&& self.spec_len() <= usize::MAX
    }

    /// A map of `size.0` by `size.1` cells, all water, with no blocked,
    /// burning or content data yet.
    pub fn new(size: (usize, usize)) -> (m: TileMap)
        requires
            size.0 * size.1 <= usize::MAX,
        ensures
            m.size == size,
            m.tiles@.len() == size.0 * size.1,
            forall|i: int| 0 <= i < m.tiles@.len() ==> #[trigger] m.tiles@[i] == TileType::Water,
            m.blocked@.len() == 0,
            m.fire_turns@.len() == 0,
            m.tile_content@.len() == 0,
    {
        let count = size.0 * size.1;
        TileMap {
            tiles: vec![TileType::Water; count],
            size,
            blocked: Vec::new(),
            fire_turns: Vec::new(),
            tile_content: Vec::new(),
        }
    }

    /// The number of cells, `width * height`.
    pub fn len(&self) -> (r: usize)
        requires
            self.spec_len() <= usize::MAX,
        ensures
            r == self.spec_len(),
    {
        self.size.0 * self.size.1
    }

    /// The row-major index of cell `xy`.
    pub open spec fn spec_idx(&self, xy: (usize, usize)) -> int {
        spec_xy_idx(self.size.0 as int, xy.0 as int, xy.1 as int)
    }

    /// The row-major index of cell `xy`: `y * width + x`.
    pub fn xy_idx(&self, xy: (usize, usize)) -> (r: usize)
        requires
            self.spec_idx(xy) <= usize::MAX,
        ensures
            r == self.spec_idx(xy),
    {
        proof {
            assert(0 <= xy.1 * self.size.0) by (nonlinear_arith);
        }
        (xy.1 * self.size.0) + xy.0
    }

    /// The cell `(idx % width, idx / width)` of a row-major index.
    pub fn idx_xy(&self, idx: usize) -> (r: (usize, usize))
        requires
            self.size.0 > 0,
        ensures
            r == ((idx % self.size.0) as usize, (idx / self.size.0) as usize),
            self.spec_idx(r) == idx,
    {
        proof {
            lemma_idx_parts(idx as int, self.size.0 as int);
        }
        (idx % self.size.0, idx / self.size.0)
    }

    /// The row-major index of a point with non-negative coordinates.
    pub fn point_idx(&self, point: Point) -> (r: usize)
        requires
            point.x >= 0,
            point.y >= 0,
            spec_xy_idx(self.size.0 as int, point.x as int, point.y as int) <= usize::MAX,
        ensures
            r == spec_xy_idx(self.size.0 as int, point.x as int, point.y as int),
    {
        self.xy_idx((point.x as usize, point.y as usize))
    }

    /// The point of a row-major index.
    pub fn idx_point(&self, idx: usize) -> (r: Point)
        requires
            self.size.0 > 0,
            idx % self.size.0 <= i32::MAX,
            idx / self.size.0 <= i32::MAX,
        ensures
            r.x == idx % self.size.0,
            r.y == idx / self.size.0,
    {
        let (x, y) = self.idx_xy(idx);
        Point::new(x as i32, y as i32)
    }

    /// Whether `pos` lies on the map.
    pub fn in_bounds(&self, pos: (usize, usize)) -> (r: bool)
        ensures
            r == (pos.0 < self.size.0 && pos.1 < self.size.1),
    {
        pos.0 < self.size.0 && pos.1 < self.size.1
    }

    /// The terrain at `xy`.
    pub fn get_tile(&self, xy: (usize, usize)) -> (r: TileType)
        requires
            self.spec_idx(xy) < self.tiles.len(),
        ensures
            r == self.tiles@[self.spec_idx(xy)],
    {
        let idx = self.xy_idx(xy);
        self.tiles[idx]
    }

    /// Sets the terrain at `xy`; every other cell keeps its terrain.
    pub fn set_tile(&mut self, xy: (usize, usize), value: TileType)
        requires
            old(self).spec_idx(xy) < old(self).tiles.len(),
        ensures
            final(self).tiles@ == old(self).tiles@.update(old(self).spec_idx(xy), value),
            final(self).size == old(self).size,
            final(self).blocked@ == old(self).blocked@,
            final(self).fire_turns@ == old(self).fire_turns@,
            final(self).tile_content@ == old(self).tile_content@,
    {
        let idx = self.xy_idx(xy);
        self.tiles.set(idx, value);
    }

    /// The character shown for the tile at `p` on the overview map.
    pub fn get_glyph(&self, p: (usize, usize)) -> (r: char)
        requires
            self.spec_idx(p) < self.tiles.len(),
        ensures
            r == spec_glyph(self.tiles@[self.spec_idx(p)]),
    {
        match self.tiles[self.xy_idx(p)] {
            TileType::Water => '~',
            TileType::Sand => '.',
            TileType::Dirt => '.',
            TileType::Stone => '#',
            _ => '!',
        }
    }

    /// Whether the tile at `(x, y)` is a wall, a wooden wall or a door.
    pub fn is_wall(&self, x: usize, y: usize) -> (r: bool)
        requires
            self.spec_idx((x, y)) < self.tiles.len(),
        ensures
            r == spec_is_wall_tile(self.tiles@[self.spec_idx((x, y))]),
    {
        let idx = self.xy_idx((x, y));
        let t = self.tiles[idx];
        t == TileType::Wall || t == TileType::WoodWall || t == TileType::WoodDoor
    }

    /// Whether the tile at `idx` burns.
    pub fn is_flammable(&self, idx: usize) -> (r: bool)
        requires
            idx < self.tiles@.len(),
        ensures
            r == spec_is_flammable_tile(self.tiles@[idx as int]),
    {
        let t = self.tiles[idx];
        t == TileType::Grass || t == TileType::Wheat || t == TileType::WoodWall || t
            == TileType::WoodDoor
    }

    /// Whether the tile at `idx` stops movement.
    pub fn blocks_movement(&self, idx: usize) -> (r: bool)
        requires
            idx < self.tiles@.len(),
        ensures
            r == spec_blocks_movement_tile(self.tiles@[idx as int]),
    {
        let t = self.tiles[idx];
        t == TileType::Wall || t == TileType::Water || t == TileType::WoodWall || t
            == TileType::WoodDoor
    }

    /// Whether the tile at `idx` blocks sight.
    pub fn is_opaque(&self, idx: usize) -> (r: bool)
        requires
            idx < self.tiles@.len(),
        ensures
            r == spec_is_opaque_tile(self.tiles@[idx as int]),
    {
        let t = self.tiles[idx];
        t == TileType::Wall || t == TileType::Wheat || t == TileType::WoodWall || t
            == TileType::WoodDoor
    }

    /// Recomputes the blocked flag of every cell from its terrain.
    pub fn set_blocked(&mut self)
        requires
            old(self).blocked@.len() >= old(self).tiles@.len(),
        ensures
            final(self).tiles@ == old(self).tiles@,
            final(self).size == old(self).size,
            final(self).fire_turns@ == old(self).fire_turns@,
            final(self).tile_content@ == old(self).tile_content@,
            final(self).blocked@.len() == old(self).blocked@.len(),
            forall|i: int|
                0 <= i < old(self).tiles@.len() ==> #[trigger] final(self).blocked@[i]
                    == spec_blocks_movement_tile(old(self).tiles@[i]),
            forall|i: int|
                old(self).tiles@.len() <= i < old(self).blocked@.len() ==> #[trigger] final(self).blocked@[i] == old(self).blocked@[i],
    {
        let n = self.tiles.len();
        let mut i: usize = 0;
        while i < n
            invariant
                n == self.tiles@.len(),
                self.tiles@ == old(self).tiles@,
                self.size == old(self).size,
                self.fire_turns@ == old(self).fire_turns@,
                self.tile_content@ == old(self).tile_content@,
                self.blocked@.len() == old(self).blocked@.len(),
                old(self).blocked@.len() >= n,
                i <= n,
                forall|k: int|
                    0 <= k < i ==> #[trigger] self.blocked@[k] == spec_blocks_movement_tile(
                        self.tiles@[k],
                    ),
                forall|k: int|
                    i <= k < self.blocked@.len() ==> #[trigger] self.blocked@[k]
                        == old(self).blocked@[k],
            decreases n - i,
        {
            let b = self.blocks_movement(i);
            self.blocked.set(i, b);
            i += 1;
        }
    }

    /// Empties the content list of every cell.
    pub fn clear_tile_content(&mut self)
        ensures
            final(self).tiles@ == old(self).tiles@,
            final(self).size == old(self).size,
            final(self).blocked@ == old(self).blocked@,
            final(self).fire_turns@ == old(self).fire_turns@,
            final(self).tile_content@.len() == old(self).tile_content@.len(),
            forall|i: int|
                0 <= i < final(self).tile_content@.len() ==> #[trigger] final(self).tile_content@[i]@.len() == 0,
    {
        let n = self.tile_content.len();
        let mut i: usize = 0;
        while i < n
            invariant
                n == self.tile_content@.len(),
                self.tiles@ == old(self).tiles@,
                self.size == old(self).size,
                self.blocked@ == old(self).blocked@,
                self.fire_turns@ == old(self).fire_turns@,
                i <= n,
                forall|k: int| 0 <= k < i ==> #[trigger] self.tile_content@[k]@.len() == 0,
            decreases n - i,
        {
            self.tile_content.set(i, Vec::new());
            i += 1;
        }
    }

    /// The width and height as a point.
    pub fn dimensions(&self) -> (r: Point)
        requires
            self.size.0 <= i32::MAX,
            self.size.1 <= i32::MAX,
        ensures
            r.x == self.size.0,
            r.y == self.size.1,
    {
        Point::new(self.size.0 as i32, self.size.1 as i32)
    }

    /// A step may end at `(x, y)`: it is inside the map's border ring and not
    /// blocked.
    pub open spec fn spec_exit_valid(&self, x: int, y: int) -> bool {
        &&& 1 <= x < self.size.0
        &&& 1 <= y < self.size.1
        &&& !self.blocked@[spec_xy_idx(self.size.0 as int, x, y)]
    }

    /// The exit to `(x, y)` of kind `k`, if a step may end there.
    pub open spec fn spec_exit_if(&self, x: int, y: int, k: StepKind) -> Seq<(usize, StepKind)> {
        if self.spec_exit_valid(x, y) {
            seq![(spec_xy_idx(self.size.0 as int, x, y) as usize, k)]
        } else {
            seq![]
        }
    }

    /// The exits from cell `(x, y)`: west, east, north, south, then the
    /// north-west, north-east, south-west and south-east diagonals.
    pub open spec fn spec_exits(&self, x: int, y: int) -> Seq<(usize, StepKind)> {
        self.spec_exit_if(x - 1, y, StepKind::Straight) + self.spec_exit_if(
            x + 1,
            y,
            StepKind::Straight,
        ) + self.spec_exit_if(x, y - 1, StepKind::Straight) + self.spec_exit_if(
            x,
            y + 1,
            StepKind::Straight,
        ) + self.spec_exit_if(x - 1, y - 1, StepKind::Diagonal) + self.spec_exit_if(
            x + 1,
            y - 1,
            StepKind::Diagonal,
        ) + self.spec_exit_if(x - 1, y + 1, StepKind::Diagonal) + self.spec_exit_if(
            x + 1,
            y + 1,
            StepKind::Diagonal,
        )
    }

    fn is_exit_valid(&self, x: usize, y: usize) -> (r: bool)
        requires
            self.spec_len() <= usize::MAX,
            self.blocked@.len() >= self.spec_len(),
        ensures
            r == self.spec_exit_valid(x as int, y as int),
    {
        if x < 1 || x >= self.size.0 || y < 1 || y >= self.size.1 {
            return false;
        }
        proof {
            lemma_xy_idx_bound(self.size.0 as int, self.size.1 as int, x as int, y as int);
        }
        let idx = self.xy_idx((x, y));
        !self.blocked[idx]
    }

    /// The exit to `(x, y)` of kind `k`, when a step may end there.
    fn try_exit(&self, x: usize, y: usize, k: StepKind) -> (r: Option<(usize, StepKind)>)
        requires
            self.spec_len() <= usize::MAX,
            self.blocked@.len() >= self.spec_len(),
        ensures
            (match r {
                Some(e) => seq![e],
                None => Seq::<(usize, StepKind)>::empty(),
            }) == self.spec_exit_if(x as int, y as int, k),
    {
        if self.is_exit_valid(x, y) {
            proof {
                lemma_xy_idx_bound(self.size.0 as int, self.size.1 as int, x as int, y as int);
            }
            Some((self.xy_idx((x, y)), k))
        } else {
            None
        }
    }

    /// The cells one step away from `idx` that a walker may enter, with the
    /// kind of each step, in the order of `spec_exits`.
    pub fn get_available_exits(&self, idx: usize) -> (r: Vec<(usize, StepKind)>)
        requires
            self.size.0 > 0,
            self.spec_len() <= usize::MAX,
            self.blocked@.len() >= self.spec_len(),
            idx % self.size.0 >= 1,
            idx / self.size.0 >= 1,
        ensures
            r@ == self.spec_exits((idx % self.size.0) as int, (idx / self.size.0) as int),
    {
        let (x, y) = self.idx_xy(idx);
        proof {
            vstd::arithmetic::div_mod::lemma_div_is_ordered_by_denominator(
                idx as int,
                2,
                self.size.0 as int,
            );
        }
        let cands: [(usize, usize, StepKind); 8] = [
            (x - 1, y, StepKind::Straight),
            (x + 1, y, StepKind::Straight),
            (x, y - 1, StepKind::Straight),
            (x, y + 1, StepKind::Straight),
            (x - 1, y - 1, StepKind::Diagonal),
            (x + 1, y - 1, StepKind::Diagonal),
            (x - 1, y + 1, StepKind::Diagonal),
            (x + 1, y + 1, StepKind::Diagonal),
        ];
        let ghost parts = Seq::new(
            8,
            |j: int| self.spec_exit_if(cands[j].0 as int, cands[j].1 as int, cands[j].2),
        );
        let mut exits: Vec<(usize, StepKind)> = Vec::new();
        let mut i: usize = 0;
        while i < 8
            invariant
                i <= 8,
                self.spec_len() <= usize::MAX,
                self.blocked@.len() >= self.spec_len(),
                parts == Seq::new(
                    8,
                    |j: int| self.spec_exit_if(cands[j].0 as int, cands[j].1 as int, cands[j].2),
                ),
                exits@ == parts.take(i as int).fold_left(
                    Seq::<(usize, StepKind)>::empty(),
                    |acc: Seq<(usize, StepKind)>, p: Seq<(usize, StepKind)>| acc + p,
                ),
            decreases 8 - i,
        {
            let (cx, cy, k) = cands[i];
            let e = self.try_exit(cx, cy, k);
            proof {
                assert(parts.take(i + 1).drop_last() == parts.take(i as int));
            }
            if let Some(e) = e {
                exits.push(e);
            }
            i += 1;
        }
        proof {
            let f = |acc: Seq<(usize, StepKind)>, p: Seq<(usize, StepKind)>| acc + p;
            assert(parts.take(8) == parts);
            reveal_with_fuel(Seq::fold_left, 9);
            assert(parts.fold_left(Seq::<(usize, StepKind)>::empty(), f) =~= self.spec_exits(
                x as int,
                y as int,
            ));
        }
        exits
    }
}

/// Cell and index convert both ways: on a map `w` wide (`w > 0`), the index
/// of cell `(x, y)` (with `0 <= x < w`, `0 <= y`) has column `x` and row `y`,
/// and every index is the index of its own column and row.
pub proof fn law_xy_idx_round_trip(w: int, x: int, y: int, idx: int)
    requires
        w > 0,
        0 <= x < w,
        0 <= y,
        0 <= idx,
    ensures
        spec_xy_idx(w, x, y) % w == x,
        spec_xy_idx(w, x, y) / w == y,
        spec_xy_idx(w, idx % w, idx / w) == idx,
{
    vstd::arithmetic::div_mod::lemma_fundamental_div_mod_converse(spec_xy_idx(w, x, y), w, y, x);
    lemma_idx_parts(idx, w);
}

/// Reading a cell after writing it gives what was written, and writing a
/// cell leaves every other cell as it was (the contents that `set_tile`
/// leaves behind, read back by `get_tile`).
pub proof fn law_get_after_set(m: TileMap, xy: (usize, usize), other: (usize, usize), value: TileType)
    requires
        m.spec_idx(xy) < m.tiles@.len(),
        m.spec_idx(other) < m.tiles@.len(),
    ensures
        m.tiles@.update(m.spec_idx(xy), value)[m.spec_idx(xy)] == value,
        m.spec_idx(other) != m.spec_idx(xy) ==> m.tiles@.update(m.spec_idx(xy), value)[m.spec_idx(other)]
            == m.tiles@[m.spec_idx(other)],
{
}

/// The distance between `a` and `b`.
pub open spec fn abs_diff(a: int, b: int) -> int {
    if a <= b { b - a } else { a - b }
}

/// Every exit from a cell leads to an unblocked cell of the map one step
/// away (straight steps change one coordinate, diagonal ones both).
pub proof fn law_exits_are_open_neighbours(m: TileMap, x: int, y: int)
    requires
        m.size.0 > 0,
        m.blocked@.len() >= m.spec_len(),
        m.spec_len() <= usize::MAX,
        1 <= x,
        1 <= y,
    ensures
        forall|i: int| 0 <= i < m.spec_exits(x, y).len() ==> exists|ex: int, ey: int| {
            &&& 1 <= ex < m.size.0
            &&& 1 <= ey < m.size.1
            &&& #[trigger] m.spec_exits(x, y)[i].0 == spec_xy_idx(m.size.0 as int, ex, ey)
            &&& !m.blocked@[spec_xy_idx(m.size.0 as int, ex, ey)]
            &&& abs_diff(ex, x) <= 1
            &&& abs_diff(ey, y) <= 1
            &&& (ex != x || ey != y)
            &&& (m.spec_exits(x, y)[i].1 == StepKind::Straight <==> (ex == x || ey == y))
        },
{
    let w = m.size.0 as int;
    let parts = seq![
        (x - 1, y, StepKind::Straight),
        (x + 1, y, StepKind::Straight),
        (x, y - 1, StepKind::Straight),
        (x, y + 1, StepKind::Straight),
        (x - 1, y - 1, StepKind::Diagonal),
        (x + 1, y - 1, StepKind::Diagonal),
        (x - 1, y + 1, StepKind::Diagonal),
        (x + 1, y + 1, StepKind::Diagonal)
    ];
    assert forall|i: int| 0 <= i < m.spec_exits(x, y).len() implies exists|ex: int, ey: int| {
        &&& 1 <= ex < m.size.0
        &&& 1 <= ey < m.size.1
        &&& #[trigger] m.spec_exits(x, y)[i].0 == spec_xy_idx(w, ex, ey)
        &&& !m.blocked@[spec_xy_idx(w, ex, ey)]
        &&& abs_diff(ex, x) <= 1
        &&& abs_diff(ey, y) <= 1
        &&& (ex != x || ey != y)
        &&& (m.spec_exits(x, y)[i].1 == StepKind::Straight <==> (ex == x || ey == y))
    } by {
        lemma_exit_from_parts(m, x, y, i);
    }
}

/// Exit `i` of cell `(x, y)` comes from one of the eight steps.
proof fn lemma_exit_from_parts(m: TileMap, x: int, y: int, i: int)
    requires
        m.size.0 > 0,
        m.blocked@.len() >= m.spec_len(),
        m.spec_len() <= usize::MAX,
        1 <= x,
        1 <= y,
        0 <= i < m.spec_exits(x, y).len(),
    ensures
        exists|ex: int, ey: int| {
            &&& 1 <= ex < m.size.0
            &&& 1 <= ey < m.size.1
            &&& #[trigger] m.spec_exits(x, y)[i].0 == spec_xy_idx(m.size.0 as int, ex, ey)
            &&& !m.blocked@[spec_xy_idx(m.size.0 as int, ex, ey)]
            &&& abs_diff(ex, x) <= 1
            &&& abs_diff(ey, y) <= 1
            &&& (ex != x || ey != y)
            &&& (m.spec_exits(x, y)[i].1 == StepKind::Straight <==> (ex == x || ey == y))
        },
{
    let a = m.spec_exit_if(x - 1, y, StepKind::Straight);
    let b = m.spec_exit_if(x + 1, y, StepKind::Straight);
    let c = m.spec_exit_if(x, y - 1, StepKind::Straight);
    let d = m.spec_exit_if(x, y + 1, StepKind::Straight);
    let e = m.spec_exit_if(x - 1, y - 1, StepKind::Diagonal);
    let f = m.spec_exit_if(x + 1, y - 1, StepKind::Diagonal);
    let g = m.spec_exit_if(x - 1, y + 1, StepKind::Diagonal);
    let h = m.spec_exit_if(x + 1, y + 1, StepKind::Diagonal);
    let s = m.spec_exits(x, y);
    assert(s == a + b + c + d + e + f + g + h);
    let w = m.size.0 as int;
    lemma_exit_if_cell(m, x - 1, y, StepKind::Straight);
    lemma_exit_if_cell(m, x + 1, y, StepKind::Straight);
    lemma_exit_if_cell(m, x, y - 1, StepKind::Straight);
    lemma_exit_if_cell(m, x, y + 1, StepKind::Straight);
    lemma_exit_if_cell(m, x - 1, y - 1, StepKind::Diagonal);
    lemma_exit_if_cell(m, x + 1, y - 1, StepKind::Diagonal);
    lemma_exit_if_cell(m, x - 1, y + 1, StepKind::Diagonal);
    lemma_exit_if_cell(m, x + 1, y + 1, StepKind::Diagonal);
    let la = a.len() as int;
    let lb = la + b.len();
    let lc = lb + c.len();
    let ld = lc + d.len();
    let le = ld + e.len();
    let lf = le + f.len();
    let lg = lf + g.len();
    if i < la {
        assert(s[i] == a[i]);
        assert(s[i].0 == spec_xy_idx(w, x - 1, y));
    } else if i < lb {
        assert(s[i] == b[i - la]);
        assert(s[i].0 == spec_xy_idx(w, x + 1, y));
    } else if i < lc {
        assert(s[i] == c[i - lb]);
        assert(s[i].0 == spec_xy_idx(w, x, y - 1));
    } else if i < ld {
        assert(s[i] == d[i - lc]);
        assert(s[i].0 == spec_xy_idx(w, x, y + 1));
    } else if i < le {
        assert(s[i] == e[i - ld]);
        assert(s[i].0 == spec_xy_idx(w, x - 1, y - 1));
    } else if i < lf {
        assert(s[i] == f[i - le]);
        assert(s[i].0 == spec_xy_idx(w, x + 1, y - 1));
    } else if i < lg {
        assert(s[i] == g[i - lf]);
        assert(s[i].0 == spec_xy_idx(w, x - 1, y + 1));
    } else {
        assert(s[i] == h[i - lg]);
        assert(s[i].0 == spec_xy_idx(w, x + 1, y + 1));
    }
}

/// An exit to `(x, y)` is that cell, when it is open.
proof fn lemma_exit_if_cell(m: TileMap, x: int, y: int, k: StepKind)
    requires
        m.size.0 > 0,
        m.blocked@.len() >= m.spec_len(),
        m.spec_len() <= usize::MAX,
    ensures
        m.spec_exit_if(x, y, k).len() <= 1,
        m.spec_exit_if(x, y, k).len() == 1 ==> {
            &&& m.spec_exit_valid(x, y)
            &&& m.spec_exit_if(x, y, k)[0] == (spec_xy_idx(m.size.0 as int, x, y) as usize, k)
            &&& 0 <= spec_xy_idx(m.size.0 as int, x, y) < m.spec_len()
        },
{
    if m.spec_exit_valid(x, y) {
        lemma_xy_idx_bound(m.size.0 as int, m.size.1 as int, x, y);
    }
}

/// The squared straight-line distance between the cells of indices `a` and
/// `b` on a map `w` wide.
pub open spec fn idx_dist2(a: int, b: int, w: int) -> int {
    (a % w - b % w) * (a % w - b % w) + (a / w - b / w) * (a / w - b / w)
}

/// The cell of index `i` on a map `w` wide has coordinates that fit an `i32`.
pub open spec fn idx_cell_fits(i: int, w: int) -> bool {
    i % w <= i32::MAX && i / w <= i32::MAX
}

/// `d` is the least squared distance between a cell of `from` and one of `to`.
pub open spec fn is_min_dist2(from: Seq<usize>, to: Seq<usize>, w: int, d: int) -> bool {
    &&& exists|i: int, j: int| 0 <= i < from.len() && 0 <= j < to.len() && d == idx_dist2(#[trigger] from[i] as int, #[trigger] to[j] as int, w)
    &&& forall|i: int, j: int| 0 <= i < from.len() && 0 <= j < to.len() ==> d <= idx_dist2(#[trigger] from[i] as int, #[trigger] to[j] as int, w)
}

impl TileMap {
    /// The squared straight-line distance between the cells of indices `a`
    /// and `b`.
    pub fn idx_distance_sq(&self, a: usize, b: usize) -> (r: u64)
        requires
            self.size.0 > 0,
            idx_cell_fits(a as int, self.size.0 as int),
            idx_cell_fits(b as int, self.size.0 as int),
        ensures
            r == idx_dist2(a as int, b as int, self.size.0 as int),
    {
        let w = self.size.0;
        let (ax, ay) = (a % w, a / w);
        let (bx, by) = (b % w, b / w);
        let dx: u64 = if ax < bx { (bx - ax) as u64 } else { (ax - bx) as u64 };
        let dy: u64 = if ay < by { (by - ay) as u64 } else { (ay - by) as u64 };
        proof {
            assert(dx * dx <= 0x3fff_ffff_0000_0001) by (nonlinear_arith) requires dx <= 0x7fff_ffff;
            assert(dy * dy <= 0x3fff_ffff_0000_0001) by (nonlinear_arith) requires dy <= 0x7fff_ffff;
            let ddx = a as int % w as int - b as int % w as int;
            let ddy = a as int / w as int - b as int / w as int;
            assert(ddx * ddx == dx * dx) by (nonlinear_arith) requires dx == ddx || dx == -ddx;
            assert(ddy * ddy == dy * dy) by (nonlinear_arith) requires dy == ddy || dy == -ddy;
        }
        dx * dx + dy * dy
    }

    /// The least squared straight-line distance between a cell of `from` and
    /// a cell of `to` (by index), or `None` when either list is empty. The
    /// straight-line distance itself, its square root, is taken in floating
    /// point by the caller.
    pub fn min_distance_sq(&self, from: &Vec<usize>, to: &Vec<usize>) -> (r: Option<u64>)
        requires
            self.size.0 > 0,
            forall|i: int| 0 <= i < from@.len() ==> idx_cell_fits(#[trigger] from@[i] as int, self.size.0 as int),
            forall|j: int| 0 <= j < to@.len() ==> idx_cell_fits(#[trigger] to@[j] as int, self.size.0 as int),
        ensures
            r is None <==> (from@.len() == 0 || to@.len() == 0),
            r matches Some(d) ==> is_min_dist2(from@, to@, self.size.0 as int, d as int),
    {
        let ghost w = self.size.0 as int;
        let mut best: Option<u64> = None;
        let mut i: usize = 0;
        while i < from.len()
            invariant
                i <= from@.len(),
                self.size.0 > 0,
                w == self.size.0 as int,
                forall|k: int| 0 <= k < from@.len() ==> idx_cell_fits(#[trigger] from@[k] as int, w),
                forall|k: int| 0 <= k < to@.len() ==> idx_cell_fits(#[trigger] to@[k] as int, w),
                best is None <==> (i == 0 || to@.len() == 0),
                best matches Some(d) ==> {
                    &&& exists|a: int, b: int| 0 <= a < i && 0 <= b < to@.len() && d == idx_dist2(#[trigger] from@[a] as int, #[trigger] to@[b] as int, w)
                    &&& forall|a: int, b: int| 0 <= a < i && 0 <= b < to@.len() ==> d <= idx_dist2(#[trigger] from@[a] as int, #[trigger] to@[b] as int, w)
                },
            decreases from@.len() - i,
        {
            let mut j: usize = 0;
            while j < to.len()
                invariant
                    i < from@.len(),
                    j <= to@.len(),
                    self.size.0 > 0,
                    w == self.size.0 as int,
                    forall|k: int| 0 <= k < from@.len() ==> idx_cell_fits(#[trigger] from@[k] as int, w),
                    forall|k: int| 0 <= k < to@.len() ==> idx_cell_fits(#[trigger] to@[k] as int, w),
                    best is None <==> ((i == 0 && j == 0) || to@.len() == 0),
                    best matches Some(d) ==> {
                        &&& exists|a: int, b: int| ((0 <= a < i && 0 <= b < to@.len()) || (a == i && 0 <= b < j))
                            && d == idx_dist2(#[trigger] from@[a] as int, #[trigger] to@[b] as int, w)
                        &&& forall|a: int, b: int| ((0 <= a < i && 0 <= b < to@.len()) || (a == i && 0 <= b < j))
                            ==> d <= idx_dist2(#[trigger] from@[a] as int, #[trigger] to@[b] as int, w)
                    },
                decreases to@.len() - j,
            {
                proof {
                    assert(idx_cell_fits(from@[i as int] as int, w));
                    assert(idx_cell_fits(to@[j as int] as int, w));
                }
                let d = self.idx_distance_sq(from[i], to[j]);
                let better = match best {
                    Some(b) => d < b,
                    None => true,
                };
                if better {
                    best = Some(d);
                }
                j += 1;
            }
            i += 1;
        }
        best
    }
}

} // verus!
