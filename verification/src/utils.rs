//! Grid points and the small geometric helpers used throughout the engine.

use vstd::prelude::*;

verus! {

/// Screen or map coordinates as a pair of signed integers.
pub type XY = (i32, i32);

/// A position on the grid.
#[derive(PartialEq, Eq, Structural, Copy, Clone, Debug)]
pub struct Point {
    pub x: i32,
    pub y: i32,
}

/// A value fits in an `i32`.
pub open spec fn fits_i32(v: int) -> bool {
    i32::MIN <= v <= i32::MAX
}

impl Point {
    /// The point at `(x, y)`.
    pub fn new(x: i32, y: i32) -> (p: Point)
        ensures
            p.x == x,
            p.y == y,
    {
        Point { x, y }
    }

    /// The point as an `(x, y)` pair.
    pub fn to_xy(&self) -> (r: XY)
        ensures
            r == (self.x, self.y),
    {
        (self.x, self.y)
    }
}

/// Types that have a point standing for "no position".
pub trait InvalidPoint {
    /// The point that stands for "no position".
    fn invalid_point() -> (p: Point)
        ensures
            p.x == -1 && p.y == -1,
    ;
}

impl InvalidPoint for Point {
    fn invalid_point() -> (p: Point) {
        Point { x: -1, y: -1 }
    }
}

/// The sign of `num`: -1, 0 or 1.
pub open spec fn spec_normalize(num: int) -> int {
    if num == 0 {
        0
    } else if num > 0 {
        1
    } else {
        -1
    }
}

/// The sign of `num`: -1 for negative, 0 for zero, 1 for positive.
pub fn normalize(num: i32) -> (r: i32)
    ensures
        r == spec_normalize(num as int),
        r * num >= 0,
        num != 0 ==> r * num == if num > 0 { num as int } else { -num },
{
    if num == 0 {
        0
    } else if num > 0 {
        1
    } else {
        -1
    }
}

/// The unit step of a numpad direction (1 is south-west, 9 is north-east,
/// y grows downwards); any other number is no step.
pub open spec fn dir_offset(dir: usize) -> (int, int) {
    if dir == 1 {
        (-1, 1)
    } else if dir == 2 {
        (0, 1)
    } else if dir == 3 {
        (1, 1)
    } else if dir == 4 {
        (-1, 0)
    } else if dir == 6 {
        (1, 0)
    } else if dir == 7 {
        (-1, -1)
    } else if dir == 8 {
        (0, -1)
    } else if dir == 9 {
        (1, -1)
    } else {
        (0, 0)
    }
}

/// `v` moved `d` times by the unit step `unit` (which is -1, 0 or 1).
pub open spec fn dir_step(v: int, unit: int, d: int) -> int {
    if unit < 0 {
        v - d
    } else if unit > 0 {
        v + d
    } else {
        v
    }
}

/// The point `dismod` steps from `pos` in numpad direction `dir`.
pub fn dir_to_point(pos: Point, dir: usize, dismod: i32) -> (r: Point)
    requires
        fits_i32(dir_step(pos.x as int, dir_offset(dir).0, dismod as int)),
        fits_i32(dir_step(pos.y as int, dir_offset(dir).1, dismod as int)),
    ensures
        r.x == dir_step(pos.x as int, dir_offset(dir).0, dismod as int),
        r.y == dir_step(pos.y as int, dir_offset(dir).1, dismod as int),
{
    match dir {
        1 => Point { x: pos.x - dismod, y: pos.y + dismod },
        2 => Point { x: pos.x, y: pos.y + dismod },
        3 => Point { x: pos.x + dismod, y: pos.y + dismod },
        4 => Point { x: pos.x - dismod, y: pos.y },
        6 => Point { x: pos.x + dismod, y: pos.y },
        7 => Point { x: pos.x - dismod, y: pos.y - dismod },
        8 => Point { x: pos.x, y: pos.y - dismod },
        9 => Point { x: pos.x + dismod, y: pos.y - dismod },
        _ => Point { x: pos.x, y: pos.y },
    }
}

/// The component-wise sum of two points.
pub fn point_plus(p1: Point, p2: Point) -> (r: Point)
    requires
        fits_i32(p1.x + p2.x),
        fits_i32(p1.y + p2.y),
    ensures
        r.x == p1.x + p2.x,
        r.y == p1.y + p2.y,
{
    Point { x: p2.x + p1.x, y: p2.y + p1.y }
}

/// The eight offsets of the neighbours of a cell, column by column from the
/// north-west corner.
pub open spec fn neighbor_offsets() -> Seq<(int, int)> {
    seq![(-1, -1), (-1, 0), (-1, 1), (0, -1), (0, 1), (1, -1), (1, 0), (1, 1)]
}

/// The eight cells around `point`, column by column from its north-west corner.
pub fn get_neighbors(point: Point) -> (r: Vec<Point>)
    requires
        fits_i32(point.x - 1),
        fits_i32(point.x + 1),
        fits_i32(point.y - 1),
        fits_i32(point.y + 1),
    ensures
        r.len() == 8,
        forall|i: int|
            0 <= i < 8 ==> #[trigger] r@[i].x == point.x + neighbor_offsets()[i].0 && r@[i].y
                == point.y + neighbor_offsets()[i].1,
{
    let r = vec![
        Point { x: point.x - 1, y: point.y - 1 },
        Point { x: point.x - 1, y: point.y },
        Point { x: point.x - 1, y: point.y + 1 },
        Point { x: point.x, y: point.y - 1 },
        Point { x: point.x, y: point.y + 1 },
        Point { x: point.x + 1, y: point.y - 1 },
        Point { x: point.x + 1, y: point.y },
        Point { x: point.x + 1, y: point.y + 1 },
    ];
    r
}

/// Every neighbour of a point is a different cell at chessboard distance one.
pub proof fn lemma_neighbors_adjacent(i: int)
    requires
        0 <= i < 8,
    ensures
        neighbor_offsets()[i] != (0int, 0int),
        -1 <= neighbor_offsets()[i].0 <= 1,
        -1 <= neighbor_offsets()[i].1 <= 1,
        forall|j: int| 0 <= j < 8 && j != i ==> neighbor_offsets()[j] != neighbor_offsets()[i],
{
}

/// Integer division rounding towards zero, as Rust divides, for a positive
/// divisor.
pub open spec fn div_trunc(a: int, b: int) -> int {
    if a >= 0 {
        a / b
    } else {
        -((-a) / b)
    }
}

/// `a / b` on `i32` for a positive divisor, rounding towards zero.
pub fn div_i32(a: i32, b: i32) -> (r: i32)
    requires
        b > 0,
    ensures
        r == div_trunc(a as int, b as int),
{
    a / b
}

/// Dividing a multiple of a positive `b` by `b` gives back the factor.
pub proof fn lemma_div_trunc_multiple(k: int, b: int)
    requires
        b > 0,
    ensures
        div_trunc(k * b, b) == k,
{
    if k >= 0 {
        assert(k * b >= 0) by (nonlinear_arith)
            requires k >= 0, b > 0;
        vstd::arithmetic::div_mod::lemma_div_multiples_vanish(k, b);
        assert(b * k == k * b) by (nonlinear_arith);
    } else {
        assert(k * b < 0) by (nonlinear_arith)
            requires k < 0, b > 0;
        assert(-(k * b) == (-k) * b) by (nonlinear_arith);
        vstd::arithmetic::div_mod::lemma_div_multiples_vanish(-k, b);
        assert(b * (-k) == (-k) * b) by (nonlinear_arith);
    }
}

} // verus!
