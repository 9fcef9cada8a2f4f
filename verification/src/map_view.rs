//! Drawing the world map in a console: one glyph per map cell when glyphs
//! are large, and at small sizes one colour per screen pixel, each cell a
//! block of its background colour around its foreground colour.

use vstd::prelude::*;
use crate::colors::Color;
use crate::console::{Console, Glyph};
use crate::cp437::{spec_to_cp437, to_cp437};

verus! {

/// What a map cell looks like: glyph, foreground and background colour.
pub type Look = (char, Color, Color);

/// Cell `(x, y)` lies on a map of `size` cells.
pub open spec fn on_map_xy(size: (usize, usize), x: int, y: int) -> bool {
    0 <= x < size.0 && 0 <= y < size.1
}

/// The look of cell `(x, y)` of a map of `size` cells, row by row in `looks`.
pub open spec fn look_at(looks: Seq<Look>, size: (usize, usize), x: int, y: int) -> Look {
    looks[y * size.0 + x]
}

/// Pixel `(xm, ym)` of a glyph of `g` pixels lies in its outer quarter.
pub open spec fn on_border(g: int, xm: int, ym: int) -> bool {
    xm < g / 4 || xm >= g * 3 / 4 || ym < g / 4 || ym >= g * 3 / 4
}

/// The colour screen pixel `i` (on a screen `sw` pixels wide) takes from
/// the map, if it lies in console `c` over a cell of the map: the cell's
/// background colour near the cell's edges, its foreground colour inside.
pub open spec fn pixel_colour(c: Console, size: (usize, usize), looks: Seq<Look>, sw: int, i: int) -> Option<Color> {
    let xs = i % sw;
    let ys = i / sw;
    let g = c.gsize as int;
    if c.pos.0 <= xs < c.pos.0 + c.size.0 && c.pos.1 <= ys < c.pos.1 + c.size.1 {
        let xmap = c.map_pos.0 + (xs - c.pos.0) / g;
        let ymap = c.map_pos.1 + (ys - c.pos.1) / g;
        if on_map_xy(size, xmap, ymap) {
            let look = look_at(looks, size, xmap, ymap);
            Some(if on_border(g, (xs - c.pos.0) % g, (ys - c.pos.1) % g) { look.2 } else { look.1 })
        } else {
            None
        }
    } else {
        None
    }
}

/// The pixel writes for the first `k` screen pixels, in order.
pub open spec fn map_pixels(c: Console, size: (usize, usize), looks: Seq<Look>, sw: int, k: int) -> Seq<(usize, Color)>
    decreases k,
{
    if k <= 0 {
        Seq::empty()
    } else {
        map_pixels(c, size, looks, sw, k - 1) + match pixel_colour(c, size, looks, sw, k - 1) {
            Some(col) => seq![((k - 1) as usize, col)],
            None => Seq::empty(),
        }
    }
}

/// The glyph of console column `x`, row `y`, if one is drawn there: the
/// cell `map_pos` away, when it is on the map (and the column and row pass
/// the console's bounds check against its pixel extent).
pub open spec fn cell_glyph(c: Console, size: (usize, usize), looks: Seq<Look>, x: int, y: int) -> Option<Glyph> {
    let g = c.gsize as int;
    let mx = x + c.map_pos.0;
    let my = y + c.map_pos.1;
    if x < c.pos.0 + c.size.0 + g && y < c.pos.1 + c.size.1 + g && on_map_xy(size, mx, my) {
        let look = look_at(looks, size, mx, my);
        Some(Glyph {
            pos: ((c.pos.0 + x * g) as i32, (c.pos.1 + y * g) as i32),
            ch: spec_to_cp437(look.0) as usize,
            fg: look.1,
            bg: look.2,
            gsize: c.gsize,
        })
    } else {
        None
    }
}

/// The glyphs of the first `k` rows of console column `x`, in order.
pub open spec fn column_glyphs(c: Console, size: (usize, usize), looks: Seq<Look>, x: int, k: int) -> Seq<Glyph>
    decreases k,
{
    if k <= 0 {
        Seq::empty()
    } else {
        column_glyphs(c, size, looks, x, k - 1) + match cell_glyph(c, size, looks, x, k - 1) {
            Some(gl) => seq![gl],
            None => Seq::empty(),
        }
    }
}

/// The glyphs of the first `k` console columns, column by column.
pub open spec fn map_glyphs(c: Console, size: (usize, usize), looks: Seq<Look>, k: int) -> Seq<Glyph>
    decreases k,
{
    if k <= 0 {
        Seq::empty()
    } else {
        map_glyphs(c, size, looks, k - 1) + column_glyphs(c, size, looks, k - 1, c.size.1 as int / c.gsize as int)
    }
}

/// What drawing the map needs: a positive glyph size and console extent
/// that fit `i32`, a look per map cell, and a screen of `frame_len` bytes
/// (four per pixel) `sw` pixels wide whose pixels can be counted in `i32`.
pub open spec fn map_view_ok(c: Console, size: (usize, usize), looks: Seq<Look>, sw: int, frame_len: int) -> bool {
    &&& c.gsize > 0
    &&& c.size.0 >= 0
    &&& c.size.1 >= 0
    &&& c.pos.0 + c.size.0 <= i32::MAX
    &&& c.pos.1 + c.size.1 <= i32::MAX
    &&& size.0 * size.1 == looks.len()
    &&& size.0 <= i32::MAX
    &&& size.1 <= i32::MAX
    &&& sw > 0
    &&& frame_len / 4 <= i32::MAX
}

/// The look of map cell `(x, y)`.
fn look_of(looks: &Vec<Look>, size: (usize, usize), x: i64, y: i64) -> (r: Look)
    requires
        on_map_xy(size, x as int, y as int),
        size.0 * size.1 == looks@.len(),
    ensures
        r == look_at(looks@, size, x as int, y as int),
{
    let n = looks.len();
    let xu = x as usize;
    let yu = y as usize;
    proof {
        crate::map::lemma_xy_idx_bound(size.0 as int, size.1 as int, x as int, y as int);
        assert(0 <= yu * size.0) by (nonlinear_arith);
        assert(yu * size.0 + xu < n);
    }
    looks[yu * size.0 + xu]
}

impl Console {
    /// The colours of the screen pixels the map shows through, in order of
    /// the pixels (see `pixel_colour`).
    fn map_pixel_writes(&self, pixels: &mut Vec<(usize, Color)>, size: (usize, usize), looks: &Vec<Look>, sw: i32, frame_len: usize)
        requires
            map_view_ok(*self, size, looks@, sw as int, frame_len as int),
        ensures
            final(pixels)@ == old(pixels)@ + map_pixels(*self, size, looks@, sw as int, (frame_len / 4) as int),
    {
        let n = frame_len / 4;
        let g = self.gsize as i64;
        let mut i: usize = 0;
        while i < n
            invariant
                map_view_ok(*self, size, looks@, sw as int, frame_len as int),
                n == frame_len / 4,
                g == self.gsize,
                i <= n,
                pixels@ == old(pixels)@ + map_pixels(*self, size, looks@, sw as int, i as int),
            decreases n - i,
        {
            let ii = i as i64;
            let xs = ii % (sw as i64);
            let ys = ii / (sw as i64);
            let ghost before = pixels@;
            if self.pos.0 as i64 <= xs && xs < self.pos.0 as i64 + self.size.0 as i64 && self.pos.1 as i64 <= ys
                && ys < self.pos.1 as i64 + self.size.1 as i64 {
                let xmap = self.map_pos.0 as i64 + (xs - self.pos.0 as i64) / g;
                let ymap = self.map_pos.1 as i64 + (ys - self.pos.1 as i64) / g;
                if 0 <= xmap && xmap < size.0 as i64 && 0 <= ymap && ymap < size.1 as i64 {
                    let look = look_of(looks, size, xmap, ymap);
                    let xmod = (xs - self.pos.0 as i64) % g;
                    let ymod = (ys - self.pos.1 as i64) % g;
                    let border = xmod < g / 4 || xmod >= g * 3 / 4 || ymod < g / 4 || ymod >= g * 3 / 4;
                    let colour = if border { look.2 } else { look.1 };
                    pixels.push((i, colour));
                }
            }
            proof {
                let gi = self.gsize as int;
                assert(xs == i as int % sw as int);
                assert(ys == i as int / sw as int);
                assert(pixels@ =~= before + match pixel_colour(*self, size, looks@, sw as int, i as int) {
                    Some(col) => seq![(i, col)],
                    None => Seq::empty(),
                });
            }
            i += 1;
        }
    }

    /// The glyphs of the map cells the console shows, column by column (see
    /// `cell_glyph`).
    fn map_glyph_writes(&self, frame: &mut Vec<Glyph>, size: (usize, usize), looks: &Vec<Look>)
        requires
            map_view_ok(*self, size, looks@, 1, 0),
        ensures
            final(frame)@ == old(frame)@ + map_glyphs(*self, size, looks@, self.size.0 as int / self.gsize as int),
    {
        let g = self.gsize;
        let wc = self.size.0 / g;
        let hc = self.size.1 / g;
        let mut x: i32 = 0;
        while x < wc
            invariant
                map_view_ok(*self, size, looks@, 1, 0),
                g == self.gsize,
                wc == self.size.0 / g,
                hc == self.size.1 / g,
                0 <= x <= wc,
                frame@ == old(frame)@ + map_glyphs(*self, size, looks@, x as int),
            decreases wc - x,
        {
            let ghost col_start = frame@;
            let mut y: i32 = 0;
            while y < hc
                invariant
                    map_view_ok(*self, size, looks@, 1, 0),
                    g == self.gsize,
                    wc == self.size.0 / g,
                    hc == self.size.1 / g,
                    0 <= x < wc,
                    0 <= y <= hc,
                    frame@ == col_start + column_glyphs(*self, size, looks@, x as int, y as int),
                decreases hc - y,
            {
                let ghost before = frame@;
                let mx = x as i64 + self.map_pos.0 as i64;
                let my = y as i64 + self.map_pos.1 as i64;
                if (x as i64) < self.pos.0 as i64 + self.size.0 as i64 + g as i64
                    && (y as i64) < self.pos.1 as i64 + self.size.1 as i64 + g as i64
                    && 0 <= mx && mx < size.0 as i64 && 0 <= my && my < size.1 as i64 {
                    let look = look_of(looks, size, mx, my);
                    proof {
                        let gi = g as int;
                        vstd::arithmetic::div_mod::lemma_fundamental_div_mod(self.size.0 as int, gi);
                        vstd::arithmetic::div_mod::lemma_fundamental_div_mod(self.size.1 as int, gi);
                        assert(x * gi + gi <= wc * gi) by (nonlinear_arith) requires x + 1 <= wc, gi > 0;
                        assert(y * gi + gi <= hc * gi) by (nonlinear_arith) requires y + 1 <= hc, gi > 0;
                        assert(gi * (self.size.0 as int / gi) == wc * gi) by (nonlinear_arith) requires wc == self.size.0 as int / gi;
                        assert(gi * (self.size.1 as int / gi) == hc * gi) by (nonlinear_arith) requires hc == self.size.1 as int / gi;
                        assert(0 <= x * gi) by (nonlinear_arith) requires x >= 0, gi > 0;
                        assert(0 <= y * gi) by (nonlinear_arith) requires y >= 0, gi > 0;
                    }
                    let gl = Glyph {
                        pos: (self.pos.0 + x * g, self.pos.1 + y * g),
                        ch: to_cp437(look.0),
                        fg: look.1,
                        bg: look.2,
                        gsize: g,
                    };
                    self.print_cp437(frame, gl);
                }
                proof {
                    assert(frame@ =~= before + match cell_glyph(*self, size, looks@, x as int, y as int) {
                        Some(gl) => seq![gl],
                        None => Seq::empty(),
                    });
                }
                y += 1;
            }
            x += 1;
        }
    }

    /// Draws the world map: with glyphs under 8 pixels, the map's colour
    /// for every screen pixel inside the console (see `map_pixels`;
    /// `frame_len` bytes, four per pixel, `sw` pixels to a row); otherwise a
    /// glyph per map cell the console shows (see `map_glyphs`). `looks`
    /// holds what each map cell looks like, row by row.
    pub fn render_map(
        &self,
        frame: &mut Vec<Glyph>,
        pixels: &mut Vec<(usize, Color)>,
        size: (usize, usize),
        looks: &Vec<Look>,
        sw: i32,
        frame_len: usize,
    )
        requires
            map_view_ok(*self, size, looks@, sw as int, frame_len as int),
        ensures
            self.gsize < 8 ==> final(pixels)@ == old(pixels)@ + map_pixels(*self, size, looks@, sw as int, (frame_len / 4) as int)
                && final(frame)@ == old(frame)@,
            self.gsize >= 8 ==> final(frame)@ == old(frame)@ + map_glyphs(*self, size, looks@, self.size.0 as int / self.gsize as int)
                && final(pixels)@ == old(pixels)@,
    {
        if self.gsize < 8 {
            self.map_pixel_writes(pixels, size, looks, sw, frame_len);
        } else {
            self.map_glyph_writes(frame, size, looks);
        }
    }
}

} // verus!
