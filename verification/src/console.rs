//! Rectangular text consoles on the screen: their geometry, zoom, and the
//! glyphs they lay out when they print text, draw boxes or highlight cells.

use vstd::prelude::*;
use crate::colors::{Color, COLOR_BG, COLOR_UI_1, COLOR_UI_2, COLOR_HIGHLIGHT1, COLOR_HIGHLIGHT2};
use crate::screen::RangedTargetResult;
use crate::utils::Point;
use crate::cp437::{spec_to_cp437, string_to_cp437, to_cp437};
use crate::map::TileMap;
use crate::utils::{XY, fits_i32, div_i32};

verus! {

/// The largest glyph size a console zooms to.
pub const MAX_ZOOM: i32 = 16;

/// What a console shows.
#[derive(Debug, PartialEq, Eq, Structural, Clone, Copy)]
pub enum ConsoleMode {
    MainMenu,
    WorldMap,
    Log,
    Info,
    Context,
    Inventory,
    ItemInfo,
}

/// One character cell to draw: where, which code-page-437 character, in
/// which colours, at which size in pixels.
#[derive(Debug, Clone, Copy, PartialEq, Eq)]
pub struct Glyph {
    pub pos: XY,
    pub ch: usize,
    pub fg: Color,
    pub bg: Color,
    pub gsize: i32,
}

/// One glyph bitmap: `width` by `height` RGBA pixels, row by row.
pub struct Sprite {
    pub width: usize,
    pub height: usize,
    pub pixels: Vec<u8>,
}

/// The code page 437 font drawn at one glyph size in pixels.
pub struct SpriteSheet {
    pub glyph_size: u32,
    pub sprites: Vec<Sprite>,
}

/// The font sheets, ordered by glyph size.
pub struct Assets {
    pub cp437: Vec<SpriteSheet>,
}

/// One pixel of a glyph to blend into the frame: the byte offset of the
/// frame pixel, the byte offset of the sprite pixel, and whether the sprite
/// pixel is the fuchsia background key (drawn in the glyph's background
/// colour) or foreground (tinted by the glyph's foreground colour).
#[derive(Clone, Copy, Debug, PartialEq, Eq, Structural)]
pub struct BlitPixel {
    pub frame_idx: usize,
    pub sprite_idx: usize,
    pub background: bool,
}

/// A rectangle of the screen that draws one kind of content.
#[derive(Debug)]
pub struct Console {
    pub size: XY,
    pub pos: XY,
    pub children: Vec<Console>,
    pub hidden: bool,
    pub z: i32,
    pub mode: ConsoleMode,
    /// Size of a glyph in pixels.
    pub gsize: i32,
    /// The map cell shown at the console's top-left corner (map consoles only).
    pub map_pos: XY,
}

/// The glyph size `zoom_to_fit` reaches from `g`: it grows while below
/// `MAX_ZOOM` and one size more still fits a `w` by `h` map strictly inside
/// a console of `sx` by `sy` pixels.
pub open spec fn spec_fit_zoom(g: int, w: int, h: int, sx: int, sy: int) -> int
    decreases MAX_ZOOM - g,
{
    if g < MAX_ZOOM && (g + 1) * w < sx && (g + 1) * h < sy {
        spec_fit_zoom(g + 1, w, h, sx, sy)
    } else {
        g
    }
}

impl Console {
    /// A visible console at `pos` of `size` pixels, with no children, in
    /// `mode`, drawing glyphs of `gsize` pixels, showing the map from its origin.
    pub fn new(size: XY, pos: XY, mode: ConsoleMode, gsize: i32) -> (r: Console)
        ensures
            r.size == size,
            r.pos == pos,
            r.children@.len() == 0,
            !r.hidden,
            r.z == 1,
            r.mode == mode,
            r.gsize == gsize,
            r.map_pos == (0i32, 0i32),
    {
        Console {
            size: size,
            pos: pos,
            children: Vec::new(),
            hidden: false,
            z: 1,
            mode: mode,
            gsize,
            map_pos: (0, 0),
        }
    }

    /// Whether `pos` lies in the console, its right and bottom edges included.
    pub fn in_bounds(&self, pos: XY) -> (r: bool)
        ensures
            r == (pos.0 >= self.pos.0 && pos.0 <= self.pos.0 + self.size.0 && pos.1 >= self.pos.1
                && pos.1 <= self.pos.1 + self.size.1),
    {
        let px = pos.0 as i64;
        let py = pos.1 as i64;
        px >= self.pos.0 as i64 && px <= self.pos.0 as i64 + self.size.0 as i64 && py
            >= self.pos.1 as i64 && py <= self.pos.1 as i64 + self.size.1 as i64
    }

    /// Grows the glyph size while a bigger one still fits the whole map.
    pub fn zoom_to_fit(&mut self, map: &TileMap)
        ensures
            final(self).gsize == spec_fit_zoom(
                old(self).gsize as int,
                map.size.0 as int,
                map.size.1 as int,
                old(self).size.0 as int,
                old(self).size.1 as int,
            ),
            final(self).size == old(self).size,
            final(self).pos == old(self).pos,
            final(self).mode == old(self).mode,
            final(self).map_pos == old(self).map_pos,
            final(self).hidden == old(self).hidden,
            final(self).z == old(self).z,
            final(self).children@ == old(self).children@,
    {
        let w = map.size.0 as i128;
        let h = map.size.1 as i128;
        loop
            invariant
                w == map.size.0,
                h == map.size.1,
                self.size == old(self).size,
                self.pos == old(self).pos,
                self.mode == old(self).mode,
                self.map_pos == old(self).map_pos,
                self.hidden == old(self).hidden,
                self.z == old(self).z,
                self.children@ == old(self).children@,
                spec_fit_zoom(
                    old(self).gsize as int,
                    w as int,
                    h as int,
                    self.size.0 as int,
                    self.size.1 as int,
                ) == spec_fit_zoom(
                    self.gsize as int,
                    w as int,
                    h as int,
                    self.size.0 as int,
                    self.size.1 as int,
                ),
            ensures
                self.size == old(self).size,
                self.pos == old(self).pos,
                self.mode == old(self).mode,
                self.map_pos == old(self).map_pos,
                self.hidden == old(self).hidden,
                self.z == old(self).z,
                self.children@ == old(self).children@,
                self.gsize == spec_fit_zoom(
                    old(self).gsize as int,
                    w as int,
                    h as int,
                    self.size.0 as int,
                    self.size.1 as int,
                ),
            decreases MAX_ZOOM - self.gsize,
        {
            if self.gsize >= MAX_ZOOM {
                assert(spec_fit_zoom(self.gsize as int, w as int, h as int, self.size.0 as int, self.size.1 as int) == self.gsize);
                break;
            }
            let next = self.gsize as i128 + 1;
            proof {
                assert(-0x8000_0000 <= next <= 16);
                assert(-0x8000_0000 * 0x1_0000_0000_0000_0000 <= next * w <= 16 * 0x1_0000_0000_0000_0000) by (nonlinear_arith)
                    requires -0x8000_0000 <= next <= 16, 0 <= w < 0x1_0000_0000_0000_0000;
                assert(-0x8000_0000 * 0x1_0000_0000_0000_0000 <= next * h <= 16 * 0x1_0000_0000_0000_0000) by (nonlinear_arith)
                    requires -0x8000_0000 <= next <= 16, 0 <= h < 0x1_0000_0000_0000_0000;
            }
            if next * w < self.size.0 as i128 && next * h < self.size.1 as i128 {
                self.gsize = self.gsize + 1;
            } else {
                assert(spec_fit_zoom(self.gsize as int, w as int, h as int, self.size.0 as int, self.size.1 as int) == self.gsize);
                break;
            }
        }
    }

    /// One glyph size bigger, up to `MAX_ZOOM`.
    pub fn zoom_in(&mut self)
        ensures
            final(self).gsize == if old(self).gsize < MAX_ZOOM {
                old(self).gsize + 1
            } else {
                old(self).gsize as int
            },
            final(self).size == old(self).size,
            final(self).pos == old(self).pos,
            final(self).mode == old(self).mode,
            final(self).map_pos == old(self).map_pos,
            final(self).hidden == old(self).hidden,
            final(self).z == old(self).z,
            final(self).children@ == old(self).children@,
    {
        if self.gsize < MAX_ZOOM {
            self.gsize += 1;
        }
    }

    /// One glyph size smaller, down to 1.
    pub fn zoom_out(&mut self)
        ensures
            final(self).gsize == if old(self).gsize > 1 {
                old(self).gsize - 1
            } else {
                old(self).gsize as int
            },
            final(self).size == old(self).size,
            final(self).pos == old(self).pos,
            final(self).mode == old(self).mode,
            final(self).map_pos == old(self).map_pos,
            final(self).hidden == old(self).hidden,
            final(self).z == old(self).z,
            final(self).children@ == old(self).children@,
    {
        if self.gsize > 1 {
            self.gsize -= 1;
        }
    }

    /// Zooms out `MAX_ZOOM` times and scrolls back to the map's origin.
    pub fn reset_view(&mut self)
        ensures
            final(self).gsize == crate::screen::zoomed_out_times(old(self).gsize as int, MAX_ZOOM as nat),
            final(self).map_pos == (0i32, 0i32),
            final(self).size == old(self).size,
            final(self).pos == old(self).pos,
            final(self).mode == old(self).mode,
            final(self).hidden == old(self).hidden,
            final(self).z == old(self).z,
            final(self).children@ == old(self).children@,
    {
        let mut step: i32 = 0;
        while step < MAX_ZOOM
            invariant
                0 <= step <= MAX_ZOOM,
                self.gsize == crate::screen::zoomed_out_times(old(self).gsize as int, step as nat),
                self.size == old(self).size,
                self.pos == old(self).pos,
                self.mode == old(self).mode,
                self.hidden == old(self).hidden,
                self.z == old(self).z,
                self.children@ == old(self).children@,
                self.map_pos == old(self).map_pos,
            decreases MAX_ZOOM - step,
        {
            self.zoom_out();
            step += 1;
        }
        self.map_pos = (0, 0);
    }

    /// Queues `glyph` for drawing.
    pub fn print_cp437(&self, frame: &mut Vec<Glyph>, glyph: Glyph)
        ensures
            final(frame)@ == old(frame)@.push(glyph),
    {
        frame.push(glyph);
    }

    /// Queues the characters of `str` as glyphs of `gsize` pixels in
    /// `color` on the background colour, left to right from `pos`.
    pub fn print_string(&self, frame: &mut Vec<Glyph>, str: &str, pos: XY, color: Color, gsize: i32)
        requires
            str@.len() <= i32::MAX,
            forall|i: int| 0 <= i < str@.len() ==> #[trigger] fits_i32(i * gsize) && fits_i32(pos.0 + i * gsize),
        ensures
            final(frame)@ == old(frame)@ + Seq::new(
                str@.len(),
                |i: int| Glyph {
                    pos: ((pos.0 + i * gsize) as i32, pos.1),
                    ch: spec_to_cp437(str@[i]) as usize,
                    fg: color,
                    bg: COLOR_BG,
                    gsize,
                },
            ),
    {
        let chars = string_to_cp437(str);
        let ghost start = frame@;
        let mut idx: usize = 0;
        while idx < chars.len()
            invariant
                idx <= chars@.len(),
                chars@.len() == str@.len(),
                str@.len() <= i32::MAX,
                forall|i: int| 0 <= i < chars@.len() ==> #[trigger] chars@[i] == spec_to_cp437(str@[i]),
                forall|i: int| 0 <= i < str@.len() ==> #[trigger] fits_i32(i * gsize) && fits_i32(pos.0 + i * gsize),
                frame@ == start + Seq::new(
                    idx as nat,
                    |i: int| Glyph {
                        pos: ((pos.0 + i * gsize) as i32, pos.1),
                        ch: spec_to_cp437(str@[i]) as usize,
                        fg: color,
                        bg: COLOR_BG,
                        gsize,
                    },
                ),
            decreases chars@.len() - idx,
        {
            proof {
                assert(fits_i32(idx * gsize) && fits_i32(pos.0 + idx * gsize));
            }
            let x = pos.0 + idx as i32 * gsize;
            self.print_cp437(frame, Glyph { pos: (x, pos.1), ch: chars[idx], fg: color, bg: COLOR_BG, gsize });
            idx += 1;
            proof {
                assert(frame@ =~= start + Seq::new(
                    idx as nat,
                    |i: int| Glyph {
                        pos: ((pos.0 + i * gsize) as i32, pos.1),
                        ch: spec_to_cp437(str@[i]) as usize,
                        fg: color,
                        bg: COLOR_BG,
                        gsize,
                    },
                ));
            }
        }
    }

    /// Queues a blank glyph over map cell `map_pos` whose background is
    /// `color` at half opacity (alpha 128).
    pub fn highlight_map_coord(&mut self, frame: &mut Vec<Glyph>, map_pos: XY, color: Color)
        requires
            fits_i32(map_pos.0 - old(self).map_pos.0),
            fits_i32(map_pos.1 - old(self).map_pos.1),
            fits_i32((map_pos.0 - old(self).map_pos.0) * old(self).gsize),
            fits_i32((map_pos.1 - old(self).map_pos.1) * old(self).gsize),
            fits_i32(old(self).pos.0 + (map_pos.0 - old(self).map_pos.0) * old(self).gsize),
            fits_i32(old(self).pos.1 + (map_pos.1 - old(self).map_pos.1) * old(self).gsize),
        ensures
            *final(self) == *old(self),
            final(frame)@.len() == old(frame)@.len() + 1,
            final(frame)@.drop_last() == old(frame)@,
            ({
                let g = final(frame)@.last();
                &&& g.pos.0 == old(self).pos.0 + (map_pos.0 - old(self).map_pos.0) * old(self).gsize
                &&& g.pos.1 == old(self).pos.1 + (map_pos.1 - old(self).map_pos.1) * old(self).gsize
                &&& g.ch == 32
                &&& g.fg == COLOR_BG
                &&& g.bg[0] == color[0] && g.bg[1] == color[1] && g.bg[2] == color[2]
                &&& g.bg[3] == 128
                &&& g.gsize == old(self).gsize
            }),
            final(frame)@.last() == highlight_glyph(*old(self), map_pos, color),
    {
        let ghost old_color = color;
        let mut color = color;
        color[3] = 128;
        let pos = (
            self.pos.0 + (map_pos.0 - self.map_pos.0) * self.gsize,
            self.pos.1 + (map_pos.1 - self.map_pos.1) * self.gsize,
        );
        let glyph = Glyph { pos, ch: to_cp437(' '), fg: COLOR_BG, bg: color, gsize: self.gsize };
        proof {
            assert(glyph.bg@ =~= half_transparent(old_color)@);
            assert(glyph.bg == half_transparent(old_color));
            assert(glyph == highlight_glyph(*old(self), map_pos, old_color));
        }
        self.print_cp437(frame, glyph);
        proof {
            assert(frame@.drop_last() =~= old(frame)@);
        }
    }

    /// Queues a box of `size` pixels at `pos` in glyphs of `gsize` pixels:
    /// double-line corners and edges, blank inside, and `title` written
    /// into the top edge from its second glyph on. Glyphs come column by
    /// column, each column from top to bottom (see `spec_box_glyphs`).
    pub fn draw_box(
        &self,
        frame: &mut Vec<Glyph>,
        pos: XY,
        size: XY,
        fg: Color,
        bg: Color,
        gsize: i32,
        title: String,
    )
        requires
            gsize > 0,
            box_fits(pos, size, gsize, title@.len() as int),
        ensures
            final(frame)@ == old(frame)@ + spec_box_glyphs(
                pos,
                size,
                fg,
                bg,
                gsize,
                title@.map_values(|c: char| spec_to_cp437(c) as usize),
                box_steps(size.0 as int, gsize as int),
            ),
    {
        let codes_vec = string_to_cp437(title.as_str());
        let ghost codes = codes_vec@;
        proof {
            assert(codes =~= title@.map_values(|c: char| spec_to_cp437(c) as usize));
        }
        let ghost start = frame@;
        let g = gsize as i64;
        let x0 = pos.0 as i64;
        let y0 = pos.1 as i64;
        let xend = x0 + size.0 as i64;
        let yend = y0 + size.1 as i64;
        let tlen = codes_vec.len() as i64;
        let mut x = x0;
        let ghost mut i: int = 0;
        while x < xend
            invariant
                g == gsize,
                g > 0,
                x0 == pos.0,
                y0 == pos.1,
                xend == pos.0 + size.0,
                yend == pos.1 + size.1,
                tlen == codes.len(),
                codes_vec@ == codes,
                box_fits(pos, size, gsize, codes.len() as int),
                0 <= i <= box_steps(size.0 as int, gsize as int),
                x == pos.0 + i * gsize,
                frame@ == start + spec_box_glyphs(pos, size, fg, bg, gsize, codes, i),
            decreases box_steps(size.0 as int, gsize as int) - i,
        {
            proof {
                lemma_steps(size.0 as int, gsize as int, i);
            }
            let ghost col_start = frame@;
            let mut y = y0;
            let ghost mut j: int = 0;
            while y < yend
                invariant
                    g == gsize,
                    g > 0,
                    x0 == pos.0,
                    y0 == pos.1,
                    xend == pos.0 + size.0,
                    yend == pos.1 + size.1,
                    tlen == codes.len(),
                    codes_vec@ == codes,
                    box_fits(pos, size, gsize, codes.len() as int),
                    0 <= i < box_steps(size.0 as int, gsize as int),
                    x == pos.0 + i * gsize,
                    x < xend,
                    0 <= j <= box_steps(size.1 as int, gsize as int),
                    y == pos.1 + j * gsize,
                    frame@ == col_start + Seq::new(j as nat, |jj: int| spec_box_glyph(pos, size, fg, bg, gsize, codes, i, jj)),
                    col_start == start + spec_box_glyphs(pos, size, fg, bg, gsize, codes, i),
                decreases box_steps(size.1 as int, gsize as int) - j,
            {
                proof {
                    lemma_steps(size.1 as int, gsize as int, j);
                    lemma_box_cell(pos, size, gsize, codes.len() as int, i, j);
                }
                let firstcolumn = x < x0 + g;
                let lastcolumn = x >= xend - g;
                let firstrow = y < y0 + g;
                let lastrow = y >= yend - g;
                let mut ch: usize = if firstrow && firstcolumn {
                    201
                } else if firstrow && lastcolumn {
                    187
                } else if lastrow && firstcolumn {
                    200
                } else if lastrow && lastcolumn {
                    188
                } else if firstrow || lastrow {
                    205
                } else if firstcolumn || lastcolumn {
                    186
                } else {
                    0
                };
                if y == y0 && x > x0 && x <= x0 + g * tlen {
                    let idx = ((x - x0) / g - 1) as usize;
                    if idx < codes_vec.len() {
                        ch = codes_vec[idx];
                    }
                }
                self.print_cp437(frame, Glyph { pos: (x as i32, y as i32), ch, fg, bg, gsize });
                proof {
                    assert(frame@ =~= col_start + Seq::new((j + 1) as nat, |jj: int| spec_box_glyph(pos, size, fg, bg, gsize, codes, i, jj)));
                    assert((j + 1) * gsize == j * gsize + gsize) by (nonlinear_arith);
                    j = j + 1;
                }
                y = y + g;
            }
            proof {
                lemma_steps(size.1 as int, gsize as int, j);
                assert(j == box_steps(size.1 as int, gsize as int));
                assert(spec_box_glyphs(pos, size, fg, bg, gsize, codes, i + 1) == spec_box_glyphs(pos, size, fg, bg, gsize, codes, i) + Seq::new(j as nat, |jj: int| spec_box_glyph(pos, size, fg, bg, gsize, codes, i, jj)));
                assert((i + 1) * gsize == i * gsize + gsize) by (nonlinear_arith);
                i = i + 1;
            }
            x = x + g;
        }
        proof {
            lemma_steps(size.0 as int, gsize as int, i);
        }
    }

    /// The pixels to blend when drawing `glyph` with its top-left corner at
    /// `dest` into a frame of `frame_size` pixels (`frame_len` bytes).
    ///
    /// The sprite comes from the sheet `sheet_scan` picks for the glyph's
    /// size. A glyph that would reach past the frame's right or bottom edge
    /// is not drawn (no pixels). Otherwise every sprite pixel is paired,
    /// row by row, with the frame pixel under it.
    pub fn blit_glyph(&self, frame_size: XY, frame_len: usize, assets: &Assets, dest: XY, glyph: Glyph) -> (r: Vec<BlitPixel>)
        requires
            assets.cp437@.len() > 0,
            ({
                let sheet = assets.cp437@[sheet_scan(assets.cp437@, glyph.gsize as int, 0, 0)];
                let sprite = sheet.sprites@[glyph.ch as int];
                &&& glyph.ch < sheet.sprites@.len()
                &&& sprite.width <= i32::MAX
                &&& sprite.height <= i32::MAX
                &&& sprite.pixels.len() >= sprite.width * sprite.height * 4
                &&& blit_visible(dest, sprite.width as int, sprite.height as int, frame_size.0 as int, frame_size.1 as int)
                    ==> blit_rows_fit(dest, sprite.width as int, sprite.height as int, frame_size.0 as int, frame_len as int)
            }),
        ensures
            ({
                let sheet = assets.cp437@[sheet_scan(assets.cp437@, glyph.gsize as int, 0, 0)];
                let sprite = sheet.sprites@[glyph.ch as int];
                r@ == if blit_visible(dest, sprite.width as int, sprite.height as int, frame_size.0 as int, frame_size.1 as int) {
                    spec_blit_rows(dest, frame_size.0 as int, sprite.width as int, sprite.pixels@, sprite.height as int)
                } else {
                    Seq::empty()
                }
            }),
            forall|k: int| 0 <= k < r@.len() ==> #[trigger] r@[k].frame_idx + 4 <= frame_len,
    {
        let gsize = glyph.gsize as i64;
        let ghost sheets = assets.cp437@;
        let mut sheet_idx: usize = 0;
        let mut k: usize = 0;
        while k < assets.cp437.len()
            invariant
                sheets == assets.cp437@,
                k <= sheets.len(),
                sheet_idx < sheets.len(),
                gsize == glyph.gsize,
                sheet_scan(sheets, gsize as int, 0, 0) == sheet_scan(sheets, gsize as int, k as int, sheet_idx as int),
            ensures
                sheet_idx < sheets.len(),
                sheet_scan(sheets, gsize as int, 0, 0) == sheet_idx,
            decreases sheets.len() - k,
        {
            let size = assets.cp437[k].glyph_size as i64;
            if gsize == size {
                sheet_idx = k;
            } else if gsize < size {
                break;
            }
            k += 1;
        }
        let sheet = &assets.cp437[sheet_idx];
        let sprite = &sheet.sprites[glyph.ch];
        let w = sprite.width;
        let h = sprite.height;
        let mut r: Vec<BlitPixel> = Vec::new();
        if dest.0 as i64 + w as i64 > frame_size.0 as i64 || dest.1 as i64 + h as i64 > frame_size.1 as i64 {
            return r;
        }
        let fw = frame_size.0;
        proof {
            assert(w * h * 4 <= sprite.pixels.len());
        }
        let mut y: usize = 0;
        while y < h
            invariant
                y <= h,
                w == sprite.width,
                h == sprite.height,
                fw == frame_size.0,
                sprite.pixels.len() >= w * h * 4,
                w <= i32::MAX,
                h <= i32::MAX,
                blit_rows_fit(dest, w as int, h as int, fw as int, frame_len as int),
                r@ == spec_blit_rows(dest, fw as int, w as int, sprite.pixels@, y as int),
                forall|q: int| 0 <= q < r@.len() ==> #[trigger] r@[q].frame_idx + 4 <= frame_len,
            decreases h - y,
        {
            proof {
                assert(blit_row_start(dest, fw as int, y as int) == dest.0 * 4 + dest.1 * fw * 4 + y * fw * 4);
                assert(y * w * 4 + w * 4 <= w * h * 4) by (nonlinear_arith)
                    requires y < h;
            }
            proof {
                assert(w * 4 <= w * h * 4) by (nonlinear_arith)
                    requires y < h;
                assert(y * (w * 4) == y * w * 4) by (nonlinear_arith);
            }
            let wb = w * 4;
            let i = (dest.0 * 4 + dest.1 * fw * 4 + y as i32 * fw * 4) as usize;
            let s = y * wb;
            let ghost before = r@;
            let mut x: usize = 0;
            while x < w
                invariant
                    x <= w,
                    y < h,
                    w == sprite.width,
                    h == sprite.height,
                    wb == w * 4,
                    fw == frame_size.0,
                    i == blit_row_start(dest, fw as int, y as int),
                    i + w * 4 <= frame_len,
                    s == y * w * 4,
                    s + w * 4 <= sprite.pixels.len(),
                    r@ == before + Seq::new(
                        x as nat,
                        |xx: int| BlitPixel {
                            frame_idx: (blit_row_start(dest, fw as int, y as int) + 4 * xx) as usize,
                            sprite_idx: (y * w * 4 + 4 * xx) as usize,
                            background: is_fuchsia(sprite.pixels@, y * w * 4 + 4 * xx),
                        },
                    ),
                    forall|q: int| 0 <= q < r@.len() ==> #[trigger] r@[q].frame_idx + 4 <= frame_len,
                decreases w - x,
            {
                let p = s + 4 * x;
                let background = sprite.pixels[p] == 255 && sprite.pixels[p + 1] == 0
                    && sprite.pixels[p + 2] == 255 && sprite.pixels[p + 3] == 255;
                r.push(BlitPixel { frame_idx: i + 4 * x, sprite_idx: p, background });
                x += 1;
                proof {
                    assert(r@ =~= before + Seq::new(
                        x as nat,
                        |xx: int| BlitPixel {
                            frame_idx: (blit_row_start(dest, fw as int, y as int) + 4 * xx) as usize,
                            sprite_idx: (y * w * 4 + 4 * xx) as usize,
                            background: is_fuchsia(sprite.pixels@, y * w * 4 + 4 * xx),
                        },
                    ));
                }
            }
            y += 1;
        }
        r
    }
}

/// The sheet `blit_glyph` draws a glyph of size `g` from, scanning the
/// sheets from `k` on with `cur` chosen so far: a sheet of exactly size `g`
/// is taken, the scan stops at the first bigger sheet, and the first sheet
/// is the default.
pub open spec fn sheet_scan(sheets: Seq<SpriteSheet>, g: int, k: int, cur: int) -> int
    decreases sheets.len() - k,
{
    if k >= sheets.len() || k < 0 {
        cur
    } else if g == sheets[k].glyph_size {
        sheet_scan(sheets, g, k + 1, k)
    } else if g < sheets[k].glyph_size {
        cur
    } else {
        sheet_scan(sheets, g, k + 1, cur)
    }
}

proof fn lemma_sheet_scan_range(sheets: Seq<SpriteSheet>, g: int, k: int, cur: int)
    requires
        0 <= cur < sheets.len(),
        0 <= k,
    ensures
        0 <= sheet_scan(sheets, g, k, cur) < sheets.len(),
    decreases sheets.len() - k,
{
    if k < sheets.len() {
        lemma_sheet_scan_range(sheets, g, k + 1, if g == sheets[k].glyph_size { k } else { cur });
    }
}

/// The byte offset in a frame `fw` pixels wide of row `y` of a glyph drawn
/// with its top-left corner at `dest`.
pub open spec fn blit_row_start(dest: XY, fw: int, y: int) -> int {
    dest.0 * 4 + dest.1 * fw * 4 + y * fw * 4
}

/// A glyph of `w` by `h` pixels at `dest` lies within a `fw` by `fh` frame.
pub open spec fn blit_visible(dest: XY, w: int, h: int, fw: int, fh: int) -> bool {
    dest.0 + w <= fw && dest.1 + h <= fh
}

/// The arithmetic of `blit_glyph` for rows `0..h` stays within `i32` and
/// each row lies within a frame of `frame_len` bytes.
pub open spec fn blit_rows_fit(dest: XY, w: int, h: int, fw: int, frame_len: int) -> bool {
    &&& fits_i32(dest.0 * 4)
    &&& fits_i32(dest.1 * fw)
    &&& fits_i32(dest.1 * fw * 4)
    &&& fits_i32(dest.0 * 4 + dest.1 * fw * 4)
    &&& forall|y: int|
        0 <= y < h ==> {
            &&& fits_i32(y * fw)
            &&& fits_i32(y * fw * 4)
            &&& fits_i32(#[trigger] blit_row_start(dest, fw, y))
            &&& 0 <= blit_row_start(dest, fw, y)
            &&& blit_row_start(dest, fw, y) + w * 4 <= frame_len
        }
}

/// Sprite pixel at byte offset `s` is the fuchsia background key.
pub open spec fn is_fuchsia(pixels: Seq<u8>, s: int) -> bool {
    pixels[s] == 255 && pixels[s + 1] == 0 && pixels[s + 2] == 255 && pixels[s + 3] == 255
}

/// The pixel pairs of the first `n` rows of a `w`-pixel-wide sprite drawn at `dest`.
pub open spec fn spec_blit_rows(dest: XY, fw: int, w: int, pixels: Seq<u8>, n: int) -> Seq<BlitPixel>
    decreases n,
{
    if n <= 0 {
        Seq::empty()
    } else {
        spec_blit_rows(dest, fw, w, pixels, n - 1) + Seq::new(
            w as nat,
            |x: int| BlitPixel {
                frame_idx: (blit_row_start(dest, fw, n - 1) + 4 * x) as usize,
                sprite_idx: ((n - 1) * w * 4 + 4 * x) as usize,
                background: is_fuchsia(pixels, (n - 1) * w * 4 + 4 * x),
            },
        )
    }
}

/// How many glyphs of `g` pixels a span of `len` pixels takes: the glyph
/// positions `0, g, 2g, ...` below `len`.
pub open spec fn box_steps(len: int, g: int) -> int {
    if len <= 0 {
        0
    } else {
        (len - 1) / g + 1
    }
}

proof fn lemma_steps(len: int, g: int, i: int)
    requires
        g > 0,
        i >= 0,
    ensures
        (i * g < len) == (i < box_steps(len, g)),
        box_steps(len, g) >= 0,
{
    if len <= 0 {
        assert(i * g >= 0) by (nonlinear_arith)
            requires i >= 0, g > 0;
    } else {
        let q = (len - 1) / g;
        let r = (len - 1) % g;
        vstd::arithmetic::div_mod::lemma_fundamental_div_mod(len - 1, g);
        assert(0 <= r < g);
        assert(q >= 0) by {
            vstd::arithmetic::div_mod::lemma_div_pos_is_pos(len - 1, g);
        }
        if i <= q {
            assert(i * g <= q * g) by (nonlinear_arith)
                requires i <= q, g > 0;
            assert(g * q == q * g) by (nonlinear_arith);
        } else {
            assert(i * g >= (q + 1) * g) by (nonlinear_arith)
                requires i >= q + 1, g > 0;
            assert((q + 1) * g == q * g + g) by (nonlinear_arith);
            assert(g * q == q * g) by (nonlinear_arith);
        }
    }
}

/// The arithmetic of `draw_box` stays within `i32`.
pub open spec fn box_fits(pos: XY, size: XY, g: i32, title_len: int) -> bool {
    &&& fits_i32(pos.0 + size.0)
    &&& fits_i32(pos.1 + size.1)
    &&& fits_i32(pos.0 + g)
    &&& fits_i32(pos.1 + g)
    &&& fits_i32(pos.0 + size.0 - g)
    &&& fits_i32(pos.1 + size.1 - g)
    &&& title_len <= i32::MAX
    &&& fits_i32(g * title_len)
    &&& fits_i32(pos.0 + g * title_len)
}

/// The code drawn in box cell `(i, j)` (column `i`, row `j`) of a box of
/// `size` pixels in glyphs of `g` pixels: corners 201, 187, 200, 188 (top
/// left, top right, bottom left, bottom right), horizontal edges 205,
/// vertical edges 186, blank (0) inside; the title's `k`-th code replaces
/// cell `(k + 1, 0)`.
pub open spec fn spec_box_char(size: XY, g: int, title: Seq<usize>, i: int, j: int) -> usize {
    let firstcolumn = i == 0;
    let lastcolumn = i * g >= size.0 - g;
    let firstrow = j == 0;
    let lastrow = j * g >= size.1 - g;
    if firstrow && 1 <= i <= title.len() {
        title[i - 1]
    } else if firstrow && firstcolumn {
        201
    } else if firstrow && lastcolumn {
        187
    } else if lastrow && firstcolumn {
        200
    } else if lastrow && lastcolumn {
        188
    } else if firstrow || lastrow {
        205
    } else if firstcolumn || lastcolumn {
        186
    } else {
        0
    }
}

/// The glyph of box cell `(i, j)`.
pub open spec fn spec_box_glyph(
    pos: XY,
    size: XY,
    fg: Color,
    bg: Color,
    g: i32,
    title: Seq<usize>,
    i: int,
    j: int,
) -> Glyph {
    Glyph {
        pos: ((pos.0 + i * g) as i32, (pos.1 + j * g) as i32),
        ch: spec_box_char(size, g as int, title, i, j),
        fg,
        bg,
        gsize: g,
    }
}

/// The glyphs of the first `n` columns of a box, column by column.
pub open spec fn spec_box_glyphs(
    pos: XY,
    size: XY,
    fg: Color,
    bg: Color,
    g: i32,
    title: Seq<usize>,
    n: int,
) -> Seq<Glyph>
    decreases n,
{
    if n <= 0 {
        Seq::empty()
    } else {
        spec_box_glyphs(pos, size, fg, bg, g, title, n - 1) + Seq::new(
            box_steps(size.1 as int, g as int) as nat,
            |j: int| spec_box_glyph(pos, size, fg, bg, g, title, n - 1, j),
        )
    }
}

proof fn lemma_box_cell(pos: XY, size: XY, g: i32, title_len: int, i: int, j: int)
    requires
        g > 0,
        box_fits(pos, size, g, title_len),
        0 <= i,
        0 <= j,
        i * g < size.0,
        j * g < size.1,
    ensures
        fits_i32(pos.0 + i * g),
        fits_i32(pos.1 + j * g),
        (pos.0 + i * g < pos.0 + g) == (i == 0),
        (pos.1 + j * g < pos.1 + g) == (j == 0),
        (pos.1 + j * g == pos.1) == (j == 0),
        (pos.0 + i * g > pos.0) == (i >= 1),
        (pos.0 + i * g <= pos.0 + g * title_len) == (i <= title_len),
        (pos.0 + i * g - pos.0) / (g as int) == i,
{
    assert(i * g >= 0 && j * g >= 0) by (nonlinear_arith)
        requires i >= 0, j >= 0, g > 0;
    if i >= 1 {
        assert(i * g >= g) by (nonlinear_arith)
            requires i >= 1, g > 0;
    } else {
        assert(i * g == 0);
    }
    if j >= 1 {
        assert(j * g >= g) by (nonlinear_arith)
            requires j >= 1, g > 0;
    } else {
        assert(j * g == 0);
    }
    if i <= title_len {
        assert(i * g <= g * title_len) by (nonlinear_arith)
            requires i <= title_len, g > 0;
    } else {
        assert(i * g > g * title_len) by (nonlinear_arith)
            requires i > title_len, g > 0;
    }
    vstd::arithmetic::div_mod::lemma_div_multiples_vanish(i, g as int);
    assert(g * i == i * g) by (nonlinear_arith);
}

/// Zooming in and then out again restores a glyph size between 1 and
/// `MAX_ZOOM - 1`; zooming never leaves the range `1..=MAX_ZOOM` once inside it.
pub proof fn law_zoom_round_trip(g: int)
    ensures
        1 <= g < MAX_ZOOM ==> ({
            let zin = if g < MAX_ZOOM { g + 1 } else { g };
            let zout = if zin > 1 { zin - 1 } else { zin };
            zout == g
        }),
        1 <= g <= MAX_ZOOM ==> 1 <= (if g < MAX_ZOOM { g + 1 } else { g }) <= MAX_ZOOM,
        1 <= g <= MAX_ZOOM ==> 1 <= (if g > 1 { g - 1 } else { g }) <= MAX_ZOOM,
{
}

/// `s` cut into pieces of `n` characters, the last one shorter if need be;
/// an empty text gives no piece.
pub open spec fn chunks_of(s: Seq<char>, n: int) -> Seq<Seq<char>>
    decreases s.len(),
{
    if n <= 0 || s.len() == 0 {
        Seq::empty()
    } else if s.len() <= n {
        seq![s]
    } else {
        seq![s.take(n)] + chunks_of(s.skip(n), n)
    }
}

/// The lines of the log, newest message first, each message cut into
/// pieces of `n` characters.
pub open spec fn log_lines(messages: Seq<String>, n: int) -> Seq<Seq<char>>
    decreases messages.len(),
{
    if messages.len() == 0 {
        Seq::empty()
    } else {
        chunks_of(messages.last()@, n) + log_lines(messages.drop_last(), n)
    }
}

/// How many text rows fit in a console `h` pixels high in glyphs of `g`
/// pixels, below the top edge of its box and above the bottom one: rows
/// `y >= 1` with `y * g < h - g`.
pub open spec fn log_rows(h: int, g: int) -> int {
    if h - g - 1 < g { 0 } else { (h - g - 1) / g }
}

/// The glyphs `print_string` lays out for `line` at `pos`.
pub open spec fn line_glyphs(line: Seq<char>, pos: XY, color: Color, g: i32) -> Seq<Glyph> {
    Seq::new(line.len(), |i: int| Glyph {
        pos: ((pos.0 + i * g) as i32, pos.1),
        ch: spec_to_cp437(line[i]) as usize,
        fg: color,
        bg: COLOR_BG,
        gsize: g,
    })
}

/// The glyphs of the first `k` log lines, line `j` on text row `j + 1`.
pub open spec fn log_glyphs(lines: Seq<Seq<char>>, k: int, pos: XY, g: i32) -> Seq<Glyph>
    decreases k,
{
    if k <= 0 {
        Seq::empty()
    } else {
        log_glyphs(lines, k - 1, pos, g) + line_glyphs(lines[k - 1], ((pos.0 + g) as i32, (pos.1 + k * g) as i32), COLOR_UI_2, g)
    }
}

/// The log console fits its box and at least three glyphs across.
pub open spec fn log_console_ok(c: Console) -> bool {
    &&& c.gsize > 0
    &&& c.size.0 / c.gsize >= 3
    &&& box_fits(c.pos, c.size, c.gsize, 3)
}

/// The first piece of the text from `start` on is the next `n` characters
/// (or the rest), followed by the pieces after them.
proof fn lemma_chunks_step(s: Seq<char>, start: int, n: int)
    requires
        0 <= start < s.len(),
        n >= 1,
    ensures
        chunks_of(s.skip(start), n) == seq![s.subrange(start, if s.len() - start <= n { s.len() as int } else { start + n })]
            + chunks_of(s.skip(if s.len() - start <= n { s.len() as int } else { start + n }), n),
{
    let t = s.skip(start);
    if s.len() - start <= n {
        assert(t =~= s.subrange(start, s.len() as int));
        assert(s.skip(s.len() as int) =~= Seq::<char>::empty());
        assert(chunks_of(s.skip(s.len() as int), n) =~= Seq::<Seq<char>>::empty());
    } else {
        assert(t.take(n) =~= s.subrange(start, start + n));
        assert(t.skip(n) =~= s.skip(start + n));
    }
}

/// A piece of at most `n` characters printed one glyph in from the left
/// edge stays inside a console `n + 2` glyphs wide.
proof fn lemma_piece_fits(c: Console, n: int, len: int)
    requires
        log_console_ok(c),
        n == c.size.0 / c.gsize - 2,
        0 <= len <= n,
    ensures
        forall|i: int| 0 <= i < len ==> #[trigger] fits_i32(i * c.gsize) && fits_i32(c.pos.0 + c.gsize + i * c.gsize),
{
    let g = c.gsize as int;
    let w = c.size.0 as int;
    let q = w / g;
    vstd::arithmetic::div_mod::lemma_fundamental_div_mod(w, g);
    assert(q * g <= w) by (nonlinear_arith) requires w == g * q + w % g, w % g >= 0, g > 0;
    assert forall|i: int| 0 <= i < len implies #[trigger] fits_i32(i * c.gsize) && fits_i32(c.pos.0 + c.gsize + i * c.gsize) by {
        assert(0 <= i * g <= (q - 3) * g) by (nonlinear_arith) requires 0 <= i <= q - 3, g > 0;
        assert((q - 3) * g == q * g - 3 * g) by (nonlinear_arith);
    }
}

/// Text row `y` (from 1) lies above the bottom edge exactly when it is one
/// of the `log_rows` rows.
proof fn lemma_log_rows(h: int, g: int, y: int)
    requires
        g > 0,
        y >= 1,
    ensures
        (y * g < h - g) == (y <= log_rows(h, g)),
{
    let r = h - g - 1;
    if r < g {
        assert(y * g >= g) by (nonlinear_arith) requires y >= 1, g > 0;
    } else {
        let q = r / g;
        vstd::arithmetic::div_mod::lemma_fundamental_div_mod(r, g);
        assert(0 <= r % g < g);
        if y <= q {
            assert(y * g <= q * g) by (nonlinear_arith) requires y <= q, g > 0;
            assert(q * g == g * q) by (nonlinear_arith);
        } else {
            assert(y * g >= (q + 1) * g) by (nonlinear_arith) requires y >= q + 1, g > 0;
            assert((q + 1) * g == g * q + g) by (nonlinear_arith);
        }
    }
}

impl Console {
    /// Draws the log: a box titled "Log", then the messages, newest first,
    /// each cut into lines as wide as the box's inside (two glyphs narrower
    /// than the console), one line per text row from the second row down,
    /// as many as fit above the bottom edge.
    pub fn render_log(&self, frame: &mut Vec<Glyph>, messages: &Vec<String>)
        requires
            log_console_ok(*self),
        ensures
            ({
                let n = self.size.0 / self.gsize - 2;
                let lines = log_lines(messages@, n as int);
                let k = if lines.len() < log_rows(self.size.1 as int, self.gsize as int) {
                    lines.len() as int
                } else {
                    log_rows(self.size.1 as int, self.gsize as int)
                };
                final(frame)@ == old(frame)@ + spec_box_glyphs(
                    self.pos,
                    self.size,
                    COLOR_UI_1,
                    COLOR_BG,
                    self.gsize,
                    "Log"@.map_values(|c: char| spec_to_cp437(c) as usize),
                    box_steps(self.size.0 as int, self.gsize as int),
                ) + log_glyphs(lines, k, self.pos, self.gsize)
            }),
    {
        proof {
            reveal_strlit("Log");
        }
        let title = String::from_str("Log");
        self.draw_box(frame, self.pos, self.size, COLOR_UI_1, COLOR_BG, self.gsize, title);
        let ghost boxed = frame@;
        proof {
            assert(boxed == old(frame)@ + spec_box_glyphs(
                self.pos,
                self.size,
                COLOR_UI_1,
                COLOR_BG,
                self.gsize,
                "Log"@.map_values(|c: char| spec_to_cp437(c) as usize),
                box_steps(self.size.0 as int, self.gsize as int),
            ));
        }
        let g = self.gsize;
        proof {
            let gi = g as int;
            let w = self.size.0 as int;
            vstd::arithmetic::div_mod::lemma_fundamental_div_mod(w, gi);
            assert(gi * (w / gi) >= 3 * gi) by (nonlinear_arith) requires w / gi >= 3, gi > 0;
        }
        let q = div_i32(self.size.0, g);
        let n: usize = (q - 2) as usize;
        let ghost all = log_lines(messages@, n as int);
        let ghost rows = log_rows(self.size.1 as int, g as int);
        let mut y: i32 = 1;
        let mut m: usize = messages.len();
        let ghost mut done: int = 0;
        proof {
            assert(messages@.take(messages@.len() as int) =~= messages@);
            assert(all.skip(0) =~= all);
        }
        while m > 0
            invariant
                log_console_ok(*self),
                g == self.gsize,
                n == self.size.0 / g - 2,
                n >= 1,
                n <= i32::MAX,
                boxed == old(frame)@ + spec_box_glyphs(
                    self.pos,
                    self.size,
                    COLOR_UI_1,
                    COLOR_BG,
                    self.gsize,
                    "Log"@.map_values(|c: char| spec_to_cp437(c) as usize),
                    box_steps(self.size.0 as int, self.gsize as int),
                ),
                m <= messages@.len(),
                all == log_lines(messages@, n as int),
                rows == log_rows(self.size.1 as int, g as int),
                y == done + 1,
                0 <= done <= rows,
                done <= all.len(),
                all.skip(done) == log_lines(messages@.take(m as int), n as int),
                frame@ == boxed + log_glyphs(all, done, self.pos, g),
            decreases m,
        {
            m -= 1;
            proof {
                assert(messages@.take(m + 1).drop_last() =~= messages@.take(m as int));
                assert(messages@.take(m + 1).last() == messages@[m as int]);
            }
            let text = messages[m].as_str();
            let len = text.unicode_len();
            let mut start: usize = 0;
            proof {
                assert(text@.skip(0) =~= text@);
            }
            while start < len
                invariant
                    log_console_ok(*self),
                    g == self.gsize,
                    n == self.size.0 / g - 2,
                    n >= 1,
                    n <= i32::MAX,
                    boxed == old(frame)@ + spec_box_glyphs(
                        self.pos,
                        self.size,
                        COLOR_UI_1,
                        COLOR_BG,
                        self.gsize,
                        "Log"@.map_values(|c: char| spec_to_cp437(c) as usize),
                        box_steps(self.size.0 as int, self.gsize as int),
                    ),
                    all == log_lines(messages@, n as int),
                    rows == log_rows(self.size.1 as int, g as int),
                    start <= len,
                    len == text@.len(),
                    y == done + 1,
                    0 <= done <= rows,
                    done <= all.len(),
                    all.skip(done) == chunks_of(text@.skip(start as int), n as int) + log_lines(messages@.take(m as int), n as int),
                    frame@ == boxed + log_glyphs(all, done, self.pos, g),
                decreases len - start,
            {
                let end = if len - start <= n { len } else { start + n };
                proof {
                    lemma_chunks_step(text@, start as int, n as int);
                    assert(all.skip(done).len() >= 1);
                    assert(all.skip(done)[0] == text@.subrange(start as int, end as int));
                    assert(all[done] == all.skip(done)[0]);
                    assert(i32::MIN * 0x8000_0000int <= y * g <= 0x8000_0000int * 0x8000_0000int) by (nonlinear_arith)
                        requires i32::MIN <= y <= i32::MAX, 0 < g <= i32::MAX;
                }
                if (y as i64) * (g as i64) < self.size.1 as i64 - g as i64 {
                    let piece = text.substring_char(start, end);
                    proof {
                        lemma_piece_fits(*self, n as int, piece@.len() as int);
                        lemma_log_rows(self.size.1 as int, g as int, done + 1);
                        assert(end - start <= n);
                        assert(piece@.len() == end - start);
                        assert(piece@.len() <= i32::MAX);
                        assert(0 < y * g < self.size.1 - g) by (nonlinear_arith) requires y >= 1, g > 0, y * g < self.size.1 - g;
                    }
                    let ghost before = frame@;
                    self.print_string(frame, piece, (self.pos.0 + g, self.pos.1 + y * g), COLOR_UI_2, g);
                    proof {
                        assert(frame@ =~= boxed + log_glyphs(all, done + 1, self.pos, g));
                        assert(all.skip(done + 1) =~= all.skip(done).drop_first());
                        done = done + 1;
                    }
                    y += 1;
                    start = end;
                } else {
                    proof {
                        lemma_log_rows(self.size.1 as int, g as int, done + 1);
                        assert(all.len() > done);
                        assert(done == rows);
                    }
                    return;
                }
            }
            proof {
                assert(text@.skip(len as int) =~= Seq::<char>::empty());
            }
        }
        proof {
            assert(messages@.take(0) =~= Seq::<String>::empty());
            assert(done == all.len());
        }
    }
}

/// `color` at half opacity.
pub open spec fn half_transparent(color: Color) -> Color {
    [color[0], color[1], color[2], 128u8]
}

/// The glyph that highlights map cell `map_pos` on console `c` in `color`.
pub open spec fn highlight_glyph(c: Console, map_pos: XY, color: Color) -> Glyph {
    Glyph {
        pos: (
            (c.pos.0 + (map_pos.0 - c.map_pos.0) * c.gsize) as i32,
            (c.pos.1 + (map_pos.1 - c.map_pos.1) * c.gsize) as i32,
        ),
        ch: 32,
        fg: COLOR_BG,
        bg: half_transparent(color),
        gsize: c.gsize,
    }
}

/// Map cell `map_pos` can be highlighted on console `c` without overflow.
pub open spec fn highlight_fits(c: Console, map_pos: XY) -> bool {
    &&& fits_i32(map_pos.0 - c.map_pos.0)
    &&& fits_i32(map_pos.1 - c.map_pos.1)
    &&& fits_i32((map_pos.0 - c.map_pos.0) * c.gsize)
    &&& fits_i32((map_pos.1 - c.map_pos.1) * c.gsize)
    &&& fits_i32(c.pos.0 + (map_pos.0 - c.map_pos.0) * c.gsize)
    &&& fits_i32(c.pos.1 + (map_pos.1 - c.map_pos.1) * c.gsize)
}

/// Cell `p` is within `range` of the player at `player`: its straight-line
/// distance, rounded down, is at most `range`.
pub open spec fn in_throw_range(p: Point, player: Point, range: int) -> bool {
    let dx = p.x - player.x;
    let dy = p.y - player.y;
    range >= 0 && dx * dx + dy * dy < (range + 1) * (range + 1)
}

/// The visible cells within range, in order.
pub open spec fn cells_in_range(vis: Seq<Point>, player: Point, range: int) -> Seq<Point>
    decreases vis.len(),
{
    if vis.len() == 0 {
        Seq::empty()
    } else {
        cells_in_range(vis.drop_last(), player, range) + if in_throw_range(vis.last(), player, range) {
            seq![vis.last()]
        } else {
            Seq::empty()
        }
    }
}

/// The highlights of the cells in range: the current target brighter.
pub open spec fn range_highlights(c: Console, cells: Seq<Point>, target: XY) -> Seq<Glyph> {
    Seq::new(cells.len(), |i: int| highlight_glyph(
        c,
        (cells[i].x, cells[i].y),
        if (cells[i].x, cells[i].y) == target { COLOR_HIGHLIGHT2 } else { COLOR_HIGHLIGHT1 },
    ))
}

/// The answer of the targeting overlay: no answer without the player's
/// sight; a cell in range under the mouse is selected on a click and
/// becomes the new target otherwise; a click elsewhere cancels.
pub open spec fn spec_ranged_answer(
    cells: Option<Seq<Point>>,
    mouse: XY,
    clicked: bool,
) -> (RangedTargetResult, Option<Point>) {
    match cells {
        None => (RangedTargetResult::Cancel, None),
        Some(cs) => if cs.contains(Point { x: mouse.0, y: mouse.1 }) {
            if clicked {
                (RangedTargetResult::Selected, Some(Point { x: mouse.0, y: mouse.1 }))
            } else {
                (RangedTargetResult::NewTarget { target: mouse }, None)
            }
        } else if clicked {
            (RangedTargetResult::Cancel, None)
        } else {
            (RangedTargetResult::NoResponse, None)
        },
    }
}

/// The glyphs of the targeting overlay on console `c`: the box and its
/// text, then (with the player's sight `visible`) the highlights of the
/// cells in range and of the cell under the mouse when it is one of them.
pub open spec fn overlay_glyphs(
    c: Console,
    visible: Option<Seq<Point>>,
    player_pos: Point,
    range: int,
    mouse: XY,
    target: XY,
) -> Seq<Glyph> {
    let head = spec_box_glyphs(c.pos, ((20 * c.gsize) as i32, (3 * c.gsize) as i32), COLOR_UI_2, COLOR_BG,
        c.gsize, Seq::empty(), box_steps(20 * c.gsize, c.gsize as int))
        + line_glyphs("Select a target"@, ((c.pos.0 + c.gsize) as i32, (c.pos.1 + c.gsize) as i32), COLOR_UI_1, c.gsize);
    match visible {
        None => head,
        Some(v) => {
            let cells = cells_in_range(v, player_pos, range);
            head + range_highlights(c, cells, target) + if cells.contains(Point { x: mouse.0, y: mouse.1 }) {
                seq![highlight_glyph(c, mouse, COLOR_HIGHLIGHT2)]
            } else {
                Seq::empty()
            }
        },
    }
}

/// The targeting overlay fits the console.
pub open spec fn overlay_fits(c: Console) -> bool {
    &&& c.gsize > 0
    &&& fits_i32(20 * c.gsize)
    &&& fits_i32(3 * c.gsize)
    &&& box_fits(c.pos, ((20 * c.gsize) as i32, (3 * c.gsize) as i32), c.gsize, 0)
    &&& forall|i: int| 0 <= i < 15 ==> #[trigger] fits_i32(i * c.gsize) && fits_i32(c.pos.0 + c.gsize + i * c.gsize)
    &&& fits_i32(c.pos.1 + c.gsize)
}

/// Whether cell `p` is within `range` of `player` (compared through squares).
fn within_throw(p: Point, player: Point, range: i32) -> (r: bool)
    ensures
        r == in_throw_range(p, player, range as int),
{
    if range < 0 {
        return false;
    }
    let dx: i128 = p.x as i128 - player.x as i128;
    let dy: i128 = p.y as i128 - player.y as i128;
    let r1: i128 = range as i128 + 1;
    proof {
        assert(0 <= dx * dx <= 0x4_0000_0000_0000_0000int) by (nonlinear_arith)
            requires -0x1_0000_0000 <= dx <= 0x1_0000_0000;
        assert(0 <= dy * dy <= 0x4_0000_0000_0000_0000int) by (nonlinear_arith)
            requires -0x1_0000_0000 <= dy <= 0x1_0000_0000;
        assert(0 <= r1 * r1 <= 0x4_0000_0000_0000_0000int) by (nonlinear_arith)
            requires 0 < r1 <= 0x1_0000_0000;
    }
    dx * dx + dy * dy < r1 * r1
}

impl Console {
    /// The targeting overlay: a box with "Select a target", every cell the
    /// player sees (`visible`, or `None` when the player has no sight) that
    /// lies within `range` highlighted (the current `target` brighter), and
    /// the cell under the mouse highlighted when it is one of them. Returns
    /// the answer of `spec_ranged_answer`; without sight, only the box and
    /// text are drawn.
    pub fn ranged_target(
        &mut self,
        frame: &mut Vec<Glyph>,
        player_pos: Point,
        visible: Option<&Vec<Point>>,
        map_mouse_pos: XY,
        range: i32,
        clicked: bool,
        target: XY,
    ) -> (r: (RangedTargetResult, Option<Point>))
        requires
            overlay_fits(*old(self)),
            highlight_fits(*old(self), map_mouse_pos),
            visible matches Some(v) ==> forall|i: int| 0 <= i < v@.len() ==> #[trigger] highlight_fits(*old(self), (v@[i].x, v@[i].y)),
        ensures
            *final(self) == *old(self),
            r == spec_ranged_answer(
                match visible { Some(v) => Some(cells_in_range(v@, player_pos, range as int)), None => None },
                map_mouse_pos,
                clicked,
            ),
            final(frame)@ == old(frame)@ + overlay_glyphs(
                *old(self),
                match visible { Some(v) => Some(v@), None => None },
                player_pos,
                range as int,
                map_mouse_pos,
                target,
            ),
    {
        let g = self.gsize;
        let ghost c = *self;
        proof {
            reveal_strlit("");
            reveal_strlit("Select a target");
        }
        self.draw_box(frame, self.pos, (20 * g, 3 * g), COLOR_UI_2, COLOR_BG, g, String::from_str(""));
        proof {
            assert(""@.map_values(|ch: char| spec_to_cp437(ch) as usize) =~= Seq::<usize>::empty());
        }
        self.print_string(frame, "Select a target", (self.pos.0 + g, self.pos.1 + g), COLOR_UI_1, g);
        let ghost head = frame@;
        proof {
            assert(head =~= old(frame)@ + spec_box_glyphs(c.pos, ((20 * c.gsize) as i32, (3 * c.gsize) as i32), COLOR_UI_2, COLOR_BG,
                c.gsize, Seq::empty(), box_steps(20 * c.gsize, c.gsize as int))
                + line_glyphs("Select a target"@, ((c.pos.0 + c.gsize) as i32, (c.pos.1 + c.gsize) as i32), COLOR_UI_1, c.gsize));
        }
        let vis = match visible {
            None => { return (RangedTargetResult::Cancel, None); },
            Some(v) => v,
        };
        let mut valid: Vec<Point> = Vec::new();
        let mut i: usize = 0;
        while i < vis.len()
            invariant
                *self == c,
                i <= vis@.len(),
                forall|k: int| 0 <= k < vis@.len() ==> #[trigger] highlight_fits(c, (vis@[k].x, vis@[k].y)),
                valid@ == cells_in_range(vis@.subrange(0, i as int), player_pos, range as int),
                frame@ == head + range_highlights(c, valid@, target),
            decreases vis@.len() - i,
        {
            proof {
                assert(vis@.subrange(0, i + 1).drop_last() =~= vis@.subrange(0, i as int));
            }
            let pt = vis[i];
            if within_throw(pt, player_pos, range) {
                let color = if pt.x == target.0 && pt.y == target.1 { COLOR_HIGHLIGHT2 } else { COLOR_HIGHLIGHT1 };
                assert(highlight_fits(c, (vis@[i as int].x, vis@[i as int].y)));
                let ghost before = frame@;
                let ghost old_valid = valid@;
                valid.push(pt);
                self.highlight_map_coord(frame, pt.to_xy(), color);
                proof {
                    let hg = highlight_glyph(c, (pt.x, pt.y), color);
                    assert(frame@ =~= before.push(hg));
                    assert(range_highlights(c, valid@, target) =~= range_highlights(c, old_valid, target).push(hg));
                    assert(frame@ =~= head + range_highlights(c, valid@, target));
                }
            }
            i += 1;
        }
        proof {
            assert(vis@.subrange(0, vis@.len() as int) =~= vis@);
        }
        let mut found = false;
        let mut k: usize = 0;
        while k < valid.len()
            invariant
                k <= valid@.len(),
                !found ==> forall|j: int| 0 <= j < k ==> valid@[j] != (Point { x: map_mouse_pos.0, y: map_mouse_pos.1 }),
                found ==> valid@.contains((Point { x: map_mouse_pos.0, y: map_mouse_pos.1 })),
            decreases valid@.len() - k,
        {
            if valid[k].x == map_mouse_pos.0 && valid[k].y == map_mouse_pos.1 {
                found = true;
                assert(valid@[k as int] == (Point { x: map_mouse_pos.0, y: map_mouse_pos.1 }));
            }
            k += 1;
        }
        let ghost marked = frame@;
        if found {
            self.highlight_map_coord(frame, map_mouse_pos, COLOR_HIGHLIGHT2);
            proof {
                assert(frame@ =~= marked.push(highlight_glyph(c, map_mouse_pos, COLOR_HIGHLIGHT2)));
            }
            if clicked {
                (RangedTargetResult::Selected, Some(Point::new(map_mouse_pos.0, map_mouse_pos.1)))
            } else {
                (RangedTargetResult::NewTarget { target: map_mouse_pos }, None)
            }
        } else {
            proof {
                assert(!valid@.contains((Point { x: map_mouse_pos.0, y: map_mouse_pos.1 })));
                assert(frame@ =~= marked + Seq::<Glyph>::empty());
            }
            if clicked {
                (RangedTargetResult::Cancel, None)
            } else {
                (RangedTargetResult::NoResponse, None)
            }
        }
    }
}

} // verus!
