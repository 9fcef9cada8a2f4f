//! The screen: the consoles that tile it, the map view's zoom and panning,
//! and the conversions between screen pixels and map cells.

use vstd::prelude::*;
use crate::console::{Console, ConsoleMode, Glyph, MAX_ZOOM, spec_fit_zoom, overlay_fits, highlight_fits, overlay_glyphs, spec_ranged_answer, cells_in_range};
use crate::utils::Point;
use crate::map::TileMap;
use crate::utils::{XY, fits_i32, div_i32, div_trunc, lemma_div_trunc_multiple};

verus! {

/// The glyph size consoles start with.
pub const DEFAULT_UI_GLYPH_SIZE: i32 = 12;

/// The whole window: its size, its consoles, and where the mouse is.
pub struct Screen {
    pub size: XY,
    pub input_blocking: bool,
    pub consoles: Vec<Console>,
    pub mouse_pos: XY,
}

/// An answer of the targeting overlay.
#[derive(PartialEq, Eq, Copy, Clone, Debug)]
pub enum RangedTargetResult {
    Cancel,
    NoResponse,
    NewTarget { target: XY },
    Selected,
}

/// An image: its pixels row by row, and its width and height.
pub struct Image(pub Vec<[u8; 4]>, pub XY);

/// `b` is `a` with only its glyph size changed.
pub open spec fn same_but_zoom(a: Console, b: Console) -> bool {
    &&& b.size == a.size
    &&& b.pos == a.pos
    &&& b.mode == a.mode
    &&& b.map_pos == a.map_pos
    &&& b.hidden == a.hidden
    &&& b.z == a.z
    &&& b.children@ == a.children@
}

/// The glyph size after one step of zooming in.
pub open spec fn zoomed_in(g: int) -> int {
    if g < MAX_ZOOM {
        g + 1
    } else {
        g
    }
}

/// The glyph size after one step of zooming out.
pub open spec fn zoomed_out(g: int) -> int {
    if g > 1 {
        g - 1
    } else {
        g
    }
}

/// The glyph size after `n` steps of zooming out.
pub open spec fn zoomed_out_times(g: int, n: nat) -> int
    decreases n,
{
    if n == 0 {
        g
    } else {
        zoomed_out(zoomed_out_times(g, (n - 1) as nat))
    }
}

/// The index of the first map console, if there is one.
pub open spec fn first_world_map(cs: Seq<Console>) -> Option<int>
    decreases cs.len(),
{
    if cs.len() == 0 {
        None
    } else {
        match first_world_map(cs.drop_last()) {
            Some(i) => Some(i),
            None => if cs.last().mode == ConsoleMode::WorldMap {
                Some(cs.len() - 1)
            } else {
                None
            },
        }
    }
}

/// Where `setup_consoles` puts each console: the info panel, the context
/// panel below it, the log to its right, the world map, the main menu, the
/// inventory and the item information, all with glyphs of `g` pixels.
pub open spec fn spec_layout(size: XY, g: int) -> Seq<(XY, XY, ConsoleMode)> {
    let winfo = 30 * g - 4;
    let hinfo = 10 * g;
    seq![
        ((winfo as i32, hinfo as i32), (0i32, 0i32), ConsoleMode::Info),
        ((winfo as i32, (size.1 - (hinfo + 1) - g) as i32), (0i32, (hinfo + 1) as i32), ConsoleMode::Context),
        (((size.0 - (winfo + 1) - g) as i32, hinfo as i32), ((winfo + 1) as i32, 0i32), ConsoleMode::Log),
        (((size.0 - (winfo + 1)) as i32, (size.1 - (hinfo + 1)) as i32), ((winfo + 1) as i32, (hinfo + 1) as i32), ConsoleMode::WorldMap),
        (((g * 30) as i32, (g * 20) as i32), ((div_trunc(size.0 as int, 2) - div_trunc(g * 30, 2)) as i32, (div_trunc(size.1 as int, 2) - div_trunc(g * 20, 2)) as i32), ConsoleMode::MainMenu),
        (((g * 30) as i32, (g * 40) as i32), ((size.0 - g * 30 - g) as i32, hinfo as i32), ConsoleMode::Inventory),
        (((g * 30) as i32, (g * 10) as i32), ((div_trunc(size.0 as int, 2) - div_trunc(g * 30, 2)) as i32, hinfo as i32), ConsoleMode::ItemInfo),
    ]
}

impl Screen {
    /// A screen of `size` pixels with no consoles and the mouse at the origin.
    pub fn new(size: XY) -> (r: Self)
        ensures
            r.size == size,
            !r.input_blocking,
            r.consoles@.len() == 0,
            r.mouse_pos == (0i32, 0i32),
    {
        Self { size, input_blocking: false, consoles: Vec::new(), mouse_pos: (0, 0) }
    }

    /// Adds the seven consoles of the game's layout (`spec_layout`), each
    /// new, with glyphs of `DEFAULT_UI_GLYPH_SIZE` pixels.
    pub fn setup_consoles(&mut self)
        requires
            old(self).size.0 >= i32::MIN + 373,
            old(self).size.1 >= i32::MIN + 133,
        ensures
            final(self).size == old(self).size,
            final(self).mouse_pos == old(self).mouse_pos,
            final(self).input_blocking == old(self).input_blocking,
            final(self).consoles@.len() == old(self).consoles@.len() + 7,
            forall|k: int| 0 <= k < old(self).consoles@.len() ==> #[trigger] final(self).consoles@[k] == old(self).consoles@[k],
            forall|k: int|
                0 <= k < 7 ==> {
                    let c = #[trigger] final(self).consoles@[old(self).consoles@.len() + k];
                    let l = spec_layout(old(self).size, DEFAULT_UI_GLYPH_SIZE as int)[k];
                    &&& c.size == l.0
                    &&& c.pos == l.1
                    &&& c.mode == l.2
                    &&& c.gsize == DEFAULT_UI_GLYPH_SIZE
                    &&& c.children@.len() == 0
                    &&& !c.hidden
                    &&& c.z == 1
                    &&& c.map_pos == (0i32, 0i32)
                },
    {
        let gsize = DEFAULT_UI_GLYPH_SIZE;
        let ghost n = self.consoles@.len();
        let ghost l = spec_layout(self.size, gsize as int);

        // info console
        let xinfo: i32 = 0;
        let yinfo: i32 = 0;
        let winfo: i32 = 30 * gsize - 4;
        let hinfo: i32 = 10 * gsize;
        self.consoles.push(Console::new((winfo, hinfo), (xinfo, yinfo), ConsoleMode::Info, gsize));

        // context console
        let xcontext: i32 = 0;
        let ycontext: i32 = hinfo + 1;
        let wcontext: i32 = winfo;
        let hcontext: i32 = self.size.1 - ycontext - gsize;
        self.consoles.push(Console::new((wcontext, hcontext), (xcontext, ycontext), ConsoleMode::Context, gsize));

        // log console
        let xlog: i32 = winfo + 1;
        let ylog: i32 = 0;
        let wlog: i32 = self.size.0 - xlog - gsize;
        let hlog: i32 = hinfo;
        self.consoles.push(Console::new((wlog, hlog), (xlog, ylog), ConsoleMode::Log, gsize));

        // world console
        let xworld: i32 = winfo + 1;
        let yworld: i32 = hinfo + 1;
        let wworld: i32 = self.size.0 - xworld;
        let hworld: i32 = self.size.1 - yworld;
        self.consoles.push(Console::new((wworld, hworld), (xworld, yworld), ConsoleMode::WorldMap, gsize));

        // menu console
        let wmenu: i32 = gsize * 30;
        let hmenu: i32 = gsize * 20;
        let xmenu: i32 = div_i32(self.size.0, 2) - div_i32(wmenu, 2);
        let ymenu: i32 = div_i32(self.size.1, 2) - div_i32(hmenu, 2);
        self.consoles.push(Console::new((wmenu, hmenu), (xmenu, ymenu), ConsoleMode::MainMenu, gsize));

        // inventory console
        let wmenu: i32 = gsize * 30;
        let hmenu: i32 = gsize * 40;
        let xmenu: i32 = self.size.0 - wmenu - gsize;
        let ymenu: i32 = hinfo;
        self.consoles.push(Console::new((wmenu, hmenu), (xmenu, ymenu), ConsoleMode::Inventory, gsize));

        // item info console
        let wmenu: i32 = gsize * 30;
        let hmenu: i32 = gsize * 10;
        let xmenu: i32 = div_i32(self.size.0, 2) - div_i32(wmenu, 2);
        let ymenu: i32 = hinfo;
        self.consoles.push(Console::new((wmenu, hmenu), (xmenu, ymenu), ConsoleMode::ItemInfo, gsize));
    }

    /// Resets the view of every map console: zoomed out `MAX_ZOOM` times and
    /// scrolled back to the map's origin. Other consoles are untouched.
    pub fn reset(&mut self)
        ensures
            final(self).size == old(self).size,
            final(self).mouse_pos == old(self).mouse_pos,
            final(self).input_blocking == old(self).input_blocking,
            final(self).consoles@.len() == old(self).consoles@.len(),
            forall|k: int|
                0 <= k < old(self).consoles@.len() ==> {
                    let a = old(self).consoles@[k];
                    let b = #[trigger] final(self).consoles@[k];
                    if a.mode == ConsoleMode::WorldMap {
                        &&& b.gsize == zoomed_out_times(a.gsize as int, MAX_ZOOM as nat)
                        &&& b.map_pos == (0i32, 0i32)
                        &&& b.size == a.size
                        &&& b.pos == a.pos
                        &&& b.mode == a.mode
                        &&& b.hidden == a.hidden
                        &&& b.z == a.z
                        &&& b.children@ == a.children@
                    } else {
                        b == a
                    }
                },
    {
        let n = self.consoles.len();
        let mut i: usize = 0;
        while i < n
            invariant
                n == self.consoles@.len(),
                n == old(self).consoles@.len(),
                i <= n,
                self.size == old(self).size,
                self.mouse_pos == old(self).mouse_pos,
                self.input_blocking == old(self).input_blocking,
                forall|k: int|
                    0 <= k < i ==> {
                        let a = old(self).consoles@[k];
                        let b = #[trigger] self.consoles@[k];
                        if a.mode == ConsoleMode::WorldMap {
                            &&& b.gsize == zoomed_out_times(a.gsize as int, MAX_ZOOM as nat)
                            &&& b.map_pos == (0i32, 0i32)
                            &&& b.size == a.size
                            &&& b.pos == a.pos
                            &&& b.mode == a.mode
                            &&& b.hidden == a.hidden
                            &&& b.z == a.z
                            &&& b.children@ == a.children@
                        } else {
                            b == a
                        }
                    },
                forall|k: int| i <= k < n ==> #[trigger] self.consoles@[k] == old(self).consoles@[k],
            decreases n - i,
        {
            if self.consoles[i].mode == ConsoleMode::WorldMap {
                self.consoles[i].reset_view();
            }
            i += 1;
        }
    }

    /// Zooms every map console to the largest glyph size that fits `map`.
    pub fn autozoom_world_map(&mut self, map: &TileMap)
        ensures
            final(self).size == old(self).size,
            final(self).mouse_pos == old(self).mouse_pos,
            final(self).input_blocking == old(self).input_blocking,
            only_world_maps_change(
                old(self).consoles@,
                final(self).consoles@,
                (ViewChange::Fit { w: map.size.0, h: map.size.1 }),
            ),
    {
        let ghost f = ViewChange::Fit { w: map.size.0, h: map.size.1 };
        let n = self.consoles.len();
        let mut i: usize = 0;
        while i < n
            invariant
                n == self.consoles@.len(),
                n == old(self).consoles@.len(),
                i <= n,
                self.size == old(self).size,
                self.mouse_pos == old(self).mouse_pos,
                self.input_blocking == old(self).input_blocking,
                f == (ViewChange::Fit { w: map.size.0, h: map.size.1 }),
                changed_prefix(old(self).consoles@, self.consoles@, f, i as int),
            decreases n - i,
        {
            let ghost before = self.consoles@;
            proof {
                assert(before[i as int] == old(self).consoles@[i as int]);
            }
            if self.consoles[i].mode == ConsoleMode::WorldMap {
                self.consoles[i].zoom_to_fit(map);
            }
            proof {
                lemma_extend_prefix(old(self).consoles@, before, self.consoles@, f, i as int);
            }
            i += 1;
        }
    }

    /// The first map console, if there is one.
    pub fn get_map_console(&self) -> (r: Option<&Console>)
        ensures
            match first_world_map(self.consoles@) {
                Some(i) => r == Some(&self.consoles@[i]),
                None => r is None,
            },
    {
        let mut i: usize = 0;
        while i < self.consoles.len()
            invariant
                i <= self.consoles@.len(),
                forall|k: int| 0 <= k < i ==> #[trigger] self.consoles@[k].mode != ConsoleMode::WorldMap,
            decreases self.consoles@.len() - i,
        {
            if self.consoles[i].mode == ConsoleMode::WorldMap {
                proof {
                    lemma_first_world_map_at(self.consoles@, i as int);
                }
                return Some(&self.consoles[i]);
            }
            i += 1;
        }
        proof {
            lemma_no_world_map(self.consoles@);
        }
        None
    }

    /// Zooms every map console in by one step.
    pub fn increment_zoom(&mut self)
        ensures
            final(self).size == old(self).size,
            final(self).mouse_pos == old(self).mouse_pos,
            final(self).input_blocking == old(self).input_blocking,
            only_world_maps_change(
                old(self).consoles@,
                final(self).consoles@,
                ViewChange::ZoomIn,
            ),
    {
        let ghost f = ViewChange::ZoomIn;
        let n = self.consoles.len();
        let mut i: usize = 0;
        while i < n
            invariant
                n == self.consoles@.len(),
                n == old(self).consoles@.len(),
                i <= n,
                self.size == old(self).size,
                self.mouse_pos == old(self).mouse_pos,
                self.input_blocking == old(self).input_blocking,
                f == ViewChange::ZoomIn,
                changed_prefix(old(self).consoles@, self.consoles@, f, i as int),
            decreases n - i,
        {
            let ghost before = self.consoles@;
            proof {
                assert(before[i as int] == old(self).consoles@[i as int]);
            }
            if self.consoles[i].mode == ConsoleMode::WorldMap {
                self.consoles[i].zoom_in();
            }
            proof {
                lemma_extend_prefix(old(self).consoles@, before, self.consoles@, f, i as int);
            }
            i += 1;
        }
    }

    /// Zooms every map console out by one step.
    pub fn decrement_zoom(&mut self)
        ensures
            final(self).size == old(self).size,
            final(self).mouse_pos == old(self).mouse_pos,
            final(self).input_blocking == old(self).input_blocking,
            only_world_maps_change(
                old(self).consoles@,
                final(self).consoles@,
                ViewChange::ZoomOut,
            ),
    {
        let ghost f = ViewChange::ZoomOut;
        let n = self.consoles.len();
        let mut i: usize = 0;
        while i < n
            invariant
                n == self.consoles@.len(),
                n == old(self).consoles@.len(),
                i <= n,
                self.size == old(self).size,
                self.mouse_pos == old(self).mouse_pos,
                self.input_blocking == old(self).input_blocking,
                f == ViewChange::ZoomOut,
                changed_prefix(old(self).consoles@, self.consoles@, f, i as int),
            decreases n - i,
        {
            let ghost before = self.consoles@;
            proof {
                assert(before[i as int] == old(self).consoles@[i as int]);
            }
            if self.consoles[i].mode == ConsoleMode::WorldMap {
                self.consoles[i].zoom_out();
            }
            proof {
                lemma_extend_prefix(old(self).consoles@, before, self.consoles@, f, i as int);
            }
            i += 1;
        }
    }

    /// Scrolls the view of the second console by `offset` cells, never past
    /// the map's top or left edge.
    pub fn pan_map(&mut self, offset: XY)
        requires
            old(self).consoles@.len() > 1,
            fits_i32(old(self).consoles@[1].map_pos.0 + offset.0),
            fits_i32(old(self).consoles@[1].map_pos.1 + offset.1),
        ensures
            final(self).size == old(self).size,
            final(self).mouse_pos == old(self).mouse_pos,
            final(self).input_blocking == old(self).input_blocking,
            final(self).consoles@.len() == old(self).consoles@.len(),
            forall|k: int| 0 <= k < old(self).consoles@.len() && k != 1 ==> #[trigger] final(self).consoles@[k] == old(self).consoles@[k],
            ({
                let a = old(self).consoles@[1];
                let b = final(self).consoles@[1];
                &&& b.map_pos.0 == if a.map_pos.0 + offset.0 > 0 { a.map_pos.0 + offset.0 } else { 0 }
                &&& b.map_pos.1 == if a.map_pos.1 + offset.1 > 0 { a.map_pos.1 + offset.1 } else { 0 }
                &&& b.size == a.size
                &&& b.pos == a.pos
                &&& b.mode == a.mode
                &&& b.hidden == a.hidden
                &&& b.z == a.z
                &&& b.gsize == a.gsize
                &&& b.children@ == a.children@
            }),
    {
        let mp = self.consoles[1].map_pos;
        let x = mp.0 + offset.0;
        let y = mp.1 + offset.1;
        self.consoles[1].map_pos = (if x > 0 { x } else { 0 }, if y > 0 { y } else { 0 });
    }

    /// The targeting overlay on the first map console, for the map cell
    /// under the mouse (see `Console::ranged_target`).
    pub fn ranged_target(
        &mut self,
        frame: &mut Vec<Glyph>,
        player_pos: Point,
        visible: Option<&Vec<Point>>,
        range: i32,
        clicked: bool,
        target: XY,
    ) -> (r: (RangedTargetResult, Option<Point>))
        requires
            old(self).screen_to_map_ok(old(self).mouse_pos),
            first_world_map(old(self).consoles@) matches Some(i) && {
                let c = old(self).consoles@[i];
                &&& overlay_fits(c)
                &&& highlight_fits(c, old(self).spec_screen_pos_to_map(old(self).mouse_pos))
                &&& (visible matches Some(v) ==> forall|k: int| 0 <= k < v@.len() ==> #[trigger] highlight_fits(c, (v@[k].x, v@[k].y)))
            },
        ensures
            final(self).consoles@ == old(self).consoles@,
            final(self).size == old(self).size,
            final(self).mouse_pos == old(self).mouse_pos,
            final(self).input_blocking == old(self).input_blocking,
            r == spec_ranged_answer(
                match visible { Some(v) => Some(cells_in_range(v@, player_pos, range as int)), None => None },
                old(self).spec_screen_pos_to_map(old(self).mouse_pos),
                clicked,
            ),
            first_world_map(old(self).consoles@) matches Some(i) && final(frame)@ == old(frame)@ + overlay_glyphs(
                old(self).consoles@[i],
                match visible { Some(v) => Some(v@), None => None },
                player_pos,
                range as int,
                old(self).spec_screen_pos_to_map(old(self).mouse_pos),
                target,
            ),
    {
        let map_mouse_pos = self.get_mouse_game_pos();
        let ghost cs = self.consoles@;
        let mut i: usize = 0;
        while i < self.consoles.len()
            invariant
                self.consoles@ == cs,
                cs == old(self).consoles@,
                frame@ == old(frame)@,
                self.size == old(self).size,
                self.mouse_pos == old(self).mouse_pos,
                self.input_blocking == old(self).input_blocking,
                map_mouse_pos == old(self).spec_screen_pos_to_map(old(self).mouse_pos),
                i <= cs.len(),
                forall|k: int| 0 <= k < i ==> #[trigger] cs[k].mode != ConsoleMode::WorldMap,
                first_world_map(cs) matches Some(j) && {
                    let c = cs[j];
                    &&& overlay_fits(c)
                    &&& highlight_fits(c, map_mouse_pos)
                    &&& (visible matches Some(v) ==> forall|k: int| 0 <= k < v@.len() ==> #[trigger] highlight_fits(c, (v@[k].x, v@[k].y)))
                },
            decreases cs.len() - i,
        {
            if self.consoles[i].mode == ConsoleMode::WorldMap {
                proof {
                    lemma_first_world_map_at(cs, i as int);
                }
                let mut c = self.consoles.remove(i);
                let r = c.ranged_target(frame, player_pos, visible, map_mouse_pos, range, clicked, target);
                self.consoles.insert(i, c);
                proof {
                    assert(self.consoles@ =~= cs);
                }
                return r;
            }
            i += 1;
        }
        proof {
            lemma_no_world_map(cs);
        }
        (RangedTargetResult::Cancel, None)
    }

    /// The map cell under the mouse.
    pub fn get_mouse_game_pos(&self) -> (r: XY)
        requires
            self.screen_to_map_ok(self.mouse_pos),
        ensures
            r == self.spec_screen_pos_to_map(self.mouse_pos),
    {
        return self.screen_pos_to_map(self.mouse_pos);
    }

    /// The conversion of `screen_pos` to a map cell neither divides by zero
    /// nor overflows.
    pub open spec fn screen_to_map_ok(&self, screen_pos: XY) -> bool {
        match first_world_map(self.consoles@) {
            Some(i) => {
                let c = self.consoles@[i];
                &&& c.gsize > 0
                &&& fits_i32(screen_pos.0 - c.pos.0)
                &&& fits_i32(screen_pos.1 - c.pos.1)
                &&& fits_i32(div_trunc(screen_pos.0 - c.pos.0, c.gsize as int) + c.map_pos.0)
                &&& fits_i32(div_trunc(screen_pos.1 - c.pos.1, c.gsize as int) + c.map_pos.1)
            },
            None => true,
        }
    }

    /// The map cell shown at screen pixel `screen_pos` by the first map
    /// console; `(0, 0)` when there is no map console.
    pub open spec fn spec_screen_pos_to_map(&self, screen_pos: XY) -> XY {
        match first_world_map(self.consoles@) {
            Some(i) => {
                let c = self.consoles@[i];
                (
                    (div_trunc(screen_pos.0 - c.pos.0, c.gsize as int) + c.map_pos.0) as i32,
                    (div_trunc(screen_pos.1 - c.pos.1, c.gsize as int) + c.map_pos.1) as i32,
                )
            },
            None => (0i32, 0i32),
        }
    }

    /// The map cell shown at screen pixel `screen_pos` (see `spec_screen_pos_to_map`).
    pub fn screen_pos_to_map(&self, screen_pos: XY) -> (r: XY)
        requires
            self.screen_to_map_ok(screen_pos),
        ensures
            r == self.spec_screen_pos_to_map(screen_pos),
    {
        if let Some(console) = self.get_map_console() {
            return (
                div_i32(screen_pos.0 - console.pos.0, console.gsize) + console.map_pos.0,
                div_i32(screen_pos.1 - console.pos.1, console.gsize) + console.map_pos.1,
            );
        }
        (0, 0)
    }

    /// The conversion of `map_pos` to a screen pixel does not overflow.
    pub open spec fn map_to_screen_ok(&self, map_pos: XY) -> bool {
        match first_world_map(self.consoles@) {
            Some(i) => {
                let c = self.consoles@[i];
                &&& fits_i32(map_pos.0 - c.map_pos.0)
                &&& fits_i32(map_pos.1 - c.map_pos.1)
                &&& fits_i32((map_pos.0 - c.map_pos.0) * c.gsize)
                &&& fits_i32((map_pos.1 - c.map_pos.1) * c.gsize)
                &&& fits_i32((map_pos.0 - c.map_pos.0) * c.gsize + c.pos.0)
                &&& fits_i32((map_pos.1 - c.map_pos.1) * c.gsize + c.pos.1)
            },
            None => true,
        }
    }

    /// The screen pixel of the top-left corner of map cell `map_pos` in the
    /// first map console; `(0, 0)` when there is no map console.
    pub open spec fn spec_map_pos_to_screen(&self, map_pos: XY) -> XY {
        match first_world_map(self.consoles@) {
            Some(i) => {
                let c = self.consoles@[i];
                (
                    ((map_pos.0 - c.map_pos.0) * c.gsize + c.pos.0) as i32,
                    ((map_pos.1 - c.map_pos.1) * c.gsize + c.pos.1) as i32,
                )
            },
            None => (0i32, 0i32),
        }
    }

    /// The screen pixel of map cell `map_pos` (see `spec_map_pos_to_screen`).
    pub fn map_pos_to_screen(&self, map_pos: XY) -> (r: XY)
        requires
            self.map_to_screen_ok(map_pos),
        ensures
            r == self.spec_map_pos_to_screen(map_pos),
    {
        if let Some(console) = self.get_map_console() {
            return (
                (map_pos.0 - console.map_pos.0) * console.gsize + console.pos.0,
                (map_pos.1 - console.map_pos.1) * console.gsize + console.pos.1,
            );
        }
        (0, 0)
    }

    /// Pixel `p` of a frame `fw` pixels wide lies in the rectangle of the
    /// screen's size placed at `pos`.
    pub open spec fn image_covers(&self, fw: int, pos: XY, p: int) -> bool {
        let xs = p % fw;
        let ys = p / fw;
        pos.0 <= xs < pos.0 + self.size.0 && pos.1 <= ys < pos.1 + self.size.1
    }

    /// The image pixel drawn at frame pixel `p`: rows of the image are
    /// `image.1.1` pixels apart.
    pub open spec fn image_index(image: &Image, fw: int, pos: XY, p: int) -> int {
        (p / fw - pos.1) * image.1.1 + (p % fw - pos.0)
    }

    /// Copies `image` into the frame (RGBA bytes, `frame_width` pixels per
    /// row) over the rectangle of the screen's size placed at `pos`; frame
    /// pixels outside it, and bytes past the last whole pixel, are kept.
    pub fn draw_image(&self, image: &Image, frame: &mut Vec<u8>, frame_width: i32, pos: XY)
        requires
            frame_width > 0,
            old(frame)@.len() / 4 <= i32::MAX,
            fits_i32(pos.0 + self.size.0),
            fits_i32(pos.1 + self.size.1),
            forall|p: int|
                0 <= p < old(frame)@.len() / 4 && #[trigger] self.image_covers(frame_width as int, pos, p) ==> {
                    &&& fits_i32((p / frame_width as int - pos.1) * image.1.1)
                    &&& fits_i32(Self::image_index(image, frame_width as int, pos, p))
                    &&& 0 <= Self::image_index(image, frame_width as int, pos, p) < image.0@.len()
                },
        ensures
            final(frame)@.len() == old(frame)@.len(),
            forall|p: int, c: int|
                0 <= p < old(frame)@.len() / 4 && 0 <= c < 4 ==> #[trigger] final(frame)@[4 * p + c] == if self.image_covers(frame_width as int, pos, p) {
                    image.0@[Self::image_index(image, frame_width as int, pos, p)][c]
                } else {
                    old(frame)@[4 * p + c]
                },
            forall|b: int| 4 * (old(frame)@.len() / 4) <= b < old(frame)@.len() ==> #[trigger] final(frame)@[b] == old(frame)@[b],
    {
        let npix = frame.len() / 4;
        let ghost old_frame = frame@;
        proof {
            vstd::arithmetic::div_mod::lemma_fundamental_div_mod(frame@.len() as int, 4);
        }
        let mut p: usize = 0;
        while p < npix
            invariant
                p <= npix,
                npix == old_frame.len() / 4,
                npix <= i32::MAX,
                frame_width > 0,
                frame@.len() == old_frame.len(),
                old_frame == old(frame)@,
                fits_i32(pos.0 + self.size.0),
                fits_i32(pos.1 + self.size.1),
                forall|q: int|
                    0 <= q < old_frame.len() / 4 && #[trigger] self.image_covers(frame_width as int, pos, q) ==> {
                        &&& fits_i32((q / frame_width as int - pos.1) * image.1.1)
                        &&& fits_i32(Self::image_index(image, frame_width as int, pos, q))
                        &&& 0 <= Self::image_index(image, frame_width as int, pos, q) < image.0@.len()
                    },
                forall|q: int, c: int|
                    0 <= q < p && 0 <= c < 4 ==> #[trigger] frame@[4 * q + c] == if self.image_covers(frame_width as int, pos, q) {
                        image.0@[Self::image_index(image, frame_width as int, pos, q)][c]
                    } else {
                        old_frame[4 * q + c]
                    },
                forall|b: int| 4 * p <= b < frame@.len() ==> #[trigger] frame@[b] == old_frame[b],
            decreases npix - p,
        {
            let pi = p as i32;
            proof {
                vstd::arithmetic::div_mod::lemma_fundamental_div_mod(p as int, frame_width as int);
                vstd::arithmetic::div_mod::lemma_div_pos_is_pos(p as int, frame_width as int);
            }
            let xscreen = pi % frame_width;
            let yscreen = pi / frame_width;
            let ghost before = frame@;
            if pos.0 <= xscreen && xscreen < pos.0 + self.size.0 && pos.1 <= yscreen && yscreen < pos.1 + self.size.1 {
                assert(self.image_covers(frame_width as int, pos, p as int));
                let ximg = xscreen - pos.0;
                let yimg = yscreen - pos.1;
                let idx = yimg * image.1.1 + ximg;
                let rgba = image.0[idx as usize];
                let mut c: usize = 0;
                while c < 4
                    invariant
                        c <= 4,
                        p < npix,
                        npix == old_frame.len() / 4,
                        4 * npix <= frame.len(),
                        frame@.len() == before.len(),
                        before.len() == old_frame.len(),
                        forall|k: int| 0 <= k < c ==> #[trigger] frame@[4 * p + k] == rgba[k],
                        forall|b: int| 0 <= b < frame@.len() && (b < 4 * p || b >= 4 * p + c) ==> #[trigger] frame@[b] == before[b],
                    decreases 4 - c,
                {
                    frame.set(4 * p + c, rgba[c]);
                    c += 1;
                }
            } else {
                assert(!self.image_covers(frame_width as int, pos, p as int));
            }
            proof {
                assert forall|q: int, c: int| 0 <= q < p + 1 && 0 <= c < 4 implies #[trigger] frame@[4 * q + c] == if self.image_covers(frame_width as int, pos, q) {
                    image.0@[Self::image_index(image, frame_width as int, pos, q)][c]
                } else {
                    old_frame[4 * q + c]
                } by {
                    if q < p {
                        assert(frame@[4 * q + c] == before[4 * q + c]);
                    } else {
                        assert(before[4 * q + c] == old_frame[4 * q + c]);
                    }
                }
            }
            p += 1;
        }
    }
}

/// A change of a map console's view.
#[derive(Clone, Copy)]
pub enum ViewChange {
    ZoomIn,
    ZoomOut,
    /// Zoom to fit a map of `w` by `h` cells.
    Fit { w: usize, h: usize },
}

/// Console `b` is `a` after the view change `op`: only the glyph size moved,
/// as `op` says.
pub open spec fn view_changed(op: ViewChange, a: Console, b: Console) -> bool {
    &&& same_but_zoom(a, b)
    &&& match op {
        ViewChange::ZoomIn => b.gsize == zoomed_in(a.gsize as int),
        ViewChange::ZoomOut => b.gsize == zoomed_out(a.gsize as int),
        ViewChange::Fit { w, h } => b.gsize == spec_fit_zoom(
            a.gsize as int,
            w as int,
            h as int,
            a.size.0 as int,
            a.size.1 as int,
        ),
    }
}

/// Every console that is not a map is unchanged, and each map console `a`
/// became a console `b` with `f(a, b)`.
pub open spec fn only_world_maps_change(
    old_cs: Seq<Console>,
    new_cs: Seq<Console>,
    f: ViewChange,
) -> bool {
    &&& new_cs.len() == old_cs.len()
    &&& changed_prefix(old_cs, new_cs, f, old_cs.len() as int)
}

/// The first `n` consoles changed as `only_world_maps_change` says, and the
/// rest are unchanged.
pub open spec fn changed_prefix(
    old_cs: Seq<Console>,
    new_cs: Seq<Console>,
    f: ViewChange,
    n: int,
) -> bool {
    &&& new_cs.len() == old_cs.len()
    &&& forall|k: int|
        0 <= k < n ==> if old_cs[k].mode == ConsoleMode::WorldMap {
            view_changed(f, old_cs[k], #[trigger] new_cs[k])
        } else {
            new_cs[k] == old_cs[k]
        }
    &&& forall|k: int| n <= k < old_cs.len() ==> #[trigger] new_cs[k] == old_cs[k]
}

proof fn lemma_extend_prefix(
    old_cs: Seq<Console>,
    before: Seq<Console>,
    after: Seq<Console>,
    f: ViewChange,
    i: int,
)
    requires
        0 <= i < old_cs.len(),
        changed_prefix(old_cs, before, f, i),
        after.len() == before.len(),
        forall|k: int| 0 <= k < before.len() && k != i ==> after[k] == before[k],
        old_cs[i].mode == ConsoleMode::WorldMap ==> view_changed(f, old_cs[i], after[i]),
        old_cs[i].mode != ConsoleMode::WorldMap ==> after[i] == old_cs[i],
    ensures
        changed_prefix(old_cs, after, f, i + 1),
{
    assert forall|k: int| 0 <= k < i + 1 implies if old_cs[k].mode == ConsoleMode::WorldMap {
        view_changed(f, old_cs[k], #[trigger] after[k])
    } else {
        after[k] == old_cs[k]
    } by {
        if k < i {
            assert(after[k] == before[k]);
        }
    }
    assert forall|k: int| i + 1 <= k < old_cs.len() implies #[trigger] after[k] == old_cs[k] by {
        assert(after[k] == before[k]);
    }
}

proof fn lemma_first_world_map_at(cs: Seq<Console>, i: int)
    requires
        0 <= i < cs.len(),
        cs[i].mode == ConsoleMode::WorldMap,
        forall|k: int| 0 <= k < i ==> #[trigger] cs[k].mode != ConsoleMode::WorldMap,
    ensures
        first_world_map(cs) == Some(i),
    decreases cs.len(),
{
    if i < cs.len() - 1 {
        lemma_first_world_map_at(cs.drop_last(), i);
    } else {
        lemma_no_world_map(cs.drop_last());
    }
}

proof fn lemma_no_world_map(cs: Seq<Console>)
    requires
        forall|k: int| 0 <= k < cs.len() ==> #[trigger] cs[k].mode != ConsoleMode::WorldMap,
    ensures
        first_world_map(cs) is None,
    decreases cs.len(),
{
    if cs.len() > 0 {
        lemma_no_world_map(cs.drop_last());
    }
}

/// Converting a map cell to a screen pixel and back gives the cell again.
pub proof fn law_map_screen_round_trip(screen: Screen, map_pos: XY)
    requires
        screen.map_to_screen_ok(map_pos),
        first_world_map(screen.consoles@) matches Some(i) ==> screen.consoles@[i].gsize > 0,
    ensures
        screen.screen_to_map_ok(screen.spec_map_pos_to_screen(map_pos)),
        first_world_map(screen.consoles@) is Some ==> screen.spec_screen_pos_to_map(
            screen.spec_map_pos_to_screen(map_pos),
        ) == map_pos,
{
    if let Some(i) = first_world_map(screen.consoles@) {
        let c = screen.consoles@[i];
        let s = screen.spec_map_pos_to_screen(map_pos);
        lemma_div_trunc_multiple(map_pos.0 - c.map_pos.0, c.gsize as int);
        lemma_div_trunc_multiple(map_pos.1 - c.map_pos.1, c.gsize as int);
        assert(s.0 - c.pos.0 == (map_pos.0 - c.map_pos.0) * c.gsize);
        assert(s.1 - c.pos.1 == (map_pos.1 - c.map_pos.1) * c.gsize);
    }
}

} // verus!
