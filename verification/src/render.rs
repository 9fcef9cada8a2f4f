//! Drawing a console by its mode: each mode draws its own panel from the
//! part of the game it shows.

use vstd::prelude::*;
use crate::colors::Color;
use crate::components::{Equipment, OnFire, PhysicalStats, Turn};
use crate::console::{Console, ConsoleMode, Glyph, box_fits, box_steps, log_console_ok, log_glyphs, log_lines, log_rows, spec_box_glyphs};
use crate::colors::{COLOR_BG, COLOR_UI_1};
use crate::context_panel::{ContextEntity, context_glyphs, context_steps, on_map, steps_fit};
use crate::cp437::spec_to_cp437;
use crate::game::{GameState, main_menu_index, main_menu_names, mode_menu_index, mode_menu_names};
use crate::map::{EntityId, TileMap, spec_xy_idx};
use crate::map_view::{Look, map_glyphs, map_pixels, map_view_ok};
use crate::panels::{
    info_glyphs, inventory_fits, inventory_glyphs, item_info_glyphs, max_name_len, menu_fits, menu_glyphs, panel_fits,
    row_fits,
};
use crate::tiles::GasType;
use crate::utils::{Point, XY};

verus! {

/// What the consoles draw from: the game's state and, for each kind of
/// console, the view of the world it shows.
pub struct RenderData {
    pub state: GameState,
    /// The map's size and what each of its cells looks like, row by row.
    pub map_size: (usize, usize),
    pub looks: Vec<Look>,
    /// The screen's width in pixels and its length in bytes.
    pub screen_width: i32,
    pub frame_len: usize,
    /// The log, oldest message first.
    pub messages: Vec<String>,
    /// The turn and the player's stats and burning.
    pub turn: Option<Turn>,
    pub stats: Option<PhysicalStats>,
    pub fire: Option<OnFire>,
    /// The debug panel's view: the map, the cell under the mouse, the cells
    /// the player knows, the frame time and what lies on that cell.
    pub map: TileMap,
    pub mouse: XY,
    pub use_player_los: bool,
    pub known: Vec<usize>,
    pub player_pos: Point,
    pub frame_time: String,
    pub gases: Vec<GasType>,
    pub entities: Vec<ContextEntity>,
    /// The player's equipment (if it has one), the names of entities, the
    /// player's items and which entities can be consumed or worn.
    pub equipment: Vec<Equipment>,
    pub names: Vec<(EntityId, String)>,
    pub items: Vec<EntityId>,
    pub consumables: Vec<EntityId>,
    pub equippables: Vec<EntityId>,
}

/// What console `c` needs of `d` to draw in its mode.
pub open spec fn render_ready(c: Console, d: RenderData) -> bool {
    match c.mode {
        ConsoleMode::MainMenu => menu_fits(c, "Main Menu"@, main_menu_names())
            && menu_fits(c, "Select Game Mode"@, mode_menu_names()),
        ConsoleMode::WorldMap => map_view_ok(c, d.map_size, d.looks@, d.screen_width as int, d.frame_len as int),
        ConsoleMode::Log => log_console_ok(c),
        ConsoleMode::Info => panel_fits(c, 5, 27, 3),
        ConsoleMode::Context => {
            &&& c.gsize > 0
            &&& box_fits(c.pos, c.size, c.gsize, 10)
            &&& d.map.tiles@.len() == d.map.spec_len()
            &&& on_map(d.map, d.mouse) ==> steps_fit(
                c,
                context_steps(
                    d.player_pos,
                    d.frame_time@,
                    d.mouse,
                    d.map.tiles@[spec_xy_idx(d.map.size.0 as int, d.mouse.0 as int, d.mouse.1 as int)],
                    d.gases@,
                    d.entities@,
                ),
            )
        },
        ConsoleMode::Inventory => inventory_fits(c, d.equipment@.len() as int, d.items@.len() as int, max_name_len(d.names@))
            && forall|i: int| 0 <= i < d.equipment@.len() ==> (#[trigger] d.equipment@[i]).wf(),
        ConsoleMode::ItemInfo => panel_fits(c, 9, 11, 4)
            && forall|i: int| 0 <= i < d.names@.len() ==> row_fits(c.pos.0 + c.gsize, c.gsize as int, (#[trigger] d.names@[i]).1@.len() as int),
    }
}

/// The glyphs console `c` queues from `d` in its mode (see each panel).
pub open spec fn mode_glyphs(c: Console, d: RenderData) -> Seq<Glyph> {
    match c.mode {
        ConsoleMode::MainMenu => match d.state {
            GameState::MainMenu { selection } => menu_glyphs(c, "Main Menu"@, main_menu_names(), main_menu_index(selection)),
            GameState::ModeSelect { selection } => menu_glyphs(c, "Select Game Mode"@, mode_menu_names(), mode_menu_index(selection)),
            _ => Seq::empty(),
        },
        ConsoleMode::WorldMap => if c.gsize < 8 {
            Seq::empty()
        } else {
            map_glyphs(c, d.map_size, d.looks@, c.size.0 as int / c.gsize as int)
        },
        ConsoleMode::Log => {
            let n = c.size.0 / c.gsize - 2;
            let lines = log_lines(d.messages@, n as int);
            let k = if lines.len() < log_rows(c.size.1 as int, c.gsize as int) {
                lines.len() as int
            } else {
                log_rows(c.size.1 as int, c.gsize as int)
            };
            spec_box_glyphs(c.pos, c.size, COLOR_UI_1, COLOR_BG, c.gsize,
                "Log"@.map_values(|ch: char| spec_to_cp437(ch) as usize), box_steps(c.size.0 as int, c.gsize as int))
                + log_glyphs(lines, k, c.pos, c.gsize)
        },
        ConsoleMode::Info => info_glyphs(c, d.turn, d.stats, d.fire),
        ConsoleMode::Context => context_glyphs(c, d.map, d.mouse, d.use_player_los, d.known@, d.player_pos,
            d.frame_time@, d.gases@, d.entities@),
        ConsoleMode::Inventory => match d.state {
            GameState::ShowInventory { selection } => inventory_glyphs(c, selection, d.equipment@, d.names@, d.items@),
            _ => Seq::empty(),
        },
        ConsoleMode::ItemInfo => item_info_glyphs(c, d.state, d.names@, d.consumables@, d.equippables@),
    }
}

/// The pixels console `c` colours from `d`: only a world map drawn with
/// glyphs under 8 pixels colours pixels.
pub open spec fn mode_pixels(c: Console, d: RenderData) -> Seq<(usize, Color)> {
    if c.mode == ConsoleMode::WorldMap && c.gsize < 8 {
        map_pixels(c, d.map_size, d.looks@, d.screen_width as int, (d.frame_len / 4) as int)
    } else {
        Seq::empty()
    }
}

impl Console {
    /// Draws the console by its mode: the main menu and the mode menu, the
    /// world map, the log, the player's stats, the debug panel, the
    /// inventory or the item's actions.
    pub fn render(&self, frame: &mut Vec<Glyph>, pixels: &mut Vec<(usize, Color)>, d: &RenderData)
        requires
            render_ready(*self, *d),
        ensures
            final(frame)@ == old(frame)@ + mode_glyphs(*self, *d),
            final(pixels)@ == old(pixels)@ + mode_pixels(*self, *d),
    {
        match self.mode {
            ConsoleMode::MainMenu => {
                self.render_main_menu(frame, d.state);
                self.render_mode_select(frame, d.state);
                proof {
                    assert(frame@ =~= old(frame)@ + mode_glyphs(*self, *d));
                }
            },
            ConsoleMode::WorldMap => {
                self.render_map(frame, pixels, d.map_size, &d.looks, d.screen_width, d.frame_len);
                proof {
                    assert(frame@ =~= old(frame)@ + mode_glyphs(*self, *d));
                    assert(pixels@ =~= old(pixels)@ + mode_pixels(*self, *d));
                }
            },
            ConsoleMode::Log => {
                self.render_log(frame, &d.messages);
            },
            ConsoleMode::Info => {
                self.render_info(frame, d.turn, d.stats, d.fire);
            },
            ConsoleMode::Context => {
                self.render_context(frame, &d.map, d.mouse, d.use_player_los, &d.known, d.player_pos,
                    d.frame_time.as_str(), &d.gases, &d.entities);
            },
            ConsoleMode::Inventory => {
                self.render_inventory(frame, d.state, &d.equipment, &d.names, &d.items);
                proof {
                    assert(frame@ =~= old(frame)@ + mode_glyphs(*self, *d));
                }
            },
            ConsoleMode::ItemInfo => {
                self.render_item_info(frame, d.state, &d.names, &d.consumables, &d.equippables);
            },
        }
        proof {
            assert(pixels@ =~= old(pixels)@ + mode_pixels(*self, *d));
        }
    }
}

} // verus!
