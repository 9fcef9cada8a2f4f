use roguelike_engine::colors::{COLOR_BG, COLOR_GREEN, COLOR_UI_1};
use roguelike_engine::console::{Console, ConsoleMode, Glyph, MAX_ZOOM};
use roguelike_engine::cp437::string_to_cp437;
use roguelike_engine::map::TileMap;
use roguelike_engine::screen::{Image, RangedTargetResult, Screen};
use roguelike_engine::utils::Point;

#[test]
fn console_bounds_include_the_far_edges() {
    let c = Console::new((100, 50), (10, 20), ConsoleMode::Log, 8);
    assert!(c.in_bounds((10, 20)));
    assert!(c.in_bounds((110, 70)));
    assert!(!c.in_bounds((111, 70)));
    assert!(!c.in_bounds((9, 30)));
    assert_eq!(c.map_pos, (0, 0));
    assert!(!c.hidden);
}

#[test]
fn zoom_stays_between_one_and_the_maximum() {
    let mut c = Console::new((100, 100), (0, 0), ConsoleMode::WorldMap, MAX_ZOOM - 1);
    c.zoom_in();
    assert_eq!(c.gsize, MAX_ZOOM);
    c.zoom_in();
    assert_eq!(c.gsize, MAX_ZOOM);
    let mut d = Console::new((100, 100), (0, 0), ConsoleMode::WorldMap, 2);
    d.zoom_out();
    assert_eq!(d.gsize, 1);
    d.zoom_out();
    assert_eq!(d.gsize, 1);
    // zooming in and back out returns to the start below the maximum
    let mut e = Console::new((100, 100), (0, 0), ConsoleMode::WorldMap, 5);
    e.zoom_in();
    e.zoom_out();
    assert_eq!(e.gsize, 5);
}

#[test]
fn reset_view_zooms_all_the_way_out_and_scrolls_home() {
    let mut c = Console::new((100, 100), (0, 0), ConsoleMode::WorldMap, 9);
    c.map_pos = (4, 7);
    c.reset_view();
    assert_eq!(c.gsize, 1);
    assert_eq!(c.map_pos, (0, 0));
}

#[test]
fn zoom_to_fit_grows_while_the_map_still_fits() {
    let mut c = Console::new((100, 60), (0, 0), ConsoleMode::WorldMap, 1);
    let m = TileMap::new((10, 5));
    c.zoom_to_fit(&m);
    // 9 * 10 < 100 and 9 * 5 < 60, but 10 * 10 is not below 100
    assert_eq!(c.gsize, 9);
}

#[test]
fn print_string_lays_glyphs_left_to_right() {
    let c = Console::new((100, 100), (0, 0), ConsoleMode::Log, 8);
    let mut frame: Vec<Glyph> = Vec::new();
    c.print_string(&mut frame, "Hi!", (5, 7), COLOR_GREEN, 8);
    assert_eq!(frame.len(), 3);
    assert_eq!(frame[0], Glyph { pos: (5, 7), ch: 72, fg: COLOR_GREEN, bg: COLOR_BG, gsize: 8 });
    assert_eq!(frame[1].pos, (13, 7));
    assert_eq!(frame[1].ch, 105);
    assert_eq!(frame[2].pos, (21, 7));
    assert_eq!(frame[2].ch, 33);
}

#[test]
fn cp437_codes_of_ascii_text() {
    assert_eq!(string_to_cp437("A z"), vec![65, 32, 122]);
}

#[test]
fn draw_box_draws_corners_edges_and_title() {
    let c = Console::new((100, 100), (0, 0), ConsoleMode::Info, 10);
    let mut frame: Vec<Glyph> = Vec::new();
    c.draw_box(&mut frame, (1, 2), (30, 20), COLOR_UI_1, COLOR_BG, 10, String::new());
    let chars: Vec<usize> = frame.iter().map(|g| g.ch).collect();
    // column by column, top to bottom
    assert_eq!(chars, vec![201, 200, 205, 205, 187, 188]);
    let positions: Vec<(i32, i32)> = frame.iter().map(|g| g.pos).collect();
    assert_eq!(positions, vec![(1, 2), (1, 12), (11, 2), (11, 12), (21, 2), (21, 12)]);
    assert!(frame.iter().all(|g| g.fg == COLOR_UI_1 && g.bg == COLOR_BG && g.gsize == 10));

    let mut titled: Vec<Glyph> = Vec::new();
    c.draw_box(&mut titled, (0, 0), (30, 20), COLOR_UI_1, COLOR_BG, 10, "A".to_string());
    assert_eq!(titled[2].ch, 65);
}

#[test]
fn highlight_puts_a_half_transparent_blank_on_the_cell() {
    let mut c = Console::new((100, 100), (10, 20), ConsoleMode::WorldMap, 4);
    c.map_pos = (2, 1);
    let mut frame: Vec<Glyph> = Vec::new();
    c.highlight_map_coord(&mut frame, (5, 3), [200, 100, 50, 255]);
    assert_eq!(frame.len(), 1);
    assert_eq!(frame[0].pos, (10 + 3 * 4, 20 + 2 * 4));
    assert_eq!(frame[0].ch, 32);
    assert_eq!(frame[0].bg, [200, 100, 50, 128]);
}

#[test]
fn screen_layout_and_map_conversions() {
    let mut s = Screen::new((1200, 800));
    assert!(s.consoles.is_empty());
    s.setup_consoles();
    assert_eq!(s.consoles.len(), 7);
    let modes: Vec<ConsoleMode> = s.consoles.iter().map(|c| c.mode).collect();
    assert_eq!(modes[3], ConsoleMode::WorldMap);
    let c = s.get_map_console().unwrap();
    assert_eq!(c.mode, ConsoleMode::WorldMap);
    let (px, py) = (c.pos.0 + 2 * c.gsize, c.pos.1 + 3 * c.gsize);
    let mp = s.screen_pos_to_map((px, py));
    assert_eq!(mp, (c.map_pos.0 + 2, c.map_pos.1 + 3));
    assert_eq!(s.map_pos_to_screen(mp), (px, py));
}

#[test]
fn zoom_and_pan_change_only_the_map_view() {
    let mut s = Screen::new((1200, 800));
    s.setup_consoles();
    let before: Vec<i32> = s.consoles.iter().map(|c| c.gsize).collect();
    s.increment_zoom();
    for (i, c) in s.consoles.iter().enumerate() {
        if c.mode == ConsoleMode::WorldMap {
            assert_eq!(c.gsize, std::cmp::min(before[i] + 1, MAX_ZOOM));
        } else {
            assert_eq!(c.gsize, before[i]);
        }
    }
    s.decrement_zoom();
    let after: Vec<i32> = s.consoles.iter().map(|c| c.gsize).collect();
    assert_eq!(after, before);
    s.pan_map((-5, 3));
    assert_eq!(s.consoles[1].map_pos, (0, 3));
}

#[test]
fn draw_image_copies_the_covered_pixels() {
    let s = Screen::new((2, 2));
    let image = Image(vec![[1, 1, 1, 1], [2, 2, 2, 2], [3, 3, 3, 3], [4, 4, 4, 4]], (2, 2));
    let mut frame = vec![0u8; 4 * 4 * 3];
    s.draw_image(&image, &mut frame, 4, (1, 1));
    let pixel = |x: usize, y: usize| frame[4 * (y * 4 + x)];
    assert_eq!(pixel(1, 1), 1);
    assert_eq!(pixel(2, 1), 2);
    assert_eq!(pixel(1, 2), 3);
    assert_eq!(pixel(2, 2), 4);
    assert_eq!(pixel(0, 0), 0);
    assert_eq!(pixel(3, 1), 0);
    assert_eq!(pixel(0, 2), 0);
}

#[test]
fn log_shows_the_newest_messages_wrapped_to_the_box() {
    let c = Console::new((60, 40), (0, 0), ConsoleMode::Log, 10);
    let mut frame: Vec<Glyph> = Vec::new();
    c.render_log(&mut frame, &vec!["hello".to_string(), "ab".to_string()]);
    // a 6 x 4 box, then two of the three lines ("ab", "hell", "o") fit
    assert_eq!(frame.len(), 24 + 2 + 4);
    assert_eq!(frame[4].ch, 'L' as usize);
    let text: Vec<usize> = frame[24..].iter().map(|g| g.ch).collect();
    assert_eq!(text, vec![97, 98, 104, 101, 108, 108]);
    assert_eq!(frame[24].pos, (10, 10));
    assert_eq!(frame[26].pos, (10, 20));
    assert_eq!(frame[29].pos, (40, 20));
}

#[test]
fn log_skips_empty_messages() {
    let c = Console::new((60, 60), (0, 0), ConsoleMode::Log, 10);
    let mut frame: Vec<Glyph> = Vec::new();
    c.render_log(&mut frame, &vec!["x".to_string(), String::new()]);
    let boxed = 6 * 6;
    assert_eq!(frame.len(), boxed + 1);
    assert_eq!(frame[boxed].pos, (10, 10));
}

#[test]
fn targeting_overlay_answers() {
    let vis = vec![Point::new(5, 5), Point::new(6, 5), Point::new(9, 9), Point::new(5, 7)];
    let mut c = Console::new((200, 200), (0, 0), ConsoleMode::WorldMap, 10);
    let mut frame: Vec<Glyph> = Vec::new();
    let r = c.ranged_target(&mut frame, Point::new(5, 5), Some(&vis), (6, 5), 2, false, (5, 7));
    assert_eq!(r, (RangedTargetResult::NewTarget { target: (6, 5) }, None));
    // box, text, three cells in range, the cell under the mouse
    assert_eq!(frame.len(), 60 + 15 + 3 + 1);
    assert_eq!(frame[75 + 2].pos, (50, 70));
    assert_eq!(frame[75 + 2].bg[3], 128);
    let mut frame: Vec<Glyph> = Vec::new();
    let r = c.ranged_target(&mut frame, Point::new(5, 5), Some(&vis), (6, 5), 2, true, (5, 7));
    assert_eq!(r, (RangedTargetResult::Selected, Some(Point::new(6, 5))));
    let mut frame: Vec<Glyph> = Vec::new();
    assert_eq!(c.ranged_target(&mut frame, Point::new(5, 5), Some(&vis), (9, 9), 2, true, (5, 7)).0, RangedTargetResult::Cancel);
    assert_eq!(frame.len(), 78);
    let mut frame: Vec<Glyph> = Vec::new();
    assert_eq!(c.ranged_target(&mut frame, Point::new(5, 5), Some(&vis), (9, 9), 2, false, (5, 7)).0, RangedTargetResult::NoResponse);
    let mut frame: Vec<Glyph> = Vec::new();
    assert_eq!(c.ranged_target(&mut frame, Point::new(5, 5), None, (6, 5), 2, true, (5, 7)).0, RangedTargetResult::Cancel);
    assert_eq!(frame.len(), 75);
}
