use roguelike_engine::colors::COLOR_BG;
use roguelike_engine::components::{OnFire, PhysicalStats, Turn};
use roguelike_engine::console::{Console, ConsoleMode, Glyph};
use roguelike_engine::game::GameState;
use roguelike_engine::map::TileMap;
use roguelike_engine::render::RenderData;
use roguelike_engine::utils::Point;

fn data() -> RenderData {
    RenderData {
        state: GameState::PreTurn,
        map_size: (2, 1),
        looks: vec![('#', [1, 1, 1, 255], [2, 2, 2, 255]), ('.', [3, 3, 3, 255], [4, 4, 4, 255])],
        screen_width: 8,
        frame_len: 8 * 4 * 4,
        messages: vec![],
        turn: Some(Turn(7)),
        stats: Some(PhysicalStats { max_hp: 30, hp: 25, defense: 1, power: 1, regen_rate: 0 }),
        fire: None,
        map: TileMap::new((2, 1)),
        mouse: (-1, -1),
        use_player_los: false,
        known: vec![],
        player_pos: Point { x: 0, y: 0 },
        frame_time: "0".to_string(),
        gases: vec![],
        entities: vec![],
        equipment: vec![],
        names: vec![],
        items: vec![],
        consumables: vec![],
        equippables: vec![],
    }
}

#[test]
fn an_info_console_draws_the_stats_panel() {
    let c = Console::new((300, 50), (0, 0), ConsoleMode::Info, 10);
    let d = data();
    let mut direct = Vec::new();
    c.render_info(&mut direct, d.turn, d.stats, d.fire);
    let mut frame: Vec<Glyph> = Vec::new();
    let mut pixels = Vec::new();
    c.render(&mut frame, &mut pixels, &d);
    assert_eq!(frame, direct);
    assert!(pixels.is_empty());
}

#[test]
fn a_small_map_console_colours_pixels() {
    // glyphs of 4 pixels: the 2 by 1 map covers an 8 by 4 block
    let c = Console::new((8, 4), (0, 0), ConsoleMode::WorldMap, 4);
    let d = data();
    let mut frame: Vec<Glyph> = Vec::new();
    let mut pixels = Vec::new();
    c.render(&mut frame, &mut pixels, &d);
    assert!(frame.is_empty());
    assert_eq!(pixels.len(), 32);
    // border pixel of the first cell, inner pixel of the second
    assert_eq!(pixels[0], (0, [2, 2, 2, 255]));
    assert_eq!(pixels[8 + 6], (14, [3, 3, 3, 255]));
}

#[test]
fn a_large_map_console_queues_glyphs() {
    let c = Console::new((20, 10), (0, 0), ConsoleMode::WorldMap, 10);
    let d = data();
    let mut frame: Vec<Glyph> = Vec::new();
    let mut pixels = Vec::new();
    c.render(&mut frame, &mut pixels, &d);
    assert!(pixels.is_empty());
    assert_eq!(frame.len(), 2);
    assert_eq!(frame[1].pos, (10, 0));
    assert_eq!(frame[1].ch, '.' as usize);
    assert_eq!(frame[1].bg, [4, 4, 4, 255]);
    let _ = COLOR_BG;
}
