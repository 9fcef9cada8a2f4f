use roguelike_engine::colors::{COLOR_FIRE, COLOR_UI_2, COLOR_UI_3};
use roguelike_engine::components::{Equipment, EquipmentSlot, OnFire, PhysicalStats, Turn};
use roguelike_engine::console::{Console, ConsoleMode, Glyph};
use roguelike_engine::context_panel::ContextEntity;
use roguelike_engine::game::{GameState, MainMenuSelection, ModeSelectSelection};
use roguelike_engine::map::TileMap;
use roguelike_engine::tiles::{GasType, TileType};
use roguelike_engine::utils::Point;

fn text(glyphs: &[Glyph]) -> String {
    glyphs.iter().map(|g| char::from(g.ch as u8)).collect()
}

fn stats() -> PhysicalStats {
    PhysicalStats { max_hp: 30, hp: -4, defense: 1, power: 5, regen_rate: 1 }
}

#[test]
fn menu_entry_names() {
    assert_eq!(MainMenuSelection::ModeSelect.to_string(), "ModeSelect");
    assert_eq!(ModeSelectSelection::VillageSim.to_string(), "VillageSim");
}

#[test]
fn main_menu_highlights_the_selection() {
    let c = Console::new((200, 100), (0, 0), ConsoleMode::MainMenu, 10);
    let mut frame: Vec<Glyph> = Vec::new();
    c.render_main_menu(&mut frame, GameState::MainMenu { selection: MainMenuSelection::ModeSelect });
    // a 20 x 10 box, the title, then the three entries
    assert_eq!(frame.len(), 200 + 9 + 4 + 10 + 4);
    assert_eq!(text(&frame[200..209]), "Main Menu");
    assert_eq!(frame[200].pos, (30, 20));
    assert_eq!(text(&frame[209..213]), "Play");
    assert_eq!(frame[209].pos, (30, 40));
    assert_eq!(frame[209].fg, COLOR_UI_2);
    assert_eq!(text(&frame[213..223]), "ModeSelect");
    assert_eq!(frame[213].pos, (30, 50));
    assert_eq!(frame[213].fg, COLOR_UI_3);
    assert_eq!(frame[223].pos, (30, 60));
    // nothing outside the menu
    let mut frame: Vec<Glyph> = Vec::new();
    c.render_main_menu(&mut frame, GameState::PreTurn);
    assert!(frame.is_empty());
}

#[test]
fn mode_menu_lists_the_modes() {
    let c = Console::new((250, 100), (0, 0), ConsoleMode::MainMenu, 10);
    let mut frame: Vec<Glyph> = Vec::new();
    c.render_mode_select(&mut frame, GameState::ModeSelect { selection: ModeSelectSelection::OrcArena });
    let boxed = 25 * 10;
    assert_eq!(text(&frame[boxed..boxed + 16]), "Select Game Mode");
    let entries = &frame[boxed + 16..];
    assert_eq!(text(entries), "MapDemoRLVillageSimOrcArena");
    assert_eq!(entries[entries.len() - 1].fg, COLOR_UI_3);
    assert_eq!(entries[0].fg, COLOR_UI_2);
    assert_eq!(entries[entries.len() - 1].pos.1, 70);
}

#[test]
fn stats_panel() {
    let c = Console::new((300, 50), (0, 0), ConsoleMode::Info, 10);
    let mut frame: Vec<Glyph> = Vec::new();
    c.render_info(&mut frame, Some(Turn(120)), Some(stats()), Some(OnFire { turns: 3 }));
    let boxed = 30 * 5;
    let lines = &frame[boxed..];
    assert_eq!(text(lines), "Turn: 120HP: -4/30FIRE 3");
    assert_eq!(lines[0].pos, (10, 10));
    assert_eq!(lines[0].fg, COLOR_FIRE);
    assert_eq!(lines[9].pos, (10, 20));
    assert_eq!(lines[9].fg, COLOR_UI_2);
    assert_eq!(lines[18].pos, (10, 30));
    // without stats the fire line moves up a row
    let mut frame: Vec<Glyph> = Vec::new();
    c.render_info(&mut frame, None, None, Some(OnFire { turns: -2147483648 }));
    assert_eq!(text(&frame[boxed..]), "FIRE -2147483648");
    assert_eq!(frame[boxed].pos, (10, 20));
}

#[test]
fn item_actions_panel() {
    let c = Console::new((200, 60), (0, 0), ConsoleMode::ItemInfo, 10);
    let names = vec![(5, "Dagger".to_string()), (6, "Potion".to_string())];
    let mut frame: Vec<Glyph> = Vec::new();
    c.render_item_info(&mut frame, GameState::ShowItemActions { item: 5 }, &names, &vec![6], &vec![5]);
    let boxed = 20 * 6;
    assert_eq!(text(&frame[boxed..]), "Dagger(e) - Equip");
    assert_eq!(frame[boxed + 6].pos, (10, 30));
    let mut frame: Vec<Glyph> = Vec::new();
    c.render_item_info(&mut frame, GameState::ShowItemActions { item: 6 }, &names, &vec![6], &vec![6]);
    assert_eq!(text(&frame[boxed..]), "Potion(a) - Apply(e) - Equip");
    assert_eq!(frame[boxed + 17].pos, (10, 40));
    // an item without a name shows nothing
    let mut frame: Vec<Glyph> = Vec::new();
    c.render_item_info(&mut frame, GameState::ShowItemActions { item: 7 }, &names, &vec![], &vec![]);
    assert!(frame.is_empty());
}

#[test]
fn inventory_panel() {
    let c = Console::new((200, 300), (0, 0), ConsoleMode::Inventory, 10);
    let names = vec![(5, "Dagger".to_string()), (6, "Potion".to_string())];
    let mut worn = Equipment::new();
    worn.equip(5, EquipmentSlot::RightHand);
    let mut frame: Vec<Glyph> = Vec::new();
    let state = GameState::ShowInventory { selection: 1 };
    c.render_inventory(&mut frame, state, &vec![worn], &names, &vec![6, 9, 5]);
    let slots = "LeftHand - RightHand - DaggerTorso - Head - Legs - Feet - Back - ";
    assert_eq!(text(&frame[..slots.len()]), slots);
    assert_eq!(frame[0].pos, (10, 10));
    // the equipment box is 9 rows high, the items start on row 10
    let boxed = slots.len() + 20 * 9;
    assert_eq!(text(&frame[boxed..boxed + 16]), "- Potion- Dagger");
    assert_eq!(frame[boxed].pos, (10, 100));
    assert_eq!(frame[boxed].fg, COLOR_UI_2);
    assert_eq!(frame[boxed + 8].pos, (10, 110));
    assert_eq!(frame[boxed + 8].fg, COLOR_UI_3);
    // the inventory box starts on row 9 and is 4 rows high
    assert_eq!(frame.len(), boxed + 16 + 20 * 4);
    assert_eq!(frame[boxed + 16].pos, (0, 90));
}

fn context_entity() -> ContextEntity {
    ContextEntity {
        id: 7,
        name: Some("Orc".to_string()),
        pos: Some(Point { x: 3, y: 4 }),
        stats: Some(PhysicalStats { max_hp: 10, hp: 5, defense: 0, power: 1, regen_rate: 0 }),
        fire: None,
        intent: Some(("attack".to_string(), Some(Point { x: 5, y: 5 }))),
        inventory: vec![Some("Axe".to_string()), None],
    }
}

fn grass_map() -> TileMap {
    let mut map = TileMap::new((10, 10));
    map.tiles = vec![TileType::Grass; 100];
    map
}

#[test]
fn debug_panel_lists_the_cell_under_the_mouse() {
    let c = Console::new((300, 300), (0, 0), ConsoleMode::Context, 10);
    let mut frame: Vec<Glyph> = Vec::new();
    let map = grass_map();
    let p = Point { x: 1, y: 2 };
    c.render_context(&mut frame, &map, (3, 4), false, &vec![], p, "16.6", &vec![GasType::Steam], &vec![context_entity()]);
    let boxed = 30 * 30;
    let lines = [
        ("PPOS: Point { x: 1, y: 2 }", 1),
        ("Frametime: 16.6", 2),
        ("mouse pos: (3, 4)", 4),
        ("Tile: Grass", 5),
        ("Gases:", 6),
        (" Steam", 7),
        ("Entities:", 9),
        (" 7 Orc", 10),
        (" Point { x: 3, y: 4 }", 11),
        (" HP: 5/10", 12),
        (" Intent: attack", 13),
        (" Target: Point { x: 5, y: 5 }", 14),
        (" Inventory:", 15),
        ("  Axe", 16),
    ];
    let mut at = boxed;
    for (t, row) in lines {
        assert_eq!(text(&frame[at..at + t.len()]), t);
        assert_eq!(frame[at].pos, (10, row * 10));
        at += t.len();
    }
    assert_eq!(frame.len(), at);
}

#[test]
fn debug_panel_stops_at_the_bottom_edge() {
    // rows up to 6 are clear of the bottom; the gas line on row 7 is not
    let c = Console::new((300, 80), (0, 0), ConsoleMode::Context, 10);
    let mut frame: Vec<Glyph> = Vec::new();
    let map = grass_map();
    let p = Point { x: 1, y: 2 };
    c.render_context(&mut frame, &map, (3, 4), false, &vec![], p, "1", &vec![GasType::Steam], &vec![context_entity()]);
    let boxed = 30 * 8;
    assert_eq!(&text(&frame[frame.len() - 6..]), "Gases:");
    assert!(frame.len() > boxed);
}

#[test]
fn debug_panel_needs_a_known_cell_on_the_map() {
    let c = Console::new((300, 300), (0, 0), ConsoleMode::Context, 10);
    let map = grass_map();
    let p = Point { x: 1, y: 2 };
    let mut frame: Vec<Glyph> = Vec::new();
    c.render_context(&mut frame, &map, (3, 4), true, &vec![5], p, "1", &vec![], &vec![]);
    assert_eq!(frame.len(), 30 * 30);
    let mut frame: Vec<Glyph> = Vec::new();
    c.render_context(&mut frame, &map, (3, 4), true, &vec![43], p, "1", &vec![], &vec![]);
    assert!(frame.len() > 30 * 30);
    let mut frame: Vec<Glyph> = Vec::new();
    c.render_context(&mut frame, &map, (-1, 4), false, &vec![], p, "1", &vec![], &vec![]);
    assert_eq!(frame.len(), 30 * 30);
}
