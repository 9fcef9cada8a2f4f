use roguelike_engine::game_modes::GameMode;
use roguelike_engine::input::{map_keys, next_inventory_selection, next_target, updown, within_range, InputCommand, Key};
use roguelike_engine::utils::Point;

#[test]
fn keys_common_to_every_mode() {
    assert_eq!(map_keys(Some(Key::Key1), true, GameMode::RL), InputCommand::Move { dir: 1 });
    assert_eq!(map_keys(Some(Key::Up), true, GameMode::VillageSim), InputCommand::Move { dir: 8 });
    assert_eq!(map_keys(Some(Key::Key5), true, GameMode::MapDemo), InputCommand::Wait);
    assert_eq!(map_keys(Some(Key::Equals), true, GameMode::RL), InputCommand::ZoomIn);
    assert_eq!(map_keys(Some(Key::NumpadEnter), true, GameMode::RL), InputCommand::Enter);
}

#[test]
fn released_or_missing_keys_give_nothing() {
    assert_eq!(map_keys(Some(Key::Key1), false, GameMode::RL), InputCommand::NoCommand);
    assert_eq!(map_keys(None, true, GameMode::RL), InputCommand::NoCommand);
    assert_eq!(map_keys(Some(Key::Other), true, GameMode::RL), InputCommand::NoCommand);
}

#[test]
fn mode_keys() {
    assert_eq!(map_keys(Some(Key::G), true, GameMode::RL), InputCommand::Get);
    assert_eq!(map_keys(Some(Key::I), true, GameMode::OrcHalls), InputCommand::ShowInventory);
    assert_eq!(map_keys(Some(Key::G), true, GameMode::VillageSim), InputCommand::NoCommand);
    assert_eq!(map_keys(Some(Key::Space), true, GameMode::VillageSim), InputCommand::Pause);
    assert_eq!(map_keys(Some(Key::Space), true, GameMode::RL), InputCommand::NoCommand);
    // the common meaning of R wins over the roguelike one
    assert_eq!(map_keys(Some(Key::R), true, GameMode::RL), InputCommand::Reset);
}

#[test]
fn menu_steps() {
    assert_eq!(updown(8), -1);
    assert_eq!(updown(2), 1);
    assert_eq!(updown(4), 0);
}

#[test]
fn inventory_selection_wraps() {
    assert_eq!(next_inventory_selection(1, 1, 3), 2);
    assert_eq!(next_inventory_selection(2, 1, 3), 0);
    // moving up from the top selects one past the last item
    assert_eq!(next_inventory_selection(0, -1, 3), 3);
    assert_eq!(next_inventory_selection(0, 0, 0), 0);
}

#[test]
fn range_is_compared_by_squares() {
    assert!(within_range(Point::new(3, 4), Point::new(0, 0), 6));
    assert!(!within_range(Point::new(3, 4), Point::new(0, 0), 5));
    assert!(!within_range(Point::new(0, 0), Point::new(0, 0), 0));
}

#[test]
fn tab_cycles_through_targets_in_range() {
    let player = 1u64;
    let ppos = Point::new(10, 10);
    let cands = vec![
        (1u64, vec![Point::new(10, 10)]),
        (2u64, vec![Point::new(11, 10)]),
        (3u64, vec![Point::new(50, 50)]),
        (4u64, vec![Point::new(12, 12)]),
    ];
    // no current target: the first one in range
    assert_eq!(next_target(&cands, player, ppos, 6, Point::new(0, 0)), Point::new(11, 10));
    // after the first comes the next one in range
    assert_eq!(next_target(&cands, player, ppos, 6, Point::new(11, 10)), Point::new(12, 12));
    // after the last, back to the first
    assert_eq!(next_target(&cands, player, ppos, 6, Point::new(12, 12)), Point::new(11, 10));
    // nobody in range
    assert_eq!(next_target(&cands, player, ppos, 1, Point::new(0, 0)), Point::new(0, 0));
}
