use roguelike_engine::command::{CommandAction, CommandContext};
use roguelike_engine::components::WantsToUseItem;
use roguelike_engine::effects::EffectType;
use roguelike_engine::game::{
    after_targeting, update_step, GameState, MainMenuSelection, ModeSelectSelection, UpdateAction,
};
use roguelike_engine::game_modes::GameMode;
use roguelike_engine::input::InputCommand;
use roguelike_engine::map::TileMap;
use roguelike_engine::screen::RangedTargetResult;
use roguelike_engine::utils::Point;

/// A 10 by 10 map whose cells hold no entities.
fn board() -> TileMap {
    let mut map = TileMap::new((10, 10));
    map.tile_content = vec![Vec::new(); 100];
    map
}

fn context(mode: GameMode) -> CommandContext {
    CommandContext {
        mode,
        player: 1,
        player_pos: Point { x: 3, y: 2 },
        inventory: Some(vec![10, 11, 12]),
        items: vec![10, 11, 12, 20, 21],
        ranged: vec![(11, 6)],
        targets: vec![(1, vec![Point { x: 3, y: 2 }]), (7, vec![Point { x: 5, y: 2 }]), (8, vec![Point { x: 4, y: 4 }])],
    }
}

#[test]
fn escape_leaves_menus_and_overlays() {
    let map = board();
    let ctx = context(GameMode::RL);
    let menu = GameState::MainMenu { selection: MainMenuSelection::Play };
    assert_eq!(InputCommand::Escape.execute(menu, &ctx, &map), (GameState::Exit, vec![]));
    assert_eq!(
        InputCommand::Escape.execute(GameState::ShowInventory { selection: 1 }, &ctx, &map),
        (GameState::PreTurn, vec![])
    );
    assert_eq!(InputCommand::Escape.execute(GameState::PreTurn, &ctx, &map), (GameState::MainMenu { selection: MainMenuSelection::Play }, vec![]));
}

#[test]
fn enter_in_menus() {
    let map = board();
    let ctx = context(GameMode::RL);
    assert_eq!(
        InputCommand::Enter.execute(GameState::MainMenu { selection: MainMenuSelection::Play }, &ctx, &map),
        (GameState::ShowMapHistory, vec![])
    );
    assert_eq!(
        InputCommand::Enter.execute(GameState::MainMenu { selection: MainMenuSelection::ModeSelect }, &ctx, &map),
        (GameState::ModeSelect { selection: ModeSelectSelection::MapDemo }, vec![])
    );
    assert_eq!(
        InputCommand::Enter.execute(GameState::MainMenu { selection: MainMenuSelection::Quit }, &ctx, &map),
        (GameState::Exit, vec![])
    );
    assert_eq!(
        InputCommand::Enter.execute(GameState::ModeSelect { selection: ModeSelectSelection::VillageSim }, &ctx, &map),
        (GameState::ShowMapHistory, vec![CommandAction::StartMode { mode: GameMode::VillageSim }])
    );
    assert_eq!(
        InputCommand::Enter.execute(GameState::ShowInventory { selection: 2 }, &ctx, &map),
        (GameState::ShowItemActions { item: 12 }, vec![])
    );
    assert_eq!(InputCommand::Enter.execute(GameState::PreTurn, &ctx, &map), (GameState::NoChange, vec![]));
}

#[test]
fn enter_while_targeting_uses_the_item_in_range() {
    let map = board();
    let ctx = context(GameMode::RL);
    let near = GameState::ShowTargeting { range: 3, item: 11, target: (5, 2) };
    assert_eq!(
        InputCommand::Enter.execute(near, &ctx, &map),
        (
            GameState::PlayerActed,
            vec![CommandAction::UseItem { use_item: WantsToUseItem { item: 11, target: Some(Point { x: 5, y: 2 }) } }]
        )
    );
    let far = GameState::ShowTargeting { range: 2, item: 11, target: (5, 2) };
    assert_eq!(InputCommand::Enter.execute(far, &ctx, &map), (GameState::PreTurn, vec![]));
}

#[test]
fn moving_walks_or_steers_menus() {
    let map = board();
    let ctx = context(GameMode::RL);
    // step right from (3, 2) on a map 10 wide: cell 2 * 10 + 4
    assert_eq!(
        InputCommand::Move { dir: 6 }.execute(GameState::PreTurn, &ctx, &map),
        (GameState::PlayerActed, vec![CommandAction::Effect { effect: EffectType::MoveOrAttack { tile_idx: 24 } }])
    );
    let menu = GameState::MainMenu { selection: MainMenuSelection::ModeSelect };
    assert_eq!(InputCommand::Move { dir: 8 }.execute(menu, &ctx, &map), (menu, vec![CommandAction::MoveMenuSelection { step: -1 }]));
    // the inventory selection wraps at the bottom, and up from the top gives its length
    assert_eq!(
        InputCommand::Move { dir: 2 }.execute(GameState::ShowInventory { selection: 2 }, &ctx, &map),
        (GameState::ShowInventory { selection: 0 }, vec![])
    );
    assert_eq!(
        InputCommand::Move { dir: 8 }.execute(GameState::ShowInventory { selection: 0 }, &ctx, &map),
        (GameState::ShowInventory { selection: 3 }, vec![])
    );
}

#[test]
fn moving_in_the_map_demo_pans_too() {
    let map = board();
    let ctx = context(GameMode::MapDemo);
    assert_eq!(
        InputCommand::Move { dir: 2 }.execute(GameState::PreTurn, &ctx, &map),
        (
            GameState::PlayerActed,
            vec![
                CommandAction::PanMap { offset: (0, 1) },
                CommandAction::Effect { effect: EffectType::MoveOrAttack { tile_idx: 33 } }
            ]
        )
    );
}

#[test]
fn apply_aims_ranged_items_and_uses_others() {
    let map = board();
    let ctx = context(GameMode::RL);
    assert_eq!(
        InputCommand::Apply.execute(GameState::ShowInventory { selection: 1 }, &ctx, &map),
        (GameState::ShowTargeting { range: 6, item: 11, target: (0, 0) }, vec![])
    );
    assert_eq!(
        InputCommand::Apply.execute(GameState::ShowItemActions { item: 12 }, &ctx, &map),
        (GameState::PlayerActed, vec![CommandAction::UseItem { use_item: WantsToUseItem { item: 12, target: None } }])
    );
    assert_eq!(InputCommand::Apply.execute(GameState::PreTurn, &ctx, &map), (GameState::NoChange, vec![]));
}

#[test]
fn drop_and_get() {
    let mut map = board();
    map.tile_content[23] = vec![1, 20, 21];
    let ctx = context(GameMode::RL);
    assert_eq!(
        InputCommand::Drop.execute(GameState::ShowInventory { selection: 0 }, &ctx, &map),
        (GameState::PlayerActed, vec![CommandAction::Effect { effect: EffectType::Drop { entity: 10 } }])
    );
    assert_eq!(InputCommand::Drop.execute(GameState::PreTurn, &ctx, &map), (GameState::PlayerActed, vec![]));
    assert_eq!(
        InputCommand::Get.execute(GameState::PreTurn, &ctx, &map),
        (
            GameState::PlayerActed,
            vec![
                CommandAction::Effect { effect: EffectType::PickUp { entity: 20 } },
                CommandAction::Effect { effect: EffectType::PickUp { entity: 21 } }
            ]
        )
    );
}

#[test]
fn tab_cycles_targets_in_range() {
    let map = board();
    let ctx = context(GameMode::RL);
    let aiming = GameState::ShowTargeting { range: 6, item: 11, target: (0, 0) };
    let (s, a) = InputCommand::Tab.execute(aiming, &ctx, &map);
    assert_eq!(s, GameState::ShowTargeting { range: 6, item: 11, target: (5, 2) });
    assert!(a.is_empty());
    let (s, _) = InputCommand::Tab.execute(s, &ctx, &map);
    assert_eq!(s, GameState::ShowTargeting { range: 6, item: 11, target: (4, 4) });
    let (s, _) = InputCommand::Tab.execute(s, &ctx, &map);
    assert_eq!(s, GameState::ShowTargeting { range: 6, item: 11, target: (5, 2) });
}

#[test]
fn simple_commands() {
    let map = board();
    let ctx = context(GameMode::RL);
    let s = GameState::PreTurn;
    assert_eq!(InputCommand::NoCommand.execute(s, &ctx, &map), (GameState::NoChange, vec![]));
    assert_eq!(InputCommand::ShowInventory.execute(s, &ctx, &map), (GameState::ShowInventory { selection: 0 }, vec![]));
    assert_eq!(InputCommand::Wait.execute(s, &ctx, &map), (GameState::PlayerActed, vec![CommandAction::Effect { effect: EffectType::Wait {} }]));
    assert_eq!(InputCommand::Fireball.execute(s, &ctx, &map), (GameState::NoChange, vec![CommandAction::AimNewFireball { range: 6 }]));
    assert_eq!(InputCommand::Reset.execute(s, &ctx, &map), (GameState::ShowMapHistory, vec![CommandAction::ResetGame]));
    assert_eq!(InputCommand::Pause.execute(s, &ctx, &map), (GameState::NoChange, vec![CommandAction::ToggleAutorun]));
    assert_eq!(InputCommand::UseStairs.execute(s, &ctx, &map), (GameState::NoChange, vec![]));
    assert_eq!(InputCommand::RevealMap.execute(s, &ctx, &map), (GameState::PlayerActed, vec![CommandAction::RevealMap]));
}

#[test]
fn turn_cycle() {
    let r = update_step(GameState::PreTurn, false, false, 7, 1, 10, false);
    assert_eq!((r.state, r.history_timer, r.action), (GameState::PreTurn, 7, UpdateAction::Nothing));
    let r = update_step(GameState::PlayerActed, false, false, 7, 1, 10, false);
    assert_eq!((r.state, r.action), (GameState::PostTurn, UpdateAction::RunSystems));
    let r = update_step(GameState::PostTurn, false, false, 7, 1, 10, false);
    assert_eq!((r.state, r.action), (GameState::PreTurn, UpdateAction::Nothing));
}

#[test]
fn death_ends_the_game_unless_autorun() {
    let r = update_step(GameState::PreTurn, true, false, 7, 1, 10, false);
    assert_eq!(r.state, GameState::GameOver);
    let r = update_step(GameState::PreTurn, true, true, 7, 1, 10, false);
    assert_eq!(r.state, GameState::PlayerActed);
    let r = update_step(GameState::GameOver, true, false, 7, 1, 10, false);
    assert_eq!((r.state, r.history_timer, r.action), (GameState::ShowMapHistory, 7, UpdateAction::Reset));
}

#[test]
fn map_history_advances_every_five_frames() {
    let r = update_step(GameState::ShowMapHistory, false, false, 9, 1, 10, false);
    assert_eq!((r.state, r.history_timer, r.history_step), (GameState::ShowMapHistory, 10, 2));
    // past history_len + 20 steps the game begins
    let r = update_step(GameState::ShowMapHistory, false, false, 154, 30, 10, false);
    assert_eq!((r.state, r.history_step), (GameState::PreTurn, 31));
    let r = update_step(GameState::ShowMapHistory, false, false, 0, 0, 10, true);
    assert_eq!(r.state, GameState::PreTurn);
}

#[test]
fn targeting_answers() {
    let aiming = GameState::ShowTargeting { range: 6, item: 11, target: (1, 1) };
    assert_eq!(after_targeting(aiming, RangedTargetResult::Cancel, None), (GameState::PreTurn, None));
    assert_eq!(after_targeting(aiming, RangedTargetResult::NoResponse, None), (aiming, None));
    assert_eq!(
        after_targeting(aiming, RangedTargetResult::NewTarget { target: (2, 3) }, None),
        (GameState::ShowTargeting { range: 6, item: 11, target: (2, 3) }, None)
    );
    let p = Some(Point { x: 2, y: 3 });
    assert_eq!(
        after_targeting(aiming, RangedTargetResult::Selected, p),
        (GameState::PlayerActed, Some((11, WantsToUseItem { item: 11, target: p })))
    );
    assert_eq!(after_targeting(GameState::PreTurn, RangedTargetResult::Selected, p), (GameState::PreTurn, None));
}

#[test]
fn menus_move_with_the_player_in_the_corner() {
    let map = board();
    let mut ctx = context(GameMode::RL);
    ctx.player_pos = Point { x: 0, y: 0 };
    let menu = GameState::MainMenu { selection: MainMenuSelection::Play };
    assert_eq!(
        InputCommand::Move { dir: 8 }.execute(menu, &ctx, &map),
        (menu, vec![CommandAction::MoveMenuSelection { step: -1 }])
    );
    assert_eq!(
        InputCommand::Move { dir: 4 }.execute(GameState::ShowInventory { selection: 0 }, &ctx, &map),
        (GameState::ShowInventory { selection: 0 }, vec![])
    );
}
