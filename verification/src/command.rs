//! What a player's command does to the game state, and what it asks of the
//! rest of the engine.

use vstd::prelude::*;
use crate::components::WantsToUseItem;
use crate::effects::EffectType;
use crate::game::{GameState, MainMenuSelection, ModeSelectSelection};
use crate::game_modes::GameMode;
use crate::input::{InputCommand, Key, spec_map_keys, next_inventory_selection, next_target, spec_next_target, spec_within_range, updown, within_range};
use crate::map::{EntityId, TileMap, spec_xy_idx};
use crate::utils::{Point, XY, dir_offset, dir_step, dir_to_point, fits_i32};

verus! {

/// What a command asks of the rest of the engine.
#[derive(Copy, Clone, PartialEq, Eq, Debug)]
pub enum CommandAction {
    /// Scroll the map view by `offset` cells.
    PanMap { offset: XY },
    /// Queue `effect`, caused by the player.
    Effect { effect: EffectType },
    /// Move the highlighted menu entry up (`-1`) or down (`1`).
    MoveMenuSelection { step: i32 },
    /// Show the whole map.
    RevealMap,
    /// Make a fireball scroll and aim it within `range`.
    AimNewFireball { range: i32 },
    /// Start again with the current settings.
    ResetGame,
    ZoomIn,
    ZoomOut,
    /// Reset the screen and start a game in `mode`.
    StartMode { mode: GameMode },
    /// The player uses an item.
    UseItem { use_item: WantsToUseItem },
    /// Turn running the turns by themselves on or off.
    ToggleAutorun,
    /// Print the villagers' decision parameters.
    PrintAIParams,
}

/// What the engine knows that a command looks at: the mode, the player,
/// where it stands, what it carries (if it has an inventory), which
/// entities are items, which items can be aimed and how far, and the
/// entities with stats (with their cells) that the tab key can aim at.
pub struct CommandContext {
    pub mode: GameMode,
    pub player: EntityId,
    pub player_pos: Point,
    pub inventory: Option<Vec<EntityId>>,
    pub items: Vec<EntityId>,
    pub ranged: Vec<(EntityId, i32)>,
    pub targets: Vec<(EntityId, Vec<Point>)>,
}

/// The mode a mode-menu entry starts.
pub open spec fn mode_of_selection(s: ModeSelectSelection) -> GameMode {
    match s {
        ModeSelectSelection::MapDemo => GameMode::MapDemo,
        ModeSelectSelection::RL => GameMode::RL,
        ModeSelectSelection::VillageSim => GameMode::VillageSim,
        ModeSelectSelection::OrcArena => GameMode::OrcArena,
    }
}

/// The range of `item` if it can be aimed: the first entry for it.
pub open spec fn spec_range_of(ranged: Seq<(EntityId, i32)>, item: EntityId) -> Option<i32>
    decreases ranged.len(),
{
    if ranged.len() == 0 {
        None
    } else if ranged[0].0 == item {
        Some(ranged[0].1)
    } else {
        spec_range_of(ranged.drop_first(), item)
    }
}

/// The pick-up effects for the items among `here`, in order.
pub open spec fn pick_ups(here: Seq<EntityId>, items: Seq<EntityId>) -> Seq<CommandAction>
    decreases here.len(),
{
    if here.len() == 0 {
        Seq::empty()
    } else {
        pick_ups(here.drop_last(), items) + if items.contains(here.last()) {
            seq![CommandAction::Effect { effect: EffectType::PickUp { entity: here.last() } }]
        } else {
            Seq::empty()
        }
    }
}

/// The item a command on the inventory or an item's menu is about.
pub open spec fn selected_item(state: GameState, inventory: Option<Seq<EntityId>>) -> Option<EntityId> {
    match state {
        GameState::ShowInventory { selection } => match inventory {
            Some(items) => Some(items[selection as int]),
            None => None,
        },
        GameState::ShowItemActions { item } => Some(item),
        _ => None,
    }
}

/// The cell `dir` leads to from `pos`.
pub open spec fn step_from(pos: Point, dir: i32) -> Point {
    Point {
        x: dir_step(pos.x as int, dir_offset(dir as usize).0, 1) as i32,
        y: dir_step(pos.y as int, dir_offset(dir as usize).1, 1) as i32,
    }
}

/// What command `cmd` does in `state`: the state it leads to (`NoChange`
/// for none) and the actions it asks for, in order.
pub open spec fn spec_execute(
    cmd: InputCommand,
    state: GameState,
    ctx: CommandContext,
    map: TileMap,
) -> (GameState, Seq<CommandAction>) {
    let inventory = match ctx.inventory { Some(v) => Some(v@), None => None };
    match cmd {
        InputCommand::NoCommand => (GameState::NoChange, Seq::empty()),
        InputCommand::Move { dir } => {
            let pan = if ctx.mode == GameMode::MapDemo {
                seq![CommandAction::PanMap { offset: (dir_offset(dir as usize).0 as i32, dir_offset(dir as usize).1 as i32) }]
            } else {
                Seq::empty()
            };
            let step = if dir == 8 { -1i32 } else if dir == 2 { 1i32 } else { 0i32 };
            let target = step_from(ctx.player_pos, dir);
            let walk = (GameState::PlayerActed, pan + seq![CommandAction::Effect {
                effect: EffectType::MoveOrAttack { tile_idx: spec_xy_idx(map.size.0 as int, target.x as int, target.y as int) as usize },
            }]);
            match state {
                GameState::MainMenu { .. } | GameState::ModeSelect { .. } => (state, pan + seq![CommandAction::MoveMenuSelection { step }]),
                GameState::ShowInventory { selection } => match inventory {
                    Some(items) => {
                        let n = selection + step;
                        (GameState::ShowInventory {
                            selection: (if n < 0 { items.len() as int } else if n >= items.len() { 0 } else { n }) as usize,
                        }, pan)
                    },
                    None => walk,
                },
                _ => walk,
            }
        },
        InputCommand::ShowInventory => (GameState::ShowInventory { selection: 0 }, Seq::empty()),
        InputCommand::Wait => (GameState::PlayerActed, seq![CommandAction::Effect { effect: EffectType::Wait {} }]),
        InputCommand::Escape => (match state {
            GameState::MainMenu { .. } => GameState::Exit,
            GameState::ShowInventory { .. } | GameState::ShowItemActions { .. } | GameState::ShowTargeting { .. } => GameState::PreTurn,
            _ => GameState::MainMenu { selection: MainMenuSelection::Play },
        }, Seq::empty()),
        InputCommand::Get => (GameState::PlayerActed, pick_ups(
            map.tile_content@[spec_xy_idx(map.size.0 as int, ctx.player_pos.x as int, ctx.player_pos.y as int)]@,
            ctx.items@,
        )),
        InputCommand::Drop => (GameState::PlayerActed, match selected_item(state, inventory) {
            Some(item) => seq![CommandAction::Effect { effect: EffectType::Drop { entity: item } }],
            None => Seq::empty(),
        }),
        InputCommand::Explore => (GameState::PlayerActed, seq![CommandAction::Effect { effect: EffectType::Explore {} }]),
        InputCommand::RevealMap => (GameState::PlayerActed, seq![CommandAction::RevealMap]),
        InputCommand::Fireball => (GameState::NoChange, seq![CommandAction::AimNewFireball { range: 6 }]),
        InputCommand::UseStairs => (GameState::NoChange, Seq::empty()),
        InputCommand::Reset => (GameState::ShowMapHistory, seq![CommandAction::ResetGame]),
        InputCommand::ZoomIn => (GameState::NoChange, seq![CommandAction::ZoomIn]),
        InputCommand::ZoomOut => (GameState::NoChange, seq![CommandAction::ZoomOut]),
        InputCommand::Enter => match state {
            GameState::MainMenu { selection } => (match selection {
                MainMenuSelection::Play => GameState::ShowMapHistory,
                MainMenuSelection::ModeSelect => GameState::ModeSelect { selection: ModeSelectSelection::MapDemo },
                MainMenuSelection::Quit => GameState::Exit,
            }, Seq::empty()),
            GameState::ModeSelect { selection } => (GameState::ShowMapHistory, seq![CommandAction::StartMode { mode: mode_of_selection(selection) }]),
            GameState::ShowInventory { selection } => match inventory {
                Some(items) => if selection < items.len() {
                    (GameState::ShowItemActions { item: items[selection as int] }, Seq::empty())
                } else {
                    (GameState::NoChange, Seq::empty())
                },
                None => (GameState::NoChange, Seq::empty()),
            },
            GameState::ShowTargeting { range, item, target } => {
                let p = Point { x: target.0, y: target.1 };
                if spec_within_range(p, ctx.player_pos, range as int) {
                    (GameState::PlayerActed, seq![CommandAction::UseItem { use_item: WantsToUseItem { item, target: Some(p) } }])
                } else {
                    (GameState::PreTurn, Seq::empty())
                }
            },
            _ => (GameState::NoChange, Seq::empty()),
        },
        InputCommand::Pause => (GameState::NoChange, seq![CommandAction::ToggleAutorun]),
        InputCommand::Apply => match selected_item(state, inventory) {
            Some(item) => match spec_range_of(ctx.ranged@, item) {
                Some(range) => (GameState::ShowTargeting { range, item, target: (0i32, 0i32) }, Seq::empty()),
                None => (GameState::PlayerActed, seq![CommandAction::UseItem { use_item: WantsToUseItem { item, target: None } }]),
            },
            None => (GameState::NoChange, Seq::empty()),
        },
        InputCommand::Tab => match state {
            GameState::ShowTargeting { range, item, target } => {
                let next = spec_next_target(ctx.targets@, ctx.player, ctx.player_pos, range as int, Point { x: target.0, y: target.1 });
                (GameState::ShowTargeting { range, item, target: (next.x, next.y) }, Seq::empty())
            },
            _ => (state, Seq::empty()),
        },
        InputCommand::PrintAIParams => (GameState::NoChange, seq![CommandAction::PrintAIParams]),
    }
}

/// The exploring command spends the player's turn on exploring and nothing
/// else: in every state, context and map it queues exactly one effect, the
/// explore effect, and never the wait effect; waiting queues the wait
/// effect instead. Pressing X in the roguelike modes explores.
pub proof fn law_explore_queues_explore(state: GameState, ctx: CommandContext, map: TileMap, mode: GameMode)
    ensures
        spec_execute(InputCommand::Explore, state, ctx, map).0 == GameState::PlayerActed,
        spec_execute(InputCommand::Explore, state, ctx, map).1.len() == 1,
        spec_execute(InputCommand::Explore, state, ctx, map).1[0] == (CommandAction::Effect { effect: EffectType::Explore {} }),
        !spec_execute(InputCommand::Explore, state, ctx, map).1.contains((CommandAction::Effect { effect: EffectType::Wait {} })),
        spec_execute(InputCommand::Wait, state, ctx, map).1 == (seq![CommandAction::Effect { effect: EffectType::Wait {} }]),
        spec_execute(InputCommand::Explore, state, ctx, map).1 != spec_execute(InputCommand::Wait, state, ctx, map).1,
        (mode == GameMode::RL || mode == GameMode::OrcHalls) ==> spec_map_keys(Some(Key::X), true, mode) == InputCommand::Explore,
{
    let e = spec_execute(InputCommand::Explore, state, ctx, map).1;
    let w = spec_execute(InputCommand::Wait, state, ctx, map).1;
    assert(e[0] != w[0]);
    if e.contains(CommandAction::Effect { effect: EffectType::Wait {} }) {
        let k = choose|k: int| 0 <= k < e.len() && e[k] == CommandAction::Effect { effect: EffectType::Wait {} };
        assert(k == 0);
    }
}

/// A move command in `state` walks the player (rather than moving a menu
/// or inventory selection): outside the menus, and outside the inventory
/// when the player has one.
pub open spec fn move_walks(state: GameState, ctx: CommandContext) -> bool {
    match state {
        GameState::MainMenu { .. } | GameState::ModeSelect { .. } => false,
        GameState::ShowInventory { .. } => ctx.inventory is None,
        _ => true,
    }
}

/// The inputs a command looks at fit: an inventory selection to apply or
/// drop is within the inventory, an inventory selection moved fits an
/// `i32`, a step the player walks stays on the map (see `move_walks`), and
/// the player's cell is on the map.
pub open spec fn execute_ok(cmd: InputCommand, state: GameState, ctx: CommandContext, map: TileMap) -> bool {
    let w = map.size.0 as int;
    &&& map.tile_content@.len() == map.spec_len()
    &&& map.spec_len() <= usize::MAX
    &&& ((cmd matches InputCommand::Apply || cmd matches InputCommand::Drop) ==> match state {
        GameState::ShowInventory { selection } => match ctx.inventory {
            Some(items) => selection < items@.len(),
            None => true,
        },
        _ => true,
    })
    &&& (cmd matches InputCommand::Move { dir } ==> {
        let t = step_from(ctx.player_pos, dir);
        &&& (ctx.inventory is Some ==> (state matches GameState::ShowInventory { selection } ==> selection <= i32::MAX))
        &&& (move_walks(state, ctx) ==> {
            &&& fits_i32(dir_step(ctx.player_pos.x as int, dir_offset(dir as usize).0, 1))
            &&& fits_i32(dir_step(ctx.player_pos.y as int, dir_offset(dir as usize).1, 1))
            &&& 0 <= t.x && 0 <= t.y && spec_xy_idx(w, t.x as int, t.y as int) <= usize::MAX
        })
    })
    &&& (cmd matches InputCommand::Get ==> 0 <= ctx.player_pos.x && 0 <= ctx.player_pos.y
        && spec_xy_idx(w, ctx.player_pos.x as int, ctx.player_pos.y as int) < map.spec_len())
}

/// The range of `item` if it can be aimed.
fn range_of(ranged: &Vec<(EntityId, i32)>, item: EntityId) -> (r: Option<i32>)
    ensures
        r == spec_range_of(ranged@, item),
{
    let mut i: usize = 0;
    proof {
        assert(ranged@.skip(0) =~= ranged@);
    }
    while i < ranged.len()
        invariant
            i <= ranged@.len(),
            spec_range_of(ranged@, item) == spec_range_of(ranged@.skip(i as int), item),
        decreases ranged@.len() - i,
    {
        proof {
            assert(ranged@.skip(i as int).drop_first() =~= ranged@.skip(i + 1));
        }
        if ranged[i].0 == item {
            return Some(ranged[i].1);
        }
        i += 1;
    }
    None
}

/// The item a command on the inventory or an item's menu is about.
fn selected(state: GameState, inventory: &Option<Vec<EntityId>>) -> (r: Option<EntityId>)
    requires
        state matches GameState::ShowInventory { selection } ==> match inventory {
            Some(items) => selection < items@.len(),
            None => true,
        },
    ensures
        r == selected_item(state, match inventory { Some(v) => Some(v@), None => None }),
{
    match state {
        GameState::ShowInventory { selection } => match inventory {
            Some(items) => Some(items[selection]),
            None => None,
        },
        GameState::ShowItemActions { item } => Some(item),
        _ => None,
    }
}

/// The pick-up effects for the items among `here`.
fn pick_up_items(here: &Vec<EntityId>, items: &Vec<EntityId>) -> (r: Vec<CommandAction>)
    ensures
        r@ == pick_ups(here@, items@),
{
    let mut r: Vec<CommandAction> = Vec::new();
    let mut i: usize = 0;
    while i < here.len()
        invariant
            i <= here@.len(),
            r@ == pick_ups(here@.subrange(0, i as int), items@),
        decreases here@.len() - i,
    {
        proof {
            assert(here@.subrange(0, i + 1).drop_last() =~= here@.subrange(0, i as int));
        }
        if crate::components::contains_id(items, here[i]) {
            r.push(CommandAction::Effect { effect: EffectType::PickUp { entity: here[i] } });
        }
        i += 1;
    }
    proof {
        assert(here@.subrange(0, here@.len() as int) =~= here@);
    }
    r
}

impl InputCommand {
    /// What this command does in `state` (see `spec_execute`): the state it
    /// leads to (`NoChange` for none) and the actions it asks for.
    pub fn execute(&self, state: GameState, ctx: &CommandContext, map: &TileMap) -> (r: (GameState, Vec<CommandAction>))
        requires
            execute_ok(*self, state, *ctx, *map),
        ensures
            r.0 == spec_execute(*self, state, *ctx, *map).0,
            r.1@ == spec_execute(*self, state, *ctx, *map).1,
    {
        let mut actions: Vec<CommandAction> = Vec::new();
        match *self {
            InputCommand::NoCommand => (GameState::NoChange, actions),
            InputCommand::Move { dir } => {
                if ctx.mode == GameMode::MapDemo {
                    let off = dir_to_point(Point { x: 0, y: 0 }, dir as usize, 1);
                    actions.push(CommandAction::PanMap { offset: (off.x, off.y) });
                }
                let step = updown(dir);
                match state {
                    GameState::MainMenu { .. } | GameState::ModeSelect { .. } => {
                        actions.push(CommandAction::MoveMenuSelection { step });
                        return (state, actions);
                    },
                    GameState::ShowInventory { selection } => {
                        if let Some(items) = &ctx.inventory {
                            let s = next_inventory_selection(selection, step, items.len());
                            return (GameState::ShowInventory { selection: s }, actions);
                        }
                    },
                    _ => {},
                }
                let target = dir_to_point(ctx.player_pos, dir as usize, 1);
                let tile_idx = map.point_idx(target);
                actions.push(CommandAction::Effect { effect: EffectType::MoveOrAttack { tile_idx } });
                (GameState::PlayerActed, actions)
            },
            InputCommand::ShowInventory => (GameState::ShowInventory { selection: 0 }, actions),
            InputCommand::Wait => {
                actions.push(CommandAction::Effect { effect: EffectType::Wait {} });
                (GameState::PlayerActed, actions)
            },
            InputCommand::Escape => (match state {
                GameState::MainMenu { .. } => GameState::Exit,
                GameState::ShowInventory { .. } | GameState::ShowItemActions { .. } | GameState::ShowTargeting { .. } => GameState::PreTurn,
                _ => GameState::MainMenu { selection: MainMenuSelection::Play },
            }, actions),
            InputCommand::Get => {
                let idx = map.point_idx(ctx.player_pos);
                (GameState::PlayerActed, pick_up_items(&map.tile_content[idx], &ctx.items))
            },
            InputCommand::Drop => {
                if let Some(item) = selected(state, &ctx.inventory) {
                    actions.push(CommandAction::Effect { effect: EffectType::Drop { entity: item } });
                }
                (GameState::PlayerActed, actions)
            },
            InputCommand::Explore => {
                actions.push(CommandAction::Effect { effect: EffectType::Explore {} });
                (GameState::PlayerActed, actions)
            },
            InputCommand::RevealMap => {
                actions.push(CommandAction::RevealMap);
                (GameState::PlayerActed, actions)
            },
            InputCommand::Fireball => {
                actions.push(CommandAction::AimNewFireball { range: 6 });
                (GameState::NoChange, actions)
            },
            InputCommand::UseStairs => (GameState::NoChange, actions),
            InputCommand::Reset => {
                actions.push(CommandAction::ResetGame);
                (GameState::ShowMapHistory, actions)
            },
            InputCommand::ZoomIn => {
                actions.push(CommandAction::ZoomIn);
                (GameState::NoChange, actions)
            },
            InputCommand::ZoomOut => {
                actions.push(CommandAction::ZoomOut);
                (GameState::NoChange, actions)
            },
            InputCommand::Enter => match state {
                GameState::MainMenu { selection } => (match selection {
                    MainMenuSelection::Play => GameState::ShowMapHistory,
                    MainMenuSelection::ModeSelect => GameState::ModeSelect { selection: ModeSelectSelection::MapDemo },
                    MainMenuSelection::Quit => GameState::Exit,
                }, actions),
                GameState::ModeSelect { selection } => {
                    let mode = match selection {
                        ModeSelectSelection::MapDemo => GameMode::MapDemo,
                        ModeSelectSelection::RL => GameMode::RL,
                        ModeSelectSelection::VillageSim => GameMode::VillageSim,
                        ModeSelectSelection::OrcArena => GameMode::OrcArena,
                    };
                    actions.push(CommandAction::StartMode { mode });
                    (GameState::ShowMapHistory, actions)
                },
                GameState::ShowInventory { selection } => {
                    if let Some(items) = &ctx.inventory {
                        if selection < items.len() {
                            return (GameState::ShowItemActions { item: items[selection] }, actions);
                        }
                    }
                    (GameState::NoChange, actions)
                },
                GameState::ShowTargeting { range, item, target } => {
                    let p = Point { x: target.0, y: target.1 };
                    if within_range(p, ctx.player_pos, range) {
                        actions.push(CommandAction::UseItem { use_item: WantsToUseItem { item, target: Some(p) } });
                        (GameState::PlayerActed, actions)
                    } else {
                        (GameState::PreTurn, actions)
                    }
                },
                _ => (GameState::NoChange, actions),
            },
            InputCommand::Pause => {
                actions.push(CommandAction::ToggleAutorun);
                (GameState::NoChange, actions)
            },
            InputCommand::Apply => match selected(state, &ctx.inventory) {
                Some(item) => match range_of(&ctx.ranged, item) {
                    Some(range) => (GameState::ShowTargeting { range, item, target: (0, 0) }, actions),
                    None => {
                        actions.push(CommandAction::UseItem { use_item: WantsToUseItem { item, target: None } });
                        (GameState::PlayerActed, actions)
                    },
                },
                None => (GameState::NoChange, actions),
            },
            InputCommand::Tab => match state {
                GameState::ShowTargeting { range, item, target } => {
                    let next = next_target(&ctx.targets, ctx.player, ctx.player_pos, range, Point { x: target.0, y: target.1 });
                    (GameState::ShowTargeting { range, item, target: (next.x, next.y) }, actions)
                },
                _ => (state, actions),
            },
            InputCommand::PrintAIParams => {
                actions.push(CommandAction::PrintAIParams);
                (GameState::NoChange, actions)
            },
        }
    }
}

} // verus!
