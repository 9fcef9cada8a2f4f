//! The game's states and the decisions that move between them each frame.

use vstd::prelude::*;
use crate::components::WantsToUseItem;
use crate::map::EntityId;
use crate::screen::RangedTargetResult;
use crate::utils::{Point, XY};

verus! {

/// The entries of the main menu.
#[derive(Copy, Clone, PartialEq, Eq, Structural, Debug)]
pub enum MainMenuSelection {
    Play,
    ModeSelect,
    Quit,
}

/// The names of the main menu's entries, in order.
pub open spec fn main_menu_names() -> Seq<Seq<char>> {
    seq!["Play"@, "ModeSelect"@, "Quit"@]
}

/// The place of an entry in the main menu.
pub open spec fn main_menu_index(s: MainMenuSelection) -> int {
    match s {
        MainMenuSelection::Play => 0,
        MainMenuSelection::ModeSelect => 1,
        MainMenuSelection::Quit => 2,
    }
}

impl MainMenuSelection {
    /// The entry's name as the menu shows it.
    pub fn to_string(&self) -> (r: String)
        ensures
            r@ == main_menu_names()[main_menu_index(*self)],
    {
        match self {
            MainMenuSelection::Play => "Play".to_string(),
            MainMenuSelection::ModeSelect => "ModeSelect".to_string(),
            MainMenuSelection::Quit => "Quit".to_string(),
        }
    }
}

/// The entries of the mode menu.
#[derive(Copy, Clone, PartialEq, Eq, Structural, Debug)]
pub enum ModeSelectSelection {
    MapDemo,
    RL,
    VillageSim,
    OrcArena,
}

/// The names of the mode menu's entries, in order.
pub open spec fn mode_menu_names() -> Seq<Seq<char>> {
    seq!["MapDemo"@, "RL"@, "VillageSim"@, "OrcArena"@]
}

/// The place of an entry in the mode menu.
pub open spec fn mode_menu_index(s: ModeSelectSelection) -> int {
    match s {
        ModeSelectSelection::MapDemo => 0,
        ModeSelectSelection::RL => 1,
        ModeSelectSelection::VillageSim => 2,
        ModeSelectSelection::OrcArena => 3,
    }
}

impl ModeSelectSelection {
    /// The entry's name as the menu shows it.
    pub fn to_string(&self) -> (r: String)
        ensures
            r@ == mode_menu_names()[mode_menu_index(*self)],
    {
        match self {
            ModeSelectSelection::MapDemo => "MapDemo".to_string(),
            ModeSelectSelection::RL => "RL".to_string(),
            ModeSelectSelection::VillageSim => "VillageSim".to_string(),
            ModeSelectSelection::OrcArena => "OrcArena".to_string(),
        }
    }
}

/// Where the game is.
#[derive(Copy, Clone, PartialEq, Eq, Debug)]
pub enum GameState {
    /// No change (as an answer); never held.
    NoChange,
    /// Before anything happens in a turn.
    PreTurn,
    /// The player has acted.
    PlayerActed,
    /// The systems have run.
    PostTurn,
    MainMenu { selection: MainMenuSelection },
    ModeSelect { selection: ModeSelectSelection },
    ShowMapHistory,
    ShowInventory { selection: usize },
    ShowItemActions { item: EntityId },
    ShowTargeting { range: i32, item: EntityId, target: XY },
    GameOver,
    Exit,
}

/// What a frame's update does besides changing the state.
#[derive(Copy, Clone, PartialEq, Eq, Structural, Debug)]
pub enum UpdateAction {
    Nothing,
    /// Run the simulation's systems.
    RunSystems,
    /// Start the game again with the current settings.
    Reset,
}

/// The outcome of a frame's update.
#[derive(Copy, Clone, PartialEq, Eq, Debug)]
pub struct UpdateStep {
    pub state: GameState,
    pub history_timer: usize,
    pub history_step: usize,
    pub action: UpdateAction,
}

/// The state the game goes to by `set_state`, and the history timer then:
/// entering the map history starts its timer again.
pub open spec fn spec_set_state(state: GameState, timer: usize) -> (GameState, usize) {
    (state, if state == GameState::ShowMapHistory { 0 } else { timer })
}

/// The update of one frame from `state`: before a turn, a dead player ends
/// the game and autorun makes the player act (the later wins); after the
/// player acted, the systems run and the turn ends; after a turn, the next
/// begins; the map history advances a step every five frames and gives way
/// to the game once it is `history_len + 20` steps in, or at once when
/// `skip_history`; after game over, the game starts again (in the map
/// history, whose timer keeps running). Other states stay.
pub open spec fn spec_update_step(
    state: GameState,
    player_dead: bool,
    autorun: bool,
    timer: usize,
    step: usize,
    history_len: usize,
    skip_history: bool,
) -> UpdateStep {
    match state {
        GameState::PreTurn => {
            let s1 = if player_dead { spec_set_state(GameState::GameOver, timer) } else { (state, timer) };
            let s2 = if autorun { spec_set_state(GameState::PlayerActed, s1.1) } else { s1 };
            UpdateStep { state: s2.0, history_timer: s2.1, history_step: step, action: UpdateAction::Nothing }
        },
        GameState::PlayerActed => UpdateStep {
            state: GameState::PostTurn,
            history_timer: timer,
            history_step: step,
            action: UpdateAction::RunSystems,
        },
        GameState::PostTurn => UpdateStep {
            state: GameState::PreTurn,
            history_timer: timer,
            history_step: step,
            action: UpdateAction::Nothing,
        },
        GameState::ShowMapHistory => {
            let t = (timer + 1) as usize;
            let st = t / 5;
            UpdateStep {
                state: if st > history_len + 20 || skip_history { GameState::PreTurn } else { state },
                history_timer: t,
                history_step: st,
                action: UpdateAction::Nothing,
            }
        },
        GameState::GameOver => UpdateStep {
            state: GameState::ShowMapHistory,
            history_timer: timer,
            history_step: step,
            action: UpdateAction::Reset,
        },
        _ => UpdateStep { state, history_timer: timer, history_step: step, action: UpdateAction::Nothing },
    }
}

fn set_state(state: GameState, timer: usize) -> (r: (GameState, usize))
    ensures
        r == spec_set_state(state, timer),
{
    match state {
        GameState::ShowMapHistory => (state, 0),
        _ => (state, timer),
    }
}

/// The update of one frame (see `spec_update_step`). `player_dead` tells
/// whether the player has stats with no hit points left; `history_len` is
/// the number of map snapshots; `skip_history` is set when the map history
/// is not shown.
pub fn update_step(
    state: GameState,
    player_dead: bool,
    autorun: bool,
    history_timer: usize,
    history_step: usize,
    history_len: usize,
    skip_history: bool,
) -> (r: UpdateStep)
    requires
        history_timer < usize::MAX,
        history_len + 20 <= usize::MAX,
    ensures
        r == spec_update_step(state, player_dead, autorun, history_timer, history_step, history_len, skip_history),
{
    match state {
        GameState::PreTurn => {
            let mut s = (state, history_timer);
            if player_dead {
                s = set_state(GameState::GameOver, s.1);
            }
            if autorun {
                s = set_state(GameState::PlayerActed, s.1);
            }
            UpdateStep { state: s.0, history_timer: s.1, history_step, action: UpdateAction::Nothing }
        },
        GameState::PlayerActed => UpdateStep {
            state: GameState::PostTurn,
            history_timer,
            history_step,
            action: UpdateAction::RunSystems,
        },
        GameState::PostTurn => UpdateStep { state: GameState::PreTurn, history_timer, history_step, action: UpdateAction::Nothing },
        GameState::ShowMapHistory => {
            let t = history_timer + 1;
            let st = t / 5;
            let next = if st > history_len + 20 || skip_history { GameState::PreTurn } else { state };
            UpdateStep { state: next, history_timer: t, history_step: st, action: UpdateAction::Nothing }
        },
        GameState::GameOver => UpdateStep {
            state: GameState::ShowMapHistory,
            history_timer,
            history_step,
            action: UpdateAction::Reset,
        },
        _ => UpdateStep { state, history_timer, history_step, action: UpdateAction::Nothing },
    }
}

/// The state after the targeting overlay answered `result` while
/// targeting: a cancel goes back before the turn; a selection makes the
/// player act and attaches the use of the item (to the item entity, with
/// the chosen cell); a new target keeps targeting at it; no answer changes
/// nothing. Outside targeting nothing happens.
pub open spec fn spec_after_targeting(
    state: GameState,
    result: RangedTargetResult,
    chosen: Option<Point>,
) -> (GameState, Option<(EntityId, WantsToUseItem)>) {
    match state {
        GameState::ShowTargeting { range, item, target } => match result {
            RangedTargetResult::Cancel => (GameState::PreTurn, None),
            RangedTargetResult::NoResponse => (state, None),
            RangedTargetResult::Selected => (GameState::PlayerActed, Some((item, WantsToUseItem { item, target: chosen }))),
            RangedTargetResult::NewTarget { target: t } => (GameState::ShowTargeting { range, item, target: t }, None),
        },
        _ => (state, None),
    }
}

/// The state after the targeting overlay answered (see `spec_after_targeting`).
pub fn after_targeting(state: GameState, result: RangedTargetResult, chosen: Option<Point>) -> (r: (GameState, Option<(EntityId, WantsToUseItem)>))
    ensures
        r == spec_after_targeting(state, result, chosen),
{
    match state {
        GameState::ShowTargeting { range, item, target } => match result {
            RangedTargetResult::Cancel => (GameState::PreTurn, None),
            RangedTargetResult::NoResponse => (state, None),
            RangedTargetResult::Selected => (GameState::PlayerActed, Some((item, WantsToUseItem { item, target: chosen }))),
            RangedTargetResult::NewTarget { target: t } => (GameState::ShowTargeting { range, item, target: t }, None),
        },
        _ => (state, None),
    }
}

} // verus!
