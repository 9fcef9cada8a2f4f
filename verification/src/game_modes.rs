//! The game modes and the fixed settings each one starts with.

use vstd::prelude::*;
use crate::utils::XY;

verus! {

/// Settings of one game: mode, map size, and camera and visibility options.
#[derive(Copy, Clone, PartialEq, Eq, Debug)]
pub struct GameSettings {
    pub mode: GameMode,
    pub mapsize: XY,
    pub follow_player: bool,
    pub use_player_los: bool,
    pub show_player: bool,
}

/// The kinds of game the engine runs.
#[derive(Copy, Clone, PartialEq, Eq, Structural, Debug)]
pub enum GameMode {
    TestMode,
    RL,
    VillageSim,
    OrcHalls,
    MapDemo,
    OrcArena,
}

/// The built-in settings of each mode.
pub open spec fn spec_settings(mode: GameMode) -> GameSettings {
    match mode {
        GameMode::VillageSim => GameSettings {
            mode,
            mapsize: (200, 80),
            follow_player: false,
            use_player_los: false,
            show_player: false,
        },
        GameMode::RL => GameSettings {
            mode,
            mapsize: (70, 40),
            follow_player: false,
            use_player_los: false,
            show_player: true,
        },
        GameMode::OrcHalls => GameSettings {
            mode,
            mapsize: (80, 40),
            follow_player: true,
            use_player_los: false,
            show_player: true,
        },
        GameMode::MapDemo => GameSettings {
            mode,
            mapsize: (160, 80),
            follow_player: false,
            use_player_los: false,
            show_player: false,
        },
        GameMode::OrcArena => GameSettings {
            mode,
            mapsize: (160, 80),
            follow_player: false,
            use_player_los: false,
            show_player: false,
        },
        GameMode::TestMode => GameSettings {
            mode,
            mapsize: (160, 80),
            follow_player: false,
            use_player_los: false,
            show_player: true,
        },
    }
}

/// The built-in settings of `mode`.
pub fn get_settings(mode: GameMode) -> (r: GameSettings)
    ensures
        r == spec_settings(mode),
        r.mode == mode,
{
    match mode {
        GameMode::VillageSim => GameSettings {
            mode,
            mapsize: (200, 80),
            follow_player: false,
            use_player_los: false,
            show_player: false,
        },
        GameMode::RL => GameSettings {
            mode,
            mapsize: (70, 40),
            follow_player: false,
            use_player_los: false,
            show_player: true,
        },
        GameMode::OrcHalls => GameSettings {
            mode,
            mapsize: (80, 40),
            follow_player: true,
            use_player_los: false,
            show_player: true,
        },
        GameMode::MapDemo => GameSettings {
            mode,
            mapsize: (160, 80),
            follow_player: false,
            use_player_los: false,
            show_player: false,
        },
        GameMode::OrcArena => GameSettings {
            mode,
            mapsize: (160, 80),
            follow_player: false,
            use_player_los: false,
            show_player: false,
        },
        GameMode::TestMode => GameSettings {
            mode,
            mapsize: (160, 80),
            follow_player: false,
            use_player_los: false,
            show_player: true,
        },
    }
}

/// Every mode's built-in settings name that mode and describe a map with
/// positive width and height.
pub proof fn law_settings_describe_their_mode(mode: GameMode)
    ensures
        spec_settings(mode).mode == mode,
        spec_settings(mode).mapsize.0 > 0,
        spec_settings(mode).mapsize.1 > 0,
{
}

} // verus!
