//! Game settings read from the settings file: each entry names its mode, and
//! the entry for the requested mode is chosen.

use vstd::prelude::*;
use crate::game_modes::{GameMode, GameSettings};

verus! {

/// One entry of the settings file, as written there.
#[derive(Debug, Clone)]
pub struct Settings {
    pub mode: String,
    pub mapsize: [i32; 2],
    pub follow_player: bool,
    pub use_player_los: bool,
    pub show_player: bool,
}

/// The entries of the settings file.
#[derive(Debug, Clone)]
pub struct SettingsList {
    pub settings: Vec<Settings>,
}

/// Why no settings could be given.
#[derive(Debug, Clone, Copy, PartialEq, Eq, Structural)]
pub enum ConfigError {
    /// The file holds no entry for the requested mode.
    SettingsNotFound,
}

/// The name a mode has in the settings file.
pub open spec fn spec_mode_name(mode: GameMode) -> Seq<char> {
    match mode {
        GameMode::RL => "roguelike"@,
        GameMode::VillageSim => "village_sim"@,
        GameMode::MapDemo => "map_demo"@,
        GameMode::TestMode => "test_mode"@,
        GameMode::OrcHalls => "orc_halls"@,
        GameMode::OrcArena => "orc_arena"@,
    }
}

/// The mode a name of the settings file stands for; an unknown name means
/// the roguelike mode.
pub open spec fn spec_mode_of(name: Seq<char>) -> GameMode {
    if name == "roguelike"@ {
        GameMode::RL
    } else if name == "village_sim"@ {
        GameMode::VillageSim
    } else if name == "map_demo"@ {
        GameMode::MapDemo
    } else if name == "test_mode"@ {
        GameMode::TestMode
    } else if name == "orc_halls"@ {
        GameMode::OrcHalls
    } else if name == "orc_arena"@ {
        GameMode::OrcArena
    } else {
        GameMode::RL
    }
}

/// The game settings an entry of the settings file describes.
pub open spec fn spec_from_settings(settings: Settings) -> GameSettings {
    GameSettings {
        mode: spec_mode_of(settings.mode@),
        mapsize: (settings.mapsize[0], settings.mapsize[1]),
        follow_player: settings.follow_player,
        use_player_los: settings.use_player_los,
        show_player: settings.show_player,
    }
}

/// Whether two strings hold the same characters.
pub fn str_eq(a: &str, b: &str) -> (r: bool)
    ensures
        r == (a@ == b@),
{
    let n = a.unicode_len();
    if n != b.unicode_len() {
        return false;
    }
    let mut i: usize = 0;
    while i < n
        invariant
            n == a@.len(),
            n == b@.len(),
            i <= n,
            forall|k: int| 0 <= k < i ==> a@[k] == b@[k],
        decreases n - i,
    {
        if a.get_char(i) != b.get_char(i) {
            return false;
        }
        i += 1;
    }
    proof {
        assert(a@ =~= b@);
    }
    true
}

/// The name `mode` has in the settings file.
pub fn mode_name(mode: GameMode) -> (r: &'static str)
    ensures
        r@ == spec_mode_name(mode),
{
    match mode {
        GameMode::RL => "roguelike",
        GameMode::VillageSim => "village_sim",
        GameMode::MapDemo => "map_demo",
        GameMode::TestMode => "test_mode",
        GameMode::OrcHalls => "orc_halls",
        GameMode::OrcArena => "orc_arena",
    }
}

/// The mode named `name` in the settings file; unknown names give the
/// roguelike mode.
pub fn mode_of(name: &str) -> (r: GameMode)
    ensures
        r == spec_mode_of(name@),
{
    if str_eq(name, "roguelike") {
        GameMode::RL
    } else if str_eq(name, "village_sim") {
        GameMode::VillageSim
    } else if str_eq(name, "map_demo") {
        GameMode::MapDemo
    } else if str_eq(name, "test_mode") {
        GameMode::TestMode
    } else if str_eq(name, "orc_halls") {
        GameMode::OrcHalls
    } else if str_eq(name, "orc_arena") {
        GameMode::OrcArena
    } else {
        GameMode::RL
    }
}

/// The game settings an entry of the settings file describes.
fn settings_of(settings: &Settings) -> (r: GameSettings)
    ensures
        r == spec_from_settings(*settings),
{
    GameSettings {
        mode: mode_of(settings.mode.as_str()),
        mapsize: (settings.mapsize[0], settings.mapsize[1]),
        follow_player: settings.follow_player,
        use_player_los: settings.use_player_los,
        show_player: settings.show_player,
    }
}

impl From<Settings> for GameSettings {
    fn from(settings: Settings) -> (r: Self) {
        settings_of(&settings)
    }
}

impl vstd::std_specs::convert::FromSpecImpl<Settings> for GameSettings {
    open spec fn obeys_from_spec() -> bool {
        true
    }

    open spec fn from_spec(settings: Settings) -> Self {
        spec_from_settings(settings)
    }
}

/// The index of the first entry named after `mode`, if any.
pub open spec fn spec_first_entry(list: Seq<Settings>, name: Seq<char>) -> Option<int>
    decreases list.len(),
{
    if list.len() == 0 {
        None
    } else {
        match spec_first_entry(list.drop_last(), name) {
            Some(i) => Some(i),
            None => if list.last().mode@ == name {
                Some(list.len() - 1)
            } else {
                None
            },
        }
    }
}

/// The settings of `mode` from the entries of the settings file: the first
/// entry named after the mode, or `SettingsNotFound` when none is.
pub fn get_config(mode: GameMode, settings: &SettingsList) -> (r: Result<GameSettings, ConfigError>)
    ensures
        match spec_first_entry(settings.settings@, spec_mode_name(mode)) {
            Some(i) => r == Ok::<GameSettings, ConfigError>(spec_from_settings(settings.settings@[i])),
            None => r == Err::<GameSettings, ConfigError>(ConfigError::SettingsNotFound),
        },
{
    let env = mode_name(mode);
    let mut i: usize = 0;
    while i < settings.settings.len()
        invariant
            i <= settings.settings@.len(),
            env@ == spec_mode_name(mode),
            spec_first_entry(settings.settings@.take(i as int), env@) is None,
        decreases settings.settings@.len() - i,
    {
        let s = &settings.settings[i];
        proof {
            assert(settings.settings@.take(i + 1).drop_last() == settings.settings@.take(i as int));
        }
        if str_eq(s.mode.as_str(), env) {
            proof {
                lemma_first_entry_prefix(settings.settings@, env@, i as int + 1);
            }
            return Ok(settings_of(s));
        }
        i += 1;
    }
    proof {
        assert(settings.settings@.take(settings.settings@.len() as int) == settings.settings@);
    }
    Err(ConfigError::SettingsNotFound)
}

proof fn lemma_first_entry_prefix(list: Seq<Settings>, name: Seq<char>, n: int)
    requires
        0 < n <= list.len(),
        spec_first_entry(list.take(n - 1), name) is None,
        list[n - 1].mode@ == name,
    ensures
        spec_first_entry(list, name) == Some(n - 1),
    decreases list.len(),
{
    assert(list.take(n).drop_last() == list.take(n - 1));
    if n < list.len() {
        assert(list.drop_last().take(n - 1) == list.take(n - 1));
        assert(list.drop_last().take(n) == list.take(n));
        lemma_first_entry_prefix(list.drop_last(), name, n);
    } else {
        assert(list.take(n) == list);
    }
}

} // verus!
