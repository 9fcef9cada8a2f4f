//! Keyboard input: which command a key gives in each game mode, and the
//! small decisions that commands make about menus and targeting.

use vstd::prelude::*;
use crate::game_modes::GameMode;
use crate::map::EntityId;
use crate::utils::{Point, dir_offset};

verus! {

/// A command of the player.
#[derive(Copy, Clone, PartialEq, Eq, Structural, Debug)]
pub enum InputCommand {
    NoCommand,
    Move { dir: i32 },
    ShowInventory,
    Wait,
    Escape,
    Get,
    Explore,
    RevealMap,
    Fireball,
    UseStairs,
    Pause,
    Apply,
    Drop,
    Reset,
    PrintAIParams,
    ZoomIn,
    ZoomOut,
    Enter,
    Tab,
}

/// The keys that the game reads; every other key is `Other`.
#[derive(Copy, Clone, PartialEq, Eq, Structural, Debug)]
pub enum Key {
    Key1,
    Key2,
    Key3,
    Key4,
    Key5,
    Key6,
    Key7,
    Key8,
    Key9,
    Left,
    Right,
    Up,
    Down,
    F,
    W,
    R,
    P,
    G,
    X,
    I,
    A,
    D,
    Space,
    Return,
    NumpadEnter,
    Escape,
    Equals,
    Minus,
    Tab,
    Other,
}

/// The command a key gives in every mode.
pub open spec fn spec_universal_command(key: Key) -> InputCommand {
    match key {
        Key::Key1 => InputCommand::Move { dir: 1 },
        Key::Key2 => InputCommand::Move { dir: 2 },
        Key::Key3 => InputCommand::Move { dir: 3 },
        Key::Key4 => InputCommand::Move { dir: 4 },
        Key::Key5 => InputCommand::Wait,
        Key::Key6 => InputCommand::Move { dir: 6 },
        Key::Key7 => InputCommand::Move { dir: 7 },
        Key::Key8 => InputCommand::Move { dir: 8 },
        Key::Key9 => InputCommand::Move { dir: 9 },
        Key::Left => InputCommand::Move { dir: 4 },
        Key::Right => InputCommand::Move { dir: 6 },
        Key::Up => InputCommand::Move { dir: 8 },
        Key::Down => InputCommand::Move { dir: 2 },
        Key::F => InputCommand::Fireball,
        Key::W => InputCommand::Wait,
        Key::R => InputCommand::Reset,
        Key::P => InputCommand::PrintAIParams,
        Key::Return => InputCommand::Enter,
        Key::NumpadEnter => InputCommand::Enter,
        Key::Escape => InputCommand::Escape,
        Key::Equals => InputCommand::ZoomIn,
        Key::Minus => InputCommand::ZoomOut,
        Key::Tab => InputCommand::Tab,
        _ => InputCommand::NoCommand,
    }
}

/// The command a key gives only in `mode`.
pub open spec fn spec_mode_command(key: Key, mode: GameMode) -> InputCommand {
    match mode {
        GameMode::RL | GameMode::OrcHalls => match key {
            Key::G => InputCommand::Get,
            Key::X => InputCommand::Explore,
            Key::R => InputCommand::RevealMap,
            Key::I => InputCommand::ShowInventory,
            Key::A => InputCommand::Apply,
            Key::D => InputCommand::Drop,
            Key::Escape => InputCommand::Escape,
            _ => InputCommand::NoCommand,
        },
        GameMode::VillageSim => match key {
            Key::Space => InputCommand::Pause,
            _ => InputCommand::NoCommand,
        },
        _ => InputCommand::NoCommand,
    }
}

/// The command of a key event: nothing for a release or an unknown key; the
/// command the key gives in every mode; failing that, the one it gives in
/// `mode`.
pub open spec fn spec_map_keys(key: Option<Key>, pressed: bool, mode: GameMode) -> InputCommand {
    if !pressed {
        InputCommand::NoCommand
    } else {
        match key {
            None => InputCommand::NoCommand,
            Some(k) => if spec_universal_command(k) != InputCommand::NoCommand {
                spec_universal_command(k)
            } else {
                spec_mode_command(k, mode)
            },
        }
    }
}

/// Command `cmd` is a move whose unit step is `step`.
pub open spec fn moves_by(cmd: InputCommand, step: (int, int)) -> bool {
    cmd matches InputCommand::Move { dir } && dir_offset(dir as usize) == step
}

/// The arrow keys move in their own direction and agree with the numpad:
/// in every mode, pressed or released, an arrow key gives the same command
/// as the digit for its direction (down 2, up 8, left 4, right 6); pressed,
/// down steps to `y + 1`, up to `y - 1`, left to `x - 1` and right to
/// `x + 1`.
pub proof fn law_arrows_agree_with_numpad(pressed: bool, mode: GameMode)
    ensures
        spec_map_keys(Some(Key::Down), pressed, mode) == spec_map_keys(Some(Key::Key2), pressed, mode),
        spec_map_keys(Some(Key::Up), pressed, mode) == spec_map_keys(Some(Key::Key8), pressed, mode),
        spec_map_keys(Some(Key::Left), pressed, mode) == spec_map_keys(Some(Key::Key4), pressed, mode),
        spec_map_keys(Some(Key::Right), pressed, mode) == spec_map_keys(Some(Key::Key6), pressed, mode),
        moves_by(spec_map_keys(Some(Key::Down), true, mode), (0, 1)),
        moves_by(spec_map_keys(Some(Key::Up), true, mode), (0, -1)),
        moves_by(spec_map_keys(Some(Key::Left), true, mode), (-1, 0)),
        moves_by(spec_map_keys(Some(Key::Right), true, mode), (1, 0)),
{
}

fn universal_command(key: Key) -> (r: InputCommand)
    ensures
        r == spec_universal_command(key),
{
    match key {
        Key::Key1 => InputCommand::Move { dir: 1 },
        Key::Key2 => InputCommand::Move { dir: 2 },
        Key::Key3 => InputCommand::Move { dir: 3 },
        Key::Key4 => InputCommand::Move { dir: 4 },
        Key::Key5 => InputCommand::Wait,
        Key::Key6 => InputCommand::Move { dir: 6 },
        Key::Key7 => InputCommand::Move { dir: 7 },
        Key::Key8 => InputCommand::Move { dir: 8 },
        Key::Key9 => InputCommand::Move { dir: 9 },
        Key::Left => InputCommand::Move { dir: 4 },
        Key::Right => InputCommand::Move { dir: 6 },
        Key::Up => InputCommand::Move { dir: 8 },
        Key::Down => InputCommand::Move { dir: 2 },
        Key::F => InputCommand::Fireball,
        Key::W => InputCommand::Wait,
        Key::R => InputCommand::Reset,
        Key::P => InputCommand::PrintAIParams,
        Key::Return => InputCommand::Enter,
        Key::NumpadEnter => InputCommand::Enter,
        Key::Escape => InputCommand::Escape,
        Key::Equals => InputCommand::ZoomIn,
        Key::Minus => InputCommand::ZoomOut,
        Key::Tab => InputCommand::Tab,
        _ => InputCommand::NoCommand,
    }
}

fn mode_command(key: Key, mode: GameMode) -> (r: InputCommand)
    ensures
        r == spec_mode_command(key, mode),
{
    match mode {
        GameMode::RL | GameMode::OrcHalls => match key {
            Key::G => InputCommand::Get,
            Key::X => InputCommand::Explore,
            Key::R => InputCommand::RevealMap,
            Key::I => InputCommand::ShowInventory,
            Key::A => InputCommand::Apply,
            Key::D => InputCommand::Drop,
            Key::Escape => InputCommand::Escape,
            _ => InputCommand::NoCommand,
        },
        GameMode::VillageSim => match key {
            Key::Space => InputCommand::Pause,
            _ => InputCommand::NoCommand,
        },
        _ => InputCommand::NoCommand,
    }
}

/// The command of a key event in `mode`: `key` is the key (`None` when the
/// event names none) and `pressed` tells a press from a release.
pub fn map_keys(key: Option<Key>, pressed: bool, mode: GameMode) -> (r: InputCommand)
    ensures
        r == spec_map_keys(key, pressed, mode),
{
    if !pressed {
        return InputCommand::NoCommand;
    }
    match key {
        None => InputCommand::NoCommand,
        Some(k) => {
            let cmd = universal_command(k);
            if cmd == InputCommand::NoCommand {
                mode_command(k, mode)
            } else {
                cmd
            }
        },
    }
}

/// How a move in direction `dir` moves a menu selection: up (`8`) is `-1`,
/// down (`2`) is `+1`, any other direction leaves it.
pub fn updown(dir: i32) -> (r: i32)
    ensures
        r == (if dir == 8 { -1i32 } else if dir == 2 { 1i32 } else { 0i32 }),
{
    if dir == 8 { -1 } else if dir == 2 { 1 } else { 0 }
}

/// The inventory selection after moving `step` from `selection` in a list of
/// `len` items: moving up past the first item selects index `len` (one past
/// the last), moving down past the last selects the first, and any other
/// move lands on the item it reaches.
pub fn next_inventory_selection(selection: usize, step: i32, len: usize) -> (r: usize)
    requires
        selection <= i32::MAX,
        -1 <= step <= 1,
    ensures
        r == (if selection + step < 0 {
            len as int
        } else if selection + step >= len {
            0
        } else {
            selection + step
        }),
{
    let new_selection: i64 = selection as i64 + step as i64;
    if new_selection < 0 {
        len
    } else if new_selection as u64 >= len as u64 {
        0
    } else {
        new_selection as usize
    }
}

/// Cell `a` lies less than `range` cells from `b`, straight-line distance.
pub open spec fn spec_within_range(a: Point, b: Point, range: int) -> bool {
    let dx = a.x - b.x;
    let dy = a.y - b.y;
    range > 0 && dx * dx + dy * dy < range * range
}

/// Whether cell `a` lies less than `range` cells from `b` (straight-line
/// distance, compared through squares).
pub fn within_range(a: Point, b: Point, range: i32) -> (r: bool)
    ensures
        r == spec_within_range(a, b, range as int),
{
    let dx: i64 = a.x as i64 - b.x as i64;
    let dy: i64 = a.y as i64 - b.y as i64;
    if range <= 0 {
        return false;
    }
    proof {
        assert(0 <= dx * dx <= 0x4_0000_0000_0000_0000int) by (nonlinear_arith)
            requires -0x1_0000_0000 <= dx <= 0x1_0000_0000;
        assert(0 <= dy * dy <= 0x4_0000_0000_0000_0000int) by (nonlinear_arith)
            requires -0x1_0000_0000 <= dy <= 0x1_0000_0000;
        assert(0 <= range * range <= 0x4000_0000_0000_0000int) by (nonlinear_arith)
            requires 0 < range <= 0x8000_0000;
    }
    let d2: i128 = dx as i128 * dx as i128 + dy as i128 * dy as i128;
    let r2: i128 = range as i128 * range as i128;
    d2 < r2
}

/// The state of a scan for the next target: the first target seen (`None`
/// while there is none), whether the current target was passed, and the
/// answer once one is found.
pub open spec fn scan_targets(
    cands: Seq<(EntityId, Vec<Point>)>,
    player: EntityId,
    player_pos: Point,
    range: int,
    current: Point,
) -> (Option<Point>, bool, Option<Point>)
    decreases cands.len(),
{
    if cands.len() == 0 {
        (None, false, None)
    } else {
        let prev = scan_targets(cands.drop_last(), player, player_pos, range, current);
        let (id, ps) = cands.last();
        if prev.2 is Some || id == player || ps@.len() == 0 || !spec_within_range(ps@[0], player_pos, range) {
            prev
        } else {
            let first = if prev.0 is Some { prev.0 } else { Some(ps@[0]) };
            let (found, answer) = scan_cells(ps@, current, prev.1);
            (first, found, if answer { Some(ps@[0]) } else { None })
        }
    }
}

/// Walking the cells `ps` of one candidate with `found` already set or not:
/// whether the current target is passed at the end, and whether a cell came
/// after it (the candidate is then the answer).
pub open spec fn scan_cells(ps: Seq<Point>, current: Point, found: bool) -> (bool, bool)
    decreases ps.len(),
{
    if ps.len() == 0 {
        (found, false)
    } else {
        let (f, a) = scan_cells(ps.drop_last(), current, found);
        if a {
            (f, true)
        } else if f {
            (f, true)
        } else {
            (ps.last() == current, false)
        }
    }
}

/// The target that the tab key selects next.
pub open spec fn spec_next_target(
    cands: Seq<(EntityId, Vec<Point>)>,
    player: EntityId,
    player_pos: Point,
    range: int,
    current: Point,
) -> Point {
    let s = scan_targets(cands, player, player_pos, range, current);
    match s.2 {
        Some(p) => p,
        None => match s.0 {
            Some(p) => p,
            None => Point { x: 0, y: 0 },
        },
    }
}

/// Once a prefix of the candidates has an answer, the whole list has it.
proof fn lemma_scan_answer_stable(
    cands: Seq<(EntityId, Vec<Point>)>,
    player: EntityId,
    player_pos: Point,
    range: int,
    current: Point,
    k: int,
)
    requires
        0 <= k <= cands.len(),
        scan_targets(cands.subrange(0, k), player, player_pos, range, current).2 is Some,
    ensures
        scan_targets(cands, player, player_pos, range, current).2
            == scan_targets(cands.subrange(0, k), player, player_pos, range, current).2,
    decreases cands.len() - k,
{
    if k < cands.len() {
        assert(cands.drop_last().subrange(0, k) =~= cands.subrange(0, k));
        lemma_scan_answer_stable(cands.drop_last(), player, player_pos, range, current, k);
    } else {
        assert(cands.subrange(0, k) =~= cands);
    }
}

/// Walks the cells of one target, `found` telling whether the current
/// target was passed before: whether it is passed at the end, and whether
/// this target is the answer.
fn scan_target_cells(ps: &Vec<Point>, current: Point, found: bool) -> (r: (bool, bool))
    ensures
        r == scan_cells(ps@, current, found),
{
    let mut f = found;
    let mut j: usize = 0;
    while j < ps.len()
        invariant
            j <= ps@.len(),
            scan_cells(ps@.subrange(0, j as int), current, found) == (f, false),
        decreases ps@.len() - j,
    {
        proof {
            assert(ps@.subrange(0, j + 1).drop_last() =~= ps@.subrange(0, j as int));
        }
        if f {
            proof {
                lemma_scan_cells_answer_stable(ps@, current, found, j + 1);
            }
            return (f, true);
        }
        if ps[j] == current {
            f = true;
        }
        j += 1;
    }
    proof {
        assert(ps@.subrange(0, ps@.len() as int) =~= ps@);
    }
    (f, false)
}

proof fn lemma_scan_cells_answer_stable(ps: Seq<Point>, current: Point, found: bool, k: int)
    requires
        0 <= k <= ps.len(),
        scan_cells(ps.subrange(0, k), current, found).1,
    ensures
        scan_cells(ps, current, found) == scan_cells(ps.subrange(0, k), current, found),
    decreases ps.len() - k,
{
    if k < ps.len() {
        assert(ps.drop_last().subrange(0, k) =~= ps.subrange(0, k));
        lemma_scan_cells_answer_stable(ps.drop_last(), current, found, k);
    } else {
        assert(ps.subrange(0, k) =~= ps);
    }
}

/// The target that the tab key selects next. `cands` lists the entities that
/// have stats, with the cells each stands on; those other than the player
/// whose first cell is within `range` of the player are the targets, taken
/// in order. The first target that comes after `current` (a cell of an
/// earlier target) is chosen, by its first cell; when there is none, the
/// first target; when there is no target at all, cell `(0, 0)`.
pub fn next_target(
    cands: &Vec<(EntityId, Vec<Point>)>,
    player: EntityId,
    player_pos: Point,
    range: i32,
    current: Point,
) -> (r: Point)
    ensures
        r == spec_next_target(cands@, player, player_pos, range as int, current),
{
    let mut first: Option<Point> = None;
    let mut found = false;
    let mut i: usize = 0;
    while i < cands.len()
        invariant
            i <= cands@.len(),
            scan_targets(cands@.subrange(0, i as int), player, player_pos, range as int, current) == (first, found, None::<Point>),
        decreases cands@.len() - i,
    {
        proof {
            assert(cands@.subrange(0, i + 1).drop_last() =~= cands@.subrange(0, i as int));
            assert(cands@.subrange(0, i + 1).last() == cands@[i as int]);
        }
        let id = cands[i].0;
        let ps = &cands[i].1;
        if id != player && ps.len() > 0 && within_range(ps[0], player_pos, range) {
            if first.is_none() {
                first = Some(ps[0]);
            }
            let (f, answered) = scan_target_cells(ps, current, found);
            if answered {
                proof {
                    lemma_scan_answer_stable(cands@, player, player_pos, range as int, current, i + 1);
                }
                return ps[0];
            }
            found = f;
        }
        i += 1;
    }
    proof {
        assert(cands@.subrange(0, cands@.len() as int) =~= cands@);
    }
    match first {
        Some(p) => p,
        None => Point { x: 0, y: 0 },
    }
}

} // verus!
