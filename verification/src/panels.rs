//! The text panels of the interface (the menus, the player's stats, the
//! item actions and the inventory), laid out as glyphs.

use vstd::prelude::*;
use crate::colors::{Color, COLOR_BG, COLOR_FIRE, COLOR_UI_1, COLOR_UI_2, COLOR_UI_3};
use crate::components::{Equipment, EquipmentSlot, OnFire, PhysicalStats, Turn, slot_at};
use crate::console::{Console, Glyph, box_fits, box_steps, line_glyphs, spec_box_glyphs};
use crate::cp437::{spec_to_cp437, to_cp437};
use crate::game::{GameState, MainMenuSelection, ModeSelectSelection, main_menu_index, main_menu_names, mode_menu_index, mode_menu_names};
use crate::map::EntityId;
use crate::utils::{XY, fits_i32};

verus! {

/// A line of `len` glyphs of `g` pixels from `x` stays within `i32`.
pub open spec fn row_fits(x: int, g: int, len: int) -> bool {
    g > 0 && x >= 0 && len >= 0 && x + len * g <= i32::MAX
}

/// Each glyph of a line that fits has a position within `i32`.
pub(crate) proof fn lemma_row_fits(x: int, g: int, len: int)
    requires
        row_fits(x, g, len),
    ensures
        len <= i32::MAX,
        forall|i: int| 0 <= i < len ==> #[trigger] fits_i32(i * g) && fits_i32(x + i * g),
{
    assert(len <= len * g) by (nonlinear_arith) requires len >= 0, g > 0;
    assert forall|i: int| 0 <= i < len implies #[trigger] fits_i32(i * g) && fits_i32(x + i * g) by {
        assert(0 <= i * g <= len * g) by (nonlinear_arith) requires 0 <= i <= len, g > 0;
    }
}

/// Row `j` of `rows` below `y` lies within `i32` when the last one does.
pub(crate) proof fn lemma_row_y(y: int, g: int, rows: int, j: int)
    requires
        g > 0,
        y >= 0,
        0 <= j <= rows,
        y + rows * g <= i32::MAX,
    ensures
        0 <= j * g <= rows * g,
        fits_i32(y + j * g),
{
    assert(0 <= j * g <= rows * g) by (nonlinear_arith) requires 0 <= j <= rows, g > 0;
}

/// The glyphs of the first `k` of `lines`, each with its colour, one per
/// text row from `(x, y)` down.
pub open spec fn rows_glyphs(lines: Seq<(Seq<char>, Color)>, x: int, y: int, g: i32, k: int) -> Seq<Glyph>
    decreases k,
{
    if k <= 0 {
        Seq::empty()
    } else {
        rows_glyphs(lines, x, y, g, k - 1) + line_glyphs(lines[k - 1].0, (x as i32, (y + (k - 1) * g) as i32), lines[k - 1].1, g)
    }
}

/// Menu entries, the selected one highlighted.
pub open spec fn menu_lines(entries: Seq<Seq<char>>, sel: int) -> Seq<(Seq<char>, Color)> {
    Seq::new(entries.len(), |i: int| (entries[i], if i == sel { COLOR_UI_3 } else { COLOR_UI_2 }))
}

/// The glyphs of a menu on console `c`: an untitled box over the whole
/// console, `title` three glyphs in and two down, and the entries one per
/// row from two rows below the title, the selected one highlighted.
pub open spec fn menu_glyphs(c: Console, title: Seq<char>, entries: Seq<Seq<char>>, sel: int) -> Seq<Glyph> {
    let g = c.gsize;
    let x = c.pos.0 + 3 * g;
    let y = c.pos.1 + 2 * g;
    spec_box_glyphs(c.pos, c.size, COLOR_UI_1, COLOR_BG, g, Seq::empty(), box_steps(c.size.0 as int, g as int))
        + line_glyphs(title, (x as i32, y as i32), COLOR_UI_2, g)
        + rows_glyphs(menu_lines(entries, sel), x, y + 2 * g, g, entries.len() as int)
}

/// A menu of `title` and `entries` fits console `c`.
pub open spec fn menu_fits(c: Console, title: Seq<char>, entries: Seq<Seq<char>>) -> bool {
    let g = c.gsize as int;
    let x = c.pos.0 + 3 * g;
    let y = c.pos.1 + 2 * g;
    &&& g > 0
    &&& c.pos.0 >= 0 && c.pos.1 >= 0
    &&& box_fits(c.pos, c.size, c.gsize, 0)
    &&& row_fits(x, g, title.len() as int)
    &&& forall|i: int| 0 <= i < entries.len() ==> row_fits(x, g, (#[trigger] entries[i]).len() as int)
    &&& y + (entries.len() + 2) * g <= i32::MAX
}

impl Console {
    /// Draws a menu (see `menu_glyphs`).
    fn render_menu(&self, frame: &mut Vec<Glyph>, title: &str, entries: &Vec<String>, sel: usize)
        requires
            menu_fits(*self, title@, entries@.map_values(|s: String| s@)),
        ensures
            final(frame)@ == old(frame)@ + menu_glyphs(*self, title@, entries@.map_values(|s: String| s@), sel as int),
    {
        let ghost names = entries@.map_values(|s: String| s@);
        let ghost lines = menu_lines(names, sel as int);
        let g = self.gsize;
        let no_title = String::new();
        proof {
            assert(no_title@.map_values(|c: char| spec_to_cp437(c) as usize) =~= Seq::<usize>::empty());
            assert(0 <= 3 * g && 0 <= 2 * g);
            lemma_row_y(self.pos.1 + 2 * g, g as int, names.len() as int + 2, 2);
        }
        self.draw_box(frame, self.pos, self.size, COLOR_UI_1, COLOR_BG, g, no_title);
        let x = self.pos.0 + 3 * g;
        let y = self.pos.1 + 2 * g;
        proof {
            lemma_row_fits(x as int, g as int, title@.len() as int);
        }
        self.print_string(frame, title, (x, y), COLOR_UI_2, g);
        let ghost start = frame@;
        let mut i: usize = 0;
        let mut yy: i32 = y + 2 * g;
        while i < entries.len()
            invariant
                i <= entries@.len(),
                names == entries@.map_values(|s: String| s@),
                lines == menu_lines(names, sel as int),
                g == self.gsize,
                x == self.pos.0 + 3 * g,
                y == self.pos.1 + 2 * g,
                menu_fits(*self, title@, names),
                yy == y + 2 * g + i * g,
                frame@ == start + rows_glyphs(lines, x as int, y + 2 * g, g, i as int),
            decreases entries@.len() - i,
        {
            proof {
                assert(row_fits(x as int, g as int, names[i as int].len() as int));
                lemma_row_fits(x as int, g as int, names[i as int].len() as int);
                assert(y + 2 * g + names.len() * g <= i32::MAX) by (nonlinear_arith)
                    requires y + (names.len() + 2) * g <= i32::MAX;
                lemma_row_y(y + 2 * g, g as int, names.len() as int, i + 1);
                assert((i + 1) * g == i * g + g) by (nonlinear_arith);
            }
            let color = if i == sel { COLOR_UI_3 } else { COLOR_UI_2 };
            self.print_string(frame, entries[i].as_str(), (x, yy), color, g);
            proof {
                assert(lines[i as int] == (names[i as int], color));
                assert(frame@ =~= start + rows_glyphs(lines, x as int, y + 2 * g, g, i + 1));
            }
            yy = yy + g;
            i += 1;
        }
    }
}

impl Console {
    /// Draws the main menu while the game is in it: a box, the title "Main
    /// Menu" and the entries, the selected one highlighted (see
    /// `menu_glyphs`). In any other state nothing is drawn.
    pub fn render_main_menu(&self, frame: &mut Vec<Glyph>, state: GameState)
        requires
            menu_fits(*self, "Main Menu"@, main_menu_names()),
        ensures
            match state {
                GameState::MainMenu { selection } => final(frame)@ == old(frame)@ + menu_glyphs(
                    *self,
                    "Main Menu"@,
                    main_menu_names(),
                    main_menu_index(selection),
                ),
                _ => final(frame)@ == old(frame)@,
            },
    {
        if let GameState::MainMenu { selection } = state {
            let mut entries: Vec<String> = Vec::new();
            entries.push(MainMenuSelection::Play.to_string());
            entries.push(MainMenuSelection::ModeSelect.to_string());
            entries.push(MainMenuSelection::Quit.to_string());
            let sel: usize = match selection {
                MainMenuSelection::Play => 0,
                MainMenuSelection::ModeSelect => 1,
                MainMenuSelection::Quit => 2,
            };
            proof {
                assert(entries@.map_values(|s: String| s@) =~= main_menu_names());
            }
            self.render_menu(frame, "Main Menu", &entries, sel);
        }
    }

    /// Draws the mode menu while the game is in it: a box, the title
    /// "Select Game Mode" and the modes, the selected one highlighted (see
    /// `menu_glyphs`). In any other state nothing is drawn.
    pub fn render_mode_select(&self, frame: &mut Vec<Glyph>, state: GameState)
        requires
            menu_fits(*self, "Select Game Mode"@, mode_menu_names()),
        ensures
            match state {
                GameState::ModeSelect { selection } => final(frame)@ == old(frame)@ + menu_glyphs(
                    *self,
                    "Select Game Mode"@,
                    mode_menu_names(),
                    mode_menu_index(selection),
                ),
                _ => final(frame)@ == old(frame)@,
            },
    {
        if let GameState::ModeSelect { selection } = state {
            let mut entries: Vec<String> = Vec::new();
            entries.push(ModeSelectSelection::MapDemo.to_string());
            entries.push(ModeSelectSelection::RL.to_string());
            entries.push(ModeSelectSelection::VillageSim.to_string());
            entries.push(ModeSelectSelection::OrcArena.to_string());
            let sel: usize = match selection {
                ModeSelectSelection::MapDemo => 0,
                ModeSelectSelection::RL => 1,
                ModeSelectSelection::VillageSim => 2,
                ModeSelectSelection::OrcArena => 3,
            };
            proof {
                assert(entries@.map_values(|s: String| s@) =~= mode_menu_names());
            }
            self.render_menu(frame, "Select Game Mode", &entries, sel);
        }
    }
}

/// The character of a decimal digit.
pub open spec fn digit_char(d: int) -> char {
    if d == 0 {
        '0'
    } else if d == 1 {
        '1'
    } else if d == 2 {
        '2'
    } else if d == 3 {
        '3'
    } else if d == 4 {
        '4'
    } else if d == 5 {
        '5'
    } else if d == 6 {
        '6'
    } else if d == 7 {
        '7'
    } else if d == 8 {
        '8'
    } else {
        '9'
    }
}

/// The decimal digits of `m`, most significant first.
pub open spec fn digits(m: nat) -> Seq<char>
    decreases m,
{
    if m < 10 {
        seq![digit_char(m as int)]
    } else {
        digits(m / 10).push(digit_char((m % 10) as int))
    }
}

/// `n` written in decimal, with a leading minus sign when negative.
pub open spec fn decimal(n: int) -> Seq<char> {
    if n < 0 {
        seq!['-'] + digits((-n) as nat)
    } else {
        digits(n as nat)
    }
}

/// Ten to the power `k`.
pub open spec fn ten_pow(k: nat) -> nat
    decreases k,
{
    if k == 0 {
        1
    } else {
        10 * ten_pow((k - 1) as nat)
    }
}

/// A number below `10^k` has at most `k` digits.
proof fn lemma_digits_len(m: nat, k: nat)
    requires
        k >= 1,
        m < ten_pow(k),
    ensures
        digits(m).len() <= k,
    decreases m,
{
    if m >= 10 {
        assert(k >= 2) by {
            if k == 1 {
                assert(ten_pow(1) == 10) by {
                    reveal_with_fuel(ten_pow, 2);
                }
            }
        }
        assert(m / 10 < ten_pow((k - 1) as nat));
        lemma_digits_len(m / 10, (k - 1) as nat);
    }
}

/// An `i32` is at most eleven characters long in decimal.
proof fn lemma_decimal_len(n: i32)
    ensures
        decimal(n as int).len() <= 11,
{
    assert(ten_pow(10) == 10000000000) by {
        reveal_with_fuel(ten_pow, 11);
    }
    if n < 0 {
        lemma_digits_len((-n) as nat, 10);
    } else {
        lemma_digits_len(n as nat, 10);
    }
}

/// The character of digit `d`.
fn digit(d: u64) -> (r: char)
    requires
        d < 10,
    ensures
        r == digit_char(d as int),
{
    match d {
        0 => '0',
        1 => '1',
        2 => '2',
        3 => '3',
        4 => '4',
        5 => '5',
        6 => '6',
        7 => '7',
        8 => '8',
        _ => '9',
    }
}

/// Appends the decimal digits of `m`.
pub(crate) fn push_digits(out: &mut Vec<char>, m: u64)
    ensures
        final(out)@ == old(out)@ + digits(m as nat),
    decreases m,
{
    if m >= 10 {
        push_digits(out, m / 10);
    }
    out.push(digit(m % 10));
    proof {
        if m >= 10 {
            assert(digits(m as nat) == digits((m / 10) as nat).push(digit_char((m % 10) as int)));
        }
        assert(out@ =~= old(out)@ + digits(m as nat));
    }
}

/// Appends `n` in decimal (see `decimal`).
pub(crate) fn push_decimal(out: &mut Vec<char>, n: i32)
    ensures
        final(out)@ == old(out)@ + decimal(n as int),
{
    if n < 0 {
        out.push('-');
        let m: u64 = (-(n as i64)) as u64;
        push_digits(out, m);
        proof {
            assert(out@ =~= old(out)@ + decimal(n as int));
        }
    } else {
        push_digits(out, n as u64);
    }
}

/// Appends the characters of `s`.
pub(crate) fn push_str(out: &mut Vec<char>, s: &str)
    ensures
        final(out)@ == old(out)@ + s@,
{
    let n = s.unicode_len();
    let mut i: usize = 0;
    while i < n
        invariant
            n == s@.len(),
            i <= n,
            out@ == old(out)@ + s@.take(i as int),
        decreases n - i,
    {
        out.push(s.get_char(i));
        proof {
            assert(s@.take(i + 1) =~= s@.take(i as int).push(s@[i as int]));
            assert(out@ =~= old(out)@ + s@.take(i + 1));
        }
        i += 1;
    }
    proof {
        assert(s@.take(n as int) =~= s@);
    }
}

impl Console {
    /// Queues the glyphs of `chars` in `color` from `pos`, as `print_string`
    /// does for the characters of a string.
    pub(crate) fn print_chars(&self, frame: &mut Vec<Glyph>, chars: &Vec<char>, pos: XY, color: Color, g: i32)
        requires
            chars@.len() <= i32::MAX,
            forall|i: int| 0 <= i < chars@.len() ==> #[trigger] fits_i32(i * g) && fits_i32(pos.0 + i * g),
        ensures
            final(frame)@ == old(frame)@ + line_glyphs(chars@, pos, color, g),
    {
        let ghost start = frame@;
        let mut i: usize = 0;
        while i < chars.len()
            invariant
                i <= chars@.len(),
                chars@.len() <= i32::MAX,
                forall|k: int| 0 <= k < chars@.len() ==> #[trigger] fits_i32(k * g) && fits_i32(pos.0 + k * g),
                frame@ == start + line_glyphs(chars@.take(i as int), pos, color, g),
            decreases chars@.len() - i,
        {
            proof {
                assert(fits_i32(i * g) && fits_i32(pos.0 + i * g));
            }
            let x = pos.0 + i as i32 * g;
            frame.push(Glyph { pos: (x, pos.1), ch: to_cp437(chars[i]), fg: color, bg: COLOR_BG, gsize: g });
            proof {
                assert(frame@ =~= start + line_glyphs(chars@.take(i + 1), pos, color, g));
            }
            i += 1;
        }
        proof {
            assert(chars@.take(chars@.len() as int) =~= chars@);
        }
    }
}

/// The glyphs of a titled box over the whole console `c`.
pub open spec fn panel_box(c: Console, title: Seq<char>) -> Seq<Glyph> {
    spec_box_glyphs(
        c.pos,
        c.size,
        COLOR_UI_1,
        COLOR_BG,
        c.gsize,
        title.map_values(|ch: char| spec_to_cp437(ch) as usize),
        box_steps(c.size.0 as int, c.gsize as int),
    )
}

/// The glyphs of `text` on text row `row` of console `c`, one glyph in.
pub open spec fn panel_line(c: Console, text: Seq<char>, row: int, color: Color) -> Seq<Glyph> {
    line_glyphs(text, ((c.pos.0 + c.gsize) as i32, (c.pos.1 + row * c.gsize) as i32), color, c.gsize)
}

/// A panel of console `c` titled `title_len` characters, with lines of at
/// most `cols` characters on rows up to `rows`, fits `i32`.
pub open spec fn panel_fits(c: Console, title_len: int, cols: int, rows: int) -> bool {
    &&& c.gsize > 0
    &&& c.pos.0 >= 0 && c.pos.1 >= 0
    &&& box_fits(c.pos, c.size, c.gsize, title_len)
    &&& row_fits(c.pos.0 + c.gsize, c.gsize as int, cols)
    &&& rows >= 0 && c.pos.1 + rows * c.gsize <= i32::MAX
}

/// Lines of at most `cols` characters on text rows up to `rows` of console
/// `c`, one glyph in from its left edge, fit `i32`.
pub open spec fn lines_fit(c: Console, cols: int, rows: int) -> bool {
    &&& c.gsize > 0
    &&& c.pos.0 >= 0 && c.pos.1 >= 0
    &&& row_fits(c.pos.0 + c.gsize, c.gsize as int, cols)
    &&& rows >= 0 && c.pos.1 + rows * c.gsize <= i32::MAX
}

/// The glyphs of the stats panel: a box titled "Stats"; on the first row
/// the turn (in the fire colour), if there is one; on the second the
/// player's hit points out of the most, if it has stats; then, on the next
/// row, the turns it keeps burning, if it is on fire (in the fire colour).
pub open spec fn info_glyphs(c: Console, turn: Option<Turn>, stats: Option<PhysicalStats>, fire: Option<OnFire>) -> Seq<Glyph> {
    panel_box(c, "Stats"@)
        + match turn {
            Some(t) => panel_line(c, "Turn: "@ + decimal(t.0 as int), 1, COLOR_FIRE),
            None => Seq::empty(),
        }
        + match stats {
            Some(s) => panel_line(c, "HP: "@ + decimal(s.hp as int) + "/"@ + decimal(s.max_hp as int), 2, COLOR_UI_2),
            None => Seq::empty(),
        }
        + match fire {
            Some(f) => panel_line(c, "FIRE "@ + decimal(f.turns as int), if stats is Some { 3 } else { 2 }, COLOR_FIRE),
            None => Seq::empty(),
        }
}

impl Console {
    /// Prints `chars` on text row `row`, one glyph in from the left edge.
    pub(crate) fn print_line(&self, frame: &mut Vec<Glyph>, chars: &Vec<char>, row: i32, color: Color, cols: Ghost<int>, rows: Ghost<int>)
        requires
            lines_fit(*self, cols@, rows@),
            0 <= row <= rows@,
            chars@.len() <= cols@,
        ensures
            final(frame)@ == old(frame)@ + panel_line(*self, chars@, row as int, color),
    {
        let g = self.gsize;
        proof {
            assert(chars@.len() * g <= cols@ * g) by (nonlinear_arith)
                requires chars@.len() <= cols@, g > 0;
            lemma_row_fits(self.pos.0 + g, g as int, chars@.len() as int);
            lemma_row_y(self.pos.1 as int, g as int, rows@, row as int);
        }
        self.print_chars(frame, chars, (self.pos.0 + g, self.pos.1 + row * g), color, g);
    }

    /// Draws the player's stats (see `info_glyphs`): the turn, if known,
    /// and the player's hit points and burning turns, if it has them.
    pub fn render_info(&self, frame: &mut Vec<Glyph>, turn: Option<Turn>, stats: Option<PhysicalStats>, fire: Option<OnFire>)
        requires
            panel_fits(*self, 5, 27, 3),
        ensures
            final(frame)@ == old(frame)@ + info_glyphs(*self, turn, stats, fire),
    {
        proof {
            reveal_strlit("Stats");
            reveal_strlit("Turn: ");
            reveal_strlit("HP: ");
            reveal_strlit("/");
            reveal_strlit("FIRE ");
        }
        let cols: Ghost<int> = Ghost(27);
        let rows: Ghost<int> = Ghost(3);
        let title = String::from_str("Stats");
        self.draw_box(frame, self.pos, self.size, COLOR_UI_1, COLOR_BG, self.gsize, title);
        let ghost boxed = frame@;
        let mut y: i32 = 1;
        if let Some(t) = turn {
            let mut line: Vec<char> = Vec::new();
            push_str(&mut line, "Turn: ");
            push_decimal(&mut line, t.0);
            proof {
                lemma_decimal_len(t.0);
            }
            self.print_line(frame, &line, y, COLOR_FIRE, cols, rows);
        }
        let ghost turned = frame@;
        y += 1;
        if let Some(st) = stats {
            let mut line: Vec<char> = Vec::new();
            push_str(&mut line, "HP: ");
            push_decimal(&mut line, st.hp);
            push_str(&mut line, "/");
            push_decimal(&mut line, st.max_hp);
            proof {
                lemma_decimal_len(st.hp);
                lemma_decimal_len(st.max_hp);
            }
            self.print_line(frame, &line, y, COLOR_UI_2, cols, rows);
            y += 1;
        }
        let ghost statted = frame@;
        if let Some(f) = fire {
            let mut line: Vec<char> = Vec::new();
            push_str(&mut line, "FIRE ");
            push_decimal(&mut line, f.turns);
            proof {
                lemma_decimal_len(f.turns);
            }
            self.print_line(frame, &line, y, COLOR_FIRE, cols, rows);
        }
        proof {
            assert(frame@ =~= old(frame)@ + info_glyphs(*self, turn, stats, fire));
        }
    }
}

/// The name listed first for `e`.
pub open spec fn spec_name_of(names: Seq<(EntityId, String)>, e: EntityId) -> Option<Seq<char>>
    decreases names.len(),
{
    if names.len() == 0 {
        None
    } else if names[0].0 == e {
        Some(names[0].1@)
    } else {
        spec_name_of(names.drop_first(), e)
    }
}

/// Where the name of `e` is listed first.
fn name_index(names: &Vec<(EntityId, String)>, e: EntityId) -> (r: Option<usize>)
    ensures
        match r {
            Some(i) => i < names@.len() && spec_name_of(names@, e) == Some(names@[i as int].1@),
            None => spec_name_of(names@, e) is None,
        },
{
    let mut i: usize = 0;
    proof {
        assert(names@.skip(0) =~= names@);
    }
    while i < names.len()
        invariant
            i <= names@.len(),
            spec_name_of(names@, e) == spec_name_of(names@.skip(i as int), e),
        decreases names@.len() - i,
    {
        proof {
            assert(names@.skip(i as int).drop_first() =~= names@.skip(i + 1));
            assert(names@.skip(i as int)[0] == names@[i as int]);
        }
        if names[i].0 == e {
            return Some(i);
        }
        i += 1;
    }
    None
}

/// The glyphs of the item panel while an item's actions are shown: when
/// the item has a name, a box titled "Item Info", the name on the first
/// row, then from the third row "(a) - Apply" if it can be consumed and
/// "(e) - Equip" if it can be worn. Otherwise nothing.
pub open spec fn item_info_glyphs(
    c: Console,
    state: GameState,
    names: Seq<(EntityId, String)>,
    consumables: Seq<EntityId>,
    equippables: Seq<EntityId>,
) -> Seq<Glyph> {
    match state {
        GameState::ShowItemActions { item } => match spec_name_of(names, item) {
            Some(n) => panel_box(c, "Item Info"@) + panel_line(c, n, 1, COLOR_UI_2)
                + (if consumables.contains(item) { panel_line(c, "(a) - Apply"@, 3, COLOR_UI_2) } else { Seq::empty() })
                + (if equippables.contains(item) {
                    panel_line(c, "(e) - Equip"@, if consumables.contains(item) { 4 } else { 3 }, COLOR_UI_2)
                } else {
                    Seq::empty()
                }),
            None => Seq::empty(),
        },
        _ => Seq::empty(),
    }
}

impl Console {
    /// Draws the actions of the item being looked at (see
    /// `item_info_glyphs`), given the entities' names and which entities
    /// can be consumed or worn.
    pub fn render_item_info(
        &self,
        frame: &mut Vec<Glyph>,
        state: GameState,
        names: &Vec<(EntityId, String)>,
        consumables: &Vec<EntityId>,
        equippables: &Vec<EntityId>,
    )
        requires
            panel_fits(*self, 9, 11, 4),
            forall|i: int| 0 <= i < names@.len() ==> row_fits(self.pos.0 + self.gsize, self.gsize as int, (#[trigger] names@[i]).1@.len() as int),
        ensures
            final(frame)@ == old(frame)@ + item_info_glyphs(*self, state, names@, consumables@, equippables@),
    {
        proof {
            reveal_strlit("Item Info");
            reveal_strlit("(a) - Apply");
            reveal_strlit("(e) - Equip");
        }
        if let GameState::ShowItemActions { item } = state {
            if let Some(i) = name_index(names, item) {
                let title = String::from_str("Item Info");
                self.draw_box(frame, self.pos, self.size, COLOR_UI_1, COLOR_BG, self.gsize, title);
                let mut line: Vec<char> = Vec::new();
                push_str(&mut line, names[i].1.as_str());
                proof {
                    assert(row_fits(self.pos.0 + self.gsize, self.gsize as int, names@[i as int].1@.len() as int));
                }
                self.print_line(frame, &line, 1, COLOR_UI_2, Ghost(line@.len() as int), Ghost(4));
                let mut y: i32 = 3;
                let consumable = crate::components::contains_id(consumables, item);
                if consumable {
                    let mut apply: Vec<char> = Vec::new();
                    push_str(&mut apply, "(a) - Apply");
                    self.print_line(frame, &apply, y, COLOR_UI_2, Ghost(11), Ghost(4));
                    y += 1;
                }
                if crate::components::contains_id(equippables, item) {
                    let mut equip: Vec<char> = Vec::new();
                    push_str(&mut equip, "(e) - Equip");
                    self.print_line(frame, &equip, y, COLOR_UI_2, Ghost(11), Ghost(4));
                }
            }
        }
        proof {
            assert(frame@ =~= old(frame)@ + item_info_glyphs(*self, state, names@, consumables@, equippables@));
        }
    }
}

/// The name a slot is listed under.
pub open spec fn slot_name(s: EquipmentSlot) -> Seq<char> {
    match s {
        EquipmentSlot::LeftHand => "LeftHand"@,
        EquipmentSlot::RightHand => "RightHand"@,
        EquipmentSlot::Torso => "Torso"@,
        EquipmentSlot::Head => "Head"@,
        EquipmentSlot::Legs => "Legs"@,
        EquipmentSlot::Feet => "Feet"@,
        EquipmentSlot::Back => "Back"@,
    }
}

/// The name a slot is listed under.
fn slot_text(s: EquipmentSlot) -> (r: &'static str)
    ensures
        r@ == slot_name(s),
{
    match s {
        EquipmentSlot::LeftHand => "LeftHand",
        EquipmentSlot::RightHand => "RightHand",
        EquipmentSlot::Torso => "Torso",
        EquipmentSlot::Head => "Head",
        EquipmentSlot::Legs => "Legs",
        EquipmentSlot::Feet => "Feet",
        EquipmentSlot::Back => "Back",
    }
}

/// The slot at place `i` of `slot_index`'s order.
fn slot_of(i: usize) -> (r: EquipmentSlot)
    requires
        i < 7,
    ensures
        r == slot_at(i as int),
{
    if i == 0 {
        EquipmentSlot::LeftHand
    } else if i == 1 {
        EquipmentSlot::RightHand
    } else if i == 2 {
        EquipmentSlot::Torso
    } else if i == 3 {
        EquipmentSlot::Head
    } else if i == 4 {
        EquipmentSlot::Legs
    } else if i == 5 {
        EquipmentSlot::Feet
    } else {
        EquipmentSlot::Back
    }
}

/// What a slot shows of what it holds: the item's name, or nothing for an
/// empty slot or an item without a name.
pub open spec fn worn_label(item: Option<EntityId>, names: Seq<(EntityId, String)>) -> Seq<char> {
    match item {
        Some(id) => match spec_name_of(names, id) {
            Some(n) => n,
            None => Seq::empty(),
        },
        None => Seq::empty(),
    }
}

/// The line of slot `i` of `e`: the slot's name, " - " and what it holds.
pub open spec fn slot_line(e: Equipment, i: int, names: Seq<(EntityId, String)>) -> Seq<char> {
    slot_name(slot_at(i)) + " - "@ + worn_label(e.items@[i], names)
}

/// The slot lines of the first `k` equipment components, seven each.
pub open spec fn equipment_lines(equipment: Seq<Equipment>, names: Seq<(EntityId, String)>, k: int) -> Seq<(Seq<char>, Color)>
    decreases k,
{
    if k <= 0 {
        Seq::empty()
    } else {
        equipment_lines(equipment, names, k - 1) + Seq::new(7, |i: int| (slot_line(equipment[k - 1], i, names), COLOR_UI_2))
    }
}

/// The names of the first `k` carried items that have one, in order.
pub open spec fn named_items(items: Seq<EntityId>, names: Seq<(EntityId, String)>, k: int) -> Seq<Seq<char>>
    decreases k,
{
    if k <= 0 {
        Seq::empty()
    } else {
        named_items(items, names, k - 1) + match spec_name_of(names, items[k - 1]) {
            Some(n) => seq!["- "@ + n],
            None => Seq::empty(),
        }
    }
}

/// The length of the longest name.
pub open spec fn max_name_len(names: Seq<(EntityId, String)>) -> int
    decreases names.len(),
{
    if names.len() == 0 {
        0
    } else {
        let rest = max_name_len(names.drop_last());
        let last = names.last().1@.len() as int;
        if last > rest { last } else { rest }
    }
}

/// No name is longer than the longest, which is not negative.
proof fn lemma_max_name_len(names: Seq<(EntityId, String)>)
    ensures
        max_name_len(names) >= 0,
        forall|i: int| 0 <= i < names.len() ==> (#[trigger] names[i]).1@.len() <= max_name_len(names),
    decreases names.len(),
{
    if names.len() > 0 {
        lemma_max_name_len(names.drop_last());
        assert forall|i: int| 0 <= i < names.len() implies (#[trigger] names[i]).1@.len() <= max_name_len(names) by {
            if i < names.len() - 1 {
                assert(names.drop_last()[i] == names[i]);
            }
        }
    }
}

/// The glyphs of the inventory panel: the slot lines of every equipment
/// component, one per row from the first; a box titled "Equipment" around
/// them and one blank row; then the carried items that have names, one per
/// row below the box's last row, the selected one highlighted; and a box
/// titled "Inventory" from the first box's last row to one row below the
/// last item.
pub open spec fn inventory_glyphs(
    c: Console,
    selection: usize,
    equipment: Seq<Equipment>,
    names: Seq<(EntityId, String)>,
    items: Seq<EntityId>,
) -> Seq<Glyph> {
    let g = c.gsize;
    let x = c.pos.0 + g;
    let eq = equipment_lines(equipment, names, equipment.len() as int);
    let inv = named_items(items, names, items.len() as int);
    let top = 7 * equipment.len() + 2;
    rows_glyphs(eq, x, c.pos.1 + g, g, eq.len() as int)
        + spec_box_glyphs(
            c.pos,
            (c.size.0, (top * g) as i32),
            COLOR_UI_1,
            COLOR_BG,
            g,
            "Equipment"@.map_values(|ch: char| spec_to_cp437(ch) as usize),
            box_steps(c.size.0 as int, g as int),
        )
        + rows_glyphs(menu_lines(inv, selection as int), x, c.pos.1 + (top + 1) * g, g, inv.len() as int)
        + spec_box_glyphs(
            (c.pos.0, (c.pos.1 + top * g) as i32),
            (c.size.0, ((inv.len() + 2) * g) as i32),
            COLOR_UI_1,
            COLOR_BG,
            g,
            "Inventory"@.map_values(|ch: char| spec_to_cp437(ch) as usize),
            box_steps(c.size.0 as int, g as int),
        )
}

/// The inventory panel of console `c` fits `i32` with `equipment_count`
/// equipment components and `item_count` carried items, whose names are at
/// most `name_len` characters.
pub open spec fn inventory_fits(c: Console, equipment_count: int, item_count: int, name_len: int) -> bool {
    let g = c.gsize as int;
    let rows = 7 * equipment_count + item_count + 4;
    &&& g > 0
    &&& c.pos.0 >= 0 && c.pos.1 >= 0
    &&& name_len >= 0
    &&& row_fits(c.pos.0 + g, g, 12 + name_len)
    &&& c.pos.1 + rows * g <= i32::MAX
    &&& fits_i32(c.pos.0 + c.size.0)
    &&& fits_i32(c.pos.0 + c.size.0 - g)
    &&& fits_i32(c.pos.0 + 9 * g)
}

impl Console {
    /// Draws the inventory while it is shown (see `inventory_glyphs`):
    /// `equipment` lists every equipment component, `items` what the player
    /// carries (nothing when it has no inventory). In any other state nothing
    /// is drawn.
    pub fn render_inventory(
        &self,
        frame: &mut Vec<Glyph>,
        state: GameState,
        equipment: &Vec<Equipment>,
        names: &Vec<(EntityId, String)>,
        items: &Vec<EntityId>,
    )
        requires
            inventory_fits(*self, equipment@.len() as int, items@.len() as int, max_name_len(names@)),
            forall|i: int| 0 <= i < equipment@.len() ==> (#[trigger] equipment@[i]).wf(),
        ensures
            match state {
                GameState::ShowInventory { selection } => final(frame)@ == old(frame)@
                    + inventory_glyphs(*self, selection, equipment@, names@, items@),
                _ => final(frame)@ == old(frame)@,
            },
    {
        if let GameState::ShowInventory { selection } = state {
            proof {
                lemma_max_name_len(names@);
            }
            self.draw_inventory(frame, selection, equipment, names, items, Ghost(max_name_len(names@)));
        }
    }
}

/// Slot names are at most nine characters long.
proof fn lemma_slot_name_len(s: EquipmentSlot)
    ensures
        slot_name(s).len() <= 9,
{
    reveal_strlit("LeftHand");
    reveal_strlit("RightHand");
    reveal_strlit("Torso");
    reveal_strlit("Head");
    reveal_strlit("Legs");
    reveal_strlit("Feet");
    reveal_strlit("Back");
}

/// A nine-character title from `x` fits `i32` when its end does.
pub open spec fn title_fits(x: int, g: int) -> bool {
    fits_i32(g * 9) && fits_i32(x + g * 9)
}

/// The slot lines of `k` equipment components are seven per component.
proof fn lemma_equipment_lines_len(equipment: Seq<Equipment>, names: Seq<(EntityId, String)>, k: int)
    requires
        k >= 0,
    ensures
        equipment_lines(equipment, names, k).len() == 7 * k,
    decreases k,
{
    if k > 0 {
        lemma_equipment_lines_len(equipment, names, k - 1);
    }
}

/// The first `n` rows only depend on the first `n` lines.
proof fn lemma_rows_prefix(a: Seq<(Seq<char>, Color)>, b: Seq<(Seq<char>, Color)>, x: int, y: int, g: i32, n: int)
    requires
        0 <= n <= a.len(),
        n <= b.len(),
        forall|j: int| 0 <= j < n ==> a[j] == b[j],
    ensures
        rows_glyphs(a, x, y, g, n) == rows_glyphs(b, x, y, g, n),
    decreases n,
{
    if n > 0 {
        lemma_rows_prefix(a, b, x, y, g, n - 1);
    }
}

/// The named items among the first `k` are at most `k`.
proof fn lemma_named_items_len(items: Seq<EntityId>, names: Seq<(EntityId, String)>, k: int)
    requires
        k >= 0,
    ensures
        named_items(items, names, k).len() <= k,
    decreases k,
{
    if k > 0 {
        lemma_named_items_len(items, names, k - 1);
    }
}

impl Console {
    fn draw_inventory(
        &self,
        frame: &mut Vec<Glyph>,
        selection: usize,
        equipment: &Vec<Equipment>,
        names: &Vec<(EntityId, String)>,
        items: &Vec<EntityId>,
        name_len: Ghost<int>,
    )
        requires
            inventory_fits(*self, equipment@.len() as int, items@.len() as int, name_len@),
            forall|i: int| 0 <= i < equipment@.len() ==> (#[trigger] equipment@[i]).wf(),
            forall|i: int| 0 <= i < names@.len() ==> (#[trigger] names@[i]).1@.len() <= name_len@,
        ensures
            final(frame)@ == old(frame)@ + inventory_glyphs(*self, selection, equipment@, names@, items@),
    {
        proof {
            reveal_strlit(" - ");
            reveal_strlit("- ");
            reveal_strlit("Equipment");
            reveal_strlit("Inventory");
            reveal_strlit("LeftHand");
            reveal_strlit("RightHand");
            reveal_strlit("Torso");
            reveal_strlit("Head");
            reveal_strlit("Legs");
            reveal_strlit("Feet");
            reveal_strlit("Back");
        }
        let g = self.gsize;
        let ghost ne = equipment@.len() as int;
        let ghost ni = items@.len() as int;
        let ghost rows: int = 7 * ne + ni + 4;
        let ghost cols: int = 12 + name_len@;
        let ghost all_eq = equipment_lines(equipment@, names@, ne);
        let ghost x = self.pos.0 + g;
        let ghost start = frame@;
        proof {
            assert(lines_fit(*self, cols, rows));
            assert(rows <= rows * g) by (nonlinear_arith) requires rows >= 0, g > 0;
        }
        let mut y: i32 = 1;
        let mut k: usize = 0;
        while k < equipment.len()
            invariant
                k <= equipment@.len(),
                g == self.gsize,
                ne == equipment@.len(),
                lines_fit(*self, cols, rows),
                rows == 7 * ne + ni + 4,
                rows <= i32::MAX,
                ni == items@.len(),
                cols == 12 + name_len@,
                x == self.pos.0 + g,
                forall|i: int| 0 <= i < equipment@.len() ==> (#[trigger] equipment@[i]).wf(),
                forall|i: int| 0 <= i < names@.len() ==> (#[trigger] names@[i]).1@.len() <= name_len@,
                name_len@ >= 0,
                y == 1 + 7 * k,
                frame@ == start + rows_glyphs(equipment_lines(equipment@, names@, k as int), x, self.pos.1 + g, g, 7 * k),
            decreases equipment@.len() - k,
        {
            let e = &equipment[k];
            let ghost lines = equipment_lines(equipment@, names@, k + 1);
            let ghost base = frame@;
            proof {
                lemma_equipment_lines_len(equipment@, names@, k as int);
                lemma_rows_prefix(equipment_lines(equipment@, names@, k as int), lines, x, self.pos.1 + g, g, 7 * k);
                assert(equipment@[k as int].wf());
            }
            let mut i: usize = 0;
            while i < 7
                invariant
                    i <= 7,
                    k < equipment@.len(),
                    e == equipment@[k as int],
                    e.items@.len() == 7,
                    g == self.gsize,
                    lines_fit(*self, cols, rows),
                    rows == 7 * ne + ni + 4,
                    rows <= i32::MAX,
                    ni >= 0,
                    name_len@ >= 0,
                    ne == equipment@.len(),
                    cols == 12 + name_len@,
                    x == self.pos.0 + g,
                    forall|j: int| 0 <= j < names@.len() ==> (#[trigger] names@[j]).1@.len() <= name_len@,
                    lines == equipment_lines(equipment@, names@, k + 1),
                    lines.len() == 7 * (k + 1),
                    y == 1 + 7 * k + i,
                    frame@ == start + rows_glyphs(lines, x, self.pos.1 + g, g, 7 * k + i),
                decreases 7 - i,
            {
                proof {
                    reveal_strlit(" - ");
                }
                let mut line: Vec<char> = Vec::new();
                push_str(&mut line, slot_text(slot_of(i)));
                push_str(&mut line, " - ");
                if let Some(item) = e.items[i] {
                    if let Some(n) = name_index(names, item) {
                        proof {
                            assert(names@[n as int].1@.len() <= name_len@);
                        }
                        push_str(&mut line, names[n].1.as_str());
                    }
                }
                proof {
                    assert(line@ =~= slot_line(*e, i as int, names@));
                    assert(lines[7 * k + i] == (slot_line(equipment@[k as int], i as int, names@), COLOR_UI_2));
                    lemma_slot_name_len(slot_at(i as int));
                    assert(7 * k + i + 1 <= 7 * ne) by (nonlinear_arith) requires k < ne, i < 7;
                    assert((1 + 7 * k + i) * g == g + (7 * k + i) * g) by (nonlinear_arith);
                }
                self.print_line(frame, &line, y, COLOR_UI_2, Ghost(cols), Ghost(rows));
                proof {
                    assert(frame@ =~= start + rows_glyphs(lines, x, self.pos.1 + g, g, 7 * k + i + 1));
                }
                y += 1;
                i += 1;
            }
            proof {
                assert(7 * (k + 1) == 7 * k + 7);
            }
            k += 1;
        }
        let ghost eq_done = frame@;
        proof {
            lemma_equipment_lines_len(equipment@, names@, ne);
            assert(eq_done == start + rows_glyphs(all_eq, x, self.pos.1 + g, g, all_eq.len() as int));
        }
        y += 1;
        let top = y;
        proof {
            assert(top == 7 * ne + 2);
            assert(0 <= top * g <= rows * g) by (nonlinear_arith) requires 0 <= top <= rows, g > 0;
            assert(g <= top * g) by (nonlinear_arith) requires 1 <= top, g > 0;
            assert(title_fits(self.pos.0 as int, g as int));
            assert(box_fits(self.pos, (self.size.0, (top * g) as i32), g, 9));
        }
        let title = String::from_str("Equipment");
        self.draw_box(frame, self.pos, (self.size.0, y * g), COLOR_UI_1, COLOR_BG, g, title);
        let ghost boxed = frame@;
        let ghost inv = named_items(items@, names@, ni);
        let mut n: usize = 0;
        let mut j: usize = 0;
        while j < items.len()
            invariant
                j <= items@.len(),
                ni == items@.len(),
                g == self.gsize,
                lines_fit(*self, cols, rows),
                rows == 7 * ne + ni + 4,
                rows <= i32::MAX,
                ne >= 0,
                name_len@ >= 0,
                top == 7 * ne + 2,
                cols == 12 + name_len@,
                x == self.pos.0 + g,
                forall|i: int| 0 <= i < names@.len() ==> (#[trigger] names@[i]).1@.len() <= name_len@,
                n == named_items(items@, names@, j as int).len(),
                n <= j,
                y == top + n,
                frame@ == boxed + rows_glyphs(menu_lines(named_items(items@, names@, j as int), selection as int), x, self.pos.1 + (top + 1) * g, g, n as int),
            decreases items@.len() - j,
        {
            let ghost before_names = named_items(items@, names@, j as int);
            let ghost after_names = named_items(items@, names@, j + 1);
            proof {
                lemma_rows_prefix(menu_lines(before_names, selection as int), menu_lines(after_names, selection as int), x, self.pos.1 + (top + 1) * g, g, n as int);
            }
            proof {
                reveal_strlit("- ");
            }
            if let Some(idx) = name_index(names, items[j]) {
                let mut line: Vec<char> = Vec::new();
                push_str(&mut line, "- ");
                push_str(&mut line, names[idx].1.as_str());
                y += 1;
                let color = if selection == n { COLOR_UI_3 } else { COLOR_UI_2 };
                proof {
                    assert(names@[idx as int].1@.len() <= name_len@);
                    assert(after_names == before_names.push(line@));
                    assert(menu_lines(after_names, selection as int)[n as int] == (line@, color));
                    assert((top + 1 + n) * g == (top + 1) * g + n * g) by (nonlinear_arith);
                }
                self.print_line(frame, &line, y, color, Ghost(cols), Ghost(rows));
                proof {
                    assert(frame@ =~= boxed + rows_glyphs(menu_lines(after_names, selection as int), x, self.pos.1 + (top + 1) * g, g, n + 1));
                }
                n += 1;
            }
            j += 1;
        }
        y += 1;
        proof {
            assert(n as int == inv.len());
            assert(0 <= (n + 2) * g) by (nonlinear_arith) requires g > 0;
            assert(top * g + (n + 2) * g == (top + n + 2) * g) by (nonlinear_arith);
            assert(0 <= (top + n + 2) * g <= rows * g) by (nonlinear_arith) requires 0 <= top + n + 2 <= rows, g > 0;
        }
        proof {
            let p1 = self.pos.1 + top * g;
            let h = (n + 2) * g;
            assert(fits_i32(self.pos.0 + self.size.0));
            assert(fits_i32(p1 + h));
            assert(fits_i32(self.pos.0 + g));
            assert(g <= h) by (nonlinear_arith) requires g > 0, n >= 0, h == (n + 2) * g;
            assert(fits_i32(p1 + g));
            assert(fits_i32(self.pos.0 + self.size.0 - g));
            assert(fits_i32(p1 + h - g));
            assert(title_fits(self.pos.0 as int, g as int));
            assert(box_fits((self.pos.0, (self.pos.1 + top * g) as i32), (self.size.0, ((n + 2) * g) as i32), g, 9));
        }
        let title = String::from_str("Inventory");
        self.draw_box(frame, (self.pos.0, self.pos.1 + top * g), (self.size.0, (y - top + 1) * g), COLOR_UI_1, COLOR_BG, g, title);
        proof {
            assert(frame@ =~= old(frame)@ + inventory_glyphs(*self, selection, equipment@, names@, items@));
        }
    }
}

} // verus!
