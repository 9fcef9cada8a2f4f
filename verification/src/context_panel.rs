//! The debug panel: what lies on the map cell under the mouse, line by line.

use vstd::prelude::*;
use crate::colors::{Color, COLOR_BG, COLOR_FIRE, COLOR_UI_1, COLOR_UI_2};
use crate::components::{OnFire, PhysicalStats};
use crate::console::{Console, Glyph, box_fits};
use crate::map::{EntityId, TileMap, spec_xy_idx};
use crate::panels::{decimal, digits, panel_box, panel_line, push_decimal, push_digits, push_str, row_fits};
use crate::tiles::{GasType, TileType};
use crate::utils::{Point, XY, fits_i32};

verus! {

/// What the debug panel shows of one entity on the cell under the mouse.
pub struct ContextEntity {
    pub id: EntityId,
    pub name: Option<String>,
    /// Its first cell, if it has a position.
    pub pos: Option<Point>,
    pub stats: Option<PhysicalStats>,
    pub fire: Option<OnFire>,
    /// The name of its intent, and the cell of the intent's first target if
    /// it has one.
    pub intent: Option<(String, Option<Point>)>,
    /// The names of the items it carries (`None` for an unnamed item).
    pub inventory: Vec<Option<String>>,
}

/// A step of the panel's layout: a line (its text, its colour, and whether
/// the panel stops before it when it would reach the bottom edge) or a
/// blank row. Each step moves one text row down.
pub type Step = (bool, Seq<char>, Color, bool);

/// A line of text in `color`.
pub open spec fn line(text: Seq<char>, color: Color) -> Step {
    (true, text, color, false)
}

/// A line that is only shown while it stays clear of the bottom edge.
pub open spec fn guarded_line(text: Seq<char>) -> Step {
    (true, text, COLOR_UI_2, true)
}

/// A blank row.
pub open spec fn skip() -> Step {
    (false, Seq::empty(), COLOR_UI_2, false)
}

/// How a point is written: `Point { x: .., y: .. }`.
pub open spec fn point_text(p: Point) -> Seq<char> {
    "Point { x: "@ + decimal(p.x as int) + ", y: "@ + decimal(p.y as int) + " }"@
}

/// How a pair of coordinates is written: `(x, y)`.
pub open spec fn xy_text(a: XY) -> Seq<char> {
    "("@ + decimal(a.0 as int) + ", "@ + decimal(a.1 as int) + ")"@
}

/// The name of a tile type.
pub open spec fn tile_name(t: TileType) -> Seq<char> {
    match t {
        TileType::Water => "Water"@,
        TileType::Sand => "Sand"@,
        TileType::Dirt => "Dirt"@,
        TileType::Stone => "Stone"@,
        TileType::Wall => "Wall"@,
        TileType::Floor => "Floor"@,
        TileType::StairsDown => "StairsDown"@,
        TileType::StairsUp => "StairsUp"@,
        TileType::Grass => "Grass"@,
        TileType::Wheat => "Wheat"@,
        TileType::WoodWall => "WoodWall"@,
        TileType::WoodDoor => "WoodDoor"@,
        TileType::WoodFloor => "WoodFloor"@,
    }
}

/// The name of a gas.
pub open spec fn gas_name(g: GasType) -> Seq<char> {
    match g {
        GasType::Air => "Air"@,
        GasType::Blocked => "Blocked"@,
        GasType::Steam => "Steam"@,
        GasType::NoGas => "None"@,
    }
}

/// The lines of the carried items that have names, each only while it
/// stays clear of the bottom edge.
pub open spec fn item_steps(items: Seq<Option<String>>) -> Seq<Step>
    decreases items.len(),
{
    if items.len() == 0 {
        Seq::empty()
    } else {
        item_steps(items.drop_last()) + match items.last() {
            Some(n) => seq![guarded_line("  "@ + n@)],
            None => Seq::empty(),
        }
    }
}

/// The line of an entity's id and name, if it has a name.
pub open spec fn name_steps(e: ContextEntity) -> Seq<Step> {
    match e.name {
        Some(n) => seq![line(" "@ + digits(e.id as nat) + " "@ + n@, COLOR_UI_2)],
        None => Seq::empty(),
    }
}

/// The line of an entity's cell, if it has a position.
pub open spec fn pos_steps(e: ContextEntity) -> Seq<Step> {
    match e.pos {
        Some(p) => seq![line(" "@ + point_text(p), COLOR_UI_2)],
        None => Seq::empty(),
    }
}

/// The line of an entity's hit points, if it has stats.
pub open spec fn stats_steps(e: ContextEntity) -> Seq<Step> {
    match e.stats {
        Some(s) => seq![line(" HP: "@ + decimal(s.hp as int) + "/"@ + decimal(s.max_hp as int), COLOR_UI_2)],
        None => Seq::empty(),
    }
}

/// The line of an entity's burning turns (in the fire colour), if it burns.
pub open spec fn fire_steps(e: ContextEntity) -> Seq<Step> {
    match e.fire {
        Some(f) => seq![line("FIRE "@ + decimal(f.turns as int), COLOR_FIRE)],
        None => Seq::empty(),
    }
}

/// The lines of an entity's intent and its target, if it has them.
pub open spec fn intent_steps(e: ContextEntity) -> Seq<Step> {
    match e.intent {
        Some((name, target)) => seq![line(" Intent: "@ + name@, COLOR_UI_2)] + match target {
            Some(t) => seq![line(" Target: "@ + point_text(t), COLOR_UI_2)],
            None => Seq::empty(),
        },
        None => Seq::empty(),
    }
}

/// The lines of an entity's carried items under "Inventory:", if it
/// carries any.
pub open spec fn inventory_steps(e: ContextEntity) -> Seq<Step> {
    if e.inventory@.len() > 0 {
        seq![line(" Inventory:"@, COLOR_UI_2)] + item_steps(e.inventory@)
    } else {
        Seq::empty()
    }
}

/// The steps of one entity: its id and name, its cell, its hit points, its
/// burning, its intent and the intent's target, its carried items, each
/// only when it has it, then a blank row.
pub open spec fn entity_steps(e: ContextEntity) -> Seq<Step> {
    name_steps(e) + pos_steps(e) + stats_steps(e) + fire_steps(e) + intent_steps(e) + inventory_steps(e) + seq![skip()]
}

/// The steps of the first `k` entities.
pub open spec fn entities_steps(es: Seq<ContextEntity>, k: int) -> Seq<Step>
    decreases k,
{
    if k <= 0 {
        Seq::empty()
    } else {
        entities_steps(es, k - 1) + entity_steps(es[k - 1])
    }
}

/// The steps of the gases of the cell, each only while it stays clear of
/// the bottom edge.
pub open spec fn gas_steps(gases: Seq<GasType>) -> Seq<Step> {
    gases.map_values(|g: GasType| guarded_line(" "@ + gas_name(g)))
}

/// The steps of the panel for the cell `mouse`: the player's cell, the
/// frame time, a blank row, the mouse cell, its tile, "Gases:" and its
/// gases, a blank row, "Entities:" and the entities on it.
pub open spec fn context_steps(
    player_pos: Point,
    frame_time: Seq<char>,
    mouse: XY,
    tile: TileType,
    gases: Seq<GasType>,
    entities: Seq<ContextEntity>,
) -> Seq<Step> {
    seq![
        line("PPOS: "@ + point_text(player_pos), COLOR_UI_2),
        line("Frametime: "@ + frame_time, COLOR_UI_2),
        skip(),
        line("mouse pos: "@ + xy_text(mouse), COLOR_UI_2),
        line("Tile: "@ + tile_name(tile), COLOR_UI_2),
        line("Gases:"@, COLOR_UI_2),
    ] + gas_steps(gases) + seq![skip(), line("Entities:"@, COLOR_UI_2)] + entities_steps(entities, entities.len() as int)
}

/// The glyphs of the steps from `k` on, the last step having left the
/// layout on row `y`: each step moves down a row; a line is printed there,
/// unless it is guarded and the row below it reaches the bottom edge, where
/// the panel stops.
pub open spec fn steps_glyphs(c: Console, steps: Seq<Step>, k: int, y: int) -> Seq<Glyph>
    decreases steps.len() - k,
{
    if k < 0 || k >= steps.len() {
        Seq::empty()
    } else {
        let s = steps[k];
        if !s.0 {
            steps_glyphs(c, steps, k + 1, y + 1)
        } else if s.3 && (y + 2) * c.gsize >= c.size.1 {
            Seq::empty()
        } else {
            panel_line(c, s.1, y + 1, s.2) + steps_glyphs(c, steps, k + 1, y + 1)
        }
    }
}

/// Whether the cell `mouse` lies on `map`.
pub open spec fn on_map(map: TileMap, mouse: XY) -> bool {
    0 <= mouse.0 < map.size.0 && 0 <= mouse.1 < map.size.1
}

/// The glyphs of the debug panel: a box titled "debug info"; then, when the
/// mouse is on the map and its cell is known to the player or the player's
/// line of sight does not matter, the steps of `context_steps`.
pub open spec fn context_glyphs(
    c: Console,
    map: TileMap,
    mouse: XY,
    use_player_los: bool,
    known: Seq<usize>,
    player_pos: Point,
    frame_time: Seq<char>,
    gases: Seq<GasType>,
    entities: Seq<ContextEntity>,
) -> Seq<Glyph> {
    let idx = spec_xy_idx(map.size.0 as int, mouse.0 as int, mouse.1 as int);
    panel_box(c, "debug info"@) + if on_map(map, mouse) && !(use_player_los && !known.contains(idx as usize)) {
        steps_glyphs(c, context_steps(player_pos, frame_time, mouse, map.tiles@[idx], gases, entities), 0, 0)
    } else {
        Seq::empty()
    }
}

/// Every line of `steps` fits console `c`.
pub open spec fn steps_fit(c: Console, steps: Seq<Step>) -> bool {
    &&& c.gsize > 0
    &&& c.pos.0 >= 0 && c.pos.1 >= 0
    &&& c.pos.1 + (steps.len() + 1) * c.gsize <= i32::MAX
    &&& forall|i: int| 0 <= i < steps.len() ==> row_fits(c.pos.0 + c.gsize, c.gsize as int, (#[trigger] steps[i]).1.len() as int)
}

/// The steps of `v` as the layout sees them.
pub open spec fn steps_view(v: Seq<(bool, Vec<char>, Color, bool)>) -> Seq<Step> {
    v.map_values(|s: (bool, Vec<char>, Color, bool)| (s.0, s.1@, s.2, s.3))
}

/// Appends a step.
fn push_step(steps: &mut Vec<(bool, Vec<char>, Color, bool)>, is_line: bool, text: Vec<char>, color: Color, guarded: bool)
    ensures
        steps_view(final(steps)@) == steps_view(old(steps)@).push((is_line, text@, color, guarded)),
{
    steps.push((is_line, text, color, guarded));
    proof {
        assert(steps_view(steps@) =~= steps_view(old(steps)@).push((is_line, text@, color, guarded)));
    }
}

/// Appends how `p` is written.
fn push_point(out: &mut Vec<char>, p: Point)
    ensures
        final(out)@ == old(out)@ + point_text(p),
{
    push_str(out, "Point { x: ");
    push_decimal(out, p.x);
    push_str(out, ", y: ");
    push_decimal(out, p.y);
    push_str(out, " }");
    proof {
        assert(out@ =~= old(out)@ + point_text(p));
    }
}

/// The name of a tile type.
fn tile_text(t: TileType) -> (r: &'static str)
    ensures
        r@ == tile_name(t),
{
    match t {
        TileType::Water => "Water",
        TileType::Sand => "Sand",
        TileType::Dirt => "Dirt",
        TileType::Stone => "Stone",
        TileType::Wall => "Wall",
        TileType::Floor => "Floor",
        TileType::StairsDown => "StairsDown",
        TileType::StairsUp => "StairsUp",
        TileType::Grass => "Grass",
        TileType::Wheat => "Wheat",
        TileType::WoodWall => "WoodWall",
        TileType::WoodDoor => "WoodDoor",
        TileType::WoodFloor => "WoodFloor",
    }
}

/// The name of a gas.
fn gas_text(g: GasType) -> (r: &'static str)
    ensures
        r@ == gas_name(g),
{
    match g {
        GasType::Air => "Air",
        GasType::Blocked => "Blocked",
        GasType::Steam => "Steam",
        GasType::NoGas => "None",
    }
}

/// Appends the line of an entity's id and name.
fn push_name_steps(steps: &mut Vec<(bool, Vec<char>, Color, bool)>, e: &ContextEntity)
    ensures
        steps_view(final(steps)@) == steps_view(old(steps)@) + name_steps(*e),
{
    if let Some(n) = &e.name {
        let mut t: Vec<char> = Vec::new();
        push_str(&mut t, " ");
        push_digits(&mut t, e.id);
        push_str(&mut t, " ");
        push_str(&mut t, n.as_str());
        push_step(steps, true, t, COLOR_UI_2, false);
    }
    proof {
        assert(steps_view(steps@) =~= steps_view(old(steps)@) + name_steps(*e));
    }
}

/// Appends the line of an entity's cell.
fn push_pos_steps(steps: &mut Vec<(bool, Vec<char>, Color, bool)>, e: &ContextEntity)
    ensures
        steps_view(final(steps)@) == steps_view(old(steps)@) + pos_steps(*e),
{
    if let Some(p) = e.pos {
        let mut t: Vec<char> = Vec::new();
        push_str(&mut t, " ");
        push_point(&mut t, p);
        push_step(steps, true, t, COLOR_UI_2, false);
    }
    proof {
        assert(steps_view(steps@) =~= steps_view(old(steps)@) + pos_steps(*e));
    }
}

/// Appends the line of an entity's hit points.
fn push_stats_steps(steps: &mut Vec<(bool, Vec<char>, Color, bool)>, e: &ContextEntity)
    ensures
        steps_view(final(steps)@) == steps_view(old(steps)@) + stats_steps(*e),
{
    if let Some(st) = e.stats {
        let mut t: Vec<char> = Vec::new();
        push_str(&mut t, " HP: ");
        push_decimal(&mut t, st.hp);
        push_str(&mut t, "/");
        push_decimal(&mut t, st.max_hp);
        push_step(steps, true, t, COLOR_UI_2, false);
    }
    proof {
        assert(steps_view(steps@) =~= steps_view(old(steps)@) + stats_steps(*e));
    }
}

/// Appends the line of an entity's burning.
fn push_fire_steps(steps: &mut Vec<(bool, Vec<char>, Color, bool)>, e: &ContextEntity)
    ensures
        steps_view(final(steps)@) == steps_view(old(steps)@) + fire_steps(*e),
{
    if let Some(f) = e.fire {
        let mut t: Vec<char> = Vec::new();
        push_str(&mut t, "FIRE ");
        push_decimal(&mut t, f.turns);
        push_step(steps, true, t, COLOR_FIRE, false);
    }
    proof {
        assert(steps_view(steps@) =~= steps_view(old(steps)@) + fire_steps(*e));
    }
}

/// Appends the lines of an entity's intent.
fn push_intent_steps(steps: &mut Vec<(bool, Vec<char>, Color, bool)>, e: &ContextEntity)
    ensures
        steps_view(final(steps)@) == steps_view(old(steps)@) + intent_steps(*e),
{
    if let Some((name, target)) = &e.intent {
        let mut t: Vec<char> = Vec::new();
        push_str(&mut t, " Intent: ");
        push_str(&mut t, name.as_str());
        push_step(steps, true, t, COLOR_UI_2, false);
        if let Some(tp) = target {
            let mut u: Vec<char> = Vec::new();
            push_str(&mut u, " Target: ");
            push_point(&mut u, *tp);
            push_step(steps, true, u, COLOR_UI_2, false);
        }
    }
    proof {
        assert(steps_view(steps@) =~= steps_view(old(steps)@) + intent_steps(*e));
    }
}

/// Appends the lines of an entity's carried items.
fn push_inventory_steps(steps: &mut Vec<(bool, Vec<char>, Color, bool)>, e: &ContextEntity)
    ensures
        steps_view(final(steps)@) == steps_view(old(steps)@) + inventory_steps(*e),
{
    if e.inventory.len() > 0 {
        let mut t: Vec<char> = Vec::new();
        push_str(&mut t, " Inventory:");
        push_step(steps, true, t, COLOR_UI_2, false);
        let ghost head = steps_view(steps@);
        let mut i: usize = 0;
        proof {
            assert(e.inventory@.take(0) =~= Seq::<Option<String>>::empty());
            assert(head =~= head + item_steps(e.inventory@.take(0)));
        }
        while i < e.inventory.len()
            invariant
                i <= e.inventory@.len(),
                steps_view(steps@) == head + item_steps(e.inventory@.take(i as int)),
            decreases e.inventory@.len() - i,
        {
            proof {
                assert(e.inventory@.take(i + 1).drop_last() =~= e.inventory@.take(i as int));
            }
            if let Some(n) = &e.inventory[i] {
                let mut u: Vec<char> = Vec::new();
                push_str(&mut u, "  ");
                push_str(&mut u, n.as_str());
                push_step(steps, true, u, COLOR_UI_2, true);
            }
            proof {
                assert(steps_view(steps@) =~= head + item_steps(e.inventory@.take(i + 1)));
            }
            i += 1;
        }
        proof {
            assert(e.inventory@.take(e.inventory@.len() as int) =~= e.inventory@);
        }
    }
    proof {
        assert(steps_view(steps@) =~= steps_view(old(steps)@) + inventory_steps(*e));
    }
}

/// Appends the steps of entity `e` (see `entity_steps`).
fn push_entity_steps(steps: &mut Vec<(bool, Vec<char>, Color, bool)>, e: &ContextEntity)
    ensures
        steps_view(final(steps)@) == steps_view(old(steps)@) + entity_steps(*e),
{
    push_name_steps(steps, e);
    push_pos_steps(steps, e);
    push_stats_steps(steps, e);
    push_fire_steps(steps, e);
    push_intent_steps(steps, e);
    push_inventory_steps(steps, e);
    let blank: Vec<char> = Vec::new();
    push_step(steps, false, blank, COLOR_UI_2, false);
    proof {
        assert(steps_view(steps@) =~= steps_view(old(steps)@) + entity_steps(*e));
    }
}

/// Appends how a pair of coordinates is written.
fn push_xy(out: &mut Vec<char>, a: XY)
    ensures
        final(out)@ == old(out)@ + xy_text(a),
{
    push_str(out, "(");
    push_decimal(out, a.0);
    push_str(out, ", ");
    push_decimal(out, a.1);
    push_str(out, ")");
    proof {
        assert(out@ =~= old(out)@ + xy_text(a));
    }
}

/// Appends a line of `prefix` followed by `rest`.
fn push_text_line(steps: &mut Vec<(bool, Vec<char>, Color, bool)>, prefix: &str, rest: &str)
    ensures
        steps_view(final(steps)@) == steps_view(old(steps)@).push(line(prefix@ + rest@, COLOR_UI_2)),
{
    let mut t: Vec<char> = Vec::new();
    push_str(&mut t, prefix);
    push_str(&mut t, rest);
    push_step(steps, true, t, COLOR_UI_2, false);
}

/// The steps of the panel (see `context_steps`).
fn build_context_steps(
    player_pos: Point,
    frame_time: &str,
    mouse: XY,
    tile: TileType,
    gases: &Vec<GasType>,
    entities: &Vec<ContextEntity>,
) -> (r: Vec<(bool, Vec<char>, Color, bool)>)
    ensures
        steps_view(r@) == context_steps(player_pos, frame_time@, mouse, tile, gases@, entities@),
{
    let mut steps: Vec<(bool, Vec<char>, Color, bool)> = Vec::new();
    let mut t: Vec<char> = Vec::new();
    push_str(&mut t, "PPOS: ");
    push_point(&mut t, player_pos);
    push_step(&mut steps, true, t, COLOR_UI_2, false);
    push_text_line(&mut steps, "Frametime: ", frame_time);
    let blank: Vec<char> = Vec::new();
    push_step(&mut steps, false, blank, COLOR_UI_2, false);
    let mut m: Vec<char> = Vec::new();
    push_str(&mut m, "mouse pos: ");
    push_xy(&mut m, mouse);
    push_step(&mut steps, true, m, COLOR_UI_2, false);
    push_text_line(&mut steps, "Tile: ", tile_text(tile));
    push_text_line(&mut steps, "Gases:", "");
    let ghost head = steps_view(steps@);
    proof {
        reveal_strlit("");
        assert(head =~= seq![
            line("PPOS: "@ + point_text(player_pos), COLOR_UI_2),
            line("Frametime: "@ + frame_time@, COLOR_UI_2),
            skip(),
            line("mouse pos: "@ + xy_text(mouse), COLOR_UI_2),
            line("Tile: "@ + tile_name(tile), COLOR_UI_2),
            line("Gases:"@, COLOR_UI_2),
        ]);
    }
    let mut i: usize = 0;
    while i < gases.len()
        invariant
            i <= gases@.len(),
            steps_view(steps@) == head + gas_steps(gases@.take(i as int)),
        decreases gases@.len() - i,
    {
        let mut u: Vec<char> = Vec::new();
        push_str(&mut u, " ");
        push_str(&mut u, gas_text(gases[i]));
        push_step(&mut steps, true, u, COLOR_UI_2, true);
        proof {
            assert(gas_steps(gases@.take(i + 1)) =~= gas_steps(gases@.take(i as int)).push(guarded_line(" "@ + gas_name(gases@[i as int]))));
            assert(steps_view(steps@) =~= head + gas_steps(gases@.take(i + 1)));
        }
        i += 1;
    }
    proof {
        assert(gases@.take(gases@.len() as int) =~= gases@);
    }
    let blank2: Vec<char> = Vec::new();
    push_step(&mut steps, false, blank2, COLOR_UI_2, false);
    push_text_line(&mut steps, "Entities:", "");
    let ghost mid = steps_view(steps@);
    let mut k: usize = 0;
    proof {
        assert(mid =~= mid + entities_steps(entities@, 0));
    }
    while k < entities.len()
        invariant
            k <= entities@.len(),
            steps_view(steps@) == mid + entities_steps(entities@, k as int),
        decreases entities@.len() - k,
    {
        push_entity_steps(&mut steps, &entities[k]);
        proof {
            assert(steps_view(steps@) =~= mid + entities_steps(entities@, k + 1));
        }
        k += 1;
    }
    proof {
        reveal_strlit("");
        assert(steps_view(steps@) =~= context_steps(player_pos, frame_time@, mouse, tile, gases@, entities@));
    }
    steps
}

/// Whether `idx` is among `known`.
fn knows(known: &Vec<usize>, idx: usize) -> (r: bool)
    ensures
        r == known@.contains(idx),
{
    let mut i: usize = 0;
    while i < known.len()
        invariant
            i <= known@.len(),
            forall|k: int| 0 <= k < i ==> known@[k] != idx,
        decreases known@.len() - i,
    {
        if known[i] == idx {
            proof {
                assert(known@[i as int] == idx);
            }
            return true;
        }
        i += 1;
    }
    false
}

impl Console {
    /// Prints the steps of the layout (see `steps_glyphs`).
    fn print_steps(&self, frame: &mut Vec<Glyph>, steps: &Vec<(bool, Vec<char>, Color, bool)>)
        requires
            steps_fit(*self, steps_view(steps@)),
        ensures
            final(frame)@ == old(frame)@ + steps_glyphs(*self, steps_view(steps@), 0, 0),
    {
        let ghost v = steps_view(steps@);
        let ghost total = old(frame)@ + steps_glyphs(*self, v, 0, 0);
        let g = self.gsize;
        let mut k: usize = 0;
        proof {
            assert(v.len() == steps@.len());
            assert(v.len() + 1 <= (v.len() + 1) * g) by (nonlinear_arith) requires g > 0;
            assert(v.len() * g <= (v.len() + 1) * g) by (nonlinear_arith) requires g > 0;
        }
        while k < steps.len()
            invariant
                k <= steps@.len(),
                v == steps_view(steps@),
                total == old(frame)@ + steps_glyphs(*self, v, 0, 0),
                v.len() == steps@.len(),
                g == self.gsize,
                steps_fit(*self, v),
                v.len() < i32::MAX,
                self.pos.1 + v.len() * g <= i32::MAX,
                total == frame@ + steps_glyphs(*self, v, k as int, k as int),
            decreases steps@.len() - k,
        {
            let (is_line, text, color, guarded) = (steps[k].0, &steps[k].1, steps[k].2, steps[k].3);
            proof {
                assert(v[k as int] == (is_line, text@, color, guarded));
            }
            if is_line {
                proof {
                    assert((k + 2) * g <= (v.len() + 1) * g) by (nonlinear_arith) requires k + 2 <= v.len() + 1, g > 0;
                    assert(0 <= (k + 2) * g) by (nonlinear_arith) requires g > 0;
                }
                let bottom: i64 = (k as i64 + 2) * g as i64;
                if guarded && bottom >= self.size.1 as i64 {
                    proof {
                        assert(steps_glyphs(*self, v, k as int, k as int) =~= Seq::<Glyph>::empty());
                        assert(frame@ =~= total);
                    }
                    return;
                }
                proof {
                    assert(row_fits(self.pos.0 + g, g as int, v[k as int].1.len() as int));
                }
                self.print_line(frame, text, (k + 1) as i32, color, Ghost(text@.len() as int), Ghost(v.len() as int));
            }
            k += 1;
        }
    }

    /// Draws the debug panel for the map cell `mouse` (see
    /// `context_glyphs`): `known` lists the cells the player knows, `gases`
    /// the gases of the cell and `entities` what the panel shows of each
    /// entity on it, in order; `frame_time` is the frame time as written.
    pub fn render_context(
        &self,
        frame: &mut Vec<Glyph>,
        map: &TileMap,
        mouse: XY,
        use_player_los: bool,
        known: &Vec<usize>,
        player_pos: Point,
        frame_time: &str,
        gases: &Vec<GasType>,
        entities: &Vec<ContextEntity>,
    )
        requires
            self.gsize > 0,
            box_fits(self.pos, self.size, self.gsize, 10),
            map.tiles@.len() == map.spec_len(),
            on_map(*map, mouse) ==> steps_fit(
                *self,
                context_steps(
                    player_pos,
                    frame_time@,
                    mouse,
                    map.tiles@[spec_xy_idx(map.size.0 as int, mouse.0 as int, mouse.1 as int)],
                    gases@,
                    entities@,
                ),
            ),
        ensures
            final(frame)@ == old(frame)@ + context_glyphs(
                *self,
                *map,
                mouse,
                use_player_los,
                known@,
                player_pos,
                frame_time@,
                gases@,
                entities@,
            ),
    {
        proof {
            reveal_strlit("debug info");
        }
        let title = String::from_str("debug info");
        self.draw_box(frame, self.pos, self.size, COLOR_UI_1, COLOR_BG, self.gsize, title);
        let ghost boxed = frame@;
        if mouse.0 < 0 || mouse.1 < 0 || mouse.0 as usize >= map.size.0 || mouse.1 as usize >= map.size.1 {
            return;
        }
        proof {
            crate::map::lemma_xy_idx_bound(map.size.0 as int, map.size.1 as int, mouse.0 as int, mouse.1 as int);
        }
        let cells = map.tiles.len();
        let idx = map.xy_idx((mouse.0 as usize, mouse.1 as usize));
        if use_player_los && !knows(known, idx) {
            return;
        }
        let steps = build_context_steps(player_pos, frame_time, mouse, map.tiles[idx], gases, entities);
        self.print_steps(frame, &steps);
    }
}

} // verus!
