//! What each kind of entity starts with: the components the game gives a
//! new player, monster, villager, item or building. Spawning hands these
//! to the entity store.

use vstd::prelude::*;
use crate::ai::AIBehaviors;
use crate::ai_system::{IntentSource, spec_intent_source};
use crate::colors::{
    COLOR_AMBER, COLOR_BG, COLOR_BROWN, COLOR_CEDAR, COLOR_CHARTREUSE, COLOR_ITEM, COLOR_PURPLE, COLOR_RED,
    COLOR_UI_1, COLOR_WALL, Color, scale_quarters, spec_scale_quarters,
};
use crate::components::{
    Actor, ActorType, Aging, AreaOfEffect, CausesFire, Confusion, DealsDamage, Equipment, EquipmentSlot, Equippable,
    Faction, Inventory, Item, ItemType, LocomotionType, Locomotive, MeleeDefenseBonus, MeleePowerBonus, Name,
    PhysicalStats, PlankHouse, Position, ProvidesHealing, Ranged, RenderOrder, Renderable, Spawner, SpawnerType,
    Vision, AddsGas,
};
use crate::intent::SpatialKnowledge;
use crate::tiles::GasType;
use crate::map::TileMap;
use crate::utils::{Point, XY};

verus! {

/// One component of a new entity.
#[derive(Clone, Debug)]
pub enum Component {
    Position(Position),
    Renderable(Renderable),
    Player,
    Actor(Actor),
    Locomotive(Locomotive),
    Vision(Vision),
    Name(Name),
    PhysicalStats(PhysicalStats),
    SpatialKnowledge(SpatialKnowledge),
    Inventory(Inventory),
    /// An empty distance map towards the entity.
    DijkstraMapToMe,
    Equipment(Equipment),
    BlocksTile,
    Aging(Aging),
    Item(Item),
    ProvidesHealing(ProvidesHealing),
    Consumable,
    DealsDamage(DealsDamage),
    Ranged(Ranged),
    AreaOfEffect(AreaOfEffect),
    CausesFire(CausesFire),
    Confusion(Confusion),
    Equippable(Equippable),
    MeleePowerBonus(MeleePowerBonus),
    MeleeDefenseBonus(MeleeDefenseBonus),
    Flammable,
    AddsGas(AddsGas),
    RemovesGas,
    Spawner(Spawner),
    Tree,
    PlankHouse(PlankHouse),
    ChiefHouse,
    FishCleaner,
    LumberMill,
}

/// The glyph shown for weapons.
pub const WEAPON_GLYPH: char = '/';
/// The glyph shown for armour.
pub const ARMOR_GLYPH: char = '{';
/// The glyph shown for potions.
pub const POTION_GLYPH: char = '!';
/// The glyph shown for scrolls.
pub const SCROLL_GLYPH: char = '?';
/// The glyph shown for logs.
pub const LOG_GLYPH: char = '=';

/// The single cell `xy`.
pub open spec fn one_cell(xy: XY) -> Seq<Point> {
    seq![Point { x: xy.0, y: xy.1 }]
}

/// The cells of a `w` by `h` block from `xy`, column by column.
pub open spec fn block_cells(xy: XY, w: int, h: int) -> Seq<Point> {
    Seq::new((w * h) as nat, |k: int| Point { x: (xy.0 + k / h) as i32, y: (xy.1 + k % h) as i32 })
}

/// The entity stands on `ps`.
pub open spec fn placed_at(c: Component, ps: Seq<Point>) -> bool {
    c matches Component::Position(p) && p.ps@ == ps
}

/// Drawn as `glyph` in `fg` on the background colour, at `order`.
pub open spec fn drawn(glyph: char, fg: Color, order: RenderOrder) -> Component {
    Component::Renderable(Renderable { glyph, fg, bg: COLOR_BG, render: true, always_render: false, order })
}

/// Named `name`.
pub open spec fn named(c: Component, name: Seq<char>) -> bool {
    c matches Component::Name(n) && n.name@ == name
}

/// An actor of `faction` and kind `atype` with `behaviors` and no score.
pub open spec fn acts(c: Component, faction: Faction, atype: ActorType, behaviors: Seq<AIBehaviors>) -> bool {
    c matches Component::Actor(a) && a.faction == faction && a.atype == atype && a.behaviors@ == behaviors && a.score == 0
}

/// Sees `range` cells far, nothing seen yet.
pub open spec fn sees_fresh(c: Component, range: i32) -> bool {
    c matches Component::Vision(v) && v.visible_tiles@.len() == 0 && v.range == range && v.dirty
}

/// An empty inventory of `capacity` items.
pub open spec fn carries_nothing(c: Component, capacity: i32) -> bool {
    c matches Component::Inventory(i) && i.capacity == capacity && i.items@.len() == 0
}

/// Knows no cell yet.
pub open spec fn knows_nothing(c: Component) -> bool {
    c matches Component::SpatialKnowledge(k) && k.tiles@.len() == 0
}

/// Moves over ground, one cell at a time.
pub open spec fn walks() -> Component {
    Component::Locomotive(Locomotive { mtype: LocomotionType::Ground, speed: 1 })
}

/// The player at `xy`, drawn in purple when `is_render` (else invisible).
pub open spec fn is_player(r: Seq<Component>, xy: XY, is_render: bool) -> bool {
    &&& r.len() == 12
    &&& placed_at(r[0], one_cell(xy))
    &&& r[1] == drawn('@', if is_render { COLOR_PURPLE } else { COLOR_BG }, RenderOrder::Player)
    &&& r[2] == Component::Player
    &&& acts(r[3], Faction::Player, ActorType::Player, Seq::empty())
    &&& r[4] == walks()
    &&& sees_fresh(r[5], 20)
    &&& named(r[6], "Player"@)
    &&& r[7] == Component::PhysicalStats(PhysicalStats { max_hp: 30, hp: 30, defense: 2, power: 5, regen_rate: 1 })
    &&& knows_nothing(r[8])
    &&& carries_nothing(r[9], 20)
    &&& r[10] == Component::DijkstraMapToMe
    &&& r[11] matches Component::Equipment(e) && e.wf() && forall|s: EquipmentSlot| #[trigger] e.item_in(s) is None
}

/// A villager at `xy`.
pub open spec fn is_villager(r: Seq<Component>, xy: XY) -> bool {
    &&& r.len() == 10
    &&& placed_at(r[0], one_cell(xy))
    &&& r[1] == drawn('v', COLOR_RED, RenderOrder::NPC)
    &&& sees_fresh(r[2], 20)
    &&& r[3] == walks()
    &&& named(r[4], "Villager"@)
    &&& r[5] == Component::BlocksTile
    &&& carries_nothing(r[6], 5)
    &&& knows_nothing(r[7])
    &&& acts(r[8], Faction::Villager, ActorType::Villager,
        seq![AIBehaviors::GatherWood, AIBehaviors::GatherFish, AIBehaviors::Wander])
    &&& r[9] == Component::Aging(Aging { turns: 0 })
}

/// A fish at `xy`.
pub open spec fn is_fish(r: Seq<Component>, xy: XY) -> bool {
    &&& r.len() == 7
    &&& placed_at(r[0], one_cell(xy))
    &&& r[1] == drawn('f', COLOR_AMBER, RenderOrder::NPC)
    &&& sees_fresh(r[2], 2)
    &&& r[3] == Component::Locomotive(Locomotive { mtype: LocomotionType::Water, speed: 1 })
    &&& named(r[4], "Fish"@)
    &&& acts(r[5], Faction::Nature, ActorType::Fish, Seq::empty())
    &&& r[6] == Component::Item(Item { typ: ItemType::Fish })
}

/// An orc-like monster at `xy` drawn as `glyph` and named `name`.
pub open spec fn is_monster(r: Seq<Component>, xy: XY, glyph: char, name: Seq<char>) -> bool {
    &&& r.len() == 9
    &&& placed_at(r[0], one_cell(xy))
    &&& r[1] == drawn(glyph, COLOR_BROWN, RenderOrder::NPC)
    &&& sees_fresh(r[2], 8)
    &&& acts(r[3], Faction::Orcs, ActorType::Orc, seq![AIBehaviors::AttackEnemies])
    &&& r[4] == walks()
    &&& named(r[5], name)
    &&& r[6] == Component::BlocksTile
    &&& r[7] == Component::PhysicalStats(PhysicalStats { max_hp: 8, hp: 8, defense: 1, power: 4, regen_rate: 0 })
    &&& carries_nothing(r[8], 5)
}

/// A wolf at `xy`.
pub open spec fn is_wolf(r: Seq<Component>, xy: XY) -> bool {
    &&& r.len() == 8
    &&& placed_at(r[0], one_cell(xy))
    &&& r[1] == drawn('w', COLOR_RED, RenderOrder::NPC)
    &&& sees_fresh(r[2], 5)
    &&& acts(r[3], Faction::Nature, ActorType::Wolf, seq![AIBehaviors::AttackEnemies])
    &&& r[4] == walks()
    &&& named(r[5], "Wolf"@)
    &&& r[6] == Component::BlocksTile
    &&& r[7] == Component::PhysicalStats(PhysicalStats { max_hp: 8, hp: 8, defense: 1, power: 4, regen_rate: 1 })
}

/// A monster covering the two by two cells from `xy`.
pub open spec fn is_big_monster(r: Seq<Component>, xy: XY) -> bool {
    &&& r.len() == 8
    &&& placed_at(r[0], seq![
        Point { x: xy.0, y: xy.1 },
        Point { x: (xy.0 + 1) as i32, y: xy.1 },
        Point { x: xy.0, y: (xy.1 + 1) as i32 },
        Point { x: (xy.0 + 1) as i32, y: (xy.1 + 1) as i32 },
    ])
    &&& r[1] == drawn('o', COLOR_RED, RenderOrder::NPC)
    &&& sees_fresh(r[2], 8)
    &&& acts(r[3], Faction::Orcs, ActorType::Orc, seq![AIBehaviors::AttackEnemies])
    &&& r[4] == walks()
    &&& named(r[5], "Monster"@)
    &&& r[6] == Component::BlocksTile
    &&& r[7] == Component::PhysicalStats(PhysicalStats { max_hp: 8, hp: 8, defense: 1, power: 4, regen_rate: 0 })
}

/// An item at `xy` drawn as `glyph`, named `name`, of type `typ`, followed
/// by the components `rest`.
pub open spec fn is_item(r: Seq<Component>, xy: XY, glyph: char, name: Seq<char>, typ: ItemType, rest: Seq<Component>) -> bool {
    &&& r.len() == 4 + rest.len()
    &&& placed_at(r[0], one_cell(xy))
    &&& r[1] == drawn(glyph, COLOR_ITEM, RenderOrder::Items)
    &&& named(r[2], name)
    &&& r[3] == Component::Item(Item { typ })
    &&& r.skip(4) == rest
}

/// A building covering the `w` by `h` block from `xy`, drawn as `#` in
/// `fg`, named `name`, flammable, then `rest`.
pub open spec fn is_building(r: Seq<Component>, xy: XY, w: int, h: int, fg: Color, name: Seq<char>, rest_len: int) -> bool {
    &&& r.len() == 4 + rest_len
    &&& placed_at(r[0], block_cells(xy, w, h))
    &&& r[1] == drawn('#', fg, RenderOrder::Items)
    &&& named(r[2], name)
    &&& r[3] == Component::Flammable
}

/// The point `(x, y)`.
fn point(x: i32, y: i32) -> (r: Point)
    ensures
        r == (Point { x, y }),
{
    Point { x, y }
}

/// A name component holding `s`.
fn name_of(s: &str) -> (r: Component)
    ensures
        named(r, s@),
{
    Component::Name(Name { name: String::from_str(s) })
}

/// A renderable as `drawn` describes it.
fn look(glyph: char, fg: Color, order: RenderOrder) -> (r: Component)
    ensures
        r == drawn(glyph, fg, order),
{
    Component::Renderable(Renderable { glyph, fg, bg: COLOR_BG, render: true, always_render: false, order })
}

/// A fresh vision of `range` cells.
fn fresh_vision(range: i32) -> (r: Component)
    ensures
        sees_fresh(r, range),
{
    Component::Vision(Vision { visible_tiles: Vec::new(), range, dirty: true })
}

/// An empty inventory of `capacity` items.
fn empty_inventory(capacity: i32) -> (r: Component)
    ensures
        carries_nothing(r, capacity),
{
    Component::Inventory(Inventory { capacity, items: Vec::new() })
}

/// An actor with no score.
fn actor(faction: Faction, atype: ActorType, behaviors: Vec<AIBehaviors>) -> (r: Component)
    ensures
        acts(r, faction, atype, behaviors@),
{
    Component::Actor(Actor { atype, faction, behaviors, score: 0 })
}

/// A position on the single cell `xy`.
fn at(xy: XY) -> (r: Component)
    ensures
        placed_at(r, one_cell(xy)),
{
    let mut ps: Vec<Point> = Vec::new();
    ps.push(point(xy.0, xy.1));
    proof {
        assert(ps@ =~= one_cell(xy));
    }
    Component::Position(Position { ps })
}

/// The behaviours of a creature that only attacks its enemies.
fn attack_only() -> (r: Vec<AIBehaviors>)
    ensures
        r@ == seq![AIBehaviors::AttackEnemies],
{
    let mut r: Vec<AIBehaviors> = Vec::new();
    r.push(AIBehaviors::AttackEnemies);
    proof {
        assert(r@ =~= seq![AIBehaviors::AttackEnemies]);
    }
    r
}

/// The components of the player at `pos`; drawn in purple when
/// `is_render`, else in the background colour.
pub fn player(pos: XY, is_render: bool) -> (r: Vec<Component>)
    ensures
        is_player(r@, pos, is_render),
{
    let mut r: Vec<Component> = Vec::new();
    r.push(at(pos));
    r.push(look('@', if is_render { COLOR_PURPLE } else { COLOR_BG }, RenderOrder::Player));
    r.push(Component::Player);
    r.push(actor(Faction::Player, ActorType::Player, Vec::new()));
    r.push(Component::Locomotive(Locomotive { mtype: LocomotionType::Ground, speed: 1 }));
    r.push(fresh_vision(20));
    proof {
        reveal_strlit("Player");
    }
    r.push(name_of("Player"));
    r.push(Component::PhysicalStats(PhysicalStats { max_hp: 30, hp: 30, defense: 2, power: 5, regen_rate: 1 }));
    r.push(Component::SpatialKnowledge(SpatialKnowledge { tiles: Vec::new() }));
    r.push(empty_inventory(20));
    r.push(Component::DijkstraMapToMe);
    r.push(Component::Equipment(Equipment::new()));
    r
}

/// The components of a villager at `xy`.
pub fn villager(xy: XY) -> (r: Vec<Component>)
    ensures
        is_villager(r@, xy),
{
    let mut r: Vec<Component> = Vec::new();
    r.push(at(xy));
    r.push(look('v', COLOR_RED, RenderOrder::NPC));
    r.push(fresh_vision(20));
    r.push(Component::Locomotive(Locomotive { mtype: LocomotionType::Ground, speed: 1 }));
    proof {
        reveal_strlit("Villager");
    }
    r.push(name_of("Villager"));
    r.push(Component::BlocksTile);
    r.push(empty_inventory(5));
    r.push(Component::SpatialKnowledge(SpatialKnowledge { tiles: Vec::new() }));
    let behaviors = vec![AIBehaviors::GatherWood, AIBehaviors::GatherFish, AIBehaviors::Wander];
    r.push(actor(Faction::Villager, ActorType::Villager, behaviors));
    r.push(Component::Aging(Aging { turns: 0 }));
    r
}

/// The components of a fish at `xy`.
pub fn fish(xy: XY) -> (r: Vec<Component>)
    ensures
        is_fish(r@, xy),
{
    let mut r: Vec<Component> = Vec::new();
    r.push(at(xy));
    r.push(look('f', COLOR_AMBER, RenderOrder::NPC));
    r.push(fresh_vision(2));
    r.push(Component::Locomotive(Locomotive { mtype: LocomotionType::Water, speed: 1 }));
    proof {
        reveal_strlit("Fish");
    }
    r.push(name_of("Fish"));
    r.push(actor(Faction::Nature, ActorType::Fish, Vec::new()));
    r.push(Component::Item(Item { typ: ItemType::Fish }));
    r
}

/// The components of an orc-like monster at `xy`, drawn as `glyph`, named
/// `name`.
pub fn monster(xy: XY, glyph: char, name: String) -> (r: Vec<Component>)
    ensures
        is_monster(r@, xy, glyph, name@),
{
    let mut r: Vec<Component> = Vec::new();
    r.push(at(xy));
    r.push(look(glyph, COLOR_BROWN, RenderOrder::NPC));
    r.push(fresh_vision(8));
    r.push(actor(Faction::Orcs, ActorType::Orc, attack_only()));
    r.push(Component::Locomotive(Locomotive { mtype: LocomotionType::Ground, speed: 1 }));
    r.push(Component::Name(Name { name }));
    r.push(Component::BlocksTile);
    r.push(Component::PhysicalStats(PhysicalStats { max_hp: 8, hp: 8, defense: 1, power: 4, regen_rate: 0 }));
    r.push(empty_inventory(5));
    r
}

/// An orc at `xy`: a monster drawn as `o`.
pub fn orc(xy: XY) -> (r: Vec<Component>)
    ensures
        is_monster(r@, xy, 'o', "Orc"@),
{
    monster(xy, 'o', String::from_str("Orc"))
}

/// A goblin at `xy`: a monster drawn as `g`.
pub fn goblin(xy: XY) -> (r: Vec<Component>)
    ensures
        is_monster(r@, xy, 'g', "Goblin"@),
{
    monster(xy, 'g', String::from_str("Goblin"))
}

/// The components of a wolf at `xy`.
pub fn wolf(xy: XY) -> (r: Vec<Component>)
    ensures
        is_wolf(r@, xy),
{
    let mut r: Vec<Component> = Vec::new();
    r.push(at(xy));
    r.push(look('w', COLOR_RED, RenderOrder::NPC));
    r.push(fresh_vision(5));
    r.push(actor(Faction::Nature, ActorType::Wolf, attack_only()));
    r.push(Component::Locomotive(Locomotive { mtype: LocomotionType::Ground, speed: 1 }));
    proof {
        reveal_strlit("Wolf");
    }
    r.push(name_of("Wolf"));
    r.push(Component::BlocksTile);
    r.push(Component::PhysicalStats(PhysicalStats { max_hp: 8, hp: 8, defense: 1, power: 4, regen_rate: 1 }));
    r
}

/// The components of a monster covering the two by two cells from `xy`.
pub fn big_monster(xy: XY) -> (r: Vec<Component>)
    requires
        xy.0 < i32::MAX,
        xy.1 < i32::MAX,
    ensures
        is_big_monster(r@, xy),
{
    let mut ps: Vec<Point> = Vec::new();
    ps.push(point(xy.0, xy.1));
    ps.push(point(xy.0 + 1, xy.1));
    ps.push(point(xy.0, xy.1 + 1));
    ps.push(point(xy.0 + 1, xy.1 + 1));
    let mut r: Vec<Component> = Vec::new();
    r.push(Component::Position(Position { ps }));
    r.push(look('o', COLOR_RED, RenderOrder::NPC));
    r.push(fresh_vision(8));
    r.push(actor(Faction::Orcs, ActorType::Orc, attack_only()));
    r.push(Component::Locomotive(Locomotive { mtype: LocomotionType::Ground, speed: 1 }));
    proof {
        reveal_strlit("Monster");
    }
    r.push(name_of("Monster"));
    r.push(Component::BlocksTile);
    r.push(Component::PhysicalStats(PhysicalStats { max_hp: 8, hp: 8, defense: 1, power: 4, regen_rate: 0 }));
    proof {
        assert(r@[0] matches Component::Position(p) && p.ps@ =~= seq![
            Point { x: xy.0, y: xy.1 },
            Point { x: (xy.0 + 1) as i32, y: xy.1 },
            Point { x: xy.0, y: (xy.1 + 1) as i32 },
            Point { x: (xy.0 + 1) as i32, y: (xy.1 + 1) as i32 },
        ]);
    }
    r
}

/// The first components of an item: where it lies, how it looks, its name
/// and its type.
fn item_base(xy: XY, glyph: char, name: &str, typ: ItemType) -> (r: Vec<Component>)
    ensures
        is_item(r@, xy, glyph, name@, typ, Seq::empty()),
{
    let mut r: Vec<Component> = Vec::new();
    r.push(at(xy));
    r.push(look(glyph, COLOR_ITEM, RenderOrder::Items));
    r.push(name_of(name));
    r.push(Component::Item(Item { typ }));
    proof {
        assert(r@.skip(4) =~= Seq::<Component>::empty());
    }
    r
}

/// The components of a health potion at `xy`: it heals 8 hit points and is
/// used up.
pub fn health_potion(xy: XY) -> (r: Vec<Component>)
    ensures
        is_item(r@, xy, POTION_GLYPH, "Health potion"@, ItemType::Potion,
            seq![Component::ProvidesHealing(ProvidesHealing { heal: 8 }), Component::Consumable]),
{
    proof {
        reveal_strlit("Health potion");
    }
    let mut r = item_base(xy, POTION_GLYPH, "Health potion", ItemType::Potion);
    let ghost base = r@;
    r.push(Component::ProvidesHealing(ProvidesHealing { heal: 8 }));
    r.push(Component::Consumable);
    proof {
        assert(r@.skip(4) =~= seq![Component::ProvidesHealing(ProvidesHealing { heal: 8 }), Component::Consumable]);
        assert(r@[0] == base[0] && r@[1] == base[1] && r@[2] == base[2] && r@[3] == base[3]);
    }
    r
}

/// An item at `xy` drawn as `glyph`, named `name`, of type `typ`, with
/// the components `extra` after those.
fn item_with(xy: XY, glyph: char, name: &str, typ: ItemType, extra: Vec<Component>) -> (r: Vec<Component>)
    ensures
        is_item(r@, xy, glyph, name@, typ, extra@),
{
    let mut r = item_base(xy, glyph, name, typ);
    let ghost base = r@;
    let mut extra = extra;
    let ghost more = extra@;
    r.append(&mut extra);
    proof {
        assert(r@.skip(4) =~= more);
        assert(r@[0] == base[0] && r@[1] == base[1] && r@[2] == base[2] && r@[3] == base[3]);
    }
    r
}

/// The components of a magic missile scroll at `xy`: used up, dealing 8
/// damage at up to 6 cells.
pub fn magic_missile_scroll(xy: XY) -> (r: Vec<Component>)
    ensures
        is_item(r@, xy, SCROLL_GLYPH, "Magic missile scroll"@, ItemType::Scroll, seq![
            Component::Consumable,
            Component::DealsDamage(DealsDamage { damage: 8 }),
            Component::Ranged(Ranged { range: 6 }),
        ]),
{
    let mut extra: Vec<Component> = Vec::new();
    extra.push(Component::Consumable);
    extra.push(Component::DealsDamage(DealsDamage { damage: 8 }));
    extra.push(Component::Ranged(Ranged { range: 6 }));
    proof {
        reveal_strlit("Magic missile scroll");
        assert(extra@ =~= seq![
            Component::Consumable,
            Component::DealsDamage(DealsDamage { damage: 8 }),
            Component::Ranged(Ranged { range: 6 }),
        ]);
    }
    item_with(xy, SCROLL_GLYPH, "Magic missile scroll", ItemType::Scroll, extra)
}

/// The components of a fireball scroll at `xy`: used up, dealing 20
/// damage at up to 6 cells over a radius of 3, and setting fires that burn
/// 5 turns.
pub fn fireball_scroll(xy: XY) -> (r: Vec<Component>)
    ensures
        is_item(r@, xy, SCROLL_GLYPH, "Fireball scroll"@, ItemType::Scroll, seq![
            Component::Consumable,
            Component::DealsDamage(DealsDamage { damage: 20 }),
            Component::Ranged(Ranged { range: 6 }),
            Component::AreaOfEffect(AreaOfEffect { radius: 3 }),
            Component::CausesFire(CausesFire { turns: 5 }),
        ]),
{
    let mut extra: Vec<Component> = Vec::new();
    extra.push(Component::Consumable);
    extra.push(Component::DealsDamage(DealsDamage { damage: 20 }));
    extra.push(Component::Ranged(Ranged { range: 6 }));
    extra.push(Component::AreaOfEffect(AreaOfEffect { radius: 3 }));
    extra.push(Component::CausesFire(CausesFire { turns: 5 }));
    proof {
        reveal_strlit("Fireball scroll");
        assert(extra@ =~= seq![
            Component::Consumable,
            Component::DealsDamage(DealsDamage { damage: 20 }),
            Component::Ranged(Ranged { range: 6 }),
            Component::AreaOfEffect(AreaOfEffect { radius: 3 }),
            Component::CausesFire(CausesFire { turns: 5 }),
        ]);
    }
    item_with(xy, SCROLL_GLYPH, "Fireball scroll", ItemType::Scroll, extra)
}

/// The components of a confusion scroll at `xy`: used up, aimed at up to 6
/// cells, confusing for 4 turns.
pub fn confusion_scroll(xy: XY) -> (r: Vec<Component>)
    ensures
        is_item(r@, xy, SCROLL_GLYPH, "Confusion scroll"@, ItemType::Scroll, seq![
            Component::Consumable,
            Component::Ranged(Ranged { range: 6 }),
            Component::Confusion(Confusion { turns: 4 }),
        ]),
{
    let mut extra: Vec<Component> = Vec::new();
    extra.push(Component::Consumable);
    extra.push(Component::Ranged(Ranged { range: 6 }));
    extra.push(Component::Confusion(Confusion { turns: 4 }));
    proof {
        reveal_strlit("Confusion scroll");
        assert(extra@ =~= seq![
            Component::Consumable,
            Component::Ranged(Ranged { range: 6 }),
            Component::Confusion(Confusion { turns: 4 }),
        ]);
    }
    item_with(xy, SCROLL_GLYPH, "Confusion scroll", ItemType::Scroll, extra)
}

/// A piece of equipment at `xy`: worn in `slot`, adding `bonus`.
fn gear(xy: XY, glyph: char, name: &str, typ: ItemType, slot: EquipmentSlot, bonus: Component) -> (r: Vec<Component>)
    ensures
        is_item(r@, xy, glyph, name@, typ, seq![Component::Equippable(Equippable { slot }), bonus]),
{
    let mut extra: Vec<Component> = Vec::new();
    extra.push(Component::Equippable(Equippable { slot }));
    let ghost b = bonus;
    extra.push(bonus);
    proof {
        assert(extra@ =~= seq![Component::Equippable(Equippable { slot }), b]);
    }
    item_with(xy, glyph, name, typ, extra)
}

/// The components of a dagger at `xy`: a weapon for the right hand adding
/// 4 power.
pub fn dagger(xy: XY) -> (r: Vec<Component>)
    ensures
        is_item(r@, xy, WEAPON_GLYPH, "Dagger"@, ItemType::Weapon, seq![
            Component::Equippable(Equippable { slot: EquipmentSlot::RightHand }),
            Component::MeleePowerBonus(MeleePowerBonus { power: 4 }),
        ]),
{
    proof {
        reveal_strlit("Dagger");
    }
    gear(xy, WEAPON_GLYPH, "Dagger", ItemType::Weapon, EquipmentSlot::RightHand,
        Component::MeleePowerBonus(MeleePowerBonus { power: 4 }))
}

/// The components of a longsword at `xy`: typed as a shield, worn in the
/// right hand, adding 8 power.
pub fn longsword(xy: XY) -> (r: Vec<Component>)
    ensures
        is_item(r@, xy, WEAPON_GLYPH, "longsword"@, ItemType::Shield, seq![
            Component::Equippable(Equippable { slot: EquipmentSlot::RightHand }),
            Component::MeleePowerBonus(MeleePowerBonus { power: 8 }),
        ]),
{
    proof {
        reveal_strlit("longsword");
    }
    gear(xy, WEAPON_GLYPH, "longsword", ItemType::Shield, EquipmentSlot::RightHand,
        Component::MeleePowerBonus(MeleePowerBonus { power: 8 }))
}

/// The components of a shield at `xy`: worn in the left hand, adding 4
/// defense.
pub fn shield(xy: XY) -> (r: Vec<Component>)
    ensures
        is_item(r@, xy, ARMOR_GLYPH, "Shield"@, ItemType::Shield, seq![
            Component::Equippable(Equippable { slot: EquipmentSlot::LeftHand }),
            Component::MeleeDefenseBonus(MeleeDefenseBonus { defense: 4 }),
        ]),
{
    proof {
        reveal_strlit("Shield");
    }
    gear(xy, ARMOR_GLYPH, "Shield", ItemType::Shield, EquipmentSlot::LeftHand,
        Component::MeleeDefenseBonus(MeleeDefenseBonus { defense: 4 }))
}

/// The components of a tower shield at `xy` (named "Shield" as well): worn
/// in the left hand, adding 8 defense.
pub fn tower_shield(xy: XY) -> (r: Vec<Component>)
    ensures
        is_item(r@, xy, ARMOR_GLYPH, "Shield"@, ItemType::Shield, seq![
            Component::Equippable(Equippable { slot: EquipmentSlot::LeftHand }),
            Component::MeleeDefenseBonus(MeleeDefenseBonus { defense: 8 }),
        ]),
{
    proof {
        reveal_strlit("Shield");
    }
    gear(xy, ARMOR_GLYPH, "Shield", ItemType::Shield, EquipmentSlot::LeftHand,
        Component::MeleeDefenseBonus(MeleeDefenseBonus { defense: 8 }))
}

/// The components of a log at `xy`: an item drawn in cedar that burns.
pub fn log(xy: XY) -> (r: Vec<Component>)
    ensures
        r@.len() == 5,
        placed_at(r@[0], one_cell(xy)),
        r@[1] == drawn(LOG_GLYPH, COLOR_CEDAR, RenderOrder::Items),
        named(r@[2], "Log"@),
        r@[3] == Component::Item(Item { typ: ItemType::Log }),
        r@[4] == Component::Flammable,
{
    let mut r: Vec<Component> = Vec::new();
    r.push(at(xy));
    r.push(look(LOG_GLYPH, COLOR_CEDAR, RenderOrder::Items));
    proof {
        reveal_strlit("Log");
    }
    r.push(name_of("Log"));
    r.push(Component::Item(Item { typ: ItemType::Log }));
    r.push(Component::Flammable);
    r
}

/// The first components of a gas vent or intake at `xy`: drawn as `=` in a
/// quarter of the wall colour, and named `name`.
fn gas_fixture(xy: XY, name: &str) -> (r: Vec<Component>)
    ensures
        r@.len() == 3,
        placed_at(r@[0], one_cell(xy)),
        r@[1] == drawn('=', spec_scale_quarters(COLOR_WALL, 1), RenderOrder::Items),
        named(r@[2], name@),
{
    let mut r: Vec<Component> = Vec::new();
    r.push(at(xy));
    r.push(look('=', scale_quarters(COLOR_WALL, 1), RenderOrder::Items));
    r.push(name_of(name));
    r
}

/// The components of a gas vent at `xy` releasing `gastype`.
pub fn gas_adder(xy: XY, gastype: GasType) -> (r: Vec<Component>)
    ensures
        r@.len() == 4,
        placed_at(r@[0], one_cell(xy)),
        r@[1] == drawn('=', spec_scale_quarters(COLOR_WALL, 1), RenderOrder::Items),
        named(r@[2], "Gas Vent"@),
        r@[3] == Component::AddsGas(AddsGas { gas: gastype }),
{
    proof {
        reveal_strlit("Gas Vent");
    }
    let mut r = gas_fixture(xy, "Gas Vent");
    r.push(Component::AddsGas(AddsGas { gas: gastype }));
    r
}

/// The components of a gas intake at `xy`.
pub fn gas_remover(xy: XY) -> (r: Vec<Component>)
    ensures
        r@.len() == 4,
        placed_at(r@[0], one_cell(xy)),
        r@[1] == drawn('=', spec_scale_quarters(COLOR_WALL, 1), RenderOrder::Items),
        named(r@[2], "Gas Intake"@),
        r@[3] == Component::RemovesGas,
{
    proof {
        reveal_strlit("Gas Intake");
    }
    let mut r = gas_fixture(xy, "Gas Intake");
    r.push(Component::RemovesGas);
    r
}

/// The components of a spawner at `xy` of `faction` producing `typ` at
/// `rate`.
pub fn spawner(xy: XY, faction: Faction, typ: SpawnerType, rate: i32) -> (r: Vec<Component>)
    ensures
        r@.len() == 5,
        placed_at(r@[0], one_cell(xy)),
        r@[1] == drawn('&', COLOR_CHARTREUSE, RenderOrder::Items),
        named(r@[2], "Spawner"@),
        r@[3] == Component::Spawner(Spawner { typ, rate }),
        acts(r@[4], faction, ActorType::Spawner, Seq::empty()),
{
    let mut r: Vec<Component> = Vec::new();
    r.push(at(xy));
    r.push(look('&', COLOR_CHARTREUSE, RenderOrder::Items));
    proof {
        reveal_strlit("Spawner");
    }
    r.push(name_of("Spawner"));
    r.push(Component::Spawner(Spawner { typ, rate }));
    r.push(actor(faction, ActorType::Spawner, Vec::new()));
    r
}

/// The components of a tree at `xy`: drawn as `|` in cedar; it burns.
pub fn tree(xy: XY) -> (r: Vec<Component>)
    ensures
        r@.len() == 5,
        placed_at(r@[0], one_cell(xy)),
        r@[1] == drawn('|', COLOR_CEDAR, RenderOrder::Items),
        named(r@[2], "Tree"@),
        r@[3] == Component::Flammable,
        r@[4] == Component::Tree,
{
    let mut r: Vec<Component> = Vec::new();
    r.push(at(xy));
    r.push(look('|', COLOR_CEDAR, RenderOrder::Items));
    proof {
        reveal_strlit("Tree");
    }
    r.push(name_of("Tree"));
    r.push(Component::Flammable);
    r.push(Component::Tree);
    r
}

/// The cells of the `width` by `height` block from `xy`, column by column.
fn block(xy: XY, width: usize, height: usize) -> (r: Vec<Point>)
    requires
        width <= i32::MAX,
        height <= i32::MAX,
        xy.0 + width <= i32::MAX,
        xy.1 + height <= i32::MAX,
        width * height <= usize::MAX,
    ensures
        r@ == block_cells(xy, width as int, height as int),
{
    let mut ps: Vec<Point> = Vec::new();
    let ghost h = height as int;
    let mut xi: usize = 0;
    while xi < width
        invariant
            width <= i32::MAX,
            height <= i32::MAX,
            xy.0 + width <= i32::MAX,
            xy.1 + height <= i32::MAX,
            h == height,
            xi <= width,
            ps@.len() == xi * h,
            forall|k: int| 0 <= k < ps@.len() ==> #[trigger] ps@[k] == (Point { x: (xy.0 + k / h) as i32, y: (xy.1 + k % h) as i32 }),
        decreases width - xi,
    {
        let mut yi: usize = 0;
        while yi < height
            invariant
                width <= i32::MAX,
                height <= i32::MAX,
                xy.0 + width <= i32::MAX,
                xy.1 + height <= i32::MAX,
                h == height,
                xi < width,
                yi <= height,
                ps@.len() == xi * h + yi,
                forall|k: int| 0 <= k < ps@.len() ==> #[trigger] ps@[k] == (Point { x: (xy.0 + k / h) as i32, y: (xy.1 + k % h) as i32 }),
            decreases height - yi,
        {
            proof {
                vstd::arithmetic::div_mod::lemma_fundamental_div_mod_converse(xi * h + yi, h, xi as int, yi as int);
            }
            ps.push(Point { x: xy.0 + xi as i32, y: xy.1 + yi as i32 });
            yi += 1;
        }
        proof {
            assert(xi * h + h == (xi + 1) * h) by (nonlinear_arith);
        }
        xi += 1;
    }
    proof {
        assert(ps@ =~= block_cells(xy, width as int, h));
    }
    ps
}

/// The first components of a building covering the `width` by `height`
/// block from `xy`: drawn as `#` in `fg`, named `name`, flammable.
fn building(xy: XY, width: usize, height: usize, fg: Color, name: &str) -> (r: Vec<Component>)
    requires
        width <= i32::MAX,
        height <= i32::MAX,
        xy.0 + width <= i32::MAX,
        xy.1 + height <= i32::MAX,
        width * height <= usize::MAX,
    ensures
        is_building(r@, xy, width as int, height as int, fg, name@, 0),
{
    let mut r: Vec<Component> = Vec::new();
    r.push(Component::Position(Position { ps: block(xy, width, height) }));
    r.push(look('#', fg, RenderOrder::Items));
    r.push(name_of(name));
    r.push(Component::Flammable);
    r
}

/// The components of a plank house covering the `width` by `height` block
/// from `xy`: in cedar, housing up to 5 villagers (none yet), blocking.
pub fn plank_house(xy: XY, width: usize, height: usize) -> (r: Vec<Component>)
    requires
        width <= i32::MAX,
        height <= i32::MAX,
        xy.0 + width <= i32::MAX,
        xy.1 + height <= i32::MAX,
        width * height <= usize::MAX,
    ensures
        is_building(r@, xy, width as int, height as int, COLOR_CEDAR, "Plank House"@, 2),
        r@[4] matches Component::PlankHouse(p) && p.housing_cap == 5 && p.villagers@.len() == 0,
        r@[5] == Component::BlocksTile,
{
    proof {
        reveal_strlit("Plank House");
    }
    let mut r = building(xy, width, height, COLOR_CEDAR, "Plank House");
    r.push(Component::PlankHouse(PlankHouse { housing_cap: 5, villagers: Vec::new() }));
    r.push(Component::BlocksTile);
    r
}

/// The components of the chief's house covering the `width` by `height`
/// block from `xy`: in cedar, blocking.
pub fn chief_house(xy: XY, width: usize, height: usize) -> (r: Vec<Component>)
    requires
        width <= i32::MAX,
        height <= i32::MAX,
        xy.0 + width <= i32::MAX,
        xy.1 + height <= i32::MAX,
        width * height <= usize::MAX,
    ensures
        is_building(r@, xy, width as int, height as int, COLOR_CEDAR, "chief_house"@, 2),
        r@[4] == Component::ChiefHouse,
        r@[5] == Component::BlocksTile,
{
    proof {
        reveal_strlit("chief_house");
    }
    let mut r = building(xy, width, height, COLOR_CEDAR, "chief_house");
    r.push(Component::ChiefHouse);
    r.push(Component::BlocksTile);
    r
}

/// The components of a fish cleaner covering the `width` by `height`
/// block from `xy`: blocking, holding up to 50 items, with a distance map
/// towards it.
pub fn fish_cleaner(xy: XY, width: usize, height: usize) -> (r: Vec<Component>)
    requires
        width <= i32::MAX,
        height <= i32::MAX,
        xy.0 + width <= i32::MAX,
        xy.1 + height <= i32::MAX,
        width * height <= usize::MAX,
    ensures
        is_building(r@, xy, width as int, height as int, COLOR_UI_1, "Fish Cleaner"@, 4),
        r@[4] == Component::FishCleaner,
        r@[5] == Component::BlocksTile,
        carries_nothing(r@[6], 50),
        r@[7] == Component::DijkstraMapToMe,
{
    proof {
        reveal_strlit("Fish Cleaner");
    }
    let mut r = building(xy, width, height, COLOR_UI_1, "Fish Cleaner");
    r.push(Component::FishCleaner);
    r.push(Component::BlocksTile);
    r.push(empty_inventory(50));
    r.push(Component::DijkstraMapToMe);
    r
}

/// The components of a lumber mill covering the `width` by `height` block
/// from `xy`: in amber, blocking, holding up to 50 items, with a distance
/// map towards it.
pub fn lumber_mill(xy: XY, width: usize, height: usize) -> (r: Vec<Component>)
    requires
        width <= i32::MAX,
        height <= i32::MAX,
        xy.0 + width <= i32::MAX,
        xy.1 + height <= i32::MAX,
        width * height <= usize::MAX,
    ensures
        is_building(r@, xy, width as int, height as int, COLOR_AMBER, "Lumber Mill"@, 4),
        r@[4] == Component::LumberMill,
        r@[5] == Component::BlocksTile,
        carries_nothing(r@[6], 50),
        r@[7] == Component::DijkstraMapToMe,
{
    proof {
        reveal_strlit("Lumber Mill");
    }
    let mut r = building(xy, width, height, COLOR_AMBER, "Lumber Mill");
    r.push(Component::LumberMill);
    r.push(Component::BlocksTile);
    r.push(empty_inventory(50));
    r.push(Component::DijkstraMapToMe);
    r
}

/// The components of the fireball the engine casts itself: a used-up
/// scroll dealing 20 damage at up to 6 cells over a radius of 1, setting
/// fires of 3 turns; it lies nowhere.
pub fn tmp_fireball() -> (r: Vec<Component>)
    ensures
        r@.len() == 7,
        named(r@[0], "Fireball"@),
        r@.skip(1) == seq![
            Component::Item(Item { typ: ItemType::Scroll }),
            Component::Consumable,
            Component::DealsDamage(DealsDamage { damage: 20 }),
            Component::Ranged(Ranged { range: 6 }),
            Component::AreaOfEffect(AreaOfEffect { radius: 1 }),
            Component::CausesFire(CausesFire { turns: 3 }),
        ],
{
    let mut r: Vec<Component> = Vec::new();
    proof {
        reveal_strlit("Fireball");
    }
    r.push(name_of("Fireball"));
    r.push(Component::Item(Item { typ: ItemType::Scroll }));
    r.push(Component::Consumable);
    r.push(Component::DealsDamage(DealsDamage { damage: 20 }));
    r.push(Component::Ranged(Ranged { range: 6 }));
    r.push(Component::AreaOfEffect(AreaOfEffect { radius: 1 }));
    r.push(Component::CausesFire(CausesFire { turns: 3 }));
    proof {
        assert(r@.skip(1) =~= seq![
            Component::Item(Item { typ: ItemType::Scroll }),
            Component::Consumable,
            Component::DealsDamage(DealsDamage { damage: 20 }),
            Component::Ranged(Ranged { range: 6 }),
            Component::AreaOfEffect(AreaOfEffect { radius: 1 }),
            Component::CausesFire(CausesFire { turns: 3 }),
        ]);
    }
    r
}

/// What `spawn_entity` gives for the room table's `name` at `xy` (the
/// last name, "Tower Shield", being the only one left).
pub open spec fn spawned(name: Seq<char>, r: Seq<Component>, xy: XY) -> bool {
    if name == "Wolf"@ {
        is_wolf(r, xy)
    } else if name == "Goblin"@ {
        is_monster(r, xy, 'g', "Goblin"@)
    } else if name == "Orc"@ {
        is_monster(r, xy, 'o', "Orc"@)
    } else if name == "Health Potion"@ {
        is_item(r, xy, POTION_GLYPH, "Health potion"@, ItemType::Potion,
                seq![Component::ProvidesHealing(ProvidesHealing { heal: 8 }), Component::Consumable])
    } else if name == "Fireball Scroll"@ {
        is_item(r, xy, SCROLL_GLYPH, "Fireball scroll"@, ItemType::Scroll, seq![
                Component::Consumable,
                Component::DealsDamage(DealsDamage { damage: 20 }),
                Component::Ranged(Ranged { range: 6 }),
                Component::AreaOfEffect(AreaOfEffect { radius: 3 }),
                Component::CausesFire(CausesFire { turns: 5 }),
            ])
    } else if name == "Confusion Scroll"@ {
        is_item(r, xy, SCROLL_GLYPH, "Confusion scroll"@, ItemType::Scroll, seq![
                Component::Consumable,
                Component::Ranged(Ranged { range: 6 }),
                Component::Confusion(Confusion { turns: 4 }),
            ])
    } else if name == "Magic Missile Scroll"@ {
        is_item(r, xy, SCROLL_GLYPH, "Magic missile scroll"@, ItemType::Scroll, seq![
                Component::Consumable,
                Component::DealsDamage(DealsDamage { damage: 8 }),
                Component::Ranged(Ranged { range: 6 }),
            ])
    } else if name == "Dagger"@ {
        is_item(r, xy, WEAPON_GLYPH, "Dagger"@, ItemType::Weapon, seq![
                Component::Equippable(Equippable { slot: EquipmentSlot::RightHand }),
                Component::MeleePowerBonus(MeleePowerBonus { power: 4 }),
            ])
    } else if name == "Shield"@ {
        is_item(r, xy, ARMOR_GLYPH, "Shield"@, ItemType::Shield, seq![
                Component::Equippable(Equippable { slot: EquipmentSlot::LeftHand }),
                Component::MeleeDefenseBonus(MeleeDefenseBonus { defense: 4 }),
            ])
    } else if name == "Longsword"@ {
        is_item(r, xy, WEAPON_GLYPH, "longsword"@, ItemType::Shield, seq![
                Component::Equippable(Equippable { slot: EquipmentSlot::RightHand }),
                Component::MeleePowerBonus(MeleePowerBonus { power: 8 }),
            ])
    } else {
        is_item(r, xy, ARMOR_GLYPH, "Shield"@, ItemType::Shield, seq![
                Component::Equippable(Equippable { slot: EquipmentSlot::LeftHand }),
                Component::MeleeDefenseBonus(MeleeDefenseBonus { defense: 8 }),
            ])
    }
}

/// Whether `a` and `b` hold the same characters.
fn same_text(a: &str, b: &str) -> (r: bool)
    ensures
        r == (a@ == b@),
{
    let n = a.unicode_len();
    if n != b.unicode_len() {
        return false;
    }
    let mut i: usize = 0;
    while i < n
        invariant
            n == a@.len(),
            n == b@.len(),
            i <= n,
            forall|k: int| 0 <= k < i ==> a@[k] == b@[k],
        decreases n - i,
    {
        if a.get_char(i) != b.get_char(i) {
            return false;
        }
        i += 1;
    }
    proof {
        assert(a@ =~= b@);
    }
    true
}

/// The names of the entities the room table spawns.
pub open spec fn room_entity(name: Seq<char>) -> bool {
    ||| name == "Wolf"@
    ||| name == "Goblin"@
    ||| name == "Orc"@
    ||| name == "Health Potion"@
    ||| name == "Fireball Scroll"@
    ||| name == "Confusion Scroll"@
    ||| name == "Magic Missile Scroll"@
    ||| name == "Dagger"@
    ||| name == "Shield"@
    ||| name == "Longsword"@
    ||| name == "Tower Shield"@
}

/// The components of the entity the room table names `name`, spawned at
/// map cell `idx` (at `(idx % width, idx / width)`): a wolf, goblin or orc,
/// a health potion, a fireball, confusion or magic missile scroll, a
/// dagger, shield, longsword or tower shield.
pub fn spawn_entity(map: &TileMap, idx: usize, name: &str) -> (r: Vec<Component>)
    requires
        map.size.0 > 0,
        idx <= i32::MAX,
        room_entity(name@),
    ensures
        spawned(name@, r@, ((idx % map.size.0) as i32, (idx / map.size.0) as i32)),
{
    let c = map.idx_xy(idx);
    proof {
        assert(c.0 <= idx && c.1 <= idx) by (nonlinear_arith) requires c.0 == idx % map.size.0, c.1 == idx / map.size.0, map.size.0 > 0;
    }
    let xy = (c.0 as i32, c.1 as i32);
    proof {
        reveal_strlit("Wolf");
        reveal_strlit("Goblin");
        reveal_strlit("Orc");
        reveal_strlit("Health Potion");
        reveal_strlit("Fireball Scroll");
        reveal_strlit("Confusion Scroll");
        reveal_strlit("Magic Missile Scroll");
        reveal_strlit("Dagger");
        reveal_strlit("Shield");
        reveal_strlit("Longsword");
        reveal_strlit("Tower Shield");
    }
    if same_text(name, "Wolf") {
        wolf(xy)
    } else if same_text(name, "Goblin") {
        goblin(xy)
    } else if same_text(name, "Orc") {
        orc(xy)
    } else if same_text(name, "Health Potion") {
        health_potion(xy)
    } else if same_text(name, "Fireball Scroll") {
        fireball_scroll(xy)
    } else if same_text(name, "Confusion Scroll") {
        confusion_scroll(xy)
    } else if same_text(name, "Magic Missile Scroll") {
        magic_missile_scroll(xy)
    } else if same_text(name, "Dagger") {
        dagger(xy)
    } else if same_text(name, "Shield") {
        shield(xy)
    } else if same_text(name, "Longsword") {
        longsword(xy)
    } else {
        tower_shield(xy)
    }
}

/// The kinds of entity spawned by type.
#[derive(Clone, Copy, Debug, PartialEq, Eq, Structural)]
pub enum EntitySpawnTypes {
    Villager,
}

/// The components of an entity of kind `etype` at `pos`.
pub fn spawn_entity_type(etype: EntitySpawnTypes, pos: XY) -> (r: Vec<Component>)
    ensures
        etype == EntitySpawnTypes::Villager ==> is_villager(r@, pos),
{
    match etype {
        EntitySpawnTypes::Villager => villager(pos),
    }
}

/// The actor component `c` forms its intent by choosing among scored
/// actions exactly when it has behaviours to score.
pub open spec fn chooses_iff_behaves(c: Component) -> bool {
    c matches Component::Actor(a) && ((spec_intent_source(a.atype) == IntentSource::Choose) == (a.behaviors@.len() > 0))
}

/// Every actor the entity factory makes chooses its intent exactly when it
/// has behaviours to score: orcs, the big monster, wolves and villagers
/// choose; the player and fish, which have none, make no intent.
pub proof fn law_made_actors_choose_when_they_have_behaviors(
    r: Seq<Component>,
    xy: XY,
    glyph: char,
    name: Seq<char>,
    is_render: bool,
)
    ensures
        is_monster(r, xy, glyph, name) ==> chooses_iff_behaves(r[3]),
        is_big_monster(r, xy) ==> chooses_iff_behaves(r[3]),
        is_wolf(r, xy) ==> chooses_iff_behaves(r[3]),
        is_villager(r, xy) ==> chooses_iff_behaves(r[8]),
        is_player(r, xy, is_render) ==> chooses_iff_behaves(r[3]),
        is_fish(r, xy) ==> chooses_iff_behaves(r[5]),
        is_monster(r, xy, glyph, name) ==> (r[3] matches Component::Actor(a) && spec_intent_source(a.atype) == IntentSource::Choose),
        is_wolf(r, xy) ==> (r[3] matches Component::Actor(a) && spec_intent_source(a.atype) == IntentSource::Choose),
        is_villager(r, xy) ==> (r[8] matches Component::Actor(a) && spec_intent_source(a.atype) == IntentSource::Choose),
{
}

} // verus!
