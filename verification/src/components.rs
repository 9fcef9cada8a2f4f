//! The components that make up the entities of the simulation, and the few
//! operations they carry.

use vstd::prelude::*;
use crate::ai::AIBehaviors;
use crate::colors::{Color, COLOR_BG};
use crate::map::{EntityId, TileMap, spec_xy_idx};
use crate::tiles::GasType;
use crate::utils::Point;

verus! {

/// Drawing order of entities on one cell: later variants are drawn on top.
#[derive(Copy, Clone, Debug, PartialEq, Eq, Structural, Ord, PartialOrd)]
pub enum RenderOrder {
    Items,
    NPC,
    Player,
    Particle,
}

/// The message log shown to the player.
#[derive(Debug, Clone)]
pub struct GameLog {
    pub messages: Vec<String>,
}

/// The entity controlled by the player.
#[derive(Debug, Clone, Copy, PartialEq, Eq, Structural)]
pub struct PlayerID(pub EntityId);

/// The number of the current turn.
#[derive(Clone, Debug, Copy, PartialEq, Eq, Structural)]
pub struct Turn(pub i32);

/// The shared random number generator of the world.
pub struct RNG(pub rltk::RandomNumberGenerator);

/// Where the player stands.
#[derive(Clone, Debug, Copy, PartialEq, Eq, Structural)]
pub struct PPoint(pub Point);

/// The cells an entity occupies (large entities cover several).
#[derive(Clone, Debug, PartialEq)]
pub struct Position {
    pub ps: Vec<Point>,
}

impl Position {
    /// The first cell the entity occupies.
    pub fn any_point(&self) -> (r: Point)
        requires
            self.ps@.len() > 0,
        ensures
            r == self.ps@[0],
    {
        self.ps[0]
    }

    /// The map index of every occupied cell, in order.
    pub fn idxes(&self, map: &TileMap) -> (r: Vec<usize>)
        requires
            forall|i: int|
                0 <= i < self.ps@.len() ==> #[trigger] self.ps@[i].x >= 0 && self.ps@[i].y >= 0
                    && spec_xy_idx(map.size.0 as int, self.ps@[i].x as int, self.ps@[i].y as int)
                    <= usize::MAX,
        ensures
            r@.len() == self.ps@.len(),
            forall|i: int|
                0 <= i < r@.len() ==> #[trigger] r@[i] == spec_xy_idx(
                    map.size.0 as int,
                    self.ps@[i].x as int,
                    self.ps@[i].y as int,
                ),
    {
        let mut r: Vec<usize> = Vec::new();
        let mut i: usize = 0;
        while i < self.ps.len()
            invariant
                i <= self.ps@.len(),
                r@.len() == i,
                forall|k: int|
                    0 <= k < self.ps@.len() ==> #[trigger] self.ps@[k].x >= 0 && self.ps@[k].y
                        >= 0 && spec_xy_idx(
                        map.size.0 as int,
                        self.ps@[k].x as int,
                        self.ps@[k].y as int,
                    ) <= usize::MAX,
                forall|k: int|
                    0 <= k < i ==> #[trigger] r@[k] == spec_xy_idx(
                        map.size.0 as int,
                        self.ps@[k].x as int,
                        self.ps@[k].y as int,
                    ),
            decreases self.ps@.len() - i,
        {
            let p = self.ps[i];
            r.push(map.point_idx(p));
            i += 1;
        }
        r
    }
}

/// How an entity is drawn.
#[derive(Copy, Clone, Debug, PartialEq)]
pub struct Renderable {
    pub glyph: char,
    pub fg: Color,
    pub bg: Color,
    pub render: bool,
    pub always_render: bool,
    pub order: RenderOrder,
}

impl Default for Renderable {
    /// A blank glyph on the background colour, drawn, at player order.
    fn default() -> (r: Self)
        ensures
            r.glyph == ' ',
            r.fg == COLOR_BG,
            r.bg == COLOR_BG,
            r.render,
            !r.always_render,
            r.order == RenderOrder::Player,
    {
        Renderable {
            glyph: ' ',
            fg: COLOR_BG,
            bg: COLOR_BG,
            render: true,
            always_render: false,
            order: RenderOrder::Player,
        }
    }
}

/// What an entity can currently see.
#[derive(Clone, Debug, PartialEq)]
pub struct Vision {
    pub visible_tiles: Vec<Point>,
    pub range: i32,
    pub dirty: bool,
}

impl Vision {
    /// Whether `idx` is one of the visible cells.
    pub fn is_visible(&self, idx: Point) -> (r: bool)
        ensures
            r == self.visible_tiles@.contains(idx),
    {
        let mut i: usize = 0;
        while i < self.visible_tiles.len()
            invariant
                i <= self.visible_tiles@.len(),
                forall|k: int| 0 <= k < i ==> self.visible_tiles@[k] != idx,
            decreases self.visible_tiles@.len() - i,
        {
            let p = self.visible_tiles[i];
            if p.x == idx.x && p.y == idx.y {
                return true;
            }
            i += 1;
        }
        false
    }
}

/// The display name of an entity.
#[derive(Clone, Debug, PartialEq)]
pub struct Name {
    pub name: String,
}

/// Marks the player entity.
#[derive(Copy, Clone, Debug, PartialEq, Eq, Structural)]
pub struct Player {}

/// Marks an orc.
#[derive(Copy, Clone, Debug, PartialEq, Eq, Structural)]
pub struct Orc {}

/// Marks a fish.
#[derive(Copy, Clone, Debug, PartialEq, Eq, Structural)]
pub struct Fish {}

/// An entity that acts on its own.
#[derive(Clone, Debug, PartialEq)]
pub struct Actor {
    pub atype: ActorType,
    pub faction: Faction,
    pub behaviors: Vec<AIBehaviors>,
    /// Points scored for carrying out behaviours.
    pub score: i32,
}

/// The side an actor is on.
#[derive(Copy, Clone, Debug, PartialEq, Eq, Structural)]
pub enum Faction {
    Nuetral,
    Nature,
    Player,
    Orcs,
    Villager,
    Wizard1,
    Wizard2,
}

/// The kind of an actor.
#[derive(Copy, Clone, Debug, PartialEq, Eq, Structural)]
pub enum ActorType {
    Player,
    Orc,
    Villager,
    Fish,
    Spawner,
    Wolf,
}

/// A house and the villagers living in it.
#[derive(Clone, Debug, PartialEq)]
pub struct PlankHouse {
    pub housing_cap: i32,
    pub villagers: Vec<EntityId>,
}

/// Marks the chief's house.
#[derive(Copy, Clone, Debug, PartialEq, Eq, Structural)]
pub struct ChiefHouse {}

/// Marks a lumber mill.
#[derive(Copy, Clone, Debug, PartialEq, Eq, Structural)]
pub struct LumberMill {}

/// Marks a fish cleaning station.
#[derive(Copy, Clone, Debug, PartialEq, Eq, Structural)]
pub struct FishCleaner {}

/// What a spawner produces.
#[derive(Copy, Clone, Debug, PartialEq, Eq, Structural)]
pub enum SpawnerType {
    Orc,
    Fish,
}

/// Produces entities of one type at a rate.
#[derive(Copy, Clone, Debug, PartialEq, Eq, Structural)]
pub struct Spawner {
    pub typ: SpawnerType,
    pub rate: i32,
}

/// Marks a tree.
#[derive(Copy, Clone, Debug, PartialEq, Eq, Structural)]
pub struct Tree {}

/// The medium an entity moves through.
#[derive(Copy, Clone, Debug, PartialEq, Eq, Structural)]
pub enum LocomotionType {
    Ground,
    Water,
}

/// How an entity moves.
#[derive(Copy, Clone, Debug, PartialEq, Eq, Structural)]
pub struct Locomotive {
    pub mtype: LocomotionType,
    pub speed: i32,
}

/// Marks an entity that no other may share a cell with.
#[derive(Copy, Clone, Debug, PartialEq, Eq, Structural)]
pub struct BlocksTile {}

/// Health and combat numbers.
#[derive(Copy, Clone, Debug, PartialEq, Eq, Structural)]
pub struct PhysicalStats {
    pub max_hp: i32,
    pub hp: i32,
    pub defense: i32,
    pub power: i32,
    pub regen_rate: i32,
}

/// Marks the entity the camera follows.
#[derive(Copy, Clone, Debug, PartialEq, Eq, Structural)]
pub struct IsCamera {}

/// How many turns an entity has lived.
#[derive(Copy, Clone, Debug, PartialEq, Eq, Structural)]
pub struct Aging {
    pub turns: i32,
}

/// The entity wants to attack `target`.
#[derive(Clone, Copy, Debug, PartialEq, Eq, Structural)]
pub struct WantsToAttack {
    pub target: EntityId,
}

/// `collected_by` wants to pick up `item`.
#[derive(Clone, Copy, Debug, PartialEq, Eq, Structural)]
pub struct WantsToPickupItem {
    pub collected_by: EntityId,
    pub item: EntityId,
}

/// The entity wants to drop `item`.
#[derive(Clone, Copy, Debug, PartialEq, Eq, Structural)]
pub struct WantsToDropItem {
    pub item: EntityId,
}

/// The entity wants to take off `item`.
#[derive(Clone, Copy, Debug, PartialEq, Eq, Structural)]
pub struct WantsToUnequipItem {
    pub item: EntityId,
}

/// The entity wants to use `item`, possibly aimed at a cell.
#[derive(Clone, Copy, Debug, PartialEq, Eq, Structural)]
pub struct WantsToUseItem {
    pub item: EntityId,
    pub target: Option<Point>,
}

/// The entity releases gas of one kind.
#[derive(Clone, Copy, Debug, PartialEq, Eq, Structural)]
pub struct AddsGas {
    pub gas: GasType,
}

/// The entity absorbs gas.
#[derive(Clone, Copy, Debug, PartialEq, Eq, Structural)]
pub struct RemovesGas {}

/// The items an entity carries.
#[derive(Clone, Debug, PartialEq)]
pub struct Inventory {
    pub capacity: i32,
    pub items: Vec<EntityId>,
}

/// How many of the entities in `items` are of `item_type` and carried in `carried`.
pub open spec fn spec_count_type(
    carried: Seq<EntityId>,
    items: Seq<(EntityId, Item)>,
    item_type: ItemType,
) -> int
    decreases items.len(),
{
    if items.len() == 0 {
        0
    } else {
        spec_count_type(carried, items.drop_last(), item_type) + if items.last().1.typ == item_type
            && carried.contains(items.last().0) {
            1int
        } else {
            0
        }
    }
}

/// The entities listed in `items` with type `item_type` that are carried
/// in `carried`.
pub open spec fn typed_carried(carried: Seq<EntityId>, items: Seq<(EntityId, Item)>, item_type: ItemType) -> Set<EntityId> {
    Set::new(|id: EntityId| carried.contains(id)
        && exists|i: int| 0 <= i < items.len() && (#[trigger] items[i]).0 == id && items[i].1.typ == item_type)
}

/// With each entity listed once, the count is the number of distinct
/// carried entities of the type.
pub proof fn lemma_count_type_distinct(carried: Seq<EntityId>, items: Seq<(EntityId, Item)>, item_type: ItemType)
    requires
        crate::upkeep::ids_distinct(items),
    ensures
        typed_carried(carried, items, item_type).finite(),
        spec_count_type(carried, items, item_type) == typed_carried(carried, items, item_type).len(),
    decreases items.len(),
{
    let s = typed_carried(carried, items, item_type);
    if items.len() == 0 {
        assert(s =~= Set::<EntityId>::empty());
    } else {
        let rest = items.drop_last();
        let last = items.last();
        assert forall|i: int, j: int| 0 <= i < j < rest.len() implies (#[trigger] rest[i]).0 != (#[trigger] rest[j]).0 by {
            assert(rest[i] == items[i] && rest[j] == items[j]);
        }
        lemma_count_type_distinct(carried, rest, item_type);
        let s0 = typed_carried(carried, rest, item_type);
        let q = last.1.typ == item_type && carried.contains(last.0);
        assert forall|id: EntityId| #[trigger] s.contains(id) <==> (s0.contains(id) || (q && id == last.0)) by {
            if s.contains(id) {
                let i = choose|i: int| 0 <= i < items.len() && (#[trigger] items[i]).0 == id && items[i].1.typ == item_type;
                if i < rest.len() {
                    assert(rest[i] == items[i]);
                }
            }
            if s0.contains(id) {
                let i = choose|i: int| 0 <= i < rest.len() && (#[trigger] rest[i]).0 == id && rest[i].1.typ == item_type;
                assert(items[i] == rest[i]);
            }
            if q && id == last.0 {
                assert(items[items.len() - 1] == last);
            }
        }
        if q {
            assert(!s0.contains(last.0)) by {
                if s0.contains(last.0) {
                    let i = choose|i: int| 0 <= i < rest.len() && (#[trigger] rest[i]).0 == last.0 && rest[i].1.typ == item_type;
                    assert(items[i].0 == items[items.len() - 1].0);
                }
            }
            assert(s =~= s0.insert(last.0));
        } else {
            assert(s =~= s0);
        }
    }
}

impl Inventory {
    /// How many of the item entities `items` (each with its `Item` component)
    /// are of `item_type` and carried in this inventory; when each entity is
    /// listed once (as in a component store), that is the number of such
    /// entities (see `typed_carried`).
    pub fn count_type(&self, items: &Vec<(EntityId, Item)>, item_type: ItemType) -> (r: i32)
        requires
            items@.len() <= i32::MAX,
        ensures
            r == spec_count_type(self.items@, items@, item_type),
            crate::upkeep::ids_distinct(items@) ==> r == typed_carried(self.items@, items@, item_type).len(),
    {
        proof {
            if crate::upkeep::ids_distinct(items@) {
                lemma_count_type_distinct(self.items@, items@, item_type);
            }
        }
        let mut count: i32 = 0;
        let mut i: usize = 0;
        while i < items.len()
            invariant
                i <= items@.len(),
                items@.len() <= i32::MAX,
                count == spec_count_type(self.items@, items@.take(i as int), item_type),
                0 <= count <= i,
            decreases items@.len() - i,
        {
            let (id, item) = items[i];
            proof {
                assert(items@.take(i + 1).drop_last() == items@.take(i as int));
            }
            if item.typ == item_type && contains_id(&self.items, id) {
                count += 1;
            }
            i += 1;
        }
        proof {
            assert(items@.take(items@.len() as int) == items@);
        }
        count
    }
}

/// Whether `v` holds `id`.
pub fn contains_id(v: &Vec<EntityId>, id: EntityId) -> (r: bool)
    ensures
        r == v@.contains(id),
{
    let mut i: usize = 0;
    while i < v.len()
        invariant
            i <= v@.len(),
            forall|k: int| 0 <= k < i ==> v@[k] != id,
        decreases v@.len() - i,
    {
        if v[i] == id {
            return true;
        }
        i += 1;
    }
    false
}

/// A body slot that holds one piece of equipment.
#[derive(PartialEq, Eq, Structural, Copy, Clone, Debug, Hash)]
pub enum EquipmentSlot {
    LeftHand,
    RightHand,
    Torso,
    Head,
    Legs,
    Feet,
    Back,
}

/// The position of a slot in the order the slots are listed.
pub open spec fn slot_index(slot: EquipmentSlot) -> int {
    match slot {
        EquipmentSlot::LeftHand => 0,
        EquipmentSlot::RightHand => 1,
        EquipmentSlot::Torso => 2,
        EquipmentSlot::Head => 3,
        EquipmentSlot::Legs => 4,
        EquipmentSlot::Feet => 5,
        EquipmentSlot::Back => 6,
    }
}

/// The slot at a position of the slot order.
pub open spec fn slot_at(i: int) -> EquipmentSlot {
    if i == 0 {
        EquipmentSlot::LeftHand
    } else if i == 1 {
        EquipmentSlot::RightHand
    } else if i == 2 {
        EquipmentSlot::Torso
    } else if i == 3 {
        EquipmentSlot::Head
    } else if i == 4 {
        EquipmentSlot::Legs
    } else if i == 5 {
        EquipmentSlot::Feet
    } else {
        EquipmentSlot::Back
    }
}

fn slot_position(slot: EquipmentSlot) -> (r: usize)
    ensures
        r == slot_index(slot),
{
    match slot {
        EquipmentSlot::LeftHand => 0,
        EquipmentSlot::RightHand => 1,
        EquipmentSlot::Torso => 2,
        EquipmentSlot::Head => 3,
        EquipmentSlot::Legs => 4,
        EquipmentSlot::Feet => 5,
        EquipmentSlot::Back => 6,
    }
}

/// What an entity wears, slot by slot.
#[derive(Clone, PartialEq, Debug)]
pub struct Equipment {
    /// One entry per slot, in the order of `slot_index`.
    pub items: Vec<Option<EntityId>>,
}

impl Equipment {
    /// Every slot is present.
    pub open spec fn wf(&self) -> bool {
        self.items@.len() == 7
    }

    /// What slot `slot` holds.
    pub open spec fn item_in(&self, slot: EquipmentSlot) -> Option<EntityId> {
        self.items@[slot_index(slot)]
    }

    /// Equipment with every slot empty.
    pub fn new() -> (r: Self)
        ensures
            r.wf(),
            forall|s: EquipmentSlot| #[trigger] r.item_in(s) is None,
    {
        Equipment { items: vec![None, None, None, None, None, None, None] }
    }

    /// Puts `item` into `slot`; the other slots keep what they hold.
    pub fn equip(&mut self, item: EntityId, slot: EquipmentSlot)
        requires
            old(self).wf(),
        ensures
            spec_equipped(*old(self), *final(self), item, slot),
    {
        let k = slot_position(slot);
        self.items.set(k, Some(item));
        proof {
            assert forall|s: EquipmentSlot| s != slot implies #[trigger] self.item_in(s)
                == old(self).item_in(s) by {
                assert(slot_index(s) != slot_index(slot));
            }
        }
    }

    /// Empties every slot that holds `id`; the other slots keep what they hold.
    pub fn unequip(&mut self, id: EntityId)
        requires
            old(self).wf(),
        ensures
            spec_unequipped(*old(self), *final(self), id),
    {
        let mut i: usize = 0;
        while i < 7
            invariant
                self.items@.len() == 7,
                old(self).items@.len() == 7,
                i <= 7,
                forall|k: int|
                    0 <= k < i ==> #[trigger] self.items@[k] == if old(self).items@[k] == Some(id) {
                        None
                    } else {
                        old(self).items@[k]
                    },
                forall|k: int| i <= k < 7 ==> #[trigger] self.items@[k] == old(self).items@[k],
            decreases 7 - i,
        {
            if let Some(item) = self.items[i] {
                if item == id {
                    self.items.set(i, None);
                }
            }
            i += 1;
        }
        proof {
            assert forall|s: EquipmentSlot| #[trigger] self.item_in(s) == if old(self).item_in(s)
                == Some(id) {
                None
            } else {
                old(self).item_in(s)
            } by {
                let k = slot_index(s);
                assert(0 <= k < 7);
            }
        }
    }
}

/// `after` is `before` with `item` put into `slot`.
pub open spec fn spec_equipped(before: Equipment, after: Equipment, item: EntityId, slot: EquipmentSlot) -> bool {
    &&& after.wf()
    &&& after.item_in(slot) == Some(item)
    &&& forall|s: EquipmentSlot| s != slot ==> #[trigger] after.item_in(s) == before.item_in(s)
}

/// `after` is `before` with every slot holding `id` emptied.
pub open spec fn spec_unequipped(before: Equipment, after: Equipment, id: EntityId) -> bool {
    &&& after.wf()
    &&& forall|s: EquipmentSlot|
        #[trigger] after.item_in(s) == if before.item_in(s) == Some(id) {
            None
        } else {
            before.item_in(s)
        }
}

/// Equipping an item and then taking it off again empties its slot and
/// leaves no slot holding it; the other slots end as they began, except
/// that they no longer hold that item either.
pub proof fn law_unequip_after_equip(
    e0: Equipment,
    e1: Equipment,
    e2: Equipment,
    item: EntityId,
    slot: EquipmentSlot,
)
    requires
        e0.wf(),
        spec_equipped(e0, e1, item, slot),
        spec_unequipped(e1, e2, item),
    ensures
        e2.item_in(slot) is None,
        forall|s: EquipmentSlot| #[trigger] e2.item_in(s) != Some(item),
        forall|s: EquipmentSlot|
            s != slot ==> #[trigger] e2.item_in(s) == if e0.item_in(s) == Some(item) {
                None
            } else {
                e0.item_in(s)
            },
{
    assert(e2.item_in(slot) is None);
    assert forall|s: EquipmentSlot| #[trigger] e2.item_in(s) != Some(item) by {
        assert(e2.item_in(s) == if e1.item_in(s) == Some(item) { None } else { e1.item_in(s) });
    }
    assert forall|s: EquipmentSlot| s != slot implies #[trigger] e2.item_in(s) == if e0.item_in(s)
        == Some(item) {
        None
    } else {
        e0.item_in(s)
    } by {
        assert(e1.item_in(s) == e0.item_in(s));
    }
}

/// An item that can be worn in a slot.
#[derive(Copy, Clone, Debug, PartialEq, Eq, Structural)]
pub struct Equippable {
    pub slot: EquipmentSlot,
}

/// An item worn by `owner` in `slot`.
#[derive(Copy, Clone, Debug, PartialEq, Eq, Structural)]
pub struct Equipped {
    pub owner: EntityId,
    pub slot: EquipmentSlot,
}

/// The kind of an item.
#[derive(Copy, Clone, Debug, PartialEq, Eq, Structural)]
pub enum ItemType {
    Log,
    Shield,
    Weapon,
    Potion,
    Scroll,
    Fish,
}

/// Marks an item of a kind.
#[derive(Copy, Clone, Debug, PartialEq, Eq, Structural)]
pub struct Item {
    pub typ: ItemType,
}

/// Marks an item used up when applied.
#[derive(Copy, Clone, Debug, PartialEq, Eq, Structural)]
pub struct Consumable {}

/// Attack power an equipped item adds.
#[derive(Copy, Clone, Debug, PartialEq, Eq, Structural)]
pub struct MeleePowerBonus {
    pub power: i32,
}

/// Defense an equipped item adds.
#[derive(Copy, Clone, Debug, PartialEq, Eq, Structural)]
pub struct MeleeDefenseBonus {
    pub defense: i32,
}

/// Hit points an item restores.
#[derive(Copy, Clone, Debug, PartialEq, Eq, Structural)]
pub struct ProvidesHealing {
    pub heal: i32,
}

/// How far an item can be aimed.
#[derive(Copy, Clone, Debug, PartialEq, Eq, Structural)]
pub struct Ranged {
    pub range: i32,
}

/// Damage an item deals.
#[derive(Copy, Clone, Debug, PartialEq, Eq, Structural)]
pub struct DealsDamage {
    pub damage: i32,
}

/// Turns of confusion an item inflicts, or that an entity suffers.
#[derive(Copy, Clone, Debug, PartialEq, Eq, Structural)]
pub struct Confusion {
    pub turns: i32,
}

/// The radius an item's effect covers.
#[derive(Copy, Clone, Debug, PartialEq, Eq, Structural)]
pub struct AreaOfEffect {
    pub radius: i32,
}

/// Turns an entity keeps burning.
#[derive(Copy, Clone, Debug, PartialEq, Eq, Structural)]
pub struct OnFire {
    pub turns: i32,
}

/// Turns of fire an item sets.
#[derive(Copy, Clone, Debug, PartialEq, Eq, Structural)]
pub struct CausesFire {
    pub turns: i32,
}

/// Marks an entity that burns.
#[derive(Copy, Clone, Debug, PartialEq, Eq, Structural)]
pub struct Flammable {}

} // verus!
