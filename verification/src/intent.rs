//! What an actor knows of its surroundings, the targets a task can aim at,
//! and the concrete intents an action's task expands into.

use vstd::prelude::*;
use crate::ai::{InputTargets, IntentArchetype, Task};
use crate::components::{Inventory, Item, Turn, contains_id};
use crate::map::{EntityId, TileMap};
use crate::tiles::TileType;
use crate::utils::Point;

verus! {

/// What an intent aims at: a cell or an entity.
#[allow(non_camel_case_types)]
#[derive(Clone, Copy, Debug, PartialEq, Eq, Structural)]
pub enum Target {
    LOCATION(Point),
    ENTITY(EntityId),
}

/// A task an actor means to carry out, with its targets.
#[derive(Clone, Debug)]
pub struct Intent {
    pub name: String,
    pub owner: EntityId,
    pub task: Task,
    /// Most tasks have one target; `DepositItemToInventory` has the item
    /// and then the inventory.
    pub target: Vec<Target>,
    /// The turn the intent was made.
    pub turn: Turn,
}

impl Intent {
    /// The intent to do nothing: named "Idle", owned by entity 0, no
    /// targets, made on turn 0.
    pub fn idle() -> (r: Intent)
        ensures
            r.name@ == "Idle"@,
            r.owner == 0,
            r.task == Task::Idle,
            r.target@.len() == 0,
            r.turn == Turn(0),
    {
        Intent { name: "Idle".to_string(), owner: 0, task: Task::Idle, target: Vec::new(), turn: Turn(0) }
    }
}

/// The cells an actor knows, each with its terrain and the entities seen on
/// it. No cell is listed twice.
#[derive(Clone, Debug)]
pub struct SpatialKnowledge {
    pub tiles: Vec<(usize, (TileType, Vec<EntityId>))>,
}

/// The components of an entity that decide which targets it can be.
#[derive(Clone, Copy, Debug, PartialEq, Eq, Structural)]
pub struct EntityTraits {
    pub id: EntityId,
    pub tree: bool,
    pub log: bool,
    pub lumber_mill: bool,
    pub fishery: bool,
    pub fish: bool,
}

/// The traits listed first for `id`; an entity not listed has none.
pub open spec fn spec_traits_of(traits: Seq<EntityTraits>, id: EntityId) -> EntityTraits
    decreases traits.len(),
{
    if traits.len() == 0 {
        EntityTraits { id, tree: false, log: false, lumber_mill: false, fishery: false, fish: false }
    } else if traits[0].id == id {
        traits[0]
    } else {
        spec_traits_of(traits.drop_first(), id)
    }
}

/// Whether an entity with traits `t` on a cell of terrain `tile` counts for
/// `target`. Players are looked for among trees and orcs among fish.
pub open spec fn qualifies(t: EntityTraits, tile: TileType, target: InputTargets) -> bool {
    match target {
        InputTargets::Tree => t.tree,
        InputTargets::Log => t.log,
        InputTargets::LumberMill => t.lumber_mill,
        InputTargets::Water => tile == TileType::Water,
        InputTargets::Fishery => t.fishery,
        InputTargets::Fish => t.fish,
        InputTargets::Player => t.tree,
        InputTargets::Orc => t.fish,
        _ => false,
    }
}

/// The target an entity on cell `idx` of a map `w` wide stands for: the cell
/// for water, the entity otherwise.
pub open spec fn target_for(idx: int, w: int, e: EntityId, target: InputTargets) -> Target {
    if target == InputTargets::Water {
        Target::LOCATION(Point { x: (idx % w) as i32, y: (idx / w) as i32 })
    } else {
        Target::ENTITY(e)
    }
}

/// The targets the entities `ents` on cell `idx` give, in order.
pub open spec fn cell_targets(
    ents: Seq<EntityId>,
    idx: int,
    tile: TileType,
    w: int,
    traits: Seq<EntityTraits>,
    target: InputTargets,
) -> Seq<Target>
    decreases ents.len(),
{
    if ents.len() == 0 {
        Seq::empty()
    } else {
        cell_targets(ents.drop_last(), idx, tile, w, traits, target) + if qualifies(
            spec_traits_of(traits, ents.last()),
            tile,
            target,
        ) {
            seq![target_for(idx, w, ents.last(), target)]
        } else {
            Seq::empty()
        }
    }
}

/// The targets of the known cells `tiles`, cell by cell.
pub open spec fn spec_get_targets(
    tiles: Seq<(usize, (TileType, Vec<EntityId>))>,
    w: int,
    traits: Seq<EntityTraits>,
    target: InputTargets,
) -> Seq<Target>
    decreases tiles.len(),
{
    if tiles.len() == 0 {
        Seq::empty()
    } else {
        let (idx, (tile, ents)) = tiles.last();
        spec_get_targets(tiles.drop_last(), w, traits, target) + cell_targets(ents@, idx as int, tile, w, traits, target)
    }
}

/// The known cells lie on a map `w` wide whose coordinates fit in an `i32`.
pub open spec fn knowledge_fits(tiles: Seq<(usize, (TileType, Vec<EntityId>))>, w: int) -> bool {
    &&& w > 0
    &&& forall|i: int| 0 <= i < tiles.len() ==> (#[trigger] tiles[i]).0 as int % w <= i32::MAX && tiles[i].0 as int / w <= i32::MAX
}

/// No known cell has an entity on it.
pub open spec fn no_known_entities(tiles: Seq<(usize, (TileType, Vec<EntityId>))>) -> bool {
    forall|i: int| 0 <= i < tiles.len() ==> (#[trigger] tiles[i]).1.1@.len() == 0
}

/// The traits of `id`: the first entry for it, or none.
pub fn traits_of(traits: &Vec<EntityTraits>, id: EntityId) -> (r: EntityTraits)
    ensures
        r == spec_traits_of(traits@, id),
{
    let mut i: usize = 0;
    proof {
        assert(traits@.skip(0) =~= traits@);
    }
    while i < traits.len()
        invariant
            i <= traits@.len(),
            spec_traits_of(traits@, id) == spec_traits_of(traits@.skip(i as int), id),
        decreases traits@.len() - i,
    {
        proof {
            assert(traits@.skip(i as int).drop_first() =~= traits@.skip(i + 1));
        }
        if traits[i].id == id {
            return traits[i];
        }
        i += 1;
    }
    EntityTraits { id, tree: false, log: false, lumber_mill: false, fishery: false, fish: false }
}

fn qualifies_exec(t: EntityTraits, tile: TileType, target: InputTargets) -> (r: bool)
    ensures
        r == qualifies(t, tile, target),
{
    match target {
        InputTargets::Tree => t.tree,
        InputTargets::Log => t.log,
        InputTargets::LumberMill => t.lumber_mill,
        InputTargets::Water => tile == TileType::Water,
        InputTargets::Fishery => t.fishery,
        InputTargets::Fish => t.fish,
        InputTargets::Player => t.tree,
        InputTargets::Orc => t.fish,
        _ => false,
    }
}

impl SpatialKnowledge {
    /// The targets of kind `target` among what the actor knows: for each
    /// known cell in turn, each entity on it that counts for `target`
    /// (trees, logs, lumber mills, fisheries or fish by their components;
    /// players among trees and orcs among fish) gives itself, and for water
    /// each entity on a water cell gives that cell.
    pub fn get_targets(&self, map: &TileMap, traits: &Vec<EntityTraits>, target: InputTargets) -> (r: Vec<Target>)
        requires
            knowledge_fits(self.tiles@, map.size.0 as int),
            target == InputTargets::Enemy ==> no_known_entities(self.tiles@),
        ensures
            r@ == spec_get_targets(self.tiles@, map.size.0 as int, traits@, target),
    {
        let ghost w = map.size.0 as int;
        let mut targets: Vec<Target> = Vec::new();
        let mut i: usize = 0;
        while i < self.tiles.len()
            invariant
                i <= self.tiles@.len(),
                w == map.size.0,
                knowledge_fits(self.tiles@, w),
                target == InputTargets::Enemy ==> no_known_entities(self.tiles@),
                targets@ == spec_get_targets(self.tiles@.subrange(0, i as int), w, traits@, target),
            decreases self.tiles@.len() - i,
        {
            proof {
                assert(self.tiles@.subrange(0, i + 1).drop_last() =~= self.tiles@.subrange(0, i as int));
            }
            let idx = self.tiles[i].0;
            let tile = self.tiles[i].1.0;
            let ents = &self.tiles[i].1.1;
            let ghost before = targets@;
            let mut j: usize = 0;
            while j < ents.len()
                invariant
                    j <= ents@.len(),
                    w == map.size.0,
                    w > 0,
                    idx as int % w <= i32::MAX,
                    idx as int / w <= i32::MAX,
                    targets@ == before + cell_targets(ents@.subrange(0, j as int), idx as int, tile, w, traits@, target),
                decreases ents@.len() - j,
            {
                proof {
                    assert(ents@.subrange(0, j + 1).drop_last() =~= ents@.subrange(0, j as int));
                }
                let e = ents[j];
                let t = traits_of(traits, e);
                if qualifies_exec(t, tile, target) {
                    if target == InputTargets::Water {
                        targets.push(Target::LOCATION(map.idx_point(idx)));
                    } else {
                        targets.push(Target::ENTITY(e));
                    }
                }
                j += 1;
            }
            proof {
                assert(ents@.subrange(0, ents@.len() as int) =~= ents@);
            }
            i += 1;
        }
        proof {
            assert(self.tiles@.subrange(0, self.tiles@.len() as int) =~= self.tiles@);
        }
        targets
    }
}

/// Every water target among the known cells is the location of a known
/// water cell with an entity on it.
proof fn lemma_water_targets(
    tiles: Seq<(usize, (TileType, Vec<EntityId>))>,
    w: int,
    traits: Seq<EntityTraits>,
    k: int,
)
    requires
        0 <= k < spec_get_targets(tiles, w, traits, InputTargets::Water).len(),
    ensures
        exists|i: int| 0 <= i < tiles.len() && {
            &&& (#[trigger] tiles[i]).1.0 == TileType::Water
            &&& tiles[i].1.1@.len() > 0
            &&& spec_get_targets(tiles, w, traits, InputTargets::Water)[k] == Target::LOCATION(
                Point { x: (tiles[i].0 as int % w) as i32, y: (tiles[i].0 as int / w) as i32 })
        },
    decreases tiles.len(),
{
    let all = spec_get_targets(tiles, w, traits, InputTargets::Water);
    let prev = spec_get_targets(tiles.drop_last(), w, traits, InputTargets::Water);
    let (idx, (tile, ents)) = tiles.last();
    let cell = cell_targets(ents@, idx as int, tile, w, traits, InputTargets::Water);
    assert(all == prev + cell);
    if k < prev.len() {
        lemma_water_targets(tiles.drop_last(), w, traits, k);
        let i = choose|i: int| 0 <= i < tiles.drop_last().len() && {
            &&& (#[trigger] tiles.drop_last()[i]).1.0 == TileType::Water
            &&& tiles.drop_last()[i].1.1@.len() > 0
            &&& prev[k] == Target::LOCATION(
                Point { x: (tiles.drop_last()[i].0 as int % w) as i32, y: (tiles.drop_last()[i].0 as int / w) as i32 })
        };
        assert(tiles[i] == tiles.drop_last()[i]);
    } else {
        lemma_cell_water_targets(ents@, idx as int, tile, w, traits, k - prev.len());
        assert(tiles[tiles.len() - 1] == tiles.last());
    }
}

proof fn lemma_cell_water_targets(ents: Seq<EntityId>, idx: int, tile: TileType, w: int, traits: Seq<EntityTraits>, k: int)
    requires
        0 <= k < cell_targets(ents, idx, tile, w, traits, InputTargets::Water).len(),
    ensures
        tile == TileType::Water,
        ents.len() > 0,
        cell_targets(ents, idx, tile, w, traits, InputTargets::Water)[k] == Target::LOCATION(
            Point { x: (idx % w) as i32, y: (idx / w) as i32 }),
    decreases ents.len(),
{
    let prev = cell_targets(ents.drop_last(), idx, tile, w, traits, InputTargets::Water);
    if k < prev.len() {
        lemma_cell_water_targets(ents.drop_last(), idx, tile, w, traits, k);
    }
}

/// The known water cells with entities on them have a cell of the map
/// above them.
pub open spec fn water_has_cell_above(tiles: Seq<(usize, (TileType, Vec<EntityId>))>, w: int, len: int) -> bool {
    forall|i: int| 0 <= i < tiles.len() && (#[trigger] tiles[i]).1.0 == TileType::Water && tiles[i].1.1@.len() > 0
        ==> w <= tiles[i].0 && tiles[i].0 - w < len
}

/// The fishing spots of the water targets `water`: for each water cell, the
/// cell above it, when that one is not water.
pub open spec fn spec_fishing_spots(water: Seq<Target>, tiles: Seq<TileType>, w: int) -> Seq<Target>
    decreases water.len(),
{
    if water.len() == 0 {
        Seq::empty()
    } else {
        spec_fishing_spots(water.drop_last(), tiles, w) + match water.last() {
            Target::LOCATION(p) => {
                let q = Point { x: p.x, y: (p.y - 1) as i32 };
                if tiles[q.y * w + q.x] != TileType::Water { seq![Target::LOCATION(q)] } else { Seq::empty() }
            },
            Target::ENTITY(_) => Seq::empty(),
        }
    }
}

/// The first of `items` that is of the kind `item_target` means, given
/// that the inventory holds `owner` (else none).
pub open spec fn spec_first_item(items: Seq<(EntityId, Item)>, item_target: InputTargets, carried: Seq<EntityId>, owner: EntityId) -> Option<EntityId>
    decreases items.len(),
{
    if items.len() == 0 || !carried.contains(owner) {
        None
    } else if crate::ai::spec_matches(item_target, items[0].1.typ) {
        Some(items[0].0)
    } else {
        spec_first_item(items.drop_first(), item_target, carried, owner)
    }
}

/// The tasks an action can be expanded for.
pub open spec fn expandable(task: Task) -> bool {
    match task {
        Task::ExchangeInfo | Task::DropItem | Task::UseItem | Task::EquipItem | Task::UnequipItem | Task::UseWorkshop => false,
        _ => true,
    }
}

/// The target lists of the intents an action with `task` expands into.
pub open spec fn spec_expand(
    task: Task,
    owner: EntityId,
    map: TileMap,
    tiles: Seq<(usize, (TileType, Vec<EntityId>))>,
    traits: Seq<EntityTraits>,
    items: Seq<(EntityId, Item)>,
    carried: Seq<EntityId>,
) -> Seq<Seq<Target>> {
    let w = map.size.0 as int;
    match task {
        Task::Fish => spec_fishing_spots(spec_get_targets(tiles, w, traits, InputTargets::Water), map.tiles@, w)
            .map_values(|t: Target| seq![t]),
        Task::Attack(t) | Task::MoveTo(t) | Task::Destroy(t) | Task::PickUpItem(t) =>
            spec_get_targets(tiles, w, traits, t).map_values(|x: Target| seq![x]),
        Task::DepositItemToInventory(it, inv) => match spec_first_item(items, it, carried, owner) {
            Some(item) => spec_get_targets(tiles, w, traits, inv).map_values(|x: Target| seq![Target::ENTITY(item), x]),
            None => Seq::empty(),
        },
        _ => seq![Seq::empty()],
    }
}

/// The inputs of an expansion agree with what it looks at.
pub open spec fn expand_ok(
    task: Task,
    map: TileMap,
    tiles: Seq<(usize, (TileType, Vec<EntityId>))>,
    inventory: Option<Inventory>,
) -> bool {
    let w = map.size.0 as int;
    &&& expandable(task)
    &&& knowledge_fits(tiles, w)
    &&& (task matches Task::Fish ==> water_has_cell_above(tiles, w, map.tiles@.len() as int))
    &&& (task matches Task::Attack(t) ==> (t == InputTargets::Enemy ==> no_known_entities(tiles)))
    &&& (task matches Task::MoveTo(t) ==> (t == InputTargets::Enemy ==> no_known_entities(tiles)))
    &&& (task matches Task::Destroy(t) ==> (t == InputTargets::Enemy ==> no_known_entities(tiles)))
    &&& (task matches Task::PickUpItem(t) ==> (t == InputTargets::Enemy ==> no_known_entities(tiles)))
    &&& (task matches Task::DepositItemToInventory(_, t) ==> inventory is Some && (t == InputTargets::Enemy
        ==> no_known_entities(tiles)))
}

/// One intent of the action named `archetype` for `owner` on `turn`.
fn make_intent(archetype: &IntentArchetype, owner: EntityId, turn: Turn, target: Vec<Target>) -> (r: Intent)
    ensures
        r.name@ == archetype.name@,
        r.owner == owner,
        r.task == archetype.task,
        r.turn == turn,
        r.target@ == target@,
{
    Intent { name: archetype.name.clone(), owner, task: archetype.task, target, turn }
}

/// The concrete intents that the action `archetype` of `owner` expands into
/// on `turn`, from what the owner knows (`space`, with the entities'
/// `traits`), the item entities `items` and the owner's `inventory`:
/// - fishing: one intent per water target, aimed at the cell above it,
///   when that cell is not water;
/// - attacking, moving to, destroying or picking up a kind of target: one
///   intent per target of that kind;
/// - depositing an item into an inventory: for the first item of the right
///   kind (there is one only when the owner's inventory lists the owner
///   itself), one intent per inventory target, aimed at the item and it;
/// - exploring, idling or spawning: one intent with no target.
pub fn expand_intent_archetype(
    archetype: &IntentArchetype,
    owner: EntityId,
    turn: Turn,
    map: &TileMap,
    space: &SpatialKnowledge,
    traits: &Vec<EntityTraits>,
    items: &Vec<(EntityId, Item)>,
    inventory: &Option<Inventory>,
) -> (r: Vec<Intent>)
    requires
        expand_ok(archetype.task, *map, space.tiles@, *inventory),
    ensures
        ({
            let carried = match *inventory { Some(inv) => inv.items@, None => Seq::empty() };
            let spec = spec_expand(archetype.task, owner, *map, space.tiles@, traits@, items@, carried);
            &&& r@.len() == spec.len()
            &&& forall|i: int| 0 <= i < r@.len() ==> {
                &&& (#[trigger] r@[i]).name@ == archetype.name@
                &&& r@[i].owner == owner
                &&& r@[i].task == archetype.task
                &&& r@[i].turn == turn
                &&& r@[i].target@ == spec[i]
            }
        }),
{
    let ghost carried = match inventory { Some(inv) => inv.items@, None => Seq::<EntityId>::empty() };
    let ghost spec = spec_expand(archetype.task, owner, *map, space.tiles@, traits@, items@, carried);
    let ghost w = map.size.0 as int;
    let mut intents: Vec<Intent> = Vec::new();
    let mut targets: Vec<Vec<Target>> = Vec::new();
    match archetype.task {
        Task::Fish => {
            let water = space.get_targets(map, traits, InputTargets::Water);
            let mut k: usize = 0;
            while k < water.len()
                invariant
                    k <= water@.len(),
                    w == map.size.0,
                    knowledge_fits(space.tiles@, w),
                    water_has_cell_above(space.tiles@, w, map.tiles@.len() as int),
                    water@ == spec_get_targets(space.tiles@, w, traits@, InputTargets::Water),
                    targets@.len() == spec_fishing_spots(water@.subrange(0, k as int), map.tiles@, w).len(),
                    forall|i: int| 0 <= i < targets@.len() ==> (#[trigger] targets@[i])@
                        == seq![spec_fishing_spots(water@.subrange(0, k as int), map.tiles@, w)[i]],
                decreases water@.len() - k,
            {
                proof {
                    assert(water@.subrange(0, k + 1).drop_last() =~= water@.subrange(0, k as int));
                    lemma_water_targets(space.tiles@, w, traits@, k as int);
                }
                match water[k] {
                    Target::LOCATION(point) => {
                        let ghost i = choose|i: int| 0 <= i < space.tiles@.len() && {
                            &&& (#[trigger] space.tiles@[i]).1.0 == TileType::Water
                            &&& space.tiles@[i].1.1@.len() > 0
                            &&& spec_get_targets(space.tiles@, w, traits@, InputTargets::Water)[k as int] == Target::LOCATION(
                                Point { x: (space.tiles@[i].0 as int % w) as i32, y: (space.tiles@[i].0 as int / w) as i32 })
                        };
                        proof {
                            let idx = space.tiles@[i].0 as int;
                            crate::map::lemma_idx_parts(idx, w);
                            assert(idx / w >= 1) by {
                                if idx / w < 1 {
                                    let q = idx / w;
                                    assert(q == 0);
                                    assert(q * w == 0) by (nonlinear_arith) requires q == 0;
                                    assert(idx == idx % w);
                                }
                            }
                            assert(point.y - 1 == idx / w - 1);
                            assert((point.y - 1) * w + point.x == idx - w);
                        }
                        let above = Point { x: point.x, y: point.y - 1 };
                        let above_idx = map.point_idx(above);
                        if map.tiles[above_idx] != TileType::Water {
                            let mut one: Vec<Target> = Vec::new();
                            one.push(Target::LOCATION(above));
                            targets.push(one);
                        }
                    },
                    Target::ENTITY(_) => {},
                }
                k += 1;
            }
            proof {
                assert(water@.subrange(0, water@.len() as int) =~= water@);
            }
        },
        Task::Attack(t) | Task::MoveTo(t) | Task::Destroy(t) | Task::PickUpItem(t) => {
            let found = space.get_targets(map, traits, t);
            let mut k: usize = 0;
            while k < found.len()
                invariant
                    k <= found@.len(),
                    targets@.len() == k,
                    forall|i: int| 0 <= i < k ==> (#[trigger] targets@[i])@ == seq![found@[i]],
                decreases found@.len() - k,
            {
                let mut one: Vec<Target> = Vec::new();
                one.push(found[k]);
                targets.push(one);
                k += 1;
            }
        },
        Task::DepositItemToInventory(item_target, inv_target) => {
            let inv = match inventory {
                Some(inv) => inv,
                None => { return intents; },
            };
            let mut n: usize = 0;
            let mut chosen: Option<EntityId> = None;
            proof {
                assert(items@.skip(0) =~= items@);
            }
            while n < items.len()
                invariant_except_break
                    chosen is None,
                    spec_first_item(items@, item_target, carried, owner)
                        == spec_first_item(items@.skip(n as int), item_target, carried, owner),
                invariant
                    n <= items@.len(),
                    carried == inv.items@,
                ensures
                    chosen == spec_first_item(items@, item_target, carried, owner),
                decreases items@.len() - n,
            {
                proof {
                    assert(items@.skip(n as int).drop_first() =~= items@.skip(n + 1));
                }
                if !contains_id(&inv.items, owner) {
                    break;
                }
                if item_target.matches(items[n].1.typ) {
                    chosen = Some(items[n].0);
                    break;
                }
                n += 1;
            }
            if let Some(item) = chosen {
                let found = space.get_targets(map, traits, inv_target);
                let mut k: usize = 0;
                while k < found.len()
                    invariant
                        k <= found@.len(),
                        targets@.len() == k,
                        forall|i: int| 0 <= i < k ==> (#[trigger] targets@[i])@ == seq![Target::ENTITY(item), found@[i]],
                    decreases found@.len() - k,
                {
                    let mut two: Vec<Target> = Vec::new();
                    two.push(Target::ENTITY(item));
                    two.push(found[k]);
                    targets.push(two);
                    k += 1;
                }
            }
        },
        _ => {
            targets.push(Vec::new());
        },
    }
    proof {
        assert(targets@.len() == spec.len());
        assert forall|i: int| 0 <= i < targets@.len() implies (#[trigger] targets@[i])@ == spec[i] by {}
    }
    let ghost tv = targets@;
    let mut k: usize = 0;
    while k < targets.len()
        invariant
            k <= targets@.len(),
            tv.len() == targets@.len(),
            intents@.len() == k,
            forall|i: int| 0 <= i < k ==> {
                &&& (#[trigger] intents@[i]).name@ == archetype.name@
                &&& intents@[i].owner == owner
                &&& intents@[i].task == archetype.task
                &&& intents@[i].turn == turn
                &&& intents@[i].target@ == tv[i]@
            },
            forall|i: int| 0 <= i < targets@.len() ==> (#[trigger] targets@[i])@ == tv[i]@,
        decreases targets@.len() - k,
    {
        let t = targets[k].clone();
        intents.push(make_intent(archetype, owner, turn, t));
        k += 1;
    }
    intents
}

} // verus!
