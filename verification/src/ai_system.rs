//! The AI turn: where actors' intents come from, what each chosen intent
//! makes its actor do, and the effects that follow once moves, fishing,
//! attacks and deposits are known.

use vstd::prelude::*;
use crate::ai::{InputTargets, Task};
use crate::components::{ActorType, Aging, Faction, Position, Spawner, SpawnerType, Turn, contains_id};
use crate::effects::{EffectSpawner, EffectType, Targets};
use crate::entity_factory::EntitySpawnTypes;
use crate::intent::{Intent, Target};
use crate::map::{EntityId, TileMap, spec_xy_idx};
use crate::rng::rng_roll_dice;
use crate::tiles::TileType;
use rltk::RandomNumberGenerator;
use crate::utils::{Point, fits_i32, get_neighbors, neighbor_offsets};

verus! {

/// Where an actor's intent comes from this turn.
#[derive(Clone, Copy, Debug, PartialEq, Eq, Structural)]
pub enum IntentSource {
    /// The actor makes no intent (the player, and fish, which have their own AI).
    Skip,
    /// The actor's actions are scored and the best intent is taken.
    Choose,
    /// The actor is a spawner (see `spawner_intent`).
    Spawner,
}

/// Where the intent of an actor of type `atype` comes from.
pub open spec fn spec_intent_source(atype: ActorType) -> IntentSource {
    match atype {
        ActorType::Player | ActorType::Fish => IntentSource::Skip,
        ActorType::Orc | ActorType::Wolf | ActorType::Villager => IntentSource::Choose,
        ActorType::Spawner => IntentSource::Spawner,
    }
}

/// Where the intent of an actor of type `atype` comes from: none for the
/// player and fish, the scored actions for orcs, wolves and villagers, the
/// spawner's schedule for spawners.
pub fn intent_source(atype: ActorType) -> (r: IntentSource)
    ensures
        r == spec_intent_source(atype),
{
    match atype {
        ActorType::Player | ActorType::Fish => IntentSource::Skip,
        ActorType::Orc | ActorType::Wolf | ActorType::Villager => IntentSource::Choose,
        ActorType::Spawner => IntentSource::Spawner,
    }
}

/// Whether a spawner of `spawner` produces on `turn`: on the turns that are
/// multiples of its rate.
pub open spec fn spawns_on(spawner: Spawner, turn: Turn) -> bool {
    (turn.0 as int) % (spawner.rate as int) == 0
}

/// A number and its absolute value have the same multiples.
proof fn lemma_divides_abs(t: int, a: int, r: int)
    requires
        r > 0,
        a == if t < 0 { -t } else { t },
    ensures
        (t % r == 0) == (a % r == 0),
{
    vstd::arithmetic::div_mod::lemma_fundamental_div_mod(t, r);
    vstd::arithmetic::div_mod::lemma_fundamental_div_mod(a, r);
    if a % r == 0 {
        assert(t == (if t < 0 { -(a / r) } else { a / r }) * r) by (nonlinear_arith)
            requires a == r * (a / r), a == if t < 0 { -t } else { t };
        vstd::arithmetic::div_mod::lemma_mod_multiples_basic(if t < 0 { -(a / r) } else { a / r }, r);
    }
    if t % r == 0 {
        assert(a == (if t < 0 { -(t / r) } else { t / r }) * r) by (nonlinear_arith)
            requires t == r * (t / r), a == if t < 0 { -t } else { t };
        vstd::arithmetic::div_mod::lemma_mod_multiples_basic(if t < 0 { -(t / r) } else { t / r }, r);
    }
}

/// A number is a multiple of `r` exactly when it is one of `-r`.
proof fn lemma_divides_sign(t: int, r: int)
    requires
        r != 0,
    ensures
        (t % r == 0) == (t % (if r < 0 { -r } else { r }) == 0),
{
    if r < 0 {
        vstd::arithmetic::div_mod::lemma_fundamental_div_mod(t, -r);
        vstd::arithmetic::div_mod::lemma_fundamental_div_mod(t, r);
        if t % r == 0 {
            assert(t == (-r) * (-(t / r))) by (nonlinear_arith) requires t == r * (t / r) + t % r, t % r == 0;
            vstd::arithmetic::div_mod::lemma_mod_multiples_basic(-(t / r), -r);
            assert((-(t / r)) * (-r) == (-r) * (-(t / r))) by (nonlinear_arith);
        }
        if t % (-r) == 0 {
            let k = t / (-r);
            assert(t == r * (-k)) by (nonlinear_arith) requires t == (-r) * k + t % (-r), t % (-r) == 0;
            assert(t % r == 0) by (nonlinear_arith) requires t == r * (-k), r < 0;
        }
    }
}

/// The intent of spawner `owner` on `turn`: on the turns its spawner
/// produces, an intent named "spawn" to spawn an orc or a fish (by the
/// spawner's type); otherwise, or when it has no spawner, an intent named
/// "none" to idle. Neither has targets.
pub fn spawner_intent(owner: EntityId, spawner: Option<Spawner>, turn: Turn) -> (r: Intent)
    requires
        spawner matches Some(s) ==> s.rate != 0 && !(s.rate == -1 && turn.0 == i32::MIN),
    ensures
        r.owner == owner,
        r.turn == turn,
        r.target@.len() == 0,
        match spawner {
            Some(s) if spawns_on(s, turn) => {
                &&& r.name@ == "spawn"@
                &&& r.task == Task::Spawn(match s.typ {
                    SpawnerType::Orc => InputTargets::Orc,
                    SpawnerType::Fish => InputTargets::Fish,
                })
            },
            _ => r.name@ == "none"@ && r.task == Task::Idle,
        },
{
    if let Some(s) = spawner {
        let t: i64 = turn.0 as i64;
        let a: u64 = if t < 0 { (-t) as u64 } else { t as u64 };
        let ra: i64 = if s.rate < 0 { -(s.rate as i64) } else { s.rate as i64 };
        let rem = a % (ra as u64);
        proof {
            lemma_divides_abs(t as int, a as int, ra as int);
            lemma_divides_sign(t as int, s.rate as int);
        }
        if rem == 0 {
            let target = match s.typ {
                SpawnerType::Orc => InputTargets::Orc,
                SpawnerType::Fish => InputTargets::Fish,
            };
            return Intent { name: "spawn".to_string(), owner, task: Task::Spawn(target), target: Vec::new(), turn };
        }
    }
    Intent { name: "none".to_string(), owner, task: Task::Idle, target: Vec::new(), turn }
}

/// What an actor does about the intent it chose.
#[derive(Clone, Copy, Debug, PartialEq, Eq, Structural)]
pub enum IntentStep {
    Nothing,
    /// Queue `effect`, caused by the actor.
    Effect { effect: EffectType },
    /// Fish from cell `at` (see `fish_to_catch`).
    Fish { at: Point },
    /// Walk from `from` towards `to` (see `move_step`).
    MoveTo { from: Point, to: Point },
    /// Walk from `from` down the distance map that leads to `target`.
    Downhill { from: Point, target: EntityId },
    /// Attack whatever stands on `at`.
    Attack { at: Point },
    /// Hand the intent's item over to its second target (see `deposit_effects`).
    Deposit,
    /// Spawn an orc of `faction` on `at`.
    SpawnOrc { at: Point, faction: Faction },
    /// Spawn a fish on `at`.
    SpawnFish { at: Point },
}

/// The first cell of `e`, by the first entry listed for it.
pub open spec fn spec_pos_of(positions: Seq<(EntityId, Point)>, e: EntityId) -> Option<Point>
    decreases positions.len(),
{
    if positions.len() == 0 {
        None
    } else if positions[0].0 == e {
        Some(positions[0].1)
    } else {
        spec_pos_of(positions.drop_first(), e)
    }
}

/// The first cell of `e`, if it has a position.
pub fn pos_of(positions: &Vec<(EntityId, Point)>, e: EntityId) -> (r: Option<Point>)
    ensures
        r == spec_pos_of(positions@, e),
{
    let mut i: usize = 0;
    proof {
        assert(positions@.skip(0) =~= positions@);
    }
    while i < positions.len()
        invariant
            i <= positions@.len(),
            spec_pos_of(positions@, e) == spec_pos_of(positions@.skip(i as int), e),
        decreases positions@.len() - i,
    {
        proof {
            assert(positions@.skip(i as int).drop_first() =~= positions@.skip(i + 1));
        }
        if positions[i].0 == e {
            return Some(positions[i].1);
        }
        i += 1;
    }
    None
}

/// The tasks the engine has no behaviour for yet.
pub open spec fn unhandled_task(task: Task) -> bool {
    match task {
        Task::ExchangeInfo | Task::DropItem | Task::UseItem | Task::EquipItem | Task::UnequipItem
        | Task::UseWorkshop => true,
        _ => false,
    }
}

/// The tasks whose first target is read: walking, picking up, attacking.
pub open spec fn needs_target(task: Task) -> bool {
    match task {
        Task::MoveTo(_) | Task::PickUpItem(_) | Task::Attack(_) => true,
        _ => false,
    }
}

/// What an actor standing first on `own`, of `faction`, does about its
/// chosen `intent`, given the first cell of each entity with a position and
/// the entities that carry a distance map to themselves: fishing from its
/// cell; exploring; walking to a cell, or to an entity (down the entity's
/// distance map when it has one); nothing for destroying (done elsewhere);
/// picking up an entity; handing items over; attacking a cell or an entity's
/// cell; spawning an orc of its faction or a fish on its cell. An entity
/// target without a position, or a cell target where an entity is meant,
/// leads to nothing.
pub open spec fn spec_intent_step(
    intent: Intent,
    own: Point,
    faction: Faction,
    positions: Seq<(EntityId, Point)>,
    distance_maps: Seq<EntityId>,
) -> IntentStep {
    match intent.task {
        Task::Fish => IntentStep::Fish { at: own },
        Task::Explore => IntentStep::Effect { effect: EffectType::Explore {} },
        Task::MoveTo(_) => match intent.target@[0] {
            Target::ENTITY(t) => match spec_pos_of(positions, t) {
                Some(tp) => if distance_maps.contains(t) {
                    IntentStep::Downhill { from: own, target: t }
                } else {
                    IntentStep::MoveTo { from: own, to: tp }
                },
                None => IntentStep::Nothing,
            },
            Target::LOCATION(loc) => IntentStep::MoveTo { from: own, to: loc },
        },
        Task::PickUpItem(_) => match intent.target@[0] {
            Target::ENTITY(e) => IntentStep::Effect { effect: EffectType::PickUp { entity: e } },
            Target::LOCATION(_) => IntentStep::Nothing,
        },
        Task::DepositItemToInventory(..) => IntentStep::Deposit,
        Task::Attack(_) => match intent.target@[0] {
            Target::LOCATION(loc) => IntentStep::Attack { at: loc },
            Target::ENTITY(t) => match spec_pos_of(positions, t) {
                Some(tp) => IntentStep::Attack { at: tp },
                None => IntentStep::Nothing,
            },
        },
        Task::Spawn(InputTargets::Orc) => IntentStep::SpawnOrc { at: own, faction },
        Task::Spawn(InputTargets::Fish) => IntentStep::SpawnFish { at: own },
        _ => IntentStep::Nothing,
    }
}

/// What an actor does about its chosen intent (see `spec_intent_step`).
/// Tasks that walk, pick up or attack need a target.
pub fn intent_step(
    intent: &Intent,
    own: Point,
    faction: Faction,
    positions: &Vec<(EntityId, Point)>,
    distance_maps: &Vec<EntityId>,
) -> (r: IntentStep)
    requires
        !unhandled_task(intent.task),
        needs_target(intent.task) ==> intent.target@.len() > 0,
    ensures
        r == spec_intent_step(*intent, own, faction, positions@, distance_maps@),
{
    match intent.task {
        Task::Fish => IntentStep::Fish { at: own },
        Task::Explore => IntentStep::Effect { effect: EffectType::Explore {} },
        Task::MoveTo(_) => match intent.target[0] {
            Target::ENTITY(t) => match pos_of(positions, t) {
                Some(tp) => if contains_id(distance_maps, t) {
                    IntentStep::Downhill { from: own, target: t }
                } else {
                    IntentStep::MoveTo { from: own, to: tp }
                },
                None => IntentStep::Nothing,
            },
            Target::LOCATION(loc) => IntentStep::MoveTo { from: own, to: loc },
        },
        Task::PickUpItem(_) => match intent.target[0] {
            Target::ENTITY(e) => IntentStep::Effect { effect: EffectType::PickUp { entity: e } },
            Target::LOCATION(_) => IntentStep::Nothing,
        },
        Task::DepositItemToInventory(..) => IntentStep::Deposit,
        Task::Attack(_) => match intent.target[0] {
            Target::LOCATION(loc) => IntentStep::Attack { at: loc },
            Target::ENTITY(t) => match pos_of(positions, t) {
                Some(tp) => IntentStep::Attack { at: tp },
                None => IntentStep::Nothing,
            },
        },
        Task::Spawn(InputTargets::Orc) => IntentStep::SpawnOrc { at: own, faction },
        Task::Spawn(InputTargets::Fish) => IntentStep::SpawnFish { at: own },
        _ => IntentStep::Nothing,
    }
}

/// Whether the cells of indices `a` and `b` on a map `w` wide lie within
/// 2.1 of each other in straight-line distance: their squared distance,
/// a whole number, is at most 4.
pub open spec fn near_enough(a: int, b: int, w: int) -> bool {
    let dx = a % w - b % w;
    let dy = a / w - b / w;
    dx * dx + dy * dy <= 4
}

/// The index on `map` of a cell with non-negative coordinates.
pub open spec fn cell_idx(map: TileMap, p: Point) -> int {
    spec_xy_idx(map.size.0 as int, p.x as int, p.y as int)
}

/// A cell with non-negative coordinates whose index fits a `usize`.
pub open spec fn indexable(map: TileMap, p: Point) -> bool {
    p.x >= 0 && p.y >= 0 && cell_idx(map, p) <= usize::MAX
}

/// The step of a walk from `from` to `to` that needs no path: the index of
/// `to` when the two cells lie within 2.1 of each other; `None` when a path
/// has to be found.
pub fn move_step(map: &TileMap, from: Point, to: Point) -> (r: Option<usize>)
    requires
        map.size.0 > 0,
        indexable(*map, from),
        indexable(*map, to),
    ensures
        r == if near_enough(cell_idx(*map, from), cell_idx(*map, to), map.size.0 as int) {
            Some(cell_idx(*map, to) as usize)
        } else {
            None::<usize>
        },
{
    let w = map.size.0;
    let a = map.point_idx(from);
    let b = map.point_idx(to);
    let (ax, ay) = (a % w, a / w);
    let (bx, by) = (b % w, b / w);
    let dx: usize = if ax < bx { bx - ax } else { ax - bx };
    let dy: usize = if ay < by { by - ay } else { ay - by };
    proof {
        let ddx = a % w - b % w;
        let ddy = a / w - b / w;
        assert(ddx * ddx == dx * dx) by (nonlinear_arith) requires dx == ddx || dx == -ddx;
        assert(ddy * ddy == dy * dy) by (nonlinear_arith) requires dy == ddy || dy == -ddy;
        if dx > 2 {
            assert(dx * dx >= 9) by (nonlinear_arith) requires dx > 2;
            assert(dy * dy >= 0) by (nonlinear_arith);
        }
        if dy > 2 {
            assert(dy * dy >= 9) by (nonlinear_arith) requires dy > 2;
            assert(dx * dx >= 0) by (nonlinear_arith);
        }
    }
    if dx <= 2 && dy <= 2 {
        proof {
            assert(dx * dx <= 4 && dy * dy <= 4) by (nonlinear_arith) requires dx <= 2, dy <= 2;
        }
        if dx * dx + dy * dy <= 4 {
            return Some(b);
        }
    }
    None
}

/// The first of `content` that is among `fish`.
pub open spec fn first_fish(content: Seq<EntityId>, fish: Seq<EntityId>) -> Option<EntityId>
    decreases content.len(),
{
    if content.len() == 0 {
        None
    } else if fish.contains(content[0]) {
        Some(content[0])
    } else {
        first_fish(content.drop_first(), fish)
    }
}

/// The `i`-th neighbour of `at` (see `neighbor_offsets`).
pub open spec fn neighbour(at: Point, i: int) -> Point {
    Point { x: (at.x + neighbor_offsets()[i].0) as i32, y: (at.y + neighbor_offsets()[i].1) as i32 }
}

/// The fish caught from the first `k` neighbours of `at`: from each that is
/// water, the first fish standing on it.
pub open spec fn spec_catch(map: TileMap, at: Point, fish: Seq<EntityId>, k: int) -> Seq<EntityId>
    decreases k,
{
    if k <= 0 {
        Seq::empty()
    } else {
        let p = neighbour(at, k - 1);
        let idx = cell_idx(map, p);
        spec_catch(map, at, fish, k - 1) + if map.tiles@[idx] == TileType::Water {
            match first_fish(map.tile_content@[idx]@, fish) {
                Some(e) => seq![e],
                None => Seq::empty(),
            }
        } else {
            Seq::empty()
        }
    }
}

/// The eight neighbours of `at` lie on `map`, which lists the entities of
/// every cell.
pub open spec fn neighbours_on_map(map: TileMap, at: Point) -> bool {
    &&& fits_i32(at.x - 1) && fits_i32(at.x + 1) && fits_i32(at.y - 1) && fits_i32(at.y + 1)
    &&& map.tile_content@.len() == map.tiles@.len()
    &&& forall|i: int| 0 <= i < 8 ==> {
        let p = #[trigger] neighbour(at, i);
        p.x >= 0 && p.y >= 0 && cell_idx(map, p) < map.tiles@.len()
    }
}

/// The first entity of `content` that is a fish.
fn find_fish(content: &Vec<EntityId>, fish: &Vec<EntityId>) -> (r: Option<EntityId>)
    ensures
        r == first_fish(content@, fish@),
{
    let mut i: usize = 0;
    proof {
        assert(content@.skip(0) =~= content@);
    }
    while i < content.len()
        invariant
            i <= content@.len(),
            first_fish(content@, fish@) == first_fish(content@.skip(i as int), fish@),
        decreases content@.len() - i,
    {
        proof {
            assert(content@.skip(i as int).drop_first() =~= content@.skip(i + 1));
        }
        if contains_id(fish, content[i]) {
            return Some(content[i]);
        }
        i += 1;
    }
    None
}

/// The fish an actor fishing from `at` catches: going round the eight
/// neighbours of `at` (column by column from the north-west), from each
/// that is water the first entity on it that is a fish.
pub fn fish_to_catch(map: &TileMap, at: Point, fish: &Vec<EntityId>) -> (r: Vec<EntityId>)
    requires
        neighbours_on_map(*map, at),
    ensures
        r@ == spec_catch(*map, at, fish@, 8),
{
    let n = get_neighbors(at);
    let len = map.tiles.len();
    proof {
        assert forall|k: int| 0 <= k < 8 implies #[trigger] n@[k] == neighbour(at, k) by {
            assert(n@[k].x == at.x + neighbor_offsets()[k].0 && n@[k].y == at.y + neighbor_offsets()[k].1);
        }
    }
    let mut r: Vec<EntityId> = Vec::new();
    let mut i: usize = 0;
    while i < n.len()
        invariant
            n@.len() == 8,
            i <= 8,
            neighbours_on_map(*map, at),
            len == map.tiles@.len(),
            forall|k: int| 0 <= k < 8 ==> #[trigger] n@[k] == neighbour(at, k),
            r@ == spec_catch(*map, at, fish@, i as int),
        decreases 8 - i,
    {
        let p = n[i];
        proof {
            assert(p == neighbour(at, i as int));
            assert(p.x >= 0 && p.y >= 0 && cell_idx(*map, p) < map.tiles@.len());
        }
        let idx = map.point_idx(p);
        if map.tiles[idx] == TileType::Water {
            if let Some(e) = find_fish(&map.tile_content[idx], fish) {
                r.push(e);
            }
        }
        i += 1;
    }
    r
}

/// The attacks of actors on cells: for each `(actor, cell)`, a move-or-attack
/// effect caused by the actor on the cell's index.
pub fn attack_effects(map: &TileMap, attacks: &Vec<(EntityId, Point)>) -> (r: Vec<EffectSpawner>)
    requires
        forall|i: int| 0 <= i < attacks@.len() ==> indexable(*map, #[trigger] attacks@[i].1),
    ensures
        r@.len() == attacks@.len(),
        forall|i: int| 0 <= i < r@.len() ==> #[trigger] r@[i] == (EffectSpawner {
            creator: Some(attacks@[i].0),
            effect_type: EffectType::MoveOrAttack { tile_idx: cell_idx(*map, attacks@[i].1) as usize },
        }),
{
    let mut r: Vec<EffectSpawner> = Vec::new();
    let mut i: usize = 0;
    while i < attacks.len()
        invariant
            i <= attacks@.len(),
            r@.len() == i,
            forall|k: int| 0 <= k < attacks@.len() ==> indexable(*map, #[trigger] attacks@[k].1),
            forall|k: int| 0 <= k < i ==> #[trigger] r@[k] == (EffectSpawner {
                creator: Some(attacks@[k].0),
                effect_type: EffectType::MoveOrAttack { tile_idx: cell_idx(*map, attacks@[k].1) as usize },
            }),
        decreases attacks@.len() - i,
    {
        let (e, p) = attacks[i];
        proof {
            assert(indexable(*map, attacks@[i as int].1));
        }
        let tile_idx = map.point_idx(p);
        r.push(EffectSpawner { creator: Some(e), effect_type: EffectType::MoveOrAttack { tile_idx } });
        i += 1;
    }
    r
}

/// The hand-over effects of one depositing actor: when the intent's first
/// target is an item entity and its second an entity holding an inventory,
/// the actor drops the item and the holder picks it up.
pub open spec fn deposit_of(id: EntityId, intent: Intent) -> Seq<EffectSpawner> {
    match intent.target@[0] {
        Target::ENTITY(item) => match intent.target@[1] {
            Target::ENTITY(holder) => seq![
                EffectSpawner { creator: Some(id), effect_type: EffectType::Drop { entity: item } },
                EffectSpawner { creator: Some(holder), effect_type: EffectType::PickUp { entity: item } },
            ],
            Target::LOCATION(_) => Seq::empty(),
        },
        Target::LOCATION(_) => Seq::empty(),
    }
}

/// The hand-over effects of the first `k` depositing actors, in order.
pub open spec fn deposits_of(deposits: Seq<(EntityId, Intent)>, k: int) -> Seq<EffectSpawner>
    decreases k,
{
    if k <= 0 {
        Seq::empty()
    } else {
        deposits_of(deposits, k - 1) + deposit_of(deposits[k - 1].0, deposits[k - 1].1)
    }
}

/// An intent whose item and holder can be read: a first target, and a
/// second one when the first is an entity.
pub open spec fn deposit_readable(intent: Intent) -> bool {
    &&& intent.target@.len() > 0
    &&& intent.target@[0] is ENTITY ==> intent.target@.len() > 1
}

/// The hand-over effects of the actors that chose to deposit, in order
/// (see `deposit_of`).
pub fn deposit_effects(deposits: &Vec<(EntityId, Intent)>) -> (r: Vec<EffectSpawner>)
    requires
        forall|i: int| 0 <= i < deposits@.len() ==> deposit_readable(#[trigger] deposits@[i].1),
    ensures
        r@ == deposits_of(deposits@, deposits@.len() as int),
{
    let mut r: Vec<EffectSpawner> = Vec::new();
    let mut i: usize = 0;
    while i < deposits.len()
        invariant
            i <= deposits@.len(),
            forall|k: int| 0 <= k < deposits@.len() ==> deposit_readable(#[trigger] deposits@[k].1),
            r@ == deposits_of(deposits@, i as int),
        decreases deposits@.len() - i,
    {
        let id = deposits[i].0;
        let intent = &deposits[i].1;
        proof {
            assert(deposit_readable(deposits@[i as int].1));
        }
        if let Target::ENTITY(item) = intent.target[0] {
            if let Target::ENTITY(holder) = intent.target[1] {
                r.push(EffectSpawner { creator: Some(id), effect_type: EffectType::Drop { entity: item } });
                r.push(EffectSpawner { creator: Some(holder), effect_type: EffectType::PickUp { entity: item } });
            }
        }
        proof {
            assert(r@ =~= deposits_of(deposits@, i + 1));
        }
        i += 1;
    }
    r
}

/// The cell a target stands for: the cell itself, or the first cell of the
/// entity, or `(-1, -1)` for an entity without a position.
pub open spec fn spec_target_point(t: Target, positions: Seq<(EntityId, Point)>) -> Point {
    match t {
        Target::LOCATION(p) => p,
        Target::ENTITY(e) => match spec_pos_of(positions, e) {
            Some(p) => p,
            None => Point { x: -1i32, y: -1i32 },
        },
    }
}

/// The cell a target stands for (see `spec_target_point`).
pub fn target_point(t: Target, positions: &Vec<(EntityId, Point)>) -> (r: Point)
    ensures
        r == spec_target_point(t, positions@),
{
    match t {
        Target::LOCATION(p) => p,
        Target::ENTITY(e) => match pos_of(positions, e) {
            Some(p) => p,
            None => Point { x: -1, y: -1 },
        },
    }
}

/// The squared straight-line distance between two cells.
pub open spec fn dist2(a: Point, b: Point) -> int {
    (a.x - b.x) * (a.x - b.x) + (a.y - b.y) * (a.y - b.y)
}

/// Some cell of `cells` lies within 1.5 of `p` (squared distance at most 2).
pub open spec fn next_to(cells: Seq<Point>, p: Point) -> bool {
    exists|i: int| 0 <= i < cells.len() && dist2(#[trigger] cells[i], p) <= 2
}

/// What one actor on `cells` with `intent` takes apart: nothing unless it
/// means to destroy a target that stands for a valid cell next to one of its
/// cells; then, for an entity target, the entity is deleted, and a tree
/// leaves a log on its cell. A cell target is left alone.
pub open spec fn dismantled(
    cells: Seq<Point>,
    intent: Intent,
    positions: Seq<(EntityId, Point)>,
    trees: Seq<EntityId>,
) -> (Seq<Point>, Seq<EntityId>) {
    let tp = spec_target_point(intent.target@[0], positions);
    if intent.task is Destroy && tp != (Point { x: -1i32, y: -1i32 }) && next_to(cells, tp) {
        match intent.target@[0] {
            Target::ENTITY(e) => (if trees.contains(e) { seq![tp] } else { Seq::empty() }, seq![e]),
            Target::LOCATION(_) => (Seq::empty(), Seq::empty()),
        }
    } else {
        (Seq::empty(), Seq::empty())
    }
}

/// What the first `k` actors take apart: the logs to spawn and the entities
/// to delete, in order.
pub open spec fn spec_dismantle(
    actors: Seq<(Vec<Point>, Intent)>,
    positions: Seq<(EntityId, Point)>,
    trees: Seq<EntityId>,
    k: int,
) -> (Seq<Point>, Seq<EntityId>)
    decreases k,
{
    if k <= 0 {
        (Seq::empty(), Seq::empty())
    } else {
        let before = spec_dismantle(actors, positions, trees, k - 1);
        let d = dismantled(actors[k - 1].0@, actors[k - 1].1, positions, trees);
        (before.0 + d.0, before.1 + d.1)
    }
}

/// Whether one of `cells` lies within 1.5 of `p`.
fn any_next_to(cells: &Vec<Point>, p: Point) -> (r: bool)
    ensures
        r == next_to(cells@, p),
{
    let mut i: usize = 0;
    while i < cells.len()
        invariant
            i <= cells@.len(),
            forall|k: int| 0 <= k < i ==> dist2(#[trigger] cells@[k], p) > 2,
        decreases cells@.len() - i,
    {
        let c = cells[i];
        let dx: i128 = c.x as i128 - p.x as i128;
        let dy: i128 = c.y as i128 - p.y as i128;
        proof {
            assert(0 <= dx * dx <= 0x4_0000_0000_0000_0000int) by (nonlinear_arith)
                requires -0x1_0000_0000 <= dx <= 0x1_0000_0000;
            assert(0 <= dy * dy <= 0x4_0000_0000_0000_0000int) by (nonlinear_arith)
                requires -0x1_0000_0000 <= dy <= 0x1_0000_0000;
        }
        if dx * dx + dy * dy <= 2 {
            proof {
                assert(dist2(cells@[i as int], p) <= 2);
            }
            return true;
        }
        i += 1;
    }
    false
}

/// What the actors that mean to destroy something take apart this turn:
/// the cells where logs are to be spawned and the entities to delete, actor
/// by actor (see `dismantled`). `actors` lists the cells and intent of each
/// actor with both; `positions` the first cell of each entity with a
/// position; `trees` the entities that are trees.
pub fn dismantle(
    actors: &Vec<(Vec<Point>, Intent)>,
    positions: &Vec<(EntityId, Point)>,
    trees: &Vec<EntityId>,
) -> (r: (Vec<Point>, Vec<EntityId>))
    requires
        forall|i: int| 0 <= i < actors@.len() ==> (#[trigger] actors@[i]).1.task is Destroy ==> actors@[i].1.target@.len() > 0,
    ensures
        r.0@ == spec_dismantle(actors@, positions@, trees@, actors@.len() as int).0,
        r.1@ == spec_dismantle(actors@, positions@, trees@, actors@.len() as int).1,
{
    let mut logs: Vec<Point> = Vec::new();
    let mut deleted: Vec<EntityId> = Vec::new();
    let mut i: usize = 0;
    while i < actors.len()
        invariant
            i <= actors@.len(),
            forall|k: int| 0 <= k < actors@.len() ==> (#[trigger] actors@[k]).1.task is Destroy ==> actors@[k].1.target@.len() > 0,
            logs@ == spec_dismantle(actors@, positions@, trees@, i as int).0,
            deleted@ == spec_dismantle(actors@, positions@, trees@, i as int).1,
        decreases actors@.len() - i,
    {
        let cells = &actors[i].0;
        let intent = &actors[i].1;
        proof {
            assert(actors@[i as int].1.task is Destroy ==> actors@[i as int].1.target@.len() > 0);
        }
        if let Task::Destroy(_) = intent.task {
            let t = intent.target[0];
            let tp = target_point(t, positions);
            if !(tp.x == -1 && tp.y == -1) && any_next_to(cells, tp) {
                if let Target::ENTITY(e) = t {
                    if contains_id(trees, e) {
                        logs.push(tp);
                    }
                    deleted.push(e);
                }
            }
        }
        proof {
            assert(logs@ =~= spec_dismantle(actors@, positions@, trees@, i + 1).0);
            assert(deleted@ =~= spec_dismantle(actors@, positions@, trees@, i + 1).1);
        }
        i += 1;
    }
    (logs, deleted)
}

/// The first place among `top` (from `i` on) whose score is below `score`.
pub open spec fn first_below(top: Seq<(EntityId, i32)>, score: i32, i: int) -> Option<int>
    decreases top.len() - i,
{
    if i < 0 || i >= top.len() {
        None
    } else if score > top[i].1 {
        Some(i)
    } else {
        first_below(top, score, i + 1)
    }
}

/// The best three after seeing one more villager: while fewer than three
/// are kept it joins at the end; then it goes before the first kept one
/// with a lower score and the last one drops out, or is not kept.
pub open spec fn top_step(top: Seq<(EntityId, i32)>, v: (EntityId, i32)) -> Seq<(EntityId, i32)> {
    if top.len() < 3 {
        top.push(v)
    } else {
        match first_below(top, v.1, 0) {
            Some(i) => top.insert(i, v).drop_last(),
            None => top,
        }
    }
}

/// The best three among the villagers of the first `k` actors.
pub open spec fn spec_top_villagers(actors: Seq<(EntityId, ActorType, i32)>, k: int) -> Seq<(EntityId, i32)>
    decreases k,
{
    if k <= 0 {
        Seq::empty()
    } else {
        let before = spec_top_villagers(actors, k - 1);
        let a = actors[k - 1];
        if a.1 == ActorType::Villager { top_step(before, (a.0, a.2)) } else { before }
    }
}

/// A place `first_below` finds lies within the list, from `i` on.
proof fn lemma_first_below_range(top: Seq<(EntityId, i32)>, score: i32, i: int)
    requires
        0 <= i,
    ensures
        first_below(top, score, i) matches Some(j) ==> i <= j < top.len(),
    decreases top.len() - i,
{
    if i < top.len() && !(score > top[i].1) {
        lemma_first_below_range(top, score, i + 1);
    }
}

/// The first place in `top` whose score is below `score`.
fn place_below(top: &Vec<(EntityId, i32)>, score: i32) -> (r: Option<usize>)
    ensures
        r == match first_below(top@, score, 0) {
            Some(j) => Some(j as usize),
            None => None::<usize>,
        },
{
    let mut i: usize = 0;
    proof {
        lemma_first_below_range(top@, score, 0);
    }
    while i < top.len()
        invariant
            i <= top@.len(),
            first_below(top@, score, 0) == first_below(top@, score, i as int),
        decreases top@.len() - i,
    {
        if score > top[i].1 {
            return Some(i);
        }
        i += 1;
    }
    None
}

/// The best three villagers by score among `actors` (each with its type and
/// score), as kept by `top_step`: the first three villagers in the order
/// seen, then each later one with a higher score than some kept one pushes
/// the last kept one out.
pub fn top_villagers(actors: &Vec<(EntityId, ActorType, i32)>) -> (r: Vec<(EntityId, i32)>)
    ensures
        r@ == spec_top_villagers(actors@, actors@.len() as int),
        r@.len() <= 3,
{
    let mut top: Vec<(EntityId, i32)> = Vec::new();
    let mut k: usize = 0;
    while k < actors.len()
        invariant
            k <= actors@.len(),
            top@ == spec_top_villagers(actors@, k as int),
            top@.len() <= 3,
        decreases actors@.len() - k,
    {
        let (id, atype, score) = actors[k];
        if atype == ActorType::Villager {
            if top.len() < 3 {
                top.push((id, score));
            } else {
                let at = place_below(&top, score);
                if let Some(i) = at {
                    proof {
                        lemma_first_below_range(top@, score, 0);
                    }
                    let ghost before = top@;
                    top.insert(i, (id, score));
                    top.pop();
                    proof {
                        assert(top@ =~= before.insert(i as int, (id, score)).drop_last());
                    }
                }
            }
        }
        k += 1;
    }
    top
}

/// The villagers among the first `k` actors.
pub open spec fn villager_count(actors: Seq<(EntityId, ActorType, i32)>, k: int) -> int
    decreases k,
{
    if k <= 0 {
        0
    } else {
        villager_count(actors, k - 1) + if actors[k - 1].1 == ActorType::Villager { 1int } else { 0 }
    }
}

/// Three villagers seen means three kept.
proof fn lemma_top_full(actors: Seq<(EntityId, ActorType, i32)>, k: int)
    requires
        0 <= k <= actors.len(),
    ensures
        spec_top_villagers(actors, k).len() == if villager_count(actors, k) < 3 { villager_count(actors, k) } else { 3 },
    decreases k,
{
    if k > 0 {
        lemma_top_full(actors, k - 1);
        lemma_first_below_range(spec_top_villagers(actors, k - 1), actors[k - 1].2, 0);
    }
}

/// One of the best three villagers (see `top_villagers`), picked by a roll
/// of a three-sided die. There must be at least three villagers.
pub fn pick_top_villager(actors: &Vec<(EntityId, ActorType, i32)>, rng: &mut RandomNumberGenerator) -> (r: EntityId)
    requires
        villager_count(actors@, actors@.len() as int) >= 3,
    ensures
        exists|j: int| 0 <= j < 3 && r == (#[trigger] spec_top_villagers(actors@, actors@.len() as int)[j]).0,
{
    let top = top_villagers(actors);
    proof {
        lemma_top_full(actors@, actors@.len() as int);
    }
    let roll = rng_roll_dice(rng, 1, 3);
    let ridx = (roll - 1) as usize;
    let r = top[ridx].0;
    proof {
        assert(r == spec_top_villagers(actors@, actors@.len() as int)[ridx as int].0);
    }
    r
}

/// The age, in turns, past which a villager may die of old age.
pub const MAX_AGE: i32 = 250;

/// Whether an actor of type `atype`, `turns` old, dies of old age given a
/// roll of a three-sided die: villagers past `MAX_AGE` do on a roll of 1.
pub open spec fn spec_ages_out(atype: ActorType, turns: i32, roll: i32) -> bool {
    atype == ActorType::Villager && turns > MAX_AGE && roll < 2
}

/// Whether an actor dies of old age (see `spec_ages_out`).
pub fn ages_out(atype: ActorType, turns: i32, roll: i32) -> (r: bool)
    ensures
        r == spec_ages_out(atype, turns, roll),
{
    atype == ActorType::Villager && turns > MAX_AGE && roll < 2
}

/// The actors among the first `k` of `aging` that die, each with its roll.
pub open spec fn deaths(aging: Seq<(EntityId, ActorType, Aging)>, rolls: Seq<i32>, k: int) -> Seq<EntityId>
    decreases k,
{
    if k <= 0 {
        Seq::empty()
    } else {
        let a = aging[k - 1];
        deaths(aging, rolls, k - 1) + if spec_ages_out(a.1, a.2.turns, rolls[k - 1]) { seq![a.0] } else { Seq::empty() }
    }
}

/// The villagers among the first `k` of `aging` that do not die, each with
/// its roll.
pub open spec fn villagers_left(aging: Seq<(EntityId, ActorType, Aging)>, rolls: Seq<i32>, k: int) -> int
    decreases k,
{
    if k <= 0 {
        0
    } else {
        let a = aging[k - 1];
        villagers_left(aging, rolls, k - 1) + if a.1 == ActorType::Villager && !spec_ages_out(a.1, a.2.turns, rolls[k - 1]) {
            1int
        } else {
            0
        }
    }
}

/// One turn of time: the turn counter and the age of every aging actor go
/// up by one, and the villagers past `MAX_AGE` die with one chance in three
/// each. Returns the actors that die, in order, and how many villagers are
/// left; which die depends on the rolls, which are not stated.
pub fn advance_time(turn: &mut Turn, aging: &mut Vec<(EntityId, ActorType, Aging)>, rng: &mut RandomNumberGenerator) -> (r: (Vec<EntityId>, usize))
    requires
        old(turn).0 < i32::MAX,
        forall|i: int| 0 <= i < old(aging)@.len() ==> (#[trigger] old(aging)@[i]).2.turns < i32::MAX,
    ensures
        final(turn).0 == old(turn).0 + 1,
        final(aging)@.len() == old(aging)@.len(),
        forall|i: int| 0 <= i < final(aging)@.len() ==> {
            &&& (#[trigger] final(aging)@[i]).0 == old(aging)@[i].0
            &&& final(aging)@[i].1 == old(aging)@[i].1
            &&& final(aging)@[i].2.turns == old(aging)@[i].2.turns + 1
        },
        exists|rolls: Seq<i32>| {
            &&& rolls.len() == final(aging)@.len()
            &&& forall|i: int| 0 <= i < rolls.len() ==> 1 <= #[trigger] rolls[i] <= 3
            &&& r.0@ == deaths(final(aging)@, rolls, final(aging)@.len() as int)
            &&& r.1 == villagers_left(final(aging)@, rolls, final(aging)@.len() as int)
        },
{
    turn.0 = turn.0 + 1;
    let mut r: Vec<EntityId> = Vec::new();
    let mut left: usize = 0;
    let ghost mut rolls: Seq<i32> = Seq::empty();
    let mut i: usize = 0;
    while i < aging.len()
        invariant
            i <= aging@.len(),
            aging@.len() == old(aging)@.len(),
            rolls.len() == i,
            left <= i,
            forall|k: int| 0 <= k < rolls.len() ==> 1 <= #[trigger] rolls[k] <= 3,
            forall|k: int| 0 <= k < old(aging)@.len() ==> (#[trigger] old(aging)@[k]).2.turns < i32::MAX,
            forall|k: int| 0 <= k < aging@.len() ==> {
                &&& (#[trigger] aging@[k]).0 == old(aging)@[k].0
                &&& aging@[k].1 == old(aging)@[k].1
                &&& aging@[k].2.turns == old(aging)@[k].2.turns + if k < i { 1int } else { 0 }
            },
            r@ == deaths(aging@, rolls, i as int),
            left == villagers_left(aging@, rolls, i as int),
        decreases aging@.len() - i,
    {
        let (id, atype, a) = aging[i];
        proof {
            assert(old(aging)@[i as int].2.turns < i32::MAX);
        }
        let turns = a.turns + 1;
        let ghost before = aging@;
        aging.set(i, (id, atype, Aging { turns }));
        let mut roll: i32 = 1;
        if atype == ActorType::Villager && turns > MAX_AGE {
            roll = rng_roll_dice(rng, 1, 3);
        } else {
            roll = 3;
        }
        if ages_out(atype, turns, roll) {
            r.push(id);
        } else if atype == ActorType::Villager {
            left += 1;
        }
        proof {
            let old_rolls = rolls;
            rolls = rolls.push(roll);
            lemma_deaths_prefix(aging@, before, rolls, old_rolls, i as int);
            lemma_left_prefix(aging@, before, rolls, old_rolls, i as int);
            assert(aging@[i as int] == (id, atype, Aging { turns }));
            assert(rolls[i as int] == roll);
            assert(r@ =~= deaths(aging@, rolls, i + 1));
        }
        i += 1;
    }
    (r, left)
}

/// Villagers left among the first `k` actors depend on those actors and
/// rolls only.
proof fn lemma_left_prefix(
    a: Seq<(EntityId, ActorType, Aging)>,
    b: Seq<(EntityId, ActorType, Aging)>,
    ra: Seq<i32>,
    rb: Seq<i32>,
    k: int,
)
    requires
        0 <= k <= a.len(),
        k <= b.len(),
        k <= ra.len(),
        k <= rb.len(),
        forall|j: int| 0 <= j < k ==> a[j] == b[j] && ra[j] == rb[j],
    ensures
        villagers_left(a, ra, k) == villagers_left(b, rb, k),
    decreases k,
{
    if k > 0 {
        lemma_left_prefix(a, b, ra, rb, k - 1);
    }
}

/// Deaths among the first `k` actors depend on those actors and rolls only.
proof fn lemma_deaths_prefix(
    a: Seq<(EntityId, ActorType, Aging)>,
    b: Seq<(EntityId, ActorType, Aging)>,
    ra: Seq<i32>,
    rb: Seq<i32>,
    k: int,
)
    requires
        0 <= k <= a.len(),
        k <= b.len(),
        k <= ra.len(),
        k <= rb.len(),
        forall|j: int| 0 <= j < k ==> a[j] == b[j] && ra[j] == rb[j],
    ensures
        deaths(a, ra, k) == deaths(b, rb, k),
    decreases k,
{
    if k > 0 {
        lemma_deaths_prefix(a, b, ra, rb, k - 1);
    }
}

/// The cell north of `h` lies on the map's index range.
pub open spec fn door_indexable(map: TileMap, h: Point) -> bool {
    h.x >= 0 && h.y >= 1 && spec_xy_idx(map.size.0 as int, h.x as int, h.y - 1) <= usize::MAX
}

/// The cells in front of the houses (the cell north of each house's first
/// cell), where newborn villagers appear.
pub fn house_doors(map: &TileMap, houses: &Vec<Point>) -> (r: Vec<usize>)
    requires
        forall|i: int| 0 <= i < houses@.len() ==> door_indexable(*map, #[trigger] houses@[i]),
    ensures
        r@.len() == houses@.len(),
        forall|i: int| 0 <= i < r@.len() ==> #[trigger] r@[i] == spec_xy_idx(map.size.0 as int, houses@[i].x as int, houses@[i].y - 1),
{
    let mut r: Vec<usize> = Vec::new();
    let mut i: usize = 0;
    while i < houses.len()
        invariant
            i <= houses@.len(),
            r@.len() == i,
            forall|k: int| 0 <= k < houses@.len() ==> door_indexable(*map, #[trigger] houses@[k]),
            forall|k: int| 0 <= k < i ==> #[trigger] r@[k] == spec_xy_idx(map.size.0 as int, houses@[k].x as int, houses@[k].y - 1),
        decreases houses@.len() - i,
    {
        let h = houses[i];
        proof {
            assert(door_indexable(*map, houses@[i as int]));
        }
        r.push(map.point_idx(Point { x: h.x, y: h.y - 1 }));
        i += 1;
    }
    r
}

/// One of `doors`, picked by a roll of a die with as many faces.
pub fn pick_door(doors: &Vec<usize>, rng: &mut RandomNumberGenerator) -> (r: usize)
    requires
        0 < doors@.len() < i32::MAX,
    ensures
        doors@.contains(r),
{
    let roll = rng_roll_dice(rng, 1, doors.len() as i32);
    let idx = (roll - 1) as usize;
    let r = doors[idx];
    proof {
        assert(doors@[idx as int] == r);
    }
    r
}

/// The cells listed first for `e`.
pub open spec fn spec_cells_of(positions: Seq<(EntityId, Position)>, e: EntityId) -> Option<Seq<Point>>
    decreases positions.len(),
{
    if positions.len() == 0 {
        None
    } else if positions[0].0 == e {
        Some(positions[0].1.ps@)
    } else {
        spec_cells_of(positions.drop_first(), e)
    }
}

/// The map indices a target stands for when distances are measured: the
/// cell of a cell target; every cell of an entity target, or index 0 for an
/// entity without a position.
pub open spec fn spec_target_idxes(map: TileMap, t: Target, positions: Seq<(EntityId, Position)>) -> Seq<usize> {
    match t {
        Target::LOCATION(l) => seq![cell_idx(map, l) as usize],
        Target::ENTITY(e) => match spec_cells_of(positions, e) {
            Some(ps) => ps.map_values(|p: Point| cell_idx(map, p) as usize),
            None => seq![0usize],
        },
    }
}

/// Every cell of every listed position is indexable on `map`.
pub open spec fn positions_indexable(map: TileMap, positions: Seq<(EntityId, Position)>) -> bool {
    forall|i: int, k: int| 0 <= i < positions.len() && 0 <= k < positions[i].1.ps@.len()
        ==> indexable(map, #[trigger] positions[i].1.ps@[k])
}

/// The map indices a target stands for when distances are measured (see
/// `spec_target_idxes`).
pub fn target_idxes(map: &TileMap, t: Target, positions: &Vec<(EntityId, Position)>) -> (r: Vec<usize>)
    requires
        t matches Target::LOCATION(l) ==> indexable(*map, l),
        positions_indexable(*map, positions@),
    ensures
        r@ == spec_target_idxes(*map, t, positions@),
{
    match t {
        Target::LOCATION(l) => {
            let mut r: Vec<usize> = Vec::new();
            r.push(map.point_idx(l));
            proof {
                assert(r@ =~= seq![cell_idx(*map, l) as usize]);
            }
            r
        },
        Target::ENTITY(e) => {
            let mut i: usize = 0;
            proof {
                assert(positions@.skip(0) =~= positions@);
            }
            while i < positions.len()
                invariant
                    i <= positions@.len(),
                    t == Target::ENTITY(e),
                    positions_indexable(*map, positions@),
                    spec_cells_of(positions@, e) == spec_cells_of(positions@.skip(i as int), e),
                decreases positions@.len() - i,
            {
                proof {
                    assert(positions@.skip(i as int).drop_first() =~= positions@.skip(i + 1));
                    assert(positions@.skip(i as int)[0] == positions@[i as int]);
                }
                if positions[i].0 == e {
                    proof {
                        assert forall|k: int| 0 <= k < positions@[i as int].1.ps@.len() implies {
                            let p = #[trigger] positions@[i as int].1.ps@[k];
                            p.x >= 0 && p.y >= 0 && spec_xy_idx(map.size.0 as int, p.x as int, p.y as int) <= usize::MAX
                        } by {
                            assert(indexable(*map, positions@[i as int].1.ps@[k]));
                        }
                    }
                    let r = positions[i].1.idxes(map);
                    proof {
                        assert(r@ =~= positions@[i as int].1.ps@.map_values(|p: Point| cell_idx(*map, p) as usize));
                        assert(positions@.skip(i as int).len() > 0);
                        assert(spec_cells_of(positions@.skip(i as int), e) == Some(positions@[i as int].1.ps@));

                    }
                    return r;
                }
                i += 1;
            }
            let mut r: Vec<usize> = Vec::new();
            r.push(0);
            proof {
                assert(r@ =~= seq![0usize]);
            }
            r
        },
    }
}

/// The deletion effects of the actors in `dead`, in order.
pub open spec fn deletions(dead: Seq<EntityId>) -> Seq<EffectSpawner> {
    dead.map_values(|e: EntityId| EffectSpawner { creator: None, effect_type: EffectType::Delete { entity: e } })
}

/// A villager left means a villager listed.
proof fn lemma_left_listed(aging: Seq<(EntityId, ActorType, Aging)>, rolls: Seq<i32>, k: int)
    requires
        0 <= k <= aging.len(),
        villagers_left(aging, rolls, k) > 0,
    ensures
        exists|j: int| 0 <= j < k && (#[trigger] aging[j]).1 == ActorType::Villager,
    decreases k,
{
    let a = aging[k - 1];
    if !(a.1 == ActorType::Villager && !spec_ages_out(a.1, a.2.turns, rolls[k - 1])) {
        lemma_left_listed(aging, rolls, k - 1);
    } else {
        assert(aging[k - 1].1 == ActorType::Villager);
    }
}

/// The effects of a turn of the clock: the deletions of the `dead`, then,
/// while one to nineteen villagers are `left`, the spawning of a villager in
/// front of one of `houses`.
pub open spec fn time_effects_ok(r: Seq<EffectSpawner>, dead: Seq<EntityId>, left: int, map: TileMap, houses: Seq<Point>) -> bool {
    &&& r.len() == dead.len() + if 0 < left < 20 { 1int } else { 0 }
    &&& r.take(dead.len() as int) == deletions(dead)
    &&& (0 < left < 20 ==> exists|h: int| 0 <= h < houses.len() && r.last() == (EffectSpawner {
        creator: None,
        effect_type: EffectType::Spawn {
            etype: EntitySpawnTypes::Villager,
            target: Targets::Tile {
                tile_idx: spec_xy_idx(map.size.0 as int, (#[trigger] houses[h]).x as int, houses[h].y - 1) as usize,
            },
        },
    }))
}

/// One turn of the clock (see `advance_time`): each villager that dies of
/// old age is deleted; then, while one to nineteen villagers are left, a
/// villager is spawned in front of a house picked at random (see
/// `house_doors`). Returns the effects, in that order.
pub fn run_time_system(
    map: &TileMap,
    turn: &mut Turn,
    aging: &mut Vec<(EntityId, ActorType, Aging)>,
    houses: &Vec<Point>,
    rng: &mut RandomNumberGenerator,
) -> (r: Vec<EffectSpawner>)
    requires
        old(turn).0 < i32::MAX,
        forall|i: int| 0 <= i < old(aging)@.len() ==> (#[trigger] old(aging)@[i]).2.turns < i32::MAX,
        forall|i: int| 0 <= i < houses@.len() ==> door_indexable(*map, #[trigger] houses@[i]),
        houses@.len() < i32::MAX,
        (exists|i: int| 0 <= i < old(aging)@.len() && (#[trigger] old(aging)@[i]).1 == ActorType::Villager) ==> houses@.len() > 0,
    ensures
        final(turn).0 == old(turn).0 + 1,
        final(aging)@.len() == old(aging)@.len(),
        forall|i: int| 0 <= i < final(aging)@.len() ==> {
            &&& (#[trigger] final(aging)@[i]).0 == old(aging)@[i].0
            &&& final(aging)@[i].1 == old(aging)@[i].1
            &&& final(aging)@[i].2.turns == old(aging)@[i].2.turns + 1
        },
        exists|rolls: Seq<i32>| #![trigger deaths(final(aging)@, rolls, final(aging)@.len() as int)] {
            &&& rolls.len() == final(aging)@.len()
            &&& forall|i: int| 0 <= i < rolls.len() ==> 1 <= #[trigger] rolls[i] <= 3
            &&& time_effects_ok(
                r@,
                deaths(final(aging)@, rolls, final(aging)@.len() as int),
                villagers_left(final(aging)@, rolls, final(aging)@.len() as int),
                *map,
                houses@,
            )
        },
{
    let (dead, left) = advance_time(turn, aging, rng);
    let ghost rolls = choose|rolls: Seq<i32>| {
        &&& rolls.len() == aging@.len()
        &&& forall|i: int| 0 <= i < rolls.len() ==> 1 <= #[trigger] rolls[i] <= 3
        &&& dead@ == deaths(aging@, rolls, aging@.len() as int)
        &&& left == villagers_left(aging@, rolls, aging@.len() as int)
    };
    let mut r: Vec<EffectSpawner> = Vec::new();
    let mut i: usize = 0;
    while i < dead.len()
        invariant
            i <= dead@.len(),
            r@ == deletions(dead@.take(i as int)),
        decreases dead@.len() - i,
    {
        r.push(EffectSpawner { creator: None, effect_type: EffectType::Delete { entity: dead[i] } });
        proof {
            assert(r@ =~= deletions(dead@.take(i + 1)));
        }
        i += 1;
    }
    proof {
        assert(dead@.take(dead@.len() as int) =~= dead@);
    }
    if 0 < left && left < 20 {
        proof {
            lemma_left_listed(aging@, rolls, aging@.len() as int);
            let j = choose|j: int| 0 <= j < aging@.len() && (#[trigger] aging@[j]).1 == ActorType::Villager;
            assert(old(aging)@[j].1 == ActorType::Villager);
        }
        let doors = house_doors(map, houses);
        let door = pick_door(&doors, rng);
        let ghost before = r@;
        r.push(EffectSpawner {
            creator: None,
            effect_type: EffectType::Spawn { etype: EntitySpawnTypes::Villager, target: Targets::Tile { tile_idx: door } },
        });
        proof {
            assert(r@.take(dead@.len() as int) =~= before);
            let h = choose|h: int| 0 <= h < doors@.len() && doors@[h] == door;
            assert(door == spec_xy_idx(map.size.0 as int, houses@[h].x as int, houses@[h].y - 1));
        }
    } else {
        proof {
            assert(r@.take(dead@.len() as int) =~= r@);
        }
    }
    r
}

} // verus!
