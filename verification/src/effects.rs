//! What queued effects do once the entities and cells they touch are known:
//! confusion, deletion, fire, spawning, and picking up and dropping items.

use vstd::prelude::*;
use crate::components::{Confusion, Inventory, OnFire};
use crate::entity_factory::EntitySpawnTypes;
use crate::map::{EntityId, TileMap, spec_is_flammable_tile};

verus! {

/// Who or where an effect lands.
#[derive(Clone, Copy, Debug, PartialEq, Eq, Structural)]
pub enum Targets {
    /// One entity.
    Single { target: EntityId },
    /// One map cell.
    Tile { tile_idx: usize },
}

/// An effect waiting in the effect queue.
#[derive(Clone, Copy, Debug, PartialEq, Eq, Structural)]
pub enum EffectType {
    Move { tile_idx: usize },
    MoveOrAttack { tile_idx: usize },
    Wait {},
    PickUp { entity: EntityId },
    Drop { entity: EntityId },
    Explore {},
    Damage { amount: i32, target: Targets },
    Heal { amount: i32, target: Targets },
    Confusion { turns: i32, target: Targets },
    Fire { turns: i32, target: Targets },
    Delete { entity: EntityId },
    Spawn { etype: EntitySpawnTypes, target: Targets },
}

/// An effect and the entity that caused it, if any.
#[derive(Clone, Copy, Debug, PartialEq, Eq, Structural)]
pub struct EffectSpawner {
    pub creator: Option<EntityId>,
    pub effect_type: EffectType,
}

/// The confusion components a confusion effect gives to the entities it
/// touches (`affected`): each gets `Confusion { turns }`. Any other effect
/// gives none.
pub fn inflict_confusion(confusion: &EffectSpawner, affected: &Vec<EntityId>) -> (r: Vec<(EntityId, Confusion)>)
    ensures
        match confusion.effect_type {
            EffectType::Confusion { turns, .. } => {
                &&& r@.len() == affected@.len()
                &&& forall|i: int| 0 <= i < r@.len() ==> #[trigger] r@[i] == (affected@[i], Confusion { turns })
            },
            _ => r@.len() == 0,
        },
{
    let mut r: Vec<(EntityId, Confusion)> = Vec::new();
    if let EffectType::Confusion { turns, .. } = confusion.effect_type {
        let mut i: usize = 0;
        while i < affected.len()
            invariant
                i <= affected@.len(),
                r@.len() == i,
                forall|k: int| 0 <= k < i ==> #[trigger] r@[k] == (affected@[k], Confusion { turns }),
            decreases affected@.len() - i,
        {
            r.push((affected[i], Confusion { turns }));
            i += 1;
        }
    }
    r
}

/// The entity a delete effect removes; other effects remove nothing.
pub fn delete(effect: &EffectSpawner) -> (r: Option<EntityId>)
    ensures
        r == match effect.effect_type {
            EffectType::Delete { entity } => Some(entity),
            _ => None,
        },
{
    if let EffectType::Delete { entity } = effect.effect_type {
        Some(entity)
    } else {
        None
    }
}

/// The burn counter an entity gets from a fire effect of `turns` turns: the
/// smaller of what it has and `turns` when it already burns, else `turns`.
pub open spec fn spec_new_fire(current: Option<OnFire>, turns: i32) -> OnFire {
    match current {
        Some(f) => OnFire { turns: if f.turns < turns { f.turns } else { turns } },
        None => OnFire { turns },
    }
}

/// How many times `t` occurs in `s`.
pub open spec fn occurrences(s: Seq<usize>, t: int) -> int
    decreases s.len(),
{
    if s.len() == 0 {
        0
    } else {
        occurrences(s.drop_last(), t) + if s.last() == t {
            1int
        } else {
            0
        }
    }
}

proof fn lemma_occurrences_bound(s: Seq<usize>, t: int)
    ensures
        0 <= occurrences(s, t) <= s.len(),
    decreases s.len(),
{
    if s.len() > 0 {
        lemma_occurrences_bound(s.drop_last(), t);
    }
}

/// A fire effect of `turns` turns.
///
/// Every affected entity (given with the fire it already has, if any) gets
/// the counter of `spec_new_fire`; every affected cell that is flammable has
/// `turns` added to its burn counter. Effects other than fire change nothing.
pub fn inflict_fire(
    map: &mut TileMap,
    effect: &EffectSpawner,
    affected: &Vec<(EntityId, Option<OnFire>)>,
    tiles: &Vec<usize>,
) -> (r: Vec<(EntityId, OnFire)>)
    requires
        old(map).tiles@.len() == old(map).fire_turns@.len(),
        forall|i: int| 0 <= i < tiles@.len() ==> #[trigger] tiles@[i] < old(map).tiles@.len(),
        match effect.effect_type {
            EffectType::Fire { turns, .. } => turns >= 0 && forall|t: int|
                0 <= t < old(map).fire_turns@.len() ==> #[trigger] old(map).fire_turns@[t]
                    + tiles@.len() * turns <= usize::MAX,
            _ => true,
        },
    ensures
        final(map).tiles@ == old(map).tiles@,
        final(map).size == old(map).size,
        final(map).blocked@ == old(map).blocked@,
        final(map).tile_content@ == old(map).tile_content@,
        final(map).fire_turns@.len() == old(map).fire_turns@.len(),
        match effect.effect_type {
            EffectType::Fire { turns, .. } => {
                &&& r@.len() == affected@.len()
                &&& (forall|i: int|
                    0 <= i < r@.len() ==> #[trigger] r@[i] == (affected@[i].0, spec_new_fire(
                        affected@[i].1,
                        turns,
                    )))
                &&& forall|t: int|
                    0 <= t < old(map).fire_turns@.len() ==> #[trigger] final(map).fire_turns@[t]
                        == old(map).fire_turns@[t] + if spec_is_flammable_tile(old(map).tiles@[t]) {
                        occurrences(tiles@, t) * turns
                    } else {
                        0
                    }
            },
            _ => r@.len() == 0 && final(map).fire_turns@ == old(map).fire_turns@,
        },
{
    let mut r: Vec<(EntityId, OnFire)> = Vec::new();
    if let EffectType::Fire { turns, .. } = effect.effect_type {
        let mut i: usize = 0;
        while i < affected.len()
            invariant
                i <= affected@.len(),
                r@.len() == i,
                forall|k: int|
                    0 <= k < i ==> #[trigger] r@[k] == (affected@[k].0, spec_new_fire(
                        affected@[k].1,
                        turns,
                    )),
            decreases affected@.len() - i,
        {
            let (id, current) = affected[i];
            let fire = match current {
                Some(f) => OnFire { turns: if f.turns < turns { f.turns } else { turns } },
                None => OnFire { turns },
            };
            r.push((id, fire));
            i += 1;
        }
        let ghost old_fire = map.fire_turns@;
        let mut j: usize = 0;
        while j < tiles.len()
            invariant
                j <= tiles@.len(),
                turns >= 0,
                map.tiles@ == old(map).tiles@,
                map.size == old(map).size,
                map.blocked@ == old(map).blocked@,
                map.tile_content@ == old(map).tile_content@,
                map.fire_turns@.len() == old_fire.len(),
                old_fire == old(map).fire_turns@,
                map.tiles@.len() == old_fire.len(),
                forall|k: int| 0 <= k < tiles@.len() ==> #[trigger] tiles@[k] < map.tiles@.len(),
                forall|t: int|
                    0 <= t < old_fire.len() ==> #[trigger] old_fire[t] + tiles@.len() * turns
                        <= usize::MAX,
                forall|t: int|
                    0 <= t < old_fire.len() ==> #[trigger] map.fire_turns@[t] == old_fire[t]
                        + if spec_is_flammable_tile(map.tiles@[t]) {
                        occurrences(tiles@.take(j as int), t) * turns
                    } else {
                        0
                    },
            decreases tiles@.len() - j,
        {
            let t = tiles[j];
            let ghost before = map.fire_turns@;
            proof {
                assert(tiles@.take(j as int + 1).drop_last() == tiles@.take(j as int));
                assert forall|u: int| 0 <= u < old_fire.len() implies #[trigger] occurrences(
                    tiles@.take(j as int + 1),
                    u,
                ) * turns == occurrences(tiles@.take(j as int), u) * turns + if t == u {
                    turns as int
                } else {
                    0
                } by {
                    let k = occurrences(tiles@.take(j as int), u);
                    assert(tiles@.take(j as int + 1).last() == t);
                    assert((k + 1) * turns == k * turns + turns) by (nonlinear_arith);
                }
            }
            if map.is_flammable(t) {
                let cur = map.fire_turns[t];
                proof {
                    let k = occurrences(tiles@.take(j as int), t as int);
                    lemma_occurrences_bound(tiles@.take(j as int), t as int);
                    assert(k < tiles@.len());
                    assert(k * turns + turns <= tiles@.len() * turns) by (nonlinear_arith)
                        requires k < tiles@.len(), turns >= 0;
                }
                map.fire_turns.set(t, cur + turns as usize);
            }
            proof {
                assert forall|u: int| 0 <= u < old_fire.len() implies #[trigger] map.fire_turns@[u]
                    == old_fire[u] + if spec_is_flammable_tile(map.tiles@[u]) {
                    occurrences(tiles@.take(j as int + 1), u) * turns
                } else {
                    0
                } by {
                    if u != t {
                        assert(map.fire_turns@[u] == before[u]);
                    }
                }
            }
            j += 1;
        }
        proof {
            assert(tiles@.take(tiles@.len() as int) == tiles@);
        }
    }
    r
}

/// Puts `item` into the inventory. Returns whether it was already carried
/// (it is then carried twice).
pub fn pick_up(inv: &mut Inventory, item: EntityId) -> (duplicate: bool)
    ensures
        final(inv).items@ == old(inv).items@.push(item),
        final(inv).capacity == old(inv).capacity,
        duplicate == old(inv).items@.contains(item),
{
    let duplicate = crate::components::contains_id(&inv.items, item);
    inv.items.push(item);
    duplicate
}

/// Takes every copy of `item` out of the inventory; the other items keep
/// their order.
pub fn drop_item(inv: &mut Inventory, item: EntityId)
    ensures
        final(inv).items@ == old(inv).items@.filter(|e: EntityId| e != item),
        final(inv).capacity == old(inv).capacity,
{
    let ghost orig = inv.items@;
    let mut kept: Vec<EntityId> = Vec::new();
    let mut i: usize = 0;
    while i < inv.items.len()
        invariant
            i <= inv.items@.len(),
            inv.items@ == orig,
            kept@ == orig.take(i as int).filter(|e: EntityId| e != item),
        decreases inv.items@.len() - i,
    {
        let e = inv.items[i];
        proof {
            assert(orig.take(i as int + 1).drop_last() == orig.take(i as int));
            reveal(Seq::filter);
        }
        if e != item {
            kept.push(e);
        }
        i += 1;
    }
    proof {
        assert(orig.take(orig.len() as int) == orig);
    }
    inv.items = kept;
}

/// Picking an item up and then dropping it leaves it out of the inventory,
/// and leaves every other item as it was, in order.
pub proof fn law_drop_after_pick_up(before: Seq<EntityId>, item: EntityId)
    ensures
        !before.push(item).filter(|e: EntityId| e != item).contains(item),
        before.push(item).filter(|e: EntityId| e != item) == before.filter(|e: EntityId| e != item),
{
    let f = |e: EntityId| e != item;
    assert(before.push(item).drop_last() == before);
    reveal(Seq::filter);
    assert(before.push(item).filter(f) == before.filter(f));
    if before.filter(f).contains(item) {
        let k = choose|k: int| 0 <= k < before.filter(f).len() && before.filter(f)[k] == item;
        before.lemma_filter_pred(f, k);
    }
}

} // verus!
