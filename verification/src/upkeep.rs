//! End-of-turn upkeep: clearing away the dead, dropping the items actors
//! asked to drop, and recording what actors see.

use vstd::prelude::*;
use crate::ai_system::deletions;
use crate::ai::Task;
use crate::ai_system::{deposit_of, deposit_readable};
use crate::components::{Inventory, PhysicalStats, Position, Vision, WantsToDropItem, WantsToPickupItem, WantsToUnequipItem, contains_id};
use crate::intent::{Intent, SpatialKnowledge, Target};
use crate::tiles::TileType;
use crate::utils::Point;
use crate::effects::{EffectSpawner, EffectType};
use crate::map::{EntityId, TileMap, lemma_xy_idx_bound, spec_xy_idx};

verus! {

/// Whether the entity of `e` is dead and not the player: out of hit points,
/// and not among `players`.
pub open spec fn dies(e: (EntityId, PhysicalStats), players: Seq<EntityId>) -> bool {
    e.1.hp <= 0 && !players.contains(e.0)
}

/// The dead among the first `k` entities with stats, in order (see `dies`).
pub open spec fn dead_ids(stats: Seq<(EntityId, PhysicalStats)>, players: Seq<EntityId>, k: int) -> Seq<EntityId>
    decreases k,
{
    if k <= 0 {
        Seq::empty()
    } else {
        dead_ids(stats, players, k - 1) + if dies(stats[k - 1], players) { seq![stats[k - 1].0] } else { Seq::empty() }
    }
}

/// The items carried by `id`, by the inventory listed first for it (none
/// without one).
pub open spec fn carried_by(invs: Seq<(EntityId, Inventory)>, id: EntityId) -> Seq<EntityId>
    decreases invs.len(),
{
    if invs.len() == 0 {
        Seq::empty()
    } else if invs[0].0 == id {
        invs[0].1.items@
    } else {
        carried_by(invs.drop_first(), id)
    }
}

/// The items carried by the first `k` of `dead`, in order.
pub open spec fn carried_by_all(invs: Seq<(EntityId, Inventory)>, dead: Seq<EntityId>, k: int) -> Seq<EntityId>
    decreases k,
{
    if k <= 0 {
        Seq::empty()
    } else {
        carried_by_all(invs, dead, k - 1) + carried_by(invs, dead[k - 1])
    }
}

/// The name listed first for `id`, as a sequence of at most one name.
pub open spec fn name_seq(names: Seq<(EntityId, String)>, id: EntityId) -> Seq<Seq<char>>
    decreases names.len(),
{
    if names.len() == 0 {
        Seq::empty()
    } else if names[0].0 == id {
        seq![names[0].1@]
    } else {
        name_seq(names.drop_first(), id)
    }
}

/// The names of the first `k` of `dead` that have one, in order.
pub open spec fn names_of(names: Seq<(EntityId, String)>, dead: Seq<EntityId>, k: int) -> Seq<Seq<char>>
    decreases k,
{
    if k <= 0 {
        Seq::empty()
    } else {
        names_of(names, dead, k - 1) + name_seq(names, dead[k - 1])
    }
}

/// No entity is listed twice.
pub open spec fn ids_distinct<T>(s: Seq<(EntityId, T)>) -> bool {
    forall|i: int, j: int| 0 <= i < j < s.len() ==> (#[trigger] s[i]).0 != (#[trigger] s[j]).0
}

/// Where the inventory of `id` is listed.
fn inventory_index(invs: &Vec<(EntityId, Inventory)>, id: EntityId) -> (r: Option<usize>)
    ensures
        match r {
            Some(j) => j < invs@.len() && invs@[j as int].0 == id && carried_by(invs@, id) == invs@[j as int].1.items@
                && forall|q: int| 0 <= q < j ==> (#[trigger] invs@[q]).0 != id,
            None => carried_by(invs@, id) == Seq::<EntityId>::empty() && forall|q: int| 0 <= q < invs@.len() ==> (#[trigger] invs@[q]).0 != id,
        },
{
    let mut i: usize = 0;
    proof {
        assert(invs@.skip(0) =~= invs@);
    }
    while i < invs.len()
        invariant
            i <= invs@.len(),
            carried_by(invs@, id) == carried_by(invs@.skip(i as int), id),
            forall|q: int| 0 <= q < i ==> (#[trigger] invs@[q]).0 != id,
        decreases invs@.len() - i,
    {
        proof {
            assert(invs@.skip(i as int).drop_first() =~= invs@.skip(i + 1));
            assert(invs@.skip(i as int)[0] == invs@[i as int]);
        }
        if invs[i].0 == id {
            return Some(i);
        }
        i += 1;
    }
    None
}

/// The name of `id`, if it has one.
fn name_of(names: &Vec<(EntityId, String)>, id: EntityId) -> (r: Option<String>)
    ensures
        match r {
            Some(n) => name_seq(names@, id) == seq![n@],
            None => name_seq(names@, id) == Seq::<Seq<char>>::empty(),
        },
{
    let mut i: usize = 0;
    proof {
        assert(names@.skip(0) =~= names@);
    }
    while i < names.len()
        invariant
            i <= names@.len(),
            name_seq(names@, id) == name_seq(names@.skip(i as int), id),
        decreases names@.len() - i,
    {
        proof {
            assert(names@.skip(i as int).drop_first() =~= names@.skip(i + 1));
            assert(names@.skip(i as int)[0] == names@[i as int]);
        }
        if names[i].0 == id {
            return Some(names[i].1.clone());
        }
        i += 1;
    }
    None
}

/// Clears away the dead: every entity out of hit points that is not the
/// player is deleted, its carried items stop being worn and its inventory
/// is emptied. Returns the deletions, the items no longer worn and the
/// names of the dead (for the log), each in the order of `stats`.
pub fn run_cleanup_system(
    stats: &Vec<(EntityId, PhysicalStats)>,
    players: &Vec<EntityId>,
    invs: &mut Vec<(EntityId, Inventory)>,
    names: &Vec<(EntityId, String)>,
) -> (r: (Vec<EffectSpawner>, Vec<EntityId>, Vec<String>))
    requires
        ids_distinct(stats@),
        ids_distinct(old(invs)@),
    ensures
        ({
            let dead = dead_ids(stats@, players@, stats@.len() as int);
            &&& r.0@ == deletions(dead)
            &&& r.1@ == carried_by_all(old(invs)@, dead, dead.len() as int)
            &&& r.2@.map_values(|s: String| s@) == names_of(names@, dead, dead.len() as int)
            &&& final(invs)@.len() == old(invs)@.len()
            &&& forall|j: int| 0 <= j < old(invs)@.len() ==> {
                &&& (#[trigger] final(invs)@[j]).0 == old(invs)@[j].0
                &&& final(invs)@[j].1.capacity == old(invs)@[j].1.capacity
                &&& final(invs)@[j].1.items@ == if dead.contains(old(invs)@[j].0) {
                    Seq::empty()
                } else {
                    old(invs)@[j].1.items@
                }
            }
        }),
{
    let ghost inv0 = invs@;
    let mut deleted: Vec<EffectSpawner> = Vec::new();
    let mut unworn: Vec<EntityId> = Vec::new();
    let mut dead_names: Vec<String> = Vec::new();
    let ghost mut dead: Seq<EntityId> = Seq::empty();
    let mut k: usize = 0;
    while k < stats.len()
        invariant
            k <= stats@.len(),
            ids_distinct(stats@),
            ids_distinct(inv0),
            dead == dead_ids(stats@, players@, k as int),
            forall|q: int| 0 <= q < dead.len() ==> exists|p: int| 0 <= p < k && (#[trigger] dead[q]) == stats@[p].0,
            deleted@ == deletions(dead),
            unworn@ == carried_by_all(inv0, dead, dead.len() as int),
            dead_names@.map_values(|s: String| s@) == names_of(names@, dead, dead.len() as int),
            invs@.len() == inv0.len(),
            forall|j: int| 0 <= j < inv0.len() ==> {
                &&& (#[trigger] invs@[j]).0 == inv0[j].0
                &&& invs@[j].1.capacity == inv0[j].1.capacity
                &&& invs@[j].1.items@ == if dead.contains(inv0[j].0) { Seq::empty() } else { inv0[j].1.items@ }
            },
        decreases stats@.len() - k,
    {
        let (id, st) = stats[k];
        let is_player = contains_id(players, id);
        if st.hp <= 0 && !is_player {
            proof {
                assert(!dead.contains(id)) by {
                    if dead.contains(id) {
                        let q = choose|q: int| 0 <= q < dead.len() && dead[q] == id;
                        let p = choose|p: int| 0 <= p < k && dead[q] == stats@[p].0;
                        assert(stats@[p].0 == stats@[k as int].0);
                    }
                }
            }
            let ghost old_dead = dead;
            let ghost unworn_before = unworn@;
            let ghost new_dead = dead.push(id);
            if let Some(j) = inventory_index(invs, id) {
                let mut i: usize = 0;
                let ghost before = unworn@;
                proof {
                    assert(invs@[j as int].1.items@ == inv0[j as int].1.items@);
                    assert(carried_by(invs@, id) == carried_by(inv0, id)) by {
                        lemma_carried_same_ids(invs@, inv0, id);
                    }
                }
                while i < invs[j].1.items.len()
                    invariant
                        j < invs@.len(),
                        i <= invs@[j as int].1.items@.len(),
                        unworn@ == before + invs@[j as int].1.items@.take(i as int),
                    decreases invs@[j as int].1.items@.len() - i,
                {
                    unworn.push(invs[j].1.items[i]);
                    proof {
                        assert(invs@[j as int].1.items@.take(i + 1) =~= invs@[j as int].1.items@.take(i as int).push(invs@[j as int].1.items@[i as int]));
                        assert(unworn@ =~= before + invs@[j as int].1.items@.take(i + 1));
                    }
                    i += 1;
                }
                proof {
                    assert(invs@[j as int].1.items@.take(invs@[j as int].1.items@.len() as int) =~= invs@[j as int].1.items@);
                }
                let cap = invs[j].1.capacity;
                let ghost before_invs = invs@;
                invs.set(j, (id, Inventory { capacity: cap, items: Vec::new() }));
                proof {
                    assert forall|q: int| 0 <= q < inv0.len() implies {
                        &&& (#[trigger] invs@[q]).0 == inv0[q].0
                        &&& invs@[q].1.capacity == inv0[q].1.capacity
                        &&& invs@[q].1.items@ == if new_dead.contains(inv0[q].0) { Seq::empty() } else { inv0[q].1.items@ }
                    } by {
                        if q != j {
                            assert(before_invs[q] == invs@[q]);
                            if inv0[q].0 == id {
                                assert(inv0[j as int].0 == id);
                            }
                            assert(new_dead.contains(inv0[q].0) == dead.contains(inv0[q].0)) by {
                                if new_dead.contains(inv0[q].0) && !dead.contains(inv0[q].0) {
                                    let z = choose|z: int| 0 <= z < new_dead.len() && new_dead[z] == inv0[q].0;
                                    if z < dead.len() {
                                        assert(dead[z] == inv0[q].0);
                                    }
                                }
                                if dead.contains(inv0[q].0) {
                                    let z = choose|z: int| 0 <= z < dead.len() && dead[z] == inv0[q].0;
                                    assert(new_dead[z] == inv0[q].0);
                                }
                            }
                        } else {
                            assert(new_dead[dead.len() as int] == id);
                        }
                    }
                }
            } else {
                proof {
                    assert(carried_by(inv0, id) == Seq::<EntityId>::empty()) by {
                        lemma_carried_same_ids(invs@, inv0, id);
                    }
                    assert forall|q: int| 0 <= q < inv0.len() implies
                        (new_dead.contains(inv0[q].0) == dead.contains(inv0[q].0)) by {
                        assert(invs@[q].0 != id);
                        if new_dead.contains(inv0[q].0) && !dead.contains(inv0[q].0) {
                            let z = choose|z: int| 0 <= z < new_dead.len() && new_dead[z] == inv0[q].0;
                            if z < dead.len() {
                                assert(dead[z] == inv0[q].0);
                            }
                        }
                        if dead.contains(inv0[q].0) {
                            let z = choose|z: int| 0 <= z < dead.len() && dead[z] == inv0[q].0;
                            assert(new_dead[z] == inv0[q].0);
                        }
                    }
                }
            }
            deleted.push(EffectSpawner { creator: None, effect_type: EffectType::Delete { entity: id } });
            let ghost names_before = dead_names@;
            if let Some(n) = name_of(names, id) {
                dead_names.push(n);
            }
            proof {
                dead = new_dead;
                assert(deleted@ =~= deletions(dead));
                assert(dead.drop_last() =~= old_dead);
                lemma_names_prefix(names@, dead, old_dead, old_dead.len() as int);
                lemma_carried_prefix(inv0, dead, old_dead, old_dead.len() as int);
                assert(names_of(names@, dead, dead.len() as int) == names_of(names@, old_dead, old_dead.len() as int) + name_seq(names@, id));
                assert(dead_names@.map_values(|s: String| s@) =~= names_of(names@, dead, dead.len() as int));
                assert(carried_by_all(inv0, dead, dead.len() as int) == carried_by_all(inv0, old_dead, old_dead.len() as int) + carried_by(inv0, id));
                assert(unworn@ =~= carried_by_all(inv0, dead, dead.len() as int));
                assert forall|q: int| 0 <= q < dead.len() implies exists|p: int| 0 <= p < k + 1 && (#[trigger] dead[q]) == stats@[p].0 by {
                    if q == dead.len() - 1 {
                        assert(dead[q] == stats@[k as int].0);
                    } else {
                        assert(dead[q] == dead.drop_last()[q]);
                    }
                }
            }
        }
        k += 1;
    }
    (deleted, unworn, dead_names)
}

/// The carried items depend on the owners listed and their items only.
proof fn lemma_carried_same_ids(a: Seq<(EntityId, Inventory)>, b: Seq<(EntityId, Inventory)>, id: EntityId)
    requires
        a.len() == b.len(),
        forall|j: int| 0 <= j < a.len() ==> (#[trigger] a[j]).0 == b[j].0 && (a[j].0 == id ==> a[j].1.items@ == b[j].1.items@),
    ensures
        carried_by(a, id) == carried_by(b, id),
    decreases a.len(),
{
    if a.len() > 0 && a[0].0 != id {
        assert forall|j: int| 0 <= j < a.drop_first().len() implies (#[trigger] a.drop_first()[j]).0 == b.drop_first()[j].0
            && (a.drop_first()[j].0 == id ==> a.drop_first()[j].1.items@ == b.drop_first()[j].1.items@) by {
            assert(a.drop_first()[j] == a[j + 1]);
            assert(b.drop_first()[j] == b[j + 1]);
        }
        lemma_carried_same_ids(a.drop_first(), b.drop_first(), id);
    }
}

/// The items of a prefix of the dead only depend on that prefix.
proof fn lemma_carried_prefix(invs: Seq<(EntityId, Inventory)>, a: Seq<EntityId>, b: Seq<EntityId>, k: int)
    requires
        0 <= k <= a.len(),
        k <= b.len(),
        forall|j: int| 0 <= j < k ==> a[j] == b[j],
    ensures
        carried_by_all(invs, a, k) == carried_by_all(invs, b, k),
    decreases k,
{
    if k > 0 {
        lemma_carried_prefix(invs, a, b, k - 1);
    }
}

/// The names of a prefix of the dead only depend on that prefix.
proof fn lemma_names_prefix(names: Seq<(EntityId, String)>, a: Seq<EntityId>, b: Seq<EntityId>, k: int)
    requires
        0 <= k <= a.len(),
        k <= b.len(),
        forall|j: int| 0 <= j < k ==> a[j] == b[j],
    ensures
        names_of(names, a, k) == names_of(names, b, k),
    decreases k,
{
    if k > 0 {
        lemma_names_prefix(names, a, b, k - 1);
    }
}

/// The names of the items that players among the first `k` requests drop,
/// in order (for the log).
pub open spec fn dropped_names(
    wants: Seq<(EntityId, WantsToDropItem)>,
    players: Seq<EntityId>,
    names: Seq<(EntityId, String)>,
    k: int,
) -> Seq<Seq<char>>
    decreases k,
{
    if k <= 0 {
        Seq::empty()
    } else {
        dropped_names(wants, players, names, k - 1) + if players.contains(wants[k - 1].0) {
            name_seq(names, wants[k - 1].1.item)
        } else {
            Seq::empty()
        }
    }
}

/// Serves every request to drop an item: each requester drops its item (an
/// effect caused by it). Returns the effects, in the order of the requests,
/// and the names of the items the player drops (for the log). Every request
/// is served, so all of them can be removed.
pub fn run_drop_item_system(
    wants: &Vec<(EntityId, WantsToDropItem)>,
    players: &Vec<EntityId>,
    names: &Vec<(EntityId, String)>,
) -> (r: (Vec<EffectSpawner>, Vec<String>))
    ensures
        r.0@.len() == wants@.len(),
        forall|i: int| 0 <= i < wants@.len() ==> #[trigger] r.0@[i] == (EffectSpawner {
            creator: Some(wants@[i].0),
            effect_type: EffectType::Drop { entity: wants@[i].1.item },
        }),
        r.1@.map_values(|s: String| s@) == dropped_names(wants@, players@, names@, wants@.len() as int),
{
    let mut effects: Vec<EffectSpawner> = Vec::new();
    let mut said: Vec<String> = Vec::new();
    let mut i: usize = 0;
    while i < wants.len()
        invariant
            i <= wants@.len(),
            effects@.len() == i,
            forall|q: int| 0 <= q < i ==> #[trigger] effects@[q] == (EffectSpawner {
                creator: Some(wants@[q].0),
                effect_type: EffectType::Drop { entity: wants@[q].1.item },
            }),
            said@.map_values(|s: String| s@) == dropped_names(wants@, players@, names@, i as int),
        decreases wants@.len() - i,
    {
        let (id, w) = (wants[i].0, wants[i].1);
        let ghost before = said@;
        if contains_id(players, id) {
            if let Some(n) = name_of(names, w.item) {
                said.push(n);
            }
        }
        proof {
            assert(said@.map_values(|s: String| s@) =~= dropped_names(wants@, players@, names@, i + 1));
        }
        effects.push(EffectSpawner { creator: Some(id), effect_type: EffectType::Drop { entity: w.item } });
        i += 1;
    }
    (effects, said)
}

/// Whether cell `p` lies on `map`.
pub open spec fn on_the_map(map: TileMap, p: Point) -> bool {
    0 <= p.x < map.size.0 && 0 <= p.y < map.size.1
}

/// The cells of `seen` that lie on `map`, in order.
pub open spec fn on_map_cells(map: TileMap, seen: Seq<Point>) -> Seq<Point> {
    seen.filter(|p: Point| on_the_map(map, p))
}

/// No cell is listed twice.
pub open spec fn keys_distinct(t: Seq<(usize, (TileType, Vec<EntityId>))>) -> bool {
    forall|i: int, j: int| 0 <= i < j < t.len() ==> (#[trigger] t[i]).0 != (#[trigger] t[j]).0
}

/// Cell index `k` is that of one of the `visible` cells.
pub open spec fn sees(map: TileMap, visible: Seq<Point>, k: int) -> bool {
    exists|v: int| 0 <= v < visible.len() && spec_xy_idx(map.size.0 as int, (#[trigger] visible[v]).x as int, visible[v].y as int) == k
}

/// Cell index `k` is listed in `t`.
pub open spec fn lists(t: Seq<(usize, (TileType, Vec<EntityId>))>, k: int) -> bool {
    exists|i: int| 0 <= i < t.len() && (#[trigger] t[i]).0 == k
}

impl Vision {
    /// Takes `seen` (the field of view from the entity's cell) as what is
    /// visible, keeping the cells that lie on `map`, in order, and marks the
    /// vision up to date.
    pub fn set_visible(&mut self, map: &TileMap, seen: Vec<Point>)
        ensures
            final(self).visible_tiles@ == on_map_cells(*map, seen@),
            final(self).range == old(self).range,
            !final(self).dirty,
    {
        let mut kept: Vec<Point> = Vec::new();
        let mut i: usize = 0;
        while i < seen.len()
            invariant
                i <= seen@.len(),
                kept@ == on_map_cells(*map, seen@.take(i as int)),
            decreases seen@.len() - i,
        {
            let p = seen[i];
            proof {
                assert(seen@.take(i + 1).drop_last() =~= seen@.take(i as int));
                reveal(Seq::filter);
            }
            if 0 <= p.x && (p.x as usize) < map.size.0 && 0 <= p.y && (p.y as usize) < map.size.1 {
                kept.push(p);
            }
            proof {
                assert(kept@ =~= on_map_cells(*map, seen@.take(i + 1)));
            }
            i += 1;
        }
        proof {
            assert(seen@.take(seen@.len() as int) =~= seen@);
        }
        self.visible_tiles = kept;
        self.dirty = false;
    }
}

/// A copy of `ids`.
fn copy_ids(ids: &Vec<EntityId>) -> (r: Vec<EntityId>)
    ensures
        r@ == ids@,
{
    let mut r: Vec<EntityId> = Vec::new();
    let mut i: usize = 0;
    while i < ids.len()
        invariant
            i <= ids@.len(),
            r@ == ids@.take(i as int),
        decreases ids@.len() - i,
    {
        r.push(ids[i]);
        proof {
            assert(r@ =~= ids@.take(i + 1));
        }
        i += 1;
    }
    proof {
        assert(r@ =~= ids@);
    }
    r
}

/// Replacing an entry by one with the same cell lists the same cells.
proof fn lemma_lists_set(t: Seq<(usize, (TileType, Vec<EntityId>))>, f: int, e: (usize, (TileType, Vec<EntityId>)), k: int)
    requires
        0 <= f < t.len(),
        t[f].0 == e.0,
    ensures
        lists(t.update(f, e), k) <==> (lists(t, k) || k == e.0),
{
    let u = t.update(f, e);
    assert(t[f].0 == e.0);
    if lists(u, k) {
        let q = choose|q: int| 0 <= q < u.len() && (#[trigger] u[q]).0 == k;
        assert(t[q].0 == k);
    }
    if lists(t, k) {
        let q = choose|q: int| 0 <= q < t.len() && (#[trigger] t[q]).0 == k;
        assert(u[q].0 == k);
    }
    if k == e.0 {
        assert(u[f].0 == k);
    }
}

/// Adding an entry lists its cell besides the others.
proof fn lemma_lists_push(t: Seq<(usize, (TileType, Vec<EntityId>))>, e: (usize, (TileType, Vec<EntityId>)), k: int)
    ensures
        lists(t.push(e), k) <==> (lists(t, k) || k == e.0),
{
    let u = t.push(e);
    if lists(u, k) {
        let q = choose|q: int| 0 <= q < u.len() && (#[trigger] u[q]).0 == k;
        if q < t.len() {
            assert(t[q].0 == k);
        }
    }
    if lists(t, k) {
        let q = choose|q: int| 0 <= q < t.len() && (#[trigger] t[q]).0 == k;
        assert(u[q].0 == k);
    }
    if k == e.0 {
        assert(u[t.len() as int].0 == k);
    }
}

/// A known cell: its index, terrain and the entities seen on it.
pub type KnownCell = (usize, (TileType, Vec<EntityId>));

/// The indices of the cells `vis` of `map`.
pub open spec fn seen_cells(map: TileMap, vis: Seq<Point>) -> Set<int> {
    Set::new(|k: int| sees(map, vis, k))
}

/// What `t` holds after the cells `seen` of `map` were remembered on top of
/// what `t0` held: no cell twice, the cells of both listed, the seen ones
/// with what `map` has there now and the others as `t0` had them.
#[verifier::opaque]
pub open spec fn remembered(t: Seq<KnownCell>, t0: Seq<KnownCell>, map: TileMap, seen: Set<int>) -> bool {
    &&& keys_distinct(t)
    &&& forall|k: int| lists(t, k) <==> (lists(t0, k) || seen.contains(k))
    &&& forall|i: int| 0 <= i < t.len() ==> {
            let e = #[trigger] t[i];
            if seen.contains(e.0 as int) {
                e.1.0 == map.tiles@[e.0 as int] && e.1.1@ == map.tile_content@[e.0 as int]@
            } else {
                exists|j: int| 0 <= j < t0.len() && t0[j] == e
            }
        }
}

/// Seeing one cell more adds its index to what is seen.
proof fn lemma_sees_push(map: TileMap, vt: Seq<Point>, p: Point)
    ensures
        seen_cells(map, vt.push(p)) == seen_cells(map, vt).insert(spec_xy_idx(map.size.0 as int, p.x as int, p.y as int)),
{
    let vt1 = vt.push(p);
    let idx = spec_xy_idx(map.size.0 as int, p.x as int, p.y as int);
    assert forall|k: int| sees(map, vt1, k) <==> (sees(map, vt, k) || k == idx) by {
        if sees(map, vt1, k) && !sees(map, vt, k) {
            let q = choose|q: int| 0 <= q < vt1.len() && spec_xy_idx(map.size.0 as int, (#[trigger] vt1[q]).x as int, vt1[q].y as int) == k;
            if q < vt.len() {
                assert(vt[q] == vt1[q]);
            }
        }
        if sees(map, vt, k) {
            let q = choose|q: int| 0 <= q < vt.len() && spec_xy_idx(map.size.0 as int, (#[trigger] vt[q]).x as int, vt[q].y as int) == k;
            assert(vt1[q] == vt[q]);
        }
        if k == idx {
            assert(vt1[vt.len() as int] == p);
        }
    }
    assert(seen_cells(map, vt1) =~= seen_cells(map, vt).insert(idx));
}

/// One more seen cell, written over its old entry or added after the others,
/// keeps `remembered`.
proof fn lemma_remember_step(
    before: Seq<KnownCell>,
    after: Seq<KnownCell>,
    t0: Seq<KnownCell>,
    map: TileMap,
    seen: Set<int>,
    entry: KnownCell,
    found: Option<usize>,
)
    requires
        remembered(before, t0, map, seen),
        0 <= entry.0 < map.tiles@.len(),
        entry.1.0 == map.tiles@[entry.0 as int],
        entry.1.1@ == map.tile_content@[entry.0 as int]@,
        match found {
            Some(f) => f < before.len() && before[f as int].0 == entry.0 && after == before.update(f as int, entry),
            None => (forall|q: int| 0 <= q < before.len() ==> (#[trigger] before[q]).0 != entry.0) && after == before.push(entry),
        },
    ensures
        remembered(after, t0, map, seen.insert(entry.0 as int)),
{
    reveal(remembered);
    let idx = entry.0;
    let seen1 = seen.insert(idx as int);
    assert forall|k: int| lists(after, k) <==> (lists(before, k) || k == idx) by {
        match found {
            Some(f) => lemma_lists_set(before, f as int, entry, k),
            None => lemma_lists_push(before, entry, k),
        }
    }
    assert forall|i: int, j: int| 0 <= i < j < after.len() implies (#[trigger] after[i]).0 != (#[trigger] after[j]).0 by {
        match found {
            Some(f) => {
                assert(after[i].0 == before[i].0);
                assert(after[j].0 == before[j].0);
            },
            None => {
                if j == before.len() {
                    assert(before[i].0 != idx);
                } else {
                    assert(after[i] == before[i]);
                    assert(after[j] == before[j]);
                }
            },
        }
    }
    assert forall|i: int| 0 <= i < after.len() implies {
        let e = #[trigger] after[i];
        if seen1.contains(e.0 as int) {
            e.1.0 == map.tiles@[e.0 as int] && e.1.1@ == map.tile_content@[e.0 as int]@
        } else {
            exists|j: int| 0 <= j < t0.len() && t0[j] == e
        }
    } by {
        let e = after[i];
        let is_new = match found {
            Some(f) => i == f,
            None => i == before.len(),
        };
        if is_new {
            assert(e == entry);
        } else {
            assert(e == before[i]);
            match found {
                Some(f) => {
                    assert(before[f as int].0 != before[i].0 || i == f);
                },
                None => {
                    assert(before[i].0 != idx);
                },
            }
            assert(e.0 != idx);
        }
    }
}

/// Remembering no cell keeps what was known.
proof fn lemma_remember_nothing(t0: Seq<KnownCell>, map: TileMap, none: Set<int>)
    requires
        keys_distinct(t0),
        none == Set::<int>::empty(),
    ensures
        remembered(t0, t0, map, none),
{
    reveal(remembered);
}

/// Where cell `idx` is listed in `tiles`, if it is.
fn find_cell(tiles: &Vec<KnownCell>, idx: usize) -> (r: Option<usize>)
    ensures
        match r {
            Some(f) => f < tiles@.len() && tiles@[f as int].0 == idx,
            None => forall|q: int| 0 <= q < tiles@.len() ==> (#[trigger] tiles@[q]).0 != idx,
        },
{
    let mut i: usize = 0;
    while i < tiles.len()
        invariant
            i <= tiles@.len(),
            forall|q: int| 0 <= q < i ==> (#[trigger] tiles@[q]).0 != idx,
        decreases tiles@.len() - i,
    {
        if tiles[i].0 == idx {
            return Some(i);
        }
        i += 1;
    }
    None
}

impl SpatialKnowledge {
    /// Records cell `idx` of `map` with its terrain and the entities now on
    /// it, over its old entry or after the cells already known.
    fn note_cell(&mut self, map: &TileMap, idx: usize, Ghost(t0): Ghost<Seq<KnownCell>>, Ghost(seen): Ghost<Set<int>>)
        requires
            map.wf(),
            idx < map.tiles@.len(),
            remembered(old(self).tiles@, t0, *map, seen),
        ensures
            remembered(final(self).tiles@, t0, *map, seen.insert(idx as int)),
    {
        let entry = (idx, (map.tiles[idx], copy_ids(&map.tile_content[idx])));
        let ghost before = self.tiles@;
        let found = find_cell(&self.tiles, idx);
        match found {
            Some(f) => {
                self.tiles.set(f, entry);
            },
            None => {
                self.tiles.push(entry);
            },
        }
        proof {
            lemma_remember_step(before, self.tiles@, t0, *map, seen, entry, found);
        }
    }

    /// Remembers the `visible` cells of `map` (all on the map): each is
    /// listed with its terrain and the entities now on it, replacing what
    /// was known of it or added after the cells already known. Cells not
    /// seen keep what was known of them.
    pub fn remember(&mut self, map: &TileMap, visible: &Vec<Point>)
        requires
            map.wf(),
            keys_distinct(old(self).tiles@),
            forall|v: int| 0 <= v < visible@.len() ==> on_the_map(*map, #[trigger] visible@[v]),
        ensures
            remembered(final(self).tiles@, old(self).tiles@, *map, seen_cells(*map, visible@)),
    {
        let ghost t0 = self.tiles@;
        proof {
            assert(seen_cells(*map, visible@.take(0)) =~= Set::<int>::empty());
            lemma_remember_nothing(t0, *map, seen_cells(*map, visible@.take(0)));
        }
        let mut v: usize = 0;
        while v < visible.len()
            invariant
                v <= visible@.len(),
                map.wf(),
                forall|q: int| 0 <= q < visible@.len() ==> on_the_map(*map, #[trigger] visible@[q]),
                remembered(self.tiles@, t0, *map, seen_cells(*map, visible@.take(v as int))),
            decreases visible@.len() - v,
        {
            let p = visible[v];
            proof {
                assert(on_the_map(*map, visible@[v as int]));
                lemma_xy_idx_bound(map.size.0 as int, map.size.1 as int, p.x as int, p.y as int);
            }
            let idx = map.xy_idx((p.x as usize, p.y as usize));
            self.note_cell(map, idx, Ghost(t0), Ghost(seen_cells(*map, visible@.take(v as int))));
            proof {
                lemma_sees_push(*map, visible@.take(v as int), p);
                assert(visible@.take(v as int).push(p) =~= visible@.take(v + 1));
            }
            v += 1;
        }
        proof {
            assert(visible@.take(visible@.len() as int) =~= visible@);
        }
    }
}

/// Reveals the whole of `map` to `space`: every cell is listed with its
/// terrain and the entities now on it, replacing what was known of it or
/// added after the cells already known.
pub fn reveal_map(map: &TileMap, space: &mut SpatialKnowledge)
    requires
        map.wf(),
        keys_distinct(old(space).tiles@),
    ensures
        remembered(final(space).tiles@, old(space).tiles@, *map, Set::new(|k: int| 0 <= k < map.tiles@.len())),
{
    let ghost t0 = space.tiles@;
    proof {
        assert(Set::new(|k: int| 0 <= k < 0) =~= Set::<int>::empty());
        lemma_remember_nothing(t0, *map, Set::new(|k: int| 0 <= k < 0));
    }
    let mut i: usize = 0;
    while i < map.tiles.len()
        invariant
            i <= map.tiles@.len(),
            map.wf(),
            remembered(space.tiles@, t0, *map, Set::new(|k: int| 0 <= k < i)),
        decreases map.tiles@.len() - i,
    {
        space.note_cell(map, i, Ghost(t0), Ghost(Set::new(|k: int| 0 <= k < i)));
        proof {
            assert(Set::new(|k: int| 0 <= k < i).insert(i as int) =~= Set::new(|k: int| 0 <= k < i + 1));
        }
        i += 1;
    }
}

/// The effects that one holder's intent starts: picking up its target
/// entity, or handing its item over to the holder it names (see
/// `deposit_of`); nothing for other tasks or targets.
pub open spec fn intent_transfer(id: EntityId, intent: Intent) -> Seq<EffectSpawner> {
    match intent.task {
        Task::PickUpItem(_) => match intent.target@[0] {
            Target::ENTITY(e) => seq![EffectSpawner { creator: Some(id), effect_type: EffectType::PickUp { entity: e } }],
            Target::LOCATION(_) => Seq::empty(),
        },
        Task::DepositItemToInventory(..) => deposit_of(id, intent),
        _ => Seq::empty(),
    }
}

/// The effects of the intents of the first `k` holders, in order.
pub open spec fn intent_transfers(intents: Seq<(EntityId, Intent)>, k: int) -> Seq<EffectSpawner>
    decreases k,
{
    if k <= 0 {
        Seq::empty()
    } else {
        intent_transfers(intents, k - 1) + intent_transfer(intents[k - 1].0, intents[k - 1].1)
    }
}

/// The targets of an intent that moves items can be read.
pub open spec fn transfer_readable(intent: Intent) -> bool {
    match intent.task {
        Task::PickUpItem(_) => intent.target@.len() > 0,
        Task::DepositItemToInventory(..) => deposit_readable(intent),
        _ => true,
    }
}

/// Moves items between inventories. `wants` are the pick-up requests of the
/// entities with an inventory, `intents` the intents of those entities.
/// Each request becomes a pick-up by its requester, in order; then each
/// intent to pick up an entity becomes a pick-up of it, and each intent to
/// deposit an item becomes its drop by the holder and its pick-up by the
/// receiving inventory (see `intent_transfer`).
pub fn run_inventory_system(
    wants: &Vec<(EntityId, WantsToPickupItem)>,
    intents: &Vec<(EntityId, Intent)>,
) -> (r: Vec<EffectSpawner>)
    requires
        forall|i: int| 0 <= i < intents@.len() ==> transfer_readable(#[trigger] intents@[i].1),
    ensures
        r@ == Seq::new(wants@.len(), |i: int| EffectSpawner {
            creator: Some(wants@[i].0),
            effect_type: EffectType::PickUp { entity: wants@[i].1.item },
        }) + intent_transfers(intents@, intents@.len() as int),
{
    let mut r: Vec<EffectSpawner> = Vec::new();
    let mut i: usize = 0;
    while i < wants.len()
        invariant
            i <= wants@.len(),
            r@ == Seq::new(i as nat, |q: int| EffectSpawner {
                creator: Some(wants@[q].0),
                effect_type: EffectType::PickUp { entity: wants@[q].1.item },
            }),
        decreases wants@.len() - i,
    {
        r.push(EffectSpawner { creator: Some(wants[i].0), effect_type: EffectType::PickUp { entity: wants[i].1.item } });
        proof {
            assert(r@ =~= Seq::new((i + 1) as nat, |q: int| EffectSpawner {
                creator: Some(wants@[q].0),
                effect_type: EffectType::PickUp { entity: wants@[q].1.item },
            }));
        }
        i += 1;
    }
    let ghost picked = r@;
    let mut j: usize = 0;
    while j < intents.len()
        invariant
            j <= intents@.len(),
            forall|k: int| 0 <= k < intents@.len() ==> transfer_readable(#[trigger] intents@[k].1),
            r@ == picked + intent_transfers(intents@, j as int),
        decreases intents@.len() - j,
    {
        let id = intents[j].0;
        let intent = &intents[j].1;
        let ghost before = r@;
        proof {
            assert(transfer_readable(intents@[j as int].1));
        }
        match intent.task {
            Task::PickUpItem(_) => {
                if let Target::ENTITY(e) = intent.target[0] {
                    r.push(EffectSpawner { creator: Some(id), effect_type: EffectType::PickUp { entity: e } });
                }
            },
            Task::DepositItemToInventory(..) => {
                if let Target::ENTITY(item) = intent.target[0] {
                    if let Target::ENTITY(holder) = intent.target[1] {
                        r.push(EffectSpawner { creator: Some(id), effect_type: EffectType::Drop { entity: item } });
                        r.push(EffectSpawner { creator: Some(holder), effect_type: EffectType::PickUp { entity: item } });
                    }
                }
            },
            _ => {},
        }
        proof {
            assert(r@ =~= before + intent_transfer(id, intents@[j as int].1));
            assert(r@ =~= picked + intent_transfers(intents@, j + 1));
        }
        j += 1;
    }
    r
}

/// Whether `a` and `b` have a cell in common.
pub open spec fn share_cell(a: Seq<Point>, b: Seq<Point>) -> bool {
    exists|i: int, j: int| 0 <= i < a.len() && 0 <= j < b.len() && #[trigger] a[i] == #[trigger] b[j]
}

/// Whether `a` and `b` have a cell in common.
fn cells_meet(a: &Vec<Point>, b: &Vec<Point>) -> (r: bool)
    ensures
        r == share_cell(a@, b@),
{
    let mut i: usize = 0;
    while i < a.len()
        invariant
            i <= a@.len(),
            forall|x: int, y: int| 0 <= x < i && 0 <= y < b@.len() ==> #[trigger] a@[x] != #[trigger] b@[y],
        decreases a@.len() - i,
    {
        let mut j: usize = 0;
        while j < b.len()
            invariant
                i < a@.len(),
                j <= b@.len(),
                forall|x: int, y: int| 0 <= x < i && 0 <= y < b@.len() ==> #[trigger] a@[x] != #[trigger] b@[y],
                forall|y: int| 0 <= y < j ==> a@[i as int] != #[trigger] b@[y],
            decreases b@.len() - j,
        {
            if a[i] == b[j] {
                proof {
                    assert(a@[i as int] == b@[j as int]);
                }
                return true;
            }
            j += 1;
        }
        i += 1;
    }
    false
}

/// Whether one of the cells of `pos` (the position of an entity, if it has
/// one) is among the cells `vision` sees.
pub fn vision_contains(vision: &Vision, pos: Option<&Position>) -> (r: bool)
    ensures
        r == match pos {
            Some(p) => share_cell(p.ps@, vision.visible_tiles@),
            None => false,
        },
{
    match pos {
        Some(p) => cells_meet(&p.ps, &vision.visible_tiles),
        None => false,
    }
}

/// Whether the player at `pos` can go down a level: it can when it stands
/// on stairs down; otherwise the log is told that there are none here.
pub fn try_next_level(map: &TileMap, pos: Point) -> (r: (bool, Option<String>))
    requires
        map.wf(),
        on_the_map(*map, pos),
    ensures
        r.0 == (map.tiles@[spec_xy_idx(map.size.0 as int, pos.x as int, pos.y as int)] == TileType::StairsDown),
        r.0 ==> r.1 is None,
        !r.0 ==> (r.1 matches Some(m) && m@ == "There is no stairs down here"@),
{
    proof {
        lemma_xy_idx_bound(map.size.0 as int, map.size.1 as int, pos.x as int, pos.y as int);
    }
    let idx = map.xy_idx((pos.x as usize, pos.y as usize));
    if map.tiles[idx] == TileType::StairsDown {
        (true, None)
    } else {
        (false, Some(String::from_str("There is no stairs down here")))
    }
}

/// The names of the items that players among the first `k` requests take
/// off, in order (for the log).
pub open spec fn unequipped_names(
    wants: Seq<(EntityId, WantsToUnequipItem)>,
    players: Seq<EntityId>,
    names: Seq<(EntityId, String)>,
    k: int,
) -> Seq<Seq<char>>
    decreases k,
{
    if k <= 0 {
        Seq::empty()
    } else {
        unequipped_names(wants, players, names, k - 1) + if players.contains(wants[k - 1].0) {
            name_seq(names, wants[k - 1].1.item)
        } else {
            Seq::empty()
        }
    }
}

/// Serves every request of an entity with an inventory to take off an item:
/// the item stops being worn and goes into the requester's backpack.
/// Returns, in the order of the requests, each item with the owner whose
/// backpack it goes into, and the names of the items players take off (for
/// the log). Every request is served, so all of them can be removed.
pub fn run_unequip_item_system(
    wants: &Vec<(EntityId, WantsToUnequipItem)>,
    players: &Vec<EntityId>,
    names: &Vec<(EntityId, String)>,
) -> (r: (Vec<(EntityId, EntityId)>, Vec<String>))
    ensures
        r.0@ == Seq::new(wants@.len(), |i: int| (wants@[i].1.item, wants@[i].0)),
        r.1@.map_values(|s: String| s@) == unequipped_names(wants@, players@, names@, wants@.len() as int),
{
    let mut moved: Vec<(EntityId, EntityId)> = Vec::new();
    let mut said: Vec<String> = Vec::new();
    let mut i: usize = 0;
    while i < wants.len()
        invariant
            i <= wants@.len(),
            moved@ == Seq::new(i as nat, |q: int| (wants@[q].1.item, wants@[q].0)),
            said@.map_values(|s: String| s@) == unequipped_names(wants@, players@, names@, i as int),
        decreases wants@.len() - i,
    {
        let (id, w) = (wants[i].0, wants[i].1);
        if contains_id(players, id) {
            if let Some(n) = name_of(names, w.item) {
                said.push(n);
            }
        }
        proof {
            assert(said@.map_values(|s: String| s@) =~= unequipped_names(wants@, players@, names@, i + 1));
        }
        moved.push((w.item, id));
        proof {
            assert(moved@ =~= Seq::new((i + 1) as nat, |q: int| (wants@[q].1.item, wants@[q].0)));
        }
        i += 1;
    }
    (moved, said)
}

} // verus!
