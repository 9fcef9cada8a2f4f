//! Fire on the map: burning cells count down, burnt-out fuel turns to dirt,
//! entities on burning cells catch fire, and fire spreads at random to
//! flammable neighbours.

use vstd::prelude::*;
use rltk::RandomNumberGenerator;
use crate::map::{EntityId, TileMap, spec_is_flammable_tile, spec_xy_idx, lemma_idx_parts, lemma_xy_idx_bound};
use crate::rng::rng_range;
use crate::tiles::TileType;
use crate::utils::Point;
use crate::components::OnFire;

verus! {

/// Turns a newly lit cell keeps burning.
pub const NEW_FIRE_TURNS: usize = 10;

/// From `before` to `after`, the only changes to the burn counters are
/// non-burning flammable cells catching fire for `NEW_FIRE_TURNS` turns.
pub open spec fn only_ignitions(before: Seq<usize>, after: Seq<usize>, tiles: Seq<TileType>) -> bool {
    &&& after.len() == before.len()
    &&& forall|k: int|
        0 <= k < before.len() ==> #[trigger] after[k] == before[k] || (before[k] == 0 && after[k]
            == NEW_FIRE_TURNS && spec_is_flammable_tile(tiles[k]))
}

/// Cell `k` after one turn of fire, given its counter and terrain before it.
/// A burning cell counts down by one and, if that puts out a flammable cell,
/// turns to dirt. A cell that was not burning keeps its terrain and is
/// either still not burning or was lit (then it counted `NEW_FIRE_TURNS`, or
/// one less if the pass reached it after it was lit).
pub open spec fn cell_after_tick(
    old_fire: Seq<usize>,
    old_tiles: Seq<TileType>,
    fire: Seq<usize>,
    tiles: Seq<TileType>,
    k: int,
) -> bool {
    if old_fire[k] > 0 {
        &&& fire[k] == old_fire[k] - 1
        &&& tiles[k] == if old_fire[k] == 1 && spec_is_flammable_tile(old_tiles[k]) {
            TileType::Dirt
        } else {
            old_tiles[k]
        }
    } else {
        &&& tiles[k] == old_tiles[k]
        &&& (fire[k] == 0 || (spec_is_flammable_tile(old_tiles[k]) && (fire[k] == NEW_FIRE_TURNS
            || fire[k] == NEW_FIRE_TURNS - 1)))
    }
}

/// Cell `k` before the pass reaches it: terrain untouched, counter untouched
/// unless it was lit by an earlier cell.
pub open spec fn cell_pending(
    old_fire: Seq<usize>,
    old_tiles: Seq<TileType>,
    fire: Seq<usize>,
    tiles: Seq<TileType>,
    k: int,
) -> bool {
    &&& tiles[k] == old_tiles[k]
    &&& old_fire[k] > 0 ==> fire[k] == old_fire[k]
    &&& old_fire[k] == 0 ==> (fire[k] == 0 || (fire[k] == NEW_FIRE_TURNS && spec_is_flammable_tile(
        old_tiles[k],
    )))
}

/// Cell `k` burned while the tick passed over it: it was burning before, or
/// it was lit by an earlier cell in the same pass (and so counted down once).
pub open spec fn burned_in_tick(old_fire: Seq<usize>, new_fire: Seq<usize>, k: int) -> bool {
    old_fire[k] > 0 || new_fire[k] == NEW_FIRE_TURNS - 1
}

/// The entities on the first `n` cells that burned in the tick, cell by cell.
pub open spec fn caught_fire(
    old_fire: Seq<usize>,
    new_fire: Seq<usize>,
    content: Seq<Vec<EntityId>>,
    n: int,
) -> Seq<EntityId>
    decreases n,
{
    if n <= 0 {
        Seq::empty()
    } else {
        caught_fire(old_fire, new_fire, content, n - 1) + if burned_in_tick(
            old_fire,
            new_fire,
            n - 1,
        ) {
            content[n - 1]@
        } else {
            Seq::empty()
        }
    }
}

proof fn lemma_caught_fire_stable(
    old_fire: Seq<usize>,
    f1: Seq<usize>,
    f2: Seq<usize>,
    content: Seq<Vec<EntityId>>,
    n: int,
)
    requires
        forall|k: int|
            0 <= k < n ==> burned_in_tick(old_fire, f1, k) == burned_in_tick(old_fire, f2, k),
    ensures
        caught_fire(old_fire, f1, content, n) == caught_fire(old_fire, f2, content, n),
    decreases n,
{
    if n > 0 {
        lemma_caught_fire_stable(old_fire, f1, f2, content, n - 1);
    }
}

/// Cell `(x, y)` can be lit: it is on `map`, not burning and flammable.
pub open spec fn can_ignite(map: TileMap, x: int, y: int) -> bool {
    let k = spec_xy_idx(map.size.0 as int, x, y);
    &&& 0 <= x < map.size.0
    &&& 0 <= y < map.size.1
    &&& map.fire_turns@[k] == 0
    &&& spec_is_flammable_tile(map.tiles@[k])
}

/// Lights cell `idx` for `NEW_FIRE_TURNS` turns when `roll` (a draw from
/// `0..10`) is 0; otherwise nothing changes.
pub fn ignite_on_roll(map: &mut TileMap, idx: usize, roll: i32)
    requires
        old(map).wf(),
        idx < old(map).tiles@.len(),
    ensures
        final(map).wf(),
        final(map).tiles@ == old(map).tiles@,
        final(map).size == old(map).size,
        final(map).blocked@ == old(map).blocked@,
        final(map).tile_content@ == old(map).tile_content@,
        final(map).fire_turns@ == if roll == 0 {
            old(map).fire_turns@.update(idx as int, NEW_FIRE_TURNS)
        } else {
            old(map).fire_turns@
        },
{
    if roll == 0 {
        map.fire_turns.set(idx, NEW_FIRE_TURNS);
    }
}

/// Lights cell `(x, y)` for `NEW_FIRE_TURNS` turns with chance one in ten,
/// when it is on the map, not burning and flammable (see `can_ignite`):
/// either nothing changes or just that cell is lit. A draw from `0..10` is
/// taken exactly when the cell can be lit, and returned; it lights the cell
/// exactly when it is 0 (see `ignite_on_roll`).
fn maybe_ignite(map: &mut TileMap, rng: &mut RandomNumberGenerator, x: i64, y: i64) -> (roll: Option<i32>)
    requires
        old(map).wf(),
        old(map).size.0 <= i32::MAX,
        old(map).size.1 <= i32::MAX,
    ensures
        final(map).wf(),
        final(map).tiles@ == old(map).tiles@,
        final(map).size == old(map).size,
        final(map).blocked@ == old(map).blocked@,
        final(map).tile_content@ == old(map).tile_content@,
        only_ignitions(old(map).fire_turns@, final(map).fire_turns@, old(map).tiles@),
        final(map).fire_turns@ == old(map).fire_turns@ || (can_ignite(*old(map), x as int, y as int)
            && final(map).fire_turns@ == old(map).fire_turns@.update(
                spec_xy_idx(old(map).size.0 as int, x as int, y as int), NEW_FIRE_TURNS)),
        roll is Some <==> can_ignite(*old(map), x as int, y as int),
        roll is None ==> final(map).fire_turns@ == old(map).fire_turns@,
        roll matches Some(v) ==> 0 <= v < 10 && final(map).fire_turns@ == if v == 0 {
            old(map).fire_turns@.update(spec_xy_idx(old(map).size.0 as int, x as int, y as int), NEW_FIRE_TURNS)
        } else {
            old(map).fire_turns@
        },
{
    if 0 <= x && x < map.size.0 as i64 && 0 <= y && y < map.size.1 as i64 {
        let (ux, uy) = (x as usize, y as usize);
        proof {
            lemma_xy_idx_bound(map.size.0 as int, map.size.1 as int, ux as int, uy as int);
        }
        let idx = map.xy_idx((ux, uy));
        if map.fire_turns[idx] == 0 && map.is_flammable(idx) {
            let roll = rng_range(rng, 0, 10);
            ignite_on_roll(map, idx, roll);
            return Some(roll);
        }
    }
    None
}

/// One turn of fire on the map.
///
/// Cells are visited in index order. A cell that is burning counts down by
/// one; if that puts out a flammable cell it becomes dirt; every entity on it
/// is returned (it catches fire); and each flammable, non-burning cell of the
/// 3x3 block around it is lit with chance one in ten. A cell lit this way
/// before the pass reaches it burns (and counts down) in the same turn.
pub fn burn_tiles(map: &mut TileMap, rng: &mut RandomNumberGenerator) -> (caught: Vec<EntityId>)
    requires
        old(map).wf(),
        old(map).size.0 <= i32::MAX,
        old(map).size.1 <= i32::MAX,
    ensures
        final(map).wf(),
        final(map).size == old(map).size,
        final(map).blocked@ == old(map).blocked@,
        final(map).tile_content@ == old(map).tile_content@,
        final(map).tiles@.len() == old(map).tiles@.len(),
        forall|i: int|
            0 <= i < old(map).spec_len() ==> #[trigger] cell_after_tick(
                old(map).fire_turns@,
                old(map).tiles@,
                final(map).fire_turns@,
                final(map).tiles@,
                i,
            ),
        caught@ == caught_fire(
            old(map).fire_turns@,
            final(map).fire_turns@,
            old(map).tile_content@,
            old(map).spec_len(),
        ),
{
    let ghost old_fire = map.fire_turns@;
    let ghost old_tiles = map.tiles@;
    let n = map.len();
    let mut caught: Vec<EntityId> = Vec::new();
    let mut idx: usize = 0;
    while idx < n
        invariant
            map.wf(),
            n == map.spec_len(),
            map.size == old(map).size,
            map.size.0 <= i32::MAX,
            map.size.1 <= i32::MAX,
            map.blocked@ == old(map).blocked@,
            map.tile_content@ == old(map).tile_content@,
            old_fire == old(map).fire_turns@,
            old_tiles == old(map).tiles@,
            idx <= n,
            forall|k: int|
                0 <= k < idx ==> #[trigger] cell_after_tick(
                    old_fire,
                    old_tiles,
                    map.fire_turns@,
                    map.tiles@,
                    k,
                ),
            forall|k: int|
                idx <= k < n ==> #[trigger] cell_pending(
                    old_fire,
                    old_tiles,
                    map.fire_turns@,
                    map.tiles@,
                    k,
                ),
            caught@ == caught_fire(old_fire, map.fire_turns@, map.tile_content@, idx as int),
        decreases n - idx,
    {
        let f = map.fire_turns[idx];
        if f > 0 {
            let ghost before = map.fire_turns@;
            let ghost tiles_before = map.tiles@;
            proof {
                assert(cell_pending(old_fire, old_tiles, before, tiles_before, idx as int));
            }
            map.fire_turns.set(idx, f - 1);
            if map.fire_turns[idx] == 0 && map.is_flammable(idx) {
                map.tiles.set(idx, TileType::Dirt);
            }
            proof {
                lemma_caught_fire_stable(
                    old_fire,
                    before,
                    map.fire_turns@,
                    map.tile_content@,
                    idx as int,
                );
            }
            let ghost caught_before = caught@;
            let cell = &map.tile_content[idx];
            let mut j: usize = 0;
            while j < cell.len()
                invariant
                    j <= cell@.len(),
                    caught@ == caught_before + cell@.subrange(0, j as int),
                decreases cell@.len() - j,
            {
                caught.push(cell[j]);
                j += 1;
            }
            proof {
                assert(cell@.subrange(0, cell@.len() as int) == cell@);
                assert(burned_in_tick(old_fire, map.fire_turns@, idx as int));
            }
            let ghost after_count = map.fire_turns@;
            let ghost tiles_now = map.tiles@;
            let (x, y) = map.idx_xy(idx);
            proof {
                lemma_idx_parts(idx as int, map.size.0 as int);
                assert(y < map.size.1) by {
                    if y >= map.size.1 {
                        assert(idx as int >= map.size.1 * map.size.0) by (nonlinear_arith)
                            requires
                                idx as int == y * map.size.0 + x,
                                y >= map.size.1,
                                x >= 0,
                                map.size.0 >= 0;
                        assert(map.size.1 * map.size.0 == map.size.0 * map.size.1) by (nonlinear_arith);
                    }
                }
            }
            let xi = x as i64;
            let yi = y as i64;
            let mut dx: i64 = -1;
            while dx <= 1
                invariant
                    -1 <= dx <= 2,
                    map.wf(),
                    n == map.spec_len(),
                    map.size == old(map).size,
                    map.size.0 <= i32::MAX,
                    map.size.1 <= i32::MAX,
                    map.blocked@ == old(map).blocked@,
                    map.tile_content@ == old(map).tile_content@,
                    map.tiles@ == tiles_now,
                    only_ignitions(after_count, map.fire_turns@, tiles_now),
                    0 <= xi <= i32::MAX,
                    0 <= yi <= i32::MAX,
                decreases 2 - dx,
            {
                let mut dy: i64 = -1;
                while dy <= 1
                    invariant
                        -1 <= dx <= 1,
                        -1 <= dy <= 2,
                        map.wf(),
                        n == map.spec_len(),
                        map.size == old(map).size,
                        map.size.0 <= i32::MAX,
                        map.size.1 <= i32::MAX,
                        map.blocked@ == old(map).blocked@,
                        map.tile_content@ == old(map).tile_content@,
                        map.tiles@ == tiles_now,
                        only_ignitions(after_count, map.fire_turns@, tiles_now),
                        0 <= xi <= i32::MAX,
                        0 <= yi <= i32::MAX,
                    decreases 2 - dy,
                {
                    let ghost prev = map.fire_turns@;
                    let _ = maybe_ignite(map, rng, xi + dx, yi + dy);
                    proof {
                        assert forall|k: int| 0 <= k < after_count.len() implies #[trigger] map.fire_turns@[k]
                            == after_count[k] || (after_count[k] == 0 && map.fire_turns@[k]
                            == NEW_FIRE_TURNS && spec_is_flammable_tile(tiles_now[k])) by {
                            assert(prev[k] == after_count[k] || (after_count[k] == 0 && prev[k]
                                == NEW_FIRE_TURNS && spec_is_flammable_tile(tiles_now[k])));
                        }
                    }
                    dy += 1;
                }
                dx += 1;
            }
            proof {
                let cur = map.fire_turns@;
                // the cell itself cannot be relit: it is burning, or burnt out
                // into dirt, or not flammable
                assert(cur[idx as int] == after_count[idx as int]);
                assert forall|k: int| 0 <= k <= idx implies burned_in_tick(old_fire, after_count, k)
                    == burned_in_tick(old_fire, cur, k) by {
                    if after_count[k] != cur[k] {
                        assert(after_count[k] == 0 && cur[k] == NEW_FIRE_TURNS);
                    }
                }
                lemma_caught_fire_stable(
                    old_fire,
                    after_count,
                    cur,
                    map.tile_content@,
                    idx as int + 1,
                );
                assert(caught_fire(old_fire, after_count, map.tile_content@, idx as int + 1)
                    == caught_fire(old_fire, after_count, map.tile_content@, idx as int)
                    + map.tile_content@[idx as int]@);
                assert forall|k: int| 0 <= k <= idx implies #[trigger] cell_after_tick(
                    old_fire,
                    old_tiles,
                    cur,
                    map.tiles@,
                    k,
                ) by {
                    assert(cur[k] == after_count[k] || (after_count[k] == 0 && cur[k]
                        == NEW_FIRE_TURNS && spec_is_flammable_tile(tiles_now[k])));
                    if k < idx {
                        assert(cell_after_tick(old_fire, old_tiles, before, tiles_before, k));
                        assert(after_count[k] == before[k]);
                    } else {
                        assert(cell_pending(old_fire, old_tiles, before, tiles_before, k));
                    }
                }
                assert forall|k: int| idx < k < n implies #[trigger] cell_pending(
                    old_fire,
                    old_tiles,
                    cur,
                    map.tiles@,
                    k,
                ) by {
                    assert(cell_pending(old_fire, old_tiles, before, tiles_before, k));
                    assert(cur[k] == after_count[k] || (after_count[k] == 0 && cur[k]
                        == NEW_FIRE_TURNS && spec_is_flammable_tile(tiles_now[k])));
                    assert(after_count[k] == before[k]);
                }
            }
        } else {
            proof {
                assert(cell_pending(old_fire, old_tiles, map.fire_turns@, map.tiles@, idx as int));
                assert(!burned_in_tick(old_fire, map.fire_turns@, idx as int));
                assert(caught_fire(old_fire, map.fire_turns@, map.tile_content@, idx as int + 1)
                    == caught_fire(old_fire, map.fire_turns@, map.tile_content@, idx as int));
            }
        }
        idx += 1;
    }
    caught
}

/// Index `k` is that of one of the cells `pts` on a map `w` wide.
pub open spec fn under_points(w: int, pts: Seq<Point>, k: int) -> bool {
    exists|i: int| 0 <= i < pts.len() && k == spec_xy_idx(w, #[trigger] pts[i].x as int, pts[i].y as int)
}

/// Every cell of `pts` lies on a map `w` wide of `len` cells.
pub open spec fn points_on_map(w: int, len: int, pts: Seq<Point>) -> bool {
    forall|i: int| 0 <= i < pts.len() ==> {
        &&& 0 <= #[trigger] pts[i].x
        &&& 0 <= pts[i].y
        &&& spec_xy_idx(w, pts[i].x as int, pts[i].y as int) < len
    }
}

/// The burn counters once every flammable, non-burning cell among `pts` is lit.
pub open spec fn spec_ignited(fire: Seq<usize>, tiles: Seq<TileType>, w: int, pts: Seq<Point>) -> Seq<usize> {
    Seq::new(fire.len(), |k: int|
        if under_points(w, pts, k) && spec_is_flammable_tile(tiles[k]) && fire[k] == 0 {
            NEW_FIRE_TURNS
        } else {
            fire[k]
        })
}

/// Lights, for `NEW_FIRE_TURNS` turns, every flammable cell among `pts` that
/// is not burning yet.
pub fn ignite_under(map: &mut TileMap, pts: &Vec<Point>)
    requires
        old(map).wf(),
        points_on_map(old(map).size.0 as int, old(map).spec_len(), pts@),
    ensures
        final(map).wf(),
        final(map).tiles@ == old(map).tiles@,
        final(map).size == old(map).size,
        final(map).blocked@ == old(map).blocked@,
        final(map).tile_content@ == old(map).tile_content@,
        final(map).fire_turns@ == spec_ignited(old(map).fire_turns@, old(map).tiles@, old(map).size.0 as int, pts@),
{
    let ghost w = map.size.0 as int;
    let ghost f0 = map.fire_turns@;
    let mut i: usize = 0;
    while i < pts.len()
        invariant
            map.wf(),
            map.tiles@ == old(map).tiles@,
            map.size == old(map).size,
            map.blocked@ == old(map).blocked@,
            map.tile_content@ == old(map).tile_content@,
            w == map.size.0,
            f0 == old(map).fire_turns@,
            i <= pts@.len(),
            points_on_map(w, map.spec_len(), pts@),
            map.fire_turns@ == spec_ignited(f0, map.tiles@, w, pts@.subrange(0, i as int)),
        decreases pts@.len() - i,
    {
        let p = pts[i];
        assert(0 <= pts@[i as int].x);
        let idx = map.point_idx(p);
        let ghost before = map.fire_turns@;
        if map.is_flammable(idx) && map.fire_turns[idx] == 0 {
            map.fire_turns.set(idx, NEW_FIRE_TURNS);
        }
        proof {
            let done = pts@.subrange(0, i as int);
            let next = pts@.subrange(0, i + 1);
            assert forall|k: int| 0 <= k < f0.len() implies #[trigger] map.fire_turns@[k] == spec_ignited(f0, map.tiles@, w, next)[k] by {
                if k == idx as int {
                    assert(next[i as int] == p);
                    assert(under_points(w, next, k));
                    if under_points(w, done, k) {
                    }
                } else {
                    if under_points(w, next, k) {
                        let j = choose|j: int| 0 <= j < next.len() && k == spec_xy_idx(w, #[trigger] next[j].x as int, next[j].y as int);
                        assert(j != i as int);
                        assert(done[j] == next[j]);
                        assert(under_points(w, done, k));
                    }
                    if under_points(w, done, k) {
                        let j = choose|j: int| 0 <= j < done.len() && k == spec_xy_idx(w, #[trigger] done[j].x as int, done[j].y as int);
                        assert(done[j] == next[j]);
                        assert(under_points(w, next, k));
                    }
                }
            }
            assert(map.fire_turns@ =~= spec_ignited(f0, map.tiles@, w, next));
        }
        i += 1;
    }
    proof {
        assert(pts@.subrange(0, pts@.len() as int) =~= pts@);
    }
}

/// The entities among `fires` whose fire has run out.
pub open spec fn burnt_out(fires: Seq<(EntityId, OnFire)>) -> Seq<EntityId>
    decreases fires.len(),
{
    if fires.len() == 0 {
        Seq::empty()
    } else {
        burnt_out(fires.drop_last()) + if fires.last().1.turns <= 0 { seq![fires.last().0] } else { Seq::empty() }
    }
}

/// Counts down by one the turns of every burning entity, and returns, in
/// order, those whose fire has run out (no turns left).
pub fn countdown_fires(fires: &mut Vec<(EntityId, OnFire)>) -> (expired: Vec<EntityId>)
    requires
        forall|i: int| 0 <= i < old(fires)@.len() ==> #[trigger] old(fires)@[i].1.turns > i32::MIN,
    ensures
        final(fires)@.len() == old(fires)@.len(),
        forall|i: int| 0 <= i < old(fires)@.len() ==> #[trigger] final(fires)@[i] == (old(fires)@[i].0, OnFire { turns: (old(fires)@[i].1.turns - 1) as i32 }),
        expired@ == burnt_out(final(fires)@),
{
    let mut expired: Vec<EntityId> = Vec::new();
    let mut i: usize = 0;
    while i < fires.len()
        invariant
            i <= fires@.len(),
            fires@.len() == old(fires)@.len(),
            forall|j: int| 0 <= j < i ==> #[trigger] fires@[j] == (old(fires)@[j].0, OnFire { turns: (old(fires)@[j].1.turns - 1) as i32 }),
            forall|j: int| i <= j < fires@.len() ==> #[trigger] fires@[j] == old(fires)@[j],
            forall|j: int| 0 <= j < old(fires)@.len() ==> #[trigger] old(fires)@[j].1.turns > i32::MIN,
            expired@ == burnt_out(fires@.subrange(0, i as int)),
        decreases fires@.len() - i,
    {
        let (id, fire) = fires[i];
        let updated = (id, OnFire { turns: fire.turns - 1 });
        let ghost pre = fires@;
        fires.set(i, updated);
        if updated.1.turns <= 0 {
            expired.push(id);
        }
        proof {
            assert(fires@.subrange(0, i as int) =~= pre.subrange(0, i as int));
            assert(fires@.subrange(0, i + 1).drop_last() =~= fires@.subrange(0, i as int));
            assert(fires@.subrange(0, i + 1).last() == updated);
        }
        i += 1;
    }
    proof {
        assert(fires@.subrange(0, fires@.len() as int) =~= fires@);
    }
    expired
}

/// The cells of all the entities in `burning`, entity by entity.
pub open spec fn all_points(burning: Seq<(EntityId, Vec<Point>)>) -> Seq<Point>
    decreases burning.len(),
{
    if burning.len() == 0 {
        Seq::empty()
    } else {
        all_points(burning.drop_last()) + burning.last().1@
    }
}

/// What one turn of fire did to the entities.
pub struct FireTurn {
    /// Burning entities that take one point of damage, in order.
    pub damaged: Vec<EntityId>,
    /// Entities whose fire ran out.
    pub expired: Vec<EntityId>,
    /// Entities standing on burning cells, which catch fire.
    pub caught: Vec<EntityId>,
}

/// One turn of the fire system. `burning` lists each burning entity that has
/// stats, with the cells it stands on; `fires` holds the remaining turns of
/// every burning entity. Each entity in `burning` takes one point of damage
/// and lights the flammable, non-burning cells it stands on; every fire
/// counts down by one turn; then the map burns for one turn (`burn_tiles`).
pub fn run_fire_system(
    map: &mut TileMap,
    burning: &Vec<(EntityId, Vec<Point>)>,
    fires: &mut Vec<(EntityId, OnFire)>,
    rng: &mut RandomNumberGenerator,
) -> (r: FireTurn)
    requires
        old(map).wf(),
        old(map).size.0 <= i32::MAX,
        old(map).size.1 <= i32::MAX,
        points_on_map(old(map).size.0 as int, old(map).spec_len(), all_points(burning@)),
        forall|i: int| 0 <= i < old(fires)@.len() ==> #[trigger] old(fires)@[i].1.turns > i32::MIN,
    ensures
        final(map).wf(),
        final(map).size == old(map).size,
        final(map).blocked@ == old(map).blocked@,
        final(map).tile_content@ == old(map).tile_content@,
        final(map).tiles@.len() == old(map).tiles@.len(),
        r.damaged@.len() == burning@.len(),
        forall|i: int| 0 <= i < burning@.len() ==> #[trigger] r.damaged@[i] == burning@[i].0,
        final(fires)@.len() == old(fires)@.len(),
        forall|i: int| 0 <= i < old(fires)@.len() ==> #[trigger] final(fires)@[i] == (old(fires)@[i].0, OnFire { turns: (old(fires)@[i].1.turns - 1) as i32 }),
        r.expired@ == burnt_out(final(fires)@),
        ({
            let lit = spec_ignited(old(map).fire_turns@, old(map).tiles@, old(map).size.0 as int, all_points(burning@));
            &&& forall|i: int| 0 <= i < old(map).spec_len() ==> #[trigger] cell_after_tick(
                lit, old(map).tiles@, final(map).fire_turns@, final(map).tiles@, i)
            &&& r.caught@ == caught_fire(lit, final(map).fire_turns@, old(map).tile_content@, old(map).spec_len())
        }),
{
    let mut damaged: Vec<EntityId> = Vec::new();
    let mut pts: Vec<Point> = Vec::new();
    let mut i: usize = 0;
    while i < burning.len()
        invariant
            i <= burning@.len(),
            damaged@.len() == i,
            forall|j: int| 0 <= j < i ==> #[trigger] damaged@[j] == burning@[j].0,
            pts@ == all_points(burning@.subrange(0, i as int)),
        decreases burning@.len() - i,
    {
        damaged.push(burning[i].0);
        let cells = &burning[i].1;
        let ghost before = pts@;
        let mut j: usize = 0;
        while j < cells.len()
            invariant
                j <= cells@.len(),
                pts@ == before + cells@.subrange(0, j as int),
            decreases cells@.len() - j,
        {
            pts.push(cells[j]);
            j += 1;
        }
        proof {
            assert(cells@.subrange(0, cells@.len() as int) =~= cells@);
            assert(burning@.subrange(0, i + 1).drop_last() =~= burning@.subrange(0, i as int));
        }
        i += 1;
    }
    proof {
        assert(burning@.subrange(0, burning@.len() as int) =~= burning@);
    }
    ignite_under(map, &pts);
    let expired = countdown_fires(fires);
    let caught = burn_tiles(map, rng);
    FireTurn { damaged, expired, caught }
}

} // verus!
