//! Snapshots of a map while it is generated, kept so that the game can
//! replay how the map was made.

use vstd::prelude::*;
use crate::map::TileMap;
use crate::tiles::TileType;

verus! {

/// Whether map generation records a snapshot of the map after each step,
/// for the game to replay.
pub const SHOW_MAPGEN_ANIMATION: bool = true;

/// `a` holds the same cells as `b`: terrain, size, blocking, fires and
/// contents.
pub open spec fn same_map(a: TileMap, b: TileMap) -> bool {
    &&& a.tiles@ == b.tiles@
    &&& a.size == b.size
    &&& a.blocked@ == b.blocked@
    &&& a.fire_turns@ == b.fire_turns@
    &&& a.tile_content@.len() == b.tile_content@.len()
    &&& forall|i: int| 0 <= i < a.tile_content@.len() ==> (#[trigger] a.tile_content@[i])@ == b.tile_content@[i]@
}

/// A copy of `v`.
fn copy_vec<T: Copy>(v: &Vec<T>) -> (r: Vec<T>)
    ensures
        r@ == v@,
{
    let mut r: Vec<T> = Vec::new();
    let mut i: usize = 0;
    while i < v.len()
        invariant
            i <= v@.len(),
            r@ == v@.take(i as int),
        decreases v@.len() - i,
    {
        r.push(v[i]);
        proof {
            assert(r@ =~= v@.take(i + 1));
        }
        i += 1;
    }
    proof {
        assert(r@ =~= v@);
    }
    r
}

/// A snapshot of `map`: a copy holding the same cells.
pub fn snapshot(map: &TileMap) -> (r: TileMap)
    ensures
        same_map(r, *map),
{
    let mut content: Vec<Vec<crate::map::EntityId>> = Vec::new();
    let mut i: usize = 0;
    while i < map.tile_content.len()
        invariant
            i <= map.tile_content@.len(),
            content@.len() == i,
            forall|k: int| 0 <= k < i ==> (#[trigger] content@[k])@ == map.tile_content@[k]@,
        decreases map.tile_content@.len() - i,
    {
        content.push(copy_vec(&map.tile_content[i]));
        i += 1;
    }
    TileMap {
        tiles: copy_vec(&map.tiles),
        size: map.size,
        blocked: copy_vec(&map.blocked),
        fire_turns: copy_vec(&map.fire_turns),
        tile_content: content,
    }
}

/// `after` is `before` with a snapshot of each of `maps` appended, in order.
pub open spec fn snapshots_added(before: Seq<TileMap>, after: Seq<TileMap>, maps: Seq<TileMap>) -> bool {
    &&& after.len() == before.len() + maps.len()
    &&& forall|i: int| 0 <= i < before.len() ==> #[trigger] after[i] == before[i]
    &&& forall|i: int| 0 <= i < maps.len() ==> same_map(#[trigger] after[before.len() + i], maps[i])
}

/// `after` is `before` with `n` more snapshots appended.
pub open spec fn history_grew(before: Seq<TileMap>, after: Seq<TileMap>, n: int) -> bool {
    &&& after.len() == before.len() + n
    &&& forall|i: int| 0 <= i < before.len() ==> #[trigger] after[i] == before[i]
}

/// Records a snapshot of `map` in `history` when map generation is shown.
pub fn take_snapshot(history: &mut Vec<TileMap>, map: &TileMap)
    ensures
        snapshots_added(old(history)@, final(history)@, seq![*map]),
        history_grew(old(history)@, final(history)@, 1),
        same_map(final(history)@.last(), *map),
{
    if SHOW_MAPGEN_ANIMATION {
        history.push(snapshot(map));
    }
    proof {
        assert(history@.len() == old(history)@.len() + 1);
        assert(same_map(history@[old(history)@.len() as int], seq![*map][0]));
    }
}

/// `after` is `before` with `n` more terrain snapshots appended.
pub open spec fn tile_history_grew(before: Seq<Vec<TileType>>, after: Seq<Vec<TileType>>, n: int) -> bool {
    &&& after.len() == before.len() + n
    &&& forall|i: int| 0 <= i < before.len() ==> #[trigger] after[i] == before[i]
}

/// Records a snapshot of the terrain `tiles` in `history` when map
/// generation is shown.
pub fn take_tile_snapshot(history: &mut Vec<Vec<TileType>>, tiles: &Vec<TileType>)
    ensures
        tile_history_grew(old(history)@, final(history)@, 1),
        final(history)@.last()@ == tiles@,
{
    if SHOW_MAPGEN_ANIMATION {
        history.push(copy_vec(tiles));
    }
}

} // verus!
