//! Spawn tables: which entities a room may be stocked with, how likely each
//! is, and where in a region they are placed.

use vstd::prelude::*;
use std::collections::HashMap;
use rltk::RandomNumberGenerator;
use crate::rng::rng_roll_dice;
use crate::map::{TileMap, spec_xy_idx, lemma_xy_idx_bound, law_xy_idx_round_trip};
use crate::map_builders::Rect;
use crate::tiles::TileType;

verus! {

broadcast use vstd::string::group_string_axioms;

/// The most monsters a region starts with before depth is added.
pub const MAX_MONSTERS: usize = 4;

/// The kinds of entity the effect queue can spawn.
#[derive(Debug, Clone, Copy, PartialEq, Eq, Structural)]
pub enum EntitySpawnTypes {
    Villager,
}

/// One name of a spawn table and its weight.
#[derive(Debug, Clone)]
pub struct WeightedEntry {
    pub name: String,
    pub weight: usize,
}

/// Names with weights; a roll picks a name with chance proportional to its weight.
#[derive(Debug, Clone)]
pub struct WeightedTable {
    entries: Vec<WeightedEntry>,
    total_weight: usize,
}

/// The sum of the weights of `entries`.
pub open spec fn spec_total(entries: Seq<(Seq<char>, nat)>) -> nat
    decreases entries.len(),
{
    if entries.len() == 0 {
        0
    } else {
        spec_total(entries.drop_last()) + entries.last().1
    }
}

/// The name a roll of `n` (counted from 0) lands on: the entry whose share
/// of the cumulative weights holds `n`.
pub open spec fn spec_pick(entries: Seq<(Seq<char>, nat)>, n: int) -> Seq<char>
    decreases entries.len(),
{
    if entries.len() == 0 {
        Seq::empty()
    } else if n < entries[0].1 {
        entries[0].0
    } else {
        spec_pick(entries.drop_first(), n - entries[0].1)
    }
}

proof fn lemma_total_first(entries: Seq<(Seq<char>, nat)>)
    requires
        entries.len() > 0,
    ensures
        spec_total(entries) == entries[0].1 + spec_total(entries.drop_first()),
    decreases entries.len(),
{
    if entries.len() > 1 {
        lemma_total_first(entries.drop_last());
        assert(entries.drop_last().drop_first() == entries.drop_first().drop_last());
        assert(entries.drop_first().last() == entries.last());
        assert(entries.drop_last()[0] == entries[0]);
        assert(spec_total(entries.drop_first()) == spec_total(entries.drop_first().drop_last()) + entries.drop_first().last().1);
        assert(spec_total(entries) == spec_total(entries.drop_last()) + entries.last().1);
        assert(spec_total(entries.drop_last()) == entries[0].1 + spec_total(entries.drop_last().drop_first()));
    } else {
        assert(spec_total(entries.drop_last()) == 0);
        assert(spec_total(entries.drop_first()) == 0);
        assert(entries.drop_first().len() == 0);
        assert(entries.drop_last().len() == 0);
        assert(entries.last() == entries[0]);
    }
}

impl WeightedTable {
    /// The entries as (name, weight) pairs.
    pub closed spec fn view(&self) -> Seq<(Seq<char>, nat)> {
        self.entries@.map_values(|e: WeightedEntry| (e.name@, e.weight as nat))
    }

    /// The stored total is the sum of the weights, and no weight is zero.
    pub closed spec fn wf(&self) -> bool {
        &&& self.total_weight == spec_total(self.view())
        &&& forall|k: int| 0 <= k < self.view().len() ==> #[trigger] self.view()[k].1 > 0
    }

    /// The sum of the weights.
    pub open spec fn total(&self) -> nat {
        spec_total(self.view())
    }

    /// An empty table.
    pub fn new() -> (r: Self)
        ensures
            r.wf(),
            r.view() == Seq::<(Seq<char>, nat)>::empty(),
    {
        let r = WeightedTable { entries: Vec::new(), total_weight: 0 };
        proof {
            assert(r.view() =~= Seq::<(Seq<char>, nat)>::empty());
        }
        r
    }

    /// The table with `name` added at `weight`; a zero weight adds nothing.
    pub fn add(self, name: &str, weight: usize) -> (r: Self)
        requires
            self.wf(),
            self.total() + weight <= usize::MAX,
        ensures
            r.wf(),
            r.total() == self.total() + weight,
            r.view() == if weight > 0 {
                self.view().push((name@, weight as nat))
            } else {
                self.view()
            },
    {
        let mut t = self;
        if weight > 0 {
            let ghost before = t.view();
            t.total_weight = t.total_weight + weight;
            t.entries.push(WeightedEntry { name: name.to_string(), weight });
            proof {
                assert(t.view() =~= before.push((name@, weight as nat)));
                assert(t.view().drop_last() == before);
            }
        }
        t
    }

    /// The sum of the weights.
    pub fn total_weight(&self) -> (r: usize)
        requires
            self.wf(),
        ensures
            r == self.total(),
    {
        self.total_weight
    }

    /// The name a roll of `n` lands on (see `spec_pick`).
    pub fn pick(&self, n: usize) -> (r: Option<String>)
        requires
            self.wf(),
        ensures
            n < self.total() ==> (r matches Some(s) && s@ == spec_pick(self.view(), n as int)),
            n >= self.total() ==> r is None,
    {
        let ghost v = self.view();
        let mut rest = n;
        proof {
            assert(v.skip(0) == v);
        }
        let mut k: usize = 0;
        while k < self.entries.len()
            invariant
                v == self.view(),
                k <= v.len(),
                v.len() == self.entries@.len(),
                self.wf(),
                spec_pick(v, n as int) == spec_pick(v.skip(k as int), rest as int),
                (n < spec_total(v)) == (rest < spec_total(v.skip(k as int))),
            decreases v.len() - k,
        {
            proof {
                assert(v.skip(k as int)[0] == v[k as int]);
                lemma_total_first(v.skip(k as int));
                assert(v.skip(k as int).drop_first() == v.skip(k as int + 1));
            }
            let w = self.entries[k].weight;
            if rest < w {
                return Some(self.entries[k].name.clone());
            }
            rest = rest - w;
            k += 1;
        }
        proof {
            assert(v.skip(k as int).len() == 0);
        }
        None
    }

    /// Rolls the table: a name chosen with chance proportional to its
    /// weight, or `None` when the table is empty.
    pub fn roll(&self, rng: &mut RandomNumberGenerator) -> (r: Option<String>)
        requires
            self.wf(),
            self.total() < i32::MAX,
        ensures
            self.total() == 0 <==> r is None,
            r matches Some(s) ==> exists|n: int| 0 <= n < self.total() && s@ == #[trigger] spec_pick(self.view(), n),
    {
        if self.total_weight == 0 {
            return None;
        }
        let roll = rng_roll_dice(rng, 1, self.total_weight as i32) - 1;
        let r = self.pick(roll as usize);
        proof {
            assert(0 <= roll < self.total());
        }
        r
    }
}

/// The names and weights of the spawn table of a room at `depth`.
pub open spec fn spec_room_table(depth: int) -> Seq<(Seq<char>, nat)> {
    let all = seq![
        ("Wolf"@, 10nat),
        ("Goblin"@, 10nat),
        ("Orc"@, (1 + depth) as nat),
        ("Health Potion"@, 7nat),
        ("Fireball Scroll"@, (2 + depth) as nat),
        ("Confusion Scroll"@, (2 + depth) as nat),
        ("Magic Missile Scroll"@, 4nat),
        ("Dagger"@, 2nat),
        ("Shield"@, 2nat),
        ("Longsword"@, (depth - 1) as nat),
        ("Tower Shield"@, (depth - 1) as nat),
    ];
    all.filter(|e: (Seq<char>, nat)| e.1 > 0)
}

/// The spawn table of a room at `depth`: monsters and items with weights,
/// deeper levels giving more orcs, fire and confusion scrolls, and (from
/// depth 2) longswords and tower shields.
pub fn room_table(depth: usize) -> (r: WeightedTable)
    requires
        1 <= depth,
        38 + 5 * depth <= usize::MAX,
    ensures
        r.wf(),
        r.view() == spec_room_table(depth as int),
        r.total() == 38 + 5 * depth,
{
    proof {
        reveal_strlit("Wolf");
        reveal_strlit("Goblin");
        reveal_strlit("Orc");
        reveal_strlit("Health Potion");
        reveal_strlit("Fireball Scroll");
        reveal_strlit("Confusion Scroll");
        reveal_strlit("Magic Missile Scroll");
        reveal_strlit("Dagger");
        reveal_strlit("Shield");
        reveal_strlit("Longsword");
        reveal_strlit("Tower Shield");
    }
    let r = WeightedTable::new()
        .add("Wolf", 10)
        .add("Goblin", 10)
        .add("Orc", 1 + depth)
        .add("Health Potion", 7)
        .add("Fireball Scroll", 2 + depth)
        .add("Confusion Scroll", 2 + depth)
        .add("Magic Missile Scroll", 4)
        .add("Dagger", 2)
        .add("Shield", 2)
        .add("Longsword", depth - 1)
        .add("Tower Shield", depth - 1);
    proof {
        let f = |e: (Seq<char>, nat)| e.1 > 0;
        reveal_with_fuel(Seq::filter, 12);
        assert(spec_room_table(depth as int) =~= r.view());
    }
    r
}

/// `name` is what a roll of the room table of depth `depth` can give.
pub open spec fn room_roll(depth: int, name: Seq<char>) -> bool {
    exists|n: int| 0 <= n < 38 + 5 * depth && name == #[trigger] spec_pick(spec_room_table(depth), n)
}

/// Chooses what to spawn where in a region of map cells at a dungeon depth.
///
/// Up to `1d7 + map_depth - 1` cells (no more than the region has) are drawn
/// at random from `area`, without putting a drawn cell back, and each gets a
/// roll of `room_table(map_depth)`, kept by cell. A cell drawn twice (when
/// `area` repeats it) keeps the later roll.
pub fn spawn_region(area: &Vec<usize>, map_depth: usize, rng: &mut RandomNumberGenerator) -> (r: HashMap<usize, String>)
    requires
        1 <= map_depth,
        38 + 5 * map_depth < i32::MAX,
        area@.len() < i32::MAX,
    ensures
        r@.dom().finite(),
        forall|c: usize| #[trigger] r@.contains_key(c) ==> area@.contains(c),
        r@.len() <= area@.len(),
        r@.len() <= map_depth + 6,
        area@.no_duplicates() ==> r@.len() >= if area@.len() < map_depth { area@.len() as int } else { map_depth as int },
        forall|c: usize| #[trigger] r@.contains_key(c) ==> room_roll(map_depth as int, r@[c]@),
{
    broadcast use vstd::std_specs::hash::group_hash_axioms;
    let spawn_table = room_table(map_depth);
    let mut spawn_points: HashMap<usize, String> = HashMap::new();
    let mut areas: Vec<usize> = area.clone();
    proof {
        assert(areas@ =~= area@);
    }
    let roll = rng_roll_dice(rng, 1, MAX_MONSTERS as i32 + 3) as usize;
    let wanted = roll + map_depth - 1;
    let num_spawns = if areas.len() < wanted { areas.len() } else { wanted };
    if num_spawns == 0 {
        return spawn_points;
    }
    let mut i: usize = 0;
    while i < num_spawns
        invariant
            i <= num_spawns,
            num_spawns <= area@.len(),
            num_spawns <= map_depth + 6,
            area@.no_duplicates() ==> num_spawns >= if area@.len() < map_depth { area@.len() as int } else { map_depth as int },
            areas@.len() == area@.len() - i,
            area@.len() < i32::MAX,
            1 <= map_depth,
            38 + 5 * map_depth < i32::MAX,
            spawn_table.wf(),
            spawn_table.view() == spec_room_table(map_depth as int),
            spawn_table.total() == 38 + 5 * map_depth,
            spawn_points@.dom().finite(),
            spawn_points@.len() <= i,
            forall|k: int| 0 <= k < areas@.len() ==> area@.contains(#[trigger] areas@[k]),
            forall|c: usize| #[trigger] spawn_points@.contains_key(c) ==> area@.contains(c),
            area@.no_duplicates() ==> {
                &&& areas@.no_duplicates()
                &&& spawn_points@.len() == i
                &&& forall|c: usize, j: int| #[trigger] spawn_points@.contains_key(c) && 0 <= j < areas@.len() ==> c != #[trigger] areas@[j]
            },
            forall|c: usize| #[trigger] spawn_points@.contains_key(c) ==> room_roll(map_depth as int, spawn_points@[c]@),
        decreases num_spawns - i,
    {
        let array_index = if areas.len() == 1 {
            0usize
        } else {
            (rng_roll_dice(rng, 1, areas.len() as i32) - 1) as usize
        };
        let map_idx = areas[array_index];
        let name = match spawn_table.roll(rng) {
            Some(n) => n,
            None => {
                proof {
                    assert(false);
                }
                String::new()
            },
        };
        let ghost before_points = spawn_points@;
        let ghost before_areas = areas@;
        let ghost name_v = name@;
        spawn_points.insert(map_idx, name);
        areas.remove(array_index);
        proof {
            before_areas.remove_ensures(array_index as int);
            assert(spawn_points@ == before_points.insert(map_idx, spawn_points@[map_idx]));
            assert(spawn_points@[map_idx]@ == name_v);
            assert forall|k: int| 0 <= k < areas@.len() implies area@.contains(#[trigger] areas@[k]) by {
                if k < array_index {
                    assert(areas@[k] == before_areas[k]);
                } else {
                    assert(areas@[k] == before_areas[k + 1]);
                }
            }
            assert forall|c: usize| #[trigger] spawn_points@.contains_key(c) implies area@.contains(c) by {
                if c == map_idx {
                    assert(area@.contains(before_areas[array_index as int]));
                } else {
                    assert(before_points.contains_key(c));
                }
            }
            assert forall|c: usize| #[trigger] spawn_points@.contains_key(c) implies room_roll(map_depth as int, spawn_points@[c]@) by {
                if c != map_idx {
                    assert(before_points.contains_key(c));
                    assert(spawn_points@[c] == before_points[c]);
                }
            }
            if area@.no_duplicates() {
                assert(!before_points.contains_key(map_idx)) by {
                    if before_points.contains_key(map_idx) {
                        assert(map_idx != before_areas[array_index as int]);
                    }
                }
                assert(spawn_points@.dom() =~= before_points.dom().insert(map_idx));
                assert forall|a: int, b: int| 0 <= a < areas@.len() && 0 <= b < areas@.len() && a != b implies areas@[a] != areas@[b] by {
                    let aa = if a < array_index { a } else { a + 1 };
                    let bb = if b < array_index { b } else { b + 1 };
                    assert(areas@[a] == before_areas[aa]);
                    assert(areas@[b] == before_areas[bb]);
                }
                assert forall|c: usize, j: int| #[trigger] spawn_points@.contains_key(c) && 0 <= j < areas@.len() implies c != #[trigger] areas@[j] by {
                    let jj = if j < array_index { j } else { j + 1 };
                    assert(areas@[j] == before_areas[jj]);
                    assert(jj != array_index);
                    if c != map_idx {
                        assert(before_points.contains_key(c));
                    }
                }
            } else {
                assert(spawn_points@.dom() =~= before_points.dom().insert(map_idx));
            }
        }
        i += 1;
    }
    spawn_points
}

/// Index `k` is that of a floor cell strictly inside `room` (past its first
/// row and column, before its right and bottom edges) on `map`.
pub open spec fn inner_floor_cell(map: TileMap, room: Rect, k: int) -> bool {
    let w = map.size.0 as int;
    &&& w > 0
    &&& 0 <= k < map.tiles@.len()
    &&& room.x1 + 1 <= k % w < room.x2
    &&& room.y1 + 1 <= k / w < room.y2
    &&& map.tiles@[k] == TileType::Floor
}

/// The inside of `room` lies on `map`.
pub open spec fn room_inside_on_map(map: TileMap, room: Rect) -> bool {
    &&& map.tiles@.len() == map.size.0 * map.size.1
    &&& map.size.0 * map.size.1 <= usize::MAX
    &&& -1 <= room.x1
    &&& -1 <= room.y1
    &&& room.x2 <= map.size.0
    &&& room.y2 <= map.size.1
}

/// The floor cells strictly inside `room`, row by row (so in increasing
/// index order).
pub fn room_floor_cells(map: &TileMap, room: &Rect) -> (r: Vec<usize>)
    requires
        room_inside_on_map(*map, *room),
    ensures
        forall|i: int, j: int| 0 <= i < j < r@.len() ==> r@[i] < r@[j],
        forall|i: int| 0 <= i < r@.len() ==> inner_floor_cell(*map, *room, #[trigger] r@[i] as int),
        forall|k: int| inner_floor_cell(*map, *room, k) ==> r@.contains(k as usize),
{
    let mut cells: Vec<usize> = Vec::new();
    let w = map.size.0;
    let ghost wi = w as int;
    let ghost hi = map.size.1 as int;
    let mut y: i64 = room.y1 as i64 + 1;
    while y < room.y2 as i64
        invariant
            room_inside_on_map(*map, *room),
            w == map.size.0,
            wi == w,
            hi == map.size.1,
            room.y1 + 1 <= y,
            y <= room.y2 || y == room.y1 + 1,
            forall|i: int, j: int| 0 <= i < j < cells@.len() ==> cells@[i] < cells@[j],
            forall|i: int| 0 <= i < cells@.len() ==> inner_floor_cell(*map, *room, #[trigger] cells@[i] as int),
            forall|i: int| 0 <= i < cells@.len() ==> #[trigger] cells@[i] < spec_xy_idx(wi, 0, y as int),
            forall|k: int| inner_floor_cell(*map, *room, k) && k / wi < y ==> cells@.contains(k as usize),
        decreases room.y2 - y,
    {
        let mut x: i64 = room.x1 as i64 + 1;
        let ghost row_start = cells@.len();
        while x < room.x2 as i64
            invariant
                room_inside_on_map(*map, *room),
                w == map.size.0,
                wi == w,
                hi == map.size.1,
                room.y1 + 1 <= y < room.y2,
                room.x1 + 1 <= x,
                x <= room.x2 || x == room.x1 + 1,
                forall|i: int, j: int| 0 <= i < j < cells@.len() ==> cells@[i] < cells@[j],
                forall|i: int| 0 <= i < cells@.len() ==> inner_floor_cell(*map, *room, #[trigger] cells@[i] as int),
                forall|i: int| 0 <= i < cells@.len() ==> #[trigger] cells@[i] < spec_xy_idx(wi, x as int, y as int),
                forall|k: int| inner_floor_cell(*map, *room, k) && (k / wi < y || (k / wi == y && k % wi < x))
                    ==> cells@.contains(k as usize),
            decreases room.x2 - x,
        {
            proof {
                lemma_xy_idx_bound(wi, hi, x as int, y as int);
                law_xy_idx_round_trip(wi, x as int, y as int, 0);
            }
            let idx = map.xy_idx((x as usize, y as usize));
            let ghost before = cells@;
            if map.tiles[idx] == TileType::Floor {
                cells.push(idx);
                proof {
                    assert(cells@[cells@.len() - 1] == idx);
                }
            }
            proof {
                assert forall|k: int| inner_floor_cell(*map, *room, k) && (k / wi < y || (k / wi == y && k % wi < x + 1))
                    implies cells@.contains(k as usize) by {
                    if k / wi == y && k % wi == x {
                        law_xy_idx_round_trip(wi, x as int, y as int, k);
                        assert(cells@[cells@.len() - 1] == k as usize);
                    } else {
                        assert(before.contains(k as usize));
                        let t = choose|t: int| 0 <= t < before.len() && before[t] == k as usize;
                        assert(cells@[t] == k as usize);
                    }
                }
                assert(spec_xy_idx(wi, x + 1, y as int) == spec_xy_idx(wi, x as int, y as int) + 1);
            }
            x += 1;
        }
        proof {
            assert(spec_xy_idx(wi, 0, y + 1) == spec_xy_idx(wi, 0, y as int) + wi) by (nonlinear_arith);
            assert forall|k: int| inner_floor_cell(*map, *room, k) && k / wi < y + 1 implies cells@.contains(k as usize) by {
                if k / wi == y {
                    assert(k % wi < x);
                }
            }
        }
        y += 1;
    }
    proof {
        assert forall|k: int| inner_floor_cell(*map, *room, k) implies cells@.contains(k as usize) by {
            assert(k / wi < y);
        }
    }
    cells
}

/// The floor cells strictly inside `room` (see `inner_floor_cell`).
pub open spec fn inner_floor_set(map: TileMap, room: Rect) -> Set<usize> {
    Set::new(|k: usize| inner_floor_cell(map, room, k as int))
}

/// Chooses what to spawn in `room` at dungeon depth `depth`: `spawn_region`
/// over the floor cells strictly inside the room, so as many different
/// cells as `1d7 + depth - 1` says, but no more than the room has.
pub fn spawn_room(map: &TileMap, room: &Rect, depth: usize, rng: &mut RandomNumberGenerator) -> (r: HashMap<usize, String>)
    requires
        room_inside_on_map(*map, *room),
        1 <= depth,
        38 + 5 * depth < i32::MAX,
        map.tiles@.len() < i32::MAX,
    ensures
        r@.dom().finite(),
        forall|c: usize| #[trigger] r@.contains_key(c) ==> inner_floor_cell(*map, *room, c as int),
        r@.len() <= depth + 6,
        r@.len() <= inner_floor_set(*map, *room).len(),
        r@.len() >= if inner_floor_set(*map, *room).len() < depth { inner_floor_set(*map, *room).len() as int } else { depth as int },
        forall|c: usize| #[trigger] r@.contains_key(c) ==> room_roll(depth as int, r@[c]@),
{
    let cells = room_floor_cells(map, room);
    proof {
        assert(cells@.no_duplicates()) by {
            assert forall|i: int, j: int| 0 <= i < cells@.len() && 0 <= j < cells@.len() && i != j implies cells@[i] != cells@[j] by {
                if i < j {
                    assert(cells@[i] < cells@[j]);
                } else {
                    assert(cells@[j] < cells@[i]);
                }
            }
        }
        assert(cells@.to_set() =~= inner_floor_set(*map, *room)) by {
            assert forall|k: usize| #[trigger] cells@.to_set().contains(k) <==> inner_floor_set(*map, *room).contains(k) by {
                if cells@.to_set().contains(k) {
                    assert(cells@.contains(k));
                    let t = choose|t: int| 0 <= t < cells@.len() && cells@[t] == k;
                    assert(inner_floor_cell(*map, *room, cells@[t] as int));
                }
                if inner_floor_set(*map, *room).contains(k) {
                    assert(inner_floor_cell(*map, *room, k as int));
                    assert(cells@.contains((k as int) as usize));
                }
            }
        }
        cells@.unique_seq_to_set();
    }
    proof {
        assert forall|i: int| 0 <= i < cells@.len() implies #[trigger] cells@[i] < map.tiles@.len() by {
            assert(inner_floor_cell(*map, *room, cells@[i] as int));
        }
        lemma_sorted_fits(cells@, map.tiles@.len() as int);
    }
    let r = spawn_region(&cells, depth, rng);
    proof {
        assert forall|c: usize| #[trigger] r@.contains_key(c) implies inner_floor_cell(*map, *room, c as int) by {
            assert(cells@.contains(c));
            let t = choose|t: int| 0 <= t < cells@.len() && cells@[t] == c;
            assert(inner_floor_cell(*map, *room, cells@[t] as int));
        }
    }
    r
}

/// A strictly increasing sequence of values below `n` has fewer than `n + 1` entries.
proof fn lemma_sorted_fits(s: Seq<usize>, n: int)
    requires
        forall|i: int, j: int| 0 <= i < j < s.len() ==> s[i] < s[j],
        forall|i: int| 0 <= i < s.len() ==> #[trigger] s[i] < n,
        0 <= n,
    ensures
        s.len() <= n,
    decreases s.len(),
{
    if s.len() > 0 {
        let t = s.drop_last();
        assert forall|i: int| 0 <= i < t.len() implies #[trigger] t[i] < s.last() by {
            assert(s[i] < s[s.len() - 1]);
        }
        assert(s[s.len() - 1] < n);
        lemma_sorted_fits(t, s.last() as int);
        assert(t.len() <= s.last());
    }
}

} // verus!
