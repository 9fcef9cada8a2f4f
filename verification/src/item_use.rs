//! Using an item: whom and where it reaches, the effects it queues, whether
//! it is used up, and what is worn or taken off.

use vstd::prelude::*;
use crate::components::{Equipment, EquipmentSlot, Equipped, Inventory, WantsToUseItem, contains_id};
use crate::effects::{EffectType, Targets, drop_item};
use crate::map::{EntityId, TileMap, spec_xy_idx, lemma_xy_idx_bound};
use crate::utils::Point;

verus! {

/// The components of an item that decide what using it does.
#[derive(Clone, Copy, Debug, PartialEq, Eq, Structural)]
pub struct ItemProps {
    /// Radius of its area of effect, if it has one.
    pub aoe: Option<i32>,
    /// Turns of fire it sets, if it sets fire.
    pub causes_fire: Option<i32>,
    /// Hit points it restores, if it heals.
    pub heal: Option<i32>,
    /// Damage it deals, if it deals damage.
    pub damage: Option<i32>,
    /// Turns of confusion it inflicts, if it confuses.
    pub confusion: Option<i32>,
    /// Whether using it uses it up.
    pub consumable: bool,
    /// The slot it is worn in, if it can be worn.
    pub equippable: Option<EquipmentSlot>,
}

/// The entities among `ents` that have stats, in order.
pub open spec fn with_stats(ents: Seq<EntityId>, stats: Seq<EntityId>) -> Seq<EntityId>
    decreases ents.len(),
{
    if ents.len() == 0 {
        Seq::empty()
    } else {
        with_stats(ents.drop_last(), stats) + if stats.contains(ents.last()) { seq![ents.last()] } else { Seq::empty() }
    }
}

/// Cell `p` lies strictly inside the border of a `w` by `h` map.
pub open spec fn inner_point(p: Point, w: int, h: int) -> bool {
    0 < p.x < w - 1 && 0 < p.y < h - 1
}

/// The cells of an area of effect (`fov`, the cells seen from its centre),
/// without those on or past the map's border.
pub open spec fn area_cells(fov: Seq<Point>, w: int, h: int) -> Seq<usize>
    decreases fov.len(),
{
    if fov.len() == 0 {
        Seq::empty()
    } else {
        area_cells(fov.drop_last(), w, h) + if inner_point(fov.last(), w, h) {
            seq![spec_xy_idx(w, fov.last().x as int, fov.last().y as int) as usize]
        } else {
            Seq::empty()
        }
    }
}

/// The entities with stats on the cells `cells`, cell by cell.
pub open spec fn area_targets(cells: Seq<usize>, content: Seq<Vec<EntityId>>, stats: Seq<EntityId>) -> Seq<EntityId>
    decreases cells.len(),
{
    if cells.len() == 0 {
        Seq::empty()
    } else {
        area_targets(cells.drop_last(), content, stats) + with_stats(content[cells.last() as int]@, stats)
    }
}

/// Whom and where a use reaches: with no aimed cell, the user; aimed at a
/// cell, the entities with stats on it, or, for an item with an area of
/// effect, on every cell of the area (which are then also the cells hit).
pub open spec fn use_reach(
    user: EntityId,
    target: Option<Point>,
    aoe: bool,
    map: TileMap,
    stats: Seq<EntityId>,
    fov: Seq<Point>,
) -> (Seq<EntityId>, Seq<usize>) {
    let w = map.size.0 as int;
    let h = map.size.1 as int;
    match target {
        None => (seq![user], Seq::empty()),
        Some(t) => if !aoe {
            (with_stats(map.tile_content@[spec_xy_idx(w, t.x as int, t.y as int)]@, stats), Seq::empty())
        } else {
            let cells = area_cells(fov, w, h);
            (area_targets(cells, map.tile_content@, stats), cells)
        },
    }
}

/// One effect for each of `targets`.
pub open spec fn per_target(targets: Seq<EntityId>, make: spec_fn(EntityId) -> EffectType) -> Seq<EffectType> {
    targets.map_values(make)
}

/// The single-target effects of a use, in the order they are queued:
/// healing of the targets that have stats, then damage, then confusion.
pub open spec fn use_effects(props: ItemProps, targets: Seq<EntityId>, stats: Seq<EntityId>) -> Seq<EffectType> {
    (match props.heal {
        Some(amount) => per_target(with_stats(targets, stats), |t: EntityId| EffectType::Heal { amount, target: Targets::Single { target: t } }),
        None => Seq::empty(),
    }) + (match props.damage {
        Some(amount) => per_target(targets, |t: EntityId| EffectType::Damage { amount, target: Targets::Single { target: t } }),
        None => Seq::empty(),
    }) + (match props.confusion {
        Some(turns) => per_target(targets, |t: EntityId| EffectType::Confusion { turns, target: Targets::Single { target: t } }),
        None => Seq::empty(),
    })
}

/// Whether the use did something (and so uses up a consumable item).
pub open spec fn use_happened(props: ItemProps, target: Option<Point>, targets: Seq<EntityId>, stats: Seq<EntityId>) -> bool {
    ||| (props.aoe is Some && target is Some)
    ||| props.causes_fire is Some
    ||| (props.heal is Some && with_stats(targets, stats).len() > 0)
    ||| ((props.damage is Some || props.confusion is Some) && targets.len() > 0)
}

/// A use that queues at least one effect on a target (healing, damage or
/// confusion) has happened, whatever the item and wherever it is aimed: a
/// consumable item that affected someone is used up.
pub proof fn law_effect_queued_means_used(
    props: ItemProps,
    target: Option<Point>,
    targets: Seq<EntityId>,
    stats: Seq<EntityId>,
)
    ensures
        use_effects(props, targets, stats).len() > 0 ==> use_happened(props, target, targets, stats),
        props.confusion is Some && targets.len() > 0 ==> use_happened(props, target, targets, stats),
        props.damage is Some && targets.len() > 0 ==> use_happened(props, target, targets, stats),
        props.heal is Some && with_stats(targets, stats).len() > 0 ==> use_happened(props, target, targets, stats),
{
    let heals = match props.heal {
        Some(amount) => per_target(with_stats(targets, stats), |t: EntityId| EffectType::Heal { amount, target: Targets::Single { target: t } }),
        None => Seq::<EffectType>::empty(),
    };
    let damages = match props.damage {
        Some(amount) => per_target(targets, |t: EntityId| EffectType::Damage { amount, target: Targets::Single { target: t } }),
        None => Seq::<EffectType>::empty(),
    };
    let confusions = match props.confusion {
        Some(turns) => per_target(targets, |t: EntityId| EffectType::Confusion { turns, target: Targets::Single { target: t } }),
        None => Seq::<EffectType>::empty(),
    };
    assert(use_effects(props, targets, stats) == heals + damages + confusions);
    assert(heals.len() == if props.heal is Some { with_stats(targets, stats).len() } else { 0 });
    assert(damages.len() == if props.damage is Some { targets.len() } else { 0 });
    assert(confusions.len() == if props.confusion is Some { targets.len() } else { 0 });
}

/// The worn items of `owner` in `slot`, in order.
pub open spec fn worn_in(worn: Seq<(EntityId, Equipped)>, owner: EntityId, slot: EquipmentSlot) -> Seq<EntityId>
    decreases worn.len(),
{
    if worn.len() == 0 {
        Seq::empty()
    } else {
        worn_in(worn.drop_last(), owner, slot) + if worn.last().1.owner == owner && worn.last().1.slot == slot {
            seq![worn.last().0]
        } else {
            Seq::empty()
        }
    }
}

/// What one use of an item comes to.
pub struct ItemUseOutcome {
    /// The entities the use reaches.
    pub targets: Vec<EntityId>,
    /// Fire set on the cells of the area, with its turns.
    pub fire: Option<(i32, Vec<usize>)>,
    /// The other effects, in the order they are queued.
    pub effects: Vec<EffectType>,
    /// Whether the item is used up.
    pub consumed: bool,
    /// Worn items to take off first (those of the wearer in the same slot).
    pub unequip: Vec<EntityId>,
    /// Who puts the item on, and in which slot.
    pub equip: Option<(EntityId, EquipmentSlot)>,
}

/// The cells of the map the arguments of a use must stay on.
pub open spec fn use_fits(use_item: WantsToUseItem, props: ItemProps, map: TileMap, fov: Seq<Point>) -> bool {
    let w = map.size.0 as int;
    &&& map.tile_content@.len() == map.spec_len()
    &&& map.spec_len() <= usize::MAX
    &&& w <= i32::MAX
    &&& map.size.1 <= i32::MAX
    &&& (props.aoe is None ==> match use_item.target {
        Some(t) => 0 <= t.x && 0 <= t.y && spec_xy_idx(w, t.x as int, t.y as int) < map.spec_len(),
        None => true,
    })
    &&& forall|i: int| 0 <= i < fov.len() && inner_point(#[trigger] fov[i], w, map.size.1 as int) ==> 0 <= fov[i].x < w
}

/// The entities among `ents` that have stats.
fn keep_with_stats(ents: &Vec<EntityId>, stats: &Vec<EntityId>, out: &mut Vec<EntityId>)
    ensures
        final(out)@ == old(out)@ + with_stats(ents@, stats@),
{
    let ghost start = out@;
    let mut i: usize = 0;
    while i < ents.len()
        invariant
            i <= ents@.len(),
            out@ == start + with_stats(ents@.subrange(0, i as int), stats@),
        decreases ents@.len() - i,
    {
        proof {
            assert(ents@.subrange(0, i + 1).drop_last() =~= ents@.subrange(0, i as int));
        }
        if contains_id(stats, ents[i]) {
            out.push(ents[i]);
        }
        i += 1;
    }
    proof {
        assert(ents@.subrange(0, ents@.len() as int) =~= ents@);
    }
}

/// Whom and where a use reaches (see `use_reach`).
fn use_targets(
    user: EntityId,
    target: Option<Point>,
    aoe: bool,
    map: &TileMap,
    stats: &Vec<EntityId>,
    fov: &Vec<Point>,
) -> (r: (Vec<EntityId>, Vec<usize>))
    requires
        map.tile_content@.len() == map.spec_len(),
        map.spec_len() <= usize::MAX,
        map.size.0 <= i32::MAX,
        map.size.1 <= i32::MAX,
        !aoe ==> match target {
            Some(t) => 0 <= t.x && 0 <= t.y && spec_xy_idx(map.size.0 as int, t.x as int, t.y as int) < map.spec_len(),
            None => true,
        },
    ensures
        r.0@ == use_reach(user, target, aoe, *map, stats@, fov@).0,
        r.1@ == use_reach(user, target, aoe, *map, stats@, fov@).1,
{
    let w = map.size.0;
    let h = map.size.1;
    let mut targets: Vec<EntityId> = Vec::new();
    let mut tiles: Vec<usize> = Vec::new();
    match target {
        None => {
            targets.push(user);
            proof {
                assert(targets@ =~= seq![user]);
            }
        },
        Some(t) => {
            if !aoe {
                let idx = map.point_idx(t);
                keep_with_stats(&map.tile_content[idx], stats, &mut targets);
                proof {
                    assert(targets@ =~= with_stats(map.tile_content@[idx as int]@, stats@));
                }
            } else {
                let mut i: usize = 0;
                while i < fov.len()
                    invariant
                        i <= fov@.len(),
                        w == map.size.0,
                        h == map.size.1,
                        map.tile_content@.len() == map.spec_len(),
                        map.spec_len() <= usize::MAX,
                        w <= i32::MAX,
                        h <= i32::MAX,
                        tiles@ == area_cells(fov@.subrange(0, i as int), w as int, h as int),
                        targets@ == area_targets(tiles@, map.tile_content@, stats@),
                        forall|k: int| 0 <= k < tiles@.len() ==> #[trigger] tiles@[k] < map.spec_len(),
                    decreases fov@.len() - i,
                {
                    proof {
                        assert(fov@.subrange(0, i + 1).drop_last() =~= fov@.subrange(0, i as int));
                    }
                    let pt = fov[i];
                    if pt.x > 0 && (pt.x as i64) < w as i64 - 1 && pt.y > 0 && (pt.y as i64) < h as i64 - 1 {
                        proof {
                            lemma_xy_idx_bound(w as int, h as int, pt.x as int, pt.y as int);
                        }
                        let idx = map.point_idx(pt);
                        let ghost before = tiles@;
                        tiles.push(idx);
                        keep_with_stats(&map.tile_content[idx], stats, &mut targets);
                        proof {
                            assert(tiles@.drop_last() =~= before);
                        }
                    }
                    i += 1;
                }
                proof {
                    assert(fov@.subrange(0, fov@.len() as int) =~= fov@);
                }
            }
        },
    }
    (targets, tiles)
}

/// Queues healing of `amount` for each of `targets` that has stats; tells
/// whether there was one.
fn push_heals(targets: &Vec<EntityId>, stats: &Vec<EntityId>, amount: i32, effects: &mut Vec<EffectType>) -> (any: bool)
    ensures
        final(effects)@ == old(effects)@ + per_target(with_stats(targets@, stats@), |t: EntityId| EffectType::Heal { amount, target: Targets::Single { target: t } }),
        any == (with_stats(targets@, stats@).len() > 0),
{
    let mut healed: Vec<EntityId> = Vec::new();
    keep_with_stats(targets, stats, &mut healed);
    proof {
        assert(healed@ =~= with_stats(targets@, stats@));
    }
    push_each(&healed, EffectKind::Heal, amount, effects);
    healed.len() > 0
}

/// Which single-target effect to queue.
#[derive(Clone, Copy, PartialEq, Eq, Structural)]
enum EffectKind {
    Heal,
    Damage,
    Confusion,
}

/// The effect of `kind` with number `n` on `t`.
spec fn kind_effect(kind: EffectKind, n: i32, t: EntityId) -> EffectType {
    match kind {
        EffectKind::Heal => EffectType::Heal { amount: n, target: Targets::Single { target: t } },
        EffectKind::Damage => EffectType::Damage { amount: n, target: Targets::Single { target: t } },
        EffectKind::Confusion => EffectType::Confusion { turns: n, target: Targets::Single { target: t } },
    }
}

/// Queues one effect of `kind` with number `n` for each of `targets`.
fn push_each(targets: &Vec<EntityId>, kind: EffectKind, n: i32, effects: &mut Vec<EffectType>)
    ensures
        final(effects)@ == old(effects)@ + targets@.map_values(|t: EntityId| kind_effect(kind, n, t)),
{
    let ghost start = effects@;
    let mut i: usize = 0;
    while i < targets.len()
        invariant
            i <= targets@.len(),
            effects@ == start + targets@.subrange(0, i as int).map_values(|t: EntityId| kind_effect(kind, n, t)),
        decreases targets@.len() - i,
    {
        let t = targets[i];
        let e = match kind {
            EffectKind::Heal => EffectType::Heal { amount: n, target: Targets::Single { target: t } },
            EffectKind::Damage => EffectType::Damage { amount: n, target: Targets::Single { target: t } },
            EffectKind::Confusion => EffectType::Confusion { turns: n, target: Targets::Single { target: t } },
        };
        effects.push(e);
        i += 1;
        proof {
            assert(effects@ =~= start + targets@.subrange(0, i as int).map_values(|t: EntityId| kind_effect(kind, n, t)));
        }
    }
    proof {
        assert(targets@.subrange(0, targets@.len() as int) =~= targets@);
    }
}

/// The worn items of `wearer` in `slot` (see `worn_in`).
fn worn_items_in(worn: &Vec<(EntityId, Equipped)>, wearer: EntityId, slot: EquipmentSlot) -> (r: Vec<EntityId>)
    ensures
        r@ == worn_in(worn@, wearer, slot),
{
    let mut unequip: Vec<EntityId> = Vec::new();
    let mut i: usize = 0;
    while i < worn.len()
        invariant
            i <= worn@.len(),
            unequip@ == worn_in(worn@.subrange(0, i as int), wearer, slot),
        decreases worn@.len() - i,
    {
        proof {
            assert(worn@.subrange(0, i + 1).drop_last() =~= worn@.subrange(0, i as int));
        }
        if worn[i].1.owner == wearer && worn[i].1.slot == slot {
            unequip.push(worn[i].0);
        }
        i += 1;
    }
    proof {
        assert(worn@.subrange(0, worn@.len() as int) =~= worn@);
    }
    unequip
}

/// One use of an item. `user` uses `use_item.item`, whose components are
/// `props`, aimed at `use_item.target`. `stats` lists the entities that have
/// stats; `fov` is the field of view from the aimed cell within the item's
/// radius (looked at only for an item with an area of effect); `worn` lists
/// the worn items with whom and where they are worn.
///
/// The use reaches `use_reach`; a fire-setting item sets fire on the cells
/// of the area for its turns; the effects of `use_effects` are queued; a
/// consumable item is used up when the use happened (`use_happened`); a
/// wearable item is put on by the first entity reached, who first takes off
/// what it wears in that slot.
pub fn resolve_item_use(
    user: EntityId,
    use_item: WantsToUseItem,
    props: ItemProps,
    map: &TileMap,
    stats: &Vec<EntityId>,
    fov: &Vec<Point>,
    worn: &Vec<(EntityId, Equipped)>,
) -> (r: ItemUseOutcome)
    requires
        use_fits(use_item, props, *map, fov@),
        props.equippable is Some ==> use_reach(user, use_item.target, props.aoe is Some, *map, stats@, fov@).0.len() > 0,
    ensures
        ({
            let reach = use_reach(user, use_item.target, props.aoe is Some, *map, stats@, fov@);
            &&& r.targets@ == reach.0
            &&& match props.causes_fire {
                Some(turns) => r.fire matches Some(f) && f.0 == turns && f.1@ == reach.1,
                None => r.fire is None,
            }
            &&& r.effects@ == use_effects(props, reach.0, stats@)
            &&& r.consumed == (props.consumable && use_happened(props, use_item.target, reach.0, stats@))
            &&& (props.consumable && r.effects@.len() > 0 ==> r.consumed)
            &&& match props.equippable {
                Some(slot) => r.equip == Some((reach.0[0], slot)) && r.unequip@ == worn_in(worn@, reach.0[0], slot),
                None => r.equip is None && r.unequip@.len() == 0,
            }
        }),
{
    let (targets, tiles) = use_targets(user, use_item.target, props.aoe.is_some(), map, stats, fov);
    let fire = match props.causes_fire {
        Some(turns) => Some((turns, tiles)),
        None => None,
    };
    let mut effects: Vec<EffectType> = Vec::new();
    let mut healed_any = false;
    if let Some(amount) = props.heal {
        healed_any = push_heals(&targets, stats, amount, &mut effects);
    }
    let ghost after_heal = effects@;
    if let Some(amount) = props.damage {
        push_each(&targets, EffectKind::Damage, amount, &mut effects);
    }
    let ghost after_damage = effects@;
    if let Some(turns) = props.confusion {
        push_each(&targets, EffectKind::Confusion, turns, &mut effects);
    }
    proof {
        let heals = match props.heal {
            Some(amount) => per_target(with_stats(targets@, stats@), |t: EntityId| EffectType::Heal { amount, target: Targets::Single { target: t } }),
            None => Seq::<EffectType>::empty(),
        };
        let damages = match props.damage {
            Some(amount) => per_target(targets@, |t: EntityId| EffectType::Damage { amount, target: Targets::Single { target: t } }),
            None => Seq::<EffectType>::empty(),
        };
        let confusions = match props.confusion {
            Some(turns) => per_target(targets@, |t: EntityId| EffectType::Confusion { turns, target: Targets::Single { target: t } }),
            None => Seq::<EffectType>::empty(),
        };
        assert(after_heal =~= heals);
        if let Some(amount) = props.damage {
            assert(targets@.map_values(|t: EntityId| kind_effect(EffectKind::Damage, amount, t)) =~= damages);
        }
        assert(after_damage =~= heals + damages);
        if let Some(turns) = props.confusion {
            assert(targets@.map_values(|t: EntityId| kind_effect(EffectKind::Confusion, turns, t)) =~= confusions);
        }
        assert(effects@ =~= heals + damages + confusions);
    }
    let used = (props.aoe.is_some() && use_item.target.is_some()) || props.causes_fire.is_some() || healed_any
        || ((props.damage.is_some() || props.confusion.is_some()) && targets.len() > 0);
    let consumed = props.consumable && used;
    proof {
        law_effect_queued_means_used(props, use_item.target, targets@, stats@);
    }
    let (unequip, equip) = match props.equippable {
        Some(slot) => {
            let wearer = targets[0];
            (worn_items_in(worn, wearer, slot), Some((wearer, slot)))
        },
        None => (Vec::new(), None),
    };
    ItemUseOutcome { targets, fire, effects, consumed, unequip, equip }
}

/// Takes one copy of a used-up `item` out of the inventory (the first one),
/// if it is there; the other items keep their order.
pub fn remove_used_item(inv: &mut Inventory, item: EntityId)
    ensures
        final(inv).capacity == old(inv).capacity,
        old(inv).items@.contains(item) ==> exists|k: int| 0 <= k < old(inv).items@.len() && old(inv).items@[k] == item
            && (forall|j: int| 0 <= j < k ==> old(inv).items@[j] != item) && final(inv).items@ == old(inv).items@.remove(k),
        !old(inv).items@.contains(item) ==> final(inv).items@ == old(inv).items@,
{
    let mut k: usize = 0;
    while k < inv.items.len()
        invariant
            k <= inv.items@.len(),
            inv.items@ == old(inv).items@,
            inv.capacity == old(inv).capacity,
            forall|j: int| 0 <= j < k ==> inv.items@[j] != item,
        decreases inv.items@.len() - k,
    {
        if inv.items[k] == item {
            inv.items.remove(k);
            return;
        }
        k += 1;
    }
}

/// Takes off `item`: it goes back into the wearer's inventory and its slot
/// is emptied.
pub fn take_off(inv: &mut Inventory, equipment: &mut Equipment, item: EntityId)
    requires
        old(equipment).wf(),
    ensures
        final(inv).items@ == old(inv).items@.push(item),
        final(inv).capacity == old(inv).capacity,
        crate::components::spec_unequipped(*old(equipment), *final(equipment), item),
{
    inv.items.push(item);
    equipment.unequip(item);
}

/// Puts on `item` in `slot`: every copy leaves the inventory and the slot
/// holds it.
pub fn put_on(inv: &mut Inventory, equipment: &mut Equipment, item: EntityId, slot: EquipmentSlot)
    requires
        old(equipment).wf(),
    ensures
        final(inv).items@ == old(inv).items@.filter(|e: EntityId| e != item),
        final(inv).capacity == old(inv).capacity,
        crate::components::spec_equipped(*old(equipment), *final(equipment), item, slot),
{
    drop_item(inv, item);
    equipment.equip(item, slot);
}

} // verus!
