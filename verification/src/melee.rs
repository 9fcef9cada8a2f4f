//! Melee combat: the bonuses that worn items add, and what one attack does.

use vstd::prelude::*;
use crate::components::PhysicalStats;
use crate::map::EntityId;

verus! {

/// The sum of the bonuses in `items` that belong to `owner`; each entry is
/// the owner of a worn item and the bonus the item adds.
pub open spec fn spec_bonus_sum(items: Seq<(EntityId, i32)>, owner: EntityId) -> int
    decreases items.len(),
{
    if items.len() == 0 {
        0
    } else {
        spec_bonus_sum(items.drop_last(), owner) + if items.last().0 == owner { items.last().1 as int } else { 0int }
    }
}

/// Every running total of the sum over `items` fits in an `i32`.
pub open spec fn bonus_sums_fit(items: Seq<(EntityId, i32)>, owner: EntityId) -> bool {
    forall|n: int| 0 <= n <= items.len() ==> i32::MIN <= #[trigger] spec_bonus_sum(items.subrange(0, n), owner) <= i32::MAX
}

/// The total bonus that the items worn by `owner` add.
pub fn equipped_bonus(items: &Vec<(EntityId, i32)>, owner: EntityId) -> (r: i32)
    requires
        bonus_sums_fit(items@, owner),
    ensures
        r == spec_bonus_sum(items@, owner),
{
    let mut total: i32 = 0;
    let mut i: usize = 0;
    while i < items.len()
        invariant
            i <= items@.len(),
            bonus_sums_fit(items@, owner),
            total == spec_bonus_sum(items@.subrange(0, i as int), owner),
        decreases items@.len() - i,
    {
        let ghost next = items@.subrange(0, i + 1);
        assert(next.drop_last() =~= items@.subrange(0, i as int));
        assert(i32::MIN <= spec_bonus_sum(next, owner) <= i32::MAX);
        if items[i].0 == owner {
            total = total + items[i].1;
        }
        i += 1;
    }
    assert(items@.subrange(0, items@.len() as int) =~= items@);
    total
}

/// The damage of a blow: attack power against defense, never below zero.
pub open spec fn spec_melee_damage(power: int, offense_bonus: int, defense: int, defense_bonus: int) -> int {
    let d = (power + offense_bonus) - (defense + defense_bonus);
    if d > 0 { d } else { 0 }
}

/// The damage of a blow: `(power + offense_bonus) - (defense + defense_bonus)`,
/// or zero when that is negative.
pub fn melee_damage(power: i32, offense_bonus: i32, defense: i32, defense_bonus: i32) -> (r: i32)
    requires
        i32::MIN <= power + offense_bonus <= i32::MAX,
        i32::MIN <= defense + defense_bonus <= i32::MAX,
        i32::MIN <= (power + offense_bonus) - (defense + defense_bonus) <= i32::MAX,
    ensures
        r == spec_melee_damage(power as int, offense_bonus as int, defense as int, defense_bonus as int),
        r >= 0,
{
    let d = (power + offense_bonus) - (defense + defense_bonus);
    if d > 0 { d } else { 0 }
}

/// What one attack comes to.
#[derive(PartialEq, Eq, Structural, Copy, Clone, Debug)]
pub enum AttackOutcome {
    /// The attacker or its target is already dead: nothing happens.
    Skipped,
    /// The blow does no damage.
    Harmless,
    /// The blow deals `damage` hit points.
    Hit { damage: i32 },
}

/// The numbers that one attack goes by: both sides' stats and the bonuses
/// of the items they wear fit in an `i32` when added up.
pub open spec fn attack_fits(
    attacker: EntityId,
    stats: PhysicalStats,
    target: EntityId,
    target_stats: PhysicalStats,
    power_bonuses: Seq<(EntityId, i32)>,
    defense_bonuses: Seq<(EntityId, i32)>,
) -> bool {
    &&& bonus_sums_fit(power_bonuses, attacker)
    &&& bonus_sums_fit(defense_bonuses, target)
    &&& i32::MIN <= stats.power + spec_bonus_sum(power_bonuses, attacker) <= i32::MAX
    &&& i32::MIN <= target_stats.defense + spec_bonus_sum(defense_bonuses, target) <= i32::MAX
    &&& i32::MIN <= (stats.power + spec_bonus_sum(power_bonuses, attacker))
        - (target_stats.defense + spec_bonus_sum(defense_bonuses, target)) <= i32::MAX
}

/// The outcome of one attack, as a function of the numbers.
pub open spec fn spec_attack(
    attacker: EntityId,
    stats: PhysicalStats,
    target: EntityId,
    target_stats: PhysicalStats,
    power_bonuses: Seq<(EntityId, i32)>,
    defense_bonuses: Seq<(EntityId, i32)>,
) -> AttackOutcome {
    if stats.hp > 0 && target_stats.hp > 0 {
        let d = spec_melee_damage(
            stats.power as int,
            spec_bonus_sum(power_bonuses, attacker),
            target_stats.defense as int,
            spec_bonus_sum(defense_bonuses, target),
        );
        if d == 0 { AttackOutcome::Harmless } else { AttackOutcome::Hit { damage: d as i32 } }
    } else {
        AttackOutcome::Skipped
    }
}

/// One attack of `attacker` (with `stats`) on `target` (with
/// `target_stats`). `power_bonuses` and `defense_bonuses` list, for every
/// worn item that adds attack power or defense, its owner and its bonus.
/// A living attacker hitting a living target deals its power plus the power
/// bonuses of what it wears, less the target's defense plus the defense
/// bonuses of what the target wears, never less than nothing.
pub fn resolve_attack(
    attacker: EntityId,
    stats: PhysicalStats,
    target: EntityId,
    target_stats: PhysicalStats,
    power_bonuses: &Vec<(EntityId, i32)>,
    defense_bonuses: &Vec<(EntityId, i32)>,
) -> (r: AttackOutcome)
    requires
        attack_fits(attacker, stats, target, target_stats, power_bonuses@, defense_bonuses@),
    ensures
        r == spec_attack(attacker, stats, target, target_stats, power_bonuses@, defense_bonuses@),
{
    if stats.hp > 0 && target_stats.hp > 0 {
        let offense = equipped_bonus(power_bonuses, attacker);
        let defense = equipped_bonus(defense_bonuses, target);
        let damage = melee_damage(stats.power, offense, target_stats.defense, defense);
        if damage == 0 {
            AttackOutcome::Harmless
        } else {
            AttackOutcome::Hit { damage }
        }
    } else {
        AttackOutcome::Skipped
    }
}

} // verus!
