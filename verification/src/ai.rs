//! The vocabulary of the villagers' decision making: what an intent aims at,
//! what it does, and the inputs and curves that score it.

use vstd::prelude::*;
use crate::components::ItemType;

verus! {

/// Holds the intent-choosing logic of actors.
pub struct AI {}

/// A standing behaviour an actor is given.
#[derive(Clone, Copy, Debug, PartialEq, Eq, Structural)]
pub enum AIBehaviors {
    GatherWood,
    GatherFish,
    AttackEnemies,
    Confused,
    Wander,
}

/// The kind of thing an input or task refers to.
#[derive(Clone, Copy, Debug, PartialEq, Eq, Structural)]
pub enum InputTargets {
    Tree,
    Log,
    LumberMill,
    Water,
    Fishery,
    Enemy,
    Fish,
    Player,
    /// Refers to nothing.
    NoTarget,
    Orc,
}

/// The item type an input target stands for, if it stands for one.
pub open spec fn spec_matches(t: InputTargets, item: ItemType) -> bool {
    match t {
        InputTargets::Log => item == ItemType::Log,
        InputTargets::Fish => item == ItemType::Fish,
        _ => false,
    }
}

impl InputTargets {
    /// Whether an item of type `item` is what this target means: logs for
    /// `Log`, fish for `Fish`, and nothing for the other targets.
    pub fn matches(&self, item: ItemType) -> (r: bool)
        ensures
            r == spec_matches(*self, item),
    {
        match self {
            InputTargets::Log => item == ItemType::Log,
            InputTargets::Fish => item == ItemType::Fish,
            _ => false,
        }
    }
}

/// What a consideration measures.
#[derive(Clone, Copy, Debug, PartialEq, Eq, Structural)]
pub enum InputType {
    /// A constant baseline.
    Const,
    /// Distance to the nearest target of a kind.
    DistanceTo(InputTargets),
    /// How many items of a kind the intent's owner carries.
    Inventory(InputTargets),
}

/// The shape of the curve that turns an input into a score.
#[derive(Clone, Copy, Debug, PartialEq, Eq, Structural)]
pub enum ResponseCurveType {
    Const,
    GreaterThan,
    LessThan,
    Linear,
    Quadratic,
    Logistic,
}

/// What an intent does.
#[derive(Clone, Copy, Debug, PartialEq, Eq, Structural)]
pub enum Task {
    Fish,
    Explore,
    ExchangeInfo,
    MoveTo(InputTargets),
    Destroy(InputTargets),
    PickUpItem(InputTargets),
    DropItem,
    UseItem,
    EquipItem,
    UnequipItem,
    UseWorkshop,
    DepositItemToInventory(InputTargets, InputTargets),
    Attack(InputTargets),
    Idle,
    Spawn(InputTargets),
}

/// The named task an action proposes; concrete intents with targets are
/// made from it.
#[derive(Clone, Debug, PartialEq)]
pub struct IntentArchetype {
    pub name: String,
    pub task: Task,
}

} // verus!
