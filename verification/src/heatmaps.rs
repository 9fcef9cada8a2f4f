//! The kinds of distance maps that villagers steer by.

use vstd::prelude::*;

verus! {

/// What a distance map measures the distance to.
#[derive(Copy, Clone, PartialEq, Eq, Structural, Debug)]
pub enum HeatMapType {
    Water,
    Logs,
    Trees,
    LumberMills,
    Fisheries,
}

} // verus!
