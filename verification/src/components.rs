use vstd::prelude::*;

verus! {

/// How much simulation effort an entity receives.
#[derive(Clone, Copy, Debug, PartialEq, Eq, Structural)]
pub enum LodLevel {
    /// Precise pathfinding, full state bookkeeping.
    Active,
    /// Simplified movement toward the target.
    Simulated,
    /// No pathfinding: the entity snaps to its target or stays put.
    Background,
}

} // verus!
