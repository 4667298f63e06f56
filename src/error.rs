//! Why a rules operation was refused.
use vstd::prelude::*;

verus! {

/// The reason a placement or a phase transition was refused. State is left as it was.
#[derive(Debug, Clone, Copy, PartialEq, Eq, Structural)]
pub enum RuleError {
    /// The position is not a corner of this board.
    NoSuchVertex,
    /// The pair of positions is not a path of this board.
    NoSuchEdge,
    /// The position is not a tile of this board.
    NoSuchHex,
    /// The target already has an owner.
    AlreadyOwned,
    /// A corner next to the target is owned (the distance rule).
    NeighborOccupied,
    /// The corner is not owned by the acting player.
    NotOwnedByPlayer,
    /// The corner does not hold what the build needs (a city replaces a settlement).
    WrongBuildType,
    /// The target is not connected to the player's roads.
    Disconnected,
    /// The action is not legal in the current phase.
    IllegalPhase,
}

} // verus!
