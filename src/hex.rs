//! Tiles of the board.
use vstd::prelude::*;
use crate::axial::Axial;
use crate::resource::Resource;
pub use crate::vertex::BuildType;

verus! {

/// A tile: its position, its product and its number token (0 for the desert).
#[derive(Clone, Copy, Debug, PartialEq, Eq, Structural)]
pub struct Hex {
    pub resource_type: Resource,
    pub number: i32,
    pub pos: Axial,
}

} // verus!
