//! Harbors: trade-ratio modifiers attached to paths.
use vstd::prelude::*;
use crate::edge::PathCoords;
use crate::resource::Resource;

verus! {

/// A harbor on the path `coords`. It trades `resource` at `ratio` to one;
/// `Resource::Nothing` marks a harbor that takes any kind.
#[derive(Debug, Clone, Copy, PartialEq, Eq, Structural)]
pub struct Harbor {
    pub coords: PathCoords,
    pub resource: Resource,
    pub ratio: u8,
}

} // verus!
