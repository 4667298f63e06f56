//! Hex corners: where settlements and cities stand.
use vstd::prelude::*;
use crate::axial::Axial;
use crate::resource::ResourceGroup;

verus! {

/// What stands on a corner.
#[derive(Debug, Clone, Copy, PartialEq, Eq, Structural)]
pub enum BuildType {
    City,
    Settlement,
    Empty,
}

/// A corner of the board: its position, what stands there and who owns it.
#[derive(Debug, Clone, Copy, PartialEq, Eq, Structural)]
pub struct Vertex {
    pub pos: Axial,
    pub build_type: BuildType,
    pub owner: Option<usize>,
}

impl Vertex {
    /// An unowned corner.
    pub fn new(pos: Axial, build_type: BuildType) -> (res: Self)
        ensures
            res.pos == pos,
            res.build_type == build_type,
            res.owner is None,
    {
        Vertex { pos, build_type, owner: None }
    }
}

/// Units of a hex's resource that one building earns on a matching roll.
pub open spec fn yield_multiplier(b: BuildType) -> int {
    match b {
        BuildType::City => 2,
        BuildType::Settlement => 1,
        BuildType::Empty => 0,
    }
}

impl BuildType {
    /// The price of a building: wood, brick, wheat and sheep for a settlement; three
    /// ore and two wheat for a city; nothing for an empty corner.
    pub fn cost(&self) -> (res: ResourceGroup)
        ensures
            *self == BuildType::Settlement ==> res == ResourceGroup::new_spec(0, 1, 1, 1, 1),
            *self == BuildType::City ==> res == ResourceGroup::new_spec(3, 2, 0, 0, 0),
            *self == BuildType::Empty ==> res == ResourceGroup::new_spec(0, 0, 0, 0, 0),
    {
        match self {
            BuildType::City => ResourceGroup::new(3, 2, 0, 0, 0),
            BuildType::Settlement => ResourceGroup::new(0, 1, 1, 1, 1),
            BuildType::Empty => ResourceGroup::empty(),
        }
    }

    /// Units of a hex's resource that this building earns on a matching roll.
    pub fn multiplier(&self) -> (res: i32)
        ensures
            res == yield_multiplier(*self),
    {
        match self {
            BuildType::City => 2,
            BuildType::Settlement => 1,
            BuildType::Empty => 0,
        }
    }
}

} // verus!
