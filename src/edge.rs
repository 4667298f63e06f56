//! Paths between adjacent corners, keyed by an unordered pair of positions.
use vstd::prelude::*;
use crate::axial::{Axial, lex_lt};

verus! {

/// What lies along a path.
#[derive(Debug, Clone, Copy, PartialEq, Eq, Structural)]
pub enum PathType {
    Road,
    Empty,
}

/// An unordered pair of positions, stored with the smaller one first so that both
/// orders of the same pair are one key.
#[derive(Debug, PartialEq, Eq, Structural, Clone, Copy, Hash)]
pub struct PathCoords {
    pub a: Axial,
    pub b: Axial,
}

/// A path of the board: its endpoints, what lies along it and who owns it.
#[derive(Debug, Clone, Copy, PartialEq, Eq, Structural)]
pub struct Edge {
    pub path_coords: PathCoords,
    pub path_type: PathType,
    pub owner: Option<usize>,
}

/// The canonical key of the pair `{x, y}`.
pub open spec fn canonical_pair(x: Axial, y: Axial) -> PathCoords {
    if lex_lt(x, y) {
        PathCoords { a: x, b: y }
    } else {
        PathCoords { a: y, b: x }
    }
}

impl PathCoords {
    /// Whether `c` is one of the two endpoints.
    pub open spec fn has_end(self, c: Axial) -> bool {
        self.a == c || self.b == c
    }

    /// The key of the pair `{a, b}`, whichever order they come in.
    pub fn new(a: Axial, b: Axial) -> (res: PathCoords)
        ensures
            res == canonical_pair(a, b),
    {
        if a.less_than(&b) {
            PathCoords { a, b }
        } else {
            PathCoords { a: b, b: a }
        }
    }

    pub fn contains(&self, c: Axial) -> (res: bool)
        ensures
            res == self.has_end(c),
    {
        self.a == c || self.b == c
    }
}

impl Edge {
    /// An unowned path.
    pub fn new(path_coords: PathCoords, path_type: PathType) -> (res: Self)
        ensures
            res.path_coords == path_coords,
            res.path_type == path_type,
            res.owner is None,
    {
        Edge { path_coords, path_type, owner: None }
    }
}

/// Both orders of a pair give the same key.
pub proof fn lemma_canonical_pair_symmetric(x: Axial, y: Axial)
    ensures
        canonical_pair(x, y) == canonical_pair(y, x),
        x != y ==> lex_lt(canonical_pair(x, y).a, canonical_pair(x, y).b),
{
}

} // verus!
