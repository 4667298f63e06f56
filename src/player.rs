//! Players: an id, the positions they have built on, and their ledger.
use vstd::prelude::*;
use crate::axial::Axial;
use crate::edge::PathCoords;
use crate::resource::ResourceGroup;

verus! {

/// A player of the game.
#[derive(Debug)]
pub struct Player {
    pub id: usize,
    pub buildings: Vec<Axial>,
    pub paths: Vec<PathCoords>,
    pub resources: ResourceGroup,
}

impl Player {
    /// A player with nothing built and an empty ledger.
    pub fn new(id: usize) -> (res: Self)
        ensures
            res.id == id,
            res.buildings@.len() == 0,
            res.paths@.len() == 0,
            res.resources == ResourceGroup::new_spec(0, 0, 0, 0, 0),
    {
        Player { id, buildings: Vec::new(), paths: Vec::new(), resources: ResourceGroup::empty() }
    }

    /// Players `0..size`, in order of id.
    pub fn init_players(size: usize) -> (res: Vec<Player>)
        ensures
            res@.len() == size,
            forall|i: int| 0 <= i < size ==> (#[trigger] res@[i]).id == i && res@[i].buildings@.len() == 0
                && res@[i].paths@.len() == 0 && res@[i].resources == ResourceGroup::new_spec(0, 0, 0, 0, 0),
    {
        let mut res: Vec<Player> = Vec::new();
        let mut i: usize = 0;
        while i < size
            invariant
                i <= size,
                res@.len() == i,
                forall|j: int| 0 <= j < i ==> (#[trigger] res@[j]).id == j && res@[j].buildings@.len() == 0
                    && res@[j].paths@.len() == 0 && res@[j].resources == ResourceGroup::new_spec(0, 0, 0, 0, 0),
            decreases size - i,
        {
            res.push(Player::new(i));
            i += 1;
        }
        res
    }
}

} // verus!
