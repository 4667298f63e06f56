//! A game in progress: its players, board and bank.
use vstd::prelude::*;
use rand::Rng;
use crate::axial::Axial;
use crate::board::Board;
use crate::edge::{Edge, PathCoords, PathType};
use crate::vertex::{BuildType, Vertex};
use crate::error::RuleError;
use crate::player::Player;
use crate::resource::{Resource, ResourceGroup, count_of, fits};
use crate::yields::{share_of, shares_unique};

verus! {

/// A game session.
#[derive(Debug)]
pub struct Game {
    pub players: Vec<Player>,
    pub board: Board,
    pub bank: ResourceGroup,
    pub player_with_road: Option<u32>,
    pub player_with_army: Option<u32>,
}

/// Relies on `rand::thread_rng` and `Rng::gen_range` over `1..=6`: a value drawn
/// from that range (the range is not empty, so the call does not panic).
#[verifier::external_body]
fn roll_die() -> (res: i32)
    ensures
        1 <= res <= 6,
{
    rand::thread_rng().gen_range(1..=6)
}

/// Whether every count of `g` plus what `roll` pays `player` on `board` stays within
/// `i32`.
pub open spec fn absorbs(g: ResourceGroup, board: Board, roll: i32, player: usize) -> bool {
    forall|k: Resource| fits(g, k, #[trigger] board.roll_yield(roll, player, k))
}

/// The entry of `ys` for `player`, or an empty ledger.
fn share_for(ys: &Vec<(usize, ResourceGroup)>, player: usize) -> (res: ResourceGroup)
    requires
        shares_unique(ys@),
    ensures
        res == share_of(ys@, player),
{
    let mut i: usize = 0;
    while i < ys.len()
        invariant
            shares_unique(ys@),
            i <= ys@.len(),
            forall|j: int| 0 <= j < i ==> ys@[j].0 != player,
        decreases ys@.len() - i,
    {
        if ys[i].0 == player {
            proof {
                assert(ys@[i as int].0 == player);
                let j = choose|j: int| 0 <= j < ys@.len() && ys@[j].0 == player;
                assert(ys@[j].0 == player);
            }
            return ys[i].1;
        }
        i += 1;
    }
    ResourceGroup::empty()
}

impl Game {
    /// A game over `board` with a bank of twenty of each kind.
    pub fn new(players: Vec<Player>, board: Board) -> (res: Self)
        ensures
            res.players == players,
            res.board == board,
            res.bank == ResourceGroup::new_spec(20, 20, 20, 20, 20),
            res.player_with_road is None,
            res.player_with_army is None,
    {
        Self {
            players,
            board,
            bank: ResourceGroup::new(20, 20, 20, 20, 20),
            player_with_road: None,
            player_with_army: None,
        }
    }

    /// Credits each player what `roll` pays them. A player whose ledger would leave
    /// `i32` is left as they were; the contract says exactly which players those are
    /// (`absorbs`), so a caller can tell by testing `can_absorb` beforehand.
    pub fn give_resources_for_roll(&mut self, roll: i32)
        requires
            old(self).board.wf(),
        ensures
            final(self).board == old(self).board,
            final(self).bank == old(self).bank,
            final(self).players@.len() == old(self).players@.len(),
            forall|i: int| 0 <= i < old(self).players@.len() ==> {
                let before = #[trigger] old(self).players@[i];
                let after = final(self).players@[i];
                &&& after.id == before.id
                &&& after.buildings == before.buildings
                &&& after.paths == before.paths
                &&& absorbs(before.resources, old(self).board, roll, i as usize) ==> forall|k: Resource|
                    #[trigger] count_of(after.resources, k) == count_of(before.resources, k)
                        + old(self).board.roll_yield(roll, i as usize, k)
                &&& !absorbs(before.resources, old(self).board, roll, i as usize) ==> after.resources == before.resources
            },
    {
        let ys = self.board.yield_for_roll(roll);
        let ghost start = self.players@;
        let mut i: usize = 0;
        while i < self.players.len()
            invariant
                self.board == old(self).board,
                self.bank == old(self).bank,
                start == old(self).players@,
                shares_unique(ys@),
                forall|p: usize, k: Resource| #[trigger] count_of(share_of(ys@, p), k) == self.board.roll_yield(roll, p, k),
                self.players@.len() == start.len(),
                i <= start.len(),
                forall|j: int| i <= j < start.len() ==> #[trigger] self.players@[j] == start[j],
                forall|j: int| 0 <= j < i ==> {
                    let before = #[trigger] start[j];
                    let after = self.players@[j];
                    &&& after.id == before.id
                    &&& after.buildings == before.buildings
                    &&& after.paths == before.paths
                    &&& absorbs(before.resources, self.board, roll, j as usize) ==> forall|k: Resource|
                        #[trigger] count_of(after.resources, k) == count_of(before.resources, k)
                            + self.board.roll_yield(roll, j as usize, k)
                    &&& !absorbs(before.resources, self.board, roll, j as usize) ==> after.resources == before.resources
                },
            decreases start.len() - i,
        {
            let g = share_for(&ys, i);
            let ok = self.players[i].resources.can_absorb(&g);
            proof {
                let r = start[i as int].resources;
                assert(ok == absorbs(r, self.board, roll, i)) by {
                    if ok {
                        assert forall|k: Resource| fits(r, k, #[trigger] self.board.roll_yield(roll, i, k)) by {
                            assert(count_of(share_of(ys@, i), k) == self.board.roll_yield(roll, i, k));
                        }
                    } else {
                        let k = choose|k: Resource| !fits(r, k, count_of(g, k));
                        assert(count_of(share_of(ys@, i), k) == self.board.roll_yield(roll, i, k));
                    }
                }
            }
            if ok {
                self.players[i].resources.add_assign(g);
                proof {
                    assert forall|k: Resource| #[trigger] count_of(self.players@[i as int].resources, k)
                        == count_of(start[i as int].resources, k) + self.board.roll_yield(roll, i, k) by {
                        assert(count_of(share_of(ys@, i), k) == self.board.roll_yield(roll, i, k));
                    }
                }
            }
            i += 1;
        }
    }

    /// Builds on the board for `player` and records a new settlement's position in the
    /// player's list of buildings, so that the list follows the board.
    pub fn place_building(&mut self, player: usize, pos: Axial, build_type: BuildType, ensure_connected: bool) -> (res: Result<(), RuleError>)
        requires
            old(self).board.wf(),
            player < old(self).players@.len(),
        ensures
            final(self).board.wf(),
            res == old(self).board.build_check(build_type, player, pos, ensure_connected),
            res is Ok ==> final(self).board.vertices@ == old(self).board.vertices@.update(
                old(self).board.vertex_index(pos),
                Vertex { pos, build_type, owner: Some(player) },
            ),
            final(self).board.edges@ == old(self).board.edges@,
            final(self).board.hexes@ == old(self).board.hexes@,
            final(self).board.robber == old(self).board.robber,
            final(self).players@.len() == old(self).players@.len(),
            forall|i: int| 0 <= i < old(self).players@.len() && i != player ==> #[trigger] final(self).players@[i]
                == old(self).players@[i],
            final(self).players@[player as int].buildings@ == if res is Ok && build_type == BuildType::Settlement {
                old(self).players@[player as int].buildings@.push(pos)
            } else {
                old(self).players@[player as int].buildings@
            },
            final(self).players@[player as int].paths == old(self).players@[player as int].paths,
            final(self).players@[player as int].resources == old(self).players@[player as int].resources,
            final(self).players@[player as int].id == old(self).players@[player as int].id,
            res is Err ==> *final(self) == *old(self),
    {
        let res = self.board.place_building(player, pos, build_type, ensure_connected);
        if res.is_ok() && build_type == BuildType::Settlement {
            self.players[player].buildings.push(pos);
        }
        res
    }

    /// Lays a path on the board for `player` and records it in the player's list of
    /// paths, so that the list follows the board.
    pub fn place_path(&mut self, player: usize, coords: PathCoords, path_type: PathType, ensure_connected: bool) -> (res: Result<(), RuleError>)
        requires
            old(self).board.wf(),
            player < old(self).players@.len(),
        ensures
            final(self).board.wf(),
            res == old(self).board.path_check(old(self).players@[player as int].id, coords, ensure_connected),
            res is Ok ==> final(self).board.edges@ == old(self).board.edges@.update(
                old(self).board.edge_index(coords),
                Edge { path_coords: coords, path_type, owner: Some(old(self).players@[player as int].id) },
            ),
            final(self).board.vertices@ == old(self).board.vertices@,
            final(self).board.hexes@ == old(self).board.hexes@,
            final(self).board.robber == old(self).board.robber,
            final(self).players@.len() == old(self).players@.len(),
            forall|i: int| 0 <= i < old(self).players@.len() && i != player ==> #[trigger] final(self).players@[i]
                == old(self).players@[i],
            final(self).players@[player as int].paths@ == if res is Ok {
                old(self).players@[player as int].paths@.push(coords)
            } else {
                old(self).players@[player as int].paths@
            },
            final(self).players@[player as int].buildings == old(self).players@[player as int].buildings,
            final(self).players@[player as int].resources == old(self).players@[player as int].resources,
            final(self).players@[player as int].id == old(self).players@[player as int].id,
            res is Err ==> *final(self) == *old(self),
    {
        let res = self.board.place_path(&self.players[player], coords, path_type, ensure_connected);
        if res.is_ok() {
            self.players[player].paths.push(coords);
        }
        res
    }

    /// For each player, whether they hold more than `limit` cards and so must discard
    /// on a seven.
    pub fn discard_flags(&self, limit: i64) -> (res: Vec<bool>)
        ensures
            res@.len() == self.players@.len(),
            forall|i: int| 0 <= i < res@.len() ==> #[trigger] res@[i] == (self.players@[i].resources.hand_size() > limit),
    {
        let mut res: Vec<bool> = Vec::new();
        let mut i: usize = 0;
        while i < self.players.len()
            invariant
                i <= self.players@.len(),
                res@.len() == i,
                forall|j: int| 0 <= j < i ==> #[trigger] res@[j] == (self.players@[j].resources.hand_size() > limit),
            decreases self.players@.len() - i,
        {
            res.push(self.players[i].resources.total() > limit);
            i += 1;
        }
        res
    }

    /// The sum of two dice.
    pub fn roll() -> (res: i32)
        ensures
            2 <= res <= 12,
    {
        roll_die() + roll_die()
    }

    /// Opens a game session.
    pub fn play() -> (res: Result<(), RuleError>)
        ensures
            res is Ok,
    {
        let _phase = crate::phase::Phase::start_game();
        Ok(())
    }
}

} // verus!
