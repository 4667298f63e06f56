//! The yield engine: what a dice roll pays each player.
use vstd::prelude::*;
use crate::axial::{Axial, adjacent, are_adjacent};
use crate::board::{Board, MAX_HEXES};
use crate::hex::Hex;
use crate::resource::{Resource, ResourceGroup, count_of, fits, tradeable};
use crate::vertex::{Vertex, yield_multiplier};

verus! {

/// Units that `player` earns from the corners of `vs` around the tile centre `center`.
pub open spec fn corner_gain(vs: Seq<Vertex>, center: Axial, player: usize) -> int
    decreases vs.len(),
{
    if vs.len() == 0 {
        0
    } else {
        corner_gain(vs.drop_last(), center, player) + if adjacent(center, vs.last().pos)
            && vs.last().owner == Some(player) {
            yield_multiplier(vs.last().build_type)
        } else {
            0
        }
    }
}

/// The tile `h` pays `k` on `roll` with the robber at `robber`.
pub open spec fn hex_pays(h: Hex, robber: Axial, roll: i32, k: Resource) -> bool {
    h.number == roll && h.pos != robber && h.resource_type == k && tradeable(k)
}

/// Units of `k` that `player` earns on `roll` from the tiles `hs` over the corners `vs`.
pub open spec fn roll_gain(hs: Seq<Hex>, vs: Seq<Vertex>, robber: Axial, roll: i32, player: usize, k: Resource) -> int
    decreases hs.len(),
{
    if hs.len() == 0 {
        0
    } else {
        roll_gain(hs.drop_last(), vs, robber, roll, player, k) + if hex_pays(hs.last(), robber, roll, k) {
            corner_gain(vs, hs.last().pos, player)
        } else {
            0
        }
    }
}

/// Some entry of `ys` belongs to `player`.
pub open spec fn has_share(ys: Seq<(usize, ResourceGroup)>, player: usize) -> bool {
    exists|i: int| 0 <= i < ys.len() && #[trigger] ys[i].0 == player
}

/// The ledger that `ys` gives `player`: an empty one where it has no entry for them.
pub open spec fn share_of(ys: Seq<(usize, ResourceGroup)>, player: usize) -> ResourceGroup {
    if has_share(ys, player) {
        ys[choose|i: int| 0 <= i < ys.len() && ys[i].0 == player].1
    } else {
        ResourceGroup::new_spec(0, 0, 0, 0, 0)
    }
}

/// No two entries of `ys` belong to the same player.
pub open spec fn shares_unique(ys: Seq<(usize, ResourceGroup)>) -> bool {
    forall|i: int, j: int| 0 <= i < ys.len() && 0 <= j < ys.len() && ys[i].0 == ys[j].0 ==> i == j
}

/// No count of `g` is negative and some count is positive.
pub open spec fn received_something(g: ResourceGroup) -> bool {
    &&& g.ore >= 0 && g.wheat >= 0 && g.sheep >= 0 && g.brick >= 0 && g.wood >= 0
    &&& g.ore + g.wheat + g.sheep + g.brick + g.wood > 0
}

/// Every entry of `ys` holds something received.
pub open spec fn shares_received(ys: Seq<(usize, ResourceGroup)>) -> bool {
    forall|i: int| 0 <= i < ys.len() ==> received_something(#[trigger] ys[i].1)
}

impl Board {
    /// Units of `k` that `player` earns on `roll`: one per settlement and two per city
    /// on a corner of each tile whose token is `roll` and that the robber is not on;
    /// nothing on a seven.
    pub open spec fn roll_yield(&self, roll: i32, player: usize, k: Resource) -> int {
        if roll == 7 {
            0
        } else {
            roll_gain(self.hexes@, self.vertices@, self.robber, roll, player, k)
        }
    }
}

/// The entry at index `i` is what `share_of` gives its player.
proof fn lemma_share_at(ys: Seq<(usize, ResourceGroup)>, i: int)
    requires
        shares_unique(ys),
        0 <= i < ys.len(),
    ensures
        has_share(ys, ys[i].0),
        share_of(ys, ys[i].0) == ys[i].1,
{
    assert(ys[i].0 == ys[i].0);
    let j = choose|j: int| 0 <= j < ys.len() && ys[j].0 == ys[i].0;
    assert(ys[j].0 == ys[i].0);
}

proof fn lemma_corner_gain_bounds(vs: Seq<Vertex>, center: Axial, player: usize)
    ensures
        0 <= corner_gain(vs, center, player) <= 2 * vs.len(),
    decreases vs.len(),
{
    if vs.len() > 0 {
        lemma_corner_gain_bounds(vs.drop_last(), center, player);
    }
}

proof fn lemma_roll_gain_bounds(hs: Seq<Hex>, vs: Seq<Vertex>, robber: Axial, roll: i32, player: usize, k: Resource)
    requires
        vs.len() <= 6 * MAX_HEXES,
    ensures
        0 <= roll_gain(hs, vs, robber, roll, player, k) <= hs.len() * (12 * MAX_HEXES),
    decreases hs.len(),
{
    if hs.len() > 0 {
        lemma_roll_gain_bounds(hs.drop_last(), vs, robber, roll, player, k);
        lemma_corner_gain_bounds(vs, hs.last().pos, player);
    }
}

/// Crediting a positive amount to a ledger with no negative count leaves one that
/// has received something.
proof fn lemma_credit_received(g1: ResourceGroup, g2: ResourceGroup, k: Resource, amount: int)
    requires
        g1.ore >= 0 && g1.wheat >= 0 && g1.sheep >= 0 && g1.brick >= 0 && g1.wood >= 0,
        tradeable(k),
        amount > 0,
        forall|k2: Resource| #[trigger] count_of(g2, k2) == count_of(g1, k2) + if k2 == k && tradeable(k2) { amount } else { 0 },
    ensures
        received_something(g2),
{
    assert(count_of(g2, Resource::Ore) == count_of(g1, Resource::Ore) + if k == Resource::Ore { amount } else { 0 });
    assert(count_of(g2, Resource::Wheat) == count_of(g1, Resource::Wheat) + if k == Resource::Wheat { amount } else { 0 });
    assert(count_of(g2, Resource::Sheep) == count_of(g1, Resource::Sheep) + if k == Resource::Sheep { amount } else { 0 });
    assert(count_of(g2, Resource::Brick) == count_of(g1, Resource::Brick) + if k == Resource::Brick { amount } else { 0 });
    assert(count_of(g2, Resource::Wood) == count_of(g1, Resource::Wood) + if k == Resource::Wood { amount } else { 0 });
}

/// Adds `amount` of `k` to `player`'s entry of `ys`, making the entry if there is none.
fn credit(ys: &mut Vec<(usize, ResourceGroup)>, player: usize, k: Resource, amount: i32)
    requires
        shares_unique(old(ys)@),
        shares_received(old(ys)@),
        tradeable(k),
        amount > 0,
        fits(share_of(old(ys)@, player), k, amount as int),
    ensures
        shares_unique(final(ys)@),
        shares_received(final(ys)@),
        forall|q: usize, k2: Resource| #[trigger] count_of(share_of(final(ys)@, q), k2)
            == count_of(share_of(old(ys)@, q), k2) + if q == player && k2 == k { amount as int } else { 0 },
{
    let ghost before = ys@;
    let mut i: usize = 0;
    let mut found: Option<usize> = None;
    while i < ys.len()
        invariant_except_break
            found is None,
        invariant
            ys@ == before,
            i <= ys@.len(),
            forall|j: int| 0 <= j < i ==> ys@[j].0 != player,
        ensures
            found is None ==> i >= ys@.len(),
            found matches Some(j) ==> j < ys@.len() && ys@[j as int].0 == player,
        decreases ys@.len() - i,
    {
        if ys[i].0 == player {
            found = Some(i);
            break;
        }
        i += 1;
    }
    match found {
        Some(i) => {
            let mut g = ys[i].1;
            proof {
                lemma_share_at(before, i as int);
            }
            g.add_resource(k, amount);
            ys.set(i, (player, g));
            proof {
                lemma_credit_received(before[i as int].1, g, k, amount as int);
                assert(shares_received(ys@)) by {
                    assert forall|j: int| 0 <= j < ys@.len() implies received_something(#[trigger] ys@[j].1) by {
                        if j != i {
                            assert(ys@[j] == before[j]);
                        }
                    }
                }
                assert forall|q: usize, k2: Resource| #[trigger] count_of(share_of(ys@, q), k2)
                    == count_of(share_of(before, q), k2) + if q == player && k2 == k { amount as int } else { 0 } by {
                    if q == player {
                        lemma_share_at(ys@, i as int);
                    } else if has_share(before, q) {
                        let j = choose|j: int| 0 <= j < before.len() && #[trigger] before[j].0 == q;
                        lemma_share_at(before, j);
                        lemma_share_at(ys@, j);
                    } else {
                        assert(!has_share(ys@, q)) by {
                            if has_share(ys@, q) {
                                let j = choose|j: int| 0 <= j < ys@.len() && #[trigger] ys@[j].0 == q;
                                assert(before[j].0 == q);
                            }
                        }
                    }
                }
            }
        },
        None => {
            let mut g = ResourceGroup::empty();
            g.add_resource(k, amount);
            ys.push((player, g));
            proof {
                lemma_credit_received(ResourceGroup::new_spec(0, 0, 0, 0, 0), g, k, amount as int);
                assert(shares_received(ys@)) by {
                    assert forall|j: int| 0 <= j < ys@.len() implies received_something(#[trigger] ys@[j].1) by {
                        if j < before.len() {
                            assert(ys@[j] == before[j]);
                        }
                    }
                }
                assert(!has_share(before, player));
                assert forall|q: usize, k2: Resource| #[trigger] count_of(share_of(ys@, q), k2)
                    == count_of(share_of(before, q), k2) + if q == player && k2 == k { amount as int } else { 0 } by {
                    if q == player {
                        lemma_share_at(ys@, before.len() as int);
                    } else if has_share(before, q) {
                        let j = choose|j: int| 0 <= j < before.len() && #[trigger] before[j].0 == q;
                        lemma_share_at(before, j);
                        lemma_share_at(ys@, j);
                    } else {
                        assert(!has_share(ys@, q)) by {
                            if has_share(ys@, q) {
                                let j = choose|j: int| 0 <= j < ys@.len() && #[trigger] ys@[j].0 == q;
                                assert(j < before.len());
                                assert(before[j].0 == q);
                            }
                        }
                    }
                }
            }
        },
    }
}

/// Units of `k` that tile `h` would pay `player` on `roll` with no robber on it.
pub open spec fn tile_gain(h: Hex, vs: Seq<Vertex>, roll: i32, player: usize, k: Resource) -> int {
    if h.number == roll && h.resource_type == k && tradeable(k) {
        corner_gain(vs, h.pos, player)
    } else {
        0
    }
}

/// Units of `k` that the tiles `hs` would pay `player` on `roll` with no robber.
pub open spec fn open_gain(hs: Seq<Hex>, vs: Seq<Vertex>, roll: i32, player: usize, k: Resource) -> int
    decreases hs.len(),
{
    if hs.len() == 0 {
        0
    } else {
        open_gain(hs.drop_last(), vs, roll, player, k) + tile_gain(hs.last(), vs, roll, player, k)
    }
}

proof fn lemma_robber_elsewhere(hs: Seq<Hex>, vs: Seq<Vertex>, robber: Axial, roll: i32, player: usize, k: Resource)
    requires
        forall|i: int| 0 <= i < hs.len() ==> hs[i].pos != robber,
    ensures
        roll_gain(hs, vs, robber, roll, player, k) == open_gain(hs, vs, roll, player, k),
    decreases hs.len(),
{
    if hs.len() > 0 {
        lemma_robber_elsewhere(hs.drop_last(), vs, robber, roll, player, k);
    }
}

proof fn lemma_robber_on(hs: Seq<Hex>, vs: Seq<Vertex>, roll: i32, player: usize, k: Resource, i: int)
    requires
        0 <= i < hs.len(),
        forall|a: int, b: int| 0 <= a < hs.len() && 0 <= b < hs.len() && hs[a].pos == hs[b].pos ==> a == b,
    ensures
        roll_gain(hs, vs, hs[i].pos, roll, player, k) == open_gain(hs, vs, roll, player, k) - tile_gain(hs[i], vs, roll, player, k),
    decreases hs.len(),
{
    let rest = hs.drop_last();
    if i == hs.len() - 1 {
        lemma_robber_elsewhere(rest, vs, hs[i].pos, roll, player, k);
    } else {
        lemma_robber_on(rest, vs, roll, player, k, i);
    }
}

/// The robber's tile pays nothing while every other tile pays in full: what a roll
/// yields is what all tiles would yield with no robber, less the share of the tile
/// under the robber.
pub proof fn lemma_robber_suppresses(b: Board, roll: i32, player: usize, k: Resource, i: int)
    requires
        b.wf(),
        0 <= i < b.hexes@.len(),
        b.hexes@[i].pos == b.robber,
        roll != 7,
    ensures
        b.roll_yield(roll, player, k) == open_gain(b.hexes@, b.vertices@, roll, player, k)
            - tile_gain(b.hexes@[i], b.vertices@, roll, player, k),
{
    lemma_robber_on(b.hexes@, b.vertices@, roll, player, k, i);
}

impl Board {
    /// What `roll` pays: one entry per player who receives anything, holding exactly
    /// `roll_yield` of each kind for that player. Tiles under the robber pay nothing,
    /// and a seven pays no one.
    pub fn yield_for_roll(&self, roll: i32) -> (res: Vec<(usize, ResourceGroup)>)
        requires
            self.wf(),
        ensures
            shares_unique(res@),
            shares_received(res@),
            forall|p: usize, k: Resource| #[trigger] count_of(share_of(res@, p), k) == self.roll_yield(roll, p, k),
    {
        let mut ys: Vec<(usize, ResourceGroup)> = Vec::new();
        if roll == 7 {
            return ys;
        }
        let mut h: usize = 0;
        while h < self.hexes.len()
            invariant
                self.wf(),
                roll != 7,
                h <= self.hexes@.len(),
                shares_unique(ys@),
                shares_received(ys@),
                forall|p: usize, k: Resource| #[trigger] count_of(share_of(ys@, p), k)
                    == roll_gain(self.hexes@.take(h as int), self.vertices@, self.robber, roll, p, k),
            decreases self.hexes@.len() - h,
        {
            let hex = self.hexes[h];
            let ghost done = self.hexes@.take(h as int);
            proof {
                assert(self.hexes@.take(h + 1).drop_last() =~= done);
                assert(self.hexes@.take(h + 1).last() == hex);
            }
            if hex.number == roll && hex.pos != self.robber && hex.resource_type != Resource::Nothing {
                let mut j: usize = 0;
                while j < self.vertices.len()
                    invariant
                        self.wf(),
                        h < self.hexes@.len(),
                        hex == self.hexes@[h as int],
                        done == self.hexes@.take(h as int),
                        hex.number == roll && hex.pos != self.robber && hex.resource_type != Resource::Nothing,
                        j <= self.vertices@.len(),
                        shares_unique(ys@),
                        shares_received(ys@),
                        forall|p: usize, k: Resource| #[trigger] count_of(share_of(ys@, p), k)
                            == roll_gain(done, self.vertices@, self.robber, roll, p, k)
                            + if hex_pays(hex, self.robber, roll, k) {
                                corner_gain(self.vertices@.take(j as int), hex.pos, p)
                            } else {
                                0
                            },
                    decreases self.vertices@.len() - j,
                {
                    let v = self.vertices[j];
                    proof {
                        assert(self.vertices@.take(j + 1).drop_last() =~= self.vertices@.take(j as int));
                        assert(self.vertices@.take(j + 1).last() == v);
                    }
                    if are_adjacent(hex.pos, v.pos) {
                        if let Some(o) = v.owner {
                            let m = v.build_type.multiplier();
                            if m > 0 {
                                proof {
                                    lemma_roll_gain_bounds(done, self.vertices@, self.robber, roll, o, hex.resource_type);
                                    lemma_corner_gain_bounds(self.vertices@.take(j + 1), hex.pos, o);
                                    assert(hex_pays(hex, self.robber, roll, hex.resource_type));
                                    assert(count_of(share_of(ys@, o), hex.resource_type)
                                        == roll_gain(done, self.vertices@, self.robber, roll, o, hex.resource_type)
                                        + corner_gain(self.vertices@.take(j as int), hex.pos, o));
                                }
                                credit(&mut ys, o, hex.resource_type, m);
                            }
                        }
                    }
                    j += 1;
                }
                proof {
                    assert(self.vertices@.take(j as int) =~= self.vertices@);
                }
            }
            h += 1;
        }
        proof {
            assert(self.hexes@.take(h as int) =~= self.hexes@);
        }
        ys
    }
}

} // verus!
