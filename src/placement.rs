//! Placement rules: which corners and paths a player may build on, and the builds
//! themselves.
use vstd::prelude::*;
use crate::axial::{
    Axial, adjacent, lex_lt, shifted, steppable, step, neighbor_seq, lemma_adjacent_iff_neighbor,
};
use crate::board::{Board, path_key_ok, lemma_adjacent_symmetric, TILE_REACH, within_reach, find_corner, find_path, corner_at, path_at};
use crate::edge::{Edge, PathCoords, PathType, canonical_pair};
use crate::error::RuleError;
use crate::player::Player;
use crate::vertex::{BuildType, Vertex};

verus! {

impl Board {
    /// Player `player` owns the corner at `p`.
    pub open spec fn owns_corner(&self, player: usize, p: Axial) -> bool {
        self.has_vertex(p) && self.vertex_at(p).owner == Some(player)
    }

    /// Some corner one unit step from `p` has an owner.
    pub open spec fn neighbor_occupied(&self, p: Axial) -> bool {
        exists|k: int| 0 <= k < 6 && #[trigger] self.has_vertex(shifted(p, k))
            && self.vertex_at(shifted(p, k)).owner is Some
    }

    /// A path owned by `player` ends at `p`.
    pub open spec fn road_touches(&self, player: usize, p: Axial) -> bool {
        exists|i: int| 0 <= i < self.edges@.len() && (#[trigger] self.edges@[i]).owner == Some(player)
            && self.edges@[i].path_coords.has_end(p)
    }

    /// The settlement rule at `pos` for `player`.
    pub open spec fn settlement_check(&self, player: usize, pos: Axial, ensure_connected: bool) -> Result<(), RuleError> {
        if !self.has_vertex(pos) {
            Err(RuleError::NoSuchVertex)
        } else if self.vertex_at(pos).owner is Some {
            Err(RuleError::AlreadyOwned)
        } else if self.neighbor_occupied(pos) {
            Err(RuleError::NeighborOccupied)
        } else if ensure_connected && !self.road_touches(player, pos) {
            Err(RuleError::Disconnected)
        } else {
            Ok(())
        }
    }

    /// The city rule at `pos` for `player`: a settlement of the player's own.
    pub open spec fn city_check(&self, player: usize, pos: Axial) -> Result<(), RuleError> {
        if !self.has_vertex(pos) {
            Err(RuleError::NoSuchVertex)
        } else if self.vertex_at(pos).build_type != BuildType::Settlement {
            Err(RuleError::WrongBuildType)
        } else if self.vertex_at(pos).owner != Some(player) {
            Err(RuleError::NotOwnedByPlayer)
        } else {
            Ok(())
        }
    }

    /// The rule for building `build_type` at `pos`.
    pub open spec fn build_check(&self, build_type: BuildType, player: usize, pos: Axial, ensure_connected: bool) -> Result<(), RuleError> {
        match build_type {
            BuildType::City => self.city_check(player, pos),
            BuildType::Settlement => self.settlement_check(player, pos, ensure_connected),
            BuildType::Empty => Err(RuleError::WrongBuildType),
        }
    }

    /// The path `coords` touches what `player` already has: a corner of theirs at an
    /// end, or a path of theirs sharing an end.
    pub open spec fn path_connected(&self, player: usize, coords: PathCoords) -> bool {
        self.owns_corner(player, coords.a) || self.owns_corner(player, coords.b)
            || self.road_touches(player, coords.a) || self.road_touches(player, coords.b)
    }

    /// The road rule at `coords` for `player`.
    pub open spec fn path_check(&self, player: usize, coords: PathCoords, ensure_connected: bool) -> Result<(), RuleError> {
        if !self.has_edge(coords) {
            Err(RuleError::NoSuchEdge)
        } else if self.edge_at(coords).owner is Some {
            Err(RuleError::AlreadyOwned)
        } else if ensure_connected && !self.path_connected(player, coords) {
            Err(RuleError::Disconnected)
        } else {
            Ok(())
        }
    }

    /// The corners at the first `k` unit steps from `pos`, in offset order.
    pub open spec fn adjacent_corners(&self, pos: Axial, k: int) -> Seq<Vertex>
        decreases k,
    {
        if k <= 0 {
            Seq::empty()
        } else if self.has_vertex(shifted(pos, k - 1)) {
            self.adjacent_corners(pos, k - 1).push(self.vertex_at(shifted(pos, k - 1)))
        } else {
            self.adjacent_corners(pos, k - 1)
        }
    }

    /// The corners one unit step from `pos`, in offset order: what
    /// `get_adjacent_vertices(pos)` returns.
    pub open spec fn get_adjacent_spec(&self, pos: Axial) -> Seq<Vertex> {
        self.adjacent_corners(pos, 6)
    }

    /// The corner at index `i` is the one that `vertex_at` names for its position.
    pub proof fn lemma_vertex_index(&self, i: int)
        requires
            self.wf(),
            0 <= i < self.vertices@.len(),
        ensures
            self.has_vertex(self.vertices@[i].pos),
            self.vertex_index(self.vertices@[i].pos) == i,
            self.vertex_at(self.vertices@[i].pos) == self.vertices@[i],
    {
        let p = self.vertices@[i].pos;
        assert(corner_at(self.vertices@, p));
        let j = self.vertex_index(p);
        assert(self.vertices@[j].pos == p);
    }

    /// The path at index `i` is the one that `edge_at` names for its key.
    pub proof fn lemma_edge_index(&self, i: int)
        requires
            self.wf(),
            0 <= i < self.edges@.len(),
        ensures
            self.has_edge(self.edges@[i].path_coords),
            self.edge_index(self.edges@[i].path_coords) == i,
            self.edge_at(self.edges@[i].path_coords) == self.edges@[i],
    {
        let pc = self.edges@[i].path_coords;
        assert(path_at(self.edges@, pc));
        let j = self.edge_index(pc);
        assert(self.edges@[j].path_coords == pc);
    }

    /// Index of the corner at `pos`, if the board has one.
    fn corner_index(&self, pos: Axial) -> (res: Option<usize>)
        requires
            self.wf(),
        ensures
            match res {
                Some(i) => self.has_vertex(pos) && i as int == self.vertex_index(pos)
                    && i < self.vertices@.len() && self.vertices@[i as int].pos == pos,
                None => !self.has_vertex(pos),
            },
    {
        let res = find_corner(&self.vertices, pos);
        if let Some(i) = res {
            proof {
                self.lemma_vertex_index(i as int);
            }
        }
        res
    }

    /// Index of the path with key `coords`, if the board has one.
    fn path_index(&self, coords: PathCoords) -> (res: Option<usize>)
        requires
            self.wf(),
        ensures
            match res {
                Some(i) => self.has_edge(coords) && i as int == self.edge_index(coords)
                    && i < self.edges@.len() && self.edges@[i as int].path_coords == coords,
                None => !self.has_edge(coords),
            },
    {
        let res = find_path(&self.edges, coords);
        if let Some(i) = res {
            proof {
                self.lemma_edge_index(i as int);
            }
        }
        res
    }

    /// The corner at `pos`, if the board has one.
    pub fn vertex(&self, pos: Axial) -> (res: Option<Vertex>)
        requires
            self.wf(),
        ensures
            res == if self.has_vertex(pos) { Some(self.vertex_at(pos)) } else { None::<Vertex> },
    {
        match self.corner_index(pos) {
            Some(i) => Some(self.vertices[i]),
            None => None,
        }
    }

    /// The path with key `coords`, if the board has one.
    pub fn edge(&self, coords: PathCoords) -> (res: Option<Edge>)
        requires
            self.wf(),
        ensures
            res == if self.has_edge(coords) { Some(self.edge_at(coords)) } else { None::<Edge> },
    {
        match self.path_index(coords) {
            Some(i) => Some(self.edges[i]),
            None => None,
        }
    }

    /// The corners of this board one unit step from `pos`, in offset order.
    pub fn get_adjacent_vertices(&self, pos: Axial) -> (res: Vec<Vertex>)
        requires
            self.wf(),
            steppable(pos),
        ensures
            res@ == self.adjacent_corners(pos, 6),
            res@.len() <= 6,
            forall|u: Axial| corner_at(res@, u) <==> (self.has_vertex(u) && adjacent(pos, u)),
            forall|m: int| 0 <= m < res@.len() ==> #[trigger] res@[m] == self.vertex_at(res@[m].pos),
    {
        proof {
            assert forall|u: Axial| corner_at(self.adjacent_corners(pos, 6), u) <==> (self.has_vertex(u)
                && adjacent(pos, u)) by {
                lemma_adjacent_vertices_exact(*self, pos, u);
            }
            lemma_adjacent_vertices_exact(*self, pos, pos);
        }
        let mut res: Vec<Vertex> = Vec::new();
        let mut k: usize = 0;
        while k < 6
            invariant
                self.wf(),
                steppable(pos),
                k <= 6,
                res@ == self.adjacent_corners(pos, k as int),
            decreases 6 - k,
        {
            let w = step(pos, k);
            if let Some(i) = self.corner_index(w) {
                res.push(self.vertices[i]);
            }
            k += 1;
        }
        res
    }

    /// Whether a path owned by `player` ends at `pos`.
    fn has_road_to(&self, player: usize, pos: Axial) -> (res: bool)
        ensures
            res == self.road_touches(player, pos),
    {
        let mut i: usize = 0;
        while i < self.edges.len()
            invariant
                i <= self.edges@.len(),
                forall|j: int| 0 <= j < i ==> !((#[trigger] self.edges@[j]).owner == Some(player)
                    && self.edges@[j].path_coords.has_end(pos)),
            decreases self.edges@.len() - i,
        {
            if self.edges[i].owner == Some(player) && self.edges[i].path_coords.contains(pos) {
                return true;
            }
            i += 1;
        }
        false
    }

    /// Checks the settlement rule: the corner exists and is unowned, no adjacent corner
    /// is owned, and, where `ensure_connected`, a road of the player ends there.
    pub fn validate_settlement(&self, player: usize, pos: Axial, ensure_connected: bool) -> (res: Result<(), RuleError>)
        requires
            self.wf(),
        ensures
            res == self.settlement_check(player, pos, ensure_connected),
    {
        match self.corner_index(pos) {
            None => Err(RuleError::NoSuchVertex),
            Some(i) => {
                if self.vertices[i].owner.is_some() {
                    return Err(RuleError::AlreadyOwned);
                }
                assert(within_reach(self.vertices@[i as int].pos, TILE_REACH + 1));
                let around = self.get_adjacent_vertices(pos);
                let mut j: usize = 0;
                while j < around.len()
                    invariant
                        self.wf(),
                        j <= around@.len(),
                        around@ == self.adjacent_corners(pos, 6),
                        forall|m: int| 0 <= m < j ==> (#[trigger] around@[m]).owner is None,
                        self.has_vertex(pos),
                        self.vertex_at(pos).owner is None,
                    decreases around@.len() - j,
                {
                    if around[j].owner.is_some() {
                        proof {
                            self.lemma_adjacent_corners_owned(pos, 6, j as int);
                        }
                        return Err(RuleError::NeighborOccupied);
                    }
                    j += 1;
                }
                proof {
                    self.lemma_adjacent_corners_free(pos, 6);
                }
                if ensure_connected && !self.has_road_to(player, pos) {
                    return Err(RuleError::Disconnected);
                }
                Ok(())
            },
        }
    }

    /// An owned corner in the list of adjacent corners is an owned adjacent corner.
    proof fn lemma_adjacent_corners_owned(&self, pos: Axial, k: int, m: int)
        requires
            0 <= k <= 6,
            0 <= m < self.adjacent_corners(pos, k).len(),
            self.adjacent_corners(pos, k)[m].owner is Some,
        ensures
            exists|k2: int| 0 <= k2 < k && #[trigger] self.has_vertex(shifted(pos, k2))
                && self.vertex_at(shifted(pos, k2)).owner is Some,
        decreases k,
    {
        if k > 0 {
            let prev = self.adjacent_corners(pos, k - 1);
            if self.has_vertex(shifted(pos, k - 1)) && m == prev.len() {
                assert(self.has_vertex(shifted(pos, k - 1)));
            } else {
                self.lemma_adjacent_corners_owned(pos, k - 1, m);
            }
        }
    }

    /// When no corner in the list of adjacent corners is owned, no adjacent corner is.
    proof fn lemma_adjacent_corners_free(&self, pos: Axial, k: int)
        requires
            0 <= k <= 6,
            forall|m: int| 0 <= m < self.adjacent_corners(pos, k).len()
                ==> (#[trigger] self.adjacent_corners(pos, k)[m]).owner is None,
        ensures
            forall|k2: int| 0 <= k2 < k && #[trigger] self.has_vertex(shifted(pos, k2))
                ==> self.vertex_at(shifted(pos, k2)).owner is None,
        decreases k,
    {
        if k > 0 {
            let prev = self.adjacent_corners(pos, k - 1);
            assert forall|m: int| 0 <= m < prev.len() implies (#[trigger] prev[m]).owner is None by {
                assert(self.adjacent_corners(pos, k)[m] == prev[m]);
            }
            self.lemma_adjacent_corners_free(pos, k - 1);
            if self.has_vertex(shifted(pos, k - 1)) {
                assert(self.adjacent_corners(pos, k)[prev.len() as int] == self.vertex_at(shifted(pos, k - 1)));
            }
        }
    }

    /// Checks the city rule: the corner exists and holds a settlement of `player`.
    pub fn validate_city(&self, player: usize, pos: Axial) -> (res: Result<(), RuleError>)
        requires
            self.wf(),
        ensures
            res == self.city_check(player, pos),
    {
        match self.corner_index(pos) {
            None => Err(RuleError::NoSuchVertex),
            Some(i) => {
                if self.vertices[i].build_type != BuildType::Settlement {
                    Err(RuleError::WrongBuildType)
                } else if self.vertices[i].owner != Some(player) {
                    Err(RuleError::NotOwnedByPlayer)
                } else {
                    Ok(())
                }
            },
        }
    }

    /// Checks the rule for building `build_type` at `pos`.
    pub fn validate_build(&self, build_type: BuildType, player: usize, pos: Axial, ensure_connected: bool) -> (res: Result<(), RuleError>)
        requires
            self.wf(),
        ensures
            res == self.build_check(build_type, player, pos, ensure_connected),
    {
        match build_type {
            BuildType::City => self.validate_city(player, pos),
            BuildType::Settlement => self.validate_settlement(player, pos, ensure_connected),
            BuildType::Empty => Err(RuleError::WrongBuildType),
        }
    }
    /// The positions, in corner order, of the first `n` corners at which building
    /// `build_type` is legal for `player`.
    pub open spec fn valid_spots(&self, build_type: BuildType, player: usize, ensure_connected: bool, n: int) -> Seq<Axial>
        decreases n,
    {
        if n <= 0 || n > self.vertices@.len() {
            Seq::empty()
        } else {
            let prev = self.valid_spots(build_type, player, ensure_connected, n - 1);
            let p = self.vertices@[n - 1].pos;
            if self.build_check(build_type, player, p, ensure_connected) is Ok {
                prev.push(p)
            } else {
                prev
            }
        }
    }

    /// Every corner at which building `build_type` is currently legal for `player`,
    /// in corner order.
    pub fn get_valid_build_spots(&self, build_type: BuildType, player: usize, ensure_connected: bool) -> (res: Vec<Axial>)
        requires
            self.wf(),
        ensures
            res@ == self.valid_spots(build_type, player, ensure_connected, self.vertices@.len() as int),
    {
        let mut res: Vec<Axial> = Vec::new();
        let mut i: usize = 0;
        while i < self.vertices.len()
            invariant
                self.wf(),
                i <= self.vertices@.len(),
                res@ == self.valid_spots(build_type, player, ensure_connected, i as int),
            decreases self.vertices@.len() - i,
        {
            let p = self.vertices[i].pos;
            if self.validate_build(build_type, player, p, ensure_connected).is_ok() {
                res.push(p);
            }
            i += 1;
        }
        res
    }

    /// Builds `build_type` for `player` at `pos` if the rule for it holds; otherwise
    /// reports the broken rule and changes nothing.
    pub fn place_building(&mut self, player: usize, pos: Axial, build_type: BuildType, ensure_connected: bool) -> (res: Result<(), RuleError>)
        requires
            old(self).wf(),
        ensures
            final(self).wf(),
            res == old(self).build_check(build_type, player, pos, ensure_connected),
            res is Ok ==> final(self).vertices@ == old(self).vertices@.update(
                old(self).vertex_index(pos),
                Vertex { pos, build_type, owner: Some(player) },
            ),
            res is Ok ==> final(self).hexes@ == old(self).hexes@ && final(self).edges@ == old(self).edges@
                && final(self).harbors@ == old(self).harbors@ && final(self).robber == old(self).robber,
            res is Err ==> *final(self) == *old(self),
    {
        match self.validate_build(build_type, player, pos, ensure_connected) {
            Err(e) => {
                return Err(e);
            },
            Ok(()) => {},
        }
        match self.corner_index(pos) {
            Some(i) => {
                let ghost before = self.vertices@;
                self.vertices.set(i, Vertex { pos, build_type, owner: Some(player) });
                proof {
                    lemma_same_positions(before, self.vertices@);
                    assert forall|pc: PathCoords| #[trigger] path_key_ok(self.vertices@, pc) implies path_at(self.edges@, pc) by {
                        assert(path_key_ok(before, pc));
                    }
                }
                Ok(())
            },
            None => Err(RuleError::NoSuchVertex),
        }
    }

    /// Moves the robber onto the tile at `pos`.
    pub fn move_robber(&mut self, pos: Axial) -> (res: Result<(), RuleError>)
        requires
            old(self).wf(),
        ensures
            final(self).wf(),
            res is Ok <==> crate::board::tile_at(old(self).hexes@, pos),
            res is Err ==> res == Err::<(), RuleError>(RuleError::NoSuchHex) && *final(self) == *old(self),
            res is Ok ==> final(self).robber == pos && final(self).hexes@ == old(self).hexes@
                && final(self).vertices@ == old(self).vertices@ && final(self).edges@ == old(self).edges@
                && final(self).harbors@ == old(self).harbors@,
    {
        match crate::board::find_tile(&self.hexes, pos) {
            Some(i) => {
                self.robber = pos;
                Ok(())
            },
            None => Err(RuleError::NoSuchHex),
        }
    }

    /// Whether the path `coords` exists and is unowned.
    pub fn is_valid_path_coords(&self, coords: &PathCoords) -> (res: bool)
        requires
            self.wf(),
        ensures
            res == (self.has_edge(*coords) && self.edge_at(*coords).owner is None),
    {
        match self.path_index(*coords) {
            Some(i) => self.edges[i].owner.is_none(),
            None => false,
        }
    }

    /// Whether `player` owns the corner at `pos`.
    fn owns_corner_at(&self, player: usize, pos: Axial) -> (res: bool)
        requires
            self.wf(),
        ensures
            res == self.owns_corner(player, pos),
    {
        match self.corner_index(pos) {
            Some(i) => self.vertices[i].owner == Some(player),
            None => false,
        }
    }

    /// Checks the road rule: the path exists and is unowned, and, where
    /// `ensure_connected`, it touches a corner or a path of the player.
    pub fn validate_path(&self, player: &Player, coords: PathCoords, ensure_connected: bool) -> (res: Result<(), RuleError>)
        requires
            self.wf(),
        ensures
            res == self.path_check(player.id, coords, ensure_connected),
    {
        if !self.is_valid_path_coords(&coords) {
            if self.path_index(coords).is_none() {
                return Err(RuleError::NoSuchEdge);
            }
            return Err(RuleError::AlreadyOwned);
        }
        if ensure_connected {
            let id = player.id;
            if !(self.owns_corner_at(id, coords.a) || self.owns_corner_at(id, coords.b) || self.has_road_to(id, coords.a)
                || self.has_road_to(id, coords.b)) {
                return Err(RuleError::Disconnected);
            }
        }
        Ok(())
    }

    /// Lays `path_type` for `player` along `coords` if the road rule holds; otherwise
    /// reports the broken rule and changes nothing.
    pub fn place_path(&mut self, player: &Player, coords: PathCoords, path_type: PathType, ensure_connected: bool) -> (res: Result<(), RuleError>)
        requires
            old(self).wf(),
        ensures
            final(self).wf(),
            res == old(self).path_check(player.id, coords, ensure_connected),
            res is Ok ==> final(self).edges@ == old(self).edges@.update(
                old(self).edge_index(coords),
                Edge { path_coords: coords, path_type, owner: Some(player.id) },
            ),
            res is Ok ==> final(self).hexes@ == old(self).hexes@ && final(self).vertices@ == old(self).vertices@
                && final(self).harbors@ == old(self).harbors@ && final(self).robber == old(self).robber,
            res is Err ==> *final(self) == *old(self),
    {
        match self.validate_path(player, coords, ensure_connected) {
            Err(e) => {
                return Err(e);
            },
            Ok(()) => {},
        }
        match self.path_index(coords) {
            Some(i) => {
                let ghost before = self.edges@;
                self.edges.set(i, Edge { path_coords: coords, path_type, owner: Some(player.id) });
                proof {
                    lemma_same_keys(before, self.edges@);
                }
                Ok(())
            },
            None => Err(RuleError::NoSuchEdge),
        }
    }
}

/// The spots that `get_valid_build_spots` reports are exactly the corners at which the
/// single-target rule, and so the build itself, succeeds.
pub proof fn lemma_valid_spots_consistent(b: Board, build_type: BuildType, player: usize, ensure_connected: bool, n: int, p: Axial)
    requires
        0 <= n <= b.vertices@.len(),
    ensures
        b.valid_spots(build_type, player, ensure_connected, n).contains(p) <==> (exists|j: int| 0 <= j < n
            && #[trigger] b.vertices@[j].pos == p) && b.build_check(build_type, player, p, ensure_connected) is Ok,
    decreases n,
{
    if n > 0 {
        lemma_valid_spots_consistent(b, build_type, player, ensure_connected, n - 1, p);
        let prev = b.valid_spots(build_type, player, ensure_connected, n - 1);
        let q = b.vertices@[n - 1].pos;
        if b.build_check(build_type, player, q, ensure_connected) is Ok {
            assert(prev.push(q).contains(p) <==> (prev.contains(p) || p == q)) by {
                if prev.push(q).contains(p) {
                    let m = choose|m: int| 0 <= m < prev.push(q).len() && prev.push(q)[m] == p;
                    if m < prev.len() {
                        assert(prev[m] == p);
                    }
                }
                if prev.contains(p) {
                    let m = choose|m: int| 0 <= m < prev.len() && prev[m] == p;
                    assert(prev.push(q)[m] == p);
                }
                if p == q {
                    assert(prev.push(q)[prev.len() as int] == p);
                }
            }
        }
        if exists|j: int| 0 <= j < n && #[trigger] b.vertices@[j].pos == p {
            let j = choose|j: int| 0 <= j < n && #[trigger] b.vertices@[j].pos == p;
            if j < n - 1 {
                assert(exists|j: int| 0 <= j < n - 1 && #[trigger] b.vertices@[j].pos == p);
            }
        }
        if exists|j: int| 0 <= j < n - 1 && #[trigger] b.vertices@[j].pos == p {
            let j = choose|j: int| 0 <= j < n - 1 && #[trigger] b.vertices@[j].pos == p;
            assert(0 <= j < n && b.vertices@[j].pos == p);
        }
    }
}

/// The list of corners around `pos` holds, for each of the first `k` unit steps that
/// lands on a corner, that corner: no more, and at most one per step.
proof fn lemma_adjacent_corners_members(b: Board, pos: Axial, k: int, u: Axial)
    requires
        b.wf(),
        0 <= k <= 6,
    ensures
        corner_at(b.adjacent_corners(pos, k), u) <==> (b.has_vertex(u) && exists|k2: int| 0 <= k2 < k
            && #[trigger] shifted(pos, k2) == u),
        b.adjacent_corners(pos, k).len() <= k,
        forall|m: int| 0 <= m < b.adjacent_corners(pos, k).len() ==> #[trigger] b.adjacent_corners(pos, k)[m]
            == b.vertex_at(b.adjacent_corners(pos, k)[m].pos),
    decreases k,
{
    if k > 0 {
        lemma_adjacent_corners_members(b, pos, k - 1, u);
        let prev = b.adjacent_corners(pos, k - 1);
        let cur = b.adjacent_corners(pos, k);
        let w = shifted(pos, k - 1);
        if b.has_vertex(w) {
            let i = b.vertex_index(w);
            assert(b.vertices@[i].pos == w);
            assert(b.vertex_at(w).pos == w);
            assert(cur == prev.push(b.vertex_at(w)));
            assert forall|m: int| 0 <= m < cur.len() implies #[trigger] cur[m] == b.vertex_at(cur[m].pos) by {
                if m < prev.len() {
                    assert(cur[m] == prev[m]);
                }
            }
            if corner_at(cur, u) {
                let m = choose|m: int| 0 <= m < cur.len() && #[trigger] cur[m].pos == u;
                if m < prev.len() {
                    assert(prev[m].pos == u);
                } else {
                    assert(u == w);
                }
            }
            if corner_at(prev, u) {
                let m = choose|m: int| 0 <= m < prev.len() && #[trigger] prev[m].pos == u;
                assert(cur[m].pos == u);
            }
            if u == w {
                assert(cur[prev.len() as int].pos == u);
            }
        }
        if exists|k2: int| 0 <= k2 < k && #[trigger] shifted(pos, k2) == u {
            let k2 = choose|k2: int| 0 <= k2 < k && #[trigger] shifted(pos, k2) == u;
            if k2 < k - 1 {
                assert(exists|k3: int| 0 <= k3 < k - 1 && #[trigger] shifted(pos, k3) == u);
            }
        }
        if exists|k2: int| 0 <= k2 < k - 1 && #[trigger] shifted(pos, k2) == u {
            let k2 = choose|k2: int| 0 <= k2 < k - 1 && #[trigger] shifted(pos, k2) == u;
            assert(0 <= k2 < k && shifted(pos, k2) == u);
        }
    }
}

/// `get_adjacent_vertices(pos)` lists at most six corners, each the board's own corner
/// at its position, and a corner is listed exactly when it is adjacent to `pos`.
pub proof fn lemma_adjacent_vertices_exact(b: Board, pos: Axial, u: Axial)
    requires
        b.wf(),
        steppable(pos),
    ensures
        b.adjacent_corners(pos, 6).len() <= 6,
        corner_at(b.adjacent_corners(pos, 6), u) <==> (b.has_vertex(u) && adjacent(pos, u)),
        forall|m: int| 0 <= m < b.adjacent_corners(pos, 6).len() ==> #[trigger] b.adjacent_corners(pos, 6)[m]
            == b.vertex_at(b.adjacent_corners(pos, 6)[m].pos),
{
    lemma_adjacent_corners_members(b, pos, 6, u);
    lemma_adjacent_iff_neighbor(pos, u);
    if adjacent(pos, u) {
        let k = choose|k: int| 0 <= k < 6 && neighbor_seq(pos)[k] == u;
        assert(shifted(pos, k) == u);
    }
    if exists|k2: int| 0 <= k2 < 6 && #[trigger] shifted(pos, k2) == u {
        let k = choose|k2: int| 0 <= k2 < 6 && #[trigger] shifted(pos, k2) == u;
        assert(neighbor_seq(pos)[k] == u);
    }
}

/// Adjacency of corners is symmetric and irreflexive: `c` is listed around corner `a`
/// exactly when `a` is listed around `c`, and no corner is listed around itself.
pub proof fn lemma_adjacent_vertices_symmetric(b: Board, a: Axial, c: Axial)
    requires
        b.wf(),
        b.has_vertex(a),
        b.has_vertex(c),
    ensures
        corner_at(b.get_adjacent_spec(a), c) <==> corner_at(b.get_adjacent_spec(c), a),
        !corner_at(b.get_adjacent_spec(a), a),
{
    let i = choose|i: int| 0 <= i < b.vertices@.len() && #[trigger] b.vertices@[i].pos == a;
    let j = choose|j: int| 0 <= j < b.vertices@.len() && #[trigger] b.vertices@[j].pos == c;
    assert(within_reach(b.vertices@[i].pos, TILE_REACH + 1));
    assert(within_reach(b.vertices@[j].pos, TILE_REACH + 1));
    lemma_adjacent_vertices_exact(b, a, c);
    lemma_adjacent_vertices_exact(b, c, a);
    lemma_adjacent_vertices_exact(b, a, a);
    if adjacent(a, c) {
        lemma_adjacent_symmetric(a, c);
    }
    if adjacent(c, a) {
        lemma_adjacent_symmetric(c, a);
    }
    if adjacent(a, a) {
        lemma_adjacent_symmetric(a, a);
    }
}

/// Two corner lists with the same positions index by position alike.
pub proof fn lemma_same_positions(vs1: Seq<Vertex>, vs2: Seq<Vertex>)
    requires
        vs1.len() == vs2.len(),
        forall|i: int| 0 <= i < vs1.len() ==> vs1[i].pos == vs2[i].pos,
    ensures
        forall|p: Axial| corner_at(vs1, p) == corner_at(vs2, p),
{
    assert forall|p: Axial| corner_at(vs1, p) == corner_at(vs2, p) by {
        if corner_at(vs1, p) {
            let i = choose|i: int| 0 <= i < vs1.len() && #[trigger] vs1[i].pos == p;
            assert(vs2[i].pos == p);
        }
        if corner_at(vs2, p) {
            let i = choose|i: int| 0 <= i < vs2.len() && #[trigger] vs2[i].pos == p;
            assert(vs1[i].pos == p);
        }
    }
}

/// Two path lists with the same keys index by key alike.
pub proof fn lemma_same_keys(es1: Seq<Edge>, es2: Seq<Edge>)
    requires
        es1.len() == es2.len(),
        forall|i: int| 0 <= i < es1.len() ==> es1[i].path_coords == es2[i].path_coords,
    ensures
        forall|pc: PathCoords| path_at(es1, pc) == path_at(es2, pc),
{
    assert forall|pc: PathCoords| path_at(es1, pc) == path_at(es2, pc) by {
        if path_at(es1, pc) {
            let i = choose|i: int| 0 <= i < es1.len() && #[trigger] es1[i].path_coords == pc;
            assert(es2[i].path_coords == pc);
        }
        if path_at(es2, pc) {
            let i = choose|i: int| 0 <= i < es2.len() && #[trigger] es2[i].path_coords == pc;
            assert(es1[i].path_coords == pc);
        }
    }
}

/// Two corners joined by a path of a well-formed board are adjacent corners of it, and
/// every two adjacent corners are joined by one.
pub proof fn lemma_graph_neighbors(b: Board, v: Axial, u: Axial)
    requires
        b.wf(),
    ensures
        b.has_edge(canonical_pair(v, u)) <==> (b.has_vertex(v) && b.has_vertex(u) && adjacent(v, u)),
{
    let pc = canonical_pair(v, u);
    if b.has_edge(pc) {
        let i = choose|i: int| 0 <= i < b.edges@.len() && #[trigger] b.edges@[i].path_coords == pc;
        assert(path_key_ok(b.vertices@, b.edges@[i].path_coords));
        if !lex_lt(v, u) {
            lemma_adjacent_symmetric(u, v);
        }
    }
    if b.has_vertex(v) && b.has_vertex(u) && adjacent(v, u) {
        lemma_adjacent_symmetric(v, u);
        assert(path_key_ok(b.vertices@, pc));
    }
}

/// Without a connection requirement, a settlement may go at `v` exactly when `v` is
/// an unowned corner and every corner joined to it by a path is unowned.
pub proof fn lemma_settlement_rule(b: Board, player: usize, v: Axial)
    requires
        b.wf(),
    ensures
        b.settlement_check(player, v, false) is Ok <==> (b.has_vertex(v) && b.vertex_at(v).owner is None
            && forall|u: Axial| #[trigger] b.has_edge(canonical_pair(v, u)) ==> b.vertex_at(u).owner is None),
{
    if b.has_vertex(v) {
        let i = choose|i: int| 0 <= i < b.vertices@.len() && #[trigger] b.vertices@[i].pos == v;
        assert(within_reach(b.vertices@[i].pos, TILE_REACH + 1));
        assert(steppable(v));
        if b.neighbor_occupied(v) {
            let k = choose|k: int| 0 <= k < 6 && #[trigger] b.has_vertex(shifted(v, k))
                && b.vertex_at(shifted(v, k)).owner is Some;
            let u = shifted(v, k);
            lemma_adjacent_iff_neighbor(v, u);
            assert(neighbor_seq(v)[k] == u);
            lemma_graph_neighbors(b, v, u);
        } else {
            assert forall|u: Axial| #[trigger] b.has_edge(canonical_pair(v, u)) implies b.vertex_at(u).owner is None by {
                lemma_graph_neighbors(b, v, u);
                lemma_adjacent_iff_neighbor(v, u);
                let k = choose|k: int| 0 <= k < 6 && neighbor_seq(v)[k] == u;
                assert(b.has_vertex(shifted(v, k)));
            }
        }
    }
}

/// After a settlement of `player` goes up at `v`, `v` holds it; a second settlement at
/// `v` is refused as already owned, and one at a corner joined to `v` by a path as
/// breaking the distance rule.
pub proof fn lemma_settlement_blocks(b: Board, after: Board, player: usize, other: usize, v: Axial, u: Axial, ensure_connected: bool, connect_again: bool)
    requires
        b.wf(),
        after.wf(),
        b.settlement_check(player, v, ensure_connected) is Ok,
        after.vertices@ == b.vertices@.update(
            b.vertex_index(v),
            Vertex { pos: v, build_type: BuildType::Settlement, owner: Some(player) },
        ),
        after.edges@ == b.edges@,
    ensures
        after.vertex_at(v).owner == Some(player),
        after.vertex_at(v).build_type == BuildType::Settlement,
        after.settlement_check(other, v, connect_again) == Err::<(), RuleError>(RuleError::AlreadyOwned),
        after.has_edge(canonical_pair(v, u)) ==> after.settlement_check(other, u, connect_again)
            == Err::<(), RuleError>(RuleError::NeighborOccupied),
{
    let i = b.vertex_index(v);
    assert(b.vertices@[i].pos == v);
    assert(after.vertices@[i].pos == v);
    after.lemma_vertex_index(i);
    if after.has_edge(canonical_pair(v, u)) {
        lemma_graph_neighbors(after, v, u);
        lemma_graph_neighbors(b, v, u);
        lemma_adjacent_symmetric(v, u);
        let j = choose|j: int| 0 <= j < after.vertices@.len() && #[trigger] after.vertices@[j].pos == u;
        after.lemma_vertex_index(j);
        assert(within_reach(after.vertices@[j].pos, TILE_REACH + 1));
        lemma_adjacent_iff_neighbor(u, v);
        let k = choose|k: int| 0 <= k < 6 && neighbor_seq(u)[k] == v;
        assert(after.has_vertex(shifted(u, k)));
        // `u` was unowned before: otherwise `v` would have had an owned neighbour.
        assert(b.vertices@[j].pos == u);
        b.lemma_vertex_index(j);
        assert(within_reach(b.vertices@[i].pos, TILE_REACH + 1));
        lemma_adjacent_iff_neighbor(v, u);
        let k2 = choose|k2: int| 0 <= k2 < 6 && neighbor_seq(v)[k2] == u;
        assert(b.has_vertex(shifted(v, k2)));
        assert(j != i);
    }
}

/// A city may go at `v` exactly on a settlement of the player's own. An empty corner
/// is refused for its build type, and another player's settlement for its owner.
pub proof fn lemma_city_rule(b: Board, player: usize, v: Axial)
    requires
        b.wf(),
    ensures
        b.city_check(player, v) is Ok <==> (b.has_vertex(v) && b.vertex_at(v).build_type == BuildType::Settlement
            && b.vertex_at(v).owner == Some(player)),
        b.has_vertex(v) && b.vertex_at(v).owner is None ==> b.city_check(player, v)
            == Err::<(), RuleError>(RuleError::WrongBuildType),
        b.has_vertex(v) && b.vertex_at(v).build_type == BuildType::Settlement && b.vertex_at(v).owner != Some(player)
            ==> b.city_check(player, v) == Err::<(), RuleError>(RuleError::NotOwnedByPlayer),
{
    if b.has_vertex(v) {
        let i = b.vertex_index(v);
        assert(b.vertices@[i].pos == v);
    }
}

} // verus!
