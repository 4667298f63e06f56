//! The board graph: tiles, corners, paths, harbors and the robber.
use vstd::prelude::*;
use crate::axial::{
    Axial, adjacent, lex_lt, shifted, neighbor_seq, step, lemma_adjacent_iff_neighbor,
    offset_dq, offset_dr,
};
use crate::edge::{Edge, PathCoords, PathType, canonical_pair};
use crate::harbor::Harbor;
use crate::hex::Hex;
use crate::resource::Resource;
use crate::vertex::{BuildType, Vertex};

verus! {

/// The spatial state of a game.
#[derive(Debug)]
pub struct Board {
    pub hexes: Vec<Hex>,
    pub edges: Vec<Edge>,
    pub vertices: Vec<Vertex>,
    pub harbors: Vec<Harbor>,
    pub robber: Axial,
}

/// Largest number of tiles in a layout.
pub const MAX_HEXES: usize = 64;

/// Largest coordinate magnitude of a tile.
pub const TILE_REACH: i32 = 1000;

/// Both coordinates of `a` lie in `[-bound, bound]`.
pub open spec fn within_reach(a: Axial, bound: int) -> bool {
    -bound <= a.q <= bound && -bound <= a.r <= bound
}

/// Residue of `q - r` modulo three: zero on tile centres, nonzero on corners.
pub open spec fn lattice_class(a: Axial) -> int {
    (a.q - a.r) % 3
}

/// Index `i` holds the one desert (token 0) of `hs`.
pub open spec fn sole_desert(hs: Seq<Hex>, i: int) -> bool {
    &&& 0 <= i < hs.len()
    &&& hs[i].number == 0
    &&& forall|j: int| 0 <= j < hs.len() && #[trigger] hs[j].number == 0 ==> j == i
}

/// A tile layout the board can be built from: distinct tile centres on the centre
/// sublattice, within reach, with exactly one desert.
pub open spec fn layout_ok(hs: Seq<Hex>) -> bool {
    &&& hs.len() <= MAX_HEXES
    &&& forall|i: int, j: int| 0 <= i < j < hs.len() ==> hs[i].pos != hs[j].pos
    &&& forall|i: int| 0 <= i < hs.len() ==> within_reach(#[trigger] hs[i].pos, TILE_REACH as int)
    &&& forall|i: int| 0 <= i < hs.len() ==> lattice_class(#[trigger] hs[i].pos) == 0
    &&& exists|i: int| sole_desert(hs, i)
}

/// Some corner in `vs` stands at `p`.
pub open spec fn corner_at(vs: Seq<Vertex>, p: Axial) -> bool {
    exists|i: int| 0 <= i < vs.len() && #[trigger] vs[i].pos == p
}

/// Some path in `es` has the key `pc`.
pub open spec fn path_at(es: Seq<Edge>, pc: PathCoords) -> bool {
    exists|i: int| 0 <= i < es.len() && #[trigger] es[i].path_coords == pc
}

/// Some tile in `hs` has its centre at `p`.
pub open spec fn tile_at(hs: Seq<Hex>, p: Axial) -> bool {
    exists|i: int| 0 <= i < hs.len() && #[trigger] hs[i].pos == p
}

/// One of the first `n` tiles of `hs` has `p` as a corner.
pub open spec fn corner_of_some(hs: Seq<Hex>, n: int, p: Axial) -> bool {
    exists|j: int| 0 <= j < n && adjacent(#[trigger] hs[j].pos, p)
}

/// No two corners of `vs` share a position.
pub open spec fn corners_unique(vs: Seq<Vertex>) -> bool {
    forall|i: int, j: int| 0 <= i < vs.len() && 0 <= j < vs.len() && vs[i].pos == vs[j].pos ==> i == j
}

/// No two paths of `es` share a key.
pub open spec fn paths_unique(es: Seq<Edge>) -> bool {
    forall|i: int, j: int|
        0 <= i < es.len() && 0 <= j < es.len() && es[i].path_coords == es[j].path_coords ==> i == j
}

/// No two tiles of `hs` share a position.
pub open spec fn tiles_unique(hs: Seq<Hex>) -> bool {
    forall|i: int, j: int| 0 <= i < hs.len() && 0 <= j < hs.len() && hs[i].pos == hs[j].pos ==> i == j
}

/// A path key whose endpoints are two adjacent corners of `vs`, smaller one first.
pub open spec fn path_key_ok(vs: Seq<Vertex>, pc: PathCoords) -> bool {
    &&& lex_lt(pc.a, pc.b)
    &&& adjacent(pc.a, pc.b)
    &&& corner_at(vs, pc.a)
    &&& corner_at(vs, pc.b)
}

/// The nonempty offsets are closed under negation.
pub proof fn lemma_adjacent_symmetric(a: Axial, b: Axial)
    requires
        adjacent(a, b),
    ensures
        adjacent(b, a),
        a != b,
{
    let i = choose|i: int| 0 <= i < 6 && offset_dq(i) == b.q - a.q && offset_dr(i) == b.r - a.r;
    let j = (i + 3) % 6;
    assert(offset_dq(j) == a.q - b.q && offset_dr(j) == a.r - b.r);
}

/// Pushing a corner adds exactly its position to the positions held.
proof fn lemma_push_corner(vs: Seq<Vertex>, v: Vertex)
    ensures
        forall|p: Axial| corner_at(vs.push(v), p) <==> (corner_at(vs, p) || v.pos == p),
{
    assert forall|p: Axial| corner_at(vs.push(v), p) <==> (corner_at(vs, p) || v.pos == p) by {
        if corner_at(vs.push(v), p) {
            let i = choose|i: int| 0 <= i < vs.push(v).len() && #[trigger] vs.push(v)[i].pos == p;
            if i < vs.len() {
                assert(vs[i].pos == p);
            }
        }
        if corner_at(vs, p) {
            let i = choose|i: int| 0 <= i < vs.len() && #[trigger] vs[i].pos == p;
            assert(vs.push(v)[i].pos == p);
        }
        if v.pos == p {
            assert(vs.push(v)[vs.len() as int].pos == p);
        }
    }
}

/// Pushing a path adds exactly its key to the keys held.
proof fn lemma_push_path(es: Seq<Edge>, e: Edge)
    ensures
        forall|pc: PathCoords| path_at(es.push(e), pc) <==> (path_at(es, pc) || e.path_coords == pc),
{
    assert forall|pc: PathCoords| path_at(es.push(e), pc) <==> (path_at(es, pc) || e.path_coords == pc) by {
        if path_at(es.push(e), pc) {
            let i = choose|i: int| 0 <= i < es.push(e).len() && #[trigger] es.push(e)[i].path_coords == pc;
            if i < es.len() {
                assert(es[i].path_coords == pc);
            }
        }
        if path_at(es, pc) {
            let i = choose|i: int| 0 <= i < es.len() && #[trigger] es[i].path_coords == pc;
            assert(es.push(e)[i].path_coords == pc);
        }
        if e.path_coords == pc {
            assert(es.push(e)[es.len() as int].path_coords == pc);
        }
    }
}

/// Index of the corner at `p` in `vs`, if any.
pub fn find_corner(vs: &Vec<Vertex>, p: Axial) -> (res: Option<usize>)
    ensures
        match res {
            Some(i) => i < vs@.len() && vs@[i as int].pos == p,
            None => !corner_at(vs@, p),
        },
{
    let mut i: usize = 0;
    while i < vs.len()
        invariant
            i <= vs@.len(),
            forall|j: int| 0 <= j < i ==> vs@[j].pos != p,
        decreases vs@.len() - i,
    {
        if vs[i].pos == p {
            return Some(i);
        }
        i += 1;
    }
    None
}

/// Index of the path with key `pc` in `es`, if any.
pub fn find_path(es: &Vec<Edge>, pc: PathCoords) -> (res: Option<usize>)
    ensures
        match res {
            Some(i) => i < es@.len() && es@[i as int].path_coords == pc,
            None => !path_at(es@, pc),
        },
{
    let mut i: usize = 0;
    while i < es.len()
        invariant
            i <= es@.len(),
            forall|j: int| 0 <= j < i ==> es@[j].path_coords != pc,
        decreases es@.len() - i,
    {
        if es[i].path_coords == pc {
            return Some(i);
        }
        i += 1;
    }
    None
}

/// Index of the tile at `p` in `hs`, if any.
pub fn find_tile(hs: &Vec<Hex>, p: Axial) -> (res: Option<usize>)
    ensures
        match res {
            Some(i) => i < hs@.len() && hs@[i as int].pos == p,
            None => !tile_at(hs@, p),
        },
{
    let mut i: usize = 0;
    while i < hs.len()
        invariant
            i <= hs@.len(),
            forall|j: int| 0 <= j < i ==> hs@[j].pos != p,
        decreases hs@.len() - i,
    {
        if hs[i].pos == p {
            return Some(i);
        }
        i += 1;
    }
    None
}

/// The corners of the tiles of `layout`, each once, all unowned.
fn collect_corners(layout: &Vec<Hex>) -> (vertices: Vec<Vertex>)
    requires
        layout_ok(layout@),
    ensures
        vertices@.len() <= 6 * layout@.len(),
        corners_unique(vertices@),
        forall|i: int| 0 <= i < vertices@.len() ==> (#[trigger] vertices@[i]).owner is None
            && vertices@[i].build_type == BuildType::Empty,
        forall|i: int| 0 <= i < vertices@.len() ==> within_reach(#[trigger] vertices@[i].pos, TILE_REACH + 1)
            && lattice_class(vertices@[i].pos) != 0,
        forall|p: Axial| corner_at(vertices@, p) <==> corner_of_some(layout@, layout@.len() as int, p),
{
    let mut vertices: Vec<Vertex> = Vec::new();
    let mut h: usize = 0;
    while h < layout.len()
        invariant
            h <= layout@.len(),
            layout_ok(layout@),
            vertices@.len() <= 6 * h,
            corners_unique(vertices@),
            forall|i: int| 0 <= i < vertices@.len() ==> (#[trigger] vertices@[i]).owner is None
                && vertices@[i].build_type == BuildType::Empty,
            forall|i: int| 0 <= i < vertices@.len() ==> within_reach(#[trigger] vertices@[i].pos, TILE_REACH + 1)
                && lattice_class(vertices@[i].pos) != 0,
            forall|p: Axial| corner_at(vertices@, p) <==> corner_of_some(layout@, h as int, p),
        decreases layout@.len() - h,
    {
        let c = layout[h].pos;
        assert(within_reach(layout@[h as int].pos, TILE_REACH as int));
        assert(lattice_class(layout@[h as int].pos) == 0);
        let mut k: usize = 0;
        while k < 6
            invariant
                h < layout@.len(),
                c == layout@[h as int].pos,
                within_reach(c, TILE_REACH as int),
                lattice_class(c) == 0,
                k <= 6,
                vertices@.len() <= 6 * h + k,
                corners_unique(vertices@),
                forall|i: int| 0 <= i < vertices@.len() ==> (#[trigger] vertices@[i]).owner is None
                    && vertices@[i].build_type == BuildType::Empty,
                forall|i: int| 0 <= i < vertices@.len() ==> within_reach(#[trigger] vertices@[i].pos, TILE_REACH + 1)
                    && lattice_class(vertices@[i].pos) != 0,
                forall|p: Axial| corner_at(vertices@, p) <==> (corner_of_some(layout@, h as int, p)
                    || exists|m: int| 0 <= m < k && p == #[trigger] shifted(c, m)),
            decreases 6 - k,
        {
            let p = step(c, k);
            let ghost before = vertices@;
            let found = find_corner(&vertices, p);
            if let Some(i) = found {
                assert(vertices@[i as int].pos == p);
                assert(corner_at(vertices@, p));
            } else {
                let v = Vertex::new(p, BuildType::Empty);
                vertices.push(v);
                proof {
                    lemma_push_corner(before, v);
                }
            }
            assert(forall|p2: Axial| corner_at(vertices@, p2) <==> (corner_at(before, p2) || p2 == p));
            assert forall|p2: Axial| corner_at(vertices@, p2) <==> (corner_of_some(layout@, h as int, p2)
                || exists|m: int| 0 <= m < k + 1 && p2 == #[trigger] shifted(c, m)) by {
                if p2 == p {
                    assert(shifted(c, k as int) == p2);
                }
                if corner_at(before, p2) {
                    if exists|m: int| 0 <= m < k && p2 == #[trigger] shifted(c, m) {
                        let m = choose|m: int| 0 <= m < k && p2 == #[trigger] shifted(c, m);
                        assert(0 <= m < k + 1 && p2 == shifted(c, m));
                    }
                }
                if exists|m: int| 0 <= m < k + 1 && p2 == #[trigger] shifted(c, m) {
                    let m = choose|m: int| 0 <= m < k + 1 && p2 == #[trigger] shifted(c, m);
                    if m < k {
                        assert(exists|m: int| 0 <= m < k && p2 == #[trigger] shifted(c, m));
                    }
                }
            }
            k += 1;
        }
        assert forall|p: Axial| corner_at(vertices@, p) <==> corner_of_some(layout@, h + 1, p) by {
            lemma_adjacent_iff_neighbor(c, p);
            if exists|m: int| 0 <= m < 6 && p == #[trigger] shifted(c, m) {
                let m = choose|m: int| 0 <= m < 6 && p == #[trigger] shifted(c, m);
                assert(neighbor_seq(c)[m] == p);
                assert(adjacent(layout@[h as int].pos, p));
            }
            if adjacent(c, p) {
                let m = choose|m: int| 0 <= m < 6 && neighbor_seq(c)[m] == p;
                assert(p == shifted(c, m));
            }
            if corner_of_some(layout@, h + 1, p) {
                let j = choose|j: int| 0 <= j < h + 1 && adjacent(#[trigger] layout@[j].pos, p);
                if j < h {
                    assert(corner_of_some(layout@, h as int, p));
                }
            }
            if corner_of_some(layout@, h as int, p) {
                let j = choose|j: int| 0 <= j < h && adjacent(#[trigger] layout@[j].pos, p);
                assert(adjacent(layout@[j].pos, p));
            }
        }
        h += 1;
    }
    vertices
}

/// Every pair of adjacent corners of `vs`, each once under its canonical key, all unowned.
fn collect_paths(vs: &Vec<Vertex>) -> (es: Vec<Edge>)
    requires
        corners_unique(vs@),
        forall|i: int| 0 <= i < vs@.len() ==> within_reach(#[trigger] vs@[i].pos, TILE_REACH + 1),
    ensures
        es@.len() <= 6 * vs@.len(),
        paths_unique(es@),
        forall|i: int| 0 <= i < es@.len() ==> (#[trigger] es@[i]).owner is None
            && es@[i].path_type == PathType::Empty,
        forall|i: int| 0 <= i < es@.len() ==> path_key_ok(vs@, (#[trigger] es@[i]).path_coords),
        forall|pc: PathCoords| path_key_ok(vs@, pc) ==> path_at(es@, pc),
{
    let mut es: Vec<Edge> = Vec::new();
    let mut j: usize = 0;
    while j < vs.len()
        invariant
            j <= vs@.len(),
            corners_unique(vs@),
            forall|i: int| 0 <= i < vs@.len() ==> within_reach(#[trigger] vs@[i].pos, TILE_REACH + 1),
            es@.len() <= 6 * j,
            paths_unique(es@),
            forall|i: int| 0 <= i < es@.len() ==> (#[trigger] es@[i]).owner is None
                && es@[i].path_type == PathType::Empty,
            forall|i: int| 0 <= i < es@.len() ==> path_key_ok(vs@, (#[trigger] es@[i]).path_coords),
            forall|j2: int, k2: int| 0 <= j2 < j && 0 <= k2 < 6
                && corner_at(vs@, #[trigger] shifted(vs@[j2].pos, k2))
                ==> path_at(es@, canonical_pair(vs@[j2].pos, shifted(vs@[j2].pos, k2))),
        decreases vs@.len() - j,
    {
        let v = vs[j].pos;
        assert(within_reach(vs@[j as int].pos, TILE_REACH + 1));
        let mut k: usize = 0;
        while k < 6
            invariant
                j < vs@.len(),
                v == vs@[j as int].pos,
                within_reach(v, TILE_REACH + 1),
                k <= 6,
                corners_unique(vs@),
                es@.len() <= 6 * j + k,
                paths_unique(es@),
                forall|i: int| 0 <= i < es@.len() ==> (#[trigger] es@[i]).owner is None
                    && es@[i].path_type == PathType::Empty,
                forall|i: int| 0 <= i < es@.len() ==> path_key_ok(vs@, (#[trigger] es@[i]).path_coords),
                forall|j2: int, k2: int| 0 <= j2 < j && 0 <= k2 < 6
                    && corner_at(vs@, #[trigger] shifted(vs@[j2].pos, k2))
                    ==> path_at(es@, canonical_pair(vs@[j2].pos, shifted(vs@[j2].pos, k2))),
                forall|k2: int| 0 <= k2 < k && corner_at(vs@, #[trigger] shifted(v, k2))
                    ==> path_at(es@, canonical_pair(v, shifted(v, k2))),
            decreases 6 - k,
        {
            let w = step(v, k);
            let ghost before = es@;
            if let Some(wi) = find_corner(vs, w) {
                let pc = PathCoords::new(v, w);
                proof {
                    lemma_adjacent_symmetric(v, w);
                    assert(corner_at(vs@, w));
                    assert(corner_at(vs@, v)) by {
                        assert(vs@[j as int].pos == v);
                    }
                }
                assert(path_key_ok(vs@, pc));
                if let Some(ei) = find_path(&es, pc) {
                    assert(es@[ei as int].path_coords == pc);
                } else {
                    let e = Edge::new(pc, PathType::Empty);
                    es.push(e);
                    proof {
                        lemma_push_path(before, e);
                        assert(es@[es@.len() - 1].path_coords == pc);
                    }
                }
                assert(path_at(es@, pc));
            }
            assert(forall|pc2: PathCoords| path_at(before, pc2) ==> path_at(es@, pc2)) by {
                assert forall|pc2: PathCoords| path_at(before, pc2) implies path_at(es@, pc2) by {
                    let i = choose|i: int| 0 <= i < before.len() && #[trigger] before[i].path_coords == pc2;
                    assert(es@[i].path_coords == pc2);
                }
            }
            k += 1;
        }
        j += 1;
    }
    assert forall|pc: PathCoords| path_key_ok(vs@, pc) implies path_at(es@, pc) by {
        let j2 = choose|j2: int| 0 <= j2 < vs@.len() && #[trigger] vs@[j2].pos == pc.a;
        lemma_adjacent_iff_neighbor(pc.a, pc.b);
        let k2 = choose|k2: int| 0 <= k2 < 6 && neighbor_seq(pc.a)[k2] == pc.b;
        assert(shifted(vs@[j2].pos, k2) == pc.b);
        assert(canonical_pair(pc.a, pc.b) == pc);
    }
    es
}

/// The standard map: eighteen producing tiles around a central desert.
pub open spec fn standard_tiles() -> Seq<Hex> {
    seq![
        Hex { resource_type: Resource::Ore, number: 10i32, pos: Axial { q: 4i32, r: -2i32 } },
        Hex { resource_type: Resource::Sheep, number: 2i32, pos: Axial { q: 3i32, r: 0i32 } },
        Hex { resource_type: Resource::Wood, number: 9i32, pos: Axial { q: 2i32, r: 2i32 } },
        Hex { resource_type: Resource::Wheat, number: 12i32, pos: Axial { q: 3i32, r: -3i32 } },
        Hex { resource_type: Resource::Brick, number: 6i32, pos: Axial { q: 2i32, r: -1i32 } },
        Hex { resource_type: Resource::Sheep, number: 4i32, pos: Axial { q: 1i32, r: 1i32 } },
        Hex { resource_type: Resource::Brick, number: 10i32, pos: Axial { q: 0i32, r: 3i32 } },
        Hex { resource_type: Resource::Wheat, number: 9i32, pos: Axial { q: 2i32, r: -4i32 } },
        Hex { resource_type: Resource::Wood, number: 11i32, pos: Axial { q: 1i32, r: -2i32 } },
        Hex { resource_type: Resource::Nothing, number: 0i32, pos: Axial { q: 0i32, r: 0i32 } },
        Hex { resource_type: Resource::Wood, number: 3i32, pos: Axial { q: -1i32, r: 2i32 } },
        Hex { resource_type: Resource::Ore, number: 8i32, pos: Axial { q: -2i32, r: 4i32 } },
        Hex { resource_type: Resource::Wood, number: 8i32, pos: Axial { q: 0i32, r: -3i32 } },
        Hex { resource_type: Resource::Ore, number: 3i32, pos: Axial { q: -1i32, r: -1i32 } },
        Hex { resource_type: Resource::Wheat, number: 4i32, pos: Axial { q: -2i32, r: 1i32 } },
        Hex { resource_type: Resource::Sheep, number: 5i32, pos: Axial { q: -3i32, r: 3i32 } },
        Hex { resource_type: Resource::Brick, number: 5i32, pos: Axial { q: -2i32, r: -2i32 } },
        Hex { resource_type: Resource::Wheat, number: 6i32, pos: Axial { q: -3i32, r: 0i32 } },
        Hex { resource_type: Resource::Sheep, number: 11i32, pos: Axial { q: -4i32, r: 2i32 } },
    ]
}

/// The tile at `(q, r)` with product `kind` and token `number`.
fn tile(q: i32, r: i32, kind: Resource, number: i32) -> (res: Hex)
    ensures
        res == (Hex { resource_type: kind, number, pos: Axial { q, r } }),
{
    Hex { resource_type: kind, number, pos: Axial::new(q, r) }
}

/// The standard map: eighteen producing tiles around a central desert.
pub fn standard_layout() -> (layout: Vec<Hex>)
    ensures
        layout@ == standard_tiles(),
        layout@.len() == 19,
        layout_ok(layout@),
{
    let mut layout: Vec<Hex> = Vec::new();
    layout.push(tile(4, -2, Resource::Ore, 10));
    layout.push(tile(3, 0, Resource::Sheep, 2));
    layout.push(tile(2, 2, Resource::Wood, 9));
    layout.push(tile(3, -3, Resource::Wheat, 12));
    layout.push(tile(2, -1, Resource::Brick, 6));
    layout.push(tile(1, 1, Resource::Sheep, 4));
    layout.push(tile(0, 3, Resource::Brick, 10));
    layout.push(tile(2, -4, Resource::Wheat, 9));
    layout.push(tile(1, -2, Resource::Wood, 11));
    layout.push(tile(0, 0, Resource::Nothing, 0));
    layout.push(tile(-1, 2, Resource::Wood, 3));
    layout.push(tile(-2, 4, Resource::Ore, 8));
    layout.push(tile(0, -3, Resource::Wood, 8));
    layout.push(tile(-1, -1, Resource::Ore, 3));
    layout.push(tile(-2, 1, Resource::Wheat, 4));
    layout.push(tile(-3, 3, Resource::Sheep, 5));
    layout.push(tile(-2, -2, Resource::Brick, 5));
    layout.push(tile(-3, 0, Resource::Wheat, 6));
    layout.push(tile(-4, 2, Resource::Sheep, 11));
    proof {
        let hs = layout@;
        assert(sole_desert(hs, 9));
        assert(hs =~= standard_tiles());
    }
    layout
}

impl Board {
    /// A corner of this board stands at `p`.
    pub open spec fn has_vertex(&self, p: Axial) -> bool {
        corner_at(self.vertices@, p)
    }

    /// The index of the corner at `p` (meaningful where `has_vertex(p)`).
    pub open spec fn vertex_index(&self, p: Axial) -> int {
        choose|i: int| 0 <= i < self.vertices@.len() && self.vertices@[i].pos == p
    }

    /// The corner at `p` (meaningful where `has_vertex(p)`).
    pub open spec fn vertex_at(&self, p: Axial) -> Vertex {
        self.vertices@[self.vertex_index(p)]
    }

    /// A path of this board has the key `pc`.
    pub open spec fn has_edge(&self, pc: PathCoords) -> bool {
        path_at(self.edges@, pc)
    }

    /// The index of the path with key `pc` (meaningful where `has_edge(pc)`).
    pub open spec fn edge_index(&self, pc: PathCoords) -> int {
        choose|i: int| 0 <= i < self.edges@.len() && self.edges@[i].path_coords == pc
    }

    /// The path with key `pc` (meaningful where `has_edge(pc)`).
    pub open spec fn edge_at(&self, pc: PathCoords) -> Edge {
        self.edges@[self.edge_index(pc)]
    }

    /// The board's invariant: unique keys, corners within reach, paths between
    /// adjacent corners under their canonical key, ownership matching what stands
    /// there, and the robber on a tile.
    pub open spec fn wf(&self) -> bool {
        &&& self.hexes@.len() <= MAX_HEXES
        &&& self.vertices@.len() <= 6 * MAX_HEXES
        &&& tiles_unique(self.hexes@)
        &&& corners_unique(self.vertices@)
        &&& paths_unique(self.edges@)
        &&& forall|i: int| 0 <= i < self.vertices@.len()
            ==> within_reach(#[trigger] self.vertices@[i].pos, TILE_REACH + 1)
        &&& forall|i: int| 0 <= i < self.vertices@.len()
            ==> ((#[trigger] self.vertices@[i]).owner is Some) == (self.vertices@[i].build_type != BuildType::Empty)
        &&& forall|i: int| 0 <= i < self.edges@.len()
            ==> (#[trigger] self.edges@[i]).path_type == PathType::Road ==> self.edges@[i].owner is Some
        &&& forall|i: int| 0 <= i < self.edges@.len()
            ==> path_key_ok(self.vertices@, (#[trigger] self.edges@[i]).path_coords)
        &&& forall|pc: PathCoords| #[trigger] path_key_ok(self.vertices@, pc) ==> path_at(self.edges@, pc)
        &&& tile_at(self.hexes@, self.robber)
    }

    /// The positions joined to `v` by a path of this board.
    pub open spec fn edge_partners(&self, v: Axial) -> Set<Axial> {
        Set::new(|u: Axial| self.has_edge(canonical_pair(v, u)))
    }

    /// Every corner lies off the sublattice of tile centres.
    pub open spec fn corners_off_centres(&self) -> bool {
        forall|i: int| 0 <= i < self.vertices@.len() ==> lattice_class(#[trigger] self.vertices@[i].pos) != 0
    }

    /// The board of `layout`: its tiles; as corners, every point adjacent to a tile,
    /// once each; as paths, every pair of adjacent corners, once each; all unowned;
    /// the robber on the desert.
    pub fn from_layout(layout: Vec<Hex>) -> (res: Board)
        requires
            layout_ok(layout@),
        ensures
            res.wf(),
            res.corners_off_centres(),
            res.hexes@ == layout@,
            res.harbors@.len() == 0,
            exists|i: int| sole_desert(layout@, i) && res.robber == layout@[i].pos,
            forall|p: Axial| res.has_vertex(p) <==> corner_of_some(layout@, layout@.len() as int, p),
            forall|pc: PathCoords| res.has_edge(pc) <==> path_key_ok(res.vertices@, pc),
            forall|i: int| 0 <= i < res.vertices@.len() ==> (#[trigger] res.vertices@[i]).owner is None,
            forall|i: int| 0 <= i < res.edges@.len() ==> (#[trigger] res.edges@[i]).owner is None
                && res.edges@[i].path_type == PathType::Empty,
    {
        let vertices = collect_corners(&layout);
        let edges = collect_paths(&vertices);
        let mut robber = Axial::new(0, 0);
        let mut h: usize = 0;
        let ghost d = choose|i: int| sole_desert(layout@, i);
        while h < layout.len()
            invariant
                h <= layout@.len(),
                sole_desert(layout@, d),
                h > d ==> robber == layout@[d].pos,
            decreases layout@.len() - h,
        {
            if layout[h].number == 0 {
                robber = layout[h].pos;
            }
            h += 1;
        }
        assert(tile_at(layout@, robber)) by {
            assert(layout@[d].pos == robber);
        }
        assert forall|pc: PathCoords| path_at(edges@, pc) implies path_key_ok(vertices@, pc) by {
            let i = choose|i: int| 0 <= i < edges@.len() && #[trigger] edges@[i].path_coords == pc;
            assert(path_key_ok(vertices@, edges@[i].path_coords));
        }
        Board { hexes: layout, edges, vertices, harbors: Vec::new(), robber }
    }

    /// The board of the standard map.
    pub fn new() -> (res: Board)
        ensures
            res.wf(),
            res.corners_off_centres(),
            res.hexes@ == standard_tiles(),
            res.hexes@.len() == 19,
            res.harbors@.len() == 0,
            exists|i: int| sole_desert(res.hexes@, i) && res.robber == res.hexes@[i].pos,
            res.robber == (Axial { q: 0, r: 0 }),
            forall|p: Axial| res.has_vertex(p) <==> corner_of_some(res.hexes@, 19, p),
            forall|pc: PathCoords| res.has_edge(pc) <==> path_key_ok(res.vertices@, pc),
            forall|i: int| 0 <= i < res.vertices@.len() ==> (#[trigger] res.vertices@[i]).owner is None,
            forall|i: int| 0 <= i < res.edges@.len() ==> (#[trigger] res.edges@[i]).owner is None,
    {
        let res = Board::from_layout(standard_layout());
        proof {
            let d = choose|i: int| sole_desert(res.hexes@, i) && res.robber == res.hexes@[i].pos;
            assert(res.hexes@[9].number == 0);
            assert(d == 9);
        }
        res
    }
}

/// On a board whose corners all lie off the centre sublattice, every corner has at
/// most three paths (the corner property of a hex grid), and every path joins two
/// adjacent corners of the board.
pub proof fn lemma_corner_degree(b: Board, v: Axial)
    requires
        b.wf(),
        b.corners_off_centres(),
    ensures
        b.edge_partners(v).finite(),
        b.edge_partners(v).len() <= 3,
        forall|u: Axial| #[trigger] b.edge_partners(v).contains(u) ==> b.has_vertex(v) && b.has_vertex(u)
            && adjacent(v, u),
{
    let partners = b.edge_partners(v);
    assert forall|u: Axial| #[trigger] partners.contains(u) implies b.has_vertex(v) && b.has_vertex(u)
        && adjacent(v, u) by {
        let pc = canonical_pair(v, u);
        let i = choose|i: int| 0 <= i < b.edges@.len() && #[trigger] b.edges@[i].path_coords == pc;
        assert(path_key_ok(b.vertices@, b.edges@[i].path_coords));
        if !lex_lt(v, u) {
            lemma_adjacent_symmetric(u, v);
        }
    }
    let c = (v.q - v.r) % 3;
    let trio = if c == 1 {
        Set::empty().insert(shifted(v, 0)).insert(shifted(v, 2)).insert(shifted(v, 4))
    } else {
        Set::empty().insert(shifted(v, 1)).insert(shifted(v, 3)).insert(shifted(v, 5))
    };
    if partners.len() > 0 || !partners.finite() {
        assert forall|u: Axial| partners.contains(u) implies trio.contains(u) by {
            let j = choose|j: int| 0 <= j < b.vertices@.len() && #[trigger] b.vertices@[j].pos == u;
            let i = choose|i: int| 0 <= i < b.vertices@.len() && #[trigger] b.vertices@[i].pos == v;
            assert(lattice_class(b.vertices@[j].pos) != 0);
            assert(lattice_class(b.vertices@[i].pos) != 0);
            let k = choose|k: int| 0 <= k < 6 && offset_dq(k) == u.q - v.q && offset_dr(k) == u.r - v.r;
            assert(u == shifted(v, k));
        }
        vstd::set_lib::lemma_len_subset(partners, trio);
    } else {
        vstd::set_lib::lemma_len_subset(partners, Set::<Axial>::empty());
    }
}

} // verus!
