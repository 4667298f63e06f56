//! Axial coordinates on the triangular lattice that carries hex centres and corners.
use vstd::prelude::*;

verus! {

/// A lattice point: the centre of a hex or, by convention, one of its corners.
#[derive(Debug, PartialEq, Eq, Structural, Clone, Copy, Hash, PartialOrd, Ord)]
pub struct Axial {
    pub q: i32,
    pub r: i32,
}

/// The `q` step of the `i`-th of the six unit offsets.
pub open spec fn offset_dq(i: int) -> int {
    if i == 0 || i == 5 { 1 } else if i == 1 || i == 4 { 0 } else { -1 }
}

/// The `r` step of the `i`-th of the six unit offsets.
pub open spec fn offset_dr(i: int) -> int {
    if i == 1 || i == 2 { 1 } else if i == 0 || i == 3 { 0 } else { -1 }
}

/// Whether `(dq, dr)` is one of the six unit offsets.
pub open spec fn is_unit_offset(dq: int, dr: int) -> bool {
    exists|i: int| 0 <= i < 6 && offset_dq(i) == dq && offset_dr(i) == dr
}

/// Two lattice points one unit step apart.
pub open spec fn adjacent(a: Axial, b: Axial) -> bool {
    is_unit_offset(b.q - a.q, b.r - a.r)
}

/// A point whose unit steps stay within `i32`.
pub open spec fn steppable(a: Axial) -> bool {
    i32::MIN < a.q < i32::MAX && i32::MIN < a.r < i32::MAX
}

/// The point one unit step from `a` along offset `i`.
pub open spec fn shifted(a: Axial, i: int) -> Axial {
    Axial { q: (a.q + offset_dq(i)) as i32, r: (a.r + offset_dr(i)) as i32 }
}

/// The six neighbours of `a`, in the fixed offset order.
pub open spec fn neighbor_seq(a: Axial) -> Seq<Axial> {
    Seq::new(6, |i: int| shifted(a, i))
}

/// The total order on coordinates: by `q`, then by `r`.
pub open spec fn lex_lt(a: Axial, b: Axial) -> bool {
    a.q < b.q || (a.q == b.q && a.r < b.r)
}

/// Index of the offset opposite to offset `i`.
pub open spec fn opposite(i: int) -> int {
    (i + 3) % 6
}

impl Axial {
    pub fn new(q: i32, r: i32) -> (res: Self)
        ensures
            res.q == q,
            res.r == r,
    {
        Axial { q, r }
    }

    /// Componentwise sum.
    pub fn add(self, other: Axial) -> (res: Axial)
        requires
            i32::MIN <= self.q + other.q <= i32::MAX,
            i32::MIN <= self.r + other.r <= i32::MAX,
        ensures
            res.q == self.q + other.q,
            res.r == self.r + other.r,
    {
        Axial { q: self.q + other.q, r: self.r + other.r }
    }

    /// Whether `self` comes before `other` in the coordinate order.
    pub fn less_than(&self, other: &Axial) -> (res: bool)
        ensures
            res == lex_lt(*self, *other),
    {
        self.q < other.q || (self.q == other.q && self.r < other.r)
    }
}

/// The `i`-th of the six unit offsets.
pub fn offset(i: usize) -> (res: Axial)
    requires
        i < 6,
    ensures
        res.q == offset_dq(i as int),
        res.r == offset_dr(i as int),
{
    if i == 0 {
        Axial::new(1, 0)
    } else if i == 1 {
        Axial::new(0, 1)
    } else if i == 2 {
        Axial::new(-1, 1)
    } else if i == 3 {
        Axial::new(-1, 0)
    } else if i == 4 {
        Axial::new(0, -1)
    } else {
        Axial::new(1, -1)
    }
}

/// The point one unit step from `a` along offset `i`.
pub fn step(a: Axial, i: usize) -> (res: Axial)
    requires
        i < 6,
        steppable(a),
    ensures
        res == shifted(a, i as int),
        adjacent(a, res),
{
    let res = a.add(offset(i));
    assert(offset_dq(i as int) == res.q - a.q && offset_dr(i as int) == res.r - a.r);
    res
}

/// `a` plus each of the six unit offsets, in the fixed offset order.
pub fn neighbors(a: Axial) -> (res: [Axial; 6])
    requires
        steppable(a),
    ensures
        res@ == neighbor_seq(a),
{
    let res = [step(a, 0), step(a, 1), step(a, 2), step(a, 3), step(a, 4), step(a, 5)];
    assert(res@ =~= neighbor_seq(a));
    res
}

/// Whether `a` and `b` are one unit step apart.
pub fn are_adjacent(a: Axial, b: Axial) -> (res: bool)
    ensures
        res == adjacent(a, b),
{
    let dq = b.q as i64 - a.q as i64;
    let dr = b.r as i64 - a.r as i64;
    let res = (dq == 1 && dr == 0) || (dq == 0 && dr == 1) || (dq == -1 && dr == 1) || (dq == -1 && dr == 0)
        || (dq == 0 && dr == -1) || (dq == 1 && dr == -1);
    proof {
        if res {
            if dq == 1 && dr == 0 {
                assert(offset_dq(0) == dq && offset_dr(0) == dr);
            } else if dq == 0 && dr == 1 {
                assert(offset_dq(1) == dq && offset_dr(1) == dr);
            } else if dq == -1 && dr == 1 {
                assert(offset_dq(2) == dq && offset_dr(2) == dr);
            } else if dq == -1 && dr == 0 {
                assert(offset_dq(3) == dq && offset_dr(3) == dr);
            } else if dq == 0 && dr == -1 {
                assert(offset_dq(4) == dq && offset_dr(4) == dr);
            } else {
                assert(offset_dq(5) == dq && offset_dr(5) == dr);
            }
        }
    }
    res
}

/// Adjacency is the six unit steps: `b` is adjacent to `a` exactly when it is one of
/// `a`'s neighbours.
pub proof fn lemma_adjacent_iff_neighbor(a: Axial, b: Axial)
    requires
        steppable(a),
    ensures
        adjacent(a, b) <==> neighbor_seq(a).contains(b),
{
    if adjacent(a, b) {
        let i = choose|i: int| 0 <= i < 6 && offset_dq(i) == b.q - a.q && offset_dr(i) == b.r - a.r;
        assert(neighbor_seq(a)[i] == b);
    }
    if neighbor_seq(a).contains(b) {
        let i = choose|i: int| 0 <= i < 6 && neighbor_seq(a)[i] == b;
        assert(offset_dq(i) == b.q - a.q && offset_dr(i) == b.r - a.r);
    }
}

/// Every point has six distinct neighbours, and adjacency is symmetric: `a` is a
/// neighbour of each of its neighbours.
pub proof fn lemma_neighbors_distinct_and_symmetric(a: Axial)
    requires
        i32::MIN + 1 < a.q < i32::MAX - 1,
        i32::MIN + 1 < a.r < i32::MAX - 1,
    ensures
        neighbor_seq(a).len() == 6,
        neighbor_seq(a).no_duplicates(),
        forall|i: int| 0 <= i < 6 ==> neighbor_seq(neighbor_seq(a)[i]).contains(a),
        forall|i: int| 0 <= i < 6 ==> adjacent(a, #[trigger] neighbor_seq(a)[i]) && adjacent(neighbor_seq(a)[i], a),
{
    assert forall|i: int| 0 <= i < 6 implies neighbor_seq(neighbor_seq(a)[i]).contains(a)
        && adjacent(a, #[trigger] neighbor_seq(a)[i]) && adjacent(neighbor_seq(a)[i], a) by {
        let n = neighbor_seq(a)[i];
        let j = opposite(i);
        assert(neighbor_seq(n)[j] == a);
        assert(offset_dq(i) == n.q - a.q && offset_dr(i) == n.r - a.r);
        assert(offset_dq(j) == a.q - n.q && offset_dr(j) == a.r - n.r);
    }
}

} // verus!
