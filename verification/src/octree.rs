//! Sparse octrees over a chunk of 32x32x32 voxels, and the coordinates and
//! octants used to walk them.
//!
//! A chunk coordinate is walked from the root down: at level `i` (0 being the
//! root) the octant taken on each axis is bit `4 - i` of that axis' value, so
//! the five octants of a coordinate spell its three values in binary, most
//! significant bit first.
use vstd::prelude::*;
use vstd::string::StringExecFns;

use crate::error::EngineError;

verus! {

// ---------------------------------------------------------------------------
// Mathematical model
// ---------------------------------------------------------------------------

/// Position of an octant among the eight children of a node: the x half
/// counts 1, the y half 2 and the z half 4.
pub open spec fn octant_index(o: (bool, bool, bool)) -> int {
    (if o.0 { 1int } else { 0int }) + (if o.1 { 2int } else { 0int }) + (if o.2 { 4int } else { 0int })
}

/// Whether bit `k` of `v` is set.
pub open spec fn bit(v: u8, k: u8) -> bool {
    (v >> k) & 1u8 == 1u8
}

/// A coordinate inside a chunk: every axis in `0..32`.
pub open spec fn is_chunk_coord(c: (u8, u8, u8)) -> bool {
    c.0 < 32 && c.1 < 32 && c.2 < 32
}

/// The octant taken at `level` (0 is the root) when walking down to `c`.
pub open spec fn octant_at_level(c: (u8, u8, u8), level: int) -> (bool, bool, bool) {
    let k = (4 - level) as u8;
    (bit(c.0, k), bit(c.1, k), bit(c.2, k))
}

/// The five octants leading from the root of a chunk octree to `c`.
pub open spec fn coord_path(c: (u8, u8, u8)) -> Seq<(bool, bool, bool)> {
    Seq::new(5, |level: int| octant_at_level(c, level))
}

/// One axis of an octant: 0 is x, 1 is y, 2 is z.
pub open spec fn octant_axis(o: (bool, bool, bool), axis: int) -> bool {
    if axis == 0 {
        o.0
    } else if axis == 1 {
        o.1
    } else {
        o.2
    }
}

/// One axis of a coordinate: 0 is x, 1 is y, 2 is z.
pub open spec fn coord_axis(c: (u8, u8, u8), axis: int) -> int {
    if axis == 0 {
        c.0 as int
    } else if axis == 1 {
        c.1 as int
    } else {
        c.2 as int
    }
}

/// 1 for a set bit, 0 for a clear one.
pub open spec fn bit_value(b: bool) -> int {
    if b {
        1
    } else {
        0
    }
}

/// The number that a five-octant path spells in binary on one axis, the
/// octant at the root giving the most significant bit.
pub open spec fn path_axis_value(path: Seq<(bool, bool, bool)>, axis: int) -> int {
    16 * bit_value(octant_axis(path[0], axis)) + 8 * bit_value(octant_axis(path[1], axis)) + 4
        * bit_value(octant_axis(path[2], axis)) + 2 * bit_value(octant_axis(path[3], axis))
        + bit_value(octant_axis(path[4], axis))
}

/// Character of a decimal digit.
pub open spec fn digit_char(d: nat) -> char {
    (48 + d) as char
}

/// Decimal notation of `n`, without leading zeros.
pub open spec fn decimal(n: nat) -> Seq<char>
    decreases n,
{
    if n < 10 {
        seq![digit_char(n)]
    } else {
        decimal(n / 10) + seq![digit_char(n % 10)]
    }
}

/// Message of the error that rejects the out-of-range coordinate value `v`.
pub open spec fn out_of_bounds_message(v: u8) -> Seq<char> {
    "out of bounds: 0..32, got: "@ + decimal(v as nat)
}

/// The first of `x`, `y`, `z` (in that order) that lies outside `0..32`.
pub open spec fn first_out_of_bounds(x: u8, y: u8, z: u8) -> u8 {
    if x >= 32 {
        x
    } else if y >= 32 {
        y
    } else {
        z
    }
}

/// The voxel reached from `t` by following `path`: the value of the first
/// leaf met. A node met once the path is used up reads as 0.
pub open spec fn voxel_at(t: Octree, path: Seq<(bool, bool, bool)>) -> u32
    decreases path.len(),
{
    match t {
        Octree::Leaf(v) => v,
        Octree::Node(n) => if path.len() == 0 {
            0
        } else {
            voxel_at(n@[octant_index(path[0])], path.drop_first())
        },
    }
}

/// Every walk of `depth` octants down from `t` ends at a leaf.
pub open spec fn leaves_within(t: Octree, depth: nat) -> bool
    decreases depth,
{
    match t {
        Octree::Leaf(_) => true,
        Octree::Node(n) => {
            &&& depth > 0
            &&& n@.len() == 8
            &&& forall|i: int| #![trigger n@[i]] 0 <= i < 8 ==> leaves_within(n@[i], (depth - 1) as nat)
        },
    }
}

/// Following `path` down from `t` ends at a leaf before the path runs out
/// or just as it does.
pub open spec fn ends_at_leaf(t: Octree, path: Seq<(bool, bool, bool)>) -> bool
    decreases path.len(),
{
    match t {
        Octree::Leaf(_) => true,
        Octree::Node(n) => path.len() > 0 && ends_at_leaf(n@[octant_index(path[0])], path.drop_first()),
    }
}

/// In an octree whose walks of `path.len()` octants all end at leaves,
/// following `path` ends at a leaf.
pub proof fn lemma_walk_ends_at_leaf(t: Octree, path: Seq<(bool, bool, bool)>)
    requires
        leaves_within(t, path.len()),
    ensures
        ends_at_leaf(t, path),
    decreases path.len(),
{
    if let Octree::Node(n) = t {
        lemma_octant_index_injective(path[0], path[0]);
        let i = octant_index(path[0]);
        assert(leaves_within(n@[i], (path.len() - 1) as nat));
        lemma_walk_ends_at_leaf(n@[i], path.drop_first());
    }
}

/// The voxels of a chunk whose octree is `t`, by coordinate.
pub open spec fn chunk_voxels(t: Octree) -> Map<(u8, u8, u8), u32> {
    Map::new(|c: (u8, u8, u8)| is_chunk_coord(c), |c: (u8, u8, u8)| voxel_at(t, coord_path(c)))
}

/// The octants of a walk, as triples.
pub open spec fn path_view(path: [Octant; 5]) -> Seq<(bool, bool, bool)> {
    Seq::new(5, |level: int| path@[level]@)
}

// ---------------------------------------------------------------------------
// Octrees
// ---------------------------------------------------------------------------

/// A sparse octree: a leaf holds one voxel id for its whole cube, a node
/// splits its cube into eight octants.
pub enum Octree {
    Leaf(u32),
    Node(OctreeNode),
}

impl Default for Octree {
    /// The empty octree: one leaf of voxel 0.
    fn default() -> (t: Self)
        ensures
            t == Octree::Leaf(0),
    {
        Octree::Leaf(0)
    }
}

/// The eight children of an octree node, indexed by [Octant::idx].
pub struct OctreeNode(Box<[Octree; 8]>);

impl View for OctreeNode {
    type V = Seq<Octree>;

    closed spec fn view(&self) -> Seq<Octree> {
        self.0@
    }
}

/// Nodes with the same children are the same node.
pub proof fn lemma_node_view_injective(a: OctreeNode, b: OctreeNode)
    ensures
        a@ == b@ <==> a == b,
{
    broadcast use vstd::array::axiom_array_ext_equal;

    if a@ == b@ {
        assert(*a.0 =~= *b.0);
    }
}

/// Every node has exactly eight children.
pub proof fn lemma_node_has_eight_children(n: OctreeNode)
    ensures
        n@.len() == 8,
{
}

impl Default for OctreeNode {
    /// A node whose eight children are empty leaves.
    fn default() -> (n: Self)
        ensures
            n@ == Seq::new(8, |i: int| Octree::Leaf(0)),
    {
        OctreeNode::filled(0)
    }
}

impl OctreeNode {
    /// A node whose eight children are leaves of voxel `v`.
    fn filled(v: u32) -> (n: Self)
        ensures
            n@ == Seq::new(8, |i: int| Octree::Leaf(v)),
    {
        let n = OctreeNode(
            Box::new(
                [
                    Octree::Leaf(v),
                    Octree::Leaf(v),
                    Octree::Leaf(v),
                    Octree::Leaf(v),
                    Octree::Leaf(v),
                    Octree::Leaf(v),
                    Octree::Leaf(v),
                    Octree::Leaf(v),
                ],
            ),
        );
        assert(n@ =~= Seq::new(8, |i: int| Octree::Leaf(v)));
        n
    }

    /// Replace the child in `octant` with `value`.
    pub fn set_octant(&mut self, octant: Octant, value: Octree)
        ensures
            final(self)@ == old(self)@.update(octant_index(octant@), value),
    {
        self.0[octant.idx()] = value;
    }

    /// Replace the child in `octant` with an empty leaf.
    pub fn clear_octant(&mut self, octant: Octant)
        ensures
            final(self)@ == old(self)@.update(octant_index(octant@), Octree::Leaf(0)),
    {
        self.0[octant.idx()] = Octree::Leaf(0);
    }

    /// Move the child in `octant` out, leaving an empty leaf in its place.
    fn take_octant(&mut self, octant: Octant) -> (child: Octree)
        ensures
            child == old(self)@[octant_index(octant@)],
            final(self)@ == old(self)@.update(octant_index(octant@), Octree::Leaf(0)),
    {
        let mut child = Octree::Leaf(0);
        std::mem::swap(&mut child, &mut self.0[octant.idx()]);
        child
    }

    /// The child in `octant`.
    fn child(&self, octant: Octant) -> (child: &Octree)
        ensures
            *child == self@[octant_index(octant@)],
    {
        &self.0[octant.idx()]
    }
}

impl Octree {
    /// A copy of this octree, which reaches a leaf within `depth` levels.
    pub(crate) fn copy_within(&self, depth: usize) -> (t: Octree)
        requires
            leaves_within(*self, depth as nat),
        ensures
            t == *self,
        decreases depth,
    {
        match self {
            Octree::Leaf(v) => Octree::Leaf(*v),
            Octree::Node(node) => {
                let d = depth - 1;
                let children: [Octree; 8] = [
                    node.0[0].copy_within(d),
                    node.0[1].copy_within(d),
                    node.0[2].copy_within(d),
                    node.0[3].copy_within(d),
                    node.0[4].copy_within(d),
                    node.0[5].copy_within(d),
                    node.0[6].copy_within(d),
                    node.0[7].copy_within(d),
                ];
                let copy = OctreeNode(Box::new(children));
                proof {
                    broadcast use vstd::array::axiom_array_ext_equal;

                    assert(children@ =~= node.0@);
                    assert(children =~= *node.0);
                }
                Octree::Node(copy)
            },
        }
    }

    /// The voxel at the end of the walk `path[level..]` from this octree.
    pub(crate) fn voxel_along(&self, path: &[Octant; 5], level: usize) -> (v: u32)
        requires
            level <= 5,
            leaves_within(*self, (5 - level) as nat),
        ensures
            v == voxel_at(*self, path_view(*path).skip(level as int)),
        decreases 5 - level,
    {
        match self {
            Octree::Leaf(v) => *v,
            Octree::Node(node) => {
                let octant = path[level];
                let child = node.child(octant);
                proof {
                    lemma_octant_index_injective(octant@, octant@);
                    let p = path_view(*path).skip(level as int);
                    assert(p[0] == octant@);
                    assert(p.drop_first() =~= path_view(*path).skip(level + 1));
                }
                child.voxel_along(path, level + 1)
            },
        }
    }

    /// This octree with the voxel at the end of the walk `path[level..]`
    /// set to `id`; every other walk of the same length reads as before.
    pub(crate) fn with_voxel(self, path: &[Octant; 5], level: usize, id: u32) -> (t: Octree)
        requires
            level <= 5,
            leaves_within(self, (5 - level) as nat),
        ensures
            leaves_within(t, (5 - level) as nat),
            voxel_at(t, path_view(*path).skip(level as int)) == id,
            forall|q: Seq<(bool, bool, bool)>|
                q.len() == 5 - level && q != path_view(*path).skip(level as int) ==> #[trigger] voxel_at(t, q)
                    == voxel_at(self, q),
        decreases 5 - level,
    {
        if level == 5 {
            let t = Octree::Leaf(id);
            proof {
                assert forall|q: Seq<(bool, bool, bool)>|
                    q.len() == 5 - level && q != path_view(*path).skip(level as int) implies #[trigger] voxel_at(t, q)
                    == voxel_at(self, q) by {
                    assert(q =~= path_view(*path).skip(level as int));
                }
            }
            return t;
        }
        let octant = path[level];
        let ghost p = path_view(*path).skip(level as int);
        let ghost depth = (5 - level) as nat;
        proof {
            reveal_with_fuel(leaves_within, 2);
            assert(p[0] == octant@);
            assert(p.drop_first() =~= path_view(*path).skip(level + 1));
        }
        let mut node = match self {
            Octree::Leaf(v) => {
                if v == id {
                    return Octree::Leaf(v);
                }
                OctreeNode::filled(v)
            },
            Octree::Node(node) => node,
        };
        let ghost before = node;
        proof {
            assert forall|q: Seq<(bool, bool, bool)>| q.len() == depth implies #[trigger] voxel_at(
                Octree::Node(before),
                q,
            ) == voxel_at(self, q) by {
                lemma_octant_index_injective(q[0], q[0]);
                assert(q.len() > 0);
                match self {
                    Octree::Leaf(v) => {
                        assert(before@[octant_index(q[0])] == Octree::Leaf(v));
                        assert(voxel_at(Octree::Leaf(v), q.drop_first()) == v);
                        assert(voxel_at(self, q) == v);
                    },
                    Octree::Node(n) => {
                        assert(before == n);
                    },
                }
            }
            assert forall|j: int| 0 <= j < 8 implies #[trigger] leaves_within(before@[j], (depth - 1) as nat) by {}
        }
        let child = node.take_octant(octant);
        let child = child.with_voxel(path, level + 1, id);
        node.set_octant(octant, child);
        proof {
            assert(node@ =~= before@.update(octant_index(p[0]), child));
            lemma_write_through_child(before, node, child, p);
        }
        Octree::Node(node)
    }
}

/// Replacing the child that the walk `p` enters by `child`, which reads as
/// the old child on every other walk of its length, gives a node that reads
/// along `p` what `child` reads along the rest of `p`, and as before on
/// every other walk of the length of `p`.
proof fn lemma_write_through_child(
    before: OctreeNode,
    after: OctreeNode,
    child: Octree,
    p: Seq<(bool, bool, bool)>,
)
    requires
        p.len() > 0,
        before@.len() == 8,
        after@ == before@.update(octant_index(p[0]), child),
        forall|j: int| 0 <= j < 8 ==> #[trigger] leaves_within(before@[j], (p.len() - 1) as nat),
        leaves_within(child, (p.len() - 1) as nat),
        forall|q: Seq<(bool, bool, bool)>|
            q.len() == p.len() - 1 && q != p.drop_first() ==> #[trigger] voxel_at(child, q) == voxel_at(
                before@[octant_index(p[0])],
                q,
            ),
    ensures
        leaves_within(Octree::Node(after), p.len()),
        voxel_at(Octree::Node(after), p) == voxel_at(child, p.drop_first()),
        forall|q: Seq<(bool, bool, bool)>|
            q.len() == p.len() && q != p ==> #[trigger] voxel_at(Octree::Node(after), q) == voxel_at(
                Octree::Node(before),
                q,
            ),
{
    reveal_with_fuel(leaves_within, 2);
    let i = octant_index(p[0]);
    lemma_octant_index_injective(p[0], p[0]);
    assert forall|j: int| #![trigger after@[j]] 0 <= j < 8 implies leaves_within(after@[j], (p.len() - 1) as nat) by {
        if j != i {
            assert(after@[j] == before@[j]);
        }
    }
    assert(after@[i] == child);
    assert forall|q: Seq<(bool, bool, bool)>| q.len() == p.len() && q != p implies #[trigger] voxel_at(
        Octree::Node(after),
        q,
    ) == voxel_at(Octree::Node(before), q) by {
        lemma_octant_index_injective(q[0], p[0]);
        if octant_index(q[0]) == i {
            if q.drop_first() == p.drop_first() {
                assert forall|k: int| 0 < k < q.len() implies q[k] == p[k] by {
                    assert(q[k] == q.drop_first()[k - 1]);
                    assert(p[k] == p.drop_first()[k - 1]);
                }
                assert(q =~= p);
            }
            assert(voxel_at(child, q.drop_first()) == voxel_at(before@[i], q.drop_first()));
        } else {
            assert(after@[octant_index(q[0])] == before@[octant_index(q[0])]);
        }
    }
}

// ---------------------------------------------------------------------------
// Octants
// ---------------------------------------------------------------------------

/// 3D octant descriptor using 3 boolean values (x,y,z) used to
/// navigate sparse 3D octrees.
#[derive(Debug, Copy, Clone, Default, PartialEq, Eq, PartialOrd, Ord, Hash)]
pub struct Octant([bool; 3]);

impl View for Octant {
    type V = (bool, bool, bool);

    closed spec fn view(&self) -> (bool, bool, bool) {
        (self.0@[0], self.0@[1], self.0@[2])
    }
}

/// Octants with the same halves are the same octant.
pub proof fn lemma_octant_view_injective(a: Octant, b: Octant)
    ensures
        a@ == b@ <==> a == b,
{
    broadcast use vstd::array::axiom_array_ext_equal;

    if a@ == b@ {
        assert(a.0 =~= b.0);
    }
}

impl Octant {
    /// The octant on the given halves of the three axes.
    pub fn new(x: bool, y: bool, z: bool) -> (o: Self)
        ensures
            o@ == (x, y, z),
    {
        Octant([x, y, z])
    }

    /// Position of this octant among the children of a node.
    pub fn idx(&self) -> (i: usize)
        ensures
            i == octant_index(self@),
            i < 8,
    {
        let x: usize = if self.0[0] {
            1
        } else {
            0
        };
        let y: usize = if self.0[1] {
            2
        } else {
            0
        };
        let z: usize = if self.0[2] {
            4
        } else {
            0
        };
        x + y + z
    }
}

/// Distinct octants have distinct positions among the children of a node,
/// and every position lies in `0..8`.
pub proof fn lemma_octant_index_injective(a: (bool, bool, bool), b: (bool, bool, bool))
    ensures
        0 <= octant_index(a) < 8,
        octant_index(a) == octant_index(b) <==> a == b,
{
}

// ---------------------------------------------------------------------------
// Chunk coordinates
// ---------------------------------------------------------------------------

/// Coordinates of a voxel within a chunk, from (0, 0, 0) to (31, 31, 31).
#[derive(Debug, Copy, Clone, PartialEq, Eq, PartialOrd, Ord, Hash)]
pub struct ChunkCoord([u8; 3]);

impl View for ChunkCoord {
    type V = (u8, u8, u8);

    closed spec fn view(&self) -> (u8, u8, u8) {
        (self.0@[0], self.0@[1], self.0@[2])
    }
}

/// Chunk coordinates with the same three values are the same coordinate.
pub proof fn lemma_chunk_coord_view_injective(a: ChunkCoord, b: ChunkCoord)
    ensures
        a@ == b@ <==> a == b,
{
    broadcast use vstd::array::axiom_array_ext_equal;

    if a@ == b@ {
        assert(a.0 =~= b.0);
    }
}

/// Character of the decimal digit `d` as a one-character string.
fn digit_str(d: u8) -> (s: &'static str)
    requires
        d < 10,
    ensures
        s@ == seq![digit_char(d as nat)],
{
    if d == 0 {
        proof { reveal_strlit("0"); }
        "0"
    } else if d == 1 {
        proof { reveal_strlit("1"); }
        "1"
    } else if d == 2 {
        proof { reveal_strlit("2"); }
        "2"
    } else if d == 3 {
        proof { reveal_strlit("3"); }
        "3"
    } else if d == 4 {
        proof { reveal_strlit("4"); }
        "4"
    } else if d == 5 {
        proof { reveal_strlit("5"); }
        "5"
    } else if d == 6 {
        proof { reveal_strlit("6"); }
        "6"
    } else if d == 7 {
        proof { reveal_strlit("7"); }
        "7"
    } else if d == 8 {
        proof { reveal_strlit("8"); }
        "8"
    } else {
        proof { reveal_strlit("9"); }
        "9"
    }
}

/// Message rejecting the coordinate value `v`.
fn out_of_bounds(v: u8) -> (s: String)
    ensures
        s@ == out_of_bounds_message(v),
{
    let mut s = String::from_str("out of bounds: 0..32, got: ");
    let ghost prefix = s@;
    if v >= 100 {
        s.append(digit_str(v / 100));
        s.append(digit_str((v / 10) % 10));
        proof {
            assert(decimal((v / 10) as nat) == decimal((v / 100) as nat) + seq![digit_char(((v / 10) % 10) as nat)]);
        }
    } else if v >= 10 {
        s.append(digit_str(v / 10));
    }
    s.append(digit_str(v % 10));
    proof {
        if v >= 100 {
            assert(decimal((v / 100) as nat) == seq![digit_char((v / 100) as nat)]);
        } else if v >= 10 {
            assert(decimal((v / 10) as nat) == seq![digit_char((v / 10) as nat)]);
        }
        assert(s@ =~= prefix + decimal(v as nat));
    }
    s
}

impl ChunkCoord {
    /// Every axis of a chunk coordinate lies in `0..32`.
    #[verifier::type_invariant]
    spec fn in_chunk(self) -> bool {
        is_chunk_coord(self@)
    }

    /// The coordinate `(x, y, z)`, or an error naming the first value
    /// outside `0..32`.
    pub fn new(x: u8, y: u8, z: u8) -> (r: Result<Self, EngineError>)
        ensures
            r is Ok <==> is_chunk_coord((x, y, z)),
            r matches Ok(c) ==> c@ == (x, y, z),
            r matches Err(e) ==> (e matches EngineError::State(m) && m@ == out_of_bounds_message(
                first_out_of_bounds(x, y, z),
            )),
    {
        let vals: [u8; 3] = [x, y, z];
        let mut i: usize = 0;
        while i < 3
            invariant
                i <= 3,
                vals@ == seq![x, y, z],
                forall|j: int| 0 <= j < i ==> vals@[j] < 32,
            decreases 3 - i,
        {
            let v = vals[i];
            if v >= 32 {
                return Err(EngineError::input(out_of_bounds(v)));
            }
            i = i + 1;
        }
        Ok(ChunkCoord([x, y, z]))
    }

    /// Converts this chunk coords into a series of [Octant]s for [Octree]s:
    /// the octant at index `i` holds bit `4 - i` of each axis.
    pub fn to_octants(&self) -> (octants: [Octant; 5])
        ensures
            is_chunk_coord(self@),
            forall|i: int| 0 <= i < 5 ==> #[trigger] octants@[i]@ == octant_at_level(self@, i),
            path_view(octants) == coord_path(self@),
    {
        proof {
            use_type_invariant(self);
        }
        let coords: [u8; 3] = self.0;
        let mut octants: [Octant; 5] = [Octant([false, false, false]); 5];
        let mut i: usize = 0;
        while i < 5
            invariant
                i <= 5,
                coords@ == self.0@,
                self@ == (coords@[0], coords@[1], coords@[2]),
                forall|j: int| 0 <= j < i ==> #[trigger] octants@[j]@ == octant_at_level(self@, j),
            decreases 5 - i,
        {
            let shift: u8 = (4 - i) as u8;
            let mask: u8 = 1u8 << shift;
            let bits: [bool; 3] = [coords[0] & mask != 0, coords[1] & mask != 0, coords[2] & mask != 0];
            proof {
                assert(forall|v: u8, s: u8| s < 8 ==> ((v & (1u8 << s) != 0) == ((v >> s) & 1u8 == 1u8)))
                    by (bit_vector);
            }
            octants[i] = Octant(bits);
            i = i + 1;
        }
        assert(path_view(octants) =~= coord_path(self@));
        octants
    }
}

/// The five bits below 32 spell a byte below 32.
proof fn lemma_five_bits(v: u8)
    requires
        v < 32,
    ensures
        v as int == 16 * bit_value(bit(v, 4)) + 8 * bit_value(bit(v, 3)) + 4 * bit_value(bit(v, 2)) + 2
            * bit_value(bit(v, 1)) + bit_value(bit(v, 0)),
{
    assert(forall|w: u8, k: u8| ((w >> k) & 1u8 == 1u8) || ((w >> k) & 1u8 == 0u8)) by (bit_vector);
    assert(v == 16 * ((v >> 4u8) & 1u8) + 8 * ((v >> 3u8) & 1u8) + 4 * ((v >> 2u8) & 1u8) + 2 * ((v
        >> 1u8) & 1u8) + ((v >> 0u8) & 1u8)) by (bit_vector)
        requires
            v < 32,
    ;
}

/// The octants of a chunk coordinate encode that coordinate in binary: on
/// each axis, the five octants read from the root down spell its value.
pub proof fn lemma_octants_encode_coord(c: (u8, u8, u8))
    requires
        is_chunk_coord(c),
    ensures
        forall|axis: int| 0 <= axis < 3 ==> #[trigger] path_axis_value(coord_path(c), axis) == coord_axis(c, axis),
{
    lemma_five_bits(c.0);
    lemma_five_bits(c.1);
    lemma_five_bits(c.2);
    let p = coord_path(c);
    assert(p[0] == octant_at_level(c, 0));
    assert(p[1] == octant_at_level(c, 1));
    assert(p[2] == octant_at_level(c, 2));
    assert(p[3] == octant_at_level(c, 3));
    assert(p[4] == octant_at_level(c, 4));
}

/// Distinct chunk coordinates are reached along distinct octant paths.
pub proof fn lemma_coord_path_injective(a: (u8, u8, u8), b: (u8, u8, u8))
    requires
        is_chunk_coord(a),
        is_chunk_coord(b),
        coord_path(a) == coord_path(b),
    ensures
        a == b,
{
    lemma_octants_encode_coord(a);
    lemma_octants_encode_coord(b);
    assert(path_axis_value(coord_path(a), 0) == coord_axis(a, 0));
    assert(path_axis_value(coord_path(b), 0) == coord_axis(b, 0));
    assert(path_axis_value(coord_path(a), 1) == coord_axis(a, 1));
    assert(path_axis_value(coord_path(b), 1) == coord_axis(b, 1));
    assert(path_axis_value(coord_path(a), 2) == coord_axis(a, 2));
    assert(path_axis_value(coord_path(b), 2) == coord_axis(b, 2));
}

} // verus!
