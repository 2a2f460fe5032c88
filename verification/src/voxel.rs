//! The voxels of one terrain chunk, kept in a sparse octree.
use vstd::prelude::*;

use crate::octree::{
    chunk_voxels, coord_path, ends_at_leaf, is_chunk_coord, leaves_within, lemma_coord_path_injective,
    lemma_walk_ends_at_leaf, path_view, voxel_at, ChunkCoord, Octree,
};

verus! {

/// The octree of one chunk of 32x32x32 voxels, and whether it changed since
/// it was last uploaded.
pub struct OctreeRoot {
    root: Octree,
    dirty: bool,
}

/// The voxels of an empty chunk: 0 everywhere.
pub open spec fn empty_chunk() -> Map<(u8, u8, u8), u32> {
    Map::new(|c: (u8, u8, u8)| is_chunk_coord(c), |c: (u8, u8, u8)| 0u32)
}

impl OctreeRoot {
    /// The octree that holds the chunk's voxels.
    pub closed spec fn octree(&self) -> Octree {
        self.root
    }

    /// The chunk's octree is at most five levels deep: walking the five
    /// octants of any chunk coordinate down from the root ends at a leaf.
    pub open spec fn within_five_levels(&self) -> bool {
        leaves_within(self.octree(), 5)
    }
}

impl View for OctreeRoot {
    type V = Map<(u8, u8, u8), u32>;

    /// The voxel id at every coordinate of the chunk.
    open spec fn view(&self) -> Map<(u8, u8, u8), u32> {
        chunk_voxels(self.octree())
    }
}

impl Default for OctreeRoot {
    /// An empty chunk that has not been uploaded.
    fn default() -> (r: Self)
        ensures
            r@ == empty_chunk(),
            !r.is_dirty(),
            r.octree() == Octree::Leaf(0),
            r.within_five_levels(),
    {
        let r = OctreeRoot { root: Octree::default(), dirty: false };
        assert(r@ =~= empty_chunk());
        r
    }
}

impl Clone for OctreeRoot {
    /// A copy of the chunk, changed or not as this one is.
    fn clone(&self) -> (r: Self)
        ensures
            r@ == self@,
            r.is_dirty() == self.is_dirty(),
            r.octree() == self.octree(),
            r.within_five_levels(),
    {
        proof {
            use_type_invariant(self);
        }
        OctreeRoot { root: self.root.copy_within(5), dirty: self.dirty }
    }
}

impl OctreeRoot {
    /// Every chunk keeps its octree within five levels.
    #[verifier::type_invariant]
    spec fn five_levels(self) -> bool {
        self.within_five_levels()
    }

    /// Whether the chunk changed since it was last uploaded.
    pub closed spec fn is_dirty(&self) -> bool {
        self.dirty
    }

    /// Set the voxel at `position` to `id`, leaving every other voxel as it
    /// was, and mark the chunk as changed.
    pub fn set_voxel(&mut self, position: ChunkCoord, id: u32)
        ensures
            is_chunk_coord(position@),
            final(self)@ == old(self)@.insert(position@, id),
            final(self).is_dirty(),
            final(self).within_five_levels(),
    {
        proof {
            use_type_invariant(&*self);
        }
        let path = position.to_octants();
        let mut root = Octree::Leaf(0);
        std::mem::swap(&mut root, &mut self.root);
        let ghost before = root;
        self.root = root.with_voxel(&path, 0, id);
        self.dirty = true;
        proof {
            assert(path_view(path).skip(0) =~= path_view(path));
            assert forall|c: (u8, u8, u8)| is_chunk_coord(c) && c != position@ implies #[trigger] voxel_at(
                self.root,
                coord_path(c),
            ) == voxel_at(before, coord_path(c)) by {
                if coord_path(c) == coord_path(position@) {
                    lemma_coord_path_injective(c, position@);
                }
            }
            assert(self@ =~= old(self)@.insert(position@, id));
        }
    }

    /// Set the voxel at `position` back to 0, leaving every other voxel as it
    /// was, and mark the chunk as changed.
    pub fn clear_voxel(&mut self, position: ChunkCoord)
        ensures
            is_chunk_coord(position@),
            final(self)@ == old(self)@.insert(position@, 0),
            final(self).is_dirty(),
            final(self).within_five_levels(),
    {
        self.set_voxel(position, 0)
    }

    /// The voxel id at `position`.
    pub fn voxel(&self, position: ChunkCoord) -> (id: u32)
        ensures
            is_chunk_coord(position@),
            id == self@[position@],
    {
        proof {
            use_type_invariant(self);
        }
        let path = position.to_octants();
        let id = self.root.voxel_along(&path, 0);
        proof {
            assert(path_view(path).skip(0) =~= path_view(path));
        }
        id
    }
}

/// Every chunk holds exactly one voxel at each coordinate of the chunk.
pub proof fn lemma_chunk_covers_its_coordinates(r: OctreeRoot)
    ensures
        r@.dom() == empty_chunk().dom(),
{
    assert(r@.dom() =~= empty_chunk().dom());
}

/// Reading after setting a voxel gives the id just set at that coordinate
/// and what was there before at every other coordinate.
pub proof fn lemma_read_after_set(r: OctreeRoot, p: (u8, u8, u8), q: (u8, u8, u8), id: u32)
    requires
        is_chunk_coord(q),
    ensures
        r@.insert(p, id).dom().contains(q),
        r@.insert(p, id)[q] == if q == p {
            id
        } else {
            r@[q]
        },
{
    lemma_chunk_covers_its_coordinates(r);
}

/// Of two writes to the same coordinate, the last one wins.
pub proof fn lemma_last_set_wins(r: OctreeRoot, p: (u8, u8, u8), a: u32, b: u32)
    ensures
        r@.insert(p, a).insert(p, b) == r@.insert(p, b),
{
    assert(r@.insert(p, a).insert(p, b) =~= r@.insert(p, b));
}

/// Writes to distinct coordinates commute.
pub proof fn lemma_distinct_sets_commute(r: OctreeRoot, p: (u8, u8, u8), q: (u8, u8, u8), a: u32, b: u32)
    requires
        p != q,
    ensures
        r@.insert(p, a).insert(q, b) == r@.insert(q, b).insert(p, a),
{
    assert(r@.insert(p, a).insert(q, b) =~= r@.insert(q, b).insert(p, a));
}

/// Setting a voxel to the id it already holds changes no voxel.
pub proof fn lemma_set_same_id_changes_nothing(r: OctreeRoot, p: (u8, u8, u8))
    requires
        is_chunk_coord(p),
    ensures
        r@.insert(p, r@[p]) == r@,
{
    lemma_chunk_covers_its_coordinates(r);
    assert(r@.insert(p, r@[p]) =~= r@);
}

/// In a chunk whose octree is within five levels, as every chunk's octree
/// is, following the octants of any chunk coordinate down from the root
/// ends at a leaf.
pub proof fn lemma_coordinates_end_at_leaves(r: OctreeRoot, c: (u8, u8, u8))
    requires
        r.within_five_levels(),
    ensures
        ends_at_leaf(r.octree(), coord_path(c)),
{
    lemma_walk_ends_at_leaf(r.octree(), coord_path(c));
}

} // verus!
