use kolibri_engine::octree::ChunkCoord;
use kolibri_engine::voxel::OctreeRoot;

fn at(x: u8, y: u8, z: u8) -> ChunkCoord {
    ChunkCoord::new(x, y, z).unwrap()
}

#[test]
fn empty_chunk_reads_zero_everywhere() {
    let root = OctreeRoot::default();
    for x in 0..32u8 {
        for y in [0u8, 13, 31] {
            for z in [0u8, 1, 30] {
                assert_eq!(root.voxel(at(x, y, z)), 0);
            }
        }
    }
}

#[test]
fn set_voxel_reads_back_and_leaves_the_rest() {
    let mut root = OctreeRoot::default();
    root.set_voxel(at(31, 12, 18), 7);
    assert_eq!(root.voxel(at(31, 12, 18)), 7);
    assert_eq!(root.voxel(at(31, 12, 19)), 0);
    assert_eq!(root.voxel(at(30, 12, 18)), 0);
    assert_eq!(root.voxel(at(0, 0, 0)), 0);
    root.set_voxel(at(31, 12, 19), 3);
    assert_eq!(root.voxel(at(31, 12, 18)), 7);
    assert_eq!(root.voxel(at(31, 12, 19)), 3);
}

#[test]
fn last_write_wins() {
    let mut root = OctreeRoot::default();
    root.set_voxel(at(2, 4, 17), 5);
    root.set_voxel(at(2, 4, 17), 6);
    assert_eq!(root.voxel(at(2, 4, 17)), 6);
}

#[test]
fn clear_voxel_sets_zero() {
    let mut root = OctreeRoot::default();
    root.set_voxel(at(1, 1, 1), 4);
    root.set_voxel(at(1, 1, 0), 8);
    root.clear_voxel(at(1, 1, 1));
    assert_eq!(root.voxel(at(1, 1, 1)), 0);
    assert_eq!(root.voxel(at(1, 1, 0)), 8);
}

#[test]
fn every_voxel_of_a_chunk_can_hold_its_own_id() {
    let mut root = OctreeRoot::default();
    for x in 0..32u8 {
        for y in 0..32u8 {
            for z in 0..32u8 {
                let id = (x as u32) << 16 | (y as u32) << 8 | z as u32;
                root.set_voxel(at(x, y, z), id + 1);
            }
        }
    }
    for x in 0..32u8 {
        for y in 0..32u8 {
            for z in 0..32u8 {
                let id = (x as u32) << 16 | (y as u32) << 8 | z as u32;
                assert_eq!(root.voxel(at(x, y, z)), id + 1);
            }
        }
    }
}

#[test]
fn filling_a_chunk_with_one_id() {
    let mut root = OctreeRoot::default();
    for x in 0..32u8 {
        for y in 0..32u8 {
            for z in 0..32u8 {
                root.set_voxel(at(x, y, z), 2);
            }
        }
    }
    assert_eq!(root.voxel(at(17, 3, 29)), 2);
    root.clear_voxel(at(17, 3, 29));
    assert_eq!(root.voxel(at(17, 3, 29)), 0);
    assert_eq!(root.voxel(at(17, 3, 28)), 2);
}
