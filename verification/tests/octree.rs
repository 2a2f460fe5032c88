use kolibri_engine::error::EngineError;
use kolibri_engine::octree::{ChunkCoord, Octant, Octree, OctreeNode};

#[test]
fn test_to_octants() {
    let coord = ChunkCoord::new(31, 31, 31).unwrap();
    assert_eq!(coord.to_octants(), [Octant::new(true, true, true); 5]);

    let coord = ChunkCoord::new(31, 12, 18).unwrap();
    assert_eq!(
        coord.to_octants(),
        [
            // bin: 31,   12,    18
            Octant::new(true, false, true),
            Octant::new(true, true, false),
            Octant::new(true, true, false),
            Octant::new(true, false, true),
            Octant::new(true, false, false),
        ],
    );

    let coord = ChunkCoord::new(2, 4, 17).unwrap();
    assert_eq!(
        coord.to_octants(),
        [
            // bin: 2,     4,     17
            Octant::new(false, false, true),
            Octant::new(false, false, false),
            Octant::new(false, true, false),
            Octant::new(true, false, false),
            Octant::new(false, false, true),
        ],
    );
}

#[test]
fn origin_walks_the_first_octant() {
    let coord = ChunkCoord::new(0, 0, 0).unwrap();
    assert_eq!(coord.to_octants(), [Octant::default(); 5]);
    assert_eq!(Octant::default(), Octant::new(false, false, false));
}

fn message(r: Result<ChunkCoord, EngineError>) -> String {
    match r {
        Err(EngineError::State(m)) => m,
        Err(e) => panic!("unexpected error {e:?}"),
        Ok(c) => panic!("unexpected coordinate {c:?}"),
    }
}

#[test]
fn chunk_coord_accepts_the_chunk_edges() {
    assert!(ChunkCoord::new(0, 0, 0).is_ok());
    assert!(ChunkCoord::new(31, 0, 31).is_ok());
    assert_eq!(ChunkCoord::new(1, 2, 3).unwrap(), ChunkCoord::new(1, 2, 3).unwrap());
    assert_ne!(ChunkCoord::new(1, 2, 3).unwrap(), ChunkCoord::new(3, 2, 1).unwrap());
}

#[test]
fn chunk_coord_rejects_the_first_value_out_of_bounds() {
    assert_eq!(message(ChunkCoord::new(32, 0, 0)), "out of bounds: 0..32, got: 32");
    assert_eq!(message(ChunkCoord::new(0, 200, 40)), "out of bounds: 0..32, got: 200");
    assert_eq!(message(ChunkCoord::new(5, 6, 255)), "out of bounds: 0..32, got: 255");
    assert_eq!(message(ChunkCoord::new(99, 100, 0)), "out of bounds: 0..32, got: 99");
    assert_eq!(message(ChunkCoord::new(0, 0, 105)), "out of bounds: 0..32, got: 105");
}

#[test]
fn octant_indices_cover_zero_to_seven() {
    assert_eq!(Octant::new(false, false, false).idx(), 0);
    assert_eq!(Octant::new(true, false, false).idx(), 1);
    assert_eq!(Octant::new(false, true, false).idx(), 2);
    assert_eq!(Octant::new(true, true, false).idx(), 3);
    assert_eq!(Octant::new(false, false, true).idx(), 4);
    assert_eq!(Octant::new(true, false, true).idx(), 5);
    assert_eq!(Octant::new(false, true, true).idx(), 6);
    assert_eq!(Octant::new(true, true, true).idx(), 7);
}

#[test]
fn octant_index_is_injective() {
    let mut seen = [false; 8];
    for x in [false, true] {
        for y in [false, true] {
            for z in [false, true] {
                let i = Octant::new(x, y, z).idx();
                assert!(!seen[i]);
                seen[i] = true;
            }
        }
    }
    assert!(seen.iter().all(|s| *s));
}

#[test]
fn octants_spell_the_coordinate_in_binary() {
    for x in 0..32u8 {
        for y in [0u8, 7, 16, 31] {
            let octants = ChunkCoord::new(x, y, 31 - x).unwrap().to_octants();
            let mut values = [0u8; 3];
            for o in octants.iter() {
                let i = o.idx();
                values[0] = values[0] * 2 + (i & 1) as u8;
                values[1] = values[1] * 2 + ((i >> 1) & 1) as u8;
                values[2] = values[2] * 2 + ((i >> 2) & 1) as u8;
            }
            assert_eq!(values, [x, y, 31 - x]);
        }
    }
}

#[test]
fn octree_default_is_an_empty_leaf() {
    assert!(matches!(Octree::default(), Octree::Leaf(0)));
}

#[test]
fn node_octants_can_be_set_and_cleared() {
    let mut node = OctreeNode::default();
    node.set_octant(Octant::new(true, false, true), Octree::Leaf(9));
    node.set_octant(Octant::new(false, true, false), Octree::Node(OctreeNode::default()));
    node.clear_octant(Octant::new(false, true, false));
    node.clear_octant(Octant::new(true, true, true));
}
