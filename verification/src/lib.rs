//! Voxel chunk storage of the Kolibri engine: sparse octrees addressed by
//! chunk coordinates, the chunk roots that hold them, and the frame-timing
//! and surface-acquisition decisions of the game loop.
pub mod error;
pub mod game;
pub mod octree;
pub mod voxel;
