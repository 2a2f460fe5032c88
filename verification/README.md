# kolibri_engine

The verified core of the Kolibri voxel engine.

- `src/octree.rs`: sparse octrees, octants and chunk coordinates. A chunk
  coordinate becomes five octants that spell its three axes in binary; the
  voxel a walk reaches is modelled by `voxel_at`.
- `src/voxel.rs`: `OctreeRoot`, one chunk of 32x32x32 voxels, viewed as a map
  from coordinates to voxel ids. Setting a voxel is proved to change that map
  at exactly one coordinate.
- `src/game.rs`: frame timings and the per-frame decisions of the game loop
  (what to do with the texture the surface hands out, how large to configure
  the surface).
- `src/error.rs`: the errors the engine raises with a message of its own.
- `app/`: the window, the GPU pipelines, shaders, cameras and transforms,
  built on `wgpu`, `winit`, `glam` and `encase`. Shader sources are read from
  a `shaders/` directory at run time.
