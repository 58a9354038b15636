//! Procedural generation of height maps, coloured images and meshes from noise.
//!
//! The crate holds the discrete part of the pipeline: grid traversal, mesh
//! topology, pixel compositing and the framing of exported files. Everything
//! that is sampled (noise values, gradient colours, vertex attributes) enters
//! through closures, so the same verified code serves any numeric type.

pub mod mesh;
pub mod noise;
pub mod noise_map;
pub mod pixel;
pub mod planet;
pub mod terrain;
pub mod util;
