//! A minimal real-time 3D rendering pipeline: affine transform
//! composition for meshes, a per-frame scan-based occlusion record, a
//! distance-threshold splat rasterizer, and two output backends - a
//! true-color pixel target encoded to PNG, and an ANSI terminal
//! protocol with double-buffered diffing and escape batching.
//!
//! All coordinates and depths are 16.16 fixed-point values (`fx::Fx`);
//! every drawing and flushing operation is specified exactly over
//! mathematical models of the raster target, the occlusion record and
//! the emitted terminal stream.

pub mod ansi;
pub mod fx;
pub mod matrix;
pub mod mesh;
pub mod occlusion;
pub mod pixel;
pub mod screen;
pub mod vector;
