//! Procedural voxel terrain split into cubic chunks: a dense voxel grid per
//! chunk, its terrain population, face-culled meshing, and the streaming
//! bookkeeping that loads and unloads chunks around a moving viewer.

pub mod chunk;
pub mod geometry;
pub mod mesh;
pub mod table;
pub mod world;
