//! Core of a chunked voxel world: block and chunk data model, terrain
//! generation, face-culling mesh building, mesh aggregation, and chunk
//! streaming driven by a viewer position.
//!
//! Geometry is kept in integer coordinates throughout: vertex positions are
//! world-space block coordinates and texture coordinates are pixel offsets
//! into the atlas. A renderer normalizes them to floats when uploading.

pub mod block;
pub mod chunk;
pub mod mesh;
pub mod mesher;
pub mod terrain;
pub mod texture;
pub mod vertex;
pub mod world;
