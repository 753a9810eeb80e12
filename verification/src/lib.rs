//! Chunked procedural terrain for a voxel world.
//!
//! The world is an unbounded grid of columns, generated in fixed-size chunks
//! and kept in a cache that a per-frame consumer queries around a moving
//! viewpoint. Everything here works on integers: noise readings, rates and
//! random draws are fixed-point numbers, so that every rule of the generator
//! and of the scheduler is stated and proved exactly.

pub mod biomes;
pub mod chunk;
pub mod color;
pub mod field;
pub mod flat;
pub mod flower;
pub mod model;
pub mod point;
pub mod primitives;
pub mod radius;
pub mod random;
pub mod rock;
pub mod scheduler;
pub mod terrain;
pub mod tree;
