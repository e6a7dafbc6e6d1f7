//! Orchestration of a voxel global-illumination volume: extraction of the
//! authored volume, per-view preparation of its GPU resources through a
//! descriptor-keyed resource cache, and the ordered compute dispatches
//! (clear, voxelize, LOD chain) that the voxelization pass issues.

pub mod cache;
pub mod math;
pub mod node;
pub mod prepare;
pub mod registry;
pub mod uniforms;
pub mod volume;
