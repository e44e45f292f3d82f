//! Terrain residency: the slot cache, the semantic projection and the patch
//! level-of-detail rules.
pub mod cache;
pub mod cache_laws;
pub mod projection;
pub mod lod;
pub mod transfer;
pub mod transfer_laws;
pub mod surface;
pub mod lod_oracle;
pub mod probe;
