//! Control-plane logic of the workbench renderer: region windows, the
//! terrain slot cache, the semantic projection and the composition state
//! machines, with their contracts.
pub mod world;

pub mod load;
pub mod resident;
pub mod address;
pub mod terrain;
pub mod composition;
pub mod digest;
pub mod renderer;
pub mod publication;
pub mod skeletal;
pub mod meshlet;
pub mod scene;
pub mod frame;
