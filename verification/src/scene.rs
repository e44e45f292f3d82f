use vstd::prelude::*;

verus! {

/// The meshes of the calibration scene.
#[derive(Clone, Copy, Debug, PartialEq, Eq, Structural)]
pub enum MeshKind {
    Plane,
    Cube,
}

} // verus!
