use vstd::prelude::*;

verus! {

/// A signed coordinate of a region in the unbounded global grid.
#[derive(Clone, Copy, Debug, PartialEq, Eq, Structural)]
pub struct RegionCoord {
    pub x: i64,
    pub z: i64,
}

impl RegionCoord {
    pub fn new(x: i64, z: i64) -> (r: RegionCoord)
        ensures
            r.x == x,
            r.z == z,
    {
        RegionCoord { x, z }
    }
}

} // verus!
