use vstd::prelude::*;

verus! {

/// What the static meshlet workload counters report for one frame.
#[derive(Clone, Copy, Debug, PartialEq, Eq)]
pub struct WorkloadCounts {
    pub visible: u32,
    pub rejected: u32,
    pub lod_counts: [u32; 3],
    pub meshlets: u32,
    pub emitted_vertices: u32,
    pub emitted_triangles: u32,
    pub observed_archetype_mask: u32,
}

} // verus!
