use vstd::prelude::*;

verus! {

/// What the skeletal workload counters report for one frame.
#[derive(Clone, Copy, Debug, PartialEq, Eq)]
pub struct WorkloadCounts {
    pub visible: u32,
    pub rejected: u32,
    pub animated: u32,
    pub static_count: u32,
    pub active_poses: u32,
    pub reused_poses: u32,
    pub evaluated_bones: u32,
    pub lod_counts: [u32; 3],
    pub meshlets: u32,
    pub emitted_vertices: u32,
    pub emitted_triangles: u32,
    pub skin_influences: u32,
    pub observed_archetype_mask: u32,
}

/// Occlusion culling tallies: what came in and what was submitted.
#[derive(Clone, Copy, Debug, PartialEq, Eq, Structural)]
pub struct OcclusionOracle {
    pub source_visible: u32,
    pub survivors: u32,
    pub occluded: u32,
    pub source_meshlets: u32,
    pub submitted_meshlets: u32,
    pub source_vertices: u32,
    pub submitted_vertices: u32,
    pub source_triangles: u32,
    pub submitted_triangles: u32,
    pub source_skin_influences: u32,
    pub submitted_skin_influences: u32,
}

/// The shading oracle's verdict on one sampled pixel.
#[derive(Clone, Copy, Debug, PartialEq, Eq)]
pub struct OracleResult {
    pub expected_rgba8: u32,
    pub expected_texel: Option<[u32; 2]>,
    pub maximum_channel_delta: u32,
}

/// The workload counts that the GPU counter block encodes: fixed words for
/// each tally, poses reused when more animated objects than active poses,
/// and one bone evaluation per bone of each active pose.
pub fn decode_counts(counters: &[u32], bone_count: u32) -> (r: WorkloadCounts)
    requires
        counters@.len() >= 20,
        counters@[17] * bone_count <= u32::MAX,
    ensures
        r == (WorkloadCounts {
            visible: counters@[3],
            rejected: counters@[4],
            animated: counters@[5],
            static_count: counters@[6],
            active_poses: counters@[17],
            reused_poses: if counters@[5] >= counters@[17] {
                (counters@[5] - counters@[17]) as u32
            } else {
                0
            },
            evaluated_bones: (counters@[17] * bone_count) as u32,
            lod_counts: [counters@[7], counters@[8], counters@[9]],
            meshlets: counters@[10],
            emitted_vertices: counters@[11],
            emitted_triangles: counters@[12],
            skin_influences: counters@[19],
            observed_archetype_mask: counters@[13],
        }),
{
    WorkloadCounts {
        visible: counters[3],
        rejected: counters[4],
        animated: counters[5],
        static_count: counters[6],
        active_poses: counters[17],
        reused_poses: counters[5].saturating_sub(counters[17]),
        evaluated_bones: counters[17] * bone_count,
        lod_counts: [counters[7], counters[8], counters[9]],
        meshlets: counters[10],
        emitted_vertices: counters[11],
        emitted_triangles: counters[12],
        skin_influences: counters[19],
        observed_archetype_mask: counters[13],
    }
}

/// Channel `c` (0 = red .. 3 = alpha) of a packed RGBA8 value.
pub open spec fn channel(value: u32, c: int) -> int {
    (value as int / vstd::arithmetic::power2::pow2((8 * c) as nat) as int) % 256
}

/// `|a - b|`.
pub open spec fn distance(a: int, b: int) -> int {
    if a >= b {
        a - b
    } else {
        b - a
    }
}

/// The largest per-channel difference between two packed RGBA8 values.
pub fn channel_delta(expected: u32, actual: u32) -> (r: u32)
    ensures
        forall|c: int| 0 <= c < 4 ==> distance(channel(expected, c), channel(actual, c)) <= r,
        exists|c: int| 0 <= c < 4 && distance(channel(expected, c), channel(actual, c)) == r,
{
    proof {
        vstd::arithmetic::power2::lemma2_to64();
    }
    let mut maximum: u32 = 0;
    let mut divisor: u32 = 1;
    let mut c: u32 = 0;
    while c < 4
        invariant
            c <= 4,
            c < 4 ==> divisor == vstd::arithmetic::power2::pow2((8 * c) as nat),
            forall|k: int| 0 <= k < c ==> distance(channel(expected, k), channel(actual, k)) <= maximum,
            c == 0 ==> maximum == 0,
            c > 0 ==> exists|k: int| 0 <= k < c && distance(channel(expected, k), channel(actual, k)) == maximum,
        decreases 4 - c,
    {
        proof {
            vstd::arithmetic::power2::lemma2_to64();
        }
        let a = (expected / divisor) % 256;
        let b = (actual / divisor) % 256;
        let delta = if a >= b {
            a - b
        } else {
            b - a
        };
        assert(delta == distance(channel(expected, c as int), channel(actual, c as int)));
        if c == 0 || delta > maximum {
            maximum = delta;
        }
        if c < 3 {
            divisor = divisor * 256;
            proof {
                vstd::arithmetic::power2::lemma_pow2_adds((8 * c) as nat, 8);
            }
        }
        c += 1;
    }
    maximum
}

} // verus!
