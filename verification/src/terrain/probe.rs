use vstd::prelude::*;

use crate::address::{addressed_at, local_of, AddressedRegion, GlobalTerrainConfig};
use crate::digest::{le_i64, le_u32, push_i64_le, push_u32_le, sha256_hex, sha256_hex_of};
use crate::load::ConfigError;
use crate::resident::ACTIVE_REGION_CAPACITY;
use crate::world::RegionCoord;

use super::cache::TerrainAssignment;
use super::lod_oracle::LodOracle;

verus! {

/// Mesh-shader groups that the terrain pass dispatches every frame.
pub const PATCH_GROUP_COUNT: u32 = 400;

/// What the CPU found comparing the shared edges of neighboring tiles.
#[derive(Clone, Copy, Debug, PartialEq, Eq)]
pub struct CpuEdges {
    pub neighbor_edges: u32,
    pub sample_comparisons: u32,
    pub mismatch_count: u32,
}

/// The first GPU counter that disagrees with the CPU oracle.
#[derive(Clone, Copy, Debug, PartialEq, Eq)]
pub enum TerrainProbeMismatch {
    PatchGroupCount,
    EmittedPatches,
    InactiveGroups,
    Vertices,
    Triangles,
    CpuEdgeMismatch,
    GpuEdgeCount,
    GpuComparisonCount,
    GpuEdgeMismatch,
    LodCounts,
    LodEdgeCount,
    SameLodEdges,
    TransitionEdges,
    AdjustedVertices,
    LodSamples,
    MaximumLodDelta,
    LodGeometricMismatch,
}

/// The verdict on the terrain pass's counters: the fixed group count, the
/// emitted patches and geometry against the oracle, the CPU seams, the GPU
/// seams against the CPU, the levels against the oracle and, when levels
/// of detail are on, the level seams against the oracle; the first
/// disagreement in that order.
pub open spec fn counter_verdict(
    stats: Seq<u32>,
    seams: Seq<u32>,
    lod: Seq<u32>,
    oracle: LodOracle,
    cpu: CpuEdges,
    lod_enabled: bool,
) -> Result<(), TerrainProbeMismatch> {
    let e = oracle.edges;
    if stats[0] != PATCH_GROUP_COUNT {
        Err(TerrainProbeMismatch::PatchGroupCount)
    } else if stats[1] != oracle.patches {
        Err(TerrainProbeMismatch::EmittedPatches)
    } else if stats[2] != PATCH_GROUP_COUNT - oracle.patches {
        Err(TerrainProbeMismatch::InactiveGroups)
    } else if stats[3] != oracle.vertices {
        Err(TerrainProbeMismatch::Vertices)
    } else if stats[4] != oracle.triangles {
        Err(TerrainProbeMismatch::Triangles)
    } else if cpu.mismatch_count != 0 {
        Err(TerrainProbeMismatch::CpuEdgeMismatch)
    } else if seams[0] != cpu.neighbor_edges {
        Err(TerrainProbeMismatch::GpuEdgeCount)
    } else if seams[1] != cpu.sample_comparisons {
        Err(TerrainProbeMismatch::GpuComparisonCount)
    } else if seams[2] != 0 {
        Err(TerrainProbeMismatch::GpuEdgeMismatch)
    } else if lod.subrange(0, 3) != oracle.lod_counts@ {
        Err(TerrainProbeMismatch::LodCounts)
    } else if !lod_enabled {
        Ok(())
    } else if lod[3] != e.patch_edges {
        Err(TerrainProbeMismatch::LodEdgeCount)
    } else if lod[4] != e.same_lod_edges {
        Err(TerrainProbeMismatch::SameLodEdges)
    } else if lod[5] != e.transition_edges {
        Err(TerrainProbeMismatch::TransitionEdges)
    } else if lod[6] != e.adjusted_vertices {
        Err(TerrainProbeMismatch::AdjustedVertices)
    } else if lod[7] != e.sample_comparisons {
        Err(TerrainProbeMismatch::LodSamples)
    } else if lod[8] != e.max_lod_delta {
        Err(TerrainProbeMismatch::MaximumLodDelta)
    } else if lod[9] != 0 {
        Err(TerrainProbeMismatch::LodGeometricMismatch)
    } else {
        Ok(())
    }
}

/// Checks the terrain pass's counters against the oracle, as
/// `counter_verdict` says.
pub fn check_terrain_counters(
    stats: &[u32],
    seams: &[u32],
    lod: &[u32],
    oracle: &LodOracle,
    cpu: CpuEdges,
    lod_enabled: bool,
) -> (r: Result<(), TerrainProbeMismatch>)
    requires
        stats@.len() >= 8,
        seams@.len() >= 8,
        lod@.len() >= 16,
        stats@[0] == PATCH_GROUP_COUNT && stats@[1] == oracle.patches ==> oracle.patches <= PATCH_GROUP_COUNT,
    ensures
        r == counter_verdict(stats@, seams@, lod@, *oracle, cpu, lod_enabled),
{
    if stats[0] != PATCH_GROUP_COUNT {
        return Err(TerrainProbeMismatch::PatchGroupCount);
    }
    if stats[1] != oracle.patches {
        return Err(TerrainProbeMismatch::EmittedPatches);
    }
    if stats[2] != PATCH_GROUP_COUNT - oracle.patches {
        return Err(TerrainProbeMismatch::InactiveGroups);
    }
    if stats[3] != oracle.vertices {
        return Err(TerrainProbeMismatch::Vertices);
    }
    if stats[4] != oracle.triangles {
        return Err(TerrainProbeMismatch::Triangles);
    }
    if cpu.mismatch_count != 0 {
        return Err(TerrainProbeMismatch::CpuEdgeMismatch);
    }
    if seams[0] != cpu.neighbor_edges {
        return Err(TerrainProbeMismatch::GpuEdgeCount);
    }
    if seams[1] != cpu.sample_comparisons {
        return Err(TerrainProbeMismatch::GpuComparisonCount);
    }
    if seams[2] != 0 {
        return Err(TerrainProbeMismatch::GpuEdgeMismatch);
    }
    let counts_match = lod[0] == oracle.lod_counts[0] && lod[1] == oracle.lod_counts[1] && lod[2]
        == oracle.lod_counts[2];
    proof {
        assert(counts_match == (lod@.subrange(0, 3) =~= oracle.lod_counts@));
    }
    if !counts_match {
        return Err(TerrainProbeMismatch::LodCounts);
    }
    if !lod_enabled {
        return Ok(());
    }
    let e = oracle.edges;
    if lod[3] != e.patch_edges {
        return Err(TerrainProbeMismatch::LodEdgeCount);
    }
    if lod[4] != e.same_lod_edges {
        return Err(TerrainProbeMismatch::SameLodEdges);
    }
    if lod[5] != e.transition_edges {
        return Err(TerrainProbeMismatch::TransitionEdges);
    }
    if lod[6] != e.adjusted_vertices {
        return Err(TerrainProbeMismatch::AdjustedVertices);
    }
    if lod[7] != e.sample_comparisons {
        return Err(TerrainProbeMismatch::LodSamples);
    }
    if lod[8] != e.max_lod_delta {
        return Err(TerrainProbeMismatch::MaximumLodDelta);
    }
    if lod[9] != 0 {
        return Err(TerrainProbeMismatch::LodGeometricMismatch);
    }
    Ok(())
}

/// What the seam pass reported: its edge and comparison counts, its
/// mismatch count and the first mismatch, when it recorded one.
#[derive(Clone, Copy, Debug, PartialEq, Eq)]
pub struct GpuEdges {
    pub neighbor_edges: u32,
    pub sample_comparisons: u32,
    pub mismatch_count: u32,
    pub first_mismatch: Option<u32>,
}

/// The seam pass's report from its counters; `u32::MAX` in the fourth
/// counter means no mismatch was recorded.
pub fn gpu_edges(seams: &[u32]) -> (r: GpuEdges)
    requires
        seams@.len() >= 4,
    ensures
        r.neighbor_edges == seams@[0],
        r.sample_comparisons == seams@[1],
        r.mismatch_count == seams@[2],
        r.first_mismatch == if seams@[3] == u32::MAX {
            None
        } else {
            Some(seams@[3])
        },
{
    GpuEdges {
        neighbor_edges: seams[0],
        sample_comparisons: seams[1],
        mismatch_count: seams[2],
        first_mismatch: if seams[3] == u32::MAX {
            None
        } else {
            Some(seams[3])
        },
    }
}

/// What the level-of-detail pass reported; its edge counters only when
/// levels of detail are on.
#[derive(Clone, Copy, Debug, PartialEq, Eq)]
pub struct GpuLod {
    pub lod_counts: [u32; 3],
    pub patch_edges: Option<u32>,
    pub same_lod_edges: Option<u32>,
    pub transition_edges: Option<u32>,
    pub adjusted_vertices: Option<u32>,
    pub sample_comparisons: Option<u32>,
    pub max_lod_delta: Option<u32>,
    pub mismatch_count: Option<u32>,
    pub first_mismatch: Option<u32>,
}

/// `value` when levels of detail are on.
pub open spec fn when_enabled(enabled: bool, value: u32) -> Option<u32> {
    if enabled {
        Some(value)
    } else {
        None
    }
}

fn enabled_value(enabled: bool, value: u32) -> (r: Option<u32>)
    ensures
        r == when_enabled(enabled, value),
{
    if enabled {
        Some(value)
    } else {
        None
    }
}

/// The level-of-detail pass's report from its counters: the level counts
/// always, the edge counters when levels of detail are on, and the first
/// mismatch when they are on and one was recorded (`u32::MAX` meaning none).
pub fn gpu_lod(lod: &[u32], enabled: bool) -> (r: GpuLod)
    requires
        lod@.len() >= 11,
    ensures
        r.lod_counts@ == lod@.subrange(0, 3),
        r.patch_edges == when_enabled(enabled, lod@[3]),
        r.same_lod_edges == when_enabled(enabled, lod@[4]),
        r.transition_edges == when_enabled(enabled, lod@[5]),
        r.adjusted_vertices == when_enabled(enabled, lod@[6]),
        r.sample_comparisons == when_enabled(enabled, lod@[7]),
        r.max_lod_delta == when_enabled(enabled, lod@[8]),
        r.mismatch_count == when_enabled(enabled, lod@[9]),
        r.first_mismatch == if enabled && lod@[10] != u32::MAX {
            Some(lod@[10])
        } else {
            None
        },
{
    let counts = [lod[0], lod[1], lod[2]];
    proof {
        assert(counts@ =~= lod@.subrange(0, 3));
    }
    GpuLod {
        lod_counts: counts,
        patch_edges: enabled_value(enabled, lod[3]),
        same_lod_edges: enabled_value(enabled, lod[4]),
        transition_edges: enabled_value(enabled, lod[5]),
        adjusted_vertices: enabled_value(enabled, lod[6]),
        sample_comparisons: enabled_value(enabled, lod[7]),
        max_lod_delta: enabled_value(enabled, lod[8]),
        mismatch_count: enabled_value(enabled, lod[9]),
        first_mismatch: if enabled && lod[10] != u32::MAX {
            Some(lod[10])
        } else {
            None
        },
    }
}

/// The geometry that the terrain pass drew beside what the oracle expects.
#[derive(Clone, Copy, Debug, PartialEq, Eq)]
pub struct TerrainGeometry {
    pub fixed_patch_groups: u32,
    pub emitted_patches: u32,
    pub inactive_groups: u32,
    pub vertices: u32,
    pub triangles: u32,
    pub min_height: i32,
    pub max_height: i32,
    pub oracle_patches: u32,
    pub oracle_vertices: u32,
    pub oracle_triangles: u32,
}

/// The terrain pass's geometry from its counters; the height range is
/// read as signed.
pub fn terrain_geometry(stats: &[u32], oracle: &LodOracle) -> (r: TerrainGeometry)
    requires
        stats@.len() >= 8,
    ensures
        r.fixed_patch_groups == stats@[0],
        r.emitted_patches == stats@[1],
        r.inactive_groups == stats@[2],
        r.vertices == stats@[3],
        r.triangles == stats@[4],
        r.min_height == stats@[6] as i32,
        r.max_height == stats@[7] as i32,
        r.oracle_patches == oracle.patches,
        r.oracle_vertices == oracle.vertices,
        r.oracle_triangles == oracle.triangles,
{
    TerrainGeometry {
        fixed_patch_groups: stats[0],
        emitted_patches: stats[1],
        inactive_groups: stats[2],
        vertices: stats[3],
        triangles: stats[4],
        min_height: stats[6] as i32,
        max_height: stats[7] as i32,
        oracle_patches: oracle.patches,
        oracle_vertices: oracle.vertices,
        oracle_triangles: oracle.triangles,
    }
}

/// The bytes of the active mapping that its digest covers: each entry's
/// slot and region id.
pub open spec fn mapping_bytes(active: Seq<TerrainAssignment>) -> Seq<u8>
    decreases active.len(),
{
    if active.len() == 0 {
        Seq::empty()
    } else {
        mapping_bytes(active.drop_last()) + le_u32(active.last().slot) + le_u32(active.last().region_id)
    }
}

/// The digest of the active mapping.
pub fn active_mapping_digest(active: &Vec<TerrainAssignment>) -> (r: String)
    ensures
        r@ == sha256_hex(mapping_bytes(active@)),
{
    let mut bytes: Vec<u8> = Vec::new();
    let mut i: usize = 0;
    while i < active.len()
        invariant
            i <= active@.len(),
            bytes@ == mapping_bytes(active@.take(i as int)),
        decreases active@.len() - i,
    {
        proof {
            assert(active@.take(i + 1).drop_last() =~= active@.take(i as int));
        }
        push_u32_le(&mut bytes, active[i].slot);
        push_u32_le(&mut bytes, active[i].region_id);
        i += 1;
    }
    proof {
        assert(active@.take(active@.len() as int) =~= active@);
    }
    sha256_hex_of(&bytes)
}

/// Why the global addressing evidence could not be gathered.
#[derive(Clone, Copy, Debug, PartialEq, Eq)]
pub enum GlobalEvidenceError {
    /// The window could not be addressed.
    Config(ConfigError),
    /// An assignment has no global region.
    MissingGlobalRegion,
}

/// How the published terrain mapping matches its global window.
#[derive(Debug)]
pub struct GlobalAddressEvidence {
    pub config: GlobalTerrainConfig,
    pub mapping_sha256: String,
    pub entry_count: usize,
    pub duplicate_global_count: usize,
    pub mismatch_count: usize,
}

/// The bytes of the global mapping that its digest covers: each entry's
/// global x and z and its local region id.
pub open spec fn global_mapping_bytes(active: Seq<TerrainAssignment>) -> Seq<u8>
    decreases active.len(),
{
    if active.len() == 0 {
        Seq::empty()
    } else {
        let a = active.last();
        global_mapping_bytes(active.drop_last()) + le_i64(a.global_region->0.x) + le_i64(
            a.global_region->0.z,
        ) + le_u32(a.region_id)
    }
}

/// Entry `i` does not match the window's `i`-th region.
pub open spec fn entry_mismatch(expected: Seq<AddressedRegion>, active: Seq<TerrainAssignment>, i: int) -> bool {
    i >= expected.len() || expected[i].global_region != active[i].global_region->0
        || expected[i].local_region_id != active[i].region_id
}

/// Entries among the first `n` that do not match the window.
pub open spec fn mismatches(expected: Seq<AddressedRegion>, active: Seq<TerrainAssignment>, n: nat) -> nat
    decreases n,
{
    if n == 0 {
        0
    } else {
        mismatches(expected, active, (n - 1) as nat) + if entry_mismatch(expected, active, n - 1) {
            1nat
        } else {
            0nat
        }
    }
}

/// Entries among the first `n` whose global region an earlier entry has.
pub open spec fn duplicates(active: Seq<TerrainAssignment>, n: nat) -> nat
    decreases n,
{
    if n == 0 {
        0
    } else {
        duplicates(active, (n - 1) as nat) + if exists|j: int|
            0 <= j < n - 1 && (#[trigger] active[j]).global_region == active[n - 1].global_region {
            1nat
        } else {
            0nat
        }
    }
}

/// The regions of a global window, in window order.
pub open spec fn window_regions(config: GlobalTerrainConfig) -> Seq<AddressedRegion> {
    let side = local_of(config).side();
    Seq::new(side * side, |k: int| addressed_at(config, k))
}

/// Entry `i`, whose global region is `global`, matches the window's `i`-th
/// region.
fn entry_matches(expected: &Vec<AddressedRegion>, active: &Vec<TerrainAssignment>, i: usize, global: RegionCoord) -> (r:
    bool)
    requires
        i < active@.len(),
        active@[i as int].global_region == Some(global),
    ensures
        r == !entry_mismatch(expected@, active@, i as int),
{
    i < expected.len() && expected[i].global_region.x == global.x && expected[i].global_region.z
        == global.z && expected[i].local_region_id == active[i].region_id
}

/// Some entry before `i` has the global region `global`.
fn seen_before(active: &Vec<TerrainAssignment>, i: usize, global: RegionCoord) -> (r: bool)
    requires
        i <= active@.len(),
    ensures
        r == exists|k: int| 0 <= k < i && (#[trigger] active@[k]).global_region == Some(global),
{
    let mut j: usize = 0;
    while j < i
        invariant
            j <= i,
            i <= active@.len(),
            forall|k: int| 0 <= k < j ==> (#[trigger] active@[k]).global_region != Some(global),
        decreases i - j,
    {
        let same = match active[j].global_region {
            Some(g) => g.x == global.x && g.z == global.z,
            None => false,
        };
        if same {
            return true;
        }
        j += 1;
    }
    false
}

/// The mapping bytes, mismatches against `expected` and duplicates of the
/// entries, or `None` when an entry has no global region.
fn scan_mapping(expected: &Vec<AddressedRegion>, active: &Vec<TerrainAssignment>) -> (r: Option<(Vec<u8>, usize, usize)>)
    ensures
        (exists|i: int| 0 <= i < active@.len() && (#[trigger] active@[i]).global_region is None) ==> r is None,
        !(exists|i: int| 0 <= i < active@.len() && (#[trigger] active@[i]).global_region is None) ==> (r matches Some(
            t,
        ) && {
            &&& t.0@ == global_mapping_bytes(active@)
            &&& t.1 == mismatches(expected@, active@, active@.len())
            &&& t.2 == duplicates(active@, active@.len())
            &&& t.1 <= active@.len()
        }),
{
    let n = active.len();
    let mut bytes: Vec<u8> = Vec::new();
    let mut mismatch_count: usize = 0;
    let mut duplicate_count: usize = 0;
    let mut i: usize = 0;
    while i < n
        invariant
            n == active@.len(),
            i <= n,
            forall|j: int| 0 <= j < i ==> (#[trigger] active@[j]).global_region is Some,
            bytes@ == global_mapping_bytes(active@.take(i as int)),
            mismatch_count == mismatches(expected@, active@, i as nat),
            duplicate_count == duplicates(active@, i as nat),
            mismatch_count <= i,
            duplicate_count <= i,
        decreases n - i,
    {
        let assignment = active[i];
        let global = match assignment.global_region {
            Some(g) => g,
            None => {
                proof {
                    assert((active@[i as int]).global_region is None);
                }
                return None;
            },
        };
        proof {
            assert(active@.take(i + 1).drop_last() =~= active@.take(i as int));
            assert(active@.take(i + 1).last() == active@[i as int]);
        }
        push_i64_le(&mut bytes, global.x);
        push_i64_le(&mut bytes, global.z);
        push_u32_le(&mut bytes, assignment.region_id);
        if !entry_matches(expected, active, i, global) {
            mismatch_count += 1;
        }
        if seen_before(active, i, global) {
            duplicate_count += 1;
        }
        i += 1;
    }
    proof {
        assert(active@.take(n as int) =~= active@);
    }
    Some((bytes, mismatch_count, duplicate_count))
}

/// The global addressing evidence of a terrain mapping: refused when the
/// window cannot be addressed or an entry has no global region; otherwise
/// the digest of the mapping, the entries that repeat a global region, and
/// the entries that differ from the window's regions, plus the difference
/// in length.
pub fn global_evidence(config: GlobalTerrainConfig, active: &Vec<TerrainAssignment>) -> (r: Result<
    GlobalAddressEvidence,
    GlobalEvidenceError,
>)
    requires
        config.wf(),
        2 * active@.len() <= usize::MAX,
    ensures
        ({
            let side = local_of(config).side();
            if side * side > ACTIVE_REGION_CAPACITY {
                r == Err::<GlobalAddressEvidence, GlobalEvidenceError>(
                    GlobalEvidenceError::Config(ConfigError::ActiveCapacityExceeded),
                )
            } else if exists|i: int| 0 <= i < active@.len() && (#[trigger] active@[i]).global_region is None {
                r == Err::<GlobalAddressEvidence, GlobalEvidenceError>(
                    GlobalEvidenceError::MissingGlobalRegion,
                )
            } else {
                let expected = window_regions(config);
                let n = active@.len();
                r matches Ok(ev) && {
                    &&& ev.config == config
                    &&& ev.mapping_sha256@ == sha256_hex(global_mapping_bytes(active@))
                    &&& ev.entry_count == n
                    &&& ev.duplicate_global_count == duplicates(active@, n)
                    &&& ev.mismatch_count == mismatches(expected, active@, n) + if expected.len() >= n {
                        expected.len() - n
                    } else {
                        n - expected.len()
                    }
                }
            }
        }),
{
    let expected = match config.addressed_regions() {
        Ok(regions) => regions,
        Err(e) => return Err(GlobalEvidenceError::Config(e)),
    };
    proof {
        assert(expected@ =~= window_regions(config));
    }
    let (bytes, mismatch_count, duplicate_count) = match scan_mapping(&expected, active) {
        Some(t) => t,
        None => return Err(GlobalEvidenceError::MissingGlobalRegion),
    };
    let n = active.len();
    let difference = if expected.len() >= n {
        expected.len() - n
    } else {
        n - expected.len()
    };
    Ok(
        GlobalAddressEvidence {
            config,
            mapping_sha256: sha256_hex_of(&bytes),
            entry_count: n,
            duplicate_global_count: duplicate_count,
            mismatch_count: mismatch_count + difference,
        },
    )
}

} // verus!
