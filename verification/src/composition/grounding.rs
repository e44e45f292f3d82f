use vstd::prelude::*;

use crate::digest::{le_i32, push_i32_le, sha256_hex, sha256_hex_of};
use crate::load::INSTANCES_PER_REGION;
use crate::terrain::cache::TerrainAssignment;
use crate::terrain::surface::TileHeights;

use super::fixture::{ground_at, sample_ground, CompositionFixture, TriangleClass};

verus! {

/// How many grounded objects fell in each triangle class.
#[derive(Clone, Copy, Debug, PartialEq, Eq)]
pub struct TriangleCoverage {
    pub first: u32,
    pub diagonal: u32,
    pub second: u32,
}

/// The first object whose GPU ground differs from the CPU oracle.
#[derive(Clone, Copy, Debug, PartialEq, Eq)]
pub struct GroundMismatch {
    pub logical_index: u32,
    pub region_id: u32,
    pub local_index: u32,
    pub gpu_numerator: i32,
    pub cpu_numerator: i32,
}

/// Why the grounding evidence was refused.
#[derive(Clone, Copy, Debug, PartialEq, Eq)]
pub enum GroundError {
    /// The terrain mapping and the published tiles differ in length.
    ShapeMismatch,
    /// A tile is not the one its mapping entry names.
    TileMismatch,
    /// The GPU or CPU numerators are not one per candidate.
    CandidateCount,
    /// Some GPU numerators differ from the CPU oracle: the first of them,
    /// and how many.
    Diverged(GroundMismatch, u32),
}

/// The CPU ground of every object, region by region, and how the objects
/// spread over the triangle classes.
#[derive(Debug)]
pub struct GroundOracle {
    pub numerators: Vec<i32>,
    pub triangles: TriangleCoverage,
}

/// The agreed ground numerators: their count, digests and range.
#[derive(Debug)]
pub struct GroundComparison {
    pub candidate_count: u32,
    pub gpu_sha256: String,
    pub cpu_sha256: String,
    pub minimum_numerator: i32,
    pub maximum_numerator: i32,
}

/// The ground and triangle of each object of one region, from its lattice
/// positions.
pub open spec fn region_grounds(tile: TileHeights, fixture: CompositionFixture, lattices: Seq<[u32; 2]>) -> Seq<
    (int, TriangleClass),
> {
    Seq::new(lattices.len(), |k: int| ground_at(tile, k, fixture, (lattices[k][0] as int, lattices[k][1] as int)))
}

/// The grounds of the objects of the first `n` regions, region by region.
pub open spec fn grounds(
    tiles: Seq<TileHeights>,
    fixture: CompositionFixture,
    lattices: Seq<Vec<[u32; 2]>>,
    n: nat,
) -> Seq<(int, TriangleClass)>
    decreases n,
{
    if n == 0 {
        Seq::empty()
    } else {
        grounds(tiles, fixture, lattices, (n - 1) as nat) + region_grounds(tiles[n - 1], fixture, lattices[n - 1]@)
    }
}

/// How many of `samples` fall in triangle class `class`.
pub open spec fn class_count(samples: Seq<(int, TriangleClass)>, class: TriangleClass) -> nat
    decreases samples.len(),
{
    if samples.len() == 0 {
        0
    } else {
        class_count(samples.drop_last(), class) + if samples.last().1 == class {
            1nat
        } else {
            0nat
        }
    }
}

/// Some tile is not the one its mapping entry names.
pub open spec fn tile_mismatch(assignments: Seq<TerrainAssignment>, tiles: Seq<TileHeights>) -> bool {
    exists|i: int| 0 <= i < assignments.len() && (#[trigger] assignments[i]).region_id != tiles[i].region_id
}

/// What the ground oracle gives: refused when the mapping and the tiles
/// differ in length or a tile is not the mapping's; otherwise the grounds,
/// region by region, and the triangle counts.
pub open spec fn oracle_result(
    assignments: Seq<TerrainAssignment>,
    tiles: Seq<TileHeights>,
    fixture: CompositionFixture,
    lattices: Seq<Vec<[u32; 2]>>,
    r: Result<GroundOracle, GroundError>,
) -> bool {
    if assignments.len() != tiles.len() {
        r == Err::<GroundOracle, GroundError>(GroundError::ShapeMismatch)
    } else if tile_mismatch(assignments, tiles) {
        r == Err::<GroundOracle, GroundError>(GroundError::TileMismatch)
    } else {
        let all = grounds(tiles, fixture, lattices, tiles.len());
        r matches Ok(o) && {
            &&& o.numerators@.len() == all.len()
            &&& forall|i: int| 0 <= i < all.len() ==> o.numerators@[i] as int == (#[trigger] all[i]).0
            &&& o.triangles.first == class_count(all, TriangleClass::First)
            &&& o.triangles.diagonal == class_count(all, TriangleClass::Diagonal)
            &&& o.triangles.second == class_count(all, TriangleClass::Second)
        }
    }
}

proof fn lemma_class_counts(samples: Seq<(int, TriangleClass)>)
    ensures
        class_count(samples, TriangleClass::First) + class_count(samples, TriangleClass::Diagonal) + class_count(
            samples,
            TriangleClass::Second,
        ) == samples.len(),
    decreases samples.len(),
{
    if samples.len() > 0 {
        lemma_class_counts(samples.drop_last());
    }
}

proof fn lemma_grounds_len(tiles: Seq<TileHeights>, fixture: CompositionFixture, lattices: Seq<Vec<[u32; 2]>>, n: nat)
    requires
        n <= lattices.len(),
        forall|i: int| 0 <= i < lattices.len() ==> (#[trigger] lattices[i])@.len() <= INSTANCES_PER_REGION,
    ensures
        grounds(tiles, fixture, lattices, n).len() <= n * INSTANCES_PER_REGION,
    decreases n,
{
    if n > 0 {
        lemma_grounds_len(tiles, fixture, lattices, (n - 1) as nat);
    }
}

/// The CPU ground of every object of the published pair, as
/// `oracle_result` says: each region's objects sampled at their lattice
/// positions on that region's tile.
pub fn ground_oracle(
    assignments: &Vec<TerrainAssignment>,
    tiles: &Vec<TileHeights>,
    fixture: CompositionFixture,
    lattices: &Vec<Vec<[u32; 2]>>,
) -> (r: Result<GroundOracle, GroundError>)
    requires
        lattices@.len() == assignments@.len(),
        forall|i: int| 0 <= i < lattices@.len() ==> (#[trigger] lattices@[i])@.len() <= INSTANCES_PER_REGION,
        forall|i: int| 0 <= i < tiles@.len() ==> (#[trigger] tiles@[i]).wf(),
        assignments@.len() * INSTANCES_PER_REGION <= u32::MAX,
    ensures
        oracle_result(assignments@, tiles@, fixture, lattices@, r),
{
    if assignments.len() != tiles.len() {
        return Err(GroundError::ShapeMismatch);
    }
    let n = tiles.len();
    let mut numerators: Vec<i32> = Vec::new();
    let mut first: u32 = 0;
    let mut diagonal: u32 = 0;
    let mut second: u32 = 0;
    let mut i: usize = 0;
    while i < n
        invariant
            n == tiles@.len(),
            n == assignments@.len(),
            n == lattices@.len(),
            i <= n,
            forall|j: int| 0 <= j < lattices@.len() ==> (#[trigger] lattices@[j])@.len() <= INSTANCES_PER_REGION,
            forall|j: int| 0 <= j < tiles@.len() ==> (#[trigger] tiles@[j]).wf(),
            n * INSTANCES_PER_REGION <= u32::MAX,
            forall|j: int| 0 <= j < i ==> (#[trigger] assignments@[j]).region_id == tiles@[j].region_id,
            ({
                let all = grounds(tiles@, fixture, lattices@, i as nat);
                &&& numerators@.len() == all.len()
                &&& forall|k: int| 0 <= k < all.len() ==> numerators@[k] as int == (#[trigger] all[k]).0
                &&& first == class_count(all, TriangleClass::First)
                &&& diagonal == class_count(all, TriangleClass::Diagonal)
                &&& second == class_count(all, TriangleClass::Second)
            }),
        decreases n - i,
    {
        if assignments[i].region_id != tiles[i].region_id {
            proof {
                assert(tile_mismatch(assignments@, tiles@)) by {
                    assert(assignments@[i as int].region_id != tiles@[i as int].region_id);
                }
            }
            return Err(GroundError::TileMismatch);
        }
        let tile = &tiles[i];
        let region = &lattices[i];
        let ghost before = grounds(tiles@, fixture, lattices@, i as nat);
        proof {
            lemma_grounds_len(tiles@, fixture, lattices@, i as nat);
            lemma_class_counts(before);
        }
        let m = region.len();
        let mut k: usize = 0;
        while k < m
            invariant
                m == region@.len(),
                m <= INSTANCES_PER_REGION,
                k <= m,
                tile.wf(),
                *tile == tiles@[i as int],
                *region == lattices@[i as int],
                before.len() <= i * INSTANCES_PER_REGION,
                (i + 1) * INSTANCES_PER_REGION <= u32::MAX,
                ({
                    let all = before + region_grounds(*tile, fixture, region@).take(k as int);
                    &&& numerators@.len() == all.len()
                    &&& forall|j: int| 0 <= j < all.len() ==> numerators@[j] as int == (#[trigger] all[j]).0
                    &&& first == class_count(all, TriangleClass::First)
                    &&& diagonal == class_count(all, TriangleClass::Diagonal)
                    &&& second == class_count(all, TriangleClass::Second)
                }),
            decreases m - k,
        {
            let ghost all = before + region_grounds(*tile, fixture, region@).take(k as int);
            let ghost next = before + region_grounds(*tile, fixture, region@).take(k + 1);
            proof {
                assert(next.drop_last() =~= all);
                lemma_class_counts(all);
                assert(all.len() < (i + 1) * INSTANCES_PER_REGION) by (nonlinear_arith)
                    requires
                        all.len() == before.len() + k,
                        before.len() <= i * INSTANCES_PER_REGION,
                        k < m,
                        m <= INSTANCES_PER_REGION,
                ;
            }
            let (value, triangle) = sample_ground(tile, k, fixture, region[k]);
            proof {
                assert(next.len() == all.len() + 1);
                assert(next[all.len() as int] == region_grounds(*tile, fixture, region@)[k as int]);
                assert(next.last() == (value as int, triangle));
            }
            let ghost prev = numerators@;
            numerators.push(value);
            match triangle {
                TriangleClass::First => first += 1,
                TriangleClass::Diagonal => diagonal += 1,
                TriangleClass::Second => second += 1,
            }
            proof {
                assert forall|j: int| 0 <= j < next.len() implies numerators@[j] as int == (#[trigger] next[j]).0 by {
                    if j < all.len() {
                        assert(next.drop_last()[j] == next[j]);
                        assert(prev[j] as int == all[j].0);
                    }
                }
            }
            k += 1;
        }
        proof {
            assert(region_grounds(*tile, fixture, region@).take(m as int) =~= region_grounds(
                *tile,
                fixture,
                region@,
            ));
            assert(grounds(tiles@, fixture, lattices@, (i + 1) as nat) == before + region_grounds(
                *tile,
                fixture,
                region@,
            ));
        }
        i += 1;
    }
    proof {
        if tile_mismatch(assignments@, tiles@) {
            let j = choose|j: int|
                0 <= j < assignments@.len() && (#[trigger] assignments@[j]).region_id != tiles@[j].region_id;
            assert(assignments@[j].region_id == tiles@[j].region_id);
        }
    }
    Ok(GroundOracle { numerators, triangles: TriangleCoverage { first, diagonal, second } })
}

/// The little-endian bytes of `values`, one after another.
pub open spec fn i32_bytes(values: Seq<i32>) -> Seq<u8>
    decreases values.len(),
{
    if values.len() == 0 {
        Seq::empty()
    } else {
        i32_bytes(values.drop_last()) + le_i32(values.last())
    }
}

/// The least of `values`, or 0 when there are none.
pub open spec fn minimum(values: Seq<i32>) -> int
    decreases values.len(),
{
    if values.len() == 0 {
        0
    } else if values.len() == 1 {
        values[0] as int
    } else if (values.last() as int) < minimum(values.drop_last()) {
        values.last() as int
    } else {
        minimum(values.drop_last())
    }
}

/// The greatest of `values`, or 0 when there are none.
pub open spec fn maximum(values: Seq<i32>) -> int
    decreases values.len(),
{
    if values.len() == 0 {
        0
    } else if values.len() == 1 {
        values[0] as int
    } else if (values.last() as int) > maximum(values.drop_last()) {
        values.last() as int
    } else {
        maximum(values.drop_last())
    }
}

/// How many of the first `n` positions hold different values.
pub open spec fn differences(gpu: Seq<i32>, cpu: Seq<i32>, n: nat) -> nat
    decreases n,
{
    if n == 0 {
        0
    } else {
        differences(gpu, cpu, (n - 1) as nat) + if gpu[n - 1] != cpu[n - 1] {
            1nat
        } else {
            0nat
        }
    }
}

/// Position `i` holds the first difference.
pub open spec fn first_difference_at(gpu: Seq<i32>, cpu: Seq<i32>, i: int) -> bool {
    &&& 0 <= i < gpu.len()
    &&& gpu[i] != cpu[i]
    &&& forall|j: int| 0 <= j < i ==> gpu[j] == cpu[j]
}

/// What the comparison of GPU and CPU ground gives: refused when either is
/// not one numerator per candidate, or when they differ anywhere (with the
/// first difference, its region and local index, and the count); otherwise
/// the candidate count, the digests of both and the GPU range.
pub open spec fn comparison_result(
    gpu: Seq<i32>,
    cpu: Seq<i32>,
    assignments: Seq<TerrainAssignment>,
    candidate_count: int,
    r: Result<GroundComparison, GroundError>,
) -> bool {
    if gpu.len() != candidate_count || cpu.len() != candidate_count {
        r == Err::<GroundComparison, GroundError>(GroundError::CandidateCount)
    } else if exists|i: int| 0 <= i < gpu.len() && gpu[i] != cpu[i] {
        r matches Err(GroundError::Diverged(m, count)) && ground_divergence(gpu, cpu, assignments, m, count)
    } else {
        r matches Ok(c) && ground_agreement(gpu, cpu, candidate_count, c)
    }
}

/// `m` is the first position where `gpu` and `cpu` differ, with its region
/// and local index, and `count` how many positions differ.
pub open spec fn ground_divergence(
    gpu: Seq<i32>,
    cpu: Seq<i32>,
    assignments: Seq<TerrainAssignment>,
    m: GroundMismatch,
    count: u32,
) -> bool {
    &&& first_difference_at(gpu, cpu, m.logical_index as int)
    &&& m.region_id == assignments[(m.logical_index / INSTANCES_PER_REGION) as int].region_id
    &&& m.local_index == m.logical_index % INSTANCES_PER_REGION
    &&& m.gpu_numerator == gpu[m.logical_index as int]
    &&& m.cpu_numerator == cpu[m.logical_index as int]
    &&& count == differences(gpu, cpu, gpu.len())
}

/// `c` reports agreeing numerators: their count, both digests and the GPU
/// range.
pub open spec fn ground_agreement(gpu: Seq<i32>, cpu: Seq<i32>, candidate_count: int, c: GroundComparison) -> bool {
    &&& c.candidate_count == candidate_count
    &&& c.gpu_sha256@ == sha256_hex(i32_bytes(gpu))
    &&& c.cpu_sha256@ == sha256_hex(i32_bytes(cpu))
    &&& c.minimum_numerator == minimum(gpu)
    &&& c.maximum_numerator == maximum(gpu)
}

/// The digest of `values`' little-endian bytes.
fn numerator_digest(values: &Vec<i32>) -> (r: String)
    ensures
        r@ == sha256_hex(i32_bytes(values@)),
{
    let mut bytes: Vec<u8> = Vec::new();
    let mut i: usize = 0;
    while i < values.len()
        invariant
            i <= values@.len(),
            bytes@ == i32_bytes(values@.take(i as int)),
        decreases values@.len() - i,
    {
        proof {
            assert(values@.take(i + 1).drop_last() =~= values@.take(i as int));
        }
        push_i32_le(&mut bytes, values[i]);
        i += 1;
    }
    proof {
        assert(values@.take(values@.len() as int) =~= values@);
    }
    sha256_hex_of(&bytes)
}

/// Compares the GPU ground numerators with the CPU oracle, as
/// `comparison_result` says.
pub fn compare_ground(
    gpu: &Vec<i32>,
    cpu: &Vec<i32>,
    assignments: &Vec<TerrainAssignment>,
    candidate_count: usize,
) -> (r: Result<GroundComparison, GroundError>)
    requires
        candidate_count <= assignments@.len() * INSTANCES_PER_REGION,
        assignments@.len() * INSTANCES_PER_REGION <= u32::MAX,
    ensures
        comparison_result(gpu@, cpu@, assignments@, candidate_count as int, r),
{
    if gpu.len() != candidate_count || cpu.len() != candidate_count {
        return Err(GroundError::CandidateCount);
    }
    let n = candidate_count;
    let mut count: u32 = 0;
    let mut first: Option<usize> = None;
    let mut low: i32 = 0;
    let mut high: i32 = 0;
    let mut i: usize = 0;
    while i < n
        invariant
            n == gpu@.len(),
            n == cpu@.len(),
            n <= u32::MAX,
            i <= n,
            count == differences(gpu@, cpu@, i as nat),
            count <= i,
            match first {
                Some(f) => f < i && first_difference_at(gpu@, cpu@, f as int),
                None => forall|j: int| 0 <= j < i ==> gpu@[j] == cpu@[j],
            },
            low == minimum(gpu@.take(i as int)),
            high == maximum(gpu@.take(i as int)),
        decreases n - i,
    {
        proof {
            assert(gpu@.take(i + 1).drop_last() =~= gpu@.take(i as int));
        }
        let value = gpu[i];
        if i == 0 {
            low = value;
            high = value;
        } else {
            if value < low {
                low = value;
            }
            if value > high {
                high = value;
            }
        }
        if value != cpu[i] {
            count += 1;
            if first.is_none() {
                first = Some(i);
            }
        }
        i += 1;
    }
    proof {
        assert(gpu@.take(n as int) =~= gpu@);
    }
    match first {
        Some(f) => {
            let region = f / 1024;
            proof {
                assert(region < assignments@.len()) by (nonlinear_arith)
                    requires
                        region == f / 1024,
                        f < n,
                        n <= assignments@.len() * 1024,
                ;
            }
            let mismatch = GroundMismatch {
                logical_index: f as u32,
                region_id: assignments[region].region_id,
                local_index: (f % 1024) as u32,
                gpu_numerator: gpu[f],
                cpu_numerator: cpu[f],
            };
            Err(GroundError::Diverged(mismatch, count))
        },
        None => {
            let gpu_sha256 = numerator_digest(gpu);
            let cpu_sha256 = numerator_digest(cpu);
            Ok(
                GroundComparison {
                    candidate_count: n as u32,
                    gpu_sha256,
                    cpu_sha256,
                    minimum_numerator: low,
                    maximum_numerator: high,
                },
            )
        },
    }
}

} // verus!
