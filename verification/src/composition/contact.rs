use vstd::prelude::*;

use crate::digest::{le_i32, le_u32, push_i32_le, push_u32_le, sha256_hex, sha256_hex_of};
use crate::load::INSTANCES_PER_REGION;
use vstd::relations::{sorted_by, total_ordering};
use crate::terrain::cache::TerrainAssignment;
use crate::terrain::projection::{ProjectionError, TerrainProjection};
use crate::terrain::surface::{selected_surface_q18, selected_surface_spec, TileHeights, CELL_SIDE, Q18_DENOMINATOR};

verus! {

/// The nearest rank of `percent` in a sample of `len`: `ceil(len * percent
/// / 100)`, the product saturating at `usize::MAX`.
pub open spec fn nearest_rank(len: nat, percent: nat) -> nat {
    let product = if len * percent > usize::MAX {
        usize::MAX as nat
    } else {
        len * percent
    };
    ((product + 99) / 100) as nat
}

/// The element that `percentile` reports: the one at the nearest rank (the
/// first when the rank is zero), or zero when there is none.
pub open spec fn percentile_of(sorted: Seq<u32>, percent: nat) -> u32 {
    let rank = nearest_rank(sorted.len(), percent);
    let index = if rank == 0 {
        0
    } else {
        rank - 1
    };
    if index < sorted.len() {
        sorted[index as int]
    } else {
        0
    }
}

/// The nearest-rank percentile of an ascending sample.
pub fn percentile(sorted: &[u32], percent: usize) -> (r: u32)
    ensures
        r == percentile_of(sorted@, percent as nat),
{
    let len = sorted.len();
    let product = match len.checked_mul(percent) {
        Some(value) => value,
        None => usize::MAX,
    };
    let rank = product / 100 + if product % 100 != 0 {
        1
    } else {
        0
    };
    proof {
        assert(rank == (product + 99) / 100) by (nonlinear_arith)
            requires
                rank == product / 100 + if product % 100 != 0 {
                    1int
                } else {
                    0int
                },
                product >= 0,
        ;
    }
    let index = if rank == 0 {
        0
    } else {
        rank - 1
    };
    if index < len {
        sorted[index]
    } else {
        0
    }
}

/// Law: for an ascending, non-empty sample and a percent in `1..=100`, the
/// percentile is a sample value with at least `percent`% of the sample at or
/// below it.
pub proof fn law_percentile_is_nearest_rank(sorted: Seq<u32>, percent: nat)
    requires
        sorted.len() > 0,
        1 <= percent <= 100,
        sorted.len() * percent <= usize::MAX,
        forall|i: int, j: int| 0 <= i <= j < sorted.len() ==> sorted[i] <= sorted[j],
    ensures
        ({
            let rank = nearest_rank(sorted.len(), percent);
            let r = percentile_of(sorted, percent);
            &&& 1 <= rank <= sorted.len()
            &&& r == sorted[rank - 1]
            &&& rank * 100 >= sorted.len() * percent
            &&& forall|j: int| 0 <= j < rank ==> sorted[j] <= r
        }),
{
    let n = sorted.len();
    let rank = nearest_rank(n, percent);
    assert(n * percent >= 1) by (nonlinear_arith)
        requires
            n >= 1,
            percent >= 1,
    ;
    assert(n * percent <= n * 100) by (nonlinear_arith)
        requires
            percent <= 100,
    ;
    assert(rank >= 1 && rank <= n && rank * 100 >= n * percent) by (nonlinear_arith)
        requires
            rank == (n * percent + 99) / 100,
            1 <= n * percent <= n * 100,
    ;
}

/// A residual beyond this many 1/2^18 steps exceeds contact tolerance.
pub const CONTACT_THRESHOLD_NUMERATOR: u32 = 32_768;

/// Why the contact probe refused a snapshot.
#[derive(Clone, Copy, Debug, PartialEq, Eq)]
pub enum ContactError {
    /// Mapping, tiles, identities and positions differ in length.
    ShapeMismatch,
    /// The exact ground does not hold one height per sample.
    GroundShapeMismatch,
    /// The ground denominator does not divide the surface denominator.
    DenominatorIncompatible,
    /// A tile belongs to another region than its assignment.
    TileMismatch,
    /// The projection refused a region.
    Projection(ProjectionError),
    /// A position is not a finite number.
    PositionNotFinite,
    /// A position lies outside its owning region.
    PositionOutsideRegion,
}

/// One object's contact with the drawn terrain.
#[derive(Clone, Copy, Debug, PartialEq, Eq)]
pub struct ContactSample {
    pub active_index: u32,
    pub local_id: u32,
    pub region_id: u32,
    pub owner_lod: u32,
    pub exact_q18: i32,
    pub selected_q18: i32,
    pub residual_q18: i32,
}

/// What the contact probe reads: the terrain snapshot, each object's
/// identity and its position in 1/256 cells of its region (or why it has
/// none), the exact ground under each object, and the camera's patch.
pub struct ContactInput {
    pub assignments: Vec<TerrainAssignment>,
    pub tiles: Vec<TileHeights>,
    pub local_ids: Vec<Vec<u32>>,
    pub positions: Vec<Vec<Result<[u32; 2], ContactError>>>,
    pub exact_ground: Vec<i32>,
    pub ground_denominator: u32,
    pub camera_patch: [i32; 2],
    pub projection: TerrainProjection,
}

/// The first `n` regions of the mapping in render space, or the first
/// refusal.
pub open spec fn projected_regions(
    assignments: Seq<TerrainAssignment>,
    projection: TerrainProjection,
    n: nat,
) -> Result<Seq<u32>, ContactError>
    decreases n,
{
    if n == 0 {
        Ok(Seq::empty())
    } else {
        match projected_regions(assignments, projection, (n - 1) as nat) {
            Err(e) => Err(e),
            Ok(done) => match projection.region_id_result(n - 1, assignments[n - 1].region_id) {
                Err(e) => Err(ContactError::Projection(e)),
                Ok(id) => Ok(done.push(id)),
            },
        }
    }
}

/// Samples counted over the first `n` regions.
pub open spec fn sample_total(positions: Seq<Vec<Result<[u32; 2], ContactError>>>, n: nat) -> nat
    decreases n,
{
    if n == 0 {
        0
    } else {
        sample_total(positions, (n - 1) as nat) + positions[n - 1]@.len()
    }
}

/// The sample of record `li` of region `ai`: the drawn surface under its
/// position against the exact ground, scaled to 1/2^18 by `scale`.
pub open spec fn sample_of(input: ContactInput, regions: Seq<u32>, scale: int, ai: int, li: int) -> Result<
    ContactSample,
    ContactError,
> {
    match input.positions@[ai]@[li] {
        Err(e) => Err(e),
        Ok(q8) => {
            let (selected, lod) = selected_surface_spec(
                input.tiles@[ai],
                regions[ai],
                q8[0] as int,
                q8[1] as int,
                regions,
                input.camera_patch,
            );
            let exact = input.exact_ground@[ai * INSTANCES_PER_REGION + li] * scale;
            Ok(
                ContactSample {
                    active_index: ai as u32,
                    local_id: input.local_ids@[ai]@[li],
                    region_id: regions[ai],
                    owner_lod: lod,
                    exact_q18: exact as i32,
                    selected_q18: selected as i32,
                    residual_q18: (selected - exact) as i32,
                },
            )
        },
    }
}

/// The samples of the first `n` records of region `ai`, or the first
/// refusal.
pub open spec fn region_samples(input: ContactInput, regions: Seq<u32>, scale: int, ai: int, n: nat) -> Result<
    Seq<ContactSample>,
    ContactError,
>
    decreases n,
{
    if n == 0 {
        Ok(Seq::empty())
    } else {
        match region_samples(input, regions, scale, ai, (n - 1) as nat) {
            Err(e) => Err(e),
            Ok(done) => match sample_of(input, regions, scale, ai, n - 1) {
                Err(e) => Err(e),
                Ok(sample) => Ok(done.push(sample)),
            },
        }
    }
}

/// The samples of the first `n` regions in order, each region refused when
/// its tile belongs to another region; or the first refusal.
pub open spec fn all_samples(input: ContactInput, regions: Seq<u32>, scale: int, n: nat) -> Result<
    Seq<ContactSample>,
    ContactError,
>
    decreases n,
{
    if n == 0 {
        Ok(Seq::empty())
    } else {
        match all_samples(input, regions, scale, (n - 1) as nat) {
            Err(e) => Err(e),
            Ok(done) => if input.assignments@[n - 1].region_id != input.tiles@[n - 1].region_id {
                Err(ContactError::TileMismatch)
            } else {
                match region_samples(input, regions, scale, n - 1, input.positions@[n - 1]@.len()) {
                    Err(e) => Err(e),
                    Ok(more) => Ok(done + more),
                }
            },
        }
    }
}

/// The input is well shaped for sampling: one tile, identity list and
/// position list per assignment, complete tiles, an identity for every
/// position, positions within their region, and room in the ground for
/// every record slot.
pub open spec fn input_wf(input: ContactInput) -> bool {
    let n = input.assignments@.len();
    &&& input.tiles@.len() == n
    &&& input.local_ids@.len() == n
    &&& input.positions@.len() == n
    &&& n <= 1024
    &&& forall|i: int| 0 <= i < n ==> (#[trigger] input.tiles@[i]).wf()
    &&& forall|i: int|
        0 <= i < n ==> #[trigger] input.positions@[i]@.len() <= input.local_ids@[i]@.len()
    &&& forall|i: int|
        0 <= i < n ==> #[trigger] input.positions@[i]@.len() <= INSTANCES_PER_REGION
    &&& forall|i: int|
        0 <= i < n ==> i * INSTANCES_PER_REGION + (#[trigger] input.positions@[i])@.len()
            <= input.exact_ground@.len()
    &&& forall|i: int, j: int|
        0 <= i < n && 0 <= j < input.positions@[i]@.len() ==> match #[trigger] input.positions@[i]@[j] {
            Ok(q8) => q8[0] <= CELL_SIDE * 256 && q8[1] <= CELL_SIDE * 256,
            Err(_) => true,
        }
}

/// The `li`-th record of region `ai` is sampled: every earlier region was
/// sampled without refusal, this region's tile is its own, and its earlier
/// records were sampled without refusal.
pub open spec fn sample_reached(input: ContactInput, regions: Seq<u32>, scale: int, ai: int, li: int) -> bool {
    &&& all_samples(input, regions, scale, ai as nat) is Ok
    &&& input.assignments@[ai].region_id == input.tiles@[ai].region_id
    &&& region_samples(input, regions, scale, ai, li as nat) is Ok
}

/// The exact ground of the `li`-th record of region `ai`, scaled to
/// 1/2^18, and its residual against the selected surface are `i32` values.
pub open spec fn sample_fits(input: ContactInput, regions: Seq<u32>, scale: int, ai: int, li: int) -> bool {
    match input.positions@[ai]@[li] {
        Err(_) => true,
        Ok(q8) => {
            let selected = selected_surface_spec(
                input.tiles@[ai],
                regions[ai],
                q8[0] as int,
                q8[1] as int,
                regions,
                input.camera_patch,
            ).0;
            let exact = input.exact_ground@[ai * INSTANCES_PER_REGION + li] * scale;
            &&& i32::MIN <= exact <= i32::MAX
            &&& i32::MIN <= selected - exact <= i32::MAX
        },
    }
}

/// Every record that is sampled has an exact ground and a residual that
/// are `i32` values.
pub open spec fn ground_fits(input: ContactInput, regions: Seq<u32>, scale: int) -> bool {
    forall|ai: int, li: int|
        #![trigger sample_fits(input, regions, scale, ai, li)]
        0 <= ai < input.assignments@.len() && 0 <= li < input.positions@[ai]@.len() && sample_reached(
            input,
            regions,
            scale,
            ai,
            li,
        ) ==> sample_fits(input, regions, scale, ai, li)
}

/// Once the projection refuses a region, the regions stay refused.
proof fn lemma_projection_stays_refused(
    assignments: Seq<TerrainAssignment>,
    projection: TerrainProjection,
    j: nat,
    n: nat,
)
    requires
        j <= n,
        projected_regions(assignments, projection, j) is Err,
    ensures
        projected_regions(assignments, projection, n) == projected_regions(assignments, projection, j),
    decreases n - j,
{
    if j < n {
        lemma_projection_stays_refused(assignments, projection, j, (n - 1) as nat);
    }
}

/// The mapping's regions in render space, as `projected_regions` says.
fn project_regions(assignments: &Vec<TerrainAssignment>, projection: TerrainProjection) -> (r: Result<
    Vec<u32>,
    ContactError,
>)
    ensures
        match projected_regions(assignments@, projection, assignments@.len()) {
            Err(e) => r == Err::<Vec<u32>, ContactError>(e),
            Ok(ids) => r matches Ok(v) && v@ == ids,
        },
        r matches Ok(v) ==> v@.len() == assignments@.len(),
{
    let mut ids: Vec<u32> = Vec::new();
    let mut i: usize = 0;
    while i < assignments.len()
        invariant
            i <= assignments@.len(),
            projected_regions(assignments@, projection, i as nat) == Ok::<Seq<u32>, ContactError>(ids@),
            ids@.len() == i,
        decreases assignments@.len() - i,
    {
        match projection.region_id(i, assignments[i].region_id) {
            Ok(id) => ids.push(id),
            Err(e) => {
                proof {
                    lemma_projection_stays_refused(assignments@, projection, (i + 1) as nat, assignments@.len());
                }
                return Err(ContactError::Projection(e));
            },
        }
        i += 1;
    }
    Ok(ids)
}

proof fn lemma_region_stays_refused(input: ContactInput, regions: Seq<u32>, scale: int, ai: int, j: nat, n: nat)
    requires
        j <= n,
        region_samples(input, regions, scale, ai, j) is Err,
    ensures
        region_samples(input, regions, scale, ai, n) == region_samples(input, regions, scale, ai, j),
    decreases n - j,
{
    if j < n {
        lemma_region_stays_refused(input, regions, scale, ai, j, (n - 1) as nat);
    }
}

proof fn lemma_samples_stay_refused(input: ContactInput, regions: Seq<u32>, scale: int, j: nat, n: nat)
    requires
        j <= n,
        all_samples(input, regions, scale, j) is Err,
    ensures
        all_samples(input, regions, scale, n) == all_samples(input, regions, scale, j),
    decreases n - j,
{
    if j < n {
        lemma_samples_stay_refused(input, regions, scale, j, (n - 1) as nat);
    }
}

/// Appends the samples of region `ai`, as `region_samples` says.
fn collect_region(
    input: &ContactInput,
    regions: &Vec<u32>,
    scale: i32,
    ai: usize,
    samples: &mut Vec<ContactSample>,
) -> (r: Result<(), ContactError>)
    requires
        input_wf(*input),
        regions@.len() == input.assignments@.len(),
        ground_fits(*input, regions@, scale as int),
        ai < input.assignments@.len(),
        all_samples(*input, regions@, scale as int, ai as nat) is Ok,
        input.assignments@[ai as int].region_id == input.tiles@[ai as int].region_id,
    ensures
        match region_samples(*input, regions@, scale as int, ai as int, input.positions@[ai as int]@.len()) {
            Err(e) => r == Err::<(), ContactError>(e),
            Ok(more) => r is Ok && final(samples)@ == old(samples)@ + more,
        },
        r is Ok ==> final(samples)@.len() <= old(samples)@.len() + INSTANCES_PER_REGION,
        r is Ok ==> forall|i: int| 0 <= i < final(samples)@.len() ==> (#[trigger] final(samples)@[i]).owner_lod <= 2
            || (i < old(samples)@.len() && old(samples)@[i].owner_lod > 2),
{
    let ghost before = samples@;
    let records = input.positions[ai].len();
    let mut li: usize = 0;
    proof {
        assert(samples@.subrange(before.len() as int, samples@.len() as int) =~= Seq::<ContactSample>::empty());
        assert(samples@.subrange(0, before.len() as int) =~= before);
    }
    while li < records
        invariant
            input_wf(*input),
            regions@.len() == input.assignments@.len(),
            ground_fits(*input, regions@, scale as int),
            ai < input.assignments@.len(),
            all_samples(*input, regions@, scale as int, ai as nat) is Ok,
            input.assignments@[ai as int].region_id == input.tiles@[ai as int].region_id,
            records == input.positions@[ai as int]@.len(),
            li <= records,
            samples@.len() >= before.len(),
            samples@.len() == before.len() + li,
            records <= INSTANCES_PER_REGION,
            samples@.subrange(0, before.len() as int) == before,
            forall|i: int| before.len() <= i < samples@.len() ==> (#[trigger] samples@[i]).owner_lod <= 2,
            region_samples(*input, regions@, scale as int, ai as int, li as nat) == Ok::<
                Seq<ContactSample>,
                ContactError,
            >(samples@.subrange(before.len() as int, samples@.len() as int)),
        decreases records - li,
    {
        let q8 = match &input.positions[ai][li] {
            Ok(q8) => *q8,
            Err(e) => {
                proof {
                    lemma_region_stays_refused(*input, regions@, scale as int, ai as int, (li + 1) as nat, records as nat);
                }
                return Err(*e);
            },
        };
        proof {
            assert(input.tiles@[ai as int].wf());
            assert(match input.positions@[ai as int]@[li as int] {
                Ok(q8) => q8[0] <= CELL_SIDE * 256 && q8[1] <= CELL_SIDE * 256,
                Err(_) => true,
            });
            assert(ai * INSTANCES_PER_REGION + input.positions@[ai as int]@.len() <= input.exact_ground@.len());
        }
        let (selected, lod) = selected_surface_q18(&input.tiles[ai], regions[ai], q8, regions, input.camera_patch);
        let logical = ai * (INSTANCES_PER_REGION as usize) + li;
        let ground = input.exact_ground[logical];
        proof {
            assert(sample_reached(*input, regions@, scale as int, ai as int, li as int));
            assert(sample_fits(*input, regions@, scale as int, ai as int, li as int));
        }
        let exact = ground * scale;
        let sample = ContactSample {
            active_index: ai as u32,
            local_id: input.local_ids[ai][li],
            region_id: regions[ai],
            owner_lod: lod,
            exact_q18: exact,
            selected_q18: selected,
            residual_q18: selected - exact,
        };
        let ghost region_part = samples@.subrange(before.len() as int, samples@.len() as int);
        samples.push(sample);
        proof {
            assert(samples@.subrange(0, before.len() as int) =~= before);
            assert(samples@.subrange(before.len() as int, samples@.len() as int) =~= region_part.push(sample));
        }
        li += 1;
    }
    proof {
        assert(samples@ =~= before + samples@.subrange(before.len() as int, samples@.len() as int));
    }
    Ok(())
}

/// Every sample of the snapshot in order, as `all_samples` says.
fn collect_samples(input: &ContactInput, regions: &Vec<u32>, scale: i32) -> (r: Result<
    Vec<ContactSample>,
    ContactError,
>)
    requires
        input_wf(*input),
        regions@.len() == input.assignments@.len(),
        ground_fits(*input, regions@, scale as int),
    ensures
        match all_samples(*input, regions@, scale as int, input.assignments@.len()) {
            Err(e) => r == Err::<Vec<ContactSample>, ContactError>(e),
            Ok(samples) => r matches Ok(v) && v@ == samples,
        },
        r matches Ok(v) ==> v@.len() <= 0x10_0000,
        r matches Ok(v) ==> forall|i: int| 0 <= i < v@.len() ==> (#[trigger] v@[i]).owner_lod <= 2,
{
    let n = input.assignments.len();
    let mut samples: Vec<ContactSample> = Vec::new();
    let mut ai: usize = 0;
    while ai < n
        invariant
            input_wf(*input),
            n == input.assignments@.len(),
            regions@.len() == n,
            ground_fits(*input, regions@, scale as int),
            ai <= n,
            all_samples(*input, regions@, scale as int, ai as nat) == Ok::<Seq<ContactSample>, ContactError>(samples@),
            samples@.len() <= ai * INSTANCES_PER_REGION,
            forall|i: int| 0 <= i < samples@.len() ==> (#[trigger] samples@[i]).owner_lod <= 2,
        decreases n - ai,
    {
        if input.assignments[ai].region_id != input.tiles[ai].region_id {
            proof {
                lemma_samples_stay_refused(*input, regions@, scale as int, (ai + 1) as nat, n as nat);
            }
            return Err(ContactError::TileMismatch);
        }
        match collect_region(input, regions, scale, ai, &mut samples) {
            Ok(()) => {},
            Err(e) => {
                proof {
                    lemma_samples_stay_refused(*input, regions@, scale as int, (ai + 1) as nat, n as nat);
                }
                return Err(e);
            },
        }
        ai += 1;
    }
    Ok(samples)
}

/// The first sample whose residual exceeds tolerance.
#[derive(Clone, Copy, Debug, PartialEq, Eq)]
pub struct ContactExceedance {
    pub region_id: u32,
    pub local_index: u32,
    pub owner_patch_lod: u32,
    pub exact_ground_q18: i32,
    pub selected_surface_q18: i32,
    pub residual_q18: i32,
}

/// What the contact probe reports: how far the drawn terrain lies from the
/// exact ground under every object, in units of 1/2^18.
#[derive(Debug)]
pub struct ContactProbe {
    pub denominator: u32,
    pub sample_count: u32,
    pub owner_patch_lod_counts: [u32; 3],
    pub selected_surface_sha256: String,
    pub residual_sha256: String,
    pub identity_keyed_selected_surface_sha256: String,
    pub identity_keyed_residual_sha256: String,
    pub negative_count: u32,
    pub zero_count: u32,
    pub positive_count: u32,
    pub minimum_residual_numerator: i32,
    pub maximum_residual_numerator: i32,
    pub maximum_absolute_numerator: u32,
    pub absolute_p50_numerator: u32,
    pub absolute_p95_numerator: u32,
    pub absolute_p99_numerator: u32,
    pub threshold_numerator: u32,
    pub exceedance_count: u32,
    pub first_exceedance: Option<ContactExceedance>,
}

/// `|r|` as an unsigned value.
pub open spec fn magnitude(r: i32) -> u32 {
    if r < 0 {
        (-(r as int)) as u32
    } else {
        r as u32
    }
}

/// Samples whose patch is drawn at `lod`.
pub open spec fn count_lod_samples(s: Seq<ContactSample>, lod: u32) -> int
    decreases s.len(),
{
    if s.len() == 0 {
        0
    } else {
        count_lod_samples(s.drop_last(), lod) + if s.last().owner_lod == lod { 1int } else { 0int }
    }
}

/// Samples whose residual has the sign of `sign` (-1, 0 or 1).
pub open spec fn count_sign(s: Seq<ContactSample>, sign: int) -> int
    decreases s.len(),
{
    if s.len() == 0 {
        0
    } else {
        let r = s.last().residual_q18;
        let this = if sign < 0 { r < 0 } else if sign == 0 { r == 0 } else { r > 0 };
        count_sign(s.drop_last(), sign) + if this { 1int } else { 0int }
    }
}

/// Samples whose residual exceeds tolerance.
pub open spec fn count_exceeding(s: Seq<ContactSample>) -> int
    decreases s.len(),
{
    if s.len() == 0 {
        0
    } else {
        count_exceeding(s.drop_last()) + if magnitude(s.last().residual_q18) > CONTACT_THRESHOLD_NUMERATOR {
            1int
        } else {
            0int
        }
    }
}

/// The least residual, `i32::MAX` when there is none.
pub open spec fn min_residual(s: Seq<ContactSample>) -> i32
    decreases s.len(),
{
    if s.len() == 0 {
        i32::MAX
    } else {
        let m = min_residual(s.drop_last());
        if s.last().residual_q18 < m { s.last().residual_q18 } else { m }
    }
}

/// The greatest residual, `i32::MIN` when there is none.
pub open spec fn max_residual(s: Seq<ContactSample>) -> i32
    decreases s.len(),
{
    if s.len() == 0 {
        i32::MIN
    } else {
        let m = max_residual(s.drop_last());
        if s.last().residual_q18 > m { s.last().residual_q18 } else { m }
    }
}

/// The exceedance record of a sample.
pub open spec fn exceedance_of(x: ContactSample) -> ContactExceedance {
    ContactExceedance {
        region_id: x.region_id,
        local_index: x.local_id,
        owner_patch_lod: x.owner_lod,
        exact_ground_q18: x.exact_q18,
        selected_surface_q18: x.selected_q18,
        residual_q18: x.residual_q18,
    }
}

/// The first sample beyond tolerance.
pub open spec fn first_exceedance(s: Seq<ContactSample>) -> Option<ContactExceedance>
    decreases s.len(),
{
    if s.len() == 0 {
        None
    } else {
        match first_exceedance(s.drop_last()) {
            Some(e) => Some(e),
            None => if magnitude(s.last().residual_q18) > CONTACT_THRESHOLD_NUMERATOR {
                Some(exceedance_of(s.last()))
            } else {
                None
            },
        }
    }
}

/// The residual magnitudes, in sample order.
pub open spec fn magnitudes(s: Seq<ContactSample>) -> Seq<u32> {
    Seq::new(s.len(), |i: int| magnitude(s[i].residual_q18))
}

/// Ascending order of magnitudes.
pub open spec fn ascending() -> spec_fn(u32, u32) -> bool {
    |a: u32, b: u32| a <= b
}

/// The selected surfaces' bytes, in sample order.
pub open spec fn selected_bytes(s: Seq<ContactSample>) -> Seq<u8>
    decreases s.len(),
{
    if s.len() == 0 {
        Seq::empty()
    } else {
        selected_bytes(s.drop_last()) + le_i32(s.last().selected_q18)
    }
}

/// The residuals' bytes, in sample order.
pub open spec fn residual_bytes(s: Seq<ContactSample>) -> Seq<u8>
    decreases s.len(),
{
    if s.len() == 0 {
        Seq::empty()
    } else {
        residual_bytes(s.drop_last()) + le_i32(s.last().residual_q18)
    }
}

/// `a` does not come after `b` by identity: active index, then local id.
pub open spec fn identity_le(a: ContactSample, b: ContactSample) -> bool {
    a.active_index < b.active_index || (a.active_index == b.active_index && a.local_id <= b.local_id)
}

/// Samples of `t` that do not come after `x` by identity.
pub open spec fn identity_rank(t: Seq<ContactSample>, x: ContactSample) -> nat
    decreases t.len(),
{
    if t.len() == 0 {
        0
    } else {
        identity_rank(t.drop_last(), x) + if identity_le(t.last(), x) { 1nat } else { 0nat }
    }
}

/// The samples in identity order, ties kept in sample order: each sample is
/// placed after every earlier one that does not come after it.
pub open spec fn identity_sorted(s: Seq<ContactSample>) -> Seq<ContactSample>
    decreases s.len(),
{
    if s.len() == 0 {
        Seq::empty()
    } else {
        let t = identity_sorted(s.drop_last());
        t.insert(identity_rank(t, s.last()) as int, s.last())
    }
}

/// The identity-keyed bytes of the samples in identity order, with each
/// sample's selected surface (`residual` false) or residual.
pub open spec fn identity_bytes(t: Seq<ContactSample>, residual: bool) -> Seq<u8>
    decreases t.len(),
{
    if t.len() == 0 {
        Seq::empty()
    } else {
        let x = t.last();
        identity_bytes(t.drop_last(), residual) + le_u32(x.active_index) + le_u32(x.local_id) + le_i32(
            if residual { x.residual_q18 } else { x.selected_q18 },
        )
    }
}

/// Whether `probe` summarizes `s` as the contact probe does.
pub open spec fn summarizes(probe: ContactProbe, s: Seq<ContactSample>) -> bool {
    let sorted = magnitudes(s).sort_by(ascending());
    let ordered = identity_sorted(s);
    &&& probe.denominator == Q18_DENOMINATOR
    &&& probe.sample_count == s.len()
    &&& probe.owner_patch_lod_counts@ == seq![
        count_lod_samples(s, 0) as u32,
        count_lod_samples(s, 1) as u32,
        count_lod_samples(s, 2) as u32,
    ]
    &&& probe.selected_surface_sha256@ == sha256_hex(selected_bytes(s))
    &&& probe.residual_sha256@ == sha256_hex(residual_bytes(s))
    &&& probe.identity_keyed_selected_surface_sha256@ == sha256_hex(identity_bytes(ordered, false))
    &&& probe.identity_keyed_residual_sha256@ == sha256_hex(identity_bytes(ordered, true))
    &&& probe.negative_count == count_sign(s, -1)
    &&& probe.zero_count == count_sign(s, 0)
    &&& probe.positive_count == count_sign(s, 1)
    &&& probe.minimum_residual_numerator == min_residual(s)
    &&& probe.maximum_residual_numerator == max_residual(s)
    &&& probe.maximum_absolute_numerator == (if sorted.len() == 0 { 0u32 } else { sorted.last() })
    &&& probe.absolute_p50_numerator == percentile_of(sorted, 50)
    &&& probe.absolute_p95_numerator == percentile_of(sorted, 95)
    &&& probe.absolute_p99_numerator == percentile_of(sorted, 99)
    &&& probe.threshold_numerator == CONTACT_THRESHOLD_NUMERATOR
    &&& probe.exceedance_count == count_exceeding(s)
    &&& probe.first_exceedance == first_exceedance(s)
}

proof fn lemma_ascending_total()
    ensures
        total_ordering(ascending()),
{
    let leq = ascending();
    assert(vstd::relations::reflexive(leq));
    assert(vstd::relations::antisymmetric(leq));
    assert(vstd::relations::transitive(leq));
    assert(vstd::relations::strongly_connected(leq));
}

/// The values in ascending order, as `sort_by` orders them.
fn sorted_ascending(values: &Vec<u32>) -> (r: Vec<u32>)
    ensures
        r@ == values@.sort_by(ascending()),
{
    broadcast use vstd::seq_lib::group_to_multiset_ensures;

    let mut sorted: Vec<u32> = Vec::new();
    let mut i: usize = 0;
    while i < values.len()
        invariant
            i <= values@.len(),
            sorted_by(sorted@, ascending()),
            sorted@.to_multiset() == values@.take(i as int).to_multiset(),
        decreases values@.len() - i,
    {
        let x = values[i];
        let mut p: usize = 0;
        while p < sorted.len() && sorted[p] <= x
            invariant
                p <= sorted@.len(),
                forall|j: int| 0 <= j < p ==> sorted@[j] <= x,
            decreases sorted@.len() - p,
        {
            p += 1;
        }
        let ghost old_sorted = sorted@;
        sorted.insert(p, x);
        proof {
            assert forall|a: int, b: int| 0 <= a < b < sorted@.len() implies #[trigger] (ascending())(
                sorted@[a],
                sorted@[b],
            ) by {
                assert((ascending())(sorted@[a], sorted@[b]) == (sorted@[a] <= sorted@[b]));
                if a < p && b > p {
                    assert(old_sorted[a] <= x);
                    if p < old_sorted.len() {
                        assert(x < old_sorted[p as int]);
                        assert((ascending())(old_sorted[p as int], old_sorted[b - 1]));
                    }
                } else if a == p as int {
                    if p < old_sorted.len() {
                        assert(x < old_sorted[p as int]);
                        assert((ascending())(old_sorted[p as int], old_sorted[b - 1]));
                    }
                } else if b == p as int {
                    assert(old_sorted[a] <= x);
                } else if b < p {
                    assert((ascending())(old_sorted[a], old_sorted[b]));
                } else {
                    assert((ascending())(old_sorted[a - 1], old_sorted[b - 1]));
                }
            }
            assert(values@.take(i + 1) =~= values@.take(i as int).push(x));
            vstd::seq_lib::to_multiset_insert(old_sorted, p as int, x);
            vstd::seq_lib::to_multiset_build(values@.take(i as int), x);
        }
        i += 1;
    }
    proof {
        assert(values@.take(values@.len() as int) =~= values@);
        lemma_ascending_total();
        values@.lemma_sort_by_ensures(ascending());
        vstd::seq_lib::lemma_sorted_unique(sorted@, values@.sort_by(ascending()), ascending());
    }
    sorted
}

/// The samples in identity order, as `identity_sorted` says.
fn identity_order(samples: &Vec<ContactSample>) -> (r: Vec<ContactSample>)
    ensures
        r@ == identity_sorted(samples@),
{
    let mut ordered: Vec<ContactSample> = Vec::new();
    let mut i: usize = 0;
    while i < samples.len()
        invariant
            i <= samples@.len(),
            ordered@ == identity_sorted(samples@.take(i as int)),
            ordered@.len() == i,
        decreases samples@.len() - i,
    {
        let x = samples[i];
        let mut rank: usize = 0;
        let mut j: usize = 0;
        while j < ordered.len()
            invariant
                j <= ordered@.len(),
                rank <= j,
                rank == identity_rank(ordered@.take(j as int), x),
            decreases ordered@.len() - j,
        {
            let e = ordered[j];
            if e.active_index < x.active_index || (e.active_index == x.active_index && e.local_id <= x.local_id) {
                rank += 1;
            }
            proof {
                assert(ordered@.take(j + 1).drop_last() =~= ordered@.take(j as int));
            }
            j += 1;
        }
        proof {
            assert(ordered@.take(ordered@.len() as int) =~= ordered@);
            assert(samples@.take(i + 1).drop_last() =~= samples@.take(i as int));
        }
        ordered.insert(rank, x);
        i += 1;
    }
    proof {
        assert(samples@.take(samples@.len() as int) =~= samples@);
    }
    ordered
}

/// The counters of a sequence of samples.
#[derive(Clone, Copy, Debug, PartialEq, Eq)]
pub struct ContactTally {
    pub lod_counts: [u32; 3],
    pub negative: u32,
    pub zero: u32,
    pub positive: u32,
    pub minimum: i32,
    pub maximum: i32,
    pub exceedances: u32,
    pub first: Option<ContactExceedance>,
}

/// `|r|` as an unsigned value, as computed.
fn magnitude_of(r: i32) -> (m: u32)
    ensures
        m == magnitude(r),
{
    if r < 0 {
        (-(r as i64)) as u32
    } else {
        r as u32
    }
}

/// Counts the samples by level, sign and tolerance, and finds the extreme
/// residuals and the first exceedance.
fn tally(samples: &Vec<ContactSample>) -> (t: ContactTally)
    requires
        samples@.len() <= 0x10_0000,
        forall|i: int| 0 <= i < samples@.len() ==> #[trigger] samples@[i].owner_lod <= 2,
    ensures
        t.lod_counts@ == seq![
            count_lod_samples(samples@, 0) as u32,
            count_lod_samples(samples@, 1) as u32,
            count_lod_samples(samples@, 2) as u32,
        ],
        t.negative == count_sign(samples@, -1),
        t.zero == count_sign(samples@, 0),
        t.positive == count_sign(samples@, 1),
        t.minimum == min_residual(samples@),
        t.maximum == max_residual(samples@),
        t.exceedances == count_exceeding(samples@),
        t.first == first_exceedance(samples@),
{
    let mut c0: u32 = 0;
    let mut c1: u32 = 0;
    let mut c2: u32 = 0;
    let mut negative: u32 = 0;
    let mut zero: u32 = 0;
    let mut positive: u32 = 0;
    let mut minimum: i32 = i32::MAX;
    let mut maximum: i32 = i32::MIN;
    let mut exceedances: u32 = 0;
    let mut first: Option<ContactExceedance> = None;
    let mut i: usize = 0;
    while i < samples.len()
        invariant
            i <= samples@.len(),
            samples@.len() <= 0x10_0000,
            forall|k: int| 0 <= k < samples@.len() ==> #[trigger] samples@[k].owner_lod <= 2,
            c0 == count_lod_samples(samples@.take(i as int), 0),
            c1 == count_lod_samples(samples@.take(i as int), 1),
            c2 == count_lod_samples(samples@.take(i as int), 2),
            c0 + c1 + c2 <= i,
            negative == count_sign(samples@.take(i as int), -1),
            zero == count_sign(samples@.take(i as int), 0),
            positive == count_sign(samples@.take(i as int), 1),
            negative + zero + positive <= i,
            minimum == min_residual(samples@.take(i as int)),
            maximum == max_residual(samples@.take(i as int)),
            exceedances == count_exceeding(samples@.take(i as int)),
            exceedances <= i,
            first == first_exceedance(samples@.take(i as int)),
        decreases samples@.len() - i,
    {
        let x = samples[i];
        proof {
            assert(samples@.take(i + 1).drop_last() =~= samples@.take(i as int));
            assert(samples@.take(i + 1).last() == x);
            assert(x.owner_lod <= 2);
        }
        if x.owner_lod == 0 {
            c0 += 1;
        } else if x.owner_lod == 1 {
            c1 += 1;
        } else {
            c2 += 1;
        }
        let r = x.residual_q18;
        if r < 0 {
            negative += 1;
        } else if r == 0 {
            zero += 1;
        } else {
            positive += 1;
        }
        if r < minimum {
            minimum = r;
        }
        if r > maximum {
            maximum = r;
        }
        if magnitude_of(r) > CONTACT_THRESHOLD_NUMERATOR {
            exceedances += 1;
            if first.is_none() {
                first = Some(
                    ContactExceedance {
                        region_id: x.region_id,
                        local_index: x.local_id,
                        owner_patch_lod: x.owner_lod,
                        exact_ground_q18: x.exact_q18,
                        selected_surface_q18: x.selected_q18,
                        residual_q18: r,
                    },
                );
            }
        }
        i += 1;
    }
    proof {
        assert(samples@.take(samples@.len() as int) =~= samples@);
    }
    ContactTally {
        lod_counts: [c0, c1, c2],
        negative,
        zero,
        positive,
        minimum,
        maximum,
        exceedances,
        first,
    }
}

/// The residual magnitudes, in sample order.
fn magnitudes_of(samples: &Vec<ContactSample>) -> (r: Vec<u32>)
    ensures
        r@ == magnitudes(samples@),
{
    let mut values: Vec<u32> = Vec::new();
    let mut i: usize = 0;
    while i < samples.len()
        invariant
            i <= samples@.len(),
            values@ =~= magnitudes(samples@).take(i as int),
        decreases samples@.len() - i,
    {
        values.push(magnitude_of(samples[i].residual_q18));
        i += 1;
    }
    assert(values@ =~= magnitudes(samples@));
    values
}

/// The selected surfaces' and the residuals' bytes, in sample order.
fn sample_bytes(samples: &Vec<ContactSample>) -> (r: (Vec<u8>, Vec<u8>))
    ensures
        r.0@ == selected_bytes(samples@),
        r.1@ == residual_bytes(samples@),
{
    let mut selected: Vec<u8> = Vec::new();
    let mut residual: Vec<u8> = Vec::new();
    let mut i: usize = 0;
    while i < samples.len()
        invariant
            i <= samples@.len(),
            selected@ == selected_bytes(samples@.take(i as int)),
            residual@ == residual_bytes(samples@.take(i as int)),
        decreases samples@.len() - i,
    {
        proof {
            assert(samples@.take(i + 1).drop_last() =~= samples@.take(i as int));
        }
        push_i32_le(&mut selected, samples[i].selected_q18);
        push_i32_le(&mut residual, samples[i].residual_q18);
        i += 1;
    }
    proof {
        assert(samples@.take(samples@.len() as int) =~= samples@);
    }
    (selected, residual)
}

/// The identity-keyed bytes of samples in identity order.
fn identity_bytes_of(ordered: &Vec<ContactSample>, residual: bool) -> (r: Vec<u8>)
    ensures
        r@ == identity_bytes(ordered@, residual),
{
    let mut bytes: Vec<u8> = Vec::new();
    let mut i: usize = 0;
    while i < ordered.len()
        invariant
            i <= ordered@.len(),
            bytes@ == identity_bytes(ordered@.take(i as int), residual),
        decreases ordered@.len() - i,
    {
        proof {
            assert(ordered@.take(i + 1).drop_last() =~= ordered@.take(i as int));
        }
        let x = ordered[i];
        push_u32_le(&mut bytes, x.active_index);
        push_u32_le(&mut bytes, x.local_id);
        push_i32_le(&mut bytes, if residual { x.residual_q18 } else { x.selected_q18 });
        i += 1;
    }
    proof {
        assert(ordered@.take(ordered@.len() as int) =~= ordered@);
    }
    bytes
}

/// Summarizes the samples as `summarizes` says.
pub fn summarize(samples: &Vec<ContactSample>) -> (probe: ContactProbe)
    requires
        samples@.len() <= 0x10_0000,
        forall|i: int| 0 <= i < samples@.len() ==> #[trigger] samples@[i].owner_lod <= 2,
    ensures
        summarizes(probe, samples@),
{
    let counts = tally(samples);
    let (selected, residual) = sample_bytes(samples);
    let magnitudes = magnitudes_of(samples);
    let sorted = sorted_ascending(&magnitudes);
    let ordered = identity_order(samples);
    let identity_selected = identity_bytes_of(&ordered, false);
    let identity_residual = identity_bytes_of(&ordered, true);
    let maximum_absolute = if sorted.len() == 0 {
        0
    } else {
        sorted[sorted.len() - 1]
    };
    ContactProbe {
        denominator: Q18_DENOMINATOR,
        sample_count: samples.len() as u32,
        owner_patch_lod_counts: counts.lod_counts,
        selected_surface_sha256: sha256_hex_of(&selected),
        residual_sha256: sha256_hex_of(&residual),
        identity_keyed_selected_surface_sha256: sha256_hex_of(&identity_selected),
        identity_keyed_residual_sha256: sha256_hex_of(&identity_residual),
        negative_count: counts.negative,
        zero_count: counts.zero,
        positive_count: counts.positive,
        minimum_residual_numerator: counts.minimum,
        maximum_residual_numerator: counts.maximum,
        maximum_absolute_numerator: maximum_absolute,
        absolute_p50_numerator: percentile(sorted.as_slice(), 50),
        absolute_p95_numerator: percentile(sorted.as_slice(), 95),
        absolute_p99_numerator: percentile(sorted.as_slice(), 99),
        threshold_numerator: CONTACT_THRESHOLD_NUMERATOR,
        exceedance_count: counts.exceedances,
        first_exceedance: counts.first,
    }
}

/// The mapping, tiles, identity lists and position lists have one entry
/// per assignment.
pub open spec fn shapes_agree(input: ContactInput) -> bool {
    let n = input.assignments@.len();
    &&& input.tiles@.len() == n
    &&& input.local_ids@.len() == n
    &&& input.positions@.len() == n
}

/// The snapshot passes the probe's checks of shape, ground and denominator.
pub open spec fn checks_pass(input: ContactInput) -> bool {
    &&& shapes_agree(input)
    &&& input.exact_ground@.len() == sample_total(input.positions@, input.positions@.len())
    &&& input.ground_denominator > 0
    &&& Q18_DENOMINATOR % input.ground_denominator == 0
}

/// What the contact probe yields for `input`.
pub open spec fn contact_result(input: ContactInput, r: Result<ContactProbe, ContactError>) -> bool {
    let n = input.assignments@.len();
    if !shapes_agree(input) {
        r == Err::<ContactProbe, ContactError>(ContactError::ShapeMismatch)
    } else if input.exact_ground@.len() != sample_total(input.positions@, n) {
        r == Err::<ContactProbe, ContactError>(ContactError::GroundShapeMismatch)
    } else if input.ground_denominator == 0 || Q18_DENOMINATOR % input.ground_denominator != 0 {
        r == Err::<ContactProbe, ContactError>(ContactError::DenominatorIncompatible)
    } else {
        match projected_regions(input.assignments@, input.projection, n) {
            Err(e) => r == Err::<ContactProbe, ContactError>(e),
            Ok(regions) => match all_samples(
                input,
                regions,
                (Q18_DENOMINATOR / input.ground_denominator) as int,
                n,
            ) {
                Err(e) => r == Err::<ContactProbe, ContactError>(e),
                Ok(samples) => r matches Ok(probe) && summarizes(probe, samples),
            },
        }
    }
}

/// Measures how far the drawn terrain lies from the exact ground under
/// every object: refused when the snapshot's lists disagree in shape, the
/// ground does not hold one height per object, the denominators do not
/// agree, a region cannot be projected, a tile belongs to another region or
/// a position could not be placed; otherwise each object's sample, in order,
/// summarized as `summarizes` says.
pub fn evaluate(input: &ContactInput) -> (r: Result<ContactProbe, ContactError>)
    requires
        checks_pass(*input) ==> input_wf(*input),
        checks_pass(*input) ==> (projected_regions(input.assignments@, input.projection, input.assignments@.len())
            matches Ok(regions) ==> ground_fits(*input, regions, (Q18_DENOMINATOR / input.ground_denominator) as int)),
    ensures
        contact_result(*input, r),
{
    let n = input.assignments.len();
    if !(input.tiles.len() == n && input.local_ids.len() == n && input.positions.len() == n) {
        return Err(ContactError::ShapeMismatch);
    }
    let mut expected: usize = 0;
    let mut i: usize = 0;
    while i < n
        invariant
            i <= n,
            n == input.positions@.len(),
            expected == sample_total(input.positions@, i as nat),
            expected <= input.exact_ground@.len(),
            shapes_agree(*input),
            n == input.assignments@.len(),
        decreases n - i,
    {
        let more = input.positions[i].len();
        if more > input.exact_ground.len() - expected {
            proof {
                assert(sample_total(input.positions@, (i + 1) as nat) == expected + more);
                lemma_total_grows(input.positions@, (i + 1) as nat, n as nat);
                assert(shapes_agree(*input));
                assert(input.exact_ground@.len() != sample_total(input.positions@, n as nat));
            }
            return Err(ContactError::GroundShapeMismatch);
        }
        expected = expected + more;
        i += 1;
    }
    if input.exact_ground.len() != expected {
        return Err(ContactError::GroundShapeMismatch);
    }
    if input.ground_denominator == 0 || Q18_DENOMINATOR % input.ground_denominator != 0 {
        return Err(ContactError::DenominatorIncompatible);
    }
    let scale = (Q18_DENOMINATOR / input.ground_denominator) as i32;
    let regions = match project_regions(&input.assignments, input.projection) {
        Ok(ids) => ids,
        Err(e) => return Err(e),
    };
    let samples = match collect_samples(input, &regions, scale) {
        Ok(v) => v,
        Err(e) => return Err(e),
    };
    Ok(summarize(&samples))
}

/// The sample total only grows with more regions.
proof fn lemma_total_grows(positions: Seq<Vec<Result<[u32; 2], ContactError>>>, j: nat, n: nat)
    requires
        j <= n,
    ensures
        sample_total(positions, j) <= sample_total(positions, n),
    decreases n - j,
{
    if j < n {
        lemma_total_grows(positions, j, (n - 1) as nat);
    }
}

/// Law: the contact tallies partition the samples by sign and by level,
/// an exceedance is reported exactly when one is counted, and the least
/// residual never exceeds the greatest.
pub proof fn law_contact_tallies_partition(s: Seq<ContactSample>)
    requires
        forall|i: int| 0 <= i < s.len() ==> #[trigger] s[i].owner_lod <= 2,
    ensures
        count_sign(s, -1) + count_sign(s, 0) + count_sign(s, 1) == s.len(),
        count_lod_samples(s, 0) + count_lod_samples(s, 1) + count_lod_samples(s, 2) == s.len(),
        count_exceeding(s) >= 0,
        (count_exceeding(s) == 0) == (first_exceedance(s) is None),
        s.len() > 0 ==> min_residual(s) <= max_residual(s),
    decreases s.len(),
{
    if s.len() > 0 {
        let rest = s.drop_last();
        assert forall|i: int| 0 <= i < rest.len() implies #[trigger] rest[i].owner_lod <= 2 by {
            assert(rest[i] == s[i]);
        }
        law_contact_tallies_partition(rest);
        assert(s.last() == s[s.len() - 1]);
    }
}

/// Law: for a non-empty probe the reported magnitudes are ordered: the
/// median at most the 95th percentile, that at most the 99th, and that at
/// most the largest magnitude.
pub proof fn law_contact_percentiles_ordered(s: Seq<ContactSample>)
    requires
        s.len() > 0,
        s.len() * 100 <= usize::MAX,
    ensures
        ({
            let sorted = magnitudes(s).sort_by(ascending());
            &&& percentile_of(sorted, 50) <= percentile_of(sorted, 95)
            &&& percentile_of(sorted, 95) <= percentile_of(sorted, 99)
            &&& percentile_of(sorted, 99) <= sorted.last()
        }),
{
    let sorted = magnitudes(s).sort_by(ascending());
    lemma_ascending_total();
    magnitudes(s).lemma_sort_by_ensures(ascending());
    assert(sorted.len() == s.len()) by {
        vstd::seq_lib::to_multiset_len(magnitudes(s));
        vstd::seq_lib::to_multiset_len(sorted);
    }
    assert forall|i: int, j: int| 0 <= i <= j < sorted.len() implies sorted[i] <= sorted[j] by {
        if i < j {
            assert((ascending())(sorted[i], sorted[j]));
        }
    }
    law_percentile_is_nearest_rank(sorted, 50);
    law_percentile_is_nearest_rank(sorted, 95);
    law_percentile_is_nearest_rank(sorted, 99);
    let n = sorted.len();
    assert(nearest_rank(n, 50) <= nearest_rank(n, 95)) by (nonlinear_arith)
        requires
            n * 100 <= usize::MAX,
            nearest_rank(n, 50) == (n * 50 + 99) / 100,
            nearest_rank(n, 95) == (n * 95 + 99) / 100,
    ;
    assert(nearest_rank(n, 95) <= nearest_rank(n, 99)) by (nonlinear_arith)
        requires
            n * 100 <= usize::MAX,
            nearest_rank(n, 95) == (n * 95 + 99) / 100,
            nearest_rank(n, 99) == (n * 99 + 99) / 100,
    ;
}

} // verus!
