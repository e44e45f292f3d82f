use vstd::prelude::*;

use crate::load::{INSTANCES_PER_REGION, MAX_REGION_SIDE};
use crate::terrain::cache::TerrainAssignment;
use crate::terrain::projection::{ProjectionError, TerrainProjection};

use super::boundary::{boundary_probe, boundary_summary, projection_fails, BoundaryProbe};
use super::fixture::CompositionFixture;
use super::grounding::{compare_ground, ground_agreement, ground_divergence, GroundComparison, GroundError};

verus! {

/// Why the grounding of a composed frame was refused.
#[derive(Clone, Copy, Debug, PartialEq, Eq)]
pub enum GroundingError {
    /// The GPU ground numerators are not those of the CPU oracle.
    Ground(GroundError),
    /// An entry of the terrain mapping does not project.
    Projection(ProjectionError),
    /// Objects facing each other across a shared region edge differ in
    /// position or ground: the boundary probe that found it.
    BoundaryDiverged(BoundaryProbe),
}

/// The grounding of a composed frame that was accepted.
#[derive(Debug)]
pub struct GroundingCheck {
    pub comparison: GroundComparison,
    pub boundaries: BoundaryProbe,
}

/// What checking the grounding gives: refused when the GPU numerators are
/// not one per candidate or differ from the CPU oracle, when the mapping
/// does not project, or when any boundary comparison differs in position
/// or ground; otherwise the agreement and the boundary probe, whose
/// mismatch counts are then both zero.
pub open spec fn grounding_result(
    gpu: Seq<i32>,
    cpu: Seq<i32>,
    assignments: Seq<TerrainAssignment>,
    candidate_count: int,
    positions: Seq<Vec<[u32; 2]>>,
    fixture: CompositionFixture,
    projection: TerrainProjection,
    r: Result<GroundingCheck, GroundingError>,
) -> bool {
    if gpu.len() != candidate_count || cpu.len() != candidate_count {
        r == Err::<GroundingCheck, GroundingError>(GroundingError::Ground(GroundError::CandidateCount))
    } else if exists|i: int| 0 <= i < gpu.len() && gpu[i] != cpu[i] {
        r matches Err(GroundingError::Ground(GroundError::Diverged(m, count))) && ground_divergence(
            gpu,
            cpu,
            assignments,
            m,
            count,
        )
    } else if fixture != CompositionFixture::CellCenter && projection_fails(assignments, projection) {
        r == Err::<GroundingCheck, GroundingError>(GroundingError::Projection(ProjectionError::IndexOutsideWindow))
    } else {
        match r {
            Ok(g) => {
                &&& ground_agreement(gpu, cpu, candidate_count, g.comparison)
                &&& boundary_summary(assignments, positions, cpu, fixture, projection, g.boundaries)
                &&& g.boundaries.position_mismatch_count == 0
                &&& g.boundaries.ground_mismatch_count == 0
            },
            Err(GroundingError::BoundaryDiverged(p)) => {
                &&& boundary_summary(assignments, positions, cpu, fixture, projection, p)
                &&& (p.position_mismatch_count > 0 || p.ground_mismatch_count > 0)
            },
            Err(_) => false,
        }
    }
}

/// Checks the grounding of a composed frame, as `grounding_result` says:
/// the GPU ground numerators against the CPU oracle, then the objects on
/// every shared region edge, sampled on the CPU ground.
pub fn check_grounding(
    gpu: &Vec<i32>,
    cpu: &Vec<i32>,
    assignments: &Vec<TerrainAssignment>,
    candidate_count: usize,
    positions: &Vec<Vec<[u32; 2]>>,
    fixture: CompositionFixture,
    projection: TerrainProjection,
) -> (r: Result<GroundingCheck, GroundingError>)
    requires
        candidate_count == assignments@.len() * INSTANCES_PER_REGION,
        assignments@.len() * INSTANCES_PER_REGION <= u32::MAX,
        positions@.len() == assignments@.len(),
        forall|i: int| 0 <= i < positions@.len() ==> (#[trigger] positions@[i])@.len() == INSTANCES_PER_REGION,
        forall|i: int|
            0 <= i < assignments@.len() ==> ((#[trigger] projection.region_id_result(i, assignments@[i].region_id))
                matches Ok(id) ==> id + MAX_REGION_SIDE <= u32::MAX),
    ensures
        grounding_result(gpu@, cpu@, assignments@, candidate_count as int, positions@, fixture, projection, r),
{
    let comparison = match compare_ground(gpu, cpu, assignments, candidate_count) {
        Ok(c) => c,
        Err(e) => return Err(GroundingError::Ground(e)),
    };
    let boundaries = match boundary_probe(assignments, positions, cpu, fixture, projection) {
        Ok(b) => b,
        Err(e) => return Err(GroundingError::Projection(e)),
    };
    if boundaries.position_mismatch_count != 0 || boundaries.ground_mismatch_count != 0 {
        return Err(GroundingError::BoundaryDiverged(boundaries));
    }
    Ok(GroundingCheck { comparison, boundaries })
}

} // verus!
