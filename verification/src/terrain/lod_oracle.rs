use vstd::prelude::*;

use crate::digest::{le_i32, le_u32, push_i32_le, push_u32_le, sha256_hex, sha256_hex_of};
use crate::load::LoadConfig;

use super::cache::TerrainAssignment;
use super::lod::{select_lod, PATCHES_PER_REGION_SIDE, PATCH_CELL_SIDE};
use super::projection::{ProjectionError, TerrainProjection};
use super::surface::{
    height, lod_step, patch_lod, region_column, region_row, TileHeights, CELL_SIDE, SAMPLE_SIDE,
    WORLD_REGION_SIDE,
};

verus! {

/// The axis along which two patches are neighbors.
#[derive(Clone, Copy, Debug, PartialEq, Eq, Structural)]
pub enum EdgeAxis {
    X,
    Z,
}

/// One patch of the active window: its tile, its cell offset within the
/// tile, its global patch coordinate and its level of detail.
#[derive(Clone, Copy, Debug, PartialEq, Eq)]
pub struct LodPatch {
    pub tile: usize,
    pub patch_x: u32,
    pub patch_z: u32,
    pub global_x: i32,
    pub global_z: i32,
    pub lod: u32,
}

/// The first shared-edge sample at which two neighbors disagree.
#[derive(Clone, Copy, Debug, PartialEq, Eq)]
pub struct LodEdgeMismatch {
    pub patch: (i32, i32),
    pub neighbor_patch: (i32, i32),
    pub axis: EdgeAxis,
    pub sample: u32,
    pub denominator: u32,
    pub value_numerator: i32,
    pub neighbor_numerator: i32,
}

/// Tallies over the shared edges of neighboring patches.
#[derive(Clone, Copy, Debug, PartialEq, Eq)]
pub struct LodEdges {
    pub patch_edges: u32,
    pub same_lod_edges: u32,
    pub transition_edges: u32,
    /// Vertices of the finer side that the coarser side lacks.
    pub adjusted_vertices: u32,
    pub sample_comparisons: u32,
    pub max_lod_delta: u32,
    pub mismatch_count: u32,
    pub first_mismatch: Option<LodEdgeMismatch>,
}

/// Why the level-of-detail oracle refused a snapshot.
#[derive(Clone, Copy, Debug, PartialEq, Eq)]
pub enum LodError {
    /// The active mapping and the tiles differ in length.
    ShapeMismatch,
    /// The active mapping does not cover the window.
    IncompleteMapping,
    /// A tile belongs to another region than its assignment.
    TileMismatch,
    /// The projection refused a region.
    Projection(ProjectionError),
    /// Two neighboring patches differ by more than one level.
    DeltaTooLarge,
}

/// What the oracle reports of the window's patches.
#[derive(Debug)]
pub struct LodOracle {
    pub camera_patch: [i32; 2],
    /// Digest of every patch's global coordinate and level, in window order.
    pub lod_sha256: String,
    pub lod_counts: [u32; 3],
    pub patches: u32,
    pub vertices: u32,
    pub triangles: u32,
    pub baseline_vertices: u32,
    pub baseline_triangles: u32,
    pub reduced_vertices: u32,
    pub reduced_triangles: u32,
    pub edges: LodEdges,
}

/// A patch lies inside its tile, which is one of `tiles` and is complete.
pub open spec fn patch_wf(p: LodPatch, tiles: Seq<TileHeights>) -> bool {
    &&& p.tile < tiles.len()
    &&& tiles[p.tile as int].wf()
    &&& p.patch_x + PATCH_CELL_SIDE <= CELL_SIDE
    &&& p.patch_z + PATCH_CELL_SIDE <= CELL_SIDE
    &&& p.lod <= 2
}

/// The height at `along` on one edge of a patch: the far edge when
/// `positive`, the near one otherwise; an `X` edge runs along z.
pub open spec fn edge_height(t: TileHeights, p: LodPatch, axis: EdgeAxis, positive: bool, along: int) -> int {
    let across = if positive { PATCH_CELL_SIDE as int } else { 0int };
    match axis {
        EdgeAxis::X => t.at(p.patch_x + across, p.patch_z + along),
        EdgeAxis::Z => t.at(p.patch_x + along, p.patch_z + across),
    }
}

/// The edge of a patch at `sample`, seen with vertices every `step` cells:
/// the heights of the vertices around the sample blended linearly, in units
/// of 1/`step` of a height step.
pub open spec fn edge_numerator_spec(
    t: TileHeights,
    p: LodPatch,
    axis: EdgeAxis,
    positive: bool,
    sample: int,
    step: int,
) -> int {
    let base = sample / step * step;
    let next = if base + step <= PATCH_CELL_SIDE { base + step } else { PATCH_CELL_SIDE as int };
    let remainder = sample - base;
    edge_height(t, p, axis, positive, base) * (step - remainder) + edge_height(t, p, axis, positive, next)
        * remainder
}

/// The number of samples below `n` on an edge of `fine` steps that an edge
/// of `coarse` steps lacks.
pub open spec fn adjusted_between(fine: int, coarse: int, n: nat) -> nat
    decreases n,
{
    if n == 0 {
        0
    } else {
        adjusted_between(fine, coarse, (n - 1) as nat) + if (n - 1) % fine == 0 && (n - 1) % coarse != 0 {
            1nat
        } else {
            0nat
        }
    }
}

/// The comparisons of the first `k` samples of the shared edge of `p` and
/// its neighbor `n`, at a common `den` steps per vertex.
pub open spec fn sample_pass(
    r: LodEdges,
    tp: TileHeights,
    tn: TileHeights,
    p: LodPatch,
    n: LodPatch,
    axis: EdgeAxis,
    den: int,
    k: nat,
) -> LodEdges
    decreases k,
{
    if k == 0 {
        r
    } else {
        let prev = sample_pass(r, tp, tn, p, n, axis, den, (k - 1) as nat);
        let sample = k - 1;
        let value = edge_numerator_spec(tp, p, axis, true, sample, den);
        let neighbor_value = edge_numerator_spec(tn, n, axis, false, sample, den);
        let counted = LodEdges { sample_comparisons: (prev.sample_comparisons + 1) as u32, ..prev };
        if value != neighbor_value {
            LodEdges {
                mismatch_count: (counted.mismatch_count + 1) as u32,
                first_mismatch: if counted.first_mismatch is Some {
                    counted.first_mismatch
                } else {
                    Some(
                        LodEdgeMismatch {
                            patch: (p.global_x, p.global_z),
                            neighbor_patch: (n.global_x, n.global_z),
                            axis,
                            sample: sample as u32,
                            denominator: den as u32,
                            value_numerator: value as i32,
                            neighbor_numerator: neighbor_value as i32,
                        },
                    )
                },
                ..counted
            }
        } else {
            counted
        }
    }
}

/// The tallies after comparing the shared edge of `p` with its neighbor
/// `n`: the edge and its level delta are counted, a transition counts the
/// finer side's extra vertices, and every sample is compared at the coarser
/// side's step.
pub open spec fn compare_spec(
    r: LodEdges,
    tp: TileHeights,
    tn: TileHeights,
    p: LodPatch,
    n: LodPatch,
    axis: EdgeAxis,
) -> LodEdges {
    let (lo, hi) = if p.lod <= n.lod { (p.lod, n.lod) } else { (n.lod, p.lod) };
    let delta = (hi - lo) as u32;
    let counted = LodEdges {
        patch_edges: (r.patch_edges + 1) as u32,
        max_lod_delta: if r.max_lod_delta >= delta { r.max_lod_delta } else { delta },
        ..r
    };
    let classified = if delta == 0 {
        LodEdges { same_lod_edges: (counted.same_lod_edges + 1) as u32, ..counted }
    } else {
        LodEdges {
            transition_edges: (counted.transition_edges + 1) as u32,
            adjusted_vertices: (counted.adjusted_vertices + adjusted_between(
                lod_step(lo),
                lod_step(hi),
                (PATCH_CELL_SIDE + 1) as nat,
            )) as u32,
            ..counted
        }
    };
    sample_pass(classified, tp, tn, p, n, axis, lod_step(hi), (PATCH_CELL_SIDE + 1) as nat)
}

/// The neighbor pairs of the `k`-th cell of a grid of side `ps`: with the
/// next cell along x, then with the next cell along z, where they exist.
pub open spec fn cell_edges(ps: int, k: int) -> Seq<(int, int, EdgeAxis)> {
    let z = k / ps;
    let x = k % ps;
    (if x + 1 < ps {
        seq![(k, k + 1, EdgeAxis::X)]
    } else {
        Seq::empty()
    }) + (if z + 1 < ps {
        seq![(k, k + ps, EdgeAxis::Z)]
    } else {
        Seq::empty()
    })
}

/// The neighbor pairs of the first `k` cells, in order.
pub open spec fn grid_edges(ps: int, k: nat) -> Seq<(int, int, EdgeAxis)>
    decreases k,
{
    if k == 0 {
        Seq::empty()
    } else {
        grid_edges(ps, (k - 1) as nat) + cell_edges(ps, k - 1)
    }
}

/// The tallies after comparing the given neighbor pairs in order.
pub open spec fn fold_edges(
    r: LodEdges,
    tiles: Seq<TileHeights>,
    patches: Seq<LodPatch>,
    edges: Seq<(int, int, EdgeAxis)>,
) -> LodEdges
    decreases edges.len(),
{
    if edges.len() == 0 {
        r
    } else {
        let prev = fold_edges(r, tiles, patches, edges.drop_last());
        let (a, b, axis) = edges.last();
        compare_spec(prev, tiles[patches[a].tile as int], tiles[patches[b].tile as int], patches[a], patches[b], axis)
    }
}

/// Tallies before any edge.
pub open spec fn no_edges() -> LodEdges {
    LodEdges {
        patch_edges: 0,
        same_lod_edges: 0,
        transition_edges: 0,
        adjusted_vertices: 0,
        sample_comparisons: 0,
        max_lod_delta: 0,
        mismatch_count: 0,
        first_mismatch: None,
    }
}

/// Every counter is at most `9 * e`, and the level delta at most two.
pub open spec fn edges_bounded(r: LodEdges, e: int) -> bool {
    &&& r.patch_edges <= e
    &&& r.same_lod_edges <= e
    &&& r.transition_edges <= e
    &&& r.adjusted_vertices <= 9 * e
    &&& r.sample_comparisons <= 9 * e
    &&& r.mismatch_count <= 9 * e
    &&& r.max_lod_delta <= 2
}

/// The edge of a patch at `sample`, as `edge_numerator_spec` says.
pub fn edge_numerator(tile: &TileHeights, patch: LodPatch, axis: EdgeAxis, positive_edge: bool, sample: u32, step: u32) -> (r: i32)
    requires
        tile.wf(),
        patch.patch_x + PATCH_CELL_SIDE <= CELL_SIDE,
        patch.patch_z + PATCH_CELL_SIDE <= CELL_SIDE,
        sample <= PATCH_CELL_SIDE,
        step == 1 || step == 2 || step == 4,
    ensures
        r == edge_numerator_spec(*tile, patch, axis, positive_edge, sample as int, step as int),
{
    let base = sample / step * step;
    let next = if base + step <= PATCH_CELL_SIDE { base + step } else { PATCH_CELL_SIDE };
    let remainder = sample - base;
    let across = if positive_edge { PATCH_CELL_SIDE } else { 0 };
    let (first, second) = match axis {
        EdgeAxis::X => (
            height(tile, patch.patch_x + across, patch.patch_z + base),
            height(tile, patch.patch_x + across, patch.patch_z + next),
        ),
        EdgeAxis::Z => (
            height(tile, patch.patch_x + base, patch.patch_z + across),
            height(tile, patch.patch_x + next, patch.patch_z + across),
        ),
    };
    proof {
        assert(0 <= remainder <= step) by (nonlinear_arith)
            requires
                remainder == sample - base,
                base == sample / step * step,
                step > 0,
        {
            vstd::arithmetic::div_mod::lemma_fundamental_div_mod(sample as int, step as int);
        }
        lemma_scaled(first as int, (step - remainder) as int);
        lemma_scaled(second as int, remainder as int);
    }
    first * (step - remainder) as i32 + second * remainder as i32
}

/// A sample times a small weight stays small.
proof fn lemma_scaled(h: int, w: int)
    by (nonlinear_arith)
    requires
        -32768 <= h <= 32767,
        0 <= w <= 4,
    ensures
        -131072 <= h * w <= 131068,
{
}

/// Cells per vertex at `lod`.
fn step_for(lod: u32) -> (r: u32)
    requires
        lod <= 2,
    ensures
        r == lod_step(lod),
{
    if lod == 0 {
        1
    } else if lod == 1 {
        2
    } else {
        4
    }
}

/// Counts the samples of a fine edge that a coarse edge lacks.
fn count_adjusted(fine: u32, coarse: u32) -> (r: u32)
    requires
        fine > 0,
        coarse > 0,
    ensures
        r == adjusted_between(fine as int, coarse as int, (PATCH_CELL_SIDE + 1) as nat),
        r <= PATCH_CELL_SIDE + 1,
{
    let mut count: u32 = 0;
    let mut sample: u32 = 0;
    while sample <= PATCH_CELL_SIDE
        invariant
            fine > 0,
            coarse > 0,
            sample <= PATCH_CELL_SIDE + 1,
            count == adjusted_between(fine as int, coarse as int, sample as nat),
            count <= sample,
        decreases PATCH_CELL_SIDE + 1 - sample,
    {
        if sample % fine == 0 && sample % coarse != 0 {
            count += 1;
        }
        sample += 1;
    }
    count
}

/// Compares the shared edge of `patch` and its `neighbor`, as
/// `compare_spec` says.
fn compare_edge(
    result: &mut LodEdges,
    tiles: &Vec<TileHeights>,
    patch: LodPatch,
    neighbor: LodPatch,
    axis: EdgeAxis,
    Ghost(e): Ghost<int>,
)
    requires
        patch_wf(patch, tiles@),
        patch_wf(neighbor, tiles@),
        0 <= e,
        9 * (e + 1) <= u32::MAX,
        edges_bounded(*old(result), e),
    ensures
        *final(result) == compare_spec(
            *old(result),
            tiles@[patch.tile as int],
            tiles@[neighbor.tile as int],
            patch,
            neighbor,
            axis,
        ),
        edges_bounded(*final(result), e + 1),
{
    let tp = &tiles[patch.tile];
    let tn = &tiles[neighbor.tile];
    result.patch_edges = result.patch_edges + 1;
    let (lo, hi) = if patch.lod <= neighbor.lod { (patch.lod, neighbor.lod) } else { (neighbor.lod, patch.lod) };
    let delta = hi - lo;
    if result.max_lod_delta < delta {
        result.max_lod_delta = delta;
    }
    if delta == 0 {
        result.same_lod_edges = result.same_lod_edges + 1;
    } else {
        result.transition_edges = result.transition_edges + 1;
        let fine = step_for(lo);
        let coarse = step_for(hi);
        let extra = count_adjusted(fine, coarse);
        result.adjusted_vertices = result.adjusted_vertices + extra;
    }
    let denominator = step_for(hi);
    let ghost start = *result;
    let mut sample: u32 = 0;
    while sample <= PATCH_CELL_SIDE
        invariant
            tp.wf(),
            tn.wf(),
            patch_wf(patch, tiles@),
            patch_wf(neighbor, tiles@),
            *tp == tiles@[patch.tile as int],
            *tn == tiles@[neighbor.tile as int],
            denominator == lod_step(hi),
            sample <= PATCH_CELL_SIDE + 1,
            *result == sample_pass(start, *tp, *tn, patch, neighbor, axis, denominator as int, sample as nat),
            result.sample_comparisons == start.sample_comparisons + sample,
            result.mismatch_count <= start.mismatch_count + sample,
            result.patch_edges == start.patch_edges,
            result.same_lod_edges == start.same_lod_edges,
            result.transition_edges == start.transition_edges,
            result.adjusted_vertices == start.adjusted_vertices,
            result.max_lod_delta == start.max_lod_delta,
            edges_bounded(start, e + 1),
            start.sample_comparisons <= 9 * e,
            start.mismatch_count <= 9 * e,
            9 * (e + 1) <= u32::MAX,
        decreases PATCH_CELL_SIDE + 1 - sample,
    {
        let value = edge_numerator(tp, patch, axis, true, sample, denominator);
        let neighbor_value = edge_numerator(tn, neighbor, axis, false, sample, denominator);
        result.sample_comparisons = result.sample_comparisons + 1;
        if value != neighbor_value {
            result.mismatch_count = result.mismatch_count + 1;
            if result.first_mismatch.is_none() {
                result.first_mismatch = Some(
                    LodEdgeMismatch {
                        patch: (patch.global_x, patch.global_z),
                        neighbor_patch: (neighbor.global_x, neighbor.global_z),
                        axis,
                        sample,
                        denominator,
                        value_numerator: value,
                        neighbor_numerator: neighbor_value,
                    },
                );
            }
        }
        sample += 1;
    }
}

/// Compares every pair of neighboring patches of the grid, row by row, as
/// `fold_edges` over `grid_edges` says.
pub fn evaluate_edges(patches: &Vec<LodPatch>, tiles: &Vec<TileHeights>, patch_side: u32) -> (r: LodEdges)
    requires
        patch_side <= 1024,
        patches@.len() == patch_side * patch_side,
        forall|i: int| 0 <= i < patches@.len() ==> patch_wf(#[trigger] patches@[i], tiles@),
    ensures
        r == fold_edges(no_edges(), tiles@, patches@, grid_edges(patch_side as int, (patch_side * patch_side) as nat)),
{
    let mut result = LodEdges {
        patch_edges: 0,
        same_lod_edges: 0,
        transition_edges: 0,
        adjusted_vertices: 0,
        sample_comparisons: 0,
        max_lod_delta: 0,
        mismatch_count: 0,
        first_mismatch: None,
    };
    proof {
        assert(patch_side * patch_side <= 1024 * 1024) by (nonlinear_arith)
            requires
                patch_side <= 1024,
        ;
    }
    let cells = patch_side * patch_side;
    let mut k: u32 = 0;
    while k < cells
        invariant
            patch_side <= 1024,
            cells == patch_side * patch_side,
            cells <= 1024 * 1024,
            patches@.len() == cells,
            forall|i: int| 0 <= i < patches@.len() ==> patch_wf(#[trigger] patches@[i], tiles@),
            k <= cells,
            result == fold_edges(no_edges(), tiles@, patches@, grid_edges(patch_side as int, k as nat)),
            edges_bounded(result, 2 * k),
        decreases cells - k,
    {
        let z = k / patch_side;
        let x = k % patch_side;
        let ghost before = grid_edges(patch_side as int, k as nat);
        proof {
            assert(k < patch_side * patch_side);
            assert(z < patch_side) by {
                vstd::arithmetic::div_mod::lemma_multiply_divide_lt(k as int, patch_side as int, patch_side as int);
            }
            assert(k == z * patch_side + x) by {
                vstd::arithmetic::div_mod::lemma_fundamental_div_mod(k as int, patch_side as int);
            }
        }
        let ghost mid = result;
        if x + 1 < patch_side {
            proof {
                assert(k + 1 < cells) by (nonlinear_arith)
                    requires
                        k == z * patch_side + x,
                        z < patch_side,
                        x + 1 < patch_side,
                        cells == patch_side * patch_side,
                ;
            }
            compare_edge(&mut result, tiles, patches[k as usize], patches[(k + 1) as usize], EdgeAxis::X, Ghost(2 * k as int));
        }
        let ghost after_x = result;
        if z + 1 < patch_side {
            proof {
                assert(k + patch_side < cells) by (nonlinear_arith)
                    requires
                        k == z * patch_side + x,
                        z + 1 < patch_side,
                        x < patch_side,
                        cells == patch_side * patch_side,
                ;
                assert(edges_bounded(result, 2 * k + 1));
            }
            compare_edge(&mut result, tiles, patches[k as usize], patches[(k + patch_side) as usize], EdgeAxis::Z, Ghost(2 * k + 1));
        }
        proof {
            let cell = cell_edges(patch_side as int, k as int);
            assert(grid_edges(patch_side as int, (k + 1) as nat) == before + cell);
            let r0 = no_edges();
            let ex = (k as int, k + 1, EdgeAxis::X);
            let ez = (k as int, k + patch_side, EdgeAxis::Z);
            if x + 1 < patch_side && z + 1 < patch_side {
                assert(cell =~= seq![ex, ez]);
                let once = before + seq![ex];
                assert((before + cell).drop_last() =~= once);
                assert(once.drop_last() =~= before);
                assert(fold_edges(r0, tiles@, patches@, once) == after_x);
                assert(fold_edges(r0, tiles@, patches@, before + cell) == result);
            } else if x + 1 < patch_side {
                assert(cell =~= seq![ex]);
                assert((before + cell).drop_last() =~= before);
                assert(fold_edges(r0, tiles@, patches@, before + cell) == result);
            } else if z + 1 < patch_side {
                assert(cell =~= seq![ez]);
                assert((before + cell).drop_last() =~= before);
                assert(fold_edges(r0, tiles@, patches@, before + cell) == result);
            } else {
                assert(cell =~= Seq::<(int, int, EdgeAxis)>::empty());
                assert(before + cell =~= before);
            }
            assert(edges_bounded(result, 2 * (k + 1)));
        }
        k += 1;
    }
    result
}

/// The patch at cell `k` of a window grid of side `ps`, cells counted row
/// by row: the `PATCHES_PER_REGION_SIDE`-square block of its region's tile,
/// placed at the region's projected global coordinate; refused when the
/// mapping misses the region, the tile belongs to another region or the
/// projection refuses it.
pub open spec fn patch_at(
    active: Seq<TerrainAssignment>,
    tiles: Seq<TileHeights>,
    region_side: int,
    ps: int,
    camera: [i32; 2],
    projection: TerrainProjection,
    k: int,
) -> Result<LodPatch, LodError> {
    let gz = k / ps;
    let gx = k % ps;
    let ri = (gz / PATCHES_PER_REGION_SIDE as int) * region_side + gx / PATCHES_PER_REGION_SIDE as int;
    if ri >= active.len() {
        Err(LodError::IncompleteMapping)
    } else if active[ri].region_id != tiles[ri].region_id {
        Err(LodError::TileMismatch)
    } else {
        match projection.region_id_result(ri, active[ri].region_id) {
            Err(e) => Err(LodError::Projection(e)),
            Ok(id) => {
                let lx = gx % PATCHES_PER_REGION_SIDE as int;
                let lz = gz % PATCHES_PER_REGION_SIDE as int;
                let x = region_column(id) * PATCHES_PER_REGION_SIDE + lx;
                let z = region_row(id) * PATCHES_PER_REGION_SIDE + lz;
                Ok(
                    LodPatch {
                        tile: ri as usize,
                        patch_x: (lx * PATCH_CELL_SIDE) as u32,
                        patch_z: (lz * PATCH_CELL_SIDE) as u32,
                        global_x: x as i32,
                        global_z: z as i32,
                        lod: patch_lod(x, z, camera),
                    },
                )
            },
        }
    }
}

/// The patches of the first `n` cells, or the first refusal.
pub open spec fn patches_upto(
    active: Seq<TerrainAssignment>,
    tiles: Seq<TileHeights>,
    region_side: int,
    ps: int,
    camera: [i32; 2],
    projection: TerrainProjection,
    n: nat,
) -> Result<Seq<LodPatch>, LodError>
    decreases n,
{
    if n == 0 {
        Ok(Seq::empty())
    } else {
        match patches_upto(active, tiles, region_side, ps, camera, projection, (n - 1) as nat) {
            Err(e) => Err(e),
            Ok(done) => match patch_at(active, tiles, region_side, ps, camera, projection, n - 1) {
                Err(e) => Err(e),
                Ok(p) => Ok(done.push(p)),
            },
        }
    }
}

/// Builds the window's patches, row by row, as `patches_upto` says.
fn build_patches(
    active: &Vec<TerrainAssignment>,
    tiles: &Vec<TileHeights>,
    region_side: u32,
    patch_side: u32,
    camera: [i32; 2],
    projection: TerrainProjection,
) -> (r: Result<Vec<LodPatch>, LodError>)
    requires
        active@.len() == tiles@.len(),
        forall|i: int| 0 <= i < tiles@.len() ==> (#[trigger] tiles@[i]).wf(),
        region_side <= 128,
        patch_side == region_side * PATCHES_PER_REGION_SIDE,
    ensures
        match patches_upto(active@, tiles@, region_side as int, patch_side as int, camera, projection, (patch_side * patch_side) as nat) {
            Err(e) => r == Err::<Vec<LodPatch>, LodError>(e),
            Ok(expected) => r matches Ok(patches) && patches@ == expected,
        },
        r matches Ok(patches) ==> forall|i: int| 0 <= i < patches@.len() ==> patch_wf(#[trigger] patches@[i], tiles@),
        r matches Ok(patches) ==> patches@.len() == patch_side * patch_side,
{
    let mut patches: Vec<LodPatch> = Vec::new();
    proof {
        assert(patch_side * patch_side <= 512 * 512) by (nonlinear_arith)
            requires
                patch_side <= 512,
        ;
    }
    let cells = patch_side * patch_side;
    let mut k: u32 = 0;
    while k < cells
        invariant
            active@.len() == tiles@.len(),
            forall|i: int| 0 <= i < tiles@.len() ==> (#[trigger] tiles@[i]).wf(),
            region_side <= 128,
            patch_side == region_side * PATCHES_PER_REGION_SIDE,
            cells == patch_side * patch_side,
            k <= cells,
            patches@.len() == k,
            patches_upto(active@, tiles@, region_side as int, patch_side as int, camera, projection, k as nat)
                == Ok::<Seq<LodPatch>, LodError>(patches@),
            forall|i: int| 0 <= i < patches@.len() ==> patch_wf(#[trigger] patches@[i], tiles@),
        decreases cells - k,
    {
        let grid_z = k / patch_side;
        let grid_x = k % patch_side;
        proof {
            assert(grid_z < patch_side) by {
                vstd::arithmetic::div_mod::lemma_multiply_divide_lt(k as int, patch_side as int, patch_side as int);
            }
        }
        proof {
            let rz = grid_z / PATCHES_PER_REGION_SIDE;
            assert(rz < region_side);
            assert(rz * region_side <= 128 * 128) by (nonlinear_arith)
                requires
                    rz < region_side,
                    region_side <= 128,
            ;
        }
        let region_index = (grid_z / PATCHES_PER_REGION_SIDE) * region_side + grid_x / PATCHES_PER_REGION_SIDE;
        if region_index as usize >= active.len() {
            proof {
                lemma_patches_stay_refused(active@, tiles@, region_side as int, patch_side as int, camera, projection, (k + 1) as nat, cells as nat);
            }
            return Err(LodError::IncompleteMapping);
        }
        let assignment = active[region_index as usize];
        if assignment.region_id != tiles[region_index as usize].region_id {
            proof {
                lemma_patches_stay_refused(active@, tiles@, region_side as int, patch_side as int, camera, projection, (k + 1) as nat, cells as nat);
            }
            return Err(LodError::TileMismatch);
        }
        let projected = match projection.region_id(region_index as usize, assignment.region_id) {
            Ok(id) => id,
            Err(e) => {
                proof {
                    lemma_patches_stay_refused(active@, tiles@, region_side as int, patch_side as int, camera, projection, (k + 1) as nat, cells as nat);
                }
                return Err(LodError::Projection(e));
            },
        };
        let region_x = (projected % WORLD_REGION_SIDE) as i32;
        let region_z = (projected / WORLD_REGION_SIDE) as i32;
        let local_x = grid_x % PATCHES_PER_REGION_SIDE;
        let local_z = grid_z % PATCHES_PER_REGION_SIDE;
        let global_x = region_x * 4 + local_x as i32;
        let global_z = region_z * 4 + local_z as i32;
        let patch = LodPatch {
            tile: region_index as usize,
            patch_x: local_x * PATCH_CELL_SIDE,
            patch_z: local_z * PATCH_CELL_SIDE,
            global_x,
            global_z,
            lod: select_lod(global_x, global_z, camera),
        };
        patches.push(patch);
        k += 1;
    }
    Ok(patches)
}

/// Once the patches are refused they stay refused.
proof fn lemma_patches_stay_refused(
    active: Seq<TerrainAssignment>,
    tiles: Seq<TileHeights>,
    region_side: int,
    ps: int,
    camera: [i32; 2],
    projection: TerrainProjection,
    j: nat,
    n: nat,
)
    requires
        j <= n,
        patches_upto(active, tiles, region_side, ps, camera, projection, j) is Err,
    ensures
        patches_upto(active, tiles, region_side, ps, camera, projection, n) == patches_upto(
            active,
            tiles,
            region_side,
            ps,
            camera,
            projection,
            j,
        ),
    decreases n - j,
{
    if j < n {
        lemma_patches_stay_refused(active, tiles, region_side, ps, camera, projection, j, (n - 1) as nat);
    }
}

/// Cells along a patch side between the vertices drawn at `lod`.
pub open spec fn cells_at(lod: u32) -> int {
    (PATCH_CELL_SIDE as int) / lod_step(lod)
}

proof fn lemma_costs()
    ensures
        vertex_cost(0) == 81 && triangle_cost(0) == 128,
        vertex_cost(1) == 25 && triangle_cost(1) == 32,
        vertex_cost(2) == 9 && triangle_cost(2) == 8,
{
    assert(cells_at(0) == 8);
    assert(cells_at(1) == 4);
    assert(cells_at(2) == 2);
}

/// Vertices of a patch drawn at `lod`.
pub open spec fn vertex_cost(lod: u32) -> int {
    (cells_at(lod) + 1) * (cells_at(lod) + 1)
}

/// Triangles of a patch drawn at `lod`.
pub open spec fn triangle_cost(lod: u32) -> int {
    cells_at(lod) * cells_at(lod) * 2
}

/// Patches drawn at `lod`.
pub open spec fn count_lod(patches: Seq<LodPatch>, lod: u32) -> int
    decreases patches.len(),
{
    if patches.len() == 0 {
        0
    } else {
        count_lod(patches.drop_last(), lod) + if patches.last().lod == lod { 1int } else { 0int }
    }
}

/// Vertices of all patches.
pub open spec fn total_vertices(patches: Seq<LodPatch>) -> int
    decreases patches.len(),
{
    if patches.len() == 0 {
        0
    } else {
        total_vertices(patches.drop_last()) + vertex_cost(patches.last().lod)
    }
}

/// Triangles of all patches.
pub open spec fn total_triangles(patches: Seq<LodPatch>) -> int
    decreases patches.len(),
{
    if patches.len() == 0 {
        0
    } else {
        total_triangles(patches.drop_last()) + triangle_cost(patches.last().lod)
    }
}

/// The bytes of every patch's global coordinate and level, in order.
pub open spec fn lod_evidence(patches: Seq<LodPatch>) -> Seq<u8>
    decreases patches.len(),
{
    if patches.len() == 0 {
        Seq::empty()
    } else {
        let p = patches.last();
        lod_evidence(patches.drop_last()) + le_i32(p.global_x) + le_i32(p.global_z) + le_u32(p.lod)
    }
}

/// Vertices and triangles of a patch at `lod`, as computed.
fn patch_cost(lod: u32) -> (r: (u32, u32))
    requires
        lod <= 2,
    ensures
        r.0 == vertex_cost(lod),
        r.1 == triangle_cost(lod),
        r.0 <= 81,
        r.1 <= 128,
{
    proof {
        lemma_costs();
    }
    if lod == 0 {
        (81, 128)
    } else if lod == 1 {
        (25, 32)
    } else {
        (9, 8)
    }
}

/// The level-of-detail oracle of a terrain snapshot: the window's patches,
/// how many are drawn at each level, the geometry they emit against full
/// detail everywhere, and the tallies of their shared edges. Refused when the
/// snapshot's mapping and tiles differ in length, when the patches cannot be
/// built, or when two neighbors differ by more than one level.
pub fn evaluate(
    config: LoadConfig,
    active: &Vec<TerrainAssignment>,
    tiles: &Vec<TileHeights>,
    camera_patch: [i32; 2],
    projection: TerrainProjection,
) -> (r: Result<LodOracle, LodError>)
    requires
        config.wf(),
        forall|i: int| 0 <= i < tiles@.len() ==> (#[trigger] tiles@[i]).wf(),
    ensures
        ({
            let side = config.side() as int;
            let ps = side * PATCHES_PER_REGION_SIDE;
            if active@.len() != tiles@.len() {
                r == Err::<LodOracle, LodError>(LodError::ShapeMismatch)
            } else {
                match patches_upto(active@, tiles@, side, ps, camera_patch, projection, (ps * ps) as nat) {
                    Err(e) => r == Err::<LodOracle, LodError>(e),
                    Ok(patches) => {
                        let edges = fold_edges(no_edges(), tiles@, patches, grid_edges(ps, (ps * ps) as nat));
                        if edges.max_lod_delta > 1 {
                            r == Err::<LodOracle, LodError>(LodError::DeltaTooLarge)
                        } else {
                            r matches Ok(o) && {
                                &&& o.camera_patch == camera_patch
                                &&& o.lod_sha256@ == sha256_hex(lod_evidence(patches))
                                &&& o.lod_counts@ == seq![
                                    count_lod(patches, 0) as u32,
                                    count_lod(patches, 1) as u32,
                                    count_lod(patches, 2) as u32,
                                ]
                                &&& o.patches == patches.len()
                                &&& o.vertices == total_vertices(patches)
                                &&& o.triangles == total_triangles(patches)
                                &&& o.baseline_vertices == 81 * patches.len()
                                &&& o.baseline_triangles == 128 * patches.len()
                                &&& o.reduced_vertices == 81 * patches.len() - total_vertices(patches)
                                &&& o.reduced_triangles == 128 * patches.len() - total_triangles(patches)
                                &&& o.edges == edges
                            }
                        }
                    },
                }
            }
        }),
{
    if active.len() != tiles.len() {
        return Err(LodError::ShapeMismatch);
    }
    let region_side = config.active_radius * 2 + 1;
    let patch_side = region_side * PATCHES_PER_REGION_SIDE;
    proof {
        assert(region_side <= 128);
        assert(patch_side * patch_side <= 512 * 512) by (nonlinear_arith)
            requires
                patch_side <= 512,
        ;
    }
    let patches = match build_patches(active, tiles, region_side, patch_side, camera_patch, projection) {
        Ok(p) => p,
        Err(e) => return Err(e),
    };
    let mut counts: [u32; 3] = [0, 0, 0];
    let mut c0: u32 = 0;
    let mut c1: u32 = 0;
    let mut c2: u32 = 0;
    let mut vertices: u32 = 0;
    let mut triangles: u32 = 0;
    let mut evidence: Vec<u8> = Vec::new();
    let mut i: usize = 0;
    while i < patches.len()
        invariant
            i <= patches@.len(),
            patches@.len() <= 512 * 512,
            forall|j: int| 0 <= j < patches@.len() ==> patch_wf(#[trigger] patches@[j], tiles@),
            c0 == count_lod(patches@.take(i as int), 0),
            c1 == count_lod(patches@.take(i as int), 1),
            c2 == count_lod(patches@.take(i as int), 2),
            c0 + c1 + c2 <= i,
            vertices == total_vertices(patches@.take(i as int)),
            triangles == total_triangles(patches@.take(i as int)),
            vertices <= 81 * i,
            triangles <= 128 * i,
            evidence@ == lod_evidence(patches@.take(i as int)),
        decreases patches@.len() - i,
    {
        let patch = patches[i];
        let ghost prefix = patches@.take(i as int);
        let ghost next = patches@.take(i + 1);
        proof {
            assert(next.drop_last() =~= prefix);
            assert(next.last() == patch);
            assert(patch_wf(patches@[i as int], tiles@));
        }
        if patch.lod == 0 {
            c0 = c0 + 1;
        } else if patch.lod == 1 {
            c1 = c1 + 1;
        } else {
            c2 = c2 + 1;
        }
        let (v, t) = patch_cost(patch.lod);
        vertices = vertices + v;
        triangles = triangles + t;
        push_i32_le(&mut evidence, patch.global_x);
        push_i32_le(&mut evidence, patch.global_z);
        push_u32_le(&mut evidence, patch.lod);
        i += 1;
    }
    proof {
        assert(patches@.take(patches@.len() as int) =~= patches@);
    }
    counts = [c0, c1, c2];
    let edges = evaluate_edges(&patches, tiles, patch_side);
    if edges.max_lod_delta > 1 {
        return Err(LodError::DeltaTooLarge);
    }
    let patch_count = patches.len() as u32;
    let baseline_vertices = patch_count * 81;
    let baseline_triangles = patch_count * 128;
    Ok(
        LodOracle {
            camera_patch,
            lod_sha256: sha256_hex_of(&evidence),
            lod_counts: counts,
            patches: patch_count,
            vertices,
            triangles,
            baseline_vertices,
            baseline_triangles,
            reduced_vertices: baseline_vertices - vertices,
            reduced_triangles: baseline_triangles - triangles,
            edges,
        },
    )
}

/// The far edge of `p` and the near edge of `n` carry the same heights.
pub open spec fn seamless(tp: TileHeights, tn: TileHeights, p: LodPatch, n: LodPatch, axis: EdgeAxis) -> bool {
    forall|a: int|
        0 <= a <= PATCH_CELL_SIDE ==> #[trigger] edge_height(tp, p, axis, true, a) == edge_height(
            tn,
            n,
            axis,
            false,
            a,
        )
}

/// Comparing the samples of a seamless edge finds no mismatch.
proof fn lemma_sample_pass_seamless(
    r: LodEdges,
    tp: TileHeights,
    tn: TileHeights,
    p: LodPatch,
    n: LodPatch,
    axis: EdgeAxis,
    den: int,
    k: nat,
)
    requires
        seamless(tp, tn, p, n, axis),
        den == 1 || den == 2 || den == 4,
        k <= PATCH_CELL_SIDE + 1,
    ensures
        sample_pass(r, tp, tn, p, n, axis, den, k).mismatch_count == r.mismatch_count,
        sample_pass(r, tp, tn, p, n, axis, den, k).first_mismatch == r.first_mismatch,
    decreases k,
{
    if k > 0 {
        lemma_sample_pass_seamless(r, tp, tn, p, n, axis, den, (k - 1) as nat);
        let sample = k - 1;
        let base = sample / den * den;
        assert(0 <= base <= sample) by {
            vstd::arithmetic::div_mod::lemma_fundamental_div_mod(sample, den);
        }
        let next = if base + den <= PATCH_CELL_SIDE { base + den } else { PATCH_CELL_SIDE as int };
        assert(edge_height(tp, p, axis, true, base) == edge_height(tn, n, axis, false, base));
        assert(edge_height(tp, p, axis, true, next) == edge_height(tn, n, axis, false, next));
    }
}

/// Law: where every pair of neighboring patches carries the same heights on
/// its shared edge, the oracle finds no seam mismatch, whatever levels the
/// patches are drawn at.
pub proof fn law_seamless_edges_never_mismatch(
    tiles: Seq<TileHeights>,
    patches: Seq<LodPatch>,
    edges: Seq<(int, int, EdgeAxis)>,
)
    requires
        forall|i: int|
            0 <= i < edges.len() ==> {
                let (a, b, axis) = #[trigger] edges[i];
                &&& 0 <= a < patches.len()
                &&& 0 <= b < patches.len()
                &&& patches[a].lod <= 2
                &&& patches[b].lod <= 2
                &&& seamless(
                    tiles[patches[a].tile as int],
                    tiles[patches[b].tile as int],
                    patches[a],
                    patches[b],
                    axis,
                )
            },
    ensures
        fold_edges(no_edges(), tiles, patches, edges).mismatch_count == 0,
        fold_edges(no_edges(), tiles, patches, edges).first_mismatch is None,
    decreases edges.len(),
{
    if edges.len() > 0 {
        let rest = edges.drop_last();
        assert forall|i: int| 0 <= i < rest.len() implies {
            let (a, b, axis) = #[trigger] rest[i];
            &&& 0 <= a < patches.len()
            &&& 0 <= b < patches.len()
            &&& patches[a].lod <= 2
            &&& patches[b].lod <= 2
            &&& seamless(tiles[patches[a].tile as int], tiles[patches[b].tile as int], patches[a], patches[b], axis)
        } by {
            assert(rest[i] == edges[i]);
        }
        law_seamless_edges_never_mismatch(tiles, patches, rest);
        let prev = fold_edges(no_edges(), tiles, patches, rest);
        let (a, b, axis) = edges.last();
        assert(edges.last() == edges[edges.len() - 1]);
        let (p, n) = (patches[a], patches[b]);
        let (tp, tn) = (tiles[p.tile as int], tiles[n.tile as int]);
        let (lo, hi) = if p.lod <= n.lod { (p.lod, n.lod) } else { (n.lod, p.lod) };
        let delta = (hi - lo) as u32;
        let counted = LodEdges {
            patch_edges: (prev.patch_edges + 1) as u32,
            max_lod_delta: if prev.max_lod_delta >= delta { prev.max_lod_delta } else { delta },
            ..prev
        };
        let classified = if delta == 0 {
            LodEdges { same_lod_edges: (counted.same_lod_edges + 1) as u32, ..counted }
        } else {
            LodEdges {
                transition_edges: (counted.transition_edges + 1) as u32,
                adjusted_vertices: (counted.adjusted_vertices + adjusted_between(
                    lod_step(lo),
                    lod_step(hi),
                    (PATCH_CELL_SIDE + 1) as nat,
                )) as u32,
                ..counted
            }
        };
        lemma_sample_pass_seamless(classified, tp, tn, p, n, axis, lod_step(hi), (PATCH_CELL_SIDE + 1) as nat);
    }
}

/// Law: two patches of one tile that follow each other along an axis share
/// their edge samples, so the oracle never reports a seam between them.
pub proof fn law_patches_of_one_tile_are_seamless(t: TileHeights, p: LodPatch, n: LodPatch, axis: EdgeAxis)
    requires
        match axis {
            EdgeAxis::X => n.patch_x == p.patch_x + PATCH_CELL_SIDE && n.patch_z == p.patch_z,
            EdgeAxis::Z => n.patch_z == p.patch_z + PATCH_CELL_SIDE && n.patch_x == p.patch_x,
        },
    ensures
        seamless(t, t, p, n, axis),
{
}

} // verus!
