use vstd::prelude::*;

use super::lod::{lod_for_distance, patch_distance, select_lod, PATCHES_PER_REGION_SIDE, PATCH_CELL_SIDE};

verus! {

/// Height cells along one side of a region tile.
pub const CELL_SIDE: u32 = 32;

/// Height samples along one side of a region tile.
pub const SAMPLE_SIDE: u32 = 33;

/// Regions along one side of the world grid that region ids number.
pub const WORLD_REGION_SIDE: u32 = 128;

/// Fixed-point denominator of surface heights: heights are in units of
/// 1 / 2^18 of a height step.
pub const Q18_DENOMINATOR: u32 = 262_144;

/// Positions are in units of 1 / 256 of a cell; a patch spans this many.
pub const PATCH_Q8_SIDE: u32 = 2048;

/// The height samples of one region tile, row by row.
#[derive(Debug)]
pub struct TileHeights {
    pub region_id: u32,
    pub heights: Vec<i16>,
}

impl TileHeights {
    /// A tile holds one sample per grid point.
    pub open spec fn wf(self) -> bool {
        self.heights@.len() == SAMPLE_SIDE * SAMPLE_SIDE
    }

    /// The sample at column `x`, row `z`.
    pub open spec fn at(self, x: int, z: int) -> int {
        self.heights@[z * SAMPLE_SIDE + x] as int
    }
}

/// The sample at column `x`, row `z`.
pub fn height(tile: &TileHeights, x: u32, z: u32) -> (r: i32)
    requires
        tile.wf(),
        x < SAMPLE_SIDE,
        z < SAMPLE_SIDE,
    ensures
        r == tile.at(x as int, z as int),
{
    tile.heights[(z * SAMPLE_SIDE + x) as usize] as i32
}

/// Cells between the vertices of a patch drawn at `lod`.
pub open spec fn lod_step(lod: u32) -> int {
    if lod == 0 {
        1
    } else if lod == 1 {
        2
    } else {
        4
    }
}

/// The factor that brings a blend over one vertex span of a patch at `lod`
/// to units of 1/2^18: four cells' worth of 1/256 steps per span.
pub open spec fn lod_scale(lod: u32) -> int {
    if lod == 0 {
        4
    } else if lod == 1 {
        2
    } else {
        1
    }
}

/// The first vertex, in cells from the patch origin, of the span of a patch
/// at `lod` that holds the point `offset` (in 1/256 cells) from that origin;
/// the last span also holds the far edge.
pub open spec fn span_start(offset: int, lod: u32) -> int {
    let step = lod_step(lod);
    let start = offset / (step * 256) * step;
    if start <= PATCH_CELL_SIDE - step {
        start
    } else {
        PATCH_CELL_SIDE - step
    }
}

/// The surface at `(q8x, q8z)` of a patch drawn at `lod`: the vertex heights
/// of the span's two triangles, split along the anti-diagonal, blended with
/// barycentric weights, in units of 1/2^18.
pub open spec fn triangle_q18_spec(
    tile: TileHeights,
    q8x: int,
    q8z: int,
    patch_x: int,
    patch_z: int,
    lod: u32,
) -> int {
    let step = lod_step(lod);
    let den = step * 256;
    let ox = patch_x * PATCH_Q8_SIDE;
    let oz = patch_z * PATCH_Q8_SIDE;
    let cx = span_start(q8x - ox, lod);
    let cz = span_start(q8z - oz, lod);
    let x = patch_x * PATCH_CELL_SIDE + cx;
    let z = patch_z * PATCH_CELL_SIDE + cz;
    let u = q8x - ox - cx * 256;
    let v = q8z - oz - cz * 256;
    let sum = u + v;
    let weighted = if sum <= den {
        tile.at(x, z) * (den - sum) + tile.at(x + step, z) * u + tile.at(x, z + step) * v
    } else {
        tile.at(x + step, z) * (den - v) + tile.at(x, z + step) * (den - u) + tile.at(x + step, z + step)
            * (sum - den)
    };
    weighted * lod_scale(lod)
}

/// The surface at a point on a patch edge drawn at `lod`: the two vertex
/// heights of the edge span blended linearly, in units of 1/2^18. A
/// `vertical` edge runs along z at column `q8x / 256`; another along x at
/// row `q8z / 256`.
pub open spec fn edge_q18_spec(tile: TileHeights, q8x: int, q8z: int, patch: int, vertical: bool, lod: u32) -> int {
    let step = lod_step(lod);
    let den = step * 256;
    let along = (if vertical { q8z } else { q8x }) - patch * PATCH_Q8_SIDE;
    let base = span_start(along, lod);
    let fraction = along - base * 256;
    let fixed = (if vertical { q8x } else { q8z }) / 256;
    let lo = patch * PATCH_CELL_SIDE + base;
    let hi = lo + step;
    let first = if vertical { tile.at(fixed, lo) } else { tile.at(lo, fixed) };
    let second = if vertical { tile.at(fixed, hi) } else { tile.at(hi, fixed) };
    (first * (den - fraction) + second * fraction) * lod_scale(lod)
}

/// Facts about the span that holds a point of a patch.
proof fn lemma_span(offset: int, lod: u32)
    requires
        0 <= offset <= PATCH_Q8_SIDE,
        lod <= 2,
    ensures
        0 <= span_start(offset, lod),
        span_start(offset, lod) + lod_step(lod) <= PATCH_CELL_SIDE,
        0 <= offset - span_start(offset, lod) * 256 <= lod_step(lod) * 256,
{
    let step = lod_step(lod);
    let q = offset / (step * 256);
    assert(q * (step * 256) <= offset < q * (step * 256) + step * 256) by {
        vstd::arithmetic::div_mod::lemma_fundamental_div_mod(offset, step * 256);
    }
    assert(0 <= q <= 8) by {
        vstd::arithmetic::div_mod::lemma_div_is_ordered(offset, 2048, step * 256);
        vstd::arithmetic::div_mod::lemma_div_is_ordered_by_denominator(2048, 256, step * 256);
        vstd::arithmetic::div_mod::lemma_div_pos_is_pos(offset, step * 256);
    }
    assert(q * step * 256 == q * (step * 256)) by (nonlinear_arith);
    assert(span_start(offset, lod) == if q * step <= PATCH_CELL_SIDE - step {
        q * step
    } else {
        PATCH_CELL_SIDE - step
    });
}

/// A sample times a weight stays within the weight's share of the range.
proof fn lemma_weighted(h: int, w: int)
    by (nonlinear_arith)
    requires
        -32768 <= h <= 32767,
        0 <= w,
    ensures
        -32768 * w <= h * w <= 32767 * w,
{
}

/// Cells per vertex at `lod`, as computed.
fn step_of(lod: u32) -> (r: u32)
    requires
        lod <= 2,
    ensures
        r == lod_step(lod),
{
    if lod == 0 {
        1
    } else if lod == 1 {
        2
    } else {
        4
    }
}

/// The span start of `offset`, as computed.
fn span_start_of(offset: u32, step: u32, lod: u32) -> (r: u32)
    requires
        offset <= PATCH_Q8_SIDE,
        lod <= 2,
        step == lod_step(lod),
    ensures
        r == span_start(offset as int, lod),
{
    let start = offset / (step * 256) * step;
    if start <= PATCH_CELL_SIDE - step {
        start
    } else {
        PATCH_CELL_SIDE - step
    }
}

/// `a * wa + b * wb + c * wc` for three samples whose non-negative weights
/// sum to at most one vertex span.
fn blend(a: i32, wa: u32, b: i32, wb: u32, c: i32, wc: u32) -> (r: i32)
    requires
        -32768 <= a <= 32767,
        -32768 <= b <= 32767,
        -32768 <= c <= 32767,
        wa + wb + wc <= 1024,
    ensures
        r == a * wa + b * wb + c * wc,
        -32768 * (wa + wb + wc) <= r <= 32767 * (wa + wb + wc),
{
    proof {
        lemma_weighted(a as int, wa as int);
        lemma_weighted(b as int, wb as int);
        lemma_weighted(c as int, wc as int);
    }
    a * wa as i32 + b * wb as i32 + c * wc as i32
}

/// Scales a blend over one vertex span of a patch at `lod` to units of
/// 1/2^18.
fn scale_q18(weighted: i32, lod: u32) -> (r: i32)
    requires
        lod <= 2,
        -32768 * (lod_step(lod) * 256) <= weighted <= 32767 * (lod_step(lod) * 256),
    ensures
        r == weighted * lod_scale(lod),
        -0x200_0000 <= r <= 0x200_0000,
{
    if lod == 0 {
        weighted * 4
    } else if lod == 1 {
        weighted * 2
    } else {
        weighted
    }
}

/// The surface of a patch interior point, as `triangle_q18_spec` says.
pub fn triangle_q18(tile: &TileHeights, q8: [u32; 2], patch_x: u32, patch_z: u32, lod: u32) -> (r: i32)
    requires
        tile.wf(),
        lod <= 2,
        patch_x < PATCHES_PER_REGION_SIDE,
        patch_z < PATCHES_PER_REGION_SIDE,
        patch_x * PATCH_Q8_SIDE <= q8[0] <= patch_x * PATCH_Q8_SIDE + PATCH_Q8_SIDE,
        patch_z * PATCH_Q8_SIDE <= q8[1] <= patch_z * PATCH_Q8_SIDE + PATCH_Q8_SIDE,
    ensures
        r == triangle_q18_spec(*tile, q8[0] as int, q8[1] as int, patch_x as int, patch_z as int, lod),
        -0x200_0000 <= r <= 0x200_0000,
{
    let step = step_of(lod);
    let denominator = step * 256;
    let origin_x = patch_x * PATCH_Q8_SIDE;
    let origin_z = patch_z * PATCH_Q8_SIDE;
    proof {
        lemma_span((q8[0] - origin_x) as int, lod);
        lemma_span((q8[1] - origin_z) as int, lod);
    }
    let cell_x = span_start_of(q8[0] - origin_x, step, lod);
    let cell_z = span_start_of(q8[1] - origin_z, step, lod);
    let x = patch_x * PATCH_CELL_SIDE + cell_x;
    let z = patch_z * PATCH_CELL_SIDE + cell_z;
    let u = q8[0] - origin_x - cell_x * 256;
    let v = q8[1] - origin_z - cell_z * 256;
    let sum = u + v;
    let h00 = height(tile, x, z);
    let h10 = height(tile, x + step, z);
    let h01 = height(tile, x, z + step);
    let h11 = height(tile, x + step, z + step);
    let weighted = if sum <= denominator {
        blend(h00, denominator - sum, h10, u, h01, v)
    } else {
        blend(h10, denominator - v, h01, denominator - u, h11, sum - denominator)
    };
    scale_q18(weighted, lod)
}

/// The surface of a point on a patch edge, as `edge_q18_spec` says.
pub fn edge_q18(tile: &TileHeights, q8: [u32; 2], patch: u32, vertical: bool, lod: u32) -> (r: i32)
    requires
        tile.wf(),
        lod <= 2,
        patch < PATCHES_PER_REGION_SIDE,
        q8[0] <= CELL_SIDE * 256,
        q8[1] <= CELL_SIDE * 256,
        vertical ==> patch * PATCH_Q8_SIDE <= q8[1] <= patch * PATCH_Q8_SIDE + PATCH_Q8_SIDE,
        !vertical ==> patch * PATCH_Q8_SIDE <= q8[0] <= patch * PATCH_Q8_SIDE + PATCH_Q8_SIDE,
    ensures
        r == edge_q18_spec(*tile, q8[0] as int, q8[1] as int, patch as int, vertical, lod),
        -0x200_0000 <= r <= 0x200_0000,
{
    let step = step_of(lod);
    let denominator = step * 256;
    let along = if vertical { q8[1] } else { q8[0] } - patch * PATCH_Q8_SIDE;
    proof {
        lemma_span(along as int, lod);
    }
    let base = span_start_of(along, step, lod);
    let fraction = along - base * 256;
    let fixed = if vertical { q8[0] / 256 } else { q8[1] / 256 };
    let lo = patch * PATCH_CELL_SIDE + base;
    let first = if vertical { height(tile, fixed, lo) } else { height(tile, lo, fixed) };
    let second = if vertical { height(tile, fixed, lo + step) } else { height(tile, lo + step, fixed) };
    let blended = blend(first, denominator - fraction, second, fraction, 0, 0);
    scale_q18(blended, lod)
}

/// The column of region `id` in the world grid.
pub open spec fn region_column(id: u32) -> int {
    (id % WORLD_REGION_SIDE) as int
}

/// The row of region `id` in the world grid.
pub open spec fn region_row(id: u32) -> int {
    (id / WORLD_REGION_SIDE) as int
}

/// The global patches of the active regions: each region's
/// `PATCHES_PER_REGION_SIDE` by `PATCHES_PER_REGION_SIDE` block.
pub open spec fn active_patches(regions: Seq<u32>) -> Set<(int, int)> {
    Set::new(
        |p: (int, int)|
            exists|i: int, lx: int, lz: int|
                0 <= i < regions.len() && 0 <= lx < PATCHES_PER_REGION_SIDE && 0 <= lz
                    < PATCHES_PER_REGION_SIDE && p == #[trigger] block_patch(regions[i], lx, lz),
    )
}

/// The global patch at `(lx, lz)` within the block of region `id`.
pub open spec fn block_patch(id: u32, lx: int, lz: int) -> (int, int) {
    (region_column(id) * PATCHES_PER_REGION_SIDE + lx, region_row(id) * PATCHES_PER_REGION_SIDE + lz)
}

/// The level of detail of the global patch `(x, z)`.
pub open spec fn patch_lod(x: int, z: int, camera_patch: [i32; 2]) -> u32 {
    lod_for_distance(patch_distance(x as i32, z as i32, camera_patch))
}

/// The patch of a region that holds the offset `q8` (in 1/256 cells); the
/// far edge belongs to the last patch.
pub open spec fn patch_of(q8: int) -> int {
    if q8 / (PATCH_Q8_SIDE as int) < PATCHES_PER_REGION_SIDE {
        q8 / (PATCH_Q8_SIDE as int)
    } else {
        PATCHES_PER_REGION_SIDE - 1
    }
}

/// The surface that the renderer draws at `(q8x, q8z)` of the region
/// `region_id`, and the level of detail of the patch that owns the point.
/// Patch corners take their sample; points on a patch edge blend along the
/// edge at the coarser of the two patches' levels, where the neighbor is
/// active; other points blend within the owner's triangle.
pub open spec fn selected_surface_spec(
    tile: TileHeights,
    region_id: u32,
    q8x: int,
    q8z: int,
    regions: Seq<u32>,
    camera_patch: [i32; 2],
) -> (int, u32) {
    let px = patch_of(q8x);
    let pz = patch_of(q8z);
    let gx = region_column(region_id) * PATCHES_PER_REGION_SIDE + px;
    let gz = region_row(region_id) * PATCHES_PER_REGION_SIDE + pz;
    let owner = patch_lod(gx, gz, camera_patch);
    let x_edge = q8x % (PATCH_Q8_SIDE as int) == 0;
    let z_edge = q8z % (PATCH_Q8_SIDE as int) == 0;
    if x_edge && z_edge {
        (tile.at(q8x / 256, q8z / 256) * 1024, owner)
    } else if x_edge {
        let nx = gx + if q8x == CELL_SIDE * 256 { 1int } else { -1int };
        let edge = if active_patches(regions).contains((nx, gz)) { patch_lod(nx, gz, camera_patch) } else { owner };
        let lod = if owner >= edge { owner } else { edge };
        (edge_q18_spec(tile, q8x, q8z, pz, true, lod), owner)
    } else if z_edge {
        let nz = gz + if q8z == CELL_SIDE * 256 { 1int } else { -1int };
        let edge = if active_patches(regions).contains((gx, nz)) { patch_lod(gx, nz, camera_patch) } else { owner };
        let lod = if owner >= edge { owner } else { edge };
        (edge_q18_spec(tile, q8x, q8z, px, false, lod), owner)
    } else {
        (triangle_q18_spec(tile, q8x, q8z, px, pz, owner), owner)
    }
}

/// Whether the global patch `(x, z)` is among the active regions' patches.
pub fn patch_active(regions: &Vec<u32>, x: i32, z: i32) -> (r: bool)
    ensures
        r == active_patches(regions@).contains((x as int, z as int)),
{
    let mut i: usize = 0;
    while i < regions.len()
        invariant
            i <= regions@.len(),
            forall|j: int, lx: int, lz: int|
                0 <= j < i && 0 <= lx < PATCHES_PER_REGION_SIDE && 0 <= lz < PATCHES_PER_REGION_SIDE ==> (
                x as int, z as int) != #[trigger] block_patch(regions@[j], lx, lz),
        decreases regions@.len() - i,
    {
        let column = (regions[i] % WORLD_REGION_SIDE) as i64 * 4;
        let row = (regions[i] / WORLD_REGION_SIDE) as i64 * 4;
        if column <= x as i64 && (x as i64) < column + 4 && row <= z as i64 && (z as i64) < row + 4 {
            proof {
                let lx = x - column;
                let lz = z - row;
                assert(active_patches(regions@).contains((x as int, z as int))) by {
                    assert((x as int, z as int) == block_patch(regions@[i as int], lx as int, lz as int));
                }
            }
            return true;
        }
        i += 1;
    }
    false
}

/// The level of detail of the global patch `(x, z)`.
fn lod_of(x: i32, z: i32, camera_patch: [i32; 2]) -> (r: u32)
    ensures
        r == patch_lod(x as int, z as int, camera_patch),
        r <= 2,
{
    select_lod(x, z, camera_patch)
}

/// The surface that the renderer draws at `q8` of region `region_id`, and
/// the level of detail of the owning patch, as `selected_surface_spec`
/// says; `camera_patch` is the patch that holds the camera.
pub fn selected_surface_q18(
    tile: &TileHeights,
    region_id: u32,
    q8: [u32; 2],
    active_regions: &Vec<u32>,
    camera_patch: [i32; 2],
) -> (r: (i32, u32))
    requires
        tile.wf(),
        q8[0] <= CELL_SIDE * 256,
        q8[1] <= CELL_SIDE * 256,
    ensures
        r.0 == selected_surface_spec(*tile, region_id, q8[0] as int, q8[1] as int, active_regions@, camera_patch).0,
        r.1 == selected_surface_spec(*tile, region_id, q8[0] as int, q8[1] as int, active_regions@, camera_patch).1,
        r.1 <= 2,
        -0x200_0000 <= r.0 <= 0x200_0000,
{
    let patch_x = if q8[0] / PATCH_Q8_SIDE < PATCHES_PER_REGION_SIDE { q8[0] / PATCH_Q8_SIDE } else { PATCHES_PER_REGION_SIDE - 1 };
    let patch_z = if q8[1] / PATCH_Q8_SIDE < PATCHES_PER_REGION_SIDE { q8[1] / PATCH_Q8_SIDE } else { PATCHES_PER_REGION_SIDE - 1 };
    let region_x = (region_id % WORLD_REGION_SIDE) as i32;
    let region_z = (region_id / WORLD_REGION_SIDE) as i32;
    let global_x = region_x * 4 + patch_x as i32;
    let global_z = region_z * 4 + patch_z as i32;
    let owner_lod = lod_of(global_x, global_z, camera_patch);
    let x_edge = q8[0] % PATCH_Q8_SIDE == 0;
    let z_edge = q8[1] % PATCH_Q8_SIDE == 0;
    if x_edge && z_edge {
        let h = height(tile, q8[0] / 256, q8[1] / 256);
        return (h * 1024, owner_lod);
    }
    if x_edge {
        let neighbor_x = if q8[0] == CELL_SIDE * 256 { global_x + 1 } else { global_x - 1 };
        let edge_lod = if patch_active(active_regions, neighbor_x, global_z) {
            lod_of(neighbor_x, global_z, camera_patch)
        } else {
            owner_lod
        };
        let lod = if owner_lod >= edge_lod { owner_lod } else { edge_lod };
        return (edge_q18(tile, q8, patch_z, true, lod), owner_lod);
    }
    if z_edge {
        let neighbor_z = if q8[1] == CELL_SIDE * 256 { global_z + 1 } else { global_z - 1 };
        let edge_lod = if patch_active(active_regions, global_x, neighbor_z) {
            lod_of(global_x, neighbor_z, camera_patch)
        } else {
            owner_lod
        };
        let lod = if owner_lod >= edge_lod { owner_lod } else { edge_lod };
        return (edge_q18(tile, q8, patch_x, false, lod), owner_lod);
    }
    (triangle_q18(tile, q8, patch_x, patch_z, owner_lod), owner_lod)
}

} // verus!
