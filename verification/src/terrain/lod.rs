use vstd::prelude::*;

verus! {

/// Patches along one side of a region.
pub const PATCHES_PER_REGION_SIDE: u32 = 4;

/// Height cells along one side of a patch.
pub const PATCH_CELL_SIDE: u32 = 8;

/// Patches within this Chebyshev distance of the camera patch draw at full
/// detail.
pub const NEAR_PATCH_RADIUS: u32 = 2;

/// Patches within this distance, and beyond the near radius, draw at half
/// detail; farther ones at quarter detail.
pub const MIDDLE_PATCH_RADIUS: u32 = 6;

/// Chebyshev distance between a patch and the camera patch.
pub open spec fn patch_distance(patch_x: i32, patch_z: i32, camera: [i32; 2]) -> int {
    let dx = if patch_x >= camera[0] { patch_x - camera[0] } else { camera[0] - patch_x };
    let dz = if patch_z >= camera[1] { patch_z - camera[1] } else { camera[1] - patch_z };
    if dx >= dz { dx } else { dz }
}

/// The level of detail of a patch at the given distance from the camera.
pub open spec fn lod_for_distance(distance: int) -> u32 {
    if distance <= NEAR_PATCH_RADIUS {
        0
    } else if distance <= MIDDLE_PATCH_RADIUS {
        1
    } else {
        2
    }
}

/// `|a - b|` in the unsigned type, as `i32::abs_diff` gives it.
pub fn abs_diff_i32(a: i32, b: i32) -> (r: u32)
    ensures
        r == if a >= b { a - b } else { b - a },
{
    if a >= b {
        (a as i64 - b as i64) as u32
    } else {
        (b as i64 - a as i64) as u32
    }
}

/// The level of detail of a patch: 0 within `NEAR_PATCH_RADIUS` of the
/// camera patch, 1 within `MIDDLE_PATCH_RADIUS`, 2 beyond.
pub fn select_lod(patch_x: i32, patch_z: i32, camera: [i32; 2]) -> (r: u32)
    ensures
        r == lod_for_distance(patch_distance(patch_x, patch_z, camera)),
        r <= 2,
{
    let dx = abs_diff_i32(patch_x, camera[0]);
    let dz = abs_diff_i32(patch_z, camera[1]);
    let distance = if dx >= dz { dx } else { dz };
    if distance <= NEAR_PATCH_RADIUS {
        0
    } else if distance <= MIDDLE_PATCH_RADIUS {
        1
    } else {
        2
    }
}

/// Law: two patches that share an edge differ by at most one level of
/// detail, wherever the camera is; the seams between them only ever join
/// adjacent levels.
pub proof fn law_adjacent_lod_delta_at_most_one(
    patch_x: i32,
    patch_z: i32,
    neighbor_x: i32,
    neighbor_z: i32,
    camera: [i32; 2],
)
    requires
        (neighbor_x == patch_x && (neighbor_z == patch_z + 1 || neighbor_z == patch_z - 1)) || (
        neighbor_z == patch_z && (neighbor_x == patch_x + 1 || neighbor_x == patch_x - 1)),
    ensures
        ({
            let a = lod_for_distance(patch_distance(patch_x, patch_z, camera));
            let b = lod_for_distance(patch_distance(neighbor_x, neighbor_z, camera));
            a <= b + 1 && b <= a + 1
        }),
{
}

} // verus!
