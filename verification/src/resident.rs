use vstd::prelude::*;
use crate::load::{ConfigError, LoadConfig, MAX_REGION_SIDE};

verus! {

/// Most regions that the resident mapping holds active at once.
pub const ACTIVE_REGION_CAPACITY: usize = 25;

/// `k` is the `dz * side + dx` position of offset `(dx, dz)` in a row-major
/// window of the given side.
pub proof fn lemma_window_position(k: int, side: int, dx: int, dz: int)
    requires
        side > 0,
        0 <= dx < side,
        0 <= dz,
        k == dz * side + dx,
    ensures
        k % side == dx,
        k / side == dz,
{
    vstd::arithmetic::div_mod::lemma_fundamental_div_mod_converse(k, side, dz, dx);
}

/// Local grid id of the `k`-th region of the active window, the window being
/// walked row by row (z outer, x inner).
pub open spec fn window_region_id(config: LoadConfig, k: int) -> int {
    let side = config.side() as int;
    (config.active_center_z + k / side - config.active_radius) * MAX_REGION_SIDE
        + (config.active_center_x + k % side - config.active_radius)
}

/// Local ids of the active window in row-major order; refused when the
/// window holds more than `ACTIVE_REGION_CAPACITY` regions.
pub fn active_region_ids(config: LoadConfig) -> (r: Result<Vec<u32>, ConfigError>)
    requires
        config.wf(),
    ensures
        r is Ok <==> config.side() * config.side() <= ACTIVE_REGION_CAPACITY,
        r matches Err(e) ==> e == ConfigError::ActiveCapacityExceeded,
        r matches Ok(ids) ==> {
            &&& ids@.len() == config.side() * config.side()
            &&& forall|k: int| 0 <= k < ids@.len() ==> ids@[k] == window_region_id(config, k)
        },
{
    let diameter = config.active_radius * 2 + 1;
    if diameter > 5 {
        assert(config.side() * config.side() > 25) by (nonlinear_arith)
            requires
                config.side() > 5,
        ;
        return Err(ConfigError::ActiveCapacityExceeded);
    }
    let mut regions: Vec<u32> = Vec::new();
    let mut offset_z: u32 = 0;
    while offset_z < diameter
        invariant
            config.wf(),
            diameter == config.side(),
            diameter <= 5,
            offset_z <= diameter,
            regions@.len() == offset_z * diameter,
            forall|k: int| 0 <= k < regions@.len() ==> regions@[k] == window_region_id(config, k),
        decreases diameter - offset_z,
    {
        let mut offset_x: u32 = 0;
        while offset_x < diameter
            invariant
                config.wf(),
                diameter == config.side(),
                diameter <= 5,
                offset_z < diameter,
                offset_x <= diameter,
                regions@.len() == offset_z * diameter + offset_x,
                forall|k: int| 0 <= k < regions@.len() ==> regions@[k] == window_region_id(config, k),
            decreases diameter - offset_x,
        {
            let x = config.active_center_x + offset_x - config.active_radius;
            let z = config.active_center_z + offset_z - config.active_radius;
            let ghost k = regions@.len() as int;
            proof {
                lemma_window_position(k, diameter as int, offset_x as int, offset_z as int);
            }
            regions.push(z * MAX_REGION_SIDE + x);
            offset_x += 1;
        }
        proof {
            assert((offset_z + 1) * diameter == offset_z * diameter + diameter) by (nonlinear_arith);
        }
        offset_z += 1;
    }
    assert(config.side() * config.side() <= 25) by (nonlinear_arith)
        requires
            config.side() <= 5,
    ;
    Ok(regions)
}

/// Per-instance key that keeps an object's identity stable across slots:
/// the region seed xor the local index times a fixed odd multiplier, both
/// wrapping in 32 bits.
pub open spec fn stable_key(region_seed: u32, local_index: u32) -> u32 {
    region_seed ^ ((local_index * 747_796_405u32) % 0x1_0000_0000) as u32
}

pub fn canonical_stable_key(region_seed: u32, local_index: u32) -> (r: u32)
    ensures
        r == stable_key(region_seed, local_index),
{
    region_seed ^ local_index.wrapping_mul(747_796_405)
}

} // verus!
