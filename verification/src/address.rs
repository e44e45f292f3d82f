use vstd::prelude::*;
use crate::load::{valid_load, ConfigError, LoadConfig, MAX_REGION_SIDE};
use crate::resident::{lemma_window_position, ACTIVE_REGION_CAPACITY};
use crate::world::RegionCoord;

verus! {

/// Local grid coordinate at which a global center lands when the local grid
/// is anchored at `origin`: the origin maps to the middle of the local grid.
pub open spec fn local_coordinate(origin: i64, center: i64) -> int {
    center - origin + MAX_REGION_SIDE / 2
}

/// The five values form an accepted global configuration: the local center
/// is a valid load center and the global window stays inside `i64`.
pub open spec fn valid_global(
    origin_x: i64,
    origin_z: i64,
    center_x: i64,
    center_z: i64,
    active_radius: u32,
) -> bool {
    let lx = local_coordinate(origin_x, center_x);
    let lz = local_coordinate(origin_z, center_z);
    &&& 0 <= lx <= u32::MAX
    &&& 0 <= lz <= u32::MAX
    &&& valid_load(MAX_REGION_SIDE, lx as u32, lz as u32, active_radius)
    &&& i64::MIN <= center_x - active_radius
    &&& center_x + active_radius <= i64::MAX
    &&& i64::MIN <= center_z - active_radius
    &&& center_z + active_radius <= i64::MAX
}

/// An active window placed in the unbounded global grid, together with the
/// global region that the local grid is anchored at.
#[derive(Clone, Copy, Debug, PartialEq, Eq, Structural)]
pub struct GlobalRegionConfig {
    pub global_origin: RegionCoord,
    pub global_center: RegionCoord,
    pub active_radius: u32,
}

/// The terrain side names the same configuration.
pub type GlobalTerrainConfig = GlobalRegionConfig;

/// One region of a global window: where it is globally and which local grid
/// id it occupies.
#[derive(Clone, Copy, Debug, PartialEq, Eq, Structural)]
pub struct AddressedRegion {
    pub global_region: RegionCoord,
    pub local_region_id: u32,
}

/// The local configuration that a global configuration denotes.
pub open spec fn local_of(config: GlobalRegionConfig) -> LoadConfig {
    LoadConfig {
        world_region_side: MAX_REGION_SIDE,
        active_center_x: local_coordinate(config.global_origin.x, config.global_center.x) as u32,
        active_center_z: local_coordinate(config.global_origin.z, config.global_center.z) as u32,
        active_radius: config.active_radius,
    }
}

/// The `k`-th region of the global window, walked row by row.
pub open spec fn addressed_at(config: GlobalRegionConfig, k: int) -> AddressedRegion {
    let local = local_of(config);
    let side = local.side() as int;
    AddressedRegion {
        global_region: RegionCoord {
            x: (config.global_center.x + k % side - config.active_radius) as i64,
            z: (config.global_center.z + k / side - config.active_radius) as i64,
        },
        local_region_id: crate::resident::window_region_id(local, k) as u32,
    }
}

impl GlobalRegionConfig {
    pub open spec fn wf(self) -> bool {
        valid_global(
            self.global_origin.x,
            self.global_origin.z,
            self.global_center.x,
            self.global_center.z,
            self.active_radius,
        )
    }

    /// Accepted exactly when `valid_global` holds; the local center is
    /// `center - origin + MAX_REGION_SIDE / 2` on each axis.
    pub fn new(
        origin_x: i64,
        origin_z: i64,
        center_x: i64,
        center_z: i64,
        active_radius: u32,
    ) -> (r: Result<GlobalRegionConfig, ConfigError>)
        ensures
            r is Ok <==> valid_global(origin_x, origin_z, center_x, center_z, active_radius),
            r matches Ok(c) ==> {
                &&& c.global_origin == RegionCoord { x: origin_x, z: origin_z }
                &&& c.global_center == RegionCoord { x: center_x, z: center_z }
                &&& c.active_radius == active_radius
            },
            r matches Err(e) ==> e == (if !(i64::MIN <= center_x - active_radius && center_x
                + active_radius <= i64::MAX && i64::MIN <= center_z - active_radius && center_z
                + active_radius <= i64::MAX) {
                ConfigError::CoordinateOverflow
            } else {
                ConfigError::CenterOutOfWindow
            }),
    {
        let radius = active_radius as i64;
        let x_ok = center_x.checked_sub(radius).is_some() && center_x.checked_add(radius).is_some();
        let z_ok = center_z.checked_sub(radius).is_some() && center_z.checked_add(radius).is_some();
        if !(x_ok && z_ok) {
            return Err(ConfigError::CoordinateOverflow);
        }
        let lx = match local_axis(origin_x, center_x) {
            Some(value) => value,
            None => return Err(ConfigError::CenterOutOfWindow),
        };
        let lz = match local_axis(origin_z, center_z) {
            Some(value) => value,
            None => return Err(ConfigError::CenterOutOfWindow),
        };
        match LoadConfig::new(MAX_REGION_SIDE, lx, lz, active_radius) {
            Ok(_) => Ok(GlobalRegionConfig {
                global_origin: RegionCoord { x: origin_x, z: origin_z },
                global_center: RegionCoord { x: center_x, z: center_z },
                active_radius,
            }),
            Err(e) => Err(e),
        }
    }

    /// The local configuration of this window.
    pub fn local_config(&self) -> (r: Result<LoadConfig, ConfigError>)
        requires
            self.wf(),
        ensures
            r == Ok::<LoadConfig, ConfigError>(local_of(*self)),
    {
        let lx = (self.global_center.x - self.global_origin.x + 64) as u32;
        let lz = (self.global_center.z - self.global_origin.z + 64) as u32;
        Ok(LoadConfig {
            world_region_side: MAX_REGION_SIDE,
            active_center_x: lx,
            active_center_z: lz,
            active_radius: self.active_radius,
        })
    }

    /// The regions of the window in row-major order with their global
    /// coordinates and local ids; refused when the window holds more than
    /// `ACTIVE_REGION_CAPACITY` regions.
    pub fn addressed_regions(&self) -> (r: Result<Vec<AddressedRegion>, ConfigError>)
        requires
            self.wf(),
        ensures
            r is Ok <==> local_of(*self).side() * local_of(*self).side() <= ACTIVE_REGION_CAPACITY,
            r matches Err(e) ==> e == ConfigError::ActiveCapacityExceeded,
            r matches Ok(v) ==> {
                &&& v@.len() == local_of(*self).side() * local_of(*self).side()
                &&& forall|k: int| 0 <= k < v@.len() ==> v@[k] == addressed_at(*self, k)
            },
    {
        let local = match self.local_config() {
            Ok(value) => value,
            Err(e) => return Err(e),
        };
        let diameter = self.active_radius * 2 + 1;
        if diameter > 5 {
            assert(local.side() * local.side() > 25) by (nonlinear_arith)
                requires
                    local.side() > 5,
            ;
            return Err(ConfigError::ActiveCapacityExceeded);
        }
        let radius = self.active_radius as i64;
        let mut regions: Vec<AddressedRegion> = Vec::new();
        let mut offset_z: u32 = 0;
        while offset_z < diameter
            invariant
                self.wf(),
                local == local_of(*self),
                radius == self.active_radius,
                diameter == local.side(),
                diameter <= 5,
                offset_z <= diameter,
                regions@.len() == offset_z * diameter,
                forall|k: int| 0 <= k < regions@.len() ==> regions@[k] == addressed_at(*self, k),
            decreases diameter - offset_z,
        {
            let mut offset_x: u32 = 0;
            while offset_x < diameter
                invariant
                    self.wf(),
                    local == local_of(*self),
                    radius == self.active_radius,
                    diameter == local.side(),
                    diameter <= 5,
                    offset_z < diameter,
                    offset_x <= diameter,
                    regions@.len() == offset_z * diameter + offset_x,
                    forall|k: int| 0 <= k < regions@.len() ==> regions@[k] == addressed_at(*self, k),
                decreases diameter - offset_x,
            {
                let ghost k = regions@.len() as int;
                proof {
                    lemma_window_position(k, diameter as int, offset_x as int, offset_z as int);
                }
                let global_region = RegionCoord {
                    x: self.global_center.x - radius + offset_x as i64,
                    z: self.global_center.z - radius + offset_z as i64,
                };
                let x = local.active_center_x + offset_x - local.active_radius;
                let z = local.active_center_z + offset_z - local.active_radius;
                regions.push(AddressedRegion { global_region, local_region_id: z * MAX_REGION_SIDE + x });
                offset_x += 1;
            }
            proof {
                assert((offset_z + 1) * diameter == offset_z * diameter + diameter) by (nonlinear_arith);
            }
            offset_z += 1;
        }
        assert(local.side() * local.side() <= 25) by (nonlinear_arith)
            requires
                local.side() <= 5,
        ;
        Ok(regions)
    }
}

/// `center - origin + MAX_REGION_SIDE / 2` when it lies in `0..MAX_REGION_SIDE`.
fn local_axis(origin: i64, center: i64) -> (r: Option<u32>)
    ensures
        r matches Some(v) ==> v == local_coordinate(origin, center) && v < MAX_REGION_SIDE,
        r is None ==> !(0 <= local_coordinate(origin, center) < MAX_REGION_SIDE),
{
    let delta = match center.checked_sub(origin) {
        Some(value) => value,
        None => return None,
    };
    if delta < -64 || delta > 63 {
        return None;
    }
    Some((delta + 64) as u32)
}

} // verus!
