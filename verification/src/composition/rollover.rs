use vstd::prelude::*;

use crate::address::{valid_global, GlobalRegionConfig};
use crate::load::{valid_load, ConfigError, LoadConfig, MAX_REGION_SIDE};
use crate::world::RegionCoord;

verus! {

/// Lowest local center that a canonical traversal keeps before recentering.
pub const MINIMUM_LOCAL_CENTER: u32 = 32;

/// Highest local center that a canonical traversal keeps before recentering.
pub const MAXIMUM_LOCAL_CENTER: u32 = 96;

/// The local center that a recentered axis moves to.
pub const RECENTER_LOCAL_CENTER: u32 = 64;

/// Side, in meters, of one region.
pub const REGION_SIDE_METERS: i32 = 16;

/// Why a rollover step was refused.
#[derive(Clone, Copy, Debug, PartialEq, Eq)]
pub enum RolloverError {
    /// A signed global coordinate left the `i64` range.
    Overflow,
    /// A camera shift does not fit the bounded local extent.
    ExceedsLocalExtent,
    /// A camera shift in meters does not fit an `i32`.
    MetersOverflow,
    /// A local or global window was refused.
    Config(ConfigError),
    /// The target's local and global windows disagree.
    Diverged,
}

/// The world side, radius and global anchor of a canonical traversal.
#[derive(Clone, Copy, Debug, PartialEq, Eq, Structural)]
pub struct RolloverBasis {
    pub world_region_side: u32,
    pub active_radius: u32,
    pub global_origin: RegionCoord,
}

/// A window to schedule, locally and globally.
#[derive(Clone, Copy, Debug, PartialEq, Eq, Structural)]
pub struct TraversalTarget {
    pub config: LoadConfig,
    pub global_config: GlobalRegionConfig,
}

/// The band of local centers kept without recentering, and where a
/// recentered axis goes.
#[derive(Clone, Copy, Debug, PartialEq, Eq, Structural)]
pub struct RolloverPolicy {
    pub minimum_local_center: u32,
    pub maximum_local_center: u32,
    pub recenter_local_center: u32,
}

/// The global coordinate of a local coordinate, the local grid's middle
/// being the anchor.
pub open spec fn global_of(origin: i64, local: u32) -> int {
    origin + local - MAX_REGION_SIDE / 2
}

impl RolloverBasis {
    /// The global region at local center `(x, z)`; refused outside `i64`.
    pub fn global_center(&self, local_x: u32, local_z: u32) -> (r: Result<RegionCoord, RolloverError>)
        ensures
            r is Ok <==> (i64::MIN <= global_of(self.global_origin.x, local_x) <= i64::MAX
                && i64::MIN <= global_of(self.global_origin.z, local_z) <= i64::MAX),
            r matches Ok(c) ==> c.x == global_of(self.global_origin.x, local_x) && c.z == global_of(
                self.global_origin.z,
                local_z,
            ),
            r matches Err(e) ==> e == RolloverError::Overflow,
    {
        let x = match self.global_origin.x.checked_add(local_x as i64 - 64) {
            Some(value) => value,
            None => return Err(RolloverError::Overflow),
        };
        let z = match self.global_origin.z.checked_add(local_z as i64 - 64) {
            Some(value) => value,
            None => return Err(RolloverError::Overflow),
        };
        Ok(RegionCoord { x, z })
    }
}

/// The axis is recentered when its local center leaves the kept band.
pub open spec fn recenters(policy: RolloverPolicy, local: u32) -> bool {
    !(policy.minimum_local_center <= local <= policy.maximum_local_center)
}

/// The local center of an axis after the rollover decision.
pub open spec fn next_local(policy: RolloverPolicy, local: u32) -> u32 {
    if recenters(policy, local) {
        policy.recenter_local_center
    } else {
        local
    }
}

/// The global anchor of an axis after the rollover decision: the global
/// center when recentered, the old anchor otherwise.
pub open spec fn next_origin(policy: RolloverPolicy, origin: i64, local: u32) -> int {
    if recenters(policy, local) {
        global_of(origin, local)
    } else {
        origin as int
    }
}

/// The target's local and global windows exist and agree.
pub open spec fn target_accepted(policy: RolloverPolicy, basis: RolloverBasis, config: LoadConfig) -> bool {
    let gx = global_of(basis.global_origin.x, config.active_center_x);
    let gz = global_of(basis.global_origin.z, config.active_center_z);
    let ox = next_origin(policy, basis.global_origin.x, config.active_center_x);
    let oz = next_origin(policy, basis.global_origin.z, config.active_center_z);
    &&& i64::MIN <= gx <= i64::MAX
    &&& i64::MIN <= gz <= i64::MAX
    &&& valid_load(
        basis.world_region_side,
        next_local(policy, config.active_center_x),
        next_local(policy, config.active_center_z),
        basis.active_radius,
    )
    &&& valid_global(ox as i64, oz as i64, gx as i64, gz as i64, basis.active_radius)
    &&& basis.world_region_side == MAX_REGION_SIDE
    &&& crate::address::local_coordinate(ox as i64, gx as i64) == next_local(policy, config.active_center_x)
    &&& crate::address::local_coordinate(oz as i64, gz as i64) == next_local(policy, config.active_center_z)
}

/// Why `target` refuses a window: the global center leaves `i64`; else the
/// recentered local window does not fit the world; else the global window
/// is refused; else the two disagree.
pub open spec fn target_error(policy: RolloverPolicy, basis: RolloverBasis, config: LoadConfig) -> RolloverError {
    let gx = global_of(basis.global_origin.x, config.active_center_x);
    let gz = global_of(basis.global_origin.z, config.active_center_z);
    let ox = next_origin(policy, basis.global_origin.x, config.active_center_x);
    let oz = next_origin(policy, basis.global_origin.z, config.active_center_z);
    let r = basis.active_radius;
    if !(i64::MIN <= gx <= i64::MAX && i64::MIN <= gz <= i64::MAX) {
        RolloverError::Overflow
    } else if !valid_load(
        basis.world_region_side,
        next_local(policy, config.active_center_x),
        next_local(policy, config.active_center_z),
        r,
    ) {
        RolloverError::Config(
            if !(0 < basis.world_region_side <= MAX_REGION_SIDE) {
                ConfigError::WorldSideOutOfRange
            } else {
                ConfigError::CenterOutOfWindow
            },
        )
    } else if !valid_global(ox as i64, oz as i64, gx as i64, gz as i64, r) {
        RolloverError::Config(
            if !(i64::MIN <= gx - r && gx + r <= i64::MAX && i64::MIN <= gz - r && gz + r <= i64::MAX) {
                ConfigError::CoordinateOverflow
            } else {
                ConfigError::CenterOutOfWindow
            },
        )
    } else {
        RolloverError::Diverged
    }
}

/// Why `commit` refuses a target: its windows disagree; else a camera shift
/// leaves `i64` or the local extent, x first; else a shift in meters
/// overflows.
pub open spec fn commit_error(old_origin: RegionCoord, target: TraversalTarget) -> RolloverError {
    let new_origin = target.global_config.global_origin;
    let dx = old_origin.x - new_origin.x;
    let dz = old_origin.z - new_origin.z;
    if crate::address::local_of(target.global_config) != target.config {
        RolloverError::Diverged
    } else if !(i64::MIN <= dx <= i64::MAX) {
        RolloverError::Overflow
    } else if !delta_fits(old_origin.x, new_origin.x) {
        RolloverError::ExceedsLocalExtent
    } else if !(i64::MIN <= dz <= i64::MAX) {
        RolloverError::Overflow
    } else if !delta_fits(old_origin.z, new_origin.z) {
        RolloverError::ExceedsLocalExtent
    } else {
        RolloverError::MetersOverflow
    }
}

impl RolloverPolicy {
    /// The canonical band `[32, 96]`, recentering to 64.
    pub fn canonical() -> (r: RolloverPolicy)
        ensures
            r == (RolloverPolicy {
                minimum_local_center: MINIMUM_LOCAL_CENTER,
                maximum_local_center: MAXIMUM_LOCAL_CENTER,
                recenter_local_center: RECENTER_LOCAL_CENTER,
            }),
    {
        RolloverPolicy {
            minimum_local_center: MINIMUM_LOCAL_CENTER,
            maximum_local_center: MAXIMUM_LOCAL_CENTER,
            recenter_local_center: RECENTER_LOCAL_CENTER,
        }
    }

    /// The window to schedule for a local window of the traversal: each
    /// axis whose center leaves the band is recentered, moving the anchor to
    /// the global center; the global center itself never moves.
    pub fn target(self, basis: RolloverBasis, config: LoadConfig) -> (r: Result<TraversalTarget, RolloverError>)
        ensures
            r is Ok <==> target_accepted(self, basis, config),
            r matches Ok(t) ==> {
                &&& t.config == (LoadConfig {
                    world_region_side: basis.world_region_side,
                    active_center_x: next_local(self, config.active_center_x),
                    active_center_z: next_local(self, config.active_center_z),
                    active_radius: basis.active_radius,
                })
                &&& t.global_config.global_origin.x == next_origin(self, basis.global_origin.x, config.active_center_x)
                &&& t.global_config.global_origin.z == next_origin(self, basis.global_origin.z, config.active_center_z)
                &&& t.global_config.global_center.x == global_of(basis.global_origin.x, config.active_center_x)
                &&& t.global_config.global_center.z == global_of(basis.global_origin.z, config.active_center_z)
                &&& t.global_config.active_radius == basis.active_radius
                &&& t.global_config.wf()
                &&& crate::address::local_of(t.global_config) == t.config
            },
            r matches Err(e) ==> e == target_error(self, basis, config),
    {
        let origin = basis.global_origin;
        let center = match basis.global_center(config.active_center_x, config.active_center_z) {
            Ok(value) => value,
            Err(e) => return Err(e),
        };
        let recenter_x = !(self.minimum_local_center <= config.active_center_x
            && config.active_center_x <= self.maximum_local_center);
        let recenter_z = !(self.minimum_local_center <= config.active_center_z
            && config.active_center_z <= self.maximum_local_center);
        let next_origin = RegionCoord {
            x: if recenter_x {
                center.x
            } else {
                origin.x
            },
            z: if recenter_z {
                center.z
            } else {
                origin.z
            },
        };
        let next_local = match LoadConfig::new(
            basis.world_region_side,
            if recenter_x {
                self.recenter_local_center
            } else {
                config.active_center_x
            },
            if recenter_z {
                self.recenter_local_center
            } else {
                config.active_center_z
            },
            basis.active_radius,
        ) {
            Ok(value) => value,
            Err(e) => return Err(RolloverError::Config(e)),
        };
        let global_config = match GlobalRegionConfig::new(
            next_origin.x,
            next_origin.z,
            center.x,
            center.z,
            basis.active_radius,
        ) {
            Ok(value) => value,
            Err(e) => return Err(RolloverError::Config(e)),
        };
        let local = match global_config.local_config() {
            Ok(value) => value,
            Err(e) => return Err(RolloverError::Config(e)),
        };
        if local != next_local {
            return Err(RolloverError::Diverged);
        }
        Ok(TraversalTarget { config: next_local, global_config })
    }
}

/// Law: with the canonical band, an accepted target keeps its local center
/// inside the band, so the local grid never runs out under the camera.
pub proof fn law_target_center_in_band(basis: RolloverBasis, config: LoadConfig)
    ensures
        ({
            let policy = RolloverPolicy {
                minimum_local_center: MINIMUM_LOCAL_CENTER,
                maximum_local_center: MAXIMUM_LOCAL_CENTER,
                recenter_local_center: RECENTER_LOCAL_CENTER,
            };
            &&& MINIMUM_LOCAL_CENTER <= next_local(policy, config.active_center_x) <= MAXIMUM_LOCAL_CENTER
            &&& MINIMUM_LOCAL_CENTER <= next_local(policy, config.active_center_z) <= MAXIMUM_LOCAL_CENTER
        }),
{
}

/// A committed rollover: the anchor move and the camera shift it implies.
#[derive(Clone, Copy, Debug, PartialEq, Eq)]
pub struct RolloverEvent {
    pub token: u64,
    pub old_origin: RegionCoord,
    pub new_origin: RegionCoord,
    pub global_center: RegionCoord,
    pub local_center: [u32; 2],
    pub camera_delta_regions: [i32; 2],
    pub camera_delta_meters: [i32; 2],
}

/// Rollovers of one traversal session and the camera shift that the next
/// frame still has to apply.
pub struct RolloverState {
    pub active: bool,
    pub count: u64,
    pub cumulative_camera_delta_regions: [i64; 2],
    pub camera_delta: Option<[i32; 2]>,
    pub last: Option<RolloverEvent>,
}

/// `old - new` when it fits an `i32`.
pub open spec fn delta_fits(old: i64, new: i64) -> bool {
    i32::MIN <= old - new <= i32::MAX
}

/// How far the camera must shift, in regions, when the anchor moves from
/// `old` to `new`; refused outside the `i32` range.
pub fn checked_camera_delta(old: i64, new: i64) -> (r: Result<i32, RolloverError>)
    ensures
        r is Ok <==> delta_fits(old, new),
        r matches Ok(d) ==> d == old - new,
        r matches Err(e) ==> e == if i64::MIN <= old - new <= i64::MAX {
            RolloverError::ExceedsLocalExtent
        } else {
            RolloverError::Overflow
        },
{
    let delta = match old.checked_sub(new) {
        Some(value) => value,
        None => return Err(RolloverError::Overflow),
    };
    if delta < i32::MIN as i64 || delta > i32::MAX as i64 {
        return Err(RolloverError::ExceedsLocalExtent);
    }
    Ok(delta as i32)
}

impl RolloverState {
    pub fn new() -> (r: RolloverState)
        ensures
            !r.active,
            r.count == 0,
            r.cumulative_camera_delta_regions[0] == 0 && r.cumulative_camera_delta_regions[1] == 0,
            r.camera_delta is None,
            r.last is None,
    {
        RolloverState {
            active: false,
            count: 0,
            cumulative_camera_delta_regions: [0, 0],
            camera_delta: None,
            last: None,
        }
    }

    /// Starts rolling over; no camera shift is pending.
    pub fn activate(&mut self)
        ensures
            *final(self) == (RolloverState { active: true, camera_delta: None, ..*old(self) }),
    {
        self.active = true;
        self.camera_delta = None;
    }

    /// Stops rolling over; no camera shift is pending.
    pub fn deactivate(&mut self)
        ensures
            *final(self) == (RolloverState { active: false, camera_delta: None, ..*old(self) }),
    {
        self.active = false;
        self.camera_delta = None;
    }

    /// Hands out the pending camera shift once.
    pub fn take_camera_delta(&mut self) -> (r: Option<[i32; 2]>)
        ensures
            r == old(self).camera_delta,
            *final(self) == (RolloverState { camera_delta: None, ..*old(self) }),
    {
        let r = self.camera_delta;
        self.camera_delta = None;
        r
    }

    /// Commits a published target: when its anchor differs from the basis
    /// anchor, the basis moves to it and the camera must shift by the old
    /// anchor minus the new one; refused when the target's windows disagree
    /// or the shift does not fit.
    pub fn commit(&mut self, token: u64, basis: &mut RolloverBasis, target: TraversalTarget) -> (r: Result<
        (),
        RolloverError,
    >)
        requires
            target.global_config.wf(),
            old(self).count < u64::MAX,
            i64::MIN + i32::MAX < old(self).cumulative_camera_delta_regions[0] < i64::MAX - i32::MAX,
            i64::MIN + i32::MAX < old(self).cumulative_camera_delta_regions[1] < i64::MAX - i32::MAX,
        ensures
            ({
                let old_origin = old(basis).global_origin;
                let new_origin = target.global_config.global_origin;
                let dx = old_origin.x - new_origin.x;
                let dz = old_origin.z - new_origin.z;
                if crate::address::local_of(target.global_config) != target.config {
                    r == Err::<(), RolloverError>(RolloverError::Diverged) && *final(self) == *old(self)
                        && *final(basis) == *old(basis)
                } else if old_origin == new_origin {
                    r == Ok::<(), RolloverError>(()) && *final(self) == *old(self) && *final(basis)
                        == *old(basis)
                } else if !(delta_fits(old_origin.x, new_origin.x) && delta_fits(old_origin.z, new_origin.z)
                    && i32::MIN <= dx * REGION_SIDE_METERS <= i32::MAX && i32::MIN <= dz * REGION_SIDE_METERS
                    <= i32::MAX) {
                    r == Err::<(), RolloverError>(commit_error(old_origin, target)) && *final(self)
                        == *old(self) && *final(basis) == *old(basis)
                } else {
                    &&& r == Ok::<(), RolloverError>(())
                    &&& *final(basis) == (RolloverBasis { global_origin: new_origin, ..*old(basis) })
                    &&& final(self).active == old(self).active
                    &&& final(self).count == old(self).count + 1
                    &&& final(self).cumulative_camera_delta_regions[0]
                        == old(self).cumulative_camera_delta_regions[0] + dx
                    &&& final(self).cumulative_camera_delta_regions[1]
                        == old(self).cumulative_camera_delta_regions[1] + dz
                    &&& final(self).camera_delta == Some([dx as i32, dz as i32])
                    &&& final(self).last == Some(
                        RolloverEvent {
                            token,
                            old_origin,
                            new_origin,
                            global_center: target.global_config.global_center,
                            local_center: [target.config.active_center_x, target.config.active_center_z],
                            camera_delta_regions: [dx as i32, dz as i32],
                            camera_delta_meters: [
                                (dx * REGION_SIDE_METERS) as i32,
                                (dz * REGION_SIDE_METERS) as i32,
                            ],
                        },
                    )
                }
            }),
    {
        let global = target.global_config;
        let local = match global.local_config() {
            Ok(value) => value,
            Err(e) => return Err(RolloverError::Config(e)),
        };
        if local != target.config {
            return Err(RolloverError::Diverged);
        }
        let old_origin = basis.global_origin;
        let new_origin = global.global_origin;
        if old_origin == new_origin {
            return Ok(());
        }
        let delta_x = match checked_camera_delta(old_origin.x, new_origin.x) {
            Ok(value) => value,
            Err(e) => return Err(e),
        };
        let delta_z = match checked_camera_delta(old_origin.z, new_origin.z) {
            Ok(value) => value,
            Err(e) => return Err(e),
        };
        let meters_x = match delta_x.checked_mul(REGION_SIDE_METERS) {
            Some(value) => value,
            None => return Err(RolloverError::MetersOverflow),
        };
        let meters_z = match delta_z.checked_mul(REGION_SIDE_METERS) {
            Some(value) => value,
            None => return Err(RolloverError::MetersOverflow),
        };
        basis.global_origin = new_origin;
        self.count = self.count + 1;
        let cx = self.cumulative_camera_delta_regions[0] + delta_x as i64;
        let cz = self.cumulative_camera_delta_regions[1] + delta_z as i64;
        self.cumulative_camera_delta_regions = [cx, cz];
        self.camera_delta = Some([delta_x, delta_z]);
        self.last = Some(
            RolloverEvent {
                token,
                old_origin,
                new_origin,
                global_center: global.global_center,
                local_center: [target.config.active_center_x, target.config.active_center_z],
                camera_delta_regions: [delta_x, delta_z],
                camera_delta_meters: [meters_x, meters_z],
            },
        );
        Ok(())
    }
}

} // verus!
