use vstd::prelude::*;

verus! {

/// Side, in regions, of the bounded local region grid.
pub const MAX_REGION_SIDE: u32 = 128;

/// Instance records authored per region.
pub const INSTANCES_PER_REGION: u32 = 1024;

/// Why a load or address configuration was refused.
#[derive(Clone, Copy, Debug, PartialEq, Eq, Structural)]
pub enum ConfigError {
    /// The world window is empty or wider than the local grid.
    WorldSideOutOfRange,
    /// The active window does not fit inside the world window.
    CenterOutOfWindow,
    /// A signed coordinate computation left the `i64` range.
    CoordinateOverflow,
    /// The active window holds more regions than the resident mapping supports.
    ActiveCapacityExceeded,
}

/// First local region of the world window of the given side.
pub open spec fn world_start(world_region_side: u32) -> int {
    (MAX_REGION_SIDE - world_region_side) / 2
}

/// The active window `[center - radius, center + radius]` lies in the world
/// window of the given side, on one axis.
pub open spec fn axis_fits(world_region_side: u32, center: u32, radius: u32) -> bool {
    &&& world_start(world_region_side) + radius <= center
    &&& center + radius < world_start(world_region_side) + world_region_side
}

/// The four values form an accepted load configuration.
pub open spec fn valid_load(
    world_region_side: u32,
    active_center_x: u32,
    active_center_z: u32,
    active_radius: u32,
) -> bool {
    &&& 0 < world_region_side <= MAX_REGION_SIDE
    &&& axis_fits(world_region_side, active_center_x, active_radius)
    &&& axis_fits(world_region_side, active_center_z, active_radius)
}

/// A square window of active regions inside a centred world window of the
/// local grid.
#[derive(Clone, Copy, Debug, PartialEq, Eq, Structural)]
pub struct LoadConfig {
    pub world_region_side: u32,
    pub active_center_x: u32,
    pub active_center_z: u32,
    pub active_radius: u32,
}

impl LoadConfig {
    /// The configuration is accepted exactly when the world side lies in
    /// `1..=MAX_REGION_SIDE` and the active window fits the world window.
    pub fn new(
        world_region_side: u32,
        active_center_x: u32,
        active_center_z: u32,
        active_radius: u32,
    ) -> (r: Result<LoadConfig, ConfigError>)
        ensures
            r is Ok <==> valid_load(world_region_side, active_center_x, active_center_z, active_radius),
            r matches Ok(c) ==> {
                &&& c.world_region_side == world_region_side
                &&& c.active_center_x == active_center_x
                &&& c.active_center_z == active_center_z
                &&& c.active_radius == active_radius
            },
            r matches Err(e) ==> e == (if !(0 < world_region_side <= MAX_REGION_SIDE) {
                ConfigError::WorldSideOutOfRange
            } else {
                ConfigError::CenterOutOfWindow
            }),
    {
        if world_region_side == 0 || world_region_side > MAX_REGION_SIDE {
            return Err(ConfigError::WorldSideOutOfRange);
        }
        let start = (MAX_REGION_SIDE - world_region_side) / 2;
        let end = start + world_region_side;
        let fits_x = active_radius <= active_center_x && active_center_x - active_radius >= start
            && active_center_x < end && end - active_center_x > active_radius;
        let fits_z = active_radius <= active_center_z && active_center_z - active_radius >= start
            && active_center_z < end && end - active_center_z > active_radius;
        if !(fits_x && fits_z) {
            return Err(ConfigError::CenterOutOfWindow);
        }
        Ok(LoadConfig { world_region_side, active_center_x, active_center_z, active_radius })
    }

    /// The well-formedness that every value of this type has.
    pub open spec fn wf(self) -> bool {
        valid_load(
            self.world_region_side,
            self.active_center_x,
            self.active_center_z,
            self.active_radius,
        )
    }

    /// Whether the fields form an accepted configuration.
    pub fn is_valid(&self) -> (r: bool)
        ensures
            r == self.wf(),
    {
        LoadConfig::new(
            self.world_region_side,
            self.active_center_x,
            self.active_center_z,
            self.active_radius,
        ).is_ok()
    }

    /// Side of the active window, `2 * radius + 1`.
    pub open spec fn side(self) -> nat {
        (2 * self.active_radius + 1) as nat
    }

    /// Number of regions in the active window.
    pub fn active_region_count(&self) -> (r: u32)
        requires
            self.wf(),
        ensures
            r == self.side() * self.side(),
    {
        let side = self.active_radius * 2 + 1;
        assert(side <= 128);
        assert(side * side <= 128 * 128) by (nonlinear_arith)
            requires
                side <= 128,
        ;
        side * side
    }
}

} // verus!
