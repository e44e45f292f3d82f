use vstd::prelude::*;

use crate::load::{LoadConfig, MAX_REGION_SIDE};
use super::cache::TerrainSourceNamespace;

verus! {

/// Local grid coordinate at the middle of the bounded grid; a canonical
/// projection draws its window around it.
pub const PROJECTION_CENTER: i32 = 64;

/// Identity of a canonical object source.
#[derive(Clone, Copy, Debug, PartialEq, Eq)]
pub struct ObjectSourceNamespace(pub [u8; 32]);

impl ObjectSourceNamespace {
    pub fn from_bytes(bytes: [u8; 32]) -> (r: ObjectSourceNamespace)
        ensures
            r.0 == bytes,
    {
        ObjectSourceNamespace(bytes)
    }
}

/// Why a projection request was refused.
#[derive(Clone, Copy, Debug, PartialEq, Eq)]
pub enum ProjectionError {
    /// The window's shape does not match its region count.
    InvalidShape,
    /// The radius leaves no room around the projection center.
    RadiusExceedsWindow,
    /// The active index lies outside the window.
    IndexOutsideWindow,
    /// The projected region falls off the bounded grid.
    OutsideGrid,
}

/// Offset, in regions, of the `k`-th active region from the window center,
/// the window being walked row by row.
pub open spec fn offset_of(config: LoadConfig, k: int) -> (int, int) {
    let side = config.side() as int;
    (k % side - config.active_radius, k / side - config.active_radius)
}

/// The local grid id that a canonical projection gives the `k`-th region:
/// its offset placed around `PROJECTION_CENTER`.
pub open spec fn canonical_region_id(config: LoadConfig, k: int) -> int {
    let (x, z) = offset_of(config, k);
    (PROJECTION_CENTER + z) * MAX_REGION_SIDE + (PROJECTION_CENTER + x)
}

/// Maps the active window of a load configuration to render space. A
/// canonical projection places every window around the grid's center, so
/// that windows at different alias centers render alike; a legacy one
/// passes local ids through.
#[derive(Clone, Copy)]
pub struct TerrainProjection {
    config: LoadConfig,
    canonical: bool,
}

impl TerrainProjection {
    #[verifier::type_invariant]
    spec fn inv(self) -> bool {
        self.config.wf()
    }

    /// The projected load configuration.
    pub closed spec fn load_config(self) -> LoadConfig {
        self.config
    }

    /// Whether the projection is canonical.
    pub closed spec fn canonical_spec(self) -> bool {
        self.canonical
    }

    /// The render-space region id of the `active_index`-th region, whose
    /// local id is `local_region_id`: passed through by a legacy projection;
    /// placed around the center by a canonical one, which refuses an index
    /// outside the window.
    pub open spec fn region_id_result(self, active_index: int, local_region_id: u32) -> Result<
        u32,
        ProjectionError,
    > {
        let config = self.load_config();
        if !self.canonical_spec() {
            Ok(local_region_id)
        } else if active_index >= config.side() * config.side() {
            Err(ProjectionError::IndexOutsideWindow)
        } else {
            Ok(canonical_region_id(config, active_index) as u32)
        }
    }

    /// A projection of terrain, canonical when a source is named.
    pub fn for_terrain(config: LoadConfig, source: Option<TerrainSourceNamespace>) -> (r: Result<
        TerrainProjection,
        ProjectionError,
    >)
        requires
            config.wf(),
        ensures
            r matches Ok(p) && p.load_config() == config && p.canonical_spec() == source is Some,
    {
        Self::new(config, source.is_some())
    }

    /// A projection of objects, canonical when a source is named.
    pub fn for_objects(config: LoadConfig, source: Option<ObjectSourceNamespace>) -> (r: Result<
        TerrainProjection,
        ProjectionError,
    >)
        requires
            config.wf(),
        ensures
            r matches Ok(p) && p.load_config() == config && p.canonical_spec() == source is Some,
    {
        Self::new(config, source.is_some())
    }

    /// Every accepted load configuration has a square window whose radius
    /// leaves room around the projection center, so this never refuses.
    pub fn new(config: LoadConfig, canonical: bool) -> (r: Result<TerrainProjection, ProjectionError>)
        requires
            config.wf(),
        ensures
            r matches Ok(p) && p.load_config() == config && p.canonical_spec() == canonical,
    {
        let side = config.active_radius * 2 + 1;
        assert(side * side <= 128 * 128) by (nonlinear_arith)
            requires
                side <= 128,
        ;
        if side * side != config.active_region_count() {
            return Err(ProjectionError::InvalidShape);
        }
        if config.active_radius >= MAX_REGION_SIDE / 2 {
            return Err(ProjectionError::RadiusExceedsWindow);
        }
        Ok(TerrainProjection { config, canonical })
    }

    pub fn is_canonical(self) -> (r: bool)
        ensures
            r == self.canonical_spec(),
    {
        self.canonical
    }

    /// Number of regions in the projected window.
    pub fn active_count(self) -> (r: usize)
        ensures
            r == self.load_config().side() * self.load_config().side(),
    {
        proof {
            use_type_invariant(&self);
        }
        self.config.active_region_count() as usize
    }

    /// The offset of the `active_index`-th region from the window center;
    /// refused outside the window.
    pub fn render_offset(self, active_index: usize) -> (r: Result<[i32; 2], ProjectionError>)
        ensures
            r is Err <==> active_index >= self.load_config().side() * self.load_config().side(),
            r matches Err(e) ==> e == ProjectionError::IndexOutsideWindow,
            r matches Ok(o) ==> o[0] == offset_of(self.load_config(), active_index as int).0 && o[1]
                == offset_of(self.load_config(), active_index as int).1,
            r matches Ok(o) ==> -self.load_config().active_radius <= o[0] <= self.load_config().active_radius
                && -self.load_config().active_radius <= o[1] <= self.load_config().active_radius,
            self.load_config().active_radius < PROJECTION_CENTER,
    {
        proof {
            use_type_invariant(&self);
        }
        let side = (self.config.active_radius * 2 + 1) as usize;
        if active_index >= self.config.active_region_count() as usize {
            return Err(ProjectionError::IndexOutsideWindow);
        }
        proof {
            assert(active_index / side < side) by (nonlinear_arith)
                requires
                    active_index < side * side,
                    side > 0,
            ;
        }
        let x = (active_index % side) as i32 - self.config.active_radius as i32;
        let z = (active_index / side) as i32 - self.config.active_radius as i32;
        Ok([x, z])
    }

    /// The grid id under which the `active_index`-th region renders: the
    /// local id itself for a legacy projection; for a canonical one the id
    /// of its offset around the projection center, refused outside the
    /// window.
    pub fn region_id(self, active_index: usize, local_region_id: u32) -> (r: Result<u32, ProjectionError>)
        ensures
            r == self.region_id_result(active_index as int, local_region_id),
            !self.canonical_spec() ==> r == Ok::<u32, ProjectionError>(local_region_id),
            self.canonical_spec() ==> {
                &&& r is Err <==> active_index >= self.load_config().side() * self.load_config().side()
                &&& r matches Err(e) ==> e == ProjectionError::IndexOutsideWindow
                &&& r matches Ok(id) ==> id == canonical_region_id(self.load_config(), active_index as int)
            },
    {
        proof {
            use_type_invariant(&self);
        }
        if !self.canonical {
            return Ok(local_region_id);
        }
        let offset = match self.render_offset(active_index) {
            Ok(value) => value,
            Err(e) => return Err(e),
        };
        let region_x = PROJECTION_CENTER + offset[0];
        let region_z = PROJECTION_CENTER + offset[1];
        if !(0 <= region_x && region_x < MAX_REGION_SIDE as i32 && 0 <= region_z && region_z
            < MAX_REGION_SIDE as i32) {
            return Err(ProjectionError::OutsideGrid);
        }
        Ok(region_z as u32 * MAX_REGION_SIDE + region_x as u32)
    }

    /// The local center that the window is an alias of.
    pub fn alias_center(self) -> (r: [u32; 2])
        ensures
            r[0] == self.load_config().active_center_x,
            r[1] == self.load_config().active_center_z,
    {
        [self.config.active_center_x, self.config.active_center_z]
    }

    /// How far, in regions, the alias center lies from the projection center.
    pub fn alias_offset_regions(self) -> (r: [i32; 2])
        ensures
            r[0] == self.load_config().active_center_x - PROJECTION_CENTER,
            r[1] == self.load_config().active_center_z - PROJECTION_CENTER,
    {
        proof {
            use_type_invariant(&self);
        }
        [
            self.config.active_center_x as i32 - PROJECTION_CENTER,
            self.config.active_center_z as i32 - PROJECTION_CENTER,
        ]
    }
}

/// Law: two canonical projections of windows with the same radius give
/// every active index the same render id, wherever their alias centers lie.
pub proof fn law_canonical_projection_ignores_alias(a: LoadConfig, b: LoadConfig, k: int)
    requires
        a.active_radius == b.active_radius,
    ensures
        canonical_region_id(a, k) == canonical_region_id(b, k),
{
}

} // verus!
