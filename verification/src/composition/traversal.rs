use vstd::prelude::*;

use crate::load::{world_start, ConfigError, LoadConfig, MAX_REGION_SIDE};

verus! {

/// The world side and radius that a traversal session keeps fixed.
#[derive(Clone, Copy, Debug, PartialEq, Eq, Structural)]
pub struct TraversalBasis {
    pub world_region_side: u32,
    pub active_radius: u32,
}

impl TraversalBasis {
    /// The window of the given radius fits a world window of the given side.
    pub open spec fn wf(self) -> bool {
        &&& 0 < self.world_region_side <= MAX_REGION_SIDE
        &&& 2 * self.active_radius + 1 <= self.world_region_side
    }
}

/// A schedule that the traversal made.
#[derive(Clone, Copy, Debug, PartialEq, Eq)]
pub struct ScheduledTarget {
    pub token: u64,
    pub config: LoadConfig,
}

/// A target that failed, and why.
#[derive(Debug)]
pub struct BlockedTarget {
    pub config: LoadConfig,
    pub message: String,
}

/// Why the traversal refused to plan.
#[derive(Clone, Copy, Debug, PartialEq, Eq)]
pub enum TraversalError {
    /// The published pair no longer has the session's world side or radius.
    BasisChanged,
    /// The camera's window is not an accepted load configuration.
    Config(ConfigError),
}

/// Follows the camera from region to region: keeps the window the camera
/// wants, what is queued behind a pending pair, and the target that last
/// failed, so that it is not retried until the camera moves on.
pub struct CameraTraversal {
    pub enabled: bool,
    pub basis: Option<TraversalBasis>,
    pub desired: Option<LoadConfig>,
    pub queued: Option<LoadConfig>,
    pub blocked: Option<BlockedTarget>,
    pub session_count: u64,
    pub desired_change_count: u64,
    pub automatic_attempt_count: u64,
    pub automatic_schedule_count: u64,
    pub automatic_publication_count: u64,
    pub coalesced_replacement_count: u64,
    pub max_queued_depth: u32,
    pub last_scheduled: Option<ScheduledTarget>,
    pub last_published: Option<ScheduledTarget>,
    pub last_failure: Option<BlockedTarget>,
}

/// The window that the camera's region falls in on one axis: the camera's
/// region clamped so that the window stays inside the world window.
pub open spec fn clamp_axis(region: i64, basis: TraversalBasis) -> u32 {
    let minimum = world_start(basis.world_region_side) + basis.active_radius;
    let maximum = world_start(basis.world_region_side) + basis.world_region_side
        - basis.active_radius - 1;
    if region < minimum {
        minimum as u32
    } else if region > maximum {
        maximum as u32
    } else {
        region as u32
    }
}

/// The window centered on the camera's region `(x, z)`, clamped to the world.
pub open spec fn camera_window(region_x: i64, region_z: i64, basis: TraversalBasis) -> LoadConfig {
    LoadConfig {
        world_region_side: basis.world_region_side,
        active_center_x: clamp_axis(region_x, basis),
        active_center_z: clamp_axis(region_z, basis),
        active_radius: basis.active_radius,
    }
}

/// The configuration of the window centred on the camera's region, the
/// region being counted from the world's west and north edges; always
/// accepted for a well-formed basis.
pub fn map_camera_regions(region_x: i64, region_z: i64, basis: TraversalBasis) -> (r: Result<
    LoadConfig,
    ConfigError,
>)
    requires
        basis.wf(),
    ensures
        r == Ok::<LoadConfig, ConfigError>(camera_window(region_x, region_z, basis)),
        camera_window(region_x, region_z, basis).wf(),
{
    let world_start = (MAX_REGION_SIDE - basis.world_region_side) / 2;
    let minimum = world_start + basis.active_radius;
    let maximum = world_start + basis.world_region_side - basis.active_radius - 1;
    let x = clamp(region_x, minimum, maximum);
    let z = clamp(region_z, minimum, maximum);
    LoadConfig::new(basis.world_region_side, x, z, basis.active_radius)
}

fn clamp(value: i64, minimum: u32, maximum: u32) -> (r: u32)
    requires
        minimum <= maximum,
    ensures
        r == if value < minimum {
            minimum
        } else if value > maximum {
            maximum
        } else {
            value as u32
        },
{
    if value < minimum as i64 {
        minimum
    } else if value > maximum as i64 {
        maximum
    } else {
        value as u32
    }
}

/// The traversal after a failure of `config`: recorded as the last failure,
/// and, while enabled, as the blocked window.
pub open spec fn failed(t: CameraTraversal, config: LoadConfig, message: String) -> CameraTraversal {
    CameraTraversal {
        last_failure: Some(BlockedTarget { config, message }),
        blocked: if t.enabled {
            Some(BlockedTarget { config, message })
        } else {
            t.blocked
        },
        ..t
    }
}

/// The traversal after the pair of `config` was published under `token`:
/// counted, recorded, and a block on that window lifted.
pub open spec fn published_marked(t: CameraTraversal, token: u64, config: LoadConfig) -> CameraTraversal {
    CameraTraversal {
        automatic_publication_count: (t.automatic_publication_count + 1) as u64,
        last_published: Some(ScheduledTarget { token, config }),
        blocked: if t.blocked matches Some(b) && b.config == config {
            None
        } else {
            t.blocked
        },
        ..t
    }
}

/// One planning step from traversal `t`: the traversal after it and what it
/// returns (see `CameraTraversal::plan`).
pub open spec fn plan_step(
    t: CameraTraversal,
    region_x: i64,
    region_z: i64,
    published: LoadConfig,
    pending: Option<LoadConfig>,
) -> (CameraTraversal, Result<Option<LoadConfig>, TraversalError>) {
    if !t.enabled {
        (t, Ok(None))
    } else if !plan_basis_holds(t.basis->0, published) {
        (t, Err(TraversalError::BasisChanged))
    } else {
        let want = camera_window(region_x, region_z, t.basis->0);
        let changed = t.desired != Some(want);
        let blocked = if changed && (t.blocked matches Some(b) && b.config != want) {
            None
        } else {
            t.blocked
        };
        let after_desire = CameraTraversal {
            desired: Some(want),
            desired_change_count: if changed {
                (t.desired_change_count + 1) as u64
            } else {
                t.desired_change_count
            },
            blocked,
            ..t
        };
        match pending {
            Some(p) => {
                let next = if want != p {
                    Some(want)
                } else {
                    None
                };
                (queue_replaced(after_desire, next), Ok(None))
            },
            None => (
                CameraTraversal { queued: None, ..after_desire },
                Ok(
                    if want == published || (blocked matches Some(b) && b.config == want) {
                        None
                    } else {
                        Some(want)
                    },
                ),
            ),
        }
    }
}

/// The traversal after its queued window is replaced by `next`.
pub open spec fn queue_replaced(t: CameraTraversal, next: Option<LoadConfig>) -> CameraTraversal {
    if t.queued == next {
        t
    } else {
        CameraTraversal {
            queued: next,
            coalesced_replacement_count: if t.queued is Some {
                (t.coalesced_replacement_count + 1) as u64
            } else {
                t.coalesced_replacement_count
            },
            max_queued_depth: if next is Some && t.max_queued_depth < 1 {
                1
            } else {
                t.max_queued_depth
            },
            ..t
        }
    }
}

/// The published window still has the session's world side and radius.
pub open spec fn plan_basis_holds(basis: TraversalBasis, published: LoadConfig) -> bool {
    published.world_region_side == basis.world_region_side && published.active_radius
        == basis.active_radius
}

/// Equality of two optional load configurations.
pub fn same_optional_config(a: &Option<LoadConfig>, b: &Option<LoadConfig>) -> (r: bool)
    ensures
        r == (*a == *b),
{
    match (a, b) {
        (Some(x), Some(y)) => *x == *y,
        (None, None) => true,
        _ => false,
    }
}

/// `t` with a new session on the world side and radius of `published`:
/// nothing desired, queued or blocked, and one more session; the other
/// counts and the last events stay.
pub open spec fn traversal_enabled(t: CameraTraversal, published: LoadConfig) -> CameraTraversal {
    CameraTraversal {
        enabled: true,
        basis: Some(
            TraversalBasis {
                world_region_side: published.world_region_side,
                active_radius: published.active_radius,
            },
        ),
        desired: None,
        queued: None,
        blocked: None,
        session_count: (t.session_count + 1) as u64,
        ..t
    }
}

/// `t` with its session ended: no basis and nothing desired, queued or
/// blocked; the counts and the last events stay.
pub open spec fn traversal_disabled(t: CameraTraversal) -> CameraTraversal {
    CameraTraversal { enabled: false, basis: None, desired: None, queued: None, blocked: None, ..t }
}

impl CameraTraversal {
    /// An enabled traversal has a well-formed basis.
    pub open spec fn wf(self) -> bool {
        &&& self.enabled ==> self.basis is Some
        &&& self.basis matches Some(b) ==> b.wf()
    }

    /// A disabled traversal with every count at zero.
    pub fn new() -> (r: CameraTraversal)
        ensures
            r.wf(),
            !r.enabled,
            r.basis is None && r.desired is None && r.queued is None && r.blocked is None,
            r.session_count == 0 && r.desired_change_count == 0 && r.automatic_attempt_count == 0
                && r.automatic_schedule_count == 0 && r.automatic_publication_count == 0
                && r.coalesced_replacement_count == 0 && r.max_queued_depth == 0,
            r.last_scheduled is None && r.last_published is None && r.last_failure is None,
    {
        CameraTraversal {
            enabled: false,
            basis: None,
            desired: None,
            queued: None,
            blocked: None,
            session_count: 0,
            desired_change_count: 0,
            automatic_attempt_count: 0,
            automatic_schedule_count: 0,
            automatic_publication_count: 0,
            coalesced_replacement_count: 0,
            max_queued_depth: 0,
            last_scheduled: None,
            last_published: None,
            last_failure: None,
        }
    }

    pub fn is_enabled(&self) -> (r: bool)
        ensures
            r == self.enabled,
    {
        self.enabled
    }

    /// Starts a session on the published window's world side and radius,
    /// forgetting what was desired, queued or blocked.
    pub fn enable(&mut self, published: LoadConfig)
        requires
            published.wf(),
            old(self).session_count < u64::MAX,
        ensures
            final(self).wf(),
            *final(self) == traversal_enabled(*old(self), published),
    {
        self.enabled = true;
        self.basis = Some(
            TraversalBasis {
                world_region_side: published.world_region_side,
                active_radius: published.active_radius,
            },
        );
        self.desired = None;
        self.queued = None;
        self.blocked = None;
        self.session_count = self.session_count + 1;
    }

    /// Ends the session: no basis and nothing desired, queued or blocked;
    /// the counts and the last events, the last failure among them, stay.
    pub fn disable(&mut self)
        ensures
            final(self).wf(),
            *final(self) == traversal_disabled(*old(self)),
    {
        self.enabled = false;
        self.basis = None;
        self.desired = None;
        self.queued = None;
        self.blocked = None;
    }

    /// Records that the traversal tried to schedule a pair.
    pub fn mark_attempted(&mut self)
        requires
            old(self).automatic_attempt_count < u64::MAX,
        ensures
            *final(self) == (CameraTraversal {
                automatic_attempt_count: (old(self).automatic_attempt_count + 1) as u64,
                ..*old(self)
            }),
    {
        self.automatic_attempt_count = self.automatic_attempt_count + 1;
    }

    /// Records a scheduled pair; a queued window equal to it is consumed.
    pub fn mark_scheduled(&mut self, token: u64, config: LoadConfig)
        requires
            old(self).automatic_schedule_count < u64::MAX,
        ensures
            *final(self) == (CameraTraversal {
                automatic_schedule_count: (old(self).automatic_schedule_count + 1) as u64,
                last_scheduled: Some(ScheduledTarget { token, config }),
                queued: if old(self).queued == Some(config) {
                    None
                } else {
                    old(self).queued
                },
                ..*old(self)
            }),
    {
        self.automatic_schedule_count = self.automatic_schedule_count + 1;
        self.last_scheduled = Some(ScheduledTarget { token, config });
        if same_optional_config(&self.queued, &Some(config)) {
            self.queued = None;
        }
    }

    /// Records a published pair; a block on the same window is lifted.
    pub fn mark_published(&mut self, token: u64, config: LoadConfig)
        requires
            old(self).automatic_publication_count < u64::MAX,
        ensures
            *final(self) == published_marked(*old(self), token, config),
    {
        self.automatic_publication_count = self.automatic_publication_count + 1;
        self.last_published = Some(ScheduledTarget { token, config });
        let lift = match &self.blocked {
            Some(blocked) => blocked.config == config,
            None => false,
        };
        if lift {
            self.blocked = None;
        }
    }

    /// Records a failed window; while enabled it also blocks that window.
    pub fn mark_failed(&mut self, config: LoadConfig, message: String)
        ensures
            *final(self) == failed(*old(self), config, message),
    {
        if self.enabled {
            self.blocked = Some(BlockedTarget { config, message: message.clone() });
        }
        self.last_failure = Some(BlockedTarget { config, message });
    }

    /// Replaces the queued window; replacing a queued window by another
    /// counts as a coalesced replacement.
    pub fn replace_queued(&mut self, next: Option<LoadConfig>)
        requires
            old(self).coalesced_replacement_count < u64::MAX,
        ensures
            *final(self) == queue_replaced(*old(self), next),
    {
        if same_optional_config(&self.queued, &next) {
            return;
        }
        if self.queued.is_some() {
            self.coalesced_replacement_count = self.coalesced_replacement_count + 1;
        }
        self.queued = next;
        let depth: u32 = if next.is_some() {
            1
        } else {
            0
        };
        if depth > self.max_queued_depth {
            self.max_queued_depth = depth;
        }
    }

    /// One planning step, given the camera's region (counted from the
    /// world's west and north edges), the published window and the window
    /// of a pending pair. Disabled: nothing. A published pair on another
    /// world side or radius: refused. Otherwise the window centred on the
    /// camera becomes desired (a change of desire lifts a block on another
    /// window); behind a pending pair it is queued unless it is the pending
    /// window; else it is returned to schedule unless it is published or
    /// blocked.
    pub fn plan(
        &mut self,
        region_x: i64,
        region_z: i64,
        published: LoadConfig,
        pending: Option<LoadConfig>,
    ) -> (r: Result<Option<LoadConfig>, TraversalError>)
        requires
            old(self).wf(),
            old(self).desired_change_count < u64::MAX,
            old(self).coalesced_replacement_count < u64::MAX,
        ensures
            final(self).wf(),
            plan_step(*old(self), region_x, region_z, published, pending) == (*final(self), r),
    {
        if !self.enabled {
            return Ok(None);
        }
        let basis = match self.basis {
            Some(basis) => basis,
            None => return Ok(None),
        };
        if !(published.world_region_side == basis.world_region_side && published.active_radius
            == basis.active_radius) {
            return Err(TraversalError::BasisChanged);
        }
        let desired = match map_camera_regions(region_x, region_z, basis) {
            Ok(config) => config,
            Err(e) => return Err(TraversalError::Config(e)),
        };
        if !same_optional_config(&self.desired, &Some(desired)) {
            self.desired = Some(desired);
            self.desired_change_count = self.desired_change_count + 1;
            let lift = match &self.blocked {
                Some(blocked) => blocked.config != desired,
                None => false,
            };
            if lift {
                self.blocked = None;
            }
        }
        if let Some(pending) = pending {
            let next = if desired != pending {
                Some(desired)
            } else {
                None
            };
            self.replace_queued(next);
            return Ok(None);
        }
        self.queued = None;
        let is_blocked = match &self.blocked {
            Some(blocked) => blocked.config == desired,
            None => false,
        };
        if desired == published || is_blocked {
            return Ok(None);
        }
        Ok(Some(desired))
    }
}

/// Law: a window that is blocked is not scheduled again while the camera
/// stays in it and no pair is pending; the block stays.
pub proof fn law_blocked_window_not_retried(
    t: CameraTraversal,
    region_x: i64,
    region_z: i64,
    published: LoadConfig,
)
    requires
        t.wf(),
        t.enabled,
        plan_basis_holds(t.basis->0, published),
        t.blocked matches Some(b) && b.config == camera_window(region_x, region_z, t.basis->0),
    ensures
        plan_step(t, region_x, region_z, published, None).1 == Ok::<Option<LoadConfig>, TraversalError>(None),
        plan_step(t, region_x, region_z, published, None).0.blocked == t.blocked,
{
}

/// Law: after the window under the camera fails, planning from the same
/// camera region schedules nothing until the camera moves on.
pub proof fn law_failure_blocks_until_camera_moves(
    t: CameraTraversal,
    message: String,
    region_x: i64,
    region_z: i64,
    published: LoadConfig,
)
    requires
        t.wf(),
        t.enabled,
        plan_basis_holds(t.basis->0, published),
    ensures
        plan_step(
            failed(t, camera_window(region_x, region_z, t.basis->0), message),
            region_x,
            region_z,
            published,
            None,
        ).1 == Ok::<Option<LoadConfig>, TraversalError>(None),
{
}

/// Law: planning schedules only with no pair pending, never the published
/// window, and always the window under the camera.
pub proof fn law_schedules_only_new_windows(
    t: CameraTraversal,
    region_x: i64,
    region_z: i64,
    published: LoadConfig,
    pending: Option<LoadConfig>,
)
    requires
        t.wf(),
    ensures
        plan_step(t, region_x, region_z, published, pending).1 matches Ok(Some(c)) ==> {
            &&& pending is None
            &&& c != published
            &&& c == camera_window(region_x, region_z, t.basis->0)
            &&& c.wf()
        },
{
    if t.enabled && plan_basis_holds(t.basis->0, published) {
        let ghost _ = camera_window(region_x, region_z, t.basis->0);
    }
}

/// Law: publishing a window lifts any block on that window.
pub proof fn law_publication_lifts_block(t: CameraTraversal, token: u64, config: LoadConfig)
    ensures
        !(published_marked(t, token, config).blocked matches Some(b) && b.config == config),
{
}

} // verus!
