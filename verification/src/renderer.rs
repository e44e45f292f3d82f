use vstd::prelude::*;

use crate::address::GlobalRegionConfig;
use crate::composition::fixture::CompositionFixture;
use crate::composition::state::{CompositionCoordinator, CompositionOrder, PublishedPair};
use crate::composition::traversal::{traversal_disabled, traversal_enabled};
use crate::load::LoadConfig;
use crate::terrain::cache::{TerrainAssignment, TerrainSourceNamespace};
use crate::terrain::projection::ObjectSourceNamespace;
use crate::terrain::transfer::{arms_gate, releases_gate, TerrainTransfer, TransferError};

verus! {

/// Why a composition control request was refused.
#[derive(Clone, Copy, Debug, PartialEq, Eq)]
pub enum CompositionError {
    /// The camera traversal owns the fixture; disable it first.
    TraversalOwnsFixture,
    /// A pair is pending.
    PairBusy,
    /// The published pair uses another fixture; a restart is needed.
    FixtureChangeRequiresRestart,
    /// Nothing has been published yet.
    NoPublishedPair,
    /// The renderers' snapshots are not those of the published pair.
    SnapshotMismatch,
    /// Terrain has no published snapshot.
    TerrainNotPublished,
    /// Camera traversal runs only in composition mode.
    TraversalRequiresComposition,
    /// The staged object half is not the pending pair's.
    StagedInstanceMismatch,
    /// The staged terrain half is not the pending pair's.
    StagedTerrainMismatch,
    /// A staged mapping is missing.
    StagedMappingAbsent,
    /// The staged mappings have other lengths than the window.
    MappingLengthsDiffer,
    /// The terrain mapping is not in the window's logical order.
    MappingOrder,
    /// The terrain mapping is not in the signed global order.
    SignedOrder,
    /// A window could not be expanded.
    Config(crate::load::ConfigError),
    /// The committed transactions are not the pending pair's.
    WrongTransactions,
    /// The published pair left the traversal's world side or radius.
    TraversalBasisChanged,
}

/// What terrain has published: its window, global window and source.
#[derive(Clone, Copy, Debug, PartialEq, Eq)]
pub struct TerrainSnapshot {
    pub config: LoadConfig,
    pub global_config: Option<GlobalRegionConfig>,
    pub source_namespace: Option<TerrainSourceNamespace>,
}

/// A staged terrain transaction awaiting publication.
#[derive(Clone, Copy, Debug, PartialEq, Eq)]
pub struct TerrainStagedReport {
    pub transaction_id: u64,
    pub config: LoadConfig,
    pub global_config: Option<GlobalRegionConfig>,
    pub source_namespace: Option<TerrainSourceNamespace>,
}

/// A staged terrain half and its slot mapping.
#[derive(Debug)]
pub struct StagedTerrain {
    pub report: TerrainStagedReport,
    pub assignments: Vec<TerrainAssignment>,
}

/// The control state of the terrain renderer.
pub struct TerrainControl {
    pub enabled: bool,
    pub published: Option<TerrainSnapshot>,
    pub staged: Option<StagedTerrain>,
    pub transfer: TerrainTransfer,
}

/// What the object renderer has published.
#[derive(Clone, Copy, Debug, PartialEq, Eq)]
pub struct InstanceSnapshot {
    pub config: LoadConfig,
    pub global_config: Option<GlobalRegionConfig>,
    pub object_source_namespace: Option<ObjectSourceNamespace>,
    pub object_stable_seed_namespace: Option<ObjectSourceNamespace>,
}

/// A staged object transaction awaiting publication.
#[derive(Clone, Copy, Debug, PartialEq, Eq)]
pub struct InstanceStagedReport {
    pub transaction_id: u64,
    pub config: LoadConfig,
    pub global_config: Option<GlobalRegionConfig>,
    pub object_source_namespace: Option<ObjectSourceNamespace>,
    pub object_stable_seed_namespace: Option<ObjectSourceNamespace>,
}

/// A staged object half and its active slots.
#[derive(Debug)]
pub struct StagedInstances {
    pub report: InstanceStagedReport,
    pub active_slots: Vec<u32>,
}

/// The control state of the asynchronous object renderer.
#[derive(Debug)]
pub struct InstanceControl {
    pub published: Option<InstanceSnapshot>,
    pub staged: Option<StagedInstances>,
}

/// The renderer's control plane: the composition coordinator and what it
/// reads and switches of the terrain, object, meshlet and skeletal
/// renderers.
pub struct Renderer {
    pub composition: CompositionCoordinator,
    pub terrain_renderer: TerrainControl,
    pub async_resident_renderer: InstanceControl,
    pub meshlet_scene_enabled: bool,
    pub skeletal_scene_enabled: bool,
}

/// Equality of optional global windows.
pub fn same_optional_global(a: &Option<GlobalRegionConfig>, b: &Option<GlobalRegionConfig>) -> (r: bool)
    ensures
        r == (*a == *b),
{
    match (a, b) {
        (Some(x), Some(y)) => *x == *y,
        (None, None) => true,
        _ => false,
    }
}

/// Equality of optional terrain sources.
pub fn same_optional_terrain_source(
    a: &Option<TerrainSourceNamespace>,
    b: &Option<TerrainSourceNamespace>,
) -> (r: bool)
    ensures
        r == (*a == *b),
{
    match (a, b) {
        (Some(x), Some(y)) => crate::terrain::cache::same_namespace(x, y),
        (None, None) => true,
        _ => false,
    }
}

/// Equality of optional object sources.
pub fn same_optional_object_source(
    a: &Option<ObjectSourceNamespace>,
    b: &Option<ObjectSourceNamespace>,
) -> (r: bool)
    ensures
        r == (*a == *b),
{
    match (a, b) {
        (Some(x), Some(y)) => {
            let tx = TerrainSourceNamespace(x.0);
            let ty = TerrainSourceNamespace(y.0);
            let same = crate::terrain::cache::same_namespace(&tx, &ty);
            proof {
                if same {
                    assert(x.0 == y.0);
                }
            }
            same
        },
        (None, None) => true,
        _ => false,
    }
}

/// `a`, or `b` when `a` is absent.
pub open spec fn or_else<T>(a: Option<T>, b: Option<T>) -> Option<T> {
    match a {
        Some(v) => Some(v),
        None => b,
    }
}

/// The renderers hold exactly the snapshots of the published pair.
pub open spec fn snapshots_match(r: Renderer, p: PublishedPair) -> bool {
    &&& r.async_resident_renderer.published matches Some(i) && {
        &&& i.config == p.config
        &&& i.global_config == p.global_config
        &&& i.object_source_namespace == p.object_source_namespace
        &&& i.object_stable_seed_namespace == or_else(
            p.object_stable_seed_namespace,
            p.object_source_namespace,
        )
    }
    &&& r.terrain_renderer.published matches Some(t) && {
        &&& t.config == p.config
        &&& t.global_config == p.global_config
        &&& t.source_namespace == p.terrain_source_namespace
    }
}

impl TerrainControl {
    /// Turns terrain drawing on; refused until a snapshot is published.
    pub fn enable(&mut self) -> (r: Result<(), CompositionError>)
        ensures
            old(self).published is None ==> r == Err::<(), CompositionError>(CompositionError::TerrainNotPublished)
                && *final(self) == *old(self),
            old(self).published is Some ==> r is Ok && *final(self) == (TerrainControl {
                enabled: true,
                ..*old(self)
            }),
    {
        if self.published.is_none() {
            return Err(CompositionError::TerrainNotPublished);
        }
        self.enabled = true;
        Ok(())
    }

    /// Turns terrain drawing off.
    pub fn disable(&mut self)
        ensures
            *final(self) == (TerrainControl { enabled: false, ..*old(self) }),
    {
        self.enabled = false;
    }

    /// Whether terrain is drawn.
    pub fn is_enabled(&self) -> (r: bool)
        ensures
            r == self.enabled,
    {
        self.enabled
    }

    /// The window of the published snapshot, if any.
    pub fn config(&self) -> (r: Option<LoadConfig>)
        ensures
            r == (match self.published {
                Some(p) => Some(p.config),
                None => None,
            }),
    {
        match &self.published {
            Some(p) => Some(p.config),
            None => None,
        }
    }
}

/// `r` with composition off: the traversal stopped and, when composition
/// was on, terrain and skeletal objects off; nothing else changes.
pub open spec fn composition_disabled(r: Renderer) -> Renderer {
    let was_on = r.composition.enabled;
    Renderer {
        composition: CompositionCoordinator {
            enabled: false,
            traversal: traversal_disabled(r.composition.traversal),
            ..r.composition
        },
        terrain_renderer: if was_on {
            TerrainControl { enabled: false, ..r.terrain_renderer }
        } else {
            r.terrain_renderer
        },
        skeletal_scene_enabled: if was_on {
            false
        } else {
            r.skeletal_scene_enabled
        },
        ..r
    }
}

/// `r` with the camera traversal stopped and nothing else changed.
pub open spec fn traversal_stopped(r: Renderer) -> Renderer {
    Renderer {
        composition: CompositionCoordinator { traversal: traversal_disabled(r.composition.traversal), ..r.composition },
        ..r
    }
}

/// Turning composition off leaves it off with its traversal stopped; when
/// it was on, both halves it drew, terrain and skeletal objects, go off;
/// when it was off, they keep their state; meshlets, the pending pair and
/// the published pair are untouched.
pub proof fn law_disable_composition_turns_halves_off(r: Renderer)
    ensures
        ({
            let d = composition_disabled(r);
            &&& !d.composition.enabled
            &&& !d.composition.traversal.enabled
            &&& (r.composition.enabled ==> !d.terrain_renderer.enabled && !d.skeletal_scene_enabled)
            &&& (!r.composition.enabled ==> d.terrain_renderer.enabled == r.terrain_renderer.enabled
                && d.skeletal_scene_enabled == r.skeletal_scene_enabled)
            &&& d.meshlet_scene_enabled == r.meshlet_scene_enabled
            &&& d.composition.pending == r.composition.pending
            &&& d.composition.published == r.composition.published
        }),
{
}

/// Turning composition off twice is turning it off once.
pub proof fn law_disable_composition_is_idempotent(r: Renderer)
    ensures
        composition_disabled(composition_disabled(r)) == composition_disabled(r),
{
}

/// Stopping the traversal twice is stopping it once.
pub proof fn law_disable_traversal_is_idempotent(r: Renderer)
    ensures
        traversal_stopped(traversal_stopped(r)) == traversal_stopped(r),
{
}

impl Renderer {
    pub open spec fn wf(self) -> bool {
        self.composition.wf()
    }

    /// Whether composed terrain and objects are on screen.
    pub fn composition_enabled(&self) -> (r: bool)
        ensures
            r == self.composition.enabled,
    {
        self.composition.enabled
    }

    /// Calibration scenes draw exactly when composition is off.
    pub fn calibration_mode_active(&self) -> (r: bool)
        ensures
            r == !self.composition.enabled,
    {
        !self.composition_enabled()
    }

    pub fn composition_order(&self) -> (r: CompositionOrder)
        ensures
            r == self.composition.order,
    {
        self.composition.order
    }

    /// The grounding mode of the published pair's fixture, cell centers
    /// when nothing is published.
    pub fn composition_grounding_mode(&self) -> (r: u32)
        ensures
            r == match self.composition.published {
                Some(p) => match p.fixture {
                    CompositionFixture::CellCenter => 1u32,
                    CompositionFixture::ArbitraryQ8 => 2u32,
                },
                None => 1u32,
            },
    {
        match &self.composition.published {
            Some(pair) => pair.fixture.grounding_mode(),
            None => CompositionFixture::CellCenter.grounding_mode(),
        }
    }

    pub fn set_composition_order(&mut self, terrain_first: bool)
        ensures
            *final(self) == (Renderer {
                composition: CompositionCoordinator {
                    order: if terrain_first {
                        CompositionOrder::TerrainFirst
                    } else {
                        CompositionOrder::ObjectFirst
                    },
                    ..old(self).composition
                },
                ..*old(self)
            }),
    {
        self.composition.order = if terrain_first {
            CompositionOrder::TerrainFirst
        } else {
            CompositionOrder::ObjectFirst
        };
    }

    /// Chooses the fixture of the next pair: refused while the traversal
    /// runs, while a pair is pending, or when the published pair has
    /// another fixture.
    pub fn set_composition_fixture(&mut self, fixture: CompositionFixture) -> (r: Result<(), CompositionError>)
        ensures
            old(self).composition.traversal.enabled ==> r == Err::<(), CompositionError>(
                CompositionError::TraversalOwnsFixture,
            ) && *final(self) == *old(self),
            !old(self).composition.traversal.enabled && old(self).composition.pending is Some ==> r
                == Err::<(), CompositionError>(CompositionError::PairBusy) && *final(self) == *old(self),
            !old(self).composition.traversal.enabled && old(self).composition.pending is None && (
            old(self).composition.published matches Some(p) && p.fixture != fixture) ==> r == Err::<
                (),
                CompositionError,
            >(CompositionError::FixtureChangeRequiresRestart) && *final(self) == *old(self),
            !old(self).composition.traversal.enabled && old(self).composition.pending is None && !(
            old(self).composition.published matches Some(p) && p.fixture != fixture) ==> r == Ok::<
                (),
                CompositionError,
            >(()) && *final(self) == (Renderer {
                composition: CompositionCoordinator { fixture, ..old(self).composition },
                ..*old(self)
            }),
    {
        if self.composition.traversal.is_enabled() {
            return Err(CompositionError::TraversalOwnsFixture);
        }
        if self.composition.pending.is_some() {
            return Err(CompositionError::PairBusy);
        }
        let matches_published = match &self.composition.published {
            Some(published) => published.fixture == fixture,
            None => true,
        };
        if !matches_published {
            return Err(CompositionError::FixtureChangeRequiresRestart);
        }
        self.composition.fixture = fixture;
        Ok(())
    }

    /// Turns composition on: refused without a published pair or when the
    /// renderers do not hold its snapshots; otherwise meshlets go off and
    /// terrain and skeletal objects go on.
    pub fn enable_composition(&mut self) -> (r: Result<(), CompositionError>)
        ensures
            old(self).composition.published is None ==> r == Err::<(), CompositionError>(
                CompositionError::NoPublishedPair,
            ) && *final(self) == *old(self),
            old(self).composition.published matches Some(p) && !snapshots_match(*old(self), p) ==> r
                == Err::<(), CompositionError>(CompositionError::SnapshotMismatch) && *final(self)
                == *old(self),
            old(self).composition.published matches Some(p) && snapshots_match(*old(self), p) ==> r
                == Ok::<(), CompositionError>(()) && *final(self) == (Renderer {
                composition: CompositionCoordinator { enabled: true, ..old(self).composition },
                terrain_renderer: TerrainControl { enabled: true, ..old(self).terrain_renderer },
                meshlet_scene_enabled: false,
                skeletal_scene_enabled: true,
                ..*old(self)
            }),
    {
        let published = match &self.composition.published {
            Some(published) => published,
            None => return Err(CompositionError::NoPublishedPair),
        };
        let instance_matches = match &self.async_resident_renderer.published {
            Some(i) => i.config == published.config && same_optional_global(
                &i.global_config,
                &published.global_config,
            ) && same_optional_object_source(
                &i.object_source_namespace,
                &published.object_source_namespace,
            ) && same_optional_object_source(
                &i.object_stable_seed_namespace,
                &match published.object_stable_seed_namespace {
                    Some(v) => Some(v),
                    None => published.object_source_namespace,
                },
            ),
            None => false,
        };
        let terrain_matches = match &self.terrain_renderer.published {
            Some(t) => t.config == published.config && same_optional_global(
                &t.global_config,
                &published.global_config,
            ) && same_optional_terrain_source(
                &t.source_namespace,
                &published.terrain_source_namespace,
            ),
            None => false,
        };
        if !(instance_matches && terrain_matches) {
            return Err(CompositionError::SnapshotMismatch);
        }
        self.meshlet_scene_enabled = false;
        self.terrain_renderer.enabled = true;
        self.skeletal_scene_enabled = true;
        self.composition.enabled = true;
        Ok(())
    }

    /// Turns composition off, stopping the traversal; terrain and skeletal
    /// objects go off when composition was on.
    pub fn disable_composition(&mut self)
        ensures
            *final(self) == composition_disabled(*old(self)),
            !final(self).composition.enabled,
            !final(self).composition.traversal.enabled,
            old(self).composition.enabled ==> !final(self).terrain_renderer.enabled
                && !final(self).skeletal_scene_enabled,
            !old(self).composition.enabled ==> final(self).terrain_renderer.enabled
                == old(self).terrain_renderer.enabled && final(self).skeletal_scene_enabled
                == old(self).skeletal_scene_enabled,
            final(self).meshlet_scene_enabled == old(self).meshlet_scene_enabled,
            final(self).composition.pending == old(self).composition.pending,
            final(self).composition.published == old(self).composition.published,
    {
        self.composition.traversal.disable();
        if !self.composition.enabled {
            return;
        }
        self.composition.enabled = false;
        self.terrain_renderer.enabled = false;
        self.skeletal_scene_enabled = false;
    }

    /// Starts the camera traversal on the published pair's window: refused
    /// outside composition mode, while a pair is pending, or with nothing
    /// published.
    pub fn enable_composition_traversal(&mut self) -> (r: Result<(), CompositionError>)
        requires
            old(self).wf(),
            old(self).composition.traversal.session_count < u64::MAX,
        ensures
            final(self).wf(),
            !old(self).composition.enabled ==> r == Err::<(), CompositionError>(
                CompositionError::TraversalRequiresComposition,
            ) && *final(self) == *old(self),
            old(self).composition.enabled && old(self).composition.pending is Some ==> r == Err::<
                (),
                CompositionError,
            >(CompositionError::PairBusy) && *final(self) == *old(self),
            old(self).composition.enabled && old(self).composition.pending is None
                && old(self).composition.published is None ==> r == Err::<(), CompositionError>(
                CompositionError::NoPublishedPair,
            ) && *final(self) == *old(self),
            (old(self).composition.enabled && old(self).composition.pending is None
                && old(self).composition.published is Some) ==> {
                let p = old(self).composition.published->0;
                &&& r == Ok::<(), CompositionError>(())
                &&& *final(self) == (Renderer {
                    composition: CompositionCoordinator {
                        traversal: traversal_enabled(old(self).composition.traversal, p.config),
                        ..old(self).composition
                    },
                    ..*old(self)
                })
            },
    {
        if !self.composition.enabled {
            return Err(CompositionError::TraversalRequiresComposition);
        }
        if self.composition.pending.is_some() {
            return Err(CompositionError::PairBusy);
        }
        let config = match &self.composition.published {
            Some(published) => published.config,
            None => return Err(CompositionError::NoPublishedPair),
        };
        self.composition.traversal.enable(config);
        Ok(())
    }

    /// Stops the camera traversal; nothing else changes.
    pub fn disable_composition_traversal(&mut self)
        ensures
            *final(self) == traversal_stopped(*old(self)),
    {
        self.composition.traversal.disable();
    }

    /// The planning half of a traversal step, given the camera's region:
    /// nothing while the traversal is off; refused without a published
    /// pair; otherwise the traversal plans against the published and
    /// pending windows, and a window to schedule counts as an attempt.
    pub fn plan_composition_traversal(&mut self, region_x: i64, region_z: i64) -> (r: Result<
        Option<LoadConfig>,
        CompositionError,
    >)
        requires
            old(self).wf(),
            old(self).composition.traversal.desired_change_count < u64::MAX,
            old(self).composition.traversal.coalesced_replacement_count < u64::MAX,
            old(self).composition.traversal.automatic_attempt_count < u64::MAX,
        ensures
            final(self).wf(),
            !old(self).composition.traversal.enabled ==> r == Ok::<Option<LoadConfig>, CompositionError>(None)
                && *final(self) == *old(self),
            old(self).composition.traversal.enabled && old(self).composition.published is None ==> r
                == Err::<Option<LoadConfig>, CompositionError>(CompositionError::NoPublishedPair)
                && *final(self) == *old(self),
            (old(self).composition.traversal.enabled && old(self).composition.published is Some) ==> {
                let pending = match old(self).composition.pending {
                    Some(p) => Some(p.config),
                    None => None,
                };
                let (t, planned) = crate::composition::traversal::plan_step(
                    old(self).composition.traversal,
                    region_x,
                    region_z,
                    old(self).composition.published->0.config,
                    pending,
                );
                &&& r == match planned {
                    Ok(c) => Ok(c),
                    Err(crate::composition::traversal::TraversalError::BasisChanged) => Err(
                        CompositionError::TraversalBasisChanged,
                    ),
                    Err(crate::composition::traversal::TraversalError::Config(e)) => Err(
                        CompositionError::Config(e),
                    ),
                }
                &&& *final(self) == (Renderer {
                    composition: CompositionCoordinator {
                        traversal: if planned matches Ok(Some(_)) {
                            crate::composition::traversal::CameraTraversal {
                                automatic_attempt_count: (t.automatic_attempt_count + 1) as u64,
                                ..t
                            }
                        } else {
                            t
                        },
                        ..old(self).composition
                    },
                    ..*old(self)
                })
            },
    {
        if !self.composition.traversal.is_enabled() {
            return Ok(None);
        }
        let published = match &self.composition.published {
            Some(pair) => pair.config,
            None => return Err(CompositionError::NoPublishedPair),
        };
        let pending = match &self.composition.pending {
            Some(p) => Some(p.config),
            None => None,
        };
        match self.composition.traversal.plan(region_x, region_z, published, pending) {
            Ok(Some(config)) => {
                self.composition.traversal.mark_attempted();
                Ok(Some(config))
            },
            Ok(None) => Ok(None),
            Err(crate::composition::traversal::TraversalError::BasisChanged) => Err(
                CompositionError::TraversalBasisChanged,
            ),
            Err(crate::composition::traversal::TraversalError::Config(e)) => Err(CompositionError::Config(e)),
        }
    }
}

impl Renderer {
    /// Arms the terrain copy gate, which holds terrain copies back until it
    /// is released; the renderer's other state is untouched.
    pub fn arm_terrain_copy_gate(&mut self) -> (r: Result<u64, TransferError>)
        requires
            old(self).terrain_renderer.transfer.next_gate() < u64::MAX,
        ensures
            arms_gate(old(self).terrain_renderer.transfer, final(self).terrain_renderer.transfer, r),
            final(self).composition == old(self).composition,
            final(self).terrain_renderer.enabled == old(self).terrain_renderer.enabled,
            final(self).terrain_renderer.published == old(self).terrain_renderer.published,
            final(self).terrain_renderer.staged == old(self).terrain_renderer.staged,
            final(self).async_resident_renderer == old(self).async_resident_renderer,
            final(self).meshlet_scene_enabled == old(self).meshlet_scene_enabled,
            final(self).skeletal_scene_enabled == old(self).skeletal_scene_enabled,
    {
        self.terrain_renderer.transfer.arm_gate()
    }

    /// Releases the terrain copy gate; the caller signals the returned value.
    pub fn release_terrain_copy_gate(&mut self) -> (r: Result<u64, TransferError>)
        ensures
            releases_gate(old(self).terrain_renderer.transfer, final(self).terrain_renderer.transfer, r),
            final(self).composition == old(self).composition,
            final(self).terrain_renderer.enabled == old(self).terrain_renderer.enabled,
            final(self).terrain_renderer.published == old(self).terrain_renderer.published,
            final(self).terrain_renderer.staged == old(self).terrain_renderer.staged,
            final(self).async_resident_renderer == old(self).async_resident_renderer,
            final(self).meshlet_scene_enabled == old(self).meshlet_scene_enabled,
            final(self).skeletal_scene_enabled == old(self).skeletal_scene_enabled,
    {
        self.terrain_renderer.transfer.release_gate()
    }
}

} // verus!
