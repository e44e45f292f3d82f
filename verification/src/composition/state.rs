use vstd::prelude::*;

use crate::address::GlobalRegionConfig;
use crate::load::LoadConfig;
use crate::terrain::cache::TerrainSourceNamespace;
use crate::terrain::projection::ObjectSourceNamespace;
use crate::world::RegionCoord;
use super::fixture::CompositionFixture;
use super::traversal::CameraTraversal;

verus! {

/// Which half a composed frame draws first.
#[derive(Clone, Copy, Debug, PartialEq, Eq, Structural)]
pub enum CompositionOrder {
    TerrainFirst,
    ObjectFirst,
}

impl Default for CompositionOrder {
    fn default() -> (r: CompositionOrder)
        ensures
            r == CompositionOrder::TerrainFirst,
    {
        CompositionOrder::TerrainFirst
    }
}

/// Where one half of a composition pair stands.
#[derive(Clone, Copy, Debug, PartialEq, Eq, Structural)]
pub enum HalfState {
    InFlight,
    Staged,
    Failed,
    Discarded,
}

/// Why a composition pair was scheduled.
#[derive(Clone, Copy, Debug, PartialEq, Eq, Structural)]
pub enum PairPurpose {
    Manual,
    Traversal,
    Prefetch,
}

impl PairPurpose {
    /// Pairs that the camera scheduled, rather than a request.
    pub fn camera_driven(self) -> (r: bool)
        ensures
            r == (self != PairPurpose::Manual),
    {
        !matches!(self, PairPurpose::Manual)
    }

    /// Pairs prepared ahead of the camera and not published.
    pub fn prefetch(self) -> (r: bool)
        ensures
            r == (self == PairPurpose::Prefetch),
    {
        matches!(self, PairPurpose::Prefetch)
    }
}

/// A terrain half and an object half scheduled together, to be published
/// together or not at all.
#[derive(Debug)]
pub struct PendingPair {
    pub token: u64,
    pub config: LoadConfig,
    pub global_config: Option<GlobalRegionConfig>,
    pub terrain_source_namespace: Option<TerrainSourceNamespace>,
    pub object_source_namespace: Option<ObjectSourceNamespace>,
    pub object_stable_seed_namespace: Option<ObjectSourceNamespace>,
    pub fixture: CompositionFixture,
    pub terrain_transaction_id: u64,
    pub instance_transaction_id: u64,
    pub terrain: HalfState,
    pub instance: HalfState,
    pub failure: Option<String>,
    pub purpose: PairPurpose,
}

/// What the scheduler hands the coordinator for a new pair.
#[derive(Clone, Copy, Debug)]
pub struct PendingPairInput {
    pub config: LoadConfig,
    pub global_config: Option<GlobalRegionConfig>,
    pub terrain_source_namespace: Option<TerrainSourceNamespace>,
    pub object_source_namespace: Option<ObjectSourceNamespace>,
    pub object_stable_seed_namespace: Option<ObjectSourceNamespace>,
    pub fixture: CompositionFixture,
    pub terrain_transaction_id: u64,
    pub instance_transaction_id: u64,
    pub purpose: PairPurpose,
}

/// The pair that is on screen, with the evidence of its mapping.
#[derive(Debug)]
pub struct PublishedPair {
    pub token: u64,
    pub config: LoadConfig,
    pub global_config: Option<GlobalRegionConfig>,
    pub terrain_source_namespace: Option<TerrainSourceNamespace>,
    pub object_source_namespace: Option<ObjectSourceNamespace>,
    pub object_stable_seed_namespace: Option<ObjectSourceNamespace>,
    pub fixture: CompositionFixture,
    pub terrain_transaction_id: u64,
    pub instance_transaction_id: u64,
    pub publication_count: u64,
    pub physical_slot_divergence_count: usize,
    pub logical_region_ids: Vec<u32>,
    pub instance_slots: Vec<u32>,
    pub terrain_slots: Vec<u32>,
    pub instance_mapping_sha256: String,
    pub terrain_mapping_sha256: String,
    pub global_regions: Option<Vec<RegionCoord>>,
    pub global_mapping_sha256: Option<String>,
    pub camera_driven: bool,
}

/// A pair that was rolled back.
#[derive(Debug)]
pub struct FailedPair {
    pub token: u64,
    pub config: LoadConfig,
    pub terrain_transaction_id: u64,
    pub instance_transaction_id: u64,
    pub terrain: HalfState,
    pub instance: HalfState,
    pub message: Option<String>,
}

/// The coordinator of composition pairs: at most one pending pair, the
/// published pair, the last failure and the camera traversal.
pub struct CompositionCoordinator {
    pub enabled: bool,
    pub order: CompositionOrder,
    pub fixture: CompositionFixture,
    pub next_token: u64,
    pub publication_count: u64,
    pub pending: Option<PendingPair>,
    pub published: Option<PublishedPair>,
    pub last_failure: Option<FailedPair>,
    pub traversal: CameraTraversal,
}

/// The coordinator after the terrain (or object) half with the given
/// transaction failed: that half of the pending pair is failed with the
/// message; nothing changes when no pending half has that transaction.
pub open spec fn half_failed(
    c: CompositionCoordinator,
    terrain: bool,
    transaction_id: u64,
    message: String,
) -> CompositionCoordinator {
    match c.pending {
        Some(p) => {
            let expected = if terrain {
                p.terrain_transaction_id
            } else {
                p.instance_transaction_id
            };
            if expected != transaction_id {
                c
            } else {
                CompositionCoordinator {
                    pending: Some(
                        PendingPair {
                            terrain: if terrain {
                                HalfState::Failed
                            } else {
                                p.terrain
                            },
                            instance: if terrain {
                                p.instance
                            } else {
                                HalfState::Failed
                            },
                            failure: Some(message),
                            ..p
                        },
                    ),
                    ..c
                }
            }
        },
        None => c,
    }
}

impl CompositionCoordinator {
    /// The configurations that the coordinator holds are accepted ones and
    /// its traversal is well-formed.
    pub open spec fn wf(self) -> bool {
        &&& self.traversal.wf()
        &&& self.pending matches Some(p) ==> p.config.wf() && (p.global_config matches Some(g) ==> g.wf())
        &&& self.published matches Some(p) ==> p.config.wf() && (p.global_config matches Some(g) ==> g.wf())
    }

    /// Disabled, terrain first at cell centers, tokens from 1, nothing
    /// pending, published or failed.
    pub fn new() -> (r: CompositionCoordinator)
        ensures
            r.wf(),
            !r.enabled,
            r.order == CompositionOrder::TerrainFirst,
            r.fixture == CompositionFixture::CellCenter,
            r.next_token == 1,
            r.publication_count == 0,
            r.pending is None && r.published is None && r.last_failure is None,
            !r.traversal.enabled,
    {
        CompositionCoordinator {
            enabled: false,
            order: CompositionOrder::TerrainFirst,
            fixture: CompositionFixture::CellCenter,
            next_token: 1,
            publication_count: 0,
            pending: None,
            published: None,
            last_failure: None,
            traversal: CameraTraversal::new(),
        }
    }

    pub fn has_pending(&self) -> (r: bool)
        ensures
            r == self.pending is Some,
    {
        self.pending.is_some()
    }

    /// Opens a pair under the next token with both halves in flight; the
    /// token is returned.
    pub fn begin(&mut self, input: PendingPairInput) -> (token: u64)
        requires
            old(self).next_token < u64::MAX,
        ensures
            token == old(self).next_token,
            final(self).next_token == old(self).next_token + 1,
            final(self).pending == Some(
                PendingPair {
                    token,
                    config: input.config,
                    global_config: input.global_config,
                    terrain_source_namespace: input.terrain_source_namespace,
                    object_source_namespace: input.object_source_namespace,
                    object_stable_seed_namespace: input.object_stable_seed_namespace,
                    fixture: input.fixture,
                    terrain_transaction_id: input.terrain_transaction_id,
                    instance_transaction_id: input.instance_transaction_id,
                    terrain: HalfState::InFlight,
                    instance: HalfState::InFlight,
                    failure: None,
                    purpose: input.purpose,
                },
            ),
            *final(self) == (CompositionCoordinator {
                next_token: final(self).next_token,
                pending: final(self).pending,
                ..*old(self)
            }),
    {
        let token = self.next_token;
        self.next_token = self.next_token + 1;
        self.pending = Some(
            PendingPair {
                token,
                config: input.config,
                global_config: input.global_config,
                terrain_source_namespace: input.terrain_source_namespace,
                object_source_namespace: input.object_source_namespace,
                object_stable_seed_namespace: input.object_stable_seed_namespace,
                fixture: input.fixture,
                terrain_transaction_id: input.terrain_transaction_id,
                instance_transaction_id: input.instance_transaction_id,
                terrain: HalfState::InFlight,
                instance: HalfState::InFlight,
                failure: None,
                purpose: input.purpose,
            },
        );
        token
    }

    /// Marks the terrain (or object) half of the pending pair failed with
    /// the message, when the transaction is that half's; otherwise nothing.
    pub fn fail_half(&mut self, terrain: bool, transaction_id: u64, message: String)
        ensures
            *final(self) == half_failed(*old(self), terrain, transaction_id, message),
    {
        let pending = match self.pending.as_mut() {
            Some(pending) => pending,
            None => return,
        };
        let expected = if terrain {
            pending.terrain_transaction_id
        } else {
            pending.instance_transaction_id
        };
        if expected != transaction_id {
            return;
        }
        if terrain {
            pending.terrain = HalfState::Failed;
        } else {
            pending.instance = HalfState::Failed;
        }
        pending.failure = Some(message);
    }
}

} // verus!
