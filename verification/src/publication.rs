use vstd::prelude::*;

use crate::address::{addressed_at, local_of};
use crate::composition::global::{addressed, local_ids};
use crate::address::GlobalRegionConfig;
use crate::composition::global::{evidence, evidence_bytes};
use crate::composition::state::{
    half_failed, CompositionCoordinator, FailedPair, HalfState, PairPurpose, PendingPair,
    PublishedPair,
};
use crate::composition::traversal::{failed, published_marked};
use crate::digest::{le_u32, push_u32_le, sha256_hex, sha256_hex_of};
use crate::load::LoadConfig;
use crate::renderer::{or_else, snapshots_match, InstanceSnapshot, TerrainSnapshot};
use crate::terrain::cache::TerrainAssignment;
use crate::world::RegionCoord;
use crate::renderer::{
    same_optional_global, same_optional_object_source, same_optional_terrain_source,
    CompositionError, InstanceControl, InstanceStagedReport, Renderer, TerrainControl,
    TerrainStagedReport,
};
use crate::resident::{window_region_id, ACTIVE_REGION_CAPACITY};
use crate::load::ConfigError;

verus! {

/// The staged object report belongs to the pending pair.
pub open spec fn instance_report_matches(report: InstanceStagedReport, p: PendingPair) -> bool {
    &&& report.transaction_id == p.instance_transaction_id
    &&& report.config == p.config
    &&& report.global_config == p.global_config
    &&& report.object_source_namespace == p.object_source_namespace
    &&& report.object_stable_seed_namespace == p.object_stable_seed_namespace
}

/// The staged terrain report belongs to the pending pair.
pub open spec fn terrain_report_matches(report: TerrainStagedReport, p: PendingPair) -> bool {
    &&& report.transaction_id == p.terrain_transaction_id
    &&& report.config == p.config
    &&& report.global_config == p.global_config
    &&& report.source_namespace == p.terrain_source_namespace
}

/// Number of regions in the pending pair's window.
pub open spec fn pair_window_len(p: PendingPair) -> nat {
    match p.global_config {
        Some(g) => local_of(g).side() * local_of(g).side(),
        None => p.config.side() * p.config.side(),
    }
}

/// The logical region id of the `k`-th region of the pending pair's window.
pub open spec fn pair_logical_id(p: PendingPair, k: int) -> int {
    match p.global_config {
        Some(g) => addressed_at(g, k).local_region_id as int,
        None => window_region_id(p.config, k),
    }
}

/// What validating the staged halves against the pending pair yields.
pub open spec fn staged_check(r: Renderer) -> Result<(), CompositionError> {
    match r.composition.pending {
        None => Ok(()),
        Some(p) => if r.async_resident_renderer.staged matches Some(s) && !instance_report_matches(
            s.report,
            p,
        ) {
            Err(CompositionError::StagedInstanceMismatch)
        } else if r.terrain_renderer.staged matches Some(s) && !terrain_report_matches(s.report, p) {
            Err(CompositionError::StagedTerrainMismatch)
        } else if !(p.terrain == HalfState::Staged && p.instance == HalfState::Staged) {
            Ok(())
        } else if pair_window_len(p) > ACTIVE_REGION_CAPACITY {
            Err(CompositionError::Config(ConfigError::ActiveCapacityExceeded))
        } else if r.terrain_renderer.staged is None || r.async_resident_renderer.staged is None {
            Err(CompositionError::StagedMappingAbsent)
        } else {
            let terrain = r.terrain_renderer.staged->0.assignments@;
            let instances = r.async_resident_renderer.staged->0.active_slots@;
            if !(terrain.len() == pair_window_len(p) && instances.len() == pair_window_len(p)) {
                Err(CompositionError::MappingLengthsDiffer)
            } else if exists|i: int|
                0 <= i < terrain.len() && terrain[i].region_id != pair_logical_id(p, i) {
                Err(CompositionError::MappingOrder)
            } else if p.global_config is Some && exists|i: int|
                0 <= i < terrain.len() && terrain[i].global_region != Some(
                    addressed_at(p.global_config->0, i).global_region,
                ) {
                Err(CompositionError::SignedOrder)
            } else {
                Ok(())
            }
        },
    }
}

impl Renderer {
    /// Checks the staged halves against the pending pair, as `staged_check`
    /// describes: each staged report must be the pair's, and once both
    /// halves are staged the terrain mapping must follow the window's
    /// logical (and, for a global window, signed) order.
    #[verifier::loop_isolation(false)]
    pub fn validate_staged_pair(&self) -> (r: Result<(), CompositionError>)
        requires
            self.wf(),
        ensures
            r == staged_check(*self),
    {
        let pending = match &self.composition.pending {
            Some(pending) => pending,
            None => return Ok(()),
        };
        if let Some(staged) = &self.async_resident_renderer.staged {
            let report = &staged.report;
            if !(report.transaction_id == pending.instance_transaction_id && report.config
                == pending.config && same_optional_global(&report.global_config, &pending.global_config)
                && same_optional_object_source(
                &report.object_source_namespace,
                &pending.object_source_namespace,
            ) && same_optional_object_source(
                &report.object_stable_seed_namespace,
                &pending.object_stable_seed_namespace,
            )) {
                return Err(CompositionError::StagedInstanceMismatch);
            }
        }
        if let Some(staged) = &self.terrain_renderer.staged {
            let report = &staged.report;
            if !(report.transaction_id == pending.terrain_transaction_id && report.config
                == pending.config && same_optional_global(&report.global_config, &pending.global_config)
                && same_optional_terrain_source(&report.source_namespace, &pending.terrain_source_namespace)) {
                return Err(CompositionError::StagedTerrainMismatch);
            }
        }
        if !(pending.terrain == HalfState::Staged && pending.instance == HalfState::Staged) {
            return Ok(());
        }
        let regions = match addressed(pending.global_config) {
            Ok(regions) => regions,
            Err(e) => return Err(CompositionError::Config(e)),
        };
        let expected = match &regions {
            Some(v) => local_ids(Some(v.as_slice()), pending.config),
            None => local_ids(None, pending.config),
        };
        let expected = match expected {
            Ok(ids) => ids,
            Err(e) => {
                assert(regions is None);
                assert(pending.global_config is None);
                assert(pair_window_len(*pending) > ACTIVE_REGION_CAPACITY);
                return Err(CompositionError::Config(e));
            },
        };
        let terrain = match &self.terrain_renderer.staged {
            Some(staged) => &staged.assignments,
            None => return Err(CompositionError::StagedMappingAbsent),
        };
        let instances = match &self.async_resident_renderer.staged {
            Some(staged) => &staged.active_slots,
            None => return Err(CompositionError::StagedMappingAbsent),
        };
        if !(terrain.len() == expected.len() && instances.len() == expected.len()) {
            return Err(CompositionError::MappingLengthsDiffer);
        }
        let mut i: usize = 0;
        while i < terrain.len()
            invariant
                terrain@.len() == expected@.len(),
                i <= terrain@.len(),
                forall|k: int| 0 <= k < expected@.len() ==> expected@[k] == pair_logical_id(*pending, k),
                forall|k: int| 0 <= k < i ==> terrain@[k].region_id == pair_logical_id(*pending, k),
            decreases terrain@.len() - i,
        {
            if terrain[i].region_id != expected[i] {
                assert(terrain@[i as int].region_id != pair_logical_id(*pending, i as int));
                return Err(CompositionError::MappingOrder);
            }
            i += 1;
        }
        if let Some(regions) = &regions {
            let mut i: usize = 0;
            while i < terrain.len()
                invariant
                    pending.global_config is Some,
                    terrain@.len() == regions@.len(),
                    forall|k: int| 0 <= k < terrain@.len() ==> terrain@[k].region_id == pair_logical_id(*pending, k),
                    i <= terrain@.len(),
                    forall|k: int|
                        0 <= k < regions@.len() ==> regions@[k] == addressed_at(pending.global_config->0, k),
                    forall|k: int|
                        0 <= k < i ==> terrain@[k].global_region == Some(
                            addressed_at(pending.global_config->0, k).global_region,
                        ),
                decreases terrain@.len() - i,
            {
                let assignment = terrain[i];
                let region = regions[i];
                let same_global = match assignment.global_region {
                    Some(g) => g == region.global_region,
                    None => false,
                };
                if !(same_global && assignment.region_id == region.local_region_id) {
                    assert(region == addressed_at(pending.global_config->0, i as int));
                    assert(assignment.region_id == pair_logical_id(*pending, i as int));
                    assert(pair_logical_id(*pending, i as int) == addressed_at(pending.global_config->0, i as int).local_region_id);
                    assert(assignment.region_id == region.local_region_id);
                    assert(terrain@[i as int].global_region != Some(
                        addressed_at(pending.global_config->0, i as int).global_region,
                    ));
                    return Err(CompositionError::SignedOrder);
                }
                i += 1;
            }
        }
        Ok(())
    }
}

/// What a rollback discarded and whether it closed the pair.
#[derive(Debug)]
pub struct RollbackOutcome {
    /// The object half's staged report, when it was staged and discarded.
    pub discarded_instance: Option<InstanceStagedReport>,
    /// The terrain half's staged report, when it was staged and discarded.
    pub discarded_terrain: Option<TerrainStagedReport>,
    /// The pair was closed: no half was in flight any more.
    pub closed: bool,
    /// A closed prefetch pair, with the message to report for it.
    pub failed_prefetch: Option<String>,
}

/// The failure message of a pair, or the given default.
pub open spec fn message_or(failure: Option<String>, default: Seq<char>, message: String) -> bool {
    match failure {
        Some(m) => message == m,
        None => message@ == default,
    }
}

/// `new` and `outcome` are what rolling back `old` yields.
pub open spec fn rolled_back(old: Renderer, new: Renderer, outcome: RollbackOutcome) -> bool {
    &&& (old.composition.pending is None ==> new == old && outcome.discarded_instance
            is None && outcome.discarded_terrain is None && !outcome.closed && outcome.failed_prefetch is None)
    &&& (old.composition.pending is Some ==> {
            let p = old.composition.pending->0;
            let instance_staged = p.instance == HalfState::Staged;
            let terrain_staged = p.terrain == HalfState::Staged;
            let instance = if instance_staged {
                HalfState::Discarded
            } else {
                p.instance
            };
            let terrain = if terrain_staged {
                HalfState::Discarded
            } else {
                p.terrain
            };
            let still_flying = instance == HalfState::InFlight || terrain == HalfState::InFlight;
            &&& outcome.discarded_instance == if instance_staged {
                match old.async_resident_renderer.staged {
                    Some(s) => Some(s.report),
                    None => None,
                }
            } else {
                None
            }
            &&& outcome.discarded_terrain == if terrain_staged {
                match old.terrain_renderer.staged {
                    Some(s) => Some(s.report),
                    None => None,
                }
            } else {
                None
            }
            &&& new.async_resident_renderer == if instance_staged {
                InstanceControl { staged: None, ..old.async_resident_renderer }
            } else {
                old.async_resident_renderer
            }
            &&& new.terrain_renderer == if terrain_staged {
                TerrainControl { staged: None, ..old.terrain_renderer }
            } else {
                old.terrain_renderer
            }
            &&& new.meshlet_scene_enabled == old.meshlet_scene_enabled
            &&& new.skeletal_scene_enabled == old.skeletal_scene_enabled
            &&& outcome.closed == !still_flying
            &&& still_flying ==> outcome.failed_prefetch is None && new.composition == (
            CompositionCoordinator {
                pending: Some(PendingPair { instance, terrain, ..p }),
                ..old.composition
            })
            &&& !still_flying ==> {
                &&& new.composition.pending is None
                &&& new.composition.last_failure == Some(
                    FailedPair {
                        token: p.token,
                        config: p.config,
                        terrain_transaction_id: p.terrain_transaction_id,
                        instance_transaction_id: p.instance_transaction_id,
                        terrain,
                        instance,
                        message: p.failure,
                    },
                )
                &&& p.purpose == PairPurpose::Traversal ==> exists|m: String|
                    message_or(p.failure, "composition pair failed"@, m)
                        && new.composition.traversal == failed(
                        old.composition.traversal,
                        p.config,
                        m,
                    )
                &&& p.purpose != PairPurpose::Traversal ==> new.composition.traversal
                    == old.composition.traversal
                &&& p.purpose == PairPurpose::Prefetch ==> (outcome.failed_prefetch matches Some(m)
                    && message_or(p.failure, "composition prefetch failed"@, m))
                &&& p.purpose != PairPurpose::Prefetch ==> outcome.failed_prefetch is None
                &&& new.composition == (CompositionCoordinator {
                    pending: None,
                    last_failure: new.composition.last_failure,
                    traversal: new.composition.traversal,
                    ..old.composition
                })
            }
        })
}

/// Rolls back a failed pending pair: each staged half is discarded; when
/// no half is still in flight the pair is closed, a traversal pair blocks
/// its window, and the pair becomes the last failure.
pub fn rollback_failed_pair(renderer: &mut Renderer) -> (r: RollbackOutcome)
    ensures
        rolled_back(*old(renderer), *final(renderer), r),
{
    let mut outcome = RollbackOutcome {
        discarded_instance: None,
        discarded_terrain: None,
        closed: false,
        failed_prefetch: None,
    };
    let pending = match renderer.composition.pending.as_mut() {
        Some(pending) => pending,
        None => return outcome,
    };
    if pending.instance == HalfState::Staged {
        outcome.discarded_instance = match renderer.async_resident_renderer.staged.take() {
            Some(staged) => Some(staged.report),
            None => None,
        };
        pending.instance = HalfState::Discarded;
    }
    if pending.terrain == HalfState::Staged {
        outcome.discarded_terrain = match renderer.terrain_renderer.staged.take() {
            Some(staged) => Some(staged.report),
            None => None,
        };
        pending.terrain = HalfState::Discarded;
    }
    if pending.instance == HalfState::InFlight || pending.terrain == HalfState::InFlight {
        return outcome;
    }
    let pending = match renderer.composition.pending.take() {
        Some(pending) => pending,
        None => return outcome,
    };
    outcome.closed = true;
    if pending.purpose == PairPurpose::Traversal {
        let message = match &pending.failure {
            Some(message) => message.clone(),
            None => String::from_str("composition pair failed"),
        };
        proof {
            reveal_strlit("composition pair failed");
        }
        assert(message_or(pending.failure, "composition pair failed"@, message));
        renderer.composition.traversal.mark_failed(pending.config, message);
    } else if pending.purpose == PairPurpose::Prefetch {
        let message = match &pending.failure {
            Some(message) => message.clone(),
            None => String::from_str("composition prefetch failed"),
        };
        proof {
            reveal_strlit("composition prefetch failed");
        }
        assert(message_or(pending.failure, "composition prefetch failed"@, message));
        outcome.failed_prefetch = Some(message);
    }
    renderer.composition.last_failure = Some(
        FailedPair {
            token: pending.token,
            config: pending.config,
            terrain_transaction_id: pending.terrain_transaction_id,
            instance_transaction_id: pending.instance_transaction_id,
            terrain: pending.terrain,
            instance: pending.instance,
            message: pending.failure,
        },
    );
    outcome
}

/// The bytes of the first `n` pairs of a mapping digest: each logical
/// region id followed by its slot, little-endian.
pub open spec fn mapping_bytes_upto(ids: Seq<u32>, slots: Seq<u32>, n: nat) -> Seq<u8>
    decreases n,
{
    if n == 0 {
        Seq::empty()
    } else {
        mapping_bytes_upto(ids, slots, (n - 1) as nat) + le_u32(ids[n - 1]) + le_u32(slots[n - 1])
    }
}

pub open spec fn min_len(a: nat, b: nat) -> nat {
    if a <= b {
        a
    } else {
        b
    }
}

/// The bytes that a mapping digest covers, up to the shorter list.
pub open spec fn mapping_bytes(ids: Seq<u32>, slots: Seq<u32>) -> Seq<u8> {
    mapping_bytes_upto(ids, slots, min_len(ids.len(), slots.len()))
}

/// The digest of a slot mapping in logical order.
pub fn mapping_digest(ids: &Vec<u32>, slots: &Vec<u32>) -> (r: String)
    ensures
        r@ == sha256_hex(mapping_bytes(ids@, slots@)),
{
    let n = if ids.len() <= slots.len() {
        ids.len()
    } else {
        slots.len()
    };
    let mut bytes: Vec<u8> = Vec::new();
    let mut k: usize = 0;
    while k < n
        invariant
            n == min_len(ids@.len(), slots@.len()),
            k <= n,
            bytes@ == mapping_bytes_upto(ids@, slots@, k as nat),
        decreases n - k,
    {
        push_u32_le(&mut bytes, ids[k]);
        push_u32_le(&mut bytes, slots[k]);
        k += 1;
    }
    sha256_hex_of(&bytes)
}

/// Positions below `n` where two slot lists differ.
pub open spec fn divergence_upto(a: Seq<u32>, b: Seq<u32>, n: nat) -> nat
    decreases n,
{
    if n == 0 {
        0
    } else {
        divergence_upto(a, b, (n - 1) as nat) + if a[n - 1] != b[n - 1] {
            1nat
        } else {
            0nat
        }
    }
}

/// The positions before `n` where `a` and `b` hold different slots.
pub open spec fn differing_positions(a: Seq<u32>, b: Seq<u32>, n: nat) -> Set<int> {
    Set::new(|k: int| 0 <= k < n && a[k] != b[k])
}

/// The divergence of two slot lists over their first `n` positions is the
/// number of positions where they differ: none exactly when they agree
/// everywhere, and `n` when they differ everywhere.
pub proof fn law_divergence_counts_differing_positions(a: Seq<u32>, b: Seq<u32>, n: nat)
    ensures
        differing_positions(a, b, n).finite(),
        divergence_upto(a, b, n) == differing_positions(a, b, n).len(),
        divergence_upto(a, b, n) <= n,
        divergence_upto(a, b, n) == 0 <==> forall|k: int| 0 <= k < n ==> a[k] == b[k],
        (forall|k: int| 0 <= k < n ==> a[k] != b[k]) ==> divergence_upto(a, b, n) == n,
    decreases n,
{
    if n == 0 {
        assert(differing_positions(a, b, 0) =~= Set::<int>::empty());
    } else {
        let m = (n - 1) as nat;
        law_divergence_counts_differing_positions(a, b, m);
        let before = differing_positions(a, b, m);
        if a[m as int] != b[m as int] {
            assert(differing_positions(a, b, n) =~= before.insert(m as int));
            assert(!before.contains(m as int));
        } else {
            assert(differing_positions(a, b, n) =~= before);
        }
        if divergence_upto(a, b, n) == 0 {
            assert forall|k: int| 0 <= k < n implies a[k] == b[k] by {
                if k < m {
                } else {
                    assert(k == m);
                }
            }
        }
    }
}

/// A published pair's slot divergence is the number of positions, within
/// both mappings, where the object half and the terrain half put the region
/// in different slots; it is zero exactly when they agree on every slot.
pub proof fn law_published_divergence_counts_slot_disagreements(
    pp: PublishedPair,
    p: PendingPair,
    n: u64,
    instance_slots: Seq<u32>,
    terrain: Seq<TerrainAssignment>,
)
    requires
        published_from(pp, p, n, instance_slots, terrain),
    ensures
        ({
            let terrain_slots = Seq::new(terrain.len(), |k: int| terrain[k].slot);
            let m = min_len(instance_slots.len(), terrain.len());
            &&& pp.physical_slot_divergence_count == differing_positions(instance_slots, terrain_slots, m).len()
            &&& pp.physical_slot_divergence_count == 0 <==> forall|k: int|
                0 <= k < m ==> instance_slots[k] == terrain[k].slot
        }),
{
    let terrain_slots = Seq::new(terrain.len(), |k: int| terrain[k].slot);
    let m = min_len(instance_slots.len(), terrain.len());
    law_divergence_counts_differing_positions(instance_slots, terrain_slots, m);
    if pp.physical_slot_divergence_count == 0 {
        assert forall|k: int| 0 <= k < m implies instance_slots[k] == terrain[k].slot by {
            assert(instance_slots[k] == terrain_slots[k]);
        }
    }
    if forall|k: int| 0 <= k < m ==> instance_slots[k] == terrain[k].slot {
        assert forall|k: int| 0 <= k < m implies instance_slots[k] == terrain_slots[k] by {
            assert(instance_slots[k] == terrain[k].slot);
        }
    }
}

/// Number of positions where the object and terrain halves put a region in
/// different physical slots.
pub fn divergence_count(a: &Vec<u32>, b: &Vec<u32>) -> (r: usize)
    ensures
        r == divergence_upto(a@, b@, min_len(a@.len(), b@.len())),
        r == differing_positions(a@, b@, min_len(a@.len(), b@.len())).len(),
        r == 0 <==> forall|k: int| 0 <= k < min_len(a@.len(), b@.len()) ==> a@[k] == b@[k],
        r <= min_len(a@.len(), b@.len()),
{
    proof {
        law_divergence_counts_differing_positions(a@, b@, min_len(a@.len(), b@.len()));
    }
    let n = if a.len() <= b.len() {
        a.len()
    } else {
        b.len()
    };
    let mut count: usize = 0;
    let mut k: usize = 0;
    while k < n
        invariant
            n == min_len(a@.len(), b@.len()),
            k <= n,
            count == divergence_upto(a@, b@, k as nat),
            count <= k,
        decreases n - k,
    {
        if a[k] != b[k] {
            count += 1;
        }
        k += 1;
    }
    count
}

/// The coordinator after a terrain failure (if any) is recorded and the
/// halves that staged this frame are marked staged.
pub open spec fn marked(
    c: CompositionCoordinator,
    terrain_failure: Option<(u64, String)>,
    instance_staged: bool,
    terrain_staged: bool,
) -> CompositionCoordinator {
    let c1 = match terrain_failure {
        Some((transaction_id, message)) => half_failed(c, true, transaction_id, message),
        None => c,
    };
    match c1.pending {
        Some(p) => CompositionCoordinator {
            pending: Some(
                PendingPair {
                    instance: if instance_staged {
                        HalfState::Staged
                    } else {
                        p.instance
                    },
                    terrain: if terrain_staged {
                        HalfState::Staged
                    } else {
                        p.terrain
                    },
                    ..p
                },
            ),
            ..c1
        },
        None => c1,
    }
}

/// What one publication poll did.
#[derive(Debug)]
pub enum PublicationOutcome {
    /// No pair is pending.
    Idle,
    /// The pair still waits for a half.
    Waiting,
    /// The pair had failed and was rolled back.
    RolledBack(RollbackOutcome),
    /// A prefetch pair was prepared and its stages discarded.
    PrefetchCompleted {
        token: u64,
        config: LoadConfig,
        global_config: Option<GlobalRegionConfig>,
        instance: InstanceStagedReport,
        terrain: TerrainStagedReport,
    },
    /// Both halves were committed and published together.
    Published { instance: InstanceStagedReport, terrain: TerrainStagedReport },
}

/// The logical region ids of the pending pair's window.
pub open spec fn pair_logical_ids(p: PendingPair) -> Seq<u32> {
    Seq::new(pair_window_len(p), |k: int| pair_logical_id(p, k) as u32)
}

/// The published pair's evidence is that of the pending pair `p` whose
/// halves committed with these slots, as the `n`-th publication.
pub open spec fn published_from(
    pp: PublishedPair,
    p: PendingPair,
    n: u64,
    instance_slots: Seq<u32>,
    terrain: Seq<TerrainAssignment>,
) -> bool {
    let ids = pair_logical_ids(p);
    let terrain_slots = Seq::new(terrain.len(), |k: int| terrain[k].slot);
    &&& pp.token == p.token
    &&& pp.config == p.config
    &&& pp.global_config == p.global_config
    &&& pp.terrain_source_namespace == p.terrain_source_namespace
    &&& pp.object_source_namespace == p.object_source_namespace
    &&& pp.object_stable_seed_namespace == (if p.object_stable_seed_namespace == p.object_source_namespace {
        None
    } else {
        p.object_stable_seed_namespace
    })
    &&& pp.fixture == p.fixture
    &&& pp.terrain_transaction_id == p.terrain_transaction_id
    &&& pp.instance_transaction_id == p.instance_transaction_id
    &&& pp.publication_count == n
    &&& pp.physical_slot_divergence_count == divergence_upto(
        instance_slots,
        terrain_slots,
        min_len(instance_slots.len(), terrain_slots.len()),
    )
    &&& pp.logical_region_ids@ == ids
    &&& pp.instance_slots@ == instance_slots
    &&& pp.terrain_slots@ == terrain_slots
    &&& pp.instance_mapping_sha256@ == sha256_hex(mapping_bytes(ids, instance_slots))
    &&& pp.terrain_mapping_sha256@ == sha256_hex(mapping_bytes(ids, terrain_slots))
    &&& match p.global_config {
        Some(g) => {
            let regions = Seq::new(pair_window_len(p), |k: int| addressed_at(g, k));
            &&& pp.global_regions matches Some(v) && v@ == Seq::new(
                pair_window_len(p),
                |k: int| addressed_at(g, k).global_region,
            )
            &&& pp.global_mapping_sha256 matches Some(d) && d@ == sha256_hex(evidence_bytes(regions))
        },
        None => pp.global_regions is None && pp.global_mapping_sha256 is None,
    }
    &&& pp.camera_driven == (p.purpose != PairPurpose::Manual)
}

/// The snapshot that committing a staged object half publishes; the stable
/// seed namespace defaults to the source namespace.
pub open spec fn instance_snapshot(report: InstanceStagedReport) -> InstanceSnapshot {
    InstanceSnapshot {
        config: report.config,
        global_config: report.global_config,
        object_source_namespace: report.object_source_namespace,
        object_stable_seed_namespace: or_else(
            report.object_stable_seed_namespace,
            report.object_source_namespace,
        ),
    }
}

/// The snapshot that committing a staged terrain half publishes.
pub open spec fn terrain_snapshot(report: TerrainStagedReport) -> TerrainSnapshot {
    TerrainSnapshot {
        config: report.config,
        global_config: report.global_config,
        source_namespace: report.source_namespace,
    }
}

/// The renderer with its coordinator after this frame's half outcomes.
pub open spec fn after_marks(
    r: Renderer,
    terrain_failure: Option<(u64, String)>,
    instance_staged: bool,
    terrain_staged: bool,
) -> Renderer {
    Renderer {
        composition: marked(r.composition, terrain_failure, instance_staged, terrain_staged),
        ..r
    }
}

/// One publication poll takes `a` to `b` with result `r`, given this
/// frame's terrain failure and staged halves: see
/// `Renderer::poll_composition_publication`.
pub open spec fn polls_publication(
    a: Renderer,
    terrain_failure: Option<(u64, String)>,
    instance_staged: bool,
    terrain_staged: bool,
    b: Renderer,
    r: Result<PublicationOutcome, CompositionError>,
) -> bool {
    &&& (r matches Ok(PublicationOutcome::Published { .. }) ==> (b.composition.published
        matches Some(pp) && snapshots_match(b, pp)))
    &&& (a.composition.pending is None ==> (r matches Ok(PublicationOutcome::Idle) && b
        == a))
    &&& (a.composition.pending is Some ==> {
        let s1 = after_marks(a, terrain_failure, instance_staged, terrain_staged);
        let p = s1.composition.pending->0;
        if staged_check(s1) is Err {
            r == Err::<PublicationOutcome, CompositionError>(staged_check(s1)->Err_0) && b == s1
        } else if p.failure is Some {
            (r matches Ok(PublicationOutcome::RolledBack(o)) && rolled_back(s1, b, o))
        } else if !(p.terrain == HalfState::Staged && p.instance == HalfState::Staged) {
            (r matches Ok(PublicationOutcome::Waiting) && b == s1)
        } else if p.purpose == PairPurpose::Prefetch {
            &&& (r matches Ok(PublicationOutcome::PrefetchCompleted { token, config, global_config, instance, terrain })
                && token == p.token && config == p.config && global_config == p.global_config
                && instance == s1.async_resident_renderer.staged->0.report && terrain
                == s1.terrain_renderer.staged->0.report)
            &&& b == (Renderer {
                composition: CompositionCoordinator {
                    pending: None,
                    last_failure: None,
                    ..s1.composition
                },
                async_resident_renderer: InstanceControl {
                    staged: None,
                    ..s1.async_resident_renderer
                },
                terrain_renderer: TerrainControl { staged: None, ..s1.terrain_renderer },
                ..s1
            })
        } else {
            let instance = s1.async_resident_renderer.staged->0;
            let terrain = s1.terrain_renderer.staged->0;
            let n = (s1.composition.publication_count + 1) as u64;
            &&& (r matches Ok(PublicationOutcome::Published { instance: ir, terrain: tr })
                && ir == instance.report && tr == terrain.report)
            &&& (b.composition.published matches Some(pp) && published_from(
                pp,
                p,
                n,
                instance.active_slots@,
                terrain.assignments@,
            ))
            &&& b.composition == (CompositionCoordinator {
                pending: None,
                publication_count: n,
                published: b.composition.published,
                traversal: if p.purpose == PairPurpose::Traversal {
                    published_marked(s1.composition.traversal, p.token, p.config)
                } else {
                    s1.composition.traversal
                },
                last_failure: None,
                ..s1.composition
            })
            &&& b.async_resident_renderer == (InstanceControl {
                published: Some(instance_snapshot(instance.report)),
                staged: None,
            })
            &&& b.terrain_renderer == (TerrainControl {
                published: Some(terrain_snapshot(terrain.report)),
                staged: None,
                ..s1.terrain_renderer
            })
            &&& b.meshlet_scene_enabled == s1.meshlet_scene_enabled
            &&& b.skeletal_scene_enabled == s1.skeletal_scene_enabled
        }
    })
}

/// A pending pair other than a prefetch is published atomically: a poll
/// that succeeds either publishes it whole (both halves committed at once,
/// the pair recorded with its token, window and both transactions, and the
/// publication count advanced by one) or leaves the published pair, the
/// count and both renderers' published snapshots as they were.
pub proof fn law_publication_is_atomic(
    a: Renderer,
    terrain_failure: Option<(u64, String)>,
    instance_staged: bool,
    terrain_staged: bool,
    b: Renderer,
    r: Result<PublicationOutcome, CompositionError>,
)
    requires
        polls_publication(a, terrain_failure, instance_staged, terrain_staged, b, r),
        a.composition.publication_count < u64::MAX,
        r is Ok,
        a.composition.pending matches Some(p) && p.purpose != PairPurpose::Prefetch,
    ensures
        ({
            let p = a.composition.pending->0;
            &&& r matches Ok(PublicationOutcome::Published { .. })
            &&& b.composition.pending is None
            &&& b.composition.publication_count == a.composition.publication_count + 1
            &&& b.composition.published matches Some(pp) && pp.token == p.token && pp.config == p.config
                && pp.terrain_transaction_id == p.terrain_transaction_id && pp.instance_transaction_id
                == p.instance_transaction_id && pp.publication_count == b.composition.publication_count
            &&& b.async_resident_renderer.staged is None && b.async_resident_renderer.published is Some
            &&& b.terrain_renderer.staged is None && b.terrain_renderer.published is Some
        }) || ({
            &&& b.composition.published == a.composition.published
            &&& b.composition.publication_count == a.composition.publication_count
            &&& b.async_resident_renderer.published == a.async_resident_renderer.published
            &&& b.terrain_renderer.published == a.terrain_renderer.published
        }),
{
    let p0 = a.composition.pending->0;
    let s1 = after_marks(a, terrain_failure, instance_staged, terrain_staged);
    let c1 = match terrain_failure {
        Some((transaction_id, message)) => crate::composition::state::half_failed(
            a.composition,
            true,
            transaction_id,
            message,
        ),
        None => a.composition,
    };
    assert(c1.pending is Some && c1.published == a.composition.published && c1.publication_count
        == a.composition.publication_count);
    let p1 = s1.composition.pending->0;
    assert(s1.composition.pending is Some);
    assert(p1.token == p0.token && p1.config == p0.config && p1.purpose == p0.purpose
        && p1.terrain_transaction_id == p0.terrain_transaction_id && p1.instance_transaction_id
        == p0.instance_transaction_id);
    assert(s1.composition.published == a.composition.published);
    assert(s1.composition.publication_count == a.composition.publication_count);
    assert(s1.async_resident_renderer == a.async_resident_renderer);
    assert(s1.terrain_renderer == a.terrain_renderer);
    if staged_check(s1) is Err {
    } else if p1.failure is Some {
        let o = r->Ok_0->RolledBack_0;
        assert(rolled_back(s1, b, o));
        assert(b.composition.published == s1.composition.published);
        assert(b.composition.publication_count == s1.composition.publication_count);
        assert(b.async_resident_renderer.published == s1.async_resident_renderer.published);
        assert(b.terrain_renderer.published == s1.terrain_renderer.published);
    } else if !(p1.terrain == HalfState::Staged && p1.instance == HalfState::Staged) {
        assert(b == s1);
    } else {
        let n = (s1.composition.publication_count + 1) as u64;
        let pp = b.composition.published->0;
        assert(b.composition.published is Some);
        assert(pp.token == p1.token && pp.publication_count == n);
        assert(b.composition.publication_count == n);
        assert(b.composition.pending is None);
        assert(r matches Ok(PublicationOutcome::Published { .. }));
    }
}

impl Renderer {
    /// One publication poll of the pending pair. A terrain failure reported
    /// this frame fails the terrain half, and the halves that staged this
    /// frame are marked staged. Then the staged halves are validated
    /// (refused as `staged_check` says); a failed pair is rolled back; a
    /// pair with a half not yet staged waits; a prefetch pair discards both
    /// stages; any other pair commits both halves and is published at once,
    /// with the evidence of its mappings.
    pub fn poll_composition_publication(
        &mut self,
        terrain_failure: Option<(u64, String)>,
        instance_staged: bool,
        terrain_staged: bool,
    ) -> (r: Result<PublicationOutcome, CompositionError>)
        requires
            old(self).wf(),
            old(self).composition.publication_count < u64::MAX,
            old(self).composition.traversal.automatic_publication_count < u64::MAX,
        ensures
            polls_publication(*old(self), terrain_failure, instance_staged, terrain_staged, *final(self), r),
    {
        if self.composition.pending.is_none() {
            return Ok(PublicationOutcome::Idle);
        }
        self.mark_half_outcomes(terrain_failure, instance_staged, terrain_staged);
        match self.validate_staged_pair() {
            Ok(()) => {},
            Err(e) => return Err(e),
        }
        let (failed, ready) = match &self.composition.pending {
            Some(p) => (p.failure.is_some(), p.terrain == HalfState::Staged && p.instance == HalfState::Staged),
            None => (false, false),
        };
        if failed {
            let outcome = rollback_failed_pair(self);
            return Ok(PublicationOutcome::RolledBack(outcome));
        }
        if !ready {
            return Ok(PublicationOutcome::Waiting);
        }
        let pending = match self.composition.pending.take() {
            Some(p) => p,
            None => return Ok(PublicationOutcome::Waiting),
        };
        if pending.purpose.prefetch() {
            self.finish_prefetch(pending)
        } else {
            self.publish_pair(pending)
        }
    }

    /// Records this frame's half outcomes on the pending pair.
    fn mark_half_outcomes(
        &mut self,
        terrain_failure: Option<(u64, String)>,
        instance_staged: bool,
        terrain_staged: bool,
    )
        ensures
            *final(self) == after_marks(*old(self), terrain_failure, instance_staged, terrain_staged),
    {
        if let Some((transaction_id, message)) = terrain_failure {
            self.composition.fail_half(true, transaction_id, message);
        }
        if let Some(pending) = self.composition.pending.as_mut() {
            if instance_staged {
                pending.instance = HalfState::Staged;
            }
            if terrain_staged {
                pending.terrain = HalfState::Staged;
            }
        }
    }

    /// Discards both stages of a prepared prefetch pair.
    fn finish_prefetch(&mut self, pending: PendingPair) -> (r: Result<PublicationOutcome, CompositionError>)
        requires
            old(self).async_resident_renderer.staged matches Some(s) && instance_report_matches(s.report, pending),
            old(self).terrain_renderer.staged matches Some(s) && terrain_report_matches(s.report, pending),
        ensures
            r matches Ok(PublicationOutcome::PrefetchCompleted { token, config, global_config, instance, terrain })
                && token == pending.token && config == pending.config && global_config == pending.global_config
                && instance == old(self).async_resident_renderer.staged->0.report && terrain
                == old(self).terrain_renderer.staged->0.report,
            *final(self) == (Renderer {
                composition: CompositionCoordinator { last_failure: None, ..old(self).composition },
                async_resident_renderer: InstanceControl { staged: None, ..old(self).async_resident_renderer },
                terrain_renderer: TerrainControl { staged: None, ..old(self).terrain_renderer },
                ..*old(self)
            }),
    {
        let instance = match self.async_resident_renderer.staged.take() {
            Some(staged) => staged.report,
            None => return Err(CompositionError::StagedMappingAbsent),
        };
        let terrain = match self.terrain_renderer.staged.take() {
            Some(staged) => staged.report,
            None => return Err(CompositionError::StagedMappingAbsent),
        };
        if !(instance.transaction_id == pending.instance_transaction_id
            && terrain.transaction_id == pending.terrain_transaction_id) {
            return Err(CompositionError::WrongTransactions);
        }
        self.composition.last_failure = None;
        Ok(
            PublicationOutcome::PrefetchCompleted {
                token: pending.token,
                config: pending.config,
                global_config: pending.global_config,
                instance,
                terrain,
            },
        )
    }

    /// Commits both staged halves and publishes the pair with its evidence.
    fn publish_pair(&mut self, pending: PendingPair) -> (r: Result<PublicationOutcome, CompositionError>)
        requires
            pending.config.wf(),
            pending.global_config matches Some(g) ==> g.wf(),
            pair_window_len(pending) <= ACTIVE_REGION_CAPACITY,
            old(self).async_resident_renderer.staged matches Some(s) && instance_report_matches(s.report, pending),
            old(self).terrain_renderer.staged matches Some(s) && terrain_report_matches(s.report, pending),
            old(self).composition.publication_count < u64::MAX,
            old(self).composition.traversal.automatic_publication_count < u64::MAX,
        ensures
            ({
                let instance = old(self).async_resident_renderer.staged->0;
                let terrain = old(self).terrain_renderer.staged->0;
                let n = (old(self).composition.publication_count + 1) as u64;
                &&& (r matches Ok(PublicationOutcome::Published { instance: ir, terrain: tr })
                    && ir == instance.report && tr == terrain.report)
                &&& (final(self).composition.published matches Some(pp) && published_from(
                    pp,
                    pending,
                    n,
                    instance.active_slots@,
                    terrain.assignments@,
                ))
                &&& final(self).composition == (CompositionCoordinator {
                    publication_count: n,
                    published: final(self).composition.published,
                    traversal: if pending.purpose == PairPurpose::Traversal {
                        published_marked(old(self).composition.traversal, pending.token, pending.config)
                    } else {
                        old(self).composition.traversal
                    },
                    last_failure: None,
                    ..old(self).composition
                })
                &&& final(self).async_resident_renderer == (InstanceControl {
                    published: Some(instance_snapshot(instance.report)),
                    staged: None,
                })
                &&& final(self).terrain_renderer == (TerrainControl {
                    published: Some(terrain_snapshot(terrain.report)),
                    staged: None,
                    ..old(self).terrain_renderer
                })
                &&& final(self).meshlet_scene_enabled == old(self).meshlet_scene_enabled
                &&& final(self).skeletal_scene_enabled == old(self).skeletal_scene_enabled
            }),
    {
        let instance_slots = match &self.async_resident_renderer.staged {
            Some(staged) => copy_u32s(&staged.active_slots),
            None => return Err(CompositionError::StagedMappingAbsent),
        };
        let terrain_slots = match &self.terrain_renderer.staged {
            Some(staged) => slots_of(&staged.assignments),
            None => return Err(CompositionError::StagedMappingAbsent),
        };
        let divergence = divergence_count(&instance_slots, &terrain_slots);
        let regions = match addressed(pending.global_config) {
            Ok(regions) => regions,
            Err(e) => return Err(CompositionError::Config(e)),
        };
        let logical = match &regions {
            Some(v) => local_ids(Some(v.as_slice()), pending.config),
            None => local_ids(None, pending.config),
        };
        let logical = match logical {
            Ok(ids) => ids,
            Err(e) => return Err(CompositionError::Config(e)),
        };
        assert(logical@ =~= pair_logical_ids(pending));
        proof {
            if let Some(g) = pending.global_config {
                let v = regions->0;
                assert(v@ =~= Seq::new(pair_window_len(pending), |k: int| addressed_at(g, k)));
            }
        }
        let instance_mapping_sha256 = mapping_digest(&logical, &instance_slots);
        let terrain_mapping_sha256 = mapping_digest(&logical, &terrain_slots);
        let (global_regions, global_mapping_sha256) = match &regions {
            Some(v) => evidence(Some(v.as_slice())),
            None => evidence(None),
        };
        proof {
            if let Some(g) = pending.global_config {
                let gv = global_regions->0;
                assert(gv@ =~= Seq::new(pair_window_len(pending), |k: int| addressed_at(g, k).global_region));
            }
        }
        let instance = match self.async_resident_renderer.staged.take() {
            Some(staged) => staged.report,
            None => return Err(CompositionError::StagedMappingAbsent),
        };
        let terrain = match self.terrain_renderer.staged.take() {
            Some(staged) => staged.report,
            None => return Err(CompositionError::StagedMappingAbsent),
        };
        if !(instance.transaction_id == pending.instance_transaction_id
            && terrain.transaction_id == pending.terrain_transaction_id) {
            return Err(CompositionError::WrongTransactions);
        }
        self.async_resident_renderer.published = Some(
            InstanceSnapshot {
                config: instance.config,
                global_config: instance.global_config,
                object_source_namespace: instance.object_source_namespace,
                object_stable_seed_namespace: match instance.object_stable_seed_namespace {
                    Some(v) => Some(v),
                    None => instance.object_source_namespace,
                },
            },
        );
        self.terrain_renderer.published = Some(
            TerrainSnapshot {
                config: terrain.config,
                global_config: terrain.global_config,
                source_namespace: terrain.source_namespace,
            },
        );
        let stable_seed_namespace = if crate::renderer::same_optional_object_source(
            &pending.object_stable_seed_namespace,
            &pending.object_source_namespace,
        ) {
            None
        } else {
            pending.object_stable_seed_namespace
        };
        self.composition.publication_count = self.composition.publication_count + 1;
        self.composition.published = Some(
            PublishedPair {
                token: pending.token,
                config: pending.config,
                global_config: pending.global_config,
                terrain_source_namespace: pending.terrain_source_namespace,
                object_source_namespace: pending.object_source_namespace,
                object_stable_seed_namespace: stable_seed_namespace,
                fixture: pending.fixture,
                terrain_transaction_id: pending.terrain_transaction_id,
                instance_transaction_id: pending.instance_transaction_id,
                publication_count: self.composition.publication_count,
                physical_slot_divergence_count: divergence,
                logical_region_ids: logical,
                instance_slots,
                terrain_slots,
                instance_mapping_sha256,
                terrain_mapping_sha256,
                global_regions,
                global_mapping_sha256,
                camera_driven: pending.purpose.camera_driven(),
            },
        );
        if pending.purpose == PairPurpose::Traversal {
            self.composition.traversal.mark_published(pending.token, pending.config);
        }
        self.composition.last_failure = None;
        Ok(PublicationOutcome::Published { instance, terrain })
    }
}

fn copy_u32s(values: &Vec<u32>) -> (r: Vec<u32>)
    ensures
        r@ == values@,
{
    let mut copy: Vec<u32> = Vec::new();
    let mut k: usize = 0;
    while k < values.len()
        invariant
            k <= values@.len(),
            copy@ =~= values@.take(k as int),
        decreases values@.len() - k,
    {
        copy.push(values[k]);
        k += 1;
    }
    assert(copy@ =~= values@);
    copy
}

/// The slots of a terrain mapping, in its order: what the skeletal pass of
/// a composed frame grounds its objects on.
pub fn slots_of(assignments: &Vec<TerrainAssignment>) -> (r: Vec<u32>)
    ensures
        r@ == Seq::new(assignments@.len(), |k: int| assignments@[k].slot),
{
    let mut slots: Vec<u32> = Vec::new();
    let mut k: usize = 0;
    while k < assignments.len()
        invariant
            k <= assignments@.len(),
            slots@ =~= Seq::new(assignments@.len(), |j: int| assignments@[j].slot).take(k as int),
        decreases assignments@.len() - k,
    {
        slots.push(assignments[k].slot);
        k += 1;
    }
    assert(slots@ =~= Seq::new(assignments@.len(), |j: int| assignments@[j].slot));
    slots
}

} // verus!
