use vstd::prelude::*;
use std::collections::BTreeSet;

use crate::address::GlobalTerrainConfig;
use crate::load::{ConfigError, LoadConfig};
use crate::world::RegionCoord;

verus! {

broadcast use vstd::laws_cmp::group_laws_cmp;

/// Physical terrain slots that the cache manages.
pub const TERRAIN_CACHE_CAPACITY: usize = 50;

/// Most regions that one plan may make active.
pub const TERRAIN_ACTIVE_CAPACITY: usize = 25;

/// Bytes uploaded per region tile: 33 x 33 height samples of two bytes.
pub const TERRAIN_PAYLOAD_BYTES: usize = 2178;

/// Identity of a canonical terrain source.
#[derive(Clone, Copy, Debug, PartialEq, Eq)]
pub struct TerrainSourceNamespace(pub [u8; 32]);

/// Byte-wise comparison of two source namespaces.
pub fn same_namespace(a: &TerrainSourceNamespace, b: &TerrainSourceNamespace) -> (r: bool)
    ensures
        r == (*a == *b),
{
    let mut i: usize = 0;
    while i < 32
        invariant
            0 <= i <= 32,
            forall|j: int| 0 <= j < i ==> a.0[j] == b.0[j],
        decreases 32 - i,
    {
        if a.0[i] != b.0[i] {
            return false;
        }
        i += 1;
    }
    assert(a.0 =~= b.0);
    true
}

/// Comparison of two optional region coordinates.
pub fn same_optional_region(a: &Option<RegionCoord>, b: &Option<RegionCoord>) -> (r: bool)
    ensures
        r == (*a == *b),
{
    match (a, b) {
        (Some(x), Some(y)) => x.x == y.x && x.z == y.z,
        (None, None) => true,
        _ => false,
    }
}

/// What a cached tile is: an aliased local region (optionally tied to a
/// global region) or a canonical global region of a named source.
#[allow(inconsistent_fields)]
#[derive(Clone, Copy, Debug, PartialEq, Eq)]
pub enum CacheKey {
    Aliased { global_region: Option<RegionCoord>, local_region_id: u32 },
    Canonical { source_namespace: TerrainSourceNamespace, global_region: RegionCoord },
}

/// Comparison of two cache keys.
pub fn same_key(a: &CacheKey, b: &CacheKey) -> (r: bool)
    ensures
        r == (*a == *b),
{
    match (a, b) {
        (
            CacheKey::Aliased { global_region: ga, local_region_id: la },
            CacheKey::Aliased { global_region: gb, local_region_id: lb },
        ) => *la == *lb && same_optional_region(ga, gb),
        (
            CacheKey::Canonical { source_namespace: na, global_region: ga },
            CacheKey::Canonical { source_namespace: nb, global_region: gb },
        ) => ga.x == gb.x && ga.z == gb.z && same_namespace(na, nb),
        _ => false,
    }
}

/// A resident tile and the clock value at which it was last wanted.
#[derive(Clone, Copy, Debug, PartialEq, Eq)]
pub struct CacheEntry {
    pub key: CacheKey,
    pub last_used: u64,
}

/// Where one active region's tile lives.
#[derive(Clone, Copy, Debug, PartialEq, Eq)]
pub struct TerrainAssignment {
    pub slot: u32,
    pub region_id: u32,
    pub global_region: Option<RegionCoord>,
}

/// A region that a plan wants resident, with the assignment it will report.
#[derive(Clone, Copy, Debug, PartialEq, Eq)]
pub struct DesiredRegion {
    pub key: CacheKey,
    pub assignment: TerrainAssignment,
}

/// The tallies that a plan reports.
#[derive(Clone, Copy, Debug, PartialEq, Eq)]
pub struct TerrainPlanCounts {
    pub retained_region_count: usize,
    pub uploaded_region_count: usize,
    pub evicted_region_count: usize,
    pub protected_region_count: usize,
    pub resident_region_count: usize,
    pub free_region_count: usize,
    pub payload_bytes: usize,
}

/// Why a plan was refused.
#[derive(Clone, Copy, Debug, PartialEq, Eq)]
pub enum PlanError {
    /// The configuration could not be expanded into regions.
    Config(ConfigError),
    /// More regions were wanted than one plan may make active.
    ActiveCapacityExceeded,
    /// Every slot is taken and none may be evicted.
    NoEvictionCandidate,
}

// ---------------------------------------------------------------------------
// The model of the slot table.

/// Slot `i` holds the tile of `key`.
pub open spec fn holds(slots: Seq<Option<CacheEntry>>, i: int, key: CacheKey) -> bool {
    &&& 0 <= i < slots.len()
    &&& slots[i] is Some
    &&& slots[i]->0.key == key
}

/// Some slot holds the tile of `key`.
pub open spec fn is_resident(slots: Seq<Option<CacheEntry>>, key: CacheKey) -> bool {
    exists|i: int| holds(slots, i, key)
}

/// The slot that holds `key`, when there is one.
pub open spec fn slot_of(slots: Seq<Option<CacheEntry>>, key: CacheKey) -> int {
    choose|i: int| holds(slots, i, key)
}

/// No two slots hold the same tile.
pub open spec fn distinct_keys(slots: Seq<Option<CacheEntry>>) -> bool {
    forall|i: int, j: int|
        0 <= i < slots.len() && 0 <= j < slots.len() && i != j && slots[i] is Some
            && slots[j] is Some ==> slots[i]->0.key != slots[j]->0.key
}

/// Some slot is empty.
pub open spec fn has_free(slots: Seq<Option<CacheEntry>>) -> bool {
    exists|i: int| 0 <= i < slots.len() && slots[i] is None
}

/// `i` is the lowest empty slot.
pub open spec fn is_first_free(slots: Seq<Option<CacheEntry>>, i: int) -> bool {
    &&& 0 <= i < slots.len()
    &&& slots[i] is None
    &&& forall|j: int| 0 <= j < i ==> slots[j] is Some
}

pub open spec fn first_free(slots: Seq<Option<CacheEntry>>) -> int {
    choose|i: int| is_first_free(slots, i)
}

/// The set of keys that a list of desired regions names.
pub open spec fn desired_keys(desired: Seq<DesiredRegion>) -> Set<CacheKey> {
    Set::new(|k: CacheKey| exists|i: int| 0 <= i < desired.len() && desired[i].key == k)
}

/// Slot `i` may be evicted: it is occupied, not protected and its tile is
/// not wanted by the plan.
pub open spec fn is_candidate(
    slots: Seq<Option<CacheEntry>>,
    protected: Set<u32>,
    keys: Set<CacheKey>,
    i: int,
) -> bool {
    &&& 0 <= i < slots.len()
    &&& slots[i] is Some
    &&& !protected.contains(i as u32)
    &&& !keys.contains(slots[i]->0.key)
}

/// Slot `i` comes before slot `j` in eviction order: least recently used
/// first, the lower slot first among equals.
pub open spec fn evicts_before(slots: Seq<Option<CacheEntry>>, i: int, j: int) -> bool {
    ||| slots[i]->0.last_used < slots[j]->0.last_used
    ||| (slots[i]->0.last_used == slots[j]->0.last_used && i <= j)
}

/// `i` is the candidate that is evicted first.
pub open spec fn is_victim(
    slots: Seq<Option<CacheEntry>>,
    protected: Set<u32>,
    keys: Set<CacheKey>,
    i: int,
) -> bool {
    &&& is_candidate(slots, protected, keys, i)
    &&& forall|j: int| is_candidate(slots, protected, keys, j) ==> evicts_before(slots, i, j)
}

pub open spec fn has_candidate(
    slots: Seq<Option<CacheEntry>>,
    protected: Set<u32>,
    keys: Set<CacheKey>,
) -> bool {
    exists|i: int| is_candidate(slots, protected, keys, i)
}

pub open spec fn victim(
    slots: Seq<Option<CacheEntry>>,
    protected: Set<u32>,
    keys: Set<CacheKey>,
) -> int {
    choose|i: int| is_victim(slots, protected, keys, i)
}

/// Marks every slot whose tile is wanted as used at `clock`.
pub open spec fn touch(slots: Seq<Option<CacheEntry>>, keys: Set<CacheKey>, clock: u64) -> Seq<
    Option<CacheEntry>,
> {
    Seq::new(
        slots.len(),
        |i: int|
            match slots[i] {
                Some(e) => if keys.contains(e.key) {
                    Some(CacheEntry { key: e.key, last_used: clock })
                } else {
                    Some(e)
                },
                None => None,
            },
    )
}

/// The slot table, the new uploads and the evicted slots, as a plan
/// proceeds through its desired regions.
pub type PlanState = (Seq<Option<CacheEntry>>, Seq<TerrainAssignment>, Seq<u32>);

/// Places one desired region: nothing to do when it is resident; otherwise
/// into the lowest empty slot, or else into the slot evicted first. `None`
/// when no slot can take it.
pub open spec fn place(
    state: PlanState,
    region: DesiredRegion,
    clock: u64,
    protected: Set<u32>,
    keys: Set<CacheKey>,
) -> Option<PlanState> {
    let (slots, uploads, reused) = state;
    if is_resident(slots, region.key) {
        Some(state)
    } else {
        let entry = Some(CacheEntry { key: region.key, last_used: clock });
        if has_free(slots) {
            let slot = first_free(slots);
            Some(
                (
                    slots.update(slot, entry),
                    uploads.push(TerrainAssignment { slot: slot as u32, ..region.assignment }),
                    reused,
                ),
            )
        } else if has_candidate(slots, protected, keys) {
            let slot = victim(slots, protected, keys);
            Some(
                (
                    slots.update(slot, entry),
                    uploads.push(TerrainAssignment { slot: slot as u32, ..region.assignment }),
                    reused.push(slot as u32),
                ),
            )
        } else {
            None
        }
    }
}

/// The state after placing the first `n` desired regions in order.
pub open spec fn run(
    start: PlanState,
    desired: Seq<DesiredRegion>,
    n: nat,
    clock: u64,
    protected: Set<u32>,
    keys: Set<CacheKey>,
) -> Option<PlanState>
    decreases n,
{
    if n == 0 {
        Some(start)
    } else {
        match run(start, desired, (n - 1) as nat, clock, protected, keys) {
            Some(state) => place(state, desired[n - 1], clock, protected, keys),
            None => None,
        }
    }
}

/// Number of occupied slots.
pub open spec fn resident_count(slots: Seq<Option<CacheEntry>>) -> nat
    decreases slots.len(),
{
    if slots.len() == 0 {
        0
    } else {
        resident_count(slots.drop_last()) + if slots.last() is Some {
            1nat
        } else {
            0nat
        }
    }
}

/// Number of occupied slots whose tile is among `keys`.
pub open spec fn retained_count(slots: Seq<Option<CacheEntry>>, keys: Set<CacheKey>) -> nat
    decreases slots.len(),
{
    if slots.len() == 0 {
        0
    } else {
        retained_count(slots.drop_last(), keys) + if slots.last() is Some && keys.contains(
            slots.last()->0.key,
        ) {
            1nat
        } else {
            0nat
        }
    }
}

/// The active mapping: each desired region at the slot that holds it.
pub open spec fn active_of(slots: Seq<Option<CacheEntry>>, desired: Seq<DesiredRegion>) -> Seq<
    TerrainAssignment,
> {
    Seq::new(
        desired.len(),
        |i: int| TerrainAssignment { slot: slot_of(slots, desired[i].key) as u32, ..desired[i].assignment },
    )
}

/// A table of `TERRAIN_CACHE_CAPACITY` slots, each empty or holding one
/// region tile, with a logical clock that advances once per plan.
pub struct TerrainCache {
    slots: Vec<Option<CacheEntry>>,
    clock: u64,
}

impl TerrainCache {
    #[verifier::type_invariant]
    spec fn inv(self) -> bool {
        &&& self.slots@.len() == TERRAIN_CACHE_CAPACITY
        &&& distinct_keys(self.slots@)
    }

    /// The slot table.
    pub closed spec fn table(self) -> Seq<Option<CacheEntry>> {
        self.slots@
    }

    /// The logical clock.
    pub closed spec fn time(self) -> u64 {
        self.clock
    }

    /// An empty cache at clock zero.
    pub fn new() -> (r: TerrainCache)
        ensures
            r.table() == Seq::new(TERRAIN_CACHE_CAPACITY as nat, |i: int| None::<CacheEntry>),
            r.time() == 0,
    {
        let mut slots: Vec<Option<CacheEntry>> = Vec::new();
        while slots.len() < TERRAIN_CACHE_CAPACITY
            invariant
                slots.len() <= TERRAIN_CACHE_CAPACITY,
                forall|i: int| 0 <= i < slots.len() ==> slots@[i] is None,
            decreases TERRAIN_CACHE_CAPACITY - slots.len(),
        {
            slots.push(None);
        }
        let r = TerrainCache { slots, clock: 0 };
        assert(r.slots@ =~= Seq::new(TERRAIN_CACHE_CAPACITY as nat, |i: int| None::<CacheEntry>));
        r
    }

    /// The logical clock.
    pub fn clock_value(&self) -> (r: u64)
        ensures
            r == self.time(),
    {
        self.clock
    }

    /// A copy of the cache.
    pub fn duplicate(&self) -> (r: TerrainCache)
        ensures
            r.table() == self.table(),
            r.time() == self.time(),
    {
        proof {
            use_type_invariant(self);
        }
        let mut slots: Vec<Option<CacheEntry>> = Vec::new();
        let mut i: usize = 0;
        while i < self.slots.len()
            invariant
                i <= self.slots@.len(),
                slots@ =~= self.slots@.take(i as int),
            decreases self.slots@.len() - i,
        {
            slots.push(self.slots[i]);
            i += 1;
        }
        assert(slots@ =~= self.slots@);
        TerrainCache { slots, clock: self.clock }
    }
}


/// The outcome of planning `desired` on a cache with the given table and
/// clock: wanted tiles are touched at the advanced clock, then each desired
/// region is placed in order.
pub open spec fn plan_outcome(
    table: Seq<Option<CacheEntry>>,
    clock: u64,
    desired: Seq<DesiredRegion>,
    protected: Set<u32>,
) -> Option<PlanState> {
    let now = (clock + 1) as u64;
    let keys = desired_keys(desired);
    run((touch(table, keys, now), Seq::empty(), Seq::empty()), desired, desired.len(), now, protected, keys)
}

/// A residency plan: the cache after it, the uploads it needs, the slot of
/// every active region, the slots whose tiles it evicts, and its tallies.
pub struct LayoutPlan {
    pub config: LoadConfig,
    pub global_config: Option<GlobalTerrainConfig>,
    pub source_namespace: Option<TerrainSourceNamespace>,
    pub next_cache: TerrainCache,
    pub assignments: Vec<TerrainAssignment>,
    pub active: Vec<TerrainAssignment>,
    pub reused_slots: Vec<u32>,
    pub counts: TerrainPlanCounts,
}

/// Every slot that a plan names is a slot of the cache.
pub open spec fn layout_in_range(p: LayoutPlan) -> bool {
    &&& forall|i: int| 0 <= i < p.assignments@.len() ==> #[trigger] p.assignments@[i].slot < TERRAIN_CACHE_CAPACITY
    &&& forall|i: int| 0 <= i < p.reused_slots@.len() ==> #[trigger] p.reused_slots@[i] < TERRAIN_CACHE_CAPACITY
    &&& forall|i: int| 0 <= i < p.active@.len() ==> #[trigger] p.active@[i].slot < TERRAIN_CACHE_CAPACITY
}

/// `r` is what planning `desired` on `cache` with the `protected` slots
/// yields: refused above `TERRAIN_ACTIVE_CAPACITY` regions or when a region
/// finds no slot; otherwise the state that `plan_outcome` describes.
pub open spec fn plan_matches(
    cache: TerrainCache,
    desired: Seq<DesiredRegion>,
    protected: Set<u32>,
    r: Result<LayoutPlan, PlanError>,
) -> bool {
    if desired.len() > TERRAIN_ACTIVE_CAPACITY {
        r == Err::<LayoutPlan, PlanError>(PlanError::ActiveCapacityExceeded)
    } else {
        match plan_outcome(cache.table(), cache.time(), desired, protected) {
            None => r == Err::<LayoutPlan, PlanError>(PlanError::NoEvictionCandidate),
            Some((slots, uploads, reused)) => r matches Ok(plan) && {
                &&& plan.next_cache.table() == slots
                &&& plan.next_cache.time() == cache.time() + 1
                &&& plan.assignments@ == uploads
                &&& plan.active@ == active_of(slots, desired)
                &&& plan.reused_slots@ == reused
                &&& plan.counts == TerrainPlanCounts {
                    retained_region_count: retained_count(cache.table(), desired_keys(desired)) as usize,
                    uploaded_region_count: uploads.len() as usize,
                    evicted_region_count: reused.len() as usize,
                    protected_region_count: protected.len() as usize,
                    resident_region_count: resident_count(slots) as usize,
                    free_region_count: (TERRAIN_CACHE_CAPACITY - resident_count(slots)) as usize,
                    payload_bytes: (uploads.len() * TERRAIN_PAYLOAD_BYTES) as usize,
                }
            },
        }
    }
}

// ---------------------------------------------------------------------------
// Facts about the model.

pub proof fn lemma_first_free_unique(slots: Seq<Option<CacheEntry>>, i: int)
    requires
        is_first_free(slots, i),
    ensures
        first_free(slots) == i,
        has_free(slots),
{
    let f = first_free(slots);
    assert(is_first_free(slots, f));
    if f < i {
        assert(slots[f] is Some);
    }
    if i < f {
        assert(slots[i] is Some);
    }
}

pub proof fn lemma_victim_unique(
    slots: Seq<Option<CacheEntry>>,
    protected: Set<u32>,
    keys: Set<CacheKey>,
    i: int,
)
    requires
        is_victim(slots, protected, keys, i),
    ensures
        victim(slots, protected, keys) == i,
        has_candidate(slots, protected, keys),
{
    let v = victim(slots, protected, keys);
    assert(is_victim(slots, protected, keys, v));
    assert(evicts_before(slots, i, v));
    assert(evicts_before(slots, v, i));
}

pub proof fn lemma_slot_of_unique(slots: Seq<Option<CacheEntry>>, i: int, key: CacheKey)
    requires
        distinct_keys(slots),
        holds(slots, i, key),
    ensures
        slot_of(slots, key) == i,
        is_resident(slots, key),
{
    let s = slot_of(slots, key);
    assert(holds(slots, s, key));
}

pub proof fn lemma_desired_key(desired: Seq<DesiredRegion>, i: int)
    requires
        0 <= i < desired.len(),
    ensures
        desired_keys(desired).contains(desired[i].key),
{
}

/// Once a plan has failed it stays failed.
pub proof fn lemma_run_none(
    start: PlanState,
    desired: Seq<DesiredRegion>,
    j: nat,
    n: nat,
    clock: u64,
    protected: Set<u32>,
    keys: Set<CacheKey>,
)
    requires
        j <= n,
        run(start, desired, j, clock, protected, keys) is None,
    ensures
        run(start, desired, n, clock, protected, keys) is None,
    decreases n - j,
{
    if j < n {
        lemma_run_none(start, desired, j + 1, n, clock, protected, keys);
    }
}

/// Placing keeps the table's length and its distinct keys, and adds at most
/// one upload and one eviction.
pub proof fn lemma_place_shape(
    state: PlanState,
    region: DesiredRegion,
    clock: u64,
    protected: Set<u32>,
    keys: Set<CacheKey>,
)
    requires
        distinct_keys(state.0),
        place(state, region, clock, protected, keys) is Some,
    ensures
        ({
            let next = place(state, region, clock, protected, keys)->0;
            &&& next.0.len() == state.0.len()
            &&& distinct_keys(next.0)
            &&& next.1.len() <= state.1.len() + 1
            &&& next.2.len() <= state.2.len() + 1
            &&& is_resident(next.0, region.key)
        }),
{
    let (slots, uploads, reused) = state;
    if is_resident(slots, region.key) {
    } else {
        let entry = Some(CacheEntry { key: region.key, last_used: clock });
        let slot = if has_free(slots) {
            let f = first_free(slots);
            let w = choose|i: int| 0 <= i < slots.len() && slots[i] is None;
            assert(exists|i: int| is_first_free(slots, i)) by {
                lemma_lowest_free(slots, w);
            }
            f
        } else {
            let v = victim(slots, protected, keys);
            assert(exists|i: int| is_victim(slots, protected, keys, i)) by {
                lemma_lowest_victim(slots, protected, keys);
            }
            v
        };
        let next = slots.update(slot, entry);
        assert(holds(next, slot, region.key));
        assert forall|i: int, j: int|
            0 <= i < next.len() && 0 <= j < next.len() && i != j && next[i] is Some
                && next[j] is Some implies next[i]->0.key != next[j]->0.key by {
            if i == slot {
                assert(!holds(slots, j, region.key));
            } else if j == slot {
                assert(!holds(slots, i, region.key));
            }
        }
    }
}

/// Some empty slot exists, so a lowest one does.
pub proof fn lemma_lowest_free(slots: Seq<Option<CacheEntry>>, w: int)
    requires
        0 <= w < slots.len(),
        slots[w] is None,
    ensures
        exists|i: int| is_first_free(slots, i),
    decreases w,
{
    if forall|j: int| 0 <= j < w ==> slots[j] is Some {
        assert(is_first_free(slots, w));
    } else {
        let j = choose|j: int| 0 <= j < w && !(slots[j] is Some);
        lemma_lowest_free(slots, j);
    }
}

/// Some eviction candidate exists, so a first one in eviction order does.
pub proof fn lemma_lowest_victim(
    slots: Seq<Option<CacheEntry>>,
    protected: Set<u32>,
    keys: Set<CacheKey>,
)
    requires
        has_candidate(slots, protected, keys),
    ensures
        exists|i: int| is_victim(slots, protected, keys, i),
{
    lemma_victim_prefix(slots, protected, keys, slots.len() as int);
    let i = choose|i: int|
        0 <= i < slots.len() && is_candidate(slots, protected, keys, i) && forall|j: int|
            is_candidate(slots, protected, keys, j) && j < slots.len() ==> evicts_before(slots, i, j);
    assert(is_victim(slots, protected, keys, i));
}

/// Among the candidates below `n`, if any, one comes first in eviction order.
proof fn lemma_victim_prefix(
    slots: Seq<Option<CacheEntry>>,
    protected: Set<u32>,
    keys: Set<CacheKey>,
    n: int,
)
    requires
        0 <= n <= slots.len(),
    ensures
        (exists|c: int| is_candidate(slots, protected, keys, c) && c < n) ==> exists|i: int|
            0 <= i < n && is_candidate(slots, protected, keys, i) && forall|j: int|
                is_candidate(slots, protected, keys, j) && j < n ==> evicts_before(slots, i, j),
    decreases n,
{
    if n > 0 {
        lemma_victim_prefix(slots, protected, keys, n - 1);
        let m = n - 1;
        if exists|c: int| is_candidate(slots, protected, keys, c) && c < m {
            let i = choose|i: int|
                0 <= i < m && is_candidate(slots, protected, keys, i) && forall|j: int|
                    is_candidate(slots, protected, keys, j) && j < m ==> evicts_before(slots, i, j);
            if is_candidate(slots, protected, keys, m) && !evicts_before(slots, i, m) {
                assert forall|j: int| is_candidate(slots, protected, keys, j) && j < n implies evicts_before(slots, m, j) by {
                    if j < m {
                        assert(evicts_before(slots, i, j));
                    }
                }
            } else {
                assert forall|j: int| is_candidate(slots, protected, keys, j) && j < n implies evicts_before(slots, i, j) by {
                    if j < m {
                    }
                }
            }
        } else if is_candidate(slots, protected, keys, m) {
            assert forall|j: int| is_candidate(slots, protected, keys, j) && j < n implies evicts_before(slots, m, j) by {
                if j < m {
                    assert(!(is_candidate(slots, protected, keys, j) && j < m));
                }
            }
        }
    }
}

/// The slot that `place` fills, when the region is not resident, is empty or
/// is a candidate.
pub proof fn lemma_place_slot(
    state: PlanState,
    region: DesiredRegion,
    protected: Set<u32>,
    keys: Set<CacheKey>,
)
    requires
        !is_resident(state.0, region.key),
    ensures
        has_free(state.0) ==> is_first_free(state.0, first_free(state.0)),
        !has_free(state.0) && has_candidate(state.0, protected, keys) ==> is_victim(
            state.0,
            protected,
            keys,
            victim(state.0, protected, keys),
        ),
{
    if has_free(state.0) {
        let w = choose|i: int| 0 <= i < state.0.len() && state.0[i] is None;
        lemma_lowest_free(state.0, w);
    } else if has_candidate(state.0, protected, keys) {
        lemma_lowest_victim(state.0, protected, keys);
    }
}

/// A successful run keeps the table's shape and adds at most one upload and
/// one eviction per region.
pub proof fn lemma_run_shape(
    start: PlanState,
    desired: Seq<DesiredRegion>,
    n: nat,
    clock: u64,
    protected: Set<u32>,
    keys: Set<CacheKey>,
)
    requires
        distinct_keys(start.0),
        n <= desired.len(),
        run(start, desired, n, clock, protected, keys) is Some,
    ensures
        ({
            let end = run(start, desired, n, clock, protected, keys)->0;
            &&& end.0.len() == start.0.len()
            &&& distinct_keys(end.0)
            &&& end.1.len() <= start.1.len() + n
            &&& end.2.len() <= start.2.len() + n
        }),
    decreases n,
{
    if n > 0 {
        lemma_run_shape(start, desired, (n - 1) as nat, clock, protected, keys);
        let prev = run(start, desired, (n - 1) as nat, clock, protected, keys)->0;
        lemma_place_shape(prev, desired[n - 1], clock, protected, keys);
    }
}

/// Every slot that a run uploads to or evicts is a slot of the table.
pub proof fn lemma_run_slots(
    start: PlanState,
    desired: Seq<DesiredRegion>,
    n: nat,
    clock: u64,
    protected: Set<u32>,
    keys: Set<CacheKey>,
)
    requires
        distinct_keys(start.0),
        start.0.len() <= u32::MAX,
        n <= desired.len(),
        run(start, desired, n, clock, protected, keys) is Some,
        forall|i: int| 0 <= i < start.1.len() ==> #[trigger] start.1[i].slot < start.0.len(),
        forall|i: int| 0 <= i < start.2.len() ==> #[trigger] start.2[i] < start.0.len(),
    ensures
        ({
            let end = run(start, desired, n, clock, protected, keys)->0;
            &&& forall|i: int| 0 <= i < end.1.len() ==> #[trigger] end.1[i].slot < start.0.len()
            &&& forall|i: int| 0 <= i < end.2.len() ==> #[trigger] end.2[i] < start.0.len()
        }),
    decreases n,
{
    if n > 0 {
        let m = (n - 1) as nat;
        lemma_run_slots(start, desired, m, clock, protected, keys);
        lemma_run_shape(start, desired, m, clock, protected, keys);
        let prev = run(start, desired, m, clock, protected, keys)->0;
        let region = desired[n - 1];
        if !is_resident(prev.0, region.key) {
            lemma_place_slot(prev, region, protected, keys);
        }
    }
}

/// After a successful run every region placed so far is resident.
pub proof fn lemma_run_resident(
    start: PlanState,
    desired: Seq<DesiredRegion>,
    n: nat,
    clock: u64,
    protected: Set<u32>,
)
    requires
        distinct_keys(start.0),
        n <= desired.len(),
        run(start, desired, n, clock, protected, desired_keys(desired)) is Some,
    ensures
        ({
            let end = run(start, desired, n, clock, protected, desired_keys(desired))->0;
            forall|i: int| 0 <= i < n ==> is_resident(end.0, #[trigger] desired[i].key)
        }),
    decreases n,
{
    let keys = desired_keys(desired);
    if n > 0 {
        let m = (n - 1) as nat;
        lemma_run_resident(start, desired, m, clock, protected);
        lemma_run_shape(start, desired, m, clock, protected, keys);
        let prev = run(start, desired, m, clock, protected, keys)->0;
        let region = desired[n - 1];
        lemma_place_shape(prev, region, clock, protected, keys);
        let next = place(prev, region, clock, protected, keys)->0;
        assert forall|i: int| 0 <= i < n implies is_resident(next.0, desired[i].key) by {
            if i < m {
                assert(is_resident(prev.0, desired[i].key));
                if !is_resident(prev.0, region.key) {
                    lemma_place_slot(prev, region, protected, keys);
                    let h = choose|h: int| holds(prev.0, h, desired[i].key);
                    lemma_desired_key(desired, i);
                    let slot = if has_free(prev.0) {
                        first_free(prev.0)
                    } else {
                        victim(prev.0, protected, keys)
                    };
                    assert(slot != h);
                    assert(holds(next.0, h, desired[i].key));
                }
            }
        }
    }
}

// ---------------------------------------------------------------------------
// Planning.

/// The lowest slot holding `key`.
fn find_slot(slots: &Vec<Option<CacheEntry>>, key: &CacheKey) -> (r: Option<usize>)
    ensures
        r matches Some(i) ==> holds(slots@, i as int, *key),
        r is None ==> !is_resident(slots@, *key),
{
    let mut i: usize = 0;
    while i < slots.len()
        invariant
            i <= slots@.len(),
            forall|j: int| 0 <= j < i ==> !holds(slots@, j, *key),
        decreases slots@.len() - i,
    {
        if let Some(entry) = &slots[i] {
            if same_key(&entry.key, key) {
                return Some(i);
            }
        }
        i += 1;
    }
    None
}

/// The lowest empty slot.
fn find_free(slots: &Vec<Option<CacheEntry>>) -> (r: Option<usize>)
    ensures
        r matches Some(i) ==> is_first_free(slots@, i as int),
        r is None ==> !has_free(slots@),
{
    let mut i: usize = 0;
    while i < slots.len()
        invariant
            i <= slots@.len(),
            forall|j: int| 0 <= j < i ==> slots@[j] is Some,
        decreases slots@.len() - i,
    {
        if slots[i].is_none() {
            return Some(i);
        }
        i += 1;
    }
    None
}

/// Whether some desired region names `key`.
fn desired_contains(desired: &Vec<DesiredRegion>, key: &CacheKey) -> (r: bool)
    ensures
        r == desired_keys(desired@).contains(*key),
{
    let mut i: usize = 0;
    while i < desired.len()
        invariant
            i <= desired@.len(),
            forall|j: int| 0 <= j < i ==> desired@[j].key != *key,
        decreases desired@.len() - i,
    {
        if same_key(&desired[i].key, key) {
            return true;
        }
        i += 1;
    }
    false
}

/// The candidate that is evicted first.
fn find_victim(
    slots: &Vec<Option<CacheEntry>>,
    protected: &BTreeSet<u32>,
    desired: &Vec<DesiredRegion>,
) -> (r: Option<usize>)
    requires
        slots@.len() <= u32::MAX,
    ensures
        r matches Some(i) ==> is_victim(slots@, protected@, desired_keys(desired@), i as int),
        r is None ==> !has_candidate(slots@, protected@, desired_keys(desired@)),
{
    let ghost keys = desired_keys(desired@);
    let mut best: Option<usize> = None;
    let mut best_used: u64 = 0;
    let mut i: usize = 0;
    while i < slots.len()
        invariant
            slots@.len() <= u32::MAX,
            keys == desired_keys(desired@),
            i <= slots@.len(),
            best is Some ==> best->0 < i,
            best is Some ==> is_candidate(slots@, protected@, keys, best->0 as int),
            best is Some ==> slots@[best->0 as int]->0.last_used == best_used,
            best is Some ==> forall|j: int|
                0 <= j < i && is_candidate(slots@, protected@, keys, j) ==> evicts_before(
                    slots@,
                    best->0 as int,
                    j,
                ),
            best is None ==> forall|j: int| 0 <= j < i ==> !is_candidate(slots@, protected@, keys, j),
        decreases slots@.len() - i,
    {
        if let Some(entry) = &slots[i] {
            let slot = i as u32;
            let is_protected = protected.contains(&slot);
            let is_wanted = desired_contains(desired, &entry.key);
            assert(is_protected == protected@.contains(slot));
            assert(slot == (i as int) as u32);
            if !is_protected && !is_wanted {
                let better = match best {
                    None => true,
                    Some(_) => entry.last_used < best_used,
                };
                let ghost old_best = best;
                if better {
                    best = Some(i);
                    best_used = entry.last_used;
                }
                assert(is_candidate(slots@, protected@, keys, i as int));
                assert forall|j: int|
                    0 <= j <= i && is_candidate(slots@, protected@, keys, j) implies evicts_before(
                    slots@,
                    best->0 as int,
                    j,
                ) by {
                    if j < i && old_best is Some {
                        assert(evicts_before(slots@, old_best->0 as int, j));
                    }
                }
            }
        }
        i += 1;
    }
    best
}

/// The desired region of a local region id.
pub open spec fn legacy_spec(local_region_id: u32) -> DesiredRegion {
    DesiredRegion {
        key: CacheKey::Aliased { global_region: None, local_region_id },
        assignment: TerrainAssignment { slot: 0, region_id: local_region_id, global_region: None },
    }
}

/// The desired region of an addressed region, keyed by its local id and
/// global coordinate.
pub open spec fn aliased_spec(region: crate::address::AddressedRegion) -> DesiredRegion {
    DesiredRegion {
        key: CacheKey::Aliased {
            global_region: Some(region.global_region),
            local_region_id: region.local_region_id,
        },
        assignment: TerrainAssignment {
            slot: 0,
            region_id: region.local_region_id,
            global_region: Some(region.global_region),
        },
    }
}

/// The desired region of an addressed region, keyed by the source and its
/// global coordinate alone.
pub open spec fn canonical_spec(
    region: crate::address::AddressedRegion,
    source_namespace: TerrainSourceNamespace,
) -> DesiredRegion {
    DesiredRegion {
        key: CacheKey::Canonical { source_namespace, global_region: region.global_region },
        assignment: TerrainAssignment {
            slot: 0,
            region_id: region.local_region_id,
            global_region: Some(region.global_region),
        },
    }
}

pub fn legacy_region(local_region_id: u32) -> (r: DesiredRegion)
    ensures
        r == legacy_spec(local_region_id),
{
    DesiredRegion {
        key: CacheKey::Aliased { global_region: None, local_region_id },
        assignment: TerrainAssignment { slot: 0, region_id: local_region_id, global_region: None },
    }
}

pub fn aliased_global_region(region: crate::address::AddressedRegion) -> (r: DesiredRegion)
    ensures
        r == aliased_spec(region),
{
    DesiredRegion {
        key: CacheKey::Aliased {
            global_region: Some(region.global_region),
            local_region_id: region.local_region_id,
        },
        assignment: TerrainAssignment {
            slot: 0,
            region_id: region.local_region_id,
            global_region: Some(region.global_region),
        },
    }
}

pub fn canonical_global_region(
    region: crate::address::AddressedRegion,
    source_namespace: TerrainSourceNamespace,
) -> (r: DesiredRegion)
    ensures
        r == canonical_spec(region, source_namespace),
{
    DesiredRegion {
        key: CacheKey::Canonical { source_namespace, global_region: region.global_region },
        assignment: TerrainAssignment {
            slot: 0,
            region_id: region.local_region_id,
            global_region: Some(region.global_region),
        },
    }
}

pub proof fn lemma_resident_count_bound(slots: Seq<Option<CacheEntry>>)
    ensures
        resident_count(slots) <= slots.len(),
    decreases slots.len(),
{
    if slots.len() > 0 {
        lemma_resident_count_bound(slots.drop_last());
    }
}

pub proof fn lemma_retained_count_bound(slots: Seq<Option<CacheEntry>>, keys: Set<CacheKey>)
    ensures
        retained_count(slots, keys) <= slots.len(),
    decreases slots.len(),
{
    if slots.len() > 0 {
        lemma_retained_count_bound(slots.drop_last(), keys);
    }
}

/// Marks the wanted tiles as used at `clock`; returns how many there were.
fn touch_wanted(slots: &mut Vec<Option<CacheEntry>>, desired: &Vec<DesiredRegion>, clock: u64) -> (retained: usize)
    ensures
        final(slots)@ == touch(old(slots)@, desired_keys(desired@), clock),
        retained == retained_count(old(slots)@, desired_keys(desired@)),
{
    let ghost keys = desired_keys(desired@);
    let ghost original = slots@;
    let mut retained: usize = 0;
    let mut i: usize = 0;
    while i < slots.len()
        invariant
            keys == desired_keys(desired@),
            slots@.len() == original.len(),
            i <= slots@.len(),
            forall|j: int| 0 <= j < i ==> slots@[j] == touch(original, keys, clock)[j],
            forall|j: int| i <= j < slots@.len() ==> slots@[j] == original[j],
            retained == retained_count(original.take(i as int), keys),
            retained <= i,
        decreases slots@.len() - i,
    {
        proof {
            assert(original.take(i + 1).drop_last() =~= original.take(i as int));
            lemma_retained_count_bound(original.take(i as int), keys);
        }
        if let Some(entry) = slots[i] {
            if desired_contains(desired, &entry.key) {
                slots.set(i, Some(CacheEntry { key: entry.key, last_used: clock }));
                retained += 1;
            }
        }
        i += 1;
    }
    assert(slots@ =~= touch(original, keys, clock));
    assert(original.take(original.len() as int) =~= original);
    retained
}

/// The number of occupied slots.
fn count_resident(slots: &Vec<Option<CacheEntry>>) -> (r: usize)
    ensures
        r == resident_count(slots@),
{
    let mut count: usize = 0;
    let mut i: usize = 0;
    while i < slots.len()
        invariant
            i <= slots@.len(),
            count == resident_count(slots@.take(i as int)),
            count <= i,
        decreases slots@.len() - i,
    {
        proof {
            assert(slots@.take(i + 1).drop_last() =~= slots@.take(i as int));
        }
        if slots[i].is_some() {
            count += 1;
        }
        i += 1;
    }
    assert(slots@.take(slots@.len() as int) =~= slots@);
    count
}

/// Places every desired region in order, as `run` describes.
fn place_desired(
    slots: &mut Vec<Option<CacheEntry>>,
    desired: &Vec<DesiredRegion>,
    protected: &BTreeSet<u32>,
    clock: u64,
) -> (r: Result<(Vec<TerrainAssignment>, Vec<u32>), PlanError>)
    requires
        old(slots)@.len() == TERRAIN_CACHE_CAPACITY,
        distinct_keys(old(slots)@),
        desired@.len() <= TERRAIN_ACTIVE_CAPACITY,
    ensures
        match run(
            (old(slots)@, Seq::empty(), Seq::empty()),
            desired@,
            desired@.len(),
            clock,
            protected@,
            desired_keys(desired@),
        ) {
            None => r == Err::<(Vec<TerrainAssignment>, Vec<u32>), PlanError>(PlanError::NoEvictionCandidate),
            Some(end) => r matches Ok((uploads, reused)) && {
                &&& final(slots)@ == end.0
                &&& uploads@ == end.1
                &&& reused@ == end.2
            },
        },
{
    let ghost keys = desired_keys(desired@);
    let ghost start: PlanState = (slots@, Seq::empty(), Seq::empty());
    let mut uploads: Vec<TerrainAssignment> = Vec::new();
    let mut reused: Vec<u32> = Vec::new();
    let mut j: usize = 0;
    while j < desired.len()
        invariant
            keys == desired_keys(desired@),
            start.0 == old(slots)@,
            start.0.len() == TERRAIN_CACHE_CAPACITY,
            distinct_keys(start.0),
            start.1 == Seq::<TerrainAssignment>::empty(),
            start.2 == Seq::<u32>::empty(),
            j <= desired@.len(),
            desired@.len() <= TERRAIN_ACTIVE_CAPACITY,
            run(start, desired@, j as nat, clock, protected@, keys) == Some::<PlanState>((slots@, uploads@, reused@)),
            slots@.len() == TERRAIN_CACHE_CAPACITY,
            distinct_keys(slots@),
        decreases desired@.len() - j,
    {
        let region = desired[j];
        let ghost state: PlanState = (slots@, uploads@, reused@);
        assert(run(start, desired@, (j + 1) as nat, clock, protected@, keys) == place(
            state,
            region,
            clock,
            protected@,
            keys,
        ));
        match find_slot(slots, &region.key) {
            Some(_) => {},
            None => {
                let entry = Some(CacheEntry { key: region.key, last_used: clock });
                match find_free(slots) {
                    Some(slot) => {
                        proof {
                            lemma_first_free_unique(slots@, slot as int);
                        }
                        slots.set(slot, entry);
                        uploads.push(
                            TerrainAssignment {
                                slot: slot as u32,
                                region_id: region.assignment.region_id,
                                global_region: region.assignment.global_region,
                            },
                        );
                    },
                    None => {
                        match find_victim(slots, protected, desired) {
                            Some(slot) => {
                                proof {
                                    lemma_victim_unique(slots@, protected@, keys, slot as int);
                                }
                                slots.set(slot, entry);
                                uploads.push(
                                    TerrainAssignment {
                                        slot: slot as u32,
                                        region_id: region.assignment.region_id,
                                        global_region: region.assignment.global_region,
                                    },
                                );
                                reused.push(slot as u32);
                            },
                            None => {
                                proof {
                                    assert(place(state, region, clock, protected@, keys) is None);
                                    assert(start == (old(slots)@, Seq::<TerrainAssignment>::empty(), Seq::<u32>::empty()));
                                    lemma_run_none(
                                        start,
                                        desired@,
                                        (j + 1) as nat,
                                        desired@.len(),
                                        clock,
                                        protected@,
                                        keys,
                                    );
                                }
                                return Err(PlanError::NoEvictionCandidate);
                            },
                        }
                    },
                }
            },
        }
        proof {
            lemma_place_shape(state, region, clock, protected@, keys);
            assert(place(state, region, clock, protected@, keys) == Some::<PlanState>((slots@, uploads@, reused@)));
        }
        j += 1;
    }
    Ok((uploads, reused))
}

pub proof fn lemma_touch_shape(slots: Seq<Option<CacheEntry>>, keys: Set<CacheKey>, clock: u64)
    requires
        distinct_keys(slots),
    ensures
        touch(slots, keys, clock).len() == slots.len(),
        distinct_keys(touch(slots, keys, clock)),
        forall|k: CacheKey| is_resident(touch(slots, keys, clock), k) == is_resident(slots, k),
{
    let t = touch(slots, keys, clock);
    assert forall|k: CacheKey| is_resident(t, k) == is_resident(slots, k) by {
        if is_resident(t, k) {
            let i = choose|i: int| holds(t, i, k);
            assert(holds(slots, i, k));
        }
        if is_resident(slots, k) {
            let i = choose|i: int| holds(slots, i, k);
            assert(holds(t, i, k));
        }
    }
}

/// The slot of every desired region, in the order of `desired`.
fn active_assignments(slots: &Vec<Option<CacheEntry>>, desired: &Vec<DesiredRegion>) -> (r: Vec<
    TerrainAssignment,
>)
    requires
        distinct_keys(slots@),
        slots@.len() <= u32::MAX,
        forall|i: int| 0 <= i < desired@.len() ==> is_resident(slots@, #[trigger] desired@[i].key),
    ensures
        r@ == active_of(slots@, desired@),
{
    let mut active: Vec<TerrainAssignment> = Vec::new();
    let mut j: usize = 0;
    while j < desired.len()
        invariant
            distinct_keys(slots@),
            slots@.len() <= u32::MAX,
            forall|i: int| 0 <= i < desired@.len() ==> is_resident(slots@, #[trigger] desired@[i].key),
            j <= desired@.len(),
            active@ =~= active_of(slots@, desired@).take(j as int),
        decreases desired@.len() - j,
    {
        let region = desired[j];
        assert(is_resident(slots@, desired@[j as int].key));
        match find_slot(slots, &region.key) {
            Some(slot) => {
                proof {
                    lemma_slot_of_unique(slots@, slot as int, region.key);
                }
                active.push(
                    TerrainAssignment {
                        slot: slot as u32,
                        region_id: region.assignment.region_id,
                        global_region: region.assignment.global_region,
                    },
                );
            },
            None => {
                assert(false);
            },
        }
        j += 1;
    }
    assert(active_of(slots@, desired@).take(desired@.len() as int) =~= active_of(slots@, desired@));
    active
}

fn copy_slots(slots: &Vec<Option<CacheEntry>>) -> (r: Vec<Option<CacheEntry>>)
    ensures
        r@ == slots@,
{
    let mut copy: Vec<Option<CacheEntry>> = Vec::new();
    let mut i: usize = 0;
    while i < slots.len()
        invariant
            i <= slots@.len(),
            copy@ =~= slots@.take(i as int),
        decreases slots@.len() - i,
    {
        copy.push(slots[i]);
        i += 1;
    }
    assert(copy@ =~= slots@);
    copy
}

impl TerrainCache {
    /// The slot that holds `key`, if any.
    pub fn slot_for(&self, key: CacheKey) -> (r: Option<usize>)
        ensures
            r matches Some(i) ==> i == slot_of(self.table(), key) && is_resident(self.table(), key),
            r is None ==> !is_resident(self.table(), key),
    {
        proof {
            use_type_invariant(self);
        }
        let r = find_slot(&self.slots, &key);
        proof {
            if let Some(i) = r {
                lemma_slot_of_unique(self.slots@, i as int, key);
            }
        }
        r
    }

    /// Plans the residency of `desired` as `plan_matches` describes, never
    /// evicting a `protected` slot nor a tile that `desired` wants.
    fn plan_regions(
        &self,
        config: LoadConfig,
        global_config: Option<GlobalTerrainConfig>,
        source_namespace: Option<TerrainSourceNamespace>,
        desired: Vec<DesiredRegion>,
        protected: &BTreeSet<u32>,
    ) -> (r: Result<LayoutPlan, PlanError>)
        requires
            self.time() < u64::MAX,
        ensures
            plan_matches(*self, desired@, protected@, r),
            r matches Ok(p) ==> {
                &&& p.config == config
                &&& p.global_config == global_config
                &&& p.source_namespace == source_namespace
                &&& layout_in_range(p)
            },
    {
        proof {
            use_type_invariant(self);
        }
        if desired.len() > TERRAIN_ACTIVE_CAPACITY {
            return Err(PlanError::ActiveCapacityExceeded);
        }
        let clock = self.clock + 1;
        let ghost keys = desired_keys(desired@);
        let mut slots = copy_slots(&self.slots);
        let retained = touch_wanted(&mut slots, &desired, clock);
        proof {
            lemma_touch_shape(self.slots@, keys, clock);
        }
        let ghost touched = slots@;
        let (assignments, reused_slots) = match place_desired(&mut slots, &desired, protected, clock) {
            Ok(value) => value,
            Err(e) => return Err(e),
        };
        proof {
            let start: PlanState = (touched, Seq::empty(), Seq::empty());
            lemma_run_shape(start, desired@, desired@.len(), clock, protected@, keys);
            lemma_run_resident(start, desired@, desired@.len(), clock, protected@);
            lemma_run_slots(start, desired@, desired@.len(), clock, protected@, keys);
            lemma_resident_count_bound(slots@);
        }
        let active = active_assignments(&slots, &desired);
        proof {
            assert forall|i: int| 0 <= i < active@.len() implies #[trigger] active@[i].slot < TERRAIN_CACHE_CAPACITY by {
                assert(is_resident(slots@, desired@[i].key));
                let h = slot_of(slots@, desired@[i].key);
                assert(holds(slots@, h, desired@[i].key));
            }
        }
        let resident = count_resident(&slots);
        let uploaded = assignments.len();
        let evicted = reused_slots.len();
        let counts = TerrainPlanCounts {
            retained_region_count: retained,
            uploaded_region_count: uploaded,
            evicted_region_count: evicted,
            protected_region_count: protected.len(),
            resident_region_count: resident,
            free_region_count: TERRAIN_CACHE_CAPACITY - resident,
            payload_bytes: uploaded * TERRAIN_PAYLOAD_BYTES,
        };
        let next_cache = TerrainCache { slots, clock };
        Ok(
            LayoutPlan {
                config,
                global_config,
                source_namespace,
                next_cache,
                assignments,
                active,
                reused_slots,
                counts,
            },
        )
    }
}

/// The desired regions of a local window, in window order.
pub open spec fn legacy_desired(config: LoadConfig) -> Seq<DesiredRegion> {
    Seq::new(
        config.side() * config.side(),
        |k: int| legacy_spec(crate::resident::window_region_id(config, k) as u32),
    )
}

/// The desired regions of a global window keyed by local id and global
/// coordinate, in window order.
pub open spec fn aliased_desired(config: GlobalTerrainConfig) -> Seq<DesiredRegion> {
    let local = crate::address::local_of(config);
    Seq::new(
        local.side() * local.side(),
        |k: int| aliased_spec(crate::address::addressed_at(config, k)),
    )
}

/// The desired regions of a global window keyed by source and global
/// coordinate, in window order.
pub open spec fn canonical_desired(
    config: GlobalTerrainConfig,
    source_namespace: TerrainSourceNamespace,
) -> Seq<DesiredRegion> {
    let local = crate::address::local_of(config);
    Seq::new(
        local.side() * local.side(),
        |k: int| canonical_spec(crate::address::addressed_at(config, k), source_namespace),
    )
}

/// What planning the local window of `config` yields: refused when the
/// window exceeds the active capacity, otherwise as `plan_matches` describes
/// for the window's regions keyed by local id.
pub open spec fn legacy_plan_result(
    cache: TerrainCache,
    config: LoadConfig,
    protected: Set<u32>,
    r: Result<LayoutPlan, PlanError>,
) -> bool {
    &&& config.side() * config.side() > TERRAIN_ACTIVE_CAPACITY ==> r == Err::<LayoutPlan, PlanError>(
        PlanError::Config(ConfigError::ActiveCapacityExceeded),
    )
    &&& config.side() * config.side() <= TERRAIN_ACTIVE_CAPACITY ==> plan_matches(
        cache,
        legacy_desired(config),
        protected,
        r,
    )
    &&& r matches Ok(p) ==> {
        &&& p.config == config
        &&& p.global_config is None
        &&& p.source_namespace is None
        &&& layout_in_range(p)
    }
}

/// What planning the global window `config` yields, with tiles keyed by
/// local id and global coordinate.
pub open spec fn aliased_plan_result(
    cache: TerrainCache,
    config: GlobalTerrainConfig,
    protected: Set<u32>,
    r: Result<LayoutPlan, PlanError>,
) -> bool {
    let local = crate::address::local_of(config);
    &&& local.side() * local.side() > TERRAIN_ACTIVE_CAPACITY ==> r == Err::<LayoutPlan, PlanError>(
        PlanError::Config(ConfigError::ActiveCapacityExceeded),
    )
    &&& local.side() * local.side() <= TERRAIN_ACTIVE_CAPACITY ==> plan_matches(
        cache,
        aliased_desired(config),
        protected,
        r,
    )
    &&& r matches Ok(p) ==> {
        &&& p.config == local
        &&& p.global_config == Some(config)
        &&& p.source_namespace is None
        &&& layout_in_range(p)
    }
}

impl TerrainCache {
    /// Plans the local window of `config`: refused when the window exceeds
    /// the active capacity, otherwise as `plan_matches` describes for the
    /// window's regions keyed by local id.
    pub fn plan(&self, config: LoadConfig, protected: &BTreeSet<u32>) -> (r: Result<LayoutPlan, PlanError>)
        requires
            self.time() < u64::MAX,
            config.wf(),
        ensures
            legacy_plan_result(*self, config, protected@, r),
    {
        let ids = match crate::resident::active_region_ids(config) {
            Ok(ids) => ids,
            Err(e) => return Err(PlanError::Config(e)),
        };
        let mut desired: Vec<DesiredRegion> = Vec::new();
        let mut k: usize = 0;
        while k < ids.len()
            invariant
                k <= ids@.len(),
                ids@.len() == config.side() * config.side(),
                forall|j: int| 0 <= j < ids@.len() ==> ids@[j] == crate::resident::window_region_id(config, j),
                desired@ =~= legacy_desired(config).take(k as int),
            decreases ids@.len() - k,
        {
            desired.push(legacy_region(ids[k]));
            k += 1;
        }
        assert(desired@ =~= legacy_desired(config));
        self.plan_regions(config, None, None, desired, protected)
    }

    /// Plans a global window with tiles keyed by local id and global
    /// coordinate, so that the same local id at another global place misses.
    pub fn plan_global(&self, config: GlobalTerrainConfig, protected: &BTreeSet<u32>) -> (r: Result<
        LayoutPlan,
        PlanError,
    >)
        requires
            self.time() < u64::MAX,
            config.wf(),
        ensures
            aliased_plan_result(*self, config, protected@, r),
    {
        let local = match config.local_config() {
            Ok(value) => value,
            Err(e) => return Err(PlanError::Config(e)),
        };
        let regions = match config.addressed_regions() {
            Ok(value) => value,
            Err(e) => return Err(PlanError::Config(e)),
        };
        let mut desired: Vec<DesiredRegion> = Vec::new();
        let mut k: usize = 0;
        while k < regions.len()
            invariant
                k <= regions@.len(),
                regions@.len() == local.side() * local.side(),
                local == crate::address::local_of(config),
                forall|j: int| 0 <= j < regions@.len() ==> regions@[j] == crate::address::addressed_at(config, j),
                desired@ =~= aliased_desired(config).take(k as int),
            decreases regions@.len() - k,
        {
            desired.push(aliased_global_region(regions[k]));
            k += 1;
        }
        assert(desired@ =~= aliased_desired(config));
        self.plan_regions(local, Some(config), None, desired, protected)
    }

    /// Plans a global window with tiles keyed by source and global
    /// coordinate, so that a tile survives a shift of the local anchor.
    pub fn plan_canonical_global(
        &self,
        config: GlobalTerrainConfig,
        source_namespace: TerrainSourceNamespace,
        protected: &BTreeSet<u32>,
    ) -> (r: Result<LayoutPlan, PlanError>)
        requires
            self.time() < u64::MAX,
            config.wf(),
        ensures
            ({
                let local = crate::address::local_of(config);
                &&& local.side() * local.side() > TERRAIN_ACTIVE_CAPACITY ==> r == Err::<
                    LayoutPlan,
                    PlanError,
                >(PlanError::Config(ConfigError::ActiveCapacityExceeded))
                &&& local.side() * local.side() <= TERRAIN_ACTIVE_CAPACITY ==> plan_matches(
                    *self,
                    canonical_desired(config, source_namespace),
                    protected@,
                    r,
                )
                &&& r matches Ok(p) ==> {
                    &&& p.config == local
                    &&& p.global_config == Some(config)
                    &&& p.source_namespace == Some(source_namespace)
                    &&& layout_in_range(p)
                }
            }),
    {
        let local = match config.local_config() {
            Ok(value) => value,
            Err(e) => return Err(PlanError::Config(e)),
        };
        let regions = match config.addressed_regions() {
            Ok(value) => value,
            Err(e) => return Err(PlanError::Config(e)),
        };
        let mut desired: Vec<DesiredRegion> = Vec::new();
        let mut k: usize = 0;
        while k < regions.len()
            invariant
                k <= regions@.len(),
                regions@.len() == local.side() * local.side(),
                local == crate::address::local_of(config),
                forall|j: int| 0 <= j < regions@.len() ==> regions@[j] == crate::address::addressed_at(config, j),
                desired@ =~= canonical_desired(config, source_namespace).take(k as int),
            decreases regions@.len() - k,
        {
            desired.push(canonical_global_region(regions[k], source_namespace));
            k += 1;
        }
        assert(desired@ =~= canonical_desired(config, source_namespace));
        self.plan_regions(local, Some(config), Some(source_namespace), desired, protected)
    }
}

impl Default for TerrainCache {
    fn default() -> (r: TerrainCache)
        ensures
            r.table() == Seq::new(TERRAIN_CACHE_CAPACITY as nat, |i: int| None::<CacheEntry>),
            r.time() == 0,
    {
        TerrainCache::new()
    }
}

/// The slot table of a plan outcome.
pub open spec fn outcome_table(o: Option<PlanState>) -> Seq<Option<CacheEntry>> {
    match o {
        Some((slots, _, _)) => slots,
        None => Seq::empty(),
    }
}

/// The uploads of a plan outcome.
pub open spec fn outcome_uploads(o: Option<PlanState>) -> Seq<TerrainAssignment> {
    match o {
        Some((_, uploads, _)) => uploads,
        None => Seq::empty(),
    }
}

/// The evicted slots of a plan outcome.
pub open spec fn outcome_evictions(o: Option<PlanState>) -> Seq<u32> {
    match o {
        Some((_, _, reused)) => reused,
        None => Seq::empty(),
    }
}

} // verus!
