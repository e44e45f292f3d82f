use vstd::prelude::*;

use super::cache::{
    active_of, desired_keys, distinct_keys, has_candidate, has_free, holds, is_candidate,
    is_resident, lemma_place_slot, lemma_run_resident, lemma_run_shape, lemma_slot_of_unique,
    lemma_touch_shape, outcome_evictions, outcome_table, outcome_uploads, place, plan_outcome, run,
    slot_of, touch, CacheEntry, CacheKey, DesiredRegion, PlanState, TerrainAssignment,
    TERRAIN_ACTIVE_CAPACITY, TERRAIN_CACHE_CAPACITY, plan_matches, LayoutPlan, PlanError, TerrainCache,
    resident_count, retained_count, lemma_retained_count_bound, lemma_resident_count_bound,
};
use vstd::set_lib::{lemma_int_range, lemma_len_subset, lemma_len_union, lemma_map_size, set_int_range};

verus! {

/// Placing a region leaves every slot alone except one that was empty or
/// evictable.
proof fn lemma_place_keeps(
    state: PlanState,
    region: DesiredRegion,
    clock: u64,
    protected: Set<u32>,
    keys: Set<CacheKey>,
    i: int,
)
    requires
        place(state, region, clock, protected, keys) is Some,
        0 <= i < state.0.len(),
        state.0[i] is Some,
        protected.contains(i as u32) || keys.contains(state.0[i]->0.key),
    ensures
        outcome_table(place(state, region, clock, protected, keys))[i] == state.0[i],
{
    if !is_resident(state.0, region.key) {
        lemma_place_slot(state, region, protected, keys);
    }
}

/// A run never replaces a tile held by a protected slot or wanted by the plan.
proof fn lemma_run_keeps(
    start: PlanState,
    desired: Seq<DesiredRegion>,
    n: nat,
    clock: u64,
    protected: Set<u32>,
    keys: Set<CacheKey>,
    i: int,
)
    requires
        distinct_keys(start.0),
        n <= desired.len(),
        run(start, desired, n, clock, protected, keys) is Some,
        0 <= i < start.0.len(),
        start.0[i] is Some,
        protected.contains(i as u32) || keys.contains(start.0[i]->0.key),
    ensures
        outcome_table(run(start, desired, n, clock, protected, keys))[i] == start.0[i],
    decreases n,
{
    if n > 0 {
        let m = (n - 1) as nat;
        lemma_run_keeps(start, desired, m, clock, protected, keys, i);
        lemma_run_shape(start, desired, m, clock, protected, keys);
        let prev = run(start, desired, m, clock, protected, keys)->0;
        lemma_place_keeps(prev, desired[n - 1], clock, protected, keys, i);
    }
}

/// A run over regions that are all resident changes nothing.
proof fn lemma_run_all_resident(
    start: PlanState,
    desired: Seq<DesiredRegion>,
    n: nat,
    clock: u64,
    protected: Set<u32>,
    keys: Set<CacheKey>,
)
    requires
        n <= desired.len(),
        forall|i: int| 0 <= i < n ==> is_resident(start.0, #[trigger] desired[i].key),
    ensures
        run(start, desired, n, clock, protected, keys) == Some(start),
    decreases n,
{
    if n > 0 {
        lemma_run_all_resident(start, desired, (n - 1) as nat, clock, protected, keys);
        assert(is_resident(start.0, desired[n - 1].key));
    }
}

/// Law: a successful plan makes every desired region resident, and the
/// active mapping names, for each desired region, the slot that holds its
/// tile.
pub proof fn law_plan_places_desired(
    table: Seq<Option<CacheEntry>>,
    clock: u64,
    desired: Seq<DesiredRegion>,
    protected: Set<u32>,
)
    requires
        table.len() == super::cache::TERRAIN_CACHE_CAPACITY,
        clock < u64::MAX,
        distinct_keys(table),
        plan_outcome(table, clock, desired, protected) is Some,
    ensures
        ({
            let slots = outcome_table(plan_outcome(table, clock, desired, protected));
            let active = active_of(slots, desired);
            &&& distinct_keys(slots)
            &&& slots.len() == table.len()
            &&& forall|i: int|
                0 <= i < desired.len() ==> holds(slots, #[trigger] active[i].slot as int, desired[i].key)
        }),
{
    let now = (clock + 1) as u64;
    let keys = desired_keys(desired);
    lemma_touch_shape(table, keys, now);
    let start: PlanState = (touch(table, keys, now), Seq::empty(), Seq::empty());
    lemma_run_shape(start, desired, desired.len(), now, protected, keys);
    lemma_run_resident(start, desired, desired.len(), now, protected);
    let slots = outcome_table(plan_outcome(table, clock, desired, protected));
    let active = active_of(slots, desired);
    assert forall|i: int| 0 <= i < desired.len() implies holds(slots, #[trigger] active[i].slot as int, desired[i].key) by {
        assert(is_resident(slots, desired[i].key));
        let s = slot_of(slots, desired[i].key);
        assert(holds(slots, s, desired[i].key));
        assert(s as u32 as int == s);
    }
}

/// Law: when the desired regions name distinct tiles, a successful plan
/// gives them distinct slots.
pub proof fn law_active_slots_distinct(
    table: Seq<Option<CacheEntry>>,
    clock: u64,
    desired: Seq<DesiredRegion>,
    protected: Set<u32>,
)
    requires
        table.len() == super::cache::TERRAIN_CACHE_CAPACITY,
        clock < u64::MAX,
        distinct_keys(table),
        plan_outcome(table, clock, desired, protected) is Some,
        forall|i: int, j: int|
            0 <= i < desired.len() && 0 <= j < desired.len() && i != j ==> desired[i].key
                != desired[j].key,
    ensures
        ({
            let active = active_of(outcome_table(plan_outcome(table, clock, desired, protected)), desired);
            forall|i: int, j: int|
                0 <= i < desired.len() && 0 <= j < desired.len() && i != j ==> #[trigger] active[i].slot
                    != #[trigger] active[j].slot
        }),
{
    law_plan_places_desired(table, clock, desired, protected);
}

/// Law: a plan never replaces the tile of a protected slot, nor a tile that
/// the plan itself wants; such slots keep their tile.
pub proof fn law_plan_keeps_protected_and_wanted(
    table: Seq<Option<CacheEntry>>,
    clock: u64,
    desired: Seq<DesiredRegion>,
    protected: Set<u32>,
    i: int,
)
    requires
        table.len() == super::cache::TERRAIN_CACHE_CAPACITY,
        clock < u64::MAX,
        distinct_keys(table),
        plan_outcome(table, clock, desired, protected) is Some,
        0 <= i < table.len(),
        table[i] is Some,
        protected.contains(i as u32) || desired_keys(desired).contains(table[i]->0.key),
    ensures
        outcome_table(plan_outcome(table, clock, desired, protected))[i] is Some,
        outcome_table(plan_outcome(table, clock, desired, protected))[i]->0.key == table[i]->0.key,
{
    let now = (clock + 1) as u64;
    let keys = desired_keys(desired);
    lemma_touch_shape(table, keys, now);
    let start: PlanState = (touch(table, keys, now), Seq::empty(), Seq::empty());
    lemma_run_keeps(start, desired, desired.len(), now, protected, keys, i);
}

/// Law: planning the same regions again right after a successful plan finds
/// every tile resident: nothing is uploaded, nothing is evicted, and each
/// region keeps its slot, whatever is protected the second time.
pub proof fn law_replan_is_full_hit(
    table: Seq<Option<CacheEntry>>,
    clock: u64,
    desired: Seq<DesiredRegion>,
    protected: Set<u32>,
    protected_again: Set<u32>,
)
    requires
        table.len() == super::cache::TERRAIN_CACHE_CAPACITY,
        clock < u64::MAX - 1,
        distinct_keys(table),
        plan_outcome(table, clock, desired, protected) is Some,
    ensures
        ({
            let first = plan_outcome(table, clock, desired, protected)->0;
            let again = plan_outcome(first.0, (clock + 1) as u64, desired, protected_again);
            &&& again is Some
            &&& outcome_uploads(again) == Seq::<TerrainAssignment>::empty()
            &&& outcome_evictions(again) == Seq::<u32>::empty()
            &&& active_of(outcome_table(again), desired) == active_of(first.0, desired)
            &&& outcome_table(again) == touch(first.0, desired_keys(desired), (clock + 2) as u64)
        }),
{
    law_plan_places_desired(table, clock, desired, protected);
    let first = plan_outcome(table, clock, desired, protected)->0;
    let slots = first.0;
    let now = (clock + 2) as u64;
    let keys = desired_keys(desired);
    lemma_touch_shape(slots, keys, now);
    let touched = touch(slots, keys, now);
    let start: PlanState = (touched, Seq::empty(), Seq::empty());
    let active = active_of(slots, desired);
    assert forall|i: int| 0 <= i < desired.len() implies is_resident(touched, #[trigger] desired[i].key) by {
        assert(holds(slots, active[i].slot as int, desired[i].key));
        assert(holds(touched, active[i].slot as int, desired[i].key));
    }
    lemma_run_all_resident(start, desired, desired.len(), now, protected_again, keys);
    assert forall|i: int| 0 <= i < desired.len() implies #[trigger] active_of(touched, desired)[i] == active[i] by {
        assert(holds(slots, active[i].slot as int, desired[i].key));
        assert(holds(touched, active[i].slot as int, desired[i].key));
        lemma_slot_of_unique(touched, active[i].slot as int, desired[i].key);
        lemma_slot_of_unique(slots, active[i].slot as int, desired[i].key);
    }
    assert(active_of(touched, desired) =~= active);
}

/// The keys that a list of desired regions names are no more than the
/// regions themselves.
proof fn lemma_desired_keys_bound(desired: Seq<DesiredRegion>)
    ensures
        desired_keys(desired).finite(),
        desired_keys(desired).len() <= desired.len(),
{
    let named = desired.map_values(|d: DesiredRegion| d.key);
    assert(desired_keys(desired) =~= named.to_set()) by {
        assert forall|k: CacheKey| desired_keys(desired).contains(k) implies named.to_set().contains(k) by {
            let i = choose|i: int| 0 <= i < desired.len() && desired[i].key == k;
            assert(named[i] == k);
        }
        assert forall|k: CacheKey| named.to_set().contains(k) implies desired_keys(desired).contains(k) by {
            let i = choose|i: int| 0 <= i < named.len() && named[i] == k;
            assert(desired[i].key == k);
        }
    }
    named.lemma_cardinality_of_set();
    vstd::seq_lib::seq_to_set_is_finite(named);
}

/// A full table in which no slot may be evicted while `key` is missing has
/// every slot protected or holding one of the other wanted tiles, so it
/// cannot be larger than those two groups together.
proof fn lemma_full_table_bound(
    slots: Seq<Option<CacheEntry>>,
    protected: Set<u32>,
    keys: Set<CacheKey>,
    key: CacheKey,
)
    requires
        slots.len() == TERRAIN_CACHE_CAPACITY,
        distinct_keys(slots),
        !has_free(slots),
        !has_candidate(slots, protected, keys),
        protected.finite(),
        keys.finite(),
        keys.contains(key),
        !is_resident(slots, key),
    ensures
        slots.len() + 1 <= protected.len() + keys.len(),
{
    let n = slots.len() as int;
    let all = set_int_range(0, n);
    lemma_int_range(0, n);
    let guarded = all.filter(|i: int| protected.contains(i as u32));
    let wanted = all.filter(|i: int| !protected.contains(i as u32));
    let as_slot = |i: int| i as u32;
    let key_at = |i: int| slots[i]->0.key;
    lemma_len_subset(guarded, all);
    lemma_len_subset(wanted, all);
    assert(all =~= guarded.union(wanted));
    lemma_len_union(guarded, wanted);
    // The protected slots are distinct slot numbers of `protected`.
    assert forall|a: int, b: int| guarded.contains(a) && guarded.contains(b) && #[trigger] as_slot(a)
        == #[trigger] as_slot(b) implies a == b by {}
    lemma_map_size(guarded, guarded.map(as_slot), as_slot);
    lemma_len_subset(guarded.map(as_slot), protected);
    // The other slots hold distinct wanted tiles, none of them `key`.
    assert forall|i: int| wanted.contains(i) implies slots[i] is Some && keys.contains(#[trigger] key_at(i))
        && key_at(i) != key by {
        assert(!(0 <= i < slots.len() && slots[i] is None));
        assert(!is_candidate(slots, protected, keys, i));
        assert(!holds(slots, i, key));
    }
    assert forall|a: int, b: int| wanted.contains(a) && wanted.contains(b) && #[trigger] key_at(a)
        == #[trigger] key_at(b) implies a == b by {}
    lemma_map_size(wanted, wanted.map(key_at), key_at);
    assert(wanted.map(key_at).subset_of(keys.remove(key)));
    lemma_len_subset(wanted.map(key_at), keys.remove(key));
}

/// Placing regions one after another never runs out of slots while the
/// regions and the protected slots each fit in one active window.
proof fn lemma_run_finds_slots(
    start: PlanState,
    desired: Seq<DesiredRegion>,
    n: nat,
    clock: u64,
    protected: Set<u32>,
)
    requires
        start.0.len() == TERRAIN_CACHE_CAPACITY,
        distinct_keys(start.0),
        n <= desired.len(),
        desired.len() <= TERRAIN_ACTIVE_CAPACITY,
        protected.finite(),
        protected.len() <= TERRAIN_ACTIVE_CAPACITY,
    ensures
        run(start, desired, n, clock, protected, desired_keys(desired)) is Some,
    decreases n,
{
    let keys = desired_keys(desired);
    if n > 0 {
        let m = (n - 1) as nat;
        lemma_run_finds_slots(start, desired, m, clock, protected);
        lemma_run_shape(start, desired, m, clock, protected, keys);
        let prev = run(start, desired, m, clock, protected, keys)->0;
        let region = desired[n - 1];
        if !is_resident(prev.0, region.key) && !has_free(prev.0) && !has_candidate(prev.0, protected, keys) {
            lemma_desired_keys_bound(desired);
            assert(keys.contains(region.key));
            lemma_full_table_bound(prev.0, protected, keys, region.key);
        }
    }
}

/// Law: the cache holds two active windows of tiles, so a plan of at most
/// one window of regions, with at most one window of protected slots, never
/// fails for want of a slot to evict.
pub proof fn law_plan_always_finds_slots(
    table: Seq<Option<CacheEntry>>,
    clock: u64,
    desired: Seq<DesiredRegion>,
    protected: Set<u32>,
)
    requires
        table.len() == TERRAIN_CACHE_CAPACITY,
        distinct_keys(table),
        desired.len() <= TERRAIN_ACTIVE_CAPACITY,
        protected.finite(),
        protected.len() <= TERRAIN_ACTIVE_CAPACITY,
    ensures
        plan_outcome(table, clock, desired, protected) is Some,
{
    let now = (clock + 1) as u64;
    let keys = desired_keys(desired);
    lemma_touch_shape(table, keys, now);
    let start: PlanState = (touch(table, keys, now), Seq::empty(), Seq::empty());
    lemma_run_finds_slots(start, desired, desired.len(), now, protected);
}

/// Law, on the plans that `TerrainCache::plan`, `plan_global` and
/// `plan_canonical_global` return: planning the same regions on the cache
/// that a successful plan leaves succeeds, uploads nothing, evicts nothing
/// and gives every region the slot it had, whatever is protected.
pub proof fn law_replanned_plan_is_full_hit(
    cache: TerrainCache,
    desired: Seq<DesiredRegion>,
    protected: Set<u32>,
    first: LayoutPlan,
    protected_again: Set<u32>,
    again: Result<LayoutPlan, PlanError>,
)
    requires
        cache.table().len() == TERRAIN_CACHE_CAPACITY,
        distinct_keys(cache.table()),
        cache.time() < u64::MAX - 1,
        plan_matches(cache, desired, protected, Ok(first)),
        plan_matches(first.next_cache, desired, protected_again, again),
    ensures
        again matches Ok(q) && q.assignments@.len() == 0 && q.reused_slots@.len() == 0 && q.active@
            == first.active@ && q.counts.uploaded_region_count == 0 && q.counts.evicted_region_count == 0
            && q.counts.retained_region_count == desired_keys(desired).len()
            && q.counts.resident_region_count == first.counts.resident_region_count,
{
    let keys = desired_keys(desired);
    law_replan_is_full_hit(cache.table(), cache.time(), desired, protected, protected_again);
    law_plan_places_desired(cache.table(), cache.time(), desired, protected);
    let slots = first.next_cache.table();
    lemma_touch_shape(slots, keys, (cache.time() + 2) as u64);
    lemma_resident_touch(slots, keys, (cache.time() + 2) as u64);
    assert forall|k: CacheKey| keys.contains(k) implies is_resident(slots, k) by {
        let i = choose|i: int| 0 <= i < desired.len() && desired[i].key == k;
        let active = active_of(slots, desired);
        assert(holds(slots, active[i].slot as int, desired[i].key));
    }
    lemma_retained_all(slots, keys);
    lemma_retained_count_bound(slots, keys);
    lemma_resident_count_bound(slots);
}

/// Marking tiles as used keeps the number of occupied slots.
proof fn lemma_resident_touch(slots: Seq<Option<CacheEntry>>, keys: Set<CacheKey>, clock: u64)
    ensures
        resident_count(touch(slots, keys, clock)) == resident_count(slots),
    decreases slots.len(),
{
    if slots.len() > 0 {
        lemma_resident_touch(slots.drop_last(), keys, clock);
        assert(touch(slots, keys, clock).drop_last() =~= touch(slots.drop_last(), keys, clock));
    }
}

/// The occupied slots among the first `n` whose tile is among `keys`.
spec fn retained_slots(slots: Seq<Option<CacheEntry>>, keys: Set<CacheKey>, n: int) -> Set<int> {
    Set::new(|i: int| 0 <= i < n && slots[i] is Some && keys.contains(slots[i]->0.key))
}

/// `retained_count` counts the slots of `retained_slots`.
proof fn lemma_retained_slots(slots: Seq<Option<CacheEntry>>, keys: Set<CacheKey>, n: int)
    requires
        0 <= n <= slots.len(),
    ensures
        retained_slots(slots, keys, n).finite(),
        retained_count(slots.take(n), keys) == retained_slots(slots, keys, n).len(),
    decreases n,
{
    if n == 0 {
        assert(retained_slots(slots, keys, 0) =~= Set::<int>::empty());
    } else {
        lemma_retained_slots(slots, keys, n - 1);
        assert(slots.take(n).drop_last() =~= slots.take(n - 1));
        let before = retained_slots(slots, keys, n - 1);
        if slots[n - 1] is Some && keys.contains(slots[n - 1]->0.key) {
            assert(retained_slots(slots, keys, n) =~= before.insert(n - 1));
            assert(!before.contains(n - 1));
        } else {
            assert(retained_slots(slots, keys, n) =~= before);
        }
    }
}

/// When every tile of `keys` is resident and no tile is held twice, the
/// retained slots are exactly as many as the keys.
proof fn lemma_retained_all(slots: Seq<Option<CacheEntry>>, keys: Set<CacheKey>)
    requires
        distinct_keys(slots),
        forall|k: CacheKey| keys.contains(k) ==> is_resident(slots, k),
    ensures
        retained_count(slots, keys) == keys.len(),
{
    let n = slots.len() as int;
    lemma_retained_slots(slots, keys, n);
    assert(slots.take(n) =~= slots);
    let held = retained_slots(slots, keys, n);
    let key_at = |i: int| slots[i]->0.key;
    assert forall|a: int, b: int| held.contains(a) && held.contains(b) && #[trigger] key_at(a)
        == #[trigger] key_at(b) implies a == b by {}
    assert(held.map(key_at) =~= keys) by {
        assert forall|k: CacheKey| keys.contains(k) implies held.map(key_at).contains(k) by {
            let i = choose|i: int| holds(slots, i, k);
            assert(held.contains(i) && key_at(i) == k);
        }
    }
    lemma_map_size(held, keys, key_at);
}

} // verus!
