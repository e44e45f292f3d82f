use std::collections::BTreeSet;

use workbench::address::GlobalTerrainConfig;
use workbench::terrain::cache::{LayoutPlan, TerrainCache, TerrainSourceNamespace};

fn active_slots(plan: &LayoutPlan) -> BTreeSet<u32> {
    plan.active.iter().map(|entry| entry.slot).collect()
}

#[test]
fn alias_miss_is_global() {
    let zero = GlobalTerrainConfig::new(0, 0, 0, 0, 2).unwrap();
    let first = TerrainCache::default()
        .plan_global(zero, &BTreeSet::new())
        .unwrap();
    assert_eq!(first.counts.uploaded_region_count, 25);

    let far = 1_i64 << 40;
    let shifted = GlobalTerrainConfig::new(far, -far, far, -far, 2).unwrap();
    let second = first
        .next_cache
        .plan_global(shifted, &active_slots(&first))
        .unwrap();
    assert_eq!(second.counts.retained_region_count, 0);
    assert_eq!(second.counts.uploaded_region_count, 25);
    assert_eq!(second.counts.resident_region_count, 50);
    assert_eq!(
        first
            .active
            .iter()
            .map(|entry| entry.region_id)
            .collect::<Vec<_>>(),
        second
            .active
            .iter()
            .map(|entry| entry.region_id)
            .collect::<Vec<_>>()
    );
}

#[test]
fn adjacent_revisit_hits() {
    let origin = GlobalTerrainConfig::new(0, 0, 0, 0, 2).unwrap();
    let first = TerrainCache::default()
        .plan_global(origin, &BTreeSet::new())
        .unwrap();
    let adjacent_config = GlobalTerrainConfig::new(0, 0, 1, 0, 2).unwrap();
    let adjacent = first
        .next_cache
        .plan_global(adjacent_config, &active_slots(&first))
        .unwrap();
    assert_eq!(adjacent.counts.retained_region_count, 20);
    assert_eq!(adjacent.counts.uploaded_region_count, 5);
    assert_eq!(adjacent.counts.resident_region_count, 30);

    let revisit = adjacent
        .next_cache
        .plan_global(origin, &active_slots(&adjacent))
        .unwrap();
    assert_eq!(revisit.counts.retained_region_count, 25);
    assert_eq!(revisit.counts.uploaded_region_count, 0);
    assert_eq!(revisit.counts.payload_bytes, 0);
}

#[test]
fn canonical_rebind_retains_slots() {
    let source = TerrainSourceNamespace([7; 32]);
    let far = 1_i64 << 40;
    let first_config = GlobalTerrainConfig::new(far, -far, far, -far, 2).unwrap();
    let first = TerrainCache::default()
        .plan_canonical_global(first_config, source, &BTreeSet::new())
        .unwrap();
    let shifted_config = GlobalTerrainConfig::new(far - 32, -far, far, -far, 2).unwrap();
    let shifted = first
        .next_cache
        .plan_canonical_global(shifted_config, source, &active_slots(&first))
        .unwrap();
    assert_eq!(shifted.counts.retained_region_count, 25);
    assert_eq!(shifted.counts.uploaded_region_count, 0);
    assert_eq!(shifted.counts.resident_region_count, 25);
    assert_ne!(
        first
            .active
            .iter()
            .map(|entry| entry.region_id)
            .collect::<Vec<_>>(),
        shifted
            .active
            .iter()
            .map(|entry| entry.region_id)
            .collect::<Vec<_>>()
    );
    assert_eq!(
        first
            .active
            .iter()
            .map(|entry| (entry.global_region, entry.slot))
            .collect::<Vec<_>>(),
        shifted
            .active
            .iter()
            .map(|entry| (entry.global_region, entry.slot))
            .collect::<Vec<_>>()
    );

    let changed_source = shifted
        .next_cache
        .plan_canonical_global(
            first_config,
            TerrainSourceNamespace([8; 32]),
            &BTreeSet::new(),
        )
        .unwrap();
    assert_eq!(changed_source.counts.retained_region_count, 0);
    assert_eq!(changed_source.counts.uploaded_region_count, 25);
    assert_eq!(changed_source.counts.resident_region_count, 50);
}
