use workbench::address::GlobalRegionConfig;
use workbench::composition::global::{addressed, evidence, local_ids};
use workbench::load::{ConfigError, LoadConfig, MAX_REGION_SIDE};
use workbench::resident::{active_region_ids, canonical_stable_key};
use workbench::world::RegionCoord;

#[test]
fn load_configs_fit_the_world_window() {
    assert_eq!(LoadConfig::new(0, 64, 64, 0).err(), Some(ConfigError::WorldSideOutOfRange));
    assert_eq!(LoadConfig::new(129, 64, 64, 0).err(), Some(ConfigError::WorldSideOutOfRange));
    assert_eq!(LoadConfig::new(128, 1, 64, 2).err(), Some(ConfigError::CenterOutOfWindow));
    assert_eq!(LoadConfig::new(128, 64, 126, 2).err(), Some(ConfigError::CenterOutOfWindow));
    assert!(LoadConfig::new(128, 2, 125, 2).is_ok());
    assert_eq!(LoadConfig::new(64, 33, 64, 2).err(), Some(ConfigError::CenterOutOfWindow));
    assert!(LoadConfig::new(64, 34, 93, 2).is_ok());
    assert_eq!(LoadConfig::new(64, 34, 94, 2).err(), Some(ConfigError::CenterOutOfWindow));
    let config = LoadConfig::new(128, 64, 64, 2).unwrap();
    assert_eq!(config.active_region_count(), 25);
    assert!(config.is_valid());
    let broken = LoadConfig { world_region_side: 200, ..config };
    assert!(!broken.is_valid());
}

#[test]
fn active_ids_walk_the_window_row_by_row() {
    let config = LoadConfig::new(MAX_REGION_SIDE, 64, 64, 1).unwrap();
    let ids = active_region_ids(config).unwrap();
    assert_eq!(
        ids,
        vec![
            63 * 128 + 63,
            63 * 128 + 64,
            63 * 128 + 65,
            64 * 128 + 63,
            64 * 128 + 64,
            64 * 128 + 65,
            65 * 128 + 63,
            65 * 128 + 64,
            65 * 128 + 65,
        ]
    );
    let wide = LoadConfig::new(MAX_REGION_SIDE, 64, 64, 3).unwrap();
    assert_eq!(active_region_ids(wide).err(), Some(ConfigError::ActiveCapacityExceeded));
}

#[test]
fn stable_keys_mix_the_local_index() {
    assert_eq!(canonical_stable_key(5, 0), 5);
    assert_eq!(canonical_stable_key(0, 1), 747_796_405);
    assert_eq!(canonical_stable_key(0, 10), 3_182_996_754);
    assert_eq!(canonical_stable_key(3_182_996_754, 10), 0);
}

#[test]
fn global_windows_anchor_the_local_grid() {
    let config = GlobalRegionConfig::new(0, 0, 0, 0, 2).unwrap();
    let local = config.local_config().unwrap();
    assert_eq!((local.active_center_x, local.active_center_z), (64, 64));
    assert_eq!(local.world_region_side, 128);
    let shifted = GlobalRegionConfig::new(100, -100, 130, -70, 1).unwrap();
    let local = shifted.local_config().unwrap();
    assert_eq!((local.active_center_x, local.active_center_z), (94, 94));

    assert_eq!(
        GlobalRegionConfig::new(0, 0, 64, 0, 2).err(),
        Some(ConfigError::CenterOutOfWindow)
    );
    assert_eq!(
        GlobalRegionConfig::new(0, 0, i64::MAX, 0, 2).err(),
        Some(ConfigError::CoordinateOverflow)
    );
    assert_eq!(
        GlobalRegionConfig::new(i64::MAX, 0, i64::MIN, 0, 0).err(),
        Some(ConfigError::CenterOutOfWindow)
    );
}

#[test]
fn addressed_regions_carry_global_and_local_places() {
    let config = GlobalRegionConfig::new(10, 20, 11, 19, 2).unwrap();
    let regions = config.addressed_regions().unwrap();
    assert_eq!(regions.len(), 25);
    assert_eq!(regions[0].global_region, RegionCoord::new(9, 17));
    assert_eq!(regions[0].local_region_id, 61 * 128 + 63);
    assert_eq!(regions[24].global_region, RegionCoord::new(13, 21));
    assert_eq!(regions[24].local_region_id, 65 * 128 + 67);
    let wide = GlobalRegionConfig::new(0, 0, 0, 0, 3).unwrap();
    assert_eq!(wide.addressed_regions().err(), Some(ConfigError::ActiveCapacityExceeded));

    assert!(addressed(None).unwrap().is_none());
    let listed = addressed(Some(config)).unwrap().unwrap();
    assert_eq!(listed, regions);
    assert_eq!(addressed(Some(wide)).err(), Some(ConfigError::ActiveCapacityExceeded));
}

#[test]
fn composition_ids_and_evidence() {
    let config = GlobalRegionConfig::new(0, 0, 0, 0, 1).unwrap();
    let regions = config.addressed_regions().unwrap();
    let local = config.local_config().unwrap();
    let ids = local_ids(Some(regions.as_slice()), local).unwrap();
    assert_eq!(ids, regions.iter().map(|r| r.local_region_id).collect::<Vec<_>>());
    assert_eq!(local_ids(None, local).unwrap(), active_region_ids(local).unwrap());

    let (globals, digest) = evidence(Some(regions.as_slice()));
    assert_eq!(globals.unwrap(), regions.iter().map(|r| r.global_region).collect::<Vec<_>>());
    let digest = digest.unwrap();
    assert_eq!(digest.len(), 64);
    let moved = GlobalRegionConfig::new(1, 0, 1, 0, 1).unwrap().addressed_regions().unwrap();
    assert_ne!(evidence(Some(moved.as_slice())).1.unwrap(), digest);
    assert_eq!(evidence(None), (None, None));
}
