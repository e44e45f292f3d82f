use workbench::address::GlobalRegionConfig;
use workbench::composition::rollover::{
    checked_camera_delta, RolloverBasis, RolloverError, RolloverPolicy, RolloverState,
};
use workbench::load::LoadConfig;
use workbench::world::RegionCoord;

fn basis(origin_x: i64) -> RolloverBasis {
    RolloverBasis {
        world_region_side: 128,
        active_radius: 2,
        global_origin: RegionCoord::new(origin_x, 0),
    }
}

#[test]
fn the_canonical_band() {
    let policy = RolloverPolicy::canonical();
    assert_eq!(policy.minimum_local_center, 32);
    assert_eq!(policy.maximum_local_center, 96);
    assert_eq!(policy.recenter_local_center, 64);
}

#[test]
fn targets_inside_the_band_keep_the_anchor() {
    let policy = RolloverPolicy::canonical();
    let config = LoadConfig::new(128, 70, 64, 2).unwrap();
    let target = policy.target(basis(0), config).unwrap();
    assert_eq!(target.config, config);
    assert_eq!(target.global_config.global_origin, RegionCoord::new(0, 0));
    assert_eq!(target.global_config.global_center, RegionCoord::new(6, 0));
}

#[test]
fn targets_outside_the_band_recenter_the_axis() {
    let policy = RolloverPolicy::canonical();
    let config = LoadConfig::new(128, 100, 64, 2).unwrap();
    let target = policy.target(basis(0), config).unwrap();
    assert_eq!(target.config, LoadConfig::new(128, 64, 64, 2).unwrap());
    assert_eq!(target.global_config.global_origin, RegionCoord::new(36, 0));
    assert_eq!(target.global_config.global_center, RegionCoord::new(36, 0));
}

#[test]
fn targets_are_refused_with_their_reason() {
    let policy = RolloverPolicy::canonical();
    let config = LoadConfig::new(128, 100, 64, 2).unwrap();
    assert_eq!(policy.target(basis(i64::MAX), config).err(), Some(RolloverError::Overflow));
    let narrow = RolloverBasis { world_region_side: 64, ..basis(0) };
    let inner = LoadConfig::new(64, 64, 64, 2).unwrap();
    assert_eq!(policy.target(narrow, inner).err(), Some(RolloverError::Diverged));
}

#[test]
fn committing_moves_the_anchor_and_shifts_the_camera() {
    let policy = RolloverPolicy::canonical();
    let target = policy
        .target(basis(0), LoadConfig::new(128, 100, 64, 2).unwrap())
        .unwrap();
    let mut state = RolloverState::new();
    state.activate();
    let mut current = basis(0);
    assert_eq!(state.commit(7, &mut current, target), Ok(()));
    assert_eq!(current.global_origin, RegionCoord::new(36, 0));
    assert_eq!(state.count, 1);
    assert_eq!(state.cumulative_camera_delta_regions, [-36, 0]);
    let event = state.last.unwrap();
    assert_eq!(event.token, 7);
    assert_eq!(event.camera_delta_regions, [-36, 0]);
    assert_eq!(event.camera_delta_meters, [-576, 0]);
    assert_eq!(state.take_camera_delta(), Some([-36, 0]));
    assert_eq!(state.take_camera_delta(), None);

    assert_eq!(state.commit(8, &mut current, target), Ok(()));
    assert_eq!(state.count, 1);

    let mut diverged = target;
    diverged.config = LoadConfig::new(128, 65, 64, 2).unwrap();
    assert_eq!(state.commit(9, &mut current, diverged), Err(RolloverError::Diverged));

    let far = GlobalRegionConfig::new(1 << 40, 0, 1 << 40, 0, 2).unwrap();
    let far_target = workbench::composition::rollover::TraversalTarget {
        config: far.local_config().unwrap(),
        global_config: far,
    };
    assert_eq!(
        state.commit(10, &mut current, far_target),
        Err(RolloverError::ExceedsLocalExtent)
    );
    state.deactivate();
    assert!(!state.active);
}

#[test]
fn camera_deltas_fit_an_i32() {
    assert_eq!(checked_camera_delta(5, 3), Ok(2));
    assert_eq!(checked_camera_delta(3, 5), Ok(-2));
    assert_eq!(checked_camera_delta(0, 1 << 40), Err(RolloverError::ExceedsLocalExtent));
    assert_eq!(checked_camera_delta(i64::MIN, 1), Err(RolloverError::Overflow));
}
