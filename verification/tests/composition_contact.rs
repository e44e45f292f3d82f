use workbench::composition::contact::{
    evaluate, percentile, summarize, ContactError, ContactInput, ContactSample,
};
use workbench::load::LoadConfig;
use workbench::terrain::cache::TerrainAssignment;
use workbench::terrain::projection::TerrainProjection;
use workbench::terrain::surface::TileHeights;

const CENTER: u32 = 64 * 128 + 64;

fn planar() -> TileHeights {
    let mut heights = Vec::with_capacity(33 * 33);
    for z in 0..33 {
        for x in 0..33 {
            heights.push((x + 100 * z) as i16);
        }
    }
    TileHeights { region_id: CENTER, heights }
}

fn input() -> ContactInput {
    let config = LoadConfig::new(128, 64, 64, 0).unwrap();
    ContactInput {
        assignments: vec![TerrainAssignment { slot: 0, region_id: CENTER, global_region: None }],
        tiles: vec![planar()],
        local_ids: vec![vec![7, 3, 5]],
        positions: vec![vec![Ok([128, 64]), Ok([2048, 4096]), Ok([4096, 4096])]],
        exact_ground: vec![50, 3217, 3000],
        ground_denominator: 512,
        camera_patch: [256, 256],
        projection: TerrainProjection::new(config, false).unwrap(),
    }
}

#[test]
fn residuals_are_counted_and_ranked() {
    let probe = evaluate(&input()).unwrap();
    assert_eq!(probe.denominator, 262_144);
    assert_eq!(probe.sample_count, 3);
    assert_eq!(probe.owner_patch_lod_counts, [3, 0, 0]);
    assert_eq!(probe.negative_count, 1);
    assert_eq!(probe.zero_count, 0);
    assert_eq!(probe.positive_count, 2);
    assert_eq!(probe.minimum_residual_numerator, -512);
    assert_eq!(probe.maximum_residual_numerator, 118_784);
    assert_eq!(probe.maximum_absolute_numerator, 118_784);
    assert_eq!(probe.absolute_p50_numerator, 512);
    assert_eq!(probe.absolute_p95_numerator, 118_784);
    assert_eq!(probe.absolute_p99_numerator, 118_784);
    assert_eq!(probe.threshold_numerator, 32_768);
    assert_eq!(probe.exceedance_count, 1);
    let first = probe.first_exceedance.unwrap();
    assert_eq!(first.local_index, 5);
    assert_eq!(first.region_id, CENTER);
    assert_eq!(first.exact_ground_q18, 1_536_000);
    assert_eq!(first.selected_surface_q18, 1_654_784);
    assert_eq!(first.residual_q18, 118_784);
}

#[test]
fn identity_keyed_digests_ignore_sample_order() {
    let forward = evaluate(&input()).unwrap();
    let mut swapped = input();
    swapped.local_ids = vec![vec![3, 7, 5]];
    swapped.positions = vec![vec![Ok([2048, 4096]), Ok([128, 64]), Ok([4096, 4096])]];
    swapped.exact_ground = vec![3217, 50, 3000];
    let backward = evaluate(&swapped).unwrap();
    assert_ne!(forward.selected_surface_sha256, backward.selected_surface_sha256);
    assert_eq!(
        forward.identity_keyed_selected_surface_sha256,
        backward.identity_keyed_selected_surface_sha256
    );
    assert_eq!(forward.identity_keyed_residual_sha256, backward.identity_keyed_residual_sha256);
}

#[test]
fn the_probe_refuses_bad_snapshots() {
    let mut shape = input();
    shape.tiles.clear();
    assert_eq!(evaluate(&shape).err(), Some(ContactError::ShapeMismatch));

    let mut ground = input();
    ground.exact_ground.push(0);
    assert_eq!(evaluate(&ground).err(), Some(ContactError::GroundShapeMismatch));

    let mut denominator = input();
    denominator.ground_denominator = 3;
    assert_eq!(evaluate(&denominator).err(), Some(ContactError::DenominatorIncompatible));
    denominator.ground_denominator = 0;
    assert_eq!(evaluate(&denominator).err(), Some(ContactError::DenominatorIncompatible));

    let mut tile = input();
    tile.tiles[0].region_id += 1;
    assert_eq!(evaluate(&tile).err(), Some(ContactError::TileMismatch));

    let mut position = input();
    position.positions[0][1] = Err(ContactError::PositionOutsideRegion);
    assert_eq!(evaluate(&position).err(), Some(ContactError::PositionOutsideRegion));
}

#[test]
fn an_empty_summary_has_neutral_extremes() {
    let probe = summarize(&Vec::<ContactSample>::new());
    assert_eq!(probe.sample_count, 0);
    assert_eq!(probe.minimum_residual_numerator, i32::MAX);
    assert_eq!(probe.maximum_residual_numerator, i32::MIN);
    assert_eq!(probe.maximum_absolute_numerator, 0);
    assert_eq!(probe.absolute_p50_numerator, 0);
    assert!(probe.first_exceedance.is_none());
}

#[test]
fn percentiles_take_the_nearest_rank() {
    let sorted = [1, 2, 3, 4, 5, 6, 7, 8, 9, 10];
    assert_eq!(percentile(&sorted, 50), 5);
    assert_eq!(percentile(&sorted, 95), 10);
    assert_eq!(percentile(&sorted, 99), 10);
    assert_eq!(percentile(&sorted, 0), 1);
    assert_eq!(percentile(&[], 50), 0);
}

#[test]
fn ground_anywhere_in_the_i32_range_is_sampled() {
    let mut large = input();
    large.ground_denominator = 262_144;
    large.exact_ground = vec![2_000_000_000, 25_600, -2_000_000_000];
    let probe = evaluate(&large).unwrap();
    let first = probe.first_exceedance.unwrap();
    assert_eq!(first.exact_ground_q18, 2_000_000_000);
    assert_eq!(first.selected_surface_q18, 26_112);
    assert_eq!(first.residual_q18, 26_112 - 2_000_000_000);
    assert_eq!(probe.minimum_residual_numerator, 26_112 - 2_000_000_000);
    assert_eq!(probe.negative_count, 1);
}
