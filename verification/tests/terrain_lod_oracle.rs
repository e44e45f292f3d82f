use workbench::load::LoadConfig;
use workbench::terrain::cache::TerrainAssignment;
use workbench::terrain::lod_oracle::{evaluate, EdgeAxis, LodError};
use workbench::terrain::projection::TerrainProjection;
use workbench::terrain::surface::TileHeights;

const SIDE: usize = 33;

fn tile(region_id: u32, height: impl Fn(usize, usize) -> i16) -> TileHeights {
    let mut heights = Vec::with_capacity(SIDE * SIDE);
    for z in 0..SIDE {
        for x in 0..SIDE {
            heights.push(height(x, z));
        }
    }
    TileHeights { region_id, heights }
}

fn region(x: u32, z: u32) -> u32 {
    z * 128 + x
}

fn assignment(slot: u32, region_id: u32) -> TerrainAssignment {
    TerrainAssignment { slot, region_id, global_region: None }
}

/// The window of radius `radius` around region (64, 64), each tile made by
/// `make`.
fn window(radius: u32, make: impl Fn(u32) -> TileHeights) -> (LoadConfig, Vec<TerrainAssignment>, Vec<TileHeights>) {
    let config = LoadConfig::new(128, 64, 64, radius).unwrap();
    let side = radius * 2 + 1;
    let mut active = Vec::new();
    let mut tiles = Vec::new();
    for dz in 0..side {
        for dx in 0..side {
            let id = region(64 - radius + dx, 64 - radius + dz);
            active.push(assignment(active.len() as u32, id));
            tiles.push(make(id));
        }
    }
    (config, active, tiles)
}

#[test]
fn one_region_near_the_camera() {
    let (config, active, tiles) = window(0, |id| tile(id, |x, z| (x + 100 * z) as i16));
    let projection = TerrainProjection::new(config, false).unwrap();
    let oracle = evaluate(config, &active, &tiles, [256, 256], projection).unwrap();
    assert_eq!(oracle.patches, 16);
    assert_eq!(oracle.lod_counts, [9, 7, 0]);
    assert_eq!(oracle.vertices, 9 * 81 + 7 * 25);
    assert_eq!(oracle.triangles, 9 * 128 + 7 * 32);
    assert_eq!(oracle.baseline_vertices, 1296);
    assert_eq!(oracle.baseline_triangles, 2048);
    assert_eq!(oracle.reduced_vertices, 1296 - 904);
    assert_eq!(oracle.reduced_triangles, 2048 - 1376);
    assert_eq!(oracle.edges.patch_edges, 24);
    assert_eq!(oracle.edges.same_lod_edges, 18);
    assert_eq!(oracle.edges.transition_edges, 6);
    assert_eq!(oracle.edges.adjusted_vertices, 24);
    assert_eq!(oracle.edges.sample_comparisons, 216);
    assert_eq!(oracle.edges.max_lod_delta, 1);
    assert_eq!(oracle.edges.mismatch_count, 0);
    assert!(oracle.edges.first_mismatch.is_none());
    assert_eq!(oracle.lod_sha256.len(), 64);
}

#[test]
fn the_digest_follows_the_levels() {
    let (config, active, tiles) = window(0, |id| tile(id, |_, _| 0));
    let projection = TerrainProjection::new(config, false).unwrap();
    let near = evaluate(config, &active, &tiles, [256, 256], projection).unwrap();
    let far = evaluate(config, &active, &tiles, [0, 0], projection).unwrap();
    assert_eq!(far.lod_counts, [0, 0, 16]);
    assert_eq!(far.vertices, 16 * 9);
    assert_ne!(near.lod_sha256, far.lod_sha256);
}

#[test]
fn flat_tiles_have_no_seams_across_regions() {
    let (config, active, tiles) = window(1, |id| tile(id, |_, _| 7));
    let projection = TerrainProjection::new(config, false).unwrap();
    let oracle = evaluate(config, &active, &tiles, [256, 256], projection).unwrap();
    assert_eq!(oracle.patches, 144);
    assert_eq!(oracle.edges.patch_edges, 2 * 12 * 11);
    assert_eq!(oracle.edges.mismatch_count, 0);
}

#[test]
fn a_raised_boundary_is_a_seam() {
    let center = region(64, 64);
    let (config, active, tiles) = window(1, |id| {
        if id == center {
            tile(id, |x, _| if x == 0 { 5 } else { 0 })
        } else {
            tile(id, |_, _| 0)
        }
    });
    let projection = TerrainProjection::new(config, false).unwrap();
    let oracle = evaluate(config, &active, &tiles, [0, 0], projection).unwrap();
    assert!(oracle.edges.mismatch_count > 0);
    let first = oracle.edges.first_mismatch.unwrap();
    assert_eq!(first.axis, EdgeAxis::Z);
    assert_eq!(first.patch, (256, 255));
    assert_eq!(first.neighbor_patch, (256, 256));
    assert_eq!(first.sample, 0);
    assert_eq!(first.value_numerator, 0);
    assert_eq!(first.neighbor_numerator, 5 * first.denominator as i32);
}

#[test]
fn the_oracle_refuses_bad_snapshots() {
    let (config, active, tiles) = window(0, |id| tile(id, |_, _| 0));
    let projection = TerrainProjection::new(config, false).unwrap();
    assert_eq!(
        evaluate(config, &active, &Vec::new(), [0, 0], projection).err(),
        Some(LodError::ShapeMismatch)
    );
    let foreign = vec![tile(region(1, 1), |_, _| 0)];
    assert_eq!(
        evaluate(config, &active, &foreign, [0, 0], projection).err(),
        Some(LodError::TileMismatch)
    );
    let wide = LoadConfig::new(128, 64, 64, 1).unwrap();
    let wide_projection = TerrainProjection::new(wide, false).unwrap();
    assert_eq!(
        evaluate(wide, &active, &tiles, [0, 0], wide_projection).err(),
        Some(LodError::IncompleteMapping)
    );
}
