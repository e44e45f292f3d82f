use workbench::load::{LoadConfig, MAX_REGION_SIDE};
use workbench::terrain::cache::TerrainSourceNamespace;
use workbench::terrain::projection::{ProjectionError, TerrainProjection};

const REGION_SIDE_METERS: f32 = 16.0;

#[derive(Clone, Copy, Debug, PartialEq)]
struct Camera {
    position: [f32; 3],
    target: [f32; 3],
}

fn camera(offset_regions: i32) -> Camera {
    let offset = offset_regions as f32 * REGION_SIDE_METERS;
    Camera {
        position: [9.0 + offset, 6.0, 12.0],
        target: [offset, 1.0, -3.0],
    }
}

/// Brings a camera into render space: a canonical projection moves it back
/// by the alias offset of its window.
fn project_camera(projection: TerrainProjection, mut camera: Camera) -> Camera {
    if !projection.is_canonical() {
        return camera;
    }
    let offset = projection
        .alias_offset_regions()
        .map(|value| value as f32 * REGION_SIDE_METERS);
    camera.position[0] -= offset[0];
    camera.position[2] -= offset[1];
    camera.target[0] -= offset[0];
    camera.target[2] -= offset[1];
    camera
}

#[test]
fn canonical_aliases_project_identically() {
    let source = TerrainSourceNamespace([7; 32]);
    let base = TerrainProjection::for_terrain(
        LoadConfig::new(MAX_REGION_SIDE, 64, 64, 2).unwrap(),
        Some(source),
    )
    .unwrap();
    let base_camera = project_camera(base, camera(0));
    let base_ids = (0..base.active_count())
        .map(|index| base.region_id(index, 0).unwrap())
        .collect::<Vec<_>>();
    for center in [2, 64, 96, 125] {
        let projection = TerrainProjection::for_terrain(
            LoadConfig::new(MAX_REGION_SIDE, center, 64, 2).unwrap(),
            Some(source),
        )
        .unwrap();
        assert_eq!(
            project_camera(projection, camera(center as i32 - 64))
                .position
                .map(f32::to_bits),
            base_camera.position.map(f32::to_bits)
        );
        assert_eq!(
            project_camera(projection, camera(center as i32 - 64))
                .target
                .map(f32::to_bits),
            base_camera.target.map(f32::to_bits)
        );
        assert_eq!(
            (0..projection.active_count())
                .map(|index| projection.region_id(index, u32::MAX).unwrap())
                .collect::<Vec<_>>(),
            base_ids
        );
    }
}

#[test]
fn legacy_projection_is_passthrough() {
    let projection = TerrainProjection::for_terrain(
        LoadConfig::new(MAX_REGION_SIDE, 64, 64, 2).unwrap(),
        None,
    )
    .unwrap();
    let camera = camera(0);
    assert_eq!(project_camera(projection, camera).position, camera.position);
    assert_eq!(projection.region_id(0, 1234).unwrap(), 1234);
    assert!(!projection.is_canonical());
}

#[test]
fn canonical_windows_sit_around_the_center() {
    let source = TerrainSourceNamespace([1; 32]);
    let projection = TerrainProjection::for_terrain(
        LoadConfig::new(MAX_REGION_SIDE, 10, 20, 1).unwrap(),
        Some(source),
    )
    .unwrap();
    assert!(projection.is_canonical());
    assert_eq!(projection.active_count(), 9);
    assert_eq!(projection.render_offset(0), Ok([-1, -1]));
    assert_eq!(projection.render_offset(4), Ok([0, 0]));
    assert_eq!(projection.render_offset(8), Ok([1, 1]));
    assert_eq!(projection.render_offset(9), Err(ProjectionError::IndexOutsideWindow));
    assert_eq!(projection.region_id(4, 0), Ok(64 * 128 + 64));
    assert_eq!(projection.region_id(0, 0), Ok(63 * 128 + 63));
    assert_eq!(projection.region_id(9, 0), Err(ProjectionError::IndexOutsideWindow));
    assert_eq!(projection.alias_center(), [10, 20]);
    assert_eq!(projection.alias_offset_regions(), [-54, -44]);
}
