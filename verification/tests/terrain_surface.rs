use workbench::terrain::surface::{
    edge_q18, height, patch_active, selected_surface_q18, triangle_q18, TileHeights,
};

const SIDE: usize = 33;

fn planar() -> TileHeights {
    let mut heights = Vec::with_capacity(SIDE * SIDE);
    for z in 0..SIDE {
        for x in 0..SIDE {
            heights.push((x + 100 * z) as i16);
        }
    }
    TileHeights { region_id: 64 * 128 + 64, heights }
}

fn single(x: usize, z: usize, value: i16) -> TileHeights {
    let mut heights = vec![0i16; SIDE * SIDE];
    heights[z * SIDE + x] = value;
    TileHeights { region_id: 64 * 128 + 64, heights }
}

/// A plane has the same surface at every level: four times the 1/256 cell
/// coordinates of the point.
fn plane_q18(q8: [u32; 2]) -> i32 {
    4 * (q8[0] as i32 + 100 * q8[1] as i32)
}

#[test]
fn heights_are_read_row_by_row() {
    let tile = planar();
    assert_eq!(height(&tile, 0, 0), 0);
    assert_eq!(height(&tile, 5, 7), 705);
    assert_eq!(height(&tile, 32, 32), 3232);
}

#[test]
fn triangles_reproduce_a_plane_at_every_level() {
    let tile = planar();
    assert_eq!(triangle_q18(&tile, [128, 64], 0, 0, 0), 26112);
    assert_eq!(triangle_q18(&tile, [128, 64], 0, 0, 0), plane_q18([128, 64]));
    assert_eq!(triangle_q18(&tile, [1000, 300], 0, 0, 2), 124000);
    for lod in 0..3 {
        for q8 in [[2100, 4500], [4095, 6200], [8000, 8100], [2048, 2049]] {
            let patch = [(q8[0] / 2048).min(3), (q8[1] / 2048).min(3)];
            assert_eq!(triangle_q18(&tile, q8, patch[0], patch[1], lod), plane_q18(q8));
        }
    }
}

#[test]
fn triangles_split_along_the_anti_diagonal() {
    let tile = single(1, 1, 256);
    assert_eq!(triangle_q18(&tile, [200, 200], 0, 0, 0), 147456);
    assert_eq!(triangle_q18(&tile, [50, 50], 0, 0, 0), 0);
    assert_eq!(triangle_q18(&tile, [255, 0], 0, 0, 0), 0);
}

#[test]
fn edges_blend_along_the_edge() {
    let tile = planar();
    assert_eq!(edge_q18(&tile, [2048, 300], 0, true, 0), 128192);
    assert_eq!(edge_q18(&tile, [2048, 300], 0, true, 0), plane_q18([2048, 300]));
    assert_eq!(edge_q18(&tile, [700, 4096], 0, false, 1), plane_q18([700, 4096]));
    let bump = single(8, 2, 256);
    assert_eq!(edge_q18(&bump, [2048, 300], 0, true, 1), 153600);
    assert_eq!(edge_q18(&bump, [2048, 300], 0, true, 2), 0);
}

#[test]
fn active_patches_are_the_blocks_of_active_regions() {
    let regions = vec![64 * 128 + 64];
    assert!(patch_active(&regions, 256, 256));
    assert!(patch_active(&regions, 259, 259));
    assert!(!patch_active(&regions, 260, 256));
    assert!(!patch_active(&regions, 255, 256));
    assert!(!patch_active(&Vec::new(), 256, 256));
}

#[test]
fn the_selected_surface_follows_the_owner_and_its_neighbor() {
    let tile = planar();
    let region = 64 * 128 + 64;
    let near = [256, 256];
    assert_eq!(selected_surface_q18(&tile, region, [128, 64], &vec![region], near), (26112, 0));
    assert_eq!(selected_surface_q18(&tile, region, [128, 64], &vec![region], [0, 0]), (26112, 2));
    assert_eq!(
        selected_surface_q18(&tile, region, [2048, 4096], &vec![region], near),
        (1646592, 0)
    );

    let bump = single(8, 2, 256);
    let camera = [263, 256];
    assert_eq!(selected_surface_q18(&bump, region, [2048, 300], &Vec::new(), camera), (153600, 1));
    assert_eq!(selected_surface_q18(&bump, region, [2048, 300], &vec![region], camera), (0, 1));
}
