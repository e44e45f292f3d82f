use workbench::composition::fixture::{
    arbitrary_fractions, cell_modulo, interior_fraction, CompositionFixture,
};
use workbench::skeletal::{channel_delta, decode_counts};
use workbench::terrain::lod::{abs_diff_i32, select_lod};

#[test]
fn fixtures_name_their_denominators() {
    assert_eq!(CompositionFixture::CellCenter.grounding_mode(), 1);
    assert_eq!(CompositionFixture::ArbitraryQ8.grounding_mode(), 2);
    assert_eq!(CompositionFixture::CellCenter.ground_denominator(), 512);
    assert_eq!(CompositionFixture::ArbitraryQ8.ground_denominator(), 65_536);
    assert_eq!(CompositionFixture::CellCenter.position_denominator(), 64);
    assert_eq!(CompositionFixture::ArbitraryQ8.position_denominator(), 512);
    assert_eq!(CompositionFixture::default(), CompositionFixture::CellCenter);
}

#[test]
fn arbitrary_fractions_cover_borders_and_interiors() {
    assert_eq!(arbitrary_fractions(0, 0), (0, 0));
    assert_eq!(arbitrary_fractions(0, 31), (256, 0));
    assert_eq!(arbitrary_fractions(0, 31 * 32), (0, 256));
    assert_eq!(arbitrary_fractions(0, 1), (115, 0));
    assert_eq!(arbitrary_fractions(0, 33), (64, 192));
    assert_eq!(arbitrary_fractions(130, 33), (192, 192));
    assert_eq!(cell_modulo(-1, 0, 3), 1);
    assert_eq!(cell_modulo(7, 5, 255), 229);
    assert_eq!(interior_fraction(0xFFFF_FFFF, 2, 0), 255);
    assert_eq!(interior_fraction(1, 73, 41), 115);
}

#[test]
fn levels_of_detail_follow_the_chebyshev_distance() {
    assert_eq!(select_lod(0, 0, [0, 0]), 0);
    assert_eq!(select_lod(2, -2, [0, 0]), 0);
    assert_eq!(select_lod(3, 0, [0, 0]), 1);
    assert_eq!(select_lod(6, 6, [0, 0]), 1);
    assert_eq!(select_lod(7, 0, [0, 0]), 2);
    assert_eq!(select_lod(-5, 0, [2, 0]), 2);
    assert_eq!(abs_diff_i32(i32::MIN, i32::MAX), u32::MAX);
    for x in -10..10 {
        let a = select_lod(x, 3, [0, 0]);
        let b = select_lod(x + 1, 3, [0, 0]);
        assert!(a.abs_diff(b) <= 1);
    }
}

#[test]
fn skeletal_counters_decode() {
    let counters: Vec<u32> = (0..20).map(|k| k * 3).collect();
    let counts = decode_counts(&counters, 4);
    assert_eq!(counts.visible, 9);
    assert_eq!(counts.rejected, 12);
    assert_eq!(counts.animated, 15);
    assert_eq!(counts.static_count, 18);
    assert_eq!(counts.active_poses, 51);
    assert_eq!(counts.reused_poses, 0);
    assert_eq!(counts.evaluated_bones, 204);
    assert_eq!(counts.lod_counts, [21, 24, 27]);
    assert_eq!(counts.meshlets, 30);
    assert_eq!(counts.emitted_vertices, 33);
    assert_eq!(counts.emitted_triangles, 36);
    assert_eq!(counts.skin_influences, 57);
    assert_eq!(counts.observed_archetype_mask, 39);
    let mut reuse = counters.clone();
    reuse[5] = 60;
    assert_eq!(decode_counts(&reuse, 4).reused_poses, 9);
}

#[test]
fn channel_deltas_take_the_largest_channel() {
    assert_eq!(channel_delta(0x0102_0304, 0x0102_0304), 0);
    assert_eq!(channel_delta(0x0000_00FF, 0), 255);
    assert_eq!(channel_delta(0x1020_3040, 0x2020_3010), 48);
    assert_eq!(channel_delta(0, 0xFF00_0000), 255);
}
