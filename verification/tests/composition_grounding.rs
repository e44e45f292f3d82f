use sha2::{Digest, Sha256};
use workbench::composition::boundary::{boundary_probe, BoundaryProbe};
use workbench::composition::fixture::{
    arbitrary_fractions, fixture_lattice, region_minimum, sample_ground, CompositionFixture, TriangleClass,
};
use workbench::composition::grounding::{compare_ground, ground_oracle, GroundError, GroundMismatch};
use workbench::composition::grounding_check::{check_grounding, GroundingError};
use workbench::load::LoadConfig;
use workbench::terrain::cache::TerrainAssignment;
use workbench::terrain::projection::{ProjectionError, TerrainProjection};
use workbench::terrain::surface::TileHeights;

const SIDE: usize = 33;

fn tile(region_id: u32, height: impl Fn(usize, usize) -> i16) -> TileHeights {
    let mut heights = Vec::with_capacity(SIDE * SIDE);
    for z in 0..SIDE {
        for x in 0..SIDE {
            heights.push(height(x, z));
        }
    }
    TileHeights { region_id, heights }
}

fn ramp(region_id: u32) -> TileHeights {
    tile(region_id, |x, z| (x + 100 * z) as i16)
}

fn assignment(slot: u32, region_id: u32) -> TerrainAssignment {
    TerrainAssignment { slot, region_id, global_region: None }
}

#[test]
fn region_minimum_places_region_64_around_origin() {
    assert_eq!(region_minimum(64 * 128 + 64), [-8, -8]);
    assert_eq!(region_minimum(0), [-1032, -1032]);
    assert_eq!(region_minimum(65 * 128 + 63), [-24, 8]);
}

#[test]
fn fixture_lattice_adds_fractions_to_cells() {
    assert_eq!(fixture_lattice(8256, 0), [0, 0]);
    assert_eq!(fixture_lattice(8256, 31), [8192, 0]);
    assert_eq!(fixture_lattice(8256, 1023), [8192, 8192]);
    let (u, v) = arbitrary_fractions(8256, 33);
    assert_eq!(fixture_lattice(8256, 33), [256 + u, 256 + v]);
}

#[test]
fn cell_center_ground_sums_the_anti_diagonal() {
    let t = ramp(0);
    assert_eq!(sample_ground(&t, 33, CompositionFixture::CellCenter, [0, 0]), (303, TriangleClass::Diagonal));
    assert_eq!(sample_ground(&t, 0, CompositionFixture::CellCenter, [9999, 9999]), (101, TriangleClass::Diagonal));
}

#[test]
fn arbitrary_ground_blends_the_containing_triangle() {
    let t = ramp(0);
    let arbitrary = CompositionFixture::ArbitraryQ8;
    assert_eq!(sample_ground(&t, 0, arbitrary, [300, 100]), (10300, TriangleClass::First));
    assert_eq!(sample_ground(&t, 0, arbitrary, [8192, 8192]), (827392, TriangleClass::Second));
    assert_eq!(sample_ground(&t, 0, arbitrary, [9000, 0]), (8192, TriangleClass::Diagonal));
    assert_eq!(sample_ground(&t, 0, arbitrary, [384, 384]), (303 * 128, TriangleClass::Diagonal));
    let deep = tile(0, |_, _| -32768);
    assert_eq!(sample_ground(&deep, 5, arbitrary, [100, 7000]), (-32768 * 256, TriangleClass::First));
}

fn lattices(region_id: u32) -> Vec<[u32; 2]> {
    (0..1024).map(|k| fixture_lattice(region_id, k)).collect()
}

#[test]
fn ground_oracle_samples_every_object() {
    let assignments = vec![assignment(0, 8256), assignment(1, 8257)];
    let tiles = vec![ramp(8256), ramp(8257)];
    let lattice = vec![lattices(8256), lattices(8257)];
    let oracle = ground_oracle(&assignments, &tiles, CompositionFixture::ArbitraryQ8, &lattice).unwrap();
    assert_eq!(oracle.numerators.len(), 2048);
    let t = &oracle.triangles;
    assert_eq!(t.first + t.diagonal + t.second, 2048);
    for (index, value) in oracle.numerators.iter().enumerate() {
        let region = index / 1024;
        let local = index % 1024;
        let expected = sample_ground(&tiles[region], local, CompositionFixture::ArbitraryQ8, lattice[region][local]);
        assert_eq!(*value, expected.0);
    }

    let centers = ground_oracle(&assignments, &tiles, CompositionFixture::CellCenter, &lattice).unwrap();
    assert_eq!(centers.triangles.diagonal, 2048);
    assert_eq!(centers.numerators[33], 303);
}

#[test]
fn ground_oracle_refusals() {
    let assignments = vec![assignment(0, 8256), assignment(1, 8257)];
    let lattice = vec![lattices(8256), lattices(8257)];
    let swapped = vec![ramp(8257), ramp(8256)];
    assert_eq!(
        ground_oracle(&assignments, &swapped, CompositionFixture::CellCenter, &lattice).unwrap_err(),
        GroundError::TileMismatch
    );
    let short = vec![ramp(8256)];
    assert_eq!(
        ground_oracle(&assignments, &short, CompositionFixture::CellCenter, &lattice).unwrap_err(),
        GroundError::ShapeMismatch
    );
}

fn digest(values: &[i32]) -> String {
    let mut hash = Sha256::new();
    for value in values {
        hash.update(value.to_le_bytes());
    }
    format!("{:x}", hash.finalize())
}

#[test]
fn agreeing_ground_reports_digests_and_range() {
    let assignments = vec![assignment(0, 7), assignment(1, 9)];
    let gpu: Vec<i32> = (0..2048).map(|k| k as i32 - 700).collect();
    let cpu = gpu.clone();
    let comparison = compare_ground(&gpu, &cpu, &assignments, 2048).unwrap();
    assert_eq!(comparison.candidate_count, 2048);
    assert_eq!(comparison.minimum_numerator, -700);
    assert_eq!(comparison.maximum_numerator, 1347);
    assert_eq!(comparison.gpu_sha256, digest(&gpu));
    assert_eq!(comparison.cpu_sha256, digest(&cpu));

    let empty = compare_ground(&Vec::new(), &Vec::new(), &Vec::new(), 0).unwrap();
    assert_eq!((empty.minimum_numerator, empty.maximum_numerator), (0, 0));
}

#[test]
fn diverging_ground_names_the_first_difference() {
    let assignments = vec![assignment(0, 7), assignment(1, 9)];
    let cpu: Vec<i32> = vec![5; 2048];
    let mut gpu = cpu.clone();
    gpu[1030] = 6;
    gpu[2000] = 4;
    assert_eq!(
        compare_ground(&gpu, &cpu, &assignments, 2048).unwrap_err(),
        GroundError::Diverged(
            GroundMismatch { logical_index: 1030, region_id: 9, local_index: 6, gpu_numerator: 6, cpu_numerator: 5 },
            2
        )
    );
    assert_eq!(compare_ground(&gpu, &cpu, &assignments, 1024).unwrap_err(), GroundError::CandidateCount);
    assert_eq!(
        compare_ground(&gpu, &cpu[..2047].to_vec(), &assignments, 2048).unwrap_err(),
        GroundError::CandidateCount
    );
}

/// Fixture positions of a region's objects, in 1/512 world units.
fn positions(region_id: u32) -> Vec<[u32; 2]> {
    let minimum = region_minimum(region_id);
    (0..1024)
        .map(|k| {
            let l = fixture_lattice(region_id, k);
            [(minimum[0] * 512 + l[0] as i32) as u32, (minimum[1] * 512 + l[1] as i32) as u32]
        })
        .collect()
}

#[test]
fn fixture_boundaries_coincide_on_concrete_regions() {
    for region in [8256u32, 0, 126, 5000] {
        let here = positions(region);
        let east = positions(region + 1);
        let south = positions(region + 128);
        for along in 0..32 {
            assert_eq!(here[along * 32 + 31], east[along * 32]);
            assert_eq!(here[31 * 32 + along], south[along]);
        }
    }
}

#[test]
fn seamless_tiles_ground_boundary_objects_alike() {
    let west = tile(8256, |x, z| (7 * x + 13 * z) as i16);
    let east = tile(8257, |x, z| (7 * (x + 32) + 13 * z) as i16);
    let south = tile(8384, |x, z| (7 * x + 13 * (z + 32)) as i16);
    let arbitrary = CompositionFixture::ArbitraryQ8;
    for along in 0..32 {
        let a = along * 32 + 31;
        let b = along * 32;
        assert_eq!(
            sample_ground(&west, a, arbitrary, fixture_lattice(8256, a)).0,
            sample_ground(&east, b, arbitrary, fixture_lattice(8257, b)).0
        );
        let c = 31 * 32 + along;
        assert_eq!(
            sample_ground(&west, c, arbitrary, fixture_lattice(8256, c)).0,
            sample_ground(&south, along, arbitrary, fixture_lattice(8384, along)).0
        );
    }
}

#[test]
fn boundary_probe_compares_facing_objects() {
    let config = LoadConfig::new(128, 64, 64, 1).unwrap();
    let projection = TerrainProjection::new(config, false).unwrap();
    let assignments = vec![assignment(0, 8256), assignment(1, 8257), assignment(2, 9000)];
    let places = vec![positions(8256), positions(8257), positions(9000)];
    let mut ground = vec![0i32; 3 * 1024];
    ground[5 * 32 + 31] = 7;
    let probe = boundary_probe(&assignments, &places, &ground, CompositionFixture::ArbitraryQ8, projection).unwrap();
    assert_eq!(probe.logical_neighbor_edges, 1);
    assert_eq!(probe.pair_comparisons, 32);
    assert_eq!(probe.position_mismatch_count, 0);
    assert_eq!(probe.ground_mismatch_count, 1);
    let first = probe.first_mismatch.unwrap();
    assert_eq!((first.first_region_id, first.second_region_id), (8256, 8257));
    assert_eq!((first.first_local_index, first.second_local_index), (191, 160));
    assert!(first.position_matches);
    assert_eq!((first.first_ground, first.second_ground), (7, 0));

    let below = vec![assignment(0, 8256), assignment(1, 8384), assignment(2, 8383)];
    let below_places = vec![positions(8256), positions(8384), positions(8383)];
    let probe = boundary_probe(&below, &below_places, &vec![0; 3 * 1024], CompositionFixture::ArbitraryQ8, projection)
        .unwrap();
    assert_eq!(probe.logical_neighbor_edges, 2);
    assert_eq!(probe.pair_comparisons, 64);
    assert_eq!(probe.position_mismatch_count, 0);
    assert_eq!(probe.first_mismatch, None);
}

#[test]
fn boundary_probe_skips_cell_centers_and_refuses_unprojected_entries() {
    let config = LoadConfig::new(128, 64, 64, 0).unwrap();
    let assignments = vec![assignment(0, 8256), assignment(1, 8257)];
    let places = vec![vec![[0, 0]; 1024], vec![[1, 1]; 1024]];
    let ground = vec![0; 2048];
    let canonical = TerrainProjection::new(config, true).unwrap();
    assert_eq!(
        boundary_probe(&assignments, &places, &ground, CompositionFixture::CellCenter, canonical),
        Ok(BoundaryProbe {
            logical_neighbor_edges: 0,
            pair_comparisons: 0,
            position_mismatch_count: 0,
            ground_mismatch_count: 0,
            first_mismatch: None,
        })
    );
    assert_eq!(
        boundary_probe(&assignments, &places, &ground, CompositionFixture::ArbitraryQ8, canonical),
        Err(ProjectionError::IndexOutsideWindow)
    );
    let legacy = TerrainProjection::new(config, false).unwrap();
    let probe = boundary_probe(&assignments, &places, &ground, CompositionFixture::ArbitraryQ8, legacy).unwrap();
    assert_eq!(probe.position_mismatch_count, 32);
    assert!(!probe.first_mismatch.unwrap().position_matches);
}

#[test]
fn grounding_is_accepted_only_when_ground_and_boundaries_agree() {
    let config = LoadConfig::new(128, 64, 64, 1).unwrap();
    let projection = TerrainProjection::new(config, false).unwrap();
    let assignments = vec![assignment(0, 8256), assignment(1, 8257)];
    let places = vec![positions(8256), positions(8257)];
    let arbitrary = CompositionFixture::ArbitraryQ8;
    let cpu = vec![3i32; 2048];

    let accepted = check_grounding(&cpu, &cpu, &assignments, 2048, &places, arbitrary, projection).unwrap();
    assert_eq!(accepted.boundaries.pair_comparisons, 32);
    assert_eq!(accepted.boundaries.position_mismatch_count, 0);
    assert_eq!(accepted.boundaries.ground_mismatch_count, 0);
    assert_eq!(accepted.comparison.gpu_sha256, accepted.comparison.cpu_sha256);

    let mut seam = cpu.clone();
    seam[31] = 4;
    match check_grounding(&seam, &seam, &assignments, 2048, &places, arbitrary, projection) {
        Err(GroundingError::BoundaryDiverged(probe)) => {
            assert_eq!(probe.ground_mismatch_count, 1);
            assert_eq!(probe.position_mismatch_count, 0);
        }
        other => panic!("expected a boundary refusal, got {:?}", other.err()),
    }

    let mut moved = places.clone();
    moved[1][0] = [1, 1];
    assert!(matches!(
        check_grounding(&cpu, &cpu, &assignments, 2048, &moved, arbitrary, projection),
        Err(GroundingError::BoundaryDiverged(probe)) if probe.position_mismatch_count == 1
    ));
    assert!(check_grounding(&cpu, &cpu, &assignments, 2048, &moved, CompositionFixture::CellCenter, projection).is_ok());

    let mut gpu = cpu.clone();
    gpu[7] = 9;
    assert!(matches!(
        check_grounding(&gpu, &cpu, &assignments, 2048, &places, arbitrary, projection),
        Err(GroundingError::Ground(GroundError::Diverged(m, 1))) if m.logical_index == 7
    ));
    assert_eq!(
        check_grounding(&cpu[..2000].to_vec(), &cpu, &assignments, 2048, &places, arbitrary, projection).err(),
        Some(GroundingError::Ground(GroundError::CandidateCount))
    );
    let narrow = TerrainProjection::new(LoadConfig::new(128, 64, 64, 0).unwrap(), true).unwrap();
    assert_eq!(
        check_grounding(&cpu, &cpu, &assignments, 2048, &places, arbitrary, narrow).err(),
        Some(GroundingError::Projection(ProjectionError::IndexOutsideWindow))
    );
}
