use sha2::{Digest, Sha256};
use workbench::address::GlobalTerrainConfig;
use workbench::load::ConfigError;
use workbench::terrain::cache::TerrainAssignment;
use workbench::terrain::lod_oracle::{LodEdges, LodOracle};
use workbench::terrain::probe::{
    active_mapping_digest, check_terrain_counters, global_evidence, gpu_edges, gpu_lod, terrain_geometry, CpuEdges,
    GlobalEvidenceError, TerrainProbeMismatch, PATCH_GROUP_COUNT,
};
use workbench::world::RegionCoord;

fn oracle() -> LodOracle {
    LodOracle {
        camera_patch: [0, 0],
        lod_sha256: String::new(),
        lod_counts: [4, 8, 13],
        patches: 25,
        vertices: 900,
        triangles: 1500,
        baseline_vertices: 1000,
        baseline_triangles: 1800,
        reduced_vertices: 100,
        reduced_triangles: 300,
        edges: LodEdges {
            patch_edges: 40,
            same_lod_edges: 30,
            transition_edges: 10,
            adjusted_vertices: 12,
            sample_comparisons: 300,
            max_lod_delta: 1,
            mismatch_count: 0,
            first_mismatch: None,
        },
    }
}

fn cpu() -> CpuEdges {
    CpuEdges { neighbor_edges: 40, sample_comparisons: 1320, mismatch_count: 0 }
}

fn counters() -> (Vec<u32>, Vec<u32>, Vec<u32>) {
    let stats = vec![PATCH_GROUP_COUNT, 25, PATCH_GROUP_COUNT - 25, 900, 1500, 0, 0, 0];
    let seams = vec![40, 1320, 0, 0, 0, 0, 0, 0];
    let mut lod = vec![4, 8, 13, 40, 30, 10, 12, 300, 1, 0];
    lod.resize(16, 0);
    (stats, seams, lod)
}

#[test]
fn matching_counters_pass() {
    let (stats, seams, lod) = counters();
    assert_eq!(check_terrain_counters(&stats, &seams, &lod, &oracle(), cpu(), true), Ok(()));
}

#[test]
fn each_counter_disagreement_is_named() {
    let cases: Vec<(usize, usize, u32, TerrainProbeMismatch)> = vec![
        (0, 0, 399, TerrainProbeMismatch::PatchGroupCount),
        (0, 1, 24, TerrainProbeMismatch::EmittedPatches),
        (0, 2, 374, TerrainProbeMismatch::InactiveGroups),
        (0, 3, 901, TerrainProbeMismatch::Vertices),
        (0, 4, 1499, TerrainProbeMismatch::Triangles),
        (1, 0, 41, TerrainProbeMismatch::GpuEdgeCount),
        (1, 1, 1321, TerrainProbeMismatch::GpuComparisonCount),
        (1, 2, 1, TerrainProbeMismatch::GpuEdgeMismatch),
        (2, 1, 9, TerrainProbeMismatch::LodCounts),
        (2, 3, 39, TerrainProbeMismatch::LodEdgeCount),
        (2, 4, 31, TerrainProbeMismatch::SameLodEdges),
        (2, 5, 11, TerrainProbeMismatch::TransitionEdges),
        (2, 6, 13, TerrainProbeMismatch::AdjustedVertices),
        (2, 7, 301, TerrainProbeMismatch::LodSamples),
        (2, 8, 2, TerrainProbeMismatch::MaximumLodDelta),
        (2, 9, 1, TerrainProbeMismatch::LodGeometricMismatch),
    ];
    for (buffer, index, value, expected) in cases {
        let (mut stats, mut seams, mut lod) = counters();
        match buffer {
            0 => stats[index] = value,
            1 => seams[index] = value,
            _ => lod[index] = value,
        }
        assert_eq!(
            check_terrain_counters(&stats, &seams, &lod, &oracle(), cpu(), true),
            Err(expected)
        );
    }
}

#[test]
fn cpu_seam_mismatch_is_refused() {
    let (stats, seams, lod) = counters();
    let edges = CpuEdges { mismatch_count: 1, ..cpu() };
    assert_eq!(
        check_terrain_counters(&stats, &seams, &lod, &oracle(), edges, true),
        Err(TerrainProbeMismatch::CpuEdgeMismatch)
    );
}

#[test]
fn level_seams_are_ignored_without_levels_of_detail() {
    let (stats, seams, mut lod) = counters();
    lod[3] = 0;
    lod[9] = 7;
    assert_eq!(check_terrain_counters(&stats, &seams, &lod, &oracle(), cpu(), false), Ok(()));
    lod[0] = 5;
    assert_eq!(
        check_terrain_counters(&stats, &seams, &lod, &oracle(), cpu(), false),
        Err(TerrainProbeMismatch::LodCounts)
    );
}

fn hex_digest(bytes: &[u8]) -> String {
    format!("{:x}", Sha256::digest(bytes))
}

#[test]
fn active_mapping_digest_covers_slots_and_ids() {
    let active = vec![
        TerrainAssignment { slot: 3, region_id: 8256, global_region: None },
        TerrainAssignment { slot: 0, region_id: 8257, global_region: None },
    ];
    let mut bytes = Vec::new();
    for a in &active {
        bytes.extend_from_slice(&a.slot.to_le_bytes());
        bytes.extend_from_slice(&a.region_id.to_le_bytes());
    }
    let digest = active_mapping_digest(&active);
    assert_eq!(digest, hex_digest(&bytes));
    assert_eq!(active_mapping_digest(&Vec::new()), hex_digest(&[]));
    let swapped = vec![active[1], active[0]];
    assert_ne!(active_mapping_digest(&swapped), digest);
}

fn window_mapping(config: &GlobalTerrainConfig) -> Vec<TerrainAssignment> {
    config
        .addressed_regions()
        .unwrap()
        .iter()
        .enumerate()
        .map(|(slot, region)| TerrainAssignment {
            slot: slot as u32,
            region_id: region.local_region_id,
            global_region: Some(region.global_region),
        })
        .collect()
}

#[test]
fn window_mapping_has_no_mismatch() {
    let config = GlobalTerrainConfig::new(1000, -1000, 1010, -990, 1).unwrap();
    let active = window_mapping(&config);
    assert_eq!(active.len(), 9);
    let evidence = global_evidence(config, &active).unwrap();
    assert_eq!(evidence.entry_count, 9);
    assert_eq!(evidence.mismatch_count, 0);
    assert_eq!(evidence.duplicate_global_count, 0);
    let mut bytes = Vec::new();
    for a in &active {
        let g = a.global_region.unwrap();
        bytes.extend_from_slice(&g.x.to_le_bytes());
        bytes.extend_from_slice(&g.z.to_le_bytes());
        bytes.extend_from_slice(&a.region_id.to_le_bytes());
    }
    assert_eq!(evidence.mapping_sha256, hex_digest(&bytes));
}

#[test]
fn window_mapping_mismatches_and_duplicates_are_counted() {
    let config = GlobalTerrainConfig::new(0, 0, 0, 0, 1).unwrap();
    let mut active = window_mapping(&config);
    active.swap(0, 1);
    let swapped = global_evidence(config, &active).unwrap();
    assert_eq!(swapped.mismatch_count, 2);
    assert_eq!(swapped.duplicate_global_count, 0);

    let mut repeated = window_mapping(&config);
    repeated[4].global_region = repeated[0].global_region;
    let evidence = global_evidence(config, &repeated).unwrap();
    assert_eq!(evidence.duplicate_global_count, 1);
    assert_eq!(evidence.mismatch_count, 1);

    let mut short = window_mapping(&config);
    short.truncate(7);
    assert_eq!(global_evidence(config, &short).unwrap().mismatch_count, 2);

    let mut long = window_mapping(&config);
    long.push(TerrainAssignment { slot: 9, region_id: 1, global_region: Some(RegionCoord { x: 5, z: 5 }) });
    assert_eq!(global_evidence(config, &long).unwrap().mismatch_count, 2);
}

#[test]
fn global_evidence_refusals() {
    let config = GlobalTerrainConfig::new(0, 0, 0, 0, 1).unwrap();
    let mut active = window_mapping(&config);
    active[2].global_region = None;
    assert_eq!(global_evidence(config, &active).unwrap_err(), GlobalEvidenceError::MissingGlobalRegion);

    let wide = GlobalTerrainConfig::new(0, 0, 0, 0, 3).unwrap();
    assert_eq!(
        global_evidence(wide, &Vec::new()).unwrap_err(),
        GlobalEvidenceError::Config(ConfigError::ActiveCapacityExceeded)
    );
}

#[test]
fn gpu_reports_read_their_counters() {
    let edges = gpu_edges(&[40, 1320, 0, u32::MAX, 0, 0, 0, 0]);
    assert_eq!((edges.neighbor_edges, edges.sample_comparisons, edges.mismatch_count), (40, 1320, 0));
    assert_eq!(edges.first_mismatch, None);
    assert_eq!(gpu_edges(&[40, 1320, 2, 17]).first_mismatch, Some(17));

    let mut lod = vec![4, 8, 13, 40, 30, 10, 12, 300, 1, 0, u32::MAX];
    lod.resize(16, 0);
    let on = gpu_lod(&lod, true);
    assert_eq!(on.lod_counts, [4, 8, 13]);
    assert_eq!(on.patch_edges, Some(40));
    assert_eq!(on.max_lod_delta, Some(1));
    assert_eq!(on.mismatch_count, Some(0));
    assert_eq!(on.first_mismatch, None);
    let off = gpu_lod(&lod, false);
    assert_eq!(off.lod_counts, [4, 8, 13]);
    assert_eq!((off.patch_edges, off.sample_comparisons, off.mismatch_count), (None, None, None));
    lod[10] = 3;
    assert_eq!(gpu_lod(&lod, true).first_mismatch, Some(3));
    assert_eq!(gpu_lod(&lod, false).first_mismatch, None);

    let (mut stats, _, _) = counters();
    stats[6] = (-120i32) as u32;
    stats[7] = 900;
    let geometry = terrain_geometry(&stats, &oracle());
    assert_eq!((geometry.min_height, geometry.max_height), (-120, 900));
    assert_eq!((geometry.emitted_patches, geometry.oracle_patches), (25, 25));
    assert_eq!((geometry.vertices, geometry.oracle_triangles), (900, 1500));
}
