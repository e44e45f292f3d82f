use workbench::publication::PublicationOutcome;
use workbench::terrain::projection::ObjectSourceNamespace;
use workbench::composition::fixture::CompositionFixture;
use workbench::composition::state::{
    CompositionCoordinator, CompositionOrder, HalfState, PairPurpose, PendingPairInput,
};
use workbench::composition::traversal::{map_camera_regions, CameraTraversal, TraversalBasis, TraversalError};
use workbench::load::LoadConfig;
use workbench::renderer::{CompositionError, InstanceControl, Renderer, TerrainControl, TerrainSnapshot};
use workbench::terrain::transfer::{TerrainTransfer, TransferError};

fn renderer() -> Renderer {
    Renderer {
        composition: CompositionCoordinator::new(),
        terrain_renderer: TerrainControl {
            enabled: false,
            published: None,
            staged: None,
            transfer: TerrainTransfer::new(),
        },
        async_resident_renderer: InstanceControl { published: None, staged: None },
        meshlet_scene_enabled: true,
        skeletal_scene_enabled: false,
    }
}

fn input(config: LoadConfig) -> PendingPairInput {
    PendingPairInput {
        config,
        global_config: None,
        terrain_source_namespace: None,
        object_source_namespace: None,
        object_stable_seed_namespace: None,
        fixture: CompositionFixture::CellCenter,
        terrain_transaction_id: 11,
        instance_transaction_id: 12,
        purpose: PairPurpose::Traversal,
    }
}

#[test]
fn a_fresh_renderer_is_in_calibration_mode() {
    let mut renderer = renderer();
    assert!(!renderer.composition_enabled());
    assert!(renderer.calibration_mode_active());
    assert_eq!(renderer.composition_order(), CompositionOrder::TerrainFirst);
    assert_eq!(renderer.composition_grounding_mode(), 1);
    renderer.set_composition_order(false);
    assert_eq!(renderer.composition_order(), CompositionOrder::ObjectFirst);
    renderer.set_composition_order(true);
    assert_eq!(renderer.composition_order(), CompositionOrder::TerrainFirst);
    assert_eq!(renderer.enable_composition(), Err(CompositionError::NoPublishedPair));
    assert_eq!(
        renderer.enable_composition_traversal(),
        Err(CompositionError::TraversalRequiresComposition)
    );
    renderer.disable_composition();
    assert!(renderer.meshlet_scene_enabled);
}

#[test]
fn the_fixture_changes_only_while_idle() {
    let mut renderer = renderer();
    assert_eq!(renderer.set_composition_fixture(CompositionFixture::ArbitraryQ8), Ok(()));
    assert_eq!(renderer.composition.fixture, CompositionFixture::ArbitraryQ8);
    let config = LoadConfig::new(128, 64, 64, 2).unwrap();
    renderer.composition.begin(input(config));
    assert_eq!(
        renderer.set_composition_fixture(CompositionFixture::CellCenter),
        Err(CompositionError::PairBusy)
    );
}

#[test]
fn the_terrain_copy_gate_passes_through_the_renderer() {
    let mut renderer = renderer();
    assert_eq!(renderer.release_terrain_copy_gate(), Err(TransferError::GateNotArmed));
    assert_eq!(renderer.arm_terrain_copy_gate(), Ok(1));
    assert_eq!(renderer.arm_terrain_copy_gate(), Err(TransferError::GateBusy));
    assert_eq!(renderer.release_terrain_copy_gate(), Ok(1));
    assert_eq!(renderer.arm_terrain_copy_gate(), Ok(2));
}

#[test]
fn pairs_take_tokens_and_fail_by_half() {
    let mut coordinator = CompositionCoordinator::new();
    assert!(!coordinator.has_pending());
    let config = LoadConfig::new(128, 64, 64, 2).unwrap();
    let token = coordinator.begin(input(config));
    assert_eq!(token, 1);
    assert_eq!(coordinator.next_token, 2);
    assert!(coordinator.has_pending());
    coordinator.fail_half(true, 99, "other".to_string());
    let pending = coordinator.pending.as_ref().unwrap();
    assert_eq!(pending.terrain, HalfState::InFlight);
    coordinator.fail_half(false, 12, "lost".to_string());
    let pending = coordinator.pending.as_ref().unwrap();
    assert_eq!(pending.instance, HalfState::Failed);
    assert_eq!(pending.terrain, HalfState::InFlight);
    assert_eq!(pending.failure.as_deref(), Some("lost"));
    assert!(PairPurpose::Traversal.camera_driven());
    assert!(!PairPurpose::Traversal.prefetch());
    assert!(PairPurpose::Prefetch.prefetch());
}

#[test]
fn the_camera_window_is_clamped_to_the_world() {
    let basis = TraversalBasis { world_region_side: 64, active_radius: 2 };
    let config = map_camera_regions(0, 100, basis).unwrap();
    assert_eq!((config.active_center_x, config.active_center_z), (34, 93));
    let config = map_camera_regions(50, 60, basis).unwrap();
    assert_eq!((config.active_center_x, config.active_center_z), (50, 60));
}

#[test]
fn the_traversal_schedules_new_windows_and_respects_blocks() {
    let published = LoadConfig::new(128, 64, 64, 2).unwrap();
    let mut traversal = CameraTraversal::new();
    assert_eq!(traversal.plan(70, 64, published, None), Ok(None));
    traversal.enable(published);
    assert!(traversal.is_enabled());
    assert_eq!(traversal.plan(64, 64, published, None), Ok(None));
    let next = LoadConfig::new(128, 70, 64, 2).unwrap();
    assert_eq!(traversal.plan(70, 64, published, None), Ok(Some(next)));
    traversal.mark_attempted();
    traversal.mark_failed(next, "refused".to_string());
    assert_eq!(traversal.plan(70, 64, published, None), Ok(None));
    let further = LoadConfig::new(128, 71, 64, 2).unwrap();
    assert_eq!(traversal.plan(71, 64, published, None), Ok(Some(further)));
    assert_eq!(traversal.plan(72, 64, published, Some(further)), Ok(None));
    assert_eq!(traversal.queued, Some(LoadConfig::new(128, 72, 64, 2).unwrap()));
    traversal.mark_scheduled(5, further);
    traversal.mark_published(5, further);
    assert_eq!(traversal.automatic_publication_count, 1);
    let other_radius = LoadConfig::new(128, 64, 64, 1).unwrap();
    assert_eq!(traversal.plan(64, 64, other_radius, None), Err(TraversalError::BasisChanged));
    traversal.disable();
    assert!(!traversal.is_enabled());
}

#[test]
fn terrain_enables_only_once_published() {
    let mut terrain = TerrainControl {
        enabled: false,
        published: None,
        staged: None,
        transfer: TerrainTransfer::new(),
    };
    assert_eq!(terrain.config(), None);
    assert_eq!(terrain.enable(), Err(CompositionError::TerrainNotPublished));
    assert!(!terrain.is_enabled());
    let config = LoadConfig::new(128, 64, 64, 2).unwrap();
    terrain.published = Some(TerrainSnapshot { config, global_config: None, source_namespace: None });
    assert_eq!(terrain.enable(), Ok(()));
    assert!(terrain.is_enabled());
    assert_eq!(terrain.config(), Some(config));
    terrain.disable();
    assert!(!terrain.is_enabled());
}

fn stage_pair(renderer: &mut Renderer, pair: &PendingPairInput) {
    let ids = workbench::resident::active_region_ids(pair.config).unwrap();
    renderer.async_resident_renderer.staged = Some(workbench::renderer::StagedInstances {
        report: workbench::renderer::InstanceStagedReport {
            transaction_id: pair.instance_transaction_id,
            config: pair.config,
            global_config: pair.global_config,
            object_source_namespace: pair.object_source_namespace,
            object_stable_seed_namespace: pair.object_stable_seed_namespace,
        },
        active_slots: (0..ids.len() as u32).collect(),
    });
    renderer.terrain_renderer.staged = Some(workbench::renderer::StagedTerrain {
        report: workbench::renderer::TerrainStagedReport {
            transaction_id: pair.terrain_transaction_id,
            config: pair.config,
            global_config: pair.global_config,
            source_namespace: pair.terrain_source_namespace,
        },
        assignments: ids
            .iter()
            .enumerate()
            .map(|(slot, id)| workbench::terrain::cache::TerrainAssignment {
                slot: slot as u32,
                region_id: *id,
                global_region: None,
            })
            .collect(),
    });
}

#[test]
fn a_staged_pair_publishes_whole_and_drops_a_redundant_stable_seed() {
    let config = LoadConfig::new(128, 64, 64, 2).unwrap();
    let source = ObjectSourceNamespace([7; 32]);
    for (stable, expected) in [(Some(source), None), (Some(ObjectSourceNamespace([9; 32])), Some(ObjectSourceNamespace([9; 32])))] {
        let mut renderer = renderer();
        let pair = PendingPairInput {
            object_source_namespace: Some(source),
            object_stable_seed_namespace: stable,
            purpose: PairPurpose::Manual,
            ..input(config)
        };
        let token = renderer.composition.begin(pair);
        assert!(matches!(
            renderer.poll_composition_publication(None, true, false),
            Ok(PublicationOutcome::Waiting)
        ));
        assert!(renderer.composition.published.is_none());
        stage_pair(&mut renderer, &pair);
        assert!(matches!(
            renderer.poll_composition_publication(None, true, true),
            Ok(PublicationOutcome::Published { .. })
        ));
        let published = renderer.composition.published.as_ref().unwrap();
        assert_eq!(published.token, token);
        assert_eq!(published.publication_count, 1);
        assert_eq!(published.object_stable_seed_namespace, expected);
        assert!(renderer.composition.pending.is_none());
        assert!(renderer.async_resident_renderer.staged.is_none() && renderer.terrain_renderer.staged.is_none());
        assert!(renderer.async_resident_renderer.published.is_some() && renderer.terrain_renderer.published.is_some());
        assert_eq!(renderer.enable_composition(), Ok(()));
    }
}

#[test]
fn traversal_controls_clear_the_session_windows() {
    let mut renderer = renderer();
    let config = LoadConfig::new(128, 64, 64, 2).unwrap();
    renderer.composition.traversal.enable(config);
    renderer.composition.traversal.desired = Some(config);
    renderer.composition.traversal.queued = Some(config);
    renderer.composition.traversal.mark_failed(config, "lost".to_string());
    renderer.disable_composition_traversal();
    let t = &renderer.composition.traversal;
    assert!(!t.enabled && t.basis.is_none() && t.desired.is_none() && t.queued.is_none() && t.blocked.is_none());
    assert_eq!(t.session_count, 1);
    assert_eq!(t.last_failure.as_ref().unwrap().message, "lost");
    renderer.disable_composition_traversal();
    assert_eq!(renderer.composition.traversal.session_count, 1);
    renderer.disable_composition();
    renderer.disable_composition();
    assert!(renderer.meshlet_scene_enabled && !renderer.composition_enabled());
}
