use workbench::composition::state::CompositionOrder;
use workbench::frame::{SkeletalRecord, TerrainRecord, plan_frame, FrameModes, LoadProbe, PublicationStep, ScenePass};

fn idle() -> FrameModes {
    FrameModes {
        composition_pending: false,
        composition_enabled: false,
        composition_order: CompositionOrder::TerrainFirst,
        terrain_enabled: false,
        skeletal_enabled: false,
        surface_enabled: false,
        meshlet_enabled: false,
        async_resident_configured: false,
        resident_configured: false,
        load_configured: false,
        resident_stream_pending: false,
        capture: false,
        capture_object_ids: false,
        probe: false,
        grounding_mode: 2,
    }
}

#[test]
fn an_idle_frame_draws_the_scene_and_does_not_wait() {
    let plan = plan_frame(&idle());
    assert_eq!(plan.publication, PublicationStep::PrepareRenderers);
    assert_eq!(plan.pass, ScenePass::Scene);
    assert!(!plan.wait);
    assert_eq!(plan.load_probe, LoadProbe::Absent);
}

#[test]
fn composition_draws_both_halves_in_its_order() {
    let mut modes = idle();
    modes.composition_enabled = true;
    modes.terrain_enabled = true;
    modes.skeletal_enabled = true;
    assert_eq!(plan_frame(&modes).pass, ScenePass::TerrainThenObjects);
    modes.composition_order = CompositionOrder::ObjectFirst;
    assert_eq!(plan_frame(&modes).pass, ScenePass::ObjectsThenTerrain);
    modes.composition_pending = true;
    assert_eq!(plan_frame(&modes).publication, PublicationStep::PollComposition);
}

#[test]
fn renderers_take_precedence_in_order() {
    let mut modes = idle();
    modes.load_configured = true;
    assert_eq!(plan_frame(&modes).pass, ScenePass::Load);
    modes.resident_configured = true;
    assert_eq!(plan_frame(&modes).pass, ScenePass::Resident);
    modes.async_resident_configured = true;
    assert_eq!(plan_frame(&modes).pass, ScenePass::AsyncResident);
    modes.meshlet_enabled = true;
    assert_eq!(plan_frame(&modes).pass, ScenePass::Meshlet);
    modes.skeletal_enabled = true;
    assert_eq!(plan_frame(&modes).pass, ScenePass::Skeletal);
    modes.terrain_enabled = true;
    assert_eq!(plan_frame(&modes).pass, ScenePass::Terrain);
}

#[test]
fn probes_follow_what_is_drawn() {
    let mut modes = idle();
    modes.probe = true;
    let plan = plan_frame(&modes);
    assert!(plan.wait);
    assert_eq!(plan.load_probe, LoadProbe::Load);

    modes.resident_configured = true;
    assert_eq!(plan_frame(&modes).load_probe, LoadProbe::Resident);
    modes.async_resident_configured = true;
    assert_eq!(plan_frame(&modes).load_probe, LoadProbe::AsyncResident);

    modes.terrain_enabled = true;
    let plan = plan_frame(&modes);
    assert_eq!(plan.load_probe, LoadProbe::Absent);
    assert!(plan.terrain_probe);
    assert!(!plan.composition_probe);

    modes.composition_enabled = true;
    let plan = plan_frame(&modes);
    assert!(plan.composition_probe);
    assert!(!plan.terrain_probe);

    let mut skeletal = idle();
    skeletal.probe = true;
    skeletal.skeletal_enabled = true;
    let plan = plan_frame(&skeletal);
    assert!(plan.skeletal_probe && !plan.surface_probe);
    skeletal.surface_enabled = true;
    let plan = plan_frame(&skeletal);
    assert!(plan.surface_probe && !plan.skeletal_probe);
}

#[test]
fn captures_and_resident_streams_wait_for_the_frame() {
    let mut modes = idle();
    modes.capture = true;
    modes.capture_object_ids = true;
    let plan = plan_frame(&modes);
    assert!(plan.wait && plan.capture && plan.capture_object_ids);
    assert!(!plan.meshlet_probe);

    let mut streaming = idle();
    streaming.resident_stream_pending = true;
    let plan = plan_frame(&streaming);
    assert!(plan.wait && plan.complete_resident_stream);
}

#[test]
fn composed_frames_clear_in_their_first_pass_and_ground_objects_on_terrain() {
    let mut modes = idle();
    modes.composition_enabled = true;
    modes.terrain_enabled = true;
    modes.skeletal_enabled = true;
    let plan = plan_frame(&modes);
    assert_eq!(plan.terrain_record, Some(TerrainRecord { clear_depth_semantic: true }));
    assert_eq!(
        plan.skeletal_record,
        Some(SkeletalRecord { clear_depth_semantic: false, terrain_slots: true, grounding_mode: 2 })
    );
    modes.composition_order = CompositionOrder::ObjectFirst;
    let plan = plan_frame(&modes);
    assert_eq!(plan.terrain_record, Some(TerrainRecord { clear_depth_semantic: false }));
    assert_eq!(
        plan.skeletal_record,
        Some(SkeletalRecord { clear_depth_semantic: true, terrain_slots: true, grounding_mode: 2 })
    );
    modes.composition_enabled = false;
    modes.terrain_enabled = false;
    let alone = plan_frame(&modes);
    assert_eq!(alone.terrain_record, None);
    assert_eq!(
        alone.skeletal_record,
        Some(SkeletalRecord { clear_depth_semantic: true, terrain_slots: false, grounding_mode: 0 })
    );
    assert_eq!(plan_frame(&idle()).skeletal_record, None);
}
