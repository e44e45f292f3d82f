use vstd::prelude::*;

use crate::composition::state::CompositionOrder;

verus! {

/// What is switched on, and what the caller asks for, when a frame starts.
#[derive(Clone, Copy, Debug, PartialEq, Eq)]
pub struct FrameModes {
    /// A composition pair is pending publication.
    pub composition_pending: bool,
    pub composition_enabled: bool,
    pub composition_order: CompositionOrder,
    pub terrain_enabled: bool,
    pub skeletal_enabled: bool,
    pub surface_enabled: bool,
    pub meshlet_enabled: bool,
    /// The asynchronous object renderer has a window.
    pub async_resident_configured: bool,
    /// The resident renderer has a window.
    pub resident_configured: bool,
    /// The load renderer has a window.
    pub load_configured: bool,
    /// The resident renderer streams and waits for this frame.
    pub resident_stream_pending: bool,
    pub capture: bool,
    pub capture_object_ids: bool,
    pub probe: bool,
    /// The grounding mode of the composition fixture.
    pub grounding_mode: u32,
}

/// What the frame does with staged work before recording.
#[derive(Clone, Copy, Debug, PartialEq, Eq, Structural)]
pub enum PublicationStep {
    /// Poll the pending composition pair.
    PollComposition,
    /// Let the object and terrain renderers publish on their own.
    PrepareRenderers,
}

/// Which renderers record the scene, and in what order.
#[derive(Clone, Copy, Debug, PartialEq, Eq, Structural)]
pub enum ScenePass {
    TerrainThenObjects,
    ObjectsThenTerrain,
    Terrain,
    Skeletal,
    Meshlet,
    AsyncResident,
    Resident,
    Load,
    Scene,
}

/// Which renderer answers the load probe.
#[derive(Clone, Copy, Debug, PartialEq, Eq, Structural)]
pub enum LoadProbe {
    Absent,
    AsyncResident,
    Resident,
    Load,
}

/// How the terrain pass records: whether it clears depth and object ids.
#[derive(Clone, Copy, Debug, PartialEq, Eq, Structural)]
pub struct TerrainRecord {
    pub clear_depth_semantic: bool,
}

/// How the skeletal object pass records: whether it clears depth and
/// object ids, whether it grounds objects on the terrain mapping's slots,
/// and the grounding mode it passes to its shaders.
#[derive(Clone, Copy, Debug, PartialEq, Eq, Structural)]
pub struct SkeletalRecord {
    pub clear_depth_semantic: bool,
    pub terrain_slots: bool,
    pub grounding_mode: u32,
}

/// The decisions of one frame.
#[derive(Clone, Copy, Debug, PartialEq, Eq)]
pub struct FramePlan {
    pub publication: PublicationStep,
    pub pass: ScenePass,
    pub capture_object_ids: bool,
    pub capture: bool,
    /// The frame waits for the GPU before returning.
    pub wait: bool,
    pub meshlet_probe: bool,
    pub composition_probe: bool,
    pub terrain_probe: bool,
    pub surface_probe: bool,
    pub skeletal_probe: bool,
    pub load_probe: LoadProbe,
    pub complete_resident_stream: bool,
    /// The terrain pass, when the frame records one.
    pub terrain_record: Option<TerrainRecord>,
    /// The skeletal object pass, when the frame records one.
    pub skeletal_record: Option<SkeletalRecord>,
}

/// The pass of a frame: a composed pair in its order, else the first
/// renderer that is switched on, in order of precedence.
pub open spec fn pass_for(m: FrameModes) -> ScenePass {
    if m.composition_enabled {
        match m.composition_order {
            CompositionOrder::TerrainFirst => ScenePass::TerrainThenObjects,
            CompositionOrder::ObjectFirst => ScenePass::ObjectsThenTerrain,
        }
    } else if m.terrain_enabled {
        ScenePass::Terrain
    } else if m.skeletal_enabled {
        ScenePass::Skeletal
    } else if m.meshlet_enabled {
        ScenePass::Meshlet
    } else if m.async_resident_configured {
        ScenePass::AsyncResident
    } else if m.resident_configured {
        ScenePass::Resident
    } else if m.load_configured {
        ScenePass::Load
    } else {
        ScenePass::Scene
    }
}

/// The terrain pass of a frame: the first pass of a composed frame, or the
/// only one, clears depth and object ids; the second does not.
pub open spec fn terrain_record_for(pass: ScenePass) -> Option<TerrainRecord> {
    match pass {
        ScenePass::TerrainThenObjects => Some(TerrainRecord { clear_depth_semantic: true }),
        ScenePass::ObjectsThenTerrain => Some(TerrainRecord { clear_depth_semantic: false }),
        ScenePass::Terrain => Some(TerrainRecord { clear_depth_semantic: true }),
        _ => None,
    }
}

/// The skeletal pass of a frame: in a composed frame it is grounded on the
/// terrain mapping's slots with the fixture's grounding mode, and clears
/// depth and object ids only when it comes first; drawn alone it clears
/// them, with no terrain and grounding mode 0.
pub open spec fn skeletal_record_for(pass: ScenePass, grounding_mode: u32) -> Option<SkeletalRecord> {
    match pass {
        ScenePass::TerrainThenObjects => Some(
            SkeletalRecord { clear_depth_semantic: false, terrain_slots: true, grounding_mode },
        ),
        ScenePass::ObjectsThenTerrain => Some(
            SkeletalRecord { clear_depth_semantic: true, terrain_slots: true, grounding_mode },
        ),
        ScenePass::Skeletal => Some(
            SkeletalRecord { clear_depth_semantic: true, terrain_slots: false, grounding_mode: 0 },
        ),
        _ => None,
    }
}

/// The load probe: none when a terrain, meshlet or skeletal scene is drawn,
/// else that of the first configured window renderer, the load renderer's
/// by default.
pub open spec fn load_probe_for(m: FrameModes) -> LoadProbe {
    if !m.probe || m.terrain_enabled || m.meshlet_enabled || m.skeletal_enabled {
        LoadProbe::Absent
    } else if m.async_resident_configured {
        LoadProbe::AsyncResident
    } else if m.resident_configured {
        LoadProbe::Resident
    } else {
        LoadProbe::Load
    }
}

/// The frame waits for the GPU when it captures, probes or completes a
/// resident stream.
pub open spec fn waits(m: FrameModes) -> bool {
    m.capture || m.probe || m.resident_stream_pending
}

/// Decides what a frame records, captures and reads back.
pub fn plan_frame(m: &FrameModes) -> (r: FramePlan)
    requires
        m.capture_object_ids ==> m.capture,
    ensures
        r.publication == (if m.composition_pending {
            PublicationStep::PollComposition
        } else {
            PublicationStep::PrepareRenderers
        }),
        r.pass == pass_for(*m),
        r.capture == m.capture,
        r.capture_object_ids == m.capture_object_ids,
        r.wait == waits(*m),
        r.meshlet_probe == (m.probe && m.meshlet_enabled),
        r.composition_probe == (m.probe && m.composition_enabled),
        r.terrain_probe == (m.probe && m.terrain_enabled && !m.composition_enabled),
        r.surface_probe == (m.probe && m.skeletal_enabled && m.surface_enabled),
        r.skeletal_probe == (m.probe && m.skeletal_enabled && !m.surface_enabled
            && !m.composition_enabled),
        r.load_probe == load_probe_for(*m),
        r.complete_resident_stream == m.resident_stream_pending,
        r.terrain_record == terrain_record_for(pass_for(*m)),
        r.skeletal_record == skeletal_record_for(pass_for(*m), m.grounding_mode),
        r.pass == ScenePass::Terrain ==> r.terrain_record == Some(TerrainRecord { clear_depth_semantic: true })
            && r.skeletal_record is None,
        r.pass == ScenePass::Skeletal ==> r.terrain_record is None && r.skeletal_record == Some(
            SkeletalRecord { clear_depth_semantic: true, terrain_slots: false, grounding_mode: 0 },
        ),
        r.pass == ScenePass::TerrainThenObjects ==> r.terrain_record == Some(
            TerrainRecord { clear_depth_semantic: true },
        ) && r.skeletal_record == Some(
            SkeletalRecord { clear_depth_semantic: false, terrain_slots: true, grounding_mode: m.grounding_mode },
        ),
        r.pass == ScenePass::ObjectsThenTerrain ==> r.terrain_record == Some(
            TerrainRecord { clear_depth_semantic: false },
        ) && r.skeletal_record == Some(
            SkeletalRecord { clear_depth_semantic: true, terrain_slots: true, grounding_mode: m.grounding_mode },
        ),
{
    let publication = if m.composition_pending {
        PublicationStep::PollComposition
    } else {
        PublicationStep::PrepareRenderers
    };
    let pass = if m.composition_enabled {
        match m.composition_order {
            CompositionOrder::TerrainFirst => ScenePass::TerrainThenObjects,
            CompositionOrder::ObjectFirst => ScenePass::ObjectsThenTerrain,
        }
    } else if m.terrain_enabled {
        ScenePass::Terrain
    } else if m.skeletal_enabled {
        ScenePass::Skeletal
    } else if m.meshlet_enabled {
        ScenePass::Meshlet
    } else if m.async_resident_configured {
        ScenePass::AsyncResident
    } else if m.resident_configured {
        ScenePass::Resident
    } else if m.load_configured {
        ScenePass::Load
    } else {
        ScenePass::Scene
    };
    let load_probe = if !m.probe || m.terrain_enabled || m.meshlet_enabled || m.skeletal_enabled {
        LoadProbe::Absent
    } else if m.async_resident_configured {
        LoadProbe::AsyncResident
    } else if m.resident_configured {
        LoadProbe::Resident
    } else {
        LoadProbe::Load
    };
    let terrain_record = match pass {
        ScenePass::TerrainThenObjects => Some(TerrainRecord { clear_depth_semantic: true }),
        ScenePass::ObjectsThenTerrain => Some(TerrainRecord { clear_depth_semantic: false }),
        ScenePass::Terrain => Some(TerrainRecord { clear_depth_semantic: true }),
        _ => None,
    };
    let skeletal_record = match pass {
        ScenePass::TerrainThenObjects => Some(
            SkeletalRecord { clear_depth_semantic: false, terrain_slots: true, grounding_mode: m.grounding_mode },
        ),
        ScenePass::ObjectsThenTerrain => Some(
            SkeletalRecord { clear_depth_semantic: true, terrain_slots: true, grounding_mode: m.grounding_mode },
        ),
        ScenePass::Skeletal => Some(
            SkeletalRecord { clear_depth_semantic: true, terrain_slots: false, grounding_mode: 0 },
        ),
        _ => None,
    };
    FramePlan {
        publication,
        pass,
        capture_object_ids: m.capture_object_ids,
        capture: m.capture,
        wait: m.capture || m.probe || m.resident_stream_pending,
        meshlet_probe: m.probe && m.meshlet_enabled,
        composition_probe: m.probe && m.composition_enabled,
        terrain_probe: m.probe && m.terrain_enabled && !m.composition_enabled,
        surface_probe: m.probe && m.skeletal_enabled && m.surface_enabled,
        skeletal_probe: m.probe && m.skeletal_enabled && !m.surface_enabled && !m.composition_enabled,
        load_probe,
        complete_resident_stream: m.resident_stream_pending,
        terrain_record,
        skeletal_record,
    }
}


/// Exactly one pass of a frame clears depth and object ids, the one that is
/// recorded first: a pass recorded alone clears them, and of the two passes
/// of a composed frame the first clears and the second draws over it. The
/// object pass is grounded on the terrain slots, with the fixture's
/// grounding mode, exactly when terrain is recorded with it.
pub proof fn law_first_pass_clears(m: FrameModes)
    ensures
        ({
            let pass = pass_for(m);
            let t = terrain_record_for(pass);
            let k = skeletal_record_for(pass, m.grounding_mode);
            &&& (t is Some && k is None ==> t->0.clear_depth_semantic)
            &&& (k is Some && t is None ==> k->0.clear_depth_semantic && !k->0.terrain_slots
                && k->0.grounding_mode == 0)
            &&& (t is Some && k is Some ==> t->0.clear_depth_semantic != k->0.clear_depth_semantic
                && k->0.terrain_slots && k->0.grounding_mode == m.grounding_mode)
            &&& (t is Some && k is Some ==> (t->0.clear_depth_semantic <==> m.composition_order
                == CompositionOrder::TerrainFirst))
            &&& (pass == ScenePass::Terrain ==> t == Some(TerrainRecord { clear_depth_semantic: true }))
            &&& (m.composition_enabled <==> t is Some && k is Some)
        }),
{
}

} // verus!
