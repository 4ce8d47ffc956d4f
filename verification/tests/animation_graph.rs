use csharp_engine_services::animation_graph::{
    AnimationCondition, AnimationMotionDefinition, AnimationParameterDefault, ControllerFlush,
    AnimationParameterDefinition, AnimationRegistry, AnimationStateDefinition, readout_index,
};
use csharp_engine_services::resource::{CsharpRenderResource, CsharpRenderResourceKind};
use csharp_engine_services::selection::ResourceSelection;
use csharp_engine_services::table::TextTable;
use csharp_engine_services::CsharpEngineServicesError;

fn selection_with_glb(asset: &str) -> (ResourceSelection, u64, u64) {
    let mut selection = ResourceSelection::new(TextTable::new());
    let glb = CsharpRenderResource::admitted(
        CsharpRenderResourceKind::AnimatedMesh,
        "animated-mesh-resource/abc".to_string(),
        asset.to_string(),
        "sha256:abc".to_string(),
        "content/hero.glb".to_string(),
        vec![1, 2, 3],
    )
    .unwrap();
    let glb_handle = selection
        .stage_resource(glb, vec!["content/hero.glb".to_string()])
        .unwrap();
    let font = CsharpRenderResource::admit_font(
        "content/ui.woff2".to_string(),
        b"wOF2\0\0\0\0".to_vec(),
    )
    .unwrap();
    let font_handle = selection
        .stage_resource(font, vec!["content/ui.woff2".to_string()])
        .unwrap();
    (selection, glb_handle, font_handle)
}

#[test]
fn graphs_are_built_over_animated_glbs_and_released_after_controllers() {
    let (selection, glb, font) = selection_with_glb("animated-mesh/hero");
    let mut registry = AnimationRegistry::new();
    assert_eq!(
        registry
            .create_graph(&selection, glb, "g".to_string(), 0, "idle".to_string())
            .unwrap_err()
            .code(),
        "CSHARP_ANIMATION_GRAPH"
    );
    assert_eq!(
        registry
            .create_graph(&selection, font, "g".to_string(), 1, "idle".to_string())
            .unwrap_err()
            .code(),
        "CSHARP_ANIMATION_GRAPH_RESOURCE"
    );
    assert_eq!(
        registry
            .create_graph(&selection, 9, "g".to_string(), 1, "idle".to_string())
            .unwrap_err()
            .code(),
        "CSHARP_RENDER_RESOURCE_HANDLE"
    );
    let graph = registry
        .create_graph(&selection, glb, "locomotion".to_string(), 1, "idle".to_string())
        .unwrap();
    assert_eq!(graph, 1);
    registry
        .define_parameter(
            graph,
            AnimationParameterDefinition {
                parameter_id: "speed".to_string(),
                default: AnimationParameterDefault::Float { default_milli: 0 },
            },
        )
        .unwrap();
    registry
        .define_state(
            graph,
            AnimationStateDefinition {
                state_id: "idle".to_string(),
                motion: AnimationMotionDefinition::Clip {
                    clip_id: "idle".to_string(),
                    speed_milli: 1000,
                },
            },
        )
        .unwrap();
    assert_eq!(
        registry
            .define_transition(graph, "t".to_string(), "idle".to_string(), "run".to_string(), 70_000, 4)
            .unwrap_err()
            .code(),
        "CSHARP_ANIMATION_TRANSITION"
    );
    let transition = registry
        .define_transition(graph, "t".to_string(), "idle".to_string(), "run".to_string(), 3, 4)
        .unwrap();
    registry
        .define_condition(
            transition,
            AnimationCondition::FloatGreaterThan {
                parameter_id: "speed".to_string(),
                threshold_milli: 500,
            },
        )
        .unwrap();
    assert_eq!(
        registry
            .define_parameter(
                42,
                AnimationParameterDefinition {
                    parameter_id: "x".to_string(),
                    default: AnimationParameterDefault::Bool { default: false },
                },
            )
            .unwrap_err()
            .code(),
        "CSHARP_ANIMATION_GRAPH"
    );

    let instance = registry
        .create_instance(&selection, 70, Some(glb), 7)
        .unwrap();
    assert_eq!(
        registry
            .create_instance(&selection, 71, Some(glb), 7)
            .unwrap_err()
            .code(),
        "CSHARP_ANIMATION_INSTANCE_OBJECT"
    );
    assert_eq!(
        registry
            .create_instance(&selection, 72, None, 8)
            .unwrap_err()
            .code(),
        "CSHARP_ANIMATION_APPEARANCE"
    );
    assert_eq!(
        registry
            .create_instance(&selection, 72, Some(font), 8)
            .unwrap_err()
            .code(),
        "CSHARP_ANIMATION_RESOURCE"
    );
    assert_eq!(
        registry
            .create_controller(&selection, graph, instance, 0, Ok(()))
            .unwrap_err()
            .code(),
        "CSHARP_ANIMATION_TICK_DURATION"
    );
    let controller = registry
        .create_controller(&selection, graph, instance, 33, Ok(()))
        .unwrap();
    assert_eq!(
        registry.check_direct_playback(instance).unwrap_err().code(),
        "CSHARP_ANIMATION_INSTANCE_MODE"
    );
    assert_eq!(
        registry
            .create_controller(&selection, graph, instance, 33, Ok(()))
            .unwrap_err()
            .code(),
        "CSHARP_ANIMATION_INSTANCE_MODE"
    );
    assert_eq!(
        registry.destroy_graph(graph).unwrap_err().code(),
        "CSHARP_ANIMATION_GRAPH_IN_USE"
    );
    assert_eq!(
        registry.destroy_instance(instance, false).unwrap_err().code(),
        "CSHARP_ANIMATION_INSTANCE_IN_USE"
    );
    assert_eq!(
        registry.destroy_controller(controller, true).unwrap_err().code(),
        "CSHARP_ANIMATION_SNAPSHOT_ORDER"
    );
    assert_eq!(registry.destroy_controller(controller, false).unwrap(), Some(instance));
    assert_eq!(registry.destroy_controller(controller, false).unwrap(), None);
    registry.destroy_graph(graph).unwrap();
    assert_eq!(
        registry
            .define_condition(transition, AnimationCondition::TriggerSet {
                parameter_id: "jump".to_string(),
            })
            .unwrap_err()
            .code(),
        "CSHARP_ANIMATION_TRANSITION",
        "a destroyed graph takes its transitions with it"
    );
    registry.record_direct_playback(instance).unwrap();
    registry.destroy_instance(instance, false).unwrap();
    assert_eq!(
        registry.destroy_instance(instance, false).unwrap_err().code(),
        "CSHARP_ANIMATION_INSTANCE"
    );
}

#[test]
fn controllers_require_one_asset_and_no_direct_playback() {
    let (selection, glb, _) = selection_with_glb("animated-mesh/hero");
    let mut registry = AnimationRegistry::new();
    let graph = registry
        .create_graph(&selection, glb, "g".to_string(), 1, "idle".to_string())
        .unwrap();
    let direct = registry.create_instance(&selection, 1, Some(glb), 1).unwrap();
    registry.record_direct_playback(direct).unwrap();
    assert_eq!(
        registry
            .create_controller(&selection, graph, direct, 16, Ok(()))
            .unwrap_err()
            .code(),
        "CSHARP_ANIMATION_INSTANCE_MODE"
    );
    assert_eq!(
        registry
            .create_controller(&selection, 99, direct, 16, Ok(()))
            .unwrap_err()
            .code(),
        "CSHARP_ANIMATION_GRAPH"
    );
    assert_eq!(
        registry
            .create_controller(&selection, graph, 99, 16, Ok(()))
            .unwrap_err()
            .code(),
        "CSHARP_ANIMATION_INSTANCE"
    );
    let free = registry.create_instance(&selection, 2, Some(glb), 2).unwrap();
    assert!(registry.check_controller(&selection, graph, free, 16).is_ok());
    let refused = registry
        .create_controller(
            &selection,
            graph,
            free,
            16,
            Err(CsharpEngineServicesError::new("CSHARP_ANIMATION_GRAPH", "graph names no clip".to_string())),
        )
        .unwrap_err();
    assert_eq!(refused.code(), "CSHARP_ANIMATION_GRAPH");
    assert_eq!(refused.detail(), "graph names no clip");
    // A refused catalog takes no handle: the next controller is still the first.
    assert_eq!(registry.create_controller(&selection, graph, free, 16, Ok(())).unwrap(), 1);
}

#[test]
fn direct_playback_is_staged_once_per_target() {
    let (selection, glb, _) = selection_with_glb("animated-mesh/hero");
    let mut registry = AnimationRegistry::new();
    let instance = registry.create_instance(&selection, 3, Some(glb), 42).unwrap();
    assert_eq!(registry.playback_object(instance).unwrap(), None);
    assert_eq!(
        registry.playback_object(99).unwrap_err().code(),
        "CSHARP_ANIMATION_INSTANCE"
    );
    registry.record_direct_playback(instance).unwrap();
    assert_eq!(registry.playback_object(instance).unwrap(), Some(42));
    assert!(registry.playback_due(instance, 7));
    registry.record_playback_frame(instance, 7);
    assert!(!registry.playback_due(instance, 7));
    assert!(registry.playback_due(instance, 8), "a replaced render target is staged again");
    registry.forget_playback_target(instance);
    assert!(registry.playback_due(instance, 7));
    registry.record_playback_frame(instance, 7);
    registry.record_direct_playback(instance).unwrap();
    assert!(registry.playback_due(instance, 7), "a new command is pending");
    registry.forget_playback_target(99);
}

#[test]
fn controller_flush_creates_updates_and_refuses_lost_targets() {
    let (selection, glb, _) = selection_with_glb("animated-mesh/hero");
    let mut registry = AnimationRegistry::new();
    let graph = registry
        .create_graph(&selection, glb, "g".to_string(), 1, "idle".to_string())
        .unwrap();
    let instance = registry.create_instance(&selection, 3, Some(glb), 42).unwrap();
    let controller = registry.create_controller(&selection, graph, instance, 16, Ok(())).unwrap();
    assert_eq!(registry.controller_object(controller).unwrap(), 42);
    assert_eq!(
        registry.controller_object(99).unwrap_err().code(),
        "CSHARP_ANIMATION_CONTROLLER"
    );
    assert_eq!(
        registry.controller_flush(99, 5, 1).unwrap_err().code(),
        "CSHARP_ANIMATION_CONTROLLER"
    );
    assert_eq!(registry.controller_flush(controller, 5, 1).unwrap(), ControllerFlush::Create);
    registry.forget_controller_target(controller).unwrap();
    registry.record_controller_projection(controller, 5, 1);
    assert_eq!(registry.controller_flush(controller, 5, 1).unwrap(), ControllerFlush::Unchanged);
    assert_eq!(registry.controller_flush(controller, 5, 2).unwrap(), ControllerFlush::Update);
    assert_eq!(registry.controller_flush(controller, 6, 1).unwrap(), ControllerFlush::Update);
    assert_eq!(
        registry.forget_controller_target(controller).unwrap_err().code(),
        "CSHARP_ANIMATION_SNAPSHOT_ORDER"
    );
    assert_eq!(
        registry.forget_controller_target(99).unwrap_err().code(),
        "CSHARP_ANIMATION_CONTROLLER"
    );
    assert_eq!(registry.controller_flush(controller, 5, 1).unwrap(), ControllerFlush::Unchanged);
}

#[test]
fn controller_readouts_index_states_in_definition_order() {
    assert_eq!(readout_index(&vec!["a".to_string(), "b".to_string(), "b".to_string()], "b"), 1);
    assert_eq!(readout_index(&vec!["a".to_string()], "z"), u32::MAX);
    assert_eq!(readout_index(&Vec::new(), "a"), u32::MAX);
    let (selection, glb, _) = selection_with_glb("animated-mesh/hero");
    let mut registry = AnimationRegistry::new();
    let graph = registry
        .create_graph(&selection, glb, "g".to_string(), 1, "idle".to_string())
        .unwrap();
    for state in ["idle", "walk", "run"] {
        registry
            .define_state(
                graph,
                AnimationStateDefinition {
                    state_id: state.to_string(),
                    motion: AnimationMotionDefinition::Clip {
                        clip_id: state.to_string(),
                        speed_milli: 1000,
                    },
                },
            )
            .unwrap();
    }
    let instance = registry.create_instance(&selection, 3, Some(glb), 42).unwrap();
    let controller = registry.create_controller(&selection, graph, instance, 16, Ok(())).unwrap();
    assert_eq!(registry.controller_state_index(controller, "run").unwrap(), 2);
    assert_eq!(registry.controller_state_index(controller, "idle").unwrap(), 0);
    assert_eq!(registry.controller_state_index(controller, "fly").unwrap(), u32::MAX);
    assert_eq!(
        registry.controller_state_index(99, "idle").unwrap_err().code(),
        "CSHARP_ANIMATION_CONTROLLER"
    );
}

#[test]
fn animation_readout_counts_owners_and_pending_commands() {
    let (selection, glb, _) = selection_with_glb("animated-mesh/hero");
    let mut registry = AnimationRegistry::new();
    let empty = registry.readout(&selection);
    assert_eq!(empty.admitted_meshes, 1);
    assert_eq!(empty.admitted_clip_packs, 0);
    assert_eq!(empty.retained_instances, 0);
    assert_eq!(empty.pending_playback_commands, 0);
    let graph = registry
        .create_graph(&selection, glb, "g".to_string(), 1, "idle".to_string())
        .unwrap();
    let first = registry.create_instance(&selection, 3, Some(glb), 1).unwrap();
    let second = registry.create_instance(&selection, 4, Some(glb), 2).unwrap();
    let third = registry.create_instance(&selection, 5, Some(glb), 3).unwrap();
    registry.record_direct_playback(first).unwrap();
    registry.record_direct_playback(third).unwrap();
    registry.create_controller(&selection, graph, second, 16, Ok(())).unwrap();
    let readout = registry.readout(&selection);
    assert_eq!(readout.retained_instances, 3);
    assert_eq!(readout.retained_graphs, 1);
    assert_eq!(readout.retained_controllers, 1);
    assert_eq!(readout.pending_playback_commands, 2);
    registry.record_playback_frame(first, 9);
    assert_eq!(registry.readout(&selection).pending_playback_commands, 1);
}
