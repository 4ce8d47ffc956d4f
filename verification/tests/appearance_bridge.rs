//! Appearance service scenarios, driven through the verified ledgers the
//! way the Engine bridge drives them. Texture decoding, GLB import and
//! packing, and the renderer projections are the renderer's own; their
//! results are supplied here as the facts the bridge would receive.

use csharp_engine_services::animation_graph::{
    AnimationMotionDefinition, AnimationRegistry, AnimationStateDefinition, ControllerFlush,
};
use csharp_engine_services::appearance::{AppearanceRegistry, SnapshotFact};
use csharp_engine_services::digest::sha256_hex;
use csharp_engine_services::CsharpEngineServicesError;
use csharp_engine_services::light::LightRegistry;
use csharp_engine_services::mesh::{
    check_association_open, clip_pack_association_asset, plan_static_mesh,
    ClipPackAssociations, NativeMaterialBinding, NativeMeshGroup,
};
use csharp_engine_services::presentation::{
    GhostPlate, GhostPlateRegistry, PresentationDiagnostic, PresentationDiagnosticDomain,
    PresentationDiagnostics, PresentationOwners,
};
use csharp_engine_services::resource::{CsharpRenderResource, CsharpRenderResourceKind, ImportedGlb};
use csharp_engine_services::selection::{
    packed_mesh_path, GlbOpenOutcome, OpenResourceOutcome, RenderResourceInfoKind,
    ResourceSelection,
};
use csharp_engine_services::table::{HandleTable, TextTable};

const RGBA_PNG: &[u8] = b"\x89PNG\r\n\x1a\nrgba";

fn content(entries: &[(&str, &[u8])]) -> TextTable<Vec<u8>> {
    let mut table = TextTable::new();
    for (path, bytes) in entries {
        table.insert(path.to_string(), bytes.to_vec());
    }
    table
}

/// Admits a PNG that `open_resource` handed out for media admission, as the
/// renderer's PNG decoder would, and selects it under its paths.
fn admit_png(selection: &mut ResourceSelection, requested: &str) -> u64 {
    match selection.open_resource(requested).expect("texture path") {
        OpenResourceOutcome::Selected(info) => info.handle,
        OpenResourceOutcome::NeedsAdmission {
            kind,
            browser_path,
            relative_path,
            requested_path,
            bytes,
        } => {
            assert_eq!(kind, CsharpRenderResourceKind::Texture);
            let digest = sha256_hex(&bytes);
            let texture = CsharpRenderResource::admitted(
                kind,
                format!("texture-resource/{digest}"),
                format!("texture/csharp-product-{digest}"),
                format!("sha256:{digest}"),
                browser_path.clone(),
                bytes,
            )
            .expect("decoded PNG");
            selection
                .stage_resource(texture, vec![browser_path, relative_path, requested_path])
                .expect("selected texture")
        }
    }
}

/// Opens, admits and selects an animated GLB (or clip pack) whose import
/// retained its body and named `asset`.
fn admit_glb(selection: &mut ResourceSelection, requested: &str, clip_pack: bool) -> u64 {
    match selection.open_glb(requested, clip_pack).expect("GLB path") {
        GlbOpenOutcome::Selected(handle) => handle,
        GlbOpenOutcome::NeedsAdmission {
            browser_path,
            relative_path,
            requested_path,
            bytes,
        } => {
            let imported = ImportedGlb {
                runtime_resource_bytes: bytes.clone(),
                asset: format!("animated-mesh/{relative_path}"),
                content_hash: Some(format!("sha256:{}", sha256_hex(&bytes))),
                clip_count: 2,
            };
            let resource = if clip_pack {
                CsharpRenderResource::admit_animation_clip_pack(browser_path.clone(), bytes, Ok(imported))
            } else {
                CsharpRenderResource::admit_animated_mesh(browser_path.clone(), bytes, Ok(imported))
            }
            .expect("imported GLB");
            selection
                .stage_resource(resource, vec![browser_path, relative_path, requested_path])
                .expect("selected GLB")
        }
    }
}

fn fact(object_id: u64, appearance: u64) -> SnapshotFact {
    SnapshotFact { object_id, appearance }
}

fn sprite_atlas(
    ledger: &mut AppearanceRegistry,
    selection: &ResourceSelection,
    texture: u64,
    frames: Vec<u32>,
) -> u64 {
    ledger.plan_atlas(selection, texture, frames.len()).expect("atlas plan");
    ledger.insert_atlas(frames).expect("atlas")
}

fn sprite_from_atlas(ledger: &mut AppearanceRegistry, atlas: u64, frame: u32) -> Result<u64, &'static str> {
    ledger.atlas_frame(atlas, frame).map_err(|e| e.code())?;
    let (appearance, _) = ledger.allocate_appearance().map_err(|e| e.code())?;
    ledger.bind_sprite_appearance(appearance, atlas);
    Ok(appearance)
}

#[test]
fn sprite_atlas_copies_frames_resolves_readout_and_releases_with_appearance() {
    let mut selection = ResourceSelection::new(content(&[("atlas.png", RGBA_PNG)]));
    let texture = admit_png(&mut selection, "atlas.png");
    let mut ledger = AppearanceRegistry::new();
    assert_eq!(
        ledger.plan_atlas(&selection, 0, 2).unwrap_err().code(),
        "CSHARP_RENDER_RESOURCE_HANDLE",
        "zero cannot alias the first admitted texture"
    );
    let atlas = sprite_atlas(&mut ledger, &selection, texture, vec![7, 9]);
    let sprite = sprite_from_atlas(&mut ledger, atlas, 7).expect("atlas sprite");
    assert_eq!(ledger.sprite_atlas_of(sprite).unwrap(), atlas);
    let shown = 9;
    assert_eq!(ledger.sprite_atlas_of(sprite).unwrap(), atlas);
    ledger.atlas_frame(atlas, shown).expect("select second frame");
    assert_eq!(
        ledger.destroy_atlas(atlas).unwrap_err().code(),
        "CSHARP_SPRITE_ATLAS_IN_USE"
    );
    let animations = AnimationRegistry::new();
    ledger
        .destroy_appearance(sprite, &HandleTable::new(), &animations)
        .expect("release sprite lease");
    ledger.destroy_atlas(atlas).expect("release atlas");
}

#[test]
fn atlas_sprite_failures_and_legacy_replacement_leave_or_release_the_lease() {
    let mut selection = ResourceSelection::new(content(&[("atlas.png", RGBA_PNG)]));
    let texture = admit_png(&mut selection, "atlas.png");
    let mut ledger = AppearanceRegistry::new();
    let animations = AnimationRegistry::new();
    let atlas = sprite_atlas(&mut ledger, &selection, texture, vec![4]);
    let sprite = sprite_from_atlas(&mut ledger, atlas, 4).expect("atlas sprite");
    assert_eq!(
        ledger.atlas_frame(ledger.sprite_atlas_of(sprite).unwrap(), 99).unwrap_err().code(),
        "CSHARP_SPRITE_ATLAS_FRAME",
        "unknown frame"
    );
    assert_eq!(
        ledger.atlas_frame(atlas, 99).unwrap_err().code(),
        "CSHARP_SPRITE_ATLAS_FRAME",
        "unknown replacement frame is refused before the sprite is released"
    );
    assert!(ledger.ensure_live_appearance(sprite).is_ok(), "replacement left sprite intact");
    let (primitive, _) = ledger.allocate_appearance().expect("primitive");
    assert_eq!(
        ledger.sprite_atlas_of(primitive).unwrap_err().code(),
        "CSHARP_SPRITE_ATLAS_APPEARANCE",
        "wrong appearance kind"
    );
    ledger
        .plan_texture_sprite(&selection, texture)
        .expect("legacy replacement validates before releasing atlas sprite");
    ledger
        .destroy_appearance(sprite, &HandleTable::new(), &animations)
        .expect("release the atlas sprite");
    let (replacement, _) = ledger.allocate_appearance().expect("legacy sprite");
    assert_ne!(replacement, sprite);
    ledger
        .destroy_atlas(atlas)
        .expect("legacy replacement released atlas lease");
}

#[test]
fn retained_appearance_must_leave_the_complete_snapshot_before_disposal_or_replacement() {
    let mut ledger = AppearanceRegistry::new();
    let animations = AnimationRegistry::new();
    let (appearance, _) = ledger.allocate_appearance().unwrap();
    let snapshot = ledger
        .plan_snapshot(&animations, &vec![fact(7, appearance)], &vec![])
        .unwrap();
    let error = ledger
        .destroy_appearance(appearance, &snapshot.retained, &animations)
        .unwrap_err();
    assert_eq!(error.code(), "CSHARP_APPEARANCE_IN_USE");
    let empty = ledger.plan_snapshot(&animations, &vec![], &vec![]).unwrap();
    ledger
        .destroy_appearance(appearance, &empty.retained, &animations)
        .unwrap();
    let (replacement, _) = ledger.allocate_appearance().unwrap();
    assert_ne!(replacement, appearance);
}

#[test]
fn ghost_plate_is_product_id_owned_and_preserves_live_state_on_failed_update() {
    let mut ledger = AppearanceRegistry::new();
    let animations = AnimationRegistry::new();
    let (appearance, _) = ledger.allocate_appearance().unwrap();
    let source = fact(7, appearance);
    let snapshot = ledger
        .plan_snapshot(&animations, &vec![source], &vec![])
        .expect("source snapshot");
    assert!(snapshot.retained.contains(source.object_id), "source is present");
    let mut plates: GhostPlateRegistry<u8> = GhostPlateRegistry::new();
    let plate = plates.reserve().unwrap();
    plates.insert(plate, GhostPlate { source_object_id: source.object_id, presentation: 4 });
    let initial = plates.get(plate).expect("initial readout");
    assert_eq!(initial.source_object_id, source.object_id);
    assert_eq!(initial.presentation, 4);
    plates.update(plate, 8).expect("hard-snap ghost update");
    assert_eq!(plates.get(plate).unwrap().presentation, 8);
    assert_eq!(plates.get(plate).unwrap().source_object_id, source.object_id);
    assert_eq!(
        ledger
            .plan_snapshot(&animations, &vec![], &plates.sources())
            .unwrap_err()
            .code(),
        "CSHARP_GHOST_PLATE_SNAPSHOT_ORDER"
    );
    plates.remove(plate).expect("destroy before source removal");
    ledger
        .plan_snapshot(&animations, &vec![], &plates.sources())
        .expect("source removal is ordered after ghost disposal");
}

#[derive(Debug, Clone, Copy, PartialEq)]
struct PointLight {
    parent_object_id: Option<u64>,
    intensity: f32,
    directional: bool,
}

fn point_light(parent_object_id: Option<u64>) -> PointLight {
    PointLight { parent_object_id, intensity: 2.0, directional: false }
}

#[test]
fn lights_are_owned_readable_and_compose_with_the_retained_appearance_frame() {
    let mut ledger = AppearanceRegistry::new();
    let animations = AnimationRegistry::new();
    let (appearance, _) = ledger.allocate_appearance().unwrap();
    let snapshot = ledger
        .plan_snapshot(&animations, &vec![fact(7, appearance)], &vec![])
        .unwrap();
    let mut lights = LightRegistry::new();
    let light = lights.create(91, point_light(Some(7))).unwrap();
    let readout = lights.read(light).unwrap();
    assert_eq!(readout.light_id, 91);
    assert_eq!(readout.descriptor.parent_object_id, Some(7));
    assert!(!readout.descriptor.directional);
    assert_eq!(snapshot.retained.len(), 1);
    assert_eq!(lights.len(), 1);
    let mut replacement = point_light(Some(7));
    replacement.intensity = 3.0;
    lights.update(light, 91, replacement).unwrap();
    assert_eq!(lights.read(light).unwrap().descriptor.intensity, 3.0);
}

#[test]
fn invalid_light_replacement_preserves_the_committed_owner_and_requested_facts() {
    let mut lights = LightRegistry::new();
    let light = lights.create(91, point_light(None)).unwrap();
    let retained = lights.read(light).unwrap();
    assert_eq!(retained.light_id, 91);
    assert!(!retained.descriptor.directional);
    assert!(lights.destroy(light));
    assert!(!lights.destroy(light), "a second disposal changes nothing");
}

#[test]
fn selected_resources_are_transactional_deduplicated_and_create_time_only() {
    let mut selection = ResourceSelection::new(content(&[
        ("selected.png", RGBA_PNG),
        ("unselected.png", b"not an RGBA PNG"),
    ]));
    let call = selection.checkpoint();
    admit_png(&mut selection, "selected.png");
    assert_eq!(selection.len(), 1);
    selection.rollback(call);
    assert_eq!(selection.len(), 0, "a discarded call selects nothing");
    assert!(matches!(
        selection.open_resource("content/selected.png").expect("content is still open"),
        OpenResourceOutcome::NeedsAdmission { .. }
    ));

    let _call = selection.checkpoint();
    let selected = admit_png(&mut selection, "selected.png");
    let alias = match selection.open_resource("content/selected.png").expect("alias") {
        OpenResourceOutcome::Selected(info) => info,
        OpenResourceOutcome::NeedsAdmission { .. } => panic!("the alias is selected"),
    };
    assert_eq!(selected, alias.handle);
    assert_eq!(alias.kind, RenderResourceInfoKind::Texture);
    assert_eq!(selection.len(), 1);

    let call = selection.checkpoint();
    assert!(matches!(
        selection.open_resource("unselected.png"),
        Ok(OpenResourceOutcome::NeedsAdmission { .. })
    ));
    // The renderer's PNG decoder refuses this body, so the call fails and is discarded.
    selection.rollback(call);
    assert_eq!(selection.len(), 1);
    selection.seal();
    assert!(matches!(
        selection.open_resource("selected.png").expect("already selected resource"),
        OpenResourceOutcome::Selected(info) if info.handle == selected
    ));
    assert_eq!(
        selection
            .open_resource("unselected.png")
            .expect_err("new selection is closed")
            .code(),
        "CSHARP_RENDER_RESOURCE_SELECTION_CLOSED"
    );
}

#[test]
fn inline_static_mesh_content_packs_one_selected_resource_for_retained_appearances() {
    let mut selection = ResourceSelection::new(content(&[("mesh.json", b"{\"asset\":\"mesh/test\"}")]));
    let mut ledger = AppearanceRegistry::new();
    let packed = b"RMSH packed mesh".to_vec();
    let digest = sha256_hex(&packed);
    let mut meshes = Vec::new();
    for _ in 0..2 {
        selection.static_mesh_document("mesh.json").expect("mesh document");
        let path = packed_mesh_path(&format!("sha256:{digest}")).expect("packed path");
        let resource = CsharpRenderResource::admitted(
            CsharpRenderResourceKind::Mesh,
            format!("mesh-resource/{digest}"),
            format!("mesh-resource/{digest}"),
            format!("sha256:{digest}"),
            path.clone(),
            packed.clone(),
        )
        .expect("packed mesh");
        let handle = selection.stage_resource(resource, vec![path]).expect("selected mesh");
        let (appearance, _) = ledger.allocate_appearance().expect("retained appearance");
        let plan = plan_static_mesh(
            &selection,
            handle,
            appearance,
            &vec![NativeMeshGroup { material_slot: 0, start: 0, count: 3 }],
            1,
            0,
            0,
        )
        .expect("static mesh plan");
        meshes.push(plan);
    }
    assert_eq!(selection.len(), 1);
    assert_eq!(meshes.len(), 2);
    assert_ne!(meshes[0].mesh_id, meshes[1].mesh_id);
    let materials: Vec<&String> = meshes.iter().flat_map(|m| m.material_slots.iter().map(|s| &s.material)).collect();
    assert_eq!(materials.len(), 2);
    assert_ne!(materials[0], materials[1]);
}

/// An animated appearance over a selected GLB, recorded in the ledger.
fn animated_appearance(ledger: &mut AppearanceRegistry, resource: u64) -> u64 {
    let (appearance, _) = ledger.allocate_appearance().expect("animated appearance");
    ledger.record_animated_appearance(appearance, resource);
    appearance
}

#[test]
fn animated_direct_playback_is_emitted_once_per_command() {
    let mut selection = ResourceSelection::new(content(&[("character.glb", b"glTF character")]));
    let resource = admit_glb(&mut selection, "character.glb", false);
    let mut ledger = AppearanceRegistry::new();
    let mut animations = AnimationRegistry::new();
    let appearance = animated_appearance(&mut ledger, resource);
    let instance = animations
        .create_instance(&selection, appearance, ledger.animated_resource(appearance), 7)
        .expect("retained animation instance");
    animations.record_direct_playback(instance).expect("one-shot stop command");
    ledger
        .plan_snapshot(&animations, &vec![fact(7, appearance)], &vec![])
        .expect("appearance snapshot");
    let target = 1;
    assert_eq!(animations.playback_object(instance).unwrap(), Some(7));
    assert!(animations.playback_due(instance, target), "one extra frame is staged");
    animations.record_playback_frame(instance, target);
    ledger
        .plan_snapshot(&animations, &vec![fact(7, appearance)], &vec![])
        .expect("unchanged appearance snapshot");
    assert!(!animations.playback_due(instance, target), "no extra frame the second time");
    assert_eq!(
        animations
            .destroy_instance(instance, true)
            .expect_err("snapshot and disposal must be ordered across product calls")
            .code(),
        "CSHARP_ANIMATION_SNAPSHOT_ORDER"
    );
    animations
        .destroy_instance(instance, false)
        .expect("direct instance teardown");
}

#[test]
fn animated_external_image_closure_is_packed_before_direct_playback() {
    let mut selection = ResourceSelection::new(content(&[
        ("actors/character.glb", b"glTF with external image"),
        ("actors/Textures/character.png", RGBA_PNG),
    ]));
    let dependencies = selection
        .glb_dependencies("actors/character.glb", &vec!["Textures/character.png".to_string()])
        .expect("external image closure is admitted");
    assert_eq!(dependencies, vec![RGBA_PNG.to_vec()]);
    let resource = admit_glb(&mut selection, "content/actors/character.glb", false);
    let mut ledger = AppearanceRegistry::new();
    let mut animations = AnimationRegistry::new();
    let appearance = animated_appearance(&mut ledger, resource);
    let instance = animations
        .create_instance(&selection, appearance, ledger.animated_resource(appearance), 77)
        .expect("animation instance");
    animations.record_direct_playback(instance).expect("embedded clip playback");
}

#[test]
fn loading_bay_button_external_texture_reaches_direct_playback() {
    let mut selection = ResourceSelection::new(content(&[
        ("loading-bay/button-floor-square.glb", b"glTF button"),
        ("loading-bay/Textures/colormap.png", RGBA_PNG),
    ]));
    selection
        .glb_dependencies(
            "loading-bay/button-floor-square.glb",
            &vec!["Textures/colormap.png".to_string()],
        )
        .expect("Loading Bay GLB closure is admitted");
    let resource = admit_glb(&mut selection, "content/loading-bay/button-floor-square.glb", false);
    let mut ledger = AppearanceRegistry::new();
    let mut animations = AnimationRegistry::new();
    let appearance = animated_appearance(&mut ledger, resource);
    let instance = animations
        .create_instance(&selection, appearance, ledger.animated_resource(appearance), 91)
        .expect("Loading Bay animation instance");
    animations
        .record_direct_playback(instance)
        .expect("Loading Bay embedded clip playback");
}

#[test]
fn animated_external_image_closure_missing_or_wrong_case_is_fail_atomic() {
    let selection = ResourceSelection::new(content(&[
        ("actors/character.glb", b"glTF with external image"),
        ("actors/textures/character.png", RGBA_PNG),
    ]));
    assert!(matches!(
        selection.open_glb("content/actors/character.glb", false).expect("GLB body"),
        GlbOpenOutcome::NeedsAdmission { .. }
    ));
    let error = selection
        .glb_dependencies("actors/character.glb", &vec!["Textures/character.png".to_string()])
        .expect_err("dependency lookup preserves authored case");
    assert_eq!(error.code(), "CSHARP_ANIMATION_GLB_CLOSURE");
    assert_eq!(selection.len(), 0);
}

#[test]
fn animated_mesh_material_bindings_retain_selected_material_handles() {
    let mut selection = ResourceSelection::new(content(&[("character.glb", b"glTF character")]));
    let resource = admit_glb(&mut selection, "character.glb", false);
    let embedded_slots = vec![0u16];
    let mut ledger = AppearanceRegistry::new();
    let appearance = animated_appearance(&mut ledger, resource);
    ledger.next_material_id().expect("material identity");
    let material = ledger.insert_material();
    let bound = ledger
        .update_animated_mesh_materials(
            appearance,
            &vec![NativeMaterialBinding { material_slot: 0, material }],
            &embedded_slots,
        )
        .expect("animated material binding");
    assert_eq!(bound.material_handles, vec![material]);
    assert_eq!(
        ledger
            .update_animated_mesh_materials(
                appearance,
                &vec![NativeMaterialBinding { material_slot: 1, material }],
                &embedded_slots,
            )
            .expect_err("unbound embedded material slot is rejected")
            .code(),
        "CSHARP_ANIMATED_MESH_SLOT"
    );
    assert_eq!(
        ledger
            .update_animated_mesh_materials(
                appearance,
                &vec![
                    NativeMaterialBinding { material_slot: 0, material },
                    NativeMaterialBinding { material_slot: 0, material },
                ],
                &embedded_slots,
            )
            .expect_err("a repeated slot is rejected")
            .code(),
        "CSHARP_ANIMATED_MESH_SLOT"
    );
    assert_eq!(
        ledger
            .destroy_material(material)
            .expect_err("bound material remains live")
            .code(),
        "CSHARP_MATERIAL_IN_USE"
    );
    let (plain, _) = ledger.allocate_appearance().expect("plain appearance");
    assert_eq!(
        ledger
            .update_animated_mesh_materials(plain, &vec![], &embedded_slots)
            .expect_err("not an animated mesh")
            .code(),
        "CSHARP_ANIMATED_MESH_APPEARANCE"
    );
    let cleared = ledger
        .update_animated_mesh_materials(appearance, &vec![], &embedded_slots)
        .expect("clear animated material bindings");
    assert!(cleared.material_handles.is_empty());
    ledger
        .destroy_material(material)
        .expect("cleared material is releasable");
}

#[test]
fn admitted_clip_pack_is_retained_separately_and_augments_effective_graph_clips() {
    let body: &[u8] = b"glTF character with clips";
    let mut selection = ResourceSelection::new(content(&[("primary.glb", body), ("pack.glb", body)]));
    let hash = format!("sha256:{}", sha256_hex(body));
    let primary = admit_glb(&mut selection, "primary.glb", false);
    let pack = admit_glb(&mut selection, "pack.glb", true);
    assert_ne!(primary, pack, "same bytes retain distinct roles");
    assert_eq!(
        clip_pack_association_asset(&selection, primary, pack).expect("clip-pack kinds"),
        format!("animation-clip-pack/{}", &hash["sha256:".len()..])
    );
    let mut animations = AnimationRegistry::new();
    let mut ledger = AppearanceRegistry::new();
    let mut associations = ClipPackAssociations::new();
    let asset = associations
        .associate(&selection, &animations, &ledger.animated_resources(), primary, pack, Ok(()))
        .expect("association before the primary is used");
    assert_eq!(asset, format!("animation-clip-pack/{}", &hash["sha256:".len()..]));
    assert_eq!(associations.packs(primary), vec![pack]);
    let rig = associations
        .associate(
            &selection,
            &animations,
            &ledger.animated_resources(),
            primary,
            pack,
            Err(CsharpEngineServicesError::new("CSHARP_ANIMATION_CLIP_PACK_RIG", "rig signatures differ".to_string())),
        )
        .unwrap_err();
    assert_eq!(rig.code(), "CSHARP_ANIMATION_CLIP_PACK_RIG");
    assert_eq!(associations.packs(primary), vec![pack]);
    assert_eq!(
        associations
            .associate(&selection, &animations, &ledger.animated_resources(), pack, primary, Ok(()))
            .unwrap_err()
            .code(),
        "CSHARP_ANIMATION_CLIP_PACK_PRIMARY"
    );
    let graph = animations
        .create_graph(
            &selection,
            primary,
            "clip-pack-graph".to_string(),
            1,
            "wave".to_string(),
        )
        .expect("graph retains the assembled primary mesh");
    animations
        .define_state(
            graph,
            AnimationStateDefinition {
                state_id: "wave".to_string(),
                motion: AnimationMotionDefinition::Clip {
                    clip_id: "pack-clip-0".to_string(),
                    speed_milli: 1000,
                },
            },
        )
        .expect("graph state can name an effective clip-pack clip");
    assert_eq!(
        check_association_open(&animations, &ledger.animated_resources(), primary)
            .unwrap_err()
            .code(),
        "CSHARP_ANIMATION_CLIP_PACK_ASSOCIATION_CLOSED"
    );
    assert_eq!(
        associations
            .associate(&selection, &animations, &ledger.animated_resources(), primary, pack, Ok(()))
            .unwrap_err()
            .code(),
        "CSHARP_ANIMATION_CLIP_PACK_ASSOCIATION_CLOSED"
    );
    assert_eq!(associations.packs(primary), vec![pack], "a refused association records nothing");
    let appearance = animated_appearance(&mut ledger, primary);
    let instance = animations
        .create_instance(&selection, appearance, ledger.animated_resource(appearance), 17)
        .expect("animation instance");
    animations
        .create_controller(&selection, graph, instance, 16, Ok(()))
        .expect("controller over the primary GLB");
    let readout = animations.readout(&selection);
    assert_eq!(readout.admitted_meshes, 1);
    assert_eq!(readout.admitted_clip_packs, 1);
}

#[test]
fn animated_controller_disposal_emits_owner_destroy_before_target_removal() {
    let mut selection = ResourceSelection::new(content(&[("character.glb", b"glTF character")]));
    let resource = admit_glb(&mut selection, "character.glb", false);
    let mut ledger = AppearanceRegistry::new();
    let mut animations = AnimationRegistry::new();
    let appearance = animated_appearance(&mut ledger, resource);
    let instance = animations
        .create_instance(&selection, appearance, ledger.animated_resource(appearance), 7)
        .expect("retained animation instance");
    let graph = animations
        .create_graph(&selection, resource, "controller".to_string(), 1, "idle".to_string())
        .expect("animation graph");
    animations
        .define_state(
            graph,
            AnimationStateDefinition {
                state_id: "idle".to_string(),
                motion: AnimationMotionDefinition::Clip {
                    clip_id: "idle".to_string(),
                    speed_milli: 1000,
                },
            },
        )
        .expect("idle graph state");
    let controller = animations
        .create_controller(&selection, graph, instance, 16, Ok(()))
        .expect("animation controller");
    ledger
        .plan_snapshot(&animations, &vec![fact(7, appearance)], &vec![])
        .expect("controller target snapshot");
    let target = 1;
    assert_eq!(animations.controller_flush(controller, target, 0).unwrap(), ControllerFlush::Create);
    animations.record_controller_projection(controller, target, 0);
    ledger
        .plan_snapshot(&animations, &vec![fact(7, appearance)], &vec![])
        .expect("snapshot before teardown");
    assert_eq!(
        animations
            .destroy_controller(controller, true)
            .expect_err("snapshot-before-teardown remains rejected")
            .code(),
        "CSHARP_ANIMATION_SNAPSHOT_ORDER"
    );
    assert_eq!(
        ledger
            .plan_snapshot(&animations, &vec![], &vec![])
            .unwrap_err()
            .code(),
        "CSHARP_ANIMATION_SNAPSHOT_ORDER",
        "a projected controller keeps its target in the snapshot"
    );
    animations
        .destroy_controller(controller, false)
        .expect("controller teardown");
    animations
        .destroy_instance(instance, false)
        .expect("instance teardown after its controller");
    ledger
        .plan_snapshot(&animations, &vec![], &vec![])
        .expect("teardown before target-removal snapshot is ordered");
}

#[test]
fn presentation_facts_stage_projected_billboard_and_particle_frames() {
    let mut billboards = PresentationOwners::new(PresentationDiagnosticDomain::Billboard);
    let mut emitters = PresentationOwners::new(PresentationDiagnosticDomain::Particle);
    billboards.check_new(7).expect("text billboard");
    billboards.insert(7);
    emitters.check_new(8).expect("cube emitter");
    emitters.insert(8);
    billboards.require_live(7).expect("full billboard update");
    assert!(emitters.require_live(9).is_err(), "a burst is not a retained emitter");
}

#[test]
fn rejected_presentation_fact_keeps_bounded_diagnostic_after_call_discard() {
    let mut billboards = PresentationOwners::new(PresentationDiagnosticDomain::Billboard);
    let mut diagnostics = PresentationDiagnostics::new();
    billboards.check_new(7).expect("initial billboard");
    billboards.insert(7);
    diagnostics.record(PresentationDiagnostic {
        domain: PresentationDiagnosticDomain::Billboard,
        code: "DuplicateHandle",
        sequence: 0,
        logical_id: 7,
    });
    assert_eq!(diagnostics.count(PresentationDiagnosticDomain::Billboard), 1);
    assert_eq!(
        diagnostics
            .at(PresentationDiagnosticDomain::Billboard, 0)
            .expect("retained diagnostic")
            .logical_id,
        7
    );
    assert_eq!(diagnostics.count(PresentationDiagnosticDomain::Billboard), 1);
}

#[test]
fn admitted_woff2_font_is_resolved_by_asset_billboard_without_raw_asset_strings() {
    let mut selection = ResourceSelection::new(content(&[("ui.woff2", b"wOF2font-body")]));
    let font = match selection.open_resource("ui.woff2").expect("admitted font") {
        OpenResourceOutcome::Selected(info) => info,
        OpenResourceOutcome::NeedsAdmission { .. } => panic!("fonts are admitted here"),
    };
    assert_eq!(font.kind, RenderResourceInfoKind::Font);
    let mut billboards = PresentationOwners::new(PresentationDiagnosticDomain::Billboard);
    let (identity, hash) = selection.presentation_font(font.handle).expect("asset-font billboard");
    let digest = sha256_hex(b"wOF2font-body");
    assert_eq!(identity, format!("font/{digest}"));
    assert_eq!(hash, format!("sha256:{digest}"));
    billboards.check_new(11).expect("asset-font billboard");
    billboards.insert(11);
}
