use csharp_engine_services::animation_graph::AnimationRegistry;
use csharp_engine_services::appearance::{AppearanceRegistry, SnapshotFact, SpritePlaybackOwners};
use csharp_engine_services::mesh::{bind_mesh_materials, check_association_open, NativeMaterialBinding};
use csharp_engine_services::resource::{CsharpRenderResource, CsharpRenderResourceKind};
use csharp_engine_services::selection::ResourceSelection;
use csharp_engine_services::sprite::{SpritePlayback, SpritePlaybackLoopMode};
use csharp_engine_services::table::{HandleTable, TextTable};

fn shown(pairs: &[(u64, u64)]) -> HandleTable<u64> {
    let mut table = HandleTable::new();
    for (object, appearance) in pairs {
        table.insert(*object, *appearance);
    }
    table
}

struct Handles {
    texture: u64,
    font: u64,
    glb: u64,
}

fn selection() -> (ResourceSelection, Handles) {
    let mut selection = ResourceSelection::new(TextTable::new());
    let texture = CsharpRenderResource::admitted(
        CsharpRenderResourceKind::Texture,
        "texture-resource/abc".to_string(),
        "texture/csharp-product-abc".to_string(),
        "sha256:abc".to_string(),
        "content/atlas.png".to_string(),
        vec![1, 2, 3, 4],
    )
    .unwrap();
    let texture = selection
        .stage_resource(texture, vec!["content/atlas.png".to_string()])
        .unwrap();
    let font = CsharpRenderResource::admit_font(
        "content/ui.woff2".to_string(),
        b"wOF2\0\0\0\0".to_vec(),
    )
    .unwrap();
    let font = selection
        .stage_resource(font, vec!["content/ui.woff2".to_string()])
        .unwrap();
    let glb = CsharpRenderResource::admitted(
        CsharpRenderResourceKind::AnimatedMesh,
        "animated-mesh-resource/def".to_string(),
        "animated-mesh/hero".to_string(),
        "sha256:def".to_string(),
        "content/hero.glb".to_string(),
        vec![5, 6],
    )
    .unwrap();
    let glb = selection
        .stage_resource(glb, vec!["content/hero.glb".to_string()])
        .unwrap();
    (selection, Handles { texture, font, glb })
}

#[test]
fn appearances_and_materials_get_generated_identities() {
    let mut registry = AppearanceRegistry::new();
    assert_eq!(
        registry.allocate_appearance().unwrap(),
        (1, "appearance/native-1".to_string())
    );
    assert_eq!(
        registry.allocate_appearance().unwrap(),
        (2, "appearance/native-2".to_string())
    );
    assert!(registry.ensure_live_appearance(2).is_ok());
    assert_eq!(
        registry.ensure_live_appearance(3).unwrap_err().code(),
        "CSHARP_APPEARANCE_HANDLE"
    );
    assert_eq!(registry.next_material_id().unwrap(), "material/csharp-1");
    assert_eq!(registry.insert_material(), 1);
    assert_eq!(registry.next_material_id().unwrap(), "material/csharp-2");
    assert_eq!(registry.insert_material(), 2);
    assert_eq!(registry.materials().get(2).unwrap(), "material/csharp-2");
}

#[test]
fn bound_materials_outlive_their_appearances() {
    let (_, _) = selection();
    let animations = AnimationRegistry::new();
    let mut registry = AppearanceRegistry::new();
    let (mesh, _) = registry.allocate_appearance().unwrap();
    let brick = registry.insert_material();
    let glass = registry.insert_material();
    let bound = bind_mesh_materials(
        &vec![
            NativeMaterialBinding { material_slot: 0, material: glass },
            NativeMaterialBinding { material_slot: 1, material: brick },
        ],
        None,
        registry.materials(),
    )
    .unwrap();
    assert_eq!(bound.material_handles, vec![brick, glass]);
    registry.set_appearance_materials(mesh, bound.material_handles);
    assert_eq!(
        registry.destroy_material(glass).unwrap_err().code(),
        "CSHARP_MATERIAL_IN_USE"
    );
    assert_eq!(
        registry.destroy_appearance(mesh, &HandleTable::new(), &animations).unwrap(),
        Some("appearance/native-1".to_string())
    );
    assert_eq!(
        registry.destroy_material(glass).unwrap(),
        Some("material/csharp-2".to_string())
    );
    assert_eq!(registry.destroy_material(glass).unwrap(), None, "a tombstone is ignored");
    assert_eq!(registry.destroy_appearance(mesh, &HandleTable::new(), &animations).unwrap(), None);
}

#[test]
fn sprite_atlases_are_planned_over_textures() {
    let (selection, handles) = selection();
    let mut registry = AppearanceRegistry::new();
    let code = |texture: u64, frames: usize| {
        registry
            .plan_atlas(&selection, texture, frames)
            .unwrap_err()
            .code()
    };
    assert_eq!(code(handles.texture, 0), "CSHARP_SPRITE_ATLAS_FRAMES");
    assert_eq!(code(handles.texture, 4097), "CSHARP_SPRITE_ATLAS_FRAMES");
    assert_eq!(code(0, 1), "CSHARP_RENDER_RESOURCE_HANDLE");
    assert_eq!(code(9, 1), "CSHARP_RENDER_RESOURCE_HANDLE");
    assert_eq!(code(handles.font, 1), "CSHARP_SPRITE_ATLAS_RESOURCE");
    let plan = registry.plan_atlas(&selection, handles.texture, 4096).unwrap();
    assert_eq!(plan.handle, 1);
    assert_eq!(plan.asset, "sprite/atlas-1");
    assert_eq!(plan.texture_asset, "texture/atlas-1");
    assert_eq!(registry.insert_atlas(vec![10, 11]).unwrap(), 1);
    assert_eq!(registry.atlas_frame(1, 11).unwrap(), "sprite/atlas-1");
    assert_eq!(
        registry.atlas_frame(1, 12).unwrap_err().code(),
        "CSHARP_SPRITE_ATLAS_FRAME"
    );
    assert_eq!(
        registry.atlas_frame(2, 10).unwrap_err().code(),
        "CSHARP_SPRITE_ATLAS_HANDLE"
    );
    assert_eq!(registry.plan_atlas(&selection, handles.texture, 1).unwrap().asset, "sprite/atlas-2");
}

#[test]
fn texture_sprites_are_named_after_their_appearance() {
    let (selection, handles) = selection();
    let mut registry = AppearanceRegistry::new();
    registry.allocate_appearance().unwrap();
    assert_eq!(
        registry.plan_texture_sprite(&selection, handles.texture).unwrap(),
        ("texture/native-2".to_string(), "sprite/native-2".to_string())
    );
    assert_eq!(
        registry
            .plan_texture_sprite(&selection, handles.font)
            .unwrap_err()
            .code(),
        "CSHARP_SPRITE_RESOURCE"
    );
    assert_eq!(
        registry.plan_texture_sprite(&selection, 9).unwrap_err().code(),
        "CSHARP_RENDER_RESOURCE_HANDLE"
    );
}

#[test]
fn atlases_and_sprites_are_released_in_dependency_order() {
    let (selection, handles) = selection();
    let mut animations = AnimationRegistry::new();
    let mut registry = AppearanceRegistry::new();
    registry.plan_atlas(&selection, handles.texture, 2).unwrap();
    let walk = registry.insert_atlas(vec![10, 11]).unwrap();
    let idle = registry.insert_atlas(vec![20]).unwrap();
    registry.atlas_frame(walk, 10).unwrap();
    let (hero, _) = registry.allocate_appearance().unwrap();
    registry.bind_sprite_appearance(hero, walk);
    let (npc, _) = registry.allocate_appearance().unwrap();
    registry.bind_sprite_appearance(npc, idle);
    let (plain, _) = registry.allocate_appearance().unwrap();
    assert_eq!(registry.sprite_atlas_of(hero).unwrap(), walk);
    assert_eq!(
        registry.sprite_atlas_of(plain).unwrap_err().code(),
        "CSHARP_SPRITE_ATLAS_APPEARANCE"
    );

    assert_eq!(registry.playback_frames(walk, hero).unwrap(), &vec![10, 11]);
    assert_eq!(
        registry.playback_frames(9, hero).unwrap_err().code(),
        "CSHARP_SPRITE_ATLAS_HANDLE"
    );
    assert_eq!(
        registry.playback_frames(walk, plain).unwrap_err().code(),
        "CSHARP_SPRITE_ATLAS_APPEARANCE"
    );
    assert_eq!(
        registry.playback_frames(walk, npc).unwrap_err().code(),
        "CSHARP_SPRITE_PLAYBACK_ATLAS"
    );
    let frames = registry.playback_frames(walk, hero).unwrap().clone();
    assert_eq!(
        SpritePlayback::create(
            vec![10, 12],
            vec![true, true],
            vec![],
            SpritePlaybackLoopMode::Loop,
            &frames
        )
        .unwrap_err()
        .code(),
        "CSHARP_SPRITE_PLAYBACK_FRAME"
    );
    assert!(SpritePlayback::create(
        vec![10, 11],
        vec![true, true],
        vec![],
        SpritePlaybackLoopMode::Loop,
        &frames
    )
    .is_ok());
    let playback = registry.insert_playback(hero, walk).unwrap();
    assert_eq!(
        registry.playback_owners(playback).unwrap(),
        SpritePlaybackOwners { appearance: hero, atlas: walk }
    );

    assert_eq!(
        registry.destroy_atlas(walk).unwrap_err().code(),
        "CSHARP_SPRITE_ATLAS_IN_USE"
    );
    assert_eq!(
        registry
            .destroy_appearance(hero, &HandleTable::new(), &animations)
            .unwrap_err()
            .code(),
        "CSHARP_SPRITE_PLAYBACK_APPEARANCE_IN_USE"
    );
    assert_eq!(
        registry.destroy_playback(playback),
        Some(SpritePlaybackOwners { appearance: hero, atlas: walk })
    );
    assert_eq!(registry.destroy_playback(playback), None);
    assert_eq!(
        registry.playback_owners(playback).unwrap_err().code(),
        "CSHARP_SPRITE_PLAYBACK_HANDLE"
    );
    assert_eq!(
        registry
            .destroy_appearance(hero, &shown(&[(4, npc), (5, hero)]), &animations)
            .unwrap_err()
            .code(),
        "CSHARP_APPEARANCE_IN_USE"
    );
    animations.create_instance(&selection, hero, Some(handles.glb), 7).unwrap();
    assert_eq!(
        registry
            .destroy_appearance(hero, &HandleTable::new(), &animations)
            .unwrap_err()
            .code(),
        "CSHARP_ANIMATION_APPEARANCE_IN_USE"
    );
    let animations = AnimationRegistry::new();
    assert_eq!(
        registry.destroy_appearance(hero, &HandleTable::new(), &animations).unwrap(),
        Some("appearance/native-1".to_string())
    );
    let released = registry.destroy_atlas(walk).unwrap();
    assert_eq!(released.asset, "sprite/atlas-1");
    assert_eq!(released.texture_asset, "texture/atlas-1");
    assert_eq!(released.frame_ids, vec![10, 11]);
    assert_eq!(
        registry.destroy_atlas(walk).unwrap_err().code(),
        "CSHARP_SPRITE_ATLAS_HANDLE"
    );
    assert_eq!(
        registry.destroy_atlas(idle).unwrap_err().code(),
        "CSHARP_SPRITE_ATLAS_IN_USE"
    );
}

#[test]
fn animated_appearances_close_clip_pack_association() {
    let (_, handles) = selection();
    let animations = AnimationRegistry::new();
    let mut registry = AppearanceRegistry::new();
    let (hero, _) = registry.allocate_appearance().unwrap();
    assert_eq!(registry.animated_resource(hero), None);
    assert!(check_association_open(&animations, &registry.animated_resources(), handles.glb).is_ok());
    registry.record_animated_appearance(hero, handles.glb);
    assert_eq!(registry.animated_resource(hero), Some(handles.glb));
    assert_eq!(registry.animated_resources(), vec![handles.glb]);
    assert_eq!(
        check_association_open(&animations, &registry.animated_resources(), handles.glb)
            .unwrap_err()
            .code(),
        "CSHARP_ANIMATION_CLIP_PACK_ASSOCIATION_CLOSED"
    );
    registry.destroy_appearance(hero, &HandleTable::new(), &animations).unwrap();
    assert_eq!(registry.animated_resource(hero), None);
    assert!(registry.animated_resources().is_empty());
}

#[test]
fn snapshots_retain_the_last_appearance_of_each_object() {
    let (selection, handles) = selection();
    let mut animations = AnimationRegistry::new();
    let mut registry = AppearanceRegistry::new();
    let (a, _) = registry.allocate_appearance().unwrap();
    let (b, _) = registry.allocate_appearance().unwrap();
    let facts = vec![
        SnapshotFact { object_id: 9, appearance: a },
        SnapshotFact { object_id: 3, appearance: b },
        SnapshotFact { object_id: 9, appearance: b },
    ];
    let plan = registry.plan_snapshot(&animations, &facts, &vec![3]).unwrap();
    assert_eq!(
        plan.identities,
        vec![
            "appearance/native-1".to_string(),
            "appearance/native-2".to_string(),
            "appearance/native-2".to_string(),
        ]
    );
    assert_eq!(plan.retained.len(), 2);
    assert_eq!(plan.retained.get(9), Some(&b));
    assert_eq!(plan.retained.get(3), Some(&b));
    assert_eq!(
        registry
            .plan_snapshot(&animations, &vec![SnapshotFact { object_id: 1, appearance: 7 }], &vec![])
            .unwrap_err()
            .code(),
        "CSHARP_APPEARANCE_HANDLE"
    );
    assert_eq!(
        registry.plan_snapshot(&animations, &facts, &vec![4]).unwrap_err().code(),
        "CSHARP_GHOST_PLATE_SNAPSHOT_ORDER"
    );
    assert_eq!(
        registry
            .destroy_appearance(b, &plan.retained, &animations)
            .unwrap_err()
            .code(),
        "CSHARP_APPEARANCE_IN_USE"
    );
    assert!(registry.destroy_appearance(a, &plan.retained, &animations).unwrap().is_some());

    let graph = animations
        .create_graph(&selection, handles.glb, "g".to_string(), 1, "idle".to_string())
        .unwrap();
    let instance = animations.create_instance(&selection, b, Some(handles.glb), 9).unwrap();
    let controller = animations.create_controller(&selection, graph, instance, 16, Ok(())).unwrap();
    let moved = vec![SnapshotFact { object_id: 3, appearance: b }];
    assert!(registry.plan_snapshot(&animations, &moved, &vec![]).is_ok(), "nothing was projected yet");
    animations.record_controller_projection(controller, 1, 1);
    assert_eq!(
        registry.plan_snapshot(&animations, &moved, &vec![]).unwrap_err().code(),
        "CSHARP_ANIMATION_SNAPSHOT_ORDER"
    );
    let kept = vec![SnapshotFact { object_id: 9, appearance: b }];
    assert!(registry.plan_snapshot(&animations, &kept, &vec![]).is_ok());
}

#[test]
fn material_lookups_name_the_service_that_asked() {
    let (selection, handles) = selection();
    let mut registry = AppearanceRegistry::new();
    let m = registry.insert_material();
    assert_eq!(registry.material_identity(m).unwrap(), "material/csharp-1");
    assert_eq!(registry.voxel_material_identity(m).unwrap(), "material/csharp-1");
    assert_eq!(
        registry.material_identity(5).unwrap_err().code(),
        "CSHARP_MATERIAL_HANDLE"
    );
    assert_eq!(
        registry.voxel_material_identity(5).unwrap_err().code(),
        "CSHARP_VOXEL_PRESENTATION_MATERIAL"
    );
    assert_eq!(
        selection.material_texture("texture/csharp-product-abc").unwrap(),
        handles.texture
    );
    assert_eq!(
        selection.material_texture("animated-mesh/hero").unwrap_err().code(),
        "CSHARP_MATERIAL_TEXTURE"
    );
    assert_eq!(
        selection.material_texture("texture/missing").unwrap_err().code(),
        "CSHARP_MATERIAL_TEXTURE"
    );
}
