use csharp_engine_services::animation_graph::AnimationRegistry;
use csharp_engine_services::digest::sha256_hex;
use csharp_engine_services::mesh::{
    bind_mesh_materials, check_association_open, clip_pack_association_asset,
    plan_static_mesh, MeshAttribute, MeshAttributeName, MeshGroup, MeshResourceEncoding,
    NativeMaterialBinding, NativeMeshGroup,
};
use csharp_engine_services::resource::{
    CsharpRenderResource, CsharpRenderResourceKind, ImportedGlb,
};
use csharp_engine_services::selection::ResourceSelection;
use csharp_engine_services::table::{HandleTable, TextTable};
use csharp_engine_services::text::append_decimal;

fn decimal(n: u64) -> String {
    let mut s = String::from("#");
    append_decimal(&mut s, n);
    s
}

fn mesh_selection() -> (ResourceSelection, u64, u64) {
    let mut selection = ResourceSelection::new(TextTable::new());
    let mesh = CsharpRenderResource::admitted(
        CsharpRenderResourceKind::Mesh,
        "mesh-resource/abc".to_string(),
        "mesh-resource/abc".to_string(),
        "sha256:abc".to_string(),
        "content/cube.rmesh".to_string(),
        vec![7; 96],
    )
    .unwrap();
    let mesh_handle = selection
        .stage_resource(mesh, vec!["content/cube.rmesh".to_string()])
        .unwrap();
    let font = CsharpRenderResource::admit_font(
        "content/ui.woff2".to_string(),
        b"wOF2\0\0\0\0".to_vec(),
    )
    .unwrap();
    let font_handle = selection
        .stage_resource(font, vec!["content/ui.woff2".to_string()])
        .unwrap();
    (selection, mesh_handle, font_handle)
}

fn group(material_slot: u32, start: u32, count: u32) -> NativeMeshGroup {
    NativeMeshGroup { material_slot, start, count }
}

fn imported(bytes: &[u8], clip_count: usize) -> ImportedGlb {
    ImportedGlb {
        runtime_resource_bytes: bytes.to_vec(),
        asset: "animated-mesh/hero".to_string(),
        content_hash: Some(format!("sha256:{}", sha256_hex(bytes))),
        clip_count,
    }
}

#[test]
fn decimal_text_has_no_leading_zeros() {
    assert_eq!(decimal(0), "#0");
    assert_eq!(decimal(7), "#7");
    assert_eq!(decimal(10), "#10");
    assert_eq!(decimal(1_234_567_890), "#1234567890");
    assert_eq!(decimal(u64::MAX), "#18446744073709551615");
}

#[test]
fn static_mesh_plan_names_each_distinct_slot_once_in_order() {
    let (selection, mesh, _) = mesh_selection();
    let groups = vec![group(2, 0, 6), group(0, 6, 3), group(2, 9, 3)];
    let plan = plan_static_mesh(&selection, mesh, 5, &groups, 2, 48, 0).unwrap();
    assert_eq!(plan.mesh_id, "mesh/native-5");
    assert_eq!(
        plan.groups,
        vec![
            MeshGroup { material_slot: 2, start: 0, count: 6 },
            MeshGroup { material_slot: 0, start: 6, count: 3 },
            MeshGroup { material_slot: 2, start: 9, count: 3 },
        ]
    );
    let slots: Vec<(u16, String)> = plan
        .material_slots
        .iter()
        .map(|s| (s.slot, s.material.clone()))
        .collect();
    assert_eq!(
        slots,
        vec![
            (0, "material/native-5-0".to_string()),
            (2, "material/native-5-2".to_string()),
        ]
    );
    assert_eq!(
        plan.attributes,
        vec![
            MeshAttribute { name: MeshAttributeName::Position, components: 3 },
            MeshAttribute { name: MeshAttributeName::Normal, components: 3 },
            MeshAttribute { name: MeshAttributeName::Uv, components: 2 },
        ]
    );
    assert_eq!(plan.encoding, MeshResourceEncoding::PackedStreamsLeV2);
    assert_eq!(plan.resource, "mesh-resource/abc");
    assert_eq!(plan.content_hash, "sha256:abc");
    assert_eq!(plan.byte_length, 96);
    assert_eq!(plan.uvs_byte_offset, Some(48));
    assert_eq!(plan.colors_byte_offset, None);

    let colored = plan_static_mesh(&selection, mesh, 12, &Vec::new(), 3, 0, 64).unwrap();
    assert!(colored.material_slots.is_empty());
    assert_eq!(colored.mesh_id, "mesh/native-12");
    assert_eq!(colored.attributes.len(), 3);
    assert_eq!(colored.attributes[2].name, MeshAttributeName::Color);
    assert_eq!(colored.attributes[2].components, 4);
    assert_eq!(colored.encoding, MeshResourceEncoding::PackedStreamsLeV3);
}

#[test]
fn static_mesh_plan_refusals_follow_the_request_order() {
    let (selection, mesh, font) = mesh_selection();
    let code = |resource: u64, groups: Vec<NativeMeshGroup>, encoding: u32| {
        plan_static_mesh(&selection, resource, 1, &groups, encoding, 0, 0)
            .unwrap_err()
            .code()
    };
    assert_eq!(code(9, vec![], 1), "CSHARP_RENDER_RESOURCE_HANDLE");
    assert_eq!(code(font, vec![], 1), "CSHARP_STATIC_MESH_RESOURCE");
    assert_eq!(code(mesh, vec![group(70_000, 0, 3)], 9), "CSHARP_STATIC_MESH_SLOT");
    assert_eq!(code(mesh, vec![group(65_535, 0, 3)], 0), "CSHARP_STATIC_MESH_ENCODING");
    assert_eq!(code(mesh, vec![], 4), "CSHARP_STATIC_MESH_ENCODING");
    assert!(plan_static_mesh(&selection, mesh, 1, &vec![group(65_535, 0, 3)], 1, 0, 0).is_ok());
}

fn materials() -> HandleTable<String> {
    let mut table = HandleTable::new();
    table.insert_new(1, "material/brick".to_string());
    table.insert_new(2, "material/glass".to_string());
    table
}

fn binding(material_slot: u32, material: u64) -> NativeMaterialBinding {
    NativeMaterialBinding { material_slot, material }
}

#[test]
fn static_mesh_materials_keep_request_order_and_distinct_handles() {
    let table = materials();
    let bound = bind_mesh_materials(
        &vec![binding(3, 2), binding(1, 1), binding(0, 2)],
        None,
        &table,
    )
    .unwrap();
    let overrides: Vec<(u16, String)> = bound
        .overrides
        .iter()
        .map(|s| (s.slot, s.material.clone()))
        .collect();
    assert_eq!(
        overrides,
        vec![
            (3, "material/glass".to_string()),
            (1, "material/brick".to_string()),
            (0, "material/glass".to_string()),
        ]
    );
    assert_eq!(bound.material_handles, vec![1, 2]);
    let empty = bind_mesh_materials(&Vec::new(), None, &table).unwrap();
    assert!(empty.overrides.is_empty() && empty.material_handles.is_empty());
}

#[test]
fn mesh_material_bindings_refuse_the_first_bad_binding() {
    let table = materials();
    let code = |bindings: Vec<NativeMaterialBinding>, embedded: Option<&Vec<u16>>| {
        bind_mesh_materials(&bindings, embedded, &table)
            .unwrap_err()
            .code()
    };
    assert_eq!(code(vec![binding(1, 1), binding(1, 2)], None), "CSHARP_STATIC_MESH_SLOT");
    assert_eq!(code(vec![binding(65_536, 1)], None), "CSHARP_STATIC_MESH_SLOT");
    assert_eq!(code(vec![binding(0, 9)], None), "CSHARP_MATERIAL_HANDLE");
    assert_eq!(
        code(vec![binding(0, 9), binding(0, 1)], None),
        "CSHARP_MATERIAL_HANDLE",
        "the dead material comes before the repeated slot"
    );
    let embedded = vec![0u16, 1];
    assert_eq!(code(vec![binding(2, 1)], Some(&embedded)), "CSHARP_ANIMATED_MESH_SLOT");
    assert_eq!(
        code(vec![binding(1, 1), binding(1, 1)], Some(&embedded)),
        "CSHARP_ANIMATED_MESH_SLOT"
    );
    let animated = bind_mesh_materials(&vec![binding(1, 2)], Some(&embedded), &table).unwrap();
    assert_eq!(animated.overrides[0].slot, 1);
    assert_eq!(animated.overrides[0].material, "material/glass");
    assert_eq!(animated.material_handles, vec![2]);
}

#[test]
fn animated_glb_admission_requires_an_unchanged_hashed_import() {
    let bytes = b"glTF animated body".to_vec();
    let glb = CsharpRenderResource::admit_animated_mesh(
        "content/hero.glb".to_string(),
        bytes.clone(),
        Ok(imported(&bytes, 0)),
    )
    .unwrap();
    let digest = sha256_hex(&bytes);
    assert_eq!(glb.kind(), CsharpRenderResourceKind::AnimatedMesh);
    assert_eq!(glb.identity(), format!("animated-mesh-resource/{digest}"));
    assert_eq!(glb.asset_identity(), "animated-mesh/hero");
    assert_eq!(glb.content_hash(), format!("sha256:{digest}"));
    assert_eq!(glb.path(), "content/hero.glb");

    let code = |path: &str, report: Result<ImportedGlb, String>| {
        CsharpRenderResource::admit_animated_mesh(path.to_string(), bytes.clone(), report)
            .unwrap_err()
            .code()
    };
    assert_eq!(code("content/hero.png", Ok(imported(&bytes, 0))), "CSHARP_RENDER_RESOURCE_PATH");
    assert_eq!(code("hero.glb", Ok(imported(&bytes, 0))), "CSHARP_RENDER_RESOURCE_PATH");
    assert_eq!(
        code("content/hero.glb", Ok(imported(b"other body", 0))),
        "CSHARP_ANIMATION_GLB_ADMISSION"
    );
    let mut unhashed = imported(&bytes, 0);
    unhashed.content_hash = None;
    assert_eq!(code("content/hero.glb", Ok(unhashed)), "CSHARP_ANIMATION_GLB_ADMISSION");
    let mut misnamed = imported(&bytes, 0);
    misnamed.content_hash = Some("sha256:00".to_string());
    assert_eq!(code("content/hero.glb", Ok(misnamed)), "CSHARP_ANIMATION_GLB_ADMISSION");
    let refused = CsharpRenderResource::admit_animated_mesh(
        "content/hero.glb".to_string(),
        bytes.clone(),
        Err("skin has no joints".to_string()),
    )
    .unwrap_err();
    assert_eq!(refused.code(), "CSHARP_ANIMATION_GLB_ADMISSION");
    assert_eq!(refused.detail(), "skin has no joints");
    let silent = CsharpRenderResource::admit_animated_mesh(
        "content/hero.glb".to_string(),
        bytes.clone(),
        Err(String::new()),
    )
    .unwrap_err();
    assert_eq!(silent.detail(), "animated GLB admission produced no asset");
}

#[test]
fn clip_pack_admission_requires_clips() {
    let bytes = b"glTF clip pack".to_vec();
    let pack = CsharpRenderResource::admit_animation_clip_pack(
        "content/clips/run.glb".to_string(),
        bytes.clone(),
        Ok(imported(&bytes, 2)),
    )
    .unwrap();
    let digest = sha256_hex(&bytes);
    assert_eq!(pack.kind(), CsharpRenderResourceKind::AnimationClipPack);
    assert_eq!(pack.identity(), format!("clip-pack-resource/{digest}"));
    assert_eq!(pack.asset_identity(), pack.identity());
    assert_eq!(
        CsharpRenderResource::admit_animation_clip_pack(
            "content/clips/run.glb".to_string(),
            bytes.clone(),
            Ok(imported(&bytes, 0)),
        )
        .unwrap_err()
        .code(),
        "CSHARP_ANIMATION_CLIP_PACK_ADMISSION"
    );
    assert_eq!(
        CsharpRenderResource::admit_animation_clip_pack(
            "content/clips/../run.glb".to_string(),
            bytes.clone(),
            Ok(imported(&bytes, 2)),
        )
        .unwrap_err()
        .code(),
        "CSHARP_RENDER_RESOURCE_PATH"
    );
}

fn association_selection() -> (ResourceSelection, u64, u64, u64) {
    let mut selection = ResourceSelection::new(TextTable::new());
    let hero = b"glTF hero".to_vec();
    let glb = CsharpRenderResource::admit_animated_mesh(
        "content/hero.glb".to_string(),
        hero.clone(),
        Ok(imported(&hero, 1)),
    )
    .unwrap();
    let glb_handle = selection
        .stage_resource(glb, vec!["content/hero.glb".to_string()])
        .unwrap();
    let run = b"glTF run clips".to_vec();
    let pack = CsharpRenderResource::admit_animation_clip_pack(
        "content/run.glb".to_string(),
        run.clone(),
        Ok(imported(&run, 1)),
    )
    .unwrap();
    let pack_handle = selection
        .stage_resource(pack, vec!["content/run.glb".to_string()])
        .unwrap();
    let font = CsharpRenderResource::admit_font(
        "content/ui.woff2".to_string(),
        b"wOF2\0\0\0\0".to_vec(),
    )
    .unwrap();
    let font_handle = selection
        .stage_resource(font, vec!["content/ui.woff2".to_string()])
        .unwrap();
    (selection, glb_handle, pack_handle, font_handle)
}

#[test]
fn clip_pack_association_names_the_pack_after_its_digest() {
    let (selection, glb, pack, font) = association_selection();
    let asset = clip_pack_association_asset(&selection, glb, pack).unwrap();
    assert_eq!(
        asset,
        format!("animation-clip-pack/{}", sha256_hex(b"glTF run clips"))
    );
    let code = |primary: u64, pack: u64| {
        clip_pack_association_asset(&selection, primary, pack)
            .unwrap_err()
            .code()
    };
    assert_eq!(code(9, pack), "CSHARP_RENDER_RESOURCE_HANDLE");
    assert_eq!(code(pack, pack), "CSHARP_ANIMATION_CLIP_PACK_PRIMARY");
    assert_eq!(code(glb, 9), "CSHARP_RENDER_RESOURCE_HANDLE");
    assert_eq!(code(glb, font), "CSHARP_ANIMATION_CLIP_PACK_RESOURCE_KIND");
    assert_eq!(code(glb, glb), "CSHARP_ANIMATION_CLIP_PACK_RESOURCE_KIND");
}

#[test]
fn clip_packs_associate_only_before_the_primary_is_used() {
    let (selection, glb, _, _) = association_selection();
    let mut registry = AnimationRegistry::new();
    assert!(check_association_open(&registry, &vec![], glb).is_ok());
    assert!(check_association_open(&registry, &vec![glb + 5], glb).is_ok());
    assert_eq!(
        check_association_open(&registry, &vec![4, glb], glb)
            .unwrap_err()
            .code(),
        "CSHARP_ANIMATION_CLIP_PACK_ASSOCIATION_CLOSED"
    );
    registry
        .create_graph(&selection, glb, "locomotion".to_string(), 1, "idle".to_string())
        .unwrap();
    assert!(registry.graph_over(glb));
    assert!(!registry.graph_over(glb + 1));
    assert_eq!(
        check_association_open(&registry, &vec![], glb)
            .unwrap_err()
            .code(),
        "CSHARP_ANIMATION_CLIP_PACK_ASSOCIATION_CLOSED"
    );
}
