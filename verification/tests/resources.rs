use csharp_engine_services::digest::{sha256, sha256_hex};
use csharp_engine_services::paths::{normalize_bundle_path, strip_content_prefix, with_content_prefix};
use csharp_engine_services::resource::{
    sha256_digest_of, CsharpRenderResource, CsharpRenderResourceKind, ImportedGlb,
};
use csharp_engine_services::selection::{
    glb_dependency_path, packed_mesh_path, GlbOpenOutcome, OpenResourceOutcome, RenderResourceInfoKind, ResourceSelection,
};
use csharp_engine_services::table::TextTable;
use csharp_engine_services::wav::wav_timing;
use csharp_engine_services::CsharpEngineServicesError;

fn font() -> Vec<u8> {
    let mut bytes = b"wOF2".to_vec();
    bytes.extend_from_slice(&[0; 12]);
    bytes
}

fn content(entries: &[(&str, Vec<u8>)]) -> TextTable<Vec<u8>> {
    let mut table = TextTable::new();
    for (path, bytes) in entries {
        table.insert(path.to_string(), bytes.clone());
    }
    table
}

#[test]
fn sha256_matches_known_vectors() {
    assert_eq!(
        sha256_hex(b"abc"),
        "ba7816bf8f01cfea414140de5dae2223b00361a396177a9cb410ff61f20015ad"
    );
    assert_eq!(
        sha256_hex(b""),
        "e3b0c44298fc1c149afbf4c8996fb92427ae41e4649b934ca495991b7852b855"
    );
    let words = sha256(b"");
    assert_eq!(words.word0, 0xe3b0c44298fc1c14);
    assert_eq!(words.word1, 0x9afbf4c8996fb924);
    assert_eq!(words.word2, 0x27ae41e4649b934c);
    assert_eq!(words.word3, 0xa495991b7852b855);
}

#[test]
fn bundle_paths_are_bounded_normalized_and_relative() {
    assert!(normalize_bundle_path("content/fonts/a-b_c.woff2").is_ok());
    for bad in [
        "",
        "/content/a.png",
        "content//a.png",
        "content/./a.png",
        "content/../a.png",
        "content/a.png/",
        "content/a b.png",
        "content/é.png",
    ] {
        assert_eq!(
            normalize_bundle_path(bad).unwrap_err().code(),
            "CSHARP_RENDER_RESOURCE_PATH",
            "{bad}"
        );
    }
    assert!(normalize_bundle_path("content/..a/.b").is_ok());
    assert!(normalize_bundle_path(&"a".repeat(512)).is_ok());
    assert!(normalize_bundle_path(&"a".repeat(513)).is_err());
    assert_eq!(strip_content_prefix("content/a.png"), "a.png");
    assert_eq!(strip_content_prefix("a.png"), "a.png");
    assert_eq!(strip_content_prefix("content/content/a.png"), "content/a.png");
    assert_eq!(with_content_prefix("a.png"), "content/a.png");
}

#[test]
fn fonts_and_audio_are_admitted_by_their_magic_and_path() {
    let font = CsharpRenderResource::admit_font("content/ui/a.woff2".to_string(), font()).unwrap();
    assert_eq!(font.kind(), CsharpRenderResourceKind::Font);
    let hex = sha256_hex(&font.bytes().to_vec());
    assert_eq!(font.identity(), format!("font/{hex}"));
    assert_eq!(font.content_hash(), format!("sha256:{hex}"));
    assert_eq!(
        CsharpRenderResource::admit_font("content/ui/a.ttf".to_string(), vec![0; 16])
            .unwrap_err()
            .code(),
        "CSHARP_RENDER_RESOURCE_PATH"
    );
    assert!(CsharpRenderResource::admit_font("content/ui/a.woff2".to_string(), vec![0; 16]).is_err());
    assert!(CsharpRenderResource::admit_audio("content/a.wav".to_string(), vec![0; 48]).is_err());
}

#[test]
fn wav_timing_reads_byte_rate_and_data_size() {
    let mut bytes = vec![0_u8; 48];
    bytes[..4].copy_from_slice(b"RIFF");
    bytes[8..12].copy_from_slice(b"WAVE");
    bytes[12..16].copy_from_slice(b"fmt ");
    bytes[16..20].copy_from_slice(&16_u32.to_le_bytes());
    bytes[28..32].copy_from_slice(&8000_u32.to_le_bytes());
    bytes[36..40].copy_from_slice(b"data");
    bytes[40..44].copy_from_slice(&4_u32.to_le_bytes());
    let timing = wav_timing(&bytes).expect("timing");
    assert_eq!(timing.byte_rate, 8000);
    assert_eq!(timing.data_bytes, 4);
    let mut overrun = bytes.clone();
    overrun[40..44].copy_from_slice(&4000_u32.to_le_bytes());
    assert!(wav_timing(&overrun).is_none());
    assert!(wav_timing(b"RIFF").is_none());
    let mut no_rate = bytes.clone();
    no_rate[28..32].copy_from_slice(&0_u32.to_le_bytes());
    assert!(wav_timing(&no_rate).is_none());
}

#[test]
fn selection_deduplicates_aliases_and_closes_after_sealing() {
    let mut selection = ResourceSelection::new(content(&[
        ("ui/a.woff2", font()),
        ("ui/b.woff2", font()),
        ("img/a.png", vec![1, 2, 3]),
        ("doc/readme.txt", vec![1]),
    ]));
    let first = match selection.open_resource("ui/a.woff2").unwrap() {
        OpenResourceOutcome::Selected(info) => info,
        _ => panic!("font is selected"),
    };
    assert_eq!(first.handle, 1);
    assert_eq!(first.kind, RenderResourceInfoKind::Font);
    assert_eq!(first.byte_length, 16);
    let alias = match selection.open_resource("content/ui/a.woff2").unwrap() {
        OpenResourceOutcome::Selected(info) => info,
        _ => panic!("alias resolves"),
    };
    assert_eq!(alias.handle, 1);
    let same_body = match selection.open_resource("ui/b.woff2").unwrap() {
        OpenResourceOutcome::Selected(info) => info,
        _ => panic!("same identity"),
    };
    assert_eq!(same_body.handle, 1, "one identity is selected once");
    assert_eq!(selection.len(), 1);
    match selection.open_resource("img/a.png").unwrap() {
        OpenResourceOutcome::NeedsAdmission {
            kind,
            browser_path,
            relative_path,
            bytes,
            ..
        } => {
            assert_eq!(kind, CsharpRenderResourceKind::Texture);
            assert_eq!(browser_path, "content/img/a.png");
            assert_eq!(relative_path, "img/a.png");
            assert_eq!(bytes, vec![1, 2, 3]);
        }
        _ => panic!("PNG needs media admission"),
    }
    assert_eq!(
        selection.open_resource("doc/readme.txt").unwrap_err().code(),
        "CSHARP_RENDER_RESOURCE_KIND"
    );
    assert_eq!(
        selection.open_resource("missing.woff2").unwrap_err().code(),
        "CSHARP_RENDER_RESOURCE_UNKNOWN"
    );
    selection.seal();
    assert!(matches!(
        selection.open_resource("ui/a.woff2").unwrap(),
        OpenResourceOutcome::Selected(info) if info.handle == 1
    ));
    assert_eq!(
        selection.open_resource("img/a.png").unwrap_err().code(),
        "CSHARP_RENDER_RESOURCE_SELECTION_CLOSED"
    );
    assert_eq!(
        selection.resource(0).unwrap().identity(),
        selection.resource(1).unwrap().identity()
    );
    assert_eq!(
        selection.resource(2).unwrap_err().code(),
        "CSHARP_RENDER_RESOURCE_HANDLE"
    );
}

#[test]
fn glb_dependencies_resolve_next_to_their_glb() {
    assert_eq!(glb_dependency_path("models/hero.glb", "hero.bin"), "models/hero.bin");
    assert_eq!(glb_dependency_path("a/b/c.glb", "tex/x.png"), "a/b/tex/x.png");
    assert_eq!(glb_dependency_path("hero.glb", "hero.bin"), "hero.bin");
    assert_eq!(glb_dependency_path("/hero.glb", "hero.bin"), "hero.bin");
    let mut content = TextTable::new();
    content.insert("models/hero.glb".to_string(), b"glTF hero".to_vec());
    content.insert("models/hero.bin".to_string(), vec![9, 9]);
    let selection = ResourceSelection::new(content);
    assert_eq!(
        selection
            .glb_dependencies("models/hero.glb", &vec!["hero.bin".to_string()])
            .unwrap(),
        vec![vec![9, 9]]
    );
    assert!(selection.glb_dependencies("models/hero.glb", &vec![]).unwrap().is_empty());
    assert_eq!(
        selection
            .glb_dependencies("models/hero.glb", &vec!["hero.bin".to_string(), "skin.png".to_string()])
            .unwrap_err()
            .code(),
        "CSHARP_ANIMATION_GLB_CLOSURE"
    );
}

#[test]
fn glbs_open_once_under_every_alias() {
    let mut content = TextTable::new();
    content.insert("models/hero.glb".to_string(), b"glTF hero".to_vec());
    let mut selection = ResourceSelection::new(content);
    let (browser, relative, requested, bytes) = match selection
        .open_glb("content/models/hero.glb", false)
        .unwrap()
    {
        GlbOpenOutcome::NeedsAdmission {
            browser_path,
            relative_path,
            requested_path,
            bytes,
        } => (browser_path, relative_path, requested_path, bytes),
        GlbOpenOutcome::Selected(_) => panic!("nothing was selected yet"),
    };
    assert_eq!(browser, "content/models/hero.glb");
    assert_eq!(relative, "models/hero.glb");
    assert_eq!(requested, "content/models/hero.glb");
    assert_eq!(bytes, b"glTF hero".to_vec());
    assert_eq!(
        selection.open_glb("models/villain.glb", false).unwrap_err().code(),
        "CSHARP_ANIMATION_RESOURCE_UNKNOWN"
    );
    assert_eq!(
        selection.open_glb("models/villain.glb", true).unwrap_err().code(),
        "CSHARP_ANIMATION_CLIP_PACK_RESOURCE_UNKNOWN"
    );
    let imported = ImportedGlb {
        runtime_resource_bytes: bytes.clone(),
        asset: "animated-mesh/hero".to_string(),
        content_hash: Some(format!("sha256:{}", sha256_hex(&bytes))),
        clip_count: 1,
    };
    let glb = CsharpRenderResource::admit_animated_mesh(browser.clone(), bytes, Ok(imported)).unwrap();
    let handle = selection
        .stage_resource(glb, vec![browser, relative, requested])
        .unwrap();
    assert!(matches!(
        selection.open_glb("models/hero.glb", false).unwrap(),
        GlbOpenOutcome::Selected(h) if h == handle
    ));
    assert_eq!(
        selection.open_glb("content/models/hero.glb", true).unwrap_err().code(),
        "CSHARP_ANIMATION_CLIP_PACK_RESOURCE_KIND"
    );
    selection.seal();
    assert!(matches!(
        selection.open_glb("content/models/hero.glb", false).unwrap(),
        GlbOpenOutcome::Selected(h) if h == handle
    ));
    assert_eq!(
        selection.open_glb("models/other.glb", false).unwrap_err().code(),
        "CSHARP_ANIMATION_RESOURCE_SELECTION_CLOSED"
    );
}

#[test]
fn presentations_reference_textures_and_fonts_by_kind() {
    let mut selection = ResourceSelection::new(TextTable::new());
    let texture = CsharpRenderResource::admitted(
        CsharpRenderResourceKind::Texture,
        "texture-resource/abc".to_string(),
        "texture/csharp-product-abc".to_string(),
        "sha256:abc".to_string(),
        "content/icon.png".to_string(),
        vec![1, 2, 3],
    )
    .unwrap();
    let texture = selection
        .stage_resource(texture, vec!["content/icon.png".to_string()])
        .unwrap();
    let font_resource = CsharpRenderResource::admit_font("content/ui.woff2".to_string(), font()).unwrap();
    let font_identity = font_resource.identity().to_string();
    let font_hash = font_resource.content_hash().to_string();
    let font = selection
        .stage_resource(font_resource, vec!["content/ui.woff2".to_string()])
        .unwrap();
    assert_eq!(
        selection.presentation_texture(texture).unwrap(),
        ("texture/csharp-product-abc".to_string(), "sha256:abc".to_string())
    );
    assert_eq!(
        selection.presentation_texture(font).unwrap_err().code(),
        "CSHARP_PRESENTATION_TEXTURE"
    );
    assert_eq!(
        selection.presentation_texture(7).unwrap_err().code(),
        "CSHARP_RENDER_RESOURCE_HANDLE"
    );
    assert_eq!(selection.presentation_font(font).unwrap(), (font_identity, font_hash));
    assert_eq!(
        selection.presentation_font(texture).unwrap_err().code(),
        "CSHARP_PRESENTATION_FONT"
    );
}

#[test]
fn static_mesh_documents_are_read_before_sealing_and_packed_by_digest() {
    let mut selection = ResourceSelection::new(content(&[("meshes/crate.json", b"{}".to_vec())]));
    assert_eq!(
        selection.static_mesh_document("content/meshes/crate.json").unwrap(),
        &b"{}".to_vec()
    );
    assert_eq!(selection.static_mesh_document("meshes/crate.json").unwrap(), &b"{}".to_vec());
    assert_eq!(
        selection.static_mesh_document("meshes/barrel.json").unwrap_err().code(),
        "CSHARP_STATIC_MESH_CONTENT_UNKNOWN"
    );
    assert_eq!(
        packed_mesh_path("sha256:0a1b").unwrap(),
        "content/engine-mesh/0a1b.rmesh"
    );
    assert_eq!(
        packed_mesh_path("md5:0a1b").unwrap_err().code(),
        "CSHARP_STATIC_MESH_PACK"
    );
    assert_eq!(sha256_digest_of("sha256:"), Some(String::new()));
    assert_eq!(sha256_digest_of("sha25"), None);
    selection.seal();
    assert_eq!(
        selection.static_mesh_document("meshes/crate.json").unwrap_err().code(),
        "CSHARP_RENDER_RESOURCE_SELECTION_CLOSED"
    );
}

#[test]
fn errors_render_as_code_and_detail() {
    let error = CsharpEngineServicesError::new("CSHARP_RENDER_RESOURCE_PATH", "bad path".to_string());
    assert_eq!(error.code(), "CSHARP_RENDER_RESOURCE_PATH");
    assert_eq!(error.detail(), "bad path");
    assert_eq!(error.message(), "CSHARP_RENDER_RESOURCE_PATH: bad path");
    let refused = CsharpRenderResource::admit_audio("content/a.aac".to_string(), vec![0; 48]).unwrap_err();
    assert_eq!(
        refused.message(),
        format!("CSHARP_AUDIO_RESOURCE_CONTAINER: {}", refused.detail())
    );
}
