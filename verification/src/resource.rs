use crate::digest::{content_hash_text, digest_hex, sha256_hex};
use crate::error::CsharpEngineServicesError;
use crate::paths::{
    admit_bundle_resource, bytes_have_suffix, bytes_of, has_suffix, renderer_path,
    valid_bundle_path, valid_renderer_path, MAX_RENDER_RESOURCE_BYTES,
};
use vstd::prelude::*;
use vstd::string::StringExecFns;

verus! {

/// The kind of an immutable renderer resource.
#[derive(Debug, Clone, Copy, PartialEq, Eq, Structural)]
pub enum CsharpRenderResourceKind {
    Texture,
    Mesh,
    Font,
    Audio,
    AnimatedMesh,
    AnimationClipPack,
}

/// Immutable renderer content selected through the Engine appearance and
/// audio services.
#[derive(Debug)]
pub struct CsharpRenderResource {
    kind: CsharpRenderResourceKind,
    identity: String,
    asset_identity: String,
    content_hash: String,
    path: String,
    bytes: Vec<u8>,
}

/// The abstract value of a renderer resource.
pub struct RenderResourceView {
    pub kind: CsharpRenderResourceKind,
    pub identity: Seq<char>,
    pub asset_identity: Seq<char>,
    pub content_hash: Seq<char>,
    pub path: Seq<char>,
    pub bytes: Seq<u8>,
}

impl View for CsharpRenderResource {
    type V = RenderResourceView;

    closed spec fn view(&self) -> RenderResourceView {
        RenderResourceView {
            kind: self.kind,
            identity: self.identity@,
            asset_identity: self.asset_identity@,
            content_hash: self.content_hash@,
            path: self.path@,
            bytes: self.bytes@,
        }
    }
}

/// The characters of the `sha256:` prefix of a content hash.
pub open spec fn sha256_prefix_chars() -> Seq<char> {
    seq!['s', 'h', 'a', '2', '5', '6', ':']
}

/// Whether a content hash names its digest with the `sha256:` prefix.
pub open spec fn has_sha256_prefix(h: Seq<char>) -> bool {
    h.len() >= 7 && h.subrange(0, 7) == sha256_prefix_chars()
}

/// The bytes `wOF2` open the body.
pub open spec fn has_woff2_magic(b: Seq<u8>) -> bool {
    b.len() >= 4 && b[0] == 119 && b[1] == 79 && b[2] == 70 && b[3] == 50
}

/// The body opens with `RIFF`, and bytes 8 to 12 read `WAVE`.
pub open spec fn has_riff_wave_magic(b: Seq<u8>) -> bool {
    &&& b.len() >= 12
    &&& b[0] == 82 && b[1] == 73 && b[2] == 70 && b[3] == 70
    &&& b[8] == 87 && b[9] == 65 && b[10] == 86 && b[11] == 69
}

/// The conditions under which a font body is admitted at `path`.
pub open spec fn font_admissible(path: Seq<char>, bytes: Seq<u8>) -> bool {
    &&& valid_renderer_path(bytes_of(path), bytes_of(".woff2"@))
    &&& has_woff2_magic(bytes)
    &&& bytes.len() <= MAX_RENDER_RESOURCE_BYTES
}

/// The error code under which an unadmissible font body is refused.
pub open spec fn font_refusal_code(path: Seq<char>, bytes: Seq<u8>) -> Seq<char> {
    if !valid_renderer_path(bytes_of(path), bytes_of(".woff2"@)) {
        "CSHARP_RENDER_RESOURCE_PATH"@
    } else if !has_woff2_magic(bytes) {
        "CSHARP_RENDER_RESOURCE_FONT"@
    } else {
        "CSHARP_RENDER_RESOURCE_SIZE"@
    }
}

/// The audio container families the Engine admits, named by the path's
/// extension.
#[derive(Debug, Clone, Copy, PartialEq, Eq, Structural)]
pub enum AudioContainer {
    Wav,
    Ogg,
    Opus,
    Mp3,
    Flac,
}

/// The extension that names a container family.
pub open spec fn container_extension(c: AudioContainer) -> Seq<char> {
    match c {
        AudioContainer::Wav => ".wav"@,
        AudioContainer::Ogg => ".ogg"@,
        AudioContainer::Opus => ".opus"@,
        AudioContainer::Mp3 => ".mp3"@,
        AudioContainer::Flac => ".flac"@,
    }
}

/// The container family a path's extension names, if any.
pub open spec fn audio_container_of(path: Seq<char>) -> Option<AudioContainer> {
    let b = bytes_of(path);
    if has_suffix(b, bytes_of(".wav"@)) {
        Some(AudioContainer::Wav)
    } else if has_suffix(b, bytes_of(".ogg"@)) {
        Some(AudioContainer::Ogg)
    } else if has_suffix(b, bytes_of(".opus"@)) {
        Some(AudioContainer::Opus)
    } else if has_suffix(b, bytes_of(".mp3"@)) {
        Some(AudioContainer::Mp3)
    } else if has_suffix(b, bytes_of(".flac"@)) {
        Some(AudioContainer::Flac)
    } else {
        None
    }
}

/// A WAV body carries a full RIFF/WAVE header; the other families are
/// taken as their encoded bytes.
pub open spec fn container_body_ok(c: AudioContainer, bytes: Seq<u8>) -> bool {
    c == AudioContainer::Wav ==> bytes.len() >= 44 && has_riff_wave_magic(bytes)
}

/// The conditions under which an audio body is admitted at `path`: a known
/// container family, its `content/` path, a WAV header for WAV bodies, and
/// the renderer size bound.
pub open spec fn audio_admissible(path: Seq<char>, bytes: Seq<u8>) -> bool {
    &&& audio_container_of(path) is Some
    &&& valid_renderer_path(
        bytes_of(path),
        bytes_of(container_extension(audio_container_of(path)->0)),
    )
    &&& container_body_ok(audio_container_of(path)->0, bytes)
    &&& bytes.len() <= MAX_RENDER_RESOURCE_BYTES
}

/// The error code under which an unadmissible audio body is refused.
pub open spec fn audio_refusal_code(path: Seq<char>, bytes: Seq<u8>) -> Seq<char> {
    if audio_container_of(path) is None {
        "CSHARP_AUDIO_RESOURCE_CONTAINER"@
    } else if !valid_renderer_path(
        bytes_of(path),
        bytes_of(container_extension(audio_container_of(path)->0)),
    ) {
        "CSHARP_RENDER_RESOURCE_PATH"@
    } else if !container_body_ok(audio_container_of(path)->0, bytes) {
        "CSHARP_AUDIO_RESOURCE_WAV"@
    } else {
        "CSHARP_RENDER_RESOURCE_SIZE"@
    }
}

/// The container family a path's extension names.
pub fn audio_container(path: &str) -> (c: Option<AudioContainer>)
    ensures
        c == audio_container_of(path@),
{
    let b = path.as_bytes();
    if bytes_have_suffix(b, ".wav".as_bytes()) {
        Some(AudioContainer::Wav)
    } else if bytes_have_suffix(b, ".ogg".as_bytes()) {
        Some(AudioContainer::Ogg)
    } else if bytes_have_suffix(b, ".opus".as_bytes()) {
        Some(AudioContainer::Opus)
    } else if bytes_have_suffix(b, ".mp3".as_bytes()) {
        Some(AudioContainer::Mp3)
    } else if bytes_have_suffix(b, ".flac".as_bytes()) {
        Some(AudioContainer::Flac)
    } else {
        None
    }
}

fn extension_text(c: AudioContainer) -> (s: &'static str)
    ensures
        s@ == container_extension(c),
{
    match c {
        AudioContainer::Wav => ".wav",
        AudioContainer::Ogg => ".ogg",
        AudioContainer::Opus => ".opus",
        AudioContainer::Mp3 => ".mp3",
        AudioContainer::Flac => ".flac",
    }
}

fn woff2_magic(b: &[u8]) -> (r: bool)
    ensures
        r == has_woff2_magic(b@),
{
    b.len() >= 4 && b[0] == 119 && b[1] == 79 && b[2] == 70 && b[3] == 50
}

/// Whether a body carries the RIFF/WAVE header words.
pub fn riff_wave_magic(b: &[u8]) -> (r: bool)
    ensures
        r == has_riff_wave_magic(b@),
{
    b.len() >= 12 && b[0] == 82 && b[1] == 73 && b[2] == 70 && b[3] == 70 && b[8] == 87 && b[9]
        == 65 && b[10] == 86 && b[11] == 69
}

/// The digest text of a `sha256:` content hash, without its prefix; `None`
/// for a hash without the prefix.
pub fn sha256_digest_of(hash: &str) -> (r: Option<String>)
    ensures
        r is Some <==> has_sha256_prefix(hash@),
        r matches Some(d) ==> d@ == hash@.subrange(7, hash@.len() as int),
{
    let n = hash.unicode_len();
    if n >= 7 && hash.get_char(0) == 's' && hash.get_char(1) == 'h' && hash.get_char(2) == 'a'
        && hash.get_char(3) == '2' && hash.get_char(4) == '5' && hash.get_char(5) == '6'
        && hash.get_char(6) == ':' {
        assert(hash@.subrange(0, 7) =~= sha256_prefix_chars());
        Some(hash.substring_char(7, n).to_owned())
    } else {
        proof {
            if n >= 7 && hash@.subrange(0, 7) == sha256_prefix_chars() {
                assert(hash@.subrange(0, 7)[0] == 's');
                assert(hash@.subrange(0, 7)[1] == 'h');
                assert(hash@.subrange(0, 7)[2] == 'a');
                assert(hash@.subrange(0, 7)[3] == '2');
                assert(hash@.subrange(0, 7)[4] == '5');
                assert(hash@.subrange(0, 7)[5] == '6');
                assert(hash@.subrange(0, 7)[6] == ':');
            }
        }
        None
    }
}

/// Every `sha256:`-prefixed content hash text carries the prefix.
proof fn lemma_content_hash_prefixed(bytes: Seq<u8>)
    ensures
        has_sha256_prefix(content_hash_text(bytes)),
{
    reveal_strlit("sha256:");
    assert(content_hash_text(bytes).subrange(0, 7) =~= sha256_prefix_chars());
}

/// What the animated GLB importer reported for a body: the runtime bytes
/// it retained, the renderer asset its descriptor names, the content hash
/// its descriptor records, and how many animation clips it carries.
#[derive(Debug)]
pub struct ImportedGlb {
    pub runtime_resource_bytes: Vec<u8>,
    pub asset: String,
    pub content_hash: Option<String>,
    pub clip_count: usize,
}

/// Whether an import retained the admitted body unchanged and recorded
/// that body's content hash.
pub open spec fn import_retains(imported: ImportedGlb, bytes: Seq<u8>) -> bool {
    &&& imported.runtime_resource_bytes@ == bytes
    &&& imported.content_hash matches Some(h) && h@ == content_hash_text(bytes)
}

/// The error code under which an animated GLB at `path` is refused:
/// `import_code` when path and size are in order but the importer's
/// report is not.
pub open spec fn glb_refusal_code(
    path: Seq<char>,
    bytes: Seq<u8>,
    import_code: Seq<char>,
) -> Seq<char> {
    if !valid_renderer_path(bytes_of(path), bytes_of(".glb"@)) {
        "CSHARP_RENDER_RESOURCE_PATH"@
    } else if bytes.len() > MAX_RENDER_RESOURCE_BYTES {
        "CSHARP_RENDER_RESOURCE_SIZE"@
    } else {
        import_code
    }
}

/// Whether two byte slices hold the same bytes.
pub fn same_bytes(a: &[u8], b: &[u8]) -> (r: bool)
    ensures
        r == (a@ == b@),
{
    if a.len() != b.len() {
        return false;
    }
    let n = a.len();
    let mut i: usize = 0;
    while i < n
        invariant
            n == a@.len(),
            n == b@.len(),
            i <= n,
            forall|k: int| 0 <= k < i ==> a@[k] == b@[k],
        decreases n - i,
    {
        if a[i] != b[i] {
            return false;
        }
        i = i + 1;
    }
    assert(a@ =~= b@);
    true
}

fn prefixed(prefix: &str, rest: &String) -> (r: String)
    ensures
        r@ == prefix@ + rest@,
{
    String::from_str(prefix).concat(rest.as_str())
}

impl CsharpRenderResource {
    /// Whether the resource's fields are consistent: its path is a valid
    /// bundle path, its body within the renderer size bound, and its content
    /// hash a `sha256:` hash.
    pub open spec fn wf(&self) -> bool {
        &&& valid_bundle_path(bytes_of(self@.path))
        &&& self@.bytes.len() <= MAX_RENDER_RESOURCE_BYTES
        &&& has_sha256_prefix(self@.content_hash)
    }

    /// A resource whose media was admitted by a decoder outside this
    /// library (PNG textures, packed meshes): the bundle path and size bound
    /// are still checked here. `asset_identity` is the renderer asset the
    /// resource realizes (a texture's descriptor id, otherwise the identity
    /// itself); the decoder's content hash is always a `sha256:` hash.
    pub fn admitted(
        kind: CsharpRenderResourceKind,
        identity: String,
        asset_identity: String,
        content_hash: String,
        path: String,
        bytes: Vec<u8>,
    ) -> (r: Result<Self, CsharpEngineServicesError>)
        requires
            has_sha256_prefix(content_hash@),
        ensures
            r is Ok <==> valid_bundle_path(bytes_of(path@)) && bytes@.len()
                <= MAX_RENDER_RESOURCE_BYTES,
            r matches Ok(res) ==> res.wf() && res@ == (RenderResourceView {
                kind,
                identity: identity@,
                asset_identity: asset_identity@,
                content_hash: content_hash@,
                path: path@,
                bytes: bytes@,
            }),
            r matches Err(e) ==> (if !valid_bundle_path(bytes_of(path@)) {
                e.code_view() == "CSHARP_RENDER_RESOURCE_PATH"@
            } else {
                e.code_view() == "CSHARP_RENDER_RESOURCE_SIZE"@
            }),
    {
        match admit_bundle_resource(path.as_str(), bytes.as_slice()) {
            Err(e) => Err(e),
            Ok(()) => Ok(
                CsharpRenderResource { kind, identity, asset_identity, content_hash, path, bytes },
            ),
        }
    }

    /// Admits a WOFF2 font body at `content/...woff2`.
    pub fn admit_font(path: String, bytes: Vec<u8>) -> (r: Result<Self, CsharpEngineServicesError>)
        ensures
            r is Ok <==> font_admissible(path@, bytes@),
            r matches Ok(res) ==> res.wf() && res@ == (RenderResourceView {
                kind: CsharpRenderResourceKind::Font,
                identity: "font/"@ + digest_hex(bytes@),
                asset_identity: "font/"@ + digest_hex(bytes@),
                content_hash: content_hash_text(bytes@),
                path: path@,
                bytes: bytes@,
            }),
            r matches Err(e) ==> e.code_view() == font_refusal_code(path@, bytes@),
    {
        let path = match renderer_path(path, ".woff2") {
            Ok(p) => p,
            Err(e) => return Err(e),
        };
        if !woff2_magic(bytes.as_slice()) {
            return Err(
                CsharpEngineServicesError::new(
                    "CSHARP_RENDER_RESOURCE_FONT",
                    String::from_str("font resource is not an admitted WOFF2 body"),
                ),
            );
        }
        if let Err(e) = admit_bundle_resource(path.as_str(), bytes.as_slice()) {
            return Err(e);
        }
        let hex = sha256_hex(bytes.as_slice());
        let content_hash = prefixed("sha256:", &hex);
        proof {
            reveal_strlit("sha256:");
            lemma_content_hash_prefixed(bytes@);
        }
        let identity = prefixed("font/", &hex);
        let asset_identity = identity.clone();
        Ok(CsharpRenderResource {
            kind: CsharpRenderResourceKind::Font,
            identity,
            asset_identity,
            content_hash,
            path,
            bytes,
        })
    }

    /// Admits an encoded audio body at `content/...` whose extension names
    /// one of the admitted container families; WAV bodies must carry their
    /// RIFF/WAVE header.
    pub fn admit_audio(path: String, bytes: Vec<u8>) -> (r: Result<Self, CsharpEngineServicesError>)
        ensures
            r is Ok <==> audio_admissible(path@, bytes@),
            r matches Ok(res) ==> res.wf() && res@ == (RenderResourceView {
                kind: CsharpRenderResourceKind::Audio,
                identity: "audio-resource/"@ + digest_hex(bytes@),
                asset_identity: "audio-resource/"@ + digest_hex(bytes@),
                content_hash: content_hash_text(bytes@),
                path: path@,
                bytes: bytes@,
            }),
            r matches Err(e) ==> e.code_view() == audio_refusal_code(path@, bytes@),
    {
        let container = match audio_container(path.as_str()) {
            Some(c) => c,
            None => {
                return Err(
                    CsharpEngineServicesError::new(
                        "CSHARP_AUDIO_RESOURCE_CONTAINER",
                        String::from_str(
                            "audio resource must be a WAV, Ogg, Opus, MP3 or FLAC container",
                        ),
                    ),
                );
            },
        };
        let path = match renderer_path(path, extension_text(container)) {
            Ok(p) => p,
            Err(e) => return Err(e),
        };
        if container == AudioContainer::Wav && (bytes.len() < 44 || !riff_wave_magic(
            bytes.as_slice(),
        )) {
            return Err(
                CsharpEngineServicesError::new(
                    "CSHARP_AUDIO_RESOURCE_WAV",
                    String::from_str("audio resource must be an admitted RIFF/WAVE body"),
                ),
            );
        }
        if let Err(e) = admit_bundle_resource(path.as_str(), bytes.as_slice()) {
            return Err(e);
        }
        let hex = sha256_hex(bytes.as_slice());
        let content_hash = prefixed("sha256:", &hex);
        proof {
            reveal_strlit("sha256:");
            lemma_content_hash_prefixed(bytes@);
        }
        let identity = prefixed("audio-resource/", &hex);
        let asset_identity = identity.clone();
        Ok(CsharpRenderResource {
            kind: CsharpRenderResourceKind::Audio,
            identity,
            asset_identity,
            content_hash,
            path,
            bytes,
        })
    }

    /// Admits an animated GLB body at `content/...glb`, given what the
    /// importer reported for it (or the importer's diagnostics when it
    /// produced no asset): the import must retain the body unchanged and
    /// record its content hash.
    pub fn admit_animated_mesh(
        path: String,
        bytes: Vec<u8>,
        imported: Result<ImportedGlb, String>,
    ) -> (r: Result<Self, CsharpEngineServicesError>)
        ensures
            r is Ok <==> valid_renderer_path(bytes_of(path@), bytes_of(".glb"@)) && bytes@.len()
                <= MAX_RENDER_RESOURCE_BYTES && (imported matches Ok(i) && import_retains(
                i,
                bytes@,
            )),
            r matches Ok(res) ==> res.wf() && res@ == (RenderResourceView {
                kind: CsharpRenderResourceKind::AnimatedMesh,
                identity: "animated-mesh-resource/"@ + digest_hex(bytes@),
                asset_identity: imported->Ok_0.asset@,
                content_hash: content_hash_text(bytes@),
                path: path@,
                bytes: bytes@,
            }),
            r matches Err(e) ==> e.code_view() == glb_refusal_code(
                path@,
                bytes@,
                "CSHARP_ANIMATION_GLB_ADMISSION"@,
            ),
    {
        let path = match renderer_path(path, ".glb") {
            Ok(p) => p,
            Err(e) => return Err(e),
        };
        if let Err(e) = admit_bundle_resource(path.as_str(), bytes.as_slice()) {
            return Err(e);
        }
        let imported = match imported {
            Ok(i) => i,
            Err(detail) => {
                return Err(
                    CsharpEngineServicesError::new(
                        "CSHARP_ANIMATION_GLB_ADMISSION",
                        if detail.unicode_len() == 0 {
                            String::from_str("animated GLB admission produced no asset")
                        } else {
                            detail
                        },
                    ),
                );
            },
        };
        if !same_bytes(imported.runtime_resource_bytes.as_slice(), bytes.as_slice()) {
            return Err(
                CsharpEngineServicesError::new(
                    "CSHARP_ANIMATION_GLB_ADMISSION",
                    String::from_str(
                        "animated GLB admission unexpectedly changed immutable source bytes",
                    ),
                ),
            );
        }
        let hex = sha256_hex(bytes.as_slice());
        let content_hash = prefixed("sha256:", &hex);
        let recorded = match &imported.content_hash {
            Some(h) => h.clone() == content_hash,
            None => false,
        };
        if !recorded {
            return Err(
                CsharpEngineServicesError::new(
                    "CSHARP_ANIMATION_GLB_ADMISSION",
                    String::from_str(
                        "animated GLB descriptor content hash did not match admitted source bytes",
                    ),
                ),
            );
        }
        proof {
            reveal_strlit("sha256:");
            lemma_content_hash_prefixed(bytes@);
        }
        let identity = prefixed("animated-mesh-resource/", &hex);
        Ok(CsharpRenderResource {
            kind: CsharpRenderResourceKind::AnimatedMesh,
            identity,
            asset_identity: imported.asset,
            content_hash,
            path,
            bytes,
        })
    }

    /// Admits an animation clip-pack GLB body at `content/...glb`, given what
    /// the importer reported for it: as for an animated GLB, and the pack
    /// must carry at least one clip.
    pub fn admit_animation_clip_pack(
        path: String,
        bytes: Vec<u8>,
        imported: Result<ImportedGlb, String>,
    ) -> (r: Result<Self, CsharpEngineServicesError>)
        ensures
            r is Ok <==> valid_renderer_path(bytes_of(path@), bytes_of(".glb"@)) && bytes@.len()
                <= MAX_RENDER_RESOURCE_BYTES && (imported matches Ok(i) && import_retains(
                i,
                bytes@,
            ) && i.clip_count > 0),
            r matches Ok(res) ==> res.wf() && res@ == (RenderResourceView {
                kind: CsharpRenderResourceKind::AnimationClipPack,
                identity: "clip-pack-resource/"@ + digest_hex(bytes@),
                asset_identity: "clip-pack-resource/"@ + digest_hex(bytes@),
                content_hash: content_hash_text(bytes@),
                path: path@,
                bytes: bytes@,
            }),
            r matches Err(e) ==> e.code_view() == glb_refusal_code(
                path@,
                bytes@,
                "CSHARP_ANIMATION_CLIP_PACK_ADMISSION"@,
            ),
    {
        let path = match renderer_path(path, ".glb") {
            Ok(p) => p,
            Err(e) => return Err(e),
        };
        if let Err(e) = admit_bundle_resource(path.as_str(), bytes.as_slice()) {
            return Err(e);
        }
        let imported = match imported {
            Ok(i) => i,
            Err(detail) => {
                return Err(
                    CsharpEngineServicesError::new(
                        "CSHARP_ANIMATION_CLIP_PACK_ADMISSION",
                        if detail.unicode_len() == 0 {
                            String::from_str("animation clip-pack GLB admission produced no asset")
                        } else {
                            detail
                        },
                    ),
                );
            },
        };
        if !same_bytes(imported.runtime_resource_bytes.as_slice(), bytes.as_slice())
            || imported.clip_count == 0 {
            return Err(
                CsharpEngineServicesError::new(
                    "CSHARP_ANIMATION_CLIP_PACK_ADMISSION",
                    String::from_str(
                        "animation clip-pack GLB must retain its immutable source bytes and contain clips",
                    ),
                ),
            );
        }
        let hex = sha256_hex(bytes.as_slice());
        let content_hash = prefixed("sha256:", &hex);
        let recorded = match &imported.content_hash {
            Some(h) => h.clone() == content_hash,
            None => false,
        };
        if !recorded {
            return Err(
                CsharpEngineServicesError::new(
                    "CSHARP_ANIMATION_CLIP_PACK_ADMISSION",
                    String::from_str(
                        "animation clip-pack descriptor content hash did not match admitted source bytes",
                    ),
                ),
            );
        }
        proof {
            reveal_strlit("sha256:");
            lemma_content_hash_prefixed(bytes@);
        }
        let identity = prefixed("clip-pack-resource/", &hex);
        let asset_identity = identity.clone();
        Ok(CsharpRenderResource {
            kind: CsharpRenderResourceKind::AnimationClipPack,
            identity,
            asset_identity,
            content_hash,
            path,
            bytes,
        })
    }

    pub fn kind(&self) -> (k: CsharpRenderResourceKind)
        ensures
            k == self@.kind,
    {
        self.kind
    }

    pub fn identity(&self) -> (s: &str)
        ensures
            s@ == self@.identity,
    {
        self.identity.as_str()
    }

    /// The renderer asset this resource realizes.
    pub fn asset_identity(&self) -> (s: &str)
        ensures
            s@ == self@.asset_identity,
    {
        self.asset_identity.as_str()
    }

    pub fn content_hash(&self) -> (s: &str)
        ensures
            s@ == self@.content_hash,
    {
        self.content_hash.as_str()
    }

    pub fn path(&self) -> (s: &str)
        ensures
            s@ == self@.path,
    {
        self.path.as_str()
    }

    pub fn bytes(&self) -> (b: &[u8])
        ensures
            b@ == self@.bytes,
    {
        self.bytes.as_slice()
    }

    /// Whether two resources carry the same identity.
    pub fn same_identity(&self, other: &Self) -> (b: bool)
        ensures
            b == (self@.identity == other@.identity),
    {
        self.identity == other.identity
    }

    /// A copy of the resource.
    pub fn duplicate(&self) -> (r: Self)
        ensures
            r@ == self@,
    {
        CsharpRenderResource {
            kind: self.kind,
            identity: self.identity.clone(),
            asset_identity: self.asset_identity.clone(),
            content_hash: self.content_hash.clone(),
            path: self.path.clone(),
            bytes: self.bytes.clone(),
        }
    }
}

} // verus!
