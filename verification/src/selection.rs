use crate::error::CsharpEngineServicesError;
use crate::paths::{
    bytes_have_suffix, bytes_of, content_prefix_chars, has_suffix, strip_content,
    strip_content_prefix, valid_bundle_path, with_content_prefix, MAX_RENDER_RESOURCE_BYTES,
};
use crate::digest::{content_hash_text, digest_hex};
use crate::resource::{
    font_admissible, font_refusal_code, has_sha256_prefix, sha256_digest_of, CsharpRenderResource,
    CsharpRenderResourceKind, RenderResourceView,
};
use crate::table::TextTable;
use vstd::prelude::*;
use vstd::string::StringExecFns;

verus! {

/// The kind a selected renderer resource reports to the appearance API.
#[derive(Debug, Clone, Copy, PartialEq, Eq, Structural)]
pub enum RenderResourceInfoKind {
    Texture,
    StaticMesh,
    Font,
}

/// What the appearance API reports of a selected resource.
#[derive(Debug, Clone, Copy, PartialEq, Eq, Structural)]
pub struct RenderResourceInfo {
    pub handle: u64,
    pub kind: RenderResourceInfoKind,
    pub byte_length: u32,
}

/// The result of opening a renderer resource by path.
#[derive(Debug)]
pub enum OpenResourceOutcome {
    /// The resource is selected; its readout.
    Selected(RenderResourceInfo),
    /// Product content holds an RGBA PNG or packed mesh body that a media
    /// decoder must admit before it can be staged under these paths.
    NeedsAdmission {
        kind: CsharpRenderResourceKind,
        browser_path: String,
        relative_path: String,
        requested_path: String,
        bytes: Vec<u8>,
    },
}

/// The renderer resources selected by a product, their path aliases, and
/// the product content still open to selection.
///
/// Handles are one-based positions in the selection; one identity is
/// selected at most once.
pub struct ResourceSelection {
    resources: Vec<CsharpRenderResource>,
    paths: TextTable<u64>,
    content: TextTable<Vec<u8>>,
    sealed: bool,
}

/// The readout kind of a resource kind, if the appearance API exposes it.
pub open spec fn info_kind_of(kind: CsharpRenderResourceKind) -> Option<RenderResourceInfoKind> {
    match kind {
        CsharpRenderResourceKind::Texture => Some(RenderResourceInfoKind::Texture),
        CsharpRenderResourceKind::Mesh => Some(RenderResourceInfoKind::StaticMesh),
        CsharpRenderResourceKind::Font => Some(RenderResourceInfoKind::Font),
        _ => None,
    }
}

/// A readout names the resource's own kind: a selected texture reads out
/// as a texture, a packed mesh as a static mesh and a font as a font, and
/// each readout kind comes from exactly one resource kind; audio and
/// animation resources have no appearance readout.
pub proof fn lemma_readout_kind_names_resource_kind(kind: CsharpRenderResourceKind)
    ensures
        info_kind_of(kind) == Some(RenderResourceInfoKind::Texture) <==> kind
            == CsharpRenderResourceKind::Texture,
        info_kind_of(kind) == Some(RenderResourceInfoKind::StaticMesh) <==> kind
            == CsharpRenderResourceKind::Mesh,
        info_kind_of(kind) == Some(RenderResourceInfoKind::Font) <==> kind
            == CsharpRenderResourceKind::Font,
        info_kind_of(kind) is None <==> (kind == CsharpRenderResourceKind::Audio || kind
            == CsharpRenderResourceKind::AnimatedMesh || kind
            == CsharpRenderResourceKind::AnimationClipPack),
{
}

/// Maps every path of `paths` to `handle`, later entries of `aliases`
/// keeping their own earlier bindings.
pub open spec fn alias_all(aliases: Map<Seq<char>, u64>, paths: Seq<Seq<char>>, handle: u64) -> Map<
    Seq<char>,
    u64,
>
    decreases paths.len(),
{
    if paths.len() == 0 {
        aliases
    } else {
        alias_all(aliases, paths.drop_last(), handle).insert(paths.last(), handle)
    }
}

/// The position of the first selected resource with this identity.
pub open spec fn identity_position(resources: Seq<RenderResourceView>, identity: Seq<char>) -> Option<
    int,
> {
    if exists|i: int| 0 <= i < resources.len() && resources[i].identity == identity {
        Some(choose|i: int| 0 <= i < resources.len() && resources[i].identity == identity)
    } else {
        None
    }
}

/// The selected resource behind a one-based handle, as the selection
/// resolves it: position `handle - 1`, saturating at zero.
pub open spec fn selected_resource(resources: Seq<RenderResourceView>, handle: u64) -> Option<
    RenderResourceView,
> {
    let index = if handle == 0 {
        0
    } else {
        handle - 1
    };
    if index < resources.len() {
        Some(resources[index])
    } else {
        None
    }
}

/// The selected view of a font admitted at `path` with body `bytes`.
pub open spec fn font_view(path: Seq<char>, bytes: Seq<u8>) -> RenderResourceView {
    RenderResourceView {
        kind: CsharpRenderResourceKind::Font,
        identity: "font/"@ + digest_hex(bytes),
        asset_identity: "font/"@ + digest_hex(bytes),
        content_hash: content_hash_text(bytes),
        path,
        bytes,
    }
}

/// Where a product call started in a selection: how many resources were
/// selected and the path aliases then. Discarding the call rolls the
/// selection back to it.
#[derive(Debug)]
pub struct SelectionCheckpoint {
    resource_count: usize,
    paths: TextTable<u64>,
}

impl SelectionCheckpoint {
    /// How many resources were selected.
    pub closed spec fn count_view(&self) -> nat {
        self.resource_count as nat
    }

    /// The path aliases then.
    pub closed spec fn paths_view(&self) -> Map<Seq<char>, u64> {
        self.paths@
    }

    /// Every alias names one of the resources selected then.
    pub closed spec fn wf(&self) -> bool {
        &&& self.paths.wf()
        &&& forall|p: Seq<char>|
            self.paths@.dom().contains(p) ==> 1 <= #[trigger] self.paths@[p]
                <= self.resource_count
    }
}

impl ResourceSelection {
    /// The selected resources, in handle order.
    pub closed spec fn resources_view(&self) -> Seq<RenderResourceView> {
        self.resources@.map_values(|r: CsharpRenderResource| r@)
    }

    /// The path aliases of selected resources.
    pub closed spec fn paths_view(&self) -> Map<Seq<char>, u64> {
        self.paths@
    }

    /// The product content still open to selection, by relative path.
    pub closed spec fn content_view(&self) -> Map<Seq<char>, Seq<u8>> {
        self.content@.map_values(|b: Vec<u8>| b@)
    }

    /// Whether selection was sealed after product `Create`.
    pub closed spec fn sealed_view(&self) -> bool {
        self.sealed
    }

    /// Identities are selected once, every alias names a selected resource,
    /// and every resource has a valid bundle path and bounded body.
    pub closed spec fn wf(&self) -> bool {
        &&& self.paths.wf()
        &&& self.content.wf()
        &&& forall|i: int, j: int|
            0 <= i < j < self.resources@.len() ==> self.resources@[i]@.identity
                != self.resources@[j]@.identity
        &&& forall|p: Seq<char>|
            self.paths@.dom().contains(p) ==> 1 <= #[trigger] self.paths@[p] <= self.resources@.len()
        &&& forall|i: int| 0 <= i < self.resources@.len() ==> (#[trigger] self.resources@[i]).wf()
    }

    /// A selection over the given product content, with nothing selected.
    pub fn new(content: TextTable<Vec<u8>>) -> (s: Self)
        requires
            content.wf(),
        ensures
            s.wf(),
            s.resources_view().len() == 0,
            s.paths_view() == Map::<Seq<char>, u64>::empty(),
            s.content_view() == content@.map_values(|b: Vec<u8>| b@),
            !s.sealed_view(),
    {
        ResourceSelection { resources: Vec::new(), paths: TextTable::new(), content, sealed: false }
    }

    /// The checkpoint a product call starts from.
    pub fn checkpoint(&self) -> (c: SelectionCheckpoint)
        requires
            self.wf(),
        ensures
            c.wf(),
            c.count_view() == self.resources_view().len(),
            c.paths_view() == self.paths_view(),
    {
        SelectionCheckpoint { resource_count: self.resources.len(), paths: self.paths.copy() }
    }

    /// Discards what a call selected since `checkpoint`: the resources
    /// selected after it are dropped and the aliases restored. Selection
    /// only ever appends resources, so after a call that started at the
    /// checkpoint the selection is exactly as the call found it.
    pub fn rollback(&mut self, checkpoint: SelectionCheckpoint)
        requires
            old(self).wf(),
            checkpoint.wf(),
            checkpoint.count_view() <= old(self).resources_view().len(),
        ensures
            final(self).wf(),
            final(self).resources_view() == old(self).resources_view().subrange(
                0,
                checkpoint.count_view() as int,
            ),
            final(self).paths_view() == checkpoint.paths_view(),
            final(self).content_view() == old(self).content_view(),
            final(self).sealed_view() == old(self).sealed_view(),
    {
        let ghost before = self.resources@;
        self.resources.truncate(checkpoint.resource_count);
        self.paths = checkpoint.paths;
        assert(self.resources_view() =~= old(self).resources_view().subrange(
            0,
            checkpoint.resource_count as int,
        ));
        assert forall|i: int| 0 <= i < self.resources@.len() implies (
        #[trigger] self.resources@[i]).wf() by {
            assert(self.resources@[i] == before[i]);
        }
    }

    /// Closes selection: later opens can only resolve already-selected
    /// paths, and unselected product content is released.
    pub fn seal(&mut self)
        requires
            old(self).wf(),
        ensures
            final(self).wf(),
            final(self).sealed_view(),
            final(self).content_view() == Map::<Seq<char>, Seq<u8>>::empty(),
            final(self).resources_view() == old(self).resources_view(),
            final(self).paths_view() == old(self).paths_view(),
    {
        self.sealed = true;
        self.content = TextTable::new();
        assert(self.content_view() =~= Map::<Seq<char>, Seq<u8>>::empty());
    }

    /// Every selected resource has a valid bundle path, a bounded body and
    /// a `sha256:` content hash.
    pub proof fn lemma_selected_wf(&self, i: int)
        requires
            self.wf(),
            0 <= i < self.resources_view().len(),
        ensures
            valid_bundle_path(bytes_of(self.resources_view()[i].path)),
            self.resources_view()[i].bytes.len() <= MAX_RENDER_RESOURCE_BYTES,
            has_sha256_prefix(self.resources_view()[i].content_hash),
    {
        assert(self.resources@[i].wf());
    }

    /// The number of selected resources.
    pub fn len(&self) -> (n: usize)
        ensures
            n == self.resources_view().len(),
    {
        self.resources.len()
    }

    /// The resource at a one-based handle. Handle zero resolves like handle
    /// one, as the position is the handle minus one, saturating at zero.
    pub fn resource(&self, handle: u64) -> (r: Result<&CsharpRenderResource, CsharpEngineServicesError>)
        ensures
            ({
                let index = if handle == 0 { 0 } else { handle - 1 };
                &&& r is Ok <==> index < self.resources_view().len()
                &&& r matches Ok(res) ==> res@ == self.resources_view()[index]
                &&& r matches Err(e) ==> e.code_view() == "CSHARP_RENDER_RESOURCE_HANDLE"@
            }),
    {
        let index = handle.saturating_sub(1);
        if index >= self.resources.len() as u64 {
            return Err(
                CsharpEngineServicesError::new(
                    "CSHARP_RENDER_RESOURCE_HANDLE",
                    String::from_str("unknown resource handle"),
                ),
            );
        }
        Ok(&self.resources[index as usize])
    }

    /// The appearance readout of a selected resource.
    pub fn resource_info(&self, handle: u64) -> (r: Result<RenderResourceInfo, CsharpEngineServicesError>)
        ensures
            ({
                let index = if handle == 0 { 0 } else { handle - 1 };
                let res = self.resources_view()[index];
                &&& r is Ok <==> index < self.resources_view().len() && info_kind_of(res.kind) is Some
                    && res.bytes.len() <= u32::MAX
                &&& r matches Ok(info) ==> info == (RenderResourceInfo {
                    handle,
                    kind: info_kind_of(res.kind)->0,
                    byte_length: res.bytes.len() as u32,
                })
                &&& r matches Err(e) ==> (if index >= self.resources_view().len() {
                    e.code_view() == "CSHARP_RENDER_RESOURCE_HANDLE"@
                } else if info_kind_of(res.kind) is None {
                    e.code_view() == "CSHARP_RENDER_RESOURCE_KIND"@
                } else {
                    e.code_view() == "CSHARP_RENDER_RESOURCE_SIZE"@
                })
            }),
    {
        let resource = match self.resource(handle) {
            Ok(r) => r,
            Err(e) => return Err(e),
        };
        let kind = match resource.kind() {
            CsharpRenderResourceKind::Texture => RenderResourceInfoKind::Texture,
            CsharpRenderResourceKind::Mesh => RenderResourceInfoKind::StaticMesh,
            CsharpRenderResourceKind::Font => RenderResourceInfoKind::Font,
            CsharpRenderResourceKind::Audio => {
                return Err(
                    CsharpEngineServicesError::new(
                        "CSHARP_RENDER_RESOURCE_KIND",
                        String::from_str(
                            "audio resources are exposed by the Audio service, not Appearance",
                        ),
                    ),
                );
            },
            CsharpRenderResourceKind::AnimatedMesh => {
                return Err(
                    CsharpEngineServicesError::new(
                        "CSHARP_RENDER_RESOURCE_KIND",
                        String::from_str(
                            "animated GLB resources are exposed by the Animation service, not Appearance",
                        ),
                    ),
                );
            },
            CsharpRenderResourceKind::AnimationClipPack => {
                return Err(
                    CsharpEngineServicesError::new(
                        "CSHARP_RENDER_RESOURCE_KIND",
                        String::from_str(
                            "animation clip-pack GLB resources are exposed by the Animation service, not Appearance",
                        ),
                    ),
                );
            },
        };
        let len = resource.bytes().len();
        if len > 0xffff_ffff {
            return Err(
                CsharpEngineServicesError::new(
                    "CSHARP_RENDER_RESOURCE_SIZE",
                    String::from_str("renderer resource byte length exceeded u32"),
                ),
            );
        }
        Ok(RenderResourceInfo { handle, kind, byte_length: len as u32 })
    }

    /// The position of a selected resource with the given identity.
    fn find_identity(&self, resource: &CsharpRenderResource) -> (r: Option<usize>)
        requires
            self.wf(),
        ensures
            r is None <==> identity_position(self.resources_view(), resource@.identity) is None,
            r matches Some(i) ==> identity_position(self.resources_view(), resource@.identity)
                == Some(i as int),
    {
        let n = self.resources.len();
        let mut i: usize = 0;
        while i < n
            invariant
                self.wf(),
                n == self.resources@.len(),
                i <= n,
                forall|j: int| 0 <= j < i ==> self.resources@[j]@.identity != resource@.identity,
            decreases n - i,
        {
            if self.resources[i].same_identity(resource) {
                proof {
                    let rv = self.resources_view();
                    assert(rv[i as int].identity == resource@.identity);
                    let c = choose|c: int| 0 <= c < rv.len() && rv[c].identity == resource@.identity;
                    if c != i {
                        if c < i {
                            assert(self.resources@[c]@.identity != resource@.identity);
                        } else {
                            assert(self.resources@[i as int]@.identity
                                != self.resources@[c]@.identity);
                        }
                    }
                }
                return Some(i);
            }
            i = i + 1;
        }
        proof {
            let rv = self.resources_view();
            assert forall|j: int| 0 <= j < rv.len() implies rv[j].identity != resource@.identity by {
                assert(self.resources@[j]@.identity != resource@.identity);
            }
        }
        None
    }

    /// Selects a resource under the given path aliases. A resource whose
    /// identity is already selected keeps its handle; otherwise it is
    /// appended and its handle is the new selection length. Every path then
    /// aliases the handle.
    pub fn stage_resource(&mut self, resource: CsharpRenderResource, paths: Vec<String>) -> (r: Result<
        u64,
        CsharpEngineServicesError,
    >)
        requires
            old(self).wf(),
            resource.wf(),
        ensures
            final(self).wf(),
            final(self).content_view() == old(self).content_view(),
            final(self).sealed_view() == old(self).sealed_view(),
            r is Err ==> *final(self) == *old(self),
            r matches Err(e) ==> e.code_view() == "CSHARP_RENDER_RESOURCE_HANDLE"@
                && identity_position(old(self).resources_view(), resource@.identity) is None
                && old(self).resources_view().len() == u64::MAX,
            r matches Ok(h) ==> match identity_position(old(self).resources_view(), resource@.identity) {
                Some(i) => h == i + 1 && final(self).resources_view() == old(self).resources_view(),
                None => h == old(self).resources_view().len() + 1 && final(self).resources_view()
                    == old(self).resources_view().push(resource@),
            },
            r matches Ok(h) ==> final(self).paths_view() == alias_all(
                old(self).paths_view(),
                paths@.map_values(|p: String| p@),
                h,
            ),
    {
        let ghost old_s = *self;
        let handle: u64 = match self.find_identity(&resource) {
            Some(i) => {
                let len = self.resources.len();
                assert(i < len);
                (i as u64) + 1
            },
            None => {
                let len = self.resources.len() as u64;
                if len == u64::MAX {
                    return Err(
                        CsharpEngineServicesError::new(
                            "CSHARP_RENDER_RESOURCE_HANDLE",
                            String::from_str("renderer resource handle overflowed"),
                        ),
                    );
                }
                self.resources.push(resource);
                proof {
                    let n = old_s.resources@.len();
                    assert forall|i: int, j: int|
                        0 <= i < j < self.resources@.len() implies self.resources@[i]@.identity
                        != self.resources@[j]@.identity by {
                        if j == n {
                            assert(old_s.resources_view()[i].identity == old_s.resources@[i]@.identity);
                        }
                    }
                    assert(self.resources_view() =~= old_s.resources_view().push(resource@));
                }
                len + 1
            },
        };
        let ghost mid = *self;
        let ghost pviews = paths@.map_values(|p: String| p@);
        let n = paths.len();
        let mut k: usize = 0;
        // Aliases are bound in the caller's order: a later path overwrites
        // an earlier binding of the same text.
        while k < n
            invariant
                self.wf(),
                1 <= handle <= self.resources@.len(),
                self.resources == mid.resources,
                self.content == mid.content,
                self.sealed == mid.sealed,
                k <= n,
                n == paths@.len(),
                pviews == paths@.map_values(|p: String| p@),
                self.paths@ == alias_all(mid.paths@, pviews.subrange(0, k as int), handle),
            decreases n - k,
        {
            let p = paths[k].clone();
            self.paths.insert(p, handle);
            proof {
                let next = pviews.subrange(0, k + 1);
                assert(next.drop_last() =~= pviews.subrange(0, k as int));
                assert(next.last() == paths@[k as int]@);
            }
            k = k + 1;
        }
        assert(pviews.subrange(0, n as int) =~= pviews);
        Ok(handle)
    }

    /// Opens a renderer resource by its requested path. An already-aliased
    /// path resolves to its selected resource. Otherwise, before sealing, the
    /// path (with one leading `content/` removed) names product content:
    /// WOFF2 fonts are admitted and selected here, RGBA PNG and packed mesh
    /// bodies are returned for media admission, and any other extension is
    /// refused.
    pub fn open_resource(&mut self, requested: &str) -> (r: Result<
        OpenResourceOutcome,
        CsharpEngineServicesError,
    >)
        requires
            old(self).wf(),
        ensures
            final(self).wf(),
            final(self).content_view() == old(self).content_view(),
            final(self).sealed_view() == old(self).sealed_view(),
            ({
                let key = requested@;
                let rel = strip_content(key);
                let rb = bytes_of(rel);
                let browser = content_prefix_chars() + rel;
                let body = old(self).content_view()[rel];
                let font_id = "font/"@ + digest_hex(body);
                if old(self).paths_view().dom().contains(key) {
                    let h = old(self).paths_view()[key];
                    let res = old(self).resources_view()[h - 1];
                    &&& *final(self) == *old(self)
                    &&& r is Ok <==> info_kind_of(res.kind) is Some && res.bytes.len() <= u32::MAX
                    &&& r matches Ok(o) ==> o matches OpenResourceOutcome::Selected(info)
                        && info.handle == h && info.kind == info_kind_of(res.kind)->0
                        && info.byte_length == res.bytes.len()
                } else if old(self).sealed_view() {
                    &&& *final(self) == *old(self)
                    &&& r matches Err(e) && e.code_view()
                        == "CSHARP_RENDER_RESOURCE_SELECTION_CLOSED"@
                } else if !old(self).content_view().dom().contains(rel) {
                    &&& *final(self) == *old(self)
                    &&& r matches Err(e) && e.code_view() == "CSHARP_RENDER_RESOURCE_UNKNOWN"@
                } else if has_suffix(rb, bytes_of(".png"@)) || has_suffix(rb, bytes_of(".rmesh"@)) {
                    &&& *final(self) == *old(self)
                    &&& r matches Ok(OpenResourceOutcome::NeedsAdmission {
                        kind,
                        browser_path,
                        relative_path,
                        requested_path,
                        bytes,
                    }) && kind == (if has_suffix(rb, bytes_of(".png"@)) {
                        CsharpRenderResourceKind::Texture
                    } else {
                        CsharpRenderResourceKind::Mesh
                    }) && browser_path@ == browser && relative_path@ == rel && requested_path@
                        == key && bytes@ == body
                } else if has_suffix(rb, bytes_of(".woff2"@)) {
                    &&& !font_admissible(browser, body) ==> *final(self) == *old(self) && (r matches Err(
                        e,
                    ) && e.code_view() == font_refusal_code(browser, body))
                    &&& font_admissible(browser, body) && old(self).resources_view().len()
                        < u64::MAX && (identity_position(old(self).resources_view(), font_id) matches Some(
                        i,
                    ) ==> info_kind_of(old(self).resources_view()[i].kind) is Some) ==> r is Ok
                    &&& r matches Ok(o) ==> o matches OpenResourceOutcome::Selected(info)
                        && final(self).paths_view() == alias_all(
                        old(self).paths_view(),
                        seq![browser, rel, key],
                        info.handle,
                    ) && match identity_position(old(self).resources_view(), font_id) {
                        Some(i) => info.handle == i + 1 && final(self).resources_view()
                            == old(self).resources_view() && info.kind == info_kind_of(
                            old(self).resources_view()[i].kind,
                        )->0,
                        None => info.handle == old(self).resources_view().len() + 1
                            && final(self).resources_view() == old(self).resources_view().push(
                            font_view(browser, body),
                        ) && info.kind == RenderResourceInfoKind::Font && info.byte_length
                            == body.len(),
                    }
                } else {
                    &&& *final(self) == *old(self)
                    &&& r matches Err(e) && e.code_view() == "CSHARP_RENDER_RESOURCE_KIND"@
                }
            }),
    {
        let key = requested.to_owned();
        match self.paths.get(&key) {
            Some(h) => {
                let h = *h;
                return match self.resource_info(h) {
                    Ok(info) => Ok(OpenResourceOutcome::Selected(info)),
                    Err(e) => Err(e),
                };
            },
            None => {},
        }
        if self.sealed {
            return Err(
                CsharpEngineServicesError::new(
                    "CSHARP_RENDER_RESOURCE_SELECTION_CLOSED",
                    String::from_str("renderer resource was not selected during product Create"),
                ),
            );
        }
        let relative = strip_content_prefix(requested);
        let bytes = match self.content.get(&relative) {
            Some(b) => b.clone(),
            None => {
                return Err(
                    CsharpEngineServicesError::new(
                        "CSHARP_RENDER_RESOURCE_UNKNOWN",
                        String::from_str("product content has no such renderer resource"),
                    ),
                );
            },
        };
        let browser = with_content_prefix(relative.as_str());
        let rb = relative.as_str().as_bytes();
        if bytes_have_suffix(rb, ".png".as_bytes()) {
            return Ok(
                OpenResourceOutcome::NeedsAdmission {
                    kind: CsharpRenderResourceKind::Texture,
                    browser_path: browser,
                    relative_path: relative,
                    requested_path: key,
                    bytes,
                },
            );
        }
        if bytes_have_suffix(rb, ".rmesh".as_bytes()) {
            return Ok(
                OpenResourceOutcome::NeedsAdmission {
                    kind: CsharpRenderResourceKind::Mesh,
                    browser_path: browser,
                    relative_path: relative,
                    requested_path: key,
                    bytes,
                },
            );
        }
        if bytes_have_suffix(rb, ".woff2".as_bytes()) {
            let font = match CsharpRenderResource::admit_font(browser.clone(), bytes) {
                Ok(f) => f,
                Err(e) => return Err(e),
            };
            let mut aliases: Vec<String> = Vec::new();
            aliases.push(browser);
            aliases.push(relative);
            aliases.push(key);
            let ghost av = aliases@.map_values(|p: String| p@);
            proof {
                assert(av =~= seq![content_prefix_chars() + strip_content(requested@), strip_content(requested@), requested@]);
            }
            let h = match self.stage_resource(font, aliases) {
                Ok(h) => h,
                Err(e) => return Err(e),
            };
            return match self.resource_info(h) {
                Ok(info) => Ok(OpenResourceOutcome::Selected(info)),
                Err(e) => Err(e),
            };
        }
        Err(
            CsharpEngineServicesError::new(
                "CSHARP_RENDER_RESOURCE_KIND",
                String::from_str(
                    "renderer resource must be an RGBA PNG, packed .rmesh, or WOFF2 file",
                ),
            ),
        )
    }

    /// The renderer asset of a selected texture, for the sky background.
    pub fn texture_identity(&self, handle: u64) -> (r: Result<String, CsharpEngineServicesError>)
        ensures
            ({
                let index = if handle == 0 { 0 } else { handle - 1 };
                let res = self.resources_view()[index];
                &&& r is Ok <==> index < self.resources_view().len() && res.kind
                    == CsharpRenderResourceKind::Texture
                &&& r matches Ok(s) ==> s@ == res.asset_identity
                &&& r matches Err(e) ==> (if index >= self.resources_view().len() {
                    e.code_view() == "CSHARP_RENDER_RESOURCE_HANDLE"@
                } else {
                    e.code_view() == "CSHARP_SKY_TEXTURE"@
                })
            }),
    {
        let resource = match self.resource(handle) {
            Ok(r) => r,
            Err(e) => return Err(e),
        };
        if resource.kind() != CsharpRenderResourceKind::Texture {
            return Err(
                CsharpEngineServicesError::new(
                    "CSHARP_SKY_TEXTURE",
                    String::from_str("sky background requires a selected texture resource"),
                ),
            );
        }
        Ok(resource.asset_identity().to_owned())
    }
}

/// Every path of a selection aliases the selected handle, so opening any
/// of them again resolves to that handle without selecting anything.
pub proof fn lemma_aliases_bind_every_path(
    aliases: Map<Seq<char>, u64>,
    paths: Seq<Seq<char>>,
    handle: u64,
    k: int,
)
    requires
        0 <= k < paths.len(),
    ensures
        alias_all(aliases, paths, handle).dom().contains(paths[k]),
        alias_all(aliases, paths, handle)[paths[k]] == handle,
    decreases paths.len(),
{
    if k < paths.len() - 1 {
        lemma_aliases_bind_every_path(aliases, paths.drop_last(), handle, k);
    }
}

/// Selecting an identity twice keeps one resource: once a resource is
/// appended, its identity is found among the selected resources.
pub proof fn lemma_selected_identity_found(resources: Seq<RenderResourceView>, res: RenderResourceView)
    ensures
        identity_position(resources.push(res), res.identity) is Some,
{
    let s = resources.push(res);
    assert(s[resources.len() as int].identity == res.identity);
}

/// The result of opening an animated GLB or animation clip-pack GLB by
/// path.
#[derive(Debug)]
pub enum GlbOpenOutcome {
    /// The path already names a selected resource of the requested kind.
    Selected(u64),
    /// Product content holds the GLB body; its dependency closure must be
    /// packed and imported before it can be admitted and staged under these
    /// paths.
    NeedsAdmission {
        browser_path: String,
        relative_path: String,
        requested_path: String,
        bytes: Vec<u8>,
    },
}

/// The resource kind a GLB open asks for.
pub open spec fn glb_kind(clip_pack: bool) -> CsharpRenderResourceKind {
    if clip_pack {
        CsharpRenderResourceKind::AnimationClipPack
    } else {
        CsharpRenderResourceKind::AnimatedMesh
    }
}

/// Whether no `/` stands in `p` at or after position `i`.
pub open spec fn no_slash_from(p: Seq<char>, i: int) -> bool {
    forall|k: int| i <= k < p.len() ==> p[k] != '/'
}

/// Whether `i` is the position of the last `/` of `p`.
pub open spec fn is_last_slash(p: Seq<char>, i: int) -> bool {
    0 <= i < p.len() && p[i] == '/' && no_slash_from(p, i + 1)
}

/// The directory of a content path: what precedes its last `/`, or
/// nothing when it has none.
pub open spec fn content_directory(p: Seq<char>) -> Seq<char> {
    if exists|i: int| is_last_slash(p, i) {
        p.subrange(0, choose|i: int| is_last_slash(p, i))
    } else {
        Seq::empty()
    }
}

/// The content path of a GLB dependency `uri`, relative to the directory
/// of the GLB at `root`.
pub open spec fn dependency_path(root: Seq<char>, uri: Seq<char>) -> Seq<char> {
    if content_directory(root).len() == 0 {
        uri
    } else {
        content_directory(root) + seq!['/'] + uri
    }
}

/// The content path of GLB dependency `uri` next to the GLB at `root`.
pub fn glb_dependency_path(root: &str, uri: &str) -> (r: String)
    ensures
        r@ == dependency_path(root@, uri@),
{
    let n = root.unicode_len();
    let mut i: usize = n;
    while i > 0 && root.get_char(i - 1) != '/'
        invariant
            n == root@.len(),
            i <= n,
            no_slash_from(root@, i as int),
        decreases i,
    {
        i = i - 1;
    }
    proof {
        if i > 0 {
            assert(is_last_slash(root@, i - 1));
            let j = choose|j: int| is_last_slash(root@, j);
            if j < i - 1 {
                assert(root@[i - 1] != '/');
            } else if j > i - 1 {
                assert(root@[j] != '/');
            }
            assert(j == i - 1);
        } else {
            assert forall|j: int| !is_last_slash(root@, j) by {
                if 0 <= j < root@.len() {
                    assert(root@[j] != '/');
                }
            }
        }
    }
    if i <= 1 {
        return uri.to_owned();
    }
    let mut path = root.substring_char(0, i - 1).to_owned();
    path.append("/");
    path.append(uri);
    proof {
        reveal_strlit("/");
        assert(path@ =~= root@.subrange(0, i - 1) + seq!['/'] + uri@);
    }
    path
}

impl ResourceSelection {
    /// Opens an animated GLB (`clip_pack` false) or animation clip-pack GLB
    /// (`clip_pack` true) by its requested path. An already-aliased path
    /// resolves to its selected resource when that has the requested kind.
    /// Otherwise, before sealing, the path (with one leading `content/`
    /// removed) must name product content, whose body is returned for
    /// packing and import.
    pub fn open_glb(&self, requested: &str, clip_pack: bool) -> (r: Result<
        GlbOpenOutcome,
        CsharpEngineServicesError,
    >)
        requires
            self.wf(),
        ensures
            ({
                let key = requested@;
                let rel = strip_content(key);
                if self.paths_view().dom().contains(key) {
                    let h = self.paths_view()[key];
                    let res = self.resources_view()[h - 1];
                    &&& r is Ok <==> res.kind == glb_kind(clip_pack)
                    &&& r matches Ok(o) ==> o matches GlbOpenOutcome::Selected(s) && s == h
                    &&& r matches Err(e) ==> e.code_view() == (if clip_pack {
                        "CSHARP_ANIMATION_CLIP_PACK_RESOURCE_KIND"@
                    } else {
                        "CSHARP_ANIMATION_RESOURCE_KIND"@
                    })
                } else if self.sealed_view() {
                    r matches Err(e) && e.code_view() == "CSHARP_ANIMATION_RESOURCE_SELECTION_CLOSED"@
                } else if !self.content_view().dom().contains(rel) {
                    r matches Err(e) && e.code_view() == (if clip_pack {
                        "CSHARP_ANIMATION_CLIP_PACK_RESOURCE_UNKNOWN"@
                    } else {
                        "CSHARP_ANIMATION_RESOURCE_UNKNOWN"@
                    })
                } else {
                    r matches Ok(GlbOpenOutcome::NeedsAdmission {
                        browser_path,
                        relative_path,
                        requested_path,
                        bytes,
                    }) && browser_path@ == content_prefix_chars() + rel && relative_path@ == rel
                        && requested_path@ == key && bytes@ == self.content_view()[rel]
                }
            }),
    {
        let key = requested.to_owned();
        match self.paths.get(&key) {
            Some(h) => {
                let h = *h;
                let res = self.resource(h).unwrap();
                let wanted = if clip_pack {
                    CsharpRenderResourceKind::AnimationClipPack
                } else {
                    CsharpRenderResourceKind::AnimatedMesh
                };
                if res.kind() == wanted {
                    return Ok(GlbOpenOutcome::Selected(h));
                }
                return Err(
                    if clip_pack {
                        CsharpEngineServicesError::new(
                            "CSHARP_ANIMATION_CLIP_PACK_RESOURCE_KIND",
                            String::from_str(
                                "this content path is already admitted as a different renderer resource kind",
                            ),
                        )
                    } else {
                        CsharpEngineServicesError::new(
                            "CSHARP_ANIMATION_RESOURCE_KIND",
                            String::from_str(
                                "this content path is already admitted as a different renderer resource kind",
                            ),
                        )
                    },
                );
            },
            None => {},
        }
        if self.sealed {
            return Err(
                CsharpEngineServicesError::new(
                    "CSHARP_ANIMATION_RESOURCE_SELECTION_CLOSED",
                    String::from_str("animated GLB resources must be selected during product Create"),
                ),
            );
        }
        let relative = strip_content_prefix(requested);
        let bytes = match self.content.get(&relative) {
            Some(b) => b.clone(),
            None => {
                return Err(
                    if clip_pack {
                        CsharpEngineServicesError::new(
                            "CSHARP_ANIMATION_CLIP_PACK_RESOURCE_UNKNOWN",
                            String::from_str("product content has no such animation clip-pack GLB"),
                        )
                    } else {
                        CsharpEngineServicesError::new(
                            "CSHARP_ANIMATION_RESOURCE_UNKNOWN",
                            String::from_str("product content has no such animated GLB"),
                        )
                    },
                );
            },
        };
        let browser = with_content_prefix(relative.as_str());
        Ok(
            GlbOpenOutcome::NeedsAdmission {
                browser_path: browser,
                relative_path: relative,
                requested_path: key,
                bytes,
            },
        )
    }

    /// The bodies of the dependencies `uris` of the GLB at content path
    /// `root` (relative, without `content/`), in order: each must be product
    /// content next to the GLB.
    pub fn glb_dependencies(&self, root: &str, uris: &Vec<String>) -> (r: Result<
        Vec<Vec<u8>>,
        CsharpEngineServicesError,
    >)
        requires
            self.wf(),
        ensures
            r is Ok <==> forall|i: int|
                0 <= i < uris@.len() ==> self.content_view().dom().contains(
                    #[trigger] dependency_path(root@, uris@[i]@),
                ),
            r matches Err(e) ==> e.code_view() == "CSHARP_ANIMATION_GLB_CLOSURE"@,
            r matches Ok(bodies) ==> bodies@.len() == uris@.len() && forall|i: int|
                0 <= i < uris@.len() ==> (#[trigger] bodies@[i])@ == self.content_view()[dependency_path(
                    root@,
                    uris@[i]@,
                )],
    {
        let n = uris.len();
        let mut bodies: Vec<Vec<u8>> = Vec::new();
        let mut i: usize = 0;
        while i < n
            invariant
                self.wf(),
                n == uris@.len(),
                i <= n,
                bodies@.len() == i,
                forall|k: int|
                    0 <= k < i ==> self.content_view().dom().contains(
                        #[trigger] dependency_path(root@, uris@[k]@),
                    ),
                forall|k: int|
                    0 <= k < i ==> (#[trigger] bodies@[k])@ == self.content_view()[dependency_path(
                        root@,
                        uris@[k]@,
                    )],
            decreases n - i,
        {
            let path = glb_dependency_path(root, uris[i].as_str());
            match self.content.get(&path) {
                Some(b) => {
                    bodies.push(b.clone());
                },
                None => {
                    return Err(
                        CsharpEngineServicesError::new(
                            "CSHARP_ANIMATION_GLB_CLOSURE",
                            String::from_str("an animated GLB dependency is missing from product content"),
                        ),
                    );
                },
            }
            i = i + 1;
        }
        Ok(bodies)
    }
}

impl ResourceSelection {
    /// The renderer asset and content hash of a selected texture that a
    /// billboard or particle sprite draws.
    pub fn presentation_texture(&self, handle: u64) -> (r: Result<
        (String, String),
        CsharpEngineServicesError,
    >)
        ensures
            ({
                let index = if handle == 0 { 0 } else { handle - 1 };
                let res = self.resources_view()[index];
                &&& r is Ok <==> index < self.resources_view().len() && res.kind
                    == CsharpRenderResourceKind::Texture
                &&& r matches Ok((asset, hash)) ==> asset@ == res.asset_identity && hash@
                    == res.content_hash
                &&& r matches Err(e) ==> e.code_view() == (if index >= self.resources_view().len() {
                    "CSHARP_RENDER_RESOURCE_HANDLE"@
                } else {
                    "CSHARP_PRESENTATION_TEXTURE"@
                })
            }),
    {
        let res = match self.resource(handle) {
            Ok(r) => r,
            Err(e) => return Err(e),
        };
        if res.kind() != CsharpRenderResourceKind::Texture {
            return Err(
                CsharpEngineServicesError::new(
                    "CSHARP_PRESENTATION_TEXTURE",
                    String::from_str(
                        "billboard and particle sprites require an admitted texture resource",
                    ),
                ),
            );
        }
        Ok((res.asset_identity().to_owned(), res.content_hash().to_owned()))
    }

    /// The identity and content hash of a selected WOFF2 font that an
    /// asset-font billboard uses.
    pub fn presentation_font(&self, handle: u64) -> (r: Result<
        (String, String),
        CsharpEngineServicesError,
    >)
        ensures
            ({
                let index = if handle == 0 { 0 } else { handle - 1 };
                let res = self.resources_view()[index];
                &&& r is Ok <==> index < self.resources_view().len() && res.kind
                    == CsharpRenderResourceKind::Font
                &&& r matches Ok((identity, hash)) ==> identity@ == res.identity && hash@
                    == res.content_hash
                &&& r matches Err(e) ==> e.code_view() == (if index >= self.resources_view().len() {
                    "CSHARP_RENDER_RESOURCE_HANDLE"@
                } else {
                    "CSHARP_PRESENTATION_FONT"@
                })
            }),
    {
        let res = match self.resource(handle) {
            Ok(r) => r,
            Err(e) => return Err(e),
        };
        if res.kind() != CsharpRenderResourceKind::Font {
            return Err(
                CsharpEngineServicesError::new(
                    "CSHARP_PRESENTATION_FONT",
                    String::from_str("asset billboard font requires an admitted WOFF2 font resource"),
                ),
            );
        }
        Ok((res.identity().to_owned(), res.content_hash().to_owned()))
    }
}

/// The content path of an engine-packed mesh resource with the given
/// digest text.
pub open spec fn engine_mesh_path(digest: Seq<char>) -> Seq<char> {
    "content/engine-mesh/"@ + digest + ".rmesh"@
}

/// The content path under which a mesh packed from a static mesh document
/// is selected: `content/engine-mesh/{digest}.rmesh`, for a packed resource
/// whose content hash is a `sha256:` hash.
pub fn packed_mesh_path(content_hash: &str) -> (r: Result<String, CsharpEngineServicesError>)
    ensures
        r is Ok <==> has_sha256_prefix(content_hash@),
        r matches Ok(p) ==> p@ == engine_mesh_path(content_hash@.subrange(7, content_hash@.len() as int)),
        r matches Err(e) ==> e.code_view() == "CSHARP_STATIC_MESH_PACK"@,
{
    match sha256_digest_of(content_hash) {
        None => Err(
            CsharpEngineServicesError::new(
                "CSHARP_STATIC_MESH_PACK",
                String::from_str("packed mesh resource had an invalid content hash"),
            ),
        ),
        Some(digest) => {
            let mut path = String::from_str("content/engine-mesh/");
            path.append(digest.as_str());
            path.append(".rmesh");
            proof {
                reveal_strlit("content/engine-mesh/");
                reveal_strlit(".rmesh");
            }
            Ok(path)
        },
    }
}

impl ResourceSelection {
    /// The body of the static mesh document a product names by path, with
    /// one leading `content/` removed: only before sealing, and only when
    /// product content holds it.
    pub fn static_mesh_document(&self, requested: &str) -> (r: Result<
        &Vec<u8>,
        CsharpEngineServicesError,
    >)
        requires
            self.wf(),
        ensures
            ({
                let rel = strip_content(requested@);
                &&& r is Ok <==> !self.sealed_view() && self.content_view().dom().contains(rel)
                &&& r matches Ok(b) ==> b@ == self.content_view()[rel]
                &&& r matches Err(e) ==> e.code_view() == (if self.sealed_view() {
                    "CSHARP_RENDER_RESOURCE_SELECTION_CLOSED"@
                } else {
                    "CSHARP_STATIC_MESH_CONTENT_UNKNOWN"@
                })
            }),
    {
        if self.sealed {
            return Err(
                CsharpEngineServicesError::new(
                    "CSHARP_RENDER_RESOURCE_SELECTION_CLOSED",
                    String::from_str("static mesh content was not selected during product Create"),
                ),
            );
        }
        let relative = strip_content_prefix(requested);
        match self.content.get(&relative) {
            Some(b) => Ok(b),
            None => Err(
                CsharpEngineServicesError::new(
                    "CSHARP_STATIC_MESH_CONTENT_UNKNOWN",
                    String::from_str("product content has no such static mesh document"),
                ),
            ),
        }
    }
}

/// The position of the first selected resource realizing renderer asset
/// `asset`, if any.
pub open spec fn first_asset_position(resources: Seq<RenderResourceView>, asset: Seq<char>) -> Option<
    int,
> {
    if exists|i: int| 0 <= i < resources.len() && resources[i].asset_identity == asset {
        Some(
            choose|i: int|
                0 <= i < resources.len() && resources[i].asset_identity == asset && forall|k: int|
                    0 <= k < i ==> resources[k].asset_identity != asset,
        )
    } else {
        None
    }
}

impl ResourceSelection {
    /// The handle of the texture a material draws, found as the first
    /// selected resource realizing the material's texture asset; it must be
    /// a texture.
    pub fn material_texture(&self, asset: &str) -> (r: Result<u64, CsharpEngineServicesError>)
        requires
            self.wf(),
        ensures
            ({
                let p = first_asset_position(self.resources_view(), asset@);
                &&& r is Ok <==> p is Some && self.resources_view()[p->0].kind
                    == CsharpRenderResourceKind::Texture
                &&& r matches Ok(h) ==> h == p->0 + 1
                &&& r matches Err(e) ==> e.code_view() == "CSHARP_MATERIAL_TEXTURE"@
            }),
    {
        let target = asset.to_owned();
        let n = self.resources.len();
        let mut i: usize = 0;
        while i < n
            invariant
                n == self.resources@.len(),
                n == self.resources_view().len(),
                target@ == asset@,
                i <= n,
                forall|k: int| 0 <= k < i ==> self.resources_view()[k].asset_identity != asset@,
            decreases n - i,
        {
            if self.resources[i].asset_identity().to_owned() == target {
                proof {
                    let p = choose|j: int|
                        0 <= j < self.resources_view().len() && self.resources_view()[j].asset_identity
                            == asset@ && forall|k: int|
                            0 <= k < j ==> self.resources_view()[k].asset_identity != asset@;
                    assert(self.resources_view()[i as int].asset_identity == asset@);
                    assert(p == i) by {
                        if p < i {
                            assert(self.resources_view()[p].asset_identity != asset@);
                        } else if p > i {
                            assert(self.resources_view()[i as int].asset_identity != asset@);
                        }
                    }
                }
                if self.resources[i].kind() == CsharpRenderResourceKind::Texture {
                    return Ok(i as u64 + 1);
                }
                return Err(
                    CsharpEngineServicesError::new(
                        "CSHARP_MATERIAL_TEXTURE",
                        String::from_str("material texture descriptor is not retained"),
                    ),
                );
            }
            i = i + 1;
        }
        Err(
            CsharpEngineServicesError::new(
                "CSHARP_MATERIAL_TEXTURE",
                String::from_str("material texture descriptor is not retained"),
            ),
        )
    }
}

/// The number of selected resources of kind `kind`.
pub open spec fn kind_count(resources: Seq<RenderResourceView>, kind: CsharpRenderResourceKind) -> nat
    decreases resources.len(),
{
    if resources.len() == 0 {
        0
    } else {
        kind_count(resources.drop_last(), kind) + if resources.last().kind == kind {
            1nat
        } else {
            0nat
        }
    }
}

/// A kind never counts more resources than are selected.
pub proof fn lemma_kind_count_bounded(resources: Seq<RenderResourceView>, kind: CsharpRenderResourceKind)
    ensures
        kind_count(resources, kind) <= resources.len(),
    decreases resources.len(),
{
    if resources.len() > 0 {
        lemma_kind_count_bounded(resources.drop_last(), kind);
    }
}

impl ResourceSelection {
    /// The number of selected resources of kind `kind`.
    pub fn count_kind(&self, kind: CsharpRenderResourceKind) -> (n: usize)
        ensures
            n == kind_count(self.resources_view(), kind),
    {
        let len = self.resources.len();
        let mut n: usize = 0;
        let mut i: usize = 0;
        while i < len
            invariant
                len == self.resources_view().len(),
                i <= len,
                n == kind_count(self.resources_view().subrange(0, i as int), kind),
            decreases len - i,
        {
            proof {
                let next = self.resources_view().subrange(0, i + 1);
                assert(next.drop_last() =~= self.resources_view().subrange(0, i as int));
                lemma_kind_count_bounded(self.resources_view().subrange(0, i as int), kind);
            }
            if self.resources[i].kind() == kind {
                n = n + 1;
            }
            i = i + 1;
        }
        assert(self.resources_view().subrange(0, len as int) =~= self.resources_view());
        n
    }
}

} // verus!
