//! The ownership ledger of the appearance service: which appearances,
//! materials, sprite atlases and sprite playbacks are live, under which
//! generated identities, and which of them hold on to which others.
//!
//! An appearance holds the materials bound to its mesh slots, an animated
//! mesh appearance its selected GLB, an atlas-backed sprite its atlas, and a
//! sprite playback both its sprite appearance and that appearance's atlas.
//! Nothing that is held can be disposed: a disposal that would break a link
//! is refused, and a disposal of a handle that is no longer live is a quiet
//! no-op, so replacement-first then disposal stays safe.
//!
//! The renderer descriptors themselves (textures, frame rectangles, colors)
//! are floating point or belong to the renderer model and live outside.

use crate::animation_graph::AnimationRegistry;
use crate::error::CsharpEngineServicesError;
use crate::mesh::{
    bind_mesh_materials, binding_refusal_code, binding_refused, embedded_view,
    strictly_increasing_handles,
    MeshMaterialBindings, NativeMaterialBinding,
};
use crate::resource::CsharpRenderResourceKind;
use crate::selection::{selected_resource, ResourceSelection};
use crate::table::HandleTable;
use crate::text::{append_decimal, decimal};
use vstd::prelude::*;
use vstd::string::StringExecFns;

verus! {

/// The largest number of frames a sprite atlas may define.
pub const MAX_SPRITE_ATLAS_FRAMES: usize = 4096;

/// A live sprite atlas: its generated sprite and texture assets and the
/// frame ids it defines.
#[derive(Debug)]
pub struct SpriteAtlas {
    pub asset: String,
    pub texture_asset: String,
    pub frame_ids: Vec<u32>,
}

/// The handle a new sprite atlas will get, with its generated assets.
#[derive(Debug)]
pub struct SpriteAtlasPlan {
    pub handle: u64,
    pub asset: String,
    pub texture_asset: String,
}

/// The sprite appearance a playback drives and that appearance's atlas.
#[derive(Debug, Clone, Copy, PartialEq, Eq, Structural)]
pub struct SpritePlaybackOwners {
    pub appearance: u64,
    pub atlas: u64,
}

/// The renderer identity of appearance `h`.
pub open spec fn appearance_id(h: u64) -> Seq<char> {
    "appearance/native-"@ + decimal(h as nat)
}

/// The renderer identity of material `h`.
pub open spec fn material_id(h: u64) -> Seq<char> {
    "material/csharp-"@ + decimal(h as nat)
}

/// The sprite asset of atlas `h`.
pub open spec fn atlas_asset(h: u64) -> Seq<char> {
    "sprite/atlas-"@ + decimal(h as nat)
}

/// The texture asset of atlas `h`.
pub open spec fn atlas_texture_asset(h: u64) -> Seq<char> {
    "texture/atlas-"@ + decimal(h as nat)
}

/// A copy of a handle list.
fn copy_handles(v: &Vec<u64>) -> (c: Vec<u64>)
    ensures
        c@ == v@,
{
    let mut c: Vec<u64> = Vec::new();
    let n = v.len();
    let mut i: usize = 0;
    while i < n
        invariant
            n == v@.len(),
            i <= n,
            c@ == v@.subrange(0, i as int),
        decreases n - i,
    {
        c.push(v[i]);
        i = i + 1;
        assert(c@ =~= v@.subrange(0, i as int));
    }
    assert(v@.subrange(0, n as int) =~= v@);
    c
}

/// A generated identity: `prefix` followed by the decimal text of `h`.
fn named(prefix: &str, h: u64) -> (s: String)
    ensures
        s@ == prefix@ + decimal(h as nat),
{
    let mut s = String::from_str(prefix);
    append_decimal(&mut s, h);
    s
}

/// Whether a snapshot retaining `retained` (object id to appearance)
/// shows appearance `appearance` on some object.
pub open spec fn shows_appearance(retained: Map<u64, u64>, appearance: u64) -> bool {
    exists|o: u64| retained.dom().contains(o) && retained[o] == appearance
}

/// The visual fact of one product object in a snapshot, as far as the
/// ledger reads it: which object shows which appearance.
#[derive(Debug, Clone, Copy, PartialEq, Eq, Structural)]
pub struct SnapshotFact {
    pub object_id: u64,
    pub appearance: u64,
}

/// The appearances a snapshot retains: each object id with the appearance
/// of its last fact.
pub open spec fn retained_of(facts: Seq<SnapshotFact>) -> Map<u64, u64>
    decreases facts.len(),
{
    if facts.len() == 0 {
        Map::empty()
    } else {
        retained_of(facts.drop_last()).insert(facts.last().object_id, facts.last().appearance)
    }
}

/// A staged snapshot: the renderer identity of each fact's appearance, in
/// fact order, and the appearances it retains by object id.
#[derive(Debug)]
pub struct SnapshotPlan {
    pub identities: Vec<String>,
    pub retained: HandleTable<u64>,
}

/// The appearance, material, sprite atlas and sprite playback ledger.
#[derive(Debug)]
pub struct AppearanceRegistry {
    appearances: HandleTable<String>,
    materials: HandleTable<String>,
    appearance_materials: HandleTable<Vec<u64>>,
    animated_appearances: HandleTable<u64>,
    atlases: HandleTable<SpriteAtlas>,
    sprite_atlases: HandleTable<u64>,
    playbacks: HandleTable<SpritePlaybackOwners>,
    next_appearance: u64,
    next_material: u64,
    next_atlas: u64,
    next_playback: u64,
}

impl AppearanceRegistry {
    /// Live appearances and their renderer identities.
    pub closed spec fn appearances_view(&self) -> Map<u64, String> {
        self.appearances@
    }

    /// Live materials and their renderer identities.
    pub closed spec fn materials_view(&self) -> Map<u64, String> {
        self.materials@
    }

    /// The material handles bound to each appearance's slots.
    pub closed spec fn bound_materials_view(&self) -> Map<u64, Vec<u64>> {
        self.appearance_materials@
    }

    /// The selected GLB resource of each animated mesh appearance.
    pub closed spec fn animated_view(&self) -> Map<u64, u64> {
        self.animated_appearances@
    }

    /// Live sprite atlases.
    pub closed spec fn atlases_view(&self) -> Map<u64, SpriteAtlas> {
        self.atlases@
    }

    /// The atlas of each atlas-backed sprite appearance.
    pub closed spec fn sprite_atlas_view(&self) -> Map<u64, u64> {
        self.sprite_atlases@
    }

    /// Live sprite playbacks and their owners.
    pub closed spec fn playbacks_view(&self) -> Map<u64, SpritePlaybackOwners> {
        self.playbacks@
    }

    /// The handles the next appearance, material, atlas and playback get.
    pub closed spec fn next_appearance_view(&self) -> u64 {
        self.next_appearance
    }

    pub closed spec fn next_material_view(&self) -> u64 {
        self.next_material
    }

    pub closed spec fn next_atlas_view(&self) -> u64 {
        self.next_atlas
    }

    pub closed spec fn next_playback_view(&self) -> u64 {
        self.next_playback
    }

    /// Whether some appearance holds material `m`.
    pub open spec fn material_in_use(&self, m: u64) -> bool {
        exists|a: u64| #[trigger]
            self.bound_materials_view().dom().contains(a) && self.bound_materials_view()[a]@.contains(
                m,
            )
    }

    /// Whether some sprite appearance is backed by atlas `atlas`.
    pub open spec fn atlas_backs_sprite(&self, atlas: u64) -> bool {
        exists|a: u64| #[trigger]
            self.sprite_atlas_view().dom().contains(a) && self.sprite_atlas_view()[a] == atlas
    }

    /// Whether some sprite playback plays over atlas `atlas`.
    pub open spec fn atlas_plays(&self, atlas: u64) -> bool {
        exists|p: u64| #[trigger]
            self.playbacks_view().dom().contains(p) && self.playbacks_view()[p].atlas == atlas
    }

    /// Whether some sprite playback drives appearance `appearance`.
    pub open spec fn appearance_plays(&self, appearance: u64) -> bool {
        exists|p: u64| #[trigger]
            self.playbacks_view().dom().contains(p) && self.playbacks_view()[p].appearance
                == appearance
    }

    /// Whether the ledger is consistent: tables are well formed and handles
    /// never reused; identities are the generated ones; and every link
    /// names live owners: an appearance's bound materials (increasing), its
    /// animated resource and its atlas belong to a live appearance, bound
    /// materials and sprite atlases are live, and a playback's appearance
    /// is an atlas-backed sprite over the playback's atlas.
    pub closed spec fn wf(&self) -> bool {
        &&& self.appearances.wf()
        &&& self.materials.wf()
        &&& self.appearance_materials.wf()
        &&& self.animated_appearances.wf()
        &&& self.atlases.wf()
        &&& self.sprite_atlases.wf()
        &&& self.playbacks.wf()
        &&& self.appearances.all_below(self.next_appearance)
        &&& self.materials.all_below(self.next_material)
        &&& self.atlases.all_below(self.next_atlas)
        &&& self.playbacks.all_below(self.next_playback)
        &&& 1 <= self.next_appearance && 1 <= self.next_material && 1 <= self.next_atlas && 1
            <= self.next_playback
        &&& forall|h: u64| #[trigger]
            self.appearances@.dom().contains(h) ==> self.appearances@[h]@ == appearance_id(h)
        &&& forall|h: u64| #[trigger]
            self.materials@.dom().contains(h) ==> self.materials@[h]@ == material_id(h)
        &&& forall|h: u64| #[trigger]
            self.atlases@.dom().contains(h) ==> self.atlases@[h].asset@ == atlas_asset(h)
                && self.atlases@[h].texture_asset@ == atlas_texture_asset(h)
        &&& forall|a: u64| #[trigger]
            self.appearance_materials@.dom().contains(a) ==> self.appearances@.dom().contains(a)
                && strictly_increasing_handles(self.appearance_materials@[a]@) && (forall|m: u64|
                self.appearance_materials@[a]@.contains(m) ==> #[trigger] self.materials@.dom().contains(m))
        &&& forall|a: u64| #[trigger]
            self.animated_appearances@.dom().contains(a) ==> self.appearances@.dom().contains(a)
        &&& forall|a: u64| #[trigger]
            self.sprite_atlases@.dom().contains(a) ==> self.appearances@.dom().contains(a)
                && self.atlases@.dom().contains(self.sprite_atlases@[a])
        &&& forall|p: u64| #[trigger]
            self.playbacks@.dom().contains(p) ==> self.sprite_atlases@.dom().contains(
                self.playbacks@[p].appearance,
            ) && self.sprite_atlases@[self.playbacks@[p].appearance] == self.playbacks@[p].atlas
    }

    /// An empty ledger whose handles start at one.
    pub fn new() -> (r: Self)
        ensures
            r.wf(),
            r.appearances_view() == Map::<u64, String>::empty(),
            r.materials_view() == Map::<u64, String>::empty(),
            r.bound_materials_view() == Map::<u64, Vec<u64>>::empty(),
            r.animated_view() == Map::<u64, u64>::empty(),
            r.atlases_view() == Map::<u64, SpriteAtlas>::empty(),
            r.sprite_atlas_view() == Map::<u64, u64>::empty(),
            r.playbacks_view() == Map::<u64, SpritePlaybackOwners>::empty(),
            r.next_appearance_view() == 1,
            r.next_material_view() == 1,
            r.next_atlas_view() == 1,
            r.next_playback_view() == 1,
    {
        AppearanceRegistry {
            appearances: HandleTable::new(),
            materials: HandleTable::new(),
            appearance_materials: HandleTable::new(),
            animated_appearances: HandleTable::new(),
            atlases: HandleTable::new(),
            sprite_atlases: HandleTable::new(),
            playbacks: HandleTable::new(),
            next_appearance: 1,
            next_material: 1,
            next_atlas: 1,
            next_playback: 1,
        }
    }

    /// Allocates the next appearance handle and its renderer identity
    /// `appearance/native-{handle}`.
    pub fn allocate_appearance(&mut self) -> (r: Result<(u64, String), CsharpEngineServicesError>)
        requires
            old(self).wf(),
        ensures
            final(self).wf(),
            r is Err ==> *final(self) == *old(self),
            r is Err <==> old(self).next_appearance_view() == u64::MAX,
            r matches Err(e) ==> e.code_view() == "CSHARP_APPEARANCE_HANDLE"@,
            r matches Ok((h, id)) ==> {
                &&& h == old(self).next_appearance_view()
                &&& id@ == appearance_id(h)
                &&& !old(self).appearances_view().dom().contains(h)
                &&& final(self).appearances_view() == old(self).appearances_view().insert(h, id)
                &&& final(self).next_appearance_view() == h + 1
                &&& final(self).same_links(old(self))
                &&& final(self).materials_view() == old(self).materials_view()
                &&& final(self).atlases_view() == old(self).atlases_view()
                &&& final(self).next_material_view() == old(self).next_material_view()
                &&& final(self).next_atlas_view() == old(self).next_atlas_view()
                &&& final(self).next_playback_view() == old(self).next_playback_view()
            },
    {
        let h = self.next_appearance;
        if h == u64::MAX {
            return Err(
                CsharpEngineServicesError::new(
                    "CSHARP_APPEARANCE_HANDLE",
                    String::from_str("appearance handle overflow"),
                ),
            );
        }
        proof {
            reveal_strlit("appearance/native-");
        }
        let id = named("appearance/native-", h);
        let ghost before = *self;
        self.next_appearance = h + 1;
        self.appearances.insert_new(h, id.clone());
        proof {
            assert forall|k: u64| #[trigger]
                self.appearances@.dom().contains(k) implies self.appearances@[k]@ == appearance_id(
                k,
            ) by {
                if k != h {
                    assert(before.appearances@.dom().contains(k));
                }
            }
        }
        Ok((h, id))
    }

    /// Sprite atlas links, playbacks, bound materials and animated
    /// resources are unchanged.
    pub open spec fn same_links(&self, other: &Self) -> bool {
        &&& self.bound_materials_view() == other.bound_materials_view()
        &&& self.animated_view() == other.animated_view()
        &&& self.sprite_atlas_view() == other.sprite_atlas_view()
        &&& self.playbacks_view() == other.playbacks_view()
    }

    /// Checks that an appearance is live.
    pub fn ensure_live_appearance(&self, appearance: u64) -> (r: Result<(), CsharpEngineServicesError>)
        requires
            self.wf(),
        ensures
            r is Ok <==> self.appearances_view().dom().contains(appearance),
            r matches Err(e) ==> e.code_view() == "CSHARP_APPEARANCE_HANDLE"@,
    {
        if self.appearances.contains(appearance) {
            Ok(())
        } else {
            Err(
                CsharpEngineServicesError::new(
                    "CSHARP_APPEARANCE_HANDLE",
                    String::from_str("appearance is not live"),
                ),
            )
        }
    }

    /// The live materials and their identities.
    pub fn materials(&self) -> (t: &HandleTable<String>)
        requires
            self.wf(),
        ensures
            t.wf(),
            t@ == self.materials_view(),
    {
        &self.materials
    }

    /// The identity of a live material, for an update of its descriptor.
    pub fn material_identity(&self, material: u64) -> (r: Result<String, CsharpEngineServicesError>)
        requires
            self.wf(),
        ensures
            r is Ok <==> self.materials_view().dom().contains(material),
            r matches Ok(id) ==> id == self.materials_view()[material],
            r matches Err(e) ==> e.code_view() == "CSHARP_MATERIAL_HANDLE"@,
    {
        match self.materials.get(material) {
            Some(id) => Ok(id.clone()),
            None => Err(
                CsharpEngineServicesError::new(
                    "CSHARP_MATERIAL_HANDLE",
                    String::from_str("material handle is not live"),
                ),
            ),
        }
    }

    /// The identity of a live material that a voxel-object presentation
    /// draws with.
    pub fn voxel_material_identity(&self, material: u64) -> (r: Result<
        String,
        CsharpEngineServicesError,
    >)
        requires
            self.wf(),
        ensures
            r is Ok <==> self.materials_view().dom().contains(material),
            r matches Ok(id) ==> id == self.materials_view()[material],
            r matches Err(e) ==> e.code_view() == "CSHARP_VOXEL_PRESENTATION_MATERIAL"@,
    {
        match self.materials.get(material) {
            Some(id) => Ok(id.clone()),
            None => Err(
                CsharpEngineServicesError::new(
                    "CSHARP_VOXEL_PRESENTATION_MATERIAL",
                    String::from_str("voxel-object material handle is not live"),
                ),
            ),
        }
    }

    /// The identity `material/csharp-{handle}` the next material gets.
    pub fn next_material_id(&self) -> (r: Result<String, CsharpEngineServicesError>)
        requires
            self.wf(),
        ensures
            r is Err <==> self.next_material_view() == u64::MAX,
            r matches Err(e) ==> e.code_view() == "CSHARP_MATERIAL_HANDLE"@,
            r matches Ok(id) ==> id@ == material_id(self.next_material_view()),
    {
        if self.next_material == u64::MAX {
            return Err(
                CsharpEngineServicesError::new(
                    "CSHARP_MATERIAL_HANDLE",
                    String::from_str("material handle overflow"),
                ),
            );
        }
        proof {
            reveal_strlit("material/csharp-");
        }
        Ok(named("material/csharp-", self.next_material))
    }

    /// Adds the next material under its generated identity, once its
    /// renderer descriptor was built.
    pub fn insert_material(&mut self) -> (h: u64)
        requires
            old(self).wf(),
            old(self).next_material_view() < u64::MAX,
        ensures
            final(self).wf(),
            h == old(self).next_material_view(),
            !old(self).materials_view().dom().contains(h),
            final(self).materials_view().dom() == old(self).materials_view().dom().insert(h),
            final(self).materials_view()[h]@ == material_id(h),
            forall|m: u64| #[trigger]
                old(self).materials_view().dom().contains(m) ==> final(self).materials_view()[m]
                    == old(self).materials_view()[m],
            final(self).next_material_view() == h + 1,
            final(self).appearances_view() == old(self).appearances_view(),
            final(self).atlases_view() == old(self).atlases_view(),
            final(self).same_links(old(self)),
            final(self).next_appearance_view() == old(self).next_appearance_view(),
            final(self).next_atlas_view() == old(self).next_atlas_view(),
            final(self).next_playback_view() == old(self).next_playback_view(),
    {
        let h = self.next_material;
        proof {
            reveal_strlit("material/csharp-");
        }
        let id = named("material/csharp-", h);
        let ghost before = *self;
        self.next_material = h + 1;
        self.materials.insert_new(h, id);
        proof {
            assert forall|k: u64| #[trigger]
                self.materials@.dom().contains(k) implies self.materials@[k]@ == material_id(k) by {
                if k != h {
                    assert(before.materials@.dom().contains(k));
                }
            }
            assert forall|a: u64| #[trigger]
                self.appearance_materials@.dom().contains(a) implies self.appearances@.dom().contains(a)
                && strictly_increasing_handles(self.appearance_materials@[a]@) && (forall|m: u64|
                self.appearance_materials@[a]@.contains(m) ==> #[trigger] self.materials@.dom().contains(
                    m,
                )) by {
                assert(before.appearance_materials@.dom().contains(a));
            }
        }
        h
    }

    fn material_bound(&self, m: u64) -> (b: bool)
        requires
            self.wf(),
        ensures
            b == self.material_in_use(m),
    {
        let n = self.appearance_materials.len();
        let mut i: usize = 0;
        while i < n
            invariant
                self.appearance_materials.wf(),
                n == self.appearance_materials.keys_seq().len(),
                i <= n,
                forall|j: int|
                    0 <= j < i ==> !(#[trigger] self.appearance_materials.vals_seq()[j])@.contains(m),
            decreases n - i,
        {
            let handles = self.appearance_materials.value_at(i);
            let k = handles.len();
            let mut q: usize = 0;
            while q < k
                invariant
                    self.appearance_materials.wf(),
                    n == self.appearance_materials.keys_seq().len(),
                    i < n,
                    *handles == self.appearance_materials.vals_seq()[i as int],
                    k == handles@.len(),
                    q <= k,
                    forall|r: int| 0 <= r < q ==> handles@[r] != m,
                decreases k - q,
            {
                if handles[q] == m {
                    proof {
                        self.appearance_materials.lemma_entry(i as int);
                        let a = self.appearance_materials.keys_seq()[i as int];
                        assert(handles@.contains(m));
                        assert(self.bound_materials_view().dom().contains(a));
                    }
                    return true;
                }
                q = q + 1;
            }
            assert(!handles@.contains(m));
            i = i + 1;
        }
        proof {
            assert forall|a: u64| #[trigger]
                self.bound_materials_view().dom().contains(a) implies !self.bound_materials_view()[a]@.contains(
                m,
            ) by {
                let j = self.appearance_materials.lemma_key(a);
                assert(!self.appearance_materials.vals_seq()[j]@.contains(m));
            }
        }
        false
    }

    /// Disposes a material: one that is no longer live is ignored (its
    /// handle is a tombstone of a replacement), one bound to an appearance
    /// is refused. Hands back the identity of a disposed material.
    pub fn destroy_material(&mut self, material: u64) -> (r: Result<
        Option<String>,
        CsharpEngineServicesError,
    >)
        requires
            old(self).wf(),
        ensures
            final(self).wf(),
            r is Err ==> *final(self) == *old(self),
            r is Err <==> old(self).materials_view().dom().contains(material) && old(
                self,
            ).material_in_use(material),
            r matches Err(e) ==> e.code_view() == "CSHARP_MATERIAL_IN_USE"@,
            r matches Ok(None) ==> !old(self).materials_view().dom().contains(material)
                && *final(self) == *old(self),
            r matches Ok(Some(id)) ==> {
                &&& old(self).materials_view().dom().contains(material)
                &&& id == old(self).materials_view()[material]
                &&& final(self).materials_view() == old(self).materials_view().remove(material)
                &&& final(self).appearances_view() == old(self).appearances_view()
                &&& final(self).atlases_view() == old(self).atlases_view()
                &&& final(self).same_links(old(self))
                &&& final(self).next_appearance_view() == old(self).next_appearance_view()
                &&& final(self).next_material_view() == old(self).next_material_view()
                &&& final(self).next_atlas_view() == old(self).next_atlas_view()
                &&& final(self).next_playback_view() == old(self).next_playback_view()
            },
    {
        if !self.materials.contains(material) {
            return Ok(None);
        }
        if self.material_bound(material) {
            return Err(
                CsharpEngineServicesError::new(
                    "CSHARP_MATERIAL_IN_USE",
                    String::from_str(
                        "dispose appearances using this material before disposing the material",
                    ),
                ),
            );
        }
        let ghost before = *self;
        let id = self.materials.remove(material).unwrap();
        proof {
            assert forall|k: u64| #[trigger]
                self.materials@.dom().contains(k) implies self.materials@[k]@ == material_id(k) by {
                assert(before.materials@.dom().contains(k));
            }
            assert forall|a: u64| #[trigger]
                self.appearance_materials@.dom().contains(a) implies self.appearances@.dom().contains(a)
                && strictly_increasing_handles(self.appearance_materials@[a]@) && (forall|m: u64|
                self.appearance_materials@[a]@.contains(m) ==> #[trigger] self.materials@.dom().contains(
                    m,
                )) by {
                assert(before.appearance_materials@.dom().contains(a));
                assert forall|m: u64|
                    self.appearance_materials@[a]@.contains(m) implies #[trigger] self.materials@.dom().contains(
                    m,
                ) by {
                    assert(before.materials@.dom().contains(m));
                    if m == material {
                        assert(before.bound_materials_view().dom().contains(a));
                    }
                }
            }
        }
        Ok(Some(id))
    }

    /// Binds the material handles of an appearance's slots, replacing any
    /// earlier binding.
    pub fn set_appearance_materials(&mut self, appearance: u64, handles: Vec<u64>)
        requires
            old(self).wf(),
            old(self).appearances_view().dom().contains(appearance),
            strictly_increasing_handles(handles@),
            forall|m: u64| handles@.contains(m) ==> #[trigger] old(self).materials_view().dom().contains(m),
        ensures
            final(self).wf(),
            final(self).bound_materials_view() == old(self).bound_materials_view().insert(
                appearance,
                handles,
            ),
            final(self).appearances_view() == old(self).appearances_view(),
            final(self).materials_view() == old(self).materials_view(),
            final(self).atlases_view() == old(self).atlases_view(),
            final(self).animated_view() == old(self).animated_view(),
            final(self).sprite_atlas_view() == old(self).sprite_atlas_view(),
            final(self).playbacks_view() == old(self).playbacks_view(),
            final(self).same_counters(old(self)),
    {
        let ghost before = *self;
        let ghost hs = handles@;
        self.appearance_materials.insert(appearance, handles);
        proof {
            assert forall|a: u64| #[trigger]
                self.appearance_materials@.dom().contains(a) implies self.appearances@.dom().contains(a)
                && strictly_increasing_handles(self.appearance_materials@[a]@) && (forall|m: u64|
                self.appearance_materials@[a]@.contains(m) ==> #[trigger] self.materials@.dom().contains(
                    m,
                )) by {
                if a != appearance {
                    assert(before.appearance_materials@.dom().contains(a));
                } else {
                    assert(self.appearance_materials@[a]@ == hs);
                    assert forall|m: u64| self.appearance_materials@[a]@.contains(m) implies #[trigger] self.materials@.dom().contains(m) by {
                        assert(hs.contains(m));
                        assert(before.materials_view().dom().contains(m));
                    }
                }
            }
        }
    }

    /// All four handle counters are unchanged.
    pub open spec fn same_counters(&self, other: &Self) -> bool {
        &&& self.next_appearance_view() == other.next_appearance_view()
        &&& self.next_material_view() == other.next_material_view()
        &&& self.next_atlas_view() == other.next_atlas_view()
        &&& self.next_playback_view() == other.next_playback_view()
    }

    /// Records the selected GLB resource of an animated mesh appearance.
    pub fn record_animated_appearance(&mut self, appearance: u64, resource: u64)
        requires
            old(self).wf(),
            old(self).appearances_view().dom().contains(appearance),
        ensures
            final(self).wf(),
            final(self).animated_view() == old(self).animated_view().insert(appearance, resource),
            final(self).appearances_view() == old(self).appearances_view(),
            final(self).materials_view() == old(self).materials_view(),
            final(self).atlases_view() == old(self).atlases_view(),
            final(self).bound_materials_view() == old(self).bound_materials_view(),
            final(self).sprite_atlas_view() == old(self).sprite_atlas_view(),
            final(self).playbacks_view() == old(self).playbacks_view(),
            final(self).same_counters(old(self)),
    {
        let ghost before = *self;
        self.animated_appearances.insert(appearance, resource);
        proof {
            assert forall|a: u64| #[trigger]
                self.animated_appearances@.dom().contains(a) implies self.appearances@.dom().contains(
                a,
            ) by {
                if a != appearance {
                    assert(before.animated_appearances@.dom().contains(a));
                }
            }
        }
    }

    /// The selected GLB resource of an animated mesh appearance, if it is
    /// one.
    pub fn animated_resource(&self, appearance: u64) -> (r: Option<u64>)
        requires
            self.wf(),
        ensures
            r == (if self.animated_view().dom().contains(appearance) {
                Some(self.animated_view()[appearance])
            } else {
                None
            }),
    {
        match self.animated_appearances.get(appearance) {
            Some(r) => Some(*r),
            None => None,
        }
    }

    /// The resource handles used by live animated mesh appearances.
    pub fn animated_resources(&self) -> (v: Vec<u64>)
        requires
            self.wf(),
        ensures
            forall|x: u64|
                v@.contains(x) <==> exists|a: u64| #[trigger]
                    self.animated_view().dom().contains(a) && self.animated_view()[a] == x,
    {
        let n = self.animated_appearances.len();
        let mut v: Vec<u64> = Vec::new();
        let mut i: usize = 0;
        while i < n
            invariant
                self.animated_appearances.wf(),
                n == self.animated_appearances.keys_seq().len(),
                n == self.animated_appearances.vals_seq().len(),
                i <= n,
                v@ == self.animated_appearances.vals_seq().subrange(0, i as int),
            decreases n - i,
        {
            v.push(*self.animated_appearances.value_at(i));
            proof {
                assert(v@ =~= self.animated_appearances.vals_seq().subrange(0, i + 1));
            }
            i = i + 1;
        }
        proof {
            assert(v@ =~= self.animated_appearances.vals_seq());
            assert forall|x: u64| v@.contains(x) <==> exists|a: u64| #[trigger]
                self.animated_view().dom().contains(a) && self.animated_view()[a] == x by {
                if v@.contains(x) {
                    let j = choose|j: int| 0 <= j < v@.len() && v@[j] == x;
                    self.animated_appearances.lemma_entry(j);
                    let a = self.animated_appearances.keys_seq()[j];
                    assert(self.animated_view().dom().contains(a) && self.animated_view()[a] == x);
                }
                if exists|a: u64| #[trigger]
                    self.animated_view().dom().contains(a) && self.animated_view()[a] == x {
                    let a = choose|a: u64| #[trigger]
                        self.animated_view().dom().contains(a) && self.animated_view()[a] == x;
                    let j = self.animated_appearances.lemma_key(a);
                    assert(v@[j] == x);
                }
            }
        }
        v
    }
}

/// Whether a frame id list holds `frame`.
fn has_frame(frames: &Vec<u32>, frame: u32) -> (b: bool)
    ensures
        b == frames@.contains(frame),
{
    let n = frames.len();
    let mut i: usize = 0;
    while i < n
        invariant
            n == frames@.len(),
            i <= n,
            forall|k: int| 0 <= k < i ==> frames@[k] != frame,
        decreases n - i,
    {
        if frames[i] == frame {
            return true;
        }
        i = i + 1;
    }
    false
}

fn atlas_handle_error() -> (e: CsharpEngineServicesError)
    ensures
        e.code_view() == "CSHARP_SPRITE_ATLAS_HANDLE"@,
{
    CsharpEngineServicesError::new(
        "CSHARP_SPRITE_ATLAS_HANDLE",
        String::from_str("sprite atlas is not live"),
    )
}

fn atlas_frame_error() -> (e: CsharpEngineServicesError)
    ensures
        e.code_view() == "CSHARP_SPRITE_ATLAS_FRAME"@,
{
    CsharpEngineServicesError::new(
        "CSHARP_SPRITE_ATLAS_FRAME",
        String::from_str("sprite frame is not defined by the atlas"),
    )
}

fn atlas_appearance_error() -> (e: CsharpEngineServicesError)
    ensures
        e.code_view() == "CSHARP_SPRITE_ATLAS_APPEARANCE"@,
{
    CsharpEngineServicesError::new(
        "CSHARP_SPRITE_ATLAS_APPEARANCE",
        String::from_str("appearance is not an atlas-backed sprite"),
    )
}

/// The error code under which an atlas of `frame_count` frames over the
/// selected `texture` (or `None` where the handle selects nothing) is
/// refused, if any.
pub open spec fn atlas_refusal(
    frame_count: usize,
    texture_handle: u64,
    texture: Option<crate::resource::RenderResourceView>,
) -> Option<Seq<char>> {
    if frame_count == 0 || frame_count > MAX_SPRITE_ATLAS_FRAMES {
        Some("CSHARP_SPRITE_ATLAS_FRAMES"@)
    } else if texture_handle == 0 || texture is None {
        Some("CSHARP_RENDER_RESOURCE_HANDLE"@)
    } else if texture->0.kind != CsharpRenderResourceKind::Texture {
        Some("CSHARP_SPRITE_ATLAS_RESOURCE"@)
    } else {
        None
    }
}

impl AppearanceRegistry {
    /// The handle and assets a sprite atlas of `frame_count` frames over the
    /// selected texture `texture` will get: between one and 4096 frames
    /// over a nonzero texture handle are required.
    pub fn plan_atlas(&self, selection: &ResourceSelection, texture: u64, frame_count: usize) -> (r:
        Result<SpriteAtlasPlan, CsharpEngineServicesError>)
        requires
            self.wf(),
        ensures
            ({
                let refusal = atlas_refusal(
                    frame_count,
                    texture,
                    selected_resource(selection.resources_view(), texture),
                );
                &&& r is Ok <==> refusal is None
                &&& r matches Err(e) ==> refusal == Some(e.code_view())
                &&& r matches Ok(p) ==> p.handle == self.next_atlas_view() && p.asset@ == atlas_asset(
                    p.handle,
                ) && p.texture_asset@ == atlas_texture_asset(p.handle)
            }),
    {
        if frame_count == 0 || frame_count > MAX_SPRITE_ATLAS_FRAMES {
            return Err(
                CsharpEngineServicesError::new(
                    "CSHARP_SPRITE_ATLAS_FRAMES",
                    String::from_str("sprite atlas must contain between one and 4096 frames"),
                ),
            );
        }
        if texture == 0 {
            return Err(
                CsharpEngineServicesError::new(
                    "CSHARP_RENDER_RESOURCE_HANDLE",
                    String::from_str("invalid resource handle"),
                ),
            );
        }
        let res = match selection.resource(texture) {
            Ok(res) => res,
            Err(e) => return Err(e),
        };
        if res.kind() != CsharpRenderResourceKind::Texture {
            return Err(
                CsharpEngineServicesError::new(
                    "CSHARP_SPRITE_ATLAS_RESOURCE",
                    String::from_str("sprite atlas requires a texture resource"),
                ),
            );
        }
        proof {
            reveal_strlit("sprite/atlas-");
            reveal_strlit("texture/atlas-");
        }
        let h = self.next_atlas;
        Ok(
            SpriteAtlasPlan {
                handle: h,
                asset: named("sprite/atlas-", h),
                texture_asset: named("texture/atlas-", h),
            },
        )
    }

    /// Adds the next sprite atlas, defining `frame_ids`, once its texture
    /// and frames were admitted.
    pub fn insert_atlas(&mut self, frame_ids: Vec<u32>) -> (r: Result<u64, CsharpEngineServicesError>)
        requires
            old(self).wf(),
        ensures
            final(self).wf(),
            r is Err ==> *final(self) == *old(self),
            r is Err <==> old(self).next_atlas_view() == u64::MAX,
            r matches Err(e) ==> e.code_view() == "CSHARP_SPRITE_ATLAS_HANDLE"@,
            r matches Ok(h) ==> {
                &&& h == old(self).next_atlas_view()
                &&& !old(self).atlases_view().dom().contains(h)
                &&& final(self).atlases_view().dom() == old(self).atlases_view().dom().insert(h)
                &&& final(self).atlases_view()[h].asset@ == atlas_asset(h)
                &&& final(self).atlases_view()[h].texture_asset@ == atlas_texture_asset(h)
                &&& final(self).atlases_view()[h].frame_ids@ == frame_ids@
                &&& forall|a: u64| #[trigger]
                    old(self).atlases_view().dom().contains(a) ==> final(self).atlases_view()[a]
                        == old(self).atlases_view()[a]
                &&& final(self).next_atlas_view() == h + 1
                &&& final(self).appearances_view() == old(self).appearances_view()
                &&& final(self).materials_view() == old(self).materials_view()
                &&& final(self).same_links(old(self))
                &&& final(self).next_appearance_view() == old(self).next_appearance_view()
                &&& final(self).next_material_view() == old(self).next_material_view()
                &&& final(self).next_playback_view() == old(self).next_playback_view()
            },
    {
        let h = self.next_atlas;
        if h == u64::MAX {
            return Err(
                CsharpEngineServicesError::new(
                    "CSHARP_SPRITE_ATLAS_HANDLE",
                    String::from_str("sprite atlas handle overflow"),
                ),
            );
        }
        proof {
            reveal_strlit("sprite/atlas-");
            reveal_strlit("texture/atlas-");
        }
        let atlas = SpriteAtlas {
            asset: named("sprite/atlas-", h),
            texture_asset: named("texture/atlas-", h),
            frame_ids,
        };
        let ghost before = *self;
        self.next_atlas = h + 1;
        self.atlases.insert_new(h, atlas);
        proof {
            assert forall|k: u64| #[trigger]
                self.atlases@.dom().contains(k) implies self.atlases@[k].asset@ == atlas_asset(k)
                && self.atlases@[k].texture_asset@ == atlas_texture_asset(k) by {
                if k != h {
                    assert(before.atlases@.dom().contains(k));
                }
            }
            assert forall|a: u64| #[trigger]
                self.sprite_atlases@.dom().contains(a) implies self.appearances@.dom().contains(a)
                && self.atlases@.dom().contains(self.sprite_atlases@[a]) by {
                assert(before.sprite_atlases@.dom().contains(a));
            }
        }
        Ok(h)
    }

    fn playback_over_atlas(&self, atlas: u64) -> (b: bool)
        requires
            self.wf(),
        ensures
            b == self.atlas_plays(atlas),
    {
        let n = self.playbacks.len();
        let mut i: usize = 0;
        while i < n
            invariant
                self.playbacks.wf(),
                n == self.playbacks.keys_seq().len(),
                i <= n,
                forall|j: int| 0 <= j < i ==> (#[trigger] self.playbacks.vals_seq()[j]).atlas != atlas,
            decreases n - i,
        {
            if self.playbacks.value_at(i).atlas == atlas {
                proof {
                    self.playbacks.lemma_entry(i as int);
                    assert(self.playbacks_view().dom().contains(self.playbacks.keys_seq()[i as int]));
                }
                return true;
            }
            i = i + 1;
        }
        proof {
            assert forall|p: u64| #[trigger]
                self.playbacks_view().dom().contains(p) implies self.playbacks_view()[p].atlas != atlas by {
                let j = self.playbacks.lemma_key(p);
                assert(self.playbacks.vals_seq()[j].atlas != atlas);
            }
        }
        false
    }

    fn playback_on_appearance(&self, appearance: u64) -> (b: bool)
        requires
            self.wf(),
        ensures
            b == self.appearance_plays(appearance),
    {
        let n = self.playbacks.len();
        let mut i: usize = 0;
        while i < n
            invariant
                self.playbacks.wf(),
                n == self.playbacks.keys_seq().len(),
                i <= n,
                forall|j: int| 0 <= j < i ==> (#[trigger] self.playbacks.vals_seq()[j]).appearance
                    != appearance,
            decreases n - i,
        {
            if self.playbacks.value_at(i).appearance == appearance {
                proof {
                    self.playbacks.lemma_entry(i as int);
                    assert(self.playbacks_view().dom().contains(self.playbacks.keys_seq()[i as int]));
                }
                return true;
            }
            i = i + 1;
        }
        proof {
            assert forall|p: u64| #[trigger]
                self.playbacks_view().dom().contains(p) implies self.playbacks_view()[p].appearance
                != appearance by {
                let j = self.playbacks.lemma_key(p);
                assert(self.playbacks.vals_seq()[j].appearance != appearance);
            }
        }
        false
    }

    /// The sprite asset of a live atlas that defines frame `frame`.
    pub fn atlas_frame(&self, atlas: u64, frame: u32) -> (r: Result<String, CsharpEngineServicesError>)
        requires
            self.wf(),
        ensures
            r is Ok <==> self.atlases_view().dom().contains(atlas)
                && self.atlases_view()[atlas].frame_ids@.contains(frame),
            r matches Err(e) ==> e.code_view() == (if !self.atlases_view().dom().contains(atlas) {
                "CSHARP_SPRITE_ATLAS_HANDLE"@
            } else {
                "CSHARP_SPRITE_ATLAS_FRAME"@
            }),
            r matches Ok(asset) ==> asset@ == atlas_asset(atlas),
    {
        match self.atlases.get(atlas) {
            None => Err(atlas_handle_error()),
            Some(a) => if has_frame(&a.frame_ids, frame) {
                proof {
                    assert(self.atlases@.dom().contains(atlas));
                }
                Ok(a.asset.clone())
            } else {
                Err(atlas_frame_error())
            },
        }
    }

    /// Links a freshly allocated sprite appearance to its live atlas.
    pub fn bind_sprite_appearance(&mut self, appearance: u64, atlas: u64)
        requires
            old(self).wf(),
            old(self).appearances_view().dom().contains(appearance),
            !old(self).sprite_atlas_view().dom().contains(appearance),
            old(self).atlases_view().dom().contains(atlas),
        ensures
            final(self).wf(),
            final(self).sprite_atlas_view() == old(self).sprite_atlas_view().insert(appearance, atlas),
            final(self).appearances_view() == old(self).appearances_view(),
            final(self).materials_view() == old(self).materials_view(),
            final(self).atlases_view() == old(self).atlases_view(),
            final(self).bound_materials_view() == old(self).bound_materials_view(),
            final(self).animated_view() == old(self).animated_view(),
            final(self).playbacks_view() == old(self).playbacks_view(),
            final(self).same_counters(old(self)),
    {
        let ghost before = *self;
        self.sprite_atlases.insert(appearance, atlas);
        proof {
            assert forall|a: u64| #[trigger]
                self.sprite_atlases@.dom().contains(a) implies self.appearances@.dom().contains(a)
                && self.atlases@.dom().contains(self.sprite_atlases@[a]) by {
                if a != appearance {
                    assert(before.sprite_atlases@.dom().contains(a));
                }
            }
            assert forall|p: u64| #[trigger]
                self.playbacks@.dom().contains(p) implies self.sprite_atlases@.dom().contains(
                self.playbacks@[p].appearance,
            ) && self.sprite_atlases@[self.playbacks@[p].appearance] == self.playbacks@[p].atlas by {
                assert(before.playbacks@.dom().contains(p));
            }
        }
    }

    /// The atlas behind an atlas-backed sprite appearance.
    pub fn sprite_atlas_of(&self, appearance: u64) -> (r: Result<u64, CsharpEngineServicesError>)
        requires
            self.wf(),
        ensures
            r is Ok <==> self.sprite_atlas_view().dom().contains(appearance),
            r matches Err(e) ==> e.code_view() == "CSHARP_SPRITE_ATLAS_APPEARANCE"@,
            r matches Ok(atlas) ==> atlas == self.sprite_atlas_view()[appearance]
                && self.atlases_view().dom().contains(atlas),
    {
        match self.sprite_atlases.get(appearance) {
            None => Err(atlas_appearance_error()),
            Some(a) => {
                proof {
                    assert(self.sprite_atlases@.dom().contains(appearance));
                }
                Ok(*a)
            },
        }
    }

    /// Disposes a sprite atlas that no sprite appearance or playback uses,
    /// handing it back so its renderer assets can be released.
    pub fn destroy_atlas(&mut self, atlas: u64) -> (r: Result<SpriteAtlas, CsharpEngineServicesError>)
        requires
            old(self).wf(),
        ensures
            final(self).wf(),
            r is Err ==> *final(self) == *old(self),
            r is Ok <==> old(self).atlases_view().dom().contains(atlas) && !old(
                self,
            ).atlas_backs_sprite(atlas) && !old(self).atlas_plays(atlas),
            r matches Err(e) ==> e.code_view() == (if !old(self).atlases_view().dom().contains(
                atlas,
            ) {
                "CSHARP_SPRITE_ATLAS_HANDLE"@
            } else if old(self).atlas_backs_sprite(atlas) {
                "CSHARP_SPRITE_ATLAS_IN_USE"@
            } else {
                "CSHARP_SPRITE_PLAYBACK_ATLAS_IN_USE"@
            }),
            r matches Ok(a) ==> {
                &&& a == old(self).atlases_view()[atlas]
                &&& final(self).atlases_view() == old(self).atlases_view().remove(atlas)
                &&& final(self).appearances_view() == old(self).appearances_view()
                &&& final(self).materials_view() == old(self).materials_view()
                &&& final(self).same_links(old(self))
                &&& final(self).same_counters(old(self))
            },
    {
        if !self.atlases.contains(atlas) {
            return Err(atlas_handle_error());
        }
        if self.sprite_atlases.contains_value(atlas) {
            proof {
                let k = choose|k: u64| self.sprite_atlases@.dom().contains(k) && self.sprite_atlases@[k] == atlas;
                assert(self.sprite_atlas_view().dom().contains(k));
            }
            return Err(
                CsharpEngineServicesError::new(
                    "CSHARP_SPRITE_ATLAS_IN_USE",
                    String::from_str(
                        "dispose or replace appearances using this sprite atlas before disposing it",
                    ),
                ),
            );
        }
        if self.playback_over_atlas(atlas) {
            return Err(
                CsharpEngineServicesError::new(
                    "CSHARP_SPRITE_PLAYBACK_ATLAS_IN_USE",
                    String::from_str("dispose sprite playbacks using this atlas before disposing it"),
                ),
            );
        }
        let ghost before = *self;
        let removed = self.atlases.remove(atlas).unwrap();
        proof {
            assert forall|k: u64| #[trigger]
                self.atlases@.dom().contains(k) implies self.atlases@[k].asset@ == atlas_asset(k)
                && self.atlases@[k].texture_asset@ == atlas_texture_asset(k) by {
                assert(before.atlases@.dom().contains(k));
            }
            assert forall|a: u64| #[trigger]
                self.sprite_atlases@.dom().contains(a) implies self.appearances@.dom().contains(a)
                && self.atlases@.dom().contains(self.sprite_atlases@[a]) by {
                assert(before.sprite_atlases@.dom().contains(a));
                assert(before.sprite_atlases@[a] != atlas);
            }
        }
        Ok(removed)
    }

    /// The frame ids a playback of `appearance` over `atlas` may sequence:
    /// the atlas must be live and back that sprite appearance.
    pub fn playback_frames(&self, atlas: u64, appearance: u64) -> (r: Result<
        &Vec<u32>,
        CsharpEngineServicesError,
    >)
        requires
            self.wf(),
        ensures
            r is Ok <==> self.atlases_view().dom().contains(atlas)
                && self.sprite_atlas_view().dom().contains(appearance)
                && self.sprite_atlas_view()[appearance] == atlas,
            r matches Err(e) ==> e.code_view() == (if !self.atlases_view().dom().contains(atlas) {
                "CSHARP_SPRITE_ATLAS_HANDLE"@
            } else if !self.sprite_atlas_view().dom().contains(appearance) {
                "CSHARP_SPRITE_ATLAS_APPEARANCE"@
            } else {
                "CSHARP_SPRITE_PLAYBACK_ATLAS"@
            }),
            r matches Ok(frames) ==> frames@ == self.atlases_view()[atlas].frame_ids@,
    {
        let a = match self.atlases.get(atlas) {
            None => {
                return Err(atlas_handle_error());
            },
            Some(a) => a,
        };
        let owner = match self.sprite_atlases.get(appearance) {
            None => {
                return Err(atlas_appearance_error());
            },
            Some(owner) => *owner,
        };
        if owner != atlas {
            return Err(
                CsharpEngineServicesError::new(
                    "CSHARP_SPRITE_PLAYBACK_ATLAS",
                    String::from_str("sprite playback atlas does not own the supplied appearance"),
                ),
            );
        }
        Ok(&a.frame_ids)
    }

    /// Adds the next sprite playback of an atlas-backed sprite appearance
    /// over its atlas.
    pub fn insert_playback(&mut self, appearance: u64, atlas: u64) -> (r: Result<
        u64,
        CsharpEngineServicesError,
    >)
        requires
            old(self).wf(),
            old(self).sprite_atlas_view().dom().contains(appearance),
            old(self).sprite_atlas_view()[appearance] == atlas,
        ensures
            final(self).wf(),
            r is Err ==> *final(self) == *old(self),
            r is Err <==> old(self).next_playback_view() == u64::MAX,
            r matches Err(e) ==> e.code_view() == "CSHARP_SPRITE_PLAYBACK_HANDLE"@,
            r matches Ok(h) ==> {
                &&& h == old(self).next_playback_view()
                &&& !old(self).playbacks_view().dom().contains(h)
                &&& final(self).playbacks_view() == old(self).playbacks_view().insert(
                    h,
                    SpritePlaybackOwners { appearance, atlas },
                )
                &&& final(self).next_playback_view() == h + 1
                &&& final(self).appearances_view() == old(self).appearances_view()
                &&& final(self).materials_view() == old(self).materials_view()
                &&& final(self).atlases_view() == old(self).atlases_view()
                &&& final(self).bound_materials_view() == old(self).bound_materials_view()
                &&& final(self).animated_view() == old(self).animated_view()
                &&& final(self).sprite_atlas_view() == old(self).sprite_atlas_view()
                &&& final(self).next_appearance_view() == old(self).next_appearance_view()
                &&& final(self).next_material_view() == old(self).next_material_view()
                &&& final(self).next_atlas_view() == old(self).next_atlas_view()
            },
    {
        let h = self.next_playback;
        if h == u64::MAX {
            return Err(
                CsharpEngineServicesError::new(
                    "CSHARP_SPRITE_PLAYBACK_HANDLE",
                    String::from_str("sprite playback handle overflow"),
                ),
            );
        }
        let ghost before = *self;
        self.next_playback = h + 1;
        self.playbacks.insert_new(h, SpritePlaybackOwners { appearance, atlas });
        proof {
            assert forall|p: u64| #[trigger]
                self.playbacks@.dom().contains(p) implies self.sprite_atlases@.dom().contains(
                self.playbacks@[p].appearance,
            ) && self.sprite_atlases@[self.playbacks@[p].appearance] == self.playbacks@[p].atlas by {
                if p != h {
                    assert(before.playbacks@.dom().contains(p));
                }
            }
        }
        Ok(h)
    }

    /// The owners of a live sprite playback.
    pub fn playback_owners(&self, playback: u64) -> (r: Result<
        SpritePlaybackOwners,
        CsharpEngineServicesError,
    >)
        requires
            self.wf(),
        ensures
            r is Ok <==> self.playbacks_view().dom().contains(playback),
            r matches Ok(o) ==> o == self.playbacks_view()[playback],
            r matches Err(e) ==> e.code_view() == "CSHARP_SPRITE_PLAYBACK_HANDLE"@,
    {
        match self.playbacks.get(playback) {
            Some(o) => Ok(*o),
            None => Err(
                CsharpEngineServicesError::new(
                    "CSHARP_SPRITE_PLAYBACK_HANDLE",
                    String::from_str("sprite playback is not live"),
                ),
            ),
        }
    }

    /// Disposes a sprite playback, handing back its owners; one that is no
    /// longer live is ignored.
    pub fn destroy_playback(&mut self, playback: u64) -> (r: Option<SpritePlaybackOwners>)
        requires
            old(self).wf(),
        ensures
            final(self).wf(),
            r == (if old(self).playbacks_view().dom().contains(playback) {
                Some(old(self).playbacks_view()[playback])
            } else {
                None
            }),
            final(self).playbacks_view() == old(self).playbacks_view().remove(playback),
            final(self).appearances_view() == old(self).appearances_view(),
            final(self).materials_view() == old(self).materials_view(),
            final(self).atlases_view() == old(self).atlases_view(),
            final(self).bound_materials_view() == old(self).bound_materials_view(),
            final(self).animated_view() == old(self).animated_view(),
            final(self).sprite_atlas_view() == old(self).sprite_atlas_view(),
            final(self).same_counters(old(self)),
    {
        let ghost before = *self;
        let r = self.playbacks.remove(playback);
        proof {
            assert forall|p: u64| #[trigger]
                self.playbacks@.dom().contains(p) implies self.sprite_atlases@.dom().contains(
                self.playbacks@[p].appearance,
            ) && self.sprite_atlases@[self.playbacks@[p].appearance] == self.playbacks@[p].atlas by {
                assert(before.playbacks@.dom().contains(p));
            }
        }
        r
    }

    /// The error code under which disposing `appearance` is refused, if
    /// any: it must not be shown by the published snapshot (which retains
    /// `retained`, object id to appearance), animated by an animation
    /// instance, or driven by a sprite playback.
    pub open spec fn appearance_refusal(
        &self,
        appearance: u64,
        retained: Map<u64, u64>,
        animations: AnimationRegistry,
    ) -> Option<Seq<char>> {
        if shows_appearance(retained, appearance) {
            Some("CSHARP_APPEARANCE_IN_USE"@)
        } else if animations.has_instance_on(appearance) {
            Some("CSHARP_ANIMATION_APPEARANCE_IN_USE"@)
        } else if self.appearance_plays(appearance) {
            Some("CSHARP_SPRITE_PLAYBACK_APPEARANCE_IN_USE"@)
        } else {
            None
        }
    }

    /// Disposes an appearance with its material bindings, animated
    /// resource and atlas link, handing back its renderer identity; one
    /// that is no longer live is ignored, one still in use is refused.
    pub fn destroy_appearance(
        &mut self,
        appearance: u64,
        retained: &HandleTable<u64>,
        animations: &AnimationRegistry,
    ) -> (r: Result<Option<String>, CsharpEngineServicesError>)
        requires
            old(self).wf(),
            retained.wf(),
            animations.wf(),
        ensures
            final(self).wf(),
            r is Err ==> *final(self) == *old(self),
            ({
                let refusal = old(self).appearance_refusal(appearance, retained@, *animations);
                &&& r is Err <==> refusal is Some
                &&& r matches Err(e) ==> refusal == Some(e.code_view())
            }),
            r matches Ok(None) ==> !old(self).appearances_view().dom().contains(appearance)
                && *final(self) == *old(self),
            r matches Ok(Some(id)) ==> {
                &&& old(self).appearances_view().dom().contains(appearance)
                &&& id == old(self).appearances_view()[appearance]
                &&& final(self).appearances_view() == old(self).appearances_view().remove(appearance)
                &&& final(self).bound_materials_view() == old(self).bound_materials_view().remove(
                    appearance,
                )
                &&& final(self).animated_view() == old(self).animated_view().remove(appearance)
                &&& final(self).sprite_atlas_view() == old(self).sprite_atlas_view().remove(
                    appearance,
                )
                &&& final(self).playbacks_view() == old(self).playbacks_view()
                &&& final(self).materials_view() == old(self).materials_view()
                &&& final(self).atlases_view() == old(self).atlases_view()
                &&& final(self).same_counters(old(self))
            },
            r matches Ok(o) ==> (o is Some <==> old(self).appearances_view().dom().contains(
                appearance,
            )),
    {
        if retained.contains_value(appearance) {
            return Err(
                CsharpEngineServicesError::new(
                    "CSHARP_APPEARANCE_IN_USE",
                    String::from_str(
                        "publish a snapshot without this appearance before disposing or replacing it",
                    ),
                ),
            );
        }
        if animations.instance_on(appearance) {
            return Err(
                CsharpEngineServicesError::new(
                    "CSHARP_ANIMATION_APPEARANCE_IN_USE",
                    String::from_str(
                        "dispose animation instances using this appearance before disposing or replacing it",
                    ),
                ),
            );
        }
        if self.playback_on_appearance(appearance) {
            return Err(
                CsharpEngineServicesError::new(
                    "CSHARP_SPRITE_PLAYBACK_APPEARANCE_IN_USE",
                    String::from_str(
                        "dispose sprite playbacks using this appearance before disposing or replacing it",
                    ),
                ),
            );
        }
        let ghost before = *self;
        let identity = match self.appearances.remove(appearance) {
            None => {
                return Ok(None);
            },
            Some(id) => id,
        };
        self.appearance_materials.remove(appearance);
        self.animated_appearances.remove(appearance);
        self.sprite_atlases.remove(appearance);
        proof {
            assert forall|h: u64| #[trigger]
                self.appearances@.dom().contains(h) implies self.appearances@[h]@ == appearance_id(h) by {
                assert(before.appearances@.dom().contains(h));
            }
            assert forall|a: u64| #[trigger]
                self.appearance_materials@.dom().contains(a) implies self.appearances@.dom().contains(a)
                && strictly_increasing_handles(self.appearance_materials@[a]@) && (forall|m: u64|
                self.appearance_materials@[a]@.contains(m) ==> #[trigger] self.materials@.dom().contains(
                    m,
                )) by {
                assert(before.appearance_materials@.dom().contains(a));
            }
            assert forall|a: u64| #[trigger]
                self.animated_appearances@.dom().contains(a) implies self.appearances@.dom().contains(
                a,
            ) by {
                assert(before.animated_appearances@.dom().contains(a));
            }
            assert forall|a: u64| #[trigger]
                self.sprite_atlases@.dom().contains(a) implies self.appearances@.dom().contains(a)
                && self.atlases@.dom().contains(self.sprite_atlases@[a]) by {
                assert(before.sprite_atlases@.dom().contains(a));
            }
            assert forall|p: u64| #[trigger]
                self.playbacks@.dom().contains(p) implies self.sprite_atlases@.dom().contains(
                self.playbacks@[p].appearance,
            ) && self.sprite_atlases@[self.playbacks@[p].appearance] == self.playbacks@[p].atlas by {
                assert(before.playbacks_view().dom().contains(p));
                assert(before.playbacks@[p].appearance != appearance);
            }
        }
        Ok(Some(identity))
    }
}

impl AppearanceRegistry {
    /// The texture and sprite assets `texture/native-{h}` and
    /// `sprite/native-{h}` of a single-frame sprite over the selected
    /// texture `texture`, where `h` is the appearance handle it will get;
    /// the resource must be a texture.
    pub fn plan_texture_sprite(&self, selection: &ResourceSelection, texture: u64) -> (r: Result<
        (String, String),
        CsharpEngineServicesError,
    >)
        requires
            self.wf(),
        ensures
            ({
                let res = selected_resource(selection.resources_view(), texture);
                &&& r is Ok <==> res is Some && res->0.kind == CsharpRenderResourceKind::Texture
                &&& r matches Err(e) ==> e.code_view() == (if res is None {
                    "CSHARP_RENDER_RESOURCE_HANDLE"@
                } else {
                    "CSHARP_SPRITE_RESOURCE"@
                })
                &&& r matches Ok((texture_asset, sprite_asset)) ==> texture_asset@ == "texture/native-"@
                    + decimal(self.next_appearance_view() as nat) && sprite_asset@ == "sprite/native-"@
                    + decimal(self.next_appearance_view() as nat)
            }),
    {
        let res = match selection.resource(texture) {
            Ok(res) => res,
            Err(e) => return Err(e),
        };
        if res.kind() != CsharpRenderResourceKind::Texture {
            return Err(
                CsharpEngineServicesError::new(
                    "CSHARP_SPRITE_RESOURCE",
                    String::from_str("sprite appearance requires a texture resource"),
                ),
            );
        }
        Ok((named("texture/native-", self.next_appearance), named("sprite/native-", self.next_appearance)))
    }
}

/// The error code under which a snapshot of `facts` is refused, if any:
/// every fact must show a live appearance; the snapshot must keep the
/// animated target of every projected controller; and every ghost plate's
/// source object (in `ghost_sources`) must stay in it.
pub open spec fn snapshot_refusal(
    appearances: Map<u64, String>,
    animations: AnimationRegistry,
    facts: Seq<SnapshotFact>,
    ghost_sources: Seq<u64>,
) -> Option<Seq<char>> {
    let retained = retained_of(facts);
    if exists|i: int| 0 <= i < facts.len() && !appearances.dom().contains(#[trigger] facts[i].appearance) {
        Some("CSHARP_APPEARANCE_HANDLE"@)
    } else if !animations.keeps_projected_targets(retained) {
        Some("CSHARP_ANIMATION_SNAPSHOT_ORDER"@)
    } else if exists|i: int| 0 <= i < ghost_sources.len() && !retained.dom().contains(#[trigger] ghost_sources[i]) {
        Some("CSHARP_GHOST_PLATE_SNAPSHOT_ORDER"@)
    } else {
        None
    }
}

impl AppearanceRegistry {
    /// Stages a visual snapshot of `facts` (objects showing appearances),
    /// given the source objects of live ghost plates.
    pub fn plan_snapshot(
        &self,
        animations: &AnimationRegistry,
        facts: &Vec<SnapshotFact>,
        ghost_sources: &Vec<u64>,
    ) -> (r: Result<SnapshotPlan, CsharpEngineServicesError>)
        requires
            self.wf(),
            animations.wf(),
        ensures
            ({
                let refusal = snapshot_refusal(
                    self.appearances_view(),
                    *animations,
                    facts@,
                    ghost_sources@,
                );
                &&& r is Ok <==> refusal is None
                &&& r matches Err(e) ==> refusal == Some(e.code_view())
                &&& r matches Ok(plan) ==> {
                    &&& plan.retained.wf()
                    &&& plan.retained@ == retained_of(facts@)
                    &&& plan.identities@.len() == facts@.len()
                    &&& forall|i: int|
                        0 <= i < facts@.len() ==> #[trigger] plan.identities@[i]
                            == self.appearances_view()[facts@[i].appearance]
                }
            }),
    {
        let n = facts.len();
        let mut identities: Vec<String> = Vec::new();
        let mut retained: HandleTable<u64> = HandleTable::new();
        let mut i: usize = 0;
        while i < n
            invariant
                self.wf(),
                n == facts@.len(),
                i <= n,
                retained.wf(),
                retained@ == retained_of(facts@.subrange(0, i as int)),
                identities@.len() == i,
                forall|k: int|
                    0 <= k < i ==> self.appearances_view().dom().contains(
                        #[trigger] facts@[k].appearance,
                    ),
                forall|k: int|
                    0 <= k < i ==> #[trigger] identities@[k]
                        == self.appearances_view()[facts@[k].appearance],
            decreases n - i,
        {
            let fact = facts[i];
            let identity = match self.appearances.get(fact.appearance) {
                Some(id) => id.clone(),
                None => {
                    return Err(
                        CsharpEngineServicesError::new(
                            "CSHARP_APPEARANCE_HANDLE",
                            String::from_str("visual fact used an unknown appearance handle"),
                        ),
                    );
                },
            };
            identities.push(identity);
            retained.insert(fact.object_id, fact.appearance);
            proof {
                assert(facts@.subrange(0, i + 1).drop_last() =~= facts@.subrange(0, i as int));
            }
            i = i + 1;
        }
        proof {
            assert(facts@.subrange(0, n as int) =~= facts@);
        }
        if !animations.projected_targets_kept(&retained) {
            return Err(
                CsharpEngineServicesError::new(
                    "CSHARP_ANIMATION_SNAPSHOT_ORDER",
                    String::from_str(
                        "remove a projected controller before publishing a snapshot that removes or replaces its animated target",
                    ),
                ),
            );
        }
        let g = ghost_sources.len();
        let mut j: usize = 0;
        while j < g
            invariant
                g == ghost_sources@.len(),
                j <= g,
                retained.wf(),
                retained@ == retained_of(facts@),
                n == facts@.len(),
                forall|k: int|
                    0 <= k < n ==> self.appearances_view().dom().contains(
                        #[trigger] facts@[k].appearance,
                    ),
                animations.keeps_projected_targets(retained@),
                forall|k: int| 0 <= k < j ==> retained@.dom().contains(#[trigger] ghost_sources@[k]),
            decreases g - j,
        {
            if !retained.contains(ghost_sources[j]) {
                assert(!retained@.dom().contains(ghost_sources@[j as int]));
                return Err(
                    CsharpEngineServicesError::new(
                        "CSHARP_GHOST_PLATE_SNAPSHOT_ORDER",
                        String::from_str(
                            "dispose ghost plate presentations before publishing a snapshot that removes their source object",
                        ),
                    ),
                );
            }
            j = j + 1;
        }
        Ok(SnapshotPlan { identities, retained })
    }
}

impl AppearanceRegistry {
    /// Replaces the material bindings of a live animated mesh appearance
    /// whose mesh embeds the material slots `embedded_slots`, in the
    /// Engine's order: the appearance must be live, then animated, then
    /// every binding must name an embedded slot once and a live material
    /// (the first refused binding decides the error). On success the
    /// appearance holds exactly the bound materials and the overrides are
    /// returned for the renderer; a refusal changes nothing.
    pub fn update_animated_mesh_materials(
        &mut self,
        appearance: u64,
        bindings: &Vec<NativeMaterialBinding>,
        embedded_slots: &Vec<u16>,
    ) -> (r: Result<MeshMaterialBindings, CsharpEngineServicesError>)
        requires
            old(self).wf(),
        ensures
            final(self).wf(),
            r is Err ==> *final(self) == *old(self),
            ({
                let b = bindings@;
                let live = old(self).materials_view().dom();
                let e = Some(embedded_slots@);
                if !old(self).appearances_view().dom().contains(appearance) {
                    r matches Err(err) && err.code_view() == "CSHARP_APPEARANCE_HANDLE"@
                } else if !old(self).animated_view().dom().contains(appearance) {
                    r matches Err(err) && err.code_view() == "CSHARP_ANIMATED_MESH_APPEARANCE"@
                } else if exists|i: int| 0 <= i < b.len() && #[trigger] binding_refused(b, i, e, live) {
                    r matches Err(err) && exists|i: int|
                        0 <= i < b.len() && #[trigger] binding_refused(b, i, e, live) && (forall|k: int|
                            0 <= k < i ==> !#[trigger] binding_refused(b, k, e, live))
                            && err.code_view() == binding_refusal_code(b, i, e)
                } else {
                    r matches Ok(m) && {
                        &&& m.overrides@.len() == b.len()
                        &&& forall|i: int|
                            0 <= i < b.len() ==> (#[trigger] m.overrides@[i]).slot
                                == b[i].material_slot && m.overrides@[i].material@
                                == old(self).materials_view()[b[i].material]@
                        &&& forall|x: u64|
                            final(self).bound_materials_view()[appearance]@.contains(x)
                                <==> exists|i: int| 0 <= i < b.len() && #[trigger] b[i].material == x
                        &&& final(self).bound_materials_view().dom() == old(
                            self,
                        ).bound_materials_view().dom().insert(appearance)
                        &&& forall|a: u64|
                            a != appearance && #[trigger] old(self).bound_materials_view().dom().contains(a)
                                ==> final(self).bound_materials_view()[a] == old(
                                self,
                            ).bound_materials_view()[a]
                        &&& final(self).appearances_view() == old(self).appearances_view()
                        &&& final(self).materials_view() == old(self).materials_view()
                        &&& final(self).atlases_view() == old(self).atlases_view()
                        &&& final(self).animated_view() == old(self).animated_view()
                        &&& final(self).sprite_atlas_view() == old(self).sprite_atlas_view()
                        &&& final(self).playbacks_view() == old(self).playbacks_view()
                        &&& final(self).same_counters(old(self))
                    }
                }
            }),
    {
        if !self.appearances.contains(appearance) {
            return Err(
                CsharpEngineServicesError::new(
                    "CSHARP_APPEARANCE_HANDLE",
                    String::from_str("appearance handle is not live"),
                ),
            );
        }
        if self.animated_resource(appearance).is_none() {
            return Err(
                CsharpEngineServicesError::new(
                    "CSHARP_ANIMATED_MESH_APPEARANCE",
                    String::from_str("material bindings require a live animated mesh appearance"),
                ),
            );
        }
        assert(embedded_view(Some(embedded_slots)) == Some(embedded_slots@));
        assert(self.materials@.dom() == self.materials_view().dom());
        let bound = match bind_mesh_materials(bindings, Some(embedded_slots), &self.materials) {
            Ok(m) => m,
            Err(err) => {
                proof {
                    let e = Some(embedded_slots@);
                    let live = self.materials_view().dom();
                    let i = choose|i: int|
                        0 <= i < bindings@.len() && #[trigger] binding_refused(bindings@, i, e, live)
                            && (forall|k: int|
                            0 <= k < i ==> !#[trigger] binding_refused(bindings@, k, e, live))
                            && err.code_view() == binding_refusal_code(bindings@, i, e);
                    assert(binding_refused(bindings@, i, e, live));
                }
                return Err(err);
            },
        };
        let handles = copy_handles(&bound.material_handles);
        proof {
            assert forall|m: u64| handles@.contains(m) implies #[trigger] self.materials_view().dom().contains(m) by {
                let i = choose|i: int| 0 <= i < bindings@.len() && #[trigger] bindings@[i].material == m;
                assert(!binding_refused(bindings@, i, Some(embedded_slots@), self.materials@.dom()));
            }
        }
        self.set_appearance_materials(appearance, handles);
        Ok(bound)
    }

    /// A material an appearance binds stays pinned: it is in use, so
    /// `destroy_material` refuses it with `CSHARP_MATERIAL_IN_USE`, for as
    /// long as the appearance's bindings name it. A refused rebinding
    /// changes no binding (`bind_mesh_materials` only reads the ledger), so
    /// the pin survives it.
    pub proof fn lemma_bound_material_is_pinned(&self, appearance: u64, material: u64)
        requires
            self.bound_materials_view().dom().contains(appearance),
            self.bound_materials_view()[appearance]@.contains(material),
        ensures
            self.material_in_use(material),
    {
    }

    /// Clearing an appearance's bindings releases a material that no other
    /// appearance binds: after the bindings of `appearance` are replaced by
    /// an empty set, `material` is no longer in use, so it can be disposed.
    pub proof fn lemma_cleared_bindings_release(
        pre: Self,
        post: Self,
        appearance: u64,
        cleared: Vec<u64>,
        material: u64,
    )
        requires
            cleared@ == Seq::<u64>::empty(),
            post.bound_materials_view() == pre.bound_materials_view().insert(appearance, cleared),
            forall|a: u64|
                a != appearance && pre.bound_materials_view().dom().contains(a)
                    ==> !(#[trigger] pre.bound_materials_view()[a])@.contains(material),
        ensures
            !post.material_in_use(material),
    {
        if post.material_in_use(material) {
            let a = choose|a: u64| #[trigger]
                post.bound_materials_view().dom().contains(a)
                    && post.bound_materials_view()[a]@.contains(material);
            if a != appearance {
                assert(pre.bound_materials_view().dom().contains(a));
            }
        }
    }

    /// Every link names live owners: a bound material is live, an
    /// atlas-backed sprite's atlas is live, and a sprite playback drives a
    /// live sprite appearance backed by the playback's own live atlas. So
    /// no material, atlas or appearance that anything holds has been
    /// disposed.
    pub proof fn lemma_links_name_live_owners(&self)
        requires
            self.wf(),
        ensures
            forall|a: u64, m: u64|
                self.bound_materials_view().dom().contains(a)
                    && #[trigger] self.bound_materials_view()[a]@.contains(m)
                    ==> self.appearances_view().dom().contains(a)
                    && self.materials_view().dom().contains(m),
            forall|a: u64| #[trigger]
                self.sprite_atlas_view().dom().contains(a) ==> self.appearances_view().dom().contains(a)
                    && self.atlases_view().dom().contains(self.sprite_atlas_view()[a]),
            forall|p: u64| #[trigger]
                self.playbacks_view().dom().contains(p) ==> self.appearances_view().dom().contains(
                    self.playbacks_view()[p].appearance,
                ) && self.atlases_view().dom().contains(self.playbacks_view()[p].atlas)
                    && self.sprite_atlas_view()[self.playbacks_view()[p].appearance]
                    == self.playbacks_view()[p].atlas,
            forall|a: u64| #[trigger]
                self.animated_view().dom().contains(a) ==> self.appearances_view().dom().contains(a),
    {
        assert forall|a: u64, m: u64|
            self.bound_materials_view().dom().contains(a)
                && #[trigger] self.bound_materials_view()[a]@.contains(m) implies self.appearances_view().dom().contains(a)
                && self.materials_view().dom().contains(m) by {
            assert(self.appearance_materials@.dom().contains(a));
        }
        assert forall|p: u64| #[trigger]
            self.playbacks_view().dom().contains(p) implies self.appearances_view().dom().contains(
            self.playbacks_view()[p].appearance,
        ) && self.atlases_view().dom().contains(self.playbacks_view()[p].atlas)
            && self.sprite_atlas_view()[self.playbacks_view()[p].appearance]
            == self.playbacks_view()[p].atlas by {
            assert(self.sprite_atlases@.dom().contains(self.playbacks@[p].appearance));
        }
    }

    /// Disposing an appearance right after allocating it, with nothing
    /// linked to it, leaves the live appearances as they were.
    pub proof fn lemma_destroy_undoes_allocate(
        before: AppearanceRegistry,
        allocated: AppearanceRegistry,
        after: AppearanceRegistry,
        h: u64,
        id: String,
    )
        requires
            before.wf(),
            !before.appearances_view().dom().contains(h),
            allocated.appearances_view() == before.appearances_view().insert(h, id),
            after.appearances_view() == allocated.appearances_view().remove(h),
        ensures
            after.appearances_view() == before.appearances_view(),
    {
        assert(after.appearances_view() =~= before.appearances_view());
    }
}

} // verus!
