//! Mesh appearances over selected renderer resources: the plan of a
//! static mesh over a packed mesh resource (its groups, the distinct
//! material slots and their generated material identities, the vertex
//! attributes and the packed encoding), the material overrides of a
//! static or animated mesh, and the checks that associate an animation clip pack
//! with a primary animated mesh, with the record of the packs associated.
//!
//! Colors, bounds and the importer's rig descriptors are floating point or
//! belong to the renderer model; they are joined to these plans outside.

use crate::error::CsharpEngineServicesError;
use crate::animation_graph::AnimationRegistry;
use crate::resource::{has_sha256_prefix, CsharpRenderResourceKind, RenderResourceView};
use crate::selection::{selected_resource, ResourceSelection};
use crate::table::HandleTable;
use crate::text::{append_decimal, decimal};
use vstd::prelude::*;
use vstd::string::StringExecFns;

verus! {

/// A mesh group as a product requests it: a material slot with the range
/// of indices it draws.
#[derive(Debug, Clone, Copy, PartialEq, Eq, Structural)]
pub struct NativeMeshGroup {
    pub material_slot: u32,
    pub start: u32,
    pub count: u32,
}

/// A mesh group with its material slot narrowed to sixteen bits.
#[derive(Debug, Clone, Copy, PartialEq, Eq, Structural)]
pub struct MeshGroup {
    pub material_slot: u16,
    pub start: u32,
    pub count: u32,
}

/// A vertex attribute stream of a packed mesh.
#[derive(Debug, Clone, Copy, PartialEq, Eq, Structural)]
pub enum MeshAttributeName {
    Position,
    Normal,
    Uv,
    Color,
}

/// A vertex attribute with its number of 32-bit float components.
#[derive(Debug, Clone, Copy, PartialEq, Eq, Structural)]
pub struct MeshAttribute {
    pub name: MeshAttributeName,
    pub components: u8,
}

/// The little-endian packed-stream encodings of a mesh resource.
#[derive(Debug, Clone, Copy, PartialEq, Eq, Structural)]
pub enum MeshResourceEncoding {
    PackedStreamsLeV1,
    PackedStreamsLeV2,
    PackedStreamsLeV3,
}

/// A material slot bound to a material identity.
#[derive(Debug)]
pub struct MeshMaterialSlot {
    pub slot: u16,
    pub material: String,
}

/// The static mesh asset and materials an appearance over a packed mesh
/// resource is given.
#[derive(Debug)]
pub struct StaticMeshPlan {
    pub mesh_id: String,
    pub groups: Vec<MeshGroup>,
    pub material_slots: Vec<MeshMaterialSlot>,
    pub attributes: Vec<MeshAttribute>,
    pub encoding: MeshResourceEncoding,
    pub resource: String,
    pub content_hash: String,
    pub byte_length: u32,
    pub uvs_byte_offset: Option<u32>,
    pub colors_byte_offset: Option<u32>,
}

/// The packed encoding a request code names, if any.
pub open spec fn encoding_of(code: u32) -> Option<MeshResourceEncoding> {
    if code == 1 {
        Some(MeshResourceEncoding::PackedStreamsLeV1)
    } else if code == 2 {
        Some(MeshResourceEncoding::PackedStreamsLeV2)
    } else if code == 3 {
        Some(MeshResourceEncoding::PackedStreamsLeV3)
    } else {
        None
    }
}

/// Positions and normals always, then UVs and colors where their stream
/// offsets are nonzero.
pub open spec fn mesh_attributes(has_uvs: bool, has_colors: bool) -> Seq<MeshAttribute> {
    let base = seq![
        MeshAttribute { name: MeshAttributeName::Position, components: 3 },
        MeshAttribute { name: MeshAttributeName::Normal, components: 3 },
    ];
    let with_uvs = if has_uvs {
        base.push(MeshAttribute { name: MeshAttributeName::Uv, components: 2 })
    } else {
        base
    };
    if has_colors {
        with_uvs.push(MeshAttribute { name: MeshAttributeName::Color, components: 4 })
    } else {
        with_uvs
    }
}

/// The asset identity of the static mesh behind appearance `appearance`.
pub open spec fn static_mesh_id(appearance: u64) -> Seq<char> {
    "mesh/native-"@ + decimal(appearance as nat)
}

/// The material identity generated for `slot` of appearance `appearance`.
pub open spec fn static_material_id(appearance: u64, slot: u16) -> Seq<char> {
    "material/native-"@ + decimal(appearance as nat) + "-"@ + decimal(slot as nat)
}

/// Whether every group's material slot fits in sixteen bits.
pub open spec fn slots_fit(groups: Seq<NativeMeshGroup>) -> bool {
    forall|i: int| 0 <= i < groups.len() ==> #[trigger] groups[i].material_slot <= 0xffff
}

/// Whether a slot sequence is strictly increasing.
pub open spec fn strictly_increasing(s: Seq<u16>) -> bool {
    forall|i: int, j: int| 0 <= i < j < s.len() ==> s[i] < s[j]
}

/// Whether a handle sequence is strictly increasing.
pub open spec fn strictly_increasing_handles(s: Seq<u64>) -> bool {
    forall|i: int, j: int| 0 <= i < j < s.len() ==> s[i] < s[j]
}

/// Whether some group draws with material slot `slot`.
pub open spec fn group_uses_slot(groups: Seq<NativeMeshGroup>, slot: u16) -> bool {
    exists|i: int| 0 <= i < groups.len() && #[trigger] groups[i].material_slot == slot
}

/// The error code under which a static mesh over the selected resource
/// `res` (or `None` when the handle selects nothing) is refused, if any.
pub open spec fn static_mesh_refusal(
    res: Option<RenderResourceView>,
    groups: Seq<NativeMeshGroup>,
    encoding: u32,
) -> Option<Seq<char>> {
    if res is None {
        Some("CSHARP_RENDER_RESOURCE_HANDLE"@)
    } else if res->0.kind != CsharpRenderResourceKind::Mesh {
        Some("CSHARP_STATIC_MESH_RESOURCE"@)
    } else if !slots_fit(groups) {
        Some("CSHARP_STATIC_MESH_SLOT"@)
    } else if encoding_of(encoding) is None {
        Some("CSHARP_STATIC_MESH_ENCODING"@)
    } else if res->0.bytes.len() > u32::MAX {
        Some("CSHARP_STATIC_MESH_SIZE"@)
    } else {
        None
    }
}

/// Inserts `s` into a strictly increasing slot list, keeping it so.
fn insert_slot(slots: &mut Vec<u16>, s: u16)
    requires
        strictly_increasing(old(slots)@),
    ensures
        strictly_increasing(final(slots)@),
        forall|x: u16| final(slots)@.contains(x) <==> (old(slots)@.contains(x) || x == s),
{
    let n = slots.len();
    let mut i: usize = 0;
    while i < n && slots[i] < s
        invariant
            n == slots@.len(),
            i <= n,
            forall|k: int| 0 <= k < i ==> slots@[k] < s,
        decreases n - i,
    {
        i = i + 1;
    }
    if i < n && slots[i] == s {
        assert(slots@.contains(s));
        assert forall|x: u16| slots@.contains(x) <==> (old(slots)@.contains(x) || x == s) by {
            if x == s {
                assert(slots@[i as int] == s);
            }
        }
        return;
    }
    let ghost before = slots@;
    assert(before == old(slots)@);
    slots.insert(i, s);
    proof {
        assert forall|a: int, b: int| 0 <= a < b < slots@.len() implies slots@[a] < slots@[b] by {
            if b < i {
            } else if b == i {
            } else if a < i {
                assert(slots@[b] == before[b - 1]);
                assert(before[i as int] > s);
                if b - 1 > i {
                    assert(before[i as int] < before[b - 1]);
                }
            } else if a == i {
                assert(before[i as int] > s);
                if b - 1 > i {
                    assert(before[i as int] < before[b - 1]);
                }
            } else {
                assert(before[a - 1] < before[b - 1]);
            }
        }
        assert forall|x: u16| slots@.contains(x) <==> (before.contains(x) || x == s) by {
            if slots@.contains(x) {
                let k = choose|k: int| 0 <= k < slots@.len() && slots@[k] == x;
                if k < i {
                    assert(before[k] == x);
                } else if k > i {
                    assert(before[k - 1] == x);
                }
            }
            if before.contains(x) {
                let k = choose|k: int| 0 <= k < before.len() && before[k] == x;
                if k < i {
                    assert(slots@[k] == x);
                } else {
                    assert(slots@[k + 1] == x);
                }
            }
            if x == s {
                assert(slots@[i as int] == s);
            }
        }
    }
}

/// The static mesh an appearance with handle `appearance` gets over the
/// packed mesh resource selected by `resource`: each group keeps its
/// range with its slot narrowed to sixteen bits; each distinct slot, in
/// increasing order, gets the material `material/native-{appearance}-{slot}`;
/// UV and color streams are present where their offsets are nonzero.
pub fn plan_static_mesh(
    selection: &ResourceSelection,
    resource: u64,
    appearance: u64,
    groups: &Vec<NativeMeshGroup>,
    encoding: u32,
    uvs_byte_offset: u32,
    colors_byte_offset: u32,
) -> (r: Result<StaticMeshPlan, CsharpEngineServicesError>)
    ensures
        ({
            let res = selected_resource(selection.resources_view(), resource);
            let refusal = static_mesh_refusal(res, groups@, encoding);
            &&& r is Ok <==> refusal is None
            &&& r matches Err(e) ==> refusal == Some(e.code_view())
            &&& r matches Ok(p) ==> {
                &&& p.mesh_id@ == static_mesh_id(appearance)
                &&& p.groups@.len() == groups@.len()
                &&& forall|i: int|
                    0 <= i < groups@.len() ==> #[trigger] p.groups@[i] == (MeshGroup {
                        material_slot: groups@[i].material_slot as u16,
                        start: groups@[i].start,
                        count: groups@[i].count,
                    })
                &&& forall|i: int, j: int|
                    0 <= i < j < p.material_slots@.len() ==> p.material_slots@[i].slot
                        < p.material_slots@[j].slot
                &&& forall|slot: u16|
                    group_uses_slot(groups@, slot) <==> exists|i: int|
                        0 <= i < p.material_slots@.len() && #[trigger] p.material_slots@[i].slot
                            == slot
                &&& forall|i: int|
                    0 <= i < p.material_slots@.len() ==> #[trigger] p.material_slots@[i].material@
                        == static_material_id(appearance, p.material_slots@[i].slot)
                &&& p.attributes@ == mesh_attributes(uvs_byte_offset != 0, colors_byte_offset != 0)
                &&& Some(p.encoding) == encoding_of(encoding)
                &&& p.resource@ == res->0.identity
                &&& p.content_hash@ == res->0.content_hash
                &&& p.byte_length == res->0.bytes.len()
                &&& p.uvs_byte_offset == (if uvs_byte_offset != 0 {
                    Some(uvs_byte_offset)
                } else {
                    None
                })
                &&& p.colors_byte_offset == (if colors_byte_offset != 0 {
                    Some(colors_byte_offset)
                } else {
                    None
                })
            }
        }),
{
    let res = match selection.resource(resource) {
        Ok(res) => res,
        Err(e) => return Err(e),
    };
    assert(selected_resource(selection.resources_view(), resource) == Some(res@));
    if res.kind() != CsharpRenderResourceKind::Mesh {
        return Err(
            CsharpEngineServicesError::new(
                "CSHARP_STATIC_MESH_RESOURCE",
                String::from_str("static mesh appearance requires a mesh resource"),
            ),
        );
    }
    let n = groups.len();
    let mut planned: Vec<MeshGroup> = Vec::new();
    let mut slots: Vec<u16> = Vec::new();
    let mut i: usize = 0;
    while i < n
        invariant
            n == groups@.len(),
            i <= n,
            selected_resource(selection.resources_view(), resource) == Some(res@),
            res@.kind == CsharpRenderResourceKind::Mesh,
            planned@.len() == i,
            forall|k: int|
                0 <= k < i ==> #[trigger] planned@[k] == (MeshGroup {
                    material_slot: groups@[k].material_slot as u16,
                    start: groups@[k].start,
                    count: groups@[k].count,
                }),
            forall|k: int| 0 <= k < i ==> #[trigger] groups@[k].material_slot <= 0xffff,
            strictly_increasing(slots@),
            forall|x: u16|
                slots@.contains(x) <==> exists|k: int|
                    0 <= k < i && #[trigger] groups@[k].material_slot == x,
        decreases n - i,
    {
        let g = groups[i];
        if g.material_slot > 0xffff {
            proof {
                assert(!slots_fit(groups@));
            }
            return Err(
                CsharpEngineServicesError::new(
                    "CSHARP_STATIC_MESH_SLOT",
                    String::from_str("mesh material slot exceeded u16"),
                ),
            );
        }
        let slot = g.material_slot as u16;
        planned.push(MeshGroup { material_slot: slot, start: g.start, count: g.count });
        let ghost prior = slots@;
        insert_slot(&mut slots, slot);
        proof {
            assert forall|x: u16| slots@.contains(x) <==> exists|k: int|
                0 <= k < i + 1 && #[trigger] groups@[k].material_slot == x by {
                if prior.contains(x) {
                    let k = choose|k: int| 0 <= k < i && #[trigger] groups@[k].material_slot == x;
                    assert(0 <= k < i + 1 && groups@[k].material_slot == x);
                }
                if x == slot {
                    assert(groups@[i as int].material_slot == x);
                }
                if exists|k: int| 0 <= k < i + 1 && #[trigger] groups@[k].material_slot == x {
                    let k = choose|k: int| 0 <= k < i + 1 && #[trigger] groups@[k].material_slot == x;
                    if k < i {
                        assert(prior.contains(x));
                    }
                }
            }
        }
        i = i + 1;
    }
    assert(slots_fit(groups@));
    let encoding = match encoding {
        1 => MeshResourceEncoding::PackedStreamsLeV1,
        2 => MeshResourceEncoding::PackedStreamsLeV2,
        3 => MeshResourceEncoding::PackedStreamsLeV3,
        _ => {
            return Err(
                CsharpEngineServicesError::new(
                    "CSHARP_STATIC_MESH_ENCODING",
                    String::from_str("unknown packed mesh encoding"),
                ),
            );
        },
    };
    let length = res.bytes().len();
    if length > 0xffff_ffff {
        return Err(
            CsharpEngineServicesError::new(
                "CSHARP_STATIC_MESH_SIZE",
                String::from_str("mesh resource byte length exceeded u32"),
            ),
        );
    }
    let mut mesh_id = String::from_str("mesh/native-");
    append_decimal(&mut mesh_id, appearance);
    proof {
        reveal_strlit("mesh/native-");
    }
    let m = slots.len();
    let mut material_slots: Vec<MeshMaterialSlot> = Vec::new();
    let mut j: usize = 0;
    while j < m
        invariant
            m == slots@.len(),
            j <= m,
            material_slots@.len() == j,
            forall|k: int| 0 <= k < j ==> (#[trigger] material_slots@[k]).slot == slots@[k],
            forall|k: int|
                0 <= k < j ==> (#[trigger] material_slots@[k]).material@ == static_material_id(
                    appearance,
                    slots@[k],
                ),
        decreases m - j,
    {
        let slot = slots[j];
        let mut material = String::from_str("material/native-");
        append_decimal(&mut material, appearance);
        material.append("-");
        append_decimal(&mut material, slot as u64);
        proof {
            reveal_strlit("material/native-");
            reveal_strlit("-");
            assert(material@ =~= static_material_id(appearance, slot));
        }
        material_slots.push(MeshMaterialSlot { slot, material });
        j = j + 1;
    }
    let mut attributes: Vec<MeshAttribute> = Vec::new();
    attributes.push(MeshAttribute { name: MeshAttributeName::Position, components: 3 });
    attributes.push(MeshAttribute { name: MeshAttributeName::Normal, components: 3 });
    if uvs_byte_offset != 0 {
        attributes.push(MeshAttribute { name: MeshAttributeName::Uv, components: 2 });
    }
    if colors_byte_offset != 0 {
        attributes.push(MeshAttribute { name: MeshAttributeName::Color, components: 4 });
    }
    proof {
        assert(attributes@ =~= mesh_attributes(uvs_byte_offset != 0, colors_byte_offset != 0));
        assert forall|slot: u16| #[trigger] group_uses_slot(groups@, slot) implies exists|q: int|
            0 <= q < material_slots@.len() && #[trigger] material_slots@[q].slot == slot by {
            let k = choose|k: int|
                0 <= k < groups@.len() && #[trigger] groups@[k].material_slot == slot;
            assert(groups@[k].material_slot == slot);
            assert(slots@.contains(slot));
            let q = choose|q: int| 0 <= q < slots@.len() && slots@[q] == slot;
            assert(material_slots@[q].slot == slot);
        }
        assert forall|slot: u16|
            (exists|q: int| 0 <= q < material_slots@.len() && #[trigger] material_slots@[q].slot
                == slot) implies #[trigger] group_uses_slot(groups@, slot) by {
            let q = choose|q: int|
                0 <= q < material_slots@.len() && #[trigger] material_slots@[q].slot == slot;
            assert(slots@[q] == slot);
            assert(slots@.contains(slot));
        }
    }
    let ghost ms = material_slots@;
    let plan = StaticMeshPlan {
            mesh_id,
            groups: planned,
            material_slots,
            attributes,
            encoding,
            resource: res.identity().to_owned(),
            content_hash: res.content_hash().to_owned(),
            byte_length: length as u32,
            uvs_byte_offset: if uvs_byte_offset != 0 {
                Some(uvs_byte_offset)
            } else {
                None
            },
            colors_byte_offset: if colors_byte_offset != 0 {
                Some(colors_byte_offset)
            } else {
                None
            },
        };
    assert(plan.material_slots@ == ms);
    assert(forall|slot: u16| group_uses_slot(groups@, slot) ==> exists|q: int|
            0 <= q < ms.len() && #[trigger] ms[q].slot == slot);
    Ok(plan)
}

/// A material override a product requests for an embedded slot of an
/// animated mesh.
#[derive(Debug, Clone, Copy, PartialEq, Eq, Structural)]
pub struct NativeMaterialBinding {
    pub material_slot: u32,
    pub material: u64,
}

/// The material overrides of a mesh appearance, in request order, and the
/// distinct material handles they hold, in increasing order.
#[derive(Debug)]
pub struct MeshMaterialBindings {
    pub overrides: Vec<MeshMaterialSlot>,
    pub material_handles: Vec<u64>,
}

/// Whether binding `i` names a slot that is out of range, repeats an
/// earlier binding's slot, or, for an animated mesh with the `embedded`
/// slots, is not one of them.
pub open spec fn binding_slot_refused(
    bindings: Seq<NativeMaterialBinding>,
    i: int,
    embedded: Option<Seq<u16>>,
) -> bool {
    let slot = bindings[i].material_slot;
    ||| slot > 0xffff
    ||| exists|k: int| 0 <= k < i && #[trigger] bindings[k].material_slot == slot
    ||| embedded matches Some(e) && !e.contains(slot as u16)
}

/// Whether binding `i` is refused: for its slot, or for a material
/// handle that is not live.
pub open spec fn binding_refused(
    bindings: Seq<NativeMaterialBinding>,
    i: int,
    embedded: Option<Seq<u16>>,
    live: Set<u64>,
) -> bool {
    binding_slot_refused(bindings, i, embedded) || !live.contains(bindings[i].material)
}

/// The error code of a refused binding: a slot error of an animated mesh
/// (with embedded slots) or a static mesh, or a material that is not live.
pub open spec fn binding_refusal_code(
    bindings: Seq<NativeMaterialBinding>,
    i: int,
    embedded: Option<Seq<u16>>,
) -> Seq<char> {
    if binding_slot_refused(bindings, i, embedded) {
        if embedded is Some {
            "CSHARP_ANIMATED_MESH_SLOT"@
        } else {
            "CSHARP_STATIC_MESH_SLOT"@
        }
    } else {
        "CSHARP_MATERIAL_HANDLE"@
    }
}

/// Inserts `h` into a strictly increasing handle list, keeping it so.
fn insert_handle(handles: &mut Vec<u64>, h: u64)
    requires
        strictly_increasing_handles(old(handles)@),
    ensures
        strictly_increasing_handles(final(handles)@),
        forall|x: u64| final(handles)@.contains(x) <==> (old(handles)@.contains(x) || x == h),
{
    let n = handles.len();
    let mut i: usize = 0;
    while i < n && handles[i] < h
        invariant
            n == handles@.len(),
            i <= n,
            forall|k: int| 0 <= k < i ==> handles@[k] < h,
        decreases n - i,
    {
        i = i + 1;
    }
    if i < n && handles[i] == h {
        assert(handles@.contains(h));
        return;
    }
    let ghost before = handles@;
    assert(before == old(handles)@);
    handles.insert(i, h);
    proof {
        assert forall|a: int, b: int| 0 <= a < b < handles@.len() implies handles@[a]
            < handles@[b] by {
            if b < i {
            } else if b == i {
            } else if a < i {
                assert(handles@[b] == before[b - 1]);
                assert(before[i as int] > h);
                if b - 1 > i {
                    assert(before[i as int] < before[b - 1]);
                }
            } else if a == i {
                assert(before[i as int] > h);
                if b - 1 > i {
                    assert(before[i as int] < before[b - 1]);
                }
            } else {
                assert(before[a - 1] < before[b - 1]);
            }
        }
        assert forall|x: u64| handles@.contains(x) <==> (before.contains(x) || x == h) by {
            if handles@.contains(x) {
                let k = choose|k: int| 0 <= k < handles@.len() && handles@[k] == x;
                if k < i {
                    assert(before[k] == x);
                } else if k > i {
                    assert(before[k - 1] == x);
                }
            }
            if before.contains(x) {
                let k = choose|k: int| 0 <= k < before.len() && before[k] == x;
                if k < i {
                    assert(handles@[k] == x);
                } else {
                    assert(handles@[k + 1] == x);
                }
            }
            if x == h {
                assert(handles@[i as int] == h);
            }
        }
    }
}

fn slot_embedded(embedded: &Vec<u16>, slot: u16) -> (b: bool)
    ensures
        b == embedded@.contains(slot),
{
    let n = embedded.len();
    let mut i: usize = 0;
    while i < n
        invariant
            n == embedded@.len(),
            i <= n,
            forall|k: int| 0 <= k < i ==> embedded@[k] != slot,
        decreases n - i,
    {
        if embedded[i] == slot {
            return true;
        }
        i = i + 1;
    }
    false
}

/// The embedded slots of an animated mesh, or `None` for a static mesh.
pub open spec fn embedded_view(embedded_slots: Option<&Vec<u16>>) -> Option<Seq<u16>> {
    match embedded_slots {
        Some(e) => Some(e@),
        None => None,
    }
}

/// The material overrides a mesh takes from `bindings`: every slot must
/// fit in sixteen bits and appear once, for an animated mesh (given its
/// embedded slots) it must be embedded, and every material must be live in
/// `materials` (handle to material identity). The first refused binding
/// decides the error.
pub fn bind_mesh_materials(
    bindings: &Vec<NativeMaterialBinding>,
    embedded_slots: Option<&Vec<u16>>,
    materials: &HandleTable<String>,
) -> (r: Result<MeshMaterialBindings, CsharpEngineServicesError>)
    requires
        materials.wf(),
    ensures
        ({
            let b = bindings@;
            let live = materials@.dom();
            let embedded = embedded_view(embedded_slots);
            &&& r is Ok <==> forall|i: int|
                0 <= i < b.len() ==> !#[trigger] binding_refused(b, i, embedded, live)
            &&& r matches Err(e) ==> exists|i: int|
                0 <= i < b.len() && #[trigger] binding_refused(b, i, embedded, live) && (
                forall|k: int| 0 <= k < i ==> !#[trigger] binding_refused(b, k, embedded, live))
                && e.code_view() == binding_refusal_code(b, i, embedded)
            &&& r matches Ok(m) ==> {
                &&& m.overrides@.len() == b.len()
                &&& forall|i: int|
                    0 <= i < b.len() ==> (#[trigger] m.overrides@[i]).slot == b[i].material_slot
                        && m.overrides@[i].material@ == materials@[b[i].material]@
                &&& strictly_increasing_handles(m.material_handles@)
                &&& forall|x: u64|
                    m.material_handles@.contains(x) <==> exists|i: int|
                        0 <= i < b.len() && #[trigger] b[i].material == x
            }
        }),
{
    let ghost embedded = embedded_view(embedded_slots);
    let n = bindings.len();
    let mut overrides: Vec<MeshMaterialSlot> = Vec::new();
    let mut handles: Vec<u64> = Vec::new();
    let mut i: usize = 0;
    while i < n
        invariant
            n == bindings@.len(),
            i <= n,
            materials.wf(),
            embedded == embedded_view(embedded_slots),
            forall|k: int|
                0 <= k < i ==> !#[trigger] binding_refused(
                    bindings@,
                    k,
                    embedded,
                    materials@.dom(),
                ),
            overrides@.len() == i,
            forall|k: int|
                0 <= k < i ==> (#[trigger] overrides@[k]).slot == bindings@[k].material_slot
                    && overrides@[k].material@ == materials@[bindings@[k].material]@,
            strictly_increasing_handles(handles@),
            forall|x: u64|
                handles@.contains(x) <==> exists|k: int|
                    0 <= k < i && #[trigger] bindings@[k].material == x,
        decreases n - i,
    {
        let binding = bindings[i];
        let mut repeated = false;
        let mut j: usize = 0;
        while j < i
            invariant
                n == bindings@.len(),
                i < n,
                j <= i,
                binding == bindings@[i as int],
                repeated <==> exists|k: int|
                    0 <= k < j && #[trigger] bindings@[k].material_slot == binding.material_slot,
            decreases i - j,
        {
            if bindings[j].material_slot == binding.material_slot {
                repeated = true;
            }
            j = j + 1;
        }
        let slot_refused = binding.material_slot > 0xffff || repeated || match embedded_slots {
            Some(e) => !slot_embedded(e, binding.material_slot as u16),
            None => false,
        };
        if slot_refused {
            assert(binding_slot_refused(bindings@, i as int, embedded));
            assert(binding_refused(bindings@, i as int, embedded, materials@.dom()));
            let e = match embedded_slots {
                Some(_) => CsharpEngineServicesError::new(
                    "CSHARP_ANIMATED_MESH_SLOT",
                    String::from_str(
                        "animated mesh material bindings must name distinct embedded slots",
                    ),
                ),
                None => CsharpEngineServicesError::new(
                    "CSHARP_STATIC_MESH_SLOT",
                    String::from_str("mesh material bindings must name distinct u16 slots"),
                ),
            };
            assert(e.code_view() == binding_refusal_code(bindings@, i as int, embedded));
            return Err(e);
        }
        let material = match materials.get(binding.material) {
            Some(m) => m.clone(),
            None => {
                assert(!binding_slot_refused(bindings@, i as int, embedded));
                assert(binding_refused(bindings@, i as int, embedded, materials@.dom()));
                let e = CsharpEngineServicesError::new(
                    "CSHARP_MATERIAL_HANDLE",
                    String::from_str("material handle is not live"),
                );
                assert(e.code_view() == binding_refusal_code(bindings@, i as int, embedded));
                return Err(e);
            },
        };
        overrides.push(MeshMaterialSlot { slot: binding.material_slot as u16, material });
        let ghost prior = handles@;
        insert_handle(&mut handles, binding.material);
        proof {
            assert forall|x: u64| handles@.contains(x) <==> exists|k: int|
                0 <= k < i + 1 && #[trigger] bindings@[k].material == x by {
                if prior.contains(x) {
                    let k = choose|k: int| 0 <= k < i && #[trigger] bindings@[k].material == x;
                    assert(0 <= k < i + 1 && bindings@[k].material == x);
                }
                if x == binding.material {
                    assert(bindings@[i as int].material == x);
                }
                if exists|k: int| 0 <= k < i + 1 && #[trigger] bindings@[k].material == x {
                    let k = choose|k: int| 0 <= k < i + 1 && #[trigger] bindings@[k].material == x;
                    if k < i {
                        assert(prior.contains(x));
                    }
                }
            }
        }
        i = i + 1;
    }
    Ok(MeshMaterialBindings { overrides, material_handles: handles })
}

/// The digest text of a `sha256:` content hash, after its prefix.
pub open spec fn sha256_digest_text(h: Seq<char>) -> Seq<char> {
    h.subrange(7, h.len() as int)
}

/// The renderer asset of the clip pack whose content hash is `pack_hash`.
pub open spec fn clip_pack_asset(pack_hash: Seq<char>) -> Seq<char> {
    "animation-clip-pack/"@ + sha256_digest_text(pack_hash)
}

/// The error code under which the resources `primary` and `pack` (or
/// `None` where a handle selects nothing) cannot be associated, if any: a
/// primary animated GLB and an animation clip pack are required.
pub open spec fn clip_pack_refusal(
    primary: Option<RenderResourceView>,
    pack: Option<RenderResourceView>,
) -> Option<Seq<char>> {
    if primary is None {
        Some("CSHARP_RENDER_RESOURCE_HANDLE"@)
    } else if primary->0.kind != CsharpRenderResourceKind::AnimatedMesh {
        Some("CSHARP_ANIMATION_CLIP_PACK_PRIMARY"@)
    } else if pack is None {
        Some("CSHARP_RENDER_RESOURCE_HANDLE"@)
    } else if pack->0.kind != CsharpRenderResourceKind::AnimationClipPack {
        Some("CSHARP_ANIMATION_CLIP_PACK_RESOURCE_KIND"@)
    } else {
        None
    }
}

/// Checks the resource kinds of a clip-pack association and names the
/// associated pack's renderer asset after its content digest.
pub fn clip_pack_association_asset(selection: &ResourceSelection, primary: u64, pack: u64) -> (r:
    Result<String, CsharpEngineServicesError>)
    requires
        selection.wf(),
    ensures
        ({
            let p = selected_resource(selection.resources_view(), primary);
            let q = selected_resource(selection.resources_view(), pack);
            let refusal = clip_pack_refusal(p, q);
            &&& r is Ok <==> refusal is None
            &&& r matches Err(e) ==> refusal == Some(e.code_view())
            &&& r matches Ok(asset) ==> asset@ == clip_pack_asset(q->0.content_hash)
        }),
{
    let p = match selection.resource(primary) {
        Ok(p) => p,
        Err(e) => return Err(e),
    };
    if p.kind() != CsharpRenderResourceKind::AnimatedMesh {
        return Err(
            CsharpEngineServicesError::new(
                "CSHARP_ANIMATION_CLIP_PACK_PRIMARY",
                String::from_str(
                    "clip-pack association requires an admitted primary animated mesh",
                ),
            ),
        );
    }
    let q = match selection.resource(pack) {
        Ok(q) => q,
        Err(e) => return Err(e),
    };
    if q.kind() != CsharpRenderResourceKind::AnimationClipPack {
        return Err(
            CsharpEngineServicesError::new(
                "CSHARP_ANIMATION_CLIP_PACK_RESOURCE_KIND",
                String::from_str(
                    "clip-pack association requires an admitted animation clip-pack resource",
                ),
            ),
        );
    }
    let hash = q.content_hash();
    proof {
        let index = if pack == 0 {
            0
        } else {
            pack - 1
        };
        selection.lemma_selected_wf(index as int);
    }
    let digest = hash.substring_char(7, hash.unicode_len());
    let mut asset = String::from_str("animation-clip-pack/");
    asset.append(digest);
    proof {
        reveal_strlit("animation-clip-pack/");
    }
    Ok(asset)
}

/// Whether clip packs may still be associated with the primary animated
/// GLB `primary`: no animated appearance (whose resource handles are
/// `animated_resources`) and no animation graph may use it yet.
pub fn check_association_open(
    registry: &AnimationRegistry,
    animated_resources: &Vec<u64>,
    primary: u64,
) -> (r: Result<(), CsharpEngineServicesError>)
    requires
        registry.wf(),
    ensures
        r is Ok <==> !animated_resources@.contains(primary) && !registry.has_graph_over(primary),
        r matches Err(e) ==> e.code_view() == "CSHARP_ANIMATION_CLIP_PACK_ASSOCIATION_CLOSED"@,
{
    let n = animated_resources.len();
    let mut in_use = false;
    let mut i: usize = 0;
    while i < n
        invariant
            n == animated_resources@.len(),
            i <= n,
            in_use <==> exists|k: int| 0 <= k < i && animated_resources@[k] == primary,
        decreases n - i,
    {
        if animated_resources[i] == primary {
            in_use = true;
        }
        i = i + 1;
    }
    if in_use || registry.graph_over(primary) {
        return Err(
            CsharpEngineServicesError::new(
                "CSHARP_ANIMATION_CLIP_PACK_ASSOCIATION_CLOSED",
                String::from_str(
                    "associate clip packs before creating an animated appearance or graph for the primary mesh",
                ),
            ),
        );
    }
    Ok(())
}

/// The clip packs associated with each primary animated GLB, by resource
/// handle, in association order.
#[derive(Debug)]
pub struct ClipPackAssociations {
    packs: HandleTable<Vec<u64>>,
}

impl View for ClipPackAssociations {
    type V = Map<u64, Seq<u64>>;

    closed spec fn view(&self) -> Map<u64, Seq<u64>> {
        self.packs@.map_values(|v: Vec<u64>| v@)
    }
}

impl ClipPackAssociations {
    pub closed spec fn wf(&self) -> bool {
        self.packs.wf()
    }

    /// The packs associated with `primary`, in association order.
    pub open spec fn packs_of(&self, primary: u64) -> Seq<u64> {
        if self@.dom().contains(primary) {
            self@[primary]
        } else {
            Seq::empty()
        }
    }

    /// No associations.
    pub fn new() -> (r: Self)
        ensures
            r.wf(),
            r@ == Map::<u64, Seq<u64>>::empty(),
    {
        let r = ClipPackAssociations { packs: HandleTable::new() };
        assert(r@ =~= Map::<u64, Seq<u64>>::empty());
        r
    }

    /// The packs associated with `primary`, in association order.
    pub fn packs(&self, primary: u64) -> (v: Vec<u64>)
        requires
            self.wf(),
        ensures
            v@ == self.packs_of(primary),
    {
        match self.packs.get(primary) {
            Some(list) => {
                let mut out: Vec<u64> = Vec::new();
                let n = list.len();
                let mut i: usize = 0;
                while i < n
                    invariant
                        n == list@.len(),
                        i <= n,
                        out@ == list@.subrange(0, i as int),
                    decreases n - i,
                {
                    out.push(list[i]);
                    i = i + 1;
                    assert(out@ =~= list@.subrange(0, i as int));
                }
                assert(list@.subrange(0, n as int) =~= list@);
                out
            },
            None => Vec::new(),
        }
    }

    /// Associates the clip pack `pack` with the primary animated GLB
    /// `primary`, in the Engine's order: both resource kinds, then the
    /// renderer model's verdict on the pair (named skin rigs on both sides
    /// with compatible signatures, and the primary's descriptor valid with
    /// the pack added), then that no animated appearance (whose resource
    /// handles are `animated_resources`) and no animation graph uses the
    /// primary yet. Returns the pack's renderer asset; a refusal changes
    /// nothing.
    pub fn associate(
        &mut self,
        selection: &ResourceSelection,
        registry: &AnimationRegistry,
        animated_resources: &Vec<u64>,
        primary: u64,
        pack: u64,
        model_verdict: Result<(), CsharpEngineServicesError>,
    ) -> (r: Result<String, CsharpEngineServicesError>)
        requires
            old(self).wf(),
            selection.wf(),
            registry.wf(),
        ensures
            final(self).wf(),
            r is Err ==> final(self)@ == old(self)@,
            ({
                let p = selected_resource(selection.resources_view(), primary);
                let q = selected_resource(selection.resources_view(), pack);
                let refusal = clip_pack_refusal(p, q);
                if refusal is Some {
                    r matches Err(e) && refusal == Some(e.code_view())
                } else if model_verdict is Err {
                    r matches Err(e) && model_verdict matches Err(m) && e == m
                } else if animated_resources@.contains(primary) || registry.has_graph_over(
                    primary,
                ) {
                    r matches Err(e) && e.code_view()
                        == "CSHARP_ANIMATION_CLIP_PACK_ASSOCIATION_CLOSED"@
                } else {
                    &&& r matches Ok(asset) && asset@ == clip_pack_asset(q->0.content_hash)
                    &&& final(self)@ == old(self)@.insert(
                        primary,
                        old(self).packs_of(primary).push(pack),
                    )
                }
            }),
    {
        let asset = match clip_pack_association_asset(selection, primary, pack) {
            Ok(a) => a,
            Err(e) => return Err(e),
        };
        if let Err(e) = model_verdict {
            return Err(e);
        }
        if let Err(e) = check_association_open(registry, animated_resources, primary) {
            return Err(e);
        }
        let ghost before = self@;
        let ghost prior = self.packs_of(primary);
        let mut list = match self.packs.remove(primary) {
            Some(list) => list,
            None => Vec::new(),
        };
        assert(list@ == prior);
        list.push(pack);
        let ghost lv = list@;
        self.packs.insert(primary, list);
        assert(self@ =~= before.insert(primary, lv));
        Ok(asset)
    }
}

} // verus!
