//! The camera and view registry: cameras, offscreen targets, the views
//! that render cameras into targets or the primary surface, the
//! presentations that place targets on the primary surface, the
//! active-camera convenience and the sky background.
//!
//! Camera and target descriptors and viewports are carried through as
//! opaque values: their floating-point contents are validated by the
//! renderer contract outside this registry.

use crate::error::CsharpEngineServicesError;
use crate::table::HandleTable;
use vstd::prelude::*;
use vstd::string::StringExecFns;

verus! {

/// A live camera: its descriptor and the viewport it asks for.
#[derive(Debug, Clone, Copy)]
pub struct CameraEntry<C, V> {
    pub descriptor: C,
    pub viewport: V,
}

/// A live offscreen target: its descriptor and revision.
#[derive(Debug, Clone, Copy)]
pub struct TargetEntry<T> {
    pub descriptor: T,
    pub revision: u64,
}

/// A view: a camera rendering into a target (zero names the primary
/// surface) at a viewport, in an order.
#[derive(Debug, Clone, Copy)]
pub struct CameraCompositionView<V> {
    pub camera: u64,
    pub target: u64,
    pub viewport: V,
    pub order: i32,
}

/// A presentation: an offscreen target placed on the primary surface.
#[derive(Debug, Clone, Copy)]
pub struct CameraCompositionPresentation<V> {
    pub source_target: u64,
    pub destination: V,
    pub order: i32,
}

/// A view of the renderer composition: its camera, its target (zero for
/// the primary surface) and that target's revision (zero for the
/// primary surface).
#[derive(Debug, Clone, Copy)]
pub struct PlannedView<V> {
    pub camera: u64,
    pub target: u64,
    pub target_revision: u64,
    pub viewport: V,
    pub order: i32,
}

/// A presentation of the renderer composition with its source target's
/// revision.
#[derive(Debug, Clone, Copy)]
pub struct PlannedPresentation<V> {
    pub source_target: u64,
    pub source_target_revision: u64,
    pub destination: V,
    pub order: i32,
}

/// The renderer composition: the cameras and targets in use, in handle
/// order, and the views and presentations in product order.
#[derive(Debug)]
pub struct CompositionPlan<V> {
    pub cameras: Vec<u64>,
    pub targets: Vec<(u64, u64)>,
    pub views: Vec<PlannedView<V>>,
    pub presentations: Vec<PlannedPresentation<V>>,
}

/// Some view renders camera `c`.
pub open spec fn uses_camera<V>(views: Seq<CameraCompositionView<V>>, c: u64) -> bool {
    exists|i: int| 0 <= i < views.len() && views[i].camera == c
}

/// Some view renders into target `t`, or some presentation shows it.
pub open spec fn uses_target<V>(
    views: Seq<CameraCompositionView<V>>,
    presentations: Seq<CameraCompositionPresentation<V>>,
    t: u64,
) -> bool {
    ||| exists|i: int| 0 <= i < views.len() && views[i].target == t
    ||| exists|i: int| 0 <= i < presentations.len() && presentations[i].source_target == t
}

/// The handles of `keys`, in order, that satisfy `used`.
pub open spec fn used_keys(keys: Seq<u64>, used: spec_fn(u64) -> bool) -> Seq<u64>
    decreases keys.len(),
{
    if keys.len() == 0 {
        Seq::empty()
    } else {
        let init = used_keys(keys.drop_last(), used);
        if used(keys.last()) {
            init.push(keys.last())
        } else {
            init
        }
    }
}

/// The views that do not render into target `t`, in order.
pub open spec fn views_off_target<V>(views: Seq<CameraCompositionView<V>>, t: u64) -> Seq<
    CameraCompositionView<V>,
>
    decreases views.len(),
{
    if views.len() == 0 {
        Seq::empty()
    } else {
        let init = views_off_target(views.drop_last(), t);
        if views.last().target != t {
            init.push(views.last())
        } else {
            init
        }
    }
}

/// The views that do not render camera `c`, in order.
pub open spec fn views_off_camera<V>(views: Seq<CameraCompositionView<V>>, c: u64) -> Seq<
    CameraCompositionView<V>,
>
    decreases views.len(),
{
    if views.len() == 0 {
        Seq::empty()
    } else {
        let init = views_off_camera(views.drop_last(), c);
        if views.last().camera != c {
            init.push(views.last())
        } else {
            init
        }
    }
}

/// The presentations that do not show target `t`, in order.
pub open spec fn presentations_off_target<V>(
    ps: Seq<CameraCompositionPresentation<V>>,
    t: u64,
) -> Seq<CameraCompositionPresentation<V>>
    decreases ps.len(),
{
    if ps.len() == 0 {
        Seq::empty()
    } else {
        let init = presentations_off_target(ps.drop_last(), t);
        if ps.last().source_target != t {
            init.push(ps.last())
        } else {
            init
        }
    }
}

/// Every view names a live camera and the primary surface or a live
/// target, and every presentation names a live target.
pub open spec fn composition_consistent<C, T, V>(
    cameras: Map<u64, CameraEntry<C, V>>,
    targets: Map<u64, TargetEntry<T>>,
    views: Seq<CameraCompositionView<V>>,
    presentations: Seq<CameraCompositionPresentation<V>>,
) -> bool {
    &&& forall|i: int|
        0 <= i < views.len() ==> cameras.dom().contains(#[trigger] views[i].camera)
    &&& forall|i: int|
        0 <= i < views.len() ==> (#[trigger] views[i].target) == 0 || targets.dom().contains(
            views[i].target,
        )
    &&& forall|i: int|
        0 <= i < presentations.len() ==> targets.dom().contains(
            #[trigger] presentations[i].source_target,
        )
}

/// The first position at which a requested composition fails, and the
/// code it fails with: views before presentations, a view's camera
/// before its target.
pub open spec fn composition_fault<C, T, V>(
    cameras: Map<u64, CameraEntry<C, V>>,
    targets: Map<u64, TargetEntry<T>>,
    views: Seq<CameraCompositionView<V>>,
    presentations: Seq<CameraCompositionPresentation<V>>,
) -> Option<Seq<char>> {
    if exists|i: int|
        0 <= i < views.len() && (!cameras.dom().contains(views[i].camera) || (views[i].target != 0
            && !targets.dom().contains(views[i].target))) {
        let i = choose|i: int|
            0 <= i < views.len() && (!cameras.dom().contains(views[i].camera) || (views[i].target
                != 0 && !targets.dom().contains(views[i].target))) && forall|j: int|
                0 <= j < i ==> cameras.dom().contains(views[j].camera) && (views[j].target == 0
                    || targets.dom().contains(views[j].target));
        if !cameras.dom().contains(views[i].camera) {
            Some("CSHARP_CAMERA_COMPOSITION_CAMERA"@)
        } else {
            Some("CSHARP_CAMERA_COMPOSITION_TARGET"@)
        }
    } else if exists|i: int|
        0 <= i < presentations.len() && !targets.dom().contains(presentations[i].source_target) {
        Some("CSHARP_CAMERA_COMPOSITION_TARGET"@)
    } else {
        None
    }
}

/// The planned form of a view: primary-surface views carry revision
/// zero, offscreen views their target's revision.
pub open spec fn planned_view<T, V>(v: CameraCompositionView<V>, targets: Map<u64, TargetEntry<T>>) -> PlannedView<V> {
    PlannedView {
        camera: v.camera,
        target: v.target,
        target_revision: if v.target == 0 {
            0
        } else {
            targets[v.target].revision
        },
        viewport: v.viewport,
        order: v.order,
    }
}

/// The planned form of a presentation, with its source target's revision.
pub open spec fn planned_presentation<T, V>(
    p: CameraCompositionPresentation<V>,
    targets: Map<u64, TargetEntry<T>>,
) -> PlannedPresentation<V> {
    PlannedPresentation {
        source_target: p.source_target,
        source_target_revision: targets[p.source_target].revision,
        destination: p.destination,
        order: p.order,
    }
}

/// The camera and view registry.
pub struct CameraRegistry<C, T, V> {
    cameras: HandleTable<CameraEntry<C, V>>,
    targets: HandleTable<TargetEntry<T>>,
    views: Vec<CameraCompositionView<V>>,
    presentations: Vec<CameraCompositionPresentation<V>>,
    active_camera: Option<u64>,
    sky_texture: Option<u64>,
    next_camera: u64,
    next_target: u64,
}

/// A view rendering camera `from` renders camera `to` instead.
pub open spec fn camera_rewired<V>(v: CameraCompositionView<V>, from: u64, to: u64) -> CameraCompositionView<V> {
    if v.camera == from {
        CameraCompositionView { camera: to, ..v }
    } else {
        v
    }
}

/// A view rendering into target `from` renders into target `to` instead.
pub open spec fn target_rewired<V>(v: CameraCompositionView<V>, from: u64, to: u64) -> CameraCompositionView<V> {
    if v.target == from {
        CameraCompositionView { target: to, ..v }
    } else {
        v
    }
}

/// A presentation of target `from` shows target `to` instead.
pub open spec fn source_rewired<V>(
    p: CameraCompositionPresentation<V>,
    from: u64,
    to: u64,
) -> CameraCompositionPresentation<V> {
    if p.source_target == from {
        CameraCompositionPresentation { source_target: to, ..p }
    } else {
        p
    }
}

/// The first view, if any, takes viewport `viewport`.
pub open spec fn with_first_viewport<V>(views: Seq<CameraCompositionView<V>>, viewport: V) -> Seq<
    CameraCompositionView<V>,
> {
    if views.len() > 0 {
        views.update(0, CameraCompositionView { viewport, ..views[0] })
    } else {
        views
    }
}

fn rewire_cameras<V: Copy>(views: &mut Vec<CameraCompositionView<V>>, from: u64, to: u64)
    ensures
        final(views)@.len() == old(views)@.len(),
        forall|i: int|
            0 <= i < old(views)@.len() ==> #[trigger] final(views)@[i] == camera_rewired(
                old(views)@[i],
                from,
                to,
            ),
{
    let n = views.len();
    let mut i: usize = 0;
    while i < n
        invariant
            n == views@.len(),
            n == old(views)@.len(),
            i <= n,
            forall|k: int| 0 <= k < i ==> #[trigger] views@[k] == camera_rewired(old(views)@[k], from, to),
            forall|k: int| i <= k < n ==> #[trigger] views@[k] == old(views)@[k],
        decreases n - i,
    {
        let v = views[i];
        if v.camera == from {
            views.set(i, CameraCompositionView { camera: to, target: v.target, viewport: v.viewport, order: v.order });
        }
        i = i + 1;
    }
}

fn rewire_view_targets<V: Copy>(views: &mut Vec<CameraCompositionView<V>>, from: u64, to: u64)
    ensures
        final(views)@.len() == old(views)@.len(),
        forall|i: int|
            0 <= i < old(views)@.len() ==> #[trigger] final(views)@[i] == target_rewired(
                old(views)@[i],
                from,
                to,
            ),
{
    let n = views.len();
    let mut i: usize = 0;
    while i < n
        invariant
            n == views@.len(),
            n == old(views)@.len(),
            i <= n,
            forall|k: int| 0 <= k < i ==> #[trigger] views@[k] == target_rewired(old(views)@[k], from, to),
            forall|k: int| i <= k < n ==> #[trigger] views@[k] == old(views)@[k],
        decreases n - i,
    {
        let v = views[i];
        if v.target == from {
            views.set(i, CameraCompositionView { camera: v.camera, target: to, viewport: v.viewport, order: v.order });
        }
        i = i + 1;
    }
}

fn rewire_sources<V: Copy>(ps: &mut Vec<CameraCompositionPresentation<V>>, from: u64, to: u64)
    ensures
        final(ps)@.len() == old(ps)@.len(),
        forall|i: int|
            0 <= i < old(ps)@.len() ==> #[trigger] final(ps)@[i] == source_rewired(old(ps)@[i], from, to),
{
    let n = ps.len();
    let mut i: usize = 0;
    while i < n
        invariant
            n == ps@.len(),
            n == old(ps)@.len(),
            i <= n,
            forall|k: int| 0 <= k < i ==> #[trigger] ps@[k] == source_rewired(old(ps)@[k], from, to),
            forall|k: int| i <= k < n ==> #[trigger] ps@[k] == old(ps)@[k],
        decreases n - i,
    {
        let p = ps[i];
        if p.source_target == from {
            ps.set(i, CameraCompositionPresentation { source_target: to, destination: p.destination, order: p.order });
        }
        i = i + 1;
    }
}

fn drop_camera_views<V: Copy>(views: &Vec<CameraCompositionView<V>>, c: u64) -> (r: Vec<CameraCompositionView<V>>)
    ensures
        r@ == views_off_camera(views@, c),
        forall|k: int| 0 <= k < r@.len() ==> (#[trigger] r@[k]).camera != c && exists|j: int|
            0 <= j < views@.len() && views@[j] == r@[k],
{
    let n = views.len();
    let mut out: Vec<CameraCompositionView<V>> = Vec::new();
    let mut i: usize = 0;
    while i < n
        invariant
            n == views@.len(),
            i <= n,
            out@ == views_off_camera(views@.subrange(0, i as int), c),
            forall|k: int| 0 <= k < out@.len() ==> (#[trigger] out@[k]).camera != c && exists|j: int|
                0 <= j < views@.len() && views@[j] == out@[k],
        decreases n - i,
    {
        proof {
            let next = views@.subrange(0, i + 1);
            assert(next.drop_last() =~= views@.subrange(0, i as int));
        }
        let v = views[i];
        if v.camera != c {
            out.push(v);
            proof {
                assert(views@[i as int] == out@[out@.len() - 1]);
            }
        }
        i = i + 1;
    }
    assert(views@.subrange(0, n as int) =~= views@);
    out
}

fn drop_target_views<V: Copy>(views: &Vec<CameraCompositionView<V>>, t: u64) -> (r: Vec<CameraCompositionView<V>>)
    ensures
        r@ == views_off_target(views@, t),
        forall|k: int| 0 <= k < r@.len() ==> (#[trigger] r@[k]).target != t && exists|j: int|
            0 <= j < views@.len() && views@[j] == r@[k],
{
    let n = views.len();
    let mut out: Vec<CameraCompositionView<V>> = Vec::new();
    let mut i: usize = 0;
    while i < n
        invariant
            n == views@.len(),
            i <= n,
            out@ == views_off_target(views@.subrange(0, i as int), t),
            forall|k: int| 0 <= k < out@.len() ==> (#[trigger] out@[k]).target != t && exists|j: int|
                0 <= j < views@.len() && views@[j] == out@[k],
        decreases n - i,
    {
        proof {
            let next = views@.subrange(0, i + 1);
            assert(next.drop_last() =~= views@.subrange(0, i as int));
        }
        let v = views[i];
        if v.target != t {
            out.push(v);
            proof {
                assert(views@[i as int] == out@[out@.len() - 1]);
            }
        }
        i = i + 1;
    }
    assert(views@.subrange(0, n as int) =~= views@);
    out
}

fn drop_target_presentations<V: Copy>(ps: &Vec<CameraCompositionPresentation<V>>, t: u64) -> (r: Vec<
    CameraCompositionPresentation<V>,
>)
    ensures
        r@ == presentations_off_target(ps@, t),
        forall|k: int| 0 <= k < r@.len() ==> (#[trigger] r@[k]).source_target != t && exists|j: int|
            0 <= j < ps@.len() && ps@[j] == r@[k],
{
    let n = ps.len();
    let mut out: Vec<CameraCompositionPresentation<V>> = Vec::new();
    let mut i: usize = 0;
    while i < n
        invariant
            n == ps@.len(),
            i <= n,
            out@ == presentations_off_target(ps@.subrange(0, i as int), t),
            forall|k: int| 0 <= k < out@.len() ==> (#[trigger] out@[k]).source_target != t && exists|j: int|
                0 <= j < ps@.len() && ps@[j] == out@[k],
        decreases n - i,
    {
        proof {
            let next = ps@.subrange(0, i + 1);
            assert(next.drop_last() =~= ps@.subrange(0, i as int));
        }
        let p = ps[i];
        if p.source_target != t {
            out.push(p);
            proof {
                assert(ps@[i as int] == out@[out@.len() - 1]);
            }
        }
        i = i + 1;
    }
    assert(ps@.subrange(0, n as int) =~= ps@);
    out
}

fn camera_handle_error() -> (e: CsharpEngineServicesError)
    ensures
        e.code_view() == "CSHARP_CAMERA_HANDLE"@,
{
    CsharpEngineServicesError::new("CSHARP_CAMERA_HANDLE", String::from_str("camera handle is not live"))
}

fn target_handle_error() -> (e: CsharpEngineServicesError)
    ensures
        e.code_view() == "CSHARP_CAMERA_TARGET_HANDLE"@,
{
    CsharpEngineServicesError::new(
        "CSHARP_CAMERA_TARGET_HANDLE",
        String::from_str("target handle is not live"),
    )
}

impl<C: Copy, T: Copy, V: Copy> CameraRegistry<C, T, V> {
    /// The live cameras.
    pub closed spec fn cameras_view(&self) -> Map<u64, CameraEntry<C, V>> {
        self.cameras@
    }

    /// The live offscreen targets.
    pub closed spec fn targets_view(&self) -> Map<u64, TargetEntry<T>> {
        self.targets@
    }

    /// The current views, in product order.
    pub closed spec fn views_view(&self) -> Seq<CameraCompositionView<V>> {
        self.views@
    }

    /// The current presentations, in product order.
    pub closed spec fn presentations_view(&self) -> Seq<CameraCompositionPresentation<V>> {
        self.presentations@
    }

    /// The camera selected by the active-camera convenience, if any.
    pub closed spec fn active_view(&self) -> Option<u64> {
        self.active_camera
    }

    /// The sky background texture, if any.
    pub closed spec fn sky_view(&self) -> Option<u64> {
        self.sky_texture
    }

    /// The handle the next camera receives.
    pub closed spec fn next_camera_view(&self) -> u64 {
        self.next_camera
    }

    /// The handle the next target receives.
    pub closed spec fn next_target_view(&self) -> u64 {
        self.next_target
    }

    /// Tables are well formed; handles are never reused and zero never
    /// names a target; every view and presentation names live cameras and
    /// targets; the active camera is live.
    pub closed spec fn wf(&self) -> bool {
        &&& self.cameras.wf()
        &&& self.targets.wf()
        &&& self.cameras.all_below(self.next_camera)
        &&& self.targets.all_below(self.next_target)
        &&& 1 <= self.next_camera && 1 <= self.next_target
        &&& !self.targets@.dom().contains(0)
        &&& composition_consistent(self.cameras@, self.targets@, self.views@, self.presentations@)
        &&& self.active_camera matches Some(c) ==> self.cameras@.dom().contains(c)
    }

    /// Cameras, views, presentations and the active camera are unchanged.
    pub open spec fn same_cameras(&self, other: &Self) -> bool {
        &&& self.cameras_view() == other.cameras_view()
        &&& self.next_camera_view() == other.next_camera_view()
        &&& self.active_view() == other.active_view()
    }

    /// Everything but the sky is unchanged.
    pub open spec fn same_except_sky(&self, other: &Self) -> bool {
        &&& self.same_cameras(other)
        &&& self.targets_view() == other.targets_view()
        &&& self.next_target_view() == other.next_target_view()
        &&& self.views_view() == other.views_view()
        &&& self.presentations_view() == other.presentations_view()
    }

    /// An empty registry whose handles start at one.
    pub fn new() -> (r: Self)
        ensures
            r.wf(),
            r.cameras_view() == Map::<u64, CameraEntry<C, V>>::empty(),
            r.targets_view() == Map::<u64, TargetEntry<T>>::empty(),
            r.views_view() == Seq::<CameraCompositionView<V>>::empty(),
            r.presentations_view() == Seq::<CameraCompositionPresentation<V>>::empty(),
            r.active_view() == None::<u64>,
            r.sky_view() == None::<u64>,
            r.next_camera_view() == 1,
            r.next_target_view() == 1,
    {
        CameraRegistry {
            cameras: HandleTable::new(),
            targets: HandleTable::new(),
            views: Vec::new(),
            presentations: Vec::new(),
            active_camera: None,
            sky_texture: None,
            next_camera: 1,
            next_target: 1,
        }
    }

    /// Creates a camera under the next camera handle.
    pub fn create(&mut self, descriptor: C, viewport: V) -> (r: Result<u64, CsharpEngineServicesError>)
        requires
            old(self).wf(),
        ensures
            final(self).wf(),
            r is Err ==> *final(self) == *old(self),
            r is Ok <==> old(self).next_camera_view() < u64::MAX,
            r matches Err(e) ==> e.code_view() == "CSHARP_CAMERA_HANDLE"@,
            r matches Ok(h) ==> {
                &&& h == old(self).next_camera_view()
                &&& final(self).next_camera_view() == h + 1
                &&& final(self).cameras_view() == old(self).cameras_view().insert(
                    h,
                    CameraEntry { descriptor, viewport },
                )
                &&& final(self).targets_view() == old(self).targets_view()
                &&& final(self).views_view() == old(self).views_view()
                &&& final(self).presentations_view() == old(self).presentations_view()
                &&& final(self).active_view() == old(self).active_view()
                &&& final(self).sky_view() == old(self).sky_view()
                &&& final(self).next_target_view() == old(self).next_target_view()
            },
    {
        let handle = self.next_camera;
        if handle == u64::MAX {
            return Err(
                CsharpEngineServicesError::new(
                    "CSHARP_CAMERA_HANDLE",
                    String::from_str("camera handle overflow"),
                ),
            );
        }
        self.next_camera = handle + 1;
        self.cameras.insert_new(handle, CameraEntry { descriptor, viewport });
        Ok(handle)
    }

    /// Updates a live camera; while it is the active camera, its view
    /// follows the new viewport.
    pub fn update(&mut self, camera: u64, descriptor: C, viewport: V) -> (r: Result<
        (),
        CsharpEngineServicesError,
    >)
        requires
            old(self).wf(),
        ensures
            final(self).wf(),
            r is Err ==> *final(self) == *old(self),
            r is Ok <==> old(self).cameras_view().dom().contains(camera),
            r matches Err(e) ==> e.code_view() == "CSHARP_CAMERA_HANDLE"@,
            r is Ok ==> {
                &&& final(self).cameras_view() == old(self).cameras_view().insert(
                    camera,
                    CameraEntry { descriptor, viewport },
                )
                &&& final(self).views_view() == (if old(self).active_view() == Some(camera) {
                    with_first_viewport(old(self).views_view(), viewport)
                } else {
                    old(self).views_view()
                })
                &&& final(self).targets_view() == old(self).targets_view()
                &&& final(self).presentations_view() == old(self).presentations_view()
                &&& final(self).active_view() == old(self).active_view()
                &&& final(self).sky_view() == old(self).sky_view()
                &&& final(self).next_camera_view() == old(self).next_camera_view()
                &&& final(self).next_target_view() == old(self).next_target_view()
            },
    {
        if !self.cameras.contains(camera) {
            return Err(camera_handle_error());
        }
        self.cameras.set_value(camera, CameraEntry { descriptor, viewport });
        if self.active_camera == Some(camera) && self.views.len() > 0 {
            let v = self.views[0];
            self.views.set(0, CameraCompositionView { camera: v.camera, target: v.target, viewport, order: v.order });
        }
        Ok(())
    }

    /// Replaces a live camera by a new camera under the next handle; views
    /// of the old camera render the new one, and an active old camera
    /// hands the convenience, with its new viewport, to the new one.
    pub fn replace(&mut self, camera: u64, descriptor: C, viewport: V) -> (r: Result<
        u64,
        CsharpEngineServicesError,
    >)
        requires
            old(self).wf(),
        ensures
            final(self).wf(),
            r is Err ==> *final(self) == *old(self),
            r is Ok <==> old(self).cameras_view().dom().contains(camera) && old(self).next_camera_view()
                < u64::MAX,
            r matches Err(e) ==> e.code_view() == "CSHARP_CAMERA_HANDLE"@,
            r matches Ok(h) ==> {
                let rewired = Seq::new(
                    old(self).views_view().len(),
                    |i: int| camera_rewired(old(self).views_view()[i], camera, h),
                );
                &&& h == old(self).next_camera_view()
                &&& final(self).next_camera_view() == h + 1
                &&& final(self).cameras_view() == old(self).cameras_view().remove(camera).insert(
                    h,
                    CameraEntry { descriptor, viewport },
                )
                &&& final(self).views_view() == (if old(self).active_view() == Some(camera) {
                    with_first_viewport(rewired, viewport)
                } else {
                    rewired
                })
                &&& final(self).active_view() == (if old(self).active_view() == Some(camera) {
                    Some(h)
                } else {
                    old(self).active_view()
                })
                &&& final(self).targets_view() == old(self).targets_view()
                &&& final(self).presentations_view() == old(self).presentations_view()
                &&& final(self).sky_view() == old(self).sky_view()
                &&& final(self).next_target_view() == old(self).next_target_view()
            },
    {
        if !self.cameras.contains(camera) {
            return Err(camera_handle_error());
        }
        let handle = self.next_camera;
        if handle == u64::MAX {
            return Err(
                CsharpEngineServicesError::new(
                    "CSHARP_CAMERA_HANDLE",
                    String::from_str("camera handle overflow"),
                ),
            );
        }
        let ghost before = *self;
        self.cameras.remove(camera);
        self.next_camera = handle + 1;
        self.cameras.insert_new(handle, CameraEntry { descriptor, viewport });
        rewire_cameras(&mut self.views, camera, handle);
        let ghost rewired = self.views@;
        if self.active_camera == Some(camera) {
            self.active_camera = Some(handle);
            if self.views.len() > 0 {
                let v = self.views[0];
                self.views.set(0, CameraCompositionView { camera: v.camera, target: v.target, viewport, order: v.order });
            }
        }
        proof {
            assert(rewired =~= Seq::new(
                before.views@.len(),
                |i: int| camera_rewired(before.views@[i], camera, handle),
            ));
            assert forall|i: int| 0 <= i < self.views@.len() implies self.cameras@.dom().contains(
                #[trigger] self.views@[i].camera,
            ) by {
                assert(rewired[i] == camera_rewired(before.views@[i], camera, handle));
                assert(before.cameras@.dom().contains(before.views@[i].camera));
            }
            assert forall|i: int| 0 <= i < self.views@.len() implies (#[trigger] self.views@[i].target)
                == 0 || self.targets@.dom().contains(self.views@[i].target) by {
                assert(rewired[i] == camera_rewired(before.views@[i], camera, handle));
                assert(before.views@[i].target == 0 || before.targets@.dom().contains(before.views@[i].target));
            }
        }
        Ok(handle)
    }

    /// Creates an offscreen target, at revision one, under the next target
    /// handle.
    pub fn create_target(&mut self, descriptor: T) -> (r: Result<u64, CsharpEngineServicesError>)
        requires
            old(self).wf(),
        ensures
            final(self).wf(),
            r is Err ==> *final(self) == *old(self),
            r is Ok <==> old(self).next_target_view() < u64::MAX,
            r matches Err(e) ==> e.code_view() == "CSHARP_CAMERA_TARGET_HANDLE"@,
            r matches Ok(h) ==> {
                &&& h == old(self).next_target_view()
                &&& final(self).next_target_view() == h + 1
                &&& final(self).targets_view() == old(self).targets_view().insert(
                    h,
                    TargetEntry { descriptor, revision: 1 },
                )
                &&& final(self).same_cameras(old(self))
                &&& final(self).views_view() == old(self).views_view()
                &&& final(self).presentations_view() == old(self).presentations_view()
                &&& final(self).sky_view() == old(self).sky_view()
            },
    {
        let handle = self.next_target;
        if handle == u64::MAX {
            return Err(
                CsharpEngineServicesError::new(
                    "CSHARP_CAMERA_TARGET_HANDLE",
                    String::from_str("target handle overflow"),
                ),
            );
        }
        self.next_target = handle + 1;
        self.targets.insert_new(handle, TargetEntry { descriptor, revision: 1 });
        Ok(handle)
    }

    /// Updates a live target's descriptor and advances its revision.
    pub fn update_target(&mut self, target: u64, descriptor: T) -> (r: Result<
        (),
        CsharpEngineServicesError,
    >)
        requires
            old(self).wf(),
        ensures
            final(self).wf(),
            r is Err ==> *final(self) == *old(self),
            r is Ok <==> old(self).targets_view().dom().contains(target)
                && old(self).targets_view()[target].revision < u64::MAX,
            r matches Err(e) ==> e.code_view() == (if !old(self).targets_view().dom().contains(
                target,
            ) {
                "CSHARP_CAMERA_TARGET_HANDLE"@
            } else {
                "CSHARP_CAMERA_TARGET_REVISION"@
            }),
            r is Ok ==> {
                &&& final(self).targets_view() == old(self).targets_view().insert(
                    target,
                    TargetEntry {
                        descriptor,
                        revision: (old(self).targets_view()[target].revision + 1) as u64,
                    },
                )
                &&& final(self).same_cameras(old(self))
                &&& final(self).next_target_view() == old(self).next_target_view()
                &&& final(self).views_view() == old(self).views_view()
                &&& final(self).presentations_view() == old(self).presentations_view()
                &&& final(self).sky_view() == old(self).sky_view()
            },
    {
        let revision = match self.targets.get(target) {
            Some(t) => t.revision,
            None => {
                return Err(target_handle_error());
            },
        };
        if revision == u64::MAX {
            return Err(
                CsharpEngineServicesError::new(
                    "CSHARP_CAMERA_TARGET_REVISION",
                    String::from_str("target revision overflow"),
                ),
            );
        }
        self.targets.set_value(target, TargetEntry { descriptor, revision: revision + 1 });
        Ok(())
    }

    /// Replaces a live target by a new target, at revision one, under the
    /// next target handle; views and presentations of the old target use
    /// the new one.
    pub fn replace_target(&mut self, target: u64, descriptor: T) -> (r: Result<
        u64,
        CsharpEngineServicesError,
    >)
        requires
            old(self).wf(),
        ensures
            final(self).wf(),
            r is Err ==> *final(self) == *old(self),
            r is Ok <==> old(self).targets_view().dom().contains(target) && old(self).next_target_view()
                < u64::MAX,
            r matches Err(e) ==> e.code_view() == "CSHARP_CAMERA_TARGET_HANDLE"@,
            r matches Ok(h) ==> {
                &&& h == old(self).next_target_view()
                &&& final(self).next_target_view() == h + 1
                &&& final(self).targets_view() == old(self).targets_view().remove(target).insert(
                    h,
                    TargetEntry { descriptor, revision: 1 },
                )
                &&& final(self).views_view() == Seq::new(
                    old(self).views_view().len(),
                    |i: int| target_rewired(old(self).views_view()[i], target, h),
                )
                &&& final(self).presentations_view() == Seq::new(
                    old(self).presentations_view().len(),
                    |i: int| source_rewired(old(self).presentations_view()[i], target, h),
                )
                &&& final(self).same_cameras(old(self))
                &&& final(self).sky_view() == old(self).sky_view()
            },
    {
        if !self.targets.contains(target) {
            return Err(target_handle_error());
        }
        let handle = self.next_target;
        if handle == u64::MAX {
            return Err(
                CsharpEngineServicesError::new(
                    "CSHARP_CAMERA_TARGET_HANDLE",
                    String::from_str("target handle overflow"),
                ),
            );
        }
        let ghost before = *self;
        self.targets.remove(target);
        self.next_target = handle + 1;
        self.targets.insert_new(handle, TargetEntry { descriptor, revision: 1 });
        rewire_view_targets(&mut self.views, target, handle);
        rewire_sources(&mut self.presentations, target, handle);
        proof {
            assert(self.views@ =~= Seq::new(
                before.views@.len(),
                |i: int| target_rewired(before.views@[i], target, handle),
            ));
            assert(self.presentations@ =~= Seq::new(
                before.presentations@.len(),
                |i: int| source_rewired(before.presentations@[i], target, handle),
            ));
            assert forall|i: int| 0 <= i < self.views@.len() implies self.cameras@.dom().contains(
                #[trigger] self.views@[i].camera,
            ) by {
                assert(before.cameras@.dom().contains(before.views@[i].camera));
            }
            assert forall|i: int| 0 <= i < self.views@.len() implies (#[trigger] self.views@[i].target)
                == 0 || self.targets@.dom().contains(self.views@[i].target) by {
                assert(before.views@[i].target == 0 || before.targets@.dom().contains(before.views@[i].target));
            }
            assert forall|i: int| 0 <= i < self.presentations@.len() implies self.targets@.dom().contains(
                #[trigger] self.presentations@[i].source_target,
            ) by {
                assert(before.targets@.dom().contains(before.presentations@[i].source_target));
            }
        }
        Ok(handle)
    }

    /// Destroys an offscreen target with the views and presentations that
    /// use it; the primary surface, handle zero, is not an owned target.
    pub fn destroy_target(&mut self, target: u64) -> (r: Result<(), CsharpEngineServicesError>)
        requires
            old(self).wf(),
        ensures
            final(self).wf(),
            r is Err ==> *final(self) == *old(self),
            r is Ok <==> target != 0,
            r matches Err(e) ==> e.code_view() == "CSHARP_CAMERA_TARGET_HANDLE"@,
            r is Ok ==> {
                &&& final(self).targets_view() == old(self).targets_view().remove(target)
                &&& final(self).views_view() == views_off_target(old(self).views_view(), target)
                &&& final(self).presentations_view() == presentations_off_target(
                    old(self).presentations_view(),
                    target,
                )
                &&& final(self).same_cameras(old(self))
                &&& final(self).next_target_view() == old(self).next_target_view()
                &&& final(self).sky_view() == old(self).sky_view()
            },
    {
        if target == 0 {
            return Err(
                CsharpEngineServicesError::new(
                    "CSHARP_CAMERA_TARGET_HANDLE",
                    String::from_str("the primary surface is not an owned camera target"),
                ),
            );
        }
        let ghost before = *self;
        self.targets.remove(target);
        let views = drop_target_views(&self.views, target);
        let presentations = drop_target_presentations(&self.presentations, target);
        self.views = views;
        self.presentations = presentations;
        proof {
            assert forall|i: int| 0 <= i < self.views@.len() implies self.cameras@.dom().contains(
                #[trigger] self.views@[i].camera,
            ) && (self.views@[i].target == 0 || self.targets@.dom().contains(self.views@[i].target)) by {
                let j = choose|j: int| 0 <= j < before.views@.len() && before.views@[j] == self.views@[i];
                assert(before.cameras@.dom().contains(before.views@[j].camera));
                assert(before.views@[j].target == 0 || before.targets@.dom().contains(before.views@[j].target));
            }
            assert forall|i: int| 0 <= i < self.presentations@.len() implies self.targets@.dom().contains(
                #[trigger] self.presentations@[i].source_target,
            ) by {
                let j = choose|j: int|
                    0 <= j < before.presentations@.len() && before.presentations@[j] == self.presentations@[i];
                assert(before.targets@.dom().contains(before.presentations@[j].source_target));
            }
        }
        Ok(())
    }

    /// Destroys a camera if it is live, with the views that render it; an
    /// active camera clears the convenience.
    pub fn destroy(&mut self, camera: u64)
        requires
            old(self).wf(),
        ensures
            final(self).wf(),
            final(self).cameras_view() == old(self).cameras_view().remove(camera),
            final(self).views_view() == views_off_camera(old(self).views_view(), camera),
            final(self).active_view() == (if old(self).active_view() == Some(camera) {
                None
            } else {
                old(self).active_view()
            }),
            final(self).targets_view() == old(self).targets_view(),
            final(self).presentations_view() == old(self).presentations_view(),
            final(self).sky_view() == old(self).sky_view(),
            final(self).next_camera_view() == old(self).next_camera_view(),
            final(self).next_target_view() == old(self).next_target_view(),
    {
        let ghost before = *self;
        self.cameras.remove(camera);
        let views = drop_camera_views(&self.views, camera);
        self.views = views;
        if self.active_camera == Some(camera) {
            self.active_camera = None;
        }
        proof {
            assert forall|i: int| 0 <= i < self.views@.len() implies self.cameras@.dom().contains(
                #[trigger] self.views@[i].camera,
            ) && (self.views@[i].target == 0 || self.targets@.dom().contains(self.views@[i].target)) by {
                let j = choose|j: int| 0 <= j < before.views@.len() && before.views@[j] == self.views@[i];
                assert(before.cameras@.dom().contains(before.views@[j].camera));
                assert(before.views@[j].target == 0 || before.targets@.dom().contains(before.views@[j].target));
            }
        }
    }

    /// Makes a live camera the active one: a single view of it onto the
    /// primary surface at its viewport, with no presentations.
    pub fn set_active(&mut self, camera: u64) -> (r: Result<(), CsharpEngineServicesError>)
        requires
            old(self).wf(),
        ensures
            final(self).wf(),
            r is Err ==> *final(self) == *old(self),
            r is Ok <==> old(self).cameras_view().dom().contains(camera),
            r matches Err(e) ==> e.code_view() == "CSHARP_CAMERA_HANDLE"@,
            r is Ok ==> {
                &&& final(self).views_view() == seq![
                    CameraCompositionView {
                        camera,
                        target: 0,
                        viewport: old(self).cameras_view()[camera].viewport,
                        order: 0,
                    },
                ]
                &&& final(self).presentations_view() == Seq::<CameraCompositionPresentation<V>>::empty()
                &&& final(self).active_view() == Some(camera)
                &&& final(self).cameras_view() == old(self).cameras_view()
                &&& final(self).targets_view() == old(self).targets_view()
                &&& final(self).sky_view() == old(self).sky_view()
                &&& final(self).next_camera_view() == old(self).next_camera_view()
                &&& final(self).next_target_view() == old(self).next_target_view()
            },
    {
        let entry = match self.cameras.get(camera) {
            Some(e) => *e,
            None => {
                return Err(camera_handle_error());
            },
        };
        let mut views: Vec<CameraCompositionView<V>> = Vec::new();
        views.push(CameraCompositionView { camera, target: 0, viewport: entry.viewport, order: 0 });
        self.views = views;
        self.presentations = Vec::new();
        self.active_camera = Some(camera);
        Ok(())
    }

    /// Clears the composition and the active-camera convenience.
    pub fn clear_active(&mut self)
        requires
            old(self).wf(),
        ensures
            final(self).wf(),
            final(self).views_view() == Seq::<CameraCompositionView<V>>::empty(),
            final(self).presentations_view() == Seq::<CameraCompositionPresentation<V>>::empty(),
            final(self).active_view() == None::<u64>,
            final(self).cameras_view() == old(self).cameras_view(),
            final(self).targets_view() == old(self).targets_view(),
            final(self).sky_view() == old(self).sky_view(),
            final(self).next_camera_view() == old(self).next_camera_view(),
            final(self).next_target_view() == old(self).next_target_view(),
    {
        self.views = Vec::new();
        self.presentations = Vec::new();
        self.active_camera = None;
    }

    /// Sets the sky background to a selected texture; zero names none.
    pub fn set_sky(&mut self, texture: u64) -> (r: Result<(), CsharpEngineServicesError>)
        requires
            old(self).wf(),
        ensures
            final(self).wf(),
            final(self).same_except_sky(old(self)),
            r is Ok <==> texture != 0,
            r is Err ==> *final(self) == *old(self),
            r matches Err(e) ==> e.code_view() == "CSHARP_SKY_TEXTURE"@,
            r is Ok ==> final(self).sky_view() == Some(texture),
    {
        if texture == 0 {
            return Err(
                CsharpEngineServicesError::new(
                    "CSHARP_SKY_TEXTURE",
                    String::from_str("sky texture handle must be non-zero"),
                ),
            );
        }
        self.sky_texture = Some(texture);
        Ok(())
    }

    /// Clears the sky background.
    pub fn clear_sky(&mut self)
        requires
            old(self).wf(),
        ensures
            final(self).wf(),
            final(self).same_except_sky(old(self)),
            final(self).sky_view() == None::<u64>,
    {
        self.sky_texture = None;
    }

    /// Replaces the composition by explicit views and presentations,
    /// which must name live cameras and targets; this clears the
    /// active-camera convenience. A refused composition changes nothing.
    pub fn set_composition(
        &mut self,
        views: Vec<CameraCompositionView<V>>,
        presentations: Vec<CameraCompositionPresentation<V>>,
    ) -> (r: Result<(), CsharpEngineServicesError>)
        requires
            old(self).wf(),
        ensures
            final(self).wf(),
            r is Err ==> *final(self) == *old(self),
            r is Ok <==> composition_fault(
                old(self).cameras_view(),
                old(self).targets_view(),
                views@,
                presentations@,
            ) is None,
            r matches Err(e) ==> Some(e.code_view()) == composition_fault(
                old(self).cameras_view(),
                old(self).targets_view(),
                views@,
                presentations@,
            ),
            r is Ok ==> {
                &&& final(self).views_view() == views@
                &&& final(self).presentations_view() == presentations@
                &&& final(self).active_view() == None::<u64>
                &&& final(self).cameras_view() == old(self).cameras_view()
                &&& final(self).targets_view() == old(self).targets_view()
                &&& final(self).sky_view() == old(self).sky_view()
                &&& final(self).next_camera_view() == old(self).next_camera_view()
                &&& final(self).next_target_view() == old(self).next_target_view()
            },
    {
        let ghost cams = self.cameras@;
        let ghost tgts = self.targets@;
        let n = views.len();
        let mut i: usize = 0;
        while i < n
            invariant
                n == views@.len(),
                i <= n,
                *self == *old(self),
                self.wf(),
                cams == self.cameras@,
                tgts == self.targets@,
                forall|j: int|
                    0 <= j < i ==> cams.dom().contains(#[trigger] views@[j].camera) && (views@[j].target
                        == 0 || tgts.dom().contains(views@[j].target)),
            decreases n - i,
        {
            let v = views[i];
            let camera_live = self.cameras.contains(v.camera);
            let target_live = v.target == 0 || self.targets.contains(v.target);
            if !camera_live || !target_live {
                proof {
                    let c = choose|c: int|
                        0 <= c < views@.len() && (!cams.dom().contains(views@[c].camera) || (
                        views@[c].target != 0 && !tgts.dom().contains(views@[c].target)))
                            && forall|j: int|
                            0 <= j < c ==> cams.dom().contains(views@[j].camera) && (views@[j].target
                                == 0 || tgts.dom().contains(views@[j].target));
                    assert(0 <= i < views@.len() && (!cams.dom().contains(views@[i as int].camera) || (
                    views@[i as int].target != 0 && !tgts.dom().contains(views@[i as int].target))));
                    if c > i {
                        assert(cams.dom().contains(views@[i as int].camera));
                    }
                    if c < i {
                        assert(cams.dom().contains(views@[c].camera));
                    }
                    assert(c == i);
                }
                if !camera_live {
                    return Err(
                        CsharpEngineServicesError::new(
                            "CSHARP_CAMERA_COMPOSITION_CAMERA",
                            String::from_str("composition view names a camera that is not live"),
                        ),
                    );
                }
                return Err(
                    CsharpEngineServicesError::new(
                        "CSHARP_CAMERA_COMPOSITION_TARGET",
                        String::from_str("composition view names a target that is not live"),
                    ),
                );
            }
            i = i + 1;
        }
        let m = presentations.len();
        let mut k: usize = 0;
        while k < m
            invariant
                m == presentations@.len(),
                k <= m,
                *self == *old(self),
                self.wf(),
                cams == self.cameras@,
                tgts == self.targets@,
                forall|j: int|
                    0 <= j < views@.len() ==> cams.dom().contains(#[trigger] views@[j].camera) && (views@[j].target
                        == 0 || tgts.dom().contains(views@[j].target)),
                forall|j: int| 0 <= j < k ==> tgts.dom().contains(#[trigger] presentations@[j].source_target),
            decreases m - k,
        {
            if !self.targets.contains(presentations[k].source_target) {
                return Err(
                    CsharpEngineServicesError::new(
                        "CSHARP_CAMERA_COMPOSITION_TARGET",
                        String::from_str("composition presentation names a target that is not live"),
                    ),
                );
            }
            k = k + 1;
        }
        self.views = views;
        self.presentations = presentations;
        self.active_camera = None;
        Ok(())
    }

    /// The renderer composition of the current views and presentations:
    /// the cameras and targets they use, in handle order, each target
    /// with its revision, and the views and presentations in order.
    pub fn composition(&self) -> (plan: CompositionPlan<V>)
        requires
            self.wf(),
        ensures
            forall|i: int, j: int|
                0 <= i < j < plan.cameras@.len() ==> plan.cameras@[i] < plan.cameras@[j],
            forall|c: u64|
                plan.cameras@.contains(c) <==> self.cameras_view().dom().contains(c) && uses_camera(
                    self.views_view(),
                    c,
                ),
            forall|i: int, j: int|
                0 <= i < j < plan.targets@.len() ==> plan.targets@[i].0 < plan.targets@[j].0,
            forall|i: int|
                0 <= i < plan.targets@.len() ==> self.targets_view().dom().contains(
                    (#[trigger] plan.targets@[i]).0,
                ) && uses_target(self.views_view(), self.presentations_view(), plan.targets@[i].0)
                    && plan.targets@[i].1 == self.targets_view()[plan.targets@[i].0].revision,
            forall|t: u64|
                self.targets_view().dom().contains(t) && uses_target(
                    self.views_view(),
                    self.presentations_view(),
                    t,
                ) ==> exists|i: int| 0 <= i < plan.targets@.len() && (#[trigger] plan.targets@[i]).0 == t,
            plan.views@ == Seq::new(
                self.views_view().len(),
                |i: int| planned_view(self.views_view()[i], self.targets_view()),
            ),
            plan.presentations@ == Seq::new(
                self.presentations_view().len(),
                |i: int| planned_presentation(self.presentations_view()[i], self.targets_view()),
            ),
    {
        let cameras = self.used_cameras();
        let targets = self.used_targets();
        proof {
            assert forall|t: u64|
                self.targets_view().dom().contains(t) && uses_target(
                    self.views_view(),
                    self.presentations_view(),
                    t,
                ) implies exists|i: int| 0 <= i < targets@.len() && (#[trigger] targets@[i]).0 == t by {
                let i = choose|i: int| 0 <= i < targets@.len() && (#[trigger] targets@[i]).0 == t;
            }
        }
        let views = self.planned_views();
        let presentations = self.planned_presentations();
        CompositionPlan { cameras, targets, views, presentations }
    }


    fn view_uses_camera(&self, c: u64) -> (b: bool)
        ensures
            b == uses_camera(self.views@, c),
    {
        let n = self.views.len();
        let mut i: usize = 0;
        while i < n
            invariant
                n == self.views@.len(),
                i <= n,
                forall|j: int| 0 <= j < i ==> self.views@[j].camera != c,
            decreases n - i,
        {
            if self.views[i].camera == c {
                return true;
            }
            i = i + 1;
        }
        false
    }

    fn composition_uses_target(&self, t: u64) -> (b: bool)
        ensures
            b == uses_target(self.views@, self.presentations@, t),
    {
        let n = self.views.len();
        let mut i: usize = 0;
        while i < n
            invariant
                n == self.views@.len(),
                i <= n,
                forall|j: int| 0 <= j < i ==> self.views@[j].target != t,
            decreases n - i,
        {
            if self.views[i].target == t {
                return true;
            }
            i = i + 1;
        }
        let m = self.presentations.len();
        let mut k: usize = 0;
        while k < m
            invariant
                m == self.presentations@.len(),
                k <= m,
                forall|j: int| 0 <= j < self.views@.len() ==> self.views@[j].target != t,
                forall|j: int| 0 <= j < k ==> self.presentations@[j].source_target != t,
            decreases m - k,
        {
            if self.presentations[k].source_target == t {
                return true;
            }
            k = k + 1;
        }
        false
    }

    fn used_cameras(&self) -> (r: Vec<u64>)
        requires
            self.wf(),
        ensures
            forall|i: int, j: int| 0 <= i < j < r@.len() ==> r@[i] < r@[j],
            forall|c: u64|
                r@.contains(c) <==> self.cameras_view().dom().contains(c) && uses_camera(
                    self.views_view(),
                    c,
                ),
    {
        proof {
            self.cameras.lemma_increasing();
        }
        let ghost keys = self.cameras.keys_seq();
        let nc = self.cameras.len();
        let mut out: Vec<u64> = Vec::new();
        let mut i: usize = 0;
        while i < nc
            invariant
                self.cameras.wf(),
                keys == self.cameras.keys_seq(),
                nc == keys.len(),
                i <= nc,
                forall|a: int, b: int| 0 <= a < b < keys.len() ==> keys[a] < keys[b],
                forall|a: int, b: int| 0 <= a < b < out@.len() ==> out@[a] < out@[b],
                i < nc ==> forall|a: int| 0 <= a < out@.len() ==> out@[a] < keys[i as int],
                forall|a: int|
                    0 <= a < out@.len() ==> self.cameras@.dom().contains(#[trigger] out@[a])
                        && uses_camera(self.views@, out@[a]),
                forall|k: int|
                    0 <= k < i && uses_camera(self.views@, #[trigger] keys[k]) ==> out@.contains(keys[k]),
            decreases nc - i,
        {
            let c = self.cameras.key_at(i);
            proof {
                self.cameras.lemma_entry(i as int);
            }
            if self.view_uses_camera(c) {
                let ghost before = out@;
                out.push(c);
                proof {
                    assert forall|k: int|
                        0 <= k < i + 1 && uses_camera(self.views@, #[trigger] keys[k]) implies out@.contains(keys[k]) by {
                        if k < i {
                            let a = choose|a: int| 0 <= a < before.len() && before[a] == keys[k];
                            assert(out@[a] == before[a]);
                        } else {
                            assert(out@[out@.len() - 1] == keys[k]);
                        }
                    }
                }
            }
            i = i + 1;
        }
        proof {
            assert forall|c: u64|
                out@.contains(c) <==> self.cameras_view().dom().contains(c) && uses_camera(
                    self.views_view(),
                    c,
                ) by {
                if self.cameras@.dom().contains(c) && uses_camera(self.views@, c) {
                    let k = self.cameras.lemma_key(c);
                    assert(uses_camera(self.views@, keys[k]));
                }
                if out@.contains(c) {
                    let a = choose|a: int| 0 <= a < out@.len() && out@[a] == c;
                    assert(self.cameras@.dom().contains(out@[a]));
                }
            }
        }
        out
    }

    fn used_targets(&self) -> (r: Vec<(u64, u64)>)
        requires
            self.wf(),
        ensures
            forall|i: int, j: int| 0 <= i < j < r@.len() ==> r@[i].0 < r@[j].0,
            forall|i: int|
                0 <= i < r@.len() ==> self.targets_view().dom().contains((#[trigger] r@[i]).0)
                    && uses_target(self.views_view(), self.presentations_view(), r@[i].0) && r@[i].1
                    == self.targets_view()[r@[i].0].revision,
            forall|t: u64|
                self.targets_view().dom().contains(t) && uses_target(
                    self.views_view(),
                    self.presentations_view(),
                    t,
                ) ==> exists|i: int| 0 <= i < r@.len() && (#[trigger] r@[i]).0 == t,
    {
        proof {
            self.targets.lemma_increasing();
        }
        let ghost keys = self.targets.keys_seq();
        let nt = self.targets.len();
        let mut out: Vec<(u64, u64)> = Vec::new();
        let mut i: usize = 0;
        while i < nt
            invariant
                self.targets.wf(),
                keys == self.targets.keys_seq(),
                nt == keys.len(),
                i <= nt,
                forall|a: int, b: int| 0 <= a < b < keys.len() ==> keys[a] < keys[b],
                forall|a: int, b: int| 0 <= a < b < out@.len() ==> out@[a].0 < out@[b].0,
                i < nt ==> forall|a: int| 0 <= a < out@.len() ==> out@[a].0 < keys[i as int],
                forall|a: int|
                    0 <= a < out@.len() ==> self.targets@.dom().contains((#[trigger] out@[a]).0)
                        && uses_target(self.views@, self.presentations@, out@[a].0) && out@[a].1
                        == self.targets@[out@[a].0].revision,
                forall|k: int|
                    0 <= k < i && uses_target(self.views@, self.presentations@, #[trigger] keys[k])
                        ==> exists|a: int| 0 <= a < out@.len() && out@[a].0 == keys[k],
            decreases nt - i,
        {
            let t = self.targets.key_at(i);
            proof {
                self.targets.lemma_entry(i as int);
            }
            if self.composition_uses_target(t) {
                let revision = self.targets.value_at(i).revision;
                let ghost before = out@;
                out.push((t, revision));
                proof {
                    assert forall|k: int|
                        0 <= k < i + 1 && uses_target(self.views@, self.presentations@, #[trigger] keys[k])
                            implies exists|a: int| 0 <= a < out@.len() && out@[a].0 == keys[k] by {
                        if k < i {
                            let a = choose|a: int| 0 <= a < before.len() && before[a].0 == keys[k];
                            assert(out@[a] == before[a]);
                        } else {
                            assert(out@[out@.len() - 1].0 == keys[k]);
                        }
                    }
                }
            }
            i = i + 1;
        }
        proof {
            assert forall|t: u64|
                self.targets_view().dom().contains(t) && uses_target(
                    self.views_view(),
                    self.presentations_view(),
                    t,
                ) implies exists|a: int| 0 <= a < out@.len() && (#[trigger] out@[a]).0 == t by {
                let k = self.targets.lemma_key(t);
                assert(uses_target(self.views@, self.presentations@, keys[k]));
            }
        }
        out
    }

    fn planned_views(&self) -> (r: Vec<PlannedView<V>>)
        requires
            self.wf(),
        ensures
            r@ == Seq::new(
                self.views_view().len(),
                |i: int| planned_view(self.views_view()[i], self.targets_view()),
            ),
    {
        let n = self.views.len();
        let mut out: Vec<PlannedView<V>> = Vec::new();
        let mut i: usize = 0;
        while i < n
            invariant
                self.wf(),
                n == self.views@.len(),
                i <= n,
                out@.len() == i,
                forall|k: int| 0 <= k < i ==> #[trigger] out@[k] == planned_view(self.views@[k], self.targets@),
            decreases n - i,
        {
            let v = self.views[i];
            let revision = if v.target == 0 {
                0
            } else {
                match self.targets.get(v.target) {
                    Some(t) => t.revision,
                    None => 0,
                }
            };
            proof {
                assert(v.target == 0 || self.targets@.dom().contains(self.views@[i as int].target));
            }
            out.push(
                PlannedView {
                    camera: v.camera,
                    target: v.target,
                    target_revision: revision,
                    viewport: v.viewport,
                    order: v.order,
                },
            );
            i = i + 1;
        }
        assert(out@ =~= Seq::new(
            self.views_view().len(),
            |i: int| planned_view(self.views_view()[i], self.targets_view()),
        ));
        out
    }

    fn planned_presentations(&self) -> (r: Vec<PlannedPresentation<V>>)
        requires
            self.wf(),
        ensures
            r@ == Seq::new(
                self.presentations_view().len(),
                |i: int| planned_presentation(self.presentations_view()[i], self.targets_view()),
            ),
    {
        let n = self.presentations.len();
        let mut out: Vec<PlannedPresentation<V>> = Vec::new();
        let mut i: usize = 0;
        while i < n
            invariant
                self.wf(),
                n == self.presentations@.len(),
                i <= n,
                out@.len() == i,
                forall|k: int|
                    0 <= k < i ==> #[trigger] out@[k] == planned_presentation(
                        self.presentations@[k],
                        self.targets@,
                    ),
            decreases n - i,
        {
            let p = self.presentations[i];
            let revision = match self.targets.get(p.source_target) {
                Some(t) => t.revision,
                None => 0,
            };
            out.push(
                PlannedPresentation {
                    source_target: p.source_target,
                    source_target_revision: revision,
                    destination: p.destination,
                    order: p.order,
                },
            );
            i = i + 1;
        }
        assert(out@ =~= Seq::new(
            self.presentations_view().len(),
            |i: int| planned_presentation(self.presentations_view()[i], self.targets_view()),
        ));
        out
    }

}

impl<C: Copy, T: Copy, V: Copy> CameraRegistry<C, T, V> {
    /// Every operation keeps the composition consistent: each view names
    /// a live camera and the primary surface or a live target, each
    /// presentation a live target, and the active camera is live.
    pub proof fn lemma_registry_consistent(&self)
        requires
            self.wf(),
        ensures
            composition_consistent(
                self.cameras_view(),
                self.targets_view(),
                self.views_view(),
                self.presentations_view(),
            ),
            self.active_view() matches Some(c) ==> self.cameras_view().dom().contains(c),
            !self.targets_view().dom().contains(0),
    {
    }
}

/// Destroying a camera that no view renders leaves the views unchanged.
pub proof fn lemma_destroying_unused_camera_keeps_views<V>(views: Seq<CameraCompositionView<V>>, camera: u64)
    requires
        !uses_camera(views, camera),
    ensures
        views_off_camera(views, camera) == views,
    decreases views.len(),
{
    if views.len() > 0 {
        assert(!uses_camera(views.drop_last(), camera)) by {
            if uses_camera(views.drop_last(), camera) {
                let i = choose|i: int| 0 <= i < views.drop_last().len() && views.drop_last()[i].camera == camera;
                assert(views[i].camera == camera);
            }
        }
        lemma_destroying_unused_camera_keeps_views(views.drop_last(), camera);
        assert(views.last().camera != camera) by {
            assert(views[views.len() - 1].camera != camera);
        }
        assert(views.drop_last().push(views.last()) =~= views);
    }
}

/// A replaced camera is a tombstone: after views are moved to its
/// replacement (and the first view given a new viewport), no view renders
/// it, so releasing it later leaves the composition unchanged.
pub proof fn lemma_replaced_camera_is_tombstone<V>(
    views: Seq<CameraCompositionView<V>>,
    camera: u64,
    replacement: u64,
    viewport: V,
    active: bool,
)
    requires
        camera != replacement,
    ensures
        ({
            let rewired = Seq::new(views.len(), |i: int| camera_rewired(views[i], camera, replacement));
            let after = if active {
                with_first_viewport(rewired, viewport)
            } else {
                rewired
            };
            views_off_camera(after, camera) == after
        }),
{
    let rewired = Seq::new(views.len(), |i: int| camera_rewired(views[i], camera, replacement));
    let after = if active {
        with_first_viewport(rewired, viewport)
    } else {
        rewired
    };
    assert(!uses_camera(after, camera)) by {
        if uses_camera(after, camera) {
            let i = choose|i: int| 0 <= i < after.len() && after[i].camera == camera;
            assert(rewired[i].camera == after[i].camera);
        }
    }
    lemma_destroying_unused_camera_keeps_views(after, camera);
}

} // verus!
