//! The animation graph builder and the registry of animation instances
//! and controllers: which graphs, transitions, instances and controllers
//! are live, what each graph defines, and which instance is driven by
//! direct playback or by a controller.
//!
//! The animation catalog validation and the controller service that runs
//! a graph belong to the renderer projection and sit outside this
//! registry; it decides everything that can be decided from handles,
//! identities and the selected renderer resources.

use crate::error::CsharpEngineServicesError;
use crate::resource::{CsharpRenderResourceKind, RenderResourceView};
use crate::selection::{kind_count, selected_resource, ResourceSelection};
use crate::table::HandleTable;
use vstd::prelude::*;
use vstd::string::StringExecFns;

verus! {

/// The kind of an animation parameter with its default value.
#[derive(Debug, Clone, Copy, PartialEq, Eq, Structural)]
pub enum AnimationParameterDefault {
    Float { default_milli: i32 },
    Bool { default: bool },
    Trigger { default: bool },
}

/// A graph parameter.
#[derive(Debug)]
pub struct AnimationParameterDefinition {
    pub parameter_id: String,
    pub default: AnimationParameterDefault,
}

/// The motion a state plays.
#[derive(Debug)]
pub enum AnimationMotionDefinition {
    Clip { clip_id: String, speed_milli: i32 },
    LinearBlend {
        parameter_id: String,
        low_clip_id: String,
        high_clip_id: String,
        minimum_milli: i32,
        maximum_milli: i32,
        speed_milli: i32,
    },
}

/// A graph state.
#[derive(Debug)]
pub struct AnimationStateDefinition {
    pub state_id: String,
    pub motion: AnimationMotionDefinition,
}

/// A condition under which a transition is taken.
#[derive(Debug)]
pub enum AnimationCondition {
    FloatGreaterThan { parameter_id: String, threshold_milli: i32 },
    FloatLessThanOrEqual { parameter_id: String, threshold_milli: i32 },
    BoolEquals { parameter_id: String, value: bool },
    TriggerSet { parameter_id: String },
}

/// A graph transition with its conditions.
#[derive(Debug)]
pub struct AnimationTransitionDefinition {
    pub transition_id: String,
    pub from_state_id: String,
    pub to_state_id: String,
    pub priority: u16,
    pub duration_ticks: u32,
    pub conditions: Vec<AnimationCondition>,
}

/// A graph under construction over an admitted animated GLB.
#[derive(Debug)]
pub struct AnimationGraph {
    pub resource: u64,
    pub graph_id: String,
    pub version: u32,
    pub asset_id: String,
    pub initial_state_id: String,
    pub parameters: Vec<AnimationParameterDefinition>,
    pub states: Vec<AnimationStateDefinition>,
    pub transitions: Vec<AnimationTransitionDefinition>,
}

/// A transition handle's place: its graph and its position there.
#[derive(Debug, Clone, Copy, PartialEq, Eq, Structural)]
pub struct AnimationTransitionRef {
    pub graph: u64,
    pub index: usize,
}

/// An animation instance of one product object on an animated-mesh
/// appearance, driven by direct playback or by at most one controller.
/// A direct playback command is pending until a frame carrying it was
/// staged for the object's render target, which is then remembered.
#[derive(Debug)]
pub struct AnimationInstance {
    pub appearance: u64,
    pub object_id: u64,
    pub asset: String,
    pub content_hash: String,
    pub direct_playback: bool,
    pub pending_playback: bool,
    pub last_playback_target: Option<u64>,
    pub controller: Option<u64>,
}

/// A controller running a graph for an instance at a tick duration, with
/// the render target and state revision it last projected, if any.
#[derive(Debug, Clone, Copy, PartialEq, Eq, Structural)]
pub struct AnimationController {
    pub graph: u64,
    pub instance: u64,
    pub tick_duration_millis: u32,
    pub projected: bool,
    pub last_target: Option<u64>,
    pub last_revision: Option<u64>,
}

/// What a controller flush does for a live render target: nothing when the
/// same target and state revision were already projected, an update of a
/// projected animation, or the creation of the first projection.
#[derive(Debug, Clone, Copy, PartialEq, Eq, Structural)]
pub enum ControllerFlush {
    Unchanged,
    Update,
    Create,
}

/// The flush a controller needs for `target` at state `revision`.
pub open spec fn controller_flush_kind(c: AnimationController, target: u64, revision: u64) -> ControllerFlush {
    if c.projected && c.last_target == Some(target) && c.last_revision == Some(revision) {
        ControllerFlush::Unchanged
    } else if c.projected {
        ControllerFlush::Update
    } else {
        ControllerFlush::Create
    }
}

/// Whether an instance's direct playback must be staged for `target`: its
/// command is pending, or the last frame went to another target.
pub open spec fn playback_frame_due(inst: AnimationInstance, target: u64) -> bool {
    inst.pending_playback || inst.last_playback_target != Some(target)
}

/// Some live instance animates product object `object_id`.
pub open spec fn object_animated(instances: Map<u64, AnimationInstance>, object_id: u64) -> bool {
    exists|i: u64| instances.dom().contains(i) && instances[i].object_id == object_id
}

/// Some live controller runs graph `graph`.
pub open spec fn graph_in_use(controllers: Map<u64, AnimationController>, graph: u64) -> bool {
    exists|c: u64| controllers.dom().contains(c) && controllers[c].graph == graph
}

/// Two graph maps agree on everything but `graph`, which both hold.
pub open spec fn graphs_agree_except(
    pre: Map<u64, AnimationGraph>,
    post: Map<u64, AnimationGraph>,
    graph: u64,
) -> bool {
    &&& post.dom() == pre.dom()
    &&& pre.dom().contains(graph)
    &&& forall|g: u64| #[trigger] pre.dom().contains(g) && g != graph ==> post[g] == pre[g]
}

/// Two graphs share their resource, identity, version, asset and
/// initial state.
pub open spec fn same_graph_header(a: AnimationGraph, b: AnimationGraph) -> bool {
    &&& a.resource == b.resource
    &&& a.graph_id == b.graph_id
    &&& a.version == b.version
    &&& a.asset_id == b.asset_id
    &&& a.initial_state_id == b.initial_state_id
}

/// Two transitions share everything but their conditions.
pub open spec fn same_transition_header(
    a: AnimationTransitionDefinition,
    b: AnimationTransitionDefinition,
) -> bool {
    &&& a.transition_id == b.transition_id
    &&& a.from_state_id == b.from_state_id
    &&& a.to_state_id == b.to_state_id
    &&& a.priority == b.priority
    &&& a.duration_ticks == b.duration_ticks
}

fn resource_error() -> (e: CsharpEngineServicesError)
    ensures
        e.code_view() == "CSHARP_ANIMATION_RESOURCE"@,
{
    CsharpEngineServicesError::new(
        "CSHARP_ANIMATION_RESOURCE",
        String::from_str("animated appearance resource is unavailable"),
    )
}

fn instance_error() -> (e: CsharpEngineServicesError)
    ensures
        e.code_view() == "CSHARP_ANIMATION_INSTANCE"@,
{
    CsharpEngineServicesError::new(
        "CSHARP_ANIMATION_INSTANCE",
        String::from_str("animation instance is not live"),
    )
}

fn controller_error() -> (e: CsharpEngineServicesError)
    ensures
        e.code_view() == "CSHARP_ANIMATION_CONTROLLER"@,
{
    CsharpEngineServicesError::new(
        "CSHARP_ANIMATION_CONTROLLER",
        String::from_str("animation controller is not live"),
    )
}

fn snapshot_order_error() -> (e: CsharpEngineServicesError)
    ensures
        e.code_view() == "CSHARP_ANIMATION_SNAPSHOT_ORDER"@,
{
    CsharpEngineServicesError::new(
        "CSHARP_ANIMATION_SNAPSHOT_ORDER",
        String::from_str("dispose animation owners before publishing their removal snapshot"),
    )
}

fn graph_error() -> (e: CsharpEngineServicesError)
    ensures
        e.code_view() == "CSHARP_ANIMATION_GRAPH"@,
{
    CsharpEngineServicesError::new("CSHARP_ANIMATION_GRAPH", String::from_str("animation graph is not live"))
}

/// The position of the first occurrence of `value` in `values`, if any.
pub open spec fn first_index(values: Seq<Seq<char>>, value: Seq<char>) -> Option<int> {
    if exists|i: int| 0 <= i < values.len() && values[i] == value {
        Some(
            choose|i: int|
                0 <= i < values.len() && values[i] == value && forall|k: int|
                    0 <= k < i ==> values[k] != value,
        )
    } else {
        None
    }
}

/// The readout index of `value` in `values`: its first position where
/// that fits in 32 bits, otherwise `u32::MAX`.
pub open spec fn readout_index_of(values: Seq<Seq<char>>, value: Seq<char>) -> u32 {
    match first_index(values, value) {
        Some(i) => if i <= u32::MAX {
            i as u32
        } else {
            u32::MAX
        },
        None => u32::MAX,
    }
}

/// The state ids of a graph, in definition order.
pub open spec fn state_order(g: AnimationGraph) -> Seq<Seq<char>> {
    g.states@.map_values(|s: AnimationStateDefinition| s.state_id@)
}

/// The readout index of `value` among `values` (`u32::MAX` when absent).
pub fn readout_index(values: &Vec<String>, value: &str) -> (r: u32)
    ensures
        r == readout_index_of(values@.map_values(|v: String| v@), value@),
{
    let ghost vs = values@.map_values(|v: String| v@);
    let target = value.to_owned();
    let n = values.len();
    let mut i: usize = 0;
    while i < n
        invariant
            n == values@.len(),
            vs == values@.map_values(|v: String| v@),
            target@ == value@,
            i <= n,
            forall|k: int| 0 <= k < i ==> vs[k] != value@,
        decreases n - i,
    {
        if values[i] == target {
            proof {
                assert(vs[i as int] == value@);
                let j = choose|j: int|
                    0 <= j < vs.len() && vs[j] == value@ && forall|k: int| 0 <= k < j ==> vs[k] != value@;
                assert(j == i) by {
                    if j < i {
                        assert(vs[j] != value@);
                    } else if j > i {
                        assert(vs[i as int] != value@);
                    }
                }
            }
            return if i <= 0xffff_ffff {
                i as u32
            } else {
                u32::MAX
            };
        }
        i = i + 1;
    }
    u32::MAX
}

/// A count as the readouts report it: saturated at `u32::MAX`.
pub open spec fn saturated(n: nat) -> u32 {
    if n <= u32::MAX {
        n as u32
    } else {
        u32::MAX
    }
}

fn saturating_u32(n: usize) -> (r: u32)
    ensures
        r == saturated(n as nat),
{
    if n <= 0xffff_ffff {
        n as u32
    } else {
        u32::MAX
    }
}

/// The animation service readout: the selected animated GLBs and clip
/// packs, the retained instances, graphs and controllers, and the pending
/// direct playback commands (the clip-pack associations are counted by the
/// renderer's descriptors).
#[derive(Debug, Clone, Copy, PartialEq, Eq, Structural)]
pub struct AnimationReadout {
    pub admitted_meshes: u32,
    pub admitted_clip_packs: u32,
    pub retained_instances: u32,
    pub retained_graphs: u32,
    pub retained_controllers: u32,
    pub pending_playback_commands: u32,
}

/// The animation graphs, transitions, instances and controllers.
pub struct AnimationRegistry {
    graphs: HandleTable<AnimationGraph>,
    transitions: HandleTable<AnimationTransitionRef>,
    instances: HandleTable<AnimationInstance>,
    controllers: HandleTable<AnimationController>,
    next_graph: u64,
    next_transition: u64,
    next_instance: u64,
    next_controller: u64,
}

impl AnimationRegistry {
    /// The live graphs.
    pub closed spec fn graphs_view(&self) -> Map<u64, AnimationGraph> {
        self.graphs@
    }

    /// The live transition handles.
    pub closed spec fn transitions_view(&self) -> Map<u64, AnimationTransitionRef> {
        self.transitions@
    }

    /// The live instances.
    pub closed spec fn instances_view(&self) -> Map<u64, AnimationInstance> {
        self.instances@
    }

    /// The live controllers.
    pub closed spec fn controllers_view(&self) -> Map<u64, AnimationController> {
        self.controllers@
    }

    /// The handles the next graph, transition, instance and controller
    /// receive.
    pub closed spec fn next_graph_view(&self) -> u64 {
        self.next_graph
    }

    pub closed spec fn next_transition_view(&self) -> u64 {
        self.next_transition
    }

    pub closed spec fn next_instance_view(&self) -> u64 {
        self.next_instance
    }

    pub closed spec fn next_controller_view(&self) -> u64 {
        self.next_controller
    }

    /// Tables are well formed and handles never reused; every transition
    /// names a position of a live graph; an instance animates one object;
    /// an instance and its controller name each other, and a controller
    /// runs a live graph.
    pub closed spec fn wf(&self) -> bool {
        &&& self.graphs.wf()
        &&& self.transitions.wf()
        &&& self.instances.wf()
        &&& self.controllers.wf()
        &&& self.graphs.all_below(self.next_graph)
        &&& self.transitions.all_below(self.next_transition)
        &&& self.instances.all_below(self.next_instance)
        &&& self.controllers.all_below(self.next_controller)
        &&& 1 <= self.next_graph && 1 <= self.next_transition && 1 <= self.next_instance && 1
            <= self.next_controller
        &&& forall|t: u64| #[trigger]
            self.transitions@.dom().contains(t) ==> self.graphs@.dom().contains(
                self.transitions@[t].graph,
            ) && self.transitions@[t].index < self.graphs@[self.transitions@[t].graph].transitions@.len()
        &&& forall|a: u64, b: u64|
            #![trigger self.instances@[a], self.instances@[b]]
            self.instances@.dom().contains(a) && self.instances@.dom().contains(b) && a != b
                ==> self.instances@[a].object_id != self.instances@[b].object_id
        &&& forall|c: u64| #[trigger]
            self.controllers@.dom().contains(c) ==> self.graphs@.dom().contains(
                self.controllers@[c].graph,
            ) && self.instances@.dom().contains(self.controllers@[c].instance)
                && self.instances@[self.controllers@[c].instance].controller == Some(c)
        &&& forall|i: u64| #[trigger]
            self.instances@.dom().contains(i) ==> (self.instances@[i].controller matches Some(c)
                ==> self.controllers@.dom().contains(c) && self.controllers@[c].instance == i)
    }

    /// An empty registry whose handles start at one.
    pub fn new() -> (r: Self)
        ensures
            r.wf(),
            r.graphs_view() == Map::<u64, AnimationGraph>::empty(),
            r.transitions_view() == Map::<u64, AnimationTransitionRef>::empty(),
            r.instances_view() == Map::<u64, AnimationInstance>::empty(),
            r.controllers_view() == Map::<u64, AnimationController>::empty(),
    {
        AnimationRegistry {
            graphs: HandleTable::new(),
            transitions: HandleTable::new(),
            instances: HandleTable::new(),
            controllers: HandleTable::new(),
            next_graph: 1,
            next_transition: 1,
            next_instance: 1,
            next_controller: 1,
        }
    }

    /// Whether some live graph is built over resource handle `resource`.
    pub open spec fn has_graph_over(&self, resource: u64) -> bool {
        exists|g: u64| #[trigger]
            self.graphs_view().dom().contains(g) && self.graphs_view()[g].resource == resource
    }

    /// Whether some live graph is built over resource handle `resource`.
    pub fn graph_over(&self, resource: u64) -> (b: bool)
        requires
            self.wf(),
        ensures
            b == self.has_graph_over(resource),
    {
        let n = self.graphs.len();
        let mut i: usize = 0;
        while i < n
            invariant
                self.graphs.wf(),
                n == self.graphs.keys_seq().len(),
                i <= n,
                forall|j: int| 0 <= j < i ==> (#[trigger] self.graphs.vals_seq()[j]).resource
                    != resource,
            decreases n - i,
        {
            if self.graphs.value_at(i).resource == resource {
                proof {
                    self.graphs.lemma_entry(i as int);
                    assert(self.graphs_view().dom().contains(self.graphs.keys_seq()[i as int]));
                }
                return true;
            }
            i = i + 1;
        }
        proof {
            assert forall|g: u64| #[trigger] self.graphs_view().dom().contains(g) implies self.graphs_view()[g].resource != resource by {
                let p = self.graphs.lemma_key(g);
                assert(self.graphs.vals_seq()[p].resource != resource);
            }
        }
        false
    }

    /// Whether some live instance animates appearance `appearance`.
    pub open spec fn has_instance_on(&self, appearance: u64) -> bool {
        exists|i: u64| #[trigger]
            self.instances_view().dom().contains(i) && self.instances_view()[i].appearance
                == appearance
    }

    /// Whether some live instance animates appearance `appearance`.
    pub fn instance_on(&self, appearance: u64) -> (b: bool)
        requires
            self.wf(),
        ensures
            b == self.has_instance_on(appearance),
    {
        let n = self.instances.len();
        let mut i: usize = 0;
        while i < n
            invariant
                self.instances.wf(),
                n == self.instances.keys_seq().len(),
                i <= n,
                forall|j: int| 0 <= j < i ==> (#[trigger] self.instances.vals_seq()[j]).appearance
                    != appearance,
            decreases n - i,
        {
            if self.instances.value_at(i).appearance == appearance {
                proof {
                    self.instances.lemma_entry(i as int);
                    assert(self.instances_view().dom().contains(self.instances.keys_seq()[i as int]));
                }
                return true;
            }
            i = i + 1;
        }
        proof {
            assert forall|k: u64| #[trigger] self.instances_view().dom().contains(k) implies self.instances_view()[k].appearance != appearance by {
                let j = self.instances.lemma_key(k);
                assert(self.instances.vals_seq()[j].appearance != appearance);
            }
        }
        false
    }

    /// Whether a snapshot that retains `retained` (object id to appearance)
    /// keeps the animated target of every projected controller: the
    /// controller's object must still show its instance's appearance.
    pub open spec fn keeps_projected_targets(&self, retained: Map<u64, u64>) -> bool {
        forall|c: u64| #[trigger]
            self.controllers_view().dom().contains(c) && self.controllers_view()[c].projected ==> {
                let inst = self.instances_view()[self.controllers_view()[c].instance];
                retained.dom().contains(inst.object_id) && retained[inst.object_id] == inst.appearance
            }
    }

    /// Whether a snapshot that retains `retained` (object id to appearance)
    /// keeps the animated target of every projected controller.
    pub fn projected_targets_kept(&self, retained: &HandleTable<u64>) -> (b: bool)
        requires
            self.wf(),
            retained.wf(),
        ensures
            b == self.keeps_projected_targets(retained@),
    {
        let n = self.controllers.len();
        let mut i: usize = 0;
        while i < n
            invariant
                self.wf(),
                retained.wf(),
                n == self.controllers.keys_seq().len(),
                i <= n,
                forall|j: int|
                    0 <= j < i ==> {
                        let c = #[trigger] self.controllers.vals_seq()[j];
                        let inst = self.instances_view()[c.instance];
                        c.projected ==> retained@.dom().contains(inst.object_id)
                            && retained@[inst.object_id] == inst.appearance
                    },
            decreases n - i,
        {
            let c = *self.controllers.value_at(i);
            proof {
                self.controllers.lemma_entry(i as int);
                assert(self.controllers@.dom().contains(self.controllers.keys_seq()[i as int]));
            }
            if c.projected {
                let inst = self.instances.get(c.instance).unwrap();
                let kept = match retained.get(inst.object_id) {
                    Some(a) => *a == inst.appearance,
                    None => false,
                };
                if !kept {
                    proof {
                        let k = self.controllers.keys_seq()[i as int];
                        assert(self.controllers_view().dom().contains(k));
                    }
                    return false;
                }
            }
            i = i + 1;
        }
        proof {
            assert forall|c: u64| #[trigger]
                self.controllers_view().dom().contains(c) && self.controllers_view()[c].projected implies {
                let inst = self.instances_view()[self.controllers_view()[c].instance];
                retained@.dom().contains(inst.object_id) && retained@[inst.object_id] == inst.appearance
            } by {
                let j = self.controllers.lemma_key(c);
                let v = self.controllers.vals_seq()[j];
                assert(v.projected ==> retained@.dom().contains(self.instances_view()[v.instance].object_id));
            }
        }
        true
    }

    /// The readout index of state `state_id` in the definition order of a
    /// live controller's graph (`u32::MAX` when the graph defines no such
    /// state).
    pub fn controller_state_index(&self, controller: u64, state_id: &str) -> (r: Result<
        u32,
        CsharpEngineServicesError,
    >)
        requires
            self.wf(),
        ensures
            r is Ok <==> self.controllers_view().dom().contains(controller),
            r matches Err(e) ==> e.code_view() == "CSHARP_ANIMATION_CONTROLLER"@,
            r matches Ok(i) ==> i == readout_index_of(
                state_order(self.graphs_view()[self.controllers_view()[controller].graph]),
                state_id@,
            ),
    {
        let c = match self.controllers.get(controller) {
            None => {
                return Err(controller_error());
            },
            Some(c) => *c,
        };
        proof {
            assert(self.controllers@.dom().contains(controller));
        }
        let g = self.graphs.get(c.graph).unwrap();
        let ghost vs = state_order(*g);
        let target = state_id.to_owned();
        let n = g.states.len();
        let mut i: usize = 0;
        while i < n
            invariant
                n == g.states@.len(),
                vs == state_order(*g),
                target@ == state_id@,
                self.controllers_view().dom().contains(controller),
                *g == self.graphs_view()[self.controllers_view()[controller].graph],
                i <= n,
                forall|k: int| 0 <= k < i ==> vs[k] != state_id@,
            decreases n - i,
        {
            if g.states[i].state_id == target {
                proof {
                    assert(vs[i as int] == state_id@);
                    let j = choose|j: int|
                        0 <= j < vs.len() && vs[j] == state_id@ && forall|k: int|
                            0 <= k < j ==> vs[k] != state_id@;
                    assert(j == i) by {
                        if j < i {
                            assert(vs[j] != state_id@);
                        } else if j > i {
                            assert(vs[i as int] != state_id@);
                        }
                    }
                }
                return Ok(
                    if i <= 0xffff_ffff {
                        i as u32
                    } else {
                        u32::MAX
                    },
                );
            }
            i = i + 1;
        }
        Ok(u32::MAX)
    }

    /// The live instances whose direct playback command is pending.
    pub open spec fn pending_instances(&self) -> Set<u64> {
        self.instances_view().dom().filter(|i: u64| self.instances_view()[i].pending_playback)
    }

    /// The number of live instances with a pending direct playback
    /// command.
    pub fn pending_playback_count(&self) -> (n: usize)
        requires
            self.wf(),
        ensures
            self.pending_instances().finite(),
            n == self.pending_instances().len(),
    {
        let len = self.instances.len();
        let mut n: usize = 0;
        let mut i: usize = 0;
        let ghost mut seen: Set<u64> = Set::empty();
        proof {
            self.instances.lemma_increasing();
        }
        while i < len
            invariant
                self.instances.wf(),
                len == self.instances.keys_seq().len(),
                len == self.instances.vals_seq().len(),
                forall|a: int, b: int|
                    0 <= a < b < len ==> self.instances.keys_seq()[a] < self.instances.keys_seq()[b],
                i <= len,
                n <= i,
                seen.finite(),
                seen.len() == n,
                forall|h: u64|
                    seen.contains(h) <==> exists|k: int|
                        0 <= k < i && self.instances.keys_seq()[k] == h
                            && #[trigger] self.instances.vals_seq()[k].pending_playback,
            decreases len - i,
        {
            let key = self.instances.key_at(i);
            if self.instances.value_at(i).pending_playback {
                proof {
                    assert(!seen.contains(key)) by {
                        if seen.contains(key) {
                            let k = choose|k: int|
                                0 <= k < i && self.instances.keys_seq()[k] == key
                                    && #[trigger] self.instances.vals_seq()[k].pending_playback;
                            assert(self.instances.keys_seq()[k] < self.instances.keys_seq()[i as int]);
                        }
                    }
                    let before = seen;
                    seen = seen.insert(key);
                    assert forall|h: u64|
                        seen.contains(h) <==> exists|k: int|
                            0 <= k < i + 1 && self.instances.keys_seq()[k] == h
                                && #[trigger] self.instances.vals_seq()[k].pending_playback by {
                        if h == key {
                            assert(self.instances.vals_seq()[i as int].pending_playback);
                        }
                        if exists|k: int|
                            0 <= k < i + 1 && self.instances.keys_seq()[k] == h
                                && #[trigger] self.instances.vals_seq()[k].pending_playback {
                            let k = choose|k: int|
                                0 <= k < i + 1 && self.instances.keys_seq()[k] == h
                                    && #[trigger] self.instances.vals_seq()[k].pending_playback;
                            if k < i {
                                assert(before.contains(h));
                            }
                        }
                    }
                }
                n = n + 1;
            } else {
                proof {
                    assert forall|h: u64|
                        seen.contains(h) <==> exists|k: int|
                            0 <= k < i + 1 && self.instances.keys_seq()[k] == h
                                && #[trigger] self.instances.vals_seq()[k].pending_playback by {
                        if exists|k: int|
                            0 <= k < i + 1 && self.instances.keys_seq()[k] == h
                                && #[trigger] self.instances.vals_seq()[k].pending_playback {
                            let k = choose|k: int|
                                0 <= k < i + 1 && self.instances.keys_seq()[k] == h
                                    && #[trigger] self.instances.vals_seq()[k].pending_playback;
                            assert(k != i);
                        }
                    }
                }
            }
            i = i + 1;
        }
        proof {
            assert forall|h: u64| seen.contains(h) <==> #[trigger] self.pending_instances().contains(h) by {
                if seen.contains(h) {
                    let k = choose|k: int|
                        0 <= k < len && self.instances.keys_seq()[k] == h
                            && #[trigger] self.instances.vals_seq()[k].pending_playback;
                    self.instances.lemma_entry(k);
                }
                if self.pending_instances().contains(h) {
                    let k = self.instances.lemma_key(h);
                    assert(self.instances.vals_seq()[k].pending_playback);
                }
            }
            assert(seen =~= self.pending_instances());
        }
        n
    }

    /// The animation service readout over the current selection.
    pub fn readout(&self, selection: &ResourceSelection) -> (r: AnimationReadout)
        requires
            self.wf(),
        ensures
            r == (AnimationReadout {
                admitted_meshes: saturated(
                    kind_count(selection.resources_view(), CsharpRenderResourceKind::AnimatedMesh),
                ),
                admitted_clip_packs: saturated(
                    kind_count(
                        selection.resources_view(),
                        CsharpRenderResourceKind::AnimationClipPack,
                    ),
                ),
                retained_instances: saturated(self.instances_view().dom().len()),
                retained_graphs: saturated(self.graphs_view().dom().len()),
                retained_controllers: saturated(self.controllers_view().dom().len()),
                pending_playback_commands: saturated(self.pending_instances().len()),
            }),
    {
        AnimationReadout {
            admitted_meshes: saturating_u32(
                selection.count_kind(CsharpRenderResourceKind::AnimatedMesh),
            ),
            admitted_clip_packs: saturating_u32(
                selection.count_kind(CsharpRenderResourceKind::AnimationClipPack),
            ),
            retained_instances: saturating_u32(self.instances.len()),
            retained_graphs: saturating_u32(self.graphs.len()),
            retained_controllers: saturating_u32(self.controllers.len()),
            pending_playback_commands: saturating_u32(self.pending_playback_count()),
        }
    }

    /// Instances and both counters of instances and controllers are
    /// unchanged.
    pub open spec fn same_instances_only(&self, other: &Self) -> bool {
        &&& self.instances_view() == other.instances_view()
        &&& self.next_instance_view() == other.next_instance_view()
        &&& self.next_controller_view() == other.next_controller_view()
    }

    /// Instances, controllers and their counters are unchanged.
    pub open spec fn same_instances(&self, other: &Self) -> bool {
        &&& self.instances_view() == other.instances_view()
        &&& self.controllers_view() == other.controllers_view()
        &&& self.next_instance_view() == other.next_instance_view()
        &&& self.next_controller_view() == other.next_controller_view()
    }

    /// Graphs, transitions and their counters are unchanged.
    pub open spec fn same_graphs(&self, other: &Self) -> bool {
        &&& self.graphs_view() == other.graphs_view()
        &&& self.transitions_view() == other.transitions_view()
        &&& self.next_graph_view() == other.next_graph_view()
        &&& self.next_transition_view() == other.next_transition_view()
    }

    /// Starts a graph over an admitted animated GLB selected under
    /// `resource`; its asset is the GLB's renderer asset.
    pub fn create_graph(
        &mut self,
        selection: &ResourceSelection,
        resource: u64,
        graph_id: String,
        version: u32,
        initial_state_id: String,
    ) -> (r: Result<u64, CsharpEngineServicesError>)
        requires
            old(self).wf(),
        ensures
            final(self).wf(),
            final(self).same_instances(old(self)),
            r is Err ==> *final(self) == *old(self),
            ({
                let res = selected_resource(selection.resources_view(), resource);
                if version == 0 {
                    r matches Err(e) && e.code_view() == "CSHARP_ANIMATION_GRAPH"@
                } else if res is None {
                    r matches Err(e) && e.code_view() == "CSHARP_RENDER_RESOURCE_HANDLE"@
                } else if res->0.kind != CsharpRenderResourceKind::AnimatedMesh {
                    r matches Err(e) && e.code_view() == "CSHARP_ANIMATION_GRAPH_RESOURCE"@
                } else if old(self).next_graph_view() == u64::MAX {
                    r matches Err(e) && e.code_view() == "CSHARP_ANIMATION_GRAPH"@
                } else {
                    &&& r == Ok::<u64, CsharpEngineServicesError>(old(self).next_graph_view())
                    &&& final(self).next_graph_view() == old(self).next_graph_view() + 1
                    &&& final(self).graphs_view().dom() == old(self).graphs_view().dom().insert(
                        old(self).next_graph_view(),
                    )
                    &&& forall|g: u64| #[trigger]
                        old(self).graphs_view().dom().contains(g) ==> final(self).graphs_view()[g]
                            == old(self).graphs_view()[g]
                    &&& ({
                        let graph = final(self).graphs_view()[old(self).next_graph_view()];
                        &&& graph.resource == resource
                        &&& graph.graph_id@ == graph_id@
                        &&& graph.version == version
                        &&& graph.asset_id@ == res->0.asset_identity
                        &&& graph.initial_state_id@ == initial_state_id@
                        &&& graph.parameters@.len() == 0
                        &&& graph.states@.len() == 0
                        &&& graph.transitions@.len() == 0
                    })
                    &&& final(self).transitions_view() == old(self).transitions_view()
                    &&& final(self).next_transition_view() == old(self).next_transition_view()
                }
            }),
    {
        if version == 0 {
            return Err(
                CsharpEngineServicesError::new(
                    "CSHARP_ANIMATION_GRAPH",
                    String::from_str("animation graph version must be non-zero"),
                ),
            );
        }
        let res = match selection.resource(resource) {
            Ok(res) => res,
            Err(e) => {
                return Err(e);
            },
        };
        if res.kind() != CsharpRenderResourceKind::AnimatedMesh {
            return Err(
                CsharpEngineServicesError::new(
                    "CSHARP_ANIMATION_GRAPH_RESOURCE",
                    String::from_str("animation graph requires an admitted primary animated GLB"),
                ),
            );
        }
        let handle = self.next_graph;
        if handle == u64::MAX {
            return Err(
                CsharpEngineServicesError::new(
                    "CSHARP_ANIMATION_GRAPH",
                    String::from_str("animation graph handles exhausted"),
                ),
            );
        }
        let graph = AnimationGraph {
            resource,
            graph_id,
            version,
            asset_id: res.asset_identity().to_owned(),
            initial_state_id,
            parameters: Vec::new(),
            states: Vec::new(),
            transitions: Vec::new(),
        };
        let ghost before = *self;
        self.next_graph = handle + 1;
        self.graphs.insert_new(handle, graph);
        proof {
            assert(self.graphs@.dom() =~= before.graphs@.dom().insert(handle));
            assert forall|t: u64| #[trigger]
                self.transitions@.dom().contains(t) implies self.graphs@.dom().contains(
                self.transitions@[t].graph,
            ) && self.transitions@[t].index < self.graphs@[self.transitions@[t].graph].transitions@.len() by {
                assert(before.graphs@.dom().contains(before.transitions@[t].graph));
            }
            assert forall|c: u64| #[trigger]
                self.controllers@.dom().contains(c) implies self.graphs@.dom().contains(
                self.controllers@[c].graph,
            ) && self.instances@.dom().contains(self.controllers@[c].instance)
                && self.instances@[self.controllers@[c].instance].controller == Some(c) by {
                assert(before.graphs@.dom().contains(before.controllers@[c].graph));
            }
        }
        Ok(handle)
    }

    /// Destroys a graph and its transition handles; a graph that a
    /// controller runs cannot be destroyed, and a graph that is not live
    /// is ignored.
    pub fn destroy_graph(&mut self, graph: u64) -> (r: Result<(), CsharpEngineServicesError>)
        requires
            old(self).wf(),
        ensures
            final(self).wf(),
            final(self).same_instances(old(self)),
            r is Err ==> *final(self) == *old(self),
            r is Ok <==> !graph_in_use(old(self).controllers_view(), graph),
            r matches Err(e) ==> e.code_view() == "CSHARP_ANIMATION_GRAPH_IN_USE"@,
            r is Ok ==> {
                &&& final(self).graphs_view() == old(self).graphs_view().remove(graph)
                &&& final(self).transitions_view().dom() == old(self).transitions_view().dom().filter(
                    |t: u64| old(self).transitions_view()[t].graph != graph,
                )
                &&& forall|t: u64| #[trigger]
                    final(self).transitions_view().dom().contains(t)
                        ==> final(self).transitions_view()[t] == old(self).transitions_view()[t]
                &&& final(self).next_graph_view() == old(self).next_graph_view()
                &&& final(self).next_transition_view() == old(self).next_transition_view()
            },
    {
        if self.controller_runs_graph(graph) {
            return Err(
                CsharpEngineServicesError::new(
                    "CSHARP_ANIMATION_GRAPH_IN_USE",
                    String::from_str("dispose controllers using this graph before disposing it"),
                ),
            );
        }
        let ghost before = *self;
        self.graphs.remove(graph);
        self.drop_graph_transitions(graph);
        proof {
            assert forall|t: u64| #[trigger]
                self.transitions@.dom().contains(t) implies self.graphs@.dom().contains(
                self.transitions@[t].graph,
            ) && self.transitions@[t].index < self.graphs@[self.transitions@[t].graph].transitions@.len() by {
                assert(before.transitions@.dom().contains(t));
            }
            assert forall|c: u64| #[trigger]
                self.controllers@.dom().contains(c) implies self.graphs@.dom().contains(
                self.controllers@[c].graph,
            ) && self.instances@.dom().contains(self.controllers@[c].instance)
                && self.instances@[self.controllers@[c].instance].controller == Some(c) by {
                assert(before.controllers@[c].graph != graph);
            }
        }
        Ok(())
    }

    fn controller_runs_graph(&self, graph: u64) -> (b: bool)
        requires
            self.wf(),
        ensures
            b == graph_in_use(self.controllers_view(), graph),
    {
        let n = self.controllers.len();
        let mut i: usize = 0;
        while i < n
            invariant
                self.controllers.wf(),
                n == self.controllers.keys_seq().len(),
                i <= n,
                forall|j: int| 0 <= j < i ==> (#[trigger] self.controllers.vals_seq()[j]).graph != graph,
            decreases n - i,
        {
            if self.controllers.value_at(i).graph == graph {
                proof {
                    self.controllers.lemma_entry(i as int);
                }
                return true;
            }
            i = i + 1;
        }
        proof {
            assert forall|c: u64| self.controllers@.dom().contains(c) implies self.controllers@[c].graph
                != graph by {
                let j = self.controllers.lemma_key(c);
            }
        }
        false
    }

    /// Removes every transition handle of `graph`.
    fn drop_graph_transitions(&mut self, graph: u64)
        requires
            old(self).transitions.wf(),
            old(self).transitions.all_below(old(self).next_transition),
        ensures
            final(self).transitions.wf(),
            final(self).transitions.all_below(final(self).next_transition),
            final(self).transitions@.dom() == old(self).transitions@.dom().filter(
                |t: u64| old(self).transitions@[t].graph != graph,
            ),
            forall|t: u64| #[trigger]
                final(self).transitions@.dom().contains(t) ==> final(self).transitions@[t]
                    == old(self).transitions@[t],
            final(self).graphs == old(self).graphs,
            final(self).instances == old(self).instances,
            final(self).controllers == old(self).controllers,
            final(self).next_graph == old(self).next_graph,
            final(self).next_transition == old(self).next_transition,
            final(self).next_instance == old(self).next_instance,
            final(self).next_controller == old(self).next_controller,
    {
        let ghost prior = self.transitions@;
        let keys = self.transition_handles_of(graph);
        let n = keys.len();
        let mut i: usize = 0;
        while i < n
            invariant
                self.transitions.wf(),
                self.transitions.all_below(self.next_transition),
                n == keys@.len(),
                i <= n,
                forall|k: int| 0 <= k < n ==> prior.dom().contains(#[trigger] keys@[k])
                    && prior[keys@[k]].graph == graph,
                forall|t: u64| prior.dom().contains(t) && prior[t].graph == graph ==> keys@.contains(t),
                forall|t: u64|
                    self.transitions@.dom().contains(t) <==> (prior.dom().contains(t) && !(exists|k: int|
                        0 <= k < i && #[trigger] keys@[k] == t)),
                forall|t: u64| #[trigger] self.transitions@.dom().contains(t) ==> self.transitions@[t] == prior[t],
                self.graphs == old(self).graphs,
                self.instances == old(self).instances,
                self.controllers == old(self).controllers,
                self.next_graph == old(self).next_graph,
                self.next_transition == old(self).next_transition,
                self.next_instance == old(self).next_instance,
                self.next_controller == old(self).next_controller,
            decreases n - i,
        {
            let ghost before = self.transitions@;
            let key = keys[i];
            self.transitions.remove(key);
            proof {
                assert forall|t: u64|
                    self.transitions@.dom().contains(t) <==> (prior.dom().contains(t) && !(exists|k: int|
                        0 <= k < i + 1 && #[trigger] keys@[k] == t)) by {
                    if exists|k: int| 0 <= k < i + 1 && #[trigger] keys@[k] == t {
                        let k = choose|k: int| 0 <= k < i + 1 && #[trigger] keys@[k] == t;
                        if k < i {
                            assert(!before.dom().contains(t));
                        }
                    }
                    if t == key {
                        assert(keys@[i as int] == t);
                    }
                }
            }
            i = i + 1;
        }
        proof {
            assert forall|t: u64|
                self.transitions@.dom().contains(t) <==> prior.dom().filter(
                    |t: u64| prior[t].graph != graph,
                ).contains(t) by {
                if prior.dom().contains(t) && prior[t].graph == graph {
                    let k = choose|k: int| 0 <= k < keys@.len() && keys@[k] == t;
                    assert(keys@[k] == t);
                }
            }
            assert(self.transitions@.dom() =~= prior.dom().filter(
                |t: u64| prior[t].graph != graph,
            ));
        }
    }

    /// The transition handles of `graph`.
    fn transition_handles_of(&self, graph: u64) -> (r: Vec<u64>)
        requires
            self.transitions.wf(),
        ensures
            forall|k: int| 0 <= k < r@.len() ==> self.transitions@.dom().contains(#[trigger] r@[k])
                && self.transitions@[r@[k]].graph == graph,
            forall|t: u64| self.transitions@.dom().contains(t) && self.transitions@[t].graph == graph ==> r@.contains(t),
    {
        let n = self.transitions.len();
        let mut out: Vec<u64> = Vec::new();
        let mut i: usize = 0;
        while i < n
            invariant
                self.transitions.wf(),
                n == self.transitions.keys_seq().len(),
                i <= n,
                forall|k: int| 0 <= k < out@.len() ==> self.transitions@.dom().contains(#[trigger] out@[k])
                    && self.transitions@[out@[k]].graph == graph,
                forall|j: int|
                    0 <= j < i && (#[trigger] self.transitions.vals_seq()[j]).graph == graph
                        ==> out@.contains(self.transitions.keys_seq()[j]),
            decreases n - i,
        {
            proof {
                self.transitions.lemma_entry(i as int);
            }
            if self.transitions.value_at(i).graph == graph {
                let ghost before = out@;
                out.push(self.transitions.key_at(i));
                proof {
                    assert forall|j: int|
                        0 <= j < i + 1 && (#[trigger] self.transitions.vals_seq()[j]).graph == graph
                            implies out@.contains(self.transitions.keys_seq()[j]) by {
                        if j < i {
                            let k = choose|k: int| 0 <= k < before.len() && before[k] == self.transitions.keys_seq()[j];
                            assert(out@[k] == before[k]);
                        } else {
                            assert(out@[out@.len() - 1] == self.transitions.keys_seq()[j]);
                        }
                    }
                }
            }
            i = i + 1;
        }
        proof {
            assert forall|t: u64| self.transitions@.dom().contains(t) && self.transitions@[t].graph == graph implies out@.contains(t) by {
                let j = self.transitions.lemma_key(t);
                assert(self.transitions.vals_seq()[j].graph == graph);
            }
        }
        out
    }


    fn take_graph(&mut self, graph: u64) -> (g: AnimationGraph)
        requires
            old(self).graphs.wf(),
            old(self).graphs@.dom().contains(graph),
        ensures
            final(self).graphs.wf(),
            g == old(self).graphs@[graph],
            final(self).graphs@.dom() == old(self).graphs@.dom(),
            final(self).graphs.keys_seq() == old(self).graphs.keys_seq(),
            forall|k: u64| #[trigger]
                final(self).graphs@.dom().contains(k) && k != graph ==> final(self).graphs@[k]
                    == old(self).graphs@[k],
            final(self).transitions == old(self).transitions,
            final(self).instances == old(self).instances,
            final(self).controllers == old(self).controllers,
            final(self).next_graph == old(self).next_graph,
            final(self).next_transition == old(self).next_transition,
            final(self).next_instance == old(self).next_instance,
            final(self).next_controller == old(self).next_controller,
    {
        let placeholder = AnimationGraph {
            resource: 0,
            graph_id: String::new(),
            version: 0,
            asset_id: String::new(),
            initial_state_id: String::new(),
            parameters: Vec::new(),
            states: Vec::new(),
            transitions: Vec::new(),
        };
        let g = self.graphs.replace_value(graph, placeholder);
        assert(self.graphs@.dom() =~= old(self).graphs@.dom());
        g
    }

    /// Adds a parameter to a live graph.
    pub fn define_parameter(&mut self, graph: u64, parameter: AnimationParameterDefinition) -> (r:
        Result<(), CsharpEngineServicesError>)
        requires
            old(self).wf(),
        ensures
            final(self).wf(),
            final(self).same_instances(old(self)),
            r is Err ==> *final(self) == *old(self),
            r is Ok <==> old(self).graphs_view().dom().contains(graph),
            r matches Err(e) ==> e.code_view() == "CSHARP_ANIMATION_GRAPH"@,
            r is Ok ==> {
                let pre = old(self).graphs_view()[graph];
                let post = final(self).graphs_view()[graph];
                &&& graphs_agree_except(old(self).graphs_view(), final(self).graphs_view(), graph)
                &&& same_graph_header(pre, post)
                &&& post.states == pre.states
                &&& post.transitions == pre.transitions
                &&& post.parameters@ == pre.parameters@.push(parameter)
                &&& final(self).transitions_view() == old(self).transitions_view()
                &&& final(self).next_graph_view() == old(self).next_graph_view()
                &&& final(self).next_transition_view() == old(self).next_transition_view()
            },
    {
        if !self.graphs.contains(graph) {
            return Err(graph_error());
        }
        let ghost before = *self;
        let mut g = self.take_graph(graph);
        g.parameters.push(parameter);
        self.graphs.set_value(graph, g);
        proof {
            assert(self.graphs@ =~= before.graphs@.insert(graph, self.graphs@[graph]));
            assert(self.graphs@.dom() =~= before.graphs@.dom());
            self.lemma_graph_edit_keeps_wf(before, graph);
        }
        Ok(())
    }

    /// Adds a state to a live graph.
    pub fn define_state(&mut self, graph: u64, state: AnimationStateDefinition) -> (r: Result<
        (),
        CsharpEngineServicesError,
    >)
        requires
            old(self).wf(),
        ensures
            final(self).wf(),
            final(self).same_instances(old(self)),
            r is Err ==> *final(self) == *old(self),
            r is Ok <==> old(self).graphs_view().dom().contains(graph),
            r matches Err(e) ==> e.code_view() == "CSHARP_ANIMATION_GRAPH"@,
            r is Ok ==> {
                let pre = old(self).graphs_view()[graph];
                let post = final(self).graphs_view()[graph];
                &&& graphs_agree_except(old(self).graphs_view(), final(self).graphs_view(), graph)
                &&& same_graph_header(pre, post)
                &&& post.parameters == pre.parameters
                &&& post.transitions == pre.transitions
                &&& post.states@ == pre.states@.push(state)
                &&& final(self).transitions_view() == old(self).transitions_view()
                &&& final(self).next_graph_view() == old(self).next_graph_view()
                &&& final(self).next_transition_view() == old(self).next_transition_view()
            },
    {
        if !self.graphs.contains(graph) {
            return Err(graph_error());
        }
        let ghost before = *self;
        let mut g = self.take_graph(graph);
        g.states.push(state);
        self.graphs.set_value(graph, g);
        proof {
            assert(self.graphs@ =~= before.graphs@.insert(graph, self.graphs@[graph]));
            assert(self.graphs@.dom() =~= before.graphs@.dom());
            self.lemma_graph_edit_keeps_wf(before, graph);
        }
        Ok(())
    }

    /// Adds a transition to a live graph under the next transition handle;
    /// its priority must fit 16 bits.
    pub fn define_transition(
        &mut self,
        graph: u64,
        transition_id: String,
        from_state_id: String,
        to_state_id: String,
        priority: u32,
        duration_ticks: u32,
    ) -> (r: Result<u64, CsharpEngineServicesError>)
        requires
            old(self).wf(),
        ensures
            final(self).wf(),
            final(self).same_instances(old(self)),
            r is Err ==> *final(self) == *old(self),
            r is Ok <==> old(self).graphs_view().dom().contains(graph) && priority <= u16::MAX
                && old(self).next_transition_view() < u64::MAX,
            r matches Err(e) ==> e.code_view() == (if !old(self).graphs_view().dom().contains(graph) {
                "CSHARP_ANIMATION_GRAPH"@
            } else {
                "CSHARP_ANIMATION_TRANSITION"@
            }),
            r matches Ok(h) ==> {
                let pre = old(self).graphs_view()[graph];
                let post = final(self).graphs_view()[graph];
                let added = post.transitions@[pre.transitions@.len() as int];
                &&& h == old(self).next_transition_view()
                &&& final(self).next_transition_view() == h + 1
                &&& final(self).transitions_view() == old(self).transitions_view().insert(
                    h,
                    AnimationTransitionRef { graph, index: pre.transitions@.len() as usize },
                )
                &&& graphs_agree_except(old(self).graphs_view(), final(self).graphs_view(), graph)
                &&& same_graph_header(pre, post)
                &&& post.parameters == pre.parameters
                &&& post.states == pre.states
                &&& post.transitions@.len() == pre.transitions@.len() + 1
                &&& post.transitions@.subrange(0, pre.transitions@.len() as int) == pre.transitions@
                &&& added.transition_id@ == transition_id@
                &&& added.from_state_id@ == from_state_id@
                &&& added.to_state_id@ == to_state_id@
                &&& added.priority == priority
                &&& added.duration_ticks == duration_ticks
                &&& added.conditions@.len() == 0
                &&& final(self).next_graph_view() == old(self).next_graph_view()
            },
    {
        if !self.graphs.contains(graph) {
            return Err(graph_error());
        }
        if priority > 65535 {
            return Err(
                CsharpEngineServicesError::new(
                    "CSHARP_ANIMATION_TRANSITION",
                    String::from_str("animation transition priority exceeded u16"),
                ),
            );
        }
        let handle = self.next_transition;
        if handle == u64::MAX {
            return Err(
                CsharpEngineServicesError::new(
                    "CSHARP_ANIMATION_TRANSITION",
                    String::from_str("animation transition handles exhausted"),
                ),
            );
        }
        let ghost before = *self;
        let mut g = self.take_graph(graph);
        let index = g.transitions.len();
        g.transitions.push(
            AnimationTransitionDefinition {
                transition_id,
                from_state_id,
                to_state_id,
                priority: priority as u16,
                duration_ticks,
                conditions: Vec::new(),
            },
        );
        self.graphs.set_value(graph, g);
        assert(self.graphs@ =~= before.graphs@.insert(graph, self.graphs@[graph]));
        assert(self.graphs@.dom() =~= before.graphs@.dom());
        self.next_transition = handle + 1;
        self.transitions.insert_new(handle, AnimationTransitionRef { graph, index });
        proof {
            assert(self.graphs@[graph].transitions@.subrange(0, index as int) =~= before.graphs@[graph].transitions@);
            assert forall|t: u64| #[trigger]
                self.transitions@.dom().contains(t) implies self.graphs@.dom().contains(
                self.transitions@[t].graph,
            ) && self.transitions@[t].index < self.graphs@[self.transitions@[t].graph].transitions@.len() by {
                if t != handle {
                    assert(before.transitions@.dom().contains(t));
                    assert(before.graphs@.dom().contains(before.transitions@[t].graph));
                }
            }
            assert forall|c: u64| #[trigger]
                self.controllers@.dom().contains(c) implies self.graphs@.dom().contains(
                self.controllers@[c].graph,
            ) && self.instances@.dom().contains(self.controllers@[c].instance)
                && self.instances@[self.controllers@[c].instance].controller == Some(c) by {
                assert(before.graphs@.dom().contains(before.controllers@[c].graph));
            }
        }
        Ok(handle)
    }

    /// Adds a condition to the transition behind a live transition handle.
    pub fn define_condition(&mut self, transition: u64, condition: AnimationCondition) -> (r: Result<
        (),
        CsharpEngineServicesError,
    >)
        requires
            old(self).wf(),
        ensures
            final(self).wf(),
            final(self).same_instances(old(self)),
            r is Err ==> *final(self) == *old(self),
            r is Ok <==> old(self).transitions_view().dom().contains(transition),
            r matches Err(e) ==> e.code_view() == "CSHARP_ANIMATION_TRANSITION"@,
            r is Ok ==> {
                let at = old(self).transitions_view()[transition];
                let pre = old(self).graphs_view()[at.graph];
                let post = final(self).graphs_view()[at.graph];
                &&& graphs_agree_except(old(self).graphs_view(), final(self).graphs_view(), at.graph)
                &&& same_graph_header(pre, post)
                &&& post.parameters == pre.parameters
                &&& post.states == pre.states
                &&& post.transitions@.len() == pre.transitions@.len()
                &&& forall|i: int|
                    0 <= i < pre.transitions@.len() && i != at.index ==> post.transitions@[i]
                        == pre.transitions@[i]
                &&& same_transition_header(pre.transitions@[at.index as int], post.transitions@[at.index as int])
                &&& post.transitions@[at.index as int].conditions@ == pre.transitions@[at.index as int].conditions@.push(
                    condition,
                )
                &&& final(self).transitions_view() == old(self).transitions_view()
                &&& final(self).next_graph_view() == old(self).next_graph_view()
                &&& final(self).next_transition_view() == old(self).next_transition_view()
            },
    {
        let at = match self.transitions.get(transition) {
            Some(at) => *at,
            None => {
                return Err(
                    CsharpEngineServicesError::new(
                        "CSHARP_ANIMATION_TRANSITION",
                        String::from_str("animation transition is not live"),
                    ),
                );
            },
        };
        let ghost before = *self;
        let mut g = self.take_graph(at.graph);
        let mut t = AnimationTransitionDefinition {
            transition_id: String::new(),
            from_state_id: String::new(),
            to_state_id: String::new(),
            priority: 0,
            duration_ticks: 0,
            conditions: Vec::new(),
        };
        let ghost pre_transitions = g.transitions@;
        std::mem::swap(&mut g.transitions[at.index], &mut t);
        let ghost prior = t;
        t.conditions.push(condition);
        std::mem::swap(&mut g.transitions[at.index], &mut t);
        assert(g.transitions@ == pre_transitions.update(at.index as int, g.transitions@[at.index as int]));
        self.graphs.set_value(at.graph, g);
        proof {
            assert(self.graphs@ =~= before.graphs@.insert(at.graph, self.graphs@[at.graph]));
            assert(self.graphs@.dom() =~= before.graphs@.dom());
            self.lemma_graph_edit_keeps_wf(before, at.graph);
        }
        Ok(())
    }

    proof fn lemma_graph_edit_keeps_wf(&self, before: Self, graph: u64)
        requires
            before.wf(),
            self.graphs.wf(),
            before.graphs@.dom().contains(graph),
            self.graphs@ == before.graphs@.insert(graph, self.graphs@[graph]),
            self.graphs@[graph].transitions@.len() >= before.graphs@[graph].transitions@.len(),
            self.transitions == before.transitions,
            self.instances == before.instances,
            self.controllers == before.controllers,
            self.next_graph == before.next_graph,
            self.next_transition == before.next_transition,
            self.next_instance == before.next_instance,
            self.next_controller == before.next_controller,
        ensures
            self.wf(),
    {
        assert forall|t: u64| #[trigger]
            self.transitions@.dom().contains(t) implies self.graphs@.dom().contains(
            self.transitions@[t].graph,
        ) && self.transitions@[t].index < self.graphs@[self.transitions@[t].graph].transitions@.len() by {
            assert(before.graphs@.dom().contains(before.transitions@[t].graph));
        }
        assert forall|c: u64| #[trigger]
            self.controllers@.dom().contains(c) implies self.graphs@.dom().contains(
            self.controllers@[c].graph,
        ) && self.instances@.dom().contains(self.controllers@[c].instance)
            && self.instances@[self.controllers@[c].instance].controller == Some(c) by {
            assert(before.graphs@.dom().contains(before.controllers@[c].graph));
        }
    }


    /// Starts an animation instance of product object `object_id` on an
    /// animated-mesh appearance whose selected resource is
    /// `appearance_resource` (`None` when the appearance is not a live
    /// animated-mesh appearance); one object has at most one instance.
    pub fn create_instance(
        &mut self,
        selection: &ResourceSelection,
        appearance: u64,
        appearance_resource: Option<u64>,
        object_id: u64,
    ) -> (r: Result<u64, CsharpEngineServicesError>)
        requires
            old(self).wf(),
        ensures
            final(self).wf(),
            final(self).same_graphs(old(self)),
            r is Err ==> *final(self) == *old(self),
            ({
                let res = match appearance_resource {
                    Some(h) => selected_resource(selection.resources_view(), h),
                    None => None,
                };
                if appearance_resource is None {
                    r matches Err(e) && e.code_view() == "CSHARP_ANIMATION_APPEARANCE"@
                } else if object_animated(old(self).instances_view(), object_id) {
                    r matches Err(e) && e.code_view() == "CSHARP_ANIMATION_INSTANCE_OBJECT"@
                } else if res is None || res->0.kind != CsharpRenderResourceKind::AnimatedMesh {
                    r matches Err(e) && e.code_view() == "CSHARP_ANIMATION_RESOURCE"@
                } else if old(self).next_instance_view() == u64::MAX {
                    r matches Err(e) && e.code_view() == "CSHARP_ANIMATION_INSTANCE"@
                } else {
                    let h = old(self).next_instance_view();
                    let inst = final(self).instances_view()[h];
                    &&& r == Ok::<u64, CsharpEngineServicesError>(h)
                    &&& final(self).next_instance_view() == h + 1
                    &&& final(self).instances_view().dom() == old(self).instances_view().dom().insert(h)
                    &&& forall|i: u64| #[trigger]
                        old(self).instances_view().dom().contains(i) ==> final(self).instances_view()[i]
                            == old(self).instances_view()[i]
                    &&& inst.appearance == appearance
                    &&& inst.object_id == object_id
                    &&& inst.asset@ == res->0.asset_identity
                    &&& inst.content_hash@ == res->0.content_hash
                    &&& !inst.direct_playback
                    &&& !inst.pending_playback
                    &&& inst.last_playback_target is None
                    &&& inst.controller is None
                    &&& final(self).controllers_view() == old(self).controllers_view()
                    &&& final(self).next_controller_view() == old(self).next_controller_view()
                }
            }),
    {
        let resource = match appearance_resource {
            Some(h) => h,
            None => {
                return Err(
                    CsharpEngineServicesError::new(
                        "CSHARP_ANIMATION_APPEARANCE",
                        String::from_str("animation instances require a live animated-mesh appearance"),
                    ),
                );
            },
        };
        if self.object_has_instance(object_id) {
            return Err(
                CsharpEngineServicesError::new(
                    "CSHARP_ANIMATION_INSTANCE_OBJECT",
                    String::from_str("a product object may have only one retained animation instance"),
                ),
            );
        }
        let res = match selection.resource(resource) {
            Ok(res) => res,
            Err(_) => {
                return Err(resource_error());
            },
        };
        if res.kind() != CsharpRenderResourceKind::AnimatedMesh {
            return Err(resource_error());
        }
        let handle = self.next_instance;
        if handle == u64::MAX {
            return Err(
                CsharpEngineServicesError::new(
                    "CSHARP_ANIMATION_INSTANCE",
                    String::from_str("animation instance handles exhausted"),
                ),
            );
        }
        let instance = AnimationInstance {
            appearance,
            object_id,
            asset: res.asset_identity().to_owned(),
            content_hash: res.content_hash().to_owned(),
            direct_playback: false,
            pending_playback: false,
            last_playback_target: None,
            controller: None,
        };
        let ghost before = *self;
        self.next_instance = handle + 1;
        self.instances.insert_new(handle, instance);
        proof {
            assert(self.instances@.dom() =~= before.instances@.dom().insert(handle));
            assert forall|a: u64, b: u64|
                #![trigger self.instances@[a], self.instances@[b]]
                self.instances@.dom().contains(a) && self.instances@.dom().contains(b) && a != b
                    implies self.instances@[a].object_id != self.instances@[b].object_id by {
                if a != handle && b != handle {
                    assert(before.instances@[a].object_id != before.instances@[b].object_id);
                } else if a == handle {
                    assert(before.instances@.dom().contains(b));
                } else {
                    assert(before.instances@.dom().contains(a));
                }
            }
            assert forall|c: u64| #[trigger]
                self.controllers@.dom().contains(c) implies self.graphs@.dom().contains(
                self.controllers@[c].graph,
            ) && self.instances@.dom().contains(self.controllers@[c].instance)
                && self.instances@[self.controllers@[c].instance].controller == Some(c) by {
                assert(before.instances@.dom().contains(before.controllers@[c].instance));
            }
            assert forall|i: u64| #[trigger]
                self.instances@.dom().contains(i) implies (self.instances@[i].controller matches Some(c)
                ==> self.controllers@.dom().contains(c) && self.controllers@[c].instance == i) by {
                if i != handle {
                    assert(before.instances@.dom().contains(i));
                }
            }
        }
        Ok(handle)
    }

    fn object_has_instance(&self, object_id: u64) -> (b: bool)
        requires
            self.wf(),
        ensures
            b == object_animated(self.instances_view(), object_id),
    {
        let n = self.instances.len();
        let mut i: usize = 0;
        while i < n
            invariant
                self.instances.wf(),
                n == self.instances.keys_seq().len(),
                i <= n,
                forall|j: int| 0 <= j < i ==> (#[trigger] self.instances.vals_seq()[j]).object_id != object_id,
            decreases n - i,
        {
            if self.instances.value_at(i).object_id == object_id {
                proof {
                    self.instances.lemma_entry(i as int);
                }
                return true;
            }
            i = i + 1;
        }
        proof {
            assert forall|k: u64| self.instances@.dom().contains(k) implies self.instances@[k].object_id
                != object_id by {
                let j = self.instances.lemma_key(k);
            }
        }
        false
    }

    /// Destroys an animation instance. An instance that a controller
    /// drives cannot be destroyed, nor one whose removal would follow a
    /// snapshot already staged in this call.
    pub fn destroy_instance(&mut self, instance: u64, frame_staged: bool) -> (r: Result<
        (),
        CsharpEngineServicesError,
    >)
        requires
            old(self).wf(),
        ensures
            final(self).wf(),
            final(self).same_graphs(old(self)),
            r is Err ==> *final(self) == *old(self),
            r is Ok <==> old(self).instances_view().dom().contains(instance)
                && old(self).instances_view()[instance].controller is None && !frame_staged,
            r matches Err(e) ==> e.code_view() == (if !old(self).instances_view().dom().contains(
                instance,
            ) {
                "CSHARP_ANIMATION_INSTANCE"@
            } else if old(self).instances_view()[instance].controller is Some {
                "CSHARP_ANIMATION_INSTANCE_IN_USE"@
            } else {
                "CSHARP_ANIMATION_SNAPSHOT_ORDER"@
            }),
            r is Ok ==> final(self).instances_view() == old(self).instances_view().remove(instance)
                && final(self).controllers_view() == old(self).controllers_view()
                && final(self).next_instance_view() == old(self).next_instance_view()
                && final(self).next_controller_view() == old(self).next_controller_view(),
    {
        let controlled = match self.instances.get(instance) {
            Some(i) => i.controller.is_some(),
            None => {
                return Err(instance_error());
            },
        };
        if controlled {
            return Err(
                CsharpEngineServicesError::new(
                    "CSHARP_ANIMATION_INSTANCE_IN_USE",
                    String::from_str("dispose the animation controller before disposing its instance"),
                ),
            );
        }
        if frame_staged {
            return Err(snapshot_order_error());
        }
        let ghost before = *self;
        self.instances.remove(instance);
        proof {
            assert forall|c: u64| #[trigger]
                self.controllers@.dom().contains(c) implies self.graphs@.dom().contains(
                self.controllers@[c].graph,
            ) && self.instances@.dom().contains(self.controllers@[c].instance)
                && self.instances@[self.controllers@[c].instance].controller == Some(c) by {
                assert(before.controllers@[c].instance != instance);
            }
            assert forall|a: u64, b: u64|
                #![trigger self.instances@[a], self.instances@[b]]
                self.instances@.dom().contains(a) && self.instances@.dom().contains(b) && a != b
                    implies self.instances@[a].object_id != self.instances@[b].object_id by {
                assert(before.instances@[a].object_id != before.instances@[b].object_id);
            }
        }
        Ok(())
    }

    /// Whether an instance may take direct playback: it must be live and
    /// not driven by a controller.
    pub fn check_direct_playback(&self, instance: u64) -> (r: Result<(), CsharpEngineServicesError>)
        requires
            self.wf(),
        ensures
            r is Ok <==> self.instances_view().dom().contains(instance)
                && self.instances_view()[instance].controller is None,
            r matches Err(e) ==> e.code_view() == (if !self.instances_view().dom().contains(instance) {
                "CSHARP_ANIMATION_INSTANCE"@
            } else {
                "CSHARP_ANIMATION_INSTANCE_MODE"@
            }),
    {
        match self.instances.get(instance) {
            None => Err(instance_error()),
            Some(i) => if i.controller.is_some() {
                Err(
                    CsharpEngineServicesError::new(
                        "CSHARP_ANIMATION_INSTANCE_MODE",
                        String::from_str("direct playback cannot be mixed with a controller on one instance"),
                    ),
                )
            } else {
                Ok(())
            },
        }
    }

    /// Records that an instance is driven by direct playback; its new
    /// command is pending until a frame carrying it is staged.
    pub fn record_direct_playback(&mut self, instance: u64) -> (r: Result<
        (),
        CsharpEngineServicesError,
    >)
        requires
            old(self).wf(),
        ensures
            final(self).wf(),
            final(self).same_graphs(old(self)),
            r is Err ==> *final(self) == *old(self),
            r is Ok <==> old(self).instances_view().dom().contains(instance)
                && old(self).instances_view()[instance].controller is None,
            r matches Err(e) ==> e.code_view() == (if !old(self).instances_view().dom().contains(
                instance,
            ) {
                "CSHARP_ANIMATION_INSTANCE"@
            } else {
                "CSHARP_ANIMATION_INSTANCE_MODE"@
            }),
            r is Ok ==> {
                let pre = old(self).instances_view()[instance];
                &&& final(self).instances_view() == old(self).instances_view().insert(
                    instance,
                    AnimationInstance { direct_playback: true, pending_playback: true, ..pre },
                )
                &&& final(self).controllers_view() == old(self).controllers_view()
                &&& final(self).next_instance_view() == old(self).next_instance_view()
                &&& final(self).next_controller_view() == old(self).next_controller_view()
            },
    {
        if let Err(e) = self.check_direct_playback(instance) {
            return Err(e);
        }
        let ghost before = *self;
        let mut current = self.take_instance(instance);
        current.direct_playback = true;
        current.pending_playback = true;
        self.instances.set_value(instance, current);
        proof {
            assert(self.instances@ =~= before.instances@.insert(instance, self.instances@[instance]));
            self.lemma_instance_edit_keeps_wf(before, instance);
        }
        Ok(())
    }

    fn take_instance(&mut self, instance: u64) -> (i: AnimationInstance)
        requires
            old(self).instances.wf(),
            old(self).instances@.dom().contains(instance),
        ensures
            final(self).instances.wf(),
            i == old(self).instances@[instance],
            final(self).instances@.dom() == old(self).instances@.dom(),
            forall|k: u64| #[trigger]
                final(self).instances@.dom().contains(k) && k != instance ==> final(self).instances@[k]
                    == old(self).instances@[k],
            final(self).graphs == old(self).graphs,
            final(self).transitions == old(self).transitions,
            final(self).controllers == old(self).controllers,
            final(self).next_graph == old(self).next_graph,
            final(self).next_transition == old(self).next_transition,
            final(self).next_instance == old(self).next_instance,
            final(self).next_controller == old(self).next_controller,
    {
        let placeholder = AnimationInstance {
            appearance: 0,
            object_id: 0,
            asset: String::new(),
            content_hash: String::new(),
            direct_playback: false,
            pending_playback: false,
            last_playback_target: None,
            controller: None,
        };
        let i = self.instances.replace_value(instance, placeholder);
        assert(self.instances@.dom() =~= old(self).instances@.dom());
        i
    }

    proof fn lemma_instance_edit_keeps_wf(&self, before: Self, instance: u64)
        requires
            before.wf(),
            self.instances.wf(),
            before.instances@.dom().contains(instance),
            self.instances@ == before.instances@.insert(instance, self.instances@[instance]),
            self.instances@[instance].object_id == before.instances@[instance].object_id,
            self.instances@[instance].controller == before.instances@[instance].controller,
            self.graphs == before.graphs,
            self.transitions == before.transitions,
            self.controllers == before.controllers,
            self.next_graph == before.next_graph,
            self.next_transition == before.next_transition,
            self.next_instance == before.next_instance,
            self.next_controller == before.next_controller,
        ensures
            self.wf(),
    {
        assert(self.instances@.dom() =~= before.instances@.dom());
        assert forall|a: u64, b: u64|
            #![trigger self.instances@[a], self.instances@[b]]
            self.instances@.dom().contains(a) && self.instances@.dom().contains(b) && a != b
                implies self.instances@[a].object_id != self.instances@[b].object_id by {
            assert(before.instances@[a].object_id != before.instances@[b].object_id);
        }
        assert forall|c: u64| #[trigger]
            self.controllers@.dom().contains(c) implies self.graphs@.dom().contains(
            self.controllers@[c].graph,
        ) && self.instances@.dom().contains(self.controllers@[c].instance)
            && self.instances@[self.controllers@[c].instance].controller == Some(c) by {
            assert(before.instances@.dom().contains(before.controllers@[c].instance));
        }
        assert forall|i: u64| #[trigger]
            self.instances@.dom().contains(i) implies (self.instances@[i].controller matches Some(c)
            ==> self.controllers@.dom().contains(c) && self.controllers@[c].instance == i) by {
            assert(before.instances@.dom().contains(i));
        }
    }


    /// The error code under which a controller of `graph` for `instance`
    /// is refused, if any: the tick must be nonzero, graph and instance
    /// live, the instance free of direct playback and controllers, the
    /// graph's resource a selected animated GLB, and graph, GLB and
    /// instance on one asset.
    pub open spec fn controller_refusal(
        &self,
        resources: Seq<RenderResourceView>,
        graph: u64,
        instance: u64,
        tick_duration_millis: u32,
    ) -> Option<Seq<char>> {
        let graphs = self.graphs_view();
        let instances = self.instances_view();
        if tick_duration_millis == 0 {
            Some("CSHARP_ANIMATION_TICK_DURATION"@)
        } else if !graphs.dom().contains(graph) {
            Some("CSHARP_ANIMATION_GRAPH"@)
        } else if !instances.dom().contains(instance) {
            Some("CSHARP_ANIMATION_INSTANCE"@)
        } else if instances[instance].controller is Some || instances[instance].direct_playback {
            Some("CSHARP_ANIMATION_INSTANCE_MODE"@)
        } else {
            let res = selected_resource(resources, graphs[graph].resource);
            if res is None || res->0.kind != CsharpRenderResourceKind::AnimatedMesh {
                Some("CSHARP_ANIMATION_RESOURCE"@)
            } else if graphs[graph].asset_id@ != instances[instance].asset@ || res->0.asset_identity
                != instances[instance].asset@ {
                Some("CSHARP_ANIMATION_GRAPH_ASSET"@)
            } else {
                None
            }
        }
    }

    /// Checks whether a controller of `graph` may drive `instance`.
    pub fn check_controller(
        &self,
        selection: &ResourceSelection,
        graph: u64,
        instance: u64,
        tick_duration_millis: u32,
    ) -> (r: Result<(), CsharpEngineServicesError>)
        requires
            self.wf(),
        ensures
            r is Ok <==> self.controller_refusal(
                selection.resources_view(),
                graph,
                instance,
                tick_duration_millis,
            ) is None,
            r matches Err(e) ==> Some(e.code_view()) == self.controller_refusal(
                selection.resources_view(),
                graph,
                instance,
                tick_duration_millis,
            ),
    {
        if tick_duration_millis == 0 {
            return Err(
                CsharpEngineServicesError::new(
                    "CSHARP_ANIMATION_TICK_DURATION",
                    String::from_str("animation controller tick duration must be non-zero"),
                ),
            );
        }
        let g = match self.graphs.get(graph) {
            Some(g) => g,
            None => {
                return Err(graph_error());
            },
        };
        let i = match self.instances.get(instance) {
            Some(i) => i,
            None => {
                return Err(instance_error());
            },
        };
        if i.controller.is_some() || i.direct_playback {
            return Err(
                CsharpEngineServicesError::new(
                    "CSHARP_ANIMATION_INSTANCE_MODE",
                    String::from_str("an animation instance cannot mix direct playback with a controller"),
                ),
            );
        }
        let res = match selection.resource(g.resource) {
            Ok(res) => res,
            Err(_) => {
                return Err(resource_error());
            },
        };
        if res.kind() != CsharpRenderResourceKind::AnimatedMesh {
            return Err(resource_error());
        }
        let same_graph_asset = g.asset_id == i.asset;
        let same_mesh_asset = res.asset_identity().to_owned() == i.asset;
        if !same_graph_asset || !same_mesh_asset {
            return Err(
                CsharpEngineServicesError::new(
                    "CSHARP_ANIMATION_GRAPH_ASSET",
                    String::from_str("animation graph and instance must reference the same animated GLB"),
                ),
            );
        }
        Ok(())
    }

    /// Attaches a controller of `graph` to `instance` under the next
    /// controller handle, after the same checks as `check_controller`.
    /// `catalog_verdict` is what the renderer's animation model said once
    /// those checks passed: whether the animation catalog built from the
    /// graph over the GLB's effective clips validated and its controller
    /// service attached the instance's object. A refusal there refuses the
    /// controller with the model's error, before any handle is taken.
    pub fn create_controller(
        &mut self,
        selection: &ResourceSelection,
        graph: u64,
        instance: u64,
        tick_duration_millis: u32,
        catalog_verdict: Result<(), CsharpEngineServicesError>,
    ) -> (r: Result<u64, CsharpEngineServicesError>)
        requires
            old(self).wf(),
        ensures
            final(self).wf(),
            final(self).same_graphs(old(self)),
            r is Err ==> *final(self) == *old(self),
            ({
                let refusal = old(self).controller_refusal(
                    selection.resources_view(),
                    graph,
                    instance,
                    tick_duration_millis,
                );
                if refusal is Some {
                    r matches Err(e) && Some(e.code_view()) == refusal
                } else if catalog_verdict is Err {
                    r matches Err(e) && catalog_verdict matches Err(c) && e == c
                } else if old(self).next_controller_view() == u64::MAX {
                    r matches Err(e) && e.code_view() == "CSHARP_ANIMATION_CONTROLLER"@
                } else {
                    let h = old(self).next_controller_view();
                    let pre = old(self).instances_view()[instance];
                    &&& r == Ok::<u64, CsharpEngineServicesError>(h)
                    &&& final(self).next_controller_view() == h + 1
                    &&& final(self).controllers_view() == old(self).controllers_view().insert(
                        h,
                        AnimationController {
                            graph,
                            instance,
                            tick_duration_millis,
                            projected: false,
                            last_target: None,
                            last_revision: None,
                        },
                    )
                    &&& final(self).instances_view() == old(self).instances_view().insert(
                        instance,
                        AnimationInstance { controller: Some(h), ..pre },
                    )
                    &&& final(self).next_instance_view() == old(self).next_instance_view()
                }
            }),
    {
        if let Err(e) = self.check_controller(selection, graph, instance, tick_duration_millis) {
            return Err(e);
        }
        if let Err(e) = catalog_verdict {
            return Err(e);
        }
        let handle = self.next_controller;
        if handle == u64::MAX {
            return Err(
                CsharpEngineServicesError::new(
                    "CSHARP_ANIMATION_CONTROLLER",
                    String::from_str("animation controller handles exhausted"),
                ),
            );
        }
        let ghost before = *self;
        let mut current = self.take_instance(instance);
        current.controller = Some(handle);
        self.instances.set_value(instance, current);
        self.next_controller = handle + 1;
        self.controllers.insert_new(
            handle,
            AnimationController {
                graph,
                instance,
                tick_duration_millis,
                projected: false,
                last_target: None,
                last_revision: None,
            },
        );
        proof {
            assert(self.instances@ =~= before.instances@.insert(instance, self.instances@[instance]));
            assert(self.instances@.dom() =~= before.instances@.dom());
            assert forall|a: u64, b: u64|
                #![trigger self.instances@[a], self.instances@[b]]
                self.instances@.dom().contains(a) && self.instances@.dom().contains(b) && a != b
                    implies self.instances@[a].object_id != self.instances@[b].object_id by {
                assert(before.instances@[a].object_id != before.instances@[b].object_id);
            }
            assert forall|c: u64| #[trigger]
                self.controllers@.dom().contains(c) implies self.graphs@.dom().contains(
                self.controllers@[c].graph,
            ) && self.instances@.dom().contains(self.controllers@[c].instance)
                && self.instances@[self.controllers@[c].instance].controller == Some(c) by {
                if c != handle {
                    assert(before.controllers@.dom().contains(c));
                    assert(before.instances@[before.controllers@[c].instance].controller == Some(c));
                    if before.controllers@[c].instance == instance {
                        assert(before.instances@[instance].controller is None);
                    }
                }
            }
            assert forall|i: u64| #[trigger]
                self.instances@.dom().contains(i) implies (self.instances@[i].controller matches Some(c)
                ==> self.controllers@.dom().contains(c) && self.controllers@[c].instance == i) by {
                if i != instance {
                    assert(before.instances@.dom().contains(i));
                    if let Some(c) = before.instances@[i].controller {
                        assert(before.controllers@.dom().contains(c));
                    }
                }
            }
        }
        Ok(handle)
    }

    /// Destroys a controller and frees its instance; a controller that is
    /// not live is ignored, and none may be destroyed after a snapshot was
    /// staged in this call. Returns the instance it drove.
    pub fn destroy_controller(&mut self, controller: u64, frame_staged: bool) -> (r: Result<
        Option<u64>,
        CsharpEngineServicesError,
    >)
        requires
            old(self).wf(),
        ensures
            final(self).wf(),
            final(self).same_graphs(old(self)),
            r is Err ==> *final(self) == *old(self),
            r is Err <==> frame_staged,
            r matches Err(e) ==> e.code_view() == "CSHARP_ANIMATION_SNAPSHOT_ORDER"@,
            r matches Ok(None) ==> !old(self).controllers_view().dom().contains(controller)
                && *final(self) == *old(self),
            r matches Ok(Some(instance)) ==> {
                let pre = old(self).instances_view()[instance];
                &&& old(self).controllers_view().dom().contains(controller)
                &&& instance == old(self).controllers_view()[controller].instance
                &&& final(self).controllers_view() == old(self).controllers_view().remove(controller)
                &&& final(self).instances_view() == old(self).instances_view().insert(
                    instance,
                    AnimationInstance { controller: None, ..pre },
                )
                &&& final(self).next_instance_view() == old(self).next_instance_view()
                &&& final(self).next_controller_view() == old(self).next_controller_view()
            },
            !frame_staged ==> (r is Ok && (r matches Ok(Some(_)) <==> old(self).controllers_view().dom().contains(
                controller,
            ))),
    {
        if frame_staged {
            return Err(snapshot_order_error());
        }
        let ghost before = *self;
        let removed = match self.controllers.remove(controller) {
            Some(c) => c,
            None => {
                return Ok(None);
            },
        };
        let instance = removed.instance;
        let mut current = self.take_instance(instance);
        current.controller = None;
        self.instances.set_value(instance, current);
        proof {
            assert(self.instances@ =~= before.instances@.insert(instance, self.instances@[instance]));
            assert(self.instances@.dom() =~= before.instances@.dom());
            assert forall|a: u64, b: u64|
                #![trigger self.instances@[a], self.instances@[b]]
                self.instances@.dom().contains(a) && self.instances@.dom().contains(b) && a != b
                    implies self.instances@[a].object_id != self.instances@[b].object_id by {
                assert(before.instances@[a].object_id != before.instances@[b].object_id);
            }
            assert forall|c: u64| #[trigger]
                self.controllers@.dom().contains(c) implies self.graphs@.dom().contains(
                self.controllers@[c].graph,
            ) && self.instances@.dom().contains(self.controllers@[c].instance)
                && self.instances@[self.controllers@[c].instance].controller == Some(c) by {
                assert(before.controllers@.dom().contains(c));
                assert(before.instances@[before.controllers@[c].instance].controller == Some(c));
            }
            assert forall|i: u64| #[trigger]
                self.instances@.dom().contains(i) implies (self.instances@[i].controller matches Some(c)
                ==> self.controllers@.dom().contains(c) && self.controllers@[c].instance == i) by {
                if i != instance {
                    assert(before.instances@.dom().contains(i));
                    if let Some(c) = before.instances@[i].controller {
                        assert(before.controllers@.dom().contains(c));
                        assert(before.controllers@[c].instance == i);
                    }
                }
            }
        }
        Ok(Some(instance))
    }

    /// The product object whose direct playback an instance holds:
    /// `None` when it holds none, an error when the instance is not live.
    pub fn playback_object(&self, instance: u64) -> (r: Result<Option<u64>, CsharpEngineServicesError>)
        requires
            self.wf(),
        ensures
            r is Err <==> !self.instances_view().dom().contains(instance),
            r matches Err(e) ==> e.code_view() == "CSHARP_ANIMATION_INSTANCE"@,
            r matches Ok(o) ==> o == (if self.instances_view()[instance].direct_playback {
                Some(self.instances_view()[instance].object_id)
            } else {
                None
            }),
    {
        match self.instances.get(instance) {
            None => Err(instance_error()),
            Some(i) => Ok(
                if i.direct_playback {
                    Some(i.object_id)
                } else {
                    None
                },
            ),
        }
    }

    /// Whether a live instance's direct playback must be staged for its
    /// object's render target `target`.
    pub fn playback_due(&self, instance: u64, target: u64) -> (b: bool)
        requires
            self.wf(),
            self.instances_view().dom().contains(instance),
        ensures
            b == playback_frame_due(self.instances_view()[instance], target),
    {
        let i = self.instances.get(instance).unwrap();
        i.pending_playback || i.last_playback_target != Some(target)
    }

    /// Forgets the render target an instance's playback was last staged
    /// for, as its object has none now; an instance that is not live is
    /// ignored.
    pub fn forget_playback_target(&mut self, instance: u64)
        requires
            old(self).wf(),
        ensures
            final(self).wf(),
            final(self).same_graphs(old(self)),
            final(self).controllers_view() == old(self).controllers_view(),
            final(self).next_instance_view() == old(self).next_instance_view(),
            final(self).next_controller_view() == old(self).next_controller_view(),
            final(self).instances_view() == (if old(self).instances_view().dom().contains(instance) {
                old(self).instances_view().insert(
                    instance,
                    AnimationInstance {
                        last_playback_target: None,
                        ..old(self).instances_view()[instance]
                    },
                )
            } else {
                old(self).instances_view()
            }),
    {
        if !self.instances.contains(instance) {
            return;
        }
        let ghost before = *self;
        let mut current = self.take_instance(instance);
        current.last_playback_target = None;
        self.instances.set_value(instance, current);
        proof {
            assert(self.instances@ =~= before.instances@.insert(instance, self.instances@[instance]));
            self.lemma_instance_edit_keeps_wf(before, instance);
        }
    }

    /// Records that a live instance's playback was staged for `target`:
    /// nothing is pending and `target` is remembered.
    pub fn record_playback_frame(&mut self, instance: u64, target: u64)
        requires
            old(self).wf(),
            old(self).instances_view().dom().contains(instance),
        ensures
            final(self).wf(),
            final(self).same_graphs(old(self)),
            final(self).controllers_view() == old(self).controllers_view(),
            final(self).next_instance_view() == old(self).next_instance_view(),
            final(self).next_controller_view() == old(self).next_controller_view(),
            final(self).instances_view() == old(self).instances_view().insert(
                instance,
                AnimationInstance {
                    pending_playback: false,
                    last_playback_target: Some(target),
                    ..old(self).instances_view()[instance]
                },
            ),
    {
        let ghost before = *self;
        let mut current = self.take_instance(instance);
        current.pending_playback = false;
        current.last_playback_target = Some(target);
        self.instances.set_value(instance, current);
        proof {
            assert(self.instances@ =~= before.instances@.insert(instance, self.instances@[instance]));
            self.lemma_instance_edit_keeps_wf(before, instance);
        }
    }

    /// The product object a live controller animates.
    pub fn controller_object(&self, controller: u64) -> (r: Result<u64, CsharpEngineServicesError>)
        requires
            self.wf(),
        ensures
            r is Err <==> !self.controllers_view().dom().contains(controller),
            r matches Err(e) ==> e.code_view() == "CSHARP_ANIMATION_CONTROLLER"@,
            r matches Ok(o) ==> o == self.instances_view()[self.controllers_view()[controller].instance].object_id,
    {
        match self.controllers.get(controller) {
            None => Err(controller_error()),
            Some(c) => {
                proof {
                    assert(self.controllers@.dom().contains(controller));
                }
                Ok(self.instances.get(c.instance).unwrap().object_id)
            },
        }
    }

    /// The flush a live controller needs for render target `target` at
    /// state revision `revision`.
    pub fn controller_flush(&self, controller: u64, target: u64, revision: u64) -> (r: Result<
        ControllerFlush,
        CsharpEngineServicesError,
    >)
        requires
            self.wf(),
        ensures
            r is Err <==> !self.controllers_view().dom().contains(controller),
            r matches Err(e) ==> e.code_view() == "CSHARP_ANIMATION_CONTROLLER"@,
            r matches Ok(f) ==> f == controller_flush_kind(
                self.controllers_view()[controller],
                target,
                revision,
            ),
    {
        match self.controllers.get(controller) {
            None => Err(controller_error()),
            Some(c) => Ok(
                if c.projected && c.last_target == Some(target) && c.last_revision == Some(revision) {
                    ControllerFlush::Unchanged
                } else if c.projected {
                    ControllerFlush::Update
                } else {
                    ControllerFlush::Create
                },
            ),
        }
    }

    /// A live controller's object has no render target now: a controller
    /// that has projected is refused (the snapshot removing its target came
    /// before the controller), any other forgets its target and revision.
    pub fn forget_controller_target(&mut self, controller: u64) -> (r: Result<
        (),
        CsharpEngineServicesError,
    >)
        requires
            old(self).wf(),
        ensures
            final(self).wf(),
            final(self).same_graphs(old(self)),
            final(self).same_instances_only(old(self)),
            r is Err ==> *final(self) == *old(self),
            r is Ok <==> old(self).controllers_view().dom().contains(controller)
                && !old(self).controllers_view()[controller].projected,
            r matches Err(e) ==> e.code_view() == (if !old(self).controllers_view().dom().contains(
                controller,
            ) {
                "CSHARP_ANIMATION_CONTROLLER"@
            } else {
                "CSHARP_ANIMATION_SNAPSHOT_ORDER"@
            }),
            r is Ok ==> final(self).controllers_view() == old(self).controllers_view().insert(
                controller,
                AnimationController {
                    projected: false,
                    last_target: None,
                    last_revision: None,
                    ..old(self).controllers_view()[controller]
                },
            ),
    {
        let c = match self.controllers.get(controller) {
            None => {
                return Err(controller_error());
            },
            Some(c) => *c,
        };
        if c.projected {
            return Err(
                CsharpEngineServicesError::new(
                    "CSHARP_ANIMATION_SNAPSHOT_ORDER",
                    String::from_str(
                        "remove a projected controller before publishing a snapshot that removes or replaces its animated target",
                    ),
                ),
            );
        }
        let next = AnimationController { projected: false, last_target: None, last_revision: None, ..c };
        self.set_controller(controller, next);
        Ok(())
    }

    /// Records that a live controller projected `target` at `revision`.
    pub fn record_controller_projection(&mut self, controller: u64, target: u64, revision: u64)
        requires
            old(self).wf(),
            old(self).controllers_view().dom().contains(controller),
        ensures
            final(self).wf(),
            final(self).same_graphs(old(self)),
            final(self).same_instances_only(old(self)),
            final(self).controllers_view() == old(self).controllers_view().insert(
                controller,
                AnimationController {
                    projected: true,
                    last_target: Some(target),
                    last_revision: Some(revision),
                    ..old(self).controllers_view()[controller]
                },
            ),
    {
        let c = *self.controllers.get(controller).unwrap();
        let next = AnimationController {
            projected: true,
            last_target: Some(target),
            last_revision: Some(revision),
            ..c
        };
        self.set_controller(controller, next);
    }

    fn set_controller(&mut self, controller: u64, next: AnimationController)
        requires
            old(self).wf(),
            old(self).controllers@.dom().contains(controller),
            next.graph == old(self).controllers@[controller].graph,
            next.instance == old(self).controllers@[controller].instance,
        ensures
            final(self).wf(),
            final(self).graphs == old(self).graphs,
            final(self).transitions == old(self).transitions,
            final(self).instances == old(self).instances,
            final(self).next_graph == old(self).next_graph,
            final(self).next_transition == old(self).next_transition,
            final(self).next_instance == old(self).next_instance,
            final(self).next_controller == old(self).next_controller,
            final(self).controllers@ == old(self).controllers@.insert(controller, next),
    {
        let ghost before = *self;
        self.controllers.set_value(controller, next);
        proof {
            assert(self.controllers@.dom() =~= before.controllers@.dom());
            assert forall|c: u64| #[trigger]
                self.controllers@.dom().contains(c) implies self.graphs@.dom().contains(
                self.controllers@[c].graph,
            ) && self.instances@.dom().contains(self.controllers@[c].instance)
                && self.instances@[self.controllers@[c].instance].controller == Some(c) by {
                assert(before.controllers@.dom().contains(c));
            }
            assert forall|i: u64| #[trigger]
                self.instances@.dom().contains(i) implies (self.instances@[i].controller matches Some(c)
                ==> self.controllers@.dom().contains(c) && self.controllers@[c].instance == i) by {
                if let Some(c) = before.instances@[i].controller {
                    assert(before.controllers@.dom().contains(c));
                }
            }
        }
    }

}

impl AnimationRegistry {
    /// Every operation keeps owners linked: each transition names a
    /// position of a live graph, each controller runs a live graph for a
    /// live instance that names it back, each instance names only a live
    /// controller that drives it, and no two instances animate one object.
    pub proof fn lemma_owners_linked(&self)
        requires
            self.wf(),
        ensures
            forall|t: u64| #[trigger]
                self.transitions_view().dom().contains(t) ==> self.graphs_view().dom().contains(
                    self.transitions_view()[t].graph,
                ) && self.transitions_view()[t].index < self.graphs_view()[self.transitions_view()[t].graph].transitions@.len(),
            forall|c: u64| #[trigger]
                self.controllers_view().dom().contains(c) ==> self.graphs_view().dom().contains(
                    self.controllers_view()[c].graph,
                ) && self.instances_view().dom().contains(self.controllers_view()[c].instance)
                    && self.instances_view()[self.controllers_view()[c].instance].controller == Some(c),
            forall|i: u64| #[trigger]
                self.instances_view().dom().contains(i) ==> (self.instances_view()[i].controller matches Some(
                    c,
                ) ==> self.controllers_view().dom().contains(c) && self.controllers_view()[c].instance
                    == i),
            forall|a: u64, b: u64|
                #![trigger self.instances_view()[a], self.instances_view()[b]]
                self.instances_view().dom().contains(a) && self.instances_view().dom().contains(b) && a
                    != b ==> self.instances_view()[a].object_id != self.instances_view()[b].object_id,
    {
    }

    /// A graph that some controller runs is never destroyed, and an
    /// instance that a controller drives is never destroyed: controllers
    /// always go first.
    pub proof fn lemma_controllers_pin_their_owners(&self, c: u64)
        requires
            self.wf(),
            self.controllers_view().dom().contains(c),
        ensures
            graph_in_use(self.controllers_view(), self.controllers_view()[c].graph),
            self.instances_view()[self.controllers_view()[c].instance].controller is Some,
    {
    }

    /// Once a controller recorded projecting `target` at `revision`,
    /// flushing it again at the same target and revision stages nothing,
    /// and at any other target or revision updates its projection.
    pub proof fn lemma_projected_flush_is_idempotent(
        before: AnimationRegistry,
        after: AnimationRegistry,
        c: u64,
        target: u64,
        revision: u64,
    )
        requires
            before.wf(),
            before.controllers_view().dom().contains(c),
            after.controllers_view() == before.controllers_view().insert(
                c,
                AnimationController {
                    projected: true,
                    last_target: Some(target),
                    last_revision: Some(revision),
                    ..before.controllers_view()[c]
                },
            ),
        ensures
            controller_flush_kind(after.controllers_view()[c], target, revision)
                == ControllerFlush::Unchanged,
            forall|t: u64, v: u64|
                t != target || v != revision ==> #[trigger] controller_flush_kind(
                    after.controllers_view()[c],
                    t,
                    v,
                ) == ControllerFlush::Update,
    {
    }

    /// A controller that forgot its target creates a fresh projection at
    /// the next flush, whatever the target and revision.
    pub proof fn lemma_forgotten_target_recreates(
        before: AnimationRegistry,
        after: AnimationRegistry,
        c: u64,
    )
        requires
            before.wf(),
            before.controllers_view().dom().contains(c),
            after.controllers_view() == before.controllers_view().insert(
                c,
                AnimationController {
                    projected: false,
                    last_target: None,
                    last_revision: None,
                    ..before.controllers_view()[c]
                },
            ),
        ensures
            forall|t: u64, v: u64|
                #[trigger] controller_flush_kind(after.controllers_view()[c], t, v)
                    == ControllerFlush::Create,
    {
    }

    /// A direct playback frame staged for `target` is not staged again for
    /// that target, but is for any other target; a pending command (one
    /// recorded since the last staged frame) is staged for every target.
    pub proof fn lemma_playback_staged_once(
        before: AnimationRegistry,
        after: AnimationRegistry,
        instance: u64,
        target: u64,
    )
        requires
            before.wf(),
            before.instances_view().dom().contains(instance),
            after.instances_view() == before.instances_view().insert(
                instance,
                AnimationInstance {
                    pending_playback: false,
                    last_playback_target: Some(target),
                    ..before.instances_view()[instance]
                },
            ),
        ensures
            !playback_frame_due(after.instances_view()[instance], target),
            forall|t: u64|
                t != target ==> #[trigger] playback_frame_due(after.instances_view()[instance], t),
            forall|inst: AnimationInstance, t: u64|
                inst.pending_playback ==> #[trigger] playback_frame_due(inst, t),
    {
    }
}

} // verus!
