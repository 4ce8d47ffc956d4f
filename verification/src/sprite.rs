//! The discrete part of atlas sprite playback: its frame sequence and
//! markers, its control state machine, the admission of product update
//! facts, and what happens when playback crosses a frame boundary.
//!
//! Time itself (frame durations, playback rate and the time spent in the
//! current frame) is floating point and is kept by the caller, which asks
//! this cursor to cross a boundary whenever its clock reaches one.

use crate::error::CsharpEngineServicesError;
use vstd::prelude::*;
use vstd::string::StringExecFns;

verus! {

/// At most this many sequence entries per playback.
pub const MAX_SPRITE_PLAYBACK_FRAMES: usize = 4096;

/// At most this many markers per playback.
pub const MAX_SPRITE_PLAYBACK_MARKERS: usize = 4096;

/// At most this many frame boundaries crossed by one admitted update.
pub const MAX_SPRITE_PLAYBACK_TRANSITIONS_PER_ADVANCE: usize = 16384;

/// The playback state.
#[derive(Debug, Clone, Copy, PartialEq, Eq, Structural)]
pub enum SpritePlaybackState {
    Stopped,
    Playing,
    Paused,
    Completed,
}

/// A product control of a playback.
#[derive(Debug, Clone, Copy, PartialEq, Eq, Structural)]
pub enum SpritePlaybackControl {
    Start,
    Pause,
    Resume,
    Stop,
    Restart,
}

/// What playback does at the end of its sequence.
#[derive(Debug, Clone, Copy, PartialEq, Eq, Structural)]
pub enum SpritePlaybackLoopMode {
    OneShot,
    Loop,
}

/// A marker raised whenever playback enters the sequence entry at
/// `frame_index`.
#[derive(Debug, Clone, Copy, PartialEq, Eq, Structural)]
pub struct SpritePlaybackMarker {
    pub marker_id: u32,
    pub frame_index: u32,
}

/// One crossing of a marker.
#[derive(Debug, Clone, Copy, PartialEq, Eq, Structural)]
pub struct SpritePlaybackMarkerCrossing {
    pub marker_id: u32,
    pub frame_id: u32,
    pub frame_index: u32,
    pub cycle: u64,
    pub crossing_sequence: u64,
}

/// The identity of an admitted product update, ordered lexicographically
/// by its fields in declaration order.
#[derive(Debug, Clone, Copy, PartialEq, Eq, Structural)]
pub struct SpritePlaybackUpdateIdentity {
    pub generation: u64,
    pub control_revision: u64,
    pub simulation_step: u64,
    pub admitted_step_count: u32,
}

/// The discrete readout of a playback.
#[derive(Debug, Clone, Copy, PartialEq, Eq, Structural)]
pub struct SpritePlaybackReadout {
    pub frame_id: u32,
    pub frame_index: u32,
    pub state: SpritePlaybackState,
    pub cycle: u64,
    pub revision: u64,
    pub completed: bool,
}

/// `a` comes strictly before `b` in update order.
pub open spec fn update_precedes(a: SpritePlaybackUpdateIdentity, b: SpritePlaybackUpdateIdentity) -> bool {
    ||| a.generation < b.generation
    ||| a.generation == b.generation && a.control_revision < b.control_revision
    ||| a.generation == b.generation && a.control_revision == b.control_revision
        && a.simulation_step < b.simulation_step
    ||| a.generation == b.generation && a.control_revision == b.control_revision
        && a.simulation_step == b.simulation_step && a.admitted_step_count
        < b.admitted_step_count
}

/// Marker identities are nonzero and pairwise distinct, and every marker
/// names an entry of a sequence of `frame_count` entries.
pub open spec fn markers_valid(markers: Seq<SpritePlaybackMarker>, frame_count: int) -> bool {
    &&& forall|i: int| 0 <= i < markers.len() ==> #[trigger] markers[i].marker_id != 0
    &&& forall|i: int, j: int|
        0 <= i < j < markers.len() ==> #[trigger] markers[i].marker_id != #[trigger] markers[j].marker_id
    &&& forall|i: int| 0 <= i < markers.len() ==> (#[trigger] markers[i].frame_index) < frame_count
}

/// The crossings raised on entering entry `index` (whose frame is
/// `frame_id`) in cycle `cycle`, numbered from `start` in marker order.
pub open spec fn crossings_at(
    markers: Seq<SpritePlaybackMarker>,
    index: int,
    frame_id: u32,
    cycle: u64,
    start: int,
) -> Seq<SpritePlaybackMarkerCrossing>
    decreases markers.len(),
{
    if markers.len() == 0 {
        Seq::empty()
    } else {
        let init = crossings_at(markers.drop_last(), index, frame_id, cycle, start);
        let m = markers.last();
        if m.frame_index == index {
            init.push(
                SpritePlaybackMarkerCrossing {
                    marker_id: m.marker_id,
                    frame_id,
                    frame_index: m.frame_index,
                    cycle,
                    crossing_sequence: (start + init.len()) as u64,
                },
            )
        } else {
            init
        }
    }
}

/// The abstract value of a playback.
pub struct SpritePlaybackView {
    pub frame_ids: Seq<u32>,
    pub markers: Seq<SpritePlaybackMarker>,
    pub loop_mode: SpritePlaybackLoopMode,
    pub state: SpritePlaybackState,
    pub frame_index: int,
    pub cycle: u64,
    pub revision: u64,
    pub next_crossing_sequence: u64,
    pub last_update: Option<SpritePlaybackUpdateIdentity>,
}

/// The state a control moves a playback to, if the control is valid in
/// the current state; stopping and restarting rewind to the first entry
/// of the first cycle.
pub open spec fn controlled(v: SpritePlaybackView, control: SpritePlaybackControl) -> Option<
    SpritePlaybackView,
> {
    match control {
        SpritePlaybackControl::Start => if v.state == SpritePlaybackState::Stopped {
            Some(SpritePlaybackView { state: SpritePlaybackState::Playing, ..v })
        } else {
            None
        },
        SpritePlaybackControl::Pause => if v.state == SpritePlaybackState::Playing {
            Some(SpritePlaybackView { state: SpritePlaybackState::Paused, ..v })
        } else {
            None
        },
        SpritePlaybackControl::Resume => if v.state == SpritePlaybackState::Paused {
            Some(SpritePlaybackView { state: SpritePlaybackState::Playing, ..v })
        } else {
            None
        },
        SpritePlaybackControl::Stop => if v.state != SpritePlaybackState::Stopped {
            Some(
                SpritePlaybackView {
                    state: SpritePlaybackState::Stopped,
                    frame_index: 0,
                    cycle: 0,
                    ..v
                },
            )
        } else {
            None
        },
        SpritePlaybackControl::Restart => Some(
            SpritePlaybackView { state: SpritePlaybackState::Playing, frame_index: 0, cycle: 0, ..v },
        ),
    }
}

/// The readout of a playback state.
pub open spec fn readout_of(v: SpritePlaybackView) -> SpritePlaybackReadout {
    SpritePlaybackReadout {
        frame_id: v.frame_ids[v.frame_index],
        frame_index: v.frame_index as u32,
        state: v.state,
        cycle: v.cycle,
        revision: v.revision,
        completed: v.state == SpritePlaybackState::Completed,
    }
}

/// A playback: its frame sequence, markers and loop mode, and its
/// discrete position.
#[derive(Clone, Debug)]
pub struct SpritePlayback {
    frame_ids: Vec<u32>,
    markers: Vec<SpritePlaybackMarker>,
    loop_mode: SpritePlaybackLoopMode,
    state: SpritePlaybackState,
    frame_index: usize,
    cycle: u64,
    revision: u64,
    next_crossing_sequence: u64,
    last_update: Option<SpritePlaybackUpdateIdentity>,
}

impl View for SpritePlayback {
    type V = SpritePlaybackView;

    closed spec fn view(&self) -> SpritePlaybackView {
        SpritePlaybackView {
            frame_ids: self.frame_ids@,
            markers: self.markers@,
            loop_mode: self.loop_mode,
            state: self.state,
            frame_index: self.frame_index as int,
            cycle: self.cycle,
            revision: self.revision,
            next_crossing_sequence: self.next_crossing_sequence,
            last_update: self.last_update,
        }
    }
}

/// The sequence holds between one and 4096 entries and at most 4096
/// valid markers, the position names an entry, and crossing numbers
/// start at one.
pub open spec fn playback_wf(v: SpritePlaybackView) -> bool {
    &&& 1 <= v.frame_ids.len() <= MAX_SPRITE_PLAYBACK_FRAMES
    &&& v.markers.len() <= MAX_SPRITE_PLAYBACK_MARKERS
    &&& markers_valid(v.markers, v.frame_ids.len() as int)
    &&& 0 <= v.frame_index < v.frame_ids.len()
    &&& v.next_crossing_sequence >= 1
}

/// Checks the sizes of a requested sequence, and whether its playback
/// rate (judged by the caller) is finite and positive.
pub fn check_sequence_bounds(frame_count: usize, marker_count: usize, rate_admitted: bool) -> (r:
    Result<(), CsharpEngineServicesError>)
    ensures
        r is Ok <==> 1 <= frame_count <= MAX_SPRITE_PLAYBACK_FRAMES && marker_count
            <= MAX_SPRITE_PLAYBACK_MARKERS && rate_admitted,
        r matches Err(e) ==> e.code_view() == (if !(1 <= frame_count
            <= MAX_SPRITE_PLAYBACK_FRAMES) {
            "CSHARP_SPRITE_PLAYBACK_FRAMES"@
        } else if marker_count > MAX_SPRITE_PLAYBACK_MARKERS {
            "CSHARP_SPRITE_PLAYBACK_MARKERS"@
        } else {
            "CSHARP_SPRITE_PLAYBACK_RATE"@
        }),
{
    if frame_count == 0 || frame_count > MAX_SPRITE_PLAYBACK_FRAMES {
        return Err(
            CsharpEngineServicesError::new(
                "CSHARP_SPRITE_PLAYBACK_FRAMES",
                String::from_str("sprite playback must contain between one and 4096 sequence entries"),
            ),
        );
    }
    if marker_count > MAX_SPRITE_PLAYBACK_MARKERS {
        return Err(
            CsharpEngineServicesError::new(
                "CSHARP_SPRITE_PLAYBACK_MARKERS",
                String::from_str("sprite playback cannot contain more than 4096 markers"),
            ),
        );
    }
    if !rate_admitted {
        return Err(
            CsharpEngineServicesError::new(
                "CSHARP_SPRITE_PLAYBACK_RATE",
                String::from_str("sprite playback rate must be finite and positive"),
            ),
        );
    }
    Ok(())
}

/// Whether a sequence entry cannot be played: its duration (judged by the
/// caller) is not finite and positive, or the atlas lacks its frame.
pub open spec fn frame_fault(
    frame_ids: Seq<u32>,
    durations_admitted: Seq<bool>,
    atlas_frames: Seq<u32>,
    i: int,
) -> bool {
    !durations_admitted[i] || !atlas_frames.contains(frame_ids[i])
}

/// The first entry of the sequence that cannot be played.
pub open spec fn first_frame_fault(
    frame_ids: Seq<u32>,
    durations_admitted: Seq<bool>,
    atlas_frames: Seq<u32>,
) -> int {
    choose|i: int|
        0 <= i < frame_ids.len() && frame_fault(frame_ids, durations_admitted, atlas_frames, i)
            && forall|j: int|
            0 <= j < i ==> !frame_fault(frame_ids, durations_admitted, atlas_frames, j)
}

fn contains_frame(frames: &Vec<u32>, frame_id: u32) -> (b: bool)
    ensures
        b == frames@.contains(frame_id),
{
    let n = frames.len();
    let mut i: usize = 0;
    while i < n
        invariant
            n == frames@.len(),
            i <= n,
            forall|j: int| 0 <= j < i ==> frames@[j] != frame_id,
        decreases n - i,
    {
        if frames[i] == frame_id {
            return true;
        }
        i = i + 1;
    }
    false
}

/// Finds the first entry of the sequence that cannot be played, if any.
fn find_frame_fault(frame_ids: &Vec<u32>, durations_admitted: &Vec<bool>, atlas_frames: &Vec<u32>) -> (r:
    Option<usize>)
    requires
        durations_admitted@.len() == frame_ids@.len(),
    ensures
        r is None <==> forall|i: int|
            0 <= i < frame_ids@.len() ==> !frame_fault(
                frame_ids@,
                durations_admitted@,
                atlas_frames@,
                i,
            ),
        r matches Some(i) ==> i == first_frame_fault(frame_ids@, durations_admitted@, atlas_frames@)
            && i < frame_ids@.len() && frame_fault(frame_ids@, durations_admitted@, atlas_frames@, i as int),
{
    let n = frame_ids.len();
    let mut i: usize = 0;
    while i < n
        invariant
            n == frame_ids@.len(),
            durations_admitted@.len() == n,
            i <= n,
            forall|j: int|
                0 <= j < i ==> !frame_fault(frame_ids@, durations_admitted@, atlas_frames@, j),
        decreases n - i,
    {
        if !durations_admitted[i] || !contains_frame(atlas_frames, frame_ids[i]) {
            proof {
                let c = first_frame_fault(frame_ids@, durations_admitted@, atlas_frames@);
                assert(frame_fault(frame_ids@, durations_admitted@, atlas_frames@, i as int));
                if c != i {
                    if c < i {
                        assert(!frame_fault(frame_ids@, durations_admitted@, atlas_frames@, c));
                    }
                }
            }
            return Some(i);
        }
        i = i + 1;
    }
    None
}

/// Whether some marker breaks validity.
fn markers_fault(markers: &Vec<SpritePlaybackMarker>, frame_count: usize) -> (b: bool)
    ensures
        b == !markers_valid(markers@, frame_count as int),
{
    let m = markers.len();
    let mut i: usize = 0;
    while i < m
        invariant
            m == markers@.len(),
            i <= m,
            markers_valid(markers@.subrange(0, i as int), frame_count as int),
        decreases m - i,
    {
        let marker = markers[i];
        if marker.marker_id == 0 || (marker.frame_index as usize) >= frame_count {
            return true;
        }
        let mut j: usize = 0;
        while j < i
            invariant
                m == markers@.len(),
                i < m,
                j <= i,
                marker == markers@[i as int],
                forall|k: int| 0 <= k < j ==> markers@[k].marker_id != marker.marker_id,
            decreases i - j,
        {
            if markers[j].marker_id == marker.marker_id {
                assert(markers@[j as int].marker_id == markers@[i as int].marker_id);
                return true;
            }
            j = j + 1;
        }
        proof {
            let next = markers@.subrange(0, i + 1);
            let prev = markers@.subrange(0, i as int);
            assert forall|a: int, b: int|
                0 <= a < b < next.len() implies #[trigger] next[a].marker_id != #[trigger] next[b].marker_id by {
                if b < i {
                    assert(next[a] == prev[a] && next[b] == prev[b]);
                } else {
                    assert(next[a] == markers@[a]);
                }
            }
            assert forall|a: int| 0 <= a < next.len() implies #[trigger] next[a].marker_id != 0 by {
                if a < i {
                    assert(next[a] == prev[a]);
                }
            }
            assert forall|a: int| 0 <= a < next.len() implies (#[trigger] next[a].frame_index) < frame_count by {
                if a < i {
                    assert(next[a] == prev[a]);
                }
            }
        }
        i = i + 1;
    }
    assert(markers@.subrange(0, m as int) =~= markers@);
    false
}

proof fn lemma_crossings_prefix(
    markers: Seq<SpritePlaybackMarker>,
    index: int,
    frame_id: u32,
    cycle: u64,
    start: int,
    i: int,
)
    requires
        0 <= i <= markers.len(),
    ensures
        crossings_at(markers.subrange(0, i), index, frame_id, cycle, start).len() <= crossings_at(
            markers,
            index,
            frame_id,
            cycle,
            start,
        ).len(),
    decreases markers.len(),
{
    if i < markers.len() {
        lemma_crossings_prefix(markers.drop_last(), index, frame_id, cycle, start, i);
        assert(markers.drop_last().subrange(0, i) =~= markers.subrange(0, i));
    } else {
        assert(markers.subrange(0, i) =~= markers);
    }
}

fn transition_error() -> (e: CsharpEngineServicesError)
    ensures
        e.code_view() == "CSHARP_SPRITE_PLAYBACK_TRANSITION"@,
{
    CsharpEngineServicesError::new(
        "CSHARP_SPRITE_PLAYBACK_TRANSITION",
        String::from_str("sprite playback control is invalid for the current state"),
    )
}

/// Whether `a` comes strictly before `b` in update order.
pub fn precedes(a: SpritePlaybackUpdateIdentity, b: SpritePlaybackUpdateIdentity) -> (r: bool)
    ensures
        r == update_precedes(a, b),
{
    if a.generation != b.generation {
        a.generation < b.generation
    } else if a.control_revision != b.control_revision {
        a.control_revision < b.control_revision
    } else if a.simulation_step != b.simulation_step {
        a.simulation_step < b.simulation_step
    } else {
        a.admitted_step_count < b.admitted_step_count
    }
}

impl SpritePlayback {
    /// The playback is well formed.
    pub open spec fn wf(&self) -> bool {
        playback_wf(self@)
    }

    /// A stopped playback at the first entry of a validated sequence. The
    /// caller judges each entry's floating-point duration; the atlas holds
    /// the frame identities the sequence may name.
    pub fn create(
        frame_ids: Vec<u32>,
        durations_admitted: Vec<bool>,
        markers: Vec<SpritePlaybackMarker>,
        loop_mode: SpritePlaybackLoopMode,
        atlas_frames: &Vec<u32>,
    ) -> (r: Result<Self, CsharpEngineServicesError>)
        requires
            durations_admitted@.len() == frame_ids@.len(),
        ensures
            r is Ok <==> 1 <= frame_ids@.len() <= MAX_SPRITE_PLAYBACK_FRAMES && markers@.len()
                <= MAX_SPRITE_PLAYBACK_MARKERS && (forall|i: int|
                0 <= i < frame_ids@.len() ==> !frame_fault(
                    frame_ids@,
                    durations_admitted@,
                    atlas_frames@,
                    i,
                )) && markers_valid(markers@, frame_ids@.len() as int),
            r matches Err(e) ==> e.code_view() == (if !(1 <= frame_ids@.len()
                <= MAX_SPRITE_PLAYBACK_FRAMES) {
                "CSHARP_SPRITE_PLAYBACK_FRAMES"@
            } else if markers@.len() > MAX_SPRITE_PLAYBACK_MARKERS {
                "CSHARP_SPRITE_PLAYBACK_MARKERS"@
            } else if exists|i: int|
                0 <= i < frame_ids@.len() && frame_fault(
                    frame_ids@,
                    durations_admitted@,
                    atlas_frames@,
                    i,
                ) {
                if !durations_admitted@[first_frame_fault(
                    frame_ids@,
                    durations_admitted@,
                    atlas_frames@,
                )] {
                    "CSHARP_SPRITE_PLAYBACK_DURATION"@
                } else {
                    "CSHARP_SPRITE_PLAYBACK_FRAME"@
                }
            } else {
                "CSHARP_SPRITE_PLAYBACK_MARKER"@
            }),
            r matches Ok(p) ==> p.wf() && p@ == (SpritePlaybackView {
                frame_ids: frame_ids@,
                markers: markers@,
                loop_mode,
                state: SpritePlaybackState::Stopped,
                frame_index: 0,
                cycle: 0,
                revision: 0,
                next_crossing_sequence: 1,
                last_update: None,
            }),
    {
        if let Err(e) = check_sequence_bounds(frame_ids.len(), markers.len(), true) {
            return Err(e);
        }
        match find_frame_fault(&frame_ids, &durations_admitted, atlas_frames) {
            Some(i) => {
                if !durations_admitted[i] {
                    return Err(
                        CsharpEngineServicesError::new(
                            "CSHARP_SPRITE_PLAYBACK_DURATION",
                            String::from_str(
                                "sprite playback frame duration must be finite and positive",
                            ),
                        ),
                    );
                }
                return Err(
                    CsharpEngineServicesError::new(
                        "CSHARP_SPRITE_PLAYBACK_FRAME",
                        String::from_str(
                            "sprite playback references a frame absent from the admitted atlas",
                        ),
                    ),
                );
            },
            None => {},
        }
        if markers_fault(&markers, frame_ids.len()) {
            return Err(
                CsharpEngineServicesError::new(
                    "CSHARP_SPRITE_PLAYBACK_MARKER",
                    String::from_str(
                        "sprite playback marker IDs must be nonzero and unique, and name an entry of the sequence",
                    ),
                ),
            );
        }
        Ok(
            SpritePlayback {
                frame_ids,
                markers,
                loop_mode,
                state: SpritePlaybackState::Stopped,
                frame_index: 0,
                cycle: 0,
                revision: 0,
                next_crossing_sequence: 1,
                last_update: None,
            },
        )
    }

    /// The discrete readout of the playback.
    pub fn readout(&self) -> (r: SpritePlaybackReadout)
        requires
            self.wf(),
        ensures
            r == readout_of(self@),
    {
        SpritePlaybackReadout {
            frame_id: self.frame_ids[self.frame_index],
            frame_index: self.frame_index as u32,
            state: self.state,
            cycle: self.cycle,
            revision: self.revision,
            completed: self.state == SpritePlaybackState::Completed,
        }
    }

    /// Applies a product control. Start plays a stopped playback, Pause
    /// and Resume toggle a playing one, Stop rewinds any other, Restart
    /// rewinds and plays; any other control is refused. Every accepted
    /// control advances the revision.
    pub fn control(&mut self, control: SpritePlaybackControl) -> (r: Result<
        SpritePlaybackReadout,
        CsharpEngineServicesError,
    >)
        requires
            old(self).wf(),
        ensures
            final(self).wf(),
            r is Err ==> *final(self) == *old(self),
            r is Ok <==> controlled(old(self)@, control) is Some && old(self)@.revision < u64::MAX,
            r matches Err(e) ==> e.code_view() == (if controlled(old(self)@, control) is None {
                "CSHARP_SPRITE_PLAYBACK_TRANSITION"@
            } else {
                "CSHARP_SPRITE_PLAYBACK_REVISION"@
            }),
            r matches Ok(out) ==> final(self)@ == (SpritePlaybackView {
                revision: (old(self)@.revision + 1) as u64,
                ..controlled(old(self)@, control)->0
            }) && out == readout_of(final(self)@),
    {
        let (state, rewind) = match control {
            SpritePlaybackControl::Start => {
                if self.state != SpritePlaybackState::Stopped {
                    return Err(transition_error());
                }
                (SpritePlaybackState::Playing, false)
            },
            SpritePlaybackControl::Pause => {
                if self.state != SpritePlaybackState::Playing {
                    return Err(transition_error());
                }
                (SpritePlaybackState::Paused, false)
            },
            SpritePlaybackControl::Resume => {
                if self.state != SpritePlaybackState::Paused {
                    return Err(transition_error());
                }
                (SpritePlaybackState::Playing, false)
            },
            SpritePlaybackControl::Stop => {
                if self.state == SpritePlaybackState::Stopped {
                    return Err(transition_error());
                }
                (SpritePlaybackState::Stopped, true)
            },
            SpritePlaybackControl::Restart => (SpritePlaybackState::Playing, true),
        };
        if self.revision == u64::MAX {
            return Err(
                CsharpEngineServicesError::new(
                    "CSHARP_SPRITE_PLAYBACK_REVISION",
                    String::from_str("sprite playback revision overflow"),
                ),
            );
        }
        self.state = state;
        if rewind {
            self.frame_index = 0;
            self.cycle = 0;
        }
        self.revision = self.revision + 1;
        Ok(self.readout())
    }

    /// What admitting the facts of a product update does: a callback that
    /// is not a running update, or whose admitted steps are not positive
    /// finite realtime steps (judged by the caller), is refused; an update
    /// preceding the last admitted one is stale; the last admitted update
    /// again is a duplicate that changes nothing; a later one is recorded
    /// and may advance the playback.
    pub open spec fn update_admission(
        pre: SpritePlaybackView,
        post: SpritePlaybackView,
        running: bool,
        realtime: bool,
        delta_admitted: bool,
        identity: SpritePlaybackUpdateIdentity,
        r: Result<bool, CsharpEngineServicesError>,
    ) -> bool {
        if !running || (identity.admitted_step_count > 0 && (!realtime || !delta_admitted)) {
            r matches Err(e) && e.code_view() == "CSHARP_SPRITE_PLAYBACK_UPDATE"@ && post == pre
        } else if pre.last_update matches Some(last) && update_precedes(identity, last) {
            r matches Err(e) && e.code_view() == "CSHARP_SPRITE_PLAYBACK_STALE_UPDATE"@ && post
                == pre
        } else if pre.last_update == Some(identity) {
            r == Ok::<bool, CsharpEngineServicesError>(false) && post == pre
        } else {
            r == Ok::<bool, CsharpEngineServicesError>(true) && post == (SpritePlaybackView {
                last_update: Some(identity),
                ..pre
            })
        }
    }

    /// Admits the facts of a product update; `Ok(true)` when the update is
    /// new and the playback may advance by its steps.
    pub fn admit_update(
        &mut self,
        running: bool,
        realtime: bool,
        delta_admitted: bool,
        identity: SpritePlaybackUpdateIdentity,
    ) -> (r: Result<bool, CsharpEngineServicesError>)
        requires
            old(self).wf(),
        ensures
            final(self).wf(),
            Self::update_admission(
                old(self)@,
                final(self)@,
                running,
                realtime,
                delta_admitted,
                identity,
                r,
            ),
    {
        if !running {
            return Err(
                CsharpEngineServicesError::new(
                    "CSHARP_SPRITE_PLAYBACK_UPDATE",
                    String::from_str("sprite playback can advance only during a running product update"),
                ),
            );
        }
        if identity.admitted_step_count > 0 && (!realtime || !delta_admitted) {
            return Err(
                CsharpEngineServicesError::new(
                    "CSHARP_SPRITE_PLAYBACK_UPDATE",
                    String::from_str(
                        "sprite playback requires positive finite Rust-admitted realtime steps",
                    ),
                ),
            );
        }
        match self.last_update {
            Some(last) => {
                if precedes(identity, last) {
                    return Err(
                        CsharpEngineServicesError::new(
                            "CSHARP_SPRITE_PLAYBACK_STALE_UPDATE",
                            String::from_str(
                                "sprite playback update facts precede the last admitted update",
                            ),
                        ),
                    );
                }
                if last == identity {
                    return Ok(false);
                }
            },
            None => {},
        }
        self.last_update = Some(identity);
        Ok(true)
    }

    /// Advances the revision after an update moved the playback.
    pub fn bump_revision(&mut self) -> (r: Result<(), CsharpEngineServicesError>)
        requires
            old(self).wf(),
        ensures
            final(self).wf(),
            r is Ok <==> old(self)@.revision < u64::MAX,
            r is Err ==> *final(self) == *old(self),
            r matches Err(e) ==> e.code_view() == "CSHARP_SPRITE_PLAYBACK_REVISION"@,
            r is Ok ==> final(self)@ == (SpritePlaybackView {
                revision: (old(self)@.revision + 1) as u64,
                ..old(self)@
            }),
    {
        if self.revision == u64::MAX {
            return Err(
                CsharpEngineServicesError::new(
                    "CSHARP_SPRITE_PLAYBACK_REVISION",
                    String::from_str("sprite playback revision overflow"),
                ),
            );
        }
        self.revision = self.revision + 1;
        Ok(())
    }


    /// What crossing the end of the current entry does: past the allowed
    /// number of crossings per update the advance is refused; at the end
    /// of a one-shot sequence the playback completes; at the end of a
    /// looping sequence it starts the next cycle at the first entry;
    /// otherwise it enters the next entry. Entering an entry raises its
    /// markers, in marker order, under consecutive crossing numbers.
    pub open spec fn boundary_crossing(
        pre: SpritePlaybackView,
        post: SpritePlaybackView,
        transitions: int,
        raised: Seq<SpritePlaybackMarkerCrossing>,
        r: Result<usize, CsharpEngineServicesError>,
    ) -> bool {
        let last = pre.frame_index + 1 == pre.frame_ids.len();
        let index = if last {
            0
        } else {
            pre.frame_index + 1
        };
        let cycle = if last {
            (pre.cycle + 1) as u64
        } else {
            pre.cycle
        };
        let fresh = crossings_at(
            pre.markers,
            index,
            pre.frame_ids[index],
            cycle,
            pre.next_crossing_sequence as int,
        );
        if transitions + 1 > MAX_SPRITE_PLAYBACK_TRANSITIONS_PER_ADVANCE {
            r matches Err(e) && e.code_view() == "CSHARP_SPRITE_PLAYBACK_ADVANCE"@
        } else if last && pre.loop_mode == SpritePlaybackLoopMode::OneShot {
            &&& r == Ok::<usize, CsharpEngineServicesError>((transitions + 1) as usize)
            &&& post == SpritePlaybackView { state: SpritePlaybackState::Completed, ..pre }
            &&& raised.len() == 0
        } else if last && pre.cycle == u64::MAX {
            r matches Err(e) && e.code_view() == "CSHARP_SPRITE_PLAYBACK_CYCLE"@
        } else if pre.next_crossing_sequence + fresh.len() > u64::MAX {
            r matches Err(e) && e.code_view() == "CSHARP_SPRITE_PLAYBACK_MARKER"@
        } else {
            &&& r == Ok::<usize, CsharpEngineServicesError>((transitions + 1) as usize)
            &&& post == SpritePlaybackView {
                frame_index: index,
                cycle,
                next_crossing_sequence: (pre.next_crossing_sequence + fresh.len()) as u64,
                ..pre
            }
            &&& raised == fresh
        }
    }

    /// Crosses the end of the current entry of a playing playback, the
    /// `transitions`-th crossing of this update so far, appending the
    /// markers raised to `crossings`; returns the new crossing count.
    pub fn cross_boundary(
        &mut self,
        transitions: usize,
        crossings: &mut Vec<SpritePlaybackMarkerCrossing>,
    ) -> (r: Result<usize, CsharpEngineServicesError>)
        requires
            old(self).wf(),
            old(self)@.state == SpritePlaybackState::Playing,
            transitions <= MAX_SPRITE_PLAYBACK_TRANSITIONS_PER_ADVANCE,
        ensures
            final(self).wf(),
            r is Err ==> *final(self) == *old(self) && final(crossings)@ == old(crossings)@,
            final(crossings)@.len() >= old(crossings)@.len(),
            final(crossings)@.subrange(0, old(crossings)@.len() as int) == old(crossings)@,
            Self::boundary_crossing(
                old(self)@,
                final(self)@,
                transitions as int,
                final(crossings)@.subrange(
                    old(crossings)@.len() as int,
                    final(crossings)@.len() as int,
                ),
                r,
            ),
    {
        let ghost before = crossings@;
        let t = transitions + 1;
        if t > MAX_SPRITE_PLAYBACK_TRANSITIONS_PER_ADVANCE {
            assert(crossings@.subrange(0, before.len() as int) =~= before);
            return Err(
                CsharpEngineServicesError::new(
                    "CSHARP_SPRITE_PLAYBACK_ADVANCE",
                    String::from_str("one admitted update crossed too many sprite playback frames"),
                ),
            );
        }
        let n = self.frame_ids.len();
        let last = self.frame_index + 1 == n;
        if last && self.loop_mode == SpritePlaybackLoopMode::OneShot {
            self.state = SpritePlaybackState::Completed;
            assert(crossings@.subrange(0, before.len() as int) =~= before);
            assert(crossings@.subrange(before.len() as int, crossings@.len() as int) =~= Seq::<
                SpritePlaybackMarkerCrossing,
            >::empty());
            return Ok(t);
        }
        if last && self.cycle == u64::MAX {
            assert(crossings@.subrange(0, before.len() as int) =~= before);
            return Err(
                CsharpEngineServicesError::new(
                    "CSHARP_SPRITE_PLAYBACK_CYCLE",
                    String::from_str("sprite playback cycle overflow"),
                ),
            );
        }
        let index: usize = if last {
            0
        } else {
            self.frame_index + 1
        };
        let cycle: u64 = if last {
            self.cycle + 1
        } else {
            self.cycle
        };
        let frame_id = self.frame_ids[index];
        let start = self.next_crossing_sequence;
        let m = self.markers.len();
        let ghost full = crossings_at(self.markers@, index as int, frame_id, cycle, start as int);
        let mut count: u64 = 0;
        let mut i: usize = 0;
        while i < m
            invariant
                m == self.markers@.len(),
                m <= MAX_SPRITE_PLAYBACK_MARKERS,
                i <= m,
                count == crossings_at(
                    self.markers@.subrange(0, i as int),
                    index as int,
                    frame_id,
                    cycle,
                    start as int,
                ).len(),
                count <= i,
            decreases m - i,
        {
            proof {
                let next = self.markers@.subrange(0, i + 1);
                assert(next.drop_last() =~= self.markers@.subrange(0, i as int));
            }
            if self.markers[i].frame_index as usize == index {
                count = count + 1;
            }
            i = i + 1;
        }
        assert(self.markers@.subrange(0, m as int) =~= self.markers@);
        if count > u64::MAX - start {
            assert(crossings@.subrange(0, before.len() as int) =~= before);
            return Err(
                CsharpEngineServicesError::new(
                    "CSHARP_SPRITE_PLAYBACK_MARKER",
                    String::from_str("sprite playback marker sequence overflow"),
                ),
            );
        }
        let mut next: u64 = start;
        let mut j: usize = 0;
        while j < m
            invariant
                m == self.markers@.len(),
                j <= m,
                before == old(crossings)@,
                crossings@.len() >= before.len(),
                crossings@.subrange(0, before.len() as int) == before,
                crossings@.subrange(before.len() as int, crossings@.len() as int) == crossings_at(
                    self.markers@.subrange(0, j as int),
                    index as int,
                    frame_id,
                    cycle,
                    start as int,
                ),
                next == start + crossings_at(
                    self.markers@.subrange(0, j as int),
                    index as int,
                    frame_id,
                    cycle,
                    start as int,
                ).len(),
                start + full.len() <= u64::MAX,
                full == crossings_at(self.markers@, index as int, frame_id, cycle, start as int),
            decreases m - j,
        {
            let ghost prev = crossings_at(
                self.markers@.subrange(0, j as int),
                index as int,
                frame_id,
                cycle,
                start as int,
            );
            proof {
                let nxt = self.markers@.subrange(0, j + 1);
                assert(nxt.drop_last() =~= self.markers@.subrange(0, j as int));
                lemma_crossings_prefix(self.markers@, index as int, frame_id, cycle, start as int, j + 1);
            }
            let marker = self.markers[j];
            if marker.frame_index as usize == index {
                let ghost old_cs = crossings@;
                crossings.push(
                    SpritePlaybackMarkerCrossing {
                        marker_id: marker.marker_id,
                        frame_id,
                        frame_index: marker.frame_index,
                        cycle,
                        crossing_sequence: next,
                    },
                );
                proof {
                    assert(crossings@.subrange(0, before.len() as int) =~= old_cs.subrange(
                        0,
                        before.len() as int,
                    ));
                    assert(crossings@.subrange(before.len() as int, crossings@.len() as int)
                        =~= old_cs.subrange(before.len() as int, old_cs.len() as int).push(
                        crossings@.last(),
                    ));
                }
                next = next + 1;
            }
            j = j + 1;
        }
        self.frame_index = index;
        self.cycle = cycle;
        self.next_crossing_sequence = next;
        Ok(t)
    }

}

/// Re-admitting the update that was just admitted is a duplicate: it is
/// accepted without advancing and changes nothing.
pub proof fn lemma_duplicate_update_changes_nothing(
    v0: SpritePlaybackView,
    v1: SpritePlaybackView,
    v2: SpritePlaybackView,
    running: bool,
    realtime: bool,
    delta_admitted: bool,
    identity: SpritePlaybackUpdateIdentity,
    r1: Result<bool, CsharpEngineServicesError>,
    r2: Result<bool, CsharpEngineServicesError>,
)
    requires
        SpritePlayback::update_admission(v0, v1, running, realtime, delta_admitted, identity, r1),
        r1 is Ok,
        SpritePlayback::update_admission(v1, v2, running, realtime, delta_admitted, identity, r2),
    ensures
        r2 == Ok::<bool, CsharpEngineServicesError>(false),
        v2 == v1,
{
}

/// Controls keep the consumed update: after any accepted control, the
/// update admitted before it is still a duplicate.
pub proof fn lemma_control_keeps_consumed_update(
    v0: SpritePlaybackView,
    v1: SpritePlaybackView,
    v2: SpritePlaybackView,
    control: SpritePlaybackControl,
    running: bool,
    realtime: bool,
    delta_admitted: bool,
    identity: SpritePlaybackUpdateIdentity,
    r1: Result<bool, CsharpEngineServicesError>,
    r2: Result<bool, CsharpEngineServicesError>,
)
    requires
        SpritePlayback::update_admission(v0, v1, running, realtime, delta_admitted, identity, r1),
        r1 is Ok,
        controlled(v1, control) is Some,
        SpritePlayback::update_admission(
            SpritePlaybackView { revision: (v1.revision + 1) as u64, ..controlled(v1, control)->0 },
            v2,
            running,
            realtime,
            delta_admitted,
            identity,
            r2,
        ),
    ensures
        r2 == Ok::<bool, CsharpEngineServicesError>(false),
{
}

/// The markers raised on entering an entry are numbered consecutively
/// from the playback's next crossing number.
pub proof fn lemma_crossing_numbers_consecutive(
    markers: Seq<SpritePlaybackMarker>,
    index: int,
    frame_id: u32,
    cycle: u64,
    start: int,
)
    requires
        0 <= start,
        start + crossings_at(markers, index, frame_id, cycle, start).len() <= u64::MAX,
    ensures
        forall|i: int|
            0 <= i < crossings_at(markers, index, frame_id, cycle, start).len() ==> (
            #[trigger] crossings_at(markers, index, frame_id, cycle, start)[i]).crossing_sequence
                == start + i && crossings_at(markers, index, frame_id, cycle, start)[i].frame_index
                == index,
    decreases markers.len(),
{
    if markers.len() > 0 {
        let init = crossings_at(markers.drop_last(), index, frame_id, cycle, start);
        lemma_crossing_numbers_consecutive(markers.drop_last(), index, frame_id, cycle, start);
        let all = crossings_at(markers, index, frame_id, cycle, start);
        assert forall|i: int| 0 <= i < all.len() implies (#[trigger] all[i]).crossing_sequence
            == start + i && all[i].frame_index == index by {
            if i < init.len() {
                assert(all[i] == init[i]);
            }
        }
    }
}

/// The markers of entry `index`, in marker order.
pub open spec fn markers_of_entry(markers: Seq<SpritePlaybackMarker>, index: int) -> Seq<
    SpritePlaybackMarker,
> {
    markers.filter(|m: SpritePlaybackMarker| m.frame_index as int == index)
}

/// The crossings raised on entering an entry are its markers, one each,
/// in marker order: same marker, the entered frame and cycle, numbered
/// consecutively from `start`.
proof fn lemma_crossings_are_entry_markers(
    markers: Seq<SpritePlaybackMarker>,
    index: int,
    frame_id: u32,
    cycle: u64,
    start: int,
)
    ensures
        crossings_at(markers, index, frame_id, cycle, start).len() == markers_of_entry(
            markers,
            index,
        ).len(),
        forall|k: int|
            0 <= k < crossings_at(markers, index, frame_id, cycle, start).len() ==> {
                let c = #[trigger] crossings_at(markers, index, frame_id, cycle, start)[k];
                let m = markers_of_entry(markers, index)[k];
                &&& c.marker_id == m.marker_id
                &&& c.frame_index == m.frame_index
                &&& c.frame_id == frame_id
                &&& c.cycle == cycle
                &&& c.crossing_sequence == (start + k) as u64
            },
    decreases markers.len(),
{
    reveal(Seq::filter);
    let pred = |m: SpritePlaybackMarker| m.frame_index as int == index;
    if markers.len() == 0 {
        assert(markers_of_entry(markers, index) =~= Seq::<SpritePlaybackMarker>::empty());
    } else {
        let prefix = markers.drop_last();
        lemma_crossings_are_entry_markers(prefix, index, frame_id, cycle, start);
        assert(markers_of_entry(markers, index) == if pred(markers.last()) {
            markers_of_entry(prefix, index).push(markers.last())
        } else {
            markers_of_entry(prefix, index)
        });
        let init = crossings_at(prefix, index, frame_id, cycle, start);
        let all = crossings_at(markers, index, frame_id, cycle, start);
        assert forall|k: int| 0 <= k < all.len() implies {
            let c = #[trigger] all[k];
            let m = markers_of_entry(markers, index)[k];
            &&& c.marker_id == m.marker_id
            &&& c.frame_index == m.frame_index
            &&& c.frame_id == frame_id
            &&& c.cycle == cycle
            &&& c.crossing_sequence == (start + k) as u64
        } by {
            if k < init.len() {
                assert(all[k] == init[k]);
                assert(markers_of_entry(markers, index)[k] == markers_of_entry(prefix, index)[k]);
            }
        }
    }
}

impl SpritePlayback {
    /// Crossing into an entry raises exactly the markers of the entry
    /// entered, in marker order, whether the crossing moved to the next
    /// entry or wrapped a looping sequence back to its first entry in the
    /// next cycle: each crossing names its marker, the entered entry and
    /// its frame, the cycle entered, and the next crossing number in turn,
    /// and the playback's next crossing number moves past them.
    pub proof fn lemma_entering_an_entry_raises_its_markers(
        pre: SpritePlaybackView,
        post: SpritePlaybackView,
        transitions: int,
        raised: Seq<SpritePlaybackMarkerCrossing>,
        r: Result<usize, CsharpEngineServicesError>,
    )
        requires
            Self::boundary_crossing(pre, post, transitions, raised, r),
            r is Ok,
            post.state == SpritePlaybackState::Playing,
            pre.state == SpritePlaybackState::Playing,
        ensures
            pre.frame_index + 1 == pre.frame_ids.len() ==> post.frame_index == 0 && post.cycle
                == pre.cycle + 1,
            pre.frame_index + 1 != pre.frame_ids.len() ==> post.frame_index == pre.frame_index + 1
                && post.cycle == pre.cycle,
            raised.len() == markers_of_entry(pre.markers, post.frame_index).len(),
            forall|k: int|
                0 <= k < raised.len() ==> {
                    let c = #[trigger] raised[k];
                    let m = markers_of_entry(pre.markers, post.frame_index)[k];
                    &&& c.marker_id == m.marker_id
                    &&& c.frame_index as int == post.frame_index
                    &&& c.frame_id == pre.frame_ids[post.frame_index]
                    &&& c.cycle == post.cycle
                    &&& c.crossing_sequence == pre.next_crossing_sequence + k
                },
            post.next_crossing_sequence == pre.next_crossing_sequence + raised.len(),
    {
        let last = pre.frame_index + 1 == pre.frame_ids.len();
        let index = if last {
            0
        } else {
            pre.frame_index + 1
        };
        let cycle = if last {
            (pre.cycle + 1) as u64
        } else {
            pre.cycle
        };
        lemma_crossings_are_entry_markers(
            pre.markers,
            index,
            pre.frame_ids[index],
            cycle,
            pre.next_crossing_sequence as int,
        );
        reveal(Seq::filter);
        let entry = markers_of_entry(pre.markers, index);
        assert forall|k: int| 0 <= k < entry.len() implies #[trigger] entry[k].frame_index as int
            == index by {
            lemma_entry_markers_are_on_entry(pre.markers, index, k);
        }
        let fresh = crossings_at(
            pre.markers,
            index,
            pre.frame_ids[index],
            cycle,
            pre.next_crossing_sequence as int,
        );
        assert forall|k: int| 0 <= k < raised.len() implies {
            let c = #[trigger] raised[k];
            let m = markers_of_entry(pre.markers, post.frame_index)[k];
            &&& c.marker_id == m.marker_id
            &&& c.frame_index as int == post.frame_index
            &&& c.frame_id == pre.frame_ids[post.frame_index]
            &&& c.cycle == post.cycle
            &&& c.crossing_sequence == pre.next_crossing_sequence + k
        } by {
            assert(raised[k] == fresh[k]);
            assert(entry[k].frame_index as int == index);
        }
    }
}

/// Every marker of an entry's markers is on that entry.
proof fn lemma_entry_markers_are_on_entry(markers: Seq<SpritePlaybackMarker>, index: int, k: int)
    requires
        0 <= k < markers_of_entry(markers, index).len(),
    ensures
        markers_of_entry(markers, index)[k].frame_index as int == index,
    decreases markers.len(),
{
    reveal(Seq::filter);
    if markers.len() > 0 {
        let prefix = markers.drop_last();
        let pred = |m: SpritePlaybackMarker| m.frame_index as int == index;
        assert(markers_of_entry(markers, index) == if pred(markers.last()) {
            markers_of_entry(prefix, index).push(markers.last())
        } else {
            markers_of_entry(prefix, index)
        });
        if k < markers_of_entry(prefix, index).len() {
            lemma_entry_markers_are_on_entry(prefix, index, k);
        }
    }
}

} // verus!
