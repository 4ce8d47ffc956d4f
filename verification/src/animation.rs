//! Product animation cue definitions and the bounded store of browser
//! animation realization feedback.

use crate::error::CsharpEngineServicesError;
use vstd::prelude::*;
use vstd::string::StringExecFns;

verus! {

/// At most this many realization facts are retained.
pub const MAX_ANIMATION_REALIZATION_FACTS: usize = 128;

/// At most this many cue definitions per replacement.
pub const MAX_ANIMATION_CUE_DEFINITIONS: usize = 128;

/// At most this many UTF-8 bytes per cue text.
pub const MAX_ANIMATION_CUE_TEXT_BYTES: usize = 96;

/// The domain of the signal a cue raises.
#[derive(Debug, Clone, Copy, PartialEq, Eq, Structural)]
pub enum AnimationCueSignalDomain {
    Audio,
    Particle,
}

/// Copied, bounded product animation cue definition for the browser
/// animation host.
#[derive(Debug)]
pub struct AnimationCueDefinition {
    pub cue_id: String,
    pub asset: String,
    pub clip: String,
    pub marker_millis: u64,
    pub signal_domain: AnimationCueSignalDomain,
    pub signal_id: String,
}

/// Copied browser animation realization feedback.
#[derive(Debug)]
pub enum AnimationRealizationFact {
    Playback {
        fact_id: u64,
        object_id: u64,
        generation: u64,
        sequence: u32,
        status: String,
        clip: Option<String>,
        sampled_millis: Option<u64>,
    },
    NaturalCompletion { fact_id: u64, object_id: u64, generation: u64, clip: String },
    Diagnostic {
        fact_id: u64,
        object_id: Option<u64>,
        generation: Option<u64>,
        code: String,
        sequence: u32,
    },
    Cue {
        fact_id: u64,
        object_id: u64,
        generation: u64,
        cue_id: String,
        clip: String,
        marker_millis: u64,
        sampled_millis: u64,
        signal_domain: String,
        signal_id: String,
    },
    Stopped { fact_id: u64, object_id: u64, generation: u64, sequence: u32, reason: String },
}

/// The kind of an animation realization receipt.
#[derive(Debug, Clone, Copy, PartialEq, Eq, Structural)]
pub enum AnimationRealizationFactKind {
    Absent,
    PlaybackObservation,
    NaturalCompletion,
    Diagnostic,
    Cue,
    Stopped,
}

/// The flat readout of one animation realization fact: absent numbers
/// read as zero and absent texts as empty.
#[derive(Debug)]
pub struct AnimationRealizationFactReceipt {
    pub present: bool,
    pub kind: AnimationRealizationFactKind,
    pub fact_id: u64,
    pub object_id: u64,
    pub generation: u64,
    pub has_object_id: bool,
    pub has_generation: bool,
    pub sequence: u32,
    pub status: String,
    pub clip: String,
    pub has_sampled_millis: bool,
    pub sampled_millis: u64,
    pub diagnostic_code: String,
    pub cue_id: String,
    pub marker_millis: u64,
    pub signal_domain: String,
    pub signal_id: String,
    pub reason: String,
}

/// The abstract value of a receipt.
pub struct AnimationReceiptView {
    pub present: bool,
    pub kind: AnimationRealizationFactKind,
    pub fact_id: u64,
    pub object_id: u64,
    pub generation: u64,
    pub has_object_id: bool,
    pub has_generation: bool,
    pub sequence: u32,
    pub status: Seq<char>,
    pub clip: Seq<char>,
    pub has_sampled_millis: bool,
    pub sampled_millis: u64,
    pub diagnostic_code: Seq<char>,
    pub cue_id: Seq<char>,
    pub marker_millis: u64,
    pub signal_domain: Seq<char>,
    pub signal_id: Seq<char>,
    pub reason: Seq<char>,
}

impl View for AnimationRealizationFactReceipt {
    type V = AnimationReceiptView;

    closed spec fn view(&self) -> AnimationReceiptView {
        AnimationReceiptView {
            present: self.present,
            kind: self.kind,
            fact_id: self.fact_id,
            object_id: self.object_id,
            generation: self.generation,
            has_object_id: self.has_object_id,
            has_generation: self.has_generation,
            sequence: self.sequence,
            status: self.status@,
            clip: self.clip@,
            has_sampled_millis: self.has_sampled_millis,
            sampled_millis: self.sampled_millis,
            diagnostic_code: self.diagnostic_code@,
            cue_id: self.cue_id@,
            marker_millis: self.marker_millis,
            signal_domain: self.signal_domain@,
            signal_id: self.signal_id@,
            reason: self.reason@,
        }
    }
}

/// The receipt of an index with no retained fact.
pub open spec fn absent_animation_receipt() -> AnimationReceiptView {
    AnimationReceiptView {
        present: false,
        kind: AnimationRealizationFactKind::Absent,
        fact_id: 0,
        object_id: 0,
        generation: 0,
        has_object_id: false,
        has_generation: false,
        sequence: 0,
        status: Seq::empty(),
        clip: Seq::empty(),
        has_sampled_millis: false,
        sampled_millis: 0,
        diagnostic_code: Seq::empty(),
        cue_id: Seq::empty(),
        marker_millis: 0,
        signal_domain: Seq::empty(),
        signal_id: Seq::empty(),
        reason: Seq::empty(),
    }
}

/// The receipt a fact reads out as: the fields of its kind over an
/// otherwise empty present receipt.
pub open spec fn animation_receipt_of(f: AnimationRealizationFact) -> AnimationReceiptView {
    let base = AnimationReceiptView { present: true, ..absent_animation_receipt() };
    match f {
        AnimationRealizationFact::Playback {
            fact_id,
            object_id,
            generation,
            sequence,
            status,
            clip,
            sampled_millis,
        } => AnimationReceiptView {
            kind: AnimationRealizationFactKind::PlaybackObservation,
            fact_id,
            object_id,
            generation,
            sequence,
            status: status@,
            clip: match clip {
                Some(c) => c@,
                None => Seq::empty(),
            },
            has_sampled_millis: sampled_millis is Some,
            sampled_millis: match sampled_millis {
                Some(m) => m,
                None => 0,
            },
            ..base
        },
        AnimationRealizationFact::NaturalCompletion { fact_id, object_id, generation, clip } =>
            AnimationReceiptView {
            kind: AnimationRealizationFactKind::NaturalCompletion,
            fact_id,
            object_id,
            generation,
            clip: clip@,
            ..base
        },
        AnimationRealizationFact::Diagnostic { fact_id, object_id, generation, code, sequence } =>
            AnimationReceiptView {
            kind: AnimationRealizationFactKind::Diagnostic,
            fact_id,
            object_id: match object_id {
                Some(o) => o,
                None => 0,
            },
            generation: match generation {
                Some(g) => g,
                None => 0,
            },
            has_object_id: object_id is Some,
            has_generation: generation is Some,
            sequence,
            diagnostic_code: code@,
            ..base
        },
        AnimationRealizationFact::Cue {
            fact_id,
            object_id,
            generation,
            cue_id,
            clip,
            marker_millis,
            sampled_millis,
            signal_domain,
            signal_id,
        } => AnimationReceiptView {
            kind: AnimationRealizationFactKind::Cue,
            fact_id,
            object_id,
            generation,
            cue_id: cue_id@,
            clip: clip@,
            marker_millis,
            sampled_millis,
            has_sampled_millis: true,
            signal_domain: signal_domain@,
            signal_id: signal_id@,
            ..base
        },
        AnimationRealizationFact::Stopped { fact_id, object_id, generation, sequence, reason } =>
            AnimationReceiptView {
            kind: AnimationRealizationFactKind::Stopped,
            fact_id,
            object_id,
            generation,
            sequence,
            reason: reason@,
            ..base
        },
    }
}

fn empty_text() -> (s: String)
    ensures
        s@ == Seq::<char>::empty(),
{
    String::new()
}

fn absent_receipt() -> (r: AnimationRealizationFactReceipt)
    ensures
        r@ == absent_animation_receipt(),
{
    AnimationRealizationFactReceipt {
        present: false,
        kind: AnimationRealizationFactKind::Absent,
        fact_id: 0,
        object_id: 0,
        generation: 0,
        has_object_id: false,
        has_generation: false,
        sequence: 0,
        status: empty_text(),
        clip: empty_text(),
        has_sampled_millis: false,
        sampled_millis: 0,
        diagnostic_code: empty_text(),
        cue_id: empty_text(),
        marker_millis: 0,
        signal_domain: empty_text(),
        signal_id: empty_text(),
        reason: empty_text(),
    }
}

/// The flat receipt of a fact.
pub fn animation_realization_receipt(fact: &AnimationRealizationFact) -> (r:
    AnimationRealizationFactReceipt)
    ensures
        r@ == animation_receipt_of(*fact),
{
    let mut out = absent_receipt();
    out.present = true;
    match fact {
        AnimationRealizationFact::Playback {
            fact_id,
            object_id,
            generation,
            sequence,
            status,
            clip,
            sampled_millis,
        } => {
            out.kind = AnimationRealizationFactKind::PlaybackObservation;
            out.fact_id = *fact_id;
            out.object_id = *object_id;
            out.generation = *generation;
            out.sequence = *sequence;
            out.status = status.clone();
            out.clip = match clip {
                Some(c) => c.clone(),
                None => empty_text(),
            };
            out.has_sampled_millis = sampled_millis.is_some();
            out.sampled_millis = match sampled_millis {
                Some(m) => *m,
                None => 0,
            };
        },
        AnimationRealizationFact::NaturalCompletion { fact_id, object_id, generation, clip } => {
            out.kind = AnimationRealizationFactKind::NaturalCompletion;
            out.fact_id = *fact_id;
            out.object_id = *object_id;
            out.generation = *generation;
            out.clip = clip.clone();
        },
        AnimationRealizationFact::Diagnostic { fact_id, object_id, generation, code, sequence } => {
            out.kind = AnimationRealizationFactKind::Diagnostic;
            out.fact_id = *fact_id;
            out.object_id = match object_id {
                Some(o) => *o,
                None => 0,
            };
            out.generation = match generation {
                Some(g) => *g,
                None => 0,
            };
            out.has_object_id = object_id.is_some();
            out.has_generation = generation.is_some();
            out.sequence = *sequence;
            out.diagnostic_code = code.clone();
        },
        AnimationRealizationFact::Cue {
            fact_id,
            object_id,
            generation,
            cue_id,
            clip,
            marker_millis,
            sampled_millis,
            signal_domain,
            signal_id,
        } => {
            out.kind = AnimationRealizationFactKind::Cue;
            out.fact_id = *fact_id;
            out.object_id = *object_id;
            out.generation = *generation;
            out.cue_id = cue_id.clone();
            out.clip = clip.clone();
            out.marker_millis = *marker_millis;
            out.sampled_millis = *sampled_millis;
            out.has_sampled_millis = true;
            out.signal_domain = signal_domain.clone();
            out.signal_id = signal_id.clone();
        },
        AnimationRealizationFact::Stopped { fact_id, object_id, generation, sequence, reason } => {
            out.kind = AnimationRealizationFactKind::Stopped;
            out.fact_id = *fact_id;
            out.object_id = *object_id;
            out.generation = *generation;
            out.sequence = *sequence;
            out.reason = reason.clone();
        },
    }
    out
}

/// The number of UTF-8 bytes of a text.
pub open spec fn text_bytes(t: Seq<char>) -> int {
    vstd::utf8::encode_utf8(t).len() as int
}

/// A cue text is non-empty and at most 96 UTF-8 bytes.
pub open spec fn cue_text_ok(t: Seq<char>) -> bool {
    1 <= text_bytes(t) <= MAX_ANIMATION_CUE_TEXT_BYTES
}

/// The four texts of a definition are in bounds.
pub open spec fn cue_texts_ok(d: AnimationCueDefinition) -> bool {
    &&& cue_text_ok(d.cue_id@)
    &&& cue_text_ok(d.asset@)
    &&& cue_text_ok(d.clip@)
    &&& cue_text_ok(d.signal_id@)
}

/// Two definitions share an asset, clip and cue id.
pub open spec fn same_cue_key(a: AnimationCueDefinition, b: AnimationCueDefinition) -> bool {
    a.asset@ == b.asset@ && a.clip@ == b.clip@ && a.cue_id@ == b.cue_id@
}

/// The definition at `i` has an out-of-bounds text or repeats the key of
/// an earlier one.
pub open spec fn cue_fault(defs: Seq<AnimationCueDefinition>, i: int) -> bool {
    !cue_texts_ok(defs[i]) || exists|j: int| 0 <= j < i && same_cue_key(defs[j], defs[i])
}

/// The first faulty definition.
pub open spec fn first_cue_fault(defs: Seq<AnimationCueDefinition>) -> int {
    choose|i: int|
        0 <= i < defs.len() && cue_fault(defs, i) && forall|j: int| 0 <= j < i ==> !cue_fault(defs, j)
}

fn cue_text_in_bounds(t: &String) -> (b: bool)
    ensures
        b == cue_text_ok(t@),
{
    let n = t.as_str().as_bytes().len();
    1 <= n && n <= MAX_ANIMATION_CUE_TEXT_BYTES
}

fn same_key(a: &AnimationCueDefinition, b: &AnimationCueDefinition) -> (r: bool)
    ensures
        r == same_cue_key(*a, *b),
{
    a.asset == b.asset && a.clip == b.clip && a.cue_id == b.cue_id
}

/// Whether the definition at `i` is faulty.
fn cue_fault_at(defs: &Vec<AnimationCueDefinition>, i: usize) -> (b: bool)
    requires
        i < defs@.len(),
    ensures
        b == cue_fault(defs@, i as int),
{
    let d = &defs[i];
    if !(cue_text_in_bounds(&d.cue_id) && cue_text_in_bounds(&d.asset) && cue_text_in_bounds(&d.clip)
        && cue_text_in_bounds(&d.signal_id)) {
        return true;
    }
    let mut j: usize = 0;
    while j < i
        invariant
            i < defs@.len(),
            j <= i,
            forall|k: int| 0 <= k < j ==> !same_cue_key(defs@[k], defs@[i as int]),
        decreases i - j,
    {
        if same_key(&defs[j], &defs[i]) {
            return true;
        }
        j = j + 1;
    }
    false
}

/// Checks a replacement set of cue definitions: at most 128, each with
/// texts of one to 96 UTF-8 bytes and a distinct asset, clip and cue id.
pub fn validate_cue_definitions(defs: &Vec<AnimationCueDefinition>) -> (r: Result<
    (),
    CsharpEngineServicesError,
>)
    ensures
        r is Ok <==> defs@.len() <= MAX_ANIMATION_CUE_DEFINITIONS && forall|i: int|
            0 <= i < defs@.len() ==> !cue_fault(defs@, i),
        r matches Err(e) ==> e.code_view() == (if defs@.len() > MAX_ANIMATION_CUE_DEFINITIONS {
            "CSHARP_ANIMATION_CUE_DEFINITIONS"@
        } else if !cue_texts_ok(defs@[first_cue_fault(defs@)]) {
            "CSHARP_ANIMATION_CUE_TEXT"@
        } else {
            "CSHARP_ANIMATION_CUE_DEFINITIONS"@
        }),
{
    let n = defs.len();
    if n > MAX_ANIMATION_CUE_DEFINITIONS {
        return Err(
            CsharpEngineServicesError::new(
                "CSHARP_ANIMATION_CUE_DEFINITIONS",
                String::from_str("animation cue definition replacement exceeds the 128 definition bound"),
            ),
        );
    }
    let mut i: usize = 0;
    while i < n
        invariant
            n == defs@.len(),
            n <= MAX_ANIMATION_CUE_DEFINITIONS,
            i <= n,
            forall|j: int| 0 <= j < i ==> !cue_fault(defs@, j),
        decreases n - i,
    {
        if cue_fault_at(defs, i) {
            proof {
                let c = first_cue_fault(defs@);
                assert(0 <= i < defs@.len() && cue_fault(defs@, i as int) && forall|j: int|
                    0 <= j < i ==> !cue_fault(defs@, j));
                if c > i {
                    assert(!cue_fault(defs@, i as int));
                }
                assert(c == i);
            }
            let d = &defs[i];
            if !(cue_text_in_bounds(&d.cue_id) && cue_text_in_bounds(&d.asset) && cue_text_in_bounds(
                &d.clip,
            ) && cue_text_in_bounds(&d.signal_id)) {
                return Err(
                    CsharpEngineServicesError::new(
                        "CSHARP_ANIMATION_CUE_TEXT",
                        String::from_str(
                            "animation cue texts must be non-empty and no more than 96 UTF-8 bytes",
                        ),
                    ),
                );
            }
            return Err(
                CsharpEngineServicesError::new(
                    "CSHARP_ANIMATION_CUE_DEFINITIONS",
                    String::from_str(
                        "animation cue definitions must not duplicate an asset, clip, and cue id",
                    ),
                ),
            );
        }
        i = i + 1;
    }
    Ok(())
}

/// The retained and evicted counts of animation realization feedback.
#[derive(Debug, Clone, Copy, PartialEq, Eq, Structural)]
pub struct AnimationRealizationReadout {
    pub retained_fact_count: u32,
    pub evicted_fact_count: u64,
}

/// The realization feedback state: retained facts and evicted count.
pub struct AnimationFeedbackModel {
    pub facts: Seq<AnimationRealizationFact>,
    pub evicted: u64,
}

/// Admits a batch: a replaced owner starts afresh with the host's eviction
/// count, otherwise the larger count is kept; the batch is appended and
/// the oldest facts beyond 128 are evicted and counted, saturating.
pub open spec fn animation_ingest(
    m: AnimationFeedbackModel,
    replace_owner: bool,
    evicted: u64,
    batch: Seq<AnimationRealizationFact>,
) -> AnimationFeedbackModel {
    let facts0 = if replace_owner {
        Seq::empty()
    } else {
        m.facts
    };
    let evicted0 = if replace_owner || evicted > m.evicted {
        evicted
    } else {
        m.evicted
    };
    let all = facts0 + batch;
    let dropped = if all.len() > MAX_ANIMATION_REALIZATION_FACTS {
        all.len() - MAX_ANIMATION_REALIZATION_FACTS
    } else {
        0
    };
    AnimationFeedbackModel {
        facts: all.subrange(dropped, all.len() as int),
        evicted: if evicted0 + dropped > u64::MAX {
            u64::MAX
        } else {
            (evicted0 + dropped) as u64
        },
    }
}

impl AnimationCueDefinition {
    /// A copy of the definition.
    pub fn copy(&self) -> (c: Self)
        ensures
            c == *self,
    {
        AnimationCueDefinition {
            cue_id: self.cue_id.clone(),
            asset: self.asset.clone(),
            clip: self.clip.clone(),
            marker_millis: self.marker_millis,
            signal_domain: self.signal_domain,
            signal_id: self.signal_id.clone(),
        }
    }
}

/// A copy of a set of definitions, in order.
fn copy_definitions(defs: &Vec<AnimationCueDefinition>) -> (out: Vec<AnimationCueDefinition>)
    ensures
        out@ == defs@,
{
    let mut out: Vec<AnimationCueDefinition> = Vec::new();
    let n = defs.len();
    let mut i: usize = 0;
    while i < n
        invariant
            n == defs@.len(),
            i <= n,
            out@ == defs@.subrange(0, i as int),
        decreases n - i,
    {
        out.push(defs[i].copy());
        i = i + 1;
        assert(out@ =~= defs@.subrange(0, i as int));
    }
    assert(defs@.subrange(0, n as int) =~= defs@);
    out
}

/// The product's animation cue definitions and the browser animation
/// realization feedback retained for its reads.
pub struct AnimationState {
    cue_definitions: Vec<AnimationCueDefinition>,
    realization_facts: Vec<AnimationRealizationFact>,
    realization_evicted: u64,
}

impl AnimationState {
    /// The current cue definitions.
    pub closed spec fn cue_definitions_view(&self) -> Seq<AnimationCueDefinition> {
        self.cue_definitions@
    }

    /// The realization feedback state.
    pub closed spec fn feedback_view(&self) -> AnimationFeedbackModel {
        AnimationFeedbackModel { facts: self.realization_facts@, evicted: self.realization_evicted }
    }

    /// At most 128 facts are retained.
    pub closed spec fn wf(&self) -> bool {
        self.realization_facts@.len() <= MAX_ANIMATION_REALIZATION_FACTS
    }

    /// No definitions and no feedback.
    pub fn new() -> (s: Self)
        ensures
            s.wf(),
            s.cue_definitions_view() == Seq::<AnimationCueDefinition>::empty(),
            s.feedback_view() == (AnimationFeedbackModel { facts: Seq::empty(), evicted: 0 }),
    {
        AnimationState { cue_definitions: Vec::new(), realization_facts: Vec::new(), realization_evicted: 0 }
    }

    /// Replaces the cue definitions with a validated set and returns the
    /// copy the call hands to the browser animation host as its output; a
    /// refused set changes nothing.
    pub fn replace_cue_definitions(&mut self, defs: Vec<AnimationCueDefinition>) -> (r: Result<
        Vec<AnimationCueDefinition>,
        CsharpEngineServicesError,
    >)
        ensures
            final(self).feedback_view() == old(self).feedback_view(),
            final(self).wf() == old(self).wf(),
            r is Ok <==> defs@.len() <= MAX_ANIMATION_CUE_DEFINITIONS && forall|i: int|
                0 <= i < defs@.len() ==> !cue_fault(defs@, i),
            r matches Err(e) ==> e.code_view() == (if defs@.len() > MAX_ANIMATION_CUE_DEFINITIONS {
                "CSHARP_ANIMATION_CUE_DEFINITIONS"@
            } else if !cue_texts_ok(defs@[first_cue_fault(defs@)]) {
                "CSHARP_ANIMATION_CUE_TEXT"@
            } else {
                "CSHARP_ANIMATION_CUE_DEFINITIONS"@
            }),
            r matches Ok(output) ==> final(self).cue_definitions_view() == defs@ && output@
                == defs@,
            r is Err ==> final(self).cue_definitions_view() == old(self).cue_definitions_view(),
    {
        match validate_cue_definitions(&defs) {
            Ok(()) => {
                let output = copy_definitions(&defs);
                self.cue_definitions = defs;
                Ok(output)
            },
            Err(e) => Err(e),
        }
    }

    /// The current cue definitions.
    pub fn cue_definitions(&self) -> (d: &Vec<AnimationCueDefinition>)
        ensures
            d@ == self.cue_definitions_view(),
    {
        &self.cue_definitions
    }

    /// Admits a browser-owned animation feedback snapshot between product
    /// calls; the retained store stays bounded by evicting its oldest
    /// facts.
    pub fn ingest_realization_feedback(
        &mut self,
        replace_owner: bool,
        evicted_fact_count: u64,
        facts: Vec<AnimationRealizationFact>,
    )
        requires
            old(self).wf(),
        ensures
            final(self).wf(),
            final(self).cue_definitions_view() == old(self).cue_definitions_view(),
            final(self).feedback_view() == animation_ingest(
                old(self).feedback_view(),
                replace_owner,
                evicted_fact_count,
                facts@,
            ),
    {
        let mut facts = facts;
        if replace_owner {
            self.realization_facts = Vec::new();
            self.realization_evicted = evicted_fact_count;
        }
        if evicted_fact_count > self.realization_evicted {
            self.realization_evicted = evicted_fact_count;
        }
        self.realization_facts.append(&mut facts);
        let total = self.realization_facts.len();
        assert(self.realization_facts@.subrange(0, total as int) =~= self.realization_facts@);
        if total > MAX_ANIMATION_REALIZATION_FACTS {
            let dropped = total - MAX_ANIMATION_REALIZATION_FACTS;
            let kept = self.realization_facts.split_off(dropped);
            self.realization_facts = kept;
            self.realization_evicted = if self.realization_evicted > u64::MAX - (dropped as u64) {
                u64::MAX
            } else {
                self.realization_evicted + dropped as u64
            };
        }
    }

    /// Clears realization feedback when the runtime binding changes.
    pub fn reset_realization_owner(&mut self)
        requires
            old(self).wf(),
        ensures
            final(self).wf(),
            final(self).cue_definitions_view() == old(self).cue_definitions_view(),
            final(self).feedback_view() == animation_ingest(
                old(self).feedback_view(),
                true,
                0,
                Seq::empty(),
            ),
    {
        self.ingest_realization_feedback(true, 0, Vec::new());
    }

    /// The retained and evicted fact counts.
    pub fn read_realization(&self) -> (r: AnimationRealizationReadout)
        requires
            self.wf(),
        ensures
            r.retained_fact_count == self.feedback_view().facts.len(),
            r.evicted_fact_count == self.feedback_view().evicted,
    {
        AnimationRealizationReadout {
            retained_fact_count: self.realization_facts.len() as u32,
            evicted_fact_count: self.realization_evicted,
        }
    }

    /// The receipt of the retained fact at `index`, oldest first; an index
    /// past the store reads as absent.
    pub fn read_realization_fact_at(&self, index: u32) -> (r: AnimationRealizationFactReceipt)
        requires
            self.wf(),
        ensures
            r@ == (if index < self.feedback_view().facts.len() {
                animation_receipt_of(self.feedback_view().facts[index as int])
            } else {
                absent_animation_receipt()
            }),
    {
        if (index as usize) < self.realization_facts.len() {
            animation_realization_receipt(&self.realization_facts[index as usize])
        } else {
            absent_receipt()
        }
    }
}

/// The retained animation feedback stays bounded: admitting any batch
/// into a store of at most 128 facts leaves at most 128.
pub proof fn lemma_animation_store_bounded(
    m: AnimationFeedbackModel,
    replace_owner: bool,
    evicted: u64,
    batch: Seq<AnimationRealizationFact>,
)
    requires
        m.facts.len() <= MAX_ANIMATION_REALIZATION_FACTS,
    ensures
        animation_ingest(m, replace_owner, evicted, batch).facts.len()
            <= MAX_ANIMATION_REALIZATION_FACTS,
{
}

/// Every fact is either retained or counted: the retained facts are the
/// newest of the store and the batch, and the evicted count grows by the
/// number of facts dropped unless it saturates.
pub proof fn lemma_animation_eviction_accounts(
    m: AnimationFeedbackModel,
    batch: Seq<AnimationRealizationFact>,
)
    requires
        m.facts.len() <= MAX_ANIMATION_REALIZATION_FACTS,
    ensures
        ({
            let after = animation_ingest(m, false, 0, batch);
            &&& after.facts.len() + (after.evicted - m.evicted) == m.facts.len() + batch.len()
                || after.evicted == u64::MAX
            &&& after.facts == (m.facts + batch).subrange(
                (m.facts.len() + batch.len()) - after.facts.len(),
                (m.facts.len() + batch.len()) as int,
            )
        }),
{
}

} // verus!
