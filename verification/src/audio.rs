//! Audio clip admission, ownership and voice/one-shot bookkeeping, and the
//! bounded store of browser audio realization feedback.

use crate::error::CsharpEngineServicesError;
use crate::digest::{content_hash_text, digest_hex};
use crate::paths::{content_prefix_chars, strip_content, strip_content_prefix, with_content_prefix};
use crate::resource::{audio_admissible, audio_refusal_code, CsharpRenderResource, CsharpRenderResourceKind, RenderResourceView};
use crate::wav::{wav_timing, wav_timing_of};
use crate::table::{HandleTable, TextTable};
use crate::content::{files_view, share, AdmittedContent, ContentCatalog, ContentView};
use std::sync::Arc;
use crate::wav::WavTiming;
use vstd::prelude::*;
use vstd::string::{StrSliceExecFns, StringExecFns};

verus! {

/// At most this many realization facts are retained.
pub const MAX_AUDIO_REALIZATION_FACTS: usize = 128;

/// Diagnostic codes of the browser audio host.
#[derive(Debug, Clone, Copy, PartialEq, Eq, Structural)]
pub enum AudioDiagnosticCode {
    NoDiagnostic,
    InvalidDescriptor,
    AssetMissing,
    AssetKindMismatch,
    ContentHashMismatch,
    DuplicateSignal,
    DuplicateHandle,
    UnknownHandle,
    InvalidControl,
    UnavailableHost,
    AudioContextBlocked,
    DecodeFailed,
    HostFailure,
}

/// Copied browser-host audio realization feedback, kept apart from the
/// projected desired state so products can tell what Web Audio actually
/// completed or diagnosed.
#[derive(Debug, Clone, Copy, PartialEq, Eq, Structural)]
pub enum AudioRealizationFact {
    NaturalCompletionOneShot { fact_id: u64, sequence: u32, signal_handle: u64 },
    NaturalCompletionRetainedVoice { fact_id: u64, sequence: u32, voice_handle: u64 },
    Diagnostic {
        fact_id: u64,
        code: AudioDiagnosticCode,
        sequence: u32,
        signal_handle: Option<u64>,
        voice_handle: Option<u64>,
    },
}

/// The kind of a realization fact receipt.
#[derive(Debug, Clone, Copy, PartialEq, Eq, Structural)]
pub enum AudioRealizationFactKind {
    Absent,
    NaturalCompletionOneShot,
    NaturalCompletionRetainedVoice,
    Diagnostic,
}

/// The flat readout of one realization fact; absent handles read as zero.
#[derive(Debug, Clone, Copy, PartialEq, Eq, Structural)]
pub struct AudioRealizationFactReceipt {
    pub present: bool,
    pub kind: AudioRealizationFactKind,
    pub fact_id: u64,
    pub sequence: u32,
    pub signal_handle: u64,
    pub voice_value: u64,
    pub code: AudioDiagnosticCode,
}

/// The retained and evicted counts of realization feedback.
#[derive(Debug, Clone, Copy, PartialEq, Eq, Structural)]
pub struct AudioRealizationReadout {
    pub retained_fact_count: u32,
    pub evicted_fact_count: u64,
}

pub open spec fn spec_fact_id(f: AudioRealizationFact) -> u64 {
    match f {
        AudioRealizationFact::NaturalCompletionOneShot { fact_id, .. } => fact_id,
        AudioRealizationFact::NaturalCompletionRetainedVoice { fact_id, .. } => fact_id,
        AudioRealizationFact::Diagnostic { fact_id, .. } => fact_id,
    }
}

/// The one-shot signal whose terminal outcome a fact reports, if any.
pub open spec fn released_signal(f: AudioRealizationFact) -> Option<u64> {
    match f {
        AudioRealizationFact::NaturalCompletionOneShot { signal_handle, .. } => Some(signal_handle),
        AudioRealizationFact::Diagnostic { signal_handle, .. } => signal_handle,
        _ => None,
    }
}

/// The receipt a fact reads out as.
pub open spec fn receipt_of(f: AudioRealizationFact) -> AudioRealizationFactReceipt {
    match f {
        AudioRealizationFact::NaturalCompletionOneShot { fact_id, sequence, signal_handle } =>
            AudioRealizationFactReceipt {
            present: true,
            kind: AudioRealizationFactKind::NaturalCompletionOneShot,
            fact_id,
            sequence,
            signal_handle,
            voice_value: 0,
            code: AudioDiagnosticCode::NoDiagnostic,
        },
        AudioRealizationFact::NaturalCompletionRetainedVoice { fact_id, sequence, voice_handle } =>
            AudioRealizationFactReceipt {
            present: true,
            kind: AudioRealizationFactKind::NaturalCompletionRetainedVoice,
            fact_id,
            sequence,
            signal_handle: 0,
            voice_value: voice_handle,
            code: AudioDiagnosticCode::NoDiagnostic,
        },
        AudioRealizationFact::Diagnostic { fact_id, code, sequence, signal_handle, voice_handle } =>
            AudioRealizationFactReceipt {
            present: true,
            kind: AudioRealizationFactKind::Diagnostic,
            fact_id,
            sequence,
            signal_handle: match signal_handle {
                Some(s) => s,
                None => 0,
            },
            voice_value: match voice_handle {
                Some(v) => v,
                None => 0,
            },
            code,
        },
    }
}

/// The receipt of an index with no retained fact.
pub open spec fn absent_receipt() -> AudioRealizationFactReceipt {
    AudioRealizationFactReceipt {
        present: false,
        kind: AudioRealizationFactKind::Absent,
        fact_id: 0,
        sequence: 0,
        signal_handle: 0,
        voice_value: 0,
        code: AudioDiagnosticCode::NoDiagnostic,
    }
}

impl AudioRealizationFact {
    /// The host's monotonic identity of this fact.
    pub fn fact_id(&self) -> (id: u64)
        ensures
            id == spec_fact_id(*self),
    {
        match self {
            AudioRealizationFact::NaturalCompletionOneShot { fact_id, .. } => *fact_id,
            AudioRealizationFact::NaturalCompletionRetainedVoice { fact_id, .. } => *fact_id,
            AudioRealizationFact::Diagnostic { fact_id, .. } => *fact_id,
        }
    }

    /// The flat receipt of this fact.
    pub fn receipt(&self) -> (r: AudioRealizationFactReceipt)
        ensures
            r == receipt_of(*self),
    {
        match *self {
            AudioRealizationFact::NaturalCompletionOneShot { fact_id, sequence, signal_handle } =>
                AudioRealizationFactReceipt {
                present: true,
                kind: AudioRealizationFactKind::NaturalCompletionOneShot,
                fact_id,
                sequence,
                signal_handle,
                voice_value: 0,
                code: AudioDiagnosticCode::NoDiagnostic,
            },
            AudioRealizationFact::NaturalCompletionRetainedVoice {
                fact_id,
                sequence,
                voice_handle,
            } => AudioRealizationFactReceipt {
                present: true,
                kind: AudioRealizationFactKind::NaturalCompletionRetainedVoice,
                fact_id,
                sequence,
                signal_handle: 0,
                voice_value: voice_handle,
                code: AudioDiagnosticCode::NoDiagnostic,
            },
            AudioRealizationFact::Diagnostic {
                fact_id,
                code,
                sequence,
                signal_handle,
                voice_handle,
            } => AudioRealizationFactReceipt {
                present: true,
                kind: AudioRealizationFactKind::Diagnostic,
                fact_id,
                sequence,
                signal_handle: match signal_handle {
                    Some(s) => s,
                    None => 0,
                },
                voice_value: match voice_handle {
                    Some(v) => v,
                    None => 0,
                },
                code,
            },
        }
    }
}

/// Fact identities strictly increase along the sequence.
pub open spec fn strictly_ordered(facts: Seq<AudioRealizationFact>) -> bool {
    forall|i: int, j: int|
        0 <= i < j < facts.len() ==> spec_fact_id(facts[i]) < spec_fact_id(facts[j])
}

/// The realization feedback state together with the pending one-shots it
/// releases.
pub struct FeedbackModel {
    pub facts: Seq<AudioRealizationFact>,
    pub renderer_evicted: u64,
    pub local_evicted: u64,
    pub accepted_through: Option<u64>,
    pub one_shots: Map<u64, u64>,
    pub feedback_lost: bool,
}

/// Admits one fact: a fact at or below the last accepted identity is a
/// retried duplicate and ignored; otherwise a full store evicts its oldest
/// fact, a terminal one-shot fact releases its signal, and the fact is
/// appended.
pub open spec fn ingest_one(m: FeedbackModel, f: AudioRealizationFact) -> FeedbackModel {
    if m.accepted_through matches Some(last) && spec_fact_id(f) <= last {
        m
    } else {
        let full = m.facts.len() == MAX_AUDIO_REALIZATION_FACTS;
        let kept = if full {
            m.facts.drop_first()
        } else {
            m.facts
        };
        FeedbackModel {
            facts: kept.push(f),
            local_evicted: if full {
                if m.local_evicted == u64::MAX {
                    u64::MAX
                } else {
                    (m.local_evicted + 1) as u64
                }
            } else {
                m.local_evicted
            },
            accepted_through: Some(spec_fact_id(f)),
            one_shots: match released_signal(f) {
                Some(s) => m.one_shots.remove(s),
                None => m.one_shots,
            },
            ..m
        }
    }
}

/// Admits a batch of facts in order.
pub open spec fn ingest_all(m: FeedbackModel, fs: Seq<AudioRealizationFact>) -> FeedbackModel
    decreases fs.len(),
{
    if fs.len() == 0 {
        m
    } else {
        ingest_one(ingest_all(m, fs.drop_last()), fs.last())
    }
}

/// The state before a batch is admitted: a replaced owner starts afresh with
/// the host's eviction count and cancels pending one-shots; otherwise a
/// larger host eviction count is recorded and, if any one-shot is pending,
/// marks its terminal feedback as possibly lost.
pub open spec fn ingest_prelude(m: FeedbackModel, replace_owner: bool, evicted: u64) -> FeedbackModel {
    if replace_owner {
        FeedbackModel {
            facts: Seq::empty(),
            renderer_evicted: evicted,
            local_evicted: 0,
            accepted_through: None,
            one_shots: Map::empty(),
            feedback_lost: false,
        }
    } else if evicted > m.renderer_evicted {
        FeedbackModel {
            renderer_evicted: evicted,
            feedback_lost: m.one_shots.dom().len() != 0,
            ..m
        }
    } else {
        m
    }
}

/// At most this many bytes per admitted clip.
pub const MAX_AUDIO_RESOURCE_BYTES: usize = 8388608;

/// At most this many admitted clips.
pub const MAX_AUDIO_RESOURCE_COUNT: usize = 64;

/// At most this many admitted clip bytes in total.
pub const MAX_AUDIO_RESOURCE_TOTAL_BYTES: usize = 33554432;

/// The largest integer a JSON number holds exactly; signal handles stay at
/// or below it.
pub const JSON_SAFE_U64_MAX: u64 = 9007199254740991;

/// An admitted audio clip: its renderer asset, content hash, WAV timing,
/// immutable resource, and number of product owners.
pub struct AudioClip {
    asset: String,
    content_hash: String,
    timing: Option<WavTiming>,
    resource: CsharpRenderResource,
    owners: u32,
}

/// The abstract value of a clip.
pub struct AudioClipView {
    pub asset: Seq<char>,
    pub content_hash: Seq<char>,
    pub timing: Option<WavTiming>,
    pub resource: RenderResourceView,
    pub owners: u32,
}

impl View for AudioClip {
    type V = AudioClipView;

    closed spec fn view(&self) -> AudioClipView {
        AudioClipView {
            asset: self.asset@,
            content_hash: self.content_hash@,
            timing: self.timing,
            resource: self.resource@,
            owners: self.owners,
        }
    }
}

impl AudioClip {
    /// The renderer asset name of the clip.
    pub fn asset(&self) -> (s: &str)
        ensures
            s@ == self@.asset,
    {
        self.asset.as_str()
    }

    /// The content hash of the clip.
    pub fn content_hash(&self) -> (s: &str)
        ensures
            s@ == self@.content_hash,
    {
        self.content_hash.as_str()
    }

    /// The WAV timing of the clip, if its body has one.
    pub fn timing(&self) -> (t: Option<WavTiming>)
        ensures
            t == self@.timing,
    {
        self.timing
    }

    /// The immutable resource of the clip.
    pub fn resource(&self) -> (r: &CsharpRenderResource)
        ensures
            r@ == self@.resource,
    {
        &self.resource
    }

    /// The number of product owners of the clip.
    pub fn owners(&self) -> (n: u32)
        ensures
            n == self@.owners,
    {
        self.owners
    }
}

/// The total body size of a sequence of clips.
pub open spec fn total_clip_bytes(clips: Seq<AudioClipView>) -> int
    decreases clips.len(),
{
    if clips.len() == 0 {
        0
    } else {
        total_clip_bytes(clips.drop_last()) + clips.last().resource.bytes.len()
    }
}

proof fn lemma_total_update(s: Seq<AudioClipView>, i: int, c: AudioClipView)
    requires
        0 <= i < s.len(),
        c.resource.bytes.len() == s[i].resource.bytes.len(),
    ensures
        total_clip_bytes(s.update(i, c)) == total_clip_bytes(s),
    decreases s.len(),
{
    if i < s.len() - 1 {
        lemma_total_update(s.drop_last(), i, c);
        assert(s.update(i, c).drop_last() =~= s.drop_last().update(i, c));
    } else {
        assert(s.update(i, c).drop_last() =~= s.drop_last());
    }
}

proof fn lemma_total_remove(s: Seq<AudioClipView>, i: int)
    requires
        0 <= i < s.len(),
    ensures
        total_clip_bytes(s.remove(i)) == total_clip_bytes(s) - s[i].resource.bytes.len(),
    decreases s.len(),
{
    if i < s.len() - 1 {
        lemma_total_remove(s.drop_last(), i);
        assert(s.remove(i).drop_last() =~= s.drop_last().remove(i));
    } else {
        assert(s.remove(i) =~= s.drop_last());
    }
}

/// The audio resource admitted from `bytes` at the browser path `path`.
pub open spec fn audio_resource_view(path: Seq<char>, bytes: Seq<u8>) -> RenderResourceView {
    RenderResourceView {
        kind: CsharpRenderResourceKind::Audio,
        identity: "audio-resource/"@ + digest_hex(bytes),
        asset_identity: "audio-resource/"@ + digest_hex(bytes),
        content_hash: content_hash_text(bytes),
        path,
        bytes,
    }
}

/// A clip newly admitted from `bytes` at the browser path `path`, with one
/// owner.
pub open spec fn new_clip_view(path: Seq<char>, bytes: Seq<u8>) -> AudioClipView {
    AudioClipView {
        asset: "audio/"@ + digest_hex(bytes),
        content_hash: content_hash_text(bytes),
        timing: wav_timing_of(bytes),
        resource: audio_resource_view(path, bytes),
        owners: 1,
    }
}

/// Some admitted clip carries this resource identity.
pub open spec fn has_clip_identity(clips: Map<u64, AudioClipView>, identity: Seq<char>) -> bool {
    exists|h: u64| clips.dom().contains(h) && clips[h].resource.identity == identity
}

/// The admitted clip with this resource identity.
pub open spec fn clip_with_identity(clips: Map<u64, AudioClipView>, identity: Seq<char>) -> u64 {
    choose|h: u64| clips.dom().contains(h) && clips[h].resource.identity == identity
}

/// Some live handle of `uses` maps to `clip`.
pub open spec fn uses_clip(uses: Map<u64, u64>, clip: u64) -> bool {
    exists|k: u64| uses.dom().contains(k) && uses[k] == clip
}

/// Whether one more body of `len` bytes fits the clip budget.
pub open spec fn clip_budget_allows(count: int, total: int, len: int) -> bool {
    &&& len <= MAX_AUDIO_RESOURCE_BYTES
    &&& count < MAX_AUDIO_RESOURCE_COUNT
    &&& total + len <= MAX_AUDIO_RESOURCE_TOTAL_BYTES
}

/// The fixed mixing buses of the browser audio host.
#[derive(Debug, Clone, Copy, PartialEq, Eq, Structural)]
pub enum AudioBus {
    Sfx,
    Ambient,
    Ui,
}

/// The outcome of an optional clip preload.
#[derive(Debug, Clone, Copy, PartialEq, Eq, Structural)]
pub enum AudioOptionalPreloadOutcome {
    Admitted,
    SkippedMissing,
    SkippedCapacity,
}

/// The receipt of an optional preload: its outcome, the admitted clip
/// (zero when skipped), and the budget after it.
#[derive(Debug, Clone, Copy, PartialEq, Eq, Structural)]
pub struct AudioOptionalPreloadReceipt {
    pub outcome: AudioOptionalPreloadOutcome,
    pub clip: u64,
    pub admitted_clip_count: u32,
    pub admitted_bytes: u64,
    pub max_clip_count: u32,
    pub max_total_bytes: u64,
}

/// Where the body of a requested clip comes from.
pub enum ClipSourceView {
    /// Retained or loose content: its relative path and body.
    Found { path: Seq<char>, bytes: Seq<u8> },
    /// Retained content without a canonical path.
    MissingPath,
    /// Neither retained nor loose content.
    Unknown,
}

/// The clip source of retained content.
pub open spec fn retained_source(c: ContentView) -> ClipSourceView {
    if c.path.len() == 0 {
        ClipSourceView::MissingPath
    } else {
        ClipSourceView::Found { path: c.path, bytes: c.bytes }
    }
}

/// The catalog of a composed content owner, if one is bound.
pub open spec fn catalog_of(content: Option<&ContentCatalog>) -> Option<Map<Seq<char>, ContentView>> {
    match content {
        Some(c) => Some(c.catalog_view()),
        None => None,
    }
}

/// The clip source of a requested path: one leading `content/` is
/// removed; the catalog of retained content is consulted first, then the
/// product's loose content resources.
pub open spec fn path_source(
    catalog: Option<Map<Seq<char>, ContentView>>,
    resources: Map<Seq<char>, Seq<u8>>,
    requested: Seq<char>,
) -> ClipSourceView {
    let relative = strip_content(requested);
    let key = strip_content(relative);
    if catalog is Some && catalog->0.dom().contains(key) {
        retained_source(catalog->0[key])
    } else if resources.dom().contains(relative) {
        ClipSourceView::Found { path: relative, bytes: resources[relative] }
    } else {
        ClipSourceView::Unknown
    }
}

/// A located clip body matches its source, and a failure carries the
/// source's error code.
pub open spec fn source_result(
    src: ClipSourceView,
    r: Result<(String, Arc<Vec<u8>>), CsharpEngineServicesError>,
) -> bool {
    match src {
        ClipSourceView::Found { path, bytes } => r matches Ok(v) && v.0@ == path && v.1@ == bytes,
        ClipSourceView::MissingPath => r matches Err(e) && e.code_view()
            == "CSHARP_AUDIO_RESOURCE_PATH"@,
        ClipSourceView::Unknown => r matches Err(e) && e.code_view()
            == "CSHARP_AUDIO_RESOURCE_UNKNOWN"@,
    }
}

fn clip_source_from_retained(content: &AdmittedContent) -> (r: Result<
    (String, Arc<Vec<u8>>),
    CsharpEngineServicesError,
>)
    ensures
        source_result(retained_source(content@), r),
{
    let path = content.path();
    if path.unicode_len() == 0 {
        return Err(
            CsharpEngineServicesError::new(
                "CSHARP_AUDIO_RESOURCE_PATH",
                String::from_str("audio content reference has no canonical path"),
            ),
        );
    }
    Ok((path.to_owned(), content.bytes()))
}

/// Looks a requested clip path up in retained content, then in the
/// product's loose content resources; `None` when neither holds it.
fn locate_clip(
    content: Option<&ContentCatalog>,
    resources: &TextTable<Arc<Vec<u8>>>,
    requested_path: &str,
) -> (r: Option<Result<(String, Arc<Vec<u8>>), CsharpEngineServicesError>>)
    requires
        content matches Some(c) ==> c.wf(),
        resources.wf(),
    ensures
        r is None <==> path_source(catalog_of(content), files_view(*resources), requested_path@) is Unknown,
        r matches Some(x) ==> source_result(
            path_source(catalog_of(content), files_view(*resources), requested_path@),
            x,
        ),
{
    let relative = strip_content_prefix(requested_path);
    let retained = match content {
        Some(c) => c.retained_path(relative.as_str()),
        None => None,
    };
    match retained {
        Some(found) => Some(clip_source_from_retained(&found)),
        None => match resources.get(&relative) {
            Some(bytes) => Some(Ok((relative.clone(), share(bytes)))),
            None => None,
        },
    }
}

/// Locates the body of a requested clip path in retained content, then in
/// the product's loose content resources.
pub fn clip_source_from_path(
    content: Option<&ContentCatalog>,
    resources: &TextTable<Arc<Vec<u8>>>,
    requested_path: &str,
) -> (r: Result<(String, Arc<Vec<u8>>), CsharpEngineServicesError>)
    requires
        content matches Some(c) ==> c.wf(),
        resources.wf(),
    ensures
        source_result(path_source(catalog_of(content), files_view(*resources), requested_path@), r),
{
    match locate_clip(content, resources, requested_path) {
        Some(found) => found,
        None => Err(
            CsharpEngineServicesError::new(
                "CSHARP_AUDIO_RESOURCE_UNKNOWN",
                String::from_str("product content has no audio resource at the requested path"),
            ),
        ),
    }
}

/// The clip source of a retained content reference.
pub open spec fn reference_source(
    catalog: Option<Map<u64, ContentView>>,
    reference: u64,
) -> Option<ClipSourceView> {
    if catalog is Some && catalog->0.dom().contains(reference) {
        Some(retained_source(catalog->0[reference]))
    } else {
        None
    }
}

/// The retained references of a composed content owner, if one is bound.
pub open spec fn references_of(content: Option<&ContentCatalog>) -> Option<Map<u64, ContentView>> {
    match content {
        Some(c) => Some(c.references_view()),
        None => None,
    }
}

/// Locates the body of a clip in a retained content reference.
pub fn clip_source_from_reference(content: Option<&ContentCatalog>, reference: u64) -> (r: Result<
    (String, Arc<Vec<u8>>),
    CsharpEngineServicesError,
>)
    requires
        content matches Some(c) ==> c.wf(),
    ensures
        match reference_source(references_of(content), reference) {
            Some(src) => source_result(src, r),
            None => r matches Err(e) && e.code_view() == "CSHARP_AUDIO_CONTENT"@,
        },
{
    let c = match content {
        Some(c) => c,
        None => {
            return Err(
                CsharpEngineServicesError::new(
                    "CSHARP_AUDIO_CONTENT",
                    String::from_str("audio content references are not composed"),
                ),
            );
        },
    };
    match c.retained_content(reference) {
        Some(found) => clip_source_from_retained(&found),
        None => Err(
            CsharpEngineServicesError::new(
                "CSHARP_AUDIO_CONTENT",
                String::from_str("audio content reference is not retained"),
            ),
        ),
    }
}

/// The Engine's audio clips, voices and pending one-shot signals, with the
/// browser realization feedback that releases one-shots.
pub struct AudioLedger {
    clips: HandleTable<AudioClip>,
    voice_clips: HandleTable<u64>,
    voice_buses: HandleTable<AudioBus>,
    one_shot_clips: HandleTable<u64>,
    one_shot_feedback_lost: bool,
    next_clip: u64,
    next_voice: u64,
    next_signal: u64,
    realized_facts: Vec<AudioRealizationFact>,
    renderer_evicted_fact_count: u64,
    local_evicted_fact_count: u64,
    accepted_through_fact_id: Option<u64>,
}

impl AudioLedger {
    /// The admitted clips, by handle.
    pub closed spec fn clips_view(&self) -> Map<u64, AudioClipView> {
        self.clips@.map_values(|c: AudioClip| c@)
    }

    /// The admitted clips in handle order.
    pub closed spec fn clip_seq(&self) -> Seq<AudioClipView> {
        self.clips.vals_seq().map_values(|c: AudioClip| c@)
    }

    /// The live retained voices and the clip each plays.
    pub closed spec fn voices_view(&self) -> Map<u64, u64> {
        self.voice_clips@
    }

    /// The bus each live retained voice plays on.
    pub closed spec fn voice_buses_view(&self) -> Map<u64, AudioBus> {
        self.voice_buses@
    }

    /// The emitted one-shot signals still awaiting a terminal fact, and the
    /// clip each plays.
    pub closed spec fn one_shots_view(&self) -> Map<u64, u64> {
        self.one_shot_clips@
    }

    /// The handles the next clip, voice and signal receive.
    pub closed spec fn next_clip_view(&self) -> u64 {
        self.next_clip
    }

    pub closed spec fn next_voice_view(&self) -> u64 {
        self.next_voice
    }

    pub closed spec fn next_signal_view(&self) -> u64 {
        self.next_signal
    }

    /// The realization feedback and the one-shots it can release.
    pub closed spec fn feedback_view(&self) -> FeedbackModel {
        FeedbackModel {
            facts: self.realized_facts@,
            renderer_evicted: self.renderer_evicted_fact_count,
            local_evicted: self.local_evicted_fact_count,
            accepted_through: self.accepted_through_fact_id,
            one_shots: self.one_shot_clips@,
            feedback_lost: self.one_shot_feedback_lost,
        }
    }

    /// Tables are well formed; handles are never reused; the clip budget
    /// holds; every voice and pending one-shot plays a live clip; the
    /// feedback store is bounded and strictly ordered.
    pub closed spec fn wf(&self) -> bool {
        &&& self.clips.wf()
        &&& self.voice_clips.wf()
        &&& self.voice_buses.wf()
        &&& self.voice_buses@.dom() == self.voice_clips@.dom()
        &&& self.one_shot_clips.wf()
        &&& self.clips.all_below(self.next_clip)
        &&& self.voice_clips.all_below(self.next_voice)
        &&& self.one_shot_clips.all_below(self.next_signal)
        &&& 1 <= self.next_clip && 1 <= self.next_voice && 1 <= self.next_signal
        &&& self.clips.keys_seq().len() <= MAX_AUDIO_RESOURCE_COUNT
        &&& total_clip_bytes(self.clip_seq()) <= MAX_AUDIO_RESOURCE_TOTAL_BYTES
        &&& forall|h: u64| #[trigger]
            self.clips@.dom().contains(h) ==> self.clips@[h]@.owners >= 1
                && self.clips@[h]@.resource.bytes.len() <= MAX_AUDIO_RESOURCE_BYTES
        &&& forall|a: u64, b: u64|
            #![trigger self.clips@[a], self.clips@[b]]
            self.clips@.dom().contains(a) && self.clips@.dom().contains(b) && a != b
                ==> self.clips@[a]@.resource.identity != self.clips@[b]@.resource.identity
        &&& forall|v: u64| #[trigger]
            self.voice_clips@.dom().contains(v) ==> self.clips@.dom().contains(self.voice_clips@[v])
        &&& forall|s: u64| #[trigger]
            self.one_shot_clips@.dom().contains(s) ==> self.clips@.dom().contains(
                self.one_shot_clips@[s],
            )
        &&& self.realized_facts@.len() <= MAX_AUDIO_REALIZATION_FACTS
        &&& strictly_ordered(self.realized_facts@)
        &&& self.realized_facts@.len() > 0 ==> self.accepted_through_fact_id == Some(
            spec_fact_id(self.realized_facts@.last()),
        )
    }

    /// An empty ledger whose handles start at one.
    pub fn new() -> (l: Self)
        ensures
            l.wf(),
            l.clips_view() == Map::<u64, AudioClipView>::empty(),
            l.voices_view() == Map::<u64, u64>::empty(),
            l.one_shots_view() == Map::<u64, u64>::empty(),
            l.next_clip_view() == 1,
            l.next_voice_view() == 1,
            l.next_signal_view() == 1,
            l.feedback_view() == (FeedbackModel {
                facts: Seq::empty(),
                renderer_evicted: 0,
                local_evicted: 0,
                accepted_through: None,
                one_shots: Map::empty(),
                feedback_lost: false,
            }),
    {
        let l = AudioLedger {
            clips: HandleTable::new(),
            voice_clips: HandleTable::new(),
            voice_buses: HandleTable::new(),
            one_shot_clips: HandleTable::new(),
            one_shot_feedback_lost: false,
            next_clip: 1,
            next_voice: 1,
            next_signal: 1,
            realized_facts: Vec::new(),
            renderer_evicted_fact_count: 0,
            local_evicted_fact_count: 0,
            accepted_through_fact_id: None,
        };
        assert(l.voice_buses@.dom() =~= l.voice_clips@.dom());
        assert(l.clips_view() =~= Map::<u64, AudioClipView>::empty());
        assert(l.clip_seq() =~= Seq::<AudioClipView>::empty());
        assert(l.feedback_view().facts =~= Seq::<AudioRealizationFact>::empty());
        l
    }

    /// The audio budgets hold in every state the ledger reaches: at most
    /// `MAX_AUDIO_RESOURCE_COUNT` clips, each at most
    /// `MAX_AUDIO_RESOURCE_BYTES` long, together at most
    /// `MAX_AUDIO_RESOURCE_TOTAL_BYTES`. Every operation keeps `wf`, so no
    /// admission can break them.
    pub proof fn lemma_audio_budgets_hold(&self)
        requires
            self.wf(),
        ensures
            self.clips_view().dom().finite(),
            self.clips_view().dom().len() <= MAX_AUDIO_RESOURCE_COUNT,
            self.clip_seq().len() == self.clips_view().dom().len(),
            total_clip_bytes(self.clip_seq()) <= MAX_AUDIO_RESOURCE_TOTAL_BYTES,
            forall|h: u64| #[trigger]
                self.clips_view().dom().contains(h) ==> self.clips_view()[h].resource.bytes.len()
                    <= MAX_AUDIO_RESOURCE_BYTES,
    {
        self.clips.lemma_len();
        assert(self.clips_view().dom() =~= self.clips@.dom());
        assert forall|h: u64| #[trigger]
            self.clips_view().dom().contains(h) implies self.clips_view()[h].resource.bytes.len()
                <= MAX_AUDIO_RESOURCE_BYTES by {
            assert(self.clips@.dom().contains(h));
        }
    }

    /// Voices, one-shots, feedback and the voice and signal counters are
    /// unchanged.
    pub open spec fn same_except_clips(&self, other: &Self) -> bool {
        &&& self.feedback_view() == other.feedback_view()
        &&& self.voices_view() == other.voices_view()
        &&& self.voice_buses_view() == other.voice_buses_view()
        &&& self.next_voice_view() == other.next_voice_view()
        &&& self.next_signal_view() == other.next_signal_view()
    }

    /// Clips, voices and the handle counters are unchanged.
    pub open spec fn same_ownership(&self, other: &Self) -> bool {
        &&& self.clips_view() == other.clips_view()
        &&& self.clip_seq() == other.clip_seq()
        &&& self.voices_view() == other.voices_view()
        &&& self.voice_buses_view() == other.voice_buses_view()
        &&& self.next_clip_view() == other.next_clip_view()
        &&& self.next_voice_view() == other.next_voice_view()
        &&& self.next_signal_view() == other.next_signal_view()
    }

    /// Admits a browser-owned feedback snapshot between product calls. The
    /// batch holds at most 128 strictly ordered facts; retried facts are
    /// ignored by their monotonic identities, the retained store stays
    /// bounded, and terminal one-shot facts release their signals' clips.
    pub fn ingest_realized_feedback(
        &mut self,
        replace_owner: bool,
        evicted_fact_count: u64,
        facts: Vec<AudioRealizationFact>,
    ) -> (r: Result<(), CsharpEngineServicesError>)
        requires
            old(self).wf(),
        ensures
            final(self).wf(),
            r is Ok <==> facts@.len() <= MAX_AUDIO_REALIZATION_FACTS && strictly_ordered(facts@),
            r is Err ==> *final(self) == *old(self),
            r matches Err(e) ==> e.code_view() == "CSHARP_AUDIO_REALIZATION_BOUNDS"@,
            r is Ok ==> final(self).feedback_view() == ingest_all(
                ingest_prelude(old(self).feedback_view(), replace_owner, evicted_fact_count),
                facts@,
            ),
            final(self).same_ownership(old(self)),
    {
        let n = facts.len();
        let mut ordered = n <= MAX_AUDIO_REALIZATION_FACTS;
        let mut k: usize = 1;
        while ordered && k < n
            invariant
                n == facts@.len(),
                1 <= k,
                ordered ==> n <= MAX_AUDIO_REALIZATION_FACTS,
                ordered ==> forall|i: int, j: int|
                    0 <= i < j < k && j < n ==> spec_fact_id(facts@[i]) < spec_fact_id(facts@[j]),
                !ordered ==> !(n <= MAX_AUDIO_REALIZATION_FACTS && strictly_ordered(facts@)),
            decreases n - k,
        {
            if facts[k - 1].fact_id() >= facts[k].fact_id() {
                ordered = false;
            }
            k = k + 1;
        }
        if !ordered {
            return Err(
                CsharpEngineServicesError::new(
                    "CSHARP_AUDIO_REALIZATION_BOUNDS",
                    String::from_str(
                        "audio realization feedback must contain at most 128 strictly ordered facts",
                    ),
                ),
            );
        }
        assert(strictly_ordered(facts@));
        let ghost start = ingest_prelude(self.feedback_view(), replace_owner, evicted_fact_count);
        if replace_owner {
            self.realized_facts = Vec::new();
            self.renderer_evicted_fact_count = evicted_fact_count;
            self.local_evicted_fact_count = 0;
            self.accepted_through_fact_id = None;
            self.one_shot_clips = HandleTable::new();
            self.one_shot_feedback_lost = false;
        } else if evicted_fact_count > self.renderer_evicted_fact_count {
            self.renderer_evicted_fact_count = evicted_fact_count;
            let pending = self.one_shot_clips.len();
            self.one_shot_feedback_lost = pending != 0;
        }
        assert(self.feedback_view().facts =~= start.facts);
        assert(self.feedback_view().one_shots =~= start.one_shots);
        let mut i: usize = 0;
        while i < n
            invariant
                self.wf(),
                self.same_ownership(old(self)),
                n == facts@.len(),
                i <= n,
                strictly_ordered(facts@),
                self.feedback_view() == ingest_all(start, facts@.subrange(0, i as int)),
            decreases n - i,
        {
            let f = facts[i];
            let ghost before = self.feedback_view();
            proof {
                let next = facts@.subrange(0, i + 1);
                assert(next.drop_last() =~= facts@.subrange(0, i as int));
                assert(next.last() == f);
            }
            let id = f.fact_id();
            let duplicate = match self.accepted_through_fact_id {
                Some(last) => id <= last,
                None => false,
            };
            if !duplicate {
                if self.realized_facts.len() == MAX_AUDIO_REALIZATION_FACTS {
                    self.realized_facts.remove(0);
                    self.local_evicted_fact_count = self.local_evicted_fact_count.saturating_add(1);
                }
                match f {
                    AudioRealizationFact::NaturalCompletionOneShot { signal_handle, .. } => {
                        self.one_shot_clips.remove(signal_handle);
                    },
                    AudioRealizationFact::Diagnostic { signal_handle: Some(signal_handle), .. } => {
                        self.one_shot_clips.remove(signal_handle);
                    },
                    _ => {},
                }
                let ghost kept = self.realized_facts@;
                self.realized_facts.push(f);
                self.accepted_through_fact_id = Some(id);
                proof {
                    assert(ingest_one(before, f).facts =~= self.realized_facts@);
                    assert forall|a: int, b: int|
                        0 <= a < b < self.realized_facts@.len() implies spec_fact_id(
                        self.realized_facts@[a],
                    ) < spec_fact_id(self.realized_facts@[b]) by {
                        if b == self.realized_facts@.len() - 1 && before.facts.len() > 0 {
                            let last = before.facts.len() - 1;
                            if kept.len() < before.facts.len() {
                                assert(kept[a] == before.facts[a + 1]);
                                if a + 1 < last {
                                    assert(spec_fact_id(before.facts[a + 1]) < spec_fact_id(
                                        before.facts[last],
                                    ));
                                }
                            } else {
                                assert(kept[a] == before.facts[a]);
                                if a < last {
                                    assert(spec_fact_id(before.facts[a]) < spec_fact_id(
                                        before.facts[last],
                                    ));
                                }
                            }
                        } else if b < self.realized_facts@.len() - 1 {
                            if kept.len() < before.facts.len() {
                                assert(kept[a] == before.facts[a + 1]);
                                assert(kept[b] == before.facts[b + 1]);
                            }
                        }
                    }
                }
            }
            i = i + 1;
        }
        assert(facts@.subrange(0, n as int) =~= facts@);
        Ok(())
    }

    /// Clears realization feedback when the runtime binding changes: the
    /// browser audio owner is reset, cancelling outstanding one-shots.
    pub fn reset_realized_feedback(&mut self)
        requires
            old(self).wf(),
        ensures
            final(self).wf(),
            final(self).feedback_view() == ingest_prelude(old(self).feedback_view(), true, 0),
            final(self).same_ownership(old(self)),
    {
        self.realized_facts = Vec::new();
        self.renderer_evicted_fact_count = 0;
        self.local_evicted_fact_count = 0;
        self.accepted_through_fact_id = None;
        self.one_shot_clips = HandleTable::new();
        self.one_shot_feedback_lost = false;
        assert(self.feedback_view().facts =~= Seq::<AudioRealizationFact>::empty());
    }

    /// The retained fact count and the cumulative evicted count: the
    /// host's own evictions plus this store's.
    pub fn read_realization(&self) -> (r: AudioRealizationReadout)
        requires
            self.wf(),
        ensures
            r.retained_fact_count == self.feedback_view().facts.len(),
            r.evicted_fact_count == (if self.feedback_view().renderer_evicted
                + self.feedback_view().local_evicted > u64::MAX {
                u64::MAX as int
            } else {
                self.feedback_view().renderer_evicted + self.feedback_view().local_evicted
            }),
    {
        AudioRealizationReadout {
            retained_fact_count: self.realized_facts.len() as u32,
            evicted_fact_count: self.renderer_evicted_fact_count.saturating_add(
                self.local_evicted_fact_count,
            ),
        }
    }

    /// The receipt of the retained fact at `index`, oldest first.
    pub fn read_realization_fact_at(&self, index: u32) -> (r: AudioRealizationFactReceipt)
        requires
            self.wf(),
        ensures
            r == (if index < self.feedback_view().facts.len() {
                receipt_of(self.feedback_view().facts[index as int])
            } else {
                absent_receipt()
            }),
    {
        if (index as usize) < self.realized_facts.len() {
            self.realized_facts[index as usize].receipt()
        } else {
            AudioRealizationFactReceipt {
                present: false,
                kind: AudioRealizationFactKind::Absent,
                fact_id: 0,
                sequence: 0,
                signal_handle: 0,
                voice_value: 0,
                code: AudioDiagnosticCode::NoDiagnostic,
            }
        }
    }

    /// The number of admitted clips, whose resources the renderer keeps.
    pub fn clip_count(&self) -> (n: usize)
        requires
            self.wf(),
        ensures
            n == self.clips_view().dom().len(),
    {
        proof {
            self.clips.lemma_len();
            assert(self.clips_view().dom() =~= self.clips@.dom());
        }
        self.clips.len()
    }

    /// The admitted clip under a handle, if any.
    pub fn clip(&self, clip: u64) -> (r: Option<&AudioClip>)
        requires
            self.wf(),
        ensures
            r is Some <==> self.clips_view().dom().contains(clip),
            r matches Some(c) ==> c@ == self.clips_view()[clip],
    {
        self.clips.get(clip)
    }

    /// The total body size of the admitted clips.
    pub fn total_bytes(&self) -> (t: usize)
        requires
            self.wf(),
        ensures
            t == total_clip_bytes(self.clip_seq()),
    {
        let n = self.clips.len();
        let mut acc: usize = 0;
        let mut i: usize = 0;
        while i < n
            invariant
                self.wf(),
                n == self.clips.keys_seq().len(),
                n <= MAX_AUDIO_RESOURCE_COUNT,
                i <= n,
                acc == total_clip_bytes(self.clip_seq().subrange(0, i as int)),
                acc <= i * MAX_AUDIO_RESOURCE_BYTES,
            decreases n - i,
        {
            let clip = self.clips.value_at(i);
            proof {
                self.clips.lemma_entry(i as int);
                let k = self.clips.keys_seq()[i as int];
                assert(self.clips@.dom().contains(k));
                let next = self.clip_seq().subrange(0, i + 1);
                assert(next.drop_last() =~= self.clip_seq().subrange(0, i as int));
            }
            acc = acc + clip.resource().bytes().len();
            i = i + 1;
        }
        assert(self.clip_seq().subrange(0, n as int) =~= self.clip_seq());
        acc
    }

    /// The admitted clip whose resource has the same identity, if any.
    fn find_identity(&self, resource: &CsharpRenderResource) -> (r: Option<u64>)
        requires
            self.wf(),
        ensures
            r is Some <==> has_clip_identity(self.clips_view(), resource@.identity),
            r matches Some(h) ==> h == clip_with_identity(self.clips_view(), resource@.identity)
                && self.clips_view().dom().contains(h),
    {
        let n = self.clips.len();
        let mut i: usize = 0;
        while i < n
            invariant
                self.wf(),
                n == self.clips.keys_seq().len(),
                i <= n,
                forall|j: int|
                    0 <= j < i ==> self.clips.vals_seq()[j]@.resource.identity
                        != resource@.identity,
            decreases n - i,
        {
            if self.clips.value_at(i).resource().same_identity(resource) {
                let h = self.clips.key_at(i);
                proof {
                    self.clips.lemma_entry(i as int);
                    let c = clip_with_identity(self.clips_view(), resource@.identity);
                    assert(self.clips_view().dom().contains(h));
                    if c != h {
                        assert(self.clips@[c]@.resource.identity != self.clips@[h]@.resource.identity);
                    }
                }
                return Some(h);
            }
            i = i + 1;
        }
        proof {
            assert forall|h: u64| self.clips_view().dom().contains(h) implies self.clips_view()[h].resource.identity
                != resource@.identity by {
                let j = self.clips.lemma_key(h);
            }
        }
        None
    }

    /// Sets the owner count of an admitted clip.
    fn set_owners(&mut self, h: u64, owners: u32)
        requires
            old(self).wf(),
            old(self).clips_view().dom().contains(h),
            owners >= 1,
        ensures
            final(self).wf(),
            final(self).same_except_clips(old(self)),
            final(self).next_clip_view() == old(self).next_clip_view(),
            final(self).clips_view() == old(self).clips_view().insert(
                h,
                AudioClipView { owners, ..old(self).clips_view()[h] },
            ),
    {
        let clip = self.clips.get(h).unwrap();
        let updated = AudioClip {
            asset: clip.asset.clone(),
            content_hash: clip.content_hash.clone(),
            timing: clip.timing,
            resource: clip.resource.duplicate(),
            owners,
        };
        let ghost before = *self;
        let ghost uv = updated@;
        self.clips.set_value(h, updated);
        proof {
            assert(self.clips_view() =~= before.clips_view().insert(h, uv));
            let i = choose|i: int|
                0 <= i < before.clips.keys_seq().len() && before.clips.keys_seq()[i] == h
                    && self.clips.vals_seq() == before.clips.vals_seq().update(i, updated);
            before.clips.lemma_entry(i);
            assert(self.clip_seq() =~= before.clip_seq().update(i, uv));
            lemma_total_update(before.clip_seq(), i, uv);
            assert forall|a: u64, b: u64|
                #![trigger self.clips@[a], self.clips@[b]]
                self.clips@.dom().contains(a) && self.clips@.dom().contains(b) && a != b
                    implies self.clips@[a]@.resource.identity != self.clips@[b]@.resource.identity by {
                assert(before.clips@[a]@.resource.identity != before.clips@[b]@.resource.identity);
            }
        }
    }

    /// Adds one owner to an admitted clip.
    fn acquire(&mut self, h: u64) -> (r: Result<u64, CsharpEngineServicesError>)
        requires
            old(self).wf(),
            old(self).clips_view().dom().contains(h),
        ensures
            final(self).wf(),
            final(self).same_except_clips(old(self)),
            final(self).next_clip_view() == old(self).next_clip_view(),
            r is Ok <==> old(self).clips_view()[h].owners < u32::MAX,
            r is Err ==> *final(self) == *old(self),
            r matches Err(e) ==> e.code_view() == "CSHARP_AUDIO_CLIP_OWNERS"@,
            r matches Ok(v) ==> v == h && final(self).clips_view() == old(self).clips_view().insert(
                h,
                AudioClipView { owners: (old(self).clips_view()[h].owners + 1) as u32, ..old(self).clips_view()[h] },
            ),
    {
        let owners = self.clips.get(h).unwrap().owners;
        if owners == u32::MAX {
            return Err(
                CsharpEngineServicesError::new(
                    "CSHARP_AUDIO_CLIP_OWNERS",
                    String::from_str("audio clip owner count exhausted"),
                ),
            );
        }
        self.set_owners(h, owners + 1);
        Ok(h)
    }

    /// What admitting the body `bytes` from `content/<relative>` does:
    /// an unadmissible body is refused; a body whose identity is admitted
    /// gains an owner; a new body must fit the per-clip, count and total
    /// budgets and a free clip handle, and is then admitted with one owner.
    pub open spec fn admission(
        pre: Self,
        post: Self,
        relative: Seq<char>,
        bytes: Seq<u8>,
        r: Result<u64, CsharpEngineServicesError>,
    ) -> bool {
        let browser = content_prefix_chars() + relative;
        let identity = "audio-resource/"@ + digest_hex(bytes);
        let clips = pre.clips_view();
        let len = bytes.len() as int;
        if !audio_admissible(browser, bytes) {
            r matches Err(e) && e.code_view() == audio_refusal_code(browser, bytes)
        } else if has_clip_identity(clips, identity) {
            let h = clip_with_identity(clips, identity);
            &&& r is Ok <==> clips[h].owners < u32::MAX
            &&& r matches Err(e) ==> e.code_view() == "CSHARP_AUDIO_CLIP_OWNERS"@
            &&& r matches Ok(v) ==> v == h && post.clips_view() == clips.insert(
                h,
                AudioClipView { owners: (clips[h].owners + 1) as u32, ..clips[h] },
            ) && post.next_clip_view() == pre.next_clip_view()
        } else if len > MAX_AUDIO_RESOURCE_BYTES {
            r matches Err(e) && e.code_view() == "CSHARP_AUDIO_RESOURCE_SIZE"@
        } else if clips.dom().len() >= MAX_AUDIO_RESOURCE_COUNT {
            r matches Err(e) && e.code_view() == "CSHARP_AUDIO_RESOURCE_COUNT"@
        } else if total_clip_bytes(pre.clip_seq()) + len
            > MAX_AUDIO_RESOURCE_TOTAL_BYTES {
            r matches Err(e) && e.code_view() == "CSHARP_AUDIO_RESOURCE_TOTAL_SIZE"@
        } else if pre.next_clip_view() == u64::MAX {
            r matches Err(e) && e.code_view() == "CSHARP_AUDIO_CLIP_HANDLE"@
        } else {
            &&& r == Ok::<u64, CsharpEngineServicesError>(pre.next_clip_view())
            &&& post.clips_view() == clips.insert(
                pre.next_clip_view(),
                new_clip_view(browser, bytes),
            )
            &&& post.next_clip_view() == pre.next_clip_view() + 1
        }
    }

    /// Admits an audio clip from product content at `content/<relative>`. A
    /// body whose resource identity is already admitted gains an owner and
    /// keeps its handle; a new body must fit the per-clip, count and total
    /// budgets before it receives the next clip handle with one owner.
    pub fn admit_clip(&mut self, relative_path: &str, bytes: Vec<u8>) -> (r: Result<
        u64,
        CsharpEngineServicesError,
    >)
        requires
            old(self).wf(),
        ensures
            final(self).wf(),
            final(self).same_except_clips(old(self)),
            r is Err ==> *final(self) == *old(self),
            Self::admission(*old(self), *final(self), relative_path@, bytes@, r),
    {
        let browser = with_content_prefix(relative_path);
        let resource = match CsharpRenderResource::admit_audio(browser, bytes) {
            Ok(res) => res,
            Err(e) => return Err(e),
        };
        match self.find_identity(&resource) {
            Some(h) => {
                return self.acquire(h);
            },
            None => {},
        }
        let len = resource.bytes().len();
        if len > MAX_AUDIO_RESOURCE_BYTES {
            return Err(
                CsharpEngineServicesError::new(
                    "CSHARP_AUDIO_RESOURCE_SIZE",
                    String::from_str("audio resource exceeds the Engine audio preload limit"),
                ),
            );
        }
        proof {
            self.clips.lemma_len();
            assert(self.clips_view().dom() =~= self.clips@.dom());
        }
        if self.clips.len() == MAX_AUDIO_RESOURCE_COUNT {
            return Err(
                CsharpEngineServicesError::new(
                    "CSHARP_AUDIO_RESOURCE_COUNT",
                    String::from_str("audio resource count exceeds the Engine browser-host limit"),
                ),
            );
        }
        let total = self.total_bytes();
        if total + len > MAX_AUDIO_RESOURCE_TOTAL_BYTES {
            return Err(
                CsharpEngineServicesError::new(
                    "CSHARP_AUDIO_RESOURCE_TOTAL_SIZE",
                    String::from_str(
                        "audio resources exceed the Engine browser-host total preload limit",
                    ),
                ),
            );
        }
        self.insert_new_clip(resource)
    }

    /// Stores a newly admitted, budget-checked clip under the next handle.
    fn insert_new_clip(&mut self, resource: CsharpRenderResource) -> (r: Result<
        u64,
        CsharpEngineServicesError,
    >)
        requires
            old(self).wf(),
            resource@.kind == CsharpRenderResourceKind::Audio,
            resource@.content_hash == content_hash_text(resource@.bytes),
            resource@.identity == "audio-resource/"@ + digest_hex(resource@.bytes),
            resource@.asset_identity == resource@.identity,
            !has_clip_identity(old(self).clips_view(), resource@.identity),
            clip_budget_allows(
                old(self).clips_view().dom().len() as int,
                total_clip_bytes(old(self).clip_seq()),
                resource@.bytes.len() as int,
            ),
        ensures
            final(self).wf(),
            final(self).same_except_clips(old(self)),
            r is Err ==> *final(self) == *old(self),
            r is Ok <==> old(self).next_clip_view() < u64::MAX,
            r matches Err(e) ==> e.code_view() == "CSHARP_AUDIO_CLIP_HANDLE"@,
            r matches Ok(h) ==> h == old(self).next_clip_view() && final(self).next_clip_view() == h
                + 1 && final(self).clips_view() == old(self).clips_view().insert(
                h,
                new_clip_view(resource@.path, resource@.bytes),
            ),
    {
        let handle = self.next_clip;
        if handle == u64::MAX {
            return Err(
                CsharpEngineServicesError::new(
                    "CSHARP_AUDIO_CLIP_HANDLE",
                    String::from_str("audio clip handles exhausted"),
                ),
            );
        }
        let timing = wav_timing(resource.bytes());
        let hash = resource.content_hash();
        let n = hash.unicode_len();
        proof {
            reveal_strlit("sha256:");
        }
        let hex = hash.substring_char(7, n);
        assert(hex@ =~= digest_hex(resource@.bytes));
        let asset = String::from_str("audio/").concat(hex);
        let content_hash = hash.to_owned();
        let clip = AudioClip { asset, content_hash, timing, resource, owners: 1 };
        let ghost before = *self;
        let ghost cv = clip@;
        proof {
            before.clips.lemma_len();
            assert(before.clips_view().dom() =~= before.clips@.dom());
            assert(cv.resource == audio_resource_view(resource@.path, resource@.bytes));
            assert(cv.asset == "audio/"@ + digest_hex(resource@.bytes));
            assert(cv == new_clip_view(resource@.path, resource@.bytes));
        }
        self.next_clip = handle + 1;
        self.clips.insert_new(handle, clip);
        proof {
            assert(self.clips_view() =~= before.clips_view().insert(handle, cv));
            assert(self.clip_seq() =~= before.clip_seq().push(cv));
            assert(self.clip_seq().drop_last() =~= before.clip_seq());
            self.clips.lemma_len();
            assert forall|a: u64, b: u64|
                #![trigger self.clips@[a], self.clips@[b]]
                self.clips@.dom().contains(a) && self.clips@.dom().contains(b) && a != b
                    implies self.clips@[a]@.resource.identity != self.clips@[b]@.resource.identity by {
                if a != handle && b != handle {
                    assert(before.clips@[a]@.resource.identity != before.clips@[b]@.resource.identity);
                } else if a == handle {
                    assert(before.clips_view().dom().contains(b));
                } else {
                    assert(before.clips_view().dom().contains(a));
                }
            }
        }
        Ok(handle)
    }

    /// Clips, feedback and the clip and signal counters are unchanged.
    pub open spec fn same_except_voices(&self, other: &Self) -> bool {
        &&& self.clips_view() == other.clips_view()
        &&& self.clip_seq() == other.clip_seq()
        &&& self.feedback_view() == other.feedback_view()
        &&& self.next_clip_view() == other.next_clip_view()
        &&& self.next_signal_view() == other.next_signal_view()
    }

    /// What releasing one owner of `clip` does: a clip that is not
    /// admitted is ignored; one with other owners loses an owner; the last
    /// owner cannot release a clip that a retained voice or a pending
    /// one-shot plays; otherwise the clip is removed and its resource
    /// handed back.
    pub open spec fn release(
        pre: Self,
        post: Self,
        clip: u64,
        r: Result<Option<CsharpRenderResource>, CsharpEngineServicesError>,
    ) -> bool {
        let clips = pre.clips_view();
        if !clips.dom().contains(clip) {
            r matches Ok(None) && post == pre
        } else if clips[clip].owners > 1 {
            &&& r matches Ok(None)
            &&& post.clips_view() == clips.insert(
                clip,
                AudioClipView { owners: (clips[clip].owners - 1) as u32, ..clips[clip] },
            )
        } else if uses_clip(pre.voices_view(), clip) {
            r matches Err(e) && e.code_view() == "CSHARP_AUDIO_CLIP_IN_USE"@
        } else if uses_clip(pre.one_shots_view(), clip) {
            r matches Err(e) && e.code_view() == (if pre.feedback_view().feedback_lost {
                "CSHARP_AUDIO_CLIP_FEEDBACK_LOST"@
            } else {
                "CSHARP_AUDIO_CLIP_PENDING_SIGNAL"@
            })
        } else {
            &&& r matches Ok(Some(res)) && res@ == clips[clip].resource
            &&& post.clips_view() == clips.remove(clip)
        }
    }

    /// Releases one owner of a clip. A clip that is not admitted is
    /// ignored; a clip with other owners loses one; the last owner cannot
    /// release a clip that a retained voice or a pending one-shot still
    /// plays; otherwise the clip is removed and its resource handed back
    /// for retirement.
    pub fn destroy_clip(&mut self, clip: u64) -> (r: Result<
        Option<CsharpRenderResource>,
        CsharpEngineServicesError,
    >)
        requires
            old(self).wf(),
        ensures
            final(self).wf(),
            final(self).same_except_clips(old(self)),
            final(self).next_clip_view() == old(self).next_clip_view(),
            r is Err ==> *final(self) == *old(self),
            Self::release(*old(self), *final(self), clip, r),
    {
        let owners = match self.clips.get(clip) {
            None => {
                return Ok(None);
            },
            Some(c) => c.owners,
        };
        if owners > 1 {
            self.set_owners(clip, owners - 1);
            return Ok(None);
        }
        if self.voice_clips.contains_value(clip) {
            return Err(
                CsharpEngineServicesError::new(
                    "CSHARP_AUDIO_CLIP_IN_USE",
                    String::from_str("dispose or replace retained voices before disposing their clip"),
                ),
            );
        }
        if self.one_shot_clips.contains_value(clip) {
            if self.one_shot_feedback_lost {
                return Err(
                    CsharpEngineServicesError::new(
                        "CSHARP_AUDIO_CLIP_FEEDBACK_LOST",
                        String::from_str(
                            "one-shot feedback overflowed; reset the runtime audio owner before disposing its clip",
                        ),
                    ),
                );
            }
            return Err(
                CsharpEngineServicesError::new(
                    "CSHARP_AUDIO_CLIP_PENDING_SIGNAL",
                    String::from_str(
                        "wait for the one-shot terminal realization before disposing its clip",
                    ),
                ),
            );
        }
        let ghost before = *self;
        let removed = self.clips.remove(clip);
        let c = match removed {
            Some(c) => c,
            None => {
                return Ok(None);
            },
        };
        proof {
            assert(self.clips_view() =~= before.clips_view().remove(clip));
            let i = choose|i: int|
                0 <= i < before.clips.keys_seq().len() && before.clips.keys_seq()[i] == clip
                    && self.clips.keys_seq() == before.clips.keys_seq().remove(i)
                    && self.clips.vals_seq() == before.clips.vals_seq().remove(i);
            before.clips.lemma_entry(i);
            assert(self.clip_seq() =~= before.clip_seq().remove(i));
            lemma_total_remove(before.clip_seq(), i);
            assert forall|v: u64| #[trigger]
                self.voice_clips@.dom().contains(v) implies self.clips@.dom().contains(
                self.voice_clips@[v],
            ) by {
                assert(self.voice_clips@[v] != clip);
            }
            assert forall|s: u64| #[trigger]
                self.one_shot_clips@.dom().contains(s) implies self.clips@.dom().contains(
                self.one_shot_clips@[s],
            ) by {
                assert(self.one_shot_clips@[s] != clip);
            }
            assert forall|a: u64, b: u64|
                #![trigger self.clips@[a], self.clips@[b]]
                self.clips@.dom().contains(a) && self.clips@.dom().contains(b) && a != b
                    implies self.clips@[a]@.resource.identity != self.clips@[b]@.resource.identity by {
                assert(before.clips@[a]@.resource.identity != before.clips@[b]@.resource.identity);
            }
        }
        Ok(Some(c.resource))
    }

    /// Starts a retained voice of an admitted clip on a bus, under the next
    /// voice handle.
    pub fn create_voice(&mut self, clip: u64, bus: AudioBus) -> (r: Result<
        u64,
        CsharpEngineServicesError,
    >)
        requires
            old(self).wf(),
        ensures
            final(self).wf(),
            final(self).same_except_voices(old(self)),
            r is Err ==> *final(self) == *old(self),
            r is Ok <==> old(self).clips_view().dom().contains(clip) && old(self).next_voice_view()
                < u64::MAX,
            !old(self).clips_view().dom().contains(clip) ==> (r matches Err(e) && e.code_view()
                == "CSHARP_AUDIO_CLIP_HANDLE"@),
            old(self).clips_view().dom().contains(clip) && old(self).next_voice_view() == u64::MAX
                ==> (r matches Err(e) && e.code_view() == "CSHARP_AUDIO_VOICE_HANDLE"@),
            r matches Ok(v) ==> {
                &&& v == old(self).next_voice_view()
                &&& final(self).next_voice_view() == v + 1
                &&& final(self).voices_view() == old(self).voices_view().insert(v, clip)
                &&& final(self).voice_buses_view() == old(self).voice_buses_view().insert(v, bus)
            },
    {
        if !self.clips.contains(clip) {
            return Err(
                CsharpEngineServicesError::new(
                    "CSHARP_AUDIO_CLIP_HANDLE",
                    String::from_str("audio clip handle is not admitted"),
                ),
            );
        }
        let voice = self.next_voice;
        if voice == u64::MAX {
            return Err(
                CsharpEngineServicesError::new(
                    "CSHARP_AUDIO_VOICE_HANDLE",
                    String::from_str("audio voice handles exhausted"),
                ),
            );
        }
        let ghost before = *self;
        self.next_voice = voice + 1;
        self.voice_clips.insert_new(voice, clip);
        self.voice_buses.insert_new(voice, bus);
        proof {
            assert(self.voice_buses@.dom() =~= self.voice_clips@.dom());
        }
        Ok(voice)
    }

    /// Stops a retained voice; a voice that is not live is ignored. Returns
    /// whether the voice was live.
    pub fn destroy_voice(&mut self, voice: u64) -> (r: bool)
        requires
            old(self).wf(),
        ensures
            final(self).wf(),
            final(self).same_except_voices(old(self)),
            final(self).next_voice_view() == old(self).next_voice_view(),
            r == old(self).voices_view().dom().contains(voice),
            final(self).voices_view() == old(self).voices_view().remove(voice),
            final(self).voice_buses_view() == old(self).voice_buses_view().remove(voice),
    {
        let removed = self.voice_clips.remove(voice);
        self.voice_buses.remove(voice);
        proof {
            assert(self.voice_buses@.dom() =~= self.voice_clips@.dom());
        }
        removed.is_some()
    }

    /// Replaces a live retained voice by a new voice of an admitted clip.
    pub fn replace_voice(&mut self, voice: u64, clip: u64, bus: AudioBus) -> (r: Result<
        u64,
        CsharpEngineServicesError,
    >)
        requires
            old(self).wf(),
        ensures
            final(self).wf(),
            final(self).same_except_voices(old(self)),
            r is Err ==> *final(self) == *old(self),
            r is Ok <==> old(self).clips_view().dom().contains(clip)
                && old(self).voices_view().dom().contains(voice) && old(self).next_voice_view()
                < u64::MAX,
            !old(self).clips_view().dom().contains(clip) ==> (r matches Err(e) && e.code_view()
                == "CSHARP_AUDIO_CLIP_HANDLE"@),
            old(self).clips_view().dom().contains(clip) && !(old(self).voices_view().dom().contains(
                voice,
            ) && old(self).next_voice_view() < u64::MAX) ==> (r matches Err(e) && e.code_view()
                == "CSHARP_AUDIO_VOICE_HANDLE"@),
            r matches Ok(v) ==> {
                &&& v == old(self).next_voice_view()
                &&& final(self).next_voice_view() == v + 1
                &&& final(self).voices_view() == old(self).voices_view().remove(voice).insert(v, clip)
                &&& final(self).voice_buses_view() == old(self).voice_buses_view().remove(
                    voice,
                ).insert(v, bus)
            },
    {
        if !self.clips.contains(clip) {
            return Err(
                CsharpEngineServicesError::new(
                    "CSHARP_AUDIO_CLIP_HANDLE",
                    String::from_str("audio clip handle is not admitted"),
                ),
            );
        }
        if !self.voice_clips.contains(voice) {
            return Err(
                CsharpEngineServicesError::new(
                    "CSHARP_AUDIO_VOICE_HANDLE",
                    String::from_str("audio voice handle is not live"),
                ),
            );
        }
        if self.next_voice == u64::MAX {
            return Err(
                CsharpEngineServicesError::new(
                    "CSHARP_AUDIO_VOICE_HANDLE",
                    String::from_str("audio voice handles exhausted"),
                ),
            );
        }
        self.destroy_voice(voice);
        self.create_voice(clip, bus)
    }

    /// A live retained voice, or the error that names it as not live.
    pub fn require_live_voice(&self, voice: u64) -> (r: Result<(), CsharpEngineServicesError>)
        requires
            self.wf(),
        ensures
            r is Ok <==> self.voices_view().dom().contains(voice),
            r matches Err(e) ==> e.code_view() == "CSHARP_AUDIO_VOICE_HANDLE"@,
    {
        if self.voice_clips.contains(voice) {
            Ok(())
        } else {
            Err(
                CsharpEngineServicesError::new(
                    "CSHARP_AUDIO_VOICE_HANDLE",
                    String::from_str("audio voice handle is not live"),
                ),
            )
        }
    }

    /// Whether an update of a live voice keeps its immutable clip and bus;
    /// changing either takes a replacement.
    pub fn check_voice_update(&self, voice: u64, clip: u64, bus: AudioBus) -> (r: Result<
        (),
        CsharpEngineServicesError,
    >)
        requires
            self.wf(),
        ensures
            r is Ok <==> self.clips_view().dom().contains(clip) && self.voices_view().dom().contains(
                voice,
            ) && self.voices_view()[voice] == clip && self.voice_buses_view()[voice] == bus,
            !self.clips_view().dom().contains(clip) ==> (r matches Err(e) && e.code_view()
                == "CSHARP_AUDIO_CLIP_HANDLE"@),
            self.clips_view().dom().contains(clip) && !self.voices_view().dom().contains(voice) ==> (
            r matches Err(e) && e.code_view() == "CSHARP_AUDIO_VOICE_HANDLE"@),
            self.clips_view().dom().contains(clip) && self.voices_view().dom().contains(voice) && (
            self.voices_view()[voice] != clip || self.voice_buses_view()[voice] != bus) ==> (
            r matches Err(e) && e.code_view() == "CSHARP_AUDIO_UPDATE_REPLACEMENT"@),
    {
        if !self.clips.contains(clip) {
            return Err(
                CsharpEngineServicesError::new(
                    "CSHARP_AUDIO_CLIP_HANDLE",
                    String::from_str("audio clip handle is not admitted"),
                ),
            );
        }
        let current = match self.voice_clips.get(voice) {
            Some(c) => *c,
            None => {
                return Err(
                    CsharpEngineServicesError::new(
                        "CSHARP_AUDIO_VOICE_HANDLE",
                        String::from_str("audio voice handle is not live"),
                    ),
                );
            },
        };
        let current_bus = match self.voice_buses.get(voice) {
            Some(b) => *b,
            None => bus,
        };
        if current != clip || current_bus != bus {
            return Err(
                CsharpEngineServicesError::new(
                    "CSHARP_AUDIO_UPDATE_REPLACEMENT",
                    String::from_str(
                        "UpdateVoice cannot replace an immutable clip or change bus; use ReplaceVoice",
                    ),
                ),
            );
        }
        Ok(())
    }

    /// Emits a one-shot of an admitted clip under the next signal handle,
    /// which stays within the JSON-safe integer range; the signal keeps its
    /// clip until a terminal realization fact releases it.
    pub fn emit(&mut self, clip: u64) -> (r: Result<u64, CsharpEngineServicesError>)
        requires
            old(self).wf(),
        ensures
            final(self).wf(),
            r is Err ==> *final(self) == *old(self),
            r is Ok <==> old(self).clips_view().dom().contains(clip) && old(self).next_signal_view()
                <= JSON_SAFE_U64_MAX,
            !old(self).clips_view().dom().contains(clip) ==> (r matches Err(e) && e.code_view()
                == "CSHARP_AUDIO_CLIP_HANDLE"@),
            old(self).clips_view().dom().contains(clip) && old(self).next_signal_view()
                > JSON_SAFE_U64_MAX ==> (r matches Err(e) && e.code_view()
                == "CSHARP_AUDIO_SIGNAL_HANDLE"@),
            r matches Ok(s) ==> {
                &&& s == old(self).next_signal_view()
                &&& final(self).next_signal_view() == s + 1
                &&& final(self).feedback_view() == (FeedbackModel {
                    one_shots: old(self).feedback_view().one_shots.insert(s, clip),
                    ..old(self).feedback_view()
                })
                &&& final(self).clips_view() == old(self).clips_view()
                &&& final(self).clip_seq() == old(self).clip_seq()
                &&& final(self).voices_view() == old(self).voices_view()
                &&& final(self).voice_buses_view() == old(self).voice_buses_view()
                &&& final(self).next_clip_view() == old(self).next_clip_view()
                &&& final(self).next_voice_view() == old(self).next_voice_view()
            },
    {
        if !self.clips.contains(clip) {
            return Err(
                CsharpEngineServicesError::new(
                    "CSHARP_AUDIO_CLIP_HANDLE",
                    String::from_str("audio clip handle is not admitted"),
                ),
            );
        }
        let signal = self.next_signal;
        if signal > JSON_SAFE_U64_MAX {
            return Err(
                CsharpEngineServicesError::new(
                    "CSHARP_AUDIO_SIGNAL_HANDLE",
                    String::from_str("audio signal handles exhausted the JSON-safe range"),
                ),
            );
        }
        self.next_signal = signal + 1;
        self.one_shot_clips.insert_new(signal, clip);
        Ok(signal)
    }


    /// Admits the clip at a requested product path.
    pub fn open_clip(
        &mut self,
        content: Option<&ContentCatalog>,
        resources: &TextTable<Arc<Vec<u8>>>,
        requested_path: &str,
    ) -> (r: Result<u64, CsharpEngineServicesError>)
        requires
            old(self).wf(),
            content matches Some(c) ==> c.wf(),
            resources.wf(),
        ensures
            final(self).wf(),
            final(self).same_except_clips(old(self)),
            r is Err ==> *final(self) == *old(self),
            match path_source(catalog_of(content), files_view(*resources), requested_path@) {
                ClipSourceView::Found { path, bytes } => Self::admission(
                    *old(self),
                    *final(self),
                    path,
                    bytes,
                    r,
                ),
                ClipSourceView::MissingPath => r matches Err(e) && e.code_view()
                    == "CSHARP_AUDIO_RESOURCE_PATH"@,
                ClipSourceView::Unknown => r matches Err(e) && e.code_view()
                    == "CSHARP_AUDIO_RESOURCE_UNKNOWN"@,
            },
    {
        let (relative, bytes) = match clip_source_from_path(content, resources, requested_path) {
            Ok(v) => v,
            Err(e) => {
                return Err(e);
            },
        };
        let body: Vec<u8> = (*bytes).clone();
        self.admit_clip(relative.as_str(), body)
    }

    /// Admits the clip held by a retained content reference.
    pub fn open_clip_from_content(&mut self, content: Option<&ContentCatalog>, reference: u64) -> (r:
        Result<u64, CsharpEngineServicesError>)
        requires
            old(self).wf(),
            content matches Some(c) ==> c.wf(),
        ensures
            final(self).wf(),
            final(self).same_except_clips(old(self)),
            r is Err ==> *final(self) == *old(self),
            match reference_source(references_of(content), reference) {
                Some(ClipSourceView::Found { path, bytes }) => Self::admission(
                    *old(self),
                    *final(self),
                    path,
                    bytes,
                    r,
                ),
                Some(ClipSourceView::MissingPath) => r matches Err(e) && e.code_view()
                    == "CSHARP_AUDIO_RESOURCE_PATH"@,
                Some(ClipSourceView::Unknown) => false,
                None => r matches Err(e) && e.code_view() == "CSHARP_AUDIO_CONTENT"@,
            },
    {
        let (relative, bytes) = match clip_source_from_reference(content, reference) {
            Ok(v) => v,
            Err(e) => {
                return Err(e);
            },
        };
        let body: Vec<u8> = (*bytes).clone();
        self.admit_clip(relative.as_str(), body)
    }

    /// The receipt of an optional preload over the current budget.
    pub open spec fn preload_receipt(
        &self,
        outcome: AudioOptionalPreloadOutcome,
        clip: u64,
    ) -> AudioOptionalPreloadReceipt {
        AudioOptionalPreloadReceipt {
            outcome,
            clip,
            admitted_clip_count: self.clips_view().dom().len() as u32,
            admitted_bytes: total_clip_bytes(self.clip_seq()) as u64,
            max_clip_count: MAX_AUDIO_RESOURCE_COUNT as u32,
            max_total_bytes: MAX_AUDIO_RESOURCE_TOTAL_BYTES as u64,
        }
    }

    fn receipt_now(&self, outcome: AudioOptionalPreloadOutcome, clip: u64) -> (r:
        AudioOptionalPreloadReceipt)
        requires
            self.wf(),
        ensures
            r == self.preload_receipt(outcome, clip),
    {
        proof {
            self.clips.lemma_len();
            assert(self.clips_view().dom() =~= self.clips@.dom());
        }
        let count = self.clips.len();
        let total = self.total_bytes();
        AudioOptionalPreloadReceipt {
            outcome,
            clip,
            admitted_clip_count: count as u32,
            admitted_bytes: total as u64,
            max_clip_count: MAX_AUDIO_RESOURCE_COUNT as u32,
            max_total_bytes: MAX_AUDIO_RESOURCE_TOTAL_BYTES as u64,
        }
    }

    /// What an optional preload of the body `bytes` from
    /// `content/<relative>` does: as admission, except that a new body that
    /// does not fit the budget is skipped, changing nothing, rather than
    /// refused.
    pub open spec fn optional_admission(
        pre: Self,
        post: Self,
        relative: Seq<char>,
        bytes: Seq<u8>,
        r: Result<AudioOptionalPreloadReceipt, CsharpEngineServicesError>,
    ) -> bool {
        let browser = content_prefix_chars() + relative;
        let identity = "audio-resource/"@ + digest_hex(bytes);
        let clips = pre.clips_view();
        if !audio_admissible(browser, bytes) {
            r matches Err(e) && e.code_view() == audio_refusal_code(browser, bytes)
        } else if has_clip_identity(clips, identity) {
            let h = clip_with_identity(clips, identity);
            &&& r is Ok <==> clips[h].owners < u32::MAX
            &&& r matches Err(e) ==> e.code_view() == "CSHARP_AUDIO_CLIP_OWNERS"@
            &&& r matches Ok(rc) ==> rc == post.preload_receipt(
                AudioOptionalPreloadOutcome::Admitted,
                h,
            ) && post.clips_view() == clips.insert(
                h,
                AudioClipView { owners: (clips[h].owners + 1) as u32, ..clips[h] },
            ) && post.next_clip_view() == pre.next_clip_view()
        } else if !clip_budget_allows(
            clips.dom().len() as int,
            total_clip_bytes(pre.clip_seq()),
            bytes.len() as int,
        ) {
            &&& r == Ok::<AudioOptionalPreloadReceipt, CsharpEngineServicesError>(
                pre.preload_receipt(AudioOptionalPreloadOutcome::SkippedCapacity, 0),
            )
            &&& post == pre
        } else if pre.next_clip_view() == u64::MAX {
            r matches Err(e) && e.code_view() == "CSHARP_AUDIO_CLIP_HANDLE"@
        } else {
            &&& r == Ok::<AudioOptionalPreloadReceipt, CsharpEngineServicesError>(
                post.preload_receipt(AudioOptionalPreloadOutcome::Admitted, pre.next_clip_view()),
            )
            &&& post.clips_view() == clips.insert(pre.next_clip_view(), new_clip_view(browser, bytes))
            &&& post.next_clip_view() == pre.next_clip_view() + 1
        }
    }

    /// Preloads a clip if it is present and fits the Engine budget. An
    /// absent resource and budget pressure are routine skips with a
    /// receipt; a present body must still be structurally admissible, so a
    /// corrupt body cannot pass for budget pressure.
    pub fn preload_optional(
        &mut self,
        content: Option<&ContentCatalog>,
        resources: &TextTable<Arc<Vec<u8>>>,
        requested_path: &str,
    ) -> (r: Result<AudioOptionalPreloadReceipt, CsharpEngineServicesError>)
        requires
            old(self).wf(),
            content matches Some(c) ==> c.wf(),
            resources.wf(),
        ensures
            final(self).wf(),
            final(self).same_except_clips(old(self)),
            r is Err ==> *final(self) == *old(self),
            match path_source(catalog_of(content), files_view(*resources), requested_path@) {
                ClipSourceView::Found { path, bytes } => Self::optional_admission(
                    *old(self),
                    *final(self),
                    path,
                    bytes,
                    r,
                ),
                ClipSourceView::MissingPath => r matches Err(e) && e.code_view()
                    == "CSHARP_AUDIO_RESOURCE_PATH"@,
                ClipSourceView::Unknown => r == Ok::<
                    AudioOptionalPreloadReceipt,
                    CsharpEngineServicesError,
                >(old(self).preload_receipt(AudioOptionalPreloadOutcome::SkippedMissing, 0))
                    && *final(self) == *old(self),
            },
    {
        let (relative, bytes) = match locate_clip(content, resources, requested_path) {
            Some(Ok(v)) => v,
            Some(Err(e)) => {
                return Err(e);
            },
            None => {
                return Ok(self.receipt_now(AudioOptionalPreloadOutcome::SkippedMissing, 0));
            },
        };
        let body: Vec<u8> = (*bytes).clone();
        let browser = with_content_prefix(relative.as_str());
        let resource = match CsharpRenderResource::admit_audio(browser, body) {
            Ok(res) => res,
            Err(e) => {
                return Err(e);
            },
        };
        match self.find_identity(&resource) {
            Some(h) => {
                return match self.acquire(h) {
                    Ok(v) => Ok(self.receipt_now(AudioOptionalPreloadOutcome::Admitted, v)),
                    Err(e) => Err(e),
                };
            },
            None => {},
        }
        proof {
            self.clips.lemma_len();
            assert(self.clips_view().dom() =~= self.clips@.dom());
        }
        let len = resource.bytes().len();
        let count = self.clips.len();
        let total = self.total_bytes();
        if len > MAX_AUDIO_RESOURCE_BYTES || count == MAX_AUDIO_RESOURCE_COUNT || total + len
            > MAX_AUDIO_RESOURCE_TOTAL_BYTES {
            return Ok(self.receipt_now(AudioOptionalPreloadOutcome::SkippedCapacity, 0));
        }
        match self.insert_new_clip(resource) {
            Ok(h) => Ok(self.receipt_now(AudioOptionalPreloadOutcome::Admitted, h)),
            Err(e) => Err(e),
        }
    }

}

proof fn lemma_ingest_keeps_renderer_count(m: FeedbackModel, fs: Seq<AudioRealizationFact>)
    ensures
        ingest_all(m, fs).renderer_evicted == m.renderer_evicted,
    decreases fs.len(),
{
    if fs.len() > 0 {
        lemma_ingest_keeps_renderer_count(m, fs.drop_last());
    }
}

proof fn lemma_ingest_accepts_through(m: FeedbackModel, fs: Seq<AudioRealizationFact>)
    requires
        strictly_ordered(fs),
    ensures
        (fs.len() > 0 || m.accepted_through is Some) ==> ingest_all(m, fs).accepted_through is Some,
        ingest_all(m, fs).accepted_through matches Some(a) ==> {
            &&& forall|i: int| 0 <= i < fs.len() ==> spec_fact_id(#[trigger] fs[i]) <= a
            &&& m.accepted_through matches Some(a0) ==> a0 <= a
        },
    decreases fs.len(),
{
    if fs.len() > 0 {
        let init = fs.drop_last();
        assert(strictly_ordered(init));
        lemma_ingest_accepts_through(m, init);
        let inner = ingest_all(m, init);
        let f = fs.last();
        if let Some(a) = ingest_all(m, fs).accepted_through {
            assert forall|i: int| 0 <= i < fs.len() implies spec_fact_id(#[trigger] fs[i]) <= a by {
                if i < fs.len() - 1 {
                    assert(fs[i] == init[i]);
                    assert(spec_fact_id(fs[i]) < spec_fact_id(fs[fs.len() - 1]));
                }
            }
        }
    }
}

proof fn lemma_ingest_skips_accepted(m: FeedbackModel, fs: Seq<AudioRealizationFact>, a: u64)
    requires
        m.accepted_through == Some(a),
        forall|i: int| 0 <= i < fs.len() ==> spec_fact_id(#[trigger] fs[i]) <= a,
    ensures
        ingest_all(m, fs) == m,
    decreases fs.len(),
{
    if fs.len() > 0 {
        let init = fs.drop_last();
        assert forall|i: int| 0 <= i < init.len() implies spec_fact_id(#[trigger] init[i]) <= a by {
            assert(init[i] == fs[i]);
        }
        lemma_ingest_skips_accepted(m, init, a);
        assert(spec_fact_id(fs[fs.len() - 1]) <= a);
    }
}

/// Retrying feedback is harmless: admitting the same strictly ordered
/// batch a second time, with the same host eviction count and without
/// replacing the owner, leaves the feedback state as the first admission
/// left it.
pub proof fn lemma_feedback_retry_is_idempotent(
    m: FeedbackModel,
    evicted: u64,
    facts: Seq<AudioRealizationFact>,
)
    requires
        strictly_ordered(facts),
    ensures
        ({
            let once = ingest_all(ingest_prelude(m, false, evicted), facts);
            ingest_all(ingest_prelude(once, false, evicted), facts) == once
        }),
{
    let start = ingest_prelude(m, false, evicted);
    let once = ingest_all(start, facts);
    lemma_ingest_keeps_renderer_count(start, facts);
    assert(ingest_prelude(once, false, evicted) == once);
    lemma_ingest_accepts_through(start, facts);
    if facts.len() > 0 {
        let a = once.accepted_through->0;
        lemma_ingest_skips_accepted(once, facts, a);
    }
}

/// The retained feedback store stays bounded: admitting any batch into a
/// store of at most 128 facts leaves at most 128.
pub proof fn lemma_feedback_store_bounded(m: FeedbackModel, facts: Seq<AudioRealizationFact>)
    requires
        m.facts.len() <= MAX_AUDIO_REALIZATION_FACTS,
    ensures
        ingest_all(m, facts).facts.len() <= MAX_AUDIO_REALIZATION_FACTS,
    decreases facts.len(),
{
    if facts.len() > 0 {
        lemma_feedback_store_bounded(m, facts.drop_last());
    }
}

/// A terminal fact for a pending one-shot releases it: once admitted, the
/// signal no longer holds its clip.
pub proof fn lemma_terminal_fact_releases_signal(m: FeedbackModel, f: AudioRealizationFact)
    requires
        released_signal(f) is Some,
        !(m.accepted_through matches Some(last) && spec_fact_id(f) <= last),
    ensures
        !ingest_one(m, f).one_shots.dom().contains(released_signal(f)->0),
{
}

/// Releasing a clip once undoes admitting it once: after an admission
/// that succeeded, a release of the returned handle leaves the admitted
/// clips as they were before the admission.
pub proof fn lemma_release_undoes_admission(
    l0: AudioLedger,
    l1: AudioLedger,
    l2: AudioLedger,
    relative: Seq<char>,
    bytes: Seq<u8>,
    h: u64,
    r: Result<Option<CsharpRenderResource>, CsharpEngineServicesError>,
)
    requires
        l0.wf(),
        AudioLedger::admission(l0, l1, relative, bytes, Ok(h)),
        l1.same_except_clips(&l0),
        AudioLedger::release(l1, l2, h, r),
    ensures
        r is Ok,
        l2.clips_view() == l0.clips_view(),
{
    let identity = "audio-resource/"@ + digest_hex(bytes);
    let clips = l0.clips_view();
    if has_clip_identity(clips, identity) {
        let c = clips[h];
        assert(l1.clips_view()[h].owners > 1);
        assert(l2.clips_view() =~= clips.insert(h, c));
        assert(clips.insert(h, c) =~= clips);
    } else {
        assert(!clips.dom().contains(h));
        assert(!uses_clip(l1.voices_view(), h)) by {
            if uses_clip(l1.voices_view(), h) {
                let v = choose|v: u64| l1.voices_view().dom().contains(v) && l1.voices_view()[v] == h;
                assert(l0.voice_clips@.dom().contains(v));
            }
        }
        assert(!uses_clip(l1.one_shots_view(), h)) by {
            if uses_clip(l1.one_shots_view(), h) {
                let s = choose|s: u64| l1.one_shots_view().dom().contains(s) && l1.one_shots_view()[s] == h;
                assert(l1.one_shots_view() == l1.feedback_view().one_shots);
                assert(l0.one_shot_clips@.dom().contains(s));
            }
        }
        assert(l2.clips_view() =~= clips);
    }
}

} // verus!
