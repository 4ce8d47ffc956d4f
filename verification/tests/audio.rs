use csharp_engine_services::audio::{
    AudioBus, AudioDiagnosticCode, AudioLedger, AudioOptionalPreloadOutcome, AudioRealizationFact,
    AudioRealizationFactKind, AudioRealizationFactReceipt, AudioRealizationReadout,
    MAX_AUDIO_RESOURCE_BYTES, MAX_AUDIO_RESOURCE_COUNT,
};
use csharp_engine_services::content::ContentCatalog;
use csharp_engine_services::table::TextTable;
use std::sync::Arc;

fn wav() -> Vec<u8> {
    let mut bytes = vec![0_u8; 48];
    bytes[..4].copy_from_slice(b"RIFF");
    bytes[4..8].copy_from_slice(&40_u32.to_le_bytes());
    bytes[8..12].copy_from_slice(b"WAVE");
    bytes[12..16].copy_from_slice(b"fmt ");
    bytes[16..20].copy_from_slice(&16_u32.to_le_bytes());
    bytes[20..22].copy_from_slice(&1_u16.to_le_bytes());
    bytes[22..24].copy_from_slice(&1_u16.to_le_bytes());
    bytes[24..28].copy_from_slice(&4_u32.to_le_bytes());
    bytes[28..32].copy_from_slice(&4_u32.to_le_bytes());
    bytes[32..34].copy_from_slice(&1_u16.to_le_bytes());
    bytes[34..36].copy_from_slice(&8_u16.to_le_bytes());
    bytes[36..40].copy_from_slice(b"data");
    bytes[40..44].copy_from_slice(&4_u32.to_le_bytes());
    bytes
}

fn resources(entries: Vec<(&str, Vec<u8>)>) -> TextTable<Arc<Vec<u8>>> {
    let mut table = TextTable::new();
    for (path, bytes) in entries {
        table.insert(path.to_string(), Arc::new(bytes));
    }
    table
}

fn one_shot_completed(fact_id: u64, signal_handle: u64) -> AudioRealizationFact {
    AudioRealizationFact::NaturalCompletionOneShot {
        fact_id,
        sequence: 0,
        signal_handle,
    }
}

#[test]
fn retains_realization_facts_separately_with_cumulative_evictions() {
    let mut ledger = AudioLedger::new();
    ledger
        .ingest_realized_feedback(
            true,
            3,
            vec![AudioRealizationFact::NaturalCompletionOneShot {
                fact_id: 4,
                sequence: 2,
                signal_handle: 7,
            }],
        )
        .expect("initial owner snapshot");
    assert_eq!(
        ledger.read_realization(),
        AudioRealizationReadout {
            retained_fact_count: 1,
            evicted_fact_count: 3,
        }
    );
    assert_eq!(
        ledger.read_realization_fact_at(0),
        AudioRealizationFactReceipt {
            present: true,
            kind: AudioRealizationFactKind::NaturalCompletionOneShot,
            fact_id: 4,
            sequence: 2,
            signal_handle: 7,
            voice_value: 0,
            code: AudioDiagnosticCode::NoDiagnostic,
        }
    );
    ledger
        .ingest_realized_feedback(
            false,
            5,
            vec![AudioRealizationFact::NaturalCompletionOneShot {
                fact_id: 4,
                sequence: 2,
                signal_handle: 7,
            }],
        )
        .expect("idempotent retry");
    assert_eq!(ledger.read_realization().evicted_fact_count, 5);
    assert_eq!(ledger.read_realization().retained_fact_count, 1);
    ledger.reset_realized_feedback();
    assert_eq!(
        ledger.read_realization(),
        AudioRealizationReadout {
            retained_fact_count: 0,
            evicted_fact_count: 0,
        }
    );
}

#[test]
fn admits_content_references_after_selection_and_releases_shared_clips() {
    let mut content = ContentCatalog::new(resources(vec![("audio/bundle.wav", wav())]));
    let reference = content.open_reference("audio/bundle.wav").expect("reference");
    let mut ledger = AudioLedger::new();
    let first = ledger
        .open_clip_from_content(Some(&content), reference)
        .expect("reference admission after Create selection");
    let second = ledger
        .open_clip_from_content(Some(&content), reference)
        .expect("same immutable clip has another owner");
    assert_eq!(first, second);
    assert!(
        content.destroy_reference(reference),
        "audio has copied its Engine-owned retained resource"
    );
    let voice = ledger.create_voice(first, AudioBus::Sfx).expect("retained voice");
    assert!(ledger.destroy_clip(first).expect("first owner releases").is_none());
    assert_eq!(
        ledger.destroy_clip(second).unwrap_err().code(),
        "CSHARP_AUDIO_CLIP_IN_USE",
        "voice keeps final clip owner live"
    );
    assert!(ledger.destroy_voice(voice));
    let released = ledger
        .destroy_clip(second)
        .expect("final owner releases resource")
        .expect("the released resource is handed back");
    assert_eq!(released.path(), "content/audio/bundle.wav");
    assert_eq!(ledger.clip_count(), 0);
}

#[test]
fn waits_for_one_shot_completion_before_releasing_final_clip_owner() {
    let table = resources(vec![("audio/trial.wav", wav())]);
    let mut ledger = AudioLedger::new();
    let clip = ledger
        .open_clip(None, &table, "content/audio/trial.wav")
        .expect("clip");
    let signal = ledger.emit(clip).expect("one-shot");
    assert_eq!(
        ledger.destroy_clip(clip).unwrap_err().code(),
        "CSHARP_AUDIO_CLIP_PENDING_SIGNAL",
        "pending one-shot owns final clip"
    );
    ledger
        .ingest_realized_feedback(false, 0, vec![one_shot_completed(1, signal)])
        .expect("completion feedback");
    ledger.destroy_clip(clip).expect("completed signal releases clip");
    assert_eq!(ledger.clip_count(), 0);
}

#[test]
fn terminal_one_shot_diagnostic_releases_only_its_matching_clip() {
    let table = resources(vec![("audio/trial.wav", wav())]);
    let mut ledger = AudioLedger::new();
    let clip = ledger
        .open_clip(None, &table, "content/audio/trial.wav")
        .expect("clip");
    let signal = ledger.emit(clip).expect("one-shot");
    ledger
        .ingest_realized_feedback(
            false,
            0,
            vec![AudioRealizationFact::Diagnostic {
                fact_id: 1,
                code: AudioDiagnosticCode::DecodeFailed,
                sequence: 0,
                signal_handle: Some(signal),
                voice_handle: None,
            }],
        )
        .expect("terminal signal diagnostic");
    assert_eq!(
        ledger.read_realization_fact_at(0).signal_handle,
        signal,
        "the public realization receipt retains the terminal signal identity"
    );
    ledger
        .destroy_clip(clip)
        .expect("signal-specific terminal diagnostic releases clip");
}

#[test]
fn admits_distinct_content_versions_at_one_path_as_distinct_audio_assets() {
    let mut ledger = AudioLedger::new();
    let first_body = wav();
    let mut second_body = first_body.clone();
    second_body[44] = 7;
    let first = ledger
        .admit_clip("audio/revision.wav", first_body)
        .expect("first content version");
    let second = ledger
        .admit_clip("audio/revision.wav", second_body)
        .expect("second content version");
    assert_ne!(first, second, "path does not alias immutable content versions");
    assert_eq!(ledger.clip_count(), 2);
    assert_ne!(
        ledger.clip(first).unwrap().asset(),
        ledger.clip(second).unwrap().asset(),
        "render assets are keyed by immutable body identity"
    );
}

#[test]
fn feedback_overflow_requires_owner_reset_before_pending_one_shot_release() {
    let table = resources(vec![("audio/trial.wav", wav())]);
    let mut ledger = AudioLedger::new();
    let clip = ledger
        .open_clip(None, &table, "content/audio/trial.wav")
        .expect("clip");
    ledger.emit(clip).expect("one-shot");
    ledger
        .ingest_realized_feedback(false, 1, vec![])
        .expect("host feedback overflow observation");
    let error = ledger
        .destroy_clip(clip)
        .expect_err("unknown terminal fact stays live");
    assert_eq!(error.code(), "CSHARP_AUDIO_CLIP_FEEDBACK_LOST");
    ledger.reset_realized_feedback();
    ledger
        .destroy_clip(clip)
        .expect("owner reset cancels outstanding browser one-shots");
}

#[test]
fn optional_preload_skips_missing_and_capacity_without_faulting_the_call_then_admits() {
    let mut valid_oversized = wav();
    valid_oversized.resize(MAX_AUDIO_RESOURCE_BYTES + 1, 0);
    let table = resources(vec![
        ("audio/valid.wav", wav()),
        ("audio/too-large.wav", valid_oversized),
        ("audio/corrupt.wav", vec![0_u8; MAX_AUDIO_RESOURCE_BYTES + 1]),
    ]);
    let mut ledger = AudioLedger::new();
    let missing = ledger
        .preload_optional(None, &table, "content/audio/missing.wav")
        .expect("missing optional content is a receipt");
    assert_eq!(missing.outcome, AudioOptionalPreloadOutcome::SkippedMissing);
    assert_eq!(missing.clip, 0);
    assert!(
        ledger
            .preload_optional(None, &table, "content/audio/corrupt.wav")
            .is_err(),
        "a present corrupt optional resource remains a strict admission failure"
    );
    let capacity = ledger
        .preload_optional(None, &table, "content/audio/too-large.wav")
        .expect("capacity pressure is a receipt");
    assert_eq!(capacity.outcome, AudioOptionalPreloadOutcome::SkippedCapacity);
    let admitted = ledger
        .preload_optional(None, &table, "content/audio/valid.wav")
        .expect("later valid preload continues the same product call");
    assert_eq!(admitted.outcome, AudioOptionalPreloadOutcome::Admitted);
    assert_ne!(admitted.clip, 0);
    assert_eq!(admitted.admitted_clip_count, 1);

    let mut required = AudioLedger::new();
    assert!(
        required
            .open_clip(None, &TextTable::new(), "content/audio/missing.wav")
            .is_err(),
        "the required admission path remains strict"
    );
}

#[test]
fn preload_receipt_reports_budget_and_limits() {
    let table = resources(vec![("audio/valid.wav", wav())]);
    let mut ledger = AudioLedger::new();
    let receipt = ledger
        .preload_optional(None, &table, "audio/valid.wav")
        .unwrap();
    assert_eq!(receipt.clip, 1);
    assert_eq!(receipt.admitted_bytes, 48);
    assert_eq!(receipt.max_clip_count, 64);
    assert_eq!(receipt.max_total_bytes, 32 * 1024 * 1024);
    let again = ledger
        .preload_optional(None, &table, "audio/valid.wav")
        .unwrap();
    assert_eq!(again.outcome, AudioOptionalPreloadOutcome::Admitted);
    assert_eq!(again.clip, 1);
    assert_eq!(ledger.clip(1).unwrap().owners(), 2);
}

/// Encoded bodies of the five admitted container families. The WAV body
/// carries its RIFF/WAVE header; the others open with their container's
/// signature and are taken as encoded bytes.
fn container_samples() -> Vec<(&'static str, Vec<u8>)> {
    let encoded = |signature: &[u8], len: usize| {
        let mut bytes = signature.to_vec();
        bytes.extend((0..len).map(|i| (i % 251) as u8));
        bytes
    };
    vec![
        ("wav", wav()),
        ("ogg", encoded(b"OggS", 120)),
        ("opus", encoded(b"OggS\0\x02OpusHead", 96)),
        ("mp3", encoded(b"ID3\x04\0", 80)),
        ("flac", encoded(b"fLaC", 64)),
    ]
}

#[test]
fn mixed_containers_share_encoded_byte_count_and_owner_budgets() {
    let samples = container_samples();
    let mut ledger = AudioLedger::new();
    for (extension, bytes) in &samples {
        let path = format!("audio/tone.{extension}");
        let first = ledger.admit_clip(&path, bytes.clone()).unwrap();
        assert_eq!(ledger.admit_clip(&path, bytes.clone()).unwrap(), first);
    }
    assert_eq!(ledger.clip_count(), 5);
    assert_eq!(
        ledger.total_bytes(),
        samples.iter().map(|(_, b)| b.len()).sum::<usize>()
    );
    for n in 5..MAX_AUDIO_RESOURCE_COUNT {
        let mut bytes = samples[3].1.clone();
        bytes.extend_from_slice(&(n as u64).to_le_bytes());
        ledger.admit_clip(&format!("audio/{n}.mp3"), bytes).unwrap();
    }
    let mut extra = samples[3].1.clone();
    extra.push(255);
    assert_eq!(
        ledger.admit_clip("audio/extra.mp3", extra).unwrap_err().code(),
        "CSHARP_AUDIO_RESOURCE_COUNT"
    );
    assert_eq!(ledger.clip_count(), MAX_AUDIO_RESOURCE_COUNT);

    let mut ledger = AudioLedger::new();
    for (index, (extension, source)) in samples.iter().take(4).enumerate() {
        let mut bytes = source.clone();
        bytes.resize(MAX_AUDIO_RESOURCE_BYTES, index as u8);
        ledger
            .admit_clip(&format!("audio/full.{extension}"), bytes)
            .unwrap();
    }
    assert_eq!(
        ledger
            .admit_clip("audio/extra.flac", samples[4].1.clone())
            .unwrap_err()
            .code(),
        "CSHARP_AUDIO_RESOURCE_TOTAL_SIZE"
    );
    let mut oversized = samples[4].1.clone();
    oversized.resize(MAX_AUDIO_RESOURCE_BYTES + 1, 0);
    assert_eq!(
        ledger.admit_clip("audio/large.flac", oversized).unwrap_err().code(),
        "CSHARP_AUDIO_RESOURCE_SIZE"
    );
    assert_eq!(
        ledger
            .admit_clip("audio/unknown.aac", b"not audio".to_vec())
            .unwrap_err()
            .code(),
        "CSHARP_AUDIO_RESOURCE_CONTAINER"
    );
}

#[test]
fn wav_bodies_need_their_header_and_paths_stay_strict() {
    let mut ledger = AudioLedger::new();
    assert_eq!(
        ledger
            .admit_clip("audio/unknown.wav", b"not audio".to_vec())
            .unwrap_err()
            .code(),
        "CSHARP_AUDIO_RESOURCE_WAV"
    );
    // Only WAV bodies are inspected: an Ogg body is taken as encoded bytes.
    ledger.admit_clip("audio/opaque.ogg", b"not inspected".to_vec()).unwrap();
    assert_eq!(
        ledger.admit_clip("audio/bad name.ogg", b"OggS".to_vec()).unwrap_err().code(),
        "CSHARP_RENDER_RESOURCE_PATH"
    );
    assert_eq!(
        ledger.admit_clip("audio/tone.OGG", b"OggS".to_vec()).unwrap_err().code(),
        "CSHARP_AUDIO_RESOURCE_CONTAINER"
    );
    assert_eq!(ledger.clip_count(), 1);
}

#[test]
fn admitted_clip_names_its_asset_hash_and_timing() {
    let mut ledger = AudioLedger::new();
    let clip = ledger.admit_clip("audio/a.wav", wav()).unwrap();
    let admitted = ledger.clip(clip).unwrap();
    let hash = admitted.content_hash().to_string();
    assert!(hash.starts_with("sha256:"));
    assert_eq!(hash.len(), 7 + 64);
    assert_eq!(admitted.asset(), format!("audio/{}", &hash[7..]));
    assert_eq!(
        admitted.resource().identity(),
        format!("audio-resource/{}", &hash[7..])
    );
    let timing = admitted.timing().expect("RIFF/WAVE timing");
    assert_eq!(timing.byte_rate, 4);
    assert_eq!(timing.data_bytes, 4);
    assert_eq!(admitted.owners(), 1);
}

#[test]
fn voices_and_signals_follow_clip_and_handle_rules() {
    let mut ledger = AudioLedger::new();
    let clip = ledger.admit_clip("audio/a.wav", wav()).unwrap();
    assert_eq!(
        ledger.create_voice(99, AudioBus::Sfx).unwrap_err().code(),
        "CSHARP_AUDIO_CLIP_HANDLE"
    );
    assert_eq!(ledger.emit(99).unwrap_err().code(), "CSHARP_AUDIO_CLIP_HANDLE");
    let voice = ledger.create_voice(clip, AudioBus::Sfx).unwrap();
    assert_eq!(voice, 1);
    assert!(ledger.check_voice_update(voice, clip, AudioBus::Sfx).is_ok());
    assert_eq!(
        ledger
            .check_voice_update(voice, clip, AudioBus::Ui)
            .unwrap_err()
            .code(),
        "CSHARP_AUDIO_UPDATE_REPLACEMENT"
    );
    assert_eq!(
        ledger
            .check_voice_update(42, clip, AudioBus::Sfx)
            .unwrap_err()
            .code(),
        "CSHARP_AUDIO_VOICE_HANDLE"
    );
    let replacement = ledger.replace_voice(voice, clip, AudioBus::Ambient).unwrap();
    assert_eq!(replacement, 2);
    assert_eq!(
        ledger.require_live_voice(voice).unwrap_err().code(),
        "CSHARP_AUDIO_VOICE_HANDLE"
    );
    assert!(!ledger.destroy_voice(voice), "old replacement tombstone releases safely");
    assert!(ledger.require_live_voice(replacement).is_ok());
    assert_eq!(ledger.emit(clip).unwrap(), 1);
    assert_eq!(ledger.emit(clip).unwrap(), 2);
    assert!(ledger.destroy_clip(12345).unwrap().is_none());
}

#[test]
fn feedback_batches_must_be_bounded_and_strictly_ordered() {
    let mut ledger = AudioLedger::new();
    let unordered = vec![one_shot_completed(2, 1), one_shot_completed(2, 2)];
    assert_eq!(
        ledger
            .ingest_realized_feedback(false, 0, unordered)
            .unwrap_err()
            .code(),
        "CSHARP_AUDIO_REALIZATION_BOUNDS"
    );
    let too_many = (1..=129).map(|id| one_shot_completed(id, 0)).collect::<Vec<_>>();
    assert!(ledger.ingest_realized_feedback(false, 0, too_many).is_err());
    assert_eq!(ledger.read_realization().retained_fact_count, 0);
}

#[test]
fn feedback_store_evicts_oldest_facts_past_its_bound() {
    let mut ledger = AudioLedger::new();
    let first = (1..=100).map(|id| one_shot_completed(id, 0)).collect::<Vec<_>>();
    ledger.ingest_realized_feedback(false, 0, first).unwrap();
    let second = (101..=150).map(|id| one_shot_completed(id, 0)).collect::<Vec<_>>();
    ledger.ingest_realized_feedback(false, 2, second).unwrap();
    let readout = ledger.read_realization();
    assert_eq!(readout.retained_fact_count, 128);
    assert_eq!(readout.evicted_fact_count, 2 + 22);
    assert_eq!(ledger.read_realization_fact_at(0).fact_id, 23);
    assert_eq!(ledger.read_realization_fact_at(127).fact_id, 150);
    assert!(!ledger.read_realization_fact_at(128).present);
}

#[test]
fn signal_handles_start_at_one_and_count_up() {
    let mut ledger = AudioLedger::new();
    let clip = ledger.admit_clip("audio/trial.wav", wav()).unwrap();
    assert_eq!(ledger.emit(clip).unwrap(), 1);
    assert_eq!(ledger.emit(clip).unwrap(), 2);
    assert_eq!(ledger.emit(99).unwrap_err().code(), "CSHARP_AUDIO_CLIP_HANDLE");
    assert_eq!(ledger.emit(clip).unwrap(), 3, "a refused emit takes no handle");
}
