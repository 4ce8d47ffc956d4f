use csharp_engine_services::animation::{
    animation_realization_receipt, AnimationCueDefinition, AnimationCueSignalDomain,
    AnimationRealizationFact, AnimationRealizationFactKind, AnimationState,
};

fn definition(cue_id: &str, asset: &str, clip: &str, signal_id: &str) -> AnimationCueDefinition {
    AnimationCueDefinition {
        cue_id: cue_id.to_string(),
        asset: asset.to_string(),
        clip: clip.to_string(),
        marker_millis: 125,
        signal_domain: AnimationCueSignalDomain::Particle,
        signal_id: signal_id.to_string(),
    }
}

fn stopped(fact_id: u64) -> AnimationRealizationFact {
    AnimationRealizationFact::Stopped {
        fact_id,
        object_id: 3,
        generation: 1,
        sequence: 0,
        reason: "replaced".to_string(),
    }
}

#[test]
fn animation_cue_definitions_are_bounded_copied_and_replace_as_one_snapshot() {
    let mut state = AnimationState::new();
    let output = state
        .replace_cue_definitions(vec![definition(
            "footfall",
            "animated-mesh-resource/test",
            "run",
            "footfall.spark",
        )])
        .expect("replace cue definitions");
    assert_eq!(output.len(), 1);
    assert_eq!(output[0].marker_millis, 125);
    assert_eq!(output[0].signal_domain, AnimationCueSignalDomain::Particle);
    assert_eq!(output[0].cue_id, "footfall");
    assert_eq!(state.cue_definitions().len(), 1);
    assert_eq!(state.cue_definitions()[0].cue_id, "footfall");
    assert_eq!(state.cue_definitions()[0].marker_millis, 125);
    assert_eq!(
        state.cue_definitions()[0].signal_domain,
        AnimationCueSignalDomain::Particle
    );
    let output = state
        .replace_cue_definitions(vec![])
        .expect("clear cue definitions");
    assert!(output.is_empty());
    assert!(state.cue_definitions().is_empty());
}

#[test]
fn cue_definitions_refuse_bad_texts_duplicates_and_excess() {
    let mut state = AnimationState::new();
    state
        .replace_cue_definitions(vec![definition("a", "asset", "clip", "signal")])
        .unwrap();
    assert_eq!(
        state
            .replace_cue_definitions(vec![definition("", "asset", "clip", "signal")])
            .unwrap_err()
            .code(),
        "CSHARP_ANIMATION_CUE_TEXT"
    );
    let long = "x".repeat(97);
    assert_eq!(
        state
            .replace_cue_definitions(vec![definition("a", &long, "clip", "signal")])
            .unwrap_err()
            .code(),
        "CSHARP_ANIMATION_CUE_TEXT"
    );
    let exact = "é".repeat(48);
    assert_eq!(exact.len(), 96);
    assert!(state
        .replace_cue_definitions(vec![definition("a", &exact, "clip", "signal")])
        .is_ok());
    assert_eq!(
        state
            .replace_cue_definitions(vec![
                definition("a", "asset", "clip", "one"),
                definition("a", "asset", "clip", "two"),
            ])
            .unwrap_err()
            .code(),
        "CSHARP_ANIMATION_CUE_DEFINITIONS"
    );
    assert!(state
        .replace_cue_definitions(vec![
            definition("a", "asset", "clip", "one"),
            definition("b", "asset", "clip", "two"),
        ])
        .is_ok());
    let many = (0..129)
        .map(|n| definition(&format!("cue{n}"), "asset", "clip", "s"))
        .collect::<Vec<_>>();
    assert_eq!(
        state.replace_cue_definitions(many).unwrap_err().code(),
        "CSHARP_ANIMATION_CUE_DEFINITIONS"
    );
    assert_eq!(state.cue_definitions().len(), 2);
}

#[test]
fn animation_feedback_is_bounded_and_counts_evictions() {
    let mut state = AnimationState::new();
    state.ingest_realization_feedback(true, 4, (1..=100).map(stopped).collect());
    state.ingest_realization_feedback(false, 2, (101..=140).map(stopped).collect());
    let readout = state.read_realization();
    assert_eq!(readout.retained_fact_count, 128);
    assert_eq!(readout.evicted_fact_count, 4 + 12);
    assert_eq!(state.read_realization_fact_at(0).fact_id, 13);
    assert!(!state.read_realization_fact_at(200).present);
    state.reset_realization_owner();
    let readout = state.read_realization();
    assert_eq!(readout.retained_fact_count, 0);
    assert_eq!(readout.evicted_fact_count, 0);
}

#[test]
fn animation_receipts_flatten_each_fact_kind() {
    let playback = animation_realization_receipt(&AnimationRealizationFact::Playback {
        fact_id: 1,
        object_id: 2,
        generation: 3,
        sequence: 4,
        status: "playing".to_string(),
        clip: None,
        sampled_millis: Some(250),
    });
    assert!(playback.present);
    assert_eq!(playback.kind, AnimationRealizationFactKind::PlaybackObservation);
    assert_eq!(playback.status, "playing");
    assert_eq!(playback.clip, "");
    assert!(playback.has_sampled_millis);
    assert_eq!(playback.sampled_millis, 250);
    assert!(!playback.has_object_id);

    let diagnostic = animation_realization_receipt(&AnimationRealizationFact::Diagnostic {
        fact_id: 5,
        object_id: None,
        generation: Some(9),
        code: "ANIMATION_HOST".to_string(),
        sequence: 6,
    });
    assert_eq!(diagnostic.kind, AnimationRealizationFactKind::Diagnostic);
    assert!(!diagnostic.has_object_id);
    assert!(diagnostic.has_generation);
    assert_eq!(diagnostic.object_id, 0);
    assert_eq!(diagnostic.generation, 9);
    assert_eq!(diagnostic.diagnostic_code, "ANIMATION_HOST");

    let cue = animation_realization_receipt(&AnimationRealizationFact::Cue {
        fact_id: 7,
        object_id: 8,
        generation: 1,
        cue_id: "footfall".to_string(),
        clip: "run".to_string(),
        marker_millis: 125,
        sampled_millis: 130,
        signal_domain: "particle".to_string(),
        signal_id: "footfall.spark".to_string(),
    });
    assert_eq!(cue.kind, AnimationRealizationFactKind::Cue);
    assert!(cue.has_sampled_millis);
    assert_eq!(cue.cue_id, "footfall");
    assert_eq!(cue.signal_id, "footfall.spark");

    let completion = animation_realization_receipt(&AnimationRealizationFact::NaturalCompletion {
        fact_id: 9,
        object_id: 8,
        generation: 1,
        clip: "run".to_string(),
    });
    assert_eq!(completion.kind, AnimationRealizationFactKind::NaturalCompletion);
    assert_eq!(completion.clip, "run");
    assert!(!completion.has_sampled_millis);

    let stop = animation_realization_receipt(&stopped(10));
    assert_eq!(stop.kind, AnimationRealizationFactKind::Stopped);
    assert_eq!(stop.reason, "replaced");
}
