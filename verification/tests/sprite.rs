use csharp_engine_services::animation_graph::AnimationRegistry;
use csharp_engine_services::appearance::AppearanceRegistry;
use csharp_engine_services::resource::{CsharpRenderResource, CsharpRenderResourceKind};
use csharp_engine_services::selection::ResourceSelection;
use csharp_engine_services::table::{HandleTable, TextTable};
use csharp_engine_services::sprite::{
    check_sequence_bounds, precedes, SpritePlayback, SpritePlaybackControl,
    SpritePlaybackLoopMode, SpritePlaybackMarker, SpritePlaybackMarkerCrossing,
    SpritePlaybackState, SpritePlaybackUpdateIdentity,
};

/// A selection holding one admitted atlas texture, and its handle.
fn atlas_texture() -> (ResourceSelection, u64) {
    let mut selection = ResourceSelection::new(TextTable::new());
    let texture = CsharpRenderResource::admitted(
        CsharpRenderResourceKind::Texture,
        "texture-resource/atlas".to_string(),
        "texture/csharp-product-atlas".to_string(),
        "sha256:atlas".to_string(),
        "content/atlas.png".to_string(),
        vec![0x89, b'P', b'N', b'G'],
    )
    .unwrap();
    let handle = selection
        .stage_resource(texture, vec!["content/atlas.png".to_string()])
        .unwrap();
    (selection, handle)
}

/// An atlas defining `frames` over the selected texture, and a sprite
/// appearance showing `shown` from it.
fn atlas_sprite(
    ledger: &mut AppearanceRegistry,
    selection: &ResourceSelection,
    texture: u64,
    frames: Vec<u32>,
    shown: u32,
) -> (u64, u64) {
    ledger.plan_atlas(selection, texture, frames.len()).expect("atlas plan");
    let atlas = ledger.insert_atlas(frames).expect("atlas");
    ledger.atlas_frame(atlas, shown).expect("sprite frame");
    let (appearance, _) = ledger.allocate_appearance().expect("sprite");
    ledger.bind_sprite_appearance(appearance, atlas);
    (atlas, appearance)
}

struct Clock {
    durations: Vec<f64>,
    rate: f64,
    elapsed: f64,
}

fn identity(step: u64) -> SpritePlaybackUpdateIdentity {
    SpritePlaybackUpdateIdentity {
        generation: 1,
        control_revision: 1,
        simulation_step: step,
        admitted_step_count: 1,
    }
}

/// Drives one admitted realtime update the way the Engine host does: the
/// floating-point clock stays here, the cursor decides each boundary.
fn advance(
    playback: &mut SpritePlayback,
    clock: &mut Clock,
    step: u64,
    delta: f64,
) -> Result<(bool, Vec<SpritePlaybackMarkerCrossing>), &'static str> {
    let mut staged = playback.clone();
    let mut elapsed = clock.elapsed;
    let id = identity(step);
    let fresh = staged
        .admit_update(true, true, delta.is_finite() && delta > 0.0, id)
        .map_err(|e| e.code())?;
    let mut crossings = Vec::new();
    let mut advanced = false;
    if fresh && staged.readout().state == SpritePlaybackState::Playing {
        let mut remaining = delta * f64::from(id.admitted_step_count) * clock.rate;
        advanced = remaining > 0.0;
        let mut transitions = 0;
        while remaining > 0.0 && staged.readout().state == SpritePlaybackState::Playing {
            let duration = clock.durations[staged.readout().frame_index as usize];
            let until_boundary = duration - elapsed;
            if remaining < until_boundary {
                elapsed += remaining;
                remaining = 0.0;
                continue;
            }
            remaining -= until_boundary;
            transitions = staged
                .cross_boundary(transitions, &mut crossings)
                .map_err(|e| e.code())?;
            if staged.readout().state == SpritePlaybackState::Completed {
                elapsed = duration;
                remaining = 0.0;
            } else {
                elapsed = 0.0;
            }
        }
        if advanced {
            staged.bump_revision().map_err(|e| e.code())?;
        }
    }
    *playback = staged;
    clock.elapsed = elapsed;
    Ok((advanced, crossings))
}

fn control(playback: &mut SpritePlayback, clock: &mut Clock, c: SpritePlaybackControl) {
    playback.control(c).expect("control");
    if matches!(c, SpritePlaybackControl::Stop | SpritePlaybackControl::Restart) {
        clock.elapsed = 0.0;
    }
}

#[test]
fn sprite_playback_advances_repeated_frames_once_and_controls_lifetime() {
    let (selection, texture) = atlas_texture();
    let mut ledger = AppearanceRegistry::new();
    let (atlas, appearance) = atlas_sprite(&mut ledger, &selection, texture, vec![7, 9], 7);
    let markers = vec![
        SpritePlaybackMarker {
            marker_id: 11,
            frame_index: 1,
        },
        SpritePlaybackMarker {
            marker_id: 12,
            frame_index: 2,
        },
    ];
    let atlas_frames = ledger.playback_frames(atlas, appearance).expect("owned atlas").clone();
    let mut playback = SpritePlayback::create(
        vec![7, 7, 9],
        vec![true, true, true],
        markers,
        SpritePlaybackLoopMode::OneShot,
        &atlas_frames,
    )
    .expect("playback");
    let handle = ledger.insert_playback(appearance, atlas).expect("playback handle");
    let mut clock = Clock {
        durations: vec![0.25, 0.25, 0.25],
        rate: 1.0,
        elapsed: 0.0,
    };
    control(&mut playback, &mut clock, SpritePlaybackControl::Start);
    assert_eq!(
        playback
            .clone()
            .admit_update(false, true, true, identity(1))
            .unwrap_err()
            .code(),
        "CSHARP_SPRITE_PLAYBACK_UPDATE",
        "non-update callback cannot advance"
    );
    let (advanced, crossings) = advance(&mut playback, &mut clock, 1, 0.25).expect("first boundary");
    assert!(advanced);
    assert_eq!(playback.readout().frame_index, 1);
    assert_eq!(playback.readout().frame_id, 7);
    assert_eq!(crossings.len(), 1);
    assert_eq!(crossings[0].marker_id, 11);
    assert_eq!(crossings[0].crossing_sequence, 1);
    let revision = playback.readout().revision;
    let (again, repeated) = advance(&mut playback, &mut clock, 1, 0.25).expect("duplicate");
    assert!(!again);
    assert!(repeated.is_empty());
    assert_eq!(playback.readout().revision, revision);
    let (_, crossings) = advance(&mut playback, &mut clock, 2, 0.25).expect("second boundary");
    assert_eq!(playback.readout().frame_id, 9);
    assert_eq!(crossings[0].marker_id, 12);
    assert_eq!(crossings[0].crossing_sequence, 2);
    assert_eq!(ledger.sprite_atlas_of(appearance).unwrap(), atlas);
    assert!(ledger.atlas_frame(atlas, playback.readout().frame_id).is_ok());
    control(&mut playback, &mut clock, SpritePlaybackControl::Pause);
    let (paused, _) = advance(&mut playback, &mut clock, 3, 0.25).expect("paused update");
    assert!(!paused);
    control(&mut playback, &mut clock, SpritePlaybackControl::Resume);
    let (completed, crossings) = advance(&mut playback, &mut clock, 4, 0.25).expect("completion");
    assert!(completed);
    assert!(crossings.is_empty());
    assert!(playback.readout().completed);
    assert_eq!(playback.readout().state, SpritePlaybackState::Completed);
    control(&mut playback, &mut clock, SpritePlaybackControl::Restart);
    let (after_restart, _) = advance(&mut playback, &mut clock, 4, 0.25).expect("consumed update");
    assert!(!after_restart);
    control(&mut playback, &mut clock, SpritePlaybackControl::Stop);
    control(&mut playback, &mut clock, SpritePlaybackControl::Start);
    let (after_stop_start, _) =
        advance(&mut playback, &mut clock, 4, 0.25).expect("stop and start keep the update");
    assert!(!after_stop_start);
    assert_eq!(
        advance(&mut playback, &mut clock, 3, 0.25).unwrap_err(),
        "CSHARP_SPRITE_PLAYBACK_STALE_UPDATE"
    );
    let animations = AnimationRegistry::new();
    assert_eq!(
        ledger
            .destroy_appearance(appearance, &HandleTable::new(), &animations)
            .unwrap_err()
            .code(),
        "CSHARP_SPRITE_PLAYBACK_APPEARANCE_IN_USE"
    );
    ledger.destroy_playback(handle).expect("dispose playback");
    ledger
        .destroy_appearance(appearance, &HandleTable::new(), &animations)
        .expect("dispose sprite");
    ledger.destroy_atlas(atlas).expect("dispose atlas");
}

#[test]
fn sprite_playback_loop_sampling_restart_and_invalid_creation_are_atomic() {
    let (selection, texture) = atlas_texture();
    let mut ledger = AppearanceRegistry::new();
    let (atlas, appearance) = atlas_sprite(&mut ledger, &selection, texture, vec![4], 4);
    let atlas_frames = ledger.playback_frames(atlas, appearance).expect("owned atlas").clone();
    assert_eq!(
        SpritePlayback::create(
            vec![99],
            vec![true],
            vec![],
            SpritePlaybackLoopMode::Loop,
            &atlas_frames,
        )
        .unwrap_err()
        .code(),
        "CSHARP_SPRITE_PLAYBACK_FRAME"
    );
    assert!(ledger.playback_owners(1).is_err(), "a refused creation retains no playback");
    let mut playback =
        SpritePlayback::create(vec![4], vec![true], vec![], SpritePlaybackLoopMode::Loop, &atlas_frames)
            .expect("loop playback");
    ledger.insert_playback(appearance, atlas).expect("playback handle");
    let mut clock = Clock {
        durations: vec![0.5],
        rate: 2.0,
        elapsed: 0.0,
    };
    control(&mut playback, &mut clock, SpritePlaybackControl::Restart);
    advance(&mut playback, &mut clock, 1, 0.5).expect("loop advance");
    assert_eq!(playback.readout().cycle, 2);
    control(&mut playback, &mut clock, SpritePlaybackControl::Stop);
    assert_eq!(playback.readout().state, SpritePlaybackState::Stopped);
    assert_eq!(playback.readout().frame_index, 0);
    assert_eq!(playback.readout().cycle, 0);
}

#[test]
fn sprite_playback_creation_checks_sequence_and_markers_in_order() {
    let atlas = vec![1, 2];
    let create = |frames: Vec<u32>, durations: Vec<bool>, markers: Vec<(u32, u32)>| {
        SpritePlayback::create(
            frames,
            durations,
            markers
                .into_iter()
                .map(|(marker_id, frame_index)| SpritePlaybackMarker {
                    marker_id,
                    frame_index,
                })
                .collect(),
            SpritePlaybackLoopMode::OneShot,
            &atlas,
        )
        .map(|_| ())
        .map_err(|e| e.code())
    };
    assert_eq!(create(vec![], vec![], vec![]), Err("CSHARP_SPRITE_PLAYBACK_FRAMES"));
    assert_eq!(
        create(vec![1; 4097], vec![true; 4097], vec![]),
        Err("CSHARP_SPRITE_PLAYBACK_FRAMES")
    );
    assert_eq!(
        create(vec![1], vec![true], vec![(1, 0); 4097]),
        Err("CSHARP_SPRITE_PLAYBACK_MARKERS")
    );
    assert_eq!(
        create(vec![1, 3], vec![false, true], vec![]),
        Err("CSHARP_SPRITE_PLAYBACK_DURATION")
    );
    assert_eq!(
        create(vec![3, 1], vec![true, false], vec![]),
        Err("CSHARP_SPRITE_PLAYBACK_FRAME")
    );
    assert_eq!(
        create(vec![1, 2], vec![true, true], vec![(0, 0)]),
        Err("CSHARP_SPRITE_PLAYBACK_MARKER")
    );
    assert_eq!(
        create(vec![1, 2], vec![true, true], vec![(5, 0), (5, 1)]),
        Err("CSHARP_SPRITE_PLAYBACK_MARKER")
    );
    assert_eq!(
        create(vec![1, 2], vec![true, true], vec![(5, 2)]),
        Err("CSHARP_SPRITE_PLAYBACK_MARKER")
    );
    assert_eq!(create(vec![1, 2], vec![true, true], vec![(5, 1), (6, 1)]), Ok(()));
    assert_eq!(
        check_sequence_bounds(1, 0, false).unwrap_err().code(),
        "CSHARP_SPRITE_PLAYBACK_RATE"
    );
    assert!(check_sequence_bounds(1, 0, true).is_ok());
}

#[test]
fn sprite_playback_controls_follow_the_state_machine() {
    let mut playback =
        SpritePlayback::create(vec![1], vec![true], vec![], SpritePlaybackLoopMode::OneShot, &vec![1])
            .unwrap();
    let transition = |p: &mut SpritePlayback, c| p.control(c).map(|r| r.state).map_err(|e| e.code());
    assert_eq!(
        transition(&mut playback, SpritePlaybackControl::Pause),
        Err("CSHARP_SPRITE_PLAYBACK_TRANSITION")
    );
    assert_eq!(
        transition(&mut playback, SpritePlaybackControl::Stop),
        Err("CSHARP_SPRITE_PLAYBACK_TRANSITION")
    );
    assert_eq!(
        transition(&mut playback, SpritePlaybackControl::Start),
        Ok(SpritePlaybackState::Playing)
    );
    assert_eq!(
        transition(&mut playback, SpritePlaybackControl::Start),
        Err("CSHARP_SPRITE_PLAYBACK_TRANSITION")
    );
    assert_eq!(
        transition(&mut playback, SpritePlaybackControl::Pause),
        Ok(SpritePlaybackState::Paused)
    );
    assert_eq!(
        transition(&mut playback, SpritePlaybackControl::Resume),
        Ok(SpritePlaybackState::Playing)
    );
    assert_eq!(playback.readout().revision, 3);
    assert_eq!(
        transition(&mut playback, SpritePlaybackControl::Stop),
        Ok(SpritePlaybackState::Stopped)
    );
    assert_eq!(playback.readout().revision, 4);
}

#[test]
fn update_identities_order_lexicographically() {
    let base = identity(5);
    assert!(precedes(identity(4), base));
    assert!(!precedes(base, base));
    let later_generation = SpritePlaybackUpdateIdentity {
        generation: 2,
        simulation_step: 0,
        ..base
    };
    assert!(precedes(base, later_generation));
    let fewer_steps = SpritePlaybackUpdateIdentity {
        admitted_step_count: 0,
        ..base
    };
    assert!(precedes(fewer_steps, base));
    let mut playback =
        SpritePlayback::create(vec![1], vec![true], vec![], SpritePlaybackLoopMode::Loop, &vec![1])
            .unwrap();
    assert_eq!(
        playback.admit_update(false, true, true, base).unwrap_err().code(),
        "CSHARP_SPRITE_PLAYBACK_UPDATE"
    );
    assert_eq!(
        playback.admit_update(true, false, true, base).unwrap_err().code(),
        "CSHARP_SPRITE_PLAYBACK_UPDATE"
    );
    assert!(playback.admit_update(true, true, true, base).unwrap());
    assert!(!playback.admit_update(true, true, true, base).unwrap());
}
