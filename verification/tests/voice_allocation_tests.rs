//! Voice allocation: free voices first, the oldest voice stolen when the
//! pool is full, note-offs releasing every voice of the pitch.

use midi_synthesiser::envelope::Stage;
use midi_synthesiser::voice_allocation::{
    active_voice_count, get_active_notes, plan_note_on, select_voice, voices_to_release,
    VoiceState,
};

fn idle() -> VoiceState {
    VoiceState { stage: Stage::Idle, pitch: 0, note_on_time: 0 }
}

/// Plays a note the way the synthesiser does: release the pitch (here every
/// released voice has a level left, so it enters Release), choose a voice,
/// start the note on it.
fn note_on(voices: &mut Vec<VoiceState>, clock: &mut u64, pitch: u8) -> usize {
    for index in voices_to_release(voices, pitch) {
        voices[index].stage = Stage::Release;
    }
    let target = select_voice(voices);
    *clock += 1;
    voices[target] = VoiceState { stage: Stage::Attack, pitch, note_on_time: *clock };
    target
}

fn note_off(voices: &mut Vec<VoiceState>, pitch: u8) {
    for index in voices_to_release(voices, pitch) {
        voices[index].stage = Stage::Release;
    }
}

#[test]
fn first_free_voice_is_chosen() {
    let mut voices = vec![idle(); 4];
    voices[0].stage = Stage::Sustain;
    voices[1].stage = Stage::Release;
    assert_eq!(select_voice(&voices), 2);
}

#[test]
fn oldest_voice_is_stolen_when_all_are_active() {
    let voices = vec![
        VoiceState { stage: Stage::Sustain, pitch: 60, note_on_time: 5 },
        VoiceState { stage: Stage::Attack, pitch: 61, note_on_time: 2 },
        VoiceState { stage: Stage::Release, pitch: 62, note_on_time: 9 },
        VoiceState { stage: Stage::Decay, pitch: 63, note_on_time: 2 },
    ];
    assert_eq!(select_voice(&voices), 1);
}

#[test]
fn voice_stealing_scenario_steals_in_age_order() {
    let mut voices = vec![idle(); 8];
    let mut clock = 0;
    for i in 0..8 {
        note_on(&mut voices, &mut clock, 60 + i);
    }
    assert_eq!(get_active_notes(&voices, 8).len(), 8);

    note_on(&mut voices, &mut clock, 100);
    let active = get_active_notes(&voices, 8);
    assert_eq!(active.len(), 8);
    assert!(active.contains(&100), "new note not active");
    assert!(!active.contains(&60), "oldest note was not stolen");
    assert!(active.contains(&61), "newer note was wrongly stolen");

    note_on(&mut voices, &mut clock, 101);
    let active = get_active_notes(&voices, 8);
    assert!(!active.contains(&61));
    assert!(active.contains(&100) && active.contains(&101));
}

#[test]
fn retriggering_a_held_note_keeps_one_held_voice() {
    let mut voices = vec![idle(); 8];
    let mut clock = 0;
    note_on(&mut voices, &mut clock, 60);
    note_on(&mut voices, &mut clock, 60);
    assert_eq!(get_active_notes(&voices, 8), vec![60]);
    assert_eq!(active_voice_count(&voices), 2);
}

#[test]
fn note_off_releases_every_active_voice_of_the_pitch() {
    let voices = vec![
        VoiceState { stage: Stage::Sustain, pitch: 60, note_on_time: 1 },
        VoiceState { stage: Stage::Idle, pitch: 60, note_on_time: 2 },
        VoiceState { stage: Stage::Release, pitch: 60, note_on_time: 3 },
        VoiceState { stage: Stage::Attack, pitch: 61, note_on_time: 4 },
    ];
    assert_eq!(voices_to_release(&voices, 60), vec![0, 2]);
    assert_eq!(voices_to_release(&voices, 61), vec![3]);
    assert!(voices_to_release(&voices, 62).is_empty());
}

#[test]
fn released_note_leaves_the_active_list() {
    let mut voices = vec![idle(); 4];
    let mut clock = 0;
    note_on(&mut voices, &mut clock, 64);
    assert_eq!(get_active_notes(&voices, 4), vec![64]);
    note_off(&mut voices, 64);
    assert!(get_active_notes(&voices, 4).is_empty());
    assert_eq!(active_voice_count(&voices), 1);
}

#[test]
fn active_notes_are_truncated_to_the_room_given() {
    let mut voices = vec![idle(); 8];
    let mut clock = 0;
    for i in 0..8 {
        note_on(&mut voices, &mut clock, 36 + i);
    }
    assert_eq!(get_active_notes(&voices, 4), vec![36, 37, 38, 39]);
    assert!(get_active_notes(&voices, 0).is_empty());
}

#[test]
fn active_voice_count_includes_releasing_voices() {
    let voices = vec![
        VoiceState { stage: Stage::Release, pitch: 1, note_on_time: 1 },
        VoiceState { stage: Stage::Idle, pitch: 2, note_on_time: 2 },
        VoiceState { stage: Stage::Decay, pitch: 3, note_on_time: 3 },
    ];
    assert_eq!(active_voice_count(&voices), 2);
    assert_eq!(get_active_notes(&voices, 3), vec![3]);
    assert_eq!(active_voice_count(&[]), 0);
}

#[test]
fn planned_note_on_retriggers_without_stealing() {
    // Voice 0 holds 60 with a level left, voice 1 holds 60 already silent,
    // voice 2 holds 64, voice 3 is idle.
    let voices = vec![
        VoiceState { stage: Stage::Sustain, pitch: 60, note_on_time: 1 },
        VoiceState { stage: Stage::Decay, pitch: 60, note_on_time: 2 },
        VoiceState { stage: Stage::Attack, pitch: 64, note_on_time: 3 },
        idle(),
    ];
    let has_level = vec![true, false, true, false];
    let plan = plan_note_on(&voices, &has_level, 60, 3);
    assert_eq!(plan.release, vec![0, 1]);
    // After the release voice 1 is idle, so the note goes there.
    assert_eq!(plan.target, 1);
    assert_eq!(plan.time, 4);

    let mut after = voices.clone();
    after[0].stage = Stage::Release;
    after[1].stage = Stage::Idle;
    after[plan.target] = VoiceState { stage: Stage::Attack, pitch: 60, note_on_time: plan.time };
    let mut held = get_active_notes(&after, 4);
    held.sort_unstable();
    assert_eq!(held, vec![60, 64]);
    assert_eq!(active_voice_count(&after), 3);
}

#[test]
fn planned_note_on_steals_the_oldest_when_full() {
    let voices = vec![
        VoiceState { stage: Stage::Sustain, pitch: 60, note_on_time: 7 },
        VoiceState { stage: Stage::Release, pitch: 61, note_on_time: 2 },
        VoiceState { stage: Stage::Attack, pitch: 62, note_on_time: 9 },
    ];
    let plan = plan_note_on(&voices, &[true, true, true], 70, 9);
    assert!(plan.release.is_empty());
    assert_eq!(plan.target, 1);
    assert_eq!(plan.time, 10);
}
