//! Envelope stages, parameter groups, the console keyboard and text helpers.

use midi_synthesiser::envelope::{
    is_active, is_active_no_release, next_stage, stage_on_note_off, stage_on_note_on, Stage,
};
use midi_synthesiser::parameter_sync::{waveform_changed, DirtyGroups};
use midi_synthesiser::text::parse_usize;
use midi_synthesiser::visualisation::{keyboard_display, waveform_name};
use midi_synthesiser::waveform::Waveform;

#[test]
fn envelope_stage_machine_progression() {
    let mut stage = stage_on_note_on();
    assert_eq!(stage, Stage::Attack);
    stage = next_stage(stage, false);
    assert_eq!(stage, Stage::Attack);
    stage = next_stage(stage, true);
    assert_eq!(stage, Stage::Decay);
    stage = next_stage(stage, true);
    assert_eq!(stage, Stage::Sustain);
    assert_eq!(next_stage(stage, true), Stage::Sustain);
    stage = stage_on_note_off(true);
    assert_eq!(stage, Stage::Release);
    assert_eq!(next_stage(stage, false), Stage::Release);
    assert_eq!(next_stage(stage, true), Stage::Idle);
    assert_eq!(next_stage(Stage::Idle, true), Stage::Idle);
}

#[test]
fn release_without_level_is_immediately_idle() {
    assert_eq!(stage_on_note_off(false), Stage::Idle);
}

#[test]
fn activity_of_stages() {
    assert!(!is_active(Stage::Idle));
    assert!(is_active(Stage::Release));
    assert!(is_active_no_release(Stage::Sustain));
    assert!(!is_active_no_release(Stage::Release));
    assert!(!is_active_no_release(Stage::Idle));
}

#[test]
fn dirty_groups_are_applied_once() {
    let mut groups = DirtyGroups::clean();
    assert!(!groups.any());
    groups.filter = true;
    groups.pan = true;
    assert!(groups.any());
    let pending = groups.take();
    assert!(pending.filter && pending.pan && !pending.gain);
    assert_eq!(groups, DirtyGroups::clean());
    assert!(!groups.take().any());
    assert!(waveform_changed(Waveform::Sine, Waveform::Square));
    assert!(!waveform_changed(Waveform::Saw, Waveform::Saw));
}

#[test]
fn keyboard_with_no_active_notes_is_all_off() {
    assert_eq!(keyboard_display(&[]), "[ ]".repeat(12));
}

#[test]
fn active_note_lights_up_its_pitch_class() {
    let keys = keyboard_display(&[60]);
    assert_eq!(keys.matches("[#]").count(), 1);
    assert!(keys.starts_with("[#]"));
    let keys = keyboard_display(&[48, 60, 64]);
    assert_eq!(keys.matches("[#]").count(), 2);
    let all: Vec<u8> = (48..60).collect();
    assert_eq!(keyboard_display(&all), "[#]".repeat(12));
    assert_eq!(&keyboard_display(&[71])[33..36], "[#]");
}

#[test]
fn waveform_names_are_upper_case() {
    assert_eq!(waveform_name(Waveform::Triangle), "TRIANGLE");
    assert_eq!(waveform_name(Waveform::Square), "SQUARE");
    assert_eq!(waveform_name(Waveform::Saw), "SAW");
    assert_eq!(waveform_name(Waveform::Sine), "SINE");
}

#[test]
fn usize_parsing_agrees_with_std() {
    for n in [0usize, 7, 10, 255, 8192, usize::MAX] {
        assert_eq!(parse_usize(&n.to_string()), Some(n));
    }
    for text in ["", "+", "-5", "12a", " 1", "18446744073709551616", "+07", "٣"] {
        assert_eq!(parse_usize(text), text.parse::<usize>().ok(), "{text:?}");
    }
}
