//! Decoding of raw MIDI messages and the controller map.

use midi_synthesiser::midi_message::{
    control_target, decode_message, note_on_action, ControlTarget, MidiAction,
};
use midi_synthesiser::waveform::{waveform_from_cc, waveform_label, Waveform};

#[test]
fn note_on_starts_a_note() {
    assert_eq!(
        decode_message(&[0x90, 60, 100]),
        MidiAction::StartNote { pitch: 60, velocity: 100 }
    );
}

#[test]
fn note_off_releases_a_note() {
    assert_eq!(decode_message(&[0x80, 60, 0]), MidiAction::ReleaseNote { pitch: 60 });
}

#[test]
fn note_on_with_zero_velocity_releases_the_note() {
    assert_eq!(decode_message(&[0x90, 60, 0]), MidiAction::ReleaseNote { pitch: 60 });
    assert_eq!(note_on_action(60, 0), MidiAction::ReleaseNote { pitch: 60 });
    assert_eq!(note_on_action(60, 1), MidiAction::StartNote { pitch: 60, velocity: 1 });
}

#[test]
fn every_channel_plays_the_same_synthesiser() {
    assert_eq!(
        decode_message(&[0x91, 61, 100]),
        MidiAction::StartNote { pitch: 61, velocity: 100 }
    );
    assert_eq!(
        decode_message(&[0x9F, 62, 100]),
        MidiAction::StartNote { pitch: 62, velocity: 100 }
    );
    assert_eq!(
        decode_message(&[0xB5, 9, 100]),
        MidiAction::ControlChange { controller: 9, value: 100 }
    );
}

#[test]
fn boundary_pitches_decode() {
    assert_eq!(
        decode_message(&[0x90, 0, 100]),
        MidiAction::StartNote { pitch: 0, velocity: 100 }
    );
    assert_eq!(
        decode_message(&[0x90, 127, 100]),
        MidiAction::StartNote { pitch: 127, velocity: 100 }
    );
}

#[test]
fn short_messages_are_ignored_and_extra_bytes_dropped() {
    assert_eq!(decode_message(&[]), MidiAction::Ignore);
    assert_eq!(decode_message(&[0x90, 60]), MidiAction::Ignore);
    assert_eq!(
        decode_message(&[0x90, 60, 100, 200, 255]),
        MidiAction::StartNote { pitch: 60, velocity: 100 }
    );
}

#[test]
fn data_bytes_are_read_as_seven_bits() {
    assert_eq!(
        decode_message(&[0x90, 200, 255]),
        MidiAction::StartNote { pitch: 72, velocity: 127 }
    );
    assert_eq!(decode_message(&[0x90, 60, 128]), MidiAction::ReleaseNote { pitch: 60 });
}

#[test]
fn other_commands_are_ignored() {
    assert_eq!(decode_message(&[0xE0, 0, 64]), MidiAction::Ignore);
    assert_eq!(decode_message(&[0xC0, 5, 0]), MidiAction::Ignore);
    assert_eq!(decode_message(&[0x60, 60, 100]), MidiAction::Ignore);
}

#[test]
fn controller_map_matches_the_documented_table() {
    let table = [
        (1, ControlTarget::FilterAttackTime),
        (2, ControlTarget::FilterDecayTime),
        (3, ControlTarget::FilterSustainLevel),
        (4, ControlTarget::FilterReleaseTime),
        (5, ControlTarget::AmpAttackTime),
        (6, ControlTarget::AmpReleaseTime),
        (7, ControlTarget::AmpSustainLevel),
        (8, ControlTarget::AmpDecayTime),
        (9, ControlTarget::MasterVolume),
        (10, ControlTarget::FilterCutoff),
        (11, ControlTarget::FilterResonance),
        (12, ControlTarget::FilterModRange),
        (13, ControlTarget::OscillatorWaveform),
        (14, ControlTarget::PreFilterGain),
        (15, ControlTarget::PostFilterGain),
        (16, ControlTarget::PanDepth),
        (17, ControlTarget::LfoWaveform),
        (32, ControlTarget::LfoFrequency),
    ];
    for (controller, target) in table {
        assert_eq!(control_target(controller), Some(target), "CC {controller}");
    }
}

#[test]
fn unrecognized_controllers_have_no_target() {
    for controller in [0u8, 18, 31, 33, 64, 100, 127] {
        assert_eq!(control_target(controller), None, "CC {controller}");
    }
}

#[test]
fn waveform_cc_quartiles() {
    let cases = [
        (0u8, Waveform::Sine),
        (31, Waveform::Sine),
        (32, Waveform::Saw),
        (63, Waveform::Saw),
        (64, Waveform::Triangle),
        (95, Waveform::Triangle),
        (96, Waveform::Square),
        (127, Waveform::Square),
    ];
    for (value, expected) in cases {
        assert_eq!(waveform_from_cc(value), expected, "CC value {value}");
    }
}

#[test]
fn waveform_labels_are_upper_case_names() {
    assert_eq!(waveform_label(Waveform::Sine), "SINE");
    assert_eq!(waveform_label(Waveform::Saw), "SAW");
    assert_eq!(waveform_label(Waveform::Triangle), "TRIANGLE");
    assert_eq!(waveform_label(Waveform::Square), "SQUARE");
}
