//! Decoding of incoming MIDI messages into synthesiser actions, and the
//! map from MIDI controller numbers to synthesiser parameters.

use vstd::prelude::*;

verus! {

/// What the synthesiser does in response to a MIDI message.
#[derive(Debug, Clone, Copy, PartialEq, Eq, Structural)]
pub enum MidiAction {
    /// Start a note with the given pitch and velocity byte (1-127).
    StartNote { pitch: u8, velocity: u8 },
    /// Release the note with the given pitch.
    ReleaseNote { pitch: u8 },
    /// Apply a control change (controller number and value, 0-127).
    ControlChange { controller: u8, value: u8 },
    /// Nothing to do.
    Ignore,
}

/// A Note On with velocity byte 0 is a Note Off, per the MIDI
/// specification; any other velocity starts the note.
pub open spec fn note_on_spec(pitch: u8, velocity: u8) -> MidiAction {
    if velocity > 0 {
        MidiAction::StartNote { pitch, velocity }
    } else {
        MidiAction::ReleaseNote { pitch }
    }
}

/// Handles a Note On: velocity byte 0 releases the note instead.
pub fn note_on_action(pitch: u8, velocity: u8) -> (action: MidiAction)
    ensures
        action == note_on_spec(pitch, velocity),
{
    if velocity > 0 {
        MidiAction::StartNote { pitch, velocity }
    } else {
        MidiAction::ReleaseNote { pitch }
    }
}

/// The action of a raw MIDI message. Messages shorter than three bytes are
/// ignored. The command is the high nibble of the status byte (the low
/// nibble, the channel, does not matter); the two data bytes are taken
/// modulo 128. Only Note On (9), Note Off (8) and Control Change (11) act.
pub open spec fn message_spec(message: Seq<u8>) -> MidiAction {
    if message.len() < 3 {
        MidiAction::Ignore
    } else {
        let command = message[0] / 16;
        let data1 = (message[1] % 128) as u8;
        let data2 = (message[2] % 128) as u8;
        if command == 9 {
            note_on_spec(data1, data2)
        } else if command == 8 {
            MidiAction::ReleaseNote { pitch: data1 }
        } else if command == 11 {
            MidiAction::ControlChange { controller: data1, value: data2 }
        } else {
            MidiAction::Ignore
        }
    }
}

/// What each MIDI message means. A message of fewer than three bytes is
/// ignored. Otherwise, by the status byte's high nibble: a Note Off (8)
/// releases the pitch of its second byte whatever its velocity byte; a Note
/// On (9) starts the note with its velocity, or releases it when the
/// velocity is 0; a Control Change (11) sets the controller of the second
/// byte to the third; anything else is ignored. Data bytes are read modulo
/// 128.
pub proof fn lemma_message_meanings(message: Seq<u8>)
    ensures
        message.len() < 3 ==> message_spec(message) == MidiAction::Ignore,
        message.len() >= 3 && message[0] / 16 == 8 ==> message_spec(message) == (
        MidiAction::ReleaseNote { pitch: (message[1] % 128) as u8 }),
        message.len() >= 3 && message[0] / 16 == 9 && message[2] % 128 == 0 ==> message_spec(
            message,
        ) == (MidiAction::ReleaseNote { pitch: (message[1] % 128) as u8 }),
        message.len() >= 3 && message[0] / 16 == 9 && message[2] % 128 != 0 ==> message_spec(
            message,
        ) == (MidiAction::StartNote {
            pitch: (message[1] % 128) as u8,
            velocity: (message[2] % 128) as u8,
        }),
        message.len() >= 3 && message[0] / 16 == 11 ==> message_spec(message) == (
        MidiAction::ControlChange {
            controller: (message[1] % 128) as u8,
            value: (message[2] % 128) as u8,
        }),
        message.len() >= 3 && message[0] / 16 != 8 && message[0] / 16 != 9 && message[0] / 16
            != 11 ==> message_spec(message) == MidiAction::Ignore,
{
}

/// The velocity byte of a Note Off never matters: two Note Offs that differ
/// only in it do the same thing.
pub proof fn lemma_note_off_velocity_is_ignored(message: Seq<u8>, velocity: u8)
    requires
        message.len() >= 3,
        message[0] / 16 == 8,
    ensures
        message_spec(message.update(2, velocity)) == message_spec(message),
{
    lemma_message_meanings(message);
    lemma_message_meanings(message.update(2, velocity));
}

/// Decodes an incoming raw MIDI message (as delivered by the MIDI input
/// backend) into the action the synthesiser takes.
pub fn decode_message(message: &[u8]) -> (action: MidiAction)
    ensures
        action == message_spec(message@),
        message@.len() < 3 ==> action == MidiAction::Ignore,
        message@.len() >= 3 && message@[0] / 16 == 8 ==> action == (MidiAction::ReleaseNote {
            pitch: (message@[1] % 128) as u8,
        }),
        message@.len() >= 3 && message@[0] / 16 == 9 && message@[2] % 128 == 0 ==> action == (
        MidiAction::ReleaseNote { pitch: (message@[1] % 128) as u8 }),
        message@.len() >= 3 && message@[0] / 16 == 9 && message@[2] % 128 != 0 ==> action == (
        MidiAction::StartNote {
            pitch: (message@[1] % 128) as u8,
            velocity: (message@[2] % 128) as u8,
        }),
        message@.len() >= 3 && message@[0] / 16 == 11 ==> action == (MidiAction::ControlChange {
            controller: (message@[1] % 128) as u8,
            value: (message@[2] % 128) as u8,
        }),
        message@.len() >= 3 && message@[0] / 16 != 8 && message@[0] / 16 != 9 && message@[0] / 16
            != 11 ==> action == MidiAction::Ignore,
{
    proof {
        lemma_message_meanings(message@);
    }
    if message.len() < 3 {
        return MidiAction::Ignore;
    }
    let command = message[0] / 16;
    let data1 = message[1] % 128;
    let data2 = message[2] % 128;
    if command == 9 {
        note_on_action(data1, data2)
    } else if command == 8 {
        MidiAction::ReleaseNote { pitch: data1 }
    } else if command == 11 {
        MidiAction::ControlChange { controller: data1, value: data2 }
    } else {
        MidiAction::Ignore
    }
}

/// The synthesiser parameter a MIDI controller drives.
#[derive(Debug, Clone, Copy, PartialEq, Eq, Structural)]
pub enum ControlTarget {
    LfoFrequency,
    OscillatorWaveform,
    LfoWaveform,
    FilterCutoff,
    FilterResonance,
    FilterModRange,
    FilterAttackTime,
    FilterDecayTime,
    FilterSustainLevel,
    FilterReleaseTime,
    AmpAttackTime,
    AmpReleaseTime,
    AmpSustainLevel,
    AmpDecayTime,
    MasterVolume,
    PreFilterGain,
    PostFilterGain,
    PanDepth,
}

/// The controller map.
pub open spec fn control_target_spec(controller: u8) -> Option<ControlTarget> {
    if controller == 32 {
        Some(ControlTarget::LfoFrequency)
    } else if controller == 13 {
        Some(ControlTarget::OscillatorWaveform)
    } else if controller == 17 {
        Some(ControlTarget::LfoWaveform)
    } else if controller == 10 {
        Some(ControlTarget::FilterCutoff)
    } else if controller == 11 {
        Some(ControlTarget::FilterResonance)
    } else if controller == 12 {
        Some(ControlTarget::FilterModRange)
    } else if controller == 1 {
        Some(ControlTarget::FilterAttackTime)
    } else if controller == 2 {
        Some(ControlTarget::FilterDecayTime)
    } else if controller == 3 {
        Some(ControlTarget::FilterSustainLevel)
    } else if controller == 4 {
        Some(ControlTarget::FilterReleaseTime)
    } else if controller == 5 {
        Some(ControlTarget::AmpAttackTime)
    } else if controller == 6 {
        Some(ControlTarget::AmpReleaseTime)
    } else if controller == 7 {
        Some(ControlTarget::AmpSustainLevel)
    } else if controller == 8 {
        Some(ControlTarget::AmpDecayTime)
    } else if controller == 9 {
        Some(ControlTarget::MasterVolume)
    } else if controller == 14 {
        Some(ControlTarget::PreFilterGain)
    } else if controller == 15 {
        Some(ControlTarget::PostFilterGain)
    } else if controller == 16 {
        Some(ControlTarget::PanDepth)
    } else {
        None
    }
}

/// Routes a controller number to the synthesiser parameter it drives, or
/// `None` for a controller the synthesiser does not recognise (such a
/// message changes nothing and does not notify the control-change
/// listener).
pub fn control_target(controller: u8) -> (target: Option<ControlTarget>)
    ensures
        target == control_target_spec(controller),
{
    match controller {
        32 => Some(ControlTarget::LfoFrequency),
        13 => Some(ControlTarget::OscillatorWaveform),
        17 => Some(ControlTarget::LfoWaveform),
        10 => Some(ControlTarget::FilterCutoff),
        11 => Some(ControlTarget::FilterResonance),
        12 => Some(ControlTarget::FilterModRange),
        1 => Some(ControlTarget::FilterAttackTime),
        2 => Some(ControlTarget::FilterDecayTime),
        3 => Some(ControlTarget::FilterSustainLevel),
        4 => Some(ControlTarget::FilterReleaseTime),
        5 => Some(ControlTarget::AmpAttackTime),
        6 => Some(ControlTarget::AmpReleaseTime),
        7 => Some(ControlTarget::AmpSustainLevel),
        8 => Some(ControlTarget::AmpDecayTime),
        9 => Some(ControlTarget::MasterVolume),
        14 => Some(ControlTarget::PreFilterGain),
        15 => Some(ControlTarget::PostFilterGain),
        16 => Some(ControlTarget::PanDepth),
        _ => None,
    }
}

/// The MIDI channel (the status byte's low nibble) never changes what a
/// message does: notes on every channel play the same synthesiser.
pub proof fn lemma_channel_is_ignored(message: Seq<u8>, status: u8)
    requires
        message.len() >= 3,
        status / 16 == message[0] / 16,
    ensures
        message_spec(message.update(0, status)) == message_spec(message),
{
}

/// Data bytes are read as 7-bit values, so every decoded pitch, velocity,
/// controller and value is at most 127, and every started note has a
/// non-zero velocity.
pub proof fn lemma_decoded_values_are_seven_bit(message: Seq<u8>)
    ensures
        match message_spec(message) {
            MidiAction::StartNote { pitch, velocity } => pitch < 128 && 0 < velocity < 128,
            MidiAction::ReleaseNote { pitch } => pitch < 128,
            MidiAction::ControlChange { controller, value } => controller < 128 && value < 128,
            MidiAction::Ignore => true,
        },
{
}

} // verus!
