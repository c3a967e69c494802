//! Oscillator/LFO waveforms and their MIDI controller and display mappings.

use vstd::prelude::*;

verus! {

/// The available oscillator/LFO waveforms.
#[derive(Debug, Clone, Copy, PartialEq, Eq, Structural)]
pub enum Waveform {
    Sine,
    Saw,
    Triangle,
    Square,
}

/// The waveform a 0-127 controller value selects: the value range is split
/// into four equal quarters, in the order sine, saw, triangle, square.
pub open spec fn waveform_for_value(value: int) -> Waveform {
    if value < 32 {
        Waveform::Sine
    } else if value < 64 {
        Waveform::Saw
    } else if value < 96 {
        Waveform::Triangle
    } else {
        Waveform::Square
    }
}

/// Maps a 0-127 CC value to a waveform by quartile.
pub fn waveform_from_cc(value: u8) -> (waveform: Waveform)
    ensures
        waveform == waveform_for_value(value as int),
{
    if value <= 31 {
        Waveform::Sine
    } else if value <= 63 {
        Waveform::Saw
    } else if value <= 95 {
        Waveform::Triangle
    } else {
        Waveform::Square
    }
}

/// The upper-case display name of a waveform.
pub open spec fn waveform_text(waveform: Waveform) -> Seq<char> {
    match waveform {
        Waveform::Sine => "SINE"@,
        Waveform::Saw => "SAW"@,
        Waveform::Triangle => "TRIANGLE"@,
        Waveform::Square => "SQUARE"@,
    }
}

/// Display name for a waveform, as shown in the waveform choice boxes.
pub fn waveform_label(waveform: Waveform) -> (label: &'static str)
    ensures
        label@ == waveform_text(waveform),
{
    match waveform {
        Waveform::Sine => "SINE",
        Waveform::Saw => "SAW",
        Waveform::Triangle => "TRIANGLE",
        Waveform::Square => "SQUARE",
    }
}

} // verus!
