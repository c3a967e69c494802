//! The engine's compile-time configuration. These values are tunable; they
//! are validated at startup by [`crate::engine_config`].

use vstd::prelude::*;

verus! {

/// The audio sample rate, 44100 Hz, as the bit pattern of its IEEE-754
/// double-precision value (`f64::to_bits`).
pub const SAMPLE_RATE_BITS: u64 = 0x40E5_8880_0000_0000;

/// The number of frames processed per engine block.
pub const BLOCK_SIZE: usize = 32;

/// The size of the output device buffer, in frames.
pub const BUFFER_SIZE: usize = 32;

/// The number of polyphonic voices in the synthesiser.
pub const NUMBER_OF_VOICES: usize = 32;

/// The number of entries in each waveform/filter lookup table.
/// Must be a power of two (the oscillators rely on bitmask phase wrapping).
pub const LOOKUP_TABLE_SIZE: usize = 32768;

} // verus!
