//! Verified core of a polyphonic MIDI synthesiser: the decisions the audio
//! engine, the MIDI layer and the hosts make on integer data (voice
//! allocation, envelope stage changes, MIDI decoding, configuration
//! validation, MIDI file event scheduling, device selection, CLI options).

pub mod waveform;
pub mod envelope;
pub mod voice_allocation;
pub mod text;
pub mod audio_constants;
pub mod engine_config;
pub mod midi_message;
pub mod midi_file;
pub mod devices;
pub mod cli;
pub mod visualisation;
pub mod parameter_sync;
pub mod block_buffer;
