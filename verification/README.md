# June's Logue — a polyphonic MIDI synthesiser

`src/` is the verified library (`midi_synthesiser`): the decisions the
synthesiser makes on integer data, each with a Verus contract.

| module | what it decides |
|---|---|
| `voice_allocation` | which voice a note goes to (first free, else the oldest), which voices a note-off releases, which notes are held |
| `envelope` | the ADSR stage machine |
| `parameter_sync` | deferred propagation of changed parameter groups to the voices |
| `block_buffer` | bridging fixed engine blocks onto device buffers of any size |
| `midi_message` | decoding raw MIDI messages, the controller map |
| `midi_file` | parsing a Standard MIDI File (through `midly`) and merging its tracks into one time-ordered schedule; the notes to release when playback stops |
| `engine_config` | validation of the engine constants, with a warning for each substituted value |
| `devices` | device lists, the selection prompt, `--audio-device`/`--midi-device` resolution, rescans, the choice of output stream configuration |
| `cli` | command-line parsing |
| `visualisation`, `waveform` | the keyboard row of the console display, waveform names and the CC quartile map |
| `text` | decimal text and `usize` parsing used by the above |

`app/` is the program around it: the floating-point audio engine
(oscillators, filter, envelope levels, voices, mixing), the audio and MIDI
devices (`cpal`, `midir`), MIDI file playback timing, the console display and
the `egui` GUI.
