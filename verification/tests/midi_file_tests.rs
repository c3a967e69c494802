//! Scheduling the events of a MIDI file.

use midi_synthesiser::midi_file::{
    parse_midi_file, schedule_events, FileEvent, FileTiming, ScheduledEvent, SoundingNotes,
    TrackItem, TrackItemKind,
};

/// A format 0 file, 480 ticks per quarter note: C4 on at 0, D4 on at 480,
/// C4 off at 960, D4 off at 1440, end of track.
fn minimal_midi_file() -> Vec<u8> {
    let mut file = Vec::new();
    file.extend_from_slice(b"MThd");
    file.extend_from_slice(&[0, 0, 0, 6]);
    file.extend_from_slice(&[0, 0]);
    file.extend_from_slice(&[0, 1]);
    file.extend_from_slice(&[1, 224]);
    let mut track = vec![0x00, 0x90, 60, 100];
    track.extend_from_slice(&[0x83, 0x60, 0x90, 62, 90]);
    track.extend_from_slice(&[0x83, 0x60, 0x80, 60, 0]);
    track.extend_from_slice(&[0x83, 0x60, 0x80, 62, 0]);
    track.extend_from_slice(&[0x00, 0xFF, 0x2F, 0x00]);
    file.extend_from_slice(b"MTrk");
    file.extend_from_slice(&(track.len() as u32).to_be_bytes());
    file.extend_from_slice(&track);
    file
}

fn item(delta: u32, kind: TrackItemKind) -> TrackItem {
    TrackItem { delta, kind }
}

#[test]
fn minimal_file_is_scheduled_in_time_order() {
    let (timing, events) = parse_midi_file(&minimal_midi_file()).expect("valid file");
    assert_eq!(timing, FileTiming::Metrical { ticks_per_quarter_note: 480 });
    let summary: Vec<(u64, FileEvent)> = events.iter().map(|e| (e.tick, e.event)).collect();
    assert_eq!(
        summary,
        vec![
            (0, FileEvent::NoteOn { key: 60, vel: 100 }),
            (480, FileEvent::NoteOn { key: 62, vel: 90 }),
            (960, FileEvent::NoteOff { key: 60 }),
            (1440, FileEvent::NoteOff { key: 62 }),
        ]
    );
    assert_eq!(events[3].position, 3);
}

#[test]
fn garbage_is_not_a_midi_file() {
    assert!(parse_midi_file(b"This is not a valid MIDI file").is_err());
    assert!(parse_midi_file(&[]).is_err());
}

#[test]
fn tracks_are_merged_by_tick_with_ties_in_track_order() {
    let tempo_track = vec![
        item(0, TrackItemKind::Tempo { us_per_quarter_note: 600_000 }),
        item(100, TrackItemKind::Tempo { us_per_quarter_note: 400_000 }),
    ];
    let note_track = vec![
        item(0, TrackItemKind::NoteOn { key: 60, vel: 80 }),
        item(50, TrackItemKind::Other),
        item(50, TrackItemKind::NoteOff { key: 60 }),
        item(0, TrackItemKind::Controller { controller: 7, value: 99 }),
    ];
    let events = schedule_events(&vec![note_track, tempo_track]);
    let expected = vec![
        ScheduledEvent {
            tick: 0,
            track: 0,
            position: 0,
            event: FileEvent::NoteOn { key: 60, vel: 80 },
        },
        ScheduledEvent {
            tick: 0,
            track: 1,
            position: 0,
            event: FileEvent::Tempo { us_per_quarter_note: 600_000 },
        },
        ScheduledEvent { tick: 100, track: 0, position: 2, event: FileEvent::NoteOff { key: 60 } },
        ScheduledEvent {
            tick: 100,
            track: 0,
            position: 3,
            event: FileEvent::Controller { controller: 7, value: 99 },
        },
        ScheduledEvent {
            tick: 100,
            track: 1,
            position: 1,
            event: FileEvent::Tempo { us_per_quarter_note: 400_000 },
        },
    ];
    assert_eq!(events, expected);
}

#[test]
fn empty_files_schedule_nothing() {
    assert!(schedule_events(&vec![]).is_empty());
    assert!(schedule_events(&vec![vec![], vec![item(5, TrackItemKind::Other)]]).is_empty());
}

#[test]
fn ticks_saturate_instead_of_wrapping() {
    let track = vec![
        item(u32::MAX, TrackItemKind::NoteOn { key: 1, vel: 1 }),
        item(u32::MAX, TrackItemKind::NoteOff { key: 1 }),
    ];
    let events = schedule_events(&vec![track]);
    assert_eq!(events[0].tick, u32::MAX as u64);
    assert_eq!(events[1].tick, 2 * (u32::MAX as u64));
}

#[test]
fn sounding_notes_track_note_on_and_off() {
    let mut notes = SoundingNotes::new();
    assert!(notes.notes_to_release().is_empty());
    notes.record(FileEvent::NoteOn { key: 64, vel: 100 });
    notes.record(FileEvent::NoteOn { key: 60, vel: 90 });
    notes.record(FileEvent::NoteOn { key: 67, vel: 90 });
    notes.record(FileEvent::NoteOff { key: 67 });
    notes.record(FileEvent::Tempo { us_per_quarter_note: 1 });
    assert_eq!(notes.notes_to_release(), vec![60, 64]);
    notes.record(FileEvent::NoteOn { key: 60, vel: 0 });
    assert_eq!(notes.notes_to_release(), vec![64]);
}
