//! Scheduling of the events of a Standard MIDI File: the tracks are merged
//! into one list of note, controller and tempo events at absolute tick
//! positions, in time order, with events at the same tick kept in track
//! order (so a tempo track written first is applied first).

use vstd::prelude::*;
use midly::{MetaMessage, MidiMessage, Smf, Timing, TrackEventKind};

verus! {

#[verifier::external_type_specification]
#[verifier::external_body]
pub struct ExSmf<'a>(Smf<'a>);

#[verifier::external_type_specification]
#[verifier::external_body]
pub struct ExMidlyError(midly::Error);

/// What `midly::Smf::parse` makes of a file's bytes: `None` when the bytes
/// are not a valid Standard MIDI File, else the file's timing and the items
/// of each of its tracks.
pub uninterp spec fn smf_parse(bytes: Seq<u8>) -> Option<(FileTiming, Seq<Seq<TrackItem>>)>;

/// The items of each track of a parsed file, in track and file order.
pub uninterp spec fn smf_tracks(smf: Smf) -> Seq<Seq<TrackItem>>;

/// The timing of a parsed file.
pub uninterp spec fn smf_timing(smf: Smf) -> FileTiming;

/// Parses a Standard MIDI File with `midly::Smf::parse`. The parsed file
/// is described by `smf_parse` of the bytes; whether the bytes are valid and
/// what they hold is midly's parser, not restated here.
#[verifier::external_body]
fn parse_smf<'a>(bytes: &'a [u8]) -> (parsed: Result<Smf<'a>, midly::Error>)
    ensures
        parsed is Ok <==> smf_parse(bytes@) is Some,
        parsed matches Ok(smf) ==> smf_parse(bytes@) == Some((smf_timing(smf), smf_tracks(smf))),
{
    Smf::parse(bytes)
}

/// The number of tracks of a parsed file (`smf.tracks.len()`).
#[verifier::external_body]
fn smf_track_count(smf: &Smf) -> (count: usize)
    ensures
        count == smf_tracks(*smf).len(),
{
    smf.tracks.len()
}

/// The number of events of one track of a parsed file.
#[verifier::external_body]
fn smf_track_len(smf: &Smf, track: usize) -> (len: usize)
    requires
        track < smf_tracks(*smf).len(),
    ensures
        len == smf_tracks(*smf)[track as int].len(),
{
    smf.tracks[track].len()
}

/// The delta time of one event of a parsed file (midly's `u28` delta as a
/// plain integer).
#[verifier::external_body]
fn smf_item_delta(smf: &Smf, track: usize, index: usize) -> (delta: u32)
    requires
        track < smf_tracks(*smf).len(),
        index < smf_tracks(*smf)[track as int].len(),
    ensures
        delta == smf_tracks(*smf)[track as int][index as int].delta,
{
    smf.tracks[track][index].delta.as_int()
}

/// The kind of one event of a parsed file: midly's note-on, note-off,
/// controller and tempo events with their fields as plain integers, any
/// other event as `Other`. midly holds the data bytes as `u7` and the tempo
/// as `u24`, so the values are in range.
#[verifier::external_body]
fn smf_item_kind(smf: &Smf, track: usize, index: usize) -> (kind: TrackItemKind)
    requires
        track < smf_tracks(*smf).len(),
        index < smf_tracks(*smf)[track as int].len(),
    ensures
        kind == smf_tracks(*smf)[track as int][index as int].kind,
        kind_in_range(kind),
{
    match smf.tracks[track][index].kind {
        TrackEventKind::Midi { message: MidiMessage::NoteOn { key, vel }, .. } => {
            TrackItemKind::NoteOn { key: key.as_int(), vel: vel.as_int() }
        },
        TrackEventKind::Midi { message: MidiMessage::NoteOff { key, .. }, .. } => {
            TrackItemKind::NoteOff { key: key.as_int() }
        },
        TrackEventKind::Midi { message: MidiMessage::Controller { controller, value }, .. } => {
            TrackItemKind::Controller { controller: controller.as_int(), value: value.as_int() }
        },
        TrackEventKind::Meta(MetaMessage::Tempo(tempo)) => {
            TrackItemKind::Tempo { us_per_quarter_note: tempo.as_int() }
        },
        _ => TrackItemKind::Other,
    }
}

/// The timing of a parsed file: midly's metrical ticks per quarter note,
/// or its timecode frame rate and subframes per frame.
#[verifier::external_body]
fn smf_file_timing(smf: &Smf) -> (timing: FileTiming)
    ensures
        timing == smf_timing(*smf),
{
    match smf.header.timing {
        Timing::Metrical(ticks) => FileTiming::Metrical { ticks_per_quarter_note: ticks.as_int() },
        Timing::Timecode(fps, subframes) => FileTiming::Timecode {
            fps: match fps {
                midly::Fps::Fps24 => TimecodeFps::Fps24,
                midly::Fps::Fps25 => TimecodeFps::Fps25,
                midly::Fps::Fps29 => TimecodeFps::Fps29,
                midly::Fps::Fps30 => TimecodeFps::Fps30,
            },
            subframes,
        },
    }
}

/// The frame rate of a timecode-timed file.
#[derive(Debug, Clone, Copy, PartialEq, Eq, Structural)]
pub enum TimecodeFps {
    Fps24,
    Fps25,
    /// 29.97 frames per second (drop-frame).
    Fps29,
    Fps30,
}

/// How the ticks of a MIDI file relate to time.
#[derive(Debug, Clone, Copy, PartialEq, Eq, Structural)]
pub enum FileTiming {
    /// Ticks per quarter note; the tempo events set the quarter-note length.
    Metrical { ticks_per_quarter_note: u16 },
    /// Ticks per second as frames per second times subframes per frame.
    Timecode { fps: TimecodeFps, subframes: u8 },
}

/// The kind of one track event, as far as playback is concerned.
#[derive(Debug, Clone, Copy, PartialEq, Eq, Structural)]
pub enum TrackItemKind {
    NoteOn { key: u8, vel: u8 },
    NoteOff { key: u8 },
    Controller { controller: u8, value: u8 },
    Tempo { us_per_quarter_note: u32 },
    /// Any other event (other channel messages, SysEx, other meta events).
    Other,
}

/// One event of a track: its delta time in ticks since the previous event
/// of the same track, and its kind.
#[derive(Debug, Clone, Copy, PartialEq, Eq, Structural)]
pub struct TrackItem {
    pub delta: u32,
    pub kind: TrackItemKind,
}

/// A playback-relevant event.
#[derive(Debug, Clone, Copy, PartialEq, Eq, Structural)]
pub enum FileEvent {
    NoteOn { key: u8, vel: u8 },
    NoteOff { key: u8 },
    Controller { controller: u8, value: u8 },
    Tempo { us_per_quarter_note: u32 },
}

/// A playback-relevant event at its absolute tick, with the track and the
/// position in the track it comes from.
#[derive(Debug, Clone, Copy, PartialEq, Eq, Structural)]
pub struct ScheduledEvent {
    pub tick: u64,
    pub track: usize,
    pub position: usize,
    pub event: FileEvent,
}

/// The values of a track event are in range: MIDI data bytes (key,
/// velocity, controller, value) below 128, a tempo below 2^24.
pub open spec fn kind_in_range(kind: TrackItemKind) -> bool {
    match kind {
        TrackItemKind::NoteOn { key, vel } => key < 128 && vel < 128,
        TrackItemKind::NoteOff { key } => key < 128,
        TrackItemKind::Controller { controller, value } => controller < 128 && value < 128,
        TrackItemKind::Tempo { us_per_quarter_note } => us_per_quarter_note < 0x100_0000,
        TrackItemKind::Other => true,
    }
}

/// The values of a playback event are in range: MIDI data bytes below 128,
/// a tempo below 2^24.
pub open spec fn event_in_range(event: FileEvent) -> bool {
    match event {
        FileEvent::NoteOn { key, vel } => key < 128 && vel < 128,
        FileEvent::NoteOff { key } => key < 128,
        FileEvent::Controller { controller, value } => controller < 128 && value < 128,
        FileEvent::Tempo { us_per_quarter_note } => us_per_quarter_note < 0x100_0000,
    }
}

/// The playback event of a track item, if it has one.
pub open spec fn kept_event(kind: TrackItemKind) -> Option<FileEvent> {
    match kind {
        TrackItemKind::NoteOn { key, vel } => Some(FileEvent::NoteOn { key, vel }),
        TrackItemKind::NoteOff { key } => Some(FileEvent::NoteOff { key }),
        TrackItemKind::Controller { controller, value } => Some(
            FileEvent::Controller { controller, value },
        ),
        TrackItemKind::Tempo { us_per_quarter_note } => Some(
            FileEvent::Tempo { us_per_quarter_note },
        ),
        TrackItemKind::Other => None,
    }
}

/// Adds a delta to a tick, saturating at the largest tick.
pub open spec fn tick_plus(tick: u64, delta: u32) -> u64 {
    if tick + delta > u64::MAX {
        u64::MAX
    } else {
        (tick + delta) as u64
    }
}

/// The absolute tick of the event at `position` of a track: the sum of the
/// deltas up to and including it (saturating at the largest tick).
pub open spec fn absolute_tick(items: Seq<TrackItem>, position: int) -> u64
    decreases position + 1,
{
    if position < 0 {
        0
    } else {
        tick_plus(absolute_tick(items, position - 1), items[position].delta)
    }
}

/// Absolute ticks never decrease along a track.
pub proof fn lemma_absolute_tick_monotone(items: Seq<TrackItem>, i: int, j: int)
    requires
        i <= j,
    ensures
        absolute_tick(items, i) <= absolute_tick(items, j),
    decreases j - i,
{
    if i < j {
        lemma_absolute_tick_monotone(items, i, j - 1);
    }
}

/// Events are ordered by tick, then track, then position in the track.
pub open spec fn key_less(a: ScheduledEvent, b: ScheduledEvent) -> bool {
    ||| a.tick < b.tick
    ||| a.tick == b.tick && a.track < b.track
    ||| a.tick == b.tick && a.track == b.track && a.position < b.position
}

/// `e` is the scheduled form of the event at `e.position` of track
/// `track`, whose items are `items`.
pub open spec fn is_track_entry(items: Seq<TrackItem>, track: int, e: ScheduledEvent) -> bool {
    &&& e.track == track
    &&& 0 <= e.position < items.len()
    &&& kept_event(items[e.position as int].kind) == Some(e.event)
    &&& e.tick == absolute_tick(items, e.position as int)
}

/// `e` is the scheduled form of an event of the file whose tracks are
/// `tracks`.
pub open spec fn is_file_entry(tracks: Seq<Seq<TrackItem>>, e: ScheduledEvent) -> bool {
    0 <= e.track < tracks.len() && is_track_entry(tracks[e.track as int], e.track as int, e)
}

/// The items of each track of `tracks`.
pub open spec fn track_views(tracks: Seq<Vec<TrackItem>>) -> Seq<Seq<TrackItem>> {
    tracks.map_values(|track: Vec<TrackItem>| track@)
}

/// Strictly increasing in the (tick, track, position) order.
pub open spec fn is_schedule_order(events: Seq<ScheduledEvent>) -> bool {
    forall|k: int, l: int| 0 <= k < l < events.len() ==> key_less(events[k], events[l])
}

/// The scheduled events of one track: exactly its playback-relevant
/// events, in track order.
pub open spec fn is_track_schedule(
    items: Seq<TrackItem>,
    track: int,
    events: Seq<ScheduledEvent>,
) -> bool {
    &&& is_schedule_order(events)
    &&& forall|k: int| 0 <= k < events.len() ==> is_track_entry(items, track, #[trigger] events[k])
    &&& forall|i: int|
        0 <= i < items.len() && (#[trigger] kept_event(items[i].kind)) is Some ==> exists|k: int|
            0 <= k < events.len() && events[k].position == i
}

/// The scheduled events of a whole file: exactly its playback-relevant
/// events, each once, ordered by tick and, at equal ticks, by track and
/// position in the track.
pub open spec fn is_file_schedule(tracks: Seq<Seq<TrackItem>>, events: Seq<ScheduledEvent>) -> bool {
    &&& is_schedule_order(events)
    &&& forall|k: int| 0 <= k < events.len() ==> is_file_entry(tracks, #[trigger] events[k])
    &&& forall|t: int, i: int|
        0 <= t < tracks.len() && 0 <= i < tracks[t].len() && (#[trigger] kept_event(
            tracks[t][i].kind,
        )) is Some ==> exists|k: int|
            0 <= k < events.len() && events[k].track == t && events[k].position == i
}

/// A schedule plays every note, controller and tempo event of the file as
/// it is written: each Note On, whatever its velocity (a velocity of 0 is
/// how many files end a note), each Note Off, Control Change and tempo
/// change is scheduled with the same values from its own track and
/// position; every other event is left out.
pub proof fn lemma_schedule_keeps_every_event(tracks: Seq<Seq<TrackItem>>, events: Seq<ScheduledEvent>)
    requires
        is_file_schedule(tracks, events),
    ensures
        forall|t: int, i: int|
            0 <= t < tracks.len() && 0 <= i < tracks[t].len() ==> match (#[trigger] tracks[t][i]).kind {
                TrackItemKind::NoteOn { key, vel } => exists|k: int|
                    0 <= k < events.len() && events[k].track == t && events[k].position == i
                        && events[k].event == (FileEvent::NoteOn { key, vel }),
                TrackItemKind::NoteOff { key } => exists|k: int|
                    0 <= k < events.len() && events[k].track == t && events[k].position == i
                        && events[k].event == (FileEvent::NoteOff { key }),
                TrackItemKind::Controller { controller, value } => exists|k: int|
                    0 <= k < events.len() && events[k].track == t && events[k].position == i
                        && events[k].event == (FileEvent::Controller { controller, value }),
                TrackItemKind::Tempo { us_per_quarter_note } => exists|k: int|
                    0 <= k < events.len() && events[k].track == t && events[k].position == i
                        && events[k].event == (FileEvent::Tempo { us_per_quarter_note }),
                TrackItemKind::Other => forall|k: int|
                    0 <= k < events.len() ==> !(events[k].track == t && events[k].position == i),
            },
{
    assert forall|t: int, i: int| 0 <= t < tracks.len() && 0 <= i < tracks[t].len() implies
        match (#[trigger] tracks[t][i]).kind {
        TrackItemKind::NoteOn { key, vel } => exists|k: int|
            0 <= k < events.len() && events[k].track == t && events[k].position == i
                && events[k].event == (FileEvent::NoteOn { key, vel }),
        TrackItemKind::NoteOff { key } => exists|k: int|
            0 <= k < events.len() && events[k].track == t && events[k].position == i
                && events[k].event == (FileEvent::NoteOff { key }),
        TrackItemKind::Controller { controller, value } => exists|k: int|
            0 <= k < events.len() && events[k].track == t && events[k].position == i
                && events[k].event == (FileEvent::Controller { controller, value }),
        TrackItemKind::Tempo { us_per_quarter_note } => exists|k: int|
            0 <= k < events.len() && events[k].track == t && events[k].position == i
                && events[k].event == (FileEvent::Tempo { us_per_quarter_note }),
        TrackItemKind::Other => forall|k: int|
            0 <= k < events.len() ==> !(events[k].track == t && events[k].position == i),
    } by {
        let kind = tracks[t][i].kind;
        if kept_event(kind) is Some {
            let k = choose|k: int|
                0 <= k < events.len() && events[k].track == t && events[k].position == i;
            assert(is_file_entry(tracks, events[k]));
        } else {
            assert forall|k: int| 0 <= k < events.len() implies !(events[k].track == t
                && events[k].position == i) by {
                assert(is_file_entry(tracks, events[k]));
            }
        }
    }
}

fn file_event(kind: TrackItemKind) -> (event: Option<FileEvent>)
    ensures
        event == kept_event(kind),
{
    match kind {
        TrackItemKind::NoteOn { key, vel } => Some(FileEvent::NoteOn { key, vel }),
        TrackItemKind::NoteOff { key } => Some(FileEvent::NoteOff { key }),
        TrackItemKind::Controller { controller, value } => Some(
            FileEvent::Controller { controller, value },
        ),
        TrackItemKind::Tempo { us_per_quarter_note } => Some(
            FileEvent::Tempo { us_per_quarter_note },
        ),
        TrackItemKind::Other => None,
    }
}

/// Computes the absolute tick of every playback-relevant event of one
/// track, in track order.
pub fn track_schedule(items: &Vec<TrackItem>, track: usize) -> (events: Vec<ScheduledEvent>)
    ensures
        is_track_schedule(items@, track as int, events@),
{
    let n = items.len();
    let mut events: Vec<ScheduledEvent> = Vec::new();
    let mut tick: u64 = 0;
    let mut i: usize = 0;
    while i < n
        invariant
            n == items@.len(),
            0 <= i <= n,
            tick == absolute_tick(items@, i - 1),
            forall|k: int, l: int|
                0 <= k < l < events@.len() ==> events@[k].position < events@[l].position,
            forall|k: int|
                0 <= k < events@.len() ==> is_track_entry(items@, track as int, #[trigger] events@[k]),
            forall|k: int| 0 <= k < events@.len() ==> #[trigger] events@[k].position < i,
            forall|j: int|
                0 <= j < i && (#[trigger] kept_event(items@[j].kind)) is Some ==> exists|k: int|
                    0 <= k < events@.len() && events@[k].position == j,
        decreases n - i,
    {
        let item = items[i];
        tick = tick.saturating_add(item.delta as u64);
        match file_event(item.kind) {
            Some(event) => {
                let ghost before = events@;
                events.push(ScheduledEvent { tick, track, position: i, event });
                assert forall|j: int|
                    0 <= j < i + 1 && (#[trigger] kept_event(items@[j].kind)) is Some implies exists|k: int|
                    0 <= k < events@.len() && events@[k].position == j by {
                    if j < i {
                        let k = choose|k: int| 0 <= k < before.len() && before[k].position == j;
                        assert(events@[k] == before[k]);
                    } else {
                        assert(events@[before.len() as int].position == j);
                    }
                }
            },
            None => {},
        }
        i = i + 1;
    }
    assert forall|k: int, l: int| 0 <= k < l < events@.len() implies key_less(
        events@[k],
        events@[l],
    ) by {
        lemma_absolute_tick_monotone(
            items@,
            events@[k].position as int,
            events@[l].position as int,
        );
    }
    events
}

/// The number of events not yet taken from the first `n` lists, given how
/// far each list has been read.
pub open spec fn remaining_count(
    lists: Seq<Vec<ScheduledEvent>>,
    cursors: Seq<usize>,
    n: int,
) -> int
    decreases n,
{
    if n <= 0 {
        0
    } else {
        remaining_count(lists, cursors, n - 1) + (lists[n - 1]@.len() - cursors[n - 1])
    }
}

proof fn lemma_remaining_nonnegative(lists: Seq<Vec<ScheduledEvent>>, cursors: Seq<usize>, n: int)
    requires
        n <= lists.len(),
        n <= cursors.len(),
        forall|t: int| 0 <= t < n ==> cursors[t] <= #[trigger] lists[t]@.len(),
    ensures
        remaining_count(lists, cursors, n) >= 0,
    decreases n,
{
    if n > 0 {
        lemma_remaining_nonnegative(lists, cursors, n - 1);
    }
}

proof fn lemma_remaining_after_advance(
    lists: Seq<Vec<ScheduledEvent>>,
    cursors: Seq<usize>,
    n: int,
    m: int,
)
    requires
        0 <= m < n <= cursors.len(),
        cursors[m] < usize::MAX,
    ensures
        remaining_count(lists, cursors.update(m, (cursors[m] + 1) as usize), n) == remaining_count(
            lists,
            cursors,
            n,
        ) - 1,
    decreases n,
{
    if n - 1 > m {
        lemma_remaining_after_advance(lists, cursors, n - 1, m);
    } else {
        assert forall|t: int| 0 <= t < n - 1 implies cursors.update(
            m,
            (cursors[m] + 1) as usize,
        )[t] == cursors[t] by {}
        lemma_remaining_same_prefix(lists, cursors, cursors.update(m, (cursors[m] + 1) as usize), n - 1);
    }
}

proof fn lemma_remaining_same_prefix(
    lists: Seq<Vec<ScheduledEvent>>,
    a: Seq<usize>,
    b: Seq<usize>,
    n: int,
)
    requires
        forall|t: int| 0 <= t < n ==> a[t] == b[t],
    ensures
        remaining_count(lists, a, n) == remaining_count(lists, b, n),
    decreases n,
{
    if n > 0 {
        lemma_remaining_same_prefix(lists, a, b, n - 1);
    }
}

/// Each list is in schedule order and holds only events of its own track.
pub open spec fn lists_well_formed(lists: Seq<Vec<ScheduledEvent>>) -> bool {
    &&& forall|t: int| 0 <= t < lists.len() ==> is_schedule_order(#[trigger] lists[t]@)
    &&& forall|t: int, j: int|
        0 <= t < lists.len() && 0 <= j < lists[t]@.len() ==> (#[trigger] lists[t]@[j]).track == t
}

/// The state of a merge that has taken, from each list `t`, its first
/// `cursors[t]` events into `merged`; `origin[k]` records the list and
/// index `merged[k]` was taken from.
pub open spec fn merge_invariant(
    lists: Seq<Vec<ScheduledEvent>>,
    cursors: Seq<usize>,
    merged: Seq<ScheduledEvent>,
    origin: Seq<(int, int)>,
) -> bool {
    let n = lists.len();
    &&& cursors.len() == n
    &&& forall|t: int| 0 <= t < n ==> cursors[t] <= #[trigger] lists[t]@.len()
    &&& is_schedule_order(merged)
    &&& origin.len() == merged.len()
    &&& forall|k: int|
        #![trigger origin[k]]
        0 <= k < merged.len() ==> 0 <= origin[k].0 < n && 0 <= origin[k].1 < cursors[origin[k].0]
            && merged[k] == lists[origin[k].0]@[origin[k].1]
    &&& forall|t: int, j: int|
        0 <= t < n && 0 <= j < cursors[t] ==> merged.contains(#[trigger] lists[t]@[j])
    &&& forall|k: int, t: int, j: int|
        0 <= k < merged.len() && 0 <= t < n && cursors[t] <= j < lists[t]@.len() ==> key_less(
            #[trigger] merged[k],
            #[trigger] lists[t]@[j],
        )
}

/// `best` is the list whose next event comes first: earliest tick, lowest
/// list on equal ticks.
pub open spec fn is_earliest_head(
    lists: Seq<Vec<ScheduledEvent>>,
    cursors: Seq<usize>,
    best: int,
) -> bool {
    &&& 0 <= best < lists.len()
    &&& cursors[best] < lists[best]@.len()
    &&& forall|u: int|
        0 <= u < lists.len() && cursors[u] < lists[u]@.len() ==> {
            let h = lists[best]@[cursors[best] as int];
            let g = #[trigger] lists[u]@[cursors[u] as int];
            h.tick < g.tick || (h.tick == g.tick && best <= u)
        }
}

/// The event taken from the earliest head precedes every event still
/// pending once it is taken.
proof fn lemma_taken_precedes_pending(
    lists: Seq<Vec<ScheduledEvent>>,
    cursors: Seq<usize>,
    best: int,
    u: int,
    j: int,
)
    requires
        lists_well_formed(lists),
        cursors.len() == lists.len(),
        is_earliest_head(lists, cursors, best),
        0 <= u < lists.len(),
        cursors[u] <= j < lists[u]@.len(),
        u == best ==> cursors[u] < j,
    ensures
        key_less(lists[best]@[cursors[best] as int], lists[u]@[j]),
{
    let c = cursors[best] as int;
    let e = lists[best]@[c];
    assert(is_schedule_order(lists[u]@));
    assert(is_schedule_order(lists[best]@));
    if u == best {
        assert(key_less(lists[u]@[c], lists[u]@[j]));
    } else {
        let g = lists[u]@[cursors[u] as int];
        assert(g.track == u);
        assert(e.track == best);
        assert(key_less(e, g));
        if j > cursors[u] {
            assert(key_less(g, lists[u]@[j]));
        }
    }
}

proof fn lemma_merge_step(
    lists: Seq<Vec<ScheduledEvent>>,
    cursors: Seq<usize>,
    merged: Seq<ScheduledEvent>,
    origin: Seq<(int, int)>,
    best: int,
)
    requires
        lists_well_formed(lists),
        merge_invariant(lists, cursors, merged, origin),
        is_earliest_head(lists, cursors, best),
        cursors[best] < usize::MAX,
    ensures
        merge_invariant(
            lists,
            cursors.update(best, (cursors[best] + 1) as usize),
            merged.push(lists[best]@[cursors[best] as int]),
            origin.push((best, cursors[best] as int)),
        ),
{
    let n = lists.len();
    let c = cursors[best] as int;
    let e = lists[best]@[c];
    let new_cursors = cursors.update(best, (cursors[best] + 1) as usize);
    let new_merged = merged.push(e);
    assert forall|k: int, u: int, j: int|
        0 <= k < new_merged.len() && 0 <= u < n && new_cursors[u] <= j < lists[u]@.len()
            implies key_less(#[trigger] new_merged[k], #[trigger] lists[u]@[j]) by {
        if k < merged.len() {
            assert(new_merged[k] == merged[k]);
            assert(cursors[u] <= j);
        } else {
            assert(new_merged[k] == e);
            lemma_taken_precedes_pending(lists, cursors, best, u, j);
        }
    }
    assert forall|k: int, l: int| 0 <= k < l < new_merged.len() implies key_less(
        new_merged[k],
        new_merged[l],
    ) by {
        if l < merged.len() {
            assert(new_merged[k] == merged[k]);
            assert(new_merged[l] == merged[l]);
        } else {
            assert(new_merged[k] == merged[k]);
            assert(new_merged[l] == lists[best]@[c]);
            assert(key_less(merged[k], lists[best]@[c]));
        }
    }
    let new_origin = origin.push((best, c));
    assert forall|k: int| #![trigger new_origin[k]] 0 <= k < new_merged.len() implies 0
        <= new_origin[k].0 < n && 0 <= new_origin[k].1 < new_cursors[new_origin[k].0]
        && new_merged[k] == lists[new_origin[k].0]@[new_origin[k].1] by {
        if k < merged.len() {
            assert(new_origin[k] == origin[k]);
            assert(new_merged[k] == merged[k]);
        }
    }
    assert forall|u: int, j: int| 0 <= u < n && 0 <= j < new_cursors[u] implies new_merged.contains(
        #[trigger] lists[u]@[j],
    ) by {
        if u == best && j == c {
            assert(new_merged[merged.len() as int] == lists[u]@[j]);
        } else {
            assert(j < cursors[u]);
            let k = choose|k: int| 0 <= k < merged.len() && merged[k] == lists[u]@[j];
            assert(new_merged[k] == merged[k]);
        }
    }
}

/// A merge that has read every list to its end has taken every event, and
/// took only events of the lists.
proof fn lemma_merge_complete(
    tracks: Seq<Seq<TrackItem>>,
    lists: Seq<Vec<ScheduledEvent>>,
    cursors: Seq<usize>,
    merged: Seq<ScheduledEvent>,
    origin: Seq<(int, int)>,
)
    requires
        merge_invariant(lists, cursors, merged, origin),
        forall|u: int| 0 <= u < lists.len() ==> cursors[u] == #[trigger] lists[u]@.len(),
        forall|t: int, j: int|
            0 <= t < lists.len() && 0 <= j < lists[t]@.len() ==> is_file_entry(
                tracks,
                #[trigger] lists[t]@[j],
            ),
    ensures
        forall|k: int| 0 <= k < merged.len() ==> is_file_entry(tracks, #[trigger] merged[k]),
        forall|t: int, j: int|
            0 <= t < lists.len() && 0 <= j < lists[t]@.len() ==> merged.contains(
                #[trigger] lists[t]@[j],
            ),
{
    assert forall|k: int| 0 <= k < merged.len() implies is_file_entry(
        tracks,
        #[trigger] merged[k],
    ) by {
        let (t, j) = origin[k];
        assert(merged[k] == lists[t]@[j]);
    }
    assert forall|t: int, j: int|
        0 <= t < lists.len() && 0 <= j < lists[t]@.len() implies merged.contains(
        #[trigger] lists[t]@[j],
    ) by {
        assert(cursors[t] == lists[t]@.len());
    }
}

/// Finds the list whose next event comes first, or `lists.len()` when every
/// list has been read to its end.
fn earliest_head(lists: &Vec<Vec<ScheduledEvent>>, cursors: &Vec<usize>) -> (best: usize)
    requires
        cursors@.len() == lists@.len(),
        forall|u: int| 0 <= u < lists@.len() ==> cursors@[u] <= #[trigger] lists@[u]@.len(),
    ensures
        best == lists@.len() ==> forall|u: int|
            0 <= u < lists@.len() ==> cursors@[u] == #[trigger] lists@[u]@.len(),
        best != lists@.len() ==> is_earliest_head(lists@, cursors@, best as int),
{
    let n = lists.len();
    let mut best: usize = n;
    let mut t: usize = 0;
    while t < n
        invariant
            n == lists@.len(),
            cursors@.len() == n,
            0 <= t <= n,
            best == n || (best < t && cursors@[best as int] < lists@[best as int]@.len()),
            best == n ==> forall|u: int| 0 <= u < t ==> cursors@[u] == #[trigger] lists@[u]@.len(),
            best < n ==> forall|u: int|
                0 <= u < t && cursors@[u] < lists@[u]@.len() ==> {
                    let h = lists@[best as int]@[cursors@[best as int] as int];
                    let g = #[trigger] lists@[u]@[cursors@[u] as int];
                    h.tick < g.tick || (h.tick == g.tick && best <= u)
                },
            forall|u: int| 0 <= u < n ==> cursors@[u] <= #[trigger] lists@[u]@.len(),
        decreases n - t,
    {
        if cursors[t] < lists[t].len() {
            if best == n || lists[t][cursors[t]].tick < lists[best][cursors[best]].tick {
                best = t;
            }
        }
        t = t + 1;
    }
    best
}

/// Merges per-track schedules into one: repeatedly takes the earliest
/// pending event, preferring the lower track on equal ticks.
pub fn merge_schedules(tracks: &Vec<Vec<TrackItem>>, lists: &Vec<Vec<ScheduledEvent>>) -> (merged:
    Vec<ScheduledEvent>)
    requires
        lists_well_formed(lists@),
        forall|t: int, j: int|
            0 <= t < lists@.len() && 0 <= j < lists@[t]@.len() ==> is_file_entry(
                track_views(tracks@),
                #[trigger] lists@[t]@[j],
            ),
    ensures
        is_schedule_order(merged@),
        forall|k: int|
            0 <= k < merged@.len() ==> is_file_entry(track_views(tracks@), #[trigger] merged@[k]),
        forall|t: int, j: int|
            0 <= t < lists@.len() && 0 <= j < lists@[t]@.len() ==> merged@.contains(
                #[trigger] lists@[t]@[j],
            ),
{
    let n = lists.len();
    let mut cursors: Vec<usize> = Vec::new();
    let mut i: usize = 0;
    while i < n
        invariant
            n == lists@.len(),
            0 <= i <= n,
            cursors@.len() == i,
            forall|t: int| 0 <= t < i ==> cursors@[t] == 0,
        decreases n - i,
    {
        cursors.push(0);
        i = i + 1;
    }
    let mut merged: Vec<ScheduledEvent> = Vec::new();
    let ghost mut origin: Seq<(int, int)> = Seq::empty();
    proof {
        lemma_remaining_nonnegative(lists@, cursors@, n as int);
    }
    loop
        invariant
            n == lists@.len(),
            lists_well_formed(lists@),
            merge_invariant(lists@, cursors@, merged@, origin),
            remaining_count(lists@, cursors@, n as int) >= 0,
        ensures
            merge_invariant(lists@, cursors@, merged@, origin),
            forall|u: int| 0 <= u < n ==> cursors@[u] == #[trigger] lists@[u]@.len(),
        decreases remaining_count(lists@, cursors@, n as int),
    {
        let best = earliest_head(lists, &cursors);
        if best == n {
            break;
        }
        let c = cursors[best];
        let count = lists[best].len();
        assert(c < count);
        let e = lists[best][c];
        proof {
            lemma_merge_step(lists@, cursors@, merged@, origin, best as int);
            lemma_remaining_after_advance(lists@, cursors@, n as int, best as int);
        }
        merged.push(e);
        cursors.set(best, c + 1);
        proof {
            origin = origin.push((best as int, c as int));
            lemma_remaining_nonnegative(lists@, cursors@, n as int);
        }
    }
    proof {
        lemma_merge_complete(track_views(tracks@), lists@, cursors@, merged@, origin);
    }
    merged
}

proof fn lemma_schedule_complete(
    tracks: Seq<Seq<TrackItem>>,
    lists: Seq<Vec<ScheduledEvent>>,
    merged: Seq<ScheduledEvent>,
)
    requires
        lists.len() == tracks.len(),
        forall|u: int|
            0 <= u < lists.len() ==> is_track_schedule(tracks[u], u, #[trigger] lists[u]@),
        forall|t: int, j: int|
            0 <= t < lists.len() && 0 <= j < lists[t]@.len() ==> merged.contains(
                #[trigger] lists[t]@[j],
            ),
    ensures
        forall|t: int, i: int|
            0 <= t < tracks.len() && 0 <= i < tracks[t].len() && (#[trigger] kept_event(
                tracks[t][i].kind,
            )) is Some ==> exists|k: int|
                0 <= k < merged.len() && merged[k].track == t && merged[k].position == i,
{
    assert forall|t: int, i: int|
        0 <= t < tracks.len() && 0 <= i < tracks[t].len() && (#[trigger] kept_event(
            tracks[t][i].kind,
        )) is Some implies exists|k: int|
        0 <= k < merged.len() && merged[k].track == t && merged[k].position == i by {
        assert(is_track_schedule(tracks[t], t, lists[t]@));
        assert(kept_event(tracks[t][i].kind) is Some);
        let j = choose|j: int| 0 <= j < lists[t]@.len() && lists[t]@[j].position == i;
        let e = lists[t]@[j];
        assert(merged.contains(e));
        let k = choose|k: int| 0 <= k < merged.len() && merged[k] == e;
        assert(is_track_entry(tracks[t], t, e));
        assert(merged[k].track == t && merged[k].position == i);
    }
}

/// Merges the tracks of a MIDI file into one list of playback events at
/// absolute tick positions, ordered by tick; events at the same tick keep
/// track order, and within a track, file order.
pub fn schedule_events(tracks: &Vec<Vec<TrackItem>>) -> (events: Vec<ScheduledEvent>)
    ensures
        is_file_schedule(track_views(tracks@), events@),
        forall|t: int, i: int|
            0 <= t < track_views(tracks@).len() && 0 <= i < track_views(tracks@)[t].len() ==> match (#[trigger] track_views(tracks@)[t][i]).kind {
                TrackItemKind::NoteOn { key, vel } => exists|k: int|
                    0 <= k < events@.len() && events@[k].track == t && events@[k].position == i
                        && events@[k].event == (FileEvent::NoteOn { key, vel }),
                TrackItemKind::NoteOff { key } => exists|k: int|
                    0 <= k < events@.len() && events@[k].track == t && events@[k].position == i
                        && events@[k].event == (FileEvent::NoteOff { key }),
                TrackItemKind::Controller { controller, value } => exists|k: int|
                    0 <= k < events@.len() && events@[k].track == t && events@[k].position == i
                        && events@[k].event == (FileEvent::Controller { controller, value }),
                TrackItemKind::Tempo { us_per_quarter_note } => exists|k: int|
                    0 <= k < events@.len() && events@[k].track == t && events@[k].position == i
                        && events@[k].event == (FileEvent::Tempo { us_per_quarter_note }),
                TrackItemKind::Other => forall|k: int|
                    0 <= k < events@.len() ==> !(events@[k].track == t && events@[k].position == i),
            },
{
    let n = tracks.len();
    let mut lists: Vec<Vec<ScheduledEvent>> = Vec::new();
    let mut t: usize = 0;
    while t < n
        invariant
            n == tracks@.len(),
            0 <= t <= n,
            lists@.len() == t,
            forall|u: int|
                0 <= u < t ==> is_track_schedule(tracks@[u]@, u, #[trigger] lists@[u]@),
        decreases n - t,
    {
        let track_events = track_schedule(&tracks[t], t);
        lists.push(track_events);
        proof {
            assert forall|u: int| 0 <= u < t + 1 implies is_track_schedule(
                tracks@[u]@,
                u,
                #[trigger] lists@[u]@,
            ) by {
                if u == t {
                    assert(lists@[u] == track_events);
                }
            }
        }
        t = t + 1;
    }
    proof {
        assert forall|u: int| 0 <= u < lists@.len() implies is_schedule_order(
            #[trigger] lists@[u]@,
        ) by {
            assert(is_track_schedule(tracks@[u]@, u, lists@[u]@));
        }
        assert forall|u: int, j: int|
            0 <= u < lists@.len() && 0 <= j < lists@[u]@.len() implies (#[trigger] lists@[u]@[j]).track
            == u && is_file_entry(track_views(tracks@), lists@[u]@[j]) by {
            assert(track_views(tracks@)[u] == tracks@[u]@);
            assert(is_track_schedule(tracks@[u]@, u, lists@[u]@));
            assert(is_track_entry(tracks@[u]@, u, lists@[u]@[j]));
        }
    }
    let events = merge_schedules(tracks, &lists);
    proof {
        assert forall|u: int| 0 <= u < lists@.len() implies is_track_schedule(
            track_views(tracks@)[u],
            u,
            #[trigger] lists@[u]@,
        ) by {
            assert(track_views(tracks@)[u] == tracks@[u]@);
        }
        lemma_schedule_complete(track_views(tracks@), lists@, events@);
        lemma_schedule_keeps_every_event(track_views(tracks@), events@);
    }
    events
}

/// In a file's schedule, ticks never decrease; events at the same tick come
/// in track order, and events of one track keep their order in the file;
/// no event of the file is scheduled twice.
pub proof fn lemma_schedule_is_stable_time_order(
    tracks: Seq<Seq<TrackItem>>,
    events: Seq<ScheduledEvent>,
    k: int,
    l: int,
)
    requires
        is_file_schedule(tracks, events),
        0 <= k < l < events.len(),
    ensures
        events[k].tick <= events[l].tick,
        events[k].tick == events[l].tick ==> events[k].track <= events[l].track,
        events[k].track == events[l].track ==> events[k].position < events[l].position,
        !(events[k].track == events[l].track && events[k].position == events[l].position),
{
    assert(key_less(events[k], events[l]));
    if events[k].track == events[l].track && events[k].position >= events[l].position {
        let t = events[k].track as int;
        assert(is_file_entry(tracks, events[k]));
        assert(is_file_entry(tracks, events[l]));
        lemma_absolute_tick_monotone(
            tracks[t],
            events[l].position as int,
            events[k].position as int,
        );
    }
}

/// The notes a playback has started and not yet released, so that they can
/// be released if playback stops early.
pub struct SoundingNotes {
    on: Vec<bool>,
}

impl View for SoundingNotes {
    type V = Seq<bool>;

    /// Entry `key` is true while note `key` is sounding.
    closed spec fn view(&self) -> Seq<bool> {
        self.on@
    }
}

/// The sounding notes after a playback event: a note-on with a non-zero
/// velocity starts its note, a note-on with velocity 0 and a note-off stop
/// it, other events change nothing.
pub open spec fn after_event(on: Seq<bool>, event: FileEvent) -> Seq<bool> {
    match event {
        FileEvent::NoteOn { key, vel } => on.update(key as int, vel > 0),
        FileEvent::NoteOff { key } => on.update(key as int, false),
        _ => on,
    }
}

/// The keys of a playback event are MIDI note numbers (below 128).
pub open spec fn event_key_in_range(event: FileEvent) -> bool {
    match event {
        FileEvent::NoteOn { key, .. } => key < 128,
        FileEvent::NoteOff { key } => key < 128,
        _ => true,
    }
}

impl SoundingNotes {
    /// No note is sounding.
    pub fn new() -> (notes: Self)
        ensures
            notes@ == Seq::new(128, |_k: int| false),
    {
        let mut on: Vec<bool> = Vec::new();
        let mut i: usize = 0;
        while i < 128
            invariant
                0 <= i <= 128,
                on@ == Seq::new(i as nat, |_k: int| false),
            decreases 128 - i,
        {
            on.push(false);
            proof {
                assert(on@ =~= Seq::new((i + 1) as nat, |_k: int| false));
            }
            i = i + 1;
        }
        SoundingNotes { on }
    }

    /// Records a playback event that was just sent to the synthesiser.
    pub fn record(&mut self, event: FileEvent)
        requires
            old(self)@.len() == 128,
            event_key_in_range(event),
        ensures
            final(self)@ == after_event(old(self)@, event),
            final(self)@.len() == 128,
    {
        match event {
            FileEvent::NoteOn { key, vel } => {
                self.on.set(key as usize, vel > 0);
            },
            FileEvent::NoteOff { key } => {
                self.on.set(key as usize, false);
            },
            _ => {},
        }
    }

    /// The notes to release when playback stops: every sounding note, in
    /// ascending order.
    pub fn notes_to_release(&self) -> (keys: Vec<u8>)
        requires
            self@.len() == 128,
        ensures
            forall|a: int, b: int| 0 <= a < b < keys@.len() ==> keys@[a] < keys@[b],
            forall|a: int| 0 <= a < keys@.len() ==> self@[#[trigger] keys@[a] as int],
            forall|key: int| 0 <= key < 128 && self@[key] ==> keys@.contains(key as u8),
    {
        let mut keys: Vec<u8> = Vec::new();
        let mut key: u8 = 0;
        while key < 128
            invariant
                self.on@.len() == 128,
                0 <= key <= 128,
                forall|a: int, b: int| 0 <= a < b < keys@.len() ==> keys@[a] < keys@[b],
                forall|a: int| 0 <= a < keys@.len() ==> #[trigger] keys@[a] < key,
                forall|a: int| 0 <= a < keys@.len() ==> self.on@[#[trigger] keys@[a] as int],
                forall|k: int| 0 <= k < key && self.on@[k] ==> keys@.contains(k as u8),
            decreases 128 - key,
        {
            if self.on[key as usize] {
                let ghost before = keys@;
                keys.push(key);
                assert forall|k: int| 0 <= k < key + 1 && self.on@[k] implies keys@.contains(
                    k as u8,
                ) by {
                    if k < key {
                        let a = choose|a: int| 0 <= a < before.len() && before[a] == k as u8;
                        assert(keys@[a] == k as u8);
                    } else {
                        assert(keys@[before.len() as int] == k as u8);
                    }
                }
            }
            key = key + 1;
        }
        keys
    }
}

/// Reads every track of a parsed file into plain values.
fn read_tracks(smf: &Smf) -> (tracks: Vec<Vec<TrackItem>>)
    ensures
        track_views(tracks@) == smf_tracks(*smf),
        forall|t: int, i: int|
            0 <= t < tracks@.len() && 0 <= i < tracks@[t]@.len() ==> kind_in_range(
                #[trigger] tracks@[t]@[i].kind,
            ),
{
    let count = smf_track_count(smf);
    let mut tracks: Vec<Vec<TrackItem>> = Vec::new();
    let mut t: usize = 0;
    while t < count
        invariant
            count == smf_tracks(*smf).len(),
            0 <= t <= count,
            tracks@.len() == t,
            forall|u: int| 0 <= u < t ==> #[trigger] tracks@[u]@ == smf_tracks(*smf)[u],
            forall|u: int, i: int|
                0 <= u < t && 0 <= i < tracks@[u]@.len() ==> kind_in_range(
                    #[trigger] tracks@[u]@[i].kind,
                ),
        decreases count - t,
    {
        let len = smf_track_len(smf, t);
        let mut items: Vec<TrackItem> = Vec::new();
        let mut i: usize = 0;
        while i < len
            invariant
                count == smf_tracks(*smf).len(),
                t < count,
                len == smf_tracks(*smf)[t as int].len(),
                0 <= i <= len,
                items@ == smf_tracks(*smf)[t as int].subrange(0, i as int),
                forall|k: int| 0 <= k < i ==> kind_in_range(#[trigger] items@[k].kind),
            decreases len - i,
        {
            let delta = smf_item_delta(smf, t, i);
            let kind = smf_item_kind(smf, t, i);
            items.push(TrackItem { delta, kind });
            proof {
                assert(items@ =~= smf_tracks(*smf)[t as int].subrange(0, i + 1));
            }
            i = i + 1;
        }
        proof {
            assert(items@ =~= smf_tracks(*smf)[t as int]);
        }
        tracks.push(items);
        t = t + 1;
    }
    proof {
        assert(track_views(tracks@) =~= smf_tracks(*smf));
    }
    tracks
}

/// Merges all tracks of a parsed file into a single, time-ordered event
/// list, and returns it with the file's timing. Events at the same tick
/// keep track order (a tempo track written first is applied first).
pub fn extract_events(smf: &Smf) -> (result: (FileTiming, Vec<ScheduledEvent>))
    ensures
        result.0 == smf_timing(*smf),
        is_file_schedule(smf_tracks(*smf), result.1@),
        forall|k: int| 0 <= k < result.1@.len() ==> event_in_range(#[trigger] result.1@[k].event),
{
    let timing = smf_file_timing(smf);
    let tracks = read_tracks(smf);
    let events = schedule_events(&tracks);
    proof {
        assert forall|k: int| 0 <= k < events@.len() implies event_in_range(
            #[trigger] events@[k].event,
        ) by {
            let e = events@[k];
            assert(is_file_entry(track_views(tracks@), e));
            assert(track_views(tracks@)[e.track as int] == tracks@[e.track as int]@);
            assert(kind_in_range(tracks@[e.track as int]@[e.position as int].kind));
        }
    }
    (timing, events)
}

/// Parses the bytes of a Standard MIDI File and schedules its events (see
/// [`extract_events`]). Bytes that are not a valid MIDI file give midly's
/// parse error.
pub fn parse_midi_file(bytes: &[u8]) -> (result: Result<(FileTiming, Vec<ScheduledEvent>), midly::Error>)
    ensures
        result is Ok <==> smf_parse(bytes@) is Some,
        result matches Ok(parsed) ==> ({
            let (timing, tracks) = smf_parse(bytes@).unwrap();
            parsed.0 == timing && is_file_schedule(tracks, parsed.1@)
        }),
        result matches Ok(parsed) ==> forall|k: int|
            0 <= k < parsed.1@.len() ==> event_in_range(#[trigger] parsed.1@[k].event),
{
    match parse_smf(bytes) {
        Ok(smf) => Ok(extract_events(&smf)),
        Err(error) => Err(error),
    }
}

} // verus!
