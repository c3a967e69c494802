//! Device lists and device selection for audio outputs and MIDI inputs.
//!
//! Enumerating devices is the host's business; it hands these functions,
//! for each device the backend reports, the device's name or `None` when
//! the name could not be read.

use vstd::prelude::*;
use crate::text::{decimal_text, parse_usize, parse_usize_spec, trim_spec, trim_text, usize_text};

verus! {

/// The names that could be read, in the order the backend reported them.
pub open spec fn available_names(names: Seq<Option<String>>) -> Seq<Seq<char>>
    decreases names.len(),
{
    if names.len() == 0 {
        Seq::empty()
    } else {
        let rest = available_names(names.drop_last());
        match names.last() {
            Some(name) => rest.push(name@),
            None => rest,
        }
    }
}

/// The views of a list of strings.
pub open spec fn string_views(strings: Seq<String>) -> Seq<Seq<char>> {
    strings.map_values(|s: String| s@)
}

/// Collects the device names that could be read, skipping the others.
fn collect_names(names: &[Option<String>]) -> (devices: Vec<String>)
    ensures
        string_views(devices@) == available_names(names@),
{
    let n = names.len();
    let mut devices: Vec<String> = Vec::new();
    let mut i: usize = 0;
    while i < n
        invariant
            n == names@.len(),
            0 <= i <= n,
            string_views(devices@) == available_names(names@.subrange(0, i as int)),
        decreases n - i,
    {
        assert(names@.subrange(0, i + 1).drop_last() =~= names@.subrange(0, i as int));
        match &names[i] {
            Some(name) => {
                devices.push(name.clone());
                assert(string_views(devices@) =~= available_names(names@.subrange(0, i + 1)));
            },
            None => {},
        }
        i = i + 1;
    }
    assert(names@.subrange(0, n as int) =~= names@);
    devices
}

/// Returns all available MIDI input device names: the names of the input
/// ports the MIDI backend reported, in order, skipping ports whose name
/// could not be read.
pub fn get_midi_devices_list(port_names: &[Option<String>]) -> (devices: Vec<String>)
    ensures
        string_views(devices@) == available_names(port_names@),
{
    collect_names(port_names)
}

/// Returns all available audio output device names: the names of the
/// output devices the audio host reported, in order, skipping devices whose
/// name could not be read.
pub fn get_audio_output_device_list(device_names: &[Option<String>]) -> (devices: Vec<String>)
    ensures
        string_views(devices@) == available_names(device_names@),
{
    collect_names(device_names)
}

/// The line of the selection menu for the device numbered `number`.
pub open spec fn menu_line(number: nat, name: Seq<char>) -> Seq<char> {
    decimal_text(number) + "- "@ + name
}

/// The numbered selection menu of a device list: one line per device,
/// numbered from 1.
pub fn device_menu_lines(devices: &[String]) -> (lines: Vec<String>)
    ensures
        lines@.len() == devices@.len(),
        forall|k: int|
            0 <= k < lines@.len() ==> (#[trigger] lines@[k])@ == menu_line(
                (k + 1) as nat,
                devices@[k]@,
            ),
{
    let n = devices.len();
    let mut lines: Vec<String> = Vec::new();
    let mut k: usize = 0;
    while k < n
        invariant
            n == devices@.len(),
            0 <= k <= n,
            lines@.len() == k,
            forall|j: int|
                0 <= j < k ==> (#[trigger] lines@[j])@ == menu_line((j + 1) as nat, devices@[j]@),
        decreases n - k,
    {
        let mut line = usize_text(k + 1);
        line.append("- ");
        line.append(devices[k].as_str());
        lines.push(line);
        k = k + 1;
    }
    lines
}

/// The outcome of the user's answer to the device selection prompt.
#[derive(Debug, Clone, Copy, PartialEq, Eq, Structural)]
pub enum DeviceChoice {
    /// The device at this (0-based) index of the list was chosen.
    Selected(usize),
    /// A number outside `1..=count` was entered.
    OutOfRange,
    /// The answer is not a number.
    NotANumber,
}

/// The choice an answer makes from a list of `count` devices: the answer,
/// without surrounding whitespace, must be a number from 1 to `count`.
pub open spec fn choice_spec(answer: Seq<char>, count: usize) -> DeviceChoice {
    match parse_usize_spec(trim_spec(answer)) {
        Some(number) => if 1 <= number <= count {
            DeviceChoice::Selected((number - 1) as usize)
        } else {
            DeviceChoice::OutOfRange
        },
        None => DeviceChoice::NotANumber,
    }
}

/// Interprets the user's answer to the "Enter the number of the device"
/// prompt for a list of `device_count` devices.
pub fn interpret_choice(answer: &str, device_count: usize) -> (choice: DeviceChoice)
    ensures
        choice == choice_spec(answer@, device_count),
{
    let trimmed = trim_text(answer);
    match parse_usize(trimmed) {
        Some(number) => if 1 <= number && number <= device_count {
            DeviceChoice::Selected(number - 1)
        } else {
            DeviceChoice::OutOfRange
        },
        None => DeviceChoice::NotANumber,
    }
}

/// The error for a device index that does not name a listed device.
pub open spec fn bad_index_message(kind: Seq<char>, index: usize, count: usize) -> Seq<char> {
    "Invalid "@ + kind + " device index "@ + decimal_text(index as nat) + "; "@ + decimal_text(
        count as nat,
    ) + " device(s) available"@
}

/// What a device argument resolves to: a number is a 1-based index into
/// the device list (an error when it is out of range); anything else is
/// taken as a device name as it stands.
pub open spec fn resolve_spec(arg: Seq<char>, devices: Seq<Seq<char>>, kind: Seq<char>) -> Result<
    Seq<char>,
    Seq<char>,
> {
    match parse_usize_spec(arg) {
        Some(index) => if 1 <= index <= devices.len() {
            Ok(devices[index - 1])
        } else {
            Err(bad_index_message(kind, index, devices.len() as usize))
        },
        None => Ok(arg),
    }
}

/// Resolves a device argument that is either a 1-based index into the
/// device list (matching the interactive prompt numbering) or a device
/// name. Names are passed through even if not currently listed.
pub fn resolve_device(arg: &str, devices: &[String], kind: &str) -> (resolved: Result<String, String>)
    ensures
        match resolved {
            Ok(name) => resolve_spec(arg@, string_views(devices@), kind@) == Ok::<
                Seq<char>,
                Seq<char>,
            >(name@),
            Err(message) => resolve_spec(arg@, string_views(devices@), kind@) == Err::<
                Seq<char>,
                Seq<char>,
            >(message@),
        },
{
    match parse_usize(arg) {
        Some(index) => {
            if 1 <= index && index <= devices.len() {
                let name = devices[index - 1].clone();
                Ok(name)
            } else {
                let mut message = String::from_str("Invalid ");
                message.append(kind);
                message.append(" device index ");
                let index_text = usize_text(index);
                message.append(index_text.as_str());
                message.append("; ");
                let count_text = usize_text(devices.len());
                message.append(count_text.as_str());
                message.append(" device(s) available");
                Err(message)
            }
        },
        None => Ok(String::from_str(arg)),
    }
}

/// The first device, in list order, whose name is `target`.
pub open spec fn is_first_named(names: Seq<Option<String>>, target: Seq<char>, index: int) -> bool {
    &&& 0 <= index < names.len()
    &&& names[index] matches Some(name) && name@ == target
    &&& forall|j: int|
        0 <= j < index ==> !(#[trigger] names[j] matches Some(name) && name@ == target)
}

/// Finds the first device whose name is `target`, or `None` when no
/// device of that name is listed (the caller then falls back to the
/// default device, or reports the device missing).
pub fn find_device(names: &[Option<String>], target: &str) -> (index: Option<usize>)
    ensures
        match index {
            Some(i) => is_first_named(names@, target@, i as int),
            None => forall|j: int|
                0 <= j < names@.len() ==> !(#[trigger] names@[j] matches Some(name) && name@
                    == target@),
        },
{
    let wanted = String::from_str(target);
    let n = names.len();
    let mut i: usize = 0;
    while i < n
        invariant
            n == names@.len(),
            0 <= i <= n,
            wanted@ == target@,
            forall|j: int|
                0 <= j < i ==> !(#[trigger] names@[j] matches Some(name) && name@ == target@),
        decreases n - i,
    {
        match &names[i] {
            Some(name) => {
                if *name == wanted {
                    return Some(i);
                }
            },
            None => {},
        }
        i = i + 1;
    }
    None
}

/// Two device lists hold the same names in the same order.
fn same_devices(a: &[String], b: &[String]) -> (same: bool)
    ensures
        same == (string_views(a@) == string_views(b@)),
{
    if a.len() != b.len() {
        proof {
            assert(string_views(a@).len() != string_views(b@).len());
        }
        return false;
    }
    let n = a.len();
    let mut i: usize = 0;
    while i < n
        invariant
            n == a@.len(),
            n == b@.len(),
            0 <= i <= n,
            forall|j: int| 0 <= j < i ==> a@[j]@ == b@[j]@,
        decreases n - i,
    {
        if a[i] != b[i] {
            proof {
                assert(string_views(a@)[i as int] != string_views(b@)[i as int]);
            }
            return false;
        }
        i = i + 1;
    }
    assert(string_views(a@) =~= string_views(b@));
    true
}

/// `name` is one of the listed devices.
fn is_listed(devices: &[String], name: &String) -> (listed: bool)
    ensures
        listed == string_views(devices@).contains(name@),
{
    let n = devices.len();
    let mut i: usize = 0;
    while i < n
        invariant
            n == devices@.len(),
            0 <= i <= n,
            forall|j: int| 0 <= j < i ==> devices@[j]@ != name@,
        decreases n - i,
    {
        if devices[i] == *name {
            assert(string_views(devices@)[i as int] == name@);
            return true;
        }
        i = i + 1;
    }
    assert forall|j: int| 0 <= j < n implies string_views(devices@)[j] != name@ by {}
    false
}

/// The device list and selection after a rescan.
pub open spec fn refresh_spec(
    old_devices: Seq<Seq<char>>,
    new_devices: Seq<Seq<char>>,
    selected: Option<Seq<char>>,
) -> (Seq<Seq<char>>, Option<Seq<char>>) {
    if new_devices == old_devices {
        (old_devices, selected)
    } else {
        (
            new_devices,
            match selected {
                Some(name) => if new_devices.contains(name) {
                    Some(name)
                } else {
                    None
                },
                None => None,
            },
        )
    }
}

/// Rescans a device list: when the list changed, the new list replaces it,
/// and a selected device that is no longer listed is deselected; an
/// unchanged list keeps its selection.
pub fn refresh_device_list(
    old_devices: Vec<String>,
    new_devices: Vec<String>,
    selected: Option<String>,
) -> (refreshed: (Vec<String>, Option<String>))
    ensures
        ({
            let (devices, selection) = refreshed;
            let (want_devices, want_selection) = refresh_spec(
                string_views(old_devices@),
                string_views(new_devices@),
                match selected {
                    Some(name) => Some(name@),
                    None => None,
                },
            );
            &&& string_views(devices@) == want_devices
            &&& match selection {
                Some(name) => want_selection == Some(name@),
                None => want_selection is None,
            }
        }),
{
    if same_devices(&old_devices, &new_devices) {
        return (old_devices, selected);
    }
    let selection = match selected {
        Some(name) => if is_listed(&new_devices, &name) {
            Some(name)
        } else {
            None
        },
        None => None,
    };
    (new_devices, selection)
}

/// A sample format an output device offers.
#[derive(Debug, Clone, Copy, PartialEq, Eq, Structural)]
pub enum SampleFormatKind {
    F32,
    I16,
    U16,
    Other,
}

/// One range of stream configurations an output device supports.
#[derive(Debug, Clone, Copy, PartialEq, Eq, Structural)]
pub struct OutputConfigRange {
    pub channels: u16,
    pub min_sample_rate: u32,
    pub max_sample_rate: u32,
    pub format: SampleFormatKind,
}

/// How much a sample format is preferred (lower is better): `f32` first, so
/// that the engine's samples convert losslessly, then 16-bit integers.
pub open spec fn format_rank(format: SampleFormatKind) -> int {
    match format {
        SampleFormatKind::F32 => 0,
        SampleFormatKind::I16 => 1,
        SampleFormatKind::U16 => 2,
        SampleFormatKind::Other => 3,
    }
}

/// The preference among sample formats: `f32` before `i16` before `u16`,
/// and any other format (which no stream can be built for) last.
pub proof fn lemma_format_preference()
    ensures
        format_rank(SampleFormatKind::F32) < format_rank(SampleFormatKind::I16),
        format_rank(SampleFormatKind::I16) < format_rank(SampleFormatKind::U16),
        format_rank(SampleFormatKind::U16) < format_rank(SampleFormatKind::Other),
{
}

/// A configuration range can play the engine's output: stereo, at the
/// engine's sample rate.
pub open spec fn can_play(config: OutputConfigRange, sample_rate: u32) -> bool {
    config.channels == 2 && config.min_sample_rate <= sample_rate <= config.max_sample_rate
}

fn rank(format: SampleFormatKind) -> (r: u8)
    ensures
        r == format_rank(format),
{
    match format {
        SampleFormatKind::F32 => 0,
        SampleFormatKind::I16 => 1,
        SampleFormatKind::U16 => 2,
        SampleFormatKind::Other => 3,
    }
}

/// Chooses the stream configuration for the engine's output: among the
/// stereo ranges that include `sample_rate`, the one with the most
/// preferred sample format, the first listed on a tie; `None` when no range
/// fits (the device's default configuration is then used).
pub fn choose_output_config(configs: &[OutputConfigRange], sample_rate: u32) -> (choice: Option<
    usize,
>)
    ensures
        match choice {
            Some(i) => {
                &&& i < configs@.len()
                &&& can_play(configs@[i as int], sample_rate)
                &&& forall|j: int|
                    0 <= j < configs@.len() && can_play(#[trigger] configs@[j], sample_rate)
                        ==> format_rank(configs@[i as int].format) <= format_rank(configs@[j].format)
                &&& forall|j: int|
                    0 <= j < i && can_play(#[trigger] configs@[j], sample_rate) ==> format_rank(
                        configs@[i as int].format,
                    ) < format_rank(configs@[j].format)
            },
            None => forall|j: int|
                0 <= j < configs@.len() ==> !can_play(#[trigger] configs@[j], sample_rate),
        },
        choice matches Some(i) ==> {
            &&& configs@[i as int].channels == 2
            &&& configs@[i as int].min_sample_rate <= sample_rate
            &&& sample_rate <= configs@[i as int].max_sample_rate
        },
        choice matches Some(i) ==> forall|j: int|
            0 <= j < configs@.len() && (#[trigger] configs@[j]).channels == 2
                && configs@[j].min_sample_rate <= sample_rate <= configs@[j].max_sample_rate ==> {
                &&& (configs@[j].format == SampleFormatKind::F32 ==> configs@[i as int].format
                    == SampleFormatKind::F32)
                &&& (configs@[j].format == SampleFormatKind::I16 ==> configs@[i as int].format
                    == SampleFormatKind::F32 || configs@[i as int].format == SampleFormatKind::I16)
                &&& (configs@[j].format == SampleFormatKind::U16 ==> configs@[i as int].format
                    != SampleFormatKind::Other)
            },
{
    let n = configs.len();
    let mut best: Option<usize> = None;
    let mut i: usize = 0;
    while i < n
        invariant
            n == configs@.len(),
            0 <= i <= n,
            match best {
                Some(b) => {
                    &&& b < i
                    &&& can_play(configs@[b as int], sample_rate)
                    &&& forall|j: int|
                        0 <= j < i && can_play(#[trigger] configs@[j], sample_rate) ==> format_rank(
                            configs@[b as int].format,
                        ) <= format_rank(configs@[j].format)
                    &&& forall|j: int|
                        0 <= j < b && can_play(#[trigger] configs@[j], sample_rate) ==> format_rank(
                            configs@[b as int].format,
                        ) < format_rank(configs@[j].format)
                },
                None => forall|j: int|
                    0 <= j < i ==> !can_play(#[trigger] configs@[j], sample_rate),
            },
        decreases n - i,
    {
        let config = configs[i];
        if config.channels == 2 && config.min_sample_rate <= sample_rate && sample_rate
            <= config.max_sample_rate {
            match best {
                Some(b) => {
                    if rank(config.format) < rank(configs[b].format) {
                        best = Some(i);
                    }
                },
                None => {
                    best = Some(i);
                },
            }
        }
        i = i + 1;
    }
    best
}

} // verus!
