//! Command-line options of the synthesiser program.

use vstd::prelude::*;

verus! {

/// Parsed command-line options.
#[derive(Debug, Clone)]
pub struct Options {
    pub cli: bool,
    pub list_devices: bool,
    pub audio_device: Option<String>,
    pub midi_device: Option<String>,
    pub play_file: Option<String>,
    pub ascii: bool,
}

/// The options as plain values.
pub ghost struct OptionsModel {
    pub cli: bool,
    pub list_devices: bool,
    pub audio_device: Option<Seq<char>>,
    pub midi_device: Option<Seq<char>>,
    pub play_file: Option<Seq<char>>,
    pub ascii: bool,
}

pub open spec fn text_view(s: Option<String>) -> Option<Seq<char>> {
    match s {
        Some(t) => Some(t@),
        None => None,
    }
}

impl View for Options {
    type V = OptionsModel;

    open spec fn view(&self) -> OptionsModel {
        OptionsModel {
            cli: self.cli,
            list_devices: self.list_devices,
            audio_device: text_view(self.audio_device),
            midi_device: text_view(self.midi_device),
            play_file: text_view(self.play_file),
            ascii: self.ascii,
        }
    }
}

/// No option given.
pub open spec fn no_options() -> OptionsModel {
    OptionsModel {
        cli: false,
        list_devices: false,
        audio_device: None,
        midi_device: None,
        play_file: None,
        ascii: false,
    }
}

impl Default for Options {
    fn default() -> (options: Self)
        ensures
            options@ == no_options(),
    {
        Options {
            cli: false,
            list_devices: false,
            audio_device: None,
            midi_device: None,
            play_file: None,
            ascii: false,
        }
    }
}

/// Any option that implies the console front end; with none, the
/// graphical interface is launched.
pub open spec fn wants_cli_spec(options: OptionsModel) -> bool {
    options.cli || options.list_devices || options.ascii || options.audio_device is Some
        || options.midi_device is Some || options.play_file is Some
}

impl Options {
    /// Whether any option implies the console front end.
    pub fn wants_cli(&self) -> (cli: bool)
        ensures
            cli == wants_cli_spec(self@),
    {
        self.cli || self.list_devices || self.ascii || self.audio_device.is_some()
            || self.midi_device.is_some() || self.play_file.is_some()
    }
}

/// The outcome of reading the arguments from position `i` on, with the
/// options found so far: `Ok(None)` when help is requested, an error
/// message for a missing value or an unknown argument.
pub open spec fn parse_from(args: Seq<Seq<char>>, i: int, found: OptionsModel) -> Result<
    Option<OptionsModel>,
    Seq<char>,
>
    decreases args.len() - i,
{
    if i < 0 || i >= args.len() {
        Ok(Some(found))
    } else {
        let arg = args[i];
        if arg == "-h"@ || arg == "--help"@ {
            Ok(None)
        } else if arg == "--list-devices"@ || arg == "--list"@ {
            parse_from(args, i + 1, OptionsModel { list_devices: true, ..found })
        } else if arg == "--audio-device"@ {
            if i + 1 < args.len() {
                parse_from(args, i + 2, OptionsModel { audio_device: Some(args[i + 1]), ..found })
            } else {
                Err("--audio-device requires a value"@)
            }
        } else if arg == "--midi-device"@ {
            if i + 1 < args.len() {
                parse_from(args, i + 2, OptionsModel { midi_device: Some(args[i + 1]), ..found })
            } else {
                Err("--midi-device requires a value"@)
            }
        } else if arg == "--play"@ {
            if i + 1 < args.len() {
                parse_from(args, i + 2, OptionsModel { play_file: Some(args[i + 1]), ..found })
            } else {
                Err("--play requires a file path"@)
            }
        } else if arg == "--ascii"@ {
            parse_from(args, i + 1, OptionsModel { ascii: true, ..found })
        } else if arg == "--cli"@ {
            parse_from(args, i + 1, OptionsModel { cli: true, ..found })
        } else {
            Err("Unknown argument: "@ + arg)
        }
    }
}

/// The documented spellings of the options, told apart.
proof fn lemma_spellings()
    ensures
        "--list-devices"@ != "-h"@,
        "--list-devices"@ != "--help"@,
        "--list"@ != "-h"@,
        "--list"@ != "--help"@,
        "--list"@ != "--list-devices"@,
        "--ascii"@ != "-h"@,
        "--ascii"@ != "--help"@,
        "--ascii"@ != "--list-devices"@,
        "--ascii"@ != "--list"@,
        "--ascii"@ != "--audio-device"@,
        "--ascii"@ != "--midi-device"@,
        "--ascii"@ != "--play"@,
        "--cli"@ != "-h"@,
        "--cli"@ != "--help"@,
        "--cli"@ != "--list-devices"@,
        "--cli"@ != "--list"@,
        "--cli"@ != "--audio-device"@,
        "--cli"@ != "--midi-device"@,
        "--cli"@ != "--play"@,
        "--cli"@ != "--ascii"@,
{
    reveal_strlit("-h");
    reveal_strlit("--help");
    reveal_strlit("--list-devices");
    reveal_strlit("--list");
    reveal_strlit("--audio-device");
    reveal_strlit("--midi-device");
    reveal_strlit("--play");
    reveal_strlit("--ascii");
    reveal_strlit("--cli");
    assert("--list-devices"@.len() != "-h"@.len());
    assert("--list-devices"@.len() != "--help"@.len());
    assert("--list"@[2] != "-h"@[1]);
    assert("--list"@.len() != "--help"@.len() || "--list"@[2] != "--help"@[2]);
    assert("--list"@.len() != "--list-devices"@.len());
    assert("--ascii"@.len() != "-h"@.len());
    assert("--ascii"@[2] != "--help"@[2]);
    assert("--ascii"@.len() != "--list-devices"@.len());
    assert("--ascii"@[2] != "--list"@[2]);
    assert("--ascii"@.len() != "--audio-device"@.len());
    assert("--ascii"@.len() != "--midi-device"@.len());
    assert("--ascii"@[2] != "--play"@[2]);
    assert("--cli"@.len() != "-h"@.len());
    assert("--cli"@.len() != "--help"@.len());
    assert("--cli"@.len() != "--list-devices"@.len());
    assert("--cli"@.len() != "--list"@.len());
    assert("--cli"@.len() != "--audio-device"@.len());
    assert("--cli"@.len() != "--midi-device"@.len());
    assert("--cli"@.len() != "--play"@.len());
    assert("--cli"@.len() != "--ascii"@.len());
}

/// Every documented switch is accepted wherever it stands and sets its
/// option: arguments made only of `--list-devices`/`--list`, `--ascii` and
/// `--cli` parse successfully, listing the devices exactly when one of the
/// first two is given, showing the ASCII display exactly when `--ascii` is,
/// running the console front end exactly when `--cli` is, and setting
/// nothing else.
pub proof fn lemma_switches_are_accepted(args: Seq<Seq<char>>, i: int, found: OptionsModel)
    requires
        0 <= i,
        forall|j: int|
            i <= j < args.len() ==> (#[trigger] args[j]) == "--list-devices"@ || args[j]
                == "--list"@ || args[j] == "--ascii"@ || args[j] == "--cli"@,
    ensures
        parse_from(args, i, found) == Ok::<Option<OptionsModel>, Seq<char>>(
            Some(
                OptionsModel {
                    list_devices: found.list_devices || exists|j: int|
                        i <= j < args.len() && ((#[trigger] args[j]) == "--list-devices"@
                            || args[j] == "--list"@),
                    ascii: found.ascii || exists|j: int|
                        i <= j < args.len() && (#[trigger] args[j]) == "--ascii"@,
                    cli: found.cli || exists|j: int|
                        i <= j < args.len() && (#[trigger] args[j]) == "--cli"@,
                    ..found
                },
            ),
        ),
    decreases args.len() - i,
{
    lemma_spellings();
    if i < args.len() {
        let arg = args[i];
        let next = if arg == "--list-devices"@ || arg == "--list"@ {
            OptionsModel { list_devices: true, ..found }
        } else if arg == "--ascii"@ {
            OptionsModel { ascii: true, ..found }
        } else {
            OptionsModel { cli: true, ..found }
        };
        assert(parse_from(args, i, found) == parse_from(args, i + 1, next));
        lemma_switches_are_accepted(args, i + 1, next);
        let list_now = exists|j: int|
            i <= j < args.len() && ((#[trigger] args[j]) == "--list-devices"@ || args[j]
                == "--list"@);
        let list_later = exists|j: int|
            i + 1 <= j < args.len() && ((#[trigger] args[j]) == "--list-devices"@ || args[j]
                == "--list"@);
        if list_later {
            let j = choose|j: int|
                i + 1 <= j < args.len() && ((#[trigger] args[j]) == "--list-devices"@ || args[j]
                    == "--list"@);
            assert(i <= j < args.len());
        }
        if list_now && !(arg == "--list-devices"@ || arg == "--list"@) {
            let j = choose|j: int|
                i <= j < args.len() && ((#[trigger] args[j]) == "--list-devices"@ || args[j]
                    == "--list"@);
            assert(j != i);
        }
        let ascii_later = exists|j: int| i + 1 <= j < args.len() && (#[trigger] args[j]) == "--ascii"@;
        let ascii_now = exists|j: int| i <= j < args.len() && (#[trigger] args[j]) == "--ascii"@;
        if ascii_later {
            let j = choose|j: int| i + 1 <= j < args.len() && (#[trigger] args[j]) == "--ascii"@;
            assert(i <= j < args.len());
        }
        if ascii_now && arg != "--ascii"@ {
            let j = choose|j: int| i <= j < args.len() && (#[trigger] args[j]) == "--ascii"@;
            assert(j != i);
        }
        let cli_later = exists|j: int| i + 1 <= j < args.len() && (#[trigger] args[j]) == "--cli"@;
        let cli_now = exists|j: int| i <= j < args.len() && (#[trigger] args[j]) == "--cli"@;
        if cli_later {
            let j = choose|j: int| i + 1 <= j < args.len() && (#[trigger] args[j]) == "--cli"@;
            assert(i <= j < args.len());
        }
        if cli_now && arg != "--cli"@ {
            let j = choose|j: int| i <= j < args.len() && (#[trigger] args[j]) == "--cli"@;
            assert(j != i);
        }
    }
}

fn is_arg(arg: &String, literal: &str) -> (same: bool)
    ensures
        same == (arg@ == literal@),
{
    *arg == String::from_str(literal)
}

/// Parses the command-line arguments (without the program name). Returns
/// `Ok(None)` if help was requested, and a message for a flag that lacks its
/// value or an unknown argument.
pub fn parse_args(args: &[String]) -> (parsed: Result<Option<Options>, String>)
    ensures
        parse_from(args@.map_values(|a: String| a@), 0, no_options()) == match parsed {
            Ok(Some(options)) => Ok(Some(options@)),
            Ok(None) => Ok(None),
            Err(message) => Err(message@),
        },
{
    let ghost views = args@.map_values(|a: String| a@);
    let mut options = Options::default();
    let n = args.len();
    let mut i: usize = 0;
    while i < n
        invariant
            n == args@.len(),
            views == args@.map_values(|a: String| a@),
            0 <= i <= n,
            parse_from(views, 0, no_options()) == parse_from(views, i as int, options@),
        decreases n - i,
    {
        let arg = &args[i];
        assert(views[i as int] == arg@);
        if is_arg(arg, "-h") || is_arg(arg, "--help") {
            return Ok(None);
        } else if is_arg(arg, "--list-devices") || is_arg(arg, "--list") {
            options.list_devices = true;
            i = i + 1;
        } else if is_arg(arg, "--audio-device") {
            if i + 1 < n {
                assert(views[i + 1] == args@[i + 1]@);
                options.audio_device = Some(args[i + 1].clone());
                i = i + 2;
            } else {
                return Err(String::from_str("--audio-device requires a value"));
            }
        } else if is_arg(arg, "--midi-device") {
            if i + 1 < n {
                assert(views[i + 1] == args@[i + 1]@);
                options.midi_device = Some(args[i + 1].clone());
                i = i + 2;
            } else {
                return Err(String::from_str("--midi-device requires a value"));
            }
        } else if is_arg(arg, "--play") {
            if i + 1 < n {
                assert(views[i + 1] == args@[i + 1]@);
                options.play_file = Some(args[i + 1].clone());
                i = i + 2;
            } else {
                return Err(String::from_str("--play requires a file path"));
            }
        } else if is_arg(arg, "--ascii") {
            options.ascii = true;
            i = i + 1;
        } else if is_arg(arg, "--cli") {
            options.cli = true;
            i = i + 1;
        } else {
            let mut message = String::from_str("Unknown argument: ");
            message.append(arg.as_str());
            return Err(message);
        }
    }
    Ok(Some(options))
}

} // verus!
