//! Command-line options.

use midi_synthesiser::cli::{parse_args, Options};

fn args(list: &[&str]) -> Vec<String> {
    list.iter().map(|s| s.to_string()).collect()
}

#[test]
fn no_arguments_launch_the_gui() {
    let options = parse_args(&[]).unwrap().unwrap();
    assert!(!options.wants_cli());
    assert!(!Options::default().wants_cli());
}

#[test]
fn cli_options_are_parsed() {
    let options = parse_args(&args(&[
        "--audio-device",
        "2",
        "--midi-device",
        "Keys",
        "--play",
        "song.mid",
        "--ascii",
        "--list",
    ]))
    .unwrap()
    .unwrap();
    assert_eq!(options.audio_device.as_deref(), Some("2"));
    assert_eq!(options.midi_device.as_deref(), Some("Keys"));
    assert_eq!(options.play_file.as_deref(), Some("song.mid"));
    assert!(options.ascii && options.list_devices && !options.cli);
    assert!(options.wants_cli());

    let options = parse_args(&args(&["--cli"])).unwrap().unwrap();
    assert!(options.cli && options.wants_cli());
}

#[test]
fn help_stops_parsing() {
    assert!(parse_args(&args(&["--ascii", "-h", "--bogus"])).unwrap().is_none());
    assert!(parse_args(&args(&["--help"])).unwrap().is_none());
}

#[test]
fn errors_name_the_problem() {
    assert_eq!(
        parse_args(&args(&["--play"])).unwrap_err(),
        "--play requires a file path"
    );
    assert_eq!(
        parse_args(&args(&["--audio-device"])).unwrap_err(),
        "--audio-device requires a value"
    );
    assert_eq!(
        parse_args(&args(&["--midi-device"])).unwrap_err(),
        "--midi-device requires a value"
    );
    assert_eq!(
        parse_args(&args(&["--ascii", "--loud"])).unwrap_err(),
        "Unknown argument: --loud"
    );
}
