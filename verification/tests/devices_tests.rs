//! Device lists, the selection prompt and device arguments.

use midi_synthesiser::devices::{
    choose_output_config, device_menu_lines, find_device, get_audio_output_device_list,
    get_midi_devices_list, interpret_choice, refresh_device_list, resolve_device, DeviceChoice,
    OutputConfigRange, SampleFormatKind,
};

fn names(list: &[&str]) -> Vec<String> {
    list.iter().map(|s| s.to_string()).collect()
}

#[test]
fn unreadable_names_are_skipped() {
    let reported = vec![Some("Keys".to_string()), None, Some("Pads".to_string())];
    assert_eq!(get_midi_devices_list(&reported), names(&["Keys", "Pads"]));
    assert_eq!(get_audio_output_device_list(&reported), names(&["Keys", "Pads"]));
    assert!(get_midi_devices_list(&[]).is_empty());
}

#[test]
fn menu_is_numbered_from_one() {
    assert_eq!(
        device_menu_lines(&names(&["Speakers", "Headphones"])),
        names(&["1- Speakers", "2- Headphones"])
    );
}

#[test]
fn prompt_answers_are_trimmed_and_checked() {
    assert_eq!(interpret_choice("2\n", 3), DeviceChoice::Selected(1));
    assert_eq!(interpret_choice("  1 ", 3), DeviceChoice::Selected(0));
    assert_eq!(interpret_choice("+3", 3), DeviceChoice::Selected(2));
    assert_eq!(interpret_choice("0", 3), DeviceChoice::OutOfRange);
    assert_eq!(interpret_choice("4", 3), DeviceChoice::OutOfRange);
    assert_eq!(interpret_choice("abc", 3), DeviceChoice::NotANumber);
    assert_eq!(interpret_choice("", 3), DeviceChoice::NotANumber);
    assert_eq!(interpret_choice("-1", 3), DeviceChoice::NotANumber);
    assert_eq!(
        interpret_choice("99999999999999999999999", 3),
        DeviceChoice::NotANumber
    );
}

#[test]
fn device_arguments_resolve_by_index_or_name() {
    let devices = names(&["Speakers", "Headphones"]);
    assert_eq!(resolve_device("2", &devices, "audio output"), Ok("Headphones".to_string()));
    assert_eq!(resolve_device("Studio", &devices, "audio output"), Ok("Studio".to_string()));
    assert_eq!(
        resolve_device("3", &devices, "audio output"),
        Err("Invalid audio output device index 3; 2 device(s) available".to_string())
    );
    assert_eq!(
        resolve_device("0", &devices, "MIDI input"),
        Err("Invalid MIDI input device index 0; 2 device(s) available".to_string())
    );
}

#[test]
fn first_device_with_the_name_is_found() {
    let reported = vec![None, Some("Keys".to_string()), Some("Keys".to_string())];
    assert_eq!(find_device(&reported, "Keys"), Some(1));
    assert_eq!(find_device(&reported, "Pads"), None);
}

#[test]
fn rescans_keep_or_clear_the_selection() {
    let old = names(&["A", "B"]);
    let (devices, selection) =
        refresh_device_list(old.clone(), names(&["A", "B"]), Some("B".to_string()));
    assert_eq!(devices, old);
    assert_eq!(selection, Some("B".to_string()));

    let (devices, selection) =
        refresh_device_list(old.clone(), names(&["B", "C"]), Some("B".to_string()));
    assert_eq!(devices, names(&["B", "C"]));
    assert_eq!(selection, Some("B".to_string()));

    let (devices, selection) =
        refresh_device_list(old.clone(), names(&["C"]), Some("A".to_string()));
    assert_eq!(devices, names(&["C"]));
    assert_eq!(selection, None);
}

#[test]
fn output_config_prefers_stereo_f32_at_the_engine_rate() {
    let range = |channels, min, max, format| OutputConfigRange {
        channels,
        min_sample_rate: min,
        max_sample_rate: max,
        format,
    };
    let configs = vec![
        range(1, 8000, 96000, SampleFormatKind::F32),
        range(2, 8000, 96000, SampleFormatKind::I16),
        range(2, 48000, 96000, SampleFormatKind::F32),
        range(2, 8000, 96000, SampleFormatKind::F32),
        range(2, 8000, 96000, SampleFormatKind::F32),
    ];
    assert_eq!(choose_output_config(&configs, 44100), Some(3));
    assert_eq!(choose_output_config(&configs[..3], 44100), Some(1));
    assert_eq!(choose_output_config(&configs[..1], 44100), None);
}
