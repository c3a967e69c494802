//! Startup configuration validation: every out-of-range value falls back to
//! its documented default and produces exactly one warning naming the field.

use midi_synthesiser::engine_config::{
    config_warnings, validated_config, ConfigValue, ConfigWarning, EngineConfig,
};

fn valid_config() -> EngineConfig {
    EngineConfig::default()
}

fn validate(base: EngineConfig) -> (EngineConfig, Vec<ConfigWarning>) {
    EngineConfig::validate_values(
        base.sample_rate_bits,
        base.block_size,
        base.number_of_voices,
        base.lookup_table_size,
        base.buffer_size,
    )
}

#[test]
fn all_valid_values_produce_zero_warnings_and_are_returned_unchanged() {
    let base = valid_config();
    let (config, warnings) = validate(base);
    assert!(
        warnings.is_empty(),
        "expected no warnings for an all-valid config, got {warnings:?}"
    );
    assert_eq!(config, base, "a valid config should be returned unchanged");
}

#[test]
fn invalid_sample_rate_falls_back_with_one_warning() {
    let base = valid_config();
    let invalid_rates = [0.0, 40.0, -44100.0, f64::NAN, f64::INFINITY, 500_000.0];

    for rate in invalid_rates {
        let (config, warnings) = EngineConfig::validate_values(
            rate.to_bits(),
            base.block_size,
            base.number_of_voices,
            base.lookup_table_size,
            base.buffer_size,
        );
        assert_eq!(
            warnings.len(),
            1,
            "sample_rate = {rate} should produce exactly one warning, got {warnings:?}"
        );
        assert_eq!(warnings[0].field, "sample_rate");
        assert_eq!(
            config.sample_rate_bits,
            EngineConfig::default().sample_rate_bits,
            "an invalid sample_rate ({rate}) should fall back to the default"
        );
        assert_eq!(config.block_size, base.block_size);
        assert_eq!(config.number_of_voices, base.number_of_voices);
        assert_eq!(config.lookup_table_size, base.lookup_table_size);
        assert_eq!(config.buffer_size, base.buffer_size);
    }
}

#[test]
fn sample_rate_boundary_values_are_valid() {
    let base = valid_config();
    for rate in [40.000001_f64, 384_000.0] {
        let (config, warnings) = EngineConfig::validate_values(
            rate.to_bits(),
            base.block_size,
            base.number_of_voices,
            base.lookup_table_size,
            base.buffer_size,
        );
        assert!(
            warnings.is_empty(),
            "sample_rate = {rate} should be valid, got warnings {warnings:?}"
        );
        assert_eq!(f64::from_bits(config.sample_rate_bits), rate);
    }
}

#[test]
fn invalid_block_size_falls_back_with_one_warning() {
    let base = valid_config();
    for &size in &[0usize, 8193, usize::MAX] {
        let (config, warnings) = EngineConfig::validate_values(
            base.sample_rate_bits,
            size,
            base.number_of_voices,
            base.lookup_table_size,
            base.buffer_size,
        );
        assert_eq!(
            warnings.len(),
            1,
            "block_size = {size} should produce exactly one warning, got {warnings:?}"
        );
        assert_eq!(warnings[0].field, "block_size");
        assert_eq!(
            config.block_size,
            EngineConfig::default().block_size,
            "an invalid block_size ({size}) should fall back to the default"
        );
    }
}

#[test]
fn block_size_boundary_values_are_valid() {
    let base = valid_config();
    for &size in &[1usize, 8192] {
        let (config, warnings) = EngineConfig::validate_values(
            base.sample_rate_bits,
            size,
            base.number_of_voices,
            base.lookup_table_size,
            size.max(base.buffer_size),
        );
        assert!(
            warnings.is_empty(),
            "block_size = {size} should be valid, got warnings {warnings:?}"
        );
        assert_eq!(config.block_size, size);
    }
}

#[test]
fn invalid_number_of_voices_falls_back_with_one_warning() {
    let base = valid_config();
    for &voices in &[0usize, 129, usize::MAX] {
        let (config, warnings) = EngineConfig::validate_values(
            base.sample_rate_bits,
            base.block_size,
            voices,
            base.lookup_table_size,
            base.buffer_size,
        );
        assert_eq!(
            warnings.len(),
            1,
            "number_of_voices = {voices} should produce exactly one warning, got {warnings:?}"
        );
        assert_eq!(warnings[0].field, "number_of_voices");
        assert_eq!(
            config.number_of_voices,
            EngineConfig::default().number_of_voices,
            "an invalid number_of_voices ({voices}) should fall back to the default"
        );
    }
}

#[test]
fn number_of_voices_boundary_values_are_valid() {
    let base = valid_config();
    for &voices in &[1usize, 128] {
        let (config, warnings) = EngineConfig::validate_values(
            base.sample_rate_bits,
            base.block_size,
            voices,
            base.lookup_table_size,
            base.buffer_size,
        );
        assert!(
            warnings.is_empty(),
            "number_of_voices = {voices} should be valid, got warnings {warnings:?}"
        );
        assert_eq!(config.number_of_voices, voices);
    }
}

#[test]
fn lookup_table_size_power_of_two_edge_cases() {
    let base = valid_config();

    for &size in &[0usize, 1, 2, 255] {
        let (config, warnings) = EngineConfig::validate_values(
            base.sample_rate_bits,
            base.block_size,
            base.number_of_voices,
            size,
            base.buffer_size,
        );
        assert_eq!(
            warnings.len(),
            1,
            "lookup_table_size = {size} should produce exactly one warning, got {warnings:?}"
        );
        assert_eq!(warnings[0].field, "lookup_table_size");
        assert_eq!(
            config.lookup_table_size,
            EngineConfig::default().lookup_table_size,
            "an invalid lookup_table_size ({size}) should fall back to the default"
        );
    }

    for &size in &[256usize, 1024, 65536] {
        let (config, warnings) = EngineConfig::validate_values(
            base.sample_rate_bits,
            base.block_size,
            base.number_of_voices,
            size,
            base.buffer_size,
        );
        assert!(
            warnings.is_empty(),
            "lookup_table_size = {size} (a power of two in range) should be valid, got {warnings:?}"
        );
        assert_eq!(config.lookup_table_size, size);
    }

    for &size in &[257usize, 1025, 65537] {
        let (config, warnings) = EngineConfig::validate_values(
            base.sample_rate_bits,
            base.block_size,
            base.number_of_voices,
            size,
            base.buffer_size,
        );
        assert_eq!(
            warnings.len(),
            1,
            "lookup_table_size = {size} (not a power of two) should produce exactly one warning, got {warnings:?}"
        );
        assert_eq!(warnings[0].field, "lookup_table_size");
        assert_eq!(
            config.lookup_table_size,
            EngineConfig::default().lookup_table_size
        );
    }

    let (config, warnings) = EngineConfig::validate_values(
        base.sample_rate_bits,
        base.block_size,
        base.number_of_voices,
        1 << 21,
        base.buffer_size,
    );
    assert_eq!(warnings.len(), 1);
    assert_eq!(warnings[0].field, "lookup_table_size");
    assert_eq!(
        config.lookup_table_size,
        EngineConfig::default().lookup_table_size
    );
}

#[test]
fn buffer_size_smaller_than_block_size_falls_back_with_one_warning() {
    let base = valid_config();
    let too_small = base.block_size - 1;

    let (config, warnings) = EngineConfig::validate_values(
        base.sample_rate_bits,
        base.block_size,
        base.number_of_voices,
        base.lookup_table_size,
        too_small,
    );
    assert_eq!(
        warnings.len(),
        1,
        "buffer_size < block_size should produce exactly one warning, got {warnings:?}"
    );
    assert_eq!(warnings[0].field, "buffer_size");
    assert!(
        config.buffer_size >= config.block_size,
        "the returned config must always satisfy buffer_size >= block_size, got \
         buffer_size={}, block_size={}",
        config.buffer_size,
        config.block_size
    );
}

#[test]
fn buffer_size_equal_to_block_size_is_valid() {
    let base = valid_config();
    let (config, warnings) = EngineConfig::validate_values(
        base.sample_rate_bits,
        base.block_size,
        base.number_of_voices,
        base.lookup_table_size,
        base.block_size,
    );
    assert!(
        warnings.is_empty(),
        "buffer_size == block_size should be valid, got {warnings:?}"
    );
    assert_eq!(config.buffer_size, base.block_size);
}

#[test]
fn buffer_size_is_rechecked_against_the_validated_block_size() {
    let base = valid_config();
    let invalid_block_size = 0usize;
    let buffer_size = 1;

    let (config, warnings) = EngineConfig::validate_values(
        base.sample_rate_bits,
        invalid_block_size,
        base.number_of_voices,
        base.lookup_table_size,
        buffer_size,
    );
    assert_eq!(config.block_size, EngineConfig::default().block_size);
    assert!(
        config.buffer_size >= config.block_size,
        "buffer_size ({}) must be >= the validated block_size ({})",
        config.buffer_size,
        config.block_size
    );
    let buffer_warning = warnings
        .iter()
        .find(|w| w.field == "buffer_size")
        .expect("an inconsistent buffer_size should still produce its own warning");
    assert!(!buffer_warning.reason.is_empty());
}

#[test]
fn multiple_violations_each_produce_their_own_warning() {
    let default_block_size = EngineConfig::default().block_size;
    let (config, warnings) = EngineConfig::validate_values(
        (-1.0_f64).to_bits(),
        0,
        0,
        100,
        default_block_size,
    );
    let fields: Vec<&str> = warnings.iter().map(|w| w.field).collect();
    assert_eq!(
        fields,
        vec!["sample_rate", "block_size", "number_of_voices", "lookup_table_size"],
        "each invalid field should produce its own warning, in field order"
    );
    let defaults = EngineConfig::default();
    assert_eq!(config.sample_rate_bits, defaults.sample_rate_bits);
    assert_eq!(config.block_size, defaults.block_size);
    assert_eq!(config.number_of_voices, defaults.number_of_voices);
    assert_eq!(config.lookup_table_size, defaults.lookup_table_size);
    assert!(config.buffer_size >= config.block_size);
}

#[test]
fn validated_config_is_internally_consistent() {
    let (config, _warnings) = EngineConfig::validated();
    let sample_rate = f64::from_bits(config.sample_rate_bits);
    assert!(sample_rate.is_finite());
    assert!(sample_rate > 40.0);
    assert!(config.block_size >= 1);
    assert!(config.number_of_voices >= 1);
    assert!(config.lookup_table_size.is_power_of_two());
    assert!(config.buffer_size >= config.block_size);
}

#[test]
fn compile_time_constants_validate_without_warnings() {
    let config = validated_config();
    assert!(config_warnings().is_empty());
    assert_eq!(f64::from_bits(config.sample_rate_bits), 44100.0);
    assert_eq!(config.block_size, 32);
    assert_eq!(config.number_of_voices, 32);
    assert_eq!(config.lookup_table_size, 32768);
    assert_eq!(config.buffer_size, 32);
}

#[test]
fn default_config_has_the_documented_values() {
    let config = EngineConfig::default();
    assert_eq!(f64::from_bits(config.sample_rate_bits), 44100.0);
    assert_eq!(config.block_size, 256);
    assert_eq!(config.number_of_voices, 8);
    assert_eq!(config.lookup_table_size, 32768);
    assert_eq!(config.buffer_size, 2048);
}

#[test]
fn warnings_report_configured_and_fallback_values_and_reasons() {
    let base = valid_config();
    let (_, warnings) = EngineConfig::validate_values(
        0.0_f64.to_bits(),
        9000,
        200,
        300,
        base.buffer_size,
    );
    assert_eq!(warnings.len(), 4);
    assert_eq!(warnings[0].configured_value, ConfigValue::SampleRateBits(0));
    assert_eq!(
        warnings[0].fallback_value,
        ConfigValue::SampleRateBits(44100.0_f64.to_bits())
    );
    assert_eq!(
        warnings[0].reason,
        "must be finite and in the range (40.0, 384000] Hz"
    );
    assert_eq!(warnings[1].configured_value, ConfigValue::Count(9000));
    assert_eq!(warnings[1].fallback_value, ConfigValue::Count(256));
    assert_eq!(warnings[1].reason, "must be in the range 1..=8192 frames");
    assert_eq!(warnings[2].configured_value, ConfigValue::Count(200));
    assert_eq!(warnings[2].fallback_value, ConfigValue::Count(8));
    assert_eq!(warnings[2].reason, "must be in the range 1..=128");
    assert_eq!(warnings[3].configured_value, ConfigValue::Count(300));
    assert_eq!(warnings[3].fallback_value, ConfigValue::Count(32768));
    assert_eq!(
        warnings[3].reason,
        "must be a power of two in the range 256..=1048576"
    );
}

#[test]
fn buffer_size_warning_names_the_validated_block_size_and_eight_block_fallback() {
    let base = valid_config();
    let (config, warnings) = EngineConfig::validate_values(
        base.sample_rate_bits,
        100,
        base.number_of_voices,
        base.lookup_table_size,
        50,
    );
    assert_eq!(config.buffer_size, 800);
    assert_eq!(warnings.len(), 1);
    assert_eq!(warnings[0].field, "buffer_size");
    assert_eq!(warnings[0].configured_value, ConfigValue::Count(50));
    assert_eq!(warnings[0].fallback_value, ConfigValue::Count(800));
    assert_eq!(
        warnings[0].reason,
        "must be >= block_size (100); the device buffer must hold at least one engine block"
    );
}

#[test]
fn validating_a_validated_config_changes_nothing() {
    let (first, _) = EngineConfig::validate_values(
        f64::NAN.to_bits(),
        0,
        1000,
        3,
        0,
    );
    let (second, warnings) = validate(first);
    assert_eq!(second, first);
    assert!(warnings.is_empty());
}

/// The text a host writes for a configured or fallback value: counts by the
/// library, sample rates as the `f64` they encode.
fn value_text(value: ConfigValue) -> String {
    match value.count_text() {
        Some(text) => text,
        None => match value {
            ConfigValue::SampleRateBits(bits) => format!("{}", f64::from_bits(bits)),
            ConfigValue::Count(n) => panic!("count {n} has a text"),
        },
    }
}

#[test]
fn config_warning_display_mentions_field_configured_and_fallback() {
    let defaults = EngineConfig::default();
    let (_config, warnings) = EngineConfig::validate_values(
        0.0f64.to_bits(), // invalid sample_rate
        defaults.block_size,
        defaults.number_of_voices,
        defaults.lookup_table_size,
        defaults.buffer_size,
    );

    let warning = &warnings[0];
    let configured = value_text(warning.configured_value);
    let fallback = value_text(warning.fallback_value);
    let text = warning.message_with(&configured, &fallback);

    assert!(
        text.contains(&configured),
        "warning text {text:?} should mention the configured value {configured:?}"
    );
    assert!(
        text.contains(&fallback),
        "warning text {text:?} should mention the fallback value {fallback:?}"
    );
    assert!(text.contains("sample_rate"), "warning text {text:?} should name the field");
}

#[test]
fn count_warning_message_is_rendered_in_full() {
    let defaults = EngineConfig::default();
    let (_config, warnings) = EngineConfig::validate_values(
        defaults.sample_rate_bits,
        0,
        defaults.number_of_voices,
        defaults.lookup_table_size,
        defaults.buffer_size,
    );
    let warning = &warnings[0];
    assert_eq!(ConfigValue::Count(2048).count_text(), Some("2048".to_string()));
    assert_eq!(ConfigValue::SampleRateBits(0).count_text(), None);
    let configured = warning.configured_value.count_text().unwrap();
    let fallback = warning.fallback_value.count_text().unwrap();
    assert_eq!(
        warning.message_with(&configured, &fallback),
        "Invalid block_size: 0 (must be in the range 1..=8192 frames); using default 256 instead."
    );
}
