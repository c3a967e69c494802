//! Startup configuration validation: the engine configuration is validated,
//! not trusted. Every value that violates an invariant the engine relies on
//! is replaced by a documented safe default, and a [`ConfigWarning`] is
//! produced for it so that hosts can tell the user.
//!
//! The sample rate is carried as the bit pattern of its IEEE-754
//! double-precision value (`f64::to_bits`). Among positive finite doubles
//! the bit patterns are ordered like the values, and every negative number,
//! infinity and NaN has a bit pattern above that of the largest accepted
//! rate, so the range check below is exactly the check `finite, > 40.0 and
//! <= 384000.0` on the value.

use vstd::prelude::*;
use crate::audio_constants;
use crate::text::{decimal_text, usize_text};

verus! {

/// Safe default sample rate, 44100 Hz, as the bits of its `f64` value.
pub const DEFAULT_SAMPLE_RATE_BITS: u64 = 0x40E5_8880_0000_0000;

/// Safe default block size, in frames.
pub const DEFAULT_BLOCK_SIZE: usize = 256;

/// Safe default voice count.
pub const DEFAULT_NUMBER_OF_VOICES: usize = 8;

/// Safe default lookup-table size.
pub const DEFAULT_LOOKUP_TABLE_SIZE: usize = 32768;

/// The bits of 40.0 Hz: accepted sample rates lie strictly above it.
pub const SAMPLE_RATE_FLOOR_BITS: u64 = 0x4044_0000_0000_0000;

/// The bits of 384000.0 Hz, the largest sample rate accepted.
pub const MAX_SAMPLE_RATE_BITS: u64 = 0x4117_7000_0000_0000;

/// Largest block size accepted, in frames.
pub const MAX_BLOCK_SIZE: usize = 8192;

/// Largest voice count accepted.
pub const MAX_NUMBER_OF_VOICES: usize = 128;

/// Smallest lookup-table size accepted.
pub const MIN_LOOKUP_TABLE_SIZE: usize = 256;

/// Largest lookup-table size accepted (2^20): the three filter-coefficient
/// tables grow with it, and above it their allocation risks failing.
pub const MAX_LOOKUP_TABLE_SIZE: usize = 1048576;

/// Validated, internally consistent engine configuration.
#[derive(Debug, Clone, Copy, PartialEq, Eq, Structural)]
pub struct EngineConfig {
    /// The audio sample rate in Hz, as the bits of its `f64` value.
    pub sample_rate_bits: u64,
    /// The number of frames processed per engine block.
    pub block_size: usize,
    /// The number of polyphonic voices.
    pub number_of_voices: usize,
    /// The number of entries in each waveform/filter lookup table.
    pub lookup_table_size: usize,
    /// The size of the output device buffer, in frames.
    pub buffer_size: usize,
}

/// A configured or substituted value, as reported in a warning.
#[derive(Debug, Clone, Copy, PartialEq, Eq, Structural)]
pub enum ConfigValue {
    /// A size or count.
    Count(usize),
    /// A sample rate, as the bits of its `f64` value.
    SampleRateBits(u64),
}

/// Describes a single configuration value that failed validation and the
/// fallback that was substituted for it.
#[derive(Debug, Clone)]
pub struct ConfigWarning {
    /// The name of the configuration field that failed validation.
    pub field: &'static str,
    /// The configured (invalid) value.
    pub configured_value: ConfigValue,
    /// The safe default that was substituted.
    pub fallback_value: ConfigValue,
    /// Why the configured value was rejected.
    pub reason: String,
}

/// `n` is a power of two.
pub open spec fn is_power_of_two(n: nat) -> bool
    decreases n,
{
    if n == 1 {
        true
    } else if n == 0 || n % 2 == 1 {
        false
    } else {
        is_power_of_two(n / 2)
    }
}

pub open spec fn sample_rate_valid(bits: u64) -> bool {
    SAMPLE_RATE_FLOOR_BITS < bits <= MAX_SAMPLE_RATE_BITS
}

pub open spec fn block_size_valid(n: usize) -> bool {
    1 <= n <= MAX_BLOCK_SIZE
}

pub open spec fn number_of_voices_valid(n: usize) -> bool {
    1 <= n <= MAX_NUMBER_OF_VOICES
}

pub open spec fn lookup_table_size_valid(n: usize) -> bool {
    is_power_of_two(n as nat) && MIN_LOOKUP_TABLE_SIZE <= n <= MAX_LOOKUP_TABLE_SIZE
}

/// Every invariant the engine relies on holds of `config`.
pub open spec fn config_is_consistent(config: EngineConfig) -> bool {
    &&& sample_rate_valid(config.sample_rate_bits)
    &&& block_size_valid(config.block_size)
    &&& number_of_voices_valid(config.number_of_voices)
    &&& lookup_table_size_valid(config.lookup_table_size)
    &&& config.buffer_size >= config.block_size
}

/// The documented set of safe defaults.
pub open spec fn default_config() -> EngineConfig {
    EngineConfig {
        sample_rate_bits: DEFAULT_SAMPLE_RATE_BITS,
        block_size: DEFAULT_BLOCK_SIZE,
        number_of_voices: DEFAULT_NUMBER_OF_VOICES,
        lookup_table_size: DEFAULT_LOOKUP_TABLE_SIZE,
        buffer_size: (8 * DEFAULT_BLOCK_SIZE) as usize,
    }
}

impl Default for EngineConfig {
    /// The documented set of safe defaults, used whenever a configured value
    /// fails validation.
    fn default() -> (config: Self)
        ensures
            config == default_config(),
    {
        EngineConfig {
            sample_rate_bits: DEFAULT_SAMPLE_RATE_BITS,
            block_size: DEFAULT_BLOCK_SIZE,
            number_of_voices: DEFAULT_NUMBER_OF_VOICES,
            lookup_table_size: DEFAULT_LOOKUP_TABLE_SIZE,
            buffer_size: 8 * DEFAULT_BLOCK_SIZE,
        }
    }
}

/// The block size validation settles on.
pub open spec fn validated_block_size(block_size: usize) -> usize {
    if block_size_valid(block_size) {
        block_size
    } else {
        DEFAULT_BLOCK_SIZE
    }
}

/// The configuration validation produces: each field as configured when it
/// is valid, its default otherwise; the buffer size is checked against the
/// validated block size and falls back to eight blocks.
pub open spec fn validated(
    sample_rate_bits: u64,
    block_size: usize,
    number_of_voices: usize,
    lookup_table_size: usize,
    buffer_size: usize,
) -> EngineConfig {
    let block = validated_block_size(block_size);
    EngineConfig {
        sample_rate_bits: if sample_rate_valid(sample_rate_bits) {
            sample_rate_bits
        } else {
            DEFAULT_SAMPLE_RATE_BITS
        },
        block_size: block,
        number_of_voices: if number_of_voices_valid(number_of_voices) {
            number_of_voices
        } else {
            DEFAULT_NUMBER_OF_VOICES
        },
        lookup_table_size: if lookup_table_size_valid(lookup_table_size) {
            lookup_table_size
        } else {
            DEFAULT_LOOKUP_TABLE_SIZE
        },
        buffer_size: if buffer_size >= block {
            buffer_size
        } else {
            (8 * block) as usize
        },
    }
}

/// A warning as plain values: field name, configured value, fallback value
/// and reason text.
pub type WarningModel = (Seq<char>, ConfigValue, ConfigValue, Seq<char>);

/// The view of a warning.
pub open spec fn warning_model(w: ConfigWarning) -> WarningModel {
    (w.field@, w.configured_value, w.fallback_value, w.reason@)
}

/// The message of a warning, given the text of its configured and
/// fallback values.
pub open spec fn warning_text(
    field: Seq<char>,
    configured: Seq<char>,
    reason: Seq<char>,
    fallback: Seq<char>,
) -> Seq<char> {
    "Invalid "@ + field + ": "@ + configured + " ("@ + reason + "); using default "@ + fallback
        + " instead."@
}

/// The decimal text of a count; a sample rate is a floating-point value,
/// which the host writes.
pub open spec fn count_text_spec(value: ConfigValue) -> Option<Seq<char>> {
    match value {
        ConfigValue::Count(n) => Some(decimal_text(n as nat)),
        ConfigValue::SampleRateBits(_) => None,
    }
}

impl ConfigValue {
    /// The decimal text of a count, `None` for a sample rate.
    pub fn count_text(&self) -> (text: Option<String>)
        ensures
            match text {
                Some(t) => count_text_spec(*self) == Some(t@),
                None => count_text_spec(*self) is None,
            },
    {
        match self {
            ConfigValue::Count(n) => Some(usize_text(*n)),
            ConfigValue::SampleRateBits(_) => None,
        }
    }
}

impl ConfigWarning {
    /// The message for this warning, e.g. `Invalid block_size: 0 (must be
    /// in the range 1..=8192 frames); using default 256 instead.`, given the
    /// text of the configured and fallback values (see
    /// [`ConfigValue::count_text`]).
    pub fn message_with(&self, configured: &str, fallback: &str) -> (text: String)
        ensures
            text@ == warning_text(self.field@, configured@, self.reason@, fallback@),
    {
        let mut text = String::from_str("Invalid ");
        text.append(self.field);
        text.append(": ");
        text.append(configured);
        text.append(" (");
        text.append(self.reason.as_str());
        text.append("); using default ");
        text.append(fallback);
        text.append(" instead.");
        text
    }
}

pub open spec fn sample_rate_reason() -> Seq<char> {
    "must be finite and in the range (40.0, 384000] Hz"@
}

pub open spec fn block_size_reason() -> Seq<char> {
    "must be in the range 1..=8192 frames"@
}

pub open spec fn number_of_voices_reason() -> Seq<char> {
    "must be in the range 1..=128"@
}

pub open spec fn lookup_table_size_reason() -> Seq<char> {
    "must be a power of two in the range 256..=1048576"@
}

pub open spec fn buffer_size_reason(block_size: usize) -> Seq<char> {
    "must be >= block_size ("@ + decimal_text(block_size as nat)
        + "); the device buffer must hold at least one engine block"@
}

/// The warnings validation produces, one per invalid field, in field order.
pub open spec fn expected_warnings(
    sample_rate_bits: u64,
    block_size: usize,
    number_of_voices: usize,
    lookup_table_size: usize,
    buffer_size: usize,
) -> Seq<WarningModel> {
    let block = validated_block_size(block_size);
    let w1: Seq<WarningModel> = if sample_rate_valid(sample_rate_bits) {
        Seq::empty()
    } else {
        seq![
            (
                "sample_rate"@,
                ConfigValue::SampleRateBits(sample_rate_bits),
                ConfigValue::SampleRateBits(DEFAULT_SAMPLE_RATE_BITS),
                sample_rate_reason(),
            ),
        ]
    };
    let w2: Seq<WarningModel> = if block_size_valid(block_size) {
        Seq::empty()
    } else {
        seq![
            (
                "block_size"@,
                ConfigValue::Count(block_size),
                ConfigValue::Count(DEFAULT_BLOCK_SIZE),
                block_size_reason(),
            ),
        ]
    };
    let w3: Seq<WarningModel> = if number_of_voices_valid(number_of_voices) {
        Seq::empty()
    } else {
        seq![
            (
                "number_of_voices"@,
                ConfigValue::Count(number_of_voices),
                ConfigValue::Count(DEFAULT_NUMBER_OF_VOICES),
                number_of_voices_reason(),
            ),
        ]
    };
    let w4: Seq<WarningModel> = if lookup_table_size_valid(lookup_table_size) {
        Seq::empty()
    } else {
        seq![
            (
                "lookup_table_size"@,
                ConfigValue::Count(lookup_table_size),
                ConfigValue::Count(DEFAULT_LOOKUP_TABLE_SIZE),
                lookup_table_size_reason(),
            ),
        ]
    };
    let w5: Seq<WarningModel> = if buffer_size >= block {
        Seq::empty()
    } else {
        seq![
            (
                "buffer_size"@,
                ConfigValue::Count(buffer_size),
                ConfigValue::Count((8 * block) as usize),
                buffer_size_reason(block),
            ),
        ]
    };
    w1 + w2 + w3 + w4 + w5
}

/// Decides whether `n` is a power of two by halving it while it is even.
pub fn check_power_of_two(n: usize) -> (result: bool)
    ensures
        result == is_power_of_two(n as nat),
{
    if n == 0 {
        return false;
    }
    let mut m = n;
    while m > 1 && m % 2 == 0
        invariant
            m >= 1,
            is_power_of_two(m as nat) == is_power_of_two(n as nat),
        decreases m,
    {
        m = m / 2;
    }
    m == 1
}

fn push_warning(
    warnings: &mut Vec<ConfigWarning>,
    field: &'static str,
    configured_value: ConfigValue,
    fallback_value: ConfigValue,
    reason: String,
)
    ensures
        final(warnings)@.len() == old(warnings)@.len() + 1,
        forall|i: int|
            0 <= i < old(warnings)@.len() ==> #[trigger] final(warnings)@[i] == old(warnings)@[i],
        warning_model(final(warnings)@[old(warnings)@.len() as int]) == (
            field@,
            configured_value,
            fallback_value,
            reason@,
        ),
{
    warnings.push(ConfigWarning { field, configured_value, fallback_value, reason });
}

impl EngineConfig {
    /// Validates the compile-time constants in [`audio_constants`], falling
    /// back to documented safe defaults for any invariant violation.
    pub fn validated() -> (result: (EngineConfig, Vec<ConfigWarning>))
        ensures
            result.0 == validated(
                audio_constants::SAMPLE_RATE_BITS,
                audio_constants::BLOCK_SIZE,
                audio_constants::NUMBER_OF_VOICES,
                audio_constants::LOOKUP_TABLE_SIZE,
                audio_constants::BUFFER_SIZE,
            ),
            result.1@.map_values(|w: ConfigWarning| warning_model(w)) == expected_warnings(
                audio_constants::SAMPLE_RATE_BITS,
                audio_constants::BLOCK_SIZE,
                audio_constants::NUMBER_OF_VOICES,
                audio_constants::LOOKUP_TABLE_SIZE,
                audio_constants::BUFFER_SIZE,
            ),
    {
        Self::validate_values(
            audio_constants::SAMPLE_RATE_BITS,
            audio_constants::BLOCK_SIZE,
            audio_constants::NUMBER_OF_VOICES,
            audio_constants::LOOKUP_TABLE_SIZE,
            audio_constants::BUFFER_SIZE,
        )
    }

    /// Validates a set of raw configuration values, returning a consistent
    /// [`EngineConfig`] plus one [`ConfigWarning`] per invariant violated,
    /// in field order.
    ///
    /// - `sample_rate_bits`: the rate must be finite, `> 40.0` and
    ///   `<= 384000.0` Hz.
    /// - `block_size`: `1..=8192`.
    /// - `number_of_voices`: `1..=128`.
    /// - `lookup_table_size`: a power of two in `256..=2^20`.
    /// - `buffer_size`: at least the *validated* block size (after any
    ///   block-size fallback); otherwise eight validated blocks.
    pub fn validate_values(
        sample_rate_bits: u64,
        block_size: usize,
        number_of_voices: usize,
        lookup_table_size: usize,
        buffer_size: usize,
    ) -> (result: (EngineConfig, Vec<ConfigWarning>))
        ensures
            result.0 == validated(
                sample_rate_bits,
                block_size,
                number_of_voices,
                lookup_table_size,
                buffer_size,
            ),
            result.1@.map_values(|w: ConfigWarning| warning_model(w)) == expected_warnings(
                sample_rate_bits,
                block_size,
                number_of_voices,
                lookup_table_size,
                buffer_size,
            ),
    {
        let mut warnings: Vec<ConfigWarning> = Vec::new();
        let ghost mut expected: Seq<WarningModel> = Seq::empty();

        let valid_sample_rate = if SAMPLE_RATE_FLOOR_BITS < sample_rate_bits && sample_rate_bits
            <= MAX_SAMPLE_RATE_BITS {
            sample_rate_bits
        } else {
            push_warning(
                &mut warnings,
                "sample_rate",
                ConfigValue::SampleRateBits(sample_rate_bits),
                ConfigValue::SampleRateBits(DEFAULT_SAMPLE_RATE_BITS),
                String::from_str("must be finite and in the range (40.0, 384000] Hz"),
            );
            DEFAULT_SAMPLE_RATE_BITS
        };
        proof {
            expected = if sample_rate_valid(sample_rate_bits) {
                Seq::empty()
            } else {
                seq![
                    (
                        "sample_rate"@,
                        ConfigValue::SampleRateBits(sample_rate_bits),
                        ConfigValue::SampleRateBits(DEFAULT_SAMPLE_RATE_BITS),
                        sample_rate_reason(),
                    ),
                ]
            };
            assert(warnings@.map_values(|w: ConfigWarning| warning_model(w)) =~= expected);
        }

        let valid_block_size = if 1 <= block_size && block_size <= MAX_BLOCK_SIZE {
            block_size
        } else {
            push_warning(
                &mut warnings,
                "block_size",
                ConfigValue::Count(block_size),
                ConfigValue::Count(DEFAULT_BLOCK_SIZE),
                String::from_str("must be in the range 1..=8192 frames"),
            );
            DEFAULT_BLOCK_SIZE
        };
        proof {
            let w2: Seq<WarningModel> = if block_size_valid(block_size) {
                Seq::empty()
            } else {
                seq![
                    (
                        "block_size"@,
                        ConfigValue::Count(block_size),
                        ConfigValue::Count(DEFAULT_BLOCK_SIZE),
                        block_size_reason(),
                    ),
                ]
            };
            expected = expected + w2;
            assert(warnings@.map_values(|w: ConfigWarning| warning_model(w)) =~= expected);
        }

        let valid_number_of_voices = if 1 <= number_of_voices && number_of_voices
            <= MAX_NUMBER_OF_VOICES {
            number_of_voices
        } else {
            push_warning(
                &mut warnings,
                "number_of_voices",
                ConfigValue::Count(number_of_voices),
                ConfigValue::Count(DEFAULT_NUMBER_OF_VOICES),
                String::from_str("must be in the range 1..=128"),
            );
            DEFAULT_NUMBER_OF_VOICES
        };
        proof {
            let w3: Seq<WarningModel> = if number_of_voices_valid(number_of_voices) {
                Seq::empty()
            } else {
                seq![
                    (
                        "number_of_voices"@,
                        ConfigValue::Count(number_of_voices),
                        ConfigValue::Count(DEFAULT_NUMBER_OF_VOICES),
                        number_of_voices_reason(),
                    ),
                ]
            };
            expected = expected + w3;
            assert(warnings@.map_values(|w: ConfigWarning| warning_model(w)) =~= expected);
        }

        let valid_lookup_table_size = if check_power_of_two(lookup_table_size)
            && MIN_LOOKUP_TABLE_SIZE <= lookup_table_size && lookup_table_size
            <= MAX_LOOKUP_TABLE_SIZE {
            lookup_table_size
        } else {
            push_warning(
                &mut warnings,
                "lookup_table_size",
                ConfigValue::Count(lookup_table_size),
                ConfigValue::Count(DEFAULT_LOOKUP_TABLE_SIZE),
                String::from_str("must be a power of two in the range 256..=1048576"),
            );
            DEFAULT_LOOKUP_TABLE_SIZE
        };
        proof {
            let w4: Seq<WarningModel> = if lookup_table_size_valid(lookup_table_size) {
                Seq::empty()
            } else {
                seq![
                    (
                        "lookup_table_size"@,
                        ConfigValue::Count(lookup_table_size),
                        ConfigValue::Count(DEFAULT_LOOKUP_TABLE_SIZE),
                        lookup_table_size_reason(),
                    ),
                ]
            };
            expected = expected + w4;
            assert(warnings@.map_values(|w: ConfigWarning| warning_model(w)) =~= expected);
        }

        let valid_buffer_size = if buffer_size >= valid_block_size {
            buffer_size
        } else {
            let fallback = 8 * valid_block_size;
            let mut reason = String::from_str("must be >= block_size (");
            let block_text = usize_text(valid_block_size);
            reason.append(block_text.as_str());
            reason.append("); the device buffer must hold at least one engine block");
            push_warning(
                &mut warnings,
                "buffer_size",
                ConfigValue::Count(buffer_size),
                ConfigValue::Count(fallback),
                reason,
            );
            fallback
        };
        proof {
            let block = validated_block_size(block_size);
            let w5: Seq<WarningModel> = if buffer_size >= block {
                Seq::empty()
            } else {
                seq![
                    (
                        "buffer_size"@,
                        ConfigValue::Count(buffer_size),
                        ConfigValue::Count((8 * block) as usize),
                        buffer_size_reason(block),
                    ),
                ]
            };
            expected = expected + w5;
            assert(warnings@.map_values(|w: ConfigWarning| warning_model(w)) =~= expected);
        }

        let config = EngineConfig {
            sample_rate_bits: valid_sample_rate,
            block_size: valid_block_size,
            number_of_voices: valid_number_of_voices,
            lookup_table_size: valid_lookup_table_size,
            buffer_size: valid_buffer_size,
        };
        (config, warnings)
    }
}

/// Returns the validated engine configuration of the compile-time
/// constants. Every consumer should read this rather than the raw
/// constants, so that the whole process agrees on one configuration.
pub fn validated_config() -> (config: EngineConfig)
    ensures
        config == validated(
            audio_constants::SAMPLE_RATE_BITS,
            audio_constants::BLOCK_SIZE,
            audio_constants::NUMBER_OF_VOICES,
            audio_constants::LOOKUP_TABLE_SIZE,
            audio_constants::BUFFER_SIZE,
        ),
{
    EngineConfig::validated().0
}

/// Returns the warnings produced while validating the compile-time
/// constants: empty when every constant is valid. Hosts must show each of
/// them to the user.
pub fn config_warnings() -> (warnings: Vec<ConfigWarning>)
    ensures
        warnings@.map_values(|w: ConfigWarning| warning_model(w)) == expected_warnings(
            audio_constants::SAMPLE_RATE_BITS,
            audio_constants::BLOCK_SIZE,
            audio_constants::NUMBER_OF_VOICES,
            audio_constants::LOOKUP_TABLE_SIZE,
            audio_constants::BUFFER_SIZE,
        ),
{
    EngineConfig::validated().1
}

/// Whatever values are configured, the validated configuration satisfies
/// every invariant the engine relies on.
pub proof fn lemma_validated_is_consistent(
    sample_rate_bits: u64,
    block_size: usize,
    number_of_voices: usize,
    lookup_table_size: usize,
    buffer_size: usize,
)
    ensures
        config_is_consistent(
            validated(sample_rate_bits, block_size, number_of_voices, lookup_table_size, buffer_size),
        ),
{
    reveal_with_fuel(is_power_of_two, 17);
    assert(is_power_of_two(32768));
}

/// A configuration that already satisfies every invariant is returned
/// unchanged, without warnings.
pub proof fn lemma_valid_config_unchanged(config: EngineConfig)
    requires
        config_is_consistent(config),
    ensures
        validated(
            config.sample_rate_bits,
            config.block_size,
            config.number_of_voices,
            config.lookup_table_size,
            config.buffer_size,
        ) == config,
        expected_warnings(
            config.sample_rate_bits,
            config.block_size,
            config.number_of_voices,
            config.lookup_table_size,
            config.buffer_size,
        ).len() == 0,
{
}

/// Validating an already validated configuration changes nothing and warns
/// about nothing.
pub proof fn lemma_validation_idempotent(
    sample_rate_bits: u64,
    block_size: usize,
    number_of_voices: usize,
    lookup_table_size: usize,
    buffer_size: usize,
)
    ensures
        ({
            let c = validated(
                sample_rate_bits,
                block_size,
                number_of_voices,
                lookup_table_size,
                buffer_size,
            );
            validated(
                c.sample_rate_bits,
                c.block_size,
                c.number_of_voices,
                c.lookup_table_size,
                c.buffer_size,
            ) == c && expected_warnings(
                c.sample_rate_bits,
                c.block_size,
                c.number_of_voices,
                c.lookup_table_size,
                c.buffer_size,
            ).len() == 0
        }),
{
    lemma_validated_is_consistent(
        sample_rate_bits,
        block_size,
        number_of_voices,
        lookup_table_size,
        buffer_size,
    );
    let c = validated(sample_rate_bits, block_size, number_of_voices, lookup_table_size, buffer_size);
    lemma_valid_config_unchanged(c);
}

/// The number of fields that fail their own check.
pub open spec fn invalid_field_count(
    sample_rate_bits: u64,
    block_size: usize,
    number_of_voices: usize,
    lookup_table_size: usize,
    buffer_size: usize,
) -> int {
    (if sample_rate_valid(sample_rate_bits) { 0int } else { 1int }) + (if block_size_valid(
        block_size,
    ) {
        0int
    } else {
        1int
    }) + (if number_of_voices_valid(number_of_voices) {
        0int
    } else {
        1int
    }) + (if lookup_table_size_valid(lookup_table_size) {
        0int
    } else {
        1int
    }) + (if buffer_size >= validated_block_size(block_size) {
        0int
    } else {
        1int
    })
}

/// Each invalid field produces exactly one warning, and a field whose value
/// is replaced is reported with the value it received.
pub proof fn lemma_one_warning_per_invalid_field(
    sample_rate_bits: u64,
    block_size: usize,
    number_of_voices: usize,
    lookup_table_size: usize,
    buffer_size: usize,
)
    ensures
        expected_warnings(
            sample_rate_bits,
            block_size,
            number_of_voices,
            lookup_table_size,
            buffer_size,
        ).len() == invalid_field_count(
            sample_rate_bits,
            block_size,
            number_of_voices,
            lookup_table_size,
            buffer_size,
        ),
{
}

} // verus!
