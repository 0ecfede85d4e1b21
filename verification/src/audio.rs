//! Plain descriptions of audio input formats, and the choice of one that a
//! model can be fed with.
//!
//! The audio host is asked outside this crate. What it answered comes in as an
//! [`InputDeviceReport`]; [`negotiate`] picks the configuration to capture with.
use crate::wakeword::is_compatible_format;
use vstd::prelude::*;

verus! {

/// The sample rate, in Hz, that the spotting and the decoding model work at.
pub const TARGET_SAMPLE_RATE: u32 = 16000;

/// How one sample is stored.
#[derive(Clone, Copy, Debug, PartialEq, Eq, Structural)]
pub enum SampleFormat {
    I8,
    I16,
    I32,
    I64,
    U8,
    U16,
    U32,
    U64,
    F32,
    F64,
}

impl SampleFormat {
    /// The number of bytes that one sample takes.
    pub open spec fn size_in_bytes(self) -> nat {
        match self {
            SampleFormat::I8 | SampleFormat::U8 => 1,
            SampleFormat::I16 | SampleFormat::U16 => 2,
            SampleFormat::I32 | SampleFormat::U32 | SampleFormat::F32 => 4,
            SampleFormat::I64 | SampleFormat::U64 | SampleFormat::F64 => 8,
        }
    }

    /// Whether samples are floating-point numbers.
    pub open spec fn float(self) -> bool {
        self == SampleFormat::F32 || self == SampleFormat::F64
    }

    pub fn sample_size(&self) -> (bytes: usize)
        ensures
            bytes == self.size_in_bytes(),
    {
        match self {
            SampleFormat::I8 | SampleFormat::U8 => 1,
            SampleFormat::I16 | SampleFormat::U16 => 2,
            SampleFormat::I32 | SampleFormat::U32 | SampleFormat::F32 => 4,
            SampleFormat::I64 | SampleFormat::U64 | SampleFormat::F64 => 8,
        }
    }

    pub fn is_float(&self) -> (yes: bool)
        ensures
            yes == self.float(),
    {
        match self {
            SampleFormat::F32 | SampleFormat::F64 => true,
            _ => false,
        }
    }
}

/// One input configuration that a device can capture with.
#[derive(Clone, Copy, Debug, PartialEq, Eq, Structural)]
pub struct InputConfig {
    pub channels: u16,
    pub sample_rate: u32,
    pub sample_format: SampleFormat,
}

/// A family of input configurations that differ in their sample rate only.
#[derive(Clone, Copy, Debug, PartialEq, Eq, Structural)]
pub struct InputConfigRange {
    pub channels: u16,
    pub min_sample_rate: u32,
    pub max_sample_rate: u32,
    pub sample_format: SampleFormat,
}

impl InputConfigRange {
    /// Whether the range holds the sample rate `rate`.
    pub open spec fn covers(self, rate: u32) -> bool {
        self.min_sample_rate <= rate <= self.max_sample_rate
    }

    /// The member of the family with the sample rate `rate`.
    pub open spec fn at_rate(self, rate: u32) -> InputConfig {
        InputConfig { channels: self.channels, sample_rate: rate, sample_format: self.sample_format }
    }

    /// The configuration with the sample rate `rate`, where the range holds it.
    pub fn try_with_sample_rate(&self, rate: u32) -> (config: Option<InputConfig>)
        ensures
            config == if self.covers(rate) {
                Some(self.at_rate(rate))
            } else {
                None
            },
    {
        if self.min_sample_rate <= rate && rate <= self.max_sample_rate {
            Some(
                InputConfig {
                    channels: self.channels,
                    sample_rate: rate,
                    sample_format: self.sample_format,
                },
            )
        } else {
            None
        }
    }

    /// The configuration with the highest sample rate of the range.
    pub fn with_max_sample_rate(&self) -> (config: InputConfig)
        ensures
            config == self.at_rate(self.max_sample_rate),
    {
        InputConfig {
            channels: self.channels,
            sample_rate: self.max_sample_rate,
            sample_format: self.sample_format,
        }
    }
}

/// The configuration of the range `sc` at the sample rate `preferred_sample_rate`
/// where the range holds it, and at the highest rate of the range where not.
pub fn try_get_config_with_sample_rate(sc: InputConfigRange, preferred_sample_rate: u32) -> (config:
    InputConfig)
    ensures
        config == if sc.covers(preferred_sample_rate) {
            sc.at_rate(preferred_sample_rate)
        } else {
            sc.at_rate(sc.max_sample_rate)
        },
{
    match sc.try_with_sample_rate(preferred_sample_rate) {
        Some(config) => config,
        None => sc.with_max_sample_rate(),
    }
}

/// What a capture stream is opened with: the sample type is chosen apart.
#[derive(Clone, Copy, Debug, PartialEq, Eq, Structural)]
pub struct StreamConfig {
    pub channels: u16,
    pub sample_rate: u32,
}

impl InputConfig {
    /// The stream settings of this configuration.
    pub fn stream_config(&self) -> (stream: StreamConfig)
        ensures
            stream.channels == self.channels,
            stream.sample_rate == self.sample_rate,
    {
        StreamConfig { channels: self.channels, sample_rate: self.sample_rate }
    }
}

/// Who takes the captured audio.
#[derive(Clone, Copy, Debug, PartialEq, Eq, Structural)]
pub enum AudioConsumer {
    /// The wakeword spotter: 16-bit or 32-bit integers, or 32-bit floats.
    WakewordSpotter,
    /// The speech decoder: 16-bit integers only.
    SpeechDecoder,
}

impl AudioConsumer {
    /// Whether the consumer can be fed samples of the format `format`.
    pub open spec fn accepts(self, format: SampleFormat) -> bool {
        match self {
            AudioConsumer::WakewordSpotter => format == SampleFormat::I16 || format
                == SampleFormat::I32 || format == SampleFormat::F32,
            AudioConsumer::SpeechDecoder => format == SampleFormat::I16,
        }
    }

    /// Whether a device default can be taken as it is: one channel, in a
    /// format that the consumer accepts. Its sample rate is not looked at.
    pub open spec fn takes_default(self, config: InputConfig) -> bool {
        config.channels == 1 && self.accepts(config.sample_format)
    }

    /// Whether a supported range can serve: one channel, an accepted format,
    /// and the target rate within the range.
    pub open spec fn takes_range(self, range: InputConfigRange) -> bool {
        range.channels == 1 && self.accepts(range.sample_format) && range.covers(
            TARGET_SAMPLE_RATE,
        )
    }

    pub fn accepts_format(&self, format: &SampleFormat) -> (yes: bool)
        ensures
            yes == self.accepts(*format),
    {
        match self {
            AudioConsumer::WakewordSpotter => is_compatible_format(format),
            AudioConsumer::SpeechDecoder => match format {
                SampleFormat::I16 => true,
                _ => false,
            },
        }
    }
}

/// What the audio host answered when asked for its default input device.
#[derive(Debug, PartialEq, Eq)]
pub enum InputDeviceReport {
    /// There is no default input device.
    NoDevice,
    /// The device did not name a default configuration; the text says why.
    NoDefaultConfig(String),
    /// The device, with its default configuration and the ranges it supports
    /// (or the reason why they could not be listed).
    Device { default_config: InputConfig, supported: Result<Vec<InputConfigRange>, String> },
}

/// Why no input configuration was chosen.
#[derive(Debug, PartialEq, Eq)]
pub enum NegotiationError {
    NoDevice,
    NoDefaultConfig(String),
    /// The default did not serve and the supported ranges could not be listed.
    ListConfigs(String),
    /// Neither the default nor any supported range serves.
    NoSupportedConfig,
}

/// The first range of `ranges` that serves `consumer`, if any does.
pub open spec fn first_usable(consumer: AudioConsumer, ranges: Seq<InputConfigRange>) -> Option<
    InputConfigRange,
>
    decreases ranges.len(),
{
    if ranges.len() == 0 {
        None
    } else if consumer.takes_range(ranges.first()) {
        Some(ranges.first())
    } else {
        first_usable(consumer, ranges.drop_first())
    }
}

/// What is chosen among the supported ranges `ranges`: the first that serves
/// `consumer`, at the target sample rate.
pub open spec fn selected(consumer: AudioConsumer, ranges: Seq<InputConfigRange>) -> Option<
    InputConfig,
> {
    match first_usable(consumer, ranges) {
        Some(range) => Some(range.at_rate(TARGET_SAMPLE_RATE)),
        None => None,
    }
}

/// The first range among `ranges` that serves `consumer`, set to the target
/// sample rate; `None` where no range serves.
pub fn select_supported(consumer: AudioConsumer, ranges: &Vec<InputConfigRange>) -> (chosen: Option<
    InputConfig,
>)
    ensures
        chosen == selected(consumer, ranges@),
{
    let mut i: usize = 0;
    proof {
        assert(ranges@.subrange(0, ranges@.len() as int) =~= ranges@);
    }
    while i < ranges.len()
        invariant
            i <= ranges@.len(),
            first_usable(consumer, ranges@) == first_usable(
                consumer,
                ranges@.subrange(i as int, ranges@.len() as int),
            ),
        decreases ranges@.len() - i,
    {
        let range = ranges[i];
        let ghost rest = ranges@.subrange(i as int, ranges@.len() as int);
        proof {
            assert(rest.first() == range);
            assert(rest.drop_first() =~= ranges@.subrange(i + 1, ranges@.len() as int));
        }
        if range.channels == 1 && consumer.accepts_format(&range.sample_format)
            && range.min_sample_rate <= TARGET_SAMPLE_RATE && TARGET_SAMPLE_RATE
            <= range.max_sample_rate {
            return Some(try_get_config_with_sample_rate(range, TARGET_SAMPLE_RATE));
        }
        i = i + 1;
    }
    None
}

/// What [`negotiate`] answers to each report.
pub open spec fn negotiated(consumer: AudioConsumer, report: InputDeviceReport) -> Result<
    InputConfig,
    NegotiationError,
> {
    match report {
        InputDeviceReport::NoDevice => Err(NegotiationError::NoDevice),
        InputDeviceReport::NoDefaultConfig(why) => Err(NegotiationError::NoDefaultConfig(why)),
        InputDeviceReport::Device { default_config, supported } => {
            if consumer.takes_default(default_config) {
                Ok(default_config)
            } else {
                match supported {
                    Err(why) => Err(NegotiationError::ListConfigs(why)),
                    Ok(ranges) => match selected(consumer, ranges@) {
                        Some(config) => Ok(config),
                        None => Err(NegotiationError::NoSupportedConfig),
                    },
                }
            }
        },
    }
}

/// What is chosen among supported ranges is single-channel, in a format that
/// the consumer accepts, and at the target sample rate.
pub proof fn lemma_selected_serves(consumer: AudioConsumer, ranges: Seq<InputConfigRange>)
    ensures
        selected(consumer, ranges) matches Some(config) ==> config.channels == 1
            && consumer.accepts(config.sample_format) && config.sample_rate
            == TARGET_SAMPLE_RATE,
        selected(consumer, ranges) is None <==> forall|i: int|
            0 <= i < ranges.len() ==> !consumer.takes_range(#[trigger] ranges[i]),
    decreases ranges.len(),
{
    if ranges.len() > 0 {
        let rest = ranges.drop_first();
        lemma_selected_serves(consumer, rest);
        if !consumer.takes_range(ranges.first()) {
            if selected(consumer, ranges) is None {
                assert forall|i: int| 0 <= i < ranges.len() implies !consumer.takes_range(
                    #[trigger] ranges[i],
                ) by {
                    if i > 0 {
                        assert(rest[i - 1] == ranges[i]);
                    }
                }
            } else {
                let i = choose|i: int| 0 <= i < rest.len() && consumer.takes_range(#[trigger] rest[i]);
                assert(ranges[i + 1] == rest[i]);
            }
        } else {
            assert(ranges[0] == ranges.first());
        }
    }
}

/// Chooses the input configuration to capture with for `consumer`.
///
/// A default that is single-channel and in an accepted format is taken as it
/// is. Otherwise the first supported range that is single-channel, in an
/// accepted format and holds the target rate is taken, at the target rate.
/// The supported ranges are looked at only where the default does not serve.
pub fn negotiate(consumer: AudioConsumer, report: InputDeviceReport) -> (chosen: Result<
    InputConfig,
    NegotiationError,
>)
    ensures
        chosen == negotiated(consumer, report),
        chosen matches Ok(config) ==> config.channels == 1 && consumer.accepts(
            config.sample_format,
        ),
{
    match report {
        InputDeviceReport::NoDevice => Err(NegotiationError::NoDevice),
        InputDeviceReport::NoDefaultConfig(why) => Err(NegotiationError::NoDefaultConfig(why)),
        InputDeviceReport::Device { default_config, supported } => {
            if default_config.channels == 1 && consumer.accepts_format(
                &default_config.sample_format,
            ) {
                Ok(default_config)
            } else {
                match supported {
                    Err(why) => Err(NegotiationError::ListConfigs(why)),
                    Ok(ranges) => {
                        proof {
                            lemma_selected_serves(consumer, ranges@);
                        }
                        match select_supported(consumer, &ranges) {
                            Some(config) => Ok(config),
                            None => Err(NegotiationError::NoSupportedConfig),
                        }
                    },
                }
            }
        },
    }
}

} // verus!
