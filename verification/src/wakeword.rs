//! Wakeword spotting: the format handed to the spotting model, the profiles
//! it holds, and the framing of live audio into what the model scores.
//!
//! The spotting model is `rustpotter`. It is made, loaded with profiles and
//! asked to score outside this crate; here it is decided what it is made
//! for, whether capture may start, and which frames it is to score.
use crate::audio::negotiate;
use crate::audio::negotiated;
use crate::audio::AudioConsumer;
use crate::audio::InputConfig;
use crate::audio::InputDeviceReport;
use crate::audio::NegotiationError;
use crate::audio::SampleFormat;
use crate::audio::StreamConfig;
use crate::frames::append_chunk;
use crate::frames::frame_at;
use crate::frames::leftover;
use crate::frames::lemma_all_frames_taken;
use crate::frames::take_frame;
use crate::frames::whole_frames;
use rustpotter::Rustpotter;
use vstd::prelude::*;

verus! {

#[verifier::external_type_specification]
#[verifier::external_body]
pub struct ExRustpotter(Rustpotter);

/// Why no wakeword configuration could be built.
#[derive(Debug, PartialEq, Eq)]
pub enum WakewordConfigBuildError {
    NoInputDevice,
    NoDefaultInputConfig(String),
    ListInputConfigs(String),
    GetSupportedInputConfig,
    WrongSampleFormatSize,
    /// The spotting model refused its configuration; the text says why.
    CreateRustpotter(String),
}

/// Why capture did not start.
#[derive(Debug, PartialEq, Eq)]
pub enum WakewordConfigStartError {
    /// The capture stream could not be built; the text says why.
    InitInputStream(String),
    /// The capture stream could not be set running; the text says why.
    PlayStream(String),
    NoWakewordsAdded,
}

/// A wakeword profile could not be added; the text says why.
#[derive(Debug, PartialEq, Eq)]
pub struct WakewordConfigAddError(pub String);

/// The sample formats that the spotting model knows.
#[derive(Clone, Copy, Debug, PartialEq, Eq, Structural)]
pub enum DetectorSampleFormat {
    I8,
    I16,
    I32,
    F32,
}

/// The audio format that the spotting model is configured with.
#[derive(Clone, Copy, Debug, PartialEq, Eq, Structural)]
pub struct DetectorFormat {
    pub sample_rate: usize,
    pub channels: u16,
    pub sample_format: DetectorSampleFormat,
}

/// The integer format with samples of `bits` bits, if the model knows one.
pub open spec fn integer_format(bits: u16) -> Option<DetectorSampleFormat> {
    if bits == 8 {
        Some(DetectorSampleFormat::I8)
    } else if bits == 16 {
        Some(DetectorSampleFormat::I16)
    } else if bits == 32 {
        Some(DetectorSampleFormat::I32)
    } else {
        None
    }
}

/// The floating-point format with samples of `bits` bits, if the model knows one.
pub open spec fn float_format(bits: u16) -> Option<DetectorSampleFormat> {
    if bits == 32 {
        Some(DetectorSampleFormat::F32)
    } else {
        None
    }
}

/// `rustpotter::SampleFormat::int_of_size`: the integer format of that many
/// bits, which exists for 8, 16 and 32 bits.
#[verifier::external_body]
fn int_of_size(bits: u16) -> (format: Option<DetectorSampleFormat>)
    ensures
        format == integer_format(bits),
{
    match rustpotter::SampleFormat::int_of_size(bits) {
        Some(rustpotter::SampleFormat::I8) => Some(DetectorSampleFormat::I8),
        Some(rustpotter::SampleFormat::I16) => Some(DetectorSampleFormat::I16),
        Some(rustpotter::SampleFormat::I32) => Some(DetectorSampleFormat::I32),
        Some(rustpotter::SampleFormat::F32) => Some(DetectorSampleFormat::F32),
        None => None,
    }
}

/// `rustpotter::SampleFormat::float_of_size`: the floating-point format of
/// that many bits, which exists for 32 bits.
#[verifier::external_body]
fn float_of_size(bits: u16) -> (format: Option<DetectorSampleFormat>)
    ensures
        format == float_format(bits),
{
    match rustpotter::SampleFormat::float_of_size(bits) {
        Some(rustpotter::SampleFormat::I8) => Some(DetectorSampleFormat::I8),
        Some(rustpotter::SampleFormat::I16) => Some(DetectorSampleFormat::I16),
        Some(rustpotter::SampleFormat::I32) => Some(DetectorSampleFormat::I32),
        Some(rustpotter::SampleFormat::F32) => Some(DetectorSampleFormat::F32),
        None => None,
    }
}

/// Whether the spotting model can be fed samples of the format `format`.
pub fn is_compatible_format(format: &SampleFormat) -> (yes: bool)
    ensures
        yes == AudioConsumer::WakewordSpotter.accepts(*format),
{
    match format {
        SampleFormat::I16 | SampleFormat::I32 | SampleFormat::F32 => true,
        _ => false,
    }
}

/// The format that the spotting model is configured with for capture with `config`.
pub open spec fn detector_format_of(config: InputConfig) -> Option<DetectorFormat> {
    let bits = (config.sample_format.size_in_bytes() * 8) as u16;
    let sample_format = if config.sample_format.float() {
        float_format(bits)
    } else {
        integer_format(bits)
    };
    match sample_format {
        Some(sample_format) => Some(
            DetectorFormat {
                sample_rate: config.sample_rate as usize,
                channels: config.channels,
                sample_format,
            },
        ),
        None => None,
    }
}

/// The spotting model's format for `config`; `None` where the model has no
/// format of that kind and width.
pub fn detector_format(config: &InputConfig) -> (format: Option<DetectorFormat>)
    ensures
        format == detector_format_of(*config),
{
    let bits = (config.sample_format.sample_size() * 8) as u16;
    let sample_format = if config.sample_format.is_float() {
        float_of_size(bits)
    } else {
        int_of_size(bits)
    };
    match sample_format {
        Some(sample_format) => Some(
            DetectorFormat {
                sample_rate: config.sample_rate as usize,
                channels: config.channels,
                sample_format,
            },
        ),
        None => None,
    }
}

/// What capture for the spotter is set up with: the input configuration that
/// was agreed with the device and the format that the model is to be made for.
pub struct WakewordSetup {
    input_config: InputConfig,
    detector_format: DetectorFormat,
}

impl WakewordSetup {
    #[verifier::type_invariant]
    spec fn well_formed(self) -> bool {
        &&& AudioConsumer::WakewordSpotter.accepts(self.input_config.sample_format)
        &&& detector_format_of(self.input_config) == Some(self.detector_format)
    }

    pub closed spec fn input(self) -> InputConfig {
        self.input_config
    }

    pub closed spec fn detector(self) -> DetectorFormat {
        self.detector_format
    }

    pub fn input_config(&self) -> (config: InputConfig)
        ensures
            config == self.input(),
            AudioConsumer::WakewordSpotter.accepts(config.sample_format),
    {
        proof {
            use_type_invariant(self);
        }
        self.input_config
    }

    pub fn detector_format(&self) -> (format: DetectorFormat)
        ensures
            format == self.detector(),
            detector_format_of(self.input()) == Some(format),
    {
        proof {
            use_type_invariant(self);
        }
        self.detector_format
    }
}

/// The error that the spotter's configuration reports for a failed negotiation.
pub open spec fn build_error_of(error: NegotiationError) -> WakewordConfigBuildError {
    match error {
        NegotiationError::NoDevice => WakewordConfigBuildError::NoInputDevice,
        NegotiationError::NoDefaultConfig(why) => WakewordConfigBuildError::NoDefaultInputConfig(
            why,
        ),
        NegotiationError::ListConfigs(why) => WakewordConfigBuildError::ListInputConfigs(why),
        NegotiationError::NoSupportedConfig => WakewordConfigBuildError::GetSupportedInputConfig,
    }
}

impl WakewordSetup {
    /// Agrees an input configuration for the spotter with the device that
    /// `report` describes, and derives the format that the model is made for.
    pub fn negotiate(report: InputDeviceReport) -> (setup: Result<
        WakewordSetup,
        WakewordConfigBuildError,
    >)
        ensures
            match negotiated(AudioConsumer::WakewordSpotter, report) {
                Ok(config) => setup is Ok && setup->Ok_0.input() == config
                    && detector_format_of(config) == Some(setup->Ok_0.detector()),
                Err(error) => setup == Err::<WakewordSetup, _>(build_error_of(error)),
            },
    {
        match negotiate(AudioConsumer::WakewordSpotter, report) {
            Ok(input_config) => {
                match detector_format(&input_config) {
                    Some(detector_format) => Ok(WakewordSetup { input_config, detector_format }),
                    None => Err(WakewordConfigBuildError::WrongSampleFormatSize),
                }
            },
            Err(NegotiationError::NoDevice) => Err(WakewordConfigBuildError::NoInputDevice),
            Err(NegotiationError::NoDefaultConfig(why)) => Err(
                WakewordConfigBuildError::NoDefaultInputConfig(why),
            ),
            Err(NegotiationError::ListConfigs(why)) => Err(
                WakewordConfigBuildError::ListInputConfigs(why),
            ),
            Err(NegotiationError::NoSupportedConfig) => Err(
                WakewordConfigBuildError::GetSupportedInputConfig,
            ),
        }
    }
}

/// The number of samples in the frames that a spotting model scores.
pub uninterp spec fn frame_length(spotter: Rustpotter) -> usize;

/// `Rustpotter::get_samples_per_frame`: the number of samples that the model
/// scores at a time, `frame_length` of the model.
#[verifier::external_body]
fn get_samples_per_frame(spotter: &Rustpotter) -> (samples: usize)
    ensures
        samples == frame_length(*spotter),
{
    spotter.get_samples_per_frame()
}

/// The spotter before capture starts: the model, the configuration agreed
/// with the device, and whether a profile has been added.
pub struct WakewordConfig {
    rustpotter: Rustpotter,
    setup: WakewordSetup,
    wakeword_added: bool,
}

/// The sample type that a capture stream delivers.
#[derive(Clone, Copy, Debug, PartialEq, Eq, Structural)]
pub enum SampleKind {
    I16,
    I32,
    F32,
}

/// The sample type that capture in the format `format` delivers.
pub open spec fn sample_kind_of(format: SampleFormat) -> SampleKind {
    match format {
        SampleFormat::I16 => SampleKind::I16,
        SampleFormat::I32 => SampleKind::I32,
        _ => SampleKind::F32,
    }
}

/// What capture is started with: the model, the stream settings, the sample
/// type of the stream and the length of the frames that the model scores.
pub struct WakewordCapture {
    pub rustpotter: Rustpotter,
    pub stream_config: StreamConfig,
    pub sample_kind: SampleKind,
    pub samples_per_frame: usize,
}

/// What adding a profile answers, given what the model said of the profile.
pub open spec fn add_outcome(loaded: Result<(), String>) -> Result<(), WakewordConfigAddError> {
    match loaded {
        Ok(()) => Ok(()),
        Err(why) => Err(WakewordConfigAddError(why)),
    }
}

impl WakewordConfig {
    /// The input configuration agreed with the device.
    pub closed spec fn input(self) -> InputConfig {
        self.setup.input()
    }

    /// Whether a profile has been added.
    pub closed spec fn has_wakeword(self) -> bool {
        self.wakeword_added
    }

    /// The spotting model.
    pub closed spec fn spotter(self) -> Rustpotter {
        self.rustpotter
    }

    pub fn input_config(&self) -> (config: InputConfig)
        ensures
            config == self.input(),
            AudioConsumer::WakewordSpotter.accepts(config.sample_format),
    {
        self.setup.input_config()
    }

    pub fn wakeword_added(&self) -> (added: bool)
        ensures
            added == self.has_wakeword(),
    {
        self.wakeword_added
    }

    /// The configuration for capture as `setup` says, around the model that
    /// was made for it. `spotter` is what making the model gave: the model, or
    /// the reason why its configuration was refused.
    pub fn build(setup: WakewordSetup, spotter: Result<Rustpotter, String>) -> (config: Result<
        WakewordConfig,
        WakewordConfigBuildError,
    >)
        ensures
            match spotter {
                Ok(model) => config is Ok && config->Ok_0.input() == setup.input()
                    && config->Ok_0.spotter() == model && !config->Ok_0.has_wakeword(),
                Err(why) => config == Err::<WakewordConfig, _>(
                    WakewordConfigBuildError::CreateRustpotter(why),
                ),
            },
    {
        match spotter {
            Ok(rustpotter) => Ok(WakewordConfig { rustpotter, setup, wakeword_added: false }),
            Err(why) => Err(WakewordConfigBuildError::CreateRustpotter(why)),
        }
    }

    /// Records what became of a profile: a profile that the model took counts
    /// as added, a refused one leaves `added` as it was.
    pub fn record_wakeword(added: &mut bool, loaded: Result<(), String>) -> (outcome: Result<
        (),
        WakewordConfigAddError,
    >)
        ensures
            outcome == add_outcome(loaded),
            *final(added) == (*old(added) || loaded is Ok),
    {
        match loaded {
            Ok(()) => {
                *added = true;
                Ok(())
            },
            Err(why) => Err(WakewordConfigAddError(why)),
        }
    }

    /// The spotting model, to load a profile into. What came of the loading
    /// is then told to [`WakewordConfig::add_wakeword_from_file`].
    pub fn rustpotter_mut(&mut self) -> (model: &mut Rustpotter)
        ensures
            *model == old(self).spotter(),
            final(self).spotter() == *final(model),
            final(self).input() == old(self).input(),
            final(self).has_wakeword() == old(self).has_wakeword(),
    {
        &mut self.rustpotter
    }

    /// Takes note of a wakeword profile. `loaded` is what came of loading
    /// the profile's file into the model: nothing to report where the model
    /// took it, and else the reason why the file could not be read or the
    /// model refused it.
    ///
    /// A profile that the model took is added, and capture may start. One
    /// that it did not take is reported with its reason and changes nothing.
    pub fn add_wakeword_from_file(&mut self, loaded: Result<(), String>) -> (outcome: Result<
        (),
        WakewordConfigAddError,
    >)
        ensures
            outcome == add_outcome(loaded),
            final(self).has_wakeword() == (old(self).has_wakeword() || loaded is Ok),
            final(self).input() == old(self).input(),
            final(self).spotter() == old(self).spotter(),
    {
        let mut added = self.wakeword_added;
        let outcome = Self::record_wakeword(&mut added, loaded);
        self.wakeword_added = added;
        outcome
    }

    /// Hands over what capture is started with, once a profile has been
    /// added; without one it fails with `NoWakewordsAdded`.
    pub fn start(self) -> (capture: Result<WakewordCapture, WakewordConfigStartError>)
        ensures
            !self.has_wakeword() ==> capture == Err::<WakewordCapture, _>(
                WakewordConfigStartError::NoWakewordsAdded,
            ),
            self.has_wakeword() ==> capture is Ok && capture->Ok_0.rustpotter == self.spotter()
                && capture->Ok_0.samples_per_frame == frame_length(self.spotter())
                && capture->Ok_0.sample_kind == sample_kind_of(self.input().sample_format)
                && capture->Ok_0.stream_config.channels == self.input().channels
                && capture->Ok_0.stream_config.sample_rate == self.input().sample_rate,
    {
        if !self.wakeword_added {
            return Err(WakewordConfigStartError::NoWakewordsAdded);
        }
        let input_config = self.setup.input_config();
        let sample_kind = match input_config.sample_format {
            SampleFormat::I16 => SampleKind::I16,
            SampleFormat::I32 => SampleKind::I32,
            _ => SampleKind::F32,
        };
        let samples_per_frame = get_samples_per_frame(&self.rustpotter);
        Ok(
            WakewordCapture {
                rustpotter: self.rustpotter,
                stream_config: input_config.stream_config(),
                sample_kind,
                samples_per_frame,
            },
        )
    }
}

/// How the scores of a profile's recordings are made one.
#[derive(Clone, Copy, Debug, PartialEq, Eq, Structural)]
pub enum ScoreMode {
    Average,
    Max,
    Median,
    P25,
    P50,
    P75,
    P80,
    P90,
    P95,
}

/// How readily the spotting model takes audio for voice.
#[derive(Clone, Copy, Debug, PartialEq, Eq, Structural)]
pub enum VadMode {
    Easy,
    Medium,
    Hard,
}

/// How the spotting model decides on a detection, as far as whole numbers
/// and switches say it.
#[derive(Clone, Copy, Debug, PartialEq, Eq, Structural)]
pub struct DetectorSettings {
    /// The number of frames that must score above the threshold.
    pub min_scores: usize,
    /// Whether a detection is reported as soon as enough frames have scored.
    pub eager: bool,
    /// How the scores of a profile's recordings are made one.
    pub score_mode: ScoreMode,
    /// Whether audio without voice is passed over, and how readily audio is
    /// taken for voice.
    pub vad_mode: Option<VadMode>,
    /// Whether the volume of the audio is evened out before scoring.
    pub gain_normalizer: bool,
    /// Whether frequencies outside the voice are cut before scoring.
    pub band_pass: bool,
}

/// The settings that the assistant's spotting model is made with: ten
/// scoring frames, reported eagerly, the greatest score counting, all audio
/// scored, and no filter on it.
pub fn detector_settings() -> (settings: DetectorSettings)
    ensures
        settings == (DetectorSettings {
            min_scores: 10,
            eager: true,
            score_mode: ScoreMode::Max,
            vad_mode: None,
            gain_normalizer: false,
            band_pass: false,
        }),
{
    DetectorSettings {
        min_scores: 10,
        eager: true,
        score_mode: ScoreMode::Max,
        vad_mode: None,
        gain_normalizer: false,
        band_pass: false,
    }
}

/// Notes what the model said of one frame: a detected name is appended to
/// `detections`, and no detection leaves them as they are.
pub fn record_detection(detections: &mut Vec<String>, detected: Option<String>)
    ensures
        final(detections)@ == match detected {
            Some(name) => old(detections)@.push(name),
            None => old(detections)@,
        },
{
    match detected {
        Some(name) => detections.push(name),
        None => {},
    }
}

/// Takes one delivery of audio: appends `data` to `buffer`, and for as long
/// as `buffer` holds a whole frame of `rustpotter_samples_per_frame`
/// samples, takes the frame off its front. What is shorter than a frame
/// stays in `buffer` for the next delivery.
///
/// The frames are what the model is to score, each once and in this order:
/// the buffered samples followed by the delivered ones, cut into frames
/// from the front, with no sample left out or taken twice. A delivery that
/// completes no frame gives the model nothing to score.
pub fn run_detection<T: Copy>(
    data: &[T],
    buffer: &mut Vec<T>,
    rustpotter_samples_per_frame: usize,
) -> (frames: Vec<Vec<T>>)
    requires
        rustpotter_samples_per_frame > 0,
    ensures
        frames@.len() == whole_frames(
            (old(buffer)@ + data@).len(),
            rustpotter_samples_per_frame as nat,
        ),
        forall|k: int|
            0 <= k < frames@.len() ==> (#[trigger] frames@[k])@ == frame_at(
                old(buffer)@ + data@,
                rustpotter_samples_per_frame as nat,
                k,
            ),
        final(buffer)@ == leftover(old(buffer)@ + data@, rustpotter_samples_per_frame as nat),
{
    let ghost total = old(buffer)@ + data@;
    let ghost frame = rustpotter_samples_per_frame as nat;
    append_chunk(buffer, data);
    let mut frames: Vec<Vec<T>> = Vec::new();
    proof {
        assert(0 * frame == 0) by (nonlinear_arith);
        assert(buffer@ =~= total.subrange(0, total.len() as int));
    }
    while buffer.len() >= rustpotter_samples_per_frame
        invariant
            rustpotter_samples_per_frame > 0,
            frame == rustpotter_samples_per_frame as nat,
            total.len() == frames@.len() * frame + buffer@.len(),
            buffer@ == total.subrange((frames@.len() * frame) as int, total.len() as int),
            forall|k: int|
                0 <= k < frames@.len() ==> (#[trigger] frames@[k])@ == frame_at(total, frame, k),
        decreases buffer@.len(),
    {
        let ghost taken = frames@.len();
        let next = take_frame(buffer, rustpotter_samples_per_frame);
        proof {
            assert((taken + 1) * frame == taken * frame + frame) by (nonlinear_arith);
            assert(next@ == frame_at(total, frame, taken as int));
            assert(buffer@ == total.subrange(((taken + 1) * frame) as int, total.len() as int));
        }
        frames.push(next);
    }
    proof {
        lemma_all_frames_taken(total.len(), frame, frames@.len(), buffer@.len());
    }
    frames
}

} // verus!
