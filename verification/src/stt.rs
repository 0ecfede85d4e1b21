//! Speech recognition: the input configuration for the decoder, and the
//! session that turns what the decoder says of each chunk of audio into one
//! outcome.
//!
//! The decoding model and the capture stream live outside this crate. After
//! each chunk the session is told what the decoder reported and how long the
//! session has run.
use crate::audio::negotiate;
use crate::audio::negotiated;
use crate::audio::AudioConsumer;
use crate::audio::InputConfig;
use crate::audio::InputDeviceReport;
use crate::audio::NegotiationError;
use crate::audio::StreamConfig;
use vstd::prelude::*;

verus! {

/// The time, in milliseconds, after which a session that has no outcome yet
/// is cancelled: 20 seconds.
pub const RECOGNITION_TIMEOUT_MILLIS: u64 = 20_000;

/// Why no input configuration for the decoder could be built.
#[derive(Debug, PartialEq, Eq)]
pub enum STTConfigError {
    FailedGetDefaultInputDevice,
    FailedGetDefaultInputConfig(String),
    FailedListInputConfigs(String),
    FailedGetSupportedInputConfig,
}

/// The error that the decoder's configuration reports for a failed negotiation.
pub open spec fn config_error_of(error: NegotiationError) -> STTConfigError {
    match error {
        NegotiationError::NoDevice => STTConfigError::FailedGetDefaultInputDevice,
        NegotiationError::NoDefaultConfig(why) => STTConfigError::FailedGetDefaultInputConfig(why),
        NegotiationError::ListConfigs(why) => STTConfigError::FailedListInputConfigs(why),
        NegotiationError::NoSupportedConfig => STTConfigError::FailedGetSupportedInputConfig,
    }
}

/// The input configuration that recognition sessions capture with:
/// single-channel 16-bit samples.
#[derive(Clone, Copy, Debug, PartialEq, Eq)]
pub struct STTConfig {
    input_config: InputConfig,
}

impl STTConfig {
    #[verifier::type_invariant]
    spec fn well_formed(self) -> bool {
        AudioConsumer::SpeechDecoder.accepts(self.input_config.sample_format)
    }

    /// The input configuration agreed with the device.
    pub closed spec fn input(self) -> InputConfig {
        self.input_config
    }

    /// Agrees an input configuration for the decoder with the device that
    /// `report` describes.
    pub fn build(report: InputDeviceReport) -> (config: Result<STTConfig, STTConfigError>)
        ensures
            match negotiated(AudioConsumer::SpeechDecoder, report) {
                Ok(input) => config is Ok && config->Ok_0.input() == input,
                Err(error) => config == Err::<STTConfig, _>(config_error_of(error)),
            },
    {
        match negotiate(AudioConsumer::SpeechDecoder, report) {
            Ok(input_config) => Ok(STTConfig { input_config }),
            Err(NegotiationError::NoDevice) => Err(STTConfigError::FailedGetDefaultInputDevice),
            Err(NegotiationError::NoDefaultConfig(why)) => Err(
                STTConfigError::FailedGetDefaultInputConfig(why),
            ),
            Err(NegotiationError::ListConfigs(why)) => Err(
                STTConfigError::FailedListInputConfigs(why),
            ),
            Err(NegotiationError::NoSupportedConfig) => Err(
                STTConfigError::FailedGetSupportedInputConfig,
            ),
        }
    }

    pub fn input_config(&self) -> (config: InputConfig)
        ensures
            config == self.input(),
            AudioConsumer::SpeechDecoder.accepts(config.sample_format),
    {
        proof {
            use_type_invariant(self);
        }
        self.input_config
    }

    /// The settings that the capture stream of a session is opened with.
    pub fn stream_config(&self) -> (stream: StreamConfig)
        ensures
            stream.channels == self.input().channels,
            stream.sample_rate == self.input().sample_rate,
    {
        self.input_config.stream_config()
    }
}

/// The decoding model could not be loaded.
#[derive(Clone, Copy, Debug, PartialEq, Eq, Structural)]
pub struct STTLoadModelFail;

/// The decoding model where loading gave one, and `STTLoadModelFail` where
/// it gave none. `loaded` is what loading the model gave.
pub fn load_stt_model<M>(loaded: Option<M>) -> (model: Result<M, STTLoadModelFail>)
    ensures
        model == match loaded {
            Some(m) => Ok::<M, STTLoadModelFail>(m),
            None => Err(STTLoadModelFail),
        },
{
    match loaded {
        Some(m) => Ok(m),
        None => Err(STTLoadModelFail),
    }
}

/// How a recognition session ended.
#[derive(Debug, PartialEq, Eq)]
pub enum RecognitionResult {
    /// The decoder finalized the utterance; this is its transcript.
    Final(String),
    /// The decoder gave up.
    Failed,
    /// The session ran out of time.
    Cancelled,
}

/// Why a recognition session gave no result.
#[derive(Debug, PartialEq, Eq)]
pub enum RecognitionError {
    FailedCreateRecognizer,
    FailedReceiveResult,
    /// The capture stream could not be set running; the text says why.
    FailedPlayStream(String),
}

/// What the decoder says after it has taken a chunk of audio.
#[derive(Debug, PartialEq, Eq)]
pub enum DecoderReport {
    /// The utterance is finalized; this is its transcript.
    Finalized(String),
    /// The decoder goes on listening.
    Running,
    /// The decoder gave up.
    Failed,
}

/// What one chunk settles in a session that is still running: the decoder's
/// own end comes first, and a decoder that goes on is cut off once
/// `RECOGNITION_TIMEOUT_MILLIS` milliseconds have passed since the session
/// began.
pub open spec fn chunk_verdict(report: DecoderReport, elapsed_millis: u64) -> Option<
    RecognitionResult,
> {
    match report {
        DecoderReport::Finalized(text) => Some(RecognitionResult::Final(text)),
        DecoderReport::Failed => Some(RecognitionResult::Failed),
        DecoderReport::Running => if elapsed_millis >= RECOGNITION_TIMEOUT_MILLIS {
            Some(RecognitionResult::Cancelled)
        } else {
            None
        },
    }
}

/// What recognizes one sentence: the decoding model `model` and the input
/// configuration `config` that its sessions capture with.
pub struct STTSentenceRecognizer<'a, M> {
    model: &'a M,
    config: &'a STTConfig,
}

impl<'a, M> STTSentenceRecognizer<'a, M> {
    /// The decoding model.
    pub closed spec fn bound_model(&self) -> &'a M {
        self.model
    }

    /// The input configuration.
    pub closed spec fn bound_config(&self) -> &'a STTConfig {
        self.config
    }

    pub fn new(model: &'a M, config: &'a STTConfig) -> (recognizer: Self)
        ensures
            recognizer.bound_model() == model,
            recognizer.bound_config() == config,
    {
        STTSentenceRecognizer { model, config }
    }

    pub fn model(&self) -> (model: &'a M)
        ensures
            model == self.bound_model(),
    {
        self.model
    }

    pub fn config(&self) -> (config: &'a STTConfig)
        ensures
            config == self.bound_config(),
    {
        self.config
    }

    /// A fresh session, running.
    pub fn session(&self) -> (session: RecognitionSession)
        ensures
            !session.is_settled(),
    {
        RecognitionSession::new()
    }
}

/// One recognition session. It starts running and is settled by the first
/// chunk that brings an outcome; after that it takes no more audio.
#[derive(Debug)]
pub struct RecognitionSession {
    settled: bool,
}

impl RecognitionSession {
    /// Whether the session has had its outcome.
    pub closed spec fn is_settled(&self) -> bool {
        self.settled
    }

    /// A fresh session, running.
    pub fn new() -> (session: Self)
        ensures
            !session.is_settled(),
    {
        RecognitionSession { settled: false }
    }

    pub fn settled(&self) -> (settled: bool)
        ensures
            settled == self.is_settled(),
    {
        self.settled
    }

    /// Takes what the decoder reported for one chunk, `elapsed_millis`
    /// milliseconds after the session began.
    ///
    /// A running session gives the outcome that the chunk settles, if it
    /// settles one, and is settled from then on. A settled session gives
    /// nothing more: a session has one outcome.
    pub fn on_chunk(&mut self, report: DecoderReport, elapsed_millis: u64) -> (outcome: Option<
        RecognitionResult,
    >)
        ensures
            outcome == if old(self).is_settled() {
                None
            } else {
                chunk_verdict(report, elapsed_millis)
            },
            final(self).is_settled() == (old(self).is_settled() || outcome is Some),
    {
        if self.settled {
            return None;
        }
        let outcome = match report {
            DecoderReport::Finalized(text) => Some(RecognitionResult::Final(text)),
            DecoderReport::Failed => Some(RecognitionResult::Failed),
            DecoderReport::Running => if elapsed_millis >= RECOGNITION_TIMEOUT_MILLIS {
                Some(RecognitionResult::Cancelled)
            } else {
                None
            },
        };
        if outcome.is_some() {
            self.settled = true;
        }
        outcome
    }
}

/// One chunk of a session as the session sees it: what the decoder reported,
/// and the milliseconds that had passed since the session began.
pub struct Chunk {
    pub report: DecoderReport,
    pub elapsed_millis: u64,
}

/// The outcome of a session that was given the chunks `chunks` in order:
/// what the first chunk that settles anything settles.
pub open spec fn session_outcome(chunks: Seq<Chunk>) -> Option<RecognitionResult>
    decreases chunks.len(),
{
    if chunks.len() == 0 {
        None
    } else {
        match session_outcome(chunks.drop_last()) {
            Some(outcome) => Some(outcome),
            None => chunk_verdict(chunks.last().report, chunks.last().elapsed_millis),
        }
    }
}

/// The outcomes that `on_chunk` hands out, one call per chunk of `chunks`,
/// from a fresh session on.
pub open spec fn outcomes_handed_out(chunks: Seq<Chunk>) -> Seq<RecognitionResult>
    decreases chunks.len(),
{
    if chunks.len() == 0 {
        Seq::empty()
    } else {
        let earlier = outcomes_handed_out(chunks.drop_last());
        if session_outcome(chunks.drop_last()) is Some {
            earlier
        } else {
            match chunk_verdict(chunks.last().report, chunks.last().elapsed_millis) {
                Some(outcome) => earlier.push(outcome),
                None => earlier,
            }
        }
    }
}

/// A session hands out at most one outcome, however many chunks follow: none
/// while nothing is settled, and then the session's outcome alone.
pub proof fn lemma_one_outcome(chunks: Seq<Chunk>)
    ensures
        match session_outcome(chunks) {
            Some(outcome) => outcomes_handed_out(chunks) == seq![outcome],
            None => outcomes_handed_out(chunks) == Seq::<RecognitionResult>::empty(),
        },
    decreases chunks.len(),
{
    if chunks.len() > 0 {
        lemma_one_outcome(chunks.drop_last());
        if session_outcome(chunks.drop_last()) is None {
            match chunk_verdict(chunks.last().report, chunks.last().elapsed_millis) {
                Some(outcome) => {
                    assert(Seq::<RecognitionResult>::empty().push(outcome) =~= seq![outcome]);
                },
                None => {},
            }
        }
    }
}

/// A session whose decoder neither finalizes nor fails is cancelled, and by
/// nothing else than the clock: it has an outcome exactly when some chunk
/// came `RECOGNITION_TIMEOUT_MILLIS` milliseconds or more after it began,
/// and that outcome is `Cancelled`.
pub proof fn lemma_cancelled_by_timeout_only(chunks: Seq<Chunk>)
    requires
        forall|i: int| 0 <= i < chunks.len() ==> (#[trigger] chunks[i]).report is Running,
    ensures
        session_outcome(chunks) is Some <==> exists|i: int|
            0 <= i < chunks.len() && (#[trigger] chunks[i]).elapsed_millis
                >= RECOGNITION_TIMEOUT_MILLIS,
        session_outcome(chunks) is Some ==> session_outcome(chunks) == Some(
            RecognitionResult::Cancelled,
        ),
    decreases chunks.len(),
{
    if chunks.len() > 0 {
        let earlier = chunks.drop_last();
        lemma_cancelled_by_timeout_only(earlier);
        let last = chunks.last();
        assert(last == chunks[chunks.len() - 1]);
        if session_outcome(earlier) is Some {
            let i = choose|i: int|
                0 <= i < earlier.len() && (#[trigger] earlier[i]).elapsed_millis
                    >= RECOGNITION_TIMEOUT_MILLIS;
            assert(chunks[i] == earlier[i]);
        } else if last.elapsed_millis >= RECOGNITION_TIMEOUT_MILLIS {
        } else {
            assert forall|i: int| 0 <= i < chunks.len() implies !((#[trigger] chunks[i]).elapsed_millis
                >= RECOGNITION_TIMEOUT_MILLIS) by {
                if i < earlier.len() {
                    assert(chunks[i] == earlier[i]);
                }
            }
        }
    }
}

} // verus!
