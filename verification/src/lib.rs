//! The decisions of a voice assistant: it waits for a wakeword, has the
//! utterance that follows transcribed, and classifies the transcript as one
//! of the intents it was given.
//!
//! Microphones, models and the synthesizer are driven from outside this
//! crate. What they report comes in as plain values, and what is to be done
//! next goes out as plain values.
use crate::intents::config_fault;
use crate::intents::misshapen;
use crate::intents::processed;
use crate::intents::shape_matches;
use crate::intents::Intent;
use crate::intents::IntentRecognizer;
use crate::intents::IntentRecognizerBuildError;
use crate::intents::IntentRecognizerError;
use crate::intents::IntentsConfig;
use crate::names::WakewordSet;
use crate::stt::RecognitionError;
use crate::stt::RecognitionResult;
use crate::stt::STTConfig;
use crate::stt::STTConfigError;
use crate::stt::STTLoadModelFail;
use crate::tts::poll_speaking;
use crate::tts::tts_speak;
use crate::tts::SpeakingPoll;
use crate::tts::SpeechRequest;
use crate::tts::TtsError;
use crate::tts::SPEAKING_POLL_MILLIS;
use crate::wakeword::add_outcome;
use crate::wakeword::frame_length;
use crate::wakeword::sample_kind_of;
use crate::wakeword::WakewordCapture;
use crate::wakeword::WakewordConfig;
use crate::wakeword::WakewordConfigAddError;
use crate::wakeword::WakewordConfigBuildError;
use crate::wakeword::WakewordConfigStartError;
use rustpotter::Rustpotter;
use vstd::prelude::*;

pub mod audio;
pub mod dirs;
pub mod frames;
pub mod intents;
pub mod names;
pub mod stt;
pub mod tts;
pub mod wakeword;

verus! {

/// Why no assistant configuration could be built.
#[derive(Debug, PartialEq, Eq)]
pub enum AssistantConfigBuildError {
    WakewordConfigError(WakewordConfigBuildError),
    STTModelError,
    STTConfigError(STTConfigError),
    TtsError(TtsError),
}

/// Why the assistant did not start.
#[derive(Debug, PartialEq, Eq)]
pub enum AssistantStartError {
    IntentRecognizerBuildError(IntentRecognizerBuildError),
    WakewordListenerStartError(WakewordConfigStartError),
}

/// What went wrong in a cycle after its wakeword.
#[derive(Debug, PartialEq, Eq)]
pub enum AssistantListenSuccessfulWakewordError {
    SpeechRecognitionInitializationError(RecognitionError),
    SpeechRecognitionError,
    SpeechRecognitionTimeout,
    IntentRecognizerError(IntentRecognizerError),
}

/// Why a cycle gave no query.
#[derive(Debug, PartialEq, Eq)]
pub enum AssistantListenError {
    /// The spotter's events have ended: capture has died, and listening
    /// cannot go on.
    WakewordRecvError,
    /// The cycle that the named wakeword opened failed; the next may succeed.
    ProcessError(String, AssistantListenSuccessfulWakewordError),
}

/// What one listen cycle hands back: the wakeword that opened it and, where
/// the wakeword asks for it, the intent that the utterance was classified as.
#[derive(Debug, PartialEq, Eq)]
pub struct AssistantQuery<'a, T> {
    pub wakeword: String,
    pub intent: Option<&'a T>,
}

/// The assistant before it starts: the spotter with its profiles, the input
/// configuration for recognition, the intents, and the wakewords after which
/// an utterance is listened for.
pub struct AssistantConfig<T> {
    wakeword_config: WakewordConfig,
    stt_config: STTConfig,
    intents_config: IntentsConfig<T>,
    wakewords_listen: WakewordSet,
}

/// What building the configuration answers to the outcomes of its four
/// steps, where one of them failed: the first failure, in the order in which
/// the steps are taken.
pub open spec fn first_build_failure(
    wakeword_config: Result<WakewordConfig, WakewordConfigBuildError>,
    stt_model: Result<(), STTLoadModelFail>,
    stt_config: Result<STTConfig, STTConfigError>,
    tts: Result<(), TtsError>,
) -> Option<AssistantConfigBuildError> {
    match wakeword_config {
        Err(error) => Some(AssistantConfigBuildError::WakewordConfigError(error)),
        Ok(_) => match stt_model {
            Err(_) => Some(AssistantConfigBuildError::STTModelError),
            Ok(_) => match stt_config {
                Err(error) => Some(AssistantConfigBuildError::STTConfigError(error)),
                Ok(_) => match tts {
                    Err(error) => Some(AssistantConfigBuildError::TtsError(error)),
                    Ok(_) => None,
                },
            },
        },
    }
}

impl<T> AssistantConfig<T> {
    /// The spotter's configuration.
    pub closed spec fn wakewords(&self) -> WakewordConfig {
        self.wakeword_config
    }

    /// The input configuration for recognition.
    pub closed spec fn stt(&self) -> STTConfig {
        self.stt_config
    }

    /// The intents added so far.
    pub closed spec fn intents(&self) -> Seq<Intent<T>> {
        self.intents_config.intents()
    }

    /// The wakewords after which an utterance is listened for.
    pub closed spec fn listening(&self) -> Set<Seq<char>> {
        self.wakewords_listen.names()
    }

    /// Puts the configuration together from what its four steps gave: the
    /// spotter's configuration, the loading of the decoding model, the input
    /// configuration for recognition, and the synthesizer.
    ///
    /// The first step that failed, in this order, is reported. Where none
    /// failed the configuration holds no intent and listens after no wakeword.
    pub fn build(
        wakeword_config: Result<WakewordConfig, WakewordConfigBuildError>,
        stt_model: Result<(), STTLoadModelFail>,
        stt_config: Result<STTConfig, STTConfigError>,
        tts: Result<(), TtsError>,
    ) -> (config: Result<Self, AssistantConfigBuildError>)
        ensures
            match first_build_failure(wakeword_config, stt_model, stt_config, tts) {
                Some(error) => config == Err::<Self, _>(error),
                None => config is Ok && config->Ok_0.wakewords() == wakeword_config->Ok_0
                    && config->Ok_0.stt() == stt_config->Ok_0 && config->Ok_0.intents()
                    == Seq::<Intent<T>>::empty() && config->Ok_0.listening() == Set::<
                    Seq<char>,
                >::empty(),
            },
    {
        let wakeword_config = match wakeword_config {
            Ok(config) => config,
            Err(error) => {
                return Err(AssistantConfigBuildError::WakewordConfigError(error));
            },
        };
        match stt_model {
            Ok(()) => {},
            Err(_) => {
                return Err(AssistantConfigBuildError::STTModelError);
            },
        }
        let stt_config = match stt_config {
            Ok(config) => config,
            Err(error) => {
                return Err(AssistantConfigBuildError::STTConfigError(error));
            },
        };
        match tts {
            Ok(()) => {},
            Err(error) => {
                return Err(AssistantConfigBuildError::TtsError(error));
            },
        }
        Ok(
            AssistantConfig {
                wakeword_config,
                stt_config,
                intents_config: IntentsConfig::new(),
                wakewords_listen: WakewordSet::new(),
            },
        )
    }

    /// The spotting model, to load a profile into. What came of the loading
    /// is then told to [`AssistantConfig::add_wakeword_from_file`].
    pub fn rustpotter_mut(&mut self) -> (model: &mut Rustpotter)
        ensures
            *model == old(self).wakewords().spotter(),
            final(self).wakewords().spotter() == *final(model),
            final(self).wakewords().input() == old(self).wakewords().input(),
            final(self).wakewords().has_wakeword() == old(self).wakewords().has_wakeword(),
            final(self).stt() == old(self).stt(),
            final(self).intents() == old(self).intents(),
            final(self).listening() == old(self).listening(),
    {
        self.wakeword_config.rustpotter_mut()
    }

    /// Takes note of the wakeword profile `wakeword`. `loaded` is what came
    /// of loading its file into the spotting model: nothing to report where
    /// the model took it, and else the reason why the file could not be
    /// read or the model refused it. With `listen` set, an utterance is
    /// listened for after this wakeword; without, the wakeword is reported
    /// alone.
    ///
    /// A profile that the model took is added. One that it did not take is
    /// reported with its reason and changes nothing.
    pub fn add_wakeword_from_file(
        &mut self,
        wakeword: &str,
        loaded: Result<(), String>,
        listen: bool,
    ) -> (outcome: Result<(), WakewordConfigAddError>)
        ensures
            outcome == add_outcome(loaded),
            final(self).wakewords().has_wakeword() == (old(self).wakewords().has_wakeword()
                || loaded is Ok),
            final(self).wakewords().input() == old(self).wakewords().input(),
            final(self).wakewords().spotter() == old(self).wakewords().spotter(),
            final(self).stt() == old(self).stt(),
            final(self).intents() == old(self).intents(),
            final(self).listening() == if loaded is Ok && listen {
                old(self).listening().insert(wakeword@)
            } else {
                old(self).listening()
            },
    {
        let outcome = self.wakeword_config.add_wakeword_from_file(loaded);
        if outcome.is_ok() && listen {
            let mut held = WakewordSet::new();
            core::mem::swap(&mut self.wakewords_listen, &mut held);
            held = held.insert(wakeword.to_owned());
            core::mem::swap(&mut self.wakewords_listen, &mut held);
        }
        outcome
    }

    /// Adds the intent `id` with the example phrases `examples`.
    pub fn add_intent(&mut self, id: T, examples: Vec<String>)
        ensures
            final(self).intents() == old(self).intents().push(Intent { id, examples }),
            final(self).wakewords() == old(self).wakewords(),
            final(self).stt() == old(self).stt(),
            final(self).listening() == old(self).listening(),
    {
        self.intents_config.add_intent(id, examples);
    }

    /// The example phrases of the intents, for the embedding model.
    pub fn intents_config(&self) -> (config: &IntentsConfig<T>)
        ensures
            config.intents() == self.intents(),
    {
        &self.intents_config
    }
}

/// The assistant at work: the input configuration for recognition, the
/// recognizer of intents, and the wakewords after which an utterance is
/// listened for.
pub struct Assistant<T> {
    stt_config: STTConfig,
    intent_recognizer: IntentRecognizer<T>,
    wakewords_listen: WakewordSet,
}

impl<T> AssistantConfig<T> {
    /// Starts the assistant: builds the recognizer of intents from what the
    /// embedding model made of the example phrases (see
    /// [`IntentRecognizer::build`]), and hands over what capture for the
    /// spotter is started with.
    ///
    /// A recognizer that cannot be built is reported first, and after it a
    /// spotter without a profile.
    pub fn start(self, embedded: Result<Vec<Vec<Vec<u32>>>, String>) -> (started: Result<
        (Assistant<T>, WakewordCapture),
        AssistantStartError,
    >)
        ensures
            config_fault(self.intents()) matches Some(fault) ==> started == Err::<
                (Assistant<T>, WakewordCapture),
                _,
            >(AssistantStartError::IntentRecognizerBuildError(fault)),
            config_fault(self.intents()) is None ==> match embedded {
                Err(why) => started == Err::<(Assistant<T>, WakewordCapture), _>(
                    AssistantStartError::IntentRecognizerBuildError(
                        IntentRecognizerBuildError::TextEmbeddingError(why),
                    ),
                ),
                Ok(vectors) => if !shape_matches(self.intents(), vectors@) {
                    started matches Err(
                        AssistantStartError::IntentRecognizerBuildError(
                            IntentRecognizerBuildError::TextEmbeddingError(why),
                        ),
                    ) && why@ == misshapen()
                } else if !self.wakewords().has_wakeword() {
                    started == Err::<(Assistant<T>, WakewordCapture), _>(
                        AssistantStartError::WakewordListenerStartError(
                            WakewordConfigStartError::NoWakewordsAdded,
                        ),
                    )
                } else {
                    &&& started matches Ok((assistant, capture))
                    &&& assistant.recognizer().intents() == processed(self.intents(), vectors@)
                    &&& assistant.listening() == self.listening()
                    &&& assistant.stt() == self.stt()
                    &&& capture.rustpotter == self.wakewords().spotter()
                    &&& capture.samples_per_frame == frame_length(self.wakewords().spotter())
                    &&& capture.sample_kind == sample_kind_of(
                        self.wakewords().input().sample_format,
                    )
                    &&& capture.stream_config.channels == self.wakewords().input().channels
                    &&& capture.stream_config.sample_rate == self.wakewords().input().sample_rate
                },
            },
    {
        let intent_recognizer = match IntentRecognizer::build(self.intents_config, embedded) {
            Ok(recognizer) => recognizer,
            Err(error) => {
                return Err(AssistantStartError::IntentRecognizerBuildError(error));
            },
        };
        let capture = match self.wakeword_config.start() {
            Ok(capture) => capture,
            Err(error) => {
                return Err(AssistantStartError::WakewordListenerStartError(error));
            },
        };
        Ok(
            (
                Assistant {
                    stt_config: self.stt_config,
                    intent_recognizer,
                    wakewords_listen: self.wakewords_listen,
                },
                capture,
            ),
        )
    }
}

/// Where a listen cycle stands.
#[derive(Debug, PartialEq, Eq)]
pub enum ListenState {
    /// Waiting for the spotter to report a wakeword.
    WaitWakeword,
    /// A wakeword came; the synthesizer is asked whether it speaks.
    CheckSpeaking { wakeword: String },
    /// The synthesizer spoke when the wakeword came. The wakeword is
    /// dropped: nothing is recognized after it, and it is kept only to name
    /// it should the synthesizer fail. The synthesizer is asked again and
    /// again until it says that it does not speak.
    FinishSpeaking { wakeword: String },
    /// The utterance after the wakeword is being transcribed.
    Recognizing { wakeword: String },
    /// The transcript is being classified.
    Classifying { wakeword: String },
}

/// What happened outside, as a listen cycle is told of it.
#[derive(Debug, PartialEq, Eq)]
pub enum ListenEvent<'a, T> {
    /// The spotter detected the wakeword of this name.
    Wakeword(String),
    /// The spotter's events have ended.
    Disconnected,
    /// What the synthesizer answered when asked whether it speaks.
    Speaking(Result<bool, TtsError>),
    /// How the recognition session ended.
    Recognized(Result<RecognitionResult, RecognitionError>),
    /// What the recognizer of intents made of the transcript.
    Classified(Result<&'a T, IntentRecognizerError>),
}

/// What is to be done outside next.
#[derive(Debug, PartialEq, Eq)]
pub enum ListenAction<'a, T> {
    /// Wait for the spotter's next event.
    AwaitWakeword,
    /// Ask the synthesizer whether it speaks.
    AskSpeaking,
    /// Let that many milliseconds pass, then ask the synthesizer whether it
    /// speaks.
    PollSpeaking(u64),
    /// Run a recognition session.
    Recognize,
    /// Classify this transcript.
    Classify(String),
    /// The cycle is over: hand this to the caller.
    Finish(Result<AssistantQuery<'a, T>, AssistantListenError>),
    /// The event was not the one waited for: go on waiting for that one.
    Ignore,
}

/// The cycle that the wakeword `wakeword` opened failed with `error`.
pub open spec fn cycle_failed<'a, T>(
    wakeword: String,
    error: AssistantListenSuccessfulWakewordError,
) -> (ListenState, ListenAction<'a, T>) {
    (
        ListenState::WaitWakeword,
        ListenAction::Finish(Err(AssistantListenError::ProcessError(wakeword, error))),
    )
}

/// The step of a listen cycle: from where it stands and what happened, to
/// where it stands then and what is to be done. `listening` holds the
/// wakewords after which an utterance is listened for.
///
/// A cycle that is over stands at `WaitWakeword` again: the next cycle
/// begins with the caller's next wait for a wakeword.
pub open spec fn next_step<'a, T>(
    listening: Set<Seq<char>>,
    state: ListenState,
    event: ListenEvent<'a, T>,
) -> (ListenState, ListenAction<'a, T>) {
    match (state, event) {
        (ListenState::WaitWakeword, ListenEvent::Wakeword(wakeword)) => (
            ListenState::CheckSpeaking { wakeword },
            ListenAction::AskSpeaking,
        ),
        (ListenState::WaitWakeword, ListenEvent::Disconnected) => (
            ListenState::WaitWakeword,
            ListenAction::Finish(Err(AssistantListenError::WakewordRecvError)),
        ),
        (ListenState::CheckSpeaking { wakeword }, ListenEvent::Speaking(Err(_))) => cycle_failed(
            wakeword,
            AssistantListenSuccessfulWakewordError::SpeechRecognitionError,
        ),
        (ListenState::CheckSpeaking { wakeword }, ListenEvent::Speaking(Ok(true))) => (
            ListenState::FinishSpeaking { wakeword },
            ListenAction::PollSpeaking(SPEAKING_POLL_MILLIS),
        ),
        (ListenState::CheckSpeaking { wakeword }, ListenEvent::Speaking(Ok(false))) => if listening.contains(
            wakeword@,
        ) {
            (ListenState::Recognizing { wakeword }, ListenAction::Recognize)
        } else {
            (
                ListenState::WaitWakeword,
                ListenAction::Finish(Ok(AssistantQuery { wakeword, intent: None })),
            )
        },
        (ListenState::FinishSpeaking { wakeword }, ListenEvent::Speaking(Err(_))) => cycle_failed(
            wakeword,
            AssistantListenSuccessfulWakewordError::SpeechRecognitionError,
        ),
        (ListenState::FinishSpeaking { wakeword }, ListenEvent::Speaking(Ok(true))) => (
            ListenState::FinishSpeaking { wakeword },
            ListenAction::PollSpeaking(SPEAKING_POLL_MILLIS),
        ),
        (ListenState::FinishSpeaking { wakeword }, ListenEvent::Speaking(Ok(false))) => (
            ListenState::WaitWakeword,
            ListenAction::AwaitWakeword,
        ),
        (ListenState::Recognizing { wakeword }, ListenEvent::Recognized(Err(error))) => cycle_failed(
            wakeword,
            AssistantListenSuccessfulWakewordError::SpeechRecognitionInitializationError(error),
        ),
        (
            ListenState::Recognizing { wakeword },
            ListenEvent::Recognized(Ok(RecognitionResult::Final(text))),
        ) => (ListenState::Classifying { wakeword }, ListenAction::Classify(text)),
        (
            ListenState::Recognizing { wakeword },
            ListenEvent::Recognized(Ok(RecognitionResult::Failed)),
        ) => cycle_failed(wakeword, AssistantListenSuccessfulWakewordError::SpeechRecognitionError),
        (
            ListenState::Recognizing { wakeword },
            ListenEvent::Recognized(Ok(RecognitionResult::Cancelled)),
        ) => cycle_failed(
            wakeword,
            AssistantListenSuccessfulWakewordError::SpeechRecognitionTimeout,
        ),
        (ListenState::Classifying { wakeword }, ListenEvent::Classified(Err(error))) => cycle_failed(
            wakeword,
            AssistantListenSuccessfulWakewordError::IntentRecognizerError(error),
        ),
        (ListenState::Classifying { wakeword }, ListenEvent::Classified(Ok(intent))) => (
            ListenState::WaitWakeword,
            ListenAction::Finish(Ok(AssistantQuery { wakeword, intent: Some(intent) })),
        ),
        (state, _) => (state, ListenAction::Ignore),
    }
}

impl<T> Assistant<T> {
    /// The input configuration for recognition.
    pub closed spec fn stt(&self) -> STTConfig {
        self.stt_config
    }

    /// The recognizer of intents.
    pub closed spec fn recognizer(&self) -> IntentRecognizer<T> {
        self.intent_recognizer
    }

    /// The wakewords after which an utterance is listened for.
    pub closed spec fn listening(&self) -> Set<Seq<char>> {
        self.wakewords_listen.names()
    }

    pub fn stt_config(&self) -> (config: &STTConfig)
        ensures
            *config == self.stt(),
    {
        &self.stt_config
    }

    pub fn intent_recognizer(&self) -> (recognizer: &IntentRecognizer<T>)
        ensures
            *recognizer == self.recognizer(),
    {
        &self.intent_recognizer
    }

    /// Where every cycle begins, and what is to be done first.
    pub fn begin<'a>(&'a self) -> (first: (ListenState, ListenAction<'a, T>))
        ensures
            first == (ListenState::WaitWakeword, ListenAction::<'a, T>::AwaitWakeword),
    {
        (ListenState::WaitWakeword, ListenAction::AwaitWakeword)
    }

    /// Takes a listen cycle one step on: `state` is where it stands, `event`
    /// what happened outside since the last step. It gives where the cycle
    /// stands then and what is to be done outside next.
    ///
    /// A wakeword that comes while the synthesizer speaks is dropped: the
    /// synthesizer is asked again, a pause apart, until it answers that it
    /// does not speak, and then a new wakeword is waited for. A wakeword
    /// after which nothing is listened for ends the cycle with the wakeword
    /// alone. After any other the utterance is transcribed and the
    /// transcript classified; a synthesizer that cannot be asked, a session
    /// that failed or ran out of time, and a transcript without an intent
    /// end the cycle with an error that names the wakeword. The end of the
    /// spotter's events ends listening.
    pub fn listen<'a>(&'a self, state: ListenState, event: ListenEvent<'a, T>) -> (next: (
        ListenState,
        ListenAction<'a, T>,
    ))
        ensures
            next == next_step(self.listening(), state, event),
    {
        match state {
            ListenState::WaitWakeword => match event {
                ListenEvent::Wakeword(wakeword) => (
                    ListenState::CheckSpeaking { wakeword },
                    ListenAction::AskSpeaking,
                ),
                ListenEvent::Disconnected => (
                    ListenState::WaitWakeword,
                    ListenAction::Finish(Err(AssistantListenError::WakewordRecvError)),
                ),
                _ => (ListenState::WaitWakeword, ListenAction::Ignore),
            },
            ListenState::CheckSpeaking { wakeword } => match event {
                ListenEvent::Speaking(Err(_)) => Self::fail(
                    wakeword,
                    AssistantListenSuccessfulWakewordError::SpeechRecognitionError,
                ),
                ListenEvent::Speaking(Ok(true)) => (
                    ListenState::FinishSpeaking { wakeword },
                    ListenAction::PollSpeaking(SPEAKING_POLL_MILLIS),
                ),
                ListenEvent::Speaking(Ok(false)) => {
                    if self.wakewords_listen.contains(&wakeword) {
                        (ListenState::Recognizing { wakeword }, ListenAction::Recognize)
                    } else {
                        (
                            ListenState::WaitWakeword,
                            ListenAction::Finish(Ok(AssistantQuery { wakeword, intent: None })),
                        )
                    }
                },
                _ => (ListenState::CheckSpeaking { wakeword }, ListenAction::Ignore),
            },
            ListenState::FinishSpeaking { wakeword } => match event {
                ListenEvent::Speaking(Err(_)) => Self::fail(
                    wakeword,
                    AssistantListenSuccessfulWakewordError::SpeechRecognitionError,
                ),
                ListenEvent::Speaking(Ok(true)) => (
                    ListenState::FinishSpeaking { wakeword },
                    ListenAction::PollSpeaking(SPEAKING_POLL_MILLIS),
                ),
                ListenEvent::Speaking(Ok(false)) => (
                    ListenState::WaitWakeword,
                    ListenAction::AwaitWakeword,
                ),
                _ => (ListenState::FinishSpeaking { wakeword }, ListenAction::Ignore),
            },
            ListenState::Recognizing { wakeword } => match event {
                ListenEvent::Recognized(Err(error)) => Self::fail(
                    wakeword,
                    AssistantListenSuccessfulWakewordError::SpeechRecognitionInitializationError(
                        error,
                    ),
                ),
                ListenEvent::Recognized(Ok(RecognitionResult::Final(text))) => (
                    ListenState::Classifying { wakeword },
                    ListenAction::Classify(text),
                ),
                ListenEvent::Recognized(Ok(RecognitionResult::Failed)) => Self::fail(
                    wakeword,
                    AssistantListenSuccessfulWakewordError::SpeechRecognitionError,
                ),
                ListenEvent::Recognized(Ok(RecognitionResult::Cancelled)) => Self::fail(
                    wakeword,
                    AssistantListenSuccessfulWakewordError::SpeechRecognitionTimeout,
                ),
                _ => (ListenState::Recognizing { wakeword }, ListenAction::Ignore),
            },
            ListenState::Classifying { wakeword } => match event {
                ListenEvent::Classified(Err(error)) => Self::fail(
                    wakeword,
                    AssistantListenSuccessfulWakewordError::IntentRecognizerError(error),
                ),
                ListenEvent::Classified(Ok(intent)) => (
                    ListenState::WaitWakeword,
                    ListenAction::Finish(Ok(AssistantQuery { wakeword, intent: Some(intent) })),
                ),
                _ => (ListenState::Classifying { wakeword }, ListenAction::Ignore),
            },
        }
    }

    /// The end of a cycle that failed after its wakeword.
    fn fail<'a>(wakeword: String, error: AssistantListenSuccessfulWakewordError) -> (next: (
        ListenState,
        ListenAction<'a, T>,
    ))
        ensures
            next == cycle_failed::<'a, T>(wakeword, error),
    {
        (
            ListenState::WaitWakeword,
            ListenAction::Finish(Err(AssistantListenError::ProcessError(wakeword, error))),
        )
    }

    /// The request that speaks `text`, cutting off what is still spoken.
    pub fn speak(&self, text: String) -> (request: SpeechRequest)
        ensures
            request.text == text,
            request.interrupt,
    {
        tts_speak(text)
    }

    /// What follows from one look at the synthesizer while it is waited for:
    /// to look again after a pause where it speaks, and to stop waiting
    /// where it is silent or could not be asked.
    pub fn finish_speaking(&self, speaking: Result<bool, TtsError>) -> (poll: SpeakingPoll)
        ensures
            poll == match speaking {
                Ok(true) => SpeakingPoll::Sleep(SPEAKING_POLL_MILLIS),
                Ok(false) => SpeakingPoll::Finished,
                Err(error) => SpeakingPoll::Failed(error),
            },
    {
        poll_speaking(speaking)
    }
}

/// A wakeword is waited for within a cycle only at the synthesizer's answer
/// that it does not speak, given while it was waited for.
pub proof fn lemma_wakeword_awaited_only_after_silence<'a, T>(
    listening: Set<Seq<char>>,
    state: ListenState,
    event: ListenEvent<'a, T>,
)
    ensures
        next_step(listening, state, event).1 is AwaitWakeword ==> state is FinishSpeaking && event
            == ListenEvent::<'a, T>::Speaking(Ok(false)),
        next_step(listening, state, event).1 is Recognize ==> state is CheckSpeaking && event
            == ListenEvent::<'a, T>::Speaking(Ok(false)),
{
}

/// Where a cycle stands after the events `events`, from `state` on.
pub open spec fn state_after<'a, T>(
    listening: Set<Seq<char>>,
    state: ListenState,
    events: Seq<ListenEvent<'a, T>>,
) -> ListenState
    decreases events.len(),
{
    if events.len() == 0 {
        state
    } else {
        next_step(listening, state_after(listening, state, events.drop_last()), events.last()).0
    }
}

/// What is to be done after the event number `k` of `events`, from `state` on.
pub open spec fn action_at<'a, T>(
    listening: Set<Seq<char>>,
    state: ListenState,
    events: Seq<ListenEvent<'a, T>>,
    k: int,
) -> ListenAction<'a, T> {
    next_step(listening, state_after(listening, state, events.subrange(0, k)), events[k]).1
}

/// Whether the event says that the synthesizer was asked and did not answer
/// that it speaks: it said that it does not, or it could not be asked.
pub open spec fn ends_the_wait<'a, T>(event: ListenEvent<'a, T>) -> bool {
    event matches ListenEvent::Speaking(answer) && answer != Ok::<bool, TtsError>(true)
}

/// Whether, among the events after the first and before the event number
/// `k`, the wait for the synthesizer ended and a wakeword came after that.
pub open spec fn waited_and_woken<'a, T>(events: Seq<ListenEvent<'a, T>>, k: int) -> bool {
    exists|j1: int, j2: int|
        0 < j1 < j2 < k && ends_the_wait(#[trigger] events[j1]) && #[trigger] events[j2]
            is Wakeword
}

/// Once the synthesizer was found speaking, the cycle stands waiting for it,
/// or waiting for a wakeword after that wait has ended, for as long as no
/// new wakeword has come after the wait.
pub proof fn lemma_held_until_woken<'a, T>(
    listening: Set<Seq<char>>,
    wakeword: String,
    events: Seq<ListenEvent<'a, T>>,
    n: int,
)
    requires
        1 <= n <= events.len(),
        events[0] == ListenEvent::<'a, T>::Speaking(Ok(true)),
    ensures
        ({
            let state = state_after(
                listening,
                ListenState::CheckSpeaking { wakeword },
                events.subrange(0, n),
            );
            ||| state == (ListenState::FinishSpeaking { wakeword }) && forall|j: int|
                0 < j < n ==> !ends_the_wait(#[trigger] events[j])
            ||| state == ListenState::WaitWakeword && exists|j: int|
                0 < j < n && ends_the_wait(#[trigger] events[j])
            ||| waited_and_woken(events, n)
        }),
    decreases n,
{
    let start = ListenState::CheckSpeaking { wakeword };
    let seen = events.subrange(0, n);
    assert(seen.drop_last() =~= events.subrange(0, n - 1));
    assert(seen.last() == events[n - 1]);
    if n == 1 {
        assert(state_after(listening, start, events.subrange(0, 0)) == start);
    } else {
        lemma_held_until_woken(listening, wakeword, events, n - 1);
        let before = state_after(listening, start, events.subrange(0, n - 1));
        if waited_and_woken(events, n - 1) {
            let (j1, j2) = choose|j1: int, j2: int|
                0 < j1 < j2 < n - 1 && ends_the_wait(#[trigger] events[j1]) && #[trigger] events[j2]
                    is Wakeword;
            assert(0 < j1 < j2 < n && ends_the_wait(events[j1]) && events[j2] is Wakeword);
        } else if before == (ListenState::FinishSpeaking { wakeword }) {
            if ends_the_wait(events[n - 1]) {
                assert(0 < n - 1 < n && ends_the_wait(events[n - 1]));
            } else {
                assert forall|j: int| 0 < j < n implies !ends_the_wait(#[trigger] events[j]) by {}
            }
        } else {
            let j = choose|j: int| 0 < j < n - 1 && ends_the_wait(#[trigger] events[j]);
            if events[n - 1] is Wakeword {
                assert(0 < j < n - 1 < n && ends_the_wait(events[j]) && events[n - 1] is Wakeword);
            } else {
                assert(0 < j < n && ends_the_wait(events[j]));
            }
        }
    }
}

/// A wakeword that comes while the synthesizer speaks is dropped. The first
/// thing to be done is to ask the synthesizer again after a pause, and so it
/// goes on for as long as it answers that it speaks. A new wakeword is
/// waited for only at the answer that it does not speak. And whatever
/// happens after, no recognition session is run, no transcript classified
/// and no query handed out before that wait has ended and a new wakeword
/// has come.
pub proof fn lemma_wakeword_while_speaking_is_dropped<'a, T>(
    listening: Set<Seq<char>>,
    wakeword: String,
    events: Seq<ListenEvent<'a, T>>,
    k: int,
)
    requires
        0 <= k < events.len(),
        events[0] == ListenEvent::<'a, T>::Speaking(Ok(true)),
    ensures
        ({
            let action = action_at(listening, ListenState::CheckSpeaking { wakeword }, events, k);
            &&& k == 0 ==> action == ListenAction::<'a, T>::PollSpeaking(SPEAKING_POLL_MILLIS)
            &&& (forall|j: int| 0 < j <= k ==> #[trigger] events[j] == ListenEvent::<
                'a,
                T,
            >::Speaking(Ok(true))) ==> action == ListenAction::<'a, T>::PollSpeaking(
                SPEAKING_POLL_MILLIS,
            )
            &&& action is AwaitWakeword ==> events[k] == ListenEvent::<'a, T>::Speaking(Ok(false))
            &&& (action is Recognize || action is Classify || action matches ListenAction::Finish(
                Ok(_),
            )) ==> waited_and_woken(events, k)
        }),
{
    let start = ListenState::CheckSpeaking { wakeword };
    if k == 0 {
        assert(state_after(listening, start, events.subrange(0, 0)) == start);
    } else {
        lemma_held_until_woken(listening, wakeword, events, k);
        if forall|j: int| 0 < j <= k ==> #[trigger] events[j] == ListenEvent::<'a, T>::Speaking(
            Ok(true),
        ) {
            assert forall|j: int| 0 < j < k implies !ends_the_wait(#[trigger] events[j]) by {
                assert(events[j] == ListenEvent::<'a, T>::Speaking(Ok(true)));
            }
            assert(events[k] == ListenEvent::<'a, T>::Speaking(Ok(true)));
        }
    }
}

/// The wakeword that opened the cycle, where the cycle is past its wakeword.
pub open spec fn wakeword_of(state: ListenState) -> Option<String> {
    match state {
        ListenState::WaitWakeword => None,
        ListenState::CheckSpeaking { wakeword } => Some(wakeword),
        ListenState::FinishSpeaking { wakeword } => Some(wakeword),
        ListenState::Recognizing { wakeword } => Some(wakeword),
        ListenState::Classifying { wakeword } => Some(wakeword),
    }
}

/// Whether the spotter reported the wakeword `wakeword` before the event
/// number `k` of `events`.
pub open spec fn was_detected<'a, T>(events: Seq<ListenEvent<'a, T>>, k: int, wakeword: String) -> bool {
    exists|j: int| 0 <= j < k && #[trigger] events[j] == ListenEvent::<'a, T>::Wakeword(wakeword)
}

/// A cycle that is past its wakeword holds a wakeword that the spotter
/// reported.
pub proof fn lemma_cycle_holds_a_detected_wakeword<'a, T>(
    listening: Set<Seq<char>>,
    events: Seq<ListenEvent<'a, T>>,
    n: int,
)
    requires
        0 <= n <= events.len(),
    ensures
        wakeword_of(
            state_after(listening, ListenState::WaitWakeword, events.subrange(0, n)),
        ) matches Some(wakeword) ==> was_detected(events, n, wakeword),
    decreases n,
{
    let seen = events.subrange(0, n);
    if n > 0 {
        assert(seen.drop_last() =~= events.subrange(0, n - 1));
        assert(seen.last() == events[n - 1]);
        lemma_cycle_holds_a_detected_wakeword(listening, events, n - 1);
        let before = state_after(listening, ListenState::WaitWakeword, events.subrange(0, n - 1));
        let after = state_after(listening, ListenState::WaitWakeword, seen);
        match wakeword_of(after) {
            Some(wakeword) => {
                if wakeword_of(before) == Some(wakeword) {
                    let j = choose|j: int|
                        0 <= j < n - 1 && #[trigger] events[j] == ListenEvent::<'a, T>::Wakeword(
                            wakeword,
                        );
                    assert(0 <= j < n && events[j] == ListenEvent::<'a, T>::Wakeword(wakeword));
                } else {
                    assert(events[n - 1] == ListenEvent::<'a, T>::Wakeword(wakeword));
                }
            },
            None => {},
        }
    }
}

/// Whatever happens outside, what a cycle hands out names a wakeword that
/// the spotter reported: the query does, and so does the error of a cycle
/// that failed after its wakeword.
pub proof fn lemma_results_name_a_detected_wakeword<'a, T>(
    listening: Set<Seq<char>>,
    events: Seq<ListenEvent<'a, T>>,
    k: int,
)
    requires
        0 <= k < events.len(),
    ensures
        match action_at(listening, ListenState::WaitWakeword, events, k) {
            ListenAction::Finish(Ok(query)) => was_detected(events, k, query.wakeword),
            ListenAction::Finish(Err(AssistantListenError::ProcessError(wakeword, _))) => was_detected(
                events,
                k,
                wakeword,
            ),
            _ => true,
        },
{
    lemma_cycle_holds_a_detected_wakeword(listening, events, k);
}

} // verus!
