use assistant::audio::{InputConfig, InputDeviceReport, SampleFormat};
use assistant::intents::{IntentRecognizerBuildError, IntentRecognizerError};
use assistant::names::{contains_name, WakewordSet};
use assistant::stt::{
    RecognitionError, RecognitionResult, STTConfig, STTConfigError, STTLoadModelFail,
};
use assistant::tts::{SpeakingPoll, TtsError, SPEAKING_POLL_MILLIS};
use assistant::wakeword::{
    SampleKind, WakewordConfig, WakewordConfigAddError, WakewordConfigBuildError,
    WakewordConfigStartError, WakewordSetup,
};
use assistant::{
    Assistant, AssistantConfig, AssistantConfigBuildError, AssistantListenError,
    AssistantListenSuccessfulWakewordError, AssistantQuery, AssistantStartError, ListenAction,
    ListenEvent, ListenState,
};
use rustpotter::{
    Rustpotter, RustpotterConfig, WakewordRef, WakewordRefBuildFromBuffers, WakewordSave,
};
use std::collections::HashMap;

#[derive(Debug, PartialEq, Eq)]
enum Intents {
    Greeting,
    Time,
}

fn mono16() -> InputDeviceReport {
    InputDeviceReport::Device {
        default_config: InputConfig { channels: 1, sample_rate: 16000, sample_format: SampleFormat::I16 },
        supported: Ok(Vec::new()),
    }
}

fn wakeword_config() -> WakewordConfig {
    let setup = WakewordSetup::negotiate(mono16()).unwrap();
    let spotter = Rustpotter::new(&RustpotterConfig::default()).unwrap();
    WakewordConfig::build(setup, Ok(spotter)).ok().unwrap()
}

fn config() -> AssistantConfig<Intents> {
    AssistantConfig::build(Ok(wakeword_config()), Ok(()), STTConfig::build(mono16()), Ok(()))
        .ok()
        .unwrap()
}

/// The bytes of a wakeword profile made from one second of a sawtooth.
fn profile() -> Vec<u8> {
    let samples: Vec<i16> = (0..16000i32).map(|i| ((i * 331) % 20000 - 10000) as i16).collect();
    let data_len = (samples.len() * 2) as u32;
    let mut wav = Vec::new();
    wav.extend_from_slice(b"RIFF");
    wav.extend_from_slice(&(36 + data_len).to_le_bytes());
    wav.extend_from_slice(b"WAVEfmt ");
    wav.extend_from_slice(&16u32.to_le_bytes());
    wav.extend_from_slice(&1u16.to_le_bytes());
    wav.extend_from_slice(&1u16.to_le_bytes());
    wav.extend_from_slice(&16000u32.to_le_bytes());
    wav.extend_from_slice(&32000u32.to_le_bytes());
    wav.extend_from_slice(&2u16.to_le_bytes());
    wav.extend_from_slice(&16u16.to_le_bytes());
    wav.extend_from_slice(b"data");
    wav.extend_from_slice(&data_len.to_le_bytes());
    for sample in samples {
        wav.extend_from_slice(&sample.to_le_bytes());
    }
    let mut recordings = HashMap::new();
    recordings.insert("saw.wav".to_string(), wav);
    WakewordRef::new_from_sample_buffers("saw".to_string(), None, None, recordings, 16)
        .unwrap()
        .save_to_buffer()
        .unwrap()
}

/// Loads that profile into the model of `config` and tells `config` of it.
fn add_profile(config: &mut AssistantConfig<Intents>, name: &str, listen: bool) {
    let loaded = config.rustpotter_mut().add_wakeword_from_buffer(name, &profile());
    assert_eq!(config.add_wakeword_from_file(name, loaded, listen), Ok(()));
}

fn one(number: f32) -> Vec<u32> {
    vec![number.to_bits()]
}

/// An assistant that listens after "pizza" and only reports "lamp".
fn assistant() -> Assistant<Intents> {
    let mut config = config();
    add_profile(&mut config, "pizza", true);
    add_profile(&mut config, "lamp", false);
    config.add_intent(Intents::Greeting, vec!["hello".to_string(), "hi".to_string()]);
    config.add_intent(Intents::Time, vec!["what time is it".to_string()]);
    let embedded = vec![vec![one(1.0), one(2.0)], vec![one(3.0)]];
    config.start(Ok(embedded)).ok().unwrap().0
}

fn wake(assistant: &Assistant<Intents>, name: &str) -> ListenState {
    let (state, action) = assistant.begin();
    assert_eq!(action, ListenAction::AwaitWakeword);
    let (state, action) = assistant.listen(state, ListenEvent::Wakeword(name.to_string()));
    assert_eq!(state, ListenState::CheckSpeaking { wakeword: name.to_string() });
    assert_eq!(action, ListenAction::AskSpeaking);
    state
}

fn failed<'a>(name: &str, error: AssistantListenSuccessfulWakewordError) -> ListenAction<'a, Intents> {
    ListenAction::Finish(Err(AssistantListenError::ProcessError(name.to_string(), error)))
}

#[test]
fn name_is_found_among_names() {
    let names = vec!["pizza".to_string(), "lamp".to_string()];
    assert!(contains_name(&names, &"lamp".to_string()));
    assert!(contains_name(&names, &"pizza".to_string()));
    assert!(!contains_name(&names, &"pizz".to_string()));
    assert!(!contains_name(&Vec::new(), &"pizza".to_string()));
}

#[test]
fn first_failed_step_is_reported() {
    let broken = || Err(WakewordConfigBuildError::NoInputDevice);
    let no_stt = || Err(STTConfigError::FailedGetDefaultInputDevice);
    let mute = || Err(TtsError("no speech-dispatcher".to_string()));
    let built = AssistantConfig::<Intents>::build(broken(), Err(STTLoadModelFail), no_stt(), mute());
    assert_eq!(
        built.err(),
        Some(AssistantConfigBuildError::WakewordConfigError(WakewordConfigBuildError::NoInputDevice))
    );
    let built =
        AssistantConfig::<Intents>::build(Ok(wakeword_config()), Err(STTLoadModelFail), no_stt(), mute());
    assert_eq!(built.err(), Some(AssistantConfigBuildError::STTModelError));
    let built = AssistantConfig::<Intents>::build(Ok(wakeword_config()), Ok(()), no_stt(), mute());
    assert_eq!(
        built.err(),
        Some(AssistantConfigBuildError::STTConfigError(STTConfigError::FailedGetDefaultInputDevice))
    );
    let built = AssistantConfig::<Intents>::build(
        Ok(wakeword_config()),
        Ok(()),
        STTConfig::build(mono16()),
        mute(),
    );
    assert_eq!(
        built.err(),
        Some(AssistantConfigBuildError::TtsError(TtsError("no speech-dispatcher".to_string())))
    );
}

#[test]
fn fresh_config_has_no_intents() {
    let config = config();
    assert_eq!(config.intents_config().len(), 0);
    assert_eq!(
        config.start(Ok(Vec::new())).err(),
        Some(AssistantStartError::IntentRecognizerBuildError(
            IntentRecognizerBuildError::NoIntentsProvided
        ))
    );
}

#[test]
fn intents_reach_the_recognizer_in_order() {
    let assistant = assistant();
    let recognizer = assistant.intent_recognizer();
    assert_eq!(recognizer.len(), 2);
    assert_eq!(recognizer.examples(0), &vec![one(1.0), one(2.0)]);
    assert_eq!(recognizer.examples(1), &vec![one(3.0)]);
    let same = |example: &Vec<u32>| if *example == one(3.0) { one(0.8)[0] } else { one(0.1)[0] };
    assert_eq!(recognizer.recognize(same), Ok(&Intents::Time));
    assert_eq!(assistant.stt_config().input_config().sample_rate, 16000);
}

#[test]
fn start_reports_recognizer_before_spotter() {
    // no intent and no wakeword: the recognizer is reported
    assert_eq!(
        config().start(Err("no model".to_string())).err(),
        Some(AssistantStartError::IntentRecognizerBuildError(
            IntentRecognizerBuildError::NoIntentsProvided
        ))
    );
    let mut with_intent = config();
    with_intent.add_intent(Intents::Greeting, vec!["hello".to_string()]);
    assert_eq!(
        with_intent.start(Err("no model".to_string())).err(),
        Some(AssistantStartError::IntentRecognizerBuildError(
            IntentRecognizerBuildError::TextEmbeddingError("no model".to_string())
        ))
    );
    let mut with_intent = config();
    with_intent.add_intent(Intents::Greeting, vec!["hello".to_string()]);
    assert_eq!(
        with_intent.start(Ok(vec![vec![one(1.0)]])).err(),
        Some(AssistantStartError::WakewordListenerStartError(
            WakewordConfigStartError::NoWakewordsAdded
        ))
    );
}

#[test]
fn start_hands_over_assistant_and_capture() {
    let mut config = config();
    add_profile(&mut config, "pizza", true);
    config.add_intent(Intents::Greeting, vec!["hello".to_string()]);
    let (assistant, capture) = config.start(Ok(vec![vec![one(1.0)]])).ok().unwrap();
    assert_eq!(capture.sample_kind, SampleKind::I16);
    assert_eq!(capture.stream_config.sample_rate, 16000);
    assert_eq!(capture.stream_config.channels, 1);
    assert_eq!(capture.samples_per_frame, 480);
    assert_eq!(assistant.intent_recognizer().len(), 1);
}

#[test]
fn wakeword_that_was_not_added_is_not_listened_after() {
    let mut config = config();
    assert_eq!(
        config.add_wakeword_from_file("pizza", Err("no such file".to_string()), true),
        Err(WakewordConfigAddError("no such file".to_string()))
    );
    add_profile(&mut config, "lamp", true);
    config.add_intent(Intents::Greeting, vec!["hello".to_string()]);
    let (assistant, _) = config.start(Ok(vec![vec![one(1.0)]])).ok().unwrap();
    let state = wake(&assistant, "pizza");
    let (state, action) = assistant.listen(state, ListenEvent::Speaking(Ok(false)));
    assert_eq!(state, ListenState::WaitWakeword);
    assert_eq!(
        action,
        ListenAction::Finish(Ok(AssistantQuery { wakeword: "pizza".to_string(), intent: None }))
    );
    let state = wake(&assistant, "lamp");
    let (_, action) = assistant.listen(state, ListenEvent::Speaking(Ok(false)));
    assert_eq!(action, ListenAction::Recognize);
}

#[test]
fn whole_cycle_gives_wakeword_and_intent() {
    let assistant = assistant();
    let state = wake(&assistant, "pizza");
    let (state, action) = assistant.listen(state, ListenEvent::Speaking(Ok(false)));
    assert_eq!(state, ListenState::Recognizing { wakeword: "pizza".to_string() });
    assert_eq!(action, ListenAction::Recognize);
    let heard = RecognitionResult::Final("what time is it".to_string());
    let (state, action) = assistant.listen(state, ListenEvent::Recognized(Ok(heard)));
    assert_eq!(state, ListenState::Classifying { wakeword: "pizza".to_string() });
    assert_eq!(action, ListenAction::Classify("what time is it".to_string()));
    let intent = assistant.intent_recognizer().classify(&vec![one(0.2), one(0.9)]);
    assert_eq!(intent, Ok(&Intents::Time));
    let (state, action) = assistant.listen(state, ListenEvent::Classified(intent));
    assert_eq!(state, ListenState::WaitWakeword);
    assert_eq!(
        action,
        ListenAction::Finish(Ok(AssistantQuery {
            wakeword: "pizza".to_string(),
            intent: Some(&Intents::Time),
        }))
    );
}

#[test]
fn wakeword_without_listen_flag_is_reported_alone() {
    let assistant = assistant();
    let state = wake(&assistant, "lamp");
    let (state, action) = assistant.listen(state, ListenEvent::Speaking(Ok(false)));
    assert_eq!(state, ListenState::WaitWakeword);
    assert_eq!(
        action,
        ListenAction::Finish(Ok(AssistantQuery { wakeword: "lamp".to_string(), intent: None }))
    );
}

#[test]
fn wakeword_while_speaking_is_dropped() {
    let assistant = assistant();
    let waiting = || ListenState::FinishSpeaking { wakeword: "pizza".to_string() };
    let state = wake(&assistant, "pizza");
    let (state, action) = assistant.listen(state, ListenEvent::Speaking(Ok(true)));
    assert_eq!(state, waiting());
    assert_eq!(action, ListenAction::PollSpeaking(100));
    // for as long as it speaks it is asked again
    let (state, action) = assistant.listen(state, ListenEvent::Speaking(Ok(true)));
    assert_eq!((state, action), (waiting(), ListenAction::PollSpeaking(100)));
    // nothing but its answer moves the cycle on
    let heard = ListenEvent::Recognized(Ok(RecognitionResult::Final("hello".to_string())));
    let (state, action) = assistant.listen(waiting(), heard);
    assert_eq!((state, action), (waiting(), ListenAction::Ignore));
    let (state, action) = assistant.listen(waiting(), ListenEvent::Wakeword("pizza".to_string()));
    assert_eq!((state, action), (waiting(), ListenAction::Ignore));
    let (state, action) = assistant.listen(waiting(), ListenEvent::Disconnected);
    assert_eq!((state, action), (waiting(), ListenAction::Ignore));
    // the answer that it does not speak ends the wait, and nothing is recognized
    let (state, action) = assistant.listen(waiting(), ListenEvent::Speaking(Ok(false)));
    assert_eq!((state, action), (ListenState::WaitWakeword, ListenAction::AwaitWakeword));
    // and then a new wakeword is needed
    let (state, action) = assistant.listen(ListenState::WaitWakeword, ListenEvent::Speaking(Ok(false)));
    assert_eq!((state, action), (ListenState::WaitWakeword, ListenAction::Ignore));
    let (state, action) =
        assistant.listen(ListenState::WaitWakeword, ListenEvent::Wakeword("pizza".to_string()));
    assert_eq!(state, ListenState::CheckSpeaking { wakeword: "pizza".to_string() });
    assert_eq!(action, ListenAction::AskSpeaking);
    let (_, action) = assistant.listen(state, ListenEvent::Speaking(Ok(false)));
    assert_eq!(action, ListenAction::Recognize);
}

#[test]
fn synthesizer_that_fails_while_waited_for_fails_the_cycle() {
    let assistant = assistant();
    let waiting = ListenState::FinishSpeaking { wakeword: "pizza".to_string() };
    let event = ListenEvent::Speaking(Err(TtsError("gone".to_string())));
    let (state, action) = assistant.listen(waiting, event);
    assert_eq!(state, ListenState::WaitWakeword);
    assert_eq!(
        action,
        failed("pizza", AssistantListenSuccessfulWakewordError::SpeechRecognitionError)
    );
}

#[test]
fn synthesizer_that_cannot_be_asked_fails_the_cycle() {
    let assistant = assistant();
    let state = wake(&assistant, "pizza");
    let event = ListenEvent::Speaking(Err(TtsError("gone".to_string())));
    let (state, action) = assistant.listen(state, event);
    assert_eq!(state, ListenState::WaitWakeword);
    assert_eq!(
        action,
        failed("pizza", AssistantListenSuccessfulWakewordError::SpeechRecognitionError)
    );
}

#[test]
fn recognition_failures_name_the_wakeword() {
    let assistant = assistant();
    let recognizing = || ListenState::Recognizing { wakeword: "pizza".to_string() };
    let (state, action) = assistant
        .listen(recognizing(), ListenEvent::Recognized(Ok(RecognitionResult::Failed)));
    assert_eq!(state, ListenState::WaitWakeword);
    assert_eq!(
        action,
        failed("pizza", AssistantListenSuccessfulWakewordError::SpeechRecognitionError)
    );
    let (state, action) = assistant
        .listen(recognizing(), ListenEvent::Recognized(Ok(RecognitionResult::Cancelled)));
    assert_eq!(state, ListenState::WaitWakeword);
    assert_eq!(
        action,
        failed("pizza", AssistantListenSuccessfulWakewordError::SpeechRecognitionTimeout)
    );
    let (state, action) = assistant.listen(
        recognizing(),
        ListenEvent::Recognized(Err(RecognitionError::FailedCreateRecognizer)),
    );
    assert_eq!(state, ListenState::WaitWakeword);
    assert_eq!(
        action,
        failed(
            "pizza",
            AssistantListenSuccessfulWakewordError::SpeechRecognitionInitializationError(
                RecognitionError::FailedCreateRecognizer
            )
        )
    );
}

#[test]
fn classification_failures_name_the_wakeword() {
    let assistant = assistant();
    let classifying = || ListenState::Classifying { wakeword: "pizza".to_string() };
    let low = assistant.intent_recognizer().classify(&vec![one(0.2), one(0.4)]);
    assert_eq!(low, Err(IntentRecognizerError::ScoreTooLow));
    let (state, action) = assistant.listen(classifying(), ListenEvent::Classified(low));
    assert_eq!(state, ListenState::WaitWakeword);
    assert_eq!(
        action,
        failed(
            "pizza",
            AssistantListenSuccessfulWakewordError::IntentRecognizerError(
                IntentRecognizerError::ScoreTooLow
            )
        )
    );
    let unembedded = Err(IntentRecognizerError::TextEmbeddingError("no tokens".to_string()));
    let (_, action) = assistant.listen(classifying(), ListenEvent::Classified(unembedded));
    assert_eq!(
        action,
        failed(
            "pizza",
            AssistantListenSuccessfulWakewordError::IntentRecognizerError(
                IntentRecognizerError::TextEmbeddingError("no tokens".to_string())
            )
        )
    );
}

#[test]
fn end_of_events_ends_listening() {
    let assistant = assistant();
    let (state, _) = assistant.begin();
    let (state, action) = assistant.listen(state, ListenEvent::Disconnected);
    assert_eq!(state, ListenState::WaitWakeword);
    assert_eq!(action, ListenAction::Finish(Err(AssistantListenError::WakewordRecvError)));
}

#[test]
fn events_not_waited_for_are_ignored() {
    let assistant = assistant();
    let checking = || ListenState::CheckSpeaking { wakeword: "pizza".to_string() };
    let heard = ListenEvent::Recognized(Ok(RecognitionResult::Failed));
    let (state, action) = assistant.listen(checking(), heard);
    assert_eq!((state, action), (checking(), ListenAction::Ignore));
    let (state, action) = assistant.listen(checking(), ListenEvent::Disconnected);
    assert_eq!((state, action), (checking(), ListenAction::Ignore));
    let recognizing = || ListenState::Recognizing { wakeword: "pizza".to_string() };
    let (state, action) = assistant.listen(recognizing(), ListenEvent::Speaking(Ok(false)));
    assert_eq!((state, action), (recognizing(), ListenAction::Ignore));
    let classifying = || ListenState::Classifying { wakeword: "pizza".to_string() };
    let heard = ListenEvent::Recognized(Ok(RecognitionResult::Final("hello".to_string())));
    let (state, action) = assistant.listen(classifying(), heard);
    assert_eq!((state, action), (classifying(), ListenAction::Ignore));
}

#[test]
fn assistant_speaks_over_itself() {
    let assistant = assistant();
    let request = assistant.speak("It's noon.".to_string());
    assert_eq!(request.text, "It's noon.");
    assert!(request.interrupt);
}

#[test]
fn waiting_for_silence_polls_every_tenth_of_a_second() {
    let assistant = assistant();
    assert_eq!(SPEAKING_POLL_MILLIS, 100);
    assert_eq!(assistant.finish_speaking(Ok(true)), SpeakingPoll::Sleep(100));
    assert_eq!(assistant.finish_speaking(Ok(false)), SpeakingPoll::Finished);
    assert_eq!(
        assistant.finish_speaking(Err(TtsError("gone".to_string()))),
        SpeakingPoll::Failed(TtsError("gone".to_string()))
    );
}

#[test]
fn wakeword_set_holds_each_name_once() {
    let set = WakewordSet::new();
    assert_eq!(set.len(), 0);
    assert!(!set.contains(&"pizza".to_string()));
    let set = set.insert("pizza".to_string());
    let set = set.insert("lamp".to_string());
    let set = set.insert("pizza".to_string());
    assert_eq!(set.len(), 2);
    assert!(set.contains(&"pizza".to_string()));
    assert!(set.contains(&"lamp".to_string()));
    assert!(!set.contains(&"piz".to_string()));
}

#[test]
fn wakeword_added_twice_is_listened_after() {
    let mut config = config();
    add_profile(&mut config, "pizza", true);
    add_profile(&mut config, "pizza", true);
    config.add_intent(Intents::Greeting, vec!["hello".to_string()]);
    let (assistant, _) = config.start(Ok(vec![vec![one(1.0)]])).ok().unwrap();
    let state = wake(&assistant, "pizza");
    let (_, action) = assistant.listen(state, ListenEvent::Speaking(Ok(false)));
    assert_eq!(action, ListenAction::Recognize);
}
