use vstd::prelude::*;

verus! {

/// Speech backends the assistant can drive.
#[derive(Clone, Copy, Debug, PartialEq, Eq, Structural)]
pub enum TtsBackend {
    SpeechDispatcher,
}

/// How the synthesizer is to be set up before the assistant speaks.
#[derive(Clone, Copy, Debug, PartialEq, Eq, Structural)]
pub struct TtsSettings {
    pub backend: TtsBackend,
    /// Speaking rate as the backend counts it; zero is the backend's normal rate.
    pub rate: i32,
}

/// One utterance handed to the synthesizer.
#[derive(Debug, PartialEq, Eq)]
pub struct SpeechRequest {
    pub text: String,
    /// Whether speech that is still playing is cut off.
    pub interrupt: bool,
}

/// The synthesizer failed; the text says why.
#[derive(Debug, PartialEq, Eq)]
pub struct TtsError(pub String);

/// The time, in milliseconds, between two looks at whether the synthesizer
/// still speaks.
pub const SPEAKING_POLL_MILLIS: u64 = 100;

/// What to do while waiting for the synthesizer to fall silent.
#[derive(Debug, PartialEq, Eq)]
pub enum SpeakingPoll {
    /// It still speaks: look again after that many milliseconds.
    Sleep(u64),
    /// It is silent.
    Finished,
    /// It could not be asked.
    Failed(TtsError),
}

/// What follows from one look at the synthesizer. `speaking` is what it
/// answered when asked whether it speaks.
pub fn poll_speaking(speaking: Result<bool, TtsError>) -> (poll: SpeakingPoll)
    ensures
        poll == match speaking {
            Ok(true) => SpeakingPoll::Sleep(SPEAKING_POLL_MILLIS),
            Ok(false) => SpeakingPoll::Finished,
            Err(error) => SpeakingPoll::Failed(error),
        },
{
    match speaking {
        Ok(true) => SpeakingPoll::Sleep(SPEAKING_POLL_MILLIS),
        Ok(false) => SpeakingPoll::Finished,
        Err(error) => SpeakingPoll::Failed(error),
    }
}

/// The synthesizer the assistant uses: speech-dispatcher at its normal rate.
pub fn get_tts() -> (settings: TtsSettings)
    ensures
        settings.backend == TtsBackend::SpeechDispatcher,
        settings.rate == 0,
{
    TtsSettings { backend: TtsBackend::SpeechDispatcher, rate: 0 }
}

/// The request that speaks `text`: it always cuts off what is still playing.
pub fn tts_speak(text: String) -> (request: SpeechRequest)
    ensures
        request.text == text,
        request.interrupt,
{
    SpeechRequest { text, interrupt: true }
}

} // verus!
