//! Speech synthesis: providers and the events sent to the interface.
use vstd::prelude::*;

verus! {

/// Speech-synthesis provider.
#[derive(Debug, Clone, Copy, PartialEq, Eq, Structural)]
pub enum TTSProvider {
    IrodoriTts,
    Voicepeak,
}

/// How Irodori-TTS chooses a voice.
#[derive(Debug, Clone, Copy, PartialEq, Eq, Structural)]
pub enum IrodoriMode {
    Caption,
    ReferenceAudio,
}

/// Synthesis of a message started.
#[derive(Debug, Clone)]
pub struct TTSGeneratingEvent {
    pub session_id: String,
}

/// Synthesis of a message finished: its text and the audio in Base64.
#[derive(Debug, Clone)]
pub struct TTSCompleteEvent {
    pub session_id: String,
    pub text: String,
    pub audio: String,
}

/// Synthesis failed; the text is shown without audio.
#[derive(Debug, Clone)]
pub struct TTSErrorEvent {
    pub session_id: String,
    pub text: String,
    pub error: String,
}

} // verus!
