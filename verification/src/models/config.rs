//! Application settings that hold no floating-point values.
use vstd::prelude::*;

verus! {

/// What a model is used for.
#[derive(Debug, Clone, Copy, PartialEq, Eq, Hash, Structural)]
pub enum ModelPurpose {
    Chat,
    Memory,
    Thought,
    CharacterGeneration,
}

/// Provider of a model API.
#[derive(Debug, Clone, Copy, PartialEq, Eq, Structural)]
pub enum LLMProvider {
    Openai,
    Anthropic,
    Google,
    OpenaiCompatible,
}

/// Settings of the character's own thinking.
#[derive(Debug, Clone)]
pub struct ThoughtConfig {
    pub enabled: bool,
    pub interval_minutes: u64,
    /// Minutes after which thoughts are deleted; 0 keeps them all.
    pub auto_delete_threshold_minutes: u64,
}

/// Default of `auto_delete_threshold_minutes`: one day.
pub fn default_thought_auto_delete_threshold() -> (m: u64)
    ensures
        m == 1440,
{
    1440
}

/// Settings of memory compression.
#[derive(Debug, Clone)]
pub struct MemoryConfig {
    /// Number of messages at which a session is compressed.
    pub compression_threshold: u32,
}

/// Global speech-synthesis settings.
#[derive(Debug, Clone)]
pub struct TTSGlobalConfig {
    pub enabled: bool,
    /// Path of the VoicePeak command-line program.
    pub voicepeak_path: Option<String>,
    /// Time limit of one synthesis, in seconds.
    pub timeout_seconds: u64,
    /// Largest number of characters synthesised at once.
    pub max_chunk_size: usize,
    pub irodori_base_url: Option<String>,
    pub irodori_caption_base_url: Option<String>,
    pub irodori_reference_audio_base_url: Option<String>,
}

/// Default synthesis time limit: 60 seconds.
pub fn default_tts_timeout() -> (s: u64)
    ensures
        s == 60,
{
    60
}

/// Default chunk size of synthesis: 140 characters.
pub fn default_max_chunk_size() -> (n: usize)
    ensures
        n == 140,
{
    140
}

/// Key combination that sends a message.
#[derive(Debug, Clone, Copy, PartialEq, Eq, Structural)]
pub enum SendKey {
    Enter,
    CtrlEnter,
    ShiftEnter,
}

impl Default for SendKey {
    /// Enter sends.
    fn default() -> (k: Self)
        ensures
            k == SendKey::Enter,
    {
        SendKey::Enter
    }
}

/// User-interface settings.
#[derive(Debug, Clone)]
pub struct UIConfig {
    pub theme: Theme,
    pub language: String,
    pub send_key: SendKey,
}

/// Colour theme.
#[derive(Debug, Clone, Copy, PartialEq, Eq, Structural)]
pub enum Theme {
    Light,
    Dark,
}

/// Attachment settings.
#[derive(Debug, Clone)]
pub struct AttachmentConfig {
    pub max_file_size_bytes: u64,
    pub allowed_extensions: Vec<String>,
}

} // verus!
