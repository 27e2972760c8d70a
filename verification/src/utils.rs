//! Names of the models the assistant talks to.

use vstd::prelude::*;

verus! {

/// The chat model every conversation is sent to.
pub const CHAT_MODEL_NAME: &'static str = "gpt-3.5-turbo";

/// The knowledge cutoff the chat model is told about.
pub const CHAT_MODEL_KNOWLEDGE_CUTOFF: &'static str = "2021";

/// The speech-to-text model used for voice commands.
pub const TRANSCRIBE_MODEL: &'static str = "whisper-1";

} // verus!
