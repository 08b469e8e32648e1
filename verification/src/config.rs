use vstd::prelude::*;

verus! {

/// Settings for the chat-transport side: the bot token, how many messages the
/// per-conversation history buffer may hold, and the trigger names that make
/// the bot answer in group chats.
pub struct Telegram {
    pub token: String,
    pub cache_size: usize,
    pub names: Vec<String>,
}

/// Settings for the generative-AI backend: its API token and the system
/// instruction given with every request.
pub struct Gemini {
    pub token: String,
    pub personality: String,
}

/// The whole process configuration, read at startup.
pub struct Config {
    pub telegram: Telegram,
    pub gemini: Gemini,
}

} // verus!
