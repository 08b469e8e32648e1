//! Core logic of a conversational relay bot: a per-conversation bounded
//! message history, a translator that turns raw chat messages into role-tagged
//! content units for a generative-AI backend, an assembler that builds the
//! ordered request window, and the policy that decides when to reply.
//!
//! All I/O (chat transport, media download, backend requests) lives outside
//! this crate; the functions here work on plain values and carry contracts.

pub mod assemble;
pub mod attachment;
pub mod cli;
pub mod config;
pub mod encoding;
pub mod message;
pub mod msg_cache;
pub mod reply;
pub mod translate;
pub mod util;
