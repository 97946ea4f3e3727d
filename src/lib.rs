//! A chat bot's command core: a per-user todo store addressed by position,
//! command routing and replies, command schema registration, and the
//! reactions to gateway session events.

pub mod bot;
pub mod config;
pub mod registrar;
pub mod store;
pub mod text;
