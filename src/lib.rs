//! A verified engine for streaming chat sessions with a local language-model
//! server: message model, token-budgeted context window, incremental frame
//! decoding, session state machine, event addressing, follow-up extraction,
//! and the assembly of academic search results.

pub mod message;
pub mod text;
pub mod context;
pub mod decoder;
pub mod followup;
pub mod session;
pub mod registry;
pub mod search;
