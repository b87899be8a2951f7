//! Pocket LLaMA: the verified core of a local, offline LLM appliance.
//!
//! The library holds the conversation memory and its chat-template rendering,
//! the offline conversational responder, the Gemini-style request and response
//! envelopes, the decisions of the token-generation loop, the pre-flight RAM
//! guardrail and the decisions of the command-line controller.
pub mod error;
pub mod text;
pub mod conversation;
pub mod memory;
pub mod cli;
pub mod server;
pub mod guardrail;
pub mod generation;
