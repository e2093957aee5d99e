//! A small client core for a chat-completion HTTP endpoint.
//!
//! The crate builds the request payload (model, messages, optional sampling
//! temperature, optional response schema), serializes it to wire-ready JSON,
//! and extracts the one textual completion out of the decoded JSON reply.
//! The HTTP transport itself is left to the caller; everything that computes
//! is specified and verified here.

pub mod client;
pub mod envelope;
pub mod error;
pub mod json;
pub mod params;
pub mod response;

pub use client::{bearer_token, API_URL};
pub use envelope::decode_envelope;
pub use error::OpenRouterError;
pub use json::{json_text, JsonValue};
pub use params::{prompt_messages, OpenRouterParams, OpenRouterParamsFull, OpenRouterParamsSimple};
pub use response::{clean_string, OpenRouterResponse};
