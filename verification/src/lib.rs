//! Core of a chat-room bot that forwards prompts to a local language-model
//! inference service: a small command grammar, an executor that turns a
//! parsed command into either a reply or an inference request, and the
//! aggregation of a newline-delimited streaming JSON response body into a
//! single plain-text reply.

pub mod executor;
pub mod grammar;
pub mod inference;
pub mod router;
pub mod text;
