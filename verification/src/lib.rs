//! Turn-level retries for an agent that talks to a language-model provider: the
//! policy, how it is read from the configuration, and the operation that applies it
//! to a conversation.
pub mod json;
pub mod laws;
pub mod laws_message;
pub mod laws_operation;
pub mod laws_policy;
pub mod message;
pub mod operation;
pub mod policy;
pub mod text;
pub mod laws_calls;
