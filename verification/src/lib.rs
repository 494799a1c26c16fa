//! Verified core of an LLM client and agent runtime: the message model,
//! provider event streams, the test providers, the provider registry, the
//! request/stream decoding logic of the OpenAI-compatible provider and the
//! decision logic of the agent loop.

pub mod json;
pub mod message;
pub mod types;
pub mod error;
pub mod stream;
pub mod provider;
pub mod providers;
pub mod api_registry;
pub mod agent;
