//! Provider-agnostic adapter between two large-language-model wire protocols:
//! a structured content-block message format and a flat role/content chat
//! format with a separate tool-call array.

pub mod anthropic;
pub mod cache_control;
pub mod client_config;
pub mod common;
pub mod json;
pub mod jsontext;
pub mod laws;
pub mod openai;
pub mod strutil;
pub mod thinking;
pub mod to_anthropic;
pub mod to_openai;
pub mod tool_names;
pub mod views;

pub use anthropic::{ContentBlock, Message, MessagesResponse};
pub use common::{
    EffortLevel, Provider, ResponseFormat, StopReason, ThinkingConfig, ToolDefinition, Usage,
};
pub use client_config::{ClientConfig, EmbeddingsConfig};
pub use json::Json;
