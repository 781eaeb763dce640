//! A vendor-neutral chat-completion gateway: one data model for
//! conversations and tool calls, one request/response translator per
//! provider wire format, a streaming pump that rebuilds fragmented tool
//! calls, and a registry that resolves models and capabilities.

pub mod claude;
pub mod client;
pub mod config;
pub mod error;
pub mod function;
pub mod function_calling;
pub mod input;
pub mod json;
pub mod message;
pub mod model;
pub mod ollama;
pub mod openai;
pub mod qianwen;
pub mod stream;
pub mod text;
pub mod utils;
