//! The requests and tool calls of an MCP server.

pub mod answer_laws;
pub mod call_laws;
pub mod channel;
pub mod error;
pub mod handler;
pub mod json;
pub mod laws;
pub mod notify;
pub mod protocol;
pub mod round_laws;
pub mod tool_call;
