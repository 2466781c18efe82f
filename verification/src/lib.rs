//! Konnect's schematic text format and its MCP request handling.

pub mod mcp;
pub mod sexp;
pub mod text;
