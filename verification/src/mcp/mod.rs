//! The MCP server: its requests and its tools.
pub mod server;
pub mod tools;
