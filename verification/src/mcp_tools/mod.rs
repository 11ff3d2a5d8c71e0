//! The MCP tools: their arguments, their rules and their replies.
pub mod access;
pub mod queue;
pub mod reminder;
pub mod remote;
pub mod reply;
pub mod send;
pub mod subagents;
