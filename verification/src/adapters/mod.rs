//! Adapters between messaging platforms and the bus of an agent.
pub mod discord;
pub mod plan;
