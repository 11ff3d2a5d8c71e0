//! What the subcommands show and decide.
pub mod agent;
pub mod agent_stream;
pub mod agent_tasks;
pub mod dashboard;
pub mod sm;
pub mod status;
pub mod task;
pub mod tui;
pub mod usage;
