pub mod a2a_server;
pub mod adapters;
pub mod agent;
pub mod agent_state;
pub mod bus_api;
pub mod clock;
pub mod commands;
pub mod config;
pub mod config_changeset;
pub mod context;
pub mod decimal;
pub mod federation;
pub mod ids;
pub mod json;
pub mod json_text;
pub mod jsonrpc;
pub mod mcp;
pub mod mcp_protocol;
pub mod mcp_service;
pub mod mcp_tools;
pub mod message;
pub mod metrics;
pub mod metrics_cache;
pub mod names;
pub mod needs;
pub mod order;
pub mod same;
pub mod serve;
pub mod tasklog;
pub mod tasklog_costs;
pub mod tasklog_file;
pub mod tasklog_report;
pub mod text;
pub mod timeout_sweep;
pub mod tui;
pub mod web;
pub mod yaml;
