//! Federation of agent buses: topic routing between a hub and its peers.
pub mod glob;
pub mod routing;
pub mod frame;
pub mod forward;
pub mod keepalive;
pub mod hub;
pub mod peer;
pub mod preflight;
pub mod registry;
pub mod tailnet;
