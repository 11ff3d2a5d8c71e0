//! The bus API: queries and commands that clients send over the bus.
pub mod answers;
pub mod calls;
pub mod rooms;
pub mod schedules;
