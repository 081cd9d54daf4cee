//! Signaling plane for real-time rooms: a closed wire protocol, registries of
//! live sessions and of rooms, and the router that decides who receives what.
pub mod ids;
pub mod rooms;
pub mod connections;
pub mod codec;
pub mod server;
pub mod session;
pub mod laws;
