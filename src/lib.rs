//! Session coordinator of a multiplayer game server: connection and player
//! registries, join protocol, gameplay event routing and chat policy.
pub mod chat;
pub mod laws;
pub mod model;
pub mod registry;
pub mod rooms;
pub mod server;
pub mod text;
