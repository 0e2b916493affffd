//! A wake-on-join proxy for Minecraft servers: wire format, MOTD rendering,
//! status answers and the decisions that drive each connection.
pub mod varint;
pub mod text;
pub mod json;
pub mod json_text;
pub mod packets;
pub mod style;
pub mod gradient;
pub mod motd;
pub mod clock;
pub mod sessions;
pub mod state;
pub mod status;
pub mod client;
pub mod join;
pub mod session;
pub mod server;
pub mod config;
