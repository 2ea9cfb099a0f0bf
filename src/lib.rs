//! Core logic of a hostname-routing reverse proxy for the Minecraft Java
//! edition protocol: the wire codec, packet model, per-connection state
//! machine, legacy server-list ping, and configuration-driven routing.

pub mod codec;
pub mod text;
pub mod frame;
pub mod packet;
pub mod handshake;
pub mod cached;
pub mod config;
pub mod multi_version;
pub mod legacy;
pub mod channel;
pub mod session;
pub mod splice;
