//! BeMyVPN core logic: wire formats, NAT traversal decisions, guest
//! accounting, configuration rules and the session policies that the
//! platform shells drive.

pub mod error;
pub mod text;
pub mod addr;
pub mod stun;
pub mod session;
pub mod ids;
pub mod keepalive;
pub mod punch;
pub mod hub;
pub mod config;
pub mod hosting;
pub mod desktop;
pub mod rank;
pub mod version;
pub mod update;
pub mod routes;
pub mod sysout;
