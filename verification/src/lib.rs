//! Verified core of a visible, auditable remote-assistance host and relay:
//! the wire protocol, binary transfer framing, time-based one-time codes,
//! configuration resolution, audit sanitisation, and the host and relay
//! state machines.

pub mod protocol;
pub mod error;
pub mod text;
pub mod bytes;
pub mod digest;
pub mod ids;
pub mod transfer;
pub mod totp;
pub mod config;
pub mod audit;
pub mod host_audit;
pub mod sorting;
pub mod host_state;
pub mod state_handle;
pub mod host;
pub mod table;
pub mod server_state;
pub mod relay;
pub mod host_link;
pub mod host_tasks;
pub mod uploads;
pub mod relay_control;
pub mod host_tunnels;
pub mod keys;
pub mod relay_host;
pub mod relay_streams;
