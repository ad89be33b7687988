//! Discord text integration: message splitting, channel configuration,
//! the gateway session state machine and the forwarding rules.
pub mod text;
pub mod split;
pub mod channel_map;
pub mod config;
pub mod types;
pub mod gateway;
pub mod client;
pub mod echo;
pub mod tool;
