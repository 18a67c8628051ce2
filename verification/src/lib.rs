//! NetLab server library: port allocation, session bookkeeping, the
//! WebSocket wire protocol, and the configuration and TLS material of the
//! server, each operation with its contract.
pub mod application;
pub mod config;
pub mod domain;
pub mod infrastructure;
