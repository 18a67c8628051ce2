pub mod client;
pub mod errors;
pub mod hex;
pub mod port;
pub mod port_entity;
pub mod text;
