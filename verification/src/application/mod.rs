pub mod metrics;
pub mod port_pool;
pub mod port_service;
pub mod wire;
pub mod ws_dispatch;
