//! The bookkeeping and decisions behind the TCP and UDP transports: who is
//! connected, what each event on a socket leads to. The sockets themselves
//! are driven by the server binary.
pub mod clients;
pub mod tcp;
pub mod udp;
pub mod tls;
