//! Core of a single-threaded, non-blocking TCP server: handle assignment,
//! connection registry, privilege tracking, read-buffer policy and payload
//! classification, all as verified state transitions. Socket and poller I/O
//! is done by the caller, which feeds the outcomes back in.

pub mod text;
pub mod client;
pub mod server;
pub mod service;
