//! A single-threaded static-file HTTP/1.x server: request-line parsing,
//! response synthesis, and the per-connection state machine driven by
//! readiness events.

pub mod request;
pub mod response;
pub mod server;
