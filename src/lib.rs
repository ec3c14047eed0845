//! A TLS-terminating reverse proxy core: certificate selection by server
//! name, host-based routing, and an ordered chain of request filters.
pub mod config;
pub mod prelude;
pub mod services;
pub mod text;
