//! Decisions of a read-only reverse proxy for the git smart-HTTP protocol.
//!
//! The crate holds what the proxy decides and computes: which requests are
//! pushes and are refused, what the request sent upstream looks like, which
//! headers travel in either direction, what the client is answered, and how
//! the server is to be run. The program around it does the reading and the
//! sending.

pub mod boundary;
pub mod config;
pub mod filter;
pub mod laws;
pub mod message;
pub mod proxy;
pub mod text;
pub mod tls;

pub use config::Config;
