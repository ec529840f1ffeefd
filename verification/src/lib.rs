//! Server configuration and identity read limits.

pub mod config;
pub mod digest;
pub mod environment;
pub mod paths;
pub mod read_rate_limit;
pub mod text;
