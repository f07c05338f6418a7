//! Zigzag: a relay for completion events and its long-polling client.

pub mod bytes;
pub mod config;
pub mod delivery;
pub mod exchange;
pub mod exec;
pub mod http;
pub mod json;
pub mod jules;
pub mod keeping;
pub mod laws;
pub mod poller;
pub mod query;
pub mod relay;
pub mod rounds;
pub mod scan;
pub mod tailnet;
pub mod text;
pub mod url;
