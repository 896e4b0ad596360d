//! A reverse-proxy gateway core: the per-request decision pipeline of an HTTP
//! gateway, as pure verified logic. Inbound requests pass an authentication
//! gate, are mapped to a backend by first-listed-prefix routing, have their
//! upstream response headers rewritten, and are counted and logged exactly
//! once. Connection handling and byte relay belong to the surrounding proxy
//! substrate; this crate holds the decisions.

pub mod auth;
pub mod bytes;
pub mod config;
pub mod headers;
pub mod metrics;
pub mod pipeline;
pub mod rewrite;
pub mod routing;
