//! A smaller engine for embedding: the guard has one switch and hands out one
//! address for each host, and redirects go by fewer rules.
pub mod config;
pub mod redirect;
pub mod ssrf;
