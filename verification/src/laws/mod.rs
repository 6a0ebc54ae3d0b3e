//! What the library is for, stated over its inputs and results.
//!
//! A law here relates plain values, such as octets, characters, times, header
//! names and configured texts, to what the library answers. It names them as
//! they are, and not by the tables and predicates by which the library decides.

pub mod circuit;
pub mod cors;
pub mod defaults;
pub mod error;
pub mod forwarded;
pub mod headers;
pub mod redirect;
pub mod ssrf;
pub mod target_policy;
pub mod target_url;
pub mod text;
pub mod uri;
pub mod validation;
