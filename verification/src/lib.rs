//! Link resolution engine for a short-link redirect service: identifier
//! validation, validated link records with append-mode redirect rules, an
//! immutable configuration snapshot with atomic whole-snapshot reload, and
//! the resolver that turns an identifier and a request path into a redirect
//! target.

pub mod config;
pub mod ident;
pub mod link;
pub mod resolve;
pub mod store;
pub mod text;
pub mod urls;
