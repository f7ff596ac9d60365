//! A host-based HTTP reverse-forwarding gateway library.
//!
//! Two pieces: a configuration resolver that turns a YAML host-to-origin
//! document into a validated, read-only host map, and a request dispatcher
//! that decides, for one inbound request, what to forward where.

pub mod config;
pub mod dispatch;
pub mod document;
pub mod laws;
