//! Network-membership authorization engine for a mesh-networking controller.
//!
//! Given a network identifier and a requesting member's address, the engine
//! decides whether that member may join the network and, if so, computes the
//! deterministic overlay address the member must be assigned.  The registry of
//! authorized members is built from a validated configuration document and is
//! replaced wholesale on reload; it is never mutated in place.

pub mod config;
pub mod hex;
pub mod service;
