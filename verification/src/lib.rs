//! A small directory-organizing library: filenames are classified by their
//! extension, routed to a category folder through a fixed routing table, and
//! filtered by an allow-list and a deny-list of extensions. The planning logic
//! is pure and fully specified; an embedding program performs the actual
//! filesystem calls on the plan this library computes.

pub mod extension;
pub mod config;
pub mod engine;
pub mod routing;
