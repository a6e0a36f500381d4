//! A catalog of UI component metadata and documentation, with the read-only
//! operations a component server offers over it: listing with filters,
//! ranked search, case-insensitive lookup, documentation sections, and the
//! text renderings behind the `component://` and `docs://` resources.

pub mod text;
pub mod types;
pub mod ranking;
pub mod error;
pub mod catalog;
pub mod filters;
pub mod server;
pub mod render;
pub mod manifest;
pub mod file_loader;
pub mod library;
pub mod router;
pub mod laws;
