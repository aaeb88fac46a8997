//! Core data model and state-transition logic of a terminal git client.
//!
//! The library owns everything that can be stated and proved: how a status
//! scan becomes the dual-section file list and its visual order, how the
//! selection cursor survives a rebuild, how the commit log is assembled and
//! tags keep their pushed state, how modal key input edits text and drives
//! actions, and the small formatting helpers the renderer consumes.
//! Repository access, the terminal, and the `git` command line live outside,
//! behind plain-value inputs and outputs.

pub mod processing;
pub mod text;
pub mod timefmt;
pub mod cursor;
pub mod status;
pub mod log;
pub mod version;
pub mod config;
pub mod input;
pub mod app;
