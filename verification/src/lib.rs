//! Release classification and packaging-status engine.
//!
//! The library turns the releases of a source-code repository into
//! packaging decisions for a conda-style package index: it compiles
//! per-package pattern rules from a built-in default table and
//! configuration overrides, classifies release assets against platforms,
//! normalizes release tags into index versions, checks an index snapshot
//! for already-published artifacts, and rolls the per-platform outcomes
//! up into a rendered textual report.

pub mod channel;
pub mod classify;
pub mod config;
pub mod engine;
pub mod errors;
pub mod index;
pub mod pattern;
pub mod platform;
pub mod repo;
pub mod report;
pub mod rules;
pub mod status;
pub mod strutil;
pub mod version;

pub use platform::Platform;
