//! Inline dependency-version inspection for package manifests.
//!
//! The crate parses dependency declarations out of manifest files (npm,
//! Cargo, Go modules, Python pyproject, Ruby Gemfile, Dart pubspec),
//! compares declared version specifiers against the latest published
//! version, caches lookup results with a time-to-live, rate-limits
//! reprocessing with a per-key debouncer, and keeps a per-document store
//! of the resulting annotations.

pub mod text;
pub mod version;
pub mod parsers;
pub mod json_data;
pub mod toml_data;
mod clock;
pub mod cache;
pub mod debouncer;
pub mod state;
pub mod settings;
pub mod badges;
pub mod decorations;
pub mod registry;
pub mod commands;
pub mod watcher;
