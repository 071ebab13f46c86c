//! Recognition of log entries in loosely structured text.
//!
//! The crate splits raw log text into lines, cleans each line, groups the
//! lines into blocks, and turns every block into a structured
//! [`entry::LogEntry`]. Queries over the resulting entries (statistics,
//! search, level filter) and the bookkeeping of recently opened files are
//! provided as pure functions.
pub mod detect;
pub mod entry;
pub mod file;
pub mod history;
pub mod lines;
pub mod metadata;
pub mod query;
pub mod sanitize;
pub mod segment;
pub mod text;
