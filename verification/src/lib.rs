//! Core of a personal developer-activity tracker.
//!
//! The library records projects, the repositories associated with them, timed
//! work sessions ("activities") tagged with an activity type, and snapshots of
//! lines-of-code ("counts") for each repository.  All rows live in a SQLite
//! database reached through `rusqlite`; the data-access layer (`DataStore`)
//! enforces the cross-entity rules: name uniqueness, cascade deletion, and the
//! single running activity per project.

pub mod cli;
pub mod data;
pub mod errors;
pub mod laws;
pub mod model;
pub mod report;
pub mod store;
pub mod text;
