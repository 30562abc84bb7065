//! Work-session analysis of a version-control commit history.
//!
//! The crate walks the ancestry graph of a repository, extracts per-commit
//! change metrics, fits a small online statistical model from "trusted"
//! transitions (those whose elapsed time stays under a configured threshold),
//! and rewrites gap transitions with a predicted plausible duration, yielding
//! records suitable for calendar-style visualization.

pub mod aliases;
pub mod auth;
pub mod calendar;
pub mod database;
pub mod errors;
pub mod git;
pub mod prediction;
pub mod templates;
pub mod utils;
