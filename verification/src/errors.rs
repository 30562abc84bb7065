//! Error types of the crate.

use vstd::prelude::*;

verus! {

/// A terminal failure while reading the commit graph.  The computation
/// returns no partial result: either every commit could be read, or the one
/// error names what could not.
#[derive(Debug)]
pub enum GraphAccessError {
    /// The head reference could not be resolved to a commit.
    Head,
    /// A commit (or its metadata) could not be read; carries its id.
    Commit(String),
    /// The diff against the mainline parent could not be read; carries the
    /// child commit's id.
    Diff(String),
    /// A commit carries a timestamp too large in magnitude for the model;
    /// carries its id.
    TimestampOutOfRange(String),
    /// The walk visited more commits than the model can account for.
    HistoryTooLarge,
}

/// This represents a wrapper for a returned response object, carrying the
/// message of the error it reports.
#[derive(Debug)]
pub struct AppErrorResponse {
    /// The associated error
    pub error: String,
}

} // verus!
