//! The commit-edge record and the trusted boundary to the repository.
//!
//! Everything the verified walker learns about a repository comes through the
//! small wrappers in this module; each wrapper makes one kind of query and
//! hands back plain values.

use vstd::prelude::*;

use crate::aliases::Timestamp;
use crate::prediction::TIME_LIMIT;

verus! {

/// Largest magnitude of a commit timestamp (seconds since the epoch) the
/// model accepts; a difference of two accepted timestamps then stays within
/// `TIME_LIMIT`.
pub const TS_BOUND: i64 = 0x400_0000_0000;

/// The transition record between a commit and its mainline parent, carrying
/// timing and change-size metrics.
#[derive(Debug, Clone)]
pub struct CommitData {
    /// The id of the (child) commit this edge was produced for.
    pub commit_id: String,
    /// The commit's message, trimmed.
    pub message: String,
    /// The commit's author signature.
    pub author: String,
    /// When the commit was made.
    pub timestamp: Timestamp,
    /// When its mainline parent was made (rewritten for boundary edges).
    pub prev_timestamp: Timestamp,
    /// The elapsed time of the transition (rewritten for boundary edges).
    pub delta_t: Timestamp,
    /// How many files the commit touched.
    pub files_changed: i32,
    /// How many lines the commit added.
    pub lines_added: i32,
    /// How many lines the commit removed.
    pub lines_removed: i32,
    /// Whether the timing of this edge was replaced by a prediction.
    pub projected: bool,
}

/// Magnitude bounds that hold of every edge the crate handles, before and
/// after the session split; they keep the timestamp arithmetic around edges
/// free of overflow.
pub open spec fn edge_bounded(e: CommitData) -> bool {
    &&& -TS_BOUND <= e.timestamp <= TS_BOUND
    &&& -(TS_BOUND + TIME_LIMIT) <= e.prev_timestamp <= TS_BOUND + TIME_LIMIT
    &&& -TIME_LIMIT <= e.delta_t <= TIME_LIMIT
}

/// Shape of an edge as the walker produces it, before any rewriting: the
/// elapsed time is the difference of the two raw timestamps, nothing is
/// projected yet, and the change metrics are nonnegative.
pub open spec fn edge_raw(e: CommitData) -> bool {
    &&& e.delta_t == e.timestamp - e.prev_timestamp
    &&& -TS_BOUND <= e.prev_timestamp <= TS_BOUND
    &&& !e.projected
    &&& 0 <= e.files_changed
    &&& 0 <= e.lines_added
    &&& 0 <= e.lines_removed
}

/// An equal edge, with the text fields cloned.
pub fn copy_edge(e: &CommitData) -> (r: CommitData)
    ensures
        r == *e,
{
    CommitData {
        commit_id: e.commit_id.clone(),
        message: e.message.clone(),
        author: e.author.clone(),
        timestamp: e.timestamp,
        prev_timestamp: e.prev_timestamp,
        delta_t: e.delta_t,
        files_changed: e.files_changed,
        lines_added: e.lines_added,
        lines_removed: e.lines_removed,
        projected: e.projected,
    }
}

/// What one commit records about itself, as plain values.
pub struct CommitInfo {
    /// The commit message, if it is valid text.
    pub message: Option<String>,
    /// The author signature, rendered as text.
    pub author: String,
    /// The commit time, in seconds since the epoch.
    pub timestamp: Timestamp,
}

/// The totals of a tree-to-tree diff, as plain values.
pub struct DiffTotals {
    /// How many files differ.
    pub files_changed: usize,
    /// How many lines were inserted.
    pub insertions: usize,
    /// How many lines were deleted.
    pub deletions: usize,
}

#[verifier::external_type_specification]
#[verifier::external_body]
pub struct ExRepository(git2::Repository);

/// Gets the head commit's id from a repo, in hex form.
///
/// Relies on git2::Repository::head and git2::Reference::target: HEAD,
/// resolved to the id of the commit it points at.
#[verifier::external_body]
pub fn get_head_commit(repo: &git2::Repository) -> (r: Option<String>) {
    match repo.head() {
        Ok(head) => head.target().map(|oid| oid.to_string()),
        Err(_) => None,
    }
}

/// Relies on git2::Commit::parent_ids: the ids of the commit's parents, in
/// order, the mainline parent first; `None` when the commit cannot be read.
#[verifier::external_body]
pub(crate) fn commit_parent_ids(repo: &git2::Repository, id: &String) -> (r: Option<Vec<String>>) {
    let oid = git2::Oid::from_str(id.as_str()).ok()?;
    let commit = repo.find_commit(oid).ok()?;
    Some(commit.parent_ids().map(|p| p.to_string()).collect())
}

/// Relies on git2::Commit::{message, author, time}: the commit's message (if
/// valid text), its author signature as text, and its time in seconds;
/// `None` when the commit cannot be read.
#[verifier::external_body]
pub(crate) fn commit_info(repo: &git2::Repository, id: &String) -> (r: Option<CommitInfo>) {
    let oid = git2::Oid::from_str(id.as_str()).ok()?;
    let commit = repo.find_commit(oid).ok()?;
    let info = CommitInfo {
        message: commit.message().ok().map(|m| m.to_string()),
        author: commit.author().to_string(),
        timestamp: commit.time().seconds(),
    };
    Some(info)
}

/// Relies on git2::Repository::diff_tree_to_tree (with diffs forced to text
/// mode, so binary files are still counted) and git2::DiffStats: the totals
/// of the diff from the parent commit's tree to the child commit's tree;
/// `None` when either commit or the diff cannot be read.
#[verifier::external_body]
pub(crate) fn diff_totals(
    repo: &git2::Repository,
    parent_id: &String,
    child_id: &String,
) -> (r: Option<DiffTotals>) {
    let parent_oid = git2::Oid::from_str(parent_id.as_str()).ok()?;
    let child_oid = git2::Oid::from_str(child_id.as_str()).ok()?;
    let parent_tree = repo.find_commit(parent_oid).ok()?.tree().ok()?;
    let child_tree = repo.find_commit(child_oid).ok()?.tree().ok()?;
    let mut opts = git2::DiffOptions::new();
    opts.force_text(true);
    let diff = repo.diff_tree_to_tree(Some(&parent_tree), Some(&child_tree), Some(&mut opts)).ok()?;
    let stats = diff.stats().ok()?;
    Some(DiffTotals {
        files_changed: stats.files_changed(),
        insertions: stats.insertions(),
        deletions: stats.deletions(),
    })
}

/// What trimming leading and trailing whitespace leaves of a text; it
/// depends on the characters alone.
pub uninterp spec fn trimmed_of(s: Seq<char>) -> Seq<char>;

/// Relies on str::trim: the text with leading and trailing whitespace
/// removed, a subslice of the input.
#[verifier::external_body]
pub(crate) fn trim_text(s: &String) -> (r: String)
    ensures
        r@ == trimmed_of(s@),
        r@.len() <= s@.len(),
{
    s.trim().to_string()
}

} // verus!
