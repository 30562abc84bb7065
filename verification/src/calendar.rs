//! The calendar records the analysis produces, and the builder that maps
//! final commit edges to them.

use vstd::prelude::*;

use crate::aliases::Timestamp;
use crate::git::{edge_bounded, copy_edge, CommitData};

verus! {

/// A struct used for returning the data of one work block.
#[derive(Debug, Clone)]
pub struct CalendarValue {
    /// The title of the commit
    pub title: String,
    /// The amount of time from the start of the commit to the end.
    pub delta_t: Timestamp,
    /// The epoch timestamp for when the commit started.
    pub start: Timestamp,
    /// The epoch timestamp for when the commit finished. This is usually
    /// directly from the git database.
    pub end: Timestamp,
    /// A flag, true if the value was projected, false if not.
    pub projected: bool,
    /// The author of the commit
    pub author: String,
}

/// The record one commit edge maps to.  The start is offset by one second
/// past the previous commit's timestamp so that adjacent blocks never share
/// a boundary instant.
pub open spec fn spec_entry_of(e: CommitData) -> CalendarValue {
    CalendarValue {
        title: e.message,
        delta_t: e.delta_t,
        start: (e.prev_timestamp + 1) as i64,
        end: e.timestamp,
        projected: e.projected,
        author: e.author,
    }
}

/// Maps each (possibly rewritten) commit edge to its calendar record.
pub fn build_calendar(edges: Vec<CommitData>) -> (out: Vec<CalendarValue>)
    requires
        forall|i: int| 0 <= i < edges@.len() ==> edge_bounded(#[trigger] edges@[i]),
    ensures
        out@.len() == edges@.len(),
        forall|i: int| 0 <= i < edges@.len() ==> out@[i] == spec_entry_of(edges@[i]),
{
    let mut out: Vec<CalendarValue> = Vec::new();
    let mut idx: usize = 0;
    while idx < edges.len()
        invariant
            forall|i: int| 0 <= i < edges@.len() ==> edge_bounded(#[trigger] edges@[i]),
            idx <= edges@.len(),
            out@.len() == idx,
            forall|i: int| 0 <= i < idx ==> out@[i] == spec_entry_of(edges@[i]),
        decreases edges@.len() - idx,
    {
        let e = copy_edge(&edges[idx]);
        out.push(CalendarValue {
            title: e.message,
            delta_t: e.delta_t,
            start: e.prev_timestamp + 1,
            end: e.timestamp,
            projected: e.projected,
            author: e.author,
        });
        idx = idx + 1;
    }
    out
}

} // verus!
