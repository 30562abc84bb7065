//! The ancestry walk, the session splitter, and the full pipeline.

use vstd::prelude::*;

use crate::aliases::Timestamp;
use crate::calendar::{build_calendar, spec_entry_of, CalendarValue};
use crate::errors::GraphAccessError;
use crate::git::{
    commit_info, commit_parent_ids, copy_edge, diff_totals, edge_bounded, edge_raw,
    get_head_commit, trim_text, CommitData, TS_BOUND,
};
use crate::prediction::{
    model_insert, spec_predict, stats_for, PredictionAttributes, PredictionModel,
    PredictionStructure,
};

verus! {

/// Result type for methods which update an external source and can fail.
/// This should generally be used when your function signature looks something
/// like `fn foo(self) -> UpdateResult<T, T>`, with the idea that you want the
/// borrow checker to invalidate your input.
#[derive(Copy, Clone, Debug)]
pub enum UpdateResult<T, E> {
    /// The ok variant, meaning your method did what you would like it to.
    Accepted(T),
    /// The error variant, meaning your method failed to complete successfully
    /// and the result is a fallback value.
    Rejected(E),
}

impl<T, E> UpdateResult<T, E> {
    /// Method for checking if the value is `Ok`
    pub fn is_ok(&self) -> (r: bool)
        ensures
            r == (self is Accepted),
    {
        matches!(*self, Self::Accepted(_))
    }

    /// Method for checking if the value is `Err`
    pub fn is_err(&self) -> (r: bool)
        ensures
            r == (self is Rejected),
    {
        matches!(*self, Self::Rejected(_))
    }

    /// Method for casting the `Ok` value to the `Option::Some()`
    pub fn ok(self) -> (r: Option<T>)
        ensures
            self matches Self::Accepted(v) ==> r == Some(v),
            self is Rejected ==> r is None,
    {
        match self {
            Self::Accepted(v) => Some(v),
            Self::Rejected(_) => None,
        }
    }

    /// Method for casting the `Err` value to the `Option::Some()`
    pub fn err(self) -> (r: Option<E>)
        ensures
            self matches Self::Rejected(v) ==> r == Some(v),
            self is Accepted ==> r is None,
    {
        match self {
            Self::Accepted(_) => None,
            Self::Rejected(v) => Some(v),
        }
    }

    /// Method for casting an option into `Self`
    pub fn from_option(ok_value: Option<T>, err_value: E) -> (r: Self)
        ensures
            ok_value matches Some(v) ==> r == Self::Accepted(v),
            ok_value is None ==> r == Self::Rejected(err_value),
    {
        match ok_value {
            Some(v) => Self::Accepted(v),
            None => Self::Rejected(err_value),
        }
    }
}

impl<T> UpdateResult<T, T> {
    /// Method for returning the inner value regardless if the value is `Ok`
    /// or `Err`
    pub fn indifferent(self) -> (r: T)
        ensures
            self matches Self::Accepted(v) ==> r == v,
            self matches Self::Rejected(v) ==> r == v,
    {
        match self {
            Self::Accepted(v) => v,
            Self::Rejected(v) => v,
        }
    }
}

/// Most commits the walk is willing to visit in one run.
pub const WALK_LIMIT: u64 = 0x4000_0000_0000;

/// Whether some element of `ids` reads as `x`.
pub open spec fn id_listed(ids: Seq<String>, x: Seq<char>) -> bool {
    exists|j: int| 0 <= j < ids.len() && #[trigger] ids[j]@ == x
}

/// No commit identifier produces more than one edge.
pub open spec fn distinct_edge_ids(edges: Seq<CommitData>) -> bool {
    forall|i: int, j: int|
        #![trigger edges[i].commit_id, edges[j].commit_id]
        0 <= i < j < edges.len() ==> edges[i].commit_id@ != edges[j].commit_id@
}

/// Every edge is shaped as the walker produces it.
pub open spec fn all_edges_raw(edges: Seq<CommitData>) -> bool {
    forall|i: int| 0 <= i < edges.len()
        ==> edge_raw(#[trigger] edges[i]) && edge_bounded(edges[i])
}

/// The observations one edge offers to the prediction model, in the order
/// they are recorded and consulted.
pub open spec fn spec_obs(e: CommitData) -> Seq<(PredictionAttributes, i32)> {
    seq![
        (PredictionAttributes::FilesChanged, e.files_changed),
        (PredictionAttributes::LinesAdded, e.lines_added),
        (PredictionAttributes::LinesRemoved, e.lines_removed),
    ]
}

/// The statistics state after offering one edge for training: edges whose
/// elapsed time stays under the threshold train every metric kind; boundary
/// edges train nothing.
pub open spec fn train_edge(m: PredictionModel, e: CommitData, t: int) -> PredictionModel {
    if e.delta_t < t {
        model_insert(
            model_insert(
                model_insert(
                    m,
                    PredictionAttributes::FilesChanged,
                    e.files_changed as int,
                    e.delta_t as int,
                ),
                PredictionAttributes::LinesAdded,
                e.lines_added as int,
                e.delta_t as int,
            ),
            PredictionAttributes::LinesRemoved,
            e.lines_removed as int,
            e.delta_t as int,
        )
    } else {
        m
    }
}

/// The statistics state after offering every edge, in order, for training.
pub open spec fn train_all(edges: Seq<CommitData>, t: int) -> PredictionModel
    decreases edges.len(),
{
    if edges.len() == 0 {
        PredictionModel::empty()
    } else {
        train_edge(train_all(edges.drop_last(), t), edges.last(), t)
    }
}

/// Training on a list of edges records at most one observation per edge for
/// each metric kind.
pub proof fn lemma_train_counts(edges: Seq<CommitData>, t: int, key: PredictionAttributes)
    ensures
        stats_for(train_all(edges, t), key).count <= edges.len(),
    decreases edges.len(),
{
    if edges.len() > 0 {
        lemma_train_counts(edges.drop_last(), t, key);
    }
}

/// Law: trained only from edges whose change metrics are nonnegative, the
/// minimum of every kind never moves away from its (0, 0) seed, so the lower
/// clamp of every projection from such training stays zero.
pub proof fn lemma_min_never_reseeds(edges: Seq<CommitData>, t: int, key: PredictionAttributes)
    requires
        forall|i: int| 0 <= i < edges.len() ==> edge_raw(#[trigger] edges[i]),
    ensures
        stats_for(train_all(edges, t), key).min_value == 0,
        stats_for(train_all(edges, t), key).min_time == 0,
    decreases edges.len(),
{
    if edges.len() > 0 {
        assert(forall|i: int| 0 <= i < edges.drop_last().len()
            ==> edges.drop_last()[i] == edges[i]);
        lemma_min_never_reseeds(edges.drop_last(), t, key);
        assert(edge_raw(edges[edges.len() - 1]));
    }
}

/// An edge after the session split: an edge at or over the threshold, for
/// which the trained statistics can produce a prediction, has its timing
/// replaced by that prediction and is marked projected; every other edge is
/// left exactly as it was.
pub open spec fn spec_split_edge(e: CommitData, m: PredictionModel, t: int) -> CommitData {
    let p = spec_predict(m, spec_obs(e));
    if e.delta_t >= t && p is Some {
        CommitData {
            commit_id: e.commit_id,
            message: e.message,
            author: e.author,
            timestamp: e.timestamp,
            prev_timestamp: (e.timestamp - p.unwrap()) as i64,
            delta_t: p.unwrap() as i64,
            files_changed: e.files_changed,
            lines_added: e.lines_added,
            lines_removed: e.lines_removed,
            projected: true,
        }
    } else {
        e
    }
}

/// The calendar records that a list of edges maps to, after the split pass
/// against the statistics `m`.
pub open spec fn spec_calendar(edges: Seq<CommitData>, m: PredictionModel, t: int) -> Seq<
    CalendarValue,
> {
    edges.map_values(|e: CommitData| spec_entry_of(spec_split_edge(e, m, t)))
}

/// What a successful full computation returns: the calendar built from some
/// deduplicated, well-shaped edge list and the statistics trained from it.
pub open spec fn pipeline_post(out: Seq<CalendarValue>, edges: Seq<CommitData>, t: int) -> bool {
    &&& distinct_edge_ids(edges)
    &&& all_edges_raw(edges)
    &&& out == spec_calendar(edges, train_all(edges, t), t)
}

/// Whether `out` is the calendar of some deduplicated, well-shaped edge list
/// under the threshold `t`.
pub open spec fn calendar_valid(out: Seq<CalendarValue>, t: int) -> bool {
    exists|edges: Seq<CommitData>| #[trigger] pipeline_post(out, edges, t)
}

/// Law: an edge is marked projected by the split exactly when its raw
/// elapsed time reached the threshold and the trained statistics could
/// produce a prediction for its metrics; in the fallback case (no usable
/// training data) it stays unprojected and unchanged.
pub proof fn lemma_projection_boundary(e: CommitData, m: PredictionModel, t: int)
    requires
        !e.projected,
    ensures
        spec_split_edge(e, m, t).projected <==> (e.delta_t >= t && spec_predict(m, spec_obs(e))
            is Some),
        spec_entry_of(spec_split_edge(e, m, t)).projected == spec_split_edge(e, m, t).projected,
{
}

/// Law: a run of edges that never reaches the threshold is emitted
/// unchanged, every entry of it unprojected.
pub proof fn lemma_trailing_run_unprojected(edges: Seq<CommitData>, m: PredictionModel, t: int)
    requires
        forall|i: int| 0 <= i < edges.len()
            ==> (#[trigger] edges[i]).delta_t < t && !edges[i].projected,
    ensures
        forall|i: int| 0 <= i < edges.len()
            ==> spec_split_edge(#[trigger] edges[i], m, t) == edges[i],
        forall|i: int| 0 <= i < edges.len()
            ==> !spec_split_edge(#[trigger] edges[i], m, t).projected,
{
}

/// Law: the split and build stages are functions of the edge list, the
/// trained statistics and the threshold alone, so any two results their
/// contracts admit for the same inputs are equal.
pub proof fn lemma_calendar_deterministic(
    edges: Seq<CommitData>,
    m: PredictionModel,
    t: int,
    out1: Seq<CalendarValue>,
    out2: Seq<CalendarValue>,
)
    requires
        out1 == spec_calendar(edges, m, t),
        out2 == spec_calendar(edges, m, t),
    ensures
        out1 == out2,
{
}

/// Whether `ids` already holds `id`.
fn contains_id(ids: &Vec<String>, id: &String) -> (r: bool)
    ensures
        r == id_listed(ids@, id@),
{
    let mut i: usize = 0;
    while i < ids.len()
        invariant
            i <= ids@.len(),
            forall|j: int| 0 <= j < i ==> #[trigger] ids@[j]@ != id@,
        decreases ids@.len() - i,
    {
        if ids[i] == *id {
            assert(0 <= i < ids@.len() && ids@[i as int]@ == id@);
            return true;
        }
        i = i + 1;
    }
    false
}

/// Converts a diff total to the metric type, saturating at the type's
/// maximum so that oversized diffs stay representable.
fn clamp_metric(n: usize) -> (r: i32)
    ensures
        0 <= r,
        r as int == (if n as int > 0x7fff_ffff { 0x7fff_ffff as int } else { n as int }),
{
    if n > 0x7fff_ffff {
        0x7fff_ffff
    } else {
        n as i32
    }
}

/// Walks the ancestry graph from `head_id`, visiting every reachable commit
/// exactly once, and produces one edge per visited non-root commit, diffed
/// against its mainline parent, while training the statistics from every
/// edge whose elapsed time stays under `time_allowed`.
pub fn search_trees(
    repo: &git2::Repository,
    head_id: String,
    time_allowed: Timestamp,
) -> (r: Result<(Vec<CommitData>, PredictionStructure), GraphAccessError>)
    ensures
        r matches Ok(pair) ==> {
            &&& distinct_edge_ids(pair.0@)
            &&& all_edges_raw(pair.0@)
            &&& pair.1@ == train_all(pair.0@, time_allowed as int)
            &&& pair.1@.wf()
        },
{
    let mut edges: Vec<CommitData> = Vec::new();
    let mut prediction = PredictionStructure::new();
    let mut searched_commits: Vec<String> = Vec::new();
    let mut stack: Vec<String> = Vec::new();
    stack.push(head_id);
    let mut steps: u64 = 0;
    while stack.len() > 0
        invariant
            steps <= WALK_LIMIT,
            edges@.len() <= steps,
            prediction@.wf(),
            prediction@ == train_all(edges@, time_allowed as int),
            all_edges_raw(edges@),
            distinct_edge_ids(edges@),
            forall|k: int| 0 <= k < edges@.len()
                ==> id_listed(searched_commits@, (#[trigger] edges@[k]).commit_id@),
        decreases WALK_LIMIT - steps,
    {
        if steps >= WALK_LIMIT {
            return Err(GraphAccessError::HistoryTooLarge);
        }
        steps = steps + 1;
        let current: String = stack.pop().unwrap();

        // Attempt-insert into the visited set; a commit already present is
        // never reprocessed, whatever path led here.
        if contains_id(&searched_commits, &current) {
            continue;
        }
        let ghost pre_searched = searched_commits@;
        searched_commits.push(current.clone());
        proof {
            assert(searched_commits@[pre_searched.len() as int]@ == current@);
            assert forall|k: int| 0 <= k < edges@.len()
                implies id_listed(searched_commits@, (#[trigger] edges@[k]).commit_id@) by {
                let j = choose|j: int|
                    0 <= j < pre_searched.len() && #[trigger] pre_searched[j]@
                        == edges@[k].commit_id@;
                assert(searched_commits@[j]@ == edges@[k].commit_id@);
            }
        }

        let parents = match commit_parent_ids(repo, &current) {
            Some(p) => p,
            None => {
                return Err(GraphAccessError::Commit(current));
            },
        };
        // A commit with zero parents terminates its path and produces no edge.
        if parents.len() == 0 {
            continue;
        }

        let info = match commit_info(repo, &current) {
            Some(v) => v,
            None => {
                return Err(GraphAccessError::Commit(current));
            },
        };
        // The diff and the timing are taken against parent index 0 only, the
        // mainline parent.
        let parent_info = match commit_info(repo, &parents[0]) {
            Some(v) => v,
            None => {
                return Err(GraphAccessError::Commit(parents[0].clone()));
            },
        };
        if info.timestamp > TS_BOUND || info.timestamp < -TS_BOUND {
            return Err(GraphAccessError::TimestampOutOfRange(current));
        }
        if parent_info.timestamp > TS_BOUND || parent_info.timestamp < -TS_BOUND {
            return Err(GraphAccessError::TimestampOutOfRange(parents[0].clone()));
        }
        let totals = match diff_totals(repo, &parents[0], &current) {
            Some(v) => v,
            None => {
                return Err(GraphAccessError::Diff(current));
            },
        };

        let files_changed: i32 = clamp_metric(totals.files_changed);
        let lines_added: i32 = clamp_metric(totals.insertions);
        let lines_removed: i32 = clamp_metric(totals.deletions);
        let timestamp: Timestamp = info.timestamp;
        let prev_timestamp: Timestamp = parent_info.timestamp;
        let delta_t: Timestamp = timestamp - prev_timestamp;
        let title: String = match info.message {
            Some(m) => trim_text(&m),
            None => "MESSAGE_NOT_FOUND".to_owned(),
        };

        let ghost old_edges = edges@;
        let ghost old_model = prediction@;
        let edge = CommitData {
            commit_id: current.clone(),
            message: title,
            author: info.author,
            timestamp,
            prev_timestamp,
            delta_t,
            files_changed,
            lines_added,
            lines_removed,
            projected: false,
        };
        edges.push(edge);
        proof {
            assert(edges@.drop_last() =~= old_edges);
            assert(edges@.last().commit_id@ == current@);
            assert(id_listed(searched_commits@, edges@.last().commit_id@));
            assert(!id_listed(pre_searched, current@));
            assert forall|k: int| 0 <= k < old_edges.len()
                implies (#[trigger] old_edges[k]).commit_id@ != current@ by {
                let j = choose|j: int|
                    0 <= j < pre_searched.len() && #[trigger] pre_searched[j]@
                        == old_edges[k].commit_id@;
                assert(pre_searched[j]@ == old_edges[k].commit_id@);
            }
        }

        // Gap edges are excluded from training, so the model is fitted only
        // from transitions it can trust.
        if delta_t < time_allowed {
            proof {
                lemma_train_counts(old_edges, time_allowed as int, PredictionAttributes::FilesChanged);
                lemma_train_counts(old_edges, time_allowed as int, PredictionAttributes::LinesAdded);
                lemma_train_counts(old_edges, time_allowed as int, PredictionAttributes::LinesRemoved);
            }
            prediction.insert_item(PredictionAttributes::FilesChanged, files_changed, delta_t);
            prediction.insert_item(PredictionAttributes::LinesAdded, lines_added, delta_t);
            prediction.insert_item(PredictionAttributes::LinesRemoved, lines_removed, delta_t);
        }

        // Recursion continues into every parent, the mainline parent first,
        // so the full reachable history is still visited exactly once each.
        let mut pi: usize = parents.len();
        while pi > 0
            invariant
                pi <= parents@.len(),
            decreases pi,
        {
            pi = pi - 1;
            stack.push(parents[pi].clone());
        }
    }
    Ok((edges, prediction))
}

/// Partitions the edges into maximal runs at gap boundaries and replaces
/// each boundary edge's timing with the model's prediction; non-boundary
/// edges, and boundary edges for which no kind has usable training data,
/// are passed through unchanged.
pub fn split_sessions(
    edges: &Vec<CommitData>,
    prediction: &PredictionStructure,
    time_allowed: Timestamp,
) -> (out: Vec<CommitData>)
    requires
        prediction@.wf(),
        forall|i: int| 0 <= i < edges@.len() ==> edge_bounded(#[trigger] edges@[i]),
    ensures
        out@.len() == edges@.len(),
        forall|i: int| 0 <= i < edges@.len()
            ==> out@[i] == spec_split_edge(edges@[i], prediction@, time_allowed as int),
        forall|i: int| 0 <= i < out@.len() ==> edge_bounded(#[trigger] out@[i]),
{
    let mut out: Vec<CommitData> = Vec::new();
    let mut idx: usize = 0;
    while idx < edges.len()
        invariant
            prediction@.wf(),
            forall|i: int| 0 <= i < edges@.len() ==> edge_bounded(#[trigger] edges@[i]),
            idx <= edges@.len(),
            out@.len() == idx,
            forall|i: int| 0 <= i < idx
                ==> out@[i] == spec_split_edge(edges@[i], prediction@, time_allowed as int),
            forall|i: int| 0 <= i < out@.len() ==> edge_bounded(#[trigger] out@[i]),
        decreases edges@.len() - idx,
    {
        let e = copy_edge(&edges[idx]);
        if e.delta_t >= time_allowed {
            let mut obs: Vec<(PredictionAttributes, i32)> = Vec::new();
            obs.push((PredictionAttributes::FilesChanged, e.files_changed));
            obs.push((PredictionAttributes::LinesAdded, e.lines_added));
            obs.push((PredictionAttributes::LinesRemoved, e.lines_removed));
            proof {
                assert(obs@ =~= spec_obs(e));
            }
            match prediction.predict(&obs) {
                Some(p) => {
                    out.push(CommitData {
                        prev_timestamp: e.timestamp - p,
                        delta_t: p,
                        projected: true,
                        ..e
                    });
                },
                None => {
                    out.push(e);
                },
            }
        } else {
            out.push(e);
        }
        idx = idx + 1;
    }
    out
}

/// Computes the calendar for the history reachable from the repository's
/// head: walks the ancestry once, trains the statistics from trusted
/// transitions, rewrites boundary edges with predictions, and maps every
/// edge to its record.  `time_allowed` is the inactivity threshold, in
/// seconds, that defines a session boundary.
pub fn calculate_data(repo: &git2::Repository, time_allowed: Timestamp) -> (r: Result<
    Vec<CalendarValue>,
    GraphAccessError,
>)
    ensures
        r matches Ok(out) ==> calendar_valid(out@, time_allowed as int),
{
    let head = match get_head_commit(repo) {
        Some(h) => h,
        None => {
            return Err(GraphAccessError::Head);
        },
    };
    let (edges, prediction) = match search_trees(repo, head, time_allowed) {
        Ok(pair) => pair,
        Err(e) => {
            return Err(e);
        },
    };
    let rewritten = split_sessions(&edges, &prediction, time_allowed);
    let out = build_calendar(rewritten);
    proof {
        let m = train_all(edges@, time_allowed as int);
        assert(prediction@ == m);
        assert forall|i: int| 0 <= i < edges@.len()
            implies out@[i] == spec_entry_of(
            spec_split_edge(#[trigger] edges@[i], m, time_allowed as int),
        ) by {}
        assert(out@ =~= spec_calendar(edges@, m, time_allowed as int));
        assert(pipeline_post(out@, edges@, time_allowed as int));
        assert(calendar_valid(out@, time_allowed as int));
    }
    Ok(out)
}

} // verus!
