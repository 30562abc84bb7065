use git_stats_web::calendar::build_calendar;
use git_stats_web::errors::GraphAccessError;
use git_stats_web::git::CommitData;
use git_stats_web::prediction::{PredictionAttributes, PredictionStructure};
use git_stats_web::utils::{calculate_data, search_trees, split_sessions};

fn plain_edge(id: &str, prev: i64, end: i64) -> CommitData {
    CommitData {
        commit_id: id.to_string(),
        message: format!("commit {id}"),
        author: "Test Author <author@example.com>".to_string(),
        timestamp: end,
        prev_timestamp: prev,
        delta_t: end - prev,
        files_changed: 2,
        lines_added: 5,
        lines_removed: 0,
        projected: false,
    }
}

/// Creates one commit whose single file holds `content`, authored and
/// committed at `secs` since the epoch.
fn add_commit(
    repo: &git2::Repository,
    msg: &str,
    secs: i64,
    content: &str,
    parents: &[git2::Oid],
) -> git2::Oid {
    let time = git2::Time::new(secs, 0);
    let sig = git2::Signature::new("Test Author", "author@example.com", &time).unwrap();
    let blob = repo.blob(content.as_bytes()).unwrap();
    let mut builder = repo.treebuilder(None).unwrap();
    builder.insert("notes.txt", blob, 0o100644).unwrap();
    let tree_id = builder.write().unwrap();
    let tree = repo.find_tree(tree_id).unwrap();
    let parent_commits: Vec<git2::Commit> =
        parents.iter().map(|o| repo.find_commit(*o).unwrap()).collect();
    let parent_refs: Vec<&git2::Commit> = parent_commits.iter().collect();
    repo.commit(None, &sig, &sig, msg, &tree, &parent_refs).unwrap()
}

fn set_head(repo: &git2::Repository, oid: git2::Oid) {
    repo.reference("refs/heads/master", oid, true, "test head").unwrap();
    repo.set_head("refs/heads/master").unwrap();
}

#[test]
fn diamond_history_produces_each_commit_once() {
    let dir = tempfile::tempdir().unwrap();
    let repo = git2::Repository::init_bare(dir.path()).unwrap();
    let a = add_commit(&repo, "a", 0, "a\n", &[]);
    let b = add_commit(&repo, "b", 100, "b\n", &[a]);
    let c = add_commit(&repo, "c", 200, "c\n", &[a]);
    let d = add_commit(&repo, "d", 300, "d\n", &[b, c]);
    let (edges, _stats) = search_trees(&repo, d.to_string(), 5000).unwrap();
    // Exactly one edge per non-root commit, never a fourth from revisiting
    // the shared ancestor.
    assert_eq!(edges.len(), 3);
    assert_eq!(edges[0].commit_id, d.to_string());
    assert_eq!(edges[1].commit_id, b.to_string());
    assert_eq!(edges[2].commit_id, c.to_string());
}

#[test]
fn computation_is_idempotent() {
    let dir = tempfile::tempdir().unwrap();
    let repo = git2::Repository::init_bare(dir.path()).unwrap();
    let a = add_commit(&repo, "a", 0, "a\n", &[]);
    let b = add_commit(&repo, "b", 1000, "b\n", &[a]);
    let c = add_commit(&repo, "c", 2000, "c\n", &[b]);
    let d = add_commit(&repo, "d", 102000, "d\n", &[c]);
    set_head(&repo, d);
    let first = calculate_data(&repo, 5000).unwrap();
    let second = calculate_data(&repo, 5000).unwrap();
    assert_eq!(format!("{:?}", first), format!("{:?}", second));
}

#[test]
fn pure_stages_are_deterministic_on_equal_edges() {
    let dir = tempfile::tempdir().unwrap();
    let repo = git2::Repository::init_bare(dir.path()).unwrap();
    let a = add_commit(&repo, "a", 0, "a\n", &[]);
    let b = add_commit(&repo, "b", 1000, "b\n", &[a]);
    let c = add_commit(&repo, "c", 90000, "c\n", &[b]);
    let (edges1, stats1) = search_trees(&repo, c.to_string(), 5000).unwrap();
    let (edges2, stats2) = search_trees(&repo, c.to_string(), 5000).unwrap();
    let out1 = build_calendar(split_sessions(&edges1, &stats1, 5000));
    let out2 = build_calendar(split_sessions(&edges2, &stats2, 5000));
    assert_eq!(format!("{:?}", out1), format!("{:?}", out2));
}

#[test]
fn boundary_edge_is_projected_with_the_trained_ratio() {
    let dir = tempfile::tempdir().unwrap();
    let repo = git2::Repository::init_bare(dir.path()).unwrap();
    let a = add_commit(&repo, "a", 0, "a\n", &[]);
    let b = add_commit(&repo, "b", 1000, "b\n", &[a]);
    let c = add_commit(&repo, "c", 2000, "c\n", &[b]);
    let d = add_commit(&repo, "d", 102000, "d\n", &[c]);
    set_head(&repo, d);
    let out = calculate_data(&repo, 5000).unwrap();
    assert_eq!(out.len(), 3);
    // Edges come out newest first: d, c, b.  Only d's transition reaches the
    // threshold.  Every one-file change trains each kind with value 1 and
    // time 1000, so each kind projects 1 * (2000 / 2) = 1000 and the mean is
    // 1000.
    assert_eq!(out[0].title, "d");
    assert_eq!(out[0].projected, true);
    assert_eq!(out[0].delta_t, 1000);
    assert_eq!(out[0].end, 102000);
    assert_eq!(out[0].start, 101001);
    // The non-boundary entries keep their raw timing.
    assert_eq!(out[1].projected, false);
    assert_eq!(out[1].delta_t, 1000);
    assert_eq!(out[1].start, 1001);
    assert_eq!(out[1].end, 2000);
    assert_eq!(out[2].projected, false);
    assert_eq!(out[2].delta_t, 1000);
    assert_eq!(out[2].start, 1);
    assert_eq!(out[2].end, 1000);
}

#[test]
fn run_without_boundary_stays_unprojected() {
    let dir = tempfile::tempdir().unwrap();
    let repo = git2::Repository::init_bare(dir.path()).unwrap();
    let a = add_commit(&repo, "a", 0, "a\n", &[]);
    let b = add_commit(&repo, "b", 600, "b\n", &[a]);
    let c = add_commit(&repo, "c", 1500, "c\n", &[b]);
    set_head(&repo, c);
    let out = calculate_data(&repo, 5000).unwrap();
    assert_eq!(out.len(), 2);
    for entry in &out {
        assert_eq!(entry.projected, false);
    }
    assert_eq!(out[0].delta_t, 900);
    assert_eq!(out[1].delta_t, 600);
}

#[test]
fn gap_before_any_training_falls_back_to_raw_timing() {
    let dir = tempfile::tempdir().unwrap();
    let repo = git2::Repository::init_bare(dir.path()).unwrap();
    let a = add_commit(&repo, "a", 0, "a\n", &[]);
    let b = add_commit(&repo, "b", 90000, "b\n", &[a]);
    set_head(&repo, b);
    // The only edge is a gap, so no trusted edge ever trained the model;
    // the entry keeps its raw elapsed time and stays unprojected.
    let out = calculate_data(&repo, 5000).unwrap();
    assert_eq!(out.len(), 1);
    assert_eq!(out[0].projected, false);
    assert_eq!(out[0].delta_t, 90000);
    assert_eq!(out[0].start, 1);
    assert_eq!(out[0].end, 90000);
}

#[test]
fn titles_are_trimmed() {
    let dir = tempfile::tempdir().unwrap();
    let repo = git2::Repository::init_bare(dir.path()).unwrap();
    let a = add_commit(&repo, "a", 0, "a\n", &[]);
    let b = add_commit(&repo, "  spaced message \n", 600, "b\n", &[a]);
    set_head(&repo, b);
    let out = calculate_data(&repo, 5000).unwrap();
    assert_eq!(out.len(), 1);
    assert_eq!(out[0].title, "spaced message");
}

#[test]
fn single_root_yields_empty_calendar() {
    let dir = tempfile::tempdir().unwrap();
    let repo = git2::Repository::init_bare(dir.path()).unwrap();
    let a = add_commit(&repo, "a", 0, "a\n", &[]);
    set_head(&repo, a);
    let out = calculate_data(&repo, 5000).unwrap();
    assert_eq!(out.len(), 0);
}

#[test]
fn empty_repository_reports_head_error() {
    let dir = tempfile::tempdir().unwrap();
    let repo = git2::Repository::init_bare(dir.path()).unwrap();
    let res = calculate_data(&repo, 5000);
    assert!(matches!(res, Err(GraphAccessError::Head)));
}

#[test]
fn unknown_commit_reports_commit_error() {
    let dir = tempfile::tempdir().unwrap();
    let repo = git2::Repository::init_bare(dir.path()).unwrap();
    add_commit(&repo, "a", 0, "a\n", &[]);
    let bogus = "0123456789abcdef0123456789abcdef01234567".to_string();
    let res = search_trees(&repo, bogus, 5000);
    assert!(matches!(res, Err(GraphAccessError::Commit(_))));
}

#[test]
fn splitter_rewrites_only_the_boundary_edge() {
    let mut stats = PredictionStructure::new();
    stats.insert_item(PredictionAttributes::LinesAdded, 5, 1000);
    let edges = vec![
        plain_edge("gap", 0, 100000),
        plain_edge("small", 99000, 100000),
    ];
    let out = split_sessions(&edges, &stats, 5000);
    assert_eq!(out.len(), 2);
    // Only LinesAdded is trained: 5 * (1000 / 5) = 1000, within [0, 1000].
    assert_eq!(out[0].projected, true);
    assert_eq!(out[0].delta_t, 1000);
    assert_eq!(out[0].prev_timestamp, 99000);
    assert_eq!(out[0].timestamp, 100000);
    assert_eq!(out[0].commit_id, "gap");
    // The edge under the threshold is passed through untouched.
    assert_eq!(out[1].projected, false);
    assert_eq!(out[1].delta_t, 1000);
    assert_eq!(out[1].prev_timestamp, 99000);
}

#[test]
fn builder_offsets_the_start_by_one() {
    let edges = vec![plain_edge("only", 10, 500)];
    let out = build_calendar(edges);
    assert_eq!(out.len(), 1);
    assert_eq!(out[0].title, "commit only");
    assert_eq!(out[0].start, 11);
    assert_eq!(out[0].end, 500);
    assert_eq!(out[0].delta_t, 490);
    assert_eq!(out[0].projected, false);
    assert_eq!(out[0].author, "Test Author <author@example.com>");
}

#[test]
fn author_signature_is_carried_through() {
    let dir = tempfile::tempdir().unwrap();
    let repo = git2::Repository::init_bare(dir.path()).unwrap();
    let a = add_commit(&repo, "a", 0, "a\n", &[]);
    let b = add_commit(&repo, "b", 600, "b\n", &[a]);
    set_head(&repo, b);
    let out = calculate_data(&repo, 5000).unwrap();
    assert_eq!(out[0].author, "Test Author <author@example.com>");
}
