use gitx::models::LabelInfo;
use gitx::models::undo::CommitUndoInfo;
use gitx::repo::undo::{last_commit_info, FileStatus, StatusEntry};
use gitx::repo::{branch_names, commit_labels, convert_commit, simplify_parents, BranchRef, CommitFilter, CommitRecord, HeadRef, TagRef};
use gitx::models::undo::UndoPlan;

fn rec(hash: &str, author: &str, summary: &str, parents: usize) -> CommitRecord {
    CommitRecord {
        hash: hash.to_string(),
        author: Some(author.to_string()),
        summary: Some(summary.to_string()),
        parent_count: parents,
        branches: Vec::new(),
    }
}

#[test]
fn test_query_filter() {
    let f = CommitFilter::for_query("Fix");
    assert_eq!(f.limit, 100);
    assert!(f.matches(&rec("aaaa", "Ann", "fix the parser", 1)));
    assert!(f.matches(&rec("aaaa", "FixMaster", "other", 1)));
    assert!(!f.matches(&rec("aaaa", "Ann", "other", 1)));
    let h = CommitFilter::for_query("DEAD");
    assert!(h.matches(&rec("deadbeef", "Ann", "other", 1)));
    assert!(!h.matches(&rec("beefdead", "Ann", "other", 1)));
}

#[test]
fn test_query_matches_branch_name() {
    let f = CommitFilter::for_query("Feature");
    let mut r = rec("abc", "Ann", "other", 1);
    assert!(!f.matches(&r));
    r.branches = vec!["main".to_string(), "origin/my-feature".to_string()];
    assert!(f.matches(&r));
    let g = CommitFilter::for_query("release");
    assert!(!g.matches(&r));
}

#[test]
fn test_branch_names() {
    let branches = vec![
        BranchRef { target: Some("c1".to_string()), name: Some("main".to_string()), is_remote: false },
        BranchRef { target: Some("c2".to_string()), name: Some("dev".to_string()), is_remote: false },
        BranchRef { target: Some("c1".to_string()), name: None, is_remote: true },
    ];
    assert_eq!(branch_names(&"c1".to_string(), &branches), vec!["main".to_string(), "".to_string()]);
    assert!(branch_names(&"c3".to_string(), &branches).is_empty());
}

#[test]
fn test_author_filter_like_timeline() {
    let f = CommitFilter { author: Some("One".to_string()), limit: 50, ..Default::default() };
    assert!(f.matches(&rec("c1", "Author One", "commit one", 0)));
    assert!(!f.matches(&rec("c2", "Author Two", "commit two", 1)));
}

#[test]
fn test_merge_filters() {
    let merges = CommitFilter { only_merges: true, limit: 50, ..Default::default() };
    let no_merges = CommitFilter { no_merges: true, limit: 50, ..Default::default() };
    let merge = rec("m", "A", "merge commit", 2);
    let branch = rec("b", "A", "branch commit", 1);
    assert!(merges.matches(&merge));
    assert!(!merges.matches(&branch));
    assert!(!no_merges.matches(&merge));
    assert!(no_merges.matches(&branch));
}

#[test]
fn test_message_filter_and_missing_summary() {
    let f = CommitFilter { message: Some("".to_string()), limit: 5, ..Default::default() };
    let mut r = rec("x", "A", "", 1);
    r.summary = None;
    assert!(f.matches(&r));
    let g = CommitFilter { message: Some("x".to_string()), limit: 5, ..Default::default() };
    assert!(!g.matches(&r));
}

#[test]
fn test_accept_step_limit() {
    let f = CommitFilter { limit: 3, ..Default::default() };
    let mut matched = Vec::new();
    let mut stops = Vec::new();
    for i in 0..5 {
        let stop = f.accept_step(&mut matched, &rec(&format!("msg {}", i), "A", "s", 1));
        stops.push(stop);
        if stop {
            break;
        }
    }
    assert_eq!(matched, vec!["msg 0", "msg 1", "msg 2"]);
    assert_eq!(stops, vec![false, false, true]);
    // a limit of zero keeps nothing and stops at once
    let z = CommitFilter { limit: 0, ..Default::default() };
    let mut m2 = Vec::new();
    assert!(z.accept_step(&mut m2, &rec("a", "A", "s", 1)));
    assert!(m2.is_empty());
    // once the limit is reached nothing more is kept
    assert!(f.accept_step(&mut matched, &rec("msg 9", "A", "s", 1)));
    assert_eq!(matched.len(), 3);
}

#[test]
fn test_simplify_parents() {
    let found = vec![Some("a".to_string()), None, Some("b".to_string()), Some("a".to_string())];
    assert_eq!(simplify_parents(&found), vec!["a", "b"]);
    assert!(simplify_parents(&vec![None, None]).is_empty());
}

#[test]
fn test_commit_labels() {
    let oid = "c0ffee".to_string();
    let head = Some(HeadRef { target: Some("c0ffee".to_string()), shorthand: Some("main".to_string()) });
    let branches = vec![
        BranchRef { target: Some("c0ffee".to_string()), name: Some("main".to_string()), is_remote: false },
        BranchRef { target: Some("other".to_string()), name: Some("dev".to_string()), is_remote: false },
        BranchRef { target: Some("c0ffee".to_string()), name: Some("origin/main".to_string()), is_remote: true },
    ];
    let tags = vec![
        TagRef { id: "c0ffee".to_string(), name: Some("refs/tags/v1".to_string()) },
        TagRef { id: "beef".to_string(), name: Some("refs/tags/v0".to_string()) },
    ];
    let labels = commit_labels(&oid, &head, &branches, &tags);
    let names: Vec<String> = labels
        .iter()
        .map(|l| match l {
            LabelInfo::Head(n) => format!("H:{}", n),
            LabelInfo::LocalBranch(n) => format!("L:{}", n),
            LabelInfo::RemoteBranch(n) => format!("R:{}", n),
            LabelInfo::Tag(n) => format!("T:{}", n),
        })
        .collect();
    assert_eq!(names, vec!["H:main", "L:main", "R:origin/main", "T:v1"]);
    let no_short = Some(HeadRef { target: Some("c0ffee".to_string()), shorthand: None });
    let l2 = commit_labels(&oid, &no_short, &vec![], &vec![]);
    assert!(matches!(&l2[0], LabelInfo::Head(n) if n == "HEAD"));
}

#[test]
fn test_convert_commit_defaults() {
    let c = convert_commit("h".to_string(), None, 5, None, Some("b".to_string()), vec![], vec!["p".to_string()]);
    assert_eq!(c.author, "Unknown");
    assert_eq!(c.subject, "");
    assert_eq!(c.date, 5);
    assert_eq!(c.parents, vec!["p"]);
}

fn status(index_new: bool, wt_modified: bool, wt_new: bool) -> FileStatus {
    FileStatus {
        index_new,
        index_modified: false,
        index_deleted: false,
        index_renamed: false,
        index_typechange: false,
        wt_new,
        wt_modified,
        wt_deleted: false,
        wt_typechange: false,
        ignored: false,
    }
}

#[test]
fn test_plan_from_statuses() {
    let entries = vec![
        StatusEntry { path: Some("a.rs".to_string()), status: status(true, true, false) },
        StatusEntry { path: Some("b.rs".to_string()), status: status(false, false, true) },
        StatusEntry { path: None, status: status(false, true, false) },
        StatusEntry { path: Some("out/".to_string()), status: FileStatus { ignored: true, ..status(false, false, false) } },
    ];
    let plan = UndoPlan::from_statuses(&entries, None);
    assert_eq!(plan.staged_files, vec!["a.rs"]);
    assert_eq!(plan.unstaged_files, vec!["a.rs", "unknown"]);
    assert_eq!(plan.untracked_files, vec!["b.rs"]);
    assert_eq!(plan.ignored_files, vec!["out/"]);
    assert!(plan.actions.is_empty());
}

#[test]
fn test_last_commit_info() {
    let i: CommitUndoInfo = last_commit_info("h".to_string(), None, Some(0));
    assert!(i.already_pushed);
    assert_eq!(i.subject, "");
    assert!(!last_commit_info("h".to_string(), Some("s".to_string()), Some(2)).already_pushed);
    assert!(!last_commit_info("h".to_string(), Some("s".to_string()), None).already_pushed);
}
