use vstd::prelude::*;
use crate::models::strs_view;
use crate::models::undo::{CommitUndoInfo, UndoPlan};

verus! {

/// The status of one path, flag by flag, as git reports it.
#[derive(Clone, Copy, Debug, PartialEq, Eq, Structural)]
pub struct FileStatus {
    pub index_new: bool,
    pub index_modified: bool,
    pub index_deleted: bool,
    pub index_renamed: bool,
    pub index_typechange: bool,
    pub wt_new: bool,
    pub wt_modified: bool,
    pub wt_deleted: bool,
    pub wt_typechange: bool,
    pub ignored: bool,
}

/// One entry of `git status`: its path (when git could name it) and its flags.
#[derive(Clone, Debug)]
pub struct StatusEntry {
    pub path: Option<String>,
    pub status: FileStatus,
}

/// The path has changes in the index.
pub open spec fn is_staged(s: FileStatus) -> bool {
    s.index_new || s.index_modified || s.index_deleted || s.index_renamed || s.index_typechange
}

/// The path has changes in the working tree to a tracked file.
pub open spec fn is_unstaged(s: FileStatus) -> bool {
    s.wt_modified || s.wt_deleted || s.wt_typechange
}

/// The path is new in the working tree.
pub open spec fn is_untracked(s: FileStatus) -> bool {
    s.wt_new
}

/// The path is ignored.
pub open spec fn is_ignored(s: FileStatus) -> bool {
    s.ignored
}

/// The path of an entry, `unknown` when git could not name it.
pub open spec fn entry_path(e: StatusEntry) -> Seq<char> {
    match e.path {
        Some(p) => p@,
        None => "unknown"@,
    }
}

/// The paths of the first `k` entries whose status satisfies `pred`, in order.
pub open spec fn paths_with(entries: Seq<StatusEntry>, pred: spec_fn(FileStatus) -> bool, k: nat) -> Seq<Seq<char>>
    decreases k,
{
    if k == 0 {
        Seq::empty()
    } else {
        let prev = paths_with(entries, pred, (k - 1) as nat);
        if pred(entries[k - 1].status) { prev.push(entry_path(entries[k - 1])) } else { prev }
    }
}

/// The paths of the staged entries, in order.
pub open spec fn staged_paths(entries: Seq<StatusEntry>) -> Seq<Seq<char>> {
    paths_with(entries, |s: FileStatus| is_staged(s), entries.len())
}

/// The paths of the unstaged entries, in order.
pub open spec fn unstaged_paths(entries: Seq<StatusEntry>) -> Seq<Seq<char>> {
    paths_with(entries, |s: FileStatus| is_unstaged(s), entries.len())
}

/// The paths of the untracked entries, in order.
pub open spec fn untracked_paths(entries: Seq<StatusEntry>) -> Seq<Seq<char>> {
    paths_with(entries, |s: FileStatus| is_untracked(s), entries.len())
}

/// The paths of the ignored entries, in order.
pub open spec fn ignored_paths(entries: Seq<StatusEntry>) -> Seq<Seq<char>> {
    paths_with(entries, |s: FileStatus| is_ignored(s), entries.len())
}

impl UndoPlan {
    /// The plan for a repository with the given status entries and HEAD commit: each path is
    /// listed as staged, unstaged, untracked and ignored as its flags say (a path can be in
    /// several lists); no action is chosen yet.
    pub fn from_statuses(entries: &Vec<StatusEntry>, last_commit: Option<CommitUndoInfo>) -> (r: UndoPlan)
        ensures
            strs_view(r.staged_files@) == staged_paths(entries@),
            strs_view(r.unstaged_files@) == unstaged_paths(entries@),
            strs_view(r.untracked_files@) == untracked_paths(entries@),
            strs_view(r.ignored_files@) == ignored_paths(entries@),
            r.last_commit == last_commit,
            r.actions@.len() == 0,
    {
        let ghost st = |s: FileStatus| is_staged(s);
        let ghost un = |s: FileStatus| is_unstaged(s);
        let ghost ut = |s: FileStatus| is_untracked(s);
        let ghost ig = |s: FileStatus| is_ignored(s);
        let mut staged: Vec<String> = Vec::new();
        let mut unstaged: Vec<String> = Vec::new();
        let mut untracked: Vec<String> = Vec::new();
        let mut ignored: Vec<String> = Vec::new();
        let mut i: usize = 0;
        while i < entries.len()
            invariant
                i <= entries@.len(),
                st == (|s: FileStatus| is_staged(s)),
                un == (|s: FileStatus| is_unstaged(s)),
                ut == (|s: FileStatus| is_untracked(s)),
                ig == (|s: FileStatus| is_ignored(s)),
                strs_view(staged@) =~= paths_with(entries@, st, i as nat),
                strs_view(unstaged@) =~= paths_with(entries@, un, i as nat),
                strs_view(untracked@) =~= paths_with(entries@, ut, i as nat),
                strs_view(ignored@) =~= paths_with(entries@, ig, i as nat),
            decreases entries@.len() - i,
        {
            let e = &entries[i];
            let path = match &e.path {
                Some(p) => p.clone(),
                None => "unknown".to_owned(),
            };
            assert(path@ == entry_path(entries@[i as int]));
            let s = e.status;
            assert(st(s) == is_staged(s));
            assert(un(s) == is_unstaged(s));
            assert(ut(s) == is_untracked(s));
            assert(ig(s) == is_ignored(s));
            if s.index_new || s.index_modified || s.index_deleted || s.index_renamed || s.index_typechange {
                staged.push(path.clone());
            }
            if s.wt_modified || s.wt_deleted || s.wt_typechange {
                unstaged.push(path.clone());
            }
            if s.wt_new {
                untracked.push(path.clone());
            }
            if s.ignored {
                ignored.push(path.clone());
            }
            i = i + 1;
        }
        UndoPlan { staged_files: staged, unstaged_files: unstaged, untracked_files: untracked, ignored_files: ignored, last_commit, actions: Vec::new() }
    }
}

/// The HEAD commit as the undo planner sees it: its subject (empty when it has none), and
/// whether it is already pushed, that is, whether its branch has an upstream and is zero commits
/// ahead of it (`ahead` is `None` when that could not be determined).
pub fn last_commit_info(hash: String, summary: Option<String>, ahead: Option<usize>) -> (r: CommitUndoInfo)
    ensures
        r.hash == hash,
        r.subject@ == (match summary { Some(s) => s@, None => ""@ }),
        r.already_pushed == (ahead == Some(0usize)),
{
    let subject = match summary {
        Some(s) => s,
        None => "".to_owned(),
    };
    let already_pushed = match ahead {
        Some(n) => n == 0,
        None => false,
    };
    CommitUndoInfo { hash, subject, already_pushed }
}

/// The paths listed for `pred` are exactly the paths of the entries whose status satisfies it.
pub proof fn lemma_paths_with(entries: Seq<StatusEntry>, pred: spec_fn(FileStatus) -> bool, k: nat)
    requires
        k <= entries.len(),
    ensures
        forall|i: int| 0 <= i < k && pred(#[trigger] entries[i].status) ==> paths_with(entries, pred, k).contains(entry_path(entries[i])),
        forall|p: Seq<char>| #[trigger] paths_with(entries, pred, k).contains(p) ==> exists|i: int|
            0 <= i < k && pred(entries[i].status) && #[trigger] entry_path(entries[i]) == p,
    decreases k,
{
    if k > 0 {
        lemma_paths_with(entries, pred, (k - 1) as nat);
        let prev = paths_with(entries, pred, (k - 1) as nat);
        let r = paths_with(entries, pred, k);
        assert forall|i: int| 0 <= i < k && pred(#[trigger] entries[i].status) implies r.contains(entry_path(entries[i])) by {
            if i < k - 1 {
                let x = choose|x: int| 0 <= x < prev.len() && prev[x] == entry_path(entries[i]);
                assert(r[x] == prev[x]);
            } else {
                assert(r[r.len() - 1] == entry_path(entries[i]));
            }
        }
        assert forall|p: Seq<char>| #[trigger] r.contains(p) implies exists|i: int|
            0 <= i < k && pred(entries[i].status) && #[trigger] entry_path(entries[i]) == p by {
            let x = choose|x: int| 0 <= x < r.len() && r[x] == p;
            if x < prev.len() {
                assert(prev[x] == p);
                assert(prev.contains(p));
            } else {
                assert(entry_path(entries[k - 1]) == p);
            }
        }
    }
}

/// Each list of a plan holds exactly the paths whose flags put them there: staged with any index
/// change (new, modified, deleted, renamed, type change); unstaged with a working-tree change to a
/// tracked file (modified, deleted, type change); untracked when new in the working tree; ignored
/// when ignored.
pub proof fn law_status_lists(entries: Seq<StatusEntry>)
    ensures
        forall|i: int| 0 <= i < entries.len() && ((#[trigger] entries[i]).status.index_new || entries[i].status.index_modified
            || entries[i].status.index_deleted || entries[i].status.index_renamed || entries[i].status.index_typechange)
            ==> staged_paths(entries).contains(entry_path(entries[i])),
        forall|i: int| 0 <= i < entries.len() && ((#[trigger] entries[i]).status.wt_modified || entries[i].status.wt_deleted
            || entries[i].status.wt_typechange)
            ==> unstaged_paths(entries).contains(entry_path(entries[i])),
        forall|i: int| 0 <= i < entries.len() && (#[trigger] entries[i]).status.wt_new
            ==> untracked_paths(entries).contains(entry_path(entries[i])),
        forall|i: int| 0 <= i < entries.len() && (#[trigger] entries[i]).status.ignored
            ==> ignored_paths(entries).contains(entry_path(entries[i])),
        forall|p: Seq<char>| #[trigger] staged_paths(entries).contains(p)
            ==> exists|i: int| 0 <= i < entries.len() && #[trigger] entry_path(entries[i]) == p && (entries[i].status.index_new
                || entries[i].status.index_modified || entries[i].status.index_deleted || entries[i].status.index_renamed
                || entries[i].status.index_typechange),
        forall|p: Seq<char>| #[trigger] unstaged_paths(entries).contains(p)
            ==> exists|i: int| 0 <= i < entries.len() && #[trigger] entry_path(entries[i]) == p && (entries[i].status.wt_modified
                || entries[i].status.wt_deleted || entries[i].status.wt_typechange),
        forall|p: Seq<char>| #[trigger] untracked_paths(entries).contains(p)
            ==> exists|i: int| 0 <= i < entries.len() && #[trigger] entry_path(entries[i]) == p && entries[i].status.wt_new,
        forall|p: Seq<char>| #[trigger] ignored_paths(entries).contains(p)
            ==> exists|i: int| 0 <= i < entries.len() && #[trigger] entry_path(entries[i]) == p && entries[i].status.ignored,
{
    lemma_paths_with(entries, |s: FileStatus| is_staged(s), entries.len());
    lemma_paths_with(entries, |s: FileStatus| is_unstaged(s), entries.len());
    lemma_paths_with(entries, |s: FileStatus| is_untracked(s), entries.len());
    lemma_paths_with(entries, |s: FileStatus| is_ignored(s), entries.len());
}

} // verus!
