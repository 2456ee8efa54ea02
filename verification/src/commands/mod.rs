pub mod undo;

use vstd::prelude::*;
use crate::models::{CommitModel, ComparisonResult, commits_view};
use crate::repo::CommitFilter;
use crate::utils::text::{concat, decimal, decimal_u64};

verus! {

/// The command line: a subcommand, or git arguments to pass through.
#[derive(Debug, Clone)]
pub struct Cli {
    pub command: Option<GitXCommand>,
    /// Raw git arguments to forward if no command matches.
    pub raw_args: Vec<String>,
}

/// The subcommands.
#[derive(Debug, Clone)]
pub enum GitXCommand {
    /// Explore the repository visually.
    Tree { filter: Option<String>, cli: bool, limit: usize },
    /// Compare two branches.
    Compare { branch1: String, branch2: String, detail: bool },
    /// Jump to a specific commit, tag, or branch.
    Jump { reference: String },
    /// Undo recent changes safely.
    Undo { subcommand: UndoSubcommand, yes: bool, dry_run: bool },
    /// Timeline view of the commit history.
    Timeline {
        author: Option<String>,
        message: Option<String>,
        branch: Option<String>,
        limit: usize,
        merges: bool,
        no_merges: bool,
        cli: bool,
    },
}

/// What to undo.
#[derive(Debug, Clone, Copy, PartialEq, Eq, Structural)]
pub enum UndoSubcommand {
    /// Show what can be undone.
    Status,
    /// Unstage staged changes.
    Unstage,
    /// Discard unstaged working tree changes.
    Discard,
    /// Undo the most recent local commit.
    LastCommit { soft: bool, mixed: bool, hard: bool },
    /// Remove untracked files.
    Clean { directories: bool, ignored: bool },
    /// Restore a clean repository state.
    All { clean_untracked: bool },
}

/// A copy of an optional string.
fn copy_opt(o: &Option<String>) -> (r: Option<String>)
    ensures
        r == *o,
{
    match o {
        Some(s) => Some(s.clone()),
        None => None,
    }
}

impl GitXCommand {
    /// The filter the timeline walks the history with; `None` for the other commands.
    pub fn timeline_filter(&self) -> (r: Option<CommitFilter>)
        ensures
            match *self {
                GitXCommand::Timeline { author, message, branch, limit, merges, no_merges, cli } => r == Some(
                    CommitFilter { author, message, query: None, branch, limit, only_merges: merges, no_merges },
                ),
                _ => r is None,
            },
    {
        match self {
            GitXCommand::Timeline { author, message, branch, limit, merges, no_merges, cli: _ } => Some(CommitFilter {
                author: copy_opt(author),
                message: copy_opt(message),
                query: None,
                branch: copy_opt(branch),
                limit: *limit,
                only_merges: *merges,
                no_merges: *no_merges,
            }),
            _ => None,
        }
    }
}

/// The detail line of a commit in a comparison: its first seven characters of hash, author and subject.
pub open spec fn comparison_detail(c: CommitModel) -> Seq<char> {
    "["@ + c.hash.take(7) + "] - "@ + c.author + " - "@ + c.subject
}

/// What `compare` prints: the merge base, how many commits each branch has alone, and with
/// `detail` one line per commit of the first branch.
pub open spec fn comparison_report(base: Seq<char>, a: Seq<CommitModel>, b_len: nat, branch1: Seq<char>, branch2: Seq<char>, detail: bool) -> Seq<Seq<char>> {
    seq![
        "--- [ GitX Comparison ] ---"@,
        "Merge Base: "@ + base,
        "Unique to "@ + branch1 + ": "@ + decimal(a.len()) + " commits"@,
        "Unique to "@ + branch2 + ": "@ + decimal(b_len) + " commits"@,
    ] + if detail { a.map_values(|c: CommitModel| comparison_detail(c)) } else { Seq::empty() }
}

/// The lines `compare` prints for `result`.
pub fn comparison_lines(result: &ComparisonResult, branch1: &str, branch2: &str, detail: bool) -> (r: Vec<String>)
    requires
        detail ==> forall|i: int| 0 <= i < result.unique_to_a@.len() ==> (#[trigger] result.unique_to_a@[i]).hash@.len() >= 7,
    ensures
        r@.map_values(|s: String| s@) == comparison_report(result.base_hash@, commits_view(result.unique_to_a@),
            result.unique_to_b@.len() as nat, branch1@, branch2@, detail),
{
    let mut lines: Vec<String> = Vec::new();
    lines.push("--- [ GitX Comparison ] ---".to_owned());
    lines.push(concat("Merge Base: ", result.base_hash.as_str()));
    let a_len = decimal_u64(result.unique_to_a.len() as u64);
    let b_len = decimal_u64(result.unique_to_b.len() as u64);
    lines.push(concat(concat(concat(concat("Unique to ", branch1).as_str(), ": ").as_str(), a_len.as_str()).as_str(), " commits"));
    lines.push(concat(concat(concat(concat("Unique to ", branch2).as_str(), ": ").as_str(), b_len.as_str()).as_str(), " commits"));
    let ghost head = lines@.map_values(|s: String| s@);
    let ghost all = commits_view(result.unique_to_a@).map_values(|c: CommitModel| comparison_detail(c));
    if detail {
        let mut i: usize = 0;
        while i < result.unique_to_a.len()
            invariant
                i <= result.unique_to_a@.len(),
                forall|j: int| 0 <= j < result.unique_to_a@.len() ==> (#[trigger] result.unique_to_a@[j]).hash@.len() >= 7,
                all == commits_view(result.unique_to_a@).map_values(|c: CommitModel| comparison_detail(c)),
                lines@.map_values(|s: String| s@) =~= head + all.take(i as int),
            decreases result.unique_to_a@.len() - i,
        {
            let c = &result.unique_to_a[i];
            let short = c.hash.as_str().substring_char(0, 7);
            let line = concat(concat(concat(concat(concat("[", short).as_str(), "] - ").as_str(), c.author.as_str()).as_str(), " - ").as_str(), c.subject.as_str());
            assert(line@ =~= all[i as int]);
            let ghost before = lines@.map_values(|s: String| s@);
            lines.push(line);
            assert(lines@.map_values(|s: String| s@) =~= before.push(all[i as int]));
            assert(all.take(i as int + 1) =~= all.take(i as int).push(all[i as int]));
            i = i + 1;
        }
        assert(all.take(result.unique_to_a@.len() as int) =~= all);
    }
    lines
}

} // verus!
