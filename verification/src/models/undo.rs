use vstd::prelude::*;

verus! {

/// How far `git reset` goes when a commit is undone.
#[derive(Clone, Copy, Debug, PartialEq, Eq, Structural)]
pub enum ResetMode {
    /// Keep the changes staged.
    Soft,
    /// Keep the changes, unstaged.
    Mixed,
    /// Discard the changes.
    Hard,
}

/// The commit HEAD points at, as the undo planner sees it.
#[derive(Clone, Debug)]
pub struct CommitUndoInfo {
    pub hash: String,
    pub subject: String,
    pub already_pushed: bool,
}

/// One step of an undo.
#[derive(Clone, Debug)]
pub enum UndoAction {
    Unstage(String),
    Discard(String),
    RemoveUntracked(String),
    ResetCommit { hash: String, mode: ResetMode },
}

/// The mathematical value of an [`UndoAction`].
pub enum ActionModel {
    Unstage(Seq<char>),
    Discard(Seq<char>),
    RemoveUntracked(Seq<char>),
    ResetCommit(Seq<char>, ResetMode),
}

impl View for UndoAction {
    type V = ActionModel;

    open spec fn view(&self) -> ActionModel {
        match self {
            UndoAction::Unstage(p) => ActionModel::Unstage(p@),
            UndoAction::Discard(p) => ActionModel::Discard(p@),
            UndoAction::RemoveUntracked(p) => ActionModel::RemoveUntracked(p@),
            UndoAction::ResetCommit { hash, mode } => ActionModel::ResetCommit(hash@, *mode),
        }
    }
}

/// The actions of a sequence, each by its value.
pub open spec fn actions_view(v: Seq<UndoAction>) -> Seq<ActionModel> {
    v.map_values(|a: UndoAction| a@)
}

/// What can be undone in a repository, and the actions chosen to undo it.
#[derive(Clone, Debug)]
pub struct UndoPlan {
    pub staged_files: Vec<String>,
    pub unstaged_files: Vec<String>,
    pub untracked_files: Vec<String>,
    /// Ignored paths (listed only when ignored files were asked for).
    pub ignored_files: Vec<String>,
    pub last_commit: Option<CommitUndoInfo>,
    pub actions: Vec<UndoAction>,
}

} // verus!
