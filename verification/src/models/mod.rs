pub mod undo;

use vstd::prelude::*;

verus! {

/// The characters of each string of a sequence.
pub open spec fn strs_view(v: Seq<String>) -> Seq<Seq<char>> {
    v.map_values(|s: String| s@)
}

/// The characters of an optional string.
pub open spec fn opt_str_view(o: Option<String>) -> Option<Seq<char>> {
    match o {
        Some(s) => Some(s@),
        None => None,
    }
}

/// A reference that points at a commit.
#[derive(Debug, Clone)]
pub enum LabelInfo {
    Head(String),
    LocalBranch(String),
    RemoteBranch(String),
    Tag(String),
}

/// The mathematical value of a [`LabelInfo`].
pub enum LabelModel {
    Head(Seq<char>),
    LocalBranch(Seq<char>),
    RemoteBranch(Seq<char>),
    Tag(Seq<char>),
}

impl View for LabelInfo {
    type V = LabelModel;

    open spec fn view(&self) -> LabelModel {
        match self {
            LabelInfo::Head(n) => LabelModel::Head(n@),
            LabelInfo::LocalBranch(n) => LabelModel::LocalBranch(n@),
            LabelInfo::RemoteBranch(n) => LabelModel::RemoteBranch(n@),
            LabelInfo::Tag(n) => LabelModel::Tag(n@),
        }
    }
}

impl LabelInfo {
    /// A copy of this label.
    pub fn duplicate(&self) -> (r: LabelInfo)
        ensures
            r@ == self@,
    {
        match self {
            LabelInfo::Head(n) => LabelInfo::Head(n.clone()),
            LabelInfo::LocalBranch(n) => LabelInfo::LocalBranch(n.clone()),
            LabelInfo::RemoteBranch(n) => LabelInfo::RemoteBranch(n.clone()),
            LabelInfo::Tag(n) => LabelInfo::Tag(n.clone()),
        }
    }
}

/// The labels of a sequence, each by its value.
pub open spec fn labels_view(v: Seq<LabelInfo>) -> Seq<LabelModel> {
    v.map_values(|l: LabelInfo| l@)
}

/// One commit of the history, as the explorer shows it.
#[derive(Debug, Clone)]
pub struct CommitInfo {
    pub hash: String,
    pub author: String,
    /// Unix timestamp in seconds.
    pub date: i64,
    pub subject: String,
    pub body: Option<String>,
    pub labels: Vec<LabelInfo>,
    pub parents: Vec<String>,
}

/// The mathematical value of a [`CommitInfo`].
pub struct CommitModel {
    pub hash: Seq<char>,
    pub author: Seq<char>,
    pub date: int,
    pub subject: Seq<char>,
    pub body: Option<Seq<char>>,
    pub labels: Seq<LabelModel>,
    pub parents: Seq<Seq<char>>,
}

impl View for CommitInfo {
    type V = CommitModel;

    open spec fn view(&self) -> CommitModel {
        CommitModel {
            hash: self.hash@,
            author: self.author@,
            date: self.date as int,
            subject: self.subject@,
            body: opt_str_view(self.body),
            labels: labels_view(self.labels@),
            parents: strs_view(self.parents@),
        }
    }
}

/// A copy of a sequence of strings.
pub fn copy_strings(v: &Vec<String>) -> (r: Vec<String>)
    ensures
        strs_view(r@) == strs_view(v@),
{
    let mut r: Vec<String> = Vec::new();
    let mut i: usize = 0;
    while i < v.len()
        invariant
            i <= v@.len(),
            strs_view(r@) =~= strs_view(v@).take(i as int),
        decreases v@.len() - i,
    {
        r.push(v[i].clone());
        assert(strs_view(v@).take(i as int + 1) =~= strs_view(v@).take(i as int).push(v@[i as int]@));
        i = i + 1;
    }
    assert(strs_view(v@).take(v@.len() as int) =~= strs_view(v@));
    r
}

/// A copy of a sequence of labels.
pub fn copy_labels(v: &Vec<LabelInfo>) -> (r: Vec<LabelInfo>)
    ensures
        labels_view(r@) == labels_view(v@),
{
    let mut r: Vec<LabelInfo> = Vec::new();
    let mut i: usize = 0;
    while i < v.len()
        invariant
            i <= v@.len(),
            labels_view(r@) =~= labels_view(v@).take(i as int),
        decreases v@.len() - i,
    {
        r.push(v[i].duplicate());
        assert(labels_view(v@).take(i as int + 1) =~= labels_view(v@).take(i as int).push(v@[i as int]@));
        i = i + 1;
    }
    assert(labels_view(v@).take(v@.len() as int) =~= labels_view(v@));
    r
}

impl CommitInfo {
    /// A copy of this commit.
    pub fn duplicate(&self) -> (r: CommitInfo)
        ensures
            r@ == self@,
    {
        let body = match &self.body {
            Some(b) => Some(b.clone()),
            None => None,
        };
        CommitInfo {
            hash: self.hash.clone(),
            author: self.author.clone(),
            date: self.date,
            subject: self.subject.clone(),
            body,
            labels: copy_labels(&self.labels),
            parents: copy_strings(&self.parents),
        }
    }
}

/// A branch of the repository.
#[derive(Debug, Clone)]
pub struct BranchInfo {
    pub name: String,
    pub is_remote: bool,
    pub is_head: bool,
    pub last_commit: String,
}

/// What two branches have in common and what each has alone.
#[derive(Debug, Clone)]
pub struct ComparisonResult {
    pub base_hash: String,
    pub unique_to_a: Vec<CommitInfo>,
    pub unique_to_b: Vec<CommitInfo>,
}

/// The kind of thing a reference names.
#[derive(Debug, Clone)]
pub enum RefType {
    Branch(String),
    Tag(String),
    Commit(String),
}

} // verus!

verus! {

/// The commits of a sequence, each by its value.
pub open spec fn commits_view(v: Seq<CommitInfo>) -> Seq<CommitModel> {
    v.map_values(|c: CommitInfo| c@)
}

} // verus!
