pub mod undo;

use vstd::prelude::*;
use crate::models::{labels_view, opt_str_view, strs_view, CommitInfo, LabelInfo, LabelModel};
use crate::utils::graph_renderer::contains_string;
use crate::utils::text::{
    contains_seq, lowercase, occurs_at, remove_all, starts_with_seq, str_contains, str_starts_with, to_lowercase, without,
};

verus! {

/// Which commits a history walk keeps.
#[derive(Default, Debug, Clone)]
pub struct CommitFilter {
    /// Keep commits whose author contains this (ignoring case).
    pub author: Option<String>,
    /// Keep commits whose subject contains this (ignoring case).
    pub message: Option<String>,
    /// Keep commits whose subject, author or one of whose branch names contains this, or whose
    /// hash starts with it (ignoring case).
    pub query: Option<String>,
    /// Walk from this reference instead of HEAD.
    pub branch: Option<String>,
    /// Stop once this many commits are kept.
    pub limit: usize,
    pub only_merges: bool,
    pub no_merges: bool,
}

/// What the filter reads of a commit: its hash, author name and subject (when they are valid
/// text), its number of parents, and the names of the branches pointing at it.
#[derive(Debug, Clone)]
pub struct CommitRecord {
    pub hash: String,
    pub author: Option<String>,
    pub summary: Option<String>,
    pub parent_count: usize,
    pub branches: Vec<String>,
}

/// Some branch name contains `ql` (ignoring case).
pub open spec fn branch_matches(branches: Seq<String>, ql: Seq<char>) -> bool {
    exists|i: int| 0 <= i < branches.len() && contains_seq(lowercase(#[trigger] branches[i]@), ql)
}

/// The text of an optional string, empty when there is none.
pub open spec fn or_empty(o: Option<String>) -> Seq<char> {
    match o {
        Some(s) => s@,
        None => ""@,
    }
}

/// `f` keeps commit `r`.
pub open spec fn filter_accepts(f: CommitFilter, r: CommitRecord) -> bool {
    let subject = lowercase(or_empty(r.summary));
    let author = lowercase(or_empty(r.author));
    let hash = lowercase(r.hash@);
    &&& match f.query {
        Some(q) => {
            let ql = lowercase(q@);
            contains_seq(subject, ql) || contains_seq(author, ql) || starts_with_seq(hash, ql)
                || branch_matches(r.branches@, ql)
        },
        None => true,
    }
    &&& match f.message {
        Some(m) => contains_seq(subject, lowercase(m@)),
        None => true,
    }
    &&& match f.author {
        Some(a) => contains_seq(author, lowercase(a@)),
        None => true,
    }
    &&& !(f.only_merges && r.parent_count <= 1)
    &&& !(f.no_merges && r.parent_count > 1)
}

/// The text of an optional string, empty when there is none.
fn text_or_empty(o: &Option<String>) -> (r: &str)
    ensures
        r@ == or_empty(*o),
{
    match o {
        Some(s) => s.as_str(),
        None => "",
    }
}

/// Whether some branch name contains `ql` once lowercased.
fn any_branch_contains(branches: &Vec<String>, ql: &str) -> (r: bool)
    ensures
        r == branch_matches(branches@, ql@),
{
    let mut i: usize = 0;
    while i < branches.len()
        invariant
            i <= branches@.len(),
            forall|j: int| 0 <= j < i ==> !contains_seq(lowercase(#[trigger] branches@[j]@), ql@),
        decreases branches@.len() - i,
    {
        let b = to_lowercase(branches[i].as_str());
        if str_contains(b.as_str(), ql) {
            assert(contains_seq(lowercase(branches@[i as int]@), ql@));
            return true;
        }
        i = i + 1;
    }
    false
}

impl CommitFilter {
    /// The filter of `tree --filter`: commits matching `query`, at most 100 of them.
    pub fn for_query(query: &str) -> (r: CommitFilter)
        ensures
            r.query is Some && r.query->0@ == query@,
            r.limit == 100,
            r.author is None,
            r.message is None,
            r.branch is None,
            !r.only_merges,
            !r.no_merges,
    {
        CommitFilter {
            author: None,
            message: None,
            query: Some(query.to_owned()),
            branch: None,
            limit: 100,
            only_merges: false,
            no_merges: false,
        }
    }

    /// Whether this filter keeps `rec`.
    pub fn matches(&self, rec: &CommitRecord) -> (r: bool)
        ensures
            r == filter_accepts(*self, *rec),
    {
        let subject = to_lowercase(text_or_empty(&rec.summary));
        let author = to_lowercase(text_or_empty(&rec.author));
        let hash = to_lowercase(rec.hash.as_str());
        let mut matches = true;
        if let Some(q) = &self.query {
            let q_l = to_lowercase(q.as_str());
            if !str_contains(subject.as_str(), q_l.as_str()) && !str_contains(author.as_str(), q_l.as_str())
                && !str_starts_with(hash.as_str(), q_l.as_str()) && !any_branch_contains(&rec.branches, q_l.as_str()) {
                matches = false;
            }
        }
        if let Some(m) = &self.message {
            if !str_contains(subject.as_str(), to_lowercase(m.as_str()).as_str()) {
                matches = false;
            }
        }
        if let Some(a) = &self.author {
            if !str_contains(author.as_str(), to_lowercase(a.as_str()).as_str()) {
                matches = false;
            }
        }
        let is_merge = rec.parent_count > 1;
        if self.only_merges && !is_merge {
            matches = false;
        }
        if self.no_merges && is_merge {
            matches = false;
        }
        matches
    }

    /// One step of a history walk: once the limit is reached, keeps nothing more and says stop;
    /// before that, keeps `rec`'s hash when the filter keeps it, and says stop when that reaches
    /// the limit.
    pub fn accept_step(&self, matched: &mut Vec<String>, rec: &CommitRecord) -> (stop: bool)
        ensures
            old(matched)@.len() >= self.limit ==> final(matched)@ == old(matched)@ && stop,
            old(matched)@.len() < self.limit && filter_accepts(*self, *rec) ==> final(matched)@ == old(matched)@.push(rec.hash)
                && stop == (final(matched)@.len() >= self.limit),
            old(matched)@.len() < self.limit && !filter_accepts(*self, *rec) ==> final(matched)@ == old(matched)@ && !stop,
    {
        if matched.len() >= self.limit {
            true
        } else if self.matches(rec) {
            matched.push(rec.hash.clone());
            matched.len() >= self.limit
        } else {
            false
        }
    }
}

/// The hashes kept, and whether the walk has stopped, after the first `k` records of a walk
/// fed one by one to [`CommitFilter::accept_step`] until it says stop.
pub open spec fn scan(f: CommitFilter, recs: Seq<CommitRecord>, k: nat) -> (Seq<Seq<char>>, bool)
    decreases k,
{
    if k == 0 {
        (Seq::empty(), false)
    } else {
        let p = scan(f, recs, (k - 1) as nat);
        if p.1 {
            p
        } else if p.0.len() >= f.limit {
            (p.0, true)
        } else if filter_accepts(f, recs[k - 1]) {
            let m = p.0.push(recs[k - 1].hash@);
            (m, m.len() >= f.limit)
        } else {
            p
        }
    }
}

/// A walk keeps at most `limit` commits (none when the limit is zero), and only commits the
/// filter accepts, in walk order; a walk that has seen a record and not stopped is under its limit.
pub proof fn law_scan_respects_limit(f: CommitFilter, recs: Seq<CommitRecord>, k: nat)
    requires
        k <= recs.len(),
    ensures
        scan(f, recs, k).0.len() <= f.limit,
        k > 0 && !scan(f, recs, k).1 ==> scan(f, recs, k).0.len() < f.limit,
        forall|i: int| 0 <= i < scan(f, recs, k).0.len() ==> exists|j: int|
            0 <= j < k && filter_accepts(f, #[trigger] recs[j]) && recs[j].hash@ == #[trigger] scan(f, recs, k).0[i],
    decreases k,
{
    if k > 0 {
        law_scan_respects_limit(f, recs, (k - 1) as nat);
        let p = scan(f, recs, (k - 1) as nat);
        let r = scan(f, recs, k);
        assert forall|i: int| 0 <= i < r.0.len() implies exists|j: int|
            0 <= j < k && filter_accepts(f, #[trigger] recs[j]) && recs[j].hash@ == #[trigger] r.0[i] by {
            if i < p.0.len() {
                let j = choose|j: int| 0 <= j < k - 1 && filter_accepts(f, #[trigger] recs[j]) && recs[j].hash@ == p.0[i];
                assert(r.0[i] == p.0[i]);
            } else {
                assert(filter_accepts(f, recs[k - 1]));
            }
        }
    }
}

/// The distinct ancestors found, in the order first found.
pub open spec fn distinct_found(a: Seq<Option<Seq<char>>>, k: nat) -> Seq<Seq<char>>
    decreases k,
{
    if k == 0 {
        Seq::empty()
    } else {
        let prev = distinct_found(a, (k - 1) as nat);
        match a[k - 1] {
            Some(h) => if prev.contains(h) { prev } else { prev.push(h) },
            None => prev,
        }
    }
}

/// The parents of a kept commit, each replaced by its nearest kept ancestor (`None` when it has
/// none), without repetition.
pub fn simplify_parents(ancestors: &Vec<Option<String>>) -> (r: Vec<String>)
    ensures
        strs_view(r@) == distinct_found(ancestors@.map_values(|o: Option<String>| opt_str_view(o)), ancestors@.len() as nat),
{
    let ghost a = ancestors@.map_values(|o: Option<String>| opt_str_view(o));
    let mut out: Vec<String> = Vec::new();
    let mut i: usize = 0;
    while i < ancestors.len()
        invariant
            i <= ancestors@.len(),
            a == ancestors@.map_values(|o: Option<String>| opt_str_view(o)),
            strs_view(out@) == distinct_found(a, i as nat),
        decreases ancestors@.len() - i,
    {
        if let Some(h) = &ancestors[i] {
            if !contains_string(&out, h) {
                out.push(h.clone());
                assert(strs_view(out@) =~= distinct_found(a, i as nat).push(h@));
            }
        }
        i = i + 1;
    }
    out
}

/// Simplified parents never repeat, include every ancestor found, and include nothing else.
pub proof fn law_distinct_found(a: Seq<Option<Seq<char>>>, k: nat)
    requires
        k <= a.len(),
    ensures
        forall|i: int, j: int| 0 <= i < j < distinct_found(a, k).len() ==> distinct_found(a, k)[i] != distinct_found(a, k)[j],
        forall|i: int| 0 <= i < k && (#[trigger] a[i]) is Some ==> distinct_found(a, k).contains(a[i]->0),
        forall|h: Seq<char>| #[trigger] distinct_found(a, k).contains(h) ==> exists|i: int| 0 <= i < k && a[i] == Some(h),
    decreases k,
{
    if k > 0 {
        law_distinct_found(a, (k - 1) as nat);
        let p = distinct_found(a, (k - 1) as nat);
        let r = distinct_found(a, k);
        assert forall|i: int| 0 <= i < k && (#[trigger] a[i]) is Some implies r.contains(a[i]->0) by {
            if i < k - 1 {
                let x = choose|x: int| 0 <= x < p.len() && p[x] == a[i]->0;
                assert(r[x] == p[x]);
            } else {
                if !p.contains(a[i]->0) {
                    assert(r[r.len() - 1] == a[i]->0);
                }
            }
        }
        assert forall|h: Seq<char>| #[trigger] r.contains(h) implies exists|i: int| 0 <= i < k && a[i] == Some(h) by {
            let x = choose|x: int| 0 <= x < r.len() && r[x] == h;
            if x < p.len() {
                assert(p[x] == h);
                assert(p.contains(h));
            } else {
                assert(a[k - 1] == Some(h));
            }
        }
    }
}

/// The commit HEAD resolves to, and HEAD's short name, when they could be read.
#[derive(Debug, Clone)]
pub struct HeadRef {
    pub target: Option<String>,
    pub shorthand: Option<String>,
}

/// A branch: the commit it points at, its name, and whether it is remote.
#[derive(Debug, Clone)]
pub struct BranchRef {
    pub target: Option<String>,
    pub name: Option<String>,
    pub is_remote: bool,
}

/// A tag: the object it points at and its full reference name.
#[derive(Debug, Clone)]
pub struct TagRef {
    pub id: String,
    pub name: Option<String>,
}

/// The HEAD label of commit `oid`, if HEAD points at it.
pub open spec fn head_label(oid: Seq<char>, head: Option<HeadRef>) -> Seq<LabelModel> {
    match head {
        Some(h) => if opt_str_view(h.target) == Some(oid) {
            seq![LabelModel::Head(match h.shorthand { Some(s) => s@, None => "HEAD"@ })]
        } else {
            Seq::empty()
        },
        None => Seq::empty(),
    }
}

/// The labels of the first `k` branches pointing at `oid`.
pub open spec fn branch_labels(oid: Seq<char>, branches: Seq<BranchRef>, k: nat) -> Seq<LabelModel>
    decreases k,
{
    if k == 0 {
        Seq::empty()
    } else {
        let prev = branch_labels(oid, branches, (k - 1) as nat);
        let b = branches[k - 1];
        if opt_str_view(b.target) == Some(oid) {
            prev.push(if b.is_remote { LabelModel::RemoteBranch(or_empty(b.name)) } else { LabelModel::LocalBranch(or_empty(b.name)) })
        } else {
            prev
        }
    }
}

/// The names of the first `k` branches pointing at `oid` (empty for a branch git could not name).
pub open spec fn branch_names_of(oid: Seq<char>, branches: Seq<BranchRef>, k: nat) -> Seq<Seq<char>>
    decreases k,
{
    if k == 0 {
        Seq::empty()
    } else {
        let prev = branch_names_of(oid, branches, (k - 1) as nat);
        let b = branches[k - 1];
        if opt_str_view(b.target) == Some(oid) { prev.push(or_empty(b.name)) } else { prev }
    }
}

/// The names of the branches pointing at commit `oid`, in order, for [`CommitRecord::branches`].
pub fn branch_names(oid: &String, branches: &Vec<BranchRef>) -> (r: Vec<String>)
    ensures
        strs_view(r@) == branch_names_of(oid@, branches@, branches@.len() as nat),
{
    let mut out: Vec<String> = Vec::new();
    let mut i: usize = 0;
    while i < branches.len()
        invariant
            i <= branches@.len(),
            strs_view(out@) =~= branch_names_of(oid@, branches@, i as nat),
        decreases branches@.len() - i,
    {
        let b = &branches[i];
        let hit = match &b.target {
            Some(t) => *t == *oid,
            None => false,
        };
        assert(hit == (opt_str_view(b.target) == Some(oid@)));
        if hit {
            let name = text_or_empty(&b.name).to_owned();
            out.push(name);
            assert(strs_view(out@) =~= branch_names_of(oid@, branches@, i as nat).push(or_empty(b.name)));
        }
        i = i + 1;
    }
    out
}

/// The labels of the first `k` tags pointing at `oid`, named without `refs/tags/`.
pub open spec fn tag_labels(oid: Seq<char>, tags: Seq<TagRef>, k: nat) -> Seq<LabelModel>
    decreases k,
{
    if k == 0 {
        Seq::empty()
    } else {
        let prev = tag_labels(oid, tags, (k - 1) as nat);
        let t = tags[k - 1];
        if t.id@ == oid { prev.push(LabelModel::Tag(without(or_empty(t.name), "refs/tags/"@))) } else { prev }
    }
}

/// The labels of commit `oid`: HEAD first, then its branches, then its tags.
pub fn commit_labels(oid: &String, head: &Option<HeadRef>, branches: &Vec<BranchRef>, tags: &Vec<TagRef>) -> (r: Vec<LabelInfo>)
    ensures
        labels_view(r@) == head_label(oid@, *head) + branch_labels(oid@, branches@, branches@.len() as nat)
            + tag_labels(oid@, tags@, tags@.len() as nat),
{
    let mut labels: Vec<LabelInfo> = Vec::new();
    if let Some(h) = head {
        if let Some(t) = &h.target {
            if *t == *oid {
                let name = match &h.shorthand {
                    Some(s) => s.clone(),
                    None => "HEAD".to_owned(),
                };
                labels.push(LabelInfo::Head(name));
            }
        }
    }
    let ghost hl = labels_view(labels@);
    assert(hl =~= head_label(oid@, *head));
    let mut i: usize = 0;
    while i < branches.len()
        invariant
            i <= branches@.len(),
            labels_view(labels@) =~= hl + branch_labels(oid@, branches@, i as nat),
        decreases branches@.len() - i,
    {
        let b = &branches[i];
        let ghost before = labels_view(labels@);
        let hit = match &b.target {
            Some(t) => *t == *oid,
            None => false,
        };
        assert(hit == (opt_str_view(b.target) == Some(oid@)));
        if hit {
            let name = text_or_empty(&b.name).to_owned();
            let l = if b.is_remote { LabelInfo::RemoteBranch(name) } else { LabelInfo::LocalBranch(name) };
            labels.push(l);
            assert(labels_view(labels@) =~= before.push(l@));
        }
        assert(branch_labels(oid@, branches@, (i + 1) as nat) == if hit {
            branch_labels(oid@, branches@, i as nat).push(if b.is_remote { LabelModel::RemoteBranch(or_empty(b.name)) } else { LabelModel::LocalBranch(or_empty(b.name)) })
        } else {
            branch_labels(oid@, branches@, i as nat)
        });
        i = i + 1;
    }
    let ghost bl = labels_view(labels@);
    let mut j: usize = 0;
    while j < tags.len()
        invariant
            j <= tags@.len(),
            labels_view(labels@) =~= bl + tag_labels(oid@, tags@, j as nat),
        decreases tags@.len() - j,
    {
        let t = &tags[j];
        let ghost before = labels_view(labels@);
        if t.id == *oid {
            let l = LabelInfo::Tag(remove_all(text_or_empty(&t.name), "refs/tags/"));
            labels.push(l);
            assert(labels_view(labels@) =~= before.push(l@));
        }
        j = j + 1;
    }
    labels
}

/// A commit as the explorer shows it, from what git reports of it: the author is `Unknown` and
/// the subject empty when git has none.
pub fn convert_commit(
    hash: String,
    author: Option<String>,
    date: i64,
    summary: Option<String>,
    body: Option<String>,
    labels: Vec<LabelInfo>,
    parents: Vec<String>,
) -> (r: CommitInfo)
    ensures
        r.hash == hash,
        r.author@ == (match author { Some(a) => a@, None => "Unknown"@ }),
        r.date == date,
        r.subject@ == or_empty(summary),
        r.body == body,
        r.labels == labels,
        r.parents == parents,
{
    let author = match author {
        Some(a) => a,
        None => "Unknown".to_owned(),
    };
    let subject = match summary {
        Some(s) => s,
        None => "".to_owned(),
    };
    CommitInfo { hash, author, date, subject, body, labels, parents }
}

/// A filter on the message alone keeps a commit exactly when the lowercased message occurs
/// somewhere in the lowercased subject (a missing subject counts as empty), and a filter on the
/// author alone exactly when the lowercased name occurs somewhere in the lowercased author.
pub proof fn law_message_and_author_match_anywhere(f: CommitFilter, r: CommitRecord)
    requires
        f.query is None,
        !f.only_merges,
        !f.no_merges,
    ensures
        f.author is None && f.message is Some ==> (filter_accepts(f, r) <==> exists|i: int|
            0 <= i && i + lowercase(f.message->0@).len() <= lowercase(or_empty(r.summary)).len()
                && #[trigger] lowercase(or_empty(r.summary)).subrange(i, i + lowercase(f.message->0@).len())
                    == lowercase(f.message->0@)),
        f.message is None && f.author is Some ==> (filter_accepts(f, r) <==> exists|i: int|
            0 <= i && i + lowercase(f.author->0@).len() <= lowercase(or_empty(r.author)).len()
                && #[trigger] lowercase(or_empty(r.author)).subrange(i, i + lowercase(f.author->0@).len())
                    == lowercase(f.author->0@)),
{
    let subj = lowercase(or_empty(r.summary));
    let auth = lowercase(or_empty(r.author));
    if f.author is None && f.message is Some {
        let m = lowercase(f.message->0@);
        if filter_accepts(f, r) {
            let i = choose|i: int| occurs_at(subj, m, i);
            assert(subj.subrange(i, i + m.len()) == m);
        }
        if exists|i: int| 0 <= i && i + m.len() <= subj.len() && #[trigger] subj.subrange(i, i + m.len()) == m {
            let i = choose|i: int| 0 <= i && i + m.len() <= subj.len() && #[trigger] subj.subrange(i, i + m.len()) == m;
            assert(occurs_at(subj, m, i));
        }
    }
    if f.message is None && f.author is Some {
        let a = lowercase(f.author->0@);
        if filter_accepts(f, r) {
            let i = choose|i: int| occurs_at(auth, a, i);
            assert(auth.subrange(i, i + a.len()) == a);
        }
        if exists|i: int| 0 <= i && i + a.len() <= auth.len() && #[trigger] auth.subrange(i, i + a.len()) == a {
            let i = choose|i: int| 0 <= i && i + a.len() <= auth.len() && #[trigger] auth.subrange(i, i + a.len()) == a;
            assert(occurs_at(auth, a, i));
        }
    }
}

/// A query keeps a commit exactly when it occurs (ignoring case) in the subject, the author or a
/// branch name, or starts the hash; the merge switches keep only merges (more than one parent)
/// or only non-merges; and a commit is kept only when every filter set keeps it.
pub proof fn law_query_and_merge_filters(f: CommitFilter, r: CommitRecord)
    ensures
        f.query is Some && f.message is None && f.author is None && !f.only_merges && !f.no_merges ==> (filter_accepts(f, r) <==> (
            contains_seq(lowercase(or_empty(r.summary)), lowercase(f.query->0@))
            || contains_seq(lowercase(or_empty(r.author)), lowercase(f.query->0@))
            || occurs_at(lowercase(r.hash@), lowercase(f.query->0@), 0)
            || exists|i: int| 0 <= i < r.branches@.len() && contains_seq(lowercase(#[trigger] r.branches@[i]@), lowercase(f.query->0@)))),
        f.only_merges && filter_accepts(f, r) ==> r.parent_count > 1,
        f.no_merges && filter_accepts(f, r) ==> r.parent_count <= 1,
        f.query is None && f.message is None && f.author is None && !f.only_merges && !f.no_merges ==> filter_accepts(f, r),
        filter_accepts(f, r) && f.message is Some ==> contains_seq(lowercase(or_empty(r.summary)), lowercase(f.message->0@)),
        filter_accepts(f, r) && f.author is Some ==> contains_seq(lowercase(or_empty(r.author)), lowercase(f.author->0@)),
{
}

} // verus!
