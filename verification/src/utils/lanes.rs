use vstd::prelude::*;
use crate::models::{opt_str_view, CommitModel};

verus! {

/// The lanes of a graph: each holds the hash of the commit it waits for, or nothing.
pub type Lanes = Seq<Option<Seq<char>>>;

/// The lanes of a renderer by their hashes.
pub open spec fn lanes_view(v: Seq<Option<String>>) -> Lanes {
    v.map_values(|o: Option<String>| opt_str_view(o))
}

/// Index of the first lane equal to `x`, or the number of lanes when none is.
pub open spec fn first_index(lanes: Lanes, x: Option<Seq<char>>) -> nat
    decreases lanes.len(),
{
    if lanes.len() == 0 {
        0
    } else if lanes[0] == x {
        0
    } else {
        1 + first_index(lanes.drop_first(), x)
    }
}

/// `lanes` with `v` put in its first free lane, or in a new lane at the end.
pub open spec fn place(lanes: Lanes, v: Seq<char>) -> Lanes {
    let p = first_index(lanes, None);
    if p < lanes.len() {
        lanes.update(p as int, Some(v))
    } else {
        lanes.push(Some(v))
    }
}

/// The lane of hash `h`: the one that already waits for it, or else a newly taken one.
pub open spec fn assign(lanes: Lanes, h: Seq<char>) -> (Lanes, nat) {
    let f = first_index(lanes, Some(h));
    if f < lanes.len() {
        (lanes, f)
    } else {
        (place(lanes, h), first_index(lanes, None))
    }
}

/// Start waiting for parent `p`, if it is visible and no lane waits for it yet.
pub open spec fn parent_step(lanes: Lanes, p: Seq<char>, visible: Seq<Seq<char>>) -> Lanes {
    if visible.contains(p) && first_index(lanes, Some(p)) == lanes.len() {
        place(lanes, p)
    } else {
        lanes
    }
}

/// Start waiting for each parent in turn.
pub open spec fn add_parents(lanes: Lanes, parents: Seq<Seq<char>>, visible: Seq<Seq<char>>) -> Lanes
    decreases parents.len(),
{
    if parents.len() == 0 {
        lanes
    } else {
        parent_step(add_parents(lanes, parents.drop_last(), visible), parents.last(), visible)
    }
}

/// `lanes` without its trailing free lanes.
pub open spec fn trim(lanes: Lanes) -> Lanes
    decreases lanes.len(),
{
    if lanes.len() > 0 && lanes.last() is None {
        trim(lanes.drop_last())
    } else {
        lanes
    }
}

/// The lanes once the commit drawn in lane `node` hands over to its parents.
pub open spec fn advance(lanes: Lanes, node: int, parents: Seq<Seq<char>>, visible: Seq<Seq<char>>) -> Lanes {
    trim(add_parents(lanes.update(node, None), parents, visible))
}

/// The lanes after one commit has been drawn.
pub open spec fn step(lanes: Lanes, c: CommitModel, visible: Seq<Seq<char>>) -> Lanes {
    let a = assign(lanes, c.hash);
    advance(a.0, a.1 as int, c.parents, visible)
}

/// The lanes before commit `k` is drawn, starting from `start`.
pub open spec fn lanes_from(start: Lanes, commits: Seq<CommitModel>, visible: Seq<Seq<char>>, k: nat) -> Lanes
    decreases k,
{
    if k == 0 {
        start
    } else {
        step(lanes_from(start, commits, visible, (k - 1) as nat), commits[k - 1], visible)
    }
}

/// The lanes before commit `k` is drawn, starting with no lanes.
pub open spec fn lanes_before(commits: Seq<CommitModel>, visible: Seq<Seq<char>>, k: nat) -> Lanes {
    lanes_from(Seq::empty(), commits, visible, k)
}

/// The number of lanes while commit `k` hands over to its parents, before trimming.
pub open spec fn step_width(commits: Seq<CommitModel>, visible: Seq<Seq<char>>, k: nat) -> nat {
    let a = assign(lanes_before(commits, visible, k), commits[k as int].hash);
    add_parents(a.0.update(a.1 as int, None), commits[k as int].parents, visible).len()
}

/// The largest number of lanes seen while drawing the first `k` commits.
pub open spec fn widest(commits: Seq<CommitModel>, visible: Seq<Seq<char>>, k: nat) -> nat
    decreases k,
{
    if k == 0 {
        0
    } else {
        let w = step_width(commits, visible, (k - 1) as nat);
        let m = widest(commits, visible, (k - 1) as nat);
        if w > m { w } else { m }
    }
}

/// No two lanes wait for the same commit.
pub open spec fn distinct_lanes(lanes: Lanes) -> bool {
    forall|i: int, j: int|
        0 <= i < j < lanes.len() && (#[trigger] lanes[i]) is Some ==> lanes[i] != #[trigger] lanes[j]
}

/// `lanes` contains `x`.
pub open spec fn has_lane(lanes: Lanes, x: Seq<char>) -> bool {
    exists|i: int| 0 <= i < lanes.len() && lanes[i] == Some(x)
}

pub proof fn lemma_first_index_is(lanes: Lanes, x: Option<Seq<char>>, i: int)
    requires
        0 <= i <= lanes.len(),
        i < lanes.len() ==> lanes[i] == x,
        forall|j: int| 0 <= j < i ==> lanes[j] != x,
    ensures
        first_index(lanes, x) == i,
    decreases i,
{
    if i > 0 {
        assert(lanes[0] != x);
        assert forall|j: int| 0 <= j < i - 1 implies lanes.drop_first()[j] != x by {
            assert(lanes.drop_first()[j] == lanes[j + 1]);
        }
        lemma_first_index_is(lanes.drop_first(), x, i - 1);
    }
}

pub proof fn lemma_first_index_props(lanes: Lanes, x: Option<Seq<char>>)
    ensures
        first_index(lanes, x) <= lanes.len(),
        first_index(lanes, x) < lanes.len() ==> lanes[first_index(lanes, x) as int] == x,
        forall|j: int| 0 <= j < first_index(lanes, x) ==> lanes[j] != x,
    decreases lanes.len(),
{
    if lanes.len() > 0 && lanes[0] != x {
        let t = lanes.drop_first();
        lemma_first_index_props(t, x);
        assert forall|j: int| 0 <= j < first_index(lanes, x) implies lanes[j] != x by {
            if j > 0 {
                assert(lanes[j] == t[j - 1]);
            }
        }
    }
}

/// `first_index` finds `x` exactly when some lane holds it.
pub proof fn lemma_first_index_found(lanes: Lanes, x: Option<Seq<char>>)
    ensures
        (first_index(lanes, x) < lanes.len()) == (exists|i: int| 0 <= i < lanes.len() && lanes[i] == x),
{
    lemma_first_index_props(lanes, x);
    if first_index(lanes, x) == lanes.len() {
        assert(!(exists|i: int| 0 <= i < lanes.len() && lanes[i] == x));
    }
}

pub proof fn lemma_place(lanes: Lanes, v: Seq<char>)
    ensures
        place(lanes, v).len() >= lanes.len(),
        place(lanes, v).len() <= lanes.len() + 1,
        forall|i: int| 0 <= i < lanes.len() && (#[trigger] lanes[i]) is Some ==> place(lanes, v)[i] == lanes[i],
        place(lanes, v)[first_index(lanes, None) as int] == Some(v),
        forall|i: int| 0 <= i < place(lanes, v).len() && i != first_index(lanes, None) ==> i < lanes.len() && #[trigger] place(lanes, v)[i] == lanes[i],
        has_lane(place(lanes, v), v),
{
    lemma_first_index_props(lanes, None);
    let p = first_index(lanes, None) as int;
    assert(place(lanes, v)[p] == Some(v));
}

pub proof fn lemma_place_distinct(lanes: Lanes, v: Seq<char>)
    requires
        distinct_lanes(lanes),
        !has_lane(lanes, v),
    ensures
        distinct_lanes(place(lanes, v)),
{
    lemma_place(lanes, v);
    let r = place(lanes, v);
    let p = first_index(lanes, None) as int;
    assert forall|i: int, j: int| 0 <= i < j < r.len() && (#[trigger] r[i]) is Some implies r[i] != #[trigger] r[j] by {
        if i == p {
            assert(r[j] == lanes[j]);
        } else if j == p {
            assert(r[i] == lanes[i]);
        } else {
            assert(r[i] == lanes[i]);
            assert(r[j] == lanes[j]);
        }
    }
}

pub proof fn lemma_parent_step(lanes: Lanes, p: Seq<char>, visible: Seq<Seq<char>>)
    ensures
        parent_step(lanes, p, visible).len() >= lanes.len(),
        forall|i: int| 0 <= i < lanes.len() && (#[trigger] lanes[i]) is Some ==> parent_step(lanes, p, visible)[i] == lanes[i],
        visible.contains(p) ==> has_lane(parent_step(lanes, p, visible), p),
        distinct_lanes(lanes) ==> distinct_lanes(parent_step(lanes, p, visible)),
        forall|q: Seq<char>| has_lane(lanes, q) ==> has_lane(parent_step(lanes, p, visible), q),
        forall|q: Seq<char>| #[trigger] has_lane(parent_step(lanes, p, visible), q) ==> has_lane(lanes, q) || q == p,
{
    lemma_first_index_found(lanes, Some(p));
    lemma_first_index_props(lanes, Some(p));
    lemma_place(lanes, p);
    let r = parent_step(lanes, p, visible);
    if first_index(lanes, Some(p)) < lanes.len() {
        assert(lanes[first_index(lanes, Some(p)) as int] == Some(p));
    }
    if visible.contains(p) && first_index(lanes, Some(p)) == lanes.len() {
        if distinct_lanes(lanes) {
            lemma_place_distinct(lanes, p);
        }
        assert forall|q: Seq<char>| has_lane(lanes, q) implies has_lane(r, q) by {
            let i = choose|i: int| 0 <= i < lanes.len() && lanes[i] == Some(q);
            assert(r[i] == lanes[i]);
        }
        assert forall|q: Seq<char>| #[trigger] has_lane(r, q) implies has_lane(lanes, q) || q == p by {
            let i = choose|i: int| 0 <= i < r.len() && r[i] == Some(q);
            if i != first_index(lanes, None) {
                assert(r[i] == lanes[i]);
            }
        }
    }
}

pub proof fn lemma_add_parents(lanes: Lanes, parents: Seq<Seq<char>>, visible: Seq<Seq<char>>)
    ensures
        add_parents(lanes, parents, visible).len() >= lanes.len(),
        forall|i: int| 0 <= i < lanes.len() && (#[trigger] lanes[i]) is Some ==> add_parents(lanes, parents, visible)[i] == lanes[i],
        forall|k: int| 0 <= k < parents.len() && visible.contains(#[trigger] parents[k]) ==> has_lane(add_parents(lanes, parents, visible), parents[k]),
        distinct_lanes(lanes) ==> distinct_lanes(add_parents(lanes, parents, visible)),
        forall|q: Seq<char>| has_lane(lanes, q) ==> has_lane(add_parents(lanes, parents, visible), q),
        forall|q: Seq<char>| #[trigger] has_lane(add_parents(lanes, parents, visible), q) ==> has_lane(lanes, q) || parents.contains(q),
    decreases parents.len(),
{
    if parents.len() > 0 {
        let prev = add_parents(lanes, parents.drop_last(), visible);
        lemma_add_parents(lanes, parents.drop_last(), visible);
        lemma_parent_step(prev, parents.last(), visible);
        let r = add_parents(lanes, parents, visible);
        assert forall|k: int| 0 <= k < parents.len() && visible.contains(#[trigger] parents[k]) implies has_lane(r, parents[k]) by {
            if k < parents.len() - 1 {
                assert(parents.drop_last()[k] == parents[k]);
            }
        }
        assert forall|i: int| 0 <= i < lanes.len() && (#[trigger] lanes[i]) is Some implies r[i] == lanes[i] by {
            assert(prev[i] == lanes[i]);
        }
        assert forall|q: Seq<char>| #[trigger] has_lane(r, q) implies has_lane(lanes, q) || parents.contains(q) by {
            if has_lane(prev, q) {
                if !has_lane(lanes, q) {
                    assert(parents.drop_last().contains(q));
                    let k = choose|k: int| 0 <= k < parents.drop_last().len() && parents.drop_last()[k] == q;
                    assert(parents[k] == q);
                }
            } else {
                assert(parents[parents.len() - 1] == q);
            }
        }
    }
}

pub proof fn lemma_trim(lanes: Lanes)
    ensures
        trim(lanes).len() <= lanes.len(),
        forall|i: int| 0 <= i < trim(lanes).len() ==> #[trigger] trim(lanes)[i] == lanes[i],
        forall|i: int| trim(lanes).len() <= i < lanes.len() ==> (#[trigger] lanes[i]) is None,
        trim(lanes).len() > 0 ==> trim(lanes).last() is Some,
        distinct_lanes(lanes) ==> distinct_lanes(trim(lanes)),
        forall|q: Seq<char>| #[trigger] has_lane(trim(lanes), q) == has_lane(lanes, q),
    decreases lanes.len(),
{
    if lanes.len() > 0 && lanes.last() is None {
        let d = lanes.drop_last();
        lemma_trim(d);
        assert forall|i: int| 0 <= i < trim(lanes).len() implies #[trigger] trim(lanes)[i] == lanes[i] by {
            assert(d[i] == lanes[i]);
        }
        assert forall|i: int| trim(lanes).len() <= i < lanes.len() implies (#[trigger] lanes[i]) is None by {
            if i < d.len() {
                assert(d[i] == lanes[i]);
            }
        }
        assert forall|q: Seq<char>| #[trigger] has_lane(trim(lanes), q) == has_lane(lanes, q) by {
            if has_lane(lanes, q) {
                let i = choose|i: int| 0 <= i < lanes.len() && lanes[i] == Some(q);
                assert(i < trim(lanes).len());
                assert(trim(lanes)[i] == lanes[i]);
            }
            if has_lane(trim(lanes), q) {
                let i = choose|i: int| 0 <= i < trim(lanes).len() && trim(lanes)[i] == Some(q);
                assert(trim(lanes)[i] == lanes[i]);
            }
        }
        if distinct_lanes(lanes) {
            let t = trim(lanes);
            assert forall|i: int, j: int| 0 <= i < j < t.len() && (#[trigger] t[i]) is Some implies t[i] != #[trigger] t[j] by {
                assert(t[i] == lanes[i]);
                assert(t[j] == lanes[j]);
            }
        }
    }
}

pub proof fn lemma_assign(lanes: Lanes, h: Seq<char>)
    ensures
        assign(lanes, h).1 < assign(lanes, h).0.len(),
        assign(lanes, h).0[assign(lanes, h).1 as int] == Some(h),
        assign(lanes, h).0.len() >= lanes.len(),
        forall|i: int| 0 <= i < lanes.len() && (#[trigger] lanes[i]) is Some ==> assign(lanes, h).0[i] == lanes[i],
        forall|i: int| 0 <= i < assign(lanes, h).0.len() && i != assign(lanes, h).1 ==> i < lanes.len() && #[trigger] assign(lanes, h).0[i] == lanes[i],
        forall|j: int| 0 <= j < assign(lanes, h).1 ==> #[trigger] assign(lanes, h).0[j] != Some(h),
        distinct_lanes(lanes) ==> distinct_lanes(assign(lanes, h).0),
{
    lemma_first_index_props(lanes, Some(h));
    lemma_first_index_props(lanes, None);
    lemma_first_index_found(lanes, Some(h));
    lemma_place(lanes, h);
    if first_index(lanes, Some(h)) == lanes.len() {
        if distinct_lanes(lanes) {
            lemma_place_distinct(lanes, h);
        }
        let r = assign(lanes, h).0;
        assert forall|j: int| 0 <= j < assign(lanes, h).1 implies #[trigger] r[j] != Some(h) by {
            assert(r[j] == lanes[j]);
        }
    }
}

pub proof fn lemma_free_distinct(lanes: Lanes, node: int)
    requires
        distinct_lanes(lanes),
        0 <= node < lanes.len(),
    ensures
        distinct_lanes(lanes.update(node, None)),
{
    let u = lanes.update(node, None);
    assert forall|i: int, j: int| 0 <= i < j < u.len() && (#[trigger] u[i]) is Some implies u[i] != #[trigger] u[j] by {
        assert(u[i] == lanes[i]);
        if j != node {
            assert(u[j] == lanes[j]);
        }
    }
}

/// Drawing a commit keeps every lane waiting for a different commit.
pub proof fn law_step_keeps_lanes_distinct(lanes: Lanes, c: CommitModel, visible: Seq<Seq<char>>)
    requires
        distinct_lanes(lanes),
    ensures
        distinct_lanes(step(lanes, c, visible)),
{
    lemma_assign(lanes, c.hash);
    let a = assign(lanes, c.hash);
    lemma_free_distinct(a.0, a.1 as int);
    lemma_add_parents(a.0.update(a.1 as int, None), c.parents, visible);
    lemma_trim(add_parents(a.0.update(a.1 as int, None), c.parents, visible));
}

/// However many commits have been drawn, no two lanes wait for the same commit.
pub proof fn law_lanes_before_distinct(commits: Seq<CommitModel>, visible: Seq<Seq<char>>, k: nat)
    ensures
        distinct_lanes(lanes_before(commits, visible, k)),
    decreases k,
{
    if k > 0 {
        assert(lanes_before(commits, visible, k) == step(lanes_before(commits, visible, (k - 1) as nat), commits[k - 1], visible));
        law_lanes_before_distinct(commits, visible, (k - 1) as nat);
        law_step_keeps_lanes_distinct(lanes_before(commits, visible, (k - 1) as nat), commits[k - 1], visible);
    }
}

/// Asking twice for the lane of the same hash gives the same lane and changes nothing more.
pub proof fn law_assign_is_idempotent(lanes: Lanes, h: Seq<char>)
    ensures
        assign(assign(lanes, h).0, h).0 == assign(lanes, h).0,
        assign(assign(lanes, h).0, h).1 == assign(lanes, h).1,
        assign(lanes, h).0[assign(lanes, h).1 as int] == Some(h),
{
    lemma_assign(lanes, h);
    let a = assign(lanes, h);
    lemma_first_index_is(a.0, Some(h), a.1 as int);
}

/// After a commit hands over to its parents: each visible parent has a lane, the last lane is
/// not free, and each lane waits either for a commit some other lane already waited for or for a parent.
pub proof fn law_advance_tracks_parents(lanes: Lanes, node: int, parents: Seq<Seq<char>>, visible: Seq<Seq<char>>)
    requires
        0 <= node < lanes.len(),
    ensures
        forall|k: int| 0 <= k < parents.len() && visible.contains(#[trigger] parents[k])
            ==> has_lane(advance(lanes, node, parents, visible), parents[k]),
        advance(lanes, node, parents, visible).len() > 0 ==> advance(lanes, node, parents, visible).last() is Some,
        forall|q: Seq<char>| #[trigger] has_lane(advance(lanes, node, parents, visible), q)
            ==> has_lane(lanes.update(node, None), q) || parents.contains(q),
{
    let u = lanes.update(node, None);
    lemma_add_parents(u, parents, visible);
    lemma_trim(add_parents(u, parents, visible));
}

/// Once drawn, a commit no longer has a lane, unless it is one of its own visible parents.
pub proof fn law_drawn_commit_released(lanes: Lanes, c: CommitModel, visible: Seq<Seq<char>>)
    requires
        distinct_lanes(lanes),
        !c.parents.contains(c.hash),
    ensures
        !has_lane(step(lanes, c, visible), c.hash),
{
    lemma_assign(lanes, c.hash);
    let a = assign(lanes, c.hash);
    let u = a.0.update(a.1 as int, None);
    law_advance_tracks_parents(a.0, a.1 as int, c.parents, visible);
    if has_lane(u, c.hash) {
        let i = choose|i: int| 0 <= i < u.len() && u[i] == Some(c.hash);
        assert(a.0[i] == Some(c.hash));
        assert(i != a.1);
        assert(a.0[a.1 as int] == Some(c.hash));
        if i < a.1 {
            assert(false);
        } else {
            assert(false);
        }
    }
}

pub proof fn lemma_add_parents_len(lanes: Lanes, parents: Seq<Seq<char>>, visible: Seq<Seq<char>>)
    ensures
        add_parents(lanes, parents, visible).len() >= lanes.len(),
{
    lemma_add_parents(lanes, parents, visible);
}

pub proof fn lemma_widest_monotone(commits: Seq<CommitModel>, visible: Seq<Seq<char>>, k: nat, n: nat)
    requires
        k <= n,
    ensures
        widest(commits, visible, k) <= widest(commits, visible, n),
    decreases n - k,
{
    if k < n {
        lemma_widest_monotone(commits, visible, k, (n - 1) as nat);
    }
}

/// The widest point of the whole drawing holds every row: no row has more lanes than
/// `widest` of all the commits.
pub proof fn law_width_covers_rows(commits: Seq<CommitModel>, visible: Seq<Seq<char>>, k: nat)
    requires
        k < commits.len(),
    ensures
        assign(lanes_before(commits, visible, k), commits[k as int].hash).0.len()
            <= widest(commits, visible, commits.len() as nat),
{
    let a = assign(lanes_before(commits, visible, k), commits[k as int].hash);
    lemma_assign(lanes_before(commits, visible, k), commits[k as int].hash);
    lemma_add_parents_len(a.0.update(a.1 as int, None), commits[k as int].parents, visible);
    assert(step_width(commits, visible, k) >= a.0.len());
    assert(widest(commits, visible, k + 1) >= step_width(commits, visible, k));
    lemma_widest_monotone(commits, visible, k + 1, commits.len() as nat);
}

/// The number of cells a sequence of commits can open: one per commit and one per parent.
pub open spec fn total_size(commits: Seq<CommitModel>, k: nat) -> nat
    decreases k,
{
    if k == 0 { 0 } else { total_size(commits, (k - 1) as nat) + 1 + commits[k - 1].parents.len() }
}

pub proof fn lemma_add_parents_bound(lanes: Lanes, parents: Seq<Seq<char>>, visible: Seq<Seq<char>>)
    ensures
        add_parents(lanes, parents, visible).len() <= lanes.len() + parents.len(),
    decreases parents.len(),
{
    if parents.len() > 0 {
        lemma_add_parents_bound(lanes, parents.drop_last(), visible);
        lemma_place(add_parents(lanes, parents.drop_last(), visible), parents.last());
    }
}

/// The widest point of drawing the first `k` commits is bounded by the commits and parents drawn.
pub proof fn lemma_widest_bound(commits: Seq<CommitModel>, visible: Seq<Seq<char>>, k: nat)
    requires
        k <= commits.len(),
    ensures
        widest(commits, visible, k) <= total_size(commits, k),
        lanes_before(commits, visible, k).len() <= total_size(commits, k),
    decreases k,
{
    if k > 0 {
        let j = (k - 1) as nat;
        lemma_widest_bound(commits, visible, j);
        let l = lanes_before(commits, visible, j);
        let c = commits[j as int];
        lemma_assign(l, c.hash);
        let a = assign(l, c.hash);
        lemma_add_parents_bound(a.0.update(a.1 as int, None), c.parents, visible);
        lemma_trim(add_parents(a.0.update(a.1 as int, None), c.parents, visible));
        assert(a.0.len() <= l.len() + 1);
        assert(lanes_before(commits, visible, k) == step(l, c, visible));
    }
}

/// Starting from `start`, the lanes never outgrow the start plus the commits and parents drawn.
pub proof fn lemma_lanes_from_bound(start: Lanes, commits: Seq<CommitModel>, visible: Seq<Seq<char>>, k: nat)
    requires
        k <= commits.len(),
    ensures
        lanes_from(start, commits, visible, k).len() <= start.len() + total_size(commits, k),
    decreases k,
{
    if k > 0 {
        let j = (k - 1) as nat;
        lemma_lanes_from_bound(start, commits, visible, j);
        let l = lanes_from(start, commits, visible, j);
        let c = commits[j as int];
        lemma_assign(l, c.hash);
        let a = assign(l, c.hash);
        lemma_add_parents_bound(a.0.update(a.1 as int, None), c.parents, visible);
        lemma_trim(add_parents(a.0.update(a.1 as int, None), c.parents, visible));
        assert(a.0.len() <= l.len() + 1);
    }
}

pub proof fn lemma_total_size_monotone(commits: Seq<CommitModel>, k: nat, n: nat)
    requires
        k <= n,
    ensures
        total_size(commits, k) + (if k < n { 1 + commits[k as int].parents.len() } else { 0 }) <= total_size(commits, n),
    decreases n - k,
{
    if k < n {
        if k + 1 < n {
            lemma_total_size_monotone(commits, k + 1, n);
        }
    }
}

} // verus!
