use vstd::prelude::*;
use crate::utils::lanes::{first_index, lemma_first_index_props, Lanes};
use crate::models::CommitModel;

verus! {

/// The lanes of the interactive graph: each waits for a hash and has a colour index.
pub type TuiLanes = Seq<Option<(Seq<char>, int)>>;

/// The hash a lane waits for, if any.
pub open spec fn key_of(l: Option<(Seq<char>, int)>) -> Option<Seq<char>> {
    match l {
        Some(x) => Some(x.0),
        None => None,
    }
}

/// The hashes the lanes wait for.
pub open spec fn tui_keys(lanes: TuiLanes) -> Lanes {
    lanes.map_values(|l: Option<(Seq<char>, int)>| key_of(l))
}

/// The colour index handed out after `c`: colours cycle through 1 to 5, 0 being kept for the first lane.
pub open spec fn bump(c: int) -> int {
    if (c + 1) % 6 == 0 { 1 } else { (c + 1) % 6 }
}

/// `lanes` with `s` in lane `pos`, or appended when `pos` is past the end.
pub open spec fn put(lanes: TuiLanes, pos: int, s: (Seq<char>, int)) -> TuiLanes {
    if pos < lanes.len() {
        lanes.update(pos, Some(s))
    } else {
        lanes.push(Some(s))
    }
}

/// The lane of hash `h`, with the next colour index: (lanes, next colour, lane).
pub open spec fn tui_assign(lanes: TuiLanes, nc: int, h: Seq<char>) -> (TuiLanes, int, nat) {
    let f = first_index(tui_keys(lanes), Some(h));
    if f < lanes.len() {
        (lanes, nc, f)
    } else {
        let pos = first_index(tui_keys(lanes), None);
        if pos == 0 {
            (put(lanes, 0, (h, 0)), nc, 0)
        } else {
            (put(lanes, pos as int, (h, nc)), bump(nc), pos)
        }
    }
}

/// Parent `p`, the `i`-th of a commit drawn in lane `node` with colour `color`, starts a lane
/// unless one waits for it already.
pub open spec fn tui_parent(lanes: TuiLanes, nc: int, p: Seq<char>, i: int, node: int, color: int) -> (TuiLanes, int) {
    if first_index(tui_keys(lanes), Some(p)) < lanes.len() {
        (lanes, nc)
    } else {
        let pos = if i == 0 && node == 0 { 0 } else { first_index(tui_keys(lanes), None) as int };
        if node == 0 {
            (put(lanes, pos, (p, 0)), nc)
        } else if i == 0 {
            (put(lanes, pos, (p, color)), nc)
        } else {
            (put(lanes, pos, (p, nc)), bump(nc))
        }
    }
}

/// Each parent in turn starts a lane.
pub open spec fn tui_parents(lanes: TuiLanes, nc: int, parents: Seq<Seq<char>>, node: int, color: int) -> (TuiLanes, int)
    decreases parents.len(),
{
    if parents.len() == 0 {
        (lanes, nc)
    } else {
        let r = tui_parents(lanes, nc, parents.drop_last(), node, color);
        tui_parent(r.0, r.1, parents.last(), parents.len() - 1, node, color)
    }
}

/// `lanes` without their trailing free lanes.
pub open spec fn tui_trim(lanes: TuiLanes) -> TuiLanes
    decreases lanes.len(),
{
    if lanes.len() > 0 && lanes.last() is None {
        tui_trim(lanes.drop_last())
    } else {
        lanes
    }
}

/// The colour of a lane (0 for a free one).
pub open spec fn color_of(l: Option<(Seq<char>, int)>) -> int {
    match l {
        Some(x) => x.1,
        None => 0,
    }
}

/// The colour of the lane at `pos`.
pub open spec fn color_at(lanes: TuiLanes, pos: int) -> int {
    color_of(lanes[pos])
}

/// The lanes and next colour after commit `c` is drawn.
pub open spec fn tui_step(lanes: TuiLanes, nc: int, c: CommitModel) -> (TuiLanes, int) {
    let a = tui_assign(lanes, nc, c.hash);
    let r = tui_parents(a.0.update(a.2 as int, None), a.1, c.parents, a.2 as int, color_at(a.0, a.2 as int));
    (tui_trim(r.0), r.1)
}

/// The lanes and next colour before commit `k` is drawn, starting from `lanes` and `nc`.
pub open spec fn tui_before(lanes: TuiLanes, nc: int, commits: Seq<CommitModel>, k: nat) -> (TuiLanes, int)
    decreases k,
{
    if k == 0 {
        (lanes, nc)
    } else {
        let prev = tui_before(lanes, nc, commits, (k - 1) as nat);
        tui_step(prev.0, prev.1, commits[k - 1])
    }
}

/// Every lane colour is one of the six colours, and the next colour is one of 1 to 5.
pub open spec fn colors_ok(lanes: TuiLanes, nc: int) -> bool {
    &&& 1 <= nc <= 5
    &&& forall|i: int| 0 <= i < lanes.len() && (#[trigger] lanes[i]) is Some ==> 0 <= color_of(lanes[i]) < 6
}

pub proof fn lemma_put_colors(lanes: TuiLanes, nc: int, pos: int, s: (Seq<char>, int))
    requires
        colors_ok(lanes, nc),
        0 <= pos,
        0 <= s.1 < 6,
    ensures
        colors_ok(put(lanes, pos, s), nc),
{
    let r = put(lanes, pos, s);
    assert forall|i: int| 0 <= i < r.len() && (#[trigger] r[i]) is Some implies 0 <= color_of(r[i]) < 6 by {
        if i != pos && i < lanes.len() {
            assert(r[i] == lanes[i]);
        }
    }
}

pub proof fn lemma_tui_assign_colors(lanes: TuiLanes, nc: int, h: Seq<char>)
    requires
        colors_ok(lanes, nc),
    ensures
        colors_ok(tui_assign(lanes, nc, h).0, tui_assign(lanes, nc, h).1),
        tui_assign(lanes, nc, h).2 < tui_assign(lanes, nc, h).0.len(),
        tui_assign(lanes, nc, h).0[tui_assign(lanes, nc, h).2 as int] is Some,
        key_of(tui_assign(lanes, nc, h).0[tui_assign(lanes, nc, h).2 as int]) == Some(h),
{
    lemma_first_index_props(tui_keys(lanes), Some(h));
    lemma_first_index_props(tui_keys(lanes), None);
    let f = first_index(tui_keys(lanes), Some(h));
    if f < lanes.len() {
        assert(tui_keys(lanes)[f as int] == key_of(lanes[f as int]));
    } else {
        let pos = first_index(tui_keys(lanes), None);
        if pos == 0 {
            lemma_put_colors(lanes, nc, 0, (h, 0));
        } else {
            lemma_put_colors(lanes, nc, pos as int, (h, nc));
            let b = bump(nc);
            assert(1 <= b <= 5);
        }
    }
}

pub proof fn lemma_tui_parents_colors(lanes: TuiLanes, nc: int, parents: Seq<Seq<char>>, node: int, color: int)
    requires
        colors_ok(lanes, nc),
        0 <= color < 6,
        0 <= node,
    ensures
        colors_ok(tui_parents(lanes, nc, parents, node, color).0, tui_parents(lanes, nc, parents, node, color).1),
    decreases parents.len(),
{
    if parents.len() > 0 {
        lemma_tui_parents_colors(lanes, nc, parents.drop_last(), node, color);
        let r = tui_parents(lanes, nc, parents.drop_last(), node, color);
        lemma_first_index_props(tui_keys(r.0), None);
        let i = parents.len() - 1;
        let pos = if i == 0 && node == 0 { 0 } else { first_index(tui_keys(r.0), None) as int };
        if first_index(tui_keys(r.0), Some(parents.last())) >= r.0.len() {
            if node == 0 {
                lemma_put_colors(r.0, r.1, pos, (parents.last(), 0));
            } else if i == 0 {
                lemma_put_colors(r.0, r.1, pos, (parents.last(), color));
            } else {
                lemma_put_colors(r.0, r.1, pos, (parents.last(), r.1));
                let b = bump(r.1);
                assert(1 <= b <= 5);
                assert(colors_ok(put(r.0, pos, (parents.last(), r.1)), b));
            }
        }
    }
}

pub proof fn lemma_tui_trim_colors(lanes: TuiLanes, nc: int)
    requires
        colors_ok(lanes, nc),
    ensures
        colors_ok(tui_trim(lanes), nc),
    decreases lanes.len(),
{
    if lanes.len() > 0 && lanes.last() is None {
        let d = lanes.drop_last();
        assert forall|i: int| 0 <= i < d.len() && (#[trigger] d[i]) is Some implies 0 <= color_of(d[i]) < 6 by {
            assert(d[i] == lanes[i]);
        }
        lemma_tui_trim_colors(d, nc);
    }
}

/// Drawing a commit keeps every lane colour among the six colours and the next colour among 1 to 5;
/// the commit's own colour is one of the six.
pub proof fn law_tui_step_keeps_colors(lanes: TuiLanes, nc: int, c: CommitModel)
    requires
        colors_ok(lanes, nc),
    ensures
        colors_ok(tui_step(lanes, nc, c).0, tui_step(lanes, nc, c).1),
        0 <= color_at(tui_assign(lanes, nc, c.hash).0, tui_assign(lanes, nc, c.hash).2 as int) < 6,
{
    lemma_tui_assign_colors(lanes, nc, c.hash);
    let a = tui_assign(lanes, nc, c.hash);
    let u = a.0.update(a.2 as int, None);
    assert(colors_ok(u, a.1)) by {
        assert forall|i: int| 0 <= i < u.len() && (#[trigger] u[i]) is Some implies 0 <= color_of(u[i]) < 6 by {
            assert(u[i] == a.0[i]);
        }
    }
    let color = color_at(a.0, a.2 as int);
    assert(0 <= color < 6);
    lemma_tui_parents_colors(u, a.1, c.parents, a.2 as int, color);
    let r = tui_parents(u, a.1, c.parents, a.2 as int, color);
    lemma_tui_trim_colors(r.0, r.1);
}

/// However many commits have been drawn, colours stay in range.
pub proof fn law_tui_before_keeps_colors(lanes: TuiLanes, nc: int, commits: Seq<CommitModel>, k: nat)
    requires
        colors_ok(lanes, nc),
    ensures
        colors_ok(tui_before(lanes, nc, commits, k).0, tui_before(lanes, nc, commits, k).1),
    decreases k,
{
    if k > 0 {
        law_tui_before_keeps_colors(lanes, nc, commits, (k - 1) as nat);
        let prev = tui_before(lanes, nc, commits, (k - 1) as nat);
        law_tui_step_keeps_colors(prev.0, prev.1, commits[k - 1]);
    }
}

/// The hash a busy lane waits for.
pub open spec fn lane_hash(l: Option<(Seq<char>, int)>) -> Seq<char> {
    match l {
        Some(x) => x.0,
        None => Seq::empty(),
    }
}

/// No two busy lanes wait for the same hash.
pub open spec fn keys_distinct(lanes: TuiLanes) -> bool {
    forall|i: int, j: int| 0 <= i < j < lanes.len() && (#[trigger] lanes[i]) is Some && (#[trigger] lanes[j]) is Some
        ==> lane_hash(lanes[i]) != lane_hash(lanes[j])
}

/// The lanes are empty or their last lane is busy.
pub open spec fn ends_busy(lanes: TuiLanes) -> bool {
    lanes.len() == 0 || lanes.last() is Some
}

/// No busy lane waits for `h`.
pub open spec fn absent(lanes: TuiLanes, h: Seq<char>) -> bool {
    forall|j: int| 0 <= j < lanes.len() && (#[trigger] lanes[j]) is Some ==> lane_hash(lanes[j]) != h
}

/// The lanes never wait twice for one hash, and end in a busy lane.
pub open spec fn lanes_apart(lanes: TuiLanes) -> bool {
    keys_distinct(lanes) && ends_busy(lanes)
}

pub proof fn lemma_absent_when_not_found(lanes: TuiLanes, h: Seq<char>)
    requires
        first_index(tui_keys(lanes), Some(h)) >= lanes.len(),
    ensures
        absent(lanes, h),
{
    lemma_first_index_props(tui_keys(lanes), Some(h));
    assert forall|j: int| 0 <= j < lanes.len() && (#[trigger] lanes[j]) is Some implies lane_hash(lanes[j]) != h by {
        assert(tui_keys(lanes)[j] == key_of(lanes[j]));
    }
}

pub proof fn lemma_put_apart(lanes: TuiLanes, pos: int, s: (Seq<char>, int))
    requires
        keys_distinct(lanes),
        absent(lanes, s.0),
        0 <= pos,
    ensures
        keys_distinct(put(lanes, pos, s)),
        ends_busy(lanes) ==> ends_busy(put(lanes, pos, s)),
{
    let r = put(lanes, pos, s);
    assert forall|i: int, j: int| 0 <= i < j < r.len() && (#[trigger] r[i]) is Some && (#[trigger] r[j]) is Some
        implies lane_hash(r[i]) != lane_hash(r[j]) by {
        if i != pos && i < lanes.len() {
            assert(r[i] == lanes[i]);
        }
        if j != pos && j < lanes.len() {
            assert(r[j] == lanes[j]);
        }
    }
}

pub proof fn lemma_free_apart(lanes: TuiLanes, pos: int)
    requires
        keys_distinct(lanes),
        0 <= pos < lanes.len(),
    ensures
        keys_distinct(lanes.update(pos, None)),
        forall|h: Seq<char>| absent(lanes, h) ==> absent(lanes.update(pos, None), h),
{
    let r = lanes.update(pos, None);
    assert forall|i: int, j: int| 0 <= i < j < r.len() && (#[trigger] r[i]) is Some && (#[trigger] r[j]) is Some
        implies lane_hash(r[i]) != lane_hash(r[j]) by {
        if i != pos {
            assert(r[i] == lanes[i]);
        }
        if j != pos {
            assert(r[j] == lanes[j]);
        }
    }
    assert forall|h: Seq<char>| absent(lanes, h) implies absent(r, h) by {
        assert forall|j: int| 0 <= j < r.len() && (#[trigger] r[j]) is Some implies lane_hash(r[j]) != h by {
            if j != pos {
                assert(r[j] == lanes[j]);
            }
        }
    }
}

pub proof fn lemma_tui_assign_apart(lanes: TuiLanes, nc: int, h: Seq<char>)
    requires
        lanes_apart(lanes),
    ensures
        lanes_apart(tui_assign(lanes, nc, h).0),
        tui_assign(lanes, nc, h).2 < tui_assign(lanes, nc, h).0.len(),
{
    let f = first_index(tui_keys(lanes), Some(h));
    lemma_first_index_props(tui_keys(lanes), Some(h));
    lemma_first_index_props(tui_keys(lanes), None);
    if f >= lanes.len() {
        lemma_absent_when_not_found(lanes, h);
        let pos = first_index(tui_keys(lanes), None);
        if pos == 0 {
            lemma_put_apart(lanes, 0, (h, 0));
        } else {
            lemma_put_apart(lanes, pos as int, (h, nc));
        }
    }
}

pub proof fn lemma_tui_parents_apart(lanes: TuiLanes, nc: int, parents: Seq<Seq<char>>, node: int, color: int)
    requires
        keys_distinct(lanes),
    ensures
        keys_distinct(tui_parents(lanes, nc, parents, node, color).0),
    decreases parents.len(),
{
    if parents.len() > 0 {
        lemma_tui_parents_apart(lanes, nc, parents.drop_last(), node, color);
        let r = tui_parents(lanes, nc, parents.drop_last(), node, color);
        let p = parents.last();
        let i = parents.len() - 1;
        if first_index(tui_keys(r.0), Some(p)) >= r.0.len() {
            lemma_absent_when_not_found(r.0, p);
            lemma_first_index_props(tui_keys(r.0), None);
            let pos = if i == 0 && node == 0 { 0 } else { first_index(tui_keys(r.0), None) as int };
            if node == 0 {
                lemma_put_apart(r.0, pos, (p, 0));
            } else if i == 0 {
                lemma_put_apart(r.0, pos, (p, color));
            } else {
                lemma_put_apart(r.0, pos, (p, r.1));
            }
        }
    }
}

pub proof fn lemma_tui_trim_apart(lanes: TuiLanes)
    requires
        keys_distinct(lanes),
    ensures
        lanes_apart(tui_trim(lanes)),
    decreases lanes.len(),
{
    if lanes.len() > 0 && lanes.last() is None {
        let d = lanes.drop_last();
        assert forall|i: int, j: int| 0 <= i < j < d.len() && (#[trigger] d[i]) is Some && (#[trigger] d[j]) is Some
            implies lane_hash(d[i]) != lane_hash(d[j]) by {
            assert(d[i] == lanes[i]);
            assert(d[j] == lanes[j]);
        }
        lemma_tui_trim_apart(d);
    }
}

/// Drawing a commit never makes two lanes wait for the same hash, and leaves the lanes ending in a
/// busy lane; so do the lanes of the commit's own row.
pub proof fn law_tui_step_keeps_lanes_apart(lanes: TuiLanes, nc: int, c: CommitModel)
    requires
        lanes_apart(lanes),
    ensures
        lanes_apart(tui_step(lanes, nc, c).0),
        lanes_apart(tui_assign(lanes, nc, c.hash).0),
{
    lemma_tui_assign_apart(lanes, nc, c.hash);
    let a = tui_assign(lanes, nc, c.hash);
    lemma_free_apart(a.0, a.2 as int);
    let u = a.0.update(a.2 as int, None);
    lemma_tui_parents_apart(u, a.1, c.parents, a.2 as int, color_at(a.0, a.2 as int));
    let r = tui_parents(u, a.1, c.parents, a.2 as int, color_at(a.0, a.2 as int));
    lemma_tui_trim_apart(r.0);
}

/// However many commits have been drawn, the lanes never wait twice for one hash and end in a
/// busy lane.
pub proof fn law_tui_before_keeps_lanes_apart(lanes: TuiLanes, nc: int, commits: Seq<CommitModel>, k: nat)
    requires
        lanes_apart(lanes),
    ensures
        lanes_apart(tui_before(lanes, nc, commits, k).0),
    decreases k,
{
    if k > 0 {
        law_tui_before_keeps_lanes_apart(lanes, nc, commits, (k - 1) as nat);
        let prev = tui_before(lanes, nc, commits, (k - 1) as nat);
        law_tui_step_keeps_lanes_apart(prev.0, prev.1, commits[k - 1]);
    }
}

} // verus!
