use vstd::prelude::*;
use crate::utils::lanes::{first_index, lemma_first_index_is, lemma_first_index_props};
use crate::models::{commits_view, labels_view, CommitInfo, CommitModel, LabelInfo, LabelModel};
use crate::utils::styles::{plain, plain_seg, segs_view, style_seg, styled_seg, Emphasis, Segment, SegmentModel, StyleSpec};
use crate::utils::text::{concat, pad_right, padded};
use crate::utils::tui_lanes::{
    bump, color_at, colors_ok, key_of, lemma_tui_assign_colors, law_tui_step_keeps_colors, put, lanes_apart, lemma_tui_assign_apart, law_tui_step_keeps_lanes_apart, law_tui_before_keeps_lanes_apart,
    tui_assign, tui_before, tui_keys, tui_parent, tui_parents, tui_trim, TuiLanes,
};

verus! {

/// A lane of the interactive graph: the hash it waits for and its colour index.
#[derive(Clone, Debug)]
pub struct LaneState {
    pub hash: String,
    pub color_idx: usize,
}

impl LaneState {
    /// A copy of this lane.
    pub fn duplicate(&self) -> (r: LaneState)
        ensures
            r.hash@ == self.hash@,
            r.color_idx == self.color_idx,
    {
        LaneState { hash: self.hash.clone(), color_idx: self.color_idx }
    }
}

/// A lane by its hash and colour.
pub open spec fn lane_state_view(o: Option<LaneState>) -> Option<(Seq<char>, int)> {
    match o {
        Some(s) => Some((s.hash@, s.color_idx as int)),
        None => None,
    }
}

/// Lanes by their hashes and colours.
pub open spec fn tui_lanes_view(v: Seq<Option<LaneState>>) -> TuiLanes {
    v.map_values(|o: Option<LaneState>| lane_state_view(o))
}

/// A copy of a sequence of lanes.
fn copy_lanes(v: &Vec<Option<LaneState>>) -> (r: Vec<Option<LaneState>>)
    ensures
        tui_lanes_view(r@) == tui_lanes_view(v@),
{
    let mut r: Vec<Option<LaneState>> = Vec::new();
    let mut i: usize = 0;
    while i < v.len()
        invariant
            i <= v@.len(),
            tui_lanes_view(r@) =~= tui_lanes_view(v@).take(i as int),
        decreases v@.len() - i,
    {
        let l = match &v[i] {
            Some(s) => Some(s.duplicate()),
            None => None,
        };
        r.push(l);
        assert(tui_lanes_view(v@).take(i as int + 1) =~= tui_lanes_view(v@).take(i as int).push(lane_state_view(v@[i as int])));
        i = i + 1;
    }
    assert(tui_lanes_view(v@).take(v@.len() as int) =~= tui_lanes_view(v@));
    r
}

/// Index of the first lane waiting for `h`, or the number of lanes.
fn find_tui_lane(lanes: &Vec<Option<LaneState>>, h: &String) -> (r: usize)
    ensures
        r == first_index(tui_keys(tui_lanes_view(lanes@)), Some(h@)),
{
    let ghost keys = tui_keys(tui_lanes_view(lanes@));
    let mut i: usize = 0;
    while i < lanes.len()
        invariant
            i <= lanes@.len(),
            keys == tui_keys(tui_lanes_view(lanes@)),
            forall|j: int| 0 <= j < i ==> keys[j] != Some(h@),
        decreases lanes@.len() - i,
    {
        let hit = match &lanes[i] {
            Some(s) => s.hash == *h,
            None => false,
        };
        assert(keys[i as int] == key_of(lane_state_view(lanes@[i as int])));
        if hit {
            proof { lemma_first_index_is(keys, Some(h@), i as int); }
            return i;
        }
        i = i + 1;
    }
    proof { lemma_first_index_is(keys, Some(h@), i as int); }
    i
}

/// Index of the first free lane, or the number of lanes.
fn first_free_tui_lane(lanes: &Vec<Option<LaneState>>) -> (r: usize)
    ensures
        r == first_index(tui_keys(tui_lanes_view(lanes@)), None),
{
    let ghost keys = tui_keys(tui_lanes_view(lanes@));
    let mut i: usize = 0;
    while i < lanes.len()
        invariant
            i <= lanes@.len(),
            keys == tui_keys(tui_lanes_view(lanes@)),
            forall|j: int| 0 <= j < i ==> keys[j] != None::<Seq<char>>,
        decreases lanes@.len() - i,
    {
        assert(keys[i as int] == key_of(lane_state_view(lanes@[i as int])));
        if lanes[i].is_none() {
            proof { lemma_first_index_is(keys, None, i as int); }
            return i;
        }
        i = i + 1;
    }
    proof { lemma_first_index_is(keys, None, i as int); }
    i
}

/// Puts `s` in lane `pos`, or appends it when `pos` is past the end.
fn put_lane(lanes: &mut Vec<Option<LaneState>>, pos: usize, s: LaneState)
    ensures
        tui_lanes_view(final(lanes)@) == put(tui_lanes_view(old(lanes)@), pos as int, (s.hash@, s.color_idx as int)),
{
    let ghost sv = (s.hash@, s.color_idx as int);
    if pos >= lanes.len() {
        lanes.push(Some(s));
        assert(tui_lanes_view(lanes@) =~= tui_lanes_view(old(lanes)@).push(Some(sv)));
    } else {
        lanes.set(pos, Some(s));
        assert(tui_lanes_view(lanes@) =~= tui_lanes_view(old(lanes)@).update(pos as int, Some(sv)));
    }
}

/// Colours of the interactive explorer, by palette index (the index ratatui writes for the colour
/// of the same name).
pub const TUI_BLACK: u8 = 0;
pub const TUI_RED: u8 = 1;
pub const TUI_GREEN: u8 = 2;
pub const TUI_YELLOW: u8 = 3;
pub const TUI_BLUE: u8 = 4;
pub const TUI_MAGENTA: u8 = 5;
pub const TUI_CYAN: u8 = 6;
pub const TUI_GRAY: u8 = 7;
pub const TUI_DARK_GRAY: u8 = 8;
pub const TUI_LIGHT_RED: u8 = 9;
pub const TUI_WHITE: u8 = 15;

/// The colour of colour index `idx`: blue, green, yellow, magenta, cyan, red, cycling.
pub open spec fn tui_lane_color_of(idx: int) -> u8 {
    let m = idx % 6;
    if m == 0 { TUI_BLUE } else if m == 1 { TUI_GREEN } else if m == 2 { TUI_YELLOW }
    else if m == 3 { TUI_MAGENTA } else if m == 4 { TUI_CYAN } else { TUI_RED }
}

/// A style with the given colours and emphasis.
pub open spec fn tui_style(fg: u8, bg: Option<u8>, e: Emphasis) -> StyleSpec {
    StyleSpec { fg: Some(fg), bg, emphasis: e }
}

/// Lane `i` of the graph prefix of a row.
pub open spec fn tui_lane_cell(lanes: TuiLanes, i: int, node: int, node_color: int) -> SegmentModel {
    if i == node {
        styled_seg(if node == 0 { "○ "@ } else { "● "@ }, tui_style(tui_lane_color_of(node_color), None, Emphasis::Bold))
    } else if lanes[i] is Some {
        styled_seg("│ "@, tui_style(tui_lane_color_of(color_of_lane(lanes[i])), None, Emphasis::Normal))
    } else {
        plain("  "@)
    }
}

/// The colour index of a lane.
pub open spec fn color_of_lane(l: Option<(Seq<char>, int)>) -> int {
    match l {
        Some(x) => x.1,
        None => 0,
    }
}

/// The first `k` lanes of the graph prefix.
pub open spec fn tui_lane_cells(lanes: TuiLanes, node: int, node_color: int, k: nat) -> Seq<SegmentModel>
    decreases k,
{
    if k == 0 {
        Seq::empty()
    } else {
        tui_lane_cells(lanes, node, node_color, (k - 1) as nat).push(tui_lane_cell(lanes, k - 1, node, node_color))
    }
}

/// The badge of one label in the interactive explorer.
pub open spec fn tui_badge(l: LabelModel) -> SegmentModel {
    match l {
        LabelModel::Head(n) => styled_seg(" HEAD → "@ + n + " "@, tui_style(TUI_BLACK, Some(TUI_CYAN), Emphasis::Bold)),
        LabelModel::LocalBranch(n) => styled_seg(" "@ + n + " "@, tui_style(TUI_WHITE, Some(TUI_BLUE), Emphasis::Normal)),
        LabelModel::RemoteBranch(n) => styled_seg(" origin/"@ + n + " "@, tui_style(TUI_LIGHT_RED, Some(TUI_BLACK), Emphasis::Normal)),
        LabelModel::Tag(n) => styled_seg(" "@ + n + " "@, tui_style(TUI_BLACK, Some(TUI_YELLOW), Emphasis::Normal)),
    }
}

/// The badges of the first `k` labels, each followed by a space.
pub open spec fn tui_badges(labels: Seq<LabelModel>, k: nat) -> Seq<SegmentModel>
    decreases k,
{
    if k == 0 {
        Seq::empty()
    } else {
        tui_badges(labels, (k - 1) as nat) + seq![tui_badge(labels[k - 1]), plain(" "@)]
    }
}

/// `n` blank lane cells.
pub open spec fn blank_cells(n: nat) -> Seq<SegmentModel> {
    Seq::new(n, |_i: int| plain("  "@))
}

/// A row of the interactive explorer: the graph prefix padded to four lanes, the subject, the badges.
pub open spec fn tui_row_segments(lanes: TuiLanes, node: int, node_color: int, c: CommitModel, selected: bool) -> Seq<SegmentModel> {
    tui_lane_cells(lanes, node, node_color, lanes.len())
        + blank_cells(if lanes.len() < 4 { (4 - lanes.len()) as nat } else { 0 })
        + seq![styled_seg(" "@ + padded(c.subject, 40), tui_style(TUI_WHITE, None, if selected { Emphasis::Bold } else { Emphasis::Normal }))]
        + tui_badges(c.labels, c.labels.len())
}

/// `row` is row `k` of the lay-out of `commits`, starting from `lanes` and next colour `nc`.
pub open spec fn row_fits(row: GraphRow, lanes: TuiLanes, nc: int, commits: Seq<CommitModel>, k: nat) -> bool {
    let b = tui_before(lanes, nc, commits, k);
    let a = tui_assign(b.0, b.1, commits[k as int].hash);
    &&& row.commit@ == commits[k as int]
    &&& tui_lanes_view(row.lanes@) == a.0
    &&& row.node_lane == a.2
    &&& row.node_color_idx == color_at(a.0, a.2 as int)
}

/// One row of the interactive graph: the commit, the lanes when it is drawn, and its lane and colour.
pub struct GraphRow {
    pub commit: CommitInfo,
    pub lanes: Vec<Option<LaneState>>,
    pub node_lane: usize,
    pub node_color_idx: usize,
}

impl GraphRow {
    /// The segments of this row on screen; the subject is bold when the row is selected.
    pub fn render(&self, is_selected: bool) -> (r: Vec<Segment>)
        ensures
            segs_view(r@) == tui_row_segments(tui_lanes_view(self.lanes@), self.node_lane as int, self.node_color_idx as int, self.commit@, is_selected),
    {
        let ghost lanes = tui_lanes_view(self.lanes@);
        let mut spans: Vec<Segment> = Vec::new();
        let mut i: usize = 0;
        while i < self.lanes.len()
            invariant
                i <= self.lanes@.len(),
                lanes == tui_lanes_view(self.lanes@),
                segs_view(spans@) =~= tui_lane_cells(lanes, self.node_lane as int, self.node_color_idx as int, i as nat),
            decreases self.lanes@.len() - i,
        {
            let seg = if i == self.node_lane {
                let symbol = if self.node_lane == 0 { "○ " } else { "● " };
                style_seg(symbol, StyleSpec { fg: Some(TuiGraphRenderer::get_lane_color(self.node_color_idx)), bg: None, emphasis: Emphasis::Bold })
            } else {
                match &self.lanes[i] {
                    Some(ls) => style_seg("│ ", StyleSpec { fg: Some(TuiGraphRenderer::get_lane_color(ls.color_idx)), bg: None, emphasis: Emphasis::Normal }),
                    None => plain_seg("  "),
                }
            };
            assert(lanes[i as int] == lane_state_view(self.lanes@[i as int]));
            spans.push(seg);
            i = i + 1;
        }
        let ghost prefix = segs_view(spans@);
        let max_lanes: usize = 4;
        let npad: usize = if self.lanes.len() < max_lanes { max_lanes - self.lanes.len() } else { 0 };
        let mut p: usize = 0;
        while p < npad
            invariant
                p <= npad,
                segs_view(spans@) =~= prefix + blank_cells(p as nat),
            decreases npad - p,
        {
            let ghost before = segs_view(spans@);
            let b = plain_seg("  ");
            spans.push(b);
            assert(segs_view(spans@) =~= before.push(b@));
            assert(blank_cells((p + 1) as nat) =~= blank_cells(p as nat).push(plain("  "@)));
            p = p + 1;
        }
        let subject = concat(" ", pad_right(self.commit.subject.as_str(), 40).as_str());
        let emphasis = if is_selected { Emphasis::Bold } else { Emphasis::Normal };
        spans.push(style_seg(subject.as_str(), StyleSpec { fg: Some(TUI_WHITE), bg: None, emphasis }));
        let ghost head = segs_view(spans@);
        let ghost lv = labels_view(self.commit.labels@);
        let mut k: usize = 0;
        while k < self.commit.labels.len()
            invariant
                k <= self.commit.labels@.len(),
                lv == labels_view(self.commit.labels@),
                segs_view(spans@) =~= head + tui_badges(lv, k as nat),
            decreases self.commit.labels@.len() - k,
        {
            let badge = match &self.commit.labels[k] {
                LabelInfo::Head(n) => style_seg(concat(concat(" HEAD → ", n.as_str()).as_str(), " ").as_str(), StyleSpec { fg: Some(TUI_BLACK), bg: Some(TUI_CYAN), emphasis: Emphasis::Bold }),
                LabelInfo::LocalBranch(n) => style_seg(concat(concat(" ", n.as_str()).as_str(), " ").as_str(), StyleSpec { fg: Some(TUI_WHITE), bg: Some(TUI_BLUE), emphasis: Emphasis::Normal }),
                LabelInfo::RemoteBranch(n) => style_seg(concat(concat(" origin/", n.as_str()).as_str(), " ").as_str(), StyleSpec { fg: Some(TUI_LIGHT_RED), bg: Some(TUI_BLACK), emphasis: Emphasis::Normal }),
                LabelInfo::Tag(n) => style_seg(concat(concat(" ", n.as_str()).as_str(), " ").as_str(), StyleSpec { fg: Some(TUI_BLACK), bg: Some(TUI_YELLOW), emphasis: Emphasis::Normal }),
            };
            assert(badge@ == tui_badge(lv[k as int]));
            let ghost before = segs_view(spans@);
            let sp = plain_seg(" ");
            spans.push(badge);
            spans.push(sp);
            assert(segs_view(spans@) =~= before + seq![badge@, sp@]);
            assert(tui_badges(lv, (k + 1) as nat) == tui_badges(lv, k as nat) + seq![tui_badge(lv[k as int]), plain(" "@)]);
            k = k + 1;
        }
        spans
    }
}

/// Lays out the commit graph of the interactive explorer, lane by lane and colour by colour.
pub struct TuiGraphRenderer {
    active_lanes: Vec<Option<LaneState>>,
    next_color_idx: usize,
}

impl TuiGraphRenderer {
    /// The lanes, by hash and colour.
    pub closed spec fn lanes(&self) -> TuiLanes {
        tui_lanes_view(self.active_lanes@)
    }

    /// The colour index handed out next.
    pub closed spec fn next_color_spec(&self) -> int {
        self.next_color_idx as int
    }

    /// Colours are in range, no two lanes wait for the same commit, and the last lane is busy.
    pub open spec fn wf(&self) -> bool {
        colors_ok(self.lanes(), self.next_color_spec()) && lanes_apart(self.lanes())
    }

    /// The colour of colour index `idx`.
    pub fn get_lane_color(idx: usize) -> (c: u8)
        ensures
            c == tui_lane_color_of(idx as int),
    {
        let m = idx % 6;
        if m == 0 { TUI_BLUE } else if m == 1 { TUI_GREEN } else if m == 2 { TUI_YELLOW }
        else if m == 3 { TUI_MAGENTA } else if m == 4 { TUI_CYAN } else { TUI_RED }
    }

    /// A renderer with no lanes; the first colour handed out is 1.
    pub fn new() -> (r: Self)
        ensures
            r.lanes() == Seq::<Option<(Seq<char>, int)>>::empty(),
            r.next_color_spec() == 1,
            r.wf(),
    {
        let r = TuiGraphRenderer { active_lanes: Vec::new(), next_color_idx: 1 };
        assert(r.lanes() =~= Seq::<Option<(Seq<char>, int)>>::empty());
        r
    }

    /// Hands out the next colour index, cycling through 1 to 5.
    fn next_color(&mut self) -> (c: usize)
        requires
            old(self).wf(),
        ensures
            c == old(self).next_color_spec(),
            final(self).next_color_spec() == bump(old(self).next_color_spec()),
            final(self).lanes() == old(self).lanes(),
            final(self).wf(),
    {
        let c = self.next_color_idx;
        self.next_color_idx = (self.next_color_idx + 1) % 6;
        if self.next_color_idx == 0 {
            self.next_color_idx = 1;
        }
        c
    }

    /// Lays out `commits` top to bottom: one row per commit, each with the lanes at the time it
    /// is drawn, its lane and its colour; the renderer keeps the lanes for what follows.
    pub fn compute_rows(&mut self, commits: &[CommitInfo]) -> (rows: Vec<GraphRow>)
        requires
            old(self).wf(),
        ensures
            final(self).wf(),
            rows@.len() == commits@.len(),
            forall|k: int| 0 <= k < rows@.len() ==> row_fits(
                #[trigger] rows@[k], old(self).lanes(), old(self).next_color_spec(), commits_view(commits@), k as nat),
            final(self).lanes() == tui_before(old(self).lanes(), old(self).next_color_spec(), commits_view(commits@), commits@.len() as nat).0,
            final(self).next_color_spec() == tui_before(old(self).lanes(), old(self).next_color_spec(), commits_view(commits@), commits@.len() as nat).1,
    {
        let ghost l0 = self.lanes();
        let ghost nc0 = self.next_color_spec();
        let ghost cv = commits_view(commits@);
        let mut rows: Vec<GraphRow> = Vec::new();
        let mut k: usize = 0;
        while k < commits.len()
            invariant
                k <= commits@.len(),
                cv == commits_view(commits@),
                self.wf(),
                self.lanes() == tui_before(l0, nc0, cv, k as nat).0,
                self.next_color_spec() == tui_before(l0, nc0, cv, k as nat).1,
                rows@.len() == k,
                forall|j: int| 0 <= j < k ==> row_fits(#[trigger] rows@[j], l0, nc0, cv, j as nat),
            decreases commits@.len() - k,
        {
            let commit = &commits[k];
            assert(cv[k as int] == commit@);
            let ghost prev = tui_before(l0, nc0, cv, k as nat);
            proof {
                law_tui_step_keeps_colors(prev.0, prev.1, commit@);
                lemma_tui_assign_colors(prev.0, prev.1, commit@.hash);
                law_tui_step_keeps_lanes_apart(prev.0, prev.1, commit@);
            }
            let node = self.get_or_assign_lane(&commit.hash);
            let color_idx = match &self.active_lanes[node] {
                Some(ls) => ls.color_idx,
                None => 0,
            };
            assert(color_idx == color_at(self.lanes(), node as int));
            let ghost assigned = self.lanes();
            let mut next_lanes = copy_lanes(&self.active_lanes);
            next_lanes.set(node, None);
            assert(tui_lanes_view(next_lanes@) =~= assigned.update(node as int, None));
            let ghost start = tui_lanes_view(next_lanes@);
            let ghost ncs = self.next_color_spec();
            let ghost ps = commit@.parents;
            let mut i: usize = 0;
            assert(ps.take(0) =~= Seq::<Seq<char>>::empty());
            while i < commit.parents.len()
                invariant
                    i <= commit@.parents.len(),
                    ps == commit@.parents,
                    ps == crate::models::strs_view(commit.parents@),
                    self.wf(),
                    self.lanes() == assigned,
                    tui_lanes_view(next_lanes@) == tui_parents(start, ncs, ps.take(i as int), node as int, color_idx as int).0,
                    self.next_color_spec() == tui_parents(start, ncs, ps.take(i as int), node as int, color_idx as int).1,
                decreases commit@.parents.len() - i,
            {
                let p = &commit.parents[i];
                assert(ps.take(i as int + 1).drop_last() =~= ps.take(i as int));
                assert(ps.take(i as int + 1).last() == p@);
                let ghost pl = tui_lanes_view(next_lanes@);
                let ghost pnc = self.next_color_spec();
                proof { lemma_first_index_props(tui_keys(pl), Some(p@)); }
                if find_tui_lane(&next_lanes, p) == next_lanes.len() {
                    let color = if node == 0 {
                        0
                    } else if i == 0 {
                        color_idx
                    } else {
                        self.next_color()
                    };
                    let pos = if i == 0 && node == 0 { 0 } else { first_free_tui_lane(&next_lanes) };
                    put_lane(&mut next_lanes, pos, LaneState { hash: p.clone(), color_idx: color });
                }
                assert(tui_lanes_view(next_lanes@) == tui_parent(pl, pnc, p@, i as int, node as int, color_idx as int).0);
                assert(self.next_color_spec() == tui_parent(pl, pnc, p@, i as int, node as int, color_idx as int).1);
                i = i + 1;
            }
            assert(ps.take(commit@.parents.len() as int) =~= ps);
            rows.push(GraphRow { commit: commit.duplicate(), lanes: copy_lanes(&self.active_lanes), node_lane: node, node_color_idx: color_idx });
            while next_lanes.len() > 0 && next_lanes[next_lanes.len() - 1].is_none()
                invariant
                    tui_trim(tui_lanes_view(next_lanes@)) == tui_trim(tui_parents(start, ncs, ps, node as int, color_idx as int).0),
                decreases next_lanes@.len(),
            {
                let ghost before = tui_lanes_view(next_lanes@);
                next_lanes.pop();
                assert(tui_lanes_view(next_lanes@) =~= before.drop_last());
            }
            self.active_lanes = next_lanes;
            k = k + 1;
        }
        rows
    }

    /// The lane that `hash` is drawn in: the one already waiting for it, or a newly taken one
    /// with a fresh colour (colour 0 for the first lane).
    fn get_or_assign_lane(&mut self, hash: &String) -> (pos: usize)
        requires
            old(self).wf(),
        ensures
            final(self).lanes() == tui_assign(old(self).lanes(), old(self).next_color_spec(), hash@).0,
            final(self).next_color_spec() == tui_assign(old(self).lanes(), old(self).next_color_spec(), hash@).1,
            pos == tui_assign(old(self).lanes(), old(self).next_color_spec(), hash@).2,
            final(self).wf(),
    {
        proof {
            lemma_tui_assign_colors(self.lanes(), self.next_color_spec(), hash@);
            lemma_tui_assign_apart(self.lanes(), self.next_color_spec(), hash@);
        }
        let f = find_tui_lane(&self.active_lanes, hash);
        if f < self.active_lanes.len() {
            return f;
        }
        let pos = if self.active_lanes.len() == 0 { 0 } else { first_free_tui_lane(&self.active_lanes) };
        proof {
            if self.active_lanes.len() == 0 {
                assert(first_index(tui_keys(self.lanes()), None) == 0);
            }
        }
        let color = if pos == 0 { 0 } else { self.next_color() };
        put_lane(&mut self.active_lanes, pos, LaneState { hash: hash.clone(), color_idx: color });
        pos
    }
}

/// Every row of a lay-out is drawn in a lane that waits for its own commit, in one of the six colours.
pub proof fn law_row_holds_its_commit(row: GraphRow, lanes: TuiLanes, nc: int, commits: Seq<CommitModel>, k: nat)
    requires
        colors_ok(lanes, nc),
        k < commits.len(),
        row_fits(row, lanes, nc, commits, k),
    ensures
        (row.node_lane as int) < tui_lanes_view(row.lanes@).len(),
        key_of(tui_lanes_view(row.lanes@)[row.node_lane as int]) == Some(row.commit@.hash),
        row.node_color_idx < 6,
{
    crate::utils::tui_lanes::law_tui_before_keeps_colors(lanes, nc, commits, k);
    let b = tui_before(lanes, nc, commits, k);
    lemma_tui_assign_colors(b.0, b.1, commits[k as int].hash);
    law_tui_step_keeps_colors(b.0, b.1, commits[k as int]);
}

/// In every row of a lay-out, no two lanes wait for the same commit and the last lane is busy.
pub proof fn law_row_lanes_apart(row: GraphRow, lanes: TuiLanes, nc: int, commits: Seq<CommitModel>, k: nat)
    requires
        lanes_apart(lanes),
        k < commits.len(),
        row_fits(row, lanes, nc, commits, k),
    ensures
        lanes_apart(tui_lanes_view(row.lanes@)),
{
    law_tui_before_keeps_lanes_apart(lanes, nc, commits, k);
    let b = tui_before(lanes, nc, commits, k);
    law_tui_step_keeps_lanes_apart(b.0, b.1, commits[k as int]);
}

} // verus!
