use vstd::prelude::*;
use crate::utils::lanes::{
    lanes_from, lemma_assign, lemma_lanes_from_bound, lemma_total_size_monotone, lemma_widest_bound, total_size,
    add_parents, advance, assign, first_index, lanes_before, lanes_view, lemma_first_index_is,
    lemma_first_index_props, lemma_place, place, trim, widest, Lanes,
};
use crate::models::{commits_view, labels_view, opt_str_view, strs_view, CommitInfo, CommitModel, LabelInfo, LabelModel};
use crate::utils::styles::{
    fg_style, lane_color_of, plain, plain_seg, segs_view, style_seg, styled_seg, Emphasis, Segment,
    SegmentModel, StyleSpec, TreeStyle, CYAN, DARK_GREY, WHITE,
};
use crate::utils::text::{contains_seq, occurs_at, concat, decimal, decimal_u64, short_hash, short_hash_of, spaces};

verus! {

/// Whether lane `lane` waits for `h`.
fn lane_holds(lane: &Option<String>, h: &String) -> (r: bool)
    ensures
        r == (opt_str_view(*lane) == Some(h@)),
{
    match lane {
        Some(s) => *s == *h,
        None => false,
    }
}

/// Index of the first lane waiting for `h`, or the number of lanes.
fn find_lane(lanes: &Vec<Option<String>>, h: &String) -> (r: usize)
    ensures
        r == first_index(lanes_view(lanes@), Some(h@)),
{
    let mut i: usize = 0;
    while i < lanes.len()
        invariant
            i <= lanes@.len(),
            forall|j: int| 0 <= j < i ==> lanes_view(lanes@)[j] != Some(h@),
        decreases lanes@.len() - i,
    {
        if lane_holds(&lanes[i], h) {
            proof { lemma_first_index_is(lanes_view(lanes@), Some(h@), i as int); }
            return i;
        }
        i = i + 1;
    }
    proof { lemma_first_index_is(lanes_view(lanes@), Some(h@), i as int); }
    i
}

/// Index of the first free lane, or the number of lanes.
fn first_free_lane(lanes: &Vec<Option<String>>) -> (r: usize)
    ensures
        r == first_index(lanes_view(lanes@), None),
{
    let mut i: usize = 0;
    while i < lanes.len()
        invariant
            i <= lanes@.len(),
            forall|j: int| 0 <= j < i ==> lanes_view(lanes@)[j] != None::<Seq<char>>,
        decreases lanes@.len() - i,
    {
        if lanes[i].is_none() {
            proof { lemma_first_index_is(lanes_view(lanes@), None, i as int); }
            return i;
        }
        i = i + 1;
    }
    proof { lemma_first_index_is(lanes_view(lanes@), None, i as int); }
    i
}

/// Whether `v` holds a string equal to `s`.
pub fn contains_string(v: &Vec<String>, s: &String) -> (r: bool)
    ensures
        r == strs_view(v@).contains(s@),
{
    let mut i: usize = 0;
    while i < v.len()
        invariant
            i <= v@.len(),
            forall|j: int| 0 <= j < i ==> strs_view(v@)[j] != s@,
        decreases v@.len() - i,
    {
        if v[i] == *s {
            assert(strs_view(v@)[i as int] == s@);
            return true;
        }
        i = i + 1;
    }
    false
}

/// Puts `v` in the first free lane, or in a new lane at the end.
fn place_lane(lanes: &mut Vec<Option<String>>, v: String)
    ensures
        lanes_view(final(lanes)@) == place(lanes_view(old(lanes)@), v@),
{
    let p = first_free_lane(lanes);
    proof { lemma_first_index_props(lanes_view(lanes@), None); }
    if p == lanes.len() {
        lanes.push(Some(v));
        assert(lanes_view(lanes@) =~= lanes_view(old(lanes)@).push(Some(v@)));
    } else {
        let ghost vv = v@;
        lanes.set(p, Some(v));
        assert(lanes_view(lanes@) =~= lanes_view(old(lanes)@).update(p as int, Some(vv)));
    }
}

/// The lane for hash `h`: the one already waiting for it, or a newly taken one.
fn assign_lane(lanes: &mut Vec<Option<String>>, h: String) -> (pos: usize)
    ensures
        lanes_view(final(lanes)@) == assign(lanes_view(old(lanes)@), h@).0,
        pos == assign(lanes_view(old(lanes)@), h@).1,
{
    let f = find_lane(lanes, &h);
    if f < lanes.len() {
        f
    } else {
        let p = first_free_lane(lanes);
        place_lane(lanes, h);
        p
    }
}

/// Frees lane `node`.
fn free_lane(lanes: &mut Vec<Option<String>>, node: usize)
    requires
        node < old(lanes)@.len(),
    ensures
        lanes_view(final(lanes)@) == lanes_view(old(lanes)@).update(node as int, None),
{
    lanes.set(node, None);
    assert(lanes_view(lanes@) =~= lanes_view(old(lanes)@).update(node as int, None));
}

/// Starts waiting for each visible parent that no lane waits for yet.
fn add_parent_lanes(lanes: &mut Vec<Option<String>>, parents: &Vec<String>, visible: &Vec<String>)
    ensures
        lanes_view(final(lanes)@) == add_parents(lanes_view(old(lanes)@), strs_view(parents@), strs_view(visible@)),
{
    let ghost start = lanes_view(lanes@);
    let ghost ps = strs_view(parents@);
    let ghost vis = strs_view(visible@);
    let mut i: usize = 0;
    assert(ps.take(0) =~= Seq::<Seq<char>>::empty());
    while i < parents.len()
        invariant
            i <= parents@.len(),
            ps == strs_view(parents@),
            vis == strs_view(visible@),
            lanes_view(lanes@) == add_parents(start, ps.take(i as int), vis),
        decreases parents@.len() - i,
    {
        let p = &parents[i];
        assert(ps.take(i as int + 1).drop_last() =~= ps.take(i as int));
        assert(ps.take(i as int + 1).last() == p@);
        if contains_string(visible, p) && find_lane(lanes, p) == lanes.len() {
            place_lane(lanes, p.clone());
        }
        i = i + 1;
    }
    assert(ps.take(parents@.len() as int) =~= ps);
}

/// Drops the trailing free lanes.
fn trim_lanes(lanes: &mut Vec<Option<String>>)
    ensures
        lanes_view(final(lanes)@) == trim(lanes_view(old(lanes)@)),
{
    while lanes.len() > 0 && lanes[lanes.len() - 1].is_none()
        invariant
            trim(lanes_view(lanes@)) == trim(lanes_view(old(lanes)@)),
        decreases lanes@.len(),
    {
        let ghost before = lanes_view(lanes@);
        lanes.pop();
        assert(lanes_view(lanes@) =~= before.drop_last());
    }
}

/// The connector drawn in a lane that waits for a commit.
pub open spec fn conn_text(ascii: bool) -> Seq<char> {
    if ascii { "|"@ } else { "│"@ }
}

/// The style of the connectors of lane `i`.
pub open spec fn connector_style(i: int) -> StyleSpec {
    fg_style(lane_color_of(i), Emphasis::Normal)
}

/// How many of `parents` are visible.
pub open spec fn count_visible(parents: Seq<Seq<char>>, visible: Seq<Seq<char>>) -> nat
    decreases parents.len(),
{
    if parents.len() == 0 {
        0
    } else {
        count_visible(parents.drop_last(), visible) + if visible.contains(parents.last()) { 1nat } else { 0nat }
    }
}

/// Lane `i` of the connector row below a commit drawn in lane `node` with `nvis` visible parents.
pub open spec fn transition_cell(lanes: Lanes, i: int, node: int, nvis: nat, ascii: bool) -> Seq<SegmentModel> {
    if i == node {
        if nvis > 1 {
            seq![styled_seg(if ascii { "|-"@ } else { "├─╮"@ }, connector_style(i))]
        } else if nvis > 0 {
            seq![styled_seg(conn_text(ascii), connector_style(i)), plain(" "@)]
        } else {
            seq![plain("  "@)]
        }
    } else if lanes[i] is Some {
        seq![styled_seg(conn_text(ascii), connector_style(i)), plain(" "@)]
    } else {
        seq![plain("  "@)]
    }
}

/// The first `k` lanes of the connector row.
pub open spec fn transition_cells(lanes: Lanes, node: int, nvis: nat, ascii: bool, k: nat) -> Seq<SegmentModel>
    decreases k,
{
    if k == 0 {
        Seq::empty()
    } else {
        transition_cells(lanes, node, nvis, ascii, (k - 1) as nat) + transition_cell(lanes, k - 1, node, nvis, ascii)
    }
}

/// Some segment of `segs` is styled (so that the row shows something other than blanks).
pub open spec fn any_styled(segs: Seq<SegmentModel>) -> bool {
    exists|j: int| 0 <= j < segs.len() && (#[trigger] segs[j]).style is Some
}

/// The connector row below a commit, if it shows anything.
pub open spec fn transition_row(lanes: Lanes, node: int, nvis: nat, ascii: bool) -> Option<Seq<SegmentModel>> {
    let cells = transition_cells(lanes, node, nvis, ascii, lanes.len());
    if any_styled(cells) { Some(cells) } else { None }
}

/// Some label is the HEAD label.
pub open spec fn has_head(labels: Seq<LabelModel>) -> bool {
    exists|j: int| 0 <= j < labels.len() && (#[trigger] labels[j]) is Head
}

/// The node character of a commit.
pub open spec fn node_char(ascii: bool, head: bool, merge: bool) -> Seq<char> {
    if ascii {
        if head { "@"@ } else if merge { "M"@ } else { "*"@ }
    } else {
        if head { "◉"@ } else if merge { "◎"@ } else { "●"@ }
    }
}

/// The style of the node of a commit drawn in lane `node`.
pub open spec fn node_style(head: bool, merge: bool, node: int) -> StyleSpec {
    if head {
        fg_style(CYAN, Emphasis::Bold)
    } else if merge {
        fg_style(lane_color_of(node), Emphasis::Bold)
    } else {
        fg_style(lane_color_of(node), Emphasis::Normal)
    }
}

/// Lane `i` of the row of a commit drawn in lane `node`.
pub open spec fn node_cell(lanes: Lanes, i: int, node: int, ch: Seq<char>, st: StyleSpec, ascii: bool) -> Seq<SegmentModel> {
    (if i == node {
        seq![styled_seg(ch, st)]
    } else if lanes[i] is Some {
        seq![styled_seg(conn_text(ascii), connector_style(i))]
    } else {
        seq![plain(" "@)]
    }) + seq![plain(" "@)]
}

/// The first `k` lanes of the row of a commit.
pub open spec fn node_cells(lanes: Lanes, node: int, ch: Seq<char>, st: StyleSpec, ascii: bool, k: nat) -> Seq<SegmentModel>
    decreases k,
{
    if k == 0 {
        Seq::empty()
    } else {
        node_cells(lanes, node, ch, st, ascii, (k - 1) as nat) + node_cell(lanes, k - 1, node, ch, st, ascii)
    }
}

/// A timestamp as an unsigned number (negative ones wrap around, as `as u64` does).
pub open spec fn wrap_u64(d: int) -> int {
    if d >= 0 { d } else { d + 0x1_0000_0000_0000_0000 }
}

/// The age in seconds of a commit made at `date`, seen at `now` (0 for one from the future).
pub open spec fn age_of(now: int, date: int) -> nat {
    let t = wrap_u64(date);
    if now > t { (now - t) as nat } else { 0 }
}

/// An age in its largest whole unit: now, minutes, hours, days, or months of 30 days.
pub open spec fn age_text(diff: nat) -> Seq<char> {
    if diff < 60 {
        "now"@
    } else if diff < 3600 {
        decimal(diff / 60) + "m"@
    } else if diff < 86400 {
        decimal(diff / 3600) + "h"@
    } else if diff < 2592000 {
        decimal(diff / 86400) + "d"@
    } else {
        decimal(diff / 2592000) + "mo"@
    }
}

/// The name of the last HEAD label.
pub open spec fn head_ref(labels: Seq<LabelModel>) -> Option<Seq<char>>
    decreases labels.len(),
{
    if labels.len() == 0 {
        None
    } else {
        match labels.last() {
            LabelModel::Head(n) => Some(n),
            _ => head_ref(labels.drop_last()),
        }
    }
}

/// The badge of one label, when it has one.
pub open spec fn label_badge(l: LabelModel, head: Option<Seq<char>>) -> Seq<SegmentModel> {
    match l {
        LabelModel::Head(_) => Seq::empty(),
        LabelModel::LocalBranch(n) => if head == Some(n) {
            seq![styled_seg("HEAD → "@ + n, fg_style(CYAN, Emphasis::Bold))]
        } else {
            seq![styled_seg(n, fg_style(10, Emphasis::Normal))]
        },
        LabelModel::RemoteBranch(n) => seq![styled_seg("origin/"@ + n, fg_style(167, Emphasis::Normal))],
        LabelModel::Tag(n) => seq![styled_seg("tag:"@ + n, fg_style(11, Emphasis::Normal))],
    }
}

/// The badges of the first `k` labels.
pub open spec fn label_badges(labels: Seq<LabelModel>, head: Option<Seq<char>>, k: nat) -> Seq<SegmentModel>
    decreases k,
{
    if k == 0 {
        Seq::empty()
    } else {
        label_badges(labels, head, (k - 1) as nat) + label_badge(labels[k - 1], head)
    }
}

/// Badges separated by dividers.
pub open spec fn divided(parts: Seq<SegmentModel>) -> Seq<SegmentModel>
    decreases parts.len(),
{
    if parts.len() <= 1 {
        parts
    } else {
        divided(parts.drop_last()) + seq![styled_seg(" | "@, fg_style(236, Emphasis::Normal)), parts.last()]
    }
}

/// The reference badges of a commit: a separator, then its badges; HEAD alone when only HEAD points at it.
pub open spec fn labels_segments(labels: Seq<LabelModel>) -> Seq<SegmentModel> {
    let head = head_ref(labels);
    let b = label_badges(labels, head, labels.len());
    let parts = if b.len() == 0 && head is Some { seq![styled_seg("HEAD"@, fg_style(CYAN, Emphasis::Bold))] } else { b };
    if parts.len() == 0 {
        Seq::empty()
    } else {
        seq![styled_seg("•"@, fg_style(236, Emphasis::Normal)), plain(" "@)] + divided(parts)
    }
}

/// The row of commit `c`, drawn in lane `node` among `lanes`, the graph padded to `width`.
pub open spec fn node_row(lanes: Lanes, c: CommitModel, node: int, width: nat, ascii: bool, now: int) -> Seq<SegmentModel> {
    let head = has_head(c.labels);
    let merge = c.parents.len() > 1;
    let graph = node_cells(lanes, node, node_char(ascii, head, merge), node_style(head, merge, node), ascii, lanes.len());
    let pad = if lanes.len() * 2 < width { seq![plain(spaces((width - lanes.len() * 2) as nat))] } else { Seq::empty() };
    graph + pad + seq![
        plain(" "@),
        styled_seg(short_hash_of(c.hash), fg_style(242, Emphasis::Normal)),
        plain("  "@),
        SegmentModel { text: c.subject, style: Some(fg_style(WHITE, Emphasis::Bold)), pad_to: 40 },
        plain("  "@),
        styled_seg(c.author, fg_style(238, Emphasis::Normal)),
        plain(" "@),
        styled_seg("•"@, fg_style(236, Emphasis::Normal)),
        plain(" "@),
        styled_seg(age_text(age_of(now, c.date)), fg_style(238, Emphasis::Normal)),
        plain(" "@),
    ] + labels_segments(c.labels)
}

/// The lines of a drawing, each by its segments.
pub open spec fn lines_view(v: Seq<Vec<Segment>>) -> Seq<Seq<SegmentModel>> {
    v.map_values(|l: Vec<Segment>| segs_view(l@))
}

/// The hashes of commits.
pub open spec fn hashes_of(commits: Seq<CommitModel>) -> Seq<Seq<char>> {
    commits.map_values(|c: CommitModel| c.hash)
}

/// The lines drawn for commit `k`: its row, then the connector row below it unless it is the last
/// commit or the connector row would be blank.
pub open spec fn commit_lines(start: Lanes, commits: Seq<CommitModel>, visible: Seq<Seq<char>>, ascii: bool, width: nat, now: int, k: nat) -> Seq<Seq<SegmentModel>> {
    let a = assign(lanes_from(start, commits, visible, k), commits[k as int].hash);
    let row = node_row(a.0, commits[k as int], a.1 as int, width, ascii, now);
    let below = if k + 1 < commits.len() {
        match transition_row(a.0, a.1 as int, count_visible(commits[k as int].parents, visible), ascii) {
            Some(t) => seq![t],
            None => Seq::empty(),
        }
    } else {
        Seq::empty()
    };
    seq![row] + below
}

/// The lines drawn for the first `k` commits.
pub open spec fn body_lines(start: Lanes, commits: Seq<CommitModel>, visible: Seq<Seq<char>>, ascii: bool, width: nat, now: int, k: nat) -> Seq<Seq<SegmentModel>>
    decreases k,
{
    if k == 0 {
        Seq::empty()
    } else {
        body_lines(start, commits, visible, ascii, width, now, (k - 1) as nat) + commit_lines(start, commits, visible, ascii, width, now, (k - 1) as nat)
    }
}

/// The width of the graph column: two characters per lane at the widest point, at least four.
pub open spec fn graph_width_of(max_lanes: nat) -> nat {
    if max_lanes * 2 > 4 { max_lanes * 2 } else { 4 }
}

/// The whole drawing of `commits`, starting from lanes `start`: a blank line, the rows, a blank
/// line; or a single notice when there are no commits.
pub open spec fn render_lines(start: Lanes, commits: Seq<CommitModel>, ascii: bool, now: int) -> Seq<Seq<SegmentModel>> {
    if commits.len() == 0 {
        seq![seq![styled_seg("No commits found."@, fg_style(DARK_GREY, Emphasis::Normal))]]
    } else {
        let vis = hashes_of(commits);
        let width = graph_width_of(widest(commits, vis, commits.len() as nat));
        seq![Seq::<SegmentModel>::empty()] + body_lines(start, commits, vis, ascii, width, now, commits.len() as nat)
            + seq![Seq::<SegmentModel>::empty()]
    }
}

/// Draws a commit graph on the terminal, one row per commit.
pub struct GraphRenderer {
    /// Hashes of the parents each lane waits for.
    active_lanes: Vec<Option<String>>,
    /// Hashes of the commits being drawn.
    visible_hashes: Vec<String>,
    pub use_ascii: bool,
}

impl GraphRenderer {
    /// The lanes of this renderer, by hash.
    pub closed spec fn lanes(&self) -> Lanes {
        lanes_view(self.active_lanes@)
    }

    /// The hashes this renderer draws.
    pub closed spec fn visible(&self) -> Seq<Seq<char>> {
        strs_view(self.visible_hashes@)
    }

    /// Whether this renderer draws with plain ASCII characters.
    pub closed spec fn ascii(&self) -> bool {
        self.use_ascii
    }

    /// A renderer with no lanes, drawing with box characters.
    pub fn new() -> (r: Self)
        ensures
            r.lanes() == Seq::<Option<Seq<char>>>::empty(),
            r.visible() == Seq::<Seq<char>>::empty(),
            !r.ascii(),
    {
        let r = GraphRenderer { active_lanes: Vec::new(), visible_hashes: Vec::new(), use_ascii: false };
        assert(r.lanes() =~= Seq::<Option<Seq<char>>>::empty());
        assert(r.visible() =~= Seq::<Seq<char>>::empty());
        r
    }

    /// The largest number of lanes that drawing `commits` goes through.
    pub fn calculate_max_lanes(&self, commits: &[CommitInfo]) -> (r: usize)
        ensures
            r == widest(commits_view(commits@), self.visible(), commits@.len() as nat),
    {
        let ghost cv = commits_view(commits@);
        let ghost vis = self.visible();
        let mut sim_lanes: Vec<Option<String>> = Vec::new();
        let mut max: usize = 0;
        let mut i: usize = 0;
        assert(lanes_view(sim_lanes@) =~= Seq::<Option<Seq<char>>>::empty());
        while i < commits.len()
            invariant
                i <= commits@.len(),
                cv == commits_view(commits@),
                vis == self.visible(),
                lanes_view(sim_lanes@) == lanes_before(cv, vis, i as nat),
                max == widest(cv, vis, i as nat),
            decreases commits@.len() - i,
        {
            let commit = &commits[i];
            assert(cv[i as int] == commit@);
            let pos = assign_lane(&mut sim_lanes, commit.hash.clone());
            proof {
                lemma_first_index_props(lanes_before(cv, vis, i as nat), None);
                lemma_place(lanes_before(cv, vis, i as nat), commit@.hash);
                lemma_first_index_props(lanes_before(cv, vis, i as nat), Some(commit@.hash));
            }
            free_lane(&mut sim_lanes, pos);
            add_parent_lanes(&mut sim_lanes, &commit.parents, &self.visible_hashes);
            if sim_lanes.len() > max {
                max = sim_lanes.len();
            }
            trim_lanes(&mut sim_lanes);
            i = i + 1;
        }
        max
    }

    /// How long ago `timestamp` was, seen at `now` (seconds since the epoch), in its largest whole unit.
    pub fn format_date(&self, timestamp: i64, now: u64) -> (r: String)
        ensures
            r@ == age_text(age_of(now as int, timestamp as int)),
    {
        let t: u64 = if timestamp >= 0 {
            timestamp as u64
        } else {
            let m = (-(timestamp + 1)) as u64;
            u64::MAX - m
        };
        let diff: u64 = if now > t { now - t } else { 0 };
        assert(diff == age_of(now as int, timestamp as int));
        if diff < 60 {
            "now".to_owned()
        } else if diff < 3600 {
            concat(decimal_u64(diff / 60).as_str(), "m")
        } else if diff < 86400 {
            concat(decimal_u64(diff / 3600).as_str(), "h")
        } else if diff < 2592000 {
            concat(decimal_u64(diff / 86400).as_str(), "d")
        } else {
            concat(decimal_u64(diff / 2592000).as_str(), "mo")
        }
    }

    /// The reference badges shown after a commit.
    pub fn format_labels_ide(&self, labels: &[LabelInfo]) -> (r: Vec<Segment>)
        ensures
            segs_view(r@) == labels_segments(labels_view(labels@)),
    {
        let ghost lv = labels_view(labels@);
        let mut head: Option<String> = None;
        let mut i: usize = 0;
        assert(lv.take(0) =~= Seq::<LabelModel>::empty());
        while i < labels.len()
            invariant
                i <= labels@.len(),
                lv == labels_view(labels@),
                opt_str_view(head) == head_ref(lv.take(i as int)),
            decreases labels@.len() - i,
        {
            assert(lv.take(i as int + 1).drop_last() =~= lv.take(i as int));
            assert(lv.take(i as int + 1).last() == labels@[i as int]@);
            if let LabelInfo::Head(n) = &labels[i] {
                head = Some(n.clone());
            }
            i = i + 1;
        }
        assert(lv.take(labels@.len() as int) =~= lv);
        let ghost h = head_ref(lv);
        let mut parts: Vec<Segment> = Vec::new();
        let mut i: usize = 0;
        while i < labels.len()
            invariant
                i <= labels@.len(),
                lv == labels_view(labels@),
                opt_str_view(head) == h,
                segs_view(parts@) == label_badges(lv, h, i as nat),
            decreases labels@.len() - i,
        {
            let ghost before = segs_view(parts@);
            match &labels[i] {
                LabelInfo::Head(_) => {},
                LabelInfo::LocalBranch(n) => {
                    let is_head = match &head {
                        Some(hn) => *hn == *n,
                        None => false,
                    };
                    if is_head {
                        parts.push(style_seg(concat("HEAD → ", n.as_str()).as_str(), TreeStyle::head_badge()));
                    } else {
                        parts.push(style_seg(n.as_str(), TreeStyle::local_branch_badge()));
                    }
                },
                LabelInfo::RemoteBranch(n) => {
                    parts.push(style_seg(concat("origin/", n.as_str()).as_str(), TreeStyle::remote_branch_badge()));
                },
                LabelInfo::Tag(n) => {
                    parts.push(style_seg(concat("tag:", n.as_str()).as_str(), TreeStyle::tag_badge()));
                },
            }
            assert(segs_view(parts@) =~= before + label_badge(lv[i as int], h));
            i = i + 1;
        }
        if parts.len() == 0 && head.is_some() {
            parts.push(style_seg("HEAD", TreeStyle::head_badge()));
            assert(segs_view(parts@) =~= seq![styled_seg("HEAD"@, fg_style(CYAN, Emphasis::Bold))]);
        }
        let ghost pv = segs_view(parts@);
        let mut out: Vec<Segment> = Vec::new();
        if parts.len() == 0 {
            assert(segs_view(out@) =~= Seq::<SegmentModel>::empty());
            return out;
        }
        out.push(style_seg("•", TreeStyle::separator()));
        out.push(plain_seg(" "));
        out.push(parts[0].duplicate());
        let ghost prefix = seq![styled_seg("•"@, fg_style(236, Emphasis::Normal)), plain(" "@)];
        assert(pv.take(1) =~= seq![pv[0]]);
        assert(segs_view(out@) =~= prefix + divided(pv.take(1)));
        let mut j: usize = 1;
        while j < parts.len()
            invariant
                1 <= j <= parts@.len(),
                pv == segs_view(parts@),
                segs_view(out@) == prefix + divided(pv.take(j as int)),
            decreases parts@.len() - j,
        {
            let ghost before = segs_view(out@);
            let d = style_seg(" | ", TreeStyle::ref_divider());
            let e = parts[j].duplicate();
            out.push(d);
            out.push(e);
            assert(segs_view(out@) =~= before + seq![styled_seg(" | "@, fg_style(236, Emphasis::Normal)), pv[j as int]]);
            assert(pv.take(j as int + 1).drop_last() =~= pv.take(j as int));
            assert(pv.take(j as int + 1).last() == pv[j as int]);
            assert(divided(pv.take(j as int + 1)) == divided(pv.take(j as int)) + seq![styled_seg(" | "@, fg_style(236, Emphasis::Normal)), pv[j as int]]);
            assert(segs_view(out@) =~= prefix + divided(pv.take(j as int + 1)));
            j = j + 1;
        }
        assert(pv.take(parts@.len() as int) =~= pv);
        out
    }

    /// How many parents of `commit` are drawn.
    fn visible_parent_count(&self, commit: &CommitInfo) -> (n: usize)
        ensures
            n == count_visible(commit@.parents, self.visible()),
    {
        let ghost ps = commit@.parents;
        let mut n: usize = 0;
        let mut i: usize = 0;
        assert(ps.take(0) =~= Seq::<Seq<char>>::empty());
        while i < commit.parents.len()
            invariant
                i <= commit@.parents.len(),
                ps == commit@.parents,
                ps == strs_view(commit.parents@),
                n == count_visible(ps.take(i as int), self.visible()),
                n <= i,
            decreases commit@.parents.len() - i,
        {
            assert(ps.take(i as int + 1).drop_last() =~= ps.take(i as int));
            assert(ps.take(i as int + 1).last() == commit.parents@[i as int]@);
            if contains_string(&self.visible_hashes, &commit.parents[i]) {
                n = n + 1;
            }
            i = i + 1;
        }
        assert(ps.take(commit@.parents.len() as int) =~= ps);
        n
    }

    /// The connector row drawn below a commit in lane `node_lane_idx`, or nothing when it would be blank.
    pub fn render_transition(&self, commit: &CommitInfo, node_lane_idx: usize) -> (r: Option<Vec<Segment>>)
        ensures
            match r {
                Some(v) => transition_row(self.lanes(), node_lane_idx as int, count_visible(commit@.parents, self.visible()), self.ascii()) == Some(segs_view(v@)),
                None => transition_row(self.lanes(), node_lane_idx as int, count_visible(commit@.parents, self.visible()), self.ascii()) is None,
            },
    {
        let conn_char = if self.use_ascii { "|" } else { "│" };
        let nvis = self.visible_parent_count(commit);
        let ghost lanes = self.lanes();
        let ghost node = node_lane_idx as int;
        let mut graph: Vec<Segment> = Vec::new();
        let mut shown = false;
        let mut i: usize = 0;
        while i < self.active_lanes.len()
            invariant
                i <= self.active_lanes@.len(),
                lanes == self.lanes(),
                conn_char@ == conn_text(self.ascii()),
                node == node_lane_idx as int,
                segs_view(graph@) == transition_cells(lanes, node, nvis as nat, self.ascii(), i as nat),
                shown == any_styled(segs_view(graph@)),
            decreases self.active_lanes@.len() - i,
        {
            let ghost before = segs_view(graph@);
            assert(lanes[i as int] == opt_str_view(self.active_lanes@[i as int]));
            if i == node_lane_idx {
                if nvis > 1 {
                    graph.push(style_seg(if self.use_ascii { "|-" } else { "├─╮" }, TreeStyle::connector(i)));
                    shown = true;
                } else if nvis > 0 {
                    graph.push(style_seg(conn_char, TreeStyle::connector(i)));
                    graph.push(plain_seg(" "));
                    shown = true;
                } else {
                    graph.push(plain_seg("  "));
                }
            } else if self.active_lanes[i].is_some() {
                graph.push(style_seg(conn_char, TreeStyle::connector(i)));
                graph.push(plain_seg(" "));
                shown = true;
            } else {
                graph.push(plain_seg("  "));
            }
            let ghost cell = transition_cell(lanes, i as int, node, nvis as nat, self.ascii());
            assert(segs_view(graph@) =~= before + cell);
            proof {
                let g = segs_view(graph@);
                if shown {
                    if !any_styled(before) {
                        assert(g[before.len() as int].style is Some);
                    }
                    if any_styled(before) {
                        let j = choose|j: int| 0 <= j < before.len() && (#[trigger] before[j]).style is Some;
                        assert(g[j] == before[j]);
                    }
                } else {
                    assert forall|j: int| 0 <= j < g.len() implies !((#[trigger] g[j]).style is Some) by {
                        if j >= before.len() {
                            assert(g[j] == cell[j - before.len()]);
                        } else {
                            assert(g[j] == before[j]);
                        }
                    }
                }
            }
            i = i + 1;
        }
        if shown {
            Some(graph)
        } else {
            None
        }
    }

    /// The row of a commit drawn in lane `node_lane_idx`, its graph padded to `graph_width`; when
    /// there is no such lane, no lane gets the node.
    pub fn render_node_row(&self, commit: &CommitInfo, node_lane_idx: usize, graph_width: usize, now: u64) -> (r: Vec<Segment>)
        requires
            self.lanes().len() * 2 <= usize::MAX,
        ensures
            segs_view(r@) == node_row(self.lanes(), commit@, node_lane_idx as int, graph_width as nat, self.ascii(), now as int),
    {
        let ghost lanes = self.lanes();
        let ghost node = node_lane_idx as int;
        let mut is_head = false;
        let mut k: usize = 0;
        while k < commit.labels.len()
            invariant
                k <= commit.labels@.len(),
                is_head == exists|j: int| 0 <= j < k && (#[trigger] commit.labels@[j]) is Head,
            decreases commit.labels@.len() - k,
        {
            if let LabelInfo::Head(_) = &commit.labels[k] {
                is_head = true;
            }
            k = k + 1;
        }
        assert(is_head == has_head(commit@.labels)) by {
            if is_head {
                let j = choose|j: int| 0 <= j < commit.labels@.len() && (#[trigger] commit.labels@[j]) is Head;
                assert(commit@.labels[j] is Head);
            }
            if has_head(commit@.labels) {
                let j = choose|j: int| 0 <= j < commit@.labels.len() && (#[trigger] commit@.labels[j]) is Head;
                assert(commit.labels@[j] is Head);
            }
        }
        let is_merge = commit.parents.len() > 1;
        let node_char = if self.use_ascii {
            if is_head { "@" } else if is_merge { "M" } else { "*" }
        } else {
            if is_head { "◉" } else if is_merge { "◎" } else { "●" }
        };
        let node_style = if is_head {
            TreeStyle::head_node()
        } else if is_merge {
            TreeStyle::merge_node(node_lane_idx)
        } else {
            TreeStyle::commit_node(node_lane_idx)
        };
        let ghost ch = node_char@;
        let conn_char = if self.use_ascii { "|" } else { "│" };
        let mut row: Vec<Segment> = Vec::new();
        let mut i: usize = 0;
        while i < self.active_lanes.len()
            invariant
                i <= self.active_lanes@.len(),
                lanes == self.lanes(),
                conn_char@ == conn_text(self.ascii()),
                node == node_lane_idx as int,
                ch == node_char@,
                segs_view(row@) == node_cells(lanes, node, ch, node_style, self.ascii(), i as nat),
            decreases self.active_lanes@.len() - i,
        {
            let ghost before = segs_view(row@);
            assert(lanes[i as int] == opt_str_view(self.active_lanes@[i as int]));
            let first = if i == node_lane_idx {
                style_seg(node_char, node_style)
            } else if self.active_lanes[i].is_some() {
                style_seg(conn_char, TreeStyle::connector(i))
            } else {
                plain_seg(" ")
            };
            let space = plain_seg(" ");
            row.push(first);
            row.push(space);
            assert(segs_view(row@) =~= before + seq![first@, space@]);
            proof {
                let cell = node_cell(lanes, i as int, node, ch, node_style, self.ascii());
                if i as int == node {
                    assert(first@ == styled_seg(ch, node_style));
                } else if lanes[i as int] is Some {
                    assert(first@ == styled_seg(conn_text(self.ascii()), connector_style(i as int)));
                } else {
                    assert(first@ == plain(" "@));
                }
                assert(cell =~= seq![first@, space@]);
            }
            assert(segs_view(row@) =~= before + node_cell(lanes, i as int, node, ch, node_style, self.ascii()));
            i = i + 1;
        }
        let ghost graph = segs_view(row@);
        let current_width = self.active_lanes.len() * 2;
        if current_width < graph_width {
            let mut pad = String::new();
            crate::utils::text::push_spaces(&mut pad, graph_width - current_width);
            assert(pad@ =~= spaces((graph_width - current_width) as nat));
            row.push(Segment { text: pad, style: None, pad_to: 0 });
        }
        let ghost padded_graph = segs_view(row@);
        let hash_short = short_hash(commit.hash.as_str());
        let date_str = self.format_date(commit.date, now);
        row.push(plain_seg(" "));
        row.push(style_seg(hash_short.as_str(), TreeStyle::hash()));
        row.push(plain_seg("  "));
        row.push(Segment { text: commit.subject.clone(), style: Some(TreeStyle::subject()), pad_to: 40 });
        row.push(plain_seg("  "));
        row.push(style_seg(commit.author.as_str(), TreeStyle::metadata()));
        row.push(plain_seg(" "));
        row.push(style_seg("•", TreeStyle::separator()));
        row.push(plain_seg(" "));
        row.push(style_seg(date_str.as_str(), TreeStyle::metadata()));
        row.push(plain_seg(" "));
        let ghost fixed = segs_view(row@);
        let refs = self.format_labels_ide(commit.labels.as_slice());
        let mut j: usize = 0;
        while j < refs.len()
            invariant
                j <= refs@.len(),
                segs_view(row@) == fixed + segs_view(refs@).take(j as int),
            decreases refs@.len() - j,
        {
            let ghost before = segs_view(row@);
            let d = refs[j].duplicate();
            row.push(d);
            assert(segs_view(row@) =~= before.push(d@));
            assert(segs_view(refs@).take(j as int + 1) =~= segs_view(refs@).take(j as int).push(refs@[j as int]@));
            assert(segs_view(row@) =~= fixed + segs_view(refs@).take(j as int + 1));
            j = j + 1;
        }
        assert(segs_view(refs@).take(refs@.len() as int) =~= segs_view(refs@));
        assert(segs_view(row@) =~= node_row(lanes, commit@, node, graph_width as nat, self.ascii(), now as int));
        row
    }

    /// Whether drawing `commits` stays within the machine's integers: twice the lanes there can
    /// be (those already open, plus one per commit and per parent, plus one) fit in a `usize`.
    pub fn fits(&self, commits: &[CommitInfo]) -> (r: bool)
        ensures
            r == ((self.lanes().len() + total_size(commits_view(commits@), commits@.len() as nat) + 1) * 2 <= usize::MAX),
    {
        let ghost cv = commits_view(commits@);
        let mut total: usize = self.active_lanes.len();
        let mut i: usize = 0;
        while i < commits.len()
            invariant
                i <= commits@.len(),
                cv == commits_view(commits@),
                total == self.lanes().len() + total_size(cv, i as nat),
            decreases commits@.len() - i,
        {
            assert(cv[i as int].parents.len() == commits@[i as int].parents@.len());
            let step = commits[i].parents.len();
            if total > usize::MAX - 1 || step > usize::MAX - 1 - total {
                proof { lemma_total_size_monotone(cv, i as nat, cv.len() as nat); }
                return false;
            }
            total = total + 1 + step;
            i = i + 1;
        }
        if total > (usize::MAX - 2) / 2 {
            return false;
        }
        true
    }

    /// Draws `commits` (newest first), seen at `now`: the lines to print, each a sequence of segments.
    pub fn render(&mut self, commits: &[CommitInfo], now: u64) -> (lines: Vec<Vec<Segment>>)
        requires
            (old(self).lanes().len() + total_size(commits_view(commits@), commits@.len() as nat) + 1) * 2 <= usize::MAX,
        ensures
            lines_view(lines@) == render_lines(old(self).lanes(), commits_view(commits@), old(self).ascii(), now as int),
            commits@.len() == 0 ==> final(self).lanes() == old(self).lanes() && final(self).visible() == old(self).visible(),
            commits@.len() > 0 ==> final(self).visible() == hashes_of(commits_view(commits@)),
            commits@.len() > 0 ==> final(self).lanes() == lanes_from(old(self).lanes(), commits_view(commits@), hashes_of(commits_view(commits@)), commits@.len() as nat),
            final(self).ascii() == old(self).ascii(),
    {
        let mut lines: Vec<Vec<Segment>> = Vec::new();
        if commits.len() == 0 {
            let mut l: Vec<Segment> = Vec::new();
            l.push(style_seg("No commits found.", crate::utils::styles::fg(DARK_GREY, Emphasis::Normal)));
            lines.push(l);
            assert(lines_view(lines@) =~= render_lines(old(self).lanes(), commits_view(commits@), old(self).ascii(), now as int)) by {
                assert(segs_view(lines@[0]@) =~= seq![styled_seg("No commits found."@, fg_style(DARK_GREY, Emphasis::Normal))]);
            }
            return lines;
        }
        let ghost start = self.lanes();
        let ghost cv = commits_view(commits@);
        let ghost vis = hashes_of(cv);
        // the hashes being drawn
        let mut hashes: Vec<String> = Vec::new();
        let mut h: usize = 0;
        while h < commits.len()
            invariant
                h <= commits@.len(),
                cv == commits_view(commits@),
                strs_view(hashes@) =~= hashes_of(cv).take(h as int),
            decreases commits@.len() - h,
        {
            hashes.push(commits[h].hash.clone());
            assert(hashes_of(cv).take(h as int + 1) =~= hashes_of(cv).take(h as int).push(cv[h as int].hash));
            h = h + 1;
        }
        assert(hashes_of(cv).take(commits@.len() as int) =~= vis);
        self.visible_hashes = hashes;
        let max_lanes = self.calculate_max_lanes(commits);
        proof {
            lemma_widest_bound(cv, vis, cv.len() as nat);
        }
        let graph_width = if max_lanes * 2 > 4 { max_lanes * 2 } else { 4 };
        let blank: Vec<Segment> = Vec::new();
        assert(segs_view(blank@) =~= Seq::<SegmentModel>::empty());
        lines.push(blank);
        assert(lines_view(lines@) =~= seq![Seq::<SegmentModel>::empty()] + body_lines(start, cv, vis, self.ascii(), graph_width as nat, now as int, 0));
        let mut idx: usize = 0;
        while idx < commits.len()
            invariant
                idx <= commits@.len(),
                commits@.len() > 0,
                cv == commits_view(commits@),
                vis == hashes_of(cv),
                self.visible() == vis,
                self.ascii() == old(self).ascii(),
                start == old(self).lanes(),
                graph_width == graph_width_of(widest(cv, vis, cv.len() as nat)),
                (start.len() + total_size(cv, cv.len() as nat) + 1) * 2 <= usize::MAX,
                self.lanes() == lanes_from(start, cv, vis, idx as nat),
                lines_view(lines@) == seq![Seq::<SegmentModel>::empty()] + body_lines(start, cv, vis, self.ascii(), graph_width as nat, now as int, idx as nat),
            decreases commits@.len() - idx,
        {
            let commit = &commits[idx];
            assert(cv[idx as int] == commit@);
            let ghost before = lines_view(lines@);
            proof {
                lemma_lanes_from_bound(start, cv, vis, idx as nat);
                lemma_assign(self.lanes(), commit@.hash);
                lemma_total_size_monotone(cv, idx as nat, cv.len() as nat);
            }
            let node_lane_idx = self.get_or_assign_lane(commit.hash.as_str());
            let row = self.render_node_row(commit, node_lane_idx, graph_width, now);
            lines.push(row);
            if idx < commits.len() - 1 {
                let t = self.render_transition(commit, node_lane_idx);
                if let Some(t) = t {
                    lines.push(t);
                }
            }
            assert(lines_view(lines@) =~= before + commit_lines(start, cv, vis, self.ascii(), graph_width as nat, now as int, idx as nat));
            self.update_lanes(commit, node_lane_idx);
            idx = idx + 1;
        }
        let blank: Vec<Segment> = Vec::new();
        assert(segs_view(blank@) =~= Seq::<SegmentModel>::empty());
        lines.push(blank);
        assert(lines_view(lines@) =~= render_lines(start, cv, old(self).ascii(), now as int));
        lines
    }

    /// The lane that `hash` is drawn in: the one already waiting for it, or a newly taken one.
    pub fn get_or_assign_lane(&mut self, hash: &str) -> (pos: usize)
        ensures
            final(self).lanes() == assign(old(self).lanes(), hash@).0,
            pos == assign(old(self).lanes(), hash@).1,
            final(self).visible() == old(self).visible(),
            final(self).ascii() == old(self).ascii(),
    {
        assign_lane(&mut self.active_lanes, hash.to_owned())
    }

    /// Frees the lane of the commit just drawn and makes its visible parents wait in lanes.
    pub fn update_lanes(&mut self, commit: &CommitInfo, node_lane_idx: usize)
        requires
            node_lane_idx < old(self).lanes().len(),
        ensures
            final(self).lanes() == advance(old(self).lanes(), node_lane_idx as int, commit@.parents, old(self).visible()),
            final(self).visible() == old(self).visible(),
            final(self).ascii() == old(self).ascii(),
    {
        free_lane(&mut self.active_lanes, node_lane_idx);
        add_parent_lanes(&mut self.active_lanes, &commit.parents, &self.visible_hashes);
        trim_lanes(&mut self.active_lanes);
    }
}

/// The name a branch or tag label carries (none for HEAD).
pub open spec fn ref_name(l: LabelModel) -> Option<Seq<char>> {
    match l {
        LabelModel::Head(_) => None,
        LabelModel::LocalBranch(n) => Some(n),
        LabelModel::RemoteBranch(n) => Some(n),
        LabelModel::Tag(n) => Some(n),
    }
}

/// `n` occurs in `p + n`.
pub proof fn lemma_occurs_after(p: Seq<char>, n: Seq<char>)
    ensures
        contains_seq(p + n, n),
{
    assert((p + n).subrange(p.len() as int, (p.len() + n.len()) as int) =~= n);
    assert(occurs_at(p + n, n, p.len() as int));
}

/// Every branch and tag among the first `k` labels has a badge that shows its name.
pub proof fn lemma_badges_show_names(labels: Seq<LabelModel>, head: Option<Seq<char>>, k: nat)
    requires
        k <= labels.len(),
    ensures
        forall|i: int| 0 <= i < k && (#[trigger] ref_name(labels[i])) is Some ==> exists|j: int|
            0 <= j < label_badges(labels, head, k).len()
                && contains_seq(#[trigger] label_badges(labels, head, k)[j].text, ref_name(labels[i])->0),
    decreases k,
{
    if k > 0 {
        lemma_badges_show_names(labels, head, (k - 1) as nat);
        let prev = label_badges(labels, head, (k - 1) as nat);
        let b = label_badge(labels[k - 1], head);
        let r = label_badges(labels, head, k);
        assert(r == prev + b);
        assert forall|i: int| 0 <= i < k && (#[trigger] ref_name(labels[i])) is Some implies exists|j: int|
            0 <= j < r.len() && contains_seq(#[trigger] r[j].text, ref_name(labels[i])->0) by {
            if i < k - 1 {
                let j = choose|j: int| 0 <= j < prev.len() && contains_seq(#[trigger] prev[j].text, ref_name(labels[i])->0);
                assert(r[j] == prev[j]);
                assert(contains_seq(r[j].text, ref_name(labels[i])->0));
            } else {
                let l = labels[i];
                let n = ref_name(l)->0;
                assert(r[prev.len() as int] == b[0]);
                match l {
                    LabelModel::LocalBranch(_) => {
                        if head == Some(n) {
                            lemma_occurs_after("HEAD → "@, n);
                        } else {
                            lemma_occurs_after(Seq::empty(), n);
                            assert(Seq::<char>::empty() + n =~= n);
                        }
                    },
                    LabelModel::RemoteBranch(_) => {
                        lemma_occurs_after("origin/"@, n);
                    },
                    LabelModel::Tag(_) => {
                        lemma_occurs_after("tag:"@, n);
                    },
                    LabelModel::Head(_) => {},
                }
                assert(contains_seq(r[prev.len() as int].text, n));
            }
        }
    }
}

/// Dividers only come between badges: every badge stays.
pub proof fn lemma_divided_keeps(parts: Seq<SegmentModel>)
    ensures
        forall|j: int| 0 <= j < parts.len() ==> divided(parts).contains(#[trigger] parts[j]),
    decreases parts.len(),
{
    if parts.len() > 1 {
        let d = parts.drop_last();
        lemma_divided_keeps(d);
        let r = divided(parts);
        assert(r == divided(d) + seq![styled_seg(" | "@, fg_style(236, Emphasis::Normal)), parts.last()]);
        assert forall|j: int| 0 <= j < parts.len() implies r.contains(#[trigger] parts[j]) by {
            if j < parts.len() - 1 {
                assert(d[j] == parts[j]);
                let x = choose|x: int| 0 <= x < divided(d).len() && divided(d)[x] == d[j];
                assert(r[x] == divided(d)[x]);
            } else {
                assert(r[r.len() - 1] == parts[j]);
            }
        }
    } else {
        assert forall|j: int| 0 <= j < parts.len() implies divided(parts).contains(#[trigger] parts[j]) by {
            assert(divided(parts)[j] == parts[j]);
        }
    }
}

/// The reference badges of a commit show the name of every branch and tag pointing at it
/// (`HEAD → n` for the branch HEAD is on, `origin/n` for a remote one, `tag:n` for a tag).
pub proof fn law_badges_show_every_ref(labels: Seq<LabelModel>)
    ensures
        forall|i: int| 0 <= i < labels.len() && (#[trigger] ref_name(labels[i])) is Some ==> exists|j: int|
            0 <= j < labels_segments(labels).len()
                && contains_seq(#[trigger] labels_segments(labels)[j].text, ref_name(labels[i])->0),
{
    let head = head_ref(labels);
    let b = label_badges(labels, head, labels.len());
    lemma_badges_show_names(labels, head, labels.len());
    lemma_divided_keeps(b);
    let s = labels_segments(labels);
    assert forall|i: int| 0 <= i < labels.len() && (#[trigger] ref_name(labels[i])) is Some implies exists|j: int|
        0 <= j < s.len() && contains_seq(#[trigger] s[j].text, ref_name(labels[i])->0) by {
        let j = choose|j: int| 0 <= j < b.len() && contains_seq(#[trigger] b[j].text, ref_name(labels[i])->0);
        assert(b.len() > 0);
        let pre = seq![styled_seg("•"@, fg_style(236, Emphasis::Normal)), plain(" "@)];
        assert(s == pre + divided(b));
        assert(divided(b).contains(b[j]));
        let x = choose|x: int| 0 <= x < divided(b).len() && divided(b)[x] == b[j];
        assert(s[x + 2] == divided(b)[x]);
    }
}

} // verus!
