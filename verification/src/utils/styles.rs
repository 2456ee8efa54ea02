use vstd::prelude::*;
use crossterm::style::{Attribute, Attributes, Color, ContentStyle};
use crate::utils::text::{decimal, padded, pad_right};

verus! {

/// Terminal colours, by their index in the 256-colour palette (the index crossterm writes for the
/// colour of the same name).
pub const BLUE: u8 = 12;
pub const GREEN: u8 = 10;
pub const YELLOW: u8 = 11;
pub const MAGENTA: u8 = 13;
pub const CYAN: u8 = 14;
pub const RED: u8 = 9;
pub const WHITE: u8 = 15;
pub const DARK_GREY: u8 = 8;

/// How text is emphasised.
#[derive(Clone, Copy, Debug, PartialEq, Eq, Structural)]
pub enum Emphasis {
    Normal,
    Bold,
    Italic,
}

/// The look of a piece of text: foreground and background colour (palette indices) and emphasis.
#[derive(Clone, Copy, Debug, PartialEq, Eq, Structural)]
pub struct StyleSpec {
    pub fg: Option<u8>,
    pub bg: Option<u8>,
    pub emphasis: Emphasis,
}

/// A style with foreground colour `fg` and emphasis `e`.
pub open spec fn fg_style(fg: u8, e: Emphasis) -> StyleSpec {
    StyleSpec { fg: Some(fg), bg: None, emphasis: e }
}

/// Builds the style with foreground colour `fg` and emphasis `e`.
pub fn fg(color: u8, e: Emphasis) -> (r: StyleSpec)
    ensures
        r == fg_style(color, e),
{
    StyleSpec { fg: Some(color), bg: None, emphasis: e }
}

/// Builds the style with no colour and emphasis `e`.
pub fn plain_style(e: Emphasis) -> (r: StyleSpec)
    ensures
        r == (StyleSpec { fg: None, bg: None, emphasis: e }),
{
    StyleSpec { fg: None, bg: None, emphasis: e }
}

/// The colour of lane `lane`: lanes cycle through blue, green, yellow, magenta, cyan and red.
pub open spec fn lane_color_of(lane: int) -> u8 {
    let m = lane % 6;
    if m == 0 { BLUE } else if m == 1 { GREEN } else if m == 2 { YELLOW }
    else if m == 3 { MAGENTA } else if m == 4 { CYAN } else { RED }
}

/// The styles of the commit tree.
pub struct TreeStyle;

impl TreeStyle {
    /// The node of the commit HEAD points at: bold cyan.
    pub fn head_node() -> (r: StyleSpec)
        ensures
            r == fg_style(CYAN, Emphasis::Bold),
    {
        fg(CYAN, Emphasis::Bold)
    }

    /// The node of an ordinary commit: the colour of its lane.
    pub fn commit_node(lane: usize) -> (r: StyleSpec)
        ensures
            r == fg_style(lane_color_of(lane as int), Emphasis::Normal),
    {
        fg(Self::lane_color(lane), Emphasis::Normal)
    }

    /// The node of a merge commit: bold, in the colour of its lane.
    pub fn merge_node(lane: usize) -> (r: StyleSpec)
        ensures
            r == fg_style(lane_color_of(lane as int), Emphasis::Bold),
    {
        fg(Self::lane_color(lane), Emphasis::Bold)
    }

    /// A connector of lane `lane`: the colour of the lane.
    pub fn connector(lane: usize) -> (r: StyleSpec)
        ensures
            r == fg_style(lane_color_of(lane as int), Emphasis::Normal),
    {
        fg(Self::lane_color(lane), Emphasis::Normal)
    }

    /// The colour of lane `lane`.
    pub fn lane_color(lane: usize) -> (c: u8)
        ensures
            c == lane_color_of(lane as int),
    {
        let m = lane % 6;
        if m == 0 { BLUE } else if m == 1 { GREEN } else if m == 2 { YELLOW }
        else if m == 3 { MAGENTA } else if m == 4 { CYAN } else { RED }
    }

    /// Abbreviated hashes: grey 242.
    pub fn hash() -> (r: StyleSpec)
        ensures
            r == fg_style(242, Emphasis::Normal),
    {
        fg(242, Emphasis::Normal)
    }

    /// Commit subjects: bold white.
    pub fn subject() -> (r: StyleSpec)
        ensures
            r == fg_style(WHITE, Emphasis::Bold),
    {
        fg(WHITE, Emphasis::Bold)
    }

    /// Author and date: dim grey 238.
    pub fn metadata() -> (r: StyleSpec)
        ensures
            r == fg_style(238, Emphasis::Normal),
    {
        fg(238, Emphasis::Normal)
    }

    /// Separators: grey 236.
    pub fn separator() -> (r: StyleSpec)
        ensures
            r == fg_style(236, Emphasis::Normal),
    {
        fg(236, Emphasis::Normal)
    }

    /// The badge of the branch HEAD is on: bold cyan.
    pub fn head_badge() -> (r: StyleSpec)
        ensures
            r == fg_style(CYAN, Emphasis::Bold),
    {
        fg(CYAN, Emphasis::Bold)
    }

    /// Local branch badges: green.
    pub fn local_branch_badge() -> (r: StyleSpec)
        ensures
            r == fg_style(GREEN, Emphasis::Normal),
    {
        fg(GREEN, Emphasis::Normal)
    }

    /// Remote branch badges: colour 167.
    pub fn remote_branch_badge() -> (r: StyleSpec)
        ensures
            r == fg_style(167, Emphasis::Normal),
    {
        fg(167, Emphasis::Normal)
    }

    /// Tag badges: yellow.
    pub fn tag_badge() -> (r: StyleSpec)
        ensures
            r == fg_style(YELLOW, Emphasis::Normal),
    {
        fg(YELLOW, Emphasis::Normal)
    }

    /// The divider between badges: grey 236.
    pub fn ref_divider() -> (r: StyleSpec)
        ensures
            r == fg_style(236, Emphasis::Normal),
    {
        fg(236, Emphasis::Normal)
    }
}

/// A control sequence: escape, `[`, `body`, `m`.
pub open spec fn csi(body: Seq<char>) -> Seq<char> {
    seq!['\u{1b}', '['] + body + seq!['m']
}

/// The sequence that sets a palette colour (`kind` is `38` for the foreground, `48` for the
/// background); with colours disabled its body is empty.
pub open spec fn set_color(kind: Seq<char>, color: u8, no_color: bool) -> Seq<char> {
    csi(if no_color { Seq::empty() } else { kind + ";5;"@ + decimal(color as nat) })
}

/// The sequence that resets a colour (`kind` is `39` for the foreground, `49` for the
/// background); with colours disabled its body is empty.
pub open spec fn reset_color(kind: Seq<char>, no_color: bool) -> Seq<char> {
    csi(if no_color { Seq::empty() } else { kind })
}

/// What crossterm writes before styled text: the background colour, the foreground colour, then
/// the emphasis (bold is SGR 1, italic SGR 3). `no_color` says whether colours are disabled
/// (`NO_COLOR` is set); emphasis is written either way.
pub open spec fn ansi_prefix(st: StyleSpec, no_color: bool) -> Seq<char> {
    (match st.bg { Some(b) => set_color("48"@, b, no_color), None => Seq::empty() })
        + (match st.fg { Some(f) => set_color("38"@, f, no_color), None => Seq::empty() })
        + (match st.emphasis {
            Emphasis::Normal => Seq::empty(),
            Emphasis::Bold => csi("1"@),
            Emphasis::Italic => csi("3"@),
        })
}

/// What crossterm writes after styled text: a full reset (SGR 0) when there is emphasis, else a
/// reset of the background and then of the foreground colour, each only when it was set.
pub open spec fn ansi_suffix(st: StyleSpec, no_color: bool) -> Seq<char> {
    match st.emphasis {
        Emphasis::Normal => (match st.bg { Some(_) => reset_color("49"@, no_color), None => Seq::empty() })
            + (match st.fg { Some(_) => reset_color("39"@, no_color), None => Seq::empty() }),
        _ => csi("0"@),
    }
}

/// `r` is `content` as crossterm writes it in style `st`: between the style's escape sequences,
/// for one setting of `NO_COLOR`; or nothing at all, which is what crossterm writes on a Windows
/// console that takes no escape sequences.
pub open spec fn styled_text(r: Seq<char>, content: Seq<char>, st: StyleSpec) -> bool {
    r.len() == 0 || exists|no_color: bool| r == ansi_prefix(st, no_color) + content + ansi_suffix(st, no_color)
}

/// `content` with `style` applied, as crossterm writes it (`ContentStyle::apply`, then `Display`):
/// the content verbatim between the escape sequences of the style. Whether colour codes are
/// written depends on the environment (`NO_COLOR`), and on a Windows console without escape
/// sequences crossterm writes nothing; which of these holds is left open.
#[verifier::external_body]
pub fn styled(content: &str, style: StyleSpec) -> (r: String)
    ensures
        styled_text(r@, content@, style),
{
    let attributes = match style.emphasis {
        Emphasis::Normal => Attributes::default(),
        Emphasis::Bold => Attributes::from(Attribute::Bold),
        Emphasis::Italic => Attributes::from(Attribute::Italic),
    };
    let fg = style.fg.map(Color::AnsiValue);
    let bg = style.bg.map(Color::AnsiValue);
    let cs = ContentStyle { foreground_color: fg, background_color: bg, underline_color: None, attributes };
    format!("{}", cs.apply(content))
}

/// A piece of a line: its text, its style (none for plain text), and the width it is padded to.
#[derive(Clone, Debug)]
pub struct Segment {
    pub text: String,
    pub style: Option<StyleSpec>,
    pub pad_to: usize,
}

/// The mathematical value of a [`Segment`].
pub struct SegmentModel {
    pub text: Seq<char>,
    pub style: Option<StyleSpec>,
    pub pad_to: nat,
}

impl View for Segment {
    type V = SegmentModel;

    open spec fn view(&self) -> SegmentModel {
        SegmentModel { text: self.text@, style: self.style, pad_to: self.pad_to as nat }
    }
}

/// A plain piece of text.
pub open spec fn plain(text: Seq<char>) -> SegmentModel {
    SegmentModel { text, style: None, pad_to: 0 }
}

/// A styled piece of text.
pub open spec fn styled_seg(text: Seq<char>, style: StyleSpec) -> SegmentModel {
    SegmentModel { text, style: Some(style), pad_to: 0 }
}

/// The segments of a line, each by its value.
pub open spec fn segs_view(v: Seq<Segment>) -> Seq<SegmentModel> {
    v.map_values(|s: Segment| s@)
}

/// The text of a line, without its styles and padding.
pub open spec fn line_text(segs: Seq<SegmentModel>) -> Seq<char>
    decreases segs.len(),
{
    if segs.len() == 0 {
        Seq::empty()
    } else {
        line_text(segs.drop_last()) + segs.last().text
    }
}

/// `out` is `seg` as written on the terminal.
pub open spec fn painted(out: Seq<char>, seg: SegmentModel) -> bool {
    match seg.style {
        None => out == padded(seg.text, seg.pad_to),
        Some(st) => exists|r: Seq<char>| styled_text(r, seg.text, st) && out == padded(r, seg.pad_to),
    }
}

/// The pieces of a line joined.
pub open spec fn joined(pieces: Seq<Seq<char>>) -> Seq<char>
    decreases pieces.len(),
{
    if pieces.len() == 0 {
        Seq::empty()
    } else {
        joined(pieces.drop_last()) + pieces.last()
    }
}

impl Segment {
    /// A copy of this segment.
    pub fn duplicate(&self) -> (r: Segment)
        ensures
            r@ == self@,
    {
        Segment { text: self.text.clone(), style: self.style, pad_to: self.pad_to }
    }
}

/// A plain segment.
pub fn plain_seg(text: &str) -> (r: Segment)
    ensures
        r@ == plain(text@),
{
    Segment { text: text.to_owned(), style: None, pad_to: 0 }
}

/// A styled segment.
pub fn style_seg(text: &str, style: StyleSpec) -> (r: Segment)
    ensures
        r@ == styled_seg(text@, style),
{
    Segment { text: text.to_owned(), style: Some(style), pad_to: 0 }
}

/// Writes one segment for the terminal.
pub fn paint_segment(seg: &Segment) -> (r: String)
    ensures
        painted(r@, seg@),
{
    let text = seg.text.as_str();
    let out = match seg.style {
        None => text.to_owned(),
        Some(st) => styled(text, st),
    };
    let r = pad_right(out.as_str(), seg.pad_to);
    proof {
        if seg@.style is Some {
            assert(styled_text(out@, seg@.text, seg@.style->0) && r@ == padded(out@, seg@.pad_to));
        }
    }
    r
}

/// Writes a line for the terminal: each segment painted, in order.
pub fn paint_line(segs: &Vec<Segment>) -> (r: String)
    ensures
        exists|pieces: Seq<Seq<char>>|
            pieces.len() == segs@.len() && r@ == joined(pieces)
            && forall|i: int| 0 <= i < segs@.len() ==> painted(#[trigger] pieces[i], segs@[i]@),
{
    let mut r = String::new();
    let ghost mut pieces: Seq<Seq<char>> = Seq::empty();
    let mut i: usize = 0;
    while i < segs.len()
        invariant
            i <= segs@.len(),
            pieces.len() == i,
            r@ == joined(pieces),
            forall|j: int| 0 <= j < i ==> painted(#[trigger] pieces[j], segs@[j]@),
        decreases segs@.len() - i,
    {
        let p = paint_segment(&segs[i]);
        proof {
            let old_pieces = pieces;
            pieces = pieces.push(p@);
            assert(pieces.drop_last() =~= old_pieces);
            assert forall|j: int| 0 <= j < i + 1 implies painted(#[trigger] pieces[j], segs@[j]@) by {
                if j < i {
                    assert(pieces[j] == old_pieces[j]);
                }
            }
        }
        r.append(p.as_str());
        i = i + 1;
    }
    r
}

} // verus!
