use vstd::prelude::*;
use crate::models::{commits_view, labels_view, opt_str_view, CommitInfo, CommitModel, LabelInfo, LabelModel};
use crate::utils::graph_renderer::lines_view;
use crate::utils::styles::{plain, plain_seg, segs_view, style_seg, styled_seg, Emphasis, Segment, SegmentModel, StyleSpec};
use crate::utils::text::{concat, decimal_i64, push_char, pop_char, short_hash, short_hash_of, signed_decimal, str_starts_with, starts_with_seq};
use crate::utils::tui_graph::{TUI_CYAN, TUI_DARK_GRAY, TUI_GRAY, TUI_GREEN, TUI_LIGHT_RED, TUI_MAGENTA, TUI_RED, TUI_YELLOW};

verus! {

/// What typed keys go to.
#[derive(Clone, Copy, Debug, PartialEq, Eq, Structural)]
pub enum InputMode {
    Normal,
    Search,
    Jump,
}

/// A key the explorer reacts to.
#[derive(Clone, Copy, Debug, PartialEq, Eq, Structural)]
pub enum Key {
    Char(char),
    Up,
    Down,
    Enter,
    Backspace,
    Esc,
    Other,
}

/// What a key does in a given mode.
#[derive(Clone, Copy, Debug, PartialEq, Eq, Structural)]
pub enum KeyAction {
    Quit,
    Next,
    Previous,
    ToggleDetail,
    StartSearch,
    StartJump,
    ClearFilter,
    ApplyFilter,
    SubmitJump,
    Type(char),
    Erase,
    Cancel,
    Ignore,
}

/// What the explorer asks of its surroundings after a key.
#[derive(Clone, Debug)]
pub enum AppEvent {
    /// Nothing to do.
    Nothing,
    /// Leave the explorer.
    Quit,
    /// Load the commits again, with the active filter.
    Refresh,
    /// Resolve this reference and jump to it.
    Jump(String),
}

/// The keys of the explorer: in normal mode `q` quits, `j`/down and `k`/up move, `d` toggles the
/// detail pane, `/` or `f` starts a search, `J` a jump, Esc clears the filter; while typing, Enter
/// submits, Backspace erases, Esc cancels and other characters are typed.
pub open spec fn key_action_of(mode: InputMode, key: Key) -> KeyAction {
    match mode {
        InputMode::Normal => match key {
            Key::Char(c) => if c == 'q' { KeyAction::Quit }
                else if c == 'j' { KeyAction::Next }
                else if c == 'k' { KeyAction::Previous }
                else if c == 'd' { KeyAction::ToggleDetail }
                else if c == '/' || c == 'f' { KeyAction::StartSearch }
                else if c == 'J' { KeyAction::StartJump }
                else { KeyAction::Ignore },
            Key::Down => KeyAction::Next,
            Key::Up => KeyAction::Previous,
            Key::Esc => KeyAction::ClearFilter,
            _ => KeyAction::Ignore,
        },
        _ => match key {
            Key::Enter => if mode == InputMode::Search { KeyAction::ApplyFilter } else { KeyAction::SubmitJump },
            Key::Char(c) => KeyAction::Type(c),
            Key::Backspace => KeyAction::Erase,
            Key::Esc => KeyAction::Cancel,
            _ => KeyAction::Ignore,
        },
    }
}

/// What `key` does in `mode`.
pub fn key_action(mode: InputMode, key: Key) -> (r: KeyAction)
    ensures
        r == key_action_of(mode, key),
{
    match mode {
        InputMode::Normal => match key {
            Key::Char(c) => if c == 'q' { KeyAction::Quit }
                else if c == 'j' { KeyAction::Next }
                else if c == 'k' { KeyAction::Previous }
                else if c == 'd' { KeyAction::ToggleDetail }
                else if c == '/' || c == 'f' { KeyAction::StartSearch }
                else if c == 'J' { KeyAction::StartJump }
                else { KeyAction::Ignore },
            Key::Down => KeyAction::Next,
            Key::Up => KeyAction::Previous,
            Key::Esc => KeyAction::ClearFilter,
            _ => KeyAction::Ignore,
        },
        _ => match key {
            Key::Enter => if mode == InputMode::Search { KeyAction::ApplyFilter } else { KeyAction::SubmitJump },
            Key::Char(c) => KeyAction::Type(c),
            Key::Backspace => KeyAction::Erase,
            Key::Esc => KeyAction::Cancel,
            _ => KeyAction::Ignore,
        },
    }
}

/// The selection after moving down in a list of `len` commits: the next one, wrapping to the first.
pub open spec fn next_sel(len: nat, sel: Option<usize>) -> Option<usize> {
    if len == 0 {
        sel
    } else {
        match sel {
            Some(i) => if i >= len - 1 { Some(0usize) } else { Some((i + 1) as usize) },
            None => Some(0usize),
        }
    }
}

/// The selection after moving up: the previous one, wrapping to the last.
pub open spec fn prev_sel(len: nat, sel: Option<usize>) -> Option<usize> {
    if len == 0 {
        sel
    } else {
        match sel {
            Some(i) => if i == 0 { Some((len - 1) as usize) } else { Some((i - 1) as usize) },
            None => Some(0usize),
        }
    }
}

/// The selection is on a commit whenever there is one.
pub open spec fn selection_ok(len: nat, sel: Option<usize>) -> bool {
    len > 0 ==> (sel is Some && sel->0 < len)
}

/// The mathematical value of the explorer's state.
pub struct AppModel {
    pub commits: Seq<CommitModel>,
    pub selected: Option<usize>,
    pub detail_visible: bool,
    pub input_mode: InputMode,
    pub input_buffer: Seq<char>,
    pub status_message: Option<(Seq<char>, u8)>,
    pub active_filter: Option<Seq<char>>,
}

/// The mathematical value of an [`AppEvent`].
pub enum EventModel {
    Nothing,
    Quit,
    Refresh,
    Jump(Seq<char>),
}

impl View for AppEvent {
    type V = EventModel;

    open spec fn view(&self) -> EventModel {
        match self {
            AppEvent::Nothing => EventModel::Nothing,
            AppEvent::Quit => EventModel::Quit,
            AppEvent::Refresh => EventModel::Refresh,
            AppEvent::Jump(t) => EventModel::Jump(t@),
        }
    }
}

/// A status message by its text and colour.
pub open spec fn message_view(m: Option<(String, u8)>) -> Option<(Seq<char>, u8)> {
    match m {
        Some(x) => Some((x.0@, x.1)),
        None => None,
    }
}

/// The state after `a`.
pub open spec fn after_action(m: AppModel, a: KeyAction) -> AppModel {
    match a {
        KeyAction::Next => AppModel { selected: next_sel(m.commits.len(), m.selected), ..m },
        KeyAction::Previous => AppModel { selected: prev_sel(m.commits.len(), m.selected), ..m },
        KeyAction::ToggleDetail => AppModel { detail_visible: !m.detail_visible, ..m },
        KeyAction::StartSearch => AppModel { input_mode: InputMode::Search, input_buffer: Seq::empty(), ..m },
        KeyAction::StartJump => AppModel { input_mode: InputMode::Jump, input_buffer: Seq::empty(), ..m },
        KeyAction::ClearFilter => AppModel { active_filter: None, ..m },
        KeyAction::ApplyFilter => AppModel {
            active_filter: if m.input_buffer.len() == 0 { None } else { Some(m.input_buffer) },
            input_mode: InputMode::Normal,
            ..m
        },
        KeyAction::SubmitJump => AppModel { input_mode: InputMode::Normal, ..m },
        KeyAction::Type(c) => AppModel { input_buffer: m.input_buffer.push(c), ..m },
        KeyAction::Erase => AppModel {
            input_buffer: if m.input_buffer.len() > 0 { m.input_buffer.drop_last() } else { m.input_buffer },
            ..m
        },
        KeyAction::Cancel => AppModel { input_mode: InputMode::Normal, ..m },
        _ => m,
    }
}

/// What the explorer asks for after `a`.
pub open spec fn event_of(m: AppModel, a: KeyAction) -> EventModel {
    match a {
        KeyAction::Quit => EventModel::Quit,
        KeyAction::ClearFilter => EventModel::Refresh,
        KeyAction::ApplyFilter => EventModel::Refresh,
        KeyAction::SubmitJump => EventModel::Jump(m.input_buffer),
        _ => EventModel::Nothing,
    }
}

/// Commit `c` is the one a resolved hash `h` names: its hash starts with `h`.
pub open spec fn names_commit(c: CommitModel, h: Seq<char>) -> bool {
    starts_with_seq(c.hash, h)
}

/// The index of the first commit named by `h`, or the number of commits.
pub open spec fn jump_index(commits: Seq<CommitModel>, h: Seq<char>) -> nat
    decreases commits.len(),
{
    if commits.len() == 0 {
        0
    } else if names_commit(commits[0], h) {
        0
    } else {
        1 + jump_index(commits.drop_first(), h)
    }
}

pub proof fn lemma_jump_index_is(commits: Seq<CommitModel>, h: Seq<char>, i: int)
    requires
        0 <= i <= commits.len(),
        i < commits.len() ==> names_commit(commits[i], h),
        forall|j: int| 0 <= j < i ==> !names_commit(#[trigger] commits[j], h),
    ensures
        jump_index(commits, h) == i,
    decreases i,
{
    if i > 0 {
        assert(!names_commit(commits[0], h));
        assert forall|j: int| 0 <= j < i - 1 implies !names_commit(#[trigger] commits.drop_first()[j], h) by {
            assert(commits.drop_first()[j] == commits[j + 1]);
        }
        lemma_jump_index_is(commits.drop_first(), h, i - 1);
    }
}

/// The state after jumping to `reference`, resolved to `resolved` (`None` when it names nothing).
pub open spec fn after_jump(m: AppModel, reference: Seq<char>, resolved: Option<Seq<char>>) -> AppModel {
    match resolved {
        Some(h) => {
            let k = jump_index(m.commits, h);
            if k < m.commits.len() {
                AppModel { selected: Some(k as usize), status_message: Some(("Jumped to "@ + h.take(7), TUI_GRAY)), ..m }
            } else {
                AppModel {
                    status_message: Some(("Ref resolved to "@ + h.take(7) + " but not in current list"@, TUI_LIGHT_RED)),
                    ..m
                }
            }
        },
        None => AppModel { status_message: Some(("Reference '"@ + reference + "' not found"@, TUI_LIGHT_RED)), ..m },
    }
}

/// The text and colour of the status bar.
pub open spec fn status_prompt_of(m: AppModel) -> (Seq<char>, u8) {
    match m.input_mode {
        InputMode::Normal => match m.status_message {
            Some(x) => x,
            None => match m.active_filter {
                Some(f) => ("Filter: "@ + f, TUI_CYAN),
                None => ("q:quit | /:filter | J:jump | d:detail | Esc:clear filter"@, TUI_DARK_GRAY),
            },
        },
        InputMode::Search => ("Search: "@ + m.input_buffer + "_"@, TUI_YELLOW),
        InputMode::Jump => ("Jump to (branch/tag/hash): "@ + m.input_buffer + "_"@, TUI_MAGENTA),
    }
}

/// A style with foreground colour `fg` and emphasis `e`.
pub open spec fn tui_fg(fg: u8, e: Emphasis) -> StyleSpec {
    StyleSpec { fg: Some(fg), bg: None, emphasis: e }
}

/// The badge of a label in the commit list.
pub open spec fn list_badge(l: LabelModel) -> SegmentModel {
    match l {
        LabelModel::Head(n) => styled_seg("("@ + n + ") "@, tui_fg(TUI_CYAN, Emphasis::Bold)),
        LabelModel::LocalBranch(n) => styled_seg("("@ + n + ") "@, tui_fg(TUI_GREEN, Emphasis::Bold)),
        LabelModel::RemoteBranch(n) => styled_seg("("@ + n + ") "@, tui_fg(TUI_RED, Emphasis::Bold)),
        LabelModel::Tag(n) => styled_seg("("@ + n + ") "@, tui_fg(TUI_YELLOW, Emphasis::Bold)),
    }
}

/// An item of the commit list: the abbreviated hash, the labels, the subject.
pub open spec fn list_item_of(c: CommitModel) -> Seq<SegmentModel> {
    seq![styled_seg("["@ + short_hash_of(c.hash) + "] "@, tui_fg(TUI_DARK_GRAY, Emphasis::Normal))]
        + c.labels.map_values(|l: LabelModel| list_badge(l))
        + seq![plain(c.subject)]
}

/// The detail pane of commit `c`.
pub open spec fn detail_of(c: CommitModel) -> Seq<Seq<SegmentModel>> {
    let gray = tui_fg(TUI_GRAY, Emphasis::Normal);
    let bold = StyleSpec { fg: None, bg: None, emphasis: Emphasis::Bold };
    seq![
        seq![styled_seg("Hash:   "@, gray), plain(c.hash)],
        seq![styled_seg("Author: "@, gray), plain(c.author)],
        seq![styled_seg("TS:     "@, gray), plain(signed_decimal(c.date))],
        Seq::<SegmentModel>::empty(),
        seq![styled_seg("Subject: "@, bold)],
        seq![plain(c.subject)],
        Seq::<SegmentModel>::empty(),
        seq![styled_seg("Body:"@, bold)],
        seq![plain(match c.body { Some(b) => b, None => "[No body text]"@ })],
    ]
}

/// The state of the commit explorer.
#[derive(Debug, Clone)]
pub struct App {
    pub commits: Vec<CommitInfo>,
    pub selected: Option<usize>,
    pub detail_visible: bool,
    pub input_mode: InputMode,
    pub input_buffer: String,
    /// A message and its colour, shown in the status bar.
    pub status_message: Option<(String, u8)>,
    pub active_filter: Option<String>,
}

impl View for App {
    type V = AppModel;

    open spec fn view(&self) -> AppModel {
        AppModel {
            commits: commits_view(self.commits@),
            selected: self.selected,
            detail_visible: self.detail_visible,
            input_mode: self.input_mode,
            input_buffer: self.input_buffer@,
            status_message: message_view(self.status_message),
            active_filter: opt_str_view(self.active_filter),
        }
    }
}

impl App {
    /// The explorer over `commits`, filtered by `filter`: the first commit selected, the detail
    /// pane shown, in normal mode.
    pub fn new(commits: Vec<CommitInfo>, filter: Option<String>) -> (r: App)
        ensures
            r.commits == commits,
            r.selected == Some(0usize),
            r.detail_visible,
            r.input_mode == InputMode::Normal,
            r.input_buffer@ == Seq::<char>::empty(),
            r.status_message is None,
            r.active_filter == filter,
    {
        App {
            commits,
            selected: Some(0),
            detail_visible: true,
            input_mode: InputMode::Normal,
            input_buffer: String::new(),
            status_message: None,
            active_filter: filter,
        }
    }

    /// Shows freshly loaded commits, selecting the first.
    pub fn refresh_commits(&mut self, commits: Vec<CommitInfo>)
        ensures
            final(self).commits == commits,
            final(self).selected == Some(0usize),
            final(self).detail_visible == old(self).detail_visible,
            final(self).input_mode == old(self).input_mode,
            final(self).input_buffer == old(self).input_buffer,
            final(self).status_message == old(self).status_message,
            final(self).active_filter == old(self).active_filter,
    {
        self.commits = commits;
        self.selected = Some(0);
    }

    /// Selects the next commit, wrapping around.
    pub fn next(&mut self)
        ensures
            final(self).selected == next_sel(old(self).commits@.len(), old(self).selected),
            final(self).commits == old(self).commits,
            final(self).detail_visible == old(self).detail_visible,
            final(self).input_mode == old(self).input_mode,
            final(self).input_buffer == old(self).input_buffer,
            final(self).status_message == old(self).status_message,
            final(self).active_filter == old(self).active_filter,
    {
        if self.commits.len() == 0 {
            return;
        }
        let i = match self.selected {
            Some(i) => if i >= self.commits.len() - 1 { 0 } else { i + 1 },
            None => 0,
        };
        self.selected = Some(i);
    }

    /// Selects the previous commit, wrapping around.
    pub fn previous(&mut self)
        ensures
            final(self).selected == prev_sel(old(self).commits@.len(), old(self).selected),
            final(self).commits == old(self).commits,
            final(self).detail_visible == old(self).detail_visible,
            final(self).input_mode == old(self).input_mode,
            final(self).input_buffer == old(self).input_buffer,
            final(self).status_message == old(self).status_message,
            final(self).active_filter == old(self).active_filter,
    {
        if self.commits.len() == 0 {
            return;
        }
        let i = match self.selected {
            Some(i) => if i == 0 { self.commits.len() - 1 } else { i - 1 },
            None => 0,
        };
        self.selected = Some(i);
    }

    /// Shows or hides the detail pane.
    pub fn toggle_detail(&mut self)
        ensures
            final(self).detail_visible == !old(self).detail_visible,
            final(self).commits == old(self).commits,
            final(self).selected == old(self).selected,
            final(self).input_mode == old(self).input_mode,
            final(self).input_buffer == old(self).input_buffer,
            final(self).status_message == old(self).status_message,
            final(self).active_filter == old(self).active_filter,
    {
        self.detail_visible = !self.detail_visible;
    }
}
impl App {
    /// Reacts to `key`: updates the state as the key's action says and tells what to do next.
    pub fn handle_key(&mut self, key: Key) -> (r: AppEvent)
        ensures
            final(self)@ == after_action(old(self)@, key_action_of(old(self).input_mode, key)),
            r@ == event_of(old(self)@, key_action_of(old(self).input_mode, key)),
    {
        let ghost m = self@;
        let action = key_action(self.input_mode, key);
        match action {
            KeyAction::Quit => AppEvent::Quit,
            KeyAction::Next => {
                self.next();
                AppEvent::Nothing
            },
            KeyAction::Previous => {
                self.previous();
                AppEvent::Nothing
            },
            KeyAction::ToggleDetail => {
                self.toggle_detail();
                AppEvent::Nothing
            },
            KeyAction::StartSearch => {
                self.input_mode = InputMode::Search;
                self.input_buffer = String::new();
                assert(self@ =~= after_action(m, action));
                AppEvent::Nothing
            },
            KeyAction::StartJump => {
                self.input_mode = InputMode::Jump;
                self.input_buffer = String::new();
                assert(self@ =~= after_action(m, action));
                AppEvent::Nothing
            },
            KeyAction::ClearFilter => {
                self.active_filter = None;
                AppEvent::Refresh
            },
            KeyAction::ApplyFilter => {
                self.active_filter = if self.input_buffer.as_str().is_empty() { None } else { Some(self.input_buffer.clone()) };
                self.input_mode = InputMode::Normal;
                AppEvent::Refresh
            },
            KeyAction::SubmitJump => {
                let target = self.input_buffer.clone();
                self.input_mode = InputMode::Normal;
                AppEvent::Jump(target)
            },
            KeyAction::Type(c) => {
                push_char(&mut self.input_buffer, c);
                AppEvent::Nothing
            },
            KeyAction::Erase => {
                pop_char(&mut self.input_buffer);
                AppEvent::Nothing
            },
            KeyAction::Cancel => {
                self.input_mode = InputMode::Normal;
                AppEvent::Nothing
            },
            KeyAction::Ignore => AppEvent::Nothing,
        }
    }

    /// Selects the commit that `reference` resolved to (`None` when it names nothing), and says
    /// in the status bar what happened.
    pub fn jump_to_ref(&mut self, reference: &str, resolved: Option<String>)
        requires
            resolved matches Some(h) ==> h@.len() >= 7,
        ensures
            final(self)@ == after_jump(old(self)@, reference@, opt_str_view(resolved)),
    {
        let ghost m = self@;
        match resolved {
            Some(hash) => {
                let ghost cv = commits_view(self.commits@);
                let mut i: usize = 0;
                let mut found = false;
                loop
                    invariant_except_break
                        !found,
                    invariant
                        i <= self.commits@.len(),
                        cv == commits_view(self.commits@),
                        forall|j: int| 0 <= j < i ==> !names_commit(#[trigger] cv[j], hash@),
                    ensures
                        i <= self.commits@.len(),
                        forall|j: int| 0 <= j < i ==> !names_commit(#[trigger] cv[j], hash@),
                        found ==> i < self.commits@.len() && names_commit(cv[i as int], hash@),
                        !found ==> i == self.commits@.len(),
                    decreases self.commits@.len() - i,
                {
                    if i >= self.commits.len() {
                        break;
                    }
                    if str_starts_with(self.commits[i].hash.as_str(), hash.as_str()) {
                        found = true;
                        break;
                    }
                    i = i + 1;
                }
                let short = hash.as_str().substring_char(0, 7);
                assert(short@ =~= hash@.take(7));
                if found {
                    proof { lemma_jump_index_is(cv, hash@, i as int); }
                    self.selected = Some(i);
                    self.status_message = Some((concat("Jumped to ", short), TUI_GRAY));
                } else {
                    proof { lemma_jump_index_is(cv, hash@, i as int); }
                    let msg = concat(concat("Ref resolved to ", short).as_str(), " but not in current list");
                    self.status_message = Some((msg, TUI_LIGHT_RED));
                }
            },
            None => {
                let msg = concat(concat("Reference '", reference).as_str(), "' not found");
                self.status_message = Some((msg, TUI_LIGHT_RED));
            },
        }
        assert(self@ =~= after_jump(m, reference@, opt_str_view(resolved)));
    }

    /// The text and colour of the status bar.
    pub fn status_prompt(&self) -> (r: (String, u8))
        ensures
            (r.0@, r.1) == status_prompt_of(self@),
    {
        match self.input_mode {
            InputMode::Normal => match &self.status_message {
                Some((msg, col)) => (msg.clone(), *col),
                None => match &self.active_filter {
                    Some(f) => (concat("Filter: ", f.as_str()), TUI_CYAN),
                    None => ("q:quit | /:filter | J:jump | d:detail | Esc:clear filter".to_owned(), TUI_DARK_GRAY),
                },
            },
            InputMode::Search => (concat(concat("Search: ", self.input_buffer.as_str()).as_str(), "_"), TUI_YELLOW),
            InputMode::Jump => (concat(concat("Jump to (branch/tag/hash): ", self.input_buffer.as_str()).as_str(), "_"), TUI_MAGENTA),
        }
    }

    /// The detail pane of the selected commit (of the first one when nothing is selected);
    /// nothing when there is no such commit.
    pub fn detail_lines(&self) -> (r: Vec<Vec<Segment>>)
        ensures
            ({
                let i = match self.selected { Some(i) => i as int, None => 0 };
                if i < self.commits@.len() { lines_view(r@) == detail_of(self.commits@[i]@) } else { r@.len() == 0 }
            }),
    {
        let i = match self.selected {
            Some(i) => i,
            None => 0,
        };
        let mut lines: Vec<Vec<Segment>> = Vec::new();
        if i >= self.commits.len() {
            return lines;
        }
        let c = &self.commits[i];
        let gray = StyleSpec { fg: Some(TUI_GRAY), bg: None, emphasis: Emphasis::Normal };
        let bold = StyleSpec { fg: None, bg: None, emphasis: Emphasis::Bold };
        let mut l1: Vec<Segment> = Vec::new();
        l1.push(style_seg("Hash:   ", gray));
        l1.push(plain_seg(c.hash.as_str()));
        lines.push(l1);
        let mut l2: Vec<Segment> = Vec::new();
        l2.push(style_seg("Author: ", gray));
        l2.push(plain_seg(c.author.as_str()));
        lines.push(l2);
        let mut l3: Vec<Segment> = Vec::new();
        l3.push(style_seg("TS:     ", gray));
        l3.push(plain_seg(decimal_i64(c.date).as_str()));
        lines.push(l3);
        lines.push(Vec::new());
        let mut l5: Vec<Segment> = Vec::new();
        l5.push(style_seg("Subject: ", bold));
        lines.push(l5);
        let mut l6: Vec<Segment> = Vec::new();
        l6.push(plain_seg(c.subject.as_str()));
        lines.push(l6);
        lines.push(Vec::new());
        let mut l8: Vec<Segment> = Vec::new();
        l8.push(style_seg("Body:", bold));
        lines.push(l8);
        let body = match &c.body {
            Some(b) => b.as_str(),
            None => "[No body text]",
        };
        let mut l9: Vec<Segment> = Vec::new();
        l9.push(plain_seg(body));
        lines.push(l9);
        assert(lines_view(lines@) =~~= detail_of(c@));
        lines
    }
}

/// The item of commit `c` in the commit list.
pub fn commit_list_item(c: &CommitInfo) -> (r: Vec<Segment>)
    ensures
        segs_view(r@) == list_item_of(c@),
{
    let mut spans: Vec<Segment> = Vec::new();
    let hash_text = concat(concat("[", short_hash(c.hash.as_str()).as_str()).as_str(), "] ");
    spans.push(style_seg(hash_text.as_str(), StyleSpec { fg: Some(TUI_DARK_GRAY), bg: None, emphasis: Emphasis::Normal }));
    let ghost first = segs_view(spans@);
    let ghost badges = labels_view(c.labels@).map_values(|l: LabelModel| list_badge(l));
    let mut k: usize = 0;
    while k < c.labels.len()
        invariant
            k <= c.labels@.len(),
            badges == labels_view(c.labels@).map_values(|l: LabelModel| list_badge(l)),
            segs_view(spans@) =~= first + badges.take(k as int),
        decreases c.labels@.len() - k,
    {
        let (text, color) = match &c.labels[k] {
            LabelInfo::Head(n) => (n, TUI_CYAN),
            LabelInfo::LocalBranch(n) => (n, TUI_GREEN),
            LabelInfo::RemoteBranch(n) => (n, TUI_RED),
            LabelInfo::Tag(n) => (n, TUI_YELLOW),
        };
        let badge = style_seg(concat(concat("(", text.as_str()).as_str(), ") ").as_str(), StyleSpec { fg: Some(color), bg: None, emphasis: Emphasis::Bold });
        assert(badge@ == badges[k as int]);
        let ghost before = segs_view(spans@);
        spans.push(badge);
        assert(segs_view(spans@) =~= before.push(badge@));
        assert(badges.take(k as int + 1) =~= badges.take(k as int).push(badges[k as int]));
        k = k + 1;
    }
    assert(badges.take(c.labels@.len() as int) =~= badges);
    let ghost before = segs_view(spans@);
    let last = plain_seg(c.subject.as_str());
    spans.push(last);
    assert(segs_view(spans@) =~= before.push(last@));
    spans
}

/// Moving down then up, or up then down, comes back to the same commit.
pub proof fn law_next_previous_inverse(len: nat, sel: Option<usize>)
    requires
        len > 0,
        len <= usize::MAX,
        selection_ok(len, sel),
    ensures
        prev_sel(len, next_sel(len, sel)) == sel,
        next_sel(len, prev_sel(len, sel)) == sel,
{
}

/// Moving keeps the selection on a commit, and puts it there when there was none.
pub proof fn law_navigation_keeps_selection(len: nat, sel: Option<usize>)
    requires
        len <= usize::MAX,
    ensures
        selection_ok(len, next_sel(len, sel)),
        selection_ok(len, sel) ==> selection_ok(len, prev_sel(len, sel)),
{
}

/// Moving down `k` times (at most once round) advances the selection by `k`, wrapping once past
/// the end; so moving down as many times as there are commits comes back to the start.
pub proof fn law_next_cycles(len: nat, sel: Option<usize>, k: nat)
    requires
        len > 0,
        len <= usize::MAX,
        selection_ok(len, sel),
        k <= len,
    ensures
        selection_ok(len, next_sel_n(len, sel, k)),
        next_sel_n(len, sel, k) == Some((if sel->0 + k < len { sel->0 + k } else { sel->0 + k - len }) as usize),
    decreases k,
{
    if k > 0 {
        law_next_cycles(len, sel, (k - 1) as nat);
    }
}

/// The selection after moving down `k` times.
pub open spec fn next_sel_n(len: nat, sel: Option<usize>, k: nat) -> Option<usize>
    decreases k,
{
    if k == 0 { sel } else { next_sel(len, next_sel_n(len, sel, (k - 1) as nat)) }
}

/// Typing a character and erasing it leaves the input as it was.
pub proof fn law_type_then_erase(m: AppModel, c: char)
    ensures
        after_action(after_action(m, KeyAction::Type(c)), KeyAction::Erase) == m,
{
    assert(m.input_buffer.push(c).drop_last() =~= m.input_buffer);
}

/// Toggling the detail pane twice leaves the state as it was.
pub proof fn law_toggle_twice(m: AppModel)
    ensures
        after_action(after_action(m, KeyAction::ToggleDetail), KeyAction::ToggleDetail) == m,
{
}

/// A jump that finds its commit selects a commit whose hash starts with the resolved hash, and
/// no earlier commit has such a hash.
pub proof fn law_jump_selects_named_commit(m: AppModel, reference: Seq<char>, h: Seq<char>)
    requires
        jump_index(m.commits, h) < m.commits.len(),
    ensures
        after_jump(m, reference, Some(h)).selected == Some(jump_index(m.commits, h) as usize),
        names_commit(m.commits[jump_index(m.commits, h) as int], h),
        forall|j: int| 0 <= j < jump_index(m.commits, h) ==> !names_commit(#[trigger] m.commits[j], h),
    decreases m.commits.len(),
{
    lemma_jump_index_props(m.commits, h);
}

pub proof fn lemma_jump_index_props(commits: Seq<CommitModel>, h: Seq<char>)
    ensures
        jump_index(commits, h) <= commits.len(),
        jump_index(commits, h) < commits.len() ==> names_commit(commits[jump_index(commits, h) as int], h),
        forall|j: int| 0 <= j < jump_index(commits, h) ==> !names_commit(#[trigger] commits[j], h),
    decreases commits.len(),
{
    if commits.len() > 0 && !names_commit(commits[0], h) {
        let t = commits.drop_first();
        lemma_jump_index_props(t, h);
        assert forall|j: int| 0 <= j < jump_index(commits, h) implies !names_commit(#[trigger] commits[j], h) by {
            if j > 0 {
                assert(commits[j] == t[j - 1]);
            }
        }
    }
}

/// The key bindings: in normal mode `q` quits, `d` toggles the detail pane, `/` and `f` start a
/// search, `J` a jump, Esc clears the filter; while typing a search or a jump, Enter submits it,
/// Backspace erases, Esc cancels, and any other character is typed.
pub proof fn law_key_bindings(c: char)
    ensures
        key_action_of(InputMode::Normal, Key::Char('q')) == KeyAction::Quit,
        key_action_of(InputMode::Normal, Key::Char('d')) == KeyAction::ToggleDetail,
        key_action_of(InputMode::Normal, Key::Char('/')) == KeyAction::StartSearch,
        key_action_of(InputMode::Normal, Key::Char('f')) == KeyAction::StartSearch,
        key_action_of(InputMode::Normal, Key::Char('J')) == KeyAction::StartJump,
        key_action_of(InputMode::Normal, Key::Esc) == KeyAction::ClearFilter,
        key_action_of(InputMode::Search, Key::Enter) == KeyAction::ApplyFilter,
        key_action_of(InputMode::Jump, Key::Enter) == KeyAction::SubmitJump,
        key_action_of(InputMode::Search, Key::Backspace) == KeyAction::Erase,
        key_action_of(InputMode::Jump, Key::Backspace) == KeyAction::Erase,
        key_action_of(InputMode::Search, Key::Esc) == KeyAction::Cancel,
        key_action_of(InputMode::Jump, Key::Esc) == KeyAction::Cancel,
        key_action_of(InputMode::Search, Key::Char(c)) == KeyAction::Type(c),
        key_action_of(InputMode::Jump, Key::Char(c)) == KeyAction::Type(c),
{
}

/// In normal mode the arrow keys move like `j` and `k`: down and `j` go to the next commit, up and
/// `k` to the previous one.
pub proof fn law_arrows_move_like_j_and_k()
    ensures
        key_action_of(InputMode::Normal, Key::Down) == KeyAction::Next,
        key_action_of(InputMode::Normal, Key::Char('j')) == KeyAction::Next,
        key_action_of(InputMode::Normal, Key::Up) == KeyAction::Previous,
        key_action_of(InputMode::Normal, Key::Char('k')) == KeyAction::Previous,
        forall|m: AppModel| m.input_mode == InputMode::Normal && m.selected is Some && m.selected->0 < m.commits.len()
            ==> (#[trigger] after_action(m, key_action_of(m.input_mode, Key::Up))).selected
                == Some((if m.selected->0 == 0 { m.commits.len() - 1 } else { m.selected->0 - 1 }) as usize),
        forall|m: AppModel| m.input_mode == InputMode::Normal && m.selected is Some && m.selected->0 < m.commits.len()
            ==> (#[trigger] after_action(m, key_action_of(m.input_mode, Key::Down))).selected
                == Some((if m.selected->0 + 1 >= m.commits.len() { 0 } else { m.selected->0 + 1 }) as usize),
{
}

} // verus!
