use vstd::prelude::*;
use crate::commands::UndoSubcommand;
use crate::models::strs_view;
use crate::models::undo::{actions_view, ActionModel, CommitUndoInfo, ResetMode, UndoAction, UndoPlan};
use crate::utils::graph_renderer::lines_view;
use crate::utils::styles::{
    fg, fg_style, plain, plain_seg, plain_style, segs_view, style_seg, styled_seg, Emphasis, Segment, SegmentModel,
    StyleSpec, CYAN, DARK_GREY, GREEN, RED, YELLOW,
};
use crate::utils::text::{chars_of, lowercase, short_hash, short_hash_of, str_eq, to_lowercase, trim, trimmed};

verus! {

/// Why an undo could not be planned.
#[derive(Debug, Clone, Copy, PartialEq, Eq, Structural)]
pub enum UndoError {
    /// There is no commit to undo.
    NoLastCommit,
}

impl UndoError {
    /// The message shown for this error.
    pub fn message(&self) -> (r: String)
        ensures
            r@ == "No last commit to undo."@,
    {
        "No last commit to undo.".to_owned()
    }
}

/// Which parts of the status an undo looks at: (untracked files, whether to list the files inside
/// untracked directories one by one, ignored files). Cleaning lists an untracked directory as one
/// path ending in `/`, so that it is removed whole, and only with `-d`.
pub open spec fn status_options_of(sub: UndoSubcommand) -> (bool, bool, bool) {
    match sub {
        UndoSubcommand::Clean { directories, ignored } => (true, false, ignored),
        UndoSubcommand::All { clean_untracked } => (clean_untracked, clean_untracked, false),
        UndoSubcommand::Status => (true, true, true),
        _ => (false, false, false),
    }
}

/// Which parts of the status `sub` needs: (untracked files, files inside untracked directories
/// one by one, ignored files).
pub fn status_options(sub: UndoSubcommand) -> (r: (bool, bool, bool))
    ensures
        r == status_options_of(sub),
{
    match sub {
        UndoSubcommand::Clean { directories: _, ignored } => (true, false, ignored),
        UndoSubcommand::All { clean_untracked } => (clean_untracked, clean_untracked, false),
        UndoSubcommand::Status => (true, true, true),
        _ => (false, false, false),
    }
}

/// One `Unstage` per path.
pub open spec fn unstage_all(paths: Seq<Seq<char>>) -> Seq<ActionModel> {
    paths.map_values(|p: Seq<char>| ActionModel::Unstage(p))
}

/// One `Discard` per path.
pub open spec fn discard_all(paths: Seq<Seq<char>>) -> Seq<ActionModel> {
    paths.map_values(|p: Seq<char>| ActionModel::Discard(p))
}

/// One `RemoveUntracked` per path.
pub open spec fn remove_all_untracked(paths: Seq<Seq<char>>) -> Seq<ActionModel> {
    paths.map_values(|p: Seq<char>| ActionModel::RemoveUntracked(p))
}

/// The path names a directory (git lists a directory it does not enter with a trailing `/`).
pub open spec fn is_dir_path(p: Seq<char>) -> bool {
    p.len() > 0 && p.last() == '/'
}

/// The first `k` of `paths` that cleaning removes: files, and directories only when `dirs`.
pub open spec fn removable(paths: Seq<Seq<char>>, dirs: bool, k: nat) -> Seq<Seq<char>>
    decreases k,
{
    if k == 0 {
        Seq::empty()
    } else {
        let prev = removable(paths, dirs, (k - 1) as nat);
        if dirs || !is_dir_path(paths[k - 1]) { prev.push(paths[k - 1]) } else { prev }
    }
}

/// What `clean` removes: the untracked paths, and the ignored ones with `-x`; directories among
/// them only with `-d`.
pub open spec fn clean_targets(plan: UndoPlan, directories: bool, ignored: bool) -> Seq<Seq<char>> {
    let untracked = strs_view(plan.untracked_files@);
    let ign = strs_view(plan.ignored_files@);
    removable(untracked, directories, untracked.len())
        + (if ignored { removable(ign, directories, ign.len()) } else { Seq::empty() })
}

/// The reset mode of `last-commit`: hard wins over soft, and mixed is the default.
pub open spec fn reset_mode_of(soft: bool, hard: bool) -> ResetMode {
    if hard { ResetMode::Hard } else if soft { ResetMode::Soft } else { ResetMode::Mixed }
}

/// The actions of `plan` once `sub` is planned; `None` when there is no commit to undo.
pub open spec fn planned_actions(plan: UndoPlan, sub: UndoSubcommand) -> Option<Seq<ActionModel>> {
    let staged = strs_view(plan.staged_files@);
    let unstaged = strs_view(plan.unstaged_files@);
    let untracked = strs_view(plan.untracked_files@);
    let old_actions = actions_view(plan.actions@);
    match sub {
        UndoSubcommand::Status => Some(old_actions),
        UndoSubcommand::Unstage => Some(unstage_all(staged)),
        UndoSubcommand::Discard => Some(discard_all(unstaged)),
        UndoSubcommand::LastCommit { soft, mixed, hard } => match plan.last_commit {
            Some(info) => Some(old_actions.push(ActionModel::ResetCommit(info.hash@, reset_mode_of(soft, hard)))),
            None => None,
        },
        UndoSubcommand::Clean { directories, ignored } => Some(remove_all_untracked(clean_targets(plan, directories, ignored))),
        UndoSubcommand::All { .. } => Some(old_actions + unstage_all(staged) + discard_all(unstaged) + remove_all_untracked(untracked)),
    }
}

/// Appends one action per path: `kind` 0 unstages, 1 discards, 2 removes.
fn push_path_actions(actions: &mut Vec<UndoAction>, paths: &Vec<String>, kind: u8)
    requires
        kind < 3,
    ensures
        actions_view(final(actions)@) == actions_view(old(actions)@) + (if kind == 0 {
            unstage_all(strs_view(paths@))
        } else if kind == 1 {
            discard_all(strs_view(paths@))
        } else {
            remove_all_untracked(strs_view(paths@))
        }),
{
    let ghost start = actions_view(actions@);
    let ghost all = if kind == 0 {
        unstage_all(strs_view(paths@))
    } else if kind == 1 {
        discard_all(strs_view(paths@))
    } else {
        remove_all_untracked(strs_view(paths@))
    };
    let mut i: usize = 0;
    while i < paths.len()
        invariant
            i <= paths@.len(),
            kind < 3,
            all == (if kind == 0 {
                unstage_all(strs_view(paths@))
            } else if kind == 1 {
                discard_all(strs_view(paths@))
            } else {
                remove_all_untracked(strs_view(paths@))
            }),
            actions_view(actions@) =~= start + all.take(i as int),
        decreases paths@.len() - i,
    {
        let f = paths[i].clone();
        let a = if kind == 0 {
            UndoAction::Unstage(f)
        } else if kind == 1 {
            UndoAction::Discard(f)
        } else {
            UndoAction::RemoveUntracked(f)
        };
        assert(a@ == all[i as int]);
        let ghost before = actions_view(actions@);
        actions.push(a);
        assert(actions_view(actions@) =~= before.push(a@));
        assert(all.take(i as int + 1) =~= all.take(i as int).push(all[i as int]));
        i = i + 1;
    }
    assert(all.take(paths@.len() as int) =~= all);
}

/// Whether `p` ends in `/`.
fn ends_with_slash(p: &str) -> (r: bool)
    ensures
        r == is_dir_path(p@),
{
    let cs = chars_of(p);
    cs.len() > 0 && cs[cs.len() - 1] == '/'
}

/// Appends a removal of each of `paths` that cleaning removes (directories only when `dirs`).
fn push_removals(actions: &mut Vec<UndoAction>, paths: &Vec<String>, dirs: bool)
    ensures
        actions_view(final(actions)@) == actions_view(old(actions)@)
            + remove_all_untracked(removable(strs_view(paths@), dirs, paths@.len() as nat)),
{
    let ghost start = actions_view(actions@);
    let ghost ps = strs_view(paths@);
    let mut i: usize = 0;
    while i < paths.len()
        invariant
            i <= paths@.len(),
            ps == strs_view(paths@),
            actions_view(actions@) =~= start + remove_all_untracked(removable(ps, dirs, i as nat)),
        decreases paths@.len() - i,
    {
        let ghost before = actions_view(actions@);
        if dirs || !ends_with_slash(paths[i].as_str()) {
            let a = UndoAction::RemoveUntracked(paths[i].clone());
            actions.push(a);
            assert(actions_view(actions@) =~= before.push(a@));
            assert(removable(ps, dirs, (i + 1) as nat) == removable(ps, dirs, i as nat).push(ps[i as int]));
            assert(remove_all_untracked(removable(ps, dirs, (i + 1) as nat)) =~= remove_all_untracked(
                removable(ps, dirs, i as nat),
            ).push(ActionModel::RemoveUntracked(ps[i as int])));
        } else {
            assert(removable(ps, dirs, (i + 1) as nat) == removable(ps, dirs, i as nat));
        }
        i = i + 1;
    }
}

/// Chooses the actions of `sub` in `plan` (the status subcommand chooses none): the files of the
/// matching lists, or a reset of the last commit; fails when there is no commit to undo.
pub fn plan_undo(plan: UndoPlan, sub: UndoSubcommand) -> (r: Result<UndoPlan, UndoError>)
    ensures
        planned_actions(plan, sub) is None <==> r is Err,
        r matches Ok(p) ==> Some(actions_view(p.actions@)) == planned_actions(plan, sub)
            && p.staged_files == plan.staged_files && p.unstaged_files == plan.unstaged_files
            && p.untracked_files == plan.untracked_files && p.ignored_files == plan.ignored_files
            && p.last_commit == plan.last_commit,
{
    let mut plan = plan;
    match sub {
        UndoSubcommand::Status => {},
        UndoSubcommand::Unstage => {
            let mut actions: Vec<UndoAction> = Vec::new();
            assert(actions_view(actions@) =~= Seq::<ActionModel>::empty());
            push_path_actions(&mut actions, &plan.staged_files, 0);
            assert(actions_view(actions@) =~= unstage_all(strs_view(plan.staged_files@)));
            plan.actions = actions;
        },
        UndoSubcommand::Discard => {
            let mut actions: Vec<UndoAction> = Vec::new();
            assert(actions_view(actions@) =~= Seq::<ActionModel>::empty());
            push_path_actions(&mut actions, &plan.unstaged_files, 1);
            assert(actions_view(actions@) =~= discard_all(strs_view(plan.unstaged_files@)));
            plan.actions = actions;
        },
        UndoSubcommand::LastCommit { soft, mixed: _, hard } => {
            match &plan.last_commit {
                Some(info) => {
                    let mode = if hard { ResetMode::Hard } else if soft { ResetMode::Soft } else { ResetMode::Mixed };
                    let a = UndoAction::ResetCommit { hash: info.hash.clone(), mode };
                    let ghost before = actions_view(plan.actions@);
                    plan.actions.push(a);
                    assert(actions_view(plan.actions@) =~= before.push(a@));
                },
                None => {
                    return Err(UndoError::NoLastCommit);
                },
            }
        },
        UndoSubcommand::Clean { directories, ignored } => {
            let mut actions: Vec<UndoAction> = Vec::new();
            assert(actions_view(actions@) =~= Seq::<ActionModel>::empty());
            push_removals(&mut actions, &plan.untracked_files, directories);
            if ignored {
                push_removals(&mut actions, &plan.ignored_files, directories);
            }
            assert(actions_view(actions@) =~= remove_all_untracked(clean_targets(plan, directories, ignored)));
            plan.actions = actions;
        },
        UndoSubcommand::All { .. } => {
            let mut actions = plan.actions;
            plan.actions = Vec::new();
            push_path_actions(&mut actions, &plan.staged_files, 0);
            push_path_actions(&mut actions, &plan.unstaged_files, 1);
            push_path_actions(&mut actions, &plan.untracked_files, 2);
            plan.actions = actions;
        },
    }
    Ok(plan)
}

/// With `-d`, cleaning keeps every path it is given.
pub proof fn lemma_removable_all(paths: Seq<Seq<char>>, k: nat)
    requires
        k <= paths.len(),
    ensures
        removable(paths, true, k) == paths.take(k as int),
    decreases k,
{
    if k > 0 {
        lemma_removable_all(paths, (k - 1) as nat);
        assert(paths.take(k as int) =~= paths.take(k - 1).push(paths[k - 1]));
    }
}

/// Undoing everything plans exactly what unstaging, discarding and cleaning with `-d` (and
/// without `-x`) plan, in that order.
pub proof fn law_all_is_unstage_discard_clean(plan: UndoPlan, clean_untracked: bool)
    requires
        plan.actions@.len() == 0,
    ensures
        planned_actions(plan, UndoSubcommand::All { clean_untracked }) == Some(
            planned_actions(plan, UndoSubcommand::Unstage)->0
                + planned_actions(plan, UndoSubcommand::Discard)->0
                + planned_actions(plan, UndoSubcommand::Clean { directories: true, ignored: false })->0,
        ),
{
    assert(actions_view(plan.actions@) =~= Seq::<ActionModel>::empty());
    let ut = strs_view(plan.untracked_files@);
    lemma_removable_all(ut, ut.len());
    assert(ut.take(ut.len() as int) =~= ut);
    assert(clean_targets(plan, true, false) =~= ut);
    let u = unstage_all(strs_view(plan.staged_files@));
    let d = discard_all(strs_view(plan.unstaged_files@));
    let c = remove_all_untracked(ut);
    assert(Seq::<ActionModel>::empty() + u + d + c =~= u + d + c);
}

/// Cleaning never removes a directory without `-d`, and with `-x` also removes the ignored paths.
pub proof fn law_clean_directories_only_with_d(plan: UndoPlan, directories: bool, ignored: bool, p: Seq<char>)
    ensures
        !directories ==> forall|i: int| 0 <= i < clean_targets(plan, directories, ignored).len()
            ==> !is_dir_path(#[trigger] clean_targets(plan, directories, ignored)[i]),
        ignored && strs_view(plan.ignored_files@).contains(p) && (directories || !is_dir_path(p))
            ==> clean_targets(plan, directories, ignored).contains(p),
        strs_view(plan.untracked_files@).contains(p) && (directories || !is_dir_path(p))
            ==> clean_targets(plan, directories, ignored).contains(p),
{
    let ut = strs_view(plan.untracked_files@);
    let ig = strs_view(plan.ignored_files@);
    lemma_removable_props(ut, directories, ut.len());
    lemma_removable_props(ig, directories, ig.len());
    let a = removable(ut, directories, ut.len());
    let b = if ignored { removable(ig, directories, ig.len()) } else { Seq::empty() };
    let c = clean_targets(plan, directories, ignored);
    assert(c == a + b);
    if !directories {
        assert forall|i: int| 0 <= i < c.len() implies !is_dir_path(#[trigger] c[i]) by {
            if i < a.len() {
                assert(c[i] == a[i]);
            } else {
                assert(c[i] == b[i - a.len()]);
            }
        }
    }
    if ignored && ig.contains(p) && (directories || !is_dir_path(p)) {
        let w = choose|w: int| 0 <= w < ig.len() && ig[w] == p;
        assert(b.contains(ig[w]));
        let x = choose|x: int| 0 <= x < b.len() && b[x] == p;
        assert(c[a.len() + x] == p);
    }
    if ut.contains(p) && (directories || !is_dir_path(p)) {
        let w = choose|w: int| 0 <= w < ut.len() && ut[w] == p;
        assert(a.contains(ut[w]));
        let x = choose|x: int| 0 <= x < a.len() && a[x] == p;
        assert(c[x] == p);
    }
}

/// What cleaning keeps of `paths`: no directory without `dirs`, and every path it may remove.
pub proof fn lemma_removable_props(paths: Seq<Seq<char>>, dirs: bool, k: nat)
    requires
        k <= paths.len(),
    ensures
        !dirs ==> forall|i: int| 0 <= i < removable(paths, dirs, k).len() ==> !is_dir_path(#[trigger] removable(paths, dirs, k)[i]),
        forall|i: int| 0 <= i < k && (dirs || !is_dir_path(paths[i])) ==> removable(paths, dirs, k).contains(#[trigger] paths[i]),
    decreases k,
{
    if k > 0 {
        lemma_removable_props(paths, dirs, (k - 1) as nat);
        let prev = removable(paths, dirs, (k - 1) as nat);
        let r = removable(paths, dirs, k);
        assert forall|i: int| 0 <= i < k && (dirs || !is_dir_path(paths[i])) implies r.contains(#[trigger] paths[i]) by {
            if i < k - 1 {
                let x = choose|x: int| 0 <= x < prev.len() && prev[x] == paths[i];
                assert(r[x] == prev[x]);
            } else {
                assert(r[r.len() - 1] == paths[i]);
            }
        }
    }
}

/// Unstaging, discarding and cleaning replace whatever actions were chosen before: they depend
/// on the file lists alone.
pub proof fn law_replacing_subcommands_ignore_earlier_actions(plan: UndoPlan, sub: UndoSubcommand)
    requires
        sub matches UndoSubcommand::Unstage || sub matches UndoSubcommand::Discard || sub matches UndoSubcommand::Clean { .. },
    ensures
        forall|p2: UndoPlan| p2.staged_files == plan.staged_files && p2.unstaged_files == plan.unstaged_files
            && p2.untracked_files == plan.untracked_files && p2.ignored_files == plan.ignored_files ==> #[trigger] planned_actions(p2, sub) == planned_actions(plan, sub),
{
}

/// How a reset mode is written (`{:?}`).
pub open spec fn mode_name(m: ResetMode) -> Seq<char> {
    match m {
        ResetMode::Soft => "Soft"@,
        ResetMode::Mixed => "Mixed"@,
        ResetMode::Hard => "Hard"@,
    }
}

/// The preview line of one action.
pub open spec fn action_line(a: ActionModel) -> Seq<SegmentModel> {
    match a {
        ActionModel::Unstage(f) => seq![plain("  "@), styled_seg("[-]"@, fg_style(YELLOW, Emphasis::Normal)), plain(" unstage "@), plain(f)],
        ActionModel::Discard(f) => seq![plain("  "@), styled_seg("[!]"@, fg_style(RED, Emphasis::Normal)), plain(" discard changes in "@), plain(f)],
        ActionModel::RemoveUntracked(f) => seq![plain("  "@), styled_seg("[x]"@, fg_style(RED, Emphasis::Normal)), plain(" remove untracked "@), plain(f)],
        ActionModel::ResetCommit(h, m) => seq![
            plain("  "@),
            styled_seg("[R]"@, fg_style(RED, Emphasis::Normal)),
            plain(" reset last commit ("@),
            plain(short_hash_of(h)),
            plain(") in "@),
            plain(mode_name(m)),
        ],
    }
}

/// The style with no colour and emphasis `e`.
pub open spec fn no_color(e: Emphasis) -> StyleSpec {
    StyleSpec { fg: None, bg: None, emphasis: e }
}

/// The preview of an undo: a title, then one line per action.
pub open spec fn preview_lines(actions: Seq<ActionModel>) -> Seq<Seq<SegmentModel>> {
    seq![seq![styled_seg("--- [ Undo Plan Preview ] ---"@, no_color(Emphasis::Bold))]]
        + actions.map_values(|a: ActionModel| action_line(a))
}

/// The line of one action.
fn render_action(a: &UndoAction) -> (r: Vec<Segment>)
    ensures
        segs_view(r@) == action_line(a@),
{
    let mut line: Vec<Segment> = Vec::new();
    line.push(plain_seg("  "));
    match a {
        UndoAction::Unstage(f) => {
            line.push(style_seg("[-]", fg(YELLOW, Emphasis::Normal)));
            line.push(plain_seg(" unstage "));
            line.push(plain_seg(f.as_str()));
        },
        UndoAction::Discard(f) => {
            line.push(style_seg("[!]", fg(RED, Emphasis::Normal)));
            line.push(plain_seg(" discard changes in "));
            line.push(plain_seg(f.as_str()));
        },
        UndoAction::RemoveUntracked(f) => {
            line.push(style_seg("[x]", fg(RED, Emphasis::Normal)));
            line.push(plain_seg(" remove untracked "));
            line.push(plain_seg(f.as_str()));
        },
        UndoAction::ResetCommit { hash, mode } => {
            line.push(style_seg("[R]", fg(RED, Emphasis::Normal)));
            line.push(plain_seg(" reset last commit ("));
            line.push(plain_seg(short_hash(hash.as_str()).as_str()));
            line.push(plain_seg(") in "));
            let name = match mode {
                ResetMode::Soft => "Soft",
                ResetMode::Mixed => "Mixed",
                ResetMode::Hard => "Hard",
            };
            line.push(plain_seg(name));
        },
    }
    assert(segs_view(line@) =~= action_line(a@));
    line
}

/// The preview of the actions of an undo.
pub fn undo_preview_lines(actions: &Vec<UndoAction>) -> (r: Vec<Vec<Segment>>)
    ensures
        lines_view(r@) == preview_lines(actions_view(actions@)),
{
    let mut lines: Vec<Vec<Segment>> = Vec::new();
    let mut title: Vec<Segment> = Vec::new();
    title.push(style_seg("--- [ Undo Plan Preview ] ---", plain_style(Emphasis::Bold)));
    lines.push(title);
    let ghost first = lines_view(lines@);
    assert(first =~~= seq![seq![styled_seg("--- [ Undo Plan Preview ] ---"@, no_color(Emphasis::Bold))]]);
    let ghost all = actions_view(actions@).map_values(|a: ActionModel| action_line(a));
    let mut i: usize = 0;
    while i < actions.len()
        invariant
            i <= actions@.len(),
            all == actions_view(actions@).map_values(|a: ActionModel| action_line(a)),
            lines_view(lines@) =~= first + all.take(i as int),
        decreases actions@.len() - i,
    {
        let l = render_action(&actions[i]);
        let ghost before = lines_view(lines@);
        lines.push(l);
        assert(lines_view(lines@) =~= before.push(all[i as int]));
        assert(all.take(i as int + 1) =~= all.take(i as int).push(all[i as int]));
        i = i + 1;
    }
    assert(all.take(actions@.len() as int) =~= all);
    lines
}

/// A titled list of files: a blank line, the title, then each file indented; nothing when empty.
pub open spec fn file_section(files: Seq<Seq<char>>, title: Seq<char>, style: StyleSpec) -> Seq<Seq<SegmentModel>> {
    if files.len() == 0 {
        Seq::empty()
    } else {
        seq![Seq::<SegmentModel>::empty(), seq![styled_seg(title, style), plain(":"@)]]
            + files.map_values(|f: Seq<char>| seq![plain("  "@), plain(f)])
    }
}

/// The section about the last commit.
pub open spec fn last_commit_section(last: Option<CommitUndoInfo>) -> Seq<Seq<SegmentModel>> {
    match last {
        Some(info) => seq![
            Seq::<SegmentModel>::empty(),
            seq![styled_seg("Last commit"@, fg_style(CYAN, Emphasis::Bold)), plain(":"@)],
            seq![plain("  "@), plain(short_hash_of(info.hash@)), plain(" - "@), plain(info.subject@)],
        ] + (if info.already_pushed {
            seq![seq![plain("  "@), styled_seg("WARNING: This commit appears to be already pushed to a remote."@, fg_style(RED, Emphasis::Italic))]]
        } else {
            Seq::empty()
        }),
        None => Seq::empty(),
    }
}

/// What `undo status` shows: a title, then each non-empty list and the last commit; or that
/// nothing can be undone.
pub open spec fn status_lines(plan: UndoPlan) -> Seq<Seq<SegmentModel>> {
    let title = seq![seq![styled_seg("--- [ Undo Status ] ---"@, fg_style(CYAN, Emphasis::Bold))]];
    let staged = strs_view(plan.staged_files@);
    let unstaged = strs_view(plan.unstaged_files@);
    let untracked = strs_view(plan.untracked_files@);
    if staged.len() == 0 && unstaged.len() == 0 && untracked.len() == 0 && plan.last_commit is None {
        title + seq![seq![plain("Nothing can be undone. Repository is clean."@)]]
    } else {
        title + file_section(staged, "Staged changes"@, fg_style(YELLOW, Emphasis::Bold))
            + file_section(unstaged, "Unstaged changes (tracked)"@, fg_style(RED, Emphasis::Bold))
            + file_section(untracked, "Untracked files"@, fg_style(RED, Emphasis::Normal))
            + last_commit_section(plan.last_commit)
    }
}

/// Appends a titled list of files to `lines`.
fn push_file_section(lines: &mut Vec<Vec<Segment>>, files: &Vec<String>, title: &str, style: StyleSpec)
    ensures
        lines_view(final(lines)@) == lines_view(old(lines)@) + file_section(strs_view(files@), title@, style),
{
    if files.len() == 0 {
        assert(lines_view(lines@) =~= lines_view(old(lines)@) + file_section(strs_view(files@), title@, style));
        return;
    }
    let blank: Vec<Segment> = Vec::new();
    assert(segs_view(blank@) =~= Seq::<SegmentModel>::empty());
    lines.push(blank);
    let mut head: Vec<Segment> = Vec::new();
    head.push(style_seg(title, style));
    head.push(plain_seg(":"));
    lines.push(head);
    let ghost start = lines_view(lines@);
    assert(start =~~= lines_view(old(lines)@) + seq![Seq::<SegmentModel>::empty(), seq![styled_seg(title@, style), plain(":"@)]]);
    let ghost all = strs_view(files@).map_values(|f: Seq<char>| seq![plain("  "@), plain(f)]);
    let mut i: usize = 0;
    while i < files.len()
        invariant
            i <= files@.len(),
            all == strs_view(files@).map_values(|f: Seq<char>| seq![plain("  "@), plain(f)]),
            lines_view(lines@) =~= start + all.take(i as int),
        decreases files@.len() - i,
    {
        let mut l: Vec<Segment> = Vec::new();
        l.push(plain_seg("  "));
        l.push(plain_seg(files[i].as_str()));
        assert(segs_view(l@) =~= all[i as int]);
        let ghost before = lines_view(lines@);
        lines.push(l);
        assert(lines_view(lines@) =~= before.push(all[i as int]));
        assert(all.take(i as int + 1) =~= all.take(i as int).push(all[i as int]));
        i = i + 1;
    }
    assert(all.take(files@.len() as int) =~= all);
}

/// What `undo status` shows for `plan`.
pub fn undo_status_lines(plan: &UndoPlan) -> (r: Vec<Vec<Segment>>)
    ensures
        lines_view(r@) == status_lines(*plan),
{
    let mut lines: Vec<Vec<Segment>> = Vec::new();
    let mut title: Vec<Segment> = Vec::new();
    title.push(style_seg("--- [ Undo Status ] ---", fg(CYAN, Emphasis::Bold)));
    lines.push(title);
    let ghost t = lines_view(lines@);
    assert(t =~~= seq![seq![styled_seg("--- [ Undo Status ] ---"@, fg_style(CYAN, Emphasis::Bold))]]);
    let is_clean = plan.staged_files.len() == 0 && plan.unstaged_files.len() == 0 && plan.untracked_files.len() == 0
        && plan.last_commit.is_none();
    if is_clean {
        let mut l: Vec<Segment> = Vec::new();
        l.push(plain_seg("Nothing can be undone. Repository is clean."));
        lines.push(l);
        assert(lines_view(lines@) =~~= status_lines(*plan));
        return lines;
    }
    push_file_section(&mut lines, &plan.staged_files, "Staged changes", fg(YELLOW, Emphasis::Bold));
    push_file_section(&mut lines, &plan.unstaged_files, "Unstaged changes (tracked)", fg(RED, Emphasis::Bold));
    push_file_section(&mut lines, &plan.untracked_files, "Untracked files", fg(RED, Emphasis::Normal));
    let ghost before = lines_view(lines@);
    if let Some(info) = &plan.last_commit {
        let blank: Vec<Segment> = Vec::new();
        assert(segs_view(blank@) =~= Seq::<SegmentModel>::empty());
        lines.push(blank);
        let mut head: Vec<Segment> = Vec::new();
        head.push(style_seg("Last commit", fg(CYAN, Emphasis::Bold)));
        head.push(plain_seg(":"));
        lines.push(head);
        let mut l: Vec<Segment> = Vec::new();
        l.push(plain_seg("  "));
        l.push(plain_seg(short_hash(info.hash.as_str()).as_str()));
        l.push(plain_seg(" - "));
        l.push(plain_seg(info.subject.as_str()));
        lines.push(l);
        if info.already_pushed {
            let mut w: Vec<Segment> = Vec::new();
            w.push(plain_seg("  "));
            w.push(style_seg("WARNING: This commit appears to be already pushed to a remote.", fg(RED, Emphasis::Italic)));
            lines.push(w);
        }
    }
    assert(lines_view(lines@) =~~= before + last_commit_section(plan.last_commit));
    lines
}

/// The messages `undo` prints on its way.
#[derive(Debug, Clone, Copy, PartialEq, Eq, Structural)]
pub enum UndoNotice {
    /// No action was chosen.
    NothingToUndo,
    /// A dry run ends after the preview.
    DryRun,
    /// The question before acting (printed without a line break after it).
    ConfirmPrompt,
    /// The user did not confirm.
    Canceled,
    /// All actions were carried out.
    Completed,
}

/// The text of a notice.
pub open spec fn notice_segments(n: UndoNotice) -> Seq<SegmentModel> {
    match n {
        UndoNotice::NothingToUndo => seq![styled_seg("Nothing to undo."@, fg_style(DARK_GREY, Emphasis::Normal))],
        UndoNotice::DryRun => seq![plain("\n"@), styled_seg("Dry run: No changes were made."@, fg_style(CYAN, Emphasis::Normal))],
        UndoNotice::ConfirmPrompt => seq![plain("\n"@), styled_seg("CAUTION:"@, fg_style(YELLOW, Emphasis::Bold)), plain(" Proceed with undo? [y/N]: "@)],
        UndoNotice::Canceled => seq![plain("Canceled."@)],
        UndoNotice::Completed => seq![plain("\n"@), styled_seg("Undo completed successfully."@, fg_style(GREEN, Emphasis::Bold))],
    }
}

/// The segments of a notice.
pub fn notice_line(n: UndoNotice) -> (r: Vec<Segment>)
    ensures
        segs_view(r@) == notice_segments(n),
{
    let mut l: Vec<Segment> = Vec::new();
    match n {
        UndoNotice::NothingToUndo => {
            l.push(style_seg("Nothing to undo.", fg(DARK_GREY, Emphasis::Normal)));
        },
        UndoNotice::DryRun => {
            l.push(plain_seg("\n"));
            l.push(style_seg("Dry run: No changes were made.", fg(CYAN, Emphasis::Normal)));
        },
        UndoNotice::ConfirmPrompt => {
            l.push(plain_seg("\n"));
            l.push(style_seg("CAUTION:", fg(YELLOW, Emphasis::Bold)));
            l.push(plain_seg(" Proceed with undo? [y/N]: "));
        },
        UndoNotice::Canceled => {
            l.push(plain_seg("Canceled."));
        },
        UndoNotice::Completed => {
            l.push(plain_seg("\n"));
            l.push(style_seg("Undo completed successfully.", fg(GREEN, Emphasis::Bold)));
        },
    }
    assert(segs_view(l@) =~= notice_segments(n));
    l
}

/// What `undo` does once the preview is shown.
#[derive(Debug, Clone, Copy, PartialEq, Eq, Structural)]
pub enum NextStep {
    /// A dry run: say so and stop.
    StopDryRun,
    /// Ask the user before acting.
    Confirm,
    /// Act without asking.
    Execute,
}

/// What `undo` decides once it knows the repository's status.
#[derive(Debug, Clone)]
pub enum UndoDecision {
    /// Show these status lines and stop.
    Status(Vec<Vec<Segment>>),
    /// The undo cannot be planned.
    Failed(UndoError),
    /// No action was chosen: say so and stop.
    NothingToUndo,
    /// Show the preview lines, then go on with `next` for `plan`.
    Preview { plan: UndoPlan, lines: Vec<Vec<Segment>>, next: NextStep },
}

/// The step after the preview: a dry run stops, `--yes` acts at once, otherwise the user is asked.
pub open spec fn next_step_of(yes: bool, dry_run: bool) -> NextStep {
    if dry_run { NextStep::StopDryRun } else if yes { NextStep::Execute } else { NextStep::Confirm }
}

/// `r` is what `undo sub` decides for `plan`.
pub open spec fn decision_fits(r: UndoDecision, plan: UndoPlan, sub: UndoSubcommand, yes: bool, dry_run: bool) -> bool {
    if sub == UndoSubcommand::Status {
        r matches UndoDecision::Status(lines) && lines_view(lines@) == status_lines(plan)
    } else {
        match planned_actions(plan, sub) {
            None => r == UndoDecision::Failed(UndoError::NoLastCommit),
            Some(acts) => if acts.len() == 0 {
                r is NothingToUndo
            } else {
                match r {
                    UndoDecision::Preview { plan: p, lines, next } => {
                        &&& Some(actions_view(p.actions@)) == planned_actions(plan, sub)
                        &&& p.staged_files == plan.staged_files
                        &&& p.unstaged_files == plan.unstaged_files
                        &&& p.untracked_files == plan.untracked_files
                        &&& p.last_commit == plan.last_commit
                        &&& lines_view(lines@) == preview_lines(acts)
                        &&& next == next_step_of(yes, dry_run)
                    },
                    _ => false,
                }
            },
        }
    }
}

/// Decides what `undo sub` does with `plan` (the repository's status, read with
/// `status_options(sub)`): show the status, fail, say there is nothing to undo, or preview the
/// planned actions and go on as `yes` and `dry_run` say.
pub fn decide_undo(plan: UndoPlan, sub: UndoSubcommand, yes: bool, dry_run: bool) -> (r: UndoDecision)
    ensures
        decision_fits(r, plan, sub, yes, dry_run),
{
    if sub == UndoSubcommand::Status {
        return UndoDecision::Status(undo_status_lines(&plan));
    }
    match plan_undo(plan, sub) {
        Err(e) => UndoDecision::Failed(e),
        Ok(p) => {
            if p.actions.len() == 0 {
                UndoDecision::NothingToUndo
            } else {
                let lines = undo_preview_lines(&p.actions);
                let next = if dry_run {
                    NextStep::StopDryRun
                } else if yes {
                    NextStep::Execute
                } else {
                    NextStep::Confirm
                };
                UndoDecision::Preview { plan: p, lines, next }
            }
        },
    }
}

/// Whether the answer to the confirmation question is yes: `y`, in either case, with any
/// surrounding whitespace.
pub fn is_confirmed(input: &str) -> (r: bool)
    ensures
        r == (lowercase(trimmed(input@)) == "y"@),
{
    let answer = to_lowercase(trim(input));
    str_eq(answer.as_str(), "y")
}

/// Undoing the last commit resets it in the mode asked for: `--hard` resets hard whatever else is
/// given, `--soft` alone resets soft, and with neither the reset is mixed; the reset names the
/// HEAD commit and follows the actions already chosen.
pub proof fn law_last_commit_reset_mode(plan: UndoPlan, soft: bool, mixed: bool, hard: bool)
    requires
        plan.last_commit is Some,
    ensures
        hard ==> planned_actions(plan, UndoSubcommand::LastCommit { soft, mixed, hard }) == Some(
            actions_view(plan.actions@).push(ActionModel::ResetCommit(plan.last_commit->0.hash@, ResetMode::Hard)),
        ),
        soft && !hard ==> planned_actions(plan, UndoSubcommand::LastCommit { soft, mixed, hard }) == Some(
            actions_view(plan.actions@).push(ActionModel::ResetCommit(plan.last_commit->0.hash@, ResetMode::Soft)),
        ),
        !soft && !hard ==> planned_actions(plan, UndoSubcommand::LastCommit { soft, mixed, hard }) == Some(
            actions_view(plan.actions@).push(ActionModel::ResetCommit(plan.last_commit->0.hash@, ResetMode::Mixed)),
        ),
{
}

/// Unstaging plans one unstage per staged file and discarding one discard per file changed in the
/// working tree, in the order listed; cleaning with `-d` and without `-x` one removal per
/// untracked path.
pub proof fn law_one_action_per_file(plan: UndoPlan)
    ensures
        planned_actions(plan, UndoSubcommand::Unstage)->0.len() == plan.staged_files@.len(),
        forall|i: int| 0 <= i < plan.staged_files@.len() ==> #[trigger] planned_actions(plan, UndoSubcommand::Unstage)->0[i]
            == ActionModel::Unstage(plan.staged_files@[i]@),
        planned_actions(plan, UndoSubcommand::Discard)->0.len() == plan.unstaged_files@.len(),
        forall|i: int| 0 <= i < plan.unstaged_files@.len() ==> #[trigger] planned_actions(plan, UndoSubcommand::Discard)->0[i]
            == ActionModel::Discard(plan.unstaged_files@[i]@),
        planned_actions(plan, UndoSubcommand::Clean { directories: true, ignored: false })->0.len() == plan.untracked_files@.len(),
        forall|i: int| 0 <= i < plan.untracked_files@.len()
            ==> #[trigger] planned_actions(plan, UndoSubcommand::Clean { directories: true, ignored: false })->0[i]
            == ActionModel::RemoveUntracked(plan.untracked_files@[i]@),
{
    let ut = strs_view(plan.untracked_files@);
    lemma_removable_all(ut, ut.len());
    assert(ut.take(ut.len() as int) =~= ut);
    assert(clean_targets(plan, true, false) =~= ut);
}

} // verus!
