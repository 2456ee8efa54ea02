use gitx::commands::undo::{
    is_confirmed, notice_line, plan_undo, status_options, undo_preview_lines, undo_status_lines, UndoError, UndoNotice,
};
use gitx::commands::undo::{decide_undo, NextStep, UndoDecision};
use gitx::commands::{comparison_lines, GitXCommand, UndoSubcommand};
use gitx::models::{CommitInfo, ComparisonResult};
use gitx::models::undo::{CommitUndoInfo, ResetMode, UndoAction, UndoPlan};
use gitx::utils::styles::Segment;

fn text_of(line: &[Segment]) -> String {
    line.iter().map(|s| s.text.clone()).collect::<Vec<_>>().join("")
}

fn plan(last: bool) -> UndoPlan {
    UndoPlan {
        staged_files: vec!["s1".to_string(), "s2".to_string()],
        unstaged_files: vec!["u1".to_string()],
        untracked_files: vec!["t1".to_string(), "tmp/".to_string()],
        ignored_files: vec!["build.log".to_string(), "target/".to_string()],
        last_commit: if last {
            Some(CommitUndoInfo { hash: "0123456789".to_string(), subject: "subj".to_string(), already_pushed: true })
        } else {
            None
        },
        actions: vec![],
    }
}

fn describe(a: &UndoAction) -> String {
    match a {
        UndoAction::Unstage(f) => format!("U:{}", f),
        UndoAction::Discard(f) => format!("D:{}", f),
        UndoAction::RemoveUntracked(f) => format!("R:{}", f),
        UndoAction::ResetCommit { hash, mode } => format!("C:{}:{:?}", hash, mode),
    }
}

#[test]
fn test_status_options() {
    assert_eq!(status_options(UndoSubcommand::Status), (true, true, true));
    // cleaning never enters untracked directories: they are listed whole and go only with -d
    assert_eq!(status_options(UndoSubcommand::Clean { directories: true, ignored: false }), (true, false, false));
    assert_eq!(status_options(UndoSubcommand::Clean { directories: false, ignored: true }), (true, false, true));
    assert_eq!(status_options(UndoSubcommand::All { clean_untracked: true }), (true, true, false));
    assert_eq!(status_options(UndoSubcommand::All { clean_untracked: false }), (false, false, false));
    assert_eq!(status_options(UndoSubcommand::Unstage), (false, false, false));
}

#[test]
fn test_plan_unstage_discard_clean() {
    let p = plan_undo(plan(false), UndoSubcommand::Unstage).unwrap();
    assert_eq!(p.actions.iter().map(describe).collect::<Vec<_>>(), vec!["U:s1", "U:s2"]);
    let p = plan_undo(plan(false), UndoSubcommand::Discard).unwrap();
    assert_eq!(p.actions.iter().map(describe).collect::<Vec<_>>(), vec!["D:u1"]);
    let p = plan_undo(plan(false), UndoSubcommand::Clean { directories: false, ignored: false }).unwrap();
    assert_eq!(p.actions.iter().map(describe).collect::<Vec<_>>(), vec!["R:t1"]);
}

#[test]
fn test_plan_clean_d_and_x() {
    let p = plan_undo(plan(false), UndoSubcommand::Clean { directories: true, ignored: false }).unwrap();
    assert_eq!(p.actions.iter().map(describe).collect::<Vec<_>>(), vec!["R:t1", "R:tmp/"]);
    let p = plan_undo(plan(false), UndoSubcommand::Clean { directories: false, ignored: true }).unwrap();
    assert_eq!(p.actions.iter().map(describe).collect::<Vec<_>>(), vec!["R:t1", "R:build.log"]);
    let p = plan_undo(plan(false), UndoSubcommand::Clean { directories: true, ignored: true }).unwrap();
    assert_eq!(
        p.actions.iter().map(describe).collect::<Vec<_>>(),
        vec!["R:t1", "R:tmp/", "R:build.log", "R:target/"]
    );
}

#[test]
fn test_plan_all() {
    let p = plan_undo(plan(true), UndoSubcommand::All { clean_untracked: true }).unwrap();
    assert_eq!(p.actions.iter().map(describe).collect::<Vec<_>>(), vec!["U:s1", "U:s2", "D:u1", "R:t1", "R:tmp/"]);
}

#[test]
fn test_plan_last_commit_modes() {
    let soft = plan_undo(plan(true), UndoSubcommand::LastCommit { soft: true, mixed: true, hard: false }).unwrap();
    assert_eq!(describe(&soft.actions[0]), "C:0123456789:Soft");
    let hard = plan_undo(plan(true), UndoSubcommand::LastCommit { soft: true, mixed: true, hard: true }).unwrap();
    assert!(matches!(hard.actions[0], UndoAction::ResetCommit { mode: ResetMode::Hard, .. }));
    let mixed = plan_undo(plan(true), UndoSubcommand::LastCommit { soft: false, mixed: true, hard: false }).unwrap();
    assert!(matches!(mixed.actions[0], UndoAction::ResetCommit { mode: ResetMode::Mixed, .. }));
}

#[test]
fn test_plan_last_commit_without_commit() {
    let r = plan_undo(plan(false), UndoSubcommand::LastCommit { soft: false, mixed: true, hard: false });
    assert!(matches!(r, Err(UndoError::NoLastCommit)));
    assert_eq!(UndoError::NoLastCommit.message(), "No last commit to undo.");
}

#[test]
fn test_preview_lines() {
    let p = plan_undo(plan(true), UndoSubcommand::LastCommit { soft: false, mixed: true, hard: false }).unwrap();
    let lines = undo_preview_lines(&p.actions);
    assert_eq!(text_of(&lines[0]), "--- [ Undo Plan Preview ] ---");
    assert_eq!(text_of(&lines[1]), "  [R] reset last commit (0123456) in Mixed");
    let u = plan_undo(plan(false), UndoSubcommand::Unstage).unwrap();
    let lines = undo_preview_lines(&u.actions);
    assert_eq!(text_of(&lines[1]), "  [-] unstage s1");
}

#[test]
fn test_status_lines() {
    let lines = undo_status_lines(&plan(true));
    let texts: Vec<String> = lines.iter().map(|l| text_of(l)).collect();
    assert_eq!(texts[0], "--- [ Undo Status ] ---");
    assert_eq!(texts[1], "");
    assert_eq!(texts[2], "Staged changes:");
    assert_eq!(texts[3], "  s1");
    assert!(texts.contains(&"  0123456 - subj".to_string()));
    assert!(texts.last().unwrap().contains("already pushed"));
    let clean = UndoPlan { staged_files: vec![], unstaged_files: vec![], untracked_files: vec![], ignored_files: vec![], last_commit: None, actions: vec![] };
    let lines = undo_status_lines(&clean);
    assert_eq!(lines.len(), 2);
    assert_eq!(text_of(&lines[1]), "Nothing can be undone. Repository is clean.");
}

#[test]
fn test_confirmation() {
    assert!(is_confirmed("y\n"));
    assert!(is_confirmed("  Y "));
    assert!(!is_confirmed("yes"));
    assert!(!is_confirmed(""));
    assert_eq!(text_of(&notice_line(UndoNotice::Canceled)), "Canceled.");
    assert_eq!(text_of(&notice_line(UndoNotice::ConfirmPrompt)), "\nCAUTION: Proceed with undo? [y/N]: ");
}

#[test]
fn test_timeline_filter() {
    let cmd = GitXCommand::Timeline {
        author: Some("One".to_string()),
        message: None,
        branch: None,
        limit: 3,
        merges: true,
        no_merges: false,
        cli: true,
    };
    let f = cmd.timeline_filter().unwrap();
    assert_eq!(f.author.as_deref(), Some("One"));
    assert_eq!(f.limit, 3);
    assert!(f.only_merges);
    assert!(!f.no_merges);
    assert!(GitXCommand::Jump { reference: "x".to_string() }.timeline_filter().is_none());
}

#[test]
fn test_decide_undo() {
    assert!(matches!(decide_undo(plan(true), UndoSubcommand::Status, false, false), UndoDecision::Status(_)));
    assert!(matches!(
        decide_undo(plan(false), UndoSubcommand::LastCommit { soft: false, mixed: true, hard: false }, false, false),
        UndoDecision::Failed(UndoError::NoLastCommit)
    ));
    let empty = UndoPlan { staged_files: vec![], unstaged_files: vec![], untracked_files: vec![], ignored_files: vec![], last_commit: None, actions: vec![] };
    assert!(matches!(decide_undo(empty, UndoSubcommand::Unstage, true, false), UndoDecision::NothingToUndo));
    match decide_undo(plan(false), UndoSubcommand::Unstage, false, true) {
        UndoDecision::Preview { plan, lines, next } => {
            assert_eq!(plan.actions.len(), 2);
            assert_eq!(lines.len(), 3);
            assert_eq!(next, NextStep::StopDryRun);
        }
        _ => panic!("expected a preview"),
    }
    match decide_undo(plan(false), UndoSubcommand::Unstage, true, false) {
        UndoDecision::Preview { next, .. } => assert_eq!(next, NextStep::Execute),
        _ => panic!("expected a preview"),
    }
    match decide_undo(plan(false), UndoSubcommand::Discard, false, false) {
        UndoDecision::Preview { next, .. } => assert_eq!(next, NextStep::Confirm),
        _ => panic!("expected a preview"),
    }
}

#[test]
fn test_comparison_lines() {
    let c = CommitInfo {
        hash: "abcdef0123".to_string(),
        author: "Ann".to_string(),
        date: 0,
        subject: "work".to_string(),
        body: None,
        labels: vec![],
        parents: vec![],
    };
    let r = ComparisonResult { base_hash: "base".to_string(), unique_to_a: vec![c], unique_to_b: vec![] };
    let lines = comparison_lines(&r, "main", "dev", true);
    assert_eq!(
        lines,
        vec![
            "--- [ GitX Comparison ] ---",
            "Merge Base: base",
            "Unique to main: 1 commits",
            "Unique to dev: 0 commits",
            "[abcdef0] - Ann - work",
        ]
    );
    assert_eq!(comparison_lines(&r, "main", "dev", false).len(), 4);
}
