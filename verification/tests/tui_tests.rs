use gitx::models::{CommitInfo, LabelInfo};
use gitx::tui::{commit_list_item, App, AppEvent, InputMode, Key};
use gitx::utils::styles::Segment;
use gitx::utils::tui_graph::{TuiGraphRenderer, TUI_GRAY, TUI_LIGHT_RED};

fn text_of(line: &[Segment]) -> String {
    line.iter().map(|s| s.text.clone()).collect::<Vec<_>>().join("")
}

fn commit(hash: &str, parents: Vec<&str>) -> CommitInfo {
    CommitInfo {
        hash: hash.to_string(),
        author: "author".to_string(),
        date: -3,
        subject: format!("commit {}", hash),
        body: None,
        labels: vec![],
        parents: parents.into_iter().map(|s| s.to_string()).collect(),
    }
}

fn app(n: usize) -> App {
    let commits = (0..n).map(|i| commit(&format!("{:0>10}", i), vec![])).collect();
    App::new(commits, None)
}

#[test]
fn test_navigation_wraps() {
    let mut a = app(3);
    assert_eq!(a.selected, Some(0));
    a.previous();
    assert_eq!(a.selected, Some(2));
    a.next();
    assert_eq!(a.selected, Some(0));
    a.next();
    a.next();
    a.next();
    assert_eq!(a.selected, Some(0));
    let mut empty = app(0);
    empty.next();
    assert_eq!(empty.selected, Some(0));
}

#[test]
fn test_keys() {
    let mut a = app(2);
    assert!(matches!(a.handle_key(Key::Char('j')), AppEvent::Nothing));
    assert_eq!(a.selected, Some(1));
    a.handle_key(Key::Char('d'));
    assert!(!a.detail_visible);
    a.handle_key(Key::Char('/'));
    assert_eq!(a.input_mode, InputMode::Search);
    a.handle_key(Key::Char('f'));
    a.handle_key(Key::Char('x'));
    a.handle_key(Key::Backspace);
    assert_eq!(a.input_buffer, "f");
    assert!(matches!(a.handle_key(Key::Enter), AppEvent::Refresh));
    assert_eq!(a.active_filter.as_deref(), Some("f"));
    assert_eq!(a.input_mode, InputMode::Normal);
    assert!(matches!(a.handle_key(Key::Esc), AppEvent::Refresh));
    assert_eq!(a.active_filter, None);
    a.handle_key(Key::Char('J'));
    a.handle_key(Key::Char('v'));
    match a.handle_key(Key::Enter) {
        AppEvent::Jump(t) => assert_eq!(t, "v"),
        _ => panic!("expected a jump"),
    }
    assert!(matches!(a.handle_key(Key::Char('q')), AppEvent::Quit));
}

#[test]
fn test_jump_to_ref() {
    let mut a = app(3);
    a.jump_to_ref("HEAD~1", Some("0000000001".to_string()));
    assert_eq!(a.selected, Some(1));
    assert_eq!(a.status_message, Some(("Jumped to 0000000".to_string(), TUI_GRAY)));
    a.jump_to_ref("v9", Some("ffffffffff".to_string()));
    assert_eq!(a.selected, Some(1));
    assert_eq!(
        a.status_message,
        Some(("Ref resolved to fffffff but not in current list".to_string(), TUI_LIGHT_RED))
    );
    a.jump_to_ref("nope", None);
    assert_eq!(a.status_message, Some(("Reference 'nope' not found".to_string(), TUI_LIGHT_RED)));
}

#[test]
fn test_status_prompt() {
    let mut a = app(1);
    assert_eq!(a.status_prompt().0, "q:quit | /:filter | J:jump | d:detail | Esc:clear filter");
    a.active_filter = Some("fix".to_string());
    assert_eq!(a.status_prompt().0, "Filter: fix");
    a.handle_key(Key::Char('J'));
    a.handle_key(Key::Char('a'));
    assert_eq!(a.status_prompt().0, "Jump to (branch/tag/hash): a_");
}

#[test]
fn test_detail_and_list_item() {
    let mut c = commit("0123456789", vec![]);
    c.labels = vec![LabelInfo::Head("main".to_string()), LabelInfo::Tag("v1".to_string())];
    assert_eq!(text_of(&commit_list_item(&c)), "[0123456] (main) (v1) commit 0123456789");
    let a = App::new(vec![c], None);
    let lines = a.detail_lines();
    assert_eq!(lines.len(), 9);
    assert_eq!(text_of(&lines[2]), "TS:     -3");
    assert_eq!(text_of(&lines[8]), "[No body text]");
    let none = App::new(vec![], None);
    assert!(none.detail_lines().is_empty());
}

#[test]
fn test_compute_rows_colors() {
    let mut r = TuiGraphRenderer::new();
    let commits = vec![
        commit("M", vec!["A", "B"]),
        commit("B", vec!["A"]),
        commit("A", vec![]),
    ];
    let rows = r.compute_rows(&commits);
    assert_eq!(rows.len(), 3);
    assert_eq!(rows[0].node_lane, 0);
    assert_eq!(rows[0].node_color_idx, 0);
    assert_eq!(rows[1].node_lane, 1);
    assert_eq!(rows[2].node_lane, 0);
    for row in &rows {
        assert!(row.node_color_idx < 6);
    }
    let segs = rows[1].render(true);
    assert_eq!(segs[0].text, "│ ");
    assert_eq!(segs[1].text, "● ");
    assert_eq!(TuiGraphRenderer::get_lane_color(7), 2);
}

#[test]
fn test_compute_rows_lanes_apart() {
    let mut r = TuiGraphRenderer::new();
    let commits = vec![
        commit("M", vec!["A", "B", "A"]),
        commit("N", vec!["B"]),
        commit("B", vec!["A"]),
        commit("A", vec![]),
    ];
    let rows = r.compute_rows(&commits);
    for row in &rows {
        let hashes: Vec<&String> = row.lanes.iter().filter_map(|l| l.as_ref().map(|s| &s.hash)).collect();
        for i in 0..hashes.len() {
            for j in i + 1..hashes.len() {
                assert_ne!(hashes[i], hashes[j]);
            }
        }
        assert!(row.lanes.last().map_or(true, |l| l.is_some()));
    }
}
