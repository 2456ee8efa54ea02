use gitx::models::{CommitInfo, LabelInfo};
use gitx::utils::graph_renderer::GraphRenderer;
use gitx::utils::styles::{paint_line, Segment};

fn mock_commit(hash: &str, parents: Vec<&str>) -> CommitInfo {
    CommitInfo {
        hash: hash.to_string(),
        author: "author".to_string(),
        date: 0,
        subject: format!("commit {}", hash),
        body: None,
        labels: vec![],
        parents: parents.into_iter().map(|s| s.to_string()).collect(),
    }
}

fn text_of(line: &[Segment]) -> String {
    line.iter().map(|s| s.text.clone()).collect::<Vec<_>>().join("")
}

#[test]
fn test_tree_simple() {
    let mut renderer = GraphRenderer::new();
    let commits = vec![
        mock_commit("C", vec!["B"]),
        mock_commit("B", vec!["A"]),
        mock_commit("A", vec![]),
    ];
    let lines = renderer.render(&commits, 0);
    // blank, C, connector, B, connector, A, blank
    assert_eq!(lines.len(), 7);
    assert!(lines[0].is_empty());
    assert!(text_of(&lines[1]).starts_with("● "));
    assert!(text_of(&lines[1]).contains("commit C"));
    assert_eq!(text_of(&lines[2]), "│ ");
    assert!(text_of(&lines[5]).contains("commit A"));
    assert!(lines[6].is_empty());
}

#[test]
fn test_tree_filtered() {
    let mut renderer = GraphRenderer::new();
    // Suppose B was hidden by filter, but simplified parent connects C to A directly
    let commits = vec![mock_commit("C", vec!["A"]), mock_commit("A", vec![])];
    let lines = renderer.render(&commits, 0);
    assert_eq!(lines.len(), 5);
    assert!(text_of(&lines[1]).contains("commit C"));
    assert_eq!(text_of(&lines[2]), "│ ");
    assert!(text_of(&lines[3]).contains("commit A"));
}

#[test]
fn test_render_no_commits() {
    let mut renderer = GraphRenderer::new();
    let lines = renderer.render(&[], 0);
    assert_eq!(lines.len(), 1);
    assert_eq!(text_of(&lines[0]), "No commits found.");
}

#[test]
fn test_render_merge_splits() {
    let mut renderer = GraphRenderer::new();
    renderer.use_ascii = true;
    let commits = vec![
        mock_commit("M", vec!["A", "B"]),
        mock_commit("B", vec!["A"]),
        mock_commit("A", vec![]),
    ];
    // parents that are not drawn open no lane
    assert_eq!(renderer.calculate_max_lanes(&commits), 1);
    let lines = renderer.render(&commits, 0);
    // merge node drawn with M, then a split connector
    assert!(text_of(&lines[1]).starts_with("M "));
    assert_eq!(text_of(&lines[2]), "|-");
    // B is drawn in the second lane while A waits in the first
    assert!(text_of(&lines[3]).starts_with("| * "));
}

#[test]
fn test_max_lanes_of_merge() {
    let mut renderer = GraphRenderer::new();
    let commits = vec![
        mock_commit("M", vec!["A", "B"]),
        mock_commit("B", vec!["A"]),
        mock_commit("A", vec![]),
    ];
    let _ = renderer.render(&commits, 0);
    assert_eq!(renderer.calculate_max_lanes(&commits), 2);
}

#[test]
fn test_get_or_assign_lane_is_idempotent() {
    let mut renderer = GraphRenderer::new();
    let a = renderer.get_or_assign_lane("abc");
    let b = renderer.get_or_assign_lane("abc");
    let c = renderer.get_or_assign_lane("def");
    assert_eq!(a, 0);
    assert_eq!(b, 0);
    assert_eq!(c, 1);
}

#[test]
fn test_update_lanes_frees_and_trims() {
    let mut renderer = GraphRenderer::new();
    let commits = vec![mock_commit("B", vec!["A"]), mock_commit("A", vec![])];
    let _ = renderer.render(&commits, 0);
    // after drawing everything no lane waits any more
    assert_eq!(renderer.get_or_assign_lane("X"), 0);
}

#[test]
fn test_format_date_buckets() {
    let r = GraphRenderer::new();
    assert_eq!(r.format_date(1000, 1030), "now");
    assert_eq!(r.format_date(1000, 1000 + 120), "2m");
    assert_eq!(r.format_date(0, 7200), "2h");
    assert_eq!(r.format_date(0, 3 * 86400), "3d");
    assert_eq!(r.format_date(0, 2 * 2592000), "2mo");
    // a commit from the future is "now"
    assert_eq!(r.format_date(5000, 10), "now");
    // negative timestamps wrap to huge unsigned ones, so they are "now" too
    assert_eq!(r.format_date(-5, 100), "now");
}

#[test]
fn test_format_labels_ide() {
    let r = GraphRenderer::new();
    assert!(r.format_labels_ide(&[]).is_empty());
    let labels = vec![
        LabelInfo::Head("main".to_string()),
        LabelInfo::LocalBranch("main".to_string()),
        LabelInfo::RemoteBranch("main".to_string()),
        LabelInfo::Tag("v1".to_string()),
    ];
    let segs = r.format_labels_ide(&labels);
    assert_eq!(text_of(&segs), "• HEAD → main | origin/main | tag:v1");
    let only_head = vec![LabelInfo::Head("HEAD".to_string())];
    assert_eq!(text_of(&r.format_labels_ide(&only_head)), "• HEAD");
}

#[test]
fn test_node_row_layout() {
    let mut r = GraphRenderer::new();
    let mut c = mock_commit("0123456789abcdef", vec![]);
    c.subject = "short".to_string();
    let lane = r.get_or_assign_lane(&c.hash);
    let row = r.render_node_row(&c, lane, 4, 30);
    assert_eq!(text_of(&row), "●    0123456  short  author • now ");
    // the subject segment is padded to forty columns when painted
    let subject = row.iter().find(|s| s.text == "short").unwrap();
    assert_eq!(subject.pad_to, 40);
    // a lane index past the lanes draws no node: the busy lane shows its connector
    let row = r.render_node_row(&c, 5, 4, 30);
    assert_eq!(text_of(&row), "│    0123456  short  author • now ");
}

#[test]
fn test_paint_line_keeps_text() {
    let segs = vec![
        Segment { text: "ab".to_string(), style: None, pad_to: 4 },
        gitx::utils::styles::style_seg("cd", gitx::utils::styles::TreeStyle::hash()),
    ];
    let out = paint_line(&segs);
    assert!(out.starts_with("ab  "));
    assert!(out.contains("cd"));
}

#[test]
fn test_styled_adds_escapes() {
    let bold = gitx::utils::styles::style_seg("x", gitx::utils::styles::TreeStyle::subject());
    let out = paint_line(&vec![bold]);
    // bold white: colour 15, then SGR 1, the text, then a full reset; without colour codes
    // when NO_COLOR is set
    assert!(
        out == "\u{1b}[38;5;15m\u{1b}[1mx\u{1b}[0m" || out == "\u{1b}[m\u{1b}[1mx\u{1b}[0m",
        "{:?}",
        out
    );
    let hash = gitx::utils::styles::style_seg("ab", gitx::utils::styles::TreeStyle::hash());
    let out = paint_line(&vec![hash]);
    assert!(out == "\u{1b}[38;5;242mab\u{1b}[39m" || out == "\u{1b}[mab\u{1b}[m", "{:?}", out);
}
