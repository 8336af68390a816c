use git_lumina::app::{ClickAction, ClickRegion, Tab};
use git_lumina::git_ops::{BranchInfo, GraphLane};
use git_lumina::ui::{
    branch_badge_index, branch_click_regions, branch_rows, commit_button_text, commit_click_regions,
    commit_date_text, commit_enabled, commit_input_regions, connector_cells, contains, delete_prompt,
    diff_gutters, diff_line_kind, diff_scroll_view, dim_to_bg, file_click_regions, first_word,
    graph_columns, inner_rect, lane_column, shows_placeholder, parse_hunk_header, relative_time, relative_time_between,
    remote_prompt, row_cells, status_text, tab_click_regions, title_click_regions, GraphCell,
    Gutter, LineKind, Rect,
};

fn rect(x: u16, y: u16, width: u16, height: u16) -> Rect {
    Rect { x, y, width, height }
}

fn region(r: Rect, action: ClickAction) -> ClickRegion {
    ClickRegion { rect: r, action }
}

fn same_regions(a: &[ClickRegion], b: &[ClickRegion]) -> bool {
    a.len() == b.len() && a.iter().zip(b.iter()).all(|(p, q)| p.rect == q.rect && p.action == q.action)
}

fn lane(lane: usize, active: &[bool], merge_from: Option<usize>) -> GraphLane {
    GraphLane { lane, active_lanes: active.to_vec(), merge_from }
}

#[test]
fn hunk_headers() {
    assert_eq!(parse_hunk_header("@@ -12,5 +14,7 @@ fn x()"), Some((12, 14)));
    assert_eq!(parse_hunk_header("@@ -1 +1 @@"), Some((1, 1)));
    assert_eq!(parse_hunk_header("@@ -3,0 +4"), Some((3, 4)));
    assert_eq!(parse_hunk_header("@@ -a +1 @@"), None);
    assert_eq!(parse_hunk_header("@@ -1,2"), None);
    assert_eq!(parse_hunk_header("diff --git a/x b/x"), None);
}

#[test]
fn relative_times() {
    assert_eq!(relative_time_between(1000, 1000), "just now");
    assert_eq!(relative_time_between(1059, 1000), "just now");
    assert_eq!(relative_time_between(1000, 5000), "just now");
    assert_eq!(relative_time_between(60, 0), "1 min ago");
    assert_eq!(relative_time_between(3599, 0), "59 min ago");
    assert_eq!(relative_time_between(3600, 0), "1 hr ago");
    assert_eq!(relative_time_between(7200, 0), "2 hrs ago");
    assert_eq!(relative_time_between(86400, 0), "1 day ago");
    assert_eq!(relative_time_between(3 * 86400, 0), "3 days ago");
    assert_eq!(relative_time_between(604800, 0), "1 week ago");
    assert_eq!(relative_time_between(3 * 604800, 0), "3 weeks ago");
}

#[test]
fn relative_time_by_the_clock() {
    let t = relative_time(0).expect("the epoch is within range");
    assert!(t.ends_with(" weeks ago"), "{}", t);
    assert_eq!(relative_time(i64::MIN), None);
}

#[test]
fn badge_colours() {
    assert_eq!(branch_badge_index("main"), 1);
    assert_eq!(branch_badge_index("origin/main"), 1);
    assert_eq!(branch_badge_index("feature"), 4);
    assert_eq!(branch_badge_index(""), 0);
    assert_eq!(dim_to_bg((167, 139, 250)), (20, 17, 31));
}

#[test]
fn inner_areas() {
    assert_eq!(inner_rect(rect(0, 0, 10, 5)), rect(1, 1, 8, 3));
    assert_eq!(inner_rect(rect(5, 5, 1, 1)), rect(6, 6, 0, 0));
}

#[test]
fn rect_contains_cells() {
    let r = rect(2, 3, 4, 5);
    assert!(contains(&r, 2, 3));
    assert!(!contains(&r, 6, 3));
    assert!(contains(&r, 5, 7));
    assert!(!contains(&r, 5, 8));
    assert!(!contains(&r, 1, 4));
}

#[test]
fn diff_line_kinds() {
    assert_eq!(diff_line_kind("+x"), LineKind::Added);
    assert_eq!(diff_line_kind("-x"), LineKind::Removed);
    assert_eq!(diff_line_kind("@@ -1 +1 @@"), LineKind::Hunk);
    assert_eq!(diff_line_kind("@x"), LineKind::Context);
    assert_eq!(diff_line_kind(""), LineKind::Context);
}

#[test]
fn diff_line_numbers() {
    let lines: Vec<String> = [
        "diff --git a/f b/f",
        "--- a/f",
        "+++ b/f",
        "@@ -3,2 +3,3 @@",
        " ctx",
        "-old",
        "+new",
        "+new2",
        " ctx2",
    ]
    .iter()
    .map(|s| s.to_string())
    .collect();
    assert_eq!(
        diff_gutters(&lines),
        vec![
            Gutter::Blank,
            Gutter::Removed(0),
            Gutter::Added(0),
            Gutter::Hunk,
            Gutter::Context(3),
            Gutter::Removed(4),
            Gutter::Added(4),
            Gutter::Added(5),
            Gutter::Context(6),
        ]
    );
}

#[test]
fn diff_scroll_positions() {
    assert_eq!(diff_scroll_view(100, 22, 50), (50, Some((51, 100, 62))));
    assert_eq!(diff_scroll_view(100, 22, 95), (80, Some((81, 100, 100))));
    assert_eq!(diff_scroll_view(10, 22, 5), (0, None));
    assert_eq!(diff_scroll_view(21, 22, 0), (0, Some((1, 21, 0))));
}

#[test]
fn graph_width() {
    assert_eq!(graph_columns(&[]), 1);
    assert_eq!(graph_columns(&[lane(0, &[true, true], Some(1)), lane(0, &[false, true], None)]), 2);
    assert_eq!(graph_columns(&[lane(9, &[], None)]), 6);
}

#[test]
fn graph_row_cells() {
    assert_eq!(
        row_cells(&lane(0, &[true, true], Some(1)), 2),
        vec![GraphCell::Node { merge: true, line_right: true }, GraphCell::CornerRight]
    );
    assert_eq!(
        row_cells(&lane(2, &[true, false, true, true], Some(0)), 4),
        vec![
            GraphCell::CornerLeft,
            GraphCell::Line,
            GraphCell::Node { merge: true, line_right: false },
            GraphCell::Lane,
        ]
    );
    assert_eq!(
        row_cells(&lane(1, &[true, true], None), 3),
        vec![GraphCell::Lane, GraphCell::Node { merge: false, line_right: false }, GraphCell::Blank]
    );
    let far = row_cells(&lane(8, &[], Some(9)), 6);
    assert_eq!(far[5], GraphCell::Node { merge: true, line_right: false });
    assert!(far[..5].iter().all(|c| *c == GraphCell::Blank));
}

#[test]
fn graph_connectors() {
    let lanes = vec![
        lane(0, &[true, true], Some(1)),
        lane(0, &[false, true], None),
        lane(1, &[false, false], None),
    ];
    assert_eq!(connector_cells(&lanes, 0, 2), vec![false, false]);
    assert_eq!(connector_cells(&lanes, 1, 2), vec![false, true]);
    assert_eq!(connector_cells(&lanes, 2, 2), vec![false, false]);
}

#[test]
fn commit_rows_are_clickable() {
    let r = commit_click_regions(rect(0, 0, 40, 7), 10, 0);
    assert!(same_regions(
        &r,
        &[
            region(rect(1, 1, 38, 2), ClickAction::SelectCommit(0)),
            region(rect(1, 3, 38, 2), ClickAction::SelectCommit(1)),
            region(rect(1, 5, 38, 1), ClickAction::SelectCommit(2)),
        ]
    ));
    let r = commit_click_regions(rect(0, 0, 40, 7), 10, 9);
    assert!(same_regions(&r, &[region(rect(1, 1, 38, 2), ClickAction::SelectCommit(9))]));
}

#[test]
fn file_rows_and_button_are_clickable() {
    let r = file_click_regions(rect(0, 10, 30, 5), 5, false);
    assert!(same_regions(
        &r,
        &[
            region(rect(1, 11, 28, 1), ClickAction::SelectUnstagedFile(0)),
            region(rect(1, 12, 28, 1), ClickAction::SelectUnstagedFile(1)),
            region(rect(1, 13, 28, 1), ClickAction::SelectUnstagedFile(2)),
            region(rect(0, 14, 30, 1), ClickAction::StageAllButton),
        ]
    ));
    let r = file_click_regions(rect(0, 10, 30, 5), 1, true);
    assert!(same_regions(
        &r,
        &[
            region(rect(1, 11, 28, 1), ClickAction::SelectStagedFile(0)),
            region(rect(0, 14, 30, 1), ClickAction::UnstageAllButton),
        ]
    ));
}

#[test]
fn commit_box_is_clickable() {
    let r = commit_input_regions(rect(0, 20, 30, 6));
    assert!(same_regions(
        &r,
        &[
            region(rect(0, 20, 30, 6), ClickAction::FocusCommitMsg),
            region(rect(1, 23, 28, 1), ClickAction::CommitButton),
        ]
    ));
    let r = commit_input_regions(rect(0, 20, 30, 4));
    assert!(same_regions(&r, &[region(rect(0, 20, 30, 4), ClickAction::FocusCommitMsg)]));
}

#[test]
fn branch_rows_and_regions() {
    let b = |name: &str, head: bool, remote: bool| BranchInfo {
        name: name.to_string(),
        is_head: head,
        is_remote: remote,
        upstream: None,
        commit_id: String::new(),
    };
    let branches = vec![b("main", true, false), b("origin/main", false, true), b("dev", false, false)];
    let rows = branch_rows(&branches);
    assert_eq!(rows, vec![None, Some(0), Some(2), None, Some(1)]);
    let r = branch_click_regions(rect(0, 0, 100, 5), &rows);
    assert!(same_regions(
        &r,
        &[
            region(rect(1, 2, 78, 1), ClickAction::SelectBranch(0)),
            region(rect(1, 3, 78, 1), ClickAction::SelectBranch(2)),
        ]
    ));
}

#[test]
fn tab_bar_is_clickable() {
    let r = tab_click_regions(rect(0, 4, 60, 1));
    assert!(same_regions(
        &r,
        &[
            region(rect(1, 4, 9, 1), ClickAction::SelectTab(Tab::Graph)),
            region(rect(12, 4, 9, 1), ClickAction::SelectTab(Tab::Files)),
            region(rect(23, 4, 12, 1), ClickAction::SelectTab(Tab::Branches)),
            region(rect(48, 4, 12, 1), ClickAction::RefreshButton),
        ]
    ));
}

#[test]
fn title_bar_buttons_are_clickable() {
    let r = title_click_regions(rect(0, 1, 80, 1), 3, 12);
    assert!(same_regions(
        &r,
        &[
            region(rect(49, 1, 7, 1), ClickAction::PushButton),
            region(rect(56, 1, 7, 1), ClickAction::PullButton),
            region(rect(63, 1, 8, 1), ClickAction::FetchButton),
        ]
    ));
}

#[test]
fn texts_of_the_display() {
    assert_eq!(status_text(""), " Ready");
    assert_eq!(status_text("Refreshed"), " Refreshed");
    assert_eq!(commit_button_text(1), " Commit 1 file ");
    assert_eq!(commit_button_text(3), " Commit 3 files ");
    assert_eq!(commit_button_text(0), " Commit 0 files ");
    assert!(commit_enabled(1, "x"));
    assert!(!commit_enabled(0, "x"));
    assert!(!commit_enabled(1, ""));
    assert_eq!(delete_prompt("dev"), "Delete 'dev'? (y/n)");
    assert_eq!(
        remote_prompt(true, Some("origin"), 2),
        "Push to origin?\n\n  \u{2191} 2 commit(s) ahead\n\n  [Y] Confirm    [N] Cancel"
    );
    assert_eq!(
        remote_prompt(false, None, 0),
        "Pull from remote?\n\n  \u{2193} 0 commit(s) behind\n\n  [Y] Confirm    [N] Cancel"
    );
    assert_eq!(first_word("Ada Lovelace"), "Ada");
    assert_eq!(first_word("Plato"), "Plato");
}

#[test]
fn commit_dates() {
    assert_eq!(commit_date_text(0), "1970-01-01 00:00");
    assert_eq!(commit_date_text(1_700_000_000), "2023-11-14 22:13");
    assert_eq!(commit_date_text(i64::MAX), "unknown");
}

#[test]
fn lane_columns_and_placeholder() {
    assert_eq!(lane_column(2, 6), 2);
    assert_eq!(lane_column(9, 6), 5);
    assert_eq!(lane_column(0, 1), 0);
    assert!(shows_placeholder("", false));
    assert!(!shows_placeholder("", true));
    assert!(!shows_placeholder("msg", false));
}

#[test]
fn written_hunk_headers_parse_back() {
    for (a, b, c, d) in [(1usize, 0usize, 1usize, 3usize), (120, 7, 4031, 9), (0, 0, 0, 0)] {
        for rest in ["", " @@", " @@ fn main()"] {
            assert_eq!(parse_hunk_header(&format!("@@ -{},{} +{},{}{}", a, b, c, d, rest)), Some((a, c)));
            assert_eq!(parse_hunk_header(&format!("@@ -{} +{}{}", a, c, rest)), Some((a, c)));
        }
    }
}
