use git_lumina::app::{refresh_due, App, ClickAction, FilePane, InputMode, Popup, Tab, AUTO_REFRESH_INTERVAL_MS};
use git_lumina::git_ops::{GitError, RemoteOp};
use git_lumina::input::{handle_key_press, handle_mouse_event, Key, MouseKind};
use git_lumina::ui::Rect;
use std::time::{SystemTime, UNIX_EPOCH};

/// A fresh application on a new, empty repository under /tmp.
fn fresh_app(name: &str) -> App {
    let nanos = SystemTime::now().duration_since(UNIX_EPOCH).expect("clock after the epoch").as_nanos();
    let path = format!("/tmp/git_lumina_app_tests/{}_{}", name, nanos);
    let repo = git2::Repository::init(&path).expect("repository created");
    App::new(repo).expect("state loaded")
}

fn press(app: &mut App, key: Key) {
    handle_key_press(app, key, false);
}

#[test]
fn a_new_app_starts_on_the_graph_tab() {
    let app = fresh_app("start");
    assert_eq!(app.tab, Tab::Graph);
    assert!(app.running);
    assert_eq!(app.popup, Popup::Closed);
    assert_eq!(app.input_mode, InputMode::Normal);
    assert_eq!(app.file_pane, FilePane::Unstaged);
    assert!(app.mouse_capture);
    assert!(!app.auto_refresh);
    assert_eq!(app.auto_refresh_interval, 2000);
    assert!(app.commits.is_empty());
    assert!(app.branches.is_empty());
    assert_eq!(app.current_branch, "detached");
    assert_eq!(app.status_msg, "");
    assert!(app.pending_remote.is_none());
}

#[test]
fn q_quits_and_ctrl_c_quits_anywhere() {
    let mut app = fresh_app("quit");
    press(&mut app, Key::Char('q'));
    assert!(!app.running);

    let mut app = fresh_app("ctrl_c");
    app.input_mode = InputMode::Editing;
    app.file_pane = FilePane::CommitMsg;
    handle_key_press(&mut app, Key::Char('c'), true);
    assert!(!app.running);
    // the key is then handled like any other: here it is typed
    assert_eq!(app.commit_message, "c");
}

#[test]
fn tabs_by_number_and_cycle() {
    let mut app = fresh_app("tabs");
    press(&mut app, Key::Char('2'));
    assert_eq!(app.tab, Tab::Files);
    press(&mut app, Key::Char('3'));
    assert_eq!(app.tab, Tab::Branches);
    press(&mut app, Key::Tab);
    assert_eq!(app.tab, Tab::Graph);
    press(&mut app, Key::BackTab);
    assert_eq!(app.tab, Tab::Branches);
    press(&mut app, Key::Char('1'));
    assert_eq!(app.tab, Tab::Graph);
    assert_eq!(app.tab.index(), 0);
    assert_eq!(Tab::Files.index(), 1);
    assert_eq!(Tab::Branches.index(), 2);
}

#[test]
fn help_opens_and_closes() {
    let mut app = fresh_app("help");
    press(&mut app, Key::Char('?'));
    assert_eq!(app.popup, Popup::Help);
    press(&mut app, Key::Char('x'));
    assert_eq!(app.popup, Popup::Help);
    press(&mut app, Key::Char('?'));
    assert_eq!(app.popup, Popup::Closed);
    press(&mut app, Key::Char('?'));
    press(&mut app, Key::Char('q'));
    assert_eq!(app.popup, Popup::Closed);
    assert!(app.running);
}

#[test]
fn push_asks_first_and_can_be_cancelled() {
    let mut app = fresh_app("push");
    press(&mut app, Key::Char('P'));
    assert_eq!(app.popup, Popup::ConfirmPush);
    press(&mut app, Key::Char('n'));
    assert_eq!(app.popup, Popup::Closed);
    assert!(app.pending_remote.is_none());

    press(&mut app, Key::Char('P'));
    press(&mut app, Key::Char('y'));
    assert_eq!(app.popup, Popup::Closed);
    assert_eq!(app.status_msg, "Pushing...");
    assert_eq!(app.pending_remote, Some(RemoteOp::Push));
}

#[test]
fn pull_confirmed_and_fetch_requested() {
    let mut app = fresh_app("pull");
    press(&mut app, Key::Char('L'));
    assert_eq!(app.popup, Popup::ConfirmPull);
    press(&mut app, Key::Char('y'));
    assert_eq!(app.status_msg, "Pulling...");
    assert_eq!(app.pending_remote, Some(RemoteOp::Pull));

    press(&mut app, Key::Char('F'));
    assert_eq!(app.status_msg, "Fetching...");
    assert_eq!(app.pending_remote, Some(RemoteOp::Fetch));
}

#[test]
fn finished_remote_operations_report() {
    let mut app = fresh_app("finish");
    app.do_fetch();
    app.finish_remote(RemoteOp::Fetch, Ok("origin".to_string()));
    assert_eq!(app.status_msg, "Fetched from origin");
    assert!(app.pending_remote.is_none());

    app.finish_remote(RemoteOp::Push, Err(GitError { message: "boom".to_string() }));
    assert_eq!(app.status_msg, "Push failed: boom");
    app.finish_remote(RemoteOp::Pull, Err(GitError { message: "diverged".to_string() }));
    assert_eq!(app.status_msg, "Pull failed: diverged");
    app.finish_remote(RemoteOp::Fetch, Err(GitError { message: "offline".to_string() }));
    assert_eq!(app.status_msg, "Fetch failed: offline");
    app.finish_remote(RemoteOp::Pull, Ok("Already up to date".to_string()));
    assert_eq!(app.status_msg, "Already up to date");
}

#[test]
fn mouse_capture_and_auto_refresh_toggle() {
    let mut app = fresh_app("toggles");
    press(&mut app, Key::Char('m'));
    assert!(!app.mouse_capture);
    assert_eq!(app.status_msg, "Mouse capture OFF \u{2014} drag to select/copy text");
    press(&mut app, Key::Char('m'));
    assert!(app.mouse_capture);
    assert_eq!(app.status_msg, "Mouse capture ON \u{2014} clicks routed to UI");

    press(&mut app, Key::Char('a'));
    assert!(app.auto_refresh);
    assert_eq!(app.status_msg, "Auto-refresh ON (2s)");
    press(&mut app, Key::Char('a'));
    assert!(!app.auto_refresh);
    assert_eq!(app.status_msg, "Auto-refresh OFF");
}

#[test]
fn refresh_reports() {
    let mut app = fresh_app("refresh");
    press(&mut app, Key::Char('r'));
    assert_eq!(app.status_msg, "Refreshed");
}

#[test]
fn typing_a_commit_message() {
    let mut app = fresh_app("typing");
    press(&mut app, Key::Char('2'));
    press(&mut app, Key::Char('c'));
    assert_eq!(app.input_mode, InputMode::Editing);
    assert_eq!(app.file_pane, FilePane::CommitMsg);
    press(&mut app, Key::Char('h'));
    press(&mut app, Key::Char('\u{e9}'));
    press(&mut app, Key::Char('!'));
    assert_eq!(app.commit_message, "h\u{e9}!");
    press(&mut app, Key::Backspace);
    assert_eq!(app.commit_message, "h\u{e9}");
    press(&mut app, Key::Esc);
    assert_eq!(app.input_mode, InputMode::Normal);
    assert_eq!(app.commit_message, "h\u{e9}");
}

#[test]
fn committing_needs_a_message_and_staged_files() {
    let mut app = fresh_app("commit_rules");
    press(&mut app, Key::Char('2'));
    press(&mut app, Key::Char('c'));
    press(&mut app, Key::Char(' '));
    press(&mut app, Key::Enter);
    assert_eq!(app.status_msg, "Commit message cannot be empty");
    assert_eq!(app.input_mode, InputMode::Normal);

    app.commit_message = "fix".to_string();
    app.do_commit();
    assert_eq!(app.status_msg, "Nothing staged to commit");
}

#[test]
fn new_branch_popup_refuses_a_blank_name() {
    let mut app = fresh_app("new_branch");
    press(&mut app, Key::Char('3'));
    press(&mut app, Key::Char('n'));
    assert_eq!(app.popup, Popup::NewBranch);
    assert_eq!(app.input_mode, InputMode::Editing);
    press(&mut app, Key::Char(' '));
    assert_eq!(app.input_buffer, " ");
    press(&mut app, Key::Enter);
    assert_eq!(app.status_msg, "Branch name cannot be empty");
    assert_eq!(app.popup, Popup::Closed);
    assert_eq!(app.input_mode, InputMode::Normal);
    assert_eq!(app.input_buffer, "");
}

#[test]
fn escape_cancels_a_popup_input() {
    let mut app = fresh_app("cancel");
    app.start_new_branch();
    press(&mut app, Key::Char('x'));
    press(&mut app, Key::Esc);
    assert_eq!(app.popup, Popup::Closed);
    assert_eq!(app.input_mode, InputMode::Normal);
    assert_eq!(app.input_buffer, "");
}

#[test]
fn deleting_the_current_branch_is_refused() {
    let mut app = fresh_app("delete_head");
    app.branches = vec![git_lumina::git_ops::BranchInfo {
        name: "main".to_string(),
        is_head: true,
        is_remote: false,
        upstream: None,
        commit_id: "abc1234".to_string(),
    }];
    app.start_delete_branch();
    assert_eq!(app.status_msg, "Cannot delete the current branch");
    assert_eq!(app.popup, Popup::Closed);
    app.checkout_selected_branch();
    assert_eq!(app.status_msg, "Already on this branch");

    app.branches[0].is_head = false;
    app.branches[0].is_remote = true;
    app.start_delete_branch();
    assert_eq!(app.status_msg, "Cannot delete remote branches from here");
    app.checkout_selected_branch();
    assert_eq!(app.status_msg, "Cannot checkout remote branch directly");

    app.branches[0].is_remote = false;
    app.start_delete_branch();
    assert_eq!(app.popup, Popup::ConfirmDelete("main".to_string()));
}

#[test]
fn clicks_go_to_the_topmost_region() {
    let mut app = fresh_app("clicks");
    let r = Rect { x: 0, y: 0, width: 10, height: 2 };
    app.register_click_region(r, ClickAction::SelectTab(Tab::Files));
    app.register_click_region(Rect { x: 5, y: 0, width: 5, height: 1 }, ClickAction::SelectTab(Tab::Branches));
    assert!(app.handle_click(6, 0));
    assert_eq!(app.tab, Tab::Branches);
    assert!(app.handle_click(1, 1));
    assert_eq!(app.tab, Tab::Files);
    assert!(!app.handle_click(20, 20));
    assert_eq!(app.tab, Tab::Files);

    app.clear_click_regions();
    assert!(app.click_regions.is_empty());
    assert!(!app.handle_click(1, 1));
}

#[test]
fn clicking_buttons() {
    let mut app = fresh_app("buttons");
    app.register_click_region(Rect { x: 0, y: 0, width: 5, height: 1 }, ClickAction::PushButton);
    app.register_click_region(Rect { x: 0, y: 1, width: 5, height: 1 }, ClickAction::FocusCommitMsg);
    app.register_click_region(Rect { x: 0, y: 2, width: 5, height: 1 }, ClickAction::SelectCommit(7));
    handle_mouse_event(&mut app, MouseKind::LeftDown, 2, 0);
    assert_eq!(app.popup, Popup::ConfirmPush);
    handle_mouse_event(&mut app, MouseKind::LeftDown, 2, 1);
    assert_eq!(app.file_pane, FilePane::CommitMsg);
    assert_eq!(app.input_mode, InputMode::Editing);
    handle_mouse_event(&mut app, MouseKind::LeftDown, 2, 2);
    assert_eq!(app.commit_selected, 7);
}

#[test]
fn scrolling_the_diff_panel() {
    let mut app = fresh_app("scroll");
    app.diff_total_lines = 30;
    let area = Rect { x: 40, y: 5, width: 40, height: 12 };
    app.diff_area = Some(area);
    handle_mouse_event(&mut app, MouseKind::ScrollDown, 50, 10);
    assert_eq!(app.diff_scroll, 3);
    for _ in 0..10 {
        handle_mouse_event(&mut app, MouseKind::ScrollDown, 50, 10);
    }
    // 30 lines, 10 visible inside the border: no further than 20
    assert_eq!(app.diff_scroll, 20);
    handle_mouse_event(&mut app, MouseKind::ScrollUp, 50, 10);
    assert_eq!(app.diff_scroll, 17);
    // outside the panel the list selection moves instead
    handle_mouse_event(&mut app, MouseKind::ScrollUp, 0, 0);
    assert_eq!(app.diff_scroll, 17);
    assert_eq!(app.commit_selected, 0);
}

#[test]
fn page_keys_scroll_the_diff_in_the_files_tab() {
    let mut app = fresh_app("pages");
    app.diff_total_lines = 50;
    press(&mut app, Key::PageDown);
    assert_eq!(app.diff_scroll, 0);
    press(&mut app, Key::Char('2'));
    press(&mut app, Key::PageDown);
    assert_eq!(app.diff_scroll, 10);
    press(&mut app, Key::PageDown);
    press(&mut app, Key::PageDown);
    press(&mut app, Key::PageDown);
    assert_eq!(app.diff_scroll, 30);
    press(&mut app, Key::PageUp);
    assert_eq!(app.diff_scroll, 20);
    app.diff_scroll_up(100);
    assert_eq!(app.diff_scroll, 0);
}

#[test]
fn selection_stays_in_empty_lists() {
    let mut app = fresh_app("select");
    press(&mut app, Key::Down);
    press(&mut app, Key::Char('j'));
    assert_eq!(app.commit_selected, 0);
    press(&mut app, Key::Up);
    press(&mut app, Key::Char('k'));
    assert_eq!(app.commit_selected, 0);
    press(&mut app, Key::Char('3'));
    press(&mut app, Key::Down);
    assert_eq!(app.branch_selected, 0);
}

#[test]
fn file_panes_cycle() {
    let mut app = fresh_app("panes");
    press(&mut app, Key::Char('2'));
    press(&mut app, Key::Right);
    assert_eq!(app.file_pane, FilePane::Staged);
    press(&mut app, Key::Left);
    assert_eq!(app.file_pane, FilePane::CommitMsg);
    press(&mut app, Key::Right);
    assert_eq!(app.file_pane, FilePane::Unstaged);
    assert_eq!(app.diff_text, "");
    assert_eq!(app.diff_total_lines, 0);
}

#[test]
fn staging_everything_reports_the_count() {
    let mut app = fresh_app("stage_all");
    press(&mut app, Key::Char('2'));
    press(&mut app, Key::Char('S'));
    assert_eq!(app.status_msg, "Staged 0 files");
    press(&mut app, Key::Char('U'));
    assert_eq!(app.status_msg, "Unstaged 0 files");
}

#[test]
fn a_reload_brings_selections_back_into_their_lists() {
    let mut app = fresh_app("reselect");
    app.commit_selected = 5;
    app.branch_selected = 3;
    app.staged_selected = 2;
    app.unstaged_selected = 9;
    app.refresh_all().expect("reloaded");
    assert_eq!(app.commit_selected, 0);
    assert_eq!(app.branch_selected, 0);
    assert_eq!(app.staged_selected, 0);
    assert_eq!(app.unstaged_selected, 0);
    assert!(app.pending_remote.is_none());
}

#[test]
fn refresh_is_due_only_when_on_and_the_interval_has_passed() {
    assert_eq!(AUTO_REFRESH_INTERVAL_MS, 2000);
    assert!(!refresh_due(false, 5000, 2000));
    assert!(!refresh_due(true, 1999, 2000));
    assert!(refresh_due(true, 2000, 2000));
    assert!(refresh_due(true, 2001, 2000));
}

#[test]
fn auto_refresh_waits_for_its_interval() {
    let mut app = fresh_app("auto_wait");
    press(&mut app, Key::Char('a'));
    assert!(app.auto_refresh);
    app.status_msg = "kept".to_string();
    app.maybe_auto_refresh();
    assert_eq!(app.status_msg, "kept");
    assert!(app.auto_refresh);
}

#[test]
fn dispatching_a_click_on_the_push_button_asks_first() {
    let mut app = fresh_app("dispatch_push");
    app.dispatch_click(ClickAction::PushButton);
    assert_eq!(app.popup, Popup::ConfirmPush);
    app.dispatch_click(ClickAction::SelectTab(Tab::Branches));
    assert_eq!(app.tab, Tab::Branches);
}
