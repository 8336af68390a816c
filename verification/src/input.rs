//! What each key press and mouse event does to the application state. The
//! front end reads the terminal's events, turns them into these values and
//! hands them over; nothing here touches the terminal.

use vstd::prelude::*;
use crate::app::{
    App, FilePane, InputMode, Popup, Tab, files_nul_free, auto_refresh_toggled, click_spec, confirm_popup_spec,
    do_commit_spec, fetch_requested, min_int, mouse_capture_toggled, new_branch_spec,
    new_branch_started, all_refreshed_any, popup_cancelled, sat_sub, scroll_spec, select_down_spec,
    select_up_spec, stage_all_spec, stage_one_spec, checkout_spec, start_delete_spec, diff_updated,
    next_pane_of, next_tab_of, prev_tab_of,
};
use crate::text::{from_chars, string_push, to_chars};

verus! {

/// A key, as far as the application tells keys apart.
#[derive(Clone, Copy, Debug, PartialEq, Eq, Structural)]
pub enum Key {
    Char(char),
    Up,
    Down,
    Left,
    Right,
    PageUp,
    PageDown,
    Tab,
    BackTab,
    Enter,
    Esc,
    Backspace,
    /// any other key
    Other,
}

/// A mouse event, as far as the application tells them apart.
#[derive(Clone, Copy, Debug, PartialEq, Eq, Structural)]
pub enum MouseKind {
    LeftDown,
    ScrollUp,
    ScrollDown,
    /// any other mouse event
    Other,
}

/// `s` without its last character (unchanged when empty).
pub open spec fn drop_last_char(s: Seq<char>) -> Seq<char> {
    if s.len() == 0 {
        s
    } else {
        s.drop_last()
    }
}

/// Removes the last character of `s`, if any.
pub fn pop_char(s: &mut String)
    ensures
        final(s)@ == drop_last_char(old(s)@),
{
    let v = to_chars(s.as_str());
    if v.len() > 0 {
        *s = from_chars(&v, 0, v.len() - 1);
        assert(v@.subrange(0, v.len() - 1) =~= v@.drop_last());
    }
}

/// What a key does in the Files tab.
pub open spec fn files_input_spec(a: App, b: App, key: Key) -> bool {
    match key {
        Key::Left | Key::Right => diff_updated(App { file_pane: next_pane_of(a.file_pane), ..a }, b),
        Key::Char('s') => stage_one_spec(a, b, true),
        Key::Char('u') => stage_one_spec(a, b, false),
        Key::Char('S') => stage_all_spec(a, b, true),
        Key::Char('U') => stage_all_spec(a, b, false),
        Key::Char('c') => b == (App { file_pane: FilePane::CommitMsg, input_mode: InputMode::Editing, ..a }),
        Key::Enter => if a.file_pane == FilePane::CommitMsg {
            do_commit_spec(a, b)
        } else {
            b == a
        },
        _ => b == a,
    }
}

/// What a key does in the Branches tab.
pub open spec fn branches_input_spec(a: App, b: App, key: Key) -> bool {
    match key {
        Key::Enter => checkout_spec(a, b),
        Key::Char('n') => new_branch_started(a, b),
        Key::Char('d') => start_delete_spec(a, b),
        _ => b == a,
    }
}

/// What a key does in normal mode with no popup open.
pub open spec fn normal_input_spec(a: App, b: App, key: Key) -> bool {
    match key {
        Key::Char('q') => b == (App { running: false, ..a }),
        Key::Char('1') => b == (App { tab: Tab::Graph, ..a }),
        Key::Char('2') => b == (App { tab: Tab::Files, ..a }),
        Key::Char('3') => b == (App { tab: Tab::Branches, ..a }),
        Key::Tab => b == (App { tab: next_tab_of(a.tab), ..a }),
        Key::BackTab => b == (App { tab: prev_tab_of(a.tab), ..a }),
        Key::Up | Key::Char('k') => select_up_spec(a, b),
        Key::Down | Key::Char('j') => select_down_spec(a, b),
        Key::PageUp => if a.tab == Tab::Files {
            b == (App { diff_scroll: sat_sub(a.diff_scroll, 10), ..a })
        } else {
            b == a
        },
        Key::PageDown => if a.tab == Tab::Files {
            b == (App {
                diff_scroll: min_int(a.diff_scroll + 10, sat_sub(a.diff_total_lines, 20) as int) as usize,
                ..a
            })
        } else {
            b == a
        },
        Key::Char('r') => b.status_msg@ == "Refreshed"@ && exists|mid: App|
            all_refreshed_any(a, mid) && b == (App { status_msg: b.status_msg, ..mid }),
        Key::Char('a') => auto_refresh_toggled(a, b),
        Key::Char('m') => mouse_capture_toggled(a, b),
        Key::Char('?') => b == (App { popup: Popup::Help, ..a }),
        Key::Char('P') => b == (App { popup: Popup::ConfirmPush, ..a }),
        Key::Char('L') => b == (App { popup: Popup::ConfirmPull, ..a }),
        Key::Char('F') => fetch_requested(a, b),
        _ => match a.tab {
            Tab::Files => files_input_spec(a, b, key),
            Tab::Branches => branches_input_spec(a, b, key),
            Tab::Graph => b == a,
        },
    }
}

/// What a key does while text is being typed: into the popup's input when a
/// popup is open, else into the commit message when it has focus.
pub open spec fn editing_input_spec(a: App, b: App, key: Key) -> bool {
    let popup_open = a.popup != Popup::Closed;
    let in_msg = a.file_pane == FilePane::CommitMsg;
    match key {
        Key::Esc => if popup_open {
            popup_cancelled(a, b)
        } else {
            b == (App { input_mode: InputMode::Normal, ..a })
        },
        Key::Enter => if a.popup == Popup::NewBranch {
            new_branch_spec(a, b)
        } else if in_msg {
            do_commit_spec(App { input_mode: InputMode::Normal, ..a }, b)
        } else {
            b == a
        },
        Key::Backspace => if popup_open {
            b.input_buffer@ == drop_last_char(a.input_buffer@) && b == (App { input_buffer: b.input_buffer, ..a })
        } else if in_msg {
            b.commit_message@ == drop_last_char(a.commit_message@) && b == (App {
                commit_message: b.commit_message,
                ..a
            })
        } else {
            b == a
        },
        Key::Char(c) => if popup_open {
            b.input_buffer@ == a.input_buffer@.push(c) && b == (App { input_buffer: b.input_buffer, ..a })
        } else if in_msg {
            b.commit_message@ == a.commit_message@.push(c) && b == (App {
                commit_message: b.commit_message,
                ..a
            })
        } else {
            b == a
        },
        _ => b == a,
    }
}

/// What a key press does: Ctrl+C stops the application (and the key is then
/// handled like any other); while typing, the key edits the text; with a
/// confirmation open, `y` confirms and `n` or Esc cancels; with help open,
/// Esc, `?` or `q` close it; otherwise the key is a command.
pub open spec fn key_press_spec(a: App, b: App, key: Key, ctrl: bool) -> bool {
    let a1 = if ctrl && key == Key::Char('c') {
        App { running: false, ..a }
    } else {
        a
    };
    match a1.input_mode {
        InputMode::Editing => editing_input_spec(a1, b, key),
        InputMode::Normal => match a1.popup {
            Popup::ConfirmDelete(_) | Popup::ConfirmPush | Popup::ConfirmPull => match key {
                Key::Char('y') => confirm_popup_spec(a1, b),
                Key::Char('n') | Key::Esc => popup_cancelled(a1, b),
                _ => b == a1,
            },
            Popup::Help => match key {
                Key::Esc | Key::Char('?') | Key::Char('q') => b == (App { popup: Popup::Closed, ..a1 }),
                _ => b == a1,
            },
            Popup::Closed => normal_input_spec(a1, b, key),
            Popup::NewBranch => b == a1,
        },
    }
}

/// What a mouse event at (col, row) does: a left click performs the action
/// of the region under it; a scroll scrolls the diff or moves the selection.
pub open spec fn mouse_event_spec(a: App, b: App, kind: MouseKind, col: int, row: int) -> bool {
    match kind {
        MouseKind::LeftDown => exists|hit: bool| click_spec(a, b, col, row, hit),
        MouseKind::ScrollUp => scroll_spec(a, b, col, row, true, a.diff_area),
        MouseKind::ScrollDown => scroll_spec(a, b, col, row, false, a.diff_area),
        MouseKind::Other => b == a,
    }
}

fn popup_is_closed(p: &Popup) -> (r: bool)
    ensures
        r == (*p == Popup::Closed),
{
    match p {
        Popup::Closed => true,
        _ => false,
    }
}

/// Handles a key in the Files tab.
pub fn handle_files_input(app: &mut App, key: Key)
    requires
        files_nul_free(*old(app)),
    ensures
        files_input_spec(*old(app), *final(app), key),
{
    match key {
        Key::Left | Key::Right => app.toggle_file_pane(),
        Key::Char('s') => app.stage_selected(),
        Key::Char('u') => app.unstage_selected(),
        Key::Char('S') => app.stage_all(),
        Key::Char('U') => app.unstage_all(),
        Key::Char('c') => app.start_commit_input(),
        Key::Enter => {
            if app.file_pane == FilePane::CommitMsg {
                app.do_commit();
            }
        },
        _ => {},
    }
}

/// Handles a key in the Branches tab.
pub fn handle_branches_input(app: &mut App, key: Key)
    ensures
        branches_input_spec(*old(app), *final(app), key),
{
    match key {
        Key::Enter => app.checkout_selected_branch(),
        Key::Char('n') => app.start_new_branch(),
        Key::Char('d') => app.start_delete_branch(),
        _ => {},
    }
}

/// Handles a key in normal mode with no popup open.
pub fn handle_normal_input(app: &mut App, key: Key)
    requires
        files_nul_free(*old(app)),
    ensures
        normal_input_spec(*old(app), *final(app), key),
{
    match key {
        Key::Char('q') => app.running = false,
        Key::Char('1') => app.tab = Tab::Graph,
        Key::Char('2') => app.tab = Tab::Files,
        Key::Char('3') => app.tab = Tab::Branches,
        Key::Tab => app.next_tab(),
        Key::BackTab => app.prev_tab(),
        Key::Up | Key::Char('k') => app.select_up(),
        Key::Down | Key::Char('j') => app.select_down(),
        Key::PageUp => {
            if app.tab == Tab::Files {
                app.diff_scroll_up(10);
            }
        },
        Key::PageDown => {
            if app.tab == Tab::Files {
                app.diff_scroll_down(10, 20);
            }
        },
        Key::Char('r') => {
            let ghost a = *app;
            let _ = app.refresh_all();
            let ghost mid = *app;
            assert(all_refreshed_any(a, mid));
            app.status_msg = "Refreshed".to_owned();
            assert(*app == (App { status_msg: app.status_msg, ..mid }));
        },
        Key::Char('a') => app.toggle_auto_refresh(),
        Key::Char('m') => app.toggle_mouse_capture(),
        Key::Char('?') => app.show_help(),
        Key::Char('P') => app.start_push(),
        Key::Char('L') => app.start_pull(),
        Key::Char('F') => app.do_fetch(),
        _ => match app.tab {
            Tab::Files => handle_files_input(app, key),
            Tab::Branches => handle_branches_input(app, key),
            Tab::Graph => {},
        },
    }
}

/// Handles a key while text is being typed.
pub fn handle_editing_input(app: &mut App, key: Key)
    ensures
        editing_input_spec(*old(app), *final(app), key),
{
    let popup_open = !popup_is_closed(&app.popup);
    let in_msg = app.file_pane == FilePane::CommitMsg;
    match key {
        Key::Esc => {
            if popup_open {
                app.cancel_popup();
            } else {
                app.input_mode = InputMode::Normal;
            }
        },
        Key::Enter => {
            let new_branch = match app.popup {
                Popup::NewBranch => true,
                _ => false,
            };
            if new_branch {
                app.confirm_new_branch();
            } else if in_msg {
                app.input_mode = InputMode::Normal;
                app.do_commit();
            }
        },
        Key::Backspace => {
            if popup_open {
                pop_char(&mut app.input_buffer);
            } else if in_msg {
                pop_char(&mut app.commit_message);
            }
        },
        Key::Char(c) => {
            if popup_open {
                string_push(&mut app.input_buffer, c);
            } else if in_msg {
                string_push(&mut app.commit_message, c);
            }
        },
        _ => {},
    }
}

/// Handles a key press; `ctrl` says whether Control was held.
pub fn handle_key_press(app: &mut App, key: Key, ctrl: bool)
    requires
        files_nul_free(*old(app)),
    ensures
        key_press_spec(*old(app), *final(app), key, ctrl),
{
    if ctrl && key == Key::Char('c') {
        app.running = false;
    }
    match app.input_mode {
        InputMode::Editing => handle_editing_input(app, key),
        InputMode::Normal => {
            let kind: u8 = match &app.popup {
                Popup::ConfirmDelete(_) | Popup::ConfirmPush | Popup::ConfirmPull => 0,
                Popup::Help => 1,
                Popup::Closed => 2,
                Popup::NewBranch => 3,
            };
            if kind == 0 {
                match key {
                    Key::Char('y') => app.confirm_popup(),
                    Key::Char('n') | Key::Esc => app.cancel_popup(),
                    _ => {},
                }
            } else if kind == 1 {
                match key {
                    Key::Esc | Key::Char('?') | Key::Char('q') => app.popup = Popup::Closed,
                    _ => {},
                }
            } else if kind == 2 {
                handle_normal_input(app, key);
            }
        },
    }
}

/// Handles a mouse event at (col, row).
pub fn handle_mouse_event(app: &mut App, kind: MouseKind, col: u16, row: u16)
    requires
        files_nul_free(*old(app)),
    ensures
        mouse_event_spec(*old(app), *final(app), kind, col as int, row as int),
{
    match kind {
        MouseKind::LeftDown => {
            let _ = app.handle_click(col, row);
        },
        MouseKind::ScrollUp => {
            let area = app.diff_area;
            app.handle_scroll(col, row, true, area);
        },
        MouseKind::ScrollDown => {
            let area = app.diff_area;
            app.handle_scroll(col, row, false, area);
        },
        MouseKind::Other => {},
    }
}

/// Ctrl+C always stops the application, whatever mode or popup it is in
/// and whatever else the key then does.
pub proof fn law_ctrl_c_quits(a: App, b: App)
    requires
        key_press_spec(a, b, Key::Char('c'), true),
    ensures
        !b.running,
{
    let a1 = App { running: false, ..a };
    match a1.input_mode {
        InputMode::Editing => {},
        InputMode::Normal => match a1.popup {
            Popup::ConfirmDelete(_) => {
                assert(b == a1);
            },
            Popup::ConfirmPush | Popup::ConfirmPull => {},
            Popup::Help => {},
            Popup::NewBranch => {},
            Popup::Closed => {
                if a1.tab == Tab::Files {
                    assert(files_input_spec(a1, b, Key::Char('c')));
                }
            },
        },
    }
}

/// In normal mode with no popup open, `q` quits and changes nothing else.
pub proof fn law_q_quits(a: App, b: App)
    requires
        a.input_mode == InputMode::Normal,
        a.popup == Popup::Closed,
        key_press_spec(a, b, Key::Char('q'), false),
    ensures
        b == (App { running: false, ..a }),
{
}

/// `?` opens the help popup, and `?` closes it again: the state comes back
/// to what it was.
pub proof fn law_help_toggles(a: App, b: App, c: App)
    requires
        a.input_mode == InputMode::Normal,
        a.popup == Popup::Closed,
        key_press_spec(a, b, Key::Char('?'), false),
        key_press_spec(b, c, Key::Char('?'), false),
    ensures
        b.popup == Popup::Help,
        c == a,
{
}

/// Typing a character and then erasing one gives back the text being
/// edited, and nothing else changes: in the popup's input when a popup is
/// open, else in the commit message.
pub proof fn law_type_then_erase(a: App, b: App, c: App, ch: char)
    requires
        a.input_mode == InputMode::Editing,
        a.popup != Popup::Closed || a.file_pane == FilePane::CommitMsg,
        key_press_spec(a, b, Key::Char(ch), false),
        key_press_spec(b, c, Key::Backspace, false),
    ensures
        c.input_buffer@ == a.input_buffer@,
        c.commit_message@ == a.commit_message@,
        c == (App { input_buffer: c.input_buffer, commit_message: c.commit_message, ..a }),
{
    assert(a.input_buffer@.push(ch).drop_last() =~= a.input_buffer@);
    assert(a.commit_message@.push(ch).drop_last() =~= a.commit_message@);
}

} // verus!
