//! The application state and everything the user can do to it.

use vstd::prelude::*;
use crate::git_ops::{
    BranchInfo, CommitInfo, FileStatus, GraphLane, RemoteOp, RemoteStatus,
};
use crate::git_ops::{
    branches_sorted, compute_graph_lanes, create_branch, create_commit, delete_branch,
    diff_text_spec, files_view, get_branches, get_commits, get_current_branch, get_file_diff,
    get_remote_status, get_remote_url, get_status, lane_row_is, no_remote_status, remote_status_is, paths_nul_free, nul_free, stage_file,
    staged_of, unstage_file, unstaged_of, checkout_branch, GitError,
};
use crate::text::{join2, join3, decimal, line_count, line_count_of, u64_to_string, str_is_blank, is_blank, trim, trim_string};
use crate::ui::{Rect, contains, rect_contains};

verus! {

#[verifier::external_type_specification]
#[verifier::external_body]
pub struct ExInstant(std::time::Instant);

/// `std::time::Instant::now`: the current instant. Nothing is claimed of
/// it, since it depends on the clock.
#[verifier::external_body]
fn instant_now() -> (i: std::time::Instant) {
    std::time::Instant::now()
}

/// `std::time::Instant::elapsed`, in whole milliseconds (`as_millis`):
/// the time since `i`. `elapsed` saturates at zero rather than panic.
/// Nothing is claimed of the value, since it depends on the clock.
#[verifier::external_body]
fn instant_elapsed_millis(i: &std::time::Instant) -> (ms: u128) {
    i.elapsed().as_millis()
}

/// The auto-refresh interval, in milliseconds.
pub const AUTO_REFRESH_INTERVAL_MS: u64 = 2000;

/// Whether an automatic reload is due: auto-refresh is on and at least
/// `interval_ms` milliseconds have passed since the last reload.
pub open spec fn is_refresh_due(auto: bool, elapsed_ms: u128, interval_ms: u64) -> bool {
    auto && elapsed_ms >= interval_ms
}

/// Decides whether an automatic reload is due (`is_refresh_due`).
pub fn refresh_due(auto: bool, elapsed_ms: u128, interval_ms: u64) -> (b: bool)
    ensures
        b == is_refresh_due(auto, elapsed_ms, interval_ms),
{
    auto && elapsed_ms >= interval_ms as u128
}

/// Which tab the user is viewing.
#[derive(Clone, Copy, Debug, PartialEq, Eq, Structural)]
pub enum Tab {
    Graph,
    Files,
    Branches,
}

pub open spec fn tab_index(t: Tab) -> usize {
    match t {
        Tab::Graph => 0,
        Tab::Files => 1,
        Tab::Branches => 2,
    }
}

pub open spec fn next_tab_of(t: Tab) -> Tab {
    match t {
        Tab::Graph => Tab::Files,
        Tab::Files => Tab::Branches,
        Tab::Branches => Tab::Graph,
    }
}

pub open spec fn prev_tab_of(t: Tab) -> Tab {
    match t {
        Tab::Graph => Tab::Branches,
        Tab::Files => Tab::Graph,
        Tab::Branches => Tab::Files,
    }
}

impl Tab {
    /// The tab's position in the tab bar.
    pub fn index(&self) -> (i: usize)
        ensures
            i == tab_index(*self),
    {
        match self {
            Tab::Graph => 0,
            Tab::Files => 1,
            Tab::Branches => 2,
        }
    }
}

/// Which pane in the Files tab has focus.
#[derive(Clone, Copy, Debug, PartialEq, Eq, Structural)]
pub enum FilePane {
    Unstaged,
    Staged,
    CommitMsg,
}

/// Input mode for text entry.
#[derive(Clone, Copy, Debug, PartialEq, Eq, Structural)]
pub enum InputMode {
    Normal,
    /// typing into a text field
    Editing,
}

/// Popup dialog types.
#[derive(Clone, Debug, PartialEq)]
pub enum Popup {
    /// no popup open
    Closed,
    NewBranch,
    /// the branch to delete
    ConfirmDelete(String),
    ConfirmPush,
    ConfirmPull,
    Help,
}

/// A clickable region of the terminal, recorded while drawing.
#[derive(Clone, Debug)]
pub struct ClickRegion {
    pub rect: Rect,
    pub action: ClickAction,
}

#[derive(Clone, Copy, Debug, PartialEq, Eq, Structural)]
pub enum ClickAction {
    SelectTab(Tab),
    SelectCommit(usize),
    SelectUnstagedFile(usize),
    SelectStagedFile(usize),
    FocusCommitMsg,
    SelectBranch(usize),
    PushButton,
    PullButton,
    RefreshButton,
    StageAllButton,
    UnstageAllButton,
    CommitButton,
    NewBranchButton,
    FetchButton,
}

/// The application state.
pub struct App {
    pub repo: git2::Repository,
    pub tab: Tab,
    pub running: bool,
    /// status bar message
    pub status_msg: String,
    pub popup: Popup,
    pub input_mode: InputMode,
    pub input_buffer: String,
    pub commits: Vec<CommitInfo>,
    pub commit_scroll: usize,
    pub commit_selected: usize,
    pub graph_lanes: Vec<GraphLane>,
    pub current_branch: String,
    pub staged_files: Vec<FileStatus>,
    pub unstaged_files: Vec<FileStatus>,
    pub file_pane: FilePane,
    pub staged_selected: usize,
    pub unstaged_selected: usize,
    pub commit_message: String,
    pub diff_text: String,
    /// scroll offset of the diff view
    pub diff_scroll: usize,
    /// number of lines of the diff
    pub diff_total_lines: usize,
    /// the diff panel's area, for routing mouse scrolls
    pub diff_area: Option<Rect>,
    pub branches: Vec<BranchInfo>,
    pub branch_selected: usize,
    pub remote_status: RemoteStatus,
    pub remote_url: Option<String>,
    pub auto_refresh: bool,
    pub auto_refresh_interval: u64,
    pub last_refresh: std::time::Instant,
    /// clickable regions, recorded during drawing
    pub click_regions: Vec<ClickRegion>,
    /// when false the terminal keeps the mouse, so text can be selected
    pub mouse_capture: bool,
    /// a network operation the user asked for, which the front end performs
    /// and reports back through `finish_remote`
    pub pending_remote: Option<RemoteOp>,
}

/// A selection kept within a list of `len` items (0 for an empty list).
pub open spec fn clamp_sel(sel: usize, len: nat) -> usize {
    if sel >= len {
        if len == 0 {
            0
        } else {
            (len - 1) as usize
        }
    } else {
        sel
    }
}

fn clamp_selection(sel: usize, len: usize) -> (r: usize)
    ensures
        r == clamp_sel(sel, len as nat),
{
    if sel >= len {
        if len == 0 {
            0
        } else {
            len - 1
        }
    } else {
        sel
    }
}

/// A selection that is within its list, or 0 for an empty list.
pub open spec fn in_list(sel: usize, len: nat) -> bool {
    sel < len || sel == 0
}

pub open spec fn sat_sub(a: usize, b: usize) -> usize {
    if a >= b {
        (a - b) as usize
    } else {
        0
    }
}

pub open spec fn min_int(a: int, b: int) -> int {
    if a <= b {
        a
    } else {
        b
    }
}

impl App {
    /// Scrolls the diff view up by `amount` lines (stopping at the top).
    pub fn diff_scroll_up(&mut self, amount: usize)
        ensures
            *final(self) == (App { diff_scroll: sat_sub(old(self).diff_scroll, amount), ..*old(self) }),
    {
        self.diff_scroll = if self.diff_scroll >= amount {
            self.diff_scroll - amount
        } else {
            0
        };
    }

    /// Scrolls the diff view down by `amount` lines, no further than keeps
    /// `visible_height` lines on screen.
    pub fn diff_scroll_down(&mut self, amount: usize, visible_height: usize)
        ensures
            *final(self) == (App {
                diff_scroll: min_int(
                    old(self).diff_scroll + amount,
                    sat_sub(old(self).diff_total_lines, visible_height) as int,
                ) as usize,
                ..*old(self)
            }),
    {
        let max_scroll = if self.diff_total_lines >= visible_height {
            self.diff_total_lines - visible_height
        } else {
            0
        };
        self.diff_scroll = if amount >= max_scroll || self.diff_scroll >= max_scroll - amount {
            max_scroll
        } else {
            self.diff_scroll + amount
        };
    }

    /// Moves to the next tab (Graph, Files, Branches, and round again).
    pub fn next_tab(&mut self)
        ensures
            *final(self) == (App { tab: next_tab_of(old(self).tab), ..*old(self) }),
    {
        self.tab = match self.tab {
            Tab::Graph => Tab::Files,
            Tab::Files => Tab::Branches,
            Tab::Branches => Tab::Graph,
        };
    }

    /// Moves to the previous tab.
    pub fn prev_tab(&mut self)
        ensures
            *final(self) == (App { tab: prev_tab_of(old(self).tab), ..*old(self) }),
    {
        self.tab = match self.tab {
            Tab::Graph => Tab::Branches,
            Tab::Files => Tab::Graph,
            Tab::Branches => Tab::Files,
        };
    }

    /// Clears the click regions before a draw.
    pub fn clear_click_regions(&mut self)
        ensures
            final(self).click_regions@.len() == 0,
            *final(self) == (App { click_regions: final(self).click_regions, ..*old(self) }),
    {
        self.click_regions.clear();
    }

    /// Records a clickable region.
    pub fn register_click_region(&mut self, rect: Rect, action: ClickAction)
        ensures
            final(self).click_regions@ == old(self).click_regions@.push(ClickRegion { rect, action }),
            *final(self) == (App { click_regions: final(self).click_regions, ..*old(self) }),
    {
        self.click_regions.push(ClickRegion { rect, action });
    }

    /// Opens the push confirmation.
    pub fn start_push(&mut self)
        ensures
            *final(self) == (App { popup: Popup::ConfirmPush, ..*old(self) }),
    {
        self.popup = Popup::ConfirmPush;
    }

    /// Opens the pull confirmation.
    pub fn start_pull(&mut self)
        ensures
            *final(self) == (App { popup: Popup::ConfirmPull, ..*old(self) }),
    {
        self.popup = Popup::ConfirmPull;
    }

    /// Opens the help popup.
    pub fn show_help(&mut self)
        ensures
            *final(self) == (App { popup: Popup::Help, ..*old(self) }),
    {
        self.popup = Popup::Help;
    }

    /// Starts typing a commit message.
    pub fn start_commit_input(&mut self)
        ensures
            *final(self) == (App { file_pane: FilePane::CommitMsg, input_mode: InputMode::Editing, ..*old(self) }),
    {
        self.file_pane = FilePane::CommitMsg;
        self.input_mode = InputMode::Editing;
    }
}


/// What a refresh leaves alone: everything it does not reload.
pub open spec fn refresh_keeps(a: App, b: App) -> bool {
    &&& b.repo == a.repo
    &&& b.tab == a.tab
    &&& b.running == a.running
    &&& b.status_msg == a.status_msg
    &&& b.popup == a.popup
    &&& b.input_mode == a.input_mode
    &&& b.input_buffer == a.input_buffer
    &&& b.commit_scroll == a.commit_scroll
    &&& b.file_pane == a.file_pane
    &&& b.commit_message == a.commit_message
    &&& b.diff_area == a.diff_area
    &&& b.auto_refresh == a.auto_refresh
    &&& b.auto_refresh_interval == a.auto_refresh_interval
    &&& b.click_regions == a.click_regions
    &&& b.mouse_capture == a.mouse_capture
    &&& b.pending_remote == a.pending_remote
}

/// Whether no listed file's path holds a NUL character, as is so of every
/// path the repository reports; the diff preview hands the selected path
/// to libgit2 as a C string.
pub open spec fn files_nul_free(a: App) -> bool {
    paths_nul_free(a.staged_files@) && paths_nul_free(a.unstaged_files@)
}

/// Whether the focused file pane has a selected file.
pub open spec fn has_selected_file(a: App) -> bool {
    match a.file_pane {
        FilePane::Unstaged => a.unstaged_selected < a.unstaged_files.len(),
        FilePane::Staged => a.staged_selected < a.staged_files.len(),
        FilePane::CommitMsg => false,
    }
}

/// The diff preview after the selection changed: unchanged while the commit
/// message has focus; otherwise the selected file's diff (or the error
/// reading it), empty when no file is selected, counted in lines and
/// scrolled to the top.
pub open spec fn diff_updated(a: App, b: App) -> bool {
    match a.file_pane {
        FilePane::CommitMsg => b == a,
        _ => {
            &&& b == (App {
                diff_text: b.diff_text,
                diff_total_lines: b.diff_total_lines,
                diff_scroll: 0,
                ..a
            })
            &&& b.diff_total_lines == line_count(b.diff_text@)
            &&& !has_selected_file(a) ==> b.diff_text@.len() == 0
            &&& has_selected_file(a) ==> ((exists|lines: Seq<(char, Option<String>)>|
                b.diff_text@ == diff_text_spec(lines)) || (exists|m: Seq<char>| b.diff_text@
                == "Error: "@ + m))
        },
    }
}

/// A successful reload of the branch list.
pub open spec fn branches_reloaded(a: App, b: App) -> bool {
    &&& b == (App {
        branches: b.branches,
        branch_selected: clamp_sel(a.branch_selected, b.branches.len() as nat),
        ..a
    })
    &&& branches_sorted(b.branches@)
}

/// A successful reload of the commit log and its graph.
pub open spec fn commits_reloaded(a: App, b: App) -> bool {
    &&& b == (App {
        commits: b.commits,
        graph_lanes: b.graph_lanes,
        commit_selected: clamp_sel(a.commit_selected, b.commits.len() as nat),
        ..a
    })
    &&& b.commits.len() <= 200
    &&& b.graph_lanes.len() == b.commits.len()
    &&& forall|k: int| 0 <= k < b.commits.len() ==> lane_row_is(#[trigger] b.graph_lanes@[k], b.commits@, k)
}

/// A successful reload of the file lists (and then of the diff preview).
pub open spec fn files_reloaded(a: App, b: App) -> bool {
    let mid = App {
        staged_files: b.staged_files,
        unstaged_files: b.unstaged_files,
        staged_selected: clamp_sel(a.staged_selected, b.staged_files.len() as nat),
        unstaged_selected: clamp_sel(a.unstaged_selected, b.unstaged_files.len() as nat),
        ..a
    };
    &&& diff_updated(mid, b)
    &&& exists|e: Seq<(Option<String>, u32)>| files_view(b.staged_files@) == staged_of(e)
        && files_view(b.unstaged_files@) == unstaged_of(e)
}

/// A reload of the remote tracking status and the remote's URL.
pub open spec fn remote_reloaded(a: App, b: App) -> bool {
    &&& b == (App { remote_status: b.remote_status, remote_url: b.remote_url, ..a })
    &&& remote_status_well_formed(b.remote_status)
}

/// A remote status as the repository reports it: with no upstream, nothing
/// ahead or behind and no names; with one, the remote named by the part of
/// the upstream's name before its first '/'.
pub open spec fn remote_status_well_formed(s: RemoteStatus) -> bool {
    exists|u: Option<Seq<char>>, ahead: usize, behind: usize| remote_status_is(s, u, ahead, behind)
}

/// An attempt to reload the file lists: reloaded, or left as it was.
pub open spec fn files_refreshed(a: App, b: App) -> bool {
    files_reloaded(a, b) || b == a
}

/// An attempt to reload the branch list.
pub open spec fn branches_refreshed(a: App, b: App) -> bool {
    branches_reloaded(a, b) || b == a
}

/// An attempt to reload the commit log.
pub open spec fn commits_refreshed(a: App, b: App) -> bool {
    commits_reloaded(a, b) || b == a
}

/// A reload of everything from the repository: when it succeeds, every
/// list is reloaded, each selection kept within its list, and the diff
/// preview recomputed; whether or not it succeeds, nothing else changes.
pub open spec fn all_refreshed(a: App, b: App, ok: bool) -> bool {
    &&& refresh_keeps(a, b)
    &&& ok ==> {
        &&& b.branch_selected == clamp_sel(a.branch_selected, b.branches.len() as nat)
        &&& branches_sorted(b.branches@)
        &&& b.commit_selected == clamp_sel(a.commit_selected, b.commits.len() as nat)
        &&& b.commits.len() <= 200
        &&& b.graph_lanes.len() == b.commits.len()
        &&& (forall|k: int| 0 <= k < b.commits.len() ==> lane_row_is(#[trigger] b.graph_lanes@[k], b.commits@, k))
        &&& b.staged_selected == clamp_sel(a.staged_selected, b.staged_files.len() as nat)
        &&& b.unstaged_selected == clamp_sel(a.unstaged_selected, b.unstaged_files.len() as nat)
        &&& (a.file_pane == FilePane::CommitMsg ==> b.diff_text == a.diff_text && b.diff_scroll
            == a.diff_scroll && b.diff_total_lines == a.diff_total_lines)
        &&& (a.file_pane != FilePane::CommitMsg ==> b.diff_scroll == 0 && b.diff_total_lines
            == line_count(b.diff_text@))
    }
}

/// An attempt at a full reload, its outcome ignored.
pub open spec fn all_refreshed_any(a: App, b: App) -> bool {
    all_refreshed(a, b, true) || all_refreshed(a, b, false)
}

/// The paths of `files`, in order.
pub fn paths_of(files: &Vec<FileStatus>) -> (r: Vec<String>)
    ensures
        r.len() == files.len(),
        forall|k: int| 0 <= k < r.len() ==> (#[trigger] r@[k])@ == files@[k].path@,
{
    let mut r: Vec<String> = Vec::new();
    let mut i: usize = 0;
    while i < files.len()
        invariant
            i <= files.len(),
            r.len() == i,
            forall|k: int| 0 <= k < i ==> (#[trigger] r@[k])@ == files@[k].path@,
        decreases files.len() - i,
    {
        r.push(files[i].path.clone());
        i = i + 1;
    }
    r
}

/// Stages (or unstages) each of `paths` in turn, once each and in order,
/// and gives for each path, in the same order, the path and whether its
/// `stage_file` (or `unstage_file`) call succeeded.
pub fn apply_to_each(repo: &git2::Repository, paths: &Vec<String>, stage: bool) -> (r: Vec<(String, bool)>)
    ensures
        r.len() == paths.len(),
        forall|k: int| 0 <= k < r.len() ==> (#[trigger] r@[k]).0@ == paths@[k]@,
{
    let mut r: Vec<(String, bool)> = Vec::new();
    let mut i: usize = 0;
    while i < paths.len()
        invariant
            i <= paths.len(),
            r.len() == i,
            forall|k: int| 0 <= k < i ==> (#[trigger] r@[k]).0@ == paths@[k]@,
        decreases paths.len() - i,
    {
        let path = paths[i].as_str();
        let ok = if stage {
            stage_file(repo, path).is_ok()
        } else {
            unstage_file(repo, path).is_ok()
        };
        r.push((paths[i].clone(), ok));
        i = i + 1;
    }
    r
}

/// How many of the outcomes are successes.
pub open spec fn success_count(outcomes: Seq<(String, bool)>) -> nat
    decreases outcomes.len(),
{
    if outcomes.len() == 0 {
        0
    } else {
        success_count(outcomes.drop_last()) + if outcomes.last().1 {
            1nat
        } else {
            0nat
        }
    }
}

proof fn lemma_successes_bounded(outcomes: Seq<(String, bool)>)
    ensures
        success_count(outcomes) <= outcomes.len(),
    decreases outcomes.len(),
{
    if outcomes.len() > 0 {
        lemma_successes_bounded(outcomes.drop_last());
    }
}

/// Counts the successful outcomes.
pub fn successes(outcomes: &Vec<(String, bool)>) -> (n: usize)
    ensures
        n == success_count(outcomes@),
{
    let mut n: usize = 0;
    let mut i: usize = 0;
    while i < outcomes.len()
        invariant
            i <= outcomes.len(),
            n == success_count(outcomes@.take(i as int)),
            n <= i,
        decreases outcomes.len() - i,
    {
        assert(outcomes@.take(i + 1).drop_last() =~= outcomes@.take(i as int));
        if outcomes[i].1 {
            n = n + 1;
        }
        i = i + 1;
    }
    assert(outcomes@.take(outcomes.len() as int) =~= outcomes@);
    n
}

/// A batch reports every attempt it made: with one outcome per path, the
/// count of successes is the number of paths exactly when every attempt
/// succeeded, and each failed attempt lowers it by one.
pub proof fn law_batch_counts_each_attempt(outcomes: Seq<(String, bool)>)
    ensures
        success_count(outcomes) <= outcomes.len(),
        (success_count(outcomes) == outcomes.len()) <==> (forall|k: int| 0 <= k < outcomes.len() ==> #[trigger] outcomes[k].1),
    decreases outcomes.len(),
{
    lemma_successes_bounded(outcomes);
    if outcomes.len() > 0 {
        law_batch_counts_each_attempt(outcomes.drop_last());
        let init = outcomes.drop_last();
        if forall|k: int| 0 <= k < outcomes.len() ==> #[trigger] outcomes[k].1 {
            assert forall|k: int| 0 <= k < init.len() implies #[trigger] init[k].1 by {
                assert(outcomes[k].1);
            }
        }
        if success_count(outcomes) == outcomes.len() {
            lemma_successes_bounded(init);
            assert forall|k: int| 0 <= k < outcomes.len() implies #[trigger] outcomes[k].1 by {
                if k < init.len() {
                    assert(init[k].1);
                }
            }
        }
    }
}

impl App {
    /// Recomputes the diff preview for the selected file.
    fn update_diff(&mut self)
        requires
            files_nul_free(*old(self)),
        ensures
            diff_updated(*old(self), *final(self)),
    {
        let result: Result<String, GitError> = match self.file_pane {
            FilePane::Unstaged => {
                if self.unstaged_selected < self.unstaged_files.len() {
                    get_file_diff(&self.repo, self.unstaged_files[self.unstaged_selected].path.as_str(), false)
                } else {
                    Ok(String::new())
                }
            },
            FilePane::Staged => {
                if self.staged_selected < self.staged_files.len() {
                    get_file_diff(&self.repo, self.staged_files[self.staged_selected].path.as_str(), true)
                } else {
                    Ok(String::new())
                }
            },
            FilePane::CommitMsg => {
                return ;
            },
        };
        let text = match result {
            Ok(t) => t,
            Err(e) => join2("Error: ", e.message.as_str()),
        };
        let total = line_count_of(text.as_str());
        self.diff_text = text;
        self.diff_total_lines = total;
        self.diff_scroll = 0;
    }

    /// Reloads the branch list, keeping the selection within it.
    pub fn refresh_branches(&mut self) -> (r: Result<(), GitError>)
        ensures
            r is Ok ==> branches_reloaded(*old(self), *final(self)),
            r is Err ==> *final(self) == *old(self),
    {
        match get_branches(&self.repo) {
            Ok(b) => {
                self.branches = b;
                self.branch_selected = clamp_selection(self.branch_selected, self.branches.len());
                Ok(())
            },
            Err(e) => Err(e),
        }
    }

    /// Reloads the commit log (at most 200 commits) and lays out its graph,
    /// keeping the selection within it.
    pub fn refresh_commits(&mut self) -> (r: Result<(), GitError>)
        ensures
            r is Ok ==> commits_reloaded(*old(self), *final(self)),
            r is Err ==> *final(self) == *old(self),
    {
        match get_commits(&self.repo, 200) {
            Ok(c) => {
                let lanes = compute_graph_lanes(c.as_slice());
                self.commits = c;
                self.graph_lanes = lanes;
                self.commit_selected = clamp_selection(self.commit_selected, self.commits.len());
                Ok(())
            },
            Err(e) => Err(e),
        }
    }

    /// Reloads the staged and unstaged file lists, keeping both selections
    /// within them, and recomputes the diff preview.
    pub fn refresh_files(&mut self) -> (r: Result<(), GitError>)
        ensures
            r is Ok ==> files_reloaded(*old(self), *final(self)),
            r is Err ==> *final(self) == *old(self),
    {
        match get_status(&self.repo) {
            Ok((staged, unstaged)) => {
                self.staged_files = staged;
                self.unstaged_files = unstaged;
                self.staged_selected = clamp_selection(self.staged_selected, self.staged_files.len());
                self.unstaged_selected = clamp_selection(self.unstaged_selected, self.unstaged_files.len());
                self.update_diff();
                Ok(())
            },
            Err(e) => Err(e),
        }
    }

    /// Reloads the remote tracking status (none when it cannot be read) and
    /// the URL of the tracked remote.
    pub fn refresh_remote_status(&mut self)
        ensures
            remote_reloaded(*old(self), *final(self)),
    {
        self.remote_status = match get_remote_status(&self.repo) {
            Ok(s) => s,
            Err(_) => no_remote_status(),
        };
        self.remote_url = match &self.remote_status.remote_name {
            Some(n) => get_remote_url(&self.repo, Some(n.as_str())),
            None => get_remote_url(&self.repo, None),
        };
    }

    /// Reloads everything from the repository: branches first (the graph
    /// labels need them), then commits, files, remote status and the
    /// current branch.
    pub fn refresh_all(&mut self) -> (r: Result<(), GitError>)
        ensures
            all_refreshed(*old(self), *final(self), r is Ok),
    {
        let ghost a = *self;
        match self.refresh_branches() {
            Ok(()) => {},
            Err(e) => {
                return Err(e);
            },
        }
        match self.refresh_commits() {
            Ok(()) => {},
            Err(e) => {
                return Err(e);
            },
        }
        let ghost mid = *self;
        match self.refresh_files() {
            Ok(()) => {},
            Err(e) => {
                return Err(e);
            },
        }
        self.refresh_remote_status();
        self.current_branch = get_current_branch(&self.repo);
        self.last_refresh = instant_now();
        Ok(())
    }
}


/// What moving the selection up does.
pub open spec fn select_up_spec(a: App, b: App) -> bool {
    match a.tab {
        Tab::Graph => b == (App { commit_selected: sat_sub(a.commit_selected, 1), ..a }),
        Tab::Files => match a.file_pane {
            FilePane::Unstaged => diff_updated(
                App { unstaged_selected: sat_sub(a.unstaged_selected, 1), ..a },
                b,
            ),
            FilePane::Staged => diff_updated(App { staged_selected: sat_sub(a.staged_selected, 1), ..a }, b),
            FilePane::CommitMsg => b == a,
        },
        Tab::Branches => b == (App { branch_selected: sat_sub(a.branch_selected, 1), ..a }),
    }
}

/// A selection moved down by one when another item follows it.
pub open spec fn step_down(sel: usize, len: nat) -> usize {
    if sel + 1 < len {
        (sel + 1) as usize
    } else {
        sel
    }
}

/// What moving the selection down does.
pub open spec fn select_down_spec(a: App, b: App) -> bool {
    match a.tab {
        Tab::Graph => b == (App { commit_selected: step_down(a.commit_selected, a.commits.len() as nat), ..a }),
        Tab::Files => match a.file_pane {
            FilePane::Unstaged => diff_updated(
                App { unstaged_selected: step_down(a.unstaged_selected, a.unstaged_files.len() as nat), ..a },
                b,
            ),
            FilePane::Staged => diff_updated(
                App { staged_selected: step_down(a.staged_selected, a.staged_files.len() as nat), ..a },
                b,
            ),
            FilePane::CommitMsg => b == a,
        },
        Tab::Branches => b == (App { branch_selected: step_down(a.branch_selected, a.branches.len() as nat), ..a }),
    }
}

fn step_down_exec(sel: usize, len: usize) -> (r: usize)
    ensures
        r == step_down(sel, len as nat),
{
    if len > 0 && sel < len - 1 {
        sel + 1
    } else {
        sel
    }
}

pub open spec fn next_pane_of(p: FilePane) -> FilePane {
    match p {
        FilePane::Unstaged => FilePane::Staged,
        FilePane::Staged => FilePane::CommitMsg,
        FilePane::CommitMsg => FilePane::Unstaged,
    }
}

impl App {
    /// Moves the selection of the current list up by one (not past the top).
    pub fn select_up(&mut self)
        requires
            files_nul_free(*old(self)),
        ensures
            select_up_spec(*old(self), *final(self)),
    {
        match self.tab {
            Tab::Graph => {
                self.commit_selected = if self.commit_selected >= 1 { self.commit_selected - 1 } else { 0 };
            },
            Tab::Files => match self.file_pane {
                FilePane::Unstaged => {
                    self.unstaged_selected = if self.unstaged_selected >= 1 { self.unstaged_selected - 1 } else { 0 };
                    self.update_diff();
                },
                FilePane::Staged => {
                    self.staged_selected = if self.staged_selected >= 1 { self.staged_selected - 1 } else { 0 };
                    self.update_diff();
                },
                FilePane::CommitMsg => {},
            },
            Tab::Branches => {
                self.branch_selected = if self.branch_selected >= 1 { self.branch_selected - 1 } else { 0 };
            },
        }
    }

    /// Moves the selection of the current list down by one (not past the end).
    pub fn select_down(&mut self)
        requires
            files_nul_free(*old(self)),
        ensures
            select_down_spec(*old(self), *final(self)),
    {
        match self.tab {
            Tab::Graph => {
                self.commit_selected = step_down_exec(self.commit_selected, self.commits.len());
            },
            Tab::Files => match self.file_pane {
                FilePane::Unstaged => {
                    self.unstaged_selected = step_down_exec(self.unstaged_selected, self.unstaged_files.len());
                    self.update_diff();
                },
                FilePane::Staged => {
                    self.staged_selected = step_down_exec(self.staged_selected, self.staged_files.len());
                    self.update_diff();
                },
                FilePane::CommitMsg => {},
            },
            Tab::Branches => {
                self.branch_selected = step_down_exec(self.branch_selected, self.branches.len());
            },
        }
    }

    /// Moves the focus to the next pane of the Files tab (unstaged, staged,
    /// commit message) and recomputes the diff preview.
    pub fn toggle_file_pane(&mut self)
        requires
            files_nul_free(*old(self)),
        ensures
            diff_updated(App { file_pane: next_pane_of(old(self).file_pane), ..*old(self) }, *final(self)),
    {
        self.file_pane = match self.file_pane {
            FilePane::Unstaged => FilePane::Staged,
            FilePane::Staged => FilePane::CommitMsg,
            FilePane::CommitMsg => FilePane::Unstaged,
        };
        self.update_diff();
    }

    /// Handles a mouse scroll: inside the diff panel it scrolls the diff by
    /// three lines (keeping the panel's inner height on screen); elsewhere
    /// it moves the current list's selection.
    pub fn handle_scroll(&mut self, col: u16, row: u16, up: bool, diff_area: Option<Rect>)
        requires
            files_nul_free(*old(self)),
        ensures
            scroll_spec(*old(self), *final(self), col as int, row as int, up, diff_area),
    {
        if let Some(area) = diff_area {
            if contains(&area, col, row) {
                let visible: usize = if area.height >= 2 { (area.height - 2) as usize } else { 0 };
                if up {
                    self.diff_scroll_up(3);
                } else {
                    self.diff_scroll_down(3, visible);
                }
                return;
            }
        }
        if up {
            self.select_up();
        } else {
            self.select_down();
        }
    }
}


/// What a mouse scroll at (col, row) does: inside the diff panel it scrolls
/// the diff by three lines (keeping the panel's inner height on screen);
/// elsewhere it moves the current list's selection.
pub open spec fn scroll_spec(a: App, b: App, col: int, row: int, up: bool, diff_area: Option<Rect>) -> bool {
    match diff_area {
        Some(area) if rect_contains(area, col, row) => if up {
            b == (App { diff_scroll: sat_sub(a.diff_scroll, 3), ..a })
        } else {
            b == (App {
                diff_scroll: min_int(
                    a.diff_scroll + 3,
                    sat_sub(a.diff_total_lines, sat_sub(area.height as usize, 2)) as int,
                ) as usize,
                ..a
            })
        },
        _ => if up {
            select_up_spec(a, b)
        } else {
            select_down_spec(a, b)
        },
    }
}

/// A status message that reports a failure: `prefix` then the error's text.
pub open spec fn failure_msg(msg: Seq<char>, prefix: Seq<char>) -> bool {
    exists|m: Seq<char>| msg == prefix + m
}

/// What staging (or unstaging) the selected file does: nothing unless the
/// matching pane has focus and a file is selected; then that file's path is
/// reported staged and the file lists reloaded, or the error reported.
pub open spec fn stage_one_spec(a: App, b: App, stage: bool) -> bool {
    let pane = if stage { FilePane::Unstaged } else { FilePane::Staged };
    let files = if stage { a.unstaged_files } else { a.staged_files };
    let sel = if stage { a.unstaged_selected } else { a.staged_selected };
    if a.file_pane != pane || sel >= files.len() {
        b == a
    } else {
        let path = files@[sel as int].path@;
        ||| (b.status_msg@ == (if stage { "Staged: "@ } else { "Unstaged: "@ }) + path
            && files_refreshed(App { status_msg: b.status_msg, ..a }, b))
        ||| (failure_msg(b.status_msg@, if stage { "Error staging: "@ } else { "Error unstaging: "@ })
            && b == (App { status_msg: b.status_msg, ..a }))
    }
}

/// What staging (or unstaging) every listed file does: each is tried, the
/// number that succeeded is reported, and the file lists are reloaded.
pub open spec fn stage_all_spec(a: App, b: App, stage: bool) -> bool {
    let n = if stage { a.unstaged_files.len() } else { a.staged_files.len() };
    &&& exists|count: nat| count <= n && b.status_msg@ == (if stage {
        "Staged "@
    } else {
        "Unstaged "@
    }) + decimal(count) + " files"@
    &&& files_refreshed(App { status_msg: b.status_msg, ..a }, b)
}

/// What committing does: refused with a message when the commit message is
/// blank or nothing is staged; otherwise the new commit's short id is
/// reported, the message cleared and everything reloaded, or the error
/// reported.
pub open spec fn do_commit_spec(a: App, b: App) -> bool {
    if is_blank(a.commit_message@) {
        b.status_msg@ == "Commit message cannot be empty"@ && b == (App { status_msg: b.status_msg, ..a })
    } else if a.staged_files.len() == 0 {
        b.status_msg@ == "Nothing staged to commit"@ && b == (App { status_msg: b.status_msg, ..a })
    } else {
        ||| ((exists|sha: Seq<char>| sha.len() == 7 && b.status_msg@ == "Committed: "@ + sha) && b.commit_message@.len() == 0
            && all_refreshed_any(App { status_msg: b.status_msg, commit_message: b.commit_message, ..a }, b))
        ||| (failure_msg(b.status_msg@, "Commit failed: "@) && b == (App { status_msg: b.status_msg, ..a }))
    }
}

impl App {
    /// Stages the selected unstaged file.
    pub fn stage_selected(&mut self)
        ensures
            stage_one_spec(*old(self), *final(self), true),
    {
        if self.file_pane != FilePane::Unstaged {
            return ;
        }
        if self.unstaged_selected < self.unstaged_files.len() {
            let path = self.unstaged_files[self.unstaged_selected].path.clone();
            match stage_file(&self.repo, path.as_str()) {
                Ok(()) => {
                    self.status_msg = join2("Staged: ", path.as_str());
                    let _ = self.refresh_files();
                },
                Err(e) => {
                    self.status_msg = join2("Error staging: ", e.message.as_str());
                },
            }
        }
    }

    /// Unstages the selected staged file.
    pub fn unstage_selected(&mut self)
        ensures
            stage_one_spec(*old(self), *final(self), false),
    {
        if self.file_pane != FilePane::Staged {
            return ;
        }
        if self.staged_selected < self.staged_files.len() {
            let path = self.staged_files[self.staged_selected].path.clone();
            match unstage_file(&self.repo, path.as_str()) {
                Ok(()) => {
                    self.status_msg = join2("Unstaged: ", path.as_str());
                    let _ = self.refresh_files();
                },
                Err(e) => {
                    self.status_msg = join2("Error unstaging: ", e.message.as_str());
                },
            }
        }
    }

    /// Stages every unstaged file.
    pub fn stage_all(&mut self)
        ensures
            stage_all_spec(*old(self), *final(self), true),
    {
        self.batch_file_op(true);
    }

    /// Unstages every staged file.
    pub fn unstage_all(&mut self)
        ensures
            stage_all_spec(*old(self), *final(self), false),
    {
        self.batch_file_op(false);
    }

    fn batch_file_op(&mut self, stage: bool)
        ensures
            stage_all_spec(*old(self), *final(self), stage),
    {
        let files = if stage { &self.unstaged_files } else { &self.staged_files };
        let paths = paths_of(files);
        let outcomes = apply_to_each(&self.repo, &paths, stage);
        let count = successes(&outcomes);
        let verb = if stage { "Staged " } else { "Unstaged " };
        self.status_msg = join3(verb, u64_to_string(count as u64).as_str(), " files");
        proof {
            assert(self.status_msg@ == (if stage { "Staged "@ } else { "Unstaged "@ }) + decimal(count as nat) + " files"@);
            lemma_successes_bounded(outcomes@);
        }
        let _ = self.refresh_files();
    }

    /// Commits the staged files with the commit message.
    pub fn do_commit(&mut self)
        ensures
            do_commit_spec(*old(self), *final(self)),
    {
        if str_is_blank(self.commit_message.as_str()) {
            self.status_msg = "Commit message cannot be empty".to_owned();
            return ;
        }
        if self.staged_files.len() == 0 {
            self.status_msg = "Nothing staged to commit".to_owned();
            return ;
        }
        match create_commit(&self.repo, self.commit_message.as_str()) {
            Ok(sha) => {
                self.status_msg = join2("Committed: ", sha.as_str());
                self.commit_message = String::new();
                let _ = self.refresh_all();
            },
            Err(e) => {
                self.status_msg = join2("Commit failed: ", e.message.as_str());
            },
        }
    }
}


/// What a finished network operation does to the state: on success the
/// operation's message is shown (for a fetch, "Fetched from" the remote) and
/// the affected data reloaded (remote status and commits after a fetch or a
/// push, everything after a pull); on failure the error is shown.
pub open spec fn finish_remote_spec(a: App, b: App, op: RemoteOp, result: Result<String, GitError>) -> bool {
    let base = App { pending_remote: None, ..a };
    match result {
        Ok(msg) => {
            let shown = match op {
                RemoteOp::Fetch => "Fetched from "@ + msg@,
                _ => msg@,
            };
            &&& b.status_msg@ == shown
            &&& match op {
                RemoteOp::Pull => all_refreshed_any(App { status_msg: b.status_msg, ..base }, b),
                _ => exists|mid: App| remote_reloaded(App { status_msg: b.status_msg, ..base }, mid)
                    && commits_refreshed(mid, b),
            }
        },
        Err(e) => {
            &&& b.status_msg@ == (match op {
                RemoteOp::Fetch => "Fetch failed: "@,
                RemoteOp::Push => "Push failed: "@,
                RemoteOp::Pull => "Pull failed: "@,
            }) + e.message@
            &&& b == (App { status_msg: b.status_msg, ..base })
        },
    }
}

/// A fetch asked of the front end, with a message saying so.
pub open spec fn fetch_requested(a: App, b: App) -> bool {
    b.status_msg@ == "Fetching..."@ && b == (App {
        status_msg: b.status_msg,
        pending_remote: Some(RemoteOp::Fetch),
        ..a
    })
}

/// A confirmed push or pull: the popup closes and the operation is asked of
/// the front end, with a message saying so.
pub open spec fn remote_confirmed(a: App, b: App, op: RemoteOp) -> bool {
    &&& b.status_msg@ == (if op == RemoteOp::Push { "Pushing..."@ } else { "Pulling..."@ })
    &&& b == (App { popup: Popup::Closed, status_msg: b.status_msg, pending_remote: Some(op), ..a })
}

impl App {
    /// Asks for a fetch from the current branch's upstream remote; the
    /// front end performs it and reports back through `finish_remote`.
    pub fn do_fetch(&mut self)
        ensures
            fetch_requested(*old(self), *final(self)),
    {
        self.status_msg = "Fetching...".to_owned();
        self.pending_remote = Some(RemoteOp::Fetch);
    }

    /// Confirms the push: closes the popup and asks for the push.
    pub fn confirm_push(&mut self)
        ensures
            remote_confirmed(*old(self), *final(self), RemoteOp::Push),
    {
        self.popup = Popup::Closed;
        self.status_msg = "Pushing...".to_owned();
        self.pending_remote = Some(RemoteOp::Push);
    }

    /// Confirms the pull: closes the popup and asks for the pull.
    pub fn confirm_pull(&mut self)
        ensures
            remote_confirmed(*old(self), *final(self), RemoteOp::Pull),
    {
        self.popup = Popup::Closed;
        self.status_msg = "Pulling...".to_owned();
        self.pending_remote = Some(RemoteOp::Pull);
    }

    /// Takes in the outcome of the network operation the front end
    /// performed (for a fetch, the remote's name; otherwise the message).
    pub fn finish_remote(&mut self, op: RemoteOp, result: Result<String, GitError>)
        ensures
            finish_remote_spec(*old(self), *final(self), op, result),
    {
        self.pending_remote = None;
        match result {
            Ok(msg) => {
                match op {
                    RemoteOp::Fetch => {
                        self.status_msg = join2("Fetched from ", msg.as_str());
                        self.refresh_remote_status();
                        let ghost mid = *self;
                        let _ = self.refresh_commits();
                        assert(commits_refreshed(mid, *self));
                    },
                    RemoteOp::Push => {
                        self.status_msg = msg;
                        self.refresh_remote_status();
                        let ghost mid = *self;
                        let _ = self.refresh_commits();
                        assert(commits_refreshed(mid, *self));
                    },
                    RemoteOp::Pull => {
                        self.status_msg = msg;
                        let _ = self.refresh_all();
                    },
                }
            },
            Err(e) => {
                let prefix = match op {
                    RemoteOp::Fetch => "Fetch failed: ",
                    RemoteOp::Push => "Push failed: ",
                    RemoteOp::Pull => "Pull failed: ",
                };
                self.status_msg = join2(prefix, e.message.as_str());
            },
        }
    }
}


/// What checking out the selected branch does.
pub open spec fn checkout_spec(a: App, b: App) -> bool {
    if a.branch_selected >= a.branches.len() {
        b == a
    } else {
        let br = a.branches@[a.branch_selected as int];
        if br.is_head {
            b.status_msg@ == "Already on this branch"@ && b == (App { status_msg: b.status_msg, ..a })
        } else if br.is_remote {
            b.status_msg@ == "Cannot checkout remote branch directly"@ && b == (App { status_msg: b.status_msg, ..a })
        } else {
            ||| (b.status_msg@ == "Switched to branch: "@ + br.name@ && all_refreshed_any(
                App { status_msg: b.status_msg, ..a },
                b,
            ))
            ||| (failure_msg(b.status_msg@, "Checkout failed: "@) && b == (App { status_msg: b.status_msg, ..a }))
        }
    }
}

/// What confirming the new-branch popup does: a blank name is refused;
/// otherwise the branch (named by the trimmed input) is created and the
/// branch list reloaded, or the error shown; the popup then closes and the
/// input is cleared.
pub open spec fn new_branch_spec(a: App, b: App) -> bool {
    let name = trim(a.input_buffer@);
    &&& b.popup == Popup::Closed
    &&& b.input_mode == InputMode::Normal
    &&& b.input_buffer@.len() == 0
    &&& if name.len() == 0 {
        b.status_msg@ == "Branch name cannot be empty"@ && b == (App {
            status_msg: b.status_msg,
            popup: Popup::Closed,
            input_mode: InputMode::Normal,
            input_buffer: b.input_buffer,
            ..a
        })
    } else {
        let done = App {
            status_msg: b.status_msg,
            popup: Popup::Closed,
            input_mode: InputMode::Normal,
            input_buffer: b.input_buffer,
            ..a
        };
        ||| (b.status_msg@ == "Created branch: "@ + name && branches_refreshed(done, b))
        ||| (failure_msg(b.status_msg@, "Failed to create branch: "@) && b == done)
    }
}

/// What asking to delete the selected branch does: the current branch and
/// remote branches are refused; otherwise the confirmation opens.
pub open spec fn start_delete_spec(a: App, b: App) -> bool {
    if a.branch_selected >= a.branches.len() {
        b == a
    } else {
        let br = a.branches@[a.branch_selected as int];
        if br.is_head {
            b.status_msg@ == "Cannot delete the current branch"@ && b == (App { status_msg: b.status_msg, ..a })
        } else if br.is_remote {
            b.status_msg@ == "Cannot delete remote branches from here"@ && b == (App { status_msg: b.status_msg, ..a })
        } else {
            b == (App { popup: b.popup, ..a }) && (b.popup matches Popup::ConfirmDelete(n) && n@ == br.name@)
        }
    }
}

/// What confirming a deletion does: the named branch is deleted and the
/// branch list reloaded, or the error shown; the popup closes.
pub open spec fn confirm_delete_spec(a: App, b: App) -> bool {
    match a.popup {
        Popup::ConfirmDelete(name) => {
            let done = App { status_msg: b.status_msg, popup: Popup::Closed, ..a };
            ||| (b.status_msg@ == "Deleted branch: "@ + name@ && branches_refreshed(done, b))
            ||| (failure_msg(b.status_msg@, "Delete failed: "@) && b == done)
        },
        _ => b == (App { popup: Popup::Closed, ..a }),
    }
}

/// The new-branch popup opened with an empty input.
pub open spec fn new_branch_started(a: App, b: App) -> bool {
    b.input_buffer@.len() == 0 && b == (App {
        popup: Popup::NewBranch,
        input_mode: InputMode::Editing,
        input_buffer: b.input_buffer,
        ..a
    })
}

/// What confirming the open popup does: deletes the branch, or asks for the
/// push or pull; other popups are left as they are.
pub open spec fn confirm_popup_spec(a: App, b: App) -> bool {
    match a.popup {
        Popup::ConfirmDelete(_) => confirm_delete_spec(a, b),
        Popup::ConfirmPush => remote_confirmed(a, b, RemoteOp::Push),
        Popup::ConfirmPull => remote_confirmed(a, b, RemoteOp::Pull),
        _ => b == a,
    }
}

/// The popup closed and text entry left, with the input cleared.
pub open spec fn popup_cancelled(a: App, b: App) -> bool {
    b.input_buffer@.len() == 0 && b == (App {
        popup: Popup::Closed,
        input_mode: InputMode::Normal,
        input_buffer: b.input_buffer,
        ..a
    })
}

/// Mouse capture switched, with a message that says what clicks now do.
pub open spec fn mouse_capture_toggled(a: App, b: App) -> bool {
    &&& b.mouse_capture == !a.mouse_capture
    &&& b.status_msg@ == (if b.mouse_capture {
        "Mouse capture ON \u{2014} clicks routed to UI"@
    } else {
        "Mouse capture OFF \u{2014} drag to select/copy text"@
    })
    &&& b == (App { mouse_capture: b.mouse_capture, status_msg: b.status_msg, ..a })
}

/// Auto-refresh switched, with a message; its clock restarts when it is
/// switched on.
pub open spec fn auto_refresh_toggled(a: App, b: App) -> bool {
    &&& b.auto_refresh == !a.auto_refresh
    &&& b.status_msg@ == (if b.auto_refresh { "Auto-refresh ON (2s)"@ } else { "Auto-refresh OFF"@ })
    &&& b.auto_refresh ==> b == (App {
        auto_refresh: true,
        status_msg: b.status_msg,
        last_refresh: b.last_refresh,
        ..a
    })
    &&& !b.auto_refresh ==> b == (App { auto_refresh: false, status_msg: b.status_msg, ..a })
}

impl App {
    /// Checks out the selected local branch.
    pub fn checkout_selected_branch(&mut self)
        ensures
            checkout_spec(*old(self), *final(self)),
    {
        if self.branch_selected < self.branches.len() {
            let is_head = self.branches[self.branch_selected].is_head;
            let is_remote = self.branches[self.branch_selected].is_remote;
            if is_head {
                self.status_msg = "Already on this branch".to_owned();
                return ;
            }
            if is_remote {
                self.status_msg = "Cannot checkout remote branch directly".to_owned();
                return ;
            }
            let name = self.branches[self.branch_selected].name.clone();
            match checkout_branch(&self.repo, name.as_str()) {
                Ok(()) => {
                    self.status_msg = join2("Switched to branch: ", name.as_str());
                    let _ = self.refresh_all();
                },
                Err(e) => {
                    self.status_msg = join2("Checkout failed: ", e.message.as_str());
                },
            }
        }
    }

    /// Opens the new-branch popup with an empty input.
    pub fn start_new_branch(&mut self)
        ensures
            new_branch_started(*old(self), *final(self)),
    {
        self.popup = Popup::NewBranch;
        self.input_mode = InputMode::Editing;
        self.input_buffer = String::new();
    }

    /// Creates the branch named in the popup's input.
    pub fn confirm_new_branch(&mut self)
        ensures
            new_branch_spec(*old(self), *final(self)),
    {
        let name = trim_string(self.input_buffer.as_str());
        if name.as_str().is_empty() {
            self.status_msg = "Branch name cannot be empty".to_owned();
            self.popup = Popup::Closed;
            self.input_mode = InputMode::Normal;
            self.input_buffer = String::new();
        } else {
            match create_branch(&self.repo, name.as_str()) {
                Ok(()) => {
                    self.status_msg = join2("Created branch: ", name.as_str());
                    self.popup = Popup::Closed;
                    self.input_mode = InputMode::Normal;
                    self.input_buffer = String::new();
                    let _ = self.refresh_branches();
                },
                Err(e) => {
                    self.status_msg = join2("Failed to create branch: ", e.message.as_str());
                    self.popup = Popup::Closed;
                    self.input_mode = InputMode::Normal;
                    self.input_buffer = String::new();
                },
            }
        }
    }

    /// Asks to confirm deleting the selected branch.
    pub fn start_delete_branch(&mut self)
        ensures
            start_delete_spec(*old(self), *final(self)),
    {
        if self.branch_selected < self.branches.len() {
            if self.branches[self.branch_selected].is_head {
                self.status_msg = "Cannot delete the current branch".to_owned();
                return ;
            }
            if self.branches[self.branch_selected].is_remote {
                self.status_msg = "Cannot delete remote branches from here".to_owned();
                return ;
            }
            self.popup = Popup::ConfirmDelete(self.branches[self.branch_selected].name.clone());
        }
    }

    /// Deletes the branch named in the confirmation popup.
    pub fn confirm_delete_branch(&mut self)
        ensures
            confirm_delete_spec(*old(self), *final(self)),
    {
        let target = match &self.popup {
            Popup::ConfirmDelete(name) => Some(name.clone()),
            _ => None,
        };
        self.popup = Popup::Closed;
        if let Some(name) = target {
            match delete_branch(&self.repo, name.as_str()) {
                Ok(()) => {
                    self.status_msg = join2("Deleted branch: ", name.as_str());
                    let _ = self.refresh_branches();
                },
                Err(e) => {
                    self.status_msg = join2("Delete failed: ", e.message.as_str());
                },
            }
        }
    }

    /// Confirms the open popup: deletes, or asks for the push or pull.
    pub fn confirm_popup(&mut self)
        ensures
            confirm_popup_spec(*old(self), *final(self)),
    {
        match &self.popup {
            Popup::ConfirmDelete(_) => self.confirm_delete_branch(),
            Popup::ConfirmPush => self.confirm_push(),
            Popup::ConfirmPull => self.confirm_pull(),
            _ => {},
        }
    }

    /// Closes the popup and leaves text entry.
    pub fn cancel_popup(&mut self)
        ensures
            popup_cancelled(*old(self), *final(self)),
    {
        self.popup = Popup::Closed;
        self.input_mode = InputMode::Normal;
        self.input_buffer = String::new();
    }

    /// Toggles mouse capture, so the terminal can select text for copying.
    pub fn toggle_mouse_capture(&mut self)
        ensures
            mouse_capture_toggled(*old(self), *final(self)),
    {
        self.mouse_capture = !self.mouse_capture;
        self.status_msg = if self.mouse_capture {
            "Mouse capture ON \u{2014} clicks routed to UI".to_owned()
        } else {
            "Mouse capture OFF \u{2014} drag to select/copy text".to_owned()
        };
    }

    /// Toggles the automatic refresh (restarting its clock when turned on).
    pub fn toggle_auto_refresh(&mut self)
        ensures
            auto_refresh_toggled(*old(self), *final(self)),
    {
        self.auto_refresh = !self.auto_refresh;
        if self.auto_refresh {
            self.last_refresh = instant_now();
            self.status_msg = "Auto-refresh ON (2s)".to_owned();
        } else {
            self.status_msg = "Auto-refresh OFF".to_owned();
        }
    }

    /// Reloads everything when auto-refresh is on and its interval has
    /// passed since the last reload.
    pub fn maybe_auto_refresh(&mut self)
        ensures
            exists|elapsed_ms: u128| {
                &&& is_refresh_due(old(self).auto_refresh, elapsed_ms, old(self).auto_refresh_interval)
                    ==> all_refreshed_any(*old(self), *final(self))
                &&& !is_refresh_due(old(self).auto_refresh, elapsed_ms, old(self).auto_refresh_interval)
                    ==> *final(self) == *old(self)
            },
    {
        if self.auto_refresh {
            let elapsed_ms = instant_elapsed_millis(&self.last_refresh);
            if refresh_due(self.auto_refresh, elapsed_ms, self.auto_refresh_interval) {
                let _ = self.refresh_all();
            }
            assert(is_refresh_due(old(self).auto_refresh, elapsed_ms, old(self).auto_refresh_interval) ==> all_refreshed_any(*old(self), *self));
        } else {
            assert(!is_refresh_due(old(self).auto_refresh, 0, old(self).auto_refresh_interval));
        }
    }

    /// Creates the application state for a repository and loads everything
    /// from it.
    pub fn new(repo: git2::Repository) -> (r: Result<App, GitError>)
        ensures
            r matches Ok(app) ==> {
                &&& app.tab == Tab::Graph
                &&& app.running
                &&& app.status_msg@.len() == 0
                &&& app.popup == Popup::Closed
                &&& app.input_mode == InputMode::Normal
                &&& app.input_buffer@.len() == 0
                &&& app.commit_scroll == 0
                &&& app.commit_selected == 0
                &&& app.file_pane == FilePane::Unstaged
                &&& app.staged_selected == 0
                &&& app.unstaged_selected == 0
                &&& app.commit_message@.len() == 0
                &&& app.diff_scroll == 0
                &&& app.diff_total_lines == line_count(app.diff_text@)
                &&& app.diff_area is None
                &&& app.branch_selected == 0
                &&& !app.auto_refresh
                &&& app.auto_refresh_interval == AUTO_REFRESH_INTERVAL_MS
                &&& app.click_regions@.len() == 0
                &&& app.mouse_capture
                &&& app.pending_remote is None
                &&& branches_sorted(app.branches@)
                &&& app.graph_lanes.len() == app.commits.len()
                &&& forall|k: int| 0 <= k < app.commits.len() ==> lane_row_is(#[trigger] app.graph_lanes@[k], app.commits@, k)
            },
    {
        let mut app = App {
            repo,
            tab: Tab::Graph,
            running: true,
            status_msg: String::new(),
            popup: Popup::Closed,
            input_mode: InputMode::Normal,
            input_buffer: String::new(),
            commits: Vec::new(),
            commit_scroll: 0,
            commit_selected: 0,
            graph_lanes: Vec::new(),
            current_branch: String::new(),
            staged_files: Vec::new(),
            unstaged_files: Vec::new(),
            file_pane: FilePane::Unstaged,
            staged_selected: 0,
            unstaged_selected: 0,
            commit_message: String::new(),
            diff_text: String::new(),
            diff_scroll: 0,
            diff_total_lines: 0,
            diff_area: None,
            branches: Vec::new(),
            branch_selected: 0,
            remote_status: no_remote_status(),
            remote_url: None,
            auto_refresh: false,
            auto_refresh_interval: AUTO_REFRESH_INTERVAL_MS,
            last_refresh: instant_now(),
            click_regions: Vec::new(),
            mouse_capture: true,
            pending_remote: None,
        };
        match app.refresh_all() {
            Ok(()) => Ok(app),
            Err(e) => Err(e),
        }
    }
}


/// The action of the last recorded region that holds the cell (col, row):
/// regions drawn later lie on top.
pub open spec fn last_hit(regions: Seq<ClickRegion>, col: int, row: int) -> Option<ClickAction>
    decreases regions.len(),
{
    if regions.len() == 0 {
        None
    } else if rect_contains(regions.last().rect, col, row) {
        Some(regions.last().action)
    } else {
        last_hit(regions.drop_last(), col, row)
    }
}

/// What a click on a region with the given action does.
pub open spec fn dispatch_spec(a: App, b: App, action: ClickAction) -> bool {
    match action {
        ClickAction::SelectTab(t) => b == (App { tab: t, ..a }),
        ClickAction::SelectCommit(i) => b == (App { commit_selected: i, ..a }),
        ClickAction::SelectUnstagedFile(i) => diff_updated(
            App { unstaged_selected: i, file_pane: FilePane::Unstaged, ..a },
            b,
        ),
        ClickAction::SelectStagedFile(i) => diff_updated(
            App { staged_selected: i, file_pane: FilePane::Staged, ..a },
            b,
        ),
        ClickAction::FocusCommitMsg => b == (App {
            file_pane: FilePane::CommitMsg,
            input_mode: InputMode::Editing,
            ..a
        }),
        ClickAction::SelectBranch(i) => b == (App { branch_selected: i, ..a }),
        ClickAction::PushButton => b == (App { popup: Popup::ConfirmPush, ..a }),
        ClickAction::PullButton => b == (App { popup: Popup::ConfirmPull, ..a }),
        ClickAction::RefreshButton => b.status_msg@ == "Refreshed"@ && exists|mid: App|
            all_refreshed_any(a, mid) && b == (App { status_msg: b.status_msg, ..mid }),
        ClickAction::StageAllButton => stage_all_spec(a, b, true),
        ClickAction::UnstageAllButton => stage_all_spec(a, b, false),
        ClickAction::CommitButton => do_commit_spec(a, b),
        ClickAction::NewBranchButton => new_branch_started(a, b),
        ClickAction::FetchButton => fetch_requested(a, b),
    }
}

/// What a click at (col, row) does, and whether it hit a region.
pub open spec fn click_spec(a: App, b: App, col: int, row: int, hit: bool) -> bool {
    match last_hit(a.click_regions@, col, row) {
        Some(action) => hit && dispatch_spec(a, b, action),
        None => !hit && b == a,
    }
}

impl App {
    /// Handles a click at (col, row): the topmost region there (the last
    /// one recorded) has its action performed; returns whether there was one.
    pub fn handle_click(&mut self, col: u16, row: u16) -> (hit: bool)
        requires
            files_nul_free(*old(self)),
        ensures
            click_spec(*old(self), *final(self), col as int, row as int, hit),
    {
        let mut i: usize = self.click_regions.len();
        let mut found: Option<ClickAction> = None;
        assert(self.click_regions@.take(i as int) =~= self.click_regions@);
        loop
            invariant_except_break
                i <= self.click_regions.len(),
                found is None,
                last_hit(self.click_regions@, col as int, row as int) == last_hit(
                    self.click_regions@.take(i as int),
                    col as int,
                    row as int,
                ),
            ensures
                found == last_hit(self.click_regions@, col as int, row as int),
            decreases i,
        {
            if i == 0 {
                assert(self.click_regions@.take(0) =~= Seq::<ClickRegion>::empty());
                break;
            }
            let region = &self.click_regions[i - 1];
            assert(self.click_regions@.take(i as int).drop_last() =~= self.click_regions@.take(i - 1));
            if contains(&region.rect, col, row) {
                found = Some(region.action);
                break;
            }
            i = i - 1;
        }
        match found {
            Some(action) => {
                self.dispatch_click(action);
                true
            },
            None => false,
        }
    }

    /// Performs the action of a clicked region (`dispatch_spec`).
    pub fn dispatch_click(&mut self, action: ClickAction)
        requires
            files_nul_free(*old(self)),
        ensures
            dispatch_spec(*old(self), *final(self), action),
    {
        match action {
            ClickAction::SelectTab(tab) => self.tab = tab,
            ClickAction::SelectCommit(idx) => self.commit_selected = idx,
            ClickAction::SelectUnstagedFile(idx) => {
                self.unstaged_selected = idx;
                self.file_pane = FilePane::Unstaged;
                self.update_diff();
            },
            ClickAction::SelectStagedFile(idx) => {
                self.staged_selected = idx;
                self.file_pane = FilePane::Staged;
                self.update_diff();
            },
            ClickAction::FocusCommitMsg => {
                self.file_pane = FilePane::CommitMsg;
                self.input_mode = InputMode::Editing;
            },
            ClickAction::SelectBranch(idx) => self.branch_selected = idx,
            ClickAction::PushButton => self.start_push(),
            ClickAction::PullButton => self.start_pull(),
            ClickAction::RefreshButton => {
                let ghost a = *self;
                let _ = self.refresh_all();
                let ghost mid = *self;
                assert(all_refreshed_any(a, mid));
                self.status_msg = "Refreshed".to_owned();
                assert(*self == (App { status_msg: self.status_msg, ..mid }));
            },
            ClickAction::StageAllButton => self.stage_all(),
            ClickAction::UnstageAllButton => self.unstage_all(),
            ClickAction::CommitButton => self.do_commit(),
            ClickAction::NewBranchButton => self.start_new_branch(),
            ClickAction::FetchButton => self.do_fetch(),
        }
    }
}

/// The tabs form a cycle: the previous tab of the next is the tab itself,
/// and so is the next of the previous; three steps come back round; each
/// tab has its own index.
pub proof fn law_tab_cycle(t: Tab, u: Tab)
    ensures
        prev_tab_of(next_tab_of(t)) == t,
        next_tab_of(prev_tab_of(t)) == t,
        next_tab_of(next_tab_of(next_tab_of(t))) == t,
        tab_index(t) < 3,
        tab_index(t) == tab_index(u) ==> t == u,
{
}

/// Toggling mouse capture twice restores it (and only the message differs).
pub proof fn law_mouse_capture_toggle_twice(a: App, b: App, c: App)
    requires
        mouse_capture_toggled(a, b),
        mouse_capture_toggled(b, c),
    ensures
        c == (App { status_msg: c.status_msg, ..a }),
{
}

/// Toggling auto-refresh twice restores it.
pub proof fn law_auto_refresh_toggle_twice(a: App, b: App, c: App)
    requires
        auto_refresh_toggled(a, b),
        auto_refresh_toggled(b, c),
    ensures
        c.auto_refresh == a.auto_refresh,
{
}

/// Scrolling the diff down never goes past the point where its last
/// `visible` lines fill the panel, unless it was already further.
pub proof fn law_scroll_down_bounded(scroll: usize, amount: usize, total: usize, visible: usize)
    ensures
        min_int(scroll + amount, sat_sub(total, visible) as int) <= sat_sub(total, visible),
        min_int(scroll + amount, sat_sub(total, visible) as int) >= 0,
{
}

/// A selection kept within its list by a reload is in the list (or 0 for an
/// empty list).
pub proof fn law_clamped_selection_in_list(sel: usize, len: nat)
    requires
        len <= usize::MAX,
    ensures
        in_list(clamp_sel(sel, len), len),
        sel < len ==> clamp_sel(sel, len) == sel,
{
}

/// Moving a selection up or down keeps it in its list.
pub proof fn law_moves_stay_in_list(sel: usize, len: nat)
    requires
        in_list(sel, len),
    ensures
        in_list(sat_sub(sel, 1), len),
        in_list(step_down(sel, len), len),
{
}

/// Moving down reaches the next item of the current list whenever there is
/// one, the last item included, and stays put on the last item: the
/// selection `sel` of a list of `len` items becomes `sel + 1` when
/// `sel + 1 < len`, and stays `sel` otherwise. The other selections and the
/// tab are untouched.
pub proof fn law_down_reaches_next_item(a: App, b: App)
    requires
        select_down_spec(a, b),
    ensures
        b.tab == a.tab,
        a.tab == Tab::Graph ==> {
            &&& a.commit_selected + 1 < a.commits.len() ==> b.commit_selected == a.commit_selected + 1
            &&& a.commit_selected + 1 >= a.commits.len() ==> b.commit_selected == a.commit_selected
            &&& b.branch_selected == a.branch_selected
        },
        a.tab == Tab::Branches ==> {
            &&& a.branch_selected + 1 < a.branches.len() ==> b.branch_selected == a.branch_selected + 1
            &&& a.branch_selected + 1 >= a.branches.len() ==> b.branch_selected == a.branch_selected
            &&& b.commit_selected == a.commit_selected
        },
        a.tab == Tab::Files && a.file_pane == FilePane::Unstaged ==> {
            &&& a.unstaged_selected + 1 < a.unstaged_files.len() ==> b.unstaged_selected == a.unstaged_selected + 1
            &&& a.unstaged_selected + 1 >= a.unstaged_files.len() ==> b.unstaged_selected == a.unstaged_selected
            &&& b.staged_selected == a.staged_selected
        },
        a.tab == Tab::Files && a.file_pane == FilePane::Staged ==> {
            &&& a.staged_selected + 1 < a.staged_files.len() ==> b.staged_selected == a.staged_selected + 1
            &&& a.staged_selected + 1 >= a.staged_files.len() ==> b.staged_selected == a.staged_selected
            &&& b.unstaged_selected == a.unstaged_selected
        },
{
}

/// After any successful reload of everything, every selection lies in its
/// list.
pub proof fn law_refresh_keeps_selections_in_lists(a: App, b: App)
    requires
        all_refreshed(a, b, true),
    ensures
        in_list(b.branch_selected, b.branches.len() as nat),
        in_list(b.commit_selected, b.commits.len() as nat),
        in_list(b.staged_selected, b.staged_files.len() as nat),
        in_list(b.unstaged_selected, b.unstaged_files.len() as nat),
{
}

/// Clicking a cell covered by the most recently recorded region performs
/// that region's action, whatever lies under it.
pub proof fn law_topmost_region_wins(regions: Seq<ClickRegion>, r: ClickRegion, col: int, row: int)
    requires
        rect_contains(r.rect, col, row),
    ensures
        last_hit(regions.push(r), col, row) == Some(r.action),
{
    assert(regions.push(r).last() == r);
}

/// A click where no recorded region lies does nothing.
pub proof fn law_click_outside_regions(a: App, b: App, col: int, row: int, hit: bool)
    requires
        forall|i: int| 0 <= i < a.click_regions.len() ==> !rect_contains(#[trigger] a.click_regions@[i].rect, col, row),
        click_spec(a, b, col, row, hit),
    ensures
        !hit,
        b == a,
{
    lemma_no_hit(a.click_regions@, col, row);
}

proof fn lemma_no_hit(regions: Seq<ClickRegion>, col: int, row: int)
    requires
        forall|i: int| 0 <= i < regions.len() ==> !rect_contains(#[trigger] regions[i].rect, col, row),
    ensures
        last_hit(regions, col, row) is None,
    decreases regions.len(),
{
    if regions.len() > 0 {
        assert(!rect_contains(regions[regions.len() - 1].rect, col, row));
        let rest = regions.drop_last();
        assert forall|i: int| 0 <= i < rest.len() implies !rect_contains(#[trigger] rest[i].rect, col, row) by {
            assert(rest[i] == regions[i]);
        }
        lemma_no_hit(rest, col, row);
    }
}

/// Once the front end reports the outcome of a network operation, nothing
/// is pending any more, whatever the outcome.
pub proof fn law_finish_clears_pending(a: App, b: App, op: RemoteOp, result: Result<String, GitError>)
    requires
        finish_remote_spec(a, b, op, result),
    ensures
        b.pending_remote is None,
{
    let base = App { pending_remote: None, ..a };
    match result {
        Ok(msg) => match op {
            RemoteOp::Pull => {},
            _ => {
                let mid = choose|mid: App| remote_reloaded(App { status_msg: b.status_msg, ..base }, mid)
                    && commits_refreshed(mid, b);
                assert(mid.pending_remote is None);
            },
        },
        Err(_) => {},
    }
}

/// Confirming a delete, push or pull confirmation always closes it.
pub proof fn law_confirm_closes_popup(a: App, b: App)
    requires
        a.popup is ConfirmDelete || a.popup is ConfirmPush || a.popup is ConfirmPull,
        confirm_popup_spec(a, b),
    ensures
        b.popup == Popup::Closed,
{
}

/// What a click on a region does to the state, by the region's action:
/// the tab, commit or branch it names is selected; a file is selected in
/// its pane, which gets the focus; the commit message box takes the focus
/// for typing; the push and pull buttons open their confirmations.
pub proof fn law_click_effects(a: App, b: App, action: ClickAction)
    requires
        dispatch_spec(a, b, action),
    ensures
        action matches ClickAction::SelectTab(t) ==> b.tab == t,
        action matches ClickAction::SelectCommit(i) ==> b.commit_selected == i,
        action matches ClickAction::SelectUnstagedFile(i) ==> b.unstaged_selected == i && b.file_pane
            == FilePane::Unstaged,
        action matches ClickAction::SelectStagedFile(i) ==> b.staged_selected == i && b.file_pane
            == FilePane::Staged,
        action is FocusCommitMsg ==> b.file_pane == FilePane::CommitMsg && b.input_mode == InputMode::Editing,
        action matches ClickAction::SelectBranch(i) ==> b.branch_selected == i,
        action is PushButton ==> b.popup == Popup::ConfirmPush,
        action is PullButton ==> b.popup == Popup::ConfirmPull,
{
}

} // verus!
