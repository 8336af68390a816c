use vstd::prelude::*;
use vstd::multiset::Multiset;
use crate::git::{repo_discover, error_text, repo_head, reference_target, reference_shorthand, reference_peel_to_commit, reference_peel_to_tree, reference_name_bytes, oid_to_hex, repo_revwalk, revwalk_set_sorting, revwalk_push_head, revwalk_push_hex, revwalk_next, walk_starts, walk_sorting, walk_exhausted, repo_branches, branch_name, branch_reference, branch_is_head, branch_upstream, branch_delete, repo_find_commit, commit_message, commit_author, signature_name, commit_time_seconds, commit_parent_ids, commit_as_object, commit_tree, tree_as_object, repo_statuses, repo_index, index_add_path, index_remove_path, index_write, index_write_tree, repo_reset_default, repo_find_tree, repo_signature, signature_now, repo_commit, repo_branch, repo_revparse_ext, repo_checkout_tree, repo_set_head_bytes, repo_reference, repo_find_local_branch, repo_diff_tree_to_index, repo_diff_index_to_workdir, diff_print_lines, repo_find_remote, remote_url, repo_graph_ahead_behind};
use crate::text::{join2, join3, first_line, first_line_of, u64_to_string, decimal, string_push, str_eq, before_char, find_char, from_chars, lemma_before_char_range, to_chars, lex_lt, lemma_lex_lt_transitive, lemma_lex_lt_irreflexive, str_lt};

verus! {

/// An error from a repository operation, carrying the text it is shown with.
#[derive(Clone, Debug)]
pub struct GitError {
    pub message: String,
}

/// An error with the given text.
pub fn error_with(message: &str) -> (e: GitError)
    ensures
        e.message@ == message@,
{
    GitError { message: message.to_owned() }
}

/// A file's status in the working tree.
#[derive(Clone, Debug)]
pub struct FileStatus {
    pub path: String,
    pub status: FileState,
}

#[derive(Clone, Copy, Debug, PartialEq, Eq, Structural)]
pub enum FileState {
    New,
    Modified,
    Deleted,
    Renamed,
    Typechange,
    Conflicted,
}

/// A branch.
#[derive(Clone, Debug)]
pub struct BranchInfo {
    pub name: String,
    pub is_head: bool,
    pub is_remote: bool,
    pub upstream: Option<String>,
    pub commit_id: String,
}

/// Extracts the remote name from an upstream ref like "origin/main" (giving
/// "origin"): the text before the first `/`, or all of it.
pub fn parse_remote_name(upstream_name: &str) -> (r: String)
    ensures
        r@ == before_char(upstream_name@, '/'),
{
    let v = to_chars(upstream_name);
    let n = v.len();
    let i = find_char(&v, '/', 0, n);
    proof {
        lemma_before_char_range(v@, '/', 0, i as int, n as int);
        assert(v@.subrange(0, n as int) =~= v@);
    }
    from_chars(&v, 0, i)
}

/// The short form of an object id: its first seven characters.
pub open spec fn short_sha(hex: Seq<char>) -> Seq<char> {
    if hex.len() <= 7 {
        hex
    } else {
        hex.take(7)
    }
}

pub fn short_sha_of(hex: &str) -> (r: String)
    ensures
        r@ == short_sha(hex@),
{
    let v = to_chars(hex);
    let n = v.len();
    if n <= 7 {
        assert(v@.subrange(0, n as int) =~= v@);
        from_chars(&v, 0, n)
    } else {
        assert(v@.subrange(0, 7) =~= v@.take(7));
        from_chars(&v, 0, 7)
    }
}

/// How far two commits have moved apart: the commits only the local one
/// has (`ahead`) and those only the upstream one has (`behind`).
#[derive(Clone, Copy, Debug, PartialEq, Eq, Structural)]
pub struct AheadBehind {
    pub ahead: usize,
    pub behind: usize,
}

/// Remote tracking info (ahead/behind counts).
#[derive(Clone, Debug, Default)]
pub struct RemoteStatus {
    pub ahead: usize,
    pub behind: usize,
    pub remote_name: Option<String>,
    pub upstream_branch: Option<String>,
}

/// A single commit in the log.
#[derive(Clone, Debug)]
pub struct CommitInfo {
    /// short SHA
    pub id: String,
    /// full SHA
    pub id_full: String,
    /// first line of the commit message
    pub message: String,
    pub author: String,
    /// unix timestamp
    pub time: i64,
    pub parents: Vec<String>,
    pub branches: Vec<String>,
    pub is_head: bool,
}

/// Graph lane assignment for one commit row.
#[derive(Clone, Debug)]
pub struct GraphLane {
    pub lane: usize,
    pub active_lanes: Vec<bool>,
    pub merge_from: Option<usize>,
}

/// The lanes of the graph, each either expecting a commit id or closed.
pub type LaneState = Seq<Option<Seq<char>>>;

pub open spec fn commit_id(c: CommitInfo) -> Seq<char> {
    c.id@
}

pub open spec fn commit_parents(c: CommitInfo) -> Seq<Seq<char>> {
    c.parents@.map_values(|p: String| p@)
}

/// The lowest lane that expects `id`, or -1 when no lane does.
pub open spec fn position_of(lanes: LaneState, id: Seq<char>) -> int {
    if exists|i: int| is_first_lane_with(lanes, id, i) {
        choose|i: int| is_first_lane_with(lanes, id, i)
    } else {
        -1
    }
}

pub open spec fn is_first_lane_with(lanes: LaneState, id: Seq<char>, i: int) -> bool {
    &&& 0 <= i < lanes.len()
    &&& lanes[i] == Some(id)
    &&& forall|j: int| 0 <= j < i ==> lanes[j] != Some(id)
}

/// The lane a commit is drawn in: the lowest lane expecting it, or a new
/// lane appended at the right.
pub open spec fn own_lane(lanes: LaneState, id: Seq<char>) -> int {
    let p = position_of(lanes, id);
    if p >= 0 { p } else { lanes.len() as int }
}

/// Lanes after the commit has taken its lane (a fresh lane is appended when needed).
pub open spec fn lanes_with_own(lanes: LaneState, id: Seq<char>) -> LaneState {
    if position_of(lanes, id) >= 0 { lanes } else { lanes.push(None) }
}

/// Lanes after one commit row: the commit's lane now expects its first
/// parent (or closes), and a merge's second parent gets a lane.
pub open spec fn lanes_after_commit(lanes: LaneState, id: Seq<char>, parents: Seq<Seq<char>>) -> LaneState {
    let l1 = lanes_with_own(lanes, id);
    let my = own_lane(lanes, id);
    if parents.len() == 0 {
        l1.update(my, None)
    } else if parents.len() == 1 {
        l1.update(my, Some(parents[0]))
    } else {
        let l2 = l1.update(my, Some(parents[0]));
        if position_of(l2, parents[1]) >= 0 { l2 } else { l2.push(Some(parents[1])) }
    }
}

/// The lane a merge commit's second parent is joined from.
pub open spec fn merge_lane(lanes: LaneState, id: Seq<char>, parents: Seq<Seq<char>>) -> Option<int> {
    if parents.len() < 2 {
        None
    } else {
        let l2 = lanes_with_own(lanes, id).update(own_lane(lanes, id), Some(parents[0]));
        let q = position_of(l2, parents[1]);
        if q >= 0 { Some(q) } else { Some(l2.len() as int) }
    }
}

/// The lane state before row `k` of the commit list.
pub open spec fn lanes_before(commits: Seq<CommitInfo>, k: int) -> LaneState
    decreases k,
{
    if k <= 0 {
        Seq::empty()
    } else {
        let c = commits[k - 1];
        lanes_after_commit(lanes_before(commits, k - 1), commit_id(c), commit_parents(c))
    }
}

pub open spec fn active_of(lanes: LaneState) -> Seq<bool> {
    lanes.map_values(|l: Option<Seq<char>>| l is Some)
}

/// Row `k` of the graph: (lane, active lanes, merge source).
pub open spec fn row_lane(commits: Seq<CommitInfo>, k: int) -> int {
    own_lane(lanes_before(commits, k), commit_id(commits[k]))
}

pub open spec fn row_active(commits: Seq<CommitInfo>, k: int) -> Seq<bool> {
    active_of(lanes_before(commits, k + 1))
}

pub open spec fn row_merge(commits: Seq<CommitInfo>, k: int) -> Option<int> {
    merge_lane(lanes_before(commits, k), commit_id(commits[k]), commit_parents(commits[k]))
}

pub open spec fn opt_usize_view(o: Option<usize>) -> Option<int> {
    match o {
        Some(v) => Some(v as int),
        None => None,
    }
}

pub open spec fn lane_row_is(g: GraphLane, commits: Seq<CommitInfo>, k: int) -> bool {
    &&& g.lane == row_lane(commits, k)
    &&& g.active_lanes@ == row_active(commits, k)
    &&& opt_usize_view(g.merge_from) == row_merge(commits, k)
}

pub open spec fn lanes_view(lanes: Seq<Option<String>>) -> LaneState {
    lanes.map_values(|l: Option<String>| match l {
        Some(s) => Some(s@),
        None => None,
    })
}

proof fn lemma_position_found(lanes: LaneState, id: Seq<char>, i: int)
    requires
        is_first_lane_with(lanes, id, i),
    ensures
        position_of(lanes, id) == i,
{
    let c = choose|c: int| is_first_lane_with(lanes, id, c);
    assert(is_first_lane_with(lanes, id, c));
    if c < i {
        assert(lanes[c] != Some(id));
    } else if c > i {
        assert(lanes[i] != Some(id));
    }
}

proof fn lemma_position_absent(lanes: LaneState, id: Seq<char>)
    requires
        forall|j: int| 0 <= j < lanes.len() ==> lanes[j] != Some(id),
    ensures
        position_of(lanes, id) == -1,
{
}

proof fn lemma_position_bounds(lanes: LaneState, id: Seq<char>)
    ensures
        -1 <= position_of(lanes, id) < lanes.len(),
        position_of(lanes, id) >= 0 ==> lanes[position_of(lanes, id)] == Some(id),
{
    if exists|i: int| is_first_lane_with(lanes, id, i) {
        let c = choose|c: int| is_first_lane_with(lanes, id, c);
        assert(is_first_lane_with(lanes, id, c));
    }
}

/// Facts about one step of the lane state, used by the laws below.
proof fn lemma_step_facts(lanes: LaneState, id: Seq<char>, parents: Seq<Seq<char>>)
    ensures
        ({
            let after = lanes_after_commit(lanes, id, parents);
            let my = own_lane(lanes, id);
            &&& lanes.len() <= after.len() <= lanes.len() + 2
            &&& 0 <= my < after.len()
            &&& (parents.len() == 0 ==> after[my] is None)
            &&& (parents.len() > 0 ==> after[my] == Some(parents[0]))
            &&& (merge_lane(lanes, id, parents) is Some <==> parents.len() >= 2)
            &&& (merge_lane(lanes, id, parents) matches Some(m) ==> 0 <= m < after.len() && after[m]
                == Some(parents[1]))
            &&& forall|j: int| 0 <= j < lanes.len() && lanes[j] is None ==> after[j] is None
        }),
{
    lemma_position_bounds(lanes, id);
    let l1 = lanes_with_own(lanes, id);
    let my = own_lane(lanes, id);
    if parents.len() >= 2 {
        let l2 = l1.update(my, Some(parents[0]));
        lemma_position_bounds(l2, parents[1]);
    }
}

/// The lanes of the rows so far: their number never shrinks, and a row adds
/// at most two.
proof fn lemma_width_step(commits: Seq<CommitInfo>, k: int)
    requires
        0 <= k < commits.len(),
    ensures
        lanes_before(commits, k).len() <= lanes_before(commits, k + 1).len() <= lanes_before(
            commits,
            k,
        ).len() + 2,
{
    lemma_step_facts(lanes_before(commits, k), commit_id(commits[k]), commit_parents(commits[k]));
}

/// Every row of the graph is well formed: the commit's lane and the merge
/// source lie within the row's lanes; the commit's lane stays open exactly
/// when the commit has a parent, and then expects its first parent; a merge
/// source is given exactly for commits with two or more parents, and that
/// lane is open.
pub proof fn law_row_well_formed(commits: Seq<CommitInfo>, k: int)
    requires
        0 <= k < commits.len(),
    ensures
        0 <= row_lane(commits, k) < row_active(commits, k).len(),
        row_active(commits, k)[row_lane(commits, k)] <==> commit_parents(commits[k]).len() > 0,
        commit_parents(commits[k]).len() > 0 ==> lanes_before(commits, k + 1)[row_lane(commits, k)]
            == Some(commit_parents(commits[k])[0]),
        row_merge(commits, k) is Some <==> commit_parents(commits[k]).len() >= 2,
        row_merge(commits, k) matches Some(m) ==> 0 <= m < row_active(commits, k).len()
            && row_active(commits, k)[m],
{
    lemma_step_facts(lanes_before(commits, k), commit_id(commits[k]), commit_parents(commits[k]));
}

/// A commit either lands in the lowest lane already expecting it, or, when
/// no lane expects it, in a brand new lane appended at the right.
pub proof fn law_lane_expected_or_fresh(commits: Seq<CommitInfo>, k: int)
    requires
        0 <= k < commits.len(),
    ensures
        ({
            let before = lanes_before(commits, k);
            let l = row_lane(commits, k);
            let id = commit_id(commits[k]);
            ||| (0 <= l < before.len() && before[l] == Some(id) && forall|j: int|
                0 <= j < l ==> before[j] != Some(id))
            ||| (l == before.len() && forall|j: int| 0 <= j < before.len() ==> before[j] != Some(id))
        }),
{
    let before = lanes_before(commits, k);
    let id = commit_id(commits[k]);
    lemma_position_bounds(before, id);
    if position_of(before, id) >= 0 {
        let c = choose|c: int| is_first_lane_with(before, id, c);
        assert(is_first_lane_with(before, id, c));
    } else {
        assert forall|j: int| 0 <= j < before.len() implies before[j] != Some(id) by {
            if before[j] == Some(id) {
                lemma_first_exists(before, id, j);
            }
        }
    }
}

proof fn lemma_first_exists(lanes: LaneState, id: Seq<char>, j: int)
    requires
        0 <= j < lanes.len(),
        lanes[j] == Some(id),
    ensures
        position_of(lanes, id) >= 0,
    decreases j,
{
    if forall|i: int| 0 <= i < j ==> lanes[i] != Some(id) {
        assert(is_first_lane_with(lanes, id, j));
        lemma_position_found(lanes, id, j);
    } else {
        let i = choose|i: int| 0 <= i < j && lanes[i] == Some(id);
        lemma_first_exists(lanes, id, i);
    }
}

/// The number of lanes never shrinks from one row to a later one.
pub proof fn law_width_never_shrinks(commits: Seq<CommitInfo>, k1: int, k2: int)
    requires
        0 <= k1 <= k2 < commits.len(),
    ensures
        row_active(commits, k1).len() <= row_active(commits, k2).len(),
        row_active(commits, k2).len() <= row_active(commits, k1).len() + 2 * (k2 - k1),
    decreases k2 - k1,
{
    if k1 < k2 {
        law_width_never_shrinks(commits, k1, k2 - 1);
        lemma_width_step(commits, k2);
    }
}

/// Once a lane closes it is never reopened: a lane that is inactive in one
/// row stays inactive in every later row.
pub proof fn law_closed_lane_stays_closed(commits: Seq<CommitInfo>, k1: int, k2: int, j: int)
    requires
        0 <= k1 <= k2 < commits.len(),
        0 <= j < row_active(commits, k1).len(),
        !row_active(commits, k1)[j],
    ensures
        j < row_active(commits, k2).len(),
        !row_active(commits, k2)[j],
    decreases k2 - k1,
{
    if k1 < k2 {
        law_closed_lane_stays_closed(commits, k1, k2 - 1, j);
        lemma_step_facts(
            lanes_before(commits, k2),
            commit_id(commits[k2]),
            commit_parents(commits[k2]),
        );
    }
}

/// A merge is drawn between two different lanes: the lane its second parent
/// comes from is not the commit's own lane (which now expects the first
/// parent), unless the two parents are the same commit.
pub proof fn law_merge_joins_another_lane(commits: Seq<CommitInfo>, k: int)
    requires
        0 <= k < commits.len(),
        commit_parents(commits[k]).len() >= 2,
        commit_parents(commits[k])[0] != commit_parents(commits[k])[1],
    ensures
        row_merge(commits, k) matches Some(m) && m != row_lane(commits, k),
{
    let lanes = lanes_before(commits, k);
    let id = commit_id(commits[k]);
    let parents = commit_parents(commits[k]);
    lemma_position_bounds(lanes, id);
    let l2 = lanes_with_own(lanes, id).update(own_lane(lanes, id), Some(parents[0]));
    lemma_position_bounds(l2, parents[1]);
}

/// Whether lane `j` is waiting for a merge's second parent `p2` once the
/// commit has taken its lane `my` (which then expects the first parent
/// `p1`): among the `width` lanes the row starts from, `j` is the commit's
/// own lane and the parents are the same, or another lane that expected
/// `p2` before the row.
pub open spec fn waits_for_second(before: LaneState, my: int, width: int, p1: Seq<char>, p2: Seq<char>, j: int) -> bool {
    &&& 0 <= j < width
    &&& (j == my ==> p1 == p2)
    &&& (j != my ==> before[j] == Some(p2))
}

/// How many lanes a row starts from: those before it, and one more when the
/// commit's lane `my` is a new one at the right.
pub open spec fn start_width(before: LaneState, my: int) -> int {
    if my < before.len() {
        before.len() as int
    } else {
        before.len() as int + 1
    }
}

/// The lanes once a merge commit has its lane set to its first parent: a
/// lane there expects the second parent exactly when it waits for it.
proof fn lemma_lanes_with_first_parent(before: LaneState, id: Seq<char>, p1: Seq<char>, p2: Seq<char>)
    ensures
        ({
            let my = own_lane(before, id);
            let width = start_width(before, my);
            let l2 = lanes_with_own(before, id).update(my, Some(p1));
            &&& l2.len() == width
            &&& forall|j: int| 0 <= j < width ==> (l2[j] == Some(p2) <==> #[trigger] waits_for_second(before, my, width, p1, p2, j))
        }),
{
    let my = own_lane(before, id);
    let width = start_width(before, my);
    lemma_position_bounds(before, id);
    let l1 = lanes_with_own(before, id);
    let l2 = l1.update(my, Some(p1));
    assert forall|j: int| 0 <= j < width implies (l2[j] == Some(p2) <==> #[trigger] waits_for_second(before, my, width, p1, p2, j)) by {
        if j != my {
            assert(j < before.len());
            assert(l1[j] == before[j]);
        }
    }
}

/// A merge joins the lane already waiting for its second parent: when some
/// lane waits for it, the merge line comes from the lowest such lane and the
/// row opens no column; only when none waits is one new column opened, at
/// the right, and the merge drawn from it.
pub proof fn law_merge_reuses_waiting_lane(commits: Seq<CommitInfo>, k: int)
    requires
        0 <= k < commits.len(),
        commit_parents(commits[k]).len() >= 2,
    ensures
        ({
            let before = lanes_before(commits, k);
            let my = row_lane(commits, k);
            let width = start_width(before, my);
            let ps = commit_parents(commits[k]);
            &&& forall|q: int|
                #[trigger] waits_for_second(before, my, width, ps[0], ps[1], q) && (forall|j: int|
                    0 <= j < q ==> !waits_for_second(before, my, width, ps[0], ps[1], j)) ==> row_merge(commits, k)
                    == Some(q) && row_active(commits, k).len() == width
            &&& (forall|j: int| !waits_for_second(before, my, width, ps[0], ps[1], j)) ==> row_merge(commits, k)
                == Some(width) && row_active(commits, k).len() == width + 1
        }),
{
    let before = lanes_before(commits, k);
    let id = commit_id(commits[k]);
    let ps = commit_parents(commits[k]);
    let my = own_lane(before, id);
    let width = start_width(before, my);
    let l2 = lanes_with_own(before, id).update(my, Some(ps[0]));
    lemma_lanes_with_first_parent(before, id, ps[0], ps[1]);
    assert(lanes_before(commits, k + 1) == lanes_after_commit(before, id, ps));
    assert forall|q: int|
        #[trigger] waits_for_second(before, my, width, ps[0], ps[1], q) && (forall|j: int|
            0 <= j < q ==> !waits_for_second(before, my, width, ps[0], ps[1], j)) implies row_merge(commits, k)
            == Some(q) && row_active(commits, k).len() == width by {
        assert forall|j: int| 0 <= j < q implies l2[j] != Some(ps[1]) by {
            assert(!waits_for_second(before, my, width, ps[0], ps[1], j));
        }
        assert(is_first_lane_with(l2, ps[1], q));
        lemma_position_found(l2, ps[1], q);
    }
    if forall|j: int| !waits_for_second(before, my, width, ps[0], ps[1], j) {
        assert forall|j: int| 0 <= j < l2.len() implies l2[j] != Some(ps[1]) by {
            assert(!waits_for_second(before, my, width, ps[0], ps[1], j));
        }
        lemma_position_absent(l2, ps[1]);
    }
}

proof fn lemma_step_columns(lanes: LaneState, id: Seq<char>, parents: Seq<Seq<char>>)
    ensures
        ({
            let after = lanes_after_commit(lanes, id, parents);
            let my = own_lane(lanes, id);
            &&& forall|c: int| 0 <= c < lanes.len() && c != my ==> after[c] == lanes[c]
            &&& forall|c: int| lanes.len() <= c < after.len() && c != my ==> after[c] is Some
                && merge_lane(lanes, id, parents) == Some(c)
        }),
{
    lemma_position_bounds(lanes, id);
    let l1 = lanes_with_own(lanes, id);
    let my = own_lane(lanes, id);
    if parents.len() >= 2 {
        let l2 = l1.update(my, Some(parents[0]));
        lemma_position_bounds(l2, parents[1]);
    }
}

/// A row changes no column but its own, except that it may open one new
/// column at the right: the lane its merge's second parent comes from.
/// Every column that was open or closed before the row stays so, the
/// commit's own column aside.
pub proof fn law_row_keeps_other_columns(commits: Seq<CommitInfo>, k: int)
    requires
        0 <= k < commits.len(),
    ensures
        k > 0 ==> active_of(lanes_before(commits, k)) == row_active(commits, k - 1),
        ({
            let prev = active_of(lanes_before(commits, k));
            let now = row_active(commits, k);
            let l = row_lane(commits, k);
            &&& prev.len() <= now.len()
            &&& forall|c: int| 0 <= c < prev.len() && c != l ==> now[c] == prev[c]
            &&& forall|c: int| prev.len() <= c < now.len() && c != l ==> now[c] && row_merge(commits, k)
                == Some(c)
        }),
{
    let lanes = lanes_before(commits, k);
    let id = commit_id(commits[k]);
    let parents = commit_parents(commits[k]);
    lemma_step_facts(lanes, id, parents);
    lemma_step_columns(lanes, id, parents);
    assert(lanes_before(commits, k + 1) == lanes_after_commit(lanes, id, parents));
}

/// Whether the commits form one line of history, newest first: each
/// commit's only parent is the next commit, and the last is a root.
pub open spec fn linear_history(commits: Seq<CommitInfo>) -> bool {
    &&& commits.len() >= 1
    &&& forall|j: int| 0 <= j < commits.len() - 1 ==> commit_parents(#[trigger] commits[j]) == seq![
        commit_id(commits[j + 1]),
    ]
    &&& commit_parents(commits[commits.len() - 1]).len() == 0
}

proof fn lemma_one_lane_step(lanes: LaneState, id: Seq<char>, parents: Seq<Seq<char>>)
    requires
        lanes.len() == 0 || lanes == seq![Some(id)],
        parents.len() <= 1,
    ensures
        own_lane(lanes, id) == 0,
        merge_lane(lanes, id, parents) is None,
        lanes_after_commit(lanes, id, parents) == seq![
            if parents.len() == 0 {
                None
            } else {
                Some(parents[0])
            },
        ],
{
    if lanes.len() == 0 {
        lemma_position_absent(lanes, id);
        assert(lanes.push(None) =~= seq![None::<Seq<char>>]);
    } else {
        assert(is_first_lane_with(lanes, id, 0));
        lemma_position_found(lanes, id, 0);
    }
    let l1 = lanes_with_own(lanes, id);
    if parents.len() == 0 {
        assert(l1.update(0, None) =~= seq![None::<Seq<char>>]);
    } else {
        assert(l1.update(0, Some(parents[0])) =~= seq![Some(parents[0])]);
    }
}

proof fn lemma_linear_lanes(commits: Seq<CommitInfo>, k: int)
    requires
        linear_history(commits),
        0 <= k < commits.len(),
    ensures
        lanes_before(commits, k) == (if k == 0 {
            Seq::<Option<Seq<char>>>::empty()
        } else {
            seq![Some(commit_id(commits[k]))]
        }),
    decreases k,
{
    if k > 0 {
        lemma_linear_lanes(commits, k - 1);
        let c = commits[k - 1];
        assert(commit_parents(c) == seq![commit_id(commits[k])]);
        lemma_one_lane_step(lanes_before(commits, k - 1), commit_id(c), commit_parents(c));
    }
}

/// In a single line of history every commit is drawn in the first lane,
/// none is a merge, and that lane stays open until the root commit.
pub proof fn law_linear_history_one_lane(commits: Seq<CommitInfo>, k: int)
    requires
        linear_history(commits),
        0 <= k < commits.len(),
    ensures
        row_lane(commits, k) == 0,
        row_merge(commits, k) is None,
        row_active(commits, k) == seq![k < commits.len() - 1],
{
    lemma_linear_lanes(commits, k);
    let c = commits[k];
    if k < commits.len() - 1 {
        assert(commit_parents(c) == seq![commit_id(commits[k + 1])]);
    }
    lemma_one_lane_step(lanes_before(commits, k), commit_id(c), commit_parents(c));
    let after = lanes_before(commits, k + 1);
    assert(after == lanes_after_commit(lanes_before(commits, k), commit_id(c), commit_parents(c)));
    assert(active_of(after) =~= seq![k < commits.len() - 1]);
}

/// Whether some lane expects `id`.
pub open spec fn lane_expects(lanes: LaneState, id: Seq<char>) -> bool {
    exists|c: int| 0 <= c < lanes.len() && lanes[c] == Some(id)
}

/// Whether `id` is the first or the second parent of commit `c` (the only
/// parents the graph follows).
pub open spec fn names_parent(c: CommitInfo, id: Seq<char>) -> bool {
    ||| (commit_parents(c).len() >= 1 && commit_parents(c)[0] == id)
    ||| (commit_parents(c).len() >= 2 && commit_parents(c)[1] == id)
}

/// Whether no two commits share an id.
pub open spec fn distinct_ids(commits: Seq<CommitInfo>) -> bool {
    forall|i: int, j: int| 0 <= i < j < commits.len() ==> commit_id(#[trigger] commits[i]) != commit_id(
        #[trigger] commits[j],
    )
}

proof fn lemma_expect_step(lanes: LaneState, x: Seq<char>, parents: Seq<Seq<char>>, y: Seq<char>)
    requires
        y != x,
    ensures
        lane_expects(lanes_after_commit(lanes, x, parents), y) <==> (lane_expects(lanes, y) || (
        parents.len() >= 1 && parents[0] == y) || (parents.len() >= 2 && parents[1] == y)),
{
    let after = lanes_after_commit(lanes, x, parents);
    let my = own_lane(lanes, x);
    lemma_position_bounds(lanes, x);
    lemma_step_facts(lanes, x, parents);
    lemma_step_columns(lanes, x, parents);
    if lane_expects(after, y) {
        let c = choose|c: int| 0 <= c < after.len() && after[c] == Some(y);
        if c == my {
        } else if c < lanes.len() {
            assert(lanes[c] == Some(y));
        } else {
            assert(merge_lane(lanes, x, parents) == Some(c));
        }
    }
    if lane_expects(lanes, y) {
        let c = choose|c: int| 0 <= c < lanes.len() && lanes[c] == Some(y);
        assert(c != my);
        assert(after[c] == Some(y));
    }
    if parents.len() >= 1 && parents[0] == y {
        assert(after[my] == Some(y));
    }
    if parents.len() >= 2 && parents[1] == y {
        let m = merge_lane(lanes, x, parents)->0;
        assert(after[m] == Some(y));
    }
}

proof fn lemma_expect_upto(commits: Seq<CommitInfo>, k: int, y: Seq<char>)
    requires
        0 <= k <= commits.len(),
        forall|j: int| 0 <= j < k ==> commit_id(#[trigger] commits[j]) != y,
    ensures
        lane_expects(lanes_before(commits, k), y) <==> exists|j: int| 0 <= j < k && names_parent(#[trigger] commits[j], y),
    decreases k,
{
    if k > 0 {
        lemma_expect_upto(commits, k - 1, y);
        let c = commits[k - 1];
        lemma_expect_step(lanes_before(commits, k - 1), commit_id(c), commit_parents(c), y);
        if exists|j: int| 0 <= j < k && names_parent(#[trigger] commits[j], y) {
            let j = choose|j: int| 0 <= j < k && names_parent(#[trigger] commits[j], y);
            if j < k - 1 {
                assert(exists|j2: int| 0 <= j2 < k - 1 && names_parent(#[trigger] commits[j2], y));
            }
        }
        if exists|j: int| 0 <= j < k - 1 && names_parent(#[trigger] commits[j], y) {
            let j = choose|j: int| 0 <= j < k - 1 && names_parent(#[trigger] commits[j], y);
            assert(0 <= j < k && names_parent(commits[j], y));
        }
        if names_parent(c, y) {
            assert(0 <= k - 1 < k && names_parent(commits[k - 1], y));
        }
    } else {
        assert(lanes_before(commits, 0).len() == 0);
    }
}

/// With distinct commit ids, a commit's lane is expected exactly when an
/// earlier commit names it as its first or second parent: then it lands in
/// an open column already there; otherwise it gets a new column at the
/// right end (a column closed earlier is never reused).
pub proof fn law_expected_iff_named(commits: Seq<CommitInfo>, i: int)
    requires
        distinct_ids(commits),
        0 <= i < commits.len(),
    ensures
        ({
            let before = lanes_before(commits, i);
            let l = row_lane(commits, i);
            let named = exists|j: int| 0 <= j < i && names_parent(#[trigger] commits[j], commit_id(commits[i]));
            &&& !named ==> l == before.len()
            &&& named ==> 0 <= l < before.len() && active_of(before)[l]
        }),
{
    let id = commit_id(commits[i]);
    assert forall|j: int| 0 <= j < i implies commit_id(#[trigger] commits[j]) != id by {
        assert(commit_id(commits[j]) != commit_id(commits[i]));
    }
    lemma_expect_upto(commits, i, id);
    let before = lanes_before(commits, i);
    lemma_position_bounds(before, id);
    if lane_expects(before, id) {
        let c = choose|c: int| 0 <= c < before.len() && before[c] == Some(id);
        lemma_first_exists(before, id, c);
    } else {
        if position_of(before, id) >= 0 {
            assert(before[position_of(before, id)] == Some(id));
        }
    }
}

/// Finds the lowest lane expecting `id`.
fn find_lane(lanes: &Vec<Option<String>>, id: &String) -> (r: Option<usize>)
    ensures
        match r {
            Some(i) => position_of(lanes_view(lanes@), id@) == i as int,
            None => position_of(lanes_view(lanes@), id@) == -1,
        },
{
    let ghost lv = lanes_view(lanes@);
    let n = lanes.len();
    let mut i: usize = 0;
    while i < n
        invariant
            n == lanes.len(),
            lv == lanes_view(lanes@),
            i <= n,
            forall|j: int| 0 <= j < i ==> lv[j] != Some(id@),
        decreases n - i,
    {
        let hit = match &lanes[i] {
            Some(s) => s.eq(id),
            None => false,
        };
        if hit {
            proof {
                lemma_position_found(lv, id@, i as int);
            }
            return Some(i);
        }
        i = i + 1;
    }
    proof {
        lemma_position_absent(lv, id@);
    }
    None
}

/// Computes graph lane assignments for a list of commits (topological order).
///
/// Each distinct branch keeps a dedicated column: once a lane closes it is
/// never reused for a fresh commit. A commit either lands in the lowest lane
/// already expecting it as a parent, or gets a brand new lane appended at
/// the right.
pub fn compute_graph_lanes(commits: &[CommitInfo]) -> (result: Vec<GraphLane>)
    ensures
        result.len() == commits.len(),
        forall|k: int| 0 <= k < commits.len() ==> lane_row_is(#[trigger] result[k], commits@, k),
{
    let mut lanes: Vec<Option<String>> = Vec::new();
    let mut result: Vec<GraphLane> = Vec::new();
    let n = commits.len();
    let mut k: usize = 0;
    while k < n
        invariant
            n == commits.len(),
            k <= n,
            result.len() == k,
            lanes_view(lanes@) == lanes_before(commits@, k as int),
            forall|j: int| 0 <= j < k ==> lane_row_is(#[trigger] result[j], commits@, j),
        decreases n - k,
    {
        let commit = &commits[k];
        let ghost before = lanes_view(lanes@);
        let ghost id = commit_id(*commit);
        let ghost ps = commit_parents(*commit);
        proof {
            lemma_position_bounds(before, id);
        }
        let my_lane: usize = match find_lane(&lanes, &commit.id) {
            Some(i) => i,
            None => {
                lanes.push(None);
                lanes.len() - 1
            },
        };
        assert(lanes_view(lanes@) =~= lanes_with_own(before, id));
        assert(my_lane == own_lane(before, id));
        let mut merge_from: Option<usize> = None;
        let np = commit.parents.len();
        if np == 0 {
            lanes.set(my_lane, None);
        } else if np == 1 {
            lanes.set(my_lane, Some(commit.parents[0].clone()));
        } else {
            lanes.set(my_lane, Some(commit.parents[0].clone()));
            let ghost l2 = lanes_view(lanes@);
            assert(l2 =~= lanes_with_own(before, id).update(own_lane(before, id), Some(ps[0])));
            let parent2 = &commit.parents[1];
            assert(parent2@ == ps[1]);
            proof {
                lemma_position_bounds(l2, ps[1]);
            }
            let p2_lane: usize = match find_lane(&lanes, parent2) {
                Some(i) => i,
                None => {
                    lanes.push(Some(parent2.clone()));
                    lanes.len() - 1
                },
            };
            merge_from = Some(p2_lane);
        }
        assert(lanes_view(lanes@) =~= lanes_after_commit(before, id, ps));
        assert(lanes_before(commits@, k + 1) == lanes_after_commit(
            lanes_before(commits@, k as int),
            commit_id(commits@[k as int]),
            commit_parents(commits@[k as int]),
        ));
        let mut active_lanes: Vec<bool> = Vec::new();
        let w = lanes.len();
        let mut j: usize = 0;
        while j < w
            invariant
                w == lanes.len(),
                j <= w,
                active_lanes.len() == j,
                forall|t: int| 0 <= t < j ==> active_lanes[t] == (lanes@[t] is Some),
            decreases w - j,
        {
            active_lanes.push(lanes[j].is_some());
            j = j + 1;
        }
        assert(active_lanes@ =~= active_of(lanes_view(lanes@)));
        result.push(GraphLane { lane: my_lane, active_lanes, merge_from });
        k = k + 1;
    }
    result
}

} // verus!

verus! {

// ── Working-tree status ────────────────────────────────────

/// Status bits of a path, as libgit2's `git_status_t` numbers them.
pub const STATUS_INDEX_NEW: u32 = 1;
pub const STATUS_INDEX_MODIFIED: u32 = 2;
pub const STATUS_INDEX_DELETED: u32 = 4;
pub const STATUS_INDEX_RENAMED: u32 = 8;
pub const STATUS_INDEX_TYPECHANGE: u32 = 16;
pub const STATUS_WT_NEW: u32 = 128;
pub const STATUS_WT_MODIFIED: u32 = 256;
pub const STATUS_WT_DELETED: u32 = 512;
pub const STATUS_WT_TYPECHANGE: u32 = 1024;
pub const STATUS_WT_RENAMED: u32 = 2048;
pub const STATUS_CONFLICTED: u32 = 32768;

pub open spec fn has_bit(bits: u32, flag: u32) -> bool {
    bits & flag != 0
}

pub open spec fn state_if(bits: u32, flag: u32, s: FileState) -> Seq<FileState> {
    if has_bit(bits, flag) {
        seq![s]
    } else {
        Seq::empty()
    }
}

/// The staged states of a path, in the order new, modified, deleted,
/// renamed, type change.
pub open spec fn index_states(bits: u32) -> Seq<FileState> {
    state_if(bits, STATUS_INDEX_NEW, FileState::New) + state_if(
        bits,
        STATUS_INDEX_MODIFIED,
        FileState::Modified,
    ) + state_if(bits, STATUS_INDEX_DELETED, FileState::Deleted) + state_if(
        bits,
        STATUS_INDEX_RENAMED,
        FileState::Renamed,
    ) + state_if(bits, STATUS_INDEX_TYPECHANGE, FileState::Typechange)
}

/// The unstaged states of a path, in the order new, modified, deleted,
/// renamed, type change, conflicted.
pub open spec fn worktree_states(bits: u32) -> Seq<FileState> {
    state_if(bits, STATUS_WT_NEW, FileState::New) + state_if(
        bits,
        STATUS_WT_MODIFIED,
        FileState::Modified,
    ) + state_if(bits, STATUS_WT_DELETED, FileState::Deleted) + state_if(
        bits,
        STATUS_WT_RENAMED,
        FileState::Renamed,
    ) + state_if(bits, STATUS_WT_TYPECHANGE, FileState::Typechange) + state_if(
        bits,
        STATUS_CONFLICTED,
        FileState::Conflicted,
    )
}

/// The path shown for a status entry ("???" when it has none).
pub open spec fn entry_path(p: Option<String>) -> Seq<char> {
    match p {
        Some(s) => s@,
        None => "???"@,
    }
}

pub open spec fn file_view(f: FileStatus) -> (Seq<char>, FileState) {
    (f.path@, f.status)
}

pub open spec fn files_view(fs: Seq<FileStatus>) -> Seq<(Seq<char>, FileState)> {
    fs.map_values(|f: FileStatus| file_view(f))
}

pub open spec fn with_path(path: Seq<char>, states: Seq<FileState>) -> Seq<(Seq<char>, FileState)> {
    states.map_values(|s: FileState| (path, s))
}

/// Whether a text holds no NUL character (so it converts to a C string).
pub open spec fn nul_free(t: Seq<char>) -> bool {
    !t.contains('\0')
}

/// Whether no file's path holds a NUL character.
pub open spec fn paths_nul_free(fs: Seq<FileStatus>) -> bool {
    forall|k: int| 0 <= k < fs.len() ==> nul_free(#[trigger] fs[k].path@)
}

/// Whether no listed path holds a NUL character.
pub open spec fn pairs_nul_free(v: Seq<(Seq<char>, FileState)>) -> bool {
    forall|k: int| 0 <= k < v.len() ==> nul_free(#[trigger] v[k].0)
}

/// Whether no status entry's path holds a NUL character.
pub open spec fn entries_nul_free(e: Seq<(Option<String>, u32)>) -> bool {
    forall|k: int| 0 <= k < e.len() ==> ((#[trigger] e[k]).0 matches Some(p) ==> nul_free(p@))
}

proof fn lemma_with_path_nul_free(path: Seq<char>, states: Seq<FileState>)
    requires
        nul_free(path),
    ensures
        pairs_nul_free(with_path(path, states)),
{
}

proof fn lemma_status_paths_nul_free(e: Seq<(Option<String>, u32)>)
    requires
        entries_nul_free(e),
        nul_free("???"@),
    ensures
        pairs_nul_free(staged_of(e)),
        pairs_nul_free(unstaged_of(e)),
    decreases e.len(),
{
    if e.len() > 0 {
        let rest = e.drop_last();
        assert forall|k: int| 0 <= k < rest.len() implies ((#[trigger] rest[k]).0 matches Some(p) ==> nul_free(p@)) by {
            assert(rest[k] == e[k]);
        }
        lemma_status_paths_nul_free(rest);
        assert(e[e.len() - 1] == e.last());
        let p = entry_path(e.last().0);
        lemma_with_path_nul_free(p, index_states(e.last().1));
        lemma_with_path_nul_free(p, worktree_states(e.last().1));
        let a = staged_of(rest);
        let b = with_path(p, index_states(e.last().1));
        assert forall|k: int| 0 <= k < (a + b).len() implies nul_free(#[trigger] (a + b)[k].0) by {
            if k < a.len() {
                assert((a + b)[k] == a[k]);
            } else {
                assert((a + b)[k] == b[k - a.len()]);
            }
        }
        let c = unstaged_of(rest);
        let d = with_path(p, worktree_states(e.last().1));
        assert forall|k: int| 0 <= k < (c + d).len() implies nul_free(#[trigger] (c + d)[k].0) by {
            if k < c.len() {
                assert((c + d)[k] == c[k]);
            } else {
                assert((c + d)[k] == d[k - c.len()]);
            }
        }
    }
}

proof fn lemma_view_paths(fs: Seq<FileStatus>)
    requires
        pairs_nul_free(files_view(fs)),
    ensures
        paths_nul_free(fs),
{
    assert forall|k: int| 0 <= k < fs.len() implies nul_free(#[trigger] fs[k].path@) by {
        assert(files_view(fs)[k] == file_view(fs[k]));
        assert(nul_free(files_view(fs)[k].0));
    }
}

/// The staged list for a sequence of status entries.
pub open spec fn staged_of(entries: Seq<(Option<String>, u32)>) -> Seq<(Seq<char>, FileState)>
    decreases entries.len(),
{
    if entries.len() == 0 {
        Seq::empty()
    } else {
        staged_of(entries.drop_last()) + with_path(
            entry_path(entries.last().0),
            index_states(entries.last().1),
        )
    }
}

/// The unstaged list for a sequence of status entries.
pub open spec fn unstaged_of(entries: Seq<(Option<String>, u32)>) -> Seq<(Seq<char>, FileState)>
    decreases entries.len(),
{
    if entries.len() == 0 {
        Seq::empty()
    } else {
        unstaged_of(entries.drop_last()) + with_path(
            entry_path(entries.last().0),
            worktree_states(entries.last().1),
        )
    }
}

fn push_if(out: &mut Vec<FileStatus>, path: &String, bits: u32, flag: u32, s: FileState)
    ensures
        files_view(final(out)@) == files_view(old(out)@) + with_path(path@, state_if(bits, flag, s)),
{
    if bits & flag != 0 {
        out.push(FileStatus { path: path.clone(), status: s });
        assert(files_view(out@) =~= files_view(old(out)@) + with_path(path@, state_if(bits, flag, s)));
    } else {
        assert(files_view(out@) =~= files_view(old(out)@) + with_path(path@, state_if(bits, flag, s)));
    }
}

fn push_index_states(out: &mut Vec<FileStatus>, path: &String, bits: u32)
    ensures
        files_view(final(out)@) == files_view(old(out)@) + with_path(path@, index_states(bits)),
{
    let ghost o = files_view(out@);
    push_if(out, path, bits, STATUS_INDEX_NEW, FileState::New);
    push_if(out, path, bits, STATUS_INDEX_MODIFIED, FileState::Modified);
    push_if(out, path, bits, STATUS_INDEX_DELETED, FileState::Deleted);
    push_if(out, path, bits, STATUS_INDEX_RENAMED, FileState::Renamed);
    push_if(out, path, bits, STATUS_INDEX_TYPECHANGE, FileState::Typechange);
    assert(files_view(out@) =~= o + with_path(path@, index_states(bits)));
}

fn push_worktree_states(out: &mut Vec<FileStatus>, path: &String, bits: u32)
    ensures
        files_view(final(out)@) == files_view(old(out)@) + with_path(path@, worktree_states(bits)),
{
    let ghost o = files_view(out@);
    push_if(out, path, bits, STATUS_WT_NEW, FileState::New);
    push_if(out, path, bits, STATUS_WT_MODIFIED, FileState::Modified);
    push_if(out, path, bits, STATUS_WT_DELETED, FileState::Deleted);
    push_if(out, path, bits, STATUS_WT_RENAMED, FileState::Renamed);
    push_if(out, path, bits, STATUS_WT_TYPECHANGE, FileState::Typechange);
    push_if(out, path, bits, STATUS_CONFLICTED, FileState::Conflicted);
    assert(files_view(out@) =~= o + with_path(path@, worktree_states(bits)));
}

/// Splits status entries (path and status bits) into the staged and the
/// unstaged file lists; a path appears once per state it is in.
pub fn split_statuses(entries: &Vec<(Option<String>, u32)>) -> (r: (Vec<FileStatus>, Vec<FileStatus>))
    ensures
        files_view(r.0@) == staged_of(entries@),
        files_view(r.1@) == unstaged_of(entries@),
{
    let mut staged: Vec<FileStatus> = Vec::new();
    let mut unstaged: Vec<FileStatus> = Vec::new();
    let n = entries.len();
    let mut i: usize = 0;
    while i < n
        invariant
            n == entries.len(),
            i <= n,
            files_view(staged@) == staged_of(entries@.take(i as int)),
            files_view(unstaged@) == unstaged_of(entries@.take(i as int)),
        decreases n - i,
    {
        let path: String = match &entries[i].0 {
            Some(p) => p.clone(),
            None => "???".to_owned(),
        };
        let bits = entries[i].1;
        assert(path@ == entry_path(entries@[i as int].0));
        push_index_states(&mut staged, &path, bits);
        push_worktree_states(&mut unstaged, &path, bits);
        proof {
            assert(entries@.take(i + 1).drop_last() =~= entries@.take(i as int));
            assert(entries@.take(i + 1).last() == entries@[i as int]);
        }
        i = i + 1;
    }
    assert(entries@.take(n as int) =~= entries@);
    (staged, unstaged)
}

} // verus!

verus! {

// ── Branches ───────────────────────────────────────────────

/// Branch order: HEAD first, then local before remote, then by name.
pub open spec fn branch_precedes(a: BranchInfo, b: BranchInfo) -> bool {
    if a.is_head != b.is_head {
        a.is_head
    } else if a.is_remote != b.is_remote {
        !a.is_remote
    } else {
        lex_lt(a.name@, b.name@)
    }
}

pub open spec fn branches_sorted(s: Seq<BranchInfo>) -> bool {
    forall|i: int, j: int| 0 <= i < j < s.len() ==> !branch_precedes(#[trigger] s[j], #[trigger] s[i])
}

proof fn lemma_branch_precedes_transitive(a: BranchInfo, b: BranchInfo, c: BranchInfo)
    requires
        branch_precedes(a, b),
        branch_precedes(b, c),
    ensures
        branch_precedes(a, c),
{
    if a.is_head == b.is_head && b.is_head == c.is_head && a.is_remote == b.is_remote && b.is_remote
        == c.is_remote {
        lemma_lex_lt_transitive(a.name@, b.name@, c.name@, 0);
    }
}

fn branch_precedes_exec(a: &BranchInfo, b: &BranchInfo) -> (r: bool)
    ensures
        r == branch_precedes(*a, *b),
{
    if a.is_head != b.is_head {
        a.is_head
    } else if a.is_remote != b.is_remote {
        !a.is_remote
    } else {
        str_lt(&a.name, &b.name)
    }
}

/// Sorts branches: HEAD first, then local, then remote, each by name.
pub fn sort_branches(branches: Vec<BranchInfo>) -> (r: Vec<BranchInfo>)
    ensures
        branches_sorted(r@),
        r@.to_multiset() == branches@.to_multiset(),
{
    broadcast use vstd::multiset::group_multiset_axioms, vstd::seq_lib::group_to_multiset_ensures;

    let mut rest = branches;
    let mut out: Vec<BranchInfo> = Vec::new();
    proof {
        assert(out@.to_multiset().len() == 0);
        assert(out@.to_multiset() =~= Multiset::empty());
        assert(out@.to_multiset().add(rest@.to_multiset()) =~= rest@.to_multiset());
    }
    while rest.len() > 0
        invariant
            branches_sorted(out@),
            out@.to_multiset().add(rest@.to_multiset()) == branches@.to_multiset(),
        decreases rest.len(),
    {
        let ghost rest0 = rest@;
        let ghost out0 = out@;
        let x = rest.remove(0);
        assert(rest0.remove(0) == rest@);
        let mut k: usize = 0;
        while k < out.len() && !branch_precedes_exec(&x, &out[k])
            invariant
                out@ == out0,
                k <= out.len(),
                forall|j: int| 0 <= j < k ==> !branch_precedes(x, #[trigger] out@[j]),
            decreases out.len() - k,
        {
            k = k + 1;
        }
        proof {
            assert forall|i: int, j: int| 0 <= i < j < out0.len() + 1 implies !branch_precedes(
                #[trigger] out0.insert(k as int, x)[j],
                #[trigger] out0.insert(k as int, x)[i],
            ) by {
                let s = out0.insert(k as int, x);
                if i < k && j == k {
                } else if i == k && j > k {
                    let y = out0[j - 1];
                    if branch_precedes(y, x) {
                        if k < out0.len() {
                            assert(branch_precedes(x, out0[k as int]));
                            lemma_branch_precedes_transitive(y, x, out0[k as int]);
                            if j - 1 > k {
                                assert(!branch_precedes(out0[j - 1], out0[k as int]));
                            }
                            lemma_branch_irreflexive(y);
                        }
                    }
                } else if j < k {
                    assert(s[i] == out0[i] && s[j] == out0[j]);
                } else if i > k {
                    assert(s[i] == out0[i - 1] && s[j] == out0[j - 1]);
                } else {
                    assert(s[i] == out0[i] && s[j] == out0[j - 1]);
                }
            }
            vstd::seq_lib::to_multiset_remove(rest0, 0);
            assert(rest0[0] == x);
            assert(rest0.contains(x));
            vstd::seq_lib::to_multiset_contains(rest0, x);
            assert(rest0.to_multiset().count(x) > 0);
            assert(rest0.to_multiset() =~= rest@.to_multiset().insert(x));
        }
        out.insert(k, x);
        proof {
            vstd::seq_lib::to_multiset_insert(out0, k as int, x);
            assert(out@.to_multiset() == out0.to_multiset().insert(x));
            assert(out@.to_multiset().add(rest@.to_multiset()) =~= out0.to_multiset().add(rest0.to_multiset()));
        }
    }
    proof {
        assert(rest@.to_multiset().len() == 0);
        assert(rest@.to_multiset() =~= Multiset::empty());
        assert(out@.to_multiset().add(rest@.to_multiset()) =~= out@.to_multiset());
    }
    out
}

proof fn lemma_branch_irreflexive(a: BranchInfo)
    ensures
        !branch_precedes(a, a),
{
    lemma_lex_lt_irreflexive(a.name@, 0);
}

} // verus!

verus! {

// ── Repository operations ──────────────────────────────────

fn git_error(e: &git2::Error) -> GitError {
    GitError { message: error_text(e) }
}

/// Where to look for the repository: the given path, or the current directory.
pub fn repo_search_path<'a>(path: Option<&'a str>) -> (p: &'a str)
    ensures
        match path {
            Some(s) => p@ == s@,
            None => p@ == "."@,
        },
{
    match path {
        Some(s) => s,
        None => ".",
    }
}

/// Opens the repository containing the given path (or the current directory).
pub fn open_repo(path: Option<&str>) -> (r: Result<git2::Repository, GitError>)
    ensures
        r matches Err(e) ==> e.message@ == "Failed to find a Git repository"@,
{
    match repo_discover(repo_search_path(path)) {
        Ok(repo) => Ok(repo),
        Err(_) => Err(error_with("Failed to find a Git repository")),
    }
}

pub open spec fn strings_view(v: Seq<String>) -> Seq<Seq<char>> {
    v.map_values(|s: String| s@)
}

pub open spec fn text_or(o: Option<String>, d: Seq<char>) -> Seq<char> {
    match o {
        Some(s) => s@,
        None => d,
    }
}

/// The short forms of a list of object ids.
pub open spec fn short_ids(v: Seq<String>) -> Seq<Seq<char>> {
    v.map_values(|p: String| short_sha(p@))
}

/// What a commit row holds, given what the repository reports for it.
pub open spec fn commit_info_is(
    c: CommitInfo,
    full: Seq<char>,
    message: Option<String>,
    author: Option<String>,
    time: i64,
    parent_hexes: Seq<String>,
    branches: Seq<Seq<char>>,
    head_hex: Option<String>,
) -> bool {
    &&& c.id@ == short_sha(full)
    &&& c.id_full@ == full
    &&& c.message@ == first_line(text_or(message, Seq::empty()))
    &&& c.author@ == text_or(author, "Unknown"@)
    &&& c.time == time
    &&& strings_view(c.parents@) == short_ids(parent_hexes)
    &&& strings_view(c.branches@) == branches
    &&& c.is_head == (head_hex matches Some(h) && h@ == full)
}

/// Builds a commit row from what the repository reports: the full id, the
/// raw message (only its first line is kept), the author's name ("Unknown"
/// when missing), the time, the full parent ids (kept short), the branches
/// pointing at it, and the id HEAD points at.
pub fn commit_info_from(
    full: String,
    message: Option<String>,
    author: Option<String>,
    time: i64,
    parent_hexes: &Vec<String>,
    branches: Vec<String>,
    head_hex: &Option<String>,
) -> (c: CommitInfo)
    ensures
        commit_info_is(c, full@, message, author, time, parent_hexes@, strings_view(branches@), *head_hex),
{
    let id = short_sha_of(&full);
    let msg = match &message {
        Some(m) => first_line_of(m),
        None => first_line_of(""),
    };
    proof {
        reveal_strlit("");
        if message is None {
            assert(""@ =~= Seq::<char>::empty());
        }
    }
    let auth = match author {
        Some(a) => a,
        None => "Unknown".to_owned(),
    };
    let mut parents: Vec<String> = Vec::new();
    let mut i: usize = 0;
    while i < parent_hexes.len()
        invariant
            i <= parent_hexes.len(),
            strings_view(parents@) == short_ids(parent_hexes@.take(i as int)),
        decreases parent_hexes.len() - i,
    {
        let ghost before = parents@;
        parents.push(short_sha_of(&parent_hexes[i]));
        assert(parent_hexes@.take(i + 1) =~= parent_hexes@.take(i as int).push(parent_hexes@[i as int]));
        assert(strings_view(parents@) =~= strings_view(before).push(parents@[i as int]@));
        assert(strings_view(parents@) =~= short_ids(parent_hexes@.take(i + 1)));
        i = i + 1;
    }
    assert(parent_hexes@.take(parent_hexes.len() as int) =~= parent_hexes@);
    let is_head = match head_hex {
        Some(h) => h.eq(&full),
        None => false,
    };
    CommitInfo { id, id_full: full, message: msg, author: auth, time, parents, branches, is_head }
}

/// The names of the branches whose tip is `key`, in the order the
/// (tip, name) pairs list them.
pub open spec fn branches_at(tips: Seq<(String, String)>, key: Seq<char>) -> Seq<Seq<char>>
    decreases tips.len(),
{
    if tips.len() == 0 {
        Seq::empty()
    } else {
        branches_at(tips.drop_last(), key) + if tips.last().0@ == key {
            seq![tips.last().1@]
        } else {
            Seq::empty()
        }
    }
}

/// The names of the branches whose tip is `key`.
pub fn branches_at_tip(tips: &Vec<(String, String)>, key: &String) -> (r: Vec<String>)
    ensures
        strings_view(r@) == branches_at(tips@, key@),
{
    let mut r: Vec<String> = Vec::new();
    let mut i: usize = 0;
    while i < tips.len()
        invariant
            i <= tips.len(),
            strings_view(r@) == branches_at(tips@.take(i as int), key@),
        decreases tips.len() - i,
    {
        assert(tips@.take(i + 1).drop_last() =~= tips@.take(i as int));
        assert(tips@.take(i + 1).last() == tips@[i as int]);
        if tips[i].0.eq(key) {
            r.push(tips[i].1.clone());
            assert(strings_view(r@) =~= branches_at(tips@.take(i + 1), key@));
        } else {
            assert(strings_view(r@) =~= branches_at(tips@.take(i + 1), key@));
        }
        i = i + 1;
    }
    assert(tips@.take(tips.len() as int) =~= tips@);
    r
}

} // verus!

verus! {

/// A commit row as the log gives it: a forty-character full id, the short
/// id its first seven characters, seven-character parent ids, and a
/// message of one line.
pub open spec fn commit_well_formed(c: CommitInfo) -> bool {
    &&& c.id_full@.len() == 40
    &&& c.id@ == short_sha(c.id_full@)
    &&& c.id@.len() == 7
    &&& forall|i: int| 0 <= i < c.parents@.len() ==> (#[trigger] c.parents@[i])@.len() == 7
    &&& !c.message@.contains('\n')
}

/// A commit row as the repository gives it for the commit with full id
/// `c.id_full`: some raw message, author and parent ids, the branches of
/// `tips` whose tip it is, and HEAD's id `head_hex`.
pub open spec fn commit_row_of(c: CommitInfo, tips: Seq<(String, String)>, head_hex: Option<String>) -> bool {
    exists|message: Option<String>, author: Option<String>, parent_hexes: Seq<String>|
        #[trigger] commit_info_is(c, c.id_full@, message, author, c.time, parent_hexes, branches_at(tips, c.id_full@), head_hex)
}

/// Every row of `v` is a commit row over the same branch tips and HEAD.
pub open spec fn commit_rows_of(v: Seq<CommitInfo>, tips: Seq<(String, String)>, head_hex: Option<String>) -> bool {
    forall|i: int| 0 <= i < v.len() ==> commit_row_of(#[trigger] v[i], tips, head_hex)
}

/// The rows of `v` are commit rows over one set of branch tips and one HEAD.
pub open spec fn rows_share_tips(v: Seq<CommitInfo>) -> bool {
    exists|tips: Seq<(String, String)>, head_hex: Option<String>| #[trigger] commit_rows_of(v, tips, head_hex)
}

/// libgit2's `GIT_SORT_TOPOLOGICAL` bit: children before their parents.
pub const SORT_TOPOLOGICAL: u32 = 1;

/// libgit2's `GIT_SORT_TIME` bit: newest commit time first.
pub const SORT_TIME: u32 = 2;

/// The starting points that pushing the hex ids `tips` in order adds to a
/// walk, where `pushed[k]` tells whether the push of `tips[k]` went through.
pub open spec fn tip_starts(tips: Seq<String>, pushed: Seq<bool>) -> Seq<Option<Seq<char>>>
    decreases tips.len(),
{
    if tips.len() == 0 {
        Seq::empty()
    } else {
        tip_starts(tips.drop_last(), pushed.drop_last()) + if pushed.last() {
            seq![Some(tips.last()@)]
        } else {
            Seq::<Option<Seq<char>>>::empty()
        }
    }
}

/// A walk sorted by time and topologically, started from HEAD and then
/// from those of the hex ids `tips` that libgit2 took as commits.
pub open spec fn walk_started(w: git2::Revwalk, tips: Seq<String>) -> bool {
    &&& walk_sorting(w) == (SORT_TIME | SORT_TOPOLOGICAL)
    &&& exists|pushed: Seq<bool>|
        pushed.len() == tips.len() && walk_starts(w) == seq![None::<Seq<char>>] + #[trigger] tip_starts(tips, pushed)
}

/// A commit log that came from a walk: some walk was started from HEAD and
/// local branch tips, the rows share one set of tips and one HEAD, and
/// fewer than `bound` rows means a walk ran out.
pub open spec fn log_from_walk<'a>(v: Seq<CommitInfo>, bound: int) -> bool {
    &&& exists|w: git2::Revwalk<'a>, local: Seq<String>| #[trigger] walk_started(w, local)
    &&& rows_share_tips(v)
    &&& v.len() < bound ==> exists|w: git2::Revwalk<'a>| #[trigger] walk_exhausted(w)
}

/// The values present in `v`, in order.
pub open spec fn present(v: Seq<Option<String>>) -> Seq<String>
    decreases v.len(),
{
    if v.len() == 0 {
        Seq::empty()
    } else {
        present(v.drop_last()) + match v.last() {
            Some(s) => seq![s],
            None => Seq::<String>::empty(),
        }
    }
}

/// Keeps the values present in `v`, in order: the local branch tips that
/// have a target.
pub fn present_values(v: Vec<Option<String>>) -> (r: Vec<String>)
    ensures
        r@ == present(v@),
{
    let ghost all = v@;
    let mut rest = v;
    let mut r: Vec<String> = Vec::new();
    let mut k: usize = 0;
    let n: usize = rest.len();
    assert(all.len() == n);
    while rest.len() > 0
        invariant
            all.len() <= usize::MAX,
            k + rest.len() == all.len(),
            rest@ == all.skip(k as int),
            r@ == present(all.take(k as int)),
        decreases rest.len(),
    {
        let x = rest.remove(0);
        proof {
            assert(all.take(k + 1).drop_last() =~= all.take(k as int));
            assert(all.take(k + 1).last() == all[k as int]);
            assert(all[k as int] == x);
        }
        match x {
            Some(s) => {
                r.push(s);
            },
            None => {},
        }
        k = k + 1;
        proof {
            assert(rest@ =~= all.skip(k as int));
            assert(r@ =~= present(all.take(k as int)));
        }
    }
    assert(all.take(k as int) =~= all);
    r
}

/// The (tip, name) pairs of the reports (tip, name) where both are present.
pub open spec fn named_tips(e: Seq<(Option<String>, Option<String>)>) -> Seq<(String, String)>
    decreases e.len(),
{
    if e.len() == 0 {
        Seq::empty()
    } else {
        named_tips(e.drop_last()) + match e.last() {
            (Some(t), Some(n)) => seq![(t, n)],
            _ => Seq::<(String, String)>::empty(),
        }
    }
}

/// Keeps the branch reports that have both a tip and a name, as pairs.
pub fn tip_pairs(e: Vec<(Option<String>, Option<String>)>) -> (r: Vec<(String, String)>)
    ensures
        r@ == named_tips(e@),
{
    let ghost all = e@;
    let mut rest = e;
    let mut r: Vec<(String, String)> = Vec::new();
    let mut k: usize = 0;
    let n: usize = rest.len();
    assert(all.len() == n);
    while rest.len() > 0
        invariant
            all.len() <= usize::MAX,
            k + rest.len() == all.len(),
            rest@ == all.skip(k as int),
            r@ == named_tips(all.take(k as int)),
        decreases rest.len(),
    {
        let x = rest.remove(0);
        proof {
            assert(all.take(k + 1).drop_last() =~= all.take(k as int));
            assert(all.take(k + 1).last() == all[k as int]);
            assert(all[k as int] == x);
        }
        match x {
            (Some(t), Some(n)) => {
                r.push((t, n));
            },
            _ => {},
        }
        k = k + 1;
        proof {
            assert(rest@ =~= all.skip(k as int));
            assert(r@ =~= named_tips(all.take(k as int)));
        }
    }
    assert(all.take(k as int) =~= all);
    r
}

/// The log answered at once, without a walk: empty when HEAD cannot be
/// read (no commit yet); `None` when the walk is to be made.
pub fn log_without_head(head_found: bool) -> (r: Option<Vec<CommitInfo>>)
    ensures
        match r {
            Some(v) => !head_found && v@.len() == 0,
            None => head_found,
        },
{
    if head_found {
        None
    } else {
        Some(Vec::new())
    }
}

/// Sets up the walk of the commit log: sorted by time and topologically,
/// starting from HEAD and then from each of the commits `tips` (hex ids).
/// A tip that is no commit is skipped, as libgit2 refuses to push it.
pub fn start_walk<'r>(repo: &'r git2::Repository, tips: &Vec<String>) -> (r: Result<git2::Revwalk<'r>, GitError>)
    ensures
        r matches Ok(w) ==> walk_started(w, tips@),
{
    let mut walk = match repo_revwalk(repo) {
        Ok(w) => w,
        Err(e) => {
            return Err(git_error(&e));
        },
    };
    assert((2u32 | 1u32) < 8u32) by (bit_vector);
    if let Err(e) = revwalk_set_sorting(&mut walk, SORT_TIME | SORT_TOPOLOGICAL) {
        return Err(git_error(&e));
    }
    if let Err(e) = revwalk_push_head(&mut walk) {
        return Err(git_error(&e));
    }
    let ghost mut pushed: Seq<bool> = Seq::empty();
    assert(walk_starts(walk) =~= seq![None::<Seq<char>>] + tip_starts(tips@.take(0), pushed));
    let mut i: usize = 0;
    while i < tips.len()
        invariant
            i <= tips.len(),
            pushed.len() == i,
            walk_sorting(walk) == (SORT_TIME | SORT_TOPOLOGICAL),
            walk_starts(walk) == seq![None::<Seq<char>>] + tip_starts(tips@.take(i as int), pushed),
        decreases tips.len() - i,
    {
        let ghost before = pushed;
        let res = revwalk_push_hex(&mut walk, tips[i].as_str());
        let ok = res.is_ok();
        proof {
            pushed = pushed.push(ok);
            assert(tips@.take(i + 1).drop_last() =~= tips@.take(i as int));
            assert(pushed.drop_last() =~= before);
            assert(tips@.take(i + 1).last() == tips@[i as int]);
            assert(walk_starts(walk) =~= seq![None::<Seq<char>>] + tip_starts(tips@.take(i + 1), pushed));
        }
        i = i + 1;
    }
    assert(tips@.take(tips.len() as int) =~= tips@);
    assert(walk_started(walk, tips@));
    Ok(walk)
}

/// Takes up to `bound` commits from the walk, each made a row by
/// `commit_info_from` with the branches of `tips` whose tip it is and
/// HEAD's id `head_hex`; fewer only when the walk has given its last one.
pub fn collect_commits(
    repo: &git2::Repository,
    walk: &mut git2::Revwalk,
    tips: &Vec<(String, String)>,
    head_hex: &Option<String>,
    bound: usize,
) -> (r: Result<Vec<CommitInfo>, GitError>)
    ensures
        r matches Ok(v) ==> {
            &&& v.len() <= bound
            &&& v.len() < bound ==> walk_exhausted(*final(walk))
            &&& forall|i: int| 0 <= i < v.len() ==> commit_well_formed(#[trigger] v@[i])
            &&& commit_rows_of(v@, tips@, *head_hex)
        },
{
    let mut commits: Vec<CommitInfo> = Vec::new();
    while commits.len() < bound
        invariant
            commits.len() <= bound,
            forall|i: int| 0 <= i < commits.len() ==> commit_well_formed(#[trigger] commits@[i]),
            commit_rows_of(commits@, tips@, *head_hex),
        ensures
            commits.len() < bound ==> walk_exhausted(*walk),
        decreases bound - commits.len(),
    {
        let oid = match revwalk_next(walk) {
            None => {
                break;
            },
            Some(Err(e)) => {
                return Err(git_error(&e));
            },
            Some(Ok(o)) => o,
        };
        let commit = match repo_find_commit(repo, oid) {
            Ok(c) => c,
            Err(e) => {
                return Err(git_error(&e));
            },
        };
        let full = oid_to_hex(&oid);
        let message = commit_message(&commit);
        let author = signature_name(&commit_author(&commit));
        let time = commit_time_seconds(&commit);
        let pids = commit_parent_ids(&commit);
        let mut parent_hexes: Vec<String> = Vec::new();
        let mut k: usize = 0;
        while k < pids.len()
            invariant
                k <= pids.len(),
                parent_hexes.len() == k,
                forall|i: int| 0 <= i < k ==> (#[trigger] parent_hexes@[i])@.len() == 40,
            decreases pids.len() - k,
        {
            parent_hexes.push(oid_to_hex(&pids[k]));
            k = k + 1;
        }
        let branches = branches_at_tip(tips, &full);
        let ghost full_view = full@;
        let ghost message_g = message;
        let ghost author_g = author;
        let ghost branches_g = branches@;
        let c = commit_info_from(full, message, author, time, &parent_hexes, branches, head_hex);
        proof {
            crate::text::lemma_first_line_single(text_or(message_g, Seq::empty()));
            assert forall|i: int| 0 <= i < c.parents@.len() implies (#[trigger] c.parents@[i])@.len() == 7 by {
                assert(strings_view(c.parents@)[i] == c.parents@[i]@);
                assert(commit_info_is(c, full_view, message_g, author_g, time, parent_hexes@, strings_view(branches_g), *head_hex));
                assert(strings_view(c.parents@).len() == c.parents@.len());
                assert(short_ids(parent_hexes@).len() == parent_hexes@.len());
                assert(short_ids(parent_hexes@)[i] == short_sha(parent_hexes@[i]@));
            }
            assert(commit_info_is(c, c.id_full@, message_g, author_g, c.time, parent_hexes@, branches_at(tips@, c.id_full@), *head_hex));
            assert(commit_row_of(c, tips@, *head_hex));
        }
        let ghost before = commits@;
        commits.push(c);
        proof {
            assert forall|i: int| 0 <= i < commits@.len() implies commit_row_of(#[trigger] commits@[i], tips@, *head_hex) by {
                if i < before.len() {
                    assert(commits@[i] == before[i]);
                }
            }
        }
    }
    Ok(commits)
}

/// Gets the commit log (newest first, topologically) with branch labels:
/// at most `max_count` commits (one when `max_count` is 0), none when the
/// repository has no HEAD yet. The walk starts from HEAD and from every
/// local branch tip (`start_walk`); each row is `commit_info_from` of a
/// commit the walk gives, labelled with the branches (local and remote)
/// whose tip it is and marked when HEAD points at it.
pub fn get_commits(repo: &git2::Repository, max_count: usize) -> (r: Result<Vec<CommitInfo>, GitError>)
    ensures
        r matches Ok(v) ==> v.len() <= (if max_count == 0 {
            1
        } else {
            max_count as int
        }) && forall|i: int| 0 <= i < v.len() ==> commit_well_formed(#[trigger] v@[i]),
        r matches Ok(v) ==> v.len() > 0 ==> log_from_walk(v@, if max_count == 0 {
            1
        } else {
            max_count as int
        }),
{
    if let Some(none) = log_without_head(repo_head(repo).is_ok()) {
        return Ok(none);
    }
    // Walk from every local branch tip too, so all history shows.
    let local = match repo_branches(repo, true) {
        Ok(b) => b,
        Err(e) => {
            return Err(git_error(&e));
        },
    };
    let mut local_targets: Vec<Option<String>> = Vec::new();
    let mut i: usize = 0;
    while i < local.len()
        decreases local.len() - i,
    {
        match &local[i] {
            Err(e) => {
                return Err(git_error(e));
            },
            Ok((b, _)) => {
                local_targets.push(match reference_target(branch_reference(b)) {
                    Some(t) => Some(oid_to_hex(&t)),
                    None => None,
                });
            },
        }
        i = i + 1;
    }
    let local_tips = present_values(local_targets);
    let mut walk = match start_walk(repo, &local_tips) {
        Ok(w) => w,
        Err(e) => {
            return Err(e);
        },
    };
    let ghost started = walk;
    // The (tip, name) reports of all branches.
    let all = match repo_branches(repo, false) {
        Ok(b) => b,
        Err(e) => {
            return Err(git_error(&e));
        },
    };
    let mut reports: Vec<(Option<String>, Option<String>)> = Vec::new();
    let mut j: usize = 0;
    while j < all.len()
        decreases all.len() - j,
    {
        match &all[j] {
            Err(e) => {
                return Err(git_error(e));
            },
            Ok((b, _)) => {
                let name = match branch_name(b) {
                    Ok(n) => n,
                    Err(e) => {
                        return Err(git_error(&e));
                    },
                };
                let target = match reference_target(branch_reference(b)) {
                    Some(t) => Some(oid_to_hex(&t)),
                    None => None,
                };
                reports.push((target, name));
            },
        }
        j = j + 1;
    }
    let tips = tip_pairs(reports);
    let head_hex: Option<String> = match repo_head(repo) {
        Ok(h) => match reference_target(&h) {
            Some(t) => Some(oid_to_hex(&t)),
            None => None,
        },
        Err(_) => None,
    };
    let bound: usize = if max_count == 0 {
        1
    } else {
        max_count
    };
    match collect_commits(repo, &mut walk, &tips, &head_hex, bound) {
        Ok(commits) => {
            proof {
                assert(commit_rows_of(commits@, tips@, head_hex));
                assert(rows_share_tips(commits@));
                assert(walk_started(started, local_tips@));
                if commits.len() < bound {
                    assert(walk_exhausted(walk));
                }
            }
            assert(log_from_walk(commits@, bound as int));
            Ok(commits)
        },
        Err(e) => Err(e),
    }
}

} // verus!

verus! {

/// Which side a status listing compares: the index against HEAD, the
/// working tree against the index, or both.
#[derive(Clone, Copy, Debug, PartialEq, Eq, Structural)]
pub enum StatusScope {
    IndexAndWorkdir,
    Index,
    Workdir,
}

/// What a status listing asks the repository for: untracked files
/// included, untracked directories walked into, and both the index and the
/// working tree compared.
pub fn status_query() -> (q: (bool, bool, StatusScope))
    ensures
        q == (true, true, StatusScope::IndexAndWorkdir),
{
    (true, true, StatusScope::IndexAndWorkdir)
}

/// Gets the status of the files in the working tree: the staged and the
/// unstaged lists, as `split_statuses` makes them from what the repository
/// reports.
pub fn get_status(repo: &git2::Repository) -> (r: Result<(Vec<FileStatus>, Vec<FileStatus>), GitError>)
    ensures
        r matches Ok((s, u)) ==> exists|e: Seq<(Option<String>, u32)>|
            files_view(s@) == staged_of(e) && files_view(u@) == unstaged_of(e),
        r matches Ok((s, u)) ==> paths_nul_free(s@) && paths_nul_free(u@),
{
    let (untracked, recurse, scope) = status_query();
    match repo_statuses(repo, untracked, recurse, scope) {
        Ok(entries) => {
            let (s, u) = split_statuses(&entries);
            assert(files_view(s@) == staged_of(entries@) && files_view(u@) == unstaged_of(entries@));
            proof {
                reveal_strlit("???");
                lemma_status_paths_nul_free(entries@);
                lemma_view_paths(s@);
                lemma_view_paths(u@);
            }
            Ok((s, u))
        },
        Err(e) => Err(git_error(&e)),
    }
}

/// Stages a file (adds it to the index).
pub fn stage_file(repo: &git2::Repository, path: &str) -> (r: Result<(), GitError>) {
    let mut index = match repo_index(repo) {
        Ok(i) => i,
        Err(e) => {
            return Err(git_error(&e));
        },
    };
    if let Err(e) = index_add_path(&mut index, path) {
        return Err(git_error(&e));
    }
    if let Err(e) = index_write(&mut index) {
        return Err(git_error(&e));
    }
    Ok(())
}

/// How a file is unstaged: its index entry reset to the HEAD commit's, or,
/// with no commit yet, removed from the index.
#[derive(Clone, Copy, Debug, PartialEq, Eq, Structural)]
pub enum UnstageStep {
    ResetToHead,
    RemoveFromIndex,
}

/// Picks how to unstage a file from whether HEAD names a commit.
pub fn unstage_plan(head_commit_found: bool) -> (s: UnstageStep)
    ensures
        s == (if head_commit_found {
            UnstageStep::ResetToHead
        } else {
            UnstageStep::RemoveFromIndex
        }),
{
    if head_commit_found {
        UnstageStep::ResetToHead
    } else {
        UnstageStep::RemoveFromIndex
    }
}

/// Unstages a file: resets its index entry to HEAD, or removes it from the
/// index when there is no commit yet (`unstage_plan`); the working tree is
/// kept.
pub fn unstage_file(repo: &git2::Repository, path: &str) -> (r: Result<(), GitError>) {
    let head_commit = match repo_head(repo) {
        Ok(h) => match reference_peel_to_commit(&h) {
            Ok(c) => Some(c),
            Err(_) => None,
        },
        Err(_) => None,
    };
    match (unstage_plan(head_commit.is_some()), head_commit) {
        (UnstageStep::ResetToHead, Some(c)) => {
            if let Err(e) = repo_reset_default(repo, commit_as_object(&c), path) {
                return Err(git_error(&e));
            }
        },
        _ => {
            let mut index = match repo_index(repo) {
                Ok(i) => i,
                Err(e) => {
                    return Err(git_error(&e));
                },
            };
            if let Err(e) = index_remove_path(&mut index, path) {
                return Err(git_error(&e));
            }
            if let Err(e) = index_write(&mut index) {
                return Err(git_error(&e));
            }
        },
    }
    Ok(())
}

/// What a new commit is made with, besides the tree and the message: the
/// reference it moves, and the identity used when none is configured.
pub struct CommitRequest {
    pub update_ref: String,
    pub fallback_name: String,
    pub fallback_email: String,
}

/// The commit request: HEAD moves to the new commit, and the fallback
/// identity is "User <user@example.com>".
pub fn commit_request() -> (q: CommitRequest)
    ensures
        q.update_ref@ == "HEAD"@,
        q.fallback_name@ == "User"@,
        q.fallback_email@ == "user@example.com"@,
{
    CommitRequest {
        update_ref: "HEAD".to_owned(),
        fallback_name: "User".to_owned(),
        fallback_email: "user@example.com".to_owned(),
    }
}

/// The parents of a new commit: HEAD's commit when there is one, none
/// otherwise.
pub fn new_commit_parents<'a, 'r>(head_commit: &'a Option<git2::Commit<'r>>) -> (p: Vec<&'a git2::Commit<'r>>)
    ensures
        match head_commit {
            Some(c) => p@ == seq![c],
            None => p@.len() == 0,
        },
{
    let mut parents: Vec<&git2::Commit> = Vec::new();
    if let Some(c) = head_commit {
        parents.push(c);
    }
    parents
}

/// Creates a commit of the current index on HEAD and gives its short id.
/// The author is the configured user, or "User <user@example.com>".
pub fn create_commit(repo: &git2::Repository, message: &str) -> (r: Result<String, GitError>)
    ensures
        r matches Ok(sha) ==> sha@.len() == 7 && exists|h: Seq<char>| h.len() == 40 && sha@ == short_sha(h),
{
    let mut index = match repo_index(repo) {
        Ok(i) => i,
        Err(e) => {
            return Err(git_error(&e));
        },
    };
    let tree_oid = match index_write_tree(&mut index) {
        Ok(o) => o,
        Err(e) => {
            return Err(git_error(&e));
        },
    };
    let tree = match repo_find_tree(repo, tree_oid) {
        Ok(t) => t,
        Err(e) => {
            return Err(git_error(&e));
        },
    };
    let request = commit_request();
    let sig = match repo_signature(repo) {
        Ok(s) => s,
        Err(_) => match signature_now(request.fallback_name.as_str(), request.fallback_email.as_str()) {
            Ok(s) => s,
            Err(e) => {
                return Err(git_error(&e));
            },
        },
    };
    let parent = match repo_head(repo) {
        Ok(h) => match reference_peel_to_commit(&h) {
            Ok(c) => Some(c),
            Err(_) => None,
        },
        Err(_) => None,
    };
    let parents = new_commit_parents(&parent);
    let oid = repo_commit(repo, Some(request.update_ref.as_str()), &sig, &sig, message, &tree, parents.as_slice());
    match oid {
        Ok(o) => {
            let hex = oid_to_hex(&o);
            Ok(short_sha_of(&hex))
        },
        Err(e) => Err(git_error(&e)),
    }
}

} // verus!

verus! {

/// What a branch row holds, given what the repository reports for it.
pub open spec fn branch_info_is(
    b: BranchInfo,
    name: Option<String>,
    is_remote: bool,
    is_head: bool,
    upstream: Option<String>,
    target_hex: Option<String>,
) -> bool {
    &&& b.name@ == text_or(name, "???"@)
    &&& b.is_remote == is_remote
    &&& b.is_head == is_head
    &&& (match upstream {
        Some(u) => b.upstream matches Some(v) && v@ == u@,
        None => b.upstream is None,
    })
    &&& b.commit_id@ == (match target_hex {
        Some(h) => short_sha(h@),
        None => Seq::empty(),
    })
}

/// Builds a branch row: the name ("???" when it is missing), its kind, its
/// upstream, and the short id of its tip (empty when it has none).
pub fn branch_info_from(
    name: Option<String>,
    is_remote: bool,
    is_head: bool,
    upstream: Option<String>,
    target_hex: Option<String>,
) -> (b: BranchInfo)
    ensures
        branch_info_is(b, name, is_remote, is_head, upstream, target_hex),
{
    let n = match &name {
        Some(s) => s.clone(),
        None => "???".to_owned(),
    };
    let commit_id = match &target_hex {
        Some(h) => short_sha_of(h),
        None => String::new(),
    };
    BranchInfo { name: n, is_head, is_remote, upstream, commit_id }
}

/// What the repository reports of one branch: its name (`None` when it
/// is not UTF-8), whether it is remote, whether HEAD points at it, the name
/// of its upstream, and the hex id of its tip.
pub type RawBranch = (Option<String>, bool, bool, Option<String>, Option<String>);

/// `v` holds, HEAD first, then local, then remote, each by name, one row
/// built by `branch_info_from` for each report of `raws`.
pub open spec fn branch_list_is(v: Seq<BranchInfo>, raws: Seq<RawBranch>) -> bool {
    &&& branches_sorted(v)
    &&& exists|rows: Seq<BranchInfo>| {
        &&& rows.len() == raws.len()
        &&& forall|k: int| 0 <= k < rows.len() ==> branch_info_is(#[trigger] rows[k], raws[k].0, raws[k].1, raws[k].2, raws[k].3, raws[k].4)
        &&& #[trigger] v.to_multiset() == rows.to_multiset()
    }
}

/// The upstream name a branch report keeps: the name of the upstream when
/// there is one and its name is known.
pub open spec fn upstream_kept(upstream: Option<Option<String>>) -> Option<String> {
    match upstream {
        Some(Some(u)) => Some(u),
        _ => None,
    }
}

/// The report of one branch from what the repository gives for it: its
/// name, its kind, whether HEAD points at it, its upstream (`None` when it
/// has none, `Some(None)` when the upstream's name is unknown) and the hex
/// id of its tip.
pub fn raw_branch(
    name: Option<String>,
    is_remote: bool,
    is_head: bool,
    upstream: Option<Option<String>>,
    target_hex: Option<String>,
) -> (r: RawBranch)
    ensures
        r == (name, is_remote, is_head, upstream_kept(upstream), target_hex),
{
    let kept = match upstream {
        Some(Some(u)) => Some(u),
        _ => None,
    };
    (name, is_remote, is_head, kept, target_hex)
}

/// `v` is the branch list of some reports (`branch_list_is`).
pub open spec fn is_branch_list(v: Seq<BranchInfo>) -> bool {
    exists|raws: Seq<RawBranch>| #[trigger] branch_list_is(v, raws)
}

/// Builds the sorted branch list from what the repository reports of each
/// branch.
pub fn branch_list_from(raws: Vec<RawBranch>) -> (v: Vec<BranchInfo>)
    ensures
        branch_list_is(v@, raws@),
{
    let ghost all = raws@;
    let mut rest = raws;
    let mut rows: Vec<BranchInfo> = Vec::new();
    while rest.len() > 0
        invariant
            rows.len() + rest.len() == all.len(),
            rest@ == all.skip(rows.len() as int),
            forall|k: int| 0 <= k < rows.len() ==> branch_info_is(#[trigger] rows@[k], all[k].0, all[k].1, all[k].2, all[k].3, all[k].4),
        decreases rest.len(),
    {
        let (name, is_remote, is_head, upstream, target_hex) = rest.remove(0);
        proof {
            assert(all[rows.len() as int] == (name, is_remote, is_head, upstream, target_hex));
        }
        let row = branch_info_from(name, is_remote, is_head, upstream, target_hex);
        rows.push(row);
        proof {
            assert(rest@ =~= all.skip(rows.len() as int));
        }
    }
    let ghost rows_g = rows@;
    let v = sort_branches(rows);
    assert(v@.to_multiset() == rows_g.to_multiset());
    v
}

/// Gets the list of branches, HEAD first, then local, then remote, each by
/// name: `branch_list_from` of what the repository reports of every branch,
/// local and remote. Which branches it reports is the repository's.
pub fn get_branches(repo: &git2::Repository) -> (r: Result<Vec<BranchInfo>, GitError>)
    ensures
        r matches Ok(v) ==> is_branch_list(v@),
{
    let all = match repo_branches(repo, false) {
        Ok(b) => b,
        Err(e) => {
            return Err(git_error(&e));
        },
    };
    let mut raws: Vec<RawBranch> = Vec::new();
    let mut i: usize = 0;
    while i < all.len()
        decreases all.len() - i,
    {
        match &all[i] {
            Err(e) => {
                return Err(git_error(e));
            },
            Ok((b, is_remote)) => {
                let name = match branch_name(b) {
                    Ok(n) => n,
                    Err(e) => {
                        return Err(git_error(&e));
                    },
                };
                let upstream = match branch_upstream(b) {
                    Ok(u) => Some(match branch_name(&u) {
                        Ok(n) => n,
                        Err(_) => None,
                    }),
                    Err(_) => None,
                };
                let target_hex = match reference_target(branch_reference(b)) {
                    Some(t) => Some(oid_to_hex(&t)),
                    None => None,
                };
                raws.push(raw_branch(name, *is_remote, branch_is_head(b), upstream, target_hex));
            },
        }
        i = i + 1;
    }
    let ghost raws_g = raws@;
    let v = branch_list_from(raws);
    assert(branch_list_is(v@, raws_g));
    assert(is_branch_list(v@));
    Ok(v)
}

/// Creates a new branch at HEAD.
pub fn create_branch(repo: &git2::Repository, name: &str) -> (r: Result<(), GitError>) {
    let head = match repo_head(repo) {
        Ok(h) => h,
        Err(e) => {
            return Err(git_error(&e));
        },
    };
    let commit = match reference_peel_to_commit(&head) {
        Ok(c) => c,
        Err(e) => {
            return Err(git_error(&e));
        },
    };
    match repo_branch(repo, name, &commit, false) {
        Ok(()) => Ok(()),
        Err(e) => Err(git_error(&e)),
    }
}

/// The full reference name of a local branch.
pub fn branch_ref_name(name: &str) -> (r: String)
    ensures
        r@ == "refs/heads/"@ + name@,
{
    join2("refs/heads/", name)
}

/// Switches to a local branch: checks out its tree and points HEAD at it.
pub fn checkout_branch(repo: &git2::Repository, name: &str) -> (r: Result<(), GitError>) {
    let spec = branch_ref_name(name);
    let (object, reference) = match repo_revparse_ext(repo, spec.as_str()) {
        Ok(p) => p,
        Err(e) => {
            return Err(git_error(&e));
        },
    };
    if let Err(e) = repo_checkout_tree(repo, &object) {
        return Err(git_error(&e));
    }
    if let Some(reference) = reference {
        let full = reference_name_bytes(&reference);
        if let Err(e) = repo_set_head_bytes(repo, full.as_slice()) {
            return Err(git_error(&e));
        }
    }
    Ok(())
}

/// Deletes a local branch.
pub fn delete_branch(repo: &git2::Repository, name: &str) -> (r: Result<(), GitError>) {
    let mut branch = match repo_find_local_branch(repo, name) {
        Ok(b) => b,
        Err(e) => {
            return Err(git_error(&e));
        },
    };
    match branch_delete(&mut branch) {
        Ok(()) => Ok(()),
        Err(e) => Err(git_error(&e)),
    }
}

/// The marker a patch line gets for its origin: `+`, `-`, a space for
/// context, nothing for headers.
pub open spec fn patch_prefix(origin: char) -> Seq<char> {
    if origin == '+' {
        seq!['+']
    } else if origin == '-' {
        seq!['-']
    } else if origin == ' ' {
        seq![' ']
    } else {
        Seq::empty()
    }
}

/// The patch text of printed diff lines (a line whose content is not UTF-8
/// contributes only its marker).
pub open spec fn patch_body(lines: Seq<(char, Option<String>)>) -> Seq<char>
    decreases lines.len(),
{
    if lines.len() == 0 {
        Seq::empty()
    } else {
        patch_body(lines.drop_last()) + patch_prefix(lines.last().0) + text_or(
            lines.last().1,
            Seq::empty(),
        )
    }
}

/// The diff text shown for printed diff lines: the patch, or
/// "(no diff available)" when it is empty.
pub open spec fn diff_text_spec(lines: Seq<(char, Option<String>)>) -> Seq<char> {
    if patch_body(lines).len() == 0 {
        "(no diff available)"@
    } else {
        patch_body(lines)
    }
}

/// Renders printed diff lines as patch text.
pub fn diff_text(lines: &Vec<(char, Option<String>)>) -> (r: String)
    ensures
        r@ == diff_text_spec(lines@),
{
    let mut result = String::new();
    let mut i: usize = 0;
    while i < lines.len()
        invariant
            i <= lines.len(),
            result@ == patch_body(lines@.take(i as int)),
        decreases lines.len() - i,
    {
        assert(lines@.take(i + 1).drop_last() =~= lines@.take(i as int));
        assert(lines@.take(i + 1).last() == lines@[i as int]);
        let origin = lines[i].0;
        if origin == '+' {
            string_push(&mut result, '+');
        } else if origin == '-' {
            string_push(&mut result, '-');
        } else if origin == ' ' {
            string_push(&mut result, ' ');
        }
        match &lines[i].1 {
            Some(content) => result.append(content.as_str()),
            None => {},
        }
        assert(result@ =~= patch_body(lines@.take(i + 1)));
        i = i + 1;
    }
    assert(lines@.take(lines.len() as int) =~= lines@);
    if result.as_str().is_empty() {
        "(no diff available)".to_owned()
    } else {
        result
    }
}

/// How `Diff::print` writes a diff: full patches, their headers only, raw
/// entries, names, or names with statuses.
#[derive(Clone, Copy, Debug, PartialEq, Eq, Structural)]
pub enum PrintFormat {
    Patch,
    PatchHeader,
    Raw,
    NameOnly,
    NameStatus,
}

/// Which diff of a file is taken: the index against HEAD's tree, the index
/// against an empty tree (no commit yet), or the working tree against the
/// index.
#[derive(Clone, Copy, Debug, PartialEq, Eq, Structural)]
pub enum DiffStep {
    HeadTreeToIndex,
    EmptyTreeToIndex,
    IndexToWorkdir,
}

/// Picks the diff to take: a staged file's change is the index against
/// HEAD's tree (an empty tree when HEAD names no tree), an unstaged one's
/// the working tree against the index.
pub fn diff_plan(staged: bool, head_tree_found: bool) -> (d: DiffStep)
    ensures
        d == (if !staged {
            DiffStep::IndexToWorkdir
        } else if head_tree_found {
            DiffStep::HeadTreeToIndex
        } else {
            DiffStep::EmptyTreeToIndex
        }),
{
    if !staged {
        DiffStep::IndexToWorkdir
    } else if head_tree_found {
        DiffStep::HeadTreeToIndex
    } else {
        DiffStep::EmptyTreeToIndex
    }
}

/// Gets the diff of one file as text: staged (the index against HEAD) or
/// unstaged (the working tree against the index), as `diff_plan` picks,
/// printed as a patch; "(no diff available)" when it is empty.
pub fn get_file_diff(repo: &git2::Repository, path: &str, staged: bool) -> (r: Result<String, GitError>)
    requires
        !path@.contains('\0'),
    ensures
        r matches Ok(t) ==> exists|lines: Seq<(char, Option<String>)>| t@ == diff_text_spec(lines),
{
    let head_tree = if staged {
        match repo_head(repo) {
            Ok(h) => match reference_peel_to_tree(&h) {
                Ok(t) => Some(t),
                Err(_) => None,
            },
            Err(_) => None,
        }
    } else {
        None
    };
    let diff = match (diff_plan(staged, head_tree.is_some()), &head_tree) {
        (DiffStep::IndexToWorkdir, _) => repo_diff_index_to_workdir(repo, path),
        (DiffStep::HeadTreeToIndex, Some(t)) => repo_diff_tree_to_index(repo, Some(t), path),
        _ => repo_diff_tree_to_index(repo, None, path),
    };
    let diff = match diff {
        Ok(d) => d,
        Err(e) => {
            return Err(git_error(&e));
        },
    };
    match diff_print_lines(&diff, PrintFormat::Patch) {
        Ok(lines) => {
            let t = diff_text(&lines);
            assert(t@ == diff_text_spec(lines@));
            Ok(t)
        },
        Err(e) => Err(git_error(&e)),
    }
}

} // verus!

verus! {

// ── Remote status ──────────────────────────────────────────

/// The remote tracking status given the upstream's name (`None` when the
/// current branch has no upstream) and the ahead/behind counts.
pub open spec fn remote_status_is(s: RemoteStatus, upstream: Option<Seq<char>>, ahead: usize, behind: usize) -> bool {
    match upstream {
        None => s.remote_name is None && s.upstream_branch is None && s.ahead == 0 && s.behind == 0,
        Some(u) => {
            &&& s.upstream_branch matches Some(b) && b@ == u
            &&& s.remote_name matches Some(r) && r@ == before_char(u, '/')
            &&& s.ahead == ahead
            &&& s.behind == behind
        },
    }
}

/// The status with no remote: nothing ahead or behind.
pub fn no_remote_status() -> (s: RemoteStatus)
    ensures
        remote_status_is(s, None, 0, 0),
{
    RemoteStatus { ahead: 0, behind: 0, remote_name: None, upstream_branch: None }
}

/// The status of a branch tracking `upstream_name`.
pub fn tracking_status(upstream_name: String, ahead: usize, behind: usize) -> (s: RemoteStatus)
    ensures
        remote_status_is(s, Some(upstream_name@), ahead, behind),
{
    let remote = parse_remote_name(&upstream_name);
    RemoteStatus { ahead, behind, remote_name: Some(remote), upstream_branch: Some(upstream_name) }
}

/// HEAD's branch name, when HEAD could be read and has a short name.
pub fn head_branch_name(head_found: bool, shorthand: Option<String>) -> (r: Option<String>)
    ensures
        r == (if head_found {
            shorthand
        } else {
            None
        }),
{
    if head_found {
        shorthand
    } else {
        None
    }
}

/// The tracking status from the upstream's name (`None` when there is no
/// upstream) and the counts: no names and zeros without an upstream.
pub fn remote_status_from(upstream_name: Option<String>, counts: AheadBehind) -> (s: RemoteStatus)
    ensures
        match upstream_name {
            Some(u) => remote_status_is(s, Some(u@), counts.ahead, counts.behind),
            None => remote_status_is(s, None, 0, 0),
        },
{
    match upstream_name {
        Some(u) => tracking_status(u, counts.ahead, counts.behind),
        None => no_remote_status(),
    }
}

/// Gets the ahead/behind counts of the current branch relative to its
/// upstream (all zero, with no names, when there is no HEAD, no branch name
/// or no upstream).
pub fn get_remote_status(repo: &git2::Repository) -> (r: Result<RemoteStatus, GitError>)
    ensures
        r matches Ok(s) ==> exists|u: Option<Seq<char>>, a: usize, b: usize| remote_status_is(s, u, a, b),
{
    let none = AheadBehind { ahead: 0, behind: 0 };
    let head = repo_head(repo);
    let short = match &head {
        Ok(h) => reference_shorthand(h),
        Err(_) => None,
    };
    let head_branch = match head_branch_name(head.is_ok(), short) {
        Some(n) => n,
        None => {
            return Ok(remote_status_from(None, none));
        },
    };
    let head = match head {
        Ok(h) => h,
        Err(e) => {
            return Err(git_error(&e));
        },
    };
    let local = match repo_find_local_branch(repo, head_branch.as_str()) {
        Ok(b) => b,
        Err(e) => {
            return Err(git_error(&e));
        },
    };
    let upstream = match branch_upstream(&local) {
        Ok(u) => u,
        Err(_) => {
            return Ok(remote_status_from(None, none));
        },
    };
    let upstream_name = match branch_name(&upstream) {
        Ok(Some(n)) => n,
        Ok(None) => String::new(),
        Err(e) => {
            return Err(git_error(&e));
        },
    };
    let local_oid = match reference_target(&head) {
        Some(o) => o,
        None => {
            return Err(error_with("HEAD has no target"));
        },
    };
    let upstream_oid = match reference_target(branch_reference(&upstream)) {
        Some(o) => o,
        None => {
            return Err(error_with("Upstream has no target"));
        },
    };
    match repo_graph_ahead_behind(repo, local_oid, upstream_oid) {
        Ok(counts) => {
            let s = remote_status_from(Some(upstream_name), counts);
            Ok(s)
        },
        Err(e) => Err(git_error(&e)),
    }
}

/// The remote to look up: the given name, or "origin".
pub fn remote_or_origin<'a>(name: Option<&'a str>) -> (r: &'a str)
    ensures
        match name {
            Some(n) => r@ == n@,
            None => r@ == "origin"@,
        },
{
    match name {
        Some(n) => n,
        None => "origin",
    }
}

/// Gets the URL of a remote (of "origin" when no name is given).
pub fn get_remote_url(repo: &git2::Repository, name: Option<&str>) -> (r: Option<String>) {
    match repo_find_remote(repo, remote_or_origin(name)) {
        Ok(remote) => remote_url(&remote),
        Err(_) => None,
    }
}

/// The current branch's name, or "detached" when HEAD has no usable name.
pub fn branch_or_detached(shorthand: Option<String>) -> (r: String)
    ensures
        r@ == text_or(shorthand, "detached"@),
{
    match shorthand {
        Some(s) => s,
        None => "detached".to_owned(),
    }
}

/// Gets the current branch name: HEAD's short name, or "detached" when
/// HEAD cannot be read or has none (`head_branch_name`, then
/// `branch_or_detached`).
pub fn get_current_branch(repo: &git2::Repository) -> (r: String)
    ensures
        exists|s: Option<String>| r@ == #[trigger] text_or(s, "detached"@),
{
    let head = repo_head(repo);
    let short = match &head {
        Ok(h) => reference_shorthand(h),
        Err(_) => None,
    };
    let name = head_branch_name(head.is_ok(), short);
    let ghost g = name;
    let r = branch_or_detached(name);
    assert(r@ == text_or(g, "detached"@));
    r
}

// ── Remote operations: the local part ──────────────────────

/// The network operation the user asked for.
#[derive(Clone, Copy, Debug, PartialEq, Eq, Structural)]
pub enum RemoteOp {
    Fetch,
    Push,
    Pull,
}

/// The error of a fetch or push with no HEAD.
pub open spec fn no_head_text(for_push: bool) -> Seq<char> {
    if for_push {
        "Cannot push: no HEAD"@
    } else {
        "Cannot fetch: no HEAD"@
    }
}

/// The error of a fetch or push from a branch with no upstream, with the
/// command that sets one.
pub open spec fn no_upstream_text(for_push: bool) -> Seq<char> {
    if for_push {
        "No upstream branch configured. Set one with: git push -u origin <branch>"@
    } else {
        "No upstream branch configured. Set one with: git branch --set-upstream-to=origin/<branch>"@
    }
}

/// The branch a fetch or push starts from, given what HEAD gave: `None`
/// when there is no HEAD, `Some(None)` when it has no usable short name.
pub fn head_branch(for_push: bool, head: Option<Option<String>>) -> (r: Result<String, GitError>)
    ensures
        match head {
            None => r matches Err(e) && e.message@ == no_head_text(for_push),
            Some(None) => r matches Err(e) && e.message@ == "Cannot determine branch name"@,
            Some(Some(b)) => r matches Ok(n) && n@ == b@,
        },
{
    match head {
        None => Err(error_with(
            if for_push {
                "Cannot push: no HEAD"
            } else {
                "Cannot fetch: no HEAD"
            },
        )),
        Some(None) => Err(error_with("Cannot determine branch name")),
        Some(Some(b)) => Ok(b),
    }
}

/// The remote a fetch or push talks to, given what the branch's upstream
/// lookup gave: `None` when there is no upstream, else the upstream's name
/// (`None` when it is not UTF-8, standing for "origin"); the remote is the
/// part of that name before its first '/'.
pub fn upstream_remote(for_push: bool, upstream: Option<Option<String>>) -> (r: Result<String, GitError>)
    ensures
        match upstream {
            None => r matches Err(e) && e.message@ == no_upstream_text(for_push),
            Some(n) => r matches Ok(remote) && remote@ == before_char(text_or(n, "origin"@), '/'),
        },
{
    match upstream {
        None => Err(error_with(
            if for_push {
                "No upstream branch configured. Set one with: git push -u origin <branch>"
            } else {
                "No upstream branch configured. Set one with: git branch --set-upstream-to=origin/<branch>"
            },
        )),
        Some(n) => {
            let ghost named = n;
            let upstream_name = match n {
                Some(m) => m,
                None => "origin".to_owned(),
            };
            assert(upstream_name@ == text_or(named, "origin"@));
            Ok(parse_remote_name(&upstream_name))
        },
    }
}

/// The current branch and the remote its upstream lives on: what a fetch or
/// a push talks to. Fails, with the message the operation shows, when there
/// is no HEAD (`head_branch`), or no upstream (`upstream_remote`); with the
/// repository's error when the branch or the upstream's name cannot be read.
pub fn upstream_of_head(repo: &git2::Repository, for_push: bool) -> (r: Result<(String, String), GitError>)
    ensures
        r matches Ok((_, remote)) ==> exists|u: Option<String>| remote@ == before_char(text_or(u, "origin"@), '/'),
{
    let head = match repo_head(repo) {
        Ok(h) => Some(reference_shorthand(&h)),
        Err(_) => None,
    };
    let branch = match head_branch(for_push, head) {
        Ok(b) => b,
        Err(e) => {
            return Err(e);
        },
    };
    let local = match repo_find_local_branch(repo, branch.as_str()) {
        Ok(b) => b,
        Err(e) => {
            return Err(git_error(&e));
        },
    };
    let upstream = match branch_upstream(&local) {
        Ok(u) => match branch_name(&u) {
            Ok(n) => Some(n),
            Err(e) => {
                return Err(git_error(&e));
            },
        },
        Err(_) => None,
    };
    match upstream_remote(for_push, upstream) {
        Ok(remote) => Ok((branch, remote)),
        Err(e) => Err(e),
    }
}

/// An SSH key file tried for a remote, by its name under `~/.ssh`.
#[derive(Clone, Copy, Debug, PartialEq, Eq, Structural)]
pub enum SshKey {
    Ed25519,
    Rsa,
    Ecdsa,
}

/// The file name of an SSH key under `~/.ssh`.
pub fn ssh_key_file(k: SshKey) -> (name: &'static str)
    ensures
        name@ == (match k {
            SshKey::Ed25519 => "id_ed25519"@,
            SshKey::Rsa => "id_rsa"@,
            SshKey::Ecdsa => "id_ecdsa"@,
        }),
{
    match k {
        SshKey::Ed25519 => "id_ed25519",
        SshKey::Rsa => "id_rsa",
        SshKey::Ecdsa => "id_ecdsa",
    }
}

/// One way of finding credentials for a remote.
#[derive(Clone, Copy, Debug, PartialEq, Eq, Structural)]
pub enum CredStep {
    /// ask the SSH agent
    Agent,
    /// the key file, when it exists
    KeyFile(SshKey),
    /// Git's configured credential helper
    Helper,
    /// libgit2's default credentials
    Default,
}

/// The order in which credentials are looked for: when the remote accepts
/// an SSH key, the agent and then the key files id_ed25519, id_rsa and
/// id_ecdsa; when it accepts a user name and password, the credential
/// helper; and last the default credentials. The first step that gives
/// credentials is used.
pub open spec fn credential_plan_spec(ssh_key: bool, user_pass: bool) -> Seq<CredStep> {
    (if ssh_key {
        seq![
            CredStep::Agent,
            CredStep::KeyFile(SshKey::Ed25519),
            CredStep::KeyFile(SshKey::Rsa),
            CredStep::KeyFile(SshKey::Ecdsa),
        ]
    } else {
        Seq::empty()
    }) + (if user_pass {
        seq![CredStep::Helper]
    } else {
        Seq::empty()
    }) + seq![CredStep::Default]
}

/// The steps of looking for credentials, given which kinds the remote
/// accepts.
pub fn credential_plan(ssh_key: bool, user_pass: bool) -> (r: Vec<CredStep>)
    ensures
        r@ == credential_plan_spec(ssh_key, user_pass),
{
    let mut r: Vec<CredStep> = Vec::new();
    if ssh_key {
        r.push(CredStep::Agent);
        r.push(CredStep::KeyFile(SshKey::Ed25519));
        r.push(CredStep::KeyFile(SshKey::Rsa));
        r.push(CredStep::KeyFile(SshKey::Ecdsa));
    }
    if user_pass {
        r.push(CredStep::Helper);
    }
    r.push(CredStep::Default);
    assert(r@ =~= credential_plan_spec(ssh_key, user_pass));
    r
}

/// The user name for SSH: the one in the remote's URL, or "git".
pub fn ssh_user<'a>(from_url: Option<&'a str>) -> (u: &'a str)
    ensures
        u@ == (match from_url {
            Some(n) => n@,
            None => "git"@,
        }),
{
    match from_url {
        Some(n) => n,
        None => "git",
    }
}

/// The refspec that pushes a branch to the same name on the remote.
pub fn push_refspec(branch: &str) -> (r: String)
    ensures
        r@ == "refs/heads/"@ + branch@ + ":refs/heads/"@ + branch@,
{
    let mut r = join3("refs/heads/", branch, ":refs/heads/");
    r.append(branch);
    r
}

/// The message shown after a push.
pub fn push_message(branch: &str, remote: &str) -> (r: String)
    ensures
        r@ == "Pushed "@ + branch@ + " to "@ + remote@ + "/"@ + branch@,
{
    let mut r = join3("Pushed ", branch, " to ");
    r.append(remote);
    r.append("/");
    r.append(branch);
    r
}

/// What a pull does once the upstream is fetched.
#[derive(Clone, Copy, Debug, PartialEq, Eq, Structural)]
pub enum PullDecision {
    UpToDate,
    Diverged,
    FastForward,
}

/// A pull is fast-forward only: nothing to do when both point at the same
/// commit or nothing is behind; refused when the branch has diverged.
pub open spec fn pull_decision_spec(same_commit: bool, ahead: usize, behind: usize) -> PullDecision {
    if same_commit {
        PullDecision::UpToDate
    } else if ahead > 0 && behind > 0 {
        PullDecision::Diverged
    } else if behind == 0 {
        PullDecision::UpToDate
    } else {
        PullDecision::FastForward
    }
}

pub fn pull_decision(same_commit: bool, ahead: usize, behind: usize) -> (d: PullDecision)
    ensures
        d == pull_decision_spec(same_commit, ahead, behind),
{
    if same_commit {
        PullDecision::UpToDate
    } else if ahead > 0 && behind > 0 {
        PullDecision::Diverged
    } else if behind == 0 {
        PullDecision::UpToDate
    } else {
        PullDecision::FastForward
    }
}

/// The message of a pull refused because the branch diverged.
pub fn diverged_message(ahead: usize, behind: usize) -> (r: String)
    ensures
        r@ == "Cannot fast-forward: local is "@ + decimal(ahead as nat) + " ahead and "@ + decimal(
            behind as nat,
        ) + " behind. Please merge or rebase manually."@,
{
    let mut r = join2("Cannot fast-forward: local is ", u64_to_string(ahead as u64).as_str());
    r.append(" ahead and ");
    r.append(u64_to_string(behind as u64).as_str());
    r.append(" behind. Please merge or rebase manually.");
    r
}

/// The message of a fast-forward pull.
pub fn fast_forward_message(behind: usize, remote: &str) -> (r: String)
    ensures
        r@ == "Fast-forwarded "@ + decimal(behind as nat) + " commits from "@ + remote@,
{
    let mut r = join2("Fast-forwarded ", u64_to_string(behind as u64).as_str());
    r.append(" commits from ");
    r.append(remote);
    r
}

/// Whether two commits, given by their hex ids, are the same commit.
pub fn same_commit(local_hex: &String, upstream_hex: &String) -> (r: bool)
    ensures
        r == (local_hex@ == upstream_hex@),
{
    local_hex.eq(upstream_hex)
}

/// Completes a pull after the fetch from `remote_name`: fast-forwards the
/// current branch to its upstream when it is only behind; says it is up to
/// date when nothing is behind; refuses when it has diverged.
pub fn fast_forward_to_upstream(repo: &git2::Repository, remote_name: &str) -> (r: Result<String, GitError>)
    ensures
        r matches Ok(m) ==> m@ == "Already up to date"@ || exists|behind: usize| behind > 0 && m@
            == "Fast-forwarded "@ + decimal(behind as nat) + " commits from "@ + remote_name@,
{
    let head = match repo_head(repo) {
        Ok(h) => h,
        Err(e) => {
            return Err(git_error(&e));
        },
    };
    let branch = match reference_shorthand(&head) {
        Some(n) => n,
        None => {
            return Err(error_with("No branch name"));
        },
    };
    let local = match repo_find_local_branch(repo, branch.as_str()) {
        Ok(b) => b,
        Err(e) => {
            return Err(git_error(&e));
        },
    };
    let upstream = match branch_upstream(&local) {
        Ok(u) => u,
        Err(e) => {
            return Err(git_error(&e));
        },
    };
    let upstream_oid = match reference_target(branch_reference(&upstream)) {
        Some(o) => o,
        None => {
            return Err(error_with("Upstream has no target"));
        },
    };
    let local_oid = match reference_target(&head) {
        Some(o) => o,
        None => {
            return Err(error_with("HEAD has no target"));
        },
    };
    let upstream_hex = oid_to_hex(&upstream_oid);
    let local_hex = oid_to_hex(&local_oid);
    let same = same_commit(&local_hex, &upstream_hex);
    let counts = if same {
        AheadBehind { ahead: 0, behind: 0 }
    } else {
        match repo_graph_ahead_behind(repo, local_oid, upstream_oid) {
            Ok(c) => c,
            Err(e) => {
                return Err(git_error(&e));
            },
        }
    };
    apply_pull_decision(repo, branch.as_str(), upstream_oid, upstream_hex.as_str(), same, counts.ahead, counts.behind, remote_name)
}

/// The text of a pull refused because the branch diverged.
pub open spec fn diverged_text(ahead: usize, behind: usize) -> Seq<char> {
    "Cannot fast-forward: local is "@ + decimal(ahead as nat) + " ahead and "@ + decimal(behind as nat)
        + " behind. Please merge or rebase manually."@
}

/// The text of a fast-forward pull.
pub open spec fn fast_forward_text(behind: usize, remote: Seq<char>) -> Seq<char> {
    "Fast-forwarded "@ + decimal(behind as nat) + " commits from "@ + remote
}

/// What a pull answers for its decision: up to date, it answers so at once;
/// diverged, it refuses with the diverged message; to fast-forward, it has
/// the branch moved first (`Ok(None)`).
pub fn pull_outcome(d: PullDecision, ahead: usize, behind: usize) -> (r: Result<Option<String>, GitError>)
    ensures
        match d {
            PullDecision::UpToDate => r matches Ok(Some(m)) && m@ == "Already up to date"@,
            PullDecision::Diverged => r matches Err(e) && e.message@ == diverged_text(ahead, behind),
            PullDecision::FastForward => r matches Ok(None),
        },
{
    match d {
        PullDecision::UpToDate => Ok(Some("Already up to date".to_owned())),
        PullDecision::Diverged => Err(GitError { message: diverged_message(ahead, behind) }),
        PullDecision::FastForward => Ok(None),
    }
}

/// Finishes a pull once HEAD (on `branch`) and its upstream (at
/// `upstream_oid`, hex `upstream_hex`) are known to be the same commit or
/// not, and how far the branch is ahead and behind: up to date, it says so;
/// diverged, it refuses; otherwise it checks out the upstream's tree, moves
/// the branch to it and points HEAD at the branch, and reports the
/// fast-forward (or the error of whichever of those steps failed).
pub fn apply_pull_decision(
    repo: &git2::Repository,
    branch: &str,
    upstream_oid: git2::Oid,
    upstream_hex: &str,
    same: bool,
    ahead: usize,
    behind: usize,
    remote_name: &str,
) -> (r: Result<String, GitError>)
    ensures
        match pull_decision_spec(same, ahead, behind) {
            PullDecision::UpToDate => r matches Ok(m) && m@ == "Already up to date"@,
            PullDecision::Diverged => r matches Err(e) && e.message@ == diverged_text(ahead, behind),
            PullDecision::FastForward => r matches Ok(m) ==> m@ == fast_forward_text(behind, remote_name@),
        },
{
    let d = pull_decision(same, ahead, behind);
    match pull_outcome(d, ahead, behind) {
        Err(e) => Err(e),
        Ok(Some(m)) => Ok(m),
        Ok(None) => {
            let commit = match repo_find_commit(repo, upstream_oid) {
                Ok(c) => c,
                Err(e) => {
                    return Err(git_error(&e));
                },
            };
            let tree = match commit_tree(&commit) {
                Ok(t) => t,
                Err(e) => {
                    return Err(git_error(&e));
                },
            };
            if let Err(e) = repo_checkout_tree(repo, tree_as_object(&tree)) {
                return Err(git_error(&e));
            }
            let refname = branch_ref_name(branch);
            let log = join2("pull: fast-forward to ", short_sha_of(upstream_hex).as_str());
            if let Err(e) = repo_reference(repo, refname.as_str(), upstream_oid, true, log.as_str()) {
                return Err(git_error(&e));
            }
            if let Err(e) = repo_set_head_bytes(repo, refname.as_str().as_bytes()) {
                return Err(git_error(&e));
            }
            Ok(fast_forward_message(behind, remote_name))
        },
    }
}

/// A pull only ever fast-forwards: it moves the branch only when the two
/// commits differ, nothing is ahead and something is behind; it refuses
/// exactly when the branch has diverged (commits on both sides).
pub proof fn law_pull_fast_forward_only(same_commit: bool, ahead: usize, behind: usize)
    ensures
        pull_decision_spec(same_commit, ahead, behind) == PullDecision::FastForward <==> (!same_commit
            && ahead == 0 && behind > 0),
        pull_decision_spec(same_commit, ahead, behind) == PullDecision::Diverged <==> (!same_commit
            && ahead > 0 && behind > 0),
{
}

} // verus!
