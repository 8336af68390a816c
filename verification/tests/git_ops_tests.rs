use git_lumina::git_ops::{
    status_query, diff_plan, head_branch_name, remote_status_from, commit_request, same_commit, present_values,
    tip_pairs, log_without_head, raw_branch, AheadBehind, DiffStep, StatusScope,
    branch_list_from, unstage_plan, UnstageStep,
    credential_plan, head_branch, pull_outcome, ssh_key_file, ssh_user, upstream_remote, CredStep, SshKey,
    branch_or_detached, branch_ref_name, commit_info_from, compute_graph_lanes, diff_text,
    diverged_message, fast_forward_message, open_repo, parse_remote_name, pull_decision,
    push_message, push_refspec, remote_or_origin, repo_search_path, short_sha_of, sort_branches,
    split_statuses, tracking_status, BranchInfo, CommitInfo, FileState, PullDecision,
    STATUS_CONFLICTED, STATUS_INDEX_MODIFIED, STATUS_INDEX_NEW, STATUS_WT_MODIFIED, STATUS_WT_NEW,
};

fn commit(id: &str, parents: &[&str]) -> CommitInfo {
    CommitInfo {
        id: id.into(),
        id_full: String::new(),
        message: String::new(),
        author: String::new(),
        time: 0,
        parents: parents.iter().map(|p| p.to_string()).collect(),
        branches: vec![],
        is_head: false,
    }
}

fn branch(name: &str, is_head: bool, is_remote: bool) -> BranchInfo {
    BranchInfo {
        name: name.to_string(),
        is_head,
        is_remote,
        upstream: None,
        commit_id: "abc1234".to_string(),
    }
}

#[test]
fn given_origin_main_when_parsing_remote_name_then_returns_origin() {
    assert_eq!(parse_remote_name("origin/main"), "origin");
}

#[test]
fn given_a_name_without_slash_when_parsing_then_returns_the_whole_string() {
    assert_eq!(parse_remote_name("origin"), "origin");
}

#[test]
fn given_upstream_develop_when_parsing_remote_name_then_returns_upstream() {
    assert_eq!(parse_remote_name("upstream/develop"), "upstream");
}

#[test]
fn given_no_commits_when_computing_graph_lanes_then_returns_empty() {
    let result = compute_graph_lanes(&[]);
    assert!(result.is_empty());
}

#[test]
fn given_a_linear_history_when_computing_lanes_then_all_commits_share_one_lane() {
    let mut commits = vec![commit("aaa", &["bbb"]), commit("bbb", &["ccc"]), commit("ccc", &[])];
    commits[0].is_head = true;

    let lanes = compute_graph_lanes(&commits);
    assert_eq!(lanes.len(), 3);
    assert_eq!(lanes[0].lane, lanes[1].lane);
    assert_eq!(lanes[1].lane, lanes[2].lane);
    assert!(lanes[0].merge_from.is_none());
    assert!(lanes[1].merge_from.is_none());
}

#[test]
fn given_a_merge_commit_when_computing_lanes_then_parents_are_on_different_lanes() {
    let mut commits = vec![commit("mmm", &["aaa", "bbb"]), commit("aaa", &[]), commit("bbb", &[])];
    commits[0].is_head = true;

    let lanes = compute_graph_lanes(&commits);
    assert_eq!(lanes.len(), 3);
    assert!(lanes[0].merge_from.is_some());
    assert_ne!(lanes[1].lane, lanes[2].lane);
}

#[test]
fn given_an_invalid_path_when_opening_then_it_fails() {
    let result = open_repo(Some("/nonexistent/path/surely"));
    assert!(result.is_err());
}

#[test]
fn invalid_path_error_names_the_problem() {
    match open_repo(Some("/nonexistent/path/surely")) {
        Err(e) => assert_eq!(e.message, "Failed to find a Git repository"),
        Ok(_) => panic!("opened a repository that does not exist"),
    }
}

#[test]
fn merge_lanes_exact_layout() {
    let commits = vec![commit("mmm", &["aaa", "bbb"]), commit("aaa", &[]), commit("bbb", &[])];
    let lanes = compute_graph_lanes(&commits);
    assert_eq!(lanes[0].lane, 0);
    assert_eq!(lanes[0].merge_from, Some(1));
    assert_eq!(lanes[0].active_lanes, vec![true, true]);
    assert_eq!(lanes[1].lane, 0);
    assert_eq!(lanes[1].active_lanes, vec![false, true]);
    assert_eq!(lanes[2].lane, 1);
    assert_eq!(lanes[2].active_lanes, vec![false, false]);
}

#[test]
fn a_closed_lane_is_never_reused() {
    // "x" ends its lane; "y" is expected nowhere and gets a new lane
    let commits = vec![commit("x", &[]), commit("y", &[])];
    let lanes = compute_graph_lanes(&commits);
    assert_eq!(lanes[0].lane, 0);
    assert_eq!(lanes[0].active_lanes, vec![false]);
    assert_eq!(lanes[1].lane, 1);
    assert_eq!(lanes[1].active_lanes, vec![false, false]);
}

#[test]
fn short_sha_keeps_seven_characters() {
    assert_eq!(short_sha_of("0123456789abcdef0123456789abcdef01234567"), "0123456");
    assert_eq!(short_sha_of("abc"), "abc");
}

#[test]
fn statuses_split_into_staged_and_unstaged() {
    let entries = vec![
        (Some("a.txt".to_string()), STATUS_INDEX_NEW | STATUS_WT_MODIFIED),
        (Some("b.txt".to_string()), STATUS_WT_NEW),
        (None, STATUS_INDEX_MODIFIED | STATUS_CONFLICTED),
    ];
    let (staged, unstaged) = split_statuses(&entries);
    assert_eq!(staged.len(), 2);
    assert_eq!(staged[0].path, "a.txt");
    assert_eq!(staged[0].status, FileState::New);
    assert_eq!(staged[1].path, "???");
    assert_eq!(staged[1].status, FileState::Modified);
    assert_eq!(unstaged.len(), 3);
    assert_eq!(unstaged[0].path, "a.txt");
    assert_eq!(unstaged[0].status, FileState::Modified);
    assert_eq!(unstaged[1].path, "b.txt");
    assert_eq!(unstaged[1].status, FileState::New);
    assert_eq!(unstaged[2].status, FileState::Conflicted);
}

#[test]
fn branches_sort_head_first_then_local_then_remote_by_name() {
    let sorted = sort_branches(vec![
        branch("origin/main", false, true),
        branch("zebra", false, false),
        branch("main", true, false),
        branch("alpha", false, false),
        branch("origin/alpha", false, true),
    ]);
    let names: Vec<&str> = sorted.iter().map(|b| b.name.as_str()).collect();
    assert_eq!(names, vec!["main", "alpha", "zebra", "origin/alpha", "origin/main"]);
    assert!(sorted[0].is_head);
}

#[test]
fn diff_text_joins_patch_lines_with_markers() {
    let lines = vec![
        ('F', Some("diff --git a/f b/f\n".to_string())),
        ('H', Some("@@ -1 +1,2 @@\n".to_string())),
        (' ', Some("line1\n".to_string())),
        ('+', Some("line2\n".to_string())),
        ('-', None),
    ];
    assert_eq!(diff_text(&lines), "diff --git a/f b/f\n@@ -1 +1,2 @@\n line1\n+line2\n-");
}

#[test]
fn empty_diff_says_so() {
    assert_eq!(diff_text(&vec![]), "(no diff available)");
}

#[test]
fn pull_decisions() {
    assert_eq!(pull_decision(true, 3, 3), PullDecision::UpToDate);
    assert_eq!(pull_decision(false, 2, 1), PullDecision::Diverged);
    assert_eq!(pull_decision(false, 2, 0), PullDecision::UpToDate);
    assert_eq!(pull_decision(false, 0, 0), PullDecision::UpToDate);
    assert_eq!(pull_decision(false, 0, 4), PullDecision::FastForward);
}

#[test]
fn pull_messages() {
    assert_eq!(
        diverged_message(2, 3),
        "Cannot fast-forward: local is 2 ahead and 3 behind. Please merge or rebase manually."
    );
    assert_eq!(fast_forward_message(5, "origin"), "Fast-forwarded 5 commits from origin");
}

#[test]
fn push_refspec_and_message() {
    assert_eq!(push_refspec("main"), "refs/heads/main:refs/heads/main");
    assert_eq!(push_message("main", "origin"), "Pushed main to origin/main");
}

#[test]
fn small_defaults() {
    assert_eq!(branch_ref_name("dev"), "refs/heads/dev");
    assert_eq!(branch_or_detached(None), "detached");
    assert_eq!(branch_or_detached(Some("main".to_string())), "main");
    assert_eq!(remote_or_origin(None), "origin");
    assert_eq!(remote_or_origin(Some("upstream")), "upstream");
    assert_eq!(repo_search_path(None), ".");
    assert_eq!(repo_search_path(Some("/x")), "/x");
}

#[test]
fn tracking_status_names_the_remote() {
    let s = tracking_status("upstream/develop".to_string(), 2, 1);
    assert_eq!(s.ahead, 2);
    assert_eq!(s.behind, 1);
    assert_eq!(s.remote_name.as_deref(), Some("upstream"));
    assert_eq!(s.upstream_branch.as_deref(), Some("upstream/develop"));
}

#[test]
fn commit_rows_keep_first_line_and_short_ids() {
    let full = "0123456789abcdef0123456789abcdef01234567".to_string();
    let parents = vec!["fedcba9876543210fedcba9876543210fedcba98".to_string()];
    let c = commit_info_from(
        full.clone(),
        Some("Subject line\r\n\nBody".to_string()),
        None,
        42,
        &parents,
        vec!["main".to_string()],
        &Some(full.clone()),
    );
    assert_eq!(c.id, "0123456");
    assert_eq!(c.id_full, full);
    assert_eq!(c.message, "Subject line");
    assert_eq!(c.author, "Unknown");
    assert_eq!(c.time, 42);
    assert_eq!(c.parents, vec!["fedcba9".to_string()]);
    assert_eq!(c.branches, vec!["main".to_string()]);
    assert!(c.is_head);
}

#[test]
fn pull_outcomes_by_decision() {
    assert_eq!(pull_outcome(PullDecision::UpToDate, 0, 0).unwrap(), Some("Already up to date".to_string()));
    assert_eq!(pull_outcome(PullDecision::FastForward, 0, 3).unwrap(), None);
    match pull_outcome(PullDecision::Diverged, 2, 3) {
        Err(e) => assert_eq!(
            e.message,
            "Cannot fast-forward: local is 2 ahead and 3 behind. Please merge or rebase manually."
        ),
        Ok(_) => panic!("a diverged branch was pulled"),
    }
}

#[test]
fn upstream_lookup_steps() {
    assert_eq!(head_branch(true, None).unwrap_err().message, "Cannot push: no HEAD");
    assert_eq!(head_branch(false, None).unwrap_err().message, "Cannot fetch: no HEAD");
    assert_eq!(head_branch(true, Some(None)).unwrap_err().message, "Cannot determine branch name");
    assert_eq!(head_branch(true, Some(Some("main".to_string()))).unwrap(), "main");
    assert_eq!(
        upstream_remote(true, None).unwrap_err().message,
        "No upstream branch configured. Set one with: git push -u origin <branch>"
    );
    assert_eq!(
        upstream_remote(false, None).unwrap_err().message,
        "No upstream branch configured. Set one with: git branch --set-upstream-to=origin/<branch>"
    );
    assert_eq!(upstream_remote(true, Some(Some("upstream/dev".to_string()))).unwrap(), "upstream");
    assert_eq!(upstream_remote(true, Some(None)).unwrap(), "origin");
}

#[test]
fn credentials_are_looked_for_in_order() {
    assert_eq!(
        credential_plan(true, true),
        vec![
            CredStep::Agent,
            CredStep::KeyFile(SshKey::Ed25519),
            CredStep::KeyFile(SshKey::Rsa),
            CredStep::KeyFile(SshKey::Ecdsa),
            CredStep::Helper,
            CredStep::Default,
        ]
    );
    assert_eq!(credential_plan(false, true), vec![CredStep::Helper, CredStep::Default]);
    assert_eq!(credential_plan(false, false), vec![CredStep::Default]);
    assert_eq!(ssh_key_file(SshKey::Ed25519), "id_ed25519");
    assert_eq!(ssh_key_file(SshKey::Rsa), "id_rsa");
    assert_eq!(ssh_key_file(SshKey::Ecdsa), "id_ecdsa");
    assert_eq!(ssh_user(None), "git");
    assert_eq!(ssh_user(Some("alice")), "alice");
}

#[test]
fn a_long_linear_history_stays_in_the_first_lane() {
    let commits = vec![commit("d", &["c"]), commit("c", &["b"]), commit("b", &["a"]), commit("a", &[])];
    let lanes = compute_graph_lanes(&commits);
    for (k, l) in lanes.iter().enumerate() {
        assert_eq!(l.lane, 0);
        assert!(l.merge_from.is_none());
        assert_eq!(l.active_lanes, vec![k < 3]);
    }
}

#[test]
fn unstaging_resets_to_head_only_when_head_names_a_commit() {
    assert_eq!(unstage_plan(true), UnstageStep::ResetToHead);
    assert_eq!(unstage_plan(false), UnstageStep::RemoveFromIndex);
}

#[test]
fn a_branch_list_puts_head_first_then_local_then_remote() {
    let hex = "0123456789abcdef0123456789abcdef01234567".to_string();
    let raws = vec![
        (Some("zeta".to_string()), false, false, None, Some(hex.clone())),
        (Some("origin/main".to_string()), true, false, None, None),
        (None, false, false, None, None),
        (Some("main".to_string()), false, true, Some("origin/main".to_string()), Some(hex.clone())),
    ];
    let list = branch_list_from(raws);
    let names: Vec<&str> = list.iter().map(|b| b.name.as_str()).collect();
    assert_eq!(names, vec!["main", "???", "zeta", "origin/main"]);
    assert!(list[0].is_head);
    assert_eq!(list[0].upstream.as_deref(), Some("origin/main"));
    assert_eq!(list[0].commit_id, "0123456");
    assert_eq!(list[1].commit_id, "");
    assert!(list[3].is_remote);
}

#[test]
fn a_status_listing_asks_for_untracked_files_on_both_sides() {
    assert_eq!(status_query(), (true, true, StatusScope::IndexAndWorkdir));
}

#[test]
fn the_staged_diff_is_taken_against_head_and_the_unstaged_against_the_index() {
    assert_eq!(diff_plan(true, true), DiffStep::HeadTreeToIndex);
    assert_eq!(diff_plan(true, false), DiffStep::EmptyTreeToIndex);
    assert_eq!(diff_plan(false, true), DiffStep::IndexToWorkdir);
    assert_eq!(diff_plan(false, false), DiffStep::IndexToWorkdir);
}

#[test]
fn the_head_branch_name_needs_a_readable_head() {
    assert_eq!(head_branch_name(true, Some("main".to_string())), Some("main".to_string()));
    assert_eq!(head_branch_name(false, Some("main".to_string())), None);
    assert_eq!(head_branch_name(true, None), None);
}

#[test]
fn a_remote_status_keeps_ahead_and_behind_apart() {
    let s = remote_status_from(Some("origin/main".to_string()), AheadBehind { ahead: 2, behind: 5 });
    assert_eq!(s.ahead, 2);
    assert_eq!(s.behind, 5);
    assert_eq!(s.remote_name.as_deref(), Some("origin"));
    assert_eq!(s.upstream_branch.as_deref(), Some("origin/main"));
    let none = remote_status_from(None, AheadBehind { ahead: 2, behind: 5 });
    assert_eq!((none.ahead, none.behind), (0, 0));
    assert!(none.remote_name.is_none() && none.upstream_branch.is_none());
}

#[test]
fn a_commit_moves_head_with_a_fallback_identity() {
    let q = commit_request();
    assert_eq!(q.update_ref, "HEAD");
    assert_eq!(q.fallback_name, "User");
    assert_eq!(q.fallback_email, "user@example.com");
}

#[test]
fn the_same_commit_is_told_by_its_id() {
    let a = "0123456789abcdef0123456789abcdef01234567".to_string();
    let b = "1123456789abcdef0123456789abcdef01234567".to_string();
    assert!(same_commit(&a, &a.clone()));
    assert!(!same_commit(&a, &b));
}

#[test]
fn local_tips_keep_the_targets_present() {
    let v = vec![Some("a".to_string()), None, Some("b".to_string())];
    assert_eq!(present_values(v), vec!["a".to_string(), "b".to_string()]);
    let pairs = tip_pairs(vec![
        (Some("t1".to_string()), Some("main".to_string())),
        (None, Some("gone".to_string())),
        (Some("t2".to_string()), None),
        (Some("t3".to_string()), Some("dev".to_string())),
    ]);
    assert_eq!(pairs, vec![("t1".to_string(), "main".to_string()), ("t3".to_string(), "dev".to_string())]);
}

#[test]
fn without_head_the_log_is_empty_at_once() {
    assert_eq!(log_without_head(false).map(|v| v.len()), Some(0));
    assert!(log_without_head(true).is_none());
}

#[test]
fn a_branch_report_keeps_a_named_upstream_only() {
    let r = raw_branch(Some("main".to_string()), false, true, Some(Some("origin/main".to_string())), None);
    assert_eq!(r, (Some("main".to_string()), false, true, Some("origin/main".to_string()), None));
    let r = raw_branch(None, true, false, Some(None), Some("abc".to_string()));
    assert_eq!(r, (None, true, false, None, Some("abc".to_string())));
}
