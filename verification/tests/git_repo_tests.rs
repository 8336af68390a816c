use git2::{Repository, RepositoryInitOptions};
use git_lumina::git_ops::{
    checkout_branch, create_branch, create_commit, delete_branch, get_branches, get_commits,
    get_current_branch, get_file_diff, get_remote_status, get_remote_url, get_status, open_repo,
    stage_file, unstage_file, FileState, collect_commits, start_walk,
};
use std::time::{SystemTime, UNIX_EPOCH};

/// A new repository (initial branch "main", a configured user) at a fresh
/// path under /tmp.
fn temp_repo() -> (Repository, String) {
    let nanos = SystemTime::now().duration_since(UNIX_EPOCH).expect("clock after the epoch").as_nanos();
    let dir = format!("/tmp/git_lumina_test_{}", nanos);
    let mut opts = RepositoryInitOptions::new();
    opts.initial_head("main");
    let repo = Repository::init_opts(&dir, &opts).expect("repository created");
    {
        let mut config = repo.config().expect("config");
        config.set_str("user.name", "Test User").expect("user name set");
        config.set_str("user.email", "test@example.com").expect("user email set");
    }
    (repo, dir)
}

/// Writes `content` to `filename` in the working tree, leaving the index
/// alone (a forced checkout of that one path).
fn write_file(repo: &Repository, filename: &str, content: &str) {
    let blob = repo.blob(content.as_bytes()).expect("blob written");
    let mut builder = repo.treebuilder(None).expect("tree builder");
    builder.insert(filename, blob, 0o100644).expect("entry inserted");
    let tree = repo.find_tree(builder.write().expect("tree written")).expect("tree found");
    let mut checkout = git2::build::CheckoutBuilder::new();
    checkout.force().update_index(false).path(filename);
    repo.checkout_tree(tree.as_object(), Some(&mut checkout)).expect("file written");
}

/// Writes a file, stages it and commits.
fn write_and_commit(repo: &Repository, filename: &str, content: &str, msg: &str) -> String {
    write_file(repo, filename, content);
    stage_file(repo, filename).expect("staged");
    create_commit(repo, msg).expect("committed")
}

/// The full id HEAD points at.
fn head_id(repo: &Repository) -> String {
    repo.head().expect("head").target().expect("target").to_string()
}

#[test]
fn given_a_valid_git_repo_when_opening_then_it_succeeds() {
    let (_, dir) = temp_repo();
    let result = open_repo(Some(&dir));
    assert!(result.is_ok());
}

#[test]
fn given_an_empty_repo_when_getting_commits_then_returns_empty_list() {
    let (repo, _) = temp_repo();
    let commits = get_commits(&repo, 100).unwrap();
    assert!(commits.is_empty());
}

#[test]
fn given_two_commits_when_getting_commits_then_returns_them_in_reverse_chronological_order() {
    let (repo, _) = temp_repo();
    write_and_commit(&repo, "a.txt", "hello", "first commit");
    write_and_commit(&repo, "b.txt", "world", "second commit");

    let commits = get_commits(&repo, 100).unwrap();
    assert_eq!(commits.len(), 2);
    assert_eq!(commits[0].message, "second commit");
    assert_eq!(commits[1].message, "first commit");
    assert!(commits[0].is_head);
    assert!(!commits[1].is_head);
}

#[test]
fn given_five_commits_when_requesting_three_then_returns_only_three() {
    let (repo, _) = temp_repo();
    for i in 0..5 {
        write_and_commit(&repo, &format!("{}.txt", i), "x", &format!("commit {}", i));
    }
    let commits = get_commits(&repo, 3).unwrap();
    assert_eq!(commits.len(), 3);
}

#[test]
fn given_a_commit_when_inspecting_sha_then_short_is_7_chars_and_full_is_40_chars() {
    let (repo, _) = temp_repo();
    write_and_commit(&repo, "a.txt", "data", "init");
    let commits = get_commits(&repo, 1).unwrap();
    assert_eq!(commits[0].id.len(), 7);
    assert_eq!(commits[0].id_full.len(), 40);
    assert!(commits[0].id_full.starts_with(&commits[0].id));
}

#[test]
fn given_a_new_untracked_file_when_getting_status_then_it_appears_as_unstaged_new() {
    let (repo, _) = temp_repo();
    write_and_commit(&repo, "init.txt", "init", "init");
    write_file(&repo, "new.txt", "content");

    let (staged, unstaged) = get_status(&repo).unwrap();
    assert!(staged.is_empty());
    assert_eq!(unstaged.len(), 1);
    assert_eq!(unstaged[0].path, "new.txt");
    assert_eq!(unstaged[0].status, FileState::New);
}

#[test]
fn given_an_unstaged_file_when_staging_it_then_it_moves_to_staged() {
    let (repo, _) = temp_repo();
    write_and_commit(&repo, "init.txt", "init", "init");
    write_file(&repo, "new.txt", "content");

    stage_file(&repo, "new.txt").unwrap();
    let (staged, unstaged) = get_status(&repo).unwrap();
    assert_eq!(staged.len(), 1);
    assert_eq!(staged[0].path, "new.txt");
    assert!(unstaged.is_empty());
}

#[test]
fn given_a_staged_file_when_unstaging_it_then_it_moves_back_to_unstaged() {
    let (repo, _) = temp_repo();
    write_and_commit(&repo, "init.txt", "init", "init");
    write_file(&repo, "new.txt", "content");

    stage_file(&repo, "new.txt").unwrap();
    unstage_file(&repo, "new.txt").unwrap();
    let (staged, unstaged) = get_status(&repo).unwrap();
    assert!(staged.is_empty());
    assert_eq!(unstaged.len(), 1);
}

#[test]
fn given_a_committed_file_when_modifying_it_then_it_appears_as_unstaged_modified() {
    let (repo, _) = temp_repo();
    write_and_commit(&repo, "file.txt", "original", "init");
    write_file(&repo, "file.txt", "modified");

    let (staged, unstaged) = get_status(&repo).unwrap();
    assert!(staged.is_empty());
    assert_eq!(unstaged.len(), 1);
    assert_eq!(unstaged[0].status, FileState::Modified);
}

#[test]
fn given_staged_files_when_committing_then_returns_a_7_char_sha() {
    let (repo, _) = temp_repo();
    write_file(&repo, "a.txt", "data");
    stage_file(&repo, "a.txt").unwrap();
    let sha = create_commit(&repo, "test commit").unwrap();
    assert_eq!(sha.len(), 7);
}

#[test]
fn given_staged_files_when_committing_then_staged_list_becomes_empty() {
    let (repo, _) = temp_repo();
    write_file(&repo, "a.txt", "data");
    stage_file(&repo, "a.txt").unwrap();
    create_commit(&repo, "commit it").unwrap();

    let (staged, unstaged) = get_status(&repo).unwrap();
    assert!(staged.is_empty());
    assert!(unstaged.is_empty());
}

#[test]
fn given_a_fresh_repo_when_listing_branches_then_only_main_exists_as_head() {
    let (repo, _) = temp_repo();
    write_and_commit(&repo, "a.txt", "x", "init");
    let branches = get_branches(&repo).unwrap();
    assert_eq!(branches.len(), 1);
    assert_eq!(branches[0].name, "main");
    assert!(branches[0].is_head);
}

#[test]
fn given_a_repo_when_creating_a_branch_then_it_appears_in_branch_list() {
    let (repo, _) = temp_repo();
    write_and_commit(&repo, "a.txt", "x", "init");
    create_branch(&repo, "feature").unwrap();

    let branches = get_branches(&repo).unwrap();
    let names: Vec<&str> = branches.iter().map(|b| b.name.as_str()).collect();
    assert!(names.contains(&"feature"));
    assert!(names.contains(&"main"));
}

#[test]
fn given_a_new_branch_when_checking_it_out_then_current_branch_changes() {
    let (repo, _) = temp_repo();
    write_and_commit(&repo, "a.txt", "x", "init");
    create_branch(&repo, "dev").unwrap();
    checkout_branch(&repo, "dev").unwrap();

    assert_eq!(get_current_branch(&repo), "dev");
}

#[test]
fn given_an_existing_branch_when_deleting_it_then_it_disappears_from_list() {
    let (repo, _) = temp_repo();
    write_and_commit(&repo, "a.txt", "x", "init");
    create_branch(&repo, "to-delete").unwrap();
    delete_branch(&repo, "to-delete").unwrap();

    let branches = get_branches(&repo).unwrap();
    let names: Vec<&str> = branches.iter().map(|b| b.name.as_str()).collect();
    assert!(!names.contains(&"to-delete"));
}

#[test]
fn given_no_such_branch_when_deleting_then_it_returns_an_error() {
    let (repo, _) = temp_repo();
    write_and_commit(&repo, "a.txt", "x", "init");
    assert!(delete_branch(&repo, "nope").is_err());
}

#[test]
fn given_an_empty_repo_when_getting_current_branch_then_returns_detached() {
    let (repo, _) = temp_repo();
    assert_eq!(get_current_branch(&repo), "detached");
}

#[test]
fn given_a_repo_with_commits_when_getting_current_branch_then_returns_a_branch_name() {
    let (repo, _) = temp_repo();
    write_and_commit(&repo, "a.txt", "x", "init");
    let branch = get_current_branch(&repo);
    assert!(!branch.is_empty());
    assert_ne!(branch, "detached");
}

#[test]
fn given_a_modified_file_when_getting_unstaged_diff_then_shows_added_lines() {
    let (repo, _) = temp_repo();
    write_and_commit(&repo, "file.txt", "line1\n", "init");
    write_file(&repo, "file.txt", "line1\nline2\n");

    let diff = get_file_diff(&repo, "file.txt", false).unwrap();
    assert!(diff.contains("+line2"));
}

#[test]
fn given_a_staged_new_file_when_getting_staged_diff_then_shows_its_content() {
    let (repo, _) = temp_repo();
    write_and_commit(&repo, "init.txt", "x", "init");
    write_file(&repo, "new.txt", "hello\n");
    stage_file(&repo, "new.txt").unwrap();

    let diff = get_file_diff(&repo, "new.txt", true).unwrap();
    assert!(diff.contains("+hello"));
}

#[test]
fn given_no_changes_when_getting_diff_then_returns_no_diff_available() {
    let (repo, _) = temp_repo();
    write_and_commit(&repo, "file.txt", "content", "init");

    let diff = get_file_diff(&repo, "file.txt", false).unwrap();
    assert_eq!(diff, "(no diff available)");
}

#[test]
fn given_no_remote_configured_when_getting_remote_url_then_returns_none() {
    let (repo, _) = temp_repo();
    assert!(get_remote_url(&repo, None).is_none());
}

#[test]
fn given_an_origin_remote_when_getting_its_url_then_returns_the_url() {
    let (repo, _) = temp_repo();
    repo.remote("origin", "https://example.com/repo.git").unwrap();
    let url = get_remote_url(&repo, Some("origin"));
    assert_eq!(url.as_deref(), Some("https://example.com/repo.git"));
}

#[test]
fn given_no_upstream_when_getting_remote_status_then_returns_zeros_and_no_name() {
    let (repo, _) = temp_repo();
    write_and_commit(&repo, "a.txt", "x", "init");
    let status = get_remote_status(&repo).unwrap();
    assert_eq!(status.ahead, 0);
    assert_eq!(status.behind, 0);
    assert!(status.remote_name.is_none());
}

#[test]
fn given_an_empty_repo_when_getting_remote_status_then_returns_default() {
    let (repo, _) = temp_repo();
    let status = get_remote_status(&repo).unwrap();
    assert_eq!(status.ahead, 0);
    assert_eq!(status.behind, 0);
}

#[test]
fn given_multiple_branches_when_listing_then_head_branch_is_first() {
    let (repo, _) = temp_repo();
    write_and_commit(&repo, "a.txt", "x", "init");
    create_branch(&repo, "alpha").unwrap();
    create_branch(&repo, "zebra").unwrap();

    let branches = get_branches(&repo).unwrap();
    assert!(branches[0].is_head, "HEAD branch should be first");
}

#[test]
fn a_walk_starts_from_head_and_skips_a_tip_that_is_no_commit() {
    let (repo, _) = temp_repo();
    write_and_commit(&repo, "a.txt", "1", "first");
    let first = head_id(&repo);
    write_and_commit(&repo, "a.txt", "2", "second");
    let second = head_id(&repo);
    let mut walk = start_walk(&repo, &vec!["not-an-id".to_string(), first.clone()]).unwrap();
    let ids: Vec<String> = walk.by_ref().map(|o| o.unwrap().to_string()).collect();
    assert_eq!(ids, vec![second, first]);
}

#[test]
fn collected_commits_carry_branch_labels_and_the_head_mark() {
    let (repo, _) = temp_repo();
    write_and_commit(&repo, "a.txt", "1", "first");
    let first = head_id(&repo);
    write_and_commit(&repo, "a.txt", "2", "second\nbody");
    let second = head_id(&repo);
    let mut walk = start_walk(&repo, &vec![]).unwrap();
    let tips = vec![(second.clone(), "main".to_string()), (second.clone(), "origin/main".to_string())];
    let rows = collect_commits(&repo, &mut walk, &tips, &Some(second.clone()), 5).unwrap();
    assert_eq!(rows.len(), 2);
    assert_eq!(rows[0].id_full, second);
    assert_eq!(rows[0].message, "second");
    assert_eq!(rows[0].branches, vec!["main".to_string(), "origin/main".to_string()]);
    assert!(rows[0].is_head);
    assert_eq!(rows[1].id_full, first);
    assert!(rows[1].branches.is_empty());
    assert!(!rows[1].is_head);
    assert_eq!(rows[0].parents, vec![first[..7].to_string()]);
}

#[test]
fn the_commit_log_labels_the_head_commit_with_its_branch() {
    let (repo, _) = temp_repo();
    write_and_commit(&repo, "a.txt", "1", "first");
    write_and_commit(&repo, "a.txt", "2", "second");
    let second = head_id(&repo);
    create_branch(&repo, "side").unwrap();
    let rows = get_commits(&repo, 10).unwrap();
    assert_eq!(rows.len(), 2);
    assert_eq!(rows[0].id_full, second);
    assert!(rows[0].is_head);
    assert!(rows[0].branches.contains(&"main".to_string()));
    assert!(rows[0].branches.contains(&"side".to_string()));
}
