use git2::{Oid, Repository, Signature};
use git_lumina::git_ops::{
    checkout_branch, create_branch, create_commit, delete_branch, get_branches, get_commits,
    get_current_branch, get_file_diff, get_remote_status, get_remote_url, get_status, open_repo,
    unstage_file, upstream_of_head, FileState,
};
use std::time::{SystemTime, UNIX_EPOCH};

/// A new repository under /tmp, at a path no earlier run used.
fn fresh_repo(name: &str) -> (Repository, String) {
    let nanos = SystemTime::now().duration_since(UNIX_EPOCH).expect("clock after the epoch").as_nanos();
    let path = format!("/tmp/git_lumina_repo_tests/{}_{}", name, nanos);
    let repo = Repository::init(&path).expect("repository created");
    (repo, path)
}

/// Commits a file with the given content on HEAD, through the object
/// database only (the index and the working tree are left alone).
fn commit_file(repo: &Repository, name: &str, content: &str, msg: &str) -> Oid {
    let blob = repo.blob(content.as_bytes()).expect("blob written");
    let parent = repo.head().ok().and_then(|h| h.peel_to_commit().ok());
    let base_tree = parent.as_ref().map(|p| p.tree().expect("parent tree"));
    let mut builder = repo.treebuilder(base_tree.as_ref()).expect("tree builder");
    builder.insert(name, blob, 0o100644).expect("entry inserted");
    let tree = repo.find_tree(builder.write().expect("tree written")).expect("tree found");
    let sig = Signature::now("Test User", "test@example.com").expect("signature");
    let parents: Vec<&git2::Commit> = parent.iter().collect();
    repo.commit(Some("HEAD"), &sig, &sig, msg, &tree, &parents).expect("commit made")
}

#[test]
fn opening_a_new_repository_succeeds() {
    let (_repo, path) = fresh_repo("open");
    assert!(open_repo(Some(&path)).is_ok());
}

#[test]
fn an_empty_repository_has_nothing() {
    let (repo, _) = fresh_repo("empty");
    assert!(get_commits(&repo, 100).expect("log read").is_empty());
    assert!(get_branches(&repo).expect("branches read").is_empty());
    assert_eq!(get_current_branch(&repo), "detached");
    let status = get_remote_status(&repo).expect("status read");
    assert_eq!(status.ahead, 0);
    assert_eq!(status.behind, 0);
    assert!(status.remote_name.is_none());
    assert!(status.upstream_branch.is_none());
    assert!(get_remote_url(&repo, None).is_none());
    assert_eq!(get_file_diff(&repo, "a.txt", false).expect("diff read"), "(no diff available)");
}

#[test]
fn the_log_is_newest_first_with_short_and_full_ids() {
    let (repo, _) = fresh_repo("log");
    commit_file(&repo, "a.txt", "hello", "first commit");
    commit_file(&repo, "b.txt", "world", "second commit\n\nwith a body");
    let commits = get_commits(&repo, 100).expect("log read");
    assert_eq!(commits.len(), 2);
    assert_eq!(commits[0].message, "second commit");
    assert_eq!(commits[1].message, "first commit");
    assert_eq!(commits[0].id.len(), 7);
    assert_eq!(commits[0].id_full.len(), 40);
    assert!(commits[0].id_full.starts_with(&commits[0].id));
    assert_eq!(commits[0].parents, vec![commits[1].id.clone()]);
    assert!(commits[1].parents.is_empty());
    assert!(commits[0].is_head);
    assert!(!commits[1].is_head);
    assert_eq!(commits[0].author, "Test User");
    let branch = get_current_branch(&repo);
    assert_eq!(commits[0].branches, vec![branch]);
    assert!(commits[1].branches.is_empty());
}

#[test]
fn the_log_stops_at_the_requested_count() {
    let (repo, _) = fresh_repo("count");
    for i in 0..5 {
        commit_file(&repo, &format!("{}.txt", i), "x", &format!("commit {}", i));
    }
    assert_eq!(get_commits(&repo, 3).expect("log read").len(), 3);
    assert_eq!(get_commits(&repo, 0).expect("log read").len(), 1);
    assert_eq!(get_commits(&repo, 100).expect("log read").len(), 5);
}

#[test]
fn branches_are_listed_head_first_and_by_name() {
    let (repo, _) = fresh_repo("branches");
    commit_file(&repo, "a.txt", "x", "init");
    let head = get_current_branch(&repo);
    assert_ne!(head, "detached");
    create_branch(&repo, "zebra").expect("branch created");
    create_branch(&repo, "alpha").expect("branch created");
    let branches = get_branches(&repo).expect("branches read");
    let names: Vec<&str> = branches.iter().map(|b| b.name.as_str()).collect();
    assert_eq!(names, vec![head.as_str(), "alpha", "zebra"]);
    assert!(branches[0].is_head);
    assert!(!branches[1].is_head);
    assert!(branches.iter().all(|b| !b.is_remote && b.commit_id.len() == 7));

    delete_branch(&repo, "alpha").expect("branch deleted");
    let names: Vec<String> = get_branches(&repo).expect("branches read").into_iter().map(|b| b.name).collect();
    assert_eq!(names, vec![head.clone(), "zebra".to_string()]);
    assert!(delete_branch(&repo, "nope").is_err());
    assert!(checkout_branch(&repo, "nope").is_err());
}

#[test]
fn checking_out_a_branch_moves_head() {
    let (repo, _) = fresh_repo("checkout");
    commit_file(&repo, "a.txt", "x", "init");
    create_branch(&repo, "dev").expect("branch created");
    checkout_branch(&repo, "dev").expect("checked out");
    assert_eq!(get_current_branch(&repo), "dev");
}

#[test]
fn remote_urls() {
    let (repo, _) = fresh_repo("remote");
    repo.remote("origin", "https://example.com/repo.git").expect("remote added");
    assert_eq!(get_remote_url(&repo, None).as_deref(), Some("https://example.com/repo.git"));
    assert_eq!(get_remote_url(&repo, Some("origin")).as_deref(), Some("https://example.com/repo.git"));
    assert!(get_remote_url(&repo, Some("nope")).is_none());
}

#[test]
fn no_upstream_means_no_tracking_and_no_remote_operations() {
    let (repo, _) = fresh_repo("upstream");
    match upstream_of_head(&repo, false) {
        Err(e) => assert_eq!(e.message, "Cannot fetch: no HEAD"),
        Ok(_) => panic!("an empty repository has an upstream"),
    }
    match upstream_of_head(&repo, true) {
        Err(e) => assert_eq!(e.message, "Cannot push: no HEAD"),
        Ok(_) => panic!("an empty repository has an upstream"),
    }
    commit_file(&repo, "a.txt", "x", "init");
    let status = get_remote_status(&repo).expect("status read");
    assert_eq!((status.ahead, status.behind), (0, 0));
    assert!(status.remote_name.is_none());
    match upstream_of_head(&repo, true) {
        Err(e) => assert_eq!(e.message, "No upstream branch configured. Set one with: git push -u origin <branch>"),
        Ok(_) => panic!("no upstream was configured"),
    }
    match upstream_of_head(&repo, false) {
        Err(e) => assert_eq!(
            e.message,
            "No upstream branch configured. Set one with: git branch --set-upstream-to=origin/<branch>"
        ),
        Ok(_) => panic!("no upstream was configured"),
    }
}

#[test]
fn unstaging_restores_the_index_entry_and_committing_gives_a_short_id() {
    let (repo, _) = fresh_repo("unstage");
    commit_file(&repo, "a.txt", "x", "init");
    // the commit went past the index, which is still empty: the file shows
    // as a staged deletion
    let (staged, unstaged) = get_status(&repo).expect("status read");
    assert_eq!(staged.len(), 1);
    assert_eq!(staged[0].path, "a.txt");
    assert_eq!(staged[0].status, FileState::Deleted);
    assert!(unstaged.is_empty());

    unstage_file(&repo, "a.txt").expect("unstaged");
    let (staged, unstaged) = get_status(&repo).expect("status read");
    assert!(staged.is_empty());
    assert_eq!(unstaged.len(), 1);
    assert_eq!(unstaged[0].status, FileState::Deleted);

    let sha = create_commit(&repo, "again").expect("committed");
    assert_eq!(sha.len(), 7);
    assert_eq!(get_commits(&repo, 10).expect("log read")[0].id, sha);
}
