use git2::build::CheckoutBuilder;
use git2::{Index, IndexEntry, IndexTime, Oid, Repository, RepositoryInitOptions, Signature, Time};
use sync_subdir::config::Config;
use sync_subdir::error::SyncError;
use sync_subdir::git::{
    attached_branch, branch_reference, branch_verdict, count_request, describe, detached_label,
    is_dirty, load_commits, opening_verdict, path_changes, reference_verdict, references_verdict,
    revision_range, stash_outcome, walk_request, walked_commit, GitManager, WalkRequest,
};
use sync_subdir::range::PathChange;
use sync_subdir::guard::{BranchGuard, Release, StashGuard, StashStep};
use sync_subdir::range::WalkedCommit;
use sync_subdir::session::{plan_preparation, stash_message, Observed, Released, Session};
use tempfile::TempDir;

const T0: i64 = 1_700_000_000;

fn sig(seconds: i64) -> Signature<'static> {
    Signature::new("Ann", "ann@example.com", &Time::new(seconds, 0)).unwrap()
}

fn init_repo() -> (TempDir, Repository) {
    let dir = TempDir::new().unwrap();
    let mut options = RepositoryInitOptions::new();
    options.initial_head("main");
    let repo = Repository::init_opts(dir.path(), &options).unwrap();
    (dir, repo)
}

fn path_of(dir: &TempDir) -> String {
    dir.path().to_str().unwrap().to_string()
}

fn tree_of(repo: &Repository, files: &[(&str, &str)]) -> Oid {
    let mut index = Index::new().unwrap();
    for (path, content) in files {
        let blob = repo.blob(content.as_bytes()).unwrap();
        let entry = IndexEntry {
            ctime: IndexTime::new(0, 0),
            mtime: IndexTime::new(0, 0),
            dev: 0,
            ino: 0,
            mode: 0o100644,
            uid: 0,
            gid: 0,
            file_size: content.len() as u32,
            id: blob,
            flags: 0,
            flags_extended: 0,
            path: path.as_bytes().to_vec(),
        };
        index.add(&entry).unwrap();
    }
    index.write_tree_to(repo).unwrap()
}

fn commit_on(
    repo: &Repository,
    refname: &str,
    seconds: i64,
    message: &str,
    files: &[(&str, &str)],
    parents: &[Oid],
) -> Oid {
    let tree = repo.find_tree(tree_of(repo, files)).unwrap();
    let parent_commits: Vec<git2::Commit> =
        parents.iter().map(|id| repo.find_commit(*id).unwrap()).collect();
    let parent_refs: Vec<&git2::Commit> = parent_commits.iter().collect();
    let who = sig(seconds);
    repo.commit(Some(refname), &who, &who, message, &tree, &parent_refs).unwrap()
}

fn make_clean(repo: &Repository) {
    repo.checkout_head(Some(CheckoutBuilder::new().force())).unwrap();
}

fn add_untracked_file(dir: &TempDir) {
    let file = tempfile::Builder::new().prefix("untracked-").tempfile_in(dir.path()).unwrap();
    file.keep().unwrap();
}

fn change_tracked_file(repo: &Repository, files: &[(&str, &str)]) {
    let tree = repo.find_object(tree_of(repo, files), None).unwrap();
    repo.checkout_tree(&tree, Some(CheckoutBuilder::new().force())).unwrap();
}

fn head_name(repo: &Repository) -> String {
    repo.head().unwrap().shorthand().unwrap().to_string()
}

fn stash_count(repo: &mut Repository) -> usize {
    let mut n = 0;
    repo.stash_foreach(|_, _, _| {
        n += 1;
        true
    })
    .unwrap();
    n
}

/// A source with four commits on `main`, three of which touch `lib/`, and a
/// target with one commit on `main`.
fn four_commits() -> (TempDir, Repository, TempDir, Repository, Vec<Oid>) {
    let (source_dir, source) = init_repo();
    let c1 = commit_on(&source, "refs/heads/main", T0, "add a\n\nbody", &[("lib/a.txt", "1")], &[]);
    let c2 = commit_on(
        &source,
        "refs/heads/main",
        T0 + 60,
        "add docs",
        &[("lib/a.txt", "1"), ("docs/x.md", "x")],
        &[c1],
    );
    let c3 = commit_on(
        &source,
        "refs/heads/main",
        T0 + 120,
        "add b",
        &[("lib/a.txt", "1"), ("docs/x.md", "x"), ("lib/b.txt", "b")],
        &[c2],
    );
    let c4 = commit_on(
        &source,
        "refs/heads/main",
        T0 + 180,
        "change a",
        &[("lib/a.txt", "2"), ("docs/x.md", "x"), ("lib/b.txt", "b")],
        &[c3],
    );
    make_clean(&source);
    let (target_dir, target) = init_repo();
    commit_on(&target, "refs/heads/main", T0, "start", &[("README", "r")], &[]);
    make_clean(&target);
    (source_dir, source, target_dir, target, vec![c1, c2, c3, c4])
}

fn config_for(source: &TempDir, target: &TempDir, start: &str) -> Config {
    Config {
        source_repo: path_of(source),
        subdir: "lib".to_string(),
        target_repo: path_of(target),
        start_commit: start.to_string(),
        source_branch: None,
        target_branch: None,
        end_commit: None,
        create_branch: None,
        include_start: None,
        no_merge: None,
        sync_delete: None,
        auto_stash: None,
        dry_run: false,
        verbose: false,
    }
}

fn ids_of(list: &[sync_subdir::git::CommitInfo]) -> Vec<String> {
    list.iter().map(|c| c.id.clone()).collect()
}

fn hex(ids: &[Oid]) -> Vec<String> {
    ids.iter().map(|id| id.to_string()).collect()
}

#[test]
fn names_are_built_from_their_parts() {
    assert_eq!(detached_label("abc"), "detached-abc");
    assert_eq!(branch_reference("feature/x"), "refs/heads/feature/x");
    assert_eq!(revision_range("a1", "b2"), "a1..b2");
    assert_eq!(stash_message("20240102-030405"), "sync-subdir auto stash 20240102-030405");
}

#[test]
fn answers_of_the_repository_are_settled() {
    assert_eq!(attached_branch(true, Some("main".to_string())), Some("main".to_string()));
    assert_eq!(attached_branch(true, None), None);
    assert_eq!(attached_branch(false, Some("HEAD".to_string())), None);
    assert!(!is_dirty(0));
    assert!(is_dirty(1));
    assert!(is_dirty(usize::MAX));
    assert_eq!(stash_outcome(true, false, String::new()), Ok(true));
    assert_eq!(stash_outcome(true, true, "ignored".to_string()), Ok(true));
    assert_eq!(stash_outcome(false, true, "nothing to stash".to_string()), Ok(false));
    assert_eq!(
        stash_outcome(false, false, "locked".to_string()),
        Err(SyncError::Git("locked".to_string()))
    );
}

#[test]
fn reference_verdict_names_the_reference() {
    assert_eq!(reference_verdict(true, "HEAD"), Ok(()));
    assert_eq!(reference_verdict(false, "nope"), Err(SyncError::InvalidCommit("nope".to_string())));
    assert_eq!(reference_verdict(false, ""), Err(SyncError::InvalidCommit(String::new())));
}

#[test]
fn a_path_that_did_not_open_is_named_source_first() {
    assert_eq!(opening_verdict(true, true, "/s", "/t"), None);
    assert_eq!(
        opening_verdict(false, true, "/s", "/t"),
        Some(SyncError::NotARepository("/s".to_string()))
    );
    assert_eq!(
        opening_verdict(false, false, "/s", "/t"),
        Some(SyncError::NotARepository("/s".to_string()))
    );
    assert_eq!(
        opening_verdict(true, false, "/s", "/t"),
        Some(SyncError::NotARepository("/t".to_string()))
    );
}

#[test]
fn a_reference_that_was_not_found_is_named_start_first() {
    assert_eq!(references_verdict(true, true, "a", "b"), Ok(()));
    assert_eq!(
        references_verdict(false, true, "a", "b"),
        Err(SyncError::InvalidCommit("a".to_string()))
    );
    assert_eq!(
        references_verdict(false, false, "a", "b"),
        Err(SyncError::InvalidCommit("a".to_string()))
    );
    assert_eq!(
        references_verdict(true, false, "a", "b"),
        Err(SyncError::InvalidCommit("b".to_string()))
    );
}

#[test]
fn a_branch_that_was_not_found_is_named() {
    assert_eq!(branch_verdict(true, "feature"), Ok(()));
    assert_eq!(
        branch_verdict(false, "feature"),
        Err(SyncError::BranchNotFound("feature".to_string()))
    );
}

#[test]
fn the_walk_is_asked_for_in_full() {
    let start = WalkedCommit {
        id: "s1".to_string(),
        subject: "s".to_string(),
        author: "a".to_string(),
        time: 0,
        parents: vec!["p1".to_string(), "p2".to_string()],
        changes: Vec::new(),
    };
    assert_eq!(
        walk_request(&start, true, "e9", true),
        WalkRequest { range: "p1..e9".to_string(), first_parent_only: true, oldest_first: true }
    );
    assert_eq!(
        walk_request(&start, false, "e9", false),
        WalkRequest { range: "s1..e9".to_string(), first_parent_only: false, oldest_first: true }
    );
    let root = WalkedCommit { parents: Vec::new(), ..start };
    assert_eq!(
        walk_request(&root, true, "e9", true),
        WalkRequest { range: "s1..e9".to_string(), first_parent_only: true, oldest_first: true }
    );
    assert_eq!(
        count_request("v1", "HEAD"),
        WalkRequest {
            range: "v1..HEAD".to_string(),
            first_parent_only: false,
            oldest_first: false
        }
    );
}

#[test]
fn stash_guard_clears_a_pending_replay_before_it_pops() {
    let mut guard = StashGuard::new("/repo".to_string(), false);
    assert_eq!(guard.reversal(false), vec![StashStep::PopStash]);
    assert_eq!(guard.reversal(true), vec![StashStep::ClearPendingReplay, StashStep::PopStash]);
    guard.commit();
    assert_eq!(guard.reversal(false), Vec::<StashStep>::new());
    assert_eq!(guard.reversal(true), Vec::<StashStep>::new());
}

#[test]
fn path_changes_keep_order_and_fill_missing_sides() {
    let raw = vec![
        (None, Some("lib/new.rs".to_string())),
        (Some("lib/old.rs".to_string()), None),
        (Some("a".to_string()), Some("b".to_string())),
        (None, None),
    ];
    let change = |old: &str, new: &str| PathChange {
        old_path: old.to_string(),
        new_path: new.to_string(),
    };
    assert_eq!(
        path_changes(raw),
        vec![change("", "lib/new.rs"), change("lib/old.rs", ""), change("a", "b"), change("", "")]
    );
    assert_eq!(path_changes(Vec::new()), Vec::<PathChange>::new());
}

#[test]
fn walked_commit_fills_in_missing_texts() {
    let full = walked_commit(
        "abc".to_string(),
        Some("add a".to_string()),
        Some("Ann".to_string()),
        42,
        vec!["p".to_string()],
        vec![PathChange { old_path: "x".to_string(), new_path: "y".to_string() }],
    );
    assert_eq!(full.id, "abc");
    assert_eq!(full.subject, "add a");
    assert_eq!(full.author, "Ann");
    assert_eq!(full.time, 42);
    assert_eq!(full.parents, vec!["p".to_string()]);
    assert_eq!(full.changes.len(), 1);
    let bare = walked_commit("abc".to_string(), None, None, -1, Vec::new(), Vec::new());
    assert_eq!(bare.subject, "No subject");
    assert_eq!(bare.author, "Unknown");
    assert!(bare.parents.is_empty());
    assert!(bare.changes.is_empty());
}

#[test]
fn commit_time_is_shown_in_utc() {
    let mut c = WalkedCommit {
        id: "abc".to_string(),
        subject: "s".to_string(),
        author: "a".to_string(),
        time: 0,
        parents: vec!["p".to_string(), "q".to_string()],
        changes: Vec::new(),
    };
    let info = describe(&c);
    assert_eq!(info.date, "1970-01-01 00:00:00");
    assert_eq!(info.id, "abc");
    assert_eq!(info.subject, "s");
    assert_eq!(info.author, "a");
    assert!(info.is_merge);
    c.time = T0;
    c.parents = vec!["p".to_string()];
    let info = describe(&c);
    assert_eq!(info.date, "2023-11-14 22:13:20");
    assert!(!info.is_merge);
    c.time = -1;
    assert_eq!(describe(&c).date, "1969-12-31 23:59:59");
    c.time = i64::MAX;
    assert_eq!(describe(&c).date, "1970-01-01 00:00:00");
}

#[test]
fn opening_notes_paths_and_branches() {
    let (source_dir, _source, target_dir, _target, _) = four_commits();
    let manager = GitManager::new(&path_of(&source_dir), &path_of(&target_dir)).unwrap();
    assert_eq!(manager.source_repo_info.path, path_of(&source_dir));
    assert_eq!(manager.target_repo_info.path, path_of(&target_dir));
    assert_eq!(manager.source_repo_info.current_branch, "main");
    assert_eq!(manager.source_repo_info.original_branch, "main");
    assert_eq!(manager.target_repo_info.current_branch, "main");
    assert_eq!(manager.target_repo_info.original_branch, "main");
    assert!(manager.get_repository(true).is_ok());
    assert!(manager.get_repository(false).is_ok());
}

#[test]
fn a_path_without_repository_is_refused() {
    let (source_dir, _source, target_dir, _target, _) = four_commits();
    let empty = TempDir::new().unwrap();
    let missing = path_of(&empty);
    assert_eq!(
        GitManager::new(&missing, &path_of(&target_dir)).unwrap_err(),
        SyncError::NotARepository(missing.clone())
    );
    assert_eq!(
        GitManager::new(&path_of(&source_dir), &missing).unwrap_err(),
        SyncError::NotARepository(missing.clone())
    );
    assert!(matches!(Session::open(&missing, &missing), Err(SyncError::NotARepository(_))));
}

#[test]
fn detached_head_has_a_name() {
    let (source_dir, source, target_dir, _target, ids) = four_commits();
    source.set_head_detached(ids[1]).unwrap();
    let manager = GitManager::new(&path_of(&source_dir), &path_of(&target_dir)).unwrap();
    assert_eq!(manager.source_repo_info.current_branch, format!("detached-{}", ids[1]));
    assert_eq!(manager.source_repo_info.original_branch, format!("detached-{}", ids[1]));
}

#[test]
fn three_commits_touch_lib_from_the_root() {
    let (source_dir, _source, target_dir, _target, ids) = four_commits();
    let manager = GitManager::new(&path_of(&source_dir), &path_of(&target_dir)).unwrap();
    let root = ids[0].to_string();
    let list = manager.get_commits_in_range("lib", &root, "HEAD", true, true).unwrap();
    assert_eq!(ids_of(&list), hex(&[ids[0], ids[2], ids[3]]));
    assert_eq!(list[0].subject, "add a");
    assert_eq!(list[0].author, "Ann");
    assert_eq!(list[0].date, "2023-11-14 22:13:20");
    assert_eq!(list[1].date, "2023-11-14 22:15:20");
    assert_eq!(list[2].subject, "change a");
    assert!(list.iter().all(|c| !c.is_merge));
}

#[test]
fn start_commit_is_left_out_when_not_included() {
    let (source_dir, _source, target_dir, _target, ids) = four_commits();
    let manager = GitManager::new(&path_of(&source_dir), &path_of(&target_dir)).unwrap();
    let list =
        manager.get_commits_in_range("lib", &ids[0].to_string(), "HEAD", false, true).unwrap();
    assert_eq!(ids_of(&list), hex(&[ids[2], ids[3]]));
    let list =
        manager.get_commits_in_range("lib", &ids[2].to_string(), "HEAD", false, true).unwrap();
    assert_eq!(ids_of(&list), hex(&[ids[3]]));
    let list =
        manager.get_commits_in_range("lib", &ids[3].to_string(), "HEAD", false, true).unwrap();
    assert!(list.is_empty());
}

#[test]
fn start_commit_with_a_parent_is_included_through_the_walk() {
    let (source_dir, _source, target_dir, _target, ids) = four_commits();
    let manager = GitManager::new(&path_of(&source_dir), &path_of(&target_dir)).unwrap();
    let list =
        manager.get_commits_in_range("lib", &ids[2].to_string(), "HEAD", true, true).unwrap();
    assert_eq!(ids_of(&list), hex(&[ids[2], ids[3]]));
    let list =
        manager.get_commits_in_range("lib", &ids[1].to_string(), "HEAD", true, true).unwrap();
    assert_eq!(ids_of(&list), hex(&[ids[2], ids[3]]));
    let list = manager
        .get_commits_in_range("docs", &ids[1].to_string(), &ids[2].to_string(), true, false)
        .unwrap();
    assert_eq!(ids_of(&list), hex(&[ids[1]]));
}

#[test]
fn empty_subdir_and_dot_keep_every_commit() {
    let (source_dir, _source, target_dir, _target, ids) = four_commits();
    let manager = GitManager::new(&path_of(&source_dir), &path_of(&target_dir)).unwrap();
    let root = ids[0].to_string();
    let all = manager.get_commits_in_range("", &root, "HEAD", true, true).unwrap();
    assert_eq!(ids_of(&all), hex(&ids));
    let all = manager.get_commits_in_range(".", &root, "HEAD", false, false).unwrap();
    assert_eq!(ids_of(&all), hex(&ids[1..]));
}

#[test]
fn first_parent_walk_skips_the_side_branch() {
    let (source_dir, source) = init_repo();
    let c1 = commit_on(&source, "refs/heads/main", T0, "root", &[("lib/a", "1")], &[]);
    let s1 = commit_on(
        &source,
        "refs/heads/side",
        T0 + 10,
        "side work",
        &[("lib/a", "1"), ("lib/s", "s")],
        &[c1],
    );
    let c2 = commit_on(
        &source,
        "refs/heads/main",
        T0 + 20,
        "main work",
        &[("lib/a", "1"), ("lib/b", "b")],
        &[c1],
    );
    let m = commit_on(
        &source,
        "refs/heads/main",
        T0 + 30,
        "merge side",
        &[("lib/a", "1"), ("lib/b", "b"), ("lib/s", "s")],
        &[c2, s1],
    );
    let (target_dir, target) = init_repo();
    commit_on(&target, "refs/heads/main", T0, "start", &[("README", "r")], &[]);
    let manager = GitManager::new(&path_of(&source_dir), &path_of(&target_dir)).unwrap();
    let first = manager.get_commits_in_range("lib", &c1.to_string(), "HEAD", false, true).unwrap();
    assert_eq!(ids_of(&first), hex(&[c2, m]));
    assert!(first[1].is_merge);
    assert!(!first[0].is_merge);
    let full = manager.get_commits_in_range("lib", &c1.to_string(), "HEAD", false, false).unwrap();
    assert_eq!(ids_of(&full), hex(&[s1, c2, m]));
    let with_root =
        manager.get_commits_in_range("lib", &c1.to_string(), "HEAD", true, true).unwrap();
    assert_eq!(ids_of(&with_root), hex(&[c1, c2, m]));
    assert_eq!(manager.get_commit_count("lib", &c1.to_string(), "HEAD", false).unwrap(), (3, 1));
}

#[test]
fn first_parent_walk_without_merges_equals_the_full_walk() {
    let (source_dir, _source, target_dir, _target, ids) = four_commits();
    let manager = GitManager::new(&path_of(&source_dir), &path_of(&target_dir)).unwrap();
    let root = ids[0].to_string();
    let first = manager.get_commits_in_range("lib", &root, "HEAD", true, true).unwrap();
    let full = manager.get_commits_in_range("lib", &root, "HEAD", true, false).unwrap();
    assert_eq!(first, full);
}

#[test]
fn unresolvable_references_are_invalid_commits() {
    let (source_dir, _source, target_dir, _target, ids) = four_commits();
    let manager = GitManager::new(&path_of(&source_dir), &path_of(&target_dir)).unwrap();
    assert_eq!(
        manager.get_commits_in_range("lib", "nope", "HEAD", true, true).unwrap_err(),
        SyncError::InvalidCommit("nope".to_string())
    );
    assert_eq!(
        manager.get_commits_in_range("lib", &ids[0].to_string(), "absent", true, true).unwrap_err(),
        SyncError::InvalidCommit("absent".to_string())
    );
    assert_eq!(
        manager.get_commit_count("lib", "nope", "HEAD", false).unwrap_err(),
        SyncError::InvalidCommit("nope".to_string())
    );
    assert_eq!(
        manager.validate_commit(true, "nope").unwrap_err(),
        SyncError::InvalidCommit("nope".to_string())
    );
    assert_eq!(manager.validate_commit(true, "HEAD"), Ok(()));
    assert_eq!(manager.validate_commit(true, &ids[1].to_string()), Ok(()));
    assert_eq!(manager.validate_commit(false, "main"), Ok(()));
}

#[test]
fn commit_counts_over_a_range() {
    let (source_dir, _source, target_dir, _target, ids) = four_commits();
    let manager = GitManager::new(&path_of(&source_dir), &path_of(&target_dir)).unwrap();
    let root = ids[0].to_string();
    assert_eq!(manager.get_commit_count("lib", &root, "HEAD", false).unwrap(), (2, 0));
    assert_eq!(manager.get_commit_count("docs", &root, "HEAD", true).unwrap(), (1, 0));
    assert_eq!(manager.get_commit_count("", &root, "HEAD", false).unwrap(), (3, 0));
    assert_eq!(manager.get_commit_count("lib", "HEAD", "HEAD", false).unwrap(), (0, 0));
}

#[test]
fn load_commits_uses_the_defaults() {
    let (source_dir, _source, target_dir, _target, ids) = four_commits();
    let manager = GitManager::new(&path_of(&source_dir), &path_of(&target_dir)).unwrap();
    let mut config = config_for(&source_dir, &target_dir, &ids[0].to_string());
    let list = load_commits(&config, &manager).unwrap();
    assert_eq!(ids_of(&list), hex(&[ids[0], ids[2], ids[3]]));
    config.include_start = Some(false);
    config.end_commit = Some(ids[2].to_string());
    let list = load_commits(&config, &manager).unwrap();
    assert_eq!(ids_of(&list), hex(&[ids[2]]));
}

#[test]
fn switching_and_creating_branches() {
    let (source_dir, source, target_dir, target, ids) = four_commits();
    source.branch("feature", &source.find_commit(ids[1]).unwrap(), false).unwrap();
    let mut manager = GitManager::new(&path_of(&source_dir), &path_of(&target_dir)).unwrap();
    assert_eq!(manager.branch_exists(true, "feature"), Ok(true));
    assert_eq!(manager.branch_exists(true, "absent"), Ok(false));
    assert_eq!(manager.branch_exists(false, "feature"), Ok(false));

    assert_eq!(manager.switch_branch(true, "feature"), Ok(()));
    assert_eq!(manager.source_repo_info.current_branch, "feature");
    assert_eq!(manager.source_repo_info.original_branch, "main");
    assert_eq!(manager.target_repo_info.current_branch, "main");
    assert_eq!(head_name(&source), "feature");

    assert_eq!(
        manager.switch_branch(false, "absent"),
        Err(SyncError::BranchNotFound("absent".to_string()))
    );
    assert_eq!(manager.target_repo_info.current_branch, "main");
    assert_eq!(head_name(&target), "main");

    assert_eq!(manager.create_branch(false, "sync"), Ok(()));
    assert_eq!(manager.target_repo_info.current_branch, "sync");
    assert_eq!(manager.target_repo_info.original_branch, "main");
    assert_eq!(head_name(&target), "sync");
    assert_eq!(
        target.find_branch("sync", git2::BranchType::Local).unwrap().get().target(),
        target.find_branch("main", git2::BranchType::Local).unwrap().get().target()
    );
    assert!(matches!(manager.create_branch(false, "sync"), Err(SyncError::Git(_))));
    assert_eq!(manager.target_repo_info.current_branch, "sync");
}

#[test]
fn uncommitted_changes_are_seen_and_stashed() {
    let (source_dir, _source, target_dir, mut target, _) = four_commits();
    let manager = GitManager::new(&path_of(&source_dir), &path_of(&target_dir)).unwrap();
    assert_eq!(manager.has_uncommitted_changes(false), Ok(false));
    assert_eq!(manager.has_uncommitted_changes(true), Ok(false));
    assert_eq!(manager.stash_if_needed(false, "nothing"), Ok(false));
    assert_eq!(manager.stash_changes(false, "nothing"), Ok(()));
    assert_eq!(stash_count(&mut target), 0);

    change_tracked_file(&target, &[("README", "changed")]);
    assert_eq!(manager.has_uncommitted_changes(false), Ok(true));
    assert_eq!(manager.stash_if_needed(false, "work in progress"), Ok(true));
    assert_eq!(stash_count(&mut target), 1);
    assert_eq!(manager.has_uncommitted_changes(false), Ok(false));
}

#[test]
fn untracked_files_count_as_uncommitted() {
    let (source_dir, _source, target_dir, _target, _) = four_commits();
    let manager = GitManager::new(&path_of(&source_dir), &path_of(&target_dir)).unwrap();
    add_untracked_file(&target_dir);
    assert_eq!(manager.has_uncommitted_changes(false), Ok(true));
    assert_eq!(manager.has_uncommitted_changes(true), Ok(false));
}

#[test]
fn branch_guard_leads_back() {
    let (source_dir, source, _target_dir, _target, ids) = four_commits();
    source.branch("feature", &source.find_commit(ids[1]).unwrap(), false).unwrap();
    source.set_head("refs/heads/feature").unwrap();
    let mut guard = BranchGuard::new(path_of(&source_dir), true, "main".to_string());
    assert!(guard.active());
    assert!(guard.for_source());
    assert_eq!(guard.branch(), "main");
    assert_eq!(guard.reversal(), Some("refs/heads/main".to_string()));
    assert_eq!(guard.release(), Release::Reverted);
    assert_eq!(head_name(&source), "main");
    assert!(!guard.active());
    assert_eq!(guard.reversal(), None);
    source.set_head("refs/heads/feature").unwrap();
    assert_eq!(guard.release(), Release::Nothing);
    assert_eq!(head_name(&source), "feature");
}

#[test]
fn committed_guards_take_nothing_back() {
    let (source_dir, source, target_dir, mut target, ids) = four_commits();
    source.branch("feature", &source.find_commit(ids[1]).unwrap(), false).unwrap();
    source.set_head("refs/heads/feature").unwrap();
    let mut guard = BranchGuard::new(path_of(&source_dir), true, "main".to_string());
    guard.commit();
    assert!(!guard.active());
    assert_eq!(guard.release(), Release::Nothing);
    assert_eq!(head_name(&source), "feature");

    let manager = GitManager::new(&path_of(&source_dir), &path_of(&target_dir)).unwrap();
    change_tracked_file(&target, &[("README", "changed")]);
    assert_eq!(manager.stash_if_needed(false, "kept"), Ok(true));
    let mut stash = StashGuard::new(path_of(&target_dir), false);
    assert!(stash.active());
    assert!(!stash.for_source());
    stash.commit();
    assert_eq!(stash.release(false), Release::Nothing);
    assert_eq!(stash_count(&mut target), 1);
}

#[test]
fn stash_guard_pops_the_entry() {
    let (source_dir, _source, target_dir, mut target, _) = four_commits();
    let manager = GitManager::new(&path_of(&source_dir), &path_of(&target_dir)).unwrap();
    change_tracked_file(&target, &[("README", "changed")]);
    assert_eq!(manager.stash_if_needed(false, "wip"), Ok(true));
    let mut guard = StashGuard::new(path_of(&target_dir), false);
    assert_eq!(guard.release(true), Release::Reverted);
    assert_eq!(stash_count(&mut target), 0);
    assert_eq!(manager.has_uncommitted_changes(false), Ok(true));
    assert_eq!(guard.release(false), Release::Nothing);
    let mut nothing_left = StashGuard::new(path_of(&target_dir), false);
    assert!(matches!(nothing_left.release(false), Release::Failed(_)));
}

#[test]
fn guard_on_a_missing_repository_fails_in_words() {
    let empty = TempDir::new().unwrap();
    let mut guard = BranchGuard::new(path_of(&empty), false, "main".to_string());
    assert!(matches!(guard.release(), Release::Failed(_)));
    assert!(!guard.active());
}

#[test]
fn dirty_target_without_auto_stash_aborts_before_any_switch() {
    let (source_dir, source, target_dir, mut target, ids) = four_commits();
    source.branch("feature", &source.find_commit(ids[1]).unwrap(), false).unwrap();
    add_untracked_file(&target_dir);
    let mut config = config_for(&source_dir, &target_dir, &ids[0].to_string());
    config.source_branch = Some("feature".to_string());
    config.target_branch = Some("sync".to_string());
    config.auto_stash = Some(false);
    let mut session = Session::open(&config.source_repo, &config.target_repo).unwrap();
    let (result, failures) = session.prepare(&config);
    assert_eq!(result, Err(SyncError::DirtyRepository(path_of(&target_dir))));
    assert!(failures.is_empty());
    assert_eq!(session.guard_count(), 0);
    assert_eq!(session.git_manager().source_repo_info.current_branch, "main");
    assert_eq!(session.git_manager().target_repo_info.current_branch, "main");
    assert_eq!(head_name(&source), "main");
    assert_eq!(head_name(&target), "main");
    assert!(target.find_branch("sync", git2::BranchType::Local).is_err());
    assert_eq!(stash_count(&mut target), 0);
}

#[test]
fn invalid_start_aborts_before_any_switch() {
    let (source_dir, source, target_dir, _target, ids) = four_commits();
    source.branch("feature", &source.find_commit(ids[1]).unwrap(), false).unwrap();
    let mut config = config_for(&source_dir, &target_dir, "nope");
    config.source_branch = Some("feature".to_string());
    let mut session = Session::open(&config.source_repo, &config.target_repo).unwrap();
    let (result, _) = session.prepare(&config);
    assert_eq!(result, Err(SyncError::InvalidCommit("nope".to_string())));
    assert_eq!(head_name(&source), "main");
    config.start_commit = ids[0].to_string();
    config.end_commit = Some("absent".to_string());
    let (result, _) = session.prepare(&config);
    assert_eq!(result, Err(SyncError::InvalidCommit("absent".to_string())));
    assert_eq!(head_name(&source), "main");
    assert_eq!(session.guard_count(), 0);
}

#[test]
fn missing_branches_abort_before_any_switch() {
    let (source_dir, source, target_dir, target, ids) = four_commits();
    let mut config = config_for(&source_dir, &target_dir, &ids[0].to_string());
    config.source_branch = Some("absent".to_string());
    let mut session = Session::open(&config.source_repo, &config.target_repo).unwrap();
    let (result, _) = session.prepare(&config);
    assert_eq!(result, Err(SyncError::BranchNotFound("absent".to_string())));
    source.branch("feature", &source.find_commit(ids[1]).unwrap(), false).unwrap();
    config.source_branch = Some("feature".to_string());
    config.create_branch = Some(false);
    let (result, _) = session.prepare(&config);
    assert_eq!(result, Err(SyncError::BranchNotFound("feature".to_string())));
    assert_eq!(head_name(&source), "main");
    assert_eq!(head_name(&target), "main");
    assert_eq!(session.guard_count(), 0);
}

#[test]
fn after_a_run_branches_and_stash_are_restored() {
    let (source_dir, source, target_dir, mut target, ids) = four_commits();
    source.branch("feature", &source.find_commit(ids[1]).unwrap(), false).unwrap();
    change_tracked_file(&target, &[("README", "changed")]);
    let mut config = config_for(&source_dir, &target_dir, &ids[0].to_string());
    config.source_branch = Some("feature".to_string());
    config.target_branch = Some("sync".to_string());
    let mut session = Session::open(&config.source_repo, &config.target_repo).unwrap();
    let (result, failures) = session.prepare(&config);
    assert_eq!(result, Ok(()));
    assert!(failures.is_empty());
    assert_eq!(session.guard_count(), 3);
    assert_eq!(session.outstanding_stashes(false), 1);
    assert_eq!(session.outstanding_stashes(true), 0);
    assert_eq!(session.git_manager().source_repo_info.current_branch, "feature");
    assert_eq!(session.git_manager().target_repo_info.current_branch, "sync");
    assert_eq!(head_name(&source), "feature");
    assert_eq!(head_name(&target), "sync");
    assert_eq!(stash_count(&mut target), 1);
    assert_eq!(session.git_manager().has_uncommitted_changes(false), Ok(false));

    let report = session.release_all(false);
    assert_eq!(
        report,
        vec![
            Released { is_source: false, stash: true, failure: None },
            Released { is_source: false, stash: false, failure: None },
            Released { is_source: true, stash: false, failure: None },
        ]
    );
    assert_eq!(session.guard_count(), 0);
    assert_eq!(session.outstanding_stashes(false), 0);
    assert_eq!(session.git_manager().source_repo_info.current_branch, "main");
    assert_eq!(session.git_manager().target_repo_info.current_branch, "main");
    assert_eq!(head_name(&source), "main");
    assert_eq!(head_name(&target), "main");
    assert_eq!(stash_count(&mut target), 0);
    assert_eq!(session.git_manager().has_uncommitted_changes(false), Ok(true));
    assert!(session.release_all(false).is_empty());
}

#[test]
fn existing_target_branch_is_switched_to() {
    let (source_dir, source, target_dir, target, ids) = four_commits();
    target.branch("sync", &target.head().unwrap().peel_to_commit().unwrap(), false).unwrap();
    let mut config = config_for(&source_dir, &target_dir, &ids[0].to_string());
    config.target_branch = Some("sync".to_string());
    config.create_branch = Some(false);
    let mut session = Session::open(&config.source_repo, &config.target_repo).unwrap();
    assert_eq!(session.prepare(&config).0, Ok(()));
    assert_eq!(session.guard_count(), 1);
    assert_eq!(head_name(&target), "sync");
    assert_eq!(head_name(&source), "main");
    assert_eq!(
        session.release_all(false),
        vec![Released { is_source: false, stash: false, failure: None }]
    );
    assert_eq!(head_name(&target), "main");
}

#[test]
fn session_steps_leave_a_guard_each() {
    let (source_dir, source, target_dir, mut target, ids) = four_commits();
    source.branch("feature", &source.find_commit(ids[1]).unwrap(), false).unwrap();
    let mut session = Session::open(&path_of(&source_dir), &path_of(&target_dir)).unwrap();
    assert_eq!(
        session.switch_branch(true, "absent"),
        Err(SyncError::BranchNotFound("absent".to_string()))
    );
    assert_eq!(session.guard_count(), 0);
    assert_eq!(session.switch_branch(true, "feature"), Ok(()));
    assert_eq!(session.guard_count(), 1);
    assert_eq!(session.create_branch(false, "sync"), Ok(()));
    assert_eq!(session.guard_count(), 2);
    assert_eq!(session.stash(false, "nothing to put away"), Ok(false));
    assert_eq!(session.guard_count(), 2);
    change_tracked_file(&target, &[("README", "changed")]);
    assert_eq!(session.stash(false, "wip"), Ok(true));
    assert_eq!(session.guard_count(), 3);
    assert_eq!(session.outstanding_stashes(false), 1);
    let report = session.release_all(true);
    assert_eq!(report.len(), 3);
    assert!(report.iter().all(|r| r.failure.is_none()));
    assert!(report[0].stash && !report[1].stash && !report[2].stash);
    assert!(!report[1].is_source && report[2].is_source);
    assert_eq!(head_name(&source), "main");
    assert_eq!(head_name(&target), "main");
    assert_eq!(stash_count(&mut target), 0);
}

#[test]
fn changes_that_show_after_the_switch_are_stashed() {
    let (source_dir, source, target_dir, mut target, ids) = four_commits();
    let tip = target.head().unwrap().peel_to_commit().unwrap().id();
    commit_on(&target, "refs/heads/sync", T0 + 5, "other", &[("README", "other")], &[tip]);
    let mut config = config_for(&source_dir, &target_dir, &ids[0].to_string());
    config.target_branch = Some("sync".to_string());
    let mut session = Session::open(&config.source_repo, &config.target_repo).unwrap();
    assert_eq!(session.git_manager().has_uncommitted_changes(false), Ok(false));
    assert_eq!(
        session.observe(&config),
        Ok(Observed { source_branch_exists: true, target_branch_exists: true, target_dirty: false })
    );
    assert_eq!(session.prepare(&config).0, Ok(()));
    assert_eq!(session.guard_count(), 2);
    assert_eq!(session.outstanding_stashes(false), 1);
    assert_eq!(head_name(&target), "sync");
    assert_eq!(stash_count(&mut target), 1);
    assert_eq!(session.git_manager().has_uncommitted_changes(false), Ok(false));
    let report = session.release_all(false);
    assert_eq!(
        report,
        vec![
            Released { is_source: false, stash: true, failure: None },
            Released { is_source: false, stash: false, failure: None },
        ]
    );
    assert_eq!(head_name(&target), "main");
    assert_eq!(head_name(&source), "main");
    assert_eq!(stash_count(&mut target), 0);
    assert_eq!(session.outstanding_stashes(false), 0);
}

#[test]
fn changes_that_show_after_the_switch_and_may_not_be_stashed_end_the_preparation() {
    let (source_dir, _source, target_dir, mut target, ids) = four_commits();
    let tip = target.head().unwrap().peel_to_commit().unwrap().id();
    commit_on(&target, "refs/heads/sync", T0 + 5, "other", &[("README", "other")], &[tip]);
    let mut config = config_for(&source_dir, &target_dir, &ids[0].to_string());
    config.target_branch = Some("sync".to_string());
    config.auto_stash = Some(false);
    let mut session = Session::open(&config.source_repo, &config.target_repo).unwrap();
    let (result, report) = session.prepare(&config);
    assert_eq!(result, Err(SyncError::DirtyRepository(path_of(&target_dir))));
    assert_eq!(report, vec![Released { is_source: false, stash: false, failure: None }]);
    assert_eq!(session.guard_count(), 0);
    assert_eq!(head_name(&target), "main");
    assert_eq!(stash_count(&mut target), 0);
    assert_eq!(session.git_manager().target_repo_info.current_branch, "main");
}

#[test]
fn observing_changes_nothing() {
    let (source_dir, source, target_dir, target, ids) = four_commits();
    source.branch("feature", &source.find_commit(ids[1]).unwrap(), false).unwrap();
    add_untracked_file(&target_dir);
    let mut config = config_for(&source_dir, &target_dir, &ids[0].to_string());
    config.source_branch = Some("feature".to_string());
    config.target_branch = Some("sync".to_string());
    let session = Session::open(&config.source_repo, &config.target_repo).unwrap();
    assert_eq!(
        session.observe(&config),
        Ok(Observed { source_branch_exists: true, target_branch_exists: false, target_dirty: true })
    );
    config.source_branch = Some("absent".to_string());
    assert_eq!(
        session.observe(&config),
        Ok(Observed {
            source_branch_exists: false,
            target_branch_exists: false,
            target_dirty: true
        })
    );
    config.start_commit = "nope".to_string();
    assert_eq!(session.observe(&config), Err(SyncError::InvalidCommit("nope".to_string())));
    assert_eq!(head_name(&source), "main");
    assert_eq!(head_name(&target), "main");
}

#[test]
fn failed_release_is_reported_and_stops_nothing() {
    let (source_dir, source, target_dir, mut target, ids) = four_commits();
    source.branch("feature", &source.find_commit(ids[1]).unwrap(), false).unwrap();
    let mut session = Session::open(&path_of(&source_dir), &path_of(&target_dir)).unwrap();
    assert_eq!(session.switch_branch(true, "feature"), Ok(()));
    change_tracked_file(&target, &[("README", "changed")]);
    assert_eq!(session.stash(false, "wip"), Ok(true));
    // Someone else takes the stash entry away: the pop has nothing to pop.
    target.stash_drop(0).unwrap();
    let report = session.release_all(false);
    assert_eq!(report.len(), 2);
    assert!(report[0].stash && report[0].failure.is_some());
    assert_eq!(report[1], Released { is_source: true, stash: false, failure: None });
    assert_eq!(session.outstanding_stashes(false), 1);
    assert_eq!(session.guard_count(), 0);
    assert_eq!(head_name(&source), "main");
}

#[test]
fn preparation_is_planned_from_what_was_seen() {
    let (source_dir, _source, target_dir, _target, ids) = four_commits();
    let mut config = config_for(&source_dir, &target_dir, &ids[0].to_string());
    let seen =
        Observed { source_branch_exists: false, target_branch_exists: false, target_dirty: true };
    let plan = plan_preparation(&config, seen).unwrap();
    assert_eq!(plan.source_branch, None);
    assert_eq!(plan.target_branch, "main");
    assert!(plan.create_target);
    assert!(plan.stash_target);
    assert!(plan.may_stash);

    config.source_branch = Some("feature".to_string());
    assert_eq!(
        plan_preparation(&config, seen),
        Err(SyncError::BranchNotFound("feature".to_string()))
    );
    let seen = Observed { source_branch_exists: true, ..seen };
    let plan = plan_preparation(&config, seen).unwrap();
    assert_eq!(plan.source_branch, Some("feature".to_string()));
    assert_eq!(plan.target_branch, "feature");

    config.create_branch = Some(false);
    config.auto_stash = Some(false);
    assert_eq!(
        plan_preparation(&config, seen),
        Err(SyncError::BranchNotFound("feature".to_string()))
    );
    let seen = Observed { target_branch_exists: true, ..seen };
    assert_eq!(
        plan_preparation(&config, seen),
        Err(SyncError::DirtyRepository(path_of(&target_dir)))
    );
    let seen = Observed { target_dirty: false, ..seen };
    let plan = plan_preparation(&config, seen).unwrap();
    assert!(!plan.create_target);
    assert!(!plan.stash_target);
    assert!(!plan.may_stash);
}
