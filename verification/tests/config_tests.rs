use sync_subdir::config::{flag_pair, flag_set, validate_config, Config, PathProbe};
use sync_subdir::error::SyncError;

fn config() -> Config {
    Config {
        source_repo: "/repo/main".to_string(),
        subdir: "lib".to_string(),
        target_repo: "/repo/sub".to_string(),
        start_commit: "abc123".to_string(),
        source_branch: None,
        target_branch: None,
        end_commit: None,
        create_branch: None,
        include_start: None,
        no_merge: None,
        sync_delete: None,
        auto_stash: None,
        dry_run: false,
        verbose: false,
    }
}

fn probe() -> PathProbe {
    PathProbe {
        source_exists: true,
        source_has_git: true,
        target_exists: true,
        target_has_git: true,
        subdir_path: "/repo/main/lib".to_string(),
        subdir_exists: true,
    }
}

#[test]
fn default_target_branch_falls_back() {
    let mut c = config();
    assert_eq!(c.get_default_target_branch(), "main");
    c.source_branch = Some("feature/x".to_string());
    assert_eq!(c.get_default_target_branch(), "feature/x");
    c.target_branch = Some("sync".to_string());
    assert_eq!(c.get_default_target_branch(), "sync");
}

#[test]
fn unset_switches_take_their_defaults() {
    let mut c = config();
    assert_eq!(c.end_reference(), "HEAD");
    assert!(c.includes_start());
    assert!(c.first_parent_only());
    assert!(c.creates_branch());
    assert!(c.stashes());
    c.end_commit = Some("v2".to_string());
    c.include_start = Some(false);
    c.no_merge = Some(false);
    c.create_branch = Some(false);
    c.auto_stash = Some(false);
    assert_eq!(c.end_reference(), "v2");
    assert!(!c.includes_start());
    assert!(!c.first_parent_only());
    assert!(!c.creates_branch());
    assert!(!c.stashes());
}

#[test]
fn flag_pairs() {
    assert_eq!(flag_pair(true, false), Some(true));
    assert_eq!(flag_pair(false, true), Some(false));
    assert_eq!(flag_pair(false, false), None);
    assert_eq!(flag_pair(true, true), Some(true));
    assert_eq!(flag_set(true), Some(true));
    assert_eq!(flag_set(false), None);
}

#[test]
fn validate_config_reports_the_first_complaint() {
    let c = config();
    assert_eq!(validate_config(&c, &probe()), Ok(()));
    let p = PathProbe { source_exists: false, target_exists: false, ..probe() };
    assert_eq!(validate_config(&c, &p), Err(SyncError::PathNotFound("/repo/main".to_string())));
    let p = PathProbe { source_has_git: false, subdir_exists: false, ..probe() };
    assert_eq!(validate_config(&c, &p), Err(SyncError::NotARepository("/repo/main".to_string())));
    let p = PathProbe { target_exists: false, ..probe() };
    assert_eq!(validate_config(&c, &p), Err(SyncError::PathNotFound("/repo/sub".to_string())));
    let p = PathProbe { target_has_git: false, ..probe() };
    assert_eq!(validate_config(&c, &p), Err(SyncError::NotARepository("/repo/sub".to_string())));
    let p = PathProbe { subdir_exists: false, ..probe() };
    assert_eq!(validate_config(&c, &p), Err(SyncError::PathNotFound("/repo/main/lib".to_string())));
}

#[test]
fn error_messages() {
    assert_eq!(SyncError::Git("x".to_string()).message(), "Git error: x");
    assert_eq!(SyncError::Io("x".to_string()).message(), "IO error: x");
    assert_eq!(SyncError::Other("x".to_string()).message(), "Anyhow error: x");
    assert_eq!(SyncError::InvalidCommit("zz".to_string()).message(), "Invalid commit hash: zz");
    assert_eq!(SyncError::PathNotFound("/p".to_string()).message(), "Path does not exist: /p");
    assert_eq!(SyncError::NotARepository("/p".to_string()).message(), "Not a git repository: /p");
    assert_eq!(
        SyncError::DirtyRepository("/p".to_string()).message(),
        "Repository has uncommitted changes: /p"
    );
    assert_eq!(
        SyncError::EmptyPatch.message(),
        "Empty patch: the commit does not affect the specified subdirectory"
    );
    assert_eq!(SyncError::PatchConflict("c".to_string()).message(), "Patch conflict: c");
    assert_eq!(SyncError::BranchNotFound("b".to_string()).message(), "Branch not found: b");
    assert_eq!(
        SyncError::PatchGenerationFailed("g".to_string()).message(),
        "Failed to generate patch: g"
    );
}
