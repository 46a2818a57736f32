use sync_subdir::error::SyncError;
use sync_subdir::patch::{
    abort_apply_args, apply_patch_args, apply_result, classify_abort, classify_apply,
    format_patch_args, patch_file_found, patch_file_printed, AbortOutcome, ApplyOutcome,
};

#[test]
fn format_patch_arguments() {
    assert_eq!(
        format_patch_args("/repo/main", "abc123", "lib", "/tmp/out"),
        vec![
            "-C",
            "/repo/main",
            "format-patch",
            "-1",
            "abc123",
            "--binary",
            "--full-index",
            "--relative=lib",
            "-o",
            "/tmp/out"
        ]
    );
}

#[test]
fn apply_patch_arguments() {
    assert_eq!(
        apply_patch_args("/repo/sub", "/tmp/out/0001-x.patch", None),
        vec![
            "-C",
            "/repo/sub",
            "am",
            "--3way",
            "--committer-date-is-author-date",
            "/tmp/out/0001-x.patch"
        ]
    );
    assert_eq!(
        apply_patch_args("/repo/sub", "/tmp/out/0001-x.patch", Some("vendor/lib")),
        vec![
            "-C",
            "/repo/sub",
            "am",
            "--3way",
            "--committer-date-is-author-date",
            "--directory=vendor/lib",
            "/tmp/out/0001-x.patch"
        ]
    );
}

#[test]
fn abort_arguments() {
    assert_eq!(abort_apply_args("/repo/sub"), vec!["-C", "/repo/sub", "am", "--abort"]);
}

#[test]
fn success_is_applied_whatever_was_printed() {
    assert_eq!(classify_apply(true, ""), ApplyOutcome::Applied);
    assert_eq!(classify_apply(true, "Patch is empty"), ApplyOutcome::Applied);
}

#[test]
fn empty_patch_is_recognised_by_the_tool_words() {
    assert_eq!(
        classify_apply(false, "error: patch does not have a valid index line"),
        ApplyOutcome::EmptyPatch
    );
    assert_eq!(classify_apply(false, "Patch is empty.\nhint: ..."), ApplyOutcome::EmptyPatch);
}

#[test]
fn any_other_failure_is_a_conflict_with_the_words() {
    let words = "error: patch failed: lib/a.rs:3\nerror: lib/a.rs: patch does not apply";
    assert_eq!(classify_apply(false, words), ApplyOutcome::Conflict(words.to_string()));
    assert_eq!(classify_apply(false, ""), ApplyOutcome::Conflict(String::new()));
}

#[test]
fn apply_result_maps_outcomes_to_errors() {
    assert_eq!(apply_result(ApplyOutcome::Applied), Ok(()));
    assert_eq!(apply_result(ApplyOutcome::EmptyPatch), Err(SyncError::EmptyPatch));
    assert_eq!(
        apply_result(ApplyOutcome::Conflict("boom".to_string())),
        Err(SyncError::PatchConflict("boom".to_string()))
    );
}

#[test]
fn abort_outcomes() {
    assert_eq!(classify_abort(true, "whatever"), AbortOutcome::Aborted);
    assert_eq!(
        classify_abort(false, "fatal: Resolve operation not in progress, we are not resuming."),
        AbortOutcome::NothingToAbort
    );
    assert_eq!(
        classify_abort(false, "fatal: could not restore"),
        AbortOutcome::Failed("fatal: could not restore".to_string())
    );
}

#[test]
fn patch_file_name_comes_from_what_was_printed() {
    assert_eq!(
        patch_file_printed(true, "/tmp/out/0001-add-a.patch\n", ""),
        Ok(Some("/tmp/out/0001-add-a.patch".to_string()))
    );
    assert_eq!(patch_file_printed(true, "  \n", "ignored"), Ok(None));
    assert_eq!(patch_file_printed(true, "", ""), Ok(None));
    assert_eq!(
        patch_file_printed(false, "0001-x.patch", "fatal: bad revision"),
        Err(SyncError::PatchGenerationFailed("fatal: bad revision".to_string()))
    );
}

#[test]
fn patch_file_found_in_the_directory() {
    assert_eq!(patch_file_found(Some("/tmp/out/0001.patch".to_string())), Ok("/tmp/out/0001.patch".to_string()));
    assert_eq!(
        patch_file_found(None),
        Err(SyncError::PatchGenerationFailed("No patch file generated".to_string()))
    );
}
