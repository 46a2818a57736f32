//! Making a patch of one commit and replaying it: the command lines handed
//! to the version-control tool, and what its answers mean.
//!
//! Running the tool is the caller's part. It receives the arguments from
//! here and hands back whether the tool succeeded and what it printed.

use crate::error::SyncError;
use crate::text::{contains, join, occurs_in, trim, trimmed};
use vstd::prelude::*;

verus! {

/// What became of replaying one patch.
#[derive(Debug, Clone, PartialEq, Eq)]
pub enum ApplyOutcome {
    /// The patch became a commit of the target.
    Applied,
    /// The patch holds nothing once its paths are rewritten.
    EmptyPatch,
    /// The patch did not apply; the tool's own words.
    Conflict(String),
}

/// What became of giving up a replay that did not apply.
#[derive(Debug, Clone, PartialEq, Eq)]
pub enum AbortOutcome {
    /// The target's working tree is as it was before the replay.
    Aborted,
    /// No replay was under way.
    NothingToAbort,
    /// The replay is still under way; the tool's own words.
    Failed(String),
}

/// The texts that a vector of strings holds.
pub open spec fn texts(args: Seq<String>) -> Seq<Seq<char>> {
    Seq::new(args.len(), |i: int| args[i]@)
}

/// The tool says that the patch holds nothing.
pub open spec fn says_empty(stderr: Seq<char>) -> bool {
    occurs_in("patch does not have a valid index"@, stderr) || occurs_in(
        "Patch is empty"@,
        stderr,
    )
}

/// The tool says that no replay is under way.
pub open spec fn says_nothing_to_abort(stderr: Seq<char>) -> bool {
    occurs_in("Resolve operation not in progress"@, stderr)
}

/// The arguments that make one patch of the commit `commit_id` of the
/// repository at `repo_path`, into `output_dir`, with paths relative to
/// `subdir`, binary content and full blob identities.
pub open spec fn format_patch_line(
    repo_path: Seq<char>,
    commit_id: Seq<char>,
    subdir: Seq<char>,
    output_dir: Seq<char>,
) -> Seq<Seq<char>> {
    seq![
        "-C"@,
        repo_path,
        "format-patch"@,
        "-1"@,
        commit_id,
        "--binary"@,
        "--full-index"@,
        "--relative="@ + subdir,
        "-o"@,
        output_dir,
    ]
}

/// The arguments that replay the patch at `patch_path` onto the repository
/// at `repo_path` with a three-way merge and the author's time as commit
/// time, under `target_subdir` where one is given.
pub open spec fn apply_patch_line(
    repo_path: Seq<char>,
    patch_path: Seq<char>,
    target_subdir: Option<Seq<char>>,
) -> Seq<Seq<char>> {
    let head = seq!["-C"@, repo_path, "am"@, "--3way"@, "--committer-date-is-author-date"@];
    match target_subdir {
        Some(dir) => head.push("--directory="@ + dir).push(patch_path),
        None => head.push(patch_path),
    }
}

/// The arguments that give up the replay under way in the repository at
/// `repo_path`.
pub open spec fn abort_apply_line(repo_path: Seq<char>) -> Seq<Seq<char>> {
    seq!["-C"@, repo_path, "am"@, "--abort"@]
}

/// The arguments that make the patch of one commit.
pub fn format_patch_args(repo_path: &str, commit_id: &str, subdir: &str, output_dir: &str) -> (args:
    Vec<String>)
    ensures
        texts(args@) == format_patch_line(repo_path@, commit_id@, subdir@, output_dir@),
{
    let mut args: Vec<String> = Vec::new();
    args.push(String::from_str("-C"));
    args.push(String::from_str(repo_path));
    args.push(String::from_str("format-patch"));
    args.push(String::from_str("-1"));
    args.push(String::from_str(commit_id));
    args.push(String::from_str("--binary"));
    args.push(String::from_str("--full-index"));
    args.push(join("--relative=", subdir));
    args.push(String::from_str("-o"));
    args.push(String::from_str(output_dir));
    assert(texts(args@) =~= format_patch_line(repo_path@, commit_id@, subdir@, output_dir@));
    args
}

/// The arguments that replay one patch.
pub fn apply_patch_args(repo_path: &str, patch_path: &str, target_subdir: Option<&str>) -> (args:
    Vec<String>)
    ensures
        texts(args@) == apply_patch_line(
            repo_path@,
            patch_path@,
            match target_subdir {
                Some(dir) => Some(dir@),
                None => None,
            },
        ),
{
    let mut args: Vec<String> = Vec::new();
    args.push(String::from_str("-C"));
    args.push(String::from_str(repo_path));
    args.push(String::from_str("am"));
    args.push(String::from_str("--3way"));
    args.push(String::from_str("--committer-date-is-author-date"));
    match target_subdir {
        Some(dir) => {
            args.push(join("--directory=", dir));
            args.push(String::from_str(patch_path));
            assert(texts(args@) =~= apply_patch_line(repo_path@, patch_path@, Some(dir@)));
        },
        None => {
            args.push(String::from_str(patch_path));
            assert(texts(args@) =~= apply_patch_line(repo_path@, patch_path@, None));
        },
    }
    args
}

/// The arguments that give up the replay under way.
pub fn abort_apply_args(repo_path: &str) -> (args: Vec<String>)
    ensures
        texts(args@) == abort_apply_line(repo_path@),
{
    let mut args: Vec<String> = Vec::new();
    args.push(String::from_str("-C"));
    args.push(String::from_str(repo_path));
    args.push(String::from_str("am"));
    args.push(String::from_str("--abort"));
    assert(texts(args@) =~= abort_apply_line(repo_path@));
    args
}

/// Where the patch is, from what the tool printed after making it.
///
/// A tool that failed gives `PatchGenerationFailed` with what it wrote to
/// its error stream. Else the name it printed, without white space around
/// it; `None` where it printed none, and the patch is to be looked for in
/// the output directory.
pub fn patch_file_printed(success: bool, stdout: &str, stderr: &str) -> (name: Result<
    Option<String>,
    SyncError,
>)
    ensures
        match name {
            Ok(Some(n)) => success && n@ == trimmed(stdout@) && n@.len() > 0,
            Ok(None) => success && trimmed(stdout@).len() == 0,
            Err(e) => !success && (e matches SyncError::PatchGenerationFailed(m) && m@
                == stderr@),
        },
{
    if !success {
        return Err(SyncError::PatchGenerationFailed(String::from_str(stderr)));
    }
    let name = trim(stdout);
    if name.as_str().unicode_len() == 0 {
        Ok(None)
    } else {
        Ok(Some(name))
    }
}

/// The patch found in the output directory, or `PatchGenerationFailed`
/// where the directory is empty.
pub fn patch_file_found(first_entry: Option<String>) -> (path: Result<String, SyncError>)
    ensures
        match first_entry {
            Some(entry) => path == Ok::<String, SyncError>(entry),
            None => path matches Err(SyncError::PatchGenerationFailed(m)) && m@
                == "No patch file generated"@,
        },
{
    match first_entry {
        Some(entry) => Ok(entry),
        None => Err(SyncError::PatchGenerationFailed(String::from_str("No patch file generated"))),
    }
}

/// What the tool's answer to a replay means.
///
/// Success is `Applied`. A failure whose words say that the patch holds
/// nothing is `EmptyPatch`; every other failure is a `Conflict` that
/// carries the words.
pub fn classify_apply(success: bool, stderr: &str) -> (outcome: ApplyOutcome)
    ensures
        success ==> outcome is Applied,
        !success && says_empty(stderr@) ==> outcome is EmptyPatch,
        !success && !says_empty(stderr@) ==> (outcome matches ApplyOutcome::Conflict(m) && m@
            == stderr@),
{
    if success {
        ApplyOutcome::Applied
    } else if contains(stderr, "patch does not have a valid index") {
        ApplyOutcome::EmptyPatch
    } else if contains(stderr, "Patch is empty") {
        ApplyOutcome::EmptyPatch
    } else {
        ApplyOutcome::Conflict(String::from_str(stderr))
    }
}

/// What the tool's answer to giving up a replay means.
///
/// A failure whose words say that no replay is under way counts as done:
/// there is nothing left to give up.
pub fn classify_abort(success: bool, stderr: &str) -> (outcome: AbortOutcome)
    ensures
        success ==> outcome is Aborted,
        !success && says_nothing_to_abort(stderr@) ==> outcome is NothingToAbort,
        !success && !says_nothing_to_abort(stderr@) ==> (outcome matches AbortOutcome::Failed(
            m,
        ) && m@ == stderr@),
{
    if success {
        AbortOutcome::Aborted
    } else if contains(stderr, "Resolve operation not in progress") {
        AbortOutcome::NothingToAbort
    } else {
        AbortOutcome::Failed(String::from_str(stderr))
    }
}

/// The result of a replay as an error or none: an empty patch and a
/// conflict are errors, the first one that the run survives.
pub fn apply_result(outcome: ApplyOutcome) -> (result: Result<(), SyncError>)
    ensures
        match outcome {
            ApplyOutcome::Applied => result is Ok,
            ApplyOutcome::EmptyPatch => result == Err::<(), SyncError>(SyncError::EmptyPatch),
            ApplyOutcome::Conflict(m) => result == Err::<(), SyncError>(
                SyncError::PatchConflict(m),
            ),
        },
{
    match outcome {
        ApplyOutcome::Applied => Ok(()),
        ApplyOutcome::EmptyPatch => Err(SyncError::EmptyPatch),
        ApplyOutcome::Conflict(m) => Err(SyncError::PatchConflict(m)),
    }
}

} // verus!
