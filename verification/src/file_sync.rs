//! Synchronising by copying files: the changed files of the subdirectory
//! are copied to, or deleted from, the target's working tree.
//!
//! Copying and deleting are the caller's part. Decided here: which path of
//! the target a changed file belongs to, what is to be done for it, and how
//! the outcome is counted.

use crate::backend::join_path;
use crate::error::SyncError;
use crate::range::{subdir_pattern, subdir_prefix};
use crate::text::{chars_of, join, starts_with, text_of_range};
use vstd::prelude::*;

verus! {

/// What happened to a file between two commits.
#[derive(Debug, Clone, Copy, PartialEq, Eq, Structural)]
pub enum FileStatus {
    Added,
    Modified,
    Deleted,
    Renamed,
    TypeChanged,
}

/// One changed file of the source repository.
#[derive(Debug, Clone, PartialEq, Eq)]
pub struct FileChange {
    /// The file's path in the source repository.
    pub path: String,
    /// Its path before, where it was renamed.
    pub old_path: Option<String>,
    pub status: FileStatus,
}

/// The counters of a run.
#[derive(Debug, Clone, Copy, PartialEq, Eq, Structural)]
pub struct SyncStats {
    pub total_files: usize,
    pub synced_files: usize,
    pub deleted_files: usize,
    pub failed_files: usize,
    pub skipped_files: usize,
}

impl Default for SyncStats {
    fn default() -> (stats: SyncStats)
        ensures
            stats == (SyncStats {
                total_files: 0,
                synced_files: 0,
                deleted_files: 0,
                failed_files: 0,
                skipped_files: 0,
            }),
    {
        SyncStats {
            total_files: 0,
            synced_files: 0,
            deleted_files: 0,
            failed_files: 0,
            skipped_files: 0,
        }
    }
}

/// The settings of a run.
#[derive(Debug, Clone)]
pub struct SyncConfig {
    pub source_repo: String,
    pub target_repo: String,
    pub subdir: String,
    /// Deletions are carried over to the target.
    pub sync_delete: bool,
    pub verbose: bool,
}

/// The engine of a run.
pub struct SyncEngine {
    config: SyncConfig,
    dry_run: bool,
}

/// What became of one file.
#[derive(Debug, Clone, Copy, PartialEq, Eq, Structural)]
pub enum SyncStatus {
    Synced,
    Deleted,
    Skipped,
}

/// What a run would do to one file.
#[derive(Debug, Clone, PartialEq, Eq)]
pub enum PreviewAction {
    Add,
    Modify,
    Delete,
    Rename { old_path: String, new_path: String },
}

/// One line of the preview.
#[derive(Debug, Clone, PartialEq, Eq)]
pub struct PreviewItem {
    pub action: PreviewAction,
    /// Where the file is: its path, below the source repository.
    pub source_path: String,
    /// Where the file goes: its path without the subdirectory, below the
    /// target repository.
    pub target_path: String,
}

/// What the caller is to do for one file.
#[derive(Debug, Clone, PartialEq, Eq)]
pub enum FilePlan {
    /// Nothing: the file counts as `status`.
    Settled(SyncStatus),
    /// Copy the file from the source to the target, over what is there,
    /// making its directories first. Counts as synced.
    Copy,
    /// Remove the file from the target if it is there, and the directories
    /// that this leaves empty. Counts as deleted.
    Remove,
    /// Remove the file at `old_target` from the target if it is there, then
    /// copy the file from the source if it is there. Counts as synced.
    Move { old_target: String },
}

/// What the file system says about the paths of a run.
#[derive(Debug)]
pub struct PathsSeen {
    pub source_exists: bool,
    pub target_exists: bool,
    /// The subdirectory, joined onto the source path.
    pub subdir_path: String,
    pub subdir_exists: bool,
}

/// The path under the target that `path` of the source belongs to: `path`
/// without the subdirectory in front, or `None` where it does not lie
/// under the subdirectory.
pub open spec fn relative_to(path: Seq<char>, subdir: Seq<char>) -> Option<Seq<char>> {
    if subdir_prefix(subdir).is_prefix_of(path) {
        Some(path.subrange(subdir_prefix(subdir).len() as int, path.len() as int))
    } else {
        None
    }
}

/// Selected and deleted.
pub open spec fn deletion_at(changes: Seq<FileChange>, selected: Seq<bool>, i: int) -> bool {
    0 <= i < changes.len() && i < selected.len() && selected[i] && changes[i].status
        == FileStatus::Deleted
}

/// How many of the first `upto` changes are selected and deleted.
pub open spec fn deletions(changes: Seq<FileChange>, selected: Seq<bool>, upto: int) -> nat
    decreases upto,
{
    if upto <= 0 {
        0
    } else {
        let counted: nat = if deletion_at(changes, selected, upto - 1) {
            1
        } else {
            0
        };
        deletions(changes, selected, upto - 1) + counted
    }
}

/// The line of the preview for `item`.
pub open spec fn description_of(item: PreviewItem) -> Seq<char> {
    match item.action {
        PreviewAction::Add => "新增: "@ + item.target_path@,
        PreviewAction::Modify => "修改: "@ + item.target_path@,
        PreviewAction::Delete => "删除: "@ + item.target_path@,
        PreviewAction::Rename { old_path, new_path } => "重命名: "@ + old_path@ + " → "@
            + new_path@,
    }
}

/// `change` is a rename from a path that does not lie under `subdir`: such
/// a file cannot be planned for.
pub open spec fn renamed_from_outside(change: FileChange, subdir: Seq<char>) -> bool {
    change.status == FileStatus::Renamed && change.old_path is Some && relative_to(
        change.old_path->0@,
        subdir,
    ) is None
}

/// What is to be done for a file with `status`, given whether it is there
/// in the source, whether the run is dry and whether deletions are carried
/// over. `old_target` is where a renamed file was in the target, if that
/// is known.
pub open spec fn planned(
    status: FileStatus,
    old_target: Option<Seq<char>>,
    source_exists: bool,
    dry_run: bool,
    sync_delete: bool,
    plan: FilePlan,
) -> bool {
    match status {
        FileStatus::Added | FileStatus::Modified | FileStatus::TypeChanged => if !source_exists {
            plan == FilePlan::Settled(SyncStatus::Skipped)
        } else if dry_run {
            plan == FilePlan::Settled(SyncStatus::Synced)
        } else {
            plan is Copy
        },
        FileStatus::Deleted => if !sync_delete {
            plan == FilePlan::Settled(SyncStatus::Skipped)
        } else if dry_run {
            plan == FilePlan::Settled(SyncStatus::Deleted)
        } else {
            plan is Remove
        },
        FileStatus::Renamed => match old_target {
            None => plan == FilePlan::Settled(SyncStatus::Skipped),
            Some(old) => if dry_run {
                plan == FilePlan::Settled(SyncStatus::Synced)
            } else {
                (plan matches FilePlan::Move { old_target: o } && o@ == old)
            },
        },
    }
}

/// The counters after one more file came to `outcome`; `None` stands for
/// a failure.
pub open spec fn tallied(stats: SyncStats, outcome: Option<SyncStatus>) -> SyncStats {
    match outcome {
        Some(SyncStatus::Synced) => SyncStats {
            synced_files: (stats.synced_files + 1) as usize,
            ..stats
        },
        Some(SyncStatus::Deleted) => SyncStats {
            deleted_files: (stats.deleted_files + 1) as usize,
            ..stats
        },
        Some(SyncStatus::Skipped) => SyncStats {
            skipped_files: (stats.skipped_files + 1) as usize,
            ..stats
        },
        None => SyncStats { failed_files: (stats.failed_files + 1) as usize, ..stats },
    }
}

/// The word shown for `outcome`.
pub open spec fn outcome_word(outcome: Option<SyncStatus>) -> Seq<char> {
    match outcome {
        Some(SyncStatus::Synced) => "已同步"@,
        Some(SyncStatus::Deleted) => "已删除"@,
        Some(SyncStatus::Skipped) => "已跳过"@,
        None => "失败"@,
    }
}

impl SyncStats {
    /// How many files were dealt with.
    pub open spec fn handled(self) -> int {
        self.synced_files + self.deleted_files + self.failed_files + self.skipped_files
    }
}

impl PreviewItem {
    /// The line of the preview.
    pub fn description(&self) -> (line: String)
        ensures
            line@ == description_of(*self),
    {
        match &self.action {
            PreviewAction::Add => join("新增: ", self.target_path.as_str()),
            PreviewAction::Modify => join("修改: ", self.target_path.as_str()),
            PreviewAction::Delete => join("删除: ", self.target_path.as_str()),
            PreviewAction::Rename { old_path, new_path } => {
                let mut line = join("重命名: ", old_path.as_str());
                line.append(" → ");
                line.append(new_path.as_str());
                line
            },
        }
    }
}

impl SyncEngine {
    /// An engine for `config`; with `dry_run` it changes nothing.
    pub fn new(config: SyncConfig, dry_run: bool) -> (engine: SyncEngine)
        ensures
            engine.config() == config,
            engine.is_dry_run() == dry_run,
    {
        SyncEngine { config, dry_run }
    }

    /// The settings of the run.
    pub closed spec fn config(self) -> SyncConfig {
        self.config
    }

    /// Whether the engine changes nothing.
    pub closed spec fn is_dry_run(self) -> bool {
        self.dry_run
    }

    /// The settings of the run.
    pub fn settings(&self) -> (config: &SyncConfig)
        ensures
            *config == self.config(),
    {
        &self.config
    }

    /// Whether the engine changes nothing.
    pub fn dry_run(&self) -> (dry: bool)
        ensures
            dry == self.is_dry_run(),
    {
        self.dry_run
    }

    /// The path under the target that `path` of the source belongs to:
    /// `path` without the subdirectory in front. A path that does not lie
    /// under the subdirectory is an error.
    pub fn strip_subdir_prefix(&self, path: &str) -> (relative: Result<String, SyncError>)
        ensures
            match relative_to(path@, self.config().subdir@) {
                Some(rest) => relative is Ok && relative->Ok_0@ == rest,
                None => (relative matches Err(SyncError::Other(m)) && m@ == "Path "@ + path@
                    + " does not start with subdirectory "@ + self.config().subdir@),
            },
    {
        let pattern = subdir_pattern(self.config.subdir.as_str());
        if starts_with(path, pattern.as_str()) {
            let all = chars_of(path);
            let skip = pattern.as_str().unicode_len();
            Ok(text_of_range(&all, skip, all.len()))
        } else {
            let mut line = join("Path ", path);
            line.append(" does not start with subdirectory ");
            line.append(self.config.subdir.as_str());
            Err(SyncError::Other(line))
        }
    }

    /// Checks the paths of the run against what the file system said: the
    /// source, the target, and the subdirectory in the source must exist,
    /// looked at in that order.
    pub fn validate_paths(&self, seen: &PathsSeen) -> (checked: Result<(), SyncError>)
        ensures
            !seen.source_exists ==> (checked matches Err(SyncError::Other(m)) && m@
                == "Source repository does not exist: "@ + self.config().source_repo@),
            seen.source_exists && !seen.target_exists ==> (checked matches Err(
                SyncError::Other(m),
            ) && m@ == "Target repository does not exist: "@ + self.config().target_repo@),
            seen.source_exists && seen.target_exists && !seen.subdir_exists ==> (
            checked matches Err(SyncError::Other(m)) && m@
                == "Subdirectory does not exist in source repository: "@ + seen.subdir_path@),
            seen.source_exists && seen.target_exists && seen.subdir_exists ==> checked is Ok,
    {
        if !seen.source_exists {
            return Err(
                SyncError::Other(
                    join("Source repository does not exist: ", self.config.source_repo.as_str()),
                ),
            );
        }
        if !seen.target_exists {
            return Err(
                SyncError::Other(
                    join("Target repository does not exist: ", self.config.target_repo.as_str()),
                ),
            );
        }
        if !seen.subdir_exists {
            return Err(
                SyncError::Other(
                    join(
                        "Subdirectory does not exist in source repository: ",
                        seen.subdir_path.as_str(),
                    ),
                ),
            );
        }
        Ok(())
    }

    /// How many changes are selected and are deletions. A change without a
    /// selection flag is not selected.
    pub fn get_deletion_count(&self, file_changes: &Vec<FileChange>, selected_files: &Vec<bool>) -> (count:
        usize)
        ensures
            count == deletions(file_changes@, selected_files@, file_changes@.len() as int),
    {
        let mut count: usize = 0;
        let mut i: usize = 0;
        while i < file_changes.len()
            invariant
                i <= file_changes@.len(),
                count == deletions(file_changes@, selected_files@, i as int),
                count <= i,
            decreases file_changes.len() - i,
        {
            if i < selected_files.len() && selected_files[i] {
                match file_changes[i].status {
                    FileStatus::Deleted => {
                        count += 1;
                    },
                    _ => {},
                }
            }
            i += 1;
        }
        count
    }

    /// What is to be done for `change`, given whether its file is there in
    /// the source.
    ///
    /// A renamed file whose former path does not lie under the
    /// subdirectory is an error, and nothing else is; a renamed file without
    /// a former path is skipped.
    pub fn plan_file(&self, change: &FileChange, source_exists: bool) -> (plan: Result<
        FilePlan,
        SyncError,
    >)
        ensures
            plan is Err <==> renamed_from_outside(*change, self.config().subdir@),
            match plan {
                Ok(plan) => planned(
                    change.status,
                    match change.old_path {
                        Some(old) => relative_to(old@, self.config().subdir@),
                        None => None,
                    },
                    source_exists,
                    self.is_dry_run(),
                    self.config().sync_delete,
                    plan,
                ),
                Err(e) => (e matches SyncError::Other(m) && m@ == "Path "@
                    + change.old_path->0@ + " does not start with subdirectory "@
                    + self.config().subdir@),
            },
    {
        match change.status {
            FileStatus::Added | FileStatus::Modified | FileStatus::TypeChanged => {
                if !source_exists {
                    Ok(FilePlan::Settled(SyncStatus::Skipped))
                } else if self.dry_run {
                    Ok(FilePlan::Settled(SyncStatus::Synced))
                } else {
                    Ok(FilePlan::Copy)
                }
            },
            FileStatus::Deleted => {
                if !self.config.sync_delete {
                    Ok(FilePlan::Settled(SyncStatus::Skipped))
                } else if self.dry_run {
                    Ok(FilePlan::Settled(SyncStatus::Deleted))
                } else {
                    Ok(FilePlan::Remove)
                }
            },
            FileStatus::Renamed => {
                let old_target = match &change.old_path {
                    Some(old) => match self.strip_subdir_prefix(old.as_str()) {
                        Ok(rest) => rest,
                        Err(e) => {
                            return Err(e);
                        },
                    },
                    None => {
                        return Ok(FilePlan::Settled(SyncStatus::Skipped));
                    },
                };
                if self.dry_run {
                    Ok(FilePlan::Settled(SyncStatus::Synced))
                } else {
                    Ok(FilePlan::Move { old_target })
                }
            },
        }
    }

    /// Counts one more file and hands back the word shown for it; `None`
    /// stands for a failure.
    pub fn tally(&self, stats: &mut SyncStats, outcome: Option<SyncStatus>) -> (word: String)
        requires
            old(stats).handled() < usize::MAX,
        ensures
            *final(stats) == tallied(*old(stats), outcome),
            final(stats).handled() == old(stats).handled() + 1,
            word@ == outcome_word(outcome),
    {
        match outcome {
            Some(SyncStatus::Synced) => {
                stats.synced_files = stats.synced_files + 1;
                String::from_str("已同步")
            },
            Some(SyncStatus::Deleted) => {
                stats.deleted_files = stats.deleted_files + 1;
                String::from_str("已删除")
            },
            Some(SyncStatus::Skipped) => {
                stats.skipped_files = stats.skipped_files + 1;
                String::from_str("已跳过")
            },
            None => {
                stats.failed_files = stats.failed_files + 1;
                String::from_str("失败")
            },
        }
    }

    /// What a run would do: one line for each selected change, in their
    /// order. A change without a selection flag is not selected. A selected
    /// change whose path, or whose former path where it was renamed, does
    /// not lie under the subdirectory is an error.
    pub fn preview_sync(&self, file_changes: &Vec<FileChange>, selected_files: &Vec<bool>) -> (items:
        Result<Vec<PreviewItem>, SyncError>)
        ensures
            match items {
                Ok(items) => {
                    let picked = picked_indices(selected_files@, file_changes@.len() as int);
                    &&& items@.len() == picked.len()
                    &&& forall|k: int|
                        0 <= k < items@.len() ==> previews(
                            #[trigger] items@[k],
                            file_changes@[picked[k]],
                            self.config().subdir@,
                        )
                },
                Err(e) => e is Other && exists|i: int|
                    0 <= i < file_changes@.len() && i < selected_files@.len() && selected_files@[i]
                        && !previewable(#[trigger] file_changes@[i], self.config().subdir@),
            },
    {
        let mut items: Vec<PreviewItem> = Vec::new();
        let mut i: usize = 0;
        while i < file_changes.len()
            invariant
                i <= file_changes@.len(),
                items@.len() == picked_indices(selected_files@, i as int).len(),
                forall|k: int|
                    0 <= k < items@.len() ==> previews(
                        #[trigger] items@[k],
                        file_changes@[picked_indices(selected_files@, i as int)[k]],
                        self.config().subdir@,
                    ),
            decreases file_changes.len() - i,
        {
            let ghost before = items@;
            let ghost picked_before = picked_indices(selected_files@, i as int);
            if i < selected_files.len() && selected_files[i] {
                let change = &file_changes[i];
                let relative = match self.strip_subdir_prefix(change.path.as_str()) {
                    Ok(rest) => rest,
                    Err(e) => {
                        assert(!previewable(file_changes@[i as int], self.config().subdir@));
                        return Err(e);
                    },
                };
                let action = match change.status {
                    FileStatus::Added => PreviewAction::Add,
                    FileStatus::Modified => PreviewAction::Modify,
                    FileStatus::TypeChanged => PreviewAction::Modify,
                    FileStatus::Deleted => PreviewAction::Delete,
                    FileStatus::Renamed => {
                        let former = match &change.old_path {
                            Some(old) => old.as_str(),
                            None => change.path.as_str(),
                        };
                        match self.strip_subdir_prefix(former) {
                            Ok(rest) => PreviewAction::Rename {
                                old_path: rest,
                                new_path: relative.clone(),
                            },
                            Err(e) => {
                                assert(!previewable(
                                    file_changes@[i as int],
                                    self.config().subdir@,
                                ));
                                return Err(e);
                            },
                        }
                    },
                };
                let item = PreviewItem {
                    action,
                    source_path: join_path(
                        self.config.source_repo.as_str(),
                        change.path.as_str(),
                    ),
                    target_path: join_path(self.config.target_repo.as_str(), relative.as_str()),
                };
                items.push(item);
                proof {
                    assert(previews(item, file_changes@[i as int], self.config().subdir@));
                    assert(picked_indices(selected_files@, i + 1) == picked_before.push(i as int));
                }
            }
            i += 1;
            proof {
                let picked = picked_indices(selected_files@, i as int);
                assert forall|k: int| 0 <= k < items@.len() implies previews(
                    #[trigger] items@[k],
                    file_changes@[picked[k]],
                    self.config().subdir@,
                ) by {
                    if k < before.len() {
                        assert(items@[k] == before[k]);
                        assert(picked[k] == picked_before[k]);
                    }
                }
            }
        }
        Ok(items)
    }
}

/// The places below `upto` whose selection flag is set, in rising order.
pub open spec fn picked_indices(selected: Seq<bool>, upto: int) -> Seq<int>
    decreases upto,
{
    if upto <= 0 {
        Seq::empty()
    } else if upto - 1 < selected.len() && selected[upto - 1] {
        picked_indices(selected, upto - 1).push(upto - 1)
    } else {
        picked_indices(selected, upto - 1)
    }
}

/// The former path of `change`: where it was, or where it is if that is not
/// known.
pub open spec fn former_path(change: FileChange) -> Seq<char> {
    match change.old_path {
        Some(old) => old@,
        None => change.path@,
    }
}

/// `change` can be previewed: its path lies under `subdir`, and so does its
/// former path where it was renamed.
pub open spec fn previewable(change: FileChange, subdir: Seq<char>) -> bool {
    &&& relative_to(change.path@, subdir) is Some
    &&& change.status == FileStatus::Renamed ==> relative_to(former_path(change), subdir) is Some
}

/// `item` is the line of the preview for `change`: it names what is done,
/// and for a rename from where to where below the target.
pub open spec fn previews(item: PreviewItem, change: FileChange, subdir: Seq<char>) -> bool {
    &&& previewable(change, subdir)
    &&& match change.status {
        FileStatus::Added => item.action is Add,
        FileStatus::Modified | FileStatus::TypeChanged => item.action is Modify,
        FileStatus::Deleted => item.action is Delete,
        FileStatus::Renamed => (item.action matches PreviewAction::Rename { old_path, new_path }
            && old_path@ == relative_to(former_path(change), subdir)->0 && new_path@
            == relative_to(change.path@, subdir)->0),
    }
}

} // verus!
