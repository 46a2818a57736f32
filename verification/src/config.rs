//! What a run was asked to do, and the checks made before it starts.

use crate::error::SyncError;
use vstd::prelude::*;

verus! {

/// The settings of one run. A switch that was not given is `None` and takes
/// its default where it is read.
#[derive(Debug, Clone)]
pub struct Config {
    pub source_repo: String,
    pub subdir: String,
    pub target_repo: String,
    pub start_commit: String,
    pub source_branch: Option<String>,
    pub target_branch: Option<String>,
    pub end_commit: Option<String>,
    pub create_branch: Option<bool>,
    pub include_start: Option<bool>,
    pub no_merge: Option<bool>,
    pub sync_delete: Option<bool>,
    pub auto_stash: Option<bool>,
    pub dry_run: bool,
    pub verbose: bool,
}

/// What the file system says about the paths of a `Config`.
#[derive(Debug, Clone)]
pub struct PathProbe {
    pub source_exists: bool,
    /// The source path holds a `.git` entry.
    pub source_has_git: bool,
    pub target_exists: bool,
    /// The target path holds a `.git` entry.
    pub target_has_git: bool,
    /// The subdirectory, joined onto the source path.
    pub subdir_path: String,
    pub subdir_exists: bool,
}

/// The value of a switch that comes as a pair of flags: set, unset, or not
/// given. Where both flags are given, the setting one wins.
pub open spec fn switch_of(on: bool, off: bool) -> Option<bool> {
    if on {
        Some(true)
    } else if off {
        Some(false)
    } else {
        None
    }
}

/// The value of a switch that comes as a pair of flags.
pub fn flag_pair(on: bool, off: bool) -> (switch: Option<bool>)
    ensures
        switch == switch_of(on, off),
{
    if on {
        Some(true)
    } else if off {
        Some(false)
    } else {
        None
    }
}

/// The value of a switch that can only be set.
pub fn flag_set(on: bool) -> (switch: Option<bool>)
    ensures
        switch == switch_of(on, false),
{
    if on {
        Some(true)
    } else {
        None
    }
}

impl Config {
    /// The branch of the target repository that the run works on: the one
    /// asked for, else the source branch, else `main`.
    pub open spec fn default_target_branch(self) -> Seq<char> {
        match self.target_branch {
            Some(name) => name@,
            None => match self.source_branch {
                Some(name) => name@,
                None => "main"@,
            },
        }
    }

    /// The reference at which the walk starts downwards: the one asked for,
    /// else `HEAD`.
    pub open spec fn end_reference_text(self) -> Seq<char> {
        match self.end_commit {
            Some(reference) => reference@,
            None => "HEAD"@,
        }
    }

    /// The branch of the target repository that the run works on.
    pub fn get_default_target_branch(&self) -> (name: String)
        ensures
            name@ == self.default_target_branch(),
    {
        match &self.target_branch {
            Some(name) => name.clone(),
            None => match &self.source_branch {
                Some(name) => name.clone(),
                None => String::from_str("main"),
            },
        }
    }

    /// The reference at which the walk starts downwards.
    pub fn end_reference(&self) -> (reference: String)
        ensures
            reference@ == self.end_reference_text(),
    {
        match &self.end_commit {
            Some(reference) => reference.clone(),
            None => String::from_str("HEAD"),
        }
    }

    /// Whether the start commit's own changes are replayed; yes by default.
    pub fn includes_start(&self) -> (yes: bool)
        ensures
            yes == (self.include_start != Some(false)),
    {
        match self.include_start {
            Some(value) => value,
            None => true,
        }
    }

    /// Whether only first parents are followed; yes by default.
    pub fn first_parent_only(&self) -> (yes: bool)
        ensures
            yes == (self.no_merge != Some(false)),
    {
        match self.no_merge {
            Some(value) => value,
            None => true,
        }
    }

    /// Whether a missing target branch is created; yes by default.
    pub fn creates_branch(&self) -> (yes: bool)
        ensures
            yes == (self.create_branch != Some(false)),
    {
        match self.create_branch {
            Some(value) => value,
            None => true,
        }
    }

    /// Whether uncommitted changes of the target are stashed; yes by
    /// default.
    pub fn stashes(&self) -> (yes: bool)
        ensures
            yes == (self.auto_stash != Some(false)),
    {
        match self.auto_stash {
            Some(value) => value,
            None => true,
        }
    }
}

/// The first complaint about the paths of `config`, if there is one.
pub open spec fn path_complaint(config: Config, probe: PathProbe) -> Option<SyncError> {
    if !probe.source_exists {
        Some(SyncError::PathNotFound(config.source_repo))
    } else if !probe.source_has_git {
        Some(SyncError::NotARepository(config.source_repo))
    } else if !probe.target_exists {
        Some(SyncError::PathNotFound(config.target_repo))
    } else if !probe.target_has_git {
        Some(SyncError::NotARepository(config.target_repo))
    } else if !probe.subdir_exists {
        Some(SyncError::PathNotFound(probe.subdir_path))
    } else {
        None
    }
}

/// Checks the paths of `config` against what the file system said: both
/// repositories must exist and hold a `.git` entry, and the subdirectory
/// must exist in the source. The source is looked at first.
pub fn validate_config(config: &Config, probe: &PathProbe) -> (checked: Result<(), SyncError>)
    ensures
        match path_complaint(*config, *probe) {
            Some(e) => checked == Err::<(), SyncError>(e),
            None => checked is Ok,
        },
{
    if !probe.source_exists {
        return Err(SyncError::PathNotFound(config.source_repo.clone()));
    }
    if !probe.source_has_git {
        return Err(SyncError::NotARepository(config.source_repo.clone()));
    }
    if !probe.target_exists {
        return Err(SyncError::PathNotFound(config.target_repo.clone()));
    }
    if !probe.target_has_git {
        return Err(SyncError::NotARepository(config.target_repo.clone()));
    }
    if !probe.subdir_exists {
        return Err(SyncError::PathNotFound(probe.subdir_path.clone()));
    }
    Ok(())
}

} // verus!
