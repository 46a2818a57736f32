//! Guards: each knows how to take back one change of a repository.
//!
//! A guard is made right after the change it stands for. Releasing it takes
//! the change back and leaves the guard inert; a failure to do so is handed
//! back as words and never as an error, so that it cannot hide the error
//! that ended the run. A guard that was told to keep its change is inert
//! from then on and takes nothing back.

use crate::backend::{cleanup_state, error_text, open_repository, set_head, stash_pop};
use crate::git::{branch_ref, branch_reference};
use vstd::prelude::*;

verus! {

/// What releasing a guard came to.
#[derive(Debug, Clone, PartialEq, Eq)]
pub enum Release {
    /// The guard was inert: nothing was done.
    Nothing,
    /// The change was taken back.
    Reverted,
    /// The change could not be taken back; why.
    Failed(String),
}

/// Takes a branch switch back: points HEAD of a repository at the branch it
/// was on before.
#[derive(Debug)]
pub struct BranchGuard {
    repo_path: String,
    is_source: bool,
    original_branch: String,
    is_active: bool,
}

/// Takes a stash back: pops the newest stash entry of a repository.
#[derive(Debug)]
pub struct StashGuard {
    repo_path: String,
    is_source: bool,
    is_active: bool,
}

/// One step of taking a stash back.
#[derive(Debug, Clone, Copy, PartialEq, Eq, Structural)]
pub enum StashStep {
    /// Clear what a replay that is still pending left behind.
    ClearPendingReplay,
    /// Pop the newest stash entry.
    PopStash,
}

/// The steps of taking a stash back, in their order: none for an inert
/// guard; else the pop, behind the clearing where a replay is pending.
pub open spec fn stash_steps(active: bool, apply_pending: bool) -> Seq<StashStep> {
    if !active {
        Seq::empty()
    } else if apply_pending {
        seq![StashStep::ClearPendingReplay, StashStep::PopStash]
    } else {
        seq![StashStep::PopStash]
    }
}

/// A guard of either kind.
#[derive(Debug)]
pub enum Guard {
    Branch(BranchGuard),
    Stash(StashGuard),
}

impl BranchGuard {
    /// A guard, not yet released, for the repository at `repo_path` that was
    /// on `original_branch`.
    pub fn new(repo_path: String, is_source: bool, original_branch: String) -> (guard: BranchGuard)
        ensures
            guard.repo_path() == repo_path,
            guard.is_source() == is_source,
            guard.original_branch() == original_branch,
            guard.is_active(),
    {
        BranchGuard { repo_path, is_source, original_branch, is_active: true }
    }

    /// The repository that the guard is for.
    pub closed spec fn repo_path(self) -> String {
        self.repo_path
    }

    /// Whether that is the source repository.
    pub closed spec fn is_source(self) -> bool {
        self.is_source
    }

    /// The branch that the guard leads back to.
    pub closed spec fn original_branch(self) -> String {
        self.original_branch
    }

    /// Whether a release would still take the switch back.
    pub closed spec fn is_active(self) -> bool {
        self.is_active
    }

    /// `self`, inert.
    pub open spec fn spent(self, after: BranchGuard) -> bool {
        &&& !after.is_active()
        &&& after.repo_path() == self.repo_path()
        &&& after.is_source() == self.is_source()
        &&& after.original_branch() == self.original_branch()
    }

    /// Whether a release would still take the switch back.
    pub fn active(&self) -> (active: bool)
        ensures
            active == self.is_active(),
    {
        self.is_active
    }

    /// Whether the guard is for the source repository.
    pub fn for_source(&self) -> (source: bool)
        ensures
            source == self.is_source(),
    {
        self.is_source
    }

    /// The branch that the guard leads back to.
    pub fn branch(&self) -> (name: &String)
        ensures
            *name == self.original_branch(),
    {
        &self.original_branch
    }

    /// The full name of the reference that a release points HEAD at, or
    /// `None` where the guard is inert.
    pub fn reversal(&self) -> (refname: Option<String>)
        ensures
            self.is_active() ==> refname is Some && refname->0@ == branch_ref(
                self.original_branch()@,
            ),
            !self.is_active() ==> refname is None,
    {
        if self.is_active {
            Some(branch_reference(self.original_branch.as_str()))
        } else {
            None
        }
    }

    /// Keeps the switch: the guard is inert from now on.
    pub fn commit(&mut self)
        ensures
            old(self).spent(*final(self)),
    {
        self.is_active = false;
    }

    /// Takes the switch back, unless the guard is inert, and leaves the
    /// guard inert. The repository is opened afresh by its path.
    pub fn release(&mut self) -> (release: Release)
        ensures
            old(self).spent(*final(self)),
            !old(self).is_active() <==> release is Nothing,
    {
        let refname = match self.reversal() {
            Some(refname) => refname,
            None => {
                return Release::Nothing;
            },
        };
        self.is_active = false;
        let repo = match open_repository(self.repo_path.as_str()) {
            Ok(repo) => repo,
            Err(e) => {
                return Release::Failed(error_text(&e));
            },
        };
        match set_head(&repo, refname.as_str()) {
            Ok(()) => Release::Reverted,
            Err(e) => Release::Failed(error_text(&e)),
        }
    }
}

impl StashGuard {
    /// A guard, not yet released, for the stash entry just made in the
    /// repository at `repo_path`.
    pub fn new(repo_path: String, is_source: bool) -> (guard: StashGuard)
        ensures
            guard.repo_path() == repo_path,
            guard.is_source() == is_source,
            guard.is_active(),
    {
        StashGuard { repo_path, is_source, is_active: true }
    }

    /// The repository that the guard is for.
    pub closed spec fn repo_path(self) -> String {
        self.repo_path
    }

    /// Whether that is the source repository.
    pub closed spec fn is_source(self) -> bool {
        self.is_source
    }

    /// Whether a release would still pop the stash.
    pub closed spec fn is_active(self) -> bool {
        self.is_active
    }

    /// `self`, inert.
    pub open spec fn spent(self, after: StashGuard) -> bool {
        &&& !after.is_active()
        &&& after.repo_path() == self.repo_path()
        &&& after.is_source() == self.is_source()
    }

    /// Whether a release would still pop the stash.
    pub fn active(&self) -> (active: bool)
        ensures
            active == self.is_active(),
    {
        self.is_active
    }

    /// Whether the guard is for the source repository.
    pub fn for_source(&self) -> (source: bool)
        ensures
            source == self.is_source(),
    {
        self.is_source
    }

    /// Keeps the stash entry: the guard is inert from now on.
    pub fn commit(&mut self)
        ensures
            old(self).spent(*final(self)),
    {
        self.is_active = false;
    }

    /// The steps that a release takes, in their order: none where the guard
    /// is inert; else the pop of the newest stash entry, and before it,
    /// where a replay is still pending in the repository, the clearing of
    /// what that left behind: a repository in the middle of a replay cannot
    /// pop a stash.
    pub fn reversal(&self, apply_pending: bool) -> (steps: Vec<StashStep>)
        ensures
            steps@ == stash_steps(self.is_active(), apply_pending),
    {
        let mut steps: Vec<StashStep> = Vec::new();
        if self.is_active {
            if apply_pending {
                steps.push(StashStep::ClearPendingReplay);
            }
            steps.push(StashStep::PopStash);
        }
        assert(steps@ =~= stash_steps(self.is_active(), apply_pending));
        steps
    }

    /// Takes the steps of `reversal`, one after the other, and leaves the
    /// guard inert. The first step that fails ends the release with its
    /// words. The repository is opened afresh by its path.
    pub fn release(&mut self, apply_pending: bool) -> (release: Release)
        ensures
            old(self).spent(*final(self)),
            !old(self).is_active() <==> release is Nothing,
    {
        let steps = self.reversal(apply_pending);
        if steps.len() == 0 {
            return Release::Nothing;
        }
        self.is_active = false;
        let mut repo = match open_repository(self.repo_path.as_str()) {
            Ok(repo) => repo,
            Err(e) => {
                return Release::Failed(error_text(&e));
            },
        };
        let mut i: usize = 0;
        while i < steps.len()
            invariant
                i <= steps.len(),
                old(self).is_active(),
                old(self).spent(*self),
            decreases steps.len() - i,
        {
            let done = match steps[i] {
                StashStep::ClearPendingReplay => cleanup_state(&repo),
                StashStep::PopStash => stash_pop(&mut repo, 0),
            };
            match done {
                Ok(()) => {},
                Err(e) => {
                    return Release::Failed(error_text(&e));
                },
            }
            i += 1;
        }
        Release::Reverted
    }
}

impl Guard {
    /// Whether the guard is for the source repository.
    pub open spec fn is_source(self) -> bool {
        match self {
            Guard::Branch(g) => g.is_source(),
            Guard::Stash(g) => g.is_source(),
        }
    }

    /// Whether a release would still take the change back.
    pub open spec fn is_active(self) -> bool {
        match self {
            Guard::Branch(g) => g.is_active(),
            Guard::Stash(g) => g.is_active(),
        }
    }
}

} // verus!
