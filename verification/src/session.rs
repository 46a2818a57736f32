//! A run's hold on the two repositories: every change of branch or stash
//! goes through here and leaves a guard behind in the same step, and the end
//! of the run releases the guards, newest first.

use crate::backend::local_stamp;
use crate::config::Config;
use crate::error::SyncError;
use crate::git::GitManager;
use crate::guard::{BranchGuard, Guard, Release, StashGuard};
use crate::text::join;
use vstd::prelude::*;

verus! {

/// What was seen of the repositories before anything is changed.
#[derive(Debug, Clone, Copy, PartialEq, Eq, Structural)]
pub struct Observed {
    /// The source has the branch asked for. Not read where none is asked
    /// for.
    pub source_branch_exists: bool,
    /// The target has the branch that the run works on.
    pub target_branch_exists: bool,
    /// The target has uncommitted changes.
    pub target_dirty: bool,
}

/// Why a run cannot start.
#[derive(Debug, Clone, Copy, PartialEq, Eq, Structural)]
pub enum Refusal {
    /// The source lacks the branch asked for.
    SourceBranchMissing,
    /// The target lacks the branch to work on, and it may not be made.
    TargetBranchMissing,
    /// The target has uncommitted changes, and they may not be stashed.
    TargetDirty,
}

/// What is done to the repositories before the replay.
#[derive(Debug, Clone, PartialEq, Eq)]
pub struct Preparation {
    /// The source branch to switch to, if one was asked for.
    pub source_branch: Option<String>,
    /// The target branch to work on.
    pub target_branch: String,
    /// The target branch is made, not only switched to.
    pub create_target: bool,
    /// The target's uncommitted changes are stashed.
    pub stash_target: bool,
    /// Changes that show in the target only once its branch is switched may
    /// be stashed too.
    pub may_stash: bool,
}

/// Why the run cannot start, if it cannot. The source branch is looked at
/// first, then the target branch, then the target's changes.
pub open spec fn refusal(config: Config, seen: Observed) -> Option<Refusal> {
    if config.source_branch is Some && !seen.source_branch_exists {
        Some(Refusal::SourceBranchMissing)
    } else if !seen.target_branch_exists && config.create_branch == Some(false) {
        Some(Refusal::TargetBranchMissing)
    } else if seen.target_dirty && config.auto_stash == Some(false) {
        Some(Refusal::TargetDirty)
    } else {
        None
    }
}

/// `e` is the error that says `why`.
pub open spec fn says_refusal(e: SyncError, why: Refusal, config: Config) -> bool {
    match why {
        Refusal::SourceBranchMissing => config.source_branch is Some && (
        e matches SyncError::BranchNotFound(b) && b@ == config.source_branch->0@),
        Refusal::TargetBranchMissing => (e matches SyncError::BranchNotFound(b) && b@
            == config.default_target_branch()),
        Refusal::TargetDirty => (e matches SyncError::DirtyRepository(p) && p@
            == config.target_repo@),
    }
}

/// `plan` is what `config` asks for, given what was seen.
pub open spec fn prepares(plan: Preparation, config: Config, seen: Observed) -> bool {
    &&& match config.source_branch {
        Some(name) => plan.source_branch is Some && plan.source_branch->0@ == name@,
        None => plan.source_branch is None,
    }
    &&& plan.target_branch@ == config.default_target_branch()
    &&& plan.create_target == !seen.target_branch_exists
    &&& plan.stash_target == seen.target_dirty
    &&& plan.may_stash == (config.auto_stash != Some(false))
}

/// Decides, before anything is changed, whether the run can start and what
/// is to be done first.
pub fn plan_preparation(config: &Config, seen: Observed) -> (plan: Result<Preparation, SyncError>)
    ensures
        match refusal(*config, seen) {
            Some(why) => plan is Err && says_refusal(plan->Err_0, why, *config),
            None => plan is Ok && prepares(plan->Ok_0, *config, seen),
        },
{
    let source_branch = match &config.source_branch {
        Some(name) => {
            if !seen.source_branch_exists {
                return Err(SyncError::BranchNotFound(name.clone()));
            }
            Some(name.clone())
        },
        None => None,
    };
    let target_branch = config.get_default_target_branch();
    if !seen.target_branch_exists && !config.creates_branch() {
        return Err(SyncError::BranchNotFound(target_branch));
    }
    if seen.target_dirty && !config.stashes() {
        return Err(SyncError::DirtyRepository(config.target_repo.clone()));
    }
    Ok(
        Preparation {
            source_branch,
            target_branch,
            create_target: !seen.target_branch_exists,
            stash_target: seen.target_dirty,
            may_stash: config.stashes(),
        },
    )
}

/// The message of the stash entry made at the time `stamp`.
pub fn stash_message(stamp: &str) -> (message: String)
    ensures
        message@ == "sync-subdir auto stash "@ + stamp@,
{
    join("sync-subdir auto stash ", stamp)
}

/// `guard` is active and belongs to a repository of `manager`, to whose
/// first branch it leads back.
pub open spec fn guard_fits(manager: GitManager, guard: Guard) -> bool {
    match guard {
        Guard::Branch(g) => {
            &&& g.is_active()
            &&& g.repo_path()@ == manager.repo(g.is_source()).path@
            &&& g.original_branch()@ == manager.repo(g.is_source()).original_branch@
        },
        Guard::Stash(g) => g.is_active() && g.repo_path()@ == manager.repo(g.is_source()).path@,
    }
}

/// Every guard fits.
pub open spec fn guards_fit(manager: GitManager, guards: Seq<Guard>) -> bool {
    forall|i: int| 0 <= i < guards.len() ==> guard_fits(manager, #[trigger] guards[i])
}

/// Some guard takes a branch switch of the addressed repository back.
pub open spec fn branch_guarded(guards: Seq<Guard>, is_source: bool) -> bool {
    exists|i: int|
        0 <= i < guards.len() && (#[trigger] guards[i]) is Branch && guards[i].is_source()
            == is_source
}

/// How many guards take a stash of the addressed repository back.
pub open spec fn stash_guards(guards: Seq<Guard>, is_source: bool) -> nat
    decreases guards.len(),
{
    if guards.len() == 0 {
        0
    } else {
        let counted: nat = if guards.last() is Stash && guards.last().is_source() == is_source {
            1
        } else {
            0
        };
        stash_guards(guards.drop_last(), is_source) + counted
    }
}

/// What became of releasing one guard.
#[derive(Debug, Clone, PartialEq, Eq)]
pub struct Released {
    /// The guard was for the source repository.
    pub is_source: bool,
    /// The guard popped a stash; else it led back to a branch.
    pub stash: bool,
    /// Why the change could not be taken back, if it could not.
    pub failure: Option<String>,
}

/// `entry` reports the release of `guard`.
pub open spec fn reports(guard: Guard, entry: Released) -> bool {
    entry.is_source == guard.is_source() && entry.stash == (guard is Stash)
}

/// Every release took its change back.
pub open spec fn all_reverted(report: Seq<Released>) -> bool {
    forall|k: int| 0 <= k < report.len() ==> (#[trigger] report[k]).failure is None
}

/// The two repositories of a run and the guards for what the run did to
/// them, oldest first.
pub struct Session {
    manager: GitManager,
    guards: Vec<Guard>,
    source_stashes: usize,
    target_stashes: usize,
}

impl Session {
    /// The repositories as the run knows them.
    pub closed spec fn manager(self) -> GitManager {
        self.manager
    }

    /// The guards not yet released, oldest first.
    pub closed spec fn guards(self) -> Seq<Guard> {
        self.guards@
    }

    /// How many stash entries the run made in the addressed repository and
    /// has not popped.
    pub closed spec fn stash_entries(self, is_source: bool) -> nat {
        if is_source {
            self.source_stashes as nat
        } else {
            self.target_stashes as nat
        }
    }

    /// Every change is guarded: a repository that is off its first branch
    /// has a guard that leads back, and every stash entry of the run has a
    /// guard that pops it.
    pub open spec fn covered(self) -> bool {
        &&& !self.manager().source_repo_info.restored() ==> branch_guarded(self.guards(), true)
        &&& !self.manager().target_repo_info.restored() ==> branch_guarded(self.guards(), false)
        &&& self.stash_entries(true) == stash_guards(self.guards(), true)
        &&& self.stash_entries(false) == stash_guards(self.guards(), false)
    }

    /// The guards fit the repositories and cover every change.
    pub open spec fn wf(self) -> bool {
        guards_fit(self.manager(), self.guards()) && self.covered()
    }

    /// Both repositories are on the branch on which the run found them, and
    /// no stash entry of the run is left.
    pub open spec fn restored(self) -> bool {
        &&& self.manager().source_repo_info.restored()
        &&& self.manager().target_repo_info.restored()
        &&& self.stash_entries(true) == 0
        &&& self.stash_entries(false) == 0
    }

    /// `after` is `self` made ready: the target is on `target_branch` with
    /// a guard that leads back; the source is on `source_branch` with such
    /// a guard where one is given, and as it was where none is; the source
    /// has no new stash entry and the target one at most.
    pub open spec fn made_ready(
        self,
        after: Session,
        source_branch: Option<Seq<char>>,
        target_branch: Seq<char>,
    ) -> bool {
        &&& after.manager().target_repo_info.current_branch@ == target_branch
        &&& branch_guarded(after.guards(), false)
        &&& match source_branch {
            Some(b) => after.manager().source_repo_info.current_branch@ == b && branch_guarded(
                after.guards(),
                true,
            ),
            None => after.manager().source_repo_info == self.manager().source_repo_info,
        }
        &&& after.stash_entries(true) == self.stash_entries(true)
        &&& self.stash_entries(false) <= after.stash_entries(false) <= self.stash_entries(false)
            + 1
    }

    /// The same repositories, at the same paths, found on the same branches.
    pub open spec fn same_repositories(self, other: Session) -> bool {
        &&& other.manager().source_repo_info.path@ == self.manager().source_repo_info.path@
        &&& other.manager().target_repo_info.path@ == self.manager().target_repo_info.path@
        &&& other.manager().source_repo_info.original_branch@
            == self.manager().source_repo_info.original_branch@
        &&& other.manager().target_repo_info.original_branch@
            == self.manager().target_repo_info.original_branch@
    }

    /// Opens both repositories for a run. Nothing is changed yet and no
    /// guard is held.
    pub fn open(source_path: &str, target_path: &str) -> (session: Result<Session, SyncError>)
        ensures
            match session {
                Ok(s) => {
                    &&& s.wf()
                    &&& s.restored()
                    &&& s.guards().len() == 0
                    &&& s.manager().source_repo_info.path@ == source_path@
                    &&& s.manager().target_repo_info.path@ == target_path@
                },
                Err(e) => e is Git || (e matches SyncError::NotARepository(p) && (p@
                    == source_path@ || p@ == target_path@)),
            },
    {
        match GitManager::new(source_path, target_path) {
            Ok(manager) => Ok(
                Session { manager, guards: Vec::new(), source_stashes: 0, target_stashes: 0 },
            ),
            Err(e) => Err(e),
        }
    }

    /// The repositories as the run knows them.
    pub fn git_manager(&self) -> (manager: &GitManager)
        ensures
            *manager == self.manager(),
    {
        &self.manager
    }

    /// How many guards are held.
    pub fn guard_count(&self) -> (count: usize)
        ensures
            count == self.guards().len(),
    {
        self.guards.len()
    }

    /// How many stash entries the run made in the addressed repository and
    /// has not popped.
    pub fn outstanding_stashes(&self, is_source: bool) -> (count: usize)
        ensures
            count == self.stash_entries(is_source),
    {
        if is_source {
            self.source_stashes
        } else {
            self.target_stashes
        }
    }

    /// A guard that leads the addressed repository back to its first branch.
    fn branch_guard(&self, is_source: bool) -> (guard: Guard)
        ensures
            guard is Branch,
            guard.is_source() == is_source,
            guard_fits(self.manager(), guard),
    {
        let info = if is_source {
            &self.manager.source_repo_info
        } else {
            &self.manager.target_repo_info
        };
        Guard::Branch(BranchGuard::new(info.path.clone(), is_source, info.original_branch.clone()))
    }

    /// Takes the guard in, after a branch switch of the addressed
    /// repository.
    fn hold_branch_guard(&mut self, is_source: bool, before: Ghost<Session>)
        requires
            before@.wf(),
            old(self).guards() == before@.guards(),
            old(self).stash_entries(true) == before@.stash_entries(true),
            old(self).stash_entries(false) == before@.stash_entries(false),
            exists|branch: Seq<char>|
                before@.manager().on_branch(old(self).manager(), is_source, branch),
        ensures
            final(self).wf(),
            final(self).manager() == old(self).manager(),
            final(self).guards().len() == old(self).guards().len() + 1,
            final(self).guards().drop_last() == old(self).guards(),
            final(self).guards().last() is Branch,
            final(self).guards().last().is_source() == is_source,
            final(self).stash_entries(true) == old(self).stash_entries(true),
            final(self).stash_entries(false) == old(self).stash_entries(false),
    {
        let guard = self.branch_guard(is_source);
        let ghost held = self.guards@;
        self.guards.push(guard);
        proof {
            let now = self.guards@;
            assert(now.drop_last() =~= held);
            assert(now[now.len() - 1] == guard);
            assert forall|i: int| 0 <= i < now.len() implies guard_fits(
                self.manager,
                #[trigger] now[i],
            ) by {
                if i < held.len() {
                    assert(guard_fits(before@.manager(), held[i]));
                }
            }
            assert(branch_guarded(now, is_source));
            if branch_guarded(held, !is_source) {
                let i = choose|i: int|
                    0 <= i < held.len() && (#[trigger] held[i]) is Branch && held[i].is_source()
                        == !is_source;
                assert(now[i] == held[i]);
            }
        }
    }

    /// Points HEAD of the addressed repository at the local branch
    /// `branch_name`, and holds a guard that leads back from then on.
    ///
    /// On an error nothing is changed and no guard is taken in.
    pub fn switch_branch(&mut self, is_source: bool, branch_name: &str) -> (switched: Result<
        (),
        SyncError,
    >)
        requires
            old(self).wf(),
        ensures
            final(self).wf(),
            match switched {
                Ok(()) => {
                    &&& old(self).manager().on_branch(final(self).manager(), is_source, branch_name@)
                    &&& final(self).guards().drop_last() == old(self).guards()
                    &&& final(self).guards().len() == old(self).guards().len() + 1
                    &&& final(self).guards().last() is Branch
                    &&& final(self).guards().last().is_source() == is_source
                    &&& final(self).stash_entries(true) == old(self).stash_entries(true)
                    &&& final(self).stash_entries(false) == old(self).stash_entries(false)
                },
                Err(e) => {
                    &&& *final(self) == *old(self)
                    &&& e is Git || (e matches SyncError::BranchNotFound(b) && b@ == branch_name@)
                },
            },
    {
        let ghost before = *self;
        match self.manager.switch_branch(is_source, branch_name) {
            Ok(()) => {
                assert(before.manager().on_branch(self.manager(), is_source, branch_name@));
                self.hold_branch_guard(is_source, Ghost(before));
                Ok(())
            },
            Err(e) => Err(e),
        }
    }

    /// Makes the local branch `branch_name` in the addressed repository,
    /// points HEAD at it, and holds a guard that leads back from then on.
    ///
    /// On an error no guard is taken in.
    pub fn create_branch(&mut self, is_source: bool, branch_name: &str) -> (created: Result<
        (),
        SyncError,
    >)
        requires
            old(self).wf(),
        ensures
            final(self).wf(),
            match created {
                Ok(()) => {
                    &&& old(self).manager().on_branch(final(self).manager(), is_source, branch_name@)
                    &&& final(self).guards().drop_last() == old(self).guards()
                    &&& final(self).guards().len() == old(self).guards().len() + 1
                    &&& final(self).guards().last() is Branch
                    &&& final(self).guards().last().is_source() == is_source
                    &&& final(self).stash_entries(true) == old(self).stash_entries(true)
                    &&& final(self).stash_entries(false) == old(self).stash_entries(false)
                },
                Err(e) => *final(self) == *old(self) && e is Git,
            },
    {
        let ghost before = *self;
        match self.manager.create_branch(is_source, branch_name) {
            Ok(()) => {
                assert(before.manager().on_branch(self.manager(), is_source, branch_name@));
                self.hold_branch_guard(is_source, Ghost(before));
                Ok(())
            },
            Err(e) => Err(e),
        }
    }

    /// Puts the uncommitted changes of the addressed repository away and,
    /// where that made a stash entry, holds a guard that pops it. Says
    /// whether an entry was made; nothing to stash is a success without
    /// one.
    pub fn stash(&mut self, is_source: bool, message: &str) -> (stashed: Result<bool, SyncError>)
        requires
            old(self).wf(),
        ensures
            final(self).wf(),
            final(self).manager() == old(self).manager(),
            match stashed {
                Ok(true) => {
                    &&& final(self).guards().drop_last() == old(self).guards()
                    &&& final(self).guards().len() == old(self).guards().len() + 1
                    &&& final(self).guards().last() is Stash
                    &&& final(self).guards().last().is_source() == is_source
                    &&& final(self).stash_entries(is_source) == old(self).stash_entries(is_source)
                        + 1
                    &&& final(self).stash_entries(!is_source) == old(self).stash_entries(
                        !is_source,
                    )
                },
                Ok(false) => *final(self) == *old(self),
                Err(e) => *final(self) == *old(self) && e is Git,
            },
    {
        match self.manager.stash_if_needed(is_source, message) {
            Ok(true) => {},
            Ok(false) => {
                return Ok(false);
            },
            Err(e) => {
                return Err(e);
            },
        }
        let path = if is_source {
            self.manager.source_repo_info.path.clone()
        } else {
            self.manager.target_repo_info.path.clone()
        };
        let guard = Guard::Stash(StashGuard::new(path, is_source));
        let ghost held = self.guards@;
        self.guards.push(guard);
        proof {
            let now = self.guards@;
            assert(now.drop_last() =~= held);
            assert(now[now.len() - 1] == guard);
            lemma_stash_guards_bounded(now, is_source);
            assert(now.len() == self.guards.len());
            assert(self.stash_entries(is_source) == stash_guards(held, is_source));
            assert(stash_guards(now, is_source) == stash_guards(held, is_source) + 1);
            assert(self.stash_entries(is_source) < usize::MAX);
            assert(stash_guards(now, !is_source) == stash_guards(held, !is_source));
            assert forall|i: int| 0 <= i < now.len() implies guard_fits(
                self.manager,
                #[trigger] now[i],
            ) by {
                if i < held.len() {
                    assert(guard_fits(self.manager, held[i]));
                }
            }
            if branch_guarded(held, true) {
                let i = choose|i: int|
                    0 <= i < held.len() && (#[trigger] held[i]) is Branch && held[i].is_source()
                        == true;
                assert(now[i] == held[i]);
            }
            if branch_guarded(held, false) {
                let i = choose|i: int|
                    0 <= i < held.len() && (#[trigger] held[i]) is Branch && held[i].is_source()
                        == false;
                assert(now[i] == held[i]);
            }
        }
        if is_source {
            self.source_stashes = self.source_stashes + 1;
        } else {
            self.target_stashes = self.target_stashes + 1;
        }
        Ok(true)
    }

    /// Releases every guard, the newest first, and reports each release in
    /// the order in which it was made. Where a replay is still pending in a
    /// repository, `apply_pending` says so.
    ///
    /// No guard is held afterwards. A release that fails is reported with
    /// its words and stops nothing. Where none failed, both repositories are
    /// back on the branch on which the run found them and no stash entry of
    /// the run is left.
    pub fn release_all(&mut self, apply_pending: bool) -> (report: Vec<Released>)
        requires
            old(self).wf(),
        ensures
            final(self).guards().len() == 0,
            old(self).same_repositories(*final(self)),
            report@.len() == old(self).guards().len(),
            forall|k: int|
                0 <= k < report@.len() ==> reports(
                    old(self).guards()[old(self).guards().len() - 1 - k],
                    #[trigger] report@[k],
                ),
            all_reverted(report@) ==> final(self).restored() && final(self).wf(),
            old(self).guards().len() == 0 ==> *final(self) == *old(self),
    {
        let ghost before = *self;
        let ghost all = self.guards@;
        let mut report: Vec<Released> = Vec::new();
        while self.guards.len() > 0
            invariant
                guards_fit(self.manager, self.guards@),
                before.same_repositories(*self),
                all == before.guards(),
                report@.len() + self.guards@.len() == all.len(),
                self.guards@ == all.take(self.guards@.len() as int),
                forall|k: int|
                    0 <= k < report@.len() ==> reports(
                        all[all.len() - 1 - k],
                        #[trigger] report@[k],
                    ),
                all_reverted(report@) ==> self.covered(),
                all.len() == 0 ==> *self == before,
            decreases self.guards@.len(),
        {
            let ghost held = self.guards@;
            let ghost manager_before = self.manager;
            let ghost reported = report@;
            let guard = self.guards.pop().unwrap();
            assert(guard_fits(manager_before, held[held.len() - 1]));
            assert(self.guards@ =~= held.drop_last());
            assert(self.guards@ =~= all.take(self.guards@.len() as int));
            assert(guard == all[all.len() - 1 - reported.len()]);
            match guard {
                Guard::Branch(mut branch) => {
                    let for_source = branch.for_source();
                    let failure = match branch.release() {
                        Release::Reverted => {
                            let name = branch.branch().clone();
                            if for_source {
                                self.manager.source_repo_info.current_branch = name;
                            } else {
                                self.manager.target_repo_info.current_branch = name;
                            }
                            None
                        },
                        Release::Failed(words) => Some(words),
                        Release::Nothing => None,
                    };
                    report.push(Released { is_source: for_source, stash: false, failure });
                    proof {
                        assert(report@[reported.len() as int].failure == failure);
                        if all_reverted(report@) {
                            assert forall|k: int| 0 <= k < reported.len() implies (
                            #[trigger] reported[k]).failure is None by {
                                assert(report@[k] == reported[k]);
                            }
                            if branch_guarded(held, !for_source) {
                                let i = choose|i: int|
                                    0 <= i < held.len() && (#[trigger] held[i]) is Branch
                                        && held[i].is_source() == !for_source;
                                assert(self.guards@[i] == held[i]);
                            }
                        }
                    }
                },
                Guard::Stash(mut stash) => {
                    let for_source = stash.for_source();
                    let failure = match stash.release(apply_pending) {
                        Release::Reverted => {
                            if for_source {
                                if self.source_stashes > 0 {
                                    self.source_stashes = self.source_stashes - 1;
                                }
                            } else {
                                if self.target_stashes > 0 {
                                    self.target_stashes = self.target_stashes - 1;
                                }
                            }
                            None
                        },
                        Release::Failed(words) => Some(words),
                        Release::Nothing => None,
                    };
                    report.push(Released { is_source: for_source, stash: true, failure });
                    proof {
                        assert(report@[reported.len() as int].failure == failure);
                        if all_reverted(report@) {
                            assert forall|k: int| 0 <= k < reported.len() implies (
                            #[trigger] reported[k]).failure is None by {
                                assert(report@[k] == reported[k]);
                            }
                            if branch_guarded(held, true) {
                                let i = choose|i: int|
                                    0 <= i < held.len() && (#[trigger] held[i]) is Branch
                                        && held[i].is_source() == true;
                                assert(self.guards@[i] == held[i]);
                            }
                            if branch_guarded(held, false) {
                                let i = choose|i: int|
                                    0 <= i < held.len() && (#[trigger] held[i]) is Branch
                                        && held[i].is_source() == false;
                                assert(self.guards@[i] == held[i]);
                            }
                        }
                    }
                },
            }
            proof {
                assert forall|i: int| 0 <= i < self.guards@.len() implies guard_fits(
                    self.manager,
                    #[trigger] self.guards@[i],
                ) by {
                    assert(guard_fits(manager_before, held[i]));
                }
                assert forall|k: int| 0 <= k < report@.len() implies reports(
                    all[all.len() - 1 - k],
                    #[trigger] report@[k],
                ) by {
                    if k < reported.len() {
                        assert(report@[k] == reported[k]);
                    }
                }
            }
        }
        report
    }

    /// Looks at the repositories for `config` without changing anything:
    /// are the references commits, are the branches there, has the target
    /// uncommitted changes. A reference that names no commit gives
    /// `InvalidCommit` with that reference, the start looked at first. Where
    /// no source branch is asked for, none is looked for, and none is
    /// missed.
    pub fn observe(&self, config: &Config) -> (seen: Result<Observed, SyncError>)
        ensures
            seen matches Err(e) ==> e is Git || (e matches SyncError::InvalidCommit(r) && (r@
                == config.start_commit@ || (config.end_commit is Some && r@
                == config.end_commit->0@))),
            seen matches Ok(o) ==> (config.source_branch is None ==> o.source_branch_exists),
    {
        match self.manager.validate_commit(true, config.start_commit.as_str()) {
            Ok(()) => {},
            Err(e) => {
                return Err(e);
            },
        }
        match &config.end_commit {
            Some(end) => match self.manager.validate_commit(true, end.as_str()) {
                Ok(()) => {},
                Err(e) => {
                    return Err(e);
                },
            },
            None => {},
        }
        let source_branch_exists = match &config.source_branch {
            Some(name) => match self.manager.branch_exists(true, name.as_str()) {
                Ok(exists) => exists,
                Err(e) => {
                    return Err(e);
                },
            },
            None => true,
        };
        let target_branch = config.get_default_target_branch();
        let target_branch_exists = match self.manager.branch_exists(false, target_branch.as_str()) {
            Ok(exists) => exists,
            Err(e) => {
                return Err(e);
            },
        };
        let target_dirty = match self.manager.has_uncommitted_changes(false) {
            Ok(dirty) => dirty,
            Err(e) => {
                return Err(e);
            },
        };
        Ok(Observed { source_branch_exists, target_branch_exists, target_dirty })
    }

    /// Makes the repositories ready for the replay that `config` asks for.
    ///
    /// First the repositories are looked at and the steps are planned;
    /// nothing is changed until that is done, so a reference that names no
    /// commit, a missing branch, and uncommitted changes in the target that
    /// may not be stashed end the preparation with the session as it was.
    /// Then the plan is carried out, each change with its guard. Where one
    /// of its steps fails, every guard is released before the error is
    /// handed back.
    ///
    /// The second part of the result reports the releases made after a
    /// failed step, for the log.
    pub fn prepare(&mut self, config: &Config) -> (prepared: (Result<(), SyncError>, Vec<Released>))
        requires
            old(self).wf(),
        ensures
            old(self).same_repositories(*final(self)),
            match prepared.0 {
                Ok(()) => {
                    &&& final(self).wf()
                    &&& prepared.1@.len() == 0
                    &&& old(self).made_ready(
                        *final(self),
                        match config.source_branch {
                            Some(b) => Some(b@),
                            None => None,
                        },
                        config.default_target_branch(),
                    )
                },
                Err(e) => {
                    &&& e is InvalidCommit ==> *final(self) == *old(self)
                    &&& *final(self) == *old(self) || final(self).guards().len() == 0
                    &&& e is Git || e is InvalidCommit || e is BranchNotFound
                        || e is DirtyRepository
                },
            },
    {
        let seen = match self.observe(config) {
            Ok(seen) => seen,
            Err(e) => {
                return (Err(e), Vec::new());
            },
        };
        let plan = match plan_preparation(config, seen) {
            Ok(plan) => plan,
            Err(e) => {
                return (Err(e), Vec::new());
            },
        };
        match self.carry_out(&plan) {
            Ok(()) => (Ok(()), Vec::new()),
            Err(e) => {
                let report = self.release_all(false);
                (Err(e), report)
            },
        }
    }

    /// Carries out what was planned, each change with its guard, and stops
    /// at the first step that fails: the source is switched to its branch
    /// where one is asked for, the target's branch is made or switched to,
    /// and the target's uncommitted changes are stashed.
    ///
    /// Pointing HEAD at another branch leaves the working tree as it is, so
    /// a target that was clean may show changes once its branch is switched.
    /// Those are stashed as well where the plan lets them be, and give
    /// `DirtyRepository` where it does not.
    pub fn carry_out(&mut self, plan: &Preparation) -> (done: Result<(), SyncError>)
        requires
            old(self).wf(),
        ensures
            final(self).wf(),
            old(self).same_repositories(*final(self)),
            final(self).guards().len() >= old(self).guards().len(),
            done is Ok ==> old(self).made_ready(
                *final(self),
                match plan.source_branch {
                    Some(b) => Some(b@),
                    None => None,
                },
                plan.target_branch@,
            ),
            done matches Err(e) ==> e is Git || e is BranchNotFound || (
            e matches SyncError::DirtyRepository(p) && !plan.may_stash && p@
                == old(self).manager().target_repo_info.path@),
    {
        match &plan.source_branch {
            Some(name) => match self.switch_branch(true, name.as_str()) {
                Ok(()) => {},
                Err(e) => {
                    return Err(e);
                },
            },
            None => {},
        }
        let ghost switched = *self;
        assert(plan.source_branch is Some ==> branch_guarded(switched.guards(), true)) by {
            if plan.source_branch is Some {
                let held = switched.guards();
                assert(held[held.len() - 1] is Branch);
            }
        }
        let target = if plan.create_target {
            self.create_branch(false, plan.target_branch.as_str())
        } else {
            self.switch_branch(false, plan.target_branch.as_str())
        };
        match target {
            Ok(()) => {},
            Err(e) => {
                return Err(e);
            },
        }
        let ghost on_target = *self;
        proof {
            let held = on_target.guards();
            assert(held[held.len() - 1] is Branch);
            lemma_guarded_after_push(switched.guards(), held, true);
        }
        let dirty = if plan.stash_target {
            true
        } else {
            match self.manager.has_uncommitted_changes(false) {
                Ok(dirty) => dirty,
                Err(e) => {
                    return Err(e);
                },
            }
        };
        if dirty {
            if !plan.stash_target && !plan.may_stash {
                return Err(
                    SyncError::DirtyRepository(self.manager.target_repo_info.path.clone()),
                );
            }
            let stamp = local_stamp();
            let message = stash_message(stamp.as_str());
            match self.stash(false, message.as_str()) {
                Ok(made) => {
                    proof {
                        if made {
                            lemma_guarded_after_push(on_target.guards(), self.guards(), true);
                            lemma_guarded_after_push(on_target.guards(), self.guards(), false);
                        }
                    }
                },
                Err(e) => {
                    return Err(e);
                },
            }
        }
        Ok(())
    }
}

/// A guard taken in on top leaves every branch guarded that was.
pub proof fn lemma_guarded_after_push(before: Seq<Guard>, after: Seq<Guard>, is_source: bool)
    requires
        after.len() == before.len() + 1,
        after.drop_last() == before,
    ensures
        branch_guarded(before, is_source) ==> branch_guarded(after, is_source),
{
    if branch_guarded(before, is_source) {
        let i = choose|i: int|
            0 <= i < before.len() && (#[trigger] before[i]) is Branch && before[i].is_source()
                == is_source;
        assert(after.drop_last()[i] == after[i]);
        assert(after[i] is Branch && after[i].is_source() == is_source);
    }
}

/// No more guards take a stash back than there are guards.
pub proof fn lemma_stash_guards_bounded(guards: Seq<Guard>, is_source: bool)
    ensures
        stash_guards(guards, is_source) <= guards.len(),
    decreases guards.len(),
{
    if guards.len() > 0 {
        lemma_stash_guards_bounded(guards.drop_last(), is_source);
    }
}

/// A session that holds no guard has nothing left to take back: both
/// repositories are on the branch on which the run found them, and no stash
/// entry of the run is left.
pub proof fn lemma_no_guard_means_restored(session: Session)
    requires
        session.wf(),
        session.guards().len() == 0,
    ensures
        session.restored(),
{
}

} // verus!
