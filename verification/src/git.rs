//! The two repositories of a run: where they are, which branch each is on,
//! and the operations that read or change them.
//!
//! What a repository answers is not known in advance, so the contracts here
//! say what holds of every answer. The rules that turn an answer into a
//! result stand in functions of their own, with exact contracts.

use crate::backend::{
    commit_author_name, commit_id, commit_parent, commit_parent_ids, commit_summary, commit_time,
    commit_tree, create_branch_at, default_signature, diff_paths, diff_trees, error_is_not_found,
    error_text, find_commit, format_utc, new_revwalk, object_commit, open_repository,
    reference_commit, reference_is_branch, reference_shorthand, repository_head, revparse_single,
    revwalk_first_parent_only, revwalk_next, revwalk_oldest_first, revwalk_push_range, set_head,
    signature_now, stash_save, status_entry_count, utc_date_text,
};
use crate::config::Config;
use crate::error::SyncError;
use crate::range::{
    count_touching, distinct_ids, is_unfiltered, lemma_resolved_chronological_and_distinct,
    lower_bound_of, merge_touching, resolve_commits, resolved, time_ordered, touching,
    walk_lower_bound,
    PathChange,
    WalkedCommit,
};
use crate::text::join;
use vstd::prelude::*;

verus! {

/// A commit as it is shown and selected.
#[derive(Debug, Clone, PartialEq, Eq)]
pub struct CommitInfo {
    /// Content hash.
    pub id: String,
    pub subject: String,
    pub author: String,
    /// Commit time in UTC, as year-month-day hour:minute:second.
    pub date: String,
    /// More than one parent.
    pub is_merge: bool,
}

/// One repository of a run.
#[derive(Debug, Clone, PartialEq, Eq)]
pub struct RepoInfo {
    pub path: String,
    /// The branch that HEAD is on; follows every switch.
    pub current_branch: String,
    /// The branch that HEAD was on when the run began.
    pub original_branch: String,
}

/// The source and the target repository of a run.
#[derive(Debug)]
pub struct GitManager {
    pub source_repo_info: RepoInfo,
    pub target_repo_info: RepoInfo,
}

/// The text shown for a commit time: what the calendar prints for it, the
/// epoch where it has no such instant.
pub open spec fn date_text(seconds: i64) -> Seq<char> {
    match utc_date_text(seconds) {
        Some(text) => text,
        None => "1970-01-01 00:00:00"@,
    }
}

/// `info` shows `commit`.
pub open spec fn describes(info: CommitInfo, commit: WalkedCommit) -> bool {
    &&& info.id@ == commit.id@
    &&& info.subject@ == commit.subject@
    &&& info.author@ == commit.author@
    &&& info.date@ == date_text(commit.time)
    &&& info.is_merge == (commit.parents@.len() > 1)
}

/// `list` shows `commits`, entry by entry.
pub open spec fn records_of(commits: Seq<WalkedCommit>, list: Seq<CommitInfo>) -> bool {
    &&& list.len() == commits.len()
    &&& forall|i: int| 0 <= i < list.len() ==> describes(#[trigger] list[i], commits[i])
}

/// `list` shows what `resolved` makes of some start commit and some walk,
/// for `subdir` and `include_start`.
pub open spec fn shows_resolution(
    list: Seq<CommitInfo>,
    subdir: Seq<char>,
    include_start: bool,
) -> bool {
    exists|start: WalkedCommit, walk: Seq<WalkedCommit>|
        records_of(#[trigger] resolved(subdir, start, include_start, walk), list)
}

/// `total` and `merges` count, in some walk, the commits that change
/// something under `subdir` and the merges among them.
pub open spec fn counts_a_walk(total: usize, merges: usize, subdir: Seq<char>) -> bool {
    exists|walk: Seq<WalkedCommit>|
        total == (#[trigger] walk.filter(touching(subdir))).len() && merges == walk.filter(
            merge_touching(subdir),
        ).len()
}

/// No identity occurs twice in `list`.
pub open spec fn distinct_records(list: Seq<CommitInfo>) -> bool {
    forall|i: int, j: int|
        0 <= i < list.len() && 0 <= j < list.len() && i != j ==> list[i].id@ != list[j].id@
}

/// The name under which a HEAD that is on no branch is known.
pub open spec fn detached_name(commit: Seq<char>) -> Seq<char> {
    "detached-"@ + commit
}

/// The full name of the local branch `name`.
pub open spec fn branch_ref(name: Seq<char>) -> Seq<char> {
    "refs/heads/"@ + name
}

/// The range that reaches from `lower`, left out, up to `upper`.
pub open spec fn range_text(lower: Seq<char>, upper: Seq<char>) -> Seq<char> {
    lower + ".."@ + upper
}

/// The name under which a HEAD on the commit `commit` and on no branch is
/// known.
pub fn detached_label(commit: &str) -> (name: String)
    ensures
        name@ == detached_name(commit@),
{
    join("detached-", commit)
}

/// The full name of the local branch `name`.
pub fn branch_reference(name: &str) -> (full: String)
    ensures
        full@ == branch_ref(name@),
{
    join("refs/heads/", name)
}

/// The range that reaches from `lower`, left out, up to `upper`.
pub fn revision_range(lower: &str, upper: &str) -> (range: String)
    ensures
        range@ == range_text(lower@, upper@),
{
    let front = join(lower, "..");
    join(front.as_str(), upper)
}

/// The name of the branch that HEAD is on, from what its reference says:
/// the short name of a reference that is a local branch, and `None` for any
/// other reference and for a name that is no valid text. A HEAD without
/// such a name is known by its commit.
pub fn attached_branch(is_branch: bool, shorthand: Option<String>) -> (name: Option<String>)
    ensures
        name == if is_branch {
            shorthand
        } else {
            None
        },
{
    if is_branch {
        shorthand
    } else {
        None
    }
}

/// Whether a repository with `status_entries` files that differ from HEAD
/// or the index has uncommitted changes.
pub fn is_dirty(status_entries: usize) -> (dirty: bool)
    ensures
        dirty == (status_entries > 0),
{
    status_entries > 0
}

/// What an attempt to stash came to: an entry was made, or there was
/// nothing to stash, which is no error, or the attempt failed with `words`.
pub fn stash_outcome(saved: bool, nothing_to_stash: bool, words: String) -> (made: Result<
    bool,
    SyncError,
>)
    ensures
        saved ==> made == Ok::<bool, SyncError>(true),
        !saved && nothing_to_stash ==> made == Ok::<bool, SyncError>(false),
        !saved && !nothing_to_stash ==> made == Err::<bool, SyncError>(SyncError::Git(words)),
{
    if saved {
        Ok(true)
    } else if nothing_to_stash {
        Ok(false)
    } else {
        Err(SyncError::Git(words))
    }
}

/// How `commit` is shown.
pub fn describe(commit: &WalkedCommit) -> (info: CommitInfo)
    ensures
        describes(info, *commit),
{
    let date = match format_utc(commit.time) {
        Some(text) => text,
        None => String::from_str("1970-01-01 00:00:00"),
    };
    CommitInfo {
        id: commit.id.clone(),
        subject: commit.subject.clone(),
        author: commit.author.clone(),
        date,
        is_merge: commit.parents.len() > 1,
    }
}

/// How `commits` are shown, in their order.
pub fn describe_commits(commits: &Vec<WalkedCommit>) -> (list: Vec<CommitInfo>)
    ensures
        records_of(commits@, list@),
{
    let mut list: Vec<CommitInfo> = Vec::new();
    let mut i: usize = 0;
    while i < commits.len()
        invariant
            i <= commits.len(),
            list.len() == i,
            forall|k: int| 0 <= k < i ==> describes(#[trigger] list@[k], commits@[k]),
        decreases commits.len() - i,
    {
        list.push(describe(&commits[i]));
        i += 1;
    }
    list
}

/// A list that shows commits of distinct identities holds no identity
/// twice.
pub proof fn lemma_records_keep_ids_distinct(commits: Seq<WalkedCommit>, list: Seq<CommitInfo>)
    requires
        records_of(commits, list),
        distinct_ids(commits),
    ensures
        distinct_records(list),
{
    assert forall|i: int, j: int|
        0 <= i < list.len() && 0 <= j < list.len() && i != j implies list[i].id@
        != list[j].id@ by {
        assert(describes(list[i], commits[i]));
        assert(describes(list[j], commits[j]));
    }
}

/// A list that shows a resolution shows commits in chronological order,
/// oldest first, each identity once.
pub proof fn lemma_shown_resolution_is_chronological(
    list: Seq<CommitInfo>,
    subdir: Seq<char>,
    include_start: bool,
)
    requires
        shows_resolution(list, subdir, include_start),
    ensures
        distinct_records(list),
        exists|commits: Seq<WalkedCommit>|
            records_of(commits, list) && #[trigger] time_ordered(commits) && distinct_ids(
                commits,
            ),
{
    let (start, walk) = choose|start: WalkedCommit, walk: Seq<WalkedCommit>|
        records_of(#[trigger] resolved(subdir, start, include_start, walk), list);
    let commits = resolved(subdir, start, include_start, walk);
    lemma_resolved_chronological_and_distinct(subdir, start, include_start, walk);
    lemma_records_keep_ids_distinct(commits, list);
    assert(records_of(commits, list) && time_ordered(commits) && distinct_ids(commits));
}

/// The library's error for a failure of the repository layer.
fn git_failure(error: &git2::Error) -> (e: SyncError)
    ensures
        e is Git,
{
    SyncError::Git(error_text(error))
}

/// The text of `text`, or `fallback` where there is none.
pub open spec fn text_or(text: Option<String>, fallback: Seq<char>) -> Seq<char> {
    match text {
        Some(t) => t@,
        None => fallback,
    }
}

/// `change` holds the two paths of `pair`, a missing one as the empty
/// text.
pub open spec fn holds_paths(change: PathChange, pair: (Option<String>, Option<String>)) -> bool {
    &&& change.old_path@ == text_or(pair.0, Seq::empty())
    &&& change.new_path@ == text_or(pair.1, Seq::empty())
}

/// The changed paths as plain text, in their order; a side without a path
/// is empty.
pub fn path_changes(raw: Vec<(Option<String>, Option<String>)>) -> (changes: Vec<PathChange>)
    ensures
        changes@.len() == raw@.len(),
        forall|i: int| 0 <= i < raw@.len() ==> holds_paths(#[trigger] changes@[i], raw@[i]),
{
    let ghost all = raw@;
    let mut changes: Vec<PathChange> = Vec::new();
    for pair in it: raw.into_iter()
        invariant
            it.seq() == all,
            changes@.len() == it.index(),
            forall|i: int| 0 <= i < it.index() ==> holds_paths(#[trigger] changes@[i], all[i]),
    {
        let (old, new) = pair;
        let old_path = match old {
            Some(path) => path,
            None => String::new(),
        };
        let new_path = match new {
            Some(path) => path,
            None => String::new(),
        };
        changes.push(PathChange { old_path, new_path });
    }
    changes
}

/// A commit as plain values, from what the repository says of it. A commit
/// without a summary that is valid text has the subject `No subject`, one
/// without such an author's name the author `Unknown`.
pub fn walked_commit(
    id: String,
    summary: Option<String>,
    author: Option<String>,
    time: i64,
    parents: Vec<String>,
    changes: Vec<PathChange>,
) -> (commit: WalkedCommit)
    ensures
        commit.id == id,
        commit.subject@ == text_or(summary, "No subject"@),
        commit.author@ == text_or(author, "Unknown"@),
        commit.time == time,
        commit.parents == parents,
        commit.changes == changes,
{
    let subject = match summary {
        Some(text) => text,
        None => String::from_str("No subject"),
    };
    let author = match author {
        Some(text) => text,
        None => String::from_str("Unknown"),
    };
    WalkedCommit { id, subject, author, time, parents, changes }
}

/// What is asked of a history walk.
#[derive(Debug, Clone, PartialEq, Eq)]
pub struct WalkRequest {
    /// The range walked: what its right end reaches and its left end does
    /// not.
    pub range: String,
    /// Only first parents are followed: what a merge brought in from its
    /// other parents is left out.
    pub first_parent_only: bool,
    /// The commits are handed over by commit time, oldest first.
    pub oldest_first: bool,
}

/// The walk that resolves the commits to replay: from the lower bound, left
/// out, up to the commit `end_id`, oldest first, and along first parents
/// only where `first_parent` says so.
pub fn walk_request(start: &WalkedCommit, include_start: bool, end_id: &str, first_parent: bool) -> (request:
    WalkRequest)
    ensures
        request.range@ == range_text(lower_bound_of(*start, include_start), end_id@),
        request.first_parent_only == first_parent,
        request.oldest_first,
{
    let lower = walk_lower_bound(start, include_start);
    WalkRequest {
        range: revision_range(lower.as_str(), end_id),
        first_parent_only: first_parent,
        oldest_first: true,
    }
}

/// The walk that counts commits: over `start_commit..end_commit` as they
/// were given, along every parent, in the order of the repository.
pub fn count_request(start_commit: &str, end_commit: &str) -> (request: WalkRequest)
    ensures
        request.range@ == range_text(start_commit@, end_commit@),
        !request.first_parent_only,
        !request.oldest_first,
{
    WalkRequest {
        range: revision_range(start_commit, end_commit),
        first_parent_only: false,
        oldest_first: false,
    }
}

/// Why the two repositories cannot be used, if they cannot: a path at
/// which no repository opened gives `NotARepository` with that path, the
/// source looked at first.
pub fn opening_verdict(
    source_opened: bool,
    target_opened: bool,
    source_path: &str,
    target_path: &str,
) -> (refused: Option<SyncError>)
    ensures
        !source_opened ==> (refused matches Some(SyncError::NotARepository(p)) && p@
            == source_path@),
        source_opened && !target_opened ==> (refused matches Some(
            SyncError::NotARepository(p),
        ) && p@ == target_path@),
        source_opened && target_opened ==> refused is None,
{
    if !source_opened {
        Some(SyncError::NotARepository(String::from_str(source_path)))
    } else if !target_opened {
        Some(SyncError::NotARepository(String::from_str(target_path)))
    } else {
        None
    }
}

/// Whether the two ends of a range pass: a reference for which the
/// repository found no object gives `InvalidCommit` with that reference,
/// the start looked at first.
pub fn references_verdict(
    start_found: bool,
    end_found: bool,
    start_commit: &str,
    end_commit: &str,
) -> (valid: Result<(), SyncError>)
    ensures
        !start_found ==> (valid matches Err(SyncError::InvalidCommit(r)) && r@ == start_commit@),
        start_found && !end_found ==> (valid matches Err(SyncError::InvalidCommit(r)) && r@
            == end_commit@),
        start_found && end_found ==> valid is Ok,
{
    match reference_verdict(start_found, start_commit) {
        Ok(()) => reference_verdict(end_found, end_commit),
        Err(e) => Err(e),
    }
}

/// Whether a switch to `branch_name` can go on: it can where the repository
/// found the branch, and is a `BranchNotFound` with the name where it found
/// none.
pub fn branch_verdict(found: bool, branch_name: &str) -> (valid: Result<(), SyncError>)
    ensures
        found ==> valid is Ok,
        !found ==> (valid matches Err(SyncError::BranchNotFound(b)) && b@ == branch_name@),
{
    if found {
        Ok(())
    } else {
        Err(SyncError::BranchNotFound(String::from_str(branch_name)))
    }
}

/// Whether `reference` passes: it does where the repository found an
/// object for it, and is an `InvalidCommit` with the reference where it
/// found none.
pub fn reference_verdict(found: bool, reference: &str) -> (valid: Result<(), SyncError>)
    ensures
        found ==> valid is Ok,
        !found ==> (valid matches Err(SyncError::InvalidCommit(r)) && r@ == reference@),
{
    if found {
        Ok(())
    } else {
        Err(SyncError::InvalidCommit(String::from_str(reference)))
    }
}

/// The paths that `commit` changed against its first parent, or against the
/// empty tree where it has no parent.
fn load_changes<'repo>(
    repo: &'repo git2::Repository,
    commit: &git2::Commit<'repo>,
    has_parent: bool,
) -> (changes: Result<Vec<PathChange>, SyncError>)
    ensures
        changes is Err ==> changes->Err_0 is Git,
{
    let tree = match commit_tree(commit) {
        Ok(tree) => tree,
        Err(e) => {
            return Err(git_failure(&e));
        },
    };
    let diff = if has_parent {
        let parent = match commit_parent(commit, 0) {
            Ok(parent) => parent,
            Err(e) => {
                return Err(git_failure(&e));
            },
        };
        let old = match commit_tree(&parent) {
            Ok(tree) => tree,
            Err(e) => {
                return Err(git_failure(&e));
            },
        };
        diff_trees(repo, Some(&old), &tree)
    } else {
        diff_trees(repo, None, &tree)
    };
    match diff {
        Ok(diff) => Ok(path_changes(diff_paths(&diff))),
        Err(e) => Err(git_failure(&e)),
    }
}

/// `commit` as plain values. Its changes are read only where `with_changes`
/// asks for them: without that, it comes with none.
fn load_commit<'repo>(
    repo: &'repo git2::Repository,
    commit: &git2::Commit<'repo>,
    with_changes: bool,
) -> (loaded: Result<WalkedCommit, SyncError>)
    ensures
        loaded is Err ==> with_changes && loaded->Err_0 is Git,
        loaded is Ok && !with_changes ==> loaded->Ok_0.changes@.len() == 0,
{
    let parents = commit_parent_ids(commit);
    let changes = if with_changes {
        match load_changes(repo, commit, parents.len() > 0) {
            Ok(changes) => changes,
            Err(e) => {
                return Err(e);
            },
        }
    } else {
        Vec::new()
    };
    Ok(
        walked_commit(
            commit_id(commit),
            commit_summary(commit),
            commit_author_name(commit),
            commit_time(commit),
            parents,
            changes,
        ),
    )
}

/// What the walk asked for yields, as plain values and in its order. The
/// changes of the commits are read only where `with_changes` asks for them:
/// without that, every commit comes with none.
fn load_walk<'repo>(
    repo: &'repo git2::Repository,
    request: &WalkRequest,
    with_changes: bool,
) -> (walked: Result<Vec<WalkedCommit>, SyncError>)
    ensures
        walked is Err ==> walked->Err_0 is Git,
        walked is Ok && !with_changes ==> forall|i: int|
            0 <= i < walked->Ok_0@.len() ==> (#[trigger] walked->Ok_0@[i]).changes@.len() == 0,
{
    let mut walk = match new_revwalk(repo) {
        Ok(walk) => walk,
        Err(e) => {
            return Err(git_failure(&e));
        },
    };
    match revwalk_push_range(&mut walk, request.range.as_str()) {
        Ok(()) => {},
        Err(e) => {
            return Err(git_failure(&e));
        },
    }
    if request.first_parent_only {
        match revwalk_first_parent_only(&mut walk) {
            Ok(()) => {},
            Err(e) => {
                return Err(git_failure(&e));
            },
        }
    }
    if request.oldest_first {
        match revwalk_oldest_first(&mut walk) {
            Ok(()) => {},
            Err(e) => {
                return Err(git_failure(&e));
            },
        }
    }
    let mut commits: Vec<WalkedCommit> = Vec::new();
    // A vector holds no more than `usize::MAX` entries, and no history has
    // as many commits.
    while commits.len() < usize::MAX
        invariant
            !with_changes ==> forall|i: int|
                0 <= i < commits@.len() ==> (#[trigger] commits@[i]).changes@.len() == 0,
        decreases usize::MAX - commits.len(),
    {
        let id = match revwalk_next(&mut walk) {
            None => {
                return Ok(commits);
            },
            Some(Ok(id)) => id,
            Some(Err(e)) => {
                return Err(git_failure(&e));
            },
        };
        let commit = match find_commit(repo, id.as_str()) {
            Ok(commit) => commit,
            Err(e) => {
                return Err(git_failure(&e));
            },
        };
        match load_commit(repo, &commit, with_changes) {
            Ok(loaded) => {
                commits.push(loaded);
            },
            Err(e) => {
                return Err(e);
            },
        }
    }
    Ok(commits)
}

/// The commit that `reference` names, or `InvalidCommit` with the
/// reference.
fn resolve_commit<'repo>(repo: &'repo git2::Repository, reference: &str) -> (commit: Result<
    git2::Commit<'repo>,
    SyncError,
>)
    ensures
        commit matches Err(e) ==> e is Git || (e matches SyncError::InvalidCommit(r) && r@
            == reference@),
{
    let found = revparse_single(repo, reference);
    match reference_verdict(found.is_ok(), reference) {
        Ok(()) => {},
        Err(e) => {
            return Err(e);
        },
    }
    let commit = match found {
        Ok(object) => match object_commit(&object) {
            Ok(commit) => Ok(commit),
            Err(e) => Err(git_failure(&e)),
        },
        Err(e) => Err(git_failure(&e)),
    };
    commit
}

/// The branch that HEAD of `repo` is on, or `detached-` and the commit's
/// hash where it is on none.
fn get_current_branch(repo: &git2::Repository) -> (name: Result<String, SyncError>)
    ensures
        name is Err ==> name->Err_0 is Git,
{
    let head = match repository_head(repo) {
        Ok(head) => head,
        Err(e) => {
            return Err(git_failure(&e));
        },
    };
    match attached_branch(reference_is_branch(&head), reference_shorthand(&head)) {
        Some(name) => {
            return Ok(name);
        },
        None => {},
    }
    let name = match reference_commit(&head) {
        Ok(commit) => Ok(detached_label(commit_id(&commit).as_str())),
        Err(e) => Err(git_failure(&e)),
    };
    name
}

impl CommitInfo {
    /// A second value of the same record.
    pub fn duplicate(&self) -> (copy: CommitInfo)
        ensures
            copy == *self,
    {
        CommitInfo {
            id: self.id.clone(),
            subject: self.subject.clone(),
            author: self.author.clone(),
            date: self.date.clone(),
            is_merge: self.is_merge,
        }
    }
}

impl RepoInfo {
    /// A repository on the branch on which it was found.
    pub fn found(path: &str, branch: String) -> (info: RepoInfo)
        ensures
            info.path@ == path@,
            info.current_branch@ == branch@,
            info.original_branch@ == branch@,
    {
        RepoInfo {
            path: String::from_str(path),
            current_branch: branch.clone(),
            original_branch: branch,
        }
    }

    /// HEAD is where it was when the run began.
    pub open spec fn restored(self) -> bool {
        self.current_branch@ == self.original_branch@
    }
}

impl GitManager {
    /// The source repository for `true`, the target for `false`.
    pub open spec fn repo(self, is_source: bool) -> RepoInfo {
        if is_source {
            self.source_repo_info
        } else {
            self.target_repo_info
        }
    }

    /// `self` with the addressed repository on `branch`.
    pub open spec fn on_branch(self, other: GitManager, is_source: bool, branch: Seq<char>) -> bool {
        &&& other.repo(is_source).current_branch@ == branch
        &&& other.repo(is_source).path == self.repo(is_source).path
        &&& other.repo(is_source).original_branch == self.repo(is_source).original_branch
        &&& if is_source {
            other.target_repo_info == self.target_repo_info
        } else {
            other.source_repo_info == self.source_repo_info
        }
    }

    /// Opens both repositories and notes the branch each is on.
    ///
    /// A path at which no repository opens gives `NotARepository` with that
    /// path, the source looked at first.
    pub fn new(source_path: &str, target_path: &str) -> (manager: Result<GitManager, SyncError>)
        ensures
            match manager {
                Ok(m) => {
                    &&& m.source_repo_info.path@ == source_path@
                    &&& m.target_repo_info.path@ == target_path@
                    &&& m.source_repo_info.restored()
                    &&& m.target_repo_info.restored()
                },
                Err(e) => e is Git || (e matches SyncError::NotARepository(p) && (p@
                    == source_path@ || p@ == target_path@)),
            },
    {
        let source_opening = open_repository(source_path);
        let target_opening = open_repository(target_path);
        match opening_verdict(
            source_opening.is_ok(),
            target_opening.is_ok(),
            source_path,
            target_path,
        ) {
            Some(e) => {
                return Err(e);
            },
            None => {},
        }
        let source_repo = match source_opening {
            Ok(repo) => repo,
            Err(e) => {
                return Err(git_failure(&e));
            },
        };
        let target_repo = match target_opening {
            Ok(repo) => repo,
            Err(e) => {
                return Err(git_failure(&e));
            },
        };
        let source_branch = match get_current_branch(&source_repo) {
            Ok(name) => name,
            Err(e) => {
                return Err(e);
            },
        };
        let target_branch = match get_current_branch(&target_repo) {
            Ok(name) => name,
            Err(e) => {
                return Err(e);
            },
        };
        Ok(
            GitManager {
                source_repo_info: RepoInfo::found(source_path, source_branch),
                target_repo_info: RepoInfo::found(target_path, target_branch),
            },
        )
    }

    /// A handle on the addressed repository, opened afresh by its path.
    pub fn get_repository(&self, is_source: bool) -> (repo: Result<git2::Repository, SyncError>)
        ensures
            repo is Err ==> repo->Err_0 is Git,
    {
        let path = if is_source {
            &self.source_repo_info.path
        } else {
            &self.target_repo_info.path
        };
        match open_repository(path.as_str()) {
            Ok(repo) => Ok(repo),
            Err(e) => Err(git_failure(&e)),
        }
    }

    /// Whether the addressed repository has a local branch `branch_name`.
    pub fn branch_exists(&self, is_source: bool, branch_name: &str) -> (exists: Result<
        bool,
        SyncError,
    >)
        ensures
            exists is Err ==> exists->Err_0 is Git,
    {
        let repo = match self.get_repository(is_source) {
            Ok(repo) => repo,
            Err(e) => {
                return Err(e);
            },
        };
        let full = branch_reference(branch_name);
        let found = revparse_single(&repo, full.as_str());
        Ok(found.is_ok())
    }

    /// Points HEAD of the addressed repository at the local branch
    /// `branch_name` and notes it as the current branch.
    ///
    /// A name that resolves to no local branch gives `BranchNotFound` with
    /// the name. On any error nothing is noted.
    pub fn switch_branch(&mut self, is_source: bool, branch_name: &str) -> (switched: Result<
        (),
        SyncError,
    >)
        ensures
            match switched {
                Ok(()) => old(self).on_branch(*final(self), is_source, branch_name@),
                Err(e) => {
                    &&& *final(self) == *old(self)
                    &&& e is Git || (e matches SyncError::BranchNotFound(b) && b@ == branch_name@)
                },
            },
    {
        let repo = match self.get_repository(is_source) {
            Ok(repo) => repo,
            Err(e) => {
                return Err(e);
            },
        };
        let full = branch_reference(branch_name);
        let found = revparse_single(&repo, full.as_str()).is_ok();
        match branch_verdict(found, branch_name) {
            Ok(()) => {},
            Err(e) => {
                return Err(e);
            },
        }
        match set_head(&repo, full.as_str()) {
            Ok(()) => {},
            Err(e) => {
                return Err(git_failure(&e));
            },
        }
        if is_source {
            self.source_repo_info.current_branch = String::from_str(branch_name);
        } else {
            self.target_repo_info.current_branch = String::from_str(branch_name);
        }
        Ok(())
    }

    /// Creates the local branch `branch_name` at the commit that HEAD of the
    /// addressed repository is on, points HEAD at it and notes it as the
    /// current branch.
    ///
    /// A branch that exists already is an error of the repository layer. On
    /// any error nothing is noted.
    pub fn create_branch(&mut self, is_source: bool, branch_name: &str) -> (created: Result<
        (),
        SyncError,
    >)
        ensures
            match created {
                Ok(()) => old(self).on_branch(*final(self), is_source, branch_name@),
                Err(e) => *final(self) == *old(self) && e is Git,
            },
    {
        let repo = match self.get_repository(is_source) {
            Ok(repo) => repo,
            Err(e) => {
                return Err(e);
            },
        };
        let head = match repository_head(&repo) {
            Ok(head) => head,
            Err(e) => {
                return Err(git_failure(&e));
            },
        };
        let head_commit = match reference_commit(&head) {
            Ok(commit) => commit,
            Err(e) => {
                return Err(git_failure(&e));
            },
        };
        match create_branch_at(&repo, branch_name, &head_commit) {
            Ok(()) => {},
            Err(e) => {
                return Err(git_failure(&e));
            },
        }
        let full = branch_reference(branch_name);
        match set_head(&repo, full.as_str()) {
            Ok(()) => {},
            Err(e) => {
                return Err(git_failure(&e));
            },
        }
        if is_source {
            self.source_repo_info.current_branch = String::from_str(branch_name);
        } else {
            self.target_repo_info.current_branch = String::from_str(branch_name);
        }
        Ok(())
    }

    /// Whether the addressed repository has changes that are not committed,
    /// untracked files counted.
    pub fn has_uncommitted_changes(&self, is_source: bool) -> (dirty: Result<bool, SyncError>)
        ensures
            dirty is Err ==> dirty->Err_0 is Git,
    {
        let repo = match self.get_repository(is_source) {
            Ok(repo) => repo,
            Err(e) => {
                return Err(e);
            },
        };
        match status_entry_count(&repo, true) {
            Ok(count) => Ok(is_dirty(count)),
            Err(e) => Err(git_failure(&e)),
        }
    }

    /// Puts the local changes of the addressed repository away. Says whether
    /// a stash entry was made: where there is nothing to stash, none is, and
    /// that is no error.
    pub fn stash_if_needed(&self, is_source: bool, message: &str) -> (stashed: Result<
        bool,
        SyncError,
    >)
        ensures
            stashed is Err ==> stashed->Err_0 is Git,
    {
        let mut repo = match self.get_repository(is_source) {
            Ok(repo) => repo,
            Err(e) => {
                return Err(e);
            },
        };
        let signature = match default_signature(&repo) {
            Ok(signature) => signature,
            Err(_) => match signature_now("sync-subdir", "sync-subdir@example.com") {
                Ok(signature) => signature,
                Err(e) => {
                    return Err(git_failure(&e));
                },
            },
        };
        match stash_save(&mut repo, &signature, message) {
            Ok(()) => stash_outcome(true, false, String::new()),
            Err(e) => stash_outcome(false, error_is_not_found(&e), error_text(&e)),
        }
    }

    /// Puts the local changes of the addressed repository away. Nothing to
    /// stash is a success.
    pub fn stash_changes(&self, is_source: bool, message: &str) -> (stashed: Result<(), SyncError>)
        ensures
            stashed is Err ==> stashed->Err_0 is Git,
    {
        match self.stash_if_needed(is_source, message) {
            Ok(_) => Ok(()),
            Err(e) => Err(e),
        }
    }

    /// Checks that `commit_hash` names an object of the addressed
    /// repository, reachable from HEAD or not; `InvalidCommit` with the
    /// reference where it names none.
    pub fn validate_commit(&self, is_source: bool, commit_hash: &str) -> (valid: Result<
        (),
        SyncError,
    >)
        ensures
            valid matches Err(e) ==> e is Git || (e matches SyncError::InvalidCommit(r) && r@
                == commit_hash@),
    {
        let repo = match self.get_repository(is_source) {
            Ok(repo) => repo,
            Err(e) => {
                return Err(e);
            },
        };
        let found = revparse_single(&repo, commit_hash).is_ok();
        reference_verdict(found, commit_hash)
    }

    /// The commits of the source repository to replay for `subdir`: those
    /// between the two references that change something under it, oldest
    /// first, each once.
    ///
    /// The list is what `resolved` makes of the start commit and of what
    /// the walk from `end_commit` down to the lower bound yielded; with
    /// `first_parent` the walk follows first parents only. A reference that
    /// names no commit gives `InvalidCommit` with that reference, the start
    /// looked at first.
    pub fn get_commits_in_range(
        &self,
        subdir: &str,
        start_commit: &str,
        end_commit: &str,
        include_start: bool,
        first_parent: bool,
    ) -> (list: Result<Vec<CommitInfo>, SyncError>)
        ensures
            match list {
                Ok(list) => {
                    &&& shows_resolution(list@, subdir@, include_start)
                    &&& distinct_records(list@)
                },
                Err(e) => e is Git || (e matches SyncError::InvalidCommit(r) && (r@
                    == start_commit@ || r@ == end_commit@)),
            },
    {
        let repo = match self.get_repository(true) {
            Ok(repo) => repo,
            Err(e) => {
                return Err(e);
            },
        };
        let start_found = revparse_single(&repo, start_commit).is_ok();
        let end_found = revparse_single(&repo, end_commit).is_ok();
        match references_verdict(start_found, end_found, start_commit, end_commit) {
            Ok(()) => {},
            Err(e) => {
                return Err(e);
            },
        }
        let start_handle = match resolve_commit(&repo, start_commit) {
            Ok(commit) => commit,
            Err(e) => {
                return Err(e);
            },
        };
        let end_handle = match resolve_commit(&repo, end_commit) {
            Ok(commit) => commit,
            Err(e) => {
                return Err(e);
            },
        };
        let with_changes = !is_unfiltered(subdir);
        let start = match load_commit(&repo, &start_handle, with_changes) {
            Ok(commit) => commit,
            Err(e) => {
                return Err(e);
            },
        };
        let request = walk_request(
            &start,
            include_start,
            commit_id(&end_handle).as_str(),
            first_parent,
        );
        let walk = match load_walk(&repo, &request, with_changes) {
            Ok(walk) => walk,
            Err(e) => {
                return Err(e);
            },
        };
        let ghost walked = walk@;
        let commits = resolve_commits(subdir, start, include_start, walk);
        let list = describe_commits(&commits);
        proof {
            lemma_resolved_chronological_and_distinct(subdir@, start, include_start, walked);
            lemma_records_keep_ids_distinct(commits@, list@);
        }
        Ok(list)
    }

    /// How many commits between the two references change something under
    /// `subdir`, and how many of those are merges.
    ///
    /// The counts are taken over what the walk of `start_commit..end_commit`
    /// in the source repository yielded. A reference that names no commit
    /// gives `InvalidCommit` with that reference, the start looked at first.
    pub fn get_commit_count(
        &self,
        subdir: &str,
        start_commit: &str,
        end_commit: &str,
        _exclude_merges: bool,
    ) -> (counts: Result<(usize, usize), SyncError>)
        ensures
            match counts {
                Ok((total, merges)) => counts_a_walk(total, merges, subdir@),
                Err(e) => e is Git || (e matches SyncError::InvalidCommit(r) && (r@
                    == start_commit@ || r@ == end_commit@)),
            },
    {
        let repo = match self.get_repository(true) {
            Ok(repo) => repo,
            Err(e) => {
                return Err(e);
            },
        };
        let start_found = revparse_single(&repo, start_commit).is_ok();
        let end_found = revparse_single(&repo, end_commit).is_ok();
        match references_verdict(start_found, end_found, start_commit, end_commit) {
            Ok(()) => {},
            Err(e) => {
                return Err(e);
            },
        }
        let request = count_request(start_commit, end_commit);
        let with_changes = !is_unfiltered(subdir);
        let walk = match load_walk(&repo, &request, with_changes) {
            Ok(walk) => walk,
            Err(e) => {
                return Err(e);
            },
        };
        Ok(count_touching(&walk, subdir))
    }
}

/// The commits to replay for `config`, with its defaults: up to `HEAD`,
/// the start commit included, first parents only.
pub fn load_commits(config: &Config, git_manager: &GitManager) -> (list: Result<
    Vec<CommitInfo>,
    SyncError,
>)
    ensures
        match list {
            Ok(list) => {
                &&& shows_resolution(list@, config.subdir@, config.include_start != Some(false))
                &&& distinct_records(list@)
            },
            Err(e) => e is Git || (e matches SyncError::InvalidCommit(r) && (r@
                == config.start_commit@ || r@ == config.end_reference_text())),
        },
{
    let end = config.end_reference();
    git_manager.get_commits_in_range(
        config.subdir.as_str(),
        config.start_commit.as_str(),
        end.as_str(),
        config.includes_start(),
        config.first_parent_only(),
    )
}

} // verus!
