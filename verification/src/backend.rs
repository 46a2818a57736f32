//! The calls into the repository engine and the calendar.
//!
//! Nothing in this file is proved. Each item stands for one function of an
//! outside crate; where a contract is given, it is what that function's
//! source shows. What a repository answers depends on what is on disk, so
//! most of these promise nothing about their result: the callers are
//! verified for whatever comes back.

use vstd::prelude::*;

verus! {

/// `git2::Repository`: a repository on disk. Carried through as it is.
#[verifier::external_type_specification]
#[verifier::external_body]
pub struct ExRepository(git2::Repository);

/// `git2::Error`: why the repository layer refused. Read only through
/// `error_text` and `error_is_not_found`.
#[verifier::external_type_specification]
#[verifier::external_body]
pub struct ExGitError(git2::Error);

/// `git2::Oid`: the hash of an object. Named only by the walk's item type;
/// the library holds hashes as text.
#[verifier::external_type_specification]
#[verifier::external_body]
pub struct ExOid(git2::Oid);

/// `git2::Reference`: a named pointer into the history, HEAD among them.
#[verifier::external_type_specification]
#[verifier::external_body]
pub struct ExReference<'repo>(git2::Reference<'repo>);

/// `git2::Object`: what a revision string names, before it is known to be
/// a commit.
#[verifier::external_type_specification]
#[verifier::external_body]
pub struct ExObject<'repo>(git2::Object<'repo>);

/// `git2::Commit`: a commit of a repository.
#[verifier::external_type_specification]
#[verifier::external_body]
pub struct ExCommit<'repo>(git2::Commit<'repo>);

/// `git2::Tree`: the files of a commit.
#[verifier::external_type_specification]
#[verifier::external_body]
pub struct ExTree<'repo>(git2::Tree<'repo>);

/// `git2::Diff`: the difference between two trees.
#[verifier::external_type_specification]
#[verifier::external_body]
pub struct ExDiff<'repo>(git2::Diff<'repo>);

/// `git2::Revwalk`: a walk over the history.
#[verifier::external_type_specification]
#[verifier::external_body]
pub struct ExRevwalk<'repo>(git2::Revwalk<'repo>);

/// `git2::Signature`: who acts, and when.
#[verifier::external_type_specification]
#[verifier::external_body]
pub struct ExSignature<'a>(git2::Signature<'a>);

/// `git2::Repository::open`: the repository rooted at `path`, or why there
/// is none.
#[verifier::external_body]
pub(crate) fn open_repository(path: &str) -> (opened: Result<git2::Repository, git2::Error>) {
    git2::Repository::open(path)
}

/// `git2::Repository::head`: the reference that HEAD resolves to.
#[verifier::external_body]
pub(crate) fn repository_head<'repo>(repo: &'repo git2::Repository) -> (head: Result<
    git2::Reference<'repo>,
    git2::Error,
>) {
    repo.head()
}

/// `git2::Reference::is_branch`: whether the reference is a local branch.
#[verifier::external_body]
pub(crate) fn reference_is_branch<'repo>(reference: &git2::Reference<'repo>) -> (branch: bool) {
    reference.is_branch()
}

/// `git2::Reference::shorthand`: the short name of the reference, where it
/// is valid text.
#[verifier::external_body]
pub(crate) fn reference_shorthand<'repo>(reference: &git2::Reference<'repo>) -> (name: Option<
    String,
>) {
    reference.shorthand().map(|s| s.to_string())
}

/// `git2::Reference::peel_to_commit`: the commit that the reference leads to.
#[verifier::external_body]
pub(crate) fn reference_commit<'repo>(reference: &git2::Reference<'repo>) -> (commit: Result<
    git2::Commit<'repo>,
    git2::Error,
>) {
    reference.peel_to_commit()
}

/// `git2::Repository::revparse_single`: the object that a revision string
/// names.
#[verifier::external_body]
pub(crate) fn revparse_single<'repo>(repo: &'repo git2::Repository, spec: &str) -> (object: Result<
    git2::Object<'repo>,
    git2::Error,
>) {
    repo.revparse_single(spec)
}

/// `git2::Object::peel_to_commit`: the commit that the object leads to.
#[verifier::external_body]
pub(crate) fn object_commit<'repo>(object: &git2::Object<'repo>) -> (commit: Result<
    git2::Commit<'repo>,
    git2::Error,
>) {
    object.peel_to_commit()
}

/// `git2::Repository::find_commit`: the commit with the given hash.
#[verifier::external_body]
pub(crate) fn find_commit<'repo>(repo: &'repo git2::Repository, id: &str) -> (commit: Result<
    git2::Commit<'repo>,
    git2::Error,
>) {
    repo.find_commit(git2::Oid::from_str(id)?)
}

/// `git2::Commit::id`: the hash of the commit, in hexadecimal.
#[verifier::external_body]
pub(crate) fn commit_id<'repo>(commit: &git2::Commit<'repo>) -> (id: String) {
    commit.id().to_string()
}

/// `git2::Commit::summary`: the first paragraph of the message, where it is
/// valid text.
#[verifier::external_body]
pub(crate) fn commit_summary<'repo>(commit: &git2::Commit<'repo>) -> (summary: Option<String>) {
    commit.summary().map(|s| s.to_string())
}

/// `git2::Commit::author`: the author's name, where it is valid text.
#[verifier::external_body]
pub(crate) fn commit_author_name<'repo>(commit: &git2::Commit<'repo>) -> (name: Option<String>) {
    commit.author().name().map(|s| s.to_string())
}

/// `git2::Commit::time`: the committer time, in seconds since the epoch.
#[verifier::external_body]
pub(crate) fn commit_time<'repo>(commit: &git2::Commit<'repo>) -> (seconds: i64) {
    commit.time().seconds()
}

/// `git2::Commit::parent_ids`: the hashes of the parents, first parent
/// first.
#[verifier::external_body]
pub(crate) fn commit_parent_ids<'repo>(commit: &git2::Commit<'repo>) -> (ids: Vec<String>) {
    commit.parent_ids().map(|id| id.to_string()).collect()
}

/// `git2::Commit::parent`: the parent at `index`.
#[verifier::external_body]
pub(crate) fn commit_parent<'repo>(commit: &git2::Commit<'repo>, index: usize) -> (parent: Result<
    git2::Commit<'repo>,
    git2::Error,
>) {
    commit.parent(index)
}

/// `git2::Commit::tree`: the tree of the commit.
#[verifier::external_body]
pub(crate) fn commit_tree<'repo>(commit: &git2::Commit<'repo>) -> (tree: Result<
    git2::Tree<'repo>,
    git2::Error,
>) {
    commit.tree()
}

/// `git2::Repository::diff_tree_to_tree`: the difference from `old` (the
/// empty tree where there is none) to `new`.
#[verifier::external_body]
pub(crate) fn diff_trees<'repo>(
    repo: &'repo git2::Repository,
    old: Option<&git2::Tree<'repo>>,
    new: &git2::Tree<'repo>,
) -> (diff: Result<git2::Diff<'repo>, git2::Error>) {
    repo.diff_tree_to_tree(old, Some(new), None)
}

/// `git2::Diff::deltas`: for each changed file its path before and after,
/// where there is one and it is valid text.
#[verifier::external_body]
pub(crate) fn diff_paths<'repo>(diff: &git2::Diff<'repo>) -> (paths: Vec<
    (Option<String>, Option<String>),
>) {
    diff.deltas().map(
        |delta|
            (
                delta.old_file().path_bytes().and_then(|b| std::str::from_utf8(b).ok()).map(
                    |s| s.to_string(),
                ),
                delta.new_file().path_bytes().and_then(|b| std::str::from_utf8(b).ok()).map(
                    |s| s.to_string(),
                ),
            ),
    ).collect()
}

/// `git2::Repository::set_head`: points HEAD at the named reference.
#[verifier::external_body]
pub(crate) fn set_head(repo: &git2::Repository, refname: &str) -> (done: Result<(), git2::Error>) {
    repo.set_head(refname)
}

/// `git2::Repository::branch`: a new branch at `target`; an existing one of
/// that name is an error.
#[verifier::external_body]
pub(crate) fn create_branch_at<'repo>(
    repo: &'repo git2::Repository,
    name: &str,
    target: &git2::Commit<'repo>,
) -> (done: Result<(), git2::Error>) {
    repo.branch(name, target, false).map(|_| ())
}

/// `git2::Repository::statuses`: how many files differ from HEAD or the
/// index, untracked files counted where asked for.
#[verifier::external_body]
pub(crate) fn status_entry_count(repo: &git2::Repository, include_untracked: bool) -> (count: Result<
    usize,
    git2::Error,
>) {
    let mut options = git2::StatusOptions::new();
    options.include_untracked(include_untracked);
    repo.statuses(Some(&mut options)).map(|statuses| statuses.len())
}

/// `git2::Repository::signature`: the configured user, stamped now.
#[verifier::external_body]
pub(crate) fn default_signature(repo: &git2::Repository) -> (signature: Result<
    git2::Signature<'static>,
    git2::Error,
>) {
    repo.signature()
}

/// `git2::Signature::now`: the given user, stamped now.
#[verifier::external_body]
pub(crate) fn signature_now(name: &str, email: &str) -> (signature: Result<
    git2::Signature<'static>,
    git2::Error,
>) {
    git2::Signature::now(name, email)
}

/// `git2::Repository::stash_save`: puts the local changes away as a new
/// stash entry.
#[verifier::external_body]
pub(crate) fn stash_save<'a>(
    repo: &mut git2::Repository,
    stasher: &git2::Signature<'a>,
    message: &str,
) -> (done: Result<(), git2::Error>) {
    repo.stash_save(stasher, message, None).map(|_| ())
}

/// `git2::Repository::stash_pop`: applies the stash entry at `index` and
/// takes it off the list.
#[verifier::external_body]
pub(crate) fn stash_pop(repo: &mut git2::Repository, index: usize) -> (done: Result<
    (),
    git2::Error,
>) {
    repo.stash_pop(index, None)
}

/// `git2::Repository::cleanup_state`: removes what an unfinished merge,
/// rebase or patch series left behind.
#[verifier::external_body]
pub(crate) fn cleanup_state(repo: &git2::Repository) -> (done: Result<(), git2::Error>) {
    repo.cleanup_state()
}

/// `git2::Repository::revwalk`: a fresh history walk.
#[verifier::external_body]
pub(crate) fn new_revwalk<'repo>(repo: &'repo git2::Repository) -> (walk: Result<
    git2::Revwalk<'repo>,
    git2::Error,
>) {
    repo.revwalk()
}

/// `git2::Revwalk::push_range`: walk what the right end of `range` reaches
/// and its left end does not.
#[verifier::external_body]
pub(crate) fn revwalk_push_range<'repo>(walk: &mut git2::Revwalk<'repo>, range: &str) -> (done:
    Result<(), git2::Error>) {
    walk.push_range(range)
}

/// `git2::Revwalk::simplify_first_parent`: follow first parents only.
#[verifier::external_body]
pub(crate) fn revwalk_first_parent_only<'repo>(walk: &mut git2::Revwalk<'repo>) -> (done: Result<
    (),
    git2::Error,
>) {
    walk.simplify_first_parent()
}

/// `git2::Revwalk::set_sorting`: hand the commits over by commit time,
/// oldest first.
#[verifier::external_body]
pub(crate) fn revwalk_oldest_first<'repo>(walk: &mut git2::Revwalk<'repo>) -> (done: Result<
    (),
    git2::Error,
>) {
    walk.set_sorting(git2::Sort::REVERSE | git2::Sort::TIME)
}

/// `git2::Revwalk::next`: the hash of the next commit of the walk, `None`
/// at its end.
#[verifier::external_body]
pub(crate) fn revwalk_next<'repo>(walk: &mut git2::Revwalk<'repo>) -> (next: Option<
    Result<String, git2::Error>,
>) {
    walk.next().map(|step| step.map(|id| id.to_string()))
}

/// `git2::Error::code`: whether the error says that something was not
/// found.
#[verifier::external_body]
pub(crate) fn error_is_not_found(error: &git2::Error) -> (not_found: bool) {
    error.code() == git2::ErrorCode::NotFound
}

/// The error's own words, as its `Display` gives them.
#[verifier::external_body]
pub(crate) fn error_text(error: &git2::Error) -> (text: String) {
    error.to_string()
}

/// `std::path::Path::join`: `relative` below `base`, as this platform
/// writes paths. Nothing is promised of the text: separators differ from
/// platform to platform.
#[verifier::external_body]
pub(crate) fn join_path(base: &str, relative: &str) -> (joined: String) {
    std::path::Path::new(base).join(relative).to_string_lossy().to_string()
}

/// `chrono::Local::now`, printed as year, month, day, a hyphen, hour,
/// minute, second. Nothing is promised of a clock.
#[verifier::external_body]
pub(crate) fn local_stamp() -> (stamp: String) {
    chrono::Local::now().format("%Y%m%d-%H%M%S").to_string()
}

/// What `chrono` prints for the instant `seconds` after the epoch, in UTC,
/// as year-month-day hour:minute:second; `None` where it has no such
/// instant.
pub uninterp spec fn utc_date_text(seconds: i64) -> Option<Seq<char>>;

/// `chrono::DateTime::<Utc>::from_timestamp`, printed with
/// `%Y-%m-%d %H:%M:%S`.
#[verifier::external_body]
pub(crate) fn format_utc(seconds: i64) -> (text: Option<String>)
    ensures
        match text {
            Some(t) => utc_date_text(seconds) == Some(t@),
            None => utc_date_text(seconds) is None,
        },
{
    chrono::DateTime::<chrono::Utc>::from_timestamp(seconds, 0).map(
        |t| t.format("%Y-%m-%d %H:%M:%S").to_string(),
    )
}

} // verus!
