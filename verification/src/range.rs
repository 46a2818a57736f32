//! Which commits of a history walk are replayed, and in what order.
//!
//! The walk itself is the repository's business. What is decided here, on
//! plain values: where the walk stops, which walked commits touch the
//! subdirectory, and the chronological, duplicate-free list that comes out.

use crate::text::{join, same_text, starts_with, trim_trailing, without_trailing};
use vstd::prelude::*;

verus! {

/// One path that a commit changed: where the file was and where it is.
/// A side that has no path (or none that is valid text) is empty.
#[derive(Debug, Clone, PartialEq, Eq)]
pub struct PathChange {
    pub old_path: String,
    pub new_path: String,
}

/// A commit as the history walk hands it over.
#[derive(Debug, Clone, PartialEq, Eq)]
pub struct WalkedCommit {
    /// Content hash.
    pub id: String,
    pub subject: String,
    pub author: String,
    /// Committer time, in seconds since the epoch.
    pub time: i64,
    /// Identities of the parents, first parent first.
    pub parents: Vec<String>,
    /// Paths changed against the first parent, or against the empty tree
    /// where there is no parent.
    pub changes: Vec<PathChange>,
}

/// The prefix that every path under `subdir` starts with: `subdir` without
/// slashes at its end, then one slash.
pub open spec fn subdir_prefix(subdir: Seq<char>) -> Seq<char> {
    without_trailing(subdir, '/').push('/')
}

/// An empty subdirectory and `.` stand for the whole repository.
pub open spec fn unfiltered(subdir: Seq<char>) -> bool {
    subdir.len() == 0 || subdir == seq!['.']
}

/// `path` lies under `subdir`.
pub open spec fn path_under(path: Seq<char>, subdir: Seq<char>) -> bool {
    subdir_prefix(subdir).is_prefix_of(path)
}

/// One side of `change` lies under `subdir`.
pub open spec fn change_touches(change: PathChange, subdir: Seq<char>) -> bool {
    path_under(change.old_path@, subdir) || path_under(change.new_path@, subdir)
}

/// `commit` changes something under `subdir`.
pub open spec fn affects(commit: WalkedCommit, subdir: Seq<char>) -> bool {
    unfiltered(subdir) || exists|i: int|
        0 <= i < commit.changes@.len() && change_touches(#[trigger] commit.changes@[i], subdir)
}

/// The start commit has no parent and is asked for: the walk cannot yield
/// it, so it is put in by hand.
pub open spec fn synthesizes_root(start: WalkedCommit, include_start: bool) -> bool {
    include_start && start.parents@.len() == 0
}

/// The commit at which the walk stops, itself left out: the first parent of
/// the start commit where the start is asked for and has one, else the start
/// commit.
pub open spec fn lower_bound_of(start: WalkedCommit, include_start: bool) -> Seq<char> {
    if include_start && start.parents@.len() > 0 {
        start.parents@[0]@
    } else {
        start.id@
    }
}

/// Some entry of `commits` has the identity `id`.
pub open spec fn has_id(commits: Seq<WalkedCommit>, id: Seq<char>) -> bool {
    exists|i: int| 0 <= i < commits.len() && (#[trigger] commits[i]).id@ == id
}

/// Commit times never go down along `commits`.
pub open spec fn time_ordered(commits: Seq<WalkedCommit>) -> bool {
    forall|i: int, j: int| 0 <= i <= j < commits.len() ==> commits[i].time <= commits[j].time
}

/// No identity occurs twice in `commits`.
pub open spec fn distinct_ids(commits: Seq<WalkedCommit>) -> bool {
    forall|i: int, j: int|
        0 <= i < commits.len() && 0 <= j < commits.len() && i != j ==> commits[i].id@
            != commits[j].id@
}

/// Not the commit `lower`.
pub open spec fn above(lower: Seq<char>) -> spec_fn(WalkedCommit) -> bool {
    |c: WalkedCommit| c.id@ != lower
}

/// Changes something under `subdir`.
pub open spec fn touching(subdir: Seq<char>) -> spec_fn(WalkedCommit) -> bool {
    |c: WalkedCommit| affects(c, subdir)
}

/// A merge that changes something under `subdir`.
pub open spec fn merge_touching(subdir: Seq<char>) -> spec_fn(WalkedCommit) -> bool {
    |c: WalkedCommit| affects(c, subdir) && c.parents@.len() > 1
}

/// The commits considered: the walk without its lower bound, behind the
/// start commit where that is a root and asked for.
pub open spec fn candidates(
    start: WalkedCommit,
    include_start: bool,
    walk: Seq<WalkedCommit>,
) -> Seq<WalkedCommit> {
    let inside = walk.filter(above(lower_bound_of(start, include_start)));
    if synthesizes_root(start, include_start) {
        seq![start] + inside
    } else {
        inside
    }
}

/// `sorted` with `c` put behind the last entry that is not younger.
pub open spec fn placed_by_time(sorted: Seq<WalkedCommit>, c: WalkedCommit) -> Seq<WalkedCommit>
    decreases sorted.len(),
{
    if sorted.len() == 0 || sorted.last().time <= c.time {
        sorted.push(c)
    } else {
        placed_by_time(sorted.drop_last(), c).push(sorted.last())
    }
}

/// `commits` oldest first; commits of one time keep their order.
pub open spec fn by_time(commits: Seq<WalkedCommit>) -> Seq<WalkedCommit>
    decreases commits.len(),
{
    if commits.len() == 0 {
        commits
    } else {
        placed_by_time(by_time(commits.drop_last()), commits.last())
    }
}

/// `commits` without every entry whose identity an earlier entry has.
pub open spec fn first_of_each_id(commits: Seq<WalkedCommit>) -> Seq<WalkedCommit>
    decreases commits.len(),
{
    if commits.len() == 0 {
        commits
    } else if has_id(commits.drop_last(), commits.last().id@) {
        first_of_each_id(commits.drop_last())
    } else {
        first_of_each_id(commits.drop_last()).push(commits.last())
    }
}

/// The commits to replay: the candidates that touch `subdir`, oldest first,
/// each identity once.
pub open spec fn resolved(
    subdir: Seq<char>,
    start: WalkedCommit,
    include_start: bool,
    walk: Seq<WalkedCommit>,
) -> Seq<WalkedCommit> {
    first_of_each_id(by_time(candidates(start, include_start, walk).filter(touching(subdir))))
}

/// Whether `subdir` stands for the whole repository.
pub fn is_unfiltered(subdir: &str) -> (whole: bool)
    ensures
        whole == unfiltered(subdir@),
{
    proof {
        reveal_strlit("");
        reveal_strlit(".");
        assert(""@ =~= Seq::<char>::empty());
        assert("."@ =~= seq!['.']);
        if subdir@.len() == 0 {
            assert(subdir@ =~= ""@);
        }
    }
    if same_text(subdir, "") {
        true
    } else {
        same_text(subdir, ".")
    }
}

/// The prefix of every path under `subdir`.
pub fn subdir_pattern(subdir: &str) -> (pattern: String)
    ensures
        pattern@ == subdir_prefix(subdir@),
{
    proof {
        reveal_strlit("/");
        assert("/"@ =~= seq!['/']);
    }
    let bare = trim_trailing(subdir, '/');
    let pattern = join(bare.as_str(), "/");
    assert(pattern@ =~= subdir_prefix(subdir@));
    pattern
}

/// Whether `commit` changes something under `subdir`.
pub fn commit_affects(commit: &WalkedCommit, subdir: &str) -> (touched: bool)
    ensures
        touched == affects(*commit, subdir@),
{
    if is_unfiltered(subdir) {
        return true;
    }
    let pattern = subdir_pattern(subdir);
    let mut i: usize = 0;
    while i < commit.changes.len()
        invariant
            i <= commit.changes@.len(),
            pattern@ == subdir_prefix(subdir@),
            forall|k: int| 0 <= k < i ==> !change_touches(#[trigger] commit.changes@[k], subdir@),
        decreases commit.changes.len() - i,
    {
        let change = &commit.changes[i];
        if starts_with(change.new_path.as_str(), pattern.as_str()) {
            return true;
        }
        if starts_with(change.old_path.as_str(), pattern.as_str()) {
            return true;
        }
        i += 1;
    }
    false
}

/// Where the walk stops.
pub fn walk_lower_bound(start: &WalkedCommit, include_start: bool) -> (bound: String)
    ensures
        bound@ == lower_bound_of(*start, include_start),
        !include_start ==> bound@ == start.id@,
        include_start && start.parents@.len() > 0 ==> bound@ == start.parents@[0]@,
        synthesizes_root(*start, include_start) ==> bound@ == start.id@,
{
    if include_start && start.parents.len() > 0 {
        start.parents[0].clone()
    } else {
        start.id.clone()
    }
}

/// The walk without the commit it stops at.
pub fn drop_lower_bound(walk: Vec<WalkedCommit>, lower: &str) -> (inside: Vec<WalkedCommit>)
    ensures
        inside@ == walk@.filter(above(lower@)),
{
    let ghost all = walk@;
    let mut inside: Vec<WalkedCommit> = Vec::new();
    proof {
        reveal(Seq::filter);
    }
    for c in it: walk.into_iter()
        invariant
            it.seq() == all,
            inside@ == all.take(it.index() as int).filter(above(lower@)),
    {
        proof {
            all.lemma_take_succ_push(it.index() as int);
            all.take(it.index() as int).lemma_filter_push(c, above(lower@));
        }
        if !same_text(c.id.as_str(), lower) {
            inside.push(c);
        }
    }
    proof {
        assert(all.take(all.len() as int) == all);
    }
    inside
}

/// The commits among `commits` that change something under `subdir`.
pub fn keep_touching(commits: Vec<WalkedCommit>, subdir: &str) -> (kept: Vec<WalkedCommit>)
    ensures
        kept@ == commits@.filter(touching(subdir@)),
{
    let ghost all = commits@;
    let mut kept: Vec<WalkedCommit> = Vec::new();
    proof {
        reveal(Seq::filter);
    }
    for c in it: commits.into_iter()
        invariant
            it.seq() == all,
            kept@ == all.take(it.index() as int).filter(touching(subdir@)),
    {
        proof {
            all.lemma_take_succ_push(it.index() as int);
            all.take(it.index() as int).lemma_filter_push(c, touching(subdir@));
        }
        if commit_affects(&c, subdir) {
            kept.push(c);
        }
    }
    proof {
        assert(all.take(all.len() as int) == all);
    }
    kept
}

/// Putting `c` behind the last entry that is not younger is an insertion at
/// the place below which nothing is younger and from which all is.
proof fn lemma_placed_is_insert(sorted: Seq<WalkedCommit>, c: WalkedCommit, at: int)
    requires
        0 <= at <= sorted.len(),
        forall|k: int| at <= k < sorted.len() ==> sorted[k].time > c.time,
        at == 0 || sorted[at - 1].time <= c.time,
    ensures
        placed_by_time(sorted, c) == sorted.insert(at, c),
    decreases sorted.len(),
{
    if at == sorted.len() {
        assert(sorted.insert(at, c) =~= sorted.push(c));
    } else {
        lemma_placed_is_insert(sorted.drop_last(), c, at);
        assert(sorted.drop_last().insert(at, c).push(sorted.last()) =~= sorted.insert(at, c));
    }
}

/// `commits` oldest first; commits of one time keep their order.
pub fn order_by_time(commits: Vec<WalkedCommit>) -> (ordered: Vec<WalkedCommit>)
    ensures
        ordered@ == by_time(commits@),
{
    let ghost all = commits@;
    let mut ordered: Vec<WalkedCommit> = Vec::new();
    for c in it: commits.into_iter()
        invariant
            it.seq() == all,
            ordered@ == by_time(all.take(it.index() as int)),
    {
        let mut at: usize = ordered.len();
        while at > 0 && ordered[at - 1].time > c.time
            invariant
                at <= ordered.len(),
                forall|k: int| at <= k < ordered.len() ==> ordered@[k].time > c.time,
            decreases at,
        {
            at -= 1;
        }
        proof {
            lemma_placed_is_insert(ordered@, c, at as int);
            all.lemma_take_succ_push(it.index() as int);
            assert(all.take(it.index() + 1).drop_last() == all.take(it.index() as int));
        }
        ordered.insert(at, c);
    }
    proof {
        assert(all.take(all.len() as int) == all);
    }
    ordered
}

/// Whether some entry of `commits` has the identity `id`.
pub fn holds_id(commits: &Vec<WalkedCommit>, id: &str) -> (found: bool)
    ensures
        found == has_id(commits@, id@),
{
    let mut i: usize = 0;
    while i < commits.len()
        invariant
            i <= commits.len(),
            forall|k: int| 0 <= k < i ==> (#[trigger] commits@[k]).id@ != id@,
        decreases commits.len() - i,
    {
        if same_text(commits[i].id.as_str(), id) {
            return true;
        }
        i += 1;
    }
    false
}

/// The entries that `first_of_each_id` keeps carry exactly the identities of
/// its argument, and each kept entry is one of the argument's.
pub proof fn lemma_first_of_each_id_keeps_ids(commits: Seq<WalkedCommit>)
    ensures
        forall|id: Seq<char>| has_id(first_of_each_id(commits), id) <==> has_id(commits, id),
        forall|i: int|
            0 <= i < first_of_each_id(commits).len() ==> commits.contains(
                #[trigger] first_of_each_id(commits)[i],
            ),
    decreases commits.len(),
{
    let out = first_of_each_id(commits);
    if commits.len() > 0 {
        let front = commits.drop_last();
        let last = commits.last();
        lemma_first_of_each_id_keeps_ids(front);
        let kept = first_of_each_id(front);
        assert forall|id: Seq<char>| has_id(out, id) <==> has_id(commits, id) by {
            if has_id(out, id) {
                let i = choose|i: int| 0 <= i < out.len() && (#[trigger] out[i]).id@ == id;
                if i < kept.len() {
                    assert(kept[i].id@ == id);
                    assert(has_id(kept, id));
                    let j = choose|j: int| 0 <= j < front.len() && (#[trigger] front[j]).id@ == id;
                    assert(commits[j].id@ == id);
                } else {
                    assert(commits[commits.len() - 1].id@ == id);
                }
            }
            if has_id(commits, id) {
                let j = choose|j: int| 0 <= j < commits.len() && (#[trigger] commits[j]).id@ == id;
                if j < front.len() {
                    assert(front[j].id@ == id);
                    assert(has_id(front, id));
                    assert(has_id(kept, id));
                    let i = choose|i: int| 0 <= i < kept.len() && (#[trigger] kept[i]).id@ == id;
                    assert(out[i].id@ == id);
                } else if has_id(front, last.id@) {
                    assert(commits[j] == last);
                    assert(has_id(front, id));
                    assert(has_id(kept, id));
                } else {
                    assert(out[out.len() - 1].id@ == id);
                }
            }
        }
        assert forall|i: int| 0 <= i < out.len() implies commits.contains(#[trigger] out[i]) by {
            if i < kept.len() {
                assert(front.contains(kept[i]));
                let j = choose|j: int| 0 <= j < front.len() && front[j] == kept[i];
                assert(commits[j] == out[i]);
            } else {
                assert(commits[commits.len() - 1] == out[i]);
            }
        }
    }
}

/// `commits` without every entry whose identity an earlier entry has.
pub fn first_per_id(commits: Vec<WalkedCommit>) -> (unique: Vec<WalkedCommit>)
    ensures
        unique@ == first_of_each_id(commits@),
{
    let ghost all = commits@;
    let mut unique: Vec<WalkedCommit> = Vec::new();
    for c in it: commits.into_iter()
        invariant
            it.seq() == all,
            unique@ == first_of_each_id(all.take(it.index() as int)),
    {
        proof {
            all.lemma_take_succ_push(it.index() as int);
            assert(all.take(it.index() + 1).drop_last() == all.take(it.index() as int));
            lemma_first_of_each_id_keeps_ids(all.take(it.index() as int));
        }
        if !holds_id(&unique, c.id.as_str()) {
            unique.push(c);
        }
    }
    proof {
        assert(all.take(all.len() as int) == all);
    }
    unique
}

/// The commits to replay, from what the walk yielded.
///
/// `start` is the commit that the start reference names, `walk` what the
/// history walk from the end reference down to the lower bound handed over,
/// in its order.
pub fn resolve_commits(
    subdir: &str,
    start: WalkedCommit,
    include_start: bool,
    walk: Vec<WalkedCommit>,
) -> (list: Vec<WalkedCommit>)
    ensures
        list@ == resolved(subdir@, start, include_start, walk@),
{
    let lower = walk_lower_bound(&start, include_start);
    let inside = drop_lower_bound(walk, lower.as_str());
    let pool = if include_start && start.parents.len() == 0 {
        let mut pool: Vec<WalkedCommit> = Vec::new();
        pool.push(start);
        let mut inside = inside;
        let ghost before = inside@;
        pool.append(&mut inside);
        assert(pool@ =~= seq![start] + before);
        pool
    } else {
        inside
    };
    let kept = keep_touching(pool, subdir);
    let ordered = order_by_time(kept);
    first_per_id(ordered)
}

/// Some entry has the identity `id` exactly when some member has it.
proof fn lemma_has_id_by_member(commits: Seq<WalkedCommit>, id: Seq<char>)
    ensures
        has_id(commits, id) <==> exists|c: WalkedCommit| #[trigger]
            commits.contains(c) && c.id@ == id,
{
    if has_id(commits, id) {
        let i = choose|i: int| 0 <= i < commits.len() && (#[trigger] commits[i]).id@ == id;
        assert(commits.contains(commits[i]));
    }
    if exists|c: WalkedCommit| #[trigger] commits.contains(c) && c.id@ == id {
        let c = choose|c: WalkedCommit| #[trigger] commits.contains(c) && c.id@ == id;
        let i = choose|i: int| 0 <= i < commits.len() && commits[i] == c;
        assert(commits[i].id@ == id);
    }
}

/// Placing a commit adds it and nothing else, and keeps a chronological
/// list chronological.
proof fn lemma_placed_by_time(sorted: Seq<WalkedCommit>, c: WalkedCommit)
    ensures
        placed_by_time(sorted, c).len() == sorted.len() + 1,
        forall|x: WalkedCommit| #[trigger]
            placed_by_time(sorted, c).contains(x) <==> (sorted.contains(x) || x == c),
        time_ordered(sorted) ==> time_ordered(placed_by_time(sorted, c)),
    decreases sorted.len(),
{
    let out = placed_by_time(sorted, c);
    if sorted.len() == 0 || sorted.last().time <= c.time {
        assert forall|x: WalkedCommit| #[trigger]
            out.contains(x) <==> (sorted.contains(x) || x == c) by {
            if out.contains(x) {
                let i = choose|i: int| 0 <= i < out.len() && out[i] == x;
                if i < sorted.len() {
                    assert(sorted[i] == x);
                }
            }
            if sorted.contains(x) {
                let i = choose|i: int| 0 <= i < sorted.len() && sorted[i] == x;
                assert(out[i] == x);
            }
            if x == c {
                assert(out[sorted.len() as int] == x);
            }
        }
        if time_ordered(sorted) {
            assert forall|i: int, j: int| 0 <= i <= j < out.len() implies out[i].time
                <= out[j].time by {
                if j == sorted.len() && i < sorted.len() {
                    assert(sorted[i].time <= sorted[sorted.len() - 1].time);
                }
            }
        }
    } else {
        let front = sorted.drop_last();
        let last = sorted.last();
        lemma_placed_by_time(front, c);
        let inner = placed_by_time(front, c);
        assert forall|x: WalkedCommit| #[trigger]
            out.contains(x) <==> (sorted.contains(x) || x == c) by {
            if out.contains(x) {
                let i = choose|i: int| 0 <= i < out.len() && out[i] == x;
                if i < inner.len() {
                    assert(inner.contains(inner[i]));
                    if front.contains(x) {
                        let k = choose|k: int| 0 <= k < front.len() && front[k] == x;
                        assert(sorted[k] == x);
                    }
                } else {
                    assert(sorted[sorted.len() - 1] == x);
                }
            }
            if sorted.contains(x) {
                let k = choose|k: int| 0 <= k < sorted.len() && sorted[k] == x;
                if k < front.len() {
                    assert(front[k] == x);
                    assert(front.contains(x));
                    assert(inner.contains(x));
                    let i = choose|i: int| 0 <= i < inner.len() && inner[i] == x;
                    assert(out[i] == x);
                } else {
                    assert(out[inner.len() as int] == x);
                }
            }
            if x == c {
                assert(inner.contains(x));
                let i = choose|i: int| 0 <= i < inner.len() && inner[i] == x;
                assert(out[i] == x);
            }
        }
        if time_ordered(sorted) {
            assert(time_ordered(front)) by {
                assert forall|i: int, j: int| 0 <= i <= j < front.len() implies front[i].time
                    <= front[j].time by {
                    assert(sorted[i].time <= sorted[j].time);
                }
            }
            assert forall|i: int, j: int| 0 <= i <= j < out.len() implies out[i].time
                <= out[j].time by {
                if j == inner.len() && i < inner.len() {
                    assert(inner.contains(inner[i]));
                    if front.contains(inner[i]) {
                        let k = choose|k: int| 0 <= k < front.len() && front[k] == inner[i];
                        assert(sorted[k].time <= sorted[sorted.len() - 1].time);
                    }
                } else if j < inner.len() {
                    assert(inner[i].time <= inner[j].time);
                }
            }
        }
    }
}

/// Ordering by time keeps every commit, adds none, and ends chronological.
pub proof fn lemma_by_time_orders(commits: Seq<WalkedCommit>)
    ensures
        by_time(commits).len() == commits.len(),
        forall|x: WalkedCommit| #[trigger] by_time(commits).contains(x) <==> commits.contains(x),
        forall|id: Seq<char>| has_id(by_time(commits), id) <==> has_id(commits, id),
        time_ordered(by_time(commits)),
    decreases commits.len(),
{
    let out = by_time(commits);
    if commits.len() > 0 {
        let front = commits.drop_last();
        let last = commits.last();
        lemma_by_time_orders(front);
        lemma_placed_by_time(by_time(front), last);
        assert forall|x: WalkedCommit| #[trigger] out.contains(x) <==> commits.contains(x) by {
            if commits.contains(x) {
                let k = choose|k: int| 0 <= k < commits.len() && commits[k] == x;
                if k < front.len() {
                    assert(front[k] == x);
                    assert(front.contains(x));
                }
            }
            if front.contains(x) {
                let k = choose|k: int| 0 <= k < front.len() && front[k] == x;
                assert(commits[k] == x);
            }
            assert(commits[commits.len() - 1] == last);
        }
    }
    assert forall|id: Seq<char>| has_id(out, id) <==> has_id(commits, id) by {
        if has_id(out, id) {
            let i = choose|i: int| 0 <= i < out.len() && (#[trigger] out[i]).id@ == id;
            assert(out.contains(out[i]));
            let k = choose|k: int| 0 <= k < commits.len() && commits[k] == out[i];
            assert(commits[k].id@ == id);
        }
        if has_id(commits, id) {
            let k = choose|k: int| 0 <= k < commits.len() && (#[trigger] commits[k]).id@ == id;
            assert(commits.contains(commits[k]));
            assert(out.contains(commits[k]));
            let i = choose|i: int| 0 <= i < out.len() && out[i] == commits[k];
            assert(out[i].id@ == id);
        }
    }
}

/// A walk that is chronological already is left as it is.
pub proof fn lemma_by_time_keeps_chronological(commits: Seq<WalkedCommit>)
    requires
        time_ordered(commits),
    ensures
        by_time(commits) == commits,
    decreases commits.len(),
{
    if commits.len() > 0 {
        let front = commits.drop_last();
        assert(time_ordered(front)) by {
            assert forall|i: int, j: int| 0 <= i <= j < front.len() implies front[i].time
                <= front[j].time by {
                assert(commits[i].time <= commits[j].time);
            }
        }
        lemma_by_time_keeps_chronological(front);
        if front.len() > 0 {
            assert(commits[front.len() - 1].time <= commits[commits.len() - 1].time);
        }
        assert(front.push(commits.last()) =~= commits);
    }
}

/// What `first_of_each_id` keeps has no identity twice, and stays
/// chronological where its argument is.
pub proof fn lemma_first_of_each_id_distinct(commits: Seq<WalkedCommit>)
    ensures
        distinct_ids(first_of_each_id(commits)),
        time_ordered(commits) ==> time_ordered(first_of_each_id(commits)),
    decreases commits.len(),
{
    let out = first_of_each_id(commits);
    if commits.len() > 0 {
        let front = commits.drop_last();
        let last = commits.last();
        let kept = first_of_each_id(front);
        lemma_first_of_each_id_distinct(front);
        lemma_first_of_each_id_keeps_ids(front);
        if !has_id(front, last.id@) {
            assert forall|i: int, j: int|
                0 <= i < out.len() && 0 <= j < out.len() && i != j implies out[i].id@
                != out[j].id@ by {
                if i < kept.len() && j < kept.len() {
                    assert(kept[i].id@ != kept[j].id@);
                } else if i < kept.len() {
                    assert(kept[i].id@ == out[i].id@);
                    if kept[i].id@ == last.id@ {
                        assert(has_id(kept, last.id@));
                    }
                } else {
                    assert(kept[j].id@ == out[j].id@);
                    if kept[j].id@ == last.id@ {
                        assert(has_id(kept, last.id@));
                    }
                }
            }
        }
        if time_ordered(commits) {
            assert(time_ordered(front)) by {
                assert forall|i: int, j: int| 0 <= i <= j < front.len() implies front[i].time
                    <= front[j].time by {
                    assert(commits[i].time <= commits[j].time);
                }
            }
            assert forall|i: int, j: int| 0 <= i <= j < out.len() implies out[i].time
                <= out[j].time by {
                if j < kept.len() {
                    assert(kept[i].time <= kept[j].time);
                } else if i < kept.len() {
                    assert(front.contains(kept[i]));
                    let k = choose|k: int| 0 <= k < front.len() && front[k] == kept[i];
                    assert(commits[k].time <= commits[commits.len() - 1].time);
                }
            }
        }
    }
}

/// The identities of the resolved list are those of the candidates that
/// touch the subdirectory, and each resolved entry is such a candidate.
pub proof fn lemma_resolved_are_touching_candidates(
    subdir: Seq<char>,
    start: WalkedCommit,
    include_start: bool,
    walk: Seq<WalkedCommit>,
)
    ensures
        forall|id: Seq<char>|
            has_id(resolved(subdir, start, include_start, walk), id) <==> exists|c: WalkedCommit|
             #[trigger] candidates(start, include_start, walk).contains(c) && c.id@ == id
                    && affects(c, subdir),
        forall|i: int|
            0 <= i < resolved(subdir, start, include_start, walk).len() ==> {
                let c = #[trigger] resolved(subdir, start, include_start, walk)[i];
                candidates(start, include_start, walk).contains(c) && affects(c, subdir)
            },
{
    let pool = candidates(start, include_start, walk);
    let kept = pool.filter(touching(subdir));
    let ordered = by_time(kept);
    let out = first_of_each_id(ordered);
    lemma_by_time_orders(kept);
    lemma_first_of_each_id_keeps_ids(ordered);
    assert forall|i: int| 0 <= i < out.len() implies pool.contains(#[trigger] out[i]) && affects(
        out[i],
        subdir,
    ) by {
        assert(ordered.contains(out[i]));
        assert(kept.contains(out[i]));
        let k = choose|k: int| 0 <= k < kept.len() && kept[k] == out[i];
        pool.lemma_filter_pred(touching(subdir), k);
        pool.lemma_filter_contains_rev(touching(subdir), out[i]);
    }
    assert forall|id: Seq<char>|
        has_id(out, id) <==> exists|c: WalkedCommit| #[trigger]
            pool.contains(c) && c.id@ == id && affects(c, subdir) by {
        if has_id(out, id) {
            let i = choose|i: int| 0 <= i < out.len() && (#[trigger] out[i]).id@ == id;
            assert(pool.contains(out[i]) && affects(out[i], subdir));
        }
        if exists|c: WalkedCommit| #[trigger]
            pool.contains(c) && c.id@ == id && affects(c, subdir) {
            let c = choose|c: WalkedCommit| #[trigger]
                pool.contains(c) && c.id@ == id && affects(c, subdir);
            let k = choose|k: int| 0 <= k < pool.len() && pool[k] == c;
            pool.lemma_filter_contains(touching(subdir), k);
            assert(kept.contains(c));
            lemma_has_id_by_member(kept, id);
            assert(has_id(kept, id));
            assert(has_id(ordered, id));
        }
    }
}

/// A candidate is a walked commit other than the lower bound, or the start
/// commit where that is a root and asked for.
pub proof fn lemma_candidates_come_from_walk(
    start: WalkedCommit,
    include_start: bool,
    walk: Seq<WalkedCommit>,
    c: WalkedCommit,
)
    ensures
        candidates(start, include_start, walk).contains(c) <==> ((walk.contains(c) && c.id@
            != lower_bound_of(start, include_start)) || (synthesizes_root(start, include_start)
            && c == start)),
{
    let lower = lower_bound_of(start, include_start);
    let inside = walk.filter(above(lower));
    let pool = candidates(start, include_start, walk);
    if inside.contains(c) {
        let k = choose|k: int| 0 <= k < inside.len() && inside[k] == c;
        walk.lemma_filter_pred(above(lower), k);
        walk.lemma_filter_contains_rev(above(lower), c);
    }
    if walk.contains(c) && c.id@ != lower {
        let k = choose|k: int| 0 <= k < walk.len() && walk[k] == c;
        walk.lemma_filter_contains(above(lower), k);
    }
    if synthesizes_root(start, include_start) {
        if pool.contains(c) {
            let k = choose|k: int| 0 <= k < pool.len() && pool[k] == c;
            if k > 0 {
                assert(inside[k - 1] == c);
            }
        }
        if inside.contains(c) {
            let k = choose|k: int| 0 <= k < inside.len() && inside[k] == c;
            assert(pool[k + 1] == c);
        }
        assert(pool[0] == start);
    }
}

/// The resolved list is chronological, oldest first, and holds no
/// identity twice, whatever the walk handed over.
pub proof fn lemma_resolved_chronological_and_distinct(
    subdir: Seq<char>,
    start: WalkedCommit,
    include_start: bool,
    walk: Seq<WalkedCommit>,
)
    ensures
        time_ordered(resolved(subdir, start, include_start, walk)),
        distinct_ids(resolved(subdir, start, include_start, walk)),
{
    let kept = candidates(start, include_start, walk).filter(touching(subdir));
    lemma_by_time_orders(kept);
    lemma_first_of_each_id_distinct(by_time(kept));
}

/// Where the start commit is not asked for, the walk stops at the start
/// commit itself, and the start commit is never in the resolved list.
pub proof fn lemma_excluded_start_stays_out(
    subdir: Seq<char>,
    start: WalkedCommit,
    walk: Seq<WalkedCommit>,
)
    ensures
        lower_bound_of(start, false) == start.id@,
        !has_id(resolved(subdir, start, false, walk), start.id@),
{
    lemma_resolved_are_touching_candidates(subdir, start, false, walk);
    let out = resolved(subdir, start, false, walk);
    if has_id(out, start.id@) {
        let c = choose|c: WalkedCommit| #[trigger]
            candidates(start, false, walk).contains(c) && c.id@ == start.id@ && affects(
                c,
                subdir,
            );
        lemma_candidates_come_from_walk(start, false, walk, c);
    }
}

/// Where the start commit is asked for and has a parent, the walk stops at
/// its first parent; if the walk then yields the start commit and that
/// touches the subdirectory, the start commit is in the resolved list.
pub proof fn lemma_included_start_is_resolved(
    subdir: Seq<char>,
    start: WalkedCommit,
    walk: Seq<WalkedCommit>,
    at: int,
)
    requires
        start.parents@.len() > 0,
        start.id@ != start.parents@[0]@,
        0 <= at < walk.len(),
        walk[at].id@ == start.id@,
        affects(walk[at], subdir),
    ensures
        lower_bound_of(start, true) == start.parents@[0]@,
        has_id(resolved(subdir, start, true, walk), start.id@),
{
    lemma_resolved_are_touching_candidates(subdir, start, true, walk);
    lemma_candidates_come_from_walk(start, true, walk, walk[at]);
    assert(walk.contains(walk[at]));
    assert(candidates(start, true, walk).contains(walk[at]));
}

/// Where the start commit is a root, is asked for and touches the
/// subdirectory, it is in the resolved list, though no walk yields it.
pub proof fn lemma_root_start_is_resolved(
    subdir: Seq<char>,
    start: WalkedCommit,
    walk: Seq<WalkedCommit>,
)
    requires
        start.parents@.len() == 0,
        affects(start, subdir),
    ensures
        lower_bound_of(start, true) == start.id@,
        has_id(resolved(subdir, start, true, walk), start.id@),
{
    lemma_resolved_are_touching_candidates(subdir, start, true, walk);
    lemma_candidates_come_from_walk(start, true, walk, start);
    assert(candidates(start, true, walk).contains(start));
}

/// Every resolved commit touches the subdirectory and was yielded by the
/// walk, but for the start commit where that is a root and asked for: a
/// commit that the walk leaves out, such as one reached only through a
/// second parent in a first-parent walk, is never resolved.
pub proof fn lemma_resolved_only_from_walk(
    subdir: Seq<char>,
    start: WalkedCommit,
    include_start: bool,
    walk: Seq<WalkedCommit>,
    id: Seq<char>,
)
    requires
        !has_id(walk, id),
        !(synthesizes_root(start, include_start) && id == start.id@),
    ensures
        !has_id(resolved(subdir, start, include_start, walk), id),
{
    lemma_resolved_are_touching_candidates(subdir, start, include_start, walk);
    let out = resolved(subdir, start, include_start, walk);
    if has_id(out, id) {
        let c = choose|c: WalkedCommit| #[trigger]
            candidates(start, include_start, walk).contains(c) && c.id@ == id && affects(
                c,
                subdir,
            );
        lemma_candidates_come_from_walk(start, include_start, walk, c);
        lemma_has_id_by_member(walk, id);
    }
}

/// Every walked commit that touches the subdirectory and is not the lower
/// bound is in the resolved list.
pub proof fn lemma_touching_walked_commit_is_resolved(
    subdir: Seq<char>,
    start: WalkedCommit,
    include_start: bool,
    walk: Seq<WalkedCommit>,
    at: int,
)
    requires
        0 <= at < walk.len(),
        walk[at].id@ != lower_bound_of(start, include_start),
        affects(walk[at], subdir),
    ensures
        has_id(resolved(subdir, start, include_start, walk), walk[at].id@),
{
    lemma_resolved_are_touching_candidates(subdir, start, include_start, walk);
    lemma_candidates_come_from_walk(start, include_start, walk, walk[at]);
    assert(walk.contains(walk[at]));
    assert(candidates(start, include_start, walk).contains(walk[at]));
}

/// How many of `walk` change something under `subdir`, and how many of
/// those are merges.
pub fn count_touching(walk: &Vec<WalkedCommit>, subdir: &str) -> (counts: (usize, usize))
    ensures
        counts.0 == walk@.filter(touching(subdir@)).len(),
        counts.1 == walk@.filter(merge_touching(subdir@)).len(),
{
    let mut total: usize = 0;
    let mut merges: usize = 0;
    let mut i: usize = 0;
    proof {
        reveal(Seq::filter);
    }
    while i < walk.len()
        invariant
            i <= walk.len(),
            total == walk@.take(i as int).filter(touching(subdir@)).len(),
            merges == walk@.take(i as int).filter(merge_touching(subdir@)).len(),
            total <= i,
            merges <= i,
        decreases walk.len() - i,
    {
        proof {
            walk@.lemma_take_succ_push(i as int);
            walk@.take(i as int).lemma_filter_push(walk@[i as int], touching(subdir@));
            walk@.take(i as int).lemma_filter_push(walk@[i as int], merge_touching(subdir@));
        }
        if commit_affects(&walk[i], subdir) {
            total += 1;
            if walk[i].parents.len() > 1 {
                merges += 1;
            }
        }
        i += 1;
    }
    proof {
        assert(walk@.take(walk.len() as int) == walk@);
    }
    (total, merges)
}

} // verus!
