//! The replay of the selected commits, as a machine of states.
//!
//! The engine decides; the caller acts. The caller asks what to do next,
//! makes and applies the patch of one commit with the version-control tool,
//! and reports what became of it. The engine counts, says which events go
//! to the front end, and stops the run at the first patch that does not
//! apply. In a dry run nothing is asked of the caller.

use crate::error::{message_of, SyncError};
use crate::git::CommitInfo;
use crate::patch::AbortOutcome;
use crate::text::join;
use vstd::prelude::*;

verus! {

/// The counters of a run.
#[derive(Debug, Clone, Copy, PartialEq, Eq, Structural)]
pub struct SyncStats {
    /// The commits selected for the run.
    pub total_commits: usize,
    /// The commits whose patch became a commit of the target.
    pub synced_commits: usize,
    /// The commits whose patch held nothing.
    pub skipped_commits: usize,
}

impl Default for SyncStats {
    fn default() -> (stats: SyncStats)
        ensures
            stats.total_commits == 0,
            stats.synced_commits == 0,
            stats.skipped_commits == 0,
    {
        SyncStats { total_commits: 0, synced_commits: 0, skipped_commits: 0 }
    }
}

/// What the engine tells the front end.
#[derive(Debug, Clone, PartialEq, Eq)]
pub enum SyncEvent {
    /// One commit was dealt with.
    Progress { current: usize, total: usize, subject: String, status: String },
    /// Every commit was dealt with.
    Completed(SyncStats),
    /// The run stopped.
    Error(String),
}

/// What the engine needs to know of the run.
#[derive(Debug, Clone)]
pub struct SyncConfig {
    /// The subdirectory of the source whose history is replayed.
    pub subdir: String,
}

/// The engine of a run.
pub struct SyncEngine {
    config: SyncConfig,
    dry_run: bool,
}

/// What became of replaying one commit.
#[derive(Debug, Clone, PartialEq, Eq)]
pub enum ReplayOutcome {
    /// The patch became a commit of the target.
    Applied,
    /// The patch held nothing: the commit is skipped.
    EmptyPatch,
    /// No patch could be made; the tool's own words.
    GenerationFailed(String),
    /// The patch did not apply; the tool's own words.
    Conflict(String),
    /// The tool could not be run at all, to apply the patch where `applying`
    /// says so and to make it where not; why.
    ToolNotRun { applying: bool, words: String },
}

/// Where a run stands.
#[derive(Debug, Clone, PartialEq, Eq)]
pub enum RunState {
    /// The next commit can be dealt with.
    Running,
    /// A patch did not apply, with these words; its replay is still to be
    /// given up.
    Aborting(String),
    /// Every commit was dealt with.
    Completed,
    /// The run stopped on an error.
    Failed(SyncError),
}

/// A run under way.
#[derive(Debug, Clone, PartialEq, Eq)]
pub struct SyncRun {
    pub stats: SyncStats,
    pub state: RunState,
    /// A replay that did not apply could not be given up: the target is
    /// still in the middle of it.
    pub apply_pending: bool,
}

/// What the caller is to do next.
#[derive(Debug, Clone, Copy, PartialEq, Eq, Structural)]
pub enum SyncAction {
    /// Make and apply the patch of the commit at `index` of the selection,
    /// and report with `record`.
    Replay { index: usize },
    /// Count the commit at `index` of the selection as synced without
    /// touching the target: call `preview`.
    Preview { index: usize },
    /// Give up the replay that did not apply, and report with
    /// `record_abort`.
    AbortApply,
    /// Nothing: the run is over.
    Stop,
}

impl SyncRun {
    /// How many commits were dealt with.
    pub open spec fn done(self) -> int {
        self.stats.synced_commits + self.stats.skipped_commits
    }

    /// The counters agree with the state: what was dealt with was synced or
    /// skipped and is no more than what was selected; a run that goes on
    /// has a commit left; a completed run has dealt with all.
    pub open spec fn wf(self) -> bool {
        &&& self.done() <= self.stats.total_commits
        &&& self.state is Running ==> self.done() < self.stats.total_commits
        &&& self.state is Completed ==> self.done() == self.stats.total_commits
        &&& self.apply_pending ==> self.state is Failed
    }

    /// Whether the counters agree with the state.
    pub fn is_well_formed(&self) -> (ok: bool)
        ensures
            ok == self.wf(),
    {
        let total = self.stats.total_commits;
        if self.stats.synced_commits > total || self.stats.skipped_commits > total
            - self.stats.synced_commits {
            return false;
        }
        let done = self.stats.synced_commits + self.stats.skipped_commits;
        let failed = match &self.state {
            RunState::Failed(_) => true,
            _ => false,
        };
        let fits = match &self.state {
            RunState::Running => done < total,
            RunState::Completed => done == total,
            _ => true,
        };
        fits && (failed || !self.apply_pending)
    }

    /// The run is over.
    pub open spec fn over(self) -> bool {
        self.state is Completed || self.state is Failed
    }

    /// The run at its start, over `total` commits.
    pub open spec fn begun(total: usize) -> SyncRun {
        SyncRun {
            stats: SyncStats { total_commits: total, synced_commits: 0, skipped_commits: 0 },
            state: if total == 0 {
                RunState::Completed
            } else {
                RunState::Running
            },
            apply_pending: false,
        }
    }

    /// The state after one more commit was dealt with.
    pub open spec fn state_after_one(self) -> RunState {
        if self.done() + 1 == self.stats.total_commits {
            RunState::Completed
        } else {
            RunState::Running
        }
    }

    /// The run after one more commit was counted as synced.
    pub open spec fn synced_one(self) -> SyncRun {
        SyncRun {
            stats: SyncStats {
                synced_commits: (self.stats.synced_commits + 1) as usize,
                ..self.stats
            },
            state: self.state_after_one(),
            apply_pending: self.apply_pending,
        }
    }

    /// The run after one more commit was counted as skipped.
    pub open spec fn skipped_one(self) -> SyncRun {
        SyncRun {
            stats: SyncStats {
                skipped_commits: (self.stats.skipped_commits + 1) as usize,
                ..self.stats
            },
            state: self.state_after_one(),
            apply_pending: self.apply_pending,
        }
    }

    /// The run after `outcome` was reported for its next commit. A run that
    /// is not running takes no report: it stays as it is.
    pub open spec fn after(self, outcome: ReplayOutcome) -> SyncRun {
        if !(self.state is Running) {
            self
        } else {
            match outcome {
                ReplayOutcome::Applied => self.synced_one(),
                ReplayOutcome::EmptyPatch => self.skipped_one(),
                ReplayOutcome::GenerationFailed(words) => SyncRun {
                    state: RunState::Failed(SyncError::PatchGenerationFailed(words)),
                    ..self
                },
                ReplayOutcome::Conflict(words) => SyncRun {
                    state: RunState::Aborting(words),
                    ..self
                },
                ReplayOutcome::ToolNotRun { applying, words } => SyncRun {
                    state: RunState::Failed(SyncError::Io(words)),
                    ..self
                },
            }
        }
    }

    /// The run after the reports `outcomes`, in their order.
    pub open spec fn after_all(self, outcomes: Seq<ReplayOutcome>) -> SyncRun
        decreases outcomes.len(),
    {
        if outcomes.len() == 0 {
            self
        } else {
            self.after_all(outcomes.drop_last()).after(outcomes.last())
        }
    }

    /// The run after the attempt to give up the replay that did not apply.
    pub open spec fn after_abort(self, outcome: AbortOutcome) -> SyncRun {
        match self.state {
            RunState::Aborting(words) => SyncRun {
                stats: self.stats,
                state: RunState::Failed(SyncError::PatchConflict(words)),
                apply_pending: outcome is Failed,
            },
            _ => self,
        }
    }
}

/// The status shown for a commit that was only previewed.
pub open spec fn status_preview() -> Seq<char> {
    "PREVIEW"@
}

/// The status shown for a commit whose patch applied.
pub open spec fn status_applied() -> Seq<char> {
    "OK"@
}

/// The status shown for a commit that was skipped.
pub open spec fn status_skipped() -> Seq<char> {
    "EMPTY (SKIPPED)"@
}

/// The words of the event that reports a commit for which no patch could
/// be made.
pub open spec fn generation_failure_text(id: Seq<char>, error: SyncError) -> Seq<char> {
    "生成补丁失败 "@ + id + ": "@ + message_of(error)
}

/// The words of the event that reports a commit whose patch did not apply.
pub open spec fn replay_failure_text(id: Seq<char>, error: SyncError) -> Seq<char> {
    "同步提交失败 "@ + id + ": "@ + message_of(error)
}

/// `event` reports progress up to `current` of `total`, for `subject`, with
/// `status`.
pub open spec fn is_progress(
    event: SyncEvent,
    current: int,
    total: int,
    subject: Seq<char>,
    status: Seq<char>,
) -> bool {
    match event {
        SyncEvent::Progress { current: c, total: t, subject: s, status: st } => c == current && t
            == total && s@ == subject && st@ == status,
        _ => false,
    }
}

/// `events` are what goes out after one more commit was dealt with: its
/// progress, and behind it the completion where it was the last.
pub open spec fn progress_events(
    events: Seq<SyncEvent>,
    before: SyncRun,
    now: SyncRun,
    subject: Seq<char>,
    status: Seq<char>,
) -> bool {
    &&& events.len() == if now.state is Completed {
        2int
    } else {
        1int
    }
    &&& is_progress(events[0], before.done() + 1, before.stats.total_commits as int, subject, status)
    &&& now.state is Completed ==> events[1] == SyncEvent::Completed(now.stats)
}

/// `events` is one error event with the words `words`.
pub open spec fn error_event(events: Seq<SyncEvent>, words: Seq<char>) -> bool {
    events.len() == 1 && (events[0] matches SyncEvent::Error(w) && w@ == words)
}

impl SyncEngine {
    /// An engine for `config`; with `dry_run` it touches nothing.
    pub fn new(config: SyncConfig, dry_run: bool) -> (engine: SyncEngine)
        ensures
            engine.config() == config,
            engine.is_dry_run() == dry_run,
    {
        SyncEngine { config, dry_run }
    }

    /// What the engine knows of the run.
    pub closed spec fn config(self) -> SyncConfig {
        self.config
    }

    /// Whether the engine touches nothing.
    pub closed spec fn is_dry_run(self) -> bool {
        self.dry_run
    }

    /// The subdirectory whose history is replayed.
    pub fn subdir(&self) -> (subdir: &str)
        ensures
            subdir@ == self.config().subdir@,
    {
        self.config.subdir.as_str()
    }

    /// Whether the engine touches nothing.
    pub fn dry_run(&self) -> (dry: bool)
        ensures
            dry == self.is_dry_run(),
    {
        self.dry_run
    }

    /// Starts a run over `total` commits. A run over none is complete at
    /// once, and says so.
    pub fn start(&self, total: usize) -> (begun: (SyncRun, Vec<SyncEvent>))
        ensures
            begun.0 == SyncRun::begun(total),
            begun.0.wf(),
            total == 0 ==> begun.1@ == seq![SyncEvent::Completed(begun.0.stats)],
            total > 0 ==> begun.1@.len() == 0,
    {
        let stats = SyncStats { total_commits: total, synced_commits: 0, skipped_commits: 0 };
        let mut events: Vec<SyncEvent> = Vec::new();
        if total == 0 {
            events.push(SyncEvent::Completed(stats));
            (SyncRun { stats, state: RunState::Completed, apply_pending: false }, events)
        } else {
            (SyncRun { stats, state: RunState::Running, apply_pending: false }, events)
        }
    }

    /// What the caller is to do next.
    pub fn next_action(&self, run: &SyncRun) -> (action: SyncAction)
        requires
            run.wf(),
        ensures
            match run.state {
                RunState::Running => if self.is_dry_run() {
                    action == (SyncAction::Preview { index: run.done() as usize })
                } else {
                    action == (SyncAction::Replay { index: run.done() as usize })
                },
                RunState::Aborting(_) => action == SyncAction::AbortApply,
                _ => action == SyncAction::Stop,
            },
            action matches SyncAction::Replay { index } ==> index < run.stats.total_commits,
            action matches SyncAction::Preview { index } ==> index < run.stats.total_commits,
    {
        match &run.state {
            RunState::Running => {
                let index = run.stats.synced_commits + run.stats.skipped_commits;
                if self.dry_run {
                    SyncAction::Preview { index }
                } else {
                    SyncAction::Replay { index }
                }
            },
            RunState::Aborting(_) => SyncAction::AbortApply,
            _ => SyncAction::Stop,
        }
    }

    /// The events that go out once `run` has dealt with one more commit.
    fn progress(before: &SyncRun, now: &SyncRun, commit: &CommitInfo, status: &str) -> (events:
        Vec<SyncEvent>)
        requires
            before.done() < before.stats.total_commits,
        ensures
            progress_events(events@, *before, *now, commit.subject@, status@),
    {
        let mut events: Vec<SyncEvent> = Vec::new();
        events.push(
            SyncEvent::Progress {
                current: before.stats.synced_commits + before.stats.skipped_commits + 1,
                total: before.stats.total_commits,
                subject: commit.subject.clone(),
                status: String::from_str(status),
            },
        );
        match &now.state {
            RunState::Completed => {
                events.push(SyncEvent::Completed(now.stats));
            },
            _ => {},
        }
        events
    }

    /// Counts the next commit of a dry run as synced, without any work on
    /// the target.
    pub fn preview(&self, run: &mut SyncRun, commit: &CommitInfo) -> (events: Vec<SyncEvent>)
        requires
            old(run).wf(),
            old(run).state is Running,
        ensures
            *final(run) == old(run).synced_one(),
            final(run).wf(),
            progress_events(events@, *old(run), *final(run), commit.subject@, status_preview()),
    {
        let before = SyncRun {
            stats: run.stats,
            state: RunState::Running,
            apply_pending: run.apply_pending,
        };
        run.stats.synced_commits = run.stats.synced_commits + 1;
        if run.stats.synced_commits + run.stats.skipped_commits == run.stats.total_commits {
            run.state = RunState::Completed;
        }
        Self::progress(&before, run, commit, "PREVIEW")
    }

    /// Takes the report of what became of replaying the next commit.
    ///
    /// A patch that applied counts as synced, one that held nothing as
    /// skipped, and the run goes on or is complete. A patch that could not
    /// be made, and a tool that could not be run, stop the run. A patch that
    /// did not apply changes no counter and leaves the run waiting for its
    /// replay to be given up.
    pub fn record(&self, run: &mut SyncRun, commit: &CommitInfo, outcome: ReplayOutcome) -> (events:
        Vec<SyncEvent>)
        requires
            old(run).wf(),
            old(run).state is Running,
        ensures
            *final(run) == old(run).after(outcome),
            final(run).wf(),
            match outcome {
                ReplayOutcome::Applied => progress_events(
                    events@,
                    *old(run),
                    *final(run),
                    commit.subject@,
                    status_applied(),
                ),
                ReplayOutcome::EmptyPatch => progress_events(
                    events@,
                    *old(run),
                    *final(run),
                    commit.subject@,
                    status_skipped(),
                ),
                ReplayOutcome::GenerationFailed(words) => error_event(
                    events@,
                    generation_failure_text(
                        commit.id@,
                        SyncError::PatchGenerationFailed(words),
                    ),
                ),
                ReplayOutcome::Conflict(_) => events@.len() == 0,
                ReplayOutcome::ToolNotRun { applying, words } => error_event(
                    events@,
                    if applying {
                        replay_failure_text(commit.id@, SyncError::Io(words))
                    } else {
                        generation_failure_text(commit.id@, SyncError::Io(words))
                    },
                ),
            },
    {
        let before = SyncRun {
            stats: run.stats,
            state: RunState::Running,
            apply_pending: run.apply_pending,
        };
        match outcome {
            ReplayOutcome::Applied => {
                run.stats.synced_commits = run.stats.synced_commits + 1;
                if run.stats.synced_commits + run.stats.skipped_commits
                    == run.stats.total_commits {
                    run.state = RunState::Completed;
                }
                Self::progress(&before, run, commit, "OK")
            },
            ReplayOutcome::EmptyPatch => {
                run.stats.skipped_commits = run.stats.skipped_commits + 1;
                if run.stats.synced_commits + run.stats.skipped_commits
                    == run.stats.total_commits {
                    run.state = RunState::Completed;
                }
                Self::progress(&before, run, commit, "EMPTY (SKIPPED)")
            },
            ReplayOutcome::GenerationFailed(words) => {
                let error = SyncError::PatchGenerationFailed(words);
                let line = failure_line("生成补丁失败 ", commit.id.as_str(), &error);
                run.state = RunState::Failed(error);
                let mut events: Vec<SyncEvent> = Vec::new();
                events.push(SyncEvent::Error(line));
                events
            },
            ReplayOutcome::Conflict(words) => {
                run.state = RunState::Aborting(words);
                Vec::new()
            },
            ReplayOutcome::ToolNotRun { applying, words } => {
                let error = SyncError::Io(words);
                let heading = if applying {
                    "同步提交失败 "
                } else {
                    "生成补丁失败 "
                };
                let line = failure_line(heading, commit.id.as_str(), &error);
                run.state = RunState::Failed(error);
                let mut events: Vec<SyncEvent> = Vec::new();
                events.push(SyncEvent::Error(line));
                events
            },
        }
    }

    /// Takes the report of the attempt to give up the replay that did not
    /// apply. The run has failed with the conflict either way; where the
    /// replay could not be given up, the run remembers that it is pending.
    pub fn record_abort(&self, run: &mut SyncRun, commit: &CommitInfo, outcome: AbortOutcome) -> (events:
        Vec<SyncEvent>)
        requires
            old(run).wf(),
            old(run).state is Aborting,
        ensures
            *final(run) == old(run).after_abort(outcome),
            final(run).wf(),
            final(run).stats == old(run).stats,
            error_event(
                events@,
                replay_failure_text(
                    commit.id@,
                    SyncError::PatchConflict(old(run).state->Aborting_0),
                ),
            ),
    {
        let words = match &run.state {
            RunState::Aborting(words) => words.clone(),
            _ => String::new(),
        };
        let error = SyncError::PatchConflict(words);
        let line = failure_line("同步提交失败 ", commit.id.as_str(), &error);
        run.state = RunState::Failed(error);
        run.apply_pending = match outcome {
            AbortOutcome::Failed(_) => true,
            _ => false,
        };
        let mut events: Vec<SyncEvent> = Vec::new();
        events.push(SyncEvent::Error(line));
        events
    }

    /// How the run ended: its counters where it is complete, its error
    /// where it failed, `None` while it is under way.
    pub fn result(&self, run: &SyncRun) -> (ended: Option<Result<SyncStats, SyncError>>)
        ensures
            match run.state {
                RunState::Completed => ended == Some(Ok::<SyncStats, SyncError>(run.stats)),
                RunState::Failed(e) => ended == Some(Err::<SyncStats, SyncError>(e)),
                _ => ended is None,
            },
    {
        match &run.state {
            RunState::Completed => Some(Ok(run.stats)),
            RunState::Failed(e) => Some(Err(duplicate_error(e))),
            _ => None,
        }
    }
}

/// `heading`, the commit, a colon and the line of the error.
fn failure_line(heading: &str, id: &str, error: &SyncError) -> (line: String)
    ensures
        line@ == heading@ + id@ + ": "@ + message_of(*error),
{
    let mut line = join(heading, id);
    line.append(": ");
    let message = error.message();
    line.append(message.as_str());
    line
}

/// A second value of the same error.
pub fn duplicate_error(error: &SyncError) -> (copy: SyncError)
    ensures
        copy == *error,
{
    match error {
        SyncError::Git(m) => SyncError::Git(m.clone()),
        SyncError::Io(m) => SyncError::Io(m.clone()),
        SyncError::Other(m) => SyncError::Other(m.clone()),
        SyncError::InvalidCommit(m) => SyncError::InvalidCommit(m.clone()),
        SyncError::PathNotFound(m) => SyncError::PathNotFound(m.clone()),
        SyncError::NotARepository(m) => SyncError::NotARepository(m.clone()),
        SyncError::DirtyRepository(m) => SyncError::DirtyRepository(m.clone()),
        SyncError::EmptyPatch => SyncError::EmptyPatch,
        SyncError::PatchConflict(m) => SyncError::PatchConflict(m.clone()),
        SyncError::BranchNotFound(m) => SyncError::BranchNotFound(m.clone()),
        SyncError::PatchGenerationFailed(m) => SyncError::PatchGenerationFailed(m.clone()),
    }
}

/// A report changes the counters by one commit at most, and keeps them in
/// step with the state: an empty patch adds to the skipped commits alone,
/// an applied one to the synced commits alone, and a patch that could not be
/// made or did not apply adds to none.
pub proof fn lemma_report_counts_once(run: SyncRun, outcome: ReplayOutcome)
    requires
        run.wf(),
    ensures
        run.after(outcome).wf(),
        run.after(outcome).stats.total_commits == run.stats.total_commits,
        run.state is Running && outcome is EmptyPatch ==> {
            &&& run.after(outcome).stats.skipped_commits == run.stats.skipped_commits + 1
            &&& run.after(outcome).stats.synced_commits == run.stats.synced_commits
            &&& !(run.after(outcome).state is Failed)
        },
        run.state is Running && outcome is Applied ==> {
            &&& run.after(outcome).stats.synced_commits == run.stats.synced_commits + 1
            &&& run.after(outcome).stats.skipped_commits == run.stats.skipped_commits
        },
        outcome is Conflict || outcome is GenerationFailed || outcome is ToolNotRun ==> {
            &&& run.after(outcome).stats == run.stats
            &&& !(run.after(outcome).state is Running)
        },
{
}

/// Once a patch did not apply, no later report changes a counter: the
/// counters stay what they were before the conflict.
pub proof fn lemma_conflict_halts(
    run: SyncRun,
    before: Seq<ReplayOutcome>,
    words: String,
    later: Seq<ReplayOutcome>,
)
    requires
        run.wf(),
    ensures
        run.after_all(before.push(ReplayOutcome::Conflict(words)) + later).stats == run.after_all(
            before,
        ).stats,
        !(run.after_all(before.push(ReplayOutcome::Conflict(words)) + later).state is Running),
    decreases later.len(),
{
    let halted = before.push(ReplayOutcome::Conflict(words));
    if later.len() == 0 {
        assert(halted + later =~= halted);
        assert(halted.drop_last() =~= before);
    } else {
        lemma_conflict_halts(run, before, words, later.drop_last());
        assert((halted + later).drop_last() =~= halted + later.drop_last());
    }
}

/// Whatever is reported, a run stays well formed: what was dealt with is
/// synced or skipped, never more than was selected, and a completed run has
/// dealt with every selected commit.
pub proof fn lemma_run_stays_balanced(total: usize, outcomes: Seq<ReplayOutcome>)
    ensures
        SyncRun::begun(total).after_all(outcomes).wf(),
        SyncRun::begun(total).after_all(outcomes).stats.total_commits == total,
        SyncRun::begun(total).after_all(outcomes).state is Completed ==> total
            == SyncRun::begun(total).after_all(outcomes).stats.synced_commits
            + SyncRun::begun(total).after_all(outcomes).stats.skipped_commits,
    decreases outcomes.len(),
{
    if outcomes.len() > 0 {
        lemma_run_stays_balanced(total, outcomes.drop_last());
        lemma_report_counts_once(
            SyncRun::begun(total).after_all(outcomes.drop_last()),
            outcomes.last(),
        );
    }
}

} // verus!
