//! The front end as a machine of states: what a key press and an event of
//! the engine do to what is shown. Drawing, reading keys and starting the
//! replay are the caller's part; what it is to do comes back as an effect.

use crate::config::Config;
use crate::error::{message_of, SyncError};
use crate::git::CommitInfo;
use crate::sync::{SyncEvent, SyncStats};
use crate::text::{decimal, decimal_digits, join};
use vstd::prelude::*;

verus! {

/// The screen that is shown.
#[derive(Debug, Clone, Copy, PartialEq, Eq, Structural)]
pub enum AppState {
    ConfigReview,
    FileSelection,
    Progress,
    Confirmation,
    Completed,
}

/// What the user is asked to confirm.
#[derive(Debug, Clone, Copy, PartialEq, Eq, Structural)]
pub enum ConfirmationAction {
    CreateBranch,
    StashChanges,
    IncludeStart,
    ExcludeMerges,
    SyncDelete,
    ExecuteSync,
}

/// A key press, as far as the front end tells keys apart.
#[derive(Debug, Clone, Copy, PartialEq, Eq, Structural)]
pub enum Key {
    Enter,
    Esc,
    Up,
    Down,
    Char(char),
    Other,
}

/// What the caller is to do after a key press.
#[derive(Debug, Clone, PartialEq, Eq)]
pub enum KeyEffect {
    /// Nothing but to draw again.
    Nothing,
    /// Resolve the commits and hand them to `commits_loaded`.
    LoadCommits,
    /// Ask the user this question and hand the answer to
    /// `confirmation_answered`.
    Confirm(String),
}

/// What is shown and selected.
#[derive(Debug)]
pub struct App {
    pub state: AppState,
    pub config: Config,
    pub commits: Vec<CommitInfo>,
    /// For each commit, whether it is selected for the replay.
    pub selected_commits: Vec<bool>,
    pub current_confirmation: Option<ConfirmationAction>,
    /// How many commits the replay has dealt with, of `progress_total`.
    pub progress_current: usize,
    pub progress_total: usize,
    pub status_message: String,
    pub current_tab: usize,
    /// The commit under the cursor.
    pub cursor: Option<usize>,
    pub should_quit: bool,
    pub confirmation_result: Option<bool>,
    pub loaded_changes: bool,
    pub sync_stats: Option<SyncStats>,
}

/// Is selected.
pub open spec fn chosen() -> spec_fn(bool) -> bool {
    |flag: bool| flag
}

/// The cursor one commit further down a list of `len`, back at the top
/// after the last.
pub open spec fn cursor_after(cursor: Option<usize>, len: usize) -> Option<usize> {
    match cursor {
        Some(i) => if i + 1 < len {
            Some((i + 1) as usize)
        } else {
            Some(0)
        },
        None => Some(0),
    }
}

/// The cursor one commit further up a list of `len`, at the bottom after
/// the first.
pub open spec fn cursor_before(cursor: Option<usize>, len: usize) -> Option<usize> {
    match cursor {
        Some(i) => if i == 0 {
            if len == 0 {
                Some(0)
            } else {
                Some((len - 1) as usize)
            }
        } else {
            Some((i - 1) as usize)
        },
        None => Some(0),
    }
}

/// The key leaves the program.
pub open spec fn quits(key: Key) -> bool {
    key == Key::Esc || key == Key::Char('q')
}

/// The question asked for `action`.
pub open spec fn question(action: ConfirmationAction) -> Seq<char> {
    match action {
        ConfirmationAction::ExecuteSync => "确定要执行同步操作吗？"@,
        ConfirmationAction::CreateBranch => "是否创建新分支？"@,
        ConfirmationAction::StashChanges => "是否自动 Stash 变更？"@,
        ConfirmationAction::IncludeStart => "是否包含起始 commit 的变更？"@,
        ConfirmationAction::ExcludeMerges => "是否排除 merge 引入的变更？"@,
        ConfirmationAction::SyncDelete => "是否同步删除操作？"@,
    }
}

/// The line shown while a commit is dealt with.
pub open spec fn progress_line(status: Seq<char>, subject: Seq<char>) -> Seq<char> {
    "["@ + status + "] "@ + subject
}

/// The line shown when the replay is complete.
pub open spec fn completion_line(stats: SyncStats) -> Seq<char> {
    "同步完成: 总计 "@ + decimal_digits(stats.total_commits as nat) + ", 同步 "@ + decimal_digits(
        stats.synced_commits as nat,
    ) + ", 跳过 "@ + decimal_digits(stats.skipped_commits as nat)
}

/// The line shown when the replay failed.
pub open spec fn failure_line(words: Seq<char>) -> Seq<char> {
    "同步失败: "@ + words
}

/// The question asked for `action`.
pub fn get_confirmation_message(action: &ConfirmationAction, _config: &Config) -> (message: Result<
    String,
    SyncError,
>)
    ensures
        message is Ok,
        message->Ok_0@ == question(*action),
{
    match action {
        ConfirmationAction::ExecuteSync => Ok(String::from_str("确定要执行同步操作吗？")),
        ConfirmationAction::CreateBranch => Ok(String::from_str("是否创建新分支？")),
        ConfirmationAction::StashChanges => Ok(String::from_str("是否自动 Stash 变更？")),
        ConfirmationAction::IncludeStart => Ok(String::from_str("是否包含起始 commit 的变更？")),
        ConfirmationAction::ExcludeMerges => Ok(String::from_str("是否排除 merge 引入的变更？")),
        ConfirmationAction::SyncDelete => Ok(String::from_str("是否同步删除操作？")),
    }
}

impl App {
    /// The front end at its start: the settings are shown, and
    /// nothing is loaded or selected.
    pub fn new(config: Config) -> (app: App)
        ensures
            app.state == AppState::ConfigReview,
            app.config == config,
            app.commits@.len() == 0,
            app.selected_commits@.len() == 0,
            app.current_confirmation is None,
            app.progress_current == 0,
            app.progress_total == 0,
            app.status_message@.len() == 0,
            app.current_tab == 0,
            app.cursor is None,
            !app.should_quit,
            app.confirmation_result is None,
            !app.loaded_changes,
            app.sync_stats is None,
            app.wf(),
    {
        App {
            state: AppState::ConfigReview,
            config,
            commits: Vec::new(),
            selected_commits: Vec::new(),
            current_confirmation: None,
            progress_current: 0,
            progress_total: 0,
            status_message: String::new(),
            current_tab: 0,
            cursor: None,
            should_quit: false,
            confirmation_result: None,
            loaded_changes: false,
            sync_stats: None,
        }
    }

    /// There is one selection flag for each commit.
    pub open spec fn wf(self) -> bool {
        self.selected_commits@.len() == self.commits@.len()
    }

    /// How many commits are selected.
    pub open spec fn selected_count(self) -> nat {
        self.selected_commits@.filter(chosen()).len()
    }

    /// Everything but the cursor, the selection, the screen and the quit
    /// flag is as in `other`.
    pub open spec fn same_content(self, other: App) -> bool {
        &&& self.config == other.config
        &&& self.commits == other.commits
        &&& self.progress_current == other.progress_current
        &&& self.progress_total == other.progress_total
        &&& self.status_message == other.status_message
        &&& self.current_tab == other.current_tab
        &&& self.confirmation_result == other.confirmation_result
        &&& self.loaded_changes == other.loaded_changes
        &&& self.sync_stats == other.sync_stats
    }

    /// Shows `commits`, all of them selected.
    pub fn set_commits(&mut self, commits: Vec<CommitInfo>)
        ensures
            final(self).commits == commits,
            final(self).selected_commits@ == Seq::new(commits@.len(), |i: int| true),
            final(self).wf(),
            final(self).state == old(self).state,
            final(self).config == old(self).config,
            final(self).cursor == old(self).cursor,
            final(self).should_quit == old(self).should_quit,
            final(self).status_message == old(self).status_message,
            final(self).loaded_changes == old(self).loaded_changes,
            final(self).current_confirmation == old(self).current_confirmation,
            final(self).sync_stats == old(self).sync_stats,
    {
        let count = commits.len();
        let mut flags: Vec<bool> = Vec::new();
        while flags.len() < count
            invariant
                flags@.len() <= count,
                forall|i: int| 0 <= i < flags@.len() ==> flags@[i],
            decreases count - flags.len(),
        {
            flags.push(true);
        }
        assert(flags@ =~= Seq::new(commits@.len(), |i: int| true));
        self.commits = commits;
        self.selected_commits = flags;
    }

    /// Moves the cursor one commit down, to the top after the last.
    pub fn next(&mut self)
        ensures
            final(self).cursor == cursor_after(old(self).cursor, old(self).commits.len()),
            final(self).same_content(*old(self)),
            final(self).selected_commits == old(self).selected_commits,
            final(self).state == old(self).state,
            final(self).should_quit == old(self).should_quit,
            final(self).current_confirmation == old(self).current_confirmation,
    {
        let i = match self.cursor {
            Some(i) => {
                if i < usize::MAX && i + 1 < self.commits.len() {
                    i + 1
                } else {
                    0
                }
            },
            None => 0,
        };
        self.cursor = Some(i);
    }

    /// Moves the cursor one commit up, to the bottom after the first.
    pub fn previous(&mut self)
        ensures
            final(self).cursor == cursor_before(old(self).cursor, old(self).commits.len()),
            final(self).same_content(*old(self)),
            final(self).selected_commits == old(self).selected_commits,
            final(self).state == old(self).state,
            final(self).should_quit == old(self).should_quit,
            final(self).current_confirmation == old(self).current_confirmation,
    {
        let i = match self.cursor {
            Some(i) => {
                if i == 0 {
                    if self.commits.len() == 0 {
                        0
                    } else {
                        self.commits.len() - 1
                    }
                } else {
                    i - 1
                }
            },
            None => 0,
        };
        self.cursor = Some(i);
    }

    /// Selects the commit under the cursor if it is not selected, and the
    /// other way round. Without a commit under the cursor nothing changes.
    pub fn toggle_commit_selection(&mut self)
        ensures
            match old(self).cursor {
                Some(i) if i < old(self).selected_commits@.len() => final(self).selected_commits@
                    == old(self).selected_commits@.update(
                    i as int,
                    !old(self).selected_commits@[i as int],
                ),
                _ => final(self).selected_commits == old(self).selected_commits,
            },
            final(self).cursor == old(self).cursor,
            final(self).same_content(*old(self)),
            final(self).state == old(self).state,
            final(self).should_quit == old(self).should_quit,
            final(self).current_confirmation == old(self).current_confirmation,
    {
        match self.cursor {
            Some(i) => {
                if i < self.selected_commits.len() {
                    let flag = self.selected_commits[i];
                    self.selected_commits.set(i, !flag);
                }
            },
            None => {},
        }
    }

    /// Sets every selection flag to `flag`.
    fn fill_selection(&mut self, flag: bool)
        ensures
            final(self).selected_commits@ == Seq::new(
                old(self).selected_commits@.len(),
                |i: int| flag,
            ),
            final(self).cursor == old(self).cursor,
            final(self).same_content(*old(self)),
            final(self).state == old(self).state,
            final(self).should_quit == old(self).should_quit,
            final(self).current_confirmation == old(self).current_confirmation,
    {
        let count = self.selected_commits.len();
        let mut i: usize = 0;
        while i < count
            invariant
                i <= count,
                self.selected_commits@.len() == count,
                forall|k: int| 0 <= k < i ==> self.selected_commits@[k] == flag,
                self.cursor == old(self).cursor,
                self.same_content(*old(self)),
                self.state == old(self).state,
                self.should_quit == old(self).should_quit,
                self.current_confirmation == old(self).current_confirmation,
            decreases count - i,
        {
            self.selected_commits.set(i, flag);
            i += 1;
        }
        assert(self.selected_commits@ =~= Seq::new(count as nat, |i: int| flag));
    }

    /// Selects every commit.
    pub fn select_all(&mut self)
        ensures
            final(self).selected_commits@ == Seq::new(
                old(self).selected_commits@.len(),
                |i: int| true,
            ),
            final(self).cursor == old(self).cursor,
            final(self).same_content(*old(self)),
            final(self).state == old(self).state,
            final(self).should_quit == old(self).should_quit,
            final(self).current_confirmation == old(self).current_confirmation,
    {
        self.fill_selection(true);
    }

    /// Selects no commit.
    pub fn deselect_all(&mut self)
        ensures
            final(self).selected_commits@ == Seq::new(
                old(self).selected_commits@.len(),
                |i: int| false,
            ),
            final(self).cursor == old(self).cursor,
            final(self).same_content(*old(self)),
            final(self).state == old(self).state,
            final(self).should_quit == old(self).should_quit,
            final(self).current_confirmation == old(self).current_confirmation,
    {
        self.fill_selection(false);
    }

    /// How many commits are selected.
    pub fn get_selected_count(&self) -> (count: usize)
        ensures
            count == self.selected_count(),
    {
        let mut count: usize = 0;
        let mut i: usize = 0;
        proof {
            reveal(Seq::filter);
        }
        while i < self.selected_commits.len()
            invariant
                i <= self.selected_commits@.len(),
                count == self.selected_commits@.take(i as int).filter(chosen()).len(),
                count <= i,
            decreases self.selected_commits.len() - i,
        {
            proof {
                self.selected_commits@.lemma_take_succ_push(i as int);
                self.selected_commits@.take(i as int).lemma_filter_push(
                    self.selected_commits@[i as int],
                    chosen(),
                );
            }
            if self.selected_commits[i] {
                count += 1;
            }
            i += 1;
        }
        proof {
            assert(self.selected_commits@.take(self.selected_commits@.len() as int)
                == self.selected_commits@);
        }
        count
    }

    /// The commits that are selected, in the order shown: what the replay is
    /// started with.
    pub fn selected_for_sync(&self) -> (picked: Vec<CommitInfo>)
        requires
            self.wf(),
        ensures
            picked@ == picked_of(self.commits@, self.selected_commits@),
    {
        let mut picked: Vec<CommitInfo> = Vec::new();
        let mut i: usize = 0;
        while i < self.commits.len()
            invariant
                i <= self.commits@.len(),
                self.wf(),
                picked@ == picked_of(self.commits@.take(i as int), self.selected_commits@),
            decreases self.commits.len() - i,
        {
            proof {
                self.commits@.lemma_take_succ_push(i as int);
                assert(self.commits@.take(i + 1).drop_last() == self.commits@.take(i as int));
            }
            if self.selected_commits[i] {
                picked.push(self.commits[i].duplicate());
            }
            i += 1;
        }
        proof {
            assert(self.commits@.take(self.commits@.len() as int) == self.commits@);
        }
        picked
    }
}

/// The commits among the first of `commits` whose flag in `flags` is set,
/// in their order.
pub open spec fn picked_of(commits: Seq<CommitInfo>, flags: Seq<bool>) -> Seq<CommitInfo>
    decreases commits.len(),
{
    if commits.len() == 0 {
        commits
    } else if commits.len() <= flags.len() && flags[commits.len() - 1] {
        picked_of(commits.drop_last(), flags).push(commits.last())
    } else {
        picked_of(commits.drop_last(), flags)
    }
}

/// What a key press does.
///
/// On the settings screen Enter leads on to the selection. The first key on
/// the selection screen has the commits loaded. After that the arrows move
/// the cursor, space selects or deselects the commit under it, `a` selects
/// all and `A` none, and Enter asks for confirmation if anything is
/// selected. On the confirmation screen any key has the question asked.
/// Escape and `q` leave the program from every screen but that one, and
/// Enter does at the end.
pub fn handle_key_event(app: &mut App, key: Key) -> (effect: Result<KeyEffect, SyncError>)
    ensures
        effect is Ok,
        final(app).config == old(app).config,
        final(app).commits == old(app).commits,
        final(app).loaded_changes == old(app).loaded_changes,
        final(app).sync_stats == old(app).sync_stats,
        match old(app).state {
            AppState::ConfigReview => {
                &&& effect->Ok_0 is Nothing
                &&& final(app).state == if key == Key::Enter {
                    AppState::FileSelection
                } else {
                    AppState::ConfigReview
                }
                &&& final(app).should_quit == (old(app).should_quit || quits(key))
                &&& final(app).cursor == old(app).cursor
                &&& final(app).selected_commits == old(app).selected_commits
            },
            AppState::FileSelection => if !old(app).loaded_changes {
                &&& effect->Ok_0 is LoadCommits
                &&& final(app).state == AppState::FileSelection
                &&& final(app).status_message@ == "正在加载提交历史..."@
                &&& final(app).should_quit == old(app).should_quit
                &&& final(app).cursor == old(app).cursor
                &&& final(app).selected_commits == old(app).selected_commits
            } else {
                &&& effect->Ok_0 is Nothing
                &&& final(app).should_quit == (old(app).should_quit || quits(key))
                &&& final(app).cursor == match key {
                    Key::Up => cursor_before(old(app).cursor, old(app).commits.len()),
                    Key::Down => cursor_after(old(app).cursor, old(app).commits.len()),
                    _ => old(app).cursor,
                }
                &&& key == Key::Enter && old(app).selected_count() > 0 ==> final(app).state
                    == AppState::Confirmation && final(app).current_confirmation == Some(
                    ConfirmationAction::ExecuteSync,
                )
                &&& !(key == Key::Enter && old(app).selected_count() > 0) ==> final(app).state
                    == AppState::FileSelection && final(app).current_confirmation
                    == old(app).current_confirmation
                &&& match key {
                    Key::Char(' ') => match old(app).cursor {
                        Some(i) if i < old(app).selected_commits@.len() => final(app)
                            .selected_commits@ == old(app).selected_commits@.update(
                            i as int,
                            !old(app).selected_commits@[i as int],
                        ),
                        _ => final(app).selected_commits == old(app).selected_commits,
                    },
                    Key::Char('a') => final(app).selected_commits@ == Seq::new(
                        old(app).selected_commits@.len(),
                        |i: int| true,
                    ),
                    Key::Char('A') => final(app).selected_commits@ == Seq::new(
                        old(app).selected_commits@.len(),
                        |i: int| false,
                    ),
                    _ => final(app).selected_commits == old(app).selected_commits,
                }
            },
            AppState::Confirmation => {
                &&& final(app).state == AppState::Confirmation
                &&& final(app).should_quit == old(app).should_quit
                &&& final(app).cursor == old(app).cursor
                &&& final(app).selected_commits == old(app).selected_commits
                &&& final(app).current_confirmation == old(app).current_confirmation
                &&& match old(app).current_confirmation {
                    Some(action) => (effect->Ok_0 matches KeyEffect::Confirm(q) && q@ == question(
                        action,
                    )),
                    None => effect->Ok_0 is Nothing,
                }
            },
            AppState::Progress => {
                &&& effect->Ok_0 is Nothing
                &&& final(app).state == AppState::Progress
                &&& final(app).should_quit == (old(app).should_quit || quits(key))
                &&& final(app).cursor == old(app).cursor
                &&& final(app).selected_commits == old(app).selected_commits
            },
            AppState::Completed => {
                &&& effect->Ok_0 is Nothing
                &&& final(app).state == AppState::Completed
                &&& final(app).should_quit == (old(app).should_quit || quits(key) || key
                    == Key::Enter)
                &&& final(app).cursor == old(app).cursor
                &&& final(app).selected_commits == old(app).selected_commits
            },
        },
{
    match app.state {
        AppState::ConfigReview => {
            match key {
                Key::Enter => {
                    app.state = AppState::FileSelection;
                },
                Key::Esc => {
                    app.should_quit = true;
                },
                Key::Char(c) => {
                    if c == 'q' {
                        app.should_quit = true;
                    }
                },
                _ => {},
            }
            Ok(KeyEffect::Nothing)
        },
        AppState::FileSelection => {
            if !app.loaded_changes {
                app.status_message = String::from_str("正在加载提交历史...");
                return Ok(KeyEffect::LoadCommits);
            }
            match key {
                Key::Up => {
                    app.previous();
                },
                Key::Down => {
                    app.next();
                },
                Key::Enter => {
                    if app.get_selected_count() > 0 {
                        app.state = AppState::Confirmation;
                        app.current_confirmation = Some(ConfirmationAction::ExecuteSync);
                    }
                },
                Key::Esc => {
                    app.should_quit = true;
                },
                Key::Char(c) => {
                    if c == ' ' {
                        app.toggle_commit_selection();
                    } else if c == 'a' {
                        app.select_all();
                    } else if c == 'A' {
                        app.deselect_all();
                    } else if c == 'q' {
                        app.should_quit = true;
                    }
                },
                Key::Other => {},
            }
            Ok(KeyEffect::Nothing)
        },
        AppState::Confirmation => {
            match &app.current_confirmation {
                Some(action) => match get_confirmation_message(action, &app.config) {
                    Ok(message) => Ok(KeyEffect::Confirm(message)),
                    Err(e) => Err(e),
                },
                None => Ok(KeyEffect::Nothing),
            }
        },
        AppState::Progress => {
            match key {
                Key::Esc => {
                    app.should_quit = true;
                },
                Key::Char(c) => {
                    if c == 'q' {
                        app.should_quit = true;
                    }
                },
                _ => {},
            }
            Ok(KeyEffect::Nothing)
        },
        AppState::Completed => {
            match key {
                Key::Enter => {
                    app.should_quit = true;
                },
                Key::Esc => {
                    app.should_quit = true;
                },
                Key::Char(c) => {
                    if c == 'q' {
                        app.should_quit = true;
                    }
                },
                _ => {},
            }
            Ok(KeyEffect::Nothing)
        },
    }
}

/// Takes the commits that were resolved, or the error that came instead.
///
/// The commits are shown, all selected, with the cursor on the first. With
/// none to show, or on an error, the front end is at its end and says why.
pub fn commits_loaded(app: &mut App, loaded: Result<Vec<CommitInfo>, SyncError>)
    ensures
        final(app).config == old(app).config,
        final(app).should_quit == old(app).should_quit,
        match loaded {
            Ok(commits) => {
                &&& final(app).commits == commits
                &&& final(app).selected_commits@ == Seq::new(commits@.len(), |i: int| true)
                &&& final(app).wf()
                &&& final(app).loaded_changes
                &&& if commits@.len() == 0 {
                    &&& final(app).state == AppState::Completed
                    &&& final(app).status_message@ == "未发现任何相关提交历史"@
                    &&& final(app).cursor == old(app).cursor
                } else {
                    &&& final(app).state == old(app).state
                    &&& final(app).status_message == old(app).status_message
                    &&& final(app).cursor == Some(0usize)
                }
            },
            Err(e) => {
                &&& final(app).state == AppState::Completed
                &&& final(app).status_message@ == "加载提交失败: "@ + message_of(e)
                &&& final(app).commits == old(app).commits
                &&& final(app).selected_commits == old(app).selected_commits
                &&& final(app).loaded_changes == old(app).loaded_changes
                &&& final(app).cursor == old(app).cursor
            },
        },
{
    match loaded {
        Ok(commits) => {
            app.set_commits(commits);
            app.loaded_changes = true;
            if app.commits.len() == 0 {
                app.status_message = String::from_str("未发现任何相关提交历史");
                app.state = AppState::Completed;
            } else {
                app.cursor = Some(0);
            }
        },
        Err(e) => {
            let line = e.message();
            app.status_message = join("加载提交失败: ", line.as_str());
            app.state = AppState::Completed;
        },
    }
}

/// Takes the user's answer to the question asked. Says whether the replay
/// is to be started now: it is where the question was whether to replay and
/// the answer was yes.
pub fn confirmation_answered(app: &mut App, answer: bool) -> (start: bool)
    ensures
        final(app).same_list(*old(app)),
        final(app).current_confirmation is None,
        match old(app).current_confirmation {
            Some(action) => {
                &&& final(app).confirmation_result == Some(answer)
                &&& start == (action == ConfirmationAction::ExecuteSync && answer)
                &&& final(app).state == if action == ConfirmationAction::ExecuteSync {
                    if answer {
                        AppState::Progress
                    } else {
                        AppState::FileSelection
                    }
                } else {
                    old(app).state
                }
            },
            None => {
                &&& !start
                &&& final(app).confirmation_result == old(app).confirmation_result
                &&& final(app).state == old(app).state
            },
        },
{
    let mut start = false;
    match app.current_confirmation {
        Some(action) => {
            app.confirmation_result = Some(answer);
            match action {
                ConfirmationAction::ExecuteSync => {
                    if answer {
                        app.state = AppState::Progress;
                        start = true;
                    } else {
                        app.state = AppState::FileSelection;
                    }
                },
                _ => {},
            }
        },
        None => {},
    }
    app.current_confirmation = None;
    start
}

impl App {
    /// The list, the selection, the cursor, the settings, the status line
    /// and the quit flag are as in `other`.
    pub open spec fn same_list(self, other: App) -> bool {
        &&& self.config == other.config
        &&& self.commits == other.commits
        &&& self.selected_commits == other.selected_commits
        &&& self.cursor == other.cursor
        &&& self.should_quit == other.should_quit
        &&& self.status_message == other.status_message
        &&& self.loaded_changes == other.loaded_changes
        &&& self.sync_stats == other.sync_stats
    }
}

/// Takes an event of the engine: progress moves the bar and names the
/// commit, completion and failure end the replay and say how.
pub fn handle_sync_event(app: &mut App, event: SyncEvent)
    ensures
        final(app).config == old(app).config,
        final(app).commits == old(app).commits,
        final(app).selected_commits == old(app).selected_commits,
        final(app).cursor == old(app).cursor,
        final(app).should_quit == old(app).should_quit,
        match event {
            SyncEvent::Progress { current, total, subject, status } => {
                &&& final(app).progress_current == current
                &&& final(app).progress_total == total
                &&& final(app).status_message@ == progress_line(status@, subject@)
                &&& final(app).state == old(app).state
                &&& final(app).sync_stats == old(app).sync_stats
            },
            SyncEvent::Completed(stats) => {
                &&& final(app).progress_current == stats.total_commits
                &&& final(app).progress_total == stats.total_commits
                &&& final(app).status_message@ == completion_line(stats)
                &&& final(app).state == AppState::Completed
                &&& final(app).sync_stats == Some(stats)
            },
            SyncEvent::Error(words) => {
                &&& final(app).progress_current == old(app).progress_current
                &&& final(app).progress_total == old(app).progress_total
                &&& final(app).status_message@ == failure_line(words@)
                &&& final(app).state == AppState::Completed
                &&& final(app).sync_stats == old(app).sync_stats
            },
        },
{
    match event {
        SyncEvent::Progress { current, total, subject, status } => {
            app.progress_current = current;
            app.progress_total = total;
            let mut line = join("[", status.as_str());
            line.append("] ");
            line.append(subject.as_str());
            app.status_message = line;
        },
        SyncEvent::Completed(stats) => {
            app.progress_current = stats.total_commits;
            app.progress_total = stats.total_commits;
            app.sync_stats = Some(stats);
            let mut line = join("同步完成: 总计 ", decimal(stats.total_commits).as_str());
            line.append(", 同步 ");
            line.append(decimal(stats.synced_commits).as_str());
            line.append(", 跳过 ");
            line.append(decimal(stats.skipped_commits).as_str());
            app.status_message = line;
            app.state = AppState::Completed;
        },
        SyncEvent::Error(words) => {
            app.status_message = join("同步失败: ", words.as_str());
            app.state = AppState::Completed;
        },
    }
}

} // verus!
