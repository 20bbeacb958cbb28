//! Committing the whole wiki.
//!
//! Everything in the working tree is staged and committed, unless nothing has
//! changed. Staging trusts what the index remembers of unchanged files. Where
//! the index remembers an object that is gone, no tree can be written from it;
//! then the index is cleared and every file is hashed again, once.

use crate::git::{
    cli_may_help, map_git_err, should_try_commit_cli_fallback, GitAdapter, GitFailure, WikiError,
    COMMIT_AUTHOR_EMAIL, COMMIT_AUTHOR_NAME,
};
use crate::text::same_text;
use vstd::prelude::*;

verus! {

/// What the repository's head points at.
#[derive(Debug)]
pub enum HeadState {
    /// There is no head to read.
    Missing,
    /// There is a head, but it points at no commit.
    Unborn,
    /// A commit, and its tree, where the commit can be read.
    At { commit: String, tree: Option<String> },
}

/// What to do next to commit.
#[derive(Debug)]
pub enum CommitAction {
    /// Open the repository.
    OpenRepository,
    /// Read its index.
    ReadIndex,
    /// Bring the index in line with the working tree, and count the paths that
    /// this touches.
    StageWorkingTree,
    /// Write the index to disk.
    WriteIndex,
    /// Write the index as a tree.
    WriteTree,
    /// Drop every entry of the index.
    ClearIndex,
    /// Read the head, and whether the index is empty.
    ReadHead,
    /// Commit a tree under this message and this identity.
    Commit {
        tree: String,
        parent: Option<String>,
        message: String,
        name: &'static str,
        email: &'static str,
    },
    /// There is nothing to commit.
    Clean,
    /// The commit was made.
    Committed(String),
    /// Try again with the git command, under this message.
    UseCommand { original: GitFailure, message: String },
    /// Give up.
    Fail(WikiError),
}

/// What came of it.
#[derive(Debug)]
pub enum CommitEvent {
    /// It was done.
    Done,
    /// The working tree was staged.
    Staged { touched: usize },
    /// A tree was written.
    TreeWritten { tree: String },
    /// The head was read.
    HeadRead { head: HeadState, index_is_empty: bool },
    /// The commit was made.
    CommitMade { commit: String },
    /// The git library failed.
    Failed(GitFailure),
}

/// How far a commit has come. Once the index has been cleared, every file is
/// being hashed again.
#[derive(Debug)]
pub enum CommitStep {
    Opening,
    ReadingIndex,
    Staging { cleared: bool },
    WritingIndex { cleared: bool },
    WritingTree { cleared: bool },
    ClearingIndex,
    ReadingHead { tree: String },
    Committing,
    Over,
}

/// Whether the head already is at the given tree.
pub open spec fn head_is_at(head: HeadState, tree: Seq<char>) -> bool {
    match head {
        HeadState::At { tree: Some(current), .. } => current@ == tree,
        _ => false,
    }
}

/// Whether there is nothing to commit: the head is at the tree already, or the
/// repository is fresh and nothing is staged.
pub open spec fn nothing_to_commit(head: HeadState, index_is_empty: bool, tree: Seq<char>) -> bool {
    head_is_at(head, tree) || (head is Missing && index_is_empty)
}

/// The commit that the next one follows.
pub open spec fn parent_of(head: HeadState) -> Option<String> {
    match head {
        HeadState::At { commit, .. } => Some(commit),
        _ => None,
    }
}

/// Whether `event` can come of what `step` asked for.
pub open spec fn commit_expects(step: CommitStep, event: CommitEvent) -> bool {
    match event {
        CommitEvent::Failed(_) => !(step is Over || step is ReadingHead),
        CommitEvent::Done => step is Opening || step is ReadingIndex || step is WritingIndex
            || step is ClearingIndex,
        CommitEvent::Staged { .. } => step is Staging,
        CommitEvent::TreeWritten { .. } => step is WritingTree,
        CommitEvent::HeadRead { .. } => step is ReadingHead,
        CommitEvent::CommitMade { .. } => step is Committing,
    }
}

/// Commit a tree under ai-memory's own identity.
pub open spec fn commit_action(
    tree: String,
    parent: Option<String>,
    message: String,
) -> CommitAction {
    CommitAction::Commit {
        tree,
        parent,
        message,
        name: COMMIT_AUTHOR_NAME,
        email: COMMIT_AUTHOR_EMAIL,
    }
}

/// What follows a failure of the git library at `step`.
pub open spec fn after_failure(
    step: CommitStep,
    e: GitFailure,
    windows: bool,
    message: String,
) -> (CommitStep, CommitAction) {
    match step {
        CommitStep::WritingTree { cleared: false } => (
            CommitStep::ClearingIndex,
            CommitAction::ClearIndex,
        ),
        CommitStep::Opening => if windows && cli_may_help(e, windows) {
            (CommitStep::Over, CommitAction::UseCommand { original: e, message })
        } else {
            (CommitStep::Over, CommitAction::Fail(WikiError::Io(e.text)))
        },
        _ => (CommitStep::Over, CommitAction::Fail(WikiError::Io(e.text))),
    }
}

/// What follows `event` at `step`.
pub open spec fn commit_next(
    step: CommitStep,
    event: CommitEvent,
    windows: bool,
    message: String,
) -> (CommitStep, CommitAction) {
    match (step, event) {
        (_, CommitEvent::Failed(e)) => after_failure(step, e, windows, message),
        (CommitStep::Opening, _) => (CommitStep::ReadingIndex, CommitAction::ReadIndex),
        (CommitStep::ReadingIndex, _) => (
            CommitStep::Staging { cleared: false },
            CommitAction::StageWorkingTree,
        ),
        (CommitStep::Staging { cleared }, CommitEvent::Staged { touched }) => if touched > 0 {
            (CommitStep::WritingIndex { cleared }, CommitAction::WriteIndex)
        } else {
            (CommitStep::WritingTree { cleared }, CommitAction::WriteTree)
        },
        (CommitStep::WritingIndex { cleared }, _) => (
            CommitStep::WritingTree { cleared },
            CommitAction::WriteTree,
        ),
        (CommitStep::ClearingIndex, _) => (
            CommitStep::Staging { cleared: true },
            CommitAction::StageWorkingTree,
        ),
        (CommitStep::WritingTree { .. }, CommitEvent::TreeWritten { tree }) => (
            CommitStep::ReadingHead { tree },
            CommitAction::ReadHead,
        ),
        (CommitStep::ReadingHead { tree }, CommitEvent::HeadRead { head, index_is_empty }) => if
        nothing_to_commit(head, index_is_empty, tree@) {
            (CommitStep::Over, CommitAction::Clean)
        } else {
            (CommitStep::Committing, commit_action(tree, parent_of(head), message))
        },
        (CommitStep::Committing, CommitEvent::CommitMade { commit }) => (
            CommitStep::Over,
            CommitAction::Committed(commit),
        ),
        // Nothing else is expected.
        _ => (CommitStep::Over, CommitAction::Clean),
    }
}

/// A commit that is being made.
#[derive(Debug)]
pub struct CommitRun {
    message: String,
    windows: bool,
    step: CommitStep,
}

impl CommitRun {
    pub closed spec fn spec_message(self) -> String {
        self.message
    }

    pub closed spec fn spec_windows(self) -> bool {
        self.windows
    }

    pub closed spec fn spec_step(self) -> CommitStep {
        self.step
    }

    /// Whether `event` can come of what was asked for last.
    pub fn expects(&self, event: &CommitEvent) -> (expected: bool)
        ensures
            expected == commit_expects(self.spec_step(), *event),
    {
        match event {
            CommitEvent::Failed(_) => !matches!(
                self.step,
                CommitStep::Over | CommitStep::ReadingHead { .. }
            ),
            CommitEvent::Done => matches!(
                self.step,
                CommitStep::Opening
                    | CommitStep::ReadingIndex
                    | CommitStep::WritingIndex { .. }
                    | CommitStep::ClearingIndex
            ),
            CommitEvent::Staged { .. } => matches!(self.step, CommitStep::Staging { .. }),
            CommitEvent::TreeWritten { .. } => matches!(self.step, CommitStep::WritingTree { .. }),
            CommitEvent::HeadRead { .. } => matches!(self.step, CommitStep::ReadingHead { .. }),
            CommitEvent::CommitMade { .. } => matches!(self.step, CommitStep::Committing),
        }
    }

    /// Go on, now that `event` has come of what was asked for last.
    pub fn next(self, event: CommitEvent) -> (step: (CommitRun, CommitAction))
        requires
            commit_expects(self.spec_step(), event),
        ensures
            step.0.spec_message() == self.spec_message(),
            step.0.spec_windows() == self.spec_windows(),
            (step.0.spec_step(), step.1) == commit_next(
                self.spec_step(),
                event,
                self.spec_windows(),
                self.spec_message(),
            ),
    {
        let message = self.message;
        let windows = self.windows;
        let (step, action) = match (self.step, event) {
            (CommitStep::WritingTree { cleared: false }, CommitEvent::Failed(_)) => (
                CommitStep::ClearingIndex,
                CommitAction::ClearIndex,
            ),
            (CommitStep::Opening, CommitEvent::Failed(e)) => {
                if windows && should_try_commit_cli_fallback(&e, windows) {
                    (
                        CommitStep::Over,
                        CommitAction::UseCommand { original: e, message: message.clone() },
                    )
                } else {
                    (CommitStep::Over, CommitAction::Fail(map_git_err(e)))
                }
            },
            (_, CommitEvent::Failed(e)) => (CommitStep::Over, CommitAction::Fail(map_git_err(e))),
            (CommitStep::Opening, _) => (CommitStep::ReadingIndex, CommitAction::ReadIndex),
            (CommitStep::ReadingIndex, _) => (
                CommitStep::Staging { cleared: false },
                CommitAction::StageWorkingTree,
            ),
            (CommitStep::Staging { cleared }, CommitEvent::Staged { touched }) => {
                if touched > 0 {
                    (CommitStep::WritingIndex { cleared }, CommitAction::WriteIndex)
                } else {
                    (CommitStep::WritingTree { cleared }, CommitAction::WriteTree)
                }
            },
            (CommitStep::WritingIndex { cleared }, _) => (
                CommitStep::WritingTree { cleared },
                CommitAction::WriteTree,
            ),
            (CommitStep::ClearingIndex, _) => (
                CommitStep::Staging { cleared: true },
                CommitAction::StageWorkingTree,
            ),
            (CommitStep::WritingTree { .. }, CommitEvent::TreeWritten { tree }) => (
                CommitStep::ReadingHead { tree },
                CommitAction::ReadHead,
            ),
            (CommitStep::ReadingHead { tree }, CommitEvent::HeadRead { head, index_is_empty }) => {
                let (unchanged, parent) = match head {
                    HeadState::Missing => (index_is_empty, None),
                    HeadState::Unborn => (false, None),
                    HeadState::At { commit, tree: Some(current) } => (
                        same_text(current.as_str(), tree.as_str()),
                        Some(commit),
                    ),
                    HeadState::At { commit, tree: None } => (false, Some(commit)),
                };
                if unchanged {
                    (CommitStep::Over, CommitAction::Clean)
                } else {
                    (
                        CommitStep::Committing,
                        CommitAction::Commit {
                            tree,
                            parent,
                            message: message.clone(),
                            name: COMMIT_AUTHOR_NAME,
                            email: COMMIT_AUTHOR_EMAIL,
                        },
                    )
                }
            },
            (CommitStep::Committing, CommitEvent::CommitMade { commit }) => (
                CommitStep::Over,
                CommitAction::Committed(commit),
            ),
            _ => (CommitStep::Over, CommitAction::Clean),
        };
        (CommitRun { message, windows, step }, action)
    }
}

impl GitAdapter {
    /// Stage *everything* in the wiki root, then commit with `message`: what to
    /// do first. The run ends in `Clean` if there were no changes to commit, and
    /// in `Committed` on a successful commit.
    pub fn commit_all(&self, message: &str, windows: bool) -> (step: (CommitRun, CommitAction))
        ensures
            step.0.spec_message()@ == message@,
            step.0.spec_windows() == windows,
            step.0.spec_step() is Opening,
            step.1 is OpenRepository,
    {
        (
            CommitRun { message: message.to_string(), windows, step: CommitStep::Opening },
            CommitAction::OpenRepository,
        )
    }
}

// ---------------------------------------------------------------------------
// What holds of every commit
// ---------------------------------------------------------------------------

/// How many steps are left at most.
pub open spec fn steps_left(step: CommitStep) -> nat {
    match step {
        CommitStep::Opening => 11,
        CommitStep::ReadingIndex => 10,
        CommitStep::Staging { cleared: false } => 9,
        CommitStep::WritingIndex { cleared: false } => 8,
        CommitStep::WritingTree { cleared: false } => 7,
        CommitStep::ClearingIndex => 6,
        CommitStep::Staging { cleared: true } => 5,
        CommitStep::WritingIndex { cleared: true } => 4,
        CommitStep::WritingTree { cleared: true } => 3,
        CommitStep::ReadingHead { .. } => 2,
        CommitStep::Committing => 1,
        CommitStep::Over => 0,
    }
}

/// The actions that a run asks for from `step` on, if `events` come of them.
/// What cannot come of an action ends the run.
pub open spec fn commit_trace(
    step: CommitStep,
    events: Seq<CommitEvent>,
    windows: bool,
    message: String,
) -> Seq<CommitAction>
    decreases events.len(),
{
    if events.len() == 0 || !commit_expects(step, events.first()) {
        Seq::empty()
    } else {
        let next = commit_next(step, events.first(), windows, message);
        seq![next.1] + commit_trace(next.0, events.drop_first(), windows, message)
    }
}

/// Every commit comes to an end: whatever happens on the way, it asks for no
/// more actions than it has steps left.
pub proof fn a_commit_ends(step: CommitStep, events: Seq<CommitEvent>, windows: bool, message: String)
    ensures
        commit_trace(step, events, windows, message).len() <= steps_left(step) <= 11,
    decreases events.len(),
{
    if events.len() > 0 && commit_expects(step, events.first()) {
        let next = commit_next(step, events.first(), windows, message);
        a_commit_ends(next.0, events.drop_first(), windows, message);
    }
}

/// Once the index has been cleared, it is not cleared again.
proof fn lemma_no_clearing_after_one(step: CommitStep, events: Seq<CommitEvent>, windows: bool, message: String)
    requires
        steps_left(step) <= 6,
    ensures
        forall|i: int|
            0 <= i < commit_trace(step, events, windows, message).len() ==> !((#[trigger] commit_trace(
                step,
                events,
                windows, message)[i]) is ClearIndex),
    decreases events.len(),
{
    if events.len() > 0 && commit_expects(step, events.first()) {
        let next = commit_next(step, events.first(), windows, message);
        let rest = commit_trace(next.0, events.drop_first(), windows, message);
        lemma_no_clearing_after_one(next.0, events.drop_first(), windows, message);
        assert forall|i: int|
            0 <= i < commit_trace(step, events, windows, message).len() implies !((#[trigger] commit_trace(
            step,
            events,
            windows, message)[i]) is ClearIndex) by {
            if i > 0 {
                assert(commit_trace(step, events, windows, message)[i] == rest[i - 1]);
            }
        }
    }
}

/// Every file is hashed again at most once: no commit clears the index twice.
pub proof fn a_commit_clears_the_index_at_most_once(
    step: CommitStep,
    events: Seq<CommitEvent>,
    windows: bool,
    message: String,
)
    ensures
        forall|i: int, j: int|
            0 <= i < j < commit_trace(step, events, windows, message).len() && (#[trigger] commit_trace(
                step,
                events,
                windows, message)[i]) is ClearIndex ==> !((#[trigger] commit_trace(step, events, windows, message)[j]) is
                ClearIndex),
    decreases events.len(),
{
    let trace = commit_trace(step, events, windows, message);
    if events.len() > 0 && commit_expects(step, events.first()) {
        let next = commit_next(step, events.first(), windows, message);
        let rest = commit_trace(next.0, events.drop_first(), windows, message);
        a_commit_clears_the_index_at_most_once(next.0, events.drop_first(), windows, message);
        assert forall|i: int, j: int|
            0 <= i < j < trace.len() && (#[trigger] trace[i]) is ClearIndex implies !((
        #[trigger] trace[j]) is ClearIndex) by {
            assert(trace[j] == rest[j - 1]);
            if i == 0 {
                lemma_no_clearing_after_one(next.0, events.drop_first(), windows, message);
            } else {
                assert(trace[i] == rest[i - 1]);
            }
        }
    }
}

/// A commit is made exactly of what has changed: a tree is committed only if
/// the head is not at it and there is something to commit, on top of what the
/// head is at; and a run ends as clean only if there is nothing to commit.
pub proof fn only_changes_are_committed(step: CommitStep, event: CommitEvent, windows: bool, message: String)
    requires
        commit_expects(step, event),
    ensures
        (match commit_next(step, event, windows, message).1 {
            CommitAction::Commit { tree, parent, .. } => {
                &&& step == (CommitStep::ReadingHead { tree })
                &&& event is HeadRead
                &&& !nothing_to_commit(event->head, event->index_is_empty, tree@)
                &&& parent == parent_of(event->head)
            },
            CommitAction::Clean => {
                &&& step is ReadingHead
                &&& event is HeadRead
                &&& nothing_to_commit(event->head, event->index_is_empty, step->tree@)
            },
            _ => true,
        }),
{
}

/// The index is written to disk only if staging touched something.
pub proof fn a_clean_tree_leaves_the_index_alone(
    step: CommitStep,
    event: CommitEvent,
    windows: bool,
    message: String,
)
    requires
        commit_expects(step, event),
    ensures
        commit_next(step, event, windows, message).1 is WriteIndex ==> event is Staged && event->touched
            > 0,
{
}

/// Every commit is made under ai-memory's own identity and under the message
/// that was asked for; the git command is given the same message.
pub proof fn a_commit_is_signed_by_ai_memory(
    step: CommitStep,
    event: CommitEvent,
    windows: bool,
    message: String,
)
    requires
        commit_expects(step, event),
    ensures
        (match commit_next(step, event, windows, message).1 {
            CommitAction::Commit { message: given, name, email, .. } => {
                &&& given == message
                &&& name@ == COMMIT_AUTHOR_NAME@
                &&& email@ == COMMIT_AUTHOR_EMAIL@
            },
            CommitAction::UseCommand { message: given, .. } => given == message,
            _ => true,
        }),
{
}

/// The step that a commit is at after the first `n` of `events`.
pub open spec fn commit_at(
    step: CommitStep,
    events: Seq<CommitEvent>,
    windows: bool,
    message: String,
    n: nat,
) -> CommitStep
    decreases n,
{
    if n == 0 {
        step
    } else {
        let earlier = commit_at(step, events, windows, message, (n - 1) as nat);
        commit_next(earlier, events[n - 1], windows, message).0
    }
}

/// Leaving the first event out leaves the later steps as they are.
proof fn lemma_commit_at_shifts(
    step: CommitStep,
    events: Seq<CommitEvent>,
    windows: bool,
    message: String,
    n: nat,
)
    requires
        n < events.len(),
    ensures
        commit_at(step, events, windows, message, n + 1) == commit_at(
            commit_next(step, events[0], windows, message).0,
            events.drop_first(),
            windows,
            message,
            n,
        ),
    decreases n,
{
    reveal_with_fuel(commit_at, 2);
    if n > 0 {
        lemma_commit_at_shifts(step, events, windows, message, (n - 1) as nat);
        assert(events.drop_first()[n - 1] == events[n as int]);
    }
}

/// Each action of a trace follows its event, at the step that was reached.
proof fn lemma_commit_trace(
    step: CommitStep,
    events: Seq<CommitEvent>,
    windows: bool,
    message: String,
    i: nat,
)
    requires
        i < commit_trace(step, events, windows, message).len(),
    ensures
        commit_trace(step, events, windows, message).len() <= events.len(),
        commit_expects(commit_at(step, events, windows, message, i), events[i as int]),
        commit_trace(step, events, windows, message)[i as int] == commit_next(
            commit_at(step, events, windows, message, i),
            events[i as int],
            windows,
            message,
        ).1,
        commit_at(step, events, windows, message, i + 1) == commit_next(
            commit_at(step, events, windows, message, i),
            events[i as int],
            windows,
            message,
        ).0,
    decreases events.len(),
{
    let next = commit_next(step, events.first(), windows, message);
    let rest = events.drop_first();
    if commit_trace(next.0, rest, windows, message).len() > 0 {
        lemma_commit_trace(
            next.0,
            rest,
            windows,
            message,
            if i > 0 {
                (i - 1) as nat
            } else {
                0
            },
        );
    }
    if i > 0 {
        lemma_commit_at_shifts(step, events, windows, message, (i - 1) as nat);
        assert(rest[i - 1] == events[i as int]);
    }
}

/// What a whole commit does, of whatever length: each `Commit` in it is of the
/// tree that was just written, on top of the head that was just read, under the
/// message that was asked for and ai-memory's own identity, and only where
/// there is something to commit; and a commit is reported only right behind one,
/// as the last thing, under the name that was given to it.
pub proof fn a_whole_commit(events: Seq<CommitEvent>, windows: bool, message: String, i: int)
    requires
        0 <= i < commit_trace(CommitStep::Opening, events, windows, message).len(),
    ensures
        ({
            let trace = commit_trace(CommitStep::Opening, events, windows, message);
            &&& trace[i] is Commit ==> {
                &&& i >= 1 && events[i - 1] is TreeWritten && events[i] is HeadRead
                &&& trace[i] == commit_action(
                    events[i - 1]->TreeWritten_tree,
                    parent_of(events[i]->head),
                    message,
                )
                &&& !nothing_to_commit(
                    events[i]->head,
                    events[i]->index_is_empty,
                    events[i - 1]->TreeWritten_tree@,
                )
            }
            &&& trace[i] is Clean ==> {
                &&& i >= 1 && events[i - 1] is TreeWritten && events[i] is HeadRead
                &&& nothing_to_commit(
                    events[i]->head,
                    events[i]->index_is_empty,
                    events[i - 1]->TreeWritten_tree@,
                )
                &&& i == trace.len() - 1
            }
            &&& trace[i] is Committed ==> {
                &&& i >= 1 && trace[i - 1] is Commit
                &&& events[i] is CommitMade
                &&& trace[i] == CommitAction::Committed(events[i]->commit)
                &&& i == trace.len() - 1
            }
        }),
{
    let start = CommitStep::Opening;
    lemma_commit_trace(start, events, windows, message, i as nat);
    if i >= 1 {
        lemma_commit_trace(start, events, windows, message, (i - 1) as nat);
    }
    if i + 1 < commit_trace(start, events, windows, message).len() {
        lemma_commit_trace(start, events, windows, message, (i + 1) as nat);
    }
}

/// A whole commit commits at most once, and no tree is written behind that.
pub proof fn a_commit_commits_at_most_once(
    events: Seq<CommitEvent>,
    windows: bool,
    message: String,
    i: int,
    j: int,
)
    requires
        0 <= i < j < commit_trace(CommitStep::Opening, events, windows, message).len(),
        commit_trace(CommitStep::Opening, events, windows, message)[i] is Commit,
    ensures
        j == i + 1,
        commit_trace(CommitStep::Opening, events, windows, message)[j] is Committed
            || commit_trace(CommitStep::Opening, events, windows, message)[j] is Fail,
{
    let start = CommitStep::Opening;
    lemma_commit_trace(start, events, windows, message, i as nat);
    lemma_commit_trace(start, events, windows, message, (i + 1) as nat);
    if j > i + 1 {
        lemma_commit_trace(start, events, windows, message, (i + 2) as nat);
    }
}

/// A second commit is clean: once a tree has been committed, a commit that
/// writes the same tree and finds the head at it commits nothing. If it comes as
/// far as reading the head, it ends there, as clean.
pub proof fn a_second_commit_is_clean(
    first: Seq<CommitEvent>,
    second: Seq<CommitEvent>,
    windows: bool,
    first_message: String,
    second_message: String,
    k: int,
)
    requires
        0 <= k < commit_trace(CommitStep::Opening, first, windows, first_message).len(),
        commit_trace(CommitStep::Opening, first, windows, first_message)[k] is Commit,
        ({
            let tree = commit_trace(
                CommitStep::Opening,
                first,
                windows,
                first_message,
            )[k]->Commit_tree@;
            forall|m: int|
                0 <= m < second.len() ==> {
                    &&& (#[trigger] second[m]) is TreeWritten ==> second[m]->TreeWritten_tree@
                        == tree
                    &&& second[m] is HeadRead ==> head_is_at(second[m]->head, tree)
                }
        }),
    ensures
        ({
            let trace = commit_trace(CommitStep::Opening, second, windows, second_message);
            forall|i: int|
                0 <= i < trace.len() ==> {
                    &&& !((#[trigger] trace[i]) is Commit)
                    &&& !(trace[i] is Committed)
                    &&& second[i] is HeadRead ==> trace[i] is Clean && i == trace.len() - 1
                }
        }),
{
    let start = CommitStep::Opening;
    let trace = commit_trace(start, second, windows, second_message);
    assert forall|i: int| 0 <= i < trace.len() implies {
        &&& !((#[trigger] trace[i]) is Commit)
        &&& !(trace[i] is Committed)
        &&& second[i] is HeadRead ==> trace[i] is Clean && i == trace.len() - 1
    } by {
        lemma_commit_trace(start, second, windows, second_message, i as nat);
        if i >= 1 {
            lemma_commit_trace(start, second, windows, second_message, (i - 1) as nat);
            a_whole_commit(second, windows, second_message, i - 1);
        }
        a_whole_commit(second, windows, second_message, i);
        if i + 1 < trace.len() {
            lemma_commit_trace(start, second, windows, second_message, (i + 1) as nat);
        }
    }
}

} // verus!
