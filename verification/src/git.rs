//! Versions of the wiki, kept in a git repository at its root.
//!
//! Reading and writing the repository is left to the caller. What to do next,
//! and what comes out in the end, is decided here.

use crate::text::{contains_text, occurs_in};
use std::path::PathBuf;
use vstd::prelude::*;

verus! {

/// A path of the file system.
#[verifier::external_type_specification]
#[verifier::external_body]
pub struct ExPathBuf(PathBuf);

/// `PathBuf`'s `Clone`: a duplicate of the path.
pub assume_specification[ <PathBuf as Clone>::clone ](path: &PathBuf) -> (copy: PathBuf)
    ensures
        copy == *path,
;

/// An error of the git library.
#[verifier::external_type_specification]
#[verifier::external_body]
pub struct ExGitError(git2::Error);

/// Whether the code of an error of the `git2` crate is that something was not
/// found.
pub uninterp spec fn git_error_not_found(error: git2::Error) -> bool;

/// Whether the class of an error of the `git2` crate is that of the operating
/// system.
pub uninterp spec fn git_error_os(error: git2::Error) -> bool;

/// The message of an error of the `git2` crate.
pub uninterp spec fn git_error_message(error: git2::Error) -> Seq<char>;

/// What the `git2` crate displays for one of its errors.
pub uninterp spec fn git_error_display(error: git2::Error) -> Seq<char>;

/// `git2::Error::code`: whether it is `NotFound`. That is a function of the
/// error.
#[verifier::external_body]
fn is_not_found(error: &git2::Error) -> (not_found: bool)
    ensures
        not_found == git_error_not_found(*error),
{
    matches!(error.code(), git2::ErrorCode::NotFound)
}

/// `git2::Error::class`: whether it is `Os`. That is a function of the error.
#[verifier::external_body]
fn is_os(error: &git2::Error) -> (os: bool)
    ensures
        os == git_error_os(*error),
{
    matches!(error.class(), git2::ErrorClass::Os)
}

/// `git2::Error::message`. The text is a function of the error.
#[verifier::external_body]
fn message_of(error: &git2::Error) -> (text: String)
    ensures
        text@ == git_error_message(*error),
{
    error.message().to_string()
}

/// `git2::Error`'s `Display`. The text is a function of the error.
#[verifier::external_body]
fn display_of(error: &git2::Error) -> (text: String)
    ensures
        text@ == git_error_display(*error),
{
    error.to_string()
}

/// Author identity used for ai-memory's own commits. It is fixed, so that the
/// history of the wiki cannot leak the maintainer's own.
pub const COMMIT_AUTHOR_NAME: &'static str = "ai-memory";

/// Author email used for ai-memory's own commits.
pub const COMMIT_AUTHOR_EMAIL: &'static str = "ai-memory@local";

/// What can go wrong with the wiki.
#[derive(Debug)]
pub enum WikiError {
    /// The file system or the repository failed; the text says how.
    Io(String),
}

/// Result alias used by everything that touches the wiki.
pub type WikiResult<T> = Result<T, WikiError>;

/// A failure that the git library reports.
#[derive(Debug)]
pub struct GitFailure {
    /// Whether its code says that something was not found.
    pub not_found: bool,
    /// Whether it comes from the operating system.
    pub os: bool,
    /// Its message.
    pub message: String,
    /// Its message with what else the library says of it.
    pub text: String,
}

impl From<git2::Error> for GitFailure {
    fn from(value: git2::Error) -> (failure: Self)
        ensures
            failure.not_found == git_error_not_found(value),
            failure.os == git_error_os(value),
            failure.message@ == git_error_message(value),
            failure.text@ == git_error_display(value),
    {
        GitFailure {
            not_found: is_not_found(&value),
            os: is_os(&value),
            message: message_of(&value),
            text: display_of(&value),
        }
    }
}

// Two strings of the same characters need not be the same value, so what
// `from` gives is said by its own postcondition alone.
impl vstd::std_specs::convert::FromSpecImpl<git2::Error> for GitFailure {
    open spec fn obeys_from_spec() -> bool {
        false
    }

    open spec fn from_spec(value: git2::Error) -> Self {
        arbitrary()
    }
}

/// The error that a failure of the git library ends in.
pub fn map_git_err(e: GitFailure) -> (error: WikiError)
    ensures
        error == WikiError::Io(e.text),
{
    WikiError::Io(e.text)
}

/// Whether a repository that does not open may still do so for the git command:
/// where nothing was found, and, on Windows, where the operating system could
/// not resolve the path.
pub open spec fn cli_may_help(e: GitFailure, windows: bool) -> bool {
    e.not_found || (windows && e.os && occurs_in(e.message@, "failed to resolve path"@))
}

/// Whether a repository that does not open may still do so for the git command.
pub fn should_try_commit_cli_fallback(error: &GitFailure, windows: bool) -> (helps: bool)
    ensures
        helps == cli_may_help(*error, windows),
{
    error.not_found || (windows && error.os && contains_text(
        error.message.as_str(),
        "failed to resolve path",
    ))
}

/// Thin handle over the wiki repository. Cheap to clone.
#[derive(Debug)]
pub struct GitAdapter {
    root: PathBuf,
}

impl Clone for GitAdapter {
    fn clone(&self) -> (copy: Self)
        ensures
            copy.spec_root() == self.spec_root(),
    {
        GitAdapter { root: self.root.clone() }
    }
}

// ---------------------------------------------------------------------------
// Opening
// ---------------------------------------------------------------------------

/// What to do next to open a repository.
#[derive(Debug)]
pub enum OpenAction {
    /// Make the directory, and those above it, where they are missing.
    CreateDirectory,
    /// Open the repository in it.
    Open,
    /// Make a repository in it.
    Initialise,
    /// Make a repository in it with the git command.
    InitialiseByCommand,
    /// The repository is there.
    Ready(GitAdapter),
    /// It cannot be had.
    Fail(WikiError),
}

/// What came of it.
#[derive(Debug)]
pub enum OpenEvent {
    /// It was done.
    Done,
    /// The directory could not be made; the text says why.
    NoDirectory(String),
    /// The git library failed.
    Failed(GitFailure),
    /// The git command did not start; the text says why.
    CommandNotStarted(String),
    /// The git command ran, and failed.
    CommandFailed,
}

/// How far opening has come.
#[derive(Debug)]
pub enum OpenStep {
    CreatingDirectory,
    Opening,
    Initialising,
    /// The git command is at it, because the library failed.
    InitialisingByCommand(GitFailure),
}

/// A repository that is being opened.
#[derive(Debug)]
pub struct OpenRun {
    root: PathBuf,
    windows: bool,
    step: OpenStep,
}

/// Whether `event` can come of what `step` asked for.
pub open spec fn open_expects(step: OpenStep, event: OpenEvent) -> bool {
    match event {
        OpenEvent::Done => true,
        OpenEvent::NoDirectory(_) => step is CreatingDirectory,
        OpenEvent::Failed(_) => step is Opening || step is Initialising,
        OpenEvent::CommandNotStarted(_) => step is InitialisingByCommand,
        OpenEvent::CommandFailed => step is InitialisingByCommand,
    }
}

/// What an action says.
pub enum OpenMove {
    CreateDirectory,
    Open,
    Initialise,
    InitialiseByCommand,
    Ready(PathBuf),
    Fail(Seq<char>),
}

impl View for OpenAction {
    type V = OpenMove;

    open spec fn view(&self) -> OpenMove {
        match *self {
            OpenAction::CreateDirectory => OpenMove::CreateDirectory,
            OpenAction::Open => OpenMove::Open,
            OpenAction::Initialise => OpenMove::Initialise,
            OpenAction::InitialiseByCommand => OpenMove::InitialiseByCommand,
            OpenAction::Ready(adapter) => OpenMove::Ready(adapter.spec_root()),
            OpenAction::Fail(WikiError::Io(text)) => OpenMove::Fail(text@),
        }
    }
}

/// What follows `event` at `step`: where opening goes, nowhere once it is over,
/// and what it does. A repository that opens is left alone; one that does not is
/// made.
pub open spec fn open_next(step: OpenStep, event: OpenEvent, windows: bool, root: PathBuf) -> (
    Option<OpenStep>,
    OpenMove,
) {
    match (step, event) {
        (OpenStep::CreatingDirectory, OpenEvent::Done) => (Some(OpenStep::Opening), OpenMove::Open),
        (OpenStep::CreatingDirectory, OpenEvent::NoDirectory(text)) => (
            None,
            OpenMove::Fail(text@),
        ),
        (OpenStep::Opening, OpenEvent::Failed(_)) => (
            Some(OpenStep::Initialising),
            OpenMove::Initialise,
        ),
        (OpenStep::Initialising, OpenEvent::Failed(e)) => if windows {
            (Some(OpenStep::InitialisingByCommand(e)), OpenMove::InitialiseByCommand)
        } else {
            (None, OpenMove::Fail(e.text@))
        },
        (OpenStep::InitialisingByCommand(original), OpenEvent::CommandNotStarted(text)) => (
            None,
            OpenMove::Fail(original.text@ + "; git init fallback failed to start: "@ + text@),
        ),
        (OpenStep::InitialisingByCommand(original), OpenEvent::CommandFailed) => (
            None,
            OpenMove::Fail(original.text@),
        ),
        // The repository opened, or was made.
        _ => (None, OpenMove::Ready(root)),
    }
}

impl OpenRun {
    pub closed spec fn spec_root(self) -> PathBuf {
        self.root
    }

    pub closed spec fn spec_windows(self) -> bool {
        self.windows
    }

    pub closed spec fn spec_step(self) -> OpenStep {
        self.step
    }

    /// Whether `event` can come of what was asked for last.
    pub fn expects(&self, event: &OpenEvent) -> (expected: bool)
        ensures
            expected == open_expects(self.spec_step(), *event),
    {
        match event {
            OpenEvent::Done => true,
            OpenEvent::NoDirectory(_) => matches!(self.step, OpenStep::CreatingDirectory),
            OpenEvent::Failed(_) => matches!(self.step, OpenStep::Opening | OpenStep::Initialising),
            OpenEvent::CommandNotStarted(_) => matches!(
                self.step,
                OpenStep::InitialisingByCommand(_)
            ),
            OpenEvent::CommandFailed => matches!(self.step, OpenStep::InitialisingByCommand(_)),
        }
    }

    /// Go on, now that `event` has come of what was asked for last.
    pub fn next(self, event: OpenEvent) -> (step: (Option<OpenRun>, OpenAction))
        requires
            open_expects(self.spec_step(), event),
        ensures
            ({
                let next = open_next(
                    self.spec_step(),
                    event,
                    self.spec_windows(),
                    self.spec_root(),
                );
                &&& step.1@ == next.1
                &&& step.0 is Some <==> next.0 is Some
                &&& step.0 is Some ==> {
                    &&& step.0->0.spec_step() == next.0->0
                    &&& step.0->0.spec_root() == self.spec_root()
                    &&& step.0->0.spec_windows() == self.spec_windows()
                }
            }),
    {
        let root = self.root;
        let windows = self.windows;
        match (self.step, event) {
            (OpenStep::CreatingDirectory, OpenEvent::Done) => (
                Some(OpenRun { root, windows, step: OpenStep::Opening }),
                OpenAction::Open,
            ),
            (OpenStep::CreatingDirectory, OpenEvent::NoDirectory(text)) => (
                None,
                OpenAction::Fail(WikiError::Io(text)),
            ),
            (OpenStep::Opening, OpenEvent::Failed(_)) => (
                Some(OpenRun { root, windows, step: OpenStep::Initialising }),
                OpenAction::Initialise,
            ),
            (OpenStep::Initialising, OpenEvent::Failed(e)) => {
                if windows {
                    (
                        Some(OpenRun { root, windows, step: OpenStep::InitialisingByCommand(e) }),
                        OpenAction::InitialiseByCommand,
                    )
                } else {
                    (None, OpenAction::Fail(map_git_err(e)))
                }
            },
            (OpenStep::InitialisingByCommand(original), OpenEvent::CommandNotStarted(text)) => {
                let mut message = original.text;
                message.append("; git init fallback failed to start: ");
                message.append(text.as_str());
                (None, OpenAction::Fail(WikiError::Io(message)))
            },
            (OpenStep::InitialisingByCommand(original), OpenEvent::CommandFailed) => (
                None,
                OpenAction::Fail(map_git_err(original)),
            ),
            _ => (None, OpenAction::Ready(GitAdapter { root })),
        }
    }
}

impl GitAdapter {
    /// Where the wiki is.
    pub closed spec fn spec_root(self) -> PathBuf {
        self.root
    }

    /// Open or initialise the repository at `root`: what to do first. If the
    /// directory is already a repository, it is left alone.
    pub fn open_or_init(root: PathBuf, windows: bool) -> (step: (OpenRun, OpenAction))
        ensures
            step.0.spec_root() == root,
            step.0.spec_windows() == windows,
            step.0.spec_step() is CreatingDirectory,
            step.1 is CreateDirectory,
    {
        (
            OpenRun { root, windows, step: OpenStep::CreatingDirectory },
            OpenAction::CreateDirectory,
        )
    }

    /// Path of the wiki root.
    #[must_use]
    pub fn root(&self) -> (root: &PathBuf)
        ensures
            *root == self.spec_root(),
    {
        &self.root
    }
}

// ---------------------------------------------------------------------------
// What holds of every opening
// ---------------------------------------------------------------------------

/// How many steps of opening are left at most.
pub open spec fn open_steps_left(step: OpenStep) -> nat {
    match step {
        OpenStep::CreatingDirectory => 4,
        OpenStep::Opening => 3,
        OpenStep::Initialising => 2,
        OpenStep::InitialisingByCommand(_) => 1,
    }
}

/// What opening does from `step` on, if `events` come of it. What cannot come of
/// an action ends the run.
pub open spec fn open_trace(
    step: OpenStep,
    events: Seq<OpenEvent>,
    windows: bool,
    root: PathBuf,
) -> Seq<OpenMove>
    decreases events.len(),
{
    if events.len() == 0 || !open_expects(step, events.first()) {
        Seq::empty()
    } else {
        let next = open_next(step, events.first(), windows, root);
        seq![next.1] + match next.0 {
            Some(later) => open_trace(later, events.drop_first(), windows, root),
            None => Seq::empty(),
        }
    }
}

/// Opening comes to an end: whatever happens on the way, it does no more than it
/// has steps left.
pub proof fn opening_ends(step: OpenStep, events: Seq<OpenEvent>, windows: bool, root: PathBuf)
    ensures
        open_trace(step, events, windows, root).len() <= open_steps_left(step) <= 4,
    decreases events.len(),
{
    if events.len() > 0 && open_expects(step, events.first()) {
        if let Some(later) = open_next(step, events.first(), windows, root).0 {
            opening_ends(later, events.drop_first(), windows, root);
        }
    }
}

/// Opening is idempotent: where the repository is there and opens, as it does
/// once it has been made, nothing is made, and it is handed out as it is.
pub proof fn opening_again_makes_nothing(events: Seq<OpenEvent>, windows: bool, root: PathBuf)
    requires
        events.len() >= 2,
        events[0] is Done,
        events[1] is Done,
    ensures
        open_trace(OpenStep::CreatingDirectory, events, windows, root) == seq![
            OpenMove::Open,
            OpenMove::Ready(root),
        ],
{
    let rest = events.drop_first();
    assert(rest.first() == events[1]);
    assert(open_trace(OpenStep::Opening, rest, windows, root) == seq![OpenMove::Ready(root)]);
}

/// The step that opening is at after the first `n` of `events`; none once it is
/// over.
pub open spec fn open_at(
    step: OpenStep,
    events: Seq<OpenEvent>,
    windows: bool,
    root: PathBuf,
    n: nat,
) -> Option<OpenStep>
    decreases n,
{
    if n == 0 {
        Some(step)
    } else {
        match open_at(step, events, windows, root, (n - 1) as nat) {
            Some(earlier) => open_next(earlier, events[n - 1], windows, root).0,
            None => None,
        }
    }
}

/// Leaving the first event out leaves the later steps as they are.
proof fn lemma_open_at_shifts(
    step: OpenStep,
    events: Seq<OpenEvent>,
    windows: bool,
    root: PathBuf,
    n: nat,
)
    requires
        n < events.len(),
    ensures
        open_at(step, events, windows, root, n + 1) == match open_next(
            step,
            events[0],
            windows,
            root,
        ).0 {
            Some(later) => open_at(later, events.drop_first(), windows, root, n),
            None => None,
        },
    decreases n,
{
    reveal_with_fuel(open_at, 2);
    if n > 0 {
        lemma_open_at_shifts(step, events, windows, root, (n - 1) as nat);
        assert(events.drop_first()[n - 1] == events[n as int]);
    }
}

/// Each action of a trace follows its event, at the step that was reached.
proof fn lemma_open_trace(
    step: OpenStep,
    events: Seq<OpenEvent>,
    windows: bool,
    root: PathBuf,
    i: nat,
)
    requires
        i < open_trace(step, events, windows, root).len(),
    ensures
        open_trace(step, events, windows, root).len() <= events.len(),
        open_at(step, events, windows, root, i) is Some,
        open_expects(open_at(step, events, windows, root, i)->0, events[i as int]),
        open_trace(step, events, windows, root)[i as int] == open_next(
            open_at(step, events, windows, root, i)->0,
            events[i as int],
            windows,
            root,
        ).1,
    decreases events.len(),
{
    let next = open_next(step, events.first(), windows, root);
    let rest = events.drop_first();
    if let Some(later) = next.0 {
        if open_trace(later, rest, windows, root).len() > 0 {
            lemma_open_trace(
                later,
                rest,
                windows,
                root,
                if i > 0 {
                    (i - 1) as nat
                } else {
                    0
                },
            );
        }
        if i > 0 {
            lemma_open_at_shifts(step, events, windows, root, (i - 1) as nat);
            assert(rest[i - 1] == events[i as int]);
        }
    }
}

/// A repository is made only where none opens, and with the command only where
/// the git library cannot make it. Opening succeeds only once one has opened or
/// been made, and that ends it.
pub proof fn only_a_missing_repository_is_made(
    events: Seq<OpenEvent>,
    windows: bool,
    root: PathBuf,
    i: int,
)
    requires
        0 <= i < open_trace(OpenStep::CreatingDirectory, events, windows, root).len(),
    ensures
        ({
            let trace = open_trace(OpenStep::CreatingDirectory, events, windows, root);
            &&& trace[i] is Initialise ==> i == 1 && trace[0] is Open && events[1] is Failed
            &&& trace[i] is InitialiseByCommand ==> i == 2 && trace[1] is Initialise
                && events[2] is Failed && windows
            &&& trace[i] is Ready ==> {
                &&& trace[i] == OpenMove::Ready(root)
                &&& i >= 1 && events[i] is Done
                &&& trace[i - 1] is Open || trace[i - 1] is Initialise || trace[i - 1] is
                    InitialiseByCommand
                &&& i == trace.len() - 1
            }
        }),
{
    let start = OpenStep::CreatingDirectory;
    let trace = open_trace(start, events, windows, root);
    opening_ends(start, events, windows, root);
    reveal_with_fuel(open_at, 5);
    assert forall|k: nat| k < trace.len() implies {
        &&& open_at(start, events, windows, root, k) is Some
        &&& open_expects(open_at(start, events, windows, root, k)->0, events[k as int])
        &&& #[trigger] trace[k as int] == open_next(
            open_at(start, events, windows, root, k)->0,
            events[k as int],
            windows,
            root,
        ).1
    } by {
        lemma_open_trace(start, events, windows, root, k);
    }
    lemma_open_trace(start, events, windows, root, 0);
    if i >= 1 {
        lemma_open_trace(start, events, windows, root, 1);
    }
    if i >= 2 {
        lemma_open_trace(start, events, windows, root, 2);
    }
    if i >= 3 {
        lemma_open_trace(start, events, windows, root, 3);
    }
    if i + 1 < trace.len() {
        lemma_open_trace(start, events, windows, root, (i + 1) as nat);
    }
}

} // verus!
