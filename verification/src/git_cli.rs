//! Committing and reading with the `git` command, where the git library cannot
//! open the repository.

use crate::git::{
    git_error_display, map_git_err, GitFailure, WikiError, WikiResult, COMMIT_AUTHOR_EMAIL,
    COMMIT_AUTHOR_NAME,
};
use crate::git_log::{printed_text, text_of_bytes};
use crate::text::{decimal, decimal_text, replace_char, replaced, trim_text, trimmed, views};
use vstd::prelude::*;
use vstd::utf8::encode_utf8;

verus! {

// ---------------------------------------------------------------------------
// Object names
// ---------------------------------------------------------------------------

/// The characters of the name of an object.
pub const OID_CHARS: usize = 40;

/// Whether `c` is a hexadecimal digit.
pub open spec fn is_hex(c: char) -> bool {
    48 <= c as int <= 57 || 65 <= c as int <= 70 || 97 <= c as int <= 102
}

/// Whether `text` names an object: one to forty hexadecimal digits.
pub open spec fn is_oid_text(text: Seq<char>) -> bool {
    0 < text.len() <= OID_CHARS && forall|i: int| 0 <= i < text.len() ==> is_hex(#[trigger] text[i])
}

/// A hexadecimal digit in lower case.
pub open spec fn lower_hex(c: char) -> char {
    if 65 <= c as int <= 70 {
        (c as int + 32) as char
    } else {
        c
    }
}

/// The full name of the object that `text` names: forty digits in lower case,
/// with zeros where `text` gives none.
pub open spec fn full_oid(text: Seq<char>) -> Seq<char> {
    Seq::new(
        OID_CHARS as nat,
        |i: int|
            if i < text.len() {
                lower_hex(text[i])
            } else {
                '0'
            },
    )
}

/// What the git library says of a text that names no object: that it is too
/// short, too long in bytes, or holds something else than digits.
pub open spec fn oid_failure(text: Seq<char>) -> Seq<char> {
    "unable to parse OID - "@ + (if text.len() == 0 {
        "too short"@
    } else if encode_utf8(text).len() > OID_CHARS {
        "too long"@
    } else {
        "contains invalid characters"@
    }) + "; class=Invalid (3)"@
}

/// `git2::Oid::from_str`, and `git2::Oid`'s `Display`. It reads one to forty
/// hexadecimal digits, fills up with zeros, and displays forty digits in lower
/// case. The error on any other text displays what is wrong with the text: it is
/// empty, has more than forty bytes, or holds what is no digit.
#[verifier::external_body]
fn read_oid(text: &str) -> (oid: Result<String, git2::Error>)
    ensures
        oid is Ok <==> is_oid_text(text@),
        oid is Ok ==> oid->Ok_0@ == full_oid(text@),
        oid is Err ==> git_error_display(oid->Err_0) == oid_failure(text@),
{
    match git2::Oid::from_str(text) {
        Ok(oid) => Ok(oid.to_string()),
        Err(e) => Err(e),
    }
}

/// The name of a commit, in the text that `git` printed.
pub fn printed_oid(text: &str) -> (oid: WikiResult<String>)
    ensures
        oid is Ok <==> is_oid_text(trimmed(text@)),
        oid is Ok ==> oid->Ok_0@ == full_oid(trimmed(text@)),
        oid is Err ==> oid->Err_0->Io_0@ == oid_failure(trimmed(text@)),
{
    match read_oid(trim_text(text)) {
        Ok(oid) => Ok(oid),
        Err(e) => Err(map_git_err(GitFailure::from(e))),
    }
}

// ---------------------------------------------------------------------------
// Running the command
// ---------------------------------------------------------------------------

/// What came of running the command.
#[derive(Debug)]
pub enum GitOutcome {
    /// It did not start; the text says why.
    NotStarted(String),
    /// It ran to its end.
    Exited {
        success: bool,
        /// Its exit status, as it is displayed.
        status: String,
        stdout: Vec<u8>,
        stderr: Vec<u8>,
    },
}

/// What is said of a command that failed, if its output was not kept.
pub open spec fn exit_text(status: Seq<char>) -> Seq<char> {
    "git fallback exited with status "@ + status
}

/// The error of a command whose output is not of interest, if it failed.
pub fn run_git(outcome: GitOutcome) -> (result: WikiResult<()>)
    ensures
        (match outcome {
            GitOutcome::NotStarted(text) => result == Err::<(), WikiError>(WikiError::Io(text)),
            GitOutcome::Exited { success, status, .. } => {
                &&& result is Ok <==> success
                &&& !success ==> result->Err_0->Io_0@ == exit_text(status@)
            },
        }),
{
    match outcome {
        GitOutcome::NotStarted(text) => Err(WikiError::Io(text)),
        GitOutcome::Exited { success, status, .. } => {
            if success {
                Ok(())
            } else {
                let mut text = "git fallback exited with status ".to_string();
                text.append(status.as_str());
                Err(WikiError::Io(text))
            }
        },
    }
}

/// What a command printed, or the error if it failed.
pub fn git_output(outcome: GitOutcome) -> (result: WikiResult<Vec<u8>>)
    ensures
        (match outcome {
            GitOutcome::NotStarted(text) => result == Err::<Vec<u8>, WikiError>(
                WikiError::Io(text),
            ),
            GitOutcome::Exited { success, status, stdout, stderr } => {
                &&& success ==> result == Ok::<Vec<u8>, WikiError>(stdout)
                &&& !success ==> result is Err && result->Err_0->Io_0@ == exit_text(status@)
                    + ": "@ + printed_text(stderr@)
            },
        }),
{
    match outcome {
        GitOutcome::NotStarted(text) => Err(WikiError::Io(text)),
        GitOutcome::Exited { success, status, stdout, stderr } => {
            if success {
                Ok(stdout)
            } else {
                let mut text = "git fallback exited with status ".to_string();
                text.append(status.as_str());
                text.append(": ");
                text.append(text_of_bytes(&stderr).as_str());
                Err(WikiError::Io(text))
            }
        },
    }
}

// ---------------------------------------------------------------------------
// Arguments
// ---------------------------------------------------------------------------

/// Stage everything.
pub open spec fn add_args() -> Seq<Seq<char>> {
    seq!["add"@, "-A"@]
}

/// Succeed if nothing is staged.
pub open spec fn diff_args() -> Seq<Seq<char>> {
    seq!["diff"@, "--cached"@, "--quiet"@, "--exit-code"@]
}

/// Commit what is staged, under ai-memory's own name.
pub open spec fn commit_args(message: Seq<char>) -> Seq<Seq<char>> {
    seq![
        "-c"@,
        "user.name=ai-memory"@,
        "-c"@,
        "user.email=ai-memory@local"@,
        "commit"@,
        "-q"@,
        "-m"@,
        message,
    ]
}

/// Print the name of the current commit.
pub open spec fn head_args() -> Seq<Seq<char>> {
    seq!["rev-parse"@, "HEAD"@]
}

/// Print how many commits there are.
pub open spec fn count_args() -> Seq<Seq<char>> {
    seq!["rev-list"@, "--count"@, "HEAD"@]
}

/// Print the latest commits: of each its name, the time of its author and its
/// message as it is, with a NUL behind it.
pub open spec fn log_args(limit: nat) -> Seq<Seq<char>> {
    seq!["log"@, "-z"@, "-n"@, decimal(limit), "--format=%H%x1f%at%x1f%B"@]
}

/// Print a file as it was at a revision. The path is given with slashes.
pub open spec fn show_args(rev: Seq<char>, path: Seq<char>) -> Seq<Seq<char>> {
    seq!["show"@, rev + ":"@ + replaced(path, '\\', '/')]
}

/// Strings of the given texts.
fn strings(texts: &[&str]) -> (args: Vec<String>)
    ensures
        views(args@) == texts@.map_values(|s: &str| s@),
{
    let length = texts.len();
    let mut args: Vec<String> = Vec::new();
    let mut i: usize = 0;
    while i < length
        invariant
            i <= length,
            length == texts@.len(),
            views(args@) == texts@.take(i as int).map_values(|s: &str| s@),
        decreases length - i,
    {
        let ghost earlier = args@;
        let arg = texts[i].to_string();
        args.push(arg);
        assert(views(args@) == views(earlier).push(arg@));
        assert(texts@.take(i + 1) == texts@.take(i as int).push(texts@[i as int]));
        i = i + 1;
    }
    assert(texts@.take(length as int) == texts@);
    args
}

/// The arguments that print how many commits there are.
pub fn count_command() -> (args: Vec<String>)
    ensures
        views(args@) == count_args(),
{
    strings(&["rev-list", "--count", "HEAD"])
}

/// The arguments that print the latest commits.
pub fn log_command(limit: usize) -> (args: Vec<String>)
    ensures
        views(args@) == log_args(limit as nat),
{
    let number = decimal_text(limit as u64);
    strings(&["log", "-z", "-n", number.as_str(), "--format=%H%x1f%at%x1f%B"])
}

/// The arguments that print a file as it was at a revision.
pub fn show_command(rev: &str, path: &str) -> (args: Vec<String>)
    ensures
        views(args@) == show_args(rev@, path@),
{
    let mut object = rev.to_string();
    object.append(":");
    object.append(replace_char(path, '\\', '/').as_str());
    strings(&["show", object.as_str()])
}

// ---------------------------------------------------------------------------
// Committing
// ---------------------------------------------------------------------------

/// How far a commit has come.
#[derive(Clone, Copy, PartialEq, Eq, Structural, Debug)]
pub enum CliStep {
    Adding,
    Comparing,
    Committing,
    Naming,
}

/// What to do next to commit.
#[derive(Debug)]
pub enum CliAction {
    /// Run `git` with these arguments.
    Run(Vec<String>),
    /// It is over: with the new commit, with none because nothing has changed,
    /// or with an error.
    Finish(WikiResult<Option<String>>),
}

/// What an action says.
pub enum CliActionView {
    Run(Seq<Seq<char>>),
    Clean,
    Committed(Seq<char>),
    Fail(Seq<char>),
}

impl View for CliAction {
    type V = CliActionView;

    open spec fn view(&self) -> CliActionView {
        match *self {
            CliAction::Run(args) => CliActionView::Run(views(args@)),
            CliAction::Finish(Ok(None)) => CliActionView::Clean,
            CliAction::Finish(Ok(Some(oid))) => CliActionView::Committed(oid@),
            CliAction::Finish(Err(WikiError::Io(text))) => CliActionView::Fail(text@),
        }
    }
}

/// What follows the end of a command at `step`; `original` is what the git
/// library said when it could not open the repository.
pub open spec fn cli_next(
    step: CliStep,
    outcome: GitOutcome,
    original: Seq<char>,
    message: Seq<char>,
) -> (Option<CliStep>, CliActionView) {
    match (step, outcome) {
        (CliStep::Comparing, GitOutcome::NotStarted(text)) => (
            None,
            CliActionView::Fail(
                original + "; git diff fallback failed to start: "@ + text@,
            ),
        ),
        (_, GitOutcome::NotStarted(text)) => (None, CliActionView::Fail(text@)),
        (CliStep::Adding, GitOutcome::Exited { success, status, .. }) => if success {
            (Some(CliStep::Comparing), CliActionView::Run(diff_args()))
        } else {
            (None, CliActionView::Fail(exit_text(status@)))
        },
        (CliStep::Comparing, GitOutcome::Exited { success, .. }) => if success {
            (None, CliActionView::Clean)
        } else {
            (Some(CliStep::Committing), CliActionView::Run(commit_args(message)))
        },
        (CliStep::Committing, GitOutcome::Exited { success, status, .. }) => if success {
            (Some(CliStep::Naming), CliActionView::Run(head_args()))
        } else {
            (None, CliActionView::Fail(exit_text(status@)))
        },
        (CliStep::Naming, GitOutcome::Exited { success, status, stdout, stderr }) => {
            let printed = trimmed(printed_text(stdout@));
            if !success {
                (
                    None,
                    CliActionView::Fail(exit_text(status@) + ": "@ + printed_text(stderr@)),
                )
            } else if is_oid_text(printed) {
                (None, CliActionView::Committed(full_oid(printed)))
            } else {
                (None, CliActionView::Fail(oid_failure(printed)))
            }
        },
    }
}

/// A commit that the command is making.
#[derive(Debug)]
pub struct CliCommit {
    original: String,
    message: String,
    step: CliStep,
}

impl CliCommit {
    pub closed spec fn spec_original(self) -> Seq<char> {
        self.original@
    }

    pub closed spec fn spec_message(self) -> Seq<char> {
        self.message@
    }

    pub closed spec fn spec_step(self) -> CliStep {
        self.step
    }

    /// Go on, now that the command has come to its end.
    pub fn next(self, outcome: GitOutcome) -> (step: (Option<CliCommit>, CliAction))
        ensures
            ({
                let next = cli_next(
                    self.spec_step(),
                    outcome,
                    self.spec_original(),
                    self.spec_message(),
                );
                &&& step.1@ == next.1
                &&& step.0 is Some <==> next.0 is Some
                &&& step.0 is Some ==> {
                    &&& step.0->0.spec_step() == next.0->0
                    &&& step.0->0.spec_original() == self.spec_original()
                    &&& step.0->0.spec_message() == self.spec_message()
                }
            }),
    {
        match self.step {
            CliStep::Adding => match run_git(outcome) {
                Ok(_) => {
                    let args = strings(&["diff", "--cached", "--quiet", "--exit-code"]);
                    assert(views(args@) == diff_args());
                    (
                        Some(
                            CliCommit {
                                original: self.original,
                                message: self.message,
                                step: CliStep::Comparing,
                            },
                        ),
                        CliAction::Run(args),
                    )
                },
                Err(e) => (None, CliAction::Finish(Err(e))),
            },
            CliStep::Comparing => match outcome {
                GitOutcome::NotStarted(text) => {
                    let mut message = self.original;
                    message.append("; git diff fallback failed to start: ");
                    message.append(text.as_str());
                    (None, CliAction::Finish(Err(WikiError::Io(message))))
                },
                GitOutcome::Exited { success, .. } => {
                    if success {
                        (None, CliAction::Finish(Ok(None)))
                    } else {
                        let args = strings(
                            &[
                                "-c",
                                "user.name=ai-memory",
                                "-c",
                                "user.email=ai-memory@local",
                                "commit",
                                "-q",
                                "-m",
                                self.message.as_str(),
                            ],
                        );
                        assert(views(args@) == commit_args(self.message@));
                        (
                            Some(
                                CliCommit {
                                    original: self.original,
                                    message: self.message,
                                    step: CliStep::Committing,
                                },
                            ),
                            CliAction::Run(args),
                        )
                    }
                },
            },
            CliStep::Committing => match run_git(outcome) {
                Ok(_) => {
                    let args = strings(&["rev-parse", "HEAD"]);
                    assert(views(args@) == head_args());
                    (
                        Some(
                            CliCommit {
                                original: self.original,
                                message: self.message,
                                step: CliStep::Naming,
                            },
                        ),
                        CliAction::Run(args),
                    )
                },
                Err(e) => (None, CliAction::Finish(Err(e))),
            },
            CliStep::Naming => match git_output(outcome) {
                Ok(stdout) => match printed_oid(text_of_bytes(&stdout).as_str()) {
                    Ok(oid) => (None, CliAction::Finish(Ok(Some(oid)))),
                    Err(e) => (None, CliAction::Finish(Err(e))),
                },
                Err(e) => (None, CliAction::Finish(Err(e))),
            },
        }
    }
}

/// Commit with the command, after `original` kept the git library from it: what
/// to do first.
pub fn commit_all_fallback(message: &str, original: GitFailure) -> (step: (CliCommit, CliAction))
    ensures
        step.0.spec_step() == CliStep::Adding,
        step.0.spec_original() == original.text@,
        step.0.spec_message() == message@,
        step.1@ == CliActionView::Run(add_args()),
{
    let args = strings(&["add", "-A"]);
    assert(views(args@) == add_args());
    (
        CliCommit { original: original.text, message: message.to_string(), step: CliStep::Adding },
        CliAction::Run(args),
    )
}

// ---------------------------------------------------------------------------
// What holds of every commit that the command makes
// ---------------------------------------------------------------------------

/// The command commits under ai-memory's own identity, as the git library does,
/// and under the message that was asked for.
pub proof fn the_command_signs_as_ai_memory(message: Seq<char>)
    ensures
        commit_args(message)[0] == "-c"@,
        commit_args(message)[1] == "user.name="@ + COMMIT_AUTHOR_NAME@,
        commit_args(message)[2] == "-c"@,
        commit_args(message)[3] == "user.email="@ + COMMIT_AUTHOR_EMAIL@,
        commit_args(message)[6] == "-m"@,
        commit_args(message)[7] == message,
{
    reveal_strlit("user.name=");
    reveal_strlit("ai-memory");
    reveal_strlit("user.name=ai-memory");
    reveal_strlit("user.email=");
    reveal_strlit("ai-memory@local");
    reveal_strlit("user.email=ai-memory@local");
}

/// How many runs of the command are left at most.
pub open spec fn runs_left(step: CliStep) -> nat {
    match step {
        CliStep::Adding => 4,
        CliStep::Comparing => 3,
        CliStep::Committing => 2,
        CliStep::Naming => 1,
    }
}

/// A commit by the command comes to an end: every run leaves fewer than before,
/// and as long as it goes on there is something to run.
pub proof fn a_commit_by_the_command_ends(
    step: CliStep,
    outcome: GitOutcome,
    original: Seq<char>,
    message: Seq<char>,
)
    ensures
        ({
            let next = cli_next(step, outcome, original, message);
            &&& next.0 matches Some(later) ==> runs_left(later) < runs_left(step)
            &&& next.0 is Some <==> next.1 is Run
        }),
{
}

/// The command commits exactly what has changed: it goes on to commit only once
/// a comparison has found something staged, and it ends as clean only once one
/// has found nothing. A commit is reported only if its name was read.
pub proof fn the_command_commits_only_changes(
    step: CliStep,
    outcome: GitOutcome,
    original: Seq<char>,
    message: Seq<char>,
)
    ensures
        ({
            let next = cli_next(step, outcome, original, message);
            &&& next.0 == Some(CliStep::Committing) <==> step is Comparing && outcome is Exited
                && !outcome->success
            &&& next.1 is Clean <==> step is Comparing && outcome is Exited && outcome->success
            &&& next.1 is Committed ==> step is Naming && outcome is Exited && outcome->success
                && next.1->Committed_0.len() == OID_CHARS
        }),
{
}

} // verus!
