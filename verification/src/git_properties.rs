//! What holds of every step by which the wiki's repository is opened, committed
//! to and read.

use crate::git::{
    cli_may_help, open_expects, open_next, GitAdapter, GitFailure, OpenAction, OpenEvent, OpenMove,
    OpenStep, WikiError,
};
use crate::git_cli::{
    add_args, cli_next, count_args, exit_text, full_oid, is_hex, is_oid_text, log_args,
    oid_failure, show_args, CliAction, CliActionView, CliStep, GitOutcome,
};
use crate::git_commit::{
    commit_expects, commit_next, CommitAction, CommitEvent, CommitStep, HeadState,
};
use crate::git_history::{
    after_walk, checkpoint_of, command_failure, commits_are_listed_in_order, count_printed_by,
    latest, list_view, printed_by, RecentAction, RecentActionView, RecentWalk, WalkedCommit,
};
use crate::git_log::{
    checkpoint_of_record, checkpoints_of_log, message_field, printed_count, printed_text,
    utf8_lossy, Checkpoint, CheckpointView,
};
use crate::git_message::{
    a_message_is_cut_alike_in_bytes, before, first_line, is_blank, lemma_before_in_bytes,
    lemma_before_lacks_mark, summary_of, summary_of_bytes, without_blank_end,
};
use crate::text::{
    count_of, decimal, decimal_reads_back, is_digit, is_space, replaced, signed_of, split_on,
    split_pieces_join_back, split_takes_the_first_piece, trimmed,
};
use crate::text_properties::{
    an_occurrence_has_two_sides, counts_are_read, signed_numbers_are_read, trimming_takes_the_ends,
};
use std::path::PathBuf;
use vstd::prelude::*;
use vstd::utf8::{decode_utf8, encode_utf8, valid_utf8};

verus! {

// ---------------------------------------------------------------------------
// Committing
// ---------------------------------------------------------------------------

/// A head at a commit whose tree is known: there is nothing to commit exactly if
/// that tree is the one that was just written, whatever else is known of the
/// index; otherwise the written tree is committed on top of that commit.
pub proof fn a_changed_tree_is_committed_on_the_head(
    written: String,
    commit: String,
    current: String,
    index_is_empty: bool,
    windows: bool,
    message: String,
)
    ensures
        ({
            let head = HeadState::At { commit, tree: Some(current) };
            let next = commit_next(
                CommitStep::ReadingHead { tree: written },
                CommitEvent::HeadRead { head, index_is_empty },
                windows,
                message,
            );
            &&& next.1 is Clean <==> current@ == written@
            &&& current@ == written@ ==> next.0 is Over
            &&& current@ != written@ ==> {
                &&& next.0 is Committing
                &&& next.1 is Commit
                &&& next.1->Commit_tree == written
                &&& next.1->parent == Some(commit)
                &&& next.1->Commit_message == message
                &&& next.1->name@ == "ai-memory"@
                &&& next.1->email@ == "ai-memory@local"@
            }
        }),
{
}

/// Any other head: a commit that cannot be read is still what the next one
/// follows; a head without a commit has a first commit; and where there is no
/// head, there is one exactly if something is staged.
pub proof fn a_first_commit_follows_nothing(
    written: String,
    commit: String,
    index_is_empty: bool,
    windows: bool,
    message: String,
)
    ensures
        ({
            let step = CommitStep::ReadingHead { tree: written };
            let unread = commit_next(
                step,
                CommitEvent::HeadRead {
                    head: HeadState::At { commit, tree: None },
                    index_is_empty,
                },
                windows,
                message,
            );
            let unborn = commit_next(
                step,
                CommitEvent::HeadRead { head: HeadState::Unborn, index_is_empty },
                windows,
                message,
            );
            let missing = commit_next(
                step,
                CommitEvent::HeadRead { head: HeadState::Missing, index_is_empty },
                windows,
                message,
            );
            &&& unread.0 is Committing && unread.1 is Commit
            &&& unread.1->Commit_tree == written && unread.1->parent == Some(commit)
            &&& unread.1->Commit_message == message
            &&& unborn.0 is Committing && unborn.1 is Commit
            &&& unborn.1->Commit_tree == written && unborn.1->parent is None
            &&& unborn.1->Commit_message == message
            &&& index_is_empty ==> missing.0 is Over && missing.1 is Clean
            &&& !index_is_empty ==> {
                &&& missing.0 is Committing && missing.1 is Commit
                &&& missing.1->Commit_tree == written && missing.1->parent is None
                &&& missing.1->Commit_message == message
            }
        }),
{
}

/// What succeeds leads on: the repository is opened, its index read, the working
/// tree staged, the index written exactly if something was touched, a tree
/// written, and the head read; what was staged after the index was cleared is
/// handled alike; and a commit that was made is reported under its name.
pub proof fn what_succeeds_leads_on(
    cleared: bool,
    touched: usize,
    text: String,
    windows: bool,
    message: String,
)
    ensures
        commit_next(CommitStep::Opening, CommitEvent::Done, windows, message) == (
            CommitStep::ReadingIndex,
            CommitAction::ReadIndex,
        ),
        commit_next(CommitStep::ReadingIndex, CommitEvent::Done, windows, message) == (
            CommitStep::Staging { cleared: false },
            CommitAction::StageWorkingTree,
        ),
        touched > 0 ==> commit_next(
            CommitStep::Staging { cleared },
            CommitEvent::Staged { touched },
            windows,
            message,
        ) == (CommitStep::WritingIndex { cleared }, CommitAction::WriteIndex),
        touched == 0 ==> commit_next(
            CommitStep::Staging { cleared },
            CommitEvent::Staged { touched },
            windows,
            message,
        ) == (CommitStep::WritingTree { cleared }, CommitAction::WriteTree),
        commit_next(CommitStep::WritingIndex { cleared }, CommitEvent::Done, windows, message) == (
            CommitStep::WritingTree { cleared },
            CommitAction::WriteTree,
        ),
        commit_next(
            CommitStep::WritingTree { cleared },
            CommitEvent::TreeWritten { tree: text },
            windows,
            message,
        ) == (CommitStep::ReadingHead { tree: text }, CommitAction::ReadHead),
        commit_next(CommitStep::ClearingIndex, CommitEvent::Done, windows, message) == (
            CommitStep::Staging { cleared: true },
            CommitAction::StageWorkingTree,
        ),
        commit_next(
            CommitStep::Committing,
            CommitEvent::CommitMade { commit: text },
            windows,
            message,
        ) == (CommitStep::Over, CommitAction::Committed(text)),
{
}

/// What fails ends a commit, in the words of the git library, with two
/// exceptions: a tree that cannot be written from the index as it was found has
/// the index cleared, whatever the reason; and a repository that does not open is
/// left to the command on Windows, where nothing was found or the system could
/// not resolve the path.
pub proof fn what_fails_ends_a_commit(
    step: CommitStep,
    e: GitFailure,
    before: Seq<char>,
    after: Seq<char>,
    windows: bool,
    message: String,
)
    ensures
        ({
            let next = commit_next(step, CommitEvent::Failed(e), windows, message);
            let ended = (CommitStep::Over, CommitAction::Fail(WikiError::Io(e.text)));
            let handed_on = (
                CommitStep::Over,
                CommitAction::UseCommand { original: e, message },
            );
            let unresolved = e.os && e.message@ == (before + "failed to resolve path"@) + after;
            &&& step == (CommitStep::WritingTree { cleared: false }) ==> next == (
                CommitStep::ClearingIndex,
                CommitAction::ClearIndex,
            )
            &&& !(step is Opening) && step != (CommitStep::WritingTree { cleared: false }) ==> next
                == ended
            &&& step is Opening && !windows ==> next == ended
            &&& step is Opening && windows && (e.not_found || unresolved) ==> next == handed_on
            &&& step is Opening && !e.not_found && !e.os ==> next == ended
            &&& step is Opening && !e.not_found && (forall|a: Seq<char>, b: Seq<char>|
                e.message@ != #[trigger] ((a + "failed to resolve path"@) + b)) ==> next == ended
        }),
{
    an_occurrence_has_two_sides(e.message@, "failed to resolve path"@);
}

/// Whether the command may help is decided by what the git library reports: that
/// nothing was found, anywhere; or that the system could not resolve the path, on
/// Windows, wherever in the message it says so.
pub proof fn the_command_helps_where_the_path_is_at_fault(
    e: GitFailure,
    before: Seq<char>,
    after: Seq<char>,
    windows: bool,
)
    ensures
        e.not_found ==> cli_may_help(e, windows),
        e.message@ == (before + "failed to resolve path"@) + after ==> (cli_may_help(e, windows)
            <==> e.not_found || (windows && e.os)),
        !windows || !e.os ==> (cli_may_help(e, windows) <==> e.not_found),
        (forall|a: Seq<char>, b: Seq<char>|
            e.message@ != #[trigger] ((a + "failed to resolve path"@) + b)) ==> (cli_may_help(
            e,
            windows,
        ) <==> e.not_found),
{
    an_occurrence_has_two_sides(e.message@, "failed to resolve path"@);
}

/// Each step of a commit expects what it asked for, or that it failed; reading
/// the head does not fail, and nothing is expected once it is over.
pub proof fn a_step_of_a_commit_expects_what_it_asked_for(
    cleared: bool,
    tree: String,
    event: CommitEvent,
)
    ensures
        commit_expects(CommitStep::Opening, event) <==> event is Done || event is Failed,
        commit_expects(CommitStep::ReadingIndex, event) <==> event is Done || event is Failed,
        commit_expects(CommitStep::Staging { cleared }, event) <==> event is Staged || event is
            Failed,
        commit_expects(CommitStep::WritingIndex { cleared }, event) <==> event is Done || event is
            Failed,
        commit_expects(CommitStep::WritingTree { cleared }, event) <==> event is TreeWritten
            || event is Failed,
        commit_expects(CommitStep::ClearingIndex, event) <==> event is Done || event is Failed,
        commit_expects(CommitStep::ReadingHead { tree }, event) <==> event is HeadRead,
        commit_expects(CommitStep::Committing, event) <==> event is CommitMade || event is Failed,
        !commit_expects(CommitStep::Over, event),
{
}

// ---------------------------------------------------------------------------
// Opening
// ---------------------------------------------------------------------------

/// Opening makes the directory, opens the repository in it, and makes one only if
/// that fails; whatever succeeds in the end hands out the repository at the root.
pub proof fn opening_makes_what_is_missing(
    e: GitFailure,
    original: GitFailure,
    windows: bool,
    root: PathBuf,
)
    ensures
        open_next(OpenStep::CreatingDirectory, OpenEvent::Done, windows, root) == (
            Some(OpenStep::Opening),
            OpenMove::Open,
        ),
        open_next(OpenStep::Opening, OpenEvent::Done, windows, root) == (
            None::<OpenStep>,
            OpenMove::Ready(root),
        ),
        open_next(OpenStep::Opening, OpenEvent::Failed(e), windows, root) == (
            Some(OpenStep::Initialising),
            OpenMove::Initialise,
        ),
        open_next(OpenStep::Initialising, OpenEvent::Done, windows, root) == (
            None::<OpenStep>,
            OpenMove::Ready(root),
        ),
        windows ==> open_next(OpenStep::Initialising, OpenEvent::Failed(e), windows, root) == (
            Some(OpenStep::InitialisingByCommand(e)),
            OpenMove::InitialiseByCommand,
        ),
        open_next(
            OpenStep::InitialisingByCommand(original),
            OpenEvent::Done,
            windows,
            root,
        ) == (None::<OpenStep>, OpenMove::Ready(root)),
{
}

/// An opening that fails says why, in the words of what failed: of the directory,
/// or of the git library; and of the command only if it did not start.
pub proof fn a_failed_opening_says_why(
    text: String,
    e: GitFailure,
    original: GitFailure,
    windows: bool,
    root: PathBuf,
)
    ensures
        open_next(OpenStep::CreatingDirectory, OpenEvent::NoDirectory(text), windows, root) == (
            None::<OpenStep>,
            OpenMove::Fail(text@),
        ),
        !windows ==> open_next(OpenStep::Initialising, OpenEvent::Failed(e), windows, root) == (
            None::<OpenStep>,
            OpenMove::Fail(e.text@),
        ),
        open_next(
            OpenStep::InitialisingByCommand(original),
            OpenEvent::CommandFailed,
            windows,
            root,
        ) == (None::<OpenStep>, OpenMove::Fail(original.text@)),
        open_next(
            OpenStep::InitialisingByCommand(original),
            OpenEvent::CommandNotStarted(text),
            windows,
            root,
        ) == (
            None::<OpenStep>,
            OpenMove::Fail(original.text@ + "; git init fallback failed to start: "@ + text@),
        ),
{
}

/// Each step of opening expects that it was done, or that it failed in a way it
/// can.
pub proof fn a_step_of_opening_expects_what_it_asked_for(original: GitFailure, event: OpenEvent)
    ensures
        open_expects(OpenStep::CreatingDirectory, event) <==> event is Done || event is NoDirectory,
        open_expects(OpenStep::Opening, event) <==> event is Done || event is Failed,
        open_expects(OpenStep::Initialising, event) <==> event is Done || event is Failed,
        open_expects(OpenStep::InitialisingByCommand(original), event) <==> event is Done
            || event is CommandFailed || event is CommandNotStarted,
{
}

/// An action of opening says which it is, and of the end of it where the
/// repository is or what went wrong.
pub proof fn an_action_of_opening_says_what_it_is(
    action: OpenAction,
    adapter: GitAdapter,
    text: String,
)
    ensures
        action is CreateDirectory <==> action@ is CreateDirectory,
        action is Open <==> action@ is Open,
        action is Initialise <==> action@ is Initialise,
        action is InitialiseByCommand <==> action@ is InitialiseByCommand,
        action is Ready <==> action@ is Ready,
        action is Fail <==> action@ is Fail,
        OpenAction::Ready(adapter)@ == OpenMove::Ready(adapter.spec_root()),
        OpenAction::Fail(WikiError::Io(text))@ == OpenMove::Fail(text@),
{
}

// ---------------------------------------------------------------------------
// The command
// ---------------------------------------------------------------------------

/// A commit by the command adds everything, compares, commits what differs, and
/// asks for the name of the commit; it is clean exactly if the comparison finds
/// nothing, and it reports the name that was printed.
pub proof fn the_command_adds_compares_commits_and_names(
    status: String,
    stdout: Vec<u8>,
    stderr: Vec<u8>,
    original: Seq<char>,
    message: Seq<char>,
)
    ensures
        ({
            let done = GitOutcome::Exited { success: true, status, stdout, stderr };
            let failed = GitOutcome::Exited { success: false, status, stdout, stderr };
            let printed = trimmed(printed_text(stdout@));
            &&& cli_next(CliStep::Adding, done, original, message) == (
                Some(CliStep::Comparing),
                CliActionView::Run(seq!["diff"@, "--cached"@, "--quiet"@, "--exit-code"@]),
            )
            &&& cli_next(CliStep::Comparing, done, original, message) == (
                None::<CliStep>,
                CliActionView::Clean,
            )
            &&& cli_next(CliStep::Comparing, failed, original, message) == (
                Some(CliStep::Committing),
                CliActionView::Run(
                    seq![
                        "-c"@,
                        "user.name=ai-memory"@,
                        "-c"@,
                        "user.email=ai-memory@local"@,
                        "commit"@,
                        "-q"@,
                        "-m"@,
                        message,
                    ],
                ),
            )
            &&& cli_next(CliStep::Committing, done, original, message) == (
                Some(CliStep::Naming),
                CliActionView::Run(seq!["rev-parse"@, "HEAD"@]),
            )
            &&& is_oid_text(printed) ==> cli_next(CliStep::Naming, done, original, message) == (
                None::<CliStep>,
                CliActionView::Committed(full_oid(printed)),
            )
            &&& !is_oid_text(printed) ==> cli_next(CliStep::Naming, done, original, message) == (
                None::<CliStep>,
                CliActionView::Fail(oid_failure(printed)),
            )
        }),
{
}

/// A command that fails says so with its status, and with what it printed of it
/// where that was kept; one that did not start says why, and a comparison that
/// did not start what the git library had said besides.
pub proof fn a_failed_command_says_why(
    text: String,
    status: String,
    stdout: Vec<u8>,
    stderr: Vec<u8>,
    original: Seq<char>,
    message: Seq<char>,
)
    ensures
        ({
            let absent = GitOutcome::NotStarted(text);
            let failed = GitOutcome::Exited { success: false, status, stdout, stderr };
            let exit = "git fallback exited with status "@ + status@;
            let end = |what: Seq<char>| (None::<CliStep>, CliActionView::Fail(what));
            &&& cli_next(CliStep::Adding, absent, original, message) == end(text@)
            &&& cli_next(CliStep::Comparing, absent, original, message) == end(
                original + "; git diff fallback failed to start: "@ + text@,
            )
            &&& cli_next(CliStep::Committing, absent, original, message) == end(text@)
            &&& cli_next(CliStep::Naming, absent, original, message) == end(text@)
            &&& cli_next(CliStep::Adding, failed, original, message) == end(exit)
            &&& cli_next(CliStep::Committing, failed, original, message) == end(exit)
            &&& cli_next(CliStep::Naming, failed, original, message) == end(
                exit + ": "@ + printed_text(stderr@),
            )
            &&& command_failure(absent) == text@
            &&& command_failure(failed) == exit + ": "@ + printed_text(stderr@)
            &&& printed_by(absent) is None
            &&& printed_by(failed) is None
            &&& printed_by(GitOutcome::Exited { success: true, status, stdout, stderr }) == Some(
                stdout@,
            )
            &&& exit_text(status@) == exit
        }),
{
}

/// What the command is asked: each argument as it stands, with the limit in
/// decimal, and a path with slashes where it has backslashes.
pub proof fn the_command_is_asked_in_so_many_words(limit: nat, rev: Seq<char>, path: Seq<char>)
    ensures
        add_args() == seq!["add"@, "-A"@],
        count_args() == seq!["rev-list"@, "--count"@, "HEAD"@],
        log_args(limit) == seq![
            "log"@,
            "-z"@,
            "-n"@,
            decimal(limit),
            "--format=%H%x1f%at%x1f%B"@,
        ],
        show_args(rev, path).len() == 2,
        show_args(rev, path)[0] == "show"@,
        show_args(rev, path)[1].len() == rev.len() + 1 + path.len(),
        show_args(rev, path)[1].take(rev.len() as int) == rev,
        show_args(rev, path)[1][rev.len() as int] == ':',
        forall|i: int|
            0 <= i < path.len() ==> (#[trigger] show_args(rev, path)[1][rev.len() + 1 + i])
                == if path[i] == '\\' {
                '/'
            } else {
                path[i]
            },
{
    reveal_strlit(":");
    let object = show_args(rev, path)[1];
    let slashed = replaced(path, '\\', '/');
    assert(object == rev + ":"@ + slashed);
    assert(object.take(rev.len() as int) == rev);
    assert forall|i: int|
        0 <= i < path.len() implies (#[trigger] object[rev.len() + 1 + i]) == if path[i] == '\\' {
        '/'
    } else {
        path[i]
    } by {
        assert(object[rev.len() + 1 + i] == slashed[i]);
    }
}

/// An action of the command says which it is: what to run, or how it ended.
pub proof fn an_action_of_the_command_says_what_it_is(args: Vec<String>, text: String)
    ensures
        CliAction::Run(args)@ == CliActionView::Run(args@.map_values(|s: String| s@)),
        CliAction::Finish(Ok(None))@ == CliActionView::Clean,
        CliAction::Finish(Ok(Some(text)))@ == CliActionView::Committed(text@),
        CliAction::Finish(Err(WikiError::Io(text)))@ == CliActionView::Fail(text@),
{
}

// ---------------------------------------------------------------------------
// The summary of a commit
// ---------------------------------------------------------------------------

proof fn lemma_before_line(line: Seq<char>, rest: Seq<char>)
    requires
        forall|i: int| 0 <= i < line.len() ==> (#[trigger] line[i]) != '\n',
    ensures
        before(line, '\n') == line,
        before(line.push('\n') + rest, '\n') == line,
    decreases line.len(),
{
    let whole = line.push('\n') + rest;
    if line.len() > 0 {
        let tail = line.drop_first();
        assert(line[0] != '\n');
        assert forall|i: int| 0 <= i < tail.len() implies (#[trigger] tail[i]) != '\n' by {
            assert(line[i + 1] != '\n');
        }
        lemma_before_line(tail, rest);
        assert(whole[0] == line[0]);
        assert(whole.drop_first() == tail.push('\n') + rest);
        assert(seq![line[0]] + tail == line);
    } else {
        assert(whole[0] == '\n');
    }
}

/// The first line of a message is its summary, whole: a line of any length that
/// does not end in white space is the summary of the message that it is, and of
/// every message that it opens.
pub proof fn the_first_line_is_the_summary(line: Seq<char>, rest: Seq<char>)
    requires
        line.len() > 0,
        forall|i: int| 0 <= i < line.len() ==> (#[trigger] line[i]) != '\n',
        !(line.last() == ' ' || line.last() == '\t' || line.last() == '\u{b}' || line.last()
            == '\u{c}' || line.last() == '\r'),
    ensures
        summary_of(line) == line,
        summary_of(line.push('\n') + rest) == line,
        summary_of_bytes(encode_utf8(line)) == Some(line),
        summary_of_bytes(encode_utf8(line.push('\n') + rest)) == Some(line),
{
    let whole = line.push('\n') + rest;
    lemma_before_line(line, rest);
    assert(line[0] != '\n');
    assert(whole[0] == line[0]);
    a_message_is_cut_alike_in_bytes(line);
    a_message_is_cut_alike_in_bytes(whole);
}

/// Line breaks in front of a message are no part of it, however it goes on.
pub proof fn a_line_break_in_front_does_not_count(message: Seq<char>, bytes: Seq<u8>)
    ensures
        summary_of(seq!['\n'] + message) == summary_of(message),
        summary_of_bytes(seq![10u8] + bytes) == summary_of_bytes(bytes),
{
    assert((seq!['\n'] + message).drop_first() == message);
    assert((seq![10u8] + bytes).drop_first() == bytes);
}

proof fn lemma_blanks_are_cut(line: Seq<char>, blanks: Seq<char>)
    requires
        line.len() > 0 ==> !is_blank(line.last()),
        forall|i: int| 0 <= i < blanks.len() ==> is_blank(#[trigger] blanks[i]),
    ensures
        without_blank_end(line + blanks) == line,
    decreases blanks.len(),
{
    if blanks.len() == 0 {
        assert(line + blanks == line);
    } else {
        let rest = blanks.drop_last();
        assert(is_blank(blanks[blanks.len() - 1]));
        assert forall|i: int| 0 <= i < rest.len() implies is_blank(#[trigger] rest[i]) by {
            assert(is_blank(blanks[i]));
        }
        lemma_blanks_are_cut(line, rest);
        assert((line + blanks).drop_last() == line + rest);
    }
}

/// White space at the end of the first line is no part of the summary: spaces,
/// tabs, vertical tabs, form feeds and carriage returns. A line of nothing else
/// has an empty summary.
pub proof fn white_space_behind_the_first_line_does_not_count(
    line: Seq<char>,
    blanks: Seq<char>,
    rest: Seq<char>,
)
    requires
        forall|i: int| 0 <= i < line.len() ==> (#[trigger] line[i]) != '\n',
        line.len() > 0 ==> !(line.last() == ' ' || line.last() == '\t' || line.last() == '\u{b}'
            || line.last() == '\u{c}' || line.last() == '\r'),
        forall|i: int|
            0 <= i < blanks.len() ==> ((#[trigger] blanks[i]) == ' ' || blanks[i] == '\t'
                || blanks[i] == '\u{b}' || blanks[i] == '\u{c}' || blanks[i] == '\r'),
        line.len() + blanks.len() > 0,
    ensures
        summary_of(line + blanks) == line,
        summary_of((line + blanks).push('\n') + rest) == line,
        summary_of(Seq::empty()) == Seq::<char>::empty(),
{
    let padded = line + blanks;
    assert forall|i: int| 0 <= i < padded.len() implies (#[trigger] padded[i]) != '\n' by {
        if i < line.len() {
            assert(line[i] != '\n');
        } else {
            assert(padded[i] == blanks[i - line.len()]);
        }
    }
    lemma_before_line(padded, rest);
    assert(padded[0] != '\n');
    assert((padded.push('\n') + rest)[0] == padded[0]);
    lemma_blanks_are_cut(line, blanks);
}

/// What stands below the first line does not matter, not even whether it is text.
pub proof fn only_the_first_line_has_to_be_text(line: Seq<char>, rest: Seq<u8>)
    requires
        line.len() > 0,
        forall|i: int| 0 <= i < line.len() ==> (#[trigger] line[i]) != '\n',
        !(line.last() == ' ' || line.last() == '\t' || line.last() == '\u{b}' || line.last()
            == '\u{c}' || line.last() == '\r'),
    ensures
        summary_of_bytes(encode_utf8(line).push(10u8) + rest) == Some(line),
{
    let bytes = encode_utf8(line);
    let whole = bytes.push(10u8) + rest;
    lemma_before_line(line, Seq::empty());
    lemma_before_in_bytes(line);
    lemma_before_lacks_mark(bytes, 10u8);
    assert(before(bytes, 10u8) == bytes);
    assert forall|i: int| 0 <= i < bytes.len() implies (#[trigger] bytes[i]) != 10 by {
        assert(bytes.contains(bytes[i]));
    }
    lemma_before_bytes(bytes, rest);
    vstd::utf8::encode_utf8_valid_utf8(line);
    vstd::utf8::encode_utf8_decode_utf8(line);
    assert(bytes.len() > 0) by {
        if bytes.len() == 0 {
            assert(decode_utf8(bytes) == Seq::<char>::empty());
        }
    }
    assert(whole[0] == bytes[0] && bytes[0] != 10);
}

/// A message whose first line does not encode a text has no summary.
pub proof fn what_is_no_text_has_no_summary(bytes: Seq<u8>, rest: Seq<u8>)
    requires
        !valid_utf8(bytes),
        forall|i: int| 0 <= i < bytes.len() ==> (#[trigger] bytes[i]) != 10,
    ensures
        summary_of_bytes(bytes) is None,
        summary_of_bytes(bytes.push(10u8) + rest) is None,
{
    lemma_before_bytes(bytes, rest);
    if bytes.len() > 0 {
        assert(bytes[0] != 10);
        assert((bytes.push(10u8) + rest)[0] == bytes[0]);
    }
}

proof fn lemma_before_bytes(line: Seq<u8>, rest: Seq<u8>)
    requires
        forall|i: int| 0 <= i < line.len() ==> (#[trigger] line[i]) != 10,
    ensures
        before(line, 10u8) == line,
        before(line.push(10u8) + rest, 10u8) == line,
    decreases line.len(),
{
    let whole = line.push(10u8) + rest;
    if line.len() > 0 {
        let tail = line.drop_first();
        assert(line[0] != 10);
        assert forall|i: int| 0 <= i < tail.len() implies (#[trigger] tail[i]) != 10 by {
            assert(line[i + 1] != 10);
        }
        lemma_before_bytes(tail, rest);
        assert(whole[0] == line[0]);
        assert(whole.drop_first() == tail.push(10u8) + rest);
        assert(seq![line[0]] + tail == line);
    } else {
        assert(whole[0] == 10);
    }
}

// ---------------------------------------------------------------------------
// History
// ---------------------------------------------------------------------------

/// A commit is shown by its own name and time, and by the first line of its
/// message.
pub proof fn a_commit_is_shown_as_it_is(
    oid: String,
    message: Vec<u8>,
    time: i64,
    line: Seq<char>,
    rest: Seq<char>,
)
    requires
        line.len() > 0,
        forall|i: int| 0 <= i < line.len() ==> (#[trigger] line[i]) != '\n',
        !(line.last() == ' ' || line.last() == '\t' || line.last() == '\u{b}' || line.last()
            == '\u{c}' || line.last() == '\r'),
    ensures
        ({
            let shown = checkpoint_of(WalkedCommit::Read { oid, message, time });
            &&& shown.oid == oid@
            &&& shown.time == time
            &&& message@ == encode_utf8(line) ==> shown.summary == line
            &&& message@ == encode_utf8(line.push('\n') + rest) ==> shown.summary == line
            &&& summary_of_bytes(message@) is None ==> shown.summary == "(no summary)"@
        }),
{
    the_first_line_is_the_summary(line, rest);
}

/// The latest commits are those that the walk met first, in its order, as many as
/// were asked for or as there are.
pub proof fn the_latest_commits_are_listed(
    commits: Vec<WalkedCommit>,
    limit: nat,
    windows: bool,
)
    requires
        forall|i: int| 0 <= i < commits@.len() ==> (#[trigger] commits@[i]) is Read,
    ensures
        ({
            let view = after_walk(RecentWalk::Walked(commits), limit, windows);
            let list = view->Found_0;
            &&& view is Found
            &&& list.len() == if limit <= commits@.len() {
                limit
            } else {
                commits@.len()
            }
            &&& forall|i: int|
                0 <= i < list.len() ==> (#[trigger] list[i]) == checkpoint_of(commits@[i])
        }),
{
    let first = latest(commits@, limit);
    assert forall|i: int| 0 <= i < first.len() implies (#[trigger] first[i]) is Read by {
        assert(first[i] == commits@[i]);
    }
    commits_are_listed_in_order(first);
}

/// A commit that cannot be read, among those asked for and behind ones that can,
/// is what a list fails with; one that was not asked for does no harm.
pub proof fn the_first_unread_commit_fails_the_list(
    commits: Vec<WalkedCommit>,
    limit: nat,
    windows: bool,
    i: int,
)
    requires
        0 <= i < commits@.len(),
        commits@[i] is Failed,
        forall|k: int| 0 <= k < i ==> (#[trigger] commits@[k]) is Read,
    ensures
        i < limit ==> after_walk(RecentWalk::Walked(commits), limit, windows)
            == RecentActionView::Fail(commits@[i]->Failed_0.text@),
        limit <= i ==> after_walk(RecentWalk::Walked(commits), limit, windows) is Found,
{
    let first = latest(commits@, limit);
    commits_are_listed_in_order(first);
    if i < limit {
        assert(first[i] == commits@[i]);
        assert forall|k: int| 0 <= k < i implies (#[trigger] first[k]) is Read by {
            assert(first[k] == commits@[k]);
        }
    } else {
        assert forall|k: int| 0 <= k < first.len() implies (#[trigger] first[k]) is Read by {
            assert(first[k] == commits@[k]);
        }
    }
}

/// A walk that met no commits ends where it stopped: without a head the list is
/// empty; a failure is reported in the words of the git library, but for a
/// repository that does not open, which is left to the command on Windows.
pub proof fn a_walk_that_met_nothing(e: GitFailure, limit: nat, windows: bool)
    ensures
        after_walk(RecentWalk::NoHead, limit, windows) == RecentActionView::Found(Seq::empty()),
        after_walk(RecentWalk::NoWalk(e), limit, windows) == RecentActionView::Fail(e.text@),
        windows ==> after_walk(RecentWalk::NotOpened(e), limit, windows) == RecentActionView::Run(
            seq!["log"@, "-z"@, "-n"@, decimal(limit), "--format=%H%x1f%at%x1f%B"@],
        ),
        !windows ==> after_walk(RecentWalk::NotOpened(e), limit, windows)
            == RecentActionView::Fail(e.text@),
{
}

/// A checkpoint says what it holds, and so does a list of them and what is done
/// about one.
pub proof fn a_checkpoint_says_what_it_holds(
    checkpoint: Checkpoint,
    list: Vec<Checkpoint>,
    args: Vec<String>,
    text: String,
)
    ensures
        checkpoint@.oid == checkpoint.oid@,
        checkpoint@.summary == checkpoint.summary@,
        checkpoint@.time == checkpoint.time,
        RecentAction::Walk@ is Walk,
        RecentAction::Run(args)@ == RecentActionView::Run(args@.map_values(|s: String| s@)),
        RecentAction::Finish(Ok(list))@ == RecentActionView::Found(
            list@.map_values(|c: Checkpoint| c@),
        ),
        RecentAction::Finish(Err(WikiError::Io(text)))@ == RecentActionView::Fail(text@),
        list_view(Ok(list)) == RecentActionView::Found(list@.map_values(|c: Checkpoint| c@)),
        list_view(Err(WikiError::Io(text))) == RecentActionView::Fail(text@),
{
}

/// A number that the command prints is read, whatever white space is around it;
/// what is no number counts as none.
pub proof fn a_printed_number_is_read(
    n: nat,
    front: Seq<char>,
    back: Seq<char>,
    text: Seq<char>,
)
    requires
        n <= usize::MAX,
        forall|i: int| 0 <= i < front.len() ==> is_space(#[trigger] front[i]),
        forall|i: int| 0 <= i < back.len() ==> is_space(#[trigger] back[i]),
    ensures
        printed_count(front + decimal(n) + back) == n,
        count_of(trimmed(text)) is None ==> printed_count(text) == 0,
        count_of(trimmed(text)) is Some ==> printed_count(text) == count_of(trimmed(text))->0,
{
    let digits = decimal(n);
    decimal_reads_back(n);
    assert(is_digit(digits[0]) && is_digit(digits[digits.len() - 1]));
    trimming_takes_the_ends(front, digits, back);
    counts_are_read(n, digits);
}

/// The command counts what it prints, and nothing where it fails.
pub proof fn the_command_counts_what_it_prints(outcome: GitOutcome)
    ensures
        outcome is NotStarted ==> count_printed_by(outcome) == 0,
        outcome is Exited && !outcome->success ==> count_printed_by(outcome) == 0,
        outcome is Exited && outcome->success ==> count_printed_by(outcome) == printed_count(
            printed_text(outcome->stdout@),
        ),
{
}

/// A record of the log gives the commit, the time and the first line of the
/// message, whatever else the message holds.
pub proof fn a_record_gives_its_commit(oid: Seq<char>, time: nat, line: Seq<char>, rest: Seq<char>)
    requires
        time <= i64::MAX,
        forall|i: int| 0 <= i < oid.len() ==> (#[trigger] oid[i]) != '\u{1f}',
        line.len() > 0,
        forall|i: int| 0 <= i < line.len() ==> (#[trigger] line[i]) != '\n',
        !(line.last() == ' ' || line.last() == '\t' || line.last() == '\u{b}' || line.last()
            == '\u{c}' || line.last() == '\r'),
    ensures
        ({
            let late = oid.push('\u{1f}') + (decimal(time).push('\u{1f}') + (line.push('\n')
                + rest));
            let early = oid.push('\u{1f}') + ((seq!['-'] + decimal(time)).push('\u{1f}') + (
            line.push('\n') + rest));
            &&& checkpoint_of_record(late) == Some(
                CheckpointView { oid, summary: line, time: time as int },
            )
            &&& checkpoint_of_record(early) == Some(
                CheckpointView { oid, summary: line, time: -(time as int) },
            )
        }),
{
    let message = line.push('\n') + rest;
    the_first_line_is_the_summary(line, rest);
    signed_numbers_are_read(time);
    decimal_reads_back(time);
    let late = decimal(time);
    let early = seq!['-'] + decimal(time);
    assert forall|i: int| 0 <= i < late.len() implies (#[trigger] late[i]) != '\u{1f}' by {
        assert(is_digit(late[i]));
    }
    assert forall|i: int| 0 <= i < early.len() implies (#[trigger] early[i]) != '\u{1f}' by {
        if i > 0 {
            assert(early[i] == late[i - 1]);
        }
    }
    lemma_record(oid, late, message);
    lemma_record(oid, early, message);
}

proof fn lemma_record(oid: Seq<char>, time: Seq<char>, message: Seq<char>)
    requires
        forall|i: int| 0 <= i < oid.len() ==> (#[trigger] oid[i]) != '\u{1f}',
        forall|i: int| 0 <= i < time.len() ==> (#[trigger] time[i]) != '\u{1f}',
    ensures
        ({
            let fields = split_on(
                oid.push('\u{1f}') + (time.push('\u{1f}') + message),
                '\u{1f}',
            );
            &&& fields.len() >= 3
            &&& fields[0] == oid
            &&& fields[1] == time
            &&& message_field(fields) == message
        }),
{
    let bar = '\u{1f}';
    assert(!oid.contains(bar));
    assert(!time.contains(bar));
    split_takes_the_first_piece(time, message, bar);
    split_takes_the_first_piece(oid, time.push(bar) + message, bar);
    split_pieces_join_back(message, bar);
    let fields = split_on(oid.push(bar) + (time.push(bar) + message), bar);
    let pieces = split_on(message, bar);
    assert(fields == seq![oid] + (seq![time] + pieces));
    assert(fields.skip(2) == pieces);
}

/// A record without a message names the summary as missing, a time that is no
/// number counts as zero, and what has fewer than three fields is no commit.
pub proof fn a_record_may_be_incomplete(oid: Seq<char>, time: Seq<char>)
    requires
        forall|i: int| 0 <= i < oid.len() ==> (#[trigger] oid[i]) != '\u{1f}',
        forall|i: int| 0 <= i < time.len() ==> (#[trigger] time[i]) != '\u{1f}',
    ensures
        checkpoint_of_record(oid) is None,
        checkpoint_of_record(oid.push('\u{1f}') + time) is None,
        signed_of(time) is None ==> checkpoint_of_record(
            oid.push('\u{1f}') + (time.push('\u{1f}') + Seq::empty()),
        ) == Some(CheckpointView { oid, summary: "(no summary)"@, time: 0 }),
        signed_of(time) is Some ==> checkpoint_of_record(
            oid.push('\u{1f}') + (time.push('\u{1f}') + Seq::empty()),
        ) == Some(CheckpointView { oid, summary: "(no summary)"@, time: signed_of(time)->0 }),
{
    let bar = '\u{1f}';
    assert(!oid.contains(bar));
    assert(!time.contains(bar));
    split_takes_the_first_piece(oid, time, bar);
    split_takes_the_first_piece(time, Seq::empty(), bar);
    assert(split_on(oid.push(bar) + time, bar) == seq![oid] + seq![time]);
    lemma_record(oid, time, Seq::empty());
    assert(first_line(Seq::empty()) == Seq::<char>::empty());
    assert(without_blank_end(Seq::empty()) == Seq::<char>::empty());
}

proof fn lemma_filter_map_goes_on(
    first: Seq<char>,
    rest: Seq<Seq<char>>,
    read: spec_fn(Seq<char>) -> Option<CheckpointView>,
)
    ensures
        (seq![first] + rest).filter_map(read) == (match read(first) {
            Some(c) => seq![c],
            None => Seq::empty(),
        }) + rest.filter_map(read),
    decreases rest.len(),
{
    let whole = seq![first] + rest;
    let head = match read(first) {
        Some(c) => seq![c],
        None => Seq::empty(),
    };
    if rest.len() == 0 {
        assert(whole.drop_last() == Seq::<Seq<char>>::empty());
        assert(whole.drop_last().filter_map(read) == Seq::<CheckpointView>::empty());
        assert(whole.last() == first);
        assert(rest.filter_map(read) == Seq::<CheckpointView>::empty());
        assert(whole.filter_map(read) =~= head);
    } else {
        lemma_filter_map_goes_on(first, rest.drop_last(), read);
        assert(whole.drop_last() == seq![first] + rest.drop_last());
        assert(whole.last() == rest.last());
        assert(whole.filter_map(read) =~= head + rest.filter_map(read));
    }
}

/// A log is read record by record: what its first record gives comes first, and
/// then what the rest of it gives.
pub proof fn a_log_is_read_record_by_record(record: Seq<char>, rest: Seq<char>)
    requires
        forall|i: int| 0 <= i < record.len() ==> (#[trigger] record[i]) != '\0',
    ensures
        checkpoints_of_log(record.push('\0') + rest) == (match checkpoint_of_record(record) {
            Some(c) => seq![c],
            None => Seq::empty(),
        }) + checkpoints_of_log(rest),
        checkpoints_of_log(record) == (match checkpoint_of_record(record) {
            Some(c) => seq![c],
            None => Seq::empty(),
        }),
{
    let read = |r: Seq<char>| checkpoint_of_record(r);
    assert(!record.contains('\0'));
    split_takes_the_first_piece(record, rest, '\0');
    lemma_filter_map_goes_on(record, split_on(rest, '\0'), read);
    lemma_filter_map_goes_on(record, Seq::empty(), read);
    assert(seq![record] + Seq::<Seq<char>>::empty() == seq![record]);
    assert(Seq::<Seq<char>>::empty().filter_map(read) == Seq::<CheckpointView>::empty());
}

/// A text that names no object is said to be too short where it is empty, too long
/// where it has more than forty bytes, and otherwise to hold what is no digit.
pub proof fn what_names_no_object_is_told(text: Seq<char>)
    ensures
        text.len() == 0 ==> oid_failure(text) == "unable to parse OID - "@ + "too short"@
            + "; class=Invalid (3)"@,
        text.len() > 0 && encode_utf8(text).len() > 40 ==> oid_failure(text)
            == "unable to parse OID - "@ + "too long"@ + "; class=Invalid (3)"@,
        text.len() > 0 && encode_utf8(text).len() <= 40 ==> oid_failure(text)
            == "unable to parse OID - "@ + "contains invalid characters"@
            + "; class=Invalid (3)"@,
{
}

/// The name of an object has forty digits: those that were given, in lower case,
/// and zeros behind them.
pub proof fn a_full_name_has_forty_digits(text: Seq<char>)
    ensures
        is_oid_text(text) ==> 0 < text.len() <= 40,
        (0 < text.len() <= 40 && forall|i: int|
            0 <= i < text.len() ==> ('0' as int <= (#[trigger] text[i]) as int <= '9' as int || 'a' as int
                <= text[i] as int <= 'f' as int || 'A' as int <= text[i] as int <= 'F' as int))
            <==> is_oid_text(text),
        full_oid(text).len() == 40,
        forall|i: int|
            text.len() <= i < 40 ==> (#[trigger] full_oid(text)[i]) == '0',
        forall|i: int|
            0 <= i < text.len() && i < 40 && !('A' as int <= text[i] as int <= 'F' as int) ==> (
            #[trigger] full_oid(text)[i]) == text[i],
        forall|i: int|
            0 <= i < text.len() && i < 40 && 'A' as int <= text[i] as int <= 'F' as int ==> (
            #[trigger] full_oid(text)[i]) as int == text[i] as int + 32,
{
    if is_oid_text(text) {
        assert forall|i: int| 0 <= i < text.len() implies ('0' as int <= (#[trigger] text[i]) as int
            <= '9' as int || 'a' as int <= text[i] as int <= 'f' as int || 'A' as int
            <= text[i] as int <= 'F' as int) by {
            assert(is_hex(text[i]));
        }
    }
    if forall|i: int|
        0 <= i < text.len() ==> ('0' as int <= (#[trigger] text[i]) as int <= '9' as int || 'a' as int
            <= text[i] as int <= 'f' as int || 'A' as int <= text[i] as int <= 'F' as int) {
        assert forall|i: int| 0 <= i < text.len() implies is_hex(#[trigger] text[i]) by {}
    }
}

/// Bytes that encode a text are read as that text, and others as far as they can
/// be.
pub proof fn encoded_text_is_read(text: Seq<char>, bytes: Seq<u8>)
    ensures
        printed_text(encode_utf8(text)) == text,
        !valid_utf8(bytes) ==> printed_text(bytes) == utf8_lossy(bytes),
{
    vstd::utf8::encode_utf8_valid_utf8(text);
    vstd::utf8::encode_utf8_decode_utf8(text);
}

} // verus!
