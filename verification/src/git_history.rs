//! Reading the history of the wiki.
//!
//! The git library reads it where it can open the repository. Where it cannot,
//! the `git` command is asked, on Windows; elsewhere that is the end of it.

use crate::git::{map_git_err, GitAdapter, GitFailure, WikiError, WikiResult};
use crate::git_cli::{
    count_args, count_command, exit_text, git_output, log_args, log_command, show_args,
    show_command, GitOutcome,
};
use crate::git_log::{
    as_read, checkpoint_views, checkpoints_of_log, is_loggable, log_reads_back, log_text,
    parse_log, parse_printed_count, printed_count, printed_text, text_of_bytes, Checkpoint,
    CheckpointView, LoggedCommit, NO_SUMMARY,
};
use crate::git_message::{
    a_message_is_cut_alike_in_bytes, message_bytes_summary, summary_of, summary_of_bytes,
};
use crate::text::views;
use vstd::prelude::*;
use vstd::utf8::{decode_utf8, decode_utf8_encode_utf8, encode_utf8, valid_utf8};

verus! {

/// What a command printed, if it ran and succeeded.
pub open spec fn printed_by(outcome: GitOutcome) -> Option<Seq<u8>> {
    match outcome {
        GitOutcome::Exited { success: true, stdout, .. } => Some(stdout@),
        _ => None,
    }
}

/// The text of the error of a command that printed nothing of use.
pub open spec fn command_failure(outcome: GitOutcome) -> Seq<char> {
    match outcome {
        GitOutcome::NotStarted(text) => text@,
        GitOutcome::Exited { status, stderr, .. } => exit_text(status@) + ": "@ + printed_text(
            stderr@,
        ),
    }
}

// ---------------------------------------------------------------------------
// How many commits there are
// ---------------------------------------------------------------------------

/// What came of counting the commits with the git library.
#[derive(Debug)]
pub enum CountWalk {
    /// The repository did not open.
    NotOpened,
    /// There is no head to start from, or no way to walk from it.
    NoHead,
    /// So many commits are reachable from the head.
    Walked(usize),
}

/// What to do next to count the commits.
#[derive(Debug)]
pub enum CountAction {
    /// Run `git` with these arguments.
    Run(Vec<String>),
    /// There are so many.
    Finish(usize),
}

/// The number of commits that a command printed, or zero.
pub open spec fn count_printed_by(outcome: GitOutcome) -> nat {
    match printed_by(outcome) {
        Some(stdout) => printed_count(printed_text(stdout)),
        None => 0,
    }
}

/// The number of commits, now that `git` has been asked for it. Returns 0 where
/// it gave none.
pub fn commit_count_fallback(outcome: GitOutcome) -> (count: usize)
    ensures
        count == count_printed_by(outcome),
{
    match git_output(outcome) {
        Ok(stdout) => parse_printed_count(text_of_bytes(&stdout).as_str()),
        Err(_) => 0,
    }
}

impl GitAdapter {
    /// Count commits reachable from the head. Returns 0 for an empty
    /// repository.
    pub fn commit_count(&self, walk: CountWalk, windows: bool) -> (action: CountAction)
        ensures
            (match walk {
                CountWalk::NotOpened => if windows {
                    action is Run && views(action->Run_0@) == count_args()
                } else {
                    action == CountAction::Finish(0)
                },
                CountWalk::NoHead => action == CountAction::Finish(0),
                CountWalk::Walked(count) => action == CountAction::Finish(count),
            }),
    {
        match walk {
            CountWalk::NotOpened => {
                if windows {
                    CountAction::Run(count_command())
                } else {
                    CountAction::Finish(0)
                }
            },
            CountWalk::NoHead => CountAction::Finish(0),
            CountWalk::Walked(count) => CountAction::Finish(count),
        }
    }
}

// ---------------------------------------------------------------------------
// The latest commits
// ---------------------------------------------------------------------------

/// A commit that was met on the way back from the head.
#[derive(Debug)]
pub enum WalkedCommit {
    /// Its object name, its message as it is stored, and the time of its author.
    Read { oid: String, message: Vec<u8>, time: i64 },
    /// It could not be read.
    Failed(GitFailure),
}

/// What came of walking back from the head with the git library.
#[derive(Debug)]
pub enum RecentWalk {
    /// The repository did not open.
    NotOpened(GitFailure),
    /// There is no way to walk.
    NoWalk(GitFailure),
    /// There is no head to start from.
    NoHead,
    /// These commits were met, in this order.
    Walked(Vec<WalkedCommit>),
}

/// What to do next to list the latest commits.
#[derive(Debug)]
pub enum RecentAction {
    /// Open the repository and walk back from the head.
    Walk,
    /// Run `git` with these arguments.
    Run(Vec<String>),
    /// The list, or why there is none.
    Finish(WikiResult<Vec<Checkpoint>>),
}

/// What an action says.
pub enum RecentActionView {
    Walk,
    Run(Seq<Seq<char>>),
    Found(Seq<CheckpointView>),
    Fail(Seq<char>),
}

/// What the outcome of listing the latest commits says.
pub open spec fn list_view(list: WikiResult<Vec<Checkpoint>>) -> RecentActionView {
    match list {
        Ok(checkpoints) => RecentActionView::Found(checkpoint_views(checkpoints@)),
        Err(WikiError::Io(text)) => RecentActionView::Fail(text@),
    }
}

impl View for RecentAction {
    type V = RecentActionView;

    open spec fn view(&self) -> RecentActionView {
        match *self {
            RecentAction::Walk => RecentActionView::Walk,
            RecentAction::Run(args) => RecentActionView::Run(views(args@)),
            RecentAction::Finish(list) => list_view(list),
        }
    }
}

/// The checkpoint that stands for a commit that was read: it shows the first
/// line of the message.
pub open spec fn checkpoint_of(commit: WalkedCommit) -> CheckpointView {
    CheckpointView {
        oid: commit->oid@,
        summary: match summary_of_bytes(commit->message@) {
            Some(summary) => summary,
            None => NO_SUMMARY@,
        },
        time: commit->time as int,
    }
}

/// The checkpoints of the commits, in their order; or the first failure among
/// them.
pub open spec fn checkpoints_of(commits: Seq<WalkedCommit>) -> RecentActionView
    decreases commits.len(),
{
    if commits.len() == 0 {
        RecentActionView::Found(Seq::empty())
    } else {
        match checkpoints_of(commits.drop_last()) {
            RecentActionView::Found(earlier) => match commits.last() {
                WalkedCommit::Read { .. } => RecentActionView::Found(
                    earlier.push(checkpoint_of(commits.last())),
                ),
                WalkedCommit::Failed(e) => RecentActionView::Fail(e.text@),
            },
            failure => failure,
        }
    }
}

/// The first `limit` of the commits, or all if there are fewer.
pub open spec fn latest(commits: Seq<WalkedCommit>, limit: nat) -> Seq<WalkedCommit> {
    if limit <= commits.len() {
        commits.take(limit as int)
    } else {
        commits
    }
}

/// What follows from walking back from the head.
pub open spec fn after_walk(walk: RecentWalk, limit: nat, windows: bool) -> RecentActionView {
    match walk {
        RecentWalk::NotOpened(e) => if windows {
            RecentActionView::Run(log_args(limit))
        } else {
            RecentActionView::Fail(e.text@)
        },
        RecentWalk::NoWalk(e) => RecentActionView::Fail(e.text@),
        RecentWalk::NoHead => RecentActionView::Found(Seq::empty()),
        RecentWalk::Walked(commits) => checkpoints_of(latest(commits@, limit)),
    }
}

/// A failure among the first commits is a failure of all.
proof fn lemma_failure_stays(commits: Seq<WalkedCommit>, n: int)
    requires
        0 <= n <= commits.len(),
        checkpoints_of(commits.take(n)) is Fail,
    ensures
        checkpoints_of(commits) == checkpoints_of(commits.take(n)),
    decreases commits.len(),
{
    if n == commits.len() {
        assert(commits.take(n) == commits);
    } else {
        assert(commits.drop_last().take(n) == commits.take(n));
        lemma_failure_stays(commits.drop_last(), n);
    }
}

/// List the first `limit` of the commits as checkpoints.
fn list_commits(commits: Vec<WalkedCommit>, limit: usize) -> (list: WikiResult<Vec<Checkpoint>>)
    ensures
        list_view(list) == checkpoints_of(latest(commits@, limit as nat)),
{
    let length: usize = if limit < commits.len() {
        limit
    } else {
        commits.len()
    };
    let ghost first = latest(commits@, limit as nat);
    let mut list: Vec<Checkpoint> = Vec::new();
    let mut i: usize = 0;
    assert(checkpoint_views(list@) == Seq::<CheckpointView>::empty());
    while i < length
        invariant
            i <= length,
            length == first.len(),
            length <= commits@.len(),
            first == latest(commits@, limit as nat),
            first == commits@.take(length as int),
            checkpoints_of(first.take(i as int)) == RecentActionView::Found(
                checkpoint_views(list@),
            ),
        decreases length - i,
    {
        let ghost earlier = list@;
        assert(first.take(i + 1).drop_last() == first.take(i as int));
        assert(first.take(i + 1).last() == commits@[i as int]);
        match &commits[i] {
            WalkedCommit::Read { oid, message, time } => {
                let summary = match message_bytes_summary(message) {
                    Some(summary) => summary,
                    None => NO_SUMMARY.to_string(),
                };
                let checkpoint = Checkpoint { oid: oid.clone(), summary, time: *time };
                list.push(checkpoint);
                assert(checkpoint_views(list@) == checkpoint_views(earlier).push(checkpoint@));
            },
            WalkedCommit::Failed(e) => {
                proof {
                    lemma_failure_stays(first, i + 1);
                }
                return Err(WikiError::Io(e.text.clone()));
            },
        }
        i = i + 1;
    }
    assert(first.take(length as int) == first);
    Ok(list)
}

/// The latest commits, now that `git` has been asked for them.
pub fn recent_checkpoints_fallback(outcome: GitOutcome) -> (list: WikiResult<Vec<Checkpoint>>)
    ensures
        list_view(list) == (match printed_by(outcome) {
            Some(stdout) => RecentActionView::Found(checkpoints_of_log(printed_text(stdout))),
            None => RecentActionView::Fail(command_failure(outcome)),
        }),
{
    match git_output(outcome) {
        Ok(stdout) => Ok(parse_log(text_of_bytes(&stdout).as_str())),
        Err(e) => Err(e),
    }
}

impl GitAdapter {
    /// Return the most recent commits reachable from the head: what to do
    /// first. No commits are at hand without looking.
    pub fn recent_checkpoints(&self, limit: usize) -> (action: RecentAction)
        ensures
            action@ == (if limit == 0 {
                RecentActionView::Found(Seq::empty())
            } else {
                RecentActionView::Walk
            }),
    {
        if limit == 0 {
            let list: Vec<Checkpoint> = Vec::new();
            assert(checkpoint_views(list@) == Seq::<CheckpointView>::empty());
            RecentAction::Finish(Ok(list))
        } else {
            RecentAction::Walk
        }
    }

    /// Return the most recent commits reachable from the head, now that they
    /// have been walked. Empty repositories return an empty list.
    pub fn checkpoints_walked(
        &self,
        limit: usize,
        walk: RecentWalk,
        windows: bool,
    ) -> (action: RecentAction)
        ensures
            action@ == after_walk(walk, limit as nat, windows),
    {
        match walk {
            RecentWalk::NotOpened(e) => {
                if windows {
                    RecentAction::Run(log_command(limit))
                } else {
                    RecentAction::Finish(Err(map_git_err(e)))
                }
            },
            RecentWalk::NoWalk(e) => RecentAction::Finish(Err(map_git_err(e))),
            RecentWalk::NoHead => {
                let list: Vec<Checkpoint> = Vec::new();
                assert(checkpoint_views(list@) == Seq::<CheckpointView>::empty());
                RecentAction::Finish(Ok(list))
            },
            RecentWalk::Walked(commits) => RecentAction::Finish(list_commits(commits, limit)),
        }
    }
}

// ---------------------------------------------------------------------------
// A file as it was
// ---------------------------------------------------------------------------

/// What came of looking for a file at a revision with the git library.
#[derive(Debug)]
pub enum FileLookup {
    /// The repository did not open.
    NotOpened(GitFailure),
    /// The revision, the path or the object could not be read.
    Failed(GitFailure),
    /// What is there is not a file.
    NotAFile,
    /// What is stored of the file.
    Found(Vec<u8>),
}

/// What to do next to read a file.
#[derive(Debug)]
pub enum FileAction {
    /// Run `git` with these arguments.
    Run(Vec<String>),
    /// What is stored of the file, or why it cannot be had.
    Finish(WikiResult<Vec<u8>>),
}

/// A file as it was, now that `git` has been asked for it.
pub fn file_at_rev_fallback(outcome: GitOutcome) -> (content: WikiResult<Vec<u8>>)
    ensures
        (match printed_by(outcome) {
            Some(stdout) => content is Ok && content->Ok_0@ == stdout,
            None => content is Err && content->Err_0->Io_0@ == command_failure(outcome),
        }),
{
    git_output(outcome)
}

impl GitAdapter {
    /// Read `path` as it existed at `rev`, now that the git library has looked
    /// for it. The bytes are those stored in git, exactly.
    pub fn file_at_rev(
        &self,
        rev: &str,
        path: &str,
        lookup: FileLookup,
        windows: bool,
    ) -> (action: FileAction)
        ensures
            (match lookup {
                FileLookup::NotOpened(e) => if windows {
                    action is Run && views(action->Run_0@) == show_args(rev@, path@)
                } else {
                    action == FileAction::Finish(Err(WikiError::Io(e.text)))
                },
                FileLookup::Failed(e) => action == FileAction::Finish(Err(WikiError::Io(e.text))),
                FileLookup::NotAFile => {
                    &&& action is Finish
                    &&& action->Finish_0 is Err
                    &&& action->Finish_0->Err_0->Io_0@ == path@ + " at "@ + rev@
                        + " is not a file"@
                },
                FileLookup::Found(content) => action == FileAction::Finish(Ok(content)),
            }),
    {
        match lookup {
            FileLookup::NotOpened(e) => {
                if windows {
                    FileAction::Run(show_command(rev, path))
                } else {
                    FileAction::Finish(Err(map_git_err(e)))
                }
            },
            FileLookup::Failed(e) => FileAction::Finish(Err(map_git_err(e))),
            FileLookup::NotAFile => {
                let mut text = path.to_string();
                text.append(" at ");
                text.append(rev);
                text.append(" is not a file");
                FileAction::Finish(Err(WikiError::Io(text)))
            },
            FileLookup::Found(content) => FileAction::Finish(Ok(content)),
        }
    }
}

// ---------------------------------------------------------------------------
// What holds of every history
// ---------------------------------------------------------------------------

/// Commits that can all be read are listed one for one, in the order of the
/// walk; otherwise the first failure is reported.
pub proof fn commits_are_listed_in_order(commits: Seq<WalkedCommit>)
    ensures
        (forall|i: int| 0 <= i < commits.len() ==> (#[trigger] commits[i]) is Read)
            ==> checkpoints_of(commits) == RecentActionView::Found(
            commits.map_values(|c: WalkedCommit| checkpoint_of(c)),
        ),
        forall|i: int|
            0 <= i < commits.len() && (#[trigger] commits[i]) is Failed && (forall|j: int|
                0 <= j < i ==> (#[trigger] commits[j]) is Read) ==> checkpoints_of(commits)
                == RecentActionView::Fail(commits[i]->Failed_0.text@),
    decreases commits.len(),
{
    let all = commits.map_values(|c: WalkedCommit| checkpoint_of(c));
    if commits.len() == 0 {
        assert(all == Seq::<CheckpointView>::empty());
    } else {
        let rest = commits.drop_last();
        commits_are_listed_in_order(rest);
        if forall|i: int| 0 <= i < rest.len() ==> (#[trigger] commits[i]) is Read {
            assert forall|i: int| 0 <= i < rest.len() implies (#[trigger] rest[i]) is Read by {
                assert(rest[i] == commits[i]);
            }
            assert(all == rest.map_values(|c: WalkedCommit| checkpoint_of(c)).push(
                checkpoint_of(commits.last()),
            ));
        }
        assert forall|i: int|
            0 <= i < commits.len() && (#[trigger] commits[i]) is Failed && (forall|j: int|
                0 <= j < i ==> (#[trigger] commits[j]) is Read) implies checkpoints_of(commits)
            == RecentActionView::Fail(commits[i]->Failed_0.text@) by {
            if i < rest.len() {
                assert(rest[i] == commits[i]);
                assert forall|j: int| 0 <= j < i implies (#[trigger] rest[j]) is Read by {
                    assert(rest[j] == commits[j]);
                }
            }
        }
    }
}

/// A longer list goes on where a shorter one ends. Of commits that can be read, a
/// list has as many as were asked for, or all if there are fewer; and the list
/// for a smaller limit is the beginning of that for a larger one.
pub proof fn a_smaller_limit_gives_a_beginning(commits: Seq<WalkedCommit>, m: nat, n: nat)
    requires
        m <= n,
        forall|i: int| 0 <= i < commits.len() ==> (#[trigger] commits[i]) is Read,
    ensures
        checkpoints_of(latest(commits, n)) is Found,
        ({
            let longer = checkpoints_of(latest(commits, n))->Found_0;
            &&& longer.len() == if n <= commits.len() {
                n
            } else {
                commits.len()
            }
            &&& checkpoints_of(latest(commits, m)) == RecentActionView::Found(
                if m <= longer.len() {
                    longer.take(m as int)
                } else {
                    longer
                },
            )
        }),
{
    let all = commits.map_values(|c: WalkedCommit| checkpoint_of(c));
    lemma_latest_is_listed(commits, m);
    lemma_latest_is_listed(commits, n);
    let longer = checkpoints_of(latest(commits, n))->Found_0;
    if m <= longer.len() {
        assert(checkpoints_of(latest(commits, m))->Found_0 == longer.take(m as int));
    } else {
        assert(checkpoints_of(latest(commits, m))->Found_0 == longer);
    }
}

/// The latest of commits that can be read are listed one for one.
proof fn lemma_latest_is_listed(commits: Seq<WalkedCommit>, limit: nat)
    requires
        forall|i: int| 0 <= i < commits.len() ==> (#[trigger] commits[i]) is Read,
    ensures
        checkpoints_of(latest(commits, limit)) == RecentActionView::Found(
            latest(commits, limit).map_values(|c: WalkedCommit| checkpoint_of(c)),
        ),
{
    let first = latest(commits, limit);
    assert forall|i: int| 0 <= i < first.len() implies (#[trigger] first[i]) is Read by {
        assert(first[i] == commits[i]);
    }
    commits_are_listed_in_order(first);
}

/// No more checkpoints are listed than were asked for, whatever came of the
/// walk; and a repository without commits has an empty list.
pub proof fn a_list_keeps_its_limit(walk: RecentWalk, limit: nat, windows: bool)
    ensures
        after_walk(walk, limit, windows) matches RecentActionView::Found(list) ==> list.len()
            <= limit,
        walk is NoHead ==> after_walk(walk, limit, windows) == RecentActionView::Found(
            Seq::empty(),
        ),
{
    if let RecentWalk::Walked(commits) = walk {
        lemma_list_length(latest(commits@, limit));
    }
}

proof fn lemma_list_length(commits: Seq<WalkedCommit>)
    ensures
        checkpoints_of(commits) matches RecentActionView::Found(list) ==> list.len()
            == commits.len(),
    decreases commits.len(),
{
    if commits.len() > 0 {
        lemma_list_length(commits.drop_last());
    }
}

/// What the log holds of a commit.
pub open spec fn logged(commit: WalkedCommit) -> LoggedCommit {
    LoggedCommit {
        oid: commit->oid@,
        time: commit->time as int,
        message: decode_utf8(commit->message@),
    }
}

/// The git library and the `git` command give the same list: what is read from
/// the log of some commits, as text or in the bytes that are printed of it, is
/// what is listed of them. This holds where the
/// commits can be read, their messages encode texts that stand in a log, and the
/// first line of each message says something.
pub proof fn the_command_agrees_with_the_library(commits: Seq<WalkedCommit>)
    requires
        forall|i: int|
            0 <= i < commits.len() ==> {
                &&& (#[trigger] commits[i]) is Read
                &&& valid_utf8(commits[i]->message@)
                &&& is_loggable(logged(commits[i]))
                &&& summary_of(logged(commits[i]).message).len() > 0
            },
    ensures
        checkpoints_of(commits) == RecentActionView::Found(
            checkpoints_of_log(log_text(commits.map_values(|c: WalkedCommit| logged(c)))),
        ),
        checkpoints_of(commits) == RecentActionView::Found(
            checkpoints_of_log(
                printed_text(
                    encode_utf8(log_text(commits.map_values(|c: WalkedCommit| logged(c)))),
                ),
            ),
        ),
{
    let log = commits.map_values(|c: WalkedCommit| logged(c));
    commits_are_listed_in_order(commits);
    log_reads_back(log);
    assert forall|i: int| 0 <= i < commits.len() implies checkpoint_of(#[trigger] commits[i])
        == as_read(log[i]) by {
        let message = commits[i]->message@;
        decode_utf8_encode_utf8(message);
        a_message_is_cut_alike_in_bytes(decode_utf8(message));
    }
    assert(commits.map_values(|c: WalkedCommit| checkpoint_of(c)) == log.map_values(
        |c: LoggedCommit| as_read(c),
    ));
}

} // verus!
