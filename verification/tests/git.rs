use ai_memory::git::{
    map_git_err, should_try_commit_cli_fallback, GitAdapter, GitFailure, OpenAction, OpenEvent,
    WikiError, COMMIT_AUTHOR_EMAIL, COMMIT_AUTHOR_NAME,
};
use ai_memory::git_cli::{
    commit_all_fallback, count_command, git_output, log_command, printed_oid, run_git,
    show_command, CliAction, GitOutcome,
};
use ai_memory::git_commit::{CommitAction, CommitEvent, CommitRun, HeadState};
use ai_memory::git_history::{
    commit_count_fallback, file_at_rev_fallback, recent_checkpoints_fallback, CountAction,
    CountWalk, FileAction, FileLookup, RecentAction, RecentWalk, WalkedCommit,
};
use ai_memory::git_log::{parse_log, parse_printed_count, text_of_bytes, Checkpoint};
use ai_memory::git_message::{message_bytes_summary, message_summary};
use std::path::PathBuf;

fn failure(text: &str) -> GitFailure {
    GitFailure {
        not_found: false,
        os: false,
        message: text.into(),
        text: format!("{text}; class=Repository (6)"),
    }
}

fn io_text(e: WikiError) -> String {
    match e {
        WikiError::Io(text) => text,
    }
}

fn adapter() -> GitAdapter {
    let (run, _) = GitAdapter::open_or_init(PathBuf::from("/wiki"), false);
    let (run, _) = run.next(OpenEvent::Done);
    match run.unwrap().next(OpenEvent::Done) {
        (None, OpenAction::Ready(adapter)) => adapter,
        other => panic!("{other:?}"),
    }
}

fn exited(success: bool, stdout: &str, stderr: &str) -> GitOutcome {
    GitOutcome::Exited {
        success,
        status: if success { "exit status: 0" } else { "exit status: 1" }.into(),
        stdout: stdout.into(),
        stderr: stderr.into(),
    }
}

/// Open a repository for good, with the git library.
fn open_on_disk(root: &PathBuf) -> (GitAdapter, usize) {
    let mut made: usize = 0;
    let (mut run, mut action) = GitAdapter::open_or_init(root.clone(), false);
    loop {
        let event = match action {
            // The library makes the directory together with the repository.
            OpenAction::CreateDirectory => OpenEvent::Done,
            OpenAction::Open => match git2::Repository::open(root) {
                Ok(_) => OpenEvent::Done,
                Err(e) => OpenEvent::Failed(GitFailure::from(e)),
            },
            OpenAction::Initialise => {
                made += 1;
                match git2::Repository::init(root) {
                    Ok(_) => OpenEvent::Done,
                    Err(e) => OpenEvent::Failed(GitFailure::from(e)),
                }
            }
            OpenAction::Ready(adapter) => return (adapter, made),
            other => panic!("{other:?}"),
        };
        assert!(run.expects(&event));
        let (next, asked) = run.next(event);
        action = asked;
        match next {
            Some(next) => run = next,
            None => match action {
                OpenAction::Ready(adapter) => return (adapter, made),
                other => panic!("{other:?}"),
            },
        }
    }
}

#[test]
fn init_is_idempotent_and_creates_dotgit() {
    let name = format!("ai-memory-{}", uuid::Uuid::new_v4());
    let root = PathBuf::from("/tmp").join(name).join("wiki");
    let (first, made) = open_on_disk(&root);
    assert_eq!(made, 1);
    assert!(root.join(".git").is_dir());
    assert_eq!(*first.root(), root);
    let (_second, made) = open_on_disk(&root);
    assert_eq!(made, 0);
    assert!(root.join(".git").is_dir());
}

#[test]
fn a_repository_that_opens_is_left_alone() {
    let (run, action) = GitAdapter::open_or_init(PathBuf::from("/w"), true);
    assert!(matches!(action, OpenAction::CreateDirectory));
    let (run, action) = run.next(OpenEvent::Done);
    assert!(matches!(action, OpenAction::Open));
    let (run, action) = run.unwrap().next(OpenEvent::Done);
    assert!(run.is_none());
    match action {
        OpenAction::Ready(adapter) => assert_eq!(*adapter.root(), PathBuf::from("/w")),
        other => panic!("{other:?}"),
    }
}

#[test]
fn a_directory_that_cannot_be_made_ends_it() {
    let (run, _) = GitAdapter::open_or_init(PathBuf::from("/w"), false);
    assert!(run.expects(&OpenEvent::NoDirectory("denied".into())));
    assert!(!run.expects(&OpenEvent::Failed(failure("x"))));
    assert!(!run.expects(&OpenEvent::CommandFailed));
    let (run, action) = run.next(OpenEvent::NoDirectory("denied".into()));
    assert!(run.is_none());
    match action {
        OpenAction::Fail(e) => assert_eq!(io_text(e), "denied"),
        other => panic!("{other:?}"),
    }
}

/// Fail to open, and fail to initialise.
fn failed_twice(windows: bool) -> (Option<ai_memory::git::OpenRun>, OpenAction) {
    let (run, _) = GitAdapter::open_or_init(PathBuf::from("/w"), windows);
    let (run, _) = run.next(OpenEvent::Done);
    let (run, action) = run.unwrap().next(OpenEvent::Failed(failure("no repository")));
    assert!(matches!(action, OpenAction::Initialise));
    run.unwrap().next(OpenEvent::Failed(failure("locked")))
}

#[test]
fn a_failed_init_is_reported() {
    let (run, action) = failed_twice(false);
    assert!(run.is_none());
    match action {
        OpenAction::Fail(e) => assert_eq!(io_text(e), "locked; class=Repository (6)"),
        other => panic!("{other:?}"),
    }
}

#[test]
fn the_command_may_still_init() {
    let (run, action) = failed_twice(true);
    assert!(matches!(action, OpenAction::InitialiseByCommand));
    let (run, action) = run.unwrap().next(OpenEvent::Done);
    assert!(run.is_none());
    assert!(matches!(action, OpenAction::Ready(_)));

    let (_, action) = failed_twice(true).0.unwrap().next(OpenEvent::CommandFailed);
    match action {
        OpenAction::Fail(e) => assert_eq!(io_text(e), "locked; class=Repository (6)"),
        other => panic!("{other:?}"),
    }

    let event = OpenEvent::CommandNotStarted("no git".into());
    let (_, action) = failed_twice(true).0.unwrap().next(event);
    match action {
        OpenAction::Fail(e) => assert_eq!(
            io_text(e),
            "locked; class=Repository (6); git init fallback failed to start: no git"
        ),
        other => panic!("{other:?}"),
    }
}

#[test]
fn a_failure_is_what_the_library_reports() {
    let e = git2::Error::new(git2::ErrorCode::NotFound, git2::ErrorClass::Os, "gone");
    let text = e.to_string();
    let failure = GitFailure::from(e);
    assert!(failure.not_found && failure.os);
    assert_eq!(failure.message, "gone");
    assert_eq!(failure.text, text);
    assert_ne!(failure.text, failure.message);
    let e = git2::Error::new(git2::ErrorCode::Locked, git2::ErrorClass::Index, "held");
    let failure = GitFailure::from(e);
    assert!(!failure.not_found && !failure.os);
    assert_eq!(failure.message, "held");
}

#[test]
fn a_failure_keeps_its_text() {
    assert_eq!(io_text(map_git_err(failure("x"))), "x; class=Repository (6)");
}

#[test]
fn the_command_is_tried_where_it_may_help() {
    let mut e = failure("failed to resolve path 'x': denied");
    assert!(!should_try_commit_cli_fallback(&e, true));
    e.os = true;
    assert!(should_try_commit_cli_fallback(&e, true));
    assert!(!should_try_commit_cli_fallback(&e, false));
    e.message = "something else".into();
    assert!(!should_try_commit_cli_fallback(&e, true));
    e.not_found = true;
    assert!(should_try_commit_cli_fallback(&e, false));
}

fn steps(windows: bool, events: Vec<CommitEvent>) -> (CommitRun, CommitAction) {
    let (mut run, mut action) = adapter().commit_all("msg", windows);
    assert!(matches!(action, CommitAction::OpenRepository));
    for event in events {
        assert!(run.expects(&event), "{event:?}");
        let next = run.next(event);
        run = next.0;
        action = next.1;
    }
    (run, action)
}

fn staged_tree(touched: usize) -> Vec<CommitEvent> {
    let mut events = vec![
        CommitEvent::Done,
        CommitEvent::Done,
        CommitEvent::Staged { touched },
    ];
    if touched > 0 {
        events.push(CommitEvent::Done);
    }
    events.push(CommitEvent::TreeWritten { tree: "t2".into() });
    events
}

#[test]
fn a_change_is_committed_on_top_of_the_head() {
    let mut events = staged_tree(1);
    events.push(CommitEvent::HeadRead {
        head: HeadState::At {
            commit: "c1".into(),
            tree: Some("t1".into()),
        },
        index_is_empty: false,
    });
    let (run, action) = steps(false, events);
    match action {
        CommitAction::Commit {
            tree,
            parent,
            message,
            name,
            email,
        } => {
            assert_eq!(tree, "t2");
            assert_eq!(parent.as_deref(), Some("c1"));
            assert_eq!(message, "msg");
            assert_eq!(name, COMMIT_AUTHOR_NAME);
            assert_eq!(email, COMMIT_AUTHOR_EMAIL);
            assert_eq!((name, email), ("ai-memory", "ai-memory@local"));
        }
        other => panic!("{other:?}"),
    }
    let (_, action) = run.next(CommitEvent::CommitMade {
        commit: "c2".into(),
    });
    match action {
        CommitAction::Committed(oid) => assert_eq!(oid, "c2"),
        other => panic!("{other:?}"),
    }
}

#[test]
fn nothing_is_committed_where_nothing_changed() {
    let mut events = staged_tree(0);
    events.push(CommitEvent::HeadRead {
        head: HeadState::At {
            commit: "c1".into(),
            tree: Some("t2".into()),
        },
        index_is_empty: false,
    });
    let (run, action) = steps(false, events);
    assert!(matches!(action, CommitAction::Clean));
    assert!(!run.expects(&CommitEvent::Done));
    assert!(!run.expects(&CommitEvent::Failed(failure("late"))));
}

#[test]
fn a_fresh_repository_commits_only_what_is_there() {
    for (head, empty, commits) in [
        (HeadState::Missing, true, false),
        (HeadState::Missing, false, true),
        (HeadState::Unborn, true, true),
    ] {
        let mut events = staged_tree(0);
        events.push(CommitEvent::HeadRead {
            head,
            index_is_empty: empty,
        });
        let (_, action) = steps(false, events);
        match action {
            CommitAction::Commit { parent, .. } => assert!(commits && parent.is_none()),
            CommitAction::Clean => assert!(!commits),
            other => panic!("{other:?}"),
        }
    }
}

#[test]
fn a_head_that_cannot_be_read_is_still_the_parent() {
    let mut events = staged_tree(0);
    events.push(CommitEvent::HeadRead {
        head: HeadState::At {
            commit: "c1".into(),
            tree: None,
        },
        index_is_empty: false,
    });
    match steps(false, events).1 {
        CommitAction::Commit { parent, .. } => assert_eq!(parent.as_deref(), Some("c1")),
        other => panic!("{other:?}"),
    }
}

#[test]
fn a_broken_index_is_hashed_again_once() {
    let (run, action) = steps(
        false,
        vec![
            CommitEvent::Done,
            CommitEvent::Done,
            CommitEvent::Staged { touched: 0 },
            CommitEvent::Failed(failure("missing blob")),
        ],
    );
    assert!(matches!(action, CommitAction::ClearIndex));
    let (run, action) = run.next(CommitEvent::Done);
    assert!(matches!(action, CommitAction::StageWorkingTree));
    let (run, action) = run.next(CommitEvent::Staged { touched: 3 });
    assert!(matches!(action, CommitAction::WriteIndex));
    let (run, action) = run.next(CommitEvent::Done);
    assert!(matches!(action, CommitAction::WriteTree));
    let (_, action) = run.next(CommitEvent::Failed(failure("still missing")));
    match action {
        CommitAction::Fail(e) => assert_eq!(io_text(e), "still missing; class=Repository (6)"),
        other => panic!("{other:?}"),
    }
}

#[test]
fn staging_writes_the_index_only_if_it_touched_something() {
    for (touched, writes) in [(0, false), (1, true)] {
        let (_, action) = steps(
            false,
            vec![
                CommitEvent::Done,
                CommitEvent::Done,
                CommitEvent::Staged { touched },
            ],
        );
        assert_eq!(matches!(action, CommitAction::WriteIndex), writes);
        assert_eq!(matches!(action, CommitAction::WriteTree), !writes);
    }
}

#[test]
fn only_a_repository_that_does_not_open_is_left_to_the_command() {
    let mut e = failure("x");
    e.not_found = true;
    match steps(true, vec![CommitEvent::Failed(e)]).1 {
        CommitAction::UseCommand { original, message } => {
            assert_eq!(original.message, "x");
            assert_eq!(message, "msg");
        }
        other => panic!("{other:?}"),
    }
    let mut e = failure("x");
    e.not_found = true;
    assert!(matches!(
        steps(false, vec![CommitEvent::Failed(e)]).1,
        CommitAction::Fail(_)
    ));
    let mut e = failure("x");
    e.not_found = true;
    assert!(matches!(
        steps(true, vec![CommitEvent::Done, CommitEvent::Failed(e)]).1,
        CommitAction::Fail(_)
    ));
}

fn run_args(action: CliAction) -> Vec<String> {
    match action {
        CliAction::Run(args) => args,
        other => panic!("{other:?}"),
    }
}

#[test]
fn the_command_commits_in_four_runs() {
    let (run, action) = commit_all_fallback("add foo", failure("lost"));
    assert_eq!(run_args(action), vec!["add", "-A"]);
    let (run, action) = run.next(exited(true, "", ""));
    assert_eq!(
        run_args(action),
        vec!["diff", "--cached", "--quiet", "--exit-code"]
    );
    let (run, action) = run.unwrap().next(exited(false, "", ""));
    assert_eq!(
        run_args(action),
        vec![
            "-c",
            "user.name=ai-memory",
            "-c",
            "user.email=ai-memory@local",
            "commit",
            "-q",
            "-m",
            "add foo"
        ]
    );
    let (run, action) = run.unwrap().next(exited(true, "", ""));
    assert_eq!(run_args(action), vec!["rev-parse", "HEAD"]);
    let oid = "0123456789abcdef0123456789abcdef01234567";
    let (run, action) = run.unwrap().next(exited(true, &format!("{oid}\n"), ""));
    assert!(run.is_none());
    match action {
        CliAction::Finish(Ok(Some(name))) => assert_eq!(name, oid),
        other => panic!("{other:?}"),
    }
}

#[test]
fn the_command_stops_where_nothing_is_staged() {
    let (run, _) = commit_all_fallback("m", failure("lost"));
    let (run, _) = run.next(exited(true, "", ""));
    let (run, action) = run.unwrap().next(exited(true, "", ""));
    assert!(run.is_none());
    assert!(matches!(action, CliAction::Finish(Ok(None))));
}

fn fails_with(step: (Option<ai_memory::git_cli::CliCommit>, CliAction), text: &str) {
    assert!(step.0.is_none());
    match step.1 {
        CliAction::Finish(Err(e)) => assert_eq!(io_text(e), text),
        other => panic!("{other:?}"),
    }
}

#[test]
fn each_run_of_the_command_can_fail() {
    let start = || commit_all_fallback("m", failure("lost")).0;
    let compared = || start().next(exited(true, "", "")).0.unwrap();
    let committed = || compared().next(exited(false, "", "")).0.unwrap();
    let named = || committed().next(exited(true, "", "")).0.unwrap();
    let absent = || GitOutcome::NotStarted("no git".into());
    let status = "git fallback exited with status exit status: 1";

    fails_with(start().next(absent()), "no git");
    fails_with(start().next(exited(false, "", "e")), status);
    fails_with(
        compared().next(absent()),
        "lost; class=Repository (6); git diff fallback failed to start: no git",
    );
    fails_with(committed().next(absent()), "no git");
    fails_with(committed().next(exited(false, "", "e")), status);
    fails_with(named().next(absent()), "no git");
    fails_with(
        named().next(exited(false, "", "bad head")),
        "git fallback exited with status exit status: 1: bad head",
    );
    let text = git2::Oid::from_str("HEAD").unwrap_err().to_string();
    fails_with(named().next(exited(true, "HEAD\n", "")), &text);
}

#[test]
fn a_printed_name_is_read_as_the_library_reads_it() {
    assert_eq!(
        printed_oid(" ABC\r\n").unwrap(),
        "abc0000000000000000000000000000000000000"
    );
    let full = "f".repeat(40);
    assert_eq!(printed_oid(&full).unwrap(), full);
    for text in ["", "xyz", "12 4", "é"] {
        let theirs = git2::Oid::from_str(text).unwrap_err().to_string();
        assert_eq!(io_text(printed_oid(text).unwrap_err()), theirs);
    }
    for (text, wrong) in [
        ("".to_string(), "too short"),
        ("f".repeat(41), "too long"),
        ("é".repeat(21), "too long"),
        ("é".repeat(20), "contains invalid characters"),
    ] {
        let said = format!("unable to parse OID - {wrong}; class=Invalid (3)");
        assert_eq!(io_text(printed_oid(&text).unwrap_err()), said);
        assert_eq!(git2::Oid::from_str(&text).unwrap_err().to_string(), said);
    }
    for text in ["0", "9aF", "DEADbeef"] {
        let theirs = git2::Oid::from_str(text).unwrap().to_string();
        assert_eq!(printed_oid(text).unwrap(), theirs);
    }
}

#[test]
fn the_outcome_of_a_command_is_its_output_or_an_error() {
    assert!(run_git(exited(true, "out", "")).is_ok());
    assert_eq!(
        io_text(run_git(GitOutcome::NotStarted("no git".into())).unwrap_err()),
        "no git"
    );
    assert_eq!(git_output(exited(true, "out", "")).unwrap(), b"out");
    let bytes = GitOutcome::Exited {
        success: false,
        status: "s".into(),
        stdout: vec![],
        stderr: vec![0x61, 0xff],
    };
    assert_eq!(
        io_text(git_output(bytes).unwrap_err()),
        "git fallback exited with status s: a\u{fffd}"
    );
}

#[test]
fn the_command_is_asked_for_history() {
    assert_eq!(count_command(), vec!["rev-list", "--count", "HEAD"]);
    assert_eq!(
        log_command(10),
        vec!["log", "-z", "-n", "10", "--format=%H%x1f%at%x1f%B"]
    );
    assert_eq!(
        show_command("HEAD~1", "notes\\a.md"),
        vec!["show", "HEAD~1:notes/a.md"]
    );
}

#[test]
fn commits_are_counted() {
    let git = adapter();
    assert!(matches!(
        git.commit_count(CountWalk::Walked(7), false),
        CountAction::Finish(7)
    ));
    assert!(matches!(
        git.commit_count(CountWalk::NoHead, true),
        CountAction::Finish(0)
    ));
    assert!(matches!(
        git.commit_count(CountWalk::NotOpened, false),
        CountAction::Finish(0)
    ));
    match git.commit_count(CountWalk::NotOpened, true) {
        CountAction::Run(args) => assert_eq!(args, count_command()),
        other => panic!("{other:?}"),
    }
    assert_eq!(commit_count_fallback(exited(true, "42\n", "")), 42);
    assert_eq!(commit_count_fallback(exited(true, "many\n", "")), 0);
    assert_eq!(commit_count_fallback(exited(false, "42\n", "")), 0);
    assert_eq!(commit_count_fallback(GitOutcome::NotStarted("x".into())), 0);
    assert_eq!(parse_printed_count("  +5 "), 5);
    assert_eq!(parse_printed_count("-5"), 0);
    assert_eq!(parse_printed_count("99999999999999999999"), 0);
}

fn shown(list: &[Checkpoint]) -> Vec<(&str, &str, i64)> {
    list.iter()
        .map(|c| (c.oid.as_str(), c.summary.as_str(), c.time))
        .collect()
}

fn read(oid: &str, message: &str, time: i64) -> WalkedCommit {
    WalkedCommit::Read {
        oid: oid.into(),
        message: message.into(),
        time,
    }
}

#[test]
fn the_latest_commits_are_listed_newest_first() {
    let git = adapter();
    assert!(matches!(git.recent_checkpoints(3), RecentAction::Walk));
    let commits = || {
        vec![
            read("b", "second checkpoint\n", 20),
            WalkedCommit::Read {
                oid: "a".into(),
                message: vec![0xff, b'\n', b'x'],
                time: -10,
            },
        ]
    };
    match git.checkpoints_walked(10, RecentWalk::Walked(commits()), false) {
        RecentAction::Finish(Ok(list)) => assert_eq!(
            shown(&list),
            vec![("b", "second checkpoint", 20), ("a", "(no summary)", -10)]
        ),
        other => panic!("{other:?}"),
    }
    match git.checkpoints_walked(1, RecentWalk::Walked(commits()), false) {
        RecentAction::Finish(Ok(list)) => {
            assert_eq!(shown(&list), vec![("b", "second checkpoint", 20)])
        }
        other => panic!("{other:?}"),
    }
}

#[test]
fn no_commits_are_looked_for_where_none_are_wanted() {
    match adapter().recent_checkpoints(0) {
        RecentAction::Finish(Ok(list)) => assert!(list.is_empty()),
        other => panic!("{other:?}"),
    }
}

#[test]
fn a_commit_that_cannot_be_read_fails_the_list() {
    let git = adapter();
    let commits = || {
        vec![
            read("b", "x", 1),
            WalkedCommit::Failed(failure("first")),
            WalkedCommit::Failed(failure("second")),
        ]
    };
    match git.checkpoints_walked(10, RecentWalk::Walked(commits()), false) {
        RecentAction::Finish(Err(e)) => assert_eq!(io_text(e), "first; class=Repository (6)"),
        other => panic!("{other:?}"),
    }
    assert!(matches!(
        git.checkpoints_walked(1, RecentWalk::Walked(commits()), false),
        RecentAction::Finish(Ok(_))
    ));
}

#[test]
fn a_repository_without_history_has_an_empty_list() {
    let git = adapter();
    match git.checkpoints_walked(5, RecentWalk::NoHead, false) {
        RecentAction::Finish(Ok(list)) => assert!(list.is_empty()),
        other => panic!("{other:?}"),
    }
    match git.checkpoints_walked(5, RecentWalk::NoWalk(failure("w")), true) {
        RecentAction::Finish(Err(e)) => assert_eq!(io_text(e), "w; class=Repository (6)"),
        other => panic!("{other:?}"),
    }
    match git.checkpoints_walked(5, RecentWalk::NotOpened(failure("o")), false) {
        RecentAction::Finish(Err(e)) => assert_eq!(io_text(e), "o; class=Repository (6)"),
        other => panic!("{other:?}"),
    }
    match git.checkpoints_walked(5, RecentWalk::NotOpened(failure("o")), true) {
        RecentAction::Run(args) => assert_eq!(args, log_command(5)),
        other => panic!("{other:?}"),
    }
}

#[test]
fn a_summary_is_the_first_line_of_the_message() {
    for (message, summary) in [
        ("", ""),
        ("one", "one"),
        ("one\n", "one"),
        ("line one\nline two", "line one"),
        ("line one\n\nbody", "line one"),
        ("line one \t\r\nline two", "line one"),
        ("  indented\n", "  indented"),
        ("\n\nlate\nrest", "late"),
        ("\n", ""),
        ("Gr\u{fc}\u{df}e\nx", "Gr\u{fc}\u{df}e"),
    ] {
        assert_eq!(message_summary(message), summary, "{message:?}");
        assert_eq!(
            message_bytes_summary(&message.as_bytes().to_vec()).as_deref(),
            Some(summary),
            "{message:?}"
        );
    }
    assert_eq!(message_bytes_summary(&vec![b'a', 0xff]), None);
    assert_eq!(
        message_bytes_summary(&vec![b'a', b'\n', 0xff]).as_deref(),
        Some("a")
    );
}

#[test]
fn the_summary_of_a_commit_on_disk_is_its_first_line() {
    let name = format!("ai-memory-{}", uuid::Uuid::new_v4());
    let root = PathBuf::from("/tmp").join(name).join("wiki");
    let (git, _) = open_on_disk(&root);
    let repo = git2::Repository::open(&root).unwrap();
    let tree = repo.treebuilder(None).unwrap().write().unwrap();
    let tree = repo.find_tree(tree).unwrap();
    let sig = git2::Signature::new("ai-memory", "ai-memory@local", &git2::Time::new(77, 0)).unwrap();
    repo.commit(Some("HEAD"), &sig, &sig, "line one\nline two", &tree, &[])
        .unwrap();
    let mut walk = repo.revwalk().unwrap();
    walk.push_head().unwrap();
    let commits = walk
        .map(|oid| {
            let commit = repo.find_commit(oid.unwrap()).unwrap();
            let time = commit.author().when().seconds();
            WalkedCommit::Read {
                oid: commit.id().to_string(),
                message: commit.message_raw_bytes().to_vec(),
                time,
            }
        })
        .collect();
    match git.checkpoints_walked(1, RecentWalk::Walked(commits), false) {
        RecentAction::Finish(Ok(list)) => {
            assert_eq!(list.len(), 1);
            assert_eq!(list[0].summary, "line one");
            assert_eq!(list[0].time, 77);
        }
        other => panic!("{other:?}"),
    }
}

#[test]
fn a_smaller_limit_gives_the_beginning_of_a_longer_list() {
    let git = adapter();
    let commits = || vec![read("c", "3", 3), read("b", "2", 2), read("a", "1", 1)];
    let list = |limit: usize| match git.checkpoints_walked(
        limit,
        RecentWalk::Walked(commits()),
        false,
    ) {
        RecentAction::Finish(Ok(list)) => list,
        other => panic!("{other:?}"),
    };
    let all = list(9);
    assert_eq!(all.len(), 3);
    for limit in 0..5 {
        let kept = limit.min(3);
        assert_eq!(shown(&list(limit)), shown(&all[..kept]));
    }
}

#[test]
fn a_log_is_read_record_by_record() {
    let list = parse_log(
        "b\u{1f}20\u{1f}second\nmore\u{1f}still\n\0noise\0a\u{1f}soon\u{1f}\0c\u{1f}5\u{1f}x\u{1f}y\0",
    );
    assert_eq!(
        shown(&list),
        vec![
            ("b", "second", 20),
            ("a", "(no summary)", 0),
            ("c", "x\u{1f}y", 5)
        ]
    );
    assert_eq!(
        shown(&parse_log("c\u{1f}-9223372036854775808\u{1f}s")),
        vec![("c", "s", i64::MIN)]
    );
    assert!(parse_log("").is_empty());
}

#[test]
fn the_command_lists_the_same_commits() {
    let log = "b\u{1f}20\u{1f}second checkpoint\n\nbody\n\0a\u{1f}-10\u{1f}\0";
    let list = recent_checkpoints_fallback(exited(true, log, "")).unwrap();
    assert_eq!(
        shown(&list),
        vec![("b", "second checkpoint", 20), ("a", "(no summary)", -10)]
    );
    let commits = vec![read("b", "second checkpoint\n\nbody\n", 20)];
    match adapter().checkpoints_walked(1, RecentWalk::Walked(commits), false) {
        RecentAction::Finish(Ok(walked)) => assert_eq!(shown(&walked), shown(&list[..1])),
        other => panic!("{other:?}"),
    }
    assert_eq!(
        io_text(recent_checkpoints_fallback(exited(false, log, "no head")).unwrap_err()),
        "git fallback exited with status exit status: 1: no head"
    );
    let copy = list[0].clone();
    assert_eq!(shown(&[copy]), vec![("b", "second checkpoint", 20)]);
}

#[test]
fn printed_bytes_are_read_as_text() {
    let text = "Gr\u{fc}\u{df}e";
    assert_eq!(text_of_bytes(&text.as_bytes().to_vec()), text);
    assert_eq!(text_of_bytes(&vec![0x61, 0xff, 0x62]), "a\u{fffd}b");
    let log = format!("a\u{1f}1\u{1f}{text}\nrest\0");
    let list = recent_checkpoints_fallback(exited(true, &log, "")).unwrap();
    assert_eq!(shown(&list), vec![("a", text, 1)]);
}

#[test]
fn a_second_commit_is_clean_where_nothing_changed() {
    let head = |commit: &str, tree: &str| CommitEvent::HeadRead {
        head: HeadState::At {
            commit: commit.into(),
            tree: Some(tree.into()),
        },
        index_is_empty: false,
    };
    let mut events = staged_tree(1);
    events.push(head("c1", "t1"));
    events.push(CommitEvent::CommitMade {
        commit: "c2".into(),
    });
    assert!(matches!(steps(false, events).1, CommitAction::Committed(_)));
    let mut events = staged_tree(0);
    events.push(head("c2", "t2"));
    assert!(matches!(steps(false, events).1, CommitAction::Clean));
}

#[test]
fn a_handle_can_be_cloned() {
    let git = adapter();
    assert_eq!(git.clone().root(), git.root());
}

#[test]
fn a_file_is_read_as_it_was() {
    let git = adapter();
    let bytes = vec![0, 159, 146, 150];
    match git.file_at_rev("HEAD", "a.md", FileLookup::Found(bytes.clone()), false) {
        FileAction::Finish(Ok(content)) => assert_eq!(content, bytes),
        other => panic!("{other:?}"),
    }
    match git.file_at_rev("HEAD", "notes", FileLookup::NotAFile, false) {
        FileAction::Finish(Err(e)) => assert_eq!(io_text(e), "notes at HEAD is not a file"),
        other => panic!("{other:?}"),
    }
    match git.file_at_rev("HEAD", "a.md", FileLookup::Failed(failure("gone")), true) {
        FileAction::Finish(Err(e)) => assert_eq!(io_text(e), "gone; class=Repository (6)"),
        other => panic!("{other:?}"),
    }
    match git.file_at_rev("HEAD", "a.md", FileLookup::NotOpened(failure("o")), false) {
        FileAction::Finish(Err(e)) => assert_eq!(io_text(e), "o; class=Repository (6)"),
        other => panic!("{other:?}"),
    }
    match git.file_at_rev("v1", "d\\a.md", FileLookup::NotOpened(failure("o")), true) {
        FileAction::Run(args) => assert_eq!(args, vec!["show", "v1:d/a.md"]),
        other => panic!("{other:?}"),
    }
    assert_eq!(file_at_rev_fallback(exited(true, "x", "")).unwrap(), b"x");
    assert_eq!(
        io_text(file_at_rev_fallback(exited(false, "", "bad path")).unwrap_err()),
        "git fallback exited with status exit status: 1: bad path"
    );
}
