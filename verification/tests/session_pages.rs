use ai_memory::body::{
    human_ts, observation_kind_label, render_entry, render_raw_observation,
    render_raw_observations,
};
use ai_memory::clock::Timestamp;
use ai_memory::ids::{ObservationId, ProjectId, SessionId, WorkspaceId};
use ai_memory::observation::{Observation, ObservationKind};
use ai_memory::page::Tier;
use ai_memory::synth::{
    derive_title, format_duration, join_and, plural, session_summary, synthesize_session_page,
};
use ai_memory::tally::tally_session;

fn fresh() -> u128 {
    uuid::Uuid::new_v4().as_u128()
}

fn workspace() -> WorkspaceId {
    WorkspaceId { value: fresh() }
}

fn project() -> ProjectId {
    ProjectId { value: fresh() }
}

fn session() -> SessionId {
    SessionId { value: fresh() }
}

fn instant(at: jiff::Timestamp) -> Timestamp {
    Timestamp::from_parts(at.as_second(), at.subsec_nanosecond()).expect("every instant has parts")
}

fn label(kind: ObservationKind) -> &'static str {
    match kind {
        ObservationKind::SessionStart => "session_start",
        ObservationKind::SessionEnd => "session_end",
        ObservationKind::UserPrompt => "user_prompt",
        ObservationKind::PreToolUse => "pre_tool_use",
        ObservationKind::PostToolUse => "post_tool_use",
        ObservationKind::Other => "other",
    }
}

fn obs(kind: ObservationKind, title: &str) -> Observation {
    Observation {
        id: ObservationId { value: fresh() },
        session_id: session(),
        workspace_id: workspace(),
        project_id: project(),
        kind,
        kind_label: label(kind).to_string(),
        extension: None,
        source_event: None,
        title: title.into(),
        body: String::new(),
        importance: 5,
        created_at: instant(jiff::Timestamp::now()),
    }
}

fn obs_at(kind: ObservationKind, title: &str, at: &str) -> Observation {
    let mut o = obs(kind, title);
    o.created_at = instant(at.parse::<jiff::Timestamp>().expect("fixture timestamp"));
    o
}

#[test]
fn the_summary_states_the_shape_of_the_session() {
    let observations = vec![
        obs_at(
            ObservationKind::SessionStart,
            "session",
            "2026-08-24T10:00:00Z",
        ),
        obs(ObservationKind::UserPrompt, "bound the scheduler queue"),
        obs(ObservationKind::UserPrompt, "make the test deterministic"),
        // Pre+Post pairs: three completed calls, not six.
        obs(ObservationKind::PreToolUse, "Bash"),
        obs(ObservationKind::PostToolUse, "Bash"),
        obs(ObservationKind::PreToolUse, "Bash"),
        obs(ObservationKind::PostToolUse, "Bash"),
        obs(ObservationKind::PreToolUse, "Edit"),
        obs(ObservationKind::PostToolUse, "Edit"),
        obs_at(
            ObservationKind::SessionEnd,
            "session",
            "2026-08-24T10:18:00Z",
        ),
    ];
    assert_eq!(
        session_summary(&tally_session(&observations)),
        "2 prompts, 3 completed tool calls across Bash and Edit, over 18m."
    );
}

#[test]
fn the_summary_is_shaped_so_the_reader_does_not_drop_it() {
    let observations = vec![
        obs_at(
            ObservationKind::SessionStart,
            "session",
            "2026-08-24T10:00:00Z",
        ),
        obs(ObservationKind::UserPrompt, "bound the scheduler queue"),
        obs(ObservationKind::PostToolUse, "Bash"),
        obs_at(
            ObservationKind::SessionEnd,
            "session",
            "2026-08-24T10:05:00Z",
        ),
    ];
    let summary = session_summary(&tally_session(&observations));

    assert!(!summary.contains('\n'), "must stay one line: {summary:?}");
    assert!(
        !summary.starts_with('#')
            && !summary.starts_with("---")
            && !summary.starts_with("___")
            && !summary.starts_with("***"),
        "must not read as a structural line: {summary:?}"
    );
    assert!(
        !(summary.starts_with("- **") && summary.contains(":**")),
        "must not read as a metadata bullet: {summary:?}"
    );
    assert!(
        !summary.starts_with("- ") && !summary.starts_with("* ") && !summary.starts_with("+ "),
        "must not open with a list marker: {summary:?}"
    );
    assert_ne!(
        summary,
        derive_title(&observations),
        "a summary equal to the title is dropped as a repeat"
    );
}

#[test]
fn a_session_with_nothing_to_report_gets_no_summary() {
    let lifecycle_only = vec![
        obs_at(
            ObservationKind::SessionStart,
            "session-start",
            "2026-08-24T10:00:00Z",
        ),
        obs_at(
            ObservationKind::SessionEnd,
            "session-end",
            "2026-08-24T10:00:00Z",
        ),
    ];
    assert_eq!(session_summary(&tally_session(&lifecycle_only)), "");

    let page = synthesize_session_page(workspace(), project(), session(), &lifecycle_only);
    assert!(page.frontmatter_json.get("summary").is_none());
}

#[test]
fn the_synthesised_page_carries_the_summary() {
    let observations = vec![
        obs_at(
            ObservationKind::SessionStart,
            "session",
            "2026-08-24T10:00:00Z",
        ),
        obs(ObservationKind::UserPrompt, "bound the scheduler queue"),
        obs(ObservationKind::PostToolUse, "Bash"),
        obs_at(
            ObservationKind::SessionEnd,
            "session",
            "2026-08-24T10:05:00Z",
        ),
    ];
    let page = synthesize_session_page(workspace(), project(), session(), &observations);
    assert_eq!(
        page.frontmatter_json["summary"],
        serde_json::Value::String(
            "1 prompt, 1 completed tool call across Bash, over 5m.".to_string()
        )
    );
}

#[test]
fn many_tools_are_named_by_volume_then_counted() {
    let mut observations = vec![obs(ObservationKind::UserPrompt, "do the thing")];
    for (tool, calls) in [
        ("Bash", 5),
        ("Edit", 4),
        ("Read", 3),
        ("Grep", 2),
        ("Glob", 1),
    ] {
        for _ in 0..calls {
            observations.push(obs(ObservationKind::PostToolUse, tool));
        }
    }
    assert_eq!(
        session_summary(&tally_session(&observations)),
        "1 prompt, 15 completed tool calls across Bash, Edit and Read and 2 more."
    );
}

#[test]
fn title_falls_back_through_kinds() {
    let no_prompt = vec![obs(ObservationKind::PostToolUse, "Edit")];
    assert_eq!(derive_title(&no_prompt), "Edit");

    let empty: Vec<Observation> = vec![];
    assert_eq!(derive_title(&empty), "session");

    let with_prompt = vec![
        obs(ObservationKind::PostToolUse, "Edit"),
        obs(ObservationKind::UserPrompt, "fix the auth bug"),
    ];
    assert_eq!(derive_title(&with_prompt), "fix the auth bug");
}

#[test]
fn body_includes_tool_counts_and_prompts() {
    let observations = vec![
        obs(ObservationKind::SessionStart, "session"),
        obs(ObservationKind::UserPrompt, "build the thing"),
        obs(ObservationKind::PreToolUse, "Edit"),
        obs(ObservationKind::PostToolUse, "Edit"),
        obs(ObservationKind::PreToolUse, "Edit"),
        obs(ObservationKind::PostToolUse, "Edit"),
        obs(ObservationKind::PreToolUse, "Bash"),
        obs(ObservationKind::PostToolUse, "Bash"),
        obs(ObservationKind::SessionEnd, "session"),
    ];
    let page = synthesize_session_page(workspace(), project(), session(), &observations);
    assert!(page.title.contains("build the thing"));
    assert!(page.body.contains("`Edit`: 2"));
    assert!(page.body.contains("`Bash`: 1"));
    assert!(page.body.contains("build the thing"));
}

#[test]
fn pre_only_tool_calls_are_not_counted() {
    let observations = vec![
        obs(ObservationKind::PreToolUse, "Bash"),
        obs(ObservationKind::PreToolUse, "Bash"),
        obs(ObservationKind::PostToolUse, "Bash"),
    ];
    let page = synthesize_session_page(workspace(), project(), session(), &observations);
    assert!(page.body.contains("`Bash`: 1"));
}

#[test]
fn body_includes_opt_in_extension_source_event() {
    let mut custom = obs(ObservationKind::Other, "Lead contacted");
    custom.extension = Some("fstech".into());
    custom.source_event = Some("lead.contact".into());

    let page = synthesize_session_page(workspace(), project(), session(), &[custom]);

    assert!(page.body.contains("`other [fstech:lead.contact]`"));
}

#[test]
fn raw_observations_small_session_includes_all_entries() {
    let observations: Vec<Observation> = (0..5)
        .map(|i| obs(ObservationKind::Other, &format!("entry-{i}")))
        .collect();

    let page = synthesize_session_page(workspace(), project(), session(), &observations);

    for i in 0..5 {
        assert!(page.body.contains(&format!("entry-{i}")));
    }
    assert!(!page.body.contains("raw observations omitted"));
}

#[test]
fn raw_observations_large_session_omits_middle_with_count() {
    let observations: Vec<Observation> = (0..600)
        .map(|i| obs(ObservationKind::Other, &format!("entry-{i}")))
        .collect();

    let page = synthesize_session_page(workspace(), project(), session(), &observations);

    assert!(page.body.contains("entry-0"));
    assert!(page.body.contains("entry-249"));
    assert!(!page.body.contains("entry-250"));
    assert!(!page.body.contains("entry-349"));
    assert!(page.body.contains("entry-350"));
    assert!(page.body.contains("entry-599"));
    assert!(page
        .body
        .contains("100 raw observations omitted from the middle"));
}

#[test]
fn a_whole_page_reads_as_written() {
    let observations = vec![
        obs_at(
            ObservationKind::SessionStart,
            "session",
            "2026-08-24T10:00:00Z",
        ),
        obs_at(
            ObservationKind::UserPrompt,
            "bound the queue",
            "2026-08-24T10:00:01Z",
        ),
        obs_at(ObservationKind::PostToolUse, "Edit", "2026-08-24T10:01:00Z"),
        obs_at(ObservationKind::PostToolUse, "Bash", "2026-08-24T10:02:00Z"),
        obs_at(
            ObservationKind::SessionEnd,
            "session",
            "2026-08-24T11:30:00Z",
        ),
    ];
    let id = SessionId {
        value: 0x0192_8374_6556_4738_a9b0_c1d2_e3f4_0516,
    };
    let page = synthesize_session_page(workspace(), project(), id, &observations);
    assert_eq!(page.path.text, "sessions/01928374-6556-4738-a9b0-c1d2e3f40516.md");
    assert_eq!(page.title, "bound the queue");
    assert_eq!(page.tier, Tier::Episodic);
    assert!(!page.pinned && page.links.is_empty() && page.entities.is_empty());
    assert!(page.author_id.is_none() && page.expires_at.is_none());
    assert_eq!(
        page.body,
        "# bound the queue\n\n\
         ## Session metadata\n\n\
         - **session_id:** `01928374-6556-4738-a9b0-c1d2e3f40516`\n\
         - **started_at:** 2026-08-24T10:00:00Z\n\
         - **ended_at:** 2026-08-24T11:30:00Z\n\
         - **observations:** 5\n\n\
         ## Prompts\n\n\
         1. bound the queue\n\n\
         ## Tool calls\n\n\
         - `Bash`: 1\n\
         - `Edit`: 1\n\n\
         ## Raw observations\n\n\
         - `session_start` @ 2026-08-24T10:00:00Z — session\n\
         - `user_prompt` @ 2026-08-24T10:00:01Z — bound the queue\n\
         - `post_tool_use` @ 2026-08-24T10:01:00Z — Edit\n\
         - `post_tool_use` @ 2026-08-24T10:02:00Z — Bash\n\
         - `session_end` @ 2026-08-24T11:30:00Z — session\n\
         \n_Synthesised by ai-memory (M3, no-LLM heuristic)._\n"
    );
    assert_eq!(
        serde_json::to_string(&page.frontmatter_json).unwrap(),
        r#"{"title":"bound the queue","session_id":"01928374-6556-4738-a9b0-c1d2e3f40516","tier":"episodic","summary":"1 prompt, 2 completed tool calls across Bash and Edit, over 1h 30m."}"#
    );
}

#[test]
fn a_session_starts_at_its_first_start_and_ends_at_its_last_end() {
    let observations = vec![
        obs_at(ObservationKind::SessionStart, "a", "2026-08-24T10:00:00Z"),
        obs_at(ObservationKind::SessionEnd, "b", "2026-08-24T10:01:00Z"),
        obs_at(ObservationKind::SessionStart, "c", "2026-08-24T10:02:00Z"),
        obs_at(ObservationKind::SessionEnd, "d", "2026-08-24T10:30:00Z"),
    ];
    let tally = tally_session(&observations);
    assert_eq!(tally.start().unwrap().title, "a");
    assert_eq!(tally.end().unwrap().title, "d");
    assert_eq!(session_summary(&tally), "over 30m.");
}

#[test]
fn a_tally_counts_tools_in_alphabetical_order() {
    let observations = vec![
        obs(ObservationKind::PostToolUse, "Read"),
        obs(ObservationKind::PostToolUse, "Bash"),
        obs(ObservationKind::PostToolUse, ""),
        obs(ObservationKind::PostToolUse, "Read"),
        obs(ObservationKind::UserPrompt, "one"),
        obs(ObservationKind::UserPrompt, ""),
    ];
    let tally = tally_session(&observations);
    assert_eq!(*tally.tool_counts(), vec![("Bash", 1), ("Read", 2)]);
    assert_eq!(tally.prompts().len(), 2);
    assert_eq!(tally.prompts()[0].title, "one");
    assert!(tally.start().is_none() && tally.end().is_none());
}

#[test]
fn ties_between_tools_fall_back_to_the_alphabet() {
    let observations = vec![
        obs(ObservationKind::PostToolUse, "Read"),
        obs(ObservationKind::PostToolUse, "Edit"),
        obs(ObservationKind::PostToolUse, "Bash"),
        obs(ObservationKind::PostToolUse, "Read"),
    ];
    assert_eq!(
        session_summary(&tally_session(&observations)),
        "4 completed tool calls across Read, Bash and Edit."
    );
}

#[test]
fn the_summary_is_one_line_whatever_the_tools_are_called() {
    let observations = vec![
        obs(ObservationKind::UserPrompt, "first\n# second"),
        obs(ObservationKind::PostToolUse, "a\nb"),
        obs(ObservationKind::PostToolUse, "a\n- **c:** d"),
        obs(ObservationKind::PostToolUse, "e\r\nf"),
        obs(ObservationKind::PostToolUse, "a\nb"),
    ];
    let summary = session_summary(&tally_session(&observations));
    assert_eq!(
        summary,
        "1 prompt, 4 completed tool calls across a b, a - **c:** d and e  f."
    );
    assert!(!summary.contains('\n') && !summary.contains('\r'));
    // The body keeps the names as they are.
    let page = synthesize_session_page(workspace(), project(), session(), &observations);
    assert!(page.body.contains("- `a\nb`: 2\n"));
}

#[test]
fn a_clock_that_ran_backwards_is_not_reported() {
    let observations = vec![
        obs_at(ObservationKind::SessionStart, "a", "2026-08-24T10:00:00Z"),
        obs_at(ObservationKind::UserPrompt, "b", "2026-08-24T10:00:00Z"),
        obs_at(ObservationKind::SessionEnd, "c", "2026-08-24T09:00:00Z"),
    ];
    assert_eq!(session_summary(&tally_session(&observations)), "1 prompt.");
}

#[test]
fn a_summary_can_equal_a_title() {
    let observations = vec![obs(ObservationKind::UserPrompt, "1 prompt.")];
    assert_eq!(session_summary(&tally_session(&observations)), "1 prompt.");
    assert_eq!(derive_title(&observations), "1 prompt.");
}

#[test]
fn an_untitled_prompt_gives_no_title() {
    let observations = vec![
        obs(ObservationKind::UserPrompt, ""),
        obs(ObservationKind::Other, "first"),
        obs(ObservationKind::UserPrompt, "second"),
    ];
    assert_eq!(derive_title(&observations), "second");
    assert_eq!(derive_title(&observations[..2]), "first");
    assert_eq!(derive_title(&observations[..1]), "session");
}

#[test]
fn durations_are_rounded_down_to_their_units() {
    assert_eq!(format_duration(i64::MIN), None);
    assert_eq!(format_duration(-1), None);
    assert_eq!(format_duration(0), None);
    assert_eq!(format_duration(1).as_deref(), Some("1s"));
    assert_eq!(format_duration(59).as_deref(), Some("59s"));
    assert_eq!(format_duration(60).as_deref(), Some("1m"));
    assert_eq!(format_duration(3599).as_deref(), Some("59m"));
    assert_eq!(format_duration(3600).as_deref(), Some("1h"));
    assert_eq!(format_duration(3660).as_deref(), Some("1h 1m"));
    assert_eq!(format_duration(90_061).as_deref(), Some("25h 1m"));
}

#[test]
fn names_are_listed_in_prose() {
    assert_eq!(join_and(&[]), "");
    assert_eq!(join_and(&["Bash"]), "Bash");
    assert_eq!(join_and(&["Bash", "Edit"]), "Bash and Edit");
    assert_eq!(join_and(&["Bash", "Edit", "Read"]), "Bash, Edit and Read");
    assert_eq!(plural(0), "s");
    assert_eq!(plural(1), "");
    assert_eq!(plural(2), "s");
}

#[test]
fn an_instant_is_written_in_utc_to_the_second() {
    let at = instant("2026-08-24T12:00:00.75+02:00".parse().unwrap());
    assert_eq!(human_ts(&at), "2026-08-24T10:00:00Z");
    assert_eq!(at.display(), "2026-08-24T10:00:00.75Z");
    assert_eq!(at.as_second(), 1_787_565_600);
    assert_eq!(at.strftime("%d.%m."), "24.08.");
}

#[test]
fn only_instants_have_parts() {
    let first = -377_705_023_201;
    let last = 253_402_207_200;
    assert!(Timestamp::from_parts(first, 0).is_some());
    assert!(Timestamp::from_parts(first, -1).is_none());
    assert!(Timestamp::from_parts(first - 1, 0).is_none());
    assert!(Timestamp::from_parts(last, 999_999_999).is_some());
    assert!(Timestamp::from_parts(last + 1, 0).is_none());
    assert!(Timestamp::from_parts(1, -1).is_none());
    assert!(Timestamp::from_parts(-1, 1).is_none());
    assert!(Timestamp::from_parts(0, -1).is_some());
    assert!(Timestamp::from_parts(0, 1_000_000_000).is_none());
    assert_eq!(jiff::Timestamp::MIN.as_second(), first);
    assert_eq!(jiff::Timestamp::MIN.subsec_nanosecond(), 0);
    assert_eq!(jiff::Timestamp::MAX.as_second(), last);
    assert_eq!(jiff::Timestamp::MAX.subsec_nanosecond(), 999_999_999);
    for (second, nanosecond) in [(first, 0), (last, 999_999_999), (0, -1), (-5, -7)] {
        let ours = Timestamp::from_parts(second, nanosecond).unwrap();
        let theirs = jiff::Timestamp::new(second, nanosecond).unwrap();
        assert_eq!(ours.display(), theirs.to_string());
    }
}

#[test]
fn a_kind_names_its_extension_only_with_the_event() {
    let mut o = obs(ObservationKind::Other, "x");
    assert_eq!(observation_kind_label(&o), "other");
    o.extension = Some("ext".into());
    assert_eq!(observation_kind_label(&o), "other");
    o.source_event = Some("ev".into());
    assert_eq!(observation_kind_label(&o), "other [ext:ev]");
    o.extension = None;
    assert_eq!(observation_kind_label(&o), "other");
}

#[test]
fn a_raw_line_shows_eighty_characters_of_a_title() {
    let title = "é".repeat(81);
    let mut buf = String::from("> ");
    render_raw_observation(
        &mut buf,
        &obs_at(ObservationKind::Other, &title, "2026-08-24T10:00:00Z"),
    );
    assert_eq!(
        buf,
        format!("> - `other` @ 2026-08-24T10:00:00Z — {}\n", "é".repeat(80))
    );
    let mut line = String::new();
    render_entry(&mut line, "k", "t", &"b".repeat(80));
    assert_eq!(line, format!("- `k` @ t — {}\n", "b".repeat(80)));
}

#[test]
fn five_hundred_observations_are_all_listed() {
    let observations: Vec<Observation> = (0..501)
        .map(|i| obs(ObservationKind::Other, &format!("entry-{i}-")))
        .collect();
    let mut all = String::new();
    render_raw_observations(&mut all, &observations[..500]);
    assert_eq!(all.lines().count(), 500);
    let mut cut = String::new();
    render_raw_observations(&mut cut, &observations);
    assert_eq!(cut.lines().count(), 503);
    assert!(cut.contains(
        "\n_... 1 raw observations omitted from the middle (showing first 250 and last 250)._\n\n"
    ));
    assert!(!cut.contains("entry-250-") && cut.contains("entry-249-"));
    assert!(cut.contains("entry-251-"));
}

#[test]
fn sessions_are_written_as_uuids() {
    let value = 0xa1a2_a3a4_b1b2_c1c2_d1d2_d3d4_d5d6_d7d8;
    assert_eq!(
        SessionId { value }.text(),
        "a1a2a3a4-b1b2-c1c2-d1d2-d3d4d5d6d7d8"
    );
    assert_eq!(
        SessionId { value: 1 }.text(),
        "00000000-0000-0000-0000-000000000001"
    );
    assert_ne!(session().text(), session().text());
}
