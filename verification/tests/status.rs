use ai_memory::clock::Timestamp;
use ai_memory::provider::{
    ProviderHealthSnapshot, ProviderHealthStatus, ProviderRoleHealthSnapshot,
};
use ai_memory::status::{
    error_detail, error_detail_at, offline_json_line, provider_health_line,
    provider_health_line_at, provider_label, report_offline_spool, run, spool_age_line, spool_json,
    Counts, Derived, EmbeddingTriple, Report, ServerEndpoint, SpoolHealth, StatusReply,
};

fn instant(text: &str) -> Timestamp {
    let at = text.parse::<jiff::Timestamp>().unwrap();
    Timestamp::from_parts(at.as_second(), at.subsec_nanosecond()).unwrap()
}

fn report() -> Report {
    Report {
        version: "1.2.3".into(),
        data_dir: "/data".into(),
        bind: "127.0.0.1:1".into(),
        db_path: "/data/db".into(),
        counts: Counts {
            pages_latest: 1,
            pages_all: 2,
            sessions: 3,
            observations: 4,
        },
        derived: Derived {
            pages_rows: 5,
            pages_fts_rows: 6,
            observations_rows: 7,
            observations_fts_rows: 8,
            latest_pages_missing_embeddings: 9,
            embedding_rows: 10,
            embedding_triples: vec![EmbeddingTriple {
                provider: "p".into(),
                model: "m".into(),
                dim: 11,
                count: 12,
            }],
            links_from_latest_pages: 13,
            unresolved_links_from_latest_pages: 14,
            stale_links_from_latest_pages: 15,
        },
        providers: ProviderHealthSnapshot {
            llm: ProviderRoleHealthSnapshot {
                status: ProviderHealthStatus::Error,
                provider: Some("openai".into()),
                retry_hint: Some("in a minute".into()),
                ..ProviderRoleHealthSnapshot::default()
            },
            embedding: ProviderRoleHealthSnapshot::default(),
        },
    }
}

fn endpoint() -> ServerEndpoint {
    ServerEndpoint {
        url: "http://server".into(),
        auth: true,
    }
}

fn spool() -> SpoolHealth {
    SpoolHealth {
        pending: 2,
        oldest_age_ms: Some(900_000),
        retries_total: 4,
    }
}

#[test]
fn offline_spool_report_is_content_free_and_serialises() {
    let spool = SpoolHealth {
        pending: 2,
        oldest_age_ms: Some(900_000),
        retries_total: 4,
    };
    let rendered = serde_json::to_string(&spool_json(&spool)).expect("SpoolHealth serialises");
    assert_eq!(
        rendered,
        r#"{"pending":2,"oldest_age_ms":900000,"retries_total":4}"#
    );
    // The shape is the contract: counts and ages only. If a field
    // carrying captured text is ever added, this fails loudly.
    let value: serde_json::Value = serde_json::from_str(&rendered).unwrap();
    let keys: Vec<_> = value.as_object().unwrap().keys().cloned().collect();
    assert_eq!(keys, vec!["pending", "oldest_age_ms", "retries_total"]);

    // Both render paths must tolerate an empty spool.
    report_offline_spool(&SpoolHealth::default(), false);
    report_offline_spool(&SpoolHealth::default(), true);
    report_offline_spool(&spool, false);
    report_offline_spool(&spool, true);
}

#[test]
fn provider_health_line_renders_unknown_and_disabled() {
    assert_eq!(
        provider_health_line(&ProviderRoleHealthSnapshot::default()),
        "disabled"
    );

    let role = ProviderRoleHealthSnapshot {
        status: ProviderHealthStatus::Unknown,
        provider: Some("openai".to_string()),
        model: Some("gpt-5.5".to_string()),
        ..ProviderRoleHealthSnapshot::default()
    };
    assert_eq!(
        provider_health_line(&role),
        "openai/gpt-5.5 unknown (no calls yet)"
    );
}

#[test]
fn provider_health_line_renders_error_details() {
    let when = instant("2026-05-28T12:00:00Z");
    let role = ProviderRoleHealthSnapshot {
        status: ProviderHealthStatus::Error,
        provider: Some("anthropic-oauth".to_string()),
        model: Some("sonnet-4-6".to_string()),
        last_error_at: Some(when),
        last_error_status: Some(401),
        last_error_message: Some("bad token".to_string()),
        ..ProviderRoleHealthSnapshot::default()
    };

    assert!(provider_health_line(&role).contains("anthropic-oauth/sonnet-4-6 error"));
    assert!(provider_health_line(&role).contains("status 401"));
    assert!(provider_health_line(&role).contains("bad token"));
    assert_eq!(
        error_detail(&role),
        "status 401; bad token; last error: 2026-05-28T12:00:00Z"
    );
}

#[test]
fn spool_age_line_renders_durations_and_empty() {
    assert_eq!(spool_age_line(None), "-");
    assert_eq!(spool_age_line(Some(0)), "0s");
    assert_eq!(spool_age_line(Some(59_999)), "59s");
    assert_eq!(spool_age_line(Some(60_000)), "1m 0s");
    assert_eq!(spool_age_line(Some(3_661_000)), "1h 1m");
    assert_eq!(spool_age_line(Some(172_800_000)), "2d 0h");
}

#[test]
fn the_greatest_age_has_a_line() {
    assert_eq!(spool_age_line(Some(u64::MAX)), "213503982334d 14h");
}

#[test]
fn a_healthy_provider_shows_its_last_call() {
    let mut role = ProviderRoleHealthSnapshot {
        status: ProviderHealthStatus::Healthy,
        provider: Some("openai".into()),
        model: Some("embed".into()),
        dim: Some(1536),
        ..ProviderRoleHealthSnapshot::default()
    };
    assert_eq!(
        provider_health_line(&role),
        "openai/embed (1536d) ok (last call: unknown time)"
    );
    role.last_call_at = Some(instant("2026-05-28T12:00:00.5Z"));
    assert_eq!(
        provider_health_line(&role),
        "openai/embed (1536d) ok (last call: 2026-05-28T12:00:00.5Z)"
    );
    assert_eq!(
        provider_health_line_at(&role, Some("noon".into()), None),
        "openai/embed (1536d) ok (last call: noon)"
    );
}

#[test]
fn a_label_is_as_long_as_what_is_known() {
    let mut role = ProviderRoleHealthSnapshot::default();
    assert_eq!(provider_label(&role), "provider");
    role.model = Some("m".into());
    assert_eq!(provider_label(&role), "provider");
    role.provider = Some("p".into());
    assert_eq!(provider_label(&role), "p/m");
    role.dim = Some(3);
    assert_eq!(provider_label(&role), "p/m (3d)");
    role.model = None;
    assert_eq!(provider_label(&role), "p");
}

#[test]
fn an_error_of_which_nothing_is_known_still_has_a_detail() {
    let mut role = ProviderRoleHealthSnapshot::default();
    assert_eq!(error_detail(&role), "last call failed");
    role.last_error_message = Some(String::new());
    assert_eq!(error_detail(&role), "last call failed");
    assert_eq!(error_detail_at(&role, Some("noon".into())), "last error: noon");
    role.last_error_status = Some(500);
    assert_eq!(error_detail(&role), "status 500");
}

#[test]
fn a_report_is_printed_as_text() {
    let reply = StatusReply {
        report: report(),
        providers_json: serde_json::Value::Null,
    };
    let output = run(Some(reply), &endpoint(), &spool(), false);
    assert!(output.success);
    assert_eq!(output.stderr, "");
    assert_eq!(
        output.stdout,
        "ai-memory 1.2.3 (server)\n\
         \x20 server:       http://server\n\
         \x20 data-dir:     /data\n\
         \x20 db:           /data/db\n\
         \x20 bind:         127.0.0.1:1\n\
         \x20 pages:        1 (all versions: 2)\n\
         \x20 sessions:     3\n\
         \x20 observations: 4\n\
         \x20 fts:          pages 6/5; observations 8/7\n\
         \x20 embeddings:   10 rows; 9 latest pages missing\n\
         \x20 links:        13 latest-page links (unresolved: 14, stale: 15)\n\
         \x20 spool:\n\
         \x20   pending:    2\n\
         \x20   oldest:     15m 0s\n\
         \x20   retries:    4\n\
         \x20 providers:\n\
         \x20   llm:       openai error (last call failed)\n\
         \x20   embedding: disabled\n\
         \x20   retry:     in a minute\n"
    );
}

#[test]
fn a_hint_is_shown_only_after_an_error() {
    let mut healthy = report();
    healthy.providers.llm.status = ProviderHealthStatus::Healthy;
    let reply = StatusReply {
        report: healthy,
        providers_json: serde_json::Value::Null,
    };
    let output = run(Some(reply), &endpoint(), &spool(), false);
    assert!(!output.stdout.contains("retry: "));
}

#[test]
fn a_report_is_printed_as_one_json_object() {
    let reply = StatusReply {
        report: report(),
        providers_json: serde_json::Value::Bool(true),
    };
    let output = run(Some(reply), &endpoint(), &spool(), true);
    assert!(output.success);
    assert_eq!(output.stderr, "");
    assert!(output.stdout.starts_with("{\n  \"version\": \"1.2.3\",\n"));
    assert!(output.stdout.ends_with("}\n"));
    let value: serde_json::Value = serde_json::from_str(&output.stdout).unwrap();
    assert_eq!(
        serde_json::to_string(&value).unwrap(),
        "{\"version\":\"1.2.3\",\"data_dir\":\"/data\",\"bind\":\"127.0.0.1:1\",\
         \"db_path\":\"/data/db\",\
         \"counts\":{\"pages_latest\":1,\"pages_all\":2,\"sessions\":3,\"observations\":4},\
         \"derived\":{\"pages_rows\":5,\"pages_fts_rows\":6,\"observations_rows\":7,\
         \"observations_fts_rows\":8,\"latest_pages_missing_embeddings\":9,\"embedding_rows\":10,\
         \"embedding_triples\":[{\"provider\":\"p\",\"model\":\"m\",\"dim\":11,\"count\":12}],\
         \"links_from_latest_pages\":13,\"unresolved_links_from_latest_pages\":14,\
         \"stale_links_from_latest_pages\":15},\
         \"providers\":true,\
         \"spool\":{\"pending\":2,\"oldest_age_ms\":900000,\"retries_total\":4},\
         \"client\":{\"server_url\":\"http://server\",\"auth\":true}}"
    );
}

#[test]
fn the_queue_is_shown_when_the_server_is_down() {
    let output = run(None, &endpoint(), &spool(), false);
    assert!(!output.success);
    assert_eq!(output.stdout, "");
    assert_eq!(
        output.stderr,
        "local spool (server unreachable):\n\
         \x20 pending:    2\n\
         \x20 oldest:     15m 0s\n\
         \x20 retries:    4\n\
         \x20 2 event(s) are queued locally and will be delivered once the server is reachable again.\n"
    );
    assert_eq!(
        run(None, &endpoint(), &SpoolHealth::default(), false).stderr,
        "local spool (server unreachable):\n\
         \x20 pending:    0\n\
         \x20 oldest:     -\n\
         \x20 retries:    0\n"
    );
}

#[test]
fn the_queue_as_json_stays_off_stdout() {
    let output = run(None, &endpoint(), &SpoolHealth::default(), true);
    assert!(!output.success);
    assert_eq!(output.stdout, "");
    assert_eq!(
        output.stderr,
        "local spool (server unreachable): {\"pending\":0,\"oldest_age_ms\":null,\"retries_total\":0}\n"
    );
    assert_eq!(
        offline_json_line("{}"),
        "local spool (server unreachable): {}\n"
    );
}

#[test]
fn diagnostics_start_at_nothing() {
    let derived = Derived::default();
    assert_eq!(derived.pages_rows + derived.embedding_rows, 0);
    assert!(derived.embedding_triples.is_empty());
}
