use ai_memory::codex_responses::{
    codex_headers, event_payloads, fresh_codex_headers, provider_failure, reply_action, ReplyAction,
    CODEX_RESPONSES_URL,
};
use ai_memory::error::{HttpFailure, LlmError};
use ai_memory::llm_test::{
    answer_schema, completion_output, representative_request, run, structured_output, LlmTestArgs,
    LlmTestCall, ProviderSettings, TokenUsage,
};
use ai_memory::provider::{ChatRole, LlmProviderChoice, ProviderChoice, Temperature};

fn args() -> LlmTestArgs {
    LlmTestArgs {
        provider: LlmProviderChoice::Gemini,
        model: Some("m".into()),
        api_key: Some("k".into()),
        base_url: Some("http://here".into()),
        prompt: "hello".into(),
        structured: false,
    }
}

fn settings() -> ProviderSettings {
    ProviderSettings {
        base_url: Some("http://there".into()),
        compat_strict: true,
        request_timeout_secs: 30,
        reasoning_effort: Some("low".into()),
        extra_headers: vec![("x-a".into(), "1".into())],
    }
}

#[test]
fn anthropic_oauth_choice_maps_to_runtime_provider() {
    assert_eq!(
        ProviderChoice::from(LlmProviderChoice::AnthropicOauth),
        ProviderChoice::AnthropicOAuth
    );
}

#[test]
fn codex_choice_maps_to_runtime_provider() {
    assert_eq!(
        ProviderChoice::from(LlmProviderChoice::Codex),
        ProviderChoice::Codex
    );
}

#[test]
fn every_choice_maps_to_its_own_provider() {
    let pairs = [
        (LlmProviderChoice::Anthropic, ProviderChoice::Anthropic),
        (LlmProviderChoice::AnthropicOauth, ProviderChoice::AnthropicOAuth),
        (LlmProviderChoice::Openai, ProviderChoice::OpenAi),
        (LlmProviderChoice::Gemini, ProviderChoice::Gemini),
        (LlmProviderChoice::OpenaiCompat, ProviderChoice::OpenAiCompat),
        (LlmProviderChoice::OpenaiOauth, ProviderChoice::OpenAiOAuth),
        (LlmProviderChoice::Codex, ProviderChoice::Codex),
        (LlmProviderChoice::Copilot, ProviderChoice::Copilot),
        (LlmProviderChoice::Opencode, ProviderChoice::OpenCode),
    ];
    for (choice, provider) in pairs {
        assert_eq!(ProviderChoice::from(choice), provider);
    }
}

#[test]
fn llm_test_exercises_pipeline_sampling_compatibility() {
    let request = representative_request("diagnostic".into());

    assert_eq!(
        request
            .temperature
            .map(|t| f64::from(t.thousandths) / 1000.0),
        Some(0.2)
    );
    assert_eq!(request.messages[0].content, "diagnostic");
}

#[test]
fn a_smoke_test_prefers_the_command_line() {
    let (config, call) = run(args(), settings());
    assert_eq!(config.provider, ProviderChoice::Gemini);
    assert_eq!(config.model.as_deref(), Some("m"));
    assert_eq!(config.api_key_override.as_deref(), Some("k"));
    assert_eq!(config.base_url.as_deref(), Some("http://here"));
    assert!(config.compat_strict);
    assert_eq!(config.request_timeout_secs, 30);
    assert_eq!(config.reasoning_effort.as_deref(), Some("low"));
    assert_eq!(config.extra_headers, vec![("x-a".to_string(), "1".to_string())]);
    match call {
        LlmTestCall::Complete(request) => {
            assert_eq!(request.messages.len(), 1);
            assert_eq!(request.messages[0].role, ChatRole::User);
            assert_eq!(request.messages[0].content, "hello");
            assert_eq!(request.temperature, Some(Temperature { thousandths: 200 }));
        }
        LlmTestCall::CompleteStructured(..) => panic!("text was asked for"),
    }
}

#[test]
fn a_smoke_test_falls_back_to_the_configuration() {
    let mut given = args();
    given.api_key = Some(String::new());
    given.base_url = None;
    given.structured = true;
    let (config, call) = run(given, settings());
    assert_eq!(config.api_key_override, None);
    assert_eq!(config.base_url.as_deref(), Some("http://there"));
    match call {
        LlmTestCall::CompleteStructured(request, schema) => {
            assert_eq!(request.messages[0].content, "hello");
            assert_eq!(schema, answer_schema());
        }
        LlmTestCall::Complete(_) => panic!("an object was asked for"),
    }
}

#[test]
fn the_schema_asks_for_an_answer() {
    assert_eq!(
        serde_json::to_string(&answer_schema()).unwrap(),
        r#"{"type":"object","properties":{"answer":{"type":"string"}},"required":["answer"]}"#
    );
}

#[test]
fn answers_are_printed_below_their_model() {
    assert_eq!(completion_output("m", None, "hi"), "--- model: m ---\nhi\n");
    let usage = TokenUsage {
        input_tokens: 12,
        output_tokens: 345,
    };
    assert_eq!(
        completion_output("m", Some(usage), "hi"),
        "--- model: m ---\n--- usage: in=12 out=345 ---\nhi\n"
    );
    let answer: serde_json::Value = serde_json::from_str(r#"{"answer":"yes"}"#).unwrap();
    assert_eq!(
        structured_output("m", &answer),
        "--- model: m ---\n{\n  \"answer\": \"yes\"\n}\n"
    );
}

#[test]
fn transient_covers_429_and_5xx_only() {
    assert!(LlmError::Provider {
        status: 429,
        body: String::new()
    }
    .is_transient());
    for status in [500, 502, 503, 504, 520, 524] {
        assert!(
            LlmError::Provider {
                status,
                body: String::new()
            }
            .is_transient(),
            "status {status} should be transient"
        );
    }
    // A malformed-request 4xx (not 429) is deterministic — do not retry.
    for status in [400, 401, 403, 404, 422] {
        assert!(
            !LlmError::Provider {
                status,
                body: String::new()
            }
            .is_transient(),
            "status {status} must not be treated as transient"
        );
    }
}

#[test]
fn deterministic_errors_are_not_transient() {
    assert!(!LlmError::Auth("expired".into()).is_transient());
    assert!(!LlmError::Schema("bad".into()).is_transient());
    assert!(!LlmError::Serde("nope".into()).is_transient());
    assert!(!LlmError::UnexpectedShape("no tool block".into()).is_transient());
    assert!(!LlmError::NotConfigured("no key".into()).is_transient());
}

#[test]
fn transient_ends_with_the_server_errors() {
    for (status, transient) in [(428, false), (430, false), (499, false), (599, true), (600, false)]
    {
        let error = LlmError::Provider {
            status,
            body: String::new(),
        };
        assert_eq!(error.is_transient(), transient, "{status}");
    }
}

#[test]
fn a_transport_failure_is_transient_if_no_one_answered() {
    for (timeout, connect) in [(true, false), (false, true), (false, false)] {
        let error = LlmError::Http(HttpFailure {
            message: "m".into(),
            timeout,
            connect,
        });
        assert_eq!(error.is_transient(), timeout || connect);
    }
}

#[test]
fn a_request_that_cannot_be_built_is_a_transport_failure() {
    let error = reqwest::Client::new().get("no url").build().unwrap_err();
    let text = error.to_string();
    assert!(!error.is_timeout() && !error.is_connect());
    let error = LlmError::from(error);
    assert!(!error.is_transient());
    assert_eq!(error.message(), format!("http: {text}"));
}

#[test]
fn a_refused_connection_is_transient() {
    let runtime = tokio::runtime::Builder::new_current_thread()
        .enable_all()
        .build()
        .unwrap();
    let error = runtime
        .block_on(reqwest::Client::new().get("http://127.0.0.1:1/").send())
        .unwrap_err();
    assert!(error.is_connect() && !error.is_timeout());
    let error = LlmError::from(error);
    assert!(error.is_transient());
    match error {
        LlmError::Http(failure) => assert!(failure.connect && !failure.timeout),
        other => panic!("{other:?}"),
    }
}

#[test]
fn every_error_says_what_it_is() {
    let http = LlmError::Http(HttpFailure {
        message: "reset".into(),
        timeout: false,
        connect: false,
    });
    assert_eq!(http.message(), "http: reset");
    let provider = LlmError::Provider {
        status: 503,
        body: "busy".into(),
    };
    assert_eq!(provider.message(), "provider error 503: busy");
    assert_eq!(LlmError::Serde("a".into()).message(), "serde: a");
    assert_eq!(
        LlmError::UnexpectedShape("b".into()).message(),
        "unexpected response shape: b"
    );
    assert_eq!(
        LlmError::NotConfigured("c".into()).message(),
        "provider not configured: c"
    );
    assert_eq!(LlmError::Auth("d".into()).message(), "auth: d");
    assert_eq!(LlmError::Schema("e".into()).message(), "schema: e");
}

#[test]
fn a_json_error_keeps_its_text() {
    let error = serde_json::from_str::<bool>("tru").unwrap_err();
    let text = error.to_string();
    assert_eq!(
        LlmError::from(error).message(),
        format!("serde: {text}")
    );
}

#[test]
fn a_request_carries_its_headers_in_order() {
    assert_eq!(
        CODEX_RESPONSES_URL,
        "https://chatgpt.com/backend-api/codex/responses"
    );
    let extra = vec![("x-a".to_string(), "1".to_string())];
    let session = 0x0192_8374_6556_4738_a9b0_c1d2_e3f4_0516;
    let headers = codex_headers(true, session, &extra, Some("acct"));
    let shown: Vec<(&str, &str)> = headers
        .iter()
        .map(|h| (h.0.as_str(), h.1.as_str()))
        .collect();
    assert_eq!(
        shown,
        vec![
            ("content-type", "application/json"),
            ("accept", "text/event-stream"),
            ("openai-beta", "responses=experimental"),
            ("originator", "codex_cli_rs"),
            ("session_id", "01928374-6556-4738-a9b0-c1d2e3f40516"),
            ("x-a", "1"),
            ("chatgpt-account-id", "acct"),
        ]
    );
    let plain = codex_headers(false, session, &vec![], None);
    assert_eq!(plain.len(), 5);
    assert_eq!(plain[1].1, "application/json");
}

#[test]
fn every_request_has_a_session_of_its_own() {
    let a = fresh_codex_headers(false, &vec![], None);
    let b = fresh_codex_headers(false, &vec![], None);
    assert_eq!(a.len(), 5);
    assert_eq!(a[4].0, "session_id");
    assert_ne!(a[4].1, b[4].1);
    let id = uuid::Uuid::parse_str(&a[4].1).unwrap();
    assert_eq!(id.get_version_num(), 4);
    assert_eq!(id.to_string(), a[4].1);
}

#[test]
fn only_a_success_is_read_as_an_answer() {
    for status in [100, 199, 300, 404, 500] {
        assert_eq!(reply_action(status, true), ReplyAction::ReadError);
        assert_eq!(reply_action(status, false), ReplyAction::ReadError);
    }
    for status in [200, 204, 299] {
        assert_eq!(reply_action(status, true), ReplyAction::ReadEvents);
        assert_eq!(reply_action(status, false), ReplyAction::ReadJson);
    }
    assert_eq!(
        provider_failure(404, "gone".into()).message(),
        "provider error 404: gone"
    );
}

#[test]
fn an_event_stream_is_taken_apart() {
    assert_eq!(
        event_payloads("event: a\r\ndata: {\"x\":1}\r\n\r\ndata:[DONE]\n: note\ndat"),
        vec!["{\"x\":1}", "[DONE]"]
    );
    assert!(event_payloads("").is_empty());
}
