//! The `llm-test` command: a smoke test of a provider, end to end.

use crate::json::{
    json_insert, json_list, json_object, json_pretty, json_text, json_tree,
    pretty_text, JsonTree,
};
use crate::provider::{
    runtime_choice, ChatMessage, ChatRequest, ChatRole, LlmProviderChoice, ProviderChoice,
    Temperature,
};
use crate::text::{decimal, decimal_text};
use vstd::prelude::*;

verus! {

/// What the user asks the command for.
#[derive(Debug)]
pub struct LlmTestArgs {
    pub provider: LlmProviderChoice,
    pub model: Option<String>,
    pub api_key: Option<String>,
    pub base_url: Option<String>,
    pub prompt: String,
    pub structured: bool,
}

/// What the configuration says of providers.
#[derive(Debug)]
pub struct ProviderSettings {
    /// The configured address of the provider under test.
    pub base_url: Option<String>,
    pub compat_strict: bool,
    pub request_timeout_secs: u64,
    pub reasoning_effort: Option<String>,
    pub extra_headers: Vec<(String, String)>,
}

/// What a provider is built from.
#[derive(Debug)]
pub struct ProviderConfig {
    pub provider: ProviderChoice,
    pub model: Option<String>,
    /// A key that takes the place of the configured one.
    pub api_key_override: Option<String>,
    pub base_url: Option<String>,
    pub compat_strict: bool,
    pub request_timeout_secs: u64,
    pub reasoning_effort: Option<String>,
    pub extra_headers: Vec<(String, String)>,
}

/// The call that the test makes.
#[derive(Debug)]
pub enum LlmTestCall {
    /// Ask for text.
    Complete(ChatRequest),
    /// Ask for an object of the given schema.
    CompleteStructured(ChatRequest, serde_json::Value),
}

/// A key given on the command line; an empty one counts as none.
pub open spec fn given_key(api_key: Option<String>) -> Option<String> {
    match api_key {
        Some(key) => if key@.len() > 0 {
            Some(key)
        } else {
            None
        },
        None => None,
    }
}

/// The address given on the command line, or else the configured one.
pub open spec fn chosen_url(given: Option<String>, configured: Option<String>) -> Option<String> {
    match given {
        Some(url) => Some(url),
        None => configured,
    }
}

/// Use the same sampling value as bootstrap and consolidation, so that the test
/// exercises provider-specific request normalization: one fifth.
pub fn representative_request(prompt: String) -> (request: ChatRequest)
    ensures
        request.messages@ == seq![ChatMessage { role: ChatRole::User, content: prompt }],
        request.temperature == Some(Temperature { thousandths: 200 }),
{
    let mut request = ChatRequest::user_prompt(prompt);
    request.temperature = Some(Temperature { thousandths: 200 });
    request
}

/// The schema of a structured answer: an object with a text called `answer`.
pub open spec fn answer_schema_tree() -> JsonTree {
    JsonTree::Object(
        seq![
            ("type"@, JsonTree::Text("object"@)),
            (
                "properties"@,
                JsonTree::Object(
                    seq![
                        (
                            "answer"@,
                            JsonTree::Object(seq![("type"@, JsonTree::Text("string"@))]),
                        ),
                    ],
                ),
            ),
            ("required"@, JsonTree::List(seq![JsonTree::Text("answer"@)])),
        ],
    )
}

/// The schema of a structured answer.
pub fn answer_schema() -> (schema: serde_json::Value)
    ensures
        json_tree(schema) == answer_schema_tree(),
{
    proof {
        reveal_strlit("type");
        reveal_strlit("properties");
        reveal_strlit("required");
        assert("type"@.len() == 4 && "properties"@.len() == 10 && "required"@.len() == 8);
    }
    let mut answer = json_object();
    json_insert(&mut answer, "type", json_text("string"));
    assert(json_tree(answer)->Object_0 == seq![("type"@, JsonTree::Text("string"@))]);
    let mut properties = json_object();
    json_insert(&mut properties, "answer", answer);
    assert(json_tree(properties)->Object_0 == seq![("answer"@, json_tree(answer))]);
    let mut required: Vec<serde_json::Value> = Vec::new();
    required.push(json_text("answer"));
    assert(required@.map_values(|item: serde_json::Value| json_tree(item)) == seq![
        JsonTree::Text("answer"@),
    ]);
    let mut schema = json_object();
    json_insert(&mut schema, "type", json_text("object"));
    json_insert(&mut schema, "properties", properties);
    json_insert(&mut schema, "required", json_list(required));
    assert(json_tree(schema)->Object_0 == answer_schema_tree()->Object_0);
    schema
}

/// Decide which provider the test builds, and what it asks it.
pub fn run(args: LlmTestArgs, settings: ProviderSettings) -> (plan: (ProviderConfig, LlmTestCall))
    ensures
        plan.0 == (ProviderConfig {
            provider: runtime_choice(args.provider),
            model: args.model,
            api_key_override: given_key(args.api_key),
            base_url: chosen_url(args.base_url, settings.base_url),
            compat_strict: settings.compat_strict,
            request_timeout_secs: settings.request_timeout_secs,
            reasoning_effort: settings.reasoning_effort,
            extra_headers: settings.extra_headers,
        }),
        (match plan.1 {
            LlmTestCall::Complete(request) => {
                &&& !args.structured
                &&& request.messages@ == seq![
                    ChatMessage { role: ChatRole::User, content: args.prompt },
                ]
                &&& request.temperature == Some(Temperature { thousandths: 200 })
            },
            LlmTestCall::CompleteStructured(request, schema) => {
                &&& args.structured
                &&& request.messages@ == seq![
                    ChatMessage { role: ChatRole::User, content: args.prompt },
                ]
                &&& request.temperature == Some(Temperature { thousandths: 200 })
                &&& json_tree(schema) == answer_schema_tree()
            },
        }),
{
    let api_key_override = match args.api_key {
        Some(key) => if !key.as_str().is_empty() {
            Some(key)
        } else {
            None
        },
        None => None,
    };
    let base_url = match args.base_url {
        Some(url) => Some(url),
        None => settings.base_url,
    };
    let config = ProviderConfig {
        provider: ProviderChoice::from(args.provider),
        model: args.model,
        api_key_override,
        base_url,
        compat_strict: settings.compat_strict,
        request_timeout_secs: settings.request_timeout_secs,
        reasoning_effort: settings.reasoning_effort,
        extra_headers: settings.extra_headers,
    };
    let request = representative_request(args.prompt);
    let call = if args.structured {
        LlmTestCall::CompleteStructured(request, answer_schema())
    } else {
        LlmTestCall::Complete(request)
    };
    (config, call)
}

/// The tokens that a call took.
#[derive(Clone, Copy, PartialEq, Eq, Structural, Debug)]
pub struct TokenUsage {
    pub input_tokens: u64,
    pub output_tokens: u64,
}

/// The line that names the model that answered.
pub open spec fn model_line(model: Seq<char>) -> Seq<char> {
    "--- model: "@ + model + " ---\n"@
}

/// The line that gives the tokens that a call took, if they are known.
pub open spec fn usage_line(usage: Option<TokenUsage>) -> Seq<char> {
    match usage {
        Some(usage) => "--- usage: in="@ + decimal(usage.input_tokens as nat) + " out="@ + decimal(
            usage.output_tokens as nat,
        ) + " ---\n"@,
        None => Seq::empty(),
    }
}

/// What the command prints of an answer in text.
pub fn completion_output(model: &str, usage: Option<TokenUsage>, text: &str) -> (output: String)
    ensures
        output@ == model_line(model@) + usage_line(usage) + text@ + "\n"@,
{
    let mut output = "--- model: ".to_string();
    output.append(model);
    output.append(" ---\n");
    if let Some(usage) = usage {
        output.append("--- usage: in=");
        output.append(decimal_text(usage.input_tokens).as_str());
        output.append(" out=");
        output.append(decimal_text(usage.output_tokens).as_str());
        output.append(" ---\n");
    }
    output.append(text);
    output.append("\n");
    output
}

/// What the command prints of a structured answer.
pub fn structured_output(model: &str, answer: &serde_json::Value) -> (output: String)
    ensures
        output@ == model_line(model@) + pretty_text(json_tree(*answer)) + "\n"@,
{
    completion_output(model, None, json_pretty(answer).unwrap().as_str())
}

} // verus!
