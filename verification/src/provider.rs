//! Language-model providers: which one, what it is asked, and how it fares.

use crate::clock::Timestamp;
use vstd::prelude::*;

verus! {

/// A provider, as it is named on the command line.
#[derive(Clone, Copy, PartialEq, Eq, Structural, Debug)]
pub enum LlmProviderChoice {
    Anthropic,
    AnthropicOauth,
    Openai,
    Gemini,
    OpenaiCompat,
    OpenaiOauth,
    Codex,
    Copilot,
    Opencode,
}

/// A provider, as it is built and called.
#[derive(Clone, Copy, PartialEq, Eq, Structural, Debug)]
pub enum ProviderChoice {
    Anthropic,
    AnthropicOAuth,
    OpenAi,
    Gemini,
    OpenAiCompat,
    OpenAiOAuth,
    Codex,
    Copilot,
    OpenCode,
}

impl From<LlmProviderChoice> for ProviderChoice {
    fn from(value: LlmProviderChoice) -> (choice: Self) {
        match value {
            LlmProviderChoice::Anthropic => ProviderChoice::Anthropic,
            LlmProviderChoice::AnthropicOauth => ProviderChoice::AnthropicOAuth,
            LlmProviderChoice::Openai => ProviderChoice::OpenAi,
            LlmProviderChoice::Gemini => ProviderChoice::Gemini,
            LlmProviderChoice::OpenaiCompat => ProviderChoice::OpenAiCompat,
            LlmProviderChoice::OpenaiOauth => ProviderChoice::OpenAiOAuth,
            LlmProviderChoice::Codex => ProviderChoice::Codex,
            LlmProviderChoice::Copilot => ProviderChoice::Copilot,
            LlmProviderChoice::Opencode => ProviderChoice::OpenCode,
        }
    }
}

impl vstd::std_specs::convert::FromSpecImpl<LlmProviderChoice> for ProviderChoice {
    open spec fn obeys_from_spec() -> bool {
        true
    }

    open spec fn from_spec(value: LlmProviderChoice) -> Self {
        runtime_choice(value)
    }
}

/// The provider that a name on the command line stands for.
pub open spec fn runtime_choice(choice: LlmProviderChoice) -> ProviderChoice {
    match choice {
        LlmProviderChoice::Anthropic => ProviderChoice::Anthropic,
        LlmProviderChoice::AnthropicOauth => ProviderChoice::AnthropicOAuth,
        LlmProviderChoice::Openai => ProviderChoice::OpenAi,
        LlmProviderChoice::Gemini => ProviderChoice::Gemini,
        LlmProviderChoice::OpenaiCompat => ProviderChoice::OpenAiCompat,
        LlmProviderChoice::OpenaiOauth => ProviderChoice::OpenAiOAuth,
        LlmProviderChoice::Codex => ProviderChoice::Codex,
        LlmProviderChoice::Copilot => ProviderChoice::Copilot,
        LlmProviderChoice::Opencode => ProviderChoice::OpenCode,
    }
}

/// Every provider can be named on the command line, and by one name only.
pub proof fn command_line_names_every_provider_once(
    a: LlmProviderChoice,
    b: LlmProviderChoice,
    provider: ProviderChoice,
)
    ensures
        runtime_choice(a) == runtime_choice(b) ==> a == b,
        exists|name: LlmProviderChoice| #[trigger] runtime_choice(name) == provider,
{
    let name = match provider {
        ProviderChoice::Anthropic => LlmProviderChoice::Anthropic,
        ProviderChoice::AnthropicOAuth => LlmProviderChoice::AnthropicOauth,
        ProviderChoice::OpenAi => LlmProviderChoice::Openai,
        ProviderChoice::Gemini => LlmProviderChoice::Gemini,
        ProviderChoice::OpenAiCompat => LlmProviderChoice::OpenaiCompat,
        ProviderChoice::OpenAiOAuth => LlmProviderChoice::OpenaiOauth,
        ProviderChoice::Codex => LlmProviderChoice::Codex,
        ProviderChoice::Copilot => LlmProviderChoice::Copilot,
        ProviderChoice::OpenCode => LlmProviderChoice::Opencode,
    };
    assert(runtime_choice(name) == provider);
}

/// A sampling temperature, in thousandths.
#[derive(Clone, Copy, PartialEq, Eq, Structural, Debug)]
pub struct Temperature {
    pub thousandths: u16,
}

/// Who wrote a message.
#[derive(Clone, Copy, PartialEq, Eq, Structural, Debug)]
pub enum ChatRole {
    User,
}

/// One message of a conversation.
#[derive(Debug)]
pub struct ChatMessage {
    pub role: ChatRole,
    pub content: String,
}

/// What a provider is asked.
#[derive(Debug)]
pub struct ChatRequest {
    pub messages: Vec<ChatMessage>,
    pub temperature: Option<Temperature>,
}

impl ChatRequest {
    /// A request of one message from the user, sampled as the provider likes.
    pub fn user_prompt(prompt: String) -> (request: ChatRequest)
        ensures
            request.messages@ == seq![ChatMessage { role: ChatRole::User, content: prompt }],
            request.temperature is None,
    {
        let mut messages: Vec<ChatMessage> = Vec::new();
        messages.push(ChatMessage { role: ChatRole::User, content: prompt });
        ChatRequest { messages, temperature: None }
    }
}

/// How a provider fares.
#[derive(Clone, Copy, PartialEq, Eq, Structural, Debug)]
pub enum ProviderHealthStatus {
    /// None is configured.
    Disabled,
    /// None of its calls has returned yet.
    Unknown,
    /// Its last call succeeded.
    Healthy,
    /// Its last call failed.
    Error,
}

/// How the provider of one role fares.
#[derive(Debug)]
pub struct ProviderRoleHealthSnapshot {
    pub status: ProviderHealthStatus,
    pub provider: Option<String>,
    pub model: Option<String>,
    pub dim: Option<u32>,
    pub last_call_at: Option<Timestamp>,
    pub last_error_at: Option<Timestamp>,
    pub last_error_status: Option<u16>,
    pub last_error_message: Option<String>,
    pub retry_hint: Option<String>,
}

impl Default for ProviderRoleHealthSnapshot {
    fn default() -> (role: Self)
        ensures
            role.status == ProviderHealthStatus::Disabled,
            role.provider is None,
            role.model is None,
            role.dim is None,
            role.last_call_at is None,
            role.last_error_at is None,
            role.last_error_status is None,
            role.last_error_message is None,
            role.retry_hint is None,
    {
        ProviderRoleHealthSnapshot {
            status: ProviderHealthStatus::Disabled,
            provider: None,
            model: None,
            dim: None,
            last_call_at: None,
            last_error_at: None,
            last_error_status: None,
            last_error_message: None,
            retry_hint: None,
        }
    }
}

/// How the providers fare, by role.
#[derive(Debug)]
pub struct ProviderHealthSnapshot {
    pub llm: ProviderRoleHealthSnapshot,
    pub embedding: ProviderRoleHealthSnapshot,
}

} // verus!
