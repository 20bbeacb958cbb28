//! What holds of every exchange with a provider.

use crate::codex_responses::{
    account_view, header_views, is_success_status, payload_of_line, payloads_of, request_headers,
};
use crate::error::{is_transient_status, HttpFailure, LlmError};
use crate::ids::hyphenated;
use crate::json::JsonTree;
use crate::llm_test::{
    answer_schema_tree, chosen_url, given_key, model_line, usage_line, TokenUsage,
};
use crate::provider::{runtime_choice, LlmProviderChoice};
use crate::text::{decimal, split_on, split_takes_the_first_piece, trimmed};
use vstd::prelude::*;

verus! {

// ---------------------------------------------------------------------------
// Errors
// ---------------------------------------------------------------------------

/// A second request is worth it exactly where the server asks for patience or
/// fails itself, by any status from 500 to 599, or where no one answered in time
/// or at all. Whatever an error says in words does not matter.
pub proof fn only_what_may_pass_is_tried_again(
    status: u16,
    text: String,
    timeout: bool,
    connect: bool,
)
    ensures
        (LlmError::Provider { status, body: text }).spec_is_transient() <==> status == 429 || (500
            <= status && status < 600),
        LlmError::Http(HttpFailure { message: text, timeout, connect }).spec_is_transient() <==> (
        timeout || connect),
        !LlmError::Serde(text).spec_is_transient(),
        !LlmError::UnexpectedShape(text).spec_is_transient(),
        !LlmError::NotConfigured(text).spec_is_transient(),
        !LlmError::Auth(text).spec_is_transient(),
        !LlmError::Schema(text).spec_is_transient(),
        is_transient_status(status as int) <==> status == 429 || (500 <= status && status < 600),
{
}

/// An error says what kind it is, and then all that is known of it.
pub proof fn an_error_says_all_that_is_known(
    status: u16,
    text: String,
    timeout: bool,
    connect: bool,
)
    ensures
        LlmError::Http(HttpFailure { message: text, timeout, connect }).display() == "http: "@
            + text@,
        (LlmError::Provider { status, body: text }).display() == "provider error "@ + decimal(
            status as nat,
        ) + ": "@ + text@,
        LlmError::Serde(text).display() == "serde: "@ + text@,
        LlmError::UnexpectedShape(text).display() == "unexpected response shape: "@ + text@,
        LlmError::NotConfigured(text).display() == "provider not configured: "@ + text@,
        LlmError::Auth(text).display() == "auth: "@ + text@,
        LlmError::Schema(text).display() == "schema: "@ + text@,
{
}

// ---------------------------------------------------------------------------
// The Codex backend
// ---------------------------------------------------------------------------

/// The headers of a request: five of its own, then every configured one as it is
/// and in its place, and last the account, exactly if one is known.
pub proof fn a_request_carries_every_header(
    stream: bool,
    session: u128,
    extra: Seq<(Seq<char>, Seq<char>)>,
    account_id: Option<Seq<char>>,
)
    ensures
        ({
            let headers = request_headers(stream, session, extra, account_id);
            &&& headers.len() == 5 + extra.len() + if account_id is Some {
                1nat
            } else {
                0nat
            }
            &&& headers[0] == ("content-type"@, "application/json"@)
            &&& stream ==> headers[1] == ("accept"@, "text/event-stream"@)
            &&& !stream ==> headers[1] == ("accept"@, "application/json"@)
            &&& headers[2] == ("openai-beta"@, "responses=experimental"@)
            &&& headers[3] == ("originator"@, "codex_cli_rs"@)
            &&& headers[4] == ("session_id"@, hyphenated(session))
            &&& forall|i: int| 0 <= i < extra.len() ==> (#[trigger] headers[5 + i]) == extra[i]
            &&& account_id is Some ==> headers.last() == ("chatgpt-account-id"@, account_id->0)
        }),
{
    let headers = request_headers(stream, session, extra, account_id);
    assert forall|i: int| 0 <= i < extra.len() implies (#[trigger] headers[5 + i]) == extra[i] by {}
}

/// A list of headers says each name and value, one for one; an account says what
/// it is.
pub proof fn headers_are_listed_one_for_one(
    headers: Seq<(String, String)>,
    account_id: Option<&str>,
)
    ensures
        header_views(headers).len() == headers.len(),
        forall|i: int|
            0 <= i < headers.len() ==> (#[trigger] header_views(headers)[i]) == (
                headers[i].0@,
                headers[i].1@,
            ),
        account_id is Some ==> account_view(account_id) == Some(account_id->0@),
        account_id is None ==> account_view(account_id) is None,
{
}

/// A status reports success exactly from 200 to 299.
pub proof fn only_the_two_hundreds_succeed(status: int)
    ensures
        is_success_status(status) <==> status / 100 == 2,
{
}

/// An event stream carries what its `data:` lines carry, in their order.
pub proof fn an_event_stream_carries_its_data(
    line: Seq<char>,
    data: Seq<char>,
    rest: Seq<char>,
)
    requires
        forall|i: int| 0 <= i < line.len() ==> (#[trigger] line[i]) != '\n',
    ensures
        payload_of_line("data:"@ + data) == Some(trimmed(data)),
        (forall|d: Seq<char>| line != #[trigger] ("data:"@ + d)) ==> payload_of_line(line) is None,
        payloads_of(line.push('\n') + rest) == (match payload_of_line(line) {
            Some(payload) => seq![payload],
            None => Seq::empty(),
        }) + payloads_of(rest),
{
    reveal_strlit("data:");
    let tagged = "data:"@ + data;
    assert(tagged.take(5) == "data:"@);
    assert(tagged.skip(5) == data);
    if line.len() >= 5 && line.take(5) == "data:"@ {
        assert(line == "data:"@ + line.skip(5));
    }
    assert(!line.contains('\n'));
    split_takes_the_first_piece(line, rest, '\n');
    lemma_filter_map_goes_on(
        line,
        split_on(rest, '\n'),
        |l: Seq<char>| payload_of_line(l),
    );
}

proof fn lemma_filter_map_goes_on(
    first: Seq<char>,
    rest: Seq<Seq<char>>,
    read: spec_fn(Seq<char>) -> Option<Seq<char>>,
)
    ensures
        (seq![first] + rest).filter_map(read) == (match read(first) {
            Some(c) => seq![c],
            None => Seq::empty(),
        }) + rest.filter_map(read),
    decreases rest.len(),
{
    let whole = seq![first] + rest;
    let head = match read(first) {
        Some(c) => seq![c],
        None => Seq::empty(),
    };
    if rest.len() == 0 {
        assert(whole.drop_last() == Seq::<Seq<char>>::empty());
        assert(whole.drop_last().filter_map(read) == Seq::<Seq<char>>::empty());
        assert(whole.last() == first);
        assert(rest.filter_map(read) == Seq::<Seq<char>>::empty());
        assert(whole.filter_map(read) =~= head);
    } else {
        lemma_filter_map_goes_on(first, rest.drop_last(), read);
        assert(whole.drop_last() == seq![first] + rest.drop_last());
        assert(whole.last() == rest.last());
        assert(whole.filter_map(read) =~= head + rest.filter_map(read));
    }
}

// ---------------------------------------------------------------------------
// The smoke test
// ---------------------------------------------------------------------------

/// What is given on the command line counts: an address in any case, a key if it
/// is not empty; the configured address stands in for one that is not given.
pub proof fn the_command_line_comes_first(
    given: String,
    configured: Option<String>,
)
    ensures
        given@.len() > 0 ==> given_key(Some(given)) == Some(given),
        given@.len() == 0 ==> given_key(Some(given)) is None,
        given_key(None) is None,
        chosen_url(Some(given), configured) == Some(given),
        chosen_url(None, configured) == configured,
{
}

/// Every name on the command line stands for the provider of that name.
pub proof fn a_name_stands_for_its_provider(choice: LlmProviderChoice)
    ensures
        runtime_choice(choice) is Anthropic <==> choice is Anthropic,
        runtime_choice(choice) is AnthropicOAuth <==> choice is AnthropicOauth,
        runtime_choice(choice) is OpenAi <==> choice is Openai,
        runtime_choice(choice) is Gemini <==> choice is Gemini,
        runtime_choice(choice) is OpenAiCompat <==> choice is OpenaiCompat,
        runtime_choice(choice) is OpenAiOAuth <==> choice is OpenaiOauth,
        runtime_choice(choice) is Codex <==> choice is Codex,
        runtime_choice(choice) is Copilot <==> choice is Copilot,
        runtime_choice(choice) is OpenCode <==> choice is Opencode,
{
}

/// An answer is printed below the model that gave it, under its full name, and
/// below the tokens it took, where they are known.
pub proof fn an_answer_names_its_model_and_tokens(model: Seq<char>, usage: TokenUsage)
    ensures
        model_line(model) == "--- model: "@ + model + " ---\n"@,
        usage_line(Some(usage)) == "--- usage: in="@ + decimal(usage.input_tokens as nat)
            + " out="@ + decimal(usage.output_tokens as nat) + " ---\n"@,
        usage_line(None) == Seq::<char>::empty(),
{
}

/// A structured answer is asked for as an object with one text, called `answer`,
/// which it must have.
pub proof fn a_structured_answer_has_one_text()
    ensures
        ({
            let members = answer_schema_tree()->Object_0;
            let properties = members[1].1->Object_0;
            let required = members[2].1->List_0;
            &&& answer_schema_tree() is Object
            &&& members.len() == 3
            &&& members[0] == ("type"@, JsonTree::Text("object"@))
            &&& members[1].0 == "properties"@ && members[1].1 is Object
            &&& properties.len() == 1
            &&& properties[0].0 == "answer"@ && properties[0].1 is Object
            &&& properties[0].1->Object_0.len() == 1
            &&& properties[0].1->Object_0[0] == ("type"@, JsonTree::Text("string"@))
            &&& members[2].0 == "required"@ && members[2].1 is List
            &&& required.len() == 1
            &&& required[0] == JsonTree::Text("answer"@)
        }),
{
}

} // verus!
