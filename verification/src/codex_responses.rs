//! The exchange with the ChatGPT/Codex Responses backend: what a request
//! carries besides its body, and what is done with the reply.

use crate::error::{is_transient_status, LlmError};
use crate::ids::{hyphenated, is_random_uuid, random_uuid, uuid_text};
use crate::text::{same_text, split_on, split_text, trim_text, trimmed, views};
use vstd::prelude::*;

verus! {

/// ChatGPT/Codex Responses backend.
pub const CODEX_RESPONSES_URL: &'static str = "https://chatgpt.com/backend-api/codex/responses";

/// The names and values of a list of headers.
pub open spec fn header_views(headers: Seq<(String, String)>) -> Seq<(Seq<char>, Seq<char>)> {
    headers.map_values(|h: (String, String)| (h.0@, h.1@))
}

/// What kind of reply a request asks for: a stream of events, or one object.
pub open spec fn accepted_type(stream: bool) -> Seq<char> {
    if stream {
        "text/event-stream"@
    } else {
        "application/json"@
    }
}

/// The headers of a request, in the order in which they are set: the fixed
/// ones, those that the user configured, and the account, if one is known.
pub open spec fn request_headers(
    stream: bool,
    session: u128,
    extra: Seq<(Seq<char>, Seq<char>)>,
    account_id: Option<Seq<char>>,
) -> Seq<(Seq<char>, Seq<char>)> {
    seq![
        ("content-type"@, "application/json"@),
        ("accept"@, accepted_type(stream)),
        ("openai-beta"@, "responses=experimental"@),
        ("originator"@, "codex_cli_rs"@),
        ("session_id"@, hyphenated(session)),
    ] + extra + (match account_id {
        Some(id) => seq![("chatgpt-account-id"@, id)],
        None => seq![],
    })
}

/// The text of an optional account.
pub open spec fn account_view(account_id: Option<&str>) -> Option<Seq<char>> {
    match account_id {
        Some(id) => Some(id@),
        None => None,
    }
}

/// Append one header.
fn push_header(headers: &mut Vec<(String, String)>, name: &str, value: &str)
    ensures
        header_views(final(headers)@) == header_views(old(headers)@).push((name@, value@)),
{
    let ghost earlier = headers@;
    let header = (name.to_string(), value.to_string());
    headers.push(header);
    assert(header_views(headers@) == header_views(earlier).push((header.0@, header.1@)));
}

/// The headers of a request in the session `session`.
pub fn codex_headers(
    stream: bool,
    session: u128,
    extra_headers: &Vec<(String, String)>,
    account_id: Option<&str>,
) -> (headers: Vec<(String, String)>)
    ensures
        header_views(headers@) == request_headers(
            stream,
            session,
            header_views(extra_headers@),
            account_view(account_id),
        ),
{
    let mut headers: Vec<(String, String)> = Vec::new();
    push_header(&mut headers, "content-type", "application/json");
    push_header(
        &mut headers,
        "accept",
        if stream {
            "text/event-stream"
        } else {
            "application/json"
        },
    );
    push_header(&mut headers, "openai-beta", "responses=experimental");
    push_header(&mut headers, "originator", "codex_cli_rs");
    push_header(&mut headers, "session_id", uuid_text(session).as_str());
    let ghost fixed = header_views(headers@);
    let ghost extra = header_views(extra_headers@);
    let mut i: usize = 0;
    assert(fixed + extra.take(0) == fixed);
    while i < extra_headers.len()
        invariant
            i <= extra_headers@.len(),
            extra == header_views(extra_headers@),
            header_views(headers@) == fixed + extra.take(i as int),
        decreases extra_headers@.len() - i,
    {
        push_header(&mut headers, extra_headers[i].0.as_str(), extra_headers[i].1.as_str());
        assert(extra.take(i + 1) == extra.take(i as int).push(extra[i as int]));
        i = i + 1;
    }
    assert(extra.take(extra.len() as int) == extra);
    if let Some(id) = account_id {
        push_header(&mut headers, "chatgpt-account-id", id);
    }
    headers
}

/// The headers of a request in a session of its own.
pub fn fresh_codex_headers(
    stream: bool,
    extra_headers: &Vec<(String, String)>,
    account_id: Option<&str>,
) -> (headers: Vec<(String, String)>)
    ensures
        exists|session: u128| #[trigger]
            is_random_uuid(session) && header_views(headers@) == request_headers(
                stream,
                session,
                header_views(extra_headers@),
                account_view(account_id),
            ),
{
    let session = random_uuid();
    codex_headers(stream, session, extra_headers, account_id)
}

/// What to do with a reply.
#[derive(Clone, Copy, PartialEq, Eq, Structural, Debug)]
pub enum ReplyAction {
    /// Read the body as the provider's account of what went wrong.
    ReadError,
    /// Read the body as a stream of events.
    ReadEvents,
    /// Read the body as one JSON object.
    ReadJson,
}

/// Whether an HTTP status reports success.
pub open spec fn is_success_status(status: int) -> bool {
    200 <= status <= 299
}

/// What to do with a reply of the given status to a request that did or did
/// not ask for a stream.
pub fn reply_action(status: u16, stream: bool) -> (action: ReplyAction)
    ensures
        action == (if !is_success_status(status as int) {
            ReplyAction::ReadError
        } else if stream {
            ReplyAction::ReadEvents
        } else {
            ReplyAction::ReadJson
        }),
{
    if !(200 <= status && status <= 299) {
        ReplyAction::ReadError
    } else if stream {
        ReplyAction::ReadEvents
    } else {
        ReplyAction::ReadJson
    }
}

/// What a line of an event stream carries: all behind `data:`, without the white
/// space around it. Other lines carry nothing.
pub open spec fn payload_of_line(line: Seq<char>) -> Option<Seq<char>> {
    if line.len() >= 5 && line.take(5) == "data:"@ {
        Some(trimmed(line.skip(5)))
    } else {
        None
    }
}

/// What an event stream carries, in its order.
pub open spec fn payloads_of(events: Seq<char>) -> Seq<Seq<char>> {
    split_on(events, '\n').filter_map(|line: Seq<char>| payload_of_line(line))
}

/// What a line of an event stream carries.
fn line_payload(line: &str) -> (payload: Option<String>)
    ensures
        payload is Some <==> payload_of_line(line@) is Some,
        payload is Some ==> payload->0@ == payload_of_line(line@)->0,
{
    let length = line.unicode_len();
    if length < 5 {
        return None;
    }
    let head = line.substring_char(0, 5);
    assert(head@ == line@.take(5));
    if !same_text(head, "data:") {
        return None;
    }
    let rest = line.substring_char(5, length);
    assert(rest@ == line@.skip(5));
    Some(trim_text(rest).to_string())
}

/// What an event stream carries, in its order.
pub fn event_payloads(events: &str) -> (payloads: Vec<String>)
    ensures
        views(payloads@) == payloads_of(events@),
{
    let lines = split_text(events, '\n');
    let ghost all = split_on(events@, '\n');
    let ghost read = |line: Seq<char>| payload_of_line(line);
    let mut payloads: Vec<String> = Vec::new();
    let mut i: usize = 0;
    assert(all.take(0).filter_map(read) == Seq::<Seq<char>>::empty());
    while i < lines.len()
        invariant
            i <= lines@.len(),
            all == views(lines@),
            read == (|line: Seq<char>| payload_of_line(line)),
            views(payloads@) == all.take(i as int).filter_map(read),
        decreases lines@.len() - i,
    {
        let ghost earlier = payloads@;
        assert(lines@[i as int]@ == all[i as int]);
        assert(all.take(i + 1).drop_last() == all.take(i as int));
        assert(all.take(i + 1).last() == all[i as int]);
        if let Some(payload) = line_payload(lines[i].as_str()) {
            payloads.push(payload);
            assert(views(payloads@) == views(earlier).push(payload@));
            assert(all.take(i + 1).filter_map(read) == all.take(i as int).filter_map(read) + seq![
                payload@,
            ]);
        }
        i = i + 1;
    }
    assert(all.take(all.len() as int) == all);
    payloads
}

/// The error that a refused request ends in: the status, and what the provider
/// said of it.
pub fn provider_failure(status: u16, body: String) -> (error: LlmError)
    ensures
        error == (LlmError::Provider { status, body }),
        error.spec_is_transient() == is_transient_status(status as int),
{
    LlmError::Provider { status, body }
}

} // verus!
