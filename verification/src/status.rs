//! The `status` report: what a server says of itself, and what is queued
//! locally, as text or as JSON.

use crate::clock::{instant_display, Timestamp};
use crate::json::{
    compact_text, json_bool, json_compact, json_insert, json_list, json_null,
    json_number, json_object, json_pretty, json_text, json_tree, pretty_text, JsonTree,
};
use crate::provider::{
    ProviderHealthSnapshot, ProviderHealthStatus, ProviderRoleHealthSnapshot,
};
use crate::text::{decimal, decimal_text, join_texts, joined, views};
use vstd::prelude::*;

verus! {

/// What a server reports of itself.
#[derive(Debug)]
pub struct Report {
    /// Server binary version.
    pub version: String,
    /// Server-side data directory path.
    pub data_dir: String,
    /// Server bind address.
    pub bind: String,
    /// Server-side SQLite path.
    pub db_path: String,
    /// Lifetime counts.
    pub counts: Counts,
    /// Derived-index diagnostics.
    pub derived: Derived,
    /// Passive process-scoped provider health.
    pub providers: ProviderHealthSnapshot,
}

/// Lifetime counts.
#[derive(Debug)]
pub struct Counts {
    pub pages_latest: u64,
    pub pages_all: u64,
    pub sessions: u64,
    pub observations: u64,
}

/// Derived-index diagnostics.
#[derive(Debug)]
pub struct Derived {
    pub pages_rows: u64,
    pub pages_fts_rows: u64,
    pub observations_rows: u64,
    pub observations_fts_rows: u64,
    pub latest_pages_missing_embeddings: u64,
    pub embedding_rows: u64,
    pub embedding_triples: Vec<EmbeddingTriple>,
    pub links_from_latest_pages: u64,
    pub unresolved_links_from_latest_pages: u64,
    pub stale_links_from_latest_pages: u64,
}

impl Default for Derived {
    fn default() -> (derived: Self)
        ensures
            derived.pages_rows == 0,
            derived.pages_fts_rows == 0,
            derived.observations_rows == 0,
            derived.observations_fts_rows == 0,
            derived.latest_pages_missing_embeddings == 0,
            derived.embedding_rows == 0,
            derived.embedding_triples@.len() == 0,
            derived.links_from_latest_pages == 0,
            derived.unresolved_links_from_latest_pages == 0,
            derived.stale_links_from_latest_pages == 0,
    {
        Derived {
            pages_rows: 0,
            pages_fts_rows: 0,
            observations_rows: 0,
            observations_fts_rows: 0,
            latest_pages_missing_embeddings: 0,
            embedding_rows: 0,
            embedding_triples: Vec::new(),
            links_from_latest_pages: 0,
            unresolved_links_from_latest_pages: 0,
            stale_links_from_latest_pages: 0,
        }
    }
}

/// How many embeddings one model of one provider made.
#[derive(Debug)]
pub struct EmbeddingTriple {
    pub provider: String,
    pub model: String,
    pub dim: u32,
    pub count: u64,
}

/// The state of the local queue of undelivered events: counts and ages only,
/// and nothing of what the events say.
#[derive(Clone, Copy, PartialEq, Eq, Structural, Debug)]
pub struct SpoolHealth {
    /// Events waiting to be delivered.
    pub pending: u64,
    /// Age of the oldest of them, in milliseconds.
    pub oldest_age_ms: Option<u64>,
    /// Attempts to deliver that failed.
    pub retries_total: u64,
}

impl Default for SpoolHealth {
    fn default() -> (spool: Self)
        ensures
            spool.pending == 0,
            spool.oldest_age_ms is None,
            spool.retries_total == 0,
    {
        SpoolHealth { pending: 0, oldest_age_ms: None, retries_total: 0 }
    }
}

/// Where the client sent its request, and whether with credentials.
#[derive(Debug)]
pub struct ServerEndpoint {
    pub url: String,
    pub auth: bool,
}

// ---------------------------------------------------------------------------
// Lines
// ---------------------------------------------------------------------------

/// The age of the oldest queued event: its two highest units, or `-` where
/// nothing is queued.
pub open spec fn age_text(age_ms: Option<u64>) -> Seq<char> {
    match age_ms {
        None => "-"@,
        Some(ms) => {
            let secs = ms as nat / 1000;
            if secs < 60 {
                decimal(secs) + "s"@
            } else if secs < 3600 {
                decimal(secs / 60) + "m "@ + decimal(secs % 60) + "s"@
            } else if secs < 86_400 {
                decimal(secs / 3600) + "h "@ + decimal((secs % 3600) / 60) + "m"@
            } else {
                decimal(secs / 86_400) + "d "@ + decimal((secs % 86_400) / 3600) + "h"@
            }
        },
    }
}

/// Two numbers, each with its unit.
fn two_units(high: u64, high_unit: &str, low: u64, low_unit: &str) -> (text: String)
    ensures
        text@ == decimal(high as nat) + high_unit@ + decimal(low as nat) + low_unit@,
{
    let mut text = decimal_text(high);
    text.append(high_unit);
    text.append(decimal_text(low).as_str());
    text.append(low_unit);
    text
}

/// Render a spool age as a compact human duration, or `-` when the spool holds
/// no events. An operator reading a stuck-spool diagnosis wants the magnitude,
/// not sub-second precision.
pub fn spool_age_line(age_ms: Option<u64>) -> (text: String)
    ensures
        text@ == age_text(age_ms),
{
    let ms = match age_ms {
        None => {
            return "-".to_string();
        },
        Some(ms) => ms,
    };
    let secs: u64 = ms / 1000;
    if secs < 60 {
        let mut text = decimal_text(secs);
        text.append("s");
        text
    } else if secs < 3600 {
        two_units(secs / 60, "m ", secs % 60, "s")
    } else if secs < 86_400 {
        two_units(secs / 3600, "h ", (secs % 3600) / 60, "m")
    } else {
        two_units(secs / 86_400, "d ", (secs % 86_400) / 3600, "h")
    }
}

/// What the provider of a role is called: its name, and as far as they are
/// known its model and the width of its vectors.
pub open spec fn label_text(role: ProviderRoleHealthSnapshot) -> Seq<char> {
    match (role.provider, role.model, role.dim) {
        (Some(provider), Some(model), Some(dim)) => provider@ + "/"@ + model@ + " ("@ + decimal(
            dim as nat,
        ) + "d)"@,
        (Some(provider), Some(model), None) => provider@ + "/"@ + model@,
        (Some(provider), None, _) => provider@,
        _ => "provider"@,
    }
}

/// What the provider of a role is called.
pub fn provider_label(role: &ProviderRoleHealthSnapshot) -> (label: String)
    ensures
        label@ == label_text(*role),
{
    match (&role.provider, &role.model, role.dim) {
        (Some(provider), Some(model), Some(dim)) => {
            let mut label = provider.clone();
            label.append("/");
            label.append(model.as_str());
            label.append(" (");
            label.append(decimal_text(dim as u64).as_str());
            label.append("d)");
            label
        },
        (Some(provider), Some(model), None) => {
            let mut label = provider.clone();
            label.append("/");
            label.append(model.as_str());
            label
        },
        (Some(provider), None, _) => provider.clone(),
        _ => "provider".to_string(),
    }
}

/// The HTTP status of the last error, if one is known.
pub open spec fn status_part(role: ProviderRoleHealthSnapshot) -> Seq<Seq<char>> {
    match role.last_error_status {
        Some(status) => seq!["status "@ + decimal(status as nat)],
        None => seq![],
    }
}

/// The message of the last error, if there is one to show.
pub open spec fn message_part(role: ProviderRoleHealthSnapshot) -> Seq<Seq<char>> {
    match role.last_error_message {
        Some(message) => if message@.len() > 0 {
            seq![message@]
        } else {
            seq![]
        },
        None => seq![],
    }
}

/// The time of the last error, if it is known.
pub open spec fn error_time_part(when: Option<Seq<char>>) -> Seq<Seq<char>> {
    match when {
        Some(when) => seq!["last error: "@ + when],
        None => seq![],
    }
}

/// What is known of the last error of a role, which was at the time `when`.
pub open spec fn detail_at(role: ProviderRoleHealthSnapshot, when: Option<Seq<char>>) -> Seq<
    char,
> {
    let parts = status_part(role) + message_part(role) + error_time_part(when);
    if parts.len() == 0 {
        "last call failed"@
    } else {
        joined(parts, "; "@)
    }
}

/// An instant as it is displayed, if there is one.
pub open spec fn displayed(instant: Option<Timestamp>) -> Option<Seq<char>> {
    match instant {
        Some(when) => Some(instant_display(when.spec_second(), when.spec_nanosecond())),
        None => None,
    }
}

/// The text of an optional text.
pub open spec fn option_view(text: Option<String>) -> Option<Seq<char>> {
    match text {
        Some(text) => Some(text@),
        None => None,
    }
}

/// What is known of the last error of a role.
pub open spec fn detail_text(role: ProviderRoleHealthSnapshot) -> Seq<char> {
    detail_at(role, displayed(role.last_error_at))
}

/// An instant as it is displayed, if there is one.
fn display_of(instant: &Option<Timestamp>) -> (text: Option<String>)
    ensures
        option_view(text) == displayed(*instant),
{
    match instant {
        Some(when) => Some(when.display()),
        None => None,
    }
}

/// What is known of the last error of a role.
pub fn error_detail(role: &ProviderRoleHealthSnapshot) -> (detail: String)
    ensures
        detail@ == detail_text(*role),
{
    error_detail_at(role, display_of(&role.last_error_at))
}

/// What is known of the last error of a role, which was at the time `when`.
pub fn error_detail_at(role: &ProviderRoleHealthSnapshot, when: Option<String>) -> (detail: String)
    ensures
        detail@ == detail_at(*role, option_view(when)),
{
    let mut parts: Vec<String> = Vec::new();
    if let Some(status) = role.last_error_status {
        let mut part = "status ".to_string();
        part.append(decimal_text(status as u64).as_str());
        parts.push(part);
    }
    assert(views(parts@) == status_part(*role));
    if let Some(message) = &role.last_error_message {
        if !message.as_str().is_empty() {
            let ghost earlier = parts@;
            let part = message.clone();
            parts.push(part);
            assert(views(parts@) == views(earlier).push(part@));
        }
    }
    assert(views(parts@) == status_part(*role) + message_part(*role));
    if let Some(when) = &when {
        let ghost earlier = parts@;
        let mut part = "last error: ".to_string();
        part.append(when.as_str());
        parts.push(part);
        assert(views(parts@) == views(earlier).push(part@));
    }
    assert(views(parts@) == status_part(*role) + message_part(*role) + error_time_part(
        option_view(when),
    ));
    if parts.len() == 0 {
        "last call failed".to_string()
    } else {
        join_texts(&parts, "; ")
    }
}

/// One line on how the provider of a role fares, which was last called, and last
/// failed, at the given times.
pub open spec fn health_at(
    role: ProviderRoleHealthSnapshot,
    last_call: Option<Seq<char>>,
    last_error: Option<Seq<char>>,
) -> Seq<char> {
    match role.status {
        ProviderHealthStatus::Disabled => "disabled"@,
        ProviderHealthStatus::Unknown => label_text(role) + " unknown (no calls yet)"@,
        ProviderHealthStatus::Healthy => label_text(role) + " ok (last call: "@ + (
        match last_call {
            Some(when) => when,
            None => "unknown time"@,
        }) + ")"@,
        ProviderHealthStatus::Error => label_text(role) + " error ("@ + detail_at(role, last_error)
            + ")"@,
    }
}

/// One line on how the provider of a role fares.
pub open spec fn health_text(role: ProviderRoleHealthSnapshot) -> Seq<char> {
    health_at(role, displayed(role.last_call_at), displayed(role.last_error_at))
}

/// One line on how the provider of a role fares, which was last called, and last
/// failed, at the given times.
pub fn provider_health_line_at(
    role: &ProviderRoleHealthSnapshot,
    last_call: Option<String>,
    last_error: Option<String>,
) -> (line: String)
    ensures
        line@ == health_at(*role, option_view(last_call), option_view(last_error)),
{
    match role.status {
        ProviderHealthStatus::Disabled => "disabled".to_string(),
        ProviderHealthStatus::Unknown => {
            let mut line = provider_label(role);
            line.append(" unknown (no calls yet)");
            line
        },
        ProviderHealthStatus::Healthy => {
            let when = match last_call {
                Some(when) => when,
                None => "unknown time".to_string(),
            };
            let mut line = provider_label(role);
            line.append(" ok (last call: ");
            line.append(when.as_str());
            line.append(")");
            line
        },
        ProviderHealthStatus::Error => {
            let mut line = provider_label(role);
            line.append(" error (");
            line.append(error_detail_at(role, last_error).as_str());
            line.append(")");
            line
        },
    }
}

/// One line on how the provider of a role fares.
pub fn provider_health_line(role: &ProviderRoleHealthSnapshot) -> (line: String)
    ensures
        line@ == health_text(*role),
{
    let last_call = display_of(&role.last_call_at);
    let last_error = display_of(&role.last_error_at);
    provider_health_line_at(role, last_call, last_error)
}

// ---------------------------------------------------------------------------
// Text
// ---------------------------------------------------------------------------

/// A line of a label and a value.
pub open spec fn field(label: Seq<char>, value: Seq<char>) -> Seq<char> {
    label + value + "\n"@
}

/// Append a line of a label and a value.
fn push_field(buf: &mut String, label: &str, value: &str)
    ensures
        final(buf)@ == old(buf)@ + field(label@, value@),
{
    buf.append(label);
    buf.append(value);
    buf.append("\n");
    assert(buf@ == old(buf)@ + field(label@, value@));
}

/// Append a line of a label and a number.
fn push_number(buf: &mut String, label: &str, number: u64)
    ensures
        final(buf)@ == old(buf)@ + field(label@, decimal(number as nat)),
{
    push_field(buf, label, decimal_text(number).as_str());
}

/// The lines on the server itself.
pub open spec fn server_text(report: Report, url: Seq<char>) -> Seq<char> {
    "ai-memory "@ + report.version@ + " (server)\n"@ + field("  server:       "@, url) + field(
        "  data-dir:     "@,
        report.data_dir@,
    ) + field("  db:           "@, report.db_path@) + field("  bind:         "@, report.bind@)
}

/// The lines on what the server has stored.
pub open spec fn stored_text(counts: Counts) -> Seq<char> {
    field(
        "  pages:        "@,
        decimal(counts.pages_latest as nat) + " (all versions: "@ + decimal(counts.pages_all as nat)
            + ")"@,
    ) + field("  sessions:     "@, decimal(counts.sessions as nat)) + field(
        "  observations: "@,
        decimal(counts.observations as nat),
    )
}

/// The lines on what the server derives from what it stores.
pub open spec fn derived_text(derived: Derived) -> Seq<char> {
    field(
        "  fts:          "@,
        "pages "@ + decimal(derived.pages_fts_rows as nat) + "/"@ + decimal(
            derived.pages_rows as nat,
        ) + "; observations "@ + decimal(derived.observations_fts_rows as nat) + "/"@ + decimal(
            derived.observations_rows as nat,
        ),
    ) + field(
        "  embeddings:   "@,
        decimal(derived.embedding_rows as nat) + " rows; "@ + decimal(
            derived.latest_pages_missing_embeddings as nat,
        ) + " latest pages missing"@,
    ) + field(
        "  links:        "@,
        decimal(derived.links_from_latest_pages as nat) + " latest-page links (unresolved: "@
            + decimal(derived.unresolved_links_from_latest_pages as nat) + ", stale: "@ + decimal(
            derived.stale_links_from_latest_pages as nat,
        ) + ")"@,
    )
}

/// The lines on the local queue.
pub open spec fn spool_text(spool: SpoolHealth) -> Seq<char> {
    "  spool:\n"@ + field("    pending:    "@, decimal(spool.pending as nat)) + field(
        "    oldest:     "@,
        age_text(spool.oldest_age_ms),
    ) + field("    retries:    "@, decimal(spool.retries_total as nat))
}

/// The line that says when to try again, where the language model failed and
/// left a hint.
pub open spec fn retry_text(role: ProviderRoleHealthSnapshot) -> Seq<char> {
    match role.retry_hint {
        Some(hint) => if role.status == ProviderHealthStatus::Error {
            field("    retry:     "@, hint@)
        } else {
            Seq::empty()
        },
        None => Seq::empty(),
    }
}

/// The lines on the providers.
pub open spec fn providers_text(providers: ProviderHealthSnapshot) -> Seq<char> {
    "  providers:\n"@ + field("    llm:       "@, health_text(providers.llm)) + field(
        "    embedding: "@,
        health_text(providers.embedding),
    ) + retry_text(providers.llm)
}

/// The report as text.
pub open spec fn status_text(report: Report, url: Seq<char>, spool: SpoolHealth) -> Seq<char> {
    server_text(report, url) + stored_text(report.counts) + derived_text(report.derived)
        + spool_text(spool) + providers_text(report.providers)
}

fn push_server(buf: &mut String, report: &Report, url: &str)
    ensures
        final(buf)@ == old(buf)@ + server_text(*report, url@),
{
    let mut block = "ai-memory ".to_string();
    block.append(report.version.as_str());
    block.append(" (server)\n");
    push_field(&mut block, "  server:       ", url);
    push_field(&mut block, "  data-dir:     ", report.data_dir.as_str());
    push_field(&mut block, "  db:           ", report.db_path.as_str());
    push_field(&mut block, "  bind:         ", report.bind.as_str());
    buf.append(block.as_str());
}

fn push_stored(buf: &mut String, counts: &Counts)
    ensures
        final(buf)@ == old(buf)@ + stored_text(*counts),
{
    let mut pages = decimal_text(counts.pages_latest);
    pages.append(" (all versions: ");
    pages.append(decimal_text(counts.pages_all).as_str());
    pages.append(")");
    push_field(buf, "  pages:        ", pages.as_str());
    push_number(buf, "  sessions:     ", counts.sessions);
    push_number(buf, "  observations: ", counts.observations);
    assert(buf@ == old(buf)@ + stored_text(*counts));
}

fn push_derived(buf: &mut String, derived: &Derived)
    ensures
        final(buf)@ == old(buf)@ + derived_text(*derived),
{
    let mut fts = "pages ".to_string();
    fts.append(decimal_text(derived.pages_fts_rows).as_str());
    fts.append("/");
    fts.append(decimal_text(derived.pages_rows).as_str());
    fts.append("; observations ");
    fts.append(decimal_text(derived.observations_fts_rows).as_str());
    fts.append("/");
    fts.append(decimal_text(derived.observations_rows).as_str());
    let mut embeddings = decimal_text(derived.embedding_rows);
    embeddings.append(" rows; ");
    embeddings.append(decimal_text(derived.latest_pages_missing_embeddings).as_str());
    embeddings.append(" latest pages missing");
    let mut links = decimal_text(derived.links_from_latest_pages);
    links.append(" latest-page links (unresolved: ");
    links.append(decimal_text(derived.unresolved_links_from_latest_pages).as_str());
    links.append(", stale: ");
    links.append(decimal_text(derived.stale_links_from_latest_pages).as_str());
    links.append(")");
    push_field(buf, "  fts:          ", fts.as_str());
    push_field(buf, "  embeddings:   ", embeddings.as_str());
    push_field(buf, "  links:        ", links.as_str());
    assert(buf@ == old(buf)@ + derived_text(*derived));
}

fn push_spool(buf: &mut String, spool: &SpoolHealth)
    ensures
        final(buf)@ == old(buf)@ + spool_text(*spool),
{
    let mut block = "  spool:\n".to_string();
    push_number(&mut block, "    pending:    ", spool.pending);
    push_field(&mut block, "    oldest:     ", spool_age_line(spool.oldest_age_ms).as_str());
    push_number(&mut block, "    retries:    ", spool.retries_total);
    buf.append(block.as_str());
}

fn push_providers(buf: &mut String, providers: &ProviderHealthSnapshot)
    ensures
        final(buf)@ == old(buf)@ + providers_text(*providers),
{
    let mut block = "  providers:\n".to_string();
    push_field(&mut block, "    llm:       ", provider_health_line(&providers.llm).as_str());
    push_field(&mut block, "    embedding: ", provider_health_line(&providers.embedding).as_str());
    if providers.llm.status == ProviderHealthStatus::Error {
        if let Some(hint) = &providers.llm.retry_hint {
            push_field(&mut block, "    retry:     ", hint.as_str());
        }
    }
    assert(block@ == providers_text(*providers));
    buf.append(block.as_str());
}

/// The report as text.
pub fn render_status(report: &Report, url: &str, spool: &SpoolHealth) -> (text: String)
    ensures
        text@ == status_text(*report, url@, *spool),
{
    let mut buf = String::new();
    push_server(&mut buf, report, url);
    push_stored(&mut buf, &report.counts);
    push_derived(&mut buf, &report.derived);
    push_spool(&mut buf, spool);
    push_providers(&mut buf, &report.providers);
    buf
}

// ---------------------------------------------------------------------------
// JSON
// ---------------------------------------------------------------------------

/// The local queue as JSON.
pub open spec fn spool_tree(spool: SpoolHealth) -> JsonTree {
    JsonTree::Object(
        seq![
            ("pending"@, JsonTree::Number(spool.pending as int)),
            (
                "oldest_age_ms"@,
                match spool.oldest_age_ms {
                    Some(ms) => JsonTree::Number(ms as int),
                    None => JsonTree::Null,
                },
            ),
            ("retries_total"@, JsonTree::Number(spool.retries_total as int)),
        ],
    )
}

/// The lifetime counts as JSON.
pub open spec fn counts_tree(counts: Counts) -> JsonTree {
    JsonTree::Object(
        seq![
            ("pages_latest"@, JsonTree::Number(counts.pages_latest as int)),
            ("pages_all"@, JsonTree::Number(counts.pages_all as int)),
            ("sessions"@, JsonTree::Number(counts.sessions as int)),
            ("observations"@, JsonTree::Number(counts.observations as int)),
        ],
    )
}

/// One model's embeddings as JSON.
pub open spec fn triple_tree(triple: EmbeddingTriple) -> JsonTree {
    JsonTree::Object(
        seq![
            ("provider"@, JsonTree::Text(triple.provider@)),
            ("model"@, JsonTree::Text(triple.model@)),
            ("dim"@, JsonTree::Number(triple.dim as int)),
            ("count"@, JsonTree::Number(triple.count as int)),
        ],
    )
}

/// The derived-index diagnostics as JSON.
pub open spec fn derived_tree(derived: Derived) -> JsonTree {
    JsonTree::Object(
        seq![
            ("pages_rows"@, JsonTree::Number(derived.pages_rows as int)),
            ("pages_fts_rows"@, JsonTree::Number(derived.pages_fts_rows as int)),
            ("observations_rows"@, JsonTree::Number(derived.observations_rows as int)),
            ("observations_fts_rows"@, JsonTree::Number(derived.observations_fts_rows as int)),
            (
                "latest_pages_missing_embeddings"@,
                JsonTree::Number(derived.latest_pages_missing_embeddings as int),
            ),
            ("embedding_rows"@, JsonTree::Number(derived.embedding_rows as int)),
            (
                "embedding_triples"@,
                JsonTree::List(
                    derived.embedding_triples@.map_values(|t: EmbeddingTriple| triple_tree(t)),
                ),
            ),
            ("links_from_latest_pages"@, JsonTree::Number(derived.links_from_latest_pages as int)),
            (
                "unresolved_links_from_latest_pages"@,
                JsonTree::Number(derived.unresolved_links_from_latest_pages as int),
            ),
            (
                "stale_links_from_latest_pages"@,
                JsonTree::Number(derived.stale_links_from_latest_pages as int),
            ),
        ],
    )
}

/// The client's side of the exchange as JSON. Credentials are not shown, only
/// whether there are any.
pub open spec fn client_tree(endpoint: ServerEndpoint) -> JsonTree {
    JsonTree::Object(
        seq![
            ("server_url"@, JsonTree::Text(endpoint.url@)),
            ("auth"@, JsonTree::Bool(endpoint.auth)),
        ],
    )
}

/// The report as JSON, with `providers` as the server sent them.
pub open spec fn status_tree(
    report: Report,
    providers: JsonTree,
    endpoint: ServerEndpoint,
    spool: SpoolHealth,
) -> JsonTree {
    JsonTree::Object(
        seq![
            ("version"@, JsonTree::Text(report.version@)),
            ("data_dir"@, JsonTree::Text(report.data_dir@)),
            ("bind"@, JsonTree::Text(report.bind@)),
            ("db_path"@, JsonTree::Text(report.db_path@)),
            ("counts"@, counts_tree(report.counts)),
            ("derived"@, derived_tree(report.derived)),
            ("providers"@, providers),
            ("spool"@, spool_tree(spool)),
            ("client"@, client_tree(endpoint)),
        ],
    )
}

/// The local queue as JSON.
pub fn spool_json(spool: &SpoolHealth) -> (value: serde_json::Value)
    ensures
        json_tree(value) == spool_tree(*spool),
{
    proof {
        reveal_strlit("pending");
        reveal_strlit("oldest_age_ms");
        reveal_strlit("retries_total");
        assert("pending"@.len() == 7 && "oldest_age_ms"@.len() == 13 && "retries_total"@.len()
            == 13 && "oldest_age_ms"@[0] == 'o' && "retries_total"@[0] == 'r');
    }
    let oldest = match spool.oldest_age_ms {
        Some(ms) => json_number(ms),
        None => json_null(),
    };
    let mut value = json_object();
    json_insert(&mut value, "pending", json_number(spool.pending));
    json_insert(&mut value, "oldest_age_ms", oldest);
    json_insert(&mut value, "retries_total", json_number(spool.retries_total));
    assert(json_tree(value)->Object_0 == spool_tree(*spool)->Object_0);
    value
}

/// The lifetime counts as JSON.
fn counts_json(counts: &Counts) -> (value: serde_json::Value)
    ensures
        json_tree(value) == counts_tree(*counts),
{
    proof {
        reveal_strlit("pages_latest");
        reveal_strlit("pages_all");
        reveal_strlit("sessions");
        reveal_strlit("observations");
        assert("pages_latest"@.len() == 12 && "pages_all"@.len() == 9 && "sessions"@.len() == 8
            && "observations"@.len() == 12 && "pages_latest"@[0] == 'p' && "observations"@[0]
            == 'o');
    }
    let mut value = json_object();
    json_insert(&mut value, "pages_latest", json_number(counts.pages_latest));
    json_insert(&mut value, "pages_all", json_number(counts.pages_all));
    json_insert(&mut value, "sessions", json_number(counts.sessions));
    json_insert(&mut value, "observations", json_number(counts.observations));
    assert(json_tree(value)->Object_0 == counts_tree(*counts)->Object_0);
    value
}

/// One model's embeddings as JSON.
fn triple_json(triple: &EmbeddingTriple) -> (value: serde_json::Value)
    ensures
        json_tree(value) == triple_tree(*triple),
{
    proof {
        reveal_strlit("provider");
        reveal_strlit("model");
        reveal_strlit("dim");
        reveal_strlit("count");
        assert("provider"@.len() == 8 && "model"@.len() == 5 && "dim"@.len() == 3 && "count"@.len()
            == 5 && "model"@[0] == 'm' && "count"@[0] == 'c');
    }
    let mut value = json_object();
    json_insert(&mut value, "provider", json_text(triple.provider.as_str()));
    json_insert(&mut value, "model", json_text(triple.model.as_str()));
    json_insert(&mut value, "dim", json_number(triple.dim as u64));
    json_insert(&mut value, "count", json_number(triple.count));
    assert(json_tree(value)->Object_0 == triple_tree(*triple)->Object_0);
    value
}

/// The embeddings of all models as JSON.
fn triples_json(triples: &Vec<EmbeddingTriple>) -> (value: serde_json::Value)
    ensures
        json_tree(value) == JsonTree::List(
            triples@.map_values(|t: EmbeddingTriple| triple_tree(t)),
        ),
{
    let ghost trees = triples@.map_values(|t: EmbeddingTriple| triple_tree(t));
    let mut items: Vec<serde_json::Value> = Vec::new();
    let mut i: usize = 0;
    while i < triples.len()
        invariant
            i <= triples@.len(),
            items@.len() == i,
            trees == triples@.map_values(|t: EmbeddingTriple| triple_tree(t)),
            forall|k: int| 0 <= k < i ==> json_tree(#[trigger] items@[k]) == trees[k],
        decreases triples@.len() - i,
    {
        items.push(triple_json(&triples[i]));
        i = i + 1;
    }
    assert(items@.map_values(|item: serde_json::Value| json_tree(item)) == trees);
    json_list(items)
}

/// The derived-index diagnostics as JSON.
fn derived_json(derived: &Derived) -> (value: serde_json::Value)
    ensures
        json_tree(value) == derived_tree(*derived),
{
    proof {
        reveal_strlit("pages_rows");
        reveal_strlit("pages_fts_rows");
        reveal_strlit("observations_rows");
        reveal_strlit("observations_fts_rows");
        reveal_strlit("latest_pages_missing_embeddings");
        reveal_strlit("embedding_rows");
        reveal_strlit("embedding_triples");
        reveal_strlit("links_from_latest_pages");
        reveal_strlit("unresolved_links_from_latest_pages");
        reveal_strlit("stale_links_from_latest_pages");
        assert("pages_rows"@.len() == 10 && "pages_fts_rows"@.len() == 14
            && "observations_rows"@.len() == 17 && "observations_fts_rows"@.len() == 21
            && "latest_pages_missing_embeddings"@.len() == 31 && "embedding_rows"@.len() == 14
            && "embedding_triples"@.len() == 17 && "links_from_latest_pages"@.len() == 23
            && "unresolved_links_from_latest_pages"@.len() == 34
            && "stale_links_from_latest_pages"@.len() == 29);
        assert("pages_fts_rows"@[0] == 'p' && "embedding_rows"@[0] == 'e'
            && "observations_rows"@[0] == 'o' && "embedding_triples"@[0] == 'e');
    }
    let missing = json_number(derived.latest_pages_missing_embeddings);
    let unresolved = json_number(derived.unresolved_links_from_latest_pages);
    let stale = json_number(derived.stale_links_from_latest_pages);
    let mut value = json_object();
    json_insert(&mut value, "pages_rows", json_number(derived.pages_rows));
    json_insert(&mut value, "pages_fts_rows", json_number(derived.pages_fts_rows));
    json_insert(&mut value, "observations_rows", json_number(derived.observations_rows));
    json_insert(&mut value, "observations_fts_rows", json_number(derived.observations_fts_rows));
    json_insert(&mut value, "latest_pages_missing_embeddings", missing);
    json_insert(&mut value, "embedding_rows", json_number(derived.embedding_rows));
    json_insert(&mut value, "embedding_triples", triples_json(&derived.embedding_triples));
    json_insert(&mut value, "links_from_latest_pages", json_number(derived.links_from_latest_pages));
    json_insert(&mut value, "unresolved_links_from_latest_pages", unresolved);
    json_insert(&mut value, "stale_links_from_latest_pages", stale);
    assert(json_tree(value)->Object_0 == derived_tree(*derived)->Object_0);
    value
}

/// The client's side of the exchange as JSON.
fn client_json(endpoint: &ServerEndpoint) -> (value: serde_json::Value)
    ensures
        json_tree(value) == client_tree(*endpoint),
{
    proof {
        reveal_strlit("server_url");
        reveal_strlit("auth");
        assert("server_url"@.len() == 10 && "auth"@.len() == 4);
    }
    let mut value = json_object();
    json_insert(&mut value, "server_url", json_text(endpoint.url.as_str()));
    json_insert(&mut value, "auth", json_bool(endpoint.auth));
    assert(json_tree(value)->Object_0 == client_tree(*endpoint)->Object_0);
    value
}

/// The report as JSON, with `providers` as the server sent them.
pub fn status_json(
    report: &Report,
    providers: serde_json::Value,
    endpoint: &ServerEndpoint,
    spool: &SpoolHealth,
) -> (value: serde_json::Value)
    ensures
        json_tree(value) == status_tree(*report, json_tree(providers), *endpoint, *spool),
{
    proof {
        reveal_strlit("version");
        reveal_strlit("data_dir");
        reveal_strlit("bind");
        reveal_strlit("db_path");
        reveal_strlit("counts");
        reveal_strlit("derived");
        reveal_strlit("providers");
        reveal_strlit("spool");
        reveal_strlit("client");
        assert("version"@.len() == 7 && "data_dir"@.len() == 8 && "bind"@.len() == 4
            && "db_path"@.len() == 7 && "counts"@.len() == 6 && "derived"@.len() == 7
            && "providers"@.len() == 9 && "spool"@.len() == 5 && "client"@.len() == 6);
        assert("version"@[1] == 'e' && "db_path"@[1] == 'b' && "derived"@[1] == 'e'
            && "version"@[0] == 'v' && "derived"@[0] == 'd' && "counts"@[1] == 'o' && "client"@[1]
            == 'l');
    }
    let ghost providers_tree = json_tree(providers);
    let mut value = json_object();
    json_insert(&mut value, "version", json_text(report.version.as_str()));
    json_insert(&mut value, "data_dir", json_text(report.data_dir.as_str()));
    json_insert(&mut value, "bind", json_text(report.bind.as_str()));
    json_insert(&mut value, "db_path", json_text(report.db_path.as_str()));
    json_insert(&mut value, "counts", counts_json(&report.counts));
    json_insert(&mut value, "derived", derived_json(&report.derived));
    json_insert(&mut value, "providers", providers);
    json_insert(&mut value, "spool", spool_json(spool));
    json_insert(&mut value, "client", client_json(endpoint));
    assert(json_tree(value)->Object_0 == status_tree(
        *report,
        providers_tree,
        *endpoint,
        *spool,
    )->Object_0);
    value
}

// ---------------------------------------------------------------------------
// The command
// ---------------------------------------------------------------------------

/// What is said of the local queue when the server could not be reached.
pub open spec fn offline_text(spool: SpoolHealth, json: bool) -> Seq<char> {
    if json {
        "local spool (server unreachable): "@ + compact_text(spool_tree(spool)) + "\n"@
    } else {
        "local spool (server unreachable):\n"@ + field(
            "  pending:    "@,
            decimal(spool.pending as nat),
        ) + field("  oldest:     "@, age_text(spool.oldest_age_ms)) + field(
            "  retries:    "@,
            decimal(spool.retries_total as nat),
        ) + if spool.pending > 0 {
            field(
                "  "@,
                decimal(spool.pending as nat)
                    + " event(s) are queued locally and will be delivered once the server is reachable again."@,
            )
        } else {
            Seq::empty()
        }
    }
}

/// What is said of the local queue, given as JSON, when the server could not be
/// reached.
pub fn offline_json_line(rendered: &str) -> (text: String)
    ensures
        text@ == "local spool (server unreachable): "@ + rendered@ + "\n"@,
{
    let mut text = "local spool (server unreachable): ".to_string();
    text.append(rendered);
    text.append("\n");
    text
}

/// What is said of the local queue when the server could not be reached.
pub fn report_offline_spool(spool: &SpoolHealth, json: bool) -> (text: String)
    ensures
        text@ == offline_text(*spool, json),
{
    if json {
        offline_json_line(json_compact(&spool_json(spool)).unwrap().as_str())
    } else {
        let mut text = "local spool (server unreachable):\n".to_string();
        push_number(&mut text, "  pending:    ", spool.pending);
        push_field(&mut text, "  oldest:     ", spool_age_line(spool.oldest_age_ms).as_str());
        push_number(&mut text, "  retries:    ", spool.retries_total);
        if spool.pending > 0 {
            let mut note = decimal_text(spool.pending);
            note.append(
                " event(s) are queued locally and will be delivered once the server is reachable again.",
            );
            push_field(&mut text, "  ", note.as_str());
        }
        text
    }
}

/// What a server answered: its report, and the part on its providers as it was
/// sent.
#[derive(Debug)]
pub struct StatusReply {
    pub report: Report,
    pub providers_json: serde_json::Value,
}

/// What the command prints, and whether it succeeds.
#[derive(Debug)]
pub struct StatusOutput {
    pub stdout: String,
    pub stderr: String,
    pub success: bool,
}

/// Decide what the command prints once the server has answered, or has failed
/// to.
///
/// The queue is read before the server is contacted, and is shown even when
/// that fails: "how much is queued locally?" is most worth answering when the
/// server is down. It then goes to stderr, so that whoever reads JSON from
/// stdout gets one object or none.
pub fn run(
    reply: Option<StatusReply>,
    endpoint: &ServerEndpoint,
    spool: &SpoolHealth,
    json: bool,
) -> (output: StatusOutput)
    ensures
        output.success == (reply is Some),
        reply is None ==> output.stdout@.len() == 0 && output.stderr@ == offline_text(*spool, json),
        reply is Some ==> output.stderr@.len() == 0,
        reply is Some && json ==> output.stdout@ == pretty_text(
            status_tree(
                reply->0.report,
                json_tree(reply->0.providers_json),
                *endpoint,
                *spool,
            ),
        ) + "\n"@,
        reply is Some && !json ==> output.stdout@ == status_text(
            reply->0.report,
            endpoint.url@,
            *spool,
        ),
{
    match reply {
        None => StatusOutput {
            stdout: String::new(),
            stderr: report_offline_spool(spool, json),
            success: false,
        },
        Some(reply) => {
            let stdout = if json {
                let value = status_json(&reply.report, reply.providers_json, endpoint, spool);
                let mut text = json_pretty(&value).unwrap();
                text.append("\n");
                text
            } else {
                render_status(&reply.report, endpoint.url.as_str(), spool)
            };
            StatusOutput { stdout, stderr: String::new(), success: true }
        },
    }
}

} // verus!
