//! What holds of every report on a server.

use crate::clock::{instant_display, Timestamp};
use crate::json::{compact_text, JsonTree};
use crate::provider::{ProviderHealthSnapshot, ProviderHealthStatus, ProviderRoleHealthSnapshot};
use crate::status::{
    age_text, client_tree, counts_tree, derived_text, derived_tree, detail_at, detail_text,
    error_time_part, health_at, health_text, label_text, message_part, offline_text, option_view,
    providers_text, retry_text, server_text, spool_text, spool_tree, status_part, status_text,
    status_tree, stored_text, triple_tree, Counts, Derived, EmbeddingTriple, Report,
    ServerEndpoint, SpoolHealth,
};
use crate::text::{decimal, joined};
use vstd::prelude::*;

verus! {

// ---------------------------------------------------------------------------
// The age of the queue
// ---------------------------------------------------------------------------

/// An age is told in its two highest units: what is `d` days, `h` hours, `m`
/// minutes and `s` seconds old is said to be, but for the lower ones.
pub proof fn an_age_tells_its_two_highest_units(d: nat, h: nat, m: nat, s: nat, ms: nat)
    requires
        h < 24,
        m < 60,
        s < 60,
        ms < 1000,
        (d * 86_400 + h * 3600 + m * 60 + s) * 1000 + ms <= u64::MAX,
    ensures
        ({
            let age = age_text(Some(((d * 86_400 + h * 3600 + m * 60 + s) * 1000 + ms) as u64));
            &&& d == 0 && h == 0 && m == 0 ==> age == decimal(s) + "s"@
            &&& d == 0 && h == 0 && m > 0 ==> age == decimal(m) + "m "@ + decimal(s) + "s"@
            &&& d == 0 && h > 0 ==> age == decimal(h) + "h "@ + decimal(m) + "m"@
            &&& d > 0 ==> age == decimal(d) + "d "@ + decimal(h) + "h"@
        }),
{
    let secs = d * 86_400 + h * 3600 + m * 60 + s;
    let all = (secs * 1000 + ms) as u64;
    assert(all as nat / 1000 == secs);
    assert(secs / 86_400 == d);
    assert(secs % 86_400 == h * 3600 + m * 60 + s);
    assert((h * 3600 + m * 60 + s) / 3600 == h);
    assert((h * 3600 + m * 60 + s) % 3600 == m * 60 + s);
    assert((m * 60 + s) / 60 == m);
    assert((m * 60 + s) % 60 == s);
}

/// An age reads back: it names units that say no more than it is, and less than
/// one of the lower unit is lost. So a greater age never shows a smaller one.
pub proof fn an_age_reads_back(ms: u64)
    ensures
        ({
            let secs = ms as nat / 1000;
            let age = age_text(Some(ms));
            &&& secs < 60 ==> age == decimal(secs) + "s"@
            &&& 60 <= secs < 3600 ==> exists|m: nat, s: nat|
                m < 60 && s < 60 && m * 60 + s == secs && age == #[trigger] decimal(m) + "m "@
                    + #[trigger] decimal(s) + "s"@
            &&& 3600 <= secs < 86_400 ==> exists|h: nat, m: nat|
                h < 24 && m < 60 && h * 3600 + m * 60 <= secs < h * 3600 + m * 60 + 60 && age
                    == #[trigger] decimal(h) + "h "@ + #[trigger] decimal(m) + "m"@
            &&& 86_400 <= secs ==> exists|d: nat, h: nat|
                h < 24 && d * 86_400 + h * 3600 <= secs < d * 86_400 + h * 3600 + 3600 && age
                    == #[trigger] decimal(d) + "d "@ + #[trigger] decimal(h) + "h"@
        }),
{
    let secs = ms as nat / 1000;
    let d = secs / 86_400;
    let h = secs % 86_400 / 3600;
    let m = secs % 3600 / 60;
    let s = secs % 60;
    assert(secs == d * 86_400 + h * 3600 + m * 60 + s);
    an_age_tells_its_two_highest_units(d, h, m, s, (ms % 1000) as nat);
    assert(secs * 1000 + (ms % 1000) as nat == ms);
    let age = age_text(Some(ms));
    if 60 <= secs < 3600 {
        assert(age == decimal(m) + "m "@ + decimal(s) + "s"@);
    }
    if 3600 <= secs < 86_400 {
        assert(age == decimal(h) + "h "@ + decimal(m) + "m"@);
    }
    if 86_400 <= secs {
        assert(age == decimal(d) + "d "@ + decimal(h) + "h"@);
    }
}

/// An empty queue has no age.
pub proof fn an_empty_queue_has_no_age()
    ensures
        age_text(None) == "-"@,
{
}

// ---------------------------------------------------------------------------
// Providers
// ---------------------------------------------------------------------------

/// A provider is called by its name, with its model behind it where that is
/// known, and the width of its vectors behind that.
pub proof fn a_label_names_what_is_known(role: ProviderRoleHealthSnapshot)
    ensures
        role.provider is None ==> label_text(role) == "provider"@,
        role.provider is Some && role.model is None ==> label_text(role) == role.provider->0@,
        role.provider is Some && role.model is Some && role.dim is None ==> label_text(role)
            == role.provider->0@ + "/"@ + role.model->0@,
        role.provider is Some && role.model is Some && role.dim is Some ==> label_text(role)
            == role.provider->0@ + "/"@ + role.model->0@ + " ("@ + decimal(role.dim->0 as nat)
            + "d)"@,
{
}

/// Of the last error of a provider the status, the message and the time are told,
/// as far as they are known and in this order, whole.
pub proof fn an_error_is_told_as_far_as_it_is_known(
    role: ProviderRoleHealthSnapshot,
    when: Option<Seq<char>>,
)
    ensures
        ({
            let detail = detail_at(role, when);
            let said = role.last_error_message is Some && role.last_error_message->0@.len() > 0;
            let coded = role.last_error_status is Some;
            let timed = when is Some;
            let status = "status "@ + decimal(role.last_error_status->0 as nat);
            let message = role.last_error_message->0@;
            let time = "last error: "@ + when->0;
            &&& !coded && !said && !timed ==> detail == "last call failed"@
            &&& coded && !said && !timed ==> detail == status
            &&& !coded && said && !timed ==> detail == message
            &&& !coded && !said && timed ==> detail == time
            &&& coded && said && !timed ==> detail == status + "; "@ + message
            &&& coded && !said && timed ==> detail == status + "; "@ + time
            &&& !coded && said && timed ==> detail == message + "; "@ + time
            &&& coded && said && timed ==> detail == status + "; "@ + message + "; "@ + time
        }),
{
    let parts = status_part(role) + message_part(role) + error_time_part(when);
    if parts.len() == 1 {
        assert(joined(parts, "; "@) == parts[0]);
    } else if parts.len() == 2 {
        assert(parts.drop_last() == seq![parts[0]]);
        assert(joined(parts.drop_last(), "; "@) == parts[0]);
        assert(joined(parts, "; "@) == parts[0] + "; "@ + parts[1]);
    } else if parts.len() == 3 {
        assert(parts.drop_last() == seq![parts[0], parts[1]]);
        assert(parts.drop_last().drop_last() == seq![parts[0]]);
        assert(joined(parts.drop_last().drop_last(), "; "@) == parts[0]);
        assert(joined(parts.drop_last(), "; "@) == parts[0] + "; "@ + parts[1]);
        assert(joined(parts, "; "@) == parts[0] + "; "@ + parts[1] + "; "@ + parts[2]);
    }
}

/// How a provider fares is said by its status alone: what is known of its calls
/// goes with that, and nothing else.
pub proof fn a_line_tells_how_a_provider_fares(
    role: ProviderRoleHealthSnapshot,
    last_call: Option<Seq<char>>,
    last_error: Option<Seq<char>>,
)
    ensures
        ({
            let line = health_at(role, last_call, last_error);
            &&& role.status == ProviderHealthStatus::Disabled ==> line == "disabled"@
            &&& role.status == ProviderHealthStatus::Unknown ==> line == label_text(role)
                + " unknown (no calls yet)"@
            &&& role.status == ProviderHealthStatus::Healthy && last_call is Some ==> line
                == label_text(role) + " ok (last call: "@ + last_call->0 + ")"@
            &&& role.status == ProviderHealthStatus::Healthy && last_call is None ==> line
                == label_text(role) + " ok (last call: "@ + "unknown time"@ + ")"@
            &&& role.status == ProviderHealthStatus::Error ==> line == label_text(role)
                + " error ("@ + detail_at(role, last_error) + ")"@
        }),
{
}

/// The times in a line are those of the provider's own last call and last error.
pub proof fn a_line_tells_the_times_of_its_provider(role: ProviderRoleHealthSnapshot)
    ensures
        ({
            let shown = |at: Timestamp| instant_display(at.spec_second(), at.spec_nanosecond());
            let last_call = match role.last_call_at {
                Some(at) => Some(shown(at)),
                None => None,
            };
            let last_error = match role.last_error_at {
                Some(at) => Some(shown(at)),
                None => None,
            };
            &&& health_text(role) == health_at(role, last_call, last_error)
            &&& detail_text(role) == detail_at(role, last_error)
        }),
{
}

/// An optional text says what it holds.
pub proof fn an_optional_text_is_itself(text: Option<String>)
    ensures
        text is None <==> option_view(text) is None,
        text is Some ==> option_view(text) == Some(text->0@),
{
}

// ---------------------------------------------------------------------------
// The report as text
// ---------------------------------------------------------------------------

/// Every figure of a report stands on a line of its own, or beside the one it
/// goes with, under its own label.
pub proof fn a_report_gives_every_figure(report: Report, url: Seq<char>, spool: SpoolHealth)
    ensures
        server_text(report, url) == "ai-memory "@ + report.version@ + " (server)\n"@ + (
        "  server:       "@ + url + "\n"@) + ("  data-dir:     "@ + report.data_dir@ + "\n"@) + (
        "  db:           "@ + report.db_path@ + "\n"@) + ("  bind:         "@ + report.bind@
            + "\n"@),
        stored_text(report.counts) == ("  pages:        "@ + (decimal(
            report.counts.pages_latest as nat,
        ) + " (all versions: "@ + decimal(report.counts.pages_all as nat) + ")"@) + "\n"@) + (
        "  sessions:     "@ + decimal(report.counts.sessions as nat) + "\n"@) + (
        "  observations: "@ + decimal(report.counts.observations as nat) + "\n"@),
        derived_text(report.derived) == ("  fts:          "@ + ("pages "@ + decimal(
            report.derived.pages_fts_rows as nat,
        ) + "/"@ + decimal(report.derived.pages_rows as nat) + "; observations "@ + decimal(
            report.derived.observations_fts_rows as nat,
        ) + "/"@ + decimal(report.derived.observations_rows as nat)) + "\n"@) + (
        "  embeddings:   "@ + (decimal(report.derived.embedding_rows as nat) + " rows; "@ + decimal(
            report.derived.latest_pages_missing_embeddings as nat,
        ) + " latest pages missing"@) + "\n"@) + ("  links:        "@ + (decimal(
            report.derived.links_from_latest_pages as nat,
        ) + " latest-page links (unresolved: "@ + decimal(
            report.derived.unresolved_links_from_latest_pages as nat,
        ) + ", stale: "@ + decimal(report.derived.stale_links_from_latest_pages as nat) + ")"@)
            + "\n"@),
        spool_text(spool) == "  spool:\n"@ + ("    pending:    "@ + decimal(spool.pending as nat)
            + "\n"@) + ("    oldest:     "@ + age_text(spool.oldest_age_ms) + "\n"@) + (
        "    retries:    "@ + decimal(spool.retries_total as nat) + "\n"@),
{
}

/// The providers of a report each have a line; a hint when to try again is shown
/// exactly where the language model failed and left one.
pub proof fn a_report_tells_how_the_providers_fare(providers: ProviderHealthSnapshot)
    ensures
        ({
            let lines = "  providers:\n"@ + ("    llm:       "@ + health_text(providers.llm)
                + "\n"@) + ("    embedding: "@ + health_text(providers.embedding) + "\n"@);
            let hinted = providers.llm.status == ProviderHealthStatus::Error
                && providers.llm.retry_hint is Some;
            &&& hinted ==> providers_text(providers) == lines + ("    retry:     "@
                + providers.llm.retry_hint->0@ + "\n"@)
            &&& !hinted ==> providers_text(providers) == lines
        }),
{
    assert(retry_text(providers.llm).len() == 0 ==> providers_text(providers)
        =~= "  providers:\n"@ + ("    llm:       "@ + health_text(providers.llm) + "\n"@) + (
    "    embedding: "@ + health_text(providers.embedding) + "\n"@));
}

/// A report is about the server, what it has stored, what it derives from that,
/// the local queue and the providers, in this order.
pub proof fn a_report_has_its_parts_in_order(report: Report, url: Seq<char>, spool: SpoolHealth)
    ensures
        status_text(report, url, spool) == server_text(report, url) + stored_text(report.counts)
            + derived_text(report.derived) + spool_text(spool) + providers_text(report.providers),
{
}

/// When the server cannot be reached, the queue is told in full all the same, and
/// what is waiting is promised exactly where something is.
pub proof fn an_unreachable_server_leaves_the_queue(spool: SpoolHealth)
    ensures
        offline_text(spool, true) == "local spool (server unreachable): "@ + compact_text(
            spool_tree(spool),
        ) + "\n"@,
        ({
            let lines = "local spool (server unreachable):\n"@ + ("  pending:    "@ + decimal(
                spool.pending as nat,
            ) + "\n"@) + ("  oldest:     "@ + age_text(spool.oldest_age_ms) + "\n"@) + (
            "  retries:    "@ + decimal(spool.retries_total as nat) + "\n"@);
            &&& spool.pending == 0 ==> offline_text(spool, false) == lines
            &&& spool.pending > 0 ==> offline_text(spool, false) == lines + ("  "@ + (decimal(
                spool.pending as nat,
            )
                + " event(s) are queued locally and will be delivered once the server is reachable again."@)
                + "\n"@)
        }),
{
    let lines = "local spool (server unreachable):\n"@ + ("  pending:    "@ + decimal(
        spool.pending as nat,
    ) + "\n"@) + ("  oldest:     "@ + age_text(spool.oldest_age_ms) + "\n"@) + ("  retries:    "@
        + decimal(spool.retries_total as nat) + "\n"@);
    assert(spool.pending == 0 ==> offline_text(spool, false) =~= lines);
}

// ---------------------------------------------------------------------------
// The report as JSON
// ---------------------------------------------------------------------------

/// The queue as JSON has its three figures and nothing else, whatever they are.
pub proof fn the_queue_as_json_is_three_figures(spool: SpoolHealth)
    ensures
        spool_tree(spool) is Object,
        spool_tree(spool)->Object_0.len() == 3,
        spool_tree(spool)->Object_0[0] == ("pending"@, JsonTree::Number(spool.pending as int)),
        spool.oldest_age_ms is Some ==> spool_tree(spool)->Object_0[1] == (
            "oldest_age_ms"@,
            JsonTree::Number(spool.oldest_age_ms->0 as int),
        ),
        spool.oldest_age_ms is None ==> spool_tree(spool)->Object_0[1] == (
            "oldest_age_ms"@,
            JsonTree::Null,
        ),
        spool_tree(spool)->Object_0[2] == (
            "retries_total"@,
            JsonTree::Number(spool.retries_total as int),
        ),
{
}

/// The counts as JSON are the counts, each under its own name.
pub proof fn the_counts_as_json_are_the_counts(counts: Counts)
    ensures
        counts_tree(counts) is Object,
        counts_tree(counts)->Object_0.len() == 4,
        counts_tree(counts)->Object_0[0] == (
            "pages_latest"@,
            JsonTree::Number(counts.pages_latest as int),
        ),
        counts_tree(counts)->Object_0[1] == (
            "pages_all"@,
            JsonTree::Number(counts.pages_all as int),
        ),
        counts_tree(counts)->Object_0[2] == (
            "sessions"@,
            JsonTree::Number(counts.sessions as int),
        ),
        counts_tree(counts)->Object_0[3] == (
            "observations"@,
            JsonTree::Number(counts.observations as int),
        ),
{
}

/// The diagnostics as JSON are the diagnostics, each under its own name, with one
/// entry for each model that made embeddings.
pub proof fn the_diagnostics_as_json_are_the_diagnostics(derived: Derived)
    ensures
        derived_tree(derived) is Object,
        ({
            let members = derived_tree(derived)->Object_0;
            let models = members[6].1->List_0;
            &&& members.len() == 10
            &&& members[0] == ("pages_rows"@, JsonTree::Number(derived.pages_rows as int))
            &&& members[1] == ("pages_fts_rows"@, JsonTree::Number(derived.pages_fts_rows as int))
            &&& members[2] == (
                "observations_rows"@,
                JsonTree::Number(derived.observations_rows as int),
            )
            &&& members[3] == (
                "observations_fts_rows"@,
                JsonTree::Number(derived.observations_fts_rows as int),
            )
            &&& members[4] == (
                "latest_pages_missing_embeddings"@,
                JsonTree::Number(derived.latest_pages_missing_embeddings as int),
            )
            &&& members[5] == ("embedding_rows"@, JsonTree::Number(derived.embedding_rows as int))
            &&& members[6].0 == "embedding_triples"@
            &&& members[6].1 is List
            &&& models.len() == derived.embedding_triples@.len()
            &&& forall|i: int|
                0 <= i < models.len() ==> (#[trigger] models[i]) == triple_tree(
                    derived.embedding_triples@[i],
                )
            &&& members[7] == (
                "links_from_latest_pages"@,
                JsonTree::Number(derived.links_from_latest_pages as int),
            )
            &&& members[8] == (
                "unresolved_links_from_latest_pages"@,
                JsonTree::Number(derived.unresolved_links_from_latest_pages as int),
            )
            &&& members[9] == (
                "stale_links_from_latest_pages"@,
                JsonTree::Number(derived.stale_links_from_latest_pages as int),
            )
        }),
{
}

/// What one model made, as JSON: the provider, the model, the width and how many.
pub proof fn a_model_as_json_is_the_model(triple: EmbeddingTriple)
    ensures
        triple_tree(triple) is Object,
        triple_tree(triple)->Object_0.len() == 4,
        triple_tree(triple)->Object_0[0] == ("provider"@, JsonTree::Text(triple.provider@)),
        triple_tree(triple)->Object_0[1] == ("model"@, JsonTree::Text(triple.model@)),
        triple_tree(triple)->Object_0[2] == ("dim"@, JsonTree::Number(triple.dim as int)),
        triple_tree(triple)->Object_0[3] == ("count"@, JsonTree::Number(triple.count as int)),
{
}

/// The report as JSON holds what the server sent, the queue, and where the client
/// asked; of the client's credentials only whether there are any.
pub proof fn the_report_as_json_is_the_report(
    report: Report,
    providers: JsonTree,
    endpoint: ServerEndpoint,
    spool: SpoolHealth,
)
    ensures
        status_tree(report, providers, endpoint, spool) is Object,
        ({
            let members = status_tree(report, providers, endpoint, spool)->Object_0;
            let client = members[8].1->Object_0;
            &&& members.len() == 9
            &&& members[0] == ("version"@, JsonTree::Text(report.version@))
            &&& members[1] == ("data_dir"@, JsonTree::Text(report.data_dir@))
            &&& members[2] == ("bind"@, JsonTree::Text(report.bind@))
            &&& members[3] == ("db_path"@, JsonTree::Text(report.db_path@))
            &&& members[4] == ("counts"@, counts_tree(report.counts))
            &&& members[5] == ("derived"@, derived_tree(report.derived))
            &&& members[6] == ("providers"@, providers)
            &&& members[7] == ("spool"@, spool_tree(spool))
            &&& members[8].0 == "client"@
            &&& members[8].1 is Object
            &&& client.len() == 2
            &&& client[0] == ("server_url"@, JsonTree::Text(endpoint.url@))
            &&& client[1] == ("auth"@, JsonTree::Bool(endpoint.auth))
        }),
{
    assert(client_tree(endpoint) is Object);
}

} // verus!
