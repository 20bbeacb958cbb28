//! Rule-based session pages.
//!
//! When a session ends, its observations are turned into a single markdown
//! page by fixed rules: the first prompt is the title, and the body lists the
//! prompts, the tool calls and the raw observations.

use crate::body::{body_text, render_body};
use crate::ids::{hyphenated, ProjectId, SessionId, WorkspaceId};
use crate::json::{has_member, json_insert, json_object, json_text, json_tree, JsonTree};
use crate::observation::{Observation, ObservationKind};
use crate::order::lemma_sorted_rearrangement;
use crate::page::{NewPage, PagePath, Tier};
use crate::page_properties::a_summary_is_one_line;
use crate::tally::{
    counts_view, session_shape, tally_session, total_calls, SessionShape, SessionTally,
};
use crate::text::{
    alphabetical, alphabetical_is_a_total_order, decimal, decimal_text, fold_lines, is_one_line,
    join_texts, joined, on_one_line, text_at_most, text_le, views,
};
use vstd::multiset::group_multiset_axioms;
use vstd::prelude::*;
use vstd::relations::{sorted_by, total_ordering};
use vstd::seq_lib::group_to_multiset_ensures;

verus! {

// ---------------------------------------------------------------------------
// Title
// ---------------------------------------------------------------------------

/// Whether an observation has a title.
pub open spec fn has_title() -> spec_fn(Observation) -> bool {
    |o: Observation| o.title@.len() > 0
}

/// Whether an observation is a prompt with a title.
pub open spec fn is_titled_prompt() -> spec_fn(Observation) -> bool {
    |o: Observation| o.kind == ObservationKind::UserPrompt && o.title@.len() > 0
}

/// The title of a session: that of its first prompt that has one, else that of
/// its first observation that has one, else `session`.
pub open spec fn session_title(observations: Seq<Observation>) -> Seq<char> {
    let prompts = observations.filter(is_titled_prompt());
    let titled = observations.filter(has_title());
    if prompts.len() > 0 {
        prompts.first().title@
    } else if titled.len() > 0 {
        titled.first().title@
    } else {
        "session"@
    }
}

/// The title of the first observation that `wanted` picks.
fn first_title(observations: &[Observation], prompts_only: bool) -> (title: Option<String>)
    ensures
        ({
            let found = observations@.filter(
                if prompts_only {
                    is_titled_prompt()
                } else {
                    has_title()
                },
            );
            &&& title is Some <==> found.len() > 0
            &&& title is Some ==> title->0@ == found.first().title@
        }),
{
    let ghost wanted = if prompts_only {
        is_titled_prompt()
    } else {
        has_title()
    };
    let length = observations.len();
    let mut i: usize = 0;
    assert(observations@.take(0) == Seq::<Observation>::empty());
    assert(observations@.take(0).filter(wanted).len() == 0) by {
        reveal(Seq::filter);
    }
    while i < length
        invariant
            i <= length,
            length == observations@.len(),
            wanted == if prompts_only {
                is_titled_prompt()
            } else {
                has_title()
            },
            observations@.take(i as int).filter(wanted).len() == 0,
        decreases length - i,
    {
        let o = &observations[i];
        let ghost seen = observations@.take(i as int);
        proof {
            assert(observations@.take(i + 1) == seen.push(*o));
            seen.lemma_filter_push(*o, wanted);
        }
        if (!prompts_only || o.kind == ObservationKind::UserPrompt) && !o.title.as_str().is_empty() {
            proof {
                let rest = observations@.skip(i + 1);
                assert(observations@ == observations@.take(i + 1) + rest);
                Seq::filter_distributes_over_add(observations@.take(i + 1), rest, wanted);
                assert(observations@.take(i + 1).filter(wanted) == seen.filter(wanted).push(*o));
                assert(seen.filter(wanted) == Seq::<Observation>::empty());
                assert(observations@.filter(wanted)[0] == *o);
            }
            return Some(o.title.clone());
        }
        i = i + 1;
    }
    assert(observations@.take(length as int) == observations@);
    None
}

/// The title of a session.
pub fn derive_title(observations: &[Observation]) -> (title: String)
    ensures
        title@ == session_title(observations@),
{
    match first_title(observations, true) {
        Some(title) => title,
        None => match first_title(observations, false) {
            Some(title) => title,
            None => "session".to_string(),
        },
    }
}

// ---------------------------------------------------------------------------
// Summary
// ---------------------------------------------------------------------------

/// How many tools a summary names before it only counts the rest.
pub const SUMMARY_MAX_NAMED_TOOLS: usize = 3;

/// The plural ending that goes with a count.
pub open spec fn plural_ending(n: nat) -> Seq<char> {
    if n == 1 {
        ""@
    } else {
        "s"@
    }
}

/// `""` or `"s"` for a count.
pub fn plural(n: usize) -> (ending: &'static str)
    ensures
        ending@ == plural_ending(n as nat),
{
    if n == 1 {
        ""
    } else {
        "s"
    }
}

/// Names listed in prose: commas between them, and `and` before the last.
pub open spec fn listed(names: Seq<Seq<char>>) -> Seq<char> {
    if names.len() == 0 {
        ""@
    } else if names.len() == 1 {
        names[0]
    } else {
        joined(names.drop_last(), ", "@) + " and "@ + names.last()
    }
}

/// The texts of a list of string slices.
pub open spec fn slice_views(names: Seq<&str>) -> Seq<Seq<char>> {
    names.map_values(|s: &str| s@)
}

/// `"Bash"`, `"Bash and Edit"`, `"Bash, Edit and Read"`.
pub fn join_and(names: &[&str]) -> (text: String)
    ensures
        text@ == listed(slice_views(names@)),
{
    let length = names.len();
    if length == 0 {
        return "".to_string();
    }
    let ghost all = slice_views(names@);
    let mut text = names[0].to_string();
    let mut i: usize = 1;
    assert(all.take(1) == seq![names@[0]@]);
    while i + 1 < length
        invariant
            1 <= i <= length,
            i + 1 <= length || length == 1,
            length == names@.len(),
            all == slice_views(names@),
            text@ == joined(all.take(i as int), ", "@),
        decreases length - i,
    {
        text.append(", ");
        text.append(names[i]);
        assert(all.take(i + 1).drop_last() == all.take(i as int));
        i = i + 1;
    }
    if length > 1 {
        text.append(" and ");
        text.append(names[length - 1]);
        assert(all.take(i as int) == all.drop_last());
    }
    text
}

/// A span of seconds in words: seconds, then minutes, then hours and minutes.
/// A span that is not positive has none.
pub open spec fn span_text(seconds: int) -> Option<Seq<char>> {
    let minutes = seconds / 60;
    if seconds <= 0 {
        None
    } else if seconds < 60 {
        Some(decimal(seconds as nat) + "s"@)
    } else if minutes < 60 {
        Some(decimal(minutes as nat) + "m"@)
    } else if minutes % 60 == 0 {
        Some(decimal((minutes / 60) as nat) + "h"@)
    } else {
        Some(decimal((minutes / 60) as nat) + "h "@ + decimal((minutes % 60) as nat) + "m"@)
    }
}

/// Human-readable elapsed time, or `None` when the session was not measurably
/// long (a clock that did not advance, or ran backwards).
pub fn format_duration(seconds: i64) -> (span: Option<String>)
    ensures
        span is Some <==> span_text(seconds as int) is Some,
        span is Some ==> span->0@ == span_text(seconds as int)->0,
{
    if seconds <= 0 {
        return None;
    }
    if seconds < 60 {
        let mut text = decimal_text(seconds as u64);
        text.append("s");
        return Some(text);
    }
    let minutes: u64 = seconds as u64 / 60;
    if minutes < 60 {
        let mut text = decimal_text(minutes);
        text.append("m");
        return Some(text);
    }
    let mut text = decimal_text(minutes / 60);
    if minutes % 60 == 0 {
        text.append("h");
    } else {
        text.append("h ");
        text.append(decimal_text(minutes % 60).as_str());
        text.append("m");
    }
    Some(text)
}

/// Whether the tool `a` goes before `b` in a summary: more calls first, and
/// the alphabet among tools with as many.
pub open spec fn busier() -> spec_fn((Seq<char>, nat), (Seq<char>, nat)) -> bool {
    |a: (Seq<char>, nat), b: (Seq<char>, nat)|
        a.1 > b.1 || (a.1 == b.1 && text_le(a.0, b.0))
}

/// The tools with the busiest first.
pub open spec fn busiest_first(counts: Seq<(Seq<char>, nat)>) -> Seq<(Seq<char>, nat)> {
    counts.sort_by(busier())
}

/// The names of a list of counts, each on one line.
pub open spec fn names_of(counts: Seq<(Seq<char>, nat)>) -> Seq<Seq<char>> {
    counts.map_values(|c: (Seq<char>, nat)| on_one_line(c.0))
}

/// The tools of a session in prose: the busiest by name, and how many more. A
/// line break in a name is not part of the prose.
pub open spec fn tools_phrase(counts: Seq<(Seq<char>, nat)>) -> Seq<char> {
    let ranked = busiest_first(counts);
    if counts.len() > SUMMARY_MAX_NAMED_TOOLS {
        listed(names_of(ranked.take(SUMMARY_MAX_NAMED_TOOLS as int))) + " and "@ + decimal(
            (counts.len() - SUMMARY_MAX_NAMED_TOOLS) as nat,
        ) + " more"@
    } else {
        listed(names_of(ranked))
    }
}

/// The order of a summary's tools is a total order.
pub proof fn lemma_busier_is_a_total_order()
    ensures
        total_ordering(busier()),
{
    let le = busier();
    let abc = alphabetical();
    alphabetical_is_a_total_order();
    assert forall|a: (Seq<char>, nat)| #[trigger] le(a, a) by {
        assert(abc(a.0, a.0));
    }
    assert forall|a: (Seq<char>, nat), b: (Seq<char>, nat)| #[trigger]
        le(a, b) && #[trigger] le(b, a) implies a == b by {
        assert(abc(a.0, b.0) && abc(b.0, a.0));
    }
    assert forall|a: (Seq<char>, nat), b: (Seq<char>, nat), c: (Seq<char>, nat)| #[trigger]
        le(a, b) && #[trigger] le(b, c) implies le(a, c) by {
        if a.1 == b.1 && b.1 == c.1 {
            assert(abc(a.0, b.0) && abc(b.0, c.0));
            assert(abc(a.0, c.0));
        }
    }
    assert forall|a: (Seq<char>, nat), b: (Seq<char>, nat)| #[trigger]
        le(a, b) || #[trigger] le(b, a) by {
        assert(abc(a.0, b.0) || abc(b.0, a.0));
    }
}

/// Whether the tool of `a` goes before that of `b` in a summary.
fn goes_before(a: &(&str, usize), b: &(&str, usize)) -> (before: bool)
    ensures
        before == busier()((a.0@, a.1 as nat), (b.0@, b.1 as nat)),
{
    a.1 > b.1 || (a.1 == b.1 && text_at_most(a.0, b.0))
}

/// The tools with the busiest first.
fn rank<'a>(counts: &Vec<(&'a str, usize)>) -> (ranked: Vec<(&'a str, usize)>)
    ensures
        counts_view(ranked@) == busiest_first(counts_view(counts@)),
{
    let mut ranked: Vec<(&'a str, usize)> = Vec::new();
    let ghost all = counts_view(counts@);
    let mut i: usize = 0;
    assert(counts_view(ranked@) == all.take(0));
    while i < counts.len()
        invariant
            i <= counts@.len(),
            all == counts_view(counts@),
            ranked@.len() == i,
            sorted_by(counts_view(ranked@), busier()),
            counts_view(ranked@).to_multiset() == all.take(i as int).to_multiset(),
        decreases counts@.len() - i,
    {
        let entry = counts[i];
        let ghost item = all[i as int];
        let ghost before = counts_view(ranked@);
        let mut at: usize = 0;
        while at < ranked.len() && goes_before(&ranked[at], &entry)
            invariant
                at <= ranked@.len(),
                before == counts_view(ranked@),
                item == (entry.0@, entry.1 as nat),
                forall|k: int| 0 <= k < at ==> busier()(#[trigger] before[k], item),
            decreases ranked@.len() - at,
        {
            assert(before[at as int] == (ranked@[at as int].0@, ranked@[at as int].1 as nat));
            at = at + 1;
        }
        proof {
            broadcast use {group_to_multiset_ensures, group_multiset_axioms};

            let le = busier();
            lemma_busier_is_a_total_order();
            if at < before.len() {
                assert(before[at as int] == (ranked@[at as int].0@, ranked@[at as int].1 as nat));
                assert(le(before[at as int], item) || le(item, before[at as int]));
            }
            let grown = before.insert(at as int, item);
            assert forall|p: int, q: int| 0 <= p < q < grown.len() implies #[trigger] le(
                grown[p],
                grown[q],
            ) by {
                if q == at {
                    assert(grown[p] == before[p]);
                } else if p == at {
                    assert(grown[q] == before[q - 1]);
                    if q - 1 > at {
                        assert(le(before[at as int], before[q - 1]));
                    }
                } else {
                    let from_p = if p < at {
                        p
                    } else {
                        p - 1
                    };
                    let from_q = if q < at {
                        q
                    } else {
                        q - 1
                    };
                    assert(grown[p] == before[from_p]);
                    assert(grown[q] == before[from_q]);
                }
            }
            assert(all.take(i + 1) == all.take(i as int).push(item));
            assert(grown.to_multiset() =~= all.take(i + 1).to_multiset());
        }
        ranked.insert(at, entry);
        assert(counts_view(ranked@) == before.insert(at as int, item));
        i = i + 1;
    }
    proof {
        assert(all.take(all.len() as int) == all);
        lemma_busier_is_a_total_order();
        lemma_sorted_rearrangement(counts_view(ranked@), all, busier());
    }
    ranked
}

/// The tools of a session in prose.
fn describe_tools(counts: &Vec<(&str, usize)>) -> (text: String)
    ensures
        text@ == tools_phrase(counts_view(counts@)),
{
    let ranked = rank(counts);
    let ghost all = counts_view(ranked@);
    proof {
        lemma_busier_is_a_total_order();
        counts_view(counts@).lemma_sort_by_ensures(busier());
        assert(ranked@.len() == counts@.len()) by {
            broadcast use group_to_multiset_ensures;

            assert(all.to_multiset().len() == counts_view(counts@).to_multiset().len());
        }
    }
    let shown: usize = if ranked.len() > SUMMARY_MAX_NAMED_TOOLS {
        SUMMARY_MAX_NAMED_TOOLS
    } else {
        ranked.len()
    };
    let mut names: Vec<String> = Vec::new();
    let mut i: usize = 0;
    while i < shown
        invariant
            i <= shown <= ranked@.len(),
            all == counts_view(ranked@),
            names@.len() == i,
            views(names@) == names_of(all.take(i as int)),
        decreases shown - i,
    {
        let ghost earlier = names@;
        let name = fold_lines(ranked[i].0);
        names.push(name);
        proof {
            assert(views(names@) == views(earlier).push(name@));
            assert(all.take(i + 1) == all.take(i as int).push(all[i as int]));
        }
        i = i + 1;
    }
    let mut named: Vec<&str> = Vec::new();
    let mut k: usize = 0;
    while k < names.len()
        invariant
            k <= names@.len(),
            named@.len() == k,
            slice_views(named@) == views(names@).take(k as int),
        decreases names@.len() - k,
    {
        let ghost earlier = named@;
        named.push(names[k].as_str());
        proof {
            assert(slice_views(named@) == slice_views(earlier).push(names@[k as int]@));
        }
        k = k + 1;
    }
    assert(slice_views(named@) == views(names@));
    let mut text = join_and(named.as_slice());
    if ranked.len() > SUMMARY_MAX_NAMED_TOOLS {
        text.append(" and ");
        text.append(decimal_text((ranked.len() - SUMMARY_MAX_NAMED_TOOLS) as u64).as_str());
        text.append(" more");
    } else {
        assert(all.take(shown as int) == all);
    }
    text
}

/// What a summary says of the prompts, if there were any.
pub open spec fn prompts_part(shape: SessionShape) -> Seq<Seq<char>> {
    let n = shape.prompts.len();
    if n > 0 {
        seq![decimal(n) + " prompt"@ + plural_ending(n)]
    } else {
        seq![]
    }
}

/// What a summary says of the completed tool calls, if there were any.
pub open spec fn calls_part(shape: SessionShape) -> Seq<Seq<char>> {
    let n = total_calls(shape.tool_counts);
    if n > 0 {
        seq![
            decimal(n) + " completed tool call"@ + plural_ending(n) + " across "@ + tools_phrase(
                shape.tool_counts,
            ),
        ]
    } else {
        seq![]
    }
}

/// How long a session took, if it recorded both ends and the clock advanced.
pub open spec fn elapsed(shape: SessionShape) -> Option<Seq<char>> {
    match (shape.start, shape.end) {
        (Some(start), Some(end)) => span_text(
            end.created_at.spec_second() - start.created_at.spec_second(),
        ),
        _ => None,
    }
}

/// What a summary says of the time a session took.
pub open spec fn elapsed_part(shape: SessionShape) -> Seq<Seq<char>> {
    match elapsed(shape) {
        Some(span) => seq!["over "@ + span],
        None => seq![],
    }
}

/// What a summary says.
pub open spec fn summary_parts(shape: SessionShape) -> Seq<Seq<char>> {
    prompts_part(shape) + calls_part(shape) + elapsed_part(shape)
}

/// The summary of a session: its parts between commas, with a full stop, or
/// nothing where there is nothing to say.
pub open spec fn summary_text(shape: SessionShape) -> Seq<char> {
    let parts = summary_parts(shape);
    if parts.len() == 0 {
        Seq::empty()
    } else {
        joined(parts, ", "@) + "."@
    }
}

/// All calls that `counts` adds up to.
fn sum_calls(counts: &Vec<(&str, usize)>) -> (calls: usize)
    requires
        total_calls(counts_view(counts@)) <= usize::MAX,
    ensures
        calls == total_calls(counts_view(counts@)),
{
    let ghost all = counts_view(counts@);
    let mut calls: usize = 0;
    let mut i: usize = 0;
    while i < counts.len()
        invariant
            i <= counts@.len(),
            all == counts_view(counts@),
            total_calls(all) <= usize::MAX,
            calls == total_calls(all.take(i as int)),
        decreases counts@.len() - i,
    {
        proof {
            assert(all.take(i + 1).drop_last() == all.take(i as int));
            lemma_total_of_a_beginning(all, i + 1);
        }
        calls = calls + counts[i].1;
        i = i + 1;
    }
    assert(all.take(all.len() as int) == all);
    calls
}

/// The beginning of a list of counts adds up to no more than the whole.
proof fn lemma_total_of_a_beginning(counts: Seq<(Seq<char>, nat)>, n: int)
    requires
        0 <= n <= counts.len(),
    ensures
        total_calls(counts.take(n)) <= total_calls(counts),
    decreases counts.len() - n,
{
    if n < counts.len() {
        lemma_total_of_a_beginning(counts, n + 1);
        assert(counts.take(n + 1).drop_last() == counts.take(n));
    } else {
        assert(counts.take(n) == counts);
    }
}

/// One line of plain prose describing what the session did, or empty when it
/// did nothing worth stating.
///
/// The store prefers the summary over the body when it describes a page, and
/// drops headings, metadata bullets and list items on the way. So a summary is
/// one line of prose, and opens with no marker.
pub fn session_summary(tally: &SessionTally<'_>) -> (summary: String)
    ensures
        summary@ == summary_text(tally.shape()),
        is_one_line(summary@),
{
    proof {
        a_summary_is_one_line(tally.shape());
    }
    let ghost shape = tally.shape();
    let mut parts: Vec<String> = Vec::new();
    let prompts = tally.prompts();
    let prompt_count = prompts.len();
    assert(prompt_count == shape.prompts.len());
    if prompt_count > 0 {
        let mut part = decimal_text(prompt_count as u64);
        part.append(" prompt");
        part.append(plural(prompt_count));
        parts.push(part);
    }
    assert(views(parts@) == prompts_part(shape));

    let counts = tally.tool_counts();
    let calls = sum_calls(counts);
    if calls > 0 {
        let mut part = decimal_text(calls as u64);
        part.append(" completed tool call");
        part.append(plural(calls));
        part.append(" across ");
        part.append(describe_tools(counts).as_str());
        let ghost earlier = parts@;
        parts.push(part);
        assert(views(parts@) == views(earlier).push(part@));
        assert(views(parts@) == prompts_part(shape) + calls_part(shape));
    }
    assert(views(parts@) == prompts_part(shape) + calls_part(shape));

    if let (Some(start), Some(end)) = (tally.start(), tally.end()) {
        let span = format_duration(end.created_at.as_second() - start.created_at.as_second());
        if let Some(spent) = span {
            let mut part = "over ".to_string();
            part.append(spent.as_str());
            let ghost earlier = parts@;
            parts.push(part);
            assert(views(parts@) == views(earlier).push(part@));
        }
    }
    assert(views(parts@) == summary_parts(shape));

    if parts.len() == 0 {
        return String::new();
    }
    let mut summary = join_texts(&parts, ", ");
    summary.append(".");
    summary
}

// ---------------------------------------------------------------------------
// Page
// ---------------------------------------------------------------------------

/// Where the page of a session lives.
pub open spec fn session_path(session_id: SessionId) -> Seq<char> {
    "sessions/"@ + hyphenated(session_id.value) + ".md"@
}

/// The front matter of a session page. It has a summary only where there is
/// something to say: a blank one would still be preferred over the body.
pub open spec fn frontmatter_members(
    session_id: SessionId,
    title: Seq<char>,
    summary: Seq<char>,
) -> Seq<(Seq<char>, JsonTree)> {
    let members = seq![
        ("title"@, JsonTree::Text(title)),
        ("session_id"@, JsonTree::Text(hyphenated(session_id.value))),
        ("tier"@, JsonTree::Text("episodic"@)),
    ];
    if summary.len() == 0 {
        members
    } else {
        members.push(("summary"@, JsonTree::Text(summary)))
    }
}

/// The front matter of a session page.
fn session_frontmatter(session_id: SessionId, title: &str, summary: &str) -> (frontmatter:
    serde_json::Value)
    ensures
        json_tree(frontmatter) == JsonTree::Object(
            frontmatter_members(session_id, title@, summary@),
        ),
{
    proof {
        reveal_strlit("title");
        reveal_strlit("session_id");
        reveal_strlit("tier");
        reveal_strlit("summary");
        assert("title"@.len() == 5 && "session_id"@.len() == 10 && "tier"@.len() == 4
            && "summary"@.len() == 7);
    }
    let mut frontmatter = json_object();
    json_insert(&mut frontmatter, "title", json_text(title));
    assert(json_tree(frontmatter)->Object_0[0].0 == "title"@);
    json_insert(&mut frontmatter, "session_id", json_text(session_id.text().as_str()));
    assert(json_tree(frontmatter)->Object_0[1].0 == "session_id"@);
    json_insert(&mut frontmatter, "tier", json_text("episodic"));
    let ghost members = json_tree(frontmatter)->Object_0;
    assert(members == frontmatter_members(session_id, title@, Seq::empty()));
    if !summary.is_empty() {
        assert(!has_member(members, "summary"@)) by {
            assert(members[0].0.len() != "summary"@.len());
            assert(members[1].0.len() != "summary"@.len());
            assert(members[2].0.len() != "summary"@.len());
        }
        json_insert(&mut frontmatter, "summary", json_text(summary));
    }
    frontmatter
}

/// Build a page from the observations collected during a session.
///
/// The page is *always* under `sessions/<session-id>.md`, so each session has
/// a stable place that the user can bookmark.
#[must_use]
pub fn synthesize_session_page(
    workspace_id: WorkspaceId,
    project_id: ProjectId,
    session_id: SessionId,
    observations: &[Observation],
) -> (page: NewPage)
    ensures
        page.workspace_id == workspace_id,
        page.project_id == project_id,
        page.path.text@ == session_path(session_id),
        page.title@ == session_title(observations@),
        page.body@ == body_text(
            session_id,
            observations@,
            session_title(observations@),
            session_shape(observations@),
        ),
        page.tier == Tier::Episodic,
        json_tree(page.frontmatter_json) == JsonTree::Object(
            frontmatter_members(
                session_id,
                session_title(observations@),
                summary_text(session_shape(observations@)),
            ),
        ),
        !page.pinned,
        page.links@.len() == 0,
        page.author_id is None,
        page.expires_at is None,
        page.entities@.len() == 0,
{
    // One tally for the whole page: the body and the summary describe the same
    // session.
    let tally = tally_session(observations);
    let title = derive_title(observations);
    let body = render_body(session_id, observations, title.as_str(), &tally);
    let summary = session_summary(&tally);
    let frontmatter_json = session_frontmatter(session_id, title.as_str(), summary.as_str());
    let mut path = "sessions/".to_string();
    path.append(session_id.text().as_str());
    path.append(".md");
    NewPage {
        workspace_id,
        project_id,
        path: PagePath { text: path },
        title,
        body,
        tier: Tier::Episodic,
        frontmatter_json,
        pinned: false,
        links: Vec::new(),
        author_id: None,
        expires_at: None,
        entities: Vec::new(),
    }
}

} // verus!
