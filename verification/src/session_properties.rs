//! What a page says of its session, in terms of the session's observations.

use crate::body::{
    body_text, entry_line, human_time, kind_text, metadata_section, numbered, prompts_section,
    raw_line, raw_lines, raw_section, tool_lines, tools_section,
};
use crate::clock::{utc_strftime, Timestamp};
use crate::ids::{hyphenated, SessionId};
use crate::json::JsonTree;
use crate::observation::{Observation, ObservationKind};
use crate::page_properties::{lemma_occurs_in_itself, lemma_occurs_in_sum};
use crate::synth::{
    busier, busiest_first, calls_part, elapsed_part, frontmatter_members, has_title,
    is_titled_prompt, lemma_busier_is_a_total_order, listed, names_of, plural_ending, prompts_part,
    session_path, session_title, span_text, summary_parts, summary_text, tools_phrase,
};
use crate::tally::{
    calls_to, is_call_to, is_completed_call, of_kind, session_shape, tool_counts,
    tool_counts_are_complete, total_calls, SessionShape,
};
use crate::text::{decimal, joined, occurs_in, on_one_line, text_le};
use crate::text_properties::decimals_grow_by_digits;
use vstd::prelude::*;
use vstd::relations::sorted_by;

verus! {

// ---------------------------------------------------------------------------
// Picking observations
// ---------------------------------------------------------------------------

/// Where nothing is wanted, nothing is found.
proof fn lemma_filter_none(all: Seq<Observation>, wanted: spec_fn(Observation) -> bool)
    requires
        forall|k: int| 0 <= k < all.len() ==> !wanted(#[trigger] all[k]),
    ensures
        all.filter(wanted) == Seq::<Observation>::empty(),
    decreases all.len(),
{
    reveal(Seq::filter);
    if all.len() > 0 {
        let rest = all.drop_last();
        assert(!wanted(all[all.len() - 1]));
        assert forall|k: int| 0 <= k < rest.len() implies !wanted(#[trigger] rest[k]) by {
            assert(rest[k] == all[k]);
        }
        lemma_filter_none(rest, wanted);
    }
}

/// One that is wanted is found behind what is wanted before it.
proof fn lemma_filter_at(all: Seq<Observation>, wanted: spec_fn(Observation) -> bool, i: int)
    requires
        0 <= i < all.len(),
        wanted(all[i]),
    ensures
        all.filter(wanted) == all.take(i).filter(wanted) + seq![all[i]] + all.skip(i + 1).filter(
            wanted,
        ),
{
    let before = all.take(i);
    let after = all.skip(i + 1);
    assert(all == before.push(all[i]) + after);
    before.lemma_filter_push(all[i], wanted);
    Seq::filter_distributes_over_add(before.push(all[i]), after, wanted);
    assert(before.filter(wanted).push(all[i]) == before.filter(wanted) + seq![all[i]]);
}

proof fn lemma_filter_first(all: Seq<Observation>, wanted: spec_fn(Observation) -> bool, i: int)
    requires
        0 <= i < all.len(),
        wanted(all[i]),
        forall|k: int| 0 <= k < i ==> !wanted(#[trigger] all[k]),
    ensures
        all.filter(wanted).len() > 0,
        all.filter(wanted).first() == all[i],
{
    let before = all.take(i);
    assert forall|k: int| 0 <= k < before.len() implies !wanted(#[trigger] before[k]) by {
        assert(before[k] == all[k]);
    }
    lemma_filter_none(before, wanted);
    lemma_filter_at(all, wanted, i);
    assert(all.filter(wanted)[0] == all[i]);
}

proof fn lemma_filter_last(all: Seq<Observation>, wanted: spec_fn(Observation) -> bool, i: int)
    requires
        0 <= i < all.len(),
        wanted(all[i]),
        forall|k: int| i < k < all.len() ==> !wanted(#[trigger] all[k]),
    ensures
        all.filter(wanted).len() > 0,
        all.filter(wanted).last() == all[i],
{
    let after = all.skip(i + 1);
    assert forall|k: int| 0 <= k < after.len() implies !wanted(#[trigger] after[k]) by {
        assert(after[k] == all[i + 1 + k]);
    }
    lemma_filter_none(after, wanted);
    lemma_filter_at(all, wanted, i);
}

// ---------------------------------------------------------------------------
// Title
// ---------------------------------------------------------------------------

/// A session is titled by its first prompt that has a title, as that stands.
pub proof fn the_first_prompt_titles_the_session(observations: Seq<Observation>, i: int)
    requires
        0 <= i < observations.len(),
        observations[i].kind == ObservationKind::UserPrompt,
        observations[i].title@.len() > 0,
        forall|k: int|
            0 <= k < i ==> (#[trigger] observations[k]).kind != ObservationKind::UserPrompt
                || observations[k].title@.len() == 0,
    ensures
        session_title(observations) == observations[i].title@,
{
    lemma_filter_first(observations, is_titled_prompt(), i);
}

/// A session without a titled prompt is titled by the first of its observations
/// that has a title, of whatever kind.
pub proof fn the_first_title_stands_in_for_a_prompt(observations: Seq<Observation>, i: int)
    requires
        0 <= i < observations.len(),
        observations[i].title@.len() > 0,
        forall|k: int| 0 <= k < i ==> (#[trigger] observations[k]).title@.len() == 0,
        forall|k: int|
            0 <= k < observations.len() ==> (#[trigger] observations[k]).kind
                != ObservationKind::UserPrompt || observations[k].title@.len() == 0,
    ensures
        session_title(observations) == observations[i].title@,
{
    lemma_filter_none(observations, is_titled_prompt());
    lemma_filter_first(observations, has_title(), i);
}

/// A session in which nothing has a title is called just that.
pub proof fn a_session_without_titles_is_a_session(observations: Seq<Observation>)
    requires
        forall|k: int|
            0 <= k < observations.len() ==> (#[trigger] observations[k]).title@.len() == 0,
    ensures
        session_title(observations) == "session"@,
{
    lemma_filter_none(observations, is_titled_prompt());
    lemma_filter_none(observations, has_title());
}

// ---------------------------------------------------------------------------
// Tally
// ---------------------------------------------------------------------------

/// A session starts at its first start, whatever comes behind it.
pub proof fn a_session_starts_at_its_first_start(observations: Seq<Observation>, i: int)
    requires
        0 <= i < observations.len(),
        observations[i].kind == ObservationKind::SessionStart,
        forall|k: int|
            0 <= k < i ==> (#[trigger] observations[k]).kind != ObservationKind::SessionStart,
    ensures
        session_shape(observations).start == Some(observations[i]),
{
    lemma_filter_first(observations, of_kind(ObservationKind::SessionStart), i);
}

/// A session ends at its last end, whatever comes before it.
pub proof fn a_session_ends_at_its_last_end(observations: Seq<Observation>, i: int)
    requires
        0 <= i < observations.len(),
        observations[i].kind == ObservationKind::SessionEnd,
        forall|k: int|
            i < k < observations.len() ==> (#[trigger] observations[k]).kind
                != ObservationKind::SessionEnd,
    ensures
        session_shape(observations).end == Some(observations[i]),
{
    lemma_filter_last(observations, of_kind(ObservationKind::SessionEnd), i);
}

/// A session has a start and an end only if it recorded one.
pub proof fn a_session_records_its_ends(observations: Seq<Observation>)
    ensures
        (forall|k: int|
            0 <= k < observations.len() ==> (#[trigger] observations[k]).kind
                != ObservationKind::SessionStart) ==> session_shape(observations).start is None,
        (forall|k: int|
            0 <= k < observations.len() ==> (#[trigger] observations[k]).kind
                != ObservationKind::SessionEnd) ==> session_shape(observations).end is None,
{
    if forall|k: int|
        0 <= k < observations.len() ==> (#[trigger] observations[k]).kind
            != ObservationKind::SessionStart {
        lemma_filter_none(observations, of_kind(ObservationKind::SessionStart));
    }
    if forall|k: int|
        0 <= k < observations.len() ==> (#[trigger] observations[k]).kind
            != ObservationKind::SessionEnd {
        lemma_filter_none(observations, of_kind(ObservationKind::SessionEnd));
    }
}

/// The prompts of a session are those of its first part and then those of the
/// rest; a single observation is one exactly if it is of that kind.
pub proof fn prompts_are_kept_in_order(
    first: Seq<Observation>,
    rest: Seq<Observation>,
    o: Observation,
)
    ensures
        session_shape(first + rest).prompts == session_shape(first).prompts + session_shape(
            rest,
        ).prompts,
        session_shape(seq![o]).prompts == if o.kind == ObservationKind::UserPrompt {
            seq![o]
        } else {
            Seq::empty()
        },
        session_shape(Seq::empty()).prompts == Seq::<Observation>::empty(),
{
    let wanted = of_kind(ObservationKind::UserPrompt);
    Seq::filter_distributes_over_add(first, rest, wanted);
    lemma_filter_none(Seq::empty(), wanted);
    Seq::<Observation>::empty().lemma_filter_push(o, wanted);
    assert(Seq::<Observation>::empty().push(o) == seq![o]);
}

/// The tools of a session are counted by their completed calls alone: each is
/// listed with the number of observations of a completed call that bear its
/// name, every tool that was called to completion is listed, and the names stand
/// in alphabetical order, each once.
pub proof fn tools_are_counted_by_their_completed_calls(observations: Seq<Observation>)
    ensures
        forall|i: int|
            0 <= i < session_shape(observations).tool_counts.len() ==> {
                let entry = #[trigger] session_shape(observations).tool_counts[i];
                &&& entry.0.len() > 0
                &&& entry.1 > 0
                &&& entry.1 == observations.filter(
                    |o: Observation|
                        o.kind == ObservationKind::PostToolUse && o.title@ == entry.0,
                ).len()
            },
        forall|k: int|
            0 <= k < observations.len() && (#[trigger] observations[k]).kind
                == ObservationKind::PostToolUse && observations[k].title@.len() > 0
                ==> exists|i: int|
                0 <= i < session_shape(observations).tool_counts.len() && (
                #[trigger] session_shape(observations).tool_counts[i]).0 == observations[k].title@,
        forall|i: int, j: int|
            0 <= i < j < session_shape(observations).tool_counts.len() ==> {
                let a = (#[trigger] session_shape(observations).tool_counts[i]).0;
                let b = (#[trigger] session_shape(observations).tool_counts[j]).0;
                a != b && text_le(a, b)
            },
{
    let counts = session_shape(observations).tool_counts;
    tool_counts_are_complete(observations);
    assert forall|i: int| 0 <= i < counts.len() implies {
        let entry = #[trigger] counts[i];
        &&& entry.0.len() > 0
        &&& entry.1 > 0
        &&& entry.1 == observations.filter(
            |o: Observation| o.kind == ObservationKind::PostToolUse && o.title@ == entry.0,
        ).len()
    } by {
        let entry = counts[i];
        let called = is_call_to(entry.0);
        if entry.0.len() == 0 {
            lemma_filter_none(observations, called);
        }
        assert(called =~= (|o: Observation|
            o.kind == ObservationKind::PostToolUse && o.title@ == entry.0));
    }
    assert forall|k: int|
        0 <= k < observations.len() && (#[trigger] observations[k]).kind
            == ObservationKind::PostToolUse && observations[k].title@.len() > 0 implies exists|
        i: int,
    |
        0 <= i < counts.len() && (#[trigger] counts[i]).0 == observations[k].title@ by {
        let wanted = (observations[k].title@, calls_to(observations, observations[k].title@));
        assert(is_completed_call(observations[k]));
        assert(counts.contains(wanted));
        let i = choose|i: int| 0 <= i < counts.len() && counts[i] == wanted;
        assert(counts[i].0 == observations[k].title@);
    }
}

/// All calls of a session add up to the completed calls that have a name.
pub proof fn calls_add_up(observations: Seq<Observation>)
    ensures
        total_calls(session_shape(observations).tool_counts) == observations.filter(
            |o: Observation| o.kind == ObservationKind::PostToolUse && o.title@.len() > 0,
        ).len(),
{
    tool_counts_are_complete(observations);
    assert((|o: Observation| is_completed_call(o)) =~= (|o: Observation|
        o.kind == ObservationKind::PostToolUse && o.title@.len() > 0));
}

// ---------------------------------------------------------------------------
// Summary
// ---------------------------------------------------------------------------

/// A span of time is told in seconds, in minutes, or in hours and minutes: what
/// lasted `h` hours, `m` minutes and `s` seconds is said to have, but for the
/// seconds of what lasted a minute or more.
pub proof fn a_span_tells_hours_and_minutes(h: nat, m: nat, s: nat)
    requires
        m < 60,
        s < 60,
    ensures
        ({
            let span = span_text((h * 3600 + m * 60 + s) as int);
            &&& h == 0 && m == 0 && s == 0 ==> span is None
            &&& h == 0 && m == 0 && s > 0 ==> span == Some(decimal(s) + "s"@)
            &&& h == 0 && m > 0 ==> span == Some(decimal(m) + "m"@)
            &&& h > 0 && m == 0 ==> span == Some(decimal(h) + "h"@)
            &&& h > 0 && m > 0 ==> span == Some(decimal(h) + "h "@ + decimal(m) + "m"@)
        }),
{
    let seconds = (h * 3600 + m * 60 + s) as int;
    assert(seconds / 60 == h * 60 + m);
    assert((h * 60 + m) as int / 60 == h);
    assert((h * 60 + m) as int % 60 == m);
}

/// What took no time, or less, has no span.
pub proof fn no_time_has_no_span(seconds: int)
    requires
        seconds <= 0,
    ensures
        span_text(seconds) is None,
{
}

/// A name on one line keeps its characters in their places; only line feeds and
/// carriage returns become spaces.
pub proof fn a_name_on_one_line_keeps_its_characters(name: Seq<char>)
    ensures
        on_one_line(name).len() == name.len(),
        forall|i: int|
            0 <= i < name.len() ==> (#[trigger] on_one_line(name)[i]) == if name[i] == '\n' || name[i]
                == '\r' {
                ' '
            } else {
                name[i]
            },
{
}

/// The busiest tools come first: ranking keeps every tool with its calls, and of
/// two tools the one with more calls stands first, or the one that the alphabet
/// puts first where they have as many.
pub proof fn the_busiest_tools_come_first(counts: Seq<(Seq<char>, nat)>)
    ensures
        busiest_first(counts).to_multiset() == counts.to_multiset(),
        busiest_first(counts).len() == counts.len(),
        forall|i: int, j: int|
            0 <= i < j < busiest_first(counts).len() ==> {
                let a = #[trigger] busiest_first(counts)[i];
                let b = #[trigger] busiest_first(counts)[j];
                a.1 > b.1 || (a.1 == b.1 && text_le(a.0, b.0))
            },
{
    let ranked = busiest_first(counts);
    lemma_busier_is_a_total_order();
    counts.lemma_sort_by_ensures(busier());
    assert(ranked.len() == counts.len()) by {
        broadcast use vstd::seq_lib::group_to_multiset_ensures;

        assert(ranked.to_multiset().len() == counts.to_multiset().len());
    }
    assert forall|i: int, j: int| 0 <= i < j < ranked.len() implies {
        let a = #[trigger] ranked[i];
        let b = #[trigger] ranked[j];
        a.1 > b.1 || (a.1 == b.1 && text_le(a.0, b.0))
    } by {
        assert(sorted_by(ranked, busier()));
        assert(busier()(ranked[i], ranked[j]));
    }
}

/// Words go with numbers, and names with each other: one thing has no ending, and
/// a list of names has commas, and an `and` before its last.
pub proof fn words_go_with_numbers(n: nat, names: Seq<Seq<char>>, name: Seq<char>)
    ensures
        n == 1 ==> plural_ending(n) == ""@,
        n != 1 ==> plural_ending(n) == "s"@,
        listed(Seq::empty()) == ""@,
        listed(seq![name]) == name,
        names.len() > 0 ==> listed(names.push(name)) == joined(names, ", "@) + " and "@ + name,
{
    assert(names.push(name).drop_last() == names);
}

/// Up to three tools are named, the busiest first, with commas and an `and`
/// between them; how many more there are is said in a number.
pub proof fn three_tools_are_named(counts: Seq<(Seq<char>, nat)>)
    ensures
        ({
            let ranked = busiest_first(counts);
            let n = counts.len();
            let a = on_one_line(ranked[0].0);
            let b = on_one_line(ranked[1].0);
            let c = on_one_line(ranked[2].0);
            &&& n == 1 ==> tools_phrase(counts) == a
            &&& n == 2 ==> tools_phrase(counts) == a + " and "@ + b
            &&& n == 3 ==> tools_phrase(counts) == (a + ", "@ + b) + " and "@ + c
            &&& n > 3 ==> tools_phrase(counts) == (a + ", "@ + b) + " and "@ + c + " and "@ + decimal(
                (n - 3) as nat,
            ) + " more"@
        }),
{
    let ranked = busiest_first(counts);
    let n = counts.len();
    the_busiest_tools_come_first(counts);
    let shown = if n > 3 {
        ranked.take(3)
    } else {
        ranked
    };
    let names = names_of(shown);
    if n == 2 {
        assert(names.drop_last() == seq![names[0]]);
        assert(joined(names.drop_last(), ", "@) == names[0]);
    }
    if n >= 3 {
        let two = names.drop_last();
        assert(two.drop_last() == seq![names[0]]);
        assert(joined(two.drop_last(), ", "@) == names[0]);
        assert(joined(two, ", "@) == names[0] + ", "@ + names[1]);
    }
}

/// The summary of a session states how many prompts it had, how many completed
/// tool calls and of which tools, and how long it took from its first start to
/// its last end: each of them where there is something to say, in this order,
/// with commas between them and a full stop at the end.
pub proof fn a_summary_states_what_happened(observations: Seq<Observation>)
    ensures
        ({
            let shape = session_shape(observations);
            let p = observations.filter(
                |o: Observation| o.kind == ObservationKind::UserPrompt,
            ).len();
            let c = observations.filter(
                |o: Observation| o.kind == ObservationKind::PostToolUse && o.title@.len() > 0,
            ).len();
            let prompts = decimal(p) + (if p == 1 {
                " prompt"@
            } else {
                " prompts"@
            });
            let calls = decimal(c) + (if c == 1 {
                " completed tool call across "@
            } else {
                " completed tool calls across "@
            }) + tools_phrase(shape.tool_counts);
            let seconds = shape.end->0.created_at.spec_second()
                - shape.start->0.created_at.spec_second();
            let timed = shape.start is Some && shape.end is Some && seconds > 0;
            let time = "over "@ + span_text(seconds)->0;
            let summary = summary_text(shape);
            &&& p == 0 && c == 0 && !timed ==> summary == Seq::<char>::empty()
            &&& p > 0 && c == 0 && !timed ==> summary == prompts + "."@
            &&& p == 0 && c > 0 && !timed ==> summary == calls + "."@
            &&& p == 0 && c == 0 && timed ==> summary == time + "."@
            &&& p > 0 && c > 0 && !timed ==> summary == (prompts + ", "@ + calls) + "."@
            &&& p > 0 && c == 0 && timed ==> summary == (prompts + ", "@ + time) + "."@
            &&& p == 0 && c > 0 && timed ==> summary == (calls + ", "@ + time) + "."@
            &&& p > 0 && c > 0 && timed ==> summary == (prompts + ", "@ + calls + ", "@ + time)
                + "."@
        }),
{
    let shape = session_shape(observations);
    let p = shape.prompts.len();
    let c = total_calls(shape.tool_counts);
    calls_add_up(observations);
    assert(of_kind(ObservationKind::UserPrompt) =~= (|o: Observation|
        o.kind == ObservationKind::UserPrompt));
    reveal_strlit("");
    reveal_strlit("s");
    reveal_strlit(" prompt");
    reveal_strlit(" prompts");
    reveal_strlit(" completed tool call");
    reveal_strlit(" across ");
    reveal_strlit(" completed tool call across ");
    reveal_strlit(" completed tool calls across ");
    let prompts = decimal(p) + (if p == 1 {
        " prompt"@
    } else {
        " prompts"@
    });
    assert(decimal(p) + " prompt"@ + plural_ending(p) =~= prompts);
    let words = if c == 1 {
        " completed tool call across "@
    } else {
        " completed tool calls across "@
    };
    assert(" completed tool call"@ + plural_ending(c) + " across "@ =~= words);
    assert(decimal(c) + " completed tool call"@ + plural_ending(c) + " across "@ =~= decimal(c)
        + words);
    let parts = summary_parts(shape);
    assert(parts == prompts_part(shape) + calls_part(shape) + elapsed_part(shape));
    reveal_with_fuel(joined, 4);
    if parts.len() == 1 {
        assert(joined(parts, ", "@) == parts[0]);
    } else if parts.len() == 2 {
        assert(parts.drop_last() == seq![parts[0]]);
        assert(joined(parts, ", "@) == parts[0] + ", "@ + parts[1]);
    } else if parts.len() == 3 {
        assert(parts.drop_last() == seq![parts[0], parts[1]]);
        assert(parts.drop_last().drop_last() == seq![parts[0]]);
        assert(joined(parts, ", "@) == parts[0] + ", "@ + parts[1] + ", "@ + parts[2]);
    }
}

// ---------------------------------------------------------------------------
// Body
// ---------------------------------------------------------------------------

/// A raw observation is listed by its kind, its time to the second in UTC, and
/// the first eighty characters of its title.
pub proof fn an_observation_is_listed_by_kind_time_and_title(o: Observation)
    ensures
        ({
            let time = utc_strftime(
                o.created_at.spec_second(),
                o.created_at.spec_nanosecond(),
                "%Y-%m-%dT%H:%M:%SZ"@,
            );
            let title = if o.title@.len() <= 80 {
                o.title@
            } else {
                o.title@.take(80)
            };
            &&& o.extension is Some && o.source_event is Some ==> raw_line(o) == "- `"@ + (
            o.kind_label@ + " ["@ + o.extension->0@ + ":"@ + o.source_event->0@ + "]"@) + "` @ "@
                + time + " — "@ + title + "\n"@
            &&& o.extension is None || o.source_event is None ==> raw_line(o) == "- `"@
                + o.kind_label@ + "` @ "@ + time + " — "@ + title + "\n"@
        }),
{
}

/// The pieces of a line: an instant to the second in UTC, the label of a kind with
/// the extension's name for the event exactly where there is one, and the line
/// that they make with a title.
pub proof fn a_line_is_made_of_its_pieces(
    instant: Timestamp,
    o: Observation,
    kind: Seq<char>,
    time: Seq<char>,
    title: Seq<char>,
)
    ensures
        human_time(instant) == utc_strftime(
            instant.spec_second(),
            instant.spec_nanosecond(),
            "%Y-%m-%dT%H:%M:%SZ"@,
        ),
        o.extension is Some && o.source_event is Some ==> kind_text(o) == o.kind_label@ + " ["@
            + o.extension->0@ + ":"@ + o.source_event->0@ + "]"@,
        o.extension is None || o.source_event is None ==> kind_text(o) == o.kind_label@,
        title.len() <= 80 ==> entry_line(kind, time, title) == "- `"@ + kind + "` @ "@ + time
            + " — "@ + title + "\n"@,
        title.len() > 80 ==> entry_line(kind, time, title) == "- `"@ + kind + "` @ "@ + time
            + " — "@ + title.take(80) + "\n"@,
{
}

/// Lists grow at their end: what is listed of a session is what is listed of its
/// first part, and then one line for each further observation, prompt or tool.
pub proof fn lists_grow_at_their_end(
    observations: Seq<Observation>,
    o: Observation,
    counts: Seq<(Seq<char>, nat)>,
    count: (Seq<char>, nat),
)
    ensures
        raw_lines(Seq::empty()) == Seq::<char>::empty(),
        raw_lines(observations.push(o)) == raw_lines(observations) + raw_line(o),
        numbered(Seq::empty()) == Seq::<char>::empty(),
        numbered(observations.push(o)) == numbered(observations) + (decimal(
            observations.len() + 1,
        ) + ". "@ + o.title@ + "\n"@),
        tool_lines(Seq::empty()) == Seq::<char>::empty(),
        tool_lines(counts.push(count)) == tool_lines(counts) + ("- `"@ + count.0 + "`: "@ + decimal(
            count.1,
        ) + "\n"@),
{
    assert(observations.push(o).drop_last() == observations);
    assert(counts.push(count).drop_last() == counts);
}

proof fn lemma_two_hundred_and_fifty()
    ensures
        decimal(250) == "250"@,
{
    decimals_grow_by_digits(0, 2);
    decimals_grow_by_digits(2, 5);
    decimals_grow_by_digits(25, 0);
    reveal_strlit("250");
    assert(decimal(250) =~= "250"@);
}

/// A session of up to five hundred observations lists them all; a longer one
/// lists the first and the last two hundred and fifty, and says between them how
/// many it leaves out.
pub proof fn a_long_list_keeps_its_two_ends(
    first: Seq<Observation>,
    middle: Seq<Observation>,
    last: Seq<Observation>,
)
    requires
        first.len() == 250,
        last.len() == 250,
        middle.len() > 0,
    ensures
        raw_section(first + middle + last) == raw_lines(first) + ("\n_... "@ + decimal(middle.len())
            + " raw observations omitted from the middle (showing first "@ + "250"@
            + " and last "@ + "250"@ + ")._\n\n"@) + raw_lines(last),
{
    let all = first + middle + last;
    lemma_two_hundred_and_fifty();
    assert(all.take(250) == first);
    assert(all.skip(all.len() - 250) == last);
}

/// A session of up to five hundred observations lists them all.
pub proof fn a_short_list_is_whole(observations: Seq<Observation>)
    requires
        observations.len() <= 500,
    ensures
        raw_section(observations) == raw_lines(observations),
{
}

/// A list of prompts or of tools has a heading and an empty line behind it, and
/// is left out where there is nothing to list.
pub proof fn empty_lists_are_left_out(
    prompts: Seq<Observation>,
    counts: Seq<(Seq<char>, nat)>,
)
    ensures
        prompts.len() == 0 ==> prompts_section(prompts) == Seq::<char>::empty(),
        prompts.len() > 0 ==> prompts_section(prompts) == "## Prompts\n\n"@ + numbered(prompts)
            + "\n"@,
        counts.len() == 0 ==> tools_section(counts) == Seq::<char>::empty(),
        counts.len() > 0 ==> tools_section(counts) == "## Tool calls\n\n"@ + tool_lines(counts)
            + "\n"@,
{
}

/// The metadata of a page: the session, when it started and ended as far as that
/// was recorded, and how many observations it has, of whatever kind.
pub proof fn the_metadata_describes_the_session(
    session_id: SessionId,
    shape: SessionShape,
    observation_count: nat,
)
    ensures
        ({
            let written = |o: Observation|
                utc_strftime(
                    o.created_at.spec_second(),
                    o.created_at.spec_nanosecond(),
                    "%Y-%m-%dT%H:%M:%SZ"@,
                );
            let started = if shape.start is Some {
                "- **started_at:** "@ + written(shape.start->0) + "\n"@
            } else {
                Seq::empty()
            };
            let ended = if shape.end is Some {
                "- **ended_at:** "@ + written(shape.end->0) + "\n"@
            } else {
                Seq::empty()
            };
            metadata_section(session_id, shape, observation_count) == "## Session metadata\n\n"@
                + "- **session_id:** `"@ + hyphenated(session_id.value) + "`\n"@ + started + ended
                + "- **observations:** "@ + decimal(observation_count) + "\n\n"@
        }),
{
}

/// A page counts all of its session's observations: the body has a line that
/// says how many there are, whatever their kinds.
pub proof fn a_body_counts_all_observations(
    session_id: SessionId,
    observations: Seq<Observation>,
    title: Seq<char>,
    shape: SessionShape,
)
    ensures
        occurs_in(
            body_text(session_id, observations, title, shape),
            "- **observations:** "@ + decimal(observations.len()) + "\n\n"@,
        ),
{
    let line = "- **observations:** "@ + decimal(observations.len()) + "\n\n"@;
    let metadata = metadata_section(session_id, shape, observations.len());
    let opening = metadata.take(metadata.len() - line.len());
    assert(metadata =~= opening + line);
    lemma_occurs_in_itself(line);
    lemma_occurs_in_sum(opening, line, line);
    let a = "# "@ + title + "\n\n"@;
    let b = a + metadata;
    let c = b + prompts_section(shape.prompts);
    let d = c + tools_section(shape.tool_counts);
    let e = d + "## Raw observations\n\n"@;
    let f = e + raw_section(observations);
    let footer = "\n_Synthesised by ai-memory (M3, no-LLM heuristic)._\n"@;
    lemma_occurs_in_sum(a, metadata, line);
    lemma_occurs_in_sum(b, prompts_section(shape.prompts), line);
    lemma_occurs_in_sum(c, tools_section(shape.tool_counts), line);
    lemma_occurs_in_sum(d, "## Raw observations\n\n"@, line);
    lemma_occurs_in_sum(e, raw_section(observations), line);
    lemma_occurs_in_sum(f, footer, line);
}

/// The layout of a page: the title as its heading, the metadata of the session
/// with the number of all its observations, the prompts, the tools, and the
/// observations, each list under its heading, and who wrote it.
pub proof fn a_body_has_its_parts_in_order(
    session_id: SessionId,
    observations: Seq<Observation>,
    title: Seq<char>,
    shape: SessionShape,
)
    ensures
        body_text(session_id, observations, title, shape) == "# "@ + title + "\n\n"@
            + metadata_section(session_id, shape, observations.len()) + prompts_section(
            shape.prompts,
        ) + tools_section(shape.tool_counts) + "## Raw observations\n\n"@ + raw_section(
            observations,
        ) + "\n_Synthesised by ai-memory (M3, no-LLM heuristic)._\n"@,
{
}

// ---------------------------------------------------------------------------
// Page
// ---------------------------------------------------------------------------

/// A page lives under its session's identifier.
pub proof fn a_page_lives_under_its_session(session_id: SessionId)
    ensures
        session_path(session_id) == "sessions/"@ + hyphenated(session_id.value) + ".md"@,
{
}

/// The front matter gives the title, the session and the tier, and the summary
/// exactly where there is one; all as they are, and nothing else.
pub proof fn the_front_matter_says_what_the_page_says(
    session_id: SessionId,
    title: Seq<char>,
    summary: Seq<char>,
)
    ensures
        ({
            let members = frontmatter_members(session_id, title, summary);
            &&& members.len() == if summary.len() > 0 {
                4nat
            } else {
                3nat
            }
            &&& members[0] == ("title"@, JsonTree::Text(title))
            &&& members[1] == ("session_id"@, JsonTree::Text(hyphenated(session_id.value)))
            &&& members[2] == ("tier"@, JsonTree::Text("episodic"@))
            &&& summary.len() > 0 ==> members[3] == ("summary"@, JsonTree::Text(summary))
        }),
{
}

} // verus!
