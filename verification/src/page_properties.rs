//! What holds of every session page.

use crate::body::{
    body_text, metadata_section, numbered, omission_note, prompt_line, prompts_section, raw_line,
    raw_lines, raw_section, tool_line, tool_lines, tools_section, RAW_OBSERVATION_HEAD_LINES,
    RAW_OBSERVATION_MAX_LINES, RAW_OBSERVATION_TAIL_LINES,
};
use crate::ids::{hyphenated, hyphenated_is_injective, SessionId};
use crate::observation::{Observation, ObservationKind};
use crate::synth::{
    busiest_first, calls_part, elapsed, elapsed_part, has_title, is_titled_prompt,
    listed, names_of, plural_ending, prompts_part, session_path,
    session_title, span_text, summary_parts, summary_text, tools_phrase, SUMMARY_MAX_NAMED_TOOLS,
};
use crate::tally::{
    completed_calls, of_kind, session_shape, tool_counts, tool_counts_are_complete, total_calls,
    SessionShape,
};
use crate::text::{
    decimal, decimal_reads_back, folding_leaves_one_line, is_digit, is_one_line, joined,
    lemma_not_in_sum, occurs_at, occurs_in,
};
use vstd::prelude::*;

verus! {

// ---------------------------------------------------------------------------
// Place and title
// ---------------------------------------------------------------------------

/// Each session has a page of its own: no two sessions share a path.
pub proof fn sessions_have_pages_of_their_own(a: SessionId, b: SessionId)
    requires
        session_path(a) == session_path(b),
    ensures
        a == b,
{
    let x = session_path(a);
    let y = session_path(b);
    reveal_strlit("sessions/");
    reveal_strlit(".md");
    assert(hyphenated(a.value) == x.subrange(9, x.len() - 3));
    assert(hyphenated(b.value) == y.subrange(9, y.len() - 3));
    hyphenated_is_injective(a.value, b.value);
}

/// A page always has a title.
pub proof fn a_page_has_a_title(observations: Seq<Observation>)
    ensures
        session_title(observations).len() > 0,
{
    let prompts = observations.filter(is_titled_prompt());
    let titled = observations.filter(has_title());
    if prompts.len() > 0 {
        observations.lemma_filter_pred(is_titled_prompt(), 0);
    } else if titled.len() > 0 {
        observations.lemma_filter_pred(has_title(), 0);
    } else {
        reveal_strlit("session");
    }
}

// ---------------------------------------------------------------------------
// Summary
// ---------------------------------------------------------------------------

/// A session has no summary exactly if it has no prompt, no completed tool call
/// and no measurable length.
pub proof fn a_summary_is_missing_only_if_nothing_happened(observations: Seq<Observation>)
    ensures
        summary_text(session_shape(observations)).len() == 0 <==> {
            &&& observations.filter(of_kind(ObservationKind::UserPrompt)).len() == 0
            &&& completed_calls(observations).len() == 0
            &&& elapsed(session_shape(observations)) is None
        },
{
    tool_counts_are_complete(observations);
    reveal_strlit(".");
}

/// The first of the parts of a text opens the whole.
proof fn lemma_joined_opens(parts: Seq<Seq<char>>, separator: Seq<char>)
    requires
        parts.len() > 0,
        parts[0].len() > 0,
    ensures
        joined(parts, separator).len() > 0,
        joined(parts, separator)[0] == parts[0][0],
    decreases parts.len(),
{
    if parts.len() > 1 {
        lemma_joined_opens(parts.drop_last(), separator);
    }
}

/// A summary is prose: it opens with a number other than zero or with the word
/// `over`, hence with no heading, rule, bullet or list marker, and it ends in a
/// full stop.
pub proof fn a_summary_opens_with_no_marker(shape: SessionShape)
    ensures
        summary_text(shape).len() > 0 ==> {
            let first = summary_text(shape).first();
            &&& (is_digit(first) && first != '0') || summary_text(shape).take(5) == "over "@
            &&& first != '#' && first != '-' && first != '_' && first != '*' && first != '+'
            &&& summary_text(shape).last() == '.'
        },
{
    let parts = summary_parts(shape);
    reveal_strlit("over ");
    reveal_strlit(".");
    if parts.len() > 0 {
        decimal_reads_back(shape.prompts.len());
        decimal_reads_back(total_calls(shape.tool_counts));
        if shape.prompts.len() > 0 {
            assert(parts[0][0] == decimal(shape.prompts.len())[0]);
        } else if total_calls(shape.tool_counts) > 0 {
            assert(parts[0][0] == decimal(total_calls(shape.tool_counts))[0]);
        } else {
            assert(parts == elapsed_part(shape));
            assert(summary_text(shape).take(5) == "over "@);
            assert(parts[0][0] == 'o');
        }
        lemma_joined_opens(parts, ", "@);
        assert(summary_text(shape)[0] == parts[0][0]);
        assert(summary_text(shape).last() == '.');
    }
}

proof fn lemma_one_line_sum(a: Seq<char>, b: Seq<char>)
    requires
        is_one_line(a),
        is_one_line(b),
    ensures
        is_one_line(a + b),
{
    lemma_not_in_sum(a, b, '\n');
    lemma_not_in_sum(a, b, '\r');
}

proof fn lemma_decimal_is_one_line(n: nat)
    ensures
        is_one_line(decimal(n)),
{
    decimal_reads_back(n);
    assert forall|c: char| decimal(n).contains(c) implies is_digit(c) by {
        let i = choose|i: int| 0 <= i < decimal(n).len() && decimal(n)[i] == c;
        assert(is_digit(decimal(n)[i]));
    }
}

proof fn lemma_joined_is_one_line(parts: Seq<Seq<char>>, separator: Seq<char>)
    requires
        is_one_line(separator),
        forall|i: int| 0 <= i < parts.len() ==> is_one_line(#[trigger] parts[i]),
    ensures
        is_one_line(joined(parts, separator)),
    decreases parts.len(),
{
    if parts.len() > 1 {
        assert forall|i: int| 0 <= i < parts.drop_last().len() implies is_one_line(
            #[trigger] parts.drop_last()[i],
        ) by {
            assert(parts.drop_last()[i] == parts[i]);
        }
        lemma_joined_is_one_line(parts.drop_last(), separator);
        lemma_one_line_sum(joined(parts.drop_last(), separator), separator);
        lemma_one_line_sum(joined(parts.drop_last(), separator) + separator, parts.last());
    }
}

/// The fixed words of a summary stay on one line.
proof fn lemma_summary_words_are_one_line()
    ensures
        is_one_line(""@),
        is_one_line("s"@),
        is_one_line("m"@),
        is_one_line("h"@),
        is_one_line("h "@),
        is_one_line("."@),
        is_one_line(", "@),
        is_one_line(" and "@),
        is_one_line(" more"@),
        is_one_line("over "@),
        is_one_line(" prompt"@),
        is_one_line(" across "@),
        is_one_line(" completed tool call"@),
{
    reveal_strlit("");
    reveal_strlit("s");
    reveal_strlit("m");
    reveal_strlit("h");
    reveal_strlit("h ");
    reveal_strlit(".");
    reveal_strlit(", ");
    reveal_strlit(" and ");
    reveal_strlit(" more");
    reveal_strlit("over ");
    reveal_strlit(" prompt");
    reveal_strlit(" across ");
    reveal_strlit(" completed tool call");
}

proof fn lemma_listed_is_one_line(names: Seq<Seq<char>>)
    requires
        forall|i: int| 0 <= i < names.len() ==> is_one_line(#[trigger] names[i]),
    ensures
        is_one_line(listed(names)),
{
    lemma_summary_words_are_one_line();
    if names.len() > 1 {
        assert forall|i: int| 0 <= i < names.drop_last().len() implies is_one_line(
            #[trigger] names.drop_last()[i],
        ) by {
            assert(names.drop_last()[i] == names[i]);
        }
        lemma_joined_is_one_line(names.drop_last(), ", "@);
        lemma_one_line_sum(joined(names.drop_last(), ", "@), " and "@);
        lemma_one_line_sum(joined(names.drop_last(), ", "@) + " and "@, names.last());
    }
}

proof fn lemma_names_are_one_line(counts: Seq<(Seq<char>, nat)>)
    ensures
        is_one_line(listed(names_of(counts))),
{
    assert forall|i: int| 0 <= i < names_of(counts).len() implies is_one_line(
        #[trigger] names_of(counts)[i],
    ) by {
        folding_leaves_one_line(counts[i].0);
    }
    lemma_listed_is_one_line(names_of(counts));
}

proof fn lemma_tools_phrase_is_one_line(counts: Seq<(Seq<char>, nat)>)
    ensures
        is_one_line(tools_phrase(counts)),
{
    let ranked = busiest_first(counts);
    lemma_summary_words_are_one_line();
    lemma_names_are_one_line(ranked);
    if counts.len() > SUMMARY_MAX_NAMED_TOOLS {
        let top = names_of(ranked.take(SUMMARY_MAX_NAMED_TOOLS as int));
        let more = (counts.len() - SUMMARY_MAX_NAMED_TOOLS) as nat;
        lemma_names_are_one_line(ranked.take(SUMMARY_MAX_NAMED_TOOLS as int));
        lemma_decimal_is_one_line(more);
        lemma_one_line_sum(listed(top), " and "@);
        lemma_one_line_sum(listed(top) + " and "@, decimal(more));
        lemma_one_line_sum(listed(top) + " and "@ + decimal(more), " more"@);
    }
}

proof fn lemma_span_is_one_line(seconds: int)
    ensures
        span_text(seconds) is Some ==> is_one_line(span_text(seconds)->0),
{
    let minutes = seconds / 60;
    lemma_summary_words_are_one_line();
    if seconds > 0 {
        let hours = (minutes / 60) as nat;
        let rest = (minutes % 60) as nat;
        lemma_decimal_is_one_line(seconds as nat);
        lemma_decimal_is_one_line(minutes as nat);
        lemma_decimal_is_one_line(hours);
        lemma_decimal_is_one_line(rest);
        lemma_one_line_sum(decimal(seconds as nat), "s"@);
        lemma_one_line_sum(decimal(minutes as nat), "m"@);
        lemma_one_line_sum(decimal(hours), "h"@);
        lemma_one_line_sum(decimal(hours), "h "@);
        lemma_one_line_sum(decimal(hours) + "h "@, decimal(rest));
        lemma_one_line_sum(decimal(hours) + "h "@ + decimal(rest), "m"@);
    }
}

/// A summary is one line, whatever the session's tools and prompts are called.
pub proof fn a_summary_is_one_line(shape: SessionShape)
    ensures
        is_one_line(summary_text(shape)),
{
    let parts = summary_parts(shape);
    let prompts = shape.prompts.len();
    let calls = total_calls(shape.tool_counts);
    lemma_summary_words_are_one_line();
    assert forall|i: int| 0 <= i < prompts_part(shape).len() implies is_one_line(
        #[trigger] prompts_part(shape)[i],
    ) by {
        lemma_decimal_is_one_line(prompts);
        lemma_one_line_sum(decimal(prompts), " prompt"@);
        lemma_one_line_sum(decimal(prompts) + " prompt"@, plural_ending(prompts));
    }
    assert forall|i: int| 0 <= i < calls_part(shape).len() implies is_one_line(
        #[trigger] calls_part(shape)[i],
    ) by {
        let opening = decimal(calls) + " completed tool call"@;
        lemma_decimal_is_one_line(calls);
        lemma_tools_phrase_is_one_line(shape.tool_counts);
        lemma_one_line_sum(decimal(calls), " completed tool call"@);
        lemma_one_line_sum(opening, plural_ending(calls));
        lemma_one_line_sum(opening + plural_ending(calls), " across "@);
        lemma_one_line_sum(
            opening + plural_ending(calls) + " across "@,
            tools_phrase(shape.tool_counts),
        );
    }
    assert forall|i: int| 0 <= i < elapsed_part(shape).len() implies is_one_line(
        #[trigger] elapsed_part(shape)[i],
    ) by {
        let start = shape.start->0;
        let end = shape.end->0;
        lemma_span_is_one_line(end.created_at.spec_second() - start.created_at.spec_second());
        lemma_one_line_sum("over "@, elapsed(shape)->0);
    }
    assert forall|i: int| 0 <= i < parts.len() implies is_one_line(#[trigger] parts[i]) by {
        let first = prompts_part(shape).len();
        let second = calls_part(shape).len();
        if i < first {
            assert(parts[i] == prompts_part(shape)[i]);
        } else if i < first + second {
            assert(parts[i] == calls_part(shape)[i - first]);
        } else {
            assert(parts[i] == elapsed_part(shape)[i - first - second]);
        }
    }
    lemma_joined_is_one_line(parts, ", "@);
    lemma_one_line_sum(joined(parts, ", "@), "."@);
}

// ---------------------------------------------------------------------------
// Body
// ---------------------------------------------------------------------------

pub proof fn lemma_occurs_in_sum(a: Seq<char>, b: Seq<char>, part: Seq<char>)
    requires
        occurs_in(a, part) || occurs_in(b, part),
    ensures
        occurs_in(a + b, part),
{
    if occurs_in(a, part) {
        let at = choose|at: int| occurs_at(a, part, at);
        assert((a + b).subrange(at, at + part.len()) == a.subrange(at, at + part.len()));
        assert(occurs_at(a + b, part, at));
    } else {
        let at = choose|at: int| occurs_at(b, part, at);
        assert((a + b).subrange(a.len() + at, a.len() + at + part.len()) == b.subrange(
            at,
            at + part.len(),
        ));
        assert(occurs_at(a + b, part, a.len() + at));
    }
}

pub proof fn lemma_occurs_in_itself(part: Seq<char>)
    ensures
        occurs_in(part, part),
{
    assert(part.subrange(0, part.len() as int) == part);
    assert(occurs_at(part, part, 0));
}

proof fn lemma_raw_lines_list_all(observations: Seq<Observation>, i: int)
    requires
        0 <= i < observations.len(),
    ensures
        occurs_in(raw_lines(observations), raw_line(observations[i])),
    decreases observations.len(),
{
    if i == observations.len() - 1 {
        lemma_occurs_in_itself(raw_line(observations[i]));
    } else {
        lemma_raw_lines_list_all(observations.drop_last(), i);
        assert(observations.drop_last()[i] == observations[i]);
    }
    lemma_occurs_in_sum(
        raw_lines(observations.drop_last()),
        raw_line(observations.last()),
        raw_line(observations[i]),
    );
}

/// Whether the observation at `i` of `n` is listed: all are, up to a limit, and
/// beyond it those at the beginning and those at the end.
pub open spec fn is_listed(n: int, i: int) -> bool {
    n <= RAW_OBSERVATION_MAX_LINES || i < RAW_OBSERVATION_HEAD_LINES || i >= n
        - RAW_OBSERVATION_TAIL_LINES
}

proof fn lemma_raw_section_lists(observations: Seq<Observation>, i: int)
    requires
        0 <= i < observations.len(),
        is_listed(observations.len() as int, i),
    ensures
        occurs_in(raw_section(observations), raw_line(observations[i])),
{
    let n = observations.len();
    if n <= RAW_OBSERVATION_MAX_LINES {
        lemma_raw_lines_list_all(observations, i);
    } else {
        let head = observations.take(RAW_OBSERVATION_HEAD_LINES as int);
        let tail = observations.skip(n - RAW_OBSERVATION_TAIL_LINES);
        let note = omission_note(
            (n - RAW_OBSERVATION_HEAD_LINES - RAW_OBSERVATION_TAIL_LINES) as nat,
        );
        let line = raw_line(observations[i]);
        if i < RAW_OBSERVATION_HEAD_LINES {
            lemma_raw_lines_list_all(head, i);
            assert(head[i] == observations[i]);
            lemma_occurs_in_sum(raw_lines(head), note, line);
        } else {
            let k = i - (n - RAW_OBSERVATION_TAIL_LINES);
            lemma_raw_lines_list_all(tail, k);
            assert(tail[k] == observations[i]);
        }
        lemma_occurs_in_sum(raw_lines(head) + note, raw_lines(tail), line);
    }
}

/// What one of the four lists of a body holds, the body holds.
proof fn lemma_body_holds_its_sections(
    session_id: SessionId,
    observations: Seq<Observation>,
    title: Seq<char>,
    shape: SessionShape,
    part: Seq<char>,
)
    requires
        occurs_in(prompts_section(shape.prompts), part) || occurs_in(
            tools_section(shape.tool_counts),
            part,
        ) || occurs_in(raw_section(observations), part) || occurs_in(title, part),
    ensures
        occurs_in(body_text(session_id, observations, title, shape), part),
{
    let a = "# "@ + title;
    let b = a + "\n\n"@;
    let c = b + metadata_section(session_id, shape, observations.len());
    let d = c + prompts_section(shape.prompts);
    let e = d + tools_section(shape.tool_counts);
    let f = e + "## Raw observations\n\n"@;
    let g = f + raw_section(observations);
    let footer = "\n_Synthesised by ai-memory (M3, no-LLM heuristic)._\n"@;
    assert(g + footer == body_text(session_id, observations, title, shape));
    if occurs_in(title, part) {
        lemma_occurs_in_sum("# "@, title, part);
        lemma_occurs_in_sum(a, "\n\n"@, part);
        lemma_occurs_in_sum(b, metadata_section(session_id, shape, observations.len()), part);
    }
    if occurs_in(c, part) || occurs_in(prompts_section(shape.prompts), part) {
        lemma_occurs_in_sum(c, prompts_section(shape.prompts), part);
    }
    if occurs_in(d, part) || occurs_in(tools_section(shape.tool_counts), part) {
        lemma_occurs_in_sum(d, tools_section(shape.tool_counts), part);
    }
    if occurs_in(e, part) {
        lemma_occurs_in_sum(e, "## Raw observations\n\n"@, part);
    }
    lemma_occurs_in_sum(f, raw_section(observations), part);
    lemma_occurs_in_sum(g, footer, part);
}

/// The body lists every observation of a short session, and of a long one the
/// first and the last; how many it leaves out between them, it says.
pub proof fn a_body_lists_its_observations(
    session_id: SessionId,
    observations: Seq<Observation>,
    title: Seq<char>,
    shape: SessionShape,
)
    ensures
        forall|i: int|
            0 <= i < observations.len() && is_listed(observations.len() as int, i) ==> occurs_in(
                body_text(session_id, observations, title, shape),
                raw_line(#[trigger] observations[i]),
            ),
        observations.len() > RAW_OBSERVATION_MAX_LINES ==> occurs_in(
            body_text(session_id, observations, title, shape),
            omission_note((observations.len() - RAW_OBSERVATION_MAX_LINES) as nat),
        ),
{
    let body = body_text(session_id, observations, title, shape);
    assert forall|i: int|
        0 <= i < observations.len() && is_listed(
            observations.len() as int,
            i,
        ) implies occurs_in(body, raw_line(#[trigger] observations[i])) by {
        lemma_raw_section_lists(observations, i);
        lemma_body_holds_its_sections(
            session_id,
            observations,
            title,
            shape,
            raw_line(observations[i]),
        );
    }
    if observations.len() > RAW_OBSERVATION_MAX_LINES {
        let n = observations.len();
        let head = raw_lines(observations.take(RAW_OBSERVATION_HEAD_LINES as int));
        let tail = raw_lines(observations.skip(n - RAW_OBSERVATION_TAIL_LINES));
        let note = omission_note((n - RAW_OBSERVATION_MAX_LINES) as nat);
        lemma_occurs_in_itself(note);
        lemma_occurs_in_sum(head, note, note);
        lemma_occurs_in_sum(head + note, tail, note);
        lemma_body_holds_its_sections(session_id, observations, title, shape, note);
    }
}

proof fn lemma_tool_lines_list_all(counts: Seq<(Seq<char>, nat)>, i: int)
    requires
        0 <= i < counts.len(),
    ensures
        occurs_in(tool_lines(counts), tool_line(counts[i])),
    decreases counts.len(),
{
    let before = tool_lines(counts.drop_last());
    if i == counts.len() - 1 {
        lemma_occurs_in_itself(tool_line(counts[i]));
    } else {
        lemma_tool_lines_list_all(counts.drop_last(), i);
        assert(counts.drop_last()[i] == counts[i]);
    }
    lemma_occurs_in_sum(before, tool_line(counts.last()), tool_line(counts[i]));
}

proof fn lemma_numbered_lists_all(prompts: Seq<Observation>, i: int)
    requires
        0 <= i < prompts.len(),
    ensures
        occurs_in(numbered(prompts), prompt_line((i + 1) as nat, prompts[i])),
    decreases prompts.len(),
{
    let before = numbered(prompts.drop_last());
    let line = prompt_line((i + 1) as nat, prompts[i]);
    if i == prompts.len() - 1 {
        lemma_occurs_in_itself(line);
    } else {
        lemma_numbered_lists_all(prompts.drop_last(), i);
        assert(prompts.drop_last()[i] == prompts[i]);
    }
    lemma_occurs_in_sum(before, prompt_line(prompts.len(), prompts.last()), line);
}

/// The body gives every prompt under its number, and every tool with its calls.
pub proof fn a_body_gives_its_prompts_and_tools(
    session_id: SessionId,
    observations: Seq<Observation>,
    title: Seq<char>,
    shape: SessionShape,
)
    ensures
        forall|i: int|
            0 <= i < shape.prompts.len() ==> occurs_in(
                body_text(session_id, observations, title, shape),
                prompt_line((i + 1) as nat, #[trigger] shape.prompts[i]),
            ),
        forall|i: int|
            0 <= i < shape.tool_counts.len() ==> occurs_in(
                body_text(session_id, observations, title, shape),
                tool_line(#[trigger] shape.tool_counts[i]),
            ),
{
    let body = body_text(session_id, observations, title, shape);
    assert forall|i: int| 0 <= i < shape.prompts.len() implies occurs_in(
        body,
        prompt_line((i + 1) as nat, #[trigger] shape.prompts[i]),
    ) by {
        let line = prompt_line((i + 1) as nat, shape.prompts[i]);
        lemma_numbered_lists_all(shape.prompts, i);
        lemma_occurs_in_sum("## Prompts\n\n"@, numbered(shape.prompts), line);
        lemma_occurs_in_sum("## Prompts\n\n"@ + numbered(shape.prompts), "\n"@, line);
        lemma_body_holds_its_sections(session_id, observations, title, shape, line);
    }
    assert forall|i: int| 0 <= i < shape.tool_counts.len() implies occurs_in(
        body,
        tool_line(#[trigger] shape.tool_counts[i]),
    ) by {
        let line = tool_line(shape.tool_counts[i]);
        lemma_tool_lines_list_all(shape.tool_counts, i);
        lemma_occurs_in_sum("## Tool calls\n\n"@, tool_lines(shape.tool_counts), line);
        lemma_occurs_in_sum("## Tool calls\n\n"@ + tool_lines(shape.tool_counts), "\n"@, line);
        lemma_body_holds_its_sections(session_id, observations, title, shape, line);
    }
}

} // verus!
