//! The markdown body of a session page.

use crate::clock::{utc_strftime, Timestamp};
use crate::ids::{hyphenated, SessionId};
use crate::observation::Observation;
use crate::tally::{ascending, counts_view, SessionShape, SessionTally};
use crate::text::{cut, decimal, decimal_text, first_chars};
use vstd::prelude::*;

verus! {

/// How many raw observations a page lists before it leaves out the middle.
pub const RAW_OBSERVATION_MAX_LINES: usize = 500;

/// How many of the first observations stay when the middle is left out.
pub const RAW_OBSERVATION_HEAD_LINES: usize = 250;

/// How many of the last observations stay when the middle is left out.
pub const RAW_OBSERVATION_TAIL_LINES: usize = RAW_OBSERVATION_MAX_LINES
    - RAW_OBSERVATION_HEAD_LINES;

/// How many characters of a title a raw observation shows.
pub const RAW_OBSERVATION_TITLE_CHARS: usize = 80;

/// How a page writes an instant.
pub const TIME_FORMAT: &'static str = "%Y-%m-%dT%H:%M:%SZ";

/// An instant as a page writes it: in UTC, to the second.
pub open spec fn human_time(instant: Timestamp) -> Seq<char> {
    utc_strftime(instant.spec_second(), instant.spec_nanosecond(), TIME_FORMAT@)
}

/// An instant as a page writes it.
pub fn human_ts(ts: &Timestamp) -> (text: String)
    ensures
        text@ == human_time(*ts),
{
    ts.strftime(TIME_FORMAT)
}

/// What a page calls the kind of an observation: its label, and, where an
/// extension contributed the event under a name of its own, both of these.
pub open spec fn kind_text(o: Observation) -> Seq<char> {
    match (o.extension, o.source_event) {
        (Some(extension), Some(source_event)) => o.kind_label@ + " ["@ + extension@ + ":"@
            + source_event@ + "]"@,
        _ => o.kind_label@,
    }
}

/// What a page calls the kind of an observation.
pub fn observation_kind_label(obs: &Observation) -> (label: String)
    ensures
        label@ == kind_text(*obs),
{
    let mut label = obs.kind_label.clone();
    if let (Some(extension), Some(source_event)) = (&obs.extension, &obs.source_event) {
        label.append(" [");
        label.append(extension.as_str());
        label.append(":");
        label.append(source_event.as_str());
        label.append("]");
    }
    label
}

/// A line of a kind, a time and the beginning of a title.
pub open spec fn entry_line(kind: Seq<char>, time: Seq<char>, title: Seq<char>) -> Seq<char> {
    "- `"@ + kind + "` @ "@ + time + " — "@ + cut(title, RAW_OBSERVATION_TITLE_CHARS as nat)
        + "\n"@
}

/// The line that lists an observation: its kind, its time and the beginning of
/// its title.
pub open spec fn raw_line(o: Observation) -> Seq<char> {
    entry_line(kind_text(o), human_time(o.created_at), o.title@)
}

/// The lines that list some observations.
pub open spec fn raw_lines(observations: Seq<Observation>) -> Seq<char>
    decreases observations.len(),
{
    if observations.len() == 0 {
        Seq::empty()
    } else {
        raw_lines(observations.drop_last()) + raw_line(observations.last())
    }
}

/// The note that stands where observations were left out.
pub open spec fn omission_note(omitted: nat) -> Seq<char> {
    "\n_... "@ + decimal(omitted) + " raw observations omitted from the middle (showing first "@
        + decimal(RAW_OBSERVATION_HEAD_LINES as nat) + " and last "@ + decimal(
        RAW_OBSERVATION_TAIL_LINES as nat,
    ) + ")._\n\n"@
}

/// The list of a session's observations. A long one keeps its beginning and
/// its end.
pub open spec fn raw_section(observations: Seq<Observation>) -> Seq<char> {
    let n = observations.len();
    if n <= RAW_OBSERVATION_MAX_LINES {
        raw_lines(observations)
    } else {
        raw_lines(observations.take(RAW_OBSERVATION_HEAD_LINES as int)) + omission_note(
            (n - RAW_OBSERVATION_HEAD_LINES - RAW_OBSERVATION_TAIL_LINES) as nat,
        ) + raw_lines(observations.skip(n - RAW_OBSERVATION_TAIL_LINES))
    }
}

/// Append a line of a kind, a time and the beginning of a title.
pub fn render_entry(buf: &mut String, kind: &str, time: &str, title: &str)
    ensures
        final(buf)@ == old(buf)@ + entry_line(kind@, time@, title@),
{
    let mut line = "- `".to_string();
    line.append(kind);
    line.append("` @ ");
    line.append(time);
    line.append(" — ");
    line.append(first_chars(title, RAW_OBSERVATION_TITLE_CHARS));
    line.append("\n");
    buf.append(line.as_str());
}

/// Append the line that lists an observation.
pub fn render_raw_observation(buf: &mut String, obs: &Observation)
    ensures
        final(buf)@ == old(buf)@ + raw_line(*obs),
{
    let kind = observation_kind_label(obs);
    let time = human_ts(&obs.created_at);
    render_entry(buf, kind.as_str(), time.as_str(), obs.title.as_str());
}

/// Append the lines that list the observations from `from` up to `to`.
fn render_range(buf: &mut String, observations: &[Observation], from: usize, to: usize)
    requires
        from <= to <= observations@.len(),
    ensures
        final(buf)@ == old(buf)@ + raw_lines(observations@.subrange(from as int, to as int)),
{
    let ghost start = buf@;
    let mut i: usize = from;
    assert(observations@.subrange(from as int, from as int).len() == 0);
    while i < to
        invariant
            from <= i <= to <= observations@.len(),
            buf@ == start + raw_lines(observations@.subrange(from as int, i as int)),
        decreases to - i,
    {
        render_raw_observation(buf, &observations[i]);
        proof {
            let listed = observations@.subrange(from as int, i + 1);
            assert(listed.drop_last() == observations@.subrange(from as int, i as int));
            assert(listed.last() == observations@[i as int]);
        }
        i = i + 1;
    }
}

/// Append the list of a session's observations.
pub fn render_raw_observations(buf: &mut String, observations: &[Observation])
    ensures
        final(buf)@ == old(buf)@ + raw_section(observations@),
{
    let length = observations.len();
    if length <= RAW_OBSERVATION_MAX_LINES {
        render_range(buf, observations, 0, length);
        assert(observations@.subrange(0, length as int) == observations@);
        return ;
    }
    render_range(buf, observations, 0, RAW_OBSERVATION_HEAD_LINES);
    let omitted: usize = length - RAW_OBSERVATION_HEAD_LINES - RAW_OBSERVATION_TAIL_LINES;
    let mut note = "\n_... ".to_string();
    note.append(decimal_text(omitted as u64).as_str());
    note.append(" raw observations omitted from the middle (showing first ");
    note.append(decimal_text(RAW_OBSERVATION_HEAD_LINES as u64).as_str());
    note.append(" and last ");
    note.append(decimal_text(RAW_OBSERVATION_TAIL_LINES as u64).as_str());
    note.append(")._\n\n");
    buf.append(note.as_str());
    proof {
        let head = observations@.subrange(0, RAW_OBSERVATION_HEAD_LINES as int);
        assert(head == observations@.take(RAW_OBSERVATION_HEAD_LINES as int));
        assert(buf@ == old(buf)@ + raw_lines(head) + omission_note(omitted as nat));
    }
    render_range(buf, observations, length - RAW_OBSERVATION_TAIL_LINES, length);
    assert(observations@.subrange(length - RAW_OBSERVATION_TAIL_LINES, length as int)
        == observations@.skip(length - RAW_OBSERVATION_TAIL_LINES));
    assert(buf@ == old(buf)@ + raw_section(observations@));
}

/// The line of the metadata block that gives an instant, if there is one.
pub open spec fn time_line(label: Seq<char>, o: Option<Observation>) -> Seq<char> {
    match o {
        Some(o) => label + human_time(o.created_at) + "\n"@,
        None => Seq::empty(),
    }
}

/// The metadata block.
pub open spec fn metadata_section(
    session_id: SessionId,
    shape: SessionShape,
    observation_count: nat,
) -> Seq<char> {
    "## Session metadata\n\n"@ + "- **session_id:** `"@ + hyphenated(session_id.value) + "`\n"@
        + time_line("- **started_at:** "@, shape.start) + time_line("- **ended_at:** "@, shape.end)
        + "- **observations:** "@ + decimal(observation_count) + "\n\n"@
}

/// The line that gives one prompt.
pub open spec fn prompt_line(number: nat, prompt: Observation) -> Seq<char> {
    decimal(number) + ". "@ + prompt.title@ + "\n"@
}

/// The prompts, numbered from one.
pub open spec fn numbered(prompts: Seq<Observation>) -> Seq<char>
    decreases prompts.len(),
{
    if prompts.len() == 0 {
        Seq::empty()
    } else {
        numbered(prompts.drop_last()) + prompt_line(prompts.len(), prompts.last())
    }
}

/// The list of prompts, if there were any.
pub open spec fn prompts_section(prompts: Seq<Observation>) -> Seq<char> {
    if prompts.len() == 0 {
        Seq::empty()
    } else {
        "## Prompts\n\n"@ + numbered(prompts) + "\n"@
    }
}

/// The line that gives the calls of one tool.
pub open spec fn tool_line(count: (Seq<char>, nat)) -> Seq<char> {
    "- `"@ + count.0 + "`: "@ + decimal(count.1) + "\n"@
}

/// The tools with their counts, one to a line.
pub open spec fn tool_lines(counts: Seq<(Seq<char>, nat)>) -> Seq<char>
    decreases counts.len(),
{
    if counts.len() == 0 {
        Seq::empty()
    } else {
        tool_lines(counts.drop_last()) + tool_line(counts.last())
    }
}

/// The list of tool calls, if there were any.
pub open spec fn tools_section(counts: Seq<(Seq<char>, nat)>) -> Seq<char> {
    if counts.len() == 0 {
        Seq::empty()
    } else {
        "## Tool calls\n\n"@ + tool_lines(counts) + "\n"@
    }
}

/// The body of a session page.
pub open spec fn body_text(
    session_id: SessionId,
    observations: Seq<Observation>,
    title: Seq<char>,
    shape: SessionShape,
) -> Seq<char> {
    "# "@ + title + "\n\n"@ + metadata_section(session_id, shape, observations.len())
        + prompts_section(shape.prompts) + tools_section(shape.tool_counts)
        + "## Raw observations\n\n"@ + raw_section(observations)
        + "\n_Synthesised by ai-memory (M3, no-LLM heuristic)._\n"@
}

/// Append the line that gives an instant, if there is one.
fn render_time(buf: &mut String, label: &str, o: Option<&Observation>)
    ensures
        final(buf)@ == old(buf)@ + time_line(
            label@,
            match o {
                Some(o) => Some(*o),
                None => None,
            },
        ),
{
    if let Some(o) = o {
        buf.append(label);
        buf.append(human_ts(&o.created_at).as_str());
        buf.append("\n");
        assert(buf@ == old(buf)@ + time_line(label@, Some(*o)));
    }
}

/// Append the metadata block.
fn render_metadata(
    buf: &mut String,
    session_id: SessionId,
    observation_count: usize,
    tally: &SessionTally<'_>,
)
    ensures
        final(buf)@ == old(buf)@ + metadata_section(
            session_id,
            tally.shape(),
            observation_count as nat,
        ),
{
    let mut block = "## Session metadata\n\n".to_string();
    block.append("- **session_id:** `");
    block.append(session_id.text().as_str());
    block.append("`\n");
    render_time(&mut block, "- **started_at:** ", tally.start());
    render_time(&mut block, "- **ended_at:** ", tally.end());
    block.append("- **observations:** ");
    block.append(decimal_text(observation_count as u64).as_str());
    block.append("\n\n");
    buf.append(block.as_str());
}

/// Append the list of prompts, if there were any.
fn render_prompts(buf: &mut String, prompts: &Vec<&Observation>)
    ensures
        final(buf)@ == old(buf)@ + prompts_section(prompts@.map_values(|o: &Observation| *o)),
{
    let ghost all = prompts@.map_values(|o: &Observation| *o);
    if prompts.len() == 0 {
        return ;
    }
    buf.append("## Prompts\n\n");
    let ghost start = buf@;
    let mut i: usize = 0;
    while i < prompts.len()
        invariant
            i <= prompts.len(),
            all == prompts@.map_values(|o: &Observation| *o),
            buf@ == start + numbered(all.take(i as int)),
        decreases prompts@.len() - i,
    {
        let mut line = decimal_text(i as u64 + 1);
        line.append(". ");
        line.append(prompts[i].title.as_str());
        line.append("\n");
        buf.append(line.as_str());
        proof {
            assert(line@ == prompt_line((i + 1) as nat, all[i as int]));
            assert(all.take(i + 1).drop_last() == all.take(i as int));
            assert(buf@ == start + numbered(all.take(i + 1)));
        }
        i = i + 1;
    }
    assert(all.take(all.len() as int) == all);
    buf.append("\n");
    assert(buf@ == old(buf)@ + prompts_section(all));
}

/// Append the list of tool calls, if there were any.
fn render_tools(buf: &mut String, counts: &Vec<(&str, usize)>)
    ensures
        final(buf)@ == old(buf)@ + tools_section(counts_view(counts@)),
{
    let ghost all = counts_view(counts@);
    if counts.len() == 0 {
        return ;
    }
    buf.append("## Tool calls\n\n");
    let ghost start = buf@;
    let mut i: usize = 0;
    while i < counts.len()
        invariant
            i <= counts@.len(),
            all == counts_view(counts@),
            buf@ == start + tool_lines(all.take(i as int)),
        decreases counts@.len() - i,
    {
        let mut line = "- `".to_string();
        line.append(counts[i].0);
        line.append("`: ");
        line.append(decimal_text(counts[i].1 as u64).as_str());
        line.append("\n");
        buf.append(line.as_str());
        proof {
            assert(line@ == tool_line(all[i as int]));
            assert(all.take(i + 1).drop_last() == all.take(i as int));
            assert(buf@ == start + tool_lines(all.take(i + 1)));
        }
        i = i + 1;
    }
    assert(all.take(all.len() as int) == all);
    buf.append("\n");
    assert(buf@ == old(buf)@ + tools_section(all));
}

/// The body of a session page. It lists the tools in alphabetical order, each
/// once.
pub fn render_body(
    session_id: SessionId,
    observations: &[Observation],
    title: &str,
    tally: &SessionTally<'_>,
) -> (body: String)
    ensures
        body@ == body_text(session_id, observations@, title@, tally.shape()),
        ascending(tally.shape().tool_counts),
{
    let mut buf = String::new();
    buf.append("# ");
    buf.append(title);
    buf.append("\n\n");
    render_metadata(&mut buf, session_id, observations.len(), tally);
    render_prompts(&mut buf, tally.prompts());
    render_tools(&mut buf, tally.tool_counts());
    buf.append("## Raw observations\n\n");
    render_raw_observations(&mut buf, observations);
    buf.append("\n_Synthesised by ai-memory (M3, no-LLM heuristic)._\n");
    buf
}

} // verus!
