//! The counts that describe a session.

use crate::observation::{Observation, ObservationKind};
use crate::order::lemma_sorted_listing;
use crate::text::{
    alphabetical, alphabetical_is_a_total_order, same_text, text_at_most, text_le,
};
use vstd::prelude::*;
use vstd::relations::{sorted_by, total_ordering};
use vstd::seq_lib::seq_to_set_is_finite;

verus! {

/// Whether an observation is of the given kind.
pub open spec fn of_kind(kind: ObservationKind) -> spec_fn(Observation) -> bool {
    |o: Observation| o.kind == kind
}

/// Whether an observation records a completed call of a tool that has a name.
pub open spec fn is_completed_call(o: Observation) -> bool {
    o.kind == ObservationKind::PostToolUse && o.title@.len() > 0
}

/// Whether an observation records a completed call of the tool `name`.
pub open spec fn is_call_to(name: Seq<char>) -> spec_fn(Observation) -> bool {
    |o: Observation| is_completed_call(o) && o.title@ == name
}

/// The completed calls among `observations`.
pub open spec fn completed_calls(observations: Seq<Observation>) -> Seq<Observation> {
    observations.filter(|o: Observation| is_completed_call(o))
}

/// How often the tool `name` was called to completion.
pub open spec fn calls_to(observations: Seq<Observation>, name: Seq<char>) -> nat {
    observations.filter(is_call_to(name)).len()
}

/// The names of the tools that were called to completion, each once, in
/// alphabetical order.
pub open spec fn tool_names(observations: Seq<Observation>) -> Seq<Seq<char>> {
    completed_calls(observations).map_values(|o: Observation| o.title@).to_set().to_sorted_seq(
        alphabetical(),
    )
}

/// The tools that were called to completion, in alphabetical order, each with
/// how often it was.
pub open spec fn tool_counts(observations: Seq<Observation>) -> Seq<(Seq<char>, nat)> {
    tool_names(observations).map_values(|name: Seq<char>| (name, calls_to(observations, name)))
}

/// All calls that a list of counts adds up to.
pub open spec fn total_calls(counts: Seq<(Seq<char>, nat)>) -> nat
    decreases counts.len(),
{
    if counts.len() == 0 {
        0
    } else {
        total_calls(counts.drop_last()) + counts.last().1
    }
}

/// What a session page says of its session.
pub struct SessionShape {
    /// Completed calls per tool, in alphabetical order.
    pub tool_counts: Seq<(Seq<char>, nat)>,
    /// User prompts in arrival order.
    pub prompts: Seq<Observation>,
    /// The first start, if the session recorded one.
    pub start: Option<Observation>,
    /// The last end, if the session recorded one.
    pub end: Option<Observation>,
}

/// The first observation of the given kind.
pub open spec fn first_of_kind(
    observations: Seq<Observation>,
    kind: ObservationKind,
) -> Option<Observation> {
    let found = observations.filter(of_kind(kind));
    if found.len() > 0 {
        Some(found.first())
    } else {
        None
    }
}

/// The last observation of the given kind.
pub open spec fn last_of_kind(
    observations: Seq<Observation>,
    kind: ObservationKind,
) -> Option<Observation> {
    let found = observations.filter(of_kind(kind));
    if found.len() > 0 {
        Some(found.last())
    } else {
        None
    }
}

/// What a page says of the session that `observations` were made in.
pub open spec fn session_shape(observations: Seq<Observation>) -> SessionShape {
    SessionShape {
        tool_counts: tool_counts(observations),
        prompts: observations.filter(of_kind(ObservationKind::UserPrompt)),
        start: first_of_kind(observations, ObservationKind::SessionStart),
        end: last_of_kind(observations, ObservationKind::SessionEnd),
    }
}

/// The texts and counts of a list of named counts.
pub open spec fn counts_view(counts: Seq<(&str, usize)>) -> Seq<(Seq<char>, nat)> {
    counts.map_values(|c: (&str, usize)| (c.0@, c.1 as nat))
}

/// Whether the names in `counts` stand in alphabetical order, each once.
pub open spec fn ascending(counts: Seq<(Seq<char>, nat)>) -> bool {
    forall|i: int, j: int|
        0 <= i < j < counts.len() ==> text_le(#[trigger] counts[i].0, #[trigger] counts[j].0)
            && counts[i].0 != counts[j].0
}

/// The per-session counts that both the body and the summary of a page are
/// built from.
pub struct SessionTally<'a> {
    /// Completed calls per tool name, in alphabetical order.
    tool_counts: Vec<(&'a str, usize)>,
    /// User prompts in arrival order.
    prompts: Vec<&'a Observation>,
    /// First start, if the session recorded one.
    start: Option<&'a Observation>,
    /// Last end, if the session recorded one.
    end: Option<&'a Observation>,
}

impl<'a> SessionTally<'a> {
    /// What the tally says.
    pub open spec fn shape(&self) -> SessionShape {
        SessionShape {
            tool_counts: self.counts(),
            prompts: self.prompt_list(),
            start: self.first_start(),
            end: self.last_end(),
        }
    }

    pub closed spec fn counts(&self) -> Seq<(Seq<char>, nat)> {
        counts_view(self.tool_counts@)
    }

    pub closed spec fn prompt_list(&self) -> Seq<Observation> {
        self.prompts@.map_values(|o: &Observation| *o)
    }

    pub closed spec fn first_start(&self) -> Option<Observation> {
        match self.start {
            Some(o) => Some(*o),
            None => None,
        }
    }

    pub closed spec fn last_end(&self) -> Option<Observation> {
        match self.end {
            Some(o) => Some(*o),
            None => None,
        }
    }

    /// The tools stand in alphabetical order, each once; every one was called, and
    /// the calls can be counted.
    #[verifier::type_invariant]
    spec fn well_formed(self) -> bool {
        &&& ascending(counts_view(self.tool_counts@))
        &&& total_calls(counts_view(self.tool_counts@)) <= usize::MAX
        &&& forall|i: int|
            0 <= i < self.tool_counts@.len() ==> (#[trigger] self.tool_counts@[i]).1 > 0
    }

    /// Completed calls per tool, in alphabetical order, each tool once; every tool
    /// has some.
    pub fn tool_counts(&self) -> (counts: &Vec<(&'a str, usize)>)
        ensures
            counts_view(counts@) == self.shape().tool_counts,
            ascending(self.shape().tool_counts),
            forall|i: int| 0 <= i < counts@.len() ==> (#[trigger] counts@[i]).1 > 0,
            total_calls(self.shape().tool_counts) <= usize::MAX,
    {
        proof {
            use_type_invariant(self);
        }
        &self.tool_counts
    }

    /// User prompts in arrival order.
    pub fn prompts(&self) -> (prompts: &Vec<&'a Observation>)
        ensures
            prompts@.map_values(|o: &Observation| *o) == self.shape().prompts,
    {
        &self.prompts
    }

    /// The first start, if the session recorded one.
    pub fn start(&self) -> (start: Option<&'a Observation>)
        ensures
            start is Some <==> self.shape().start is Some,
            start is Some ==> *start->0 == self.shape().start->0,
    {
        self.start
    }

    /// The last end, if the session recorded one.
    pub fn end(&self) -> (end: Option<&'a Observation>)
        ensures
            end is Some <==> self.shape().end is Some,
            end is Some ==> *end->0 == self.shape().end->0,
    {
        self.end
    }
}

/// Whether `counts` counts the completed calls among `observations`.
spec fn counts_calls(counts: Seq<(Seq<char>, nat)>, observations: Seq<Observation>) -> bool {
    &&& ascending(counts)
    &&& forall|i: int|
        0 <= i < counts.len() ==> (#[trigger] counts[i]).1 == calls_to(observations, counts[i].0)
            && counts[i].1 > 0
    &&& forall|k: int|
        0 <= k < observations.len() && is_completed_call(#[trigger] observations[k])
            ==> exists|i: int|
            0 <= i < counts.len() && (#[trigger] counts[i]).0 == observations[k].title@
}

/// One more observation adds one call to its own tool and none to others.
proof fn lemma_calls_to_push(observations: Seq<Observation>, o: Observation, name: Seq<char>)
    ensures
        calls_to(observations.push(o), name) == calls_to(observations, name) + if is_call_to(name)(
            o,
        ) {
            1nat
        } else {
            0
        },
        completed_calls(observations.push(o)).len() == completed_calls(observations).len()
            + if is_completed_call(o) {
            1nat
        } else {
            0
        },
{
    observations.lemma_filter_push(o, is_call_to(name));
    observations.lemma_filter_push(o, |o: Observation| is_completed_call(o));
}

/// A name is called for as often as an observation says so: at least once
/// exactly if some observation does.
proof fn lemma_calls_to_witness(observations: Seq<Observation>, name: Seq<char>)
    ensures
        calls_to(observations, name) > 0 <==> exists|k: int|
            0 <= k < observations.len() && is_call_to(name)(#[trigger] observations[k]),
    decreases observations.len(),
{
    if observations.len() > 0 {
        let before = observations.drop_last();
        let o = observations.last();
        lemma_calls_to_witness(before, name);
        assert(before.push(o) == observations);
        lemma_calls_to_push(before, o, name);
        if exists|k: int|
            0 <= k < observations.len() && is_call_to(name)(#[trigger] observations[k]) {
            let k = choose|k: int|
                0 <= k < observations.len() && is_call_to(name)(#[trigger] observations[k]);
            if k < before.len() {
                assert(is_call_to(name)(before[k]));
            }
        }
        if calls_to(before, name) > 0 {
            let k = choose|k: int| 0 <= k < before.len() && is_call_to(name)(#[trigger] before[k]);
            assert(is_call_to(name)(observations[k]));
        }
        if is_call_to(name)(o) {
            assert(is_call_to(name)(observations[observations.len() - 1]));
        }
    }
}

/// Adding to one count adds as much to the total.
proof fn lemma_total_update(counts: Seq<(Seq<char>, nat)>, at: int, entry: (Seq<char>, nat))
    requires
        0 <= at < counts.len(),
    ensures
        total_calls(counts.update(at, entry)) + counts[at].1 == total_calls(counts) + entry.1,
    decreases counts.len(),
{
    let changed = counts.update(at, entry);
    if at == counts.len() - 1 {
        assert(changed.drop_last() == counts.drop_last());
    } else {
        lemma_total_update(counts.drop_last(), at, entry);
        assert(changed.drop_last() == counts.drop_last().update(at, entry));
    }
}

/// A new count adds itself to the total.
proof fn lemma_total_insert(counts: Seq<(Seq<char>, nat)>, at: int, entry: (Seq<char>, nat))
    requires
        0 <= at <= counts.len(),
    ensures
        total_calls(counts.insert(at, entry)) == total_calls(counts) + entry.1,
    decreases counts.len(),
{
    let changed = counts.insert(at, entry);
    if at == counts.len() {
        assert(changed.drop_last() == counts);
    } else {
        lemma_total_insert(counts.drop_last(), at, entry);
        assert(changed.drop_last() == counts.drop_last().insert(at, entry));
    }
}

/// Counts in order that count the calls are the counts of the session.
proof fn lemma_counts_are_the_tool_counts(
    counts: Seq<(Seq<char>, nat)>,
    observations: Seq<Observation>,
)
    requires
        counts_calls(counts, observations),
    ensures
        counts == tool_counts(observations),
{
    let names = counts.map_values(|c: (Seq<char>, nat)| c.0);
    let calls = completed_calls(observations);
    let titles = calls.map_values(|o: Observation| o.title@);
    let completed = |o: Observation| is_completed_call(o);
    alphabetical_is_a_total_order();
    seq_to_set_is_finite(titles);
    assert(sorted_by(names, alphabetical())) by {
        assert forall|i: int, j: int| 0 <= i < j < names.len() implies #[trigger] alphabetical()(
            names[i],
            names[j],
        ) by {
            assert(text_le(counts[i].0, counts[j].0));
        }
    }
    assert(names.no_duplicates()) by {
        assert forall|i: int, j: int| 0 <= i < j < names.len() implies names[i] != names[j] by {
            assert(counts[i].0 != counts[j].0);
        }
    }
    assert forall|name: Seq<char>| names.contains(name) <==> #[trigger] titles.to_set().contains(
        name,
    ) by {
        if names.contains(name) {
            let i = choose|i: int| 0 <= i < names.len() && names[i] == name;
            assert(counts[i].1 > 0);
            lemma_calls_to_witness(observations, name);
            let k = choose|k: int|
                0 <= k < observations.len() && is_call_to(name)(#[trigger] observations[k]);
            assert(completed(observations[k]));
            observations.lemma_filter_contains(completed, k);
            assert(calls.contains(observations[k]));
            let m = choose|m: int| 0 <= m < calls.len() && calls[m] == observations[k];
            assert(titles[m] == name);
            assert(titles.contains(name));
        }
        if titles.to_set().contains(name) {
            assert(titles.contains(name));
            let m = choose|m: int| 0 <= m < titles.len() && titles[m] == name;
            observations.lemma_filter_pred(completed, m);
            assert(completed(calls[m]));
            observations.lemma_filter_contains_rev(completed, calls[m]);
            assert(observations.contains(calls[m]));
            let k = choose|k: int| 0 <= k < observations.len() && observations[k] == calls[m];
            assert(is_completed_call(observations[k]));
            let i = choose|i: int|
                0 <= i < counts.len() && (#[trigger] counts[i]).0 == observations[k].title@;
            assert(names[i] == name);
        }
    }
    lemma_sorted_listing(names, titles.to_set(), alphabetical());
    assert(names == tool_names(observations));
    assert forall|i: int| 0 <= i < counts.len() implies counts[i] == #[trigger] tool_counts(
        observations,
    )[i] by {
        assert(counts[i].1 == calls_to(observations, counts[i].0));
        assert(names[i] == counts[i].0);
    }
    assert(counts =~= tool_counts(observations));
}

/// Where `name` stands or belongs in `counts`: the entries before it come
/// earlier in the alphabet, and the one there, if any, does not.
fn place_of(counts: &Vec<(&str, usize)>, name: &str) -> (place: usize)
    requires
        ascending(counts_view(counts@)),
    ensures
        place <= counts@.len(),
        forall|k: int|
            0 <= k < place ==> text_le((#[trigger] counts_view(counts@)[k]).0, name@)
                && counts_view(counts@)[k].0 != name@,
        place < counts@.len() ==> text_le(name@, counts_view(counts@)[place as int].0),
{
    proof {
        alphabetical_is_a_total_order();
    }
    let ghost all = counts_view(counts@);
    let mut place: usize = 0;
    while place < counts.len()
        invariant
            place <= counts@.len(),
            all == counts_view(counts@),
            total_ordering(alphabetical()),
            forall|k: int| 0 <= k < place ==> text_le((#[trigger] all[k]).0, name@) && all[k].0 != name@,
        decreases counts@.len() - place,
    {
        assert(all[place as int].0 == counts@[place as int].0@);
        if text_at_most(name, counts[place].0) {
            return place;
        }
        proof {
            let le = alphabetical();
            assert(le(name@, all[place as int].0) || le(all[place as int].0, name@));
            assert(le(name@, name@));
        }
        place = place + 1;
    }
    place
}

/// A call of a tool already counted.
proof fn lemma_count_again(
    counts: Seq<(Seq<char>, nat)>,
    observations: Seq<Observation>,
    o: Observation,
    at: int,
)
    requires
        counts_calls(counts, observations),
        is_completed_call(o),
        0 <= at < counts.len(),
        counts[at].0 == o.title@,
    ensures
        counts_calls(counts.update(at, (o.title@, counts[at].1 + 1)), observations.push(o)),
{
    let changed = counts.update(at, (o.title@, counts[at].1 + 1));
    let grown = observations.push(o);
    assert forall|i: int| 0 <= i < changed.len() implies (#[trigger] changed[i]).1 == calls_to(
        grown,
        changed[i].0,
    ) && changed[i].1 > 0 by {
        lemma_calls_to_push(observations, o, changed[i].0);
        assert(counts[i].1 == calls_to(observations, counts[i].0));
        if i != at {
            assert(counts[i].0 != counts[at].0) by {
                if i < at {
                    assert(counts[i].0 != counts[at].0);
                } else {
                    assert(counts[at].0 != counts[i].0);
                }
            }
        }
    }
    assert forall|i: int, j: int| 0 <= i < j < changed.len() implies text_le(
        #[trigger] changed[i].0,
        #[trigger] changed[j].0,
    ) && changed[i].0 != changed[j].0 by {
        assert(changed[i].0 == counts[i].0);
        assert(changed[j].0 == counts[j].0);
    }
    assert forall|k: int| 0 <= k < grown.len() && is_completed_call(#[trigger] grown[k]) implies (
    exists|i: int| 0 <= i < changed.len() && (#[trigger] changed[i]).0 == grown[k].title@) by {
        if k < observations.len() {
            assert(grown[k] == observations[k]);
            let i = choose|i: int|
                0 <= i < counts.len() && (#[trigger] counts[i]).0 == observations[k].title@;
            assert(changed[i].0 == grown[k].title@);
        } else {
            assert(changed[at].0 == grown[k].title@);
        }
    }
}

/// The first call of a tool.
proof fn lemma_count_anew(
    counts: Seq<(Seq<char>, nat)>,
    observations: Seq<Observation>,
    o: Observation,
    at: int,
)
    requires
        counts_calls(counts, observations),
        is_completed_call(o),
        0 <= at <= counts.len(),
        forall|k: int|
            0 <= k < at ==> text_le((#[trigger] counts[k]).0, o.title@) && counts[k].0 != o.title@,
        at < counts.len() ==> text_le(o.title@, counts[at].0) && counts[at].0 != o.title@,
    ensures
        counts_calls(counts.insert(at, (o.title@, 1)), observations.push(o)),
{
    let name = o.title@;
    let changed = counts.insert(at, (name, 1));
    let grown = observations.push(o);
    let le = alphabetical();
    alphabetical_is_a_total_order();
    assert forall|k: int| at <= k < counts.len() implies text_le(name, (#[trigger] counts[k]).0)
        && counts[k].0 != name by {
        if k > at {
            assert(text_le(counts[at].0, counts[k].0));
            assert(le(name, counts[at].0) && le(counts[at].0, counts[k].0));
            assert(le(name, counts[k].0));
            if counts[k].0 == name {
                assert(le(counts[at].0, name) && le(name, counts[at].0));
            }
        }
    }
    assert forall|i: int, j: int| 0 <= i < j < changed.len() implies text_le(
        #[trigger] changed[i].0,
        #[trigger] changed[j].0,
    ) && changed[i].0 != changed[j].0 by {
        let from_i = if i < at {
            i
        } else {
            i - 1
        };
        let from_j = if j < at {
            j
        } else {
            j - 1
        };
        if i != at {
            assert(changed[i] == counts[from_i]);
        }
        if j != at {
            assert(changed[j] == counts[from_j]);
        }
        if i != at && j != at {
            assert(text_le(counts[from_i].0, counts[from_j].0));
        }
    }
    assert(calls_to(observations, name) == 0) by {
        lemma_calls_to_witness(observations, name);
        if calls_to(observations, name) > 0 {
            let k = choose|k: int|
                0 <= k < observations.len() && is_call_to(name)(#[trigger] observations[k]);
            assert(is_completed_call(observations[k]));
            let i = choose|i: int|
                0 <= i < counts.len() && (#[trigger] counts[i]).0 == observations[k].title@;
            assert(counts[i].0 == name);
        }
    }
    assert forall|i: int| 0 <= i < changed.len() implies (#[trigger] changed[i]).1 == calls_to(
        grown,
        changed[i].0,
    ) && changed[i].1 > 0 by {
        lemma_calls_to_push(observations, o, changed[i].0);
        if i != at {
            let from = if i < at {
                i
            } else {
                i - 1
            };
            assert(changed[i] == counts[from]);
            assert(counts[from].1 == calls_to(observations, counts[from].0));
        }
    }
    assert forall|k: int| 0 <= k < grown.len() && is_completed_call(#[trigger] grown[k]) implies (
    exists|i: int| 0 <= i < changed.len() && (#[trigger] changed[i]).0 == grown[k].title@) by {
        if k < observations.len() {
            assert(grown[k] == observations[k]);
            let i = choose|i: int|
                0 <= i < counts.len() && (#[trigger] counts[i]).0 == observations[k].title@;
            let to = if i < at {
                i
            } else {
                i + 1
            };
            assert(changed[to].0 == grown[k].title@);
        } else {
            assert(changed[at].0 == grown[k].title@);
        }
    }
}

/// An observation that is no completed call leaves the counts as they are.
proof fn lemma_count_nothing(
    counts: Seq<(Seq<char>, nat)>,
    observations: Seq<Observation>,
    o: Observation,
)
    requires
        counts_calls(counts, observations),
        !is_completed_call(o),
    ensures
        counts_calls(counts, observations.push(o)),
{
    let grown = observations.push(o);
    assert forall|i: int| 0 <= i < counts.len() implies (#[trigger] counts[i]).1 == calls_to(
        grown,
        counts[i].0,
    ) && counts[i].1 > 0 by {
        lemma_calls_to_push(observations, o, counts[i].0);
    }
    assert forall|k: int| 0 <= k < grown.len() && is_completed_call(#[trigger] grown[k]) implies (
    exists|i: int| 0 <= i < counts.len() && (#[trigger] counts[i]).0 == grown[k].title@) by {
        assert(grown[k] == observations[k]);
    }
}

/// Count one completed call of `o`'s tool.
fn count_call<'a>(
    counts: &mut Vec<(&'a str, usize)>,
    o: &'a Observation,
    Ghost(observations): Ghost<Seq<Observation>>,
)
    requires
        counts_calls(counts_view(old(counts)@), observations),
        total_calls(counts_view(old(counts)@)) == completed_calls(observations).len(),
        observations.len() < usize::MAX,
        is_completed_call(*o),
    ensures
        counts_calls(counts_view(final(counts)@), observations.push(*o)),
        total_calls(counts_view(final(counts)@)) == completed_calls(observations.push(*o)).len(),
{
    let name: &'a str = o.title.as_str();
    let place = place_of(counts, name);
    let ghost before = counts_view(counts@);
    proof {
        lemma_calls_to_push(observations, *o, name@);
    }
    if place < counts.len() && same_text(counts[place].0, name) {
        proof {
            assert(before[place as int].0 == name@);
            observations.lemma_filter_len(is_call_to(name@));
            lemma_count_again(before, observations, *o, place as int);
            lemma_total_update(before, place as int, (name@, before[place as int].1 + 1));
            assert(before[place as int].1 == calls_to(observations, name@));
        }
        let calls: usize = counts[place].1 + 1;
        counts.set(place, (name, calls));
        assert(counts_view(counts@) == before.update(
            place as int,
            (name@, before[place as int].1 + 1),
        ));
    } else {
        proof {
            if place < before.len() {
                assert(before[place as int].0 == counts@[place as int].0@);
            }
            lemma_count_anew(before, observations, *o, place as int);
            lemma_total_insert(before, place as int, (name@, 1));
        }
        counts.insert(place, (name, 1));
        assert(counts_view(counts@) == before.insert(place as int, (name@, 1)));
    }
}

/// Tally a session's observations once.
///
/// The body of a page and its summary are both built from the tally, so they
/// cannot describe the same session differently.
pub fn tally_session(observations: &[Observation]) -> (tally: SessionTally<'_>)
    ensures
        tally.shape() == session_shape(observations@),
{
    let mut tool_counts: Vec<(&str, usize)> = Vec::new();
    let mut prompts: Vec<&Observation> = Vec::new();
    let mut start: Option<&Observation> = None;
    let mut end: Option<&Observation> = None;
    let ghost prompt = of_kind(ObservationKind::UserPrompt);
    let ghost starts = of_kind(ObservationKind::SessionStart);
    let ghost ends = of_kind(ObservationKind::SessionEnd);
    let length = observations.len();
    let mut i: usize = 0;
    assert(observations@.take(0) == Seq::<Observation>::empty());
    while i < length
        invariant
            i <= length,
            length == observations@.len(),
            prompt == of_kind(ObservationKind::UserPrompt),
            starts == of_kind(ObservationKind::SessionStart),
            ends == of_kind(ObservationKind::SessionEnd),
            counts_calls(counts_view(tool_counts@), observations@.take(i as int)),
            total_calls(counts_view(tool_counts@)) == completed_calls(
                observations@.take(i as int),
            ).len(),
            prompts@.map_values(|o: &Observation| *o) == observations@.take(i as int).filter(
                prompt,
            ),
            (match start {
                Some(o) => Some(*o),
                None => None,
            }) == first_of_kind(observations@.take(i as int), ObservationKind::SessionStart),
            (match end {
                Some(o) => Some(*o),
                None => None,
            }) == last_of_kind(observations@.take(i as int), ObservationKind::SessionEnd),
        decreases observations@.len() - i,
    {
        let o = &observations[i];
        let ghost seen = observations@.take(i as int);
        proof {
            assert(observations@.take(i + 1) == seen.push(*o));
            seen.lemma_filter_push(*o, prompt);
            seen.lemma_filter_push(*o, starts);
            seen.lemma_filter_push(*o, ends);
            lemma_calls_to_push(seen, *o, o.title@);
            if !is_completed_call(*o) {
                lemma_count_nothing(counts_view(tool_counts@), seen, *o);
            }
            assert(seen.filter(starts).push(*o).first() == if seen.filter(starts).len() > 0 {
                seen.filter(starts).first()
            } else {
                *o
            });
        }
        match o.kind {
            ObservationKind::SessionStart => {
                if start.is_none() {
                    start = Some(o);
                }
            },
            ObservationKind::SessionEnd => {
                end = Some(o);
            },
            ObservationKind::UserPrompt => {
                let ghost earlier = prompts@;
                prompts.push(o);
                assert(prompts@.map_values(|o: &Observation| *o) == earlier.map_values(
                    |o: &Observation| *o,
                ).push(*o));
            },
            // Each call leaves an observation before and one after it; only the
            // one after it says that the call was completed.
            ObservationKind::PostToolUse => {
                if !o.title.as_str().is_empty() {
                    count_call(&mut tool_counts, o, Ghost(seen));
                }
            },
            ObservationKind::PreToolUse => {},
            ObservationKind::Other => {},
        }
        i = i + 1;
    }
    proof {
        assert(observations@.take(observations@.len() as int) == observations@);
        lemma_counts_are_the_tool_counts(counts_view(tool_counts@), observations@);
        observations@.lemma_filter_len(|o: Observation| is_completed_call(o));
        assert forall|i: int| 0 <= i < tool_counts@.len() implies (
        #[trigger] tool_counts@[i]).1 > 0 by {
            assert(counts_view(tool_counts@)[i].1 > 0);
        }
    }
    SessionTally { tool_counts, prompts, start, end }
}

// ---------------------------------------------------------------------------
// What holds of every tally
// ---------------------------------------------------------------------------

/// Where a name belongs in a list of counts.
proof fn lemma_place_exists(counts: Seq<(Seq<char>, nat)>, name: Seq<char>) -> (place: int)
    requires
        ascending(counts),
    ensures
        0 <= place <= counts.len(),
        forall|k: int|
            0 <= k < place ==> text_le((#[trigger] counts[k]).0, name) && counts[k].0 != name,
        place < counts.len() ==> text_le(name, counts[place].0),
    decreases counts.len(),
{
    if counts.len() == 0 {
        0
    } else {
        let before = counts.drop_last();
        assert(ascending(before)) by {
            assert forall|i: int, j: int| 0 <= i < j < before.len() implies text_le(
                #[trigger] before[i].0,
                #[trigger] before[j].0,
            ) && before[i].0 != before[j].0 by {
                assert(before[i] == counts[i] && before[j] == counts[j]);
            }
        }
        let place = lemma_place_exists(before, name);
        let last = counts.len() - 1;
        assert forall|k: int| 0 <= k < place implies text_le((#[trigger] counts[k]).0, name)
            && counts[k].0 != name by {
            assert(before[k] == counts[k]);
        }
        if place < last {
            assert(before[place] == counts[place]);
            place
        } else {
            let le = alphabetical();
            alphabetical_is_a_total_order();
            assert(le(name, counts[last].0) || le(counts[last].0, name));
            assert(le(name, name));
            if text_le(name, counts[last].0) {
                last
            } else {
                counts.len() as int
            }
        }
    }
}

/// The observations of a session can be counted, and the counts add up.
proof fn lemma_counts_exist(observations: Seq<Observation>) -> (counts: Seq<(Seq<char>, nat)>)
    ensures
        counts_calls(counts, observations),
        total_calls(counts) == completed_calls(observations).len(),
    decreases observations.len(),
{
    if observations.len() == 0 {
        assert(completed_calls(observations).len() == 0) by {
            reveal(Seq::filter);
        }
        Seq::empty()
    } else {
        let seen = observations.drop_last();
        let o = observations.last();
        let counts = lemma_counts_exist(seen);
        assert(seen.push(o) == observations);
        lemma_calls_to_push(seen, o, o.title@);
        if !is_completed_call(o) {
            lemma_count_nothing(counts, seen, o);
            counts
        } else {
            let place = lemma_place_exists(counts, o.title@);
            if place < counts.len() && counts[place].0 == o.title@ {
                lemma_count_again(counts, seen, o, place);
                lemma_total_update(counts, place, (o.title@, counts[place].1 + 1));
                counts.update(place, (o.title@, counts[place].1 + 1))
            } else {
                lemma_count_anew(counts, seen, o, place);
                lemma_total_insert(counts, place, (o.title@, 1));
                counts.insert(place, (o.title@, 1))
            }
        }
    }
}

/// The tool counts of a session name every tool that was called to completion,
/// no other, each once and in alphabetical order, with at least one call; and
/// they add up to the completed calls of the session.
pub proof fn tool_counts_are_complete(observations: Seq<Observation>)
    ensures
        total_calls(tool_counts(observations)) == completed_calls(observations).len(),
        forall|i: int, j: int|
            0 <= i < j < tool_counts(observations).len() ==> text_le(
                #[trigger] tool_counts(observations)[i].0,
                #[trigger] tool_counts(observations)[j].0,
            ) && tool_counts(observations)[i].0 != tool_counts(observations)[j].0,
        forall|i: int|
            0 <= i < tool_counts(observations).len() ==> (#[trigger] tool_counts(
                observations,
            )[i]).1 == calls_to(observations, tool_counts(observations)[i].0) && tool_counts(
                observations,
            )[i].1 > 0,
        forall|k: int|
            0 <= k < observations.len() && is_completed_call(#[trigger] observations[k])
                ==> tool_counts(observations).contains(
                (observations[k].title@, calls_to(observations, observations[k].title@)),
            ),
{
    let counts = lemma_counts_exist(observations);
    lemma_counts_are_the_tool_counts(counts, observations);
    assert forall|k: int|
        0 <= k < observations.len() && is_completed_call(
            #[trigger] observations[k],
        ) implies counts.contains(
        (observations[k].title@, calls_to(observations, observations[k].title@)),
    ) by {
        let i = choose|i: int|
            0 <= i < counts.len() && (#[trigger] counts[i]).0 == observations[k].title@;
        assert(counts[i] == (
            observations[k].title@,
            calls_to(observations, observations[k].title@),
        ));
    }
}

/// Whether an observation changes what a page says of its session: starts,
/// ends, prompts and completed calls do.
pub open spec fn shapes_the_session(o: Observation) -> bool {
    ||| o.kind == ObservationKind::SessionStart
    ||| o.kind == ObservationKind::SessionEnd
    ||| o.kind == ObservationKind::UserPrompt
    ||| is_completed_call(o)
}

/// Nothing but starts, ends, prompts and completed calls counts: any other
/// observation, such as that of a call that is about to run, leaves the tally
/// as it is, wherever in the session it was made.
pub proof fn other_observations_do_not_count(
    before: Seq<Observation>,
    o: Observation,
    after: Seq<Observation>,
)
    requires
        !shapes_the_session(o),
    ensures
        session_shape(before.push(o) + after) == session_shape(before + after),
{
    let completed = |o: Observation| is_completed_call(o);
    let whole = before.push(o) + after;
    let without = before + after;
    lemma_filter_skips(before, o, after, of_kind(ObservationKind::UserPrompt));
    lemma_filter_skips(before, o, after, of_kind(ObservationKind::SessionStart));
    lemma_filter_skips(before, o, after, of_kind(ObservationKind::SessionEnd));
    lemma_filter_skips(before, o, after, completed);
    assert(tool_names(whole) == tool_names(without));
    assert forall|name: Seq<char>| calls_to(whole, name) == #[trigger] calls_to(without, name) by {
        lemma_filter_skips(before, o, after, is_call_to(name));
    }
    assert(tool_counts(whole) =~= tool_counts(without));
}

proof fn lemma_filter_skips(
    before: Seq<Observation>,
    o: Observation,
    after: Seq<Observation>,
    wanted: spec_fn(Observation) -> bool,
)
    requires
        !wanted(o),
    ensures
        (before.push(o) + after).filter(wanted) == (before + after).filter(wanted),
{
    before.lemma_filter_push(o, wanted);
    Seq::filter_distributes_over_add(before.push(o), after, wanted);
    Seq::filter_distributes_over_add(before, after, wanted);
}

} // verus!
