//! The history of the wiki, and what the `git` command prints of it.

use crate::git_message::{message_summary, summary_of};
use crate::text::{
    count_of, decimal, decimal_reads_back, is_digit, join_texts, joined, lemma_not_in_sum,
    parse_count, parse_signed, signed_of, split_on, split_pieces_join_back,
    split_takes_the_first_piece, split_text, trim_text, trimmed, views,
};
use vstd::prelude::*;
use vstd::utf8::{
    decode_utf8, encode_utf8, encode_utf8_decode_utf8, encode_utf8_valid_utf8, valid_utf8,
};

verus! {

/// The text that `String::from_utf8_lossy` makes of some bytes.
pub uninterp spec fn utf8_lossy(bytes: Seq<u8>) -> Seq<char>;

/// `String::from_utf8_lossy`: the text that the bytes encode, with a
/// replacement character where they encode none. The text is a function of the
/// bytes.
#[verifier::external_body]
fn lossy_text(bytes: &Vec<u8>) -> (text: String)
    ensures
        text@ == utf8_lossy(bytes@),
        valid_utf8(bytes@) ==> text@ == decode_utf8(bytes@),
{
    String::from_utf8_lossy(bytes).into_owned()
}

/// The text of what a command printed: what the bytes encode, or, where they do
/// not encode a text, what is left of one.
pub open spec fn printed_text(bytes: Seq<u8>) -> Seq<char> {
    if valid_utf8(bytes) {
        decode_utf8(bytes)
    } else {
        utf8_lossy(bytes)
    }
}

/// The text of what a command printed.
pub fn text_of_bytes(bytes: &Vec<u8>) -> (text: String)
    ensures
        text@ == printed_text(bytes@),
{
    lossy_text(bytes)
}

/// One git checkpoint in the wiki repository.
#[derive(Debug)]
pub struct Checkpoint {
    /// Full commit OID.
    pub oid: String,
    /// Commit summary (first line of the commit message).
    pub summary: String,
    /// Author timestamp, seconds since Unix epoch.
    pub time: i64,
}

impl Clone for Checkpoint {
    fn clone(&self) -> (copy: Self)
        ensures
            copy == *self,
    {
        Checkpoint { oid: self.oid.clone(), summary: self.summary.clone(), time: self.time }
    }
}

/// What a checkpoint says.
pub struct CheckpointView {
    pub oid: Seq<char>,
    pub summary: Seq<char>,
    pub time: int,
}

impl View for Checkpoint {
    type V = CheckpointView;

    open spec fn view(&self) -> CheckpointView {
        CheckpointView { oid: self.oid@, summary: self.summary@, time: self.time as int }
    }
}

/// What a list of checkpoints says.
pub open spec fn checkpoint_views(checkpoints: Seq<Checkpoint>) -> Seq<CheckpointView> {
    checkpoints.map_values(|c: Checkpoint| c@)
}

/// What stands for the summary of a commit that has none.
pub const NO_SUMMARY: &'static str = "(no summary)";

/// The character between the fields of a record of the log.
pub const FIELD_SEPARATOR: char = '\u{1f}';

/// The character that ends a record of the log. No message holds it.
pub const RECORD_END: char = '\0';

/// The message in a record of the log: all from the third field on. A separator
/// in it is part of it.
pub open spec fn message_field(fields: Seq<Seq<char>>) -> Seq<char> {
    joined(fields.skip(2), seq![FIELD_SEPARATOR])
}

/// A record of the log: the commit, the time of its author, and its message.
/// Records of fewer fields are not of a commit. A time that is no number counts
/// as zero.
pub open spec fn checkpoint_of_record(record: Seq<char>) -> Option<CheckpointView> {
    let fields = split_on(record, FIELD_SEPARATOR);
    if fields.len() < 3 {
        None
    } else {
        Some(
            CheckpointView {
                oid: fields[0],
                summary: named_summary(summary_of(message_field(fields))),
                time: match signed_of(fields[1]) {
                    Some(time) => time,
                    None => 0,
                },
            },
        )
    }
}

/// A summary as it is shown: a missing one is named as such.
pub open spec fn named_summary(summary: Seq<char>) -> Seq<char> {
    if summary.len() == 0 {
        NO_SUMMARY@
    } else {
        summary
    }
}

/// The checkpoints of a log, in its order.
pub open spec fn checkpoints_of_log(text: Seq<char>) -> Seq<CheckpointView> {
    split_on(text, RECORD_END).filter_map(|record: Seq<char>| checkpoint_of_record(record))
}

/// Read one record of the log.
fn parse_record(record: &str) -> (checkpoint: Option<Checkpoint>)
    ensures
        checkpoint is Some <==> checkpoint_of_record(record@) is Some,
        checkpoint is Some ==> checkpoint->0@ == checkpoint_of_record(record@)->0,
{
    let fields = split_text(record, FIELD_SEPARATOR);
    let ghost pieces = split_on(record@, FIELD_SEPARATOR);
    let length = fields.len();
    assert(views(fields@).len() == fields@.len());
    if length < 3 {
        return None;
    }
    assert(fields@[0]@ == pieces[0] && fields@[1]@ == pieces[1]);
    let mut rest: Vec<String> = Vec::new();
    let mut i: usize = 2;
    while i < length
        invariant
            2 <= i <= length,
            length == fields@.len(),
            pieces == views(fields@),
            views(rest@) == pieces.subrange(2, i as int),
        decreases length - i,
    {
        let ghost earlier = rest@;
        let field = fields[i].clone();
        rest.push(field);
        proof {
            assert(views(rest@) == views(earlier).push(field@));
            assert(pieces.subrange(2, i + 1) == pieces.subrange(2, i as int).push(
                pieces[i as int],
            ));
        }
        i = i + 1;
    }
    assert(pieces.subrange(2, length as int) == pieces.skip(2));
    let mut separator = String::new();
    separator.push(FIELD_SEPARATOR);
    assert(separator@ == seq![FIELD_SEPARATOR]);
    let message = join_texts(&rest, separator.as_str());
    let first = message_summary(message.as_str());
    let summary = if first.as_str().is_empty() {
        NO_SUMMARY.to_string()
    } else {
        first
    };
    let time = match parse_signed(fields[1].as_str()) {
        Some(time) => time,
        None => 0,
    };
    Some(Checkpoint { oid: fields[0].clone(), summary, time })
}

/// Read the log that `git` printed.
pub fn parse_log(text: &str) -> (checkpoints: Vec<Checkpoint>)
    ensures
        checkpoint_views(checkpoints@) == checkpoints_of_log(text@),
{
    let records = split_text(text, RECORD_END);
    let ghost all = split_on(text@, RECORD_END);
    let ghost read = |record: Seq<char>| checkpoint_of_record(record);
    let mut checkpoints: Vec<Checkpoint> = Vec::new();
    let mut i: usize = 0;
    assert(all.take(0).filter_map(read) == Seq::<CheckpointView>::empty());
    while i < records.len()
        invariant
            i <= records@.len(),
            all == views(records@),
            read == (|record: Seq<char>| checkpoint_of_record(record)),
            checkpoint_views(checkpoints@) == all.take(i as int).filter_map(read),
        decreases records@.len() - i,
    {
        let ghost earlier = checkpoints@;
        assert(records@[i as int]@ == all[i as int]);
        assert(all.take(i + 1).drop_last() == all.take(i as int));
        assert(all.take(i + 1).last() == all[i as int]);
        if let Some(checkpoint) = parse_record(records[i].as_str()) {
            checkpoints.push(checkpoint);
            assert(checkpoint_views(checkpoints@) == checkpoint_views(earlier).push(checkpoint@));
            assert(all.take(i + 1).filter_map(read) == all.take(i as int).filter_map(read) + seq![
                checkpoint@,
            ]);
        }
        i = i + 1;
    }
    assert(all.take(all.len() as int) == all);
    checkpoints
}

/// The number of commits that `git` printed; zero where it printed none.
pub open spec fn printed_count(text: Seq<char>) -> nat {
    match count_of(trimmed(text)) {
        Some(count) => count,
        None => 0,
    }
}

/// Read the number of commits that `git` printed.
pub fn parse_printed_count(text: &str) -> (count: usize)
    ensures
        count == printed_count(text@),
{
    match parse_count(trim_text(text)) {
        Some(count) => count,
        None => 0,
    }
}

// ---------------------------------------------------------------------------
// What holds of every log
// ---------------------------------------------------------------------------

/// A signed number in decimal.
pub open spec fn signed_decimal(n: int) -> Seq<char> {
    if n < 0 {
        seq!['-'] + decimal((-n) as nat)
    } else {
        decimal(n as nat)
    }
}

/// A commit as the log has it.
pub struct LoggedCommit {
    pub oid: Seq<char>,
    pub time: int,
    pub message: Seq<char>,
}

/// A record of the log as `git` writes it.
pub open spec fn log_record(c: LoggedCommit) -> Seq<char> {
    c.oid.push(FIELD_SEPARATOR) + (signed_decimal(c.time).push(FIELD_SEPARATOR) + c.message)
}

/// A log as `git` writes it: a record for each commit.
pub open spec fn log_text(commits: Seq<LoggedCommit>) -> Seq<char>
    decreases commits.len(),
{
    if commits.len() == 0 {
        Seq::empty()
    } else {
        log_record(commits.first()).push(RECORD_END) + log_text(commits.drop_first())
    }
}

/// Whether a commit can stand in the log: no separator in its name, no end of a
/// record in its name and its message, and a time that fits.
pub open spec fn is_loggable(c: LoggedCommit) -> bool {
    &&& !c.oid.contains(FIELD_SEPARATOR) && !c.oid.contains(RECORD_END)
    &&& !c.message.contains(RECORD_END)
    &&& i64::MIN <= c.time <= i64::MAX
}

/// A commit as it comes out of the log: with the first line of its message.
pub open spec fn as_read(c: LoggedCommit) -> CheckpointView {
    CheckpointView {
        oid: c.oid,
        summary: named_summary(summary_of(c.message)),
        time: c.time,
    }
}

/// A signed number reads back, and holds neither separator nor end of record.
proof fn lemma_signed_decimal_reads_back(n: int)
    requires
        i64::MIN <= n <= i64::MAX,
    ensures
        signed_of(signed_decimal(n)) == Some(n),
        !signed_decimal(n).contains(FIELD_SEPARATOR),
        !signed_decimal(n).contains(RECORD_END),
{
    let text = signed_decimal(n);
    let magnitude = if n < 0 {
        (-n) as nat
    } else {
        n as nat
    };
    let digits = decimal(magnitude);
    decimal_reads_back(magnitude);
    assert(is_digit(digits[0]));
    assert(is_digit(digits[digits.len() - 1]));
    if n < 0 {
        assert(text.skip(1) == digits);
    }
    assert forall|c: char| !is_digit(c) && c != '-' implies !#[trigger] text.contains(c) by {
        if text.contains(c) {
            let i = choose|i: int| 0 <= i < text.len() && text[i] == c;
            if n < 0 && i > 0 {
                assert(text[i] == digits[i - 1]);
            }
        }
    }
    assert(!is_digit(FIELD_SEPARATOR) && !is_digit(RECORD_END));
}

/// A record of the log reads back as the commit it was written from.
proof fn lemma_log_record_reads_back(c: LoggedCommit)
    requires
        is_loggable(c),
    ensures
        checkpoint_of_record(log_record(c)) == Some(as_read(c)),
        !log_record(c).contains(RECORD_END),
{
    let time = signed_decimal(c.time);
    let record = log_record(c);
    let pieces = split_on(c.message, FIELD_SEPARATOR);
    lemma_signed_decimal_reads_back(c.time);
    split_takes_the_first_piece(time, c.message, FIELD_SEPARATOR);
    split_takes_the_first_piece(c.oid, time.push(FIELD_SEPARATOR) + c.message, FIELD_SEPARATOR);
    split_pieces_join_back(c.message, FIELD_SEPARATOR);
    let fields = split_on(record, FIELD_SEPARATOR);
    assert(fields == seq![c.oid] + (seq![time] + pieces));
    assert(fields[0] == c.oid && fields[1] == time);
    assert(fields.skip(2) == pieces);
    let bar = seq![FIELD_SEPARATOR];
    assert(!bar.contains(RECORD_END));
    lemma_not_in_sum(c.oid, bar, RECORD_END);
    assert(c.oid + bar == c.oid.push(FIELD_SEPARATOR));
    lemma_not_in_sum(time, bar, RECORD_END);
    assert(time + bar == time.push(FIELD_SEPARATOR));
    lemma_not_in_sum(time.push(FIELD_SEPARATOR), c.message, RECORD_END);
    lemma_not_in_sum(
        c.oid.push(FIELD_SEPARATOR),
        time.push(FIELD_SEPARATOR) + c.message,
        RECORD_END,
    );
}

/// Reading a list with something in front of it.
proof fn lemma_filter_map_first(
    first: Seq<char>,
    rest: Seq<Seq<char>>,
    read: spec_fn(Seq<char>) -> Option<CheckpointView>,
)
    requires
        read(first) is Some,
    ensures
        (seq![first] + rest).filter_map(read) == seq![read(first)->0] + rest.filter_map(read),
    decreases rest.len(),
{
    let whole = seq![first] + rest;
    if rest.len() == 0 {
        assert(whole.drop_last() == Seq::<Seq<char>>::empty());
        assert(whole.drop_last().filter_map(read) == Seq::<CheckpointView>::empty());
        assert(whole.last() == first);
        assert(rest.filter_map(read) == Seq::<CheckpointView>::empty());
    } else {
        lemma_filter_map_first(first, rest.drop_last(), read);
        assert(whole.drop_last() == seq![first] + rest.drop_last());
        assert(whole.last() == rest.last());
    }
}

/// The log reads back: what is read from a log is what was written to it, in
/// the same order, with the first line of each message. A message may hold
/// anything that a commit can hold. The bytes that the command prints of it are
/// read as that log.
pub proof fn log_reads_back(commits: Seq<LoggedCommit>)
    requires
        forall|i: int| 0 <= i < commits.len() ==> is_loggable(#[trigger] commits[i]),
    ensures
        checkpoints_of_log(log_text(commits)) == commits.map_values(|c: LoggedCommit| as_read(c)),
        printed_text(encode_utf8(log_text(commits))) == log_text(commits),
    decreases commits.len(),
{
    encode_utf8_valid_utf8(log_text(commits));
    encode_utf8_decode_utf8(log_text(commits));
    let read = |record: Seq<char>| checkpoint_of_record(record);
    let all = commits.map_values(|c: LoggedCommit| as_read(c));
    if commits.len() == 0 {
        let none = Seq::<char>::empty();
        assert(log_text(commits) == none);
        assert(split_on(none, FIELD_SEPARATOR) == seq![none]);
        let pieces = split_on(none, RECORD_END);
        assert(pieces == seq![none]);
        assert(pieces.drop_last() == Seq::<Seq<char>>::empty());
        assert(pieces.drop_last().filter_map(read) == Seq::<CheckpointView>::empty());
        assert(read(pieces.last()) is None);
        assert(all == Seq::<CheckpointView>::empty());
    } else {
        let first = commits.first();
        let rest = commits.drop_first();
        assert(is_loggable(commits[0]));
        assert forall|i: int| 0 <= i < rest.len() implies is_loggable(#[trigger] rest[i]) by {
            assert(rest[i] == commits[i + 1]);
        }
        log_reads_back(rest);
        lemma_log_record_reads_back(first);
        split_takes_the_first_piece(log_record(first), log_text(rest), RECORD_END);
        lemma_filter_map_first(log_record(first), split_on(log_text(rest), RECORD_END), read);
        assert(all == seq![as_read(first)] + rest.map_values(|c: LoggedCommit| as_read(c)));
    }
}

} // verus!
