//! The summary of a commit: the first line of its message.
//!
//! The git library hands a message out as bytes, and the `git` command prints it
//! as text; both are cut alike. Line breaks in front of a message are no part of
//! it, and white space at the end of its first line is no part of the summary.

use crate::text::chars_of;
use vstd::prelude::*;
use vstd::utf8::{
    decode_utf8, encode_scalar, encode_utf8, encode_utf8_decode_utf8, encode_utf8_valid_utf8,
    leading_byte_width_1, valid_utf8,
};

verus! {

/// `String::from_utf8`: the text that the bytes encode, if they encode one.
#[verifier::external_body]
fn utf8_text(bytes: Vec<u8>) -> (text: Option<String>)
    ensures
        text is Some <==> valid_utf8(bytes@),
        text is Some ==> text->0@ == decode_utf8(bytes@),
{
    String::from_utf8(bytes).ok()
}

/// The byte that encodes a line feed.
pub const LINE_FEED: u8 = 10;

/// What stands in `items` before the first `mark`.
pub open spec fn before<A>(items: Seq<A>, mark: A) -> Seq<A>
    decreases items.len(),
{
    if items.len() == 0 || items[0] == mark {
        Seq::empty()
    } else {
        seq![items[0]] + before(items.drop_first(), mark)
    }
}

/// `items` without the marks that stand in front.
pub open spec fn after_leading<A>(items: Seq<A>, mark: A) -> Seq<A>
    decreases items.len(),
{
    if items.len() > 0 && items[0] == mark {
        after_leading(items.drop_first(), mark)
    } else {
        items
    }
}

/// The first line of a message.
pub open spec fn first_line(message: Seq<char>) -> Seq<char> {
    before(after_leading(message, '\n'), '\n')
}

/// The first line of a message that is given in bytes.
pub open spec fn first_line_bytes(message: Seq<u8>) -> Seq<u8> {
    before(after_leading(message, LINE_FEED), LINE_FEED)
}

/// Whether `c` is white space to git: a space, a tab, a form feed, a vertical
/// tab or a carriage return.
pub open spec fn is_blank(c: char) -> bool {
    c == ' ' || c == '\t' || c == '\u{b}' || c == '\u{c}' || c == '\r'
}

/// `line` without the white space at its end.
pub open spec fn without_blank_end(line: Seq<char>) -> Seq<char>
    decreases line.len(),
{
    if line.len() > 0 && is_blank(line.last()) {
        without_blank_end(line.drop_last())
    } else {
        line
    }
}

/// The summary of a commit with the given message.
pub open spec fn summary_of(message: Seq<char>) -> Seq<char> {
    without_blank_end(first_line(message))
}

/// The summary of a commit whose message is given in bytes. There is none if the
/// first line encodes no text.
pub open spec fn summary_of_bytes(message: Seq<u8>) -> Option<Seq<char>> {
    let line = first_line_bytes(message);
    if valid_utf8(line) {
        Some(without_blank_end(decode_utf8(line)))
    } else {
        None
    }
}

/// `line` without the white space at its end.
fn trim_blank_end(line: &str) -> (trimmed: &str)
    ensures
        trimmed@ == without_blank_end(line@),
{
    let chars = chars_of(line);
    let mut to: usize = chars.len();
    assert(line@.take(to as int) == line@);
    while to > 0 && (chars[to - 1] == ' ' || chars[to - 1] == '\t' || chars[to - 1] == '\u{b}'
        || chars[to - 1] == '\u{c}' || chars[to - 1] == '\r')
        invariant
            to <= chars@.len(),
            chars@ == line@,
            without_blank_end(line@) == without_blank_end(line@.take(to as int)),
        decreases to,
    {
        assert(line@.take(to as int).drop_last() == line@.take(to - 1));
        to = to - 1;
    }
    line.substring_char(0, to)
}

/// The summary of a commit with the given message.
pub fn message_summary(message: &str) -> (summary: String)
    ensures
        summary@ == summary_of(message@),
{
    let chars = chars_of(message);
    let mut from: usize = 0;
    assert(message@.skip(0) == message@);
    while from < chars.len() && chars[from] == '\n'
        invariant
            from <= chars@.len(),
            chars@ == message@,
            after_leading(message@, '\n') == after_leading(message@.skip(from as int), '\n'),
        decreases chars@.len() - from,
    {
        assert(message@.skip(from as int).drop_first() == message@.skip(from + 1));
        from = from + 1;
    }
    let ghost body = message@.skip(from as int);
    assert(after_leading(message@, '\n') == body);
    let mut to: usize = from;
    assert(message@.subrange(from as int, to as int) + body == body);
    while to < chars.len() && chars[to] != '\n'
        invariant
            from <= to <= chars@.len(),
            chars@ == message@,
            before(body, '\n') == message@.subrange(from as int, to as int) + before(
                message@.skip(to as int),
                '\n',
            ),
        decreases chars@.len() - to,
    {
        let ghost rest = message@.skip(to as int);
        assert(rest.drop_first() == message@.skip(to + 1));
        assert(message@.subrange(from as int, to + 1) == message@.subrange(from as int, to as int)
            + seq![rest[0]]);
        to = to + 1;
    }
    assert(before(message@.skip(to as int), '\n') == Seq::<char>::empty());
    let line = message.substring_char(from, to);
    assert(line@ == first_line(message@));
    trim_blank_end(line).to_string()
}

/// The first line of a message that is given in bytes.
fn line_bytes(message: &Vec<u8>) -> (line: Vec<u8>)
    ensures
        line@ == first_line_bytes(message@),
{
    let mut from: usize = 0;
    assert(message@.skip(0) == message@);
    while from < message.len() && message[from] == LINE_FEED
        invariant
            from <= message@.len(),
            after_leading(message@, LINE_FEED) == after_leading(
                message@.skip(from as int),
                LINE_FEED,
            ),
        decreases message@.len() - from,
    {
        assert(message@.skip(from as int).drop_first() == message@.skip(from + 1));
        from = from + 1;
    }
    let ghost body = message@.skip(from as int);
    assert(after_leading(message@, LINE_FEED) == body);
    let mut line: Vec<u8> = Vec::new();
    let mut to: usize = from;
    assert(line@ + before(body, LINE_FEED) == before(body, LINE_FEED));
    while to < message.len() && message[to] != LINE_FEED
        invariant
            from <= to <= message@.len(),
            before(body, LINE_FEED) == line@ + before(message@.skip(to as int), LINE_FEED),
        decreases message@.len() - to,
    {
        let ghost rest = message@.skip(to as int);
        let ghost earlier = line@;
        assert(rest.drop_first() == message@.skip(to + 1));
        line.push(message[to]);
        assert(line@ == earlier + seq![rest[0]]);
        to = to + 1;
    }
    assert(before(message@.skip(to as int), LINE_FEED) == Seq::<u8>::empty());
    assert(line@ == first_line_bytes(message@));
    line
}

/// The summary of a commit whose message is given in bytes.
pub fn message_bytes_summary(message: &Vec<u8>) -> (summary: Option<String>)
    ensures
        summary is Some <==> summary_of_bytes(message@) is Some,
        summary is Some ==> summary->0@ == summary_of_bytes(message@)->0,
{
    match utf8_text(line_bytes(message)) {
        Some(line) => Some(trim_blank_end(line.as_str()).to_string()),
        None => None,
    }
}

// ---------------------------------------------------------------------------
// What holds of every message
// ---------------------------------------------------------------------------

/// A summary is one line: no line feed is in it.
pub proof fn a_summary_has_no_line_feed(message: Seq<char>)
    ensures
        !summary_of(message).contains('\n'),
{
    let body = after_leading(message, '\n');
    lemma_before_lacks_mark(body, '\n');
    lemma_blank_end_is_cut(first_line(message));
    let line = first_line(message);
    let summary = summary_of(message);
    if summary.contains('\n') {
        let i = choose|i: int| 0 <= i < summary.len() && summary[i] == '\n';
        assert(line[i] == '\n');
    }
}

pub proof fn lemma_before_lacks_mark<A>(items: Seq<A>, mark: A)
    ensures
        !before(items, mark).contains(mark),
    decreases items.len(),
{
    if items.len() > 0 && items[0] != mark {
        let rest = before(items.drop_first(), mark);
        lemma_before_lacks_mark(items.drop_first(), mark);
        let all = before(items, mark);
        if all.contains(mark) {
            let i = choose|i: int| 0 <= i < all.len() && all[i] == mark;
            assert(i > 0 && rest[i - 1] == mark);
        }
    }
}

/// What is left of a line is its beginning.
proof fn lemma_blank_end_is_cut(line: Seq<char>)
    ensures
        without_blank_end(line).len() <= line.len(),
        without_blank_end(line) == line.take(without_blank_end(line).len() as int),
    decreases line.len(),
{
    if line.len() > 0 && is_blank(line.last()) {
        lemma_blank_end_is_cut(line.drop_last());
        assert(without_blank_end(line) == line.take(without_blank_end(line).len() as int));
    } else {
        assert(line.take(line.len() as int) == line);
    }
}

/// A character is encoded in one or more bytes, and a line feed is encoded by
/// itself: no byte of another character is one.
proof fn lemma_line_feed_stands_alone(c: char)
    ensures
        encode_scalar('\n' as u32) == seq![LINE_FEED],
        encode_scalar(c as u32).len() > 0,
        c != '\n' ==> !encode_scalar(c as u32).contains(LINE_FEED),
{
    let u = c as u32;
    assert(leading_byte_width_1(10) == 10) by {
        assert((10u32 & 0x7f) as u8 == 10u8) by (bit_vector);
    }
    assert(u < 0x80 ==> (u & 0x7f) as u8 == u) by (bit_vector);
    assert(0xc0u8 | ((u >> 6) & 0x1f) as u8 >= 0x80) by (bit_vector);
    assert(0xe0u8 | ((u >> 12) & 0x0f) as u8 >= 0x80) by (bit_vector);
    assert(0xf0u8 | ((u >> 18) & 0x7) as u8 >= 0x80) by (bit_vector);
    assert(0x80u8 | (u & 0x3f) as u8 >= 0x80) by (bit_vector);
    assert(0x80u8 | ((u >> 6) & 0x3f) as u8 >= 0x80) by (bit_vector);
    assert(0x80u8 | ((u >> 12) & 0x3f) as u8 >= 0x80) by (bit_vector);
}

/// Marks that stand behind others that are none.
proof fn lemma_before_skips(head: Seq<u8>, rest: Seq<u8>)
    requires
        !head.contains(LINE_FEED),
    ensures
        before(head + rest, LINE_FEED) == head + before(rest, LINE_FEED),
    decreases head.len(),
{
    if head.len() == 0 {
        assert(head + rest == rest);
        assert(head + before(rest, LINE_FEED) == before(rest, LINE_FEED));
    } else {
        let tail = head.drop_first();
        assert(head.contains(head[0]));
        assert(!tail.contains(LINE_FEED)) by {
            if tail.contains(LINE_FEED) {
                let i = choose|i: int| 0 <= i < tail.len() && tail[i] == LINE_FEED;
                assert(head[i + 1] == LINE_FEED);
            }
        }
        lemma_before_skips(tail, rest);
        assert((head + rest).drop_first() == tail + rest);
        assert(seq![head[0]] + (tail + before(rest, LINE_FEED)) == head + before(rest, LINE_FEED));
    }
}

pub proof fn lemma_before_in_bytes(text: Seq<char>)
    ensures
        before(encode_utf8(text), LINE_FEED) == encode_utf8(before(text, '\n')),
    decreases text.len(),
{
    if text.len() > 0 {
        let first = text[0];
        let rest = text.drop_first();
        lemma_before_in_bytes(rest);
        lemma_line_feed_stands_alone(first);
        if first == '\n' {
            assert(encode_utf8(text)[0] == LINE_FEED);
        } else {
            lemma_before_skips(encode_scalar(first as u32), encode_utf8(rest));
            let cut = before(text, '\n');
            assert(cut[0] == first);
            assert(cut.drop_first() == before(rest, '\n'));
        }
    }
}

proof fn lemma_after_leading_in_bytes(text: Seq<char>)
    ensures
        after_leading(encode_utf8(text), LINE_FEED) == encode_utf8(after_leading(text, '\n')),
    decreases text.len(),
{
    if text.len() > 0 {
        let first = text[0];
        let rest = text.drop_first();
        let bytes = encode_utf8(text);
        let head = encode_scalar(first as u32);
        lemma_line_feed_stands_alone(first);
        assert(bytes[0] == head[0]);
        if first == '\n' {
            lemma_after_leading_in_bytes(rest);
            assert(bytes.drop_first() == encode_utf8(rest));
        } else {
            assert(head.contains(head[0]));
        }
    }
}

/// Bytes and text are cut alike: the summary of the bytes that encode a message
/// is the summary of the message.
pub proof fn a_message_is_cut_alike_in_bytes(message: Seq<char>)
    ensures
        summary_of_bytes(encode_utf8(message)) == Some(summary_of(message)),
{
    lemma_after_leading_in_bytes(message);
    lemma_before_in_bytes(after_leading(message, '\n'));
    encode_utf8_valid_utf8(first_line(message));
    encode_utf8_decode_utf8(first_line(message));
}

} // verus!
