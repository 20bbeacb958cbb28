//! Plain text: the numbers, orders, cuts and joins that the renderers and the
//! log reader are made of. A text is the sequence of its characters.

use vstd::prelude::*;
use vstd::relations::total_ordering;

verus! {

/// `String::push`: appends one character to the end of the string.
pub assume_specification[ String::push ](text: &mut String, c: char)
    ensures
        final(text)@ == old(text)@.push(c),
;

// ---------------------------------------------------------------------------
// Numbers
// ---------------------------------------------------------------------------

/// The character of one decimal digit.
pub open spec fn digit_char(digit: nat) -> char {
    (48 + digit) as char
}

/// `n` in decimal, without leading zeros.
pub open spec fn decimal(n: nat) -> Seq<char>
    decreases n,
{
    if n < 10 {
        seq![digit_char(n)]
    } else {
        decimal(n / 10).push(digit_char(n % 10))
    }
}

/// Whether `c` is one of `0` to `9`.
pub open spec fn is_digit(c: char) -> bool {
    48 <= c as int <= 57
}

/// Whether `text` is one or more decimal digits and nothing else.
pub open spec fn is_digits(text: Seq<char>) -> bool {
    text.len() > 0 && forall|i: int| 0 <= i < text.len() ==> is_digit(#[trigger] text[i])
}

/// The number that a run of decimal digits denotes.
pub open spec fn digits_value(digits: Seq<char>) -> nat
    decreases digits.len(),
{
    if digits.len() == 0 {
        0
    } else {
        digits_value(digits.drop_last()) * 10 + (digits.last() as int - 48) as nat
    }
}

/// The digits of `text` after the sign it opens with, if it opens with one.
pub open spec fn after_sign(text: Seq<char>, sign: char) -> Seq<char> {
    if text.len() > 0 && text[0] == sign {
        text.skip(1)
    } else {
        text
    }
}

/// `text` read as a count: digits, after at most one `+`, of a number that a
/// `usize` can hold.
pub open spec fn count_of(text: Seq<char>) -> Option<nat> {
    let digits = after_sign(text, '+');
    if is_digits(digits) && digits_value(digits) <= usize::MAX {
        Some(digits_value(digits))
    } else {
        None
    }
}

/// `text` read as a signed number: digits, after at most one `+` or `-`, of a
/// number that an `i64` can hold.
pub open spec fn signed_of(text: Seq<char>) -> Option<int> {
    let negative = text.len() > 0 && text[0] == '-';
    let digits = if negative {
        text.skip(1)
    } else {
        after_sign(text, '+')
    };
    let value = if negative {
        -digits_value(digits)
    } else {
        digits_value(digits) as int
    };
    if is_digits(digits) && i64::MIN <= value <= i64::MAX {
        Some(value)
    } else {
        None
    }
}

/// A decimal reads back as the number it was written from: it is a run of
/// digits, and its value is that number. Only zero opens with a zero.
pub proof fn decimal_reads_back(n: nat)
    ensures
        is_digits(decimal(n)),
        digits_value(decimal(n)) == n,
        n > 0 ==> decimal(n)[0] != '0',
    decreases n,
{
    if n < 10 {
        assert(decimal(n).drop_last() == Seq::<char>::empty());
        assert(digits_value(decimal(n).drop_last()) == 0);
    } else {
        decimal_reads_back(n / 10);
        assert(decimal(n).drop_last() == decimal(n / 10));
        let text = decimal(n);
        assert forall|i: int| 0 <= i < text.len() implies is_digit(#[trigger] text[i]) by {
            if i < text.len() - 1 {
                assert(text[i] == decimal(n / 10)[i]);
            }
        }
    }
}

/// The value of a run of digits is at least that of each of its beginnings.
proof fn lemma_digits_value_grows(digits: Seq<char>, n: int)
    requires
        is_digits(digits),
        0 <= n <= digits.len(),
    ensures
        digits_value(digits.take(n)) <= digits_value(digits),
    decreases digits.len() - n,
{
    if n < digits.len() {
        lemma_digits_value_grows(digits, n + 1);
        assert(digits.take(n + 1).drop_last() == digits.take(n));
    } else {
        assert(digits.take(n) == digits);
    }
}

/// `n` in decimal.
pub fn decimal_text(n: u64) -> (text: String)
    ensures
        text@ == decimal(n as nat),
    decreases n,
{
    if n < 10 {
        let mut text = String::new();
        text.push((48u8 + n as u8) as char);
        text
    } else {
        let mut text = decimal_text(n / 10);
        text.push((48u8 + (n % 10) as u8) as char);
        text
    }
}

/// The number that the characters from `from` on denote, where they are
/// digits and the number fits.
fn digits_from(chars: &Vec<char>, from: usize) -> (value: Option<u64>)
    requires
        from <= chars@.len(),
    ensures
        value is Some <==> is_digits(chars@.skip(from as int)) && digits_value(
            chars@.skip(from as int),
        ) <= u64::MAX,
        value is Some ==> value->0 == digits_value(chars@.skip(from as int)),
{
    let ghost digits = chars@.skip(from as int);
    if from == chars.len() {
        return None;
    }
    let mut value: u64 = 0;
    let mut i: usize = from;
    assert(digits.take(0).len() == 0);
    while i < chars.len()
        invariant
            from <= i <= chars@.len(),
            digits == chars@.skip(from as int),
            digits.len() > 0,
            forall|k: int| 0 <= k < i - from ==> is_digit(#[trigger] digits[k]),
            value == digits_value(digits.take(i - from)),
        decreases chars@.len() - i,
    {
        let c = chars[i];
        assert(c == digits[i - from]);
        if !('0' <= c && c <= '9') {
            assert(!is_digit(digits[i - from]));
            return None;
        }
        let digit: u64 = (c as u32 - 48) as u64;
        assert(digits.take(i + 1 - from).drop_last() == digits.take(i - from));
        assert(digits_value(digits.take(i + 1 - from)) == value * 10 + digit);
        if value > (u64::MAX - digit) / 10 {
            proof {
                if is_digits(digits) {
                    lemma_digits_value_grows(digits, i + 1 - from);
                }
            }
            return None;
        }
        value = value * 10 + digit;
        i = i + 1;
    }
    assert(digits.take(digits.len() as int) == digits);
    Some(value)
}

/// `text` read as a count.
pub fn parse_count(text: &str) -> (count: Option<usize>)
    ensures
        count is Some <==> count_of(text@) is Some,
        count is Some ==> count->0 == count_of(text@)->0,
{
    let chars = chars_of(text);
    let from: usize = if chars.len() > 0 && chars[0] == '+' {
        1
    } else {
        0
    };
    assert(chars@.skip(from as int) == after_sign(text@, '+'));
    match digits_from(&chars, from) {
        Some(value) => {
            if value <= usize::MAX as u64 {
                Some(value as usize)
            } else {
                None
            }
        },
        None => None,
    }
}

/// `text` read as a signed number.
pub fn parse_signed(text: &str) -> (number: Option<i64>)
    ensures
        number is Some <==> signed_of(text@) is Some,
        number is Some ==> number->0 == signed_of(text@)->0,
{
    let chars = chars_of(text);
    let negative = chars.len() > 0 && chars[0] == '-';
    let from: usize = if negative || (chars.len() > 0 && chars[0] == '+') {
        1
    } else {
        0
    };
    assert(negative ==> chars@.skip(from as int) == text@.skip(1));
    assert(!negative ==> chars@.skip(from as int) == after_sign(text@, '+'));
    match digits_from(&chars, from) {
        Some(value) => {
            if negative {
                if value <= 0x7fff_ffff_ffff_ffff {
                    Some(-(value as i64))
                } else if value == 0x8000_0000_0000_0000 {
                    Some(i64::MIN)
                } else {
                    None
                }
            } else if value <= 0x7fff_ffff_ffff_ffff {
                Some(value as i64)
            } else {
                None
            }
        },
        None => None,
    }
}

// ---------------------------------------------------------------------------
// Characters and equality
// ---------------------------------------------------------------------------

/// The characters of `text`, in order.
pub fn chars_of(text: &str) -> (chars: Vec<char>)
    ensures
        chars@ == text@,
{
    let mut chars: Vec<char> = Vec::new();
    for c in it: text.chars()
        invariant
            it.seq() == text@,
            chars@ == text@.take(it.index()),
    {
        chars.push(c);
        assert(text@.take(it.index() + 1) == text@.take(it.index()).push(c));
    }
    assert(text@.take(text@.len() as int) == text@);
    chars
}

/// The first `limit` characters of `text`, or all of them if there are fewer.
pub open spec fn cut(text: Seq<char>, limit: nat) -> Seq<char> {
    if text.len() <= limit {
        text
    } else {
        text.take(limit as int)
    }
}

/// The first `limit` characters of `text`, or all of them if there are fewer.
pub fn first_chars(text: &str, limit: usize) -> (head: &str)
    ensures
        head@ == cut(text@, limit as nat),
{
    if text.unicode_len() <= limit {
        text
    } else {
        text.substring_char(0, limit)
    }
}

// ---------------------------------------------------------------------------
// Order
// ---------------------------------------------------------------------------

/// Whether `a` comes before `b` alphabetically, or is `b`: the first character
/// in which they differ decides, and a beginning comes before the whole.
pub open spec fn text_le(a: Seq<char>, b: Seq<char>) -> bool
    decreases a.len(),
{
    if a.len() == 0 {
        true
    } else if b.len() == 0 {
        false
    } else if a[0] != b[0] {
        (a[0] as int) < (b[0] as int)
    } else {
        text_le(a.drop_first(), b.drop_first())
    }
}

/// `text_le` as a relation.
pub open spec fn alphabetical() -> spec_fn(Seq<char>, Seq<char>) -> bool {
    |a: Seq<char>, b: Seq<char>| text_le(a, b)
}

proof fn lemma_text_le_reflexive(a: Seq<char>)
    ensures
        text_le(a, a),
    decreases a.len(),
{
    if a.len() > 0 {
        lemma_text_le_reflexive(a.drop_first());
    }
}

proof fn lemma_text_le_antisymmetric(a: Seq<char>, b: Seq<char>)
    requires
        text_le(a, b),
        text_le(b, a),
    ensures
        a == b,
    decreases a.len(),
{
    if a.len() > 0 && b.len() > 0 {
        lemma_text_le_antisymmetric(a.drop_first(), b.drop_first());
        assert(a == seq![a[0]] + a.drop_first());
        assert(b == seq![b[0]] + b.drop_first());
    } else {
        assert(a == b);
    }
}

proof fn lemma_text_le_transitive(a: Seq<char>, b: Seq<char>, c: Seq<char>)
    requires
        text_le(a, b),
        text_le(b, c),
    ensures
        text_le(a, c),
    decreases a.len(),
{
    if a.len() > 0 && b.len() > 0 && c.len() > 0 && a[0] == b[0] && b[0] == c[0] {
        lemma_text_le_transitive(a.drop_first(), b.drop_first(), c.drop_first());
    }
}

proof fn lemma_text_le_total(a: Seq<char>, b: Seq<char>)
    ensures
        text_le(a, b) || text_le(b, a),
    decreases a.len(),
{
    if a.len() > 0 && b.len() > 0 && a[0] == b[0] {
        lemma_text_le_total(a.drop_first(), b.drop_first());
    }
}

/// The alphabetical order is a total order.
pub proof fn alphabetical_is_a_total_order()
    ensures
        total_ordering(alphabetical()),
{
    let le = alphabetical();
    assert forall|a: Seq<char>| #[trigger] le(a, a) by {
        lemma_text_le_reflexive(a);
    }
    assert forall|a: Seq<char>, b: Seq<char>| #[trigger] le(a, b) && #[trigger] le(b, a) implies a
        == b by {
        lemma_text_le_antisymmetric(a, b);
    }
    assert forall|a: Seq<char>, b: Seq<char>, c: Seq<char>| #[trigger]
        le(a, b) && #[trigger] le(b, c) implies le(a, c) by {
        lemma_text_le_transitive(a, b, c);
    }
    assert forall|a: Seq<char>, b: Seq<char>| #[trigger] le(a, b) || #[trigger] le(b, a) by {
        lemma_text_le_total(a, b);
    }
}

/// Whether `a` comes before `b` alphabetically, or is `b`.
pub fn text_at_most(a: &str, b: &str) -> (before: bool)
    ensures
        before == text_le(a@, b@),
{
    let x = chars_of(a);
    let y = chars_of(b);
    let mut i: usize = 0;
    assert(x@.skip(0) == a@);
    assert(y@.skip(0) == b@);
    while i < x.len() && i < y.len() && x[i] == y[i]
        invariant
            i <= x@.len(),
            i <= y@.len(),
            text_le(a@, b@) == text_le(x@.skip(i as int), y@.skip(i as int)),
        decreases x@.len() - i,
    {
        assert(x@.skip(i as int).drop_first() == x@.skip(i + 1));
        assert(y@.skip(i as int).drop_first() == y@.skip(i + 1));
        i = i + 1;
    }
    if i == x.len() {
        true
    } else if i == y.len() {
        false
    } else {
        x[i] < y[i]
    }
}

/// Whether two texts are the same.
pub fn same_text(a: &str, b: &str) -> (same: bool)
    ensures
        same == (a@ == b@),
{
    let x = chars_of(a);
    let y = chars_of(b);
    if x.len() != y.len() {
        return false;
    }
    let mut i: usize = 0;
    while i < x.len()
        invariant
            i <= x@.len(),
            x@.len() == y@.len(),
            x@ == a@,
            y@ == b@,
            forall|k: int| 0 <= k < i ==> x@[k] == y@[k],
        decreases x@.len() - i,
    {
        if x[i] != y[i] {
            assert(a@[i as int] != b@[i as int]);
            return false;
        }
        i = i + 1;
    }
    assert(a@ == b@);
    true
}

// ---------------------------------------------------------------------------
// Pieces
// ---------------------------------------------------------------------------

/// The texts of a list of strings.
pub open spec fn views(strings: Seq<String>) -> Seq<Seq<char>> {
    strings.map_values(|s: String| s@)
}

/// `parts` one after the other, with `separator` between each two.
pub open spec fn joined(parts: Seq<Seq<char>>, separator: Seq<char>) -> Seq<char>
    decreases parts.len(),
{
    if parts.len() == 0 {
        Seq::empty()
    } else if parts.len() == 1 {
        parts[0]
    } else {
        joined(parts.drop_last(), separator) + separator + parts.last()
    }
}

/// `parts` one after the other, with `separator` between each two.
pub fn join_texts(parts: &Vec<String>, separator: &str) -> (text: String)
    ensures
        text@ == joined(views(parts@), separator@),
{
    let mut text = String::new();
    let ghost all = views(parts@);
    let mut i: usize = 0;
    while i < parts.len()
        invariant
            i <= parts@.len(),
            all == views(parts@),
            text@ == joined(all.take(i as int), separator@),
        decreases parts@.len() - i,
    {
        if i > 0 {
            text.append(separator);
        }
        text.append(parts[i].as_str());
        proof {
            assert(all.take(i + 1).drop_last() == all.take(i as int));
            assert(all.take(i + 1).last() == parts@[i as int]@);
        }
        i = i + 1;
    }
    assert(all.take(parts@.len() as int) == all);
    text
}

/// The pieces of `text` between the occurrences of `separator`, in order.
pub open spec fn split_on(text: Seq<char>, separator: char) -> Seq<Seq<char>>
    decreases text.len(),
{
    if text.len() == 0 {
        seq![Seq::empty()]
    } else {
        let before = split_on(text.drop_last(), separator);
        if text.last() == separator {
            before.push(Seq::empty())
        } else {
            before.update(before.len() - 1, before.last().push(text.last()))
        }
    }
}

/// Splitting loses nothing: the pieces joined by the separator are the text
/// again, there is at least one, and none of them holds the separator.
pub proof fn split_pieces_join_back(text: Seq<char>, separator: char)
    ensures
        split_on(text, separator).len() >= 1,
        joined(split_on(text, separator), seq![separator]) == text,
        forall|i: int|
            0 <= i < split_on(text, separator).len() ==> !(#[trigger] split_on(
                text,
                separator,
            )[i]).contains(separator),
    decreases text.len(),
{
    let pieces = split_on(text, separator);
    if text.len() > 0 {
        split_pieces_join_back(text.drop_last(), separator);
        let before = split_on(text.drop_last(), separator);
        assert(text == text.drop_last().push(text.last()));
        if text.last() == separator {
            assert(pieces.drop_last() == before);
            assert(joined(pieces, seq![separator]) == joined(before, seq![separator]) + seq![
                separator,
            ] + Seq::<char>::empty());
            assert forall|i: int| 0 <= i < pieces.len() implies !(
            #[trigger] pieces[i]).contains(separator) by {
                if i < before.len() {
                    assert(pieces[i] == before[i]);
                }
            }
        } else {
            assert(pieces.drop_last() == before.drop_last());
            assert(pieces.last() == before.last().push(text.last()));
            assert forall|i: int| 0 <= i < pieces.len() implies !(
            #[trigger] pieces[i]).contains(separator) by {
                if i < before.len() - 1 {
                    assert(pieces[i] == before[i]);
                } else {
                    let last = before[i];
                    assert(!last.contains(separator));
                    if last.push(text.last()).contains(separator) {
                        let k = choose|k: int|
                            0 <= k < last.len() + 1 && last.push(text.last())[k] == separator;
                        assert(k < last.len());
                        assert(last[k] == separator);
                    }
                }
            }
        }
    } else {
        assert(joined(pieces, seq![separator]) == text);
    }
}

/// A text without the separator is one piece, and a text that starts with
/// such a piece and the separator splits into that piece and the rest.
pub proof fn split_takes_the_first_piece(piece: Seq<char>, rest: Seq<char>, separator: char)
    requires
        !piece.contains(separator),
    ensures
        split_on(piece, separator) == seq![piece],
        split_on(piece.push(separator) + rest, separator) == seq![piece] + split_on(
            rest,
            separator,
        ),
    decreases piece.len(), rest.len(),
{
    if piece.len() > 0 {
        assert(!piece.drop_last().contains(separator)) by {
            if piece.drop_last().contains(separator) {
                let k = choose|k: int|
                    0 <= k < piece.len() - 1 && piece.drop_last()[k] == separator;
                assert(piece[k] == separator);
            }
        }
        split_takes_the_first_piece(piece.drop_last(), Seq::empty(), separator);
        assert(piece.contains(piece.last()));
        assert(piece.drop_last().push(piece.last()) == piece);
    } else {
        assert(piece == Seq::<char>::empty());
    }
    assert(split_on(piece, separator) == seq![piece]);
    let whole = piece.push(separator) + rest;
    if rest.len() == 0 {
        assert(whole.drop_last() == piece);
        assert(whole.last() == separator);
        assert(split_on(whole, separator) == seq![piece].push(Seq::empty()));
        assert(seq![piece].push(Seq::empty()) == seq![piece] + seq![Seq::<char>::empty()]);
    } else {
        split_takes_the_first_piece(piece, rest.drop_last(), separator);
        split_pieces_join_back(rest.drop_last(), separator);
        assert(whole.drop_last() == piece.push(separator) + rest.drop_last());
        let tail = split_on(rest.drop_last(), separator);
        let before = seq![piece] + tail;
        assert(before.last() == tail.last());
        if rest.last() == separator {
            assert(before.push(Seq::empty()) == seq![piece] + tail.push(Seq::empty()));
        } else {
            assert(before.update(before.len() - 1, before.last().push(rest.last())) == seq![piece]
                + tail.update(tail.len() - 1, tail.last().push(rest.last())));
        }
    }
}

/// The pieces of `text` between the occurrences of `separator`, in order.
pub fn split_text(text: &str, separator: char) -> (pieces: Vec<String>)
    ensures
        views(pieces@) == split_on(text@, separator),
{
    let chars = chars_of(text);
    let mut pieces: Vec<String> = Vec::new();
    let mut current = String::new();
    let mut i: usize = 0;
    assert(text@.take(0).len() == 0);
    assert(views(pieces@).push(current@) == seq![Seq::<char>::empty()]);
    while i < chars.len()
        invariant
            i <= chars@.len(),
            chars@ == text@,
            views(pieces@).push(current@) == split_on(text@.take(i as int), separator),
        decreases chars@.len() - i,
    {
        let c = chars[i];
        let ghost before = split_on(text@.take(i as int), separator);
        assert(text@.take(i + 1).drop_last() == text@.take(i as int));
        assert(before.last() == current@);
        if c == separator {
            let ghost earlier = pieces@;
            pieces.push(current);
            current = String::new();
            assert(views(pieces@) == before);
            assert(split_on(text@.take(i + 1), separator) == before.push(Seq::empty()));
            assert(current@ == Seq::<char>::empty());
        } else {
            current.push(c);
            assert(views(pieces@).push(current@) == before.update(
                before.len() - 1,
                before.last().push(c),
            ));
        }
        i = i + 1;
    }
    assert(text@.take(text@.len() as int) == text@);
    let ghost earlier = pieces@;
    pieces.push(current);
    assert(views(pieces@) == views(earlier).push(current@));
    pieces
}

// ---------------------------------------------------------------------------
// White space, search and replacement
// ---------------------------------------------------------------------------

/// Whether `c` has the Unicode property White_Space.
pub open spec fn is_space(c: char) -> bool {
    let code = c as int;
    ||| 0x9 <= code <= 0xd
    ||| code == 0x20
    ||| code == 0x85
    ||| code == 0xa0
    ||| code == 0x1680
    ||| 0x2000 <= code <= 0x200a
    ||| code == 0x2028
    ||| code == 0x2029
    ||| code == 0x202f
    ||| code == 0x205f
    ||| code == 0x3000
}

/// `text` from its first character that is no white space on.
pub open spec fn trim_start(text: Seq<char>) -> Seq<char>
    decreases text.len(),
{
    if text.len() > 0 && is_space(text[0]) {
        trim_start(text.drop_first())
    } else {
        text
    }
}

/// `text` up to its last character that is no white space.
pub open spec fn trim_end(text: Seq<char>) -> Seq<char>
    decreases text.len(),
{
    if text.len() > 0 && is_space(text.last()) {
        trim_end(text.drop_last())
    } else {
        text
    }
}

/// `text` without the white space at its two ends.
pub open spec fn trimmed(text: Seq<char>) -> Seq<char> {
    trim_end(trim_start(text))
}

fn char_is_space(c: char) -> (space: bool)
    ensures
        space == is_space(c),
{
    ('\u{9}' <= c && c <= '\u{d}') || c == '\u{20}' || c == '\u{85}' || c == '\u{a0}' || c
        == '\u{1680}' || ('\u{2000}' <= c && c <= '\u{200a}') || c == '\u{2028}' || c
        == '\u{2029}' || c == '\u{202f}' || c == '\u{205f}' || c == '\u{3000}'
}

/// `text` without the white space at its two ends.
pub fn trim_text(text: &str) -> (middle: &str)
    ensures
        middle@ == trimmed(text@),
{
    let chars = chars_of(text);
    let mut from: usize = 0;
    assert(text@.skip(0) == text@);
    while from < chars.len() && char_is_space(chars[from])
        invariant
            from <= chars@.len(),
            chars@ == text@,
            trim_start(text@) == trim_start(text@.skip(from as int)),
        decreases chars@.len() - from,
    {
        assert(text@.skip(from as int).drop_first() == text@.skip(from + 1));
        from = from + 1;
    }
    assert(trim_start(text@) == text@.skip(from as int));
    let mut to: usize = chars.len();
    assert(text@.subrange(from as int, to as int) == text@.skip(from as int));
    while to > from && char_is_space(chars[to - 1])
        invariant
            from <= to <= chars@.len(),
            chars@ == text@,
            trimmed(text@) == trim_end(text@.subrange(from as int, to as int)),
        decreases to,
    {
        assert(text@.subrange(from as int, to as int).drop_last() == text@.subrange(
            from as int,
            to - 1,
        ));
        to = to - 1;
    }
    text.substring_char(from, to)
}

/// Whether `part` occurs in `text` at `at`.
pub open spec fn occurs_at(text: Seq<char>, part: Seq<char>, at: int) -> bool {
    0 <= at <= text.len() - part.len() && text.subrange(at, at + part.len()) == part
}

/// Whether `part` occurs in `text`.
pub open spec fn occurs_in(text: Seq<char>, part: Seq<char>) -> bool {
    exists|at: int| occurs_at(text, part, at)
}

/// Whether `part` occurs in `text`.
pub fn contains_text(text: &str, part: &str) -> (found: bool)
    ensures
        found == occurs_in(text@, part@),
{
    let x = chars_of(text);
    let y = chars_of(part);
    if y.len() > x.len() {
        return false;
    }
    let mut at: usize = 0;
    let last: usize = x.len() - y.len();
    while at <= last
        invariant
            at <= last + 1,
            last == x@.len() - y@.len(),
            x@ == text@,
            y@ == part@,
            last < x@.len() || y@.len() == 0,
            forall|k: int| 0 <= k < at ==> !occurs_at(text@, part@, k),
        decreases last + 1 - at,
    {
        let mut i: usize = 0;
        while i < y.len() && x[at + i] == y[i]
            invariant
                i <= y@.len(),
                at + y.len() <= x.len(),
                forall|k: int| 0 <= k < i ==> x@[at + k] == y@[k],
            decreases y@.len() - i,
        {
            i = i + 1;
        }
        if i == y.len() {
            assert(text@.subrange(at as int, at + part@.len()) == part@);
            assert(occurs_at(text@, part@, at as int));
            return true;
        }
        assert(!occurs_at(text@, part@, at as int)) by {
            if occurs_at(text@, part@, at as int) {
                assert(text@.subrange(at as int, at + part@.len())[i as int] == part@[i as int]);
            }
        }
        if at == last {
            return false;
        }
        at = at + 1;
    }
    false
}

/// `text` with each `from` turned into `to`.
pub open spec fn replaced(text: Seq<char>, from: char, to: char) -> Seq<char> {
    text.map_values(
        |c: char|
            if c == from {
                to
            } else {
                c
            },
    )
}

/// `text` with each `from` turned into `to`.
pub fn replace_char(text: &str, from: char, to: char) -> (changed: String)
    ensures
        changed@ == replaced(text@, from, to),
{
    let chars = chars_of(text);
    let mut changed = String::new();
    let mut i: usize = 0;
    while i < chars.len()
        invariant
            i <= chars@.len(),
            chars@ == text@,
            changed@ == replaced(text@.take(i as int), from, to),
        decreases chars@.len() - i,
    {
        if chars[i] == from {
            changed.push(to);
        } else {
            changed.push(chars[i]);
        }
        assert(text@.take(i + 1) == text@.take(i as int).push(text@[i as int]));
        i = i + 1;
    }
    assert(text@.take(text@.len() as int) == text@);
    changed
}

/// What occurs in neither of two texts does not occur in both together.
pub proof fn lemma_not_in_sum(a: Seq<char>, b: Seq<char>, c: char)
    requires
        !a.contains(c),
        !b.contains(c),
    ensures
        !(a + b).contains(c),
{
    if (a + b).contains(c) {
        let i = choose|i: int| 0 <= i < (a + b).len() && (a + b)[i] == c;
        if i < a.len() {
            assert(a[i] == c);
        } else {
            assert(b[i - a.len()] == c);
        }
    }
}

/// Whether a text is a single line.
pub open spec fn is_one_line(text: Seq<char>) -> bool {
    !text.contains('\n') && !text.contains('\r')
}

/// `text` on one line: a space stands for each line feed and each carriage
/// return.
pub open spec fn on_one_line(text: Seq<char>) -> Seq<char> {
    replaced(replaced(text, '\n', ' '), '\r', ' ')
}

/// `text` on one line.
pub fn fold_lines(text: &str) -> (line: String)
    ensures
        line@ == on_one_line(text@),
        is_one_line(line@),
{
    proof {
        folding_leaves_one_line(text@);
    }
    replace_char(replace_char(text, '\n', ' ').as_str(), '\r', ' ')
}

/// Every text can be put on one line, and a text that is on one stays as it is.
pub proof fn folding_leaves_one_line(text: Seq<char>)
    ensures
        is_one_line(on_one_line(text)),
        on_one_line(text).len() == text.len(),
        is_one_line(text) ==> on_one_line(text) == text,
{
    let line = on_one_line(text);
    let once = replaced(text, '\n', ' ');
    assert forall|i: int| 0 <= i < line.len() implies #[trigger] line[i] != '\n' && line[i]
        != '\r' by {
        assert(once[i] != '\n');
    }
    if is_one_line(text) {
        assert forall|i: int| 0 <= i < text.len() implies #[trigger] line[i] == text[i] by {
            assert(text.contains(text[i]));
        }
        assert(line == text);
    }
}

} // verus!
