//! What holds of every text that is written, read, cut or compared.

use crate::text::{
    count_of, cut, decimal, decimal_reads_back, digits_value, is_digit, is_digits,
    is_space, joined, occurs_at, occurs_in, replaced, signed_of, split_on, split_pieces_join_back,
    text_le, trim_end, trim_start, trimmed, views,
};
use vstd::prelude::*;

verus! {

// ---------------------------------------------------------------------------
// Numbers
// ---------------------------------------------------------------------------

/// Numbers are written in base ten: a number below ten is its digit, and putting
/// a digit behind a number multiplies it by ten and adds the digit.
pub proof fn decimals_grow_by_digits(n: nat, digit: nat)
    requires
        digit < 10,
    ensures
        decimal(digit) == seq![(48 + digit) as char],
        n > 0 ==> decimal(10 * n + digit) == decimal(n).push((48 + digit) as char),
{
    if n > 0 {
        let all = 10 * n + digit;
        assert(all / 10 == n && all % 10 == digit) by (nonlinear_arith)
            requires
                all == 10 * n + digit,
                digit < 10,
        ;
    }
}

/// No two numbers are written alike.
pub proof fn decimals_are_distinct(m: nat, n: nat)
    requires
        decimal(m) == decimal(n),
    ensures
        m == n,
{
    decimal_reads_back(m);
    decimal_reads_back(n);
}

/// The value of a run of digits: a digit behind it counts once, and what it
/// stands behind counts ten times.
pub proof fn digits_are_read_in_base_ten(digits: Seq<char>, c: char)
    requires
        48 <= c as int <= 57,
    ensures
        digits_value(Seq::empty()) == 0,
        digits_value(digits.push(c)) == 10 * digits_value(digits) + (c as int - 48),
{
    assert(digits.push(c).drop_last() == digits);
}

/// A count is read from every run of digits that fits, with or without a plus in
/// front, and from nothing else.
pub proof fn counts_are_read(n: nat, digits: Seq<char>)
    ensures
        n <= usize::MAX ==> count_of(decimal(n)) == Some(n) && count_of(seq!['+'] + decimal(n))
            == Some(n),
        n > usize::MAX ==> count_of(decimal(n)) is None,
        count_of(seq!['+'] + digits) is Some <==> (digits.len() > 0 && (forall|i: int|
            0 <= i < digits.len() ==> 48 <= (#[trigger] digits[i]) as int <= 57) && digits_value(
            digits,
        ) <= usize::MAX),
        digits.len() > 0 && digits[0] != '+' ==> count_of(digits) == count_of(seq!['+'] + digits),
        count_of(Seq::empty()) is None,
{
    decimal_reads_back(n);
    assert(is_digit(decimal(n)[0]));
    assert((seq!['+'] + decimal(n)).skip(1) == decimal(n));
    assert((seq!['+'] + digits).skip(1) == digits);
    if is_digits(digits) {
        assert forall|i: int| 0 <= i < digits.len() implies 48 <= (#[trigger] digits[i]) as int
            <= 57 by {
            assert(is_digit(digits[i]));
        }
    }
}

/// A signed number is read as it is written, over the whole range.
pub proof fn signed_numbers_are_read(n: nat)
    ensures
        n <= i64::MAX ==> signed_of(decimal(n)) == Some(n as int) && signed_of(
            seq!['+'] + decimal(n),
        ) == Some(n as int),
        -n >= i64::MIN ==> signed_of(seq!['-'] + decimal(n)) == Some(-(n as int)),
        n > i64::MAX ==> signed_of(decimal(n)) is None,
{
    decimal_reads_back(n);
    assert(is_digit(decimal(n)[0]));
    assert((seq!['+'] + decimal(n)).skip(1) == decimal(n));
    assert((seq!['-'] + decimal(n)).skip(1) == decimal(n));
}

// ---------------------------------------------------------------------------
// Cutting, joining and comparing
// ---------------------------------------------------------------------------

/// A cut text is the beginning of the text: all of it, or as much as is allowed.
pub proof fn a_cut_keeps_the_beginning(text: Seq<char>, limit: nat)
    ensures
        text.len() <= limit ==> cut(text, limit) == text,
        text.len() > limit ==> cut(text, limit).len() == limit,
        forall|i: int| 0 <= i < cut(text, limit).len() ==> cut(text, limit)[i] == text[i],
{
}

/// Joining one more part puts the separator and the part behind.
pub proof fn joining_goes_on(parts: Seq<Seq<char>>, part: Seq<char>, separator: Seq<char>)
    ensures
        joined(Seq::empty(), separator) == Seq::<char>::empty(),
        joined(seq![part], separator) == part,
        parts.len() > 0 ==> joined(parts.push(part), separator) == joined(parts, separator)
            + separator + part,
{
    assert(parts.push(part).drop_last() == parts);
}

/// Splitting takes a text apart at the separators, and only there.
pub proof fn splitting_is_undone_by_joining(text: Seq<char>, separator: char)
    ensures
        split_on(text, separator).len() >= 1,
        joined(split_on(text, separator), seq![separator]) == text,
        forall|i: int, k: int|
            0 <= i < split_on(text, separator).len() && 0 <= k < split_on(
                text,
                separator,
            )[i].len() ==> #[trigger] split_on(text, separator)[i][k] != separator,
{
    split_pieces_join_back(text, separator);
    assert forall|i: int, k: int|
        0 <= i < split_on(text, separator).len() && 0 <= k < split_on(
            text,
            separator,
        )[i].len() implies #[trigger] split_on(text, separator)[i][k] != separator by {
        let piece = split_on(text, separator)[i];
        assert(!piece.contains(separator));
        assert(piece.contains(piece[k]));
    }
}

/// The alphabet goes by the first character in which two texts differ; where one
/// text is the beginning of the other, the shorter comes first.
pub proof fn the_first_difference_decides(a: Seq<char>, b: Seq<char>, k: int)
    requires
        0 <= k <= a.len(),
        k <= b.len(),
        forall|i: int| 0 <= i < k ==> a[i] == b[i],
    ensures
        k == a.len() ==> text_le(a, b),
        k == b.len() && k < a.len() ==> !text_le(a, b),
        k < a.len() && k < b.len() && a[k] != b[k] ==> (text_le(a, b) <==> (a[k] as int) < (
        b[k] as int)),
    decreases k,
{
    if k > 0 {
        let x = a.drop_first();
        let y = b.drop_first();
        assert(a[0] == b[0]);
        assert forall|i: int| 0 <= i < k - 1 implies x[i] == y[i] by {
            assert(a[i + 1] == b[i + 1]);
        }
        the_first_difference_decides(x, y, k - 1);
    }
}

/// A part occurs in a text exactly if the text is something, the part, and
/// something else.
pub proof fn an_occurrence_has_two_sides(text: Seq<char>, part: Seq<char>)
    ensures
        forall|a: Seq<char>, b: Seq<char>| text == #[trigger] ((a + part) + b) ==> occurs_in(
            text,
            part,
        ),
        occurs_in(text, part) ==> exists|a: Seq<char>, b: Seq<char>|
            text == #[trigger] ((a + part) + b),
{
    assert forall|a: Seq<char>, b: Seq<char>| text == #[trigger] ((a + part) + b) implies occurs_in(
        text,
        part,
    ) by {
        assert(text.subrange(a.len() as int, (a.len() + part.len()) as int) == part);
        assert(occurs_at(text, part, a.len() as int));
    }
    if occurs_in(text, part) {
        let at = choose|at: int| occurs_at(text, part, at);
        let a = text.take(at);
        let b = text.skip(at + part.len());
        assert(text =~= (a + part) + b);
    }
}

/// Replacing turns each of the one character into the other and leaves the rest
/// in its place.
pub proof fn replacing_goes_by_character(text: Seq<char>, from: char, to: char)
    ensures
        replaced(text, from, to).len() == text.len(),
        forall|i: int|
            0 <= i < text.len() ==> (#[trigger] replaced(text, from, to)[i]) == if text[i] == from {
                to
            } else {
                text[i]
            },
{
}

/// White space is what Unicode says it is.
pub proof fn white_space_is_that_of_unicode(c: char)
    ensures
        is_space(c) <==> (c == '\t' || c == '\n' || c == '\u{b}' || c == '\u{c}' || c == '\r' || c
            == ' ' || c == '\u{85}' || c == '\u{a0}' || c == '\u{1680}' || ('\u{2000}' as int
            <= c as int <= '\u{200a}' as int) || c == '\u{2028}' || c == '\u{2029}' || c
            == '\u{202f}' || c == '\u{205f}' || c == '\u{3000}'),
{
}

/// Trimming takes white space off the two ends and nothing else: white space
/// around a text that neither opens nor ends in it leaves that text.
pub proof fn trimming_takes_the_ends(front: Seq<char>, middle: Seq<char>, back: Seq<char>)
    requires
        forall|i: int| 0 <= i < front.len() ==> is_space(#[trigger] front[i]),
        forall|i: int| 0 <= i < back.len() ==> is_space(#[trigger] back[i]),
        middle.len() > 0 ==> !is_space(middle.first()) && !is_space(middle.last()),
    ensures
        trimmed(front + middle + back) == middle,
{
    let text = front + middle + back;
    lemma_trim_start(front, middle + back);
    assert(text == front + (middle + back));
    if middle.len() == 0 {
        assert(middle + back == back + Seq::<char>::empty());
        lemma_trim_start(back, Seq::empty());
        assert(trim_start(Seq::<char>::empty()) == Seq::<char>::empty());
        assert(middle == Seq::<char>::empty());
    } else {
        assert((middle + back)[0] == middle[0]);
        lemma_trim_end(middle, back);
    }
}

proof fn lemma_trim_start(front: Seq<char>, rest: Seq<char>)
    requires
        forall|i: int| 0 <= i < front.len() ==> is_space(#[trigger] front[i]),
    ensures
        trim_start(front + rest) == trim_start(rest),
    decreases front.len(),
{
    if front.len() == 0 {
        assert(front + rest == rest);
    } else {
        let tail = front.drop_first();
        assert(is_space(front[0]));
        assert((front + rest)[0] == front[0]);
        assert forall|i: int| 0 <= i < tail.len() implies is_space(#[trigger] tail[i]) by {
            assert(is_space(front[i + 1]));
        }
        lemma_trim_start(tail, rest);
        assert((front + rest).drop_first() == tail + rest);
    }
}

proof fn lemma_trim_end(middle: Seq<char>, back: Seq<char>)
    requires
        middle.len() > 0,
        !is_space(middle.last()),
        forall|i: int| 0 <= i < back.len() ==> is_space(#[trigger] back[i]),
    ensures
        trim_end(middle + back) == middle,
    decreases back.len(),
{
    if back.len() == 0 {
        assert(middle + back == middle);
    } else {
        let rest = back.drop_last();
        assert(is_space(back[back.len() - 1]));
        assert forall|i: int| 0 <= i < rest.len() implies is_space(#[trigger] rest[i]) by {
            assert(is_space(back[i]));
        }
        lemma_trim_end(middle, rest);
        assert((middle + back).drop_last() == middle + rest);
    }
}

/// The texts of a list are those of its members, one for one.
pub proof fn texts_are_listed_one_for_one(strings: Seq<String>)
    ensures
        views(strings).len() == strings.len(),
        forall|i: int| 0 <= i < strings.len() ==> (#[trigger] views(strings)[i]) == strings[i]@,
{
}

} // verus!
