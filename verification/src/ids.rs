//! Identifiers: 128-bit values written as hyphenated UUIDs.

use vstd::prelude::*;
use vstd::arithmetic::div_mod::{lemma_div_denominator, lemma_fundamental_div_mod};
use vstd::arithmetic::power::{lemma_pow_positive, pow};

verus! {

/// The character of one hexadecimal digit, in lower case.
pub open spec fn hex_char(digit: int) -> char {
    if digit < 10 {
        (48 + digit) as char
    } else {
        (87 + digit) as char
    }
}

/// The hexadecimal digit of `value` at `place`, counted from the right.
pub open spec fn hex_digit(value: u128, place: nat) -> int {
    (value as int / pow(16, place)) % 16
}

/// All thirty-two hexadecimal digits of `value`, the highest first.
pub open spec fn hex_digits(value: u128) -> Seq<char> {
    Seq::new(32, |i: int| hex_char(hex_digit(value, (31 - i) as nat)))
}

/// `value` as a UUID: its hexadecimal digits in groups of eight, four, four,
/// four and twelve with a hyphen between them.
pub open spec fn hyphenated(value: u128) -> Seq<char> {
    let digits = hex_digits(value);
    digits.subrange(0, 8) + seq!['-'] + digits.subrange(8, 12) + seq!['-'] + digits.subrange(12, 16)
        + seq!['-'] + digits.subrange(16, 20) + seq!['-'] + digits.subrange(20, 32)
}

/// Whether `value` is a random UUID: version four, of the RFC 9562 variant.
pub open spec fn is_random_uuid(value: u128) -> bool {
    hex_digit(value, 19) == 4 && 8 <= hex_digit(value, 15) <= 11
}

/// `uuid::Uuid`'s `Display`, on `uuid::Uuid::from_u128`: the hyphenated form in
/// lower case.
#[verifier::external_body]
pub(crate) fn uuid_text(value: u128) -> (text: String)
    ensures
        text@ == hyphenated(value),
{
    uuid::Uuid::from_u128(value).to_string()
}

/// `uuid::Uuid::new_v4`, as its 128-bit value. Which value comes is a matter of
/// chance; of every one it holds that it is a version-four UUID of the RFC 9562
/// variant. It panics where the operating system has no randomness to give,
/// whatever the caller does.
#[verifier::external_body]
pub(crate) fn random_uuid() -> (value: u128)
    ensures
        is_random_uuid(value),
{
    uuid::Uuid::new_v4().as_u128()
}

/// A session.
#[derive(Clone, Copy, PartialEq, Eq, Structural, Debug)]
pub struct SessionId {
    pub value: u128,
}

/// A workspace.
#[derive(Clone, Copy, PartialEq, Eq, Structural, Debug)]
pub struct WorkspaceId {
    pub value: u128,
}

/// A project within a workspace.
#[derive(Clone, Copy, PartialEq, Eq, Structural, Debug)]
pub struct ProjectId {
    pub value: u128,
}

/// One observation.
#[derive(Clone, Copy, PartialEq, Eq, Structural, Debug)]
pub struct ObservationId {
    pub value: u128,
}

impl SessionId {
    /// The session's identifier as a UUID.
    pub fn text(&self) -> (text: String)
        ensures
            text@ == hyphenated(self.value),
    {
        uuid_text(self.value)
    }
}

/// Two values whose digits agree from `place` on agree in what those digits
/// stand for.
proof fn lemma_digits_determine(a: u128, b: u128, place: nat)
    requires
        place <= 32,
        forall|k: nat| k < 32 ==> #[trigger] hex_digit(a, k) == hex_digit(b, k),
    ensures
        a as int / pow(16, place) == b as int / pow(16, place),
    decreases 32 - place,
{
    lemma_pow_positive(16, place);
    if place == 32 {
        assert(pow(16, 32) == 0x1_0000_0000_0000_0000_0000_0000_0000_0000) by {
            reveal_with_fuel(pow, 33);
        }
    } else {
        lemma_digits_determine(a, b, place + 1);
        assert(pow(16, place + 1) == 16 * pow(16, place)) by {
            reveal_with_fuel(pow, 2);
        }
        lemma_div_denominator(a as int, pow(16, place), 16);
        lemma_div_denominator(b as int, pow(16, place), 16);
        assert(pow(16, place) * 16 == 16 * pow(16, place));
        lemma_fundamental_div_mod(a as int / pow(16, place), 16);
        lemma_fundamental_div_mod(b as int / pow(16, place), 16);
        assert(hex_digit(a, place) == hex_digit(b, place));
    }
}

/// No two values share a UUID text.
pub proof fn hyphenated_is_injective(a: u128, b: u128)
    requires
        hyphenated(a) == hyphenated(b),
    ensures
        a == b,
{
    let x = hyphenated(a);
    let y = hyphenated(b);
    assert forall|k: nat| k < 32 implies #[trigger] hex_digit(a, k) == hex_digit(b, k) by {
        let i = 31 - k;
        let at = if i < 8 {
            i
        } else if i < 12 {
            i + 1
        } else if i < 16 {
            i + 2
        } else if i < 20 {
            i + 3
        } else {
            i + 4
        };
        assert(x[at] == hex_digits(a)[i]);
        assert(y[at] == hex_digits(b)[i]);
        assert(0 <= hex_digit(a, k) < 16);
        assert(0 <= hex_digit(b, k) < 16);
    }
    lemma_digits_determine(a, b, 0);
    assert(pow(16, 0) == 1) by {
        reveal_with_fuel(pow, 1);
    }
}

} // verus!
