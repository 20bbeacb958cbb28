//! Instants in time, and how they are written out.

use vstd::prelude::*;

verus! {

/// The earliest second that an instant can lie in.
pub const FIRST_SECOND: i64 = -377_705_023_201;

/// The latest second that an instant can lie in.
pub const LAST_SECOND: i64 = 253_402_207_200;

/// Whether `second` and `nanosecond` are the two parts of an instant: both in
/// range, and neither pointing the other way.
pub open spec fn is_instant(second: i64, nanosecond: i32) -> bool {
    &&& FIRST_SECOND <= second <= LAST_SECOND
    &&& -999_999_999 <= nanosecond <= 999_999_999
    &&& (second > 0 ==> nanosecond >= 0)
    &&& (second < 0 ==> nanosecond <= 0)
    &&& (second == FIRST_SECOND ==> nanosecond == 0)
}

/// What `strftime` of the `jiff` crate writes for an instant in UTC.
pub uninterp spec fn utc_strftime(second: i64, nanosecond: i32, format: Seq<char>) -> Seq<char>;

/// What the `jiff` crate displays for an instant: its RFC 3339 form in UTC.
pub uninterp spec fn instant_display(second: i64, nanosecond: i32) -> Seq<char>;

/// `jiff::Zoned::strftime` of the instant, taken to UTC by
/// `jiff::Timestamp::to_zoned`. The text is a function of the instant and of
/// the format: nothing of the machine's own clock or zone goes into it. A
/// malformed directive is copied out as it stands, so every format has a text.
#[verifier::external_body]
fn strftime_utc(second: i64, nanosecond: i32, format: &str) -> (text: String)
    requires
        is_instant(second, nanosecond),
    ensures
        text@ == utc_strftime(second, nanosecond, format@),
{
    let instant = jiff::Timestamp::new(second, nanosecond).unwrap();
    instant.to_zoned(jiff::tz::TimeZone::UTC).strftime(format).to_string()
}

/// `jiff::Timestamp`'s `Display`. The text is a function of the instant.
#[verifier::external_body]
fn display_instant(second: i64, nanosecond: i32) -> (text: String)
    requires
        is_instant(second, nanosecond),
    ensures
        text@ == instant_display(second, nanosecond),
{
    jiff::Timestamp::new(second, nanosecond).unwrap().to_string()
}

/// An instant, as whole seconds since the Unix epoch and the nanoseconds
/// beyond them, both counted away from zero.
#[derive(Clone, Copy, PartialEq, Eq, Structural, Debug)]
pub struct Timestamp {
    second: i64,
    nanosecond: i32,
}

impl Timestamp {
    #[verifier::type_invariant]
    spec fn in_range(self) -> bool {
        is_instant(self.second, self.nanosecond)
    }

    /// Whole seconds since the Unix epoch.
    pub closed spec fn spec_second(self) -> i64 {
        self.second
    }

    /// Nanoseconds beyond the whole seconds.
    pub closed spec fn spec_nanosecond(self) -> i32 {
        self.nanosecond
    }

    /// The instant of the given parts, if they are those of one.
    pub fn from_parts(second: i64, nanosecond: i32) -> (instant: Option<Timestamp>)
        ensures
            instant is Some <==> is_instant(second, nanosecond),
            instant is Some ==> instant->0.spec_second() == second && instant->0.spec_nanosecond()
                == nanosecond,
    {
        if FIRST_SECOND <= second && second <= LAST_SECOND && -999_999_999 <= nanosecond
            && nanosecond <= 999_999_999 && (second <= 0 || nanosecond >= 0) && (second >= 0
            || nanosecond <= 0) && (second != FIRST_SECOND || nanosecond == 0) {
            Some(Timestamp { second, nanosecond })
        } else {
            None
        }
    }

    /// Whole seconds since the Unix epoch, without the fraction.
    pub fn as_second(&self) -> (second: i64)
        ensures
            second == self.spec_second(),
            FIRST_SECOND <= second <= LAST_SECOND,
    {
        proof {
            use_type_invariant(self);
        }
        self.second
    }

    /// The instant in UTC, written as `format` says.
    pub fn strftime(&self, format: &str) -> (text: String)
        ensures
            text@ == utc_strftime(self.spec_second(), self.spec_nanosecond(), format@),
    {
        proof {
            use_type_invariant(self);
        }
        strftime_utc(self.second, self.nanosecond, format)
    }

    /// The instant in RFC 3339 form.
    pub fn display(&self) -> (text: String)
        ensures
            text@ == instant_display(self.spec_second(), self.spec_nanosecond()),
    {
        proof {
            use_type_invariant(self);
        }
        display_instant(self.second, self.nanosecond)
    }
}

/// An instant lies between the first and the last second that there is, with less
/// than a second beyond it, and the two parts do not point different ways.
pub proof fn an_instant_is_a_second_and_a_fraction(second: i64, nanosecond: i32)
    ensures
        is_instant(second, nanosecond) <==> {
            &&& -377_705_023_201 <= second <= 253_402_207_200
            &&& -1_000_000_000 < nanosecond < 1_000_000_000
            &&& !(second > 0 && nanosecond < 0)
            &&& !(second < 0 && nanosecond > 0)
            &&& !(second == -377_705_023_201 && nanosecond < 0)
        },
{
}

} // verus!
