//! A validated instant, and the strict RFC 3339 parser that is the only way
//! to one.

use vstd::prelude::*;

verus! {

/// What a [`DateTime`] stands for.
pub struct Moment {
    /// Whole seconds since 1970-01-01T00:00:00Z.
    pub seconds: int,
    /// Nanoseconds past that second; from 1 000 000 000 on, a leap second.
    pub nanos: int,
    /// Seconds by which local time is ahead of UTC.
    pub offset: int,
    /// The RFC 3339 text of the instant at this offset.
    pub text: Seq<char>,
}

/// A calendar date and time at a fixed offset from UTC, as the strict
/// parser read it from a text.
#[derive(Clone, Debug)]
pub struct DateTime {
    seconds: i64,
    nanos: u32,
    offset: i32,
    text: String,
}

impl View for DateTime {
    type V = Moment;

    closed spec fn view(&self) -> Moment {
        Moment {
            seconds: self.seconds as int,
            nanos: self.nanos as int,
            offset: self.offset as int,
            text: self.text@,
        }
    }
}

/// What `chrono::DateTime::parse_from_rfc3339` makes of `text`: `None` where
/// it refuses the text, else the instant it reads, with the rendering that
/// `to_rfc3339` gives of it.
pub uninterp spec fn rfc3339_moment(text: Seq<char>) -> Option<Moment>;

/// Parses `text` with `chrono::DateTime::parse_from_rfc3339`. The contract
/// claims that the outcome depends on the text alone: whether the parser
/// accepts it and, if so, the values that `timestamp`,
/// `timestamp_subsec_nanos`, `offset().local_minus_utc()` and `to_rfc3339`
/// give for the parsed date-time.
#[verifier::external_body]
pub(crate) fn parse_rfc3339(text: &str) -> (r: Option<DateTime>)
    ensures
        r matches Some(dt) ==> rfc3339_moment(text@) == Some(dt@),
        r is None ==> rfc3339_moment(text@) is None,
{
    match chrono::DateTime::parse_from_rfc3339(text) {
        Ok(dt) => Some(
            DateTime {
                seconds: dt.timestamp(),
                nanos: dt.timestamp_subsec_nanos(),
                offset: dt.offset().local_minus_utc(),
                text: dt.to_rfc3339(),
            },
        ),
        Err(_) => None,
    }
}

impl DateTime {
    /// Whole seconds since 1970-01-01T00:00:00Z.
    pub fn timestamp(&self) -> (r: i64)
        ensures
            r == self@.seconds,
    {
        self.seconds
    }

    /// Nanoseconds past the whole second.
    pub fn timestamp_subsec_nanos(&self) -> (r: u32)
        ensures
            r == self@.nanos,
    {
        self.nanos
    }

    /// Seconds by which local time is ahead of UTC.
    pub fn local_minus_utc(&self) -> (r: i32)
        ensures
            r == self@.offset,
    {
        self.offset
    }

    /// The RFC 3339 text of this date-time, such as
    /// `1996-12-19T16:39:57-08:00`.
    pub fn to_rfc3339(&self) -> (r: String)
        ensures
            r@ == self@.text,
    {
        self.text.clone()
    }
}

} // verus!
