//! Instants, and the texts they are read from.

use vstd::prelude::*;

verus! {

/// A point in time as the log texts give it.
#[derive(Clone, Copy, Debug, PartialEq, Eq, Structural)]
pub struct Instant {
    /// Milliseconds since the Unix epoch.
    pub millis: i64,
    /// Whole seconds since the Unix epoch.
    pub seconds: i64,
    /// Nanoseconds since the last whole second; a leap second counts on past 999,999,999.
    pub nanos: u32,
}

impl Instant {
    /// Whether this instant is `other` or comes before it.
    pub open spec fn at_or_before(self, other: Instant) -> bool {
        self.seconds < other.seconds || (self.seconds == other.seconds && self.nanos
            <= other.nanos)
    }

    /// Whether this instant is `other` or comes before it.
    pub fn is_at_or_before(&self, other: &Instant) -> (result: bool)
        ensures
            result == self.at_or_before(*other),
    {
        self.seconds < other.seconds || (self.seconds == other.seconds && self.nanos
            <= other.nanos)
    }
}

/// What an RFC 3339 text says: the instant, or the reason why there is none.
pub uninterp spec fn rfc3339(text: Seq<char>) -> Result<Instant, Seq<char>>;

/// What `chrono::DateTime::parse_from_rfc3339` makes of a text: the instant in its three measures
/// (`timestamp_millis`, `timestamp` and `timestamp_subsec_nanos`), or the error as chrono words
/// it. The contract names the outcome, a function of the text alone, and says how the three
/// measures go together.
#[verifier::external_body]
pub(crate) fn parse_rfc3339(text: &str) -> (result: Result<Instant, String>)
    ensures
        match result {
            Ok(instant) => rfc3339(text@) == Ok::<Instant, Seq<char>>(instant) && instant.millis
                == instant.seconds * 1000 + instant.nanos / 1_000_000,
            Err(message) => rfc3339(text@) == Err::<Instant, Seq<char>>(message@),
        },
{
    match chrono::DateTime::parse_from_rfc3339(text) {
        Ok(parsed) => Ok(
            Instant {
                millis: parsed.timestamp_millis(),
                seconds: parsed.timestamp(),
                nanos: parsed.timestamp_subsec_nanos(),
            },
        ),
        Err(error) => Err(error.to_string()),
    }
}

/// The milliseconds since the Unix epoch that an RFC 3339 text says, or why it says none.
pub open spec fn epoch_millis(text: Seq<char>) -> Result<i64, Seq<char>> {
    match rfc3339(text) {
        Ok(instant) => Ok(instant.millis),
        Err(message) => Err(message),
    }
}

/// The milliseconds since the Unix epoch that an RFC 3339 text says, or why it says none.
pub fn parse_epoch_millis(timestamp: &str) -> (result: Result<i64, String>)
    ensures
        match result {
            Ok(millis) => epoch_millis(timestamp@) == Ok::<i64, Seq<char>>(millis),
            Err(message) => epoch_millis(timestamp@) == Err::<i64, Seq<char>>(message@),
        },
{
    match parse_rfc3339(timestamp) {
        Ok(instant) => Ok(instant.millis),
        Err(message) => Err(message),
    }
}

/// The instant that an RFC 3339 text says, where it says one.
pub open spec fn instant_of(text: Seq<char>) -> Option<Instant> {
    match rfc3339(text) {
        Ok(instant) => Some(instant),
        Err(_) => None,
    }
}

/// The instant that an RFC 3339 text says, where it says one.
pub fn parse_instant(timestamp: &str) -> (result: Option<Instant>)
    ensures
        result == instant_of(timestamp@),
{
    match parse_rfc3339(timestamp) {
        Ok(instant) => Some(instant),
        Err(_) => None,
    }
}

} // verus!
