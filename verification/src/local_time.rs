//! Local times, in the time zone of this machine.
//!
//! What a local time says depends on the machine, and two calls may differ. What a text was asked
//! for does not: a `LocalTimes` keeps it with the texts, and only the call itself makes one.

use crate::text::{first_text, opt_text};
use vstd::prelude::*;

verus! {

/// The first second that has a local time.
pub const FIRST_LOCAL_SECOND: i64 = -8_334_601_228_800;

/// The last second that has a local time.
pub const LAST_LOCAL_SECOND: i64 = 8_210_266_876_799;

/// Whether a count of seconds since the Unix epoch has a local time.
pub open spec fn has_local_time(seconds: i64) -> bool {
    FIRST_LOCAL_SECOND <= seconds <= LAST_LOCAL_SECOND
}

/// What the machine said of the local time of a second.
#[derive(Debug)]
pub struct LocalTimes {
    seconds: i64,
    second: u32,
    nanosecond: u32,
    changed: Option<String>,
    plain: String,
}

/// What a `LocalTimes` holds.
pub struct LocalTimesView {
    /// The second since the Unix epoch that was asked for.
    pub seconds: i64,
    /// The second of the minute that the local time was changed to.
    pub second: u32,
    /// The nanosecond that it was changed to.
    pub nanosecond: u32,
    /// The changed local time, where there is one.
    pub changed: Option<Seq<char>>,
    /// The local time as it is.
    pub plain: Seq<char>,
}

impl View for LocalTimes {
    type V = LocalTimesView;

    closed spec fn view(&self) -> LocalTimesView {
        LocalTimesView {
            seconds: self.seconds,
            second: self.second,
            nanosecond: self.nanosecond,
            changed: opt_text(self.changed),
            plain: self.plain@,
        }
    }
}

impl LocalTimesView {
    /// Whether this is the local time of a second, and of the start of its minute.
    pub open spec fn is_minute_of(self, seconds: i64) -> bool {
        self.seconds == seconds && self.second == 0 && self.nanosecond == 0
    }

    /// The text that is shown: the changed local time where there is one, or else the plain one.
    pub open spec fn shown(self) -> Seq<char> {
        first_text(self.changed, Some(self.plain))->0
    }
}

/// Whether the machine gave this text for a second: that of the start of its minute, where the
/// minute has a start in local time, or else that of the second itself.
pub open spec fn is_local_minute(text: Seq<char>, seconds: i64) -> bool {
    exists|times: LocalTimes| #[trigger] times@.is_minute_of(seconds) && times@.shown() == text
}

/// The local time of a second as RFC 3339 texts: as it is, and with another second and nanosecond.
/// The calls are `timestamp_opt` of `chrono::Local`, the earlier one where there are two,
/// `with_second` and `with_nanosecond` of chrono's `Timelike`, and `DateTime::to_rfc3339`. There is
/// a local time for every second that chrono can represent as a date and for no other. The
/// contract says what was asked for; what the texts say, and whether the changed one is there,
/// depends on the time zone of the machine and is left open.
#[verifier::external_body]
fn local_times(seconds: i64, second: u32, nanosecond: u32) -> (times: Option<LocalTimes>)
    ensures
        times is Some <==> has_local_time(seconds),
        times is Some ==> times->0@.seconds == seconds && times->0@.second == second
            && times->0@.nanosecond == nanosecond,
{
    let moment = chrono::TimeZone::timestamp_opt(&chrono::Local, seconds, 0).earliest()?;
    let changed = chrono::Timelike::with_second(&moment, second)
        .and_then(|start| chrono::Timelike::with_nanosecond(&start, nanosecond))
        .map(|start| start.to_rfc3339());
    Some(LocalTimes { seconds, second, nanosecond, changed, plain: moment.to_rfc3339() })
}

/// The text that is shown of a local time: the changed one where there is one, or else the plain
/// one.
pub fn shown_time(changed: Option<String>, plain: String) -> (text: String)
    ensures
        text@ == first_text(opt_text(changed), Some(plain@))->0,
{
    match changed {
        Some(text) => text,
        None => plain,
    }
}

impl LocalTimes {
    /// The local times of a second and of the start of its minute.
    pub fn minute_of(seconds: i64) -> (times: Option<LocalTimes>)
        ensures
            times is Some <==> has_local_time(seconds),
            times is Some ==> times->0@.is_minute_of(seconds),
    {
        local_times(seconds, 0, 0)
    }

    /// The text that is shown.
    pub fn into_text(self) -> (text: String)
        ensures
            text@ == self@.shown(),
    {
        shown_time(self.changed, self.plain)
    }
}

} // verus!
