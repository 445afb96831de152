//! The rate-limit windows that a log line reports.

use crate::json::{Json, JsonView};
use crate::local_time::{has_local_time, is_local_minute, LocalTimes};
use crate::models::{RateLimitSampleRecord, RateLimitSampleRecordView};
use crate::text::{copy_found, copy_opt, first_text, opt_text};
use vstd::prelude::*;

verus! {

/// One reported window, with its limits as seconds since the Unix epoch.
#[derive(Clone, Debug)]
pub struct RateLimitReading {
    pub bucket: String,
    pub sample_timestamp: String,
    pub limit_id: Option<String>,
    pub limit_name: Option<String>,
    pub plan_type: Option<String>,
    pub window_start_seconds: i64,
    pub resets_at_seconds: i64,
    pub used_percent: i64,
    pub remaining_percent: i64,
}

/// What a `RateLimitReading` holds.
#[verifier::ext_equal]
pub struct RateLimitReadingView {
    pub bucket: Seq<char>,
    pub sample_timestamp: Seq<char>,
    pub limit_id: Option<Seq<char>>,
    pub limit_name: Option<Seq<char>>,
    pub plan_type: Option<Seq<char>>,
    pub window_start_seconds: i64,
    pub resets_at_seconds: i64,
    pub used_percent: i64,
    pub remaining_percent: i64,
}

impl View for RateLimitReading {
    type V = RateLimitReadingView;

    open spec fn view(&self) -> RateLimitReadingView {
        RateLimitReadingView {
            bucket: self.bucket@,
            sample_timestamp: self.sample_timestamp@,
            limit_id: opt_text(self.limit_id),
            limit_name: opt_text(self.limit_name),
            plan_type: opt_text(self.plan_type),
            window_start_seconds: self.window_start_seconds,
            resets_at_seconds: self.resets_at_seconds,
            used_percent: self.used_percent,
            remaining_percent: self.remaining_percent,
        }
    }
}

/// What each reading of a list holds.
pub open spec fn reading_views(readings: Seq<RateLimitReading>) -> Seq<RateLimitReadingView> {
    readings.map_values(|reading: RateLimitReading| reading@)
}

/// The minutes of a window of seven days.
pub const SEVEN_DAY_MINUTES: i64 = 10_080;

/// A share held between 0 and 100.
pub open spec fn percent_of(share: i64) -> i64 {
    if share < 0 {
        0
    } else if share > 100 {
        100
    } else {
        share
    }
}

/// A share held between 0 and 100.
pub fn clamp_percent(share: i64) -> (percent: i64)
    ensures
        percent == percent_of(share),
{
    if share < 0 {
        0
    } else if share > 100 {
        100
    } else {
        share
    }
}

/// The length of a window in minutes, under either of its two keys.
pub open spec fn window_minutes(window: JsonView) -> Option<i64> {
    match window.integer_at("window_duration_mins"@) {
        Some(minutes) => Some(minutes),
        None => window.integer_at("window_minutes"@),
    }
}

/// What one window of a report says; nothing where its share, its length or its end is missing.
/// A window of seven days counts as such wherever it stands.
pub open spec fn window_reading(
    timestamp: Seq<char>,
    limits: JsonView,
    window: JsonView,
    default_bucket: Seq<char>,
) -> Option<RateLimitReadingView> {
    match (window.percent_at("used_percent"@), window_minutes(window), window.integer_at(
        "resets_at"@,
    )) {
        (Some(used), Some(minutes), Some(resets_at)) => Some(
            RateLimitReadingView {
                bucket: if minutes == SEVEN_DAY_MINUTES {
                    "seven_day"@
                } else {
                    default_bucket
                },
                sample_timestamp: timestamp,
                limit_id: first_text(limits.text_at("limit_id"@), window.text_at("limit_id"@)),
                limit_name: first_text(
                    limits.text_at("limit_name"@),
                    window.text_at("limit_name"@),
                ),
                plan_type: limits.text_at("plan_type"@),
                window_start_seconds: resets_at.wrapping_sub(minutes.wrapping_mul(60)),
                resets_at_seconds: resets_at,
                used_percent: percent_of(used),
                remaining_percent: percent_of(100i64.wrapping_sub(used)),
            },
        ),
        _ => None,
    }
}

/// The reading of the window under `key`, as a list of at most one.
pub open spec fn window_readings(
    timestamp: Seq<char>,
    limits: JsonView,
    key: Seq<char>,
    default_bucket: Seq<char>,
) -> Seq<RateLimitReadingView> {
    match limits.get(key) {
        Some(window) => match window_reading(timestamp, limits, window, default_bucket) {
            Some(reading) => seq![reading],
            None => Seq::empty(),
        },
        None => Seq::empty(),
    }
}

/// The windows that a payload reports, the primary one first.
pub open spec fn payload_readings(timestamp: Seq<char>, payload: JsonView) -> Seq<
    RateLimitReadingView,
> {
    let limits = payload.get_or_null("rate_limits"@);
    window_readings(timestamp, limits, "primary"@, "five_hour"@) + window_readings(
        timestamp,
        limits,
        "secondary"@,
        "seven_day"@,
    )
}

/// Reads the window under `key` and appends what it says.
fn push_window(
    readings: &mut Vec<RateLimitReading>,
    timestamp: &str,
    limits: &Json,
    key: &str,
    default_bucket: &str,
)
    ensures
        reading_views(final(readings)@) == reading_views(old(readings)@) + window_readings(
            timestamp@,
            limits@,
            key@,
            default_bucket@,
        ),
{
    let ghost before = reading_views(readings@);
    proof {
        assert(before + Seq::<RateLimitReadingView>::empty() =~= before);
    }
    let window = match limits.get(key) {
        Some(window) => window,
        None => {
            return ;
        },
    };
    let used = match window.percent_at("used_percent") {
        Some(used) => used,
        None => {
            return ;
        },
    };
    let explicit_minutes = match window.integer_at("window_duration_mins") {
        Some(minutes) => Some(minutes),
        None => window.integer_at("window_minutes"),
    };
    let minutes = match explicit_minutes {
        Some(minutes) => minutes,
        None => {
            return ;
        },
    };
    let resets_at = match window.integer_at("resets_at") {
        Some(resets_at) => resets_at,
        None => {
            return ;
        },
    };
    let bucket = if minutes == SEVEN_DAY_MINUTES {
        "seven_day"
    } else {
        default_bucket
    };
    let limit_id = match limits.text_at("limit_id") {
        Some(text) => Some(text),
        None => window.text_at("limit_id"),
    };
    let limit_name = match limits.text_at("limit_name") {
        Some(text) => Some(text),
        None => window.text_at("limit_name"),
    };
    let reading = RateLimitReading {
        bucket: bucket.to_owned(),
        sample_timestamp: timestamp.to_owned(),
        limit_id: copy_found(limit_id),
        limit_name: copy_found(limit_name),
        plan_type: copy_found(limits.text_at("plan_type")),
        window_start_seconds: resets_at.wrapping_sub(minutes.wrapping_mul(60)),
        resets_at_seconds: resets_at,
        used_percent: clamp_percent(used),
        remaining_percent: clamp_percent(100i64.wrapping_sub(used)),
    };
    readings.push(reading);
    proof {
        assert(reading_views(readings@) =~= before + seq![reading@]);
    }
}

/// The windows that a payload reports.
pub fn extract_rate_limit_readings(timestamp: &str, payload: &Json) -> (readings: Vec<
    RateLimitReading,
>)
    ensures
        reading_views(readings@) == payload_readings(timestamp@, payload@),
{
    let mut readings: Vec<RateLimitReading> = Vec::new();
    match payload.get("rate_limits") {
        Some(limits) => {
            push_window(&mut readings, timestamp, limits, "primary", "five_hour");
            push_window(&mut readings, timestamp, limits, "secondary", "seven_day");
        },
        None => {},
    }
    proof {
        assert(reading_views(readings@) =~= payload_readings(timestamp@, payload@));
    }
    readings
}

/// The sample that a reading gives, with its limits as local times.
pub open spec fn sample_view(
    reading: RateLimitReadingView,
    session_id: Option<Seq<char>>,
    window_start: Seq<char>,
    resets_at: Seq<char>,
) -> RateLimitSampleRecordView {
    RateLimitSampleRecordView {
        source_kind: "session"@,
        source_session_id: session_id,
        bucket: reading.bucket,
        sample_timestamp: reading.sample_timestamp,
        limit_id: reading.limit_id,
        limit_name: reading.limit_name,
        plan_type: reading.plan_type,
        window_start,
        resets_at,
        used_percent: reading.used_percent,
        remaining_percent: reading.remaining_percent,
    }
}

/// The sample that a reading gives, with its limits as local times.
pub fn sample_from_reading(
    reading: &RateLimitReading,
    session_id: &Option<String>,
    window_start: String,
    resets_at: String,
) -> (sample: RateLimitSampleRecord)
    ensures
        sample@ == sample_view(reading@, opt_text(*session_id), window_start@, resets_at@),
{
    RateLimitSampleRecord {
        source_kind: "session".to_owned(),
        source_session_id: copy_opt(session_id),
        bucket: reading.bucket.clone(),
        sample_timestamp: reading.sample_timestamp.clone(),
        limit_id: copy_opt(&reading.limit_id),
        limit_name: copy_opt(&reading.limit_name),
        plan_type: copy_opt(&reading.plan_type),
        window_start,
        resets_at,
        used_percent: reading.used_percent,
        remaining_percent: reading.remaining_percent,
    }
}

/// The sample that a reading gives, with what the machine said of the start and the end of its
/// window.
fn sample_of_times(
    reading: &RateLimitReading,
    session_id: &Option<String>,
    start: LocalTimes,
    end: LocalTimes,
) -> (sample: RateLimitSampleRecord)
    requires
        start@.is_minute_of(reading.window_start_seconds),
        end@.is_minute_of(reading.resets_at_seconds),
    ensures
        gives_sample(reading@, opt_text(*session_id), sample@),
{
    proof {
        assert(start@.is_minute_of(reading@.window_start_seconds));
        assert(end@.is_minute_of(reading@.resets_at_seconds));
    }
    sample_from_reading(reading, session_id, start.into_text(), end.into_text())
}

/// The readings among the first `end` whose limits both have a local time.
pub open spec fn local_readings(readings: Seq<RateLimitReadingView>, end: int) -> Seq<
    RateLimitReadingView,
>
    decreases end,
{
    if end <= 0 {
        Seq::empty()
    } else {
        let earlier = local_readings(readings, end - 1);
        let reading = readings[end - 1];
        if has_local_time(reading.resets_at_seconds) && has_local_time(
            reading.window_start_seconds,
        ) {
            earlier.push(reading)
        } else {
            earlier
        }
    }
}

/// Whether a sample is what a reading gives on this machine: its start is a local time of the
/// start of the window, its end one of the end, and in all else it is equal to the reading.
pub open spec fn gives_sample(
    reading: RateLimitReadingView,
    session_id: Option<Seq<char>>,
    sample: RateLimitSampleRecordView,
) -> bool {
    &&& sample == sample_view(reading, session_id, sample.window_start, sample.resets_at)
    &&& is_local_minute(sample.window_start, reading.window_start_seconds)
    &&& is_local_minute(sample.resets_at, reading.resets_at_seconds)
}

/// Whether `samples` are what `readings` give on this machine: one sample for each reading whose
/// limits have a local time, in the same order.
pub open spec fn localized(
    readings: Seq<RateLimitReadingView>,
    session_id: Option<Seq<char>>,
    samples: Seq<RateLimitSampleRecord>,
) -> bool {
    let kept = local_readings(readings, readings.len() as int);
    samples.len() == kept.len() && forall|index: int|
        0 <= index < samples.len() ==> gives_sample(
            kept[index],
            session_id,
            (#[trigger] samples[index])@,
        )
}

/// The samples that readings give in the time zone of this machine.
pub fn localize_readings(
    readings: &Vec<RateLimitReading>,
    session_id: &Option<String>,
) -> (samples: Vec<RateLimitSampleRecord>)
    ensures
        localized(reading_views(readings@), opt_text(*session_id), samples@),
{
    let mut samples: Vec<RateLimitSampleRecord> = Vec::new();
    let ghost shown = reading_views(readings@);
    let mut index: usize = 0;
    while index < readings.len()
        invariant
            index <= readings.len(),
            shown == reading_views(readings@),
            samples.len() == local_readings(shown, index as int).len(),
            forall|done: int|
                0 <= done < samples.len() ==> gives_sample(
                    local_readings(shown, index as int)[done],
                    opt_text(*session_id),
                    (#[trigger] samples[done])@,
                ),
        decreases readings.len() - index,
    {
        let reading = &readings[index];
        proof {
            assert(shown[index as int] == reading@);
        }
        let end = LocalTimes::minute_of(reading.resets_at_seconds);
        let start = LocalTimes::minute_of(reading.window_start_seconds);
        match (start, end) {
            (Some(start), Some(end)) => {
                samples.push(sample_of_times(reading, session_id, start, end));
            },
            _ => {},
        }
        index = index + 1;
    }
    samples
}

/// The samples that a payload reports, in the time zone of this machine, of no session yet.
pub fn extract_rate_limit_samples(timestamp: &str, payload: &Json) -> (samples: Vec<
    RateLimitSampleRecord,
>)
    ensures
        localized(payload_readings(timestamp@, payload@), None, samples@),
{
    let readings = extract_rate_limit_readings(timestamp, payload);
    localize_readings(&readings, &None)
}

} // verus!
