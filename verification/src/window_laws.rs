//! What a report says of its windows: how long they are, when they end, and how much is used.

use crate::json::JsonView;
use crate::local_time::{has_local_time, is_local_minute, LocalTimes};
use crate::models::RateLimitSampleRecord;
use crate::numbers::rounded;
use crate::rate_limits::{
    gives_sample, local_readings, localized, payload_readings, window_minutes, window_reading,
    window_readings, RateLimitReadingView,
};
use crate::record_laws::{is_said, said_text_is_found, says_no_text};
use vstd::prelude::*;

verus! {

/// Whether an object's field is this integer.
pub open spec fn says_integer(object: JsonView, key: Seq<char>, integer: i64) -> bool {
    object.get(key) matches Some(JsonView::Number { integer: Some(stated), .. }) && stated
        == integer
}

/// Whether no field of an object with this key is an integer.
pub open spec fn says_no_integer(object: JsonView, key: Seq<char>) -> bool {
    forall|integer: i64| !#[trigger] says_integer(object, key, integer)
}

/// Whether a window states its length in minutes, under the first of its two keys or else under
/// the second.
pub open spec fn states_minutes(window: JsonView, minutes: i64) -> bool {
    says_integer(window, "window_duration_mins"@, minutes) || (says_no_integer(
        window,
        "window_duration_mins"@,
    ) && says_integer(window, "window_minutes"@, minutes))
}

/// Whether a window states the share that is used, as an integer or as a number that rounds to it.
pub open spec fn states_share(window: JsonView, share: i64) -> bool {
    window.get("used_percent"@) matches Some(JsonView::Number { integer, double_bits }) && (
    integer == Some(share) || (integer is None && double_bits is Some && rounded(double_bits->0)
        == share))
}

/// Whether a window states all that makes a reading.
pub open spec fn states_window(window: JsonView, minutes: i64, end: i64, share: i64) -> bool {
    states_minutes(window, minutes) && says_integer(window, "resets_at"@, end) && states_share(
        window,
        share,
    )
}

/// Whether a reading is that of a window: it ends when the window states, and spans sixty seconds
/// for each of its minutes, wherever that fits; what is used and what remains make up a hundred.
pub open spec fn is_reading_of(
    reading: RateLimitReadingView,
    minutes: i64,
    end: i64,
    share: i64,
) -> bool {
    &&& reading.resets_at_seconds == end
    &&& i64::MIN <= minutes * 60 <= i64::MAX && i64::MIN <= end - minutes * 60 <= i64::MAX
        ==> reading.resets_at_seconds - reading.window_start_seconds == minutes * 60
    &&& 0 <= share <= 100 ==> reading.used_percent == share && reading.remaining_percent == 100
        - share
    &&& share > 100 ==> reading.used_percent == 100 && reading.remaining_percent == 0
    &&& i64::MIN + 101 <= share < 0 ==> reading.used_percent == 0 && reading.remaining_percent
        == 100
    &&& 0 <= reading.used_percent <= 100
    &&& 0 <= reading.remaining_percent <= 100
}

/// A window of seven days spans 604,800 seconds and counts as one of seven days wherever it
/// stands; any other counts as one of five hours where it is the primary one, and as one of seven
/// days where it is the secondary one.
pub open spec fn is_in_bucket(
    reading: RateLimitReadingView,
    minutes: i64,
    primary: bool,
) -> bool {
    &&& minutes == 7 * 24 * 60 ==> reading.bucket == "seven_day"@
    &&& minutes != 7 * 24 * 60 && primary ==> reading.bucket == "five_hour"@
    &&& !primary ==> reading.bucket == "seven_day"@
}

/// Whether a reading is of the plan and the limit that its report names, the limit by the report's
/// limits or else by the window itself.
pub open spec fn is_of_limit(
    reading: RateLimitReadingView,
    limits: JsonView,
    window: JsonView,
) -> bool {
    &&& is_said(limits, "plan_type"@, reading.plan_type)
    &&& if says_no_text(limits, "limit_id"@) {
        is_said(window, "limit_id"@, reading.limit_id)
    } else {
        is_said(limits, "limit_id"@, reading.limit_id)
    }
    &&& if says_no_text(limits, "limit_name"@) {
        is_said(window, "limit_name"@, reading.limit_name)
    } else {
        is_said(limits, "limit_name"@, reading.limit_name)
    }
}

/// Whether a report holds a window under a key that states this much.
pub open spec fn reports_window(
    payload: JsonView,
    key: Seq<char>,
    limits: JsonView,
    window: JsonView,
    minutes: i64,
    end: i64,
    share: i64,
) -> bool {
    &&& payload.get("rate_limits"@) == Some(limits)
    &&& limits.get(key) == Some(window)
    &&& states_window(window, minutes, end, share)
}

proof fn stated_integer_is_found(object: JsonView, key: Seq<char>)
    ensures
        forall|integer: i64| #[trigger]
            says_integer(object, key, integer) <==> object.integer_at(key) == Some(integer),
        says_no_integer(object, key) <==> object.integer_at(key) is None,
{
    if let Some(found) = object.integer_at(key) {
        assert(says_integer(object, key, found));
    }
}

/// A window that a report states in full gives one reading: of the report's time, as long as the
/// window states, ending when it states, with the share that it states. The primary window comes
/// first, the secondary one last.
pub proof fn stated_window_is_read(
    timestamp: Seq<char>,
    payload: JsonView,
    limits: JsonView,
    window: JsonView,
    primary: bool,
    minutes: i64,
    end: i64,
    share: i64,
)
    requires
        reports_window(
            payload,
            if primary {
                "primary"@
            } else {
                "secondary"@
            },
            limits,
            window,
            minutes,
            end,
            share,
        ),
    ensures
        payload_readings(timestamp, payload).len() > 0,
        ({
            let readings = payload_readings(timestamp, payload);
            let reading = if primary {
                readings[0]
            } else {
                readings.last()
            };
            &&& reading.sample_timestamp == timestamp
            &&& is_reading_of(reading, minutes, end, share)
            &&& is_in_bucket(reading, minutes, primary)
            &&& is_of_limit(reading, limits, window)
        }),
{
    stated_integer_is_found(window, "window_duration_mins"@);
    stated_integer_is_found(window, "window_minutes"@);
    stated_integer_is_found(window, "resets_at"@);
    said_text_is_found(limits, "plan_type"@);
    said_text_is_found(limits, "limit_id"@);
    said_text_is_found(limits, "limit_name"@);
    said_text_is_found(window, "limit_id"@);
    said_text_is_found(window, "limit_name"@);
    let readings = payload_readings(timestamp, payload);
    let reading = if primary {
        readings[0]
    } else {
        readings.last()
    };
    let bucket = if primary {
        "five_hour"@
    } else {
        "seven_day"@
    };
    assert(window_reading(timestamp, limits, window, bucket) == Some(reading));
    assert(is_of_limit(reading, limits, window));
    assert(is_in_bucket(reading, minutes, primary));
    assert(is_reading_of(reading, minutes, end, share));
}

/// Whether a report holds a window under a key that states all that makes a reading.
pub open spec fn has_window(payload: JsonView, key: Seq<char>) -> bool {
    exists|limits: JsonView, window: JsonView, minutes: i64, end: i64, share: i64| #[trigger]
        reports_window(payload, key, limits, window, minutes, end, share)
}

/// A report gives a reading for each window that it states in full, and no other.
pub proof fn windows_are_read_once(timestamp: Seq<char>, payload: JsonView)
    ensures
        payload_readings(timestamp, payload).len() == (if has_window(payload, "primary"@) {
            1int
        } else {
            0
        }) + (if has_window(payload, "secondary"@) {
            1int
        } else {
            0
        }),
{
    window_is_there_or_not(timestamp, payload, "primary"@, "five_hour"@);
    window_is_there_or_not(timestamp, payload, "secondary"@, "seven_day"@);
}

proof fn window_is_there_or_not(
    timestamp: Seq<char>,
    payload: JsonView,
    key: Seq<char>,
    bucket: Seq<char>,
)
    ensures
        window_readings(
            timestamp,
            payload.get_or_null("rate_limits"@),
            key,
            bucket,
        ).len() == if has_window(payload, key) {
            1int
        } else {
            0
        },
{
    let limits = payload.get_or_null("rate_limits"@);
    let window = limits.get_or_null(key);
    stated_integer_is_found(window, "window_duration_mins"@);
    stated_integer_is_found(window, "window_minutes"@);
    stated_integer_is_found(window, "resets_at"@);
    let found = window_readings(timestamp, limits, key, bucket);
    if found.len() > 0 {
        assert(reports_window(
            payload,
            key,
            limits,
            window,
            window_minutes(window)->0,
            window.integer_at("resets_at"@)->0,
            window.percent_at("used_percent"@)->0,
        ));
    }
    if has_window(payload, key) {
        let (own, held, minutes, end, share) = choose|
            own: JsonView,
            held: JsonView,
            minutes: i64,
            end: i64,
            share: i64,
        | #[trigger]
            reports_window(payload, key, own, held, minutes, end, share);
        assert(own == limits && held == window);
    }
}

/// A window of seven days spans exactly seven days.
pub proof fn seven_days_are_seven_days(
    timestamp: Seq<char>,
    payload: JsonView,
    limits: JsonView,
    window: JsonView,
    primary: bool,
    end: i64,
    share: i64,
)
    requires
        reports_window(
            payload,
            if primary {
                "primary"@
            } else {
                "secondary"@
            },
            limits,
            window,
            10_080,
            end,
            share,
        ),
        end >= 0,
    ensures
        ({
            let readings = payload_readings(timestamp, payload);
            let reading = if primary {
                readings[0]
            } else {
                readings.last()
            };
            reading.resets_at_seconds - reading.window_start_seconds == 604_800 && reading.bucket
                == "seven_day"@
        }),
{
    stated_window_is_read(timestamp, payload, limits, window, primary, 10_080, end, share);
}

/// Whether a sample says of a window what a reading says, its limits as local times.
pub open spec fn is_sample_of(
    sample: RateLimitSampleRecord,
    reading: RateLimitReadingView,
    session_id: Option<Seq<char>>,
) -> bool {
    &&& sample@.source_kind == "session"@
    &&& sample@.source_session_id == session_id
    &&& sample@.bucket == reading.bucket
    &&& sample@.sample_timestamp == reading.sample_timestamp
    &&& sample@.limit_id == reading.limit_id
    &&& sample@.limit_name == reading.limit_name
    &&& sample@.plan_type == reading.plan_type
    &&& sample@.used_percent == reading.used_percent
    &&& sample@.remaining_percent == reading.remaining_percent
    &&& is_local_minute(sample@.window_start, reading.window_start_seconds)
    &&& is_local_minute(sample@.resets_at, reading.resets_at_seconds)
}

proof fn local_readings_are_all(readings: Seq<RateLimitReadingView>, end: int)
    requires
        0 <= end <= readings.len(),
    ensures
        local_readings(readings, end).len() <= end,
        forall|index: int|
            0 <= index < local_readings(readings, end).len() ==> readings.contains(
                #[trigger] local_readings(readings, end)[index],
            ),
        (forall|index: int|
            0 <= index < end ==> has_local_time(
                (#[trigger] readings[index]).window_start_seconds,
            ) && has_local_time(readings[index].resets_at_seconds)) ==> local_readings(
            readings,
            end,
        ) == readings.take(end),
    decreases end,
{
    if end > 0 {
        local_readings_are_all(readings, end - 1);
        let kept = local_readings(readings, end);
        let earlier = local_readings(readings, end - 1);
        assert forall|index: int| 0 <= index < kept.len() implies readings.contains(
            #[trigger] kept[index],
        ) by {
            if index < earlier.len() {
                assert(kept[index] == earlier[index]);
            } else {
                assert(readings[end - 1] == kept[index]);
            }
        }
        if forall|index: int|
            0 <= index < end ==> has_local_time(
                (#[trigger] readings[index]).window_start_seconds,
            ) && has_local_time(readings[index].resets_at_seconds) {
            assert(has_local_time(readings[end - 1].window_start_seconds));
            assert(kept =~= readings.take(end));
        }
    } else {
        assert(local_readings(readings, end) =~= readings.take(end));
    }
}

/// Every sample is of a reading, and where the limits of all readings have a local time there is
/// one sample for each, in the same order.
pub proof fn samples_are_of_readings(
    readings: Seq<RateLimitReadingView>,
    session_id: Option<Seq<char>>,
    samples: Seq<RateLimitSampleRecord>,
)
    requires
        localized(readings, session_id, samples),
    ensures
        forall|index: int|
            0 <= index < samples.len() ==> exists|place: int|
                0 <= place < readings.len() && is_sample_of(
                    #[trigger] samples[index],
                    #[trigger] readings[place],
                    session_id,
                ),
        (forall|place: int|
            0 <= place < readings.len() ==> has_local_time(
                (#[trigger] readings[place]).window_start_seconds,
            ) && has_local_time(readings[place].resets_at_seconds)) ==> {
            &&& samples.len() == readings.len()
            &&& forall|index: int|
                0 <= index < samples.len() ==> is_sample_of(
                    #[trigger] samples[index],
                    readings[index],
                    session_id,
                )
        },
{
    let count = readings.len() as int;
    local_readings_are_all(readings, count);
    let kept = local_readings(readings, count);
    assert(readings.take(count) =~= readings);
    assert forall|index: int| 0 <= index < samples.len() implies is_sample_of(
        #[trigger] samples[index],
        kept[index],
        session_id,
    ) by {
        assert(gives_sample(kept[index], session_id, samples[index]@));
    }
    assert forall|index: int| 0 <= index < samples.len() implies exists|place: int|
        0 <= place < readings.len() && is_sample_of(
            #[trigger] samples[index],
            #[trigger] readings[place],
            session_id,
        ) by {
        assert(is_sample_of(samples[index], kept[index], session_id));
        assert(readings.contains(kept[index]));
        let place = choose|place: int|
            0 <= place < readings.len() && readings[place] == kept[index];
        assert(is_sample_of(samples[index], readings[place], session_id));
    }
}

/// A limit of a window is shown as the start of its minute: of the second itself, with no seconds
/// and no fraction of one; where that minute has no start in local time, the second stands as it
/// is.
pub proof fn local_times_are_those_of_the_minute(times: LocalTimes, seconds: i64)
    ensures
        times@.is_minute_of(seconds) <==> times@.seconds == seconds && times@.second == 0
            && times@.nanosecond == 0,
        times@.changed is Some ==> times@.shown() == times@.changed->0,
        times@.changed is None ==> times@.shown() == times@.plain,
        forall|text: Seq<char>| #[trigger]
            is_local_minute(text, seconds) ==> exists|found: LocalTimes| #[trigger]
                found@.seconds == seconds && found@.second == 0 && found@.nanosecond == 0
                    && found@.shown() == text,
{
    assert forall|text: Seq<char>| #[trigger] is_local_minute(text, seconds) implies exists|
        found: LocalTimes,
    | #[trigger]
        found@.seconds == seconds && found@.second == 0 && found@.nanosecond == 0 && found@.shown()
            == text by {
        let found = choose|found: LocalTimes| #[trigger]
            found@.is_minute_of(seconds) && found@.shown() == text;
        assert(found@.seconds == seconds);
    }
}

} // verus!
