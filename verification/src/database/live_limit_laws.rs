//! What is shown of the rate limits, and how it goes together with what was observed.

use super::rate_limit_samples::{
    latest_limits, live_sample, owned_by, parsed_sample, parsed_samples, window_of,
    InvalidSampleTimeView, ParsedSampleView,
};
use crate::models::{
    LiveRateLimitView, RateLimitSampleRecord, RateLimitSampleRecordView, RateLimitWindowView,
};
use crate::timestamps::{rfc3339, Instant};
use vstd::prelude::*;

verus! {

/// Whether a text says this time.
pub open spec fn says_millis(text: Seq<char>, millis: i64) -> bool {
    rfc3339(text) matches Ok(moment) && moment.millis == millis
}

/// Whether each time of a sample in milliseconds is what its text says.
pub open spec fn times_agree(sample: ParsedSampleView) -> bool {
    &&& says_millis(sample.sample_timestamp, sample.sample_timestamp_ms)
    &&& says_millis(sample.window_start, sample.window_start_ms)
    &&& says_millis(sample.resets_at, sample.resets_at_ms)
}

/// Whether a share is the other one held between 0 and 100.
pub open spec fn is_held(share: i64, stated: i64) -> bool {
    &&& 0 <= share <= 100
    &&& 0 <= stated <= 100 ==> share == stated
    &&& stated < 0 ==> share == 0
    &&& stated > 100 ==> share == 100
}

/// Whether a text of a stored sample is the optional one of its record: an empty one stands for
/// none.
pub open spec fn is_kept_text(kept: Seq<char>, stated: Option<Seq<char>>) -> bool {
    match stated {
        Some(text) => kept == text,
        None => kept.len() == 0,
    }
}

/// A sample that is read keeps what its record says, and each of its times is what its text says.
pub proof fn read_sample_keeps_its_record(
    record: RateLimitSampleRecordView,
    sample: ParsedSampleView,
)
    requires
        parsed_sample(record) == Ok::<ParsedSampleView, InvalidSampleTimeView>(sample),
    ensures
        times_agree(sample),
        sample.sample_timestamp == record.sample_timestamp,
        sample.window_start == record.window_start,
        sample.resets_at == record.resets_at,
        sample.source_kind == record.source_kind,
        sample.bucket == record.bucket,
        is_kept_text(sample.source_session_id, record.source_session_id),
        is_kept_text(sample.limit_id, record.limit_id),
        is_kept_text(sample.limit_name, record.limit_name),
        is_kept_text(sample.plan_type, record.plan_type),
        is_held(sample.used_percent, record.used_percent),
        is_held(sample.remaining_percent, record.remaining_percent),
{
}

/// A sample is refused exactly where one of its times says no moment, and then the first such is
/// named, with its text and the reason.
pub proof fn unreadable_time_is_named(record: RateLimitSampleRecordView)
    ensures
        parsed_sample(record) is Ok <==> rfc3339(record.sample_timestamp) is Ok && rfc3339(
            record.window_start,
        ) is Ok && rfc3339(record.resets_at) is Ok,
        parsed_sample(record) matches Err(error) ==> {
            &&& rfc3339(error.value) == Err::<Instant, Seq<char>>(error.reason)
            &&& rfc3339(record.sample_timestamp) is Err ==> error.value == record.sample_timestamp
                && error.field_name == "sample_timestamp"@
            &&& rfc3339(record.sample_timestamp) is Ok && rfc3339(record.window_start) is Err
                ==> error.value == record.window_start && error.field_name == "window_start"@
            &&& rfc3339(record.sample_timestamp) is Ok && rfc3339(record.window_start) is Ok
                ==> error.value == record.resets_at && error.field_name == "resets_at"@
        },
{
}

/// Whether a window is shown as a sample has it: the shown start says when the window of the
/// sample starts, the shown end says when it ends, the shown minutes are those from the one to the
/// other, and the shares are those of the sample.
pub open spec fn shows_sample(window: RateLimitWindowView, sample: ParsedSampleView) -> bool {
    &&& window.window_start matches Some(start) && says_millis(start, sample.window_start_ms)
    &&& window.resets_at matches Some(end) && says_millis(end, sample.resets_at_ms)
    &&& window.window_duration_mins matches Some(minutes) && {
        let length = sample.resets_at_ms - sample.window_start_ms;
        &&& 0 <= length <= i64::MAX ==> minutes * 60_000 <= length < (minutes + 1) * 60_000
        &&& i64::MIN <= length < 0 ==> minutes == 0
    }
    &&& window.used_percent == sample.used_percent
    &&& window.remaining_percent == sample.remaining_percent
}

proof fn shown_window_is_of(window: RateLimitWindowView, sample: ParsedSampleView)
    requires
        times_agree(sample),
        window == window_of(sample),
    ensures
        shows_sample(window, sample),
        window.window_start == Some(sample.window_start),
        window.resets_at == Some(sample.resets_at),
{
    let length = sample.resets_at_ms - sample.window_start_ms;
    if 0 <= length <= i64::MAX {
        assert(window.window_duration_mins->0 == length / 60_000);
    }
}

/// What is shown is the newest observation: each window is shown as its sample has it, and one that
/// is older than the other's observation, or of another source at the same time, is not shown.
pub proof fn newest_observation_is_shown(
    primary: Option<ParsedSampleView>,
    secondary: Option<ParsedSampleView>,
)
    requires
        primary is Some ==> times_agree(primary->0),
        secondary is Some ==> times_agree(secondary->0),
    ensures
        latest_limits(primary, secondary) is None <==> primary is None && secondary is None,
        latest_limits(primary, secondary) matches Some(shown) ==> {
            &&& shown.primary matches Some(window) ==> primary is Some && shows_sample(
                window,
                primary->0,
            )
            &&& shown.secondary matches Some(window) ==> secondary is Some && shows_sample(
                window,
                secondary->0,
            )
            &&& shown.primary is Some || shown.secondary is Some
            &&& secondary is None ==> shown.primary is Some
            &&& primary is None ==> shown.secondary is Some
            &&& primary is Some && secondary is Some ==> {
                let left = primary->0;
                let right = secondary->0;
                &&& left.sample_timestamp_ms < right.sample_timestamp_ms ==> shown.primary is None
                    && shown.secondary is Some
                &&& right.sample_timestamp_ms < left.sample_timestamp_ms ==> shown.secondary is None
                    && shown.primary is Some
                &&& left.sample_timestamp_ms == right.sample_timestamp_ms ==> shown.primary is Some
                    && (shown.secondary is Some <==> left.source_kind == right.source_kind
                    && left.source_session_id == right.source_session_id)
            }
            &&& {
                let source = if shown.primary is Some {
                    primary->0
                } else {
                    secondary->0
                };
                &&& shown.fetched_at == source.sample_timestamp
                &&& shown.limit_id == if source.limit_id.len() > 0 {
                    Some(source.limit_id)
                } else {
                    None
                }
                &&& shown.limit_name == if source.limit_name.len() > 0 {
                    Some(source.limit_name)
                } else {
                    None
                }
                &&& shown.plan_type == if source.plan_type.len() > 0 {
                    Some(source.plan_type)
                } else {
                    None
                }
            }
        },
{
    if let Some(shown) = latest_limits(primary, secondary) {
        if let Some(window) = shown.primary {
            shown_window_is_of(window, primary->0);
        }
        if let Some(window) = shown.secondary {
            shown_window_is_of(window, secondary->0);
        }
    }
}

/// Whether a live window states its start and its end.
pub open spec fn states_limits(window: Option<RateLimitWindowView>) -> bool {
    window matches Some(found) && found.window_start is Some && found.resets_at is Some
}

/// Whether one window is shown as the other was: with the same start and the same end, and with
/// the same shares, held between 0 and 100.
pub open spec fn is_same_window(
    shown: Option<RateLimitWindowView>,
    live: Option<RateLimitWindowView>,
) -> bool {
    match (shown, live) {
        (Some(after), Some(before)) => {
            &&& after.window_start == before.window_start
            &&& after.resets_at == before.resets_at
            &&& is_held(after.used_percent, before.used_percent)
            &&& is_held(after.remaining_percent, before.remaining_percent)
        },
        _ => false,
    }
}

/// Whether an optional text is shown as it was: an empty one counts as none.
pub open spec fn is_same_text(shown: Option<Seq<char>>, live: Option<Seq<char>>) -> bool {
    match live {
        Some(text) if text.len() > 0 => shown == Some(text),
        _ => shown is None,
    }
}

/// Live limits that are stored come out as they went in: turned into samples, read, and shown again
/// as the newest, they have the same windows, the same limit and the same time.
pub proof fn live_limits_come_out_as_they_went_in(
    limits: LiveRateLimitView,
    primary: ParsedSampleView,
    secondary: ParsedSampleView,
)
    requires
        states_limits(limits.primary),
        states_limits(limits.secondary),
        ({
            let records = live_sample(limits, limits.primary, "five_hour"@) + live_sample(
                limits,
                limits.secondary,
                "seven_day"@,
            );
            &&& parsed_sample(records[0]) == Ok::<ParsedSampleView, InvalidSampleTimeView>(primary)
            &&& parsed_sample(records[1]) == Ok::<ParsedSampleView, InvalidSampleTimeView>(
                secondary,
            )
        }),
    ensures
        latest_limits(Some(primary), Some(secondary)) matches Some(shown) && {
            &&& is_same_window(shown.primary, limits.primary)
            &&& is_same_window(shown.secondary, limits.secondary)
            &&& shown.fetched_at == limits.fetched_at
            &&& is_same_text(shown.limit_id, limits.limit_id)
            &&& is_same_text(shown.limit_name, limits.limit_name)
            &&& is_same_text(shown.plan_type, limits.plan_type)
        },
{
    let records = live_sample(limits, limits.primary, "five_hour"@) + live_sample(
        limits,
        limits.secondary,
        "seven_day"@,
    );
    read_sample_keeps_its_record(records[0], primary);
    read_sample_keeps_its_record(records[1], secondary);
    assert(primary.source_session_id =~= secondary.source_session_id);
}

/// One live window alone comes out as it went in, too, whichever it is.
pub proof fn live_window_comes_out_as_it_went_in(
    limits: LiveRateLimitView,
    sample: ParsedSampleView,
    is_primary: bool,
)
    requires
        states_limits(
            if is_primary {
                limits.primary
            } else {
                limits.secondary
            },
        ),
        !states_limits(
            if is_primary {
                limits.secondary
            } else {
                limits.primary
            },
        ),
        ({
            let records = live_sample(limits, limits.primary, "five_hour"@) + live_sample(
                limits,
                limits.secondary,
                "seven_day"@,
            );
            records.len() == 1 ==> parsed_sample(records[0]) == Ok::<
                ParsedSampleView,
                InvalidSampleTimeView,
            >(sample)
        }),
    ensures
        ({
            let records = live_sample(limits, limits.primary, "five_hour"@) + live_sample(
                limits,
                limits.secondary,
                "seven_day"@,
            );
            records.len() == 1 && records[0].source_kind == "live"@ && records[0].source_session_id
                is None && records[0].bucket == if is_primary {
                "five_hour"@
            } else {
                "seven_day"@
            }
        }),
        is_primary ==> (latest_limits(Some(sample), None) matches Some(shown) && is_same_window(
            shown.primary,
            limits.primary,
        ) && shown.fetched_at == limits.fetched_at),
        !is_primary ==> (latest_limits(None, Some(sample)) matches Some(shown) && is_same_window(
            shown.secondary,
            limits.secondary,
        ) && shown.fetched_at == limits.fetched_at),
{
    let records = live_sample(limits, limits.primary, "five_hour"@) + live_sample(
        limits,
        limits.secondary,
        "seven_day"@,
    );
    assert(records.len() == 1);
    read_sample_keeps_its_record(records[0], sample);
}

/// A list of samples is read as a whole: each sample by itself, in order; or not at all, and then
/// for the first sample that is refused, with its reason.
pub proof fn samples_are_read_one_by_one(samples: Seq<RateLimitSampleRecord>, end: int)
    requires
        0 <= end <= samples.len(),
    ensures
        parsed_samples(samples, end) matches Ok(parsed) ==> parsed.len() == end && forall|
            index: int,
        |
            0 <= index < end ==> parsed_sample((#[trigger] samples[index])@) == Ok::<
                ParsedSampleView,
                InvalidSampleTimeView,
            >(parsed[index]),
        parsed_samples(samples, end) matches Err(error) ==> exists|place: int|
            0 <= place < end && parsed_sample((#[trigger] samples[place])@) == Err::<
                ParsedSampleView,
                InvalidSampleTimeView,
            >(error) && forall|earlier: int|
                0 <= earlier < place ==> parsed_sample((#[trigger] samples[earlier])@) is Ok,
    decreases end,
{
    if end > 0 {
        samples_are_read_one_by_one(samples, end - 1);
        if parsed_samples(samples, end - 1) is Err {
            let error = parsed_samples(samples, end - 1)->Err_0;
            let place = choose|place: int|
                0 <= place < end - 1 && parsed_sample((#[trigger] samples[place])@) == Err::<
                    ParsedSampleView,
                    InvalidSampleTimeView,
                >(error) && forall|earlier: int|
                    0 <= earlier < place ==> parsed_sample((#[trigger] samples[earlier])@) is Ok;
            assert(parsed_sample(samples[place]@) == Err::<ParsedSampleView, InvalidSampleTimeView>(
                error,
            ));
        } else {
            assert(samples[end - 1]@ == samples[end - 1]@);
        }
    }
}

/// Making a sample one of a session changes its owner and nothing else.
pub proof fn only_the_owner_changes(sample: ParsedSampleView, session_id: Seq<char>)
    ensures
        ({
            let owned = owned_by(sample, session_id);
            &&& owned.source_kind == "session"@
            &&& owned.source_session_id == session_id
            &&& owned.bucket == sample.bucket
            &&& owned.sample_timestamp == sample.sample_timestamp
            &&& owned.sample_timestamp_ms == sample.sample_timestamp_ms
            &&& owned.limit_id == sample.limit_id
            &&& owned.limit_name == sample.limit_name
            &&& owned.plan_type == sample.plan_type
            &&& owned.window_start == sample.window_start
            &&& owned.window_start_ms == sample.window_start_ms
            &&& owned.resets_at == sample.resets_at
            &&& owned.resets_at_ms == sample.resets_at_ms
            &&& owned.used_percent == sample.used_percent
            &&& owned.remaining_percent == sample.remaining_percent
        }),
{
}

} // verus!
