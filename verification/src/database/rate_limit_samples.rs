//! The history of rate-limit windows.
//!
//! A history keeps the first and the last sample of each window's owner and every sample at which
//! the window or its share changed.

use crate::models::{
    opt_window, LiveRateLimitSnapshot, LiveRateLimitView, RateLimitSampleRecord,
    RateLimitSampleRecordView, RateLimitWindowSnapshot, RateLimitWindowView,
};
use crate::rate_limits::{clamp_percent, percent_of};
use crate::text::{
    copy_opt, opt_text, quote_text, quoted, same_text, text_before, text_before_is_total,
    text_before_is_transitive, text_is_before,
};
use crate::timestamps::{epoch_millis, parse_epoch_millis};
use vstd::prelude::*;
use vstd::string::*;

verus! {

/// A sample with its times as milliseconds since the Unix epoch.
#[derive(Clone, Debug)]
pub struct ParsedRateLimitSample {
    pub source_kind: String,
    pub source_session_id: String,
    pub bucket: String,
    pub sample_timestamp: String,
    pub sample_timestamp_ms: i64,
    pub limit_id: String,
    pub limit_name: String,
    pub plan_type: String,
    pub window_start: String,
    pub window_start_ms: i64,
    pub resets_at: String,
    pub resets_at_ms: i64,
    pub used_percent: i64,
    pub remaining_percent: i64,
}

/// What a `ParsedRateLimitSample` holds.
#[verifier::ext_equal]
pub struct ParsedSampleView {
    pub source_kind: Seq<char>,
    pub source_session_id: Seq<char>,
    pub bucket: Seq<char>,
    pub sample_timestamp: Seq<char>,
    pub sample_timestamp_ms: i64,
    pub limit_id: Seq<char>,
    pub limit_name: Seq<char>,
    pub plan_type: Seq<char>,
    pub window_start: Seq<char>,
    pub window_start_ms: i64,
    pub resets_at: Seq<char>,
    pub resets_at_ms: i64,
    pub used_percent: i64,
    pub remaining_percent: i64,
}

impl View for ParsedRateLimitSample {
    type V = ParsedSampleView;

    open spec fn view(&self) -> ParsedSampleView {
        ParsedSampleView {
            source_kind: self.source_kind@,
            source_session_id: self.source_session_id@,
            bucket: self.bucket@,
            sample_timestamp: self.sample_timestamp@,
            sample_timestamp_ms: self.sample_timestamp_ms,
            limit_id: self.limit_id@,
            limit_name: self.limit_name@,
            plan_type: self.plan_type@,
            window_start: self.window_start@,
            window_start_ms: self.window_start_ms,
            resets_at: self.resets_at@,
            resets_at_ms: self.resets_at_ms,
            used_percent: self.used_percent,
            remaining_percent: self.remaining_percent,
        }
    }
}

/// What each sample of a list holds.
pub open spec fn sample_views(samples: Seq<ParsedRateLimitSample>) -> Seq<ParsedSampleView> {
    samples.map_values(|sample: ParsedRateLimitSample| sample@)
}

impl ParsedRateLimitSample {
    /// A copy of the sample.
    pub fn copy(&self) -> (copy: ParsedRateLimitSample)
        ensures
            copy == *self,
    {
        ParsedRateLimitSample {
            source_kind: self.source_kind.clone(),
            source_session_id: self.source_session_id.clone(),
            bucket: self.bucket.clone(),
            sample_timestamp: self.sample_timestamp.clone(),
            sample_timestamp_ms: self.sample_timestamp_ms,
            limit_id: self.limit_id.clone(),
            limit_name: self.limit_name.clone(),
            plan_type: self.plan_type.clone(),
            window_start: self.window_start.clone(),
            window_start_ms: self.window_start_ms,
            resets_at: self.resets_at.clone(),
            resets_at_ms: self.resets_at_ms,
            used_percent: self.used_percent,
            remaining_percent: self.remaining_percent,
        }
    }
}

/// A time in a sample that cannot be read.
#[derive(Clone, Debug)]
pub struct InvalidSampleTime {
    /// The field that holds it.
    pub field_name: String,
    pub value: String,
    pub reason: String,
}

/// What an `InvalidSampleTime` holds.
#[verifier::ext_equal]
pub struct InvalidSampleTimeView {
    pub field_name: Seq<char>,
    pub value: Seq<char>,
    pub reason: Seq<char>,
}

impl View for InvalidSampleTime {
    type V = InvalidSampleTimeView;

    open spec fn view(&self) -> InvalidSampleTimeView {
        InvalidSampleTimeView {
            field_name: self.field_name@,
            value: self.value@,
            reason: self.reason@,
        }
    }
}

impl InvalidSampleTime {
    /// The error in words.
    pub fn message(&self) -> (message: String)
        ensures
            message@ == "Invalid rate limit "@ + self.field_name@ + " "@ + quoted(self.value@)
                + ": "@ + self.reason@,
    {
        let mut message = "Invalid rate limit ".to_owned();
        message.append(self.field_name.as_str());
        message.append(" ");
        message.append(quote_text(self.value.as_str()).as_str());
        message.append(": ");
        message.append(self.reason.as_str());
        message
    }
}

/// The time in a field, or the error that it is.
pub open spec fn epoch_field(field_name: Seq<char>, value: Seq<char>) -> Result<
    i64,
    InvalidSampleTimeView,
> {
    match epoch_millis(value) {
        Ok(millis) => Ok(millis),
        Err(reason) => Err(InvalidSampleTimeView { field_name, value, reason }),
    }
}

/// The time in a field, or the error that it is.
fn parse_epoch_field(field_name: &str, value: &str) -> (result: Result<i64, InvalidSampleTime>)
    ensures
        match result {
            Ok(millis) => epoch_field(field_name@, value@) == Ok::<i64, InvalidSampleTimeView>(
                millis,
            ),
            Err(error) => epoch_field(field_name@, value@) == Err::<i64, InvalidSampleTimeView>(
                error@,
            ),
        },
{
    match parse_epoch_millis(value) {
        Ok(millis) => Ok(millis),
        Err(reason) => Err(
            InvalidSampleTime {
                field_name: field_name.to_owned(),
                value: value.to_owned(),
                reason,
            },
        ),
    }
}

/// An optional text, empty where there is none.
pub open spec fn or_empty(text: Option<Seq<char>>) -> Seq<char> {
    match text {
        Some(found) => found,
        None => Seq::empty(),
    }
}

fn copy_or_empty(text: &Option<String>) -> (copy: String)
    ensures
        copy@ == or_empty(opt_text(*text)),
{
    match text {
        Some(found) => found.clone(),
        None => String::new(),
    }
}

/// A sample with its three times in milliseconds.
pub open spec fn timed_sample(
    sample: RateLimitSampleRecordView,
    sample_timestamp_ms: i64,
    window_start_ms: i64,
    resets_at_ms: i64,
) -> ParsedSampleView {
    ParsedSampleView {
        source_kind: sample.source_kind,
        source_session_id: or_empty(sample.source_session_id),
        bucket: sample.bucket,
        sample_timestamp: sample.sample_timestamp,
        sample_timestamp_ms,
        limit_id: or_empty(sample.limit_id),
        limit_name: or_empty(sample.limit_name),
        plan_type: or_empty(sample.plan_type),
        window_start: sample.window_start,
        window_start_ms,
        resets_at: sample.resets_at,
        resets_at_ms,
        used_percent: percent_of(sample.used_percent),
        remaining_percent: percent_of(sample.remaining_percent),
    }
}

/// A sample with its three times in milliseconds.
pub fn time_rate_limit_sample(
    sample: &RateLimitSampleRecord,
    sample_timestamp_ms: i64,
    window_start_ms: i64,
    resets_at_ms: i64,
) -> (parsed: ParsedRateLimitSample)
    ensures
        parsed@ == timed_sample(sample@, sample_timestamp_ms, window_start_ms, resets_at_ms),
{
    ParsedRateLimitSample {
        source_kind: sample.source_kind.clone(),
        source_session_id: copy_or_empty(&sample.source_session_id),
        bucket: sample.bucket.clone(),
        sample_timestamp: sample.sample_timestamp.clone(),
        sample_timestamp_ms,
        limit_id: copy_or_empty(&sample.limit_id),
        limit_name: copy_or_empty(&sample.limit_name),
        plan_type: copy_or_empty(&sample.plan_type),
        window_start: sample.window_start.clone(),
        window_start_ms,
        resets_at: sample.resets_at.clone(),
        resets_at_ms,
        used_percent: clamp_percent(sample.used_percent),
        remaining_percent: clamp_percent(sample.remaining_percent),
    }
}

/// A sample with its times read, or the first time in it that cannot be.
pub open spec fn parsed_sample(sample: RateLimitSampleRecordView) -> Result<
    ParsedSampleView,
    InvalidSampleTimeView,
> {
    match epoch_field("sample_timestamp"@, sample.sample_timestamp) {
        Err(error) => Err(error),
        Ok(sample_timestamp_ms) => match epoch_field("window_start"@, sample.window_start) {
            Err(error) => Err(error),
            Ok(window_start_ms) => match epoch_field("resets_at"@, sample.resets_at) {
                Err(error) => Err(error),
                Ok(resets_at_ms) => Ok(
                    timed_sample(sample, sample_timestamp_ms, window_start_ms, resets_at_ms),
                ),
            },
        },
    }
}

/// The first `end` samples with their times read, or the first time in them that cannot be.
pub open spec fn parsed_samples(samples: Seq<RateLimitSampleRecord>, end: int) -> Result<
    Seq<ParsedSampleView>,
    InvalidSampleTimeView,
>
    decreases end,
{
    if end <= 0 {
        Ok(Seq::empty())
    } else {
        match parsed_samples(samples, end - 1) {
            Err(error) => Err(error),
            Ok(earlier) => match parsed_sample(samples[end - 1]@) {
                Err(error) => Err(error),
                Ok(sample) => Ok(earlier.push(sample)),
            },
        }
    }
}

proof fn first_error_stays(samples: Seq<RateLimitSampleRecord>, stop: int, end: int)
    requires
        stop <= end,
        parsed_samples(samples, stop) is Err,
    ensures
        parsed_samples(samples, end) == parsed_samples(samples, stop),
    decreases end - stop,
{
    if stop < end {
        first_error_stays(samples, stop, end - 1);
        assert(end > 0);
    }
}

/// A sample with its times read, or the first time in it that cannot be.
fn parse_rate_limit_sample(sample: &RateLimitSampleRecord) -> (result: Result<
    ParsedRateLimitSample,
    InvalidSampleTime,
>)
    ensures
        match result {
            Ok(parsed) => parsed_sample(sample@) == Ok::<ParsedSampleView, InvalidSampleTimeView>(
                parsed@,
            ),
            Err(error) => parsed_sample(sample@) == Err::<ParsedSampleView, InvalidSampleTimeView>(
                error@,
            ),
        },
{
    let sample_timestamp_ms = match parse_epoch_field(
        "sample_timestamp",
        sample.sample_timestamp.as_str(),
    ) {
        Ok(millis) => millis,
        Err(error) => {
            return Err(error);
        },
    };
    let window_start_ms = match parse_epoch_field("window_start", sample.window_start.as_str()) {
        Ok(millis) => millis,
        Err(error) => {
            return Err(error);
        },
    };
    let resets_at_ms = match parse_epoch_field("resets_at", sample.resets_at.as_str()) {
        Ok(millis) => millis,
        Err(error) => {
            return Err(error);
        },
    };
    Ok(time_rate_limit_sample(sample, sample_timestamp_ms, window_start_ms, resets_at_ms))
}

/// The samples with their times read, or the first time in them that cannot be.
pub fn parse_rate_limit_samples(samples: &Vec<RateLimitSampleRecord>) -> (result: Result<
    Vec<ParsedRateLimitSample>,
    InvalidSampleTime,
>)
    ensures
        match result {
            Ok(parsed) => parsed_samples(samples@, samples.len() as int) == Ok::<
                Seq<ParsedSampleView>,
                InvalidSampleTimeView,
            >(sample_views(parsed@)),
            Err(error) => parsed_samples(samples@, samples.len() as int) == Err::<
                Seq<ParsedSampleView>,
                InvalidSampleTimeView,
            >(error@),
        },
{
    let mut parsed: Vec<ParsedRateLimitSample> = Vec::new();
    proof {
        assert(sample_views(parsed@) =~= Seq::empty());
    }
    let mut index: usize = 0;
    while index < samples.len()
        invariant
            index <= samples.len(),
            parsed_samples(samples@, index as int) == Ok::<
                Seq<ParsedSampleView>,
                InvalidSampleTimeView,
            >(sample_views(parsed@)),
        decreases samples.len() - index,
    {
        let ghost earlier = parsed@;
        match parse_rate_limit_sample(&samples[index]) {
            Ok(sample) => {
                parsed.push(sample);
                proof {
                    assert(sample_views(parsed@) =~= sample_views(earlier).push(sample@));
                }
            },
            Err(error) => {
                proof {
                    first_error_stays(samples@, index + 1, samples.len() as int);
                }
                return Err(error);
            },
        }
        index = index + 1;
    }
    Ok(parsed)
}

/// A sample of the session `session_id`.
pub open spec fn owned_by(sample: ParsedSampleView, session_id: Seq<char>) -> ParsedSampleView {
    ParsedSampleView { source_kind: "session"@, source_session_id: session_id, ..sample }
}

/// Makes every sample one of the session `session_id`.
pub fn normalize_session_owner(samples: &mut Vec<ParsedRateLimitSample>, session_id: &str)
    ensures
        sample_views(final(samples)@) == sample_views(old(samples)@).map_values(
            |sample: ParsedSampleView| owned_by(sample, session_id@),
        ),
{
    let ghost before = samples@;
    let mut index: usize = 0;
    while index < samples.len()
        invariant
            index <= samples.len(),
            samples.len() == before.len(),
            forall|done: int|
                0 <= done < index ==> (#[trigger] samples[done])@ == owned_by(
                    before[done]@,
                    session_id@,
                ),
            forall|left: int| index <= left < before.len() ==> samples[left] == before[left],
        decreases samples.len() - index,
    {
        let mut sample = samples[index].copy();
        sample.source_kind = "session".to_owned();
        sample.source_session_id = session_id.to_owned();
        samples.set(index, sample);
        index = index + 1;
    }
    proof {
        assert(sample_views(samples@) =~= sample_views(before).map_values(
            |sample: ParsedSampleView| owned_by(sample, session_id@),
        ));
    }
}

/// Whether two samples are of the same window.
pub open spec fn shares_window(left: ParsedSampleView, right: ParsedSampleView) -> bool {
    left.window_start_ms == right.window_start_ms && left.resets_at_ms == right.resets_at_ms
}

/// Whether two samples say the same shares.
pub open spec fn shares_value(left: ParsedSampleView, right: ParsedSampleView) -> bool {
    left.used_percent == right.used_percent && left.remaining_percent == right.remaining_percent
}

/// Whether two samples have the same owner and bucket.
pub open spec fn shares_owner(left: ParsedSampleView, right: ParsedSampleView) -> bool {
    left.source_kind == right.source_kind && left.source_session_id == right.source_session_id
        && left.bucket == right.bucket
}

/// Whether two samples are the same point of a history.
pub open spec fn shares_point(left: ParsedSampleView, right: ParsedSampleView) -> bool {
    shares_owner(left, right) && left.sample_timestamp_ms == right.sample_timestamp_ms
        && left.limit_id == right.limit_id && left.limit_name == right.limit_name
        && left.plan_type == right.plan_type && shares_window(left, right) && shares_value(
        left,
        right,
    )
}

/// Whether two samples are of the same window.
pub fn same_window(left: &ParsedRateLimitSample, right: &ParsedRateLimitSample) -> (same: bool)
    ensures
        same == shares_window(left@, right@),
{
    left.window_start_ms == right.window_start_ms && left.resets_at_ms == right.resets_at_ms
}

/// Whether two samples say the same shares.
pub fn same_value(left: &ParsedRateLimitSample, right: &ParsedRateLimitSample) -> (same: bool)
    ensures
        same == shares_value(left@, right@),
{
    left.used_percent == right.used_percent && left.remaining_percent == right.remaining_percent
}

fn same_owner(left: &ParsedRateLimitSample, right: &ParsedRateLimitSample) -> (same: bool)
    ensures
        same == shares_owner(left@, right@),
{
    same_text(left.source_kind.as_str(), right.source_kind.as_str()) && same_text(
        left.source_session_id.as_str(),
        right.source_session_id.as_str(),
    ) && same_text(left.bucket.as_str(), right.bucket.as_str())
}

/// Whether two samples are the same point of a history.
pub fn same_history_point(left: &ParsedRateLimitSample, right: &ParsedRateLimitSample) -> (same:
    bool)
    ensures
        same == shares_point(left@, right@),
{
    same_owner(left, right) && left.sample_timestamp_ms == right.sample_timestamp_ms && same_text(
        left.limit_id.as_str(),
        right.limit_id.as_str(),
    ) && same_text(left.limit_name.as_str(), right.limit_name.as_str()) && same_text(
        left.plan_type.as_str(),
        right.plan_type.as_str(),
    ) && same_window(left, right) && same_value(left, right)
}

/// Whether a sample comes before another: by owner, bucket and time, in that order.
pub open spec fn comes_before(left: ParsedSampleView, right: ParsedSampleView) -> bool {
    if left.source_kind != right.source_kind {
        text_before(left.source_kind, right.source_kind)
    } else if left.source_session_id != right.source_session_id {
        text_before(left.source_session_id, right.source_session_id)
    } else if left.bucket != right.bucket {
        text_before(left.bucket, right.bucket)
    } else {
        left.sample_timestamp_ms < right.sample_timestamp_ms
    }
}

fn sample_is_before(left: &ParsedRateLimitSample, right: &ParsedRateLimitSample) -> (before: bool)
    ensures
        before == comes_before(left@, right@),
{
    if !same_text(left.source_kind.as_str(), right.source_kind.as_str()) {
        text_is_before(left.source_kind.as_str(), right.source_kind.as_str())
    } else if !same_text(left.source_session_id.as_str(), right.source_session_id.as_str()) {
        text_is_before(left.source_session_id.as_str(), right.source_session_id.as_str())
    } else if !same_text(left.bucket.as_str(), right.bucket.as_str()) {
        text_is_before(left.bucket.as_str(), right.bucket.as_str())
    } else {
        left.sample_timestamp_ms < right.sample_timestamp_ms
    }
}

/// `comes_before` goes one way at most.
pub(super) proof fn order_is_strict(left: ParsedSampleView, right: ParsedSampleView)
    ensures
        !(comes_before(left, right) && comes_before(right, left)),
        !comes_before(left, left),
{
    text_before_is_total(left.source_kind, right.source_kind);
    text_before_is_total(left.source_session_id, right.source_session_id);
    text_before_is_total(left.bucket, right.bucket);
}

/// What comes before a sample comes before everything that does not come before that sample.
proof fn order_carries_over(
    first: ParsedSampleView,
    second: ParsedSampleView,
    third: ParsedSampleView,
)
    ensures
        comes_before(first, second) && !comes_before(third, second) ==> comes_before(first, third),
        !comes_before(second, first) && comes_before(second, third) ==> comes_before(first, third),
        !comes_before(second, first) && !comes_before(third, second) ==> !comes_before(
            third,
            first,
        ),
{
    text_order_carries_over(first.source_kind, second.source_kind, third.source_kind);
    text_order_carries_over(
        first.source_session_id,
        second.source_session_id,
        third.source_session_id,
    );
    text_order_carries_over(first.bucket, second.bucket, third.bucket);
}

proof fn text_order_carries_over(first: Seq<char>, second: Seq<char>, third: Seq<char>)
    ensures
        text_before(first, second) || text_before(second, first) || first == second,
        text_before(second, third) || text_before(third, second) || second == third,
        text_before(first, third) || text_before(third, first) || first == third,
        !(text_before(first, second) && text_before(second, first)),
        !(text_before(second, third) && text_before(third, second)),
        !(text_before(first, third) && text_before(third, first)),
        !text_before(first, first),
        !text_before(second, second),
        !text_before(third, third),
        text_before(first, second) && text_before(second, third) ==> text_before(first, third),
        text_before(third, second) && text_before(second, first) ==> text_before(third, first),
        text_before(first, third) && text_before(third, second) ==> text_before(first, second),
        text_before(second, first) && text_before(first, third) ==> text_before(second, third),
        text_before(second, third) && text_before(third, first) ==> text_before(second, first),
        text_before(third, first) && text_before(first, second) ==> text_before(third, second),
{
    text_before_is_total(first, second);
    text_before_is_total(second, third);
    text_before_is_total(first, third);
    text_before_is_total(first, first);
    text_before_is_total(second, second);
    text_before_is_total(third, third);
    if text_before(first, second) && text_before(second, third) {
        text_before_is_transitive(first, second, third);
    }
    if text_before(third, second) && text_before(second, first) {
        text_before_is_transitive(third, second, first);
    }
    if text_before(first, third) && text_before(third, second) {
        text_before_is_transitive(first, third, second);
    }
    if text_before(second, first) && text_before(first, third) {
        text_before_is_transitive(second, first, third);
    }
    if text_before(second, third) && text_before(third, first) {
        text_before_is_transitive(second, third, first);
    }
    if text_before(third, first) && text_before(first, second) {
        text_before_is_transitive(third, first, second);
    }
}

/// Whether no sample comes before an earlier one.
pub open spec fn in_order(samples: Seq<ParsedSampleView>) -> bool {
    forall|left: int, right: int|
        0 <= left < right < samples.len() ==> !comes_before(
            #[trigger] samples[right],
            #[trigger] samples[left],
        )
}

/// The first place, from `index` on, whose sample the given one comes before; the end where there
/// is none.
pub open spec fn place_for(
    samples: Seq<ParsedSampleView>,
    sample: ParsedSampleView,
    index: int,
) -> int
    decreases samples.len() - index,
{
    if index < 0 || index >= samples.len() {
        samples.len() as int
    } else if comes_before(sample, samples[index]) {
        index
    } else {
        place_for(samples, sample, index + 1)
    }
}

/// The samples in order. Those that come at the same place keep the order in which they were.
pub open spec fn ordered(samples: Seq<ParsedSampleView>) -> Seq<ParsedSampleView>
    decreases samples.len(),
{
    if samples.len() == 0 {
        Seq::empty()
    } else {
        let earlier = ordered(samples.drop_last());
        earlier.insert(place_for(earlier, samples.last(), 0), samples.last())
    }
}

proof fn place_for_is(
    samples: Seq<ParsedSampleView>,
    sample: ParsedSampleView,
    index: int,
    place: int,
)
    requires
        0 <= index <= place <= samples.len(),
        forall|before: int|
            index <= before < place ==> !comes_before(sample, #[trigger] samples[before]),
        place < samples.len() ==> comes_before(sample, samples[place]),
    ensures
        place_for(samples, sample, index) == place,
    decreases place - index,
{
    if index < place {
        place_for_is(samples, sample, index + 1, place);
    }
}

proof fn place_for_is_first(samples: Seq<ParsedSampleView>, sample: ParsedSampleView, index: int)
    requires
        0 <= index <= samples.len(),
    ensures
        index <= place_for(samples, sample, index) <= samples.len(),
        forall|before: int|
            index <= before < place_for(samples, sample, index) ==> !comes_before(
                sample,
                #[trigger] samples[before],
            ),
        place_for(samples, sample, index) < samples.len() ==> comes_before(
            sample,
            samples[place_for(samples, sample, index)],
        ),
    decreases samples.len() - index,
{
    if index < samples.len() && !comes_before(sample, samples[index]) {
        place_for_is_first(samples, sample, index + 1);
    }
}

proof fn insertion_keeps_order(samples: Seq<ParsedSampleView>, sample: ParsedSampleView)
    requires
        in_order(samples),
    ensures
        in_order(samples.insert(place_for(samples, sample, 0), sample)),
{
    place_for_is_first(samples, sample, 0);
    let place = place_for(samples, sample, 0);
    let longer = samples.insert(place, sample);
    assert forall|left: int, right: int| 0 <= left < right < longer.len() implies !comes_before(
        #[trigger] longer[right],
        #[trigger] longer[left],
    ) by {
        if left == place {
            assert(longer[right] == samples[right - 1]);
            if right - 1 > place {
                assert(!comes_before(samples[right - 1], samples[place]));
            }
            order_carries_over(sample, samples[place], samples[right - 1]);
            order_is_strict(sample, samples[right - 1]);
            order_is_strict(samples[right - 1], samples[right - 1]);
        } else if right == place {
            assert(longer[left] == samples[left]);
        } else {
            let old_left = if left < place {
                left
            } else {
                left - 1
            };
            let old_right = if right < place {
                right
            } else {
                right - 1
            };
            assert(longer[left] == samples[old_left]);
            assert(longer[right] == samples[old_right]);
        }
    }
}

/// The ordered samples are in order, and they are the same samples, each as often as before.
pub proof fn ordered_is_in_order(samples: Seq<ParsedSampleView>)
    ensures
        in_order(ordered(samples)),
        ordered(samples).len() == samples.len(),
        ordered(samples).to_multiset() == samples.to_multiset(),
    decreases samples.len(),
{
    broadcast use vstd::seq_lib::group_to_multiset_ensures;

    if samples.len() > 0 {
        ordered_is_in_order(samples.drop_last());
        let earlier = ordered(samples.drop_last());
        insertion_keeps_order(earlier, samples.last());
        place_for_is_first(earlier, samples.last(), 0);
        assert(samples =~= samples.drop_last().push(samples.last()));
    } else {
        assert(samples =~= Seq::empty());
    }
}

/// Samples that are in order stay as they are.
pub proof fn ordered_keeps_order(samples: Seq<ParsedSampleView>)
    requires
        in_order(samples),
    ensures
        ordered(samples) == samples,
    decreases samples.len(),
{
    if samples.len() > 0 {
        let earlier = samples.drop_last();
        assert(in_order(earlier)) by {
            assert forall|left: int, right: int|
                0 <= left < right < earlier.len() implies !comes_before(
                #[trigger] earlier[right],
                #[trigger] earlier[left],
            ) by {
                assert(earlier[left] == samples[left]);
                assert(earlier[right] == samples[right]);
            }
        }
        ordered_keeps_order(earlier);
        assert forall|before: int| 0 <= before < earlier.len() implies !comes_before(
            samples.last(),
            #[trigger] earlier[before],
        ) by {
            assert(earlier[before] == samples[before]);
        }
        place_for_is(earlier, samples.last(), 0, earlier.len() as int);
        assert(earlier.insert(earlier.len() as int, samples.last()) =~= samples);
    } else {
        assert(samples =~= Seq::empty());
    }
}

/// The place at which a sample is inserted into samples that are in order.
fn find_place(sorted: &Vec<ParsedRateLimitSample>, sample: &ParsedRateLimitSample) -> (place: usize)
    requires
        in_order(sample_views(sorted@)),
    ensures
        place == place_for(sample_views(sorted@), sample@, 0),
        place <= sorted.len(),
{
    let ghost shown = sample_views(sorted@);
    let mut low: usize = 0;
    let mut high: usize = sorted.len();
    while low < high
        invariant
            low <= high <= sorted.len(),
            shown == sample_views(sorted@),
            in_order(shown),
            forall|before: int|
                0 <= before < low ==> !comes_before(sample@, #[trigger] shown[before]),
            forall|after: int|
                high <= after < shown.len() ==> comes_before(sample@, #[trigger] shown[after]),
        decreases high - low,
    {
        let middle: usize = low + (high - low) / 2;
        proof {
            assert(shown[middle as int] == sorted[middle as int]@);
        }
        if sample_is_before(sample, &sorted[middle]) {
            proof {
                assert forall|after: int| middle <= after < shown.len() implies comes_before(
                    sample@,
                    #[trigger] shown[after],
                ) by {
                    if after > middle {
                        assert(!comes_before(shown[after], shown[middle as int]));
                        order_carries_over(sample@, shown[middle as int], shown[after]);
                    }
                }
            }
            high = middle;
        } else {
            proof {
                assert forall|before: int| 0 <= before <= middle implies !comes_before(
                    sample@,
                    #[trigger] shown[before],
                ) by {
                    if before < middle {
                        assert(!comes_before(shown[middle as int], shown[before]));
                        order_carries_over(shown[before], shown[middle as int], sample@);
                    }
                }
            }
            low = middle + 1;
        }
    }
    proof {
        place_for_is(shown, sample@, 0, low as int);
    }
    low
}

/// The samples in order.
pub fn sort_samples(samples: &Vec<ParsedRateLimitSample>) -> (sorted: Vec<ParsedRateLimitSample>)
    ensures
        sample_views(sorted@) == ordered(sample_views(samples@)),
{
    let ghost shown = sample_views(samples@);
    let mut sorted: Vec<ParsedRateLimitSample> = Vec::new();
    proof {
        assert(sample_views(sorted@) =~= Seq::empty());
    }
    let mut index: usize = 0;
    while index < samples.len()
        invariant
            index <= samples.len(),
            shown == sample_views(samples@),
            sample_views(sorted@) == ordered(shown.take(index as int)),
        decreases samples.len() - index,
    {
        let ghost before = sorted@;
        proof {
            ordered_is_in_order(shown.take(index as int));
            assert(shown.take(index + 1).drop_last() =~= shown.take(index as int));
            assert(shown.take(index + 1).last() == samples[index as int]@);
        }
        let place = find_place(&sorted, &samples[index]);
        sorted.insert(place, samples[index].copy());
        proof {
            assert(sample_views(sorted@) =~= sample_views(before).insert(
                place as int,
                samples[index as int]@,
            ));
        }
        index = index + 1;
    }
    proof {
        assert(shown.take(index as int) =~= shown);
    }
    sorted
}

/// What each group of a list holds.
pub open spec fn group_views(groups: Seq<Vec<ParsedRateLimitSample>>) -> Seq<
    Seq<ParsedSampleView>,
> {
    groups.map_values(|group: Vec<ParsedRateLimitSample>| sample_views(group@))
}

/// Runs of samples with the same owner and bucket.
pub open spec fn runs(samples: Seq<ParsedSampleView>) -> Seq<Seq<ParsedSampleView>>
    decreases samples.len(),
{
    if samples.len() == 0 {
        Seq::empty()
    } else {
        let earlier = runs(samples.drop_last());
        let sample = samples.last();
        if earlier.len() > 0 && shares_owner(earlier.last()[0], sample) {
            earlier.update(earlier.len() - 1, earlier.last().push(sample))
        } else {
            earlier.push(seq![sample])
        }
    }
}

/// The samples by owner and bucket, each group by time.
pub fn grouped_sorted(samples: &Vec<ParsedRateLimitSample>) -> (groups: Vec<
    Vec<ParsedRateLimitSample>,
>)
    ensures
        group_views(groups@) == runs(ordered(sample_views(samples@))),
{
    let sorted = sort_samples(samples);
    let ghost shown = sample_views(sorted@);
    let mut groups: Vec<Vec<ParsedRateLimitSample>> = Vec::new();
    proof {
        assert(group_views(groups@) =~= Seq::empty());
    }
    let mut index: usize = 0;
    while index < sorted.len()
        invariant
            index <= sorted.len(),
            shown == sample_views(sorted@),
            group_views(groups@) == runs(shown.take(index as int)),
            runs_are_filled(group_views(groups@)),
        decreases sorted.len() - index,
    {
        let sample = sorted[index].copy();
        let ghost before = groups@;
        let ghost views = group_views(before);
        proof {
            assert(shown.take(index + 1).drop_last() =~= shown.take(index as int));
            assert(shown.take(index + 1).last() == sample@);
        }
        let joins = match groups.pop() {
            Some(mut group) => {
                proof {
                    assert(views[views.len() - 1] == sample_views(group@));
                    assert(views[views.len() - 1].len() > 0);
                }
                let joins = same_owner(&group[0], &sample);
                if joins {
                    let ghost members = group@;
                    group.push(sample.copy());
                    proof {
                        assert(sample_views(group@) =~= sample_views(members).push(sample@));
                    }
                }
                groups.push(group);
                proof {
                    if joins {
                        assert(group_views(groups@) =~= views.update(
                            views.len() - 1,
                            views.last().push(sample@),
                        ));
                    } else {
                        assert(group_views(groups@) =~= views);
                    }
                }
                joins
            },
            None => false,
        };
        if !joins {
            let mut group: Vec<ParsedRateLimitSample> = Vec::new();
            group.push(sample);
            groups.push(group);
            proof {
                assert(sample_views(group@) =~= seq![sample@]);
                assert(group_views(groups@) =~= views.push(seq![sample@]));
            }
        }
        index = index + 1;
    }
    proof {
        assert(shown.take(index as int) =~= shown);
    }
    groups
}

/// Whether no run is empty.
pub open spec fn runs_are_filled(groups: Seq<Seq<ParsedSampleView>>) -> bool {
    forall|index: int| 0 <= index < groups.len() ==> (#[trigger] groups[index]).len() > 0
}

/// Whether the window or its share changed from one sample to the next.
pub open spec fn changes(previous: ParsedSampleView, next: ParsedSampleView) -> bool {
    !shares_window(previous, next) || !shares_value(previous, next)
}

/// The first of the first `end` samples of a run, and those at which something changed.
pub open spec fn turning_points(run: Seq<ParsedSampleView>, end: int) -> Seq<ParsedSampleView>
    decreases end,
{
    if end <= 0 {
        Seq::empty()
    } else if end == 1 {
        seq![run[0]]
    } else if changes(run[end - 2], run[end - 1]) {
        turning_points(run, end - 1).push(run[end - 1])
    } else {
        turning_points(run, end - 1)
    }
}

/// A run reduced to its first sample, those at which something changed, and its last.
pub open spec fn compacted_run(run: Seq<ParsedSampleView>) -> Seq<ParsedSampleView> {
    let points = turning_points(run, run.len() as int);
    if run.len() == 0 || shares_point(points.last(), run.last()) {
        points
    } else {
        points.push(run.last())
    }
}

/// The first `end` runs, reduced, one after the other.
pub open spec fn compacted_runs(groups: Seq<Seq<ParsedSampleView>>, end: int) -> Seq<
    ParsedSampleView,
>
    decreases end,
{
    if end <= 0 {
        Seq::empty()
    } else {
        compacted_runs(groups, end - 1) + compacted_run(groups[end - 1])
    }
}

/// The history of samples: for each owner and bucket, by time, the first, the last, and those at
/// which something changed.
pub open spec fn history_of(samples: Seq<ParsedSampleView>) -> Seq<ParsedSampleView> {
    let groups = runs(ordered(samples));
    compacted_runs(groups, groups.len() as int)
}

/// A run reduced to its first sample, those at which something changed, and its last.
fn compact_run(run: &Vec<ParsedRateLimitSample>) -> (points: Vec<ParsedRateLimitSample>)
    ensures
        sample_views(points@) == compacted_run(sample_views(run@)),
{
    let ghost shown = sample_views(run@);
    let mut points: Vec<ParsedRateLimitSample> = Vec::new();
    if run.len() == 0 {
        proof {
            assert(sample_views(points@) =~= Seq::empty());
        }
        return points;
    }
    points.push(run[0].copy());
    proof {
        assert(sample_views(points@) =~= seq![shown[0]]);
    }
    let mut index: usize = 1;
    while index < run.len()
        invariant
            1 <= index <= run.len(),
            shown == sample_views(run@),
            points.len() > 0,
            sample_views(points@) == turning_points(shown, index as int),
        decreases run.len() - index,
    {
        let ghost before = points@;
        if !same_window(&run[index - 1], &run[index]) || !same_value(&run[index - 1], &run[index]) {
            points.push(run[index].copy());
            proof {
                assert(sample_views(points@) =~= sample_views(before).push(shown[index as int]));
            }
        }
        index = index + 1;
    }
    let last = &run[run.len() - 1];
    let ghost before = points@;
    proof {
        assert(sample_views(before).last() == before[before.len() - 1]@);
    }
    if !same_history_point(&points[points.len() - 1], last) {
        points.push(last.copy());
        proof {
            assert(sample_views(points@) =~= sample_views(before).push(last@));
        }
    }
    points
}

/// The history of samples: for each owner and bucket, by time, the first, the last, and those at
/// which something changed.
pub fn compact_complete_session_history(samples: &Vec<ParsedRateLimitSample>) -> (history: Vec<
    ParsedRateLimitSample,
>)
    ensures
        sample_views(history@) == history_of(sample_views(samples@)),
{
    let groups = grouped_sorted(samples);
    let ghost shown = group_views(groups@);
    let mut history: Vec<ParsedRateLimitSample> = Vec::new();
    proof {
        assert(sample_views(history@) =~= Seq::empty());
    }
    let mut index: usize = 0;
    while index < groups.len()
        invariant
            index <= groups.len(),
            shown == group_views(groups@),
            sample_views(history@) == compacted_runs(shown, index as int),
        decreases groups.len() - index,
    {
        let ghost before = history@;
        let mut points = compact_run(&groups[index]);
        let ghost added = points@;
        history.append(&mut points);
        proof {
            assert(sample_views(history@) =~= sample_views(before) + sample_views(added));
        }
        index = index + 1;
    }
    history
}

/// The first of `samples`, from `index` on, that is the same point as `wanted`.
pub open spec fn first_same_point(
    samples: Seq<ParsedSampleView>,
    wanted: ParsedSampleView,
    index: int,
) -> ParsedSampleView
    decreases samples.len() - index,
{
    if index < 0 || index >= samples.len() {
        wanted
    } else if shares_point(samples[index], wanted) {
        samples[index]
    } else {
        first_same_point(samples, wanted, index + 1)
    }
}

/// For each owner and bucket the newest sample, as the first that was observed with its content.
pub open spec fn newest_samples(samples: Seq<ParsedSampleView>) -> Seq<ParsedSampleView> {
    runs(ordered(samples)).map_values(
        |run: Seq<ParsedSampleView>| first_same_point(samples, run.last(), 0),
    )
}

fn find_same_point(samples: &Vec<ParsedRateLimitSample>, wanted: &ParsedRateLimitSample) -> (found:
    ParsedRateLimitSample)
    ensures
        found@ == first_same_point(sample_views(samples@), wanted@, 0),
{
    let ghost shown = sample_views(samples@);
    let mut index: usize = 0;
    while index < samples.len()
        invariant
            index <= samples.len(),
            shown == sample_views(samples@),
            first_same_point(shown, wanted@, 0) == first_same_point(shown, wanted@, index as int),
        decreases samples.len() - index,
    {
        if same_history_point(&samples[index], wanted) {
            return samples[index].copy();
        }
        index = index + 1;
    }
    wanted.copy()
}

proof fn runs_have_members(samples: Seq<ParsedSampleView>)
    ensures
        runs_are_filled(runs(samples)),
    decreases samples.len(),
{
    if samples.len() > 0 {
        runs_have_members(samples.drop_last());
    }
}

/// For each owner and bucket the newest sample.
pub fn newest_per_owner_bucket(samples: &Vec<ParsedRateLimitSample>) -> (newest: Vec<
    ParsedRateLimitSample,
>)
    ensures
        sample_views(newest@) == newest_samples(sample_views(samples@)),
{
    let groups = grouped_sorted(samples);
    let ghost shown = group_views(groups@);
    let ghost all = newest_samples(sample_views(samples@));
    proof {
        runs_have_members(ordered(sample_views(samples@)));
    }
    let mut newest: Vec<ParsedRateLimitSample> = Vec::new();
    let mut index: usize = 0;
    while index < groups.len()
        invariant
            index <= groups.len(),
            shown == group_views(groups@),
            shown == runs(ordered(sample_views(samples@))),
            runs_are_filled(shown),
            all == newest_samples(sample_views(samples@)),
            newest.len() == index,
            forall|done: int| 0 <= done < index ==> (#[trigger] newest[done])@ == all[done],
        decreases groups.len() - index,
    {
        let group = &groups[index];
        proof {
            assert(shown[index as int] == sample_views(group@));
            assert(shown[index as int].len() > 0);
            assert(shown[index as int].last() == group[group.len() - 1]@);
        }
        newest.push(find_same_point(samples, &group[group.len() - 1]));
        index = index + 1;
    }
    proof {
        assert(sample_views(newest@) =~= all);
    }
    newest
}

/// How many samples a write observed, how many it added to the history, and how many of the
/// newest ones it replaced.
#[derive(Clone, Copy, Debug, PartialEq, Eq, Structural)]
pub struct RateLimitWriteStats {
    pub observed: usize,
    pub historical_inserted: usize,
    pub latest_updated: usize,
}

impl Default for RateLimitWriteStats {
    fn default() -> (stats: Self)
        ensures
            stats == (RateLimitWriteStats {
                observed: 0,
                historical_inserted: 0,
                latest_updated: 0,
            }),
    {
        RateLimitWriteStats { observed: 0, historical_inserted: 0, latest_updated: 0 }
    }
}

/// What an optional sample holds.
pub open spec fn opt_sample(sample: Option<ParsedRateLimitSample>) -> Option<ParsedSampleView> {
    match sample {
        Some(found) => Some(found@),
        None => None,
    }
}

/// The newest sample after the first `end` of a run: one that is older than the newest so far
/// does not count.
pub open spec fn latest_after(
    previous: Option<ParsedSampleView>,
    run: Seq<ParsedSampleView>,
    end: int,
) -> Option<ParsedSampleView>
    decreases end,
{
    if end <= 0 {
        previous
    } else {
        match latest_after(previous, run, end - 1) {
            Some(current) if run[end - 1].sample_timestamp_ms < current.sample_timestamp_ms => {
                Some(current)
            },
            _ => Some(run[end - 1]),
        }
    }
}

/// What one sample adds to a history after `current`: itself where there is nothing yet or its
/// share changed, and the last sample of the old window too where a new one began.
pub open spec fn added_points(current: Option<ParsedSampleView>, sample: ParsedSampleView) -> Seq<
    ParsedSampleView,
> {
    match current {
        None => seq![sample],
        Some(known) => if sample.sample_timestamp_ms < known.sample_timestamp_ms {
            Seq::empty()
        } else if !shares_window(known, sample) {
            seq![known, sample]
        } else if !shares_value(known, sample) {
            seq![sample]
        } else {
            Seq::empty()
        },
    }
}

/// What the first `end` samples of a run add to a history.
pub open spec fn points_after(
    previous: Option<ParsedSampleView>,
    run: Seq<ParsedSampleView>,
    end: int,
) -> Seq<ParsedSampleView>
    decreases end,
{
    if end <= 0 {
        Seq::empty()
    } else {
        points_after(previous, run, end - 1) + added_points(
            latest_after(previous, run, end - 1),
            run[end - 1],
        )
    }
}

/// The first `end` samples of a list without those that are the same point as the one before.
pub open spec fn without_repeats(samples: Seq<ParsedSampleView>, end: int) -> Seq<ParsedSampleView>
    decreases end,
{
    if end <= 0 {
        Seq::empty()
    } else {
        let earlier = without_repeats(samples, end - 1);
        if earlier.len() > 0 && shares_point(samples[end - 1], earlier.last()) {
            earlier
        } else {
            earlier.push(samples[end - 1])
        }
    }
}

/// What a run adds to a history after the newest sample that is known, each point once.
pub open spec fn appended_history(
    previous: Option<ParsedSampleView>,
    run: Seq<ParsedSampleView>,
) -> Seq<ParsedSampleView> {
    let points = points_after(previous, run, run.len() as int);
    without_repeats(points, points.len() as int)
}

/// What must be written for one run of samples.
#[derive(Debug)]
pub struct AppendPlan {
    /// What is added to the history.
    pub history: Vec<ParsedRateLimitSample>,
    /// The newest sample.
    pub latest: Option<ParsedRateLimitSample>,
}

fn remove_repeats(samples: &Vec<ParsedRateLimitSample>) -> (result: Vec<ParsedRateLimitSample>)
    ensures
        sample_views(result@) == without_repeats(sample_views(samples@), samples.len() as int),
{
    let ghost shown = sample_views(samples@);
    let mut result: Vec<ParsedRateLimitSample> = Vec::new();
    proof {
        assert(sample_views(result@) =~= Seq::empty());
    }
    let mut index: usize = 0;
    while index < samples.len()
        invariant
            index <= samples.len(),
            shown == sample_views(samples@),
            sample_views(result@) == without_repeats(shown, index as int),
        decreases samples.len() - index,
    {
        let ghost before = result@;
        proof {
            if before.len() > 0 {
                assert(sample_views(before).last() == before[before.len() - 1]@);
            }
        }
        let repeats = result.len() > 0 && same_history_point(
            &samples[index],
            &result[result.len() - 1],
        );
        if !repeats {
            result.push(samples[index].copy());
            proof {
                assert(sample_views(result@) =~= sample_views(before).push(
                    samples[index as int]@,
                ));
            }
        }
        index = index + 1;
    }
    result
}

/// What must be written for a run of samples of one owner and bucket, after the newest sample
/// that is stored for them.
pub fn plan_append(
    stored: Option<ParsedRateLimitSample>,
    run: &Vec<ParsedRateLimitSample>,
) -> (plan: AppendPlan)
    ensures
        sample_views(plan.history@) == appended_history(opt_sample(stored), sample_views(run@)),
        opt_sample(plan.latest) == latest_after(
            opt_sample(stored),
            sample_views(run@),
            run.len() as int,
        ),
{
    let ghost shown = sample_views(run@);
    let ghost start = opt_sample(stored);
    let mut current = stored;
    let mut points: Vec<ParsedRateLimitSample> = Vec::new();
    proof {
        assert(sample_views(points@) =~= Seq::empty());
    }
    let mut index: usize = 0;
    while index < run.len()
        invariant
            index <= run.len(),
            shown == sample_views(run@),
            opt_sample(current) == latest_after(start, shown, index as int),
            sample_views(points@) == points_after(start, shown, index as int),
        decreases run.len() - index,
    {
        let sample = &run[index];
        let ghost before = points@;
        let ghost known = opt_sample(current);
        proof {
            assert(shown[index as int] == sample@);
        }
        let outdated = match &current {
            Some(newest) => sample.sample_timestamp_ms < newest.sample_timestamp_ms,
            None => false,
        };
        if !outdated {
            match current {
                None => {
                    points.push(sample.copy());
                },
                Some(newest) => {
                    if !same_window(&newest, sample) {
                        points.push(newest);
                        points.push(sample.copy());
                    } else if !same_value(&newest, sample) {
                        points.push(sample.copy());
                    }
                },
            }
            current = Some(sample.copy());
        }
        proof {
            assert(sample_views(points@) =~= sample_views(before) + added_points(known, sample@));
        }
        index = index + 1;
    }
    AppendPlan { history: remove_repeats(&points), latest: current }
}

/// Whether a sample takes the place of the newest one that is stored: it is not older, and
/// something in it differs.
pub open spec fn supersedes(sample: ParsedSampleView, stored: ParsedSampleView) -> bool {
    sample.sample_timestamp_ms >= stored.sample_timestamp_ms && (sample.sample_timestamp_ms
        != stored.sample_timestamp_ms || sample.limit_id != stored.limit_id || sample.limit_name
        != stored.limit_name || sample.plan_type != stored.plan_type || !shares_window(
        sample,
        stored,
    ) || !shares_value(sample, stored))
}

/// Whether a sample takes the place of the newest one that is stored.
pub fn supersedes_latest(sample: &ParsedRateLimitSample, stored: &ParsedRateLimitSample) -> (result:
    bool)
    ensures
        result == supersedes(sample@, stored@),
{
    sample.sample_timestamp_ms >= stored.sample_timestamp_ms && (sample.sample_timestamp_ms
        != stored.sample_timestamp_ms || !same_text(
        sample.limit_id.as_str(),
        stored.limit_id.as_str(),
    ) || !same_text(sample.limit_name.as_str(), stored.limit_name.as_str()) || !same_text(
        sample.plan_type.as_str(),
        stored.plan_type.as_str(),
    ) || !same_window(sample, stored) || !same_value(sample, stored))
}

/// A text, unless it is empty.
pub open spec fn unless_empty(text: Seq<char>) -> Option<Seq<char>> {
    if text.len() == 0 {
        None
    } else {
        Some(text)
    }
}

fn copy_unless_empty(text: &String) -> (copy: Option<String>)
    ensures
        opt_text(copy) == unless_empty(text@),
{
    if text.as_str().is_empty() {
        None
    } else {
        Some(text.clone())
    }
}

/// The minutes from the start of a window to its end; zero where it ends before it starts.
pub open spec fn window_minutes(start_ms: i64, end_ms: i64) -> i64 {
    let length = end_ms.wrapping_sub(start_ms);
    if length < 0 {
        0
    } else {
        (length as int / 60_000) as i64
    }
}

/// The window that a sample shows.
pub open spec fn window_of(sample: ParsedSampleView) -> RateLimitWindowView {
    RateLimitWindowView {
        used_percent: sample.used_percent,
        remaining_percent: sample.remaining_percent,
        window_duration_mins: Some(window_minutes(sample.window_start_ms, sample.resets_at_ms)),
        resets_at: Some(sample.resets_at),
        window_start: Some(sample.window_start),
    }
}

fn window_snapshot(sample: &ParsedRateLimitSample) -> (window: RateLimitWindowSnapshot)
    ensures
        window@ == window_of(sample@),
{
    let length = sample.resets_at_ms.wrapping_sub(sample.window_start_ms);
    let minutes: i64 = if length < 0 {
        0
    } else {
        length / 60_000
    };
    RateLimitWindowSnapshot {
        used_percent: sample.used_percent,
        remaining_percent: sample.remaining_percent,
        window_duration_mins: Some(minutes),
        resets_at: Some(sample.resets_at.clone()),
        window_start: Some(sample.window_start.clone()),
    }
}

/// Whether two samples were observed together: by the same source at the same time.
pub open spec fn observed_together(left: ParsedSampleView, right: ParsedSampleView) -> bool {
    left.source_kind == right.source_kind && left.source_session_id == right.source_session_id
        && left.sample_timestamp_ms == right.sample_timestamp_ms
}

/// The newer of the newest samples of the two buckets; the primary one of two that are as new.
pub open spec fn newer_sample(
    primary: Option<ParsedSampleView>,
    secondary: Option<ParsedSampleView>,
) -> Option<ParsedSampleView> {
    match (primary, secondary) {
        (Some(left), Some(right)) => if right.sample_timestamp_ms > left.sample_timestamp_ms {
            Some(right)
        } else {
            Some(left)
        },
        (Some(left), None) => Some(left),
        (None, other) => other,
    }
}

/// A sample's window, if it was observed together with the newest sample.
pub open spec fn current_window(
    sample: Option<ParsedSampleView>,
    newest: ParsedSampleView,
) -> Option<RateLimitWindowView> {
    match sample {
        Some(found) if observed_together(found, newest) => Some(window_of(found)),
        _ => None,
    }
}

/// The rate limits that the newest samples of the two buckets show: of the newer of them and of
/// what was observed together with it. A window from another observation is left out.
pub open spec fn latest_limits(
    primary: Option<ParsedSampleView>,
    secondary: Option<ParsedSampleView>,
) -> Option<LiveRateLimitView> {
    match newer_sample(primary, secondary) {
        None => None,
        Some(newest) => {
            let reference = if primary is Some && observed_together(primary->0, newest) {
                primary->0
            } else {
                newest
            };
            Some(
                LiveRateLimitView {
                    limit_id: unless_empty(reference.limit_id),
                    limit_name: unless_empty(reference.limit_name),
                    plan_type: unless_empty(reference.plan_type),
                    primary: current_window(primary, newest),
                    secondary: current_window(secondary, newest),
                    fetched_at: reference.sample_timestamp,
                },
            )
        },
    }
}

fn were_observed_together(left: &ParsedRateLimitSample, right: &ParsedRateLimitSample) -> (result:
    bool)
    ensures
        result == observed_together(left@, right@),
{
    same_text(left.source_kind.as_str(), right.source_kind.as_str()) && same_text(
        left.source_session_id.as_str(),
        right.source_session_id.as_str(),
    ) && left.sample_timestamp_ms == right.sample_timestamp_ms
}

/// The rate limits that the newest samples of the two buckets show.
pub fn latest_rate_limits(
    primary: &Option<ParsedRateLimitSample>,
    secondary: &Option<ParsedRateLimitSample>,
) -> (limits: Option<LiveRateLimitSnapshot>)
    ensures
        match limits {
            Some(found) => latest_limits(opt_sample(*primary), opt_sample(*secondary)) == Some(
                found@,
            ),
            None => latest_limits(opt_sample(*primary), opt_sample(*secondary)) is None,
        },
{
    let newest = match (primary, secondary) {
        (Some(left), Some(right)) => if right.sample_timestamp_ms > left.sample_timestamp_ms {
            right
        } else {
            left
        },
        (Some(left), None) => left,
        (None, Some(right)) => right,
        (None, None) => {
            return None;
        },
    };
    let mut reference = newest;
    let mut primary_window: Option<RateLimitWindowSnapshot> = None;
    let mut secondary_window: Option<RateLimitWindowSnapshot> = None;
    match primary {
        Some(sample) => {
            if were_observed_together(sample, newest) {
                reference = sample;
                primary_window = Some(window_snapshot(sample));
            }
        },
        None => {},
    }
    match secondary {
        Some(sample) => {
            if were_observed_together(sample, newest) {
                secondary_window = Some(window_snapshot(sample));
            }
        },
        None => {},
    }
    Some(
        LiveRateLimitSnapshot {
            limit_id: copy_unless_empty(&reference.limit_id),
            limit_name: copy_unless_empty(&reference.limit_name),
            plan_type: copy_unless_empty(&reference.plan_type),
            primary: primary_window,
            secondary: secondary_window,
            fetched_at: reference.sample_timestamp.clone(),
        },
    )
}

/// The sample that a live window gives, where it says both its start and its end.
pub open spec fn live_sample(
    limits: LiveRateLimitView,
    window: Option<RateLimitWindowView>,
    bucket: Seq<char>,
) -> Seq<RateLimitSampleRecordView> {
    match window {
        Some(found) => match (found.window_start, found.resets_at) {
            (Some(window_start), Some(resets_at)) => seq![
                RateLimitSampleRecordView {
                    source_kind: "live"@,
                    source_session_id: None,
                    bucket,
                    sample_timestamp: limits.fetched_at,
                    limit_id: limits.limit_id,
                    limit_name: limits.limit_name,
                    plan_type: limits.plan_type,
                    window_start,
                    resets_at,
                    used_percent: found.used_percent,
                    remaining_percent: found.remaining_percent,
                },
            ],
            _ => Seq::empty(),
        },
        None => Seq::empty(),
    }
}

/// What each sample record of a list holds.
pub open spec fn record_views(samples: Seq<RateLimitSampleRecord>) -> Seq<
    RateLimitSampleRecordView,
> {
    samples.map_values(|sample: RateLimitSampleRecord| sample@)
}

fn push_live_sample(
    samples: &mut Vec<RateLimitSampleRecord>,
    limits: &LiveRateLimitSnapshot,
    window: &Option<RateLimitWindowSnapshot>,
    bucket: &str,
)
    ensures
        record_views(final(samples)@) == record_views(old(samples)@) + live_sample(
            limits@,
            opt_window(*window),
            bucket@,
        ),
{
    let ghost before = samples@;
    match window {
        Some(found) => match (&found.window_start, &found.resets_at) {
            (Some(window_start), Some(resets_at)) => {
                samples.push(
                    RateLimitSampleRecord {
                        source_kind: "live".to_owned(),
                        source_session_id: None,
                        bucket: bucket.to_owned(),
                        sample_timestamp: limits.fetched_at.clone(),
                        limit_id: copy_opt(&limits.limit_id),
                        limit_name: copy_opt(&limits.limit_name),
                        plan_type: copy_opt(&limits.plan_type),
                        window_start: window_start.clone(),
                        resets_at: resets_at.clone(),
                        used_percent: found.used_percent,
                        remaining_percent: found.remaining_percent,
                    },
                );
            },
            _ => {},
        },
        None => {},
    }
    proof {
        assert(record_views(samples@) =~= record_views(before) + live_sample(
            limits@,
            opt_window(*window),
            bucket@,
        ));
    }
}

/// The samples that live rate limits give.
pub fn live_rate_limit_samples(snapshot: &LiveRateLimitSnapshot) -> (samples: Vec<
    RateLimitSampleRecord,
>)
    ensures
        record_views(samples@) == live_sample(snapshot@, snapshot@.primary, "five_hour"@)
            + live_sample(snapshot@, snapshot@.secondary, "seven_day"@),
{
    let mut samples: Vec<RateLimitSampleRecord> = Vec::new();
    proof {
        assert(record_views(samples@) =~= Seq::empty());
    }
    push_live_sample(&mut samples, snapshot, &snapshot.primary, "five_hour");
    push_live_sample(&mut samples, snapshot, &snapshot.secondary, "seven_day");
    proof {
        assert(record_views(samples@) =~= live_sample(snapshot@, snapshot@.primary, "five_hour"@)
            + live_sample(snapshot@, snapshot@.secondary, "seven_day"@));
    }
    samples
}

/// Whether two samples are the same in everything.
fn same_sample(left: &ParsedRateLimitSample, right: &ParsedRateLimitSample) -> (same: bool)
    ensures
        same == (left@ == right@),
{
    same_history_point(left, right) && same_text(
        left.sample_timestamp.as_str(),
        right.sample_timestamp.as_str(),
    ) && same_text(left.window_start.as_str(), right.window_start.as_str()) && same_text(
        left.resets_at.as_str(),
        right.resets_at.as_str(),
    )
}

/// Whether two lists hold the same samples.
pub fn same_samples(
    left: &Vec<ParsedRateLimitSample>,
    right: &Vec<ParsedRateLimitSample>,
) -> (same: bool)
    ensures
        same == (sample_views(left@) == sample_views(right@)),
{
    let ghost one = sample_views(left@);
    let ghost other = sample_views(right@);
    if left.len() != right.len() {
        proof {
            assert(one.len() != other.len());
        }
        return false;
    }
    let mut index: usize = 0;
    while index < left.len()
        invariant
            index <= left.len(),
            left.len() == right.len(),
            one == sample_views(left@),
            other == sample_views(right@),
            forall|seen: int| 0 <= seen < index ==> one[seen] == other[seen],
        decreases left.len() - index,
    {
        if !same_sample(&left[index], &right[index]) {
            proof {
                assert(one[index as int] != other[index as int]);
            }
            return false;
        }
        index = index + 1;
    }
    proof {
        assert(one =~= other);
    }
    true
}

/// Whether a list holds a sample of a bucket.
pub open spec fn has_bucket(samples: Seq<ParsedSampleView>, bucket: Seq<char>) -> bool {
    exists|index: int| 0 <= index < samples.len() && (#[trigger] samples[index]).bucket == bucket
}

fn holds_bucket(samples: &Vec<ParsedRateLimitSample>, bucket: &str) -> (found: bool)
    ensures
        found == has_bucket(sample_views(samples@), bucket@),
{
    let ghost shown = sample_views(samples@);
    let mut index: usize = 0;
    while index < samples.len()
        invariant
            index <= samples.len(),
            shown == sample_views(samples@),
            forall|seen: int| 0 <= seen < index ==> (#[trigger] shown[seen]).bucket != bucket@,
        decreases samples.len() - index,
    {
        if same_text(samples[index].bucket.as_str(), bucket) {
            proof {
                assert(shown[index as int].bucket == bucket@);
            }
            return true;
        }
        index = index + 1;
    }
    false
}

/// What must be written when all samples of a session are known.
#[derive(Debug)]
pub struct ReplacePlan {
    /// The history to store in place of the stored one; nothing where that is already right.
    pub history: Option<Vec<ParsedRateLimitSample>>,
    /// Whether the newest sample of the five-hour window must go.
    pub clear_five_hour: bool,
    /// Whether the newest sample of the seven-day window must go.
    pub clear_seven_day: bool,
    /// The newest sample of each window.
    pub newest: Vec<ParsedRateLimitSample>,
}

/// What must be written when `samples` are all samples of a session and `stored` is its stored
/// history. There is none to go by where the times of a stored sample are not filled in yet.
pub fn plan_session_replace(
    stored: &Option<Vec<ParsedRateLimitSample>>,
    samples: &Vec<ParsedRateLimitSample>,
) -> (plan: ReplacePlan)
    ensures
        ({
            let history = history_of(sample_views(samples@));
            &&& match (*stored, plan.history) {
                (Some(kept), None) => sample_views(kept@) == history,
                (Some(kept), Some(written)) => sample_views(written@) == history && sample_views(
                    kept@,
                ) != history,
                (None, Some(written)) => sample_views(written@) == history,
                (None, None) => false,
            }
            &&& plan.clear_five_hour == !has_bucket(history, "five_hour"@)
            &&& plan.clear_seven_day == !has_bucket(history, "seven_day"@)
            &&& sample_views(plan.newest@) == newest_samples(sample_views(samples@))
        }),
{
    let history = compact_complete_session_history(samples);
    let clear_five_hour = !holds_bucket(&history, "five_hour");
    let clear_seven_day = !holds_bucket(&history, "seven_day");
    let newest = newest_per_owner_bucket(samples);
    let same = match stored {
        Some(kept) => same_samples(kept, &history),
        None => false,
    };
    if same {
        ReplacePlan { history: None, clear_five_hour, clear_seven_day, newest }
    } else {
        ReplacePlan { history: Some(history), clear_five_hour, clear_seven_day, newest }
    }
}

} // verus!
