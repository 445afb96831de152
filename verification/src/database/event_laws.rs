//! What is stored of a session's usage: each event with its own time and its own counts.

use super::usage_events::{
    all_millis, event_at, first_bad_time, is_same_event, of_session, once_stored, planned_event,
    shared_prefix, timed_events, NewUsageEvent, NewUsageEventView, PreparedUsageEventView,
    StoredUsageEventView,
};
use crate::models::UsageSnapshotView;
use crate::session_log::ModelNames;
use crate::timestamps::{rfc3339, Instant};
use crate::usage::PlannedUsage;
use crate::usage_laws::{counted, Count};
use vstd::prelude::*;

verus! {

/// What an event says of a count.
pub open spec fn counted_in_event(event: NewUsageEventView, count: Count) -> int {
    match count {
        Count::Input => event.input_tokens as int,
        Count::CachedInput => event.cached_input_tokens as int,
        Count::Output => event.output_tokens as int,
        Count::ReasoningOutput => event.reasoning_output_tokens as int,
        Count::Total => event.total_tokens as int,
    }
}

/// An event says of every count what was planned for it. It is of its session, and of the model of
/// its reading, by the canonical name.
pub proof fn event_says_what_was_planned(
    session_id: Seq<char>,
    snapshots: Seq<UsageSnapshotView>,
    planned: PlannedUsage,
    value_key: Option<u64>,
    names: ModelNames,
    count: Count,
)
    requires
        planned.snapshot_index < snapshots.len(),
    ensures
        ({
            let event = planned_event(session_id, snapshots, planned, value_key, names);
            let model = snapshots[planned.snapshot_index as int].model_id;
            &&& counted_in_event(event, count) == counted(planned.delta, count)
            &&& event.session_id == session_id
            &&& event.value_key == value_key
            &&& names.canonical@.dom().contains(model) ==> event.model_id
                == names.canonical@[model]@
            &&& !names.canonical@.dom().contains(model) ==> event.model_id == model
            &&& !event.fast_mode_auto && !event.fast_mode_effective
        }),
{
}

/// Whether a text says no moment.
pub open spec fn is_bad_time(text: Seq<char>) -> bool {
    rfc3339(text) is Err
}

/// A batch is bad where one of its times says no moment, and it is the first such that is named,
/// with the reason.
pub proof fn first_bad_time_is_named(timestamps: Seq<String>, end: int)
    requires
        0 <= end <= timestamps.len(),
    ensures
        first_bad_time(timestamps, end) is None <==> forall|index: int|
            0 <= index < end ==> !is_bad_time((#[trigger] timestamps[index])@),
        first_bad_time(timestamps, end) matches Some(found) ==> exists|place: int|
            {
                &&& 0 <= place < end
                &&& (#[trigger] timestamps[place])@ == found.0
                &&& rfc3339(found.0) == Err::<Instant, Seq<char>>(found.1)
                &&& forall|earlier: int|
                    0 <= earlier < place ==> !is_bad_time((#[trigger] timestamps[earlier])@)
            },
    decreases end,
{
    if end > 0 {
        first_bad_time_is_named(timestamps, end - 1);
        if first_bad_time(timestamps, end - 1) is Some {
            let found = first_bad_time(timestamps, end - 1)->0;
            let place = choose|place: int|
                {
                    &&& 0 <= place < end - 1
                    &&& (#[trigger] timestamps[place])@ == found.0
                    &&& rfc3339(found.0) == Err::<Instant, Seq<char>>(found.1)
                    &&& forall|earlier: int|
                        0 <= earlier < place ==> !is_bad_time((#[trigger] timestamps[earlier])@)
                };
            assert(timestamps[place]@ == found.0);
        } else {
            assert(timestamps[end - 1]@ == timestamps[end - 1]@);
            if first_bad_time(timestamps, end) is Some {
                assert(is_bad_time(timestamps[end - 1]@));
            }
        }
    }
}

/// Whether a prepared event is the one at a place of a batch, with the time at that place.
pub open spec fn is_event_of(
    prepared: PreparedUsageEventView,
    timestamps: Seq<String>,
    events: Seq<Option<NewUsageEvent>>,
    place: int,
) -> bool {
    &&& 0 <= place < events.len() && place < timestamps.len()
    &&& events[place] matches Some(event) && prepared.event == event@
    &&& prepared.timestamp == timestamps[place]@
    &&& rfc3339(timestamps[place]@) matches Ok(moment) && prepared.timestamp_ms == moment.millis
}

/// Whether `places` are, in order, the places of a batch that have an event.
pub open spec fn lists_events(
    places: Seq<int>,
    events: Seq<Option<NewUsageEvent>>,
    end: int,
) -> bool {
    &&& forall|left: int, right: int|
        0 <= left < right < places.len() ==> #[trigger] places[left] < #[trigger] places[right]
    &&& forall|index: int|
        0 <= index < places.len() ==> 0 <= #[trigger] places[index] < end && places[index]
            < events.len() && events[places[index]] is Some
    &&& forall|place: int|
        0 <= place < end && place < events.len() && (#[trigger] events[place]) is Some
            ==> places.contains(place)
}

/// Each event of a batch is prepared with the time at its own place, and with what that time says
/// in milliseconds; all events are there, in order, and no others.
pub proof fn events_keep_their_times(
    timestamps: Seq<String>,
    events: Seq<Option<NewUsageEvent>>,
    end: int,
)
    requires
        0 <= end <= timestamps.len(),
        forall|index: int|
            0 <= index < timestamps.len() ==> !is_bad_time((#[trigger] timestamps[index])@),
    ensures
        exists|places: Seq<int>|
            {
                let prepared = timed_events(timestamps, all_millis(timestamps), events, end);
                &&& #[trigger] lists_events(places, events, end)
                &&& prepared.len() == places.len()
                &&& forall|index: int|
                    0 <= index < prepared.len() ==> is_event_of(
                        #[trigger] prepared[index],
                        timestamps,
                        events,
                        places[index],
                    )
            },
    decreases end,
{
    let prepared = timed_events(timestamps, all_millis(timestamps), events, end);
    if end <= 0 {
        assert(lists_events(Seq::empty(), events, end));
    } else {
        events_keep_their_times(timestamps, events, end - 1);
        let earlier = timed_events(timestamps, all_millis(timestamps), events, end - 1);
        let places = choose|places: Seq<int>|
            {
                &&& #[trigger] lists_events(places, events, end - 1)
                &&& earlier.len() == places.len()
                &&& forall|index: int|
                    0 <= index < earlier.len() ==> is_event_of(
                        #[trigger] earlier[index],
                        timestamps,
                        events,
                        places[index],
                    )
            };
        assert(!is_bad_time(timestamps[end - 1]@));
        if event_at(events, end - 1) is Some {
            let longer = places.push(end - 1);
            assert forall|place: int|
                0 <= place < end && place < events.len() && (
                #[trigger] events[place]) is Some implies longer.contains(place) by {
                if place < end - 1 {
                    assert(places.contains(place));
                    let index = choose|index: int|
                        0 <= index < places.len() && places[index] == place;
                    assert(longer[index] == place);
                } else {
                    assert(longer[places.len() as int] == place);
                }
            }
            assert(lists_events(longer, events, end));
            assert forall|index: int| 0 <= index < prepared.len() implies is_event_of(
                #[trigger] prepared[index],
                timestamps,
                events,
                longer[index],
            ) by {
                if index < earlier.len() {
                    assert(prepared[index] == earlier[index]);
                }
            }
        } else {
            assert(lists_events(places, events, end));
        }
    }
}

/// Making events those of a session changes nothing else in them.
pub proof fn only_the_session_changes(
    events: Seq<PreparedUsageEventView>,
    session_id: Seq<char>,
    index: int,
    count: Count,
)
    requires
        0 <= index < events.len(),
    ensures
        of_session(events, session_id).len() == events.len(),
        ({
            let before = events[index];
            let after = of_session(events, session_id)[index];
            &&& after.event.session_id == session_id
            &&& after.timestamp == before.timestamp
            &&& after.timestamp_ms == before.timestamp_ms
            &&& after.event.model_id == before.event.model_id
            &&& after.event.value_key == before.event.value_key
            &&& after.event.fast_mode_auto == before.event.fast_mode_auto
            &&& after.event.fast_mode_effective == before.event.fast_mode_effective
            &&& counted_in_event(after.event, count) == counted_in_event(before.event, count)
        }),
{
}

/// Whether a stored event is a desired one in everything: its texts, its time, which must be filled
/// in, its counts, its modes and its price.
pub open spec fn is_stored_as(
    stored: StoredUsageEventView,
    desired: PreparedUsageEventView,
) -> bool {
    &&& stored.timestamp == desired.timestamp
    &&& stored.timestamp_ms == Some(desired.timestamp_ms)
    &&& stored.event.session_id == desired.event.session_id
    &&& stored.event.model_id == desired.event.model_id
    &&& stored.event.input_tokens == desired.event.input_tokens
    &&& stored.event.cached_input_tokens == desired.event.cached_input_tokens
    &&& stored.event.output_tokens == desired.event.output_tokens
    &&& stored.event.reasoning_output_tokens == desired.event.reasoning_output_tokens
    &&& stored.event.total_tokens == desired.event.total_tokens
    &&& stored.event.fast_mode_auto == desired.event.fast_mode_auto
    &&& stored.event.fast_mode_effective == desired.event.fast_mode_effective
    &&& stored.event.value_key == desired.event.value_key
}

/// What is stored of desired events is each of them, in order, with all that it says.
pub proof fn stored_events_say_the_same(events: Seq<PreparedUsageEventView>)
    ensures
        once_stored(events).len() == events.len(),
        forall|index: int|
            0 <= index < events.len() ==> is_stored_as(
                #[trigger] once_stored(events)[index],
                events[index],
            ),
{
}

/// What stored and desired events have in common goes as far as they are the same in everything,
/// with a price that equals itself, and no farther.
pub proof fn common_part_is_longest(
    stored: Seq<StoredUsageEventView>,
    desired: Seq<PreparedUsageEventView>,
    start: int,
)
    requires
        0 <= start <= stored.len(),
        start <= desired.len(),
    ensures
        ({
            let shared = shared_prefix(stored, desired, start);
            &&& start <= shared <= stored.len()
            &&& shared <= desired.len()
            &&& forall|index: int|
                start <= index < shared ==> is_stored_as(#[trigger] stored[index], desired[index])
                    && stored[index].event.value_key is Some
            &&& shared < stored.len() && shared < desired.len() ==> !is_stored_as(
                stored[shared],
                desired[shared],
            ) || stored[shared].event.value_key is None
        }),
    decreases stored.len() - start,
{
    if start < stored.len() && start < desired.len() {
        if is_same_event(stored[start], desired[start]) {
            common_part_is_longest(stored, desired, start + 1);
        } else if is_stored_as(stored[start], desired[start]) {
            assert(stored[start].event =~= desired[start].event);
            assert(stored[start] =~= desired[start].stored());
        }
    }
}

} // verus!
