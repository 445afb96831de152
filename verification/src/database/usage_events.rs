//! Storing the usage events of a session.
//!
//! The price of an event is a floating-point number outside the library. What stands for it here
//! is a key that two prices share exactly when they are equal; a price that equals nothing, not
//! even itself, has none.

use crate::models::{snapshot_views, UsageSnapshot, UsageSnapshotView};
use crate::session_log::ModelNames;
use crate::text::{quote_text, quoted, same_text};
use crate::timestamps::{epoch_millis, parse_epoch_millis};
use crate::usage::PlannedUsage;
use vstd::prelude::*;
use vstd::string::*;

verus! {

/// An event to be stored, still without its time.
#[derive(Clone, Debug)]
pub struct NewUsageEvent {
    pub session_id: String,
    pub model_id: String,
    pub input_tokens: i64,
    pub cached_input_tokens: i64,
    pub output_tokens: i64,
    pub reasoning_output_tokens: i64,
    pub total_tokens: i64,
    pub value_key: Option<u64>,
    pub fast_mode_auto: bool,
    pub fast_mode_effective: bool,
}

/// What a `NewUsageEvent` holds.
#[verifier::ext_equal]
pub struct NewUsageEventView {
    pub session_id: Seq<char>,
    pub model_id: Seq<char>,
    pub input_tokens: i64,
    pub cached_input_tokens: i64,
    pub output_tokens: i64,
    pub reasoning_output_tokens: i64,
    pub total_tokens: i64,
    pub value_key: Option<u64>,
    pub fast_mode_auto: bool,
    pub fast_mode_effective: bool,
}

impl View for NewUsageEvent {
    type V = NewUsageEventView;

    open spec fn view(&self) -> NewUsageEventView {
        NewUsageEventView {
            session_id: self.session_id@,
            model_id: self.model_id@,
            input_tokens: self.input_tokens,
            cached_input_tokens: self.cached_input_tokens,
            output_tokens: self.output_tokens,
            reasoning_output_tokens: self.reasoning_output_tokens,
            total_tokens: self.total_tokens,
            value_key: self.value_key,
            fast_mode_auto: self.fast_mode_auto,
            fast_mode_effective: self.fast_mode_effective,
        }
    }
}

/// An event with its time.
#[derive(Clone, Debug)]
pub struct PreparedUsageEvent {
    pub timestamp: String,
    pub timestamp_ms: i64,
    pub event: NewUsageEvent,
}

/// What a `PreparedUsageEvent` holds.
#[verifier::ext_equal]
pub struct PreparedUsageEventView {
    pub timestamp: Seq<char>,
    pub timestamp_ms: i64,
    pub event: NewUsageEventView,
}

impl View for PreparedUsageEvent {
    type V = PreparedUsageEventView;

    open spec fn view(&self) -> PreparedUsageEventView {
        PreparedUsageEventView {
            timestamp: self.timestamp@,
            timestamp_ms: self.timestamp_ms,
            event: self.event@,
        }
    }
}

/// What each event of a list holds.
pub open spec fn event_views(events: Seq<PreparedUsageEvent>) -> Seq<PreparedUsageEventView> {
    events.map_values(|event: PreparedUsageEvent| event@)
}

/// An event as it is stored. Its time in milliseconds may not be filled in yet.
#[derive(Clone, Debug)]
pub struct StoredUsageEvent {
    pub timestamp: String,
    pub timestamp_ms: Option<i64>,
    pub event: NewUsageEvent,
}

/// What a `StoredUsageEvent` holds.
#[verifier::ext_equal]
pub struct StoredUsageEventView {
    pub timestamp: Seq<char>,
    pub timestamp_ms: Option<i64>,
    pub event: NewUsageEventView,
}

impl View for StoredUsageEvent {
    type V = StoredUsageEventView;

    open spec fn view(&self) -> StoredUsageEventView {
        StoredUsageEventView {
            timestamp: self.timestamp@,
            timestamp_ms: self.timestamp_ms,
            event: self.event@,
        }
    }
}

/// What each stored event of a list holds.
pub open spec fn stored_views(events: Seq<StoredUsageEvent>) -> Seq<StoredUsageEventView> {
    events.map_values(|event: StoredUsageEvent| event@)
}

impl PreparedUsageEventView {
    /// The event once it is stored.
    pub open spec fn stored(self) -> StoredUsageEventView {
        StoredUsageEventView {
            timestamp: self.timestamp,
            timestamp_ms: Some(self.timestamp_ms),
            event: self.event,
        }
    }
}

/// A list of events once they are stored.
pub open spec fn once_stored(events: Seq<PreparedUsageEventView>) -> Seq<StoredUsageEventView> {
    events.map_values(|event: PreparedUsageEventView| event.stored())
}

/// A time of an event that cannot be read.
#[derive(Clone, Debug)]
pub struct InvalidEventTime {
    pub timestamp: String,
    pub reason: String,
}

impl InvalidEventTime {
    /// The error in words.
    pub fn message(&self) -> (message: String)
        ensures
            message@ == "Invalid usage event timestamp "@ + quoted(self.timestamp@) + ": "@
                + self.reason@,
    {
        let mut message = "Invalid usage event timestamp ".to_owned();
        message.append(quote_text(self.timestamp.as_str()).as_str());
        message.append(": ");
        message.append(self.reason.as_str());
        message
    }
}

/// The first of the first `end` times that cannot be read, with the reason.
pub open spec fn first_bad_time(timestamps: Seq<String>, end: int) -> Option<
    (Seq<char>, Seq<char>),
>
    decreases end,
{
    if end <= 0 {
        None
    } else {
        match first_bad_time(timestamps, end - 1) {
            Some(found) => Some(found),
            None => match epoch_millis(timestamps[end - 1]@) {
                Ok(_) => None,
                Err(reason) => Some((timestamps[end - 1]@, reason)),
            },
        }
    }
}

proof fn first_bad_time_stays(timestamps: Seq<String>, stop: int, end: int)
    requires
        stop <= end,
        first_bad_time(timestamps, stop) is Some,
    ensures
        first_bad_time(timestamps, end) == first_bad_time(timestamps, stop),
    decreases end - stop,
{
    if stop < end {
        first_bad_time_stays(timestamps, stop, end - 1);
        assert(end > 0);
    }
}

/// Reads the times of a batch. All of them are read before anything is stored: one bad time makes
/// the whole batch bad.
fn parse_event_times(timestamps: &Vec<String>) -> (result: Result<Vec<i64>, InvalidEventTime>)
    ensures
        match result {
            Ok(millis) => {
                &&& first_bad_time(timestamps@, timestamps.len() as int) is None
                &&& millis.len() == timestamps.len()
                &&& forall|index: int|
                    0 <= index < millis.len() ==> epoch_millis(timestamps[index]@) == Ok::<
                        i64,
                        Seq<char>,
                    >(#[trigger] millis[index])
            },
            Err(error) => first_bad_time(timestamps@, timestamps.len() as int) == Some(
                (error.timestamp@, error.reason@),
            ),
        },
{
    let mut millis: Vec<i64> = Vec::new();
    let mut index: usize = 0;
    while index < timestamps.len()
        invariant
            index <= timestamps.len(),
            first_bad_time(timestamps@, index as int) is None,
            millis.len() == index,
            forall|done: int|
                0 <= done < index ==> epoch_millis(timestamps[done]@) == Ok::<i64, Seq<char>>(
                    #[trigger] millis[done],
                ),
        decreases timestamps.len() - index,
    {
        match parse_epoch_millis(timestamps[index].as_str()) {
            Ok(value) => {
                millis.push(value);
            },
            Err(reason) => {
                let error = InvalidEventTime { timestamp: timestamps[index].clone(), reason };
                proof {
                    first_bad_time_stays(timestamps@, index + 1, timestamps.len() as int);
                }
                return Err(error);
            },
        }
        index = index + 1;
    }
    Ok(millis)
}

/// The event at a place, where there is one.
pub open spec fn event_at(events: Seq<Option<NewUsageEvent>>, index: int) -> Option<
    NewUsageEventView,
> {
    if 0 <= index < events.len() {
        match events[index] {
            Some(event) => Some(event@),
            None => None,
        }
    } else {
        None
    }
}

/// The events of the first `end` times, each with its time; a time without an event is passed
/// over.
pub open spec fn timed_events(
    timestamps: Seq<String>,
    millis: Seq<i64>,
    events: Seq<Option<NewUsageEvent>>,
    end: int,
) -> Seq<PreparedUsageEventView>
    decreases end,
{
    if end <= 0 {
        Seq::empty()
    } else {
        let earlier = timed_events(timestamps, millis, events, end - 1);
        match event_at(events, end - 1) {
            Some(event) => earlier.push(
                PreparedUsageEventView {
                    timestamp: timestamps[end - 1]@,
                    timestamp_ms: millis[end - 1],
                    event,
                },
            ),
            None => earlier,
        }
    }
}

impl NewUsageEvent {
    /// A copy of the event.
    fn copy(&self) -> (copy: NewUsageEvent)
        ensures
            copy@ == self@,
    {
        NewUsageEvent {
            session_id: self.session_id.clone(),
            model_id: self.model_id.clone(),
            input_tokens: self.input_tokens,
            cached_input_tokens: self.cached_input_tokens,
            output_tokens: self.output_tokens,
            reasoning_output_tokens: self.reasoning_output_tokens,
            total_tokens: self.total_tokens,
            value_key: self.value_key,
            fast_mode_auto: self.fast_mode_auto,
            fast_mode_effective: self.fast_mode_effective,
        }
    }
}

/// The events with their times, which are given in milliseconds too.
pub fn time_usage_events(
    timestamps: &Vec<String>,
    millis: &Vec<i64>,
    events: &Vec<Option<NewUsageEvent>>,
) -> (prepared: Vec<PreparedUsageEvent>)
    requires
        millis.len() == timestamps.len(),
    ensures
        event_views(prepared@) == timed_events(
            timestamps@,
            millis@,
            events@,
            timestamps.len() as int,
        ),
{
    let mut prepared: Vec<PreparedUsageEvent> = Vec::new();
    proof {
        assert(event_views(prepared@) =~= Seq::empty());
    }
    let mut index: usize = 0;
    while index < timestamps.len()
        invariant
            index <= timestamps.len(),
            millis.len() == timestamps.len(),
            event_views(prepared@) == timed_events(timestamps@, millis@, events@, index as int),
        decreases timestamps.len() - index,
    {
        let ghost before = prepared@;
        if index < events.len() {
            match &events[index] {
                Some(event) => {
                    let timed = PreparedUsageEvent {
                        timestamp: timestamps[index].clone(),
                        timestamp_ms: millis[index],
                        event: event.copy(),
                    };
                    prepared.push(timed);
                    proof {
                        assert(event_views(prepared@) =~= event_views(before).push(timed@));
                    }
                },
                None => {},
            }
        }
        index = index + 1;
    }
    prepared
}

/// The milliseconds that each of the times says.
pub open spec fn all_millis(timestamps: Seq<String>) -> Seq<i64> {
    timestamps.map_values(|timestamp: String| epoch_millis(timestamp@)->Ok_0)
}

/// The events with their times, or the first time that cannot be read. There are no events at
/// all where one time is bad.
pub fn prepare_usage_events(
    timestamps: &Vec<String>,
    events: &Vec<Option<NewUsageEvent>>,
) -> (result: Result<Vec<PreparedUsageEvent>, InvalidEventTime>)
    ensures
        match result {
            Ok(prepared) => first_bad_time(timestamps@, timestamps.len() as int) is None
                && event_views(prepared@) == timed_events(
                timestamps@,
                all_millis(timestamps@),
                events@,
                timestamps.len() as int,
            ),
            Err(error) => first_bad_time(timestamps@, timestamps.len() as int) == Some(
                (error.timestamp@, error.reason@),
            ),
        },
{
    match parse_event_times(timestamps) {
        Ok(millis) => {
            proof {
                assert(millis@ =~= all_millis(timestamps@));
            }
            Ok(time_usage_events(timestamps, &millis, events))
        },
        Err(error) => Err(error),
    }
}

/// The same events, as events of the session `session_id`.
pub open spec fn of_session(events: Seq<PreparedUsageEventView>, session_id: Seq<char>) -> Seq<
    PreparedUsageEventView,
> {
    events.map_values(
        |prepared: PreparedUsageEventView|
            PreparedUsageEventView {
                event: NewUsageEventView { session_id, ..prepared.event },
                ..prepared
            },
    )
}

/// Makes every event one of the session `session_id`.
pub fn assign_session(events: &mut Vec<PreparedUsageEvent>, session_id: &str)
    ensures
        event_views(final(events)@) == of_session(event_views(old(events)@), session_id@),
{
    let ghost before = events@;
    let mut index: usize = 0;
    while index < events.len()
        invariant
            index <= events.len(),
            events.len() == before.len(),
            forall|done: int|
                0 <= done < index ==> (#[trigger] events[done])@ == (PreparedUsageEventView {
                    event: NewUsageEventView { session_id: session_id@, ..before[done]@.event },
                    ..before[done]@
                }),
            forall|left: int| index <= left < before.len() ==> events[left] == before[left],
        decreases events.len() - index,
    {
        let mut event = events[index].event.copy();
        event.session_id = session_id.to_owned();
        let renamed = PreparedUsageEvent {
            timestamp: events[index].timestamp.clone(),
            timestamp_ms: events[index].timestamp_ms,
            event,
        };
        events.set(index, renamed);
        index = index + 1;
    }
    proof {
        assert(event_views(events@) =~= of_session(event_views(before), session_id@));
    }
}

/// Whether a stored event is a desired one. Its time must be filled in, and their prices must be
/// equal; a price without a key equals none.
pub open spec fn is_same_event(stored: StoredUsageEventView, desired: PreparedUsageEventView) ->
    bool {
    stored == desired.stored() && stored.event.value_key is Some
}

fn same_event(stored: &StoredUsageEvent, desired: &PreparedUsageEvent) -> (same: bool)
    ensures
        same == is_same_event(stored@, desired@),
{
    let left = &stored.event;
    let right = &desired.event;
    let same_value = match (left.value_key, right.value_key) {
        (Some(one), Some(other)) => one == other,
        _ => false,
    };
    let same_time = match stored.timestamp_ms {
        Some(millis) => millis == desired.timestamp_ms,
        None => false,
    };
    same_value && same_time && same_text(
        left.session_id.as_str(),
        right.session_id.as_str(),
    ) && same_text(stored.timestamp.as_str(), desired.timestamp.as_str()) && same_text(
        left.model_id.as_str(),
        right.model_id.as_str(),
    ) && left.input_tokens == right.input_tokens && left.cached_input_tokens
        == right.cached_input_tokens && left.output_tokens == right.output_tokens
        && left.reasoning_output_tokens == right.reasoning_output_tokens && left.total_tokens
        == right.total_tokens && left.fast_mode_auto == right.fast_mode_auto
        && left.fast_mode_effective == right.fast_mode_effective
}

/// How many events at the start of two lists are the same, from `index` on.
pub open spec fn shared_prefix(
    stored: Seq<StoredUsageEventView>,
    desired: Seq<PreparedUsageEventView>,
    index: int,
) -> int
    decreases stored.len() - index,
{
    if 0 <= index < stored.len() && index < desired.len() && is_same_event(
        stored[index],
        desired[index],
    ) {
        shared_prefix(stored, desired, index + 1)
    } else {
        index
    }
}

/// How the stored events of a session become the desired ones.
#[derive(Clone, Copy, Debug, PartialEq, Eq, Structural)]
pub struct UsageReplacePlan {
    /// Whether all stored events must be deleted first.
    pub rebuild: bool,
    /// The first of the desired events that must be inserted.
    pub insert_from: usize,
}

impl UsageReplacePlan {
    /// What is stored once the plan is carried out.
    pub open spec fn applied(
        self,
        stored: Seq<StoredUsageEventView>,
        desired: Seq<PreparedUsageEventView>,
    ) -> Seq<StoredUsageEventView> {
        let kept = if self.rebuild {
            Seq::empty()
        } else {
            stored
        };
        kept + once_stored(desired.skip(self.insert_from as int))
    }
}

/// How the stored events of a session become the desired ones: where all stored events are the
/// first of the desired ones, by adding the rest, and otherwise all anew.
pub fn plan_usage_replace(
    stored: &Vec<StoredUsageEvent>,
    desired: &Vec<PreparedUsageEvent>,
) -> (plan: UsageReplacePlan)
    ensures
        ({
            let shared = shared_prefix(stored_views(stored@), event_views(desired@), 0);
            &&& plan.rebuild == (shared != stored.len())
            &&& plan.insert_from == if plan.rebuild {
                0
            } else {
                shared
            }
            &&& plan.insert_from <= desired.len()
        }),
{
    let ghost left = stored_views(stored@);
    let ghost right = event_views(desired@);
    let mut index: usize = 0;
    while index < stored.len() && index < desired.len() && same_event(
        &stored[index],
        &desired[index],
    )
        invariant
            index <= stored.len(),
            index <= desired.len(),
            left == stored_views(stored@),
            right == event_views(desired@),
            shared_prefix(left, right, 0) == shared_prefix(left, right, index as int),
        decreases stored.len() - index,
    {
        proof {
            assert(left[index as int] == stored[index as int]@);
            assert(right[index as int] == desired[index as int]@);
        }
        index = index + 1;
    }
    proof {
        if index < stored.len() && index < desired.len() {
            assert(left[index as int] == stored[index as int]@);
            assert(right[index as int] == desired[index as int]@);
        }
    }
    if index == stored.len() {
        UsageReplacePlan { rebuild: false, insert_from: index }
    } else {
        UsageReplacePlan { rebuild: true, insert_from: 0 }
    }
}

/// What a write of usage events did.
#[derive(Clone, Copy, Debug, PartialEq, Eq, Structural)]
pub struct UsageEventWriteStats {
    pub observed: usize,
    pub inserted: usize,
    pub deleted: usize,
    pub rebuilt: bool,
}

impl Default for UsageEventWriteStats {
    fn default() -> (stats: Self)
        ensures
            stats == (UsageEventWriteStats {
                observed: 0,
                inserted: 0,
                deleted: 0,
                rebuilt: false,
            }),
    {
        UsageEventWriteStats { observed: 0, inserted: 0, deleted: 0, rebuilt: false }
    }
}

impl UsageReplacePlan {
    /// What carrying the plan out does to `observed` desired events, where `deleted` stored ones
    /// had to go.
    pub fn stats(&self, observed: usize, deleted: usize) -> (stats: UsageEventWriteStats)
        requires
            self.insert_from <= observed,
        ensures
            stats == (UsageEventWriteStats {
                observed,
                inserted: (observed - self.insert_from) as usize,
                deleted: if self.rebuild {
                    deleted
                } else {
                    0
                },
                rebuilt: self.rebuild,
            }),
    {
        UsageEventWriteStats {
            observed,
            inserted: observed - self.insert_from,
            deleted: if self.rebuild {
                deleted
            } else {
                0
            },
            rebuilt: self.rebuild,
        }
    }
}

proof fn shared_prefix_is_shared(
    stored: Seq<StoredUsageEventView>,
    desired: Seq<PreparedUsageEventView>,
    index: int,
)
    requires
        0 <= index <= stored.len(),
        index <= desired.len(),
    ensures
        index <= shared_prefix(stored, desired, index) <= stored.len(),
        shared_prefix(stored, desired, index) <= desired.len(),
        forall|place: int|
            index <= place < shared_prefix(stored, desired, index) ==> #[trigger] stored[place]
                == desired[place].stored(),
    decreases stored.len() - index,
{
    if index < stored.len() && index < desired.len() && is_same_event(
        stored[index],
        desired[index],
    ) {
        shared_prefix_is_shared(stored, desired, index + 1);
    }
}

/// Whatever was stored before, carrying the plan out leaves exactly the desired events.
pub proof fn replacing_stores_what_is_desired(
    plan: UsageReplacePlan,
    stored: Seq<StoredUsageEventView>,
    desired: Seq<PreparedUsageEventView>,
)
    requires
        plan.rebuild == (shared_prefix(stored, desired, 0) != stored.len()),
        plan.insert_from == if plan.rebuild {
            0
        } else {
            shared_prefix(stored, desired, 0)
        },
    ensures
        plan.applied(stored, desired) == once_stored(desired),
{
    shared_prefix_is_shared(stored, desired, 0);
    if plan.rebuild {
        assert(plan.applied(stored, desired) =~= once_stored(desired));
    } else {
        assert(plan.applied(stored, desired) =~= once_stored(desired)) by {
            assert forall|place: int| 0 <= place < desired.len() implies plan.applied(
                stored,
                desired,
            )[place] == (#[trigger] desired[place]).stored() by {
                if place < stored.len() {
                    assert(stored[place] == desired[place].stored());
                }
            }
        }
    }
}

/// Replacing stored events by themselves writes nothing, if each has a price that equals itself.
pub proof fn replacing_again_writes_nothing(events: Seq<PreparedUsageEventView>, index: int)
    requires
        0 <= index <= events.len(),
        forall|place: int|
            0 <= place < events.len() ==> (#[trigger] events[place]).event.value_key is Some,
    ensures
        shared_prefix(once_stored(events), events, index) == events.len(),
    decreases events.len() - index,
{
    if index < events.len() {
        assert(events[index].event.value_key is Some);
        replacing_again_writes_nothing(events, index + 1);
    }
}

/// The event that a planned usage gives.
pub open spec fn planned_event(
    session_id: Seq<char>,
    snapshots: Seq<UsageSnapshotView>,
    planned: PlannedUsage,
    value_key: Option<u64>,
    names: ModelNames,
) -> NewUsageEventView {
    NewUsageEventView {
        session_id,
        model_id: names.name_of(snapshots[planned.snapshot_index as int].model_id),
        input_tokens: planned.delta.input_tokens,
        cached_input_tokens: planned.delta.cached_input_tokens,
        output_tokens: planned.delta.output_tokens,
        reasoning_output_tokens: planned.delta.reasoning_output_tokens,
        total_tokens: planned.delta.total_tokens,
        value_key,
        fast_mode_auto: false,
        fast_mode_effective: false,
    }
}

/// The events that a usage plan gives, with the prices that stand for them, and their times.
pub fn planned_usage_events(
    session_id: &str,
    snapshots: &Vec<UsageSnapshot>,
    plan: &Vec<PlannedUsage>,
    value_keys: &Vec<Option<u64>>,
    names: &ModelNames,
) -> (result: (Vec<String>, Vec<Option<NewUsageEvent>>))
    requires
        value_keys.len() == plan.len(),
        forall|index: int|
            0 <= index < plan.len() ==> (#[trigger] plan[index]).snapshot_index < snapshots.len(),
    ensures
        result.0.len() == plan.len(),
        result.1.len() == plan.len(),
        forall|index: int|
            0 <= index < plan.len() ==> (#[trigger] result.0[index])@
                == snapshots[plan[index].snapshot_index as int].timestamp@,
        forall|index: int|
            0 <= index < plan.len() ==> #[trigger] event_at(result.1@, index) == Some(
                planned_event(
                    session_id@,
                    snapshot_views(snapshots@),
                    plan[index],
                    value_keys[index],
                    *names,
                ),
            ),
{
    let mut timestamps: Vec<String> = Vec::new();
    let mut events: Vec<Option<NewUsageEvent>> = Vec::new();
    let mut index: usize = 0;
    while index < plan.len()
        invariant
            index <= plan.len(),
            value_keys.len() == plan.len(),
            timestamps.len() == index,
            events.len() == index,
            forall|place: int|
                0 <= place < plan.len() ==> (#[trigger] plan[place]).snapshot_index
                    < snapshots.len(),
            forall|done: int|
                0 <= done < index ==> (#[trigger] timestamps[done])@
                    == snapshots[plan[done].snapshot_index as int].timestamp@,
            forall|done: int|
                0 <= done < index ==> #[trigger] event_at(events@, done) == Some(
                    planned_event(
                        session_id@,
                        snapshot_views(snapshots@),
                        plan[done],
                        value_keys[done],
                        *names,
                    ),
                ),
        decreases plan.len() - index,
    {
        let planned = plan[index];
        let snapshot = &snapshots[planned.snapshot_index];
        let ghost before = events@;
        timestamps.push(snapshot.timestamp.clone());
        events.push(
            Some(
                NewUsageEvent {
                    session_id: session_id.to_owned(),
                    model_id: names.canonical_name(snapshot.model_id.as_str()),
                    input_tokens: planned.delta.input_tokens,
                    cached_input_tokens: planned.delta.cached_input_tokens,
                    output_tokens: planned.delta.output_tokens,
                    reasoning_output_tokens: planned.delta.reasoning_output_tokens,
                    total_tokens: planned.delta.total_tokens,
                    value_key: value_keys[index],
                    fast_mode_auto: false,
                    fast_mode_effective: false,
                },
            ),
        );
        proof {
            assert forall|done: int| 0 <= done < index + 1 implies #[trigger] event_at(
                events@,
                done,
            ) == Some(
                planned_event(
                    session_id@,
                    snapshot_views(snapshots@),
                    plan[done],
                    value_keys[done],
                    *names,
                ),
            ) by {
                if done < index {
                    assert(event_at(before, done) == event_at(events@, done));
                }
            }
        }
        index = index + 1;
    }
    (timestamps, events)
}

} // verus!
