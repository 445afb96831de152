//! What is billed, count by count: each event is the growth over the last reading that counted,
//! and the events of a log add up to the growth of the whole.

use crate::models::{TokenUsage, UsageSnapshotView};
use crate::usage::{
    advances, billed, high_water, high_water_is_largest, planned_events, usage_plan, usages,
    ParsedSessionMode, PlannedUsage,
};
use vstd::prelude::*;

verus! {

/// One of the counts of a usage.
pub enum Count {
    Input,
    CachedInput,
    Output,
    ReasoningOutput,
    Total,
}

/// What a usage says of a count.
pub open spec fn counted(usage: TokenUsage, count: Count) -> int {
    match count {
        Count::Input => usage.input_tokens as int,
        Count::CachedInput => usage.cached_input_tokens as int,
        Count::Output => usage.output_tokens as int,
        Count::ReasoningOutput => usage.reasoning_output_tokens as int,
        Count::Total => usage.total_tokens as int,
    }
}

/// Whether the reading at a place counts: its total exceeds that of the base, where there is one,
/// and that of every reading before it.
pub open spec fn counts_at(
    snapshots: Seq<UsageSnapshotView>,
    start: int,
    base: Option<TokenUsage>,
    place: int,
) -> bool {
    &&& start <= place < snapshots.len()
    &&& base is Some ==> snapshots[place].usage.total_tokens > base->0.total_tokens
    &&& forall|earlier: int|
        start <= earlier < place ==> (#[trigger] snapshots[earlier]).usage.total_tokens
            < snapshots[place].usage.total_tokens
}

/// Whether no reading before a place counts.
pub open spec fn none_counts_before(
    snapshots: Seq<UsageSnapshotView>,
    start: int,
    base: Option<TokenUsage>,
    place: int,
) -> bool {
    forall|earlier: int|
        start <= earlier < place ==> !#[trigger] counts_at(snapshots, start, base, earlier)
}

/// Whether `before` is the last place before `place` whose reading counts.
pub open spec fn is_last_counting(
    snapshots: Seq<UsageSnapshotView>,
    start: int,
    base: Option<TokenUsage>,
    before: int,
    place: int,
) -> bool {
    &&& before < place
    &&& counts_at(snapshots, start, base, before)
    &&& forall|between: int|
        before < between < place ==> !#[trigger] counts_at(snapshots, start, base, between)
}

/// Whether a count grew by `grown`: never below zero, and never above what an `i64` can say.
pub open spec fn grew_by(grown: int, from: int, to: int) -> bool {
    &&& to <= from ==> grown == 0
    &&& from < to && to - from <= i64::MAX ==> grown == to - from
    &&& to - from > i64::MAX ==> grown == i64::MAX
}

/// Whether every count grew from one usage to the next by what `delta` says. The total is only
/// spoken of where its growth fits.
pub open spec fn is_growth(delta: TokenUsage, from: TokenUsage, to: TokenUsage) -> bool {
    &&& grew_by(delta.input_tokens as int, from.input_tokens as int, to.input_tokens as int)
    &&& grew_by(
        delta.cached_input_tokens as int,
        from.cached_input_tokens as int,
        to.cached_input_tokens as int,
    )
    &&& grew_by(delta.output_tokens as int, from.output_tokens as int, to.output_tokens as int)
    &&& grew_by(
        delta.reasoning_output_tokens as int,
        from.reasoning_output_tokens as int,
        to.reasoning_output_tokens as int,
    )
    &&& to.total_tokens - from.total_tokens <= i64::MAX ==> delta.total_tokens == to.total_tokens
        - from.total_tokens
    &&& delta.total_tokens != 0
}

/// Whether a usage is what the first reading of all is billed: its own counts, or in a fork those
/// of its last turn, where it says that.
pub open spec fn is_first_bill(
    delta: TokenUsage,
    snapshot: UsageSnapshotView,
    forked: bool,
) -> bool {
    if forked && snapshot.last_token_usage is Some {
        delta == snapshot.last_token_usage->0
    } else {
        delta == snapshot.usage
    }
}

/// Whether a usage is what the counting reading at a place is billed.
pub open spec fn is_bill(
    delta: TokenUsage,
    snapshots: Seq<UsageSnapshotView>,
    start: int,
    base: Option<TokenUsage>,
    forked: bool,
    place: int,
) -> bool {
    &&& forall|before: int| #[trigger]
        is_last_counting(snapshots, start, base, before, place) ==> is_growth(
            delta,
            snapshots[before].usage,
            snapshots[place].usage,
        )
    &&& none_counts_before(snapshots, start, base, place) ==> match base {
        Some(usage) => is_growth(delta, usage, snapshots[place].usage),
        None => is_first_bill(delta, snapshots[place], forked),
    }
}

/// Whether every count of a usage is zero.
pub open spec fn says_nothing(usage: TokenUsage) -> bool {
    forall|count: Count| #[trigger] counted(usage, count) == 0
}

/// Whether an event of a list is of the reading at a place.
pub open spec fn has_event_at(events: Seq<PlannedUsage>, place: int) -> bool {
    exists|index: int|
        0 <= index < events.len() && (#[trigger] events[index]).snapshot_index == place
}

/// Whether `events` bill the readings from `start` up to `end`: each event is the bill of a
/// counting reading, in the order of the readings, and a counting reading has no event only where
/// its bill would say nothing.
pub open spec fn bills_readings(
    events: Seq<PlannedUsage>,
    snapshots: Seq<UsageSnapshotView>,
    start: int,
    end: int,
    base: Option<TokenUsage>,
    forked: bool,
) -> bool {
    &&& forall|index: int| #![trigger events[index]]
        0 <= index < events.len() ==> {
            &&& start <= events[index].snapshot_index < end
            &&& counts_at(snapshots, start, base, events[index].snapshot_index as int)
            &&& is_bill(
                events[index].delta,
                snapshots,
                start,
                base,
                forked,
                events[index].snapshot_index as int,
            )
            &&& !says_nothing(events[index].delta)
        }
    &&& forall|left: int, right: int|
        0 <= left < right < events.len() ==> (#[trigger] events[left]).snapshot_index < (
        #[trigger] events[right]).snapshot_index
    &&& forall|place: int|
        start <= place < end && #[trigger] counts_at(snapshots, start, base, place)
            && !has_event_at(events, place) ==> none_counts_before(snapshots, start, base, place)
            && base is None && exists|bill: TokenUsage| #[trigger]
            is_first_bill(bill, snapshots[place], forked) && says_nothing(bill)
}

pub(crate) proof fn high_water_is_that_of_counting(
    snapshots: Seq<UsageSnapshotView>,
    start: int,
    end: int,
    base: Option<TokenUsage>,
)
    requires
        0 <= start <= end <= snapshots.len(),
    ensures
        forall|before: int| #[trigger]
            is_last_counting(snapshots, start, base, before, end) ==> high_water(
                base,
                usages(snapshots.subrange(start, end)),
            ) == Some(snapshots[before].usage),
        none_counts_before(snapshots, start, base, end) ==> high_water(
            base,
            usages(snapshots.subrange(start, end)),
        ) == base,
        none_counts_before(snapshots, start, base, end) || exists|before: int| #[trigger]
            is_last_counting(snapshots, start, base, before, end),
        end < snapshots.len() ==> (advances(
            high_water(base, usages(snapshots.subrange(start, end))),
            snapshots[end].usage,
        ) <==> counts_at(snapshots, start, base, end)),
    decreases end - start,
{
    let readings = usages(snapshots.subrange(start, end));
    let high = high_water(base, readings);
    high_water_is_largest(base, readings);
    assert forall|place: int| start <= place < end implies (
    #[trigger] snapshots[place]).usage.total_tokens <= high->0.total_tokens && high is Some by {
        assert(readings[place - start] == snapshots[place].usage);
    }
    if end < snapshots.len() && high is Some && high != base {
        let place = choose|place: int| 0 <= place < readings.len() && readings[place] == high->0;
        assert(snapshots[start + place].usage == high->0);
    }
    if start < end {
        high_water_is_that_of_counting(snapshots, start, end - 1, base);
        assert(readings.drop_last() =~= usages(snapshots.subrange(start, end - 1)));
        assert(readings.last() == snapshots[end - 1].usage);
        if counts_at(snapshots, start, base, end - 1) {
            assert(is_last_counting(snapshots, start, base, end - 1, end));
            assert forall|before: int| #[trigger]
                is_last_counting(snapshots, start, base, before, end) implies before == end - 1 by {
                if before < end - 1 {
                    assert(!counts_at(snapshots, start, base, end - 1));
                }
            }
        } else {
            assert forall|before: int| #[trigger]
                is_last_counting(snapshots, start, base, before, end) implies is_last_counting(
                snapshots,
                start,
                base,
                before,
                end - 1,
            ) by {}
            if none_counts_before(snapshots, start, base, end - 1) {
                assert(none_counts_before(snapshots, start, base, end));
            } else {
                let before = choose|before: int| #[trigger]
                    is_last_counting(snapshots, start, base, before, end - 1);
                assert(is_last_counting(snapshots, start, base, before, end));
            }
            if none_counts_before(snapshots, start, base, end) {
                assert(none_counts_before(snapshots, start, base, end - 1));
            }
        }
    } else {
        assert(readings =~= Seq::empty());
    }
}

proof fn zero_says_nothing(usage: TokenUsage)
    ensures
        says_nothing(usage) <==> usage == TokenUsage::zero(),
{
    if says_nothing(usage) {
        assert(counted(usage, Count::Input) == 0);
        assert(counted(usage, Count::CachedInput) == 0);
        assert(counted(usage, Count::Output) == 0);
        assert(counted(usage, Count::ReasoningOutput) == 0);
        assert(counted(usage, Count::Total) == 0);
    }
}

proof fn planned_events_bill_readings(
    snapshots: Seq<UsageSnapshotView>,
    start: int,
    end: int,
    base: Option<TokenUsage>,
    forked: bool,
)
    requires
        0 <= start <= end <= snapshots.len() <= usize::MAX,
    ensures
        bills_readings(
            planned_events(snapshots, start, end, base, forked),
            snapshots,
            start,
            end,
            base,
            forked,
        ),
    decreases end - start,
{
    if start < end {
        let place = end - 1;
        planned_events_bill_readings(snapshots, start, place, base, forked);
        high_water_is_that_of_counting(snapshots, start, place, base);
        let earlier = planned_events(snapshots, start, place, base, forked);
        let events = planned_events(snapshots, start, end, base, forked);
        let previous = high_water(base, usages(snapshots.subrange(start, place)));
        let snapshot = snapshots[place];
        let delta = billed(
            previous,
            forked,
            snapshot.usage,
            snapshot.last_token_usage,
        );
        zero_says_nothing(delta);
        assert(is_first_bill(
            if forked && snapshot.last_token_usage is Some {
                snapshot.last_token_usage->0
            } else {
                snapshot.usage
            },
            snapshot,
            forked,
        ));
        if counts_at(snapshots, start, base, place) {
            assert(is_bill(delta, snapshots, start, base, forked, place));
            if events != earlier {
                assert(events == earlier.push(events.last()));
                assert(events[earlier.len() as int].snapshot_index == place);
                assert(has_event_at(events, place));
            }
        }
        assert forall|index: int| 0 <= index < earlier.len() implies #[trigger] events[index]
            == earlier[index] by {}
        assert forall|other: int|
            start <= other < end && #[trigger] counts_at(snapshots, start, base, other)
                && !has_event_at(events, other) implies none_counts_before(
            snapshots,
            start,
            base,
            other,
        ) && base is None && exists|bill: TokenUsage| #[trigger]
            is_first_bill(bill, snapshots[other], forked) && says_nothing(bill) by {
            if other < place {
                if has_event_at(earlier, other) {
                    let index = choose|index: int|
                        0 <= index < earlier.len() && (#[trigger] earlier[index]).snapshot_index
                            == other;
                    assert(events[index].snapshot_index == other);
                }
            }
        }
    }
}

/// A full import bills what was not inherited, reading by reading: each event is the growth of
/// every count over the last reading that counted, the inherited ones among them. Without any
/// inherited reading the first is billed whole, or in a fork by its last turn.
pub proof fn full_import_bills_growth(
    snapshots: Seq<UsageSnapshotView>,
    cutoff: int,
    forked: bool,
)
    requires
        0 <= cutoff,
        snapshots.len() <= usize::MAX,
    ensures
        cutoff <= snapshots.len() ==> bills_readings(
            usage_plan(ParsedSessionMode::Full, snapshots, cutoff, forked),
            snapshots,
            cutoff,
            snapshots.len() as int,
            if cutoff > 0 {
                Some(snapshots[cutoff - 1].usage)
            } else {
                None
            },
            forked,
        ),
        cutoff >= snapshots.len() ==> usage_plan(
            ParsedSessionMode::Full,
            snapshots,
            cutoff,
            forked,
        ).len() == 0,
{
    if cutoff <= snapshots.len() {
        let base = if cutoff > 0 {
            Some(snapshots[cutoff - 1].usage)
        } else {
            None
        };
        planned_events_bill_readings(snapshots, cutoff, snapshots.len() as int, base, forked);
    }
}

/// An import of what was appended bills all of it, reading by reading: each event is the growth of
/// every count over the last reading that counted, or over the high water at which the import
/// before it stopped.
pub proof fn tail_import_bills_growth(
    snapshots: Seq<UsageSnapshotView>,
    previous_usage: Option<TokenUsage>,
    cutoff: int,
    forked: bool,
)
    requires
        snapshots.len() <= usize::MAX,
    ensures
        bills_readings(
            usage_plan(ParsedSessionMode::Tail { previous_usage }, snapshots, cutoff, forked),
            snapshots,
            0,
            snapshots.len() as int,
            previous_usage,
            forked,
        ),
{
    planned_events_bill_readings(snapshots, 0, snapshots.len() as int, previous_usage, forked);
}

/// What a list of events bills of a count.
pub open spec fn billed_count(events: Seq<PlannedUsage>, count: Count) -> int
    decreases events.len(),
{
    if events.len() == 0 {
        0
    } else {
        billed_count(events.drop_last(), count) + counted(events.last().delta, count)
    }
}

/// What an optional usage says of a count, zero where there is none.
pub open spec fn opt_counted(usage: Option<TokenUsage>, count: Count) -> int {
    match usage {
        Some(found) => counted(found, count),
        None => 0,
    }
}

/// Whether a count never falls from one counting reading to a later one, nor from the base to one,
/// and never grows by more than an `i64` can say.
pub open spec fn never_falls(
    snapshots: Seq<UsageSnapshotView>,
    start: int,
    base: Option<TokenUsage>,
    count: Count,
) -> bool {
    &&& forall|earlier: int, later: int|
        start <= earlier < later && #[trigger] counts_at(snapshots, start, base, earlier)
            && #[trigger] counts_at(snapshots, start, base, later) ==> 0 <= counted(
            snapshots[later].usage,
            count,
        ) - counted(snapshots[earlier].usage, count) <= i64::MAX
    &&& base is Some ==> forall|place: int| #[trigger]
        counts_at(snapshots, start, base, place) ==> 0 <= counted(snapshots[place].usage, count)
            - counted(base->0, count) <= i64::MAX
}

proof fn planned_events_add_up(
    snapshots: Seq<UsageSnapshotView>,
    start: int,
    end: int,
    base: Option<TokenUsage>,
    forked: bool,
    count: Count,
)
    requires
        0 <= start <= end <= snapshots.len(),
        never_falls(snapshots, start, base, count),
        forked ==> base is Some,
    ensures
        billed_count(planned_events(snapshots, start, end, base, forked), count) == opt_counted(
            high_water(base, usages(snapshots.subrange(start, end))),
            count,
        ) - opt_counted(base, count),
    decreases end - start,
{
    if start < end {
        let place = end - 1;
        planned_events_add_up(snapshots, start, place, base, forked, count);
        high_water_is_that_of_counting(snapshots, start, place, base);
        let before = usages(snapshots.subrange(start, place));
        let after = usages(snapshots.subrange(start, end));
        assert(after.drop_last() =~= before);
        assert(after.last() == snapshots[place].usage);
        let earlier = planned_events(snapshots, start, place, base, forked);
        let events = planned_events(snapshots, start, end, base, forked);
        if events != earlier {
            assert(events.drop_last() =~= earlier);
        }
        let previous = high_water(base, before);
        if counts_at(snapshots, start, base, place) && !none_counts_before(
            snapshots,
            start,
            base,
            place,
        ) {
            let last = choose|last: int| #[trigger]
                is_last_counting(snapshots, start, base, last, place);
            assert(previous == Some(snapshots[last].usage));
        }
    } else {
        assert(usages(snapshots.subrange(start, end)) =~= Seq::empty());
    }
}

/// Nothing of any count is lost and nothing is billed twice: where a count never falls, what a full
/// import bills of it is what the last counting reading says beyond the last inherited one. The
/// first reading of a fork that inherited nothing is left out: it is billed by its last turn.
pub proof fn full_import_adds_up(
    snapshots: Seq<UsageSnapshotView>,
    cutoff: int,
    forked: bool,
    count: Count,
    base: Option<TokenUsage>,
    last: int,
)
    requires
        0 <= cutoff <= snapshots.len(),
        base == if cutoff > 0 {
            Some(snapshots[cutoff - 1].usage)
        } else {
            None
        },
        forked ==> cutoff > 0,
        never_falls(snapshots, cutoff, base, count),
        is_last_counting(snapshots, cutoff, base, last, snapshots.len() as int),
    ensures
        billed_count(usage_plan(ParsedSessionMode::Full, snapshots, cutoff, forked), count)
            == counted(snapshots[last].usage, count) - opt_counted(base, count),
{
    let end = snapshots.len() as int;
    planned_events_add_up(snapshots, cutoff, end, base, forked, count);
    high_water_is_that_of_counting(snapshots, cutoff, end, base);
}

/// What an import of appended readings bills of a count that never falls is what the last counting
/// reading says beyond the high water at which the import before it stopped.
pub proof fn tail_import_adds_up(
    snapshots: Seq<UsageSnapshotView>,
    previous_usage: Option<TokenUsage>,
    cutoff: int,
    forked: bool,
    count: Count,
    last: int,
)
    requires
        forked ==> previous_usage is Some,
        never_falls(snapshots, 0, previous_usage, count),
        is_last_counting(snapshots, 0, previous_usage, last, snapshots.len() as int),
    ensures
        billed_count(
            usage_plan(ParsedSessionMode::Tail { previous_usage }, snapshots, cutoff, forked),
            count,
        ) == counted(snapshots[last].usage, count) - opt_counted(previous_usage, count),
{
    let end = snapshots.len() as int;
    planned_events_add_up(snapshots, 0, end, previous_usage, forked, count);
    high_water_is_that_of_counting(snapshots, 0, end, previous_usage);
}

/// The high water is the first of the readings with the largest total, where that exceeds the
/// start; where no total does, the start stays.
pub proof fn high_water_is_first_largest(
    start: Option<TokenUsage>,
    readings: Seq<TokenUsage>,
    place: int,
)
    requires
        0 <= place < readings.len(),
        forall|earlier: int|
            0 <= earlier < place ==> (#[trigger] readings[earlier]).total_tokens
                < readings[place].total_tokens,
        forall|later: int|
            place <= later < readings.len() ==> (#[trigger] readings[later]).total_tokens
                <= readings[place].total_tokens,
    ensures
        high_water(start, readings) == if start is Some && start->0.total_tokens
            >= readings[place].total_tokens {
            start
        } else {
            Some(readings[place])
        },
    decreases readings.len(),
{
    let shorter = readings.drop_last();
    if place < readings.len() - 1 {
        assert forall|earlier: int| 0 <= earlier < place implies (
        #[trigger] shorter[earlier]).total_tokens < shorter[place].total_tokens by {
            assert(shorter[earlier] == readings[earlier]);
        }
        assert forall|later: int| place <= later < shorter.len() implies (
        #[trigger] shorter[later]).total_tokens <= shorter[place].total_tokens by {
            assert(shorter[later] == readings[later]);
        }
        high_water_is_first_largest(start, shorter, place);
    } else {
        high_water_is_largest(start, shorter);
        if high_water(start, shorter) != start {
            let other = choose|other: int|
                0 <= other < shorter.len() && shorter[other] == high_water(start, shorter)->0;
            assert(readings[other] == shorter[other]);
        } else if start is None && shorter.len() > 0 {
            assert(shorter[0] == readings[0]);
        }
    }
}

} // verus!
