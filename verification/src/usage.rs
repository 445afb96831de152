//! From cumulative usage readings to billable usage events.
//!
//! A session log holds cumulative totals. A reading counts only where its total exceeds every
//! total before it, and then only by the growth over the last reading that counted.

use crate::models::{snapshot_views, TokenUsage, UsageSnapshot, UsageSnapshotView};
use vstd::prelude::*;

verus! {

/// The growth of one count, never negative and never above `i64::MAX`.
pub open spec fn growth(current: int, previous: int) -> int {
    if current <= previous {
        0
    } else if current - previous > i64::MAX {
        i64::MAX as int
    } else {
        current - previous
    }
}

/// The growth from one cumulative usage to the next; zero where the total did not grow.
pub open spec fn usage_growth(previous: TokenUsage, current: TokenUsage) -> TokenUsage {
    if current.total_tokens <= previous.total_tokens {
        TokenUsage::zero()
    } else {
        TokenUsage {
            input_tokens: growth(current.input_tokens as int, previous.input_tokens as int) as i64,
            cached_input_tokens: growth(
                current.cached_input_tokens as int,
                previous.cached_input_tokens as int,
            ) as i64,
            output_tokens: growth(
                current.output_tokens as int,
                previous.output_tokens as int,
            ) as i64,
            reasoning_output_tokens: growth(
                current.reasoning_output_tokens as int,
                previous.reasoning_output_tokens as int,
            ) as i64,
            total_tokens: current.total_tokens.wrapping_sub(previous.total_tokens),
        }
    }
}

/// The growth of one count.
pub fn non_negative_delta(current: i64, previous: i64) -> (delta: i64)
    ensures
        delta == growth(current as int, previous as int),
{
    if current <= previous {
        0
    } else if previous < 0 && current > i64::MAX + previous {
        i64::MAX
    } else {
        current - previous
    }
}

/// The growth from `previous` to `current`. The difference of the totals wraps around where it
/// does not fit.
pub fn diff_usage(previous: &TokenUsage, current: &TokenUsage) -> (delta: TokenUsage)
    ensures
        delta == usage_growth(*previous, *current),
{
    if current.total_tokens <= previous.total_tokens {
        return TokenUsage::default();
    }
    TokenUsage {
        input_tokens: non_negative_delta(current.input_tokens, previous.input_tokens),
        cached_input_tokens: non_negative_delta(
            current.cached_input_tokens,
            previous.cached_input_tokens,
        ),
        output_tokens: non_negative_delta(current.output_tokens, previous.output_tokens),
        reasoning_output_tokens: non_negative_delta(
            current.reasoning_output_tokens,
            previous.reasoning_output_tokens,
        ),
        total_tokens: current.total_tokens.wrapping_sub(previous.total_tokens),
    }
}

/// Whether every count is zero.
pub fn is_zero_delta(delta: &TokenUsage) -> (zero: bool)
    ensures
        zero == (*delta == TokenUsage::zero()),
{
    delta.total_tokens == 0 && delta.input_tokens == 0 && delta.cached_input_tokens == 0
        && delta.output_tokens == 0 && delta.reasoning_output_tokens == 0
}

/// The cumulative usages of a list of snapshots.
pub open spec fn usages(snapshots: Seq<UsageSnapshotView>) -> Seq<TokenUsage> {
    snapshots.map_values(|snapshot: UsageSnapshotView| snapshot.usage)
}

/// Whether a reading with this usage counts after the high water `previous`.
pub open spec fn advances(previous: Option<TokenUsage>, usage: TokenUsage) -> bool {
    match previous {
        Some(high) => usage.total_tokens > high.total_tokens,
        None => true,
    }
}

/// The high water after one more reading.
pub open spec fn raise(previous: Option<TokenUsage>, usage: TokenUsage) -> Option<TokenUsage> {
    if advances(previous, usage) {
        Some(usage)
    } else {
        previous
    }
}

/// The high water after all of `readings`, from `start`.
pub open spec fn high_water(start: Option<TokenUsage>, readings: Seq<TokenUsage>) -> Option<
    TokenUsage,
>
    decreases readings.len(),
{
    if readings.len() == 0 {
        start
    } else {
        raise(high_water(start, readings.drop_last()), readings.last())
    }
}

/// The usage of the reading with the largest total, the earliest of them where several have it;
/// `high_water` itself where no total exceeds it.
pub fn monotonic_usage_high_water(
    high_water: Option<TokenUsage>,
    snapshots: &Vec<UsageSnapshot>,
) -> (result: Option<TokenUsage>)
    ensures
        result == self::high_water(high_water, usages(snapshot_views(snapshots@))),
{
    let ghost shown = snapshot_views(snapshots@);
    let mut highest: Option<TokenUsage> = high_water;
    let mut index: usize = 0;
    while index < snapshots.len()
        invariant
            index <= snapshots.len(),
            shown == snapshot_views(snapshots@),
            highest == self::high_water(high_water, usages(shown.take(index as int))),
        decreases snapshots.len() - index,
    {
        let usage = snapshots[index].usage;
        proof {
            let next = usages(shown.take(index + 1));
            assert(next.drop_last() =~= usages(shown.take(index as int)));
            assert(next.last() == usage);
        }
        let counts = match highest {
            Some(previous) => usage.total_tokens > previous.total_tokens,
            None => true,
        };
        if counts {
            highest = Some(usage);
        }
        index = index + 1;
    }
    proof {
        assert(shown.take(index as int) =~= shown);
    }
    highest
}

/// One usage event: the snapshot that gave it, by its place in the log, and its usage.
#[derive(Clone, Copy, Debug, PartialEq, Eq, Structural)]
pub struct PlannedUsage {
    pub snapshot_index: usize,
    pub delta: TokenUsage,
}

/// What a counting reading is billed: its growth over the last one that counted. The first of
/// all is billed whole, or by its own last turn in a session forked from another.
pub open spec fn billed(
    previous: Option<TokenUsage>,
    forked: bool,
    usage: TokenUsage,
    last_turn: Option<TokenUsage>,
) -> TokenUsage {
    match previous {
        Some(high) => usage_growth(high, usage),
        None => match last_turn {
            Some(turn) if forked => turn,
            _ => usage,
        },
    }
}

/// The events of `snapshots[cutoff..end]`, where `start` is the usage that the last counting
/// reading before them had.
pub open spec fn planned_events(
    snapshots: Seq<UsageSnapshotView>,
    cutoff: int,
    end: int,
    start: Option<TokenUsage>,
    forked: bool,
) -> Seq<PlannedUsage>
    decreases end - cutoff,
{
    if end <= cutoff {
        Seq::empty()
    } else {
        let earlier = planned_events(snapshots, cutoff, end - 1, start, forked);
        let previous = high_water(start, usages(snapshots.subrange(cutoff, end - 1)));
        let snapshot = snapshots[end - 1];
        let delta = billed(previous, forked, snapshot.usage, snapshot.last_token_usage);
        if advances(previous, snapshot.usage) && delta != TokenUsage::zero() {
            earlier.push(PlannedUsage { snapshot_index: (end - 1) as usize, delta })
        } else {
            earlier
        }
    }
}

/// The usage that a full import of a log counts on from, where the first `cutoff` snapshots were
/// inherited: that of the last inherited one.
pub open spec fn inherited_usage(snapshots: Seq<UsageSnapshotView>, cutoff: int) -> Option<
    TokenUsage,
> {
    if 0 < cutoff <= snapshots.len() {
        Some(snapshots[cutoff - 1].usage)
    } else {
        None
    }
}

/// How a parsed log continues what is already stored.
#[derive(Clone, Copy, Debug, PartialEq, Eq, Structural)]
pub enum ParsedSessionMode {
    /// The whole log was read: what is stored is replaced.
    Full,
    /// Only what was appended since the last import was read.
    Tail {
        /// The high water at which the last import stopped.
        previous_usage: Option<TokenUsage>,
    },
}

/// The snapshot from which a parsed log is billed.
pub open spec fn billing_start(mode: ParsedSessionMode, cutoff: int) -> int {
    match mode {
        ParsedSessionMode::Full => cutoff,
        ParsedSessionMode::Tail { .. } => 0,
    }
}

/// The usage from which a parsed log is billed.
pub open spec fn billing_base(
    mode: ParsedSessionMode,
    snapshots: Seq<UsageSnapshotView>,
    cutoff: int,
) -> Option<TokenUsage> {
    match mode {
        ParsedSessionMode::Full => inherited_usage(snapshots, cutoff),
        ParsedSessionMode::Tail { previous_usage } => previous_usage,
    }
}

/// The usage events of a parsed log.
pub open spec fn usage_plan(
    mode: ParsedSessionMode,
    snapshots: Seq<UsageSnapshotView>,
    cutoff: int,
    forked: bool,
) -> Seq<PlannedUsage> {
    planned_events(
        snapshots,
        billing_start(mode, cutoff),
        snapshots.len() as int,
        billing_base(mode, snapshots, cutoff),
        forked,
    )
}

/// The usage events of a parsed log: for each counting snapshot after the inherited ones its
/// growth, without those in which nothing grew.
pub fn usage_event_plan(
    mode: &ParsedSessionMode,
    snapshots: &Vec<UsageSnapshot>,
    inherited_token_snapshot_cutoff: usize,
    forked: bool,
) -> (plan: Vec<PlannedUsage>)
    ensures
        plan@ == usage_plan(
            *mode,
            snapshot_views(snapshots@),
            inherited_token_snapshot_cutoff as int,
            forked,
        ),
        forall|index: int|
            0 <= index < plan.len() ==> (#[trigger] plan[index]).snapshot_index < snapshots.len(),
{
    let ghost shown = snapshot_views(snapshots@);
    let mut index: usize = 0;
    let mut previous: Option<TokenUsage> = None;
    match mode {
        ParsedSessionMode::Full => {
            index = inherited_token_snapshot_cutoff;
            if 0 < index && index <= snapshots.len() {
                previous = Some(snapshots[index - 1].usage);
            }
        },
        ParsedSessionMode::Tail { previous_usage } => {
            previous = *previous_usage;
        },
    }
    let ghost start = index as int;
    let ghost base = previous;
    let mut plan: Vec<PlannedUsage> = Vec::new();
    proof {
        if start <= snapshots.len() {
            assert(high_water(base, usages(shown.subrange(start, start))) == base);
        }
    }
    while index < snapshots.len()
        invariant
            start <= index,
            shown == snapshot_views(snapshots@),
            index <= snapshots.len() || index == start,
            start == billing_start(*mode, inherited_token_snapshot_cutoff as int),
            index <= snapshots.len() ==> previous == high_water(
                base,
                usages(shown.subrange(start, index as int)),
            ),
            plan@ == planned_events(shown, start, index as int, base, forked),
        decreases snapshots.len() - index,
    {
        let snapshot = &snapshots[index];
        proof {
            let next = usages(shown.subrange(start, index + 1));
            assert(next.drop_last() =~= usages(shown.subrange(start, index as int)));
            assert(next.last() == snapshot.usage);
        }
        let counts = match previous {
            Some(high) => snapshot.usage.total_tokens > high.total_tokens,
            None => true,
        };
        if counts {
            let delta = match previous {
                Some(high) => diff_usage(&high, &snapshot.usage),
                None => match snapshot.last_token_usage {
                    Some(turn) => if forked {
                        turn
                    } else {
                        snapshot.usage
                    },
                    None => snapshot.usage,
                },
            };
            previous = Some(snapshot.usage);
            if !is_zero_delta(&delta) {
                plan.push(PlannedUsage { snapshot_index: index, delta });
            }
        }
        index = index + 1;
    }
    proof {
        if start <= snapshots.len() {
            planned_indices_are_small(shown, start, snapshots.len() as int, base, forked);
        }
    }
    plan
}

/// Reading on from a high water gives the same high water as reading everything at once.
pub proof fn high_water_of_parts(
    start: Option<TokenUsage>,
    head: Seq<TokenUsage>,
    tail: Seq<TokenUsage>,
)
    ensures
        high_water(start, head + tail) == high_water(high_water(start, head), tail),
    decreases tail.len(),
{
    if tail.len() == 0 {
        assert(head + tail =~= head);
    } else {
        assert((head + tail).drop_last() =~= head + tail.drop_last());
        high_water_of_parts(start, head, tail.drop_last());
    }
}

/// A high water is the largest total of all: no reading and no start exceeds it, and there is
/// one as soon as there is a reading or a start.
pub proof fn high_water_is_largest(start: Option<TokenUsage>, readings: Seq<TokenUsage>)
    ensures
        start is Some || readings.len() > 0 ==> high_water(start, readings) is Some,
        start is Some ==> high_water(start, readings)->0.total_tokens >= start->0.total_tokens,
        forall|index: int|
            0 <= index < readings.len() ==> high_water(start, readings)->0.total_tokens
                >= (#[trigger] readings[index]).total_tokens,
        high_water(start, readings) == start || readings.contains(high_water(start, readings)->0),
    decreases readings.len(),
{
    if readings.len() > 0 {
        let earlier = readings.drop_last();
        high_water_is_largest(start, earlier);
        if high_water(start, readings) == Some(readings.last()) {
            assert(readings[readings.len() - 1] == readings.last());
        } else if high_water(start, earlier) != start {
            let place = choose|place: int|
                0 <= place < earlier.len() && earlier[place] == high_water(start, earlier)->0;
            assert(readings[place] == high_water(start, readings)->0);
        }
        assert forall|index: int| 0 <= index < readings.len() implies high_water(
            start,
            readings,
        )->0.total_tokens >= (#[trigger] readings[index]).total_tokens by {
            if index < earlier.len() {
                assert(earlier[index] == readings[index]);
            }
        }
    }
}

/// The same events, for a log in which the snapshots stand `offset` places later.
pub open spec fn moved(events: Seq<PlannedUsage>, offset: int) -> Seq<PlannedUsage> {
    events.map_values(
        |event: PlannedUsage|
            PlannedUsage {
                snapshot_index: (event.snapshot_index + offset) as usize,
                delta: event.delta,
            },
    )
}

proof fn events_of_head(
    head: Seq<UsageSnapshotView>,
    tail: Seq<UsageSnapshotView>,
    cutoff: int,
    end: int,
    base: Option<TokenUsage>,
    forked: bool,
)
    requires
        0 <= cutoff <= end <= head.len(),
    ensures
        planned_events(head + tail, cutoff, end, base, forked) == planned_events(
            head,
            cutoff,
            end,
            base,
            forked,
        ),
    decreases end - cutoff,
{
    if cutoff < end {
        events_of_head(head, tail, cutoff, end - 1, base, forked);
        assert((head + tail).subrange(cutoff, end - 1) =~= head.subrange(cutoff, end - 1));
    }
}

pub(crate) proof fn planned_indices_are_small(
    snapshots: Seq<UsageSnapshotView>,
    cutoff: int,
    end: int,
    base: Option<TokenUsage>,
    forked: bool,
)
    requires
        0 <= cutoff <= end <= snapshots.len() <= usize::MAX,
    ensures
        forall|index: int|
            0 <= index < planned_events(snapshots, cutoff, end, base, forked).len() ==> (
            #[trigger] planned_events(snapshots, cutoff, end, base, forked)[index]).snapshot_index
                < end,
    decreases end - cutoff,
{
    if cutoff < end {
        planned_indices_are_small(snapshots, cutoff, end - 1, base, forked);
        let earlier = planned_events(snapshots, cutoff, end - 1, base, forked);
        let all = planned_events(snapshots, cutoff, end, base, forked);
        assert forall|index: int| 0 <= index < all.len() implies (
        #[trigger] all[index]).snapshot_index < end by {
            if index < earlier.len() {
                assert(all[index] == earlier[index]);
            }
        }
    }
}

proof fn events_of_tail(
    head: Seq<UsageSnapshotView>,
    tail: Seq<UsageSnapshotView>,
    cutoff: int,
    end: int,
    base: Option<TokenUsage>,
    forked: bool,
)
    requires
        0 <= cutoff <= head.len(),
        0 <= end <= tail.len(),
        head.len() + tail.len() <= usize::MAX,
        forked ==> high_water(base, usages(head.subrange(cutoff, head.len() as int))) is Some,
    ensures
        planned_events(head + tail, cutoff, head.len() + end, base, forked) == planned_events(
            head,
            cutoff,
            head.len() as int,
            base,
            forked,
        ) + moved(
            planned_events(
                tail,
                0,
                end,
                high_water(base, usages(head.subrange(cutoff, head.len() as int))),
                false,
            ),
            head.len() as int,
        ),
    decreases end,
{
    let whole = head + tail;
    let middle = high_water(base, usages(head.subrange(cutoff, head.len() as int)));
    let head_events = planned_events(head, cutoff, head.len() as int, base, forked);
    if end == 0 {
        events_of_head(head, tail, cutoff, head.len() as int, base, forked);
        assert(head_events + moved(Seq::<PlannedUsage>::empty(), head.len() as int)
            =~= head_events);
    } else {
        events_of_tail(head, tail, cutoff, end - 1, base, forked);
        let tail_before = tail.subrange(0, end - 1);
        assert(whole.subrange(cutoff, head.len() + end - 1) =~= head.subrange(
            cutoff,
            head.len() as int,
        ) + tail_before);
        assert(usages(whole.subrange(cutoff, head.len() + end - 1)) =~= usages(
            head.subrange(cutoff, head.len() as int),
        ) + usages(tail_before));
        high_water_of_parts(
            base,
            usages(head.subrange(cutoff, head.len() as int)),
            usages(tail_before),
        );
        high_water_is_largest(middle, usages(tail_before));
        assert(whole[head.len() + end - 1] == tail[end - 1]);
        let earlier = planned_events(tail, 0, end - 1, middle, false);
        let all = planned_events(tail, 0, end, middle, false);
        planned_indices_are_small(tail, 0, end, middle, false);
        if all != earlier {
            assert(all == earlier.push(all.last()));
            assert(moved(all, head.len() as int) =~= moved(earlier, head.len() as int).push(
                moved(all, head.len() as int).last(),
            ));
            assert(head_events + moved(all, head.len() as int) =~= (head_events + moved(
                earlier,
                head.len() as int,
            )).push(moved(all, head.len() as int).last()));
        }
    }
}

/// A log that is imported in two steps, first `head` in full and then the appended `tail` from
/// the high water of `head`, gives the events that a full import of the whole log gives. The
/// inherited snapshots must end with their own high water, and a forked session must have shown
/// a reading in its first part: its very first reading is billed by its last turn.
pub proof fn tail_import_completes_full_import(
    head: Seq<UsageSnapshotView>,
    tail: Seq<UsageSnapshotView>,
    cutoff: int,
    forked: bool,
)
    requires
        0 <= cutoff <= head.len(),
        head.len() + tail.len() <= usize::MAX,
        cutoff > 0 ==> high_water(None, usages(head.take(cutoff))) == Some(
            head[cutoff - 1].usage,
        ),
        forked ==> head.len() > 0,
    ensures
        usage_plan(ParsedSessionMode::Full, head + tail, cutoff, forked) == usage_plan(
            ParsedSessionMode::Full,
            head,
            cutoff,
            forked,
        ) + moved(
            usage_plan(
                ParsedSessionMode::Tail { previous_usage: high_water(None, usages(head)) },
                tail,
                0,
                false,
            ),
            head.len() as int,
        ),
{
    let base = inherited_usage(head, cutoff);
    let rest = head.subrange(cutoff, head.len() as int);
    assert(inherited_usage(head + tail, cutoff) == base);
    assert(usages(head) =~= usages(head.take(cutoff)) + usages(rest));
    high_water_of_parts(None, usages(head.take(cutoff)), usages(rest));
    high_water_is_largest(None, usages(head));
    assert(high_water(base, usages(rest)) == high_water(None, usages(head)));
    events_of_tail(head, tail, cutoff, tail.len() as int, base, forked);
}

/// The sum of the totals of a list of events.
pub open spec fn billed_total(events: Seq<PlannedUsage>) -> int
    decreases events.len(),
{
    if events.len() == 0 {
        0
    } else {
        billed_total(events.drop_last()) + events.last().delta.total_tokens
    }
}

/// The total of a high water, zero where there is none.
pub open spec fn total_of(usage: Option<TokenUsage>) -> int {
    match usage {
        Some(found) => found.total_tokens as int,
        None => 0,
    }
}

/// Nothing is billed twice and nothing is lost: the totals of the events add up to the growth of
/// the high water, however often totals were repeated or fell back. Each total may exceed an
/// earlier one, or the base, by no more than an `i64` can say. The first reading of a forked
/// session is left out: it is billed by its last turn.
pub proof fn billed_total_is_growth(
    snapshots: Seq<UsageSnapshotView>,
    cutoff: int,
    end: int,
    base: Option<TokenUsage>,
    forked: bool,
)
    requires
        0 <= cutoff <= end <= snapshots.len(),
        forall|earlier: int, later: int|
            cutoff <= earlier < later < end ==> (
            #[trigger] snapshots[later]).usage.total_tokens - (
            #[trigger] snapshots[earlier]).usage.total_tokens <= i64::MAX,
        base is Some ==> forall|index: int|
            cutoff <= index < end ==> (#[trigger] snapshots[index]).usage.total_tokens - total_of(
                base,
            ) <= i64::MAX,
        forked ==> base is Some,
    ensures
        billed_total(planned_events(snapshots, cutoff, end, base, forked)) == total_of(
            high_water(base, usages(snapshots.subrange(cutoff, end))),
        ) - total_of(base),
    decreases end - cutoff,
{
    if cutoff < end {
        billed_total_is_growth(snapshots, cutoff, end - 1, base, forked);
        let before = usages(snapshots.subrange(cutoff, end - 1));
        let after = usages(snapshots.subrange(cutoff, end));
        assert(after.drop_last() =~= before);
        assert(after.last() == snapshots[end - 1].usage);
        high_water_is_largest(base, before);
        let earlier = planned_events(snapshots, cutoff, end - 1, base, forked);
        let all = planned_events(snapshots, cutoff, end, base, forked);
        if all != earlier {
            assert(all.drop_last() =~= earlier);
        }
        let previous = high_water(base, before);
        if previous is Some && previous != base {
            let place = choose|place: int|
                0 <= place < before.len() && before[place] == previous->0;
            assert(before[place] == snapshots[cutoff + place].usage);
        }
    } else {
        assert(usages(snapshots.subrange(cutoff, end)) =~= Seq::empty());
    }
}

/// Totals that never exceed the base bill nothing.
pub proof fn repeated_totals_bill_nothing(
    snapshots: Seq<UsageSnapshotView>,
    cutoff: int,
    end: int,
    base: TokenUsage,
    forked: bool,
)
    requires
        0 <= cutoff <= end <= snapshots.len(),
        forall|index: int|
            cutoff <= index < end ==> (#[trigger] snapshots[index]).usage.total_tokens
                <= base.total_tokens,
    ensures
        planned_events(snapshots, cutoff, end, Some(base), forked).len() == 0,
        high_water(Some(base), usages(snapshots.subrange(cutoff, end))) == Some(base),
    decreases end - cutoff,
{
    if cutoff < end {
        repeated_totals_bill_nothing(snapshots, cutoff, end - 1, base, forked);
        let after = usages(snapshots.subrange(cutoff, end));
        assert(after.drop_last() =~= usages(snapshots.subrange(cutoff, end - 1)));
        assert(after.last() == snapshots[end - 1].usage);
    } else {
        assert(usages(snapshots.subrange(cutoff, end)) =~= Seq::empty());
    }
}

} // verus!
