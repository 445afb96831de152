//! Finding the readings that a forked session copied from its parent.
//!
//! A forked session log starts with a copy of some of its parent's readings. They were billed
//! with the parent, so the child is billed from the first reading after them.

use crate::models::{snapshot_views, TokenUsage, UsageSnapshot, UsageSnapshotView};
use crate::timestamps::{instant_of, parse_instant, Instant};
use crate::usage::{advances, high_water, usages};
use vstd::prelude::*;

verus! {

/// What identifies a copied reading.
#[derive(Clone, Copy, Debug, PartialEq, Eq, Structural)]
pub struct ReplayKey {
    pub total_token_usage: TokenUsage,
    pub last_token_usage: TokenUsage,
}

/// A reading whose total exceeds every total before it, with its place in the log.
#[derive(Clone, Copy, Debug)]
pub struct CanonicalReplaySnapshot<'a> {
    pub raw_index: usize,
    pub snapshot: &'a UsageSnapshot,
}

/// The key of a reading; there is none where the reading does not say its last turn.
pub open spec fn key_of(snapshot: UsageSnapshotView) -> Option<ReplayKey> {
    match snapshot.last_token_usage {
        Some(last) => Some(
            ReplayKey { total_token_usage: snapshot.usage, last_token_usage: last },
        ),
        None => None,
    }
}

impl<'a> CanonicalReplaySnapshot<'a> {
    /// The key of the reading.
    pub fn replay_key(&self) -> (key: Option<ReplayKey>)
        ensures
            key == key_of(self.snapshot@),
    {
        match self.snapshot.last_token_usage {
            Some(last) => Some(
                ReplayKey { total_token_usage: self.snapshot.usage, last_token_usage: last },
            ),
            None => None,
        }
    }
}

/// The places, among the first `end`, of the readings that exceed every total before them.
pub open spec fn canonical_places(snapshots: Seq<UsageSnapshotView>, end: int) -> Seq<int>
    decreases end,
{
    if end <= 0 {
        Seq::empty()
    } else {
        let earlier = canonical_places(snapshots, end - 1);
        if advances(high_water(None, usages(snapshots.take(end - 1))), snapshots[end - 1].usage) {
            earlier.push(end - 1)
        } else {
            earlier
        }
    }
}

/// The readings that exceed every total before them.
pub open spec fn canonical(snapshots: Seq<UsageSnapshotView>) -> Seq<int> {
    canonical_places(snapshots, snapshots.len() as int)
}

proof fn canonical_places_are_records(snapshots: Seq<UsageSnapshotView>, end: int)
    requires
        0 <= end <= snapshots.len(),
    ensures
        canonical_places(snapshots, end).len() <= end,
        forall|rank: int|
            0 <= rank < canonical_places(snapshots, end).len() ==> {
                let place = #[trigger] canonical_places(snapshots, end)[rank];
                0 <= place < end && high_water(None, usages(snapshots.take(place + 1))) == Some(
                    snapshots[place].usage,
                )
            },
    decreases end,
{
    if end > 0 {
        canonical_places_are_records(snapshots, end - 1);
        let earlier = canonical_places(snapshots, end - 1);
        let all = canonical_places(snapshots, end);
        let readings = usages(snapshots.take(end));
        assert(readings.drop_last() =~= usages(snapshots.take(end - 1)));
        assert(readings.last() == snapshots[end - 1].usage);
        assert forall|rank: int| 0 <= rank < all.len() implies {
            let place = #[trigger] all[rank];
            0 <= place < end && high_water(None, usages(snapshots.take(place + 1))) == Some(
                snapshots[place].usage,
            )
        } by {
            if rank < earlier.len() {
                assert(all[rank] == earlier[rank]);
            }
        }
    }
}

/// The readings that exceed every total before them, with their places.
pub fn canonical_replay_snapshots<'a>(snapshots: &'a Vec<UsageSnapshot>) -> (result: Vec<
    CanonicalReplaySnapshot<'a>,
>)
    ensures
        result.len() == canonical(snapshot_views(snapshots@)).len(),
        forall|rank: int|
            0 <= rank < result.len() ==> (#[trigger] result[rank]).raw_index == canonical(
                snapshot_views(snapshots@),
            )[rank] && result[rank].raw_index < snapshots.len() && *result[rank].snapshot
                == snapshots[result[rank].raw_index as int],
{
    let ghost shown = snapshot_views(snapshots@);
    let mut result: Vec<CanonicalReplaySnapshot<'a>> = Vec::new();
    let mut highest: Option<TokenUsage> = None;
    let mut index: usize = 0;
    while index < snapshots.len()
        invariant
            index <= snapshots.len(),
            shown == snapshot_views(snapshots@),
            highest == high_water(None, usages(shown.take(index as int))),
            result.len() == canonical_places(shown, index as int).len(),
            forall|rank: int|
                0 <= rank < result.len() ==> (#[trigger] result[rank]).raw_index
                    == canonical_places(shown, index as int)[rank] && result[rank].raw_index
                    < snapshots.len() && *result[rank].snapshot
                    == snapshots[result[rank].raw_index as int],
        decreases snapshots.len() - index,
    {
        let snapshot = &snapshots[index];
        proof {
            let next = usages(shown.take(index + 1));
            assert(next.drop_last() =~= usages(shown.take(index as int)));
            assert(next.last() == snapshot.usage);
        }
        let counts = match highest {
            Some(previous) => snapshot.usage.total_tokens > previous.total_tokens,
            None => true,
        };
        if counts {
            highest = Some(snapshot.usage);
            result.push(CanonicalReplaySnapshot { raw_index: index, snapshot });
        }
        index = index + 1;
    }
    result
}

/// Whether the first `len` keys of `pattern` are also the last `len` of its first `end`.
pub open spec fn is_border(pattern: Seq<ReplayKey>, end: int, len: int) -> bool {
    0 <= len < end <= pattern.len() && forall|step: int|
        0 <= step < len ==> #[trigger] pattern[step] == pattern[end - len + step]
}

/// Whether `len` is the longest border of the first `end` keys.
pub open spec fn is_longest_border(pattern: Seq<ReplayKey>, end: int, len: int) -> bool {
    is_border(pattern, end, len) && forall|other: int|
        #[trigger] is_border(pattern, end, other) ==> other <= len
}

proof fn border_of_border(pattern: Seq<ReplayKey>, end: int, long: int, short: int)
    requires
        is_border(pattern, end, long),
        0 <= short < long,
    ensures
        is_border(pattern, end, short) <==> is_border(pattern, long, short),
{
    assert forall|step: int| 0 <= step < short implies pattern[long - short + step]
        == #[trigger] pattern[end - short + step] by {
        assert(pattern[long - short + step] == pattern[end - long + (long - short + step)]);
    }
    if is_border(pattern, end, short) {
        assert forall|step: int| 0 <= step < short implies #[trigger] pattern[step]
            == pattern[long - short + step] by {
            assert(pattern[step] == pattern[end - short + step]);
        }
    }
    if is_border(pattern, long, short) {
        assert forall|step: int| 0 <= step < short implies #[trigger] pattern[step]
            == pattern[end - short + step] by {
            assert(pattern[step] == pattern[long - short + step]);
        }
    }
}

/// For each prefix of a pattern the length of its longest border.
pub fn kmp_prefix_table(pattern: &Vec<ReplayKey>) -> (table: Vec<usize>)
    ensures
        table.len() == pattern.len(),
        forall|index: int|
            0 <= index < table.len() ==> is_longest_border(
                pattern@,
                index + 1,
                #[trigger] table[index] as int,
            ),
{
    let mut table: Vec<usize> = Vec::new();
    if pattern.len() == 0 {
        return table;
    }
    table.push(0);
    let mut index: usize = 1;
    while index < pattern.len()
        invariant
            1 <= index <= pattern.len(),
            table.len() == index,
            forall|done: int|
                0 <= done < index ==> is_longest_border(
                    pattern@,
                    done + 1,
                    #[trigger] table[done] as int,
                ),
        decreases pattern.len() - index,
    {
        let mut prefix_len: usize = table[index - 1];
        proof {
            assert(is_longest_border(pattern@, index as int, prefix_len as int));
            assert forall|other: int| #[trigger]
                is_border(pattern@, index + 1, other) && other > 0 implies other - 1
                <= prefix_len by {
                border_shrinks(pattern@, index as int, other);
            }
        }
        while prefix_len > 0 && pattern[index] != pattern[prefix_len]
            invariant
                1 <= index < pattern.len(),
                table.len() == index,
                is_border(pattern@, index as int, prefix_len as int),
                forall|done: int|
                    0 <= done < index ==> is_longest_border(
                        pattern@,
                        done + 1,
                        #[trigger] table[done] as int,
                    ),
                forall|other: int| #[trigger]
                    is_border(pattern@, index + 1, other) && other > 0 ==> other - 1
                        <= prefix_len,
            decreases prefix_len,
        {
            let shorter: usize = table[prefix_len - 1];
            proof {
                assert(is_longest_border(pattern@, prefix_len as int, shorter as int));
                border_of_border(pattern@, index as int, prefix_len as int, shorter as int);
                assert forall|other: int| #[trigger]
                    is_border(pattern@, index + 1, other) && other > 0 implies other - 1
                    <= shorter by {
                    border_shrinks(pattern@, index as int, other);
                    if other - 1 == prefix_len {
                        assert(pattern@[other - 1] == pattern@[index + 1 - other + (other - 1)]);
                    } else {
                        border_of_border(
                            pattern@,
                            index as int,
                            prefix_len as int,
                            other - 1,
                        );
                    }
                }
            }
            prefix_len = shorter;
        }
        if pattern[index] == pattern[prefix_len] {
            proof {
                border_grows(pattern@, index as int, prefix_len as int);
            }
            prefix_len = prefix_len + 1;
        } else {
            proof {
                assert forall|other: int| #[trigger]
                    is_border(pattern@, index + 1, other) implies other <= 0 by {
                    if other > 0 {
                        assert(other == 1);
                        assert(pattern@[0] == pattern@[index + 1 - other + 0]);
                    }
                }
            }
        }
        table.push(prefix_len);
        index = index + 1;
    }
    table
}

proof fn border_shrinks(pattern: Seq<ReplayKey>, end: int, len: int)
    requires
        is_border(pattern, end + 1, len),
        len > 0,
    ensures
        is_border(pattern, end, len - 1),
{
    assert forall|step: int| 0 <= step < len - 1 implies #[trigger] pattern[step] == pattern[end - (
    len - 1) + step] by {
        assert(pattern[step] == pattern[end + 1 - len + step]);
    }
}

proof fn border_grows(pattern: Seq<ReplayKey>, end: int, len: int)
    requires
        is_border(pattern, end, len),
        end < pattern.len(),
        pattern[end] == pattern[len],
    ensures
        is_border(pattern, end + 1, len + 1),
{
    assert forall|step: int| 0 <= step < len + 1 implies #[trigger] pattern[step] == pattern[end + 1
        - (len + 1) + step] by {
        if step < len {
            assert(pattern[step] == pattern[end - len + step]);
        }
    }
}

/// Whether the first `len` keys of `pattern` are the last `len` of the first `end` in `keys`.
pub open spec fn ends_with_prefix(
    pattern: Seq<ReplayKey>,
    len: int,
    keys: Seq<Option<ReplayKey>>,
    end: int,
) -> bool {
    0 <= len <= pattern.len() && len <= end <= keys.len() && forall|step: int|
        0 <= step < len ==> keys[end - len + step] == Some(#[trigger] pattern[step])
}

/// Whether the first `len` keys of `pattern` stand somewhere in `keys`, one after the other.
pub open spec fn prefix_occurs(
    pattern: Seq<ReplayKey>,
    len: int,
    keys: Seq<Option<ReplayKey>>,
) -> bool {
    exists|end: int| #[trigger] ends_with_prefix(pattern, len, keys, end)
}

/// The length, up to `bound`, of the longest prefix of `pattern` that stands in `keys`.
pub open spec fn longest_prefix(
    pattern: Seq<ReplayKey>,
    keys: Seq<Option<ReplayKey>>,
    bound: int,
) -> int
    decreases bound,
{
    if bound <= 0 {
        0
    } else if prefix_occurs(pattern, bound, keys) {
        bound
    } else {
        longest_prefix(pattern, keys, bound - 1)
    }
}

proof fn longest_prefix_is(
    pattern: Seq<ReplayKey>,
    keys: Seq<Option<ReplayKey>>,
    bound: int,
    len: int,
)
    requires
        0 <= len <= bound,
        prefix_occurs(pattern, len, keys),
        forall|other: int| #[trigger] prefix_occurs(pattern, other, keys) ==> other <= len,
    ensures
        longest_prefix(pattern, keys, bound) == len,
    decreases bound,
{
    if bound > len {
        longest_prefix_is(pattern, keys, bound - 1, len);
    }
}

proof fn prefix_of_prefix(
    pattern: Seq<ReplayKey>,
    long: int,
    short: int,
    keys: Seq<Option<ReplayKey>>,
    end: int,
)
    requires
        ends_with_prefix(pattern, long, keys, end),
        0 <= short < long,
    ensures
        ends_with_prefix(pattern, short, keys, end) <==> is_border(pattern, long, short),
{
    assert forall|step: int| 0 <= step < short implies keys[end - short + step] == Some(
        #[trigger] pattern[long - short + step],
    ) by {
        assert(keys[end - long + (long - short + step)] == Some(pattern[long - short + step]));
    }
    if ends_with_prefix(pattern, short, keys, end) {
        assert forall|step: int| 0 <= step < short implies #[trigger] pattern[step]
            == pattern[long - short + step] by {
            assert(keys[end - short + step] == Some(pattern[step]));
        }
    }
    if is_border(pattern, long, short) {
        assert forall|step: int| 0 <= step < short implies keys[end - short + step] == Some(
            #[trigger] pattern[step],
        ) by {
            assert(pattern[step] == pattern[long - short + step]);
        }
    }
}

proof fn prefix_shrinks(
    pattern: Seq<ReplayKey>,
    len: int,
    keys: Seq<Option<ReplayKey>>,
    end: int,
)
    requires
        ends_with_prefix(pattern, len, keys, end + 1),
        len > 0,
    ensures
        ends_with_prefix(pattern, len - 1, keys, end),
        keys[end] == Some(pattern[len - 1]),
{
    assert forall|step: int| 0 <= step < len - 1 implies keys[end - (len - 1) + step] == Some(
        #[trigger] pattern[step],
    ) by {
        assert(keys[end + 1 - len + step] == Some(pattern[step]));
    }
    assert(keys[end + 1 - len + (len - 1)] == Some(pattern[len - 1]));
}

proof fn prefix_grows(
    pattern: Seq<ReplayKey>,
    len: int,
    keys: Seq<Option<ReplayKey>>,
    end: int,
)
    requires
        ends_with_prefix(pattern, len, keys, end),
        len < pattern.len(),
        end < keys.len(),
        keys[end] == Some(pattern[len]),
    ensures
        ends_with_prefix(pattern, len + 1, keys, end + 1),
{
    assert forall|step: int| 0 <= step < len + 1 implies keys[end + 1 - (len + 1) + step] == Some(
        #[trigger] pattern[step],
    ) by {
        if step < len {
            assert(keys[end - len + step] == Some(pattern[step]));
        }
    }
}

/// Advances a match by one key: from the longest prefix of `pattern` that the keys before `end`
/// end with to the longest one that the keys up to and with `end` end with.
fn advance_match(
    pattern: &Vec<ReplayKey>,
    table: &Vec<usize>,
    keys: &Vec<Option<ReplayKey>>,
    end: usize,
    matched: usize,
) -> (result: usize)
    requires
        end < keys.len(),
        matched < pattern.len(),
        table.len() == pattern.len(),
        forall|index: int|
            0 <= index < table.len() ==> is_longest_border(
                pattern@,
                index + 1,
                #[trigger] table[index] as int,
            ),
        ends_with_prefix(pattern@, matched as int, keys@, end as int),
        forall|other: int| #[trigger]
            ends_with_prefix(pattern@, other, keys@, end as int) ==> other <= matched,
    ensures
        ends_with_prefix(pattern@, result as int, keys@, end + 1),
        forall|other: int| #[trigger]
            ends_with_prefix(pattern@, other, keys@, end + 1) ==> other <= result,
{
    let key = match keys[end] {
        Some(key) => key,
        None => {
            proof {
                assert forall|other: int| #[trigger]
                    ends_with_prefix(pattern@, other, keys@, end + 1) implies other <= 0 by {
                    if other > 0 {
                        prefix_shrinks(pattern@, other, keys@, end as int);
                    }
                }
            }
            return 0;
        },
    };
    let mut len: usize = matched;
    proof {
        assert forall|other: int| #[trigger]
            ends_with_prefix(pattern@, other, keys@, end + 1) && other > 0 implies other - 1
            <= len by {
            prefix_shrinks(pattern@, other, keys@, end as int);
        }
    }
    while len > 0 && pattern[len] != key
        invariant
            end < keys.len(),
            len < pattern.len(),
            table.len() == pattern.len(),
            keys[end as int] == Some(key),
            forall|index: int|
                0 <= index < table.len() ==> is_longest_border(
                    pattern@,
                    index + 1,
                    #[trigger] table[index] as int,
                ),
            ends_with_prefix(pattern@, len as int, keys@, end as int),
            forall|other: int| #[trigger]
                ends_with_prefix(pattern@, other, keys@, end + 1) && other > 0 ==> other - 1
                    <= len,
        decreases len,
    {
        let shorter: usize = table[len - 1];
        proof {
            assert(is_longest_border(pattern@, len as int, shorter as int));
            prefix_of_prefix(pattern@, len as int, shorter as int, keys@, end as int);
            assert forall|other: int| #[trigger]
                ends_with_prefix(pattern@, other, keys@, end + 1) && other > 0 implies other - 1
                <= shorter by {
                prefix_shrinks(pattern@, other, keys@, end as int);
                if other - 1 != len {
                    prefix_of_prefix(pattern@, len as int, other - 1, keys@, end as int);
                }
            }
        }
        len = shorter;
    }
    if pattern[len] == key {
        proof {
            prefix_grows(pattern@, len as int, keys@, end as int);
        }
        len + 1
    } else {
        proof {
            assert forall|other: int| #[trigger]
                ends_with_prefix(pattern@, other, keys@, end + 1) implies other <= 0 by {
                if other > 0 {
                    prefix_shrinks(pattern@, other, keys@, end as int);
                }
            }
        }
        0
    }
}

/// The length of the longest prefix of `pattern` that stands in `keys`.
pub fn longest_replayed_prefix(
    pattern: &Vec<ReplayKey>,
    keys: &Vec<Option<ReplayKey>>,
) -> (longest: usize)
    ensures
        longest == longest_prefix(pattern@, keys@, pattern.len() as int),
        longest <= pattern.len(),
        prefix_occurs(pattern@, longest as int, keys@),
{
    proof {
        assert(ends_with_prefix(pattern@, 0, keys@, 0));
    }
    let table = kmp_prefix_table(pattern);
    let mut matched: usize = 0;
    let mut longest: usize = 0;
    let mut end: usize = 0;
    while end < keys.len() && matched < pattern.len()
        invariant
            end <= keys.len(),
            matched <= longest <= pattern.len(),
            table.len() == pattern.len(),
            forall|index: int|
                0 <= index < table.len() ==> is_longest_border(
                    pattern@,
                    index + 1,
                    #[trigger] table[index] as int,
                ),
            ends_with_prefix(pattern@, matched as int, keys@, end as int),
            forall|other: int| #[trigger]
                ends_with_prefix(pattern@, other, keys@, end as int) ==> other <= matched,
            prefix_occurs(pattern@, longest as int, keys@),
            forall|other: int, place: int| #[trigger]
                ends_with_prefix(pattern@, other, keys@, place) && place <= end ==> other
                    <= longest,
        decreases keys.len() - end,
    {
        matched = advance_match(pattern, &table, keys, end, matched);
        if matched > longest {
            longest = matched;
        }
        end = end + 1;
    }
    proof {
        assert forall|other: int| #[trigger] prefix_occurs(pattern@, other, keys@) implies other
            <= longest by {
            let place = choose|place: int| #[trigger]
                ends_with_prefix(pattern@, other, keys@, place);
            assert(ends_with_prefix(pattern@, other, keys@, place));
        }
        longest_prefix_is(pattern@, keys@, pattern.len() as int, longest as int);
    }
    longest
}

/// How many of the first `end` keys stand before the first missing one.
pub open spec fn leading_count(keys: Seq<Option<ReplayKey>>, end: int) -> int
    decreases end,
{
    if end <= 0 {
        0
    } else if leading_count(keys, end - 1) == end - 1 && keys[end - 1] is Some {
        end
    } else {
        leading_count(keys, end - 1)
    }
}

proof fn leading_count_stops(keys: Seq<Option<ReplayKey>>, stop: int, end: int)
    requires
        0 <= stop < end,
        leading_count(keys, stop) == stop,
        keys[stop] is None,
    ensures
        leading_count(keys, end) == stop,
    decreases end,
{
    if stop + 1 < end {
        leading_count_stops(keys, stop, end - 1);
    }
}

/// The keys of a log's canonical readings.
pub open spec fn canonical_keys(snapshots: Seq<UsageSnapshotView>) -> Seq<Option<ReplayKey>> {
    canonical(snapshots).map_values(|place: int| key_of(snapshots[place]))
}

/// The keys that a child must show again to have copied them: those of its canonical readings,
/// up to the first that has none.
pub open spec fn child_pattern(child: Seq<UsageSnapshotView>) -> Seq<ReplayKey> {
    let keys = canonical_keys(child);
    Seq::new(leading_count(keys, keys.len() as int) as nat, |rank: int| keys[rank]->0)
}

/// Whether a parent's reading was there to be copied when the child forked off.
pub open spec fn eligible(snapshot: UsageSnapshotView, fork: Instant) -> bool {
    match instant_of(snapshot.timestamp) {
        Some(instant) => instant.at_or_before(fork),
        None => false,
    }
}

/// The keys of the first `end` canonical readings of a parent, without those after the fork.
pub open spec fn eligible_keys(parent: Seq<UsageSnapshotView>, fork: Instant, end: int) -> Seq<
    Option<ReplayKey>,
>
    decreases end,
{
    if end <= 0 {
        Seq::empty()
    } else {
        let earlier = eligible_keys(parent, fork, end - 1);
        let snapshot = parent[canonical(parent)[end - 1]];
        if eligible(snapshot, fork) {
            earlier.push(key_of(snapshot))
        } else {
            earlier
        }
    }
}

/// The keys of a parent's canonical readings, without those after the fork.
pub open spec fn parent_keys(parent: Seq<UsageSnapshotView>, fork: Instant) -> Seq<
    Option<ReplayKey>,
> {
    eligible_keys(parent, fork, canonical(parent).len() as int)
}

/// How many keys must match for a copy to be believed: two, or one where the parent has no more.
pub open spec fn minimum_match(keys: Seq<Option<ReplayKey>>) -> int {
    if keys.len() == 1 {
        1
    } else {
        2
    }
}

/// How many snapshots at the start of `child` are copies of those with these keys: those up to and
/// with the last canonical reading of the longest run that the child's start shares with them.
pub open spec fn cutoff_among(keys: Seq<Option<ReplayKey>>, child: Seq<UsageSnapshotView>) -> int {
    let pattern = child_pattern(child);
    let longest = longest_prefix(pattern, keys, pattern.len() as int);
    if longest < minimum_match(keys) {
        0
    } else {
        canonical(child)[longest - 1] + 1
    }
}

/// How many snapshots at the start of `child` are copies of `parent`'s: those that it shares with
/// the parent's readings before the fork.
pub open spec fn replay_cutoff(
    parent: Seq<UsageSnapshotView>,
    child: Seq<UsageSnapshotView>,
    fork: Option<Instant>,
) -> int {
    match fork {
        None => 0,
        Some(instant) => cutoff_among(parent_keys(parent, instant), child),
    }
}

/// The keys of a child's canonical readings, up to the first that has none.
fn child_pattern_of<'a>(
    canonical_child: &Vec<CanonicalReplaySnapshot<'a>>,
    child: &Vec<UsageSnapshot>,
) -> (pattern: Vec<ReplayKey>)
    requires
        canonical_child.len() == canonical(snapshot_views(child@)).len(),
        forall|rank: int|
            0 <= rank < canonical_child.len() ==> (#[trigger] canonical_child[rank]).raw_index
                == canonical(snapshot_views(child@))[rank] && canonical_child[rank].raw_index
                < child.len() && *canonical_child[rank].snapshot
                == child[canonical_child[rank].raw_index as int],
    ensures
        pattern@ == child_pattern(snapshot_views(child@)),
        pattern.len() <= canonical_child.len(),
{
    let ghost keys = canonical_keys(snapshot_views(child@));
    let mut pattern: Vec<ReplayKey> = Vec::new();
    let mut rank: usize = 0;
    while rank < canonical_child.len()
        invariant
            rank <= canonical_child.len(),
            keys == canonical_keys(snapshot_views(child@)),
            canonical_child.len() == canonical(snapshot_views(child@)).len(),
            forall|rank: int|
                0 <= rank < canonical_child.len() ==> (#[trigger] canonical_child[rank]).raw_index
                    == canonical(snapshot_views(child@))[rank] && canonical_child[rank].raw_index
                    < child.len() && *canonical_child[rank].snapshot
                    == child[canonical_child[rank].raw_index as int],
            leading_count(keys, rank as int) == rank,
            pattern.len() == rank,
            forall|done: int| 0 <= done < rank ==> keys[done] == Some(#[trigger] pattern[done]),
        decreases canonical_child.len() - rank,
    {
        let found = canonical_child[rank].replay_key();
        proof {
            assert(keys[rank as int] == found);
        }
        match found {
            Some(key) => {
                pattern.push(key);
            },
            None => {
                proof {
                    leading_count_stops(keys, rank as int, keys.len() as int);
                    assert(pattern@ =~= child_pattern(snapshot_views(child@)));
                }
                return pattern;
            },
        }
        rank = rank + 1;
    }
    proof {
        assert(pattern@ =~= child_pattern(snapshot_views(child@)));
    }
    pattern
}

/// The keys of a parent's canonical readings, without those after the fork.
fn parent_keys_of(parent: &Vec<UsageSnapshot>, fork: &Instant) -> (keys: Vec<Option<ReplayKey>>)
    ensures
        keys@ == parent_keys(snapshot_views(parent@), *fork),
{
    let canonical_parent = canonical_replay_snapshots(parent);
    let mut keys: Vec<Option<ReplayKey>> = Vec::new();
    let mut rank: usize = 0;
    while rank < canonical_parent.len()
        invariant
            rank <= canonical_parent.len(),
            canonical_parent.len() == canonical(snapshot_views(parent@)).len(),
            forall|rank: int|
                0 <= rank < canonical_parent.len() ==> (
                #[trigger] canonical_parent[rank]).raw_index == canonical(
                    snapshot_views(parent@),
                )[rank] && canonical_parent[rank].raw_index < parent.len()
                    && *canonical_parent[rank].snapshot
                    == parent[canonical_parent[rank].raw_index as int],
            keys@ == eligible_keys(snapshot_views(parent@), *fork, rank as int),
        decreases canonical_parent.len() - rank,
    {
        let reading = &canonical_parent[rank];
        match parse_instant(reading.snapshot.timestamp.as_str()) {
            Some(instant) => {
                if instant.is_at_or_before(fork) {
                    keys.push(reading.replay_key());
                }
            },
            None => {},
        }
        rank = rank + 1;
    }
    keys
}

/// How many snapshots at the start of `child_snapshots` are copies of those with these keys. The
/// copied part ends at a reading that exceeds every total before it.
pub fn replayed_cutoff_among(
    keys: &Vec<Option<ReplayKey>>,
    child_snapshots: &Vec<UsageSnapshot>,
) -> (cutoff: usize)
    ensures
        cutoff == cutoff_among(keys@, snapshot_views(child_snapshots@)),
        cutoff <= child_snapshots.len(),
{
    let canonical_child = canonical_replay_snapshots(child_snapshots);
    let pattern = child_pattern_of(&canonical_child, child_snapshots);
    let minimum_match_length: usize = if keys.len() == 1 {
        1
    } else {
        2
    };
    let longest = longest_replayed_prefix(&pattern, keys);
    if longest < minimum_match_length {
        0
    } else {
        canonical_child[longest - 1].raw_index + 1
    }
}

/// How many snapshots at the start of `child_snapshots` are copies of the parent's.
pub fn replayed_child_snapshot_cutoff(
    parent_snapshots: &Vec<UsageSnapshot>,
    child_snapshots: &Vec<UsageSnapshot>,
    explicit_fork_timestamp: Option<Instant>,
) -> (cutoff: usize)
    ensures
        cutoff == replay_cutoff(
            snapshot_views(parent_snapshots@),
            snapshot_views(child_snapshots@),
            explicit_fork_timestamp,
        ),
        cutoff <= child_snapshots.len(),
{
    match explicit_fork_timestamp {
        Some(fork) => replayed_cutoff_among(
            &parent_keys_of(parent_snapshots, &fork),
            child_snapshots,
        ),
        None => 0,
    }
}

proof fn longest_prefix_is_bounded(
    pattern: Seq<ReplayKey>,
    keys: Seq<Option<ReplayKey>>,
    bound: int,
)
    requires
        0 <= bound,
    ensures
        0 <= longest_prefix(pattern, keys, bound) <= bound,
        longest_prefix(pattern, keys, bound) > 0 ==> prefix_occurs(
            pattern,
            longest_prefix(pattern, keys, bound),
            keys,
        ),
    decreases bound,
{
    if bound > 0 {
        longest_prefix_is_bounded(pattern, keys, bound - 1);
    }
}

proof fn leading_count_is_bounded(keys: Seq<Option<ReplayKey>>, end: int)
    requires
        0 <= end,
    ensures
        0 <= leading_count(keys, end) <= end,
    decreases end,
{
    if end > 0 {
        leading_count_is_bounded(keys, end - 1);
    }
}

/// The copied part of a child never reaches past its end, and it ends at the child's high water
/// so far: what is billed after it counts on from there.
pub proof fn copied_part_ends_at_high_water(
    parent: Seq<UsageSnapshotView>,
    child: Seq<UsageSnapshotView>,
    fork: Option<Instant>,
)
    ensures
        0 <= replay_cutoff(parent, child, fork) <= child.len(),
        replay_cutoff(parent, child, fork) > 0 ==> high_water(
            None,
            usages(child.take(replay_cutoff(parent, child, fork))),
        ) == Some(child[replay_cutoff(parent, child, fork) - 1].usage),
{
    if let Some(instant) = fork {
        let keys = parent_keys(parent, instant);
        let pattern = child_pattern(child);
        longest_prefix_is_bounded(pattern, keys, pattern.len() as int);
        leading_count_is_bounded(canonical_keys(child), canonical_keys(child).len() as int);
        canonical_places_are_records(child, child.len() as int);
        let longest = longest_prefix(pattern, keys, pattern.len() as int);
        if longest >= minimum_match(keys) {
            assert(0 <= canonical(child)[longest - 1] < child.len());
        }
    }
}

/// A part is cut off only where the parent shows it: the keys of the child's first canonical
/// readings stand, one after the other, among those of the parent's readings before the fork.
pub proof fn copied_part_stands_in_parent(
    parent: Seq<UsageSnapshotView>,
    child: Seq<UsageSnapshotView>,
    fork: Instant,
)
    requires
        replay_cutoff(parent, child, Some(fork)) > 0,
    ensures
        exists|len: int|
            minimum_match(parent_keys(parent, fork)) <= len <= child_pattern(child).len()
                && #[trigger] prefix_occurs(child_pattern(child), len, parent_keys(parent, fork))
                && replay_cutoff(parent, child, Some(fork)) == canonical(child)[len - 1] + 1,
{
    let keys = parent_keys(parent, fork);
    let pattern = child_pattern(child);
    longest_prefix_is_bounded(pattern, keys, pattern.len() as int);
    let len = longest_prefix(pattern, keys, pattern.len() as int);
    assert(prefix_occurs(pattern, len, keys));
}

} // verus!
