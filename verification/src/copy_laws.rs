//! What counts as a copy: which readings of a fork were billed with its parent.

use crate::models::UsageSnapshotView;
use crate::replay::{
    canonical, canonical_keys, canonical_places, child_pattern, eligible, eligible_keys,
    ends_with_prefix, key_of, leading_count, longest_prefix, parent_keys, prefix_occurs,
    replay_cutoff, ReplayKey,
};
use crate::timestamps::{rfc3339, Instant};
use crate::usage::{usage_plan, ParsedSessionMode};
use crate::usage_laws::{
    billed_count, counted, counts_at, full_import_adds_up, high_water_is_that_of_counting,
    is_last_counting, never_falls, Count,
};
use vstd::prelude::*;

verus! {

/// Whether each number of a list exceeds those before it.
pub open spec fn is_rising(places: Seq<int>) -> bool {
    forall|left: int, right: int|
        0 <= left < right < places.len() ==> #[trigger] places[left] < #[trigger] places[right]
}

/// Whether `places` are, in order, the places of the readings whose total exceeds every total
/// before them.
pub open spec fn lists_records(places: Seq<int>, snapshots: Seq<UsageSnapshotView>) -> bool {
    &&& is_rising(places)
    &&& forall|place: int|
        places.contains(place) <==> #[trigger] counts_at(snapshots, 0, None, place)
}

/// Whether a reading says a moment that is not after the fork.
pub open spec fn is_before_fork(snapshot: UsageSnapshotView, fork: Instant) -> bool {
    rfc3339(snapshot.timestamp) matches Ok(moment) && (moment.seconds < fork.seconds || (
    moment.seconds == fork.seconds && moment.nanos <= fork.nanos))
}

/// Whether a parent's reading is one that a fork can have copied: its total exceeds every total
/// before it, and it is not after the fork.
pub open spec fn can_be_copied(
    parent: Seq<UsageSnapshotView>,
    fork: Instant,
    place: int,
) -> bool {
    counts_at(parent, 0, None, place) && is_before_fork(parent[place], fork)
}

/// Whether `places` are, in order, the places of the readings that a fork can have copied.
pub open spec fn lists_copyable(
    places: Seq<int>,
    parent: Seq<UsageSnapshotView>,
    fork: Instant,
) -> bool {
    &&& is_rising(places)
    &&& forall|place: int|
        places.contains(place) <==> #[trigger] can_be_copied(parent, fork, place)
}

/// Whether a reading says again what another said: the same counts, and the same last turn.
pub open spec fn says_again(child: UsageSnapshotView, parent: UsageSnapshotView) -> bool {
    child.usage == parent.usage && child.last_token_usage is Some && child.last_token_usage
        == parent.last_token_usage
}

/// Whether the first `len` records of a child say again, one after the other, what the parent's
/// copyable readings say from the one at `at` on.
pub open spec fn is_copy(
    parent: Seq<UsageSnapshotView>,
    parent_places: Seq<int>,
    child: Seq<UsageSnapshotView>,
    child_places: Seq<int>,
    at: int,
    len: int,
) -> bool {
    &&& 0 <= at
    &&& 0 <= len <= child_places.len()
    &&& at + len <= parent_places.len()
    &&& forall|step: int|
        0 <= step < len ==> says_again(
            child[#[trigger] child_places[step]],
            parent[parent_places[at + step]],
        )
}

/// Whether a copy of so many readings is believed: two are enough, and one where the parent has no
/// other that can have been copied.
pub open spec fn is_believed(parent_places: Seq<int>, len: int) -> bool {
    len >= 2 || (len == 1 && parent_places.len() == 1)
}

proof fn rising_lists_are_equal(left: Seq<int>, right: Seq<int>)
    requires
        is_rising(left),
        is_rising(right),
        forall|place: int| #[trigger] left.contains(place) <==> right.contains(place),
    ensures
        left == right,
    decreases left.len(),
{
    if left.len() == 0 {
        if right.len() > 0 {
            assert(right.contains(right[0]));
            assert(left.contains(right[0]));
        }
        assert(left =~= right);
    } else {
        assert(left.contains(left.last()));
        assert(right.contains(left.last()));
        assert(right.contains(right.last()));
        assert(left.contains(right.last()));
        let other = choose|place: int| 0 <= place < left.len() && left[place] == right.last();
        let one = choose|place: int| 0 <= place < right.len() && right[place] == left.last();
        assert(left.last() == right.last());
        let shorter_left = left.drop_last();
        let shorter_right = right.drop_last();
        assert forall|place: int| #[trigger]
            shorter_left.contains(place) <==> shorter_right.contains(place) by {
            if shorter_left.contains(place) {
                let index = choose|index: int|
                    0 <= index < shorter_left.len() && shorter_left[index] == place;
                assert(left[index] == place);
                assert(left.contains(place));
                let found = choose|index: int| 0 <= index < right.len() && right[index] == place;
                assert(shorter_right[found] == place);
            }
            if shorter_right.contains(place) {
                let index = choose|index: int|
                    0 <= index < shorter_right.len() && shorter_right[index] == place;
                assert(right[index] == place);
                assert(right.contains(place));
                assert(left.contains(place));
                let found = choose|index: int| 0 <= index < left.len() && left[index] == place;
                assert(shorter_left[found] == place);
            }
        }
        rising_lists_are_equal(shorter_left, shorter_right);
        assert(left =~= shorter_left.push(left.last()));
        assert(right =~= shorter_right.push(right.last()));
    }
}

proof fn canonical_lists_records(snapshots: Seq<UsageSnapshotView>, end: int)
    requires
        0 <= end <= snapshots.len(),
    ensures
        is_rising(canonical_places(snapshots, end)),
        forall|place: int|
            canonical_places(snapshots, end).contains(place) <==> #[trigger] counts_at(
                snapshots,
                0,
                None,
                place,
            ) && place < end,
    decreases end,
{
    let places = canonical_places(snapshots, end);
    if end > 0 {
        canonical_lists_records(snapshots, end - 1);
        let earlier = canonical_places(snapshots, end - 1);
        high_water_is_that_of_counting(snapshots, 0, end - 1, None);
        assert(snapshots.take(end - 1) =~= snapshots.subrange(0, end - 1));
        assert forall|index: int| 0 <= index < earlier.len() implies #[trigger] earlier[index] < end
            - 1 by {
            assert(earlier.contains(earlier[index]));
            assert(counts_at(snapshots, 0, None, earlier[index]));
        }
        assert forall|place: int| places.contains(place) <==> #[trigger] counts_at(
            snapshots,
            0,
            None,
            place,
        ) && place < end by {
            if places.contains(place) {
                let index = choose|index: int| 0 <= index < places.len() && places[index] == place;
                if index < earlier.len() {
                    assert(earlier[index] == place);
                    assert(earlier.contains(place));
                }
            }
            if counts_at(snapshots, 0, None, place) && place < end {
                if place < end - 1 {
                    assert(earlier.contains(place));
                    let index = choose|index: int|
                        0 <= index < earlier.len() && earlier[index] == place;
                    assert(places[index] == place);
                } else {
                    assert(places[earlier.len() as int] == place);
                }
            }
        }
    } else {
        assert(places =~= Seq::empty());
    }
}

/// The canonical readings of a log are, in order, those whose total exceeds every total before
/// them, and no others.
pub proof fn canonical_readings_are_records(snapshots: Seq<UsageSnapshotView>)
    ensures
        lists_records(canonical(snapshots), snapshots),
        forall|places: Seq<int>| #[trigger]
            lists_records(places, snapshots) ==> places == canonical(snapshots),
{
    let own = canonical(snapshots);
    canonical_lists_records(snapshots, snapshots.len() as int);
    assert(lists_records(own, snapshots));
    assert forall|places: Seq<int>| #[trigger] lists_records(places, snapshots) implies places
        == own by {
        assert forall|place: int| #[trigger] places.contains(place) <==> own.contains(place) by {
            assert(own.contains(place) <==> counts_at(snapshots, 0, None, place));
            assert(places.contains(place) <==> counts_at(snapshots, 0, None, place));
        }
        rising_lists_are_equal(places, own);
    }
}

/// The places of the first `end` canonical readings of a parent that are not after the fork.
spec fn copyable_places(parent: Seq<UsageSnapshotView>, fork: Instant, end: int) -> Seq<int>
    decreases end,
{
    if end <= 0 {
        Seq::empty()
    } else {
        let earlier = copyable_places(parent, fork, end - 1);
        let place = canonical(parent)[end - 1];
        if is_before_fork(parent[place], fork) {
            earlier.push(place)
        } else {
            earlier
        }
    }
}

spec fn keys_at(snapshots: Seq<UsageSnapshotView>, places: Seq<int>) -> Seq<Option<ReplayKey>> {
    places.map_values(|place: int| key_of(snapshots[place]))
}

proof fn copyable_places_are_listed(parent: Seq<UsageSnapshotView>, fork: Instant, end: int)
    requires
        0 <= end <= canonical(parent).len(),
    ensures
        is_rising(copyable_places(parent, fork, end)),
        forall|place: int|
            copyable_places(parent, fork, end).contains(place) <==> #[trigger] canonical(
                parent,
            ).take(end).contains(place) && is_before_fork(parent[place], fork),
        eligible_keys(parent, fork, end) == keys_at(parent, copyable_places(parent, fork, end)),
    decreases end,
{
    let places = copyable_places(parent, fork, end);
    let own = canonical(parent);
    if end > 0 {
        copyable_places_are_listed(parent, fork, end - 1);
        canonical_readings_are_records(parent);
        let earlier = copyable_places(parent, fork, end - 1);
        let last = own[end - 1];
        let front = own.take(end - 1);
        let whole = own.take(end);
        assert forall|index: int| 0 <= index < earlier.len() implies #[trigger] earlier[index]
            < last by {
            assert(earlier.contains(earlier[index]));
            assert(front.contains(earlier[index]));
            let found = choose|found: int|
                0 <= found < end - 1 && front[found] == earlier[index];
            assert(own[found] == earlier[index]);
        }
        assert forall|place: int| places.contains(place) <==> #[trigger] whole.contains(
            place,
        ) && is_before_fork(parent[place], fork) by {
            if places.contains(place) {
                let index = choose|index: int| 0 <= index < places.len() && places[index] == place;
                if index < earlier.len() {
                    assert(earlier[index] == place);
                    assert(earlier.contains(place));
                    assert(front.contains(place));
                    let found = choose|found: int|
                        0 <= found < end - 1 && front[found] == place;
                    assert(whole[found] == place);
                } else {
                    assert(whole[end - 1] == place);
                }
            }
            if whole.contains(place) && is_before_fork(parent[place], fork) {
                let found = choose|found: int| 0 <= found < end && whole[found] == place;
                if found < end - 1 {
                    assert(front[found] == place);
                    assert(front.contains(place));
                    assert(earlier.contains(place));
                    let index = choose|index: int|
                        0 <= index < earlier.len() && earlier[index] == place;
                    assert(places[index] == place);
                } else {
                    assert(places[earlier.len() as int] == place);
                }
            }
        }
        assert(eligible(parent[last], fork) == is_before_fork(parent[last], fork));
        assert(eligible_keys(parent, fork, end) =~= keys_at(parent, places));
    } else {
        assert(eligible_keys(parent, fork, end) =~= keys_at(parent, places));
    }
}

proof fn parent_keys_are_of(places: Seq<int>, parent: Seq<UsageSnapshotView>, fork: Instant)
    requires
        lists_copyable(places, parent, fork),
    ensures
        parent_keys(parent, fork) == keys_at(parent, places),
{
    let own = canonical(parent);
    let listed = copyable_places(parent, fork, own.len() as int);
    canonical_readings_are_records(parent);
    copyable_places_are_listed(parent, fork, own.len() as int);
    assert(own.take(own.len() as int) =~= own);
    assert forall|place: int| #[trigger] places.contains(place) <==> listed.contains(place) by {
        assert(own.take(own.len() as int).contains(place) <==> counts_at(parent, 0, None, place));
        assert(places.contains(place) <==> can_be_copied(parent, fork, place));
    }
    rising_lists_are_equal(places, listed);
}

proof fn leading_keys_are_there(keys: Seq<Option<ReplayKey>>, end: int)
    requires
        0 <= end <= keys.len(),
    ensures
        0 <= leading_count(keys, end) <= end,
        forall|rank: int| 0 <= rank < leading_count(keys, end) ==> (#[trigger] keys[rank]) is Some,
    decreases end,
{
    if end > 0 {
        leading_keys_are_there(keys, end - 1);
    }
}

proof fn present_keys_lead(keys: Seq<Option<ReplayKey>>, count: int, end: int)
    requires
        0 <= count <= end <= keys.len(),
        forall|rank: int| 0 <= rank < count ==> (#[trigger] keys[rank]) is Some,
    ensures
        count <= leading_count(keys, end),
    decreases end,
{
    if end > 0 {
        if count == end {
            present_keys_lead(keys, count - 1, end - 1);
            leading_keys_are_there(keys, end - 1);
        } else {
            present_keys_lead(keys, count, end - 1);
        }
    }
}

proof fn longest_prefix_is_no_shorter(
    pattern: Seq<ReplayKey>,
    keys: Seq<Option<ReplayKey>>,
    bound: int,
    len: int,
)
    requires
        0 <= len <= bound,
        prefix_occurs(pattern, len, keys),
    ensures
        len <= longest_prefix(pattern, keys, bound) <= bound,
    decreases bound,
{
    if bound > len {
        longest_prefix_is_no_shorter(pattern, keys, bound - 1, len);
    }
}

proof fn longest_prefix_occurs(
    pattern: Seq<ReplayKey>,
    keys: Seq<Option<ReplayKey>>,
    bound: int,
)
    requires
        0 <= bound,
    ensures
        longest_prefix(pattern, keys, bound) > 0 ==> prefix_occurs(
            pattern,
            longest_prefix(pattern, keys, bound),
            keys,
        ),
    decreases bound,
{
    if bound > 0 {
        longest_prefix_occurs(pattern, keys, bound - 1);
    }
}

/// A copy is found however long the parent is: where the first records of a child say again, one
/// after the other, what copyable readings of the parent say, at least two of them or the only one
/// that there is, the part that is cut off reaches past the last of them.
pub proof fn copy_is_found(
    parent: Seq<UsageSnapshotView>,
    parent_places: Seq<int>,
    child: Seq<UsageSnapshotView>,
    child_places: Seq<int>,
    fork: Instant,
    at: int,
    len: int,
)
    requires
        lists_copyable(parent_places, parent, fork),
        lists_records(child_places, child),
        is_copy(parent, parent_places, child, child_places, at, len),
        is_believed(parent_places, len),
    ensures
        replay_cutoff(parent, child, Some(fork)) >= child_places[len - 1] + 1,
{
    canonical_readings_are_records(child);
    parent_keys_are_of(parent_places, parent, fork);
    let keys = parent_keys(parent, fork);
    let own = canonical_keys(child);
    let pattern = child_pattern(child);
    assert forall|rank: int| 0 <= rank < len implies (#[trigger] own[rank]) is Some && own[rank]
        == keys[at + rank] by {
        assert(says_again(child[child_places[rank]], parent[parent_places[at + rank]]));
    }
    present_keys_lead(own, len, own.len() as int);
    leading_keys_are_there(own, own.len() as int);
    assert forall|step: int| 0 <= step < len implies keys[at + len - len + step] == Some(
        #[trigger] pattern[step],
    ) by {
        assert(own[step] == keys[at + step]);
    }
    assert(ends_with_prefix(pattern, len, keys, at + len));
    longest_prefix_is_no_shorter(pattern, keys, pattern.len() as int, len);
    let longest = longest_prefix(pattern, keys, pattern.len() as int);
    if longest > len {
        assert(child_places[len - 1] < child_places[longest - 1]);
    }
}

/// Nothing else is cut off: a cut-off part ends at a record of the child, and the child's records
/// up to it say again, one after the other, what copyable readings of the parent say, at least two
/// of them or the only one that there is.
pub proof fn cut_off_part_is_a_copy(
    parent: Seq<UsageSnapshotView>,
    parent_places: Seq<int>,
    child: Seq<UsageSnapshotView>,
    child_places: Seq<int>,
    fork: Instant,
)
    requires
        lists_copyable(parent_places, parent, fork),
        lists_records(child_places, child),
        replay_cutoff(parent, child, Some(fork)) != 0,
    ensures
        exists|at: int, len: int| #[trigger]
            is_copy(parent, parent_places, child, child_places, at, len) && is_believed(
                parent_places,
                len,
            ) && replay_cutoff(parent, child, Some(fork)) == child_places[len - 1] + 1,
{
    canonical_readings_are_records(child);
    parent_keys_are_of(parent_places, parent, fork);
    let keys = parent_keys(parent, fork);
    let own = canonical_keys(child);
    let pattern = child_pattern(child);
    leading_keys_are_there(own, own.len() as int);
    let len = longest_prefix(pattern, keys, pattern.len() as int);
    longest_prefix_occurs(pattern, keys, pattern.len() as int);
    assert(ends_with_prefix(pattern, 0, keys, 0));
    longest_prefix_is_no_shorter(pattern, keys, pattern.len() as int, 0);
    let end = choose|end: int| #[trigger] ends_with_prefix(pattern, len, keys, end);
    assert forall|step: int| 0 <= step < len implies says_again(
        child[#[trigger] child_places[step]],
        parent[parent_places[end - len + step]],
    ) by {
        assert(keys[end - len + step] == Some(pattern[step]));
        assert(own[step] is Some);
    }
    assert(is_copy(parent, parent_places, child, child_places, end - len, len));
}

/// A session that does not say when it forked off inherits nothing.
pub proof fn unknown_fork_moment_cuts_off_nothing(
    parent: Seq<UsageSnapshotView>,
    child: Seq<UsageSnapshotView>,
)
    ensures
        replay_cutoff(parent, child, None) == 0,
{
}

/// Whether a parent's readings all stand to be copied: their totals rise, none is after the fork,
/// each says its last turn.
pub open spec fn is_copyable_throughout(parent: Seq<UsageSnapshotView>, fork: Instant) -> bool {
    forall|place: int|
        0 <= place < parent.len() ==> #[trigger] can_be_copied(parent, fork, place)
            && parent[place].last_token_usage is Some
}

/// Whether a child starts with a copy of all of its parent's readings. The copies may be of
/// another time.
pub open spec fn starts_with_copy(
    child: Seq<UsageSnapshotView>,
    parent: Seq<UsageSnapshotView>,
) -> bool {
    parent.len() <= child.len() && forall|place: int|
        0 <= place < parent.len() ==> says_again(#[trigger] child[place], parent[place])
}

proof fn rising_list_starts_at_zero(places: Seq<int>, count: int)
    requires
        is_rising(places),
        forall|index: int| 0 <= index < places.len() ==> #[trigger] places[index] >= 0,
        forall|place: int| 0 <= place < count ==> #[trigger] places.contains(place),
        0 <= count,
    ensures
        count <= places.len(),
        forall|index: int| 0 <= index < count ==> #[trigger] places[index] == index,
    decreases count,
{
    if count > 0 {
        rising_list_starts_at_zero(places, count - 1);
        assert(places.contains(count - 1));
        let index = choose|index: int| 0 <= index < places.len() && places[index] == count - 1;
        if index < count - 1 {
            assert(places[index] == index);
        } else if index > count - 1 {
            assert(places[count - 1] < places[index]);
            if count > 1 {
                assert(places[count - 2] < places[count - 1]);
            }
        }
    }
}

/// A fork that starts with all the readings of its parent inherits exactly these, whether the
/// parent has one or any number of them.
pub proof fn whole_copy_is_cut_off(
    parent: Seq<UsageSnapshotView>,
    child: Seq<UsageSnapshotView>,
    fork: Instant,
)
    requires
        is_copyable_throughout(parent, fork),
        starts_with_copy(child, parent),
    ensures
        replay_cutoff(parent, child, Some(fork)) == parent.len(),
{
    let count = parent.len() as int;
    let parent_places = Seq::new(parent.len(), |place: int| place);
    assert(lists_copyable(parent_places, parent, fork)) by {
        assert forall|place: int| parent_places.contains(place) <==> #[trigger] can_be_copied(
            parent,
            fork,
            place,
        ) by {
            if 0 <= place < count {
                assert(parent_places[place] == place);
            }
        }
    }
    let child_places = canonical(child);
    canonical_readings_are_records(child);
    assert forall|place: int| 0 <= place < count implies #[trigger] child_places.contains(
        place,
    ) by {
        assert(can_be_copied(parent, fork, place));
        assert(says_again(child[place], parent[place]));
        assert forall|earlier: int| 0 <= earlier < place implies (
        #[trigger] child[earlier]).usage.total_tokens < child[place].usage.total_tokens by {
            assert(says_again(child[earlier], parent[earlier]));
            assert(parent[earlier].usage.total_tokens < parent[place].usage.total_tokens);
        }
        assert(counts_at(child, 0, None, place));
    }
    assert forall|index: int| 0 <= index < child_places.len() implies #[trigger] child_places[index]
        >= 0 by {
        assert(child_places.contains(child_places[index]));
        assert(counts_at(child, 0, None, child_places[index]));
    }
    rising_list_starts_at_zero(child_places, count);
    assert forall|step: int| 0 <= step < count implies says_again(
        child[#[trigger] child_places[step]],
        parent[parent_places[0 + step]],
    ) by {
        assert(child_places[step] == step);
        assert(says_again(child[step], parent[step]));
    }
    if count > 0 {
        copy_is_found(parent, parent_places, child, child_places, fork, 0, count);
    }
    if replay_cutoff(parent, child, Some(fork)) != 0 {
        cut_off_part_is_a_copy(parent, parent_places, child, child_places, fork);
        let (at, len) = choose|at: int, len: int| #[trigger]
            is_copy(parent, parent_places, child, child_places, at, len) && is_believed(
                parent_places,
                len,
            ) && replay_cutoff(parent, child, Some(fork)) == child_places[len - 1] + 1;
        assert(len <= count);
        assert(child_places[len - 1] == len - 1);
    }
}

/// What a parent was billed for is not billed again: of a fork that starts with all the readings of
/// its parent, each count is billed by what its last counting reading says beyond the parent's
/// last.
pub proof fn fork_is_billed_beyond_its_parent(
    parent: Seq<UsageSnapshotView>,
    child: Seq<UsageSnapshotView>,
    fork: Instant,
    count: Count,
    last: int,
)
    requires
        parent.len() > 0,
        is_copyable_throughout(parent, fork),
        starts_with_copy(child, parent),
        never_falls(child, parent.len() as int, Some(parent.last().usage), count),
        is_last_counting(
            child,
            parent.len() as int,
            Some(parent.last().usage),
            last,
            child.len() as int,
        ),
    ensures
        billed_count(
            usage_plan(
                ParsedSessionMode::Full,
                child,
                replay_cutoff(parent, child, Some(fork)),
                true,
            ),
            count,
        ) == counted(child[last].usage, count) - counted(parent.last().usage, count),
{
    whole_copy_is_cut_off(parent, child, fork);
    assert(says_again(child[parent.len() - 1], parent[parent.len() - 1]));
    full_import_adds_up(
        child,
        parent.len() as int,
        true,
        count,
        Some(parent.last().usage),
        last,
    );
}

} // verus!
