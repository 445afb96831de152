//! What holds of rate-limit histories as a whole.

use super::history_laws::{differs, has_same_owner, is_same_point, reduced_run_says_all};
use super::rate_limit_samples::{
    appended_history, changes, comes_before, compacted_run, compacted_runs, first_same_point,
    history_of, in_order, latest_after, newest_samples, order_is_strict, ordered,
    ordered_is_in_order, ordered_keeps_order, points_after, runs, runs_are_filled, shares_owner,
    shares_point, supersedes, turning_points, without_repeats, ParsedSampleView,
};
use crate::text::text_before_is_total;
use vstd::prelude::*;

verus! {

/// No sample takes its own place: writing the newest samples again changes nothing.
pub proof fn sample_does_not_supersede_itself(sample: ParsedSampleView)
    ensures
        !supersedes(sample, sample),
{
}

/// Of two samples at most one takes the other's place, unless they are of the same time.
pub proof fn newer_sample_stays(left: ParsedSampleView, right: ParsedSampleView)
    requires
        left.sample_timestamp_ms != right.sample_timestamp_ms,
    ensures
        supersedes(left, right) <==> left.sample_timestamp_ms > right.sample_timestamp_ms,
        !(supersedes(left, right) && supersedes(right, left)),
{
}

/// Samples that are all older than the newest one that is stored add nothing, and that one stays
/// the newest.
pub proof fn outdated_samples_change_nothing(
    stored: ParsedSampleView,
    run: Seq<ParsedSampleView>,
)
    requires
        forall|index: int|
            0 <= index < run.len() ==> (#[trigger] run[index]).sample_timestamp_ms
                < stored.sample_timestamp_ms,
    ensures
        appended_history(Some(stored), run) == Seq::<ParsedSampleView>::empty(),
        latest_after(Some(stored), run, run.len() as int) == Some(stored),
{
    outdated_prefix_changes_nothing(stored, run, run.len() as int);
    let points = points_after(Some(stored), run, run.len() as int);
    assert(without_repeats(points, points.len() as int) =~= Seq::empty());
}

proof fn outdated_prefix_changes_nothing(
    stored: ParsedSampleView,
    run: Seq<ParsedSampleView>,
    end: int,
)
    requires
        0 <= end <= run.len(),
        forall|index: int|
            0 <= index < run.len() ==> (#[trigger] run[index]).sample_timestamp_ms
                < stored.sample_timestamp_ms,
    ensures
        points_after(Some(stored), run, end) == Seq::<ParsedSampleView>::empty(),
        latest_after(Some(stored), run, end) == Some(stored),
    decreases end,
{
    if end > 0 {
        outdated_prefix_changes_nothing(stored, run, end - 1);
        assert(run[end - 1].sample_timestamp_ms < stored.sample_timestamp_ms);
        assert(points_after(Some(stored), run, end) =~= Seq::empty());
    }
}

/// The newest sample after a run is never older than the stored one nor than any of the run.
pub proof fn latest_is_newest(
    stored: Option<ParsedSampleView>,
    run: Seq<ParsedSampleView>,
    end: int,
)
    requires
        0 <= end <= run.len(),
        stored is Some || end > 0,
    ensures
        latest_after(stored, run, end) is Some,
        stored is Some ==> latest_after(stored, run, end)->0.sample_timestamp_ms
            >= stored->0.sample_timestamp_ms,
        forall|index: int|
            0 <= index < end ==> latest_after(stored, run, end)->0.sample_timestamp_ms >= (
            #[trigger] run[index]).sample_timestamp_ms,
    decreases end,
{
    if end > 0 && (stored is Some || end > 1) {
        latest_is_newest(stored, run, end - 1);
    }
}

/// Whether something changed from the sample before a place to the one at it.
spec fn turns_at(run: Seq<ParsedSampleView>, index: int) -> bool {
    changes(run[index - 1], run[index])
}

/// The turning points of a run start with its first sample; between neighbours something changed,
/// and the last of them says what the last sample of the run says.
proof fn turning_points_turn(run: Seq<ParsedSampleView>, end: int)
    requires
        0 < end <= run.len(),
    ensures
        turning_points(run, end).len() > 0,
        turning_points(run, end)[0] == run[0],
        !changes(turning_points(run, end).last(), run[end - 1]),
        forall|index: int|
            0 < index < turning_points(run, end).len() ==> #[trigger] turns_at(
                turning_points(run, end),
                index,
            ),
    decreases end,
{
    if end > 1 {
        turning_points_turn(run, end - 1);
        let points = turning_points(run, end);
        let earlier = turning_points(run, end - 1);
        assert forall|index: int| 0 < index < points.len() implies #[trigger] turns_at(
            points,
            index,
        ) by {
            if index < earlier.len() {
                assert(turns_at(earlier, index));
                assert(points[index] == earlier[index]);
                assert(points[index - 1] == earlier[index - 1]);
            } else {
                assert(points[index - 1] == earlier.last());
            }
        }
    }
}

/// The turning points of a run are samples of it.
proof fn turning_points_are_samples(run: Seq<ParsedSampleView>, end: int)
    requires
        0 <= end <= run.len(),
    ensures
        forall|index: int|
            0 <= index < turning_points(run, end).len() ==> run.contains(
                #[trigger] turning_points(run, end)[index],
            ),
    decreases end,
{
    if end > 0 {
        turning_points_are_samples(run, end - 1);
        let points = turning_points(run, end);
        let earlier = turning_points(run, end - 1);
        assert forall|index: int| 0 <= index < points.len() implies run.contains(
            #[trigger] points[index],
        ) by {
            if end > 1 && index < earlier.len() {
                assert(points[index] == earlier[index]);
            } else {
                assert(run[end - 1] == points[index]);
            }
        }
    }
}

/// A run in which something changes at every step is all turning points.
proof fn turning_run_is_kept(run: Seq<ParsedSampleView>, end: int)
    requires
        0 < end <= run.len(),
        forall|index: int| 0 < index < end ==> #[trigger] turns_at(run, index),
    ensures
        turning_points(run, end) == run.take(end),
    decreases end,
{
    if end > 1 {
        turning_run_is_kept(run, end - 1);
        assert(turns_at(run, end - 1));
    }
    assert(turning_points(run, end) =~= run.take(end));
}

proof fn turning_points_of_prefix(
    run: Seq<ParsedSampleView>,
    longer: Seq<ParsedSampleView>,
    end: int,
)
    requires
        0 <= end <= run.len() <= longer.len(),
        run == longer.take(run.len() as int),
    ensures
        turning_points(run, end) == turning_points(longer, end),
    decreases end,
{
    if end > 0 {
        turning_points_of_prefix(run, longer, end - 1);
        assert(run[end - 1] == longer[end - 1]);
        assert(run[0] == longer[0]);
        if end > 1 {
            assert(run[end - 2] == longer[end - 2]);
        }
    }
}

/// A reduced run keeps the first and the last sample, as far as a history tells points apart, and
/// reducing it again changes nothing.
pub proof fn reduced_run_stays(run: Seq<ParsedSampleView>)
    requires
        run.len() > 0,
    ensures
        compacted_run(run).len() > 0,
        compacted_run(run)[0] == run[0],
        shares_point(compacted_run(run).last(), run.last()),
        forall|index: int|
            0 <= index < compacted_run(run).len() ==> run.contains(
                #[trigger] compacted_run(run)[index],
            ),
        compacted_run(compacted_run(run)) == compacted_run(run),
{
    let len = run.len() as int;
    turning_points_turn(run, len);
    turning_points_are_samples(run, len);
    let points = turning_points(run, len);
    let reduced = compacted_run(run);
    assert forall|index: int| 0 <= index < reduced.len() implies run.contains(
        #[trigger] reduced[index],
    ) by {
        if index < points.len() {
            assert(reduced[index] == points[index]);
        } else {
            assert(run[len - 1] == reduced[index]);
        }
    }
    turning_run_is_kept(points, points.len() as int);
    assert(points.take(points.len() as int) =~= points);
    if shares_point(points.last(), run.last()) {
        assert(reduced == points);
    } else {
        assert(points =~= reduced.take(points.len() as int));
        turning_points_of_prefix(points, reduced, points.len() as int);
        assert(reduced[points.len() - 1] == points.last());
        assert(turning_points(reduced, reduced.len() as int) == points);
    }
}

/// Whether no sample of `later` comes before one of `earlier`.
spec fn all_follow(earlier: Seq<ParsedSampleView>, later: Seq<ParsedSampleView>) -> bool {
    forall|left: int, right: int|
        0 <= left < earlier.len() && 0 <= right < later.len() ==> !comes_before(
            #[trigger] later[right],
            #[trigger] earlier[left],
        )
}

/// Whether all samples of a run have the owner of its first.
spec fn has_one_owner(run: Seq<ParsedSampleView>) -> bool {
    forall|index: int| 0 <= index < run.len() ==> shares_owner(run[0], #[trigger] run[index])
}

/// Whether groups are what samples in order fall into: each is filled, in order and of one owner,
/// none comes before an earlier one, and neighbours have different owners.
spec fn are_groups(groups: Seq<Seq<ParsedSampleView>>) -> bool {
    &&& runs_are_filled(groups)
    &&& forall|index: int|
        0 <= index < groups.len() ==> in_order(#[trigger] groups[index]) && has_one_owner(
            groups[index],
        )
    &&& forall|left: int, right: int|
        0 <= left < right < groups.len() ==> all_follow(
            #[trigger] groups[left],
            #[trigger] groups[right],
        )
    &&& forall|index: int|
        0 < index < groups.len() ==> #[trigger] owner_changes_at(groups, index)
}

spec fn owner_changes_at(groups: Seq<Seq<ParsedSampleView>>, index: int) -> bool {
    !shares_owner(groups[index - 1][0], groups[index][0])
}

/// Whether every sample of every group is one of `samples`.
spec fn groups_hold(groups: Seq<Seq<ParsedSampleView>>, samples: Seq<ParsedSampleView>) -> bool {
    forall|index: int, place: int|
        0 <= index < groups.len() && 0 <= place < groups[index].len() ==> samples.contains(
            #[trigger] groups[index][place],
        )
}

proof fn last_follows_all(samples: Seq<ParsedSampleView>, group: Seq<ParsedSampleView>)
    requires
        samples.len() > 0,
        in_order(samples),
        forall|place: int|
            0 <= place < group.len() ==> samples.drop_last().contains(#[trigger] group[place]),
    ensures
        all_follow(group, seq![samples.last()]),
{
    assert forall|left: int, right: int|
        0 <= left < group.len() && 0 <= right < seq![samples.last()].len() implies !comes_before(
        #[trigger] seq![samples.last()][right],
        #[trigger] group[left],
    ) by {
        let earlier = samples.drop_last();
        assert(earlier.contains(group[left]));
        let place = choose|place: int| 0 <= place < earlier.len() && earlier[place] == group[left];
        assert(samples[place] == group[left]);
        assert(!comes_before(samples[samples.len() - 1], samples[place]));
    }
}

proof fn runs_are_groups(samples: Seq<ParsedSampleView>)
    requires
        in_order(samples),
    ensures
        are_groups(runs(samples)),
        groups_hold(runs(samples), samples),
        samples.len() > 0 ==> runs(samples).len() > 0,
    decreases samples.len(),
{
    if samples.len() > 0 {
        let shorter = samples.drop_last();
        let last = samples.last();
        assert(in_order(shorter)) by {
            assert forall|left: int, right: int|
                0 <= left < right < shorter.len() implies !comes_before(
                #[trigger] shorter[right],
                #[trigger] shorter[left],
            ) by {
                assert(!comes_before(samples[right], samples[left]));
            }
        }
        runs_are_groups(shorter);
        let earlier = runs(shorter);
        let groups = runs(samples);
        assert forall|index: int| 0 <= index < earlier.len() implies all_follow(
            #[trigger] earlier[index],
            seq![last],
        ) by {
            assert forall|place: int| 0 <= place < earlier[index].len() implies shorter.contains(
                #[trigger] earlier[index][place],
            ) by {}
            last_follows_all(samples, earlier[index]);
        }
        assert forall|value: ParsedSampleView| shorter.contains(value) implies samples.contains(
            value,
        ) by {
            let place = choose|place: int| 0 <= place < shorter.len() && shorter[place] == value;
            assert(samples[place] == value);
        }
        assert(samples.contains(last)) by {
            assert(samples[samples.len() - 1] == last);
        }
        if earlier.len() > 0 && shares_owner(earlier.last()[0], last) {
            let top = earlier.len() - 1;
            let joined = earlier.last().push(last);
            assert(earlier[top].len() > 0);
            assert(joined[0] == earlier[top][0]);
            assert(in_order(joined)) by {
                assert forall|left: int, right: int|
                    0 <= left < right < joined.len() implies !comes_before(
                    #[trigger] joined[right],
                    #[trigger] joined[left],
                ) by {
                    assert(joined[left] == earlier[top][left]);
                    if right < earlier[top].len() {
                        assert(joined[right] == earlier[top][right]);
                    } else {
                        assert(!comes_before(seq![last][0], earlier[top][left]));
                    }
                }
            }
            assert(has_one_owner(joined)) by {
                assert forall|index: int| 0 <= index < joined.len() implies shares_owner(
                    joined[0],
                    #[trigger] joined[index],
                ) by {
                    if index < earlier[top].len() {
                        assert(shares_owner(earlier[top][0], earlier[top][index]));
                    }
                }
            }
            assert forall|left: int, right: int|
                0 <= left < right < groups.len() implies all_follow(
                #[trigger] groups[left],
                #[trigger] groups[right],
            ) by {
                assert(groups[left] == earlier[left]);
                assert(all_follow(earlier[left], earlier[right]));
                assert(all_follow(earlier[left], seq![last]));
                if right == top {
                    assert forall|one: int, other: int|
                        0 <= one < groups[left].len() && 0 <= other
                            < joined.len() implies !comes_before(
                        #[trigger] joined[other],
                        #[trigger] groups[left][one],
                    ) by {
                        if other < earlier[top].len() {
                            assert(!comes_before(earlier[top][other], earlier[left][one]));
                        } else {
                            assert(!comes_before(seq![last][0], earlier[left][one]));
                        }
                    }
                }
            }
            assert forall|index: int| 0 < index < groups.len() implies #[trigger] owner_changes_at(
                groups,
                index,
            ) by {
                assert(owner_changes_at(earlier, index));
                assert(groups[index][0] == earlier[index][0]);
                assert(groups[index - 1] == earlier[index - 1]);
            }
            assert forall|index: int, place: int|
                0 <= index < groups.len() && 0 <= place
                    < groups[index].len() implies samples.contains(
                #[trigger] groups[index][place],
            ) by {
                if index < top || place < earlier[top].len() {
                    assert(shorter.contains(earlier[index][place]));
                }
            }
        } else {
            let alone = seq![last];
            assert(groups == earlier.push(alone));
            assert(in_order(alone));
            assert forall|left: int, right: int|
                0 <= left < right < groups.len() implies all_follow(
                #[trigger] groups[left],
                #[trigger] groups[right],
            ) by {
                assert(groups[left] == earlier[left]);
                if right < earlier.len() {
                    assert(groups[right] == earlier[right]);
                    assert(all_follow(earlier[left], earlier[right]));
                } else {
                    assert(all_follow(earlier[left], alone));
                }
            }
            assert forall|index: int| 0 < index < groups.len() implies #[trigger] owner_changes_at(
                groups,
                index,
            ) by {
                if index < earlier.len() {
                    assert(owner_changes_at(earlier, index));
                    assert(groups[index] == earlier[index]);
                }
                assert(groups[index - 1] == earlier[index - 1]);
            }
            assert forall|index: int, place: int|
                0 <= index < groups.len() && 0 <= place
                    < groups[index].len() implies samples.contains(
                #[trigger] groups[index][place],
            ) by {
                if index < earlier.len() {
                    assert(shorter.contains(earlier[index][place]));
                }
            }
        }
    }
}

/// Each run, reduced.
spec fn reduced_runs(groups: Seq<Seq<ParsedSampleView>>) -> Seq<Seq<ParsedSampleView>> {
    groups.map_values(|run: Seq<ParsedSampleView>| compacted_run(run))
}

proof fn turning_points_stay_in_order(run: Seq<ParsedSampleView>, end: int)
    requires
        in_order(run),
        0 <= end <= run.len(),
    ensures
        in_order(turning_points(run, end)),
        forall|later: int, index: int|
            end <= later < run.len() && 0 <= index < turning_points(run, end).len()
                ==> !comes_before(
                #[trigger] run[later],
                #[trigger] turning_points(run, end)[index],
            ),
    decreases end,
{
    if end > 0 {
        turning_points_stay_in_order(run, end - 1);
        let points = turning_points(run, end);
        let earlier = turning_points(run, end - 1);
        assert forall|later: int, index: int|
            end <= later < run.len() && 0 <= index < points.len() implies !comes_before(
            #[trigger] run[later],
            #[trigger] points[index],
        ) by {
            if end > 1 && index < earlier.len() {
                assert(points[index] == earlier[index]);
            } else {
                assert(points[index] == run[end - 1]);
            }
        }
        assert forall|left: int, right: int| 0 <= left < right < points.len() implies !comes_before(
            #[trigger] points[right],
            #[trigger] points[left],
        ) by {
            if end > 1 {
                assert(points[left] == earlier[left]);
                if right < earlier.len() {
                    assert(points[right] == earlier[right]);
                } else {
                    assert(points[right] == run[end - 1]);
                }
            }
        }
    }
}

proof fn reduced_run_stays_in_order(run: Seq<ParsedSampleView>)
    requires
        in_order(run),
        run.len() > 0,
    ensures
        in_order(compacted_run(run)),
{
    let len = run.len() as int;
    let points = turning_points(run, len);
    let reduced = compacted_run(run);
    turning_points_stay_in_order(run, len);
    turning_points_turn(run, len);
    if reduced != points {
        turning_points_stay_in_order(run, len - 1);
        let earlier = turning_points(run, len - 1);
        order_is_strict(run[len - 1], run[len - 1]);
        assert forall|left: int, right: int|
            0 <= left < right < reduced.len() implies !comes_before(
            #[trigger] reduced[right],
            #[trigger] reduced[left],
        ) by {
            assert(reduced[left] == points[left]);
            if right < points.len() {
                assert(reduced[right] == points[right]);
            } else {
                assert(reduced[right] == run[len - 1]);
                if left < earlier.len() {
                    assert(points[left] == earlier[left]);
                } else {
                    assert(points[left] == run[len - 1]);
                }
            }
        }
    }
}

proof fn reduced_runs_are_groups(groups: Seq<Seq<ParsedSampleView>>)
    requires
        are_groups(groups),
    ensures
        are_groups(reduced_runs(groups)),
{
    let reduced = reduced_runs(groups);
    assert forall|index: int| 0 <= index < reduced.len() implies (#[trigger] reduced[index]).len()
        > 0 && in_order(reduced[index]) && has_one_owner(reduced[index]) by {
        let run = groups[index];
        assert(run.len() > 0);
        assert(in_order(run) && has_one_owner(run));
        reduced_run_stays(run);
        reduced_run_stays_in_order(run);
        assert forall|place: int| 0 <= place < reduced[index].len() implies shares_owner(
            reduced[index][0],
            #[trigger] reduced[index][place],
        ) by {
            let value = compacted_run(run)[place];
            assert(run.contains(value));
            let source = choose|source: int| 0 <= source < run.len() && run[source] == value;
            assert(shares_owner(run[0], run[source]));
        }
    }
    assert forall|left: int, right: int| 0 <= left < right < reduced.len() implies all_follow(
        #[trigger] reduced[left],
        #[trigger] reduced[right],
    ) by {
        let one = groups[left];
        let other = groups[right];
        assert(one.len() > 0 && other.len() > 0);
        assert(all_follow(one, other));
        reduced_run_stays(one);
        reduced_run_stays(other);
        assert forall|first: int, second: int|
            0 <= first < reduced[left].len() && 0 <= second
                < reduced[right].len() implies !comes_before(
            #[trigger] reduced[right][second],
            #[trigger] reduced[left][first],
        ) by {
            let early = compacted_run(one)[first];
            let late = compacted_run(other)[second];
            assert(one.contains(early) && other.contains(late));
            let early_place = choose|place: int| 0 <= place < one.len() && one[place] == early;
            let late_place = choose|place: int| 0 <= place < other.len() && other[place] == late;
            assert(!comes_before(other[late_place], one[early_place]));
        }
    }
    assert forall|index: int| 0 < index < reduced.len() implies #[trigger] owner_changes_at(
        reduced,
        index,
    ) by {
        assert(owner_changes_at(groups, index));
        assert(groups[index].len() > 0 && groups[index - 1].len() > 0);
        reduced_run_stays(groups[index]);
        reduced_run_stays(groups[index - 1]);
    }
}

/// The first `end` groups, one after the other.
spec fn joined(groups: Seq<Seq<ParsedSampleView>>, end: int) -> Seq<ParsedSampleView>
    decreases end,
{
    if end <= 0 {
        Seq::empty()
    } else {
        joined(groups, end - 1) + groups[end - 1]
    }
}

proof fn joined_groups_are_in_order(groups: Seq<Seq<ParsedSampleView>>, end: int)
    requires
        are_groups(groups),
        0 <= end <= groups.len(),
    ensures
        in_order(joined(groups, end)),
        forall|index: int|
            end <= index < groups.len() ==> all_follow(
                joined(groups, end),
                #[trigger] groups[index],
            ),
    decreases end,
{
    if end > 0 {
        joined_groups_are_in_order(groups, end - 1);
        let front = joined(groups, end - 1);
        let back = groups[end - 1];
        let whole = joined(groups, end);
        assert(in_order(back));
        assert(all_follow(front, back));
        assert forall|left: int, right: int| 0 <= left < right < whole.len() implies !comes_before(
            #[trigger] whole[right],
            #[trigger] whole[left],
        ) by {
            if right < front.len() {
                assert(whole[left] == front[left] && whole[right] == front[right]);
            } else if left < front.len() {
                assert(whole[left] == front[left]);
                assert(whole[right] == back[right - front.len()]);
            } else {
                assert(whole[left] == back[left - front.len()]);
                assert(whole[right] == back[right - front.len()]);
            }
        }
        assert forall|index: int| end <= index < groups.len() implies all_follow(
            whole,
            #[trigger] groups[index],
        ) by {
            assert(all_follow(front, groups[index]));
            assert(all_follow(back, groups[index]));
            assert forall|left: int, right: int|
                0 <= left < whole.len() && 0 <= right < groups[index].len() implies !comes_before(
                #[trigger] groups[index][right],
                #[trigger] whole[left],
            ) by {
                if left < front.len() {
                    assert(whole[left] == front[left]);
                } else {
                    assert(whole[left] == back[left - front.len()]);
                }
            }
        }
    }
}

proof fn run_is_added(samples: Seq<ParsedSampleView>, run: Seq<ParsedSampleView>, end: int)
    requires
        0 < end <= run.len(),
        has_one_owner(run),
        runs(samples).len() > 0 ==> !shares_owner(runs(samples).last()[0], run[0]),
    ensures
        runs(samples + run.take(end)) == runs(samples).push(run.take(end)),
    decreases end,
{
    let longer = samples + run.take(end);
    assert(longer.drop_last() =~= samples + run.take(end - 1));
    assert(longer.last() == run[end - 1]);
    if end == 1 {
        assert(samples + run.take(0) =~= samples);
        assert(run.take(1) =~= seq![run[0]]);
    } else {
        run_is_added(samples, run, end - 1);
        let earlier = runs(samples).push(run.take(end - 1));
        assert(earlier.last()[0] == run[0]);
        assert(shares_owner(run[0], run[end - 1]));
        assert(run.take(end - 1).push(run[end - 1]) =~= run.take(end));
        assert(earlier.update(earlier.len() - 1, run.take(end)) =~= runs(samples).push(
            run.take(end),
        ));
    }
}

proof fn runs_of_joined_groups(groups: Seq<Seq<ParsedSampleView>>, end: int)
    requires
        are_groups(groups),
        0 <= end <= groups.len(),
    ensures
        runs(joined(groups, end)) == groups.take(end),
    decreases end,
{
    if end > 0 {
        runs_of_joined_groups(groups, end - 1);
        let front = joined(groups, end - 1);
        let back = groups[end - 1];
        assert(back.len() > 0);
        assert(has_one_owner(back));
        if end > 1 {
            assert(owner_changes_at(groups, end - 1));
            assert(runs(front).last() == groups[end - 2]);
        }
        run_is_added(front, back, back.len() as int);
        assert(back.take(back.len() as int) =~= back);
        assert(groups.take(end - 1).push(back) =~= groups.take(end));
    } else {
        assert(groups.take(0) =~= Seq::empty());
    }
}

proof fn compacted_is_joined(groups: Seq<Seq<ParsedSampleView>>, end: int)
    requires
        0 <= end <= groups.len(),
    ensures
        compacted_runs(groups, end) == joined(reduced_runs(groups), end),
    decreases end,
{
    if end > 0 {
        compacted_is_joined(groups, end - 1);
    }
}

proof fn compacted_again(groups: Seq<Seq<ParsedSampleView>>, end: int)
    requires
        runs_are_filled(groups),
        0 <= end <= groups.len(),
    ensures
        compacted_runs(reduced_runs(groups), end) == compacted_runs(groups, end),
    decreases end,
{
    if end > 0 {
        compacted_again(groups, end - 1);
        assert(groups[end - 1].len() > 0);
        reduced_run_stays(groups[end - 1]);
    }
}

/// A history is complete in itself: it is in order, and the history of its own samples is the
/// history. Storing a history again changes nothing.
pub proof fn history_of_history(samples: Seq<ParsedSampleView>)
    ensures
        in_order(history_of(samples)),
        history_of(history_of(samples)) == history_of(samples),
{
    ordered_is_in_order(samples);
    let groups = runs(ordered(samples));
    let count = groups.len() as int;
    runs_are_groups(ordered(samples));
    let reduced = reduced_runs(groups);
    reduced_runs_are_groups(groups);
    compacted_is_joined(groups, count);
    let history = history_of(samples);
    assert(history == joined(reduced, count));
    joined_groups_are_in_order(reduced, count);
    ordered_keeps_order(history);
    runs_of_joined_groups(reduced, count);
    assert(reduced.take(count) =~= reduced);
    compacted_again(groups, count);
}

proof fn joined_holds(groups: Seq<Seq<ParsedSampleView>>, end: int, group: int, place: int)
    requires
        0 <= group < end <= groups.len(),
        0 <= place < groups[group].len(),
    ensures
        joined(groups, end).contains(groups[group][place]),
    decreases end,
{
    let front = joined(groups, end - 1);
    let whole = joined(groups, end);
    let value = groups[group][place];
    if group < end - 1 {
        joined_holds(groups, end - 1, group, place);
        let index = choose|index: int| 0 <= index < front.len() && front[index] == value;
        assert(whole[index] == value);
    } else {
        assert(whole[front.len() + place] == value);
    }
}

proof fn joined_comes_from(
    groups: Seq<Seq<ParsedSampleView>>,
    end: int,
    index: int,
) -> (found: (int, int))
    requires
        0 <= end <= groups.len(),
        0 <= index < joined(groups, end).len(),
    ensures
        0 <= found.0 < end,
        0 <= found.1 < groups[found.0].len(),
        groups[found.0][found.1] == joined(groups, end)[index],
    decreases end,
{
    let front = joined(groups, end - 1);
    if index < front.len() {
        joined_comes_from(groups, end - 1, index)
    } else {
        (end - 1, index - front.len())
    }
}

proof fn runs_hold(samples: Seq<ParsedSampleView>, index: int) -> (found: (int, int))
    requires
        0 <= index < samples.len(),
    ensures
        0 <= found.0 < runs(samples).len(),
        0 <= found.1 < runs(samples)[found.0].len(),
        runs(samples)[found.0][found.1] == samples[index],
    decreases samples.len(),
{
    let shorter = samples.drop_last();
    let earlier = runs(shorter);
    let groups = runs(samples);
    let last = samples.last();
    if index < shorter.len() {
        let found = runs_hold(shorter, index);
        assert(shorter[index] == samples[index]);
        if earlier.len() > 0 && shares_owner(earlier.last()[0], last) {
            if found.0 == earlier.len() - 1 {
                assert(groups[found.0][found.1] == earlier[found.0][found.1]);
            }
        }
        found
    } else {
        let top = groups.len() - 1;
        let found = (top, groups[top].len() - 1);
        if earlier.len() > 0 && shares_owner(earlier.last()[0], last) {
            assert(groups[top] == earlier.last().push(last));
        } else {
            assert(groups[top] == seq![last]);
        }
        found
    }
}

proof fn order_keeps_samples(samples: Seq<ParsedSampleView>, value: ParsedSampleView)
    ensures
        ordered(samples).contains(value) <==> samples.contains(value),
{
    broadcast use vstd::seq_lib::group_to_multiset_ensures;

    ordered_is_in_order(samples);
    assert(ordered(samples).to_multiset().count(value) == samples.to_multiset().count(value));
    assert(ordered(samples).contains(value) <==> ordered(samples).to_multiset().count(value) > 0);
    assert(samples.contains(value) <==> samples.to_multiset().count(value) > 0);
}

/// Whether a history knows of a sample: an entry of the same owner, from the same time or before,
/// says the same of the window and of the shares.
pub open spec fn history_knows(history: Seq<ParsedSampleView>, sample: ParsedSampleView) -> bool {
    exists|index: int|
        0 <= index < history.len() && has_same_owner(#[trigger] history[index], sample) && !differs(
            history[index],
            sample,
        ) && history[index].sample_timestamp_ms <= sample.sample_timestamp_ms
}

/// Whether a history reaches as far as a sample: an entry of the same owner is from the same time
/// or after.
pub open spec fn history_reaches(history: Seq<ParsedSampleView>, sample: ParsedSampleView) -> bool {
    exists|index: int|
        0 <= index < history.len() && has_same_owner(#[trigger] history[index], sample)
            && history[index].sample_timestamp_ms >= sample.sample_timestamp_ms
}

/// A history of samples loses nothing that was observed: whatever a sample said of its window and
/// its shares, an entry of its owner says, from that time or before, and the last observation of
/// each owner is there. Every entry is one of the samples, and those of one owner are in the order
/// of their times.
pub proof fn history_loses_nothing(samples: Seq<ParsedSampleView>, place: int)
    requires
        0 <= place < samples.len(),
    ensures
        history_knows(history_of(samples), samples[place]),
        history_reaches(history_of(samples), samples[place]),
        forall|index: int|
            0 <= index < history_of(samples).len() ==> samples.contains(
                #[trigger] history_of(samples)[index],
            ),
        forall|left: int, right: int|
            0 <= left < right < history_of(samples).len() && has_same_owner(
                #[trigger] history_of(samples)[left],
                #[trigger] history_of(samples)[right],
            ) ==> history_of(samples)[left].sample_timestamp_ms
                <= history_of(samples)[right].sample_timestamp_ms,
{
    let sample = samples[place];
    let sorted = ordered(samples);
    let groups = runs(sorted);
    let history = history_of(samples);
    let reduced = reduced_runs(groups);
    ordered_is_in_order(samples);
    runs_are_groups(sorted);
    compacted_is_joined(groups, groups.len() as int);
    assert(history == joined(reduced, reduced.len() as int));
    assert(samples.contains(sample));
    order_keeps_samples(samples, sample);
    let index = choose|index: int| 0 <= index < sorted.len() && sorted[index] == sample;
    let found = runs_hold(sorted, index);
    let run = groups[found.0];
    assert(in_order(run) && has_one_owner(run));
    assert(shares_owner(run[0], run[found.1]));
    reduced_run_says_all(run, found.1);
    let points = compacted_run(run);
    assert(reduced[found.0] == points);
    let kept = choose|kept: int|
        0 <= kept < points.len() && !differs(#[trigger] points[kept], run[found.1]) && exists|
            source: int,
        |
            0 <= source <= found.1 && #[trigger] run[source] == points[kept];
    let source = choose|source: int|
        0 <= source <= found.1 && #[trigger] run[source] == points[kept];
    assert(shares_owner(run[0], run[source]));
    if source < found.1 {
        assert(!comes_before(run[found.1], run[source]));
    }
    joined_holds(reduced, reduced.len() as int, found.0, kept);
    let known = choose|known: int| 0 <= known < history.len() && history[known] == points[kept];
    assert(has_same_owner(history[known], sample));
    reduced_run_stays(run);
    let last = run.len() - 1;
    assert(shares_owner(run[0], run[last]));
    if found.1 < last {
        assert(!comes_before(run[last], run[found.1]));
    }
    joined_holds(reduced, reduced.len() as int, found.0, points.len() - 1);
    let reached = choose|reached: int|
        0 <= reached < history.len() && history[reached] == points.last();
    assert(has_same_owner(history[reached], sample));
    assert forall|index: int| 0 <= index < history.len() implies samples.contains(
        #[trigger] history[index],
    ) by {
        let origin = joined_comes_from(reduced, reduced.len() as int, index);
        assert(groups[origin.0].len() > 0);
        reduced_run_stays(groups[origin.0]);
        assert(reduced[origin.0] == compacted_run(groups[origin.0]));
        assert(groups[origin.0].contains(history[index]));
        let member = choose|member: int|
            0 <= member < groups[origin.0].len() && groups[origin.0][member] == history[index];
        assert(sorted.contains(groups[origin.0][member]));
        order_keeps_samples(samples, history[index]);
    }
    history_of_history(samples);
    assert forall|left: int, right: int|
        0 <= left < right < history.len() && has_same_owner(
            #[trigger] history[left],
            #[trigger] history[right],
        ) implies history[left].sample_timestamp_ms <= history[right].sample_timestamp_ms by {
        assert(!comes_before(history[right], history[left]));
    }
}

/// Whether one of the newest samples is of the owner of a sample, and is not older.
pub open spec fn newest_covers(newest: Seq<ParsedSampleView>, sample: ParsedSampleView) -> bool {
    exists|index: int|
        0 <= index < newest.len() && has_same_owner(#[trigger] newest[index], sample)
            && newest[index].sample_timestamp_ms >= sample.sample_timestamp_ms
}

proof fn first_same_point_is_that(
    samples: Seq<ParsedSampleView>,
    wanted: ParsedSampleView,
    index: int,
)
    requires
        0 <= index <= samples.len(),
    ensures
        is_same_point(first_same_point(samples, wanted, index), wanted),
        samples.contains(wanted) ==> samples.contains(first_same_point(samples, wanted, index)),
    decreases samples.len() - index,
{
    if index < samples.len() {
        if shares_point(samples[index], wanted) {
            assert(samples.contains(samples[index]));
        } else {
            first_same_point_is_that(samples, wanted, index + 1);
        }
    }
}

/// Of each owner the newest sample is found: every sample has one of its owner that is not older,
/// and each is one of the samples.
pub proof fn newest_samples_are_newest(samples: Seq<ParsedSampleView>, place: int)
    requires
        0 <= place < samples.len(),
    ensures
        newest_covers(newest_samples(samples), samples[place]),
        forall|index: int|
            0 <= index < newest_samples(samples).len() ==> samples.contains(
                #[trigger] newest_samples(samples)[index],
            ),
        forall|index: int|
            0 <= index < newest_samples(samples).len() && has_same_owner(
                #[trigger] newest_samples(samples)[index],
                samples[place],
            ) ==> newest_samples(samples)[index].sample_timestamp_ms
                >= samples[place].sample_timestamp_ms,
{
    let sample = samples[place];
    let sorted = ordered(samples);
    let groups = runs(sorted);
    let newest = newest_samples(samples);
    ordered_is_in_order(samples);
    runs_are_groups(sorted);
    assert(samples.contains(sample));
    order_keeps_samples(samples, sample);
    let index = choose|index: int| 0 <= index < sorted.len() && sorted[index] == sample;
    let found = runs_hold(sorted, index);
    let run = groups[found.0];
    let last = run.len() - 1;
    assert(in_order(run) && has_one_owner(run));
    assert(shares_owner(run[0], run[found.1]));
    assert(shares_owner(run[0], run[last]));
    if found.1 < last {
        assert(!comes_before(run[last], run[found.1]));
    }
    first_same_point_is_that(samples, run.last(), 0);
    assert(has_same_owner(newest[found.0], sample));
    assert forall|index: int| 0 <= index < newest.len() implies samples.contains(
        #[trigger] newest[index],
    ) by {
        let group = groups[index];
        assert(group.len() > 0);
        assert(sorted.contains(groups[index][group.len() - 1]));
        order_keeps_samples(samples, group.last());
        first_same_point_is_that(samples, group.last(), 0);
    }
    assert forall|index: int|
        0 <= index < newest.len() && has_same_owner(
            #[trigger] newest[index],
            sample,
        ) implies newest[index].sample_timestamp_ms >= sample.sample_timestamp_ms by {
        let group = groups[index];
        assert(group.len() > 0);
        first_same_point_is_that(samples, group.last(), 0);
        let top = group.len() - 1;
        assert(in_order(group) && has_one_owner(group));
        if index == found.0 {
        } else if index > found.0 {
            assert(all_follow(run, group));
            assert(!comes_before(group[top], run[found.1]));
        } else {
            groups_have_their_own_owners(groups, index, found.0);
            assert(shares_owner(group[0], group[top]));
        }
    }
}

proof fn groups_have_their_own_owners(groups: Seq<Seq<ParsedSampleView>>, left: int, right: int)
    requires
        are_groups(groups),
        0 <= left < right < groups.len(),
    ensures
        !shares_owner(groups[left][0], groups[right][0]),
    decreases right - left,
{
    let first = groups[left][0];
    let second = groups[left + 1][0];
    let third = groups[right][0];
    assert(groups[left].len() > 0 && groups[left + 1].len() > 0 && groups[right].len() > 0);
    assert(owner_changes_at(groups, left + 1));
    if left + 1 < right {
        groups_have_their_own_owners(groups, left + 1, right);
        assert(all_follow(groups[left], groups[left + 1]));
        assert(all_follow(groups[left + 1], groups[right]));
        assert(!comes_before(groups[left + 1][0], groups[left][0]));
        assert(!comes_before(groups[right][0], groups[left + 1][0]));
        text_before_is_total(first.source_kind, second.source_kind);
        text_before_is_total(second.source_kind, third.source_kind);
        text_before_is_total(first.source_session_id, second.source_session_id);
        text_before_is_total(second.source_session_id, third.source_session_id);
        text_before_is_total(first.bucket, second.bucket);
        text_before_is_total(second.bucket, third.bucket);
    }
}

/// Of each owner there is one newest sample alone.
pub proof fn owners_have_one_newest_sample(
    samples: Seq<ParsedSampleView>,
    left: int,
    right: int,
)
    requires
        0 <= left < right < newest_samples(samples).len(),
    ensures
        !has_same_owner(newest_samples(samples)[left], newest_samples(samples)[right]),
{
    let sorted = ordered(samples);
    let groups = runs(sorted);
    ordered_is_in_order(samples);
    runs_are_groups(sorted);
    groups_have_their_own_owners(groups, left, right);
    let one = groups[left];
    let other = groups[right];
    assert(one.len() > 0 && other.len() > 0);
    assert(has_one_owner(one) && has_one_owner(other));
    assert(shares_owner(one[0], one[one.len() - 1]));
    assert(shares_owner(other[0], other[other.len() - 1]));
    first_same_point_is_that(samples, one.last(), 0);
    first_same_point_is_that(samples, other.last(), 0);
}

} // verus!
