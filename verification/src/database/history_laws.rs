//! What a history of rate-limit samples keeps, and what it leaves out.

use super::rate_limit_samples::{
    added_points, appended_history, compacted_run, latest_after, points_after, shares_point,
    supersedes, turning_points, without_repeats, ParsedSampleView,
};
use vstd::prelude::*;

verus! {

/// Whether something differs between two samples of a window: its start, its end, or a share.
pub open spec fn differs(left: ParsedSampleView, right: ParsedSampleView) -> bool {
    left.window_start_ms != right.window_start_ms || left.resets_at_ms != right.resets_at_ms
        || left.used_percent != right.used_percent || left.remaining_percent
        != right.remaining_percent
}

/// Whether two samples are of the same source, session and bucket.
pub open spec fn has_same_owner(left: ParsedSampleView, right: ParsedSampleView) -> bool {
    left.source_kind == right.source_kind && left.source_session_id == right.source_session_id
        && left.bucket == right.bucket
}

/// Whether a history cannot tell two samples apart: they are of the same owner, time, limit, plan
/// and window, and say the same shares.
pub open spec fn is_same_point(left: ParsedSampleView, right: ParsedSampleView) -> bool {
    has_same_owner(left, right) && left.sample_timestamp_ms == right.sample_timestamp_ms
        && left.limit_id == right.limit_id && left.limit_name == right.limit_name
        && left.plan_type == right.plan_type && !differs(left, right)
}

/// Whether `kept` are, in order, the samples of a run at these places.
pub open spec fn is_at_places(
    kept: Seq<ParsedSampleView>,
    run: Seq<ParsedSampleView>,
    places: Seq<int>,
    end: int,
) -> bool {
    &&& kept.len() == places.len()
    &&& forall|left: int, right: int|
        0 <= left < right < places.len() ==> #[trigger] places[left] < #[trigger] places[right]
    &&& forall|index: int|
        0 <= index < places.len() ==> 0 <= #[trigger] places[index] < end && kept[index]
            == run[places[index]]
}

/// Whether the sample at a place of a run is the first, or one at which something changed.
pub open spec fn is_turn(run: Seq<ParsedSampleView>, place: int) -> bool {
    place == 0 || differs(run[place - 1], run[place])
}

/// Whether `places` are all the places of a run, below `end`, that are turns.
pub open spec fn lists_turns(run: Seq<ParsedSampleView>, places: Seq<int>, end: int) -> bool {
    forall|place: int|
        0 <= place < end ==> (places.contains(place) <==> #[trigger] is_turn(run, place))
}

proof fn turning_points_are_turns(run: Seq<ParsedSampleView>, end: int) -> (places: Seq<int>)
    requires
        0 <= end <= run.len(),
    ensures
        is_at_places(turning_points(run, end), run, places, end),
        lists_turns(run, places, end),
        end > 0 ==> places.len() > 0,
    decreases end,
{
    if end <= 0 {
        Seq::empty()
    } else {
        let earlier = turning_points_are_turns(run, end - 1);
        if is_turn(run, end - 1) {
            let places = earlier.push(end - 1);
            assert forall|place: int| 0 <= place < end implies (places.contains(place)
                <==> #[trigger] is_turn(run, place)) by {
                if place == end - 1 {
                    assert(places[earlier.len() as int] == place);
                } else {
                    assert(earlier.contains(place) <==> is_turn(run, place));
                    if earlier.contains(place) {
                        let index = choose|index: int|
                            0 <= index < earlier.len() && earlier[index] == place;
                        assert(places[index] == place);
                    }
                    if places.contains(place) {
                        let index = choose|index: int|
                            0 <= index < places.len() && places[index] == place;
                        assert(earlier[index] == place);
                    }
                }
            }
            places
        } else {
            assert forall|place: int| 0 <= place < end implies (earlier.contains(place)
                <==> #[trigger] is_turn(run, place)) by {
                if place == end - 1 {
                    if earlier.contains(place) {
                        let index = choose|index: int|
                            0 <= index < earlier.len() && earlier[index] == place;
                        assert(earlier[index] < end - 1);
                    }
                }
            }
            earlier
        }
    }
}

/// A reduced run keeps, in order, its first sample, every sample at which something changed, and
/// its last; the last is left out only where it is the same point as the one kept before it.
/// Nothing else is kept.
pub proof fn reduced_run_keeps_turns(run: Seq<ParsedSampleView>)
    requires
        run.len() > 0,
    ensures
        exists|places: Seq<int>| #[trigger]
            lists_turns(run, places, run.len() as int) && {
                ||| is_at_places(compacted_run(run), run, places, run.len() as int)
                    && is_same_point(compacted_run(run).last(), run.last())
                ||| is_at_places(compacted_run(run).drop_last(), run, places, run.len() as int)
                    && compacted_run(run).len() > 0 && compacted_run(run).last() == run.last()
                    && !is_same_point(compacted_run(run).drop_last().last(), run.last())
            },
{
    let places = turning_points_are_turns(run, run.len() as int);
    let points = turning_points(run, run.len() as int);
    let reduced = compacted_run(run);
    if reduced != points {
        assert(reduced.drop_last() =~= points);
    }
    assert(is_at_places(points, run, places, run.len() as int));
}

/// Whether something says at a place of a run what the sample there says of its window.
pub open spec fn is_known_at(
    points: Seq<ParsedSampleView>,
    run: Seq<ParsedSampleView>,
    place: int,
) -> bool {
    exists|index: int|
        0 <= index < points.len() && !differs(#[trigger] points[index], run[place]) && exists|
            source: int,
        |
            0 <= source <= place && #[trigger] run[source] == points[index]
}

/// A reduced run still says, for the time of every sample of the run, what that sample said: the
/// last point kept until then.
pub proof fn reduced_run_says_all(run: Seq<ParsedSampleView>, place: int)
    requires
        0 <= place < run.len(),
    ensures
        is_known_at(compacted_run(run), run, place),
    decreases place,
{
    let places = turning_points_are_turns(run, run.len() as int);
    let points = turning_points(run, run.len() as int);
    let reduced = compacted_run(run);
    if is_turn(run, place) {
        assert(places.contains(place));
        let index = choose|index: int| 0 <= index < places.len() && places[index] == place;
        assert(points[index] == run[place]);
        assert(reduced[index] == points[index]);
        assert(run[place] == reduced[index]);
    } else {
        reduced_run_says_all(run, place - 1);
        let index = choose|index: int|
            0 <= index < reduced.len() && !differs(#[trigger] reduced[index], run[place - 1])
                && exists|source: int|
                0 <= source <= place - 1 && #[trigger] run[source] == reduced[index];
        let source = choose|source: int|
            0 <= source <= place - 1 && #[trigger] run[source] == reduced[index];
        assert(run[source] == reduced[index]);
        assert(!differs(reduced[index], run[place]));
    }
}

/// What one sample adds to a history: itself, where nothing was known before. One that is older
/// than what is known adds nothing and changes nothing. Where its window is another one, the last
/// of the old window is added before it; where only a share changed, it alone is added; and a
/// repetition adds nothing, though it becomes the newest.
pub proof fn one_sample_is_appended(known: Option<ParsedSampleView>, sample: ParsedSampleView)
    ensures
        ({
            let added = appended_history(known, seq![sample]);
            let latest = latest_after(known, seq![sample], 1);
            match known {
                None => added == seq![sample] && latest == Some(sample),
                Some(newest) => {
                    let moved = newest.window_start_ms != sample.window_start_ms
                        || newest.resets_at_ms != sample.resets_at_ms;
                    let changed = newest.used_percent != sample.used_percent
                        || newest.remaining_percent != sample.remaining_percent;
                    if sample.sample_timestamp_ms < newest.sample_timestamp_ms {
                        added.len() == 0 && latest == Some(newest)
                    } else if moved {
                        added == seq![newest, sample] && latest == Some(sample)
                    } else if changed {
                        added == seq![sample] && latest == Some(sample)
                    } else {
                        added.len() == 0 && latest == Some(sample)
                    }
                },
            }
        }),
{
    let run = seq![sample];
    assert(latest_after(known, run, 0) == known);
    assert(points_after(known, run, 0) =~= Seq::<ParsedSampleView>::empty());
    let points = points_after(known, run, 1);
    assert(points =~= added_points(known, sample));
    assert(without_repeats(points, 0) =~= Seq::<ParsedSampleView>::empty());
    if points.len() > 0 {
        assert(without_repeats(points, 1) =~= seq![points[0]]);
        if points.len() > 1 {
            assert(without_repeats(points, 2) =~= seq![points[0], points[1]]);
        }
    }
    assert(appended_history(known, run) =~= points);
}

/// Samples that are appended in two steps add what they add in one, and end with the same newest
/// sample.
pub proof fn samples_are_appended_in_steps(
    known: Option<ParsedSampleView>,
    head: Seq<ParsedSampleView>,
    tail: Seq<ParsedSampleView>,
)
    ensures
        ({
            let middle = latest_after(known, head, head.len() as int);
            let whole = head + tail;
            &&& latest_after(known, whole, whole.len() as int) == latest_after(
                middle,
                tail,
                tail.len() as int,
            )
            &&& points_after(known, whole, whole.len() as int) == points_after(
                known,
                head,
                head.len() as int,
            ) + points_after(middle, tail, tail.len() as int)
        }),
{
    appended_head(known, head, tail, head.len() as int);
    appended_tail(known, head, tail, tail.len() as int);
}

proof fn appended_head(
    known: Option<ParsedSampleView>,
    head: Seq<ParsedSampleView>,
    tail: Seq<ParsedSampleView>,
    end: int,
)
    requires
        0 <= end <= head.len(),
    ensures
        latest_after(known, head + tail, end) == latest_after(known, head, end),
        points_after(known, head + tail, end) == points_after(known, head, end),
    decreases end,
{
    if end > 0 {
        appended_head(known, head, tail, end - 1);
    }
}

proof fn appended_tail(
    known: Option<ParsedSampleView>,
    head: Seq<ParsedSampleView>,
    tail: Seq<ParsedSampleView>,
    end: int,
)
    requires
        0 <= end <= tail.len(),
    ensures
        ({
            let middle = latest_after(known, head, head.len() as int);
            &&& latest_after(known, head + tail, head.len() + end) == latest_after(
                middle,
                tail,
                end,
            )
            &&& points_after(known, head + tail, head.len() + end) == points_after(
                known,
                head,
                head.len() as int,
            ) + points_after(middle, tail, end)
        }),
    decreases end,
{
    let middle = latest_after(known, head, head.len() as int);
    let front = points_after(known, head, head.len() as int);
    if end > 0 {
        appended_tail(known, head, tail, end - 1);
        let sample = (head + tail)[head.len() + end - 1];
        assert(sample == tail[end - 1]);
        let added = added_points(latest_after(middle, tail, end - 1), sample);
        assert((front + points_after(middle, tail, end - 1)) + added =~= front + (points_after(
            middle,
            tail,
            end - 1,
        ) + added));
    } else {
        appended_head(known, head, tail, head.len() as int);
        assert(front + points_after(middle, tail, 0) =~= front);
    }
}

/// Whether the sample at a place of a list is not the same point as the one before it.
pub open spec fn is_fresh(samples: Seq<ParsedSampleView>, place: int) -> bool {
    place == 0 || !is_same_point(samples[place - 1], samples[place])
}

/// Whether `places` are all the places of a list, below `end`, that are no repetitions.
pub open spec fn lists_fresh(samples: Seq<ParsedSampleView>, places: Seq<int>, end: int) -> bool {
    forall|place: int|
        0 <= place < end ==> (places.contains(place) <==> #[trigger] is_fresh(samples, place))
}

/// Of samples in a row that are the same point, the first is stored, and of no others is anything
/// left out.
pub proof fn only_repetitions_are_left_out(samples: Seq<ParsedSampleView>, end: int)
    requires
        0 <= end <= samples.len(),
    ensures
        exists|places: Seq<int>| #[trigger]
            is_at_places(without_repeats(samples, end), samples, places, end) && lists_fresh(
                samples,
                places,
                end,
            ) && (end > 0 ==> without_repeats(samples, end).len() > 0 && is_same_point(
                without_repeats(samples, end).last(),
                samples[end - 1],
            )),
    decreases end,
{
    let kept = without_repeats(samples, end);
    if end <= 0 {
        assert(is_at_places(kept, samples, Seq::empty(), end));
    } else {
        only_repetitions_are_left_out(samples, end - 1);
        let earlier = without_repeats(samples, end - 1);
        let places = choose|places: Seq<int>| #[trigger]
            is_at_places(earlier, samples, places, end - 1) && lists_fresh(samples, places, end - 1)
                && (end - 1 > 0 ==> earlier.len() > 0 && is_same_point(
                earlier.last(),
                samples[end - 2],
            ));
        if is_fresh(samples, end - 1) {
            let longer = places.push(end - 1);
            assert forall|place: int| 0 <= place < end implies (longer.contains(place)
                <==> #[trigger] is_fresh(samples, place)) by {
                if place == end - 1 {
                    assert(longer[places.len() as int] == place);
                } else {
                    assert(places.contains(place) <==> is_fresh(samples, place));
                    if places.contains(place) {
                        let index = choose|index: int|
                            0 <= index < places.len() && places[index] == place;
                        assert(longer[index] == place);
                    }
                    if longer.contains(place) {
                        let index = choose|index: int|
                            0 <= index < longer.len() && longer[index] == place;
                        assert(places[index] == place);
                    }
                }
            }
            assert(kept == earlier.push(samples[end - 1]));
            assert(is_at_places(kept, samples, longer, end));
        } else {
            assert(kept == earlier);
            assert forall|place: int| 0 <= place < end implies (places.contains(place)
                <==> #[trigger] is_fresh(samples, place)) by {
                if place == end - 1 {
                    if places.contains(place) {
                        let index = choose|index: int|
                            0 <= index < places.len() && places[index] == place;
                        assert(places[index] < end - 1);
                    }
                }
            }
            assert(is_at_places(kept, samples, places, end));
        }
    }
}

/// What is appended of a run is what its samples add one after the other, without repetitions.
pub proof fn appended_history_is_without_repetitions(
    known: Option<ParsedSampleView>,
    run: Seq<ParsedSampleView>,
)
    ensures
        exists|places: Seq<int>| #[trigger]
            is_at_places(
                appended_history(known, run),
                points_after(known, run, run.len() as int),
                places,
                points_after(known, run, run.len() as int).len() as int,
            ) && lists_fresh(
                points_after(known, run, run.len() as int),
                places,
                points_after(known, run, run.len() as int).len() as int,
            ),
{
    let points = points_after(known, run, run.len() as int);
    let end = points.len() as int;
    only_repetitions_are_left_out(points, end);
    let places = choose|places: Seq<int>| #[trigger]
        is_at_places(without_repeats(points, end), points, places, end) && lists_fresh(
            points,
            places,
            end,
        );
    assert(is_at_places(appended_history(known, run), points, places, end));
}

/// A sample takes the place of the newest stored one of its owner exactly where it is not older and
/// a history can tell them apart.
pub proof fn newest_sample_is_replaced(sample: ParsedSampleView, stored: ParsedSampleView)
    requires
        has_same_owner(sample, stored),
    ensures
        supersedes(sample, stored) <==> sample.sample_timestamp_ms >= stored.sample_timestamp_ms
            && !is_same_point(sample, stored),
        shares_point(sample, stored) <==> is_same_point(sample, stored),
{
}

} // verus!
