//! What an estimate covers: never less than what the records hold.

use crate::capacity::reserves_opt;
use crate::estimates::{
    capped, is_estimate, reserves_list, reserves_texts, sample_texts, samples_texts, snapshot_texts,
    snapshots_texts, sum_of, value_texts,
};
use crate::models::{RateLimitSampleRecord, UsageSnapshot};
use crate::prepared::PreparedSession;
use crate::replay_cache::{entry_bytes, ParentReplayCacheEntry};
use vstd::layout::size_of as layout_size;
use vstd::prelude::*;
use vstd::utf8::encode_utf8;

verus! {

/// How many bytes a text holds.
pub open spec fn held_by(text: String) -> int {
    encode_utf8(text@).len() as int
}

/// How many bytes an optional text holds.
pub open spec fn held_by_opt(text: Option<String>) -> int {
    match text {
        Some(found) => held_by(found),
        None => 0,
    }
}

/// How many bytes the texts of a list hold.
pub open spec fn held_by_texts(texts: Seq<Option<String>>) -> int
    decreases texts.len(),
{
    if texts.len() == 0 {
        0
    } else {
        held_by_texts(texts.drop_last()) + held_by_opt(texts.last())
    }
}

/// How many bytes the texts of a snapshot hold.
pub open spec fn held_by_snapshot(snapshot: UsageSnapshot) -> int {
    held_by(snapshot.timestamp) + held_by(snapshot.model_id) + held_by_opt(snapshot.plan_type)
        + held_by_opt(snapshot.limit_id) + held_by_opt(snapshot.limit_name)
}

/// How many bytes the texts of a sample hold.
pub open spec fn held_by_sample(sample: RateLimitSampleRecord) -> int {
    held_by(sample.source_kind) + held_by_opt(sample.source_session_id) + held_by(sample.bucket)
        + held_by(sample.sample_timestamp) + held_by_opt(sample.limit_id) + held_by_opt(
        sample.limit_name,
    ) + held_by_opt(sample.plan_type) + held_by(sample.window_start) + held_by(sample.resets_at)
}

/// How many bytes the texts of the first `end` snapshots hold.
pub open spec fn held_by_snapshots(snapshots: Seq<UsageSnapshot>, end: int) -> int
    decreases end,
{
    if end <= 0 {
        0
    } else {
        held_by_snapshots(snapshots, end - 1) + held_by_snapshot(snapshots[end - 1])
    }
}

/// How many bytes the texts of the first `end` samples hold.
pub open spec fn held_by_samples(samples: Seq<RateLimitSampleRecord>, end: int) -> int
    decreases end,
{
    if end <= 0 {
        0
    } else {
        held_by_samples(samples, end - 1) + held_by_sample(samples[end - 1])
    }
}

/// Sizes are added up one by one, in whatever parts they come, and a sum is itself as long as it
/// fits and never more than fits.
pub proof fn sizes_add_up(left: Seq<usize>, right: Seq<usize>, size: usize, sum: int)
    ensures
        sum_of(Seq::empty()) == 0,
        sum_of(seq![size]) == size,
        sum_of(left + right) == sum_of(left) + sum_of(right),
        sum <= usize::MAX ==> capped(sum) == sum,
        sum > usize::MAX ==> capped(sum) == usize::MAX,
    decreases right.len(),
{
    assert(seq![size].drop_last() =~= Seq::empty());
    assert(sum_of(seq![size]) == sum_of(Seq::empty()) + size);
    if right.len() == 0 {
        assert(left + right =~= left);
    } else {
        sizes_add_up(left, right.drop_last(), size, sum);
        assert((left + right).drop_last() =~= left + right.drop_last());
    }
}

proof fn reserved_covers_held(texts: Seq<Option<String>>, reserved: Seq<usize>)
    requires
        reserves_texts(texts, reserved),
    ensures
        0 <= held_by_texts(texts) <= sum_of(reserved),
    decreases texts.len(),
{
    if texts.len() > 0 {
        let fewer = texts.drop_last();
        let less = reserved.drop_last();
        assert forall|index: int|
            0 <= index < fewer.len() implies reserves_opt(
            #[trigger] fewer[index],
            less[index],
        ) by {
            assert(fewer[index] == texts[index]);
        }
        reserved_covers_held(fewer, less);
        assert(reserves_opt(texts[texts.len() - 1], reserved[texts.len() - 1]));
    }
}

proof fn held_by_both(left: Seq<Option<String>>, right: Seq<Option<String>>)
    ensures
        held_by_texts(left + right) == held_by_texts(left) + held_by_texts(right),
    decreases right.len(),
{
    if right.len() == 0 {
        assert(left + right =~= left);
    } else {
        assert((left + right).drop_last() =~= left + right.drop_last());
        held_by_both(left, right.drop_last());
    }
}

proof fn held_by_one_more(texts: Seq<Option<String>>, text: Option<String>)
    ensures
        held_by_texts(texts.push(text)) == held_by_texts(texts) + held_by_opt(text),
{
    assert(texts.push(text).drop_last() =~= texts);
}

proof fn snapshot_texts_hold(snapshot: UsageSnapshot)
    ensures
        held_by_texts(snapshot_texts(snapshot)) == held_by_snapshot(snapshot),
{
    let own = snapshot_texts(snapshot);
    let none = Seq::<Option<String>>::empty();
    let one = none.push(own[0]);
    let two = one.push(own[1]);
    let three = two.push(own[2]);
    let four = three.push(own[3]);
    held_by_one_more(none, own[0]);
    held_by_one_more(one, own[1]);
    held_by_one_more(two, own[2]);
    held_by_one_more(three, own[3]);
    held_by_one_more(four, own[4]);
    assert(own =~= four.push(own[4]));
}

proof fn sample_texts_hold(sample: RateLimitSampleRecord)
    ensures
        held_by_texts(sample_texts(sample)) == held_by_sample(sample),
{
    let own = sample_texts(sample);
    let none = Seq::<Option<String>>::empty();
    let one = none.push(own[0]);
    let two = one.push(own[1]);
    let three = two.push(own[2]);
    let four = three.push(own[3]);
    let five = four.push(own[4]);
    let six = five.push(own[5]);
    let seven = six.push(own[6]);
    let eight = seven.push(own[7]);
    held_by_one_more(none, own[0]);
    held_by_one_more(one, own[1]);
    held_by_one_more(two, own[2]);
    held_by_one_more(three, own[3]);
    held_by_one_more(four, own[4]);
    held_by_one_more(five, own[5]);
    held_by_one_more(six, own[6]);
    held_by_one_more(seven, own[7]);
    held_by_one_more(eight, own[8]);
    assert(own =~= eight.push(own[8]));
}

proof fn snapshots_texts_hold(snapshots: Seq<UsageSnapshot>, end: int)
    ensures
        held_by_texts(snapshots_texts(snapshots, end)) == held_by_snapshots(snapshots, end),
    decreases end,
{
    if end > 0 {
        snapshots_texts_hold(snapshots, end - 1);
        held_by_both(snapshots_texts(snapshots, end - 1), snapshot_texts(snapshots[end - 1]));
        snapshot_texts_hold(snapshots[end - 1]);
    }
}

proof fn samples_texts_hold(samples: Seq<RateLimitSampleRecord>, end: int)
    ensures
        held_by_texts(samples_texts(samples, end)) == held_by_samples(samples, end),
    decreases end,
{
    if end > 0 {
        samples_texts_hold(samples, end - 1);
        held_by_both(samples_texts(samples, end - 1), sample_texts(samples[end - 1]));
        sample_texts_hold(samples[end - 1]);
    }
}

proof fn estimate_covers<T>(list: Seq<T>, texts: Seq<Option<String>>, bytes: usize)
    requires
        is_estimate(list, texts, bytes),
    ensures
        bytes == usize::MAX || bytes >= list.len() * layout_size::<T>() + held_by_texts(texts),
{
    let (places, reserved) = choose|places: usize, reserved: Seq<usize>|
        #[trigger] reserves_list(list, texts, places, reserved) && bytes == capped(
            places * layout_size::<T>() + sum_of(reserved),
        );
    reserved_covers_held(texts, reserved);
    let size = layout_size::<T>();
    assert(list.len() * size <= places * size) by (nonlinear_arith)
        requires
            list.len() <= places,
            0 <= size,
    ;
}

/// The estimate of a list of snapshots covers them and all of their texts.
pub proof fn snapshots_are_covered(snapshots: Seq<UsageSnapshot>, bytes: usize)
    requires
        is_estimate(snapshots, snapshots_texts(snapshots, snapshots.len() as int), bytes),
    ensures
        bytes == usize::MAX || bytes >= snapshots.len() * layout_size::<UsageSnapshot>()
            + held_by_snapshots(snapshots, snapshots.len() as int),
{
    estimate_covers(snapshots, snapshots_texts(snapshots, snapshots.len() as int), bytes);
    snapshots_texts_hold(snapshots, snapshots.len() as int);
}

/// The estimate of a list of samples covers them and all of their texts.
pub proof fn samples_are_covered(samples: Seq<RateLimitSampleRecord>, bytes: usize)
    requires
        is_estimate(samples, samples_texts(samples, samples.len() as int), bytes),
    ensures
        bytes == usize::MAX || bytes >= samples.len() * layout_size::<RateLimitSampleRecord>()
            + held_by_samples(samples, samples.len() as int),
{
    estimate_covers(samples, samples_texts(samples, samples.len() as int), bytes);
    samples_texts_hold(samples, samples.len() as int);
}

/// The estimate of a list of texts covers them and what they hold.
pub proof fn texts_are_covered(values: Seq<String>, bytes: usize)
    requires
        is_estimate(values, value_texts(values), bytes),
    ensures
        bytes == usize::MAX || bytes >= values.len() * layout_size::<String>() + held_by_texts(
            Seq::new(values.len(), |index: int| Some(values[index])),
        ),
{
    estimate_covers(values, value_texts(values), bytes);
    assert(value_texts(values) =~= Seq::new(values.len(), |index: int| Some(values[index])));
}

/// The description of a session that waits to be stored counts by all of its texts.
pub proof fn described_texts_are_all(session: PreparedSession)
    ensures
        ({
            let texts = session.described_texts();
            let raw = session.parsed.raw_session;
            &&& texts.contains(Some(session.session_file.source_path))
            &&& texts.contains(Some(session.session_file.bucket))
            &&& texts.contains(Some(raw.session_id))
            &&& texts.contains(raw.parent_session_id)
            &&& texts.contains(Some(raw.root_session_id))
            &&& texts.contains(raw.title)
            &&& texts.contains(Some(raw.source_state))
            &&& texts.contains(raw.source_path)
            &&& texts.contains(raw.started_at)
            &&& texts.contains(raw.updated_at)
            &&& texts.contains(raw.agent_nickname)
            &&& texts.contains(raw.agent_role)
            &&& texts.contains(session.parsed.explicit_forked_from_id)
            &&& texts.contains(session.parsed.latest_plan_type)
            &&& texts.contains(session.parsed.last_model_id)
            &&& texts.len() == 15
        }),
{
    let texts = session.described_texts();
    assert(texts[0] == Some(session.session_file.source_path));
    assert(texts[1] == Some(session.session_file.bucket));
    assert(texts[2] == Some(session.parsed.raw_session.session_id));
    assert(texts[3] == session.parsed.raw_session.parent_session_id);
    assert(texts[4] == Some(session.parsed.raw_session.root_session_id));
    assert(texts[5] == session.parsed.raw_session.title);
    assert(texts[6] == Some(session.parsed.raw_session.source_state));
    assert(texts[7] == session.parsed.raw_session.source_path);
    assert(texts[8] == session.parsed.raw_session.started_at);
    assert(texts[9] == session.parsed.raw_session.updated_at);
    assert(texts[10] == session.parsed.raw_session.agent_nickname);
    assert(texts[11] == session.parsed.raw_session.agent_role);
    assert(texts[12] == session.parsed.explicit_forked_from_id);
    assert(texts[13] == session.parsed.latest_plan_type);
    assert(texts[14] == session.parsed.last_model_id);
}

/// What an entry of the cache takes up grows with its key, with the copy of the key and with its
/// readings, byte by byte, as long as it fits.
pub proof fn entries_grow_with_what_they_hold(
    key: usize,
    order: usize,
    content: usize,
    more: usize,
)
    requires
        entry_bytes(key, order, Some(content)) + more < usize::MAX,
        key + more <= usize::MAX,
        order + more <= usize::MAX,
        content + more <= usize::MAX,
    ensures
        entry_bytes((key + more) as usize, order, Some(content)) == entry_bytes(
            key,
            order,
            Some(content),
        ) + more,
        entry_bytes(key, (order + more) as usize, Some(content)) == entry_bytes(
            key,
            order,
            Some(content),
        ) + more,
        entry_bytes(key, order, Some((content + more) as usize)) == entry_bytes(
            key,
            order,
            Some(content),
        ) + more,
        entry_bytes(key, order, None) == entry_bytes(key, order, Some(1)),
        entry_bytes(key, order, Some(content)) >= key + order + content,
{
}

/// Nothing is counted twice: an estimate is no more than the places that the list was found to have
/// reserved, and the bytes that its texts were.
pub proof fn nothing_is_counted_twice<T>(list: Seq<T>, texts: Seq<Option<String>>, bytes: usize)
    requires
        is_estimate(list, texts, bytes),
    ensures
        exists|places: usize, reserved: Seq<usize>|
            #[trigger] reserves_list(list, texts, places, reserved) && bytes <= places
                * layout_size::<T>() + sum_of(reserved),
{
    let (places, reserved) = choose|places: usize, reserved: Seq<usize>|
        #[trigger] reserves_list(list, texts, places, reserved) && bytes == capped(
            places * layout_size::<T>() + sum_of(reserved),
        );
    assert(reserves_list(list, texts, places, reserved));
}

/// A snapshot has five texts and a sample nine, and a list of them has all of these.
pub proof fn every_text_is_counted_once(
    snapshots: Seq<UsageSnapshot>,
    samples: Seq<RateLimitSampleRecord>,
    end: int,
)
    requires
        0 <= end,
    ensures
        snapshots_texts(snapshots, end).len() == 5 * end,
        samples_texts(samples, end).len() == 9 * end,
    decreases end,
{
    if end > 0 {
        every_text_is_counted_once(snapshots, samples, end - 1);
    }
}

/// An entry takes up itself, its two keys, what these have reserved, and its readings.
pub proof fn entries_take_up_their_parts(key: usize, order: usize, content: usize)
    ensures
        ({
            let parts = layout_size::<ParentReplayCacheEntry>() + layout_size::<String>() + key
                + layout_size::<String>() + order + content;
            &&& parts <= usize::MAX ==> entry_bytes(key, order, Some(content)) == parts
            &&& parts > usize::MAX ==> entry_bytes(key, order, Some(content)) == usize::MAX
        }),
{
}

} // verus!
