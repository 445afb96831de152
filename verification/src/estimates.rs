//! Estimating how much memory prepared records take up.
//!
//! An estimate counts what is reserved, not only what is filled: the places of a list, and the
//! bytes of each text in it. A sum that does not fit stops at `usize::MAX`.

use crate::capacity::{
    list_capacity, option_string_capacity, reserves_opt, reserves_places, text_capacity,
};
use crate::models::{RateLimitSampleRecord, UsageSnapshot};
use vstd::layout::size_of as layout_size;
use vstd::prelude::*;

verus! {

/// A sum that stops at `usize::MAX`.
pub open spec fn capped(sum: int) -> int {
    if sum > usize::MAX {
        usize::MAX as int
    } else {
        sum
    }
}

/// The product of two sizes, `usize::MAX` where it does not fit.
pub fn capped_product(left: usize, right: usize) -> (product: usize)
    ensures
        product == capped(left * right),
{
    match left.checked_mul(right) {
        Some(product) => product,
        None => usize::MAX,
    }
}

/// The sum of a list of sizes.
pub open spec fn sum_of(sizes: Seq<usize>) -> int
    decreases sizes.len(),
{
    if sizes.len() == 0 {
        0
    } else {
        sum_of(sizes.drop_last()) + sizes.last()
    }
}

/// A size and the sum of a list of sizes, `usize::MAX` where they do not fit.
pub fn capped_sum(start: usize, sizes: &Vec<usize>) -> (sum: usize)
    ensures
        sum == capped(start + sum_of(sizes@)),
{
    let mut sum: usize = start;
    let mut index: usize = 0;
    while index < sizes.len()
        invariant
            index <= sizes.len(),
            sum == capped(start + sum_of(sizes@.take(index as int))),
            sum_of(sizes@.take(index as int)) >= 0,
        decreases sizes.len() - index,
    {
        proof {
            assert(sizes@.take(index + 1).drop_last() =~= sizes@.take(index as int));
        }
        sum = sum.saturating_add(sizes[index]);
        index = index + 1;
    }
    proof {
        assert(sizes@.take(index as int) =~= sizes@);
    }
    sum
}

/// What a list of texts takes up that has reserved these places, and whose texts have reserved
/// these bytes.
pub fn texts_estimate(places: usize, reserved: &Vec<usize>) -> (bytes: usize)
    ensures
        bytes == capped(places * layout_size::<String>() + sum_of(reserved@)),
{
    proof {
        sum_is_not_negative(reserved@);
    }
    capped_sum(capped_product(places, core::mem::size_of::<String>()), reserved)
}

/// What a list of snapshots takes up that has reserved these places, and whose texts have
/// reserved these bytes.
pub fn snapshots_estimate(places: usize, reserved: &Vec<usize>) -> (bytes: usize)
    ensures
        bytes == capped(places * layout_size::<UsageSnapshot>() + sum_of(reserved@)),
{
    proof {
        sum_is_not_negative(reserved@);
    }
    capped_sum(capped_product(places, core::mem::size_of::<UsageSnapshot>()), reserved)
}

/// What a list of samples takes up that has reserved these places, and whose texts have reserved
/// these bytes.
pub fn samples_estimate(places: usize, reserved: &Vec<usize>) -> (bytes: usize)
    ensures
        bytes == capped(places * layout_size::<RateLimitSampleRecord>() + sum_of(reserved@)),
{
    proof {
        sum_is_not_negative(reserved@);
    }
    capped_sum(capped_product(places, core::mem::size_of::<RateLimitSampleRecord>()), reserved)
}

pub(crate) proof fn sum_is_not_negative(sizes: Seq<usize>)
    ensures
        sum_of(sizes) >= 0,
    decreases sizes.len(),
{
    if sizes.len() > 0 {
        sum_is_not_negative(sizes.drop_last());
    }
}

/// Whether each of a list of optional texts was found to have reserved the bytes at its place.
pub open spec fn reserves_texts(texts: Seq<Option<String>>, reserved: Seq<usize>) -> bool {
    texts.len() == reserved.len() && forall|index: int|
        0 <= index < texts.len() ==> reserves_opt(#[trigger] texts[index], reserved[index])
}

/// Notes what a text has reserved, after the `texts` before it.
pub(crate) fn draw_text(
    reserved: &mut Vec<usize>,
    text: &String,
    Ghost(texts): Ghost<Seq<Option<String>>>,
)
    requires
        reserves_texts(texts, old(reserved)@),
    ensures
        reserves_texts(texts.push(Some(*text)), final(reserved)@),
{
    reserved.push(text_capacity(text));
}

/// Notes what an optional text has reserved, after the `texts` before it.
pub(crate) fn draw_opt(
    reserved: &mut Vec<usize>,
    text: &Option<String>,
    Ghost(texts): Ghost<Seq<Option<String>>>,
)
    requires
        reserves_texts(texts, old(reserved)@),
    ensures
        reserves_texts(texts.push(*text), final(reserved)@),
{
    reserved.push(option_string_capacity(text));
}

/// Whether a list that holds `texts` was found to have reserved these places, and its texts these
/// bytes.
pub open spec fn reserves_list<T>(
    list: Seq<T>,
    texts: Seq<Option<String>>,
    places: usize,
    reserved: Seq<usize>,
) -> bool {
    reserves_places(list, places) && reserves_texts(texts, reserved)
}

/// Whether `bytes` is what a list that holds `texts` was found to take up: the places that it has
/// reserved, and the bytes that its texts have.
pub open spec fn is_estimate<T>(list: Seq<T>, texts: Seq<Option<String>>, bytes: usize) -> bool {
    exists|places: usize, reserved: Seq<usize>|
        #[trigger] reserves_list(list, texts, places, reserved) && bytes == capped(
            places * layout_size::<T>() + sum_of(reserved),
        )
}

/// The texts of a list of texts.
pub open spec fn value_texts(values: Seq<String>) -> Seq<Option<String>> {
    values.map_values(|value: String| Some(value))
}

/// What a list of texts takes up.
pub fn estimated_string_vec_bytes(values: &Vec<String>) -> (bytes: usize)
    ensures
        is_estimate(values@, value_texts(values@), bytes),
{
    let places = list_capacity(values);
    let mut reserved: Vec<usize> = Vec::new();
    let mut index: usize = 0;
    while index < values.len()
        invariant
            index <= values.len(),
            reserves_texts(value_texts(values@).take(index as int), reserved@),
        decreases values.len() - index,
    {
        let ghost before = value_texts(values@).take(index as int);
        draw_text(&mut reserved, &values[index], Ghost(before));
        proof {
            assert(value_texts(values@).take(index + 1) =~= before.push(
                Some(values[index as int]),
            ));
        }
        index = index + 1;
    }
    proof {
        assert(value_texts(values@).take(index as int) =~= value_texts(values@));
        assert(reserves_list(values@, value_texts(values@), places, reserved@));
    }
    texts_estimate(places, &reserved)
}

/// The texts of a snapshot.
pub open spec fn snapshot_texts(snapshot: UsageSnapshot) -> Seq<Option<String>> {
    seq![
        Some(snapshot.timestamp),
        Some(snapshot.model_id),
        snapshot.plan_type,
        snapshot.limit_id,
        snapshot.limit_name,
    ]
}

/// The texts of the first `end` snapshots.
pub open spec fn snapshots_texts(snapshots: Seq<UsageSnapshot>, end: int) -> Seq<Option<String>>
    decreases end,
{
    if end <= 0 {
        Seq::empty()
    } else {
        snapshots_texts(snapshots, end - 1) + snapshot_texts(snapshots[end - 1])
    }
}

/// What a list of snapshots takes up.
pub fn estimated_usage_snapshots_bytes(snapshots: &Vec<UsageSnapshot>) -> (bytes: usize)
    ensures
        is_estimate(snapshots@, snapshots_texts(snapshots@, snapshots.len() as int), bytes),
{
    let places = list_capacity(snapshots);
    let mut reserved: Vec<usize> = Vec::new();
    let mut index: usize = 0;
    while index < snapshots.len()
        invariant
            index <= snapshots.len(),
            reserves_texts(snapshots_texts(snapshots@, index as int), reserved@),
        decreases snapshots.len() - index,
    {
        let snapshot = &snapshots[index];
        let ghost before = snapshots_texts(snapshots@, index as int);
        let ghost own = snapshot_texts(*snapshot);
        draw_text(&mut reserved, &snapshot.timestamp, Ghost(before));
        draw_text(&mut reserved, &snapshot.model_id, Ghost(before.push(own[0])));
        draw_opt(&mut reserved, &snapshot.plan_type, Ghost(before.push(own[0]).push(own[1])));
        draw_opt(
            &mut reserved,
            &snapshot.limit_id,
            Ghost(before.push(own[0]).push(own[1]).push(own[2])),
        );
        draw_opt(
            &mut reserved,
            &snapshot.limit_name,
            Ghost(before.push(own[0]).push(own[1]).push(own[2]).push(own[3])),
        );
        proof {
            assert(before + own =~= before.push(own[0]).push(own[1]).push(own[2]).push(own[3]).push(
                own[4],
            ));
        }
        index = index + 1;
    }
    proof {
        assert(reserves_list(
            snapshots@,
            snapshots_texts(snapshots@, snapshots.len() as int),
            places,
            reserved@,
        ));
    }
    snapshots_estimate(places, &reserved)
}

/// The texts of a sample.
pub open spec fn sample_texts(sample: RateLimitSampleRecord) -> Seq<Option<String>> {
    seq![
        Some(sample.source_kind),
        sample.source_session_id,
        Some(sample.bucket),
        Some(sample.sample_timestamp),
        sample.limit_id,
        sample.limit_name,
        sample.plan_type,
        Some(sample.window_start),
        Some(sample.resets_at),
    ]
}

/// The texts of the first `end` samples.
pub open spec fn samples_texts(samples: Seq<RateLimitSampleRecord>, end: int) -> Seq<
    Option<String>,
>
    decreases end,
{
    if end <= 0 {
        Seq::empty()
    } else {
        samples_texts(samples, end - 1) + sample_texts(samples[end - 1])
    }
}

/// Notes what the texts of a sample have reserved, after the `texts` before them.
fn draw_sample(
    reserved: &mut Vec<usize>,
    sample: &RateLimitSampleRecord,
    Ghost(texts): Ghost<Seq<Option<String>>>,
)
    requires
        reserves_texts(texts, old(reserved)@),
    ensures
        reserves_texts(texts + sample_texts(*sample), final(reserved)@),
{
    let ghost own = sample_texts(*sample);
    proof {
        assert(texts + own.take(0) =~= texts);
        assert forall|place: int| 0 <= place < own.len() implies #[trigger] own.take(place + 1)
            == own.take(place).push(own[place]) by {
            assert(own.take(place + 1) =~= own.take(place).push(own[place]));
        }
        assert forall|place: int| 0 <= place < own.len() implies texts + (#[trigger] own.take(
            place,
        )).push(own[place]) == (texts + own.take(place)).push(own[place]) by {
            assert(texts + own.take(place).push(own[place]) =~= (texts + own.take(place)).push(
                own[place],
            ));
        }
        assert(own.take(9) =~= own);
    }
    draw_text(reserved, &sample.source_kind, Ghost(texts + own.take(0)));
    draw_opt(reserved, &sample.source_session_id, Ghost(texts + own.take(1)));
    draw_text(reserved, &sample.bucket, Ghost(texts + own.take(2)));
    draw_text(reserved, &sample.sample_timestamp, Ghost(texts + own.take(3)));
    draw_opt(reserved, &sample.limit_id, Ghost(texts + own.take(4)));
    draw_opt(reserved, &sample.limit_name, Ghost(texts + own.take(5)));
    draw_opt(reserved, &sample.plan_type, Ghost(texts + own.take(6)));
    draw_text(reserved, &sample.window_start, Ghost(texts + own.take(7)));
    draw_text(reserved, &sample.resets_at, Ghost(texts + own.take(8)));
}

/// What a list of samples takes up.
pub fn estimated_samples_bytes(samples: &Vec<RateLimitSampleRecord>) -> (bytes: usize)
    ensures
        is_estimate(samples@, samples_texts(samples@, samples.len() as int), bytes),
{
    let places = list_capacity(samples);
    let mut reserved: Vec<usize> = Vec::new();
    let mut index: usize = 0;
    while index < samples.len()
        invariant
            index <= samples.len(),
            reserves_texts(samples_texts(samples@, index as int), reserved@),
        decreases samples.len() - index,
    {
        let ghost before = samples_texts(samples@, index as int);
        draw_sample(&mut reserved, &samples[index], Ghost(before));
        index = index + 1;
    }
    proof {
        assert(reserves_list(
            samples@,
            samples_texts(samples@, samples.len() as int),
            places,
            reserved@,
        ));
    }
    samples_estimate(places, &reserved)
}

} // verus!
