use codex_pacer::models::{RateLimitSampleRecord, TokenUsage, UsageSnapshot};
use codex_pacer::prepared::{session_estimate, PreparedSession};
use codex_pacer::replay::{
    canonical_replay_snapshots, kmp_prefix_table, longest_replayed_prefix,
    replayed_child_snapshot_cutoff, ReplayKey,
};
use codex_pacer::replay_cache::{
    entry_estimate, ParentReplayCache, ParentReplayCacheEntry, PARENT_REPLAY_CACHE_MAX_BYTES,
    PARENT_REPLAY_CACHE_MAX_ENTRIES,
};
use codex_pacer::capacity::{list_capacity, option_string_capacity, text_capacity};
use codex_pacer::estimates::{
    capped_sum, estimated_samples_bytes, estimated_string_vec_bytes,
    estimated_usage_snapshots_bytes, samples_estimate, snapshots_estimate, texts_estimate,
};
use codex_pacer::replay_reader::{
    wants_line, ParentReplayReader, ReplayParentLine, ReplayParentPayload,
    ReplayParentTokenDetails, ReplayParentTokenUsage, ReplayStep,
};
use codex_pacer::timestamps::{parse_instant, Instant};

type Counts = (i64, i64, i64, i64, i64);

fn replay_usage(counts: Counts) -> TokenUsage {
    TokenUsage {
        input_tokens: counts.0,
        cached_input_tokens: counts.1,
        output_tokens: counts.2,
        reasoning_output_tokens: counts.3,
        total_tokens: counts.4,
    }
}

fn replay_snapshot(
    timestamp: &str,
    model_id: &str,
    total: Counts,
    last: Option<Counts>,
) -> UsageSnapshot {
    UsageSnapshot {
        timestamp: timestamp.to_string(),
        model_id: model_id.to_string(),
        usage: replay_usage(total),
        last_token_usage: last.map(replay_usage),
        plan_type: None,
        limit_id: None,
        limit_name: None,
        explicit_fast_mode: None,
    }
}

fn fork_instant(text: &str) -> Instant {
    parse_instant(text).expect("fork instant")
}

#[test]
fn replay_matching_accepts_a_complete_three_record_match() {
    let parent = vec![
        replay_snapshot(
            "2026-03-24T00:00:01Z",
            "parent-a",
            (100, 10, 20, 1, 121),
            Some((100, 10, 20, 1, 121)),
        ),
        replay_snapshot(
            "2026-03-24T00:01:01Z",
            "parent-b",
            (180, 20, 35, 2, 217),
            Some((80, 10, 15, 1, 96)),
        ),
        replay_snapshot(
            "2026-03-24T00:02:01Z",
            "parent-c",
            (260, 30, 50, 3, 313),
            Some((80, 10, 15, 1, 96)),
        ),
    ];
    let child = vec![
        replay_snapshot(
            "2026-03-24T00:10:00Z",
            "child-x",
            (100, 10, 20, 1, 121),
            Some((100, 10, 20, 1, 121)),
        ),
        replay_snapshot(
            "2026-03-24T00:10:00Z",
            "child-y",
            (180, 20, 35, 2, 217),
            Some((80, 10, 15, 1, 96)),
        ),
        replay_snapshot(
            "2026-03-24T00:10:00Z",
            "child-z",
            (260, 30, 50, 3, 313),
            Some((80, 10, 15, 1, 96)),
        ),
    ];

    assert_eq!(
        replayed_child_snapshot_cutoff(
            &parent,
            &child,
            Some(fork_instant("2026-03-24T00:05:00Z")),
        ),
        3
    );
}

#[test]
fn replay_matching_finds_a_child_prefix_in_the_middle_of_the_parent() {
    let unrelated = replay_snapshot(
        "2026-03-24T00:00:00Z",
        "parent",
        (20, 0, 5, 0, 25),
        Some((20, 0, 5, 0, 25)),
    );
    let first = replay_snapshot(
        "2026-03-24T00:01:00Z",
        "parent",
        (100, 10, 20, 1, 121),
        Some((80, 10, 15, 1, 96)),
    );
    let second = replay_snapshot(
        "2026-03-24T00:02:00Z",
        "parent",
        (180, 20, 35, 2, 217),
        Some((80, 10, 15, 1, 96)),
    );
    let third = replay_snapshot(
        "2026-03-24T00:03:00Z",
        "parent",
        (260, 30, 50, 3, 313),
        Some((80, 10, 15, 1, 96)),
    );
    let parent = vec![unrelated, first.clone(), second.clone(), third.clone()];
    let child = vec![first, second, third];

    assert_eq!(
        replayed_child_snapshot_cutoff(
            &parent,
            &child,
            Some(fork_instant("2026-03-24T00:04:00Z")),
        ),
        3
    );
}

#[test]
fn replay_matching_rejects_one_exact_record_from_longer_parent() {
    let record = replay_snapshot(
        "2026-03-24T00:00:00Z",
        "model",
        (100, 10, 20, 1, 121),
        Some((100, 10, 20, 1, 121)),
    );
    let parent_second = replay_snapshot(
        "2026-03-24T00:00:30Z",
        "model",
        (180, 20, 35, 2, 217),
        Some((80, 10, 15, 1, 96)),
    );

    assert_eq!(
        replayed_child_snapshot_cutoff(
            &vec![record.clone(), parent_second],
            &vec![record],
            Some(fork_instant("2026-03-24T00:01:00Z")),
        ),
        0
    );
}

#[test]
fn replay_matching_missing_last_usage_breaks_the_match() {
    let first = replay_snapshot(
        "2026-03-24T00:00:00Z",
        "model",
        (100, 10, 20, 1, 121),
        Some((100, 10, 20, 1, 121)),
    );
    let parent_second = replay_snapshot(
        "2026-03-24T00:01:00Z",
        "model",
        (180, 20, 35, 2, 217),
        Some((80, 10, 15, 1, 96)),
    );
    let child_second =
        replay_snapshot("2026-03-24T00:01:00Z", "model", (180, 20, 35, 2, 217), None);

    assert_eq!(
        replayed_child_snapshot_cutoff(
            &vec![first.clone(), parent_second],
            &vec![first, child_second],
            Some(fork_instant("2026-03-24T00:02:00Z")),
        ),
        0
    );
}

#[test]
fn replay_matching_omits_same_total_changed_last_from_the_canonical_sequence() {
    let first = replay_snapshot(
        "2026-03-24T00:00:00Z",
        "model",
        (100, 10, 20, 1, 121),
        Some((100, 10, 20, 1, 121)),
    );
    let changed_last = replay_snapshot(
        "2026-03-24T00:00:30Z",
        "model",
        (100, 10, 20, 1, 121),
        Some((1, 2, 3, 4, 10)),
    );
    let second = replay_snapshot(
        "2026-03-24T00:01:00Z",
        "model",
        (180, 20, 35, 2, 217),
        Some((80, 10, 15, 1, 96)),
    );

    assert_eq!(
        replayed_child_snapshot_cutoff(
            &vec![first.clone(), second.clone()],
            &vec![first, changed_last, second],
            Some(fork_instant("2026-03-24T00:02:00Z")),
        ),
        3
    );
}

#[test]
fn replay_matching_uses_cumulative_high_water_after_a_rollback() {
    let first = replay_snapshot(
        "2026-03-24T00:00:00Z",
        "model",
        (100, 10, 20, 1, 121),
        Some((100, 10, 20, 1, 121)),
    );
    let rollback = replay_snapshot(
        "2026-03-24T00:00:30Z",
        "model",
        (70, 5, 10, 0, 80),
        Some((5, 0, 2, 0, 7)),
    );
    let recovery = replay_snapshot(
        "2026-03-24T00:01:00Z",
        "model",
        (140, 15, 30, 2, 172),
        Some((40, 5, 10, 1, 51)),
    );

    assert_eq!(
        replayed_child_snapshot_cutoff(
            &vec![first.clone(), recovery.clone()],
            &vec![first, rollback, recovery],
            Some(fork_instant("2026-03-24T00:02:00Z")),
        ),
        3
    );
}

#[test]
fn replay_matching_excludes_parent_records_after_the_fork_instant() {
    let first = replay_snapshot(
        "2026-03-24T00:00:00Z",
        "model",
        (100, 10, 20, 1, 121),
        Some((100, 10, 20, 1, 121)),
    );
    let second = replay_snapshot(
        "2026-03-24T00:01:00Z",
        "model",
        (180, 20, 35, 2, 217),
        Some((80, 10, 15, 1, 96)),
    );
    let post_fork = replay_snapshot(
        "2026-03-24T00:06:00Z",
        "model",
        (260, 30, 50, 3, 313),
        Some((80, 10, 15, 1, 96)),
    );

    assert_eq!(
        replayed_child_snapshot_cutoff(
            &vec![first.clone(), second.clone(), post_fork.clone()],
            &vec![first, second, post_fork],
            Some(fork_instant("2026-03-24T00:05:00Z")),
        ),
        2
    );
}

#[test]
fn replay_matching_without_a_valid_fork_instant_returns_zero() {
    let first = replay_snapshot(
        "2026-03-24T00:00:00Z",
        "model",
        (100, 10, 20, 1, 121),
        Some((100, 10, 20, 1, 121)),
    );
    let second = replay_snapshot(
        "2026-03-24T00:01:00Z",
        "model",
        (180, 20, 35, 2, 217),
        Some((80, 10, 15, 1, 96)),
    );

    assert_eq!(
        replayed_child_snapshot_cutoff(
            &vec![first.clone(), second.clone()],
            &vec![first, second],
            None,
        ),
        0
    );
}

#[test]
fn single_reading_of_a_parent_may_be_copied_alone() {
    let record = replay_snapshot(
        "2026-03-24T00:00:00Z",
        "model",
        (100, 10, 20, 1, 121),
        Some((100, 10, 20, 1, 121)),
    );
    let unreadable = replay_snapshot("soon", "model", (300, 0, 0, 0, 300), Some((1, 0, 0, 0, 1)));
    assert_eq!(
        replayed_child_snapshot_cutoff(
            &vec![record.clone(), unreadable],
            &vec![record],
            Some(fork_instant("2026-03-24T08:01:00+08:00")),
        ),
        1
    );
}

#[test]
fn parent_reading_at_the_very_fork_instant_counts() {
    let record = replay_snapshot(
        "2026-03-24T00:01:00.500Z",
        "model",
        (100, 10, 20, 1, 121),
        Some((100, 10, 20, 1, 121)),
    );
    let parents = vec![record.clone()];
    let children = vec![record];
    let at = |text: &str| {
        replayed_child_snapshot_cutoff(&parents, &children, Some(fork_instant(text)))
    };
    assert_eq!(at("2026-03-24T00:01:00.500Z"), 1);
    assert_eq!(at("2026-03-24T00:01:00.499Z"), 0);
    assert_eq!(at("2026-03-24T00:01:00.501Z"), 1);
}

#[test]
fn canonical_readings_rise_strictly() {
    let totals = [5, 3, 5, 9, 8, 10];
    let snapshots: Vec<UsageSnapshot> = totals
        .iter()
        .map(|total| replay_snapshot("t", "m", (*total, 0, 0, 0, *total), None))
        .collect();
    let places: Vec<usize> =
        canonical_replay_snapshots(&snapshots).iter().map(|reading| reading.raw_index).collect();
    assert_eq!(places, vec![0, 3, 5]);
    assert!(canonical_replay_snapshots(&snapshots)[0].replay_key().is_none());
}

fn key(total: i64) -> ReplayKey {
    ReplayKey {
        total_token_usage: replay_usage((total, 0, 0, 0, total)),
        last_token_usage: replay_usage((total, 0, 0, 0, total)),
    }
}

fn keys(totals: &[i64]) -> Vec<ReplayKey> {
    totals.iter().map(|total| key(*total)).collect()
}

#[test]
fn prefix_table_gives_longest_borders() {
    assert_eq!(kmp_prefix_table(&keys(&[1, 2, 1, 2, 1, 3])), vec![0, 0, 1, 2, 3, 0]);
    assert_eq!(kmp_prefix_table(&keys(&[1, 1, 1])), vec![0, 1, 2]);
    assert_eq!(kmp_prefix_table(&keys(&[])), Vec::<usize>::new());
}

#[test]
fn longest_prefix_falls_back_along_borders() {
    let pattern = keys(&[1, 2, 1, 2, 1, 3]);
    let some = |totals: &[i64]| -> Vec<Option<ReplayKey>> {
        totals.iter().map(|total| Some(key(*total))).collect()
    };
    assert_eq!(longest_replayed_prefix(&pattern, &some(&[1, 2, 1, 2, 1, 2, 1, 3])), 6);
    assert_eq!(longest_replayed_prefix(&pattern, &some(&[9, 1, 2, 1, 9])), 3);
    assert_eq!(longest_replayed_prefix(&pattern, &some(&[9, 8])), 0);
    let mut broken = some(&[1, 2, 1, 2]);
    broken.insert(2, None);
    assert_eq!(longest_replayed_prefix(&pattern, &broken), 2);
    assert_eq!(longest_replayed_prefix(&keys(&[]), &some(&[1])), 0);
}

#[test]
fn prepared_estimates_include_reserved_vec_and_string_capacity() {
    let mut model_id = String::with_capacity(4 * 1024);
    model_id.push('x');
    let mut snapshots = Vec::with_capacity(64);
    snapshots.push(UsageSnapshot {
        timestamp: "2026-07-10T00:00:00Z".to_string(),
        model_id,
        usage: replay_usage((10, 0, 0, 0, 10)),
        last_token_usage: Some(replay_usage((10, 0, 0, 0, 10))),
        plan_type: None,
        limit_id: None,
        limit_name: None,
        explicit_fast_mode: None,
    });

    let estimate = estimated_usage_snapshots_bytes(&snapshots);

    assert!(estimate >= snapshots.capacity() * std::mem::size_of::<UsageSnapshot>());
    assert!(estimate >= snapshots[0].model_id.capacity());
}

#[test]
fn estimates_of_texts_count_what_is_reserved() {
    let mut list: Vec<String> = Vec::with_capacity(10);
    let mut text = String::with_capacity(100);
    text.push('x');
    list.push(text);
    let expected = list.capacity() * std::mem::size_of::<String>() + list[0].capacity();
    assert_eq!(estimated_string_vec_bytes(&list), expected);
    assert_eq!(option_string_capacity(&None), 0);
    assert_eq!(option_string_capacity(&Some(list[0].clone())), list[0].clone().capacity());
}

#[test]
fn oversized_parent_replay_cache_entry_is_bypassed_not_evicted() {
    let oversized_model_id = "x".repeat(PARENT_REPLAY_CACHE_MAX_BYTES);
    let snapshots = vec![replay_snapshot(
        "2026-07-10T00:00:00Z",
        &oversized_model_id,
        (10, 0, 0, 10, 10),
        Some((10, 0, 0, 10, 10)),
    )];
    let mut cache = ParentReplayCache::new();

    cache.insert("oversized-parent".to_string(), Some(snapshots));

    assert_eq!(cache.evictions(), 0);
    assert_eq!(cache.oversized_bypasses(), 1);
    assert!(cache.get("oversized-parent").is_none());
}

#[test]
fn parent_replay_cache_counts_reserved_capacity_toward_its_limit() {
    let mut reserved_key = String::with_capacity(PARENT_REPLAY_CACHE_MAX_BYTES + 1);
    reserved_key.push('p');
    let mut key_cache = ParentReplayCache::new();

    key_cache.insert(reserved_key, None);

    assert_eq!(key_cache.evictions(), 0);
    assert_eq!(key_cache.oversized_bypasses(), 1);
    assert!(key_cache.get("p").is_none());
    assert!(key_cache.estimated_bytes <= PARENT_REPLAY_CACHE_MAX_BYTES);

    let snapshot_capacity = PARENT_REPLAY_CACHE_MAX_BYTES
        .checked_div(std::mem::size_of::<UsageSnapshot>())
        .unwrap_or_default()
        + 1;
    let mut snapshots = Vec::with_capacity(snapshot_capacity);
    snapshots.push(replay_snapshot(
        "2026-07-10T00:00:00Z",
        "gpt-5.6-sol",
        (10, 0, 0, 10, 10),
        Some((10, 0, 0, 10, 10)),
    ));
    let mut snapshot_cache = ParentReplayCache::new();

    snapshot_cache.insert("reserved-snapshots".to_string(), Some(snapshots));

    assert_eq!(snapshot_cache.evictions(), 0);
    assert_eq!(snapshot_cache.oversized_bypasses(), 1);
    assert!(snapshot_cache.get("reserved-snapshots").is_none());
    assert!(snapshot_cache.estimated_bytes <= PARENT_REPLAY_CACHE_MAX_BYTES);
}

#[test]
fn cache_removes_what_came_first() {
    let mut cache = ParentReplayCache::new();
    for index in 0..PARENT_REPLAY_CACHE_MAX_ENTRIES + 1 {
        cache.insert(format!("parent-{index}"), None);
    }
    assert_eq!(cache.evictions(), 1);
    assert!(cache.get("parent-0").is_none());
    for index in 1..PARENT_REPLAY_CACHE_MAX_ENTRIES + 1 {
        assert!(matches!(cache.get(&format!("parent-{index}")), Some(None)));
    }
    assert!(cache.estimated_bytes <= PARENT_REPLAY_CACHE_MAX_BYTES);
}

#[test]
fn cache_makes_room_by_size() {
    let entry = |bytes: usize| ParentReplayCacheEntry { snapshots: None, estimated_bytes: bytes };
    let mut cache = ParentReplayCache::new();
    cache.insert_entry("a".to_string(), entry(100_000));
    cache.insert_entry("b".to_string(), entry(100_000));
    cache.insert_entry("c".to_string(), entry(100_000));
    assert!(cache.get("a").is_none());
    assert!(cache.get("b").is_some());
    assert_eq!(cache.estimated_bytes, 200_000);
    cache.insert_entry("d".to_string(), entry(PARENT_REPLAY_CACHE_MAX_BYTES));
    assert!(cache.get("b").is_none() && cache.get("c").is_none() && cache.get("d").is_some());
    assert_eq!(cache.evictions(), 3);
    cache.insert_entry("e".to_string(), entry(PARENT_REPLAY_CACHE_MAX_BYTES + 1));
    assert_eq!(cache.oversized_bypasses(), 1);
    assert!(cache.get("d").is_some());
}

fn line(kind: &str, timestamp: Option<&str>, id: Option<&str>, inner: Option<&str>) -> ReplayParentLine {
    ReplayParentLine {
        timestamp: timestamp.map(str::to_string),
        record_type: Some(kind.to_string()),
        payload: Some(ReplayParentPayload {
            id: id.map(str::to_string),
            record_type: inner.map(str::to_string),
        }),
    }
}

fn details(total: i64) -> ReplayParentTokenDetails {
    ReplayParentTokenDetails {
        total_token_usage: ReplayParentTokenUsage {
            input_tokens: total,
            cached_input_tokens: 0,
            output_tokens: 3,
            reasoning_output_tokens: 0,
            total_tokens: None,
        },
        last_token_usage: None,
    }
}

#[test]
fn parent_reader_counts_a_log_that_names_itself() {
    let mut reader = ParentReplayReader::new("parent", None).expect("no name to contradict");
    assert_eq!(
        reader.take_line(&line("session_meta", None, Some("parent"), None)),
        ReplayStep::Next
    );
    assert_eq!(
        reader.take_line(&line("event_msg", Some("2026-03-24T00:00:01Z"), None, Some("token_count"))),
        ReplayStep::ReadUsages
    );
    reader.take_usages("2026-03-24T00:00:01Z", &details(100));
    assert_eq!(
        reader.take_line(&line("session_meta", None, Some("other"), None)),
        ReplayStep::Next
    );
    let snapshots = reader.finish().expect("log counts");
    assert_eq!(snapshots.len(), 1);
    assert_eq!(snapshots[0].usage, replay_usage((100, 0, 3, 0, 103)));
    assert_eq!(snapshots[0].last_token_usage, None);
    assert_eq!(snapshots[0].timestamp, "2026-03-24T00:00:01Z");
    assert_eq!(snapshots[0].model_id, "");
}

#[test]
fn parent_reader_rejects_other_logs() {
    assert!(ParentReplayReader::new("parent", Some("child".to_string())).is_none());
    let mut other = ParentReplayReader::new("parent", None).expect("no name");
    assert_eq!(
        other.take_line(&line("session_meta", None, Some("child"), None)),
        ReplayStep::Reject
    );
    let mut named = ParentReplayReader::new("parent", Some("parent".to_string())).expect("named");
    assert_eq!(
        named.take_line(&line("session_meta", None, Some("child"), None)),
        ReplayStep::Next
    );
    assert_eq!(
        named.take_line(&line("event_msg", None, None, Some("token_count"))),
        ReplayStep::Reject
    );
    assert!(named.finish().is_none());
    let mut nameless = ParentReplayReader::new("parent", None).expect("no name");
    nameless.take_usages("2026-03-24T00:00:01Z", &details(1));
    assert!(nameless.finish().is_none());
}

#[test]
fn parent_reader_passes_over_other_records() {
    let mut reader = ParentReplayReader::new("parent", Some("parent".to_string())).expect("named");
    assert_eq!(
        reader.take_line(&line("response_item", Some("t"), None, Some("token_count"))),
        ReplayStep::Next
    );
    assert_eq!(
        reader.take_line(&line("event_msg", Some("t"), None, Some("agent_message"))),
        ReplayStep::Next
    );
    let bare = ReplayParentLine { timestamp: None, record_type: None, payload: None };
    assert_eq!(reader.take_line(&bare), ReplayStep::Next);
    assert!(wants_line("{\"type\":\"session_meta\"}"));
    assert!(wants_line("{\"type\":\"token_count\"}"));
    assert!(!wants_line("{\"type\":\"token_counts\"}"));
}

#[test]
fn estimates_add_up_what_was_reserved() {
    let text = std::mem::size_of::<String>();
    let snapshot = std::mem::size_of::<UsageSnapshot>();
    let sample = std::mem::size_of::<RateLimitSampleRecord>();
    assert_eq!(capped_sum(5, &vec![1, 2, 3]), 11);
    assert_eq!(capped_sum(5, &vec![usize::MAX, 3]), usize::MAX);
    assert_eq!(texts_estimate(3, &vec![10, 0, 7]), 3 * text + 17);
    assert_eq!(snapshots_estimate(2, &vec![4]), 2 * snapshot + 4);
    assert_eq!(samples_estimate(2, &vec![4, 5]), 2 * sample + 9);
    assert_eq!(samples_estimate(usize::MAX, &vec![]), usize::MAX);
    assert_eq!(
        session_estimate(&vec![1, 2], &vec![30, 40]),
        std::mem::size_of::<PreparedSession>() + 73
    );
    let entry = std::mem::size_of::<ParentReplayCacheEntry>() + 2 * text;
    assert_eq!(entry_estimate(8, 6, Some(100)), entry + 114);
    assert_eq!(entry_estimate(8, 6, None), entry + 15);
}

#[test]
fn capacities_are_those_of_what_was_asked() {
    let mut text = String::with_capacity(77);
    text.push('x');
    assert_eq!(text_capacity(&text), text.capacity());
    let mut list: Vec<u64> = Vec::with_capacity(9);
    list.push(1);
    assert_eq!(list_capacity(&list), list.capacity());
    let samples = vec![RateLimitSampleRecord {
        source_kind: "session".to_string(),
        source_session_id: Some("s".to_string()),
        bucket: "five_hour".to_string(),
        sample_timestamp: "t".to_string(),
        limit_id: None,
        limit_name: Some("name".to_string()),
        plan_type: None,
        window_start: "start".to_string(),
        resets_at: "end".to_string(),
        used_percent: 1,
        remaining_percent: 99,
    }];
    let texts = 7 + 1 + 9 + 1 + 4 + 5 + 3;
    let expected = samples.capacity() * std::mem::size_of::<RateLimitSampleRecord>() + texts;
    assert_eq!(estimated_samples_bytes(&samples), expected);
}
