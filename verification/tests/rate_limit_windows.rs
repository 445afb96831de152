use codex_pacer::database::rate_limit_samples::{
    compact_complete_session_history, grouped_sorted, latest_rate_limits, live_rate_limit_samples,
    newest_per_owner_bucket, normalize_session_owner, parse_rate_limit_samples, plan_append,
    plan_session_replace, same_samples, supersedes_latest, ParsedRateLimitSample,
    RateLimitWriteStats,
};
use codex_pacer::json::parse_json;
use codex_pacer::local_time::{shown_time, LocalTimes, FIRST_LOCAL_SECOND, LAST_LOCAL_SECOND};
use codex_pacer::models::{
    LiveRateLimitSnapshot, RateLimitSampleRecord, RateLimitWindowSnapshot,
};
use codex_pacer::rate_limits::{
    clamp_percent, extract_rate_limit_readings, extract_rate_limit_samples, localize_readings,
    sample_from_reading, RateLimitReading,
};
use codex_pacer::timestamps::parse_epoch_millis;

#[test]
fn primary_only_seven_day_rate_limit_is_imported_into_the_seven_day_bucket() {
    let payload = parse_json(
        "{\"rate_limits\":{\"plan_type\":\"pro\",\"primary\":{\"used_percent\":21,\"window_duration_mins\":10080,\"resets_at\":1774589128}}}",
    )
    .expect("payload");

    let samples = extract_rate_limit_samples("2026-03-26T11:45:00+08:00", &payload);

    assert_eq!(samples.len(), 1);
    assert_eq!(samples[0].bucket, "seven_day");
    assert_eq!(samples[0].remaining_percent, 79);
}

#[test]
fn samples_hold_the_local_minute_of_their_limits() {
    let payload = parse_json(
        "{\"rate_limits\":{\"limit_id\":\"codex\",\"primary\":{\"used_percent\":12.0,\"window_minutes\":300,\"resets_at\":1774513656,\"limit_name\":\"inner\"},\"secondary\":{\"used_percent\":121,\"window_minutes\":10080,\"resets_at\":1774589128}}}",
    )
    .expect("payload");
    let samples = extract_rate_limit_samples("2026-03-26T11:45:00+08:00", &payload);
    assert_eq!(samples.len(), 2);
    assert_eq!(samples[0].bucket, "five_hour");
    assert_eq!(samples[0].source_kind, "session");
    assert_eq!(samples[0].source_session_id, None);
    assert_eq!(samples[0].used_percent, 12);
    assert_eq!(samples[0].remaining_percent, 88);
    assert_eq!(samples[0].limit_id.as_deref(), Some("codex"));
    assert_eq!(samples[0].limit_name.as_deref(), Some("inner"));
    assert_eq!(parse_epoch_millis(&samples[0].resets_at), Ok(1774513620_000));
    assert_eq!(parse_epoch_millis(&samples[0].window_start), Ok(1774495620_000));
    assert_eq!(samples[1].used_percent, 100);
    assert_eq!(samples[1].remaining_percent, 0);
    assert_eq!(samples[1].limit_name, None);
}

#[test]
fn windows_without_share_length_or_end_are_passed_over() {
    let read = |text: &str| {
        extract_rate_limit_readings("t", &parse_json(text).expect("payload")).len()
    };
    assert_eq!(read("{}"), 0);
    assert_eq!(read("{\"rate_limits\":null}"), 0);
    assert_eq!(read("{\"rate_limits\":{\"primary\":null}}"), 0);
    assert_eq!(read("{\"rate_limits\":{\"primary\":{\"window_minutes\":1,\"resets_at\":1}}}"), 0);
    assert_eq!(read("{\"rate_limits\":{\"primary\":{\"used_percent\":1,\"resets_at\":1}}}"), 0);
    assert_eq!(read("{\"rate_limits\":{\"primary\":{\"used_percent\":1,\"window_minutes\":1}}}"), 0);
    assert_eq!(
        read("{\"rate_limits\":{\"secondary\":{\"used_percent\":1,\"window_minutes\":1,\"resets_at\":1}}}"),
        1
    );
}

fn reading(resets_at: i64, start: i64) -> RateLimitReading {
    RateLimitReading {
        bucket: "five_hour".to_string(),
        sample_timestamp: "2026-07-10T00:00:00Z".to_string(),
        limit_id: None,
        limit_name: None,
        plan_type: None,
        window_start_seconds: start,
        resets_at_seconds: resets_at,
        used_percent: 1,
        remaining_percent: 99,
    }
}

#[test]
fn limits_without_a_local_time_drop_the_sample() {
    let readings = vec![
        reading(i64::MAX, 0),
        reading(0, i64::MIN),
        reading(60, 0),
        reading(LAST_LOCAL_SECOND, FIRST_LOCAL_SECOND),
        reading(LAST_LOCAL_SECOND + 1, 0),
        reading(0, FIRST_LOCAL_SECOND - 1),
    ];
    let samples = localize_readings(&readings, &Some("s".to_string()));
    assert_eq!(samples.len(), 2);
    assert_eq!(samples[0].source_session_id.as_deref(), Some("s"));
    assert_eq!(parse_epoch_millis(&samples[0].resets_at), Ok(60_000));
    let built =
        sample_from_reading(&readings[2], &None, "start".to_string(), "end".to_string());
    assert_eq!((built.window_start.as_str(), built.resets_at.as_str()), ("start", "end"));
    assert_eq!((clamp_percent(-1), clamp_percent(50), clamp_percent(101)), (0, 50, 100));
}

#[test]
fn overflowing_window_length_wraps() {
    let payload = parse_json(
        "{\"rate_limits\":{\"primary\":{\"used_percent\":-9223372036854775808,\"window_minutes\":9223372036854775807,\"resets_at\":0}}}",
    )
    .expect("payload");
    let readings = extract_rate_limit_readings("t", &payload);
    assert_eq!(readings[0].window_start_seconds, 0i64.wrapping_sub(i64::MAX.wrapping_mul(60)));
    assert_eq!(readings[0].used_percent, 0);
    assert_eq!(readings[0].remaining_percent, 0);
}

fn record(bucket: &str, timestamp: &str, used: i64, resets_at: &str) -> RateLimitSampleRecord {
    RateLimitSampleRecord {
        source_kind: "session".to_string(),
        source_session_id: Some("session-1".to_string()),
        bucket: bucket.to_string(),
        sample_timestamp: timestamp.to_string(),
        limit_id: Some("codex".to_string()),
        limit_name: None,
        plan_type: Some("pro".to_string()),
        window_start: "2026-07-10T00:00:00Z".to_string(),
        resets_at: resets_at.to_string(),
        used_percent: used,
        remaining_percent: 100 - used,
    }
}

fn parsed(records: &[RateLimitSampleRecord]) -> Vec<ParsedRateLimitSample> {
    parse_rate_limit_samples(&records.to_vec()).expect("times")
}

const END: &str = "2026-07-10T05:00:00Z";

fn at(minute: usize, used: i64) -> RateLimitSampleRecord {
    record("five_hour", &format!("2026-07-10T00:{minute:02}:00Z"), used, END)
}

fn shares(samples: &[ParsedRateLimitSample]) -> Vec<i64> {
    samples.iter().map(|sample| sample.used_percent).collect()
}

#[test]
fn history_keeps_first_changes_and_last() {
    let samples = parsed(&[at(0, 25), at(1, 25), at(2, 26), at(3, 26), at(4, 26)]);
    let history = compact_complete_session_history(&samples);
    assert_eq!(shares(&history), vec![25, 26, 26]);
    let times: Vec<i64> = history.iter().map(|sample| sample.sample_timestamp_ms).collect();
    let expected: Vec<i64> = [0, 2, 4].iter().map(|place| samples[*place].sample_timestamp_ms).collect();
    assert_eq!(times, expected);
    assert!(same_samples(&compact_complete_session_history(&history), &history));
}

#[test]
fn stored_history_is_not_written_again() {
    let samples = parsed(&[at(0, 25), at(1, 26), at(2, 26)]);
    let first = plan_session_replace(&Some(Vec::new()), &samples);
    let stored = first.history.expect("history is written");
    assert!(!first.clear_five_hour && first.clear_seven_day);
    let second = plan_session_replace(&Some(stored), &samples);
    assert!(second.history.is_none());
    for newest in &second.newest {
        assert!(!supersedes_latest(newest, newest));
    }
}

#[test]
fn unsorted_samples_are_grouped_by_owner_bucket_and_time() {
    let samples = parsed(&[
        record("seven_day", "2026-07-10T00:02:00Z", 1, END),
        at(5, 3),
        at(1, 4),
        record("seven_day", "2026-07-10T08:01:00+08:00", 2, END),
        at(5, 6),
    ]);
    let groups = grouped_sorted(&samples);
    assert_eq!(groups.len(), 2);
    assert_eq!(shares(&groups[0]), vec![4, 3, 6]);
    assert_eq!(shares(&groups[1]), vec![2, 1]);
    assert_eq!(shares(&newest_per_owner_bucket(&samples)), vec![6, 1]);
    assert!(grouped_sorted(&Vec::new()).is_empty());
}

#[test]
fn newest_sample_is_the_first_with_its_content() {
    let mut twin = at(3, 7);
    twin.window_start = "2026-07-10T08:00:00+08:00".to_string();
    let samples = parsed(&[twin, at(3, 7)]);
    let newest = newest_per_owner_bucket(&samples);
    assert_eq!(newest[0].window_start, "2026-07-10T08:00:00+08:00");
}

#[test]
fn repeated_share_moves_the_newest_sample_alone() {
    let samples = parsed(&[at(0, 25), at(1, 25)]);
    let first = plan_append(None, &vec![samples[0].copy()]);
    assert_eq!(shares(&first.history), vec![25]);
    let second = plan_append(first.latest, &vec![samples[1].copy()]);
    assert!(second.history.is_empty());
    let latest = second.latest.expect("latest");
    assert_eq!(latest.sample_timestamp_ms, samples[1].sample_timestamp_ms);
    assert!(supersedes_latest(&latest, &samples[0]));
}

#[test]
fn changed_share_is_added_to_the_history() {
    let samples = parsed(&[at(0, 25), at(1, 26)]);
    let plan = plan_append(Some(samples[0].copy()), &vec![samples[1].copy()]);
    assert_eq!(shares(&plan.history), vec![26]);
}

#[test]
fn new_window_adds_the_close_of_the_old_one() {
    let next = record("five_hour", "2026-07-10T06:00:00Z", 1, "2026-07-10T11:00:00Z");
    let samples = parsed(&[at(0, 25), at(1, 26), next]);
    let plan = plan_append(Some(samples[1].copy()), &vec![samples[2].copy()]);
    assert_eq!(shares(&plan.history), vec![26, 1]);
    let whole = plan_append(None, &samples);
    assert_eq!(shares(&whole.history), vec![25, 26, 1]);
}

#[test]
fn outdated_samples_add_nothing() {
    let samples = parsed(&[at(5, 25), at(1, 30)]);
    let plan = plan_append(Some(samples[0].copy()), &vec![samples[1].copy()]);
    assert!(plan.history.is_empty());
    assert_eq!(shares(&[plan.latest.expect("latest")]), vec![25]);
    assert!(!supersedes_latest(&samples[1], &samples[0]));
    assert!(plan_append(None, &Vec::new()).latest.is_none());
}

#[test]
fn first_bad_time_of_a_sample_is_reported() {
    let mut bad = at(1, 5);
    bad.window_start = "bad \"time\"".to_string();
    let error = parse_rate_limit_samples(&vec![at(0, 5), bad]).expect_err("bad time");
    assert_eq!(error.field_name, "window_start");
    let reason = parse_epoch_millis("bad \"time\"").expect_err("reason");
    assert_eq!(
        error.message(),
        format!("Invalid rate limit window_start \"bad \\\"time\\\"\": {reason}")
    );
    let mut first = at(0, 5);
    first.sample_timestamp = "never".to_string();
    first.resets_at = "never".to_string();
    let error = parse_rate_limit_samples(&vec![first]).expect_err("bad time");
    assert_eq!(error.field_name, "sample_timestamp");
    let mut last = at(0, 5);
    last.resets_at = "never".to_string();
    assert_eq!(parse_rate_limit_samples(&vec![last]).expect_err("bad").field_name, "resets_at");
}

#[test]
fn samples_are_clamped_and_given_to_their_session() {
    let mut samples = parsed(&[record("five_hour", "2026-07-10T10:00:00+08:00", 130, END)]);
    assert_eq!(
        samples[0].sample_timestamp_ms,
        parse_epoch_millis("2026-07-10T02:00:00Z").expect("time")
    );
    assert_eq!(samples[0].window_start_ms + 5 * 3_600_000, samples[0].resets_at_ms);
    assert_eq!((samples[0].used_percent, samples[0].remaining_percent), (100, 0));
    assert_eq!(samples[0].limit_name, "");
    normalize_session_owner(&mut samples, "session-2");
    assert_eq!(samples[0].source_session_id, "session-2");
    assert_eq!(samples[0].source_kind, "session");
}

fn live(primary: bool, secondary: bool) -> LiveRateLimitSnapshot {
    let window = RateLimitWindowSnapshot {
        used_percent: 10,
        remaining_percent: 90,
        window_duration_mins: Some(300),
        resets_at: Some(END.to_string()),
        window_start: Some("2026-07-10T00:00:00Z".to_string()),
    };
    LiveRateLimitSnapshot {
        limit_id: None,
        limit_name: Some("Codex".to_string()),
        plan_type: None,
        primary: if primary { Some(window.clone()) } else { None },
        secondary: if secondary { Some(window) } else { None },
        fetched_at: "2026-07-10T01:00:00Z".to_string(),
    }
}

#[test]
fn live_windows_need_both_their_limits() {
    let samples = live_rate_limit_samples(&live(true, true));
    assert_eq!(samples.len(), 2);
    assert_eq!(samples[0].source_kind, "live");
    assert_eq!((samples[0].bucket.as_str(), samples[1].bucket.as_str()), ("five_hour", "seven_day"));
    assert_eq!(samples[0].sample_timestamp, "2026-07-10T01:00:00Z");
    let mut open = live(true, false);
    if let Some(window) = &mut open.primary {
        window.window_start = None;
    }
    assert!(live_rate_limit_samples(&open).is_empty());
    assert!(parse_rate_limit_samples(&samples).is_ok());
}

#[test]
fn newer_bucket_is_shown() {
    let primary = parsed(&[record("five_hour", "2026-07-10T10:00:00+08:00", 25, END)]).remove(0);
    let secondary = parsed(&[record("seven_day", "2026-07-10T03:00:01Z", 30, END)]).remove(0);
    let limits = latest_rate_limits(&Some(primary.copy()), &Some(secondary.copy())).expect("limits");
    assert!(limits.primary.is_none());
    assert_eq!(limits.secondary.expect("secondary").used_percent, 30);
    assert_eq!(limits.fetched_at, "2026-07-10T03:00:01Z");
    assert_eq!(limits.limit_name, None);
    assert_eq!(limits.limit_id.as_deref(), Some("codex"));
    let alone = latest_rate_limits(&Some(primary), &None).expect("limits");
    assert_eq!(alone.primary.expect("primary").window_duration_mins, Some(300));
    assert!(latest_rate_limits(&None, &None).is_none());
}

#[test]
fn windows_observed_together_are_shown_together() {
    let primary = parsed(&[at(0, 25)]).remove(0);
    let mut secondary = parsed(&[record("seven_day", "2026-07-10T00:00:00Z", 30, END)]).remove(0);
    let both = latest_rate_limits(&Some(primary.copy()), &Some(secondary.copy())).expect("limits");
    assert!(both.primary.is_some() && both.secondary.is_some());
    secondary.source_session_id = "session-9".to_string();
    let one = latest_rate_limits(&Some(primary.copy()), &Some(secondary)).expect("limits");
    assert!(one.primary.is_some() && one.secondary.is_none());
    let mut reversed = primary;
    reversed.resets_at_ms = reversed.window_start_ms - 1;
    let shown = latest_rate_limits(&Some(reversed), &None).expect("limits");
    assert_eq!(shown.primary.expect("primary").window_duration_mins, Some(0));
}

#[test]
fn write_stats_start_at_zero() {
    let stats = RateLimitWriteStats::default();
    assert_eq!((stats.observed, stats.historical_inserted, stats.latest_updated), (0, 0, 0));
}

fn session_sample(sample_timestamp: &str, window_start: &str, resets_at: &str) -> RateLimitSampleRecord {
    RateLimitSampleRecord {
        source_kind: "session".to_string(),
        source_session_id: Some("session-1".to_string()),
        bucket: "five_hour".to_string(),
        sample_timestamp: sample_timestamp.to_string(),
        limit_id: Some("codex".to_string()),
        limit_name: Some("Codex".to_string()),
        plan_type: Some("pro".to_string()),
        window_start: window_start.to_string(),
        resets_at: resets_at.to_string(),
        used_percent: 25,
        remaining_percent: 75,
    }
}

#[test]
fn local_time_shows_the_start_of_its_minute() {
    let minute = LocalTimes::minute_of(1_774_589_100).expect("local time").into_text();
    let inside = LocalTimes::minute_of(1_774_589_128).expect("local time").into_text();
    assert_eq!(minute, inside);
    assert_eq!(parse_epoch_millis(&inside), Ok(1_774_589_100_000));
    assert!(LocalTimes::minute_of(LAST_LOCAL_SECOND + 1).is_none());
    assert_eq!(shown_time(Some("minute".to_string()), "second".to_string()), "minute");
    assert_eq!(shown_time(None, "second".to_string()), "second");
}

fn live_snapshot(
    fetched_at: &str,
    primary_used: i64,
    secondary_used: i64,
    primary_window_start: &str,
    primary_resets_at: &str,
) -> LiveRateLimitSnapshot {
    LiveRateLimitSnapshot {
        limit_id: Some("codex".to_string()),
        limit_name: Some("Codex".to_string()),
        plan_type: Some("pro".to_string()),
        primary: Some(RateLimitWindowSnapshot {
            used_percent: primary_used,
            remaining_percent: 100 - primary_used,
            window_duration_mins: Some(300),
            window_start: Some(primary_window_start.to_string()),
            resets_at: Some(primary_resets_at.to_string()),
        }),
        secondary: Some(RateLimitWindowSnapshot {
            used_percent: secondary_used,
            remaining_percent: 100 - secondary_used,
            window_duration_mins: Some(10_080),
            window_start: Some("2026-07-06T00:00:00Z".to_string()),
            resets_at: Some("2026-07-13T00:00:00Z".to_string()),
        }),
        fetched_at: fetched_at.to_string(),
    }
}

/// A store in memory that is written as the plans say. A row of the history may have lost its
/// times in milliseconds.
#[derive(Default)]
struct Store {
    history: Vec<(ParsedRateLimitSample, bool)>,
    latest: Vec<ParsedRateLimitSample>,
    changes: usize,
}

impl Store {
    fn insert(&mut self, samples: &[ParsedRateLimitSample]) -> usize {
        for sample in samples {
            self.history.push((sample.copy(), true));
        }
        self.changes += samples.len();
        samples.len()
    }

    fn latest_place(&self, sample: &ParsedRateLimitSample) -> Option<usize> {
        self.latest.iter().position(|stored| {
            (&stored.source_kind, &stored.source_session_id, &stored.bucket)
                == (&sample.source_kind, &sample.source_session_id, &sample.bucket)
        })
    }

    fn upsert_latest(&mut self, sample: &ParsedRateLimitSample) -> usize {
        match self.latest_place(sample) {
            Some(place) if !supersedes_latest(sample, &self.latest[place]) => return 0,
            Some(place) => self.latest[place] = sample.copy(),
            None => self.latest.push(sample.copy()),
        }
        self.changes += 1;
        1
    }

    fn append(&mut self, samples: &Vec<ParsedRateLimitSample>) -> RateLimitWriteStats {
        let mut stats =
            RateLimitWriteStats { observed: samples.len(), ..RateLimitWriteStats::default() };
        for run in grouped_sorted(samples) {
            let stored = self.latest_place(&run[0]).map(|place| self.latest[place].copy());
            let plan = plan_append(stored, &run);
            stats.historical_inserted += self.insert(&plan.history);
            if let Some(latest) = &plan.latest {
                stats.latest_updated += self.upsert_latest(latest);
            }
        }
        stats
    }

    fn insert_records(
        &mut self,
        records: &Vec<RateLimitSampleRecord>,
    ) -> Result<RateLimitWriteStats, String> {
        let samples = parse_rate_limit_samples(records).map_err(|error| error.message())?;
        Ok(self.append(&samples))
    }

    fn insert_live(&mut self, snapshot: &LiveRateLimitSnapshot) -> RateLimitWriteStats {
        self.insert_records(&live_rate_limit_samples(snapshot)).expect("insert live snapshot")
    }

    fn append_session(&mut self, session_id: &str, records: &[RateLimitSampleRecord]) {
        let mut samples = parsed(records);
        normalize_session_owner(&mut samples, session_id);
        self.append(&samples);
    }

    fn replace_session(
        &mut self,
        session_id: &str,
        records: &[RateLimitSampleRecord],
    ) -> Result<RateLimitWriteStats, String> {
        let mut samples =
            parse_rate_limit_samples(&records.to_vec()).map_err(|error| error.message())?;
        normalize_session_owner(&mut samples, session_id);
        let stored = if self.history.iter().all(|(_, filled)| *filled) {
            Some(self.history.iter().map(|(sample, _)| sample.copy()).collect())
        } else {
            None
        };
        let plan = plan_session_replace(&stored, &samples);
        let mut stats =
            RateLimitWriteStats { observed: samples.len(), ..RateLimitWriteStats::default() };
        if let Some(history) = &plan.history {
            self.changes += self.history.len();
            self.history.clear();
            stats.historical_inserted = self.insert(history);
        }
        for sample in &plan.newest {
            stats.latest_updated += self.upsert_latest(sample);
        }
        Ok(stats)
    }

    fn timestamps(&self) -> Vec<&str> {
        let mut rows: Vec<&ParsedRateLimitSample> =
            self.history.iter().map(|(sample, _)| sample).collect();
        rows.sort_by_key(|sample| sample.sample_timestamp_ms);
        rows.iter().map(|sample| sample.sample_timestamp.as_str()).collect()
    }

    fn latest_live(&self) -> Option<LiveRateLimitSnapshot> {
        let window = |bucket: &str| {
            self.latest
                .iter()
                .filter(|sample| sample.source_kind == "live" && sample.bucket == bucket)
                .max_by_key(|sample| sample.sample_timestamp_ms)
                .map(|sample| sample.copy())
        };
        latest_rate_limits(&window("five_hour"), &window("seven_day"))
    }
}

#[test]
fn repeated_live_percent_updates_latest_without_growing_history() {
    let mut store = Store::default();
    let first = live_snapshot(
        "2026-07-10T10:00:00Z",
        40,
        20,
        "2026-07-10T08:00:00Z",
        "2026-07-10T13:00:00Z",
    );
    let repeated = live_snapshot(
        "2026-07-10T10:05:00Z",
        40,
        20,
        "2026-07-10T08:00:00Z",
        "2026-07-10T13:00:00Z",
    );
    let first_stats = store.insert_live(&first);
    let repeated_stats = store.insert_live(&repeated);
    assert_eq!(first_stats.historical_inserted, 2);
    assert_eq!(first_stats.latest_updated, 2);
    assert_eq!(repeated_stats.historical_inserted, 0);
    assert_eq!(repeated_stats.latest_updated, 2);
    assert_eq!(store.history.len(), 2);
    assert_eq!(store.latest.len(), 2);
    assert_eq!(store.latest_live().expect("latest snapshot").fetched_at, repeated.fetched_at);
}

#[test]
fn changed_percent_adds_one_history_point() {
    let mut store = Store::default();
    store.insert_live(&live_snapshot(
        "2026-07-10T10:00:00Z",
        40,
        20,
        "2026-07-10T08:00:00Z",
        "2026-07-10T13:00:00Z",
    ));
    let stats = store.insert_live(&live_snapshot(
        "2026-07-10T10:05:00Z",
        41,
        20,
        "2026-07-10T08:00:00Z",
        "2026-07-10T13:00:00Z",
    ));
    assert_eq!(stats.historical_inserted, 1);
    assert_eq!(stats.latest_updated, 2);
    assert_eq!(store.history.len(), 3);
}

#[test]
fn new_window_keeps_previous_close_and_new_start() {
    let mut store = Store::default();
    let mut first = live_snapshot(
        "2026-07-10T10:00:00Z",
        40,
        20,
        "2026-07-10T08:00:00Z",
        "2026-07-10T13:00:00Z",
    );
    first.secondary = None;
    let mut close = first.clone();
    close.fetched_at = "2026-07-10T12:59:00Z".to_string();
    let mut next = live_snapshot(
        "2026-07-10T13:00:00Z",
        0,
        20,
        "2026-07-10T13:00:00Z",
        "2026-07-10T18:00:00Z",
    );
    next.secondary = None;
    store.insert_live(&first);
    store.insert_live(&close);
    let stats = store.insert_live(&next);
    assert_eq!(stats.historical_inserted, 2);
    assert_eq!(
        store.timestamps(),
        ["2026-07-10T10:00:00Z", "2026-07-10T12:59:00Z", "2026-07-10T13:00:00Z"]
    );
}

#[test]
fn session_batch_keeps_first_change_and_last() {
    let mut store = Store::default();
    let sample = |timestamp: &str| {
        session_sample(timestamp, "2026-07-10T08:00:00Z", "2026-07-10T13:00:00Z")
    };
    let mut samples = vec![
        sample("2026-07-10T10:00:00Z"),
        sample("2026-07-10T10:01:00Z"),
        sample("2026-07-10T10:02:00Z"),
        sample("2026-07-10T10:03:00Z"),
    ];
    samples[2].used_percent = 26;
    samples[2].remaining_percent = 74;
    samples[3].used_percent = 26;
    samples[3].remaining_percent = 74;
    let stats = store.replace_session("session-1", &samples).expect("replace session samples");
    assert_eq!(stats.observed, 4);
    assert_eq!(stats.historical_inserted, 3);
    assert_eq!(
        store.timestamps(),
        ["2026-07-10T10:00:00Z", "2026-07-10T10:02:00Z", "2026-07-10T10:03:00Z"]
    );
}

#[test]
fn repeated_session_replace_performs_zero_semantic_writes() {
    let mut store = Store::default();
    let samples = vec![
        session_sample("2026-07-10T10:00:00Z", "2026-07-10T08:00:00Z", "2026-07-10T13:00:00Z"),
        session_sample("2026-07-10T10:01:00Z", "2026-07-10T08:00:00Z", "2026-07-10T13:00:00Z"),
    ];
    store.replace_session("session-1", &samples).expect("insert session samples");
    let changes_before = store.changes;
    let stats = store.replace_session("session-1", &samples).expect("repeat session samples");
    assert_eq!(stats.historical_inserted, 0);
    assert_eq!(stats.latest_updated, 0);
    assert_eq!(store.changes, changes_before);
}

#[test]
fn latest_quota_uses_epoch_order() {
    let mut store = Store::default();
    let newer = live_snapshot(
        "2026-07-10T03:00:01Z",
        41,
        20,
        "2026-07-10T02:00:00Z",
        "2026-07-10T07:00:00Z",
    );
    let older = live_snapshot(
        "2026-07-10T10:00:00+08:00",
        40,
        20,
        "2026-07-10T09:00:00+08:00",
        "2026-07-10T14:00:00+08:00",
    );
    store.insert_live(&newer);
    store.insert_live(&older);
    let latest = store.latest_live().expect("latest snapshot");
    assert_eq!(latest.fetched_at, newer.fetched_at);
    assert_eq!(latest.primary.map(|window| window.used_percent), Some(41));
}

#[test]
fn session_latest_rows_are_owned_independently() {
    let mut store = Store::default();
    let first =
        session_sample("2026-07-10T10:00:00Z", "2026-07-10T08:00:00Z", "2026-07-10T13:00:00Z");
    let mut second = first.clone();
    second.source_session_id = Some("session-2".to_string());
    second.sample_timestamp = "2026-07-10T10:01:00Z".to_string();
    store.append_session("session-1", &[first]);
    store.append_session("session-2", &[second]);
    let owners = store
        .latest
        .iter()
        .filter(|sample| sample.source_kind == "session" && sample.bucket == "five_hour")
        .count();
    assert_eq!(owners, 2);
}

#[test]
fn session_quota_write_populates_all_epoch_fields() {
    let mut store = Store::default();
    let sample = session_sample(
        "2026-07-10T10:00:00+08:00",
        "2026-07-10T09:00:00+08:00",
        "2026-07-10T14:00:00+08:00",
    );
    store.replace_session("session-1", &[sample.clone()]).expect("replace session quota samples");
    let row = &store.history[0].0;
    assert_eq!(
        (Ok(row.sample_timestamp_ms), Ok(row.window_start_ms), Ok(row.resets_at_ms)),
        (
            parse_epoch_millis(&sample.sample_timestamp),
            parse_epoch_millis(&sample.window_start),
            parse_epoch_millis(&sample.resets_at),
        )
    );
}

#[test]
fn live_quota_write_populates_all_epoch_fields() {
    let mut store = Store::default();
    let snapshot = LiveRateLimitSnapshot {
        limit_id: Some("codex".to_string()),
        limit_name: Some("Codex".to_string()),
        plan_type: Some("pro".to_string()),
        primary: Some(RateLimitWindowSnapshot {
            used_percent: 10,
            remaining_percent: 90,
            window_duration_mins: Some(300),
            window_start: Some("2026-07-10T02:00:00Z".to_string()),
            resets_at: Some("2026-07-10T07:00:00Z".to_string()),
        }),
        secondary: None,
        fetched_at: "2026-07-10T10:00:00+08:00".to_string(),
    };
    store.insert_live(&snapshot);
    assert_eq!(store.history.len(), 1);
    let row = &store.history[0].0;
    assert_eq!(row.source_kind, "live");
    assert_eq!(
        (Ok(row.sample_timestamp_ms), Ok(row.window_start_ms), Ok(row.resets_at_ms)),
        (
            parse_epoch_millis(&snapshot.fetched_at),
            parse_epoch_millis("2026-07-10T02:00:00Z"),
            parse_epoch_millis("2026-07-10T07:00:00Z"),
        )
    );
}

#[test]
fn malformed_quota_append_writes_nothing() {
    let samples = vec![
        session_sample("2026-07-10T02:00:00Z", "2026-07-10T02:00:00Z", "2026-07-10T07:00:00Z"),
        session_sample("2026-07-10T02:01:00Z", "invalid-window-start", "2026-07-10T07:01:00Z"),
    ];
    let mut store = Store::default();
    assert!(store.insert_records(&samples).is_err());
    assert_eq!(store.history.len(), 0);
    let error = parse_rate_limit_samples(&samples).expect_err("malformed batch");
    assert_eq!(error.field_name, "window_start");
    assert_eq!(error.value, "invalid-window-start");
}

#[test]
fn malformed_quota_replace_preserves_existing_session_rows() {
    let mut store = Store::default();
    let existing =
        session_sample("2026-07-10T02:00:00Z", "2026-07-10T02:00:00Z", "2026-07-10T07:00:00Z");
    store.replace_session("session-1", &[existing.clone()]).expect("insert existing sample");
    let malformed =
        session_sample("invalid-sample-timestamp", "2026-07-10T02:01:00Z", "2026-07-10T07:01:00Z");
    let result = store.replace_session("session-1", &[malformed]);
    assert!(result.is_err());
    assert_eq!(store.timestamps(), [existing.sample_timestamp.as_str()]);
}

#[test]
fn session_replace_repairs_legacy_null_epoch_rows() {
    let mut store = Store::default();
    let sample =
        session_sample("2026-07-10T02:00:00Z", "2026-07-10T02:00:00Z", "2026-07-10T07:00:00Z");
    store.replace_session("session-1", &[sample.clone()]).expect("insert initial sample");
    store.history[0].1 = false;
    store.replace_session("session-1", &[sample]).expect("repair legacy session sample");
    assert_eq!(store.history.iter().filter(|(_, filled)| *filled).count(), 1);
    assert_eq!(store.history[0].0.sample_timestamp_ms, 1_783_648_800_000);
}
