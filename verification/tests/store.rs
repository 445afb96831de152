use codex_pacer::database::epoch_backfill::{
    migrate_quota_row, migrate_usage_row, plan_missing_time, BackfillAction, BackfillReply,
    EpochBackfill, EpochBackfillCancellationPoint, EpochBackfillProgress, QuotaEpochRow, TimePlan,
    UsageEpochRow,
};
use codex_pacer::database::usage_events::{
    assign_session, planned_usage_events, plan_usage_replace, prepare_usage_events, NewUsageEvent,
    PreparedUsageEvent, StoredUsageEvent, UsageEventWriteStats,
};
use codex_pacer::database::{bool_to_i64, i64_to_bool};
use codex_pacer::models::{TokenUsage, UsageSnapshot};
use codex_pacer::session_log::ModelNames;
use codex_pacer::text_map::TextMap;
use codex_pacer::timestamps::{parse_epoch_millis, parse_instant};
use codex_pacer::usage::{usage_event_plan, ParsedSessionMode};

#[test]
fn truth_values_survive_storage() {
    assert_eq!((bool_to_i64(true), bool_to_i64(false)), (1, 0));
    assert!(i64_to_bool(bool_to_i64(true)) && !i64_to_bool(bool_to_i64(false)));
    assert!(i64_to_bool(-7));
}

#[test]
fn epoch_parser_orders_mixed_offsets_by_instant() {
    let earlier = parse_epoch_millis("2026-07-10T10:00:00+08:00")
        .expect("parse timestamp with positive offset");
    let later = parse_epoch_millis("2026-07-10T03:00:01Z").expect("parse timestamp in UTC");

    assert!(earlier < later);
}

#[test]
fn epoch_parser_gives_exact_milliseconds() {
    assert_eq!(parse_epoch_millis("1970-01-01T00:00:01.500Z"), Ok(1_500));
    assert_eq!(parse_epoch_millis("1969-12-31T23:59:59.999Z"), Ok(-1));
    assert!(parse_epoch_millis("not-an-rfc3339-timestamp").is_err());
    let instant = parse_instant("1970-01-01T01:00:00.25+00:30").expect("instant");
    assert_eq!((instant.millis, instant.seconds, instant.nanos), (1_800_250, 1_800, 250_000_000));
    let later = parse_instant("1970-01-01T00:30:00.250000001Z").expect("instant");
    assert!(instant.is_at_or_before(&later) && !later.is_at_or_before(&instant));
    assert!(instant.is_at_or_before(&instant));
    assert!(parse_instant("1970-01-01").is_none());
}

fn event(session_id: &str, model_id: &str, total_tokens: i64) -> NewUsageEvent {
    NewUsageEvent {
        session_id: session_id.to_string(),
        model_id: model_id.to_string(),
        input_tokens: total_tokens,
        cached_input_tokens: 0,
        output_tokens: 0,
        reasoning_output_tokens: 0,
        total_tokens,
        value_key: Some(0),
        fast_mode_auto: false,
        fast_mode_effective: false,
    }
}

fn texts(values: &[&str]) -> Vec<String> {
    values.iter().map(|value| value.to_string()).collect()
}

#[test]
fn new_usage_event_writes_timestamp_ms() {
    let timestamps = texts(&["2026-07-10T10:00:00+08:00"]);
    let prepared = prepare_usage_events(&timestamps, &vec![Some(event("session-1", "gpt-5.4", 10))])
        .expect("prepare");
    assert_eq!(prepared[0].timestamp, timestamps[0]);
    assert_eq!(
        prepared[0].timestamp_ms,
        parse_epoch_millis(&timestamps[0]).expect("parse expected timestamp")
    );
}

#[test]
fn usage_event_batch_parses_mixed_offsets_by_instant() {
    let timestamps = texts(&["2026-07-10T10:00:00+08:00", "2026-07-10T02:00:01Z"]);
    let events = vec![Some(event("session-1", "gpt-5.4", 1)), Some(event("session-1", "gpt-5.4", 2))];
    let prepared = prepare_usage_events(&timestamps, &events).expect("prepare");
    assert_eq!(prepared.len(), 2);
    assert_eq!(prepared[1].timestamp_ms - prepared[0].timestamp_ms, 1_000);
}

#[test]
fn malformed_new_usage_batch_writes_nothing() {
    let timestamps = texts(&["2026-07-10T02:00:00Z", "not-an-rfc3339-timestamp"]);
    let events = vec![Some(event("session-1", "gpt-5.4", 1)), Some(event("session-1", "gpt-5.4", 2))];
    let error = prepare_usage_events(&timestamps, &events).expect_err("bad batch");
    let reason = parse_epoch_millis("not-an-rfc3339-timestamp").expect_err("reason");
    assert_eq!(
        error.message(),
        format!("Invalid usage event timestamp \"not-an-rfc3339-timestamp\": {reason}")
    );
}

#[test]
fn times_without_events_are_passed_over_but_still_checked() {
    let timestamps = texts(&["2026-07-10T02:00:00Z", "2026-07-10T02:00:01Z"]);
    let prepared =
        prepare_usage_events(&timestamps, &vec![None, Some(event("s", "m", 2))]).expect("prepare");
    assert_eq!(prepared.len(), 1);
    assert_eq!(prepared[0].timestamp, "2026-07-10T02:00:01Z");
    assert!(prepare_usage_events(&texts(&["never"]), &vec![None]).is_err());
}

fn batch(totals: &[i64]) -> Vec<PreparedUsageEvent> {
    let timestamps: Vec<String> =
        (0..totals.len()).map(|second| format!("2026-07-10T02:00:{second:02}Z")).collect();
    let events = totals.iter().map(|total| Some(event("other", "gpt-5.4", *total))).collect();
    let mut prepared = prepare_usage_events(&timestamps, &events).expect("prepare");
    assign_session(&mut prepared, "session-1");
    prepared
}

fn stored(events: Vec<PreparedUsageEvent>) -> Vec<StoredUsageEvent> {
    events
        .into_iter()
        .map(|prepared| StoredUsageEvent {
            timestamp: prepared.timestamp,
            timestamp_ms: Some(prepared.timestamp_ms),
            event: prepared.event,
        })
        .collect()
}

#[test]
fn same_usage_is_not_written_again() {
    assert_eq!(batch(&[1, 2])[0].event.session_id, "session-1");
    let plan = plan_usage_replace(&stored(batch(&[1, 2])), &batch(&[1, 2]));
    assert!(!plan.rebuild);
    assert_eq!(plan.insert_from, 2);
    assert_eq!(
        plan.stats(2, 0),
        UsageEventWriteStats { observed: 2, inserted: 0, deleted: 0, rebuilt: false }
    );
}

#[test]
fn longer_usage_is_appended() {
    let plan = plan_usage_replace(&stored(batch(&[1, 2])), &batch(&[1, 2, 3]));
    assert!(!plan.rebuild);
    assert_eq!(plan.stats(3, 0).inserted, 1);
    assert!(!plan_usage_replace(&Vec::new(), &batch(&[1])).rebuild);
}

#[test]
fn changed_usage_is_rebuilt() {
    let plan = plan_usage_replace(&stored(batch(&[1, 2])), &batch(&[1, 9, 3]));
    assert!(plan.rebuild);
    assert_eq!(
        plan.stats(3, 2),
        UsageEventWriteStats { observed: 3, inserted: 3, deleted: 2, rebuilt: true }
    );
    assert!(plan_usage_replace(&stored(batch(&[1, 2])), &batch(&[1])).rebuild);
    assert_eq!(UsageEventWriteStats::default().observed, 0);
}

#[test]
fn price_that_equals_nothing_forces_a_rebuild() {
    let mut priceless = batch(&[1]);
    priceless[0].event.value_key = None;
    assert!(plan_usage_replace(&stored(priceless.clone()), &priceless).rebuild);
    let mut dearer = batch(&[1]);
    dearer[0].event.value_key = Some(5);
    assert!(plan_usage_replace(&stored(batch(&[1])), &dearer).rebuild);
}

#[test]
fn stored_event_without_its_time_forces_a_rebuild() {
    let mut unfilled = stored(batch(&[1, 2]));
    unfilled[1].timestamp_ms = None;
    assert!(plan_usage_replace(&unfilled, &batch(&[1, 2])).rebuild);
}

#[test]
fn planned_usage_becomes_events() {
    let usage = |total: i64| TokenUsage {
        input_tokens: total,
        cached_input_tokens: 1,
        output_tokens: 2,
        reasoning_output_tokens: 3,
        total_tokens: total,
    };
    let snapshots: Vec<UsageSnapshot> = [10, 10, 30]
        .iter()
        .enumerate()
        .map(|(index, total)| UsageSnapshot {
            timestamp: format!("2026-07-10T02:00:{index:02}Z"),
            model_id: "GPT".to_string(),
            usage: usage(*total),
            last_token_usage: None,
            plan_type: None,
            limit_id: None,
            limit_name: None,
            explicit_fast_mode: None,
        })
        .collect();
    let plan = usage_event_plan(&ParsedSessionMode::Full, &snapshots, 0, false);
    let mut canonical: TextMap<String> = TextMap::new();
    canonical.insert("GPT".to_string(), "gpt".to_string());
    let names = ModelNames { canonical };
    let (timestamps, events) =
        planned_usage_events("s", &snapshots, &plan, &vec![Some(1), Some(2)], &names);
    assert_eq!(timestamps, texts(&["2026-07-10T02:00:00Z", "2026-07-10T02:00:02Z"]));
    let second = events[1].as_ref().expect("event");
    assert_eq!((second.total_tokens, second.input_tokens, second.output_tokens), (20, 20, 0));
    assert_eq!((second.model_id.as_str(), second.value_key), ("gpt", Some(2)));
    assert_eq!(prepare_usage_events(&timestamps, &events).expect("prepare").len(), 2);
}

/// Runs a batch over a store of `usage` and `quota` rows, giving it up at the `stop`th question.
fn run(
    batch_size: usize,
    complete: bool,
    usage: usize,
    quota: usize,
    stop: Option<usize>,
) -> (Option<EpochBackfillProgress>, Vec<BackfillAction>) {
    let mut batch = EpochBackfill::new(batch_size);
    let mut actions = Vec::new();
    let mut questions = 0;
    loop {
        let action = batch.action;
        actions.push(action);
        let reply = match action {
            BackfillAction::AskCancelled(_) => {
                questions += 1;
                BackfillReply::Cancelled(stop == Some(questions))
            }
            BackfillAction::CheckComplete | BackfillAction::BeginAndCheckComplete => {
                BackfillReply::Complete(complete)
            }
            BackfillAction::LoadUsageRows(limit) => BackfillReply::Loaded(usage.min(limit)),
            BackfillAction::LoadQuotaRows(limit) => BackfillReply::Loaded(quota.min(limit)),
            BackfillAction::Finish(progress) => return (Some(progress), actions),
            BackfillAction::Abandon => return (None, actions),
            _ => BackfillReply::Done,
        };
        batch.advance(reply);
    }
}

fn progress(usage: usize, quota: usize, complete: bool) -> Option<EpochBackfillProgress> {
    Some(EpochBackfillProgress { usage_rows_updated: usage, quota_rows_updated: quota, complete })
}

#[test]
fn batch_takes_up_no_more_rows_than_asked_for() {
    let (done, actions) = run(3, false, 4, 4, None);
    let done = done.expect("progress");
    assert_eq!(done.usage_rows_updated + done.quota_rows_updated, 3);
    assert!(!done.complete);
    assert!(!actions.contains(&BackfillAction::MarkComplete));
    assert!(actions.contains(&BackfillAction::SaveUsageCursor));
}

#[test]
fn larger_batches_are_capped() {
    assert_eq!(run(5_000, false, 1_500, 10, None).0, progress(1_000, 0, false));
}

#[test]
fn empty_batch_only_looks() {
    let (done, actions) = run(0, false, 4, 4, None);
    assert_eq!(done, progress(0, 0, false));
    assert_eq!(actions.len(), 3);
    assert_eq!(run(0, true, 0, 0, None).0, progress(0, 0, true));
}

#[test]
fn backfill_fills_a_batch_from_both_streams() {
    assert_eq!(run(5, false, 2, 9, None).0, progress(2, 3, false));
    assert_eq!(run(5, false, 2, 3, None).0, progress(2, 3, false));
    let (done, actions) = run(5, false, 2, 2, None);
    assert_eq!(done, progress(2, 2, true));
    assert!(actions.contains(&BackfillAction::MarkComplete));
    assert_eq!(run(5, false, 0, 0, None).0, progress(0, 0, true));
    assert_eq!(run(5, false, 5, 0, None).0, progress(5, 0, false));
}

#[test]
fn completed_backfill_loads_nothing() {
    let (done, actions) = run(5, true, 4, 4, None);
    assert_eq!(done, progress(0, 0, true));
    assert!(!actions.iter().any(|action| matches!(action, BackfillAction::LoadUsageRows(_))));
    assert!(!actions.contains(&BackfillAction::MarkComplete));
}

fn point(action: &BackfillAction) -> Option<EpochBackfillCancellationPoint> {
    match action {
        BackfillAction::AskCancelled(point) => Some(*point),
        _ => None,
    }
}

#[test]
fn cancelled_backfill_never_commits() {
    let points: Vec<EpochBackfillCancellationPoint> =
        run(5, false, 1, 1, None).1.iter().filter_map(point).collect();
    assert_eq!(
        points,
        vec![
            EpochBackfillCancellationPoint::Transaction,
            EpochBackfillCancellationPoint::UsageRow,
            EpochBackfillCancellationPoint::QuotaRow,
            EpochBackfillCancellationPoint::CompletionMarker,
            EpochBackfillCancellationPoint::Commit,
        ]
    );
    for stop in 1..=points.len() {
        let (done, actions) = run(5, false, 1, 1, Some(stop));
        assert_eq!(done, None);
        assert!(!actions.contains(&BackfillAction::Commit));
    }
}

fn assert_cancel_at(cancel_at: EpochBackfillCancellationPoint, usage: usize, quota: usize) {
    let stop = run(1_000, false, usage, quota, None)
        .1
        .iter()
        .filter_map(point)
        .position(|asked| asked == cancel_at)
        .expect("the point is asked for")
        + 1;
    let (done, actions) = run(1_000, false, usage, quota, Some(stop));
    assert_eq!(done, None);
    assert!(!actions.contains(&BackfillAction::Commit));
    assert_eq!(actions.last(), Some(&BackfillAction::Abandon));
}

#[test]
fn epoch_backfill_cancellation_before_usage_mutation_rolls_back_everything() {
    assert_cancel_at(EpochBackfillCancellationPoint::UsageRow, 1, 0);
}

#[test]
fn epoch_backfill_cancellation_before_quota_mutation_rolls_back_everything() {
    assert_cancel_at(EpochBackfillCancellationPoint::QuotaRow, 1, 1);
}

#[test]
fn epoch_backfill_cancellation_before_completion_marker_rolls_back_everything() {
    assert_cancel_at(EpochBackfillCancellationPoint::CompletionMarker, 1, 1);
}

#[test]
fn epoch_backfill_cancellation_before_commit_rolls_back_everything() {
    assert_cancel_at(EpochBackfillCancellationPoint::Commit, 1, 1);
}

#[test]
fn pre_cancelled_epoch_backfill_does_not_open_a_transaction() {
    let (done, actions) = run(5, false, 1, 1, Some(1));
    assert_eq!(done, None);
    assert!(!actions.contains(&BackfillAction::BeginAndCheckComplete));
}

#[test]
fn missing_time_is_stored_or_set_aside() {
    let row = |timestamp: &str, millis: Option<i64>| UsageEpochRow {
        id: 1,
        timestamp: timestamp.to_string(),
        timestamp_ms: millis,
    };
    let reason = parse_epoch_millis("broken").expect_err("reason");
    match migrate_usage_row(&row("broken", None)) {
        TimePlan::Quarantine(message) => assert_eq!(message, reason),
        other => panic!("{other:?}"),
    }
    assert!(matches!(migrate_usage_row(&row("1970-01-01T00:00:01Z", None)), TimePlan::Store(1_000)));
    assert!(matches!(migrate_usage_row(&row("broken", Some(5))), TimePlan::Keep));
    assert!(matches!(plan_missing_time("1970-01-01T00:00:01Z", Some(1_000)), TimePlan::Keep));
}

#[test]
fn each_time_of_a_row_is_planned_by_itself() {
    let plan = migrate_quota_row(&QuotaEpochRow {
        id: 1,
        sample_timestamp: "bad".to_string(),
        sample_timestamp_ms: None,
        window_start: "1970-01-01T00:00:02Z".to_string(),
        window_start_ms: None,
        resets_at: "worse".to_string(),
        resets_at_ms: Some(3),
    });
    assert!(matches!(plan.sample_timestamp, TimePlan::Quarantine(_)));
    assert!(matches!(plan.window_start, TimePlan::Store(2_000)));
    assert!(matches!(plan.resets_at, TimePlan::Keep));
    assert!(plan.needs_update());
}

#[test]
fn row_without_a_new_time_is_not_written() {
    let plan = migrate_quota_row(&QuotaEpochRow {
        id: 1,
        sample_timestamp: "bad".to_string(),
        sample_timestamp_ms: None,
        window_start: "bad".to_string(),
        window_start_ms: None,
        resets_at: "1970-01-01T00:00:02Z".to_string(),
        resets_at_ms: Some(2_000),
    });
    assert!(!plan.needs_update());
}

/// A store of usage in memory that is written as the plans say.
#[derive(Default)]
struct UsageStore {
    rows: Vec<(i64, StoredUsageEvent)>,
    next_id: i64,
    changes: usize,
}

impl UsageStore {
    fn replace(
        &mut self,
        session_id: &str,
        timestamps: &[&str],
        event_at: impl Fn(usize) -> NewUsageEvent,
    ) -> Result<UsageEventWriteStats, String> {
        let events = (0..timestamps.len()).map(|index| Some(event_at(index))).collect();
        let mut desired = prepare_usage_events(&texts(timestamps), &events)
            .map_err(|error| error.message())?;
        assign_session(&mut desired, session_id);
        let kept = self.rows.iter().map(|(_, row)| row.clone()).collect();
        let plan = plan_usage_replace(&kept, &desired);
        let mut deleted = 0;
        if plan.rebuild {
            deleted = self.rows.len();
            self.changes += deleted;
            self.rows.clear();
        }
        let stats = plan.stats(desired.len(), deleted);
        for row in stored(desired).into_iter().skip(plan.insert_from) {
            self.next_id += 1;
            self.changes += 1;
            self.rows.push((self.next_id, row));
        }
        Ok(stats)
    }

    fn ids(&self) -> Vec<i64> {
        self.rows.iter().map(|(id, _)| *id).collect()
    }
}

#[test]
fn repeated_session_usage_replace_writes_nothing_and_preserves_ids() {
    let mut store = UsageStore::default();
    let timestamps = ["2026-07-10T02:00:00Z", "2026-07-10T02:01:00Z"];
    let event_at = |index: usize| event("session-1", "gpt-5.4", index as i64 + 1);
    store.replace("session-1", &timestamps, event_at).expect("insert initial usage");
    let ids_before = store.ids();
    let changes_before = store.changes;
    let stats = store.replace("session-1", &timestamps, event_at).expect("repeat usage");
    assert_eq!(stats.inserted, 0);
    assert_eq!(stats.deleted, 0);
    assert!(!stats.rebuilt);
    assert_eq!(store.ids(), ids_before);
    assert_eq!(store.changes, changes_before);
}

#[test]
fn appended_session_usage_preserves_prefix_ids() {
    let mut store = UsageStore::default();
    let initial = ["2026-07-10T02:00:00Z", "2026-07-10T02:01:00Z"];
    let event_at = |index: usize| event("session-1", "gpt-5.4", index as i64 + 1);
    store.replace("session-1", &initial, event_at).expect("insert initial usage");
    let ids_before = store.ids();
    let appended = ["2026-07-10T02:00:00Z", "2026-07-10T02:01:00Z", "2026-07-10T02:02:00Z"];
    let stats = store.replace("session-1", &appended, event_at).expect("append usage");
    let ids_after = store.ids();
    assert_eq!(stats.inserted, 1);
    assert_eq!(stats.deleted, 0);
    assert!(!stats.rebuilt);
    assert_eq!(&ids_after[..ids_before.len()], ids_before.as_slice());
    assert_eq!(ids_after.len(), 3);
}

#[test]
fn changed_session_usage_prefix_rebuilds_safely() {
    let mut store = UsageStore::default();
    let timestamps = ["2026-07-10T02:00:00Z", "2026-07-10T02:01:00Z"];
    store
        .replace("session-1", &timestamps, |index| event("session-1", "gpt-5.4", index as i64 + 1))
        .expect("insert initial usage");
    let ids_before = store.ids();
    let stats = store
        .replace("session-1", &timestamps, |index| event("session-1", "gpt-5.4", index as i64 + 10))
        .expect("rebuild changed usage");
    assert_eq!(stats.inserted, 2);
    assert_eq!(stats.deleted, 2);
    assert!(stats.rebuilt);
    assert_ne!(store.ids(), ids_before);
}

#[test]
fn malformed_session_usage_replace_preserves_existing_rows() {
    let mut store = UsageStore::default();
    store
        .replace("session-1", &["2026-07-10T02:00:00Z"], |_| event("session-1", "gpt-5.4", 1))
        .expect("insert initial usage");
    let ids_before = store.ids();
    let malformed = ["2026-07-10T02:00:00Z", "invalid-timestamp"];
    let result = store.replace("session-1", &malformed, |index| {
        event("session-1", "gpt-5.4", index as i64 + 1)
    });
    assert!(result.is_err());
    assert_eq!(store.ids(), ids_before);
}

/// A store of times in memory that is written as a batch says.
#[derive(Default)]
struct EpochStore {
    usage: Vec<UsageEpochRow>,
    quota: Vec<QuotaEpochRow>,
    usage_cursor: i64,
    quota_cursor: i64,
    quarantine: Vec<(&'static str, i64, &'static str, String)>,
    quota_updates: usize,
    completed: usize,
}

impl EpochStore {
    fn insert_usage(&mut self, timestamp: &str) -> i64 {
        let id = self.usage.len() as i64 + 1;
        self.usage.push(UsageEpochRow { id, timestamp: timestamp.to_string(), timestamp_ms: None });
        id
    }

    fn insert_quota(&mut self, sample_timestamp: &str, window_start: &str, resets_at: &str) -> i64 {
        let id = self.quota.len() as i64 + 1;
        self.quota.push(QuotaEpochRow {
            id,
            sample_timestamp: sample_timestamp.to_string(),
            sample_timestamp_ms: None,
            window_start: window_start.to_string(),
            window_start_ms: None,
            resets_at: resets_at.to_string(),
            resets_at_ms: None,
        });
        id
    }

    fn migrate_usage(&mut self, id: i64) {
        let row = &mut self.usage[id as usize - 1];
        match migrate_usage_row(row) {
            TimePlan::Keep => {}
            TimePlan::Store(millis) => row.timestamp_ms = Some(millis),
            TimePlan::Quarantine(_) => {
                self.quarantine.push(("usage_events", id, "timestamp", row.timestamp.clone()));
            }
        }
    }

    fn migrate_quota(&mut self, id: i64) {
        let row = &mut self.quota[id as usize - 1];
        let plan = migrate_quota_row(row);
        if plan.needs_update() {
            self.quota_updates += 1;
        }
        let columns = [
            ("resets_at", &row.resets_at, &mut row.resets_at_ms, plan.resets_at),
            (
                "sample_timestamp",
                &row.sample_timestamp,
                &mut row.sample_timestamp_ms,
                plan.sample_timestamp,
            ),
            ("window_start", &row.window_start, &mut row.window_start_ms, plan.window_start),
        ];
        for (column, text, value, plan) in columns {
            match plan {
                TimePlan::Keep => {}
                TimePlan::Store(millis) => *value = Some(millis),
                TimePlan::Quarantine(_) => {
                    self.quarantine.push(("rate_limit_samples", id, column, text.clone()));
                }
            }
        }
    }

    fn run(&mut self, batch_size: usize) -> EpochBackfillProgress {
        let mut batch = EpochBackfill::new(batch_size);
        let mut loaded: Vec<i64> = Vec::new();
        loop {
            let reply = match batch.action {
                BackfillAction::AskCancelled(_) => BackfillReply::Cancelled(false),
                BackfillAction::CheckComplete | BackfillAction::BeginAndCheckComplete => {
                    BackfillReply::Complete(self.completed > 0)
                }
                BackfillAction::LoadUsageRows(limit) => {
                    let cursor = self.usage_cursor;
                    let ids = self.usage.iter().map(|row| row.id).filter(|id| *id > cursor);
                    loaded = ids.take(limit).collect();
                    BackfillReply::Loaded(loaded.len())
                }
                BackfillAction::LoadQuotaRows(limit) => {
                    let cursor = self.quota_cursor;
                    let ids = self.quota.iter().map(|row| row.id).filter(|id| *id > cursor);
                    loaded = ids.take(limit).collect();
                    BackfillReply::Loaded(loaded.len())
                }
                BackfillAction::MigrateUsageRow(place) => {
                    self.migrate_usage(loaded[place]);
                    BackfillReply::Done
                }
                BackfillAction::MigrateQuotaRow(place) => {
                    self.migrate_quota(loaded[place]);
                    BackfillReply::Done
                }
                BackfillAction::SaveUsageCursor => {
                    self.usage_cursor = *loaded.last().expect("a row was loaded");
                    BackfillReply::Done
                }
                BackfillAction::SaveQuotaCursor => {
                    self.quota_cursor = *loaded.last().expect("a row was loaded");
                    BackfillReply::Done
                }
                BackfillAction::MarkComplete => {
                    self.completed += 1;
                    BackfillReply::Done
                }
                BackfillAction::Commit => BackfillReply::Done,
                BackfillAction::Finish(progress) => return progress,
                BackfillAction::Abandon => panic!("nothing was cancelled"),
            };
            batch.advance(reply);
        }
    }
}

#[test]
fn backfill_updates_at_most_requested_batch_size() {
    let mut store = EpochStore::default();
    for second in 0..4 {
        store.insert_usage(&format!("2026-07-10T03:00:0{second}Z"));
        let quota = format!("2026-07-10T04:00:0{second}Z");
        store.insert_quota(&quota, &quota, &quota);
    }
    let progress = store.run(3);
    assert_eq!(progress.usage_rows_updated + progress.quota_rows_updated, 3);
    assert!(!progress.complete);
    let usage_migrated = store.usage.iter().filter(|row| row.timestamp_ms.is_some()).count();
    let quota_migrated = store
        .quota
        .iter()
        .filter(|row| {
            row.sample_timestamp_ms.is_some()
                && row.window_start_ms.is_some()
                && row.resets_at_ms.is_some()
        })
        .count();
    assert_eq!(usage_migrated + quota_migrated, 3);
}

#[test]
fn backfill_caps_oversized_batches_at_one_thousand_rows() {
    let mut store = EpochStore::default();
    for _ in 0..1_001 {
        store.insert_usage("2026-07-10T03:00:00Z");
    }
    let progress = store.run(1_001);
    assert_eq!(progress.usage_rows_updated + progress.quota_rows_updated, 1_000);
    assert!(!progress.complete);
}

#[test]
fn backfill_zero_batch_does_not_complete_unfinished_repair() {
    let mut store = EpochStore::default();
    store.insert_usage("2026-07-10T03:00:00Z");
    let progress = store.run(0);
    assert_eq!(progress.usage_rows_updated, 0);
    assert_eq!(progress.quota_rows_updated, 0);
    assert!(!progress.complete);
    assert_eq!(store.completed, 0);
}

#[test]
fn epoch_backfill_resumes_from_durable_cursors_after_restart() {
    let mut store = EpochStore::default();
    let first_id = store.insert_usage("2026-07-10T03:00:00Z");
    let second_id = store.insert_usage("2026-07-10T03:00:01Z");
    store.insert_usage("2026-07-10T03:00:02Z");
    assert_eq!(store.run(1).usage_rows_updated, 1);
    store.usage[first_id as usize - 1].timestamp_ms = None;
    assert_eq!(store.run(1).usage_rows_updated, 1);
    assert_eq!(store.usage[first_id as usize - 1].timestamp_ms, None);
    assert!(store.usage[second_id as usize - 1].timestamp_ms.is_some());
    assert_eq!(store.usage_cursor, second_id);
}

#[test]
fn malformed_epoch_is_quarantined_without_blocking_later_rows() {
    let mut store = EpochStore::default();
    let malformed_id = store.insert_usage("not-a-timestamp");
    let valid_id = store.insert_usage("2026-07-10T03:00:01Z");
    let progress = store.run(10);
    assert!(progress.complete);
    assert_eq!(store.usage[malformed_id as usize - 1].timestamp_ms, None);
    assert_eq!(
        store.usage[valid_id as usize - 1].timestamp_ms,
        Some(parse_epoch_millis("2026-07-10T03:00:01Z").expect("parse expected epoch"))
    );
    assert_eq!(
        store.quarantine,
        [("usage_events", malformed_id, "timestamp", "not-a-timestamp".to_string())]
    );
}

#[test]
fn malformed_quota_epochs_are_quarantined_per_column_without_blocking_later_rows() {
    let mut store = EpochStore::default();
    let partial_id =
        store.insert_quota("bad-sample", "2026-07-10T05:00:00Z", "2026-07-10T10:00:00Z");
    let malformed_id = store.insert_quota("bad-sample-2", "bad-window", "bad-reset");
    let valid_id = store.insert_quota(
        "2026-07-10T06:00:00Z",
        "2026-07-10T06:00:00Z",
        "2026-07-10T11:00:00Z",
    );
    let progress = store.run(10);
    assert!(progress.complete);
    let epochs = |id: i64| {
        let row = &store.quota[id as usize - 1];
        (row.sample_timestamp_ms, row.window_start_ms, row.resets_at_ms)
    };
    assert_eq!(
        epochs(partial_id),
        (
            None,
            parse_epoch_millis("2026-07-10T05:00:00Z").ok(),
            parse_epoch_millis("2026-07-10T10:00:00Z").ok(),
        )
    );
    assert_eq!(epochs(malformed_id), (None, None, None));
    let valid = epochs(valid_id);
    assert!(valid.0.is_some() && valid.1.is_some() && valid.2.is_some());
    let quarantined = |id: i64, column: &'static str, value: &str| {
        ("rate_limit_samples", id, column, value.to_string())
    };
    assert_eq!(
        store.quarantine,
        [
            quarantined(partial_id, "sample_timestamp", "bad-sample"),
            quarantined(malformed_id, "resets_at", "bad-reset"),
            quarantined(malformed_id, "sample_timestamp", "bad-sample-2"),
            quarantined(malformed_id, "window_start", "bad-window"),
        ]
    );
    assert_eq!(store.quota_cursor, valid_id);
}

#[test]
fn quota_backfill_skips_updates_when_no_epoch_value_can_change() {
    let mut store = EpochStore::default();
    let populated = "2026-07-10T05:00:00Z";
    let populated_id = store.insert_quota(populated, populated, populated);
    let row = &mut store.quota[populated_id as usize - 1];
    row.sample_timestamp_ms = Some(1);
    row.window_start_ms = Some(2);
    row.resets_at_ms = Some(3);
    store.insert_quota("bad-sample", "bad-window", "bad-reset");
    let progress = store.run(10);
    assert!(progress.complete);
    assert_eq!(progress.quota_rows_updated, 2);
    assert_eq!(store.quota_updates, 0);
    let row = &store.quota[populated_id as usize - 1];
    assert_eq!(
        (row.sample_timestamp_ms, row.window_start_ms, row.resets_at_ms),
        (Some(1), Some(2), Some(3))
    );
    assert_eq!(store.quarantine.len(), 3);
}

#[test]
fn epoch_backfill_completion_is_idempotent() {
    let mut store = EpochStore::default();
    store.insert_usage("2026-07-10T03:00:00Z");
    let quota = "2026-07-10T04:00:00Z";
    store.insert_quota(quota, quota, quota);
    assert!(store.run(10).complete);
    let cursors = (store.usage_cursor, store.quota_cursor);
    let second = store.run(10);
    assert!(second.complete);
    assert_eq!(second.usage_rows_updated, 0);
    assert_eq!(second.quota_rows_updated, 0);
    assert_eq!(store.completed, 1);
    assert_eq!((store.usage_cursor, store.quota_cursor), cursors);
}
