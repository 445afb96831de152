use codex_pacer::models::{TokenUsage, UsageSnapshot};
use codex_pacer::usage::{
    diff_usage, is_zero_delta, monotonic_usage_high_water, non_negative_delta, usage_event_plan,
    ParsedSessionMode, PlannedUsage,
};

fn usage(input: i64, cached: i64, output: i64, reasoning: i64, total: i64) -> TokenUsage {
    TokenUsage {
        input_tokens: input,
        cached_input_tokens: cached,
        output_tokens: output,
        reasoning_output_tokens: reasoning,
        total_tokens: total,
    }
}

fn snapshot(total: i64, last: Option<i64>) -> UsageSnapshot {
    UsageSnapshot {
        timestamp: "2026-03-24T00:00:00Z".to_string(),
        model_id: "gpt-5.4".to_string(),
        usage: usage(total, 0, 0, 0, total),
        last_token_usage: last.map(|turn| usage(turn, 0, 0, 0, turn)),
        plan_type: None,
        limit_id: None,
        limit_name: None,
        explicit_fast_mode: None,
    }
}

fn totals(plan: &[PlannedUsage]) -> Vec<(usize, i64)> {
    plan.iter().map(|event| (event.snapshot_index, event.delta.total_tokens)).collect()
}

#[test]
fn diff_usage_handles_growth_and_component_rollbacks() {
    let previous = TokenUsage {
        input_tokens: 10,
        cached_input_tokens: 2,
        output_tokens: 3,
        reasoning_output_tokens: 1,
        total_tokens: 13,
    };
    let current = TokenUsage {
        input_tokens: 18,
        cached_input_tokens: 5,
        output_tokens: 7,
        reasoning_output_tokens: 2,
        total_tokens: 25,
    };
    let delta = diff_usage(&previous, &current);
    assert_eq!(delta.input_tokens, 8);
    assert_eq!(delta.cached_input_tokens, 3);
    assert_eq!(delta.output_tokens, 4);
    assert_eq!(delta.reasoning_output_tokens, 1);
    assert_eq!(delta.total_tokens, 12);

    let component_rollback = TokenUsage {
        input_tokens: 28,
        cached_input_tokens: 3,
        output_tokens: 12,
        reasoning_output_tokens: 1,
        total_tokens: 40,
    };
    let delta = diff_usage(&current, &component_rollback);
    assert_eq!(delta.input_tokens, 10);
    assert_eq!(delta.cached_input_tokens, 0);
    assert_eq!(delta.output_tokens, 5);
    assert_eq!(delta.reasoning_output_tokens, 0);
    assert_eq!(delta.total_tokens, 15);
}

#[test]
fn diff_usage_ignores_non_monotonic_replayed_totals() {
    let previous = TokenUsage {
        input_tokens: 18,
        cached_input_tokens: 5,
        output_tokens: 7,
        reasoning_output_tokens: 2,
        total_tokens: 25,
    };
    let replayed = TokenUsage {
        input_tokens: 17,
        cached_input_tokens: 4,
        output_tokens: 6,
        reasoning_output_tokens: 1,
        total_tokens: 24,
    };
    let delta = diff_usage(&previous, &replayed);
    assert!(is_zero_delta(&delta));
}

#[test]
fn zero_delta_helper_keeps_reasoning_only_growth() {
    assert!(!is_zero_delta(&TokenUsage {
        input_tokens: 0,
        cached_input_tokens: 0,
        output_tokens: 0,
        reasoning_output_tokens: 8,
        total_tokens: 0,
    }));
}

#[test]
fn counts_saturate_and_totals_wrap_at_the_limits() {
    assert_eq!(non_negative_delta(5, 9), 0);
    assert_eq!(non_negative_delta(i64::MAX, -1), i64::MAX);
    assert_eq!(non_negative_delta(i64::MAX, i64::MIN), i64::MAX);
    assert_eq!(non_negative_delta(-3, -10), 7);
    let delta = diff_usage(&usage(-1, 0, 0, 0, -1), &usage(i64::MAX, 0, 0, 0, i64::MAX));
    assert_eq!(delta.input_tokens, i64::MAX);
    assert_eq!(delta.total_tokens, i64::MIN);
}

#[test]
fn default_usage_is_zero() {
    assert_eq!(TokenUsage::default(), usage(0, 0, 0, 0, 0));
    assert!(is_zero_delta(&TokenUsage::default()));
}

#[test]
fn high_water_keeps_the_earliest_of_equal_totals() {
    let mut snapshots = vec![snapshot(100, None), snapshot(80, None), snapshot(100, None)];
    snapshots[2].usage.cached_input_tokens = 7;
    assert_eq!(monotonic_usage_high_water(None, &snapshots), Some(usage(100, 0, 0, 0, 100)));
    assert_eq!(
        monotonic_usage_high_water(Some(usage(150, 1, 2, 3, 150)), &snapshots),
        Some(usage(150, 1, 2, 3, 150))
    );
    assert_eq!(monotonic_usage_high_water(None, &Vec::new()), None);
}

#[test]
fn non_monotonic_snapshots_bill_only_their_growth() {
    let snapshots: Vec<UsageSnapshot> =
        [1000, 400, 1000, 1100, 900, 1200].iter().map(|total| snapshot(*total, None)).collect();
    let plan = usage_event_plan(&ParsedSessionMode::Full, &snapshots, 0, false);
    assert_eq!(totals(&plan), vec![(0, 1000), (3, 100), (5, 100)]);
    let billed: i64 = plan.iter().map(|event| event.delta.total_tokens).sum();
    assert_eq!(billed, 1200);
}

#[test]
fn fork_is_billed_by_its_last_turn_and_from_its_cutoff() {
    let snapshots = vec![snapshot(1000, Some(40)), snapshot(1060, Some(60))];
    let forked = usage_event_plan(&ParsedSessionMode::Full, &snapshots, 0, true);
    assert_eq!(totals(&forked), vec![(0, 40), (1, 60)]);
    let spawned = usage_event_plan(&ParsedSessionMode::Full, &snapshots, 0, false);
    assert_eq!(totals(&spawned), vec![(0, 1000), (1, 60)]);
    let cut = usage_event_plan(&ParsedSessionMode::Full, &snapshots, 1, true);
    assert_eq!(totals(&cut), vec![(1, 60)]);
    let beyond = usage_event_plan(&ParsedSessionMode::Full, &snapshots, 7, true);
    assert!(beyond.is_empty());
    let without_turn = vec![snapshot(70, None)];
    let whole = usage_event_plan(&ParsedSessionMode::Full, &without_turn, 0, true);
    assert_eq!(totals(&whole), vec![(0, 70)]);
}

#[test]
fn tail_continues_where_the_full_import_stopped() {
    let head = vec![snapshot(100, None), snapshot(90, None)];
    let tail = vec![snapshot(95, None), snapshot(130, None)];
    let whole: Vec<UsageSnapshot> = head.iter().chain(tail.iter()).map(|item| item.copy()).collect();
    let first = usage_event_plan(&ParsedSessionMode::Full, &head, 0, false);
    let previous_usage = monotonic_usage_high_water(None, &head);
    let mode = ParsedSessionMode::Tail { previous_usage };
    let second = usage_event_plan(&mode, &tail, 0, false);
    let all = usage_event_plan(&ParsedSessionMode::Full, &whole, 0, false);
    let mut joined = totals(&first);
    joined.extend(totals(&second).into_iter().map(|(place, total)| (place + head.len(), total)));
    assert_eq!(joined, totals(&all));
    assert_eq!(joined, vec![(0, 100), (3, 30)]);
    assert_eq!(
        monotonic_usage_high_water(previous_usage, &tail),
        monotonic_usage_high_water(None, &whole)
    );
}

#[test]
fn zero_first_reading_gives_no_event() {
    let snapshots = vec![snapshot(0, None), snapshot(5, None)];
    let plan = usage_event_plan(&ParsedSessionMode::Full, &snapshots, 0, false);
    assert_eq!(totals(&plan), vec![(1, 5)]);
}

#[test]
fn totals_below_zero_are_billed_by_their_growth() {
    let snapshots: Vec<UsageSnapshot> =
        [-10, -4, -7, 5].iter().map(|total| snapshot(*total, None)).collect();
    let plan = usage_event_plan(&ParsedSessionMode::Full, &snapshots, 0, false);
    assert_eq!(totals(&plan), [(0, -10), (1, 6), (3, 9)]);
    assert_eq!(plan.iter().map(|planned| planned.delta.total_tokens).sum::<i64>(), 5);
}
