use codex_pacer::codex_home::{place_below_home, resolve_codex_home, CodexHome, ExpandedPath};
use codex_pacer::database::epoch_backfill::{plan_read_time, TimePlan};
use codex_pacer::database::rate_limit_samples::time_rate_limit_sample;
use codex_pacer::database::usage_events::{time_usage_events, NewUsageEvent};
use codex_pacer::import_state::{ImportState, ParserCheckpoint, SessionFile};
use codex_pacer::incremental::{DiskFile, IncrementalContext, ScanPaths, SourceRoot};
use codex_pacer::json::Json;
use codex_pacer::models::{RateLimitSampleRecord, TokenUsage, UsageSnapshot};
use codex_pacer::numbers::round_to_integer;
use codex_pacer::replay::{replayed_cutoff_among, ReplayKey};
use codex_pacer::session_index::take_index_record;
use codex_pacer::session_log::{
    session_meta_at, turn_context_model, ModelNames, SessionLogParser, SessionTailParser, TailStep,
};
use codex_pacer::text_map::TextMap;
use codex_pacer::timestamps::Instant;

fn text(value: &str) -> Json {
    Json::Text(value.to_string())
}

fn number(value: i64) -> Json {
    Json::Number { integer: Some(value), double_bits: Some((value as f64).to_bits()) }
}

fn object(fields: Vec<(&str, Json)>) -> Json {
    Json::Object(fields.into_iter().map(|(key, value)| (key.to_string(), value)).collect())
}

fn names() -> ModelNames {
    let mut canonical = TextMap::new();
    canonical.insert("Model-A".to_string(), "model-a".to_string());
    ModelNames { canonical }
}

fn model_record() -> Json {
    object(vec![
        ("type", text("turn_context")),
        ("payload", object(vec![("model", text("Model-A"))])),
    ])
}

fn token_record(total: i64) -> Json {
    let usage = object(vec![
        ("input_tokens", number(total - 1)),
        ("output_tokens", number(1)),
        ("total_tokens", number(total)),
    ]);
    object(vec![
        ("type", text("event_msg")),
        ("timestamp", text("2026-01-01T00:00:00Z")),
        (
            "payload",
            object(vec![
                ("type", text("token_count")),
                ("info", object(vec![("total_token_usage", usage)])),
            ]),
        ),
    ])
}

#[test]
fn records_of_a_log_are_taken_in_as_given() {
    let mut parser = SessionLogParser::new(Some("session".to_string()));
    assert!(parser.take_record("m\n", &Some(model_record()), "now", &names()));
    assert!(parser.take_record("tok\n", &Some(token_record(12)), "now", &names()));
    assert!(parser.take_record("no record\n", &None, "now", &names()));
    assert!(!parser.take_record("unfinished", &None, "now", &names()));
    assert_eq!(parser.reading.completed_offset, 2 + 4 + 10);
    let file = SessionFile {
        source_path: "/logs/a.jsonl".to_string(),
        name_session_id: Some("session".to_string()),
        bucket: "active".to_string(),
        file_size: 26,
        file_mtime_ms: 1,
    };
    let parsed = parser.finish(&file, &TextMap::new(), vec![]).expect("session");
    assert_eq!(parsed.snapshots.len(), 1);
    assert_eq!(parsed.snapshots[0].usage.total_tokens, 12);
    assert_eq!(parsed.snapshots[0].model_id, "model-a");
}

#[test]
fn records_of_a_tail_are_taken_in_as_given() {
    let checkpoint = ParserCheckpoint {
        completed_offset: 40,
        prefix_signature: vec![],
        last_usage: None,
        current_model: None,
        explicit_fast_mode: None,
        latest_plan_type: None,
    };
    let mut tail = SessionTailParser::resume(&checkpoint);
    let step = tail.take_record("tok\n", &Some(token_record(7)), "now", &names());
    assert!(matches!(step, TailStep::GoOn));
    let meta = object(vec![("type", text("session_meta"))]);
    let step = tail.take_record("meta\n", &Some(meta), "now", &names());
    assert!(matches!(step, TailStep::ReadInFull));
    let step = tail.take_record("unfinished", &None, "now", &names());
    assert!(matches!(step, TailStep::Stop));
    assert_eq!(tail.reading.completed_offset, 49);
}

#[test]
fn only_turn_contexts_name_models() {
    assert_eq!(turn_context_model(&model_record()).as_deref(), Some("Model-A"));
    assert_eq!(turn_context_model(&token_record(3)), None);
    assert_eq!(turn_context_model(&object(vec![("type", text("turn_context"))])), None);
}

#[test]
fn titles_are_trimmed_of_every_white_space() {
    let mut titles: TextMap<String> = TextMap::new();
    let entry = object(vec![("id", text("s")), ("thread_name", text("\u{3000}\u{85} a b\u{a0}\n"))]);
    take_index_record(&mut titles, &entry);
    assert_eq!(titles.get("s").map(String::as_str), Some("a b"));
    let blank = object(vec![("id", text("t")), ("thread_name", text("\u{2028}\t"))]);
    take_index_record(&mut titles, &blank);
    assert!(titles.get("t").is_none());
    let joined = object(vec![("id", text("u")), ("thread_name", text("\u{200b}"))]);
    take_index_record(&mut titles, &joined);
    assert_eq!(titles.get("u").map(String::as_str), Some("\u{200b}"));
}

#[test]
fn blank_homes_are_passed_over() {
    let blank = Some(" \t\u{2003}".to_string());
    let home = resolve_codex_home(&blank, None, &Some("/env".to_string()), true).expect("home");
    assert!(matches!(home, CodexHome::At(path) if path == "/env"));
    let place = place_below_home("~/x", Some("x".to_string()), true).expect("place");
    assert!(matches!(place, ExpandedPath::BelowHome(path) if path == "x"));
    let error = place_below_home("~/x", Some("x".to_string()), false).expect_err("no home");
    assert_eq!(error, "Unable to resolve home directory for Codex home path: ~/x");
    assert!(matches!(place_below_home("/x", None, false), Ok(ExpandedPath::AsGiven)));
}

fn usage(total: i64) -> TokenUsage {
    TokenUsage {
        input_tokens: total,
        cached_input_tokens: 0,
        output_tokens: 0,
        reasoning_output_tokens: 0,
        total_tokens: total,
    }
}

#[test]
fn copies_are_found_among_given_keys() {
    let child: Vec<UsageSnapshot> = [10, 20, 35]
        .iter()
        .map(|total| UsageSnapshot {
            timestamp: "t".to_string(),
            model_id: "m".to_string(),
            usage: usage(*total),
            last_token_usage: Some(usage(*total)),
            plan_type: None,
            limit_id: None,
            limit_name: None,
            explicit_fast_mode: None,
        })
        .collect();
    let key = |total: i64| {
        Some(ReplayKey { total_token_usage: usage(total), last_token_usage: usage(total) })
    };
    assert_eq!(replayed_cutoff_among(&vec![key(5), key(10), key(20), key(30)], &child), 2);
    assert_eq!(replayed_cutoff_among(&vec![key(10)], &child), 1);
    assert_eq!(replayed_cutoff_among(&vec![key(10), key(5)], &child), 0);
    assert_eq!(replayed_cutoff_among(&vec![key(10), None, key(20)], &child), 0);
}

#[test]
fn given_times_are_stored_with_their_events() {
    let event = NewUsageEvent {
        session_id: "s".to_string(),
        model_id: "m".to_string(),
        input_tokens: 1,
        cached_input_tokens: 0,
        output_tokens: 0,
        reasoning_output_tokens: 0,
        total_tokens: 1,
        value_key: Some(0),
        fast_mode_auto: false,
        fast_mode_effective: false,
    };
    let prepared = time_usage_events(
        &vec!["a".to_string(), "b".to_string()],
        &vec![7, 8],
        &vec![None, Some(event)],
    );
    assert_eq!(prepared.len(), 1);
    assert_eq!((prepared[0].timestamp.as_str(), prepared[0].timestamp_ms), ("b", 8));
}

#[test]
fn given_times_are_stored_with_their_sample() {
    let sample = RateLimitSampleRecord {
        source_kind: "session".to_string(),
        source_session_id: None,
        bucket: "five_hour".to_string(),
        sample_timestamp: "a".to_string(),
        limit_id: None,
        limit_name: Some("name".to_string()),
        plan_type: None,
        window_start: "b".to_string(),
        resets_at: "c".to_string(),
        used_percent: 101,
        remaining_percent: -1,
    };
    let parsed = time_rate_limit_sample(&sample, 1, 2, 3);
    assert_eq!(
        (parsed.sample_timestamp_ms, parsed.window_start_ms, parsed.resets_at_ms),
        (1, 2, 3)
    );
    assert_eq!((parsed.used_percent, parsed.remaining_percent), (100, 0));
    assert_eq!((parsed.source_session_id.as_str(), parsed.limit_name.as_str()), ("", "name"));
}

#[test]
fn missing_time_is_planned_from_its_reading() {
    assert!(matches!(plan_read_time(Ok(5), Some(4)), TimePlan::Keep));
    assert!(matches!(plan_read_time(Ok(5), None), TimePlan::Store(5)));
    let plan = plan_read_time(Err("bad".to_string()), None);
    assert!(matches!(plan, TimePlan::Quarantine(reason) if reason == "bad"));
}

#[test]
fn files_are_gathered_by_given_places() {
    let mut import_state = TextMap::new();
    import_state.insert(
        "/a/x".to_string(),
        ImportState {
            session_id: Some("x".to_string()),
            source_path: "/a/x".to_string(),
            source_bucket: "active".to_string(),
            file_size: 1,
            file_mtime_ms: 1,
            parser_checkpoint: None,
        },
    );
    let mut disk = TextMap::new();
    for path in ["/r/x", "/a/y", "/z"] {
        disk.insert(
            path.to_string(),
            DiskFile { name_session_id: None, file_size: 2, file_mtime_ms: 3 },
        );
    }
    let context = IncrementalContext {
        import_state,
        disk,
        active_root: "/a".to_string(),
        archived_root: "/r".to_string(),
        pending_repair_session_ids: vec![],
        pending_repair_paths: vec!["/a/y".to_string(), "/z".to_string()],
    };
    let known = ScanPaths {
        archived_copies: vec![Some("/r/x".to_string())],
        pending_roots: vec![Some(SourceRoot::Active), None],
    };
    let shown = |known: &ScanPaths| {
        let found = context.gather_session_files(vec![], known);
        let files: Vec<(String, String)> =
            found.files.iter().map(|f| (f.source_path.clone(), f.bucket.clone())).collect();
        (files, found.kept_for_archive_retry)
    };
    let expected = (
        vec![
            ("/a/y".to_string(), "active".to_string()),
            ("/r/x".to_string(), "archived".to_string()),
        ],
        vec!["/a/x".to_string()],
    );
    assert_eq!(shown(&known), expected);
    assert_eq!(shown(&context.scan_paths()), expected);
    assert_eq!(context.probe_paths(&known), ["/a/x", "/r/x", "/a/y", "/z"]);
    assert!(shown(&ScanPaths { archived_copies: vec![], pending_roots: vec![] }).0.is_empty());
}

#[test]
fn doubles_are_rounded_half_away_from_zero() {
    let values = [
        0.0, -0.0, 0.49999999999999994, 0.5, 0.75, 1.0, 1.5, 2.5, 12.5, 99.99, 1e-300, 5e-324,
        4503599627370495.5, 4503599627370497.0, 9007199254740993.0, 4611686018427387904.0,
        9223372036854774784.0, 9223372036854775808.0, 1e19, 1e300, f64::MAX, f64::INFINITY,
    ];
    for value in values {
        for signed in [value, -value] {
            assert_eq!(round_to_integer(signed.to_bits()), signed.round() as i64, "{signed}");
        }
    }
    assert_eq!(round_to_integer(f64::NAN.to_bits()), 0);
    assert_eq!(round_to_integer(2.5_f64.to_bits()), 3);
    assert_eq!(round_to_integer((-2.5_f64).to_bits()), -3);
}

#[test]
fn only_forks_keep_the_moment_of_their_description() {
    let moment = Some(Instant { millis: 5_000, seconds: 5, nanos: 0 });
    let fork = object(vec![(
        "payload",
        object(vec![("id", text("child")), ("forked_from_id", text("parent"))]),
    )]);
    let meta = session_meta_at(&fork, moment).expect("description");
    assert_eq!(meta.explicit_fork_timestamp, moment);
    assert_eq!(meta.parent_session_id.as_deref(), Some("parent"));
    let spawn = object(vec![("parent_thread_id", text("spawner")), ("agent_role", text("r"))]);
    let source = object(vec![("subagent", object(vec![("thread_spawn", spawn)]))]);
    let subagent =
        object(vec![("payload", object(vec![("id", text("child")), ("source", source)]))]);
    let meta = session_meta_at(&subagent, moment).expect("description");
    assert_eq!(meta.explicit_fork_timestamp, None);
    assert_eq!(meta.parent_session_id.as_deref(), Some("spawner"));
    assert_eq!(meta.agent_role.as_deref(), Some("r"));
    assert!(session_meta_at(&object(vec![]), moment).is_none());
}
