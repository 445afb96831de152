use codex_pacer::import_state::{
    import_state_session_id_mismatch, parser_checkpoint_prefix_matches, prefix_signature_range,
    same_signature, tail_checkpoint, ImportState, ParserCheckpoint, SessionFile,
};
use codex_pacer::json::{parse_json, Json};
use codex_pacer::models::TokenUsage;
use codex_pacer::session_id::{
    fallback_session_id_from_filename, looks_like_session_id, session_id_from_stem,
};
use codex_pacer::session_index::take_index_line;
use codex_pacer::session_log::{
    read_usage, session_meta, ModelNames, ParsedSession, SessionLogParser, SessionTailParser,
    TailStep,
};
use codex_pacer::text_map::TextMap;
use codex_pacer::timestamps::parse_instant;
use codex_pacer::usage::{usage_event_plan, ParsedSessionMode};

const NOW: &str = "2026-11-16T00:00:00+00:00";

fn plain_names() -> ModelNames {
    ModelNames { canonical: TextMap::new() }
}

fn file(path: &str, bucket: &str) -> SessionFile {
    SessionFile {
        source_path: path.to_string(),
        name_session_id: fallback_session_id_from_filename(path),
        bucket: bucket.to_string(),
        file_size: 0,
        file_mtime_ms: 0,
    }
}

fn lines(body: &str) -> Vec<&str> {
    body.split_inclusive('\n').collect()
}

fn parse(path: &str, body: &str) -> Option<ParsedSession> {
    let file = file(path, "active");
    let names = plain_names();
    let mut parser = SessionLogParser::new(file.name_session_id.clone());
    for line in lines(body) {
        if !parser.take_line(line, NOW, &names) {
            break;
        }
    }
    parser.finish(&file, &TextMap::new(), Vec::new())
}

fn usage(input: i64, cached: i64, output: i64, reasoning: i64, total: i64) -> TokenUsage {
    TokenUsage {
        input_tokens: input,
        cached_input_tokens: cached,
        output_tokens: output,
        reasoning_output_tokens: reasoning,
        total_tokens: total,
    }
}

fn token_line(timestamp: &str, total: i64) -> String {
    format!(
        "{{\"timestamp\":\"{timestamp}\",\"type\":\"event_msg\",\"payload\":{{\"type\":\"token_count\",\"info\":{{\"total_token_usage\":{{\"input_tokens\":{total},\"cached_input_tokens\":0,\"output_tokens\":0,\"reasoning_output_tokens\":0,\"total_tokens\":{total}}}}},\"rate_limits\":{{\"plan_type\":\"pro\"}}}}}}\n"
    )
}

fn billed(parsed: &ParsedSession) -> Vec<i64> {
    usage_event_plan(
        &parsed.mode,
        &parsed.snapshots,
        parsed.inherited_token_snapshot_cutoff,
        parsed.explicit_forked_from_id.is_some(),
    )
    .iter()
    .map(|event| event.delta.total_tokens)
    .collect()
}

#[test]
fn parser_retains_last_usage_and_matching_explicit_fork_metadata() {
    let child_id = "55555555-5555-5555-5555-555555555555";
    let parent_id = "44444444-4444-4444-4444-444444444444";
    let path = format!("/logs/rollout-2026-03-24T00-30-00-{child_id}.jsonl");
    let body = format!(
        "{{\"timestamp\":\"2026-03-24T08:30:00+08:00\",\"type\":\"session_meta\",\"payload\":{{\"id\":\"{child_id}\",\"forked_from_id\":\"{parent_id}\"}}}}\n{{\"timestamp\":\"2026-03-24T00:30:01Z\",\"type\":\"event_msg\",\"payload\":{{\"type\":\"token_count\",\"info\":{{\"total_token_usage\":{{\"input_tokens\":180,\"cached_input_tokens\":20,\"output_tokens\":35,\"reasoning_output_tokens\":2,\"total_tokens\":217}},\"last_token_usage\":{{\"input_tokens\":80,\"cached_input_tokens\":10,\"output_tokens\":15,\"reasoning_output_tokens\":1,\"total_tokens\":96}}}}}}}}\n{{\"timestamp\":\"2026-03-24T00:30:02Z\",\"type\":\"session_meta\",\"payload\":{{\"id\":\"{parent_id}\"}}}}\n"
    );
    let parsed = parse(&path, &body).expect("parse fork session");
    assert_eq!(parsed.snapshots[0].last_token_usage, Some(usage(80, 10, 15, 1, 96)));
    assert_eq!(parsed.explicit_forked_from_id.as_deref(), Some(parent_id));
    assert_eq!(parsed.explicit_fork_timestamp, parse_instant("2026-03-24T08:30:00+08:00"));
    assert!(parsed.explicit_fork_timestamp.is_some());
    assert_eq!(parsed.raw_session.session_id, child_id);
}

#[test]
fn parser_leaves_explicit_fork_fields_empty_for_thread_spawn_only_metadata() {
    let child_id = "77777777-7777-7777-7777-777777777777";
    let parent_id = "66666666-6666-6666-6666-666666666666";
    let path = format!("/logs/rollout-2026-03-24T01-00-00-{child_id}.jsonl");
    let body = format!(
        "{{\"timestamp\":\"2026-03-24T01:00:00Z\",\"type\":\"session_meta\",\"payload\":{{\"id\":\"{child_id}\",\"source\":{{\"subagent\":{{\"thread_spawn\":{{\"parent_thread_id\":\"{parent_id}\"}}}}}}}}}}\n"
    );
    let parsed = parse(&path, &body).expect("parse thread-spawn session");
    assert_eq!(parsed.raw_session.parent_session_id.as_deref(), Some(parent_id));
    assert!(parsed.explicit_forked_from_id.is_none());
    assert!(parsed.explicit_fork_timestamp.is_none());
}

#[test]
fn parser_invalid_explicit_fork_timestamp_disables_replay_metadata() {
    let child_id = "99999999-9999-9999-9999-999999999999";
    let parent_id = "88888888-8888-8888-8888-888888888888";
    let path = format!("/logs/rollout-2026-03-24T01-30-00-{child_id}.jsonl");
    let body = format!(
        "{{\"timestamp\":\"not-an-instant\",\"type\":\"session_meta\",\"payload\":{{\"id\":\"{child_id}\",\"forked_from_id\":\"{parent_id}\"}}}}\n"
    );
    let parsed = parse(&path, &body).expect("parse invalid fork session");
    assert_eq!(parsed.explicit_forked_from_id.as_deref(), Some(parent_id));
    assert!(parsed.explicit_fork_timestamp.is_none());
}

#[test]
fn parser_keeps_parent_session_and_dedupes_model_context() {
    let body = "{\"timestamp\":\"2026-03-24T00:00:00Z\",\"type\":\"session_meta\",\"payload\":{\"id\":\"root-child\",\"forked_from_id\":\"root-parent\",\"source\":{\"subagent\":{\"thread_spawn\":{\"parent_thread_id\":\"root-parent\",\"agent_nickname\":\"Hume\",\"agent_role\":\"explorer\"}}}}}\n{\"timestamp\":\"2026-03-24T00:00:01Z\",\"type\":\"turn_context\",\"payload\":{\"model\":\"gpt-5.4\"}}\n{\"timestamp\":\"2026-03-24T00:00:02Z\",\"type\":\"event_msg\",\"payload\":{\"type\":\"token_count\",\"info\":{\"total_token_usage\":{\"input_tokens\":100,\"cached_input_tokens\":0,\"output_tokens\":25,\"reasoning_output_tokens\":5,\"total_tokens\":125}},\"rate_limits\":{\"plan_type\":\"pro\"}}}\n{\"timestamp\":\"2026-03-24T00:00:03Z\",\"type\":\"event_msg\",\"payload\":{\"type\":\"token_count\",\"info\":{\"total_token_usage\":{\"input_tokens\":100,\"cached_input_tokens\":0,\"output_tokens\":25,\"reasoning_output_tokens\":5,\"total_tokens\":125}},\"rate_limits\":{\"plan_type\":\"pro\"}}}\n";
    let parsed = parse("/logs/sample.jsonl", body).expect("parse");
    assert_eq!(parsed.raw_session.parent_session_id.as_deref(), Some("root-parent"));
    assert_eq!(parsed.raw_session.agent_nickname.as_deref(), Some("Hume"));
    assert_eq!(parsed.snapshots.len(), 2);
    assert_eq!(parsed.latest_plan_type.as_deref(), Some("pro"));
    assert_eq!(parsed.raw_session.model_ids, vec!["gpt-5.4".to_string()]);
    assert_eq!(parsed.last_model_id.as_deref(), Some("gpt-5.4"));
    assert_eq!(parsed.checkpoint.completed_offset, body.len() as u64);
    assert_eq!(parsed.checkpoint.last_usage, Some(usage(100, 0, 25, 5, 125)));
}

#[test]
fn parser_prefers_file_matching_session_meta_when_fork_file_replays_parent_meta() {
    let path = "/logs/rollout-2026-03-24T00-00-00-55555555-5555-5555-5555-555555555555.jsonl";
    let body = "{\"timestamp\":\"2026-03-24T00:00:00Z\",\"type\":\"session_meta\",\"payload\":{\"id\":\"55555555-5555-5555-5555-555555555555\",\"forked_from_id\":\"44444444-4444-4444-4444-444444444444\",\"source\":{\"subagent\":{\"thread_spawn\":{\"parent_thread_id\":\"44444444-4444-4444-4444-444444444444\",\"agent_nickname\":\"Scout\",\"agent_role\":\"explore\"}}}}}\n{\"timestamp\":\"2026-03-24T00:00:01Z\",\"type\":\"session_meta\",\"payload\":{\"id\":\"44444444-4444-4444-4444-444444444444\"}}\n{\"timestamp\":\"2026-03-24T00:00:02Z\",\"type\":\"turn_context\",\"payload\":{\"model\":\"gpt-5.4\"}}\n{\"timestamp\":\"2026-03-24T00:00:03Z\",\"type\":\"event_msg\",\"payload\":{\"type\":\"token_count\",\"info\":{\"total_token_usage\":{\"input_tokens\":100,\"cached_input_tokens\":20,\"output_tokens\":25,\"reasoning_output_tokens\":0,\"total_tokens\":125}},\"rate_limits\":{\"plan_type\":\"pro\"}}}\n";
    let parsed = parse(path, body).expect("parse");
    assert_eq!(parsed.raw_session.session_id, "55555555-5555-5555-5555-555555555555");
    assert_eq!(
        parsed.raw_session.parent_session_id.as_deref(),
        Some("44444444-4444-4444-4444-444444444444")
    );
    assert_eq!(parsed.raw_session.agent_nickname.as_deref(), Some("Scout"));
    assert_eq!(parsed.raw_session.agent_role.as_deref(), Some("explore"));
    assert_eq!(parsed.snapshots.len(), 1);
}

#[test]
fn parser_supports_legacy_top_level_id_format() {
    let path = "/logs/rollout-2025-09-09T16-29-03-0df0be29-d74d-468f-8dda-0630fc6e989e.jsonl";
    let body = "{\"id\":\"0df0be29-d74d-468f-8dda-0630fc6e989e\",\"timestamp\":\"2025-09-09T08:29:03.118Z\",\"instructions\":null}\n{\"record_type\":\"state\"}\n{\"type\":\"message\",\"role\":\"user\",\"content\":[{\"type\":\"input_text\",\"text\":\"hello\"}]}\n";
    let parsed = parse(path, body).expect("parse");
    assert_eq!(parsed.raw_session.session_id, "0df0be29-d74d-468f-8dda-0630fc6e989e");
    assert_eq!(parsed.raw_session.started_at.as_deref(), Some("2025-09-09T08:29:03.118Z"));
}

#[test]
fn parser_falls_back_to_session_id_from_filename() {
    let path = "/logs/rollout-2026-03-17T18-00-21-019cfb3d-415c-7623-aab0-22e73abcec2e.jsonl";
    let body = "{\"record_type\":\"state\"}\n{\"timestamp\":\"2026-03-17T10:00:21.636Z\",\"type\":\"message\",\"role\":\"assistant\",\"content\":[{\"type\":\"output_text\",\"text\":\"fallback\"}]}\n";
    let parsed = parse(path, body).expect("parse");
    assert_eq!(parsed.raw_session.session_id, "019cfb3d-415c-7623-aab0-22e73abcec2e");
    assert_eq!(parsed.last_model_id.as_deref(), Some("unknown"));
}

#[test]
fn log_without_any_session_id_gives_nothing() {
    assert!(parse("/logs/sample.jsonl", "{\"record_type\":\"state\"}\n").is_none());
    let mut parser = SessionLogParser::new(None);
    assert!(parser.take_line("{\"type\":\"x\"}\n", NOW, &plain_names()));
    assert_eq!(parser.final_session_id(), None);
    let empty_meta = "{\"type\":\"session_meta\",\"payload\":{\"id\":\"\"}}\n";
    assert!(parse("/logs/sample.jsonl", empty_meta).is_none());
}

#[test]
fn incomplete_trailing_line_keeps_latest_completed_token_snapshot() {
    let head = format!(
        "{{\"type\":\"session_meta\",\"payload\":{{\"id\":\"s\"}}}}\n{}",
        token_line("2026-03-24T00:00:01Z", 100)
    );
    let partial = "{\"timestamp\":\"2026-03-24T00:00:02Z\",\"type\":\"event_msg\",\"payl";
    let parsed = parse("/logs/sample.jsonl", &format!("{head}{partial}")).expect("parse");
    assert_eq!(parsed.snapshots.len(), 1);
    assert_eq!(parsed.checkpoint.completed_offset, head.len() as u64);
    assert_eq!(billed(&parsed), vec![100]);
}

#[test]
fn complete_trailing_line_without_newline_is_read() {
    let body = format!(
        "{{\"type\":\"session_meta\",\"payload\":{{\"id\":\"s\"}}}}\nnot json\n{}",
        token_line("2026-03-24T00:00:01Z", 100).trim_end()
    );
    let parsed = parse("/logs/sample.jsonl", &body).expect("parse");
    assert_eq!(parsed.snapshots.len(), 1);
    assert_eq!(parsed.checkpoint.completed_offset, body.len() as u64);
}

#[test]
fn snapshot_without_time_or_model_gets_defaults() {
    let body = "{\"id\":\"s\"}\n{\"type\":\"event_msg\",\"payload\":{\"type\":\"token_count\",\"info\":{\"total_token_usage\":{\"input_tokens\":7,\"output_tokens\":5},\"last_token_usage\":null},\"rate_limits\":{\"primary\":{\"limit_id\":\"codex\",\"limit_name\":\"Codex\"}}}}\n";
    let parsed = parse("/logs/sample.jsonl", body).expect("parse");
    assert_eq!(parsed.snapshots[0].timestamp, NOW);
    assert_eq!(parsed.snapshots[0].model_id, "unknown");
    assert_eq!(parsed.snapshots[0].usage, usage(7, 0, 5, 0, 12));
    assert_eq!(parsed.snapshots[0].last_token_usage, None);
    assert_eq!(parsed.snapshots[0].plan_type, None);
    assert_eq!(parsed.snapshots[0].limit_id.as_deref(), Some("codex"));
    assert_eq!(parsed.snapshots[0].limit_name.as_deref(), Some("Codex"));
    assert_eq!(parsed.raw_session.model_ids, vec!["unknown".to_string()]);
    assert_eq!(parsed.raw_session.started_at, None);
}

#[test]
fn reports_without_a_total_are_passed_over() {
    let body = "{\"id\":\"s\"}\n{\"type\":\"event_msg\",\"payload\":{\"type\":\"token_count\",\"info\":null}}\n{\"type\":\"event_msg\",\"payload\":{\"type\":\"token_count\",\"info\":{\"total_token_usage\":null}}}\n{\"type\":\"event_msg\",\"payload\":{\"type\":\"agent_message\"}}\n{\"type\":\"event_msg\"}\n";
    let parsed = parse("/logs/sample.jsonl", body).expect("parse");
    assert!(parsed.snapshots.is_empty());
    assert_eq!(parsed.checkpoint.last_usage, None);
}

#[test]
fn fast_mode_is_the_last_explicit_setting() {
    let body = "{\"id\":\"s\",\"fast_mode\":true}\n";
    assert_eq!(parse("/logs/s.jsonl", body).expect("parse").explicit_fast_mode, Some(true));
    let both = "{\"id\":\"s\",\"quick_mode\":true,\"fast_mode\":false}\n";
    assert_eq!(parse("/logs/s.jsonl", both).expect("parse").explicit_fast_mode, Some(false));
    let spaced = "{\"id\":\"s\",\"fast_mode\": true}\n";
    assert_eq!(parse("/logs/s.jsonl", spaced).expect("parse").explicit_fast_mode, None);
}

#[test]
fn model_names_are_made_canonical() {
    let mut canonical: TextMap<String> = TextMap::new();
    canonical.insert("GPT-5.4".to_string(), "gpt-5.4".to_string());
    let names = ModelNames { canonical };
    let mut parser = SessionLogParser::new(None);
    parser.take_line("{\"id\":\"s\"}\n", NOW, &names);
    for model in ["GPT-5.4", "gpt-5.4", "gpt-5.5"] {
        let line = format!("{{\"type\":\"turn_context\",\"payload\":{{\"model\":\"{model}\"}}}}\n");
        assert!(parser.take_line(&line, NOW, &names));
    }
    let parsed =
        parser.finish(&file("/logs/s.jsonl", "archived"), &TextMap::new(), vec![1]).expect("parse");
    assert_eq!(parsed.raw_session.model_ids, vec!["gpt-5.4".to_string(), "gpt-5.5".to_string()]);
    assert_eq!(parsed.checkpoint.current_model.as_deref(), Some("gpt-5.5"));
    assert_eq!(parsed.checkpoint.prefix_signature, vec![1]);
    assert_eq!(parsed.raw_session.source_state, "archived");
    assert_eq!(parsed.raw_session.source_path.as_deref(), Some("/logs/s.jsonl"));
}

#[test]
fn titles_come_from_the_index() {
    let mut titles: TextMap<String> = TextMap::new();
    take_index_line(&mut titles, "{\"id\":\"s\",\"thread_name\":\"  First \"}");
    take_index_line(&mut titles, "{\"id\":\"blank\",\"thread_name\":\"   \"}");
    take_index_line(&mut titles, "{\"thread_name\":\"nobody\"}");
    take_index_line(&mut titles, "no json");
    take_index_line(&mut titles, "{\"id\":\"s\",\"thread_name\":\"Second\"}");
    assert_eq!(titles.len(), 1);
    assert_eq!(titles.get("s").map(String::as_str), Some("Second"));
    let mut parser = SessionLogParser::new(None);
    parser.take_line("{\"id\":\"s\"}\n", NOW, &plain_names());
    let parsed = parser.finish(&file("/logs/s.jsonl", "active"), &titles, Vec::new());
    assert_eq!(parsed.expect("parse").raw_session.title.as_deref(), Some("Second"));
}

#[test]
fn tail_reading_equals_full_reading() {
    let head = format!(
        "{{\"timestamp\":\"2026-03-24T00:00:00Z\",\"type\":\"session_meta\",\"payload\":{{\"id\":\"s\"}}}}\n{{\"type\":\"turn_context\",\"payload\":{{\"model\":\"gpt-5.4\"}}}}\n{}{}",
        token_line("2026-03-24T00:00:01Z", 1000),
        token_line("2026-03-24T00:00:02Z", 900)
    );
    let tail = format!(
        "{}{}",
        token_line("2026-03-24T00:00:03Z", 950),
        token_line("2026-03-24T00:00:04Z", 1100)
    );
    let first = parse("/logs/s.jsonl", &head).expect("head");
    let whole = parse("/logs/s.jsonl", &format!("{head}{tail}")).expect("whole");
    let names = plain_names();
    let mut parser = SessionTailParser::resume(&first.checkpoint);
    for line in lines(&tail) {
        assert_eq!(parser.take_line(line, NOW, &names), TailStep::GoOn);
    }
    let rest = parser.finish(
        "s",
        Some("p".to_string()),
        &file("/logs/s.jsonl", "active"),
        &TextMap::new(),
        Vec::new(),
    );
    assert_eq!(rest.mode, ParsedSessionMode::Tail { previous_usage: Some(usage(1000, 0, 0, 0, 1000)) });
    assert_eq!(rest.snapshots.len(), 2);
    assert_eq!(rest.snapshots[0].model_id, "gpt-5.4");
    assert_eq!(rest.raw_session.parent_session_id.as_deref(), Some("p"));
    assert_eq!(rest.raw_session.started_at, None);
    assert_eq!(rest.checkpoint.completed_offset, whole.checkpoint.completed_offset);
    assert_eq!(rest.checkpoint.last_usage, whole.checkpoint.last_usage);
    let mut billed_twice = billed(&first);
    billed_twice.extend(billed(&rest));
    assert_eq!(billed_twice, billed(&whole));
    assert_eq!(billed_twice, vec![1000, 100]);
}

#[test]
fn tail_with_a_description_asks_for_a_full_reading() {
    let checkpoint = ParserCheckpoint {
        completed_offset: 10,
        prefix_signature: Vec::new(),
        last_usage: None,
        current_model: None,
        explicit_fast_mode: None,
        latest_plan_type: None,
    };
    let mut parser = SessionTailParser::resume(&checkpoint);
    let names = plain_names();
    assert_eq!(parser.take_line("garbage\n", NOW, &names), TailStep::GoOn);
    assert_eq!(parser.reading.completed_offset, 18);
    assert_eq!(parser.take_line("garba", NOW, &names), TailStep::Stop);
    assert_eq!(parser.reading.completed_offset, 18);
    let meta = "{\"type\":\"session_meta\",\"payload\":{\"id\":\"s\"}}\n";
    assert_eq!(parser.take_line(meta, NOW, &names), TailStep::ReadInFull);
}

fn state(size: i64, mtime: i64, offset: u64) -> ImportState {
    ImportState {
        source_path: "/logs/s.jsonl".to_string(),
        session_id: Some("s".to_string()),
        source_bucket: "active".to_string(),
        file_size: size,
        file_mtime_ms: mtime,
        parser_checkpoint: Some(ParserCheckpoint {
            completed_offset: offset,
            prefix_signature: vec![1, 2, 3],
            last_usage: None,
            current_model: None,
            explicit_fast_mode: None,
            latest_plan_type: None,
        }),
    }
}

#[test]
fn tail_is_read_only_of_grown_active_files() {
    let mut grown = file("/logs/s.jsonl", "active");
    grown.file_size = 20;
    assert!(tail_checkpoint(&state(10, 0, 10), &grown).is_some());
    assert!(tail_checkpoint(&state(20, 0, 10), &grown).is_none());
    assert!(tail_checkpoint(&state(10, 0, 21), &grown).is_none());
    let mut archived = state(10, 0, 10);
    archived.source_bucket = "archived".to_string();
    assert!(tail_checkpoint(&archived, &grown).is_none());
    let mut unnamed = state(10, 0, 10);
    unnamed.session_id = None;
    assert!(tail_checkpoint(&unnamed, &grown).is_none());
    let mut unchecked = state(10, 0, 10);
    unchecked.parser_checkpoint = None;
    assert!(tail_checkpoint(&unchecked, &grown).is_none());
    let mut renamed = grown.clone();
    renamed.name_session_id = Some("t".to_string());
    assert!(import_state_session_id_mismatch(&state(10, 0, 10), &renamed));
    assert!(tail_checkpoint(&state(10, 0, 10), &renamed).is_none());
}

#[test]
fn signature_tells_whether_a_file_still_ends_as_before() {
    let mut same = file("/logs/s.jsonl", "active");
    same.file_size = 10;
    assert!(parser_checkpoint_prefix_matches(&state(10, 0, 10), &same, &Some(vec![1, 2, 3])));
    assert!(!parser_checkpoint_prefix_matches(&state(10, 0, 10), &same, &Some(vec![1, 2, 4])));
    assert!(!parser_checkpoint_prefix_matches(&state(10, 0, 10), &same, &None));
    assert!(!parser_checkpoint_prefix_matches(&state(10, 0, 9), &same, &Some(vec![1, 2, 3])));
    assert!(!same_signature(&vec![1], &vec![1, 2]));
    assert_eq!(prefix_signature_range(100), (0, 100));
    assert_eq!(prefix_signature_range(128), (0, 128));
    assert_eq!(prefix_signature_range(1000), (872, 128));
}

#[test]
fn session_ids_are_recognised() {
    let id = "019cfb3d-415c-7623-aab0-22e73abcec2e";
    assert!(looks_like_session_id(id));
    assert!(looks_like_session_id("ABCDEF01-2345-6789-abcd-EF0123456789"));
    assert!(!looks_like_session_id("g19cfb3d-415c-7623-aab0-22e73abcec2e"));
    assert!(!looks_like_session_id("019cfb3d-415c-7623-aab0-22e73abcec2"));
    assert!(!looks_like_session_id("019cfb3d-415c-7623-aab022e73abcec2e1"));
    assert_eq!(session_id_from_stem(id).as_deref(), Some(id));
    assert_eq!(session_id_from_stem(&format!("rollout-{id}")).as_deref(), Some(id));
    assert_eq!(session_id_from_stem(&format!("rollout{id}")), None);
    assert_eq!(session_id_from_stem("short"), None);
    assert_eq!(
        fallback_session_id_from_filename(&format!("/a/b/rollout-{id}.jsonl")).as_deref(),
        Some(id)
    );
    assert_eq!(fallback_session_id_from_filename("/a/.."), None);
}

#[test]
fn json_values_are_read_by_kind() {
    let json = parse_json("{\"a\":{\"b\":\"x\"},\"n\":12.5,\"i\":-3,\"big\":18446744073709551615,\"z\":null,\"t\":true,\"l\":[1]}")
        .expect("json");
    assert_eq!(json.get("a").and_then(|a| a.text_at("b")).map(String::as_str), Some("x"));
    assert_eq!(json.percent_at("n"), Some(13));
    assert_eq!(json.integer_at("n"), None);
    assert_eq!(json.integer_at("i"), Some(-3));
    assert_eq!(json.percent_at("i"), Some(-3));
    assert_eq!(json.integer_at("big"), None);
    assert_eq!(json.percent_at("big"), Some(i64::MAX));
    assert!(matches!(json.get("z"), Some(Json::Null)) && json.get("missing").is_none());
    assert!(matches!(json.get("t"), Some(Json::Other)) && matches!(json.get("l"), Some(Json::Other)));
    assert!(parse_json("{").is_none());
    assert!(json.get("l").expect("list").get("0").is_none());
    let twice = parse_json("{\"a\":1,\"a\":2}").expect("json");
    assert_eq!(twice.integer_at("a"), Some(2));
}

#[test]
fn usage_total_defaults_to_input_and_output() {
    let json = parse_json("{\"input_tokens\":9223372036854775807,\"output_tokens\":1,\"cached_input_tokens\":\"x\"}")
        .expect("json");
    assert_eq!(read_usage(&json), usage(i64::MAX, 0, 1, 0, i64::MIN));
    let stated = parse_json("{\"input_tokens\":1,\"output_tokens\":1,\"total_tokens\":9}").expect("json");
    assert_eq!(read_usage(&stated).total_tokens, 9);
}

#[test]
fn description_needs_an_id() {
    let without = parse_json("{\"payload\":{\"forked_from_id\":\"p\"}}").expect("json");
    assert!(session_meta(&without).is_none());
    let own = parse_json("{\"payload\":{\"id\":\"s\",\"agent_role\":\"r\",\"source\":{\"subagent\":{\"thread_spawn\":{\"agent_role\":\"q\",\"agent_nickname\":\"n\"}}}}}")
        .expect("json");
    let meta = session_meta(&own).expect("meta");
    assert_eq!(meta.agent_role.as_deref(), Some("r"));
    assert_eq!(meta.agent_nickname.as_deref(), Some("n"));
    assert_eq!(meta.parent_session_id, None);
}
