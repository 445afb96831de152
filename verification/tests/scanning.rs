use codex_pacer::codex_home::{
    expand_home_prefix, freshness_source_matches, resolve_codex_home, tracked_home_moved,
    CodexHome, ExpandedPath,
};
use codex_pacer::estimates::capped_product;
use codex_pacer::import_state::{ImportState, ParserCheckpoint, SessionFile};
use codex_pacer::file_order::sort_by_path;
use codex_pacer::incremental::{
    is_log_extension, is_log_path, DiskFile, IncrementalContext, LOG_EXTENSION,
};
use codex_pacer::models::{TokenUsage, UsageSnapshot};
use codex_pacer::prepared::{
    look_up_copied_readings, mark_copied_readings, replay_parent_to_locate, spare_bytes,
    PreparedSession, PreparedSessionFile, ReplayLookup, StorageBudget, StorageStep,
    PREPARED_SPOOL_THRESHOLD_BYTES,
};
use codex_pacer::recent_days::{recent_days, recent_directories, RECENT_DAYS};
use codex_pacer::repairs::{
    pending_repair_paths_for_session, pending_repair_session_ids, repair_steps, session_repairs,
    FileRepairs, RepairState, RepairStates, RepairStep, RATE_LIMIT_SAMPLE_BACKFILL_KEY,
    TOKEN_USAGE_FORK_REPLAY_REPAIR_KEY, TOKEN_USAGE_MONOTONIC_REPAIR_KEY,
};
use codex_pacer::replay_cache::ParentReplayCache;
use codex_pacer::scan_files::{
    needs_signature, prepare_missing_source_plan, reads_titles, select_changed_files,
    ExistingSessionSource, FileSelection, ScanKind,
};
use codex_pacer::scan_plan::{
    add_found_paths, add_imported_paths, check_scan_freshness, check_scan_revision,
    completed_repair_keys, effective_scan_scope, failure_steps, freshness_requires_full_scan,
    may_read_tail, plan_commit, scan_result, use_incremental_snapshot,
    validate_prepared_source_identity, LinkAction, PreparedParseFailure, ScanProgress,
    SourceRecord,
};
use codex_pacer::session_log::{ModelNames, ParsedSession, SessionLogParser};
use codex_pacer::text::is_blank;
use codex_pacer::text_map::TextMap;
use codex_pacer::topology::{
    classify_topology_maintenance, conversation_links, existing_session_relations,
    incremental_session_relations, parents_of, relation_from_lookup, resolve_root,
    ExistingSessionRelation, SessionRow, TopologyMaintenance,
};

const ID_A: &str = "019cfb3d-415c-7623-aab0-22e73abcec2e";

fn texts(values: &[&str]) -> Vec<String> {
    values.iter().map(|value| value.to_string()).collect()
}

#[test]
fn changed_resolved_default_source_forces_full_scan() {
    assert_eq!(
        effective_scan_scope(ScanKind::Incremental, false, false, false, true),
        ScanKind::Full
    );
}

#[test]
fn scan_scope_is_the_requested_one_unless_forced() {
    for kind in [ScanKind::Full, ScanKind::Reconcile, ScanKind::Incremental] {
        assert_eq!(effective_scan_scope(kind, false, false, false, false), kind);
        assert_eq!(effective_scan_scope(kind, true, false, false, false), ScanKind::Full);
        assert_eq!(effective_scan_scope(kind, false, true, false, false), ScanKind::Full);
        assert_eq!(effective_scan_scope(kind, false, false, true, false), ScanKind::Full);
    }
}

#[test]
fn topology_classification_handles_incremental_scan_cases() {
    let existing_child = ExistingSessionRelation {
        exists: true,
        parent_session_id: Some("root-parent".to_string()),
        child_count: 0,
    };
    assert_eq!(
        classify_topology_maintenance(
            Some(&existing_child),
            existing_child.child_count,
            Some("root-parent")
        ),
        TopologyMaintenance::Unchanged
    );
    assert_eq!(
        classify_topology_maintenance(
            Some(&existing_child),
            existing_child.child_count,
            Some("other-parent")
        ),
        TopologyMaintenance::RecomputeAll
    );

    let missing_parent_placeholder = ExistingSessionRelation {
        exists: false,
        parent_session_id: None,
        child_count: 2,
    };
    assert_eq!(
        classify_topology_maintenance(
            Some(&missing_parent_placeholder),
            missing_parent_placeholder.child_count,
            None
        ),
        TopologyMaintenance::RecomputeAll
    );
    assert_eq!(
        classify_topology_maintenance(None, 0, None),
        TopologyMaintenance::InsertRootLink
    );
    assert_eq!(
        classify_topology_maintenance(None, 0, Some("root-parent")),
        TopologyMaintenance::RecomputeAll
    );
}

fn rows(values: &[(&str, Option<&str>)]) -> Vec<SessionRow> {
    values
        .iter()
        .map(|(id, parent)| SessionRow {
            session_id: id.to_string(),
            parent_session_id: parent.map(str::to_string),
        })
        .collect()
}

#[test]
fn roots_and_depths_follow_the_parents() {
    let parents = parents_of(&rows(&[
        ("root", None),
        ("child", Some("root")),
        ("grandchild", Some("child")),
        ("orphan", Some("gone")),
        ("x", Some("y")),
        ("y", Some("x")),
        ("z", Some("x")),
        ("own", Some("own")),
    ]));
    let root = |id: &str| resolve_root(id, &parents);
    assert_eq!(root("root"), ("root".to_string(), 0));
    assert_eq!(root("grandchild"), ("root".to_string(), 2));
    assert_eq!(root("orphan"), ("gone".to_string(), 1));
    assert_eq!(root("nobody"), ("nobody".to_string(), 0));
    assert_eq!(root("x"), ("x".to_string(), 2));
    assert_eq!(root("z"), ("x".to_string(), 3));
    assert_eq!(root("own"), ("own".to_string(), 1));
}

#[test]
fn links_tell_parents_roots_and_subagents() {
    let links = conversation_links(&parents_of(&rows(&[("child", Some("root")), ("root", None)])));
    assert_eq!(links.len(), 2);
    assert_eq!((links[0].session_id.as_str(), links[0].root_session_id.as_str()), ("child", "root"));
    assert_eq!(links[0].parent_session_id.as_deref(), Some("root"));
    assert_eq!((links[0].depth, links[0].contains_subagents), (1, false));
    assert_eq!((links[1].depth, links[1].contains_subagents), (0, true));
}

#[test]
fn relations_count_children_and_keep_placeholders() {
    let stored = rows(&[("a", Some("p")), ("b", Some("p")), ("c", None), ("a", Some("c"))]);
    let relations = existing_session_relations(&stored);
    let parent = relations.get("p").expect("placeholder");
    assert_eq!((parent.exists, parent.child_count), (false, 2));
    let first = relations.get("a").expect("stored");
    assert_eq!((first.exists, first.parent_session_id.as_deref()), (true, Some("c")));
    assert_eq!(relations.get("c").expect("stored").child_count, 1);
    let partial = incremental_session_relations(&stored);
    assert!(partial.get("p").is_none());
    assert_eq!(partial.get("a").expect("stored").parent_session_id.as_deref(), Some("c"));
    assert_eq!(partial.get("c").expect("stored").child_count, 0);
    let unknown = relation_from_lookup(None, -4);
    assert_eq!((unknown.exists, unknown.child_count), (false, 0));
    let known = relation_from_lookup(Some(Some("p".to_string())), 3);
    assert_eq!((known.exists, known.child_count), (true, 3));
    assert_eq!(known.parent_session_id.as_deref(), Some("p"));
}

fn state(path: &str, id: Option<&str>, bucket: &str, size: i64, mtime: i64) -> ImportState {
    ImportState {
        source_path: path.to_string(),
        session_id: id.map(str::to_string),
        source_bucket: bucket.to_string(),
        file_size: size,
        file_mtime_ms: mtime,
        parser_checkpoint: Some(ParserCheckpoint {
            completed_offset: size as u64,
            prefix_signature: vec![7],
            last_usage: None,
            current_model: None,
            explicit_fast_mode: None,
            latest_plan_type: None,
        }),
    }
}

fn states(values: Vec<ImportState>) -> TextMap<ImportState> {
    let mut map = TextMap::new();
    for value in values {
        map.insert(value.source_path.clone(), value);
    }
    map
}

fn file(path: &str, size: i64, mtime: i64) -> SessionFile {
    SessionFile {
        source_path: path.to_string(),
        name_session_id: None,
        bucket: "active".to_string(),
        file_size: size,
        file_mtime_ms: mtime,
    }
}

fn repair(needs_sweep: bool, pending: &[&str]) -> RepairState {
    RepairState { needs_sweep, pending_paths: texts(pending) }
}

fn no_repairs() -> RepairStates {
    RepairStates {
        rate_limit: repair(false, &[]),
        token_v2: repair(false, &[]),
        fork_replay_v3: repair(false, &[]),
    }
}

#[test]
fn only_changed_files_are_read() {
    let known = states(vec![
        state("/a", Some("a"), "active", 10, 1),
        state("/b", Some("b"), "active", 10, 1),
        state("/c", Some("c"), "active", 10, 1),
    ]);
    let files = vec![file("/a", 10, 1), file("/b", 11, 1), file("/c", 10, 2), file("/d", 1, 1)];
    let none = no_repairs();
    let wanted: Vec<bool> = files.iter().map(|file| needs_signature(&none, &known, file)).collect();
    assert_eq!(wanted, vec![false, false, true, false]);
    let read = select_changed_files(&none, &known, &files, &vec![None, None, Some(vec![7]), None]);
    assert_eq!(read.changed, vec![1, 3]);
    assert_eq!(read.unchanged_sessions, texts(&["a", "c"]));
    let moved = select_changed_files(&none, &known, &files, &vec![None, None, Some(vec![8]), None]);
    assert_eq!(moved.changed, vec![1, 2, 3]);
}

#[test]
fn mismatching_name_forces_a_reading() {
    let known = states(vec![state("/a", Some("a"), "active", 10, 1)]);
    let mut renamed = file("/a", 10, 1);
    renamed.name_session_id = Some("b".to_string());
    let read = select_changed_files(&no_repairs(), &known, &vec![renamed], &vec![None]);
    assert_eq!(read.changed, vec![0]);
    assert!(read.unchanged_sessions.is_empty());
}

#[test]
fn repairs_force_their_files_and_sessions() {
    let known = states(vec![
        state("/a", Some("s"), "active", 10, 1),
        state("/b", Some("s"), "archived", 10, 1),
        state("/c", Some("t"), "active", 10, 1),
    ]);
    let files = vec![file("/a", 10, 1), file("/c", 10, 1)];
    let unread = vec![None, None];
    let mut repairs = no_repairs();
    repairs.token_v2 = repair(false, &["/b"]);
    assert_eq!(select_changed_files(&repairs, &known, &files, &unread).changed, vec![0]);
    repairs.token_v2 = repair(false, &[]);
    repairs.fork_replay_v3 = repair(false, &["/b"]);
    assert_eq!(select_changed_files(&repairs, &known, &files, &unread).changed, vec![0]);
    repairs.fork_replay_v3 = repair(true, &[]);
    assert_eq!(select_changed_files(&repairs, &known, &files, &unread).changed, vec![0, 1]);
    let mut rate = no_repairs();
    rate.rate_limit = repair(false, &["/b"]);
    assert!(select_changed_files(&rate, &known, &files, &unread).changed.is_empty());
    rate.rate_limit = repair(false, &["/c"]);
    assert_eq!(select_changed_files(&rate, &known, &files, &unread).changed, vec![1]);
}

#[test]
fn pending_sessions_are_found_by_import_or_name() {
    let named = format!("/x/rollout-{ID_A}.jsonl");
    let known = states(vec![
        state("/a", Some("s"), "active", 1, 1),
        state("/n", None, "active", 1, 1),
    ]);
    let pending = vec!["/a".to_string(), named.clone(), "/n".to_string(), "/a".to_string()];
    assert_eq!(pending_repair_session_ids(&known, &pending), texts(&["s", ID_A]));
    assert_eq!(pending_repair_paths_for_session(&known, &pending, ID_A), vec![named]);
    assert_eq!(pending_repair_paths_for_session(&known, &pending, "s"), texts(&["/a", "/a"]));
    let repairs = RepairStates {
        rate_limit: repair(false, &["/a"]),
        token_v2: repair(false, &["/a", "/n"]),
        fork_replay_v3: repair(false, &["/q"]),
    };
    assert_eq!(repairs.pending_paths(), texts(&["/a", "/n", "/q"]));
    assert_eq!(repairs.pending_sessions(&known), texts(&["s"]));
}

fn describe(steps: &[RepairStep]) -> Vec<String> {
    steps
        .iter()
        .map(|step| match step {
            RepairStep::Clear { repair_key, source_path } => format!("-{repair_key} {source_path}"),
            RepairStep::MarkPending { repair_key, source_path, reason } => {
                format!("+{repair_key} {source_path} {reason}")
            }
        })
        .collect()
}

#[test]
fn imported_file_settles_its_repairs() {
    let known = states(vec![state("/old", Some("s"), "active", 1, 1)]);
    let mut repairs = no_repairs();
    repairs.rate_limit = repair(true, &[]);
    repairs.token_v2 = repair(false, &["/old"]);
    let settled = session_repairs(&repairs, &known, "/new", "s", false);
    assert_eq!(
        settled.file,
        FileRepairs { rate_limit: true, token_v2: true, fork_replay_v3: false }
    );
    assert_eq!(
        describe(&repair_steps(&settled, "/new")),
        vec![
            format!("-{RATE_LIMIT_SAMPLE_BACKFILL_KEY} /new"),
            format!("-{TOKEN_USAGE_MONOTONIC_REPAIR_KEY} /new"),
            format!("-{TOKEN_USAGE_MONOTONIC_REPAIR_KEY} /old"),
        ]
    );
    let open = session_repairs(&no_repairs(), &known, "/new", "s", true);
    assert_eq!(
        describe(&repair_steps(&open, "/new")),
        vec![format!(
            "+{TOKEN_USAGE_FORK_REPLAY_REPAIR_KEY} /new fork replay parent unavailable"
        )]
    );
    let mut replay = no_repairs();
    replay.fork_replay_v3 = repair(false, &["/old", "/new"]);
    let closed = session_repairs(&replay, &known, "/new", "s", false);
    assert_eq!(
        describe(&repair_steps(&closed, "/new")),
        vec![
            format!("-{TOKEN_USAGE_FORK_REPLAY_REPAIR_KEY} /new"),
            format!("-{TOKEN_USAGE_FORK_REPLAY_REPAIR_KEY} /old"),
        ]
    );
    assert!(repair_steps(&session_repairs(&no_repairs(), &known, "/n", "t", false), "/n").is_empty());
}

#[test]
fn unreadable_file_stays_pending() {
    let failure = PreparedParseFailure {
        source_path: "/a".to_string(),
        error: "broken".to_string(),
        repairs: FileRepairs { rate_limit: true, token_v2: true, fork_replay_v3: true },
    };
    assert_eq!(
        describe(&failure_steps(&failure)),
        vec![
            format!("+{TOKEN_USAGE_MONOTONIC_REPAIR_KEY} /a broken"),
            format!("+{TOKEN_USAGE_FORK_REPLAY_REPAIR_KEY} /a broken"),
            format!("+{RATE_LIMIT_SAMPLE_BACKFILL_KEY} /a broken"),
        ]
    );
}

fn source(id: &str, path: &str, state: &str, bucket: Option<&str>) -> ExistingSessionSource {
    ExistingSessionSource {
        session_id: id.to_string(),
        source_path: path.to_string(),
        source_state: state.to_string(),
        source_bucket: bucket.map(str::to_string),
    }
}

#[test]
fn missing_sources_depend_on_the_kind_of_scan() {
    let sources = vec![
        source("a", "/a", "active", Some("active")),
        source("b", "/b", "archived", Some("archived")),
        source("c", "/c", "active", Some("active")),
        source("d", "/d", "active", Some("active")),
    ];
    let known = states(vec![
        state("/a", Some("a"), "active", 1, 1),
        state("/b", Some("b"), "archived", 1, 1),
        state("/d", Some("d"), "active", 1, 1),
    ]);
    let present = texts(&["/c"]);
    let absent = texts(&["/a", "/b"]);
    let ids = |kind: ScanKind, reconcile: bool| {
        let plan = prepare_missing_source_plan(&sources, &known, &present, &absent, kind, reconcile);
        let sessions: Vec<String> =
            plan.sessions_to_mark_missing.iter().map(|item| item.session_id.clone()).collect();
        (sessions, plan.import_state_paths_to_delete)
    };
    assert_eq!(ids(ScanKind::Full, false), (texts(&["a", "b"]), texts(&["/a", "/b"])));
    assert_eq!(ids(ScanKind::Reconcile, true), (texts(&["a", "b", "d"]), texts(&["/a", "/b", "/d"])));
    assert_eq!(ids(ScanKind::Incremental, true), (texts(&["a"]), texts(&["/a"])));
}

fn disk(values: &[(&str, i64, i64)]) -> TextMap<DiskFile> {
    let mut map = TextMap::new();
    for (path, size, mtime) in values {
        map.insert(
            path.to_string(),
            DiskFile { name_session_id: None, file_size: *size, file_mtime_ms: *mtime },
        );
    }
    map
}

fn context(known: Vec<ImportState>, found: &[(&str, i64, i64)], ids: &[&str], paths: &[&str]) -> IncrementalContext {
    IncrementalContext {
        import_state: states(known),
        disk: disk(found),
        active_root: "/home/sessions".to_string(),
        archived_root: "/home/archived_sessions".to_string(),
        pending_repair_session_ids: texts(ids),
        pending_repair_paths: texts(paths),
    }
}

fn gathered(context: &IncrementalContext, recent: Vec<SessionFile>) -> (Vec<String>, Vec<String>) {
    let result = context.collect_incremental_session_files(recent);
    let files = result
        .files
        .iter()
        .map(|file| format!("{} {}", file.bucket, file.source_path))
        .collect();
    (files, result.kept_for_archive_retry)
}

#[test]
fn incremental_scan_gathers_active_pending_and_archived_files() {
    let mut unread = state("/home/archived_sessions/u.jsonl", Some("u"), "archived", 10, 1);
    unread.parser_checkpoint.as_mut().expect("checkpoint").completed_offset = 5;
    let context = context(
        vec![
            state("/home/sessions/a.jsonl", Some("a"), "active", 10, 1),
            state("/home/sessions/gone.jsonl", Some("g"), "active", 10, 1),
            state("/home/sessions/lost.jsonl", Some("l"), "active", 10, 1),
            state("/home/archived_sessions/done.jsonl", Some("d"), "archived", 10, 1),
            unread,
            state("/home/archived_sessions/r.jsonl", Some("r"), "archived", 10, 1),
        ],
        &[
            ("/home/sessions/a.jsonl", 10, 1),
            ("/home/archived_sessions/gone.jsonl", 12, 1),
            ("/home/archived_sessions/done.jsonl", 99, 9),
            ("/home/archived_sessions/u.jsonl", 11, 1),
            ("/home/archived_sessions/r.jsonl", 10, 1),
            ("/home/archived_sessions/p.jsonl", 1, 1),
            ("/elsewhere/p.jsonl", 1, 1),
        ],
        &["r"],
        &["/home/archived_sessions/p.jsonl", "/elsewhere/p.jsonl", "/home/sessions/nowhere.jsonl"],
    );
    let (files, kept) = gathered(&context, vec![file("/home/sessions/recent.jsonl", 1, 1)]);
    assert_eq!(
        files,
        texts(&[
            "archived /home/archived_sessions/gone.jsonl",
            "archived /home/archived_sessions/p.jsonl",
            "archived /home/archived_sessions/r.jsonl",
            "archived /home/archived_sessions/u.jsonl",
            "active /home/sessions/a.jsonl",
            "active /home/sessions/recent.jsonl",
        ])
    );
    assert_eq!(kept, texts(&["/home/sessions/gone.jsonl"]));
    let probes = context.probe_paths(&context.scan_paths());
    assert!(probes.contains(&"/home/archived_sessions/lost.jsonl".to_string()));
    assert!(probes.contains(&"/elsewhere/p.jsonl".to_string()));
}

#[test]
fn unchanged_archived_tail_is_not_read_again() {
    let mut unread = state("/home/archived_sessions/u.jsonl", Some("u"), "archived", 10, 1);
    unread.parser_checkpoint.as_mut().expect("checkpoint").completed_offset = 5;
    let found = [("/home/archived_sessions/u.jsonl", 10, 1)];
    let quiet = context(vec![unread.clone()], &found, &[], &[]);
    assert!(gathered(&quiet, Vec::new()).0.is_empty());
    let repaired = context(vec![unread], &found, &["u"], &[]);
    assert_eq!(gathered(&repaired, Vec::new()).0.len(), 1);
}

#[test]
fn no_path_is_gathered_twice() {
    let path = "/home/sessions/a.jsonl";
    let context = context(
        vec![state(path, Some("a"), "active", 10, 1)],
        &[(path, 10, 1)],
        &["a"],
        &[path],
    );
    assert_eq!(gathered(&context, vec![file(path, 10, 1)]).0.len(), 1);
    assert_eq!(gathered(&context, Vec::new()).0.len(), 1);
}

fn record() -> SourceRecord {
    SourceRecord {
        selector: Some("/home/.codex".to_string()),
        scan_commit_revision: 3,
        last_scan_codex_home: Some("/home/.codex".to_string()),
        last_scan_started_at: Some("s".to_string()),
        last_scan_completed_at: Some("c".to_string()),
        last_full_scan_completed_at: Some("f".to_string()),
    }
}

#[test]
fn prepared_scan_is_valid_only_for_its_source() {
    assert_eq!(validate_prepared_source_identity(&record(), &record(), false), Ok(()));
    let error = Err("Prepared scan source changed before commit.".to_string());
    assert_eq!(validate_prepared_source_identity(&record(), &record(), true), error);
    let mut changed = record();
    changed.scan_commit_revision = 4;
    assert_eq!(validate_prepared_source_identity(&record(), &changed, false), error);
    let fields: Vec<fn(&mut SourceRecord) -> &mut Option<String>> = vec![
        |item| &mut item.selector,
        |item| &mut item.last_scan_codex_home,
        |item| &mut item.last_scan_started_at,
        |item| &mut item.last_scan_completed_at,
        |item| &mut item.last_full_scan_completed_at,
    ];
    for field in fields {
        let mut other = record();
        *field(&mut other) = None;
        assert_eq!(validate_prepared_source_identity(&record(), &other, false), error);
    }
    assert_eq!(check_scan_freshness(true, true, true), Ok(()));
    assert_eq!(check_scan_freshness(false, true, false), Ok(()));
    assert_eq!(
        check_scan_freshness(true, true, false),
        Err("Prepared scan freshness changed before commit.".to_string())
    );
    assert_eq!(check_scan_revision(1), Ok(()));
    assert_eq!(
        check_scan_revision(0),
        Err("Prepared scan is stale before commit.".to_string())
    );
}

#[test]
fn freshness_asks_for_full_scans() {
    assert!(!freshness_requires_full_scan(&record(), true, "/home/.codex"));
    assert!(freshness_requires_full_scan(&record(), true, "/other"));
    assert!(!freshness_requires_full_scan(&record(), false, "/other"));
    let mut unfinished = record();
    unfinished.last_full_scan_completed_at = None;
    assert!(freshness_requires_full_scan(&unfinished, true, "/home/.codex"));
}

#[test]
fn incremental_snapshot_needs_a_settled_store() {
    let home = Some("/home/.codex".to_string());
    let decide = |kind: ScanKind, empty: bool, repairs: &RepairStates, source: &SourceRecord| {
        use_incremental_snapshot(kind, empty, repairs, source, &home)
    };
    assert!(decide(ScanKind::Incremental, false, &no_repairs(), &record()));
    assert!(!decide(ScanKind::Reconcile, false, &no_repairs(), &record()));
    assert!(!decide(ScanKind::Incremental, true, &no_repairs(), &record()));
    let mut sweeping = no_repairs();
    sweeping.fork_replay_v3 = repair(true, &[]);
    assert!(!decide(ScanKind::Incremental, false, &sweeping, &record()));
    assert!(!use_incremental_snapshot(ScanKind::Incremental, false, &no_repairs(), &record(), &None));
}

#[test]
fn source_paths_come_from_imports_and_names() {
    let mut paths: TextMap<String> = TextMap::new();
    paths.insert("s".to_string(), "/stored".to_string());
    add_imported_paths(
        &mut paths,
        &states(vec![state("/a", Some("s"), "active", 1, 1), state("/b", None, "active", 1, 1)]),
    );
    assert_eq!(paths.get("s").map(String::as_str), Some("/a"));
    let mut named = file("/named", 1, 1);
    named.name_session_id = Some("t".to_string());
    add_found_paths(&mut paths, &vec![named, file("/plain", 1, 1)]);
    assert_eq!(paths.get("t").map(String::as_str), Some("/named"));
    assert_eq!(paths.len(), 2);
}

#[test]
fn progress_and_commit_follow_what_was_read() {
    let mut progress = ScanProgress::new(texts(&["a"]));
    progress.count_full();
    progress.count_tail();
    progress.count_bytes(10);
    progress.note_session("a", TopologyMaintenance::Unchanged);
    progress.note_session("b", TopologyMaintenance::InsertRootLink);
    let plan = plan_commit(ScanKind::Full, &progress, false);
    assert_eq!(plan.links, LinkAction::InsertRoots);
    assert!(plan.full_scan_completed && !plan.full_scan_invalidated && plan.refresh_titles);
    assert_eq!(plan_commit(ScanKind::Full, &progress, true).links, LinkAction::RecomputeAll);
    let failure = PreparedParseFailure {
        source_path: "/x".to_string(),
        error: "e".to_string(),
        repairs: FileRepairs { rate_limit: false, token_v2: false, fork_replay_v3: false },
    };
    progress.note_failure(failure, 5);
    progress.note_session("c", TopologyMaintenance::RecomputeAll);
    let plan = plan_commit(ScanKind::Reconcile, &progress, false);
    assert_eq!(plan.links, LinkAction::RecomputeAll);
    assert!(!plan.full_scan_completed && plan.full_scan_invalidated);
    let partial = plan_commit(ScanKind::Incremental, &progress, false);
    assert!(!partial.full_scan_completed && !partial.full_scan_invalidated && !partial.refresh_titles);
    assert_eq!(plan_commit(ScanKind::Full, &ScanProgress::new(Vec::new()), false).links, LinkAction::Leave);
    let result =
        scan_result("/home".to_string(), ScanKind::Reconcile, 4, &progress, 2, "now".to_string());
    assert_eq!(result.scan_kind, "reconcile");
    assert_eq!((result.scanned_files, result.imported_sessions, result.updated_sessions), (4, 3, 3));
    assert_eq!((result.source_bytes_read, result.missing_sessions), (15, 2));
    assert_eq!((result.tail_parsed_files, result.fully_parsed_files), (1, 1));
    assert_eq!(ScanKind::Full.name(), "full");
    assert_eq!(ScanKind::Incremental.name(), "incremental");
}

#[test]
fn tails_are_read_only_without_repairs() {
    let none = FileRepairs { rate_limit: false, token_v2: false, fork_replay_v3: false };
    assert!(may_read_tail(ScanKind::Incremental, &none));
    assert!(may_read_tail(ScanKind::Reconcile, &none));
    assert!(!may_read_tail(ScanKind::Full, &none));
    assert!(!may_read_tail(ScanKind::Incremental, &FileRepairs { token_v2: true, ..none }));
    let mut repairs = no_repairs();
    repairs.rate_limit = repair(true, &[]);
    repairs.fork_replay_v3 = repair(true, &[]);
    assert_eq!(
        completed_repair_keys(&repairs),
        texts(&[RATE_LIMIT_SAMPLE_BACKFILL_KEY, TOKEN_USAGE_FORK_REPLAY_REPAIR_KEY])
    );
}

#[test]
fn custom_home_path_expands_supported_tilde_forms() {
    let below = |path: &str| match expand_home_prefix(path, true) {
        Ok(ExpandedPath::BelowHome(suffix)) => Some(suffix),
        Ok(ExpandedPath::AsGiven) => None,
        Err(error) => panic!("{error}"),
    };
    assert_eq!(below("~").as_deref(), Some(""));
    assert_eq!(below("~/codex-home").as_deref(), Some("codex-home"));
    assert_eq!(below("~user/codex-home"), None);
    assert_eq!(below("/abs/~"), None);
    assert_eq!(
        expand_home_prefix("~/codex-home", false).expect_err("no home"),
        "Unable to resolve home directory for Codex home path: ~/codex-home"
    );
}

#[test]
fn home_is_chosen_in_order() {
    let some = |text: &str| Some(text.to_string());
    let chosen = |over: Option<String>, stored: Option<String>, env: Option<String>, home: bool| {
        match resolve_codex_home(&stored, over, &env, home) {
            Ok(CodexHome::At(path)) => path,
            Ok(CodexHome::InHome) => "in home".to_string(),
            Err(error) => error,
        }
    };
    assert_eq!(chosen(some(" "), some("/s"), some("/e"), true), " ");
    assert_eq!(chosen(None, some("/s"), some("/e"), true), "/s");
    assert_eq!(chosen(None, some(" \t"), some("/e"), true), "/e");
    assert_eq!(chosen(None, None, some(""), true), "in home");
    assert_eq!(
        chosen(None, None, None, false),
        "Unable to resolve home directory for CODEX_HOME fallback."
    );
    assert!(is_blank(" \n") && !is_blank(" x "));
}

fn forked(parent: &str, timestamp: &str, totals: &[i64]) -> ParsedSession {
    let names = ModelNames { canonical: TextMap::new() };
    let mut parser = SessionLogParser::new(None);
    let meta = format!(
        "{{\"timestamp\":\"{timestamp}\",\"type\":\"session_meta\",\"payload\":{{\"id\":\"child\",\"forked_from_id\":\"{parent}\"}}}}\n"
    );
    assert!(parser.take_line(&meta, "now", &names));
    for total in totals {
        let line = format!(
            "{{\"timestamp\":\"{timestamp}\",\"type\":\"event_msg\",\"payload\":{{\"type\":\"token_count\",\"info\":{{\"total_token_usage\":{{\"total_tokens\":{total}}},\"last_token_usage\":{{\"total_tokens\":{total}}}}}}}}}\n"
        );
        assert!(parser.take_line(&line, "now", &names));
    }
    parser.finish(&file("/child", 1, 1), &TextMap::new(), Vec::new()).expect("session")
}

fn reading(total: i64) -> UsageSnapshot {
    let usage = TokenUsage { total_tokens: total, ..TokenUsage::default() };
    UsageSnapshot {
        timestamp: "2026-03-24T00:00:00Z".to_string(),
        model_id: String::new(),
        usage,
        last_token_usage: Some(usage),
        plan_type: None,
        limit_id: None,
        limit_name: None,
        explicit_fast_mode: None,
    }
}

#[test]
fn copied_readings_are_looked_up_in_the_cache() {
    let mut cache = ParentReplayCache::new();
    let mut child = forked("parent", "2026-03-24T00:10:00Z", &[10, 20, 30]);
    match look_up_copied_readings(&mut child, &cache) {
        ReplayLookup::ReadParent(parent) => assert_eq!(parent, "parent"),
        other => panic!("{other:?}"),
    }
    assert!(mark_copied_readings(&mut child, None));
    assert_eq!(child.inherited_token_snapshot_cutoff, 0);
    cache.insert("parent".to_string(), Some(vec![reading(10), reading(20)]));
    assert!(matches!(
        look_up_copied_readings(&mut child, &cache),
        ReplayLookup::Settled { parent_unavailable: false }
    ));
    assert_eq!(child.inherited_token_snapshot_cutoff, 2);
    cache.insert("lost".to_string(), None);
    let mut other = forked("lost", "2026-03-24T00:10:00Z", &[10]);
    assert!(matches!(
        look_up_copied_readings(&mut other, &cache),
        ReplayLookup::Settled { parent_unavailable: true }
    ));
    let mut blank = forked(" ", "2026-03-24T00:10:00Z", &[10]);
    assert!(matches!(look_up_copied_readings(&mut blank, &cache), ReplayLookup::NotForked));
    let mut timeless = forked("parent", "never", &[10]);
    assert!(matches!(look_up_copied_readings(&mut timeless, &cache), ReplayLookup::NotForked));
}

#[test]
fn parent_is_located_only_when_needed() {
    let child = forked("parent", "2026-03-24T00:10:00Z", &[10]);
    let mut known: TextMap<String> = TextMap::new();
    assert_eq!(replay_parent_to_locate(&child, &known).as_deref(), Some("parent"));
    known.insert("parent".to_string(), "/p".to_string());
    assert_eq!(replay_parent_to_locate(&child, &known), None);
    let mut tail = child;
    tail.mode = codex_pacer::usage::ParsedSessionMode::Tail { previous_usage: None };
    assert_eq!(replay_parent_to_locate(&tail, &TextMap::new()), None);
}

#[test]
fn prepared_sessions_move_to_a_file_together() {
    let mut budget = StorageBudget::new();
    assert_eq!(budget.take_in(0, 10 * PREPARED_SPOOL_THRESHOLD_BYTES, 0), StorageStep::KeepInMemory);
    assert_eq!(budget.take_in(0, 1, 0), StorageStep::MoveAllToSpool);
    assert_eq!(budget.take_in(0, 1, 0), StorageStep::AppendToSpool);
    assert_eq!(budget, StorageBudget::Spool { records: 3 });
    let mut small = StorageBudget::new();
    assert_eq!(small.take_in(0, 100, 50), StorageStep::KeepInMemory);
    assert_eq!(small.take_in(50, 100, 0), StorageStep::KeepInMemory);
    assert_eq!(small, StorageBudget::Memory { entries: 2, estimated_bytes: 200 });
    assert_eq!(
        small.take_in(0, PREPARED_SPOOL_THRESHOLD_BYTES - 200, 0),
        StorageStep::KeepInMemory
    );
    assert_eq!(small.take_in(0, 1, 0), StorageStep::MoveAllToSpool);
    assert_eq!(spare_bytes(4, 1), 3 * std::mem::size_of::<PreparedSession>());
    assert_eq!(spare_bytes(1, 4), 0);
    assert_eq!(capped_product(usize::MAX, 2), usize::MAX);
}

#[test]
fn estimate_of_a_session_counts_its_texts() {
    let parsed = forked("parent", "2026-03-24T00:10:00Z", &[10]);
    let session = PreparedSession {
        session_file: PreparedSessionFile::new(&file("/child", 7, 8)),
        parsed,
        repairs: session_repairs(&no_repairs(), &TextMap::new(), "/child", "child", false),
    };
    assert_eq!((session.session_file.file_size, session.session_file.file_mtime_ms), (7, 8));
    let small = session.estimated_bytes();
    assert!(small >= std::mem::size_of::<PreparedSession>());
    let mut large = session.clone();
    large.parsed.raw_session.title = Some("x".repeat(100_000));
    assert!(large.estimated_bytes() >= small + 90_000);
}

#[test]
fn text_map_keeps_order_and_replaces() {
    let mut map: TextMap<i64> = TextMap::new();
    map.insert("b".to_string(), 1);
    map.insert("a".to_string(), 2);
    map.insert("b".to_string(), 3);
    assert_eq!(map.len(), 2);
    assert_eq!(map.entry(0), ("b", &3));
    assert_eq!(map.entry(1), ("a", &2));
    assert!(map.holds("a") && !map.holds("c"));
    assert_eq!(map.remove("b"), Some(3));
    assert_eq!(map.remove("b"), None);
    assert_eq!((map.len(), map.get("a")), (1, Some(&2)));
}

#[test]
fn files_are_sorted_by_the_parts_of_their_paths() {
    let paths = ["/h/s/b", "/h/s-old/x", "/h/s/2020/a", "/h/s/B", "/h/s/b", "/a", "/h/s"];
    let files = paths.iter().enumerate().map(|(place, path)| file(path, place as i64, 0)).collect();
    let sorted = sort_by_path(files);
    let shown: Vec<(&str, i64)> =
        sorted.iter().map(|file| (file.source_path.as_str(), file.file_size)).collect();
    assert_eq!(
        shown,
        [
            ("/a", 5),
            ("/h/s", 6),
            ("/h/s/2020/a", 2),
            ("/h/s/B", 3),
            ("/h/s/b", 0),
            ("/h/s/b", 4),
            ("/h/s-old/x", 1),
        ]
    );
    assert!(sort_by_path(vec![]).is_empty());
}

#[test]
fn recent_file_does_not_come_before_an_earlier_path() {
    let context = context(
        vec![state("/home/sessions/2020/a.jsonl", Some("a"), "active", 10, 1)],
        &[("/home/sessions/2020/a.jsonl", 10, 1)],
        &[],
        &[],
    );
    let (files, _) = gathered(&context, vec![file("/home/sessions/b.jsonl", 1, 1)]);
    assert_eq!(
        files,
        texts(&["active /home/sessions/2020/a.jsonl", "active /home/sessions/b.jsonl"])
    );
}

#[test]
fn recent_directories_are_the_root_and_the_last_days() {
    let day = |year: &str, month: &str, day: &str| {
        (year.to_string(), month.to_string(), day.to_string())
    };
    let days = vec![
        day("2026", "01", "01"),
        day("2025", "12", "31"),
        day("2025", "12", "30"),
        day("2025", "12", "29"),
    ];
    assert_eq!(RECENT_DAYS, 3);
    assert_eq!(
        recent_directories("/h/sessions", &days),
        ["/h/sessions", "/h/sessions/2026/01/01", "/h/sessions/2025/12/31", "/h/sessions/2025/12/30"]
    );
    assert_eq!(recent_directories("/h", &vec![]), ["/h"]);
}

#[test]
fn recent_days_go_back_from_today() {
    let days = recent_days(730_000);
    let shown: Vec<String> =
        days.iter().map(|(year, month, day)| format!("{year}-{month}-{day}")).collect();
    assert_eq!(shown, ["1999-09-03", "1999-09-02", "1999-09-01"]);
    let first = recent_days(2);
    assert_eq!(first[2], ("0000".to_string(), "12".to_string(), "31".to_string()));
    assert!(recent_days(i32::MIN).is_empty());
}

#[test]
fn log_files_are_known_by_their_extension() {
    assert!(is_log_path("/h/sessions/a.jsonl"));
    assert!(!is_log_path("/h/sessions/a.json") && !is_log_path("/h/sessions/.jsonl"));
    assert!(!is_log_path("/h/sessions/a.JSONL") && !is_log_path("/h/a.jsonl/b"));
    assert!(is_log_extension(&Some(LOG_EXTENSION.to_string())));
    assert!(!is_log_extension(&Some("json".to_string())) && !is_log_extension(&None));
}

#[test]
fn freshness_is_tracked_of_the_configured_home_alone() {
    let home = Some("/home/.codex".to_string());
    assert!(freshness_source_matches(&home, "/home/.codex"));
    assert!(freshness_source_matches(&home, "/home//.codex/"));
    assert!(!freshness_source_matches(&home, "/home/.codex2"));
    assert!(!freshness_source_matches(&None, "/home/.codex"));
    assert!(!tracked_home_moved(&home, &Some("/home/.codex/".to_string())));
    assert!(tracked_home_moved(&home, &Some("/elsewhere".to_string())));
    assert!(tracked_home_moved(&home, &None));
    assert!(!tracked_home_moved(&None, &home));
}

#[test]
fn titles_are_read_unless_an_incremental_scan_reads_no_file() {
    let selection =
        |changed: Vec<usize>| FileSelection { changed, unchanged_sessions: Vec::new() };
    assert!(reads_titles(ScanKind::Full, &selection(vec![])));
    assert!(reads_titles(ScanKind::Reconcile, &selection(vec![])));
    assert!(reads_titles(ScanKind::Incremental, &selection(vec![3])));
    assert!(!reads_titles(ScanKind::Incremental, &selection(vec![])));
}
