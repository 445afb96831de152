use codex_pacer::file_import::{FileReply, FileStage, ScanState};
use codex_pacer::import_state::{ImportState, ParserCheckpoint, SessionFile};
use codex_pacer::models::{TokenUsage, UsageSnapshot};
use codex_pacer::repairs::{RepairState, RepairStates};
use codex_pacer::replay_cache::ParentReplayCache;
use codex_pacer::scan_commit::{CommitAction, CommitRefusal, CommitReply, ScanCommit};
use codex_pacer::prepared::{imported_state, PreparedSession};
use codex_pacer::scan_files::{select_changed_files, ScanKind};
use codex_pacer::scan_plan::{ScanProgress, SourceRecord};
use codex_pacer::session_log::{
    ModelNames, ParsedSession, SessionLogParser, SessionTailParser, TailStep,
};
use codex_pacer::text_map::TextMap;
use codex_pacer::topology::ExistingSessionRelation;
use codex_pacer::usage::usage_event_plan;

const NOW: &str = "2026-11-16T00:00:00+00:00";

fn repair(needs_sweep: bool, pending: &[&str]) -> RepairState {
    RepairState { needs_sweep, pending_paths: pending.iter().map(|path| path.to_string()).collect() }
}

fn repairs(token_v2: &[&str]) -> RepairStates {
    RepairStates {
        rate_limit: repair(false, &[]),
        token_v2: repair(false, token_v2),
        fork_replay_v3: repair(false, &[]),
    }
}

fn state(kind: ScanKind) -> ScanState {
    let mut import_state = TextMap::new();
    import_state.insert(
        "/logs/a.jsonl".to_string(),
        ImportState {
            source_path: "/logs/a.jsonl".to_string(),
            session_id: Some("a".to_string()),
            source_bucket: "active".to_string(),
            file_size: 10,
            file_mtime_ms: 1,
            parser_checkpoint: Some(ParserCheckpoint {
                completed_offset: 10,
                prefix_signature: vec![],
                last_usage: None,
                current_model: None,
                explicit_fast_mode: None,
                latest_plan_type: None,
            }),
        },
    );
    ScanState {
        kind,
        repairs: repairs(&[]),
        import_state,
        session_source_paths: TextMap::new(),
        existing_relations: TextMap::new(),
        cache: ParentReplayCache::new(),
        progress: ScanProgress::new(vec!["known".to_string()]),
    }
}

fn file(path: &str, size: i64) -> SessionFile {
    SessionFile {
        source_path: path.to_string(),
        name_session_id: None,
        bucket: "active".to_string(),
        file_size: size,
        file_mtime_ms: 2,
    }
}

fn session(file: &SessionFile, id: &str, forked_from: Option<&str>, totals: &[i64]) -> ParsedSession {
    let names = ModelNames { canonical: TextMap::new() };
    let mut parser = SessionLogParser::new(None);
    let fork = forked_from.map_or(String::new(), |parent| {
        format!(",\"forked_from_id\":\"{parent}\"")
    });
    parser.take_line(
        &format!("{{\"timestamp\":\"2026-01-02T00:00:00Z\",\"type\":\"session_meta\",\"payload\":{{\"id\":\"{id}\"{fork}}}}}\n"),
        NOW,
        &names,
    );
    for total in totals {
        let usage = format!("{{\"input_tokens\":{total},\"total_tokens\":{total}}}");
        parser.take_line(
            &format!("{{\"type\":\"event_msg\",\"timestamp\":\"2026-01-01T00:00:00Z\",\"payload\":{{\"type\":\"token_count\",\"info\":{{\"total_token_usage\":{usage},\"last_token_usage\":{usage}}}}}}}\n"),
            NOW,
            &names,
        );
    }
    parser.finish(file, &TextMap::new(), vec![]).expect("session")
}

fn reading(total: i64) -> UsageSnapshot {
    let usage = TokenUsage {
        input_tokens: total,
        cached_input_tokens: 0,
        output_tokens: 0,
        reasoning_output_tokens: 0,
        total_tokens: total,
    };
    UsageSnapshot {
        timestamp: "2026-01-01T00:00:00Z".to_string(),
        model_id: String::new(),
        usage,
        last_token_usage: Some(usage),
        plan_type: None,
        limit_id: None,
        limit_name: None,
        explicit_fast_mode: None,
    }
}

fn relation(exists: bool, parent: Option<&str>) -> FileReply {
    FileReply::Relation(ExistingSessionRelation {
        exists,
        parent_session_id: parent.map(ToString::to_string),
        child_count: 0,
    })
}

#[test]
fn grown_file_starts_with_its_tail() {
    let grown = file("/logs/a.jsonl", 20);
    assert!(matches!(state(ScanKind::Incremental).first_stage(&grown), FileStage::ReadTail));
    assert!(matches!(state(ScanKind::Full).first_stage(&grown), FileStage::ReadInFull));
    let shrunk = file("/logs/a.jsonl", 5);
    assert!(matches!(state(ScanKind::Incremental).first_stage(&shrunk), FileStage::ReadInFull));
    let mut forced = state(ScanKind::Incremental);
    forced.repairs = repairs(&["/logs/a.jsonl"]);
    assert!(matches!(forced.first_stage(&grown), FileStage::ReadInFull));
}

#[test]
fn file_without_readable_tail_is_read_in_full_and_stored() {
    let file = file("/logs/a.jsonl", 20);
    let mut scan = state(ScanKind::Incremental);
    let stage = scan.advance(&file, FileStage::ReadTail, FileReply::NotReadable);
    assert!(matches!(stage, FileStage::ReadInFull));
    let parsed = session(&file, "a", None, &[5]);
    let stage = scan.advance(&file, stage, FileReply::Read { parsed, bytes_read: 20 });
    assert!(matches!(stage, FileStage::LoadRelation { parent_unavailable: false, .. }));
    let stage = scan.advance(&file, stage, relation(false, None));
    match stage {
        FileStage::Store(prepared) => {
            assert_eq!(prepared.session_file.source_path, "/logs/a.jsonl");
            assert_eq!(prepared.parsed.raw_session.session_id, "a");
            assert!(!prepared.repairs.file.token_v2);
        }
        _ => panic!("the session is stored"),
    }
    assert_eq!(scan.progress.fully_parsed_files, 1);
    assert_eq!(scan.progress.tail_parsed_files, 0);
    assert_eq!(scan.progress.source_bytes_read, 20);
    assert_eq!(scan.progress.imported_session_ids, ["known", "a"]);
    assert_eq!(scan.progress.new_root_session_ids, ["a"]);
    assert!(!scan.progress.topology_dirty);
}

#[test]
fn fork_asks_for_its_parent_once() {
    let file = file("/logs/child.jsonl", 20);
    let mut scan = state(ScanKind::Full);
    let parsed = session(&file, "child", Some("parent"), &[5, 9, 12]);
    let stage =
        scan.advance(&file, FileStage::ReadInFull, FileReply::Read { parsed, bytes_read: 20 });
    assert!(matches!(&stage, FileStage::LocateParent { parent_id, .. } if parent_id == "parent"));
    let stage =
        scan.advance(&file, stage, FileReply::Located(Some("/logs/parent.jsonl".to_string())));
    assert!(
        matches!(&stage, FileStage::ReadParent { source_path: Some(path), .. } if path == "/logs/parent.jsonl")
    );
    let snapshots = Some(vec![reading(5), reading(9), reading(11)]);
    let stage = scan.advance(&file, stage, FileReply::ParentRead { snapshots, bytes_read: 7 });
    let stage = scan.advance(&file, stage, relation(true, None));
    assert!(
        matches!(&stage, FileStage::Store(prepared) if prepared.parsed.inherited_token_snapshot_cutoff == 2)
    );
    assert_eq!(scan.progress.source_bytes_read, 27);

    let parsed = session(&file, "child", Some("parent"), &[5, 9, 12]);
    let stage =
        scan.advance(&file, FileStage::ReadInFull, FileReply::Read { parsed, bytes_read: 20 });
    assert!(
        matches!(&stage, FileStage::Store(prepared) if prepared.parsed.inherited_token_snapshot_cutoff == 2)
    );
}

#[test]
fn fork_without_its_parent_stays_in_the_replay_repair() {
    let file = file("/logs/child.jsonl", 20);
    let mut scan = state(ScanKind::Full);
    let parsed = session(&file, "child", Some("parent"), &[5, 9]);
    let stage =
        scan.advance(&file, FileStage::ReadInFull, FileReply::Read { parsed, bytes_read: 20 });
    let stage = scan.advance(&file, stage, FileReply::Located(None));
    assert!(matches!(&stage, FileStage::ReadParent { source_path: None, .. }));
    let stage = scan.advance(&file, stage, FileReply::ParentRead { snapshots: None, bytes_read: 0 });
    let stage = scan.advance(&file, stage, relation(true, Some("other")));
    match stage {
        FileStage::Store(prepared) => {
            assert!(prepared.repairs.replay_parent_unavailable);
            assert!(prepared.repairs.file.fork_replay_v3);
            assert_eq!(prepared.parsed.inherited_token_snapshot_cutoff, 0);
        }
        _ => panic!("the session is stored"),
    }
    assert!(scan.progress.topology_dirty);
}

#[test]
fn unreadable_file_is_noted_and_passed_over() {
    let file = file("/logs/a.jsonl", 20);
    let mut scan = state(ScanKind::Incremental);
    scan.repairs = repairs(&["/logs/a.jsonl"]);
    let failed = FileReply::Failed { error: "broken".to_string(), bytes_read: 3 };
    let stage = scan.advance(&file, FileStage::ReadInFull, failed);
    assert!(matches!(stage, FileStage::Skip));
    assert_eq!(scan.progress.parse_failures.len(), 1);
    assert!(scan.progress.parse_failures[0].repairs.token_v2);
    assert_eq!(scan.progress.parse_failures[0].error, "broken");
    assert_eq!((scan.progress.fully_parsed_files, scan.progress.updated_sessions), (1, 0));
    assert_eq!(scan.progress.source_bytes_read, 3);
    let stage = scan.advance(&file, FileStage::Skip, FileReply::NotReadable);
    assert!(matches!(stage, FileStage::Skip));
}

fn source(revision: i64) -> SourceRecord {
    SourceRecord {
        selector: None,
        scan_commit_revision: revision,
        last_scan_codex_home: None,
        last_scan_started_at: None,
        last_scan_completed_at: None,
        last_full_scan_completed_at: None,
    }
}

fn commit(kind: ScanKind, follows: bool, progress: ScanProgress, links: bool) -> ScanCommit {
    let mut states = repairs(&[]);
    states.rate_limit.needs_sweep = true;
    ScanCommit::new(kind, source(4), follows, true, states, progress, links)
}

/// Runs a commit over a store with these answers, and gives back what was done.
fn run(commit: &mut ScanCommit, revision: i64, recorded: bool, rows: usize) -> Vec<CommitAction> {
    let mut actions = Vec::new();
    loop {
        actions.push(commit.action);
        let reply = match commit.action {
            CommitAction::LoadSource => {
                CommitReply::Source { current: source(revision), tracked_home_moved: false }
            }
            CommitAction::PreviewFreshness => {
                CommitReply::Freshness { recorded, full_scan_required: true }
            }
            CommitAction::NoteStarted => CommitReply::Started(recorded),
            CommitAction::CheckLinks => CommitReply::LinksNeedRepair(false),
            CommitAction::CountMissing => CommitReply::Counted(6),
            CommitAction::AdvanceRevision => CommitReply::RowsUpdated(rows),
            CommitAction::Finish | CommitAction::Refuse(_) => return actions,
            _ => CommitReply::Done,
        };
        commit.advance(reply);
    }
}

#[test]
fn commit_writes_in_order_and_counts_itself() {
    let mut full = commit(ScanKind::Full, true, ScanProgress::new(vec!["s".to_string()]), false);
    assert_eq!(
        run(&mut full, 4, true, 1),
        [
            CommitAction::LoadSource,
            CommitAction::PreviewFreshness,
            CommitAction::NoteStarted,
            CommitAction::StoreSessions,
            CommitAction::RefreshTitles,
            CommitAction::MarkMissing,
            CommitAction::CheckLinks,
            CommitAction::CountMissing,
            CommitAction::MarkRepairComplete(0),
            CommitAction::NoteCompleted { full_scan_completed: true, full_scan_invalidated: false },
            CommitAction::AdvanceRevision,
            CommitAction::Commit,
            CommitAction::Finish,
        ]
    );
    let result = full.result("/home".to_string(), 9, NOW.to_string());
    assert_eq!((result.missing_sessions, result.imported_sessions), (6, 1));
    assert_eq!(result.scan_kind, "full");
}

#[test]
fn incremental_commit_leaves_titles_and_sound_links() {
    let mut progress = ScanProgress::new(vec![]);
    progress.new_root_session_ids.push("root".to_string());
    let mut incremental = commit(ScanKind::Incremental, false, progress, false);
    let actions = run(&mut incremental, 4, false, 1);
    assert!(actions.contains(&CommitAction::InsertRootLinks));
    assert!(!actions.contains(&CommitAction::RefreshTitles));
    assert!(!actions.contains(&CommitAction::CheckLinks));
    assert!(!actions.contains(&CommitAction::PreviewFreshness));
    let mut wanting = commit(ScanKind::Incremental, false, ScanProgress::new(vec![]), true);
    assert!(run(&mut wanting, 4, false, 1).contains(&CommitAction::RecomputeLinks));
}

#[test]
fn refused_commit_ends_with_its_reason() {
    let mut changed = commit(ScanKind::Full, true, ScanProgress::new(vec![]), false);
    let actions = run(&mut changed, 5, true, 1);
    assert_eq!(
        actions,
        [CommitAction::LoadSource, CommitAction::Refuse(CommitRefusal::SourceChanged)]
    );
    let mut stale = commit(ScanKind::Full, true, ScanProgress::new(vec![]), false);
    let actions = run(&mut stale, 4, true, 0);
    assert_eq!(actions.last(), Some(&CommitAction::Refuse(CommitRefusal::Stale)));
    assert!(!actions.contains(&CommitAction::Commit));
    let mut fresher = commit(ScanKind::Full, true, ScanProgress::new(vec![]), false);
    fresher.full_scan_required = false;
    let actions = run(&mut fresher, 4, true, 1);
    assert_eq!(actions.last(), Some(&CommitAction::Refuse(CommitRefusal::FreshnessChanged)));
    assert!(!actions.contains(&CommitAction::NoteStarted));
    stale.advance(CommitReply::RowsUpdated(1));
    assert_eq!(stale.action, CommitAction::Refuse(CommitRefusal::Stale));
    assert_eq!(
        CommitRefusal::SourceChanged.message(),
        "Prepared scan source changed before commit."
    );
    assert_eq!(
        CommitRefusal::FreshnessChanged.message(),
        "Prepared scan freshness changed before commit."
    );
    assert_eq!(CommitRefusal::Stale.message(), "Prepared scan is stale before commit.");
}

/// Goes through a file that is read in full, as a session that the store does not know.
fn store_in_full(scan: &mut ScanState, file: &SessionFile, parsed: ParsedSession) -> PreparedSession {
    let stage = scan.first_stage(file);
    let stage = scan.advance(file, stage, FileReply::Read { parsed, bytes_read: 1 });
    match scan.advance(file, stage, relation(false, None)) {
        FileStage::Store(prepared) => prepared,
        _ => panic!("the session is stored"),
    }
}

fn remember(scan: &mut ScanState, prepared: PreparedSession) {
    let state = imported_state(
        prepared.session_file,
        prepared.parsed.raw_session.session_id,
        prepared.parsed.checkpoint,
    );
    scan.import_state.insert(state.source_path.clone(), state);
}

fn changed(scan: &ScanState, files: &Vec<SessionFile>) -> (Vec<usize>, Vec<String>) {
    let signatures = files.iter().map(|_| None).collect();
    let selection = select_changed_files(&scan.repairs, &scan.import_state, files, &signatures);
    (selection.changed, selection.unchanged_sessions)
}

#[test]
fn scan_after_a_scan_reads_nothing() {
    let files = vec![file("/logs/one.jsonl", 10), file("/logs/two.jsonl", 20)];
    let mut scan = state(ScanKind::Full);
    for (file, id) in files.iter().zip(["one", "two"]) {
        let parsed = session(file, id, None, &[5]);
        let prepared = store_in_full(&mut scan, file, parsed);
        remember(&mut scan, prepared);
    }
    let (read, unchanged) = changed(&scan, &files);
    assert!(read.is_empty());
    assert_eq!(unchanged, ["one", "two"]);
    let progress = ScanProgress::new(unchanged);
    assert_eq!((progress.updated_sessions, progress.source_bytes_read), (0, 0));
}

#[test]
fn grown_file_is_read_by_its_tail_and_counted_once() {
    let before = vec![file("/logs/one.jsonl", 10), file("/logs/two.jsonl", 20)];
    let mut scan = state(ScanKind::Incremental);
    let mut first_plan = vec![];
    let mut checkpoint = None;
    for (file, id) in before.iter().zip(["one", "two"]) {
        let parsed = session(file, id, None, &[5, 9]);
        first_plan = usage_event_plan(&parsed.mode, &parsed.snapshots, 0, false);
        let mut prepared = store_in_full(&mut scan, file, parsed);
        prepared.parsed.checkpoint.completed_offset = 20;
        checkpoint = Some(prepared.parsed.checkpoint.clone());
        remember(&mut scan, prepared);
    }
    let grown = vec![file("/logs/one.jsonl", 10), file("/logs/two.jsonl", 30)];
    let (read, unchanged) = changed(&scan, &grown);
    assert_eq!((read, unchanged), (vec![1], vec!["one".to_string()]));
    let stage = scan.first_stage(&grown[1]);
    assert!(matches!(stage, FileStage::ReadTail));

    let names = ModelNames { canonical: TextMap::new() };
    let mut tail = SessionTailParser::resume(&checkpoint.expect("checkpoint"));
    let line = "{\"type\":\"event_msg\",\"timestamp\":\"2026-01-01T00:00:09Z\",\"payload\":{\"type\":\"token_count\",\"info\":{\"total_token_usage\":{\"input_tokens\":12,\"total_tokens\":12}}}}\n";
    assert!(matches!(tail.take_line(line, NOW, &names), TailStep::GoOn));
    let parsed = tail.finish("two", None, &grown[1], &TextMap::new(), vec![]);
    let tail_plan = usage_event_plan(&parsed.mode, &parsed.snapshots, 0, false);
    let whole = session(&grown[1], "two", None, &[5, 9, 12]);
    let whole_plan = usage_event_plan(&whole.mode, &whole.snapshots, 0, false);
    let totals: Vec<i64> =
        first_plan.iter().chain(&tail_plan).map(|planned| planned.delta.total_tokens).collect();
    assert_eq!(totals, [5, 4, 3]);
    assert_eq!(
        totals,
        whole_plan.iter().map(|planned| planned.delta.total_tokens).collect::<Vec<_>>()
    );

    let updated = scan.progress.updated_sessions;
    let stage = scan.advance(&grown[1], stage, FileReply::Read { parsed, bytes_read: 10 });
    assert!(matches!(stage, FileStage::Store(_)));
    assert_eq!(scan.progress.updated_sessions, updated + 1);
    assert_eq!(scan.progress.tail_parsed_files, 1);
}

#[test]
fn updated_sessions_and_failures_are_the_files_read() {
    let mut scan = state(ScanKind::Full);
    for place in 0..5 {
        let file = file(&format!("/logs/{place}.jsonl"), 10);
        if place % 2 == 0 {
            let parsed = session(&file, &format!("s{place}"), None, &[5]);
            store_in_full(&mut scan, &file, parsed);
        } else {
            let failed = FileReply::Failed { error: "broken".to_string(), bytes_read: 1 };
            let stage = scan.first_stage(&file);
            assert!(matches!(scan.advance(&file, stage, failed), FileStage::Skip));
        }
    }
    assert_eq!(scan.progress.updated_sessions, 3);
    assert_eq!(scan.progress.parse_failures.len(), 2);
    assert_eq!(scan.progress.imported_session_ids, ["known", "s0", "s2", "s4"]);
}

/// Goes through a fork of the parent with this number, reading the parent where it is asked for,
/// and says how much it copied and whether the parent was read.
fn store_fork(scan: &mut ScanState, number: usize) -> (usize, bool) {
    let file = file(&format!("/logs/child-{number}.jsonl"), 20);
    let parent = format!("parent-{number}");
    let parsed = session(&file, &format!("child-{number}"), Some(&parent), &[5, 9, 12]);
    let mut stage = FileStage::ReadInFull;
    let mut reply = FileReply::Read { parsed, bytes_read: 1 };
    let mut parent_was_read = false;
    loop {
        stage = scan.advance(&file, stage, reply);
        reply = match &stage {
            FileStage::LocateParent { .. } => FileReply::Located(Some("/logs/parent".to_string())),
            FileStage::ReadParent { .. } => {
                parent_was_read = true;
                let snapshots = Some(vec![reading(5), reading(9), reading(11 + number as i64 % 2)]);
                FileReply::ParentRead { snapshots, bytes_read: 1 }
            }
            FileStage::LoadRelation { .. } => relation(false, None),
            FileStage::Store(prepared) => {
                return (prepared.parsed.inherited_token_snapshot_cutoff, parent_was_read);
            }
            _ => panic!("the session is stored"),
        };
    }
}

#[test]
fn evicted_parents_change_no_result() {
    let mut scan = state(ScanKind::Full);
    let first: Vec<(usize, bool)> = (0..6).map(|number| store_fork(&mut scan, number)).collect();
    assert!(first.iter().all(|(_, was_read)| *was_read));
    assert!(scan.cache.evictions() > 0);
    assert_eq!(store_fork(&mut scan, 5), (first[5].0, false));
    assert_eq!(store_fork(&mut scan, 0), (first[0].0, true));
    let cutoffs: Vec<usize> = first.iter().map(|(cutoff, _)| *cutoff).collect();
    assert_eq!(cutoffs, [2, 3, 2, 3, 2, 3]);
}
