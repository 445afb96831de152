//! What a scan does, from the choice of its kind to what it commits.

use crate::import_state::{ImportState, SessionFile};
use crate::models::ScanResult;
use crate::repairs::{
    FileRepairs, RepairStates, RepairStep, RepairStepView, step_views,
    RATE_LIMIT_SAMPLE_BACKFILL_KEY, TOKEN_USAGE_FORK_REPLAY_REPAIR_KEY,
    TOKEN_USAGE_MONOTONIC_REPAIR_KEY,
};
use crate::scan_files::ScanKind;
use crate::text::{add_text, opt_is, opt_text, same_opt, texts, with_text};
use crate::text_map::TextMap;
use crate::topology::TopologyMaintenance;
use vstd::prelude::*;

verus! {

/// The kind of scan that is carried out in place of the requested one: a full one where nothing
/// was imported yet, where a repair must sweep over everything, or where the source changed.
pub open spec fn effective_kind(
    requested: ScanKind,
    import_state_is_empty: bool,
    needs_rate_limit_backfill: bool,
    needs_token_usage_repair_sweep: bool,
    resolved_source_requires_full_scan: bool,
) -> ScanKind {
    if import_state_is_empty || needs_rate_limit_backfill || needs_token_usage_repair_sweep
        || resolved_source_requires_full_scan {
        ScanKind::Full
    } else {
        requested
    }
}

/// The kind of scan that is carried out in place of the requested one.
pub fn effective_scan_scope(
    requested_scope: ScanKind,
    import_state_is_empty: bool,
    needs_rate_limit_backfill: bool,
    needs_token_usage_repair_sweep: bool,
    resolved_source_requires_full_scan: bool,
) -> (kind: ScanKind)
    ensures
        kind == effective_kind(
            requested_scope,
            import_state_is_empty,
            needs_rate_limit_backfill,
            needs_token_usage_repair_sweep,
            resolved_source_requires_full_scan,
        ),
{
    if requested_scope == ScanKind::Full || import_state_is_empty || needs_rate_limit_backfill
        || needs_token_usage_repair_sweep || resolved_source_requires_full_scan {
        ScanKind::Full
    } else {
        requested_scope
    }
}

/// How a kind of scan is called in results.
pub open spec fn kind_name(kind: ScanKind) -> Seq<char> {
    match kind {
        ScanKind::Full => "full"@,
        ScanKind::Reconcile => "reconcile"@,
        ScanKind::Incremental => "incremental"@,
    }
}

impl ScanKind {
    /// How the kind of scan is called in results.
    pub fn name(&self) -> (name: String)
        ensures
            name@ == kind_name(*self),
    {
        match self {
            ScanKind::Full => "full".to_owned(),
            ScanKind::Reconcile => "reconcile".to_owned(),
            ScanKind::Incremental => "incremental".to_owned(),
        }
    }
}

/// What the store remembers of the source of scans.
#[derive(Clone, Debug)]
pub struct SourceRecord {
    /// The configured home of the logs.
    pub selector: Option<String>,
    /// How many scans were committed.
    pub scan_commit_revision: i64,
    pub last_scan_codex_home: Option<String>,
    pub last_scan_started_at: Option<String>,
    pub last_scan_completed_at: Option<String>,
    pub last_full_scan_completed_at: Option<String>,
}

/// Whether two records of the source say the same.
pub open spec fn same_source(left: SourceRecord, right: SourceRecord) -> bool {
    opt_text(left.selector) == opt_text(right.selector) && left.scan_commit_revision
        == right.scan_commit_revision && opt_text(left.last_scan_codex_home) == opt_text(
        right.last_scan_codex_home,
    ) && opt_text(left.last_scan_started_at) == opt_text(right.last_scan_started_at) && opt_text(
        left.last_scan_completed_at,
    ) == opt_text(right.last_scan_completed_at) && opt_text(left.last_full_scan_completed_at)
        == opt_text(right.last_full_scan_completed_at)
}

/// Whether the source is still the one that a scan was prepared for: the store says the same of
/// it, and, where the scan followed the configured home, that home is still at the same place.
pub fn validate_prepared_source_identity(
    prepared: &SourceRecord,
    current: &SourceRecord,
    tracked_home_moved: bool,
) -> (result: Result<(), String>)
    ensures
        match result {
            Ok(()) => same_source(*prepared, *current) && !tracked_home_moved,
            Err(message) => !(same_source(*prepared, *current) && !tracked_home_moved) && message@
                == "Prepared scan source changed before commit."@,
        },
{
    if same_opt(&prepared.selector, &current.selector) && prepared.scan_commit_revision
        == current.scan_commit_revision && same_opt(
        &prepared.last_scan_codex_home,
        &current.last_scan_codex_home,
    ) && same_opt(&prepared.last_scan_started_at, &current.last_scan_started_at) && same_opt(
        &prepared.last_scan_completed_at,
        &current.last_scan_completed_at,
    ) && same_opt(
        &prepared.last_full_scan_completed_at,
        &current.last_full_scan_completed_at,
    ) && !tracked_home_moved {
        Ok(())
    } else {
        Err("Prepared scan source changed before commit.".to_owned())
    }
}

/// Whether the freshness of the source asks for a full scan: the scan follows the configured
/// home, and the last scan was of another home or no full scan was completed.
pub fn freshness_requires_full_scan(
    source: &SourceRecord,
    track_scan_freshness: bool,
    resolved_codex_home: &str,
) -> (required: bool)
    ensures
        required == (track_scan_freshness && (opt_text(source.last_scan_codex_home) != Some(
            resolved_codex_home@,
        ) || source.last_full_scan_completed_at is None)),
{
    track_scan_freshness && (!opt_is(&source.last_scan_codex_home, resolved_codex_home)
        || source.last_full_scan_completed_at.is_none())
}

/// Whether a scan can do with what the store knows of active sessions: an incremental scan was
/// asked for, nothing forces a full one, and the last scan was of the same home.
pub fn use_incremental_snapshot(
    requested_kind: ScanKind,
    import_state_is_empty: bool,
    repairs: &RepairStates,
    source: &SourceRecord,
    resolved_requested_home: &Option<String>,
) -> (result: bool)
    ensures
        result == (effective_kind(
            requested_kind,
            import_state_is_empty,
            repairs.rate_limit.needs_sweep,
            repairs.token_v2.needs_sweep || repairs.fork_replay_v3.needs_sweep,
            source.last_full_scan_completed_at is None || resolved_requested_home is None
                || opt_text(source.last_scan_codex_home) != opt_text(*resolved_requested_home),
        ) == ScanKind::Incremental),
{
    requested_kind == ScanKind::Incremental && !import_state_is_empty
        && !repairs.rate_limit.needs_sweep && !repairs.token_v2.needs_sweep
        && !repairs.fork_replay_v3.needs_sweep && source.last_full_scan_completed_at.is_some()
        && resolved_requested_home.is_some() && same_opt(
        &source.last_scan_codex_home,
        resolved_requested_home,
    )
}

/// The files of sessions after those that the first `end` imported files give.
pub open spec fn paths_from_states(
    start: Map<Seq<char>, Seq<char>>,
    order: Seq<Seq<char>>,
    import_state: Map<Seq<char>, ImportState>,
    end: int,
) -> Map<Seq<char>, Seq<char>>
    decreases end,
{
    if end <= 0 {
        start
    } else {
        let earlier = paths_from_states(start, order, import_state, end - 1);
        let state = import_state[order[end - 1]];
        match opt_text(state.session_id) {
            Some(id) => earlier.insert(id, state.source_path@),
            None => earlier,
        }
    }
}

/// What a map from texts to texts holds.
pub open spec fn text_values(map: Map<Seq<char>, String>) -> Map<Seq<char>, Seq<char>> {
    map.map_values(|value: String| value@)
}

/// Adds the files of the sessions that were imported.
pub fn add_imported_paths(
    session_source_paths: &mut TextMap<String>,
    import_state: &TextMap<ImportState>,
)
    ensures
        text_values(final(session_source_paths)@) == paths_from_states(
            text_values(old(session_source_paths)@),
            import_state.order(),
            import_state@,
            import_state.order().len() as int,
        ),
{
    let ghost start = text_values(session_source_paths@);
    let count = import_state.len();
    let mut place: usize = 0;
    while place < count
        invariant
            place <= count,
            count == import_state.order().len(),
            text_values(session_source_paths@) == paths_from_states(
                start,
                import_state.order(),
                import_state@,
                place as int,
            ),
        decreases count - place,
    {
        let entry = import_state.entry(place);
        let ghost before = session_source_paths@;
        match &entry.1.session_id {
            Some(id) => {
                session_source_paths.insert(id.clone(), entry.1.source_path.clone());
                proof {
                    assert(text_values(session_source_paths@) =~= text_values(before).insert(
                        id@,
                        entry.1.source_path@,
                    ));
                }
            },
            None => {},
        }
        place = place + 1;
    }
}

/// The files of sessions after those that the names of the first `end` found files give.
pub open spec fn paths_from_files(
    start: Map<Seq<char>, Seq<char>>,
    files: Seq<SessionFile>,
    end: int,
) -> Map<Seq<char>, Seq<char>>
    decreases end,
{
    if end <= 0 {
        start
    } else {
        let earlier = paths_from_files(start, files, end - 1);
        match files[end - 1]@.name_session_id {
            Some(id) => earlier.insert(id, files[end - 1]@.source_path),
            None => earlier,
        }
    }
}

/// Adds the files that carry a session in their name.
pub fn add_found_paths(session_source_paths: &mut TextMap<String>, files: &Vec<SessionFile>)
    ensures
        text_values(final(session_source_paths)@) == paths_from_files(
            text_values(old(session_source_paths)@),
            files@,
            files.len() as int,
        ),
{
    let ghost start = text_values(session_source_paths@);
    let mut index: usize = 0;
    while index < files.len()
        invariant
            index <= files.len(),
            text_values(session_source_paths@) == paths_from_files(start, files@, index as int),
        decreases files.len() - index,
    {
        let ghost before = session_source_paths@;
        match &files[index].name_session_id {
            Some(id) => {
                session_source_paths.insert(id.clone(), files[index].source_path.clone());
                proof {
                    assert(text_values(session_source_paths@) =~= text_values(before).insert(
                        id@,
                        files[index as int].source_path@,
                    ));
                }
            },
            None => {},
        }
        index = index + 1;
    }
}

/// Whether only what was appended to a file may be read: in a scan that is not full, and where no
/// repair needs the whole file.
pub fn may_read_tail(kind: ScanKind, repairs: &FileRepairs) -> (result: bool)
    ensures
        result == (kind != ScanKind::Full && !repairs.rate_limit && !repairs.token_v2
            && !repairs.fork_replay_v3),
{
    kind != ScanKind::Full && !repairs.rate_limit && !repairs.token_v2 && !repairs.fork_replay_v3
}

/// A file that could not be read.
#[derive(Clone, Debug)]
pub struct PreparedParseFailure {
    pub source_path: String,
    pub error: String,
    pub repairs: FileRepairs,
}

/// What a `PreparedParseFailure` holds.
#[verifier::ext_equal]
pub struct ParseFailureView {
    pub source_path: Seq<char>,
    pub error: Seq<char>,
    pub repairs: FileRepairs,
}

impl View for PreparedParseFailure {
    type V = ParseFailureView;

    open spec fn view(&self) -> ParseFailureView {
        ParseFailureView {
            source_path: self.source_path@,
            error: self.error@,
            repairs: self.repairs,
        }
    }
}

/// What each failure of a list holds.
pub open spec fn failure_views(failures: Seq<PreparedParseFailure>) -> Seq<ParseFailureView> {
    failures.map_values(|failure: PreparedParseFailure| failure@)
}

/// What a scan has done so far.
#[derive(Clone, Debug)]
pub struct ScanProgress {
    pub source_bytes_read: u64,
    pub tail_parsed_files: usize,
    pub fully_parsed_files: usize,
    pub updated_sessions: usize,
    /// The sessions that were found, each once.
    pub imported_session_ids: Vec<String>,
    pub parse_failures: Vec<PreparedParseFailure>,
    pub topology_dirty: bool,
    pub new_root_session_ids: Vec<String>,
}

/// What a `ScanProgress` holds.
#[verifier::ext_equal]
pub struct ScanProgressView {
    pub source_bytes_read: u64,
    pub tail_parsed_files: usize,
    pub fully_parsed_files: usize,
    pub updated_sessions: usize,
    pub imported_session_ids: Seq<Seq<char>>,
    pub failures: Seq<ParseFailureView>,
    pub topology_dirty: bool,
    pub new_root_session_ids: Seq<Seq<char>>,
}

impl View for ScanProgress {
    type V = ScanProgressView;

    open spec fn view(&self) -> ScanProgressView {
        ScanProgressView {
            source_bytes_read: self.source_bytes_read,
            tail_parsed_files: self.tail_parsed_files,
            fully_parsed_files: self.fully_parsed_files,
            updated_sessions: self.updated_sessions,
            imported_session_ids: texts(self.imported_session_ids@),
            failures: failure_views(self.parse_failures@),
            topology_dirty: self.topology_dirty,
            new_root_session_ids: texts(self.new_root_session_ids@),
        }
    }
}

impl ScanProgressView {
    /// A scan that has read nothing yet and found these sessions unchanged.
    pub open spec fn fresh(unchanged_sessions: Seq<Seq<char>>) -> ScanProgressView {
        ScanProgressView {
            source_bytes_read: 0,
            tail_parsed_files: 0,
            fully_parsed_files: 0,
            updated_sessions: 0,
            imported_session_ids: unchanged_sessions,
            failures: Seq::empty(),
            topology_dirty: false,
            new_root_session_ids: Seq::empty(),
        }
    }

    /// With bytes that were read.
    pub open spec fn with_bytes(self, bytes_read: u64) -> ScanProgressView {
        ScanProgressView {
            source_bytes_read: self.source_bytes_read.saturating_add(bytes_read),
            ..self
        }
    }

    /// With a file of which only what was appended was read.
    pub open spec fn with_tail(self) -> ScanProgressView {
        ScanProgressView { tail_parsed_files: self.tail_parsed_files.wrapping_add(1), ..self }
    }

    /// With a file that is read in full.
    pub open spec fn with_full(self) -> ScanProgressView {
        ScanProgressView { fully_parsed_files: self.fully_parsed_files.wrapping_add(1), ..self }
    }

    /// With a file that could not be read.
    pub open spec fn with_failure(self, failure: ParseFailureView, bytes_read: u64) ->
        ScanProgressView {
        ScanProgressView {
            source_bytes_read: self.source_bytes_read.saturating_add(bytes_read),
            failures: self.failures.push(failure),
            ..self
        }
    }

    /// With a session that is ready to be stored.
    pub open spec fn with_session(
        self,
        session_id: Seq<char>,
        maintenance: TopologyMaintenance,
    ) -> ScanProgressView {
        ScanProgressView {
            updated_sessions: self.updated_sessions.wrapping_add(1),
            imported_session_ids: with_text(self.imported_session_ids, session_id),
            topology_dirty: self.topology_dirty || maintenance
                == TopologyMaintenance::RecomputeAll,
            new_root_session_ids: if maintenance == TopologyMaintenance::InsertRootLink {
                self.new_root_session_ids.push(session_id)
            } else {
                self.new_root_session_ids
            },
            ..self
        }
    }
}

impl ScanProgress {
    /// A scan that has read nothing yet and found these sessions unchanged.
    pub fn new(unchanged_sessions: Vec<String>) -> (progress: ScanProgress)
        ensures
            progress@ == ScanProgressView::fresh(texts(unchanged_sessions@)),
    {
        let progress = ScanProgress {
            source_bytes_read: 0,
            tail_parsed_files: 0,
            fully_parsed_files: 0,
            updated_sessions: 0,
            imported_session_ids: unchanged_sessions,
            parse_failures: Vec::new(),
            topology_dirty: false,
            new_root_session_ids: Vec::new(),
        };
        proof {
            assert(progress@.new_root_session_ids =~= Seq::empty());
            assert(progress@.failures =~= Seq::empty());
        }
        progress
    }

    /// Counts bytes that were read.
    pub fn count_bytes(&mut self, bytes_read: u64)
        ensures
            final(self)@ == old(self)@.with_bytes(bytes_read),
    {
        self.source_bytes_read = self.source_bytes_read.saturating_add(bytes_read);
    }

    /// Counts a file of which only what was appended was read.
    pub fn count_tail(&mut self)
        ensures
            final(self)@ == old(self)@.with_tail(),
    {
        self.tail_parsed_files = self.tail_parsed_files.wrapping_add(1);
    }

    /// Counts a file that is read in full.
    pub fn count_full(&mut self)
        ensures
            final(self)@ == old(self)@.with_full(),
    {
        self.fully_parsed_files = self.fully_parsed_files.wrapping_add(1);
    }

    /// Notes a file that could not be read. It stays pending in the repairs that it takes part
    /// in.
    pub fn note_failure(&mut self, failure: PreparedParseFailure, bytes_read: u64)
        ensures
            final(self)@ == old(self)@.with_failure(failure@, bytes_read),
    {
        let ghost before = self.parse_failures@;
        self.source_bytes_read = self.source_bytes_read.saturating_add(bytes_read);
        self.parse_failures.push(failure);
        proof {
            assert(failure_views(self.parse_failures@) =~= failure_views(before).push(failure@));
        }
    }

    /// Notes a session that is ready to be stored, and what it does to the stored links.
    pub fn note_session(&mut self, session_id: &str, maintenance: TopologyMaintenance)
        ensures
            final(self)@ == old(self)@.with_session(session_id@, maintenance),
    {
        add_text(&mut self.imported_session_ids, session_id);
        match maintenance {
            TopologyMaintenance::Unchanged => {},
            TopologyMaintenance::InsertRootLink => {
                let ghost before = self.new_root_session_ids@;
                self.new_root_session_ids.push(session_id.to_owned());
                proof {
                    assert(texts(self.new_root_session_ids@) =~= texts(before).push(session_id@));
                }
            },
            TopologyMaintenance::RecomputeAll => {
                self.topology_dirty = true;
            },
        }
        self.updated_sessions = self.updated_sessions.wrapping_add(1);
    }
}

/// The steps that keep an unreadable file pending in a repair.
pub open spec fn pending_step(
    needed: bool,
    repair_key: Seq<char>,
    failure: ParseFailureView,
) -> Seq<RepairStepView> {
    if needed {
        seq![
            RepairStepView::MarkPending {
                repair_key,
                source_path: failure.source_path,
                reason: failure.error,
            },
        ]
    } else {
        Seq::empty()
    }
}

/// The steps that keep an unreadable file pending in all repairs that it takes part in.
pub open spec fn failure_steps_of(failure: ParseFailureView) -> Seq<RepairStepView> {
    pending_step(failure.repairs.token_v2, TOKEN_USAGE_MONOTONIC_REPAIR_KEY@, failure)
        + pending_step(
        failure.repairs.fork_replay_v3,
        TOKEN_USAGE_FORK_REPLAY_REPAIR_KEY@,
        failure,
    ) + pending_step(failure.repairs.rate_limit, RATE_LIMIT_SAMPLE_BACKFILL_KEY@, failure)
}

fn push_pending(
    steps: &mut Vec<RepairStep>,
    needed: bool,
    repair_key: &str,
    failure: &PreparedParseFailure,
)
    ensures
        step_views(final(steps)@) == step_views(old(steps)@) + pending_step(
            needed,
            repair_key@,
            failure@,
        ),
{
    let ghost before = steps@;
    if needed {
        steps.push(
            RepairStep::MarkPending {
                repair_key: repair_key.to_owned(),
                source_path: failure.source_path.clone(),
                reason: failure.error.clone(),
            },
        );
    }
    proof {
        assert(step_views(steps@) =~= step_views(before) + pending_step(
            needed,
            repair_key@,
            failure@,
        ));
    }
}

/// The steps that keep an unreadable file pending in all repairs that it takes part in.
pub fn failure_steps(failure: &PreparedParseFailure) -> (steps: Vec<RepairStep>)
    ensures
        step_views(steps@) == failure_steps_of(failure@),
{
    let mut steps: Vec<RepairStep> = Vec::new();
    proof {
        assert(step_views(steps@) =~= Seq::empty());
    }
    push_pending(
        &mut steps,
        failure.repairs.token_v2,
        TOKEN_USAGE_MONOTONIC_REPAIR_KEY,
        failure,
    );
    push_pending(
        &mut steps,
        failure.repairs.fork_replay_v3,
        TOKEN_USAGE_FORK_REPLAY_REPAIR_KEY,
        failure,
    );
    push_pending(&mut steps, failure.repairs.rate_limit, RATE_LIMIT_SAMPLE_BACKFILL_KEY, failure);
    proof {
        assert(step_views(steps@) =~= failure_steps_of(failure@));
    }
    steps
}

/// What a commit does about the stored links.
#[derive(Clone, Copy, Debug, PartialEq, Eq, Structural)]
pub enum LinkAction {
    RecomputeAll,
    InsertRoots,
    Leave,
}

/// What a commit does beyond storing the sessions.
#[derive(Clone, Copy, Debug, PartialEq, Eq, Structural)]
pub struct CommitPlan {
    /// Whether the titles of all sessions are stored anew.
    pub refresh_titles: bool,
    pub links: LinkAction,
    /// Whether the full scan counts as completed.
    pub full_scan_completed: bool,
    /// Whether the last full scan no longer counts.
    pub full_scan_invalidated: bool,
}

/// What a commit does beyond storing the sessions. `links_need_repair` says whether the stored
/// links disagree with the stored sessions. A scan that passed over a file does not count as a
/// full one, and takes the count from the one before.
pub open spec fn planned_commit(
    kind: ScanKind,
    progress: ScanProgressView,
    links_need_repair: bool,
) -> CommitPlan {
    CommitPlan {
        refresh_titles: kind != ScanKind::Incremental,
        links: if progress.topology_dirty || links_need_repair {
            LinkAction::RecomputeAll
        } else if progress.new_root_session_ids.len() > 0 {
            LinkAction::InsertRoots
        } else {
            LinkAction::Leave
        },
        full_scan_completed: kind != ScanKind::Incremental && progress.failures.len() == 0,
        full_scan_invalidated: kind != ScanKind::Incremental && progress.failures.len() > 0,
    }
}

/// What a commit does beyond storing the sessions.
pub fn plan_commit(kind: ScanKind, progress: &ScanProgress, links_need_repair: bool) -> (plan:
    CommitPlan)
    ensures
        plan == planned_commit(kind, progress@, links_need_repair),
{
    let skipped = !progress.parse_failures.is_empty();
    proof {
        assert(texts(progress.new_root_session_ids@).len()
            == progress.new_root_session_ids@.len());
    }
    CommitPlan {
        refresh_titles: kind != ScanKind::Incremental,
        links: if progress.topology_dirty || links_need_repair {
            LinkAction::RecomputeAll
        } else if !progress.new_root_session_ids.is_empty() {
            LinkAction::InsertRoots
        } else {
            LinkAction::Leave
        },
        full_scan_completed: kind != ScanKind::Incremental && !skipped,
        full_scan_invalidated: kind != ScanKind::Incremental && skipped,
    }
}

/// The keys of the repairs whose sweep a scan has carried out.
pub open spec fn swept_keys(repairs: RepairStates) -> Seq<Seq<char>> {
    (if repairs.rate_limit.needs_sweep {
        seq![RATE_LIMIT_SAMPLE_BACKFILL_KEY@]
    } else {
        Seq::empty()
    }) + (if repairs.token_v2.needs_sweep {
        seq![TOKEN_USAGE_MONOTONIC_REPAIR_KEY@]
    } else {
        Seq::empty()
    }) + (if repairs.fork_replay_v3.needs_sweep {
        seq![TOKEN_USAGE_FORK_REPLAY_REPAIR_KEY@]
    } else {
        Seq::empty()
    })
}

/// The keys of the repairs whose sweep a scan has carried out.
pub fn completed_repair_keys(repairs: &RepairStates) -> (keys: Vec<String>)
    ensures
        texts(keys@) == swept_keys(*repairs),
{
    let mut keys: Vec<String> = Vec::new();
    if repairs.rate_limit.needs_sweep {
        keys.push(RATE_LIMIT_SAMPLE_BACKFILL_KEY.to_owned());
    }
    if repairs.token_v2.needs_sweep {
        keys.push(TOKEN_USAGE_MONOTONIC_REPAIR_KEY.to_owned());
    }
    if repairs.fork_replay_v3.needs_sweep {
        keys.push(TOKEN_USAGE_FORK_REPLAY_REPAIR_KEY.to_owned());
    }
    proof {
        assert(texts(keys@) =~= swept_keys(*repairs));
    }
    keys
}

/// Whether a prepared scan may still be committed: where the freshness of the source is recorded,
/// it asks for a full scan exactly if it did so before.
pub fn check_scan_freshness(
    recorded: bool,
    full_scan_required: bool,
    prepared_full_scan_required: bool,
) -> (result: Result<(), String>)
    ensures
        match result {
            Ok(()) => recorded ==> full_scan_required == prepared_full_scan_required,
            Err(message) => recorded && full_scan_required != prepared_full_scan_required
                && message@ == "Prepared scan freshness changed before commit."@,
        },
{
    if recorded && full_scan_required != prepared_full_scan_required {
        Err("Prepared scan freshness changed before commit.".to_owned())
    } else {
        Ok(())
    }
}

/// Whether a prepared scan may still be committed: exactly one row had the revision that it was
/// prepared for.
pub fn check_scan_revision(rows_updated: usize) -> (result: Result<(), String>)
    ensures
        match result {
            Ok(()) => rows_updated == 1,
            Err(message) => rows_updated != 1 && message@
                == "Prepared scan is stale before commit."@,
        },
{
    if rows_updated == 1 {
        Ok(())
    } else {
        Err("Prepared scan is stale before commit.".to_owned())
    }
}

/// The result of a scan.
pub fn scan_result(
    codex_home: String,
    kind: ScanKind,
    scanned_files: usize,
    progress: &ScanProgress,
    missing_sessions: usize,
    completed_at: String,
) -> (result: ScanResult)
    ensures
        result.codex_home == codex_home,
        result.scanned_files == scanned_files,
        result.imported_sessions == progress@.imported_session_ids.len(),
        result.updated_sessions == progress@.updated_sessions,
        result.missing_sessions == missing_sessions,
        result.scan_kind@ == kind_name(kind),
        result.source_bytes_read == progress@.source_bytes_read,
        result.tail_parsed_files == progress@.tail_parsed_files,
        result.fully_parsed_files == progress@.fully_parsed_files,
        result.last_completed_at == completed_at,
{
    proof {
        assert(texts(progress.imported_session_ids@).len()
            == progress.imported_session_ids@.len());
    }
    ScanResult {
        codex_home,
        scanned_files,
        imported_sessions: progress.imported_session_ids.len(),
        updated_sessions: progress.updated_sessions,
        missing_sessions,
        scan_kind: kind.name(),
        source_bytes_read: progress.source_bytes_read,
        tail_parsed_files: progress.tail_parsed_files,
        fully_parsed_files: progress.fully_parsed_files,
        last_completed_at: completed_at,
    }
}

} // verus!
