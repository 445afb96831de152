//! How a scan goes about one changed file, step by step: it is read, its copied readings are
//! found, its place among the sessions is settled, and it is ready to be stored.

use crate::import_state::{
    tail_checkpoint, tail_is_readable, ImportState, SessionFile, SessionFileView,
};
use crate::models::{snapshot_views, RateLimitSampleRecord, UsageSnapshot, UsageSnapshotView};
use crate::prepared::{
    fork_parent, look_up_copied_readings, mark_copied_readings, replay_parent_to_locate,
    with_copied_readings, PreparedSession, PreparedSessionFile, ReplayLookup,
};
use crate::repairs::{
    fits_import, session_repairs, RepairStates, RepairStepView, RATE_LIMIT_SAMPLE_BACKFILL_KEY,
    TOKEN_USAGE_FORK_REPLAY_REPAIR_KEY, TOKEN_USAGE_MONOTONIC_REPAIR_KEY,
};
use crate::replay_cache::{
    keeps_parent, ParentReplayCache, ParentReplayCacheEntry, ReplayCacheView,
};
use crate::scan_files::ScanKind;
use crate::scan_plan::{
    failure_steps_of, may_read_tail, text_values, ParseFailureView, PreparedParseFailure,
    ScanProgress, ScanProgressView,
};
use crate::session_log::{ParsedSession, ParsedSessionView};
use crate::text::opt_text;
use crate::text_map::TextMap;
use crate::topology::{
    classify_topology_maintenance, topology_maintenance, ExistingSessionRelation,
    TopologyMaintenance,
};
use crate::usage::ParsedSessionMode;
use vstd::prelude::*;

verus! {

/// What a scan knows while it goes through the changed files.
#[derive(Debug)]
pub struct ScanState {
    pub kind: ScanKind,
    pub repairs: RepairStates,
    pub import_state: TextMap<ImportState>,
    /// Where the logs of the known sessions lie.
    pub session_source_paths: TextMap<String>,
    pub existing_relations: TextMap<ExistingSessionRelation>,
    pub cache: ParentReplayCache,
    pub progress: ScanProgress,
}

/// What a `ScanState` holds.
#[verifier::ext_equal]
pub struct ScanStateView {
    pub kind: ScanKind,
    pub repairs: RepairStates,
    pub import_state: TextMap<ImportState>,
    pub paths: Map<Seq<char>, Seq<char>>,
    pub relations: Map<Seq<char>, ExistingSessionRelation>,
    pub cache: ReplayCacheView,
    pub progress: ScanProgressView,
}

impl View for ScanState {
    type V = ScanStateView;

    open spec fn view(&self) -> ScanStateView {
        ScanStateView {
            kind: self.kind,
            repairs: self.repairs,
            import_state: self.import_state,
            paths: text_values(self.session_source_paths@),
            relations: self.existing_relations@,
            cache: self.cache@,
            progress: self.progress@,
        }
    }
}

/// What is done next about a changed file.
#[derive(Debug)]
pub enum FileStage {
    /// What was appended to it is read.
    ReadTail,
    /// It is read in full.
    ReadInFull,
    /// The log of the session's parent is located.
    LocateParent { parsed: ParsedSession, parent_id: String },
    /// The log of the session's parent is read, where it is known to lie somewhere.
    ReadParent { parsed: ParsedSession, parent_id: String, source_path: Option<String> },
    /// The session's place among the stored ones is looked up.
    LoadRelation { parsed: ParsedSession, parent_unavailable: bool },
    /// It is ready to be stored.
    Store(PreparedSession),
    /// It could not be read.
    Skip,
}

/// What has been found out.
#[derive(Debug)]
pub enum FileReply {
    Read { parsed: ParsedSession, bytes_read: u64 },
    /// What was appended cannot be read on its own.
    NotReadable,
    Failed { error: String, bytes_read: u64 },
    Located(Option<String>),
    ParentRead { snapshots: Option<Vec<UsageSnapshot>>, bytes_read: u64 },
    Relation(ExistingSessionRelation),
}

/// What a session says that was read.
#[verifier::ext_equal]
pub struct SessionContent {
    pub session: ParsedSessionView,
    pub samples: Vec<RateLimitSampleRecord>,
}

/// What a session says that was read.
pub open spec fn content_of(parsed: ParsedSession) -> SessionContent {
    SessionContent { session: parsed@, samples: parsed.rate_limit_samples }
}

impl SessionContent {
    pub open spec fn session_id(self) -> Seq<char> {
        self.session.raw_session.session_id
    }

    /// With the readings marked that it copied from a parent with these readings.
    pub open spec fn with_copied(self, parent: Seq<UsageSnapshotView>) -> SessionContent {
        SessionContent { session: with_copied_readings(self.session, parent), ..self }
    }

    /// The parent whose readings it may have copied: that of a fork that was read in full.
    pub open spec fn full_fork_parent(self) -> Option<Seq<char>> {
        if self.session.mode == ParsedSessionMode::Full {
            fork_parent(self.session)
        } else {
            None
        }
    }
}

impl ScanStateView {
    /// After a reading of what was appended to a file.
    pub open spec fn with_tail(self, bytes_read: u64) -> ScanStateView {
        ScanStateView { progress: self.progress.with_tail().with_bytes(bytes_read), ..self }
    }

    /// After a reading of a whole file.
    pub open spec fn with_full(self, bytes_read: u64) -> ScanStateView {
        ScanStateView { progress: self.progress.with_full().with_bytes(bytes_read), ..self }
    }

    /// After a file that could not be read: it is noted with the repairs that it takes part in.
    pub open spec fn with_failure(
        self,
        source_path: Seq<char>,
        error: Seq<char>,
        bytes_read: u64,
    ) -> ScanStateView {
        let failure = ParseFailureView {
            source_path,
            error,
            repairs: self.repairs.of_file(source_path),
        };
        ScanStateView { progress: self.progress.with_failure(failure, bytes_read), ..self }
    }

    /// With the place of a parent's log, if it was found.
    pub open spec fn with_path(self, parent: Seq<char>, path: Option<Seq<char>>) -> ScanStateView {
        match path {
            Some(found) => ScanStateView { paths: self.paths.insert(parent, found), ..self },
            None => self,
        }
    }

    /// With what is kept of a parent's log that was read.
    pub open spec fn with_parent(
        self,
        parent: Seq<char>,
        entry: ParentReplayCacheEntry,
        bytes_read: u64,
    ) -> ScanStateView {
        ScanStateView {
            cache: self.cache.with_entry(parent, entry),
            progress: self.progress.with_bytes(bytes_read),
            ..self
        }
    }

    /// With a session's place among the stored ones.
    pub open spec fn with_relation(
        self,
        session_id: Seq<char>,
        relation: ExistingSessionRelation,
    ) -> ScanStateView {
        ScanStateView { relations: self.relations.insert(session_id, relation), ..self }
    }

    /// What importing a session does to the stored links.
    pub open spec fn maintenance(self, content: SessionContent) -> TopologyMaintenance {
        let parent = content.session.raw_session.parent_session_id;
        if self.relations.dom().contains(content.session_id()) {
            let relation = self.relations[content.session_id()];
            topology_maintenance(Some(relation), relation.child_count, parent)
        } else {
            topology_maintenance(None, 0, parent)
        }
    }

    /// Whether a file starts with the reading of what was appended: it may be read so, and it has
    /// grown since it was imported.
    pub open spec fn starts_with_tail(self, file: SessionFileView) -> bool {
        let repairs = self.repairs.of_file(file.source_path);
        self.kind != ScanKind::Full && !repairs.rate_limit && !repairs.token_v2
            && !repairs.fork_replay_v3 && self.import_state@.dom().contains(file.source_path)
            && tail_is_readable(self.import_state@[file.source_path]@, file)
    }

    /// Whether a session is ready to be stored, with its repairs, and counted.
    pub open spec fn settles(
        self,
        file: SessionFileView,
        content: SessionContent,
        parent_unavailable: bool,
        after: ScanStateView,
        stage: FileStage,
    ) -> bool {
        match stage {
            FileStage::Store(prepared) => {
                &&& prepared.session_file.is_of(file)
                &&& content_of(prepared.parsed) == content
                &&& fits_import(
                    prepared.repairs,
                    self.repairs,
                    self.import_state@,
                    file.source_path,
                    content.session_id(),
                    parent_unavailable,
                )
                &&& after == ScanStateView {
                    progress: self.progress.with_session(
                        content.session_id(),
                        self.maintenance(content),
                    ),
                    ..self
                }
            },
            _ => false,
        }
    }

    /// Whether a session is settled, or its place is looked up first where it is not known.
    pub open spec fn relates(
        self,
        file: SessionFileView,
        content: SessionContent,
        parent_unavailable: bool,
        after: ScanStateView,
        stage: FileStage,
    ) -> bool {
        if self.relations.dom().contains(content.session_id()) {
            self.settles(file, content, parent_unavailable, after, stage)
        } else {
            after == self && (stage matches FileStage::LoadRelation {
                parsed,
                parent_unavailable: unavailable,
            } && content_of(parsed) == content && unavailable == parent_unavailable)
        }
    }

    /// Whether the readings that a session copied are marked, or the log of its parent is read
    /// first where it is not known.
    pub open spec fn looks_up(
        self,
        file: SessionFileView,
        content: SessionContent,
        after: ScanStateView,
        stage: FileStage,
    ) -> bool {
        match (content.full_fork_parent(), content.session.explicit_fork_timestamp) {
            (Some(parent), Some(_)) => if self.cache.entries.dom().contains(parent) {
                match self.cache.entries[parent].snapshots {
                    Some(snapshots) => self.relates(
                        file,
                        content.with_copied(snapshot_views(snapshots@)),
                        false,
                        after,
                        stage,
                    ),
                    None => self.relates(file, content, true, after, stage),
                }
            } else {
                after == self && (stage matches FileStage::ReadParent {
                    parsed,
                    parent_id,
                    source_path,
                } && content_of(parsed) == content && parent_id@ == parent && opt_text(source_path)
                    == (if self.paths.dom().contains(parent) {
                    Some(self.paths[parent])
                } else {
                    None
                }))
            },
            _ => self.relates(file, content, false, after, stage),
        }
    }

    /// Whether a session that was read goes on, with the log of its parent located first where
    /// its place is not known.
    pub open spec fn reads_on(
        self,
        file: SessionFileView,
        content: SessionContent,
        after: ScanStateView,
        stage: FileStage,
    ) -> bool {
        match content.full_fork_parent() {
            Some(parent) if !self.paths.dom().contains(parent) => after == self && (
            stage matches FileStage::LocateParent { parsed, parent_id } && content_of(parsed)
                == content && parent_id@ == parent),
            _ => self.looks_up(file, content, after, stage),
        }
    }

    /// Whether a reply leads from one stage to the next. One that does not fit the stage changes
    /// nothing.
    pub open spec fn leads(
        self,
        file: SessionFileView,
        stage: FileStage,
        reply: FileReply,
        after: ScanStateView,
        next: FileStage,
    ) -> bool {
        match (stage, reply) {
            (FileStage::ReadTail, FileReply::NotReadable) => next is ReadInFull && after == self,
            (FileStage::ReadTail, FileReply::Read { parsed, bytes_read }) => self.with_tail(
                bytes_read,
            ).reads_on(file, content_of(parsed), after, next),
            (FileStage::ReadTail, FileReply::Failed { error, bytes_read }) => next is Skip
                && after == self.with_failure(file.source_path, error@, bytes_read),
            (FileStage::ReadInFull, FileReply::Read { parsed, bytes_read }) => self.with_full(
                bytes_read,
            ).reads_on(file, content_of(parsed), after, next),
            (FileStage::ReadInFull, FileReply::Failed { error, bytes_read }) => next is Skip
                && after == self.with_full(0).with_failure(file.source_path, error@, bytes_read),
            (FileStage::LocateParent { parsed, parent_id }, FileReply::Located(path)) => {
                self.with_path(parent_id@, opt_text(path)).looks_up(
                    file,
                    content_of(parsed),
                    after,
                    next,
                )
            },
            (
                FileStage::ReadParent { parsed, parent_id, .. },
                FileReply::ParentRead { snapshots, bytes_read },
            ) => exists|entry: ParentReplayCacheEntry|
                #[trigger] keeps_parent(entry, parent_id@, snapshots)
                    && self.with_parent(parent_id@, entry, bytes_read).relates(
                    file,
                    match snapshots {
                        Some(readings) => content_of(parsed).with_copied(
                            snapshot_views(readings@),
                        ),
                        None => content_of(parsed),
                    },
                    snapshots is None,
                    after,
                    next,
                ),
            (
                FileStage::LoadRelation { parsed, parent_unavailable },
                FileReply::Relation(relation),
            ) => self.with_relation(content_of(parsed).session_id(), relation).settles(
                file,
                content_of(parsed),
                parent_unavailable,
                after,
                next,
            ),
            _ => next == stage && after == self,
        }
    }
}

impl ScanStateView {
    /// What is done first about a changed file.
    pub open spec fn start_of(self, file: SessionFileView) -> FileStage {
        if self.starts_with_tail(file) {
            FileStage::ReadTail
        } else {
            FileStage::ReadInFull
        }
    }
}

impl ScanState {
    /// What is done first about a changed file.
    pub fn first_stage(&self, file: &SessionFile) -> (stage: FileStage)
        ensures
            stage == self@.start_of(file@),
    {
        let repairs = self.repairs.file_repairs(file.source_path.as_str());
        if !may_read_tail(self.kind, &repairs) {
            return FileStage::ReadInFull;
        }
        match self.import_state.get(file.source_path.as_str()) {
            Some(state) => if tail_checkpoint(state, file).is_some() {
                FileStage::ReadTail
            } else {
                FileStage::ReadInFull
            },
            None => FileStage::ReadInFull,
        }
    }

    fn settle(
        &mut self,
        file: &SessionFile,
        parsed: ParsedSession,
        parent_unavailable: bool,
    ) -> (stage: FileStage)
        ensures
            old(self)@.settles(file@, content_of(parsed), parent_unavailable, final(self)@, stage),
    {
        let session_id = parsed.raw_session.session_id.as_str();
        let relation = self.existing_relations.get(session_id);
        let child_count = match relation {
            Some(found) => found.child_count,
            None => 0,
        };
        let parent = match &parsed.raw_session.parent_session_id {
            Some(id) => Some(id.as_str()),
            None => None,
        };
        let maintenance = classify_topology_maintenance(relation, child_count, parent);
        let repairs = session_repairs(
            &self.repairs,
            &self.import_state,
            file.source_path.as_str(),
            session_id,
            parent_unavailable,
        );
        self.progress.note_session(session_id, maintenance);
        FileStage::Store(
            PreparedSession { session_file: PreparedSessionFile::new(file), parsed, repairs },
        )
    }

    fn relate(
        &mut self,
        file: &SessionFile,
        parsed: ParsedSession,
        parent_unavailable: bool,
    ) -> (stage: FileStage)
        ensures
            old(self)@.relates(file@, content_of(parsed), parent_unavailable, final(self)@, stage),
    {
        if self.existing_relations.holds(parsed.raw_session.session_id.as_str()) {
            self.settle(file, parsed, parent_unavailable)
        } else {
            FileStage::LoadRelation { parsed, parent_unavailable }
        }
    }

    fn look_up(&mut self, file: &SessionFile, parsed: ParsedSession) -> (stage: FileStage)
        ensures
            old(self)@.looks_up(file@, content_of(parsed), final(self)@, stage),
    {
        let mut parsed = parsed;
        let in_full = match parsed.mode {
            ParsedSessionMode::Full => true,
            _ => false,
        };
        if !in_full {
            return self.relate(file, parsed, false);
        }
        match look_up_copied_readings(&mut parsed, &self.cache) {
            ReplayLookup::NotForked => self.relate(file, parsed, false),
            ReplayLookup::Settled { parent_unavailable } => self.relate(
                file,
                parsed,
                parent_unavailable,
            ),
            ReplayLookup::ReadParent(parent_id) => {
                let source_path = match self.session_source_paths.get(parent_id.as_str()) {
                    Some(path) => Some(path.clone()),
                    None => None,
                };
                FileStage::ReadParent { parsed, parent_id, source_path }
            },
        }
    }

    fn read_on(&mut self, file: &SessionFile, parsed: ParsedSession) -> (stage: FileStage)
        ensures
            old(self)@.reads_on(file@, content_of(parsed), final(self)@, stage),
    {
        match replay_parent_to_locate(&parsed, &self.session_source_paths) {
            Some(parent_id) => FileStage::LocateParent { parsed, parent_id },
            None => self.look_up(file, parsed),
        }
    }

    fn fail(&mut self, file: &SessionFile, error: String, bytes_read: u64) -> (stage: FileStage)
        ensures
            stage is Skip,
            final(self)@ == old(self)@.with_failure(file@.source_path, error@, bytes_read),
    {
        let failure = PreparedParseFailure {
            source_path: file.source_path.clone(),
            error,
            repairs: self.repairs.file_repairs(file.source_path.as_str()),
        };
        self.progress.note_failure(failure, bytes_read);
        FileStage::Skip
    }

    /// Takes in what has been found out about a changed file, and says what is done next.
    pub fn advance(&mut self, file: &SessionFile, stage: FileStage, reply: FileReply) -> (next:
        FileStage)
        ensures
            old(self)@.leads(file@, stage, reply, final(self)@, next),
    {
        match (stage, reply) {
            (FileStage::ReadTail, FileReply::NotReadable) => FileStage::ReadInFull,
            (FileStage::ReadTail, FileReply::Read { parsed, bytes_read }) => {
                self.progress.count_tail();
                self.progress.count_bytes(bytes_read);
                self.read_on(file, parsed)
            },
            (FileStage::ReadTail, FileReply::Failed { error, bytes_read }) => self.fail(
                file,
                error,
                bytes_read,
            ),
            (FileStage::ReadInFull, FileReply::Read { parsed, bytes_read }) => {
                self.progress.count_full();
                self.progress.count_bytes(bytes_read);
                self.read_on(file, parsed)
            },
            (FileStage::ReadInFull, FileReply::Failed { error, bytes_read }) => {
                self.progress.count_full();
                self.fail(file, error, bytes_read)
            },
            (FileStage::LocateParent { parsed, parent_id }, FileReply::Located(path)) => {
                match path {
                    Some(found) => {
                        let ghost before = self.session_source_paths@;
                        self.session_source_paths.insert(parent_id, found);
                        proof {
                            assert(text_values(self.session_source_paths@) =~= text_values(
                                before,
                            ).insert(parent_id@, found@));
                        }
                    },
                    None => {},
                }
                self.look_up(file, parsed)
            },
            (
                FileStage::ReadParent { parsed, parent_id, source_path: _ },
                FileReply::ParentRead { snapshots, bytes_read },
            ) => {
                let mut parsed = parsed;
                self.progress.count_bytes(bytes_read);
                let parent_unavailable = mark_copied_readings(&mut parsed, snapshots.as_ref());
                let ghost before = self.cache@;
                self.cache.insert(parent_id, snapshots);
                proof {
                    let entry = choose|entry: ParentReplayCacheEntry| #[trigger]
                        keeps_parent(entry, parent_id@, snapshots) && self.cache@
                            == before.with_entry(parent_id@, entry);
                    assert(self@ == old(self)@.with_parent(parent_id@, entry, bytes_read));
                }
                self.relate(file, parsed, parent_unavailable)
            },
            (
                FileStage::LoadRelation { parsed, parent_unavailable },
                FileReply::Relation(relation),
            ) => {
                self.existing_relations.insert(parsed.raw_session.session_id.clone(), relation);
                self.settle(file, parsed, parent_unavailable)
            },
            (stage, _) => stage,
        }
    }
}

impl FileStage {
    /// Whether a reply is one to this stage.
    pub open spec fn is_answered_by(self, reply: FileReply) -> bool {
        match self {
            FileStage::ReadTail => reply is Read || reply is NotReadable || reply is Failed,
            FileStage::ReadInFull => reply is Read || reply is Failed,
            FileStage::LocateParent { .. } => reply is Located,
            FileStage::ReadParent { .. } => reply is ParentRead,
            FileStage::LoadRelation { .. } => reply is Relation,
            FileStage::Store(_) => false,
            FileStage::Skip => false,
        }
    }

    /// How many replies are left at most.
    pub open spec fn replies_left(self) -> int {
        match self {
            FileStage::ReadTail => 5,
            FileStage::ReadInFull => 4,
            FileStage::LocateParent { .. } => 3,
            FileStage::ReadParent { .. } => 2,
            FileStage::LoadRelation { .. } => 1,
            FileStage::Store(_) => 0,
            FileStage::Skip => 0,
        }
    }
}

/// Every file comes to its end: each reply to a stage leaves fewer to come.
pub proof fn every_reply_leads_on(
    scan: ScanStateView,
    file: SessionFileView,
    stage: FileStage,
    reply: FileReply,
    after: ScanStateView,
    next: FileStage,
)
    requires
        scan.leads(file, stage, reply, after, next),
        stage.is_answered_by(reply),
    ensures
        0 <= next.replies_left() < stage.replies_left(),
{
}

/// What a scan goes by stays the same while it goes through the files: its kind, the state of the
/// repairs and what was imported before.
pub proof fn scan_keeps_its_ground(
    scan: ScanStateView,
    file: SessionFileView,
    stage: FileStage,
    reply: FileReply,
    after: ScanStateView,
    next: FileStage,
)
    requires
        scan.leads(file, stage, reply, after, next),
    ensures
        after.kind == scan.kind,
        after.repairs == scan.repairs,
        after.import_state == scan.import_state,
{
}

/// A file that cannot be read fails by itself: the scan goes on, with the sessions that it has
/// counted so far, and the file stays pending in each repair that it takes part in.
pub proof fn unreadable_file_stays_pending(
    scan: ScanStateView,
    file: SessionFileView,
    stage: FileStage,
    error: String,
    bytes_read: u64,
    after: ScanStateView,
    next: FileStage,
)
    requires
        stage is ReadTail || stage is ReadInFull,
        scan.leads(file, stage, FileReply::Failed { error, bytes_read }, after, next),
    ensures
        next is Skip,
        after.progress.imported_session_ids == scan.progress.imported_session_ids,
        after.progress.updated_sessions == scan.progress.updated_sessions,
        after.progress.failures.len() == scan.progress.failures.len() + 1,
        ({
            let repairs = scan.repairs.of_file(file.source_path);
            let steps = failure_steps_of(after.progress.failures.last());
            let pending = |repair_key: Seq<char>|
                RepairStepView::MarkPending {
                    repair_key,
                    source_path: file.source_path,
                    reason: error@,
                };
            &&& repairs.rate_limit ==> steps.contains(pending(RATE_LIMIT_SAMPLE_BACKFILL_KEY@))
            &&& repairs.token_v2 ==> steps.contains(pending(TOKEN_USAGE_MONOTONIC_REPAIR_KEY@))
            &&& repairs.fork_replay_v3 ==> steps.contains(
                pending(TOKEN_USAGE_FORK_REPLAY_REPAIR_KEY@),
            )
        }),
{
    let repairs = scan.repairs.of_file(file.source_path);
    let failure = after.progress.failures.last();
    let steps = failure_steps_of(failure);
    let token_v2: int = if repairs.token_v2 {
        1
    } else {
        0
    };
    let fork_replay_v3: int = if repairs.fork_replay_v3 {
        1
    } else {
        0
    };
    if repairs.token_v2 {
        assert(steps[0] == (RepairStepView::MarkPending {
            repair_key: TOKEN_USAGE_MONOTONIC_REPAIR_KEY@,
            source_path: file.source_path,
            reason: error@,
        }));
    }
    if repairs.fork_replay_v3 {
        assert(steps[token_v2] == (RepairStepView::MarkPending {
            repair_key: TOKEN_USAGE_FORK_REPLAY_REPAIR_KEY@,
            source_path: file.source_path,
            reason: error@,
        }));
    }
    if repairs.rate_limit {
        assert(steps[token_v2 + fork_replay_v3] == (RepairStepView::MarkPending {
            repair_key: RATE_LIMIT_SAMPLE_BACKFILL_KEY@,
            source_path: file.source_path,
            reason: error@,
        }));
    }
}

} // verus!
