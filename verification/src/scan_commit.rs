//! How a prepared scan is stored: all of it or nothing.
//!
//! The store may have changed since the scan was prepared. So the commit asks first, writes then,
//! and goes through only if nobody else committed in between.

use crate::models::ScanResult;
use crate::repairs::RepairStates;
use crate::scan_files::ScanKind;
use crate::scan_plan::{
    check_scan_freshness, check_scan_revision, completed_repair_keys, kind_name, plan_commit,
    planned_commit, same_source, scan_result, swept_keys, validate_prepared_source_identity,
    LinkAction, ScanProgress, SourceRecord,
};
use crate::text::texts;
use vstd::prelude::*;

verus! {

/// Why a prepared scan is not stored.
#[derive(Clone, Copy, Debug, PartialEq, Eq, Structural)]
pub enum CommitRefusal {
    SourceChanged,
    FreshnessChanged,
    Stale,
}

impl CommitRefusal {
    /// The refusal in words.
    pub fn message(&self) -> (message: String)
        ensures
            message@ == match *self {
                CommitRefusal::SourceChanged => "Prepared scan source changed before commit."@,
                CommitRefusal::FreshnessChanged => {
                    "Prepared scan freshness changed before commit."@
                },
                CommitRefusal::Stale => "Prepared scan is stale before commit."@,
            },
    {
        match self {
            CommitRefusal::SourceChanged => {
                "Prepared scan source changed before commit.".to_owned()
            },
            CommitRefusal::FreshnessChanged => {
                "Prepared scan freshness changed before commit.".to_owned()
            },
            CommitRefusal::Stale => "Prepared scan is stale before commit.".to_owned(),
        }
    }
}

/// What is done next in a commit.
#[derive(Clone, Copy, Debug, PartialEq, Eq, Structural)]
pub enum CommitAction {
    /// What the store says of the source is loaded.
    LoadSource,
    /// The freshness of the source is looked up.
    PreviewFreshness,
    /// The start of the scan is noted.
    NoteStarted,
    /// The unreadable file at this place is kept pending.
    MarkFailure(usize),
    /// The sessions are stored.
    StoreSessions,
    RefreshTitles,
    /// Sessions whose files are gone are marked.
    MarkMissing,
    /// The stored links are held against the stored sessions.
    CheckLinks,
    RecomputeLinks,
    InsertRootLinks,
    CountMissing,
    /// The repair at this place among the swept ones is complete.
    MarkRepairComplete(usize),
    /// The completion of the scan is noted.
    NoteCompleted { full_scan_completed: bool, full_scan_invalidated: bool },
    /// The commit is counted.
    AdvanceRevision,
    /// All of it is made to last.
    Commit,
    Finish,
    /// Nothing of it is kept.
    Refuse(CommitRefusal),
}

/// What the store answers.
#[derive(Clone, Debug)]
pub enum CommitReply {
    Source { current: SourceRecord, tracked_home_moved: bool },
    Freshness { recorded: bool, full_scan_required: bool },
    /// Whether the start was recorded.
    Started(bool),
    Done,
    LinksNeedRepair(bool),
    Counted(usize),
    RowsUpdated(usize),
}

/// The commit of a prepared scan.
#[derive(Debug)]
pub struct ScanCommit {
    pub kind: ScanKind,
    /// What the store said of the source when the scan was prepared.
    pub source: SourceRecord,
    pub track_scan_freshness: bool,
    /// Whether the freshness of the source asked for a full scan.
    pub full_scan_required: bool,
    pub repairs: RepairStates,
    pub progress: ScanProgress,
    /// Whether the stored links were found wanting when the scan was prepared.
    pub links_need_repair: bool,
    /// Whether the start of the scan was recorded.
    pub start_recorded: bool,
    pub missing_sessions: usize,
    pub action: CommitAction,
}

impl ScanCommit {
    /// The action for the unreadable file at `place`, or what follows the last of them.
    pub open spec fn failure_action(self, place: usize) -> CommitAction {
        if place < self.progress@.failures.len() {
            CommitAction::MarkFailure(place)
        } else {
            CommitAction::StoreSessions
        }
    }

    /// What is done about the links.
    pub open spec fn link_action(self, links_need_repair: bool) -> CommitAction {
        match planned_commit(self.kind, self.progress@, links_need_repair).links {
            LinkAction::RecomputeAll => CommitAction::RecomputeLinks,
            LinkAction::InsertRoots => CommitAction::InsertRootLinks,
            LinkAction::Leave => CommitAction::CountMissing,
        }
    }

    /// The action for the swept repair at `place`, or what follows the last of them.
    pub open spec fn repair_action(self, place: usize) -> CommitAction {
        let plan = planned_commit(self.kind, self.progress@, self.links_need_repair);
        if place < swept_keys(self.repairs).len() {
            CommitAction::MarkRepairComplete(place)
        } else if self.start_recorded {
            CommitAction::NoteCompleted {
                full_scan_completed: plan.full_scan_completed,
                full_scan_invalidated: plan.full_scan_invalidated,
            }
        } else {
            CommitAction::AdvanceRevision
        }
    }

    /// Whether the store says the same of the source as when the scan was prepared.
    pub open spec fn source_stands(self, reply: CommitReply) -> bool {
        reply matches CommitReply::Source { current, tracked_home_moved } && same_source(
            self.source,
            current,
        ) && !tracked_home_moved
    }

    /// Whether the freshness of the source asks for what it asked for when the scan was prepared.
    pub open spec fn freshness_stands(self, reply: CommitReply) -> bool {
        reply matches CommitReply::Freshness { recorded, full_scan_required } && (recorded
            ==> full_scan_required == self.full_scan_required)
    }

    /// The commit after an answer. One that does not fit the action changes nothing.
    pub open spec fn next(self, reply: CommitReply) -> ScanCommit {
        match (self.action, reply) {
            (CommitAction::LoadSource, CommitReply::Source { .. }) => ScanCommit {
                action: if !self.source_stands(reply) {
                    CommitAction::Refuse(CommitRefusal::SourceChanged)
                } else if self.track_scan_freshness {
                    CommitAction::PreviewFreshness
                } else {
                    self.failure_action(0)
                },
                ..self
            },
            (CommitAction::PreviewFreshness, CommitReply::Freshness { .. }) => ScanCommit {
                action: if self.freshness_stands(reply) {
                    CommitAction::NoteStarted
                } else {
                    CommitAction::Refuse(CommitRefusal::FreshnessChanged)
                },
                ..self
            },
            (CommitAction::NoteStarted, CommitReply::Started(recorded)) => ScanCommit {
                start_recorded: recorded,
                action: self.failure_action(0),
                ..self
            },
            (CommitAction::MarkFailure(place), CommitReply::Done) => ScanCommit {
                action: self.failure_action(place.saturating_add(1)),
                ..self
            },
            (CommitAction::StoreSessions, CommitReply::Done) => ScanCommit {
                action: if self.kind != ScanKind::Incremental {
                    CommitAction::RefreshTitles
                } else {
                    CommitAction::MarkMissing
                },
                ..self
            },
            (CommitAction::RefreshTitles, CommitReply::Done) => ScanCommit {
                action: CommitAction::MarkMissing,
                ..self
            },
            (CommitAction::MarkMissing, CommitReply::Done) => ScanCommit {
                action: if self.kind != ScanKind::Incremental && !self.links_need_repair {
                    CommitAction::CheckLinks
                } else {
                    self.link_action(self.links_need_repair)
                },
                ..self
            },
            (CommitAction::CheckLinks, CommitReply::LinksNeedRepair(wanting)) => ScanCommit {
                action: self.link_action(wanting),
                ..self
            },
            (CommitAction::RecomputeLinks, CommitReply::Done) => ScanCommit {
                action: CommitAction::CountMissing,
                ..self
            },
            (CommitAction::InsertRootLinks, CommitReply::Done) => ScanCommit {
                action: CommitAction::CountMissing,
                ..self
            },
            (CommitAction::CountMissing, CommitReply::Counted(count)) => ScanCommit {
                missing_sessions: count,
                action: self.repair_action(0),
                ..self
            },
            (CommitAction::MarkRepairComplete(place), CommitReply::Done) => ScanCommit {
                action: self.repair_action(place.saturating_add(1)),
                ..self
            },
            (CommitAction::NoteCompleted { .. }, CommitReply::Done) => ScanCommit {
                action: CommitAction::AdvanceRevision,
                ..self
            },
            (CommitAction::AdvanceRevision, CommitReply::RowsUpdated(rows)) => ScanCommit {
                action: if rows == 1 {
                    CommitAction::Commit
                } else {
                    CommitAction::Refuse(CommitRefusal::Stale)
                },
                ..self
            },
            (CommitAction::Commit, CommitReply::Done) => ScanCommit {
                action: CommitAction::Finish,
                ..self
            },
            _ => self,
        }
    }

    /// The commit of a scan, before anything was asked.
    pub fn new(
        kind: ScanKind,
        source: SourceRecord,
        track_scan_freshness: bool,
        full_scan_required: bool,
        repairs: RepairStates,
        progress: ScanProgress,
        links_need_repair: bool,
    ) -> (commit: ScanCommit)
        ensures
            commit == (ScanCommit {
                kind,
                source,
                track_scan_freshness,
                full_scan_required,
                repairs,
                progress,
                links_need_repair,
                start_recorded: false,
                missing_sessions: 0,
                action: CommitAction::LoadSource,
            }),
    {
        ScanCommit {
            kind,
            source,
            track_scan_freshness,
            full_scan_required,
            repairs,
            progress,
            links_need_repair,
            start_recorded: false,
            missing_sessions: 0,
            action: CommitAction::LoadSource,
        }
    }

    fn failure_step(&self, place: usize) -> (action: CommitAction)
        ensures
            action == self.failure_action(place),
    {
        proof {
            assert(self.progress@.failures.len() == self.progress.parse_failures@.len());
        }
        if place < self.progress.parse_failures.len() {
            CommitAction::MarkFailure(place)
        } else {
            CommitAction::StoreSessions
        }
    }

    fn link_step(&self, links_need_repair: bool) -> (action: CommitAction)
        ensures
            action == self.link_action(links_need_repair),
    {
        match plan_commit(self.kind, &self.progress, links_need_repair).links {
            LinkAction::RecomputeAll => CommitAction::RecomputeLinks,
            LinkAction::InsertRoots => CommitAction::InsertRootLinks,
            LinkAction::Leave => CommitAction::CountMissing,
        }
    }

    fn repair_step(&self, place: usize) -> (action: CommitAction)
        ensures
            action == self.repair_action(place),
    {
        let keys = completed_repair_keys(&self.repairs);
        proof {
            assert(texts(keys@).len() == keys@.len());
        }
        if place < keys.len() {
            return CommitAction::MarkRepairComplete(place);
        }
        if !self.start_recorded {
            return CommitAction::AdvanceRevision;
        }
        let plan = plan_commit(self.kind, &self.progress, self.links_need_repair);
        CommitAction::NoteCompleted {
            full_scan_completed: plan.full_scan_completed,
            full_scan_invalidated: plan.full_scan_invalidated,
        }
    }

    /// Takes in an answer.
    pub fn advance(&mut self, reply: CommitReply)
        ensures
            *final(self) == old(self).next(reply),
    {
        let action = match (self.action, reply) {
            (CommitAction::LoadSource, CommitReply::Source { current, tracked_home_moved }) => {
                if validate_prepared_source_identity(
                    &self.source,
                    &current,
                    tracked_home_moved,
                ).is_err() {
                    CommitAction::Refuse(CommitRefusal::SourceChanged)
                } else if self.track_scan_freshness {
                    CommitAction::PreviewFreshness
                } else {
                    self.failure_step(0)
                }
            },
            (
                CommitAction::PreviewFreshness,
                CommitReply::Freshness { recorded, full_scan_required },
            ) => {
                if check_scan_freshness(
                    recorded,
                    full_scan_required,
                    self.full_scan_required,
                ).is_ok() {
                    CommitAction::NoteStarted
                } else {
                    CommitAction::Refuse(CommitRefusal::FreshnessChanged)
                }
            },
            (CommitAction::NoteStarted, CommitReply::Started(recorded)) => {
                self.start_recorded = recorded;
                self.failure_step(0)
            },
            (CommitAction::MarkFailure(place), CommitReply::Done) => self.failure_step(
                place.saturating_add(1),
            ),
            (CommitAction::StoreSessions, CommitReply::Done) => {
                if self.kind != ScanKind::Incremental {
                    CommitAction::RefreshTitles
                } else {
                    CommitAction::MarkMissing
                }
            },
            (CommitAction::RefreshTitles, CommitReply::Done) => CommitAction::MarkMissing,
            (CommitAction::MarkMissing, CommitReply::Done) => {
                if self.kind != ScanKind::Incremental && !self.links_need_repair {
                    CommitAction::CheckLinks
                } else {
                    self.link_step(self.links_need_repair)
                }
            },
            (CommitAction::CheckLinks, CommitReply::LinksNeedRepair(wanting)) => self.link_step(
                wanting,
            ),
            (CommitAction::RecomputeLinks, CommitReply::Done) => CommitAction::CountMissing,
            (CommitAction::InsertRootLinks, CommitReply::Done) => CommitAction::CountMissing,
            (CommitAction::CountMissing, CommitReply::Counted(count)) => {
                self.missing_sessions = count;
                self.repair_step(0)
            },
            (CommitAction::MarkRepairComplete(place), CommitReply::Done) => self.repair_step(
                place.saturating_add(1),
            ),
            (CommitAction::NoteCompleted { .. }, CommitReply::Done) => {
                CommitAction::AdvanceRevision
            },
            (CommitAction::AdvanceRevision, CommitReply::RowsUpdated(rows)) => {
                if check_scan_revision(rows).is_ok() {
                    CommitAction::Commit
                } else {
                    CommitAction::Refuse(CommitRefusal::Stale)
                }
            },
            (CommitAction::Commit, CommitReply::Done) => CommitAction::Finish,
            (action, _) => action,
        };
        self.action = action;
    }

    /// The result of the scan.
    pub fn result(&self, codex_home: String, scanned_files: usize, completed_at: String) -> (result:
        ScanResult)
        ensures
            result.codex_home == codex_home,
            result.scanned_files == scanned_files,
            result.imported_sessions == self.progress@.imported_session_ids.len(),
            result.updated_sessions == self.progress@.updated_sessions,
            result.missing_sessions == self.missing_sessions,
            result.scan_kind@ == kind_name(self.kind),
            result.source_bytes_read == self.progress@.source_bytes_read,
            result.tail_parsed_files == self.progress@.tail_parsed_files,
            result.fully_parsed_files == self.progress@.fully_parsed_files,
            result.last_completed_at == completed_at,
    {
        scan_result(
            codex_home,
            self.kind,
            scanned_files,
            &self.progress,
            self.missing_sessions,
            completed_at,
        )
    }
}

impl CommitAction {
    /// Whether a reply answers the action.
    pub open spec fn is_answered_by(self, reply: CommitReply) -> bool {
        match self {
            CommitAction::LoadSource => reply is Source,
            CommitAction::PreviewFreshness => reply is Freshness,
            CommitAction::NoteStarted => reply is Started,
            CommitAction::CheckLinks => reply is LinksNeedRepair,
            CommitAction::CountMissing => reply is Counted,
            CommitAction::AdvanceRevision => reply is RowsUpdated,
            CommitAction::Finish => false,
            CommitAction::Refuse(_) => false,
            _ => reply is Done,
        }
    }
}

impl ScanCommit {
    /// The commit after these answers, in their order.
    pub open spec fn run(self, replies: Seq<CommitReply>) -> ScanCommit
        decreases replies.len(),
    {
        if replies.len() == 0 {
            self
        } else {
            self.run(replies.drop_last()).next(replies.last())
        }
    }

    /// Whether each answer is one to the action that it meets.
    pub open spec fn is_answered(self, replies: Seq<CommitReply>) -> bool
        decreases replies.len(),
    {
        replies.len() > 0 ==> self.is_answered(replies.drop_last()) && self.run(
            replies.drop_last(),
        ).action.is_answered_by(replies.last())
    }

    /// Whether the place in an action is one of its list.
    pub open spec fn is_in_range(self) -> bool {
        match self.action {
            CommitAction::MarkFailure(place) => place < self.progress@.failures.len(),
            CommitAction::MarkRepairComplete(place) => place < swept_keys(self.repairs).len(),
            _ => true,
        }
    }

    /// How many answers are left at most.
    pub open spec fn answers_left(self) -> int {
        let failures = self.progress@.failures.len() as int;
        let repairs = swept_keys(self.repairs).len() as int;
        match self.action {
            CommitAction::LoadSource => 14 + failures + repairs,
            CommitAction::PreviewFreshness => 13 + failures + repairs,
            CommitAction::NoteStarted => 12 + failures + repairs,
            CommitAction::MarkFailure(place) => 11 + failures - place + repairs,
            CommitAction::StoreSessions => 11 + repairs,
            CommitAction::RefreshTitles => 10 + repairs,
            CommitAction::MarkMissing => 9 + repairs,
            CommitAction::CheckLinks => 8 + repairs,
            CommitAction::RecomputeLinks => 7 + repairs,
            CommitAction::InsertRootLinks => 7 + repairs,
            CommitAction::CountMissing => 6 + repairs,
            CommitAction::MarkRepairComplete(place) => 5 + repairs - place,
            CommitAction::NoteCompleted { .. } => 3,
            CommitAction::AdvanceRevision => 2,
            CommitAction::Commit => 1,
            CommitAction::Finish => 0,
            CommitAction::Refuse(_) => 0,
        }
    }
}

/// Every commit comes to its end: each answer leaves fewer to come.
pub proof fn every_answer_leads_on(commit: ScanCommit, reply: CommitReply)
    requires
        commit.is_in_range(),
        commit.action.is_answered_by(reply),
    ensures
        commit.next(reply).is_in_range(),
        0 <= commit.next(reply).answers_left() < commit.answers_left(),
{
    let failures = commit.progress@.failures.len();
    let repairs = swept_keys(commit.repairs).len();
    let next = commit.next(reply);
    assert(commit.progress.parse_failures.len() == failures);
    assert(repairs <= 3);
    assert(next.progress == commit.progress && next.repairs == commit.repairs);
    match commit.action {
        CommitAction::MarkFailure(place) => {
            assert(next.action == commit.failure_action((place + 1) as usize));
        },
        CommitAction::MarkRepairComplete(place) => {
            assert(next.action == commit.repair_action((place + 1) as usize));
        },
        _ => {},
    }
}

/// What a commit is about stays the same.
proof fn commit_keeps_its_scan(start: ScanCommit, replies: Seq<CommitReply>)
    ensures
        ({
            let commit = start.run(replies);
            commit.kind == start.kind && commit.source == start.source
                && commit.track_scan_freshness == start.track_scan_freshness
                && commit.full_scan_required == start.full_scan_required && commit.repairs
                == start.repairs && commit.progress == start.progress && commit.links_need_repair
                == start.links_need_repair
        }),
    decreases replies.len(),
{
    if replies.len() > 0 {
        commit_keeps_its_scan(start, replies.drop_last());
    }
}

/// What has been checked on the way to an action.
proof fn checks_precede_actions(start: ScanCommit, replies: Seq<CommitReply>)
    requires
        start.action == CommitAction::LoadSource,
        start.is_answered(replies),
    ensures
        ({
            let action = start.run(replies).action;
            &&& action is LoadSource ==> replies.len() == 0
            &&& action is PreviewFreshness ==> replies.len() == 1
            &&& !(action is LoadSource || action is Refuse) ==> replies.len() > 0
                && start.source_stands(replies[0])
            &&& start.track_scan_freshness && !(action is LoadSource || action is PreviewFreshness
                || action is Refuse) ==> replies.len() > 1 && start.freshness_stands(replies[1])
        }),
    decreases replies.len(),
{
    if replies.len() > 0 {
        checks_precede_actions(start, replies.drop_last());
        commit_keeps_its_scan(start, replies.drop_last());
    }
}

/// A scan is made to last only after its checks: the store says the same of the source as when
/// the scan was prepared, the freshness of the source asks for the same where it is tracked, and
/// exactly one row had the revision that the scan was prepared for.
pub proof fn commit_follows_its_checks(start: ScanCommit, replies: Seq<CommitReply>)
    requires
        start.action == CommitAction::LoadSource,
        start.is_answered(replies),
        start.run(replies).action == CommitAction::Commit,
    ensures
        start.source_stands(replies[0]),
        start.track_scan_freshness ==> start.freshness_stands(replies[1]),
        replies.last() == CommitReply::RowsUpdated(1),
{
    checks_precede_actions(start, replies);
    let before = start.run(replies.drop_last());
    assert(before.action.is_answered_by(replies.last()));
}

/// A scan whose source changed is refused before anything is written.
pub proof fn changed_source_is_refused(start: ScanCommit, reply: CommitReply)
    requires
        start.action == CommitAction::LoadSource,
        reply is Source,
        !start.source_stands(reply),
    ensures
        start.next(reply).action == CommitAction::Refuse(CommitRefusal::SourceChanged),
{
}

/// A refused scan stays refused, and a finished one stays finished: what was given up is never
/// made to last, and what was made to last is never given up.
pub proof fn outcome_stands(commit: ScanCommit, replies: Seq<CommitReply>)
    requires
        commit.action is Refuse || commit.action is Finish,
    ensures
        commit.run(replies) == commit,
    decreases replies.len(),
{
    if replies.len() > 0 {
        outcome_stands(commit, replies.drop_last());
    }
}

} // verus!
