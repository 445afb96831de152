//! Sessions that are ready to be stored.

use crate::estimates::{
    capped, capped_product, capped_sum, draw_opt, draw_text, estimated_samples_bytes,
    estimated_string_vec_bytes, estimated_usage_snapshots_bytes, is_estimate, reserves_texts,
    samples_texts, snapshots_texts, sum_is_not_negative, sum_of, value_texts,
};
use crate::import_state::{
    ImportState, ImportStateView, ParserCheckpoint, ParserCheckpointView, SessionFile,
    SessionFileView,
};
use crate::models::{snapshot_views, UsageSnapshot, UsageSnapshotView};
use crate::repairs::SessionRepairs;
use crate::replay::{replay_cutoff, replayed_child_snapshot_cutoff};
use crate::replay_cache::ParentReplayCache;
use crate::session_log::{ParsedSession, ParsedSessionView};
use crate::text::{blank, is_blank, opt_text};
use crate::text_map::TextMap;
use crate::usage::ParsedSessionMode;
use vstd::layout::size_of as layout_size;
use vstd::prelude::*;

verus! {

/// A file whose session is ready to be stored.
#[derive(Clone, Debug)]
pub struct PreparedSessionFile {
    pub source_path: String,
    pub bucket: String,
    pub file_size: i64,
    pub file_mtime_ms: i64,
}

impl PreparedSessionFile {
    /// Whether this is what is stored of a file.
    pub open spec fn is_of(&self, file: SessionFileView) -> bool {
        self.source_path@ == file.source_path && self.bucket@ == file.bucket && self.file_size
            == file.file_size && self.file_mtime_ms == file.file_mtime_ms
    }

    /// What is stored of a file.
    pub fn new(file: &SessionFile) -> (prepared: PreparedSessionFile)
        ensures
            prepared.is_of(file@),
    {
        PreparedSessionFile {
            source_path: file.source_path.clone(),
            bucket: file.bucket.clone(),
            file_size: file.file_size,
            file_mtime_ms: file.file_mtime_ms,
        }
    }
}

/// A session that is ready to be stored.
#[derive(Clone, Debug)]
pub struct PreparedSession {
    pub session_file: PreparedSessionFile,
    pub parsed: ParsedSession,
    pub repairs: SessionRepairs,
}

/// What is remembered of a file once its session, read up to this checkpoint, is stored.
pub fn imported_state(
    file: PreparedSessionFile,
    session_id: String,
    checkpoint: ParserCheckpoint,
) -> (state: ImportState)
    ensures
        state@ == remembered(file, session_id@, checkpoint@),
{
    ImportState {
        source_path: file.source_path,
        session_id: Some(session_id),
        source_bucket: file.bucket,
        file_size: file.file_size,
        file_mtime_ms: file.file_mtime_ms,
        parser_checkpoint: Some(checkpoint),
    }
}

/// What is remembered of a file once its session, read up to this checkpoint, is stored.
pub open spec fn remembered(
    file: PreparedSessionFile,
    session_id: Seq<char>,
    checkpoint: ParserCheckpointView,
) -> ImportStateView {
    ImportStateView {
        source_path: file.source_path@,
        session_id: Some(session_id),
        source_bucket: file.bucket@,
        file_size: file.file_size,
        file_mtime_ms: file.file_mtime_ms,
        parser_checkpoint: Some(checkpoint),
    }
}

/// What a session takes up whose description has reserved these bytes, and whose lists take up
/// these.
pub fn session_estimate(described: &Vec<usize>, lists: &Vec<usize>) -> (bytes: usize)
    ensures
        bytes == capped(
            layout_size::<PreparedSession>() + sum_of(described@) + sum_of(lists@),
        ),
{
    proof {
        sum_is_not_negative(described@);
        sum_is_not_negative(lists@);
    }
    capped_sum(capped_sum(core::mem::size_of::<PreparedSession>(), described), lists)
}

impl PreparedSession {
    /// What is remembered of the session's file once the session is stored.
    pub open spec fn stored_state(&self) -> ImportStateView {
        remembered(
            self.session_file,
            self.parsed.raw_session.session_id@,
            self.parsed.checkpoint@,
        )
    }

    /// The texts of the session's description.
    pub open spec fn described_texts(&self) -> Seq<Option<String>> {
        let raw = self.parsed.raw_session;
        seq![
            Some(self.session_file.source_path),
            Some(self.session_file.bucket),
            Some(raw.session_id),
            raw.parent_session_id,
            Some(raw.root_session_id),
            raw.title,
            Some(raw.source_state),
            raw.source_path,
            raw.started_at,
            raw.updated_at,
            raw.agent_nickname,
            raw.agent_role,
            self.parsed.explicit_forked_from_id,
            self.parsed.latest_plan_type,
            self.parsed.last_model_id,
        ]
    }

    /// Whether the description was found to have reserved these bytes, and the lists to take up
    /// these: the models, the snapshots, the samples, and the two lists of pending files.
    pub open spec fn reserves(&self, described: Seq<usize>, lists: Seq<usize>) -> bool {
        let models = self.parsed.raw_session.model_ids@;
        let snapshots = self.parsed.snapshots@;
        let samples = self.parsed.rate_limit_samples@;
        let token_paths = self.repairs.related_pending_token_v2_paths@;
        let replay_paths = self.repairs.related_pending_fork_replay_v3_paths@;
        &&& reserves_texts(self.described_texts(), described)
        &&& lists.len() == 5
        &&& is_estimate(models, value_texts(models), lists[0])
        &&& is_estimate(
            snapshots,
            snapshots_texts(snapshots, snapshots.len() as int),
            lists[1],
        )
        &&& is_estimate(samples, samples_texts(samples, samples.len() as int), lists[2])
        &&& is_estimate(token_paths, value_texts(token_paths), lists[3])
        &&& is_estimate(replay_paths, value_texts(replay_paths), lists[4])
    }

    /// What the texts of the description have reserved.
    fn draw_description(&self) -> (described: Vec<usize>)
        ensures
            reserves_texts(self.described_texts(), described@),
    {
        let raw = &self.parsed.raw_session;
        let ghost own = self.described_texts();
        let mut described: Vec<usize> = Vec::new();
        proof {
            assert(own.take(0) =~= Seq::empty());
            assert forall|place: int| 0 <= place < own.len() implies #[trigger] own.take(place + 1)
                == own.take(place).push(own[place]) by {
                assert(own.take(place + 1) =~= own.take(place).push(own[place]));
            }
            assert(own.take(15) =~= own);
        }
        draw_text(&mut described, &self.session_file.source_path, Ghost(own.take(0)));
        draw_text(&mut described, &self.session_file.bucket, Ghost(own.take(1)));
        draw_text(&mut described, &raw.session_id, Ghost(own.take(2)));
        draw_opt(&mut described, &raw.parent_session_id, Ghost(own.take(3)));
        draw_text(&mut described, &raw.root_session_id, Ghost(own.take(4)));
        draw_opt(&mut described, &raw.title, Ghost(own.take(5)));
        draw_text(&mut described, &raw.source_state, Ghost(own.take(6)));
        draw_opt(&mut described, &raw.source_path, Ghost(own.take(7)));
        draw_opt(&mut described, &raw.started_at, Ghost(own.take(8)));
        draw_opt(&mut described, &raw.updated_at, Ghost(own.take(9)));
        draw_opt(&mut described, &raw.agent_nickname, Ghost(own.take(10)));
        draw_opt(&mut described, &raw.agent_role, Ghost(own.take(11)));
        draw_opt(&mut described, &self.parsed.explicit_forked_from_id, Ghost(own.take(12)));
        draw_opt(&mut described, &self.parsed.latest_plan_type, Ghost(own.take(13)));
        draw_opt(&mut described, &self.parsed.last_model_id, Ghost(own.take(14)));
        described
    }

    /// What the session takes up while it waits to be stored: what its description has reserved,
    /// and what its lists take up.
    pub fn estimated_bytes(&self) -> (bytes: usize)
        ensures
            exists|described: Seq<usize>, lists: Seq<usize>|
                #[trigger] self.reserves(described, lists) && bytes == capped(
                    layout_size::<PreparedSession>() + sum_of(described) + sum_of(lists),
                ),
    {
        let described = self.draw_description();
        let mut lists: Vec<usize> = Vec::new();
        lists.push(estimated_string_vec_bytes(&self.parsed.raw_session.model_ids));
        lists.push(estimated_usage_snapshots_bytes(&self.parsed.snapshots));
        lists.push(estimated_samples_bytes(&self.parsed.rate_limit_samples));
        lists.push(estimated_string_vec_bytes(&self.repairs.related_pending_token_v2_paths));
        lists.push(estimated_string_vec_bytes(&self.repairs.related_pending_fork_replay_v3_paths));
        proof {
            assert(self.reserves(described@, lists@));
        }
        session_estimate(&described, &lists)
    }
}

/// How many bytes prepared sessions may take up in memory.
pub const PREPARED_SPOOL_THRESHOLD_BYTES: usize = 262_144;

/// Where the next prepared session goes.
#[derive(Clone, Copy, Debug, PartialEq, Eq, Structural)]
pub enum StorageStep {
    /// It stays in memory.
    KeepInMemory,
    /// It and all that waits in memory go to a file.
    MoveAllToSpool,
    /// It goes to the file to which the others went.
    AppendToSpool,
}

/// How much of the prepared sessions is in memory, or how many have gone to a file.
#[derive(Clone, Copy, Debug, PartialEq, Eq, Structural)]
pub enum StorageBudget {
    Memory { entries: usize, estimated_bytes: usize },
    Spool { records: usize },
}

impl StorageBudget {
    /// What all sessions in memory take up with one more, where the list of them had `spare_before`
    /// bytes to spare and has `spare_after` now.
    pub open spec fn next_bytes(
        estimated_bytes: usize,
        spare_before: usize,
        entry_bytes: usize,
        spare_after: usize,
    ) -> int {
        capped(estimated_bytes.saturating_sub(spare_before) + entry_bytes + spare_after)
    }

    /// Where the next session goes: the first always fits into memory, the others while all
    /// together stay below the threshold; once some went to a file, all do.
    pub open spec fn step(
        self,
        spare_before: usize,
        entry_bytes: usize,
        spare_after: usize,
    ) -> StorageStep {
        match self {
            StorageBudget::Memory { entries, estimated_bytes } => {
                let next_bytes = StorageBudget::next_bytes(
                    estimated_bytes,
                    spare_before,
                    entry_bytes,
                    spare_after,
                );
                if entries == 0 || next_bytes <= PREPARED_SPOOL_THRESHOLD_BYTES {
                    StorageStep::KeepInMemory
                } else {
                    StorageStep::MoveAllToSpool
                }
            },
            StorageBudget::Spool { .. } => StorageStep::AppendToSpool,
        }
    }

    /// The budget with one more session.
    pub open spec fn after(
        self,
        spare_before: usize,
        entry_bytes: usize,
        spare_after: usize,
    ) -> StorageBudget {
        match self {
            StorageBudget::Memory { entries, estimated_bytes } => {
                if self.step(spare_before, entry_bytes, spare_after) == StorageStep::KeepInMemory {
                    StorageBudget::Memory {
                        entries: (entries + 1) as usize,
                        estimated_bytes: StorageBudget::next_bytes(
                            estimated_bytes,
                            spare_before,
                            entry_bytes,
                            spare_after,
                        ) as usize,
                    }
                } else {
                    StorageBudget::Spool { records: (entries + 1) as usize }
                }
            },
            StorageBudget::Spool { records } => StorageBudget::Spool {
                records: (records + 1) as usize,
            },
        }
    }

    /// How many sessions there are, wherever they are.
    pub open spec fn count(self) -> int {
        match self {
            StorageBudget::Memory { entries, .. } => entries as int,
            StorageBudget::Spool { records } => records as int,
        }
    }

    /// The budget of no sessions.
    pub fn new() -> (budget: StorageBudget)
        ensures
            budget == (StorageBudget::Memory { entries: 0, estimated_bytes: 0 }),
    {
        StorageBudget::Memory { entries: 0, estimated_bytes: 0 }
    }

    /// Takes in one more session, and says where it goes.
    pub fn take_in(
        &mut self,
        spare_before: usize,
        entry_bytes: usize,
        spare_after: usize,
    ) -> (step: StorageStep)
        requires
            old(self).count() < usize::MAX,
        ensures
            step == old(self).step(spare_before, entry_bytes, spare_after),
            *final(self) == old(self).after(spare_before, entry_bytes, spare_after),
            final(self).count() == old(self).count() + 1,
    {
        match *self {
            StorageBudget::Memory { entries, estimated_bytes } => {
                let next_bytes = estimated_bytes.saturating_sub(spare_before).saturating_add(
                    entry_bytes,
                ).saturating_add(spare_after);
                if entries == 0 || next_bytes <= PREPARED_SPOOL_THRESHOLD_BYTES {
                    *self = StorageBudget::Memory {
                        entries: entries + 1,
                        estimated_bytes: next_bytes,
                    };
                    StorageStep::KeepInMemory
                } else {
                    *self = StorageBudget::Spool { records: entries + 1 };
                    StorageStep::MoveAllToSpool
                }
            },
            StorageBudget::Spool { records } => {
                *self = StorageBudget::Spool { records: records + 1 };
                StorageStep::AppendToSpool
            },
        }
    }
}

/// What a list of prepared sessions with `places` places takes up beyond the `filled` ones.
pub fn spare_bytes(places: usize, filled: usize) -> (bytes: usize)
    ensures
        bytes == capped(places.saturating_sub(filled) * layout_size::<PreparedSession>()),
{
    capped_product(places.saturating_sub(filled), core::mem::size_of::<PreparedSession>())
}

/// The session from which a session says it forked off, unless that is blank.
pub open spec fn fork_parent(parsed: ParsedSessionView) -> Option<Seq<char>> {
    match parsed.explicit_forked_from_id {
        Some(parent) if !blank(parent) => Some(parent),
        _ => None,
    }
}

fn find_fork_parent(parsed: &ParsedSession) -> (parent: Option<String>)
    ensures
        opt_text(parent) == fork_parent(parsed@),
{
    match &parsed.explicit_forked_from_id {
        Some(parent) => if is_blank(parent.as_str()) {
            None
        } else {
            Some(parent.clone())
        },
        None => None,
    }
}

/// The parent whose log must still be located before a session's copied readings can be found:
/// that of a fork that was read in full, if its place is not known yet.
pub fn replay_parent_to_locate(
    parsed: &ParsedSession,
    session_source_paths: &TextMap<String>,
) -> (parent: Option<String>)
    ensures
        opt_text(parent) == match fork_parent(parsed@) {
            Some(id) if parsed.mode == ParsedSessionMode::Full
                && !session_source_paths@.dom().contains(id) => Some(id),
            _ => None,
        },
{
    match parsed.mode {
        ParsedSessionMode::Full => {},
        _ => {
            return None;
        },
    }
    match find_fork_parent(parsed) {
        Some(parent) => if session_source_paths.holds(parent.as_str()) {
            None
        } else {
            Some(parent)
        },
        None => None,
    }
}

/// How the copied readings of a session are found.
#[derive(Clone, Debug)]
pub enum ReplayLookup {
    /// There are none: the session is no fork, or does not say when it forked off.
    NotForked,
    /// They were found, or the parent is known to have no log to be had.
    Settled { parent_unavailable: bool },
    /// The log of this parent must be read.
    ReadParent(String),
}

/// A session with the readings marked that it copied from a parent with these readings.
pub open spec fn with_copied_readings(
    parsed: ParsedSessionView,
    parent: Seq<UsageSnapshotView>,
) -> ParsedSessionView {
    ParsedSessionView {
        inherited_token_snapshot_cutoff: replay_cutoff(
            parent,
            parsed.snapshots,
            parsed.explicit_fork_timestamp,
        ) as usize,
        ..parsed
    }
}

/// Marks the readings that a session copied from its parent. Without the parent's readings the
/// session stays as it is, and the parent counts as unavailable.
pub fn mark_copied_readings(
    parsed: &mut ParsedSession,
    parent_snapshots: Option<&Vec<UsageSnapshot>>,
) -> (parent_unavailable: bool)
    ensures
        parent_unavailable == (parent_snapshots is None),
        match parent_snapshots {
            Some(parent) => final(parsed)@ == with_copied_readings(
                old(parsed)@,
                snapshot_views(parent@),
            ),
            None => final(parsed)@ == old(parsed)@,
        },
        final(parsed).rate_limit_samples == old(parsed).rate_limit_samples,
{
    match parent_snapshots {
        Some(parent) => {
            let cutoff = replayed_child_snapshot_cutoff(
                parent,
                &parsed.snapshots,
                parsed.explicit_fork_timestamp,
            );
            parsed.inherited_token_snapshot_cutoff = cutoff;
            false
        },
        None => true,
    }
}

/// Finds the readings that a session copied, as far as the cache knows its parent.
pub fn look_up_copied_readings(
    parsed: &mut ParsedSession,
    cache: &ParentReplayCache,
) -> (lookup: ReplayLookup)
    ensures
        match (fork_parent(old(parsed)@), old(parsed).explicit_fork_timestamp) {
            (Some(parent), Some(_)) => if cache@.entries.dom().contains(parent) {
                match cache@.entries[parent].snapshots {
                    Some(snapshots) => lookup == (ReplayLookup::Settled {
                        parent_unavailable: false,
                    }) && final(parsed)@ == with_copied_readings(
                        old(parsed)@,
                        snapshot_views(snapshots@),
                    ),
                    None => lookup == (ReplayLookup::Settled { parent_unavailable: true })
                        && final(parsed)@ == old(parsed)@,
                }
            } else {
                lookup matches ReplayLookup::ReadParent(wanted) && wanted@ == parent
                    && final(parsed)@ == old(parsed)@
            },
            _ => lookup == ReplayLookup::NotForked && final(parsed)@ == old(parsed)@,
        },
        final(parsed).rate_limit_samples == old(parsed).rate_limit_samples,
{
    let parent = match find_fork_parent(parsed) {
        Some(parent) => parent,
        None => {
            return ReplayLookup::NotForked;
        },
    };
    if parsed.explicit_fork_timestamp.is_none() {
        return ReplayLookup::NotForked;
    }
    match cache.get(parent.as_str()) {
        Some(Some(snapshots)) => {
            mark_copied_readings(parsed, Some(snapshots));
            ReplayLookup::Settled { parent_unavailable: false }
        },
        Some(None) => ReplayLookup::Settled { parent_unavailable: true },
        None => ReplayLookup::ReadParent(parent),
    }
}

} // verus!
