//! What holds of the cache of parents: it saves readings and changes nothing.

use crate::file_import::{content_of, FileReply, FileStage, ScanStateView, SessionContent};
use crate::import_state::SessionFileView;
use crate::models::{snapshot_views, UsageSnapshot, UsageSnapshotView};
use crate::replay::{copied_part_ends_at_high_water, replay_cutoff};
use crate::replay_cache::{
    keeps_parent, ParentReplayCacheEntry, ReplayCacheView, PARENT_REPLAY_CACHE_MAX_BYTES,
};
use vstd::prelude::*;

verus! {

/// What reading the log of a parent gives: its readings, or none where it is not to be had.
pub type ParentReadings = spec_fn(Seq<char>) -> Option<Seq<UsageSnapshotView>>;

/// What optional readings hold.
pub open spec fn opt_readings(snapshots: Option<Vec<UsageSnapshot>>) -> Option<
    Seq<UsageSnapshotView>,
> {
    match snapshots {
        Some(readings) => Some(snapshot_views(readings@)),
        None => None,
    }
}

/// Whether each entry of a cache holds what reading its parent gives.
pub open spec fn is_true_cache(cache: ReplayCacheView, read: ParentReadings) -> bool {
    forall|parent: Seq<char>| #[trigger]
        cache.entries.dom().contains(parent) ==> opt_readings(cache.entries[parent].snapshots)
            == read(parent)
}

/// Whether a reply says what reading the parent gives, where it is asked for that.
pub open spec fn is_true_reply(stage: FileStage, reply: FileReply, read: ParentReadings) -> bool {
    match (stage, reply) {
        (
            FileStage::ReadParent { parent_id, .. },
            FileReply::ParentRead { snapshots, .. },
        ) => opt_readings(snapshots) == read(parent_id@),
        _ => true,
    }
}

/// The readings of the parent that a session may have copied from, where it is a fork that was
/// read in full and says when it forked off; none where they are not to be had.
pub open spec fn parent_readings(content: SessionContent, read: ParentReadings) -> Option<
    Option<Seq<UsageSnapshotView>>,
> {
    match (content.full_fork_parent(), content.session.explicit_fork_timestamp) {
        (Some(parent), Some(_)) => Some(read(parent)),
        _ => None,
    }
}

/// A session with the readings marked that it copied from its parent, by what reading the parent
/// gives.
pub open spec fn with_parent_read(content: SessionContent, read: ParentReadings) -> SessionContent {
    match parent_readings(content, read) {
        Some(Some(readings)) => content.with_copied(readings),
        _ => content,
    }
}

/// Whether the parent of a session is not to be had.
pub open spec fn lacks_parent(content: SessionContent, read: ParentReadings) -> bool {
    parent_readings(content, read) == Some(None::<Seq<UsageSnapshotView>>)
}

/// Whether a stage is one of the session that says `content`: as it was read, and from the time
/// that its copied readings are marked, with those that reading its parent gives.
pub open spec fn is_stage_of(
    stage: FileStage,
    content: SessionContent,
    read: ParentReadings,
) -> bool {
    match stage {
        FileStage::LocateParent { parsed, .. } => content_of(parsed) == content,
        FileStage::ReadParent { parsed, parent_id, .. } => content_of(parsed) == content
            && content.full_fork_parent() == Some(parent_id@)
            && content.session.explicit_fork_timestamp is Some,
        FileStage::LoadRelation { parsed, parent_unavailable } => content_of(parsed)
            == with_parent_read(content, read) && parent_unavailable == lacks_parent(
            content,
            read,
        ),
        FileStage::Store(prepared) => content_of(prepared.parsed) == with_parent_read(
            content,
            read,
        ) && prepared.repairs.replay_parent_unavailable == lacks_parent(content, read),
        _ => true,
    }
}

/// Whether a reply that brings a session brings the one that says `content`.
pub open spec fn brings(reply: FileReply, content: SessionContent) -> bool {
    match reply {
        FileReply::Read { parsed, .. } => content_of(parsed) == content,
        _ => true,
    }
}

proof fn making_room_keeps_entries(cache: ReplayCacheView, bytes: usize, parent: Seq<char>)
    requires
        cache.with_room_for(bytes).entries.dom().contains(parent),
    ensures
        cache.entries.dom().contains(parent),
        cache.with_room_for(bytes).entries[parent] == cache.entries[parent],
    decreases cache.order.len(),
{
    if cache.is_full_for(bytes) && cache.order.len() > 0 {
        making_room_keeps_entries(cache.without_oldest(), bytes, parent);
    }
}

proof fn true_entry_keeps_cache_true(
    cache: ReplayCacheView,
    parent: Seq<char>,
    entry: ParentReplayCacheEntry,
    read: ParentReadings,
)
    requires
        is_true_cache(cache, read),
        opt_readings(entry.snapshots) == read(parent),
    ensures
        is_true_cache(cache.with_entry(parent, entry), read),
{
    let next = cache.with_entry(parent, entry);
    if entry.estimated_bytes <= PARENT_REPLAY_CACHE_MAX_BYTES {
        assert forall|other: Seq<char>| #[trigger] next.entries.dom().contains(other) implies
            opt_readings(next.entries[other].snapshots) == read(other) by {
            if other != parent {
                making_room_keeps_entries(cache, entry.estimated_bytes, other);
            }
        }
    }
}

/// The cache is transparent, step by step: where each of its entries holds what reading its
/// parent gives, each step of a scan keeps that, and a session that is settled has its copied
/// readings marked by what reading its parent gives, whether the parent was in the cache or was
/// read again.
pub proof fn cache_step_is_transparent(
    scan: ScanStateView,
    file: SessionFileView,
    stage: FileStage,
    reply: FileReply,
    after: ScanStateView,
    next: FileStage,
    content: SessionContent,
    read: ParentReadings,
)
    requires
        is_true_cache(scan.cache, read),
        stage.is_answered_by(reply),
        scan.leads(file, stage, reply, after, next),
        is_true_reply(stage, reply, read),
        brings(reply, content),
        is_stage_of(stage, content, read),
    ensures
        is_true_cache(after.cache, read),
        is_stage_of(next, content, read),
{
    if let FileStage::ReadParent { parsed, parent_id, .. } = stage {
        if let FileReply::ParentRead { snapshots, bytes_read } = reply {
            let marked = match snapshots {
                Some(readings) => content_of(parsed).with_copied(snapshot_views(readings@)),
                None => content_of(parsed),
            };
            let entry = choose|entry: ParentReplayCacheEntry|
                #[trigger] keeps_parent(entry, parent_id@, snapshots) && scan.with_parent(
                    parent_id@,
                    entry,
                    bytes_read,
                ).relates(file, marked, snapshots is None, after, next);
            true_entry_keeps_cache_true(scan.cache, parent_id@, entry, read);
        }
    }
}

/// Whether a file comes to an end, with at most these replies, from a stage on, where the replies
/// bring the session that says `content` and what reading its parent gives.
pub open spec fn finishes_as(
    scan: ScanStateView,
    file: SessionFileView,
    stage: FileStage,
    after: ScanStateView,
    end: FileStage,
    replies: nat,
    content: SessionContent,
    read: ParentReadings,
) -> bool
    decreases replies,
{
    if stage is Store || stage is Skip {
        after == scan && end == stage
    } else {
        replies > 0 && exists|reply: FileReply, between: ScanStateView, next: FileStage|
            stage.is_answered_by(reply) && is_true_reply(stage, reply, read) && brings(
                reply,
                content,
            ) && #[trigger] scan.leads(file, stage, reply, between, next) && finishes_as(
                between,
                file,
                next,
                after,
                end,
                (replies - 1) as nat,
                content,
                read,
            )
    }
}

proof fn finished_session_has_its_parent_read(
    scan: ScanStateView,
    file: SessionFileView,
    stage: FileStage,
    after: ScanStateView,
    end: FileStage,
    replies: nat,
    content: SessionContent,
    read: ParentReadings,
)
    requires
        is_true_cache(scan.cache, read),
        is_stage_of(stage, content, read),
        finishes_as(scan, file, stage, after, end, replies, content, read),
    ensures
        is_true_cache(after.cache, read),
        is_stage_of(end, content, read),
    decreases replies,
{
    if !(stage is Store || stage is Skip) {
        let (reply, between, next) = choose|
            reply: FileReply,
            between: ScanStateView,
            next: FileStage,
        |
            stage.is_answered_by(reply) && is_true_reply(stage, reply, read) && brings(
                reply,
                content,
            ) && #[trigger] scan.leads(file, stage, reply, between, next) && finishes_as(
                between,
                file,
                next,
                after,
                end,
                (replies - 1) as nat,
                content,
                read,
            );
        cache_step_is_transparent(scan, file, stage, reply, between, next, content, read);
        finished_session_has_its_parent_read(
            between,
            file,
            next,
            after,
            end,
            (replies - 1) as nat,
            content,
            read,
        );
    }
}

/// The cache is transparent: whatever it holds, and whatever left it, the session of a file is
/// stored with its copied readings marked by what reading its parent gives. For a fork that was
/// read in full, and that says when it forked off, the marked part ends at the cutoff that those
/// readings give, and where they are not to be had nothing is marked and the parent counts as
/// unavailable. The cache holds what reading gives afterwards too.
pub proof fn cache_is_transparent(
    scan: ScanStateView,
    file: SessionFileView,
    after: ScanStateView,
    end: FileStage,
    replies: nat,
    content: SessionContent,
    read: ParentReadings,
)
    requires
        is_true_cache(scan.cache, read),
        finishes_as(scan, file, scan.start_of(file), after, end, replies, content, read),
    ensures
        is_true_cache(after.cache, read),
        end matches FileStage::Store(prepared) ==> {
            let stored = prepared.parsed@;
            match parent_readings(content, read) {
                Some(Some(readings)) => stored.inherited_token_snapshot_cutoff == replay_cutoff(
                    readings,
                    content.session.snapshots,
                    content.session.explicit_fork_timestamp,
                ) && !prepared.repairs.replay_parent_unavailable,
                Some(None) => content_of(prepared.parsed) == content
                    && prepared.repairs.replay_parent_unavailable,
                None => content_of(prepared.parsed) == content
                    && !prepared.repairs.replay_parent_unavailable,
            }
        },
{
    finished_session_has_its_parent_read(
        scan,
        file,
        scan.start_of(file),
        after,
        end,
        replies,
        content,
        read,
    );
    if let FileStage::Store(prepared) = end {
        assert(prepared.parsed.snapshots.len() == content.session.snapshots.len());
        if let Some(Some(readings)) = parent_readings(content, read) {
            copied_part_ends_at_high_water(
                readings,
                content.session.snapshots,
                content.session.explicit_fork_timestamp,
            );
        }
    }
}

/// Two scans store the same of a file whatever their caches hold: an entry that left the cache
/// changes no result.
pub proof fn results_do_not_depend_on_the_cache(
    left: ScanStateView,
    right: ScanStateView,
    file: SessionFileView,
    left_after: ScanStateView,
    right_after: ScanStateView,
    left_end: FileStage,
    right_end: FileStage,
    left_replies: nat,
    right_replies: nat,
    content: SessionContent,
    read: ParentReadings,
)
    requires
        is_true_cache(left.cache, read),
        is_true_cache(right.cache, read),
        finishes_as(
            left,
            file,
            left.start_of(file),
            left_after,
            left_end,
            left_replies,
            content,
            read,
        ),
        finishes_as(
            right,
            file,
            right.start_of(file),
            right_after,
            right_end,
            right_replies,
            content,
            read,
        ),
        left_end is Store,
        right_end is Store,
    ensures
        content_of(left_end->Store_0.parsed) == content_of(right_end->Store_0.parsed),
        left_end->Store_0.repairs.replay_parent_unavailable
            == right_end->Store_0.repairs.replay_parent_unavailable,
{
    finished_session_has_its_parent_read(
        left,
        file,
        left.start_of(file),
        left_after,
        left_end,
        left_replies,
        content,
        read,
    );
    finished_session_has_its_parent_read(
        right,
        file,
        right.start_of(file),
        right_after,
        right_end,
        right_replies,
        content,
        read,
    );
}

} // verus!
