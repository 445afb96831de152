//! What a scan counts and remembers while it goes through files.

use crate::file_import::ScanStateView;
use crate::import_state::{ImportState, SessionFile, SessionFileView};
use crate::models::UsageSnapshotView;
use crate::prepared::{
    fork_parent, remembered, with_copied_readings, PreparedSession, StorageBudget, StorageStep,
};
use crate::replay::{copied_part_ends_at_high_water, replay_cutoff};
use crate::replay_cache::{
    listed_bytes, listed_bytes_of_others, removal_keeps_books, ParentReplayCacheEntry,
    ReplayCacheView,
};
use crate::repairs::RepairStepView;
use crate::scan_files::ScanKind;
use crate::scan_plan::{
    failure_steps_of, paths_from_files, paths_from_states, ParseFailureView, ScanProgressView,
};
use crate::selection_laws::names_another_session;
use crate::session_log::{LogReadingView, ParsedSessionView, SessionMetaView};
use crate::session_log_laws::added_text_is_there;
use crate::text::{is_white_space, opt_text, trimmed};
use crate::topology::TopologyMaintenance;
use crate::usage::ParsedSessionMode;
use vstd::prelude::*;

verus! {

/// A scan counts what it does: bytes add up, a file is counted by how it was read, a failure is
/// noted, and a stored session counts once as updated and is among the found ones afterwards.
pub proof fn progress_counts_what_was_done(
    progress: ScanProgressView,
    bytes: u64,
    failure: ParseFailureView,
    session_id: Seq<char>,
    work: TopologyMaintenance,
)
    ensures
        progress.source_bytes_read + bytes <= u64::MAX ==> progress.with_bytes(
            bytes,
        ).source_bytes_read == progress.source_bytes_read + bytes,
        progress.tail_parsed_files < usize::MAX ==> progress.with_tail().tail_parsed_files
            == progress.tail_parsed_files + 1,
        progress.with_tail().fully_parsed_files == progress.fully_parsed_files,
        progress.fully_parsed_files < usize::MAX ==> progress.with_full().fully_parsed_files
            == progress.fully_parsed_files + 1,
        progress.with_full().tail_parsed_files == progress.tail_parsed_files,
        progress.with_failure(failure, bytes).failures == progress.failures.push(failure),
        progress.source_bytes_read + bytes <= u64::MAX ==> progress.with_failure(
            failure,
            bytes,
        ).source_bytes_read == progress.source_bytes_read + bytes,
        ({
            let after = progress.with_session(session_id, work);
            &&& progress.updated_sessions < usize::MAX ==> after.updated_sessions
                == progress.updated_sessions + 1
            &&& forall|id: Seq<char>| #[trigger]
                after.imported_session_ids.contains(id) <==> progress.imported_session_ids.contains(
                    id,
                ) || id == session_id
            &&& progress.imported_session_ids.contains(session_id) ==> after.imported_session_ids
                == progress.imported_session_ids
            &&& after.topology_dirty <==> progress.topology_dirty || work
                == TopologyMaintenance::RecomputeAll
            &&& work == TopologyMaintenance::InsertRootLink ==> after.new_root_session_ids
                == progress.new_root_session_ids.push(session_id)
            &&& work != TopologyMaintenance::InsertRootLink ==> after.new_root_session_ids
                == progress.new_root_session_ids
            &&& after.failures == progress.failures
            &&& after.source_bytes_read == progress.source_bytes_read
        }),
        ScanProgressView::fresh(seq![session_id]).imported_session_ids == seq![session_id],
{
    added_text_is_there(progress.imported_session_ids, session_id);
}

/// Whether steps keep a file pending in a repair.
pub open spec fn keeps_pending(
    steps: Seq<RepairStepView>,
    repair_key: Seq<char>,
    failure: ParseFailureView,
) -> bool {
    steps.contains(
        RepairStepView::MarkPending {
            repair_key,
            source_path: failure.source_path,
            reason: failure.error,
        },
    )
}

/// A file that could not be read stays pending, for the reason why, in exactly the repairs that it
/// takes part in, and it is let go from none.
pub proof fn unreadable_file_stays_in_its_repairs(failure: ParseFailureView)
    ensures
        ({
            let steps = failure_steps_of(failure);
            &&& keeps_pending(steps, "token_usage_monotonic_v2"@, failure)
                <==> failure.repairs.token_v2
            &&& keeps_pending(steps, "token_usage_fork_replay_v3"@, failure)
                <==> failure.repairs.fork_replay_v3
            &&& keeps_pending(steps, "rate_limit_sample_backfill_v1"@, failure)
                <==> failure.repairs.rate_limit
            &&& forall|index: int|
                0 <= index < steps.len() ==> (#[trigger] steps[index] matches
                RepairStepView::MarkPending { source_path, reason, .. } && source_path
                    == failure.source_path && reason == failure.error)
        }),
{
    reveal_strlit("token_usage_monotonic_v2");
    reveal_strlit("token_usage_fork_replay_v3");
    reveal_strlit("rate_limit_sample_backfill_v1");
    assert("token_usage_monotonic_v2"@.len() == 24);
    assert("token_usage_fork_replay_v3"@.len() == 26);
    assert("rate_limit_sample_backfill_v1"@.len() == 29);
    let steps = failure_steps_of(failure);
    let tokens: int = if failure.repairs.token_v2 {
        1
    } else {
        0
    };
    let replays: int = if failure.repairs.fork_replay_v3 {
        1
    } else {
        0
    };
    if failure.repairs.token_v2 {
        assert(steps[0] == (RepairStepView::MarkPending {
            repair_key: "token_usage_monotonic_v2"@,
            source_path: failure.source_path,
            reason: failure.error,
        }));
    }
    if failure.repairs.fork_replay_v3 {
        assert(steps[tokens] == (RepairStepView::MarkPending {
            repair_key: "token_usage_fork_replay_v3"@,
            source_path: failure.source_path,
            reason: failure.error,
        }));
    }
    if failure.repairs.rate_limit {
        assert(steps[tokens + replays] == (RepairStepView::MarkPending {
            repair_key: "rate_limit_sample_backfill_v1"@,
            source_path: failure.source_path,
            reason: failure.error,
        }));
    }
}

/// Where the log of a session lies is said by the last imported file of it; a session without one
/// keeps its place.
pub proof fn imported_files_say_where_logs_lie(
    start: Map<Seq<char>, Seq<char>>,
    order: Seq<Seq<char>>,
    import_state: Map<Seq<char>, ImportState>,
    end: int,
    session_id: Seq<char>,
    place: int,
)
    requires
        -1 <= place < end <= order.len(),
        forall|later: int|
            place < later < end ==> opt_text(
                import_state[#[trigger] order[later]].session_id,
            ) != Some(session_id),
        place >= 0 ==> opt_text(import_state[order[place]].session_id) == Some(session_id),
    ensures
        ({
            let paths = paths_from_states(start, order, import_state, end);
            &&& place >= 0 ==> paths.dom().contains(session_id) && paths[session_id]
                == import_state[order[place]].source_path@
            &&& place < 0 ==> (paths.dom().contains(session_id) <==> start.dom().contains(
                session_id,
            )) && (start.dom().contains(session_id) ==> paths[session_id] == start[session_id])
        }),
    decreases end,
{
    if end > 0 && place < end - 1 {
        assert(opt_text(import_state[order[end - 1]].session_id) != Some(session_id));
        imported_files_say_where_logs_lie(start, order, import_state, end - 1, session_id, place);
    }
}

/// Where the log of a session lies is said by the last found file that carries it in its name; a
/// session without one keeps its place.
pub proof fn found_files_say_where_logs_lie(
    start: Map<Seq<char>, Seq<char>>,
    files: Seq<SessionFile>,
    end: int,
    session_id: Seq<char>,
    place: int,
)
    requires
        -1 <= place < end <= files.len(),
        forall|later: int|
            place < later < end ==> opt_text((#[trigger] files[later]).name_session_id) != Some(
                session_id,
            ),
        place >= 0 ==> opt_text(files[place].name_session_id) == Some(session_id),
    ensures
        ({
            let paths = paths_from_files(start, files, end);
            &&& place >= 0 ==> paths.dom().contains(session_id) && paths[session_id]
                == files[place].source_path@
            &&& place < 0 ==> (paths.dom().contains(session_id) <==> start.dom().contains(
                session_id,
            )) && (start.dom().contains(session_id) ==> paths[session_id] == start[session_id])
        }),
    decreases end,
{
    if end > 0 && place < end - 1 {
        assert(opt_text(files[end - 1].name_session_id) != Some(session_id));
        found_files_say_where_logs_lie(start, files, end - 1, session_id, place);
    }
}

/// A file starts with what was appended to it exactly where the scan is not a full one, no repair
/// needs the whole file, and what was appended can be read on its own; otherwise it is read whole.
pub proof fn file_starts_with_its_tail(scan: ScanStateView, file: SessionFileView)
    ensures
        scan.start_of(file) is ReadTail || scan.start_of(file) is ReadInFull,
        scan.start_of(file) is ReadTail <==> {
            let state = scan.import_state@[file.source_path];
            let repairs = scan.repairs.of_file(file.source_path);
            &&& scan.kind != ScanKind::Full
            &&& !repairs.rate_limit && !repairs.token_v2 && !repairs.fork_replay_v3
            &&& scan.import_state@.dom().contains(file.source_path)
            &&& state.session_id is Some
            &&& state.source_bucket@ == "active"@ && file.bucket == "active"@
            &&& file.file_size > state.file_size
            &&& !names_another_session(state, file)
            &&& state.parser_checkpoint is Some
            &&& state.parser_checkpoint->0.completed_offset <= if file.file_size < 0 {
                0int
            } else {
                file.file_size as int
            }
        },
{
}

/// Marking what a session copied changes nothing else in it: its readings, its samples' source and
/// its description stay, and the mark is where the copy ends.
pub proof fn only_the_copied_part_is_marked(
    session: ParsedSessionView,
    parent: Seq<UsageSnapshotView>,
)
    requires
        session.snapshots.len() <= usize::MAX,
    ensures
        ({
            let marked = with_copied_readings(session, parent);
            &&& marked.inherited_token_snapshot_cutoff == replay_cutoff(
                parent,
                session.snapshots,
                session.explicit_fork_timestamp,
            )
            &&& marked.snapshots == session.snapshots
            &&& marked.raw_session == session.raw_session
            &&& marked.mode == session.mode
            &&& marked.checkpoint == session.checkpoint
            &&& marked.explicit_forked_from_id == session.explicit_forked_from_id
            &&& marked.explicit_fork_timestamp == session.explicit_fork_timestamp
            &&& marked.explicit_fast_mode == session.explicit_fast_mode
            &&& marked.latest_plan_type == session.latest_plan_type
            &&& marked.last_model_id == session.last_model_id
        }),
{
    copied_part_ends_at_high_water(parent, session.snapshots, session.explicit_fork_timestamp);
}

/// A session is a fork of the one that it names, unless that name is blank.
pub proof fn fork_names_its_parent(session: ParsedSessionView)
    ensures
        session.explicit_forked_from_id is None ==> fork_parent(session) is None,
        fork_parent(session) is Some ==> fork_parent(session) == session.explicit_forked_from_id,
        session.explicit_forked_from_id matches Some(parent) ==> (parent.len() > 0
            && !is_white_space(parent[0]) && !is_white_space(parent.last()) ==> fork_parent(session)
            == Some(parent)),
{
    if let Some(parent) = session.explicit_forked_from_id {
        if parent.len() > 0 && !is_white_space(parent[0]) && !is_white_space(parent.last()) {
            assert(trimmed(parent) == parent);
        }
    }
}

/// What is remembered of a stored file is the file as it was found, its session, and how far it was
/// read.
pub proof fn stored_file_is_remembered(prepared: PreparedSession, file: SessionFileView)
    requires
        prepared.session_file.is_of(file),
    ensures
        ({
            let state = prepared.stored_state();
            &&& state.source_path == file.source_path
            &&& state.source_bucket == file.bucket
            &&& state.file_size == file.file_size
            &&& state.file_mtime_ms == file.file_mtime_ms
            &&& state.session_id == Some(prepared.parsed.raw_session.session_id@)
            &&& state.parser_checkpoint == Some(prepared.parsed.checkpoint@)
        }),
{
}

/// What a reading says of a session is all that was read: its readings and models, the time of its
/// last line, its description, and how far it came. Nothing counts as copied yet.
pub proof fn session_says_what_was_read(
    reading: LogReadingView,
    meta: SessionMetaView,
    started_at: Option<Seq<char>>,
    file: SessionFileView,
    titles: Map<Seq<char>, String>,
    mode: ParsedSessionMode,
    signature: Seq<u8>,
)
    ensures
        ({
            let session = reading.parsed(meta, started_at, file, titles, mode, signature);
            let raw = session.raw_session;
            &&& raw.session_id == meta.session_id
            &&& raw.root_session_id == meta.session_id
            &&& raw.parent_session_id == meta.parent_session_id
            &&& raw.agent_nickname == meta.agent_nickname
            &&& raw.agent_role == meta.agent_role
            &&& raw.started_at == started_at
            &&& raw.updated_at == reading.updated_at
            &&& raw.model_ids == reading.seen_models
            &&& raw.source_state == file.bucket
            &&& raw.source_path == Some(file.source_path)
            &&& titles.dom().contains(meta.session_id) ==> raw.title == Some(
                titles[meta.session_id]@,
            )
            &&& !titles.dom().contains(meta.session_id) ==> raw.title is None
            &&& session.snapshots == reading.snapshots
            &&& session.mode == mode
            &&& session.inherited_token_snapshot_cutoff == 0
            &&& session.explicit_forked_from_id == meta.explicit_forked_from_id
            &&& session.explicit_fork_timestamp == meta.explicit_fork_timestamp
            &&& session.explicit_fast_mode == reading.explicit_fast_mode
            &&& session.latest_plan_type == reading.latest_plan_type
            &&& session.last_model_id == if reading.current_model is Some {
                reading.current_model
            } else {
                Some("unknown"@)
            }
            &&& session.checkpoint.completed_offset == reading.completed_offset
            &&& session.checkpoint.prefix_signature == signature
            &&& session.checkpoint.current_model == reading.current_model
        }),
{
}

/// Whether a cache is another one without the first `gone` of its keys and with one more at the
/// end. With one of them less gone there would have been no room: four entries were there, or all
/// together would have taken up more than the limit.
pub open spec fn leaves_first(
    before: ReplayCacheView,
    after: ReplayCacheView,
    session_id: Seq<char>,
    bytes: usize,
    gone: int,
) -> bool {
    &&& 0 <= gone <= before.order.len()
    &&& after.order == before.order.skip(gone).push(session_id)
    &&& gone > 0 ==> before.order.len() - (gone - 1) >= 4 || listed_bytes(
        before.entries,
        before.order.skip(gone - 1),
    ) + bytes > 262_144
}

/// Whether a cache counted what it passed over, and what left it.
pub open spec fn counts_what_left(
    before: ReplayCacheView,
    after: ReplayCacheView,
    is_too_large: bool,
) -> bool {
    if is_too_large {
        &&& after.entries == before.entries
        &&& after.order == before.order
        &&& after.evictions == before.evictions
        &&& before.oversized_bypasses < usize::MAX ==> after.oversized_bypasses
            == before.oversized_bypasses + 1
    } else {
        &&& after.oversized_bypasses == before.oversized_bypasses
        &&& before.evictions + before.order.len() <= usize::MAX ==> after.evictions
            - before.evictions == before.order.len() + 1 - after.order.len()
    }
}

/// A cache counts each entry that it removes to make room, and each that is too large to be kept.
pub proof fn cache_counts_what_left(
    cache: ReplayCacheView,
    session_id: Seq<char>,
    entry: ParentReplayCacheEntry,
)
    requires
        cache.is_consistent(),
    ensures
        counts_what_left(
            cache,
            cache.with_entry(session_id, entry),
            entry.estimated_bytes > 262_144,
        ),
{
    if entry.estimated_bytes <= 262_144 {
        removals_are_counted(cache, entry.estimated_bytes);
    }
}

proof fn removals_are_counted(cache: ReplayCacheView, bytes: usize)
    requires
        cache.is_consistent(),
    ensures
        ({
            let roomy = cache.with_room_for(bytes);
            &&& roomy.oversized_bypasses == cache.oversized_bypasses
            &&& cache.evictions + cache.order.len() <= usize::MAX ==> roomy.evictions
                - cache.evictions == cache.order.len() - roomy.order.len()
        }),
    decreases cache.order.len(),
{
    if cache.is_full_for(bytes) && cache.order.len() > 0 {
        removal_keeps_books(cache);
        assert(cache.order.contains(cache.order[0]));
        removals_are_counted(cache.without_oldest(), bytes);
    }
}

/// What came first leaves first, and only as much as must.
pub proof fn oldest_entries_leave_first(
    cache: ReplayCacheView,
    session_id: Seq<char>,
    entry: ParentReplayCacheEntry,
)
    requires
        cache.is_consistent(),
        entry.estimated_bytes <= 262_144,
    ensures
        exists|gone: int| #[trigger]
            leaves_first(
                cache,
                cache.with_entry(session_id, entry),
                session_id,
                entry.estimated_bytes,
                gone,
            ),
{
    let gone = room_is_made_from_the_front(cache, entry.estimated_bytes);
    assert(leaves_first(
        cache,
        cache.with_entry(session_id, entry),
        session_id,
        entry.estimated_bytes,
        gone,
    ));
}

proof fn room_is_made_from_the_front(cache: ReplayCacheView, bytes: usize) -> (gone: int)
    requires
        cache.is_consistent(),
    ensures
        0 <= gone <= cache.order.len(),
        cache.with_room_for(bytes).order == cache.order.skip(gone),
        gone > 0 ==> cache.order.len() - (gone - 1) >= 4 || listed_bytes(
            cache.entries,
            cache.order.skip(gone - 1),
        ) + bytes > 262_144,
    decreases cache.order.len(),
{
    if cache.is_full_for(bytes) && cache.order.len() > 0 {
        let next = cache.without_oldest();
        removal_keeps_books(cache);
        assert(cache.order.contains(cache.order[0]));
        let rest = room_is_made_from_the_front(next, bytes);
        assert(cache.order.drop_first().skip(rest) =~= cache.order.skip(rest + 1));
        if rest > 0 {
            let left = cache.order.skip(rest);
            assert(next.order.skip(rest - 1) =~= left);
            assert forall|index: int| 0 <= index < left.len() implies next.entries[
            #[trigger] left[index]] == cache.entries[left[index]] by {
                assert(left[index] == cache.order[rest + index]);
                assert(cache.order[rest + index] != cache.order[0]);
            }
            listed_bytes_of_others(next.entries, cache.entries, left);
        } else {
            assert(cache.order.skip(0) =~= cache.order);
        }
        rest + 1
    } else {
        assert(cache.order.skip(0) =~= cache.order);
        0
    }
}

/// Prepared sessions stay in memory while they are few: the first always does, the others while all
/// together take up no more than the threshold. From the first that does not fit on, all go to a
/// file, and none comes back.
pub proof fn sessions_move_to_a_file_together(
    budget: StorageBudget,
    spare_before: usize,
    entry_bytes: usize,
    spare_after: usize,
)
    requires
        budget.count() < usize::MAX,
    ensures
        ({
            let step = budget.step(spare_before, entry_bytes, spare_after);
            let after = budget.after(spare_before, entry_bytes, spare_after);
            &&& after.count() == budget.count() + 1
            &&& budget is Spool <==> step == StorageStep::AppendToSpool
            &&& after is Memory <==> step == StorageStep::KeepInMemory
            &&& budget matches StorageBudget::Memory { entries, estimated_bytes } ==> {
                let held = if estimated_bytes >= spare_before {
                    estimated_bytes - spare_before
                } else {
                    0
                };
                let bytes = held + entry_bytes + spare_after;
                &&& step == StorageStep::KeepInMemory <==> entries == 0 || bytes <= 262_144
                &&& step == StorageStep::KeepInMemory && bytes <= usize::MAX ==> after == (
                StorageBudget::Memory {
                    entries: (entries + 1) as usize,
                    estimated_bytes: bytes as usize,
                })
            }
        }),
{
}

} // verus!
