//! What holds of scans as a whole.

use crate::database::usage_events::{planned_event, NewUsageEventView};
use crate::file_import::{content_of, FileReply, FileStage, ScanStateView};
use crate::import_state::{
    byte_size, session_id_mismatch, ImportState, ImportStateView, SessionFile, SessionFileView,
};
use crate::models::{TokenUsage, UsageSnapshotView};
use crate::prepared::PreparedSession;
use crate::repairs::RepairStates;
use crate::scan_files::{is_read, opt_bytes, read_places, skipped_sessions, ScanKind};
use crate::scan_plan::{planned_commit, LinkAction, ScanProgressView};
use crate::session_log::{LogReadingView, ModelNames, ParsedSession, ParsedSessionView};
use crate::session_log_laws::{
    added_text_is_there, after_lines, current_model_was_seen, growing_log_is_billed_once,
    lines_read_on, resumed_reading_continues, LogLine,
};
use crate::text::{opt_text, texts, with_text};
use crate::usage::{moved, planned_indices_are_small, usage_plan, ParsedSessionMode, PlannedUsage};
use vstd::prelude::*;

verus! {

/// Whether a file is as it was when it was imported: of the same size and the same age, and not
/// under the name of another session.
pub open spec fn is_as_imported(state: ImportStateView, file: SessionFileView) -> bool {
    state.file_size == file.file_size && state.file_mtime_ms == file.file_mtime_ms
        && !session_id_mismatch(state, file)
}

/// The session that a file was imported as.
pub open spec fn imported_as(
    import_state: Map<Seq<char>, ImportState>,
    file: SessionFile,
) -> Option<Seq<char>> {
    opt_text(import_state[file.source_path@].session_id)
}

proof fn settled_repairs_force_nothing(
    repairs: RepairStates,
    import_state: Map<Seq<char>, ImportState>,
    file: SessionFileView,
)
    requires
        repairs.is_settled(),
    ensures
        !repairs.forces(import_state, file),
        !repairs.of_file(file.source_path).rate_limit,
        !repairs.of_file(file.source_path).token_v2,
        !repairs.of_file(file.source_path).fork_replay_v3,
{
    assert(texts(repairs.rate_limit.pending_paths@).len() == 0);
    assert(texts(repairs.token_v2.pending_paths@).len() == 0);
    assert(texts(repairs.fork_replay_v3.pending_paths@).len() == 0);
    assert(repairs.token_v2.sessions(import_state).len() == 0);
    assert(repairs.fork_replay_v3.sessions(import_state).len() == 0);
}

/// What is skipped among the first `end` files, where none of them but that at `place` is read.
proof fn others_are_skipped(
    repairs: RepairStates,
    import_state: Map<Seq<char>, ImportState>,
    files: Seq<SessionFile>,
    signatures: Seq<Option<Vec<u8>>>,
    place: int,
    end: int,
)
    requires
        0 <= end <= files.len(),
        forall|index: int|
            0 <= index < end ==> (is_read(
                repairs,
                import_state,
                (#[trigger] files[index])@,
                opt_bytes(signatures[index]),
            ) <==> index == place),
    ensures
        read_places(repairs, import_state, files, signatures, end) == if 0 <= place < end {
            seq![place]
        } else {
            Seq::empty()
        },
        ({
            let ids = skipped_sessions(repairs, import_state, files, signatures, end);
            &&& ids.no_duplicates()
            &&& forall|id: Seq<char>| #[trigger]
                ids.contains(id) <==> exists|index: int|
                    0 <= index < end && index != place && #[trigger] imported_as(
                        import_state,
                        files[index],
                    ) == Some(id)
        }),
    decreases end,
{
    if end > 0 {
        others_are_skipped(repairs, import_state, files, signatures, place, end - 1);
        let earlier = skipped_sessions(repairs, import_state, files, signatures, end - 1);
        let ids = skipped_sessions(repairs, import_state, files, signatures, end);
        let file = files[end - 1];
        assert(is_read(repairs, import_state, file@, opt_bytes(signatures[end - 1])) <==> end - 1
            == place);
        if end - 1 == place {
            assert(read_places(repairs, import_state, files, signatures, end) =~= seq![place]);
        } else {
            if let Some(id) = imported_as(import_state, file) {
                added_text_is_there(earlier, id);
                assert(ids == with_text(earlier, id));
                assert(ids.no_duplicates()) by {
                    if !earlier.contains(id) {
                        assert forall|one: int, other: int|
                            0 <= one < ids.len() && 0 <= other < ids.len() && one
                                != other implies ids[one] != ids[other] by {
                            if one < earlier.len() {
                                assert(earlier.contains(earlier[one]));
                            }
                            if other < earlier.len() {
                                assert(earlier.contains(earlier[other]));
                            }
                        }
                    }
                }
            }
        }
        assert forall|id: Seq<char>| #[trigger] ids.contains(id) implies exists|index: int|
            0 <= index < end && index != place && #[trigger] imported_as(
                import_state,
                files[index],
            ) == Some(id) by {
            if earlier.contains(id) {
                let index = choose|index: int|
                    0 <= index < end - 1 && index != place && #[trigger] imported_as(
                        import_state,
                        files[index],
                    ) == Some(id);
                assert(imported_as(import_state, files[index]) == Some(id));
            } else {
                assert(imported_as(import_state, files[end - 1]) == Some(id));
            }
        }
        assert forall|id: Seq<char>|
            (exists|index: int|
                0 <= index < end && index != place && #[trigger] imported_as(
                    import_state,
                    files[index],
                ) == Some(id)) implies #[trigger] ids.contains(id) by {
            let index = choose|index: int|
                0 <= index < end && index != place && #[trigger] imported_as(
                    import_state,
                    files[index],
                ) == Some(id);
            if index < end - 1 {
                assert(imported_as(import_state, files[index]) == Some(id));
                assert(earlier.contains(id));
            }
        }
    }
}

/// A scan in which every file is as it was imported, and in which no repair asks for anything,
/// reads nothing, updates nothing and fails at nothing. It counts each session once, and leaves
/// the links as they are.
pub proof fn scan_of_unchanged_files_reads_nothing(
    repairs: RepairStates,
    import_state: Map<Seq<char>, ImportState>,
    files: Seq<SessionFile>,
    signatures: Seq<Option<Vec<u8>>>,
    kind: ScanKind,
)
    requires
        repairs.is_settled(),
        forall|index: int|
            0 <= index < files.len() ==> import_state.dom().contains(
                (#[trigger] files[index])@.source_path,
            ) && is_as_imported(import_state[files[index]@.source_path]@, files[index]@),
    ensures
        read_places(repairs, import_state, files, signatures, files.len() as int)
            == Seq::<int>::empty(),
        ({
            let ids = skipped_sessions(
                repairs,
                import_state,
                files,
                signatures,
                files.len() as int,
            );
            let progress = ScanProgressView::fresh(ids);
            let plan = planned_commit(kind, progress, false);
            &&& ids.no_duplicates()
            &&& forall|id: Seq<char>| #[trigger]
                ids.contains(id) <==> exists|index: int|
                    0 <= index < files.len() && #[trigger] imported_as(import_state, files[index])
                        == Some(id)
            &&& progress.updated_sessions == 0
            &&& progress.source_bytes_read == 0
            &&& progress.failures.len() == 0
            &&& plan.links == LinkAction::Leave
            &&& plan.full_scan_completed == (kind != ScanKind::Incremental)
            &&& !plan.full_scan_invalidated
        }),
{
    assert forall|index: int| 0 <= index < files.len() implies !is_read(
        repairs,
        import_state,
        (#[trigger] files[index])@,
        opt_bytes(signatures[index]),
    ) by {
        settled_repairs_force_nothing(repairs, import_state, files[index]@);
    }
    others_are_skipped(repairs, import_state, files, signatures, -1, files.len() as int);
    let ids = skipped_sessions(repairs, import_state, files, signatures, files.len() as int);
    assert forall|id: Seq<char>| #[trigger] ids.contains(id) <==> exists|index: int|
        0 <= index < files.len() && #[trigger] imported_as(import_state, files[index]) == Some(
            id,
        ) by {
        if ids.contains(id) {
            let index = choose|index: int|
                0 <= index < files.len() && index != -1 && #[trigger] imported_as(
                    import_state,
                    files[index],
                ) == Some(id);
            assert(imported_as(import_state, files[index]) == Some(id));
        }
        if exists|index: int|
            0 <= index < files.len() && #[trigger] imported_as(import_state, files[index])
                == Some(id) {
            let index = choose|index: int|
                0 <= index < files.len() && #[trigger] imported_as(import_state, files[index])
                    == Some(id);
            assert(index != -1 && imported_as(import_state, files[index]) == Some(id));
        }
    }
}

/// A scan right after one that stored all files, with no repair left and no file changed since,
/// reads nothing and updates nothing, of whatever kind it is. Each file carries no session in its
/// name or the one that it was stored as.
pub proof fn second_scan_reads_nothing(
    stored: Seq<PreparedSession>,
    repairs: RepairStates,
    import_state: Map<Seq<char>, ImportState>,
    files: Seq<SessionFile>,
    signatures: Seq<Option<Vec<u8>>>,
    kind: ScanKind,
)
    requires
        repairs.is_settled(),
        stored.len() == files.len(),
        forall|index: int|
            #![trigger files[index]]
            #![trigger stored[index]]
            0 <= index < files.len() ==> {
                let file = files[index]@;
                let session = stored[index].parsed.raw_session.session_id@;
                &&& stored[index].session_file.is_of(file)
                &&& file.name_session_id is None || file.name_session_id == Some(session)
                &&& import_state.dom().contains(file.source_path)
                &&& import_state[file.source_path]@ == stored[index].stored_state()
            },
    ensures
        read_places(repairs, import_state, files, signatures, files.len() as int)
            == Seq::<int>::empty(),
        ({
            let ids = skipped_sessions(
                repairs,
                import_state,
                files,
                signatures,
                files.len() as int,
            );
            &&& ids.no_duplicates()
            &&& forall|index: int|
                0 <= index < stored.len() ==> ids.contains(
                    (#[trigger] stored[index]).parsed.raw_session.session_id@,
                )
            &&& ScanProgressView::fresh(ids).updated_sessions == 0
            &&& ScanProgressView::fresh(ids).source_bytes_read == 0
            &&& planned_commit(kind, ScanProgressView::fresh(ids), false).links
                == LinkAction::Leave
        }),
{
    assert forall|index: int| 0 <= index < files.len() implies import_state.dom().contains(
        (#[trigger] files[index])@.source_path,
    ) && is_as_imported(import_state[files[index]@.source_path]@, files[index]@) by {
        let file = files[index]@;
        assert(import_state[file.source_path]@ == stored[index].stored_state());
    }
    scan_of_unchanged_files_reads_nothing(repairs, import_state, files, signatures, kind);
    let ids = skipped_sessions(repairs, import_state, files, signatures, files.len() as int);
    assert forall|index: int| 0 <= index < stored.len() implies ids.contains(
        (#[trigger] stored[index]).parsed.raw_session.session_id@,
    ) by {
        let file = files[index];
        assert(import_state[file@.source_path]@ == stored[index].stored_state());
        assert(imported_as(import_state, files[index]) == Some(
            stored[index].parsed.raw_session.session_id@,
        ));
    }
}

/// Whether a file comes to an end, with at most these replies, from a stage on.
pub open spec fn finishes(
    scan: ScanStateView,
    file: SessionFileView,
    stage: FileStage,
    after: ScanStateView,
    end: FileStage,
    replies: nat,
) -> bool
    decreases replies,
{
    if stage is Store || stage is Skip {
        after == scan && end == stage
    } else {
        replies > 0 && exists|reply: FileReply, between: ScanStateView, next: FileStage|
            stage.is_answered_by(reply) && #[trigger] scan.leads(file, stage, reply, between, next)
                && finishes(between, file, next, after, end, (replies - 1) as nat)
    }
}

proof fn reply_counts_one_at_most(
    scan: ScanStateView,
    file: SessionFileView,
    stage: FileStage,
    reply: FileReply,
    after: ScanStateView,
    next: FileStage,
)
    requires
        scan.leads(file, stage, reply, after, next),
        stage.is_answered_by(reply),
    ensures
        ({
            let before = scan.progress;
            let progress = after.progress;
            &&& next is Store ==> progress.updated_sessions == before.updated_sessions.wrapping_add(
                1,
            ) && progress.failures == before.failures
            &&& next is Skip ==> progress.updated_sessions == before.updated_sessions
                && progress.failures.len() == before.failures.len() + 1
            &&& !(next is Store || next is Skip) ==> progress.updated_sessions
                == before.updated_sessions && progress.failures == before.failures
            &&& before.imported_session_ids.no_duplicates()
                ==> progress.imported_session_ids.no_duplicates()
        }),
{
    let ids = scan.progress.imported_session_ids;
    assert forall|id: Seq<char>| ids.no_duplicates() implies #[trigger] with_text(
        ids,
        id,
    ).no_duplicates() by {
        let longer = with_text(ids, id);
        if !ids.contains(id) {
            assert forall|one: int, other: int|
                0 <= one < longer.len() && 0 <= other < longer.len() && one
                    != other implies longer[one] != longer[other] by {
                if one < ids.len() {
                    assert(ids.contains(ids[one]));
                }
                if other < ids.len() {
                    assert(ids.contains(ids[other]));
                }
            }
        }
    }
}

/// A file that comes to an end is either stored or passed over, and is counted once as that. No
/// session is counted twice.
pub proof fn finished_file_is_counted_once(
    scan: ScanStateView,
    file: SessionFileView,
    stage: FileStage,
    after: ScanStateView,
    end: FileStage,
    replies: nat,
)
    requires
        finishes(scan, file, stage, after, end, replies),
        !(stage is Store || stage is Skip),
    ensures
        end is Store || end is Skip,
        end is Store ==> after.progress.updated_sessions
            == scan.progress.updated_sessions.wrapping_add(1) && after.progress.failures
            == scan.progress.failures,
        end is Skip ==> after.progress.updated_sessions == scan.progress.updated_sessions
            && after.progress.failures.len() == scan.progress.failures.len() + 1,
        scan.progress.imported_session_ids.no_duplicates()
            ==> after.progress.imported_session_ids.no_duplicates(),
    decreases replies,
{
    let (reply, between, next) = choose|
        reply: FileReply,
        between: ScanStateView,
        next: FileStage,
    |
        stage.is_answered_by(reply) && #[trigger] scan.leads(file, stage, reply, between, next)
            && finishes(between, file, next, after, end, (replies - 1) as nat);
    reply_counts_one_at_most(scan, file, stage, reply, between, next);
    if !(next is Store || next is Skip) {
        finished_file_is_counted_once(between, file, next, after, end, (replies - 1) as nat);
    }
}

/// Whether a scan goes through a file from its first stage to its end.
pub open spec fn goes_through_file(
    scan: ScanStateView,
    file: SessionFileView,
    after: ScanStateView,
) -> bool {
    exists|end: FileStage, replies: nat| #[trigger]
        finishes(scan, file, scan.start_of(file), after, end, replies)
}

/// Whether a scan goes through files, one after the other.
pub open spec fn goes_through(
    scan: ScanStateView,
    files: Seq<SessionFileView>,
    after: ScanStateView,
) -> bool
    decreases files.len(),
{
    if files.len() == 0 {
        after == scan
    } else {
        exists|between: ScanStateView|
            goes_through(scan, files.drop_last(), between) && #[trigger] goes_through_file(
                between,
                files.last(),
                after,
            )
    }
}

/// The sessions that a scan updates and the files that it passes over are together the files that
/// it reads, and no session is counted twice.
pub proof fn files_read_are_counted(
    scan: ScanStateView,
    files: Seq<SessionFileView>,
    after: ScanStateView,
)
    requires
        goes_through(scan, files, after),
        scan.progress.updated_sessions + files.len() <= usize::MAX,
    ensures
        after.progress.updated_sessions + after.progress.failures.len()
            == scan.progress.updated_sessions + scan.progress.failures.len() + files.len(),
        after.progress.failures.len() >= scan.progress.failures.len(),
        scan.progress.imported_session_ids.no_duplicates()
            ==> after.progress.imported_session_ids.no_duplicates(),
    decreases files.len(),
{
    if files.len() > 0 {
        let between = choose|between: ScanStateView|
            goes_through(scan, files.drop_last(), between) && #[trigger] goes_through_file(
                between,
                files.last(),
                after,
            );
        files_read_are_counted(scan, files.drop_last(), between);
        let (end, replies) = choose|end: FileStage, replies: nat| #[trigger]
            finishes(between, files.last(), between.start_of(files.last()), after, end, replies);
        finished_file_is_counted_once(
            between,
            files.last(),
            between.start_of(files.last()),
            after,
            end,
            replies,
        );
    }
}

/// The events that a plan gives, each with its time, where `price` says what a usage of a model
/// costs.
pub open spec fn events_of(
    session_id: Seq<char>,
    snapshots: Seq<UsageSnapshotView>,
    plan: Seq<PlannedUsage>,
    price: spec_fn(Seq<char>, TokenUsage) -> Option<u64>,
    names: ModelNames,
) -> Seq<(Seq<char>, NewUsageEventView)> {
    plan.map_values(
        |planned: PlannedUsage|
            (
                snapshots[planned.snapshot_index as int].timestamp,
                planned_event(
                    session_id,
                    snapshots,
                    planned,
                    price(snapshots[planned.snapshot_index as int].model_id, planned.delta),
                    names,
                ),
            ),
    )
}

/// The events of a log that was read at once are those of its first part and those of the rest.
proof fn events_of_parts(
    session_id: Seq<char>,
    head: Seq<UsageSnapshotView>,
    tail: Seq<UsageSnapshotView>,
    head_plan: Seq<PlannedUsage>,
    tail_plan: Seq<PlannedUsage>,
    price: spec_fn(Seq<char>, TokenUsage) -> Option<u64>,
    names: ModelNames,
)
    requires
        head.len() + tail.len() <= usize::MAX,
        forall|index: int|
            0 <= index < head_plan.len() ==> (#[trigger] head_plan[index]).snapshot_index
                < head.len(),
        forall|index: int|
            0 <= index < tail_plan.len() ==> (#[trigger] tail_plan[index]).snapshot_index
                < tail.len(),
    ensures
        events_of(
            session_id,
            head + tail,
            head_plan + moved(tail_plan, head.len() as int),
            price,
            names,
        ) == events_of(session_id, head, head_plan, price, names) + events_of(
            session_id,
            tail,
            tail_plan,
            price,
            names,
        ),
{
    let whole_plan = head_plan + moved(tail_plan, head.len() as int);
    let whole = events_of(session_id, head + tail, whole_plan, price, names);
    let parts = events_of(session_id, head, head_plan, price, names) + events_of(
        session_id,
        tail,
        tail_plan,
        price,
        names,
    );
    assert forall|index: int| 0 <= index < whole.len() implies whole[index] == parts[index] by {
        if index < head_plan.len() {
            assert(whole_plan[index] == head_plan[index]);
            assert((head + tail)[head_plan[index].snapshot_index as int]
                == head[head_plan[index].snapshot_index as int]);
        } else {
            let planned = tail_plan[index - head_plan.len()];
            assert(whole_plan[index].snapshot_index == planned.snapshot_index + head.len());
            assert(whole_plan[index].delta == planned.delta);
            assert((head + tail)[planned.snapshot_index + head.len()]
                == tail[planned.snapshot_index as int]);
        }
    }
    assert(whole =~= parts);
}

/// Whether a session is what a log says that was read at once from its first line.
pub open spec fn says_all(parsed: ParsedSessionView, reading: LogReadingView) -> bool {
    &&& parsed.mode == ParsedSessionMode::Full
    &&& parsed.snapshots == reading.snapshots
    &&& parsed.checkpoint == reading.checkpoint(None, parsed.checkpoint.prefix_signature)
}

/// Where one log of those that a scan found has grown by complete lines since it was stored, and
/// all other files are as they were imported, the scan reads exactly that file, by what was
/// appended to it, and counts one session. With the events that were stored before, those of the
/// appended part are the events of the whole log read at once: the same times, models, counts and
/// prices in the same order. The session is no fork.
pub proof fn grown_file_is_counted_and_billed_once(
    scan: ScanStateView,
    files: Seq<SessionFile>,
    signatures: Seq<Option<Vec<u8>>>,
    place: int,
    stored: PreparedSession,
    appended: ParsedSession,
    bytes_read: u64,
    after: ScanStateView,
    next: FileStage,
    head_lines: Seq<LogLine>,
    tail_lines: Seq<LogLine>,
    names: ModelNames,
    price: spec_fn(Seq<char>, TokenUsage) -> Option<u64>,
)
    requires
        scan.repairs.is_settled(),
        scan.kind != ScanKind::Full,
        0 <= place < files.len(),
        forall|index: int|
            0 <= index < files.len() ==> scan.import_state@.dom().contains(
                (#[trigger] files[index])@.source_path,
            ),
        forall|index: int|
            0 <= index < files.len() && index != place ==> is_as_imported(
                scan.import_state@[(#[trigger] files[index])@.source_path]@,
                files[index]@,
            ),
        ({
            let file = files[place]@;
            let session = stored.parsed.raw_session.session_id@;
            let head = after_lines(LogReadingView::fresh(), head_lines, names);
            let whole = after_lines(LogReadingView::fresh(), head_lines + tail_lines, names);
            let tail = after_lines(
                LogReadingView::resumed(stored.parsed.checkpoint@),
                tail_lines,
                names,
            );
            &&& scan.import_state@[file.source_path]@ == stored.stored_state()
            &&& stored.session_file.bucket@ == "active"@
            &&& file.bucket == "active"@
            &&& file.file_size > stored.session_file.file_size
            &&& file.name_session_id is None || file.name_session_id == Some(session)
            &&& stored.parsed@.checkpoint.completed_offset <= byte_size(file.file_size)
            &&& says_all(stored.parsed@, head)
            &&& stored.parsed@.explicit_forked_from_id is None
            &&& stored.parsed@.inherited_token_snapshot_cutoff == 0
            &&& whole.snapshots.len() <= usize::MAX
            &&& scan.relations.dom().contains(session)
            &&& appended@.raw_session.session_id == session
            &&& appended@.snapshots == tail.snapshots
            &&& appended@.mode == (ParsedSessionMode::Tail {
                previous_usage: stored.parsed@.checkpoint.last_usage,
            })
            &&& scan.leads(
                file,
                scan.start_of(file),
                FileReply::Read { parsed: appended, bytes_read },
                after,
                next,
            )
        }),
    ensures
        read_places(
            scan.repairs,
            scan.import_state@,
            files,
            signatures,
            files.len() as int,
        ) == seq![place],
        scan.start_of(files[place]@) is ReadTail,
        next matches FileStage::Store(prepared) && content_of(prepared.parsed) == content_of(
            appended,
        ),
        after.progress.updated_sessions == scan.progress.updated_sessions.wrapping_add(1),
        after.progress.tail_parsed_files == scan.progress.tail_parsed_files.wrapping_add(1),
        after.progress.fully_parsed_files == scan.progress.fully_parsed_files,
        after.progress.failures == scan.progress.failures,
        ({
            let session = stored.parsed.raw_session.session_id@;
            let whole = after_lines(LogReadingView::fresh(), head_lines + tail_lines, names);
            events_of(
                session,
                whole.snapshots,
                usage_plan(ParsedSessionMode::Full, whole.snapshots, 0, false),
                price,
                names,
            ) == events_of(
                session,
                stored.parsed@.snapshots,
                usage_plan(stored.parsed@.mode, stored.parsed@.snapshots, 0, false),
                price,
                names,
            ) + events_of(
                session,
                appended@.snapshots,
                usage_plan(appended@.mode, appended@.snapshots, 0, false),
                price,
                names,
            )
        }),
{
    let repairs = scan.repairs;
    let import_state = scan.import_state@;
    let file = files[place]@;
    assert forall|index: int| 0 <= index < files.len() implies (is_read(
        repairs,
        import_state,
        (#[trigger] files[index])@,
        opt_bytes(signatures[index]),
    ) <==> index == place) by {
        settled_repairs_force_nothing(repairs, import_state, files[index]@);
        if index == place {
            assert(import_state[file.source_path]@ == stored.stored_state());
        }
    }
    others_are_skipped(repairs, import_state, files, signatures, place, files.len() as int);
    settled_repairs_force_nothing(repairs, import_state, file);
    assert(scan.starts_with_tail(file));

    let head = after_lines(LogReadingView::fresh(), head_lines, names);
    let checkpoint = stored.parsed@.checkpoint;
    let signature = checkpoint.prefix_signature;
    let tail = after_lines(LogReadingView::resumed(checkpoint), tail_lines, names);
    growing_log_is_billed_once(head_lines, tail_lines, names, 0, false, signature, signature);
    lines_read_on(LogReadingView::fresh(), head_lines, tail_lines, names);
    current_model_was_seen(LogReadingView::fresh(), head_lines, names);
    resumed_reading_continues(head, tail_lines, signature, names);
    let whole = after_lines(LogReadingView::fresh(), head_lines + tail_lines, names);
    assert(whole.snapshots == head.snapshots + tail.snapshots);
    let head_plan = usage_plan(ParsedSessionMode::Full, head.snapshots, 0, false);
    let tail_plan = usage_plan(appended@.mode, tail.snapshots, 0, false);
    planned_indices_are_small(head.snapshots, 0, head.snapshots.len() as int, None, false);
    planned_indices_are_small(
        tail.snapshots,
        0,
        tail.snapshots.len() as int,
        checkpoint.last_usage,
        false,
    );
    events_of_parts(
        stored.parsed.raw_session.session_id@,
        head.snapshots,
        tail.snapshots,
        head_plan,
        tail_plan,
        price,
        names,
    );
}

} // verus!
