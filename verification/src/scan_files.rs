//! Which files a scan reads, and which of the stored sources it misses.

use crate::import_state::{
    import_state_session_id_mismatch, is_at_checkpoint_end, parser_checkpoint_prefix_matches,
    prefix_matches, session_id_mismatch, ImportState, ImportStateView, SessionFile,
    SessionFileView,
};
use crate::repairs::{pending_repair_session_ids, RepairStates};
use crate::text::{add_text, list_holds, opt_is, opt_text, same_text, texts, with_text};
use crate::text_map::TextMap;
use vstd::prelude::*;

verus! {

/// How thoroughly a scan looks at the logs.
#[derive(Clone, Copy, Debug, PartialEq, Eq, Structural)]
pub enum ScanKind {
    Full,
    Reconcile,
    Incremental,
}

/// What a prefix signature that could be read holds.
pub open spec fn opt_bytes(bytes: Option<Vec<u8>>) -> Option<Seq<u8>> {
    match bytes {
        Some(found) => Some(found@),
        None => None,
    }
}

/// Whether a file is as it was when it was imported: of the same size, naming the same session,
/// and either of the same age or still ending as its checkpoint remembers it.
pub open spec fn is_unchanged(
    state: ImportStateView,
    file: SessionFileView,
    signature: Option<Seq<u8>>,
) -> bool {
    state.file_size == file.file_size && !session_id_mismatch(state, file) && (state.file_mtime_ms
        == file.file_mtime_ms || prefix_matches(state, file, signature))
}

/// Whether a scan reads a file: a repair asks for it, it was never imported, or it changed.
pub open spec fn is_read(
    repairs: RepairStates,
    import_state: Map<Seq<char>, ImportState>,
    file: SessionFileView,
    signature: Option<Seq<u8>>,
) -> bool {
    repairs.forces(import_state, file) || !import_state.dom().contains(file.source_path)
        || !is_unchanged(import_state[file.source_path]@, file, signature)
}

/// Whether the signature of a file decides if a scan reads it.
pub open spec fn signature_decides(
    repairs: RepairStates,
    import_state: Map<Seq<char>, ImportState>,
    file: SessionFileView,
) -> bool {
    is_read(repairs, import_state, file, None) && exists|signature: Seq<u8>|
        !is_read(repairs, import_state, file, Some(signature))
}

/// Which of the files that a scan found it reads.
#[derive(Debug)]
pub struct FileSelection {
    /// The places of the files that are read.
    pub changed: Vec<usize>,
    /// The sessions of the files that are not, each once.
    pub unchanged_sessions: Vec<String>,
}

/// The places of those of the first `end` files that are read.
pub open spec fn read_places(
    repairs: RepairStates,
    import_state: Map<Seq<char>, ImportState>,
    files: Seq<SessionFile>,
    signatures: Seq<Option<Vec<u8>>>,
    end: int,
) -> Seq<int>
    decreases end,
{
    if end <= 0 {
        Seq::empty()
    } else {
        let earlier = read_places(repairs, import_state, files, signatures, end - 1);
        if is_read(repairs, import_state, files[end - 1]@, opt_bytes(signatures[end - 1])) {
            earlier.push(end - 1)
        } else {
            earlier
        }
    }
}

/// The sessions, each once, of those of the first `end` files that are not read.
pub open spec fn skipped_sessions(
    repairs: RepairStates,
    import_state: Map<Seq<char>, ImportState>,
    files: Seq<SessionFile>,
    signatures: Seq<Option<Vec<u8>>>,
    end: int,
) -> Seq<Seq<char>>
    decreases end,
{
    if end <= 0 {
        Seq::empty()
    } else {
        let earlier = skipped_sessions(repairs, import_state, files, signatures, end - 1);
        let file = files[end - 1]@;
        if is_read(repairs, import_state, file, opt_bytes(signatures[end - 1])) {
            earlier
        } else {
            match opt_text(import_state[file.source_path].session_id) {
                Some(id) => with_text(earlier, id),
                None => earlier,
            }
        }
    }
}

/// Whether the signature of a file must be known to decide if a scan reads it.
pub fn needs_signature(
    repairs: &RepairStates,
    import_state: &TextMap<ImportState>,
    file: &SessionFile,
) -> (result: bool)
    ensures
        result == signature_decides(*repairs, import_state@, file@),
{
    let token_v2_ids = pending_repair_session_ids(import_state, &repairs.token_v2.pending_paths);
    let fork_replay_v3_ids = pending_repair_session_ids(
        import_state,
        &repairs.fork_replay_v3.pending_paths,
    );
    if repairs.forces_file(import_state, file, &token_v2_ids, &fork_replay_v3_ids) {
        return false;
    }
    let state = match import_state.get(file.source_path.as_str()) {
        Some(state) => state,
        None => {
            return false;
        },
    };
    let result = state.file_size == file.file_size && !import_state_session_id_mismatch(
        state,
        file,
    ) && state.file_mtime_ms != file.file_mtime_ms && is_at_checkpoint_end(state, file);
    proof {
        if result {
            let signature = state@.parser_checkpoint->0.prefix_signature;
            assert(!is_read(*repairs, import_state@, file@, Some(signature)));
        }
    }
    result
}

/// Which of the files that a scan found it reads. `signatures` holds for each file what stands
/// before its checkpoint, where that was needed and could be read.
pub fn select_changed_files(
    repairs: &RepairStates,
    import_state: &TextMap<ImportState>,
    files: &Vec<SessionFile>,
    signatures: &Vec<Option<Vec<u8>>>,
) -> (selection: FileSelection)
    requires
        signatures.len() == files.len(),
    ensures
        ({
            let places = read_places(
                *repairs,
                import_state@,
                files@,
                signatures@,
                files.len() as int,
            );
            &&& selection.changed.len() == places.len()
            &&& forall|index: int|
                0 <= index < places.len() ==> #[trigger] selection.changed[index] == places[index]
        }),
        texts(selection.unchanged_sessions@) == skipped_sessions(
            *repairs,
            import_state@,
            files@,
            signatures@,
            files.len() as int,
        ),
{
    let token_v2_ids = pending_repair_session_ids(import_state, &repairs.token_v2.pending_paths);
    let fork_replay_v3_ids = pending_repair_session_ids(
        import_state,
        &repairs.fork_replay_v3.pending_paths,
    );
    let mut changed: Vec<usize> = Vec::new();
    let mut unchanged_sessions: Vec<String> = Vec::new();
    proof {
        assert(texts(unchanged_sessions@) =~= Seq::empty());
    }
    let mut index: usize = 0;
    while index < files.len()
        invariant
            index <= files.len(),
            signatures.len() == files.len(),
            texts(token_v2_ids@) == repairs.token_v2.sessions(import_state@),
            texts(fork_replay_v3_ids@) == repairs.fork_replay_v3.sessions(import_state@),
            changed.len() == read_places(
                *repairs,
                import_state@,
                files@,
                signatures@,
                index as int,
            ).len(),
            forall|done: int|
                0 <= done < changed.len() ==> #[trigger] changed[done] == read_places(
                    *repairs,
                    import_state@,
                    files@,
                    signatures@,
                    index as int,
                )[done],
            texts(unchanged_sessions@) == skipped_sessions(
                *repairs,
                import_state@,
                files@,
                signatures@,
                index as int,
            ),
        decreases files.len() - index,
    {
        let file = &files[index];
        let mut read = true;
        if !repairs.forces_file(import_state, file, &token_v2_ids, &fork_replay_v3_ids) {
            match import_state.get(file.source_path.as_str()) {
                Some(state) => {
                    let unchanged = state.file_size == file.file_size
                        && !import_state_session_id_mismatch(state, file) && (state.file_mtime_ms
                        == file.file_mtime_ms || parser_checkpoint_prefix_matches(
                        state,
                        file,
                        &signatures[index],
                    ));
                    if unchanged {
                        read = false;
                        match &state.session_id {
                            Some(id) => {
                                add_text(&mut unchanged_sessions, id.as_str());
                            },
                            None => {},
                        }
                    }
                },
                None => {},
            }
        }
        proof {
            assert(read == is_read(
                *repairs,
                import_state@,
                file@,
                opt_bytes(signatures[index as int]),
            ));
        }
        if read {
            changed.push(index);
        }
        index = index + 1;
    }
    FileSelection { changed, unchanged_sessions }
}

/// Whether a scan reads the titles of the sessions: unless it is an incremental one that reads no
/// file.
pub fn reads_titles(kind: ScanKind, selection: &FileSelection) -> (read: bool)
    ensures
        read == (kind != ScanKind::Incremental || selection.changed.len() > 0),
{
    kind != ScanKind::Incremental || selection.changed.len() > 0
}

/// A file that was imported and is as it was is read only for a repair.
pub proof fn unchanged_file_is_not_read(
    repairs: RepairStates,
    import_state: Map<Seq<char>, ImportState>,
    file: SessionFileView,
    signature: Option<Seq<u8>>,
)
    requires
        import_state.dom().contains(file.source_path),
        import_state[file.source_path]@.file_size == file.file_size,
        import_state[file.source_path]@.file_mtime_ms == file.file_mtime_ms,
        !session_id_mismatch(import_state[file.source_path]@, file),
    ensures
        is_read(repairs, import_state, file, signature) == repairs.forces(import_state, file),
{
}

/// A stored session and the file that it came from.
#[derive(Clone, Debug)]
pub struct ExistingSessionSource {
    pub session_id: String,
    pub source_path: String,
    pub source_state: String,
    pub source_bucket: Option<String>,
}

/// A session whose file is gone.
#[derive(Clone, Debug)]
pub struct MissingSessionPlan {
    pub session_id: String,
    pub expected_source_path: String,
}

/// What must be done about files that are gone.
#[derive(Clone, Debug)]
pub struct MissingSourcePlan {
    pub sessions_to_mark_missing: Vec<MissingSessionPlan>,
    pub import_state_paths_to_delete: Vec<String>,
}

/// What each missing session of a list holds.
pub open spec fn missing_views(missing: Seq<MissingSessionPlan>) -> Seq<(Seq<char>, Seq<char>)> {
    missing.map_values(
        |plan: MissingSessionPlan| (plan.session_id@, plan.expected_source_path@),
    )
}

/// Whether a file is gone: the scan did not find it, and it is not on disk either or need not be.
pub open spec fn is_gone(
    path: Seq<char>,
    present: Seq<Seq<char>>,
    absent: Seq<Seq<char>>,
    reconcile: bool,
) -> bool {
    !present.contains(path) && (reconcile || absent.contains(path))
}

/// Whether a stored session is missing. A scan of everything looks at all sessions, an
/// incremental one only at active ones, and never takes a file on disk for gone.
pub open spec fn is_missing(
    source: ExistingSessionSource,
    present: Seq<Seq<char>>,
    absent: Seq<Seq<char>>,
    kind: ScanKind,
    reconcile: bool,
) -> bool {
    match kind {
        ScanKind::Incremental => source.source_state@ == "active"@ && opt_text(
            source.source_bucket,
        ) == Some("active"@) && is_gone(source.source_path@, present, absent, false),
        _ => is_gone(source.source_path@, present, absent, reconcile),
    }
}

/// The missing ones of the first `end` sessions.
pub open spec fn missing_sessions(
    sources: Seq<ExistingSessionSource>,
    present: Seq<Seq<char>>,
    absent: Seq<Seq<char>>,
    kind: ScanKind,
    reconcile: bool,
    end: int,
) -> Seq<(Seq<char>, Seq<char>)>
    decreases end,
{
    if end <= 0 {
        Seq::empty()
    } else {
        let earlier = missing_sessions(sources, present, absent, kind, reconcile, end - 1);
        let source = sources[end - 1];
        if is_missing(source, present, absent, kind, reconcile) {
            earlier.push((source.session_id@, source.source_path@))
        } else {
            earlier
        }
    }
}

/// Those of the first `end` paths that are gone.
pub open spec fn gone_paths(
    paths: Seq<Seq<char>>,
    present: Seq<Seq<char>>,
    absent: Seq<Seq<char>>,
    reconcile: bool,
    end: int,
) -> Seq<Seq<char>>
    decreases end,
{
    if end <= 0 {
        Seq::empty()
    } else {
        let earlier = gone_paths(paths, present, absent, reconcile, end - 1);
        if is_gone(paths[end - 1], present, absent, reconcile) {
            earlier.push(paths[end - 1])
        } else {
            earlier
        }
    }
}

/// The paths in a list of missing sessions.
pub open spec fn missing_paths(missing: Seq<(Seq<char>, Seq<char>)>) -> Seq<Seq<char>> {
    missing.map_values(|plan: (Seq<char>, Seq<char>)| plan.1)
}

fn path_is_gone(
    path: &str,
    present: &Vec<String>,
    absent: &Vec<String>,
    reconcile: bool,
) -> (gone: bool)
    ensures
        gone == is_gone(path@, texts(present@), texts(absent@), reconcile),
{
    !list_holds(present, path) && (reconcile || list_holds(absent, path))
}

/// What must be done about files that are gone. `present_paths` are the files that the scan
/// found, `absent_paths` those of the others that are not on disk. A scan that follows a change
/// of the source takes whatever it did not find for gone, wherever it is.
pub fn prepare_missing_source_plan(
    existing_sources: &Vec<ExistingSessionSource>,
    import_state: &TextMap<ImportState>,
    present_paths: &Vec<String>,
    absent_paths: &Vec<String>,
    scan_kind: ScanKind,
    reconcile_existing_absent_sources: bool,
) -> (plan: MissingSourcePlan)
    ensures
        ({
            let present = texts(present_paths@);
            let absent = texts(absent_paths@);
            let missing = missing_sessions(
                existing_sources@,
                present,
                absent,
                scan_kind,
                reconcile_existing_absent_sources,
                existing_sources.len() as int,
            );
            &&& missing_views(plan.sessions_to_mark_missing@) == missing
            &&& texts(plan.import_state_paths_to_delete@) == if scan_kind
                == ScanKind::Incremental {
                missing_paths(missing)
            } else {
                gone_paths(
                    import_state.order(),
                    present,
                    absent,
                    reconcile_existing_absent_sources,
                    import_state.order().len() as int,
                )
            }
        }),
{
    let incremental = scan_kind == ScanKind::Incremental;
    let reconcile = reconcile_existing_absent_sources && !incremental;
    let ghost present = texts(present_paths@);
    let ghost absent = texts(absent_paths@);
    let mut sessions: Vec<MissingSessionPlan> = Vec::new();
    let mut paths: Vec<String> = Vec::new();
    proof {
        assert(missing_views(sessions@) =~= Seq::empty());
        assert(texts(paths@) =~= Seq::empty());
        assert(missing_paths(missing_views(sessions@)) =~= Seq::empty());
    }
    let mut index: usize = 0;
    while index < existing_sources.len()
        invariant
            index <= existing_sources.len(),
            incremental == (scan_kind == ScanKind::Incremental),
            reconcile == (reconcile_existing_absent_sources && !incremental),
            present == texts(present_paths@),
            absent == texts(absent_paths@),
            missing_views(sessions@) == missing_sessions(
                existing_sources@,
                present,
                absent,
                scan_kind,
                reconcile_existing_absent_sources,
                index as int,
            ),
            incremental ==> texts(paths@) == missing_paths(missing_views(sessions@)),
            !incremental ==> texts(paths@) == Seq::<Seq<char>>::empty(),
        decreases existing_sources.len() - index,
    {
        let source = &existing_sources[index];
        let ghost before = sessions@;
        let ghost paths_before = paths@;
        let looked_at = !incremental || (same_text(source.source_state.as_str(), "active")
            && opt_is(&source.source_bucket, "active"));
        if looked_at && path_is_gone(
            source.source_path.as_str(),
            present_paths,
            absent_paths,
            reconcile,
        ) {
            let missing = MissingSessionPlan {
                session_id: source.session_id.clone(),
                expected_source_path: source.source_path.clone(),
            };
            sessions.push(missing);
            proof {
                assert(missing_views(sessions@) =~= missing_views(before).push(
                    (source.session_id@, source.source_path@),
                ));
            }
            if incremental {
                paths.push(source.source_path.clone());
                proof {
                    assert(texts(paths@) =~= texts(paths_before).push(source.source_path@));
                    assert(missing_paths(missing_views(sessions@)) =~= missing_paths(
                        missing_views(before),
                    ).push(source.source_path@));
                }
            }
        }
        index = index + 1;
    }
    if !incremental {
        let count = import_state.len();
        let mut place: usize = 0;
        while place < count
            invariant
                place <= count,
                count == import_state.order().len(),
                present == texts(present_paths@),
                absent == texts(absent_paths@),
                texts(paths@) == gone_paths(
                    import_state.order(),
                    present,
                    absent,
                    reconcile,
                    place as int,
                ),
            decreases count - place,
        {
            let entry = import_state.entry(place);
            let ghost before = paths@;
            if path_is_gone(entry.0, present_paths, absent_paths, reconcile) {
                paths.push(entry.0.to_owned());
                proof {
                    assert(texts(paths@) =~= texts(before).push(entry.0@));
                }
            }
            place = place + 1;
        }
    }
    MissingSourcePlan {
        sessions_to_mark_missing: sessions,
        import_state_paths_to_delete: paths,
    }
}

/// A file that the scan found is never taken for gone.
pub proof fn found_files_are_kept(
    paths: Seq<Seq<char>>,
    present: Seq<Seq<char>>,
    absent: Seq<Seq<char>>,
    reconcile: bool,
    end: int,
    index: int,
)
    requires
        0 <= end <= paths.len(),
        0 <= index < gone_paths(paths, present, absent, reconcile, end).len(),
    ensures
        !present.contains(gone_paths(paths, present, absent, reconcile, end)[index]),
        !reconcile ==> absent.contains(gone_paths(paths, present, absent, reconcile, end)[index]),
    decreases end,
{
    if end > 0 {
        let earlier = gone_paths(paths, present, absent, reconcile, end - 1);
        if index < earlier.len() {
            found_files_are_kept(paths, present, absent, reconcile, end - 1, index);
        }
    }
}

} // verus!
