//! Which files a scan reads, which it leaves, and which it misses.

use crate::file_order::{is_before, sorts};
use crate::import_state::{tail_is_readable, ImportState, SessionFile, SessionFileView};
use crate::paths::{order_of_paths, PathOrder};
use crate::repairs::RepairStates;
use crate::scan_files::{
    gone_paths, is_gone, is_missing, is_read, missing_paths, missing_sessions, opt_bytes,
    read_places, signature_decides, skipped_sessions, ExistingSessionSource, ScanKind,
};
use crate::session_log_laws::added_text_is_there;
use crate::text::opt_text;
use vstd::prelude::*;

verus! {

/// Whether a file carries another session in its name than the one that it was imported as.
pub open spec fn names_another_session(state: ImportState, file: SessionFileView) -> bool {
    state.session_id is Some && file.name_session_id is Some && state.session_id->0@
        != file.name_session_id->0
}

/// Whether a file still ends as it did when it was read to its end: its checkpoint stands at its
/// end, and the same bytes stand before it.
pub open spec fn ends_as_before(
    state: ImportState,
    file: SessionFileView,
    signature: Option<Seq<u8>>,
) -> bool {
    &&& state.parser_checkpoint is Some
    &&& signature is Some
    &&& state.parser_checkpoint->0.completed_offset == if file.file_size < 0 {
        0int
    } else {
        file.file_size as int
    }
    &&& state.parser_checkpoint->0.prefix_signature@ == signature->0
}

/// A file without a repair is left unread exactly where it was imported, has the size that it had,
/// does not name another session, and is as old as it was or ends as it did.
pub proof fn only_unchanged_files_are_left(
    repairs: RepairStates,
    import_state: Map<Seq<char>, ImportState>,
    file: SessionFileView,
    signature: Option<Seq<u8>>,
)
    ensures
        !is_read(repairs, import_state, file, signature) <==> {
            let state = import_state[file.source_path];
            &&& !repairs.forces(import_state, file)
            &&& import_state.dom().contains(file.source_path)
            &&& state.file_size == file.file_size
            &&& !names_another_session(state, file)
            &&& state.file_mtime_ms == file.file_mtime_ms || ends_as_before(state, file, signature)
        },
{
}

/// A file that grew or shrank is read, whatever else is known of it.
pub proof fn resized_file_is_read(
    repairs: RepairStates,
    import_state: Map<Seq<char>, ImportState>,
    file: SessionFileView,
    signature: Option<Seq<u8>>,
)
    requires
        import_state.dom().contains(file.source_path) ==> import_state[file.source_path].file_size
            != file.file_size,
    ensures
        is_read(repairs, import_state, file, signature),
{
}

/// Whether a list of places is in order.
pub open spec fn is_in_order(places: Seq<int>) -> bool {
    forall|left: int, right: int|
        0 <= left < right < places.len() ==> #[trigger] places[left] < #[trigger] places[right]
}

/// The places of the files that are read are all of them, in order, and no others.
pub proof fn every_changed_file_is_read(
    repairs: RepairStates,
    import_state: Map<Seq<char>, ImportState>,
    files: Seq<SessionFile>,
    signatures: Seq<Option<Vec<u8>>>,
    place: int,
)
    requires
        0 <= place < files.len(),
    ensures
        is_in_order(read_places(repairs, import_state, files, signatures, files.len() as int)),
        read_places(repairs, import_state, files, signatures, files.len() as int).contains(place)
            <==> is_read(repairs, import_state, files[place]@, opt_bytes(signatures[place])),
        forall|index: int|
            0 <= index < read_places(
                repairs,
                import_state,
                files,
                signatures,
                files.len() as int,
            ).len() ==> 0 <= #[trigger] read_places(
                repairs,
                import_state,
                files,
                signatures,
                files.len() as int,
            )[index] < files.len(),
{
    let end = files.len() as int;
    read_places_are_in_order(repairs, import_state, files, signatures, end);
    changed_file_is_listed(repairs, import_state, files, signatures, end, place);
}

proof fn read_places_are_in_order(
    repairs: RepairStates,
    import_state: Map<Seq<char>, ImportState>,
    files: Seq<SessionFile>,
    signatures: Seq<Option<Vec<u8>>>,
    end: int,
)
    requires
        0 <= end,
    ensures
        is_in_order(read_places(repairs, import_state, files, signatures, end)),
        forall|index: int|
            0 <= index < read_places(repairs, import_state, files, signatures, end).len() ==> 0
                <= #[trigger] read_places(repairs, import_state, files, signatures, end)[index]
                < end,
    decreases end,
{
    if end > 0 {
        read_places_are_in_order(repairs, import_state, files, signatures, end - 1);
    }
}

proof fn changed_file_is_listed(
    repairs: RepairStates,
    import_state: Map<Seq<char>, ImportState>,
    files: Seq<SessionFile>,
    signatures: Seq<Option<Vec<u8>>>,
    end: int,
    place: int,
)
    requires
        0 <= end,
        0 <= place,
    ensures
        read_places(repairs, import_state, files, signatures, end).contains(place) <==> place < end
            && is_read(repairs, import_state, files[place]@, opt_bytes(signatures[place])),
    decreases end,
{
    let places = read_places(repairs, import_state, files, signatures, end);
    if end > 0 {
        changed_file_is_listed(repairs, import_state, files, signatures, end - 1, place);
        let earlier = read_places(repairs, import_state, files, signatures, end - 1);
        let added = is_read(
            repairs,
            import_state,
            files[end - 1]@,
            opt_bytes(signatures[end - 1]),
        );
        place_is_added(earlier, places, end - 1, added, place);
    }
}

proof fn place_is_added(earlier: Seq<int>, places: Seq<int>, last: int, added: bool, place: int)
    requires
        places == if added {
            earlier.push(last)
        } else {
            earlier
        },
    ensures
        places.contains(place) <==> earlier.contains(place) || (added && place == last),
{
    if earlier.contains(place) {
        let index = choose|index: int| 0 <= index < earlier.len() && earlier[index] == place;
        assert(places[index] == place);
    }
    if added {
        assert(places[earlier.len() as int] == last);
    }
    if places.contains(place) {
        let index = choose|index: int| 0 <= index < places.len() && places[index] == place;
        if index < earlier.len() {
            assert(earlier[index] == place);
        }
    }
}

/// The sessions that are taken for unchanged are those of the files that are left, each once.
pub proof fn left_files_keep_their_sessions(
    repairs: RepairStates,
    import_state: Map<Seq<char>, ImportState>,
    files: Seq<SessionFile>,
    signatures: Seq<Option<Vec<u8>>>,
    end: int,
    session_id: Seq<char>,
)
    requires
        0 <= end <= files.len(),
    ensures
        skipped_sessions(repairs, import_state, files, signatures, end).contains(session_id)
            <==> exists|place: int|
            0 <= place < end && !is_read(
                repairs,
                import_state,
                (#[trigger] files[place])@,
                opt_bytes(signatures[place]),
            ) && opt_text(import_state[files[place].source_path@].session_id) == Some(session_id),
        skipped_sessions(repairs, import_state, files, signatures, end).no_duplicates(),
    decreases end,
{
    if end > 0 {
        left_files_keep_their_sessions(
            repairs,
            import_state,
            files,
            signatures,
            end - 1,
            session_id,
        );
        let earlier = skipped_sessions(repairs, import_state, files, signatures, end - 1);
        let last = files[end - 1];
        if let Some(id) = opt_text(import_state[last.source_path@].session_id) {
            added_text_is_there(earlier, id);
        }
        if earlier.contains(session_id) {
            let place = choose|place: int|
                0 <= place < end - 1 && !is_read(
                    repairs,
                    import_state,
                    (#[trigger] files[place])@,
                    opt_bytes(signatures[place]),
                ) && opt_text(import_state[files[place].source_path@].session_id) == Some(
                    session_id,
                );
            assert(files[place] == files[place]);
        }
        assert(files[end - 1] == last);
    }
}

/// What was appended to a file is read on its own exactly where the file is active and was when it
/// was imported, its session is known and its name carries no other, it has grown, and it reaches
/// at least as far as it was read.
pub proof fn only_grown_active_files_are_read_on(state: ImportState, file: SessionFileView)
    ensures
        tail_is_readable(state@, file) <==> {
            &&& state.session_id is Some
            &&& state.source_bucket@ == "active"@
            &&& file.bucket == "active"@
            &&& file.file_size > state.file_size
            &&& !names_another_session(state, file)
            &&& state.parser_checkpoint is Some
            &&& state.parser_checkpoint->0.completed_offset <= if file.file_size < 0 {
                0int
            } else {
                file.file_size as int
            }
        },
{
}

/// Whether a session is looked at when files are missed: all of them, or in an incremental scan the
/// active ones whose file was active.
pub open spec fn is_looked_at(source: ExistingSessionSource, kind: ScanKind) -> bool {
    kind != ScanKind::Incremental || (source.source_state@ == "active"@ && opt_text(
        source.source_bucket,
    ) == Some("active"@))
}

/// A session is missing exactly where it is looked at, the scan did not find its file, and the file
/// is not on disk; after a change of the source a file on disk does not count either, but for an
/// incremental scan.
pub proof fn session_is_missing_without_its_file(
    source: ExistingSessionSource,
    present: Seq<Seq<char>>,
    absent: Seq<Seq<char>>,
    kind: ScanKind,
    reconcile: bool,
)
    ensures
        is_missing(source, present, absent, kind, reconcile) <==> {
            &&& is_looked_at(source, kind)
            &&& !present.contains(source.source_path@)
            &&& absent.contains(source.source_path@) || (reconcile && kind
                != ScanKind::Incremental)
        },
        forall|path: Seq<char>| #[trigger]
            is_gone(path, present, absent, reconcile) <==> !present.contains(path) && (
            absent.contains(path) || reconcile),
{
}

/// The missing sessions are all of them, each with its own file, and no others.
pub proof fn every_missing_session_is_found(
    sources: Seq<ExistingSessionSource>,
    present: Seq<Seq<char>>,
    absent: Seq<Seq<char>>,
    kind: ScanKind,
    reconcile: bool,
    end: int,
    session: (Seq<char>, Seq<char>),
)
    requires
        0 <= end <= sources.len(),
    ensures
        missing_sessions(sources, present, absent, kind, reconcile, end).contains(session)
            <==> exists|place: int|
            0 <= place < end && (#[trigger] sources[place]).session_id@ == session.0
                && sources[place].source_path@ == session.1 && is_missing(
                sources[place],
                present,
                absent,
                kind,
                reconcile,
            ),
        missing_sessions(sources, present, absent, kind, reconcile, end).len() == sources.take(
            end,
        ).filter(
            |source: ExistingSessionSource| is_missing(source, present, absent, kind, reconcile),
        ).len(),
    decreases end,
{
    reveal(Seq::filter);
    if end > 0 {
        every_missing_session_is_found(
            sources,
            present,
            absent,
            kind,
            reconcile,
            end - 1,
            session,
        );
        let earlier = missing_sessions(sources, present, absent, kind, reconcile, end - 1);
        let all = missing_sessions(sources, present, absent, kind, reconcile, end);
        let last = sources[end - 1];
        assert(sources.take(end).drop_last() =~= sources.take(end - 1));
        assert(sources.take(end).last() == last);
        if earlier.contains(session) {
            let index = choose|index: int| 0 <= index < earlier.len() && earlier[index] == session;
            assert(all[index] == session);
            let place = choose|place: int|
                0 <= place < end - 1 && (#[trigger] sources[place]).session_id@ == session.0
                    && sources[place].source_path@ == session.1 && is_missing(
                    sources[place],
                    present,
                    absent,
                    kind,
                    reconcile,
                );
            assert(sources[place] == sources[place]);
        }
        if all.contains(session) && !earlier.contains(session) {
            let index = choose|index: int| 0 <= index < all.len() && all[index] == session;
            if index < earlier.len() {
                assert(earlier[index] == session);
            }
            assert(sources[end - 1] == last);
        }
        if all != earlier {
            assert(all[earlier.len() as int] == (last.session_id@, last.source_path@));
        }
    }
}

/// What is forgotten of imported files is all of those that are gone, and of no others.
pub proof fn every_gone_file_is_forgotten(
    paths: Seq<Seq<char>>,
    present: Seq<Seq<char>>,
    absent: Seq<Seq<char>>,
    reconcile: bool,
    end: int,
    path: Seq<char>,
)
    requires
        0 <= end <= paths.len(),
    ensures
        gone_paths(paths, present, absent, reconcile, end).contains(path) <==> paths.take(
            end,
        ).contains(path) && !present.contains(path) && (reconcile || absent.contains(path)),
    decreases end,
{
    let whole = paths.take(end);
    if end > 0 {
        every_gone_file_is_forgotten(paths, present, absent, reconcile, end - 1, path);
        let front = paths.take(end - 1);
        let earlier = gone_paths(paths, present, absent, reconcile, end - 1);
        let all = gone_paths(paths, present, absent, reconcile, end);
        if front.contains(path) {
            let index = choose|index: int| 0 <= index < front.len() && front[index] == path;
            assert(whole[index] == path);
        }
        if whole.contains(path) && path != paths[end - 1] {
            let index = choose|index: int| 0 <= index < whole.len() && whole[index] == path;
            assert(front[index] == path);
        }
        assert(whole[end - 1] == paths[end - 1]);
        if earlier.contains(path) {
            let index = choose|index: int| 0 <= index < earlier.len() && earlier[index] == path;
            assert(all[index] == path);
        }
        if all.contains(path) && !earlier.contains(path) {
            let index = choose|index: int| 0 <= index < all.len() && all[index] == path;
            if index < earlier.len() {
                assert(earlier[index] == path);
            }
        }
        if all != earlier {
            assert(all[earlier.len() as int] == paths[end - 1]);
        }
    }
}

/// The bytes before a checkpoint decide whether a file is read exactly where nothing else does: no
/// repair asks for the file, it has the size and names the session that it had, but is of another
/// age, and its checkpoint stands at its end.
pub proof fn bytes_decide_where_nothing_else_does(
    repairs: RepairStates,
    import_state: Map<Seq<char>, ImportState>,
    file: SessionFileView,
)
    ensures
        signature_decides(repairs, import_state, file) <==> {
            let state = import_state[file.source_path];
            &&& !repairs.forces(import_state, file)
            &&& import_state.dom().contains(file.source_path)
            &&& state.file_size == file.file_size
            &&& state.file_mtime_ms != file.file_mtime_ms
            &&& !names_another_session(state, file)
            &&& state.parser_checkpoint is Some
            &&& state.parser_checkpoint->0.completed_offset == if file.file_size < 0 {
                0int
            } else {
                file.file_size as int
            }
        },
{
    let state = import_state[file.source_path];
    if state.parser_checkpoint is Some {
        let bytes = state.parser_checkpoint->0.prefix_signature@;
        only_unchanged_files_are_left(repairs, import_state, file, Some(bytes));
    }
    only_unchanged_files_are_left(repairs, import_state, file, None);
    if signature_decides(repairs, import_state, file) {
        let bytes = choose|bytes: Seq<u8>| !is_read(repairs, import_state, file, Some(bytes));
        only_unchanged_files_are_left(repairs, import_state, file, Some(bytes));
    }
}

/// What an incremental scan forgets of imported files are the files of the missing sessions.
pub proof fn files_of_missing_sessions_are_forgotten(
    missing: Seq<(Seq<char>, Seq<char>)>,
    index: int,
)
    requires
        0 <= index < missing.len(),
    ensures
        missing_paths(missing).len() == missing.len(),
        missing_paths(missing)[index] == missing[index].1,
{
}

/// Files in the order of their paths are the same files: none is lost, none is new, and none stands
/// behind one that its path comes before.
pub proof fn sorting_loses_no_file(
    files: Seq<SessionFileView>,
    sorted: Seq<SessionFileView>,
    file: SessionFileView,
)
    requires
        sorts(files, sorted),
    ensures
        sorted.len() == files.len(),
        sorted.contains(file) <==> files.contains(file),
        forall|front: int, back: int|
            0 <= front < back < sorted.len() ==> order_of_paths(
                (#[trigger] sorted[back]).source_path,
                (#[trigger] sorted[front]).source_path,
            ) != PathOrder::Before,
{
    broadcast use vstd::seq_lib::group_to_multiset_ensures;

    assert(sorted.to_multiset().len() == files.to_multiset().len());
    assert(sorted.contains(file) <==> sorted.to_multiset().count(file) > 0);
    assert(files.contains(file) <==> files.to_multiset().count(file) > 0);
    assert forall|front: int, back: int| 0 <= front < back < sorted.len() implies order_of_paths(
        (#[trigger] sorted[back]).source_path,
        (#[trigger] sorted[front]).source_path,
    ) != PathOrder::Before by {
        assert(!is_before(sorted[back], sorted[front]));
    }
}

} // verus!
