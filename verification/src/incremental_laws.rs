//! What an incremental scan looks at: everything that it has a reason to, and nothing else.

use crate::import_state::{ImportState, SessionFileView};
use crate::incremental::{
    file_at, recent_paths, IncrementalContext, IncrementalView, ScanPathsView, SourceRoot,
};
use crate::paths::{path_below, path_file_name, path_is_under};
use crate::session_log_laws::added_text_is_there;
use crate::text::{opt_text, texts, with_text};
use vstd::prelude::*;

verus! {

/// What is remembered of the session at a place.
pub open spec fn session_at(context: IncrementalContext, place: int) -> ImportState {
    context.import_state@[context.import_state.order()[place]]
}

/// Whether a known session is an active one whose file is at this path.
pub open spec fn is_active_file(context: IncrementalContext, place: int, path: Seq<char>) -> bool {
    0 <= place < context.import_state.order().len() && session_at(
        context,
        place,
    ).source_bucket@ == "active"@ && session_at(context, place).source_path@ == path
}

/// Whether a file that waits for a repair is at this path, below this root.
pub open spec fn is_waiting_file(
    context: IncrementalContext,
    paths: ScanPathsView,
    index: int,
    path: Seq<char>,
    root: SourceRoot,
) -> bool {
    0 <= index < context.pending_repair_paths.len() && context.pending_repair_paths[index]@ == path
        && index < paths.pending_roots.len() && paths.pending_roots[index] == Some(root)
}

/// Whether an archived file waits for a repair, by its path or by its session.
pub open spec fn waits_for_repair(context: IncrementalContext, state: ImportState) -> bool {
    texts(context.pending_repair_paths@).contains(state.source_path@) || session_waits(
        context,
        state,
    )
}

/// Whether the session of a file waits for a repair.
pub open spec fn session_waits(context: IncrementalContext, state: ImportState) -> bool {
    state.session_id is Some && texts(context.pending_repair_session_ids@).contains(
        state.session_id->0@,
    )
}

/// Whether a file was not read to the end that it had.
pub open spec fn was_left_unfinished(state: ImportState) -> bool {
    state.parser_checkpoint is Some && state.parser_checkpoint->0.completed_offset
        < state.file_size
}

/// Whether an archived file is looked at again: it is on disk, its session waits for a repair, or
/// it waits itself or was left unfinished and is of another size or age than it was.
pub open spec fn is_looked_at_again(context: IncrementalContext, state: ImportState) -> bool {
    let disk = context.disk@;
    let path = state.source_path@;
    disk.dom().contains(path) && (session_waits(context, state) || ((waits_for_repair(
        context,
        state,
    ) || was_left_unfinished(state)) && (disk[path].file_size != state.file_size
        || disk[path].file_mtime_ms != state.file_mtime_ms)))
}

/// Archived files are looked at again for these reasons and no others.
pub proof fn archived_files_are_looked_at_again(context: IncrementalContext, state: ImportState)
    ensures
        context.rereads(state@) <==> is_looked_at_again(context, state),
{
}

/// Whether a known session is an archived one whose file, at this path, is looked at again.
pub open spec fn is_archived_file(
    context: IncrementalContext,
    place: int,
    path: Seq<char>,
) -> bool {
    0 <= place < context.import_state.order().len() && session_at(
        context,
        place,
    ).source_bucket@ == "archived"@ && session_at(context, place).source_path@ == path
        && is_looked_at_again(context, session_at(context, place))
}

/// Whether a known session is an active one whose file would lie in the archive at this path.
pub open spec fn is_archived_copy(
    context: IncrementalContext,
    paths: ScanPathsView,
    place: int,
    path: Seq<char>,
) -> bool {
    0 <= place < context.import_state.order().len() && session_at(
        context,
        place,
    ).source_bucket@ == "active"@ && place < paths.archived_copies.len()
        && paths.archived_copies[place] == Some(path)
}

proof fn file_is_gathered(view: IncrementalView, file: SessionFileView)
    ensures
        view.with_file(file).collected.contains(file.source_path),
        forall|path: Seq<char>| #[trigger]
            view.collected.contains(path) ==> view.with_file(file).collected.contains(path),
        view.with_file(file).kept == view.kept,
{
    let next = view.with_file(file);
    if !view.collected.contains(file.source_path) {
        assert(next.collected[view.collected.len() as int] == file.source_path);
        assert forall|path: Seq<char>| #[trigger]
            view.collected.contains(path) implies next.collected.contains(path) by {
            let index = choose|index: int|
                0 <= index < view.collected.len() && view.collected[index] == path;
            assert(next.collected[index] == path);
        }
    }
}

proof fn file_on_disk_is_gathered(
    view: IncrementalView,
    context: IncrementalContext,
    path: Seq<char>,
    bucket: Seq<char>,
)
    ensures
        context.disk@.dom().contains(path) ==> view.with_file_at(
            context,
            path,
            bucket,
        ).collected.contains(path),
        forall|other: Seq<char>| #[trigger]
            view.collected.contains(other) ==> view.with_file_at(
                context,
                path,
                bucket,
            ).collected.contains(other),
        view.with_file_at(context, path, bucket).kept == view.kept,
{
    if let Some(file) = file_at(context.disk@, path, bucket) {
        file_is_gathered(view, file);
    }
}

proof fn archived_file_is_gathered(
    view: IncrementalView,
    context: IncrementalContext,
    paths: ScanPathsView,
    place: int,
)
    requires
        0 <= place < context.import_state.order().len(),
    ensures
        ({
            let state = session_at(context, place);
            let copy = paths.archived_copy(place);
            let next = view.with_archived(context, state@, copy);
            &&& is_archived_file(context, place, state.source_path@) ==> next.collected.contains(
                state.source_path@,
            )
            &&& state.source_bucket@ == "active"@ && copy is Some
                && context.disk@.dom().contains(copy->0) ==> next.collected.contains(
                state.source_path@,
            ) || (next.collected.contains(copy->0) && next.kept.contains(state.source_path@))
            &&& forall|path: Seq<char>| #[trigger]
                view.collected.contains(path) ==> next.collected.contains(path)
            &&& forall|path: Seq<char>| #[trigger]
                view.kept.contains(path) ==> next.kept.contains(path)
        }),
{
    reveal_strlit("active");
    reveal_strlit("archived");
    assert("active"@.len() != "archived"@.len());
    let state = session_at(context, place);
    archived_files_are_looked_at_again(context, state);
    file_on_disk_is_gathered(view, context, state.source_path@, "archived"@);
    added_text_is_there(view.kept, state.source_path@);
    if let Some(copy) = paths.archived_copy(place) {
        let noted = IncrementalView {
            kept: with_text(view.kept, state.source_path@),
            ..view
        };
        file_on_disk_is_gathered(noted, context, copy, "archived"@);
    }
}

proof fn active_files_are_gathered(
    context: IncrementalContext,
    start: IncrementalView,
    end: int,
    place: int,
    path: Seq<char>,
)
    requires
        0 <= end <= context.import_state.order().len(),
    ensures
        start.collected.contains(path) ==> context.after_active(start, end).collected.contains(
            path,
        ),
        place < end && is_active_file(context, place, path) && context.disk@.dom().contains(path)
            ==> context.after_active(start, end).collected.contains(path),
    decreases end,
{
    if end > 0 {
        active_files_are_gathered(context, start, end - 1, place, path);
        let before = context.after_active(start, end - 1);
        file_on_disk_is_gathered(
            before,
            context,
            session_at(context, end - 1).source_path@,
            "active"@,
        );
    }
}

proof fn waiting_files_are_gathered(
    context: IncrementalContext,
    paths: ScanPathsView,
    start: IncrementalView,
    end: int,
    index: int,
    path: Seq<char>,
    root: SourceRoot,
)
    requires
        0 <= end <= context.pending_repair_paths.len(),
    ensures
        start.collected.contains(path) ==> context.after_pending(
            paths,
            start,
            end,
        ).collected.contains(path),
        index < end && is_waiting_file(context, paths, index, path, root)
            && context.disk@.dom().contains(path) ==> context.after_pending(
            paths,
            start,
            end,
        ).collected.contains(path),
    decreases end,
{
    if end > 0 {
        waiting_files_are_gathered(context, paths, start, end - 1, index, path, root);
        let before = context.after_pending(paths, start, end - 1);
        let waiting = texts(context.pending_repair_paths@)[end - 1];
        file_on_disk_is_gathered(before, context, waiting, "active"@);
        file_on_disk_is_gathered(before, context, waiting, "archived"@);
    }
}

proof fn archived_files_are_gathered(
    context: IncrementalContext,
    paths: ScanPathsView,
    start: IncrementalView,
    end: int,
    place: int,
    path: Seq<char>,
)
    requires
        0 <= end <= context.import_state.order().len(),
    ensures
        ({
            let result = context.after_archived(paths, start, end);
            &&& start.collected.contains(path) ==> result.collected.contains(path)
            &&& place < end && is_archived_file(context, place, path) ==> result.collected.contains(
                path,
            )
            &&& place < end && is_archived_copy(context, paths, place, path)
                && context.disk@.dom().contains(path) ==> result.collected.contains(
                session_at(context, place).source_path@,
            ) || (result.collected.contains(path) && result.kept.contains(
                session_at(context, place).source_path@,
            ))
        }),
    decreases end,
{
    if end > 0 {
        archived_files_are_gathered(context, paths, start, end - 1, place, path);
        let before = context.after_archived(paths, start, end - 1);
        archived_file_is_gathered(before, context, paths, end - 1);
    }
}

/// Nothing is overlooked: what is recent is gathered, and so is every file on disk of a session
/// that is known to be active, every one that waits for a repair below one of the two roots, and
/// every archived one that is looked at again.
pub proof fn nothing_is_overlooked(
    context: IncrementalContext,
    paths: ScanPathsView,
    start: IncrementalView,
    path: Seq<char>,
    place: int,
    root: SourceRoot,
)
    ensures
        ({
            let gathered = context.gathered(paths, start).collected;
            &&& start.collected.contains(path) ==> gathered.contains(path)
            &&& is_active_file(context, place, path) && context.disk@.dom().contains(path)
                ==> gathered.contains(path)
            &&& is_waiting_file(context, paths, place, path, root) && context.disk@.dom().contains(
                path,
            ) ==> gathered.contains(path)
            &&& is_archived_file(context, place, path) ==> gathered.contains(path)
        }),
{
    let sessions = context.import_state.order().len() as int;
    let waiting = context.pending_repair_paths.len() as int;
    let active = context.after_active(start, sessions);
    let pending = context.after_pending(paths, active, waiting);
    active_files_are_gathered(context, start, sessions, place, path);
    waiting_files_are_gathered(context, paths, active, waiting, place, path, root);
    archived_files_are_gathered(context, paths, pending, sessions, place, path);
}

/// An active file that was archived is followed: where a copy of it lies in the archive, either the
/// file itself is gathered or the copy is, and then the file counts as present.
pub proof fn archived_copy_is_followed(
    context: IncrementalContext,
    paths: ScanPathsView,
    start: IncrementalView,
    place: int,
    copy: Seq<char>,
)
    requires
        is_archived_copy(context, paths, place, copy),
        context.disk@.dom().contains(copy),
    ensures
        ({
            let gathered = context.gathered(paths, start);
            let own = session_at(context, place).source_path@;
            gathered.collected.contains(own) || (gathered.collected.contains(copy)
                && gathered.kept.contains(own))
        }),
{
    let sessions = context.import_state.order().len() as int;
    let waiting = context.pending_repair_paths.len() as int;
    let active = context.after_active(start, sessions);
    let pending = context.after_pending(paths, active, waiting);
    archived_files_are_gathered(context, paths, pending, sessions, place, copy);
}

/// Whether there is a reason to look at the file at a path, as the kind of file that it is taken
/// for.
pub open spec fn has_reason(
    context: IncrementalContext,
    paths: ScanPathsView,
    path: Seq<char>,
    bucket: Seq<char>,
) -> bool {
    ||| bucket == "active"@ && exists|place: int| #[trigger] is_active_file(context, place, path)
    ||| bucket == "active"@ && exists|index: int| #[trigger]
        is_waiting_file(context, paths, index, path, SourceRoot::Active)
    ||| bucket == "archived"@ && exists|index: int| #[trigger]
        is_waiting_file(context, paths, index, path, SourceRoot::Archived)
    ||| bucket == "archived"@ && exists|place: int| #[trigger]
        is_archived_file(context, place, path)
    ||| bucket == "archived"@ && exists|place: int| #[trigger]
        is_archived_copy(context, paths, place, path)
}

/// Whether a file is as it is on disk.
pub open spec fn is_as_on_disk(context: IncrementalContext, file: SessionFileView) -> bool {
    let disk = context.disk@;
    let path = file.source_path;
    disk.dom().contains(path) && file.file_size == disk[path].file_size && file.file_mtime_ms
        == disk[path].file_mtime_ms && file.name_session_id == opt_text(disk[path].name_session_id)
}

/// Whether every gathered file was there at the start, or is on disk and there is a reason to look
/// at it.
pub open spec fn is_reasonable(
    gathered: IncrementalView,
    context: IncrementalContext,
    paths: ScanPathsView,
    start: IncrementalView,
) -> bool {
    forall|index: int|
        0 <= index < gathered.files.len() ==> start.files.contains(#[trigger] gathered.files[index])
            || (is_as_on_disk(context, gathered.files[index]) && has_reason(
            context,
            paths,
            gathered.files[index].source_path,
            gathered.files[index].bucket,
        ))
}

proof fn reasonable_file_is_added(
    view: IncrementalView,
    context: IncrementalContext,
    paths: ScanPathsView,
    start: IncrementalView,
    path: Seq<char>,
    bucket: Seq<char>,
)
    requires
        is_reasonable(view, context, paths, start),
        has_reason(context, paths, path, bucket),
    ensures
        is_reasonable(view.with_file_at(context, path, bucket), context, paths, start),
{
    let next = view.with_file_at(context, path, bucket);
    assert forall|index: int| 0 <= index < next.files.len() implies start.files.contains(
        #[trigger] next.files[index],
    ) || (is_as_on_disk(context, next.files[index]) && has_reason(
        context,
        paths,
        next.files[index].source_path,
        next.files[index].bucket,
    )) by {
        if index < view.files.len() {
            assert(next.files[index] == view.files[index]);
        }
    }
}

proof fn active_files_are_reasonable(
    context: IncrementalContext,
    paths: ScanPathsView,
    start: IncrementalView,
    end: int,
)
    requires
        0 <= end <= context.import_state.order().len(),
    ensures
        is_reasonable(context.after_active(start, end), context, paths, start),
    decreases end,
{
    if end > 0 {
        active_files_are_reasonable(context, paths, start, end - 1);
        let before = context.after_active(start, end - 1);
        let state = session_at(context, end - 1);
        if state.source_bucket@ == "active"@ {
            assert(is_active_file(context, end - 1, state.source_path@));
            reasonable_file_is_added(
                before,
                context,
                paths,
                start,
                state.source_path@,
                "active"@,
            );
        }
    } else {
        assert forall|index: int| 0 <= index < start.files.len() implies start.files.contains(
            #[trigger] start.files[index],
        ) by {}
    }
}

proof fn waiting_files_are_reasonable(
    context: IncrementalContext,
    paths: ScanPathsView,
    start: IncrementalView,
    view: IncrementalView,
    end: int,
)
    requires
        0 <= end <= context.pending_repair_paths.len(),
        is_reasonable(view, context, paths, start),
    ensures
        is_reasonable(context.after_pending(paths, view, end), context, paths, start),
    decreases end,
{
    if end > 0 {
        waiting_files_are_reasonable(context, paths, start, view, end - 1);
        let before = context.after_pending(paths, view, end - 1);
        let path = texts(context.pending_repair_paths@)[end - 1];
        match paths.pending_root(end - 1) {
            Some(SourceRoot::Archived) => {
                assert(is_waiting_file(context, paths, end - 1, path, SourceRoot::Archived));
                reasonable_file_is_added(before, context, paths, start, path, "archived"@);
            },
            Some(SourceRoot::Active) => {
                assert(is_waiting_file(context, paths, end - 1, path, SourceRoot::Active));
                reasonable_file_is_added(before, context, paths, start, path, "active"@);
            },
            None => {},
        }
    }
}

proof fn archived_files_are_reasonable(
    context: IncrementalContext,
    paths: ScanPathsView,
    start: IncrementalView,
    view: IncrementalView,
    end: int,
)
    requires
        0 <= end <= context.import_state.order().len(),
        is_reasonable(view, context, paths, start),
    ensures
        is_reasonable(context.after_archived(paths, view, end), context, paths, start),
    decreases end,
{
    if end > 0 {
        archived_files_are_reasonable(context, paths, start, view, end - 1);
        let before = context.after_archived(paths, view, end - 1);
        let state = session_at(context, end - 1);
        archived_files_are_looked_at_again(context, state);
        if state.source_bucket@ == "archived"@ {
            if context.rereads(state@) {
                assert(is_archived_file(context, end - 1, state.source_path@));
                reasonable_file_is_added(
                    before,
                    context,
                    paths,
                    start,
                    state.source_path@,
                    "archived"@,
                );
            }
        } else if state.source_bucket@ == "active"@ {
            if let Some(copy) = paths.archived_copy(end - 1) {
                assert(is_archived_copy(context, paths, end - 1, copy));
                let noted = IncrementalView {
                    kept: with_text(before.kept, state.source_path@),
                    ..before
                };
                reasonable_file_is_added(noted, context, paths, start, copy, "archived"@);
            }
        }
    }
}

/// Nothing is looked at without a reason: each gathered file is a recent one, or it is on disk, is
/// taken as it is there, and is that of a session known to be active, or waits for a repair, or is
/// looked at again, or is the archived copy of an active one. It is taken for active or archived
/// accordingly.
pub proof fn nothing_is_looked_at_without_a_reason(
    context: IncrementalContext,
    paths: ScanPathsView,
    start: IncrementalView,
)
    ensures
        is_reasonable(context.gathered(paths, start), context, paths, start),
{
    let sessions = context.import_state.order().len() as int;
    let waiting = context.pending_repair_paths.len() as int;
    let active = context.after_active(start, sessions);
    active_files_are_reasonable(context, paths, start, sessions);
    waiting_files_are_reasonable(context, paths, start, active, waiting);
    archived_files_are_reasonable(
        context,
        paths,
        start,
        context.after_pending(paths, active, waiting),
        sessions,
    );
}

/// What is gathered of recent files is all of them, by their paths, each path once.
pub proof fn recent_files_are_gathered(files: Seq<SessionFileView>, end: int, path: Seq<char>)
    requires
        0 <= end <= files.len(),
    ensures
        recent_paths(files, end).contains(path) <==> exists|index: int|
            0 <= index < end && (#[trigger] files[index]).source_path == path,
        recent_paths(files, end).no_duplicates(),
        IncrementalView::of_recent(files).files == files,
    decreases end,
{
    if end > 0 {
        recent_files_are_gathered(files, end - 1, path);
        let earlier = recent_paths(files, end - 1);
        added_text_is_there(earlier, files[end - 1].source_path);
        if earlier.contains(path) {
            let index = choose|index: int|
                0 <= index < end - 1 && (#[trigger] files[index]).source_path == path;
            assert(files[index].source_path == path);
        }
        assert(files[end - 1].source_path == files[end - 1].source_path);
    }
}

proof fn session_paths_are_probed(
    context: IncrementalContext,
    known: ScanPathsView,
    end: int,
    place: int,
)
    requires
        0 <= place < end <= context.import_state.order().len(),
    ensures
        ({
            let probed = context.probed_for_sessions(known, end);
            &&& probed.contains(session_at(context, place).source_path@)
            &&& known.archived_copy(place) is Some ==> probed.contains(
                known.archived_copy(place)->0,
            )
        }),
    decreases end,
{
    let own = session_at(context, end - 1).source_path@;
    let earlier = context.probed_for_sessions(known, end - 1);
    let probed = context.probed_for_sessions(known, end);
    assert(probed[earlier.len() as int] == own);
    if known.archived_copy(end - 1) is Some {
        assert(probed[earlier.len() as int + 1] == known.archived_copy(end - 1)->0);
    }
    if place < end - 1 {
        session_paths_are_probed(context, known, end - 1, place);
        let path = session_at(context, place).source_path@;
        let index = choose|index: int| 0 <= index < earlier.len() && earlier[index] == path;
        assert(probed[index] == path);
        if known.archived_copy(place) is Some {
            let copy = known.archived_copy(place)->0;
            let found = choose|found: int| 0 <= found < earlier.len() && earlier[found] == copy;
            assert(probed[found] == copy);
        }
    }
}

/// Everything that a scan may have a reason to look at is looked for on disk: the files of known
/// sessions, where their copies would lie in the archive, and the files that wait for a repair.
pub proof fn everything_is_looked_for(
    context: IncrementalContext,
    known: ScanPathsView,
    place: int,
)
    ensures
        ({
            let probed = context.probed(known);
            &&& 0 <= place < context.import_state.order().len() ==> probed.contains(
                session_at(context, place).source_path@,
            )
            &&& 0 <= place < context.import_state.order().len() && place
                < known.archived_copies.len() && known.archived_copies[place] is Some
                ==> probed.contains(known.archived_copies[place]->0)
            &&& 0 <= place < context.pending_repair_paths.len() ==> probed.contains(
                context.pending_repair_paths[place]@,
            )
        }),
{
    let sessions = context.import_state.order().len() as int;
    let first = context.probed_for_sessions(known, sessions);
    let waiting = texts(context.pending_repair_paths@);
    let probed = context.probed(known);
    if 0 <= place < sessions {
        session_paths_are_probed(context, known, sessions, place);
        let path = session_at(context, place).source_path@;
        let index = choose|index: int| 0 <= index < first.len() && first[index] == path;
        assert(probed[index] == path);
        if known.archived_copy(place) is Some {
            let copy = known.archived_copy(place)->0;
            let found = choose|found: int| 0 <= found < first.len() && first[found] == copy;
            assert(probed[found] == copy);
        }
    }
    if 0 <= place < waiting.len() {
        assert(probed[first.len() + place] == waiting[place]);
    }
}

/// A copy of a session's file would lie in the archive under the file's own name, and a file that
/// waits for a repair lies in the archive or, if not there, among the active ones, or nowhere that
/// counts.
pub proof fn paths_are_known_by_their_roots(
    context: IncrementalContext,
    place: int,
    name: Seq<char>,
)
    ensures
        ({
            let known = context.known_paths();
            let sessions = context.import_state.order().len() as int;
            let own = session_at(context, place).source_path@;
            let waiting = context.pending_repair_paths[place]@;
            let archived = path_is_under(waiting, context.archived_root@);
            let active = path_is_under(waiting, context.active_root@);
            &&& known.archived_copies.len() == sessions
            &&& known.pending_roots.len() == context.pending_repair_paths.len()
            &&& 0 <= place < sessions && path_file_name(own) == Some(name)
                ==> known.archived_copies[place] == Some(path_below(context.archived_root@, name))
            &&& 0 <= place < sessions && path_file_name(own) is None
                ==> known.archived_copies[place] is None
            &&& 0 <= place < context.pending_repair_paths.len() ==> {
                &&& archived ==> known.pending_roots[place] == Some(SourceRoot::Archived)
                &&& !archived && active ==> known.pending_roots[place] == Some(SourceRoot::Active)
                &&& !archived && !active ==> known.pending_roots[place] is None
            }
        }),
{
}

} // verus!
