//! Which files a repair takes up, and when it lets them go.

use crate::import_state::{ImportState, SessionFileView};
use crate::repairs::{
    fits_import, import_steps, pending_sessions_have_pending_files, paths_of_session, replay_steps,
    session_of_path, settled, with_texts, RepairState, RepairStates, RepairStepView, SessionRepairs,
};
use crate::session_id::id_in_file_name;
use crate::session_log_laws::added_text_is_there;
use crate::text::texts;
use vstd::prelude::*;

verus! {

/// Whether a file is of a session: the one that it was imported as, or else the one in its name.
pub open spec fn is_file_of(
    import_state: Map<Seq<char>, ImportState>,
    path: Seq<char>,
    session_id: Seq<char>,
) -> bool {
    if import_state.dom().contains(path) && import_state[path].session_id is Some {
        import_state[path].session_id->0@ == session_id
    } else {
        id_in_file_name(path) == Some(session_id)
    }
}

/// Whether a path is pending in a repair.
pub open spec fn is_pending(repair: RepairState, path: Seq<char>) -> bool {
    exists|index: int|
        0 <= index < repair.pending_paths.len() && (#[trigger] repair.pending_paths[index])@ == path
}

/// Whether a file of a session is pending in a repair.
pub open spec fn has_pending_file(
    repair: RepairState,
    import_state: Map<Seq<char>, ImportState>,
    session_id: Seq<char>,
) -> bool {
    exists|index: int|
        0 <= index < repair.pending_paths.len() && is_file_of(
            import_state,
            (#[trigger] repair.pending_paths[index])@,
            session_id,
        )
}

proof fn pending_is_listed(repair: RepairState, path: Seq<char>)
    ensures
        texts(repair.pending_paths@).contains(path) <==> is_pending(repair, path),
{
    let list = texts(repair.pending_paths@);
    if list.contains(path) {
        let index = choose|index: int| 0 <= index < list.len() && list[index] == path;
        assert(repair.pending_paths[index]@ == path);
    }
    if is_pending(repair, path) {
        let index = choose|index: int|
            0 <= index < repair.pending_paths.len() && (#[trigger] repair.pending_paths[index])@
                == path;
        assert(list[index] == path);
    }
}

proof fn pending_file_is_listed(
    repair: RepairState,
    import_state: Map<Seq<char>, ImportState>,
    session_id: Seq<char>,
)
    ensures
        repair.sessions(import_state).contains(session_id) <==> has_pending_file(
            repair,
            import_state,
            session_id,
        ),
{
    let paths = texts(repair.pending_paths@);
    pending_sessions_have_pending_files(import_state, paths, paths.len() as int, session_id);
    if has_pending_file(repair, import_state, session_id) {
        let index = choose|index: int|
            0 <= index < repair.pending_paths.len() && is_file_of(
                import_state,
                (#[trigger] repair.pending_paths[index])@,
                session_id,
            );
        assert(session_of_path(import_state, paths[index]) == Some(session_id));
    }
    if repair.sessions(import_state).contains(session_id) {
        let index = choose|index: int|
            0 <= index < paths.len() && session_of_path(import_state, #[trigger] paths[index])
                == Some(session_id);
        assert(is_file_of(import_state, repair.pending_paths[index]@, session_id));
    }
}

/// The session of a file that a scan found.
pub open spec fn is_found_file_of(
    import_state: Map<Seq<char>, ImportState>,
    file: SessionFileView,
    session_id: Seq<char>,
) -> bool {
    if import_state.dom().contains(file.source_path) && import_state[file.source_path].session_id
        is Some {
        import_state[file.source_path].session_id->0@ == session_id
    } else {
        file.name_session_id == Some(session_id)
    }
}

/// A file is read again for a repair exactly where a sweep is to come, where the file is pending,
/// or where a file of the same session is pending in a repair of usage.
pub proof fn repairs_take_up_their_files(
    repairs: RepairStates,
    import_state: Map<Seq<char>, ImportState>,
    file: SessionFileView,
)
    ensures
        repairs.forces(import_state, file) <==> {
            ||| repairs.rate_limit.needs_sweep
            ||| repairs.token_v2.needs_sweep
            ||| repairs.fork_replay_v3.needs_sweep
            ||| is_pending(repairs.rate_limit, file.source_path)
            ||| is_pending(repairs.token_v2, file.source_path)
            ||| is_pending(repairs.fork_replay_v3, file.source_path)
            ||| exists|session_id: Seq<char>| #[trigger]
                is_found_file_of(import_state, file, session_id) && (has_pending_file(
                    repairs.token_v2,
                    import_state,
                    session_id,
                ) || has_pending_file(repairs.fork_replay_v3, import_state, session_id))
        },
{
    pending_is_listed(repairs.rate_limit, file.source_path);
    pending_is_listed(repairs.token_v2, file.source_path);
    pending_is_listed(repairs.fork_replay_v3, file.source_path);
    let session = RepairStates::session_of_file(import_state, file);
    if let Some(id) = session {
        assert(is_found_file_of(import_state, file, id));
        pending_file_is_listed(repairs.token_v2, import_state, id);
        pending_file_is_listed(repairs.fork_replay_v3, import_state, id);
    }
    assert forall|session_id: Seq<char>| #[trigger]
        is_found_file_of(import_state, file, session_id) implies session == Some(session_id) by {}
}

/// A file takes part in exactly those repairs whose sweep is to come or in which it is pending.
pub proof fn file_takes_part_where_it_is_pending(repairs: RepairStates, path: Seq<char>)
    ensures
        repairs.of_file(path).rate_limit <==> repairs.rate_limit.needs_sweep || is_pending(
            repairs.rate_limit,
            path,
        ),
        repairs.of_file(path).token_v2 <==> repairs.token_v2.needs_sweep || is_pending(
            repairs.token_v2,
            path,
        ),
        repairs.of_file(path).fork_replay_v3 <==> repairs.fork_replay_v3.needs_sweep || is_pending(
            repairs.fork_replay_v3,
            path,
        ),
{
    pending_is_listed(repairs.rate_limit, path);
    pending_is_listed(repairs.token_v2, path);
    pending_is_listed(repairs.fork_replay_v3, path);
}

proof fn added_texts_are_there(list: Seq<Seq<char>>, more: Seq<Seq<char>>, text: Seq<char>)
    ensures
        with_texts(list, more).contains(text) <==> list.contains(text) || more.contains(text),
        list.no_duplicates() ==> with_texts(list, more).no_duplicates(),
    decreases more.len(),
{
    if more.len() > 0 {
        let shorter = more.drop_last();
        added_texts_are_there(list, shorter, text);
        let earlier = with_texts(list, shorter);
        added_text_is_there(earlier, more.last());
        if more.contains(text) && text != more.last() {
            let index = choose|index: int| 0 <= index < more.len() && more[index] == text;
            assert(shorter[index] == text);
        }
        if shorter.contains(text) {
            let index = choose|index: int| 0 <= index < shorter.len() && shorter[index] == text;
            assert(more[index] == text);
        }
        assert(more[more.len() - 1] == more.last());
    }
}

/// All pending files are listed, each once, and no others.
pub proof fn every_pending_file_is_listed_once(repairs: RepairStates, path: Seq<char>)
    ensures
        repairs.all_pending().contains(path) <==> is_pending(repairs.rate_limit, path)
            || is_pending(repairs.token_v2, path) || is_pending(repairs.fork_replay_v3, path),
        repairs.all_pending().no_duplicates(),
{
    pending_is_listed(repairs.rate_limit, path);
    pending_is_listed(repairs.token_v2, path);
    pending_is_listed(repairs.fork_replay_v3, path);
    let one = with_texts(Seq::empty(), texts(repairs.rate_limit.pending_paths@));
    let two = with_texts(one, texts(repairs.token_v2.pending_paths@));
    added_texts_are_there(Seq::empty(), texts(repairs.rate_limit.pending_paths@), path);
    added_texts_are_there(one, texts(repairs.token_v2.pending_paths@), path);
    added_texts_are_there(two, texts(repairs.fork_replay_v3.pending_paths@), path);
}

/// All sessions with a pending file are listed, each once, and no others.
pub proof fn every_pending_session_is_listed_once(
    repairs: RepairStates,
    import_state: Map<Seq<char>, ImportState>,
    session_id: Seq<char>,
)
    ensures
        repairs.all_pending_sessions(import_state).contains(session_id) <==> has_pending_file(
            repairs.rate_limit,
            import_state,
            session_id,
        ) || has_pending_file(repairs.token_v2, import_state, session_id) || has_pending_file(
            repairs.fork_replay_v3,
            import_state,
            session_id,
        ),
        repairs.all_pending_sessions(import_state).no_duplicates(),
{
    pending_file_is_listed(repairs.rate_limit, import_state, session_id);
    pending_file_is_listed(repairs.token_v2, import_state, session_id);
    pending_file_is_listed(repairs.fork_replay_v3, import_state, session_id);
    let one = with_texts(Seq::empty(), repairs.rate_limit.sessions(import_state));
    let two = with_texts(one, repairs.token_v2.sessions(import_state));
    added_texts_are_there(Seq::empty(), repairs.rate_limit.sessions(import_state), session_id);
    added_texts_are_there(one, repairs.token_v2.sessions(import_state), session_id);
    added_texts_are_there(two, repairs.fork_replay_v3.sessions(import_state), session_id);
}

proof fn files_of_session_are_listed(
    import_state: Map<Seq<char>, ImportState>,
    paths: Seq<Seq<char>>,
    session_id: Seq<char>,
    end: int,
    path: Seq<char>,
)
    requires
        0 <= end <= paths.len(),
    ensures
        paths_of_session(import_state, paths, session_id, end).contains(path) <==> exists|
            index: int,
        |
            0 <= index < end && #[trigger] paths[index] == path && is_file_of(
                import_state,
                path,
                session_id,
            ),
    decreases end,
{
    if end > 0 {
        files_of_session_are_listed(import_state, paths, session_id, end - 1, path);
        let earlier = paths_of_session(import_state, paths, session_id, end - 1);
        let all = paths_of_session(import_state, paths, session_id, end);
        assert((session_of_path(import_state, paths[end - 1]) == Some(session_id)) == is_file_of(
            import_state,
            paths[end - 1],
            session_id,
        ));
        if earlier.contains(path) {
            let index = choose|index: int| 0 <= index < earlier.len() && earlier[index] == path;
            assert(all[index] == path);
            let found = choose|index: int|
                0 <= index < end - 1 && #[trigger] paths[index] == path && is_file_of(
                    import_state,
                    path,
                    session_id,
                );
            assert(paths[found] == path);
        }
        if all.contains(path) && !earlier.contains(path) {
            let index = choose|index: int| 0 <= index < all.len() && all[index] == path;
            if index < earlier.len() {
                assert(earlier[index] == path);
            }
            assert(paths[end - 1] == path);
        }
        if all != earlier {
            assert(all[earlier.len() as int] == paths[end - 1]);
        }
    }
}

/// Whether steps make a file pending in a repair, for this reason.
pub open spec fn makes_pending(
    steps: Seq<RepairStepView>,
    repair_key: Seq<char>,
    path: Seq<char>,
    reason: Seq<char>,
) -> bool {
    steps.contains(RepairStepView::MarkPending { repair_key, source_path: path, reason })
}

/// Whether steps let a file go from a repair.
pub open spec fn lets_go(
    steps: Seq<RepairStepView>,
    repair_key: Seq<char>,
    path: Seq<char>,
) -> bool {
    steps.contains(RepairStepView::Clear { repair_key, source_path: path })
}

proof fn settled_lets_go(
    needed: bool,
    key: Seq<char>,
    own: Seq<char>,
    related: Seq<Seq<char>>,
    other_key: Seq<char>,
    path: Seq<char>,
)
    ensures
        lets_go(settled(needed, key, own, related), other_key, path) <==> needed && key == other_key
            && (path == own || related.contains(path)),
        forall|index: int|
            0 <= index < settled(needed, key, own, related).len() ==> (#[trigger] settled(
                needed,
                key,
                own,
                related,
            )[index]) is Clear,
{
    let steps = settled(needed, key, own, related);
    let wanted = RepairStepView::Clear { repair_key: other_key, source_path: path };
    if needed {
        assert(steps[0] == (RepairStepView::Clear { repair_key: key, source_path: own }));
        assert forall|index: int| 0 < index < steps.len() implies #[trigger] steps[index] == (
        RepairStepView::Clear { repair_key: key, source_path: related[index - 1] }) by {}
        if related.contains(path) {
            let index = choose|index: int| 0 <= index < related.len() && related[index] == path;
            assert(steps[index + 1] == (RepairStepView::Clear {
                repair_key: key,
                source_path: path,
            }));
        }
        if steps.contains(wanted) {
            let index = choose|index: int| 0 <= index < steps.len() && steps[index] == wanted;
            if index > 0 {
                assert(related[index - 1] == path);
            }
        }
    }
}

proof fn joined_steps_let_go(
    left: Seq<RepairStepView>,
    right: Seq<RepairStepView>,
    step: RepairStepView,
)
    ensures
        (left + right).contains(step) <==> left.contains(step) || right.contains(step),
{
    let both = left + right;
    if left.contains(step) {
        let index = choose|index: int| 0 <= index < left.len() && left[index] == step;
        assert(both[index] == step);
    }
    if right.contains(step) {
        let index = choose|index: int| 0 <= index < right.len() && right[index] == step;
        assert(both[left.len() + index] == step);
    }
    if both.contains(step) {
        let index = choose|index: int| 0 <= index < both.len() && both[index] == step;
        if index < left.len() {
            assert(left[index] == step);
        } else {
            assert(right[index - left.len()] == step);
        }
    }
}

proof fn keys_differ()
    ensures
        "token_usage_monotonic_v2"@ != "token_usage_fork_replay_v3"@,
        "token_usage_monotonic_v2"@ != "rate_limit_sample_backfill_v1"@,
        "token_usage_fork_replay_v3"@ != "rate_limit_sample_backfill_v1"@,
{
    reveal_strlit("token_usage_monotonic_v2");
    reveal_strlit("token_usage_fork_replay_v3");
    reveal_strlit("rate_limit_sample_backfill_v1");
    assert("token_usage_monotonic_v2"@.len() == 24);
    assert("token_usage_fork_replay_v3"@.len() == 26);
    assert("rate_limit_sample_backfill_v1"@.len() == 29);
}

/// What an import lets go: the file itself from each repair that it takes part in, and the other
/// pending files of its session from the two repairs of usage. While the parent of a fork is not to
/// be had, nothing is let go from the replay repair, and the file is pending there. Nothing else is
/// let go, and nothing else becomes pending.
pub proof fn import_lets_go_what_it_repaired(
    imported: SessionRepairs,
    repairs: RepairStates,
    import_state: Map<Seq<char>, ImportState>,
    source_path: Seq<char>,
    session_id: Seq<char>,
    parent_unavailable: bool,
    path: Seq<char>,
)
    requires
        fits_import(
            imported,
            repairs,
            import_state,
            source_path,
            session_id,
            parent_unavailable,
        ),
    ensures
        ({
            let steps = import_steps(imported, source_path);
            let token = is_pending(repairs.token_v2, path) && is_file_of(
                import_state,
                path,
                session_id,
            );
            let replay = is_pending(repairs.fork_replay_v3, path) && is_file_of(
                import_state,
                path,
                session_id,
            );
            let is_own = path == source_path;
            &&& lets_go(steps, "rate_limit_sample_backfill_v1"@, path) <==> is_own && (
            repairs.rate_limit.needs_sweep || is_pending(repairs.rate_limit, path))
            &&& lets_go(steps, "token_usage_monotonic_v2"@, path) <==> token || (is_own && (
            repairs.token_v2.needs_sweep || is_pending(repairs.token_v2, path) || has_pending_file(
                repairs.token_v2,
                import_state,
                session_id,
            )))
            &&& lets_go(steps, "token_usage_fork_replay_v3"@, path) <==> !parent_unavailable && (
            replay || (is_own && (repairs.fork_replay_v3.needs_sweep || is_pending(
                repairs.fork_replay_v3,
                path,
            ) || has_pending_file(repairs.fork_replay_v3, import_state, session_id))))
            &&& forall|key: Seq<char>, reason: Seq<char>| #[trigger]
                makes_pending(import_steps(imported, source_path), key, path, reason)
                    <==> parent_unavailable && is_own && key == "token_usage_fork_replay_v3"@
                    && reason == "fork replay parent unavailable"@
        }),
{
    keys_differ();
    file_takes_part_where_it_is_pending(repairs, source_path);
    let token_paths = texts(repairs.token_v2.pending_paths@);
    let replay_paths = texts(repairs.fork_replay_v3.pending_paths@);
    let token_related = texts(imported.related_pending_token_v2_paths@);
    let replay_related = texts(imported.related_pending_fork_replay_v3_paths@);
    related_files_are_pending(repairs.token_v2, import_state, session_id, token_related, path);
    related_files_are_pending(
        repairs.fork_replay_v3,
        import_state,
        session_id,
        replay_related,
        path,
    );
    let limit_key = "rate_limit_sample_backfill_v1"@;
    let token_key = "token_usage_monotonic_v2"@;
    let replay_key = "token_usage_fork_replay_v3"@;
    let one = settled(imported.file.rate_limit, limit_key, source_path, Seq::empty());
    let two = settled(imported.file.token_v2, token_key, source_path, token_related);
    let three = replay_steps(imported, source_path);
    let steps = import_steps(imported, source_path);
    assert(steps == one + two + three);
    settled_keys_let_go(
        imported.file.rate_limit,
        limit_key,
        source_path,
        Seq::empty(),
        path,
    );
    settled_keys_let_go(imported.file.token_v2, token_key, source_path, token_related, path);
    settled_keys_let_go(
        imported.file.fork_replay_v3,
        replay_key,
        source_path,
        replay_related,
        path,
    );
    assert forall|step: RepairStepView| #[trigger] steps.contains(step) <==> one.contains(step)
        || two.contains(step) || three.contains(step) by {
        joined_steps_let_go(one, two, step);
        joined_steps_let_go(one + two, three, step);
    }
    assert forall|key: Seq<char>| #[trigger] lets_go(steps, key, path) <==> lets_go(one, key, path)
        || lets_go(two, key, path) || lets_go(three, key, path) by {
        let step = RepairStepView::Clear { repair_key: key, source_path: path };
        assert(steps.contains(step) <==> one.contains(step) || two.contains(step)
            || three.contains(step));
    }
    if imported.file.fork_replay_v3 && parent_unavailable {
        assert(three[0] is MarkPending);
        assert(!lets_go(three, limit_key, path));
        assert(!lets_go(three, token_key, path));
        assert(!lets_go(three, replay_key, path));
    } else {
        assert(three == settled(
            imported.file.fork_replay_v3,
            replay_key,
            source_path,
            replay_related,
        ));
    }
    assert(lets_go(steps, limit_key, path) <==> lets_go(one, limit_key, path));
    assert(lets_go(steps, token_key, path) <==> lets_go(two, token_key, path));
    assert(lets_go(steps, replay_key, path) <==> lets_go(three, replay_key, path));
    assert forall|key: Seq<char>, reason: Seq<char>| #[trigger]
        makes_pending(import_steps(imported, source_path), key, path, reason)
            <==> parent_unavailable && path == source_path && key == replay_key && reason
            == "fork replay parent unavailable"@ by {
        let mark = RepairStepView::MarkPending { repair_key: key, source_path: path, reason };
        assert(steps.contains(mark) <==> one.contains(mark) || two.contains(mark)
            || three.contains(mark));
        assert(!one.contains(mark)) by {
            if one.contains(mark) {
                let index = choose|index: int| 0 <= index < one.len() && one[index] == mark;
                assert(one[index] is Clear);
            }
        }
        assert(!two.contains(mark)) by {
            if two.contains(mark) {
                let index = choose|index: int| 0 <= index < two.len() && two[index] == mark;
                assert(two[index] is Clear);
            }
        }
        if three.contains(mark) {
            let index = choose|index: int| 0 <= index < three.len() && three[index] == mark;
            assert(three[index] == mark);
        }
    }
}

proof fn settled_keys_let_go(
    needed: bool,
    key: Seq<char>,
    own: Seq<char>,
    related: Seq<Seq<char>>,
    path: Seq<char>,
)
    ensures
        forall|other: Seq<char>| #[trigger]
            lets_go(settled(needed, key, own, related), other, path) <==> (needed && key == other
                && (path == own || related.contains(path))),
        forall|index: int|
            0 <= index < settled(needed, key, own, related).len() ==> (#[trigger] settled(
                needed,
                key,
                own,
                related,
            )[index]) is Clear,
{
    assert forall|other: Seq<char>| #[trigger]
        lets_go(settled(needed, key, own, related), other, path) <==> (needed && key == other && (
        path == own || related.contains(path))) by {
        settled_lets_go(needed, key, own, related, other, path);
    }
    settled_lets_go(needed, key, own, related, key, path);
}

proof fn related_files_are_pending(
    repair: RepairState,
    import_state: Map<Seq<char>, ImportState>,
    session_id: Seq<char>,
    related: Seq<Seq<char>>,
    path: Seq<char>,
)
    requires
        related == paths_of_session(
            import_state,
            texts(repair.pending_paths@),
            session_id,
            repair.pending_paths@.len() as int,
        ),
    ensures
        related.contains(path) <==> is_pending(repair, path) && is_file_of(
            import_state,
            path,
            session_id,
        ),
        related.len() > 0 <==> has_pending_file(repair, import_state, session_id),
{
    let paths = texts(repair.pending_paths@);
    let count = paths.len() as int;
    pending_is_listed(repair, path);
    files_of_session_are_listed(import_state, paths, session_id, count, path);
    if is_pending(repair, path) {
        let index = choose|index: int| 0 <= index < paths.len() && paths[index] == path;
        assert(paths[index] == path);
    }
    if related.contains(path) {
        let index = choose|index: int|
            0 <= index < count && #[trigger] paths[index] == path && is_file_of(
                import_state,
                path,
                session_id,
            );
        assert(paths.contains(path));
    }
    if related.len() > 0 {
        let first = related[0];
        assert(related.contains(first));
        files_of_session_are_listed(import_state, paths, session_id, count, first);
        let index = choose|index: int|
            0 <= index < count && #[trigger] paths[index] == first && is_file_of(
                import_state,
                first,
                session_id,
            );
        assert(is_file_of(import_state, repair.pending_paths[index]@, session_id));
    }
    if has_pending_file(repair, import_state, session_id) {
        let index = choose|index: int|
            0 <= index < repair.pending_paths.len() && is_file_of(
                import_state,
                (#[trigger] repair.pending_paths[index])@,
                session_id,
            );
        let found = repair.pending_paths[index]@;
        assert(paths[index] == found);
        files_of_session_are_listed(import_state, paths, session_id, count, found);
        assert(related.contains(found));
    }
}

} // verus!
