//! Repairs of stored data: which files still need one, and what an import settles.
//!
//! A repair first sweeps over all files. Files that could not be repaired then stay pending until
//! an import settles them.

use crate::import_state::{ImportState, SessionFile, SessionFileView};
use crate::session_id::{fallback_session_id_from_filename, id_in_file_name};
use crate::text::{add_text, copy_opt, first_text, list_holds, opt_is, opt_text, texts, with_text};
use crate::text_map::TextMap;
use vstd::prelude::*;

verus! {

pub const TOKEN_USAGE_MONOTONIC_REPAIR_KEY: &'static str = "token_usage_monotonic_v2";

pub const TOKEN_USAGE_FORK_REPLAY_REPAIR_KEY: &'static str = "token_usage_fork_replay_v3";

pub const RATE_LIMIT_SAMPLE_BACKFILL_KEY: &'static str = "rate_limit_sample_backfill_v1";

/// One repair: whether its sweep is still to come, and the files that are pending.
#[derive(Clone, Debug)]
pub struct RepairState {
    pub needs_sweep: bool,
    pub pending_paths: Vec<String>,
}

/// The three repairs.
#[derive(Clone, Debug)]
pub struct RepairStates {
    pub rate_limit: RepairState,
    pub token_v2: RepairState,
    pub fork_replay_v3: RepairState,
}

/// The session of an imported file, as far as the import knows it.
pub open spec fn imported_session(
    import_state: Map<Seq<char>, ImportState>,
    source_path: Seq<char>,
) -> Option<Seq<char>> {
    if import_state.dom().contains(source_path) {
        opt_text(import_state[source_path].session_id)
    } else {
        None
    }
}

/// The session of a file: the one that it was imported as, or else the one in its name.
pub open spec fn session_of_path(
    import_state: Map<Seq<char>, ImportState>,
    source_path: Seq<char>,
) -> Option<Seq<char>> {
    first_text(imported_session(import_state, source_path), id_in_file_name(source_path))
}

fn find_session_of_path(import_state: &TextMap<ImportState>, source_path: &str) -> (id: Option<
    String,
>)
    ensures
        opt_text(id) == session_of_path(import_state@, source_path@),
{
    let imported = match import_state.get(source_path) {
        Some(state) => copy_opt(&state.session_id),
        None => None,
    };
    match imported {
        Some(id) => Some(id),
        None => fallback_session_id_from_filename(source_path),
    }
}

/// The sessions of the first `end` paths, each once, in the order of the paths.
pub open spec fn sessions_of_paths(
    import_state: Map<Seq<char>, ImportState>,
    paths: Seq<Seq<char>>,
    end: int,
) -> Seq<Seq<char>>
    decreases end,
{
    if end <= 0 {
        Seq::empty()
    } else {
        let earlier = sessions_of_paths(import_state, paths, end - 1);
        match session_of_path(import_state, paths[end - 1]) {
            Some(id) => with_text(earlier, id),
            None => earlier,
        }
    }
}

/// The sessions whose files are pending.
pub fn pending_repair_session_ids(
    import_state: &TextMap<ImportState>,
    pending_paths: &Vec<String>,
) -> (ids: Vec<String>)
    ensures
        texts(ids@) == sessions_of_paths(
            import_state@,
            texts(pending_paths@),
            pending_paths.len() as int,
        ),
{
    let ghost paths = texts(pending_paths@);
    let mut ids: Vec<String> = Vec::new();
    proof {
        assert(texts(ids@) =~= Seq::empty());
    }
    let mut index: usize = 0;
    while index < pending_paths.len()
        invariant
            index <= pending_paths.len(),
            paths == texts(pending_paths@),
            texts(ids@) == sessions_of_paths(import_state@, paths, index as int),
        decreases pending_paths.len() - index,
    {
        match find_session_of_path(import_state, pending_paths[index].as_str()) {
            Some(id) => {
                add_text(&mut ids, id.as_str());
            },
            None => {},
        }
        index = index + 1;
    }
    ids
}

/// A session is among those whose files are pending exactly if one of the pending files is its.
pub proof fn pending_sessions_have_pending_files(
    import_state: Map<Seq<char>, ImportState>,
    paths: Seq<Seq<char>>,
    end: int,
    session_id: Seq<char>,
)
    requires
        0 <= end <= paths.len(),
    ensures
        sessions_of_paths(import_state, paths, end).contains(session_id) <==> exists|index: int|
            0 <= index < end && session_of_path(import_state, #[trigger] paths[index]) == Some(
                session_id,
            ),
    decreases end,
{
    if end > 0 {
        pending_sessions_have_pending_files(import_state, paths, end - 1, session_id);
        let earlier = sessions_of_paths(import_state, paths, end - 1);
        let all = sessions_of_paths(import_state, paths, end);
        if let Some(id) = session_of_path(import_state, paths[end - 1]) {
            if !earlier.contains(id) {
                assert(all == earlier.push(id));
                assert(all[earlier.len() as int] == id);
                if earlier.contains(session_id) {
                    let place = choose|place: int|
                        0 <= place < earlier.len() && earlier[place] == session_id;
                    assert(all[place] == session_id);
                }
                if all.contains(session_id) && session_id != id {
                    let place = choose|place: int|
                        0 <= place < all.len() && all[place] == session_id;
                    assert(earlier[place] == session_id);
                }
            }
        }
    }
}

/// Those of the first `end` paths that are of the session.
pub open spec fn paths_of_session(
    import_state: Map<Seq<char>, ImportState>,
    paths: Seq<Seq<char>>,
    session_id: Seq<char>,
    end: int,
) -> Seq<Seq<char>>
    decreases end,
{
    if end <= 0 {
        Seq::empty()
    } else {
        let earlier = paths_of_session(import_state, paths, session_id, end - 1);
        if session_of_path(import_state, paths[end - 1]) == Some(session_id) {
            earlier.push(paths[end - 1])
        } else {
            earlier
        }
    }
}

/// The pending files of a session.
pub fn pending_repair_paths_for_session(
    import_state: &TextMap<ImportState>,
    pending_paths: &Vec<String>,
    session_id: &str,
) -> (paths: Vec<String>)
    ensures
        texts(paths@) == paths_of_session(
            import_state@,
            texts(pending_paths@),
            session_id@,
            pending_paths.len() as int,
        ),
{
    let ghost all = texts(pending_paths@);
    let mut paths: Vec<String> = Vec::new();
    proof {
        assert(texts(paths@) =~= Seq::empty());
    }
    let mut index: usize = 0;
    while index < pending_paths.len()
        invariant
            index <= pending_paths.len(),
            all == texts(pending_paths@),
            texts(paths@) == paths_of_session(import_state@, all, session_id@, index as int),
        decreases pending_paths.len() - index,
    {
        let ghost before = paths@;
        let id = find_session_of_path(import_state, pending_paths[index].as_str());
        if opt_is(&id, session_id) {
            paths.push(pending_paths[index].clone());
            proof {
                assert(texts(paths@) =~= texts(before).push(all[index as int]));
            }
        }
        index = index + 1;
    }
    paths
}

/// The repairs that a file takes part in.
#[derive(Clone, Copy, Debug, PartialEq, Eq, Structural)]
pub struct FileRepairs {
    pub rate_limit: bool,
    pub token_v2: bool,
    pub fork_replay_v3: bool,
}

impl RepairState {
    /// Whether the repair asks for nothing: its sweep is done, and no file is pending.
    pub open spec fn is_settled(&self) -> bool {
        !self.needs_sweep && self.pending_paths@.len() == 0
    }

    /// Whether a file takes part in the repair: the sweep is to come, or the file is pending.
    pub open spec fn covers(&self, source_path: Seq<char>) -> bool {
        self.needs_sweep || texts(self.pending_paths@).contains(source_path)
    }

    /// Whether a file takes part in the repair.
    pub fn covers_path(&self, source_path: &str) -> (result: bool)
        ensures
            result == self.covers(source_path@),
    {
        self.needs_sweep || list_holds(&self.pending_paths, source_path)
    }

    /// The sessions whose files are pending.
    pub open spec fn sessions(&self, import_state: Map<Seq<char>, ImportState>) -> Seq<Seq<char>> {
        sessions_of_paths(
            import_state,
            texts(self.pending_paths@),
            self.pending_paths@.len() as int,
        )
    }
}

impl RepairStates {
    /// Whether no repair asks for anything.
    pub open spec fn is_settled(&self) -> bool {
        self.rate_limit.is_settled() && self.token_v2.is_settled()
            && self.fork_replay_v3.is_settled()
    }

    /// The repairs that a file takes part in.
    pub open spec fn of_file(&self, source_path: Seq<char>) -> FileRepairs {
        FileRepairs {
            rate_limit: self.rate_limit.covers(source_path),
            token_v2: self.token_v2.covers(source_path),
            fork_replay_v3: self.fork_replay_v3.covers(source_path),
        }
    }

    /// The repairs that a file takes part in.
    pub fn file_repairs(&self, source_path: &str) -> (result: FileRepairs)
        ensures
            result == self.of_file(source_path@),
    {
        FileRepairs {
            rate_limit: self.rate_limit.covers_path(source_path),
            token_v2: self.token_v2.covers_path(source_path),
            fork_replay_v3: self.fork_replay_v3.covers_path(source_path),
        }
    }

    /// The session of a file that a scan found: the one that it was imported as, or else the one
    /// in its name.
    pub open spec fn session_of_file(
        import_state: Map<Seq<char>, ImportState>,
        file: SessionFileView,
    ) -> Option<Seq<char>> {
        first_text(imported_session(import_state, file.source_path), file.name_session_id)
    }

    /// Whether a file must be read again for a repair: it takes part in one, or a file of its
    /// session is pending in one of the two usage repairs.
    pub open spec fn forces(
        &self,
        import_state: Map<Seq<char>, ImportState>,
        file: SessionFileView,
    ) -> bool {
        let session = RepairStates::session_of_file(import_state, file);
        self.rate_limit.covers(file.source_path) || self.token_v2.covers(file.source_path)
            || self.fork_replay_v3.covers(file.source_path) || (session is Some && (
        self.token_v2.sessions(import_state).contains(session->0) || self.fork_replay_v3.sessions(
            import_state,
        ).contains(session->0)))
    }

    /// Whether a file must be read again for a repair. `token_v2_ids` and `fork_replay_v3_ids` are
    /// the sessions whose files are pending in the two usage repairs.
    pub(crate) fn forces_file(
        &self,
        import_state: &TextMap<ImportState>,
        file: &SessionFile,
        token_v2_ids: &Vec<String>,
        fork_replay_v3_ids: &Vec<String>,
    ) -> (result: bool)
        requires
            texts(token_v2_ids@) == self.token_v2.sessions(import_state@),
            texts(fork_replay_v3_ids@) == self.fork_replay_v3.sessions(import_state@),
        ensures
            result == self.forces(import_state@, file@),
    {
        let source_path = file.source_path.as_str();
        let repairs = self.file_repairs(source_path);
        if repairs.rate_limit || repairs.token_v2 || repairs.fork_replay_v3 {
            return true;
        }
        let imported = match import_state.get(source_path) {
            Some(state) => copy_opt(&state.session_id),
            None => None,
        };
        let session = match imported {
            Some(id) => Some(id),
            None => copy_opt(&file.name_session_id),
        };
        match session {
            Some(id) => list_holds(token_v2_ids, id.as_str()) || list_holds(
                fork_replay_v3_ids,
                id.as_str(),
            ),
            None => false,
        }
    }

    /// All pending files, each once.
    pub open spec fn all_pending(&self) -> Seq<Seq<char>> {
        with_texts(
            with_texts(
                with_texts(Seq::empty(), texts(self.rate_limit.pending_paths@)),
                texts(self.token_v2.pending_paths@),
            ),
            texts(self.fork_replay_v3.pending_paths@),
        )
    }

    /// All pending files, each once.
    pub fn pending_paths(&self) -> (paths: Vec<String>)
        ensures
            texts(paths@) == self.all_pending(),
    {
        let mut paths: Vec<String> = Vec::new();
        proof {
            assert(texts(paths@) =~= Seq::empty());
        }
        add_texts(&mut paths, &self.rate_limit.pending_paths);
        add_texts(&mut paths, &self.token_v2.pending_paths);
        add_texts(&mut paths, &self.fork_replay_v3.pending_paths);
        paths
    }

    /// All sessions whose files are pending, each once.
    pub open spec fn all_pending_sessions(&self, import_state: Map<Seq<char>, ImportState>) -> Seq<
        Seq<char>,
    > {
        with_texts(
            with_texts(
                with_texts(Seq::empty(), self.rate_limit.sessions(import_state)),
                self.token_v2.sessions(import_state),
            ),
            self.fork_replay_v3.sessions(import_state),
        )
    }

    /// All sessions whose files are pending, each once.
    pub fn pending_sessions(&self, import_state: &TextMap<ImportState>) -> (ids: Vec<String>)
        ensures
            texts(ids@) == self.all_pending_sessions(import_state@),
    {
        let mut ids: Vec<String> = Vec::new();
        proof {
            assert(texts(ids@) =~= Seq::empty());
        }
        add_texts(
            &mut ids,
            &pending_repair_session_ids(import_state, &self.rate_limit.pending_paths),
        );
        add_texts(
            &mut ids,
            &pending_repair_session_ids(import_state, &self.token_v2.pending_paths),
        );
        add_texts(
            &mut ids,
            &pending_repair_session_ids(import_state, &self.fork_replay_v3.pending_paths),
        );
        ids
    }
}

/// A list with all texts of another in it.
pub open spec fn with_texts(list: Seq<Seq<char>>, more: Seq<Seq<char>>) -> Seq<Seq<char>>
    decreases more.len(),
{
    if more.len() == 0 {
        list
    } else {
        with_text(with_texts(list, more.drop_last()), more.last())
    }
}

fn add_texts(list: &mut Vec<String>, more: &Vec<String>)
    ensures
        texts(final(list)@) == with_texts(texts(old(list)@), texts(more@)),
{
    let ghost start = texts(list@);
    let ghost added = texts(more@);
    let mut index: usize = 0;
    while index < more.len()
        invariant
            index <= more.len(),
            added == texts(more@),
            texts(list@) == with_texts(start, added.take(index as int)),
        decreases more.len() - index,
    {
        proof {
            assert(added.take(index + 1).drop_last() =~= added.take(index as int));
            assert(added.take(index + 1).last() == more[index as int]@);
        }
        add_text(list, more[index].as_str());
        index = index + 1;
    }
    proof {
        assert(added.take(index as int) =~= added);
    }
}

/// Which repairs an imported file settles or leaves open.
#[derive(Clone, Debug)]
pub struct SessionRepairs {
    pub file: FileRepairs,
    /// Whether the log of the parent, from which the session forked off, was not to be had.
    pub replay_parent_unavailable: bool,
    /// The session's files that are pending in the two usage repairs.
    pub related_pending_token_v2_paths: Vec<String>,
    pub related_pending_fork_replay_v3_paths: Vec<String>,
}

/// Whether these are the repairs of an imported file: those that the file takes part in, those in
/// which another file of its session is pending, and the replay repair where the parent was not to
/// be had.
pub open spec fn fits_import(
    result: SessionRepairs,
    repairs: RepairStates,
    import_state: Map<Seq<char>, ImportState>,
    source_path: Seq<char>,
    session_id: Seq<char>,
    replay_parent_unavailable: bool,
) -> bool {
    let token_v2_paths = paths_of_session(
        import_state,
        texts(repairs.token_v2.pending_paths@),
        session_id,
        repairs.token_v2.pending_paths@.len() as int,
    );
    let fork_replay_v3_paths = paths_of_session(
        import_state,
        texts(repairs.fork_replay_v3.pending_paths@),
        session_id,
        repairs.fork_replay_v3.pending_paths@.len() as int,
    );
    let file = repairs.of_file(source_path);
    &&& texts(result.related_pending_token_v2_paths@) == token_v2_paths
    &&& texts(result.related_pending_fork_replay_v3_paths@) == fork_replay_v3_paths
    &&& result.replay_parent_unavailable == replay_parent_unavailable
    &&& result.file == (FileRepairs {
        rate_limit: file.rate_limit,
        token_v2: file.token_v2 || token_v2_paths.len() > 0,
        fork_replay_v3: file.fork_replay_v3 || replay_parent_unavailable
            || fork_replay_v3_paths.len() > 0,
    })
}

/// The repairs of an imported file.
pub fn session_repairs(
    repairs: &RepairStates,
    import_state: &TextMap<ImportState>,
    source_path: &str,
    session_id: &str,
    replay_parent_unavailable: bool,
) -> (result: SessionRepairs)
    ensures
        fits_import(
            result,
            *repairs,
            import_state@,
            source_path@,
            session_id@,
            replay_parent_unavailable,
        ),
{
    let related_pending_token_v2_paths = pending_repair_paths_for_session(
        import_state,
        &repairs.token_v2.pending_paths,
        session_id,
    );
    let related_pending_fork_replay_v3_paths = pending_repair_paths_for_session(
        import_state,
        &repairs.fork_replay_v3.pending_paths,
        session_id,
    );
    proof {
        assert(texts(related_pending_token_v2_paths@).len()
            == related_pending_token_v2_paths@.len());
        assert(texts(related_pending_fork_replay_v3_paths@).len()
            == related_pending_fork_replay_v3_paths@.len());
    }
    let file = repairs.file_repairs(source_path);
    SessionRepairs {
        file: FileRepairs {
            rate_limit: file.rate_limit,
            token_v2: file.token_v2 || !related_pending_token_v2_paths.is_empty(),
            fork_replay_v3: file.fork_replay_v3 || replay_parent_unavailable
                || !related_pending_fork_replay_v3_paths.is_empty(),
        },
        replay_parent_unavailable,
        related_pending_token_v2_paths,
        related_pending_fork_replay_v3_paths,
    }
}

/// One change to the list of pending files.
#[derive(Clone, Debug)]
pub enum RepairStep {
    /// A file is no longer pending in a repair.
    Clear { repair_key: String, source_path: String },
    /// A file is pending in a repair, for this reason.
    MarkPending { repair_key: String, source_path: String, reason: String },
}

/// What a `RepairStep` holds.
pub enum RepairStepView {
    Clear { repair_key: Seq<char>, source_path: Seq<char> },
    MarkPending { repair_key: Seq<char>, source_path: Seq<char>, reason: Seq<char> },
}

impl View for RepairStep {
    type V = RepairStepView;

    open spec fn view(&self) -> RepairStepView {
        match self {
            RepairStep::Clear { repair_key, source_path } => RepairStepView::Clear {
                repair_key: repair_key@,
                source_path: source_path@,
            },
            RepairStep::MarkPending { repair_key, source_path, reason } => {
                RepairStepView::MarkPending {
                    repair_key: repair_key@,
                    source_path: source_path@,
                    reason: reason@,
                }
            },
        }
    }
}

/// What each step of a list holds.
pub open spec fn step_views(steps: Seq<RepairStep>) -> Seq<RepairStepView> {
    steps.map_values(|step: RepairStep| step@)
}

/// The steps that clear a list of files in a repair.
pub open spec fn clear_steps(repair_key: Seq<char>, paths: Seq<Seq<char>>) -> Seq<RepairStepView> {
    paths.map_values(
        |source_path: Seq<char>| RepairStepView::Clear { repair_key, source_path },
    )
}

/// The steps for a file in one of the repairs: itself and the related files are cleared.
pub open spec fn settled(
    needed: bool,
    repair_key: Seq<char>,
    source_path: Seq<char>,
    related: Seq<Seq<char>>,
) -> Seq<RepairStepView> {
    if needed {
        clear_steps(repair_key, seq![source_path]) + clear_steps(repair_key, related)
    } else {
        Seq::empty()
    }
}

/// The steps for a file in the replay repair, which stays open while the parent is not to be had.
pub open spec fn replay_steps(repairs: SessionRepairs, source_path: Seq<char>) -> Seq<
    RepairStepView,
> {
    if repairs.file.fork_replay_v3 && repairs.replay_parent_unavailable {
        seq![
            RepairStepView::MarkPending {
                repair_key: TOKEN_USAGE_FORK_REPLAY_REPAIR_KEY@,
                source_path,
                reason: "fork replay parent unavailable"@,
            },
        ]
    } else {
        settled(
            repairs.file.fork_replay_v3,
            TOKEN_USAGE_FORK_REPLAY_REPAIR_KEY@,
            source_path,
            texts(repairs.related_pending_fork_replay_v3_paths@),
        )
    }
}

/// All steps for an imported file.
pub open spec fn import_steps(repairs: SessionRepairs, source_path: Seq<char>) -> Seq<
    RepairStepView,
> {
    settled(
        repairs.file.rate_limit,
        RATE_LIMIT_SAMPLE_BACKFILL_KEY@,
        source_path,
        Seq::empty(),
    ) + settled(
        repairs.file.token_v2,
        TOKEN_USAGE_MONOTONIC_REPAIR_KEY@,
        source_path,
        texts(repairs.related_pending_token_v2_paths@),
    ) + replay_steps(repairs, source_path)
}

fn push_settled(
    steps: &mut Vec<RepairStep>,
    needed: bool,
    repair_key: &str,
    source_path: &str,
    related: &Vec<String>,
)
    ensures
        step_views(final(steps)@) == step_views(old(steps)@) + settled(
            needed,
            repair_key@,
            source_path@,
            texts(related@),
        ),
{
    let ghost start = step_views(steps@);
    if !needed {
        proof {
            assert(start + Seq::<RepairStepView>::empty() =~= start);
        }
        return ;
    }
    let ghost first = clear_steps(repair_key@, seq![source_path@]);
    let ghost rest = clear_steps(repair_key@, texts(related@));
    steps.push(
        RepairStep::Clear {
            repair_key: repair_key.to_owned(),
            source_path: source_path.to_owned(),
        },
    );
    proof {
        assert(step_views(steps@) =~= start + first + rest.take(0));
    }
    let mut index: usize = 0;
    while index < related.len()
        invariant
            index <= related.len(),
            rest == clear_steps(repair_key@, texts(related@)),
            step_views(steps@) == start + first + rest.take(index as int),
        decreases related.len() - index,
    {
        let ghost before = steps@;
        steps.push(
            RepairStep::Clear {
                repair_key: repair_key.to_owned(),
                source_path: related[index].clone(),
            },
        );
        proof {
            assert(step_views(steps@) =~= step_views(before).push(rest[index as int]));
            assert(rest.take(index + 1) =~= rest.take(index as int).push(rest[index as int]));
            assert(start + first + rest.take(index + 1) =~= (start + first + rest.take(
                index as int,
            )).push(rest[index as int]));
        }
        index = index + 1;
    }
    proof {
        assert(rest.take(index as int) =~= rest);
        assert(start + first + rest =~= start + (first + rest));
    }
}

/// All steps for an imported file: each repair that it takes part in is settled for it and for
/// the related files, but for a replay repair whose parent was not to be had.
pub fn repair_steps(repairs: &SessionRepairs, source_path: &str) -> (steps: Vec<RepairStep>)
    ensures
        step_views(steps@) == import_steps(*repairs, source_path@),
{
    let mut steps: Vec<RepairStep> = Vec::new();
    let none: Vec<String> = Vec::new();
    proof {
        assert(step_views(steps@) =~= Seq::empty());
        assert(texts(none@) =~= Seq::empty());
    }
    push_settled(
        &mut steps,
        repairs.file.rate_limit,
        RATE_LIMIT_SAMPLE_BACKFILL_KEY,
        source_path,
        &none,
    );
    push_settled(
        &mut steps,
        repairs.file.token_v2,
        TOKEN_USAGE_MONOTONIC_REPAIR_KEY,
        source_path,
        &repairs.related_pending_token_v2_paths,
    );
    let ghost before = step_views(steps@);
    if repairs.file.fork_replay_v3 && repairs.replay_parent_unavailable {
        steps.push(
            RepairStep::MarkPending {
                repair_key: TOKEN_USAGE_FORK_REPLAY_REPAIR_KEY.to_owned(),
                source_path: source_path.to_owned(),
                reason: "fork replay parent unavailable".to_owned(),
            },
        );
        proof {
            assert(step_views(steps@) =~= before + replay_steps(*repairs, source_path@));
        }
    } else {
        push_settled(
            &mut steps,
            repairs.file.fork_replay_v3,
            TOKEN_USAGE_FORK_REPLAY_REPAIR_KEY,
            source_path,
            &repairs.related_pending_fork_replay_v3_paths,
        );
    }
    proof {
        assert(step_views(steps@) =~= import_steps(*repairs, source_path@));
    }
    steps
}

/// An imported file leaves each repair that it takes part in, and takes the other files of its
/// session along; only the replay repair stays open while the parent is not to be had.
pub proof fn imported_file_leaves_its_repairs(
    imported: SessionRepairs,
    repairs: RepairStates,
    import_state: Map<Seq<char>, ImportState>,
    source_path: Seq<char>,
    session_id: Seq<char>,
    parent_unavailable: bool,
)
    requires
        fits_import(
            imported,
            repairs,
            import_state,
            source_path,
            session_id,
            parent_unavailable,
        ),
    ensures
        ({
            let steps = import_steps(imported, source_path);
            let file = repairs.of_file(source_path);
            let cleared = |repair_key: Seq<char>, path: Seq<char>|
                RepairStepView::Clear { repair_key, source_path: path };
            &&& file.rate_limit ==> steps.contains(
                cleared(RATE_LIMIT_SAMPLE_BACKFILL_KEY@, source_path),
            )
            &&& file.token_v2 ==> steps.contains(
                cleared(TOKEN_USAGE_MONOTONIC_REPAIR_KEY@, source_path),
            )
            &&& file.fork_replay_v3 && !parent_unavailable ==> steps.contains(
                cleared(TOKEN_USAGE_FORK_REPLAY_REPAIR_KEY@, source_path),
            )
            &&& parent_unavailable ==> steps.contains(
                RepairStepView::MarkPending {
                    repair_key: TOKEN_USAGE_FORK_REPLAY_REPAIR_KEY@,
                    source_path,
                    reason: "fork replay parent unavailable"@,
                },
            )
            &&& forall|index: int|
                0 <= index < imported.related_pending_token_v2_paths@.len() ==> steps.contains(
                    cleared(
                        TOKEN_USAGE_MONOTONIC_REPAIR_KEY@,
                        (#[trigger] imported.related_pending_token_v2_paths@[index])@,
                    ),
                )
        }),
{
    let steps = import_steps(imported, source_path);
    let rate_limit = settled(
        imported.file.rate_limit,
        RATE_LIMIT_SAMPLE_BACKFILL_KEY@,
        source_path,
        Seq::empty(),
    );
    let related = texts(imported.related_pending_token_v2_paths@);
    let token_v2 = settled(
        imported.file.token_v2,
        TOKEN_USAGE_MONOTONIC_REPAIR_KEY@,
        source_path,
        related,
    );
    if imported.file.rate_limit {
        assert(steps[0] == rate_limit[0]);
    }
    if imported.file.token_v2 {
        assert(steps[rate_limit.len() as int] == token_v2[0]);
    }
    if imported.file.fork_replay_v3 {
        let replay = replay_steps(imported, source_path);
        assert(steps[(rate_limit + token_v2).len() as int] == replay[0]);
    }
    assert forall|index: int|
        0 <= index < imported.related_pending_token_v2_paths@.len() implies steps.contains(
        RepairStepView::Clear {
            repair_key: TOKEN_USAGE_MONOTONIC_REPAIR_KEY@,
            source_path: (#[trigger] imported.related_pending_token_v2_paths@[index])@,
        },
    ) by {
        assert(related[index] == imported.related_pending_token_v2_paths@[index]@);
        assert(token_v2[index + 1] == (RepairStepView::Clear {
            repair_key: TOKEN_USAGE_MONOTONIC_REPAIR_KEY@,
            source_path: related[index],
        }));
        assert(steps[rate_limit.len() + index + 1] == token_v2[index + 1]);
    }
}

} // verus!
