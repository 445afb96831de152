//! Which files an incremental scan looks at.
//!
//! It looks at recent files, at the files of sessions that are known to be active, at files that
//! wait for a repair, and at the archive where an active file is gone or an archived one was not
//! read to its end.

use crate::file_order::{file_views, sort_by_path, sorting_keeps_paths_apart, sorts};
use crate::import_state::{byte_size, ImportState, ImportStateView, SessionFile, SessionFileView};
use crate::paths::{
    extension_of, file_name_of, is_under, join_path, path_below, path_extension, path_file_name,
    path_is_under,
};
use crate::text::{
    add_text, copy_opt, list_holds, opt_is, opt_text, same_text, texts, with_text,
};
use crate::text_map::TextMap;
use vstd::prelude::*;

verus! {

/// What is known of a log file on disk.
#[derive(Clone, Debug)]
pub struct DiskFile {
    /// The session id that the file's name carries.
    pub name_session_id: Option<String>,
    pub file_size: i64,
    pub file_mtime_ms: i64,
}

/// The log file at a path, if there is one.
pub open spec fn file_at(
    disk: Map<Seq<char>, DiskFile>,
    path: Seq<char>,
    bucket: Seq<char>,
) -> Option<SessionFileView> {
    if disk.dom().contains(path) {
        Some(
            SessionFileView {
                source_path: path,
                name_session_id: opt_text(disk[path].name_session_id),
                bucket,
                file_size: disk[path].file_size,
                file_mtime_ms: disk[path].file_mtime_ms,
            },
        )
    } else {
        None
    }
}

fn find_file(disk: &TextMap<DiskFile>, path: &str, bucket: &str) -> (file: Option<SessionFile>)
    ensures
        match file {
            Some(found) => file_at(disk@, path@, bucket@) == Some(found@),
            None => file_at(disk@, path@, bucket@) is None,
        },
{
    match disk.get(path) {
        Some(found) => Some(
            SessionFile {
                source_path: path.to_owned(),
                name_session_id: copy_opt(&found.name_session_id),
                bucket: bucket.to_owned(),
                file_size: found.file_size,
                file_mtime_ms: found.file_mtime_ms,
            },
        ),
        None => None,
    }
}

/// What an incremental scan has gathered so far.
#[derive(Debug)]
pub struct IncrementalFiles {
    pub files: Vec<SessionFile>,
    /// The paths of the files.
    pub collected_paths: Vec<String>,
    /// Active paths that count as present while the archived copy of their file is read.
    pub kept_for_archive_retry: Vec<String>,
}

/// What an `IncrementalFiles` holds.
#[verifier::ext_equal]
pub struct IncrementalView {
    pub files: Seq<SessionFileView>,
    pub collected: Seq<Seq<char>>,
    pub kept: Seq<Seq<char>>,
}

impl View for IncrementalFiles {
    type V = IncrementalView;

    open spec fn view(&self) -> IncrementalView {
        IncrementalView {
            files: file_views(self.files@),
            collected: texts(self.collected_paths@),
            kept: texts(self.kept_for_archive_retry@),
        }
    }
}

/// The root that a file lies below.
#[derive(Clone, Copy, Debug, PartialEq, Eq, Structural)]
pub enum SourceRoot {
    Active,
    Archived,
}

/// What an incremental scan must know of the paths it goes by.
#[derive(Clone, Debug)]
pub struct ScanPaths {
    /// For each known session, where an archived copy of its file would lie.
    pub archived_copies: Vec<Option<String>>,
    /// For each file that waits for a repair, the root that it lies below.
    pub pending_roots: Vec<Option<SourceRoot>>,
}

/// What a `ScanPaths` holds.
#[verifier::ext_equal]
pub struct ScanPathsView {
    pub archived_copies: Seq<Option<Seq<char>>>,
    pub pending_roots: Seq<Option<SourceRoot>>,
}

/// What each text of a list with gaps holds.
pub open spec fn opt_texts(values: Seq<Option<String>>) -> Seq<Option<Seq<char>>> {
    values.map_values(|value: Option<String>| opt_text(value))
}

impl View for ScanPaths {
    type V = ScanPathsView;

    open spec fn view(&self) -> ScanPathsView {
        ScanPathsView {
            archived_copies: opt_texts(self.archived_copies@),
            pending_roots: self.pending_roots@,
        }
    }
}

impl ScanPathsView {
    /// Where an archived copy of the file of the session at `place` would lie, if that is known.
    pub open spec fn archived_copy(self, place: int) -> Option<Seq<char>> {
        if 0 <= place < self.archived_copies.len() {
            self.archived_copies[place]
        } else {
            None
        }
    }

    /// The root that the waiting file at `index` lies below, if it is known.
    pub open spec fn pending_root(self, index: int) -> Option<SourceRoot> {
        if 0 <= index < self.pending_roots.len() {
            self.pending_roots[index]
        } else {
            None
        }
    }
}

/// What an incremental scan goes by.
#[derive(Debug)]
pub struct IncrementalContext {
    pub import_state: TextMap<ImportState>,
    /// The log files on disk, as far as the scan may look at them.
    pub disk: TextMap<DiskFile>,
    pub active_root: String,
    pub archived_root: String,
    pub pending_repair_session_ids: Vec<String>,
    pub pending_repair_paths: Vec<String>,
}

impl IncrementalView {
    /// What is gathered of recent files alone.
    pub open spec fn of_recent(files: Seq<SessionFileView>) -> IncrementalView {
        IncrementalView {
            files,
            collected: recent_paths(files, files.len() as int),
            kept: Seq::empty(),
        }
    }

    /// Whether this is what was gathered, with the files in the order of their paths.
    pub open spec fn sorts(self, gathered: IncrementalView) -> bool {
        sorts(gathered.files, self.files) && self.collected == gathered.collected && self.kept
            == gathered.kept
    }

    /// With one more file, if its path was not collected yet.
    pub open spec fn with_file(self, file: SessionFileView) -> IncrementalView {
        if self.collected.contains(file.source_path) {
            self
        } else {
            IncrementalView {
                files: self.files.push(file),
                collected: self.collected.push(file.source_path),
                ..self
            }
        }
    }

    /// With the file at a path, if there is one and its path was not collected yet.
    pub open spec fn with_file_at(
        self,
        context: IncrementalContext,
        path: Seq<char>,
        bucket: Seq<char>,
    ) -> IncrementalView {
        match file_at(context.disk@, path, bucket) {
            Some(file) => self.with_file(file),
            None => self,
        }
    }

    /// With the file of a session that is known to be active.
    pub open spec fn with_active(
        self,
        context: IncrementalContext,
        state: ImportStateView,
    ) -> IncrementalView {
        if state.source_bucket == "active"@ {
            self.with_file_at(context, state.source_path, "active"@)
        } else {
            self
        }
    }

    /// With a file that waits for a repair, if it lies below one of the two roots.
    pub open spec fn with_pending(
        self,
        context: IncrementalContext,
        path: Seq<char>,
        root: Option<SourceRoot>,
    ) -> IncrementalView {
        match root {
            Some(SourceRoot::Archived) => self.with_file_at(context, path, "archived"@),
            Some(SourceRoot::Active) => self.with_file_at(context, path, "active"@),
            None => self,
        }
    }

    /// With the archived file of a session: its own, or the archived copy of that of an active
    /// session whose file was not found.
    pub open spec fn with_archived(
        self,
        context: IncrementalContext,
        state: ImportStateView,
        archived_copy: Option<Seq<char>>,
    ) -> IncrementalView {
        if state.source_bucket == "archived"@ {
            if context.rereads(state) {
                self.with_file_at(context, state.source_path, "archived"@)
            } else {
                self
            }
        } else if state.source_bucket == "active"@ && !self.collected.contains(
            state.source_path,
        ) {
            match archived_copy {
                Some(archived) if context.disk@.dom().contains(archived) => (IncrementalView {
                    kept: with_text(self.kept, state.source_path),
                    ..self
                }).with_file_at(context, archived, "archived"@),
                _ => self,
            }
        } else {
            self
        }
    }
}

impl IncrementalContext {
    /// Whether the session of an archived file waits for a repair.
    pub open spec fn session_waits(self, state: ImportStateView) -> bool {
        state.session_id is Some && texts(self.pending_repair_session_ids@).contains(
            state.session_id->0,
        )
    }

    /// Whether an archived file is looked at again: it or its session waits for a repair, or it
    /// was not read to its end; and, unless its session waits, it changed on disk.
    pub open spec fn rereads(self, state: ImportStateView) -> bool {
        let unread = match state.parser_checkpoint {
            Some(checkpoint) => checkpoint.completed_offset < byte_size(state.file_size),
            None => false,
        };
        let wanted = self.session_waits(state) || texts(self.pending_repair_paths@).contains(
            state.source_path,
        ) || unread;
        wanted && match file_at(self.disk@, state.source_path, "archived"@) {
            Some(file) => self.session_waits(state) || state.file_size != file.file_size
                || state.file_mtime_ms != file.file_mtime_ms,
            None => false,
        }
    }

    /// What is gathered from the files of the first `end` sessions that are known to be active.
    pub open spec fn after_active(self, start: IncrementalView, end: int) -> IncrementalView
        decreases end,
    {
        if end <= 0 {
            start
        } else {
            self.after_active(start, end - 1).with_active(
                self,
                self.import_state@[self.import_state.order()[end - 1]]@,
            )
        }
    }

    /// What is gathered from the first `end` files that wait for a repair.
    pub open spec fn after_pending(
        self,
        paths: ScanPathsView,
        start: IncrementalView,
        end: int,
    ) -> IncrementalView
        decreases end,
    {
        if end <= 0 {
            start
        } else {
            self.after_pending(paths, start, end - 1).with_pending(
                self,
                texts(self.pending_repair_paths@)[end - 1],
                paths.pending_root(end - 1),
            )
        }
    }

    /// What is gathered from the archive for the first `end` sessions.
    pub open spec fn after_archived(
        self,
        paths: ScanPathsView,
        start: IncrementalView,
        end: int,
    ) -> IncrementalView
        decreases end,
    {
        if end <= 0 {
            start
        } else {
            self.after_archived(paths, start, end - 1).with_archived(
                self,
                self.import_state@[self.import_state.order()[end - 1]]@,
                paths.archived_copy(end - 1),
            )
        }
    }

    /// All that an incremental scan gathers, after the recent files: first from the sessions
    /// that are known to be active, then from what waits for a repair, then from the archive.
    pub open spec fn gathered(self, paths: ScanPathsView, start: IncrementalView) ->
        IncrementalView {
        let sessions = self.import_state.order().len() as int;
        self.after_archived(
            paths,
            self.after_pending(
                paths,
                self.after_active(start, sessions),
                self.pending_repair_paths@.len() as int,
            ),
            sessions,
        )
    }

    /// Where an archived copy of the file at a path would lie: under its own name in the archive.
    pub open spec fn copy_in_archive(self, path: Seq<char>) -> Option<Seq<char>> {
        match path_file_name(path) {
            Some(name) => Some(path_below(self.archived_root@, name)),
            None => None,
        }
    }

    /// The root that a path lies below; the archive counts first.
    pub open spec fn root_of(self, path: Seq<char>) -> Option<SourceRoot> {
        if path_is_under(path, self.archived_root@) {
            Some(SourceRoot::Archived)
        } else if path_is_under(path, self.active_root@) {
            Some(SourceRoot::Active)
        } else {
            None
        }
    }

    /// Where files are looked for on account of the first `end` sessions.
    pub open spec fn probed_for_sessions(self, known: ScanPathsView, end: int) -> Seq<Seq<char>>
        decreases end,
    {
        if end <= 0 {
            Seq::empty()
        } else {
            let own = self.probed_for_sessions(known, end - 1).push(
                self.import_state@[self.import_state.order()[end - 1]]@.source_path,
            );
            match known.archived_copy(end - 1) {
                Some(archived) => own.push(archived),
                None => own,
            }
        }
    }

    /// Where files are looked for besides the recent ones.
    pub open spec fn probed(self, known: ScanPathsView) -> Seq<Seq<char>> {
        self.probed_for_sessions(known, self.import_state.order().len() as int) + texts(
            self.pending_repair_paths@,
        )
    }

    /// What a scan knows of its paths.
    pub open spec fn known_paths(self) -> ScanPathsView {
        ScanPathsView {
            archived_copies: self.import_state.order().map_values(
                |key: Seq<char>| self.copy_in_archive(self.import_state@[key]@.source_path),
            ),
            pending_roots: texts(self.pending_repair_paths@).map_values(
                |path: Seq<char>| self.root_of(path),
            ),
        }
    }
}

impl IncrementalFiles {
    fn add_file(&mut self, file: SessionFile)
        ensures
            final(self)@ == old(self)@.with_file(file@),
    {
        if !list_holds(&self.collected_paths, file.source_path.as_str()) {
            let ghost paths = self.collected_paths@;
            let ghost files = self.files@;
            self.collected_paths.push(file.source_path.clone());
            self.files.push(file);
            proof {
                assert(texts(self.collected_paths@) =~= texts(paths).push(file@.source_path));
                assert(file_views(self.files@) =~= file_views(files).push(file@));
            }
        }
    }

    fn add_file_at(&mut self, context: &IncrementalContext, path: &str, bucket: &str)
        ensures
            final(self)@ == old(self)@.with_file_at(*context, path@, bucket@),
    {
        match find_file(&context.disk, path, bucket) {
            Some(file) => {
                self.add_file(file);
            },
            None => {},
        }
    }

    fn add_pending(&mut self, context: &IncrementalContext, path: &str, root: Option<SourceRoot>)
        ensures
            final(self)@ == old(self)@.with_pending(*context, path@, root),
    {
        match root {
            Some(SourceRoot::Archived) => {
                self.add_file_at(context, path, "archived");
            },
            Some(SourceRoot::Active) => {
                self.add_file_at(context, path, "active");
            },
            None => {},
        }
    }

    fn add_archived(
        &mut self,
        context: &IncrementalContext,
        state: &ImportState,
        archived_copy: Option<&String>,
    )
        ensures
            final(self)@ == old(self)@.with_archived(
                *context,
                state@,
                match archived_copy {
                    Some(path) => Some(path@),
                    None => None,
                },
            ),
    {
        if same_text(state.source_bucket.as_str(), "archived") {
            if context.looks_again(state) {
                self.add_file_at(context, state.source_path.as_str(), "archived");
            }
        } else if same_text(state.source_bucket.as_str(), "active") && !list_holds(
            &self.collected_paths,
            state.source_path.as_str(),
        ) {
            match archived_copy {
                Some(archived) => {
                    if context.disk.holds(archived.as_str()) {
                        add_text(&mut self.kept_for_archive_retry, state.source_path.as_str());
                        self.add_file_at(context, archived.as_str(), "archived");
                    }
                },
                None => {},
            }
        }
    }
}

impl ScanPaths {
    fn find_copy(&self, place: usize) -> (path: Option<&String>)
        ensures
            self@.archived_copy(place as int) == match path {
                Some(path) => Some(path@),
                None => None,
            },
    {
        if place < self.archived_copies.len() {
            self.archived_copies[place].as_ref()
        } else {
            None
        }
    }

    fn find_root(&self, index: usize) -> (root: Option<SourceRoot>)
        ensures
            root == self@.pending_root(index as int),
    {
        if index < self.pending_roots.len() {
            self.pending_roots[index]
        } else {
            None
        }
    }
}

impl IncrementalContext {
    fn looks_again(&self, state: &ImportState) -> (result: bool)
        ensures
            result == self.rereads(state@),
    {
        let session_waits = match &state.session_id {
            Some(id) => list_holds(&self.pending_repair_session_ids, id.as_str()),
            None => false,
        };
        let size: u64 = if state.file_size < 0 {
            0
        } else {
            state.file_size as u64
        };
        let unread = match &state.parser_checkpoint {
            Some(checkpoint) => checkpoint.completed_offset < size,
            None => false,
        };
        if !session_waits && !unread && !list_holds(
            &self.pending_repair_paths,
            state.source_path.as_str(),
        ) {
            return false;
        }
        match self.disk.get(state.source_path.as_str()) {
            Some(file) => session_waits || state.file_size != file.file_size
                || state.file_mtime_ms != file.file_mtime_ms,
            None => false,
        }
    }

    fn find_copy_in_archive(&self, path: &str) -> (copy: Option<String>)
        ensures
            opt_text(copy) == self.copy_in_archive(path@),
    {
        match file_name_of(path) {
            Some(name) => Some(join_path(self.archived_root.as_str(), name.as_str())),
            None => None,
        }
    }

    fn find_root(&self, path: &str) -> (root: Option<SourceRoot>)
        ensures
            root == self.root_of(path@),
    {
        if is_under(path, self.archived_root.as_str()) {
            Some(SourceRoot::Archived)
        } else if is_under(path, self.active_root.as_str()) {
            Some(SourceRoot::Active)
        } else {
            None
        }
    }

    /// What a scan must know of the paths it goes by.
    pub fn scan_paths(&self) -> (paths: ScanPaths)
        ensures
            paths@ == self.known_paths(),
    {
        let mut archived_copies: Vec<Option<String>> = Vec::new();
        let count = self.import_state.len();
        let mut place: usize = 0;
        while place < count
            invariant
                place <= count,
                count == self.import_state.order().len(),
                archived_copies.len() == place,
                forall|done: int|
                    0 <= done < place ==> opt_text(#[trigger] archived_copies[done])
                        == self.known_paths().archived_copies[done],
            decreases count - place,
        {
            let entry = self.import_state.entry(place);
            archived_copies.push(self.find_copy_in_archive(entry.1.source_path.as_str()));
            place = place + 1;
        }
        let mut pending_roots: Vec<Option<SourceRoot>> = Vec::new();
        let mut index: usize = 0;
        while index < self.pending_repair_paths.len()
            invariant
                index <= self.pending_repair_paths.len(),
                pending_roots.len() == index,
                forall|done: int|
                    0 <= done < index ==> #[trigger] pending_roots[done]
                        == self.known_paths().pending_roots[done],
            decreases self.pending_repair_paths.len() - index,
        {
            pending_roots.push(self.find_root(self.pending_repair_paths[index].as_str()));
            index = index + 1;
        }
        let paths = ScanPaths { archived_copies, pending_roots };
        proof {
            assert(paths@ =~= self.known_paths());
        }
        paths
    }

    /// The paths at which an incremental scan may look for files besides the recent ones: those
    /// of known sessions, those that wait for a repair, and the archived copies of active files.
    pub fn probe_paths(&self, known: &ScanPaths) -> (paths: Vec<String>)
        ensures
            texts(paths@) == self.probed(known@),
    {
        let mut paths: Vec<String> = Vec::new();
        proof {
            assert(texts(paths@) =~= Seq::empty());
        }
        let count = self.import_state.len();
        let mut place: usize = 0;
        while place < count
            invariant
                place <= count,
                count == self.import_state.order().len(),
                texts(paths@) == self.probed_for_sessions(known@, place as int),
            decreases count - place,
        {
            let entry = self.import_state.entry(place);
            add_path(&mut paths, entry.1.source_path.as_str());
            match known.find_copy(place) {
                Some(archived) => {
                    add_path(&mut paths, archived.as_str());
                },
                None => {},
            }
            place = place + 1;
        }
        let ghost first = texts(paths@);
        proof {
            assert(first + texts(self.pending_repair_paths@).take(0) =~= first);
        }
        let mut index: usize = 0;
        while index < self.pending_repair_paths.len()
            invariant
                index <= self.pending_repair_paths.len(),
                texts(paths@) == first + texts(self.pending_repair_paths@).take(index as int),
            decreases self.pending_repair_paths.len() - index,
        {
            let ghost before = texts(paths@);
            add_path(&mut paths, self.pending_repair_paths[index].as_str());
            proof {
                let waiting = texts(self.pending_repair_paths@);
                assert(waiting.take(index + 1) =~= waiting.take(index as int).push(
                    waiting[index as int],
                ));
                assert(texts(paths@) =~= first + waiting.take(index + 1));
            }
            index = index + 1;
        }
        proof {
            let waiting = texts(self.pending_repair_paths@);
            assert(waiting.take(waiting.len() as int) =~= waiting);
        }
        paths
    }

    /// All files that an incremental scan looks at, in the order of their paths.
    pub fn collect_incremental_session_files(&self, recent: Vec<SessionFile>) -> (result:
        IncrementalFiles)
        ensures
            result@.sorts(
                self.gathered(self.known_paths(), IncrementalView::of_recent(file_views(recent@))),
            ),
    {
        let known = self.scan_paths();
        self.gather_session_files(recent, &known)
    }

    /// All files that an incremental scan looks at, in the order of their paths, with what is
    /// known of its paths.
    pub fn gather_session_files(&self, recent: Vec<SessionFile>, known: &ScanPaths) -> (result:
        IncrementalFiles)
        ensures
            result@.sorts(
                self.gathered(known@, IncrementalView::of_recent(file_views(recent@))),
            ),
    {
        let gathered = self.gather_in_turn(recent, known);
        IncrementalFiles {
            files: sort_by_path(gathered.files),
            collected_paths: gathered.collected_paths,
            kept_for_archive_retry: gathered.kept_for_archive_retry,
        }
    }

    /// All files that an incremental scan looks at, in the order of the reasons to do so.
    fn gather_in_turn(&self, recent: Vec<SessionFile>, known: &ScanPaths) -> (result:
        IncrementalFiles)
        ensures
            result@ == self.gathered(known@, IncrementalView::of_recent(file_views(recent@))),
    {
        let mut collected_paths: Vec<String> = Vec::new();
        proof {
            assert(texts(collected_paths@) =~= Seq::empty());
        }
        let ghost shown = file_views(recent@);
        let mut index: usize = 0;
        while index < recent.len()
            invariant
                index <= recent.len(),
                shown == file_views(recent@),
                texts(collected_paths@) == recent_paths(shown, index as int),
            decreases recent.len() - index,
        {
            add_text(&mut collected_paths, recent[index].source_path.as_str());
            index = index + 1;
        }
        let mut result = IncrementalFiles {
            files: recent,
            collected_paths,
            kept_for_archive_retry: Vec::new(),
        };
        let ghost start = result@;
        proof {
            assert(start.kept =~= Seq::empty());
        }
        let count = self.import_state.len();
        let mut place: usize = 0;
        while place < count
            invariant
                place <= count,
                count == self.import_state.order().len(),
                result@ == self.after_active(start, place as int),
            decreases count - place,
        {
            let entry = self.import_state.entry(place);
            let state = entry.1;
            if same_text(state.source_bucket.as_str(), "active") {
                result.add_file_at(self, state.source_path.as_str(), "active");
            }
            place = place + 1;
        }
        let ghost middle = result@;
        let mut index: usize = 0;
        while index < self.pending_repair_paths.len()
            invariant
                index <= self.pending_repair_paths.len(),
                result@ == self.after_pending(known@, middle, index as int),
            decreases self.pending_repair_paths.len() - index,
        {
            result.add_pending(
                self,
                self.pending_repair_paths[index].as_str(),
                known.find_root(index),
            );
            index = index + 1;
        }
        let ghost last = result@;
        let mut place: usize = 0;
        while place < count
            invariant
                place <= count,
                count == self.import_state.order().len(),
                result@ == self.after_archived(known@, last, place as int),
            decreases count - place,
        {
            let entry = self.import_state.entry(place);
            result.add_archived(self, entry.1, known.find_copy(place));
            place = place + 1;
        }
        result
    }
}

/// The paths of the first `end` files, each once.
pub open spec fn recent_paths(files: Seq<SessionFileView>, end: int) -> Seq<Seq<char>>
    decreases end,
{
    if end <= 0 {
        Seq::empty()
    } else {
        with_text(recent_paths(files, end - 1), files[end - 1].source_path)
    }
}

fn add_path(paths: &mut Vec<String>, path: &str)
    ensures
        texts(final(paths)@) == texts(old(paths)@).push(path@),
{
    let ghost before = texts(paths@);
    paths.push(path.to_owned());
    proof {
        assert(texts(paths@) =~= before.push(path@));
    }
}

impl IncrementalView {
    /// Whether each file is gathered once, under its own path.
    pub open spec fn is_aligned(self) -> bool {
        self.collected.no_duplicates() && self.files.len() == self.collected.len() && forall|
            index: int,
        |
            0 <= index < self.files.len() ==> (#[trigger] self.files[index]).source_path
                == self.collected[index]
    }
}

proof fn file_keeps_alignment(view: IncrementalView, file: SessionFileView)
    requires
        view.is_aligned(),
    ensures
        view.with_file(file).is_aligned(),
{
    let next = view.with_file(file);
    if !view.collected.contains(file.source_path) {
        assert forall|left: int, right: int|
            0 <= left < next.collected.len() && 0 <= right < next.collected.len() && left
                != right implies next.collected[left] != next.collected[right] by {
            if left < view.collected.len() {
                assert(view.collected.contains(view.collected[left]));
            }
            if right < view.collected.len() {
                assert(view.collected.contains(view.collected[right]));
            }
        }
    }
}

proof fn archive_keeps_alignment(
    view: IncrementalView,
    context: IncrementalContext,
    state: ImportStateView,
    archived_copy: Option<Seq<char>>,
)
    requires
        view.is_aligned(),
    ensures
        view.with_archived(context, state, archived_copy).is_aligned(),
{
    if let Some(file) = file_at(context.disk@, state.source_path, "archived"@) {
        file_keeps_alignment(view, file);
    }
    if let Some(archived) = archived_copy {
        let kept = IncrementalView { kept: with_text(view.kept, state.source_path), ..view };
        if let Some(file) = file_at(context.disk@, archived, "archived"@) {
            file_keeps_alignment(kept, file);
        }
    }
}

proof fn stages_keep_alignment(
    context: IncrementalContext,
    paths: ScanPathsView,
    start: IncrementalView,
    end: int,
)
    requires
        start.is_aligned(),
    ensures
        context.after_active(start, end).is_aligned(),
        context.after_pending(paths, start, end).is_aligned(),
        context.after_archived(paths, start, end).is_aligned(),
    decreases end,
{
    if end > 0 {
        stages_keep_alignment(context, paths, start, end - 1);
        let state = context.import_state@[context.import_state.order()[end - 1]]@;
        if let Some(file) = file_at(context.disk@, state.source_path, "active"@) {
            file_keeps_alignment(context.after_active(start, end - 1), file);
        }
        let path = texts(context.pending_repair_paths@)[end - 1];
        let waiting = context.after_pending(paths, start, end - 1);
        if let Some(file) = file_at(context.disk@, path, "archived"@) {
            file_keeps_alignment(waiting, file);
        }
        if let Some(file) = file_at(context.disk@, path, "active"@) {
            file_keeps_alignment(waiting, file);
        }
        archive_keeps_alignment(
            context.after_archived(paths, start, end - 1),
            context,
            state,
            paths.archived_copy(end - 1),
        );
    }
}

/// An incremental scan looks at no file twice, however many reasons there are to look at it.
pub proof fn no_file_is_gathered_twice(
    context: IncrementalContext,
    paths: ScanPathsView,
    start: IncrementalView,
    result: IncrementalView,
    left: int,
    right: int,
)
    requires
        start.is_aligned(),
        result.sorts(context.gathered(paths, start)),
        0 <= left < right < result.files.len(),
    ensures
        result.files[left].source_path != result.files[right].source_path,
{
    let sessions = context.import_state.order().len() as int;
    let waiting = context.pending_repair_paths@.len() as int;
    stages_keep_alignment(context, paths, start, sessions);
    let active = context.after_active(start, sessions);
    stages_keep_alignment(context, paths, active, waiting);
    stages_keep_alignment(
        context,
        paths,
        context.after_pending(paths, active, waiting),
        sessions,
    );
    let gathered = context.gathered(paths, start);
    assert forall|one: int, other: int| 0 <= one < other < gathered.files.len() implies (
    #[trigger] gathered.files[one]).source_path != (
    #[trigger] gathered.files[other]).source_path by {
        assert(gathered.collected[one] != gathered.collected[other]);
    }
    sorting_keeps_paths_apart(gathered.files, result.files, left, right);
}

/// The extension of log files.
pub const LOG_EXTENSION: &'static str = "jsonl";

/// Whether an extension is that of log files.
pub fn is_log_extension(extension: &Option<String>) -> (result: bool)
    ensures
        result == (opt_text(*extension) == Some(LOG_EXTENSION@)),
{
    opt_is(extension, LOG_EXTENSION)
}

/// Whether a path is one of a log file.
pub fn is_log_path(path: &str) -> (result: bool)
    ensures
        result == (path_extension(path@) == Some(LOG_EXTENSION@)),
{
    is_log_extension(&extension_of(path))
}

} // verus!
