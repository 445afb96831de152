//! How a scan goes about a file: what it asks for, in which case, and what it counts.

use crate::file_import::{content_of, FileReply, FileStage, ScanStateView, SessionContent};
use crate::import_state::SessionFileView;
use crate::models::snapshot_views;
use crate::place_laws::{blank_texts_are_all_space, is_all_space};
use crate::repairs::fits_import;
use crate::replay_cache::{keeps_parent, ParentReplayCacheEntry};
use crate::session_log::ParsedSession;
use crate::session_log_laws::added_text_is_there;
use crate::text::opt_text;
use crate::topology::ExistingSessionRelation;
use crate::usage::ParsedSessionMode;
use vstd::prelude::*;

verus! {

/// Whether a session that was read in full forked off from this one.
pub open spec fn forked_from(content: SessionContent, parent: Seq<char>) -> bool {
    content.session.mode == ParsedSessionMode::Full && content.session.explicit_forked_from_id
        == Some(parent) && !is_all_space(parent)
}

/// Whether a session is no fork that was read in full.
pub open spec fn is_no_fork(content: SessionContent) -> bool {
    forall|parent: Seq<char>| !#[trigger] forked_from(content, parent)
}

proof fn fork_is_found(content: SessionContent)
    ensures
        forall|parent: Seq<char>| #[trigger]
            forked_from(content, parent) <==> content.full_fork_parent() == Some(parent),
        is_no_fork(content) <==> content.full_fork_parent() is None,
{
    if let Some(parent) = content.session.explicit_forked_from_id {
        blank_texts_are_all_space(parent);
    }
    if let Some(parent) = content.full_fork_parent() {
        assert(forked_from(content, parent));
    }
}

/// Whether a session goes on from a stage, with nothing but its place among the others left to be
/// settled: it is ready to be stored, or its place is looked up.
pub open spec fn goes_to_its_place(next: FileStage, content: SessionContent) -> bool {
    match next {
        FileStage::Store(prepared) => content_of(prepared.parsed) == content,
        FileStage::LoadRelation { parsed, .. } => content_of(parsed) == content,
        _ => false,
    }
}

/// The log of a fork's parent is located first, where its place is not known.
pub proof fn unknown_parent_is_located(
    scan: ScanStateView,
    file: SessionFileView,
    stage: FileStage,
    parsed: ParsedSession,
    bytes_read: u64,
    after: ScanStateView,
    next: FileStage,
    parent: Seq<char>,
)
    requires
        stage is ReadTail || stage is ReadInFull,
        scan.leads(file, stage, FileReply::Read { parsed, bytes_read }, after, next),
        forked_from(content_of(parsed), parent),
        !scan.paths.dom().contains(parent),
    ensures
        next matches FileStage::LocateParent { parsed: kept, parent_id } && content_of(kept)
            == content_of(parsed) && parent_id@ == parent,
{
    fork_is_found(content_of(parsed));
}

/// The log of a fork's parent is read, where it lies, unless its readings are already known. A fork
/// that does not say when it forked off needs none.
pub proof fn known_parent_is_read(
    scan: ScanStateView,
    file: SessionFileView,
    parsed: ParsedSession,
    bytes_read: u64,
    after: ScanStateView,
    next: FileStage,
    parent: Seq<char>,
)
    requires
        scan.leads(
            file,
            FileStage::ReadInFull,
            FileReply::Read { parsed, bytes_read },
            after,
            next,
        ),
        forked_from(content_of(parsed), parent),
        scan.paths.dom().contains(parent),
        !scan.cache.entries.dom().contains(parent),
    ensures
        parsed.explicit_fork_timestamp is Some ==> (next matches FileStage::ReadParent {
            parsed: kept,
            parent_id,
            source_path,
        } && content_of(kept) == content_of(parsed) && parent_id@ == parent && opt_text(source_path)
            == Some(scan.paths[parent])),
        parsed.explicit_fork_timestamp is None ==> goes_to_its_place(next, content_of(parsed)),
{
    fork_is_found(content_of(parsed));
}

/// Where a parent's log was located, it is read there, and its place is known from then on.
pub proof fn located_parent_is_read_there(
    scan: ScanStateView,
    file: SessionFileView,
    parsed: ParsedSession,
    parent_id: String,
    path: Option<String>,
    after: ScanStateView,
    next: FileStage,
)
    requires
        scan.leads(
            file,
            FileStage::LocateParent { parsed, parent_id },
            FileReply::Located(path),
            after,
            next,
        ),
        forked_from(content_of(parsed), parent_id@),
        parsed.explicit_fork_timestamp is Some,
        !scan.cache.entries.dom().contains(parent_id@),
    ensures
        path is Some ==> after.paths.dom().contains(parent_id@) && after.paths[parent_id@]
            == path->0@,
        next matches FileStage::ReadParent { parsed: kept, parent_id: wanted, source_path }
            && content_of(kept) == content_of(parsed) && wanted@ == parent_id@ && (path is Some
            ==> opt_text(source_path) == Some(path->0@)),
{
    fork_is_found(content_of(parsed));
}

/// A session that is no fork, or of which only what was appended was read, goes to its place as it
/// was read.
pub proof fn session_without_parent_goes_to_its_place(
    scan: ScanStateView,
    file: SessionFileView,
    stage: FileStage,
    parsed: ParsedSession,
    bytes_read: u64,
    after: ScanStateView,
    next: FileStage,
)
    requires
        stage is ReadTail || stage is ReadInFull,
        scan.leads(file, stage, FileReply::Read { parsed, bytes_read }, after, next),
        is_no_fork(content_of(parsed)),
    ensures
        goes_to_its_place(next, content_of(parsed)),
{
    fork_is_found(content_of(parsed));
}

/// What was read of a file is counted: its bytes, and the file itself by how it was read.
pub proof fn reading_is_counted(
    scan: ScanStateView,
    file: SessionFileView,
    stage: FileStage,
    parsed: ParsedSession,
    bytes_read: u64,
    after: ScanStateView,
    next: FileStage,
)
    requires
        stage is ReadTail || stage is ReadInFull,
        scan.leads(file, stage, FileReply::Read { parsed, bytes_read }, after, next),
        scan.progress.source_bytes_read + bytes_read <= u64::MAX,
        scan.progress.tail_parsed_files < usize::MAX,
        scan.progress.fully_parsed_files < usize::MAX,
    ensures
        after.progress.source_bytes_read == scan.progress.source_bytes_read + bytes_read,
        stage is ReadTail ==> after.progress.tail_parsed_files == scan.progress.tail_parsed_files
            + 1 && after.progress.fully_parsed_files == scan.progress.fully_parsed_files,
        stage is ReadInFull ==> after.progress.fully_parsed_files
            == scan.progress.fully_parsed_files + 1 && after.progress.tail_parsed_files
            == scan.progress.tail_parsed_files,
{
}

/// What was read of a parent's log is counted in bytes, and as no file.
pub proof fn parent_reading_is_counted(
    scan: ScanStateView,
    file: SessionFileView,
    stage: FileStage,
    reply: FileReply,
    after: ScanStateView,
    next: FileStage,
)
    requires
        stage is ReadParent,
        reply is ParentRead,
        scan.leads(file, stage, reply, after, next),
        scan.progress.source_bytes_read + reply->ParentRead_bytes_read <= u64::MAX,
    ensures
        after.progress.source_bytes_read == scan.progress.source_bytes_read
            + reply->ParentRead_bytes_read,
        after.progress.tail_parsed_files == scan.progress.tail_parsed_files,
        after.progress.fully_parsed_files == scan.progress.fully_parsed_files,
{
    if let (
        FileStage::ReadParent { parsed, parent_id, .. },
        FileReply::ParentRead { snapshots, bytes_read },
    ) = (stage, reply) {
        let marked = match snapshots {
            Some(readings) => content_of(parsed).with_copied(snapshot_views(readings@)),
            None => content_of(parsed),
        };
        let entry = choose|entry: ParentReplayCacheEntry|
            #[trigger] keeps_parent(entry, parent_id@, snapshots) && scan.with_parent(
                parent_id@,
                entry,
                bytes_read,
            ).relates(file, marked, snapshots is None, after, next);
        assert(scan.with_parent(parent_id@, entry, bytes_read).progress
            == scan.progress.with_bytes(bytes_read));
    }
}

/// What was appended and cannot be read on its own is read with the whole file, and counts as
/// nothing yet.
pub proof fn unreadable_tail_is_read_in_full(
    scan: ScanStateView,
    file: SessionFileView,
    after: ScanStateView,
    next: FileStage,
)
    requires
        scan.leads(file, FileStage::ReadTail, FileReply::NotReadable, after, next),
    ensures
        next is ReadInFull,
        after == scan,
{
}

/// A session that is stored is counted by its place: where the store knows it with the same parent
/// the links stay; where it is new, has no parent and is nobody's, it gets a root link of its own;
/// otherwise all links are computed anew.
pub proof fn stored_session_is_counted_by_its_place(
    scan: ScanStateView,
    file: SessionFileView,
    parsed: ParsedSession,
    parent_unavailable: bool,
    relation: ExistingSessionRelation,
    after: ScanStateView,
    next: FileStage,
)
    requires
        scan.leads(
            file,
            FileStage::LoadRelation { parsed, parent_unavailable },
            FileReply::Relation(relation),
            after,
            next,
        ),
    ensures
        ({
            let session_id = parsed.raw_session.session_id@;
            let parent = opt_text(parsed.raw_session.parent_session_id);
            let stays = relation.exists && opt_text(relation.parent_session_id) == parent;
            let is_new_root = !relation.exists && parent is None && relation.child_count == 0;
            &&& next matches FileStage::Store(prepared) && content_of(prepared.parsed)
                == content_of(parsed) && prepared.repairs.replay_parent_unavailable
                == parent_unavailable
            &&& after.progress.imported_session_ids.contains(session_id)
            &&& after.relations.dom().contains(session_id) && after.relations[session_id]
                == relation
            &&& after.progress.topology_dirty <==> scan.progress.topology_dirty || (!stays
                && !is_new_root)
            &&& is_new_root ==> after.progress.new_root_session_ids
                == scan.progress.new_root_session_ids.push(session_id)
            &&& !is_new_root ==> after.progress.new_root_session_ids
                == scan.progress.new_root_session_ids
        }),
{
    added_text_is_there(scan.progress.imported_session_ids, parsed.raw_session.session_id@);
}

/// A session that is ready to be stored is of its file, as the scan found the file, with the
/// repairs of that file and of that session.
pub proof fn stored_session_is_of_its_file(
    scan: ScanStateView,
    file: SessionFileView,
    stage: FileStage,
    reply: FileReply,
    after: ScanStateView,
    next: FileStage,
)
    requires
        stage.is_answered_by(reply),
        scan.leads(file, stage, reply, after, next),
        next is Store,
    ensures
        ({
            let prepared = next->Store_0;
            &&& prepared.session_file.source_path@ == file.source_path
            &&& prepared.session_file.bucket@ == file.bucket
            &&& prepared.session_file.file_size == file.file_size
            &&& prepared.session_file.file_mtime_ms == file.file_mtime_ms
            &&& fits_import(
                prepared.repairs,
                scan.repairs,
                scan.import_state@,
                file.source_path,
                prepared.parsed.raw_session.session_id@,
                prepared.repairs.replay_parent_unavailable,
            )
            &&& after.progress.imported_session_ids.contains(
                prepared.parsed.raw_session.session_id@,
            )
        }),
{
    let prepared = next->Store_0;
    let id = prepared.parsed.raw_session.session_id@;
    assert(content_of(prepared.parsed).session_id() == id);
    added_text_is_there(scan.progress.imported_session_ids, id);
}

} // verus!
