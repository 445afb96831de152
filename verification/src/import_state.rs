//! Log files, and what is remembered of their last import.

use crate::models::TokenUsage;
use crate::text::{copy_opt, opt_text, same_text};
use vstd::prelude::*;

verus! {

/// A log file as a scan finds it.
#[derive(Clone, Debug)]
pub struct SessionFile {
    pub source_path: String,
    /// The session id that the file's name carries.
    pub name_session_id: Option<String>,
    /// Where the file stands: `active` or `archived`.
    pub bucket: String,
    pub file_size: i64,
    pub file_mtime_ms: i64,
}

/// What a `SessionFile` holds.
#[verifier::ext_equal]
pub struct SessionFileView {
    pub source_path: Seq<char>,
    pub name_session_id: Option<Seq<char>>,
    pub bucket: Seq<char>,
    pub file_size: i64,
    pub file_mtime_ms: i64,
}

impl View for SessionFile {
    type V = SessionFileView;

    open spec fn view(&self) -> SessionFileView {
        SessionFileView {
            source_path: self.source_path@,
            name_session_id: opt_text(self.name_session_id),
            bucket: self.bucket@,
            file_size: self.file_size,
            file_mtime_ms: self.file_mtime_ms,
        }
    }
}

impl SessionFile {
    /// A copy of the file's description.
    pub fn copy(&self) -> (copy: SessionFile)
        ensures
            copy == *self,
    {
        SessionFile {
            source_path: self.source_path.clone(),
            name_session_id: copy_opt(&self.name_session_id),
            bucket: self.bucket.clone(),
            file_size: self.file_size,
            file_mtime_ms: self.file_mtime_ms,
        }
    }
}

/// Where the reading of a log stopped, and what it needs to go on from there.
#[derive(Clone, Debug)]
pub struct ParserCheckpoint {
    pub completed_offset: u64,
    /// The bytes of the file right before the offset.
    pub prefix_signature: Vec<u8>,
    pub last_usage: Option<TokenUsage>,
    pub current_model: Option<String>,
    pub explicit_fast_mode: Option<bool>,
    pub latest_plan_type: Option<String>,
}

/// What a `ParserCheckpoint` holds.
#[verifier::ext_equal]
pub struct ParserCheckpointView {
    pub completed_offset: u64,
    pub prefix_signature: Seq<u8>,
    pub last_usage: Option<TokenUsage>,
    pub current_model: Option<Seq<char>>,
    pub explicit_fast_mode: Option<bool>,
    pub latest_plan_type: Option<Seq<char>>,
}

impl View for ParserCheckpoint {
    type V = ParserCheckpointView;

    open spec fn view(&self) -> ParserCheckpointView {
        ParserCheckpointView {
            completed_offset: self.completed_offset,
            prefix_signature: self.prefix_signature@,
            last_usage: self.last_usage,
            current_model: opt_text(self.current_model),
            explicit_fast_mode: self.explicit_fast_mode,
            latest_plan_type: opt_text(self.latest_plan_type),
        }
    }
}

/// How many bytes a prefix signature has at most.
pub const PARSER_PREFIX_SIGNATURE_BYTES: u64 = 128;

/// The range of the file, as its start and its length, that a prefix signature covers: the bytes
/// right before the offset.
pub fn prefix_signature_range(completed_offset: u64) -> (range: (u64, u64))
    ensures
        range.0 + range.1 == completed_offset,
        range.1 <= PARSER_PREFIX_SIGNATURE_BYTES,
        range.1 == PARSER_PREFIX_SIGNATURE_BYTES || range.0 == 0,
{
    if completed_offset <= PARSER_PREFIX_SIGNATURE_BYTES {
        (0, completed_offset)
    } else {
        (completed_offset - PARSER_PREFIX_SIGNATURE_BYTES, PARSER_PREFIX_SIGNATURE_BYTES)
    }
}

/// Whether two signatures are the same.
pub fn same_signature(left: &Vec<u8>, right: &Vec<u8>) -> (same: bool)
    ensures
        same == (left@ == right@),
{
    if left.len() != right.len() {
        return false;
    }
    let mut index: usize = 0;
    while index < left.len()
        invariant
            index <= left.len(),
            left.len() == right.len(),
            forall|seen: int| 0 <= seen < index ==> left[seen] == right[seen],
        decreases left.len() - index,
    {
        if left[index] != right[index] {
            return false;
        }
        index = index + 1;
    }
    proof {
        assert(left@ =~= right@);
    }
    true
}

/// What is remembered of the last import of a file.
#[derive(Clone, Debug)]
pub struct ImportState {
    pub source_path: String,
    pub session_id: Option<String>,
    pub source_bucket: String,
    pub file_size: i64,
    pub file_mtime_ms: i64,
    pub parser_checkpoint: Option<ParserCheckpoint>,
}

/// What an optional checkpoint holds.
pub open spec fn opt_checkpoint(checkpoint: Option<ParserCheckpoint>) -> Option<
    ParserCheckpointView,
> {
    match checkpoint {
        Some(found) => Some(found@),
        None => None,
    }
}

/// What an `ImportState` holds.
#[verifier::ext_equal]
pub struct ImportStateView {
    pub source_path: Seq<char>,
    pub session_id: Option<Seq<char>>,
    pub source_bucket: Seq<char>,
    pub file_size: i64,
    pub file_mtime_ms: i64,
    pub parser_checkpoint: Option<ParserCheckpointView>,
}

impl View for ImportState {
    type V = ImportStateView;

    open spec fn view(&self) -> ImportStateView {
        ImportStateView {
            source_path: self.source_path@,
            session_id: opt_text(self.session_id),
            source_bucket: self.source_bucket@,
            file_size: self.file_size,
            file_mtime_ms: self.file_mtime_ms,
            parser_checkpoint: opt_checkpoint(self.parser_checkpoint),
        }
    }
}

/// The size of a file as a count of bytes.
pub open spec fn byte_size(file_size: i64) -> u64 {
    if file_size < 0 {
        0
    } else {
        file_size as u64
    }
}

fn byte_size_of(file_size: i64) -> (size: u64)
    ensures
        size == byte_size(file_size),
{
    if file_size < 0 {
        0
    } else {
        file_size as u64
    }
}

/// Whether a file now carries another session in its name than the one it was imported as.
pub open spec fn session_id_mismatch(state: ImportStateView, file: SessionFileView) -> bool {
    match (file.name_session_id, state.session_id) {
        (Some(named), Some(stored)) => named != stored,
        _ => false,
    }
}

/// Whether a file now carries another session in its name than the one it was imported as.
pub fn import_state_session_id_mismatch(state: &ImportState, session_file: &SessionFile) -> (result:
    bool)
    ensures
        result == session_id_mismatch(state@, session_file@),
{
    match (&session_file.name_session_id, &state.session_id) {
        (Some(named), Some(stored)) => !same_text(named.as_str(), stored.as_str()),
        _ => false,
    }
}

/// Whether the last import read the file to the end that it has now, so that its signature
/// decides whether it changed.
pub open spec fn ends_at_checkpoint(state: ImportStateView, file: SessionFileView) -> bool {
    match state.parser_checkpoint {
        Some(checkpoint) => checkpoint.completed_offset == byte_size(file.file_size),
        None => false,
    }
}

/// Whether the last import read the file to the end that it has now.
pub fn is_at_checkpoint_end(state: &ImportState, session_file: &SessionFile) -> (result: bool)
    ensures
        result == ends_at_checkpoint(state@, session_file@),
{
    match &state.parser_checkpoint {
        Some(checkpoint) => checkpoint.completed_offset == byte_size_of(session_file.file_size),
        None => false,
    }
}

/// Whether a file still ends as its checkpoint remembers it. `signature` is what stands before
/// the checkpoint's offset now, where that could be read.
pub open spec fn prefix_matches(
    state: ImportStateView,
    file: SessionFileView,
    signature: Option<Seq<u8>>,
) -> bool {
    ends_at_checkpoint(state, file) && signature == Some(
        state.parser_checkpoint->0.prefix_signature,
    )
}

/// Whether a file still ends as its checkpoint remembers it.
pub fn parser_checkpoint_prefix_matches(
    state: &ImportState,
    session_file: &SessionFile,
    signature: &Option<Vec<u8>>,
) -> (result: bool)
    ensures
        result == prefix_matches(
            state@,
            session_file@,
            match *signature {
                Some(bytes) => Some(bytes@),
                None => None,
            },
        ),
{
    if !is_at_checkpoint_end(state, session_file) {
        return false;
    }
    match (&state.parser_checkpoint, signature) {
        (Some(checkpoint), Some(bytes)) => same_signature(bytes, &checkpoint.prefix_signature),
        _ => false,
    }
}

/// Whether what was appended to a file can be read on its own: both sides know the file as
/// active, it has grown, it still holds what was read, and it names the same session.
pub open spec fn tail_is_readable(state: ImportStateView, file: SessionFileView) -> bool {
    state.session_id is Some && state.source_bucket == "active"@ && file.bucket == "active"@
        && file.file_size > state.file_size && !session_id_mismatch(state, file) && (
    match state.parser_checkpoint {
        Some(checkpoint) => checkpoint.completed_offset <= byte_size(file.file_size),
        None => false,
    })
}

/// The checkpoint from which what was appended to a file can be read on its own. The caller must
/// still compare the signature before reading on.
pub fn tail_checkpoint<'a>(state: &'a ImportState, session_file: &SessionFile) -> (result: Option<
    &'a ParserCheckpoint,
>)
    ensures
        result is Some <==> tail_is_readable(state@, session_file@),
        result is Some ==> Some(result->0@) == state@.parser_checkpoint,
{
    if state.session_id.is_none() {
        return None;
    }
    let checkpoint = match &state.parser_checkpoint {
        Some(checkpoint) => checkpoint,
        None => {
            return None;
        },
    };
    if !same_text(state.source_bucket.as_str(), "active") || !same_text(
        session_file.bucket.as_str(),
        "active",
    ) || session_file.file_size <= state.file_size || checkpoint.completed_offset > byte_size_of(
        session_file.file_size,
    ) || import_state_session_id_mismatch(state, session_file) {
        return None;
    }
    Some(checkpoint)
}

} // verus!
