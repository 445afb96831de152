//! What contracts speak of when they speak of a record: its own fields, under their own names.

use crate::database::rate_limit_samples::ParsedRateLimitSample;
use crate::database::usage_events::{NewUsageEvent, PreparedUsageEvent, StoredUsageEvent};
use crate::import_state::{ImportState, ParserCheckpoint, SessionFile};
use crate::models::{
    LiveRateLimitSnapshot, RateLimitSampleRecord, RateLimitWindowSnapshot, RawSession,
    UsageSnapshot,
};
use crate::rate_limits::RateLimitReading;
use crate::scan_plan::ScanProgress;
use crate::session_log::{LogReading, ParsedSession, SessionMetaCandidate};
use vstd::prelude::*;

verus! {

/// Whether an optional text is spoken of as it is held.
pub open spec fn is_text_of(shown: Option<Seq<char>>, held: Option<String>) -> bool {
    match held {
        Some(text) => shown == Some(text@),
        None => shown is None,
    }
}

/// Whether a list of texts is spoken of as it is held.
pub open spec fn are_texts_of(shown: Seq<Seq<char>>, held: Seq<String>) -> bool {
    shown.len() == held.len() && forall|index: int|
        0 <= index < held.len() ==> shown[index] == (#[trigger] held[index])@
}

/// A snapshot is spoken of by what its fields hold, each under its own name.
pub proof fn usage_snapshot_is_spoken_of_by_its_fields(held: UsageSnapshot)
    ensures
        held@.timestamp == held.timestamp@,
        held@.model_id == held.model_id@,
        held@.usage == held.usage,
        held@.last_token_usage == held.last_token_usage,
        is_text_of(held@.plan_type, held.plan_type),
        is_text_of(held@.limit_id, held.limit_id),
        is_text_of(held@.limit_name, held.limit_name),
        held@.explicit_fast_mode == held.explicit_fast_mode,
{
}

/// A sample is spoken of by what its fields hold, each under its own name.
pub proof fn rate_limit_sample_record_is_spoken_of_by_its_fields(held: RateLimitSampleRecord)
    ensures
        held@.source_kind == held.source_kind@,
        is_text_of(held@.source_session_id, held.source_session_id),
        held@.bucket == held.bucket@,
        held@.sample_timestamp == held.sample_timestamp@,
        is_text_of(held@.limit_id, held.limit_id),
        is_text_of(held@.limit_name, held.limit_name),
        is_text_of(held@.plan_type, held.plan_type),
        held@.window_start == held.window_start@,
        held@.resets_at == held.resets_at@,
        held@.used_percent == held.used_percent,
        held@.remaining_percent == held.remaining_percent,
{
}

/// A session is spoken of by what its fields hold, each under its own name.
pub proof fn raw_session_is_spoken_of_by_its_fields(held: RawSession)
    ensures
        held@.session_id == held.session_id@,
        is_text_of(held@.parent_session_id, held.parent_session_id),
        held@.root_session_id == held.root_session_id@,
        is_text_of(held@.title, held.title),
        held@.source_state == held.source_state@,
        is_text_of(held@.source_path, held.source_path),
        is_text_of(held@.started_at, held.started_at),
        is_text_of(held@.updated_at, held.updated_at),
        are_texts_of(held@.model_ids, held.model_ids@),
        held@.contains_subagents == held.contains_subagents,
        is_text_of(held@.agent_nickname, held.agent_nickname),
        is_text_of(held@.agent_role, held.agent_role),
{
}

/// A window is spoken of by what its fields hold, each under its own name.
pub proof fn rate_limit_window_snapshot_is_spoken_of_by_its_fields(held: RateLimitWindowSnapshot)
    ensures
        held@.used_percent == held.used_percent,
        held@.remaining_percent == held.remaining_percent,
        held@.window_duration_mins == held.window_duration_mins,
        is_text_of(held@.resets_at, held.resets_at),
        is_text_of(held@.window_start, held.window_start),
{
}

/// The rate limits is spoken of by what its fields hold, each under its own name.
pub proof fn live_rate_limit_snapshot_is_spoken_of_by_its_fields(held: LiveRateLimitSnapshot)
    ensures
        is_text_of(held@.limit_id, held.limit_id),
        is_text_of(held@.limit_name, held.limit_name),
        is_text_of(held@.plan_type, held.plan_type),
        (held@.primary is Some) == (held.primary is Some),
        held.primary is Some ==> held@.primary->0 == held.primary->0@,
        (held@.secondary is Some) == (held.secondary is Some),
        held.secondary is Some ==> held@.secondary->0 == held.secondary->0@,
        held@.fetched_at == held.fetched_at@,
{
}

/// A reported window is spoken of by what its fields hold, each under its own name.
pub proof fn rate_limit_reading_is_spoken_of_by_its_fields(held: RateLimitReading)
    ensures
        held@.bucket == held.bucket@,
        held@.sample_timestamp == held.sample_timestamp@,
        is_text_of(held@.limit_id, held.limit_id),
        is_text_of(held@.limit_name, held.limit_name),
        is_text_of(held@.plan_type, held.plan_type),
        held@.window_start_seconds == held.window_start_seconds,
        held@.resets_at_seconds == held.resets_at_seconds,
        held@.used_percent == held.used_percent,
        held@.remaining_percent == held.remaining_percent,
{
}

/// A read sample is spoken of by what its fields hold, each under its own name.
pub proof fn parsed_rate_limit_sample_is_spoken_of_by_its_fields(held: ParsedRateLimitSample)
    ensures
        held@.source_kind == held.source_kind@,
        held@.source_session_id == held.source_session_id@,
        held@.bucket == held.bucket@,
        held@.sample_timestamp == held.sample_timestamp@,
        held@.sample_timestamp_ms == held.sample_timestamp_ms,
        held@.limit_id == held.limit_id@,
        held@.limit_name == held.limit_name@,
        held@.plan_type == held.plan_type@,
        held@.window_start == held.window_start@,
        held@.window_start_ms == held.window_start_ms,
        held@.resets_at == held.resets_at@,
        held@.resets_at_ms == held.resets_at_ms,
        held@.used_percent == held.used_percent,
        held@.remaining_percent == held.remaining_percent,
{
}

/// A usage event is spoken of by what its fields hold, each under its own name.
pub proof fn new_usage_event_is_spoken_of_by_its_fields(held: NewUsageEvent)
    ensures
        held@.session_id == held.session_id@,
        held@.model_id == held.model_id@,
        held@.input_tokens == held.input_tokens,
        held@.cached_input_tokens == held.cached_input_tokens,
        held@.output_tokens == held.output_tokens,
        held@.reasoning_output_tokens == held.reasoning_output_tokens,
        held@.total_tokens == held.total_tokens,
        held@.value_key == held.value_key,
        held@.fast_mode_auto == held.fast_mode_auto,
        held@.fast_mode_effective == held.fast_mode_effective,
{
}

/// A prepared event is spoken of by what its fields hold, each under its own name.
pub proof fn prepared_usage_event_is_spoken_of_by_its_fields(held: PreparedUsageEvent)
    ensures
        held@.timestamp == held.timestamp@,
        held@.timestamp_ms == held.timestamp_ms,
        held@.event == held.event@,
{
}

/// A stored event is spoken of by what its fields hold, each under its own name.
pub proof fn stored_usage_event_is_spoken_of_by_its_fields(held: StoredUsageEvent)
    ensures
        held@.timestamp == held.timestamp@,
        held@.timestamp_ms == held.timestamp_ms,
        held@.event == held.event@,
{
}

/// A file is spoken of by what its fields hold, each under its own name.
pub proof fn session_file_is_spoken_of_by_its_fields(held: SessionFile)
    ensures
        held@.source_path == held.source_path@,
        is_text_of(held@.name_session_id, held.name_session_id),
        held@.bucket == held.bucket@,
        held@.file_size == held.file_size,
        held@.file_mtime_ms == held.file_mtime_ms,
{
}

/// A checkpoint is spoken of by what its fields hold, each under its own name.
pub proof fn parser_checkpoint_is_spoken_of_by_its_fields(held: ParserCheckpoint)
    ensures
        held@.completed_offset == held.completed_offset,
        held@.prefix_signature == held.prefix_signature@,
        held@.last_usage == held.last_usage,
        is_text_of(held@.current_model, held.current_model),
        held@.explicit_fast_mode == held.explicit_fast_mode,
        is_text_of(held@.latest_plan_type, held.latest_plan_type),
{
}

/// An import is spoken of by what its fields hold, each under its own name.
pub proof fn import_state_is_spoken_of_by_its_fields(held: ImportState)
    ensures
        held@.source_path == held.source_path@,
        is_text_of(held@.session_id, held.session_id),
        held@.source_bucket == held.source_bucket@,
        held@.file_size == held.file_size,
        held@.file_mtime_ms == held.file_mtime_ms,
        (held@.parser_checkpoint is Some) == (held.parser_checkpoint is Some),
        held.parser_checkpoint is Some ==> held@.parser_checkpoint->0 == held.parser_checkpoint->0@,
{
}

/// A reading is spoken of by what its fields hold, each under its own name.
pub proof fn log_reading_is_spoken_of_by_its_fields(held: LogReading)
    ensures
        held@.completed_offset == held.completed_offset,
        is_text_of(held@.updated_at, held.updated_at),
        is_text_of(held@.current_model, held.current_model),
        held@.explicit_fast_mode == held.explicit_fast_mode,
        is_text_of(held@.latest_plan_type, held.latest_plan_type),
        held@.snapshots.len() == held.snapshots.len(),
        forall|index: int|
            0 <= index < held.snapshots.len() ==> held@.snapshots[index] == (
            #[trigger] held.snapshots[index])@,
        held@.rate_limit_readings.len() == held.rate_limit_readings.len(),
        forall|index: int|
            0 <= index < held.rate_limit_readings.len() ==> held@.rate_limit_readings[index] == (
            #[trigger] held.rate_limit_readings[index])@,
        are_texts_of(held@.seen_models, held.seen_models@),
{
}

/// A description is spoken of by what its fields hold, each under its own name.
pub proof fn session_meta_candidate_is_spoken_of_by_its_fields(held: SessionMetaCandidate)
    ensures
        held@.session_id == held.session_id@,
        is_text_of(held@.parent_session_id, held.parent_session_id),
        is_text_of(held@.explicit_forked_from_id, held.explicit_forked_from_id),
        held@.explicit_fork_timestamp == held.explicit_fork_timestamp,
        is_text_of(held@.agent_nickname, held.agent_nickname),
        is_text_of(held@.agent_role, held.agent_role),
{
}

/// A parsed session is spoken of by what its fields hold, each under its own name.
pub proof fn parsed_session_is_spoken_of_by_its_fields(held: ParsedSession)
    ensures
        held@.raw_session == held.raw_session@,
        held@.snapshots.len() == held.snapshots.len(),
        forall|index: int|
            0 <= index < held.snapshots.len() ==> held@.snapshots[index] == (
            #[trigger] held.snapshots[index])@,
        is_text_of(held@.explicit_forked_from_id, held.explicit_forked_from_id),
        held@.explicit_fork_timestamp == held.explicit_fork_timestamp,
        held@.inherited_token_snapshot_cutoff == held.inherited_token_snapshot_cutoff,
        held@.explicit_fast_mode == held.explicit_fast_mode,
        is_text_of(held@.latest_plan_type, held.latest_plan_type),
        is_text_of(held@.last_model_id, held.last_model_id),
        held@.mode == held.mode,
        held@.checkpoint == held.checkpoint@,
{
}

/// A scan is spoken of by what its fields hold, each under its own name.
pub proof fn scan_progress_is_spoken_of_by_its_fields(held: ScanProgress)
    ensures
        held@.source_bytes_read == held.source_bytes_read,
        held@.tail_parsed_files == held.tail_parsed_files,
        held@.fully_parsed_files == held.fully_parsed_files,
        held@.updated_sessions == held.updated_sessions,
        are_texts_of(held@.imported_session_ids, held.imported_session_ids@),
        held@.failures.len() == held.parse_failures.len(),
        forall|index: int|
            0 <= index < held.parse_failures.len() ==> held@.failures[index] == (
            #[trigger] held.parse_failures[index])@,
        held@.topology_dirty == held.topology_dirty,
        are_texts_of(held@.new_root_session_ids, held.new_root_session_ids@),
{
}

} // verus!
