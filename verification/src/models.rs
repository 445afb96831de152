//! The plain records that the rest of the library works on.

use crate::text::{copy_opt, opt_text, texts};
use vstd::prelude::*;

verus! {

/// Cumulative or incremental token counts.
#[derive(Clone, Copy, Debug, PartialEq, Eq, Structural)]
pub struct TokenUsage {
    pub input_tokens: i64,
    pub cached_input_tokens: i64,
    pub output_tokens: i64,
    pub reasoning_output_tokens: i64,
    pub total_tokens: i64,
}

impl TokenUsage {
    /// The usage in which every count is zero.
    pub open spec fn zero() -> TokenUsage {
        TokenUsage {
            input_tokens: 0,
            cached_input_tokens: 0,
            output_tokens: 0,
            reasoning_output_tokens: 0,
            total_tokens: 0,
        }
    }
}

impl Default for TokenUsage {
    fn default() -> (usage: Self)
        ensures
            usage == TokenUsage::zero(),
    {
        TokenUsage {
            input_tokens: 0,
            cached_input_tokens: 0,
            output_tokens: 0,
            reasoning_output_tokens: 0,
            total_tokens: 0,
        }
    }
}

/// One cumulative usage reading of a session log.
#[derive(Clone, Debug)]
pub struct UsageSnapshot {
    pub timestamp: String,
    pub model_id: String,
    pub usage: TokenUsage,
    pub last_token_usage: Option<TokenUsage>,
    pub plan_type: Option<String>,
    pub limit_id: Option<String>,
    pub limit_name: Option<String>,
    pub explicit_fast_mode: Option<bool>,
}

/// What a `UsageSnapshot` holds.
#[verifier::ext_equal]
pub struct UsageSnapshotView {
    pub timestamp: Seq<char>,
    pub model_id: Seq<char>,
    pub usage: TokenUsage,
    pub last_token_usage: Option<TokenUsage>,
    pub plan_type: Option<Seq<char>>,
    pub limit_id: Option<Seq<char>>,
    pub limit_name: Option<Seq<char>>,
    pub explicit_fast_mode: Option<bool>,
}

impl View for UsageSnapshot {
    type V = UsageSnapshotView;

    open spec fn view(&self) -> UsageSnapshotView {
        UsageSnapshotView {
            timestamp: self.timestamp@,
            model_id: self.model_id@,
            usage: self.usage,
            last_token_usage: self.last_token_usage,
            plan_type: opt_text(self.plan_type),
            limit_id: opt_text(self.limit_id),
            limit_name: opt_text(self.limit_name),
            explicit_fast_mode: self.explicit_fast_mode,
        }
    }
}

/// What each snapshot of a list holds.
pub open spec fn snapshot_views(snapshots: Seq<UsageSnapshot>) -> Seq<UsageSnapshotView> {
    snapshots.map_values(|snapshot: UsageSnapshot| snapshot@)
}

impl UsageSnapshot {
    /// A copy of the snapshot.
    pub fn copy(&self) -> (copy: UsageSnapshot)
        ensures
            copy == *self,
    {
        UsageSnapshot {
            timestamp: self.timestamp.clone(),
            model_id: self.model_id.clone(),
            usage: self.usage,
            last_token_usage: self.last_token_usage,
            plan_type: copy_opt(&self.plan_type),
            limit_id: copy_opt(&self.limit_id),
            limit_name: copy_opt(&self.limit_name),
            explicit_fast_mode: self.explicit_fast_mode,
        }
    }
}

/// One observation of a rate-limit window.
#[derive(Clone, Debug)]
pub struct RateLimitSampleRecord {
    pub source_kind: String,
    pub source_session_id: Option<String>,
    pub bucket: String,
    pub sample_timestamp: String,
    pub limit_id: Option<String>,
    pub limit_name: Option<String>,
    pub plan_type: Option<String>,
    pub window_start: String,
    pub resets_at: String,
    pub used_percent: i64,
    pub remaining_percent: i64,
}

/// What a `RateLimitSampleRecord` holds.
#[verifier::ext_equal]
pub struct RateLimitSampleRecordView {
    pub source_kind: Seq<char>,
    pub source_session_id: Option<Seq<char>>,
    pub bucket: Seq<char>,
    pub sample_timestamp: Seq<char>,
    pub limit_id: Option<Seq<char>>,
    pub limit_name: Option<Seq<char>>,
    pub plan_type: Option<Seq<char>>,
    pub window_start: Seq<char>,
    pub resets_at: Seq<char>,
    pub used_percent: i64,
    pub remaining_percent: i64,
}

impl View for RateLimitSampleRecord {
    type V = RateLimitSampleRecordView;

    open spec fn view(&self) -> RateLimitSampleRecordView {
        RateLimitSampleRecordView {
            source_kind: self.source_kind@,
            source_session_id: opt_text(self.source_session_id),
            bucket: self.bucket@,
            sample_timestamp: self.sample_timestamp@,
            limit_id: opt_text(self.limit_id),
            limit_name: opt_text(self.limit_name),
            plan_type: opt_text(self.plan_type),
            window_start: self.window_start@,
            resets_at: self.resets_at@,
            used_percent: self.used_percent,
            remaining_percent: self.remaining_percent,
        }
    }
}

impl RateLimitSampleRecord {
    /// A copy of the sample.
    pub fn copy(&self) -> (copy: RateLimitSampleRecord)
        ensures
            copy == *self,
    {
        RateLimitSampleRecord {
            source_kind: self.source_kind.clone(),
            source_session_id: copy_opt(&self.source_session_id),
            bucket: self.bucket.clone(),
            sample_timestamp: self.sample_timestamp.clone(),
            limit_id: copy_opt(&self.limit_id),
            limit_name: copy_opt(&self.limit_name),
            plan_type: copy_opt(&self.plan_type),
            window_start: self.window_start.clone(),
            resets_at: self.resets_at.clone(),
            used_percent: self.used_percent,
            remaining_percent: self.remaining_percent,
        }
    }
}

/// A session as a log describes it.
#[derive(Clone, Debug)]
pub struct RawSession {
    pub session_id: String,
    pub parent_session_id: Option<String>,
    pub root_session_id: String,
    pub title: Option<String>,
    pub source_state: String,
    pub source_path: Option<String>,
    pub started_at: Option<String>,
    pub updated_at: Option<String>,
    pub model_ids: Vec<String>,
    pub contains_subagents: bool,
    pub agent_nickname: Option<String>,
    pub agent_role: Option<String>,
}

/// What a `RawSession` holds.
#[verifier::ext_equal]
pub struct RawSessionView {
    pub session_id: Seq<char>,
    pub parent_session_id: Option<Seq<char>>,
    pub root_session_id: Seq<char>,
    pub title: Option<Seq<char>>,
    pub source_state: Seq<char>,
    pub source_path: Option<Seq<char>>,
    pub started_at: Option<Seq<char>>,
    pub updated_at: Option<Seq<char>>,
    pub model_ids: Seq<Seq<char>>,
    pub contains_subagents: bool,
    pub agent_nickname: Option<Seq<char>>,
    pub agent_role: Option<Seq<char>>,
}

impl View for RawSession {
    type V = RawSessionView;

    open spec fn view(&self) -> RawSessionView {
        RawSessionView {
            session_id: self.session_id@,
            parent_session_id: opt_text(self.parent_session_id),
            root_session_id: self.root_session_id@,
            title: opt_text(self.title),
            source_state: self.source_state@,
            source_path: opt_text(self.source_path),
            started_at: opt_text(self.started_at),
            updated_at: opt_text(self.updated_at),
            model_ids: texts(self.model_ids@),
            contains_subagents: self.contains_subagents,
            agent_nickname: opt_text(self.agent_nickname),
            agent_role: opt_text(self.agent_role),
        }
    }
}

/// One rate-limit window as it stands now.
#[derive(Clone, Debug)]
pub struct RateLimitWindowSnapshot {
    pub used_percent: i64,
    pub remaining_percent: i64,
    pub window_duration_mins: Option<i64>,
    pub resets_at: Option<String>,
    pub window_start: Option<String>,
}

/// What a `RateLimitWindowSnapshot` holds.
#[verifier::ext_equal]
pub struct RateLimitWindowView {
    pub used_percent: i64,
    pub remaining_percent: i64,
    pub window_duration_mins: Option<i64>,
    pub resets_at: Option<Seq<char>>,
    pub window_start: Option<Seq<char>>,
}

impl View for RateLimitWindowSnapshot {
    type V = RateLimitWindowView;

    open spec fn view(&self) -> RateLimitWindowView {
        RateLimitWindowView {
            used_percent: self.used_percent,
            remaining_percent: self.remaining_percent,
            window_duration_mins: self.window_duration_mins,
            resets_at: opt_text(self.resets_at),
            window_start: opt_text(self.window_start),
        }
    }
}

/// What an optional window holds.
pub open spec fn opt_window(window: Option<RateLimitWindowSnapshot>) -> Option<
    RateLimitWindowView,
> {
    match window {
        Some(found) => Some(found@),
        None => None,
    }
}

/// The rate limits as they stand now.
#[derive(Clone, Debug)]
pub struct LiveRateLimitSnapshot {
    pub limit_id: Option<String>,
    pub limit_name: Option<String>,
    pub plan_type: Option<String>,
    pub primary: Option<RateLimitWindowSnapshot>,
    pub secondary: Option<RateLimitWindowSnapshot>,
    pub fetched_at: String,
}

/// What a `LiveRateLimitSnapshot` holds.
#[verifier::ext_equal]
pub struct LiveRateLimitView {
    pub limit_id: Option<Seq<char>>,
    pub limit_name: Option<Seq<char>>,
    pub plan_type: Option<Seq<char>>,
    pub primary: Option<RateLimitWindowView>,
    pub secondary: Option<RateLimitWindowView>,
    pub fetched_at: Seq<char>,
}

impl View for LiveRateLimitSnapshot {
    type V = LiveRateLimitView;

    open spec fn view(&self) -> LiveRateLimitView {
        LiveRateLimitView {
            limit_id: opt_text(self.limit_id),
            limit_name: opt_text(self.limit_name),
            plan_type: opt_text(self.plan_type),
            primary: opt_window(self.primary),
            secondary: opt_window(self.secondary),
            fetched_at: self.fetched_at@,
        }
    }
}

/// What a scan did.
#[derive(Clone, Debug)]
pub struct ScanResult {
    pub codex_home: String,
    pub scanned_files: usize,
    pub imported_sessions: usize,
    pub updated_sessions: usize,
    pub missing_sessions: usize,
    pub scan_kind: String,
    pub source_bytes_read: u64,
    pub tail_parsed_files: usize,
    pub fully_parsed_files: usize,
    pub last_completed_at: String,
}

} // verus!
