//! Reading a session log line by line.
//!
//! A log is a file of JSON lines. A line that is no JSON text is passed over; one at the end of
//! the file that was not finished yet is left for the next reading.

use crate::import_state::{ParserCheckpoint, ParserCheckpointView, SessionFile, SessionFileView};
use crate::json::{json_of_text, parse_json, Json, JsonView};
use crate::models::{
    snapshot_views, RateLimitSampleRecord, RawSession, RawSessionView, TokenUsage, UsageSnapshot,
    UsageSnapshotView,
};
use crate::rate_limits::{
    extract_rate_limit_readings, localize_readings, localized, payload_readings, reading_views,
    RateLimitReading, RateLimitReadingView,
};
use crate::text::{
    add_text, contains_text, copy_found, copy_opt, ends_with_char, first_text, holds_text, opt_is,
    opt_text, same_text, texts, with_text,
};
use crate::text_map::TextMap;
use crate::timestamps::{instant_of, parse_instant, Instant};
use crate::usage::{high_water, monotonic_usage_high_water, usages, ParsedSessionMode};
use vstd::prelude::*;
use vstd::utf8::encode_utf8;

verus! {

/// The canonical names of models, as far as they differ from the names that logs use.
#[derive(Debug)]
pub struct ModelNames {
    pub canonical: TextMap<String>,
}

impl ModelNames {
    /// The canonical name of a model.
    pub open spec fn name_of(&self, model: Seq<char>) -> Seq<char> {
        if self.canonical@.dom().contains(model) {
            self.canonical@[model]@
        } else {
            model
        }
    }

    /// The canonical name of a model.
    pub fn canonical_name(&self, model: &str) -> (name: String)
        ensures
            name@ == self.name_of(model@),
    {
        match self.canonical.get(model) {
            Some(name) => name.clone(),
            None => model.to_owned(),
        }
    }
}

/// The model that a record names for what follows it, in its own words.
pub fn turn_context_model(record: &Json) -> (model: Option<String>)
    ensures
        opt_text(model) == if record@.text_at("type"@) == Some("turn_context"@) {
            record@.get_or_null("payload"@).text_at("model"@)
        } else {
            None
        },
{
    let names_model = match record.text_at("type") {
        Some(kind) => same_text(kind.as_str(), "turn_context"),
        None => false,
    };
    if !names_model {
        return None;
    }
    match record.get("payload") {
        Some(payload) => copy_found(payload.text_at("model")),
        None => None,
    }
}

/// What a log says of its usage, up to some line.
#[derive(Debug)]
pub struct LogReading {
    /// How many bytes of the file have been read in full lines.
    pub completed_offset: u64,
    pub updated_at: Option<String>,
    pub current_model: Option<String>,
    pub explicit_fast_mode: Option<bool>,
    pub latest_plan_type: Option<String>,
    pub snapshots: Vec<UsageSnapshot>,
    pub rate_limit_readings: Vec<RateLimitReading>,
    /// The models that were seen, each once.
    pub seen_models: Vec<String>,
}

/// What a `LogReading` holds.
#[verifier::ext_equal]
pub struct LogReadingView {
    pub completed_offset: u64,
    pub updated_at: Option<Seq<char>>,
    pub current_model: Option<Seq<char>>,
    pub explicit_fast_mode: Option<bool>,
    pub latest_plan_type: Option<Seq<char>>,
    pub snapshots: Seq<UsageSnapshotView>,
    pub rate_limit_readings: Seq<RateLimitReadingView>,
    pub seen_models: Seq<Seq<char>>,
}

impl View for LogReading {
    type V = LogReadingView;

    open spec fn view(&self) -> LogReadingView {
        LogReadingView {
            completed_offset: self.completed_offset,
            updated_at: opt_text(self.updated_at),
            current_model: opt_text(self.current_model),
            explicit_fast_mode: self.explicit_fast_mode,
            latest_plan_type: opt_text(self.latest_plan_type),
            snapshots: snapshot_views(self.snapshots@),
            rate_limit_readings: reading_views(self.rate_limit_readings@),
            seen_models: texts(self.seen_models@),
        }
    }
}

/// The fast mode after a line: the last of the two settings that the line shows, an explicit
/// `false` over an explicit `true`.
pub open spec fn fast_mode_after(line: Seq<char>, before: Option<bool>) -> Option<bool> {
    if holds_text(line, "\"fast_mode\":false"@) || holds_text(line, "\"quick_mode\":false"@) {
        Some(false)
    } else if holds_text(line, "\"fast_mode\":true"@) || holds_text(line, "\"quick_mode\":true"@) {
        Some(true)
    } else {
        before
    }
}

/// Whether a line has its newline.
pub open spec fn ends_with_newline(line: Seq<char>) -> bool {
    line.len() > 0 && line.last() == '\n'
}

/// Whether a line is an unfinished one: no JSON text and no newline at its end.
pub open spec fn is_unfinished(line: Seq<char>) -> bool {
    json_of_text(line) is None && !ends_with_newline(line)
}

/// The offset after a line.
pub open spec fn offset_after(line: Seq<char>, before: u64) -> u64 {
    before.saturating_add(encode_utf8(line).len() as usize as u64)
}

/// A count in a usage object, zero where it is missing.
pub open spec fn count_at(usage: JsonView, key: Seq<char>) -> i64 {
    match usage.integer_at(key) {
        Some(count) => count,
        None => 0,
    }
}

/// The usage that an object says; a missing total is the sum of input and output.
pub open spec fn usage_of(usage: JsonView) -> TokenUsage {
    TokenUsage {
        input_tokens: count_at(usage, "input_tokens"@),
        cached_input_tokens: count_at(usage, "cached_input_tokens"@),
        output_tokens: count_at(usage, "output_tokens"@),
        reasoning_output_tokens: count_at(usage, "reasoning_output_tokens"@),
        total_tokens: match usage.integer_at("total_tokens"@) {
            Some(total) => total,
            None => count_at(usage, "input_tokens"@).wrapping_add(
                count_at(usage, "output_tokens"@),
            ),
        },
    }
}

/// A count in a usage object, zero where it is missing.
fn read_i64(usage: &Json, key: &str) -> (count: i64)
    ensures
        count == count_at(usage@, key@),
{
    match usage.integer_at(key) {
        Some(count) => count,
        None => 0,
    }
}

/// The usage that an object says. A missing total is the sum of input and output, which wraps
/// around where it does not fit.
pub fn read_usage(usage: &Json) -> (result: TokenUsage)
    ensures
        result == usage_of(usage@),
{
    let input_tokens = read_i64(usage, "input_tokens");
    let output_tokens = read_i64(usage, "output_tokens");
    TokenUsage {
        input_tokens,
        cached_input_tokens: read_i64(usage, "cached_input_tokens"),
        output_tokens,
        reasoning_output_tokens: read_i64(usage, "reasoning_output_tokens"),
        total_tokens: match usage.integer_at("total_tokens") {
            Some(total) => total,
            None => input_tokens.wrapping_add(output_tokens),
        },
    }
}

/// The last turn's usage in a token report, where it is there and not null.
pub open spec fn last_usage_of(info: JsonView) -> Option<TokenUsage> {
    if info.get_or_null("last_token_usage"@) is Null {
        None
    } else {
        Some(usage_of(info.get_or_null("last_token_usage"@)))
    }
}

/// The text of a field of the report's limits, or of its primary window.
pub open spec fn limit_text(payload: JsonView, key: Seq<char>) -> Option<Seq<char>> {
    let limits = payload.get_or_null("rate_limits"@);
    first_text(limits.text_at(key), limits.get_or_null("primary"@).text_at(key))
}

/// Whether a record is a token report that says a total.
pub open spec fn is_token_report(record: JsonView) -> bool {
    let payload = record.get_or_null("payload"@);
    payload.text_at("type"@) == Some("token_count"@) && !(payload.get_or_null(
        "info"@,
    ).get_or_null("total_token_usage"@) is Null)
}

/// The model under which usage is counted while no model has been named.
pub open spec fn model_or_unknown(model: Option<Seq<char>>) -> Seq<char> {
    match model {
        Some(name) => name,
        None => "unknown"@,
    }
}

impl LogReadingView {
    /// The reading once the time and the modes of a line are taken in.
    pub open spec fn with_line(self, line: Seq<char>, record: JsonView) -> LogReadingView {
        LogReadingView {
            completed_offset: offset_after(line, self.completed_offset),
            explicit_fast_mode: fast_mode_after(line, self.explicit_fast_mode),
            updated_at: first_text(record.text_at("timestamp"@), self.updated_at),
            ..self
        }
    }

    /// The reading after a turn context, which may name the model of what follows.
    pub open spec fn with_turn_context(
        self,
        record: JsonView,
        names: ModelNames,
    ) -> LogReadingView {
        match record.get_or_null("payload"@).text_at("model"@) {
            Some(model) => LogReadingView {
                current_model: Some(names.name_of(model)),
                seen_models: with_text(self.seen_models, names.name_of(model)),
                ..self
            },
            None => self,
        }
    }

    /// The snapshot that a token report gives, with the time `now` where it says none.
    pub open spec fn snapshot_of(self, record: JsonView, now: Seq<char>) -> UsageSnapshotView {
        let payload = record.get_or_null("payload"@);
        let info = payload.get_or_null("info"@);
        UsageSnapshotView {
            timestamp: first_text(record.text_at("timestamp"@), Some(now))->0,
            model_id: model_or_unknown(self.current_model),
            usage: usage_of(info.get_or_null("total_token_usage"@)),
            last_token_usage: last_usage_of(info),
            plan_type: payload.get_or_null("rate_limits"@).text_at("plan_type"@),
            limit_id: limit_text(payload, "limit_id"@),
            limit_name: limit_text(payload, "limit_name"@),
            explicit_fast_mode: self.explicit_fast_mode,
        }
    }

    /// The reading after an event: a token report adds its snapshot and its windows.
    pub open spec fn with_event(self, record: JsonView, now: Seq<char>) -> LogReadingView {
        if is_token_report(record) {
            let snapshot = self.snapshot_of(record, now);
            LogReadingView {
                latest_plan_type: first_text(snapshot.plan_type, self.latest_plan_type),
                snapshots: self.snapshots.push(snapshot),
                rate_limit_readings: self.rate_limit_readings + payload_readings(
                    snapshot.timestamp,
                    record.get_or_null("payload"@),
                ),
                seen_models: with_text(self.seen_models, snapshot.model_id),
                ..self
            }
        } else {
            self
        }
    }

    /// The reading after a record of any kind.
    pub open spec fn with_record(
        self,
        record: JsonView,
        now: Seq<char>,
        names: ModelNames,
    ) -> LogReadingView {
        let kind = record.text_at("type"@);
        if kind == Some("turn_context"@) {
            self.with_turn_context(record, names)
        } else if kind == Some("event_msg"@) {
            self.with_event(record, now)
        } else {
            self
        }
    }
}

impl LogReading {
    /// Takes in the time and the modes of a line.
    fn take_line(&mut self, line: &str, record: &Json)
        ensures
            final(self)@ == old(self)@.with_line(line@, record@),
    {
        self.completed_offset = self.completed_offset.saturating_add(line.len() as u64);
        if contains_text(line, "\"fast_mode\":true") || contains_text(line, "\"quick_mode\":true") {
            self.explicit_fast_mode = Some(true);
        }
        if contains_text(line, "\"fast_mode\":false") || contains_text(
            line,
            "\"quick_mode\":false",
        ) {
            self.explicit_fast_mode = Some(false);
        }
        match record.text_at("timestamp") {
            Some(timestamp) => {
                self.updated_at = Some(timestamp.clone());
            },
            None => {},
        }
    }

    /// Takes in a turn context.
    fn take_turn_context(&mut self, record: &Json, names: &ModelNames)
        ensures
            final(self)@ == old(self)@.with_turn_context(record@, *names),
    {
        match record.get("payload") {
            Some(payload) => match payload.text_at("model") {
                Some(model) => {
                    let name = names.canonical_name(model.as_str());
                    add_text(&mut self.seen_models, name.as_str());
                    self.current_model = Some(name);
                },
                None => {},
            },
            None => {},
        }
    }

    /// Takes in an event.
    fn take_event(&mut self, record: &Json, now: &str)
        ensures
            final(self)@ == old(self)@.with_event(record@, now@),
    {
        let payload = match record.get("payload") {
            Some(payload) => payload,
            None => {
                return ;
            },
        };
        let is_report = match payload.text_at("type") {
            Some(kind) => same_text(kind.as_str(), "token_count"),
            None => false,
        };
        if !is_report {
            return ;
        }
        let info = match payload.get("info") {
            Some(info) => info,
            None => {
                return ;
            },
        };
        let total = match info.get("total_token_usage") {
            Some(total) => total,
            None => {
                return ;
            },
        };
        if matches!(total, Json::Null) {
            return ;
        }
        let usage = read_usage(total);
        let last_token_usage = match info.get("last_token_usage") {
            Some(last) => if matches!(last, Json::Null) {
                None
            } else {
                Some(read_usage(last))
            },
            None => None,
        };
        let plan_type = match payload.get("rate_limits") {
            Some(limits) => copy_found(limits.text_at("plan_type")),
            None => None,
        };
        if plan_type.is_some() {
            self.latest_plan_type = copy_opt(&plan_type);
        }
        let limit_id = read_limit_text(payload, "limit_id");
        let limit_name = read_limit_text(payload, "limit_name");
        let timestamp = match record.text_at("timestamp") {
            Some(timestamp) => timestamp.clone(),
            None => now.to_owned(),
        };
        let mut windows = extract_rate_limit_readings(timestamp.as_str(), payload);
        let ghost before = self.rate_limit_readings@;
        let ghost added = windows@;
        self.rate_limit_readings.append(&mut windows);
        proof {
            assert(reading_views(before + added) =~= reading_views(before) + reading_views(
                added,
            ));
        }
        let model_id = match &self.current_model {
            Some(model) => model.clone(),
            None => "unknown".to_owned(),
        };
        add_text(&mut self.seen_models, model_id.as_str());
        let snapshot = UsageSnapshot {
            timestamp,
            model_id,
            usage,
            last_token_usage,
            plan_type,
            limit_id,
            limit_name,
            explicit_fast_mode: self.explicit_fast_mode,
        };
        let ghost earlier = self.snapshots@;
        self.snapshots.push(snapshot);
        proof {
            assert(snapshot_views(self.snapshots@) =~= snapshot_views(earlier).push(snapshot@));
            assert(self@ =~= old(self)@.with_event(record@, now@));
        }
    }

    /// Takes in a record.
    fn take_record(&mut self, record: &Json, now: &str, names: &ModelNames)
        ensures
            final(self)@ == old(self)@.with_record(record@, now@, *names),
    {
        match record.text_at("type") {
            Some(kind) => {
                if same_text(kind.as_str(), "turn_context") {
                    self.take_turn_context(record, names);
                } else if same_text(kind.as_str(), "event_msg") {
                    self.take_event(record, now);
                }
            },
            None => {},
        }
    }
}

/// The text of a field of the report's limits, or of its primary window.
fn read_limit_text(payload: &Json, key: &str) -> (text: Option<String>)
    ensures
        opt_text(text) == limit_text(payload@, key@),
{
    match payload.get("rate_limits") {
        Some(limits) => match limits.text_at(key) {
            Some(text) => Some(text.clone()),
            None => match limits.get("primary") {
                Some(window) => copy_found(window.text_at(key)),
                None => None,
            },
        },
        None => None,
    }
}

/// What a session's own description in its log says.
#[derive(Clone, Debug)]
pub struct SessionMetaCandidate {
    pub session_id: String,
    pub parent_session_id: Option<String>,
    pub explicit_forked_from_id: Option<String>,
    pub explicit_fork_timestamp: Option<Instant>,
    pub agent_nickname: Option<String>,
    pub agent_role: Option<String>,
}

/// What a `SessionMetaCandidate` holds.
#[verifier::ext_equal]
pub struct SessionMetaView {
    pub session_id: Seq<char>,
    pub parent_session_id: Option<Seq<char>>,
    pub explicit_forked_from_id: Option<Seq<char>>,
    pub explicit_fork_timestamp: Option<Instant>,
    pub agent_nickname: Option<Seq<char>>,
    pub agent_role: Option<Seq<char>>,
}

impl View for SessionMetaCandidate {
    type V = SessionMetaView;

    open spec fn view(&self) -> SessionMetaView {
        SessionMetaView {
            session_id: self.session_id@,
            parent_session_id: opt_text(self.parent_session_id),
            explicit_forked_from_id: opt_text(self.explicit_forked_from_id),
            explicit_fork_timestamp: self.explicit_fork_timestamp,
            agent_nickname: opt_text(self.agent_nickname),
            agent_role: opt_text(self.agent_role),
        }
    }
}

/// What an optional description holds.
pub open spec fn opt_meta(meta: Option<SessionMetaCandidate>) -> Option<SessionMetaView> {
    match meta {
        Some(candidate) => Some(candidate@),
        None => None,
    }
}

/// How a subagent was started, where a description says that.
pub open spec fn spawn_of(payload: JsonView) -> JsonView {
    payload.get_or_null("source"@).get_or_null("subagent"@).get_or_null("thread_spawn"@)
}

/// The moment that a record gives as its time, where it is a readable one.
pub open spec fn record_instant(record: JsonView) -> Option<Instant> {
    match record.text_at("timestamp"@) {
        Some(timestamp) => instant_of(timestamp),
        None => None,
    }
}

/// The description that a record of this moment gives; there is none without an id. A fork names
/// its parent itself, a subagent by how it was started, and only a fork says when it forked off.
pub open spec fn meta_at(record: JsonView, moment: Option<Instant>) -> Option<SessionMetaView> {
    let payload = record.get_or_null("payload"@);
    match payload.text_at("id"@) {
        Some(id) => Some(
            SessionMetaView {
                session_id: id,
                parent_session_id: first_text(
                    payload.text_at("forked_from_id"@),
                    spawn_of(payload).text_at("parent_thread_id"@),
                ),
                explicit_forked_from_id: payload.text_at("forked_from_id"@),
                explicit_fork_timestamp: if payload.text_at("forked_from_id"@) is Some {
                    moment
                } else {
                    None
                },
                agent_nickname: first_text(
                    payload.text_at("agent_nickname"@),
                    spawn_of(payload).text_at("agent_nickname"@),
                ),
                agent_role: first_text(
                    payload.text_at("agent_role"@),
                    spawn_of(payload).text_at("agent_role"@),
                ),
            },
        ),
        None => None,
    }
}

/// The description that a record gives.
pub open spec fn meta_of(record: JsonView) -> Option<SessionMetaView> {
    meta_at(record, record_instant(record))
}

/// The text of a field that stands in a description or in how the subagent was started.
fn read_spawn_text(payload: &Json, key: &str) -> (text: Option<String>)
    ensures
        opt_text(text) == spawn_of(payload@).text_at(key@),
{
    match payload.get("source") {
        Some(source) => match source.get("subagent") {
            Some(subagent) => match subagent.get("thread_spawn") {
                Some(spawn) => copy_found(spawn.text_at(key)),
                None => None,
            },
            None => None,
        },
        None => None,
    }
}

/// The description that a record of this moment gives.
pub fn session_meta_at(record: &Json, moment: Option<Instant>) -> (meta: Option<
    SessionMetaCandidate,
>)
    ensures
        opt_meta(meta) == meta_at(record@, moment),
{
    let payload = match record.get("payload") {
        Some(payload) => payload,
        None => {
            return None;
        },
    };
    let session_id = match payload.text_at("id") {
        Some(id) => id.clone(),
        None => {
            return None;
        },
    };
    let explicit_forked_from_id = copy_found(payload.text_at("forked_from_id"));
    let parent_session_id = match &explicit_forked_from_id {
        Some(parent) => Some(parent.clone()),
        None => read_spawn_text(payload, "parent_thread_id"),
    };
    let explicit_fork_timestamp = if explicit_forked_from_id.is_some() {
        moment
    } else {
        None
    };
    let agent_nickname = match payload.text_at("agent_nickname") {
        Some(nickname) => Some(nickname.clone()),
        None => read_spawn_text(payload, "agent_nickname"),
    };
    let agent_role = match payload.text_at("agent_role") {
        Some(role) => Some(role.clone()),
        None => read_spawn_text(payload, "agent_role"),
    };
    Some(
        SessionMetaCandidate {
            session_id,
            parent_session_id,
            explicit_forked_from_id,
            explicit_fork_timestamp,
            agent_nickname,
            agent_role,
        },
    )
}

/// The description that a record gives.
pub fn session_meta(record: &Json) -> (meta: Option<SessionMetaCandidate>)
    ensures
        opt_meta(meta) == meta_of(record@),
{
    let moment = match record.text_at("timestamp") {
        Some(timestamp) => parse_instant(timestamp.as_str()),
        None => None,
    };
    session_meta_at(record, moment)
}

impl SessionMetaCandidate {
    /// A copy of the description.
    fn copy(&self) -> (copy: SessionMetaCandidate)
        ensures
            copy@ == self@,
    {
        SessionMetaCandidate {
            session_id: self.session_id.clone(),
            parent_session_id: copy_opt(&self.parent_session_id),
            explicit_forked_from_id: copy_opt(&self.explicit_forked_from_id),
            explicit_fork_timestamp: self.explicit_fork_timestamp,
            agent_nickname: copy_opt(&self.agent_nickname),
            agent_role: copy_opt(&self.agent_role),
        }
    }
}

/// What a whole log says, up to some line.
#[derive(Debug)]
pub struct SessionLogParser {
    pub reading: LogReading,
    /// The id that the file's name carries.
    pub expected_session_id: Option<String>,
    /// The first id that a line gave at its top level; empty while none did.
    pub session_id: String,
    pub started_at: Option<String>,
    /// The first description in the log.
    pub first_session_meta: Option<SessionMetaCandidate>,
    /// The last description that has the id of the file's name.
    pub matching_session_meta: Option<SessionMetaCandidate>,
}

/// What a `SessionLogParser` holds.
#[verifier::ext_equal]
pub struct SessionLogView {
    pub reading: LogReadingView,
    pub expected_session_id: Option<Seq<char>>,
    pub session_id: Seq<char>,
    pub started_at: Option<Seq<char>>,
    pub first_session_meta: Option<SessionMetaView>,
    pub matching_session_meta: Option<SessionMetaView>,
}

impl View for SessionLogParser {
    type V = SessionLogView;

    open spec fn view(&self) -> SessionLogView {
        SessionLogView {
            reading: self.reading@,
            expected_session_id: opt_text(self.expected_session_id),
            session_id: self.session_id@,
            started_at: opt_text(self.started_at),
            first_session_meta: opt_meta(self.first_session_meta),
            matching_session_meta: opt_meta(self.matching_session_meta),
        }
    }
}

/// What an optional record holds.
pub open spec fn opt_json(record: Option<Json>) -> Option<JsonView> {
    match record {
        Some(found) => Some(found@),
        None => None,
    }
}

impl LogReadingView {
    /// The reading of a log of which nothing has been read.
    pub open spec fn fresh() -> LogReadingView {
        LogReadingView {
            completed_offset: 0,
            updated_at: None,
            current_model: None,
            explicit_fast_mode: None,
            latest_plan_type: None,
            snapshots: Seq::empty(),
            rate_limit_readings: Seq::empty(),
            seen_models: Seq::empty(),
        }
    }

    /// The reading after a line that holds this record. A line that holds none counts only by its
    /// length, and an unfinished one not at all.
    pub open spec fn after_record(
        self,
        line: Seq<char>,
        record: Option<JsonView>,
        now: Seq<char>,
        names: ModelNames,
    ) -> LogReadingView {
        match record {
            Some(found) => self.with_line(line, found).with_record(found, now, names),
            None => if ends_with_newline(line) {
                LogReadingView {
                    completed_offset: offset_after(line, self.completed_offset),
                    ..self
                }
            } else {
                self
            },
        }
    }

    /// The reading after a line.
    pub open spec fn after_line(
        self,
        line: Seq<char>,
        now: Seq<char>,
        names: ModelNames,
    ) -> LogReadingView {
        self.after_record(line, json_of_text(line), now, names)
    }
}

impl SessionLogView {
    /// What a log says of which nothing has been read.
    pub open spec fn fresh(expected_session_id: Option<Seq<char>>) -> SessionLogView {
        SessionLogView {
            reading: LogReadingView::fresh(),
            expected_session_id,
            session_id: Seq::empty(),
            started_at: None,
            first_session_meta: None,
            matching_session_meta: None,
        }
    }

    /// What a log says with one more description.
    pub open spec fn with_meta(self, meta: SessionMetaView) -> SessionLogView {
        SessionLogView {
            first_session_meta: match self.first_session_meta {
                Some(first) => Some(first),
                None => Some(meta),
            },
            matching_session_meta: if self.expected_session_id == Some(meta.session_id) {
                Some(meta)
            } else {
                self.matching_session_meta
            },
            ..self
        }
    }

    /// What a log says after a line that holds this record.
    pub open spec fn after_record(
        self,
        line: Seq<char>,
        record: Option<JsonView>,
        now: Seq<char>,
        names: ModelNames,
    ) -> SessionLogView {
        let reading = self.reading.after_record(line, record, now, names);
        match record {
            Some(found) => {
                let named = SessionLogView {
                    reading,
                    session_id: if self.session_id.len() == 0 {
                        first_text(found.text_at("id"@), Some(self.session_id))->0
                    } else {
                        self.session_id
                    },
                    started_at: first_text(self.started_at, found.text_at("timestamp"@)),
                    ..self
                };
                match meta_of(found) {
                    Some(meta) if found.text_at("type"@) == Some("session_meta"@) => {
                        named.with_meta(meta)
                    },
                    _ => named,
                }
            },
            None => SessionLogView { reading, ..self },
        }
    }

    /// What a log says after a line.
    pub open spec fn after_line(
        self,
        line: Seq<char>,
        now: Seq<char>,
        names: ModelNames,
    ) -> SessionLogView {
        self.after_record(line, json_of_text(line), now, names)
    }

    /// The description that counts: the one with the id of the file's name, or else the first.
    pub open spec fn session_meta(self) -> Option<SessionMetaView> {
        match self.matching_session_meta {
            Some(meta) => Some(meta),
            None => self.first_session_meta,
        }
    }

    /// The id of the session: from the description that counts, or else from a line's top level,
    /// or else, where that is empty, from the file's name.
    pub open spec fn final_session_id(self) -> Option<Seq<char>> {
        let stated = match self.session_meta() {
            Some(meta) => meta.session_id,
            None => self.session_id,
        };
        if stated.len() > 0 {
            Some(stated)
        } else {
            match self.expected_session_id {
                Some(id) if id.len() > 0 => Some(id),
                _ => None,
            }
        }
    }
}

impl LogReading {
    /// The reading of a log of which nothing has been read.
    fn fresh() -> (reading: LogReading)
        ensures
            reading@ == LogReadingView::fresh(),
    {
        let reading = LogReading {
            completed_offset: 0,
            updated_at: None,
            current_model: None,
            explicit_fast_mode: None,
            latest_plan_type: None,
            snapshots: Vec::new(),
            rate_limit_readings: Vec::new(),
            seen_models: Vec::new(),
        };
        proof {
            assert(reading@ =~= LogReadingView::fresh());
        }
        reading
    }
}

impl SessionLogParser {
    /// A parser of a log whose file name carries `expected_session_id`.
    pub fn new(expected_session_id: Option<String>) -> (parser: SessionLogParser)
        ensures
            parser@ == SessionLogView::fresh(opt_text(expected_session_id)),
    {
        SessionLogParser {
            reading: LogReading::fresh(),
            expected_session_id,
            session_id: String::new(),
            started_at: None,
            first_session_meta: None,
            matching_session_meta: None,
        }
    }

    /// Takes in a line that holds this record, with the time `now` for what has none. Gives back
    /// whether the reading goes on: an unfinished line ends it.
    pub fn take_record(
        &mut self,
        line: &str,
        record: &Option<Json>,
        now: &str,
        names: &ModelNames,
    ) -> (go_on: bool)
        ensures
            final(self)@ == old(self)@.after_record(line@, opt_json(*record), now@, *names),
            go_on == (record is Some || ends_with_newline(line@)),
    {
        let record = match record {
            Some(record) => record,
            None => {
                if !ends_with_char(line, '\n') {
                    return false;
                }
                self.reading.completed_offset = self.reading.completed_offset.saturating_add(
                    line.len() as u64,
                );
                return true;
            },
        };
        self.reading.take_line(line, record);
        if self.session_id.as_str().is_empty() {
            match record.text_at("id") {
                Some(id) => {
                    self.session_id = id.clone();
                },
                None => {},
            }
        }
        if self.started_at.is_none() {
            self.started_at = copy_found(record.text_at("timestamp"));
        }
        let is_meta = match record.text_at("type") {
            Some(kind) => same_text(kind.as_str(), "session_meta"),
            None => false,
        };
        if is_meta {
            match session_meta(record) {
                Some(meta) => {
                    if self.first_session_meta.is_none() {
                        self.first_session_meta = Some(meta.copy());
                    }
                    if opt_is(&self.expected_session_id, meta.session_id.as_str()) {
                        self.matching_session_meta = Some(meta);
                    }
                },
                None => {},
            }
        }
        self.reading.take_record(record, now, names);
        true
    }

    /// Takes in a line, with the time `now` for what has none. Gives back whether the reading
    /// goes on: an unfinished line ends it.
    pub fn take_line(&mut self, line: &str, now: &str, names: &ModelNames) -> (go_on: bool)
        ensures
            final(self)@ == old(self)@.after_line(line@, now@, *names),
            go_on == !is_unfinished(line@),
    {
        let record = parse_json(line);
        self.take_record(line, &record, now, names)
    }

    /// The id of the session, as far as the log or its file name gives one.
    pub fn final_session_id(&self) -> (id: Option<String>)
        ensures
            opt_text(id) == self@.final_session_id(),
    {
        let stated = match (&self.matching_session_meta, &self.first_session_meta) {
            (Some(meta), _) => &meta.session_id,
            (None, Some(meta)) => &meta.session_id,
            (None, None) => &self.session_id,
        };
        if !stated.as_str().is_empty() {
            return Some(stated.clone());
        }
        match &self.expected_session_id {
            Some(id) => if id.as_str().is_empty() {
                None
            } else {
                Some(id.clone())
            },
            None => None,
        }
    }
}

/// A log, read in full or from a checkpoint on.
#[derive(Clone, Debug)]
pub struct ParsedSession {
    pub raw_session: RawSession,
    pub snapshots: Vec<UsageSnapshot>,
    pub rate_limit_samples: Vec<RateLimitSampleRecord>,
    pub explicit_forked_from_id: Option<String>,
    pub explicit_fork_timestamp: Option<Instant>,
    pub inherited_token_snapshot_cutoff: usize,
    pub explicit_fast_mode: Option<bool>,
    pub latest_plan_type: Option<String>,
    pub last_model_id: Option<String>,
    pub mode: ParsedSessionMode,
    pub checkpoint: ParserCheckpoint,
}

/// What a `ParsedSession` holds, but for the samples: their local times depend on the machine.
#[verifier::ext_equal]
pub struct ParsedSessionView {
    pub raw_session: RawSessionView,
    pub snapshots: Seq<UsageSnapshotView>,
    pub explicit_forked_from_id: Option<Seq<char>>,
    pub explicit_fork_timestamp: Option<Instant>,
    pub inherited_token_snapshot_cutoff: usize,
    pub explicit_fast_mode: Option<bool>,
    pub latest_plan_type: Option<Seq<char>>,
    pub last_model_id: Option<Seq<char>>,
    pub mode: ParsedSessionMode,
    pub checkpoint: ParserCheckpointView,
}

impl View for ParsedSession {
    type V = ParsedSessionView;

    open spec fn view(&self) -> ParsedSessionView {
        ParsedSessionView {
            raw_session: self.raw_session@,
            snapshots: snapshot_views(self.snapshots@),
            explicit_forked_from_id: opt_text(self.explicit_forked_from_id),
            explicit_fork_timestamp: self.explicit_fork_timestamp,
            inherited_token_snapshot_cutoff: self.inherited_token_snapshot_cutoff,
            explicit_fast_mode: self.explicit_fast_mode,
            latest_plan_type: opt_text(self.latest_plan_type),
            last_model_id: opt_text(self.last_model_id),
            mode: self.mode,
            checkpoint: self.checkpoint@,
        }
    }
}

/// The title that an index of titles has for a session.
pub open spec fn title_of(titles: Map<Seq<char>, String>, session_id: Seq<char>) -> Option<
    Seq<char>,
> {
    if titles.dom().contains(session_id) {
        Some(titles[session_id]@)
    } else {
        None
    }
}

impl LogReadingView {
    /// The checkpoint at which a reading stops, counting on from the high water `base`.
    pub open spec fn checkpoint(
        self,
        base: Option<TokenUsage>,
        prefix_signature: Seq<u8>,
    ) -> ParserCheckpointView {
        ParserCheckpointView {
            completed_offset: self.completed_offset,
            prefix_signature,
            last_usage: high_water(base, usages(self.snapshots)),
            current_model: self.current_model,
            explicit_fast_mode: self.explicit_fast_mode,
            latest_plan_type: self.latest_plan_type,
        }
    }

    /// What a reading says of the session `session_id`, once its log has ended.
    pub open spec fn parsed(
        self,
        meta: SessionMetaView,
        started_at: Option<Seq<char>>,
        file: SessionFileView,
        titles: Map<Seq<char>, String>,
        mode: ParsedSessionMode,
        prefix_signature: Seq<u8>,
    ) -> ParsedSessionView {
        ParsedSessionView {
            raw_session: RawSessionView {
                session_id: meta.session_id,
                parent_session_id: meta.parent_session_id,
                root_session_id: meta.session_id,
                title: title_of(titles, meta.session_id),
                source_state: file.bucket,
                source_path: Some(file.source_path),
                started_at,
                updated_at: self.updated_at,
                model_ids: self.seen_models,
                contains_subagents: false,
                agent_nickname: meta.agent_nickname,
                agent_role: meta.agent_role,
            },
            snapshots: self.snapshots,
            explicit_forked_from_id: meta.explicit_forked_from_id,
            explicit_fork_timestamp: meta.explicit_fork_timestamp,
            inherited_token_snapshot_cutoff: 0,
            explicit_fast_mode: self.explicit_fast_mode,
            latest_plan_type: self.latest_plan_type,
            last_model_id: Some(model_or_unknown(self.current_model)),
            mode,
            checkpoint: self.checkpoint(
                match mode {
                    ParsedSessionMode::Full => None,
                    ParsedSessionMode::Tail { previous_usage } => previous_usage,
                },
                prefix_signature,
            ),
        }
    }
}

/// A description that says nothing but an id and a parent.
pub open spec fn bare_meta(session_id: Seq<char>, parent_session_id: Option<Seq<char>>) ->
    SessionMetaView {
    SessionMetaView {
        session_id,
        parent_session_id,
        explicit_forked_from_id: None,
        explicit_fork_timestamp: None,
        agent_nickname: None,
        agent_role: None,
    }
}

impl LogReading {
    /// What the reading says of a session, once its log has ended.
    fn into_parsed(
        self,
        meta: SessionMetaCandidate,
        started_at: Option<String>,
        file: &SessionFile,
        titles: &TextMap<String>,
        mode: ParsedSessionMode,
        prefix_signature: Vec<u8>,
    ) -> (parsed: ParsedSession)
        ensures
            parsed@ == self@.parsed(
                meta@,
                opt_text(started_at),
                file@,
                titles@,
                mode,
                prefix_signature@,
            ),
            localized(
                self@.rate_limit_readings,
                Some(meta@.session_id),
                parsed.rate_limit_samples@,
            ),
    {
        let title = match titles.get(meta.session_id.as_str()) {
            Some(title) => Some(title.clone()),
            None => None,
        };
        let base = match mode {
            ParsedSessionMode::Full => None,
            ParsedSessionMode::Tail { previous_usage } => previous_usage,
        };
        let checkpoint = ParserCheckpoint {
            completed_offset: self.completed_offset,
            prefix_signature,
            last_usage: monotonic_usage_high_water(base, &self.snapshots),
            current_model: copy_opt(&self.current_model),
            explicit_fast_mode: self.explicit_fast_mode,
            latest_plan_type: copy_opt(&self.latest_plan_type),
        };
        let source_session_id = Some(meta.session_id.clone());
        let rate_limit_samples = localize_readings(&self.rate_limit_readings, &source_session_id);
        let last_model_id = match self.current_model {
            Some(model) => Some(model),
            None => Some("unknown".to_owned()),
        };
        ParsedSession {
            raw_session: RawSession {
                session_id: meta.session_id.clone(),
                parent_session_id: meta.parent_session_id,
                root_session_id: meta.session_id,
                title,
                source_state: file.bucket.clone(),
                source_path: Some(file.source_path.clone()),
                started_at,
                updated_at: self.updated_at,
                model_ids: self.seen_models,
                contains_subagents: false,
                agent_nickname: meta.agent_nickname,
                agent_role: meta.agent_role,
            },
            snapshots: self.snapshots,
            rate_limit_samples,
            explicit_forked_from_id: meta.explicit_forked_from_id,
            explicit_fork_timestamp: meta.explicit_fork_timestamp,
            inherited_token_snapshot_cutoff: 0,
            explicit_fast_mode: self.explicit_fast_mode,
            latest_plan_type: self.latest_plan_type,
            last_model_id,
            mode,
            checkpoint,
        }
    }
}

impl SessionLogView {
    /// The description of the session `session_id`: the one that counts, or else a bare one.
    pub open spec fn meta_for(self, session_id: Seq<char>) -> SessionMetaView {
        match self.session_meta() {
            Some(meta) => SessionMetaView { session_id, ..meta },
            None => bare_meta(session_id, None),
        }
    }
}

impl SessionLogParser {
    /// What the log says, once it has ended; nothing where no session id can be found.
    /// `prefix_signature` is what stands in the file before the offset that was reached.
    pub fn finish(
        self,
        file: &SessionFile,
        titles: &TextMap<String>,
        prefix_signature: Vec<u8>,
    ) -> (result: Option<ParsedSession>)
        ensures
            match (result, self@.final_session_id()) {
                (Some(parsed), Some(session_id)) => {
                    &&& parsed@ == self@.reading.parsed(
                        self@.meta_for(session_id),
                        self@.started_at,
                        file@,
                        titles@,
                        ParsedSessionMode::Full,
                        prefix_signature@,
                    )
                    &&& localized(
                        self@.reading.rate_limit_readings,
                        Some(session_id),
                        parsed.rate_limit_samples@,
                    )
                },
                (None, None) => true,
                _ => false,
            },
    {
        let session_id = match self.final_session_id() {
            Some(session_id) => session_id,
            None => {
                return None;
            },
        };
        let chosen = match self.matching_session_meta {
            Some(meta) => Some(meta),
            None => self.first_session_meta,
        };
        let meta = match chosen {
            Some(meta) => SessionMetaCandidate {
                session_id,
                parent_session_id: meta.parent_session_id,
                explicit_forked_from_id: meta.explicit_forked_from_id,
                explicit_fork_timestamp: meta.explicit_fork_timestamp,
                agent_nickname: meta.agent_nickname,
                agent_role: meta.agent_role,
            },
            None => SessionMetaCandidate {
                session_id,
                parent_session_id: None,
                explicit_forked_from_id: None,
                explicit_fork_timestamp: None,
                agent_nickname: None,
                agent_role: None,
            },
        };
        Some(
            self.reading.into_parsed(
                meta,
                self.started_at,
                file,
                titles,
                ParsedSessionMode::Full,
                prefix_signature,
            ),
        )
    }
}

/// How the reading of a log's tail goes on after a line.
#[derive(Clone, Copy, Debug, PartialEq, Eq, Structural)]
pub enum TailStep {
    /// The next line follows.
    GoOn,
    /// The line is unfinished: the reading ends before it.
    Stop,
    /// The line describes the session anew: the whole log must be read.
    ReadInFull,
}

/// What the appended part of a log says, up to some line.
#[derive(Debug)]
pub struct SessionTailParser {
    pub reading: LogReading,
    /// The high water at which the last import stopped.
    pub previous_usage: Option<TokenUsage>,
}

impl LogReadingView {
    /// The reading of a log from a checkpoint on, before its first line.
    pub open spec fn resumed(checkpoint: ParserCheckpointView) -> LogReadingView {
        LogReadingView {
            completed_offset: checkpoint.completed_offset,
            current_model: checkpoint.current_model,
            explicit_fast_mode: checkpoint.explicit_fast_mode,
            latest_plan_type: checkpoint.latest_plan_type,
            seen_models: match checkpoint.current_model {
                Some(model) => seq![model],
                None => Seq::empty(),
            },
            ..LogReadingView::fresh()
        }
    }
}

/// Whether a record describes the session.
pub open spec fn is_description(record: Option<JsonView>) -> bool {
    match record {
        Some(found) => found.text_at("type"@) == Some("session_meta"@),
        None => false,
    }
}

/// How the reading of a tail goes on after a line that holds this record.
pub open spec fn tail_step(line: Seq<char>, record: Option<JsonView>) -> TailStep {
    if record is None && !ends_with_newline(line) {
        TailStep::Stop
    } else if is_description(record) {
        TailStep::ReadInFull
    } else {
        TailStep::GoOn
    }
}

impl SessionTailParser {
    /// A parser of what follows a checkpoint.
    pub fn resume(checkpoint: &ParserCheckpoint) -> (parser: SessionTailParser)
        ensures
            parser.reading@ == LogReadingView::resumed(checkpoint@),
            parser.previous_usage == checkpoint.last_usage,
    {
        let mut seen_models: Vec<String> = Vec::new();
        match &checkpoint.current_model {
            Some(model) => {
                seen_models.push(model.clone());
            },
            None => {},
        }
        let reading = LogReading {
            completed_offset: checkpoint.completed_offset,
            updated_at: None,
            current_model: copy_opt(&checkpoint.current_model),
            explicit_fast_mode: checkpoint.explicit_fast_mode,
            latest_plan_type: copy_opt(&checkpoint.latest_plan_type),
            snapshots: Vec::new(),
            rate_limit_readings: Vec::new(),
            seen_models,
        };
        proof {
            assert(reading@ =~= LogReadingView::resumed(checkpoint@));
        }
        SessionTailParser { reading, previous_usage: checkpoint.last_usage }
    }

    /// Takes in a line that holds this record, with the time `now` for what has none.
    pub fn take_record(
        &mut self,
        line: &str,
        record: &Option<Json>,
        now: &str,
        names: &ModelNames,
    ) -> (step: TailStep)
        ensures
            final(self).reading@ == old(self).reading@.after_record(
                line@,
                opt_json(*record),
                now@,
                *names,
            ),
            final(self).previous_usage == old(self).previous_usage,
            step == tail_step(line@, opt_json(*record)),
    {
        let record = match record {
            Some(record) => record,
            None => {
                if !ends_with_char(line, '\n') {
                    return TailStep::Stop;
                }
                self.reading.completed_offset = self.reading.completed_offset.saturating_add(
                    line.len() as u64,
                );
                return TailStep::GoOn;
            },
        };
        self.reading.take_line(line, record);
        self.reading.take_record(record, now, names);
        let is_meta = match record.text_at("type") {
            Some(kind) => same_text(kind.as_str(), "session_meta"),
            None => false,
        };
        if is_meta {
            TailStep::ReadInFull
        } else {
            TailStep::GoOn
        }
    }

    /// Takes in a line, with the time `now` for what has none.
    pub fn take_line(&mut self, line: &str, now: &str, names: &ModelNames) -> (step: TailStep)
        ensures
            final(self).reading@ == old(self).reading@.after_line(line@, now@, *names),
            final(self).previous_usage == old(self).previous_usage,
            step == tail_step(line@, json_of_text(line@)),
    {
        let record = parse_json(line);
        self.take_record(line, &record, now, names)
    }

    /// What the appended part says of a session, once it has ended. `prefix_signature` is what
    /// stands in the file before the offset that was reached.
    pub fn finish(
        self,
        session_id: &str,
        parent_session_id: Option<String>,
        file: &SessionFile,
        titles: &TextMap<String>,
        prefix_signature: Vec<u8>,
    ) -> (parsed: ParsedSession)
        ensures
            parsed@ == self.reading@.parsed(
                bare_meta(session_id@, opt_text(parent_session_id)),
                None,
                file@,
                titles@,
                ParsedSessionMode::Tail { previous_usage: self.previous_usage },
                prefix_signature@,
            ),
            localized(
                self.reading@.rate_limit_readings,
                Some(session_id@),
                parsed.rate_limit_samples@,
            ),
    {
        let meta = SessionMetaCandidate {
            session_id: session_id.to_owned(),
            parent_session_id,
            explicit_forked_from_id: None,
            explicit_fork_timestamp: None,
            agent_nickname: None,
            agent_role: None,
        };
        let mode = ParsedSessionMode::Tail { previous_usage: self.previous_usage };
        self.reading.into_parsed(meta, None, file, titles, mode, prefix_signature)
    }
}

} // verus!
