//! Reading the log of a forked session's parent, as far as its readings may have been copied.
//!
//! A parent counts only if its log is beyond doubt: it must name the parent that was asked for,
//! by its file name or by its own first description, and every line that matters must be whole.

use crate::models::{snapshot_views, TokenUsage, UsageSnapshot, UsageSnapshotView};
use crate::text::{contains_text, holds_text, opt_is, opt_text, same_text};
use vstd::prelude::*;

verus! {

/// What a line of a parent's log says of itself.
#[derive(Clone, Debug)]
pub struct ReplayParentLine {
    pub timestamp: Option<String>,
    pub record_type: Option<String>,
    pub payload: Option<ReplayParentPayload>,
}

/// What the payload of such a line says of itself.
#[derive(Clone, Debug)]
pub struct ReplayParentPayload {
    pub id: Option<String>,
    pub record_type: Option<String>,
}

/// A usage in a parent's log, which may lack its total.
#[derive(Clone, Copy, Debug, PartialEq, Eq, Structural)]
pub struct ReplayParentTokenUsage {
    pub input_tokens: i64,
    pub cached_input_tokens: i64,
    pub output_tokens: i64,
    pub reasoning_output_tokens: i64,
    pub total_tokens: Option<i64>,
}

/// The usages in a token report of a parent's log.
#[derive(Clone, Copy, Debug, PartialEq, Eq, Structural)]
pub struct ReplayParentTokenDetails {
    pub total_token_usage: ReplayParentTokenUsage,
    pub last_token_usage: Option<ReplayParentTokenUsage>,
}

impl ReplayParentTokenUsage {
    /// The usage with its total, which is the sum of input and output where it is missing.
    pub open spec fn usage(self) -> TokenUsage {
        TokenUsage {
            input_tokens: self.input_tokens,
            cached_input_tokens: self.cached_input_tokens,
            output_tokens: self.output_tokens,
            reasoning_output_tokens: self.reasoning_output_tokens,
            total_tokens: match self.total_tokens {
                Some(total) => total,
                None => self.input_tokens.wrapping_add(self.output_tokens),
            },
        }
    }

    /// The usage with its total. A missing total wraps around where it does not fit.
    pub fn into_token_usage(self) -> (usage: TokenUsage)
        ensures
            usage == self.usage(),
    {
        TokenUsage {
            input_tokens: self.input_tokens,
            cached_input_tokens: self.cached_input_tokens,
            output_tokens: self.output_tokens,
            reasoning_output_tokens: self.reasoning_output_tokens,
            total_tokens: match self.total_tokens {
                Some(total) => total,
                None => self.input_tokens.wrapping_add(self.output_tokens),
            },
        }
    }
}

/// Whether a line may matter: it mentions a description or a token report.
pub open spec fn line_may_matter(line: Seq<char>) -> bool {
    holds_text(line, "\"session_meta\""@) || holds_text(line, "\"token_count\""@)
}

/// Whether a line may matter.
pub fn wants_line(line: &str) -> (wanted: bool)
    ensures
        wanted == line_may_matter(line@),
{
    contains_text(line, "\"session_meta\"") || contains_text(line, "\"token_count\"")
}

/// What must happen after a line.
#[derive(Clone, Copy, Debug, PartialEq, Eq, Structural)]
pub enum ReplayStep {
    /// The next line follows.
    Next,
    /// The line is a token report: its usages must be read.
    ReadUsages,
    /// The log cannot be the parent's: it does not count.
    Reject,
}

impl ReplayParentLine {
    /// Whether the line describes the session.
    pub open spec fn is_description(&self) -> bool {
        opt_text(self.record_type) == Some("session_meta"@)
    }

    /// Whether the line is a token report.
    pub open spec fn is_token_report(&self) -> bool {
        opt_text(self.record_type) == Some("event_msg"@) && self.payload is Some && opt_text(
            self.payload->0.record_type,
        ) == Some("token_count"@)
    }

    /// The session that the line names.
    pub open spec fn named_session(&self) -> Option<Seq<char>> {
        match self.payload {
            Some(payload) => opt_text(payload.id),
            None => None,
        }
    }
}

/// A parent's log, up to some line.
#[derive(Debug)]
pub struct ParentReplayReader {
    requested_parent_id: String,
    name_session_id: Option<String>,
    first_session_meta_id: Option<String>,
    snapshots: Vec<UsageSnapshot>,
}

/// What a `ParentReplayReader` holds.
#[verifier::ext_equal]
pub struct ParentReplayView {
    /// The parent that was asked for.
    pub requested: Seq<char>,
    /// The session that the file's name carries.
    pub by_name: Option<Seq<char>>,
    /// The session that the first description names.
    pub by_description: Option<Seq<char>>,
    pub snapshots: Seq<UsageSnapshotView>,
}

impl View for ParentReplayReader {
    type V = ParentReplayView;

    closed spec fn view(&self) -> ParentReplayView {
        ParentReplayView {
            requested: self.requested_parent_id@,
            by_name: opt_text(self.name_session_id),
            by_description: opt_text(self.first_session_meta_id),
            snapshots: snapshot_views(self.snapshots@),
        }
    }
}

impl ParentReplayView {
    /// Whether nothing so far speaks against the log being the requested parent's: the file's
    /// name names that parent, or it names none and the first description does.
    pub open spec fn fits_request(self) -> bool {
        match self.by_name {
            Some(named) => named == self.requested,
            None => self.by_description is None || self.by_description == Some(self.requested),
        }
    }

    /// What must happen after a line.
    pub open spec fn step(self, line: ReplayParentLine) -> ReplayStep {
        if line.is_description() && self.by_description is None {
            match line.named_session() {
                Some(named) if self.by_name is None && named != self.requested => {
                    ReplayStep::Reject
                },
                _ => ReplayStep::Next,
            }
        } else if line.is_token_report() {
            if line.timestamp is Some {
                ReplayStep::ReadUsages
            } else {
                ReplayStep::Reject
            }
        } else {
            ReplayStep::Next
        }
    }

    /// The log with one more line.
    pub open spec fn after_line(self, line: ReplayParentLine) -> ParentReplayView {
        if line.is_description() && self.by_description is None && self.step(line)
            == ReplayStep::Next {
            ParentReplayView { by_description: line.named_session(), ..self }
        } else {
            self
        }
    }

    /// The log with the usages of one more token report.
    pub open spec fn after_usages(
        self,
        timestamp: Seq<char>,
        details: ReplayParentTokenDetails,
    ) -> ParentReplayView {
        ParentReplayView {
            snapshots: self.snapshots.push(
                UsageSnapshotView {
                    timestamp,
                    model_id: Seq::empty(),
                    usage: details.total_token_usage.usage(),
                    last_token_usage: match details.last_token_usage {
                        Some(last) => Some(last.usage()),
                        None => None,
                    },
                    plan_type: None,
                    limit_id: None,
                    limit_name: None,
                    explicit_fast_mode: None,
                },
            ),
            ..self
        }
    }

    /// Whether the log counts once it has ended: some name in it is the requested one, and it
    /// has readings.
    pub open spec fn counts(self) -> bool {
        (self.by_name is Some || self.by_description is Some) && self.snapshots.len() > 0
    }
}

impl ParentReplayReader {
    /// A reader of the log of `requested_parent_id`; none where the file's name carries another
    /// session.
    pub fn new(requested_parent_id: &str, name_session_id: Option<String>) -> (reader: Option<
        ParentReplayReader,
    >)
        ensures
            match reader {
                Some(fresh) => fresh@ == (ParentReplayView {
                    requested: requested_parent_id@,
                    by_name: opt_text(name_session_id),
                    by_description: None,
                    snapshots: Seq::empty(),
                }) && fresh@.fits_request(),
                None => name_session_id is Some && opt_text(name_session_id) != Some(
                    requested_parent_id@,
                ),
            },
    {
        if name_session_id.is_some() && !opt_is(&name_session_id, requested_parent_id) {
            return None;
        }
        let reader = ParentReplayReader {
            requested_parent_id: requested_parent_id.to_owned(),
            name_session_id,
            first_session_meta_id: None,
            snapshots: Vec::new(),
        };
        proof {
            assert(reader@.snapshots =~= Seq::empty());
        }
        Some(reader)
    }

    /// Takes in what a line says of itself.
    pub fn take_line(&mut self, line: &ReplayParentLine) -> (step: ReplayStep)
        requires
            old(self)@.fits_request(),
        ensures
            step == old(self)@.step(*line),
            final(self)@ == old(self)@.after_line(*line),
            final(self)@.fits_request(),
    {
        if opt_is(&line.record_type, "session_meta") && self.first_session_meta_id.is_none() {
            let named = match &line.payload {
                Some(payload) => &payload.id,
                None => &None,
            };
            match named {
                Some(session_id) => {
                    if self.name_session_id.is_none() && !same_text(
                        session_id.as_str(),
                        self.requested_parent_id.as_str(),
                    ) {
                        return ReplayStep::Reject;
                    }
                    self.first_session_meta_id = Some(session_id.clone());
                },
                None => {},
            }
            return ReplayStep::Next;
        }
        let is_report = opt_is(&line.record_type, "event_msg") && match &line.payload {
            Some(payload) => opt_is(&payload.record_type, "token_count"),
            None => false,
        };
        if !is_report {
            ReplayStep::Next
        } else if line.timestamp.is_some() {
            ReplayStep::ReadUsages
        } else {
            ReplayStep::Reject
        }
    }

    /// Takes in the usages of a token report.
    pub fn take_usages(&mut self, timestamp: &str, details: &ReplayParentTokenDetails)
        ensures
            final(self)@ == old(self)@.after_usages(timestamp@, *details),
            old(self)@.fits_request() ==> final(self)@.fits_request(),
    {
        let ghost earlier = self.snapshots@;
        let snapshot = UsageSnapshot {
            timestamp: timestamp.to_owned(),
            model_id: String::new(),
            usage: details.total_token_usage.into_token_usage(),
            last_token_usage: match details.last_token_usage {
                Some(last) => Some(last.into_token_usage()),
                None => None,
            },
            plan_type: None,
            limit_id: None,
            limit_name: None,
            explicit_fast_mode: None,
        };
        self.snapshots.push(snapshot);
        proof {
            assert(snapshot_views(self.snapshots@) =~= snapshot_views(earlier).push(snapshot@));
        }
    }

    /// The readings of the log, once it has ended, if it counts. A log that counts names the
    /// parent that was asked for.
    pub fn finish(self) -> (result: Option<Vec<UsageSnapshot>>)
        requires
            self@.fits_request(),
        ensures
            match result {
                Some(snapshots) => self@.counts() && snapshot_views(snapshots@)
                    == self@.snapshots && (self@.by_name == Some(self@.requested)
                    || self@.by_description == Some(self@.requested)),
                None => !self@.counts(),
            },
    {
        if self.name_session_id.is_none() && self.first_session_meta_id.is_none() {
            return None;
        }
        if self.snapshots.is_empty() {
            return None;
        }
        Some(self.snapshots)
    }
}

} // verus!
