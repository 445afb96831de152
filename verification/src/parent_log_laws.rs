//! What is read of a parent's log, and which logs do not count.

use crate::json::JsonView;
use crate::record_laws::is_stated_usage;
use crate::replay_reader::{
    line_may_matter, ParentReplayView, ReplayParentLine, ReplayParentTokenDetails,
    ReplayParentTokenUsage, ReplayStep,
};
use crate::session_log::usage_of;
use crate::text::holds_text;
use crate::usage_laws::{counted, Count};
use vstd::prelude::*;

verus! {

/// What a usage of a parent's log says of a count, where it says it.
pub open spec fn stated(usage: ReplayParentTokenUsage, count: Count) -> Option<int> {
    match count {
        Count::Input => Some(usage.input_tokens as int),
        Count::CachedInput => Some(usage.cached_input_tokens as int),
        Count::Output => Some(usage.output_tokens as int),
        Count::ReasoningOutput => Some(usage.reasoning_output_tokens as int),
        Count::Total => match usage.total_tokens {
            Some(total) => Some(total as int),
            None => None,
        },
    }
}

/// A usage of a parent's log keeps every count that it says; a total that is missing is the sum of
/// input and output, where that fits.
pub proof fn parent_usage_keeps_its_counts(usage: ReplayParentTokenUsage, count: Count)
    ensures
        stated(usage, count) is Some ==> counted(usage.usage(), count) == stated(usage, count)->0,
        usage.total_tokens is None && i64::MIN <= usage.input_tokens + usage.output_tokens
            <= i64::MAX ==> usage.usage().total_tokens == usage.input_tokens + usage.output_tokens,
{
}

/// Whether a usage of a parent's log says what an object states.
pub open spec fn says_what_is_stated(object: JsonView, usage: ReplayParentTokenUsage) -> bool {
    &&& is_stated_usage(object, usage.usage())
    &&& object.get("total_tokens"@) matches Some(JsonView::Number { integer: Some(total), .. })
        ==> usage.total_tokens == Some(total)
    &&& !(object.get("total_tokens"@) matches Some(JsonView::Number { integer: Some(_), .. }))
        ==> usage.total_tokens is None
}

/// A copy is known by what it says: the same object read as a parent's usage and as a session's
/// own usage gives the same counts.
pub proof fn parent_and_child_read_alike(object: JsonView, usage: ReplayParentTokenUsage)
    requires
        says_what_is_stated(object, usage),
    ensures
        usage.usage() == usage_of(object),
{
}

/// A token report of a parent's log adds one reading: of the report's time, with the counts of its
/// total and of its last turn, where it says one.
pub proof fn parent_report_adds_a_reading(
    log: ParentReplayView,
    timestamp: Seq<char>,
    details: ReplayParentTokenDetails,
    count: Count,
)
    ensures
        ({
            let after = log.after_usages(timestamp, details);
            let reading = after.snapshots.last();
            &&& after.snapshots == log.snapshots.push(reading)
            &&& after.requested == log.requested
            &&& after.by_name == log.by_name
            &&& after.by_description == log.by_description
            &&& reading.timestamp == timestamp
            &&& stated(details.total_token_usage, count) is Some ==> counted(reading.usage, count)
                == stated(details.total_token_usage, count)->0
            &&& reading.last_token_usage is Some <==> details.last_token_usage is Some
            &&& details.last_token_usage is Some && stated(details.last_token_usage->0, count)
                is Some ==> counted(reading.last_token_usage->0, count) == stated(
                details.last_token_usage->0,
                count,
            )->0
        }),
{
}

/// Whether a line of a parent's log reports usage.
pub open spec fn reports(line: ReplayParentLine) -> bool {
    line.record_type matches Some(kind) && kind@ == "event_msg"@ && (line.payload matches Some(
        payload,
    ) && (payload.record_type matches Some(inner) && inner@ == "token_count"@))
}

/// Whether a line of a parent's log describes a session by this id.
pub open spec fn names(line: ReplayParentLine, id: Seq<char>) -> bool {
    line.record_type matches Some(kind) && kind@ == "session_meta"@ && (line.payload matches Some(
        payload,
    ) && (payload.id matches Some(named) && named@ == id))
}

/// A report's usages are read where it says its time; one without a time makes the whole log
/// worthless.
pub proof fn parent_report_must_say_its_time(log: ParentReplayView, line: ReplayParentLine)
    requires
        reports(line),
    ensures
        log.step(line) == if line.timestamp is Some {
            ReplayStep::ReadUsages
        } else {
            ReplayStep::Reject
        },
        log.after_line(line) == log,
{
    reveal_strlit("event_msg");
    reveal_strlit("session_meta");
    assert("event_msg"@.len() != "session_meta"@.len());
}

/// The first description of a log whose file carries no name must be that of the parent that was
/// asked for; it is then noted. A later one, or one in a file with a name, rejects nothing.
pub proof fn first_description_must_be_the_parents(
    log: ParentReplayView,
    line: ReplayParentLine,
    id: Seq<char>,
)
    requires
        names(line, id),
    ensures
        log.step(line) == if log.by_description is None && log.by_name is None && id
            != log.requested {
            ReplayStep::Reject
        } else {
            ReplayStep::Next
        },
        log.by_description is None && (log.by_name is Some || id == log.requested)
            ==> log.after_line(line).by_description == Some(id),
        log.by_description is Some ==> log.after_line(line) == log,
        log.after_line(line).snapshots == log.snapshots,
{
    reveal_strlit("event_msg");
    reveal_strlit("session_meta");
    assert("event_msg"@.len() != "session_meta"@.len());
}

/// Every other line is passed over.
pub proof fn other_parent_lines_are_passed_over(log: ParentReplayView, line: ReplayParentLine)
    requires
        !reports(line),
        forall|id: Seq<char>| !#[trigger] names(line, id),
    ensures
        log.step(line) == ReplayStep::Next,
        log.after_line(line).snapshots == log.snapshots,
        log.after_line(line).by_description == log.by_description,
{
    if let Some(id) = line.named_session() {
        assert(!names(line, id));
    }
}

/// A log counts where something names its session and it has a reading.
pub proof fn parent_log_counts_with_a_name_and_a_reading(log: ParentReplayView)
    ensures
        log.counts() <==> !(log.by_name is None && log.by_description is None)
            && log.snapshots.len() != 0,
        log.fits_request() && log.counts() ==> log.by_name == Some(log.requested) || (log.by_name
            is None && log.by_description == Some(log.requested)),
{
}

/// A line that mentions a description or a token report in quotes is never passed over unread.
pub proof fn telling_lines_are_read(before: Seq<char>, after: Seq<char>)
    ensures
        line_may_matter(before + "\"session_meta\""@ + after),
        line_may_matter(before + "\"token_count\""@ + after),
        forall|line: Seq<char>| #[trigger]
            line_may_matter(line) ==> holds_text(line, "\"session_meta\""@) || holds_text(
                line,
                "\"token_count\""@,
            ),
{
    let start = before.len() as int;
    let meta = "\"session_meta\""@;
    let one = before + meta + after;
    assert(one.subrange(start, start + meta.len()) =~= meta);
    let count = "\"token_count\""@;
    let other = before + count + after;
    assert(other.subrange(start, start + count.len()) =~= count);
}

} // verus!
