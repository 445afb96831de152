//! What a single record of a log says, whenever it is read.

use crate::json::{field_from, json_of_text, JsonView};
use crate::models::TokenUsage;
use crate::rate_limits::payload_readings;
use crate::session_log::{
    bare_meta, is_token_report, meta_of, tail_step, LogReadingView, ModelNames, SessionLogView,
    TailStep,
};
use crate::session_log_laws::{added_text_is_there, after_lines, log_after, LogLine};
use crate::text::holds_text;
use crate::timestamps::{rfc3339, Instant};
use vstd::prelude::*;
use vstd::utf8::encode_utf8;

verus! {

/// Whether a field of an object is this text.
pub open spec fn says_text(object: JsonView, key: Seq<char>, text: Seq<char>) -> bool {
    object.get(key) == Some(JsonView::Text(text))
}

/// Whether no field of an object with this key is a text.
pub open spec fn says_no_text(object: JsonView, key: Seq<char>) -> bool {
    forall|text: Seq<char>| !#[trigger] says_text(object, key, text)
}

/// Whether a text is that of an object's field, where the field is a text.
pub open spec fn is_said(object: JsonView, key: Seq<char>, text: Option<Seq<char>>) -> bool {
    match text {
        Some(found) => says_text(object, key, found),
        None => says_no_text(object, key),
    }
}

/// Whether a count is that of an object's field: the integer that it is, or else zero.
pub open spec fn is_count(object: JsonView, key: Seq<char>, count: i64) -> bool {
    match object.get(key) {
        Some(JsonView::Number { integer: Some(stated), .. }) => count == stated,
        _ => count == 0,
    }
}

/// Whether a usage is what an object states: each count by its own key. A total that is not stated
/// is the sum of input and output, where that fits.
pub open spec fn is_stated_usage(object: JsonView, usage: TokenUsage) -> bool {
    &&& is_count(object, "input_tokens"@, usage.input_tokens)
    &&& is_count(object, "cached_input_tokens"@, usage.cached_input_tokens)
    &&& is_count(object, "output_tokens"@, usage.output_tokens)
    &&& is_count(object, "reasoning_output_tokens"@, usage.reasoning_output_tokens)
    &&& match object.get("total_tokens"@) {
        Some(JsonView::Number { integer: Some(stated), .. }) => usage.total_tokens == stated,
        _ => i64::MIN <= usage.input_tokens + usage.output_tokens <= i64::MAX
            ==> usage.total_tokens == usage.input_tokens + usage.output_tokens,
    }
}

/// Whether a record reports usage: an event whose payload is a token count with these details and
/// this total.
pub open spec fn reports_usage(
    record: JsonView,
    payload: JsonView,
    info: JsonView,
    total: JsonView,
) -> bool {
    &&& says_text(record, "type"@, "event_msg"@)
    &&& record.get("payload"@) == Some(payload)
    &&& says_text(payload, "type"@, "token_count"@)
    &&& payload.get("info"@) == Some(info)
    &&& info.get("total_token_usage"@) == Some(total)
    &&& !(total is Null)
}

/// An object's field is the first that has its key, and there is none where none has it.
pub proof fn field_is_found_by_its_key(
    fields: Seq<(Seq<char>, JsonView)>,
    key: Seq<char>,
    place: int,
)
    requires
        0 <= place <= fields.len(),
        forall|earlier: int| 0 <= earlier < place ==> (#[trigger] fields[earlier]).0 != key,
        place < fields.len() ==> fields[place].0 == key,
    ensures
        JsonView::Object(fields).get(key) == if place < fields.len() {
            Some(fields[place].1)
        } else {
            None
        },
{
    field_is_found_from(fields, key, 0, place);
}

proof fn field_is_found_from(
    fields: Seq<(Seq<char>, JsonView)>,
    key: Seq<char>,
    index: int,
    place: int,
)
    requires
        0 <= index <= place <= fields.len(),
        forall|earlier: int| 0 <= earlier < place ==> (#[trigger] fields[earlier]).0 != key,
        place < fields.len() ==> fields[place].0 == key,
    ensures
        field_from(fields, key, index) == if place < fields.len() {
            Some(fields[place].1)
        } else {
            None
        },
    decreases place - index,
{
    if index < place {
        field_is_found_from(fields, key, index + 1, place);
    }
}

proof fn kinds_differ()
    ensures
        "event_msg"@ != "turn_context"@,
{
    reveal_strlit("event_msg");
    reveal_strlit("turn_context");
    assert("event_msg"@.len() != "turn_context"@.len());
}

pub(crate) proof fn said_text_is_found(object: JsonView, key: Seq<char>)
    ensures
        is_said(object, key, object.text_at(key)),
        forall|text: Seq<char>| #[trigger] says_text(object, key, text) ==> object.text_at(key)
            == Some(text),
        says_no_text(object, key) ==> object.text_at(key) is None,
{
}

proof fn readings_are_of_their_time(timestamp: Seq<char>, payload: JsonView)
    ensures
        forall|index: int|
            0 <= index < payload_readings(timestamp, payload).len() ==> (
            #[trigger] payload_readings(timestamp, payload)[index]).sample_timestamp == timestamp,
{
}

/// A token report adds one snapshot, and says all of it: the time is that of the record, whenever
/// it is read, and the time of reading only where the record says none; the counts are those that
/// it states; the model is the one that was named last. It adds the windows that its payload
/// states, and they are of the same time.
pub proof fn report_adds_what_it_says(
    before: LogReadingView,
    line: Seq<char>,
    record: JsonView,
    payload: JsonView,
    info: JsonView,
    total: JsonView,
    now: Seq<char>,
    names: ModelNames,
)
    requires
        reports_usage(record, payload, info, total),
    ensures
        ({
            let after = before.after_record(line, Some(record), now, names);
            let snapshot = after.snapshots.last();
            let known = before.rate_limit_readings.len() as int;
            &&& after.snapshots == before.snapshots.push(snapshot)
            &&& forall|time: Seq<char>| #[trigger] says_text(record, "timestamp"@, time)
                ==> snapshot.timestamp == time
            &&& says_no_text(record, "timestamp"@) ==> snapshot.timestamp == now
            &&& is_stated_usage(total, snapshot.usage)
            &&& match (info.get("last_token_usage"@), snapshot.last_token_usage) {
                (Some(JsonView::Null), turn) => turn is None,
                (Some(object), Some(turn)) => is_stated_usage(object, turn),
                (Some(_), None) => false,
                (None, turn) => turn is None,
            }
            &&& before.current_model is Some ==> snapshot.model_id == before.current_model->0
            &&& before.current_model is None ==> snapshot.model_id == "unknown"@
            &&& after.seen_models.contains(snapshot.model_id)
            &&& snapshot.explicit_fast_mode == after.explicit_fast_mode
            &&& after.current_model == before.current_model
            &&& after.rate_limit_readings == before.rate_limit_readings + payload_readings(
                snapshot.timestamp,
                payload,
            )
            &&& forall|index: int|
                known <= index < after.rate_limit_readings.len() ==> (
                #[trigger] after.rate_limit_readings[index]).sample_timestamp == snapshot.timestamp
        }),
{
    kinds_differ();
    let after = before.after_record(line, Some(record), now, names);
    let snapshot = after.snapshots.last();
    said_text_is_found(record, "timestamp"@);
    said_text_is_found(record, "type"@);
    said_text_is_found(payload, "type"@);
    assert(is_token_report(record));
    readings_are_of_their_time(snapshot.timestamp, payload);
    added_text_is_there(before.seen_models, snapshot.model_id);
    let known = before.rate_limit_readings.len() as int;
    assert forall|index: int| known <= index < after.rate_limit_readings.len() implies (
    #[trigger] after.rate_limit_readings[index]).sample_timestamp == snapshot.timestamp by {
        assert(after.rate_limit_readings[index] == payload_readings(
            snapshot.timestamp,
            payload,
        )[index - known]);
    }
}

/// A report says its plan and its limit, the plan by its limits alone, the limit by its limits or
/// else by its primary window. The plan that was said last stays.
pub proof fn report_says_its_limits(
    before: LogReadingView,
    line: Seq<char>,
    record: JsonView,
    payload: JsonView,
    info: JsonView,
    total: JsonView,
    limits: JsonView,
    now: Seq<char>,
    names: ModelNames,
)
    requires
        reports_usage(record, payload, info, total),
        payload.get("rate_limits"@) == Some(limits),
    ensures
        ({
            let after = before.after_record(line, Some(record), now, names);
            let snapshot = after.snapshots.last();
            &&& is_said(limits, "plan_type"@, snapshot.plan_type)
            &&& snapshot.plan_type is Some ==> after.latest_plan_type == snapshot.plan_type
            &&& snapshot.plan_type is None ==> after.latest_plan_type == before.latest_plan_type
            &&& forall|id: Seq<char>| #[trigger] says_text(limits, "limit_id"@, id)
                ==> snapshot.limit_id == Some(id)
            &&& forall|name: Seq<char>| #[trigger] says_text(limits, "limit_name"@, name)
                ==> snapshot.limit_name == Some(name)
            &&& forall|primary: JsonView|
                says_no_text(limits, "limit_id"@) && limits.get("primary"@) == Some(primary)
                    ==> #[trigger] is_said(primary, "limit_id"@, snapshot.limit_id)
            &&& forall|primary: JsonView|
                says_no_text(limits, "limit_name"@) && limits.get("primary"@) == Some(primary)
                    ==> #[trigger] is_said(primary, "limit_name"@, snapshot.limit_name)
        }),
{
    kinds_differ();
    said_text_is_found(record, "type"@);
    said_text_is_found(payload, "type"@);
    said_text_is_found(limits, "plan_type"@);
    said_text_is_found(limits, "limit_id"@);
    said_text_is_found(limits, "limit_name"@);
    assert(is_token_report(record));
    if let Some(primary) = limits.get("primary"@) {
        said_text_is_found(primary, "limit_id"@);
        said_text_is_found(primary, "limit_name"@);
    }
}

/// Only a report of usage adds a snapshot or a window.
pub proof fn other_records_add_no_usage(
    before: LogReadingView,
    line: Seq<char>,
    record: JsonView,
    now: Seq<char>,
    names: ModelNames,
)
    requires
        forall|payload: JsonView, info: JsonView, total: JsonView|
            !#[trigger] reports_usage(record, payload, info, total),
    ensures
        ({
            let after = before.after_record(line, Some(record), now, names);
            &&& after.snapshots == before.snapshots
            &&& after.rate_limit_readings == before.rate_limit_readings
            &&& after.latest_plan_type == before.latest_plan_type
        }),
{
    let payload = record.get_or_null("payload"@);
    let info = payload.get_or_null("info"@);
    assert(!reports_usage(record, payload, info, info.get_or_null("total_token_usage"@)));
}

/// A turn context names the model of what follows, by its canonical name; no other record does.
pub proof fn turn_context_names_the_model(
    before: LogReadingView,
    line: Seq<char>,
    record: JsonView,
    now: Seq<char>,
    names: ModelNames,
)
    ensures
        ({
            let after = before.after_record(line, Some(record), now, names);
            &&& forall|payload: JsonView, model: Seq<char>|
                says_text(record, "type"@, "turn_context"@) && record.get("payload"@) == Some(
                    payload,
                ) && #[trigger] says_text(payload, "model"@, model) ==> {
                    let name = if names.canonical@.dom().contains(model) {
                        names.canonical@[model]@
                    } else {
                        model
                    };
                    after.current_model == Some(name) && after.seen_models.contains(name)
                }
            &&& !says_text(record, "type"@, "turn_context"@) ==> after.current_model
                == before.current_model
            &&& forall|seen: Seq<char>| #[trigger] before.seen_models.contains(seen)
                ==> after.seen_models.contains(seen)
        }),
{
    kinds_differ();
    said_text_is_found(record, "type"@);
    let noted = before.with_line(line, record);
    let payload = record.get_or_null("payload"@);
    said_text_is_found(payload, "model"@);
    if let Some(model) = payload.text_at("model"@) {
        added_text_is_there(before.seen_models, names.name_of(model));
    }
    added_text_is_there(before.seen_models, noted.snapshot_of(record, now).model_id);
}

/// A record says the fast mode by the text of its line: an explicit `false` over an explicit
/// `true`, and a line that shows neither leaves it.
pub proof fn line_says_the_fast_mode(
    before: LogReadingView,
    line: Seq<char>,
    record: JsonView,
    now: Seq<char>,
    names: ModelNames,
)
    ensures
        ({
            let after = before.after_record(line, Some(record), now, names);
            let off = holds_text(line, "\"fast_mode\":false"@) || holds_text(
                line,
                "\"quick_mode\":false"@,
            );
            let on = holds_text(line, "\"fast_mode\":true"@) || holds_text(
                line,
                "\"quick_mode\":true"@,
            );
            &&& off ==> after.explicit_fast_mode == Some(false)
            &&& on && !off ==> after.explicit_fast_mode == Some(true)
            &&& !on && !off ==> after.explicit_fast_mode == before.explicit_fast_mode
        }),
{
}

/// Whether a line that reports usage says its time.
pub open spec fn is_dated(line: Seq<char>) -> bool {
    forall|record: JsonView, payload: JsonView, info: JsonView, total: JsonView|
        json_of_text(line) == Some(record) && #[trigger] reports_usage(record, payload, info, total)
            ==> !says_no_text(record, "timestamp"@)
}

proof fn dated_line_reads_the_same(
    before: LogReadingView,
    line: Seq<char>,
    now: Seq<char>,
    later: Seq<char>,
    names: ModelNames,
)
    requires
        is_dated(line),
    ensures
        before.after_line(line, now, names) == before.after_line(line, later, names),
{
    if let Some(record) = json_of_text(line) {
        let payload = record.get_or_null("payload"@);
        let info = payload.get_or_null("info"@);
        let total = info.get_or_null("total_token_usage"@);
        said_text_is_found(record, "timestamp"@);
        if is_token_report(record) && record.text_at("type"@) == Some("event_msg"@) {
            assert(reports_usage(record, payload, info, total));
            let noted = before.with_line(line, record);
            assert(noted.snapshot_of(record, now) == noted.snapshot_of(record, later));
        }
    }
}

/// What a log says does not depend on when it is read: where every line that reports usage says
/// its time, the same lines read at other times give the same reading.
pub proof fn log_reads_the_same_at_any_time(
    start: LogReadingView,
    lines: Seq<LogLine>,
    later: Seq<LogLine>,
    names: ModelNames,
)
    requires
        lines.len() == later.len(),
        forall|index: int|
            0 <= index < lines.len() ==> (#[trigger] lines[index]).text == later[index].text
                && is_dated(lines[index].text),
    ensures
        after_lines(start, lines, names) == after_lines(start, later, names),
    decreases lines.len(),
{
    if lines.len() > 0 {
        let shorter = lines.drop_last();
        let other = later.drop_last();
        assert forall|index: int| 0 <= index < shorter.len() implies (
        #[trigger] shorter[index]).text == other[index].text && is_dated(shorter[index].text) by {
            assert(shorter[index] == lines[index]);
        }
        log_reads_the_same_at_any_time(start, shorter, other, names);
        let last = lines.len() - 1;
        assert(lines[last].text == later[last].text && is_dated(lines[last].text));
        dated_line_reads_the_same(
            after_lines(start, shorter, names),
            lines[last].text,
            lines[last].now,
            later[last].now,
            names,
        );
    }
}

/// A description says its session: its id, and its parent either as the session that it forked
/// from or as the one that started it. Only a fork has a moment of its own, that of its record.
pub proof fn description_says_its_session(record: JsonView, payload: JsonView)
    requires
        record.get("payload"@) == Some(payload),
    ensures
        says_no_text(payload, "id"@) ==> meta_of(record) is None,
        forall|id: Seq<char>| #[trigger]
            says_text(payload, "id"@, id) ==> meta_of(record) is Some && meta_of(
                record,
            )->0.session_id == id,
        meta_of(record) matches Some(meta) ==> {
            &&& is_said(payload, "forked_from_id"@, meta.explicit_forked_from_id)
            &&& meta.explicit_forked_from_id is Some ==> meta.parent_session_id
                == meta.explicit_forked_from_id
            &&& meta.explicit_forked_from_id is None ==> meta.explicit_fork_timestamp is None
            &&& forall|time: Seq<char>|
                meta.explicit_forked_from_id is Some && #[trigger] says_text(
                    record,
                    "timestamp"@,
                    time,
                ) ==> meta.explicit_fork_timestamp == match rfc3339(time) {
                    Ok(moment) => Some(moment),
                    Err(_) => None::<Instant>,
                }
            &&& says_no_text(record, "timestamp"@) ==> meta.explicit_fork_timestamp is None
        },
{
    said_text_is_found(payload, "id"@);
    said_text_is_found(payload, "forked_from_id"@);
    said_text_is_found(record, "timestamp"@);
}

/// What a description does not say itself of a subagent, its parent among it, stands in how the
/// subagent was started.
pub proof fn subagent_is_described_by_its_start(
    record: JsonView,
    payload: JsonView,
    source: JsonView,
    subagent: JsonView,
    spawn: JsonView,
)
    requires
        record.get("payload"@) == Some(payload),
        payload.get("source"@) == Some(source),
        source.get("subagent"@) == Some(subagent),
        subagent.get("thread_spawn"@) == Some(spawn),
        meta_of(record) is Some,
    ensures
        ({
            let meta = meta_of(record)->0;
            &&& says_no_text(payload, "forked_from_id"@) ==> is_said(
                spawn,
                "parent_thread_id"@,
                meta.parent_session_id,
            )
            &&& if says_no_text(payload, "agent_nickname"@) {
                is_said(spawn, "agent_nickname"@, meta.agent_nickname)
            } else {
                is_said(payload, "agent_nickname"@, meta.agent_nickname)
            }
            &&& if says_no_text(payload, "agent_role"@) {
                is_said(spawn, "agent_role"@, meta.agent_role)
            } else {
                is_said(payload, "agent_role"@, meta.agent_role)
            }
        }),
{
    said_text_is_found(payload, "forked_from_id"@);
    said_text_is_found(payload, "agent_nickname"@);
    said_text_is_found(payload, "agent_role"@);
    said_text_is_found(spawn, "parent_thread_id"@);
    said_text_is_found(spawn, "agent_nickname"@);
    said_text_is_found(spawn, "agent_role"@);
}

/// Whether a line holds a record that says this time.
pub open spec fn says_time(line: LogLine, time: Seq<char>) -> bool {
    json_of_text(line.text) matches Some(record) && says_text(record, "timestamp"@, time)
}

/// Whether a line says no time.
pub open spec fn says_no_time(line: LogLine) -> bool {
    forall|time: Seq<char>| !#[trigger] says_time(line, time)
}

/// A log starts at the first time that a line says.
pub proof fn log_starts_at_its_first_time(
    name_id: Option<Seq<char>>,
    lines: Seq<LogLine>,
    names: ModelNames,
    place: int,
    time: Seq<char>,
)
    requires
        0 <= place <= lines.len(),
        forall|earlier: int| 0 <= earlier < place ==> says_no_time(#[trigger] lines[earlier]),
        place < lines.len() ==> says_time(lines[place], time),
    ensures
        log_after(SessionLogView::fresh(name_id), lines, names).started_at == if place
            < lines.len() {
            Some(time)
        } else {
            None
        },
    decreases lines.len(),
{
    if lines.len() > 0 {
        let shorter = lines.drop_last();
        let last = lines.len() - 1;
        assert forall|earlier: int| 0 <= earlier < place && earlier < last implies says_no_time(
            #[trigger] shorter[earlier],
        ) by {
            assert(shorter[earlier] == lines[earlier]);
        }
        if let Some(record) = json_of_text(lines[last].text) {
            said_text_is_found(record, "timestamp"@);
            if let Some(found) = record.text_at("timestamp"@) {
                assert(says_time(lines[last], found));
            }
        }
        if place < last {
            assert(shorter[place] == lines[place]);
            log_starts_at_its_first_time(name_id, shorter, names, place, time);
        } else {
            log_starts_at_its_first_time(name_id, shorter, names, last, time);
            if place == lines.len() {
                assert(says_no_time(lines[last]));
            }
        }
    }
}

/// A log was last updated at the last time that a line says.
pub proof fn log_is_updated_at_its_last_time(
    start: LogReadingView,
    lines: Seq<LogLine>,
    names: ModelNames,
    place: int,
    time: Seq<char>,
)
    requires
        -1 <= place < lines.len(),
        forall|later: int| place < later < lines.len() ==> says_no_time(#[trigger] lines[later]),
        place >= 0 ==> says_time(lines[place], time),
    ensures
        after_lines(start, lines, names).updated_at == if place >= 0 {
            Some(time)
        } else {
            start.updated_at
        },
    decreases lines.len(),
{
    if lines.len() > 0 {
        let shorter = lines.drop_last();
        let last = lines.len() - 1;
        if let Some(record) = json_of_text(lines[last].text) {
            said_text_is_found(record, "timestamp"@);
            if let Some(found) = record.text_at("timestamp"@) {
                assert(says_time(lines[last], found));
            }
        }
        if place < last {
            assert(says_no_time(lines[last]));
            assert forall|later: int| place < later < shorter.len() implies says_no_time(
                #[trigger] shorter[later],
            ) by {
                assert(shorter[later] == lines[later]);
            }
            if place >= 0 {
                assert(shorter[place] == lines[place]);
            }
            log_is_updated_at_its_last_time(start, shorter, names, place, time);
        }
    }
}

/// How many bytes a list of lines has.
pub open spec fn bytes_of(lines: Seq<LogLine>) -> int
    decreases lines.len(),
{
    if lines.len() == 0 {
        0
    } else {
        bytes_of(lines.drop_last()) + encode_utf8(lines.last().text).len()
    }
}

/// Whether a line is a finished one: it holds a record, or it ends with a newline.
pub open spec fn is_finished(line: LogLine) -> bool {
    json_of_text(line.text) is Some || (line.text.len() > 0 && line.text.last() == '\n')
}

proof fn bytes_are_no_fewer(lines: Seq<LogLine>)
    ensures
        bytes_of(lines) >= 0,
    decreases lines.len(),
{
    if lines.len() > 0 {
        bytes_are_no_fewer(lines.drop_last());
    }
}

/// A reading goes as far as its finished lines: it has passed each of their bytes once, and none
/// of an unfinished line after them.
pub proof fn reading_passes_finished_lines(
    start: LogReadingView,
    lines: Seq<LogLine>,
    unfinished: LogLine,
    names: ModelNames,
)
    requires
        forall|index: int| 0 <= index < lines.len() ==> is_finished(#[trigger] lines[index]),
        start.completed_offset + bytes_of(lines) <= u64::MAX,
        bytes_of(lines) <= usize::MAX,
        !is_finished(unfinished),
    ensures
        after_lines(start, lines, names).completed_offset == start.completed_offset + bytes_of(
            lines,
        ),
        after_lines(start, lines.push(unfinished), names) == after_lines(start, lines, names),
    decreases lines.len(),
{
    let longer = lines.push(unfinished);
    assert(longer.drop_last() =~= lines);
    if lines.len() > 0 {
        let shorter = lines.drop_last();
        assert forall|index: int| 0 <= index < shorter.len() implies is_finished(
            #[trigger] shorter[index],
        ) by {
            assert(shorter[index] == lines[index]);
        }
        bytes_are_no_fewer(shorter);
        reading_passes_finished_lines(start, shorter, unfinished, names);
        assert(is_finished(lines[lines.len() - 1]));
    }
}

/// The reading of a tail stops before an unfinished line, gives way to a reading of the whole log
/// where a line describes the session anew, and goes on after every other line.
pub proof fn tail_stops_for_a_reason(line: Seq<char>, record: Option<JsonView>)
    ensures
        tail_step(line, record) == TailStep::Stop <==> record is None && !(line.len() > 0
            && line.last() == '\n'),
        tail_step(line, record) == TailStep::ReadInFull <==> record is Some && says_text(
            record->0,
            "type"@,
            "session_meta"@,
        ),
{
    if let Some(found) = record {
        said_text_is_found(found, "type"@);
    }
}

/// The description that counts says all but the id: that of the last one with the id of the file's
/// name, or else of the first. Without any, a session has no parent and is no fork.
pub proof fn counting_description_says_all(log: SessionLogView, session_id: Seq<char>)
    ensures
        log.matching_session_meta is Some ==> log.session_meta() == log.matching_session_meta,
        log.matching_session_meta is None ==> log.session_meta() == log.first_session_meta,
        ({
            let said = log.meta_for(session_id);
            &&& said.session_id == session_id
            &&& log.session_meta() matches Some(meta) ==> {
                &&& said.parent_session_id == meta.parent_session_id
                &&& said.explicit_forked_from_id == meta.explicit_forked_from_id
                &&& said.explicit_fork_timestamp == meta.explicit_fork_timestamp
                &&& said.agent_nickname == meta.agent_nickname
                &&& said.agent_role == meta.agent_role
            }
            &&& log.session_meta() is None ==> said.parent_session_id is None
                && said.explicit_forked_from_id is None && said.explicit_fork_timestamp is None
                && said.agent_nickname is None && said.agent_role is None
        }),
{
}

/// A tail says nothing of its session but the id and the parent that are known of it.
pub proof fn tail_says_no_more_than_is_known(session_id: Seq<char>, parent: Option<Seq<char>>)
    ensures
        ({
            let said = bare_meta(session_id, parent);
            said.session_id == session_id && said.parent_session_id == parent
                && said.explicit_forked_from_id is None && said.explicit_fork_timestamp is None
                && said.agent_nickname is None && said.agent_role is None
        }),
{
}

/// A log of which nothing was read says nothing.
pub proof fn unread_log_says_nothing(name_id: Option<Seq<char>>)
    ensures
        ({
            let reading = LogReadingView::fresh();
            let log = SessionLogView::fresh(name_id);
            &&& reading.completed_offset == 0
            &&& reading.snapshots.len() == 0
            &&& reading.rate_limit_readings.len() == 0
            &&& reading.seen_models.len() == 0
            &&& reading.updated_at is None
            &&& reading.current_model is None
            &&& reading.explicit_fast_mode is None
            &&& reading.latest_plan_type is None
            &&& log.reading == reading
            &&& log.expected_session_id == name_id
            &&& log.session_id.len() == 0
            &&& log.started_at is None
            &&& log.first_session_meta is None
            &&& log.matching_session_meta is None
        }),
{
}

/// Whether a record names a model for what follows it.
pub open spec fn names_model(record: JsonView, model: Seq<char>) -> bool {
    says_text(record, "type"@, "turn_context"@) && (record.get("payload"@) matches Some(payload)
        && says_text(payload, "model"@, model))
}

/// A model is listed for a reason: it was listed before, the record names it, or the record reports
/// usage of it. Where no record names one, the model stays, and none is listed twice.
pub proof fn models_are_listed_for_a_reason(
    before: LogReadingView,
    line: Seq<char>,
    record: JsonView,
    now: Seq<char>,
    names: ModelNames,
    listed: Seq<char>,
)
    ensures
        ({
            let after = before.after_record(line, Some(record), now, names);
            &&& (forall|model: Seq<char>| !#[trigger] names_model(record, model))
                ==> after.current_model == before.current_model
            &&& after.seen_models.contains(listed) ==> {
                ||| before.seen_models.contains(listed)
                ||| exists|model: Seq<char>| #[trigger]
                    names_model(record, model) && listed == names.name_of(model)
                ||| after.snapshots.len() > before.snapshots.len() && listed
                    == after.snapshots.last().model_id
            }
            &&& before.seen_models.no_duplicates() ==> after.seen_models.no_duplicates()
        }),
{
    kinds_differ();
    said_text_is_found(record, "type"@);
    let noted = before.with_line(line, record);
    let payload = record.get_or_null("payload"@);
    said_text_is_found(payload, "model"@);
    if let Some(model) = payload.text_at("model"@) {
        added_text_is_there(before.seen_models, names.name_of(model));
        if record.text_at("type"@) == Some("turn_context"@) {
            assert(names_model(record, model));
        }
    }
    added_text_is_there(before.seen_models, noted.snapshot_of(record, now).model_id);
}

} // verus!
