//! What holds of logs as a whole: what reading one in two steps has in common with reading it at
//! once, and which session it is of.

use crate::json::json_of_text;
use crate::session_log::{meta_of, LogReadingView, ModelNames, SessionLogView, SessionMetaView};
use crate::text::{first_text, with_text};
use crate::usage::{
    high_water, high_water_of_parts, moved, tail_import_completes_full_import, usage_plan, usages,
    ParsedSessionMode,
};
use vstd::prelude::*;

verus! {

/// A line, and the time at which it is read.
pub struct LogLine {
    pub text: Seq<char>,
    pub now: Seq<char>,
}

/// The reading after a list of lines.
pub open spec fn after_lines(
    start: LogReadingView,
    lines: Seq<LogLine>,
    names: ModelNames,
) -> LogReadingView
    decreases lines.len(),
{
    if lines.len() == 0 {
        start
    } else {
        after_lines(start, lines.drop_last(), names).after_line(
            lines.last().text,
            lines.last().now,
            names,
        )
    }
}

/// Lines read after others are read as in one go.
pub proof fn lines_read_on(
    start: LogReadingView,
    head: Seq<LogLine>,
    tail: Seq<LogLine>,
    names: ModelNames,
)
    ensures
        after_lines(start, head + tail, names) == after_lines(
            after_lines(start, head, names),
            tail,
            names,
        ),
    decreases tail.len(),
{
    if tail.len() == 0 {
        assert(head + tail =~= head);
    } else {
        assert((head + tail).drop_last() =~= head + tail.drop_last());
        lines_read_on(start, head, tail.drop_last(), names);
    }
}

/// Whether the model of a reading is among the models that it has seen.
pub open spec fn model_was_seen(reading: LogReadingView) -> bool {
    match reading.current_model {
        Some(model) => reading.seen_models.contains(model),
        None => true,
    }
}

pub(crate) proof fn added_text_is_there(list: Seq<Seq<char>>, text: Seq<char>)
    ensures
        with_text(list, text).contains(text),
        forall|other: Seq<char>|
            with_text(list, text).contains(other) <==> list.contains(other) || other == text,
{
    if !list.contains(text) {
        let longer = list.push(text);
        assert(longer[list.len() as int] == text);
        assert forall|other: Seq<char>| longer.contains(other) <==> list.contains(other) || other
            == text by {
            if list.contains(other) {
                let place = choose|place: int| 0 <= place < list.len() && list[place] == other;
                assert(longer[place] == other);
            }
            if longer.contains(other) {
                let place = choose|place: int| 0 <= place < longer.len() && longer[place] == other;
                if place < list.len() {
                    assert(list[place] == other);
                }
            }
        }
    }
}

/// The model of a reading stays among the models that it has seen.
pub proof fn current_model_was_seen(
    start: LogReadingView,
    lines: Seq<LogLine>,
    names: ModelNames,
)
    requires
        model_was_seen(start),
    ensures
        model_was_seen(after_lines(start, lines, names)),
    decreases lines.len(),
{
    if lines.len() > 0 {
        current_model_was_seen(start, lines.drop_last(), names);
        let before = after_lines(start, lines.drop_last(), names);
        if let Some(record) = json_of_text(lines.last().text) {
            let now = lines.last().now;
            let noted = before.with_line(lines.last().text, record);
            if let Some(model) = record.get_or_null("payload"@).text_at("model"@) {
                added_text_is_there(noted.seen_models, names.name_of(model));
            }
            added_text_is_there(noted.seen_models, noted.snapshot_of(record, now).model_id);
        }
    }
}

/// Whether `tail` is what was read after `head` on its own, and `whole` what was read at once.
pub open spec fn continues(
    head: LogReadingView,
    tail: LogReadingView,
    whole: LogReadingView,
) -> bool {
    &&& whole.completed_offset == tail.completed_offset
    &&& whole.current_model == tail.current_model
    &&& whole.explicit_fast_mode == tail.explicit_fast_mode
    &&& whole.latest_plan_type == tail.latest_plan_type
    &&& whole.updated_at == first_text(tail.updated_at, head.updated_at)
    &&& whole.snapshots == head.snapshots + tail.snapshots
    &&& whole.rate_limit_readings == head.rate_limit_readings + tail.rate_limit_readings
    &&& forall|model: Seq<char>|
        whole.seen_models.contains(model) <==> head.seen_models.contains(model)
            || tail.seen_models.contains(model)
}

proof fn one_line_continues(
    head: LogReadingView,
    tail: LogReadingView,
    whole: LogReadingView,
    line: LogLine,
    names: ModelNames,
)
    requires
        continues(head, tail, whole),
    ensures
        continues(
            head,
            tail.after_line(line.text, line.now, names),
            whole.after_line(line.text, line.now, names),
        ),
{
    let next_tail = tail.after_line(line.text, line.now, names);
    let next_whole = whole.after_line(line.text, line.now, names);
    if let Some(record) = json_of_text(line.text) {
        let noted_tail = tail.with_line(line.text, record);
        let noted_whole = whole.with_line(line.text, record);
        let snapshot = noted_tail.snapshot_of(record, line.now);
        assert(snapshot == noted_whole.snapshot_of(record, line.now));
        added_text_is_there(noted_tail.seen_models, snapshot.model_id);
        added_text_is_there(noted_whole.seen_models, snapshot.model_id);
        if let Some(model) = record.get_or_null("payload"@).text_at("model"@) {
            added_text_is_there(noted_tail.seen_models, names.name_of(model));
            added_text_is_there(noted_whole.seen_models, names.name_of(model));
        }
        assert(next_whole.snapshots =~= head.snapshots + next_tail.snapshots);
        assert(next_whole.rate_limit_readings =~= head.rate_limit_readings
            + next_tail.rate_limit_readings);
        assert(next_whole.updated_at == first_text(next_tail.updated_at, head.updated_at));
        assert(next_whole.latest_plan_type == next_tail.latest_plan_type);
        assert(next_whole.current_model == next_tail.current_model);
        assert forall|model: Seq<char>|
            next_whole.seen_models.contains(model) <==> head.seen_models.contains(model)
                || next_tail.seen_models.contains(model) by {
            assert(noted_whole.seen_models.contains(model) <==> head.seen_models.contains(model)
                || noted_tail.seen_models.contains(model));
        }
    }
}

/// Reading on from the checkpoint of a reading finds what reading on from the reading itself
/// finds: the same end, and the same snapshots and windows after those that were there.
pub proof fn resumed_reading_continues(
    head: LogReadingView,
    lines: Seq<LogLine>,
    signature: Seq<u8>,
    names: ModelNames,
)
    requires
        model_was_seen(head),
    ensures
        continues(
            head,
            after_lines(
                LogReadingView::resumed(head.checkpoint(None, signature)),
                lines,
                names,
            ),
            after_lines(head, lines, names),
        ),
    decreases lines.len(),
{
    let start = LogReadingView::resumed(head.checkpoint(None, signature));
    if lines.len() == 0 {
        assert(head.snapshots + start.snapshots =~= head.snapshots);
        assert(head.rate_limit_readings + start.rate_limit_readings =~= head.rate_limit_readings);
        if let Some(model) = head.current_model {
            assert forall|other: Seq<char>| start.seen_models.contains(other) implies other
                == model by {}
        }
    } else {
        resumed_reading_continues(head, lines.drop_last(), signature, names);
        one_line_continues(
            head,
            after_lines(start, lines.drop_last(), names),
            after_lines(head, lines.drop_last(), names),
            lines.last(),
            names,
        );
    }
}

/// A log that grows is billed the same whether it is read in full each time or only what was
/// appended is read: the events of the whole log are those of its first part followed by those
/// of the appended part, and both ways end at the same checkpoint. The inherited snapshots must
/// end with their own high water, and a forked session must have shown a reading in its first
/// part.
pub proof fn growing_log_is_billed_once(
    head_lines: Seq<LogLine>,
    tail_lines: Seq<LogLine>,
    names: ModelNames,
    cutoff: int,
    forked: bool,
    old_signature: Seq<u8>,
    new_signature: Seq<u8>,
)
    requires
        ({
            let head = after_lines(LogReadingView::fresh(), head_lines, names);
            let whole = after_lines(LogReadingView::fresh(), head_lines + tail_lines, names);
            &&& 0 <= cutoff <= head.snapshots.len()
            &&& whole.snapshots.len() <= usize::MAX
            &&& cutoff > 0 ==> high_water(None, usages(head.snapshots.take(cutoff))) == Some(
                head.snapshots[cutoff - 1].usage,
            )
            &&& forked ==> head.snapshots.len() > 0
        }),
    ensures
        ({
            let head = after_lines(LogReadingView::fresh(), head_lines, names);
            let checkpoint = head.checkpoint(None, old_signature);
            let tail = after_lines(LogReadingView::resumed(checkpoint), tail_lines, names);
            let whole = after_lines(LogReadingView::fresh(), head_lines + tail_lines, names);
            &&& usage_plan(ParsedSessionMode::Full, whole.snapshots, cutoff, forked) == usage_plan(
                ParsedSessionMode::Full,
                head.snapshots,
                cutoff,
                forked,
            ) + moved(
                usage_plan(
                    ParsedSessionMode::Tail { previous_usage: checkpoint.last_usage },
                    tail.snapshots,
                    0,
                    false,
                ),
                head.snapshots.len() as int,
            )
            &&& whole.checkpoint(None, new_signature) == tail.checkpoint(
                checkpoint.last_usage,
                new_signature,
            )
        }),
{
    let fresh = LogReadingView::fresh();
    let head = after_lines(fresh, head_lines, names);
    let checkpoint = head.checkpoint(None, old_signature);
    let tail = after_lines(LogReadingView::resumed(checkpoint), tail_lines, names);
    lines_read_on(fresh, head_lines, tail_lines, names);
    current_model_was_seen(fresh, head_lines, names);
    resumed_reading_continues(head, tail_lines, old_signature, names);
    tail_import_completes_full_import(head.snapshots, tail.snapshots, cutoff, forked);
    assert(usages(head.snapshots + tail.snapshots) =~= usages(head.snapshots) + usages(
        tail.snapshots,
    ));
    high_water_of_parts(None, usages(head.snapshots), usages(tail.snapshots));
}

/// What a log says after a list of lines.
pub open spec fn log_after(start: SessionLogView, lines: Seq<LogLine>, names: ModelNames) ->
    SessionLogView
    decreases lines.len(),
{
    if lines.len() == 0 {
        start
    } else {
        log_after(start, lines.drop_last(), names).after_line(
            lines.last().text,
            lines.last().now,
            names,
        )
    }
}

/// The description that a line gives.
pub open spec fn described(line: LogLine) -> Option<SessionMetaView> {
    match json_of_text(line.text) {
        Some(record) if record.text_at("type"@) == Some("session_meta"@) => meta_of(record),
        _ => None,
    }
}

/// The first description in a list of lines.
pub open spec fn first_description(lines: Seq<LogLine>) -> Option<SessionMetaView>
    decreases lines.len(),
{
    if lines.len() == 0 {
        None
    } else {
        match first_description(lines.drop_last()) {
            Some(meta) => Some(meta),
            None => described(lines.last()),
        }
    }
}

/// The last description in a list of lines that is of the session `id`.
pub open spec fn last_description_of(lines: Seq<LogLine>, id: Option<Seq<char>>) -> Option<
    SessionMetaView,
>
    decreases lines.len(),
{
    if lines.len() == 0 {
        None
    } else {
        match described(lines.last()) {
            Some(meta) if id == Some(meta.session_id) => Some(meta),
            _ => last_description_of(lines.drop_last(), id),
        }
    }
}

/// The first id that a line of a list gives at its top level and that is not empty; empty where
/// there is none.
pub open spec fn first_top_level_id(lines: Seq<LogLine>) -> Seq<char>
    decreases lines.len(),
{
    if lines.len() == 0 {
        Seq::empty()
    } else {
        let earlier = first_top_level_id(lines.drop_last());
        match json_of_text(lines.last().text) {
            Some(record) if earlier.len() == 0 => first_text(
                record.text_at("id"@),
                Some(earlier),
            )->0,
            _ => earlier,
        }
    }
}

/// The session of a log: that of the last description with the id of the file's name, or else of
/// the first description, or else the first id at the top level of a line, or else, where that is
/// empty, the id of the file's name.
pub open spec fn session_of_log(name_id: Option<Seq<char>>, lines: Seq<LogLine>) -> Option<
    Seq<char>,
> {
    let stated = match (last_description_of(lines, name_id), first_description(lines)) {
        (Some(meta), _) => meta.session_id,
        (None, Some(meta)) => meta.session_id,
        (None, None) => first_top_level_id(lines),
    };
    if stated.len() > 0 {
        Some(stated)
    } else {
        match name_id {
            Some(id) if id.len() > 0 => Some(id),
            _ => None,
        }
    }
}

/// What a whole log says of its session depends on its lines and on the file's name alone.
pub proof fn log_names_its_session(
    name_id: Option<Seq<char>>,
    lines: Seq<LogLine>,
    names: ModelNames,
)
    ensures
        ({
            let log = log_after(SessionLogView::fresh(name_id), lines, names);
            &&& log.expected_session_id == name_id
            &&& log.first_session_meta == first_description(lines)
            &&& log.matching_session_meta == last_description_of(lines, name_id)
            &&& log.session_id == first_top_level_id(lines)
            &&& log.final_session_id() == session_of_log(name_id, lines)
        }),
    decreases lines.len(),
{
    if lines.len() > 0 {
        log_names_its_session(name_id, lines.drop_last(), names);
    }
}

/// A log that describes the session in its file's name anywhere is that session's, whichever
/// other sessions it describes before or after.
pub proof fn file_name_decides_between_descriptions(
    id: Seq<char>,
    lines: Seq<LogLine>,
    place: int,
)
    requires
        id.len() > 0,
        0 <= place < lines.len(),
        described(lines[place]) is Some,
        described(lines[place])->0.session_id == id,
    ensures
        session_of_log(Some(id), lines) == Some(id),
{
    matching_description_is_found(id, lines, place);
}

proof fn matching_description_is_found(id: Seq<char>, lines: Seq<LogLine>, place: int)
    requires
        0 <= place < lines.len(),
        described(lines[place]) is Some,
        described(lines[place])->0.session_id == id,
    ensures
        last_description_of(lines, Some(id)) is Some,
        last_description_of(lines, Some(id))->0.session_id == id,
    decreases lines.len(),
{
    if place < lines.len() - 1 {
        assert(lines.drop_last()[place] == lines[place]);
        matching_description_is_found(id, lines.drop_last(), place);
    }
}

/// The reading of a log as a whole is the reading of its lines.
pub proof fn log_reads_its_lines(start: SessionLogView, lines: Seq<LogLine>, names: ModelNames)
    ensures
        log_after(start, lines, names).reading == after_lines(start.reading, lines, names),
    decreases lines.len(),
{
    if lines.len() > 0 {
        log_reads_its_lines(start, lines.drop_last(), names);
    }
}

} // verus!
