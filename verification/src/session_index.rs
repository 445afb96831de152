//! The index of session titles.

use crate::json::{json_of_text, parse_json, Json, JsonView};
use crate::text::{trim_text, trimmed};
use crate::text_map::TextMap;
use vstd::prelude::*;

verus! {

/// The session and the title that a record of the index gives; none where it has no id or its
/// title is blank.
pub open spec fn record_title(record: JsonView) -> Option<(Seq<char>, Seq<char>)> {
    match (record.text_at("id"@), record.text_at("thread_name"@)) {
        (Some(id), Some(name)) if trimmed(name).len() > 0 => Some((id, trimmed(name))),
        _ => None,
    }
}

/// Whether `after` is an index of titles after one more record: a title takes the place of an
/// earlier one.
pub open spec fn indexes_record(
    before: Map<Seq<char>, String>,
    after: Map<Seq<char>, String>,
    record: JsonView,
) -> bool {
    match record_title(record) {
        Some((id, title)) => after.dom() == before.dom().insert(id) && after[id]@ == title
            && forall|other: Seq<char>|
            before.dom().contains(other) && other != id ==> #[trigger] after[other]
                == before[other],
        None => after == before,
    }
}

/// Takes in a record of the index.
pub fn take_index_record(titles: &mut TextMap<String>, record: &Json)
    ensures
        indexes_record(old(titles)@, final(titles)@, record@),
{
    match (record.text_at("id"), record.text_at("thread_name")) {
        (Some(id), Some(name)) => {
            let title = trim_text(name.as_str());
            if !title.as_str().is_empty() {
                titles.insert(id.clone(), title);
            }
        },
        _ => {},
    }
}

/// Takes in a line of the index; one that is no JSON text is passed over.
pub fn take_index_line(titles: &mut TextMap<String>, line: &str)
    ensures
        match json_of_text(line@) {
            Some(record) => indexes_record(old(titles)@, final(titles)@, record),
            None => final(titles)@ == old(titles)@,
        },
{
    match parse_json(line) {
        Some(record) => {
            take_index_record(titles, &record);
        },
        None => {},
    }
}

} // verus!
