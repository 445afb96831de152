//! What file names and the index of titles say of a session.

use crate::json::JsonView;
use crate::record_laws::{said_text_is_found, says_no_text, says_text};
use crate::session_id::{file_stem, id_in_file_name, id_in_stem, is_hex_digit, is_session_id};
use crate::session_index::{indexes_record, record_title};
use crate::text::{is_white_space, trimmed, without_leading_space, without_trailing_space};
use vstd::prelude::*;

verus! {

/// A session id has 36 characters: hexadecimal digits of either case, and a dash after the eighth,
/// twelfth, sixteenth and twentieth of them.
pub proof fn session_ids_are_dashed_hexadecimal(text: Seq<char>)
    ensures
        is_session_id(text) <==> text.len() == 36 && forall|place: int|
            0 <= place < 36 ==> {
                let code = (#[trigger] text[place]) as int;
                if place == 8 || place == 8 + 1 + 4 || place == 8 + 1 + 4 + 1 + 4 || place == 8 + 1
                    + 4 + 1 + 4 + 1 + 4 {
                    code == 0x2D
                } else {
                    0x30 <= code <= 0x39 || 0x41 <= code <= 0x46 || 0x61 <= code <= 0x66
                }
            },
{
    assert forall|character: char| #[trigger] is_hex_digit(character) <==> {
        let code = character as int;
        0x30 <= code <= 0x39 || 0x41 <= code <= 0x46 || 0x61 <= code <= 0x66
    } by {}
}

/// A stem carries an id exactly where it is one, or ends with one behind a dash.
pub proof fn stem_carries_what_it_ends_with(stem: Seq<char>)
    ensures
        id_in_stem(stem) matches Some(id) ==> is_session_id(id) && (stem == id || exists|
            prefix: Seq<char>,
        | #[trigger] prefix.push('-') + id == stem),
        id_in_stem(stem) is None ==> forall|prefix: Seq<char>, id: Seq<char>|
            is_session_id(id) ==> stem != #[trigger] (prefix.push('-') + id) && stem != id,
{
    if let Some(id) = id_in_stem(stem) {
        let start = stem.len() - 36;
        if start == 0 {
            assert(stem =~= id);
        } else {
            let prefix = stem.take(start - 1);
            assert(prefix.push('-') + id =~= stem);
        }
    } else {
        assert forall|prefix: Seq<char>, id: Seq<char>| is_session_id(id) implies stem
            != #[trigger] (prefix.push('-') + id) && stem != id by {
            let whole = prefix.push('-') + id;
            assert(whole.skip(whole.len() - 36) =~= id);
            assert(whole[whole.len() - 37] == '-');
            assert(id.skip(id.len() - 36) =~= id);
        }
    }
}

/// Whether a text is the middle of another, between white space, and has none at its own ends.
pub open spec fn is_middle(middle: Seq<char>, text: Seq<char>, start: int) -> bool {
    &&& 0 <= start
    &&& start + middle.len() <= text.len()
    &&& middle == text.subrange(start, start + middle.len())
    &&& forall|place: int| 0 <= place < start ==> is_white_space(#[trigger] text[place])
    &&& forall|place: int|
        start + middle.len() <= place < text.len() ==> is_white_space(#[trigger] text[place])
    &&& middle.len() > 0 ==> !is_white_space(middle[0]) && !is_white_space(middle.last())
}

proof fn leading_space_goes(text: Seq<char>) -> (start: int)
    ensures
        0 <= start <= text.len(),
        without_leading_space(text) == text.skip(start),
        forall|place: int| 0 <= place < start ==> is_white_space(#[trigger] text[place]),
        start < text.len() ==> !is_white_space(text[start]),
    decreases text.len(),
{
    if text.len() > 0 && is_white_space(text[0]) {
        let rest = leading_space_goes(text.drop_first());
        assert(text.drop_first().skip(rest) =~= text.skip(rest + 1));
        assert forall|place: int| 0 <= place < rest + 1 implies is_white_space(
            #[trigger] text[place],
        ) by {
            if place > 0 {
                assert(text.drop_first()[place - 1] == text[place]);
            }
        }
        if rest + 1 < text.len() {
            assert(text.drop_first()[rest] == text[rest + 1]);
        }
        rest + 1
    } else {
        assert(text.skip(0) =~= text);
        0
    }
}

proof fn trailing_space_goes(text: Seq<char>) -> (end: int)
    ensures
        0 <= end <= text.len(),
        without_trailing_space(text) == text.take(end),
        forall|place: int| end <= place < text.len() ==> is_white_space(#[trigger] text[place]),
        end > 0 ==> !is_white_space(text[end - 1]),
    decreases text.len(),
{
    if text.len() > 0 && is_white_space(text.last()) {
        let end = trailing_space_goes(text.drop_last());
        assert(text.drop_last().take(end) =~= text.take(end));
        assert forall|place: int| end <= place < text.len() implies is_white_space(
            #[trigger] text[place],
        ) by {
            if place < text.len() - 1 {
                assert(text.drop_last()[place] == text[place]);
            }
        }
        end
    } else {
        assert(text.take(text.len() as int) =~= text);
        text.len() as int
    }
}

/// Trimming takes away the white space at both ends and nothing else.
pub proof fn trimming_leaves_the_middle(text: Seq<char>)
    ensures
        exists|start: int| #[trigger] is_middle(trimmed(text), text, start),
{
    let start = leading_space_goes(text);
    let rest = text.skip(start);
    let end = trailing_space_goes(rest);
    let middle = trimmed(text);
    assert(middle =~= text.subrange(start, start + end));
    assert forall|place: int| start + middle.len() <= place < text.len() implies is_white_space(
        #[trigger] text[place],
    ) by {
        assert(rest[place - start] == text[place]);
    }
    if middle.len() > 0 {
        assert(middle[0] == text[start]);
        assert(middle.last() == rest[end - 1]);
    }
    assert(is_middle(middle, text, start));
}

/// A record of the index names a session by its id and gives it the title that stands in it,
/// trimmed; without an id, without a title, or with a blank one it gives nothing.
pub proof fn index_record_gives_its_title(record: JsonView)
    ensures
        forall|id: Seq<char>, name: Seq<char>|
            #![trigger says_text(record, "id"@, id), says_text(record, "thread_name"@, name)]
            says_text(record, "id"@, id) && says_text(record, "thread_name"@, name)
                ==> record_title(record) == if trimmed(name).len() > 0 {
                Some((id, trimmed(name)))
            } else {
                None
            },
        says_no_text(record, "id"@) || says_no_text(record, "thread_name"@) ==> record_title(record)
            is None,
{
    said_text_is_found(record, "id"@);
    said_text_is_found(record, "thread_name"@);
}

/// The last title of a session stands in the index, and a record touches no other session.
pub proof fn last_title_stands(
    before: Map<Seq<char>, String>,
    after: Map<Seq<char>, String>,
    record: JsonView,
    id: Seq<char>,
    name: Seq<char>,
    other: Seq<char>,
)
    requires
        indexes_record(before, after, record),
        says_text(record, "id"@, id),
        says_text(record, "thread_name"@, name),
        trimmed(name).len() > 0,
        other != id,
    ensures
        after.dom().contains(id),
        after[id]@ == trimmed(name),
        after.dom().contains(other) <==> before.dom().contains(other),
        before.dom().contains(other) ==> after[other] == before[other],
{
    index_record_gives_its_title(record);
}

/// The name of a file carries what its stem carries, and without a stem nothing.
pub proof fn file_name_carries_what_its_stem_carries(path: Seq<char>)
    ensures
        file_stem(path) matches Some(stem) ==> id_in_file_name(path) == id_in_stem(stem),
        file_stem(path) is None ==> id_in_file_name(path) is None,
{
}

} // verus!
