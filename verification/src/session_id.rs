//! Session ids, and the file names that carry them.

use crate::text::opt_text;
use vstd::prelude::*;
use vstd::string::*;

verus! {

/// How many characters a session id has.
pub const SESSION_ID_LEN: usize = 36;

/// Whether a character is a hexadecimal digit.
pub open spec fn is_hex_digit(character: char) -> bool {
    ('0' <= character && character <= '9') || ('a' <= character && character <= 'f') || ('A'
        <= character && character <= 'F')
}

/// Whether a session id has a dash at a place.
pub open spec fn is_dash_place(place: int) -> bool {
    place == 8 || place == 13 || place == 18 || place == 23
}

/// Whether a text is a session id: five groups of 8, 4, 4, 4 and 12 hexadecimal digits with
/// dashes between them.
pub open spec fn is_session_id(text: Seq<char>) -> bool {
    text.len() == SESSION_ID_LEN && forall|place: int|
        0 <= place < SESSION_ID_LEN ==> if is_dash_place(place) {
            #[trigger] text[place] == '-'
        } else {
            is_hex_digit(text[place])
        }
}

/// The session id that a file stem carries: its end, where that is a session id by itself or
/// behind a dash.
pub open spec fn id_in_stem(stem: Seq<char>) -> Option<Seq<char>> {
    let start = stem.len() - SESSION_ID_LEN;
    if start >= 0 && is_session_id(stem.skip(start)) && (start == 0 || stem[start - 1] == '-') {
        Some(stem.skip(start))
    } else {
        None
    }
}

fn hex_digit(character: char) -> (result: bool)
    ensures
        result == is_hex_digit(character),
{
    ('0' <= character && character <= '9') || ('a' <= character && character <= 'f') || ('A'
        <= character && character <= 'F')
}

/// Whether a text is a session id.
pub fn looks_like_session_id(value: &str) -> (result: bool)
    ensures
        result == is_session_id(value@),
{
    if value.unicode_len() != SESSION_ID_LEN {
        return false;
    }
    let mut place: usize = 0;
    while place < SESSION_ID_LEN
        invariant
            place <= SESSION_ID_LEN,
            value@.len() == SESSION_ID_LEN,
            forall|seen: int|
                0 <= seen < place ==> if is_dash_place(seen) {
                    #[trigger] value@[seen] == '-'
                } else {
                    is_hex_digit(value@[seen])
                },
        decreases SESSION_ID_LEN - place,
    {
        let character = value.get_char(place);
        let fits = if place == 8 || place == 13 || place == 18 || place == 23 {
            character == '-'
        } else {
            hex_digit(character)
        };
        if !fits {
            proof {
                assert(value@[place as int] == character);
            }
            return false;
        }
        place = place + 1;
    }
    true
}

/// The session id that a file stem carries.
pub fn session_id_from_stem(stem: &str) -> (id: Option<String>)
    ensures
        opt_text(id) == id_in_stem(stem@),
{
    let len = stem.unicode_len();
    if len < SESSION_ID_LEN {
        return None;
    }
    let start: usize = len - SESSION_ID_LEN;
    if start > 0 && stem.get_char(start - 1) != '-' {
        return None;
    }
    let candidate = stem.substring_char(start, len);
    proof {
        assert(candidate@ =~= stem@.skip(start as int));
    }
    if looks_like_session_id(candidate) {
        Some(candidate.to_owned())
    } else {
        None
    }
}

/// The stem of the file name in a path.
pub uninterp spec fn file_stem(path: Seq<char>) -> Option<Seq<char>>;

/// The stem of the file name in a path, by std's `Path::file_stem`, in the path syntax of the
/// target platform. The contract names the outcome.
#[verifier::external_body]
fn file_stem_of(path: &str) -> (stem: Option<String>)
    ensures
        opt_text(stem) == file_stem(path@),
{
    std::path::Path::new(path).file_stem().map(|stem| stem.to_string_lossy().into_owned())
}

/// The session id that the file name in a path carries.
pub open spec fn id_in_file_name(path: Seq<char>) -> Option<Seq<char>> {
    match file_stem(path) {
        Some(stem) => id_in_stem(stem),
        None => None,
    }
}

/// The session id that the file name in a path carries.
pub fn fallback_session_id_from_filename(path: &str) -> (id: Option<String>)
    ensures
        opt_text(id) == id_in_file_name(path@),
{
    match file_stem_of(path) {
        Some(stem) => session_id_from_stem(stem.as_str()),
        None => None,
    }
}

/// What a file name gives as a session id is one.
pub proof fn file_names_carry_session_ids(path: Seq<char>)
    ensures
        id_in_file_name(path) is Some ==> is_session_id(id_in_file_name(path)->0),
{
}

/// A stem that is a session id carries it, by itself and behind any text that ends in a dash.
pub proof fn stems_give_back_their_id(prefix: Seq<char>, id: Seq<char>)
    requires
        is_session_id(id),
    ensures
        id_in_stem(id) == Some(id),
        id_in_stem(prefix.push('-') + id) == Some(id),
{
    assert(id.skip(0) =~= id);
    assert((prefix.push('-') + id).skip((prefix.len() + 1) as int) =~= id);
    assert((prefix.push('-') + id)[prefix.len() as int] == '-');
}

} // verus!
