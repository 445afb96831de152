//! Comparing, searching and ordering texts.

use vstd::prelude::*;

verus! {

/// What an optional text holds.
pub open spec fn opt_text(value: Option<String>) -> Option<Seq<char>> {
    match value {
        Some(text) => Some(text@),
        None => None,
    }
}

/// What each text of a list holds.
pub open spec fn texts(values: Seq<String>) -> Seq<Seq<char>> {
    values.map_values(|value: String| value@)
}

/// Whether `part` stands somewhere inside `whole`.
pub open spec fn holds_text(whole: Seq<char>, part: Seq<char>) -> bool {
    exists|start: int|
        0 <= start && start + part.len() <= whole.len() && #[trigger] whole.subrange(
            start,
            start + part.len(),
        ) == part
}

/// The strict lexicographic order of texts by code point.
pub open spec fn text_before(left: Seq<char>, right: Seq<char>) -> bool
    decreases left.len(),
{
    if right.len() == 0 {
        false
    } else if left.len() == 0 {
        true
    } else if left[0] != right[0] {
        (left[0] as int) < (right[0] as int)
    } else {
        text_before(left.drop_first(), right.drop_first())
    }
}

/// `text_before` compares any two different texts one way or the other, and never both ways.
pub proof fn text_before_is_total(left: Seq<char>, right: Seq<char>)
    ensures
        text_before(left, right) || text_before(right, left) || left == right,
        !(text_before(left, right) && text_before(right, left)),
        left == right ==> !text_before(left, right),
    decreases left.len(),
{
    if left.len() > 0 && right.len() > 0 {
        if left[0] == right[0] {
            text_before_is_total(left.drop_first(), right.drop_first());
            if left.drop_first() == right.drop_first() {
                assert(left =~= seq![left[0]] + left.drop_first());
                assert(right =~= seq![right[0]] + right.drop_first());
            }
        }
    } else if left.len() == 0 && right.len() == 0 {
        assert(left =~= right);
    }
}

/// `text_before` is transitive.
pub proof fn text_before_is_transitive(first: Seq<char>, second: Seq<char>, third: Seq<char>)
    requires
        text_before(first, second),
        text_before(second, third),
    ensures
        text_before(first, third),
    decreases first.len(),
{
    if first.len() > 0 && first[0] == second[0] && second[0] == third[0] {
        text_before_is_transitive(first.drop_first(), second.drop_first(), third.drop_first());
    }
}

/// Whether two texts are the same, by `==` of std's `str`, which compares their characters.
#[verifier::external_body]
pub(crate) fn same_text(left: &str, right: &str) -> (same: bool)
    ensures
        same == (left@ == right@),
{
    left == right
}

/// Whether `part` occurs in `whole`, by std's `str::contains`, which looks for a sub-slice.
#[verifier::external_body]
pub(crate) fn contains_text(whole: &str, part: &str) -> (found: bool)
    ensures
        found == holds_text(whole@, part@),
{
    whole.contains(part)
}

/// Whether `left` comes before `right`, by `<` of std's `str`, which is documented to order texts
/// by the positions of their code points.
#[verifier::external_body]
pub(crate) fn text_is_before(left: &str, right: &str) -> (before: bool)
    ensures
        before == text_before(left@, right@),
{
    left < right
}

/// Whether a text ends with a character.
pub(crate) fn ends_with_char(text: &str, character: char) -> (result: bool)
    ensures
        result == (text@.len() > 0 && text@.last() == character),
{
    let count = text.unicode_len();
    count > 0 && text.get_char(count - 1) == character
}

/// Whether a character is white space, as Unicode's property `White_Space` has it.
pub open spec fn is_white_space(character: char) -> bool {
    let code = character as u32;
    (0x9 <= code <= 0xD) || code == 0x20 || code == 0x85 || code == 0xA0 || code == 0x1680 || (
    0x2000 <= code <= 0x200A) || code == 0x2028 || code == 0x2029 || code == 0x202F || code
        == 0x205F || code == 0x3000
}

/// A text without the white space at its start.
pub open spec fn without_leading_space(text: Seq<char>) -> Seq<char>
    decreases text.len(),
{
    if text.len() > 0 && is_white_space(text[0]) {
        without_leading_space(text.drop_first())
    } else {
        text
    }
}

/// A text without the white space at its end.
pub open spec fn without_trailing_space(text: Seq<char>) -> Seq<char>
    decreases text.len(),
{
    if text.len() > 0 && is_white_space(text.last()) {
        without_trailing_space(text.drop_last())
    } else {
        text
    }
}

/// A text without the white space at its two ends.
pub open spec fn trimmed(text: Seq<char>) -> Seq<char> {
    without_trailing_space(without_leading_space(text))
}

/// A text without the white space at its two ends, by std's `str::trim`, which is documented to go
/// by Unicode's property `White_Space`.
#[verifier::external_body]
pub(crate) fn trim_text(text: &str) -> (result: String)
    ensures
        result@ == trimmed(text@),
{
    text.trim().to_string()
}

/// A text in quotes, with its special characters escaped.
pub uninterp spec fn quoted(text: Seq<char>) -> Seq<char>;

/// A text in quotes, with its special characters escaped, as std's `Debug` of `str` writes it.
#[verifier::external_body]
pub(crate) fn quote_text(text: &str) -> (result: String)
    ensures
        result@ == quoted(text@),
{
    format!("{text:?}")
}

/// Whether a text holds nothing but white space.
pub open spec fn blank(text: Seq<char>) -> bool {
    trimmed(text).len() == 0
}

/// Whether a text holds nothing but white space.
pub fn is_blank(text: &str) -> (result: bool)
    ensures
        result == blank(text@),
{
    trim_text(text).as_str().is_empty()
}

/// A copy of an optional text.
pub(crate) fn copy_opt(value: &Option<String>) -> (copy: Option<String>)
    ensures
        copy == *value,
{
    match value {
        Some(text) => Some(text.clone()),
        None => None,
    }
}

/// Whether two optional texts are the same.
pub(crate) fn same_opt(left: &Option<String>, right: &Option<String>) -> (same: bool)
    ensures
        same == (opt_text(*left) == opt_text(*right)),
{
    match (left, right) {
        (Some(one), Some(other)) => same_text(one.as_str(), other.as_str()),
        (None, None) => true,
        _ => false,
    }
}

/// Whether an optional text holds exactly `expected`.
pub(crate) fn opt_is(value: &Option<String>, expected: &str) -> (same: bool)
    ensures
        same == (opt_text(*value) == Some(expected@)),
{
    match value {
        Some(text) => same_text(text.as_str(), expected),
        None => false,
    }
}

/// Whether a list holds a text.
pub(crate) fn list_holds(values: &Vec<String>, wanted: &str) -> (found: bool)
    ensures
        found == texts(values@).contains(wanted@),
{
    let mut index: usize = 0;
    while index < values.len()
        invariant
            index <= values.len(),
            forall|seen: int| 0 <= seen < index ==> texts(values@)[seen] != wanted@,
        decreases values.len() - index,
    {
        if same_text(values[index].as_str(), wanted) {
            proof {
                assert(texts(values@)[index as int] == wanted@);
            }
            return true;
        }
        index = index + 1;
    }
    false
}

/// A list with a text in it, at its end where it was not there before.
pub open spec fn with_text(list: Seq<Seq<char>>, text: Seq<char>) -> Seq<Seq<char>> {
    if list.contains(text) {
        list
    } else {
        list.push(text)
    }
}

/// Adds a text to a list, where it is not there yet.
pub(crate) fn add_text(values: &mut Vec<String>, text: &str)
    ensures
        texts(final(values)@) == with_text(texts(old(values)@), text@),
{
    if !list_holds(values, text) {
        let ghost before = texts(values@);
        values.push(text.to_owned());
        proof {
            assert(texts(values@) =~= before.push(text@));
        }
    }
}

/// A copy of an optional borrowed text.
pub(crate) fn copy_found(text: Option<&String>) -> (copy: Option<String>)
    ensures
        opt_text(copy) == match text {
            Some(found) => Some(found@),
            None => None,
        },
{
    match text {
        Some(found) => Some(found.clone()),
        None => None,
    }
}

/// The first of two texts that is there.
pub open spec fn first_text(first: Option<Seq<char>>, second: Option<Seq<char>>) -> Option<
    Seq<char>,
> {
    match first {
        Some(text) => Some(text),
        None => second,
    }
}

} // verus!
