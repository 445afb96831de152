//! The JSON values that log lines hold, as far as anything reads them.

use crate::numbers::{round_to_integer, rounded};
use crate::text::same_text;
use vstd::prelude::*;

verus! {

/// A JSON value. Objects, texts, numbers and null are kept; nothing reads into the others.
#[derive(Debug)]
pub enum Json {
    Null,
    Text(String),
    Number {
        /// The number as an `i64`, where it is an integer in that range.
        integer: Option<i64>,
        /// The number as a double, by its bits.
        double_bits: Option<u64>,
    },
    Object(Vec<(String, Json)>),
    /// A boolean or an array.
    Other,
}

/// What a JSON value holds.
pub enum JsonView {
    Null,
    Text(Seq<char>),
    Number { integer: Option<i64>, double_bits: Option<u64> },
    Object(Seq<(Seq<char>, JsonView)>),
    Other,
}

/// What a JSON value holds.
pub open spec fn json_view(json: Json) -> JsonView
    decreases json,
{
    match json {
        Json::Null => JsonView::Null,
        Json::Text(text) => JsonView::Text(text@),
        Json::Number { integer, double_bits } => JsonView::Number { integer, double_bits },
        Json::Object(fields) => JsonView::Object(
            Seq::new(
                fields.len() as nat,
                |index: int|
                    if 0 <= index < fields.len() {
                        (fields[index].0@, json_view(fields[index].1))
                    } else {
                        arbitrary()
                    },
            ),
        ),
        Json::Other => JsonView::Other,
    }
}

impl View for Json {
    type V = JsonView;

    open spec fn view(&self) -> JsonView {
        json_view(*self)
    }
}

/// The value of the first field, from `index` on, that has this key.
pub open spec fn field_from(
    fields: Seq<(Seq<char>, JsonView)>,
    key: Seq<char>,
    index: int,
) -> Option<JsonView>
    decreases fields.len() - index,
{
    if index < 0 || index >= fields.len() {
        None
    } else if fields[index].0 == key {
        Some(fields[index].1)
    } else {
        field_from(fields, key, index + 1)
    }
}

impl JsonView {
    /// The value of an object's field; a value that is no object has no fields.
    pub open spec fn get(self, key: Seq<char>) -> Option<JsonView> {
        match self {
            JsonView::Object(fields) => field_from(fields, key, 0),
            _ => None,
        }
    }

    /// The value of an object's field, null where there is none.
    pub open spec fn get_or_null(self, key: Seq<char>) -> JsonView {
        match self.get(key) {
            Some(value) => value,
            None => JsonView::Null,
        }
    }

    /// The text that a value is.
    pub open spec fn text(self) -> Option<Seq<char>> {
        match self {
            JsonView::Text(text) => Some(text),
            _ => None,
        }
    }

    /// The text that an object's field is.
    pub open spec fn text_at(self, key: Seq<char>) -> Option<Seq<char>> {
        self.get_or_null(key).text()
    }

    /// The integer that an object's field is.
    pub open spec fn integer_at(self, key: Seq<char>) -> Option<i64> {
        match self.get(key) {
            Some(JsonView::Number { integer, .. }) => integer,
            _ => None,
        }
    }

    /// The number that an object's field is, rounded where it is no integer.
    pub open spec fn percent_at(self, key: Seq<char>) -> Option<i64> {
        match self.get(key) {
            Some(JsonView::Number { integer, double_bits }) => match (integer, double_bits) {
                (Some(exact), _) => Some(exact),
                (None, Some(bits)) => Some(rounded(bits)),
                (None, None) => None,
            },
            _ => None,
        }
    }
}

impl Json {
    /// The value of an object's field.
    pub fn get(&self, key: &str) -> (value: Option<&Json>)
        ensures
            match value {
                Some(found) => self@.get(key@) == Some(found@),
                None => self@.get(key@) is None,
            },
    {
        match self {
            Json::Object(fields) => {
                let ghost shown = self@->Object_0;
                let mut index: usize = 0;
                while index < fields.len()
                    invariant
                        index <= fields.len(),
                        self@ == JsonView::Object(shown),
                        shown.len() == fields.len(),
                        forall|place: int|
                            0 <= place < fields.len() ==> #[trigger] shown[place] == (
                                fields[place].0@,
                                fields[place].1@,
                            ),
                        field_from(shown, key@, 0) == field_from(shown, key@, index as int),
                    decreases fields.len() - index,
                {
                    proof {
                        assert(shown[index as int] == (
                            fields[index as int].0@,
                            fields[index as int].1@,
                        ));
                    }
                    if same_text(fields[index].0.as_str(), key) {
                        return Some(&fields[index].1);
                    }
                    index = index + 1;
                }
                None
            },
            _ => None,
        }
    }

    /// The text that a value is.
    pub fn text(&self) -> (text: Option<&String>)
        ensures
            match text {
                Some(found) => self@.text() == Some(found@),
                None => self@.text() is None,
            },
    {
        match self {
            Json::Text(text) => Some(text),
            _ => None,
        }
    }

    /// The text that an object's field is.
    pub fn text_at(&self, key: &str) -> (text: Option<&String>)
        ensures
            match text {
                Some(found) => self@.text_at(key@) == Some(found@),
                None => self@.text_at(key@) is None,
            },
    {
        match self.get(key) {
            Some(value) => value.text(),
            None => None,
        }
    }

    /// The integer that an object's field is.
    pub fn integer_at(&self, key: &str) -> (integer: Option<i64>)
        ensures
            integer == self@.integer_at(key@),
    {
        match self.get(key) {
            Some(Json::Number { integer, .. }) => *integer,
            _ => None,
        }
    }

    /// The number that an object's field is, rounded where it is no integer.
    pub fn percent_at(&self, key: &str) -> (percent: Option<i64>)
        ensures
            percent == self@.percent_at(key@),
    {
        match self.get(key) {
            Some(Json::Number { integer, double_bits }) => match (integer, double_bits) {
                (Some(exact), _) => Some(*exact),
                (None, Some(bits)) => Some(round_to_integer(*bits)),
                (None, None) => None,
            },
            _ => None,
        }
    }
}

/// A JSON value of `serde_json`.
#[verifier::external_type_specification]
#[verifier::external_body]
pub struct ExValue(serde_json::Value);

/// What a value of `serde_json` holds.
pub uninterp spec fn value_content(value: serde_json::Value) -> JsonView;

/// What a text says as JSON, where it is a JSON text.
pub uninterp spec fn json_of_text(text: Seq<char>) -> Option<JsonView>;

/// What `serde_json::from_str` makes of a text, where it accepts it. The contract names the
/// outcome, a function of the text alone.
#[verifier::external_body]
fn parse_value(text: &str) -> (result: Option<serde_json::Value>)
    ensures
        match result {
            Some(value) => json_of_text(text@) == Some(value_content(value)),
            None => json_of_text(text@) is None,
        },
{
    serde_json::from_str(text).ok()
}

/// A value of `serde_json`, opened by one level.
enum Opened<'a> {
    Null,
    Text(&'a String),
    Number { integer: Option<i64>, double_bits: Option<u64> },
    Object(Vec<(&'a String, &'a serde_json::Value)>),
    Other,
}

/// What an opened value holds.
spec fn opened_content(opened: Opened<'_>) -> JsonView {
    match opened {
        Opened::Null => JsonView::Null,
        Opened::Text(text) => JsonView::Text(text@),
        Opened::Number { integer, double_bits } => JsonView::Number { integer, double_bits },
        Opened::Object(fields) => JsonView::Object(
            Seq::new(
                fields.len() as nat,
                |index: int| (fields[index].0@, value_content(*fields[index].1)),
            ),
        ),
        Opened::Other => JsonView::Other,
    }
}

/// Opens a `serde_json::Value` by one level: tells its variants apart and hands out its text, its
/// number (`as_i64`, and `as_f64` by its bits) or the fields of its map in the map's order.
#[verifier::external_body]
fn open_value<'a>(value: &'a serde_json::Value) -> (opened: Opened<'a>)
    ensures
        value_content(*value) == opened_content(opened),
{
    match value {
        serde_json::Value::Null => Opened::Null,
        serde_json::Value::String(text) => Opened::Text(text),
        serde_json::Value::Number(number) => Opened::Number {
            integer: number.as_i64(),
            double_bits: number.as_f64().map(|double| double.to_bits()),
        },
        serde_json::Value::Object(fields) => Opened::Object(fields.iter().collect()),
        serde_json::Value::Bool(_) => Opened::Other,
        serde_json::Value::Array(_) => Opened::Other,
    }
}

/// The JSON value that a value of `serde_json` holds.
fn json_of_value(value: &serde_json::Value) -> (json: Json)
    ensures
        json@ == value_content(*value),
    decreases value_content(*value),
{
    match open_value(value) {
        Opened::Null => Json::Null,
        Opened::Text(text) => Json::Text(text.clone()),
        Opened::Number { integer, double_bits } => Json::Number { integer, double_bits },
        Opened::Object(parts) => {
            let ghost shown = value_content(*value)->Object_0;
            let mut fields: Vec<(String, Json)> = Vec::new();
            let mut index: usize = 0;
            while index < parts.len()
                invariant
                    index <= parts.len(),
                    value_content(*value) == JsonView::Object(shown),
                    shown.len() == parts.len(),
                    forall|place: int|
                        0 <= place < parts.len() ==> #[trigger] shown[place] == (
                            parts[place].0@,
                            value_content(*parts[place].1),
                        ),
                    fields.len() == index,
                    forall|place: int|
                        0 <= place < index ==> #[trigger] shown[place] == (
                            fields[place].0@,
                            fields[place].1@,
                        ),
                decreases parts.len() - index,
            {
                proof {
                    assert(shown[index as int] == (
                        parts[index as int].0@,
                        value_content(*parts[index as int].1),
                    ));
                    assert(decreases_to!(
                        value_content(*value) => value_content(*value)->Object_0
                    ));
                    assert(decreases_to!(shown => shown[index as int]));
                    assert(decreases_to!(shown[index as int] => shown[index as int].1));
                }
                let item = json_of_value(parts[index].1);
                fields.push((parts[index].0.clone(), item));
                index = index + 1;
            }
            let json = Json::Object(fields);
            proof {
                assert(json@->Object_0 =~= shown);
            }
            json
        },
        Opened::Other => Json::Other,
    }
}

/// What a text says as JSON, where it is a JSON text.
pub fn parse_json(text: &str) -> (result: Option<Json>)
    ensures
        match result {
            Some(json) => json_of_text(text@) == Some(json@),
            None => json_of_text(text@) is None,
        },
{
    match parse_value(text) {
        Some(value) => Some(json_of_value(&value)),
        None => None,
    }
}

} // verus!
