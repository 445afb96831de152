//! How much texts and lists have reserved.
//!
//! That is up to the allocator, and no property of what they hold: two equal texts may have
//! reserved different amounts. What was asked of which text or list is known, though: the answer
//! keeps both, and only the call itself makes one.

use vstd::layout::size_of as layout_size;
use vstd::prelude::*;
use vstd::utf8::encode_utf8;

verus! {

/// How much a text has reserved.
#[derive(Debug)]
pub struct TextRoom<'a> {
    text: &'a String,
    bytes: usize,
}

impl<'a> TextRoom<'a> {
    /// The text that was asked.
    pub closed spec fn asked(&self) -> Seq<char> {
        self.text@
    }

    /// How many bytes it has reserved.
    pub closed spec fn reserved(&self) -> usize {
        self.bytes
    }
}

/// How many places a list has reserved.
#[derive(Debug)]
pub struct ListRoom<'a, T> {
    list: &'a Vec<T>,
    places: usize,
}

impl<'a, T> ListRoom<'a, T> {
    /// The list that was asked.
    pub closed spec fn asked(&self) -> Seq<T> {
        self.list@
    }

    /// How many places it has reserved.
    pub closed spec fn reserved(&self) -> usize {
        self.places
    }
}

/// Whether a text was found to have reserved this many bytes, which are never less than it holds.
pub open spec fn reserves_bytes(text: Seq<char>, bytes: usize) -> bool {
    encode_utf8(text).len() <= bytes <= isize::MAX && exists|room: TextRoom<'_>|
        #[trigger] room.asked() == text && room.reserved() == bytes
}

/// Whether a list was found to have reserved this many places, which are never fewer than it fills.
pub open spec fn reserves_places<T>(list: Seq<T>, places: usize) -> bool {
    list.len() <= places && places * layout_size::<T>() <= isize::MAX && exists|
        room: ListRoom<'_, T>,
    |
        #[trigger] room.asked() == list && room.reserved() == places
}

/// How many bytes a text has reserved, by std's `String::capacity`, with the text that was asked.
/// That is never less than the bytes that the text holds, and never more than `isize::MAX`, which
/// no allocation exceeds; how much it is between the two is left open.
#[verifier::external_body]
fn text_room<'a>(text: &'a String) -> (room: TextRoom<'a>)
    ensures
        room.asked() == text@,
        encode_utf8(text@).len() <= room.reserved() <= isize::MAX,
{
    TextRoom { text, bytes: text.capacity() }
}

/// How many places a list has reserved, by std's `Vec::capacity`, with the list that was asked.
/// They are never fewer than those that the list fills, and never take up more than `isize::MAX`
/// bytes, which no allocation exceeds; how many they are between the two is left open.
#[verifier::external_body]
fn list_room<'a, T>(list: &'a Vec<T>) -> (room: ListRoom<'a, T>)
    ensures
        room.asked() == list@,
        list@.len() <= room.reserved(),
        room.reserved() * layout_size::<T>() <= isize::MAX,
{
    ListRoom { list, places: list.capacity() }
}

/// How many bytes a text has reserved.
pub fn text_capacity(text: &String) -> (bytes: usize)
    ensures
        reserves_bytes(text@, bytes),
{
    let room = text_room(text);
    proof {
        assert(room.asked() == text@);
    }
    room.bytes
}

/// How many places a list has reserved.
pub fn list_capacity<T>(list: &Vec<T>) -> (places: usize)
    ensures
        reserves_places(list@, places),
{
    let room = list_room(list);
    proof {
        assert(room.asked() == list@);
    }
    room.places
}

/// Whether an optional text was found to have reserved this many bytes: none where there is no
/// text.
pub open spec fn reserves_opt(text: Option<String>, bytes: usize) -> bool {
    match text {
        Some(found) => reserves_bytes(found@, bytes),
        None => bytes == 0,
    }
}

/// How many bytes an optional text has reserved.
pub fn option_string_capacity(value: &Option<String>) -> (bytes: usize)
    ensures
        reserves_opt(*value, bytes),
{
    match value {
        Some(text) => text_capacity(text),
        None => 0,
    }
}

} // verus!
