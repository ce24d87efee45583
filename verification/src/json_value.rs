//! What this crate takes on trust from the `json` crate. Nothing here is
//! proved: each contract restates what the named function of `json` does, and
//! the functions of [`crate::codec`] are verified against these contracts.

use vstd::prelude::*;
use json::JsonValue;

verus! {

/// `json::JsonValue`, a JSON value of any kind. Its inside is hidden from the
/// verifier; the functions below name what can be read from it.
#[verifier::external_type_specification]
#[verifier::external_body]
pub struct ExJsonValue(json::JsonValue);

/// `json::Error`, the reason why a text is no JSON.
#[verifier::external_type_specification]
#[verifier::external_body]
pub struct ExJsonError(json::Error);

/// Whether the value is JSON `null`: what `JsonValue::is_null` answers.
pub uninterp spec fn json_is_null(value: JsonValue) -> bool;

/// The text of a JSON string, and nothing for a value of another kind: what
/// `JsonValue::as_str` gives.
pub uninterp spec fn json_text(value: JsonValue) -> Option<Seq<char>>;

/// The value as a count, and nothing if it is no number or a number that is
/// negative, fractional or too large: what `JsonValue::as_usize` gives.
pub uninterp spec fn json_count(value: JsonValue) -> Option<usize>;

/// Whether the value is a JSON array: what `JsonValue::is_array` answers.
pub uninterp spec fn json_is_array(value: JsonValue) -> bool;

/// Whether the value is a JSON object: what `JsonValue::is_object` answers.
pub uninterp spec fn json_is_object(value: JsonValue) -> bool;

/// The members of a JSON array in their order; empty for any other value.
pub uninterp spec fn json_items(value: JsonValue) -> Seq<JsonValue>;

/// What indexing the value with `key` gives: the entry of a JSON object under
/// that key.
pub uninterp spec fn json_member(value: JsonValue, key: Seq<char>) -> JsonValue;

/// The value that `json::parse` reads from a text; nothing where it reports
/// an error.
pub uninterp spec fn json_parsed(text: Seq<char>) -> Option<JsonValue>;

/// The compact text that `JsonValue::dump` writes for a value.
pub uninterp spec fn json_dumped(value: JsonValue) -> Seq<char>;

/// `JsonValue::is_null`.
pub assume_specification[ json::JsonValue::is_null ](value: &JsonValue) -> (r: bool)
    ensures
        r == json_is_null(*value),
;

/// `JsonValue::is_array`.
pub assume_specification[ json::JsonValue::is_array ](value: &JsonValue) -> (r: bool)
    ensures
        r == json_is_array(*value),
;

/// `JsonValue::as_usize`.
pub assume_specification[ json::JsonValue::as_usize ](value: &JsonValue) -> (r: Option<usize>)
    ensures
        r == json_count(*value),
;

/// `JsonValue::len`: for an array, the number of its members. (For an object
/// it counts keys and for anything else it is 0; neither is claimed here.)
pub assume_specification[ json::JsonValue::len ](value: &JsonValue) -> (r: usize)
    ensures
        json_is_array(*value) ==> r == json_items(*value).len(),
;

/// `JsonValue::as_str`, with the borrowed text copied into a `String`.
#[verifier::external_body]
pub(crate) fn json_text_of(value: &JsonValue) -> (r: Option<String>)
    ensures
        match r {
            Some(text) => json_text(*value) == Some(text@),
            None => json_text(*value) is None,
        },
{
    value.as_str().map(String::from)
}

/// Indexing a `JsonValue` with a `&str`: the entry under `key`. Where there
/// is none, or the value is no object, `json` hands out a null, and never
/// panics.
#[verifier::external_body]
pub(crate) fn json_member_ref<'a>(value: &'a JsonValue, key: &str) -> (r: &'a JsonValue)
    ensures
        *r == json_member(*value, key@),
{
    &value[key]
}

/// Indexing a `JsonValue` with a `usize`: the member of an array at `index`.
/// Out of range `json` hands out a null, of which nothing is claimed here.
#[verifier::external_body]
pub(crate) fn json_item_ref(value: &JsonValue, index: usize) -> (r: &JsonValue)
    ensures
        json_is_array(*value) && index < json_items(*value).len() ==> *r == json_items(
            *value,
        )[index as int],
{
    &value[index]
}

/// `JsonValue::new_object`: an object without entries.
pub assume_specification[ json::JsonValue::new_object ]() -> (r: JsonValue)
    ensures
        json_is_object(r),
;

/// `JsonValue::insert` on an object: afterwards `key` leads to `value`, and
/// every other key leads to what it led to before.
#[verifier::external_body]
pub(crate) fn json_insert(object: &mut JsonValue, key: &str, value: JsonValue)
    requires
        json_is_object(*old(object)),
    ensures
        json_is_object(*final(object)),
        json_member(*final(object), key@) == value,
        forall|other: Seq<char>|
            other != key@ ==> #[trigger] json_member(*final(object), other) == json_member(
                *old(object),
                other,
            ),
{
    let _ = object.insert(key, value);
}

/// `JsonValue::from` for a `usize`: a JSON number that reads back as that
/// count.
#[verifier::external_body]
pub(crate) fn json_from_count(count: usize) -> (r: JsonValue)
    ensures
        json_count(r) == Some(count),
{
    JsonValue::from(count)
}

/// `JsonValue::from` for a `Vec` of optional strings: a JSON array with one
/// member for each element in the same order, a JSON string with the same
/// text for `Some`, and `null` for `None`.
#[verifier::external_body]
pub(crate) fn json_from_names(names: Vec<Option<String>>) -> (r: JsonValue)
    ensures
        json_is_array(r),
        json_items(r).len() == names@.len(),
        forall|i: int|
            0 <= i < names@.len() ==> json_is_null(#[trigger] json_items(r)[i]) == (names@[i] is None),
        forall|i: int|
            0 <= i < names@.len() ==> (names@[i] matches Some(name) ==> json_text(
                #[trigger] json_items(r)[i],
            ) == Some(name@)),
{
    JsonValue::from(names)
}

/// The longest row of digits that a text handed to `json::parse` may hold.
pub const MAX_DIGIT_RUN: usize = 32767;

/// Whether a character is one of the digits `0` to `9`.
pub open spec fn is_digit(c: char) -> bool {
    '0' <= c <= '9'
}

/// How many digits stand in a row right before the place `end` of a text.
pub open spec fn digits_before(text: Seq<char>, end: int) -> nat
    decreases end,
{
    if end <= 0 || end > text.len() || !is_digit(text[end - 1]) {
        0
    } else {
        1 + digits_before(text, end - 1)
    }
}

/// Whether a text holds more than [`MAX_DIGIT_RUN`] digits in a row.
pub open spec fn has_long_digit_run(text: Seq<char>) -> bool {
    exists|end: int| 0 <= end <= text.len() && #[trigger] digits_before(text, end) > MAX_DIGIT_RUN
}

/// `json::parse`: reads a text as JSON. While it reads the digits behind a
/// decimal point it counts them down in a 16-bit exponent, which leaves its
/// range on a long enough row of digits; a text with such a row is kept away
/// from it.
#[verifier::external_body]
pub(crate) fn json_parse(text: &str) -> (r: Result<JsonValue, json::Error>)
    requires
        !has_long_digit_run(text@),
    ensures
        match r {
            Ok(value) => json_parsed(text@) == Some(value),
            Err(_) => json_parsed(text@) is None,
        },
{
    json::parse(text)
}

/// `JsonValue::dump`: writes a value as compact JSON text.
#[verifier::external_body]
pub(crate) fn json_dump(value: &JsonValue) -> (r: String)
    ensures
        r@ == json_dumped(*value),
{
    value.dump()
}

} // verus!
