//! What the library takes from outside: each item states what is believed of the code it calls.
use crate::json::{Json, JsonView};
use vstd::prelude::*;
use vstd::utf8::{decode_utf8, valid_utf8};

verus! {

/// A parsed JSON value of `serde_json`.
#[verifier::external_type_specification]
#[verifier::external_body]
pub struct ExValue(serde_json::Value);

/// What a `serde_json::Value` holds.
pub uninterp spec fn json_contents(value: serde_json::Value) -> JsonView;

/// The document that `serde_json::from_str` reads from a text, where it accepts the text.
pub uninterp spec fn json_parsed(text: Seq<char>) -> Option<JsonView>;

/// `serde_json::from_str`, into a `serde_json::Value`. Whether a text is accepted, and which
/// document it then is, depends on the text alone. Which texts are accepted is not stated.
#[verifier::external_body]
pub(crate) fn json_value_from_str(text: &str) -> (value: Option<serde_json::Value>)
    ensures
        json_parsed(text@) == (match value {
            Some(v) => Some(json_contents(v)),
            None => None,
        }),
{
    serde_json::from_str::<serde_json::Value>(text).ok()
}

/// The variants of `serde_json::Value`, moved one for one into `Json`; of a number,
/// `serde_json::Number::as_u64`. The result holds what the value held.
#[verifier::external_body]
pub(crate) fn json_from_value(value: serde_json::Value) -> (json: Json)
    ensures
        json@ == json_contents(value),
{
    match value {
        serde_json::Value::Null => Json::Null,
        serde_json::Value::Bool(flag) => Json::Bool(flag),
        serde_json::Value::Number(number) => Json::Number(number.as_u64()),
        serde_json::Value::String(text) => Json::Str(text),
        serde_json::Value::Array(items) => Json::Array(
            items.into_iter().map(json_from_value).collect(),
        ),
        serde_json::Value::Object(fields) => Json::Object(
            fields.into_iter().map(|(key, field)| (key, json_from_value(field))).collect(),
        ),
    }
}

/// The duration of a whole number of seconds.
pub uninterp spec fn duration_of_secs(secs: u64) -> std::time::Duration;

/// `std::time::Duration::from_secs`: the duration depends on the number of seconds alone.
pub assume_specification[ std::time::Duration::from_secs ](secs: u64) -> (duration:
    std::time::Duration)
    ensures
        duration == duration_of_secs(secs),
;

/// `String::push` appends the one character.
pub assume_specification[ String::push ](s: &mut String, ch: char)
    ensures
        final(s)@ == old(s)@.push(ch),
;

/// The lower-case equivalent of a text by the Unicode tables.
pub uninterp spec fn lowercase(text: Seq<char>) -> Seq<char>;

/// `str::to_lowercase`: the result depends on the text alone.
pub assume_specification[ str::to_lowercase ](s: &str) -> (lower: String)
    ensures
        lower@ == lowercase(s@),
;

/// Whether the Unicode tables call a character alphabetic or numeric.
pub uninterp spec fn alphanumeric(c: char) -> bool;

/// `char::is_alphanumeric`: the answer depends on the character alone.
pub assume_specification[ char::is_alphanumeric ](c: char) -> (b: bool)
    ensures
        b == alphanumeric(c),
;

/// The text that bytes hold, with replacement characters where they are not UTF-8.
pub uninterp spec fn utf8_lossy(bytes: Seq<u8>) -> Seq<char>;

/// `String::from_utf8_lossy`: the text depends on the bytes alone, and bytes that are UTF-8 are
/// decoded. Where the replacement characters stand otherwise is not stated.
#[verifier::external_body]
pub(crate) fn text_from_utf8_lossy(bytes: &[u8]) -> (text: String)
    ensures
        text@ == utf8_lossy(bytes@),
        valid_utf8(bytes@) ==> text@ == decode_utf8(bytes@),
{
    String::from_utf8_lossy(bytes).into_owned()
}

} // verus!
