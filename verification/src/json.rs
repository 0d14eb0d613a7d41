//! The JSON library at the edge of the verified code.
//!
//! The contracts of the functions in this file are believed, not proved:
//! they say what the calls into `serde_json` return, and the rest of the
//! library is verified against them.

use vstd::prelude::*;
use crate::decimal::{all_digits, digits_value};

verus! {

/// The error type of the JSON library, carried through unread.
#[verifier::external_type_specification]
#[verifier::external_body]
pub struct ExJsonError(serde_json::Error);

/// The compact JSON text of the object that has a number field for each pair
/// of `numbers` and a string field for each pair of `texts`.
pub uninterp spec fn json_object_text(
    numbers: Seq<(Seq<char>, u64)>,
    texts: Seq<(Seq<char>, Seq<char>)>,
) -> Seq<u8>;

/// Whether `byte` is one of the four characters that JSON passes over
/// between values: space, line feed, tab and carriage return.
pub open spec fn is_json_space(byte: u8) -> bool {
    byte == 0x20 || byte == 0x0a || byte == 0x09 || byte == 0x0d
}

/// `text` without the JSON white space at its start.
pub open spec fn without_leading_space(text: Seq<u8>) -> Seq<u8>
    decreases text.len(),
{
    if text.len() > 0 && is_json_space(text[0]) {
        without_leading_space(text.drop_first())
    } else {
        text
    }
}

/// `text` without the JSON white space at its end.
pub open spec fn without_trailing_space(text: Seq<u8>) -> Seq<u8>
    decreases text.len(),
{
    if text.len() > 0 && is_json_space(text.last()) {
        without_trailing_space(text.drop_last())
    } else {
        text
    }
}

/// The unsigned 64-bit number that a JSON text denotes, if it denotes one:
/// between optional white space a decimal numeral without sign, fraction or
/// exponent, without a leading zero unless it is the single digit zero, and
/// no larger than the type's maximum.
pub open spec fn json_u64(text: Seq<u8>) -> Option<u64> {
    let numeral = without_trailing_space(without_leading_space(text)).map_values(
        |byte: u8| byte as char,
    );
    if numeral.len() > 0 && all_digits(numeral) && (numeral.len() == 1 || numeral[0] != '0')
        && digits_value(numeral) <= u64::MAX {
        Some(digits_value(numeral) as u64)
    } else {
        None
    }
}

/// The strings of the array that a JSON text denotes, in the array's order,
/// if it denotes an array of strings.
pub uninterp spec fn json_text_list(text: Seq<u8>) -> Option<Seq<Seq<char>>>;

/// The keys of the object that a JSON text denotes, in ascending order, if it
/// denotes an object whose values are all strings.
pub uninterp spec fn json_object_keys(text: Seq<u8>) -> Option<Seq<Seq<char>>>;

/// Writes a JSON object with `serde_json`: the fields are put into a
/// `serde_json::Map`, and the `Display` form of the `serde_json::Value` that
/// holds it is the result. Trusted: the bytes are a function of the fields,
/// and an object without fields is written as an opening and a closing brace.
#[verifier::external_body]
pub(crate) fn object_to_json(
    numbers: &Vec<(String, u64)>,
    texts: &Vec<(String, String)>,
) -> (bytes: Vec<u8>)
    ensures
        bytes@ == json_object_text(numbers.deep_view(), texts.deep_view()),
        numbers.len() == 0 && texts.len() == 0 ==> bytes@ == seq![0x7bu8, 0x7du8],
{
    let mut object = serde_json::Map::new();
    for (key, number) in numbers.iter() {
        object.insert(key.clone(), serde_json::Value::from(*number));
    }
    for (key, text) in texts.iter() {
        object.insert(key.clone(), serde_json::Value::from(text.clone()));
    }
    serde_json::Value::Object(object).to_string().into_bytes()
}

/// Reads a number with `serde_json::from_slice::<u64>`. Trusted: it succeeds
/// exactly on the texts that denote an unsigned 64-bit number, with that
/// number; a sign, a fraction, an exponent, a leading zero, a number too
/// large or anything after the numeral but white space makes it fail.
#[verifier::external_body]
pub(crate) fn u64_from_json(text: &[u8]) -> (parsed: Result<u64, serde_json::Error>)
    ensures
        parsed is Ok <==> json_u64(text@) is Some,
        parsed matches Ok(n) ==> json_u64(text@) == Some(n),
{
    serde_json::from_slice::<u64>(text)
}

/// Reads an array of strings with `serde_json::from_slice::<Vec<String>>`.
/// Trusted: whether it succeeds, and with which strings, is a function of the
/// bytes.
#[verifier::external_body]
pub(crate) fn texts_from_json(text: &[u8]) -> (parsed: Result<Vec<String>, serde_json::Error>)
    ensures
        parsed is Ok <==> json_text_list(text@) is Some,
        parsed matches Ok(list) ==> json_text_list(text@) == Some(list.deep_view()),
{
    serde_json::from_slice::<Vec<String>>(text)
}

/// Reads an object of string values with
/// `serde_json::from_slice::<BTreeMap<String, String>>` and hands out its
/// keys. Trusted: whether it succeeds, and with which keys, is a function of
/// the bytes; a map holds no key twice.
#[verifier::external_body]
pub(crate) fn keys_from_json(text: &[u8]) -> (parsed: Result<Vec<String>, serde_json::Error>)
    ensures
        parsed is Ok <==> json_object_keys(text@) is Some,
        parsed matches Ok(keys) ==> json_object_keys(text@) == Some(keys.deep_view())
            && keys.deep_view().no_duplicates(),
{
    let object = serde_json::from_slice::<std::collections::BTreeMap<String, String>>(text)?;
    Ok(object.into_keys().collect())
}

} // verus!
