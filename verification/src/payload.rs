//! From a request's headers to a baking request and its result.
//!
//! The payload travels in the `cookie` header: an optional `recipe=` tag,
//! then the base64 text of a UTF-8 JSON document with exactly two fields,
//! `recipe` and `pantry`, each an object of non-negative 32-bit quantities.
//! The tag is taken off once: a value that goes on with a second tag is not
//! base64. The JSON parser keeps one value for each name, so a name that an
//! object writes twice counts once, with its last value.
//!
//! Reading the header map, decoding base64, checking UTF-8 and parsing JSON
//! are left to the crates and to the standard library; what this module
//! believes of them is stated on the items marked `external_body` and on the
//! `assume_specification` below.

use vstd::prelude::*;
use vstd::utf8::{decode_utf8, valid_utf8};
use axum::http::header::ToStrError;
use axum::http::{HeaderMap, HeaderValue};
use base64::engine::general_purpose::STANDARD;
use base64::{DecodeError, Engine};
use std::collections::BTreeMap;
use std::string::FromUtf8Error;
use crate::baking::{batches, leftover, BakingRequest, BakingResult};
use crate::pantry::{pairs_map, pairs_view, IngredientMap};
use crate::status::PayloadError;
use crate::text::{chars_of, matches_at, occurs_at};

verus! {

/// The header map of the `http` crate, as `axum` hands it on.
#[verifier::external_type_specification]
#[verifier::external_body]
#[verifier::reject_recursive_types(T)]
pub struct ExHeaderMap<T>(HeaderMap<T>);

/// A header value of the `http` crate.
#[verifier::external_type_specification]
#[verifier::external_body]
pub struct ExHeaderValue(HeaderValue);

/// The error of `HeaderValue::to_str`.
#[verifier::external_type_specification]
#[verifier::external_body]
pub struct ExToStrError(ToStrError);

/// The error of base64's `Engine::decode`.
#[verifier::external_type_specification]
#[verifier::external_body]
pub struct ExDecodeError(DecodeError);

/// The error of `serde_json::from_str`.
#[verifier::external_type_specification]
#[verifier::external_body]
pub struct ExJsonError(serde_json::Error);

/// The error of `String::from_utf8`.
#[verifier::external_type_specification]
#[verifier::external_body]
pub struct ExFromUtf8Error(FromUtf8Error);

/// What a header map holds: for each field name in it, in lower case, the
/// values under that name in the order in which they came.
pub uninterp spec fn header_values(headers: HeaderMap) -> Map<Seq<char>, Seq<Seq<u8>>>;

/// The bytes of a header value.
pub uninterp spec fn header_value_bytes(value: HeaderValue) -> Seq<u8>;

/// The bytes that a text in standard base64 with padding encodes; `None`
/// where the text is no such encoding.
pub uninterp spec fn base64_decoded(text: Seq<char>) -> Option<Seq<u8>>;

/// The fields of a JSON object whose values are all objects of non-negative
/// 32-bit integers: each field's name with the name and number of each of
/// its entries, fields and entries in the order of their names. Of a name
/// that an object repeats, the last value counts. `None` where the text is
/// not JSON of that form.
pub uninterp spec fn json_tables(text: Seq<char>) -> Option<Seq<(Seq<char>, Seq<(Seq<char>, u32)>)>>;

/// A field name that a header map holds as it is written: one to 64 lower
/// case letters and hyphens.
pub open spec fn is_plain_field_name(name: Seq<char>) -> bool {
    &&& 1 <= name.len() <= 64
    &&& forall|i: int|
        0 <= i < name.len() ==> 97 <= (#[trigger] name[i]) as u32 <= 122 || name[i] == '-'
}

/// A byte that may stand in a header value read as text: a printable ASCII
/// character or a tab.
pub open spec fn is_visible_ascii(byte: u8) -> bool {
    32 <= byte < 127 || byte == 9
}

/// The text of a header value; `None` where a byte is not visible ASCII.
pub open spec fn value_text(bytes: Seq<u8>) -> Option<Seq<char>> {
    if forall|i: int| 0 <= i < bytes.len() ==> is_visible_ascii(#[trigger] bytes[i]) {
        Some(Seq::new(bytes.len(), |i: int| bytes[i] as char))
    } else {
        None
    }
}

/// `HeaderMap::get` with a field name as text: the first value under that
/// name, or nothing where the map holds no such field. The name is to be
/// one that the map looks up as it is written.
#[verifier::external_body]
fn first_value<'a>(headers: &'a HeaderMap, name: &str) -> (value: Option<&'a HeaderValue>)
    requires
        is_plain_field_name(name@),
    ensures
        match value {
            Some(found) => {
                &&& header_values(*headers).contains_key(name@)
                &&& header_values(*headers)[name@].len() > 0
                &&& header_value_bytes(*found) == header_values(*headers)[name@][0]
            },
            None => !header_values(*headers).contains_key(name@),
        },
{
    headers.get(name)
}

/// `HeaderValue::to_str`: the value as text where each of its bytes is
/// visible ASCII, an error where one is not.
#[verifier::external_body]
fn text_of_value<'a>(value: &'a HeaderValue) -> (text: Result<&'a str, ToStrError>)
    ensures
        match text {
            Ok(read) => value_text(header_value_bytes(*value)) == Some(read@),
            Err(_) => value_text(header_value_bytes(*value)) is None,
        },
{
    value.to_str()
}

/// `Engine::decode` of base64's `STANDARD` engine: the decoded bytes are
/// `base64_decoded` of the text, and an error comes exactly where that is
/// `None`.
#[verifier::external_body]
fn decode_base64(text: &str) -> (decoded: Result<Vec<u8>, DecodeError>)
    ensures
        match decoded {
            Ok(bytes) => base64_decoded(text@) == Some(bytes@),
            Err(_) => base64_decoded(text@) is None,
        },
{
    STANDARD.decode(text)
}

/// `String::from_utf8`: the text of the bytes where they are valid UTF-8, an
/// error where they are not.
pub assume_specification[ String::from_utf8 ](vec: Vec<u8>) -> (text: Result<String, FromUtf8Error>)
    ensures
        match text {
            Ok(read) => valid_utf8(vec@) && read@ == decode_utf8(vec@),
            Err(_) => !valid_utf8(vec@),
        },
;

/// `serde_json::from_str` into a sorted map of sorted maps of `u32`, handed
/// on as vectors: the fields are `json_tables` of the text, and an error
/// comes exactly where that is `None`.
#[verifier::external_body]
fn parse_tables(text: &str) -> (tables: Result<Vec<(String, Vec<(String, u32)>)>, serde_json::Error>)
    ensures
        match tables {
            Ok(fields) => json_tables(text@) == Some(tables_view(fields@)),
            Err(_) => json_tables(text@) is None,
        },
{
    let fields: BTreeMap<String, BTreeMap<String, u32>> = serde_json::from_str(text)?;
    Ok(fields.into_iter().map(|(name, table)| (name, table.into_iter().collect())).collect())
}

/// Named tables of owned entries, each name by its characters.
pub open spec fn tables_view(tables: Seq<(String, Vec<(String, u32)>)>) -> Seq<
    (Seq<char>, Seq<(Seq<char>, u32)>),
> {
    tables.map_values(|table: (String, Vec<(String, u32)>)| (table.0@, pairs_view(table.1@)))
}

/// A text without the tag, where it begins with the tag; the text itself
/// where it does not. Only one tag is taken off: what follows it stays as it
/// is, also where it begins with the tag again.
pub open spec fn without_tag(text: Seq<char>, tag: Seq<char>) -> Seq<char> {
    if tag.len() > 0 && occurs_at(text, tag, 0) {
        text.skip(tag.len() as int)
    } else {
        text
    }
}

/// The text that decoded bytes hold.
pub open spec fn bytes_text(bytes: Seq<u8>) -> Result<Seq<char>, PayloadError> {
    if valid_utf8(bytes) {
        Ok(decode_utf8(bytes))
    } else {
        Err(PayloadError::InvalidText)
    }
}

/// The text that a header value carries: what its base64 part decodes to.
/// That part is the value without its `recipe=` tag, or the whole value
/// where it has no tag.
pub open spec fn carried_text(value: Seq<char>) -> Result<Seq<char>, PayloadError> {
    match base64_decoded(without_tag(value, "recipe="@)) {
        Some(bytes) => bytes_text(bytes),
        None => Err(PayloadError::InvalidEncoding),
    }
}

/// The text that the headers carry in the first value of their `cookie`
/// field.
pub open spec fn cookie_text(headers: HeaderMap) -> Result<Seq<char>, PayloadError> {
    if !header_values(headers).contains_key("cookie"@) {
        Err(PayloadError::MissingPayload)
    } else {
        match value_text(header_values(headers)["cookie"@][0]) {
            Some(value) => carried_text(value),
            None => Err(PayloadError::InvalidEncoding),
        }
    }
}

/// The recipe and the pantry among named tables: there are exactly these
/// two, in either order.
pub open spec fn request_tables(tables: Seq<(Seq<char>, Seq<(Seq<char>, u32)>)>) -> Option<
    (Seq<(Seq<char>, u32)>, Seq<(Seq<char>, u32)>),
> {
    if tables.len() == 2 && tables[0].0 == "recipe"@ && tables[1].0 == "pantry"@ {
        Some((tables[0].1, tables[1].1))
    } else if tables.len() == 2 && tables[0].0 == "pantry"@ && tables[1].0 == "recipe"@ {
        Some((tables[1].1, tables[0].1))
    } else {
        None
    }
}

/// The recipe and the pantry that a text asks to bake with.
pub open spec fn text_request(text: Seq<char>) -> Result<
    (Map<Seq<char>, u32>, Map<Seq<char>, u32>),
    PayloadError,
> {
    match json_tables(text) {
        Some(tables) => match request_tables(tables) {
            Some((recipe, pantry)) => Ok((pairs_map(recipe), pairs_map(pantry))),
            None => Err(PayloadError::MalformedRequest),
        },
        None => Err(PayloadError::MalformedRequest),
    }
}

/// The recipe and the pantry that the headers ask to bake with.
pub open spec fn headers_request(headers: HeaderMap) -> Result<
    (Map<Seq<char>, u32>, Map<Seq<char>, u32>),
    PayloadError,
> {
    match cookie_text(headers) {
        Ok(text) => text_request(text),
        Err(reason) => Err(reason),
    }
}

/// The request holds this recipe and this pantry.
pub open spec fn request_holds(
    request: BakingRequest,
    maps: (Map<Seq<char>, u32>, Map<Seq<char>, u32>),
) -> bool {
    request.recipe@ == maps.0 && request.pantry@ == maps.1
}

/// Taking the tag off a text that begins with it leaves all that follows
/// the tag, whatever that begins with.
pub proof fn tag_is_taken_off_once(tag: Seq<char>, rest: Seq<char>)
    requires
        tag.len() > 0,
    ensures
        without_tag(tag + rest, tag) == rest,
{
    assert((tag + rest).subrange(0, tag.len() as int) =~= tag);
    assert((tag + rest).skip(tag.len() as int) =~= rest);
}

/// Takes the tag off a text that begins with it, once.
pub fn strip_tag<'a>(text: &'a str, tag: &str) -> (rest: &'a str)
    ensures
        rest@ == without_tag(text@, tag@),
{
    let chars = chars_of(text);
    let pattern = chars_of(tag);
    if pattern.len() == 0 || pattern.len() > chars.len() || !matches_at(&chars, &pattern, 0) {
        return text;
    }
    assert(text@.subrange(pattern.len() as int, chars.len() as int) =~= text@.skip(
        tag@.len() as int,
    ));
    text.substring_char(pattern.len(), chars.len())
}

/// Reads decoded bytes as UTF-8 text.
pub fn text_of_bytes(bytes: Vec<u8>) -> (text: Result<String, PayloadError>)
    ensures
        match bytes_text(bytes@) {
            Ok(read) => text matches Ok(held) && held@ == read,
            Err(reason) => text == Err::<String, PayloadError>(reason),
        },
{
    match String::from_utf8(bytes) {
        Ok(read) => Ok(read),
        Err(_) => Err(PayloadError::InvalidText),
    }
}

/// Decodes the text that a header value carries.
pub fn decode_value(value: &str) -> (text: Result<String, PayloadError>)
    ensures
        match carried_text(value@) {
            Ok(read) => text matches Ok(held) && held@ == read,
            Err(reason) => text == Err::<String, PayloadError>(reason),
        },
{
    match decode_base64(strip_tag(value, "recipe=")) {
        Ok(bytes) => text_of_bytes(bytes),
        Err(_) => Err(PayloadError::InvalidEncoding),
    }
}

/// Decodes the text that the headers carry in their `cookie` field.
pub fn extract_cookie_header(headers: &HeaderMap) -> (text: Result<String, PayloadError>)
    ensures
        match cookie_text(*headers) {
            Ok(read) => text matches Ok(held) && held@ == read,
            Err(reason) => text == Err::<String, PayloadError>(reason),
        },
{
    proof {
        reveal_strlit("cookie");
    }
    let value = match first_value(headers, "cookie") {
        Some(found) => found,
        None => {
            return Err(PayloadError::MissingPayload);
        },
    };
    match text_of_value(value) {
        Ok(read) => decode_value(read),
        Err(_) => Err(PayloadError::InvalidEncoding),
    }
}

/// The decode endpoint: the text that the headers carry.
pub fn cookie(headers: HeaderMap) -> (text: Result<String, PayloadError>)
    ensures
        match cookie_text(headers) {
            Ok(read) => text matches Ok(held) && held@ == read,
            Err(reason) => text == Err::<String, PayloadError>(reason),
        },
{
    extract_cookie_header(&headers)
}

/// Makes a baking request of named tables: there must be exactly the two
/// named `recipe` and `pantry`.
pub fn request_of_tables(tables: Vec<(String, Vec<(String, u32)>)>) -> (request: Result<
    BakingRequest,
    PayloadError,
>)
    ensures
        match request_tables(tables_view(tables@)) {
            Some((recipe, pantry)) => request matches Ok(made) && made.recipe@ == pairs_map(recipe)
                && made.pantry@ == pairs_map(pantry),
            None => request matches Err(reason) && reason == PayloadError::MalformedRequest,
        },
{
    let mut tables = tables;
    if tables.len() != 2 {
        return Err(PayloadError::MalformedRequest);
    }
    let recipe_name = String::from_str("recipe");
    let pantry_name = String::from_str("pantry");
    let recipe_first = tables[0].0 == recipe_name && tables[1].0 == pantry_name;
    let pantry_first = tables[0].0 == pantry_name && tables[1].0 == recipe_name;
    let second = match tables.pop() {
        Some(table) => table,
        None => {
            return Err(PayloadError::MalformedRequest);
        },
    };
    let first = match tables.pop() {
        Some(table) => table,
        None => {
            return Err(PayloadError::MalformedRequest);
        },
    };
    if recipe_first {
        Ok(
            BakingRequest {
                recipe: IngredientMap::from_pairs(first.1),
                pantry: IngredientMap::from_pairs(second.1),
            },
        )
    } else if pantry_first {
        Ok(
            BakingRequest {
                recipe: IngredientMap::from_pairs(second.1),
                pantry: IngredientMap::from_pairs(first.1),
            },
        )
    } else {
        Err(PayloadError::MalformedRequest)
    }
}

/// Parses a text as a baking request.
pub fn parse_request(text: &str) -> (request: Result<BakingRequest, PayloadError>)
    ensures
        match text_request(text@) {
            Ok(maps) => request matches Ok(made) && request_holds(made, maps),
            Err(reason) => request matches Err(given) && given == reason,
        },
{
    match parse_tables(text) {
        Ok(tables) => request_of_tables(tables),
        Err(_) => Err(PayloadError::MalformedRequest),
    }
}

impl BakingRequest {
    /// The baking request that the headers carry.
    pub fn try_from(headers: &HeaderMap) -> (request: Result<BakingRequest, PayloadError>)
        ensures
            match headers_request(*headers) {
                Ok(maps) => request matches Ok(made) && request_holds(made, maps),
                Err(reason) => request matches Err(given) && given == reason,
            },
    {
        match extract_cookie_header(headers) {
            Ok(text) => parse_request(text.as_str()),
            Err(reason) => Err(reason),
        }
    }
}

/// The bake endpoint: bakes what the headers ask for.
pub fn bake(headers: HeaderMap) -> (outcome: Result<BakingResult, PayloadError>)
    ensures
        match headers_request(headers) {
            Ok((recipe, pantry)) => {
                &&& outcome matches Ok(result)
                &&& result.cookies == batches(recipe, pantry)
                &&& result.pantry@ == leftover(recipe, pantry, batches(recipe, pantry))
            },
            Err(reason) => outcome matches Err(given) && given == reason,
        },
{
    match BakingRequest::try_from(&headers) {
        Ok(request) => Ok(BakingResult::from_request(request)),
        Err(reason) => Err(reason),
    }
}

} // verus!
