//! Header maps and status codes of HTTP messages, as `reqwest` hands them out.
use crate::text::{all_visible, ascii_bytes, ascii_text, decimal, is_visible_byte};
use reqwest::header::{HeaderMap, HeaderName, HeaderValue};
use reqwest::StatusCode;
use vstd::prelude::*;

verus! {

/// The most header names that a map takes in here. A `HeaderMap` has at most 32768
/// slots, and when too many names share their slots it asks for twice as many as
/// soon as a fifth of them is taken: below this bound that never fails.
pub const MAX_HEADER_NAMES: usize = 6553;

#[verifier::external_type_specification]
#[verifier::external_body]
#[verifier::reject_recursive_types(T)]
pub struct ExHeaderMap<T>(HeaderMap<T>);

#[verifier::external_type_specification]
#[verifier::external_body]
pub struct ExHeaderName(HeaderName);

#[verifier::external_type_specification]
#[verifier::external_body]
pub struct ExHeaderValue(HeaderValue);

#[verifier::external_type_specification]
#[verifier::external_body]
pub struct ExStatusCode(StatusCode);

/// What a header map holds: under each name, in lower case, the values in the order
/// in which they were given, each as its bytes.
pub uninterp spec fn header_fields(map: HeaderMap) -> Map<Seq<char>, Seq<Seq<u8>>>;

/// The lower-case text of a header name.
pub uninterp spec fn name_text(name: HeaderName) -> Seq<char>;

/// The bytes of a header value.
pub uninterp spec fn value_bytes(value: HeaderValue) -> Seq<u8>;

/// The three digits of a status code as a number.
pub uninterp spec fn status_number(code: StatusCode) -> u16;

/// The reason phrase that goes with a status number, or a stand-in for a number that
/// has none.
pub uninterp spec fn reason_phrase(number: u16) -> Seq<char>;

/// The contents of a map without a header.
pub open spec fn no_fields() -> Map<Seq<char>, Seq<Seq<u8>>> {
    Map::empty()
}

/// The contents after one value has been put at the end of those of a name.
pub open spec fn appended(
    fields: Map<Seq<char>, Seq<Seq<u8>>>,
    name: Seq<char>,
    value: Seq<u8>,
) -> Map<Seq<char>, Seq<Seq<u8>>> {
    if fields.contains_key(name) {
        fields.insert(name, fields[name].push(value))
    } else {
        fields.insert(name, seq![value])
    }
}

/// The map holds finitely many names, and `more` names can be added to them.
pub open spec fn has_room(map: HeaderMap, more: nat) -> bool {
    header_fields(map).dom().finite() && header_fields(map).dom().len() + more
        <= MAX_HEADER_NAMES
}

/// The map holds that many names.
pub open spec fn holds_names(map: HeaderMap, count: nat) -> bool {
    header_fields(map).dom().finite() && header_fields(map).dom().len() == count
}

/// A name of lower-case letters and hyphens.
pub open spec fn is_plain_name(text: Seq<char>) -> bool {
    0 < text.len() < 100 && forall|i: int|
        0 <= i < text.len() ==> 'a' <= #[trigger] text[i] <= 'z' || text[i] == '-'
}

/// The bytes are visible ASCII throughout.
pub open spec fn visible_bytes(bytes: Seq<u8>) -> bool {
    forall|i: int| 0 <= i < bytes.len() ==> is_visible_byte(#[trigger] bytes[i])
}

/// The text of a header value that is visible ASCII throughout.
pub open spec fn value_text(value: HeaderValue) -> Option<Seq<char>> {
    if visible_bytes(value_bytes(value)) {
        Some(ascii_text(value_bytes(value)))
    } else {
        None
    }
}

/// The first value of a header, where the map has the header.
pub open spec fn first_value(map: HeaderMap, name: Seq<char>) -> Option<Seq<u8>> {
    if header_fields(map).contains_key(name) {
        Some(header_fields(map)[name][0])
    } else {
        None
    }
}

/// The text of the first value of a header, where the map has the header and that
/// value is visible ASCII throughout.
pub open spec fn first_text(map: HeaderMap, name: Seq<char>) -> Option<Seq<char>> {
    match first_value(map, name) {
        Some(bytes) => if visible_bytes(bytes) {
            Some(ascii_text(bytes))
        } else {
            None
        },
        None => None,
    }
}

/// `HeaderMap::new`: the map holds no header.
#[verifier::external_body]
pub(crate) fn no_headers() -> (r: HeaderMap)
    ensures
        header_fields(r) == no_fields(),
{
    HeaderMap::new()
}

/// `HeaderMap::clone`: the copy holds what the map holds.
#[verifier::external_body]
pub(crate) fn copy_headers(map: &HeaderMap) -> (r: HeaderMap)
    ensures
        header_fields(r) == header_fields(*map),
{
    map.clone()
}

/// `HeaderMap::keys_len`: how many names the map holds, which are finitely many.
#[verifier::external_body]
pub(crate) fn count_names(map: &HeaderMap) -> (r: usize)
    ensures
        holds_names(*map, r as nat),
{
    map.keys_len()
}

/// `HeaderMap::insert`: the value takes the place of all that stood under the name.
/// The call panics where the map cannot grow, which `has_room` excludes.
#[verifier::external_body]
pub(crate) fn insert_header(map: &mut HeaderMap, name: HeaderName, value: HeaderValue)
    requires
        has_room(*old(map), 1),
    ensures
        header_fields(*final(map)) == header_fields(*old(map)).insert(
            name_text(name),
            seq![value_bytes(value)],
        ),
{
    map.insert(name, value);
}

/// `HeaderMap::append`: the value is put behind those that stand under the name.
/// The call panics where the map cannot grow, which `has_room` excludes.
#[verifier::external_body]
pub(crate) fn append_header(map: &mut HeaderMap, name: HeaderName, value: HeaderValue)
    requires
        has_room(*old(map), 1),
    ensures
        header_fields(*final(map)) == appended(
            header_fields(*old(map)),
            name_text(name),
            value_bytes(value),
        ),
{
    map.append(name, value);
}

/// `HeaderMap::extend` with another map: each name of the other map gets the values
/// that it has there, in place of those that it had; the other names keep theirs.
/// The call panics where the map cannot grow, which `has_room` excludes.
#[verifier::external_body]
pub(crate) fn extend_headers(map: &mut HeaderMap, more: HeaderMap)
    requires
        has_room(more, 0),
        has_room(*old(map), header_fields(more).dom().len()),
    ensures
        header_fields(*final(map)) == header_fields(*old(map)).union_prefer_right(
            header_fields(more),
        ),
{
    map.extend(more);
}

/// `HeaderMap::get`: the first of the values that stand under the name, if any do.
#[verifier::external_body]
pub(crate) fn get_header<'a>(map: &'a HeaderMap, name: &HeaderName) -> (r: Option<&'a HeaderValue>)
    ensures
        match r {
            Some(value) => first_value(*map, name_text(*name)) == Some(value_bytes(*value)),
            None => first_value(*map, name_text(*name)) is None,
        },
{
    map.get(name)
}

/// `HeaderName::from_static`: the header name of that text. The call panics on a text
/// that is no lower-case header name, which `is_plain_name` excludes.
#[verifier::external_body]
pub(crate) fn header_name(text: &'static str) -> (r: HeaderName)
    requires
        is_plain_name(text@),
    ensures
        name_text(r) == text@,
{
    HeaderName::from_static(text)
}

/// `HeaderValue::from_str`: the header value of that text. On visible ASCII the call
/// succeeds.
#[verifier::external_body]
pub(crate) fn header_value(text: &str) -> (r: HeaderValue)
    requires
        all_visible(text@),
    ensures
        value_bytes(r) == ascii_bytes(text@),
{
    HeaderValue::from_str(text).unwrap()
}

/// `HeaderValue::to_str`: the value as a text, where all of it is visible ASCII.
#[verifier::external_body]
pub(crate) fn value_to_str(value: &HeaderValue) -> (r: Option<&str>)
    ensures
        match r {
            Some(text) => value_text(*value) == Some(text@),
            None => value_text(*value) is None,
        },
{
    value.to_str().ok()
}

/// `HeaderValue::as_bytes`: the bytes of the value.
#[verifier::external_body]
pub(crate) fn value_as_bytes(value: &HeaderValue) -> (r: &[u8])
    ensures
        r@ == value_bytes(*value),
{
    value.as_bytes()
}

/// `StatusCode::from_u16`: the status code of that number. The call fails on a number
/// that has not three digits, which `requires` excludes.
#[verifier::external_body]
pub(crate) fn status_code(number: u16) -> (r: StatusCode)
    requires
        100 <= number < 1000,
    ensures
        status_number(r) == number,
{
    StatusCode::from_u16(number).unwrap()
}

/// `StatusCode::as_u16`: the number of the status code.
#[verifier::external_body]
pub(crate) fn status_as_number(code: &StatusCode) -> (r: u16)
    ensures
        r == status_number(*code),
{
    code.as_u16()
}

/// `StatusCode` shown by its `Display`: the number, a space and the reason phrase.
#[verifier::external_body]
pub(crate) fn status_text(code: &StatusCode) -> (r: String)
    ensures
        r@ == decimal(status_number(*code) as nat) + seq![' '] + reason_phrase(
            status_number(*code),
        ),
{
    code.to_string()
}

/// How a status code reads in a message.
pub open spec fn status_line(code: StatusCode) -> Seq<char> {
    decimal(status_number(code) as nat) + seq![' '] + reason_phrase(status_number(code))
}

/// The status codes from 200 up to, and without, 300.
pub open spec fn is_success(code: StatusCode) -> bool {
    200 <= status_number(code) < 300
}

/// Whether a status code says that the request succeeded.
pub fn succeeded(code: &StatusCode) -> (r: bool)
    ensures
        r == is_success(*code),
{
    let number: u16 = status_as_number(code);
    200 <= number && number < 300
}

/// The first value of a header as text.
pub fn header_text(map: &HeaderMap, name: &'static str) -> (r: Option<String>)
    requires
        is_plain_name(name@),
    ensures
        match r {
            Some(text) => first_text(*map, name@) == Some(text@),
            None => first_text(*map, name@) is None,
        },
{
    match get_header(map, &header_name(name)) {
        Some(value) => match value_to_str(value) {
            Some(text) => Some(text.to_owned()),
            None => None,
        },
        None => None,
    }
}

/// The text of a header is that of its first value, character by byte, where the map has
/// the header and the value is visible ASCII; else there is none.
pub proof fn law_first_value_is_the_text(map: HeaderMap, name: Seq<char>)
    ensures
        ({
            let fields = header_fields(map);
            let bytes = fields[name][0];
            if fields.contains_key(name) && forall|i: int|
                0 <= i < bytes.len() ==> 32 <= #[trigger] bytes[i] < 127 || bytes[i] == 9 {
                &&& first_text(map, name) matches Some(text)
                &&& text.len() == bytes.len()
                &&& forall|i: int| 0 <= i < text.len() ==> #[trigger] text[i] as int == bytes[i]
            } else {
                first_text(map, name) is None
            }
        }),
{
    let bytes = header_fields(map)[name][0];
    if forall|i: int| 0 <= i < bytes.len() ==> 32 <= #[trigger] bytes[i] < 127 || bytes[i] == 9 {
        assert(visible_bytes(bytes));
        let text = ascii_text(bytes);
        assert forall|i: int| 0 <= i < text.len() implies #[trigger] text[i] as int == bytes[i] by {
            assert(is_visible_byte(bytes[i]));
        }
    } else {
        let i = choose|i: int|
            0 <= i < bytes.len() && !(32 <= #[trigger] bytes[i] < 127 || bytes[i] == 9);
        assert(!is_visible_byte(bytes[i]));
    }
}

/// A request has succeeded just when its status is in the two hundreds. In a message a
/// status reads as its number and its reason phrase.
pub proof fn law_success_is_two_hundred(code: StatusCode)
    ensures
        is_success(code) <==> status_number(code) / 100 == 2,
        status_line(code) == decimal(status_number(code) as nat) + seq![' '] + reason_phrase(
            status_number(code),
        ),
{
}

/// As many names are taken in as stay below a fifth of the slots of a map, and no fewer.
pub proof fn law_names_stay_below_a_fifth()
    ensures
        MAX_HEADER_NAMES * 5 < 32768 <= (MAX_HEADER_NAMES + 1) * 5,
{
}

} // verus!
