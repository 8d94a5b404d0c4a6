//! HTTP headers, as the `http` crate holds them.

use crate::numerals::decimal;
use http::{HeaderMap, HeaderValue};
use vstd::prelude::*;
use vstd::utf8::encode_utf8;

verus! {

/// A header value, opaque to proofs.
#[verifier::external_type_specification]
#[verifier::external_body]
pub struct ExHeaderValue(HeaderValue);

/// A map of headers, opaque to proofs.
#[verifier::external_type_specification]
#[verifier::external_body]
#[verifier::reject_recursive_types(T)]
pub struct ExHeaderMap<T>(HeaderMap<T>);

/// The bytes that a header value holds.
pub uninterp spec fn value_bytes(value: HeaderValue) -> Seq<u8>;

/// The first value of each header that a map holds, by the name of the header.
pub uninterp spec fn first_values(headers: HeaderMap<HeaderValue>) -> Map<Seq<char>, Seq<u8>>;

/// No header.
pub open spec fn no_values() -> Map<Seq<char>, Seq<u8>> {
    Map::empty()
}

/// The most headers that a map is filled with here, well below what it can hold.
pub const MAX_HEADERS: usize = 1024;

/// Whether a text is a header name in its normal form: lower-case letters and hyphens.
pub open spec fn is_header_name(name: Seq<char>) -> bool {
    &&& 0 < name.len() <= 64
    &&& forall|i: int| 0 <= i < name.len() ==> name[i] == '-' || 'a' <= #[trigger] name[i] <= 'z'
}

/// Whether bytes can stand in a header value: no control bytes but tabs.
pub open spec fn is_header_text(bytes: Seq<u8>) -> bool {
    forall|i: int|
        0 <= i < bytes.len() ==> (#[trigger] bytes[i] >= 32 && bytes[i] != 127) || bytes[i] == 9
}

/// Whether bytes are visible ASCII or tabs.
pub open spec fn is_visible_text(bytes: Seq<u8>) -> bool {
    forall|i: int|
        0 <= i < bytes.len() ==> (32 <= #[trigger] bytes[i] && bytes[i] < 127) || bytes[i] == 9
}

/// The text that ASCII bytes spell.
pub open spec fn ascii_text(bytes: Seq<u8>) -> Seq<char> {
    bytes.map_values(|b: u8| b as char)
}

/// `HeaderMap::new`: a map without headers.
#[verifier::external_body]
pub(crate) fn new_headers() -> (r: HeaderMap<HeaderValue>)
    ensures
        first_values(r) == no_values(),
{
    HeaderMap::new()
}

/// `HeaderValue::from_str`: the value with the bytes of a text, unless it holds control
/// characters.
#[verifier::external_body]
pub(crate) fn text_value(text: &str) -> (r: Option<HeaderValue>)
    ensures
        match r {
            Some(value) => is_header_text(encode_utf8(text@)) && value_bytes(value) == encode_utf8(
                text@,
            ),
            None => !is_header_text(encode_utf8(text@)),
        },
{
    HeaderValue::from_str(text).ok()
}

/// `HeaderValue::from` of a number: the value with its decimal notation.
#[verifier::external_body]
pub(crate) fn number_value(number: i32) -> (r: HeaderValue)
    ensures
        value_bytes(r) == encode_utf8(decimal(number as int)),
{
    HeaderValue::from(number)
}

/// `HeaderMap::insert`: the header has that value alone from then on, and no other header changes.
/// Inserting into a map that is full panics, and so does a name that is none.
#[verifier::external_body]
pub(crate) fn insert(
    headers: &mut HeaderMap<HeaderValue>,
    name: &'static str,
    value: HeaderValue,
)
    requires
        is_header_name(name@),
        first_values(*old(headers)).dom().finite(),
        first_values(*old(headers)).dom().len() < MAX_HEADERS,
    ensures
        first_values(*final(headers)) == first_values(*old(headers)).insert(
            name@,
            value_bytes(value),
        ),
{
    headers.insert(name, value);
}

/// `HeaderMap::get`: the first value of a header, where it has one.
#[verifier::external_body]
pub(crate) fn get(headers: &HeaderMap<HeaderValue>, name: &'static str) -> (r: Option<HeaderValue>)
    requires
        is_header_name(name@),
    ensures
        match r {
            Some(value) => first_values(*headers).contains_key(name@) && value_bytes(value)
                == first_values(*headers)[name@],
            None => !first_values(*headers).contains_key(name@),
        },
{
    headers.get(name).cloned()
}

/// `HeaderValue::to_str`: the text of a value of visible ASCII; other values have none.
#[verifier::external_body]
pub(crate) fn value_text(value: &HeaderValue) -> (r: Option<String>)
    ensures
        match r {
            Some(text) => is_visible_text(value_bytes(*value)) && text@ == ascii_text(
                value_bytes(*value),
            ),
            None => !is_visible_text(value_bytes(*value)),
        },
{
    value.to_str().ok().map(|text| text.to_owned())
}

} // verus!
