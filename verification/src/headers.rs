//! The header fields of an HTTP request.

use axum::http::{HeaderMap, HeaderValue};
use vstd::prelude::*;

verus! {

/// The header fields of a request.
#[verifier::external_type_specification]
#[verifier::external_body]
#[verifier::reject_recursive_types(T)]
pub struct ExHeaderMap<T>(HeaderMap<T>);

/// The value of one header field.
#[verifier::external_type_specification]
#[verifier::external_body]
pub struct ExHeaderValue(HeaderValue);

/// What a header map holds: under each field name, in lower case, the values of
/// that field in the order in which they were appended.
pub uninterp spec fn header_fields(headers: HeaderMap<HeaderValue>) -> Map<
    Seq<char>,
    Seq<Seq<u8>>,
>;

/// The bytes of a header value.
pub uninterp spec fn header_bytes(value: HeaderValue) -> Seq<u8>;

/// A field name in lower case: small letters and hyphens.
pub open spec fn lower_field_name(name: Seq<char>) -> bool {
    &&& 0 < name.len() <= 64
    &&& forall|i: int| 0 <= i < name.len() ==> 'a' <= #[trigger] name[i] <= 'z' || name[i] == '-'
}

/// The bytes that a header value may hold to be readable as text: visible
/// ASCII, spaces and tabs.
pub open spec fn visible_ascii(bytes: Seq<u8>) -> bool {
    forall|i: int| 0 <= i < bytes.len() ==> 32 <= #[trigger] bytes[i] < 127 || bytes[i] == 9
}

/// Bytes below 128 read as characters.
pub open spec fn ascii_text(bytes: Seq<u8>) -> Seq<char> {
    bytes.map_values(|b: u8| b as char)
}

/// The text of the first value of a header field: present where the field is
/// there and its first value is readable as text.
pub open spec fn field_text(fields: Map<Seq<char>, Seq<Seq<u8>>>, name: Seq<char>) -> Option<
    Seq<char>,
> {
    if fields.contains_key(name) && visible_ascii(fields[name][0]) {
        Some(ascii_text(fields[name][0]))
    } else {
        None
    }
}

/// `HeaderMap::get` with a field name: the first value of that field, and
/// nothing where the map has no such field.
#[verifier::external_body]
fn first_value<'a>(headers: &'a HeaderMap<HeaderValue>, name: &str) -> (r: Option<&'a HeaderValue>)
    requires
        lower_field_name(name@),
    ensures
        match r {
            Some(value) => {
                &&& header_fields(*headers).contains_key(name@)
                &&& header_fields(*headers)[name@].len() > 0
                &&& header_bytes(*value) == header_fields(*headers)[name@][0]
            },
            None => !header_fields(*headers).contains_key(name@),
        },
{
    headers.get(name)
}

/// `HeaderValue::to_str`: the bytes of the value as text, where all of them are
/// visible ASCII, spaces or tabs.
#[verifier::external_body]
fn value_text(value: &HeaderValue) -> (r: Option<&str>)
    ensures
        match r {
            Some(text) => {
                &&& visible_ascii(header_bytes(*value))
                &&& text@ == ascii_text(header_bytes(*value))
            },
            None => !visible_ascii(header_bytes(*value)),
        },
{
    value.to_str().ok()
}

/// The text of the first value of a header field.
pub fn header_text<'a>(headers: &'a HeaderMap<HeaderValue>, name: &str) -> (r: Option<&'a str>)
    requires
        lower_field_name(name@),
    ensures
        match r {
            Some(text) => field_text(header_fields(*headers), name@) == Some(text@),
            None => field_text(header_fields(*headers), name@) is None,
        },
{
    match first_value(headers, name) {
        Some(value) => value_text(value),
        None => None,
    }
}

/// The text of a field is that of its first value: it is there exactly where the
/// field is and all bytes of that value are visible ASCII, spaces or tabs, and then
/// it has a character for each byte, of the same number. Later values of the field
/// and other fields make no difference.
pub proof fn law_field_text_is_the_first_value(
    fields: Map<Seq<char>, Seq<Seq<u8>>>,
    others: Map<Seq<char>, Seq<Seq<u8>>>,
    name: Seq<char>,
)
    ensures
        !fields.contains_key(name) ==> field_text(fields, name) is None,
        fields.contains_key(name) ==> {
            &&& field_text(fields, name) is Some <==> forall|i: int|
                0 <= i < fields[name][0].len() ==> (32 <= #[trigger] fields[name][0][i] <= 126
                    || fields[name][0][i] == 9)
            &&& field_text(fields, name) matches Some(text) ==> {
                &&& text.len() == fields[name][0].len()
                &&& forall|i: int|
                    0 <= i < text.len() ==> #[trigger] text[i] as int == fields[name][0][i] as int
            }
            &&& others.contains_key(name) && others[name][0] == fields[name][0] ==> field_text(
                others,
                name,
            ) == field_text(fields, name)
        },
{
    if fields.contains_key(name) && field_text(fields, name) is Some {
        let bytes = fields[name][0];
        let text = ascii_text(bytes);
        assert forall|i: int| 0 <= i < text.len() implies #[trigger] text[i] as int
            == bytes[i] as int by {
            assert(32 <= bytes[i] < 127 || bytes[i] == 9);
        }
    }
}

}
