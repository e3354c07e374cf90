//! HTTP headers, as the `http` crate holds them.
use http::header::HeaderValue;
use http::HeaderMap;
use vstd::prelude::*;

use crate::text;

verus! {

/// `http::HeaderMap`, a multimap from header names to values.
#[verifier::external_type_specification]
#[verifier::external_body]
#[verifier::reject_recursive_types(T)]
pub struct ExHeaderMap<T>(HeaderMap<T>);

/// `http::header::HeaderValue`, the bytes of a header value.
#[verifier::external_type_specification]
#[verifier::external_body]
pub struct ExHeaderValue(HeaderValue);

/// The headers that a map holds, by name and value, in the order in which it
/// hands them out.
pub uninterp spec fn header_entries(headers: HeaderMap<HeaderValue>) -> Seq<(Seq<char>, Seq<u8>)>;

/// The bytes of a header value.
pub uninterp spec fn header_bytes(value: HeaderValue) -> Seq<u8>;

/// The bytes are visible ASCII characters, spaces and tabs.
pub open spec fn visible(bytes: Seq<u8>) -> bool {
    forall|i: int| 0 <= i < bytes.len() ==> 32 <= #[trigger] bytes[i] < 127 || bytes[i] == 9
}

/// The text that ASCII bytes stand for.
pub open spec fn ascii_text(bytes: Seq<u8>) -> Seq<char> {
    bytes.map_values(|byte: u8| byte as char)
}

/// The names and bytes that a list of headers holds.
pub open spec fn entries(list: Seq<(String, HeaderValue)>) -> Seq<(Seq<char>, Seq<u8>)> {
    list.map_values(|entry: (String, HeaderValue)| (entry.0@, header_bytes(entry.1)))
}

/// The headers of a message, if it has any.
pub open spec fn optional_entries(headers: Option<&HeaderMap<HeaderValue>>) -> Option<
    Seq<(Seq<char>, Seq<u8>)>,
> {
    match headers {
        Some(headers) => Some(header_entries(*headers)),
        None => None,
    }
}

/// The value of the first header of the name.
pub open spec fn first_entry(all: Seq<(Seq<char>, Seq<u8>)>, name: Seq<char>) -> Option<Seq<u8>>
    decreases all.len(),
{
    if all.len() == 0 {
        None
    } else if all[0].0 == name {
        Some(all[0].1)
    } else {
        first_entry(all.skip(1), name)
    }
}

/// `HeaderMap::iter`: every header, under its name, which is always in lower
/// case. The values of one name come one behind the other, in the order in
/// which they were put in.
#[verifier::external_body]
pub(crate) fn header_list(headers: &HeaderMap<HeaderValue>) -> (list: Vec<(String, HeaderValue)>)
    ensures
        entries(list@) == header_entries(*headers),
{
    headers.iter().map(|(name, value)| (name.as_str().to_owned(), value.clone())).collect()
}

/// `HeaderMap::get` with a short name in lower case: the first value under that
/// name.
#[verifier::external_body]
pub(crate) fn first_header<'a>(headers: &'a HeaderMap<HeaderValue>, name: &str) -> (value: Option<
    &'a HeaderValue,
>)
    requires
        text::lower(name@) == name@,
        name@.len() <= 64,
    ensures
        match value {
            Some(found) => first_entry(header_entries(*headers), name@) == Some(
                header_bytes(*found),
            ),
            None => first_entry(header_entries(*headers), name@) is None,
        },
{
    headers.get(name)
}

/// `HeaderValue::to_str`: the value as a text, where it has visible ASCII
/// characters only.
#[verifier::external_body]
pub(crate) fn header_text(value: &HeaderValue) -> (result: Option<&str>)
    ensures
        match result {
            Some(found) => visible(header_bytes(*value)) && found@ == ascii_text(
                header_bytes(*value),
            ),
            None => !visible(header_bytes(*value)),
        },
{
    value.to_str().ok()
}

} // verus!
