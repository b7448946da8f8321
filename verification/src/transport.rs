//! The HTTP value types of the client library, and what is taken on trust of
//! them.
//!
//! Nothing in this file is proved. Each item states, over plain octets, what
//! the client library's own source shows of one of its functions; the rest of
//! the crate is proved from these statements.

use crate::grammar::{is_field_name, is_field_value, is_token, is_visible_text, lowercase, octets};
use http::method::InvalidMethod;
use reqwest::header::{HeaderMap, HeaderName, HeaderValue};
use reqwest::header::{InvalidHeaderName, InvalidHeaderValue, MaxSizeReached, ToStrError};
use reqwest::Method;
use std::str::FromStr;
use vstd::prelude::*;

verus! {

/// A parsed HTTP method.
#[verifier::external_type_specification]
#[verifier::external_body]
pub struct ExMethod(Method);

/// The error of a method that is no token.
#[verifier::external_type_specification]
#[verifier::external_body]
pub struct ExInvalidMethod(InvalidMethod);

/// A parsed header name.
#[verifier::external_type_specification]
#[verifier::external_body]
pub struct ExHeaderName(HeaderName);

/// The error of a header name that is no token, or too long.
#[verifier::external_type_specification]
#[verifier::external_body]
pub struct ExInvalidHeaderName(InvalidHeaderName);

/// A parsed header value.
#[verifier::external_type_specification]
#[verifier::external_body]
pub struct ExHeaderValue(HeaderValue);

/// The error of a header value that holds a forbidden octet.
#[verifier::external_type_specification]
#[verifier::external_body]
pub struct ExInvalidHeaderValue(InvalidHeaderValue);

/// The error of a header value that cannot be shown as text.
#[verifier::external_type_specification]
#[verifier::external_body]
pub struct ExToStrError(ToStrError);

/// The error of a header map that cannot take one entry more.
#[verifier::external_type_specification]
#[verifier::external_body]
pub struct ExMaxSizeReached(MaxSizeReached);

/// The header multimap of the client library.
#[verifier::external_type_specification]
#[verifier::external_body]
#[verifier::reject_recursive_types(T)]
pub struct ExHeaderMap<T>(HeaderMap<T>);

/// The octets of a method, as `Method::as_str` spells it.
pub uninterp spec fn method_bytes(m: Method) -> Seq<u8>;

/// The octets of a header name, as `HeaderName::as_str` spells it.
pub uninterp spec fn header_name_bytes(n: HeaderName) -> Seq<u8>;

/// The octets of a header value, as `HeaderValue::as_bytes` gives them.
pub uninterp spec fn header_value_bytes(v: HeaderValue) -> Seq<u8>;

/// What a header map holds: its (name, value) pairs, in the order in which
/// `HeaderMap::iter` yields them. A name stands once for each of its values.
pub uninterp spec fn header_map_pairs(m: HeaderMap<HeaderValue>) -> Seq<(Seq<u8>, Seq<u8>)>;

/// The values that a sequence of pairs holds under one name, in order.
pub open spec fn values_of(pairs: Seq<(Seq<u8>, Seq<u8>)>, name: Seq<u8>) -> Seq<Seq<u8>>
    decreases pairs.len(),
{
    if pairs.len() == 0 {
        Seq::empty()
    } else if pairs.last().0 == name {
        values_of(pairs.drop_last(), name).push(pairs.last().1)
    } else {
        values_of(pairs.drop_last(), name)
    }
}

/// The number of pairs below which a header map is certain to take one more.
/// The map never lets its table grow beyond 2^15 slots, and may try to double
/// the table once a fifth of the slots are taken.
pub const HEADER_CAPACITY: usize = 6554;

/// `Method::from_str`. It accepts exactly the tokens: an empty input and an
/// input with an octet outside `tchar` fail. The method it gives spells as the
/// input does, octet for octet.
#[verifier::external_body]
pub(crate) fn parse_method(token: &str) -> (r: Result<Method, InvalidMethod>)
    ensures
        r is Ok <==> is_token(octets(token@)),
        r matches Ok(m) ==> method_bytes(m) == octets(token@),
{
    Method::from_str(token)
}

/// `InvalidMethod`'s `Display`, through `to_string`: a fixed sentence.
#[verifier::external_body]
pub(crate) fn invalid_method_message(e: &InvalidMethod) -> (r: String)
    ensures
        r@ == "invalid HTTP method"@,
{
    e.to_string()
}

/// `HeaderName::from_str`. It accepts exactly the tokens of at most 65535
/// octets, and the name it gives is the input with its letters in lower case.
#[verifier::external_body]
pub(crate) fn parse_header_name(name: &str) -> (r: Result<HeaderName, InvalidHeaderName>)
    ensures
        r is Ok <==> is_field_name(octets(name@)),
        r matches Ok(n) ==> header_name_bytes(n) == lowercase(octets(name@)),
{
    HeaderName::from_str(name)
}

/// `HeaderValue::from_str`. It accepts the input exactly when each of its
/// octets is a tab, or at least a space and not DEL, and the value it gives
/// holds the input's octets unchanged.
#[verifier::external_body]
pub(crate) fn parse_header_value(value: &str) -> (r: Result<HeaderValue, InvalidHeaderValue>)
    ensures
        r is Ok <==> is_field_value(octets(value@)),
        r matches Ok(v) ==> header_value_bytes(v) == octets(value@),
{
    HeaderValue::from_str(value)
}

/// `HeaderMap::new`: a map that holds nothing.
#[verifier::external_body]
pub(crate) fn new_header_map() -> (map: HeaderMap<HeaderValue>)
    ensures
        header_map_pairs(map) == Seq::<(Seq<u8>, Seq<u8>)>::empty(),
{
    HeaderMap::new()
}

/// `HeaderMap::try_insert`. Where it succeeds, the name has the given value
/// and no other; the values of every other name are as before, and the map
/// holds at most one pair more. It fails only where the map cannot grow,
/// which does not happen below `HEADER_CAPACITY` pairs.
#[verifier::external_body]
pub(crate) fn try_insert_header(
    map: &mut HeaderMap<HeaderValue>,
    name: HeaderName,
    value: HeaderValue,
) -> (r: Result<(), MaxSizeReached>)
    ensures
        header_map_pairs(*old(map)).len() < HEADER_CAPACITY ==> r is Ok,
        r is Ok ==> header_map_pairs(*final(map)).len() <= header_map_pairs(*old(map)).len() + 1,
        r is Ok ==> forall|n: Seq<u8>|
            #[trigger] values_of(header_map_pairs(*final(map)), n) == if n == header_name_bytes(
                name,
            ) {
                seq![header_value_bytes(value)]
            } else {
                values_of(header_map_pairs(*old(map)), n)
            },
{
    map.try_insert(name, value).map(|_| ())
}

/// `HeaderMap::iter`, each name written out with `to_string` and each value
/// cloned: the pairs that the map holds, in the map's order.
#[verifier::external_body]
pub(crate) fn header_pairs(map: &HeaderMap<HeaderValue>) -> (r: Vec<(String, HeaderValue)>)
    ensures
        r@.len() == header_map_pairs(*map).len(),
        forall|i: int|
            0 <= i < r@.len() ==> {
                &&& octets((#[trigger] r@[i]).0@) == header_map_pairs(*map)[i].0
                &&& header_value_bytes(r@[i].1) == header_map_pairs(*map)[i].1
            },
{
    map.iter().map(|(k, v)| (k.to_string(), v.clone())).collect()
}

/// `HeaderValue::to_str`. It succeeds exactly when each octet is a tab or
/// printable ASCII, and the text then has the value's octets.
#[verifier::external_body]
pub(crate) fn header_value_text(value: &HeaderValue) -> (r: Result<String, ToStrError>)
    ensures
        r is Ok <==> is_visible_text(header_value_bytes(*value)),
        r matches Ok(s) ==> octets(s@) == header_value_bytes(*value),
{
    value.to_str().map(|s| s.to_string())
}

} // verus!
