//! From a request description to the values that the client sends.

use crate::grammar::{is_field_name, is_field_value, is_token, lowercase, octets};
use crate::transport::{header_map_pairs, method_bytes, values_of, HEADER_CAPACITY};
use crate::transport::{invalid_method_message, new_header_map, try_insert_header};
use crate::transport::{parse_header_name, parse_header_value, parse_method};
use reqwest::header::{HeaderMap, HeaderValue};
use reqwest::Method;
use vstd::prelude::*;

verus! {

/// One header as text: a name and its value.
#[derive(Debug, Clone)]
pub struct HeaderEntry {
    pub name: String,
    pub value: String,
}

/// What a caller asks for. Nothing in it has been validated.
#[derive(Debug, Clone)]
pub struct RequestDescription {
    /// The absolute URL, handed to the client as it is.
    pub url: String,
    /// The method; rejected unless it is a token.
    pub method: String,
    /// The headers. Entries that are no well-formed header are left out.
    pub headers: Vec<HeaderEntry>,
    /// The body; the empty text stands for no body.
    pub body: String,
}

/// A request that passed validation, in the client's own types.
pub struct PreparedRequest {
    pub method: Method,
    pub url: String,
    pub headers: HeaderMap<HeaderValue>,
    pub body: Option<String>,
}

/// Why a call failed. Each kind carries the text that the caller shows.
#[derive(Debug, Clone)]
pub enum ExecuteError {
    /// The method is no token. Nothing was sent.
    MethodParse(String),
    /// The headers are more than the client can hold. Nothing was sent.
    HeaderLimit(String),
    /// The request could not be delivered, or no response came back.
    Network(String),
    /// The response arrived, but its body could not be read as text.
    BodyDecode(String),
}

impl ExecuteError {
    /// The text of the error, whatever its kind.
    pub open spec fn text(self) -> Seq<char> {
        match self {
            ExecuteError::MethodParse(m) => m@,
            ExecuteError::HeaderLimit(m) => m@,
            ExecuteError::Network(m) => m@,
            ExecuteError::BodyDecode(m) => m@,
        }
    }

    /// The text of the error, to show to the caller.
    pub fn message(&self) -> (r: &str)
        ensures
            r@ == self.text(),
    {
        match self {
            ExecuteError::MethodParse(m) => m.as_str(),
            ExecuteError::HeaderLimit(m) => m.as_str(),
            ExecuteError::Network(m) => m.as_str(),
            ExecuteError::BodyDecode(m) => m.as_str(),
        }
    }

    /// The error as its bare text.
    pub fn into_message(self) -> (r: String)
        ensures
            r@ == self.text(),
    {
        match self {
            ExecuteError::MethodParse(m) => m,
            ExecuteError::HeaderLimit(m) => m,
            ExecuteError::Network(m) => m,
            ExecuteError::BodyDecode(m) => m,
        }
    }
}

/// An entry is sent exactly when its name is a header name and its value a
/// header value.
pub open spec fn entry_accepted(entry: HeaderEntry) -> bool {
    is_field_name(octets(entry.name@)) && is_field_value(octets(entry.value@))
}

/// The value sent under `name`: that of the last accepted entry whose name,
/// in lower case, is `name`. `None` where there is no such entry.
pub open spec fn outbound_value(headers: Seq<HeaderEntry>, name: Seq<u8>) -> Option<Seq<u8>>
    decreases headers.len(),
{
    if headers.len() == 0 {
        None
    } else if entry_accepted(headers.last()) && lowercase(octets(headers.last().name@)) == name {
        Some(octets(headers.last().value@))
    } else {
        outbound_value(headers.drop_last(), name)
    }
}

/// The pairs hold, under every name, exactly the value sent under it: one
/// value where an accepted entry has the name, none where no entry has.
pub open spec fn carries(pairs: Seq<(Seq<u8>, Seq<u8>)>, headers: Seq<HeaderEntry>) -> bool {
    forall|name: Seq<u8>| #[trigger]
        values_of(pairs, name) == match outbound_value(headers, name) {
            Some(value) => seq![value],
            None => Seq::empty(),
        }
}

/// The body that goes out: none for the empty text, else the text as it is.
pub open spec fn outbound_body(body: Seq<char>) -> Option<Seq<char>> {
    if body.len() == 0 {
        None
    } else {
        Some(body)
    }
}

/// Builds the outbound header map. Each entry is validated on its own; one
/// that fails is skipped and never makes the call fail.
///
/// `None` where the map refused an entry for want of room, which it does not
/// for `HEADER_CAPACITY` entries or fewer.
pub fn build_headers(headers: &Vec<HeaderEntry>) -> (r: Option<HeaderMap<HeaderValue>>)
    ensures
        headers@.len() <= HEADER_CAPACITY ==> r is Some,
        r matches Some(map) ==> carries(header_map_pairs(map), headers@),
{
    let mut map = new_header_map();
    let mut i: usize = 0;
    while i < headers.len()
        invariant
            i <= headers@.len(),
            header_map_pairs(map).len() <= i,
            carries(header_map_pairs(map), headers@.take(i as int)),
        decreases headers.len() - i,
    {
        let entry = &headers[i];
        let name = parse_header_name(entry.name.as_str());
        let value = parse_header_value(entry.value.as_str());
        proof {
            assert(headers@.take(i + 1).drop_last() == headers@.take(i as int));
            assert(headers@.take(i + 1).last() == headers@[i as int]);
        }
        match (name, value) {
            (Ok(name), Ok(value)) => {
                if try_insert_header(&mut map, name, value).is_err() {
                    return None;
                }
            },
            _ => {},
        }
        i += 1;
    }
    proof {
        assert(headers@.take(i as int) == headers@);
    }
    Some(map)
}

/// Validates a request and puts it in the client's types.
///
/// The call fails where the method is no token, before anything else is
/// looked at, and where the client cannot hold the headers, which does not
/// happen for `HEADER_CAPACITY` entries or fewer. Otherwise the prepared
/// request has that method, the URL unchanged, the accepted headers and no
/// others, and the body unless it is empty.
pub fn prepare(request: RequestDescription) -> (r: Result<PreparedRequest, ExecuteError>)
    ensures
        !is_token(octets(request.method@)) ==> (r matches Err(ExecuteError::MethodParse(m)) && m@
            == "invalid HTTP method"@),
        is_token(octets(request.method@)) && request.headers@.len() <= HEADER_CAPACITY ==> r is Ok,
        r matches Err(ExecuteError::HeaderLimit(m)) ==> {
            &&& is_token(octets(request.method@))
            &&& request.headers@.len() > HEADER_CAPACITY
            &&& m@ == "too many request headers"@
        },
        !(r matches Err(ExecuteError::Network(_))),
        !(r matches Err(ExecuteError::BodyDecode(_))),
        r matches Ok(p) ==> {
            &&& is_token(octets(request.method@))
            &&& method_bytes(p.method) == octets(request.method@)
            &&& p.url@ == request.url@
            &&& carries(header_map_pairs(p.headers), request.headers@)
            &&& match outbound_body(request.body@) {
                Some(body) => p.body matches Some(b) && b@ == body,
                None => p.body is None,
            }
        },
{
    let method = match parse_method(request.method.as_str()) {
        Ok(method) => method,
        Err(e) => {
            return Err(ExecuteError::MethodParse(invalid_method_message(&e)));
        },
    };
    let headers = match build_headers(&request.headers) {
        Some(headers) => headers,
        None => {
            return Err(ExecuteError::HeaderLimit("too many request headers".to_owned()));
        },
    };
    let body = if request.body.as_str().is_empty() {
        None
    } else {
        Some(request.body)
    };
    Ok(PreparedRequest { method, url: request.url, headers, body })
}

/// An entry that is not accepted has no part in what is sent: with it or
/// without it, every name carries the same value.
pub proof fn lemma_rejected_entry_is_dropped(headers: Seq<HeaderEntry>, i: int, name: Seq<u8>)
    requires
        0 <= i < headers.len(),
        !entry_accepted(headers[i]),
    ensures
        outbound_value(headers.remove(i), name) == outbound_value(headers, name),
    decreases headers.len(),
{
    if i == headers.len() - 1 {
        assert(headers.remove(i) == headers.drop_last());
    } else {
        assert(headers.remove(i).last() == headers.last());
        assert(headers.remove(i).drop_last() == headers.drop_last().remove(i));
        lemma_rejected_entry_is_dropped(headers.drop_last(), i, name);
    }
}

/// An accepted entry that no later accepted entry shadows is sent: its name
/// in lower case carries its value.
pub proof fn lemma_accepted_entry_is_sent(headers: Seq<HeaderEntry>, i: int)
    requires
        0 <= i < headers.len(),
        entry_accepted(headers[i]),
        forall|j: int|
            i < j < headers.len() && entry_accepted(headers[j]) ==> lowercase(
                octets(#[trigger] headers[j].name@),
            ) != lowercase(octets(headers[i].name@)),
    ensures
        outbound_value(headers, lowercase(octets(headers[i].name@))) == Some(
            octets(headers[i].value@),
        ),
    decreases headers.len(),
{
    if i < headers.len() - 1 {
        lemma_accepted_entry_is_sent(headers.drop_last(), i);
    }
}

} // verus!
