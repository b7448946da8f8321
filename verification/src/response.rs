//! From what the client brought back to a response description.

use crate::grammar::{is_visible_text, octets};
use crate::request::{ExecuteError, HeaderEntry};
use crate::transport::{header_map_pairs, header_pairs, header_value_bytes, header_value_text};
use reqwest::header::{HeaderMap, HeaderValue};
use vstd::prelude::*;

verus! {

/// What the client reports of one round-trip.
pub enum TransportReply {
    /// The request could not be delivered, or no response came back.
    Failed(String),
    /// A response came back. Its body is the decoded text, or the reason why
    /// there is none.
    Received { status: u16, headers: HeaderMap<HeaderValue>, body: Result<String, String> },
}

/// What a caller gets back.
#[derive(Debug, Clone)]
pub struct ResponseDescription {
    /// The status code of the response.
    pub status: u16,
    /// The milliseconds that the round-trip took.
    pub time_ms: u128,
    /// The response headers, one value for each name.
    pub headers: Vec<HeaderEntry>,
    /// The whole body as text.
    pub body: String,
}

/// The text that a run of octets encodes.
pub open spec fn text_of(bytes: Seq<u8>) -> Seq<char> {
    vstd::utf8::decode_utf8(bytes)
}

/// A header value as it is reported: its text where every octet can be
/// shown, else the empty text.
pub open spec fn shown(value: Seq<u8>) -> Seq<char> {
    if is_visible_text(value) {
        text_of(value)
    } else {
        Seq::empty()
    }
}

/// Whether one of the entries has the name.
pub open spec fn has_name(entries: Seq<(Seq<char>, Seq<char>)>, name: Seq<char>) -> bool {
    exists|i: int| 0 <= i < entries.len() && (#[trigger] entries[i]).0 == name
}

/// The reported headers of a response: its pairs in order, each value as it
/// is shown, and of the pairs that share a name only the first.
pub open spec fn normalized(pairs: Seq<(Seq<u8>, Seq<u8>)>) -> Seq<(Seq<char>, Seq<char>)>
    decreases pairs.len(),
{
    if pairs.len() == 0 {
        Seq::empty()
    } else if has_name(normalized(pairs.drop_last()), text_of(pairs.last().0)) {
        normalized(pairs.drop_last())
    } else {
        normalized(pairs.drop_last()).push((text_of(pairs.last().0), shown(pairs.last().1)))
    }
}

/// Header entries as pairs of texts.
pub open spec fn entries_text(entries: Seq<HeaderEntry>) -> Seq<(Seq<char>, Seq<char>)> {
    Seq::new(entries.len(), |i: int| (entries[i].name@, entries[i].value@))
}

/// Whether one of the entries has the name.
fn contains_name(entries: &Vec<HeaderEntry>, name: &String) -> (found: bool)
    ensures
        found == has_name(entries_text(entries@), name@),
{
    let mut i: usize = 0;
    while i < entries.len()
        invariant
            i <= entries@.len(),
            forall|j: int| 0 <= j < i ==> (#[trigger] entries_text(entries@)[j]).0 != name@,
        decreases entries.len() - i,
    {
        if entries[i].name == *name {
            assert(entries_text(entries@)[i as int].0 == name@);
            return true;
        }
        i += 1;
    }
    false
}

/// Reports the headers of a response: every name once, with the value that
/// the map yields first for it. A value that cannot be shown as text is
/// reported as the empty text; it never makes the call fail.
pub fn normalize_headers(headers: &HeaderMap<HeaderValue>) -> (entries: Vec<HeaderEntry>)
    ensures
        entries_text(entries@) == normalized(header_map_pairs(*headers)),
{
    let pairs = header_pairs(headers);
    let ghost model = header_map_pairs(*headers);
    let mut entries: Vec<HeaderEntry> = Vec::new();
    let mut i: usize = 0;
    while i < pairs.len()
        invariant
            i <= pairs@.len() == model.len(),
            forall|j: int|
                0 <= j < pairs@.len() ==> {
                    &&& octets((#[trigger] pairs@[j]).0@) == model[j].0
                    &&& header_value_bytes(pairs@[j].1) == model[j].1
                },
            entries_text(entries@) == normalized(model.take(i as int)),
        decreases pairs.len() - i,
    {
        let name = &pairs[i].0;
        proof {
            vstd::utf8::encode_utf8_decode_utf8(name@);
            assert(model.take(i + 1).drop_last() == model.take(i as int));
            assert(model.take(i + 1).last() == model[i as int]);
        }
        if !contains_name(&entries, name) {
            let value = match header_value_text(&pairs[i].1) {
                Ok(text) => {
                    proof {
                        vstd::utf8::encode_utf8_decode_utf8(text@);
                    }
                    text
                },
                Err(_) => String::new(),
            };
            let ghost before = entries@;
            entries.push(HeaderEntry { name: name.clone(), value });
            assert(entries_text(entries@) == entries_text(before).push(
                (text_of(model[i as int].0), shown(model[i as int].1)),
            ));
        }
        i += 1;
    }
    proof {
        assert(model.take(i as int) == model);
    }
    entries
}

/// What a call returns for a reply that took `time_ms` milliseconds.
///
/// A failed delivery and an unreadable body each fail the call, with the
/// client's own words. Otherwise the response is described in full: status,
/// time, reported headers, body.
pub open spec fn completes(
    reply: TransportReply,
    time_ms: u128,
    r: Result<ResponseDescription, ExecuteError>,
) -> bool {
    match reply {
        TransportReply::Failed(reason) => r matches Err(ExecuteError::Network(m)) && m@ == reason@,
        TransportReply::Received { status, headers, body: Err(reason) } => r matches Err(
            ExecuteError::BodyDecode(m),
        ) && m@ == reason@,
        TransportReply::Received { status, headers, body: Ok(text) } => r matches Ok(d) && {
            &&& d.status == status
            &&& d.time_ms == time_ms
            &&& entries_text(d.headers@) == normalized(header_map_pairs(headers))
            &&& d.body@ == text@
        },
    }
}

/// Turns the client's reply into the result of the call.
pub fn complete(reply: TransportReply, time_ms: u128) -> (r: Result<
    ResponseDescription,
    ExecuteError,
>)
    ensures
        completes(reply, time_ms, r),
{
    match reply {
        TransportReply::Failed(reason) => Err(ExecuteError::Network(reason)),
        TransportReply::Received { status, headers, body } => {
            let entries = normalize_headers(&headers);
            match body {
                Ok(text) => Ok(ResponseDescription { status, time_ms, headers: entries, body: text }),
                Err(reason) => Err(ExecuteError::BodyDecode(reason)),
            }
        },
    }
}

/// A name is reported exactly when the response holds a pair with it.
pub proof fn lemma_reported_names(pairs: Seq<(Seq<u8>, Seq<u8>)>, name: Seq<char>)
    ensures
        has_name(normalized(pairs), name) <==> exists|k: int|
            0 <= k < pairs.len() && text_of((#[trigger] pairs[k]).0) == name,
    decreases pairs.len(),
{
    if pairs.len() > 0 {
        let front = pairs.drop_last();
        lemma_reported_names(front, name);
        lemma_reported_names(front, text_of(pairs.last().0));
        if has_name(normalized(pairs), name) {
            let i = choose|i: int|
                0 <= i < normalized(pairs).len() && (#[trigger] normalized(pairs)[i]).0 == name;
            if i < normalized(front).len() {
                assert(normalized(front)[i].0 == name);
                let k = choose|k: int| 0 <= k < front.len() && text_of((#[trigger] front[k]).0) == name;
                assert(pairs[k] == front[k]);
            } else {
                assert(text_of(pairs[pairs.len() - 1].0) == name);
            }
        }
        if exists|k: int| 0 <= k < pairs.len() && text_of((#[trigger] pairs[k]).0) == name {
            let k = choose|k: int| 0 <= k < pairs.len() && text_of((#[trigger] pairs[k]).0) == name;
            if k < front.len() {
                assert(front[k] == pairs[k]);
                let i = choose|i: int|
                    0 <= i < normalized(front).len() && (#[trigger] normalized(front)[i]).0 == name;
                assert(normalized(pairs)[i] == normalized(front)[i]);
            } else if has_name(normalized(front), name) {
            } else {
                let last = normalized(pairs).len() - 1;
                assert(normalized(pairs)[last].0 == name);
            }
        }
    }
}

/// No name is reported twice.
pub proof fn lemma_reported_once(pairs: Seq<(Seq<u8>, Seq<u8>)>, i: int, j: int)
    requires
        0 <= i < j < normalized(pairs).len(),
    ensures
        normalized(pairs)[i].0 != normalized(pairs)[j].0,
    decreases pairs.len(),
{
    if pairs.len() > 0 {
        let front = pairs.drop_last();
        if j < normalized(front).len() {
            lemma_reported_once(front, i, j);
        } else {
            assert(normalized(front)[i] == normalized(pairs)[i]);
        }
    }
}

/// Of the pairs that share a name, the first is the one reported: a pair
/// that no earlier pair shares its name with is reported with its value as
/// shown.
pub proof fn lemma_first_value_is_reported(pairs: Seq<(Seq<u8>, Seq<u8>)>, k: int)
    requires
        0 <= k < pairs.len(),
        forall|e: int| 0 <= e < k ==> text_of((#[trigger] pairs[e]).0) != text_of(pairs[k].0),
    ensures
        normalized(pairs).contains((text_of(pairs[k].0), shown(pairs[k].1))),
    decreases pairs.len(),
{
    let front = pairs.drop_last();
    if k < pairs.len() - 1 {
        lemma_first_value_is_reported(front, k);
        let i = choose|i: int|
            0 <= i < normalized(front).len() && normalized(front)[i] == (
                text_of(pairs[k].0),
                shown(pairs[k].1),
            );
        assert(normalized(pairs)[i] == normalized(front)[i]);
    } else {
        lemma_reported_names(front, text_of(pairs[k].0));
        let last = normalized(pairs).len() - 1;
        assert(normalized(pairs)[last] == (text_of(pairs[k].0), shown(pairs[k].1)));
    }
}

/// A value that was sent comes back as it was written, where the response
/// repeats its octets and each of them can be shown.
pub proof fn lemma_visible_value_reads_back(value: Seq<char>)
    requires
        is_visible_text(octets(value)),
    ensures
        shown(octets(value)) == value,
{
    vstd::utf8::encode_utf8_decode_utf8(value);
}

/// A call ends in one of two ways, never both: with an error, or with a
/// response that has the status and the time of the reply. A reply whose
/// status is at most 599 gives a response whose status is.
pub proof fn lemma_outcome_in_range(
    reply: TransportReply,
    time_ms: u128,
    r: Result<ResponseDescription, ExecuteError>,
)
    requires
        completes(reply, time_ms, r),
        reply matches TransportReply::Received { status, .. } ==> status <= 599,
    ensures
        r is Err || (r matches Ok(d) && 0 <= d.status <= 599 && d.time_ms >= 0),
        r is Ok <==> reply matches TransportReply::Received { body: Ok(_), .. },
{
}

} // verus!
