//! Defensive decoding of payloads that arrive from the foreign runtime
//! bridge, and encoding of the legacy broadcast payload.
//!
//! The foreign side hands over serialized JSON, not typed values. A payload
//! whose `url` field is missing, not a string, or not a well-formed URL
//! yields no event at all; the invocation is ignored rather than treated as
//! fatal.

use vstd::prelude::*;

verus! {

/// Whether a string parses as a well-formed absolute URL. The outcome
/// depends on the characters alone.
pub uninterp spec fn url_wf(s: Seq<char>) -> bool;

/// The string under the `url` key of a JSON payload: `Some` exactly when
/// the text is valid JSON holding an object with a string under that key.
/// It depends on the text alone.
pub uninterp spec fn bridge_url_of(s: Seq<char>) -> Option<Seq<char>>;

/// The JSON text that serializes a list of optional URL strings; it depends
/// on the list alone.
pub uninterp spec fn legacy_json(urls: Seq<Option<Seq<char>>>) -> Seq<char>;

/// Relies on serde_json::from_str::<Value>, Value::get with a string index,
/// and Value::as_str: reading the string under the `url` key of a JSON text
/// is a function of the text alone, and each step answers `None` when its
/// shape is not met.
#[verifier::external_body]
fn extract_url_field(s: &str) -> (r: Option<String>)
    ensures
        r.deep_view() == bridge_url_of(s@),
{
    match serde_json::from_str::<serde_json::Value>(s) {
        Ok(value) => value.get("url").and_then(|f| f.as_str()).map(|u| u.to_owned()),
        Err(_) => None,
    }
}

/// Relies on url::Url::parse: whether the text parses as an absolute URL is
/// a function of the text alone.
#[verifier::external_body]
fn parse_url_ok(s: &str) -> (r: bool)
    ensures
        r == url_wf(s@),
{
    url::Url::parse(s).is_ok()
}

/// Relies on serde_json::to_string: serializing a list of optional strings
/// yields its JSON text. For this type it cannot fail: only a failing
/// Serialize impl or a map with non-string keys can make it fail, and the
/// list has neither.
#[verifier::external_body]
fn json_encode_url_list(urls: &Vec<Option<String>>) -> (r: String)
    ensures
        r@ == legacy_json(urls.deep_view()),
{
    serde_json::to_string(urls).unwrap()
}

/// Decode one invocation of the foreign bridge callback.
///
/// Returns the well-formed URL carried by the payload's `url` field, and
/// `None` exactly when the payload is malformed: not valid JSON, no `url`
/// key, a non-string value under it, or a string that is not a well-formed
/// URL.
pub fn decode_bridge_payload(payload: &str) -> (r: Option<String>)
    ensures
        match bridge_url_of(payload@) {
            Some(u) => if url_wf(u) {
                r matches Some(x) && x@ == u
            } else {
                r is None
            },
            None => r is None,
        },
{
    match extract_url_field(payload) {
        Some(u) => {
            if parse_url_ok(u.as_str()) {
                Some(u)
            } else {
                None
            }
        },
        None => None,
    }
}

/// Decode the foreign side's answer to the on-demand "last known link"
/// query. The answer has the same shape as a callback payload: an object
/// whose optional `url` field carries the link.
pub fn decode_last_link_response(response: &str) -> (r: Option<String>)
    ensures
        match bridge_url_of(response@) {
            Some(u) => if url_wf(u) {
                r matches Some(x) && x@ == u
            } else {
                r is None
            },
            None => r is None,
        },
{
    decode_bridge_payload(response)
}

/// Lift a decoded "last known link" answer into the singleton event shape
/// that `resolve_last_link` takes: one URL becomes a batch of one, no URL
/// stays no event.
pub fn last_link_event(url: Option<String>) -> (r: Option<Vec<String>>)
    ensures
        match url {
            Some(u) => r.deep_view() == Some(seq![u@]),
            None => r is None,
        },
{
    match url {
        Some(u) => {
            let ghost uv = u@;
            let mut event: Vec<String> = Vec::new();
            event.push(u);
            proof {
                assert(event.deep_view() =~~= seq![uv]);
            }
            Some(event)
        },
        None => None,
    }
}

/// Lift each URL of a batch into the optional slot the legacy broadcast
/// payload uses for it.
pub open spec fn wrapped(urls: Seq<Seq<char>>) -> Seq<Option<Seq<char>>> {
    urls.map_values(|u: Seq<char>| Some(u))
}

/// The legacy broadcast payload for one event: the JSON text of its URL
/// batch, each entry present.
pub fn legacy_payload(urls: &Vec<String>) -> (r: String)
    ensures
        r@ == legacy_json(wrapped(urls.deep_view())),
{
    let mut entries: Vec<Option<String>> = Vec::new();
    let mut i: usize = 0;
    while i < urls.len()
        invariant
            0 <= i <= urls@.len(),
            entries@.len() == i,
            forall|k: int|
                0 <= k < i ==> ((#[trigger] entries@[k]) matches Some(u) && u@ == urls.deep_view()[k]),
        decreases urls@.len() - i,
    {
        let u = urls[i].clone();
        entries.push(Some(u));
        i = i + 1;
    }
    proof {
        assert(entries.deep_view() =~~= wrapped(urls.deep_view()));
    }
    json_encode_url_list(&entries)
}

} // verus!
