//! Classification of default-topic payloads and the recognised type tag.
//!
//! A default-topic payload is pure observability: it is rendered as text
//! and, when that text is a JSON greeting, logged with its structured
//! fields; any other text is logged as it stands.  Neither branch is an
//! error and nothing downstream depends on which branch was taken.

use vstd::prelude::*;
use crate::events::{LogEvent, LogEventView};

verus! {

/// Compare two byte vectors for equality.
pub fn bytes_eq(a: &Vec<u8>, b: &Vec<u8>) -> (r: bool)
    ensures
        r == (a@ == b@),
{
    if a.len() != b.len() {
        return false;
    }
    let mut i: usize = 0;
    while i < a.len()
        invariant
            i <= a@.len(),
            a@.len() == b@.len(),
            forall|j: int| 0 <= j < i ==> a@[j] == b@[j],
        decreases a@.len() - i,
    {
        if a[i] != b[i] {
            return false;
        }
        i = i + 1;
    }
    proof {
        assert(a@ =~= b@);
    }
    true
}

/// What rendering the given bytes as text yields: the decoded characters
/// for well-formed encodings, with replacement characters standing in for
/// ill-formed ranges.
pub uninterp spec fn lossy_text_of(b: Seq<u8>) -> Seq<char>;

/// Relies on `String::from_utf8_lossy`: the result is a pure function of
/// the bytes alone, and bytes below 128 decode to themselves.
#[verifier::external_body]
pub fn payload_text(b: &Vec<u8>) -> (r: String)
    ensures
        r@ == lossy_text_of(b@),
        (forall|i: int| 0 <= i < b@.len() ==> b@[i] < 128) ==> r@ == b@.map_values(
            |x: u8| x as char,
        ),
{
    String::from_utf8_lossy(b).into_owned()
}

/// What parsing the given text as a JSON greeting yields: the values of the
/// object's "name" and "timestamp" string fields when the text is a JSON
/// document carrying both, and nothing otherwise.
pub uninterp spec fn greeting_of(s: Seq<char>) -> Option<(Seq<char>, Seq<char>)>;

/// Relies on `serde_json::from_str`, `Value::get` and `Value::as_str`:
/// parsing is deterministic in the text alone; the result is the document's
/// "name" and "timestamp" string fields when the text parses as JSON and
/// both fields hold strings.
#[verifier::external_body]
pub fn parse_greeting(s: &str) -> (r: Option<(String, String)>)
    ensures
        match r {
            Some(p) => greeting_of(s@) == Some((p.0@, p.1@)),
            None => greeting_of(s@) is None,
        },
{
    let v: serde_json::Value = match serde_json::from_str(s) {
        Ok(v) => v,
        Err(_) => return None,
    };
    let name = match v.get("name").and_then(serde_json::Value::as_str) {
        Some(x) => x.to_string(),
        None => return None,
    };
    let ts = match v.get("timestamp").and_then(serde_json::Value::as_str) {
        Some(x) => x.to_string(),
        None => return None,
    };
    Some((name, ts))
}

/// Which log event the default-topic path produces for a payload's text.
pub open spec fn spec_classify_text(t: Seq<char>) -> LogEventView {
    match greeting_of(t) {
        Some(p) => LogEventView::Greeting { name: p.0, timestamp: p.1 },
        None => LogEventView::RawText { payload: t },
    }
}

/// The default-topic path never reports an error: whatever the text, its
/// event is a structured greeting or the raw text itself.
pub proof fn lemma_default_classification_total(t: Seq<char>)
    ensures
        spec_classify_text(t) is Greeting || spec_classify_text(t) is RawText,
{
}

/// Classify a default-topic payload: a structured greeting event when its
/// text parses as a JSON greeting, and a plain-text event otherwise.  Every
/// payload yields one of the two; this path defines no error.
pub fn classify_default_payload(payload: &Vec<u8>) -> (ev: LogEvent)
    ensures
        ev@ == spec_classify_text(lossy_text_of(payload@)),
        ev@ is Greeting || ev@ is RawText,
{
    let text = payload_text(payload);
    match parse_greeting(text.as_str()) {
        Some(p) => LogEvent::Greeting { name: p.0, timestamp: p.1 },
        None => LogEvent::RawText { payload: text },
    }
}

} // verus!
