//! The trusted boundary to the JSON parser. The analysis pipeline receives
//! free-form text from the text-generation capability and reads its embedded
//! JSON object defensively; the parsing is `serde_json`'s work, behind the
//! decoders here. Each decoder's result is a function of the text alone, so
//! it carries a name that the callers' contracts speak of exactly.

use vstd::prelude::*;
use crate::text::{pair_views, str_views};

verus! {

/// Whether `s` is text that the JSON parser accepts as one JSON value; names
/// the success of `serde_json::from_str`, which depends on the text alone.
pub uninterp spec fn json_parses(s: Seq<char>) -> bool;

/// What the strict summaries decode of the JSON text `s` yields: the
/// id-to-text pairs of its `summaries` object, in the parser's field order —
/// or nothing when `s` does not parse, lacks the key, or the field is not an
/// object whose values are all strings. A function of the text alone.
pub uninterp spec fn json_summaries_of(s: Seq<char>) -> Option<Seq<(Seq<char>, Seq<char>)>>;

/// What the strict ideas decode of the JSON text `s` yields: the items of
/// its `ideas` array, in order — or nothing when `s` does not parse, lacks
/// the key, or the field is not an array whose items are all strings. A
/// function of the text alone.
pub uninterp spec fn json_ideas_of(s: Seq<char>) -> Option<Seq<Seq<char>>>;

/// What the strict flow decode of the JSON text `s` yields: the four fields
/// of its `flow` object, in their fixed order — or nothing when `s` does not
/// parse, lacks the key, or any of the four fields is absent or not a
/// string. A function of the text alone.
pub uninterp spec fn json_flow_of(s: Seq<char>) -> Option<
    (Seq<char>, Seq<char>, Seq<char>, Seq<char>),
>;

/// Relies on `serde_json::from_str` and `Value::get`/`as_object`/`as_str`:
/// the strict decode of the `summaries` field as a string-to-string map,
/// with any shape mismatch yielding nothing.
#[verifier::external_body]
pub fn decode_summaries(js: &str) -> (r: Option<Vec<(String, String)>>)
    ensures
        (match r {
            Some(v) => Some(pair_views(v@)),
            None => None::<Seq<(Seq<char>, Seq<char>)>>,
        }) == json_summaries_of(js@),
        !json_parses(js@) ==> r is None,
{
    let v: serde_json::Value = serde_json::from_str(js).ok()?;
    let obj = v.get("summaries")?.as_object()?;
    let mut out: Vec<(String, String)> = Vec::new();
    for (k, x) in obj {
        out.push((k.clone(), x.as_str()?.to_string()));
    }
    Some(out)
}

/// Relies on `serde_json::from_str` and `Value::get`/`as_array`/`as_str`:
/// the strict decode of the `ideas` field as a list of strings, with any
/// shape mismatch yielding nothing.
#[verifier::external_body]
pub fn decode_ideas(js: &str) -> (r: Option<Vec<String>>)
    ensures
        (match r {
            Some(v) => Some(str_views(v@)),
            None => None::<Seq<Seq<char>>>,
        }) == json_ideas_of(js@),
        !json_parses(js@) ==> r is None,
{
    let v: serde_json::Value = serde_json::from_str(js).ok()?;
    let items = v.get("ideas")?.as_array()?;
    let mut out: Vec<String> = Vec::new();
    for x in items {
        out.push(x.as_str()?.to_string());
    }
    Some(out)
}

/// Relies on `serde_json::from_str` and `Value::get`/`as_str`: the strict
/// decode of the `flow` object's four fields, all of which must be present
/// as strings for anything to come back.
#[verifier::external_body]
pub fn decode_flow(js: &str) -> (r: Option<(String, String, String, String)>)
    ensures
        (match r {
            Some(f) => Some((f.0@, f.1@, f.2@, f.3@)),
            None => None::<(Seq<char>, Seq<char>, Seq<char>, Seq<char>)>,
        }) == json_flow_of(js@),
        !json_parses(js@) ==> r is None,
{
    let v: serde_json::Value = serde_json::from_str(js).ok()?;
    let f = v.get("flow")?;
    Some(
        (
            f.get("stimuli_to_will")?.as_str()?.to_string(),
            f.get("will_to_supply")?.as_str()?.to_string(),
            f.get("stuck")?.as_str()?.to_string(),
            f.get("next")?.as_str()?.to_string(),
        ),
    )
}

} // verus!
