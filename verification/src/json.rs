//! The one place the crate reads JSON itself: the intermediate media-info
//! document of a track resolution, whose top-level `url` field holds the
//! signed media URL.  The parsing is serde_json's; its results are named
//! here and everything built on them is verified against those names.

use vstd::prelude::*;

verus! {

/// Whether a piece of text parses as a JSON document.  The result of
/// serde_json's parser depends on the text alone.
pub uninterp spec fn json_text_wf(s: Seq<char>) -> bool;

/// The string at the given top-level key of the JSON document in `s`:
/// present exactly when `s` parses to an object that carries a string
/// there.  A function of the text and key alone.
pub uninterp spec fn json_string_entry(s: Seq<char>, key: Seq<char>) -> Option<Seq<char>>;

/// Relies on serde_json: `from_str::<Value>` parses the body (it returns
/// `Ok` exactly for well-formed JSON), `Value::get` looks the key up in the
/// top-level object, and `Value::as_str` gives the value when it is a JSON
/// string.  All three depend on their text arguments alone, so the result
/// is `json_string_entry(body, key)` whenever the body parses.  The parse
/// error's payload is of no use to the logic and is dropped here.
#[verifier::external_body]
fn json_str_field(body: &str, key: &str) -> (r: Result<Option<String>, ()>)
    ensures
        r is Ok <==> json_text_wf(body@),
        r matches Ok(f) ==> (f is Some <==> json_string_entry(body@, key@) is Some),
        r matches Ok(f) && f matches Some(u) ==> Some(u@) == json_string_entry(body@, key@),
{
    match serde_json::from_str::<serde_json::Value>(body) {
        Ok(doc) => Ok(doc.get(key).and_then(|v| v.as_str()).map(|s| s.to_string())),
        Err(_) => Err(()),
    }
}

/// The signed media URL the info document names, if any.
pub open spec fn media_url_of(body: Seq<char>) -> Option<Seq<char>> {
    json_string_entry(body, "url"@)
}

/// Read the signed media URL out of a fetched info document.
///
/// A body that is not JSON is a decode failure; a JSON body without a
/// string `url` field is a data-not-present failure naming what was
/// missing.  The two are distinct, and both are distinct from transport
/// failures, which never reach this function.
pub fn media_url_from_info(body: &str) -> (r: Result<String, crate::Error>)
    ensures
        r is Ok <==> json_text_wf(body@) && media_url_of(body@) is Some,
        r matches Ok(u) ==> media_url_of(body@) == Some(u@),
        r matches Err(e) ==> (if !json_text_wf(body@) {
            e == crate::Error::JsonDecodeError
        } else {
            e matches crate::Error::DataNotPresent(d) && d@ == "media file url in info json"@
        }),
{
    match json_str_field(body, "url") {
        Ok(Some(u)) => Ok(u),
        Ok(None) => Err(crate::Error::DataNotPresent("media file url in info json".to_owned())),
        Err(_) => Err(crate::Error::JsonDecodeError),
    }
}

} // verus!
