use vstd::prelude::*;

verus! {

#[verifier::external_type_specification]
#[verifier::external_body]
pub struct ExJsonValue(serde_json::Value);

#[verifier::external_type_specification]
#[verifier::external_body]
pub struct ExJsonError(serde_json::Error);

/// The JSON document that the bytes hold, if they hold exactly one.
pub uninterp spec fn json_document(b: Seq<u8>) -> Option<serde_json::Value>;

/// The member of a JSON object under a key; `None` for a missing key or a
/// value that is no object.
pub uninterp spec fn json_member(v: serde_json::Value, key: Seq<char>) -> Option<serde_json::Value>;

/// The text of a JSON string; `None` for any other kind of value.
pub uninterp spec fn json_string(v: serde_json::Value) -> Option<Seq<char>>;

/// Relies on `serde_json::from_slice`: parses the whole input as one JSON
/// document, and fails on anything else.
#[verifier::external_body]
fn parse_json(body: &[u8]) -> (r: Result<serde_json::Value, serde_json::Error>)
    ensures
        match r {
            Ok(v) => json_document(body@) == Some(v),
            Err(_) => json_document(body@) is None,
        },
{
    serde_json::from_slice(body)
}

/// Relies on `serde_json::Value::get` with a string key.
#[verifier::external_body]
fn member<'a>(v: &'a serde_json::Value, key: &str) -> (r: Option<&'a serde_json::Value>)
    ensures
        match r {
            Some(m) => json_member(*v, key@) == Some(*m),
            None => json_member(*v, key@) is None,
        },
{
    v.get(key)
}

/// Relies on `serde_json::Value::as_str`.
#[verifier::external_body]
fn as_text(v: &serde_json::Value) -> (r: Option<&str>)
    ensures
        match r {
            Some(s) => json_string(*v) == Some(s@),
            None => json_string(*v) is None,
        },
{
    v.as_str()
}

/// Why a transcription reply was refused.
#[derive(Clone, Copy, Debug, PartialEq, Eq)]
pub enum ReplyError {
    /// The reply body is not one JSON document.
    NotJson,
}

/// The transcription carried by a parsed reply: its "text" member when that
/// is a string, else the empty text.
pub open spec fn reply_text(v: serde_json::Value) -> Seq<char> {
    match json_member(v, "text"@) {
        Some(t) => match json_string(t) {
            Some(s) => s,
            None => Seq::empty(),
        },
        None => Seq::empty(),
    }
}

/// The transcription in the body of a transcription-service reply.
pub fn transcription_text(body: &[u8]) -> (r: Result<String, ReplyError>)
    ensures
        match json_document(body@) {
            Some(v) => r matches Ok(t) && t@ == reply_text(v),
            None => r == Err::<String, ReplyError>(ReplyError::NotJson),
        },
{
    let doc = match parse_json(body) {
        Ok(v) => v,
        Err(_) => return Err(ReplyError::NotJson),
    };
    let text = match member(&doc, "text") {
        Some(t) => match as_text(t) {
            Some(s) => s.to_string(),
            None => String::new(),
        },
        None => String::new(),
    };
    Ok(text)
}

} // verus!
