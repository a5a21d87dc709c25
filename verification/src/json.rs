//! The JSON body of a record that is to be created.
//!
//! Strings are encoded by `serde_json`; the object around them is laid out
//! here, field by field: name, content, id, type.

use crate::cloudflare::{DnsRecord, DnsRecordView};
use vstd::prelude::*;
use vstd::string::StringExecFns;

verus! {

/// Declares `serde_json::Error` so that it can be carried through verified
/// code. Nothing is known of its contents.
#[verifier::external_type_specification]
#[verifier::external_body]
pub struct ExJsonError(serde_json::Error);

/// The JSON text that `serde_json::to_string` produces for the string `text`:
/// the characters of `text`, escaped and enclosed in double quotes.
pub uninterp spec fn json_string(text: Seq<char>) -> Seq<char>;

/// Calls `serde_json::to_string` on a string slice. Trusted: the call succeeds
/// (a string holds nothing that the encoder refuses, and the output is written
/// to memory), and its output is the encoding of `text`, fixed by `text` alone.
#[verifier::external_body]
fn encode_string(text: &str) -> (encoded: Result<String, serde_json::Error>)
    ensures
        encoded is Ok && encoded.unwrap()@ == json_string(text@),
{
    serde_json::to_string(text)
}

/// The encoder refused a string. It refuses none, so this is never returned.
#[derive(Debug, Clone, Copy, PartialEq, Eq)]
pub struct EncodeError {}

/// The JSON object of a record, given the JSON text of each of its four
/// values.
pub open spec fn record_object(
    name: Seq<char>,
    content: Seq<char>,
    id: Seq<char>,
    type_: Seq<char>,
) -> Seq<char> {
    "{\"name\":"@ + name + ",\"content\":"@ + content + ",\"id\":"@ + id + ",\"type\":"@ + type_
        + "}"@
}

/// The JSON text of a record's optional id: `null` where it is absent.
pub open spec fn json_id(id: Option<Seq<char>>) -> Seq<char> {
    match id {
        Some(id) => json_string(id),
        None => "null"@,
    }
}

/// The JSON body that describes `record` to the API.
pub open spec fn record_json(record: DnsRecordView) -> Seq<char> {
    record_object(
        json_string(record.name),
        json_string(record.content),
        json_id(record.id),
        json_string(record.type_),
    )
}

/// Lays out the JSON object of a record from the JSON text of its four values.
pub fn frame_record(name: &str, content: &str, id: &str, type_: &str) -> (body: String)
    ensures
        body@ == record_object(name@, content@, id@, type_@),
{
    let mut body = String::from_str("{\"name\":");
    body.append(name);
    body.append(",\"content\":");
    body.append(content);
    body.append(",\"id\":");
    body.append(id);
    body.append(",\"type\":");
    body.append(type_);
    body.append("}");
    body
}

/// Encodes `record` as the JSON body of a creation call.
///
/// A body comes back for every record, since the encoder takes every string:
/// it is exactly [`record_json`] of the record.
pub fn record_body(record: &DnsRecord) -> (body: Result<String, EncodeError>)
    ensures
        body matches Ok(text) && text@ == record_json(record@),
{
    let name = match encode_string(record.name.as_str()) {
        Ok(json) => json,
        Err(_) => {
            return Err(EncodeError {});
        },
    };
    let content = match encode_string(record.content.as_str()) {
        Ok(json) => json,
        Err(_) => {
            return Err(EncodeError {});
        },
    };
    let id = match &record.id {
        Some(id) => match encode_string(id.as_str()) {
            Ok(json) => json,
            Err(_) => {
                return Err(EncodeError {});
            },
        },
        None => String::from_str("null"),
    };
    let type_ = match encode_string(record.type_.as_str()) {
        Ok(json) => json,
        Err(_) => {
            return Err(EncodeError {});
        },
    };
    Ok(frame_record(name.as_str(), content.as_str(), id.as_str(), type_.as_str()))
}

} // verus!
