//! Fallback port discovery: when the monitoring loop ends with no port
//! found, the supervisor reads a small JSON file the backend may have
//! written and takes the `backend_port` field from it. A missing file,
//! malformed JSON, a missing field or an out-of-range value all mean "no
//! port available" — never an error.

use vstd::prelude::*;

verus! {

/// The numeric value of the named top-level field of a JSON document, when
/// the text parses and the field holds an unsigned number.
pub uninterp spec fn json_u64_field_of(s: Seq<char>, key: Seq<char>) -> Option<u64>;

/// Relies on serde_json::from_str, serde_json::Value::get and
/// serde_json::Value::as_u64: parsing is a pure function of the input text,
/// and the three together answer the numeric value of the named top-level
/// field; a parse error, a missing field and a non-numeric field all answer
/// nothing.
#[verifier::external_body]
fn json_u64_field(content: &str, key: &str) -> (r: Option<u64>)
    ensures
        r == json_u64_field_of(content@, key@),
{
    match serde_json::from_str::<serde_json::Value>(content) {
        Ok(doc) => match doc.get(key) {
            Some(field) => field.as_u64(),
            None => None,
        },
        Err(_) => None,
    }
}

/// The port a `server_info.json` text offers: its `backend_port` field,
/// kept only when it lies strictly between 1024 and 65535.
pub open spec fn server_info_port(s: Seq<char>) -> Option<u16> {
    match json_u64_field_of(s, "backend_port"@) {
        Some(v) => if 1024 < v && v < 65535 {
            Some(v as u16)
        } else {
            None
        },
        None => None,
    }
}

/// Extracts the backend port from the text of a fallback file.
pub fn port_from_server_info(content: &str) -> (r: Option<u16>)
    ensures
        r == server_info_port(content@),
{
    match json_u64_field(content, "backend_port") {
        Some(v) => if 1024 < v && v < 65535 {
            Some(v as u16)
        } else {
            None
        },
        None => None,
    }
}

} // verus!
