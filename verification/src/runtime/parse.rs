//! The data host functions `parse_json` and `parse_yaml`: text in, a script
//! value out.
use vstd::prelude::*;

use crate::runtime::errors::{HostError, HostErrorView};

verus! {

#[verifier::external_type_specification]
#[verifier::external_body]
pub struct ExDynamic(rhai::Dynamic);

#[verifier::external_type_specification]
#[verifier::external_body]
pub struct ExJsonValue(serde_json::Value);

#[verifier::external_type_specification]
#[verifier::external_body]
pub struct ExYamlValue(serde_yaml::Value);

/// Maximum input size, in bytes, accepted by the parse functions.  It bounds
/// large flat inputs; it does not bound YAML alias expansion.
pub const MAX_PARSE_BYTES: usize = 10485760;

/// What `serde_json::from_str::<serde_json::Value>` gives for `text`: the
/// document, or the `Display` text of its error.
pub uninterp spec fn json_document(text: Seq<char>) -> Result<serde_json::Value, Seq<char>>;

/// What `serde_yaml::from_str::<serde_yaml::Value>` gives for `text`: the
/// document, or the `Display` text of its error (the text is not YAML, or
/// exceeds the reader's depth and repetition limits).
pub uninterp spec fn yaml_document(text: Seq<char>) -> Result<serde_yaml::Value, Seq<char>>;

/// The script value `rhai::serde::to_dynamic` makes of a JSON value.
pub uninterp spec fn json_script_value(v: serde_json::Value) -> rhai::Dynamic;

/// What `rhai::serde::to_dynamic` gives for a YAML value: the script value,
/// or the `Display` text of its error (a mapping key that is not a string,
/// for one).
pub uninterp spec fn yaml_script_value(v: serde_yaml::Value) -> Result<rhai::Dynamic, Seq<char>>;

/// `text` is a JSON document.
pub open spec fn json_accepts(text: Seq<char>) -> bool {
    json_document(text) is Ok
}

/// `text` is a YAML document.
pub open spec fn yaml_accepts(text: Seq<char>) -> bool {
    yaml_document(text) is Ok
}

/// `serde_json::from_str::<serde_json::Value>`: parses a JSON document; an
/// error is given as its `Display` text.  The result is named
/// `json_document`.
#[verifier::external_body]
fn json_from_str(s: &str) -> (r: Result<serde_json::Value, String>)
    ensures
        match r {
            Ok(v) => json_document(s@) == Ok::<serde_json::Value, Seq<char>>(v),
            Err(m) => json_document(s@) == Err::<serde_json::Value, Seq<char>>(m@),
        },
{
    serde_json::from_str::<serde_json::Value>(s).map_err(|e| e.to_string())
}

/// `serde_yaml::from_str::<serde_yaml::Value>`: parses a YAML document; an
/// error is given as its `Display` text.  The result is named
/// `yaml_document`.
#[verifier::external_body]
fn yaml_from_str(s: &str) -> (r: Result<serde_yaml::Value, String>)
    ensures
        match r {
            Ok(v) => yaml_document(s@) == Ok::<serde_yaml::Value, Seq<char>>(v),
            Err(m) => yaml_document(s@) == Err::<serde_yaml::Value, Seq<char>>(m@),
        },
{
    serde_yaml::from_str::<serde_yaml::Value>(s).map_err(|e| e.to_string())
}

/// `rhai::serde::to_dynamic` on a JSON value: converts it to a script value,
/// named `json_script_value`.  It always succeeds on a JSON value: a JSON
/// value is null, a boolean, a number (an integer beyond `i64` becomes a
/// float), a string, an array or an object with string keys, and rhai's
/// serializer accepts each of these.  The value's depth is bounded by
/// serde_json's reader, so the conversion does not recurse without end.
#[verifier::external_body]
fn json_value_to_dynamic(v: serde_json::Value) -> (r: Result<rhai::Dynamic, String>)
    ensures
        r is Ok,
        r matches Ok(d) ==> d == json_script_value(v),
{
    rhai::serde::to_dynamic(v).map_err(|e| e.to_string())
}

/// `rhai::serde::to_dynamic` on a YAML value: converts it to a script value;
/// an error is given as its `Display` text.  The result is named
/// `yaml_script_value`.
#[verifier::external_body]
fn yaml_value_to_dynamic(v: serde_yaml::Value) -> (r: Result<rhai::Dynamic, String>)
    ensures
        match r {
            Ok(d) => yaml_script_value(v) == Ok::<rhai::Dynamic, Seq<char>>(d),
            Err(m) => yaml_script_value(v) == Err::<rhai::Dynamic, Seq<char>>(m@),
        },
{
    rhai::serde::to_dynamic(v).map_err(|e| e.to_string())
}

/// The error for an input over the size limit.
pub open spec fn oversized_message() -> Seq<char> {
    "input exceeds 10485760 bytes"@
}

fn parse_error(format: &str, message: String) -> (e: HostError)
    ensures
        e@ == (HostErrorView::ParseError { format: format@, message: message@ }),
{
    HostError::ParseError { format: String::from_str(format), message }
}

/// Parse a JSON string into a script value.
///
/// Fails with `ParseError { format: "json", .. }`: at once for an input over
/// `MAX_PARSE_BYTES` bytes, else when the text is not JSON, with the
/// reader's message.  Otherwise the result is the script value of the
/// document the text holds.
pub fn parse_json(s: &str) -> (r: Result<rhai::Dynamic, HostError>)
    ensures
        s.len() > MAX_PARSE_BYTES ==> (r matches Err(e) && e@
            == (HostErrorView::ParseError { format: "json"@, message: oversized_message() })),
        s.len() <= MAX_PARSE_BYTES ==> match json_document(s@) {
            Ok(v) => r matches Ok(d) && d == json_script_value(v),
            Err(m) => r matches Err(e) && e@ == (HostErrorView::ParseError {
                format: "json"@,
                message: m,
            }),
        },
{
    if s.len() > MAX_PARSE_BYTES {
        return Err(parse_error("json", String::from_str("input exceeds 10485760 bytes")));
    }
    let value = match json_from_str(s) {
        Ok(v) => v,
        Err(m) => {
            return Err(parse_error("json", m));
        },
    };
    match json_value_to_dynamic(value) {
        Ok(d) => Ok(d),
        Err(m) => Err(parse_error("json", m)),
    }
}

/// Parse a YAML string into a script value.
///
/// Fails with `ParseError { format: "yaml", .. }`: at once for an input over
/// `MAX_PARSE_BYTES` bytes, else when the text is not YAML or its document
/// has no script value, with the reader's or the converter's message.
/// Otherwise the result is the script value of the document the text holds.
pub fn parse_yaml(s: &str) -> (r: Result<rhai::Dynamic, HostError>)
    ensures
        s.len() > MAX_PARSE_BYTES ==> (r matches Err(e) && e@
            == (HostErrorView::ParseError { format: "yaml"@, message: oversized_message() })),
        s.len() <= MAX_PARSE_BYTES ==> match yaml_document(s@) {
            Ok(v) => match yaml_script_value(v) {
                Ok(d) => r matches Ok(x) && x == d,
                Err(m) => r matches Err(e) && e@ == (HostErrorView::ParseError {
                    format: "yaml"@,
                    message: m,
                }),
            },
            Err(m) => r matches Err(e) && e@ == (HostErrorView::ParseError {
                format: "yaml"@,
                message: m,
            }),
        },
{
    if s.len() > MAX_PARSE_BYTES {
        return Err(parse_error("yaml", String::from_str("input exceeds 10485760 bytes")));
    }
    let value = match yaml_from_str(s) {
        Ok(v) => v,
        Err(m) => {
            return Err(parse_error("yaml", m));
        },
    };
    match yaml_value_to_dynamic(value) {
        Ok(d) => Ok(d),
        Err(m) => Err(parse_error("yaml", m)),
    }
}

} // verus!
