//! Types shared by every tool: what a tool tells the model about itself,
//! what a run returns, the errors a run can end in, the sandbox settings a
//! tool is built with, and reading string arguments out of a JSON object.

use std::time::Duration;

use vstd::prelude::*;

verus! {

/// The name, description and JSON parameter schema a tool advertises.
#[derive(Debug)]
pub struct ToolDefinition {
    pub name: String,
    pub description: String,
    pub parameters_schema: String,
}

/// An image attached to a tool result, base64-encoded.
#[derive(Debug)]
pub struct ImageBlock {
    pub mime_type: String,
    pub data: String,
}

/// What a tool run hands back to the model.
#[derive(Debug)]
pub struct ToolResult {
    pub content: String,
    pub is_error: bool,
    pub image_blocks: Vec<ImageBlock>,
}

impl ToolResult {
    /// A successful text result.
    pub fn text(content: String) -> (r: ToolResult)
        ensures
            r.content@ == content@,
            !r.is_error,
            r.image_blocks@.len() == 0,
    {
        ToolResult { content, is_error: false, image_blocks: Vec::new() }
    }

    /// A text result that reports an error to the model.
    pub fn error(content: String) -> (r: ToolResult)
        ensures
            r.content@ == content@,
            r.is_error,
            r.image_blocks@.len() == 0,
    {
        ToolResult { content, is_error: true, image_blocks: Vec::new() }
    }
}

/// Why a tool run failed outright (as opposed to an error result the
/// model gets to read).
#[derive(Debug, Clone, PartialEq, Eq)]
pub enum DomainError {
    /// The tool itself failed: bad arguments, a failed process.
    Tool(String),
    /// The tool was configured in a way that cannot run.
    Config(String),
    /// The sandbox refused the request.
    Security(String),
}

impl DomainError {
    /// The message carried by the error.
    pub fn message(&self) -> (r: &String)
        ensures
            r@ == match self {
                DomainError::Tool(m) => m@,
                DomainError::Config(m) => m@,
                DomainError::Security(m) => m@,
            },
    {
        match self {
            DomainError::Tool(m) => m,
            DomainError::Config(m) => m,
            DomainError::Security(m) => m,
        }
    }
}

/// The confinement a tool is built with: the workspace it works in and
/// whether file access is restricted to it.
#[derive(Debug)]
pub struct Sandbox {
    pub workspace: Option<String>,
    pub restrict_to_workspace: bool,
}

impl Sandbox {
    pub fn new(workspace: Option<String>, restrict_to_workspace: bool) -> (s: Sandbox)
        ensures
            s.workspace == workspace,
            s.restrict_to_workspace == restrict_to_workspace,
    {
        Sandbox { workspace, restrict_to_workspace }
    }
}

// ---------------------------------------------------------------------------
// Durations
// ---------------------------------------------------------------------------

/// The duration `Duration::new(secs, nanos)` builds.
pub uninterp spec fn duration_of(secs: u64, nanos: u32) -> Duration;

/// `std::time::Duration::new`: the span of `secs` seconds and `nanos`
/// nanoseconds. It panics when the nanoseconds carry past `u64::MAX`
/// seconds, which `requires` rules out.
#[verifier::external_body]
pub fn duration(secs: u64, nanos: u32) -> (d: Duration)
    requires
        secs + nanos / 1_000_000_000 <= u64::MAX,
    ensures
        d == duration_of(secs, nanos),
{
    Duration::new(secs, nanos)
}

/// The whole seconds of a duration (`Duration::as_secs`).
pub uninterp spec fn secs_of(d: Duration) -> u64;

/// The nanoseconds of a duration past its whole seconds
/// (`Duration::subsec_nanos`).
pub uninterp spec fn subsec_nanos_of(d: Duration) -> u32;

/// `Duration::as_secs` and `Duration::subsec_nanos`: the nanoseconds are
/// below one second, and building a duration from the two parts gives it
/// back.
#[verifier::external_body]
pub fn duration_parts(d: Duration) -> (r: (u64, u32))
    ensures
        r.0 == secs_of(d),
        r.1 == subsec_nanos_of(d),
        r.1 < 1_000_000_000,
        d == duration_of(r.0, r.1),
{
    (d.as_secs(), d.subsec_nanos())
}

// ---------------------------------------------------------------------------
// JSON arguments
// ---------------------------------------------------------------------------

/// Reading `text` as JSON: `None` when it is not valid JSON; otherwise the
/// string value of member `key` of the top-level object, `None` when the
/// member is missing or not a string (or the value is not an object).
pub uninterp spec fn json_string_member(text: Seq<char>, key: Seq<char>) -> Option<
    Option<Seq<char>>,
>;

/// Parses `text` with `serde_json` and reads member `key` as a string.
/// `Err` carries the parser's message, whose wording is not stated here.
#[verifier::external_body]
pub fn json_str_member(text: &str, key: &str) -> (r: Result<Option<String>, String>)
    ensures
        match r {
            Ok(v) => json_string_member(text@, key@) == Some(
                match v {
                    Some(s) => Some(s@),
                    None => None,
                },
            ),
            Err(_) => json_string_member(text@, key@) is None,
        },
{
    match serde_json::from_str::<serde_json::Value>(text) {
        Ok(v) => Ok(v.get(key).and_then(|m| m.as_str()).map(|s| s.to_string())),
        Err(e) => Err(e.to_string()),
    }
}

/// Reading `text` as JSON: `None` when it is not valid JSON; otherwise the
/// value of member `key` of the top-level object when it is an integer in
/// `u64` range, `None` when it is missing or anything else.
pub uninterp spec fn json_u64_member_of(text: Seq<char>, key: Seq<char>) -> Option<Option<u64>>;

/// Parses `text` with `serde_json` and reads member `key` as a `u64`
/// (`Value::as_u64`). `Err` carries the parser's message.
#[verifier::external_body]
pub fn json_u64_member(text: &str, key: &str) -> (r: Result<Option<u64>, String>)
    ensures
        match r {
            Ok(v) => json_u64_member_of(text@, key@) == Some(v),
            Err(_) => json_u64_member_of(text@, key@) is None,
        },
{
    match serde_json::from_str::<serde_json::Value>(text) {
        Ok(v) => Ok(v.get(key).and_then(|m| m.as_u64())),
        Err(e) => Err(e.to_string()),
    }
}

/// Reading `text` as JSON: `None` when it is not valid JSON; otherwise the
/// value of member `key` of the top-level object when it is a boolean,
/// `None` when it is missing or anything else.
pub uninterp spec fn json_bool_member_of(text: Seq<char>, key: Seq<char>) -> Option<Option<bool>>;

/// Parses `text` with `serde_json` and reads member `key` as a boolean
/// (`Value::as_bool`). `Err` carries the parser's message.
#[verifier::external_body]
pub fn json_bool_member(text: &str, key: &str) -> (r: Result<Option<bool>, String>)
    ensures
        match r {
            Ok(v) => json_bool_member_of(text@, key@) == Some(v),
            Err(_) => json_bool_member_of(text@, key@) is None,
        },
{
    match serde_json::from_str::<serde_json::Value>(text) {
        Ok(v) => Ok(v.get(key).and_then(|m| m.as_bool())),
        Err(e) => Err(e.to_string()),
    }
}

/// Reading `text` as JSON: `None` when it is not valid JSON; otherwise
/// member `key` of the top-level object written back as compact JSON
/// (`null` for a null member), `None` when it is missing.
pub uninterp spec fn json_member_text_of(text: Seq<char>, key: Seq<char>) -> Option<Option<Seq<char>>>;

/// Parses `text` with `serde_json` and writes member `key` back as JSON
/// text (`Value::to_string`) when it is present.
#[verifier::external_body]
pub fn json_member_text(text: &str, key: &str) -> (r: Result<Option<String>, String>)
    ensures
        match r {
            Ok(v) => json_member_text_of(text@, key@) == Some(
                match v {
                    Some(s) => Some(s@),
                    None => None,
                },
            ),
            Err(_) => json_member_text_of(text@, key@) is None,
        },
{
    match serde_json::from_str::<serde_json::Value>(text) {
        Ok(v) => Ok(v.get(key).map(|m| m.to_string())),
        Err(e) => Err(e.to_string()),
    }
}


/// `s` written as a JSON string literal, quoted and escaped as `serde_json`
/// writes it.
pub uninterp spec fn json_quoted(s: Seq<char>) -> Seq<char>;

/// Writes `s` as a JSON string (`serde_json::Value::String(..).to_string()`).
#[verifier::external_body]
pub fn json_quote(s: &str) -> (r: String)
    ensures
        r@ == json_quoted(s@),
{
    serde_json::Value::String(s.to_string()).to_string()
}


/// Reading `object` and `value` as JSON: `None` unless both are valid JSON
/// and `object` is an object; otherwise `object` with member `key` set to
/// `value`, written back as compact JSON.
pub uninterp spec fn json_member_set(object: Seq<char>, key: Seq<char>, value: Seq<char>) -> Option<Seq<char>>;

/// Parses `object` and `value` with `serde_json`, sets member `key` of the
/// object (`Map::insert`) and writes it back (`Value::to_string`); `None`
/// when either is not JSON or `object` is not an object.
#[verifier::external_body]
pub fn json_set_member(object: &str, key: &str, value: &str) -> (r: Option<String>)
    ensures
        match r {
            Some(s) => json_member_set(object@, key@, value@) == Some(s@),
            None => json_member_set(object@, key@, value@) is None,
        },
{
    let mut v: serde_json::Value = serde_json::from_str(object).ok()?;
    let member: serde_json::Value = serde_json::from_str(value).ok()?;
    v.as_object_mut()?.insert(key.to_string(), member);
    Some(v.to_string())
}

} // verus!
