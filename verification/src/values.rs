use crate::strutil::{append_quoted, quoted};
use vstd::prelude::*;
use vstd::string::*;

verus! {

/// A field value as the record service models it: one of null, boolean,
/// number, string, array or object. Numbers, arrays and objects carry their
/// canonical JSON text; the tool never computes with those, it only forwards
/// and prints them.
#[derive(Debug, Clone, PartialEq, Eq)]
pub enum RecordValue {
    Null,
    Bool(bool),
    /// Canonical JSON text of a number, e.g. `5` or `-3.25`.
    Num(String),
    Str(String),
    /// Canonical JSON text of an array.
    Arr(String),
    /// Canonical JSON text of an object.
    Obj(String),
}

/// Mathematical model of a `RecordValue`.
pub enum JsonVal {
    Null,
    Bool(bool),
    Num(Seq<char>),
    Str(Seq<char>),
    Arr(Seq<char>),
    Obj(Seq<char>),
}

impl View for RecordValue {
    type V = JsonVal;

    open spec fn view(&self) -> JsonVal {
        match self {
            RecordValue::Null => JsonVal::Null,
            RecordValue::Bool(b) => JsonVal::Bool(*b),
            RecordValue::Num(s) => JsonVal::Num(s@),
            RecordValue::Str(s) => JsonVal::Str(s@),
            RecordValue::Arr(s) => JsonVal::Arr(s@),
            RecordValue::Obj(s) => JsonVal::Obj(s@),
        }
    }
}

/// What strict JSON parsing makes of a raw token: `None` when the token is
/// not valid JSON, otherwise the parsed value, with composite values rendered
/// back to their canonical text.
pub uninterp spec fn json_of(s: Seq<char>) -> Option<JsonVal>;

/// Relies on `serde_json::from_str::<serde_json::Value>`, whose result
/// depends on the input characters alone, and on the `to_string` of
/// `serde_json::Number` and `serde_json::Value`, which print a value's
/// canonical JSON text.
#[verifier::external_body]
fn parse_json_token(raw: &str) -> (r: Option<RecordValue>)
    ensures
        match (r, json_of(raw@)) {
            (Some(v), Some(w)) => v@ == w,
            (None, None) => true,
            _ => false,
        },
{
    match serde_json::from_str::<serde_json::Value>(raw) {
        Err(_) => None,
        Ok(serde_json::Value::Null) => Some(RecordValue::Null),
        Ok(serde_json::Value::Bool(b)) => Some(RecordValue::Bool(b)),
        Ok(serde_json::Value::Number(n)) => Some(RecordValue::Num(n.to_string())),
        Ok(serde_json::Value::String(s)) => Some(RecordValue::Str(s)),
        Ok(v @ serde_json::Value::Array(_)) => Some(RecordValue::Arr(v.to_string())),
        Ok(v @ serde_json::Value::Object(_)) => Some(RecordValue::Obj(v.to_string())),
    }
}

/// The value a raw token encodes to: its JSON reading where it has one, the
/// token itself as a plain string otherwise.
pub open spec fn encoded(s: Seq<char>) -> JsonVal {
    match json_of(s) {
        Some(v) => v,
        None => JsonVal::Str(s),
    }
}

/// Converts one raw token into a typed value: a strict JSON parse, falling
/// back to a plain string value when the token is not valid JSON. The
/// fallback is the one intentional degrade of the tool, not an error path.
pub fn encode(raw: &str) -> (r: RecordValue)
    ensures
        r@ == encoded(raw@),
        json_of(raw@) is None ==> r@ == JsonVal::Str(raw@),
{
    match parse_json_token(raw) {
        Some(v) => v,
        None => RecordValue::Str(raw.to_owned()),
    }
}

/// The text a value is displayed as: the literal token for scalars, the
/// canonical JSON text for arrays and objects.
pub open spec fn display_text_of(v: JsonVal) -> Seq<char> {
    match v {
        JsonVal::Null => "null"@,
        JsonVal::Bool(b) => if b {
            "true"@
        } else {
            "false"@
        },
        JsonVal::Num(s) => s,
        JsonVal::Str(s) => s,
        JsonVal::Arr(s) => s,
        JsonVal::Obj(s) => s,
    }
}

/// Renders one value for display.
pub fn display_value(v: &RecordValue) -> (r: String)
    ensures
        r@ == display_text_of(v@),
{
    match v {
        RecordValue::Null => String::from_str("null"),
        RecordValue::Bool(b) => if *b {
            String::from_str("true")
        } else {
            String::from_str("false")
        },
        RecordValue::Num(s) => s.clone(),
        RecordValue::Str(s) => s.clone(),
        RecordValue::Arr(s) => s.clone(),
        RecordValue::Obj(s) => s.clone(),
    }
}

/// The canonical JSON text of a value as it stands inside a request body:
/// strings are quoted and escaped, every other kind already is (or carries)
/// its canonical text.
pub open spec fn json_text_of(v: JsonVal) -> Seq<char> {
    match v {
        JsonVal::Null => "null"@,
        JsonVal::Bool(b) => if b {
            "true"@
        } else {
            "false"@
        },
        JsonVal::Num(s) => s,
        JsonVal::Str(s) => quoted(s),
        JsonVal::Arr(s) => s,
        JsonVal::Obj(s) => s,
    }
}

/// Appends the canonical JSON text of one value to `out`.
pub fn append_json_value(out: &mut String, v: &RecordValue)
    ensures
        final(out)@ == old(out)@ + json_text_of(v@),
{
    match v {
        RecordValue::Null => out.append("null"),
        RecordValue::Bool(b) => if *b {
            out.append("true")
        } else {
            out.append("false")
        },
        RecordValue::Num(s) => out.append(s.as_str()),
        RecordValue::Str(s) => append_quoted(out, s.as_str()),
        RecordValue::Arr(s) => out.append(s.as_str()),
        RecordValue::Obj(s) => out.append(s.as_str()),
    }
}

} // verus!
