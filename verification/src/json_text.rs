//! JSON values as text, written and read by `serde_json`.
use crate::json::{opt_json, Json, JsonModel};
use crate::text::is_white_space;
use serde::Deserialize;
use serde_json::{Deserializer, Value};
use vstd::prelude::*;
use vstd::string::*;
use vstd::utf8::encode_utf8;

verus! {

/// The compact text of a JSON value.
pub uninterp spec fn compact_text(v: JsonModel) -> Seq<char>;

/// The JSON value that a text denotes, or the complaint about a text that denotes
/// none.
pub uninterp spec fn json_reading(text: Seq<char>) -> Result<JsonModel, Seq<char>>;

/// The JSON value that a text denotes.
pub open spec fn parsed_json(text: Seq<char>) -> Option<JsonModel> {
    match json_reading(text) {
        Ok(v) => Some(v),
        Err(_) => None,
    }
}

/// The deepest nesting of lists and objects that `serde_json` reads.
pub const TEXT_DEPTH: u64 = 127;

/// Whether a text is how `serde_json` writes a floating-point number: it writes
/// what it reads from the text as that text again.
pub open spec fn written_float(t: Seq<char>) -> bool {
    &&& t.len() > 0
    &&& t[0] == '-' || '0' <= t[0] <= '9'
    &&& t.contains('.') || t.contains('e')
    &&& compact_text(JsonModel::Float(t)) == t
}

/// Whether a text is a line of its own: it holds no line ending and begins with
/// something.
pub open spec fn solid_line(s: Seq<char>) -> bool {
    &&& !s.contains('\n')
    &&& !s.contains('\r')
    &&& s.len() > 0
    &&& !is_white_space(s[0])
}

/// Whether a value, nested at most `depth` deep, is one that its text denotes: its
/// numbers are integers of 64 bits or written as floating-point numbers are, and
/// no object has a key twice.
pub open spec fn faithful(v: JsonModel, depth: nat) -> bool
    decreases depth,
{
    match v {
        JsonModel::Null => true,
        JsonModel::Bool(_) => true,
        JsonModel::Number(n) => i64::MIN <= n <= u64::MAX,
        JsonModel::Float(t) => written_float(t),
        JsonModel::Text(_) => true,
        JsonModel::List(items) => depth > 0 && forall|i: int|
            0 <= i < items.len() ==> faithful(#[trigger] items[i], (depth - 1) as nat),
        JsonModel::Object(fields) => {
            &&& depth > 0
            &&& forall|i: int|
                0 <= i < fields.len() ==> faithful((#[trigger] fields[i]).1, (depth - 1) as nat)
            &&& forall|i: int, j: int|
                0 <= i < j < fields.len() ==> (#[trigger] fields[i]).0 != (#[trigger] fields[j]).0
        },
    }
}

/// `serde_json::Value::to_string`, on the value with the same contents: the
/// text depends on the contents alone. Its notation is not stated, only that it is
/// a line of its own, and that `serde_json::from_str` reads back a value without
/// repeated keys that is not nested too deep, where its numbers are in range and
/// written as `serde_json` writes them. No key has a meaning of its own there:
/// `serde_json` is built without its features `raw_value` and
/// `arbitrary_precision`. It is built with `float_roundtrip`: a floating-point
/// number that it wrote is read as the same number.
#[verifier::external_body]
pub(crate) fn compact(v: &Json) -> (r: String)
    ensures
        r@ == compact_text(v@),
        solid_line(r@),
        faithful(v@, TEXT_DEPTH as nat) ==> parsed_json(r@) == Some(v@),
{
    let read = |text: &str| {
        let mut source = Deserializer::from_str(text);
        source.disable_recursion_limit();
        Value::deserialize(&mut source).unwrap_or_default()
    };
    Value::to_string(&match v {
        Json::Null => Value::Null,
        Json::Bool(b) => Value::Bool(*b),
        Json::Number(n) => read(&n.to_string()),
        Json::Float(t) => read(t),
        Json::Text(t) => Value::String(t.clone()),
        Json::List(items) => items.iter().map(|x| read(&compact(x))).collect(),
        Json::Object(fields) => fields.iter().map(|(k, x)| (k.clone(), read(&compact(x)))).collect(),
    })
}

/// `serde_json::from_str`, into the value with the same contents: what it reads, and
/// its complaint where it reads nothing, depend on the text alone. Which texts it
/// accepts is not stated, nor which of the values of a repeated key it keeps.
#[verifier::external_body]
pub(crate) fn read_text(text: &str) -> (r: Result<Json, String>)
    ensures
        match r {
            Ok(v) => json_reading(text@) == Ok::<JsonModel, Seq<char>>(v@),
            Err(e) => json_reading(text@) == Err::<JsonModel, Seq<char>>(e@),
        },
{
    let inner = |x: Value| read_text(&x.to_string());
    let pair = |(k, x)| inner(x).map(|v| (k, v));
    Ok(match serde_json::from_str(text).map_err(|e| e.to_string())? {
        Value::Null => Json::Null,
        Value::Bool(b) => Json::Bool(b),
        Value::Number(n) => n.to_string().parse().map_or(Json::Float(n.to_string()), Json::Number),
        Value::String(s) => Json::Text(s),
        Value::Array(v) => Json::List(Result::from_iter(v.into_iter().map(inner))?),
        Value::Object(m) => Json::Object(Result::from_iter(m.into_iter().map(pair))?),
    })
}

/// The JSON value that a text denotes.
pub(crate) fn parse(text: &str) -> (r: Option<Json>)
    ensures
        opt_json(r) == parsed_json(text@),
{
    match read_text(text) {
        Ok(v) => Some(v),
        Err(_) => None,
    }
}

/// The JSON value that bytes denote.
pub uninterp spec fn parsed_bytes(bytes: Seq<u8>) -> Option<JsonModel>;

/// `serde_json::from_slice`, into the value with the same contents: what it reads
/// depends on the bytes alone, and from the UTF-8 encoding of a text it reads what
/// `serde_json::from_str` reads from the text. Which bytes it accepts is not
/// stated.
#[verifier::external_body]
pub(crate) fn parse_bytes(bytes: &[u8]) -> (r: Option<Json>)
    ensures
        opt_json(r) == parsed_bytes(bytes@),
        forall|text: Seq<char>| bytes@ == encode_utf8(text) ==> opt_json(r) == parsed_json(text),
{
    match serde_json::from_slice::<Value>(bytes) {
        Ok(v) => read_text(&v.to_string()).ok(),
        Err(_) => None,
    }
}

/// The JSON value that a text denotes.
pub fn read_json(text: &str) -> (r: Option<Json>)
    ensures
        opt_json(r) == parsed_json(text@),
{
    parse(text)
}

/// The JSON value that a text denotes, or the complaint about the text.
pub fn read_json_or_complain(text: &str) -> (r: Result<Json, String>)
    ensures
        match r {
            Ok(v) => json_reading(text@) == Ok::<JsonModel, Seq<char>>(v@),
            Err(e) => json_reading(text@) == Err::<JsonModel, Seq<char>>(e@),
        },
{
    read_text(text)
}

/// The compact text of a JSON value.
pub fn write_json(v: &Json) -> (r: String)
    ensures
        r@ == compact_text(v@),
        solid_line(r@),
        faithful(v@, TEXT_DEPTH as nat) ==> parsed_json(r@) == Some(v@),
{
    compact(v)
}

/// The line of a JSON value: its compact text and a newline.
pub open spec fn line_text(v: JsonModel) -> Seq<char> {
    compact_text(v).push('\n')
}

/// The line of a JSON value: its compact text and a newline.
pub fn write_line(v: &Json) -> (r: String)
    ensures
        r@ == line_text(v@),
        solid_line(compact_text(v@)),
        r@.drop_last() == compact_text(v@),
        faithful(v@, TEXT_DEPTH as nat) ==> parsed_json(compact_text(v@)) == Some(v@),
{
    let mut line = compact(v);
    let ghost text = line@;
    line.push('\n');
    assert(line@.drop_last() =~= text);
    line
}

/// The indented form of a JSON text.
pub uninterp spec fn pretty_text(compact: Seq<char>) -> Seq<char>;

/// `serde_json::to_string_pretty`, on the value that `serde_json` reads from the
/// start of the text, however deep it is nested: depends on the text alone. Its
/// layout is not stated, only that it denotes the same value, where
/// `serde_json::from_str` reads that back from its compact text.
#[verifier::external_body]
fn indent(text: &str) -> (r: String)
    ensures
        r@ == pretty_text(text@),
        (parsed_json(text@) matches Some(v) && faithful(v, TEXT_DEPTH as nat)) ==> parsed_json(r@)
            == parsed_json(text@),
{
    let mut source = Deserializer::from_str(text);
    source.disable_recursion_limit();
    let value = Value::deserialize(&mut source).unwrap_or_default();
    serde_json::to_string_pretty(&value).unwrap_or_default()
}

/// The indented text of a JSON value.
pub fn pretty(v: &Json) -> (r: String)
    ensures
        r@ == pretty_text(compact_text(v@)),
        faithful(v@, TEXT_DEPTH as nat) ==> parsed_json(r@) == Some(v@),
{
    indent(&compact(v))
}

} // verus!
