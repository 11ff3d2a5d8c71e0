//! Replies of tools, and the arguments that many tools share.
use crate::json::{Fields, Items, Json, JsonModel};
use crate::json_text::{compact_text, pretty, pretty_text};
use crate::text::{cat3, contains_spec, part_occurs};
use crate::message::lookup_steps;
use vstd::prelude::*;

verus! {

/// A successful reply with a text.
pub open spec fn text_reply(text: Seq<char>) -> JsonModel {
    JsonModel::Object(
        seq![
            (
                "content"@,
                JsonModel::List(
                    seq![
                        JsonModel::Object(
                            seq![
                                ("type"@, JsonModel::Text("text"@)),
                                ("text"@, JsonModel::Text(text)),
                            ],
                        ),
                    ],
                ),
            ),
            ("isError"@, JsonModel::Bool(false)),
        ],
    )
}

/// A successful reply with a JSON value as indented text.
pub open spec fn json_reply(v: JsonModel) -> JsonModel {
    text_reply(pretty_text(compact_text(v)))
}

/// A successful reply with a text.
pub fn reply_text(text: &str) -> (r: Json)
    ensures
        r@ == text_reply(text@),
{
    let ghost expected = text_reply(text@);
    let mut item = Fields::new();
    item.put_text("type", "text");
    item.put_text("text", text);
    assert(item@ =~= expected->Object_0[0].1->List_0[0]->Object_0);
    let mut content = Items::new();
    content.put(item.object());
    assert(content@ =~= expected->Object_0[0].1->List_0);
    let mut f = Fields::new();
    f.put("content", content.list());
    f.put("isError", Json::Bool(false));
    assert(f@ =~= expected->Object_0);
    f.object()
}

/// A successful reply with a JSON value as indented text.
pub fn reply_json(v: &Json) -> (r: Json)
    ensures
        r@ == json_reply(v@),
{
    reply_text(&pretty(v))
}

/// A required text argument: its text, or the complaint that it is missing.
pub open spec fn required(args: JsonModel, key: Seq<char>) -> Result<Seq<char>, Seq<char>> {
    match args.text_field(key) {
        Some(t) => Ok(t),
        None => Err("missing "@ + key),
    }
}

/// A required text argument.
pub(crate) fn require<'a>(args: &'a Json, key: &str) -> (r: Result<&'a str, String>)
    ensures
        match r {
            Ok(t) => required(args@, key@) == Ok::<Seq<char>, Seq<char>>(t@),
            Err(e) => required(args@, key@) == Err::<Seq<char>, Seq<char>>(e@),
        },
{
    match args.text_field(key) {
        Some(t) => Ok(t),
        None => Err(crate::text::cat("missing ", key)),
    }
}

/// A required text parameter: its text, or the complaint that it is missing.
pub open spec fn parameter(args: JsonModel, key: Seq<char>) -> Result<Seq<char>, Seq<char>> {
    match args.text_field(key) {
        Some(t) => Ok(t),
        None => Err("missing '"@ + key + "' parameter"@),
    }
}

/// A required text parameter.
pub(crate) fn require_parameter<'a>(args: &'a Json, key: &str) -> (r: Result<&'a str, String>)
    ensures
        match r {
            Ok(t) => parameter(args@, key@) == Ok::<Seq<char>, Seq<char>>(t@),
            Err(e) => parameter(args@, key@) == Err::<Seq<char>, Seq<char>>(e@),
        },
{
    match args.text_field(key) {
        Some(t) => Ok(t),
        None => Err(cat3("missing '", key, "' parameter")),
    }
}

/// A limit argument, or its default.
pub open spec fn limit_of(args: JsonModel, key: Seq<char>, default: int) -> int {
    match args.u64_field(key) {
        Some(n) => n,
        None => default,
    }
}

/// A limit argument, or its default.
pub(crate) fn read_limit(args: &Json, key: &str, default: u64) -> (r: u64)
    ensures
        r == limit_of(args@, key@, default as int),
{
    match args.u64_field(key) {
        Some(n) => n,
        None => default,
    }
}

/// A text argument, or its default.
pub open spec fn text_or(args: JsonModel, key: Seq<char>, default: Seq<char>) -> Seq<char> {
    match args.text_field(key) {
        Some(t) => t,
        None => default,
    }
}

/// A text argument, or its default.
pub(crate) fn read_text_or<'a>(args: &'a Json, key: &str, default: &'a str) -> (r: &'a str)
    ensures
        r@ == text_or(args@, key@, default@),
{
    match args.text_field(key) {
        Some(t) => t,
        None => default,
    }
}

/// A reply to a tool call holds its text and is no error.
pub proof fn reply_holds_its_text(text: Seq<char>)
    ensures
        text_reply(text).bool_field("isError"@) == Some(false),
        text_reply(text).list_field("content"@) matches Some(c) && c.len() == 1 && c[0].text_field(
            "text"@,
        ) == Some(text) && c[0].text_field("type"@) == Some("text"@),
{
    reveal_strlit("content");
    reveal_strlit("isError");
    assert("content"@.len() == 7 && "isError"@.len() == 7);
    assert("content"@[0] != "isError"@[0]);
    reveal_strlit("type");
    reveal_strlit("text");
    assert("type"@.len() == 4 && "text"@.len() == 4);
    assert("type"@[1] != "text"@[1]);
    let fields = text_reply(text)->Object_0;
    lookup_steps(fields, "content"@, 0);
    lookup_steps(fields, "isError"@, 1);
    let inner = (fields[0].1->List_0[0])->Object_0;
    lookup_steps(inner, "type"@, 0);
    lookup_steps(inner, "text"@, 1);
}

/// An argument that is given is taken, and one that is not is complained of by its name.
pub proof fn given_arguments_are_taken(args: JsonModel, key: Seq<char>, t: Seq<char>, d: Seq<char>, n: int)
    ensures
        args.text_field(key) == Some(t) ==> required(args, key) == Ok::<Seq<char>, Seq<char>>(t)
            && parameter(args, key) == Ok::<Seq<char>, Seq<char>>(t) && text_or(args, key, d) == t,
        args.text_field(key) is None ==> required(args, key) is Err && parameter(args, key) is Err
            && contains_spec(required(args, key)->Err_0, key) && contains_spec(
            parameter(args, key)->Err_0,
            key,
        ) && text_or(args, key, d) == d,
        args.u64_field(key) matches Some(m) ==> limit_of(args, key, n) == m,
        args.u64_field(key) is None ==> limit_of(args, key, n) == n,
{
    part_occurs("missing "@, key, Seq::empty());
    assert("missing "@ + key =~= "missing "@ + key + Seq::<char>::empty());
    part_occurs("missing '"@, key, "' parameter"@);
}

} // verus!
