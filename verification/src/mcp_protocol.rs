//! MCP requests and responses, and channel notifications.
use crate::decimal::decimal_int;
use crate::json::{
    field_models, lists_texts, opt_json, or_null, text_list_holds_its_texts, Fields, Json,
    JsonModel,
};
use crate::json_text::{compact, compact_text, line_text, write_line};
use crate::message::{lookup_absent, lookup_steps, BusMessage, MessageModel};
use crate::text::{cat, cat3, chars_of, texts};
use vstd::prelude::*;
use vstd::string::*;

verus! {

// ─── Requests and responses ─────────────────────────────────────────────────

/// A request.
#[derive(Debug, PartialEq)]
pub struct Request {
    pub id: Option<Json>,
    pub method: String,
    pub params: Option<Json>,
}

/// A response: a result or an error.
#[derive(Debug, PartialEq)]
pub struct Response {
    pub id: Option<Json>,
    pub result: Option<Json>,
    pub error: Option<Json>,
}

/// The contents of a response.
pub struct ReplyModel {
    pub id: Option<JsonModel>,
    pub result: Option<JsonModel>,
    pub error: Option<JsonModel>,
}

impl View for Response {
    type V = ReplyModel;

    open spec fn view(&self) -> ReplyModel {
        ReplyModel {
            id: opt_json(self.id),
            result: opt_json(self.result),
            error: opt_json(self.error),
        }
    }
}

/// A response with a result.
pub open spec fn ok_reply(id: Option<JsonModel>, result: JsonModel) -> ReplyModel {
    ReplyModel { id, result: Some(result), error: None }
}

/// A response with an error.
pub open spec fn err_reply(id: Option<JsonModel>, code: int, message: Seq<char>) -> ReplyModel {
    ReplyModel {
        id,
        result: None,
        error: Some(
            JsonModel::Object(
                seq![
                    ("code"@, JsonModel::Number(code)),
                    ("message"@, JsonModel::Text(message)),
                ],
            ),
        ),
    }
}

/// The field `key`, where there is a value for it.
pub open spec fn value_part(key: Seq<char>, o: Option<JsonModel>) -> Seq<(Seq<char>, JsonModel)> {
    match o {
        Some(v) => seq![(key, v)],
        None => Seq::empty(),
    }
}

/// The JSON form of a response.
pub open spec fn reply_json(m: ReplyModel) -> JsonModel {
    JsonModel::Object(
        seq![("jsonrpc"@, JsonModel::Text("2.0"@))] + value_part("id"@, m.id) + value_part(
            "result"@,
            m.result,
        ) + value_part("error"@, m.error),
    )
}

impl Response {
    /// A response with a result.
    pub fn ok(id: Option<Json>, result: Json) -> (r: Response)
        ensures
            r@ == ok_reply(opt_json(id), result@),
    {
        Response { id, result: Some(result), error: None }
    }

    /// A response with an error.
    pub fn err(id: Option<Json>, code: i32, message: &str) -> (r: Response)
        ensures
            r@ == err_reply(opt_json(id), code as int, message@),
    {
        let mut f = Fields::new();
        f.put("code", Json::Number(code as i128));
        f.put_text("message", message);
        assert(f@ =~= err_reply(None, code as int, message@).error->0->Object_0);
        Response { id, result: None, error: Some(f.object()) }
    }

    /// The JSON form of the response.
    pub fn to_json(&self) -> (r: Json)
        ensures
            r@ == reply_json(self@),
    {
        let mut f = Fields::new();
        f.put_text("jsonrpc", "2.0");
        match &self.id {
            Some(v) => {
                f.put("id", v.copy());
            },
            None => {},
        }
        match &self.result {
            Some(v) => {
                f.put("result", v.copy());
            },
            None => {},
        }
        match &self.error {
            Some(v) => {
                f.put("error", v.copy());
            },
            None => {},
        }
        assert(f@ =~= reply_json(self@)->Object_0);
        f.object()
    }
}

// ─── Server mode ────────────────────────────────────────────────────────────

/// The mode of the server.
#[derive(Debug, Clone, Copy, PartialEq, Eq)]
pub enum ServerMode {
    /// Tools only.
    Plain,
    /// Tools, and Telegram messages as channel notifications.
    Channel,
}

impl ServerMode {
    /// The name of the server in this mode.
    pub open spec fn name(self) -> Seq<char> {
        match self {
            ServerMode::Plain => "deskd"@,
            ServerMode::Channel => "deskd-telegram"@,
        }
    }

    /// The name of the server in this mode.
    pub fn server_name(self) -> (r: &'static str)
        ensures
            r@ == self.name(),
    {
        match self {
            ServerMode::Plain => "deskd",
            ServerMode::Channel => "deskd-telegram",
        }
    }
}

/// What the model is told of the channel.
pub const CHANNEL_INSTRUCTIONS: &'static str =
    "Telegram messages arrive as <channel source=\"deskd-telegram\" chat_id=\"...\" user_id=\"...\">body</channel>. To reply, call the `reply` tool with the chat_id from the tag and the message text.";

/// The version of the protocol.
pub const PROTOCOL_VERSION: &'static str = "2024-11-05";

/// An object without fields.
pub open spec fn empty_object() -> JsonModel {
    JsonModel::Object(Seq::empty())
}

/// The result of `initialize`. Only the channel mode declares the channel and
/// gives instructions. `runtime` names the client that has the channel.
pub open spec fn initialize_result(
    mode: ServerMode,
    version: Seq<char>,
    runtime: Seq<char>,
) -> JsonModel {
    let channel = mode == ServerMode::Channel;
    JsonModel::Object(
        seq![
            ("protocolVersion"@, JsonModel::Text(PROTOCOL_VERSION@)),
            (
                "capabilities"@,
                JsonModel::Object(
                    seq![("tools"@, empty_object())] + (if channel {
                        seq![
                            (
                                "experimental"@,
                                JsonModel::Object(
                                    seq![(runtime + "/channel"@, empty_object())],
                                ),
                            ),
                        ]
                    } else {
                        Seq::empty()
                    }),
                ),
            ),
            (
                "serverInfo"@,
                JsonModel::Object(
                    seq![
                        ("name"@, JsonModel::Text(mode.name())),
                        ("version"@, JsonModel::Text(version)),
                    ],
                ),
            ),
        ] + (if channel {
            seq![("instructions"@, JsonModel::Text(CHANNEL_INSTRUCTIONS@))]
        } else {
            Seq::empty()
        }),
    )
}

/// The response to `initialize`.
pub fn handle_initialize(id: Option<Json>, mode: ServerMode, version: &str, runtime: &str) -> (r:
    Response)
    ensures
        r@ == ok_reply(opt_json(id), initialize_result(mode, version@, runtime@)),
{
    let channel: bool = match mode {
        ServerMode::Channel => true,
        ServerMode::Plain => false,
    };
    let ghost expected = initialize_result(mode, version@, runtime@);
    let mut capabilities = Fields::new();
    capabilities.put("tools", Fields::new().object());
    if channel {
        let mut experimental = Fields::new();
        experimental.put(&cat(runtime, "/channel"), Fields::new().object());
        assert(experimental@ =~= seq![(runtime@ + "/channel"@, empty_object())]);
        capabilities.put("experimental", experimental.object());
    }
    assert(capabilities@ =~= expected->Object_0[1].1->Object_0);
    let mut info = Fields::new();
    info.put_text("name", mode.server_name());
    info.put_text("version", version);
    assert(info@ =~= expected->Object_0[2].1->Object_0);
    let mut f = Fields::new();
    f.put_text("protocolVersion", PROTOCOL_VERSION);
    f.put("capabilities", capabilities.object());
    f.put("serverInfo", info.object());
    if channel {
        f.put_text("instructions", CHANNEL_INSTRUCTIONS);
    }
    assert(f@ =~= expected->Object_0);
    Response::ok(id, f.object())
}

/// What the channel listener subscribes to: the agent, the replies to it and, in
/// the channel mode, all Telegram chats.
pub open spec fn listener_subscriptions(agent: Seq<char>, mode: ServerMode) -> Seq<Seq<char>> {
    seq!["agent:"@ + agent, "reply:"@ + agent + ":*"@] + (if mode == ServerMode::Channel {
        seq!["telegram.in:*"@]
    } else {
        Seq::empty()
    })
}

/// The line of a response.
pub fn write_response(resp: &Response) -> (r: String)
    ensures
        r@ == line_text(reply_json(resp@)),
{
    write_line(&resp.to_json())
}

/// The registration of a client on the bus.
pub open spec fn register_model(name: Seq<char>, subscriptions: Seq<Seq<char>>) -> JsonModel {
    JsonModel::Object(
        seq![
            ("type"@, JsonModel::Text("register"@)),
            ("name"@, JsonModel::Text(name)),
            ("subscriptions"@, crate::json::text_list_model(subscriptions)),
        ],
    )
}

/// The registration of a client on the bus.
pub fn register(name: &str, subscriptions: &Vec<String>) -> (r: Json)
    ensures
        r@ == register_model(name@, texts(subscriptions@)),
{
    let mut f = Fields::new();
    f.put_text("type", "register");
    f.put_text("name", name);
    f.put("subscriptions", Json::texts(subscriptions));
    assert(f@ =~= register_model(name@, texts(subscriptions@))->Object_0);
    f.object()
}

/// The registration of the channel listener on the bus.
pub fn connect_bus_listener(agent_name: &str, mode: ServerMode) -> (r: Json)
    ensures
        r@ == register_model(
            agent_name@ + "-mcp-channel"@,
            listener_subscriptions(agent_name@, mode),
        ),
{
    let mut subscriptions: Vec<String> = Vec::new();
    subscriptions.push(cat("agent:", agent_name));
    subscriptions.push(cat3("reply:", agent_name, ":*"));
    match mode {
        ServerMode::Channel => {
            subscriptions.push(String::from_str("telegram.in:*"));
        },
        ServerMode::Plain => {},
    }
    assert(texts(subscriptions@) =~= listener_subscriptions(agent_name@, mode));
    register(&cat(agent_name, "-mcp-channel"), &subscriptions)
}

// ─── Channel notifications ──────────────────────────────────────────────────

/// Whether a character may stand in a key of channel metadata.
pub open spec fn is_key_char(c: char) -> bool {
    'a' <= c <= 'z' || 'A' <= c <= 'Z' || '0' <= c <= '9' || c == '_'
}

/// Whether a key of channel metadata is an identifier of ASCII letters, digits
/// and underscores.
pub open spec fn valid_key(key: Seq<char>) -> bool {
    key.len() > 0 && forall|i: int| 0 <= i < key.len() ==> is_key_char(#[trigger] key[i])
}

/// Whether a key of channel metadata is an identifier.
pub fn is_valid_meta_key(key: &str) -> (r: bool)
    ensures
        r == valid_key(key@),
{
    let chars = chars_of(key);
    if chars.len() == 0 {
        return false;
    }
    let mut i: usize = 0;
    while i < chars.len()
        invariant
            i <= chars@.len(),
            chars@ == key@,
            chars@.len() > 0,
            forall|j: int| 0 <= j < i ==> is_key_char(#[trigger] key@[j]),
        decreases chars@.len() - i,
    {
        let c = chars[i];
        let good: bool = (c >= 'a' && c <= 'z') || (c >= 'A' && c <= 'Z') || (c >= '0' && c <= '9')
            || c == '_';
        if !good {
            assert(!is_key_char(key@[i as int]));
            return false;
        }
        i += 1;
    }
    true
}

/// A value as text: none for null.
pub open spec fn value_text(v: JsonModel) -> Option<Seq<char>> {
    match v {
        JsonModel::Null => None,
        JsonModel::Text(t) => Some(t),
        JsonModel::Bool(b) => Some(if b { "true"@ } else { "false"@ }),
        JsonModel::Number(n) => Some(decimal_int(n)),
        _ => Some(compact_text(v)),
    }
}

/// A value as text: none for null.
pub fn value_to_string(v: &Json) -> (r: Option<String>)
    ensures
        crate::text::opt_text(r) == value_text(v@),
{
    match v {
        Json::Null => None,
        Json::Text(t) => Some(t.clone()),
        Json::Bool(b) => Some(
            if *b {
                String::from_str("true")
            } else {
                String::from_str("false")
            },
        ),
        Json::Number(n) => Some(crate::decimal::show_i128(*n)),
        _ => Some(compact(v)),
    }
}

/// The fields with valid keys and values other than null, with their values as
/// text.
pub open spec fn sanitized(fields: Seq<(Seq<char>, JsonModel)>) -> Seq<(Seq<char>, JsonModel)>
    decreases fields.len(),
{
    if fields.len() == 0 {
        Seq::empty()
    } else {
        let head = sanitized(fields.drop_last());
        let (key, value) = fields.last();
        match value_text(value) {
            Some(t) => if valid_key(key) {
                head.push((key, JsonModel::Text(t)))
            } else {
                head
            },
            None => head,
        }
    }
}

/// Every key that is left is an identifier, and every value is a text.
pub proof fn sanitized_metadata_is_clean(fields: Seq<(Seq<char>, JsonModel)>)
    ensures
        forall|i: int|
            0 <= i < sanitized(fields).len() ==> valid_key((#[trigger] sanitized(fields)[i]).0)
                && sanitized(fields)[i].1 is Text,
    decreases fields.len(),
{
    if fields.len() > 0 {
        sanitized_metadata_is_clean(fields.drop_last());
    }
}

/// The fields with valid keys and values other than null, with their values as
/// text.
pub fn sanitize_meta(input: &Vec<(String, Json)>) -> (r: Vec<(String, Json)>)
    ensures
        field_models(r@) == sanitized(field_models(input@)),
{
    let ghost all = field_models(input@);
    let mut out: Vec<(String, Json)> = Vec::new();
    let mut i: usize = 0;
    assert(field_models(out@) =~= sanitized(all.take(0)));
    while i < input.len()
        invariant
            i <= input@.len(),
            all == field_models(input@),
            field_models(out@) == sanitized(all.take(i as int)),
        decreases input@.len() - i,
    {
        let ghost before = field_models(out@);
        assert(all.take(i + 1).drop_last() =~= all.take(i as int));
        assert(all.take(i + 1).last() == (input@[i as int].0@, input@[i as int].1@));
        if is_valid_meta_key(&input[i].0) {
            match value_to_string(&input[i].1) {
                Some(t) => {
                    let key = input[i].0.clone();
                    out.push((key, Json::Text(t)));
                    assert(field_models(out@) =~= before.push(
                        (input@[i as int].0@, JsonModel::Text(t@)),
                    ));
                },
                None => {},
            }
        }
        i += 1;
    }
    assert(all.take(i as int) =~= all);
    out
}

/// The text of the field `key`, where there is one that is not empty.
pub open spec fn nonempty_text(payload: JsonModel, key: Seq<char>) -> Option<Seq<char>> {
    match payload.text_field(key) {
        Some(t) => if t.len() > 0 {
            Some(t)
        } else {
            None
        },
        None => None,
    }
}

/// The content of a message: the first of its texts that is not empty, else the
/// whole payload as JSON.
pub open spec fn content_of(payload: JsonModel) -> Seq<char> {
    match nonempty_text(payload, "task"@) {
        Some(t) => t,
        None => match nonempty_text(payload, "result"@) {
            Some(t) => t,
            None => match nonempty_text(payload, "text"@) {
                Some(t) => t,
                None => match nonempty_text(payload, "message"@) {
                    Some(t) => t,
                    None => compact_text(payload),
                },
            },
        },
    }
}

fn read_nonempty<'a>(payload: &'a Json, key: &str) -> (r: Option<&'a str>)
    ensures
        crate::text::opt_str(r) == nonempty_text(payload@, key@),
{
    match payload.text_field(key) {
        Some(t) => if t.is_empty() {
            None
        } else {
            Some(t)
        },
        None => None,
    }
}

/// The content of a message.
pub fn extract_content(msg: &BusMessage) -> (r: String)
    ensures
        r@ == content_of(msg.payload@),
{
    match read_nonempty(&msg.payload, "task") {
        Some(t) => {
            return String::from_str(t);
        },
        None => {},
    }
    match read_nonempty(&msg.payload, "result") {
        Some(t) => {
            return String::from_str(t);
        },
        None => {},
    }
    match read_nonempty(&msg.payload, "text") {
        Some(t) => {
            return String::from_str(t);
        },
        None => {},
    }
    match read_nonempty(&msg.payload, "message") {
        Some(t) => String::from_str(t),
        None => compact(&msg.payload),
    }
}

/// The text of a value that may be missing, as a field.
pub open spec fn text_field_of(key: Seq<char>, v: JsonModel) -> Seq<(Seq<char>, JsonModel)> {
    match value_text(v) {
        Some(t) => seq![(key, JsonModel::Text(t))],
        None => Seq::empty(),
    }
}

/// The metadata of a message before it is sanitized.
pub open spec fn raw_metadata(m: MessageModel) -> Seq<(Seq<char>, JsonModel)> {
    text_field_of("chat_id"@, m.payload.at("telegram_chat_id"@)) + text_field_of(
        "user_id"@,
        m.payload.at("telegram_sender"@).at("id"@),
    ) + (match nonempty_text(m.payload, "telegram_chat_name"@) {
        Some(t) => seq![("chat_name"@, JsonModel::Text(t))],
        None => Seq::empty(),
    }) + text_field_of("message_id"@, m.payload.at("telegram_message_id"@)) + seq![
        ("source"@, JsonModel::Text(m.source)),
        ("target"@, JsonModel::Text(m.target)),
        ("bus_id"@, JsonModel::Text(m.id)),
    ]
}

/// The channel notification of a message, for the client that `runtime` names.
pub open spec fn notification_model(m: MessageModel, runtime: Seq<char>) -> JsonModel {
    JsonModel::Object(
        seq![
            ("jsonrpc"@, JsonModel::Text("2.0"@)),
            ("method"@, JsonModel::Text("notifications/"@ + runtime + "/channel"@)),
            (
                "params"@,
                JsonModel::Object(
                    seq![
                        ("content"@, JsonModel::Text(content_of(m.payload))),
                        ("meta"@, JsonModel::Object(sanitized(raw_metadata(m)))),
                    ],
                ),
            ),
        ],
    )
}

fn push_value(out: &mut Vec<(String, Json)>, key: &str, v: Option<&Json>)
    ensures
        field_models(final(out)@) == field_models(old(out)@) + text_field_of(key@, or_null(v)),
{
    let ghost before = field_models(out@);
    match v {
        Some(value) => match value_to_string(value) {
            Some(t) => {
                out.push((String::from_str(key), Json::Text(t)));
                assert(field_models(out@) =~= before + text_field_of(key@, or_null(v)));
            },
            None => {
                assert(field_models(out@) =~= before + text_field_of(key@, or_null(v)));
            },
        },
        None => {
            assert(field_models(out@) =~= before + text_field_of(key@, or_null(v)));
        },
    }
}

fn push_text(out: &mut Vec<(String, Json)>, key: &str, t: &str)
    ensures
        field_models(final(out)@) == field_models(old(out)@).push((key@, JsonModel::Text(t@))),
{
    let ghost before = field_models(out@);
    out.push((String::from_str(key), Json::text(t)));
    assert(field_models(out@) =~= before.push((key@, JsonModel::Text(t@))));
}

/// The channel notification of a message.
pub fn build_channel_notification(msg: &BusMessage, runtime: &str) -> (r: Json)
    ensures
        r@ == notification_model(msg@, runtime@),
{
    let payload = &msg.payload;
    let mut raw: Vec<(String, Json)> = Vec::new();
    assert(field_models(raw@) =~= Seq::<(Seq<char>, JsonModel)>::empty());
    push_value(&mut raw, "chat_id", payload.get("telegram_chat_id"));
    let sender = payload.get("telegram_sender");
    push_value(&mut raw, "user_id", crate::json::field_of(sender, "id"));
    match read_nonempty(payload, "telegram_chat_name") {
        Some(t) => {
            push_text(&mut raw, "chat_name", t);
        },
        None => {},
    }
    push_value(&mut raw, "message_id", payload.get("telegram_message_id"));
    push_text(&mut raw, "source", &msg.source);
    push_text(&mut raw, "target", &msg.target);
    push_text(&mut raw, "bus_id", &msg.id);
    assert(field_models(raw@) =~= raw_metadata(msg@));
    let meta = sanitize_meta(&raw);
    let content = extract_content(msg);
    let mut params = Fields::new();
    params.put_text("content", &content);
    params.put("meta", Json::object(meta));
    let ghost expected = notification_model(msg@, runtime@);
    assert(params@ =~= expected->Object_0[2].1->Object_0);
    let mut f = Fields::new();
    f.put_text("jsonrpc", "2.0");
    f.put_text("method", &cat3("notifications/", runtime, "/channel"));
    f.put("params", params.object());
    assert(f@ =~= expected->Object_0);
    f.object()
}

/// The line of the channel notification of a message.
pub fn emit_channel_notification(msg: &BusMessage, runtime: &str) -> (r: String)
    ensures
        r@ == line_text(notification_model(msg@, runtime@)),
{
    write_line(&build_channel_notification(msg, runtime))
}

/// What becomes of a failed write: nothing where the reader is gone, else an
/// error.
pub fn handle_write_err(broken_pipe: bool, stage: &str) -> (r: Result<(), String>)
    ensures
        if broken_pipe {
            r is Ok
        } else {
            r matches Err(e) && e@ == "channel notification "@ + stage@ + " failed"@
        },
{
    if broken_pipe {
        Ok(())
    } else {
        Err(cat3("channel notification ", stage, " failed"))
    }
}

// ─── What a response tells ──────────────────────────────────────────────────

/// A response with a result has no error, and one with an error has its code and message
/// and no result; both carry the id of the request.
pub proof fn reply_tells_its_outcome(
    id: Option<JsonModel>,
    result: JsonModel,
    code: int,
    message: Seq<char>,
)
    requires
        i64::MIN <= code <= i64::MAX,
    ensures
        reply_json(ok_reply(id, result)).get("result"@) == Some(result),
        reply_json(ok_reply(id, result)).get("error"@) is None,
        reply_json(ok_reply(id, result)).get("id"@) == id,
        reply_json(ok_reply(id, result)).text_field("jsonrpc"@) == Some("2.0"@),
        reply_json(err_reply(id, code, message)).get("result"@) is None,
        reply_json(err_reply(id, code, message)).get("id"@) == id,
        reply_json(err_reply(id, code, message)).text_field("jsonrpc"@) == Some("2.0"@),
        reply_json(err_reply(id, code, message)).at("error"@).i64_field("code"@) == Some(code),
        reply_json(err_reply(id, code, message)).at("error"@).text_field("message"@) == Some(message),
        err_reply(id, code, message).error matches Some(e) && e.i64_field("code"@) == Some(code)
            && e.text_field("message"@) == Some(message),
{
    reveal_strlit("jsonrpc");
    reveal_strlit("id");
    reveal_strlit("result");
    reveal_strlit("error");
    assert("jsonrpc"@.len() == 7 && "id"@.len() == 2 && "result"@.len() == 6 && "error"@.len() == 5);
    reveal_strlit("code");
    reveal_strlit("message");
    assert("code"@.len() == 4 && "message"@.len() == 7);
    let n: int = if id is Some {
        1
    } else {
        0
    };
    let good = reply_json(ok_reply(id, result))->Object_0;
    let bad = reply_json(err_reply(id, code, message))->Object_0;
    lookup_steps(good, "jsonrpc"@, 0);
    lookup_steps(bad, "jsonrpc"@, 0);
    if id is Some {
        lookup_steps(good, "id"@, 1);
        lookup_steps(bad, "id"@, 1);
    } else {
        lookup_absent(good, "id"@);
        lookup_absent(bad, "id"@);
    }
    lookup_steps(good, "result"@, 1 + n);
    lookup_steps(bad, "error"@, 1 + n);
    lookup_absent(good, "error"@);
    lookup_absent(bad, "result"@);
    let e = (err_reply(id, code, message).error->0)->Object_0;
    lookup_steps(e, "code"@, 0);
    lookup_steps(e, "message"@, 1);
}

/// A registration names the client and its subscriptions.
pub proof fn registration_names_the_client(name: Seq<char>, subscriptions: Seq<Seq<char>>)
    ensures
        register_model(name, subscriptions).text_field("type"@) == Some("register"@),
        register_model(name, subscriptions).text_field("name"@) == Some(name),
        lists_texts(register_model(name, subscriptions).at("subscriptions"@), subscriptions),
{
    reveal_strlit("type");
    reveal_strlit("name");
    reveal_strlit("subscriptions");
    assert("type"@.len() == 4 && "name"@.len() == 4 && "subscriptions"@.len() == 13);
    assert("type"@[0] != "name"@[0]);
    let fields = register_model(name, subscriptions)->Object_0;
    lookup_steps(fields, "type"@, 0);
    lookup_steps(fields, "name"@, 1);
    lookup_steps(fields, "subscriptions"@, 2);
    text_list_holds_its_texts(subscriptions);
}

/// The listener of an agent gets what is for the agent and the replies to it, and what
/// comes in from chats exactly where it serves a channel.
pub proof fn listeners_get_what_is_for_the_agent(agent: Seq<char>, mode: ServerMode)
    ensures
        listener_subscriptions(agent, mode).contains("agent:"@ + agent),
        listener_subscriptions(agent, mode).contains("reply:"@ + agent + ":*"@),
        mode == ServerMode::Channel ==> listener_subscriptions(agent, mode).contains(
            "telegram.in:*"@,
        ),
        mode == ServerMode::Plain ==> !listener_subscriptions(agent, mode).contains(
            "telegram.in:*"@,
        ),
{
    reveal_strlit("telegram.in:*");
    reveal_strlit("agent:");
    reveal_strlit("reply:");
    let v = listener_subscriptions(agent, mode);
    assert(v[0] == "agent:"@ + agent);
    assert(v[1] == "reply:"@ + agent + ":*"@);
    assert(v[0][0] == 'a' && v[1][0] == 'r' && "telegram.in:*"@[0] == 't');
    if mode == ServerMode::Channel {
        assert(v[2] == "telegram.in:*"@);
    }
}

/// A server says its version and which one it is; only that of a channel offers the
/// channel and says how it is used.
pub proof fn server_introduces_itself(mode: ServerMode, version: Seq<char>, runtime: Seq<char>)
    ensures
        ({
            let v = initialize_result(mode, version, runtime);
            &&& v.text_field("protocolVersion"@) == Some("2024-11-05"@)
            &&& v.at("serverInfo"@).text_field("version"@) == Some(version)
            &&& v.at("serverInfo"@).text_field("name"@) == Some(mode.name())
            &&& v.at("capabilities"@).get("tools"@) is Some
            &&& v.get("instructions"@) is Some <==> mode == ServerMode::Channel
            &&& v.at("capabilities"@).get("experimental"@) is Some <==> mode == ServerMode::Channel
            &&& mode == ServerMode::Channel ==> v.at("capabilities"@).at("experimental"@).get(
                runtime + "/channel"@,
            ) is Some
        }),
        ServerMode::Plain.name() != ServerMode::Channel.name(),
{
    reveal_strlit("protocolVersion");
    reveal_strlit("capabilities");
    reveal_strlit("serverInfo");
    reveal_strlit("instructions");
    assert("protocolVersion"@.len() == 15 && "capabilities"@.len() == 12 && "serverInfo"@.len() == 10 && "instructions"@.len() == 12);
    assert("capabilities"@[0] != "instructions"@[0]);
    reveal_strlit("name");
    reveal_strlit("version");
    assert("name"@.len() == 4 && "version"@.len() == 7);
    reveal_strlit("tools");
    reveal_strlit("experimental");
    assert("tools"@.len() == 5 && "experimental"@.len() == 12);
    reveal_strlit("deskd");
    reveal_strlit("deskd-telegram");
    assert("deskd"@.len() == 5 && "deskd-telegram"@.len() == 14);
    let fields = initialize_result(mode, version, runtime)->Object_0;
    lookup_steps(fields, "protocolVersion"@, 0);
    lookup_steps(fields, "capabilities"@, 1);
    lookup_steps(fields, "serverInfo"@, 2);
    let info = fields[2].1->Object_0;
    lookup_steps(info, "name"@, 0);
    lookup_steps(info, "version"@, 1);
    let can = fields[1].1->Object_0;
    lookup_steps(can, "tools"@, 0);
    if mode == ServerMode::Channel {
        lookup_steps(fields, "instructions"@, 3);
        lookup_steps(can, "experimental"@, 1);
        lookup_steps(can[1].1->Object_0, runtime + "/channel"@, 0);
    } else {
        lookup_absent(fields, "instructions"@);
        lookup_absent(can, "experimental"@);
    }
}

/// The content of a message is the first of its task, its result, its text and its message
/// that is not empty; a payload without them stands for itself.
pub proof fn content_is_the_first_text(payload: JsonModel, t: Seq<char>)
    requires
        t.len() > 0,
    ensures
        payload.text_field("task"@) == Some(t) ==> content_of(payload) == t,
        payload.text_field("task"@) is None && payload.text_field("result"@) == Some(t)
            ==> content_of(payload) == t,
        payload.text_field("task"@) is None && payload.text_field("result"@) is None
            && payload.text_field("text"@) == Some(t) ==> content_of(payload) == t,
        payload.text_field("task"@) is None && payload.text_field("result"@) is None
            && payload.text_field("text"@) is None && payload.text_field("message"@) == Some(t)
            ==> content_of(payload) == t,
        payload.text_field("task"@) is None && payload.text_field("result"@) is None
            && payload.text_field("text"@) is None && payload.text_field("message"@) is None
            ==> content_of(payload) == compact_text(payload),
{
}

/// A field of metadata is kept exactly where its key is valid and its value is not null;
/// the value is then its text.
pub proof fn good_metadata_is_kept(fields: Seq<(Seq<char>, JsonModel)>, key: Seq<char>, t: Seq<char>)
    ensures
        sanitized(fields).contains((key, JsonModel::Text(t))) <==> valid_key(key) && exists|i: int|
            0 <= i < fields.len() && (#[trigger] fields[i]).0 == key && value_text(fields[i].1)
                == Some(t),
    decreases fields.len(),
{
    let x = (key, JsonModel::Text(t));
    if fields.len() > 0 {
        let front = fields.drop_last();
        let head = sanitized(front);
        let out = sanitized(fields);
        good_metadata_is_kept(front, key, t);
        if out.contains(x) {
            let k = choose|k: int| 0 <= k < out.len() && out[k] == x;
            if k < head.len() {
                assert(head[k] == x);
                let i = choose|i: int|
                    0 <= i < front.len() && (#[trigger] front[i]).0 == key && value_text(front[i].1)
                        == Some(t);
                assert(fields[i] == front[i]);
            } else {
                assert(fields[fields.len() - 1] == fields.last());
            }
        }
        if valid_key(key) && exists|i: int|
            0 <= i < fields.len() && (#[trigger] fields[i]).0 == key && value_text(fields[i].1)
                == Some(t) {
            let i = choose|i: int|
                0 <= i < fields.len() && (#[trigger] fields[i]).0 == key && value_text(fields[i].1)
                    == Some(t);
            if i < front.len() {
                assert(front[i] == fields[i]);
                let k = choose|k: int| 0 <= k < head.len() && head[k] == x;
                assert(out[k] == x);
            } else {
                assert(out[out.len() - 1] == x);
            }
        }
    }
}

/// The text of a value: a text is itself, a truth value its word, a number its decimal
/// notation; null has none.
pub proof fn values_have_their_text(t: Seq<char>, n: int)
    ensures
        value_text(JsonModel::Null) is None,
        value_text(JsonModel::Text(t)) == Some(t),
        value_text(JsonModel::Bool(true)) == Some("true"@),
        value_text(JsonModel::Bool(false)) == Some("false"@),
        value_text(JsonModel::Number(n)) == Some(decimal_int(n)),
{
}

/// A notification carries the content of the message, and in its metadata who sent it, to
/// whom, under which id, and from which chat, message and user it came, where it says so.
pub proof fn notification_tells_the_message(m: MessageModel, runtime: Seq<char>)
    ensures
        ({
            let v = notification_model(m, runtime);
            let meta = v.at("params"@).at("meta"@);
            &&& v.text_field("method"@) == Some("notifications/"@ + runtime + "/channel"@)
            &&& v.text_field("jsonrpc"@) == Some("2.0"@)
            &&& v.at("params"@).text_field("content"@) == Some(content_of(m.payload))
            &&& meta matches JsonModel::Object(fields) && fields.contains(
                ("source"@, JsonModel::Text(m.source)),
            ) && fields.contains(("target"@, JsonModel::Text(m.target))) && fields.contains(
                ("bus_id"@, JsonModel::Text(m.id)),
            ) && (value_text(m.payload.at("telegram_chat_id"@)) matches Some(t)
                ==> fields.contains(("chat_id"@, JsonModel::Text(t)))) && (value_text(
                m.payload.at("telegram_message_id"@),
            ) matches Some(t) ==> fields.contains(("message_id"@, JsonModel::Text(t)))) && (
            value_text(m.payload.at("telegram_sender"@).at("id"@)) matches Some(t)
                ==> fields.contains(("user_id"@, JsonModel::Text(t))))
        }),
{
    reveal_strlit("jsonrpc");
    reveal_strlit("method");
    reveal_strlit("params");
    assert("jsonrpc"@.len() == 7 && "method"@.len() == 6 && "params"@.len() == 6);
    assert("method"@[0] != "params"@[0]);
    reveal_strlit("content");
    reveal_strlit("meta");
    assert("content"@.len() == 7 && "meta"@.len() == 4);
    let fields = notification_model(m, runtime)->Object_0;
    lookup_steps(fields, "jsonrpc"@, 0);
    lookup_steps(fields, "method"@, 1);
    lookup_steps(fields, "params"@, 2);
    let params = fields[2].1->Object_0;
    lookup_steps(params, "content"@, 0);
    lookup_steps(params, "meta"@, 1);
    raw_metadata_is_named(m);
    let raw = raw_metadata(m);
    keys_of_metadata_are_valid();
    good_metadata_is_kept(raw, "source"@, m.source);
    good_metadata_is_kept(raw, "target"@, m.target);
    good_metadata_is_kept(raw, "bus_id"@, m.id);
    if let Some(t) = value_text(m.payload.at("telegram_chat_id"@)) {
        good_metadata_is_kept(raw, "chat_id"@, t);
    }
    if let Some(t) = value_text(m.payload.at("telegram_message_id"@)) {
        good_metadata_is_kept(raw, "message_id"@, t);
    }
    if let Some(t) = value_text(m.payload.at("telegram_sender"@).at("id"@)) {
        good_metadata_is_kept(raw, "user_id"@, t);
    }
}

spec fn has_raw(raw: Seq<(Seq<char>, JsonModel)>, key: Seq<char>, t: Seq<char>) -> bool {
    exists|i: int|
        0 <= i < raw.len() && (#[trigger] raw[i]).0 == key && value_text(raw[i].1) == Some(t)
}

proof fn raw_metadata_is_named(m: MessageModel)
    ensures
        has_raw(raw_metadata(m), "source"@, m.source),
        has_raw(raw_metadata(m), "target"@, m.target),
        has_raw(raw_metadata(m), "bus_id"@, m.id),
        value_text(m.payload.at("telegram_chat_id"@)) matches Some(t) ==> has_raw(
            raw_metadata(m),
            "chat_id"@,
            t,
        ),
        value_text(m.payload.at("telegram_message_id"@)) matches Some(t) ==> has_raw(
            raw_metadata(m),
            "message_id"@,
            t,
        ),
        value_text(m.payload.at("telegram_sender"@).at("id"@)) matches Some(t) ==> has_raw(
            raw_metadata(m),
            "user_id"@,
            t,
        ),
{
    let raw = raw_metadata(m);
    let a = text_field_of("chat_id"@, m.payload.at("telegram_chat_id"@));
    let b = text_field_of("user_id"@, m.payload.at("telegram_sender"@).at("id"@));
    let c = match nonempty_text(m.payload, "telegram_chat_name"@) {
        Some(t) => seq![("chat_name"@, JsonModel::Text(t))],
        None => Seq::empty(),
    };
    let d = text_field_of("message_id"@, m.payload.at("telegram_message_id"@));
    let n = (a.len() + b.len() + c.len() + d.len()) as int;
    assert(raw[n] == ("source"@, JsonModel::Text(m.source)));
    assert(raw[n + 1] == ("target"@, JsonModel::Text(m.target)));
    assert(raw[n + 2] == ("bus_id"@, JsonModel::Text(m.id)));
    if a.len() > 0 {
        assert(raw[0] == a[0]);
    }
    if b.len() > 0 {
        assert(raw[a.len() as int] == b[0]);
    }
    if d.len() > 0 {
        assert(raw[n - 1] == d[0]);
    }
}

proof fn keys_of_metadata_are_valid()
    ensures
        valid_key("source"@),
        valid_key("target"@),
        valid_key("bus_id"@),
        valid_key("chat_id"@),
        valid_key("message_id"@),
        valid_key("user_id"@),
{
    reveal_strlit("source");
    reveal_strlit("target");
    reveal_strlit("bus_id");
    reveal_strlit("chat_id");
    reveal_strlit("message_id");
    reveal_strlit("user_id");
}

} // verus!
