//! JSON-RPC 2.0 messages.
use crate::decimal::{decimal_int, show_i64};
use crate::json::{key_texts, listed_record, opt_json, record, Fields, Json, JsonModel};
use crate::json_text::{line_text, parse, parsed_json, write_line};
use crate::message::{lookup_absent, lookup_steps, optional_text, read_optional_text};
use crate::text::{cat3, opt_text};
use vstd::prelude::*;
use vstd::string::*;

verus! {

/// A request from the client to the server.
#[derive(Debug, PartialEq)]
pub struct JsonRpcRequest {
    pub id: u64,
    pub method: String,
    pub params: Option<Json>,
}

/// The JSON form of a request.
pub open spec fn request_model(
    id: u64,
    method: Seq<char>,
    params: Option<JsonModel>,
) -> JsonModel {
    JsonModel::Object(
        seq![
            ("jsonrpc"@, JsonModel::Text("2.0"@)),
            ("id"@, JsonModel::Number(id as int)),
            ("method"@, JsonModel::Text(method)),
        ] + (match params {
            Some(p) => seq![("params"@, p)],
            None => Seq::empty(),
        }),
    )
}

impl JsonRpcRequest {
    /// A request.
    pub fn new(id: u64, method: &str, params: Option<Json>) -> (r: JsonRpcRequest)
        ensures
            r.id == id,
            r.method@ == method@,
            r.params == params,
    {
        JsonRpcRequest { id, method: String::from_str(method), params }
    }

    /// The JSON form of the request. The parameters are left out where there are
    /// none.
    pub fn to_json(&self) -> (r: Json)
        ensures
            r@ == request_model(self.id, self.method@, opt_json(self.params)),
    {
        let mut f = Fields::new();
        f.put_text("jsonrpc", "2.0");
        f.put("id", Json::uint(self.id));
        f.put_text("method", &self.method);
        match &self.params {
            Some(p) => {
                f.put("params", p.copy());
            },
            None => {},
        }
        assert(f@ =~= request_model(self.id, self.method@, opt_json(self.params))->Object_0);
        f.object()
    }
}

impl JsonRpcRequest {
    /// The request as one line: the text of its JSON form and a newline.
    pub fn to_line(&self) -> (r: String)
        ensures
            r@ == line_text(request_model(self.id, self.method@, opt_json(self.params))),
    {
        write_line(&self.to_json())
    }
}

/// An error of the server.
#[derive(Debug, PartialEq)]
pub struct JsonRpcError {
    pub code: i64,
    pub message: String,
    pub data: Option<Json>,
}

impl JsonRpcError {
    /// The error as a line of text.
    pub fn text(&self) -> (r: String)
        ensures
            r@ == "JSON-RPC error "@ + decimal_int(self.code as int) + ": "@ + self.message@,
    {
        let mut out = cat3("JSON-RPC error ", &show_i64(self.code), ": ");
        out.append(&self.message);
        out
    }
}

/// A message from the server: a response, a request of its own or a
/// notification.
#[derive(Debug, PartialEq)]
pub struct JsonRpcResponse {
    pub jsonrpc: String,
    pub id: Option<u64>,
    pub result: Option<Json>,
    pub error: Option<JsonRpcError>,
    pub method: Option<String>,
    pub params: Option<Json>,
}

/// The contents of an error.
pub struct ErrorModel {
    pub code: int,
    pub message: Seq<char>,
    pub data: Option<JsonModel>,
}

/// The contents of a message from the server.
pub struct ResponseModel {
    pub jsonrpc: Seq<char>,
    pub id: Option<int>,
    pub result: Option<JsonModel>,
    pub error: Option<ErrorModel>,
    pub method: Option<Seq<char>>,
    pub params: Option<JsonModel>,
}

impl View for JsonRpcError {
    type V = ErrorModel;

    open spec fn view(&self) -> ErrorModel {
        ErrorModel { code: self.code as int, message: self.message@, data: opt_json(self.data) }
    }
}

impl View for JsonRpcResponse {
    type V = ResponseModel;

    open spec fn view(&self) -> ResponseModel {
        ResponseModel {
            jsonrpc: self.jsonrpc@,
            id: match self.id {
                Some(n) => Some(n as int),
                None => None,
            },
            result: opt_json(self.result),
            error: match self.error {
                Some(e) => Some(e@),
                None => None,
            },
            method: opt_text(self.method),
            params: opt_json(self.params),
        }
    }
}

/// A value that may be absent or null for none.
pub open spec fn optional_value(j: JsonModel, key: Seq<char>) -> Option<JsonModel> {
    match j.get(key) {
        None => None,
        Some(JsonModel::Null) => None,
        Some(v) => Some(v),
    }
}

/// The keys of an error, in order.
pub open spec fn error_keys() -> Seq<Seq<char>> {
    seq!["code"@, "message"@, "data"@]
}

/// The error that a JSON value describes.
pub open spec fn error_of(j: JsonModel) -> Option<ErrorModel> {
    let j = record(j, error_keys(), 3);
    match (j.i64_field("code"@), j.text_field("message"@)) {
        (Some(code), Some(message)) => Some(
            ErrorModel { code, message, data: optional_value(j, "data"@) },
        ),
        _ => None,
    }
}

/// The identifier of a message: absent or null for none, else an unsigned
/// number.
pub open spec fn optional_id(j: JsonModel) -> Option<Option<int>> {
    match optional_value(j, "id"@) {
        None => Some(None),
        Some(v) => match v.as_u64() {
            Some(n) => Some(Some(n)),
            None => None,
        },
    }
}

/// The error of a message: absent or null for none.
pub open spec fn optional_error(j: JsonModel) -> Option<Option<ErrorModel>> {
    match optional_value(j, "error"@) {
        None => Some(None),
        Some(v) => match error_of(v) {
            Some(e) => Some(Some(e)),
            None => None,
        },
    }
}

/// The keys of a message, in order.
pub open spec fn response_keys() -> Seq<Seq<char>> {
    seq!["jsonrpc"@, "id"@, "result"@, "error"@, "method"@, "params"@]
}

/// The message that a JSON value describes.
pub open spec fn response_of(j: JsonModel) -> Option<ResponseModel> {
    let j = record(j, response_keys(), 6);
    match (
        j.text_field("jsonrpc"@),
        optional_id(j),
        optional_error(j),
        optional_text(j, "method"@),
    ) {
        (Some(jsonrpc), Some(id), Some(error), Some(method)) => Some(
            ResponseModel {
                jsonrpc,
                id,
                result: optional_value(j, "result"@),
                error,
                method,
                params: optional_value(j, "params"@),
            },
        ),
        _ => None,
    }
}

fn read_value(j: &Json, key: &str) -> (r: Option<Json>)
    ensures
        opt_json(r) == optional_value(j@, key@),
{
    match j.get(key) {
        None => None,
        Some(v) => match v {
            Json::Null => None,
            _ => Some(v.copy()),
        },
    }
}

fn read_error(j: &Json) -> (r: Option<JsonRpcError>)
    ensures
        match r {
            Some(e) => error_of(j@) == Some(e@),
            None => error_of(j@) is None,
        },
{
    let keys: Vec<&'static str> = vec!["code", "message", "data"];
    assert(key_texts(keys@) =~= error_keys());
    let named = listed_record(j, &keys, 3);
    let j = match &named {
        Some(o) => o,
        None => j,
    };
    match (j.i64_field("code"), j.text_field("message")) {
        (Some(code), Some(message)) => Some(
            JsonRpcError { code, message: String::from_str(message), data: read_value(j, "data") },
        ),
        _ => None,
    }
}

/// The message that a line denotes.
pub open spec fn response_at(line: Seq<char>) -> Option<ResponseModel> {
    match parsed_json(line) {
        Some(j) => response_of(j),
        None => None,
    }
}

/// The message that a line denotes.
pub fn parse_response(line: &str) -> (r: Result<JsonRpcResponse, String>)
    ensures
        match response_at(line@) {
            Some(m) => r matches Ok(x) && x@ == m,
            None => r matches Err(e) && e@ == "failed to parse JSON-RPC response"@,
        },
{
    let read = match parse(line) {
        Some(j) => response_from_json(&j),
        None => None,
    };
    match read {
        Some(m) => Ok(m),
        None => Err(String::from_str("failed to parse JSON-RPC response")),
    }
}

/// The message that a JSON value describes.
pub fn response_from_json(j: &Json) -> (r: Option<JsonRpcResponse>)
    ensures
        match r {
            Some(m) => response_of(j@) == Some(m@),
            None => response_of(j@) is None,
        },
{
    let keys: Vec<&'static str> = vec!["jsonrpc", "id", "result", "error", "method", "params"];
    assert(key_texts(keys@) =~= response_keys());
    let named = listed_record(j, &keys, 6);
    let j = match &named {
        Some(o) => o,
        None => j,
    };
    let jsonrpc = match j.text_field("jsonrpc") {
        Some(t) => String::from_str(t),
        None => {
            return None;
        },
    };
    let id: Option<u64> = match read_value(j, "id") {
        None => None,
        Some(v) => match v.as_u64() {
            Some(n) => Some(n),
            None => {
                return None;
            },
        },
    };
    let error = match read_value(j, "error") {
        None => None,
        Some(v) => match read_error(&v) {
            Some(e) => Some(e),
            None => {
                return None;
            },
        },
    };
    let method = match read_optional_text(j, "method") {
        Some(o) => o,
        None => {
            return None;
        },
    };
    Some(
        JsonRpcResponse {
            jsonrpc,
            id,
            result: read_value(j, "result"),
            error,
            method,
            params: read_value(j, "params"),
        },
    )
}

/// The kinds of messages from the server.
#[derive(Debug, Clone, Copy, PartialEq, Eq)]
pub enum MessageKind {
    /// Has an identifier and a method.
    ServerRequest,
    /// Has a method and no identifier.
    Notification,
    /// Has no method.
    Response,
}

/// Whether a message from the server is of a kind.
pub open spec fn is_kind(
    resp: JsonRpcResponse,
    r: MessageKind,
) -> bool {
    r == (if resp.method is None {
        MessageKind::Response
    } else if resp.id is Some {
        MessageKind::ServerRequest
    } else {
        MessageKind::Notification
    })
}

/// The kind of a message from the server.
pub fn classify_message(resp: &JsonRpcResponse) -> (r: MessageKind)
    ensures
        is_kind(*resp, r),
{
    match (resp.id.is_some(), resp.method.is_some()) {
        (true, true) => MessageKind::ServerRequest,
        (false, true) => MessageKind::Notification,
        _ => MessageKind::Response,
    }
}

/// Whether a message from the server is a notification.
pub fn is_notification(resp: &JsonRpcResponse) -> (r: bool)
    ensures
        r == (resp.id is None && resp.method is Some),
{
    resp.id.is_none() && resp.method.is_some()
}

// ─── What a message says ────────────────────────────────────────────────────

/// A request holds its id, its method and its parameters.
pub proof fn request_holds_its_call(id: u64, method: Seq<char>, params: Option<JsonModel>)
    ensures
        request_model(id, method, params).text_field("jsonrpc"@) == Some("2.0"@),
        request_model(id, method, params).u64_field("id"@) == Some(id as int),
        request_model(id, method, params).text_field("method"@) == Some(method),
        request_model(id, method, params).get("params"@) == params,
{
    reveal_strlit("jsonrpc");
    reveal_strlit("id");
    reveal_strlit("method");
    reveal_strlit("params");
    assert("jsonrpc"@.len() == 7 && "id"@.len() == 2 && "method"@.len() == 6 && "params"@.len() == 6);
    assert("method"@[0] != "params"@[0]);
    let fields = request_model(id, method, params)->Object_0;
    lookup_steps(fields, "jsonrpc"@, 0);
    lookup_steps(fields, "id"@, 1);
    lookup_steps(fields, "method"@, 2);
    if params is Some {
        lookup_steps(fields, "params"@, 3);
    } else {
        lookup_absent(fields, "params"@);
    }
}

/// An answer is read with its id and its result, or with its error; a message with a method
/// is read with it.
pub proof fn answers_are_read(id: u64, result: JsonModel, code: i64, message: Seq<char>)
    requires
        !(result is Null),
    ensures
        response_of(
            JsonModel::Object(
                seq![
                    ("jsonrpc"@, JsonModel::Text("2.0"@)),
                    ("id"@, JsonModel::Number(id as int)),
                    ("result"@, result),
                ],
            ),
        ) == Some(
            ResponseModel {
                jsonrpc: "2.0"@,
                id: Some(id as int),
                result: Some(result),
                error: None,
                method: None,
                params: None,
            },
        ),
        error_of(
            JsonModel::Object(
                seq![
                    ("code"@, JsonModel::Number(code as int)),
                    ("message"@, JsonModel::Text(message)),
                ],
            ),
        ) == Some(ErrorModel { code: code as int, message, data: None }),
{
    reveal_strlit("jsonrpc");
    reveal_strlit("id");
    reveal_strlit("result");
    reveal_strlit("error");
    reveal_strlit("method");
    reveal_strlit("params");
    assert("jsonrpc"@.len() == 7 && "id"@.len() == 2 && "result"@.len() == 6 && "error"@.len() == 5 && "method"@.len() == 6 && "params"@.len() == 6);
    assert("result"@[0] != "method"@[0]);
    assert("result"@[0] != "params"@[0]);
    assert("method"@[0] != "params"@[0]);
    reveal_strlit("code");
    reveal_strlit("message");
    reveal_strlit("data");
    assert("code"@.len() == 4 && "message"@.len() == 7 && "data"@.len() == 4);
    assert("code"@[0] != "data"@[0]);
    let fields = seq![
        ("jsonrpc"@, JsonModel::Text("2.0"@)),
        ("id"@, JsonModel::Number(id as int)),
        ("result"@, result),
    ];
    lookup_steps(fields, "jsonrpc"@, 0);
    lookup_steps(fields, "id"@, 1);
    lookup_steps(fields, "result"@, 2);
    lookup_absent(fields, "error"@);
    lookup_absent(fields, "method"@);
    lookup_absent(fields, "params"@);
    let e = seq![
        ("code"@, JsonModel::Number(code as int)),
        ("message"@, JsonModel::Text(message)),
    ];
    lookup_steps(e, "code"@, 0);
    lookup_steps(e, "message"@, 1);
    lookup_absent(e, "data"@);
}

/// A message without a method is an answer; one with a method is a request where it has an
/// id, and else a notice.
pub proof fn kinds_follow_from_method_and_id(resp: JsonRpcResponse, r: MessageKind)
    requires
        is_kind(resp, r),
    ensures
        r == MessageKind::Response <==> resp.method is None,
        r == MessageKind::ServerRequest <==> resp.method is Some && resp.id is Some,
        r == MessageKind::Notification <==> resp.method is Some && resp.id is None,
{
}

} // verus!
