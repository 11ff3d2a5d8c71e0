//! Routing of the requests to the MCP server.
use super::tools::{handle_tools_list, tool_list};
use crate::config::UserConfig;
use crate::json::{key_texts, listed_record, lookup, opt_json, record, Json, JsonModel};
use crate::json_text::{parse, parsed_json};
use crate::mcp_protocol::{
    err_reply, handle_initialize, initialize_result, ok_reply, reply_tells_its_outcome,
    Request, Response, ServerMode,
};
use crate::text::{cat, same, starts_with, starts_with_spec, trim, trim_spec};
use crate::message::lookup_steps;
use vstd::prelude::*;
use vstd::string::*;

verus! {

// ─── Input lines ────────────────────────────────────────────────────────────

/// What to do with a line of input.
#[derive(Debug, Clone, Copy, PartialEq, Eq)]
pub enum InputLine {
    /// Pass it over: it is blank, or a header of framed input.
    Skip,
    /// Read it as JSON.
    Read,
}

/// Whether a line of input is passed over.
pub open spec fn skipped(line: Seq<char>) -> bool {
    trim_spec(line).len() == 0 || starts_with_spec(trim_spec(line), "Content-Length:"@)
}

/// What to do with a line of input.
pub fn classify_input(line: &str) -> (r: InputLine)
    ensures
        r == (if skipped(line@) {
            InputLine::Skip
        } else {
            InputLine::Read
        }),
{
    let t = trim(line);
    if t.is_empty() || starts_with(t, "Content-Length:") {
        InputLine::Skip
    } else {
        InputLine::Read
    }
}

/// The contents of a request.
pub struct RequestModel {
    pub id: Option<JsonModel>,
    pub method: Seq<char>,
    pub params: Option<JsonModel>,
}

impl View for Request {
    type V = RequestModel;

    open spec fn view(&self) -> RequestModel {
        RequestModel {
            id: opt_json(self.id),
            method: self.method@,
            params: opt_json(self.params),
        }
    }
}

/// The keys of a request, in order.
pub open spec fn request_keys() -> Seq<Seq<char>> {
    seq!["jsonrpc"@, "id"@, "method"@, "params"@]
}

/// The request that a JSON value describes.
pub open spec fn request_of(j: JsonModel) -> Option<RequestModel> {
    let j = record(j, request_keys(), 4);
    match (j.text_field("jsonrpc"@), j.text_field("method"@)) {
        (Some(_), Some(method)) => Some(
            RequestModel {
                id: crate::jsonrpc::optional_value(j, "id"@),
                method,
                params: crate::jsonrpc::optional_value(j, "params"@),
            },
        ),
        _ => None,
    }
}

fn read_value(j: &Json, key: &str) -> (r: Option<Json>)
    ensures
        opt_json(r) == crate::jsonrpc::optional_value(j@, key@),
{
    match j.get(key) {
        None => None,
        Some(v) => match v {
            Json::Null => None,
            _ => Some(v.copy()),
        },
    }
}

impl Request {
    /// The request that a JSON value describes.
    pub fn from_json(j: &Json) -> (r: Option<Request>)
        ensures
            match r {
                Some(q) => request_of(j@) == Some(q@),
                None => request_of(j@) is None,
            },
    {
        let keys: Vec<&'static str> = vec!["jsonrpc", "id", "method", "params"];
        assert(key_texts(keys@) =~= request_keys());
        let named = listed_record(j, &keys, 4);
        let j = match &named {
            Some(o) => o,
            None => j,
        };
        match (j.text_field("jsonrpc"), j.text_field("method")) {
            (Some(_), Some(method)) => Some(
                Request {
                    id: read_value(j, "id"),
                    method: String::from_str(method),
                    params: read_value(j, "params"),
                },
            ),
            _ => None,
        }
    }
}

/// What a line of input brings.
#[derive(Debug)]
pub enum Input {
    /// Nothing.
    Skip,
    /// A text that is no request: this is the response.
    Malformed(Response),
    /// A request.
    Asks(Request),
}

/// The request that a line of input denotes.
pub open spec fn request_at(line: Seq<char>) -> Option<RequestModel> {
    match parsed_json(trim_spec(line)) {
        Some(j) => request_of(j),
        None => None,
    }
}

/// Whether `r` is what a line of input brings.
pub open spec fn brings(
    line: Seq<char>,
    r: Input,
) -> bool {
    if skipped(line) {
        r is Skip
    } else {
        match request_at(line) {
            Some(q) => r matches Input::Asks(x) && x@ == q,
            None => r matches Input::Malformed(a) && a@ == err_reply(
                None,
                -32700,
                "Parse error"@,
            ),
        }
    }
}

/// What a line of input brings.
pub fn read_input(line: &str) -> (r: Input)
    ensures
        brings(line@, r),
{
    match classify_input(line) {
        InputLine::Skip => Input::Skip,
        InputLine::Read => {
            let read = match parse(trim(line)) {
                Some(j) => Request::from_json(&j),
                None => None,
            };
            match read {
                Some(q) => Input::Asks(q),
                None => Input::Malformed(parse_error()),
            }
        },
    }
}

// ─── Tools ──────────────────────────────────────────────────────────────────

/// The tools of the server.
#[derive(Debug, Clone, Copy, PartialEq, Eq)]
pub enum Tool {
    SendMessage,
    AddPersistentAgent,
    CreateReminder,
    ListInboxes,
    ReadInbox,
    SearchInbox,
    RunGraph,
    TaskCreate,
    TaskList,
    TaskCancel,
    ListAgents,
    RemoveAgent,
    SmCreate,
    SmMove,
    SmQuery,
    UsageStats,
    A2aSend,
    A2aDiscover,
}

impl Tool {
    /// The name of the tool.
    pub open spec fn name(self) -> Seq<char> {
        match self {
            Tool::SendMessage => "send_message"@,
            Tool::AddPersistentAgent => "add_persistent_agent"@,
            Tool::CreateReminder => "create_reminder"@,
            Tool::ListInboxes => "list_inboxes"@,
            Tool::ReadInbox => "read_inbox"@,
            Tool::SearchInbox => "search_inbox"@,
            Tool::RunGraph => "run_graph"@,
            Tool::TaskCreate => "task_create"@,
            Tool::TaskList => "task_list"@,
            Tool::TaskCancel => "task_cancel"@,
            Tool::ListAgents => "list_agents"@,
            Tool::RemoveAgent => "remove_agent"@,
            Tool::SmCreate => "sm_create"@,
            Tool::SmMove => "sm_move"@,
            Tool::SmQuery => "sm_query"@,
            Tool::UsageStats => "usage_stats"@,
            Tool::A2aSend => "a2a_send"@,
            Tool::A2aDiscover => "a2a_discover"@,
        }
    }
}

/// Whether a tool has the name.
pub open spec fn is_tool_name(name: Seq<char>) -> bool {
    exists|t: Tool| #[trigger] t.name() == name
}

/// The tool with a name.
pub fn tool_named(name: &str) -> (r: Option<Tool>)
    ensures
        match r {
            Some(t) => t.name() == name@,
            None => !is_tool_name(name@),
        },
{
    if same(name, "send_message") {
        Some(Tool::SendMessage)
    } else if same(name, "add_persistent_agent") {
        Some(Tool::AddPersistentAgent)
    } else if same(name, "create_reminder") {
        Some(Tool::CreateReminder)
    } else if same(name, "list_inboxes") {
        Some(Tool::ListInboxes)
    } else if same(name, "read_inbox") {
        Some(Tool::ReadInbox)
    } else if same(name, "search_inbox") {
        Some(Tool::SearchInbox)
    } else if same(name, "run_graph") {
        Some(Tool::RunGraph)
    } else if same(name, "task_create") {
        Some(Tool::TaskCreate)
    } else if same(name, "task_list") {
        Some(Tool::TaskList)
    } else if same(name, "task_cancel") {
        Some(Tool::TaskCancel)
    } else if same(name, "list_agents") {
        Some(Tool::ListAgents)
    } else if same(name, "remove_agent") {
        Some(Tool::RemoveAgent)
    } else if same(name, "sm_create") {
        Some(Tool::SmCreate)
    } else if same(name, "sm_move") {
        Some(Tool::SmMove)
    } else if same(name, "sm_query") {
        Some(Tool::SmQuery)
    } else if same(name, "usage_stats") {
        Some(Tool::UsageStats)
    } else if same(name, "a2a_send") {
        Some(Tool::A2aSend)
    } else if same(name, "a2a_discover") {
        Some(Tool::A2aDiscover)
    } else {
        None
    }
}

/// The name that the list of tools gives for a tool.
pub open spec fn listed_name(tool: JsonModel) -> Option<Seq<char>> {
    tool.text_field("name"@)
}

proof fn tool_has_its_name(tool: JsonModel, t: Tool)
    requires
        tool is Object,
        tool->Object_0.len() > 0,
        tool->Object_0[0] == ("name"@, JsonModel::Text(t.name())),
    ensures
        listed_name(tool) == Some(t.name()),
        is_tool_name(listed_name(tool)->0),
{
    assert(lookup(tool->Object_0, "name"@) == Some(JsonModel::Text(t.name())));
}

/// Every tool of the list can be called by the name under which it is listed.
pub proof fn listed_tools_can_be_called(cfg: Option<&UserConfig>, agent: Seq<char>, i: int)
    requires
        0 <= i < tool_list(cfg, agent).len(),
    ensures
        listed_name(tool_list(cfg, agent)[i]) is Some,
        is_tool_name(listed_name(tool_list(cfg, agent)[i])->0),
{
    let all = tool_list(cfg, agent);
    let n = all.len() as int;
    if i == 0 {
        tool_has_its_name(all[i], Tool::SendMessage);
    } else if i == 1 {
        tool_has_its_name(all[i], Tool::AddPersistentAgent);
    } else if i == 2 {
        tool_has_its_name(all[i], Tool::CreateReminder);
    } else if i == 3 {
        tool_has_its_name(all[i], Tool::ListInboxes);
    } else if i == 4 {
        tool_has_its_name(all[i], Tool::ReadInbox);
    } else if i == 5 {
        tool_has_its_name(all[i], Tool::SearchInbox);
    } else if i == 6 {
        tool_has_its_name(all[i], Tool::RunGraph);
    } else if i == 7 {
        tool_has_its_name(all[i], Tool::TaskCreate);
    } else if i == 8 {
        tool_has_its_name(all[i], Tool::TaskList);
    } else if i == 9 {
        tool_has_its_name(all[i], Tool::TaskCancel);
    } else if i == 10 {
        tool_has_its_name(all[i], Tool::ListAgents);
    } else if i == 11 {
        tool_has_its_name(all[i], Tool::RemoveAgent);
    } else if i == 12 {
        tool_has_its_name(all[i], Tool::UsageStats);
    } else if i == n - 2 {
        tool_has_its_name(all[i], Tool::A2aSend);
    } else if i == n - 1 {
        tool_has_its_name(all[i], Tool::A2aDiscover);
    } else if i == 13 {
        tool_has_its_name(all[i], Tool::SmCreate);
    } else if i == 14 {
        tool_has_its_name(all[i], Tool::SmMove);
    } else {
        tool_has_its_name(all[i], Tool::SmQuery);
    }
}

/// A call of a tool.
#[derive(Debug, PartialEq)]
pub struct ToolCall {
    pub tool: Tool,
    pub args: Json,
}

/// The call of a tool that the parameters describe.
pub fn handle_tools_call(params: &Json) -> (r: Result<ToolCall, String>)
    ensures
        match params@.text_field("name"@) {
            None => r matches Err(m) && m@ == "missing tool name"@,
            Some(name) => if is_tool_name(name) {
                r matches Ok(c) && c.tool.name() == name && c.args@ == params@.at("arguments"@)
            } else {
                r matches Err(m) && m@ == "Unknown tool: "@ + name
            },
        },
{
    let name = match params.text_field("name") {
        Some(t) => t,
        None => {
            return Err(String::from_str("missing tool name"));
        },
    };
    let args = match params.get("arguments") {
        Some(v) => v.copy(),
        None => Json::Null,
    };
    match tool_named(name) {
        Some(tool) => {
            assert(is_tool_name(name@));
            Ok(ToolCall { tool, args })
        },
        None => Err(cat("Unknown tool: ", name)),
    }
}

// ─── Requests ───────────────────────────────────────────────────────────────

/// What to do with a request.
#[derive(Debug)]
pub enum Handling {
    /// Nothing: it is a notification.
    Ignore,
    /// Send this response.
    Respond(Response),
    /// Call the tool, and send its outcome as the response.
    Call(ToolCall),
}

/// Whether a request is a notification.
pub open spec fn is_notice(q: RequestModel) -> bool {
    q.id is None && starts_with_spec(q.method, "notifications/"@)
}

/// Whether `r` is what to do about a request.
pub open spec fn handles(
    req: Request,
    agent: Seq<char>,
    cfg: Option<&UserConfig>,
    mode: ServerMode,
    version: Seq<char>,
    runtime: Seq<char>,
    r: Handling,
) -> bool {
    ({
        let q = req@;
        let params = match q.params {
            Some(p) => p,
            None => JsonModel::Null,
        };
        if is_notice(q) {
            r is Ignore
        } else if q.method == "initialize"@ {
            r matches Handling::Respond(a) && a@ == ok_reply(
                q.id,
                initialize_result(mode, version, runtime),
            )
        } else if q.method == "tools/list"@ {
            r matches Handling::Respond(a) && a@ == ok_reply(
                q.id,
                JsonModel::Object(
                    seq![("tools"@, JsonModel::List(tool_list(cfg, agent)))],
                ),
            )
        } else if q.method == "tools/call"@ {
            match params.text_field("name"@) {
                None => r matches Handling::Respond(a) && a@ == err_reply(
                    q.id,
                    -32603,
                    "missing tool name"@,
                ),
                Some(name) => if is_tool_name(name) {
                    r matches Handling::Call(c) && c.tool.name() == name && c.args@
                        == params.at("arguments"@)
                } else {
                    r matches Handling::Respond(a) && a@ == err_reply(
                        q.id,
                        -32603,
                        "Unknown tool: "@ + name,
                    )
                },
            }
        } else {
            r matches Handling::Respond(a) && a@ == err_reply(
                q.id,
                -32601,
                "Method not found"@,
            )
        }
    })
}

/// What to do with a request.
pub fn handle_request(
    req: &Request,
    agent_name: &str,
    user_config: Option<&UserConfig>,
    mode: ServerMode,
    version: &str,
    runtime: &str,
) -> (r: Handling)
    ensures
        handles(*req, agent_name@, user_config, mode, version@, runtime@, r),
{
    if req.id.is_none() && starts_with(&req.method, "notifications/") {
        return Handling::Ignore;
    }
    let id = match &req.id {
        Some(v) => Some(v.copy()),
        None => None,
    };
    if same(&req.method, "initialize") {
        Handling::Respond(handle_initialize(id, mode, version, runtime))
    } else if same(&req.method, "tools/list") {
        Handling::Respond(handle_tools_list(id, agent_name, user_config))
    } else if same(&req.method, "tools/call") {
        let params = match &req.params {
            Some(p) => p.copy(),
            None => Json::Null,
        };
        match handle_tools_call(&params) {
            Ok(call) => Handling::Call(call),
            Err(e) => Handling::Respond(Response::err(id, -32603, &e)),
        }
    } else {
        Handling::Respond(Response::err(id, -32601, "Method not found"))
    }
}

/// The response to input that is no request.
pub fn parse_error() -> (r: Response)
    ensures
        r@ == err_reply(None, -32700, "Parse error"@),
{
    Response::err(None, -32700, "Parse error")
}

/// Whether `r` tells the outcome of a call.
pub open spec fn tells_outcome(
    id: Option<JsonModel>,
    outcome: Result<Json, String>,
    r: Response,
) -> bool {
    r@ == (match outcome {
        Ok(v) => ok_reply(id, v@),
        Err(e) => err_reply(id, -32603, e@),
    })
}

/// The response with the outcome of a tool.
pub fn tool_response(id: Option<Json>, outcome: Result<Json, String>) -> (r: Response)
    ensures
        tells_outcome(opt_json(id), outcome, r),
{
    match outcome {
        Ok(v) => Response::ok(id, v),
        Err(e) => Response::err(id, -32603, &e),
    }
}

// ─── What the server is for ─────────────────────────────────────────────────

/// A call of a tool is handed on with the arguments that the request gives; a call without
/// a name or with one that no tool has is answered with an error.
pub proof fn calls_reach_their_tool(
    req: Request,
    agent: Seq<char>,
    cfg: Option<&UserConfig>,
    mode: ServerMode,
    version: Seq<char>,
    runtime: Seq<char>,
    r: Handling,
    params: JsonModel,
    tool: Tool,
)
    requires
        handles(req, agent, cfg, mode, version, runtime, r),
        req@.method == "tools/call"@,
        req@.params == Some(params),
    ensures
        params.text_field("name"@) == Some(tool.name()) ==> (r matches Handling::Call(c)
            && c.tool.name() == tool.name() && c.args@ == params.at("arguments"@)),
        params.text_field("name"@) is None ==> (r matches Handling::Respond(a) && a@.error is Some
            && a@.id == req@.id),
        (params.text_field("name"@) matches Some(n) && !is_tool_name(n)) ==> (
        r matches Handling::Respond(a) && a@.error is Some && a@.result is None && a@.id == req@.id),
{
    methods_differ();
}

proof fn methods_differ()
    ensures
        "tools/call"@ != "tools/list"@,
        "tools/call"@ != "initialize"@,
        "tools/list"@ != "initialize"@,
        !starts_with_spec("tools/call"@, "notifications/"@),
        !starts_with_spec("tools/list"@, "notifications/"@),
        !starts_with_spec("initialize"@, "notifications/"@),
{
    reveal_strlit("tools/call");
    reveal_strlit("tools/list");
    reveal_strlit("initialize");
    reveal_strlit("notifications/");
    assert("tools/call"@[6] != "tools/list"@[6]);
    assert("tools/call"@[0] != "initialize"@[0]);
    assert("tools/list"@[0] != "initialize"@[0]);
    assert("notifications/"@.len() == 14 && "tools/call"@.len() == 10 && "tools/list"@.len() == 10
        && "initialize"@.len() == 10);
}

/// The list of tools is that of the agent, and the introduction that of the server; a
/// notice is not answered, and any other method is refused.
pub proof fn requests_are_answered_by_their_method(
    req: Request,
    agent: Seq<char>,
    cfg: Option<&UserConfig>,
    mode: ServerMode,
    version: Seq<char>,
    runtime: Seq<char>,
    r: Handling,
)
    requires
        handles(req, agent, cfg, mode, version, runtime, r),
    ensures
        r is Ignore <==> req@.id is None && starts_with_spec(req@.method, "notifications/"@),
        r is Call ==> req@.method == "tools/call"@,
        r matches Handling::Respond(a) ==> a@.id == req@.id && (a@.result is Some <==> a@.error is None),
        req@.method == "tools/list"@ ==> (r matches Handling::Respond(a) && (a@.result matches Some(
            v,
        ) && v.list_field("tools"@) == Some(tool_list(cfg, agent)))),
        req@.method == "initialize"@ ==> (r matches Handling::Respond(a) && a@.result == Some(
            initialize_result(mode, version, runtime),
        )),
        !(r is Ignore) && req@.method != "tools/list"@ && req@.method != "initialize"@ && req@.method
            != "tools/call"@ ==> (r matches Handling::Respond(a) && (a@.error matches Some(e)
            && e.i64_field("code"@) == Some(-32601int))),
{
    methods_differ();
    let v = JsonModel::Object(seq![("tools"@, JsonModel::List(tool_list(cfg, agent)))]);
    lookup_steps(v->Object_0, "tools"@, 0);
    reply_tells_its_outcome(req@.id, JsonModel::Null, -32601, "Method not found"@);
}

/// No two tools have the same name.
pub proof fn tools_have_names_of_their_own(t: Tool, u: Tool)
    ensures
        t.name() == u.name() ==> t == u,
{
    reveal_strlit("send_message");
    reveal_strlit("add_persistent_agent");
    reveal_strlit("create_reminder");
    reveal_strlit("list_inboxes");
    reveal_strlit("read_inbox");
    reveal_strlit("search_inbox");
    reveal_strlit("run_graph");
    reveal_strlit("task_create");
    reveal_strlit("task_list");
    reveal_strlit("task_cancel");
    reveal_strlit("list_agents");
    reveal_strlit("remove_agent");
    reveal_strlit("sm_create");
    reveal_strlit("sm_move");
    reveal_strlit("sm_query");
    reveal_strlit("usage_stats");
    reveal_strlit("a2a_send");
    reveal_strlit("a2a_discover");
    assert("send_message"@.len() == 12 && "add_persistent_agent"@.len() == 20 && "create_reminder"@.len() == 15 && "list_inboxes"@.len() == 12 && "read_inbox"@.len() == 10 && "search_inbox"@.len() == 12 && "run_graph"@.len() == 9 && "task_create"@.len() == 11 && "task_list"@.len() == 9 && "task_cancel"@.len() == 11 && "list_agents"@.len() == 11 && "remove_agent"@.len() == 12 && "sm_create"@.len() == 9 && "sm_move"@.len() == 7 && "sm_query"@.len() == 8 && "usage_stats"@.len() == 11 && "a2a_send"@.len() == 8 && "a2a_discover"@.len() == 12);
    assert("send_message"@[0] != "list_inboxes"@[0]);
    assert("send_message"@[2] != "search_inbox"@[2]);
    assert("send_message"@[0] != "remove_agent"@[0]);
    assert("send_message"@[0] != "a2a_discover"@[0]);
    assert("list_inboxes"@[0] != "search_inbox"@[0]);
    assert("list_inboxes"@[0] != "remove_agent"@[0]);
    assert("list_inboxes"@[0] != "a2a_discover"@[0]);
    assert("search_inbox"@[0] != "remove_agent"@[0]);
    assert("search_inbox"@[0] != "a2a_discover"@[0]);
    assert("run_graph"@[0] != "task_list"@[0]);
    assert("run_graph"@[0] != "sm_create"@[0]);
    assert("task_create"@[6] != "task_cancel"@[6]);
    assert("task_create"@[0] != "list_agents"@[0]);
    assert("task_create"@[0] != "usage_stats"@[0]);
    assert("task_list"@[0] != "sm_create"@[0]);
    assert("task_cancel"@[0] != "list_agents"@[0]);
    assert("task_cancel"@[0] != "usage_stats"@[0]);
    assert("list_agents"@[0] != "usage_stats"@[0]);
    assert("remove_agent"@[0] != "a2a_discover"@[0]);
    assert("sm_query"@[0] != "a2a_send"@[0]);
}

/// An empty line and a header of another framing are skipped; any other line is a request
/// or is answered as one that could not be read.
pub proof fn lines_are_requests_or_refused(line: Seq<char>, r: Input)
    requires
        brings(line, r),
    ensures
        r is Skip <==> trim_spec(line).len() == 0 || starts_with_spec(
            trim_spec(line),
            "Content-Length:"@,
        ),
        r matches Input::Asks(q) ==> request_at(line) == Some(q@),
        r matches Input::Malformed(a) ==> request_at(line) is None && (a@.error matches Some(e)
            && e.i64_field("code"@) == Some(-32700int)) && a@.id is None,
{
    reply_tells_its_outcome(None, JsonModel::Null, -32700, "Parse error"@);
}

/// A request is its method, its parameters and its id, as they stand in the object.
pub proof fn request_is_as_written(
    method: Seq<char>,
    id: JsonModel,
    params: JsonModel,
)
    requires
        !(id is Null),
        !(params is Null),
    ensures
        request_of(
            JsonModel::Object(
                seq![
                    ("jsonrpc"@, JsonModel::Text("2.0"@)),
                    ("id"@, id),
                    ("method"@, JsonModel::Text(method)),
                    ("params"@, params),
                ],
            ),
        ) == Some(RequestModel { id: Some(id), method, params: Some(params) }),
{
    reveal_strlit("jsonrpc");
    reveal_strlit("id");
    reveal_strlit("method");
    reveal_strlit("params");
    assert("jsonrpc"@.len() == 7 && "id"@.len() == 2 && "method"@.len() == 6 && "params"@.len() == 6);
    assert("method"@[0] != "params"@[0]);
    let fields = seq![
        ("jsonrpc"@, JsonModel::Text("2.0"@)),
        ("id"@, id),
        ("method"@, JsonModel::Text(method)),
        ("params"@, params),
    ];
    lookup_steps(fields, "jsonrpc"@, 0);
    lookup_steps(fields, "id"@, 1);
    lookup_steps(fields, "method"@, 2);
    lookup_steps(fields, "params"@, 3);
}

/// The outcome of a call is its result, or an error with its text.
pub proof fn outcome_of_a_call_is_told(id: Option<JsonModel>, outcome: Result<Json, String>, r: Response)
    requires
        tells_outcome(id, outcome, r),
    ensures
        r@.id == id,
        outcome matches Ok(v) ==> r@.result == Some(v@) && r@.error is None,
        outcome matches Err(e) ==> r@.result is None && (r@.error matches Some(x) && x.text_field(
            "message"@,
        ) == Some(e@)),
{
    if let Err(e) = outcome {
        reply_tells_its_outcome(id, JsonModel::Null, -32603, e@);
    }
}

} // verus!
