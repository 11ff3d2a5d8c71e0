//! Requests over the bus: what they ask for, and how they are answered.
use crate::clock::{check_cron, cron_error, read_rfc3339};
use crate::config::{ScheduleAction, ScheduleDef, ScheduleModel};
use crate::ids::{is_uuid, new_id};
use crate::json::{
    text_list_holds_its_texts, text_list_model, texts_among, Fields, Json, JsonModel,
};
use crate::mcp_protocol::{register, register_model};
use crate::mcp_tools::access::{since_of, ReadInbox, SearchInbox};
use crate::mcp_tools::queue::{SmCreate, SmMove, TaskRequest};
use crate::mcp_tools::reply::{
    limit_of, parameter, read_limit, read_text_or, require_parameter, text_or,
};
use crate::message::{lookup_absent, lookup_steps, BusMessage, BusMetadata, MessageModel, DEFAULT_PRIORITY};
use crate::text::{cat, contains_spec, opt_text, part_occurs, same, texts};
use vstd::prelude::*;
use vstd::string::*;

verus! {

/// The name under which the API is on the bus.
pub const API_CLIENT_NAME: &'static str = "deskd:api";

/// The registration of the API on the bus.
pub fn registration() -> (r: Json)
    ensures
        r@ == register_model(API_CLIENT_NAME@, seq!["deskd:query"@, "deskd:command"@]),
{
    let mut topics: Vec<String> = Vec::new();
    topics.push(String::from_str("deskd:query"));
    topics.push(String::from_str("deskd:command"));
    assert(texts(topics@) =~= seq!["deskd:query"@, "deskd:command"@]);
    register(API_CLIENT_NAME, &topics)
}

/// A request: a method, its parameters, and where the answer goes.
#[derive(Debug, PartialEq)]
pub struct ApiRequest {
    pub method: String,
    pub params: Json,
    pub request_id: String,
    pub reply_target: String,
}

/// Whether a message makes a request. What the message does not state is empty.
pub open spec fn requests(msg: MessageModel, r: ApiRequest) -> bool {
    &&& r.method@ == text_or(msg.payload, "method"@, ""@)
    &&& r.params@ == (match msg.payload.get("params"@) {
        Some(p) => p,
        None => JsonModel::Object(Seq::empty()),
    })
    &&& r.request_id@ == text_or(msg.payload, "request_id"@, ""@)
    &&& r.reply_target@ == msg.source
}

/// The request that a message makes.
pub fn read_request(msg: &BusMessage) -> (r: ApiRequest)
    ensures
        requests(msg@, r),
{
    let params = match msg.payload.get("params") {
        Some(p) => p.copy(),
        None => Fields::new().object(),
    };
    ApiRequest {
        method: String::from_str(read_text_or(&msg.payload, "method", "")),
        params,
        request_id: String::from_str(read_text_or(&msg.payload, "request_id", "")),
        reply_target: msg.source.clone(),
    }
}

/// The payload of the answer to a request.
pub open spec fn answer_payload(
    method: Seq<char>,
    request_id: Seq<char>,
    outcome: Result<Json, String>,
) -> JsonModel {
    JsonModel::Object(
        seq![
            ("method"@, JsonModel::Text(method)),
            ("request_id"@, JsonModel::Text(request_id)),
            match outcome {
                Ok(v) => ("result"@, v@),
                Err(e) => ("error"@, JsonModel::Text(e@)),
            },
        ],
    )
}

/// Whether a message answers a request, under an id of its own.
pub open spec fn answers(m: MessageModel, req: ApiRequest, outcome: Result<Json, String>) -> bool {
    &&& is_uuid(m.id)
    &&& m == (MessageModel {
        id: m.id,
        source: API_CLIENT_NAME@,
        target: req.reply_target@,
        payload: answer_payload(req.method@, req.request_id@, outcome),
        reply_to: None,
        metadata: BusMetadata { priority: DEFAULT_PRIORITY, fresh: false },
    })
}

/// The answer to a request.
pub fn respond(req: &ApiRequest, outcome: Result<Json, String>) -> (r: BusMessage)
    ensures
        answers(r@, *req, outcome),
{
    let ghost expected = answer_payload(req.method@, req.request_id@, outcome);
    let mut f = Fields::new();
    f.put_text("method", &req.method);
    f.put_text("request_id", &req.request_id);
    match outcome {
        Ok(v) => {
            f.put("result", v);
        },
        Err(e) => {
            f.put_text("error", &e);
        },
    }
    assert(f@ =~= expected->Object_0);
    BusMessage {
        id: new_id(),
        source: String::from_str(API_CLIENT_NAME),
        target: req.reply_target.clone(),
        payload: f.object(),
        reply_to: None,
        metadata: BusMetadata { priority: DEFAULT_PRIORITY, fresh: false },
    }
}

/// An answer goes to the sender of the request, and names its method and its id;
/// it holds a result or an error, and never both.
pub proof fn answer_goes_back(
    msg: MessageModel,
    req: ApiRequest,
    outcome: Result<Json, String>,
    answer: MessageModel,
)
    requires
        requests(msg, req),
        answers(answer, req, outcome),
    ensures
        answer.target == msg.source,
        answer.payload.text_field("method"@) == Some(text_or(msg.payload, "method"@, ""@)),
        answer.payload.text_field("request_id"@) == Some(text_or(msg.payload, "request_id"@, ""@)),
        match outcome {
            Ok(v) => answer.payload.get("result"@) == Some(v@) && answer.payload.get(
                "error"@,
            ) is None,
            Err(e) => answer.payload.text_field("error"@) == Some(e@) && answer.payload.get(
                "result"@,
            ) is None,
        },
{
    reveal_strlit("method");
    reveal_strlit("request_id");
    reveal_strlit("result");
    reveal_strlit("error");
    assert("method"@.len() == 6 && "request_id"@.len() == 10 && "error"@.len() == 5);
    assert("result"@[0] != "method"@[0]);
    let fields = answer.payload->Object_0;
    lookup_steps(fields, "method"@, 0);
    lookup_steps(fields, "request_id"@, 1);
    match outcome {
        Ok(_) => {
            lookup_steps(fields, "result"@, 2);
            lookup_absent(fields, "error"@);
        },
        Err(_) => {
            lookup_steps(fields, "error"@, 2);
            lookup_absent(fields, "result"@);
        },
    }
}

// ─── Calls ──────────────────────────────────────────────────────────────────

/// A message to send.
#[derive(Debug, PartialEq)]
pub struct SendRequest {
    pub target: String,
    pub payload: Json,
    pub fresh: bool,
}

/// A schedule to add. `action` is the name under which its action was given.
#[derive(Debug, PartialEq)]
pub struct AddSchedule {
    pub schedule: ScheduleDef,
    pub action: String,
}

/// What a request asks for.
#[derive(Debug, PartialEq)]
pub enum ApiCall {
    AgentList,
    AgentDetail(String),
    TaskList(Option<String>),
    TaskDetail(String),
    /// The instances of a model and in a state, where these are given.
    SmList(Option<String>, Option<String>),
    SmDetail(String),
    SmModels,
    /// The usage in a period, optionally of one agent.
    UsageStats(String, Option<String>),
    ScheduleList,
    InboxList,
    InboxRead(ReadInbox),
    InboxSearch(SearchInbox),
    BusStatus,
    RoomList,
    RoomChildren(String),
    ContextStats(Option<String>),
    AgentRequests(String),
    /// The last messages of an agent, at most so many.
    AgentMessages(String, u64),
    AgentConfigList,
    SendMessage(SendRequest),
    TaskCreate(TaskRequest),
    TaskCancel(String),
    SmCreate(SmCreate),
    SmMove(SmMove),
    SmCancel(String),
    ScheduleAdd(AddSchedule),
    ScheduleRemove(u64),
}

/// The complaint that no configuration is there.
pub const NO_CONFIG: &'static str = "no user config loaded";

/// Whether an outcome is a complaint with a text.
pub open spec fn fails(r: Result<ApiCall, String>, text: Seq<char>) -> bool {
    r matches Err(e) && e@ == text
}

/// The request to read an inbox. `since` is the instant that it names.
pub open spec fn inbox_read_is(
    r: Result<ReadInbox, String>,
    params: JsonModel,
    since: Option<(i64, u32)>,
) -> bool {
    match parameter(params, "inbox"@) {
        Err(e) => r matches Err(m) && m@ == e,
        Ok(inbox) => r matches Ok(q) && q.inbox@ == inbox && q.limit == limit_of(
            params,
            "limit"@,
            50,
        ) && q.since == since,
    }
}

/// The request to read an inbox. `since` is the instant that it names.
pub fn plan_inbox_read(params: &Json, since: Option<(i64, u32)>) -> (r: Result<ReadInbox, String>)
    ensures
        inbox_read_is(r, params@, since),
{
    match require_parameter(params, "inbox") {
        Err(e) => Err(e),
        Ok(inbox) => Ok(
            ReadInbox {
                inbox: String::from_str(inbox),
                limit: read_limit(params, "limit", 50),
                since,
            },
        ),
    }
}

/// The request to read an inbox.
pub fn handle_inbox_read(params: &Json) -> (r: Result<ReadInbox, String>)
    ensures
        inbox_read_is(r, params@, since_of(params@)),
{
    let since = match params.text_field("since") {
        Some(t) => read_rfc3339(t),
        None => None,
    };
    plan_inbox_read(params, since)
}

/// The request to search inboxes.
pub open spec fn inbox_search_is(r: Result<SearchInbox, String>, params: JsonModel) -> bool {
    match parameter(params, "query"@) {
        Err(e) => r matches Err(m) && m@ == e,
        Ok(query) => r matches Ok(q) && q.query@ == query && opt_text(q.inbox)
            == params.text_field("inbox"@) && q.limit == limit_of(params, "limit"@, 50),
    }
}

fn optional(params: &Json, key: &str) -> (r: Option<String>)
    ensures
        opt_text(r) == params@.text_field(key@),
{
    match params.text_field(key) {
        Some(t) => Some(String::from_str(t)),
        None => None,
    }
}

/// The request to search inboxes.
pub fn handle_inbox_search(params: &Json) -> (r: Result<SearchInbox, String>)
    ensures
        inbox_search_is(r, params@),
{
    match require_parameter(params, "query") {
        Err(e) => Err(e),
        Ok(query) => Ok(
            SearchInbox {
                inbox: optional(params, "inbox"),
                query: String::from_str(query),
                limit: read_limit(params, "limit", 50),
            },
        ),
    }
}

/// The payload of a message to send: a text as a task, or else a payload as it
/// is.
pub open spec fn sent_payload(params: JsonModel) -> Option<JsonModel> {
    match params.text_field("text"@) {
        Some(t) => Some(JsonModel::Object(seq![("task"@, JsonModel::Text(t))])),
        None => params.get("payload"@),
    }
}

/// The message to send.
pub open spec fn send_message_is(r: Result<SendRequest, String>, params: JsonModel) -> bool {
    match (parameter(params, "target"@), sent_payload(params)) {
        (Err(e), _) => r matches Err(m) && m@ == e,
        (Ok(_), None) => r matches Err(m) && m@ == "missing 'text' or 'payload' parameter"@,
        (Ok(target), Some(payload)) => r matches Ok(q) && q.target@ == target && q.payload@
            == payload && q.fresh == (params.bool_field("fresh"@) == Some(true)),
    }
}

/// The message to send.
pub fn handle_send_message(params: &Json) -> (r: Result<SendRequest, String>)
    ensures
        send_message_is(r, params@),
{
    let target = match require_parameter(params, "target") {
        Ok(t) => t,
        Err(e) => {
            return Err(e);
        },
    };
    let payload = match params.text_field("text") {
        Some(t) => {
            let mut f = Fields::new();
            f.put_text("task", t);
            assert(f@ =~= seq![("task"@, JsonModel::Text(t@))]);
            f.object()
        },
        None => match params.get("payload") {
            Some(p) => p.copy(),
            None => {
                return Err(String::from_str("missing 'text' or 'payload' parameter"));
            },
        },
    };
    let fresh: bool = match params.bool_field("fresh") {
        Some(b) => b,
        None => false,
    };
    Ok(SendRequest { target: String::from_str(target), payload, fresh })
}

/// Whether `r` is the registration of a sender and its message.
pub open spec fn composes(
    agent: Seq<char>,
    q: SendRequest,
    r: (Json, BusMessage),
) -> bool {
    &&& r.0@ == register_model(agent + "-api-send"@, Seq::empty())
    &&& is_uuid(r.1@.id)
    &&& r.1@ == (MessageModel {
        id: r.1@.id,
        source: API_CLIENT_NAME@,
        target: q.target@,
        payload: q.payload@,
        reply_to: None,
        metadata: BusMetadata { priority: DEFAULT_PRIORITY, fresh: q.fresh },
    })
}

/// What sends a message: the registration of the sender, and the message under a
/// new id.
pub fn compose_message(agent_name: &str, q: SendRequest) -> (r: (Json, BusMessage))
    ensures
        composes(agent_name@, q, r),
{
    let none: Vec<String> = Vec::new();
    assert(texts(none@) =~= Seq::<Seq<char>>::empty());
    let reg = register(&cat(agent_name, "-api-send"), &none);
    let msg = BusMessage {
        id: new_id(),
        source: String::from_str(API_CLIENT_NAME),
        target: q.target,
        payload: q.payload,
        reply_to: None,
        metadata: BusMetadata { priority: DEFAULT_PRIORITY, fresh: q.fresh },
    };
    (reg, msg)
}

/// The task to create.
pub open spec fn task_create_is(r: Result<TaskRequest, String>, params: JsonModel) -> bool {
    match parameter(params, "description"@) {
        Err(e) => r matches Err(m) && m@ == e,
        Ok(d) => r matches Ok(t) && t.description@ == d && opt_text(t.model) == params.text_field(
            "model"@,
        ) && texts(t.labels@) == (match params.list_field("labels"@) {
            Some(items) => texts_among(items),
            None => Seq::empty(),
        }) && t.metadata@ == params.at("metadata"@),
    }
}

fn metadata_of(params: &Json) -> (r: Json)
    ensures
        r@ == params@.at("metadata"@),
{
    match params.get("metadata") {
        Some(v) => v.copy(),
        None => Json::Null,
    }
}

/// The task to create.
pub fn handle_task_create(params: &Json) -> (r: Result<TaskRequest, String>)
    ensures
        task_create_is(r, params@),
{
    let description = match require_parameter(params, "description") {
        Ok(t) => t,
        Err(e) => {
            return Err(e);
        },
    };
    let labels = match params.text_list_field("labels") {
        Some(v) => v,
        None => {
            let v: Vec<String> = Vec::new();
            assert(texts(v@) =~= Seq::<Seq<char>>::empty());
            v
        },
    };
    Ok(
        TaskRequest {
            description: String::from_str(description),
            model: optional(params, "model"),
            labels,
            metadata: metadata_of(params),
        },
    )
}

/// The state machine instance to create.
pub open spec fn sm_create_is(
    r: Result<SmCreate, String>,
    params: JsonModel,
    has_config: bool,
) -> bool {
    match (parameter(params, "model"@), parameter(params, "title"@)) {
        _ if !has_config => r matches Err(m) && m@ == NO_CONFIG@,
        (Err(e), _) => r matches Err(m) && m@ == e,
        (_, Err(e)) => r matches Err(m) && m@ == e,
        (Ok(model), Ok(title)) => r matches Ok(c) && c.model@ == model && c.title@ == title
            && c.body@ == text_or(params, "body"@, ""@) && c.metadata@ == params.at("metadata"@),
    }
}

/// The state machine instance to create.
pub fn handle_sm_create(params: &Json, has_config: bool) -> (r: Result<SmCreate, String>)
    ensures
        sm_create_is(r, params@, has_config),
{
    if !has_config {
        return Err(String::from_str(NO_CONFIG));
    }
    let model = match require_parameter(params, "model") {
        Ok(t) => t,
        Err(e) => {
            return Err(e);
        },
    };
    let title = match require_parameter(params, "title") {
        Ok(t) => t,
        Err(e) => {
            return Err(e);
        },
    };
    Ok(
        SmCreate {
            model: String::from_str(model),
            title: String::from_str(title),
            body: String::from_str(read_text_or(params, "body", "")),
            metadata: metadata_of(params),
        },
    )
}

/// The move of a state machine instance.
pub open spec fn sm_move_is(
    r: Result<SmMove, String>,
    params: JsonModel,
    has_config: bool,
) -> bool {
    match (parameter(params, "instance_id"@), parameter(params, "to_state"@)) {
        _ if !has_config => r matches Err(m) && m@ == NO_CONFIG@,
        (Err(e), _) => r matches Err(m) && m@ == e,
        (_, Err(e)) => r matches Err(m) && m@ == e,
        (Ok(id), Ok(state)) => r matches Ok(c) && c.id@ == id && c.state@ == state && opt_text(
            c.note,
        ) == params.text_field("note"@),
    }
}

/// The move of a state machine instance.
pub fn handle_sm_move(params: &Json, has_config: bool) -> (r: Result<SmMove, String>)
    ensures
        sm_move_is(r, params@, has_config),
{
    if !has_config {
        return Err(String::from_str(NO_CONFIG));
    }
    let id = match require_parameter(params, "instance_id") {
        Ok(t) => t,
        Err(e) => {
            return Err(e);
        },
    };
    let state = match require_parameter(params, "to_state") {
        Ok(t) => t,
        Err(e) => {
            return Err(e);
        },
    };
    Ok(
        SmMove {
            id: String::from_str(id),
            state: String::from_str(state),
            note: optional(params, "note"),
        },
    )
}

/// The action with a name.
pub open spec fn action_named(s: Seq<char>) -> Option<ScheduleAction> {
    if s == "raw"@ {
        Some(ScheduleAction::Raw)
    } else if s == "github_poll"@ {
        Some(ScheduleAction::GithubPoll)
    } else if s == "shell"@ {
        Some(ScheduleAction::Shell)
    } else {
        None
    }
}

/// The schedule to add. `cron_error` is the complaint about its cron expression,
/// where there is one.
pub open spec fn schedule_add_is(
    r: Result<AddSchedule, String>,
    params: JsonModel,
    has_config: bool,
    cron_error: Option<Seq<char>>,
) -> bool {
    match (parameter(params, "cron"@), parameter(params, "action"@), parameter(params, "target"@)) {
        _ if !has_config => r matches Err(m) && m@ == NO_CONFIG@,
        (Err(e), _, _) => r matches Err(m) && m@ == e,
        (_, Err(e), _) => r matches Err(m) && m@ == e,
        (_, _, Err(e)) => r matches Err(m) && m@ == e,
        (Ok(cron), Ok(action), Ok(target)) => if let Some(e) = cron_error {
            r matches Err(m) && m@ == "invalid cron expression: "@ + e
        } else {
            match action_named(action) {
                None => r matches Err(m) && m@ == "unknown schedule action: "@ + action,
                Some(a) => r matches Ok(q) && q.action@ == action && q.schedule@ == (
                ScheduleModel {
                    cron,
                    target,
                    action: a,
                    config: params.get("config"@),
                    timezone: None,
                }),
            }
        },
    }
}

/// The schedule to add. `cron_error` is the complaint about its cron expression,
/// where there is one.
pub fn plan_schedule_add(params: &Json, has_config: bool, cron_error: Option<String>) -> (r: Result<
    AddSchedule,
    String,
>)
    ensures
        schedule_add_is(r, params@, has_config, opt_text(cron_error)),
{
    if !has_config {
        return Err(String::from_str(NO_CONFIG));
    }
    let cron = match require_parameter(params, "cron") {
        Ok(t) => t,
        Err(e) => {
            return Err(e);
        },
    };
    let action = match require_parameter(params, "action") {
        Ok(t) => t,
        Err(e) => {
            return Err(e);
        },
    };
    let target = match require_parameter(params, "target") {
        Ok(t) => t,
        Err(e) => {
            return Err(e);
        },
    };
    match cron_error {
        Some(e) => {
            return Err(cat("invalid cron expression: ", &e));
        },
        None => {},
    }
    let kind: ScheduleAction = if same(action, "raw") {
        ScheduleAction::Raw
    } else if same(action, "github_poll") {
        ScheduleAction::GithubPoll
    } else if same(action, "shell") {
        ScheduleAction::Shell
    } else {
        return Err(cat("unknown schedule action: ", action));
    };
    let config = match params.get("config") {
        Some(v) => Some(v.copy()),
        None => None,
    };
    Ok(
        AddSchedule {
            schedule: ScheduleDef {
                cron: String::from_str(cron),
                target: String::from_str(target),
                action: kind,
                config,
                timezone: None,
            },
            action: String::from_str(action),
        },
    )
}

/// The complaint about the cron expression that the parameters hold.
pub open spec fn stated_cron_error(params: JsonModel) -> Option<Seq<char>> {
    match params.text_field("cron"@) {
        Some(t) => cron_error(t),
        None => None,
    }
}

/// The schedule to add.
pub fn handle_schedule_add(params: &Json, has_config: bool) -> (r: Result<AddSchedule, String>)
    ensures
        schedule_add_is(r, params@, has_config, stated_cron_error(params@)),
{
    let error = match params.text_field("cron") {
        Some(t) => check_cron(t),
        None => None,
    };
    plan_schedule_add(params, has_config, error)
}

/// The position of the schedule to remove.
pub open spec fn schedule_remove_is(
    r: Result<u64, String>,
    params: JsonModel,
    has_config: bool,
) -> bool {
    if !has_config {
        r matches Err(m) && m@ == NO_CONFIG@
    } else {
        match params.u64_field("index"@) {
            Some(n) => r matches Ok(i) && i == n,
            None => r matches Err(m) && m@ == "missing 'index' parameter"@,
        }
    }
}

/// The position of the schedule to remove.
pub fn handle_schedule_remove(params: &Json, has_config: bool) -> (r: Result<u64, String>)
    ensures
        schedule_remove_is(r, params@, has_config),
{
    if !has_config {
        return Err(String::from_str(NO_CONFIG));
    }
    match params.u64_field("index") {
        Some(n) => Ok(n),
        None => Err(String::from_str("missing 'index' parameter")),
    }
}

// ─── Dispatch ───────────────────────────────────────────────────────────────

/// Whether a call is a call with a required parameter: `made` says whether it is
/// the call with a text.
pub open spec fn called_with(
    r: Result<ApiCall, String>,
    params: JsonModel,
    key: Seq<char>,
    made: spec_fn(ApiCall, Seq<char>) -> bool,
) -> bool {
    match (parameter(params, key), r) {
        (Err(e), Err(m)) => m@ == e,
        (Ok(t), Ok(call)) => made(call, t),
        _ => false,
    }
}

/// Whether an outcome is what a query asks for. None where the method is no
/// query.
pub open spec fn query_dispatched(
    r: Result<ApiCall, String>,
    method: Seq<char>,
    params: JsonModel,
) -> Option<bool> {
    if method == "agent_list"@ {
        Some(r matches Ok(ApiCall::AgentList))
    } else if method == "agent_detail"@ {
        Some(
            called_with(
                r,
                params,
                "name"@,
                |c: ApiCall, t: Seq<char>| c matches ApiCall::AgentDetail(x) && x@ == t,
            ),
        )
    } else if method == "task_list"@ {
        Some(
            r matches Ok(ApiCall::TaskList(f)) && opt_text(f) == params.text_field(
                "status_filter"@,
            ),
        )
    } else if method == "task_detail"@ {
        Some(
            called_with(
                r,
                params,
                "id"@,
                |c: ApiCall, t: Seq<char>| c matches ApiCall::TaskDetail(x) && x@ == t,
            ),
        )
    } else if method == "sm_list"@ {
        Some(
            r matches Ok(ApiCall::SmList(m, s)) && opt_text(m) == params.text_field("model"@)
                && opt_text(s) == params.text_field("state"@),
        )
    } else if method == "sm_detail"@ {
        Some(
            called_with(
                r,
                params,
                "id"@,
                |c: ApiCall, t: Seq<char>| c matches ApiCall::SmDetail(x) && x@ == t,
            ),
        )
    } else if method == "sm_models"@ {
        Some(r matches Ok(ApiCall::SmModels))
    } else if method == "usage_stats"@ {
        Some(
            r matches Ok(ApiCall::UsageStats(p, a)) && p@ == text_or(params, "period"@, "7d"@)
                && opt_text(a) == params.text_field("agent"@),
        )
    } else if method == "schedule_list"@ {
        Some(r matches Ok(ApiCall::ScheduleList))
    } else if method == "inbox_list"@ {
        Some(r matches Ok(ApiCall::InboxList))
    } else if method == "inbox_read"@ {
        Some(
            match r {
                Ok(ApiCall::InboxRead(q)) => inbox_read_is(Ok(q), params, since_of(params)),
                Ok(_) => false,
                Err(e) => inbox_read_is(Err(e), params, since_of(params)),
            },
        )
    } else if method == "inbox_search"@ {
        Some(
            match r {
                Ok(ApiCall::InboxSearch(q)) => inbox_search_is(Ok(q), params),
                Ok(_) => false,
                Err(e) => inbox_search_is(Err(e), params),
            },
        )
    } else if method == "bus_status"@ {
        Some(r matches Ok(ApiCall::BusStatus))
    } else if method == "room_list"@ {
        Some(r matches Ok(ApiCall::RoomList))
    } else if method == "room_children"@ {
        Some(
            called_with(
                r,
                params,
                "room"@,
                |c: ApiCall, t: Seq<char>| c matches ApiCall::RoomChildren(x) && x@ == t,
            ),
        )
    } else if method == "context_stats"@ {
        Some(
            r matches Ok(ApiCall::ContextStats(a)) && opt_text(a) == params.text_field("agent"@),
        )
    } else if method == "agent_requests"@ {
        Some(
            called_with(
                r,
                params,
                "agent"@,
                |c: ApiCall, t: Seq<char>| c matches ApiCall::AgentRequests(x) && x@ == t,
            ),
        )
    } else if method == "agent_messages"@ {
        Some(
            called_with(
                r,
                params,
                "agent"@,
                |c: ApiCall, t: Seq<char>|
                    c matches ApiCall::AgentMessages(x, n) && x@ == t && n == limit_of(
                        params,
                        "limit"@,
                        50,
                    ),
            ),
        )
    } else if method == "agent_config_list"@ {
        Some(r matches Ok(ApiCall::AgentConfigList))
    } else {
        None
    }
}

/// Whether an outcome is what a command asks for. None where the method is no
/// command.
pub open spec fn command_dispatched(
    r: Result<ApiCall, String>,
    method: Seq<char>,
    params: JsonModel,
    has_config: bool,
) -> Option<bool> {
    if method == "send_message"@ {
        Some(
            match r {
                Ok(ApiCall::SendMessage(q)) => send_message_is(Ok(q), params),
                Ok(_) => false,
                Err(e) => send_message_is(Err(e), params),
            },
        )
    } else if method == "task_create"@ {
        Some(
            match r {
                Ok(ApiCall::TaskCreate(q)) => task_create_is(Ok(q), params),
                Ok(_) => false,
                Err(e) => task_create_is(Err(e), params),
            },
        )
    } else if method == "task_cancel"@ {
        Some(
            called_with(
                r,
                params,
                "id"@,
                |c: ApiCall, t: Seq<char>| c matches ApiCall::TaskCancel(x) && x@ == t,
            ),
        )
    } else if method == "sm_create"@ {
        Some(
            match r {
                Ok(ApiCall::SmCreate(q)) => sm_create_is(Ok(q), params, has_config),
                Ok(_) => false,
                Err(e) => sm_create_is(Err(e), params, has_config),
            },
        )
    } else if method == "sm_move"@ {
        Some(
            match r {
                Ok(ApiCall::SmMove(q)) => sm_move_is(Ok(q), params, has_config),
                Ok(_) => false,
                Err(e) => sm_move_is(Err(e), params, has_config),
            },
        )
    } else if method == "sm_cancel"@ {
        Some(
            called_with(
                r,
                params,
                "instance_id"@,
                |c: ApiCall, t: Seq<char>| c matches ApiCall::SmCancel(x) && x@ == t,
            ),
        )
    } else if method == "schedule_add"@ {
        Some(
            match r {
                Ok(ApiCall::ScheduleAdd(q)) => schedule_add_is(
                    Ok(q),
                    params,
                    has_config,
                    stated_cron_error(params),
                ),
                Ok(_) => false,
                Err(e) => schedule_add_is(Err(e), params, has_config, stated_cron_error(params)),
            },
        )
    } else if method == "schedule_remove"@ {
        Some(
            match r {
                Ok(ApiCall::ScheduleRemove(i)) => schedule_remove_is(Ok(i), params, has_config),
                Ok(_) => false,
                Err(e) => schedule_remove_is(Err(e), params, has_config),
            },
        )
    } else {
        None
    }
}

/// Whether an outcome is what a request asks for.
pub open spec fn dispatched(
    r: Result<ApiCall, String>,
    method: Seq<char>,
    params: JsonModel,
    has_config: bool,
) -> bool {
    match query_dispatched(r, method, params) {
        Some(b) => b,
        None => match command_dispatched(r, method, params, has_config) {
            Some(b) => b,
            None => fails(r, "unknown method: "@ + method),
        },
    }
}

fn dispatch_query(method: &str, params: &Json) -> (r: Option<Result<ApiCall, String>>)
    ensures
        match r {
            Some(c) => query_dispatched(c, method@, params@) == Some(true),
            None => forall|c: Result<ApiCall, String>|
                #[trigger] query_dispatched(c, method@, params@) is None,
        },
{
    let c: Result<ApiCall, String> = if same(method, "agent_list") {
        Ok(ApiCall::AgentList)
    } else if same(method, "agent_detail") {
        match require_parameter(params, "name") {
            Ok(t) => Ok(ApiCall::AgentDetail(String::from_str(t))),
            Err(e) => Err(e),
        }
    } else if same(method, "task_list") {
        Ok(ApiCall::TaskList(optional(params, "status_filter")))
    } else if same(method, "task_detail") {
        match require_parameter(params, "id") {
            Ok(t) => Ok(ApiCall::TaskDetail(String::from_str(t))),
            Err(e) => Err(e),
        }
    } else if same(method, "sm_list") {
        Ok(ApiCall::SmList(optional(params, "model"), optional(params, "state")))
    } else if same(method, "sm_detail") {
        match require_parameter(params, "id") {
            Ok(t) => Ok(ApiCall::SmDetail(String::from_str(t))),
            Err(e) => Err(e),
        }
    } else if same(method, "sm_models") {
        Ok(ApiCall::SmModels)
    } else if same(method, "usage_stats") {
        let period = String::from_str(read_text_or(params, "period", "7d"));
        Ok(ApiCall::UsageStats(period, optional(params, "agent")))
    } else if same(method, "schedule_list") {
        Ok(ApiCall::ScheduleList)
    } else if same(method, "inbox_list") {
        Ok(ApiCall::InboxList)
    } else if same(method, "inbox_read") {
        match handle_inbox_read(params) {
            Ok(q) => Ok(ApiCall::InboxRead(q)),
            Err(e) => Err(e),
        }
    } else if same(method, "inbox_search") {
        match handle_inbox_search(params) {
            Ok(q) => Ok(ApiCall::InboxSearch(q)),
            Err(e) => Err(e),
        }
    } else if same(method, "bus_status") {
        Ok(ApiCall::BusStatus)
    } else if same(method, "room_list") {
        Ok(ApiCall::RoomList)
    } else if same(method, "room_children") {
        match require_parameter(params, "room") {
            Ok(t) => Ok(ApiCall::RoomChildren(String::from_str(t))),
            Err(e) => Err(e),
        }
    } else if same(method, "context_stats") {
        Ok(ApiCall::ContextStats(optional(params, "agent")))
    } else if same(method, "agent_requests") {
        match require_parameter(params, "agent") {
            Ok(t) => Ok(ApiCall::AgentRequests(String::from_str(t))),
            Err(e) => Err(e),
        }
    } else if same(method, "agent_messages") {
        match require_parameter(params, "agent") {
            Ok(t) => Ok(ApiCall::AgentMessages(String::from_str(t), read_limit(params, "limit", 50))),
            Err(e) => Err(e),
        }
    } else if same(method, "agent_config_list") {
        Ok(ApiCall::AgentConfigList)
    } else {
        return None;
    };
    Some(c)
}

fn dispatch_command(method: &str, params: &Json, has_config: bool) -> (r: Option<
    Result<ApiCall, String>,
>)
    ensures
        match r {
            Some(c) => command_dispatched(c, method@, params@, has_config) == Some(true),
            None => forall|c: Result<ApiCall, String>|
                #[trigger] command_dispatched(c, method@, params@, has_config) is None,
        },
{
    let c: Result<ApiCall, String> = if same(method, "send_message") {
        match handle_send_message(params) {
            Ok(q) => Ok(ApiCall::SendMessage(q)),
            Err(e) => Err(e),
        }
    } else if same(method, "task_create") {
        match handle_task_create(params) {
            Ok(q) => Ok(ApiCall::TaskCreate(q)),
            Err(e) => Err(e),
        }
    } else if same(method, "task_cancel") {
        match require_parameter(params, "id") {
            Ok(t) => Ok(ApiCall::TaskCancel(String::from_str(t))),
            Err(e) => Err(e),
        }
    } else if same(method, "sm_create") {
        match handle_sm_create(params, has_config) {
            Ok(q) => Ok(ApiCall::SmCreate(q)),
            Err(e) => Err(e),
        }
    } else if same(method, "sm_move") {
        match handle_sm_move(params, has_config) {
            Ok(q) => Ok(ApiCall::SmMove(q)),
            Err(e) => Err(e),
        }
    } else if same(method, "sm_cancel") {
        match require_parameter(params, "instance_id") {
            Ok(t) => Ok(ApiCall::SmCancel(String::from_str(t))),
            Err(e) => Err(e),
        }
    } else if same(method, "schedule_add") {
        match handle_schedule_add(params, has_config) {
            Ok(q) => Ok(ApiCall::ScheduleAdd(q)),
            Err(e) => Err(e),
        }
    } else if same(method, "schedule_remove") {
        match handle_schedule_remove(params, has_config) {
            Ok(i) => Ok(ApiCall::ScheduleRemove(i)),
            Err(e) => Err(e),
        }
    } else {
        return None;
    };
    Some(c)
}

/// What a request asks for. `has_config` says whether the agent has a
/// configuration.
pub fn dispatch(method: &str, params: &Json, has_config: bool) -> (r: Result<ApiCall, String>)
    ensures
        dispatched(r, method@, params@, has_config),
{
    match dispatch_query(method, params) {
        Some(c) => c,
        None => match dispatch_command(method, params, has_config) {
            Some(c) => c,
            None => Err(cat("unknown method: ", method)),
        },
    }
}

// ─── What a request brings about ────────────────────────────────────────────

/// A request to send a message sends it from the API to the target of the parameters, with
/// their text as its task, or else with their payload as it is.
pub proof fn sent_message_is_as_asked(
    params: JsonModel,
    planned: Result<SendRequest, String>,
    agent: Seq<char>,
    r: (Json, BusMessage),
)
    requires
        send_message_is(planned, params),
        planned is Ok ==> composes(agent, planned->Ok_0, r),
    ensures
        planned is Ok <==> params.text_field("target"@) is Some && (params.text_field("text"@)
            is Some || params.get("payload"@) is Some),
        planned is Ok ==> Some(r.1@.target) == params.text_field("target"@) && r.1@.source
            == "deskd:api"@ && r.1@.reply_to is None && r.1@.metadata.fresh == (params.bool_field(
            "fresh"@,
        ) == Some(true)) && is_uuid(r.1@.id) && (params.text_field("text"@) is Some
            ==> r.1@.payload.text_field("task"@) == params.text_field("text"@)) && (
        params.text_field("text"@) is None ==> Some(r.1@.payload) == params.get("payload"@)),
{
    if let Some(t) = params.text_field("text"@) {
        lookup_steps(seq![("task"@, JsonModel::Text(t))], "task"@, 0);
    }
}

/// A schedule is added as its parameters say, where its cron expression is accepted and its
/// action is known.
pub proof fn added_schedule_is_as_asked(
    r: Result<AddSchedule, String>,
    params: JsonModel,
    has_config: bool,
    cron_error: Option<Seq<char>>,
)
    requires
        schedule_add_is(r, params, has_config, cron_error),
    ensures
        r is Ok <==> has_config && params.text_field("cron"@) is Some && params.text_field(
            "target"@,
        ) is Some && cron_error is None && (params.text_field("action"@) matches Some(a) && (a
            == "raw"@ || a == "github_poll"@ || a == "shell"@)),
        r matches Ok(q) ==> Some(q.schedule@.cron) == params.text_field("cron"@) && Some(
            q.schedule@.target,
        ) == params.text_field("target"@) && Some(q.action@) == params.text_field("action"@)
            && q.schedule@.config == params.get("config"@) && q.schedule@.timezone is None && (
        q.schedule@.action == ScheduleAction::Raw <==> q.action@ == "raw"@) && (q.schedule@.action
            == ScheduleAction::Shell <==> q.action@ == "shell"@),
        (has_config && params.text_field("cron"@) is Some && params.text_field("action"@) is Some
            && params.text_field("target"@) is Some && cron_error is Some) ==> (r matches Err(e)
            && contains_spec(e@, cron_error->0)),
{
    reveal_strlit("raw");
    reveal_strlit("github_poll");
    reveal_strlit("shell");
    assert("raw"@.len() == 3 && "github_poll"@.len() == 11 && "shell"@.len() == 5);
    if let Some(e) = cron_error {
        let m = "invalid cron expression: "@;
        part_occurs(m, e, Seq::empty());
        assert(m + e =~= m + e + Seq::<char>::empty());
    }
}

/// A command is carried out on what its parameters name, and without that it is refused.
pub proof fn commands_act_on_what_is_named(
    r: Result<ApiCall, String>,
    method: Seq<char>,
    params: JsonModel,
    has_config: bool,
)
    requires
        dispatched(r, method, params, has_config),
    ensures
        method == "task_cancel"@ ==> match params.text_field("id"@) {
            Some(t) => r matches Ok(ApiCall::TaskCancel(x)) && x@ == t,
            None => r is Err,
        },
        method == "sm_cancel"@ ==> match params.text_field("instance_id"@) {
            Some(t) => r matches Ok(ApiCall::SmCancel(x)) && x@ == t,
            None => r is Err,
        },
        method == "schedule_remove"@ ==> match params.u64_field("index"@) {
            Some(n) => if has_config {
                r matches Ok(ApiCall::ScheduleRemove(i)) && i == n
            } else {
                r is Err
            },
            None => r is Err,
        },
        method == "sm_move"@ ==> match (
            params.text_field("instance_id"@),
            params.text_field("to_state"@),
        ) {
            (Some(id), Some(state)) => if has_config {
                r matches Ok(ApiCall::SmMove(c)) && c.id@ == id && c.state@ == state
            } else {
                r is Err
            },
            _ => r is Err,
        },
        method == "sm_create"@ ==> match (params.text_field("model"@), params.text_field("title"@)) {
            (Some(m), Some(t)) => if has_config {
                r matches Ok(ApiCall::SmCreate(c)) && c.model@ == m && c.title@ == t
            } else {
                r is Err
            },
            _ => r is Err,
        },
        method == "task_create"@ ==> match params.text_field("description"@) {
            Some(d) => r matches Ok(ApiCall::TaskCreate(t)) && t.description@ == d,
            None => r is Err,
        },
{
    reveal_strlit("agent_list");
    reveal_strlit("agent_detail");
    reveal_strlit("task_list");
    reveal_strlit("task_detail");
    reveal_strlit("sm_list");
    reveal_strlit("sm_detail");
    reveal_strlit("sm_models");
    reveal_strlit("usage_stats");
    reveal_strlit("schedule_list");
    reveal_strlit("inbox_list");
    reveal_strlit("inbox_read");
    reveal_strlit("inbox_search");
    reveal_strlit("bus_status");
    reveal_strlit("room_list");
    reveal_strlit("room_children");
    reveal_strlit("context_stats");
    reveal_strlit("agent_requests");
    reveal_strlit("agent_messages");
    reveal_strlit("agent_config_list");
    reveal_strlit("send_message");
    reveal_strlit("task_create");
    reveal_strlit("task_cancel");
    reveal_strlit("sm_create");
    reveal_strlit("sm_move");
    reveal_strlit("sm_cancel");
    reveal_strlit("schedule_add");
    reveal_strlit("schedule_remove");
    assert("agent_list"@.len() == 10 && "agent_detail"@.len() == 12 && "task_list"@.len() == 9 && "task_detail"@.len() == 11 && "sm_list"@.len() == 7 && "sm_detail"@.len() == 9 && "sm_models"@.len() == 9 && "usage_stats"@.len() == 11 && "schedule_list"@.len() == 13 && "inbox_list"@.len() == 10 && "inbox_read"@.len() == 10 && "inbox_search"@.len() == 12 && "bus_status"@.len() == 10 && "room_list"@.len() == 9 && "room_children"@.len() == 13 && "context_stats"@.len() == 13 && "agent_requests"@.len() == 14 && "agent_messages"@.len() == 14 && "agent_config_list"@.len() == 17 && "send_message"@.len() == 12 && "task_create"@.len() == 11 && "task_cancel"@.len() == 11 && "sm_create"@.len() == 9 && "sm_move"@.len() == 7 && "sm_cancel"@.len() == 9 && "schedule_add"@.len() == 12 && "schedule_remove"@.len() == 15);
    assert("agent_list"@[0] != "inbox_list"@[0]);
    assert("agent_list"@[0] != "inbox_read"@[0]);
    assert("agent_list"@[0] != "bus_status"@[0]);
    assert("agent_detail"@[0] != "inbox_search"@[0]);
    assert("agent_detail"@[0] != "send_message"@[0]);
    assert("agent_detail"@[0] != "schedule_add"@[0]);
    assert("task_list"@[0] != "sm_detail"@[0]);
    assert("task_list"@[0] != "sm_models"@[0]);
    assert("task_list"@[0] != "room_list"@[0]);
    assert("task_list"@[0] != "sm_create"@[0]);
    assert("task_list"@[0] != "sm_cancel"@[0]);
    assert("task_detail"@[0] != "usage_stats"@[0]);
    assert("task_detail"@[5] != "task_create"@[5]);
    assert("task_detail"@[5] != "task_cancel"@[5]);
    assert("sm_list"@[3] != "sm_move"@[3]);
    assert("sm_detail"@[3] != "sm_models"@[3]);
    assert("sm_detail"@[0] != "room_list"@[0]);
    assert("sm_detail"@[3] != "sm_create"@[3]);
    assert("sm_detail"@[3] != "sm_cancel"@[3]);
    assert("sm_models"@[0] != "room_list"@[0]);
    assert("sm_models"@[3] != "sm_create"@[3]);
    assert("sm_models"@[3] != "sm_cancel"@[3]);
    assert("usage_stats"@[0] != "task_create"@[0]);
    assert("usage_stats"@[0] != "task_cancel"@[0]);
    assert("schedule_list"@[0] != "room_children"@[0]);
    assert("schedule_list"@[0] != "context_stats"@[0]);
    assert("inbox_list"@[6] != "inbox_read"@[6]);
    assert("inbox_list"@[0] != "bus_status"@[0]);
    assert("inbox_read"@[0] != "bus_status"@[0]);
    assert("inbox_search"@[0] != "send_message"@[0]);
    assert("inbox_search"@[0] != "schedule_add"@[0]);
    assert("room_list"@[0] != "sm_create"@[0]);
    assert("room_list"@[0] != "sm_cancel"@[0]);
    assert("room_children"@[0] != "context_stats"@[0]);
    assert("agent_requests"@[6] != "agent_messages"@[6]);
    assert("send_message"@[1] != "schedule_add"@[1]);
    assert("task_create"@[6] != "task_cancel"@[6]);
    assert("sm_create"@[4] != "sm_cancel"@[4]);
}

/// A query is answered about what its parameters name, and without that it is refused.
pub proof fn queries_are_about_what_is_named(
    r: Result<ApiCall, String>,
    method: Seq<char>,
    params: JsonModel,
    has_config: bool,
)
    requires
        dispatched(r, method, params, has_config),
    ensures
        method == "agent_detail"@ ==> match params.text_field("name"@) {
            Some(t) => r matches Ok(ApiCall::AgentDetail(x)) && x@ == t,
            None => r is Err,
        },
        method == "task_detail"@ ==> match params.text_field("id"@) {
            Some(t) => r matches Ok(ApiCall::TaskDetail(x)) && x@ == t,
            None => r is Err,
        },
        method == "sm_detail"@ ==> match params.text_field("id"@) {
            Some(t) => r matches Ok(ApiCall::SmDetail(x)) && x@ == t,
            None => r is Err,
        },
        method == "room_children"@ ==> match params.text_field("room"@) {
            Some(t) => r matches Ok(ApiCall::RoomChildren(x)) && x@ == t,
            None => r is Err,
        },
        method == "agent_requests"@ ==> match params.text_field("agent"@) {
            Some(t) => r matches Ok(ApiCall::AgentRequests(x)) && x@ == t,
            None => r is Err,
        },
        method == "agent_messages"@ ==> match params.text_field("agent"@) {
            Some(t) => r matches Ok(ApiCall::AgentMessages(x, n)) && x@ == t && (params.u64_field(
                "limit"@,
            ) is None ==> n == 50),
            None => r is Err,
        },
        method == "inbox_read"@ ==> match params.text_field("inbox"@) {
            Some(t) => r matches Ok(ApiCall::InboxRead(q)) && q.inbox@ == t,
            None => r is Err,
        },
        method == "inbox_search"@ ==> match params.text_field("query"@) {
            Some(t) => r matches Ok(ApiCall::InboxSearch(q)) && q.query@ == t,
            None => r is Err,
        },
        method == "task_list"@ ==> (r matches Ok(ApiCall::TaskList(f)) && opt_text(f)
            == params.text_field("status_filter"@)),
        method == "usage_stats"@ ==> (r matches Ok(ApiCall::UsageStats(p, a)) && (params.text_field(
            "period"@,
        ) is None ==> p@ == "7d"@) && opt_text(a) == params.text_field("agent"@)),
{
    reveal_strlit("agent_list");
    reveal_strlit("agent_detail");
    reveal_strlit("task_list");
    reveal_strlit("task_detail");
    reveal_strlit("sm_list");
    reveal_strlit("sm_detail");
    reveal_strlit("sm_models");
    reveal_strlit("usage_stats");
    reveal_strlit("schedule_list");
    reveal_strlit("inbox_list");
    reveal_strlit("inbox_read");
    reveal_strlit("inbox_search");
    reveal_strlit("bus_status");
    reveal_strlit("room_list");
    reveal_strlit("room_children");
    reveal_strlit("context_stats");
    reveal_strlit("agent_requests");
    reveal_strlit("agent_messages");
    reveal_strlit("agent_config_list");
    reveal_strlit("send_message");
    reveal_strlit("task_create");
    reveal_strlit("task_cancel");
    reveal_strlit("sm_create");
    reveal_strlit("sm_move");
    reveal_strlit("sm_cancel");
    reveal_strlit("schedule_add");
    reveal_strlit("schedule_remove");
    assert("agent_list"@.len() == 10 && "agent_detail"@.len() == 12 && "task_list"@.len() == 9 && "task_detail"@.len() == 11 && "sm_list"@.len() == 7 && "sm_detail"@.len() == 9 && "sm_models"@.len() == 9 && "usage_stats"@.len() == 11 && "schedule_list"@.len() == 13 && "inbox_list"@.len() == 10 && "inbox_read"@.len() == 10 && "inbox_search"@.len() == 12 && "bus_status"@.len() == 10 && "room_list"@.len() == 9 && "room_children"@.len() == 13 && "context_stats"@.len() == 13 && "agent_requests"@.len() == 14 && "agent_messages"@.len() == 14 && "agent_config_list"@.len() == 17 && "send_message"@.len() == 12 && "task_create"@.len() == 11 && "task_cancel"@.len() == 11 && "sm_create"@.len() == 9 && "sm_move"@.len() == 7 && "sm_cancel"@.len() == 9 && "schedule_add"@.len() == 12 && "schedule_remove"@.len() == 15);
    assert("agent_list"@[0] != "inbox_list"@[0]);
    assert("agent_list"@[0] != "inbox_read"@[0]);
    assert("agent_list"@[0] != "bus_status"@[0]);
    assert("agent_detail"@[0] != "inbox_search"@[0]);
    assert("agent_detail"@[0] != "send_message"@[0]);
    assert("agent_detail"@[0] != "schedule_add"@[0]);
    assert("task_list"@[0] != "sm_detail"@[0]);
    assert("task_list"@[0] != "sm_models"@[0]);
    assert("task_list"@[0] != "room_list"@[0]);
    assert("task_list"@[0] != "sm_create"@[0]);
    assert("task_list"@[0] != "sm_cancel"@[0]);
    assert("task_detail"@[0] != "usage_stats"@[0]);
    assert("task_detail"@[5] != "task_create"@[5]);
    assert("task_detail"@[5] != "task_cancel"@[5]);
    assert("sm_list"@[3] != "sm_move"@[3]);
    assert("sm_detail"@[3] != "sm_models"@[3]);
    assert("sm_detail"@[0] != "room_list"@[0]);
    assert("sm_detail"@[3] != "sm_create"@[3]);
    assert("sm_detail"@[3] != "sm_cancel"@[3]);
    assert("sm_models"@[0] != "room_list"@[0]);
    assert("sm_models"@[3] != "sm_create"@[3]);
    assert("sm_models"@[3] != "sm_cancel"@[3]);
    assert("usage_stats"@[0] != "task_create"@[0]);
    assert("usage_stats"@[0] != "task_cancel"@[0]);
    assert("schedule_list"@[0] != "room_children"@[0]);
    assert("schedule_list"@[0] != "context_stats"@[0]);
    assert("inbox_list"@[6] != "inbox_read"@[6]);
    assert("inbox_list"@[0] != "bus_status"@[0]);
    assert("inbox_read"@[0] != "bus_status"@[0]);
    assert("inbox_search"@[0] != "send_message"@[0]);
    assert("inbox_search"@[0] != "schedule_add"@[0]);
    assert("room_list"@[0] != "sm_create"@[0]);
    assert("room_list"@[0] != "sm_cancel"@[0]);
    assert("room_children"@[0] != "context_stats"@[0]);
    assert("agent_requests"@[6] != "agent_messages"@[6]);
    assert("send_message"@[1] != "schedule_add"@[1]);
    assert("task_create"@[6] != "task_cancel"@[6]);
    assert("sm_create"@[4] != "sm_cancel"@[4]);
}

/// Messages are read from the inbox that is named, fifty where no limit is given; they are
/// searched for what is asked, in the inbox that is named or in all.
pub proof fn inbox_requests_are_as_asked(
    read: Result<ReadInbox, String>,
    search: Result<SearchInbox, String>,
    params: JsonModel,
    since: Option<(i64, u32)>,
)
    requires
        inbox_read_is(read, params, since),
        inbox_search_is(search, params),
    ensures
        read is Ok <==> params.text_field("inbox"@) is Some,
        read matches Ok(q) ==> Some(q.inbox@) == params.text_field("inbox"@) && q.since == since && (
        params.u64_field("limit"@) is None ==> q.limit == 50) && (params.u64_field(
            "limit"@,
        ) matches Some(n) ==> q.limit == n),
        search is Ok <==> params.text_field("query"@) is Some,
        search matches Ok(q) ==> Some(q.query@) == params.text_field("query"@) && (match q.inbox {
            Some(i) => params.text_field("inbox"@) == Some(i@),
            None => params.text_field("inbox"@) is None,
        }) && (params.u64_field("limit"@) is None ==> q.limit == 50) && (params.u64_field(
            "limit"@,
        ) matches Some(n) ==> q.limit == n),
{
}

/// A task is created as its parameters describe it, for the model and the labels they ask
/// for.
pub proof fn created_task_is_as_asked(
    r: Result<TaskRequest, String>,
    params: JsonModel,
    labels: Seq<Seq<char>>,
)
    requires
        task_create_is(r, params),
    ensures
        r is Ok <==> params.text_field("description"@) is Some,
        r matches Ok(t) ==> Some(t.description@) == params.text_field("description"@) && (
        match t.model {
            Some(m) => params.text_field("model"@) == Some(m@),
            None => params.text_field("model"@) is None,
        }) && (params.get("labels"@) == Some(text_list_model(labels)) ==> texts(t.labels@)
            == labels) && (params.get("labels"@) is None ==> t.labels@.len() == 0)
            && t.metadata@ == params.at("metadata"@),
{
    text_list_holds_its_texts(labels);
    if let Ok(t) = r {
        assert(texts(t.labels@).len() == t.labels@.len());
    }
}

/// A workflow is created from the model that is named, with its title and body, and moved to
/// the state that is named; neither without a configuration.
pub proof fn workflow_requests_are_as_asked(
    create: Result<SmCreate, String>,
    step: Result<SmMove, String>,
    params: JsonModel,
    has_config: bool,
)
    requires
        sm_create_is(create, params, has_config),
        sm_move_is(step, params, has_config),
    ensures
        create is Ok <==> has_config && params.text_field("model"@) is Some && params.text_field(
            "title"@,
        ) is Some,
        create matches Ok(c) ==> Some(c.model@) == params.text_field("model"@) && Some(c.title@)
            == params.text_field("title"@) && (params.text_field("body"@) matches Some(b) ==> c.body@
            == b) && (params.text_field("body"@) is None ==> c.body@.len() == 0),
        step is Ok <==> has_config && params.text_field("instance_id"@) is Some
            && params.text_field("to_state"@) is Some,
        step matches Ok(c) ==> Some(c.id@) == params.text_field("instance_id"@) && Some(c.state@)
            == params.text_field("to_state"@) && (match c.note {
            Some(n) => params.text_field("note"@) == Some(n@),
            None => params.text_field("note"@) is None,
        }),
{
    reveal_strlit("");
}

} // verus!
