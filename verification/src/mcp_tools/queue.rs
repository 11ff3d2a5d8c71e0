//! Tools over the task queue, graphs, state machines and usage.
use super::reply::{
    json_reply, limit_of, read_limit, read_text_or, reply_json, reply_text, require, required,
    text_or, text_reply,
};
use crate::decimal::{decimal, decimal_int, show_i64, show_u64};
use crate::json::{
    item_models, text_list_holds_its_texts, text_list_model, texts_among, Fields, Json,
    JsonModel,
};
use crate::mcp_service::{
    listed_tasks, queried, sm_query, status_filter_of, task_list, QueueTask, SmInstance,
};
use crate::text::{cat, cat3, cat5, opt_str, opt_text, texts};
use crate::message::lookup_steps;
use vstd::prelude::*;
use vstd::string::*;

verus! {

/// A task to create.
#[derive(Debug, PartialEq)]
pub struct TaskRequest {
    pub description: String,
    pub model: Option<String>,
    pub labels: Vec<String>,
    pub metadata: Json,
}

/// Whether `r` is what the arguments ask for, or the complaint about them.
pub open spec fn asks_for_task(
    args: JsonModel,
    r: Result<TaskRequest, String>,
) -> bool {
    match required(args, "description"@) {
        Err(e) => r matches Err(m) && m@ == e,
        Ok(d) => r matches Ok(t) && t.description@ == d && opt_text(t.model)
            == args.text_field("model"@) && texts(t.labels@) == (match args.list_field(
            "labels"@,
        ) {
            Some(items) => texts_among(items),
            None => Seq::empty(),
        }) && t.metadata@ == args.at("metadata"@),
    }
}

/// The task that the arguments describe.
pub fn call_task_create(args: &Json) -> (r: Result<TaskRequest, String>)
    ensures
        asks_for_task(args@, r),
{
    let description = match require(args, "description") {
        Ok(t) => t,
        Err(e) => {
            return Err(e);
        },
    };
    let model = match args.text_field("model") {
        Some(t) => Some(String::from_str(t)),
        None => None,
    };
    let labels = match args.text_list_field("labels") {
        Some(v) => v,
        None => {
            let v: Vec<String> = Vec::new();
            assert(texts(v@) =~= Seq::<Seq<char>>::empty());
            v
        },
    };
    let metadata = match args.get("metadata") {
        Some(v) => v.copy(),
        None => Json::Null,
    };
    Ok(TaskRequest { description: String::from_str(description), model, labels, metadata })
}

/// The reply that a task was created.
pub fn task_created(description: &str, id: &str) -> (r: Json)
    ensures
        r@ == text_reply(
            "Task created: "@ + description@ + " (status=pending, id="@ + id@ + ")"@,
        ),
{
    reply_text(&cat5("Task created: ", description, " (status=pending, id=", id, ")"))
}

/// The reply with the tasks of the queue, those with a status only where the
/// arguments name one.
pub fn call_task_list(args: &Json, tasks: &Vec<QueueTask>) -> (r: Json)
    ensures
        r@ == json_reply(
            JsonModel::List(listed_tasks(tasks@, status_filter_of(args@.text_field("status"@)))),
        ),
{
    reply_json(&task_list(args.text_field("status"), tasks))
}

/// The task to cancel.
pub fn call_task_cancel(args: &Json) -> (r: Result<String, String>)
    ensures
        match required(args@, "id"@) {
            Err(e) => r matches Err(m) && m@ == e,
            Ok(id) => r matches Ok(t) && t@ == id,
        },
{
    match require(args, "id") {
        Ok(t) => Ok(String::from_str(t)),
        Err(e) => Err(e),
    }
}

/// The reply that a task was cancelled.
pub fn task_cancelled(id: &str) -> (r: Json)
    ensures
        r@ == text_reply("Task "@ + id@ + " cancelled"@),
{
    reply_text(&cat3("Task ", id, " cancelled"))
}

/// A graph to run.
#[derive(Debug, PartialEq)]
pub struct GraphRequest {
    pub file: String,
    pub work_dir: Option<String>,
    pub vars: Option<Json>,
}

/// Whether `r` is what the arguments ask for, or the complaint about them.
pub open spec fn asks_for_graph(
    args: JsonModel,
    r: Result<GraphRequest, String>,
) -> bool {
    match required(args, "file"@) {
        Err(e) => r matches Err(m) && m@ == e,
        Ok(file) => r matches Ok(g) && g.file@ == file && opt_text(g.work_dir)
            == args.text_field("work_dir"@) && crate::json::opt_json(g.vars) == args.get(
            "vars"@,
        ),
    }
}

/// The graph that the arguments name.
pub fn call_run_graph(args: &Json) -> (r: Result<GraphRequest, String>)
    ensures
        asks_for_graph(args@, r),
{
    let file = match require(args, "file") {
        Ok(t) => t,
        Err(e) => {
            return Err(e);
        },
    };
    let work_dir = match args.text_field("work_dir") {
        Some(t) => Some(String::from_str(t)),
        None => None,
    };
    let vars = match args.get("vars") {
        Some(v) => Some(v.copy()),
        None => None,
    };
    Ok(GraphRequest { file: String::from_str(file), work_dir, vars })
}

// ─── State machines ─────────────────────────────────────────────────────────

/// The complaint that no configuration is there.
pub const NO_CONFIG: &'static str = "no user config loaded — models not available";

/// A state machine instance to create.
#[derive(Debug, PartialEq)]
pub struct SmCreate {
    pub model: String,
    pub title: String,
    pub body: String,
    pub metadata: Json,
}

/// Whether `r` is the instance that the arguments ask for, or the complaint.
pub open spec fn asks_for_instance(
    args: JsonModel,
    has_config: bool,
    r: Result<SmCreate, String>,
) -> bool {
    match (required(args, "model"@), required(args, "title"@)) {
        (Err(e), _) => r matches Err(m) && m@ == e,
        (_, Err(e)) => r matches Err(m) && m@ == e,
        (Ok(model), Ok(title)) => if has_config {
            r matches Ok(c) && c.model@ == model && c.title@ == title && c.body@ == text_or(
                args,
                "body"@,
                ""@,
            ) && c.metadata@ == args.at("metadata"@)
        } else {
            r matches Err(m) && m@ == NO_CONFIG@
        },
    }
}

/// The instance that the arguments describe.
pub fn call_sm_create(args: &Json, has_config: bool) -> (r: Result<SmCreate, String>)
    ensures
        asks_for_instance(args@, has_config, r),
{
    let model = match require(args, "model") {
        Ok(t) => t,
        Err(e) => {
            return Err(e);
        },
    };
    let title = match require(args, "title") {
        Ok(t) => t,
        Err(e) => {
            return Err(e);
        },
    };
    if !has_config {
        return Err(String::from_str(NO_CONFIG));
    }
    let metadata = match args.get("metadata") {
        Some(v) => v.copy(),
        None => Json::Null,
    };
    Ok(
        SmCreate {
            model: String::from_str(model),
            title: String::from_str(title),
            body: String::from_str(read_text_or(args, "body", "")),
            metadata,
        },
    )
}

/// The reply that an instance was created.
pub fn sm_created(id: &str, model: &str, state: &str, assignee: &str) -> (r: Json)
    ensures
        r@ == text_reply(
            "Created instance "@ + id@ + " (model="@ + model@ + ", state="@ + state@
                + ", assignee="@ + assignee@ + ")"@,
        ),
{
    let mut t = cat5("Created instance ", id, " (model=", model, ", state=");
    t.append(state);
    t.append(", assignee=");
    t.append(assignee);
    t.append(")");
    reply_text(&t)
}

/// A state machine instance to move.
#[derive(Debug, PartialEq)]
pub struct SmMove {
    pub id: String,
    pub state: String,
    pub note: Option<String>,
}

/// Whether `r` is the move that the arguments ask for, or the complaint.
pub open spec fn asks_for_move(
    args: JsonModel,
    has_config: bool,
    r: Result<SmMove, String>,
) -> bool {
    match (required(args, "id"@), required(args, "state"@)) {
        (Err(e), _) => r matches Err(m) && m@ == e,
        (_, Err(e)) => r matches Err(m) && m@ == e,
        (Ok(id), Ok(state)) => if has_config {
            r matches Ok(c) && c.id@ == id && c.state@ == state && opt_text(c.note)
                == args.text_field("note"@)
        } else {
            r matches Err(m) && m@ == NO_CONFIG@
        },
    }
}

/// The move that the arguments describe.
pub fn call_sm_move(args: &Json, has_config: bool) -> (r: Result<SmMove, String>)
    ensures
        asks_for_move(args@, has_config, r),
{
    let id = match require(args, "id") {
        Ok(t) => t,
        Err(e) => {
            return Err(e);
        },
    };
    let state = match require(args, "state") {
        Ok(t) => t,
        Err(e) => {
            return Err(e);
        },
    };
    if !has_config {
        return Err(String::from_str(NO_CONFIG));
    }
    let note = match args.text_field("note") {
        Some(t) => Some(String::from_str(t)),
        None => None,
    };
    Ok(SmMove { id: String::from_str(id), state: String::from_str(state), note })
}

/// The reply that an instance was moved.
pub fn sm_moved(id: &str, state: &str, model: &str) -> (r: Json)
    ensures
        r@ == text_reply(id@ + " → "@ + state@ + " (model="@ + model@ + ")"@),
{
    let mut t = cat3(id, " → ", state);
    t.append(" (model=");
    t.append(model);
    t.append(")");
    reply_text(&t)
}

// ─── Telegram history ───────────────────────────────────────────────────────

/// A query of state machine instances: one of them, or those of a model and in a
/// state, where these are given.
#[derive(Debug, PartialEq)]
pub enum SmQuery {
    One(String),
    List(Option<String>, Option<String>),
}

/// Whether `r` is the query that the arguments make.
pub open spec fn asks_for_query(
    args: JsonModel,
    r: SmQuery,
) -> bool {
    match args.text_field("id"@) {
        Some(id) => r matches SmQuery::One(x) && x@ == id,
        None => r matches SmQuery::List(m, s) && opt_text(m) == args.text_field("model"@)
            && opt_text(s) == args.text_field("state"@),
    }
}

/// The query that the arguments make.
pub fn call_sm_query(args: &Json) -> (r: SmQuery)
    ensures
        asks_for_query(args@, r),
{
    match args.text_field("id") {
        Some(id) => SmQuery::One(String::from_str(id)),
        None => SmQuery::List(
            match args.text_field("model") {
                Some(t) => Some(String::from_str(t)),
                None => None,
            },
            match args.text_field("state") {
                Some(t) => Some(String::from_str(t)),
                None => None,
            },
        ),
    }
}

/// The reply with the instances of a model and in a state, where these are given.
pub fn sm_list_reply(
    model: Option<&str>,
    state: Option<&str>,
    instances: &Vec<SmInstance>,
) -> (r: Json)
    ensures
        r@ == json_reply(
            JsonModel::List(queried(instances@, opt_str(model), opt_str(state))),
        ),
{
    reply_json(&sm_query(model, state, instances))
}

/// The period and the agent whose usage the arguments ask for. The period is a
/// week where none is given.
pub fn call_usage_stats(args: &Json) -> (r: (String, Option<String>))
    ensures
        r.0@ == text_or(args@, "period"@, "7d"@),
        opt_text(r.1) == args@.text_field("agent"@),
{
    let agent = match args.text_field("agent") {
        Some(t) => Some(String::from_str(t)),
        None => None,
    };
    (String::from_str(read_text_or(args, "period", "7d")), agent)
}

/// A request for the messages of a chat.
#[derive(Debug, PartialEq)]
pub struct HistoryRequest {
    pub chat_id: i64,
    pub limit: u64,
    pub inbox: String,
}

/// Whether `r` is the history that the arguments ask for, or the complaint.
pub open spec fn asks_for_history(
    args: JsonModel,
    r: Result<HistoryRequest, String>,
) -> bool {
    match args.i64_field("chat_id"@) {
        None => r matches Err(m) && m@
            == "telegram_history: missing required integer 'chat_id'"@,
        Some(id) => {
            let limit = limit_of(args, "limit"@, 50);
            if limit == 0 || limit > 200 {
                r matches Err(m) && m@ == "telegram_history: 'limit' must be in 1..=200 (got "@
                    + decimal(limit as nat) + ")"@
            } else {
                r matches Ok(q) && q.chat_id == id && q.limit == limit && q.inbox@
                    == "telegram/"@ + decimal_int(id)
            }
        },
    }
}

/// The request for the messages of a chat that the arguments make.
pub fn call_telegram_history(args: &Json) -> (r: Result<HistoryRequest, String>)
    ensures
        asks_for_history(args@, r),
{
    let chat_id: i64 = match args.i64_field("chat_id") {
        Some(n) => n,
        None => {
            return Err(String::from_str("telegram_history: missing required integer 'chat_id'"));
        },
    };
    let limit: u64 = read_limit(args, "limit", 50);
    if limit == 0 || limit > 200 {
        return Err(
            cat3("telegram_history: 'limit' must be in 1..=200 (got ", &show_u64(limit), ")"),
        );
    }
    Ok(HistoryRequest { chat_id, limit, inbox: cat("telegram/", &show_i64(chat_id)) })
}

/// The reply with the messages of a chat.
pub open spec fn history_model(chat_id: i64, messages: Seq<JsonModel>) -> JsonModel {
    JsonModel::Object(
        seq![
            ("chat_id"@, JsonModel::Number(chat_id as int)),
            ("count"@, JsonModel::Number(messages.len() as int)),
            ("messages"@, JsonModel::List(messages)),
        ],
    )
}

/// The reply with the messages of a chat.
pub fn history_reply(chat_id: i64, messages: Vec<Json>) -> (r: Json)
    ensures
        r@ == history_model(chat_id, item_models(messages@)),
{
    let ghost expected = history_model(chat_id, item_models(messages@));
    let n: u64 = messages.len() as u64;
    let mut f = Fields::new();
    f.put("chat_id", Json::Number(chat_id as i128));
    f.put("count", Json::uint(n));
    f.put("messages", Json::list(messages));
    assert(f@ =~= expected->Object_0);
    f.object()
}

// ─── What the arguments ask for ─────────────────────────────────────────────

/// A task needs a description; its model, its labels and its metadata are those given.
pub proof fn task_is_as_asked(args: JsonModel, r: Result<TaskRequest, String>, labels: Seq<Seq<char>>)
    requires
        asks_for_task(args, r),
    ensures
        r is Ok <==> args.text_field("description"@) is Some,
        r matches Ok(t) ==> Some(t.description@) == args.text_field("description"@) && opt_text(
            t.model,
        ) == args.text_field("model"@) && t.metadata@ == args.at("metadata"@) && (args.get(
            "labels"@,
        ) == Some(text_list_model(labels)) ==> texts(t.labels@) == labels) && (args.get("labels"@)
            is None ==> t.labels@.len() == 0),
{
    text_list_holds_its_texts(labels);
    if let Ok(t) = r {
        assert(texts(t.labels@).len() == t.labels@.len());
    }
}

/// A graph is run from the file that is named, where and with what is given.
pub proof fn graph_is_as_asked(args: JsonModel, r: Result<GraphRequest, String>)
    requires
        asks_for_graph(args, r),
    ensures
        r is Ok <==> args.text_field("file"@) is Some,
        r matches Ok(g) ==> Some(g.file@) == args.text_field("file"@) && opt_text(g.work_dir)
            == args.text_field("work_dir"@) && crate::json::opt_json(g.vars) == args.get("vars"@),
{
}

/// An instance needs a configuration, a model and a title.
pub proof fn instance_is_as_asked(args: JsonModel, has_config: bool, r: Result<SmCreate, String>)
    requires
        asks_for_instance(args, has_config, r),
    ensures
        r is Ok <==> has_config && args.text_field("model"@) is Some && args.text_field("title"@)
            is Some,
        r matches Ok(c) ==> Some(c.model@) == args.text_field("model"@) && Some(c.title@)
            == args.text_field("title"@) && (args.text_field("body"@) matches Some(b) ==> c.body@
            == b) && c.metadata@ == args.at("metadata"@),
{
}

/// A move needs a configuration, an instance and a state: it moves that instance to that
/// state.
pub proof fn move_is_as_asked(args: JsonModel, has_config: bool, r: Result<SmMove, String>)
    requires
        asks_for_move(args, has_config, r),
    ensures
        r is Ok <==> has_config && args.text_field("id"@) is Some && args.text_field("state"@)
            is Some,
        r matches Ok(c) ==> Some(c.id@) == args.text_field("id"@) && Some(c.state@)
            == args.text_field("state"@) && opt_text(c.note) == args.text_field("note"@),
{
}

/// The history is that of the chat, at most two hundred messages, and fifty where nothing
/// is said.
pub proof fn history_is_that_of_the_chat(args: JsonModel, r: Result<HistoryRequest, String>)
    requires
        asks_for_history(args, r),
    ensures
        r is Ok <==> args.i64_field("chat_id"@) is Some && (args.u64_field("limit"@) matches Some(n)
            ==> 1 <= n <= 200),
        r matches Ok(q) ==> Some(q.chat_id as int) == args.i64_field("chat_id"@) && 1 <= q.limit
            <= 200 && (args.u64_field("limit"@) is None ==> q.limit == 50) && (args.u64_field(
            "limit"@,
        ) matches Some(n) ==> q.limit == n) && q.inbox@ == "telegram/"@ + decimal_int(
            q.chat_id as int,
        ),
{
}

/// An id asks for that instance alone; without one, those of the model and in the state are
/// asked for.
pub proof fn query_is_as_asked(args: JsonModel, r: SmQuery)
    requires
        asks_for_query(args, r),
    ensures
        r is One <==> args.text_field("id"@) is Some,
        r matches SmQuery::One(x) ==> Some(x@) == args.text_field("id"@),
        r matches SmQuery::List(m, s) ==> opt_text(m) == args.text_field("model"@) && opt_text(s)
            == args.text_field("state"@),
{
}

/// A history holds its chat, its messages and their number.
pub proof fn history_tells_its_messages(chat_id: i64, messages: Seq<JsonModel>)
    ensures
        history_model(chat_id, messages).get("chat_id"@) == Some(JsonModel::Number(chat_id as int)),
        history_model(chat_id, messages).get("count"@) == Some(JsonModel::Number(messages.len() as int)),
        history_model(chat_id, messages).get("messages"@) == Some(JsonModel::List(messages)),
{
    reveal_strlit("chat_id");
    reveal_strlit("count");
    reveal_strlit("messages");
    assert("chat_id"@.len() == 7 && "count"@.len() == 5 && "messages"@.len() == 8);
    let fields = history_model(chat_id, messages)->Object_0;
    lookup_steps(fields, "chat_id"@, 0);
    lookup_steps(fields, "count"@, 1);
    lookup_steps(fields, "messages"@, 2);
}

} // verus!
