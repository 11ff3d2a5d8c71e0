//! Answers to requests about agents, tasks, state machines and messages.
use super::calls::NO_CONFIG;
use crate::agent::AgentState;
use crate::config::{ModelDef, TransitionDef, UserConfig};
use crate::json::{
    lists_texts, opt_number_model, opt_text_model, text_list_holds_its_texts, text_list_model,
    Fields, Items, Json, JsonModel,
};
use crate::mcp_service::{
    agent_is_summed_up, agent_summary_model, build_agent_summary, listed_tasks, queried,
    sm_query, status_filter_of, task_list, InboxMessage, QueueTask, SmInstance,
};
use crate::names::{each_once, keep_each_once};
use crate::text::{cat3, contains_spec, has, opt_str, opt_text, part_occurs, same, texts};
use crate::message::lookup_steps;
use vstd::prelude::*;
use vstd::string::*;

verus! {

/// The model of an optional decimal number: null where there is none.
pub open spec fn opt_float_model(o: Option<String>) -> JsonModel {
    match o {
        Some(t) => JsonModel::Float(t@),
        None => JsonModel::Null,
    }
}

fn opt_float(o: &Option<String>) -> (r: Json)
    ensures
        r@ == opt_float_model(*o),
{
    match o {
        Some(t) => Json::Float(t.clone()),
        None => Json::Null,
    }
}

/// The model of an optional count: null where there is none.
pub open spec fn opt_count_model(o: Option<u32>) -> JsonModel {
    opt_number_model(
        match o {
            Some(n) => Some(n as int),
            None => None,
        },
    )
}

fn opt_count(o: Option<u32>) -> (r: Json)
    ensures
        r@ == opt_count_model(o),
{
    match o {
        Some(n) => Json::uint(n as u64),
        None => Json::Null,
    }
}

// ─── Agents ─────────────────────────────────────────────────────────────────

/// The summary of an agent. One that is not on the bus has finished.
pub open spec fn listed_agent(s: AgentState, live: Seq<Seq<char>>) -> JsonModel {
    agent_summary_model(s.name@, !live.contains(s.name@), Some(&s))
}

/// The summaries of all agents. `live` are those on the bus.
pub fn handle_agent_list(agents: &Vec<AgentState>, live: &Vec<String>) -> (r: Json)
    ensures
        r@ == JsonModel::List(
            Seq::new(agents@.len(), |i: int| listed_agent(agents@[i], texts(live@))),
        ),
{
    let ghost expected = Seq::new(
        agents@.len(),
        |i: int| listed_agent(agents@[i], texts(live@)),
    );
    let mut out = Items::new();
    let mut i: usize = 0;
    assert(out@ =~= expected.take(0));
    while i < agents.len()
        invariant
            i <= agents@.len(),
            expected == Seq::new(
                agents@.len(),
                |i: int| listed_agent(agents@[i], texts(live@)),
            ),
            out@ == expected.take(i as int),
        decreases agents@.len() - i,
    {
        let a = &agents[i];
        let on_bus: bool = has(live, &a.name);
        out.put(build_agent_summary(&a.name, !on_bus, Some(a)));
        assert(expected.take(i + 1) =~= expected.take(i as int).push(expected[i as int]));
        i += 1;
    }
    assert(expected.take(i as int) =~= expected);
    out.list()
}

/// The details of an agent.
pub open spec fn agent_detail_model(s: AgentState) -> JsonModel {
    JsonModel::Object(
        seq![
            ("name"@, JsonModel::Text(s.name@)),
            ("model"@, JsonModel::Text(s.model@)),
            ("system_prompt"@, JsonModel::Text(s.system_prompt@)),
            ("work_dir"@, JsonModel::Text(s.work_dir@)),
            ("max_turns"@, JsonModel::Number(s.max_turns as int)),
            ("pid"@, JsonModel::Number(s.pid as int)),
            ("session_id"@, JsonModel::Text(s.session_id@)),
            ("total_turns"@, JsonModel::Number(s.total_turns as int)),
            ("total_cost"@, JsonModel::Float(s.total_cost@)),
            ("created_at"@, JsonModel::Text(s.created_at@)),
            ("status"@, JsonModel::Text(s.status@)),
            ("current_task"@, JsonModel::Text(s.current_task@)),
            ("parent"@, opt_text_model(opt_text(s.parent))),
        ],
    )
}

/// The details of an agent.
pub fn handle_agent_detail(s: &AgentState) -> (r: Json)
    ensures
        r@ == agent_detail_model(*s),
{
    let mut f = Fields::new();
    f.put_text("name", &s.name);
    f.put_text("model", &s.model);
    f.put_text("system_prompt", &s.system_prompt);
    f.put_text("work_dir", &s.work_dir);
    f.put("max_turns", Json::uint(s.max_turns as u64));
    f.put("pid", Json::uint(s.pid as u64));
    f.put_text("session_id", &s.session_id);
    f.put("total_turns", Json::uint(s.total_turns as u64));
    f.put("total_cost", Json::Float(s.total_cost.clone()));
    f.put_text("created_at", &s.created_at);
    f.put_text("status", &s.status);
    f.put_text("current_task", &s.current_task);
    f.put("parent", Json::opt_text(&s.parent));
    assert(f@ =~= agent_detail_model(*s)->Object_0);
    f.object()
}

/// What is known of the context of an agent. One that is not on the bus has
/// stopped.
pub open spec fn context_model(s: AgentState, live: Seq<Seq<char>>) -> JsonModel {
    JsonModel::Object(
        seq![
            ("agent"@, JsonModel::Text(s.name@)),
            ("context_tokens"@, JsonModel::Null),
            ("context_limit"@, JsonModel::Null),
            ("context_utilization"@, JsonModel::Null),
            ("session_turns"@, JsonModel::Number(s.total_turns as int)),
            ("session_start"@, JsonModel::Text(s.created_at@)),
            ("session_cost_usd"@, JsonModel::Float(s.total_cost@)),
            ("last_turn_cost_usd"@, JsonModel::Null),
            ("cache_hit_rate"@, JsonModel::Null),
            (
                "status"@,
                JsonModel::Text(
                    if live.contains(s.name@) {
                        s.status@
                    } else {
                        "stopped"@
                    },
                ),
            ),
            ("model"@, JsonModel::Text(s.model@)),
        ],
    )
}

fn context_json(s: &AgentState, live: &Vec<String>) -> (r: Json)
    ensures
        r@ == context_model(*s, texts(live@)),
{
    let mut f = Fields::new();
    f.put_text("agent", &s.name);
    f.put("context_tokens", Json::Null);
    f.put("context_limit", Json::Null);
    f.put("context_utilization", Json::Null);
    f.put("session_turns", Json::uint(s.total_turns as u64));
    f.put_text("session_start", &s.created_at);
    f.put("session_cost_usd", Json::Float(s.total_cost.clone()));
    f.put("last_turn_cost_usd", Json::Null);
    f.put("cache_hit_rate", Json::Null);
    if has(live, &s.name) {
        f.put_text("status", &s.status);
    } else {
        f.put_text("status", "stopped");
    }
    f.put_text("model", &s.model);
    assert(f@ =~= context_model(*s, texts(live@))->Object_0);
    f.object()
}

/// The position of the first agent with a name; the number of agents where there
/// is none.
pub open spec fn state_index(agents: Seq<AgentState>, name: Seq<char>) -> nat
    decreases agents.len(),
{
    if agents.len() == 0 || agents[0].name@ == name {
        0
    } else {
        1 + state_index(agents.skip(1), name)
    }
}

/// The first agent with a name.
pub fn find_state<'a>(agents: &'a Vec<AgentState>, name: &str) -> (r: Option<&'a AgentState>)
    ensures
        match r {
            Some(s) => state_index(agents@, name@) < agents@.len() && *s == agents@[state_index(
                agents@,
                name@,
            ) as int],
            None => state_index(agents@, name@) >= agents@.len(),
        },
{
    let mut i: usize = 0;
    assert(agents@.skip(0) =~= agents@);
    while i < agents.len()
        invariant
            i <= agents@.len(),
            state_index(agents@, name@) == i + state_index(agents@.skip(i as int), name@),
        decreases agents@.len() - i,
    {
        assert(agents@.skip(i as int)[0] == agents@[i as int]);
        if same(&agents[i].name, name) {
            return Some(&agents[i]);
        }
        assert(agents@.skip(i as int).skip(1) =~= agents@.skip(i + 1));
        i += 1;
    }
    None
}

/// Whether `r` tells the sessions of agents.
pub open spec fn tells_context(
    filter: Option<&str>,
    agents: Seq<AgentState>,
    live: Seq<Seq<char>>,
    r: Result<Json, String>,
) -> bool {
    match filter {
        None => r matches Ok(v) && v@ == JsonModel::List(
            Seq::new(agents.len(), |i: int| context_model(agents[i], live)),
        ),
        Some(name) => {
            let i = state_index(agents, name@) as int;
            if i < agents.len() {
                r matches Ok(v) && v@ == context_model(agents[i], live)
            } else {
                r matches Err(e) && e@ == "agent '"@ + name@ + "' not found"@
            }
        },
    }
}

/// What is known of the contexts of all agents, or of the one with a name.
pub fn handle_context_stats(
    filter: Option<&str>,
    agents: &Vec<AgentState>,
    live: &Vec<String>,
) -> (r: Result<Json, String>)
    ensures
        tells_context(filter, agents@, texts(live@), r),
{
    match filter {
        Some(name) => {
            return match find_state(agents, name) {
                Some(s) => Ok(context_json(s, live)),
                None => Err(cat3("agent '", name, "' not found")),
            };
        },
        None => {},
    }
    let ghost expected = Seq::new(
        agents@.len(),
        |i: int| context_model(agents@[i], texts(live@)),
    );
    let mut out = Items::new();
    let mut i: usize = 0;
    assert(out@ =~= expected.take(0));
    while i < agents.len()
        invariant
            i <= agents@.len(),
            expected == Seq::new(
                agents@.len(),
                |i: int| context_model(agents@[i], texts(live@)),
            ),
            out@ == expected.take(i as int),
        decreases agents@.len() - i,
    {
        out.put(context_json(&agents[i], live));
        assert(expected.take(i + 1) =~= expected.take(i as int).push(expected[i as int]));
        i += 1;
    }
    assert(expected.take(i as int) =~= expected);
    Ok(out.list())
}

/// The clients on a bus.
pub open spec fn bus_status_model(socket: Seq<char>, clients: Seq<Seq<char>>) -> JsonModel {
    JsonModel::Object(
        seq![("socket"@, JsonModel::Text(socket)), ("clients"@, text_list_model(clients))],
    )
}

/// The clients on a bus, each once.
pub fn handle_bus_status(socket: &str, clients: &Vec<String>) -> (r: Json)
    ensures
        r@ == bus_status_model(socket@, each_once(texts(clients@))),
        each_once(texts(clients@)).no_duplicates(),
{
    let mut f = Fields::new();
    f.put_text("socket", socket);
    f.put("clients", Json::texts(&keep_each_once(clients)));
    assert(f@ =~= bus_status_model(socket@, each_once(texts(clients@)))->Object_0);
    f.object()
}

// ─── Tasks ──────────────────────────────────────────────────────────────────

/// A task of the queue with all that is kept of it.
#[derive(Debug, PartialEq)]
pub struct TaskRecord {
    pub task: QueueTask,
    pub updated_at: String,
    pub result: Option<String>,
    pub error: Option<String>,
    /// What the task cost, as a decimal number.
    pub cost_usd: Option<String>,
    pub turns: Option<u32>,
    pub metadata: Json,
}

/// The tasks of the queue, optionally those with a status only.
pub fn handle_task_list(status_filter: Option<&str>, tasks: &Vec<QueueTask>) -> (r: Json)
    ensures
        r@ == JsonModel::List(listed_tasks(tasks@, status_filter_of(opt_str(status_filter)))),
{
    task_list(status_filter, tasks)
}

/// The details of a task.
pub open spec fn task_detail_model(t: TaskRecord) -> JsonModel {
    JsonModel::Object(
        seq![
            ("id"@, JsonModel::Text(t.task.id@)),
            ("description"@, JsonModel::Text(t.task.description@)),
            ("status"@, JsonModel::Text(t.task.status.name())),
            ("assignee"@, opt_text_model(opt_text(t.task.assignee))),
            ("created_by"@, JsonModel::Text(t.task.created_by@)),
            ("created_at"@, JsonModel::Text(t.task.created_at@)),
            ("updated_at"@, JsonModel::Text(t.updated_at@)),
            ("result"@, opt_text_model(opt_text(t.result))),
            ("error"@, opt_text_model(opt_text(t.error))),
            ("cost_usd"@, opt_float_model(t.cost_usd)),
            ("turns"@, opt_count_model(t.turns)),
            ("sm_instance_id"@, opt_text_model(opt_text(t.task.sm_instance_id))),
            ("metadata"@, t.metadata@),
        ],
    )
}

/// The details of a task.
pub fn handle_task_detail(t: &TaskRecord) -> (r: Json)
    ensures
        r@ == task_detail_model(*t),
{
    let mut f = Fields::new();
    f.put_text("id", &t.task.id);
    f.put_text("description", &t.task.description);
    f.put_text("status", t.task.status.as_str());
    f.put("assignee", Json::opt_text(&t.task.assignee));
    f.put_text("created_by", &t.task.created_by);
    f.put_text("created_at", &t.task.created_at);
    f.put_text("updated_at", &t.updated_at);
    f.put("result", Json::opt_text(&t.result));
    f.put("error", Json::opt_text(&t.error));
    f.put("cost_usd", opt_float(&t.cost_usd));
    f.put("turns", opt_count(t.turns));
    f.put("sm_instance_id", Json::opt_text(&t.task.sm_instance_id));
    f.put("metadata", t.metadata.copy());
    assert(f@ =~= task_detail_model(*t)->Object_0);
    f.object()
}

/// A task as the list of an agent's requests shows it.
pub open spec fn request_model(t: TaskRecord) -> JsonModel {
    JsonModel::Object(
        seq![
            ("id"@, JsonModel::Text(t.task.id@)),
            ("description"@, JsonModel::Text(t.task.description@)),
            ("turns"@, opt_count_model(t.turns)),
            ("cost_usd"@, opt_float_model(t.cost_usd)),
            ("status"@, JsonModel::Text(t.task.status.name())),
            ("created_at"@, JsonModel::Text(t.task.created_at@)),
        ],
    )
}

/// Whether a task is assigned to an agent or was created by it.
pub open spec fn concerns(t: TaskRecord, agent: Seq<char>) -> bool {
    opt_text(t.task.assignee) == Some(agent) || t.task.created_by@ == agent
}

/// The tasks that concern an agent, in order.
pub open spec fn requests_of(tasks: Seq<TaskRecord>, agent: Seq<char>) -> Seq<JsonModel>
    decreases tasks.len(),
{
    if tasks.len() == 0 {
        Seq::empty()
    } else {
        let head = requests_of(tasks.drop_last(), agent);
        if concerns(tasks.last(), agent) {
            head.push(request_model(tasks.last()))
        } else {
            head
        }
    }
}

fn request_json(t: &TaskRecord) -> (r: Json)
    ensures
        r@ == request_model(*t),
{
    let mut f = Fields::new();
    f.put_text("id", &t.task.id);
    f.put_text("description", &t.task.description);
    f.put("turns", opt_count(t.turns));
    f.put("cost_usd", opt_float(&t.cost_usd));
    f.put_text("status", t.task.status.as_str());
    f.put_text("created_at", &t.task.created_at);
    assert(f@ =~= request_model(*t)->Object_0);
    f.object()
}

/// The tasks that concern an agent.
pub fn handle_agent_requests(agent: &str, tasks: &Vec<TaskRecord>) -> (r: Json)
    ensures
        r@ == JsonModel::List(requests_of(tasks@, agent@)),
{
    let mut out = Items::new();
    let mut i: usize = 0;
    assert(out@ =~= requests_of(tasks@.take(0), agent@));
    while i < tasks.len()
        invariant
            i <= tasks@.len(),
            out@ == requests_of(tasks@.take(i as int), agent@),
        decreases tasks@.len() - i,
    {
        assert(tasks@.take(i + 1).drop_last() =~= tasks@.take(i as int));
        assert(tasks@.take(i + 1).last() == tasks@[i as int]);
        let assigned: bool = match &tasks[i].task.assignee {
            Some(a) => same(a, agent),
            None => false,
        };
        if assigned || same(&tasks[i].task.created_by, agent) {
            out.put(request_json(&tasks[i]));
        }
        i += 1;
    }
    assert(tasks@.take(i as int) =~= tasks@);
    out.list()
}

/// The answer that a task was created.
pub open spec fn task_created_model(id: Seq<char>, description: Seq<char>) -> JsonModel {
    JsonModel::Object(
        seq![("id"@, JsonModel::Text(id)), ("description"@, JsonModel::Text(description))],
    )
}

/// The answer that a task was created.
pub fn task_created(id: &str, description: &str) -> (r: Json)
    ensures
        r@ == task_created_model(id@, description@),
{
    let mut f = Fields::new();
    f.put_text("id", id);
    f.put_text("description", description);
    assert(f@ =~= task_created_model(id@, description@)->Object_0);
    f.object()
}

/// The answer that a task or an instance was cancelled.
pub open spec fn cancelled_model(id: Seq<char>) -> JsonModel {
    JsonModel::Object(seq![("id"@, JsonModel::Text(id)), ("cancelled"@, JsonModel::Bool(true))])
}

/// The answer that a task or an instance was cancelled.
pub fn cancelled(id: &str) -> (r: Json)
    ensures
        r@ == cancelled_model(id@),
{
    let mut f = Fields::new();
    f.put_text("id", id);
    f.put("cancelled", Json::Bool(true));
    assert(f@ =~= cancelled_model(id@)->Object_0);
    f.object()
}

/// The answer that a message was sent.
pub open spec fn sent_model(id: Seq<char>) -> JsonModel {
    JsonModel::Object(seq![("sent"@, JsonModel::Bool(true)), ("id"@, JsonModel::Text(id))])
}

/// The answer that a message was sent.
pub fn sent(id: &str) -> (r: Json)
    ensures
        r@ == sent_model(id@),
{
    let mut f = Fields::new();
    f.put("sent", Json::Bool(true));
    f.put_text("id", id);
    assert(f@ =~= sent_model(id@)->Object_0);
    f.object()
}

// ─── State machines ─────────────────────────────────────────────────────────

/// The instances of a model and in a state, where these are given.
pub fn handle_sm_list(
    model: Option<&str>,
    state: Option<&str>,
    instances: &Vec<SmInstance>,
) -> (r: Json)
    ensures
        r@ == JsonModel::List(queried(instances@, opt_str(model), opt_str(state))),
{
    sm_query(model, state, instances)
}

/// A transition as the list of models shows it.
pub open spec fn transition_model(t: TransitionDef) -> JsonModel {
    JsonModel::Object(
        seq![
            ("from"@, JsonModel::Text(t.from@)),
            ("to"@, JsonModel::Text(t.to@)),
            ("trigger"@, opt_text_model(opt_text(t.trigger))),
        ],
    )
}

/// A model as the list of models shows it.
pub open spec fn model_model(m: ModelDef) -> JsonModel {
    JsonModel::Object(
        seq![
            ("name"@, JsonModel::Text(m.name@)),
            ("states"@, text_list_model(texts(m.states@))),
            (
                "transitions"@,
                JsonModel::List(
                    Seq::new(m.transitions@.len(), |i: int| transition_model(m.transitions@[i])),
                ),
            ),
        ],
    )
}

fn transition_json(t: &TransitionDef) -> (r: Json)
    ensures
        r@ == transition_model(*t),
{
    let mut f = Fields::new();
    f.put_text("from", &t.from);
    f.put_text("to", &t.to);
    f.put("trigger", Json::opt_text(&t.trigger));
    assert(f@ =~= transition_model(*t)->Object_0);
    f.object()
}

fn model_json(m: &ModelDef) -> (r: Json)
    ensures
        r@ == model_model(*m),
{
    let ghost expected = Seq::new(
        m.transitions@.len(),
        |i: int| transition_model(m.transitions@[i]),
    );
    let mut ts = Items::new();
    let mut i: usize = 0;
    assert(ts@ =~= expected.take(0));
    while i < m.transitions.len()
        invariant
            i <= m.transitions@.len(),
            expected == Seq::new(
                m.transitions@.len(),
                |i: int| transition_model(m.transitions@[i]),
            ),
            ts@ == expected.take(i as int),
        decreases m.transitions@.len() - i,
    {
        ts.put(transition_json(&m.transitions[i]));
        assert(expected.take(i + 1) =~= expected.take(i as int).push(expected[i as int]));
        i += 1;
    }
    assert(expected.take(i as int) =~= expected);
    let mut f = Fields::new();
    f.put_text("name", &m.name);
    f.put("states", Json::texts(&m.states));
    f.put("transitions", ts.list());
    assert(f@ =~= model_model(*m)->Object_0);
    f.object()
}

/// The models of a configuration.
pub fn handle_sm_models(config: Option<&UserConfig>) -> (r: Result<Json, String>)
    ensures
        match config {
            None => r matches Err(e) && e@ == NO_CONFIG@,
            Some(c) => r matches Ok(v) && v@ == JsonModel::List(
                Seq::new(c.models@.len(), |i: int| model_model(c.models@[i])),
            ),
        },
{
    let c = match config {
        Some(c) => c,
        None => {
            return Err(String::from_str(NO_CONFIG));
        },
    };
    let ghost expected = Seq::new(c.models@.len(), |i: int| model_model(c.models@[i]));
    let mut out = Items::new();
    let mut i: usize = 0;
    assert(out@ =~= expected.take(0));
    while i < c.models.len()
        invariant
            i <= c.models@.len(),
            expected == Seq::new(c.models@.len(), |i: int| model_model(c.models@[i])),
            out@ == expected.take(i as int),
        decreases c.models@.len() - i,
    {
        out.put(model_json(&c.models[i]));
        assert(expected.take(i + 1) =~= expected.take(i as int).push(expected[i as int]));
        i += 1;
    }
    assert(expected.take(i as int) =~= expected);
    Ok(out.list())
}

/// The answer that an instance was created.
pub open spec fn sm_created_model(i: SmInstance) -> JsonModel {
    JsonModel::Object(
        seq![
            ("id"@, JsonModel::Text(i.id@)),
            ("model"@, JsonModel::Text(i.model@)),
            ("state"@, JsonModel::Text(i.state@)),
            ("assignee"@, JsonModel::Text(i.assignee@)),
        ],
    )
}

/// The answer that an instance was created.
pub fn sm_created(i: &SmInstance) -> (r: Json)
    ensures
        r@ == sm_created_model(*i),
{
    let mut f = Fields::new();
    f.put_text("id", &i.id);
    f.put_text("model", &i.model);
    f.put_text("state", &i.state);
    f.put_text("assignee", &i.assignee);
    assert(f@ =~= sm_created_model(*i)->Object_0);
    f.object()
}

/// The answer that an instance was moved.
pub open spec fn sm_moved_model(i: SmInstance) -> JsonModel {
    JsonModel::Object(
        seq![
            ("id"@, JsonModel::Text(i.id@)),
            ("state"@, JsonModel::Text(i.state@)),
            ("model"@, JsonModel::Text(i.model@)),
        ],
    )
}

/// The answer that an instance was moved.
pub fn sm_moved(i: &SmInstance) -> (r: Json)
    ensures
        r@ == sm_moved_model(*i),
{
    let mut f = Fields::new();
    f.put_text("id", &i.id);
    f.put_text("state", &i.state);
    f.put_text("model", &i.model);
    assert(f@ =~= sm_moved_model(*i)->Object_0);
    f.object()
}

// ─── Messages ───────────────────────────────────────────────────────────────

/// A message as the list of an agent's messages shows it.
pub open spec fn inbox_message_model(m: InboxMessage) -> JsonModel {
    JsonModel::Object(
        seq![
            ("role"@, opt_text_model(opt_text(m.from))),
            ("text"@, JsonModel::Text(m.text@)),
            ("timestamp"@, JsonModel::Text(m.ts@)),
        ],
    )
}

fn inbox_message_json(m: &InboxMessage) -> (r: Json)
    ensures
        r@ == inbox_message_model(*m),
{
    let mut f = Fields::new();
    f.put("role", Json::opt_text(&m.from));
    f.put_text("text", &m.text);
    f.put_text("timestamp", &m.ts);
    assert(f@ =~= inbox_message_model(*m)->Object_0);
    f.object()
}

/// The messages of an agent.
pub fn handle_agent_messages(messages: &Vec<InboxMessage>) -> (r: Json)
    ensures
        r@ == JsonModel::List(
            Seq::new(messages@.len(), |i: int| inbox_message_model(messages@[i])),
        ),
{
    let ghost expected = Seq::new(messages@.len(), |i: int| inbox_message_model(messages@[i]));
    let mut out = Items::new();
    let mut i: usize = 0;
    assert(out@ =~= expected.take(0));
    while i < messages.len()
        invariant
            i <= messages@.len(),
            expected == Seq::new(messages@.len(), |i: int| inbox_message_model(messages@[i])),
            out@ == expected.take(i as int),
        decreases messages@.len() - i,
    {
        out.put(inbox_message_json(&messages[i]));
        assert(expected.take(i + 1) =~= expected.take(i as int).push(expected[i as int]));
        i += 1;
    }
    assert(expected.take(i as int) =~= expected);
    out.list()
}

// ─── What the answers tell ──────────────────────────────────────────────────

/// An agent is told with all that is kept of it.
pub proof fn agent_is_told_in_full(s: AgentState)
    ensures
        agent_detail_model(s).text_field("name"@) == Some(s.name@),
        agent_detail_model(s).text_field("model"@) == Some(s.model@),
        agent_detail_model(s).text_field("system_prompt"@) == Some(s.system_prompt@),
        agent_detail_model(s).text_field("work_dir"@) == Some(s.work_dir@),
        agent_detail_model(s).get("max_turns"@) == Some(JsonModel::Number(s.max_turns as int)),
        agent_detail_model(s).get("pid"@) == Some(JsonModel::Number(s.pid as int)),
        agent_detail_model(s).text_field("session_id"@) == Some(s.session_id@),
        agent_detail_model(s).get("total_turns"@) == Some(JsonModel::Number(s.total_turns as int)),
        agent_detail_model(s).get("total_cost"@) == Some(JsonModel::Float(s.total_cost@)),
        agent_detail_model(s).text_field("created_at"@) == Some(s.created_at@),
        agent_detail_model(s).text_field("status"@) == Some(s.status@),
        agent_detail_model(s).text_field("current_task"@) == Some(s.current_task@),
        agent_detail_model(s).text_field("parent"@) == opt_text(s.parent),
{
    reveal_strlit("name");
    reveal_strlit("model");
    reveal_strlit("system_prompt");
    reveal_strlit("work_dir");
    reveal_strlit("max_turns");
    reveal_strlit("pid");
    reveal_strlit("session_id");
    reveal_strlit("total_turns");
    reveal_strlit("total_cost");
    reveal_strlit("created_at");
    reveal_strlit("status");
    reveal_strlit("current_task");
    reveal_strlit("parent");
    assert("name"@.len() == 4 && "model"@.len() == 5 && "system_prompt"@.len() == 13 && "work_dir"@.len() == 8 && "max_turns"@.len() == 9 && "pid"@.len() == 3 && "session_id"@.len() == 10 && "total_turns"@.len() == 11 && "total_cost"@.len() == 10 && "created_at"@.len() == 10 && "status"@.len() == 6 && "current_task"@.len() == 12 && "parent"@.len() == 6);
    assert("session_id"@[0] != "total_cost"@[0]);
    assert("session_id"@[0] != "created_at"@[0]);
    assert("total_cost"@[0] != "created_at"@[0]);
    assert("status"@[0] != "parent"@[0]);
    let fields = agent_detail_model(s)->Object_0;
    lookup_steps(fields, "name"@, 0);
    lookup_steps(fields, "model"@, 1);
    lookup_steps(fields, "system_prompt"@, 2);
    lookup_steps(fields, "work_dir"@, 3);
    lookup_steps(fields, "max_turns"@, 4);
    lookup_steps(fields, "pid"@, 5);
    lookup_steps(fields, "session_id"@, 6);
    lookup_steps(fields, "total_turns"@, 7);
    lookup_steps(fields, "total_cost"@, 8);
    lookup_steps(fields, "created_at"@, 9);
    lookup_steps(fields, "status"@, 10);
    lookup_steps(fields, "current_task"@, 11);
    lookup_steps(fields, "parent"@, 12);
}

/// A session is told with its agent, its turns, its start and its cost; its status is that of the agent while that is on the bus.
pub proof fn session_is_told(s: AgentState, live: Seq<Seq<char>>)
    ensures
        context_model(s, live).text_field("agent"@) == Some(s.name@),
        context_model(s, live).get("session_turns"@) == Some(JsonModel::Number(s.total_turns as int)),
        context_model(s, live).text_field("session_start"@) == Some(s.created_at@),
        context_model(s, live).get("session_cost_usd"@) == Some(JsonModel::Float(s.total_cost@)),
        context_model(s, live).text_field("status"@) == Some((if live.contains(s.name@) { s.status@ } else { "stopped"@ })),
        context_model(s, live).text_field("model"@) == Some(s.model@),
{
    reveal_strlit("agent");
    reveal_strlit("context_tokens");
    reveal_strlit("context_limit");
    reveal_strlit("context_utilization");
    reveal_strlit("session_turns");
    reveal_strlit("session_start");
    reveal_strlit("session_cost_usd");
    reveal_strlit("last_turn_cost_usd");
    reveal_strlit("cache_hit_rate");
    reveal_strlit("status");
    reveal_strlit("model");
    assert("agent"@.len() == 5 && "context_tokens"@.len() == 14 && "context_limit"@.len() == 13 && "context_utilization"@.len() == 19 && "session_turns"@.len() == 13 && "session_start"@.len() == 13 && "session_cost_usd"@.len() == 16 && "last_turn_cost_usd"@.len() == 18 && "cache_hit_rate"@.len() == 14 && "status"@.len() == 6 && "model"@.len() == 5);
    assert("agent"@[0] != "model"@[0]);
    assert("context_tokens"@[1] != "cache_hit_rate"@[1]);
    assert("context_limit"@[0] != "session_turns"@[0]);
    assert("context_limit"@[0] != "session_start"@[0]);
    assert("session_turns"@[8] != "session_start"@[8]);
    let fields = context_model(s, live)->Object_0;
    lookup_steps(fields, "agent"@, 0);
    lookup_steps(fields, "context_tokens"@, 1);
    lookup_steps(fields, "context_limit"@, 2);
    lookup_steps(fields, "context_utilization"@, 3);
    lookup_steps(fields, "session_turns"@, 4);
    lookup_steps(fields, "session_start"@, 5);
    lookup_steps(fields, "session_cost_usd"@, 6);
    lookup_steps(fields, "last_turn_cost_usd"@, 7);
    lookup_steps(fields, "cache_hit_rate"@, 8);
    lookup_steps(fields, "status"@, 9);
    lookup_steps(fields, "model"@, 10);
}

/// A task is told with all that is kept of it.
pub proof fn task_of_the_queue_is_told_in_full(t: TaskRecord)
    ensures
        task_detail_model(t).text_field("id"@) == Some(t.task.id@),
        task_detail_model(t).text_field("description"@) == Some(t.task.description@),
        task_detail_model(t).text_field("status"@) == Some(t.task.status.name()),
        task_detail_model(t).text_field("assignee"@) == opt_text(t.task.assignee),
        task_detail_model(t).text_field("created_by"@) == Some(t.task.created_by@),
        task_detail_model(t).text_field("created_at"@) == Some(t.task.created_at@),
        task_detail_model(t).text_field("updated_at"@) == Some(t.updated_at@),
        task_detail_model(t).text_field("result"@) == opt_text(t.result),
        task_detail_model(t).text_field("error"@) == opt_text(t.error),
        task_detail_model(t).get("cost_usd"@) == Some(opt_float_model(t.cost_usd)),
        task_detail_model(t).get("turns"@) == Some(opt_count_model(t.turns)),
        task_detail_model(t).text_field("sm_instance_id"@) == opt_text(t.task.sm_instance_id),
        task_detail_model(t).get("metadata"@) == Some(t.metadata@),
{
    reveal_strlit("id");
    reveal_strlit("description");
    reveal_strlit("status");
    reveal_strlit("assignee");
    reveal_strlit("created_by");
    reveal_strlit("created_at");
    reveal_strlit("updated_at");
    reveal_strlit("result");
    reveal_strlit("error");
    reveal_strlit("cost_usd");
    reveal_strlit("turns");
    reveal_strlit("sm_instance_id");
    reveal_strlit("metadata");
    assert("id"@.len() == 2 && "description"@.len() == 11 && "status"@.len() == 6 && "assignee"@.len() == 8 && "created_by"@.len() == 10 && "created_at"@.len() == 10 && "updated_at"@.len() == 10 && "result"@.len() == 6 && "error"@.len() == 5 && "cost_usd"@.len() == 8 && "turns"@.len() == 5 && "sm_instance_id"@.len() == 14 && "metadata"@.len() == 8);
    assert("status"@[0] != "result"@[0]);
    assert("assignee"@[0] != "cost_usd"@[0]);
    assert("assignee"@[0] != "metadata"@[0]);
    assert("created_by"@[8] != "created_at"@[8]);
    assert("created_by"@[0] != "updated_at"@[0]);
    assert("created_at"@[0] != "updated_at"@[0]);
    assert("error"@[0] != "turns"@[0]);
    assert("cost_usd"@[0] != "metadata"@[0]);
    let fields = task_detail_model(t)->Object_0;
    lookup_steps(fields, "id"@, 0);
    lookup_steps(fields, "description"@, 1);
    lookup_steps(fields, "status"@, 2);
    lookup_steps(fields, "assignee"@, 3);
    lookup_steps(fields, "created_by"@, 4);
    lookup_steps(fields, "created_at"@, 5);
    lookup_steps(fields, "updated_at"@, 6);
    lookup_steps(fields, "result"@, 7);
    lookup_steps(fields, "error"@, 8);
    lookup_steps(fields, "cost_usd"@, 9);
    lookup_steps(fields, "turns"@, 10);
    lookup_steps(fields, "sm_instance_id"@, 11);
    lookup_steps(fields, "metadata"@, 12);
}

/// A request of an agent is told with its description, its status and what it took.
pub proof fn request_of_an_agent_is_told(t: TaskRecord)
    ensures
        request_model(t).text_field("id"@) == Some(t.task.id@),
        request_model(t).text_field("description"@) == Some(t.task.description@),
        request_model(t).get("turns"@) == Some(opt_count_model(t.turns)),
        request_model(t).get("cost_usd"@) == Some(opt_float_model(t.cost_usd)),
        request_model(t).text_field("status"@) == Some(t.task.status.name()),
        request_model(t).text_field("created_at"@) == Some(t.task.created_at@),
{
    reveal_strlit("id");
    reveal_strlit("description");
    reveal_strlit("turns");
    reveal_strlit("cost_usd");
    reveal_strlit("status");
    reveal_strlit("created_at");
    assert("id"@.len() == 2 && "description"@.len() == 11 && "turns"@.len() == 5 && "cost_usd"@.len() == 8 && "status"@.len() == 6 && "created_at"@.len() == 10);
    let fields = request_model(t)->Object_0;
    lookup_steps(fields, "id"@, 0);
    lookup_steps(fields, "description"@, 1);
    lookup_steps(fields, "turns"@, 2);
    lookup_steps(fields, "cost_usd"@, 3);
    lookup_steps(fields, "status"@, 4);
    lookup_steps(fields, "created_at"@, 5);
}

/// A bus is told with its socket and its clients.
pub proof fn bus_is_told(socket: Seq<char>, clients: Seq<Seq<char>>)
    ensures
        bus_status_model(socket, clients).text_field("socket"@) == Some(socket),
        lists_texts(bus_status_model(socket, clients).at("clients"@), clients),
{
    reveal_strlit("socket");
    reveal_strlit("clients");
    assert("socket"@.len() == 6 && "clients"@.len() == 7);
    let fields = bus_status_model(socket, clients)->Object_0;
    lookup_steps(fields, "socket"@, 0);
    lookup_steps(fields, "clients"@, 1);
    text_list_holds_its_texts(clients);
}

/// A new task is told with its id and its description.
pub proof fn new_task_is_told(id: Seq<char>, description: Seq<char>)
    ensures
        task_created_model(id, description).text_field("id"@) == Some(id),
        task_created_model(id, description).text_field("description"@) == Some(description),
{
    reveal_strlit("id");
    reveal_strlit("description");
    assert("id"@.len() == 2 && "description"@.len() == 11);
    let fields = task_created_model(id, description)->Object_0;
    lookup_steps(fields, "id"@, 0);
    lookup_steps(fields, "description"@, 1);
}

/// A cancellation is told with what was cancelled.
pub proof fn cancellation_is_told(id: Seq<char>)
    ensures
        cancelled_model(id).text_field("id"@) == Some(id),
        cancelled_model(id).bool_field("cancelled"@) == Some(true),
{
    reveal_strlit("id");
    reveal_strlit("cancelled");
    assert("id"@.len() == 2 && "cancelled"@.len() == 9);
    let fields = cancelled_model(id)->Object_0;
    lookup_steps(fields, "id"@, 0);
    lookup_steps(fields, "cancelled"@, 1);
}

/// A message that was sent is told with its id.
pub proof fn sending_is_told(id: Seq<char>)
    ensures
        sent_model(id).bool_field("sent"@) == Some(true),
        sent_model(id).text_field("id"@) == Some(id),
{
    reveal_strlit("sent");
    reveal_strlit("id");
    assert("sent"@.len() == 4 && "id"@.len() == 2);
    let fields = sent_model(id)->Object_0;
    lookup_steps(fields, "sent"@, 0);
    lookup_steps(fields, "id"@, 1);
}

/// A transition is told with the states between which it leads.
pub proof fn transition_is_told(t: TransitionDef)
    ensures
        transition_model(t).text_field("from"@) == Some(t.from@),
        transition_model(t).text_field("to"@) == Some(t.to@),
        transition_model(t).text_field("trigger"@) == opt_text(t.trigger),
{
    reveal_strlit("from");
    reveal_strlit("to");
    reveal_strlit("trigger");
    assert("from"@.len() == 4 && "to"@.len() == 2 && "trigger"@.len() == 7);
    let fields = transition_model(t)->Object_0;
    lookup_steps(fields, "from"@, 0);
    lookup_steps(fields, "to"@, 1);
    lookup_steps(fields, "trigger"@, 2);
}

/// A model is told with its name, its states and its transitions.
pub proof fn model_is_told(m: ModelDef)
    ensures
        model_model(m).text_field("name"@) == Some(m.name@),
        lists_texts(model_model(m).at("states"@), texts(m.states@)),
{
    reveal_strlit("name");
    reveal_strlit("states");
    reveal_strlit("transitions");
    assert("name"@.len() == 4 && "states"@.len() == 6 && "transitions"@.len() == 11);
    let fields = model_model(m)->Object_0;
    lookup_steps(fields, "name"@, 0);
    lookup_steps(fields, "states"@, 1);
    lookup_steps(fields, "transitions"@, 2);
    text_list_holds_its_texts(texts(m.states@));
}

/// A new instance is told with its model, its state and its assignee.
pub proof fn new_instance_is_told(i: SmInstance)
    ensures
        sm_created_model(i).text_field("id"@) == Some(i.id@),
        sm_created_model(i).text_field("model"@) == Some(i.model@),
        sm_created_model(i).text_field("state"@) == Some(i.state@),
        sm_created_model(i).text_field("assignee"@) == Some(i.assignee@),
{
    reveal_strlit("id");
    reveal_strlit("model");
    reveal_strlit("state");
    reveal_strlit("assignee");
    assert("id"@.len() == 2 && "model"@.len() == 5 && "state"@.len() == 5 && "assignee"@.len() == 8);
    assert("model"@[0] != "state"@[0]);
    let fields = sm_created_model(i)->Object_0;
    lookup_steps(fields, "id"@, 0);
    lookup_steps(fields, "model"@, 1);
    lookup_steps(fields, "state"@, 2);
    lookup_steps(fields, "assignee"@, 3);
}

/// A moved instance is told with its new state.
pub proof fn moved_instance_is_told(i: SmInstance)
    ensures
        sm_moved_model(i).text_field("id"@) == Some(i.id@),
        sm_moved_model(i).text_field("state"@) == Some(i.state@),
        sm_moved_model(i).text_field("model"@) == Some(i.model@),
{
    reveal_strlit("id");
    reveal_strlit("state");
    reveal_strlit("model");
    assert("id"@.len() == 2 && "state"@.len() == 5 && "model"@.len() == 5);
    assert("state"@[0] != "model"@[0]);
    let fields = sm_moved_model(i)->Object_0;
    lookup_steps(fields, "id"@, 0);
    lookup_steps(fields, "state"@, 1);
    lookup_steps(fields, "model"@, 2);
}

/// A message of an agent is told with its sender, its text and its time.
pub proof fn message_of_an_agent_is_told(m: InboxMessage)
    ensures
        inbox_message_model(m).text_field("role"@) == opt_text(m.from),
        inbox_message_model(m).text_field("text"@) == Some(m.text@),
        inbox_message_model(m).text_field("timestamp"@) == Some(m.ts@),
{
    reveal_strlit("role");
    reveal_strlit("text");
    reveal_strlit("timestamp");
    assert("role"@.len() == 4 && "text"@.len() == 4 && "timestamp"@.len() == 9);
    assert("role"@[0] != "text"@[0]);
    let fields = inbox_message_model(m)->Object_0;
    lookup_steps(fields, "role"@, 0);
    lookup_steps(fields, "text"@, 1);
    lookup_steps(fields, "timestamp"@, 2);
}

/// The requests of an agent are the tasks that it is assigned to or has made.
pub proof fn requests_concern_the_agent(tasks: Seq<TaskRecord>, agent: Seq<char>, v: JsonModel)
    ensures
        requests_of(tasks, agent).contains(v) <==> exists|i: int|
            0 <= i < tasks.len() && request_model(#[trigger] tasks[i]) == v && (opt_text(tasks[i].task.assignee) == Some(agent) || tasks[i].task.created_by@ == agent),
    decreases tasks.len(),
{
    if tasks.len() > 0 {
        let front = tasks.drop_last();
        let head = requests_of(front, agent);
        let out = requests_of(tasks, agent);
        requests_concern_the_agent(front, agent, v);
        if out.contains(v) {
            let k = choose|k: int| 0 <= k < out.len() && out[k] == v;
            if k < head.len() {
                assert(head[k] == v);
                let i = choose|i: int|
                    0 <= i < front.len() && request_model(#[trigger] front[i]) == v && (opt_text(front[i].task.assignee) == Some(agent) || front[i].task.created_by@ == agent);
                assert(tasks[i] == front[i]);
            } else {
                assert(tasks[tasks.len() - 1] == tasks.last());
            }
        }
        if exists|i: int|
            0 <= i < tasks.len() && request_model(#[trigger] tasks[i]) == v && (opt_text(tasks[i].task.assignee) == Some(agent) || tasks[i].task.created_by@ == agent) {
            let i = choose|i: int|
                0 <= i < tasks.len() && request_model(#[trigger] tasks[i]) == v && (opt_text(tasks[i].task.assignee) == Some(agent) || tasks[i].task.created_by@ == agent);
            if i < front.len() {
                assert(front[i] == tasks[i]);
                let k = choose|k: int| 0 <= k < head.len() && head[k] == v;
                assert(out[k] == v);
            } else {
                assert(out[out.len() - 1] == v);
            }
        }
    }
}

/// An agent that is on the bus is told as running, and any other as finished.
pub proof fn agents_on_the_bus_run(s: AgentState, live: Seq<Seq<char>>)
    ensures
        live.contains(s.name@) ==> listed_agent(s, live).text_field("status"@) == Some("running"@),
        !live.contains(s.name@) ==> listed_agent(s, live).text_field("status"@) == Some(
            "finished"@,
        ),
        listed_agent(s, live).text_field("name"@) == Some(s.name@),
        listed_agent(s, live).text_field("model"@) == Some(s.model@),
{
    agent_is_summed_up(s.name@, !live.contains(s.name@), s);
}

/// A name finds an agent exactly where there is one of that name: the first one.
pub proof fn state_index_is_the_first(agents: Seq<AgentState>, name: Seq<char>)
    ensures
        state_index(agents, name) <= agents.len(),
        forall|j: int| 0 <= j < state_index(agents, name) ==> (#[trigger] agents[j]).name@ != name,
        state_index(agents, name) < agents.len() ==> agents[state_index(agents, name) as int].name@
            == name,
    decreases agents.len(),
{
    if agents.len() > 0 && agents[0].name@ != name {
        let rest = agents.skip(1);
        state_index_is_the_first(rest, name);
        assert forall|j: int| 0 <= j < state_index(agents, name) implies (
        #[trigger] agents[j]).name@ != name by {
            if j > 0 {
                assert(rest[j - 1] == agents[j]);
            }
        }
    }
}

/// A session is told of exactly the agent that is asked for, or of all, in order; an agent
/// that is not known is refused.
pub proof fn sessions_are_told_of_whom_is_asked(
    name: &str,
    agents: Seq<AgentState>,
    live: Seq<Seq<char>>,
    r: Result<Json, String>,
)
    requires
        tells_context(Some(name), agents, live, r),
    ensures
        r is Ok <==> exists|i: int| 0 <= i < agents.len() && (#[trigger] agents[i]).name@ == name@,
        r matches Ok(v) ==> v@.text_field("agent"@) == Some(name@),
        r matches Err(e) ==> contains_spec(e@, name@),
{
    state_index_is_the_first(agents, name@);
    let i = state_index(agents, name@) as int;
    if i < agents.len() {
        session_is_told(agents[i], live);
    } else {
        part_occurs("agent '"@, name@, "' not found"@);
    }
}

/// Without a name, every agent's session is told, in order.
pub proof fn all_sessions_are_told(
    agents: Seq<AgentState>,
    live: Seq<Seq<char>>,
    r: Result<Json, String>,
    i: int,
)
    requires
        tells_context(None, agents, live, r),
        0 <= i < agents.len(),
    ensures
        r matches Ok(v) && (v@.as_list() matches Some(items) && items.len() == agents.len()
            && items[i].text_field("agent"@) == Some(agents[i].name@)),
{
    session_is_told(agents[i], live);
}

} // verus!
