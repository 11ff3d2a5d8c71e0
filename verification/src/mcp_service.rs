//! The operations behind the MCP tools.
use crate::agent::AgentState;
use crate::commands::sm::{is_terminal, notified_agent};
use crate::config::{find_model, model_named, ModelDef, UserConfig};
use crate::decimal::{decimal, show_u64, show_usize};
use crate::ids::{is_uuid, new_id};
use crate::json::{
    collect_text_entries, item_models, opt_text_model, or_null, pair_texts, text_entries_of, Fields,
    Items, Json, JsonModel,
};
use crate::json_text::{compact_text, pretty, pretty_text};
use crate::mcp_protocol::{register, register_model};
use crate::message::{
    lookup_absent, lookup_steps, message_of, BusMetadata, DEFAULT_PRIORITY, MessageModel,
};
use crate::text::{
    both_parts_occur, byte_len, byte_prefix, byte_prefix_spec, cat, cat3, cat5, contains_spec,
    opt_str, opt_text, part_occurs, same, starts_with_spec, texts, trim, trim_spec, utf8_len,
};
use vstd::prelude::*;
use vstd::string::*;

verus! {

// ─── Reminders ──────────────────────────────────────────────────────────────

/// The JSON form of a reminder.
pub open spec fn reminder_model(
    at: Seq<char>,
    target: Seq<char>,
    message: Seq<char>,
) -> JsonModel {
    JsonModel::Object(
        seq![
            ("at"@, JsonModel::Text(at)),
            ("target"@, JsonModel::Text(target)),
            ("message"@, JsonModel::Text(message)),
        ],
    )
}

/// What the file of a reminder holds.
pub fn create_reminder(at: &str, target: &str, message: &str) -> (r: String)
    ensures
        r@ == pretty_text(compact_text(reminder_model(at@, target@, message@))),
{
    let mut f = Fields::new();
    f.put_text("at", at);
    f.put_text("target", target);
    f.put_text("message", message);
    assert(f@ =~= reminder_model(at@, target@, message@)->Object_0);
    pretty(&f.object())
}

// ─── Inboxes ────────────────────────────────────────────────────────────────

/// A message of an inbox.
#[derive(Debug, PartialEq)]
pub struct InboxMessage {
    pub ts: String,
    pub source: String,
    pub from: Option<String>,
    pub text: String,
    pub metadata: Json,
}

/// The JSON form of an inbox with the number of its messages.
pub open spec fn inbox_model(name: Seq<char>, count: u64) -> JsonModel {
    JsonModel::Object(
        seq![("inbox"@, JsonModel::Text(name)), ("messages"@, JsonModel::Number(count as int))],
    )
}

/// The JSON forms of inboxes, in order.
pub open spec fn inbox_models(inboxes: Seq<(String, u64)>) -> Seq<JsonModel> {
    Seq::new(inboxes.len(), |i: int| inbox_model(inboxes[i].0@, inboxes[i].1))
}

/// The inboxes with the numbers of their messages.
pub fn list_inboxes(inboxes: &Vec<(String, u64)>) -> (r: Vec<Json>)
    ensures
        item_models(r@) == inbox_models(inboxes@),
{
    let ghost expected = inbox_models(inboxes@);
    let mut out: Vec<Json> = Vec::new();
    let mut i: usize = 0;
    while i < inboxes.len()
        invariant
            i <= inboxes@.len(),
            expected == inbox_models(inboxes@),
            out@.len() == i,
            forall|j: int| 0 <= j < i ==> (#[trigger] out@[j])@ == expected[j],
        decreases inboxes@.len() - i,
    {
        let mut f = Fields::new();
        f.put_text("inbox", &inboxes[i].0);
        f.put("messages", Json::uint(inboxes[i].1));
        assert(f@ =~= expected[i as int]->Object_0);
        out.push(f.object());
        i += 1;
    }
    assert(item_models(out@) =~= expected);
    out
}

/// The JSON form of a message of an inbox.
pub open spec fn unified_model(m: InboxMessage) -> JsonModel {
    JsonModel::Object(
        seq![
            ("ts"@, JsonModel::Text(m.ts@)),
            ("source"@, JsonModel::Text(m.source@)),
            ("from"@, opt_text_model(opt_text(m.from))),
            ("text"@, JsonModel::Text(m.text@)),
            ("metadata"@, m.metadata@),
        ],
    )
}

/// The JSON forms of messages, in order.
pub open spec fn unified_models(v: Seq<InboxMessage>) -> Seq<JsonModel> {
    Seq::new(v.len(), |i: int| unified_model(v[i]))
}

/// The JSON forms of the messages of an inbox, in order.
pub fn read_inbox(messages: &Vec<InboxMessage>) -> (r: Vec<Json>)
    ensures
        item_models(r@) == unified_models(messages@),
{
    let ghost expected = unified_models(messages@);
    let mut out: Vec<Json> = Vec::new();
    let mut i: usize = 0;
    while i < messages.len()
        invariant
            i <= messages@.len(),
            expected == unified_models(messages@),
            out@.len() == i,
            forall|j: int| 0 <= j < i ==> (#[trigger] out@[j])@ == expected[j],
        decreases messages@.len() - i,
    {
        let m = &messages[i];
        let mut f = Fields::new();
        f.put_text("ts", &m.ts);
        f.put_text("source", &m.source);
        f.put("from", Json::opt_text(&m.from));
        f.put_text("text", &m.text);
        f.put("metadata", m.metadata.copy());
        assert(f@ =~= expected[i as int]->Object_0);
        out.push(f.object());
        i += 1;
    }
    assert(item_models(out@) =~= expected);
    out
}

/// The JSON forms of the messages that a search found, in order.
pub fn search_inbox(found: &Vec<InboxMessage>) -> (r: Vec<Json>)
    ensures
        item_models(r@) == unified_models(found@),
{
    read_inbox(found)
}

// ─── Graph runs ─────────────────────────────────────────────────────────────

/// The outcome of a tool call in a graph.
#[derive(Debug, Clone, PartialEq)]
pub struct ToolResult {
    pub tool: String,
    pub stdout: String,
    pub stderr: String,
    pub exit_code: i32,
    pub skipped: bool,
}

/// The outcome of a step of a graph.
#[derive(Debug, Clone, PartialEq)]
pub struct StepResult {
    pub id: String,
    pub skipped: bool,
    pub duration_ms: u64,
    pub tool_results: Vec<ToolResult>,
    pub llm_output: Option<String>,
}

/// The outcome of a graph: the steps in their order, the outcomes that there
/// are, and the variables.
#[derive(Debug, Clone, PartialEq)]
pub struct GraphRun {
    pub graph: String,
    pub step_ids: Vec<String>,
    pub results: Vec<StepResult>,
    pub variables: Vec<(String, String)>,
}

/// A text of at most `n` bytes: a longer one is cut, and dots follow.
pub open spec fn clipped(s: Seq<char>, n: nat) -> Seq<char> {
    if byte_len(s) > n {
        byte_prefix_spec(s, n) + "..."@
    } else {
        s
    }
}

fn clip(s: &str, n: usize) -> (r: String)
    ensures
        r@ == clipped(s@, n as nat),
{
    if utf8_len(s) > n {
        cat(byte_prefix(s, n), "...")
    } else {
        String::from_str(s)
    }
}

/// What the summary says of a tool call.
pub open spec fn tool_text(t: ToolResult) -> Seq<char> {
    (if t.stdout@.len() > 0 && !t.skipped {
        "    "@ + t.tool@ + ": "@ + trim_spec(clipped(t.stdout@, 500)) + "\n"@
    } else {
        Seq::empty()
    }) + (if t.stderr@.len() > 0 && t.exit_code != 0 {
        "    "@ + t.tool@ + " stderr: "@ + trim_spec(clipped(t.stderr@, 200)) + "\n"@
    } else {
        Seq::empty()
    })
}

/// What the summary says of the first `n` tool calls.
pub open spec fn tools_text(v: Seq<ToolResult>, n: int) -> Seq<char>
    decreases n,
{
    if n <= 0 {
        Seq::empty()
    } else {
        tools_text(v, n - 1) + tool_text(v[n - 1])
    }
}

/// What the summary says of a step.
pub open spec fn step_text(s: StepResult) -> Seq<char> {
    "  ["@ + (if s.skipped {
        "SKIP"@
    } else {
        "DONE"@
    }) + "] "@ + s.id@ + " ("@ + decimal(s.duration_ms as nat) + "ms)\n"@ + tools_text(
        s.tool_results@,
        s.tool_results@.len() as int,
    ) + (match s.llm_output {
        Some(o) => "    LLM: "@ + trim_spec(clipped(o@, 500)) + "\n"@,
        None => Seq::empty(),
    })
}

/// The position of the first outcome of a step; the number of outcomes where
/// there is none.
pub open spec fn result_index(results: Seq<StepResult>, id: Seq<char>) -> nat
    decreases results.len(),
{
    if results.len() == 0 || results[0].id@ == id {
        0
    } else {
        1 + result_index(results.skip(1), id)
    }
}

/// What the summary says of the first `n` steps.
pub open spec fn steps_text(ids: Seq<Seq<char>>, results: Seq<StepResult>, n: int) -> Seq<char>
    decreases n,
{
    if n <= 0 {
        Seq::empty()
    } else {
        let i = result_index(results, ids[n - 1]) as int;
        steps_text(ids, results, n - 1) + (if i < results.len() {
            step_text(results[i])
        } else {
            Seq::empty()
        })
    }
}

/// What the summary says of the first `n` variables.
pub open spec fn variables_text(v: Seq<(String, String)>, n: int) -> Seq<char>
    decreases n,
{
    if n <= 0 {
        Seq::empty()
    } else {
        variables_text(v, n - 1) + "  "@ + v[n - 1].0@ + ": "@ + clipped(v[n - 1].1@, 200) + "\n"@
    }
}

/// The summary of a graph run.
pub open spec fn graph_summary(g: GraphRun) -> Seq<char> {
    "Graph '"@ + g.graph@ + "' completed: "@ + decimal(g.results@.len()) + " steps executed\n"@
        + steps_text(texts(g.step_ids@), g.results@, g.step_ids@.len() as int) + (
    if g.variables@.len() > 0 {
        "\nVariables:\n"@ + variables_text(g.variables@, g.variables@.len() as int)
    } else {
        Seq::empty()
    })
}

fn show_tool(t: &ToolResult) -> (r: String)
    ensures
        r@ == tool_text(*t),
{
    let mut out = String::new();
    if !t.stdout.as_str().is_empty() && !t.skipped {
        let shown = clip(&t.stdout, 500);
        let line = cat5("    ", &t.tool, ": ", trim(&shown), "\n");
        out.append(&line);
        assert(out@ =~= line@);
    }
    let ghost first = out@;
    if !t.stderr.as_str().is_empty() && t.exit_code != 0 {
        let shown = clip(&t.stderr, 200);
        let line = cat5("    ", &t.tool, " stderr: ", trim(&shown), "\n");
        out.append(&line);
    } else {
        assert(out@ =~= first + Seq::<char>::empty());
    }
    out
}

fn show_step(s: &StepResult) -> (r: String)
    ensures
        r@ == step_text(*s),
{
    let mut out = String::from_str("  [");
    if s.skipped {
        out.append("SKIP");
    } else {
        out.append("DONE");
    }
    out.append("] ");
    out.append(&s.id);
    out.append(" (");
    let ms = show_u64(s.duration_ms);
    out.append(&ms);
    out.append("ms)\n");
    let mut tools = String::new();
    let mut i: usize = 0;
    while i < s.tool_results.len()
        invariant
            i <= s.tool_results@.len(),
            tools@ == tools_text(s.tool_results@, i as int),
        decreases s.tool_results@.len() - i,
    {
        let line = show_tool(&s.tool_results[i]);
        tools.append(&line);
        i += 1;
    }
    out.append(&tools);
    match &s.llm_output {
        Some(o) => {
            let shown = clip(o, 500);
            let line = cat3("    LLM: ", trim(&shown), "\n");
            out.append(&line);
        },
        None => {
            assert(out@ =~= out@ + Seq::<char>::empty());
        },
    }
    out
}

fn find_result<'a>(results: &'a Vec<StepResult>, id: &str) -> (r: Option<&'a StepResult>)
    ensures
        match r {
            Some(s) => result_index(results@, id@) < results@.len() && *s == results@[result_index(
                results@,
                id@,
            ) as int],
            None => result_index(results@, id@) >= results@.len(),
        },
{
    let mut i: usize = 0;
    assert(results@.skip(0) =~= results@);
    while i < results.len()
        invariant
            i <= results@.len(),
            result_index(results@, id@) == i + result_index(results@.skip(i as int), id@),
        decreases results@.len() - i,
    {
        assert(results@.skip(i as int)[0] == results@[i as int]);
        if same(&results[i].id, id) {
            return Some(&results[i]);
        }
        assert(results@.skip(i as int).skip(1) =~= results@.skip(i + 1));
        i += 1;
    }
    None
}

/// The summary of a graph run.
pub fn run_graph(g: &GraphRun) -> (r: String)
    ensures
        r@ == graph_summary(*g),
{
    let mut out = cat5(
        "Graph '",
        &g.graph,
        "' completed: ",
        &show_usize(g.results.len()),
        " steps executed\n",
    );
    let mut steps = String::new();
    let ghost ids = texts(g.step_ids@);
    let mut i: usize = 0;
    while i < g.step_ids.len()
        invariant
            i <= g.step_ids@.len(),
            ids == texts(g.step_ids@),
            steps@ == steps_text(ids, g.results@, i as int),
        decreases g.step_ids@.len() - i,
    {
        assert(ids[i as int] == g.step_ids@[i as int]@);
        match find_result(&g.results, &g.step_ids[i]) {
            Some(s) => {
                let text = show_step(s);
                steps.append(&text);
            },
            None => {
                assert(steps@ =~= steps@ + Seq::<char>::empty());
            },
        }
        i += 1;
    }
    out.append(&steps);
    if g.variables.len() > 0 {
        let mut vars = String::new();
        let mut k: usize = 0;
        while k < g.variables.len()
            invariant
                k <= g.variables@.len(),
                vars@ == variables_text(g.variables@, k as int),
            decreases g.variables@.len() - k,
        {
            vars.append("  ");
            vars.append(&g.variables[k].0);
            vars.append(": ");
            let shown = clip(&g.variables[k].1, 200);
            vars.append(&shown);
            vars.append("\n");
            k += 1;
        }
        let tail = cat("\nVariables:\n", &vars);
        out.append(&tail);
    } else {
        assert(out@ =~= out@ + Seq::<char>::empty());
    }
    out
}

/// The input variables of a graph: the fields with text values.
pub fn graph_inputs(vars: Option<&Json>) -> (r: Option<Vec<(String, String)>>)
    ensures
        match r {
            Some(v) => text_entries_of(or_null(vars)) == Some(pair_texts(v@)),
            None => text_entries_of(or_null(vars)) is None,
        },
{
    collect_text_entries(vars)
}

// ─── Task queue ─────────────────────────────────────────────────────────────

/// The status of a task.
#[derive(Debug, Clone, Copy, PartialEq, Eq, Structural)]
pub enum TaskStatus {
    Pending,
    Active,
    Done,
    Failed,
    Cancelled,
    DeadLetter,
}

impl TaskStatus {
    /// The name of the status.
    pub open spec fn name(self) -> Seq<char> {
        match self {
            TaskStatus::Pending => "pending"@,
            TaskStatus::Active => "active"@,
            TaskStatus::Done => "done"@,
            TaskStatus::Failed => "failed"@,
            TaskStatus::Cancelled => "cancelled"@,
            TaskStatus::DeadLetter => "dead_letter"@,
        }
    }

    /// The name of the status.
    pub fn as_str(self) -> (r: &'static str)
        ensures
            r@ == self.name(),
    {
        match self {
            TaskStatus::Pending => "pending",
            TaskStatus::Active => "active",
            TaskStatus::Done => "done",
            TaskStatus::Failed => "failed",
            TaskStatus::Cancelled => "cancelled",
            TaskStatus::DeadLetter => "dead_letter",
        }
    }
}

/// The status with a name.
pub open spec fn status_named(s: Seq<char>) -> Option<TaskStatus> {
    if s == "pending"@ {
        Some(TaskStatus::Pending)
    } else if s == "active"@ {
        Some(TaskStatus::Active)
    } else if s == "done"@ {
        Some(TaskStatus::Done)
    } else if s == "failed"@ {
        Some(TaskStatus::Failed)
    } else if s == "cancelled"@ {
        Some(TaskStatus::Cancelled)
    } else if s == "dead_letter"@ {
        Some(TaskStatus::DeadLetter)
    } else {
        None
    }
}

/// The status with a name.
pub fn parse_task_status(s: &str) -> (r: Option<TaskStatus>)
    ensures
        r == status_named(s@),
{
    if same(s, "pending") {
        Some(TaskStatus::Pending)
    } else if same(s, "active") {
        Some(TaskStatus::Active)
    } else if same(s, "done") {
        Some(TaskStatus::Done)
    } else if same(s, "failed") {
        Some(TaskStatus::Failed)
    } else if same(s, "cancelled") {
        Some(TaskStatus::Cancelled)
    } else if same(s, "dead_letter") {
        Some(TaskStatus::DeadLetter)
    } else {
        None
    }
}

/// A status comes back out of its name.
pub proof fn status_round_trip(st: TaskStatus)
    ensures
        status_named(st.name()) == Some(st),
{
    reveal_strlit("pending");
    reveal_strlit("active");
    reveal_strlit("done");
    reveal_strlit("failed");
    reveal_strlit("cancelled");
    reveal_strlit("dead_letter");
    assert("pending"@.len() == 7 && "active"@.len() == 6 && "done"@.len() == 4);
    assert("failed"@.len() == 6 && "cancelled"@.len() == 9 && "dead_letter"@.len() == 11);
    assert("active"@[0] != "failed"@[0]);
}

/// A task of the queue.
#[derive(Debug, Clone, PartialEq)]
pub struct QueueTask {
    pub id: String,
    pub description: String,
    pub status: TaskStatus,
    pub assignee: Option<String>,
    pub created_by: String,
    pub created_at: String,
    pub sm_instance_id: Option<String>,
}

/// The JSON form of a task of the queue.
pub open spec fn task_model(t: QueueTask) -> JsonModel {
    JsonModel::Object(
        seq![
            ("id"@, JsonModel::Text(t.id@)),
            ("description"@, JsonModel::Text(t.description@)),
            ("status"@, JsonModel::Text(t.status.name())),
            ("assignee"@, opt_text_model(opt_text(t.assignee))),
            ("created_by"@, JsonModel::Text(t.created_by@)),
            ("created_at"@, JsonModel::Text(t.created_at@)),
            ("sm_instance_id"@, opt_text_model(opt_text(t.sm_instance_id))),
        ],
    )
}

fn task_json(t: &QueueTask) -> (r: Json)
    ensures
        r@ == task_model(*t),
{
    let mut f = Fields::new();
    f.put_text("id", &t.id);
    f.put_text("description", &t.description);
    f.put_text("status", t.status.as_str());
    f.put("assignee", Json::opt_text(&t.assignee));
    f.put_text("created_by", &t.created_by);
    f.put_text("created_at", &t.created_at);
    f.put("sm_instance_id", Json::opt_text(&t.sm_instance_id));
    assert(f@ =~= task_model(*t)->Object_0);
    f.object()
}

/// The status that a filter names. A filter that names none lets every task
/// pass.
pub open spec fn status_filter_of(filter: Option<Seq<char>>) -> Option<TaskStatus> {
    match filter {
        Some(s) => status_named(s),
        None => None,
    }
}

/// The JSON forms of the tasks with a status, in order; of all tasks where no
/// status is given.
pub open spec fn listed_tasks(tasks: Seq<QueueTask>, status: Option<TaskStatus>) -> Seq<JsonModel>
    decreases tasks.len(),
{
    if tasks.len() == 0 {
        Seq::empty()
    } else {
        let head = listed_tasks(tasks.drop_last(), status);
        if status is None || status == Some(tasks.last().status) {
            head.push(task_model(tasks.last()))
        } else {
            head
        }
    }
}

/// The tasks of the queue, optionally those with a status only.
pub fn task_list(status_filter: Option<&str>, tasks: &Vec<QueueTask>) -> (r: Json)
    ensures
        r@ == JsonModel::List(listed_tasks(tasks@, status_filter_of(opt_str(status_filter)))),
{
    let status: Option<TaskStatus> = match status_filter {
        Some(s) => parse_task_status(s),
        None => None,
    };
    let mut out = Items::new();
    let mut i: usize = 0;
    assert(out@ =~= listed_tasks(tasks@.take(0), status));
    while i < tasks.len()
        invariant
            i <= tasks@.len(),
            status == status_filter_of(opt_str(status_filter)),
            out@ == listed_tasks(tasks@.take(i as int), status),
        decreases tasks@.len() - i,
    {
        assert(tasks@.take(i + 1).drop_last() =~= tasks@.take(i as int));
        assert(tasks@.take(i + 1).last() == tasks@[i as int]);
        let wanted: bool = match status {
            None => true,
            Some(s) => s == tasks[i].status,
        };
        if wanted {
            out.put(task_json(&tasks[i]));
        }
        i += 1;
    }
    assert(tasks@.take(i as int) =~= tasks@);
    out.list()
}

// ─── State machines ─────────────────────────────────────────────────────────

/// A state machine instance.
#[derive(Debug, Clone, PartialEq)]
pub struct SmInstance {
    pub id: String,
    pub model: String,
    pub title: String,
    pub body: String,
    pub state: String,
    pub assignee: String,
    pub updated_at: String,
}

/// The text of the first task of an instance.
pub open spec fn sm_task_text(i: SmInstance) -> Seq<char> {
    "---\n## Task: "@ + i.title@ + "\n\n"@ + i.body@ + "\n\n---\n## Metadata\ninstance_id: "@
        + i.id@ + "\nmodel: "@ + i.model@ + "\nstate: "@ + i.state@
}

/// The message that brings the first task of an instance to its assignee.
pub open spec fn sm_task_message(id: Seq<char>, i: SmInstance) -> MessageModel {
    MessageModel {
        id,
        source: "workflow-engine"@,
        target: i.assignee@,
        payload: JsonModel::Object(
            seq![
                ("task"@, JsonModel::Text(sm_task_text(i))),
                ("sm_instance_id"@, JsonModel::Text(i.id@)),
            ],
        ),
        reply_to: Some("sm:"@ + i.id@),
        metadata: BusMetadata { priority: DEFAULT_PRIORITY, fresh: false },
    }
}

/// That message as the engine puts it on the bus.
pub open spec fn sm_task_model(id: Seq<char>, i: SmInstance) -> JsonModel {
    JsonModel::Object(
        seq![
            ("type"@, JsonModel::Text("message"@)),
            ("id"@, JsonModel::Text(id)),
            ("source"@, JsonModel::Text("workflow-engine"@)),
            ("target"@, JsonModel::Text(i.assignee@)),
            (
                "payload"@,
                JsonModel::Object(
                    seq![
                        ("task"@, JsonModel::Text(sm_task_text(i))),
                        ("sm_instance_id"@, JsonModel::Text(i.id@)),
                    ],
                ),
            ),
            ("reply_to"@, JsonModel::Text("sm:"@ + i.id@)),
            ("metadata"@, JsonModel::Object(seq![("priority"@, JsonModel::Number(5))])),
        ],
    )
}

/// The bus reads the message as it was meant.
pub proof fn sm_task_is_read(id: Seq<char>, i: SmInstance)
    ensures
        message_of(sm_task_model(id, i)) == Some(sm_task_message(id, i)),
{
    let f = sm_task_model(id, i)->Object_0;
    reveal_strlit("type");
    reveal_strlit("id");
    reveal_strlit("source");
    reveal_strlit("target");
    reveal_strlit("payload");
    reveal_strlit("reply_to");
    reveal_strlit("metadata");
    reveal_strlit("priority");
    reveal_strlit("fresh");
    assert("source"@[0] != "target"@[0]);
    assert("reply_to"@[0] != "metadata"@[0]);
    assert("type"@.len() != "id"@.len());
    assert(f[0].0 == "type"@ && f[1].0 == "id"@ && f[2].0 == "source"@ && f[3].0 == "target"@);
    lookup_steps(f, "id"@, 1);
    lookup_steps(f, "source"@, 2);
    lookup_steps(f, "target"@, 3);
    lookup_steps(f, "payload"@, 4);
    lookup_steps(f, "reply_to"@, 5);
    lookup_steps(f, "metadata"@, 6);
    let m = f[6].1->Object_0;
    lookup_steps(m, "priority"@, 0);
    assert("priority"@.len() != "fresh"@.len());
    assert(m[0].0 == "priority"@);
    lookup_absent(m, "fresh"@);
}

/// What brings the first task of an instance to its assignee: the registration
/// of the sender, and the message under a new id.
pub fn dispatch_sm_task(agent_name: &str, inst: &SmInstance) -> (r: (Json, Json))
    ensures
        r.0@ == register_model(agent_name@ + "-mcp-sm"@, Seq::empty()),
        exists|id: Seq<char>| is_uuid(id) && r.1@ == #[trigger] sm_task_model(id, *inst),
{
    let mut text = String::from_str("---\n## Task: ");
    text.append(&inst.title);
    text.append("\n\n");
    text.append(&inst.body);
    text.append("\n\n---\n## Metadata\ninstance_id: ");
    text.append(&inst.id);
    text.append("\nmodel: ");
    text.append(&inst.model);
    text.append("\nstate: ");
    text.append(&inst.state);
    let none: Vec<String> = Vec::new();
    assert(texts(none@) =~= Seq::<Seq<char>>::empty());
    let reg = register(&cat(agent_name, "-mcp-sm"), &none);
    let id = new_id();
    let ghost expected = sm_task_model(id@, *inst)->Object_0;
    let mut payload = Fields::new();
    payload.put_text("task", &text);
    payload.put_text("sm_instance_id", &inst.id);
    assert(payload@ =~= expected[4].1->Object_0);
    let mut meta = Fields::new();
    meta.put("priority", Json::uint(5));
    assert(meta@ =~= expected[6].1->Object_0);
    let mut msg = Fields::new();
    msg.put_text("type", "message");
    msg.put_text("id", &id);
    msg.put_text("source", "workflow-engine");
    msg.put_text("target", &inst.assignee);
    msg.put("payload", payload.object());
    msg.put_text("reply_to", &cat("sm:", &inst.id));
    msg.put("metadata", meta.object());
    assert(msg@ =~= expected);
    let msg = msg.object();
    assert(msg@ == sm_task_model(id@, *inst));
    (reg, msg)
}

/// What is kept with a task or an instance: nothing where null was given.
pub fn given_metadata(metadata: Json) -> (r: Option<Json>)
    ensures
        r == (if metadata@ is Null {
            None
        } else {
            Some(metadata)
        }),
{
    match metadata {
        Json::Null => None,
        v => Some(v),
    }
}

/// What is said of a new instance.
#[derive(Debug, Clone, PartialEq)]
pub struct SmCreated {
    pub id: String,
    pub model: String,
    pub state: String,
    pub assignee: String,
}

/// The model of an instance to create.
pub fn sm_create<'a>(model_name: &str, config: &'a UserConfig) -> (r: Result<&'a ModelDef, String>)
    ensures
        match model_named(config.models@, model_name@) {
            Some(m) => r matches Ok(x) && *x == m,
            None => r matches Err(e) && e@ == "model '"@ + model_name@ + "' not found"@,
        },
{
    match find_model(&config.models, model_name) {
        Some(m) => Ok(m),
        None => Err(cat3("model '", model_name, "' not found")),
    }
}

/// Whether `r` tells a new instance, with the message that hands it to its assignee.
pub open spec fn sm_is_created(
    inst: SmInstance,
    agent: Seq<char>,
    r: (SmCreated, Option<(Json, Json)>),
) -> bool {
    &&& r.0.id@ == inst.id@ && r.0.model@ == inst.model@ && r.0.state@ == inst.state@
        && r.0.assignee@ == inst.assignee@
    &&& match r.1 {
        None => inst.assignee@.len() == 0,
        Some((reg, msg)) => inst.assignee@.len() > 0 && reg@ == register_model(
            agent + "-mcp-sm"@,
            Seq::empty(),
        ) && exists|id: Seq<char>|
            is_uuid(id) && msg@ == #[trigger] sm_task_model(id, inst),
    }
}

/// What follows the creation of an instance: what is said of it, and, where its
/// first state has an assignee, what brings the first task there.
pub fn finish_sm_create(inst: &SmInstance, agent_name: &str) -> (r: (
    SmCreated,
    Option<(Json, Json)>,
))
    ensures
        sm_is_created(*inst, agent_name@, r),
{
    let created = SmCreated {
        id: inst.id.clone(),
        model: inst.model.clone(),
        state: inst.state.clone(),
        assignee: inst.assignee.clone(),
    };
    if inst.assignee.as_str().is_empty() {
        (created, None)
    } else {
        (created, Some(dispatch_sm_task(agent_name, inst)))
    }
}

/// What is said of a moved instance.
#[derive(Debug, Clone, PartialEq)]
pub struct SmMoved {
    pub id: String,
    pub state: String,
    pub model: String,
}

/// The model of an instance to move.
pub fn sm_move<'a>(inst: &SmInstance, config: &'a UserConfig) -> (r: Result<&'a ModelDef, String>)
    ensures
        match model_named(config.models@, inst.model@) {
            Some(m) => r matches Ok(x) && *x == m,
            None => r matches Err(e) && e@ == "model '"@ + inst.model@ + "' not found in config"@,
        },
{
    match find_model(&config.models, &inst.model) {
        Some(m) => Ok(m),
        None => Err(cat3("model '", &inst.model, "' not found in config")),
    }
}

/// Whether `r` tells a move, and whether the workflow goes on.
pub open spec fn sm_is_moved(
    inst: SmInstance,
    model: ModelDef,
    r: (SmMoved, bool),
) -> bool {
    &&& r.0.id@ == inst.id@ && r.0.state@ == inst.state@ && r.0.model@ == inst.model@
    &&& r.1 == (inst.assignee@.len() > 0 && !is_terminal(model, inst.state@))
}

/// What follows a move: what is said of it, and whether the workflow engine is
/// told, which is where the new state has an assignee and does not end the
/// instance.
pub fn finish_sm_move(inst: &SmInstance, model: &ModelDef) -> (r: (SmMoved, bool))
    ensures
        sm_is_moved(*inst, *model, r),
{
    let moved = SmMoved {
        id: inst.id.clone(),
        state: inst.state.clone(),
        model: inst.model.clone(),
    };
    (moved, notified_agent(model, inst).is_some())
}

/// The JSON summary of an instance.
pub open spec fn instance_model(i: SmInstance) -> JsonModel {
    JsonModel::Object(
        seq![
            ("id"@, JsonModel::Text(i.id@)),
            ("model"@, JsonModel::Text(i.model@)),
            ("title"@, JsonModel::Text(i.title@)),
            ("state"@, JsonModel::Text(i.state@)),
            ("assignee"@, JsonModel::Text(i.assignee@)),
            ("updated_at"@, JsonModel::Text(i.updated_at@)),
        ],
    )
}

/// Whether an instance passes the filters.
pub open spec fn instance_passes(
    i: SmInstance,
    model: Option<Seq<char>>,
    state: Option<Seq<char>>,
) -> bool {
    &&& model matches Some(m) ==> i.model@ == m
    &&& state matches Some(s) ==> i.state@ == s
}

/// The summaries of the instances that pass the filters, in order.
pub open spec fn queried(
    instances: Seq<SmInstance>,
    model: Option<Seq<char>>,
    state: Option<Seq<char>>,
) -> Seq<JsonModel>
    decreases instances.len(),
{
    if instances.len() == 0 {
        Seq::empty()
    } else {
        let head = queried(instances.drop_last(), model, state);
        if instance_passes(instances.last(), model, state) {
            head.push(instance_model(instances.last()))
        } else {
            head
        }
    }
}

fn passes(i: &SmInstance, model: Option<&str>, state: Option<&str>) -> (r: bool)
    ensures
        r == instance_passes(*i, opt_str(model), opt_str(state)),
{
    (match model {
        Some(m) => same(&i.model, m),
        None => true,
    }) && (match state {
        Some(s) => same(&i.state, s),
        None => true,
    })
}

fn instance_json(i: &SmInstance) -> (r: Json)
    ensures
        r@ == instance_model(*i),
{
    let mut f = Fields::new();
    f.put_text("id", &i.id);
    f.put_text("model", &i.model);
    f.put_text("title", &i.title);
    f.put_text("state", &i.state);
    f.put_text("assignee", &i.assignee);
    f.put_text("updated_at", &i.updated_at);
    assert(f@ =~= instance_model(*i)->Object_0);
    f.object()
}

/// The summaries of the instances that pass the filters, in order.
pub fn sm_query(
    model_filter: Option<&str>,
    state_filter: Option<&str>,
    instances: &Vec<SmInstance>,
) -> (r: Json)
    ensures
        r@ == JsonModel::List(queried(instances@, opt_str(model_filter), opt_str(state_filter))),
{
    let mut out = Items::new();
    let mut i: usize = 0;
    assert(out@ =~= queried(instances@.take(0), opt_str(model_filter), opt_str(state_filter)));
    while i < instances.len()
        invariant
            i <= instances@.len(),
            out@ == queried(
                instances@.take(i as int),
                opt_str(model_filter),
                opt_str(state_filter),
            ),
        decreases instances@.len() - i,
    {
        assert(instances@.take(i + 1).drop_last() =~= instances@.take(i as int));
        assert(instances@.take(i + 1).last() == instances@[i as int]);
        if passes(&instances[i], model_filter, state_filter) {
            out.put(instance_json(&instances[i]));
        }
        i += 1;
    }
    assert(instances@.take(i as int) =~= instances@);
    out.list()
}

// ─── Agents ─────────────────────────────────────────────────────────────────

/// The summary of a sub-agent, of whose state `state` is known.
pub open spec fn agent_summary_model(
    name: Seq<char>,
    is_finished: bool,
    state: Option<&AgentState>,
) -> JsonModel {
    JsonModel::Object(
        seq![
            ("name"@, JsonModel::Text(name)),
            (
                "model"@,
                JsonModel::Text(
                    match state {
                        Some(s) => s.model@,
                        None => "unknown"@,
                    },
                ),
            ),
            (
                "status"@,
                JsonModel::Text(
                    if is_finished {
                        "finished"@
                    } else {
                        "running"@
                    },
                ),
            ),
            (
                "turns"@,
                JsonModel::Number(
                    match state {
                        Some(s) => s.total_turns as int,
                        None => 0,
                    },
                ),
            ),
            (
                "cost_usd"@,
                JsonModel::Float(
                    match state {
                        Some(s) => s.total_cost@,
                        None => "0.0"@,
                    },
                ),
            ),
        ],
    )
}

/// The summary of a sub-agent.
pub fn build_agent_summary(name: &str, is_finished: bool, state: Option<&AgentState>) -> (r: Json)
    ensures
        r@ == agent_summary_model(name@, is_finished, state),
{
    let mut f = Fields::new();
    f.put_text("name", name);
    match state {
        Some(s) => {
            f.put_text("model", &s.model);
        },
        None => {
            f.put_text("model", "unknown");
        },
    }
    if is_finished {
        f.put_text("status", "finished");
    } else {
        f.put_text("status", "running");
    }
    match state {
        Some(s) => {
            f.put("turns", Json::uint(s.total_turns as u64));
            f.put("cost_usd", Json::Float(s.total_cost.clone()));
        },
        None => {
            f.put("turns", Json::uint(0));
            f.put("cost_usd", Json::Float(String::from_str("0.0")));
        },
    }
    assert(f@ =~= agent_summary_model(name@, is_finished, state)->Object_0);
    f.object()
}

/// Whether an agent is a sub-agent of the caller.
pub open spec fn is_child_of(state: AgentState, caller: Seq<char>) -> bool {
    opt_text(state.parent) == Some(caller)
}

/// Whether `r` says that the caller may remove an agent.
pub open spec fn may_remove(
    name: Seq<char>,
    caller: Seq<char>,
    state: Option<&AgentState>,
    r: Result<(), String>,
) -> bool {
    match state {
        None => r matches Err(e) && e@ == "agent '"@ + name + "' not found"@,
        Some(s) => if is_child_of(*s, caller) {
            r is Ok
        } else {
            r matches Err(e) && e@ == "agent '"@ + name + "' is not a sub-agent of '"@
                + caller + "' — removal denied"@
        },
    }
}

/// Whether the caller may remove an agent: it must be a sub-agent of the caller.
pub fn validate_remove_agent(name: &str, caller: &str, state: Option<&AgentState>) -> (r: Result<
    (),
    String,
>)
    ensures
        may_remove(name@, caller@, state, r),
{
    let s = match state {
        Some(s) => s,
        None => {
            return Err(cat3("agent '", name, "' not found"));
        },
    };
    let child: bool = match &s.parent {
        Some(p) => same(p, caller),
        None => false,
    };
    if child {
        Ok(())
    } else {
        Err(
            cat5(
                "agent '",
                name,
                "' is not a sub-agent of '",
                caller,
                "' — removal denied",
            ),
        )
    }
}

/// How long an agent may take to exit, in milliseconds.
pub const STOP_DEADLINE_MS: u64 = 30_000;

/// A step in stopping a process.
#[derive(Debug, Clone, Copy, PartialEq, Eq)]
pub enum StopStep {
    /// The process is gone.
    Done,
    /// Ask the process to exit.
    Terminate,
    /// Wait, then look again.
    Wait,
    /// Kill the process; then it is gone.
    Kill,
}

/// The first step in stopping a process. There is none without a process.
pub fn stop_agent_process(pid: u32) -> (r: StopStep)
    ensures
        r == (if pid == 0 {
            StopStep::Done
        } else {
            StopStep::Terminate
        }),
{
    if pid == 0 {
        StopStep::Done
    } else {
        StopStep::Terminate
    }
}

/// Whether `r` is the next step to stop a process.
pub open spec fn stops_by(
    alive: bool,
    waited_ms: u64,
    r: StopStep,
) -> bool {
    r == (if !alive {
        StopStep::Done
    } else if waited_ms >= STOP_DEADLINE_MS {
        StopStep::Kill
    } else {
        StopStep::Wait
    })
}

/// The next step after a process was asked to exit `waited_ms` ago.
pub fn next_stop_step(alive: bool, waited_ms: u64) -> (r: StopStep)
    ensures
        stops_by(alive, waited_ms, r),
{
    if !alive {
        StopStep::Done
    } else if waited_ms >= STOP_DEADLINE_MS {
        StopStep::Kill
    } else {
        StopStep::Wait
    }
}

// ─── What the values tell ───────────────────────────────────────────────────

/// A reminder holds its time, its target and its message.
pub proof fn reminder_tells_when_whom_and_what(at: Seq<char>, target: Seq<char>, message: Seq<char>)
    ensures
        reminder_model(at, target, message).text_field("at"@) == Some(at),
        reminder_model(at, target, message).text_field("target"@) == Some(target),
        reminder_model(at, target, message).text_field("message"@) == Some(message),
{
    reveal_strlit("at");
    reveal_strlit("target");
    reveal_strlit("message");
    assert("at"@.len() == 2 && "target"@.len() == 6 && "message"@.len() == 7);
    let fields = reminder_model(at, target, message)->Object_0;
    lookup_steps(fields, "at"@, 0);
    lookup_steps(fields, "target"@, 1);
    lookup_steps(fields, "message"@, 2);
}

/// An inbox is told with its name and the number of its messages.
pub proof fn inbox_tells_its_name_and_count(name: Seq<char>, count: u64)
    ensures
        inbox_model(name, count).text_field("inbox"@) == Some(name),
        inbox_model(name, count).get("messages"@) == Some(JsonModel::Number(count as int)),
{
    reveal_strlit("inbox");
    reveal_strlit("messages");
    assert("inbox"@.len() == 5 && "messages"@.len() == 8);
    let fields = inbox_model(name, count)->Object_0;
    lookup_steps(fields, "inbox"@, 0);
    lookup_steps(fields, "messages"@, 1);
}

/// A message of an inbox is told with its time, its source, its sender, its text and its metadata.
pub proof fn message_of_an_inbox_is_told_in_full(m: InboxMessage)
    ensures
        unified_model(m).text_field("ts"@) == Some(m.ts@),
        unified_model(m).text_field("source"@) == Some(m.source@),
        unified_model(m).text_field("from"@) == opt_text(m.from),
        unified_model(m).text_field("text"@) == Some(m.text@),
        unified_model(m).get("metadata"@) == Some(m.metadata@),
{
    reveal_strlit("ts");
    reveal_strlit("source");
    reveal_strlit("from");
    reveal_strlit("text");
    reveal_strlit("metadata");
    assert("ts"@.len() == 2 && "source"@.len() == 6 && "from"@.len() == 4 && "text"@.len() == 4 && "metadata"@.len() == 8);
    assert("from"@[0] != "text"@[0]);
    let fields = unified_model(m)->Object_0;
    lookup_steps(fields, "ts"@, 0);
    lookup_steps(fields, "source"@, 1);
    lookup_steps(fields, "from"@, 2);
    lookup_steps(fields, "text"@, 3);
    lookup_steps(fields, "metadata"@, 4);
}

/// A task of the queue is told with all that is kept of it.
pub proof fn task_is_told_in_full(t: QueueTask)
    ensures
        task_model(t).text_field("id"@) == Some(t.id@),
        task_model(t).text_field("description"@) == Some(t.description@),
        task_model(t).text_field("status"@) == Some(t.status.name()),
        task_model(t).text_field("assignee"@) == opt_text(t.assignee),
        task_model(t).text_field("created_by"@) == Some(t.created_by@),
        task_model(t).text_field("created_at"@) == Some(t.created_at@),
        task_model(t).text_field("sm_instance_id"@) == opt_text(t.sm_instance_id),
{
    reveal_strlit("id");
    reveal_strlit("description");
    reveal_strlit("status");
    reveal_strlit("assignee");
    reveal_strlit("created_by");
    reveal_strlit("created_at");
    reveal_strlit("sm_instance_id");
    assert("id"@.len() == 2 && "description"@.len() == 11 && "status"@.len() == 6 && "assignee"@.len() == 8 && "created_by"@.len() == 10 && "created_at"@.len() == 10 && "sm_instance_id"@.len() == 14);
    assert("created_by"@[8] != "created_at"@[8]);
    let fields = task_model(t)->Object_0;
    lookup_steps(fields, "id"@, 0);
    lookup_steps(fields, "description"@, 1);
    lookup_steps(fields, "status"@, 2);
    lookup_steps(fields, "assignee"@, 3);
    lookup_steps(fields, "created_by"@, 4);
    lookup_steps(fields, "created_at"@, 5);
    lookup_steps(fields, "sm_instance_id"@, 6);
}

/// An instance is told with its id, its model, its title, its state and its assignee.
pub proof fn instance_is_told_in_full(i: SmInstance)
    ensures
        instance_model(i).text_field("id"@) == Some(i.id@),
        instance_model(i).text_field("model"@) == Some(i.model@),
        instance_model(i).text_field("title"@) == Some(i.title@),
        instance_model(i).text_field("state"@) == Some(i.state@),
        instance_model(i).text_field("assignee"@) == Some(i.assignee@),
        instance_model(i).text_field("updated_at"@) == Some(i.updated_at@),
{
    reveal_strlit("id");
    reveal_strlit("model");
    reveal_strlit("title");
    reveal_strlit("state");
    reveal_strlit("assignee");
    reveal_strlit("updated_at");
    assert("id"@.len() == 2 && "model"@.len() == 5 && "title"@.len() == 5 && "state"@.len() == 5 && "assignee"@.len() == 8 && "updated_at"@.len() == 10);
    assert("model"@[0] != "title"@[0]);
    assert("model"@[0] != "state"@[0]);
    assert("title"@[0] != "state"@[0]);
    let fields = instance_model(i)->Object_0;
    lookup_steps(fields, "id"@, 0);
    lookup_steps(fields, "model"@, 1);
    lookup_steps(fields, "title"@, 2);
    lookup_steps(fields, "state"@, 3);
    lookup_steps(fields, "assignee"@, 4);
    lookup_steps(fields, "updated_at"@, 5);
}

/// An agent is summed up with its name, its model, whether it runs, its turns and its cost.
pub proof fn agent_is_summed_up(name: Seq<char>, is_finished: bool, s: AgentState)
    ensures
        agent_summary_model(name, is_finished, Some(&s)).text_field("name"@) == Some(name),
        agent_summary_model(name, is_finished, Some(&s)).text_field("model"@) == Some(s.model@),
        agent_summary_model(name, is_finished, Some(&s)).text_field("status"@) == Some((if is_finished { "finished"@ } else { "running"@ })),
        agent_summary_model(name, is_finished, Some(&s)).get("turns"@) == Some(JsonModel::Number(s.total_turns as int)),
        agent_summary_model(name, is_finished, Some(&s)).get("cost_usd"@) == Some(JsonModel::Float(s.total_cost@)),
{
    reveal_strlit("name");
    reveal_strlit("model");
    reveal_strlit("status");
    reveal_strlit("turns");
    reveal_strlit("cost_usd");
    assert("name"@.len() == 4 && "model"@.len() == 5 && "status"@.len() == 6 && "turns"@.len() == 5 && "cost_usd"@.len() == 8);
    assert("model"@[0] != "turns"@[0]);
    let fields = agent_summary_model(name, is_finished, Some(&s))->Object_0;
    lookup_steps(fields, "name"@, 0);
    lookup_steps(fields, "model"@, 1);
    lookup_steps(fields, "status"@, 2);
    lookup_steps(fields, "turns"@, 3);
    lookup_steps(fields, "cost_usd"@, 4);
}

/// A task is listed exactly where it has the status that is asked for, or where none is.
pub proof fn listed_tasks_have_the_status(tasks: Seq<QueueTask>, status: Option<TaskStatus>, v: JsonModel)
    ensures
        listed_tasks(tasks, status).contains(v) <==> exists|i: int|
            0 <= i < tasks.len() && task_model(#[trigger] tasks[i]) == v && (status is None || status == Some(tasks[i].status)),
    decreases tasks.len(),
{
    if tasks.len() > 0 {
        let front = tasks.drop_last();
        let head = listed_tasks(front, status);
        let out = listed_tasks(tasks, status);
        listed_tasks_have_the_status(front, status, v);
        if out.contains(v) {
            let k = choose|k: int| 0 <= k < out.len() && out[k] == v;
            if k < head.len() {
                assert(head[k] == v);
                let i = choose|i: int|
                    0 <= i < front.len() && task_model(#[trigger] front[i]) == v && (status is None || status == Some(front[i].status));
                assert(tasks[i] == front[i]);
            } else {
                assert(tasks[tasks.len() - 1] == tasks.last());
            }
        }
        if exists|i: int|
            0 <= i < tasks.len() && task_model(#[trigger] tasks[i]) == v && (status is None || status == Some(tasks[i].status)) {
            let i = choose|i: int|
                0 <= i < tasks.len() && task_model(#[trigger] tasks[i]) == v && (status is None || status == Some(tasks[i].status));
            if i < front.len() {
                assert(front[i] == tasks[i]);
                let k = choose|k: int| 0 <= k < head.len() && head[k] == v;
                assert(out[k] == v);
            } else {
                assert(out[out.len() - 1] == v);
            }
        }
    }
}

/// An instance is found exactly where its model and its state are those asked for, as far as they are.
pub proof fn queried_instances_pass_the_filters(instances: Seq<SmInstance>, model: Option<Seq<char>>, state: Option<Seq<char>>, v: JsonModel)
    ensures
        queried(instances, model, state).contains(v) <==> exists|i: int|
            0 <= i < instances.len() && instance_model(#[trigger] instances[i]) == v && (model is Some ==> instances[i].model@ == model->0) && (state is Some ==> instances[i].state@ == state->0),
    decreases instances.len(),
{
    if instances.len() > 0 {
        let front = instances.drop_last();
        let head = queried(front, model, state);
        let out = queried(instances, model, state);
        queried_instances_pass_the_filters(front, model, state, v);
        if out.contains(v) {
            let k = choose|k: int| 0 <= k < out.len() && out[k] == v;
            if k < head.len() {
                assert(head[k] == v);
                let i = choose|i: int|
                    0 <= i < front.len() && instance_model(#[trigger] front[i]) == v && (model is Some ==> front[i].model@ == model->0) && (state is Some ==> front[i].state@ == state->0);
                assert(instances[i] == front[i]);
            } else {
                assert(instances[instances.len() - 1] == instances.last());
            }
        }
        if exists|i: int|
            0 <= i < instances.len() && instance_model(#[trigger] instances[i]) == v && (model is Some ==> instances[i].model@ == model->0) && (state is Some ==> instances[i].state@ == state->0) {
            let i = choose|i: int|
                0 <= i < instances.len() && instance_model(#[trigger] instances[i]) == v && (model is Some ==> instances[i].model@ == model->0) && (state is Some ==> instances[i].state@ == state->0);
            if i < front.len() {
                assert(front[i] == instances[i]);
                let k = choose|k: int| 0 <= k < head.len() && head[k] == v;
                assert(out[k] == v);
            } else {
                assert(out[out.len() - 1] == v);
            }
        }
    }
}

/// A parent may remove its sub-agents, and nobody may remove another agent.
pub proof fn only_the_parent_removes_an_agent(
    name: Seq<char>,
    caller: Seq<char>,
    state: Option<&AgentState>,
    r: Result<(), String>,
)
    requires
        may_remove(name, caller, state, r),
    ensures
        r is Ok <==> (state matches Some(s) && (s.parent matches Some(p) && p@ == caller)),
{
}

/// A process that is gone is done with; one that is alive is waited for, and after half a
/// minute it is killed.
pub proof fn stubborn_process_is_killed_after_half_a_minute(alive: bool, waited_ms: u64, r: StopStep)
    requires
        stops_by(alive, waited_ms, r),
    ensures
        r == StopStep::Done <==> !alive,
        r == StopStep::Kill <==> alive && waited_ms >= 30_000,
        r == StopStep::Wait <==> alive && waited_ms < 30_000,
{
}

/// A move is told with the new state; the workflow goes on where somebody is assigned and
/// the state is not the end.
pub proof fn workflow_goes_on_until_the_end(inst: SmInstance, model: ModelDef, r: (SmMoved, bool))
    requires
        sm_is_moved(inst, model, r),
    ensures
        r.0.id@ == inst.id@,
        r.0.state@ == inst.state@,
        r.0.model@ == inst.model@,
        r.1 ==> inst.assignee@.len() > 0 && !is_terminal(model, inst.state@),
        inst.assignee@.len() > 0 && !is_terminal(model, inst.state@) ==> r.1,
{
}

/// A new instance is handed to its assignee, where it has one: the message, read as the bus
/// reads it, goes to the assignee, carries the id of the instance, its title and its body,
/// and the answer to it comes back to the instance.
pub proof fn new_instance_is_handed_to_its_assignee(
    inst: SmInstance,
    agent: Seq<char>,
    r: (SmCreated, Option<(Json, Json)>),
)
    requires
        sm_is_created(inst, agent, r),
    ensures
        r.0.id@ == inst.id@ && r.0.model@ == inst.model@ && r.0.state@ == inst.state@
            && r.0.assignee@ == inst.assignee@,
        r.1 is Some <==> inst.assignee@.len() > 0,
        r.1 matches Some((reg, msg)) ==> (message_of(msg@) matches Some(m) && m.target
            == inst.assignee@ && m.source == "workflow-engine"@ && m.payload.text_field(
            "sm_instance_id"@,
        ) == Some(inst.id@) && m.reply_to == Some("sm:"@ + inst.id@) && (m.payload.text_field(
            "task"@,
        ) matches Some(t) && contains_spec(t, inst.title@) && contains_spec(t, inst.body@)
            && contains_spec(t, inst.id@) && contains_spec(t, inst.state@)) && is_uuid(m.id)),
{
    if let Some((reg, msg)) = r.1 {
        let id = choose|id: Seq<char>| is_uuid(id) && msg@ == #[trigger] sm_task_model(id, inst);
        sm_task_is_read(id, inst);
        let m = sm_task_message(id, inst);
        reveal_strlit("task");
        reveal_strlit("sm_instance_id");
        assert("task"@.len() == 4 && "sm_instance_id"@.len() == 14);
        lookup_steps(m.payload->Object_0, "task"@, 0);
        lookup_steps(m.payload->Object_0, "sm_instance_id"@, 1);
        sm_task_tells_the_instance(inst);
    }
}

proof fn sm_task_tells_the_instance(i: SmInstance)
    ensures
        contains_spec(sm_task_text(i), i.title@),
        contains_spec(sm_task_text(i), i.body@),
        contains_spec(sm_task_text(i), i.id@),
        contains_spec(sm_task_text(i), i.state@),
{
    let t = sm_task_text(i);
    let a = "---\n## Task: "@;
    let b = "\n\n"@;
    let c = "\n\n---\n## Metadata\ninstance_id: "@;
    let d = "\nmodel: "@;
    let e = "\nstate: "@;
    let last = d + i.model@ + e + i.state@;
    part_occurs(a, i.title@, b + i.body@ + c + i.id@ + last);
    assert(t =~= a + i.title@ + (b + i.body@ + c + i.id@ + last));
    part_occurs(a + i.title@ + b, i.body@, c + i.id@ + last);
    assert(t =~= (a + i.title@ + b) + i.body@ + (c + i.id@ + last));
    part_occurs(a + i.title@ + b + i.body@ + c, i.id@, last);
    assert(t =~= (a + i.title@ + b + i.body@ + c) + i.id@ + last);
    let head = a + i.title@ + b + i.body@ + c + i.id@ + d + i.model@ + e;
    part_occurs(head, i.state@, Seq::empty());
    assert(t =~= head + i.state@ + Seq::<char>::empty());
}

/// A text within the limit stays whole, and a longer one is cut and marked.
pub proof fn long_texts_are_cut(s: Seq<char>, n: nat)
    ensures
        byte_len(s) <= n ==> clipped(s, n) == s,
        byte_len(s) > n ==> clipped(s, n) == byte_prefix_spec(s, n) + "..."@,
{
}

/// The summary of a run names the graph and the number of its steps.
pub proof fn summary_of_a_run_names_the_graph(g: GraphRun)
    ensures
        contains_spec(graph_summary(g), g.graph@),
        contains_spec(
            graph_summary(g),
            "completed: "@ + decimal(g.results@.len()) + " steps executed"@,
        ),
{
    let all = graph_summary(g);
    let head = "Graph '"@;
    reveal_strlit("' completed: ");
    reveal_strlit("completed: ");
    reveal_strlit("' ");
    reveal_strlit(" steps executed\n");
    reveal_strlit(" steps executed");
    assert("' completed: "@ =~= "' "@ + "completed: "@);
    let rest1 = all.skip((head + g.graph@).len() as int);
    assert(all =~= head + g.graph@ + rest1);
    part_occurs(head, g.graph@, rest1);
    let part = "completed: "@ + decimal(g.results@.len()) + " steps executed"@;
    let before = head + g.graph@ + "' "@;
    let rest2 = all.skip((before + part).len() as int);
    assert(all =~= before + part + rest2);
    part_occurs(before, part, rest2);
}

/// Each tool is told, in their order.
pub proof fn tools_are_told_in_order(v: Seq<ToolResult>, k: int, n: int)
    requires
        0 <= k < n <= v.len(),
    ensures
        starts_with_spec(tools_text(v, n), tools_text(v, k) + tool_text(v[k])),
    decreases n,
{
    let head = tools_text(v, n - 1);
    let all = tools_text(v, n);
    let start = tools_text(v, k) + tool_text(v[k]);
    if k < n - 1 {
        tools_are_told_in_order(v, k, n - 1);
        assert(all.take(start.len() as int) =~= head.take(start.len() as int));
    } else {
        assert(all.take(start.len() as int) =~= start);
    }
}

/// Each variable is told with its value, in their order.
pub proof fn variables_are_told_in_order(v: Seq<(String, String)>, k: int, n: int)
    requires
        0 <= k < n <= v.len(),
    ensures
        starts_with_spec(variables_text(v, n), variables_text(v, k) + ("  "@ + v[k].0@ + ": "@ + clipped(v[k].1@, 200) + "\n"@)),
    decreases n,
{
    let head = variables_text(v, n - 1);
    let all = variables_text(v, n);
    let start = variables_text(v, k) + ("  "@ + v[k].0@ + ": "@ + clipped(v[k].1@, 200) + "\n"@);
    if k < n - 1 {
        variables_are_told_in_order(v, k, n - 1);
        assert(all.take(start.len() as int) =~= head.take(start.len() as int));
    } else {
        assert(all.take(start.len() as int) =~= start);
    }
}

/// A tool that ran is told with what it printed, and one that failed with its complaint; a
/// tool that printed nothing and did not fail is not told.
pub proof fn tools_are_told_with_their_output(t: ToolResult)
    ensures
        t.stdout@.len() > 0 && byte_len(t.stdout@) <= 500 && !t.skipped && t.exit_code == 0
            ==> tool_text(t) == "    "@ + t.tool@ + ": "@ + trim_spec(t.stdout@) + "\n"@,
        t.stdout@.len() == 0 && t.stderr@.len() > 0 && byte_len(t.stderr@) <= 200 && t.exit_code != 0
            ==> tool_text(t) == "    "@ + t.tool@ + " stderr: "@ + trim_spec(t.stderr@) + "\n"@,
        (t.stdout@.len() == 0 || t.skipped) && t.exit_code == 0 ==> tool_text(t).len() == 0,
{
    let out = "    "@ + t.tool@ + ": "@ + trim_spec(t.stdout@) + "\n"@;
    let err = "    "@ + t.tool@ + " stderr: "@ + trim_spec(t.stderr@) + "\n"@;
    assert(out + Seq::<char>::empty() =~= out);
    assert(Seq::<char>::empty() + err =~= err);
}

/// A step is told by its id, as skipped or done, with the time it took.
pub proof fn steps_are_told_by_id(s: StepResult)
    ensures
        contains_spec(step_text(s), s.id@),
        contains_spec(step_text(s), decimal(s.duration_ms as nat)),
        s.skipped ==> starts_with_spec(step_text(s), "  ["@ + "SKIP"@),
        !s.skipped ==> starts_with_spec(step_text(s), "  ["@ + "DONE"@),
{
    let word = if s.skipped {
        "SKIP"@
    } else {
        "DONE"@
    };
    let a = "  ["@ + word;
    let time = decimal(s.duration_ms as nat);
    let tools = tools_text(s.tool_results@, s.tool_results@.len() as int);
    let said = match s.llm_output {
        Some(o) => "    LLM: "@ + trim_spec(clipped(o@, 500)) + "\n"@,
        None => Seq::empty(),
    };
    let b = a + "] "@ + s.id@;
    both_parts_occur(a + "] "@, s.id@);
    both_parts_occur(b, " ("@);
    let c = b + " ("@ + time;
    both_parts_occur(b + " ("@, time);
    both_parts_occur(c, "ms)\n"@);
    both_parts_occur(c + "ms)\n"@, tools);
    both_parts_occur(c + "ms)\n"@ + tools, said);
    assert(step_text(s) == c + "ms)\n"@ + tools + said);
    assert(step_text(s).take(a.len() as int) =~= a);
}

} // verus!
