//! The list of the MCP tools with their arguments.
use crate::config::{ModelDef, UserConfig};
use crate::decimal::{decimal, show_usize};
use crate::json::{
    lists_texts, opt_json, text_list_holds_its_texts, text_list_model, Fields, Items, Json,
    JsonModel,
};
use crate::mcp_protocol::{ok_reply, Response};
use crate::mcp_tools::send::{build_send_message_description, description_lines};
use crate::text::{
    both_parts_occur, cat, cat3, cat5, contains_spec, join, join_spec, part_occurs, texts,
};
use crate::message::lookup_steps;
use vstd::prelude::*;
use vstd::string::*;

verus! {

/// A property of the arguments of a tool.
pub open spec fn property(
    name: Seq<char>,
    kind: Seq<char>,
    description: Seq<char>,
) -> (Seq<char>, JsonModel) {
    (
        name,
        JsonModel::Object(
            seq![
                ("type"@, JsonModel::Text(kind)),
                ("description"@, JsonModel::Text(description)),
            ],
        ),
    )
}

/// A property of the arguments of a tool that is a list of texts.
pub open spec fn list_property(name: Seq<char>, description: Seq<char>) -> (
    Seq<char>,
    JsonModel,
) {
    (
        name,
        JsonModel::Object(
            seq![
                ("type"@, JsonModel::Text("array"@)),
                ("items"@, JsonModel::Object(seq![("type"@, JsonModel::Text("string"@))])),
                ("description"@, JsonModel::Text(description)),
            ],
        ),
    )
}

/// A tool: its name, its description and the schema of its arguments.
pub open spec fn tool_model(
    name: Seq<char>,
    description: Seq<char>,
    properties: Seq<(Seq<char>, JsonModel)>,
    required: Option<Seq<Seq<char>>>,
) -> JsonModel {
    JsonModel::Object(
        seq![
            ("name"@, JsonModel::Text(name)),
            ("description"@, JsonModel::Text(description)),
            (
                "inputSchema"@,
                JsonModel::Object(
                    seq![
                        ("type"@, JsonModel::Text("object"@)),
                        ("properties"@, JsonModel::Object(properties)),
                    ] + (match required {
                        Some(v) => seq![("required"@, text_list_model(v))],
                        None => Seq::empty(),
                    }),
                ),
            ),
        ],
    )
}

/// The properties in the schema of a tool.
pub open spec fn schema_properties(tool: JsonModel) -> Seq<(Seq<char>, JsonModel)> {
    tool->Object_0[2].1->Object_0[1].1->Object_0
}

fn put_property(p: &mut Fields, name: &str, kind: &str, description: &str)
    ensures
        final(p)@ == old(p)@.push(property(name@, kind@, description@)),
{
    let ghost expected = property(name@, kind@, description@);
    let mut f = Fields::new();
    f.put_text("type", kind);
    f.put_text("description", description);
    assert(f@ =~= expected.1->Object_0);
    p.put(name, f.object());
}

fn put_list_property(p: &mut Fields, name: &str, description: &str)
    ensures
        final(p)@ == old(p)@.push(list_property(name@, description@)),
{
    let ghost expected = list_property(name@, description@);
    let mut items = Fields::new();
    items.put_text("type", "string");
    assert(items@ =~= expected.1->Object_0[1].1->Object_0);
    let mut f = Fields::new();
    f.put_text("type", "array");
    f.put("items", items.object());
    f.put_text("description", description);
    assert(f@ =~= expected.1->Object_0);
    p.put(name, f.object());
}

/// The contents of an optional list of strings.
pub open spec fn opt_required(o: Option<&Vec<String>>) -> Option<Seq<Seq<char>>> {
    match o {
        Some(v) => Some(texts(v@)),
        None => None,
    }
}

fn make_tool(
    name: &str,
    description: &str,
    properties: Fields,
    required: Option<&Vec<String>>,
) -> (r: Json)
    ensures
        r@ == tool_model(name@, description@, properties@, opt_required(required)),
{
    let ghost expected = tool_model(name@, description@, properties@, opt_required(required));
    let mut schema = Fields::new();
    schema.put_text("type", "object");
    schema.put("properties", properties.object());
    match required {
        Some(v) => {
            schema.put("required", Json::texts(v));
        },
        None => {},
    }
    assert(schema@ =~= expected->Object_0[2].1->Object_0);
    let mut f = Fields::new();
    f.put_text("name", name);
    f.put_text("description", description);
    f.put("inputSchema", schema.object());
    assert(f@ =~= expected->Object_0);
    f.object()
}

/// The tool `send_message`.
pub open spec fn send_message_tool(description: Seq<char>) -> JsonModel {
    tool_model(
        "send_message"@,
        description,
        seq![
            property("target"@, "string"@, "Bus target (e.g. agent:dev, telegram.out:-1234, news:ecosystem)"@),
            property("text"@, "string"@, "Message content"@),
            property("fresh"@, "boolean"@, "When true, the target agent starts a fresh session for the task (no --resume), regardless of its default session config."@),
        ],
        Some(seq!["target"@, "text"@]),
    )
}

fn make_send_message(description: &str) -> (r: Json)
    ensures
        r@ == send_message_tool(description@),
{
    let mut p = Fields::new();
    put_property(&mut p, "target", "string", "Bus target (e.g. agent:dev, telegram.out:-1234, news:ecosystem)");
    put_property(&mut p, "text", "string", "Message content");
    put_property(&mut p, "fresh", "boolean", "When true, the target agent starts a fresh session for the task (no --resume), regardless of its default session config.");
    assert(p@ =~= schema_properties(send_message_tool(description@)));
    let mut required: Vec<String> = Vec::new();
    required.push(String::from_str("target"));
    required.push(String::from_str("text"));
    assert(texts(required@) =~= seq!["target"@, "text"@]);
    make_tool(
        "send_message",
        description,
        p,
        Some(&required),
    )
}

/// The tool `add_persistent_agent`.
pub open spec fn add_persistent_agent_tool() -> JsonModel {
    tool_model(
        "add_persistent_agent"@,
        "Launch a new persistent sub-agent on this agent's bus. The agent starts immediately and remains connected until the bus shuts down."@,
        seq![
            property("name"@, "string"@, "Unique name for the new agent"@),
            property("model"@, "string"@, "Model to use (e.g. sonnet-4-6, haiku-4-5)"@),
            property("system_prompt"@, "string"@, "System prompt for the new agent"@),
            list_property("subscribe"@, "Bus targets to subscribe to (e.g. [\"agent:helper\", \"queue:tasks\"])"@),
        ],
        Some(seq!["name"@, "model"@, "system_prompt"@, "subscribe"@]),
    )
}

fn make_add_persistent_agent() -> (r: Json)
    ensures
        r@ == add_persistent_agent_tool(),
{
    let mut p = Fields::new();
    put_property(&mut p, "name", "string", "Unique name for the new agent");
    put_property(&mut p, "model", "string", "Model to use (e.g. sonnet-4-6, haiku-4-5)");
    put_property(&mut p, "system_prompt", "string", "System prompt for the new agent");
    put_list_property(&mut p, "subscribe", "Bus targets to subscribe to (e.g. [\"agent:helper\", \"queue:tasks\"])");
    assert(p@ =~= schema_properties(add_persistent_agent_tool()));
    let mut required: Vec<String> = Vec::new();
    required.push(String::from_str("name"));
    required.push(String::from_str("model"));
    required.push(String::from_str("system_prompt"));
    required.push(String::from_str("subscribe"));
    assert(texts(required@) =~= seq!["name"@, "model"@, "system_prompt"@, "subscribe"@]);
    make_tool(
        "add_persistent_agent",
        "Launch a new persistent sub-agent on this agent's bus. The agent starts immediately and remains connected until the bus shuts down.",
        p,
        Some(&required),
    )
}

/// The tool `create_reminder`.
pub open spec fn create_reminder_tool() -> JsonModel {
    tool_model(
        "create_reminder"@,
        "Schedule a one-shot reminder. The message will be posted to the bus target after delay_minutes minutes."@,
        seq![
            property("target"@, "string"@, "Bus target to deliver the reminder to (e.g. agent:kira, telegram.out:-1234)"@),
            property("message"@, "string"@, "Message payload to deliver when the reminder fires"@),
            property("delay_minutes"@, "number"@, "Number of minutes from now to fire the reminder"@),
        ],
        Some(seq!["target"@, "message"@, "delay_minutes"@]),
    )
}

fn make_create_reminder() -> (r: Json)
    ensures
        r@ == create_reminder_tool(),
{
    let mut p = Fields::new();
    put_property(&mut p, "target", "string", "Bus target to deliver the reminder to (e.g. agent:kira, telegram.out:-1234)");
    put_property(&mut p, "message", "string", "Message payload to deliver when the reminder fires");
    put_property(&mut p, "delay_minutes", "number", "Number of minutes from now to fire the reminder");
    assert(p@ =~= schema_properties(create_reminder_tool()));
    let mut required: Vec<String> = Vec::new();
    required.push(String::from_str("target"));
    required.push(String::from_str("message"));
    required.push(String::from_str("delay_minutes"));
    assert(texts(required@) =~= seq!["target"@, "message"@, "delay_minutes"@]);
    make_tool(
        "create_reminder",
        "Schedule a one-shot reminder. The message will be posted to the bus target after delay_minutes minutes.",
        p,
        Some(&required),
    )
}

/// The tool `list_inboxes`.
pub open spec fn list_inboxes_tool() -> JsonModel {
    tool_model(
        "list_inboxes"@,
        "List all unified inboxes with message counts. Returns inbox names (e.g. telegram/12345, github/owner-repo, agent/dev) and how many messages each contains."@,
        Seq::empty(),
        None,
    )
}

fn make_list_inboxes() -> (r: Json)
    ensures
        r@ == list_inboxes_tool(),
{
    let mut p = Fields::new();
    assert(p@ =~= schema_properties(list_inboxes_tool()));
    make_tool(
        "list_inboxes",
        "List all unified inboxes with message counts. Returns inbox names (e.g. telegram/12345, github/owner-repo, agent/dev) and how many messages each contains.",
        p,
        None,
    )
}

/// The tool `read_inbox`.
pub open spec fn read_inbox_tool() -> JsonModel {
    tool_model(
        "read_inbox"@,
        "Read messages from a unified inbox. Messages are returned in chronological order (oldest first). Use list_inboxes to discover available inbox names."@,
        seq![
            property("inbox"@, "string"@, "Inbox name (e.g. telegram/12345, github/owner-repo, agent/dev)"@),
            property("limit"@, "number"@, "Maximum number of messages to return (default: 50)"@),
            property("since"@, "string"@, "Only return messages after this RFC3339 timestamp (e.g. 2026-03-29T10:00:00Z)"@),
        ],
        Some(seq!["inbox"@]),
    )
}

fn make_read_inbox() -> (r: Json)
    ensures
        r@ == read_inbox_tool(),
{
    let mut p = Fields::new();
    put_property(&mut p, "inbox", "string", "Inbox name (e.g. telegram/12345, github/owner-repo, agent/dev)");
    put_property(&mut p, "limit", "number", "Maximum number of messages to return (default: 50)");
    put_property(&mut p, "since", "string", "Only return messages after this RFC3339 timestamp (e.g. 2026-03-29T10:00:00Z)");
    assert(p@ =~= schema_properties(read_inbox_tool()));
    let mut required: Vec<String> = Vec::new();
    required.push(String::from_str("inbox"));
    assert(texts(required@) =~= seq!["inbox"@]);
    make_tool(
        "read_inbox",
        "Read messages from a unified inbox. Messages are returned in chronological order (oldest first). Use list_inboxes to discover available inbox names.",
        p,
        Some(&required),
    )
}

/// The tool `search_inbox`.
pub open spec fn search_inbox_tool() -> JsonModel {
    tool_model(
        "search_inbox"@,
        "Search messages across one or all unified inboxes. Case-insensitive substring match on text, source, and from fields."@,
        seq![
            property("inbox"@, "string"@, "Inbox name to search (omit to search all inboxes)"@),
            property("query"@, "string"@, "Search query (substring match)"@),
            property("limit"@, "number"@, "Maximum number of results (default: 50)"@),
        ],
        Some(seq!["query"@]),
    )
}

fn make_search_inbox() -> (r: Json)
    ensures
        r@ == search_inbox_tool(),
{
    let mut p = Fields::new();
    put_property(&mut p, "inbox", "string", "Inbox name to search (omit to search all inboxes)");
    put_property(&mut p, "query", "string", "Search query (substring match)");
    put_property(&mut p, "limit", "number", "Maximum number of results (default: 50)");
    assert(p@ =~= schema_properties(search_inbox_tool()));
    let mut required: Vec<String> = Vec::new();
    required.push(String::from_str("query"));
    assert(texts(required@) =~= seq!["query"@]);
    make_tool(
        "search_inbox",
        "Search messages across one or all unified inboxes. Case-insensitive substring match on text, source, and from fields.",
        p,
        Some(&required),
    )
}

/// The tool `run_graph`.
pub open spec fn run_graph_tool() -> JsonModel {
    tool_model(
        "run_graph"@,
        "Execute an executable skill graph from a YAML file. The graph is a DAG of tool call groups and LLM decision nodes. Returns step results and extracted variables."@,
        seq![
            property("file"@, "string"@, "Path to the graph YAML file (absolute, or relative to agent work dir)"@),
            property("work_dir"@, "string"@, "Working directory for tool execution (defaults to graph file's parent directory)"@),
            property("vars"@, "object"@, "Input variables as key-value pairs (e.g. {\"pr_number\": \"42\", \"repo\": \"owner/repo\"})"@),
        ],
        Some(seq!["file"@]),
    )
}

fn make_run_graph() -> (r: Json)
    ensures
        r@ == run_graph_tool(),
{
    let mut p = Fields::new();
    put_property(&mut p, "file", "string", "Path to the graph YAML file (absolute, or relative to agent work dir)");
    put_property(&mut p, "work_dir", "string", "Working directory for tool execution (defaults to graph file's parent directory)");
    put_property(&mut p, "vars", "object", "Input variables as key-value pairs (e.g. {\"pr_number\": \"42\", \"repo\": \"owner/repo\"})");
    assert(p@ =~= schema_properties(run_graph_tool()));
    let mut required: Vec<String> = Vec::new();
    required.push(String::from_str("file"));
    assert(texts(required@) =~= seq!["file"@]);
    make_tool(
        "run_graph",
        "Execute an executable skill graph from a YAML file. The graph is a DAG of tool call groups and LLM decision nodes. Returns step results and extracted variables.",
        p,
        Some(&required),
    )
}

/// The tool `task_create`.
pub open spec fn task_create_tool() -> JsonModel {
    tool_model(
        "task_create"@,
        "Create a task in the pull-based task queue. Idle workers matching the criteria will pick it up automatically."@,
        seq![
            property("description"@, "string"@, "Task description — what the worker should do"@),
            property("model"@, "string"@, "Required model (e.g. sonnet-4-6). Only workers with this model will pick up the task."@),
            list_property("labels"@, "Required labels. Only workers with ALL listed labels will pick up the task."@),
            property("metadata"@, "object"@, "Structured metadata (e.g. {\"worktree\": \"/path\", \"branch\": \"feat/x\"})"@),
        ],
        Some(seq!["description"@]),
    )
}

fn make_task_create() -> (r: Json)
    ensures
        r@ == task_create_tool(),
{
    let mut p = Fields::new();
    put_property(&mut p, "description", "string", "Task description — what the worker should do");
    put_property(&mut p, "model", "string", "Required model (e.g. sonnet-4-6). Only workers with this model will pick up the task.");
    put_list_property(&mut p, "labels", "Required labels. Only workers with ALL listed labels will pick up the task.");
    put_property(&mut p, "metadata", "object", "Structured metadata (e.g. {\"worktree\": \"/path\", \"branch\": \"feat/x\"})");
    assert(p@ =~= schema_properties(task_create_tool()));
    let mut required: Vec<String> = Vec::new();
    required.push(String::from_str("description"));
    assert(texts(required@) =~= seq!["description"@]);
    make_tool(
        "task_create",
        "Create a task in the pull-based task queue. Idle workers matching the criteria will pick it up automatically.",
        p,
        Some(&required),
    )
}

/// The tool `task_list`.
pub open spec fn task_list_tool() -> JsonModel {
    tool_model(
        "task_list"@,
        "List tasks in the task queue. Returns task ID, status, assignee, and description."@,
        seq![
            property("status"@, "string"@, "Filter by status: pending, active, done, failed, cancelled. Omit to list all."@),
        ],
        None,
    )
}

fn make_task_list() -> (r: Json)
    ensures
        r@ == task_list_tool(),
{
    let mut p = Fields::new();
    put_property(&mut p, "status", "string", "Filter by status: pending, active, done, failed, cancelled. Omit to list all.");
    assert(p@ =~= schema_properties(task_list_tool()));
    make_tool(
        "task_list",
        "List tasks in the task queue. Returns task ID, status, assignee, and description.",
        p,
        None,
    )
}

/// The tool `task_cancel`.
pub open spec fn task_cancel_tool() -> JsonModel {
    tool_model(
        "task_cancel"@,
        "Cancel a pending task in the task queue. Only pending tasks can be cancelled."@,
        seq![
            property("id"@, "string"@, "Task ID (e.g. task-a1b2c3d4)"@),
        ],
        Some(seq!["id"@]),
    )
}

fn make_task_cancel() -> (r: Json)
    ensures
        r@ == task_cancel_tool(),
{
    let mut p = Fields::new();
    put_property(&mut p, "id", "string", "Task ID (e.g. task-a1b2c3d4)");
    assert(p@ =~= schema_properties(task_cancel_tool()));
    let mut required: Vec<String> = Vec::new();
    required.push(String::from_str("id"));
    assert(texts(required@) =~= seq!["id"@]);
    make_tool(
        "task_cancel",
        "Cancel a pending task in the task queue. Only pending tasks can be cancelled.",
        p,
        Some(&required),
    )
}

/// The tool `list_agents`.
pub open spec fn list_agents_tool() -> JsonModel {
    tool_model(
        "list_agents"@,
        "List all sub-agents spawned by this agent on its internal bus. Returns name, model, status (running/finished), turns, and cost for each agent."@,
        Seq::empty(),
        None,
    )
}

fn make_list_agents() -> (r: Json)
    ensures
        r@ == list_agents_tool(),
{
    let mut p = Fields::new();
    assert(p@ =~= schema_properties(list_agents_tool()));
    make_tool(
        "list_agents",
        "List all sub-agents spawned by this agent on its internal bus. Returns name, model, status (running/finished), turns, and cost for each agent.",
        p,
        None,
    )
}

/// The tool `remove_agent`.
pub open spec fn remove_agent_tool() -> JsonModel {
    tool_model(
        "remove_agent"@,
        "Stop and remove a sub-agent. The agent's worker process is terminated and its state file is deleted."@,
        seq![
            property("name"@, "string"@, "Name of the agent to remove"@),
        ],
        Some(seq!["name"@]),
    )
}

fn make_remove_agent() -> (r: Json)
    ensures
        r@ == remove_agent_tool(),
{
    let mut p = Fields::new();
    put_property(&mut p, "name", "string", "Name of the agent to remove");
    assert(p@ =~= schema_properties(remove_agent_tool()));
    let mut required: Vec<String> = Vec::new();
    required.push(String::from_str("name"));
    assert(texts(required@) =~= seq!["name"@]);
    make_tool(
        "remove_agent",
        "Stop and remove a sub-agent. The agent's worker process is terminated and its state file is deleted.",
        p,
        Some(&required),
    )
}

/// The tool `usage_stats`.
pub open spec fn usage_stats_tool() -> JsonModel {
    tool_model(
        "usage_stats"@,
        "Get aggregate token usage and cost statistics across agents. Returns total tasks, cost, tokens, and per-agent breakdown."@,
        seq![
            property("period"@, "string"@, "Time period: 'today', '24h', '7d' (default), '30d', 'all'"@),
            property("agent"@, "string"@, "Filter to a specific agent name"@),
        ],
        None,
    )
}

fn make_usage_stats() -> (r: Json)
    ensures
        r@ == usage_stats_tool(),
{
    let mut p = Fields::new();
    put_property(&mut p, "period", "string", "Time period: 'today', '24h', '7d' (default), '30d', 'all'");
    put_property(&mut p, "agent", "string", "Filter to a specific agent name");
    assert(p@ =~= schema_properties(usage_stats_tool()));
    make_tool(
        "usage_stats",
        "Get aggregate token usage and cost statistics across agents. Returns total tasks, cost, tokens, and per-agent breakdown.",
        p,
        None,
    )
}

/// The tool `sm_create`.
pub open spec fn sm_create_tool(description: Seq<char>) -> JsonModel {
    tool_model(
        "sm_create"@,
        description,
        seq![
            property("model"@, "string"@, "Model name (e.g. 'feature', 'bugfix')"@),
            property("title"@, "string"@, "Instance title"@),
            property("body"@, "string"@, "Instance body/description"@),
            property("metadata"@, "object"@, "Structured metadata (e.g. {\"worktree\": \"/path\", \"branch\": \"feat/x\"})"@),
        ],
        Some(seq!["model"@, "title"@]),
    )
}

fn make_sm_create(description: &str) -> (r: Json)
    ensures
        r@ == sm_create_tool(description@),
{
    let mut p = Fields::new();
    put_property(&mut p, "model", "string", "Model name (e.g. 'feature', 'bugfix')");
    put_property(&mut p, "title", "string", "Instance title");
    put_property(&mut p, "body", "string", "Instance body/description");
    put_property(&mut p, "metadata", "object", "Structured metadata (e.g. {\"worktree\": \"/path\", \"branch\": \"feat/x\"})");
    assert(p@ =~= schema_properties(sm_create_tool(description@)));
    let mut required: Vec<String> = Vec::new();
    required.push(String::from_str("model"));
    required.push(String::from_str("title"));
    assert(texts(required@) =~= seq!["model"@, "title"@]);
    make_tool(
        "sm_create",
        description,
        p,
        Some(&required),
    )
}

/// The tool `sm_move`.
pub open spec fn sm_move_tool() -> JsonModel {
    tool_model(
        "sm_move"@,
        "Move a state machine instance to a new state."@,
        seq![
            property("id"@, "string"@, "Instance ID (e.g. sm-a1b2c3d4)"@),
            property("state"@, "string"@, "Target state name"@),
            property("note"@, "string"@, "Optional note/reason"@),
        ],
        Some(seq!["id"@, "state"@]),
    )
}

fn make_sm_move() -> (r: Json)
    ensures
        r@ == sm_move_tool(),
{
    let mut p = Fields::new();
    put_property(&mut p, "id", "string", "Instance ID (e.g. sm-a1b2c3d4)");
    put_property(&mut p, "state", "string", "Target state name");
    put_property(&mut p, "note", "string", "Optional note/reason");
    assert(p@ =~= schema_properties(sm_move_tool()));
    let mut required: Vec<String> = Vec::new();
    required.push(String::from_str("id"));
    required.push(String::from_str("state"));
    assert(texts(required@) =~= seq!["id"@, "state"@]);
    make_tool(
        "sm_move",
        "Move a state machine instance to a new state.",
        p,
        Some(&required),
    )
}

/// The tool `sm_query`.
pub open spec fn sm_query_tool() -> JsonModel {
    tool_model(
        "sm_query"@,
        "Query state machine instances. Returns JSON list of matching instances."@,
        seq![
            property("model"@, "string"@, "Filter by model name"@),
            property("state"@, "string"@, "Filter by current state"@),
            property("id"@, "string"@, "Get specific instance by ID"@),
        ],
        None,
    )
}

fn make_sm_query() -> (r: Json)
    ensures
        r@ == sm_query_tool(),
{
    let mut p = Fields::new();
    put_property(&mut p, "model", "string", "Filter by model name");
    put_property(&mut p, "state", "string", "Filter by current state");
    put_property(&mut p, "id", "string", "Get specific instance by ID");
    assert(p@ =~= schema_properties(sm_query_tool()));
    make_tool(
        "sm_query",
        "Query state machine instances. Returns JSON list of matching instances.",
        p,
        None,
    )
}

/// The tool `a2a_send`.
pub open spec fn a2a_send_tool() -> JsonModel {
    tool_model(
        "a2a_send"@,
        "Send an A2A task to a remote agent. Requires the agent's base URL and skill ID."@,
        seq![
            property("url"@, "string"@, "Remote agent's base URL (e.g. https://archi.nassau.example.com)"@),
            property("skill"@, "string"@, "Skill ID to invoke (e.g. agent_name/skill_id)"@),
            property("message"@, "string"@, "Task description / message to send"@),
            property("api_key"@, "string"@, "API key for the remote agent (optional)"@),
        ],
        Some(seq!["url"@, "skill"@, "message"@]),
    )
}

fn make_a2a_send() -> (r: Json)
    ensures
        r@ == a2a_send_tool(),
{
    let mut p = Fields::new();
    put_property(&mut p, "url", "string", "Remote agent's base URL (e.g. https://archi.nassau.example.com)");
    put_property(&mut p, "skill", "string", "Skill ID to invoke (e.g. agent_name/skill_id)");
    put_property(&mut p, "message", "string", "Task description / message to send");
    put_property(&mut p, "api_key", "string", "API key for the remote agent (optional)");
    assert(p@ =~= schema_properties(a2a_send_tool()));
    let mut required: Vec<String> = Vec::new();
    required.push(String::from_str("url"));
    required.push(String::from_str("skill"));
    required.push(String::from_str("message"));
    assert(texts(required@) =~= seq!["url"@, "skill"@, "message"@]);
    make_tool(
        "a2a_send",
        "Send an A2A task to a remote agent. Requires the agent's base URL and skill ID.",
        p,
        Some(&required),
    )
}

/// The tool `a2a_discover`.
pub open spec fn a2a_discover_tool() -> JsonModel {
    tool_model(
        "a2a_discover"@,
        "Fetch a remote agent's Agent Card (skills, needs, capabilities). Use to discover what a remote agent can do before sending tasks."@,
        seq![
            property("url"@, "string"@, "Remote agent's base URL (e.g. https://archi.nassau.example.com)"@),
        ],
        Some(seq!["url"@]),
    )
}

fn make_a2a_discover() -> (r: Json)
    ensures
        r@ == a2a_discover_tool(),
{
    let mut p = Fields::new();
    put_property(&mut p, "url", "string", "Remote agent's base URL (e.g. https://archi.nassau.example.com)");
    assert(p@ =~= schema_properties(a2a_discover_tool()));
    let mut required: Vec<String> = Vec::new();
    required.push(String::from_str("url"));
    assert(texts(required@) =~= seq!["url"@]);
    make_tool(
        "a2a_discover",
        "Fetch a remote agent's Agent Card (skills, needs, capabilities). Use to discover what a remote agent can do before sending tasks.",
        p,
        Some(&required),
    )
}

// ─── The list ───────────────────────────────────────────────────────────────

/// What the description says of a model.
pub open spec fn model_line(m: ModelDef) -> Seq<char> {
    if m.description@.len() == 0 {
        "  "@ + m.name@ + " ("@ + decimal(m.states@.len()) + " states)"@
    } else {
        "  "@ + m.name@ + " — "@ + m.description@
    }
}

/// The description of the tool that creates instances, with the models.
pub open spec fn sm_create_description(models: Seq<ModelDef>) -> Seq<char> {
    if models.len() > 0 {
        "Create a new state machine instance. Available models:\n"@ + join_spec(
            Seq::new(models.len(), |i: int| model_line(models[i])),
            "\n"@,
        )
    } else {
        "Create a new state machine instance."@
    }
}

/// The description of the tool that sends messages.
pub open spec fn send_message_description(
    cfg: Option<&UserConfig>,
    agent: Seq<char>,
) -> Seq<char> {
    match cfg {
        Some(c) => join_spec(description_lines(*c, agent), "\n"@),
        None => "Send a message to a target on the bus."@,
    }
}

/// The models of a configuration that may be missing.
pub open spec fn models_of(cfg: Option<&UserConfig>) -> Seq<ModelDef> {
    match cfg {
        Some(c) => c.models@,
        None => Seq::empty(),
    }
}

/// The tools. Those over state machines are there where the configuration
/// defines models.
pub open spec fn tool_list(cfg: Option<&UserConfig>, agent: Seq<char>) -> Seq<JsonModel> {
    let send_description = send_message_description(cfg, agent);
    let sm_description = sm_create_description(models_of(cfg));
    seq![
        send_message_tool(send_description),
        add_persistent_agent_tool(),
        create_reminder_tool(),
        list_inboxes_tool(),
        read_inbox_tool(),
        search_inbox_tool(),
        run_graph_tool(),
        task_create_tool(),
        task_list_tool(),
        task_cancel_tool(),
        list_agents_tool(),
        remove_agent_tool(),
        usage_stats_tool(),
    ] + (if models_of(cfg).len() > 0 {
        seq![
            sm_create_tool(sm_description),
            sm_move_tool(),
            sm_query_tool(),
        ]
    } else {
        Seq::empty()
    }) + seq![
        a2a_send_tool(),
        a2a_discover_tool(),
    ]
}

fn show_model_line(m: &ModelDef) -> (r: String)
    ensures
        r@ == model_line(*m),
{
    if m.description.as_str().is_empty() {
        cat5("  ", &m.name, " (", &show_usize(m.states.len()), " states)")
    } else {
        let mut out = cat3("  ", &m.name, " — ");
        out.append(&m.description);
        out
    }
}

fn show_sm_create_description(models: &Vec<ModelDef>) -> (r: String)
    ensures
        r@ == sm_create_description(models@),
{
    if models.len() == 0 {
        return String::from_str("Create a new state machine instance.");
    }
    let mut all: Vec<String> = Vec::new();
    let mut i: usize = 0;
    while i < models.len()
        invariant
            i <= models@.len(),
            all@.len() == i,
            forall|j: int| 0 <= j < i ==> (#[trigger] all@[j])@ == model_line(models@[j]),
        decreases models@.len() - i,
    {
        all.push(show_model_line(&models[i]));
        i += 1;
    }
    assert(texts(all@) =~= Seq::new(models@.len(), |i: int| model_line(models@[i])));
    let list = join(&all, "\n");
    cat("Create a new state machine instance. Available models:\n", &list)
}

/// The response with the tools.
pub fn handle_tools_list(
    id: Option<Json>,
    agent_name: &str,
    user_config: Option<&UserConfig>,
) -> (r: Response)
    ensures
        r@ == ok_reply(
            opt_json(id),
            JsonModel::Object(
                seq![("tools"@, JsonModel::List(tool_list(user_config, agent_name@)))],
            ),
        ),
{
    let send_description = match user_config {
        Some(c) => build_send_message_description(c, agent_name),
        None => String::from_str("Send a message to a target on the bus."),
    };
    let mut tools = Items::new();
    tools.put(make_send_message(&send_description));
    tools.put(make_add_persistent_agent());
    tools.put(make_create_reminder());
    tools.put(make_list_inboxes());
    tools.put(make_read_inbox());
    tools.put(make_search_inbox());
    tools.put(make_run_graph());
    tools.put(make_task_create());
    tools.put(make_task_list());
    tools.put(make_task_cancel());
    tools.put(make_list_agents());
    tools.put(make_remove_agent());
    tools.put(make_usage_stats());
    match user_config {
        Some(c) => {
            if c.models.len() > 0 {
                let sm_description = show_sm_create_description(&c.models);
                tools.put(make_sm_create(&sm_description));
                tools.put(make_sm_move());
                tools.put(make_sm_query());
            }
        },
        None => {},
    }
    tools.put(make_a2a_send());
    tools.put(make_a2a_discover());
    assert(tools@ =~= tool_list(user_config, agent_name@));
    let mut f = Fields::new();
    f.put("tools", tools.list());
    assert(f@ =~= seq![("tools"@, JsonModel::List(tool_list(user_config, agent_name@)))]);
    Response::ok(id, f.object())
}

// ─── What the list of tools tells ───────────────────────────────────────────

/// A tool is listed under its name, with its description, a schema of all its arguments and
/// the names of those that are needed.
pub proof fn tools_are_listed_as_described(
    name: Seq<char>,
    description: Seq<char>,
    properties: Seq<(Seq<char>, JsonModel)>,
    required: Seq<Seq<char>>,
)
    ensures
        ({
            let tool = tool_model(name, description, properties, Some(required));
            let schema = tool.at("inputSchema"@);
            &&& tool.text_field("name"@) == Some(name)
            &&& tool.text_field("description"@) == Some(description)
            &&& schema.text_field("type"@) == Some("object"@)
            &&& schema.at("properties"@) == JsonModel::Object(properties)
            &&& lists_texts(schema.at("required"@), required)
        }),
{
    reveal_strlit("name");
    reveal_strlit("description");
    reveal_strlit("inputSchema");
    assert("name"@.len() == 4 && "description"@.len() == 11 && "inputSchema"@.len() == 11);
    assert("description"@[0] != "inputSchema"@[0]);
    reveal_strlit("type");
    reveal_strlit("properties");
    reveal_strlit("required");
    assert("type"@.len() == 4 && "properties"@.len() == 10 && "required"@.len() == 8);
    assert("description"@[0] != "inputSchema"@[0]);
    let tool = tool_model(name, description, properties, Some(required));
    let fields = tool->Object_0;
    lookup_steps(fields, "name"@, 0);
    lookup_steps(fields, "description"@, 1);
    lookup_steps(fields, "inputSchema"@, 2);
    let schema = fields[2].1->Object_0;
    lookup_steps(schema, "type"@, 0);
    lookup_steps(schema, "properties"@, 1);
    lookup_steps(schema, "required"@, 2);
    text_list_holds_its_texts(required);
}

/// The tools for workflows are offered exactly where there are models of workflows, and
/// they are told with their names.
pub proof fn workflow_tools_need_a_model(cfg: Option<&UserConfig>, agent: Seq<char>)
    ensures
        models_of(cfg).len() == 0 ==> tool_list(cfg, agent).len() == 15,
        models_of(cfg).len() > 0 ==> tool_list(cfg, agent).len() == 18 && tool_list(
            cfg,
            agent,
        )[13].text_field("name"@) == Some("sm_create"@) && tool_list(cfg, agent)[14].text_field(
            "name"@,
        ) == Some("sm_move"@) && tool_list(cfg, agent)[15].text_field("name"@) == Some(
            "sm_query"@,
        ),
{
    let all = tool_list(cfg, agent);
    if models_of(cfg).len() > 0 {
        lookup_steps(all[13]->Object_0, "name"@, 0);
        lookup_steps(all[14]->Object_0, "name"@, 0);
        lookup_steps(all[15]->Object_0, "name"@, 0);
    }
}

/// A model of workflows is told with its name, and with its description where it has one.
pub proof fn models_are_told_by_name(m: ModelDef)
    ensures
        contains_spec(model_line(m), m.name@),
        contains_spec(model_line(m), m.description@),
{
    part_occurs("  "@, m.name@, " ("@);
    both_parts_occur("  "@ + m.name@ + " ("@, decimal(m.states@.len()));
    both_parts_occur("  "@ + m.name@ + " ("@ + decimal(m.states@.len()), " states)"@);
    part_occurs("  "@, m.name@, " — "@);
    both_parts_occur("  "@ + m.name@ + " — "@, m.description@);
    if m.description@.len() == 0 {
        let all = model_line(m);
        part_occurs(Seq::empty(), m.description@, all);
        assert(Seq::<char>::empty() + m.description@ + all =~= all);
    }
}

} // verus!
