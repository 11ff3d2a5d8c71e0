//! Sending messages to targets on the bus, and asking other agents.
use super::access::{allows, check_target, definition_of, send_refusal};
use super::reply::{
    limit_of, parameter, read_limit, reply_text, require, require_parameter, required, text_reply,
};
use crate::config::UserConfig;
use crate::decimal::{decimal, decimal_int, show_i64, show_u64};
use crate::ids::{is_uuid, new_id};
use crate::json::{item_models, Fields, Json, JsonModel};
use crate::json_text::{parse, parsed_json};
use crate::mcp_protocol::{register, register_model};
use crate::message::{
    lookup_absent, lookup_steps, message_keys_differ, message_of, BusMessage, BusMetadata,
    DEFAULT_PRIORITY, MessageModel,
};
use crate::names::NameSet;
use crate::text::{
    cat, cat3, contains_spec, join, join_spec, lines, lines_spec, opt_text, part_occurs, same,
    starts_with_spec, strip_prefix, strip_prefix_spec, texts,
};
use vstd::prelude::*;
use vstd::string::*;

verus! {

// ─── The internal bus ───────────────────────────────────────────────────────

/// The bus on which an agent reaches its sub-agents.
pub struct InternalBus {
    pub socket_path: String,
    /// The sub-agents on this bus.
    pub sub_agents: NameSet,
}

/// The socket of the internal bus of an agent.
pub open spec fn internal_socket(agent: Seq<char>) -> Seq<char> {
    "/tmp/deskd-"@ + agent + "-internal.sock"@
}

impl InternalBus {
    /// The internal bus of an agent, without sub-agents.
    pub fn new(agent_name: &str) -> (r: InternalBus)
        ensures
            r.socket_path@ == internal_socket(agent_name@),
            r.sub_agents@ == Set::<Seq<char>>::empty(),
    {
        InternalBus {
            socket_path: cat3("/tmp/deskd-", agent_name, "-internal.sock"),
            sub_agents: NameSet::new(),
        }
    }

    /// Whether a target is a sub-agent on this bus.
    pub open spec fn reaches(self, target: Seq<char>) -> bool {
        strip_prefix_spec(target, "agent:"@) matches Some(name) && self.sub_agents@.contains(name)
    }

    /// Whether a target is a sub-agent on this bus.
    pub fn is_sub_agent_target(&self, target: &str) -> (r: bool)
        ensures
            r == self.reaches(target@),
    {
        match strip_prefix(target, "agent:") {
            Some(name) => self.sub_agents.contains(name),
            None => false,
        }
    }
}

/// The bus that a message for a target goes to.
pub open spec fn bus_for(
    ibus: Option<&InternalBus>,
    target: Seq<char>,
    bus_socket: Seq<char>,
) -> Seq<char> {
    match ibus {
        Some(ib) => if ib.reaches(target) {
            ib.socket_path@
        } else {
            bus_socket
        },
        None => bus_socket,
    }
}

// ─── Description of the tool ────────────────────────────────────────────────

/// What the description says of the first `n` agents.
pub open spec fn agent_lines(cfg: UserConfig, n: int) -> Seq<Seq<char>>
    decreases n,
{
    if n <= 0 {
        Seq::empty()
    } else {
        let a = cfg.agents@[n - 1];
        let prompt = lines_spec(a.system_prompt@);
        agent_lines(cfg, n - 1).push(
            "  agent:"@ + a.name@ + "  — "@ + a.name@ + " ("@ + a.model@ + "). "@ + (
            if prompt.len() > 0 {
                prompt[0]
            } else {
                Seq::empty()
            }),
        )
    }
}

/// What the description says of the first `n` channels.
pub open spec fn channel_lines(cfg: UserConfig, n: int) -> Seq<Seq<char>>
    decreases n,
{
    if n <= 0 {
        Seq::empty()
    } else {
        let c = cfg.channels@[n - 1];
        channel_lines(cfg, n - 1).push("  "@ + c.name@ + "  — "@ + c.description@)
    }
}

/// What the description says of the first `n` Telegram chats.
pub open spec fn chat_lines(routes: Seq<crate::config::TelegramRoute>, n: int) -> Seq<Seq<char>>
    decreases n,
{
    if n <= 0 {
        Seq::empty()
    } else {
        let id = decimal_int(routes[n - 1].chat_id as int);
        chat_lines(routes, n - 1).push("  telegram.out:"@ + id + "  — Telegram chat "@ + id)
    }
}

/// The lines of the description.
pub open spec fn description_lines(cfg: UserConfig, agent: Seq<char>) -> Seq<Seq<char>> {
    seq!["Send a message to a target on the bus."@, Seq::empty(), "Available targets:"@]
        + agent_lines(cfg, cfg.agents@.len() as int) + channel_lines(
        cfg,
        cfg.channels@.len() as int,
    ) + (match cfg.telegram {
        Some(tg) => chat_lines(tg.routes@, tg.routes@.len() as int),
        None => Seq::empty(),
    }) + seq![Seq::empty(), "You are agent '"@ + agent + "'."@]
}

fn push_line(out: &mut Vec<String>, line: String)
    ensures
        texts(final(out)@) == texts(old(out)@).push(line@),
{
    let ghost before = texts(out@);
    out.push(line);
    assert(texts(out@) =~= before.push(line@));
}

/// The description of the tool that sends messages, with the targets that the
/// configuration names.
pub fn build_send_message_description(cfg: &UserConfig, agent_name: &str) -> (r: String)
    ensures
        r@ == join_spec(description_lines(*cfg, agent_name@), "\n"@),
{
    let mut out: Vec<String> = Vec::new();
    assert(texts(out@) =~= Seq::<Seq<char>>::empty());
    push_line(&mut out, String::from_str("Send a message to a target on the bus."));
    push_line(&mut out, String::new());
    push_line(&mut out, String::from_str("Available targets:"));
    let ghost head = texts(out@);
    assert(head =~= seq![
        "Send a message to a target on the bus."@,
        Seq::empty(),
        "Available targets:"@,
    ]);
    let mut i: usize = 0;
    assert(texts(out@) =~= head + agent_lines(*cfg, 0));
    while i < cfg.agents.len()
        invariant
            i <= cfg.agents@.len(),
            texts(out@) == head + agent_lines(*cfg, i as int),
        decreases cfg.agents@.len() - i,
    {
        let a = &cfg.agents[i];
        let prompt = lines(&a.system_prompt);
        let mut line = cat3("  agent:", &a.name, "  — ");
        line.append(&a.name);
        line.append(" (");
        line.append(&a.model);
        line.append("). ");
        if prompt.len() > 0 {
            assert(texts(prompt@)[0] == prompt@[0]@);
            line.append(&prompt[0]);
        } else {
            assert(line@ =~= line@ + Seq::<char>::empty());
        }
        push_line(&mut out, line);
        i += 1;
        assert(texts(out@) =~= head + agent_lines(*cfg, i as int));
    }
    let ghost head2 = texts(out@);
    let mut k: usize = 0;
    assert(texts(out@) =~= head2 + channel_lines(*cfg, 0));
    while k < cfg.channels.len()
        invariant
            k <= cfg.channels@.len(),
            texts(out@) == head2 + channel_lines(*cfg, k as int),
        decreases cfg.channels@.len() - k,
    {
        let c = &cfg.channels[k];
        let mut line = cat3("  ", &c.name, "  — ");
        line.append(&c.description);
        push_line(&mut out, line);
        k += 1;
        assert(texts(out@) =~= head2 + channel_lines(*cfg, k as int));
    }
    let ghost head3 = texts(out@);
    match &cfg.telegram {
        Some(tg) => {
            let mut m: usize = 0;
            assert(texts(out@) =~= head3 + chat_lines(tg.routes@, 0));
            while m < tg.routes.len()
                invariant
                    m <= tg.routes@.len(),
                    texts(out@) == head3 + chat_lines(tg.routes@, m as int),
                decreases tg.routes@.len() - m,
            {
                let id = show_i64(tg.routes[m].chat_id);
                let mut line = cat3("  telegram.out:", &id, "  — Telegram chat ");
                line.append(&id);
                push_line(&mut out, line);
                m += 1;
                assert(texts(out@) =~= head3 + chat_lines(tg.routes@, m as int));
            }
        },
        None => {
            assert(texts(out@) =~= head3 + Seq::<Seq<char>>::empty());
        },
    }
    push_line(&mut out, String::new());
    push_line(&mut out, cat3("You are agent '", agent_name, "'."));
    assert(texts(out@) =~= description_lines(*cfg, agent_name@));
    join(&out, "\n")
}

// ─── Sending a message ──────────────────────────────────────────────────────

/// A message to send: where, what, and how to get there.
#[derive(Debug, PartialEq)]
pub struct SendPlan {
    pub target: String,
    pub text: String,
    pub fresh: bool,
    /// The socket of the bus.
    pub socket: String,
    /// The registration on the bus.
    pub registration: Json,
    /// The agent that has to be connected first.
    pub probe: Option<String>,
}

/// The complaint about the arguments of a message.
pub open spec fn send_error(
    args: JsonModel,
    agent: Seq<char>,
    cfg: Option<&UserConfig>,
) -> Option<Seq<char>> {
    match (required(args, "target"@), required(args, "text"@)) {
        (Err(e), _) => Some(e),
        (_, Err(e)) => Some(e),
        (Ok(target), Ok(_)) => send_refusal(cfg, agent, target),
    }
}

/// Whether `r` is the plan of a send, or the complaint about its arguments.
pub open spec fn plans_send(
    args: JsonModel,
    agent: Seq<char>,
    bus_socket: Seq<char>,
    cfg: Option<&UserConfig>,
    ibus: Option<&InternalBus>,
    r: Result<SendPlan, String>,
) -> bool {
    match r {
        Err(e) => send_error(args, agent, cfg) == Some(e@),
        Ok(p) => {
            let sender = agent + "-mcp-send"@;
            &&& send_error(args, agent, cfg) is None
            &&& args.text_field("target"@) == Some(p.target@)
            &&& args.text_field("text"@) == Some(p.text@)
            &&& p.fresh == (args.bool_field("fresh"@) == Some(true))
            &&& p.socket@ == bus_for(ibus, p.target@, bus_socket)
            &&& p.registration@ == register_model(sender, seq!["agent:"@ + sender])
            &&& opt_text(p.probe) == strip_prefix_spec(p.target@, "agent:"@)
        },
    }
}

/// How to send the message that the arguments describe, where the sender may.
pub fn call_send_message(
    args: &Json,
    agent_name: &str,
    bus_socket: &str,
    user_config: Option<&UserConfig>,
    internal_bus: Option<&InternalBus>,
) -> (r: Result<SendPlan, String>)
    ensures
        plans_send(args@, agent_name@, bus_socket@, user_config, internal_bus, r),
{
    let target = match require(args, "target") {
        Ok(t) => t,
        Err(e) => {
            return Err(e);
        },
    };
    let text = match require(args, "text") {
        Ok(t) => t,
        Err(e) => {
            return Err(e);
        },
    };
    match check_target(user_config, agent_name, target) {
        Ok(_) => {},
        Err(e) => {
            return Err(e);
        },
    }
    let fresh: bool = match args.bool_field("fresh") {
        Some(b) => b,
        None => false,
    };
    let socket = match internal_bus {
        Some(ib) => {
            if ib.is_sub_agent_target(target) {
                ib.socket_path.clone()
            } else {
                String::from_str(bus_socket)
            }
        },
        None => String::from_str(bus_socket),
    };
    let sender = cat(agent_name, "-mcp-send");
    let mut subscriptions: Vec<String> = Vec::new();
    subscriptions.push(cat("agent:", &sender));
    assert(texts(subscriptions@) =~= seq!["agent:"@ + sender@]);
    let probe = match strip_prefix(target, "agent:") {
        Some(name) => Some(String::from_str(name)),
        None => None,
    };
    Ok(
        SendPlan {
            target: String::from_str(target),
            text: String::from_str(text),
            fresh,
            socket,
            registration: register(&sender, &subscriptions),
            probe,
        },
    )
}

/// The answer of the bus to the question who is connected.
#[derive(Debug)]
pub enum ListReply {
    /// A line of JSON.
    Json(Json),
    /// A line that is no JSON.
    Unreadable,
    /// No line in time.
    Missing,
}

impl ListReply {
    /// The answer in a line of the bus.
    pub fn of_line(line: &str) -> (r: ListReply)
        ensures
            match parsed_json(line@) {
                Some(v) => r matches ListReply::Json(x) && x@ == v,
                None => r is Unreadable,
            },
    {
        match parse(line) {
            Some(v) => ListReply::Json(v),
            None => ListReply::Unreadable,
        }
    }
}

/// Whether one of the items is the text.
pub open spec fn lists_text(items: Seq<JsonModel>, name: Seq<char>) -> bool {
    exists|i: int| 0 <= i < items.len() && (#[trigger] items[i]).as_text() == Some(name)
}

/// Whether an agent counts as connected: where the bus gives no readable answer,
/// it does.
pub open spec fn counts_as_connected(reply: ListReply, agent: Seq<char>) -> bool {
    match reply {
        ListReply::Json(v) => match v@.at("payload"@).list_field("clients"@) {
            Some(clients) => lists_text(clients, agent),
            None => false,
        },
        _ => true,
    }
}

pub(crate) fn list_has_text(items: &Vec<Json>, name: &str) -> (r: bool)
    ensures
        r == lists_text(item_models(items@), name@),
{
    let ghost all = item_models(items@);
    let mut i: usize = 0;
    while i < items.len()
        invariant
            i <= items@.len(),
            all == item_models(items@),
            forall|j: int| 0 <= j < i ==> (#[trigger] all[j]).as_text() != Some(name@),
        decreases items@.len() - i,
    {
        assert(all[i as int] == items@[i as int]@);
        match items[i].as_str() {
            Some(t) => {
                if same(t, name) {
                    return true;
                }
            },
            None => {},
        }
        i += 1;
    }
    false
}

/// Whether an agent counts as connected.
pub fn agent_connected(reply: &ListReply, agent: &str) -> (r: bool)
    ensures
        r == counts_as_connected(*reply, agent@),
{
    match reply {
        ListReply::Json(v) => match v.get("payload") {
            Some(p) => match p.list_field("clients") {
                Some(clients) => list_has_text(clients, agent),
                None => false,
            },
            None => false,
        },
        _ => true,
    }
}

/// The complaint that an agent is not connected.
pub open spec fn not_connected(agent: Seq<char>) -> Seq<char> {
    "agent '"@ + agent
        + "' is not connected to the bus — message would be lost. Check if the agent is running with `list_agents`."@
}

/// The JSON form of a message to send.
pub open spec fn sent_model(
    id: Seq<char>,
    source: Seq<char>,
    target: Seq<char>,
    text: Seq<char>,
    fresh: bool,
) -> JsonModel {
    JsonModel::Object(
        seq![
            ("type"@, JsonModel::Text("message"@)),
            ("id"@, JsonModel::Text(id)),
            ("source"@, JsonModel::Text(source)),
            ("target"@, JsonModel::Text(target)),
            ("payload"@, JsonModel::Object(seq![("task"@, JsonModel::Text(text))])),
            (
                "metadata"@,
                JsonModel::Object(
                    seq![
                        ("priority"@, JsonModel::Number(DEFAULT_PRIORITY as int)),
                        ("fresh"@, JsonModel::Bool(fresh)),
                    ],
                ),
            ),
        ],
    )
}

/// The JSON form of a message to send, under a given id.
pub fn sent_message(id: &str, source: &str, target: &str, text: &str, fresh: bool) -> (r: Json)
    ensures
        r@ == sent_model(id@, source@, target@, text@, fresh),
{
    let ghost expected = sent_model(id@, source@, target@, text@, fresh);
    let mut payload = Fields::new();
    payload.put_text("task", text);
    assert(payload@ =~= expected->Object_0[4].1->Object_0);
    let mut meta = Fields::new();
    meta.put("priority", Json::uint(DEFAULT_PRIORITY as u64));
    meta.put("fresh", Json::Bool(fresh));
    assert(meta@ =~= expected->Object_0[5].1->Object_0);
    let mut f = Fields::new();
    f.put_text("type", "message");
    f.put_text("id", id);
    f.put_text("source", source);
    f.put_text("target", target);
    f.put("payload", payload.object());
    f.put("metadata", meta.object());
    assert(f@ =~= expected->Object_0);
    f.object()
}

/// Whether `r` is the message of a plan with the reply to the caller, or the complaint
/// that the receiver is not there.
pub open spec fn finishes_send(
    plan: SendPlan,
    agent: Seq<char>,
    list: ListReply,
    r: Result<(Json, Json), String>,
) -> bool {
    match plan.probe {
        Some(receiver) if !counts_as_connected(list, receiver@) => r matches Err(e) && e@
            == not_connected(receiver@),
        _ => r matches Ok((msg, reply)) && (exists|id: Seq<char>|
            is_uuid(id) && msg@ == #[trigger] sent_model(
                id,
                agent,
                plan.target@,
                plan.text@,
                plan.fresh,
            )) && reply@ == text_reply("Message sent to "@ + plan.target@),
    }
}

/// The message of a plan and the reply of the tool. `list` is the answer of the
/// bus, where the plan asks who is connected.
pub fn finish_send(plan: &SendPlan, agent_name: &str, list: &ListReply) -> (r: Result<
    (Json, Json),
    String,
>)
    ensures
        finishes_send(*plan, agent_name@, *list, r),
{
    match &plan.probe {
        Some(agent) => {
            if !agent_connected(list, agent) {
                return Err(
                    cat3(
                        "agent '",
                        agent,
                        "' is not connected to the bus — message would be lost. Check if the agent is running with `list_agents`.",
                    ),
                );
            }
        },
        None => {},
    }
    let id = new_id();
    let msg = sent_message(&id, agent_name, &plan.target, &plan.text, plan.fresh);
    let reply = reply_text(&cat("Message sent to ", &plan.target));
    assert(msg@ == sent_model(id@, agent_name@, plan.target@, plan.text@, plan.fresh));
    Ok((msg, reply))
}

// ─── Asking an agent ────────────────────────────────────────────────────────

/// A question to an agent.
#[derive(Debug, PartialEq)]
pub struct QueryPlan {
    pub target: String,
    pub timeout_secs: u64,
    /// The name under which the answer is awaited.
    pub reply_name: String,
    pub message: BusMessage,
}

/// The name under which the answer to a question is awaited.
pub open spec fn query_name(agent: Seq<char>, id: Seq<char>) -> Seq<char> {
    agent + "-query-"@ + id.take(8)
}

/// The message with a question.
pub open spec fn query_message(
    id: Seq<char>,
    agent: Seq<char>,
    target: Seq<char>,
    question: Seq<char>,
) -> MessageModel {
    MessageModel {
        id,
        source: query_name(agent, id),
        target,
        payload: JsonModel::Object(seq![("task"@, JsonModel::Text(question))]),
        reply_to: Some(query_name(agent, id)),
        metadata: BusMetadata { priority: DEFAULT_PRIORITY, fresh: false },
    }
}

/// Whether `r` is the plan of a question, or the complaint about its arguments.
pub open spec fn plans_query(args: JsonModel, agent: Seq<char>, r: Result<QueryPlan, String>) -> bool {
    match (parameter(args, "target"@), parameter(args, "question"@)) {
        (Err(e), _) => r matches Err(m) && m@ == e,
        (_, Err(e)) => r matches Err(m) && m@ == e,
        (Ok(target), Ok(question)) => r matches Ok(q) && q.target@ == target && q.timeout_secs
            == limit_of(args, "timeout_secs"@, 30) && is_uuid(q.message@.id) && q.reply_name@
            == query_name(agent, q.message@.id) && q.message@ == query_message(
            q.message@.id,
            agent,
            target,
            question,
        ),
    }
}

/// The question that the arguments describe, under a new id.
pub fn call_query_agent(args: &Json, agent_name: &str) -> (r: Result<QueryPlan, String>)
    ensures
        plans_query(args@, agent_name@, r),
{
    let target = match require_parameter(args, "target") {
        Ok(t) => t,
        Err(e) => {
            return Err(e);
        },
    };
    let question = match require_parameter(args, "question") {
        Ok(t) => t,
        Err(e) => {
            return Err(e);
        },
    };
    let timeout_secs: u64 = read_limit(args, "timeout_secs", 30);
    let id = new_id();
    let short = id.as_str().substring_char(0, 8);
    assert(short@ =~= id@.take(8));
    let name = cat3(agent_name, "-query-", short);
    let mut payload = Fields::new();
    payload.put_text("task", question);
    assert(payload@ =~= seq![("task"@, JsonModel::Text(question@))]);
    let message = BusMessage {
        id: id.clone(),
        source: name.clone(),
        target: String::from_str(target),
        payload: payload.object(),
        reply_to: Some(name.clone()),
        metadata: BusMetadata { priority: DEFAULT_PRIORITY, fresh: false },
    };
    Ok(QueryPlan { target: String::from_str(target), timeout_secs, reply_name: name, message })
}

/// The text of an answer: what it states as text, as result or as task.
pub open spec fn answer_text(payload: JsonModel) -> Seq<char> {
    match payload.text_field("text"@) {
        Some(t) => t,
        None => match payload.text_field("result"@) {
            Some(t) => t,
            None => match payload.text_field("task"@) {
                Some(t) => t,
                None => Seq::empty(),
            },
        },
    }
}

/// What was answered after a payload came, and whether the answer is complete.
pub open spec fn answer_after(so_far: Seq<char>, payload: JsonModel) -> (Seq<char>, bool) {
    let text = so_far + answer_text(payload);
    (text, payload.bool_field("final"@) == Some(true) || text.len() > 0)
}

/// An answer in the making.
pub struct Answer {
    text: String,
}

impl View for Answer {
    type V = Seq<char>;

    closed spec fn view(&self) -> Seq<char> {
        self.text@
    }
}

impl Answer {
    /// Nothing was answered yet.
    pub fn new() -> (r: Answer)
        ensures
            r@ == Seq::<char>::empty(),
    {
        Answer { text: String::new() }
    }

    /// What was answered.
    pub fn into_text(self) -> (r: String)
        ensures
            r@ == self@,
    {
        self.text
    }

    /// Takes a message in. Returns whether the answer is complete: the message
    /// says so, or there is some text.
    pub fn take(&mut self, payload: &Json) -> (r: bool)
        ensures
            (final(self)@, r) == answer_after(old(self)@, payload@),
    {
        let ghost before = self.text@;
        match payload.text_field("text") {
            Some(t) => {
                self.text.append(t);
            },
            None => match payload.text_field("result") {
                Some(t) => {
                    self.text.append(t);
                },
                None => match payload.text_field("task") {
                    Some(t) => {
                        self.text.append(t);
                    },
                    None => {
                        assert(before + Seq::<char>::empty() =~= before);
                    },
                },
            },
        }
        let is_final: bool = match payload.bool_field("final") {
            Some(b) => b,
            None => false,
        };
        is_final || !self.text.as_str().is_empty()
    }
}

/// How the wait for an answer ended.
#[derive(Debug)]
pub enum QueryOutcome {
    Answered(String),
    BusFailed(String),
    TimedOut,
}

/// The reply with an answer.
pub open spec fn answer_model(target: Seq<char>, text: Seq<char>) -> JsonModel {
    JsonModel::Object(
        seq![
            ("status"@, JsonModel::Text("ok"@)),
            ("source"@, JsonModel::Text(target)),
            ("response"@, JsonModel::Text(text)),
        ],
    )
}

/// Whether `r` is what a question comes to.
pub open spec fn finishes_query(
    target: Seq<char>,
    timeout_secs: nat,
    outcome: QueryOutcome,
    r: Result<Json, String>,
) -> bool {
    match outcome {
        QueryOutcome::Answered(text) => r matches Ok(v) && v@ == answer_model(target, text@),
        QueryOutcome::BusFailed(e) => r matches Err(m) && m@
            == "query_agent: bus error while waiting for response: "@ + e@,
        QueryOutcome::TimedOut => r matches Err(m) && m@ == "query_agent: timed out after "@
            + decimal(timeout_secs) + "s waiting for response from "@ + target,
    }
}

/// The reply to a question.
pub fn finish_query(target: &str, timeout_secs: u64, outcome: &QueryOutcome) -> (r: Result<
    Json,
    String,
>)
    ensures
        finishes_query(target@, timeout_secs as nat, *outcome, r),
{
    match outcome {
        QueryOutcome::Answered(text) => {
            let mut f = Fields::new();
            f.put_text("status", "ok");
            f.put_text("source", target);
            f.put_text("response", text);
            assert(f@ =~= answer_model(target@, text@)->Object_0);
            Ok(f.object())
        },
        QueryOutcome::BusFailed(e) => Err(
            cat("query_agent: bus error while waiting for response: ", e),
        ),
        QueryOutcome::TimedOut => {
            let mut m = cat3(
                "query_agent: timed out after ",
                &show_u64(timeout_secs),
                "s waiting for response from ",
            );
            m.append(target);
            Err(m)
        },
    }
}

// ─── What a send is for ─────────────────────────────────────────────────────

/// The message of a send, read as the bus reads it, is a message from the sender to the
/// target with the text as its task.
pub proof fn sent_message_says_who_and_what(
    id: Seq<char>,
    source: Seq<char>,
    target: Seq<char>,
    text: Seq<char>,
    fresh: bool,
)
    ensures
        message_of(sent_model(id, source, target, text, fresh)) matches Some(m) && m.id == id
            && m.source == source && m.target == target && m.payload.text_field("task"@) == Some(
            text,
        ) && m.reply_to is None && m.metadata.fresh == fresh && m.metadata.priority == 5,
        sent_model(id, source, target, text, fresh).text_field("type"@) == Some("message"@),
{
    message_keys_differ();
    let fields = sent_model(id, source, target, text, fresh)->Object_0;
    lookup_steps(fields, "type"@, 0);
    lookup_steps(fields, "id"@, 1);
    lookup_steps(fields, "source"@, 2);
    lookup_steps(fields, "target"@, 3);
    lookup_steps(fields, "payload"@, 4);
    lookup_steps(fields, "metadata"@, 5);
    lookup_absent(fields, "reply_to"@);
    lookup_steps(fields[4].1->Object_0, "task"@, 0);
    let hints = fields[5].1->Object_0;
    lookup_steps(hints, "priority"@, 0);
    lookup_steps(hints, "fresh"@, 1);
}

/// A successful send writes a message that, read as the bus reads it, goes from the agent
/// to the target of its arguments, with their text as its task, and the reply names the
/// target.
pub proof fn send_reaches_its_target(
    args: JsonModel,
    agent: Seq<char>,
    bus_socket: Seq<char>,
    cfg: Option<&UserConfig>,
    ibus: Option<&InternalBus>,
    planned: Result<SendPlan, String>,
    list: ListReply,
    r: Result<(Json, Json), String>,
)
    requires
        plans_send(args, agent, bus_socket, cfg, ibus, planned),
        planned is Ok,
        finishes_send(planned->Ok_0, agent, list, r),
        r is Ok,
    ensures
        message_of(r->Ok_0.0@) matches Some(m) && Some(m.target) == args.text_field("target"@)
            && m.source == agent && m.payload.text_field("task"@) == args.text_field("text"@)
            && m.metadata.fresh == (args.bool_field("fresh"@) == Some(true)) && is_uuid(m.id),
        r->Ok_0.1@ == text_reply("Message sent to "@ + args.text_field("target"@)->0),
{
    let plan = planned->Ok_0;
    let id = choose|id: Seq<char>|
        is_uuid(id) && r->Ok_0.0@ == #[trigger] sent_model(
            id,
            agent,
            plan.target@,
            plan.text@,
            plan.fresh,
        );
    sent_message_says_who_and_what(id, agent, plan.target@, plan.text@, plan.fresh);
}

/// A send to an agent that the bus does not list is refused, and the complaint names the
/// agent; one to anything else, or without a list, is not.
pub proof fn send_to_an_absent_agent_is_refused(
    args: JsonModel,
    agent: Seq<char>,
    bus_socket: Seq<char>,
    cfg: Option<&UserConfig>,
    ibus: Option<&InternalBus>,
    planned: Result<SendPlan, String>,
    name: Seq<char>,
    clients: Seq<JsonModel>,
    list: ListReply,
    r: Result<(Json, Json), String>,
)
    requires
        plans_send(args, agent, bus_socket, cfg, ibus, planned),
        planned is Ok,
        finishes_send(planned->Ok_0, agent, list, r),
    ensures
        (args.text_field("target"@) == Some("agent:"@ + name) && (list matches ListReply::Json(v)
            && v@.at("payload"@).list_field("clients"@) == Some(clients))) ==> (r is Ok
            <==> exists|i: int|
            0 <= i < clients.len() && #[trigger] clients[i] == JsonModel::Text(name)),
        !(list is Json) ==> r is Ok,
        !(args.text_field("target"@) matches Some(t) && t.len() >= 6 && t.take(6) == "agent:"@)
            ==> r is Ok,
        r matches Err(e) ==> (args.text_field("target"@) matches Some(t) && contains_spec(
            e@,
            t.skip(6),
        )),
{
    reveal_strlit("agent:");
    let plan = planned->Ok_0;
    let t = plan.target@;
    if t == "agent:"@ + name {
        assert(t.take(6) =~= "agent:"@);
        assert(t.skip(6) =~= name);
        if let ListReply::Json(v) = list {
            if v@.at("payload"@).list_field("clients"@) == Some(clients) {
                if lists_text(clients, name) {
                    let i = choose|i: int|
                        0 <= i < clients.len() && (#[trigger] clients[i]).as_text() == Some(name);
                    assert(clients[i] == JsonModel::Text(name));
                }
                if exists|i: int| 0 <= i < clients.len() && #[trigger] clients[i] == JsonModel::Text(
                    name,
                ) {
                    let i = choose|i: int|
                        0 <= i < clients.len() && #[trigger] clients[i] == JsonModel::Text(name);
                    assert(clients[i].as_text() == Some(name));
                }
            }
        }
    }
    if let Some(receiver) = plan.probe {
        let rest =
            "' is not connected to the bus — message would be lost. Check if the agent is running with `list_agents`."@;
        part_occurs("agent '"@, receiver@, rest);
    }
}

/// A send is planned exactly where the target and the text are given and the agent may
/// send there.
pub proof fn allowed_sends_are_planned(
    args: JsonModel,
    agent: Seq<char>,
    bus_socket: Seq<char>,
    cfg: Option<&UserConfig>,
    ibus: Option<&InternalBus>,
    r: Result<SendPlan, String>,
)
    requires
        plans_send(args, agent, bus_socket, cfg, ibus, r),
    ensures
        r is Ok <==> args.text_field("target"@) is Some && args.text_field("text"@) is Some && (
        definition_of(cfg, agent) matches Some(d) ==> allows(
            d.publish,
            args.text_field("target"@)->0,
        ) && allows(d.can_message, args.text_field("target"@)->0)),
{
}

/// What is for a sub-agent goes over the internal bus, and all else over the bus of the
/// agent.
pub proof fn sub_agents_are_on_the_internal_bus(
    ib: InternalBus,
    name: Seq<char>,
    target: Seq<char>,
    bus_socket: Seq<char>,
)
    ensures
        ib.sub_agents@.contains(name) ==> bus_for(Some(&ib), "agent:"@ + name, bus_socket)
            == ib.socket_path@,
        !ib.sub_agents@.contains(name) ==> bus_for(Some(&ib), "agent:"@ + name, bus_socket)
            == bus_socket,
        !(target.len() >= 6 && target.take(6) == "agent:"@) ==> bus_for(
            Some(&ib),
            target,
            bus_socket,
        ) == bus_socket,
        bus_for(None, target, bus_socket) == bus_socket,
{
    reveal_strlit("agent:");
    let t = "agent:"@ + name;
    assert(t.take(6) =~= "agent:"@);
    assert(t.skip(6) =~= name);
}

/// A question goes to the target of its arguments with the question as its task, and the
/// answer to it comes back to the name under which it was asked, which begins with that
/// of the agent.
pub proof fn question_reaches_its_target(
    args: JsonModel,
    agent: Seq<char>,
    r: Result<QueryPlan, String>,
)
    requires
        plans_query(args, agent, r),
    ensures
        r is Ok <==> args.text_field("target"@) is Some && args.text_field("question"@) is Some,
        r matches Ok(q) ==> Some(q.message@.target) == args.text_field("target"@) && Some(q.target@)
            == args.text_field("target"@) && q.message@.payload.text_field("task"@)
            == args.text_field("question"@) && q.message@.reply_to == Some(q.reply_name@)
            && q.message@.source == q.reply_name@ && starts_with_spec(
            q.reply_name@,
            agent + "-query-"@,
        ) && !q.message@.metadata.fresh && (args.u64_field("timeout_secs"@) is None
            ==> q.timeout_secs == 30) && (args.u64_field("timeout_secs"@) matches Some(n)
            ==> q.timeout_secs == n),
{
    if let Ok(q) = r {
        lookup_steps(q.message@.payload->Object_0, "task"@, 0);
        let head = agent + "-query-"@;
        assert(q.reply_name@ == head + q.message@.id.take(8));
        assert(q.reply_name@.take(head.len() as int) =~= head);
    }
}

/// An answer is complete with its first text, or with a payload that says it is the last;
/// the text of a payload is added behind what came before.
pub proof fn answers_are_complete_with_a_text(so_far: Seq<char>, payload: JsonModel, text: Seq<char>)
    ensures
        payload.text_field("text"@) == Some(text) ==> answer_after(so_far, payload).0 == so_far
            + text,
        payload.text_field("text"@) is None && payload.text_field("result"@) == Some(text)
            ==> answer_after(so_far, payload).0 == so_far + text,
        payload.text_field("text"@) == Some(text) && text.len() > 0 ==> answer_after(
            so_far,
            payload,
        ).1,
        payload.bool_field("final"@) == Some(true) ==> answer_after(so_far, payload).1,
        !answer_after(so_far, payload).1 ==> answer_after(so_far, payload).0.len() == 0
            && so_far.len() == 0,
{
}

/// The reply to a question that was answered holds the answer and who gave it; any other
/// question fails.
pub proof fn replies_hold_the_answer(
    target: Seq<char>,
    timeout_secs: nat,
    outcome: QueryOutcome,
    r: Result<Json, String>,
)
    requires
        finishes_query(target, timeout_secs, outcome, r),
    ensures
        r is Ok <==> outcome is Answered,
        (outcome matches QueryOutcome::Answered(t) && r is Ok) ==> r->Ok_0@.text_field(
            "response"@,
        ) == Some(outcome->Answered_0@) && r->Ok_0@.text_field("source"@) == Some(target)
            && r->Ok_0@.text_field("status"@) == Some("ok"@),
        outcome is TimedOut ==> contains_spec(r->Err_0@, target) && contains_spec(
            r->Err_0@,
            decimal(timeout_secs),
        ),
        outcome matches QueryOutcome::BusFailed(e) ==> contains_spec(r->Err_0@, e@),
{
    reveal_strlit("status");
    reveal_strlit("source");
    reveal_strlit("response");
    assert("status"@.len() == 6 && "source"@.len() == 6 && "response"@.len() == 8);
    assert("status"@[1] != "source"@[1]);
    if outcome is Answered {
        let fields = r->Ok_0@->Object_0;
        lookup_steps(fields, "status"@, 0);
        lookup_steps(fields, "source"@, 1);
        lookup_steps(fields, "response"@, 2);
    }
    if outcome is TimedOut {
        let a = "query_agent: timed out after "@;
        let b = "s waiting for response from "@;
        part_occurs(a, decimal(timeout_secs), b + target);
        assert(r->Err_0@ =~= a + decimal(timeout_secs) + (b + target));
        part_occurs(a + decimal(timeout_secs) + b, target, Seq::empty());
        assert(r->Err_0@ =~= (a + decimal(timeout_secs) + b) + target + Seq::<char>::empty());
    }
    if let QueryOutcome::BusFailed(e) = outcome {
        let a = "query_agent: bus error while waiting for response: "@;
        part_occurs(a, e@, Seq::empty());
        assert(r->Err_0@ =~= a + e@ + Seq::<char>::empty());
    }
}

/// The description of the tool names every agent, every channel and every chat that can be
/// written to, and who is asking.
pub proof fn description_names_every_target(cfg: UserConfig, agent: Seq<char>)
    ensures
        description_lines(cfg, agent).len() == 5 + cfg.agents@.len() + cfg.channels@.len() + (
        match cfg.telegram {
            Some(tg) => tg.routes@.len(),
            None => 0,
        }),
        forall|i: int|
            0 <= i < cfg.agents@.len() ==> contains_spec(
                description_lines(cfg, agent)[3 + i],
                "agent:"@ + (#[trigger] cfg.agents@[i]).name@,
            ),
        forall|i: int|
            0 <= i < cfg.channels@.len() ==> contains_spec(
                description_lines(cfg, agent)[3 + cfg.agents@.len() + i],
                (#[trigger] cfg.channels@[i]).name@,
            ),
        contains_spec(description_lines(cfg, agent).last(), agent),
{
    lines_for_all(cfg, cfg.agents@.len() as int, cfg.channels@.len() as int);
    if let Some(tg) = cfg.telegram {
        chat_lines_for_all(tg.routes@, tg.routes@.len() as int);
    }
    part_occurs("You are agent '"@, agent, "'."@);
}

proof fn chat_lines_for_all(routes: Seq<crate::config::TelegramRoute>, n: int)
    requires
        0 <= n <= routes.len(),
    ensures
        chat_lines(routes, n).len() == n,
    decreases n,
{
    if n > 0 {
        chat_lines_for_all(routes, n - 1);
    }
}

proof fn lines_for_all(cfg: UserConfig, n: int, m: int)
    requires
        0 <= n <= cfg.agents@.len(),
        0 <= m <= cfg.channels@.len(),
    ensures
        agent_lines(cfg, n).len() == n,
        channel_lines(cfg, m).len() == m,
        forall|i: int|
            0 <= i < n ==> contains_spec(
                #[trigger] agent_lines(cfg, n)[i],
                "agent:"@ + cfg.agents@[i].name@,
            ),
        forall|i: int|
            0 <= i < m ==> contains_spec(#[trigger] channel_lines(cfg, m)[i], cfg.channels@[i].name@),
    decreases n + m,
{
    if n > 0 {
        lines_for_all(cfg, n - 1, m);
        let a = cfg.agents@[n - 1];
        let prompt = lines_spec(a.system_prompt@);
        let first = if prompt.len() > 0 {
            prompt[0]
        } else {
            Seq::empty()
        };
        reveal_strlit("  agent:");
        reveal_strlit("agent:");
        let line = "  agent:"@ + a.name@ + "  — "@ + a.name@ + " ("@ + a.model@ + "). "@ + first;
        assert(agent_lines(cfg, n)[n - 1] == line);
        let part = "agent:"@ + a.name@;
        assert(line.subrange(2, 2int + part.len()) =~= part);
    } else if m > 0 {
        lines_for_all(cfg, n, m - 1);
        let c = cfg.channels@[m - 1];
        let line = "  "@ + c.name@ + "  — "@ + c.description@;
        assert(channel_lines(cfg, m)[m - 1] == line);
        part_occurs("  "@, c.name@, "  — "@ + c.description@);
        assert(line =~= "  "@ + c.name@ + ("  — "@ + c.description@));
    }
}

} // verus!
