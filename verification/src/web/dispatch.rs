//! Messages that the web adapter publishes on the bus.
use crate::decimal::{decimal_int, show_i64};
use crate::ids::{is_uuid, new_id};
use crate::json::{Fields, Json, JsonModel};
use crate::message::{lookup_steps, BusMessage, BusMetadata, DEFAULT_PRIORITY, MessageModel};
use crate::text::cat;
use vstd::prelude::*;
use vstd::string::*;

verus! {

/// Publishes for the web adapter on one bus, under one name.
#[derive(Debug, Clone)]
pub struct BusDispatcher {
    pub bus_socket: String,
    pub source: String,
}

/// The contents of the message with a webhook delivery.
pub open spec fn delivery_message(
    id: Seq<char>,
    source: Seq<char>,
    target: Seq<char>,
    text: Seq<char>,
    metadata: JsonModel,
) -> MessageModel {
    MessageModel {
        id,
        source,
        target,
        payload: JsonModel::Object(
            seq![("task"@, JsonModel::Text(text)), ("github"@, metadata)],
        ),
        reply_to: None,
        metadata: BusMetadata { priority: DEFAULT_PRIORITY, fresh: false },
    }
}

impl BusDispatcher {
    /// Publishes on the bus at `bus_socket` as `source`.
    pub fn new(bus_socket: String, source: String) -> (r: BusDispatcher)
        ensures
            r == (BusDispatcher { bus_socket, source }),
    {
        BusDispatcher { bus_socket, source }
    }

    /// The bus target of a Telegram chat.
    pub fn telegram_target(chat_id: i64) -> (r: String)
        ensures
            r@ == "telegram.out:"@ + decimal_int(chat_id as int),
    {
        cat("telegram.out:", &show_i64(chat_id))
    }

    /// The message that brings a webhook delivery to `target`, under a given id.
    pub fn delivery(&self, id: String, target: &str, text: &str, metadata: Json) -> (r: BusMessage)
        ensures
            r@ == delivery_message(id@, self.source@, target@, text@, metadata@),
    {
        let mut payload = Fields::new();
        payload.put_text("task", text);
        payload.put("github", metadata);
        assert(payload@ =~= seq![("task"@, JsonModel::Text(text@)), ("github"@, metadata@)]);
        BusMessage {
            id,
            source: self.source.clone(),
            target: String::from_str(target),
            payload: payload.object(),
            reply_to: None,
            metadata: BusMetadata { priority: DEFAULT_PRIORITY, fresh: false },
        }
    }

    /// The message that brings a webhook delivery to `target`, under a new id.
    pub fn send_bus(&self, target: &str, text: &str, metadata: Json) -> (r: BusMessage)
        ensures
            is_uuid(r@.id),
            r@ == delivery_message(r@.id, self.source@, target@, text@, metadata@),
    {
        self.delivery(new_id(), target, text, metadata)
    }
}

/// A command for an agent.
#[derive(Debug, Clone, Copy, PartialEq, Eq)]
pub enum AgentCommand {
    /// Stop the agent and start it again with the same configuration and session.
    Restart,
    /// Compact the context of the agent now.
    Compact,
    /// Stop the agent.
    Stop,
}

impl AgentCommand {
    /// The name of the command.
    pub open spec fn name(self) -> Seq<char> {
        match self {
            AgentCommand::Restart => "restart"@,
            AgentCommand::Compact => "compact"@,
            AgentCommand::Stop => "stop"@,
        }
    }

    /// The name of the command.
    pub fn as_str(self) -> (r: &'static str)
        ensures
            r@ == self.name(),
    {
        match self {
            AgentCommand::Restart => "restart",
            AgentCommand::Compact => "compact",
            AgentCommand::Stop => "stop",
        }
    }
}

/// Publishes commands for agents on one bus, under one name.
#[derive(Debug, Clone)]
pub struct BusAgentCommandDispatcher {
    pub bus_socket: String,
    pub source: String,
}

impl BusAgentCommandDispatcher {
    /// Publishes on the bus at `bus_socket` as `source`.
    pub fn new(bus_socket: String, source: String) -> (r: BusAgentCommandDispatcher)
        ensures
            r == (BusAgentCommandDispatcher { bus_socket, source }),
    {
        BusAgentCommandDispatcher { bus_socket, source }
    }

    /// The bus target and the payload of a command for an agent.
    pub fn command(agent_name: &str, command: AgentCommand) -> (r: (String, Json))
        ensures
            r.0@ == "agent:"@ + agent_name@,
            r.1@ == JsonModel::Object(seq![("command"@, JsonModel::Text(command.name()))]),
    {
        let mut payload = Fields::new();
        payload.put_text("command", command.as_str());
        assert(payload@ =~= seq![("command"@, JsonModel::Text(command.name()))]);
        (cat("agent:", agent_name), payload.object())
    }
}

/// A delivery goes from the dispatcher to its target, with the summary as its task and the
/// metadata beside it.
pub proof fn deliveries_reach_their_target(
    id: Seq<char>,
    source: Seq<char>,
    target: Seq<char>,
    text: Seq<char>,
    metadata: JsonModel,
)
    ensures
        ({
            let m = delivery_message(id, source, target, text, metadata);
            &&& m.id == id && m.source == source && m.target == target && m.reply_to is None
            &&& m.payload.text_field("task"@) == Some(text)
            &&& m.payload.get("github"@) == Some(metadata)
            &&& !m.metadata.fresh && m.metadata.priority == 5
        }),
{
    reveal_strlit("task");
    reveal_strlit("github");
    assert("task"@.len() == 4 && "github"@.len() == 6);
    let fields = delivery_message(id, source, target, text, metadata).payload->Object_0;
    lookup_steps(fields, "task"@, 0);
    lookup_steps(fields, "github"@, 1);
}

/// No two commands have the same name.
pub proof fn commands_have_names_of_their_own(a: AgentCommand, b: AgentCommand)
    ensures
        a.name() == b.name() ==> a == b,
{
    reveal_strlit("restart");
    reveal_strlit("compact");
    reveal_strlit("stop");
    assert("restart"@.len() == 7 && "compact"@.len() == 7 && "stop"@.len() == 4);
    assert("restart"@[0] != "compact"@[0]);
}

} // verus!
