//! The Discord adapter. Messages of a channel go to the bus under
//! `discord.in:<channel>`, and messages under `discord.out:<channel>` go to the
//! channel.
use crate::config::DiscordRoute;
use crate::decimal::{decimal, decimal_is_read_back, parse_unsigned, read_u64, show_u64};
use crate::ids::{is_uuid, new_id};
use crate::json::{field_of, opt_text_model, Fields, Json, JsonModel};
use crate::json_text::{parse, parsed_json};
use crate::mcp_protocol::{register, register_model};
use crate::text::{cat, copy_opt, opt_text, strip_prefix, strip_prefix_spec, texts};
use crate::message::{lookup_absent, lookup_steps, message_keys_differ, message_of};
use vstd::prelude::*;
use vstd::string::*;

verus! {

/// Whether a channel is one of those listed.
pub open spec fn lists_channel(routes: Seq<DiscordRoute>, channel: u64) -> bool {
    exists|i: int| 0 <= i < routes.len() && (#[trigger] routes[i]).channel_id == channel
}

/// Whether a message of Discord goes to the bus: it comes from a person, from one
/// of the listed channels where any are listed, and has a text.
pub open spec fn accepted(
    from_bot: bool,
    channel: u64,
    text: Seq<char>,
    routes: Seq<DiscordRoute>,
) -> bool {
    !from_bot && (routes.len() == 0 || lists_channel(routes, channel)) && text.len() > 0
}

fn has_channel(routes: &Vec<DiscordRoute>, channel: u64) -> (r: bool)
    ensures
        r == lists_channel(routes@, channel),
{
    let mut i: usize = 0;
    while i < routes.len()
        invariant
            i <= routes@.len(),
            forall|j: int| 0 <= j < i ==> (#[trigger] routes@[j]).channel_id != channel,
        decreases routes@.len() - i,
    {
        if routes[i].channel_id == channel {
            return true;
        }
        i += 1;
    }
    false
}

/// Whether a message of Discord goes to the bus.
pub fn accepts(from_bot: bool, channel: u64, text: &str, routes: &Vec<DiscordRoute>) -> (r: bool)
    ensures
        r == accepted(from_bot, channel, text@, routes@),
{
    if from_bot {
        return false;
    }
    if routes.len() > 0 && !has_channel(routes, channel) {
        return false;
    }
    !text.is_empty()
}

/// Messages of bots never reach the bus, so that no reply answers a reply.
pub proof fn bots_are_ignored(channel: u64, text: Seq<char>, routes: Seq<DiscordRoute>)
    ensures
        !accepted(true, channel, text, routes),
{
}

/// The registration of the adapter on the bus.
pub fn registration(agent_name: &str) -> (r: Json)
    ensures
        r@ == register_model("discord-"@ + agent_name@, seq!["discord.out:*"@]),
{
    let mut topics: Vec<String> = Vec::new();
    topics.push(String::from_str("discord.out:*"));
    assert(texts(topics@) =~= seq!["discord.out:*"@]);
    register(&cat("discord-", agent_name), &topics)
}

/// What to do with a message of the bus.
#[derive(Debug, Clone, PartialEq)]
pub enum Outbound {
    /// Nothing: it is not for Discord.
    Ignore,
    /// Nothing: it is no JSON.
    Malformed,
    /// Nothing: its target names no channel.
    BadTarget,
    /// Say a text in a channel.
    Say(u64, String),
}

/// The text that a message says: that of its result, or else of its task, or else
/// of its error.
pub open spec fn said(msg: JsonModel) -> Seq<char> {
    let p = msg.at("payload"@);
    let value = if p.get("result"@) is Some {
        p.at("result"@)
    } else if p.get("task"@) is Some {
        p.at("task"@)
    } else {
        p.at("error"@)
    };
    match value.as_text() {
        Some(t) => t,
        None => "(no content)"@,
    }
}

/// The channel that a target names, where it is one of Discord.
pub open spec fn target_channel(msg: JsonModel) -> Option<Option<nat>> {
    match msg.text_field("target"@) {
        Some(target) => match strip_prefix_spec(target, "discord.out:"@) {
            Some(id) => Some(parse_unsigned(id, u64::MAX as nat)),
            None => None,
        },
        None => None,
    }
}

fn read_said(msg: &Json) -> (r: String)
    ensures
        r@ == said(msg@),
{
    let p = field_of(Some(msg), "payload");
    let value = match field_of(p, "result") {
        Some(v) => Some(v),
        None => match field_of(p, "task") {
            Some(v) => Some(v),
            None => field_of(p, "error"),
        },
    };
    match value {
        Some(v) => match v.as_str() {
            Some(t) => String::from_str(t),
            None => String::from_str("(no content)"),
        },
        None => String::from_str("(no content)"),
    }
}

/// Whether an answer is the one to a message of the bus.
pub open spec fn forwards(r: Outbound, msg: JsonModel) -> bool {
    match target_channel(msg) {
        None => r == Outbound::Ignore,
        Some(None) => r == Outbound::BadTarget,
        Some(Some(id)) => r matches Outbound::Say(n, t) && n == id && t@ == said(msg),
    }
}

/// What to do with a line of the bus.
pub fn bus_line(line: &str) -> (r: Outbound)
    ensures
        if line@.len() == 0 {
            r == Outbound::Ignore
        } else {
            match parsed_json(line@) {
                Some(msg) => forwards(r, msg),
                None => r == Outbound::Malformed,
            }
        },
{
    if line.is_empty() {
        return Outbound::Ignore;
    }
    match parse(line) {
        Some(msg) => outbound(&msg),
        None => Outbound::Malformed,
    }
}

/// What to do with a message of the bus.
pub fn outbound(msg: &Json) -> (r: Outbound)
    ensures
        forwards(r, msg@),
{
    let target = match msg.text_field("target") {
        Some(t) => t,
        None => {
            return Outbound::Ignore;
        },
    };
    match strip_prefix(target, "discord.out:") {
        Some(id) => match read_u64(id) {
            Some(n) => Outbound::Say(n, read_said(msg)),
            None => Outbound::BadTarget,
        },
        None => Outbound::Ignore,
    }
}

/// The name of a channel: the last one that is given for it.
pub open spec fn channel_name(routes: Seq<DiscordRoute>, channel: u64) -> Option<Seq<char>>
    decreases routes.len(),
{
    if routes.len() == 0 {
        None
    } else if routes.last().channel_id == channel && routes.last().name is Some {
        opt_text(routes.last().name)
    } else {
        channel_name(routes.drop_last(), channel)
    }
}

fn find_name(routes: &Vec<DiscordRoute>, channel: u64) -> (r: Option<String>)
    ensures
        opt_text(r) == channel_name(routes@, channel),
{
    let mut i: usize = routes.len();
    assert(routes@.take(i as int) =~= routes@);
    while i > 0
        invariant
            i <= routes@.len(),
            channel_name(routes@, channel) == channel_name(routes@.take(i as int), channel),
        decreases i,
    {
        let x = &routes[i - 1];
        assert(routes@.take(i as int).last() == *x);
        assert(routes@.take(i as int).drop_last() =~= routes@.take(i - 1));
        if x.channel_id == channel && x.name.is_some() {
            return copy_opt(&x.name);
        }
        i -= 1;
    }
    None
}

/// The message that brings a text of a channel to the bus.
pub open spec fn inbound_model(
    id: Seq<char>,
    agent_name: Seq<char>,
    channel: u64,
    text: Seq<char>,
    name: Option<Seq<char>>,
) -> JsonModel {
    JsonModel::Object(
        seq![
            ("type"@, JsonModel::Text("message"@)),
            ("id"@, JsonModel::Text(id)),
            ("source"@, JsonModel::Text("discord-"@ + agent_name)),
            ("target"@, JsonModel::Text("discord.in:"@ + decimal(channel as nat))),
            (
                "payload"@,
                JsonModel::Object(
                    seq![
                        ("task"@, JsonModel::Text(text)),
                        ("discord_channel_id"@, JsonModel::Number(channel as int)),
                        ("discord_channel_name"@, opt_text_model(name)),
                    ],
                ),
            ),
            ("reply_to"@, JsonModel::Text("discord.out:"@ + decimal(channel as nat))),
            (
                "metadata"@,
                JsonModel::Object(seq![("priority"@, JsonModel::Number(5))]),
            ),
        ],
    )
}

/// The message that brings a text of a channel to the bus, under an id.
pub fn inbound_message(
    id: &str,
    agent_name: &str,
    channel: u64,
    text: &str,
    routes: &Vec<DiscordRoute>,
) -> (r: Json)
    ensures
        r@ == inbound_model(id@, agent_name@, channel, text@, channel_name(routes@, channel)),
{
    let ghost expected = inbound_model(
        id@,
        agent_name@,
        channel,
        text@,
        channel_name(routes@, channel),
    )->Object_0;
    let number = show_u64(channel);
    let mut payload = Fields::new();
    payload.put_text("task", text);
    payload.put("discord_channel_id", Json::uint(channel));
    payload.put("discord_channel_name", Json::opt_text(&find_name(routes, channel)));
    assert(payload@ =~= expected[4].1->Object_0);
    let mut metadata = Fields::new();
    metadata.put("priority", Json::uint(5));
    assert(metadata@ =~= expected[6].1->Object_0);
    let mut f = Fields::new();
    f.put_text("type", "message");
    f.put_text("id", id);
    f.put_text("source", &cat("discord-", agent_name));
    f.put_text("target", &cat("discord.in:", &number));
    f.put("payload", payload.object());
    f.put_text("reply_to", &cat("discord.out:", &number));
    f.put("metadata", metadata.object());
    assert(f@ =~= expected);
    f.object()
}

/// Whether `r` is the registration of a sender and the message of a channel.
pub open spec fn publishes(
    agent: Seq<char>,
    channel: u64,
    text: Seq<char>,
    routes: Seq<DiscordRoute>,
    r: (Json, Json),
) -> bool {
    &&& exists|name: Seq<char>|
        is_uuid(name) && r.0@ == #[trigger] register_model(
            "discord-in-"@ + name,
            Seq::empty(),
        )
    &&& exists|id: Seq<char>|
        is_uuid(id) && r.1@ == #[trigger] inbound_model(
            id,
            agent,
            channel,
            text,
            channel_name(routes, channel),
        )
}

/// What brings a text of a channel to the bus: the registration of the sender
/// under a new name, and the message under a new id.
pub fn publish_to_bus(
    agent_name: &str,
    channel: u64,
    text: &str,
    routes: &Vec<DiscordRoute>,
) -> (r: (Json, Json))
    ensures
        publishes(agent_name@, channel, text@, routes@, r),
{
    let name = new_id();
    let none: Vec<String> = Vec::new();
    assert(texts(none@) =~= Seq::<Seq<char>>::empty());
    let reg = register(&cat("discord-in-", &name), &none);
    assert(reg@ == register_model("discord-in-"@ + name@, Seq::empty()));
    let id = new_id();
    let msg = inbound_message(&id, agent_name, channel, text, routes);
    (reg, msg)
}

/// A message of a person is taken where its channel is listed, or where none is, and it is
/// not empty.
pub proof fn messages_of_listed_channels_are_taken(
    channel: u64,
    text: Seq<char>,
    routes: Seq<DiscordRoute>,
)
    requires
        text.len() > 0,
    ensures
        routes.len() == 0 ==> accepted(false, channel, text, routes),
        routes.len() > 0 ==> (accepted(false, channel, text, routes) <==> exists|i: int|
            0 <= i < routes.len() && (#[trigger] routes[i]).channel_id == channel),
        !accepted(false, channel, Seq::empty(), routes),
{
}

/// What a channel says, read as the bus reads it, goes from the adapter of the agent to the
/// inbox of the channel, with the text as its task, and the answer goes back to the channel.
pub proof fn channel_messages_reach_the_bus(
    agent: Seq<char>,
    channel: u64,
    text: Seq<char>,
    routes: Seq<DiscordRoute>,
    r: (Json, Json),
)
    requires
        publishes(agent, channel, text, routes, r),
    ensures
        message_of(r.1@) matches Some(m) && m.source == "discord-"@ + agent && m.target
            == "discord.in:"@ + decimal(channel as nat) && m.reply_to == Some(
            "discord.out:"@ + decimal(channel as nat),
        ) && m.payload.text_field("task"@) == Some(text) && m.payload.get("discord_channel_id"@)
            == Some(JsonModel::Number(channel as int)) && is_uuid(m.id) && !m.metadata.fresh,
{
    let id = choose|id: Seq<char>|
        is_uuid(id) && r.1@ == #[trigger] inbound_model(
            id,
            agent,
            channel,
            text,
            channel_name(routes, channel),
        );
    let name = channel_name(routes, channel);
    message_keys_differ();
    let fields = inbound_model(id, agent, channel, text, name)->Object_0;
    lookup_steps(fields, "id"@, 1);
    lookup_steps(fields, "source"@, 2);
    lookup_steps(fields, "target"@, 3);
    lookup_steps(fields, "payload"@, 4);
    lookup_steps(fields, "reply_to"@, 5);
    lookup_steps(fields, "metadata"@, 6);
    reveal_strlit("task");
    reveal_strlit("discord_channel_id");
    reveal_strlit("discord_channel_name");
    assert("task"@.len() == 4 && "discord_channel_id"@.len() == 18 && "discord_channel_name"@.len() == 20);
    let p = fields[4].1->Object_0;
    lookup_steps(p, "task"@, 0);
    lookup_steps(p, "discord_channel_id"@, 1);
    let h = fields[6].1->Object_0;
    lookup_steps(h, "priority"@, 0);
    lookup_absent(h, "fresh"@);
}

/// A message for a channel is said there: its result, or else its task, or else its error.
pub proof fn answers_are_said_in_their_channel(msg: JsonModel, channel: u64, r: Outbound, t: Seq<char>)
    requires
        forwards(r, msg),
    ensures
        msg.text_field("target"@) == Some("discord.out:"@ + decimal(channel as nat)) ==> (
        r matches Outbound::Say(n, x) && n == channel && x@ == said(msg)),
        msg.at("payload"@).get("result"@) == Some(JsonModel::Text(t)) ==> said(msg) == t,
        msg.at("payload"@).get("result"@) is None && msg.at("payload"@).get("task"@) == Some(
            JsonModel::Text(t),
        ) ==> said(msg) == t,
        (msg.text_field("target"@) matches Some(x) && !(x.len() >= 12 && x.take(12)
            == "discord.out:"@)) ==> r == Outbound::Ignore,
{
    reveal_strlit("discord.out:");
    let full = "discord.out:"@ + decimal(channel as nat);
    assert(full.take(12) =~= "discord.out:"@);
    assert(full.skip(12) =~= decimal(channel as nat));
    decimal_is_read_back(channel as nat, u64::MAX as nat);
}

} // verus!
