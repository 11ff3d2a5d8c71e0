//! Federation wire frames and their JSON form.
//!
//! A frame is a JSON object with a discriminating field `type`. The frame
//! `bus_message` carries the fields of a bus message unchanged beside it.
use crate::json::{text_list_model, Fields, Json, JsonModel};
use crate::json_text::{
    faithful, line_text, parse, parsed_json, solid_line, write_line, TEXT_DEPTH,
};
use crate::message::{
    lookup_steps, message_fields, message_keys_differ, message_of, message_round_trip,
    message_round_trip_after, metadata_json, BusMessage, MessageModel,
};
use crate::text::{same, texts};
use vstd::prelude::*;
use vstd::string::*;

verus! {

/// A frame between federated peers.
#[derive(Debug, PartialEq)]
pub enum FederationFrame {
    /// Peer to hub on connect: identifies the peer.
    Hello { peer_name: String, deskd_version: String, capabilities: Vec<String> },
    /// Hub to peer in reply to `Hello`.
    Welcome { hub_name: String, replay_supported: bool },
    /// Keepalive request.
    Ping,
    /// Keepalive reply.
    Pong,
    /// Registers a topic glob subscription.
    Subscribe { pattern: String },
    /// Drops a topic glob subscription.
    Unsubscribe { pattern: String },
    /// Registers an inbox subscription.
    SubscribeInbox { name: String },
    /// A bus message without a tracked origin.
    BusMessage(BusMessage),
    /// A bus message with the peer that it came from.
    Forward { origin: String, message: BusMessage },
}

/// The contents of a frame.
pub enum FrameModel {
    Hello { peer_name: Seq<char>, deskd_version: Seq<char>, capabilities: Seq<Seq<char>> },
    Welcome { hub_name: Seq<char>, replay_supported: bool },
    Ping,
    Pong,
    Subscribe { pattern: Seq<char> },
    Unsubscribe { pattern: Seq<char> },
    SubscribeInbox { name: Seq<char> },
    BusMessage(MessageModel),
    Forward { origin: Seq<char>, message: MessageModel },
}

impl View for FederationFrame {
    type V = FrameModel;

    open spec fn view(&self) -> FrameModel {
        match self {
            FederationFrame::Hello { peer_name, deskd_version, capabilities } => FrameModel::Hello {
                peer_name: peer_name@,
                deskd_version: deskd_version@,
                capabilities: texts(capabilities@),
            },
            FederationFrame::Welcome { hub_name, replay_supported } => FrameModel::Welcome {
                hub_name: hub_name@,
                replay_supported: *replay_supported,
            },
            FederationFrame::Ping => FrameModel::Ping,
            FederationFrame::Pong => FrameModel::Pong,
            FederationFrame::Subscribe { pattern } => FrameModel::Subscribe { pattern: pattern@ },
            FederationFrame::Unsubscribe { pattern } => FrameModel::Unsubscribe {
                pattern: pattern@,
            },
            FederationFrame::SubscribeInbox { name } => FrameModel::SubscribeInbox { name: name@ },
            FederationFrame::BusMessage(m) => FrameModel::BusMessage(m@),
            FederationFrame::Forward { origin, message } => FrameModel::Forward {
                origin: origin@,
                message: message@,
            },
        }
    }
}

/// The value of the field `type` of a frame.
pub open spec fn frame_type(f: FrameModel) -> Seq<char> {
    match f {
        FrameModel::Hello { .. } => "hello"@,
        FrameModel::Welcome { .. } => "welcome"@,
        FrameModel::Ping => "ping"@,
        FrameModel::Pong => "pong"@,
        FrameModel::Subscribe { .. } => "subscribe"@,
        FrameModel::Unsubscribe { .. } => "unsubscribe"@,
        FrameModel::SubscribeInbox { .. } => "subscribe_inbox"@,
        FrameModel::BusMessage(_) => "bus_message"@,
        FrameModel::Forward { .. } => "forward"@,
    }
}

/// The fields of the JSON form of a frame that follow `type`.
pub open spec fn frame_body(f: FrameModel) -> Seq<(Seq<char>, JsonModel)> {
    match f {
        FrameModel::Hello { peer_name, deskd_version, capabilities } => seq![
            ("peer_name"@, JsonModel::Text(peer_name)),
            ("deskd_version"@, JsonModel::Text(deskd_version)),
            ("capabilities"@, text_list_model(capabilities)),
        ],
        FrameModel::Welcome { hub_name, replay_supported } => seq![
            ("hub_name"@, JsonModel::Text(hub_name)),
            ("replay_supported"@, JsonModel::Bool(replay_supported)),
        ],
        FrameModel::Ping => Seq::empty(),
        FrameModel::Pong => Seq::empty(),
        FrameModel::Subscribe { pattern } => seq![("pattern"@, JsonModel::Text(pattern))],
        FrameModel::Unsubscribe { pattern } => seq![("pattern"@, JsonModel::Text(pattern))],
        FrameModel::SubscribeInbox { name } => seq![("name"@, JsonModel::Text(name))],
        FrameModel::BusMessage(m) => message_fields(m),
        FrameModel::Forward { origin, message } => seq![
            ("origin"@, JsonModel::Text(origin)),
            ("message"@, JsonModel::Object(message_fields(message))),
        ],
    }
}

/// The JSON form of a frame.
pub open spec fn frame_json(f: FrameModel) -> JsonModel {
    JsonModel::Object(seq![("type"@, JsonModel::Text(frame_type(f)))] + frame_body(f))
}

/// The texts of a list, where all of its items are texts.
pub open spec fn all_texts(items: Seq<JsonModel>) -> Option<Seq<Seq<char>>> {
    if forall|i: int| 0 <= i < items.len() ==> (#[trigger] items[i]) is Text {
        Some(Seq::new(items.len(), |i: int| items[i]->Text_0))
    } else {
        None
    }
}

/// A list of texts that may be left out.
pub open spec fn optional_text_list(j: JsonModel, key: Seq<char>) -> Option<Seq<Seq<char>>> {
    match j.get(key) {
        None => Some(Seq::empty()),
        Some(JsonModel::List(items)) => all_texts(items),
        Some(_) => None,
    }
}

/// A truth value that may be left out for `false`.
pub open spec fn optional_bool(j: JsonModel, key: Seq<char>) -> Option<bool> {
    match j.get(key) {
        None => Some(false),
        Some(v) => v.as_bool(),
    }
}

/// The frame that a JSON value describes.
pub open spec fn frame_of(j: JsonModel) -> Option<FrameModel> {
    match j.text_field("type"@) {
        None => None,
        Some(t) => {
            if t == "hello"@ {
                match (
                    j.text_field("peer_name"@),
                    j.text_field("deskd_version"@),
                    optional_text_list(j, "capabilities"@),
                ) {
                    (Some(peer_name), Some(deskd_version), Some(capabilities)) => Some(
                        FrameModel::Hello { peer_name, deskd_version, capabilities },
                    ),
                    _ => None,
                }
            } else if t == "welcome"@ {
                match (j.text_field("hub_name"@), optional_bool(j, "replay_supported"@)) {
                    (Some(hub_name), Some(replay_supported)) => Some(
                        FrameModel::Welcome { hub_name, replay_supported },
                    ),
                    _ => None,
                }
            } else if t == "ping"@ {
                Some(FrameModel::Ping)
            } else if t == "pong"@ {
                Some(FrameModel::Pong)
            } else if t == "subscribe"@ {
                match j.text_field("pattern"@) {
                    Some(pattern) => Some(FrameModel::Subscribe { pattern }),
                    None => None,
                }
            } else if t == "unsubscribe"@ {
                match j.text_field("pattern"@) {
                    Some(pattern) => Some(FrameModel::Unsubscribe { pattern }),
                    None => None,
                }
            } else if t == "subscribe_inbox"@ {
                match j.text_field("name"@) {
                    Some(name) => Some(FrameModel::SubscribeInbox { name }),
                    None => None,
                }
            } else if t == "bus_message"@ {
                match message_of(j) {
                    Some(m) => Some(FrameModel::BusMessage(m)),
                    None => None,
                }
            } else if t == "forward"@ {
                match (j.text_field("origin"@), j.get("message"@)) {
                    (Some(origin), Some(inner)) => match message_of(inner) {
                        Some(message) => Some(FrameModel::Forward { origin, message }),
                        None => None,
                    },
                    _ => None,
                }
            } else {
                None
            }
        },
    }
}

proof fn frame_types_differ()
    ensures
        "hello"@ != "welcome"@,
        "hello"@ != "ping"@,
        "hello"@ != "pong"@,
        "hello"@ != "subscribe"@,
        "hello"@ != "unsubscribe"@,
        "hello"@ != "subscribe_inbox"@,
        "hello"@ != "bus_message"@,
        "hello"@ != "forward"@,
        "welcome"@ != "ping"@,
        "welcome"@ != "pong"@,
        "welcome"@ != "subscribe"@,
        "welcome"@ != "unsubscribe"@,
        "welcome"@ != "subscribe_inbox"@,
        "welcome"@ != "bus_message"@,
        "welcome"@ != "forward"@,
        "ping"@ != "pong"@,
        "ping"@ != "subscribe"@,
        "ping"@ != "unsubscribe"@,
        "ping"@ != "subscribe_inbox"@,
        "ping"@ != "bus_message"@,
        "ping"@ != "forward"@,
        "pong"@ != "subscribe"@,
        "pong"@ != "unsubscribe"@,
        "pong"@ != "subscribe_inbox"@,
        "pong"@ != "bus_message"@,
        "pong"@ != "forward"@,
        "subscribe"@ != "unsubscribe"@,
        "subscribe"@ != "subscribe_inbox"@,
        "subscribe"@ != "bus_message"@,
        "subscribe"@ != "forward"@,
        "unsubscribe"@ != "subscribe_inbox"@,
        "unsubscribe"@ != "bus_message"@,
        "unsubscribe"@ != "forward"@,
        "subscribe_inbox"@ != "bus_message"@,
        "subscribe_inbox"@ != "forward"@,
        "bus_message"@ != "forward"@,
{
    reveal_strlit("hello");
    reveal_strlit("welcome");
    reveal_strlit("ping");
    reveal_strlit("pong");
    reveal_strlit("subscribe");
    reveal_strlit("unsubscribe");
    reveal_strlit("subscribe_inbox");
    reveal_strlit("bus_message");
    reveal_strlit("forward");
    assert("hello"@.len() == 5 && "welcome"@.len() == 7 && "ping"@.len() == 4);
    assert("pong"@.len() == 4 && "subscribe"@.len() == 9 && "unsubscribe"@.len() == 11);
    assert("subscribe_inbox"@.len() == 15 && "bus_message"@.len() == 11);
    assert("forward"@.len() == 7);
    assert("ping"@[1] != "pong"@[1]);
    assert("welcome"@[0] != "forward"@[0]);
    assert("unsubscribe"@[0] != "bus_message"@[0]);
}

proof fn frame_keys_differ()
    ensures
        "type"@ != "peer_name"@,
        "type"@ != "deskd_version"@,
        "type"@ != "capabilities"@,
        "type"@ != "hub_name"@,
        "type"@ != "replay_supported"@,
        "type"@ != "pattern"@,
        "type"@ != "name"@,
        "type"@ != "origin"@,
        "type"@ != "message"@,
        "peer_name"@ != "deskd_version"@,
        "peer_name"@ != "capabilities"@,
        "deskd_version"@ != "capabilities"@,
        "hub_name"@ != "replay_supported"@,
        "origin"@ != "message"@,
{
    reveal_strlit("type");
    reveal_strlit("peer_name");
    reveal_strlit("deskd_version");
    reveal_strlit("capabilities");
    reveal_strlit("hub_name");
    reveal_strlit("replay_supported");
    reveal_strlit("pattern");
    reveal_strlit("name");
    reveal_strlit("origin");
    reveal_strlit("message");
    assert("type"@.len() == 4 && "peer_name"@.len() == 9 && "deskd_version"@.len() == 13);
    assert("capabilities"@.len() == 12 && "hub_name"@.len() == 8);
    assert("replay_supported"@.len() == 16 && "pattern"@.len() == 7 && "name"@.len() == 4);
    assert("origin"@.len() == 6 && "message"@.len() == 7);
    assert("type"@[0] != "name"@[0]);
}

/// A frame comes back out of its JSON form.
pub proof fn frame_round_trip(f: FrameModel)
    ensures
        frame_of(frame_json(f)) == Some(f),
{
    frame_types_differ();
    frame_keys_differ();
    let head = seq![("type"@, JsonModel::Text(frame_type(f)))];
    let body = frame_body(f);
    let fields = head + body;
    assert(fields[0] == head[0]);
    lookup_steps(fields, "type"@, 0);
    assert(forall|i: int| 0 <= i < body.len() ==> fields[i + 1] == #[trigger] body[i]);
    match f {
        FrameModel::Hello { peer_name, deskd_version, capabilities } => {
            assert(fields[1] == body[0] && fields[2] == body[1] && fields[3] == body[2]);
            lookup_steps(fields, "peer_name"@, 1);
            lookup_steps(fields, "deskd_version"@, 2);
            lookup_steps(fields, "capabilities"@, 3);
            let items = text_list_model(capabilities)->List_0;
            assert(all_texts(items)->0 =~= capabilities);
        },
        FrameModel::Welcome { hub_name, replay_supported } => {
            assert(fields[1] == body[0] && fields[2] == body[1]);
            lookup_steps(fields, "hub_name"@, 1);
            lookup_steps(fields, "replay_supported"@, 2);
        },
        FrameModel::Ping => {},
        FrameModel::Pong => {},
        FrameModel::Subscribe { pattern } => {
            assert(fields[1] == body[0]);
            lookup_steps(fields, "pattern"@, 1);
        },
        FrameModel::Unsubscribe { pattern } => {
            assert(fields[1] == body[0]);
            lookup_steps(fields, "pattern"@, 1);
        },
        FrameModel::SubscribeInbox { name } => {
            assert(fields[1] == body[0]);
            lookup_steps(fields, "name"@, 1);
        },
        FrameModel::BusMessage(m) => {
            message_round_trip_after(head, m);
        },
        FrameModel::Forward { origin, message } => {
            assert(fields[1] == body[0] && fields[2] == body[1]);
            lookup_steps(fields, "origin"@, 1);
            lookup_steps(fields, "message"@, 2);
            message_round_trip(message);
        },
    }
}

/// A frame of an unknown type is refused.
pub proof fn unknown_frame_type_refused(j: JsonModel)
    requires
        j.text_field("type"@) matches Some(t) ==> forall|f: FrameModel| t != #[trigger] frame_type(f),
    ensures
        frame_of(j) is None,
{
    if let Some(t) = j.text_field("type"@) {
        assert(t != frame_type(FrameModel::Ping));
        assert(t != frame_type(FrameModel::Pong));
        assert(t != frame_type(FrameModel::Subscribe { pattern: t }));
        assert(t != frame_type(FrameModel::Unsubscribe { pattern: t }));
        assert(t != frame_type(FrameModel::SubscribeInbox { name: t }));
        assert(t != frame_type(FrameModel::Welcome { hub_name: t, replay_supported: false }));
        assert(t != frame_type(
            FrameModel::Hello { peer_name: t, deskd_version: t, capabilities: Seq::empty() },
        ));
        let m: MessageModel = arbitrary();
        assert(t != frame_type(FrameModel::BusMessage(m)));
        assert(t != frame_type(FrameModel::Forward { origin: t, message: m }));
    }
}

/// A list of texts that may be left out.
pub(crate) fn read_text_list(j: &Json, key: &str) -> (r: Option<Vec<String>>)
    ensures
        match r {
            Some(v) => optional_text_list(j@, key@) == Some(texts(v@)),
            None => optional_text_list(j@, key@) is None,
        },
{
    match j.get(key) {
        None => {
            let out: Vec<String> = Vec::new();
            assert(texts(out@) =~= Seq::<Seq<char>>::empty());
            Some(out)
        },
        Some(v) => {
            let items = match v.as_array() {
                Some(items) => items,
                None => {
                    return None;
                },
            };
            let ghost all = crate::json::item_models(items@);
            let mut out: Vec<String> = Vec::new();
            let mut i: usize = 0;
            while i < items.len()
                invariant
                    i <= items@.len(),
                    all == crate::json::item_models(items@),
                    j@.get(key@) == Some(JsonModel::List(all)),
                    out@.len() == i,
                    forall|k: int|
                        0 <= k < i ==> (#[trigger] all[k]) is Text && out@[k]@ == all[k]->Text_0,
                decreases items@.len() - i,
            {
                assert(all[i as int] == items@[i as int]@);
                match items[i].as_str() {
                    Some(t) => {
                        out.push(String::from_str(t));
                    },
                    None => {
                        assert(!(all[i as int] is Text));
                        return None;
                    },
                }
                i += 1;
            }
            assert(texts(out@) =~= all_texts(all)->0);
            Some(out)
        },
    }
}

impl FederationFrame {
    /// The JSON form of this frame.
    pub fn to_json(&self) -> (r: Json)
        ensures
            r@ == frame_json(self@),
    {
        let mut fields = Fields::new();
        match self {
            FederationFrame::Hello { peer_name, deskd_version, capabilities } => {
                fields.put_text("type", "hello");
                fields.put_text("peer_name", peer_name);
                fields.put_text("deskd_version", deskd_version);
                fields.put("capabilities", Json::texts(capabilities));
            },
            FederationFrame::Welcome { hub_name, replay_supported } => {
                fields.put_text("type", "welcome");
                fields.put_text("hub_name", hub_name);
                fields.put("replay_supported", Json::Bool(*replay_supported));
            },
            FederationFrame::Ping => {
                fields.put_text("type", "ping");
            },
            FederationFrame::Pong => {
                fields.put_text("type", "pong");
            },
            FederationFrame::Subscribe { pattern } => {
                fields.put_text("type", "subscribe");
                fields.put_text("pattern", pattern);
            },
            FederationFrame::Unsubscribe { pattern } => {
                fields.put_text("type", "unsubscribe");
                fields.put_text("pattern", pattern);
            },
            FederationFrame::SubscribeInbox { name } => {
                fields.put_text("type", "subscribe_inbox");
                fields.put_text("name", name);
            },
            FederationFrame::BusMessage(message) => {
                fields.put_text("type", "bus_message");
                message.put_fields(&mut fields);
            },
            FederationFrame::Forward { origin, message } => {
                fields.put_text("type", "forward");
                fields.put_text("origin", origin);
                fields.put("message", message.to_json());
            },
        }
        assert(fields@ =~= frame_json(self@)->Object_0);
        fields.object()
    }

    /// The frame that a JSON value describes.
    pub fn from_json(j: &Json) -> (r: Option<FederationFrame>)
        ensures
            match r {
                Some(f) => frame_of(j@) == Some(f@),
                None => frame_of(j@) is None,
            },
    {
        let t = match j.text_field("type") {
            Some(t) => t,
            None => {
                return None;
            },
        };
        if same(t, "hello") {
            match (
                j.text_field("peer_name"),
                j.text_field("deskd_version"),
                read_text_list(j, "capabilities"),
            ) {
                (Some(peer_name), Some(deskd_version), Some(capabilities)) => Some(
                    FederationFrame::Hello {
                        peer_name: String::from_str(peer_name),
                        deskd_version: String::from_str(deskd_version),
                        capabilities,
                    },
                ),
                _ => None,
            }
        } else if same(t, "welcome") {
            let replay_supported: bool = match j.get("replay_supported") {
                None => false,
                Some(v) => match v.as_bool() {
                    Some(b) => b,
                    None => {
                        return None;
                    },
                },
            };
            match j.text_field("hub_name") {
                Some(hub_name) => Some(
                    FederationFrame::Welcome {
                        hub_name: String::from_str(hub_name),
                        replay_supported,
                    },
                ),
                None => None,
            }
        } else if same(t, "ping") {
            Some(FederationFrame::Ping)
        } else if same(t, "pong") {
            Some(FederationFrame::Pong)
        } else if same(t, "subscribe") {
            match j.text_field("pattern") {
                Some(p) => Some(FederationFrame::Subscribe { pattern: String::from_str(p) }),
                None => None,
            }
        } else if same(t, "unsubscribe") {
            match j.text_field("pattern") {
                Some(p) => Some(FederationFrame::Unsubscribe { pattern: String::from_str(p) }),
                None => None,
            }
        } else if same(t, "subscribe_inbox") {
            match j.text_field("name") {
                Some(n) => Some(FederationFrame::SubscribeInbox { name: String::from_str(n) }),
                None => None,
            }
        } else if same(t, "bus_message") {
            match BusMessage::from_json(j) {
                Some(m) => Some(FederationFrame::BusMessage(m)),
                None => None,
            }
        } else if same(t, "forward") {
            match (j.text_field("origin"), j.get("message")) {
                (Some(origin), Some(inner)) => match BusMessage::from_json(inner) {
                    Some(message) => Some(
                        FederationFrame::Forward { origin: String::from_str(origin), message },
                    ),
                    None => None,
                },
                _ => None,
            }
        } else {
            None
        }
    }

    /// The frame as one line: the text of its JSON form and a newline. The frame
    /// comes back out of the line.
    pub fn to_line(&self) -> (r: String)
        ensures
            r@ == line_text(frame_json(self@)),
            solid_line(r@.drop_last()),
            travels(self@) ==> frame_at(r@.drop_last()) == Some(self@),
    {
        proof {
            frame_round_trip(self@);
            if travels(self@) {
                travelling_frames_are_faithful(self@);
            }
        }
        write_line(&self.to_json())
    }

    /// The frame that a line denotes.
    pub fn parse(line: &str) -> (r: Option<FederationFrame>)
        ensures
            match r {
                Some(f) => frame_at(line@) == Some(f@),
                None => frame_at(line@) is None,
            },
    {
        match parse(line) {
            Some(j) => FederationFrame::from_json(&j),
            None => None,
        }
    }
}

/// The frame that a text denotes.
pub open spec fn frame_at(text: Seq<char>) -> Option<FrameModel> {
    match parsed_json(text) {
        Some(j) => frame_of(j),
        None => None,
    }
}

/// Whether a frame is one that comes back out of its line: the payload of a
/// message holds no key twice, is not nested too deep, and its numbers are ones
/// that come back.
pub open spec fn travels(f: FrameModel) -> bool {
    match f {
        FrameModel::BusMessage(m) => faithful(m.payload, 126),
        FrameModel::Forward { message, .. } => faithful(message.payload, 125),
        _ => true,
    }
}

/// A frame that travels is one that its text denotes.
pub proof fn travelling_frames_are_faithful(f: FrameModel)
    requires
        travels(f),
    ensures
        faithful(frame_json(f), TEXT_DEPTH as nat),
{
    frame_keys_differ();
    message_keys_differ();
    let head = seq![("type"@, JsonModel::Text(frame_type(f)))];
    let body = frame_body(f);
    let fields = head + body;
    assert(fields[0] == head[0]);
    assert(forall|i: int| 0 <= i < body.len() ==> fields[i + 1] == #[trigger] body[i]);
    assert forall|i: int| 0 <= i < body.len() implies faithful((#[trigger] body[i]).1, 126) by {
        match f {
            FrameModel::BusMessage(m) => {
                fields_are_faithful(m, 126);
            },
            FrameModel::Forward { message, .. } => {
                fields_are_faithful(message, 125);
            },
            FrameModel::Hello { capabilities, .. } => {
                let items = text_list_model(capabilities)->List_0;
                assert forall|k: int| 0 <= k < items.len() implies faithful(
                    #[trigger] items[k],
                    125,
                ) by {}
                assert(faithful(text_list_model(capabilities), 126));
            },
            _ => {},
        }
    }
    assert forall|i: int| 0 <= i < fields.len() implies faithful((#[trigger] fields[i]).1, 126) by {
        if i > 0 {
            assert(fields[i] == body[i - 1]);
        }
    }
}

proof fn fields_are_faithful(m: MessageModel, d: nat)
    requires
        faithful(m.payload, d),
        d > 0,
    ensures
        forall|i: int| 0 <= i < 6 ==> faithful((#[trigger] message_fields(m)[i]).1, d),
        faithful(JsonModel::Object(message_fields(m)), d + 1),
{
    message_keys_differ();
    let meta = metadata_json(m.metadata)->Object_0;
    assert forall|i: int| 0 <= i < meta.len() implies faithful(
        (#[trigger] meta[i]).1,
        (d - 1) as nat,
    ) by {}
    assert(faithful(metadata_json(m.metadata), d));
    let fields = message_fields(m);
    assert forall|i: int| 0 <= i < fields.len() implies faithful((#[trigger] fields[i]).1, d) by {
        match m.reply_to {
            Some(_) => {},
            None => {},
        }
    }
    assert((d + 1 - 1) as nat == d);
}

} // verus!
