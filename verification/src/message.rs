//! Bus messages and their JSON form.
use crate::json::{opt_text_model, Fields, Json, JsonModel};
use crate::text::{copy_opt, opt_text};
use crate::json_text::{parse, parsed_json};
use vstd::prelude::*;
use vstd::string::*;

verus! {

/// Delivery hints of a bus message.
#[derive(Debug, PartialEq, Clone, Copy)]
pub struct BusMetadata {
    /// Higher numbers are served first.
    pub priority: u8,
    /// Whether the receiving agent starts a fresh session for the task.
    pub fresh: bool,
}

/// The priority of a message that states none.
pub const DEFAULT_PRIORITY: u8 = 5;

/// A message on the bus.
#[derive(Debug, PartialEq)]
pub struct BusMessage {
    pub id: String,
    pub source: String,
    pub target: String,
    pub payload: Json,
    pub reply_to: Option<String>,
    pub metadata: BusMetadata,
}

/// The contents of a bus message.
pub struct MessageModel {
    pub id: Seq<char>,
    pub source: Seq<char>,
    pub target: Seq<char>,
    pub payload: JsonModel,
    pub reply_to: Option<Seq<char>>,
    pub metadata: BusMetadata,
}

impl View for BusMessage {
    type V = MessageModel;

    open spec fn view(&self) -> MessageModel {
        MessageModel {
            id: self.id@,
            source: self.source@,
            target: self.target@,
            payload: self.payload@,
            reply_to: opt_text(self.reply_to),
            metadata: self.metadata,
        }
    }
}

/// The JSON form of the delivery hints.
pub open spec fn metadata_json(m: BusMetadata) -> JsonModel {
    JsonModel::Object(
        seq![
            ("priority"@, JsonModel::Number(m.priority as int)),
            ("fresh"@, JsonModel::Bool(m.fresh)),
        ],
    )
}

/// The delivery hints that a JSON value describes: each may be left out, and
/// where it is there it has its type.
pub open spec fn metadata_of(j: JsonModel) -> Option<BusMetadata> {
    let priority = match j.get("priority"@) {
        None => Some(DEFAULT_PRIORITY as int),
        Some(v) => match v.as_u64() {
            Some(n) => if n <= u8::MAX {
                Some(n)
            } else {
                None
            },
            None => None,
        },
    };
    let fresh = match j.get("fresh"@) {
        None => Some(false),
        Some(v) => v.as_bool(),
    };
    if j is Object && priority is Some && fresh is Some {
        Some(BusMetadata { priority: priority->0 as u8, fresh: fresh->0 })
    } else {
        None
    }
}

/// The fields of the JSON form of a message.
pub open spec fn message_fields(m: MessageModel) -> Seq<(Seq<char>, JsonModel)> {
    seq![
        ("id"@, JsonModel::Text(m.id)),
        ("source"@, JsonModel::Text(m.source)),
        ("target"@, JsonModel::Text(m.target)),
        ("payload"@, m.payload),
        ("reply_to"@, opt_text_model(m.reply_to)),
        ("metadata"@, metadata_json(m.metadata)),
    ]
}

/// An optional text field: absent or null for none.
pub open spec fn optional_text(j: JsonModel, key: Seq<char>) -> Option<Option<Seq<char>>> {
    match j.get(key) {
        None => Some(None),
        Some(JsonModel::Null) => Some(None),
        Some(JsonModel::Text(t)) => Some(Some(t)),
        Some(_) => None,
    }
}

/// The message that a JSON value describes.
pub open spec fn message_of(j: JsonModel) -> Option<MessageModel> {
    let reply_to = optional_text(j, "reply_to"@);
    let metadata = match j.get("metadata"@) {
        None => Some(BusMetadata { priority: DEFAULT_PRIORITY, fresh: false }),
        Some(v) => metadata_of(v),
    };
    match (j.text_field("id"@), j.text_field("source"@), j.text_field("target"@)) {
        (Some(id), Some(source), Some(target)) => {
            if j.get("payload"@) is Some && reply_to is Some && metadata is Some {
                Some(
                    MessageModel {
                        id,
                        source,
                        target,
                        payload: j.get("payload"@)->0,
                        reply_to: reply_to->0,
                        metadata: metadata->0,
                    },
                )
            } else {
                None
            }
        },
        _ => None,
    }
}

/// The keys of the JSON form of a message differ from each other and from the
/// keys with which a frame wraps it.
pub proof fn message_keys_differ()
    ensures
        "id"@ != "source"@,
        "id"@ != "target"@,
        "id"@ != "payload"@,
        "id"@ != "reply_to"@,
        "id"@ != "metadata"@,
        "source"@ != "target"@,
        "source"@ != "payload"@,
        "source"@ != "reply_to"@,
        "source"@ != "metadata"@,
        "target"@ != "payload"@,
        "target"@ != "reply_to"@,
        "target"@ != "metadata"@,
        "payload"@ != "reply_to"@,
        "payload"@ != "metadata"@,
        "reply_to"@ != "metadata"@,
        "priority"@ != "fresh"@,
        "type"@ != "id"@,
        "type"@ != "source"@,
        "type"@ != "target"@,
        "type"@ != "payload"@,
        "type"@ != "reply_to"@,
        "type"@ != "metadata"@,
{
    reveal_strlit("id");
    reveal_strlit("source");
    reveal_strlit("target");
    reveal_strlit("payload");
    reveal_strlit("reply_to");
    reveal_strlit("metadata");
    reveal_strlit("priority");
    reveal_strlit("fresh");
    reveal_strlit("type");
    assert("id"@.len() == 2 && "source"@.len() == 6 && "target"@.len() == 6);
    assert("payload"@.len() == 7 && "reply_to"@.len() == 8 && "metadata"@.len() == 8);
    assert("priority"@.len() == 8 && "fresh"@.len() == 5 && "type"@.len() == 4);
    assert("source"@[0] != "target"@[0]);
    assert("reply_to"@[0] != "metadata"@[0]);
}

/// What the lookup of a key finds in a list of fields.
pub proof fn lookup_steps(fields: Seq<(Seq<char>, JsonModel)>, key: Seq<char>, k: int)
    requires
        0 <= k < fields.len(),
        fields[k].0 == key,
        forall|i: int| 0 <= i < k ==> (#[trigger] fields[i]).0 != key,
    ensures
        JsonModel::Object(fields).get(key) == Some(fields[k].1),
    decreases k,
{
    if k > 0 {
        assert(fields[0].0 != key);
        let rest = fields.skip(1);
        assert(rest[k - 1] == fields[k]);
        assert forall|i: int| 0 <= i < k - 1 implies (#[trigger] rest[i]).0 != key by {
            assert(rest[i] == fields[i + 1]);
        }
        lookup_steps(rest, key, k - 1);
    }
}

/// What the lookup of an absent key finds.
pub proof fn lookup_absent(fields: Seq<(Seq<char>, JsonModel)>, key: Seq<char>)
    requires
        forall|i: int| 0 <= i < fields.len() ==> (#[trigger] fields[i]).0 != key,
    ensures
        JsonModel::Object(fields).get(key) is None,
    decreases fields.len(),
{
    if fields.len() > 0 {
        assert(fields[0].0 != key);
        let rest = fields.skip(1);
        assert forall|i: int| 0 <= i < rest.len() implies (#[trigger] rest[i]).0 != key by {
            assert(rest[i] == fields[i + 1]);
        }
        lookup_absent(rest, key);
    }
}

/// The delivery hints come back out of their JSON form.
pub proof fn metadata_round_trip(m: BusMetadata)
    ensures
        metadata_of(metadata_json(m)) == Some(m),
{
    message_keys_differ();
    let fields = seq![
        ("priority"@, JsonModel::Number(m.priority as int)),
        ("fresh"@, JsonModel::Bool(m.fresh)),
    ];
    lookup_steps(fields, "priority"@, 0);
    lookup_steps(fields, "fresh"@, 1);
}

/// A message comes back out of the fields of its JSON form, whatever other
/// fields stand before them.
pub proof fn message_round_trip_after(before: Seq<(Seq<char>, JsonModel)>, m: MessageModel)
    requires
        forall|i: int| 0 <= i < before.len() ==> (#[trigger] before[i]).0 == "type"@,
    ensures
        message_of(JsonModel::Object(before + message_fields(m))) == Some(m),
{
    message_keys_differ();
    metadata_round_trip(m.metadata);
    let n = before.len() as int;
    let fields = before + message_fields(m);
    assert(message_fields(m).len() == 6);
    assert(fields[n] == message_fields(m)[0]);
    assert(fields[n + 1] == message_fields(m)[1]);
    assert(fields[n + 2] == message_fields(m)[2]);
    assert(fields[n + 3] == message_fields(m)[3]);
    assert(fields[n + 4] == message_fields(m)[4]);
    assert(fields[n + 5] == message_fields(m)[5]);
    assert forall|i: int| 0 <= i < n implies (#[trigger] fields[i]).0 == "type"@ by {
        assert(fields[i] == before[i]);
    }
    lookup_steps(fields, "id"@, n);
    lookup_steps(fields, "source"@, n + 1);
    lookup_steps(fields, "target"@, n + 2);
    lookup_steps(fields, "payload"@, n + 3);
    lookup_steps(fields, "reply_to"@, n + 4);
    lookup_steps(fields, "metadata"@, n + 5);
}

/// A message comes back out of its JSON form.
pub proof fn message_round_trip(m: MessageModel)
    ensures
        message_of(JsonModel::Object(message_fields(m))) == Some(m),
{
    message_round_trip_after(Seq::empty(), m);
    assert(Seq::<(Seq<char>, JsonModel)>::empty() + message_fields(m) =~= message_fields(m));
}

impl BusMetadata {
    fn from_json(j: &Json) -> (r: Option<BusMetadata>)
        ensures
            r == metadata_of(j@),
    {
        match j {
            Json::Object(_) => {},
            _ => {
                return None;
            },
        }
        let priority: u8 = match j.get("priority") {
            None => DEFAULT_PRIORITY,
            Some(v) => match v.as_u64() {
                Some(n) => {
                    if n <= 255 {
                        n as u8
                    } else {
                        return None;
                    }
                },
                None => {
                    return None;
                },
            },
        };
        let fresh: bool = match j.get("fresh") {
            None => false,
            Some(v) => match v.as_bool() {
                Some(b) => b,
                None => {
                    return None;
                },
            },
        };
        Some(BusMetadata { priority, fresh })
    }
}

/// Reads an optional text field.
pub(crate) fn read_optional_text(j: &Json, key: &str) -> (r: Option<Option<String>>)
    ensures
        match r {
            Some(o) => optional_text(j@, key@) == Some(opt_text(o)),
            None => optional_text(j@, key@) is None,
        },
{
    match j.get(key) {
        None => Some(None),
        Some(v) => match v {
            Json::Null => Some(None),
            Json::Text(t) => Some(Some(t.clone())),
            _ => None,
        },
    }
}

impl BusMessage {
    /// A copy of the message.
    pub fn copy(&self) -> (r: BusMessage)
        ensures
            r@ == self@,
    {
        BusMessage {
            id: self.id.clone(),
            source: self.source.clone(),
            target: self.target.clone(),
            payload: self.payload.copy(),
            reply_to: copy_opt(&self.reply_to),
            metadata: self.metadata,
        }
    }

    /// Adds the fields of the JSON form of this message.
    pub(crate) fn put_fields(&self, fields: &mut Fields)
        ensures
            final(fields)@ == old(fields)@ + message_fields(self@),
    {
        let ghost before = fields@;
        fields.put_text("id", &self.id);
        fields.put_text("source", &self.source);
        fields.put_text("target", &self.target);
        fields.put("payload", self.payload.copy());
        fields.put("reply_to", Json::opt_text(&self.reply_to));
        let mut meta = Fields::new();
        meta.put("priority", Json::uint(self.metadata.priority as u64));
        meta.put("fresh", Json::Bool(self.metadata.fresh));
        assert(meta@ =~= metadata_json(self.metadata)->Object_0);
        let meta = meta.object();
        fields.put("metadata", meta);
        assert(fields@ =~= before + message_fields(self@));
    }

    /// The JSON form of this message.
    pub fn to_json(&self) -> (r: Json)
        ensures
            r@ == JsonModel::Object(message_fields(self@)),
    {
        let mut fields = Fields::new();
        self.put_fields(&mut fields);
        assert(fields@ =~= message_fields(self@));
        fields.object()
    }

    /// The message that a JSON value describes.
    pub fn from_json(j: &Json) -> (r: Option<BusMessage>)
        ensures
            match r {
                Some(m) => message_of(j@) == Some(m@),
                None => message_of(j@) is None,
            },
    {
        let metadata = match j.get("metadata") {
            None => BusMetadata { priority: DEFAULT_PRIORITY, fresh: false },
            Some(v) => match BusMetadata::from_json(v) {
                Some(m) => m,
                None => {
                    return None;
                },
            },
        };
        let reply_to = match read_optional_text(j, "reply_to") {
            Some(o) => o,
            None => {
                return None;
            },
        };
        match (j.text_field("id"), j.text_field("source"), j.text_field("target"), j.get("payload")) {
            (Some(id), Some(source), Some(target), Some(payload)) => Some(
                BusMessage {
                    id: String::from_str(id),
                    source: String::from_str(source),
                    target: String::from_str(target),
                    payload: payload.copy(),
                    reply_to,
                    metadata,
                },
            ),
            _ => None,
        }
    }
}

/// The message that a text denotes.
pub open spec fn message_at(text: Seq<char>) -> Option<MessageModel> {
    match parsed_json(text) {
        Some(j) => message_of(j),
        None => None,
    }
}

impl BusMessage {
    /// The message that a line of the bus denotes.
    pub fn parse(line: &str) -> (r: Option<BusMessage>)
        ensures
            match r {
                Some(m) => message_at(line@) == Some(m@),
                None => message_at(line@) is None,
            },
    {
        match parse(line) {
            Some(j) => BusMessage::from_json(&j),
            None => None,
        }
    }
}

/// Without hints a message has the priority 5 and is not fresh; a hint that is given is
/// taken, and a priority above 255 is none.
pub proof fn hints_are_taken_where_given(fields: Seq<(Seq<char>, JsonModel)>, n: nat, fresh: bool)
    ensures
        ({
            let j = JsonModel::Object(fields);
            let r = metadata_of(j);
            &&& j.get("priority"@) is None && j.get("fresh"@) is None ==> r is Some
                && r->0.priority == 5 && !r->0.fresh
            &&& j.get("priority"@) == Some(JsonModel::Number(n as int)) && n <= 255 && j.get(
                "fresh"@,
            ) == Some(JsonModel::Bool(fresh)) ==> r is Some && r->0.priority == n && r->0.fresh
                == fresh
            &&& j.get("priority"@) == Some(JsonModel::Number(n as int)) && n > 255 ==> r is None
        }),
{
}

} // verus!
