//! The report of `tailscale status --json`.
use super::frame::{all_texts, optional_text_list, read_text_list};
use super::preflight::{TailnetPeer, TailnetStatus};
use crate::json::{
    field_models, key_texts, listed_record, record, text_list_holds_its_texts, text_list_model,
    Json, JsonModel,
};
use crate::json_text::{parse_bytes, parsed_bytes};
use crate::text::texts;
use vstd::prelude::*;
use vstd::string::*;

verus! {

/// The contents of a status.
pub struct StatusView {
    pub backend_state: Seq<char>,
    pub tailscale_ips: Seq<Seq<char>>,
    /// The addresses of each other node, with its key.
    pub peer: Seq<(Seq<char>, Seq<Seq<char>>)>,
}

impl View for TailnetStatus {
    type V = StatusView;

    open spec fn view(&self) -> StatusView {
        StatusView {
            backend_state: self.backend_state@,
            tailscale_ips: texts(self.tailscale_ips@),
            peer: peer_views(self.peer@),
        }
    }
}

/// The contents of the entries for other nodes.
pub open spec fn peer_views(v: Seq<(String, TailnetPeer)>) -> Seq<(Seq<char>, Seq<Seq<char>>)> {
    Seq::new(v.len(), |i: int| (v[i].0@, texts(v[i].1.tailscale_ips@)))
}

/// The state that a report names: a text that may be left out.
pub open spec fn state_of(j: JsonModel) -> Option<Seq<char>> {
    match j.get("BackendState"@) {
        None => Some(Seq::empty()),
        Some(v) => v.as_text(),
    }
}

/// The keys of a node.
pub open spec fn node_keys() -> Seq<Seq<char>> {
    seq!["TailscaleIPs"@]
}

/// The addresses of a node that a report lists.
pub open spec fn node_of(j: JsonModel) -> Option<Seq<Seq<char>>> {
    let j = record(j, node_keys(), 0);
    if j is Object {
        optional_text_list(j, "TailscaleIPs"@)
    } else {
        None
    }
}

/// The other nodes that a report lists, where each entry is one.
pub open spec fn nodes_of(fields: Seq<(Seq<char>, JsonModel)>) -> Option<
    Seq<(Seq<char>, Seq<Seq<char>>)>,
> {
    if forall|i: int| 0 <= i < fields.len() ==> node_of((#[trigger] fields[i]).1) is Some {
        Some(Seq::new(fields.len(), |i: int| (fields[i].0, node_of(fields[i].1)->0)))
    } else {
        None
    }
}

/// The other nodes of a report. They may be left out.
pub open spec fn peers_of(j: JsonModel) -> Option<Seq<(Seq<char>, Seq<Seq<char>>)>> {
    match j.get("Peer"@) {
        None => Some(Seq::empty()),
        Some(JsonModel::Object(fields)) => nodes_of(fields),
        Some(_) => None,
    }
}

/// The keys of a status, in order.
pub open spec fn status_keys() -> Seq<Seq<char>> {
    seq!["BackendState"@, "TailscaleIPs"@, "Peer"@]
}

/// The status that a report describes.
pub open spec fn status_of(j: JsonModel) -> Option<StatusView> {
    let j = record(j, status_keys(), 0);
    match (state_of(j), node_of(j), peers_of(j)) {
        (Some(backend_state), Some(tailscale_ips), Some(peer)) => Some(
            StatusView { backend_state, tailscale_ips, peer },
        ),
        _ => None,
    }
}

/// The status that the bytes of a report denote.
pub open spec fn status_at(bytes: Seq<u8>) -> Option<StatusView> {
    match parsed_bytes(bytes) {
        Some(j) => status_of(j),
        None => None,
    }
}

fn read_node(j: &Json) -> (r: Option<Vec<String>>)
    ensures
        match r {
            Some(v) => node_of(j@) == Some(texts(v@)),
            None => node_of(j@) is None,
        },
{
    let keys: Vec<&'static str> = vec!["TailscaleIPs"];
    assert(key_texts(keys@) =~= node_keys());
    let named = listed_record(j, &keys, 0);
    let j = match &named {
        Some(o) => o,
        None => j,
    };
    match j.as_object() {
        Some(_) => read_text_list(j, "TailscaleIPs"),
        None => None,
    }
}

fn read_peers(j: &Json) -> (r: Option<Vec<(String, TailnetPeer)>>)
    ensures
        match r {
            Some(v) => peers_of(j@) == Some(peer_views(v@)),
            None => peers_of(j@) is None,
        },
{
    let mut out: Vec<(String, TailnetPeer)> = Vec::new();
    let entry = match j.get("Peer") {
        Some(v) => v,
        None => {
            assert(peer_views(out@) =~= Seq::empty());
            return Some(out);
        },
    };
    let fields = match entry.as_object() {
        Some(f) => f,
        None => {
            return None;
        },
    };
    let ghost all = field_models(fields@);
    let mut i: usize = 0;
    while i < fields.len()
        invariant
            i <= fields@.len(),
            all == field_models(fields@),
            j@.get("Peer"@) == Some(JsonModel::Object(all)),
            out@.len() == i,
            forall|k: int|
                0 <= k < i ==> node_of((#[trigger] all[k]).1) == Some(
                    texts(out@[k].1.tailscale_ips@),
                ) && all[k].0 == out@[k].0@,
        decreases fields@.len() - i,
    {
        assert(all[i as int] == (fields@[i as int].0@, fields@[i as int].1@));
        match read_node(&fields[i].1) {
            Some(tailscale_ips) => {
                out.push((fields[i].0.clone(), TailnetPeer { tailscale_ips }));
            },
            None => {
                assert(node_of(all[i as int].1) is None);
                return None;
            },
        }
        i += 1;
    }
    assert(nodes_of(all)->0 =~= peer_views(out@));
    Some(out)
}

impl TailnetStatus {
    /// The status that a report describes.
    pub fn from_json(j: &Json) -> (r: Option<TailnetStatus>)
        ensures
            match r {
                Some(s) => status_of(j@) == Some(s@),
                None => status_of(j@) is None,
            },
    {
        let keys: Vec<&'static str> = vec!["BackendState", "TailscaleIPs", "Peer"];
        assert(key_texts(keys@) =~= status_keys());
        let named = listed_record(j, &keys, 0);
        let j = match &named {
            Some(o) => o,
            None => j,
        };
        let backend_state = match j.get("BackendState") {
            None => String::new(),
            Some(v) => match v.as_str() {
                Some(t) => String::from_str(t),
                None => {
                    return None;
                },
            },
        };
        match (read_node(j), read_peers(j)) {
            (Some(tailscale_ips), Some(peer)) => Some(
                TailnetStatus { backend_state, tailscale_ips, peer },
            ),
            _ => None,
        }
    }

    /// The status that the output of `tailscale status --json` denotes.
    pub fn parse(output: &[u8]) -> (r: Result<TailnetStatus, String>)
        ensures
            match status_at(output@) {
                Some(v) => r matches Ok(s) && s@ == v,
                None => r matches Err(e) && e@ == "parse tailscale status JSON"@,
            },
    {
        match parse_bytes(output) {
            Some(j) => match TailnetStatus::from_json(&j) {
                Some(s) => Ok(s),
                None => Err(String::from_str("parse tailscale status JSON")),
            },
            None => Err(String::from_str("parse tailscale status JSON")),
        }
    }
}

/// A report in the form of an object is read by its keys: the state, the addresses, and the
/// other nodes under their names with theirs.
pub proof fn reports_are_read_by_key(
    fields: Seq<(Seq<char>, JsonModel)>,
    state: Seq<char>,
    ips: Seq<Seq<char>>,
)
    requires
        JsonModel::Object(fields).get("BackendState"@) == Some(JsonModel::Text(state)),
        JsonModel::Object(fields).get("TailscaleIPs"@) == Some(text_list_model(ips)),
    ensures
        ({
            let r = status_of(JsonModel::Object(fields));
            let peers = JsonModel::Object(fields).get("Peer"@);
            &&& peers is None ==> r is Some && r->0.peer.len() == 0
            &&& r is Some ==> r->0.backend_state == state && r->0.tailscale_ips == ips
            &&& r is Some ==> (peers matches Some(JsonModel::Object(nodes)) ==> r->0.peer.len()
                == nodes.len() && forall|i: int|
                0 <= i < nodes.len() ==> (#[trigger] r->0.peer[i]).0 == nodes[i].0)
        }),
{
    text_list_holds_its_texts(ips);
    let items = text_list_model(ips)->List_0;
    assert(node_of(JsonModel::Object(fields)) == all_texts(items));
    assert(all_texts(items)->0 =~= ips);
}

} // verus!
