//! Rooms: agents that work together, as a running server knows them.
use super::answers::{find_state, state_index};
use crate::agent::AgentState;
use crate::config::{SubAgentDef, UserConfig};
use crate::json::{opt_text_model, Fields, Items, Json, JsonModel};
use crate::text::{cat3, opt_text, same, texts};
use crate::message::lookup_steps;
use vstd::prelude::*;
use vstd::string::*;

verus! {

/// A room.
#[derive(Debug, Clone, PartialEq)]
pub struct Room {
    pub name: String,
    pub work_dir: String,
    pub context: Option<String>,
    pub agents: Vec<String>,
    /// What its agents cost together, as a decimal number.
    pub cost: String,
}

/// An agent that a server runs. `config` is its configuration, or why it could
/// not be read.
#[derive(Debug, PartialEq)]
pub struct ServedAgent {
    pub name: String,
    pub work_dir: String,
    pub bus_socket: String,
    pub config: Result<UserConfig, String>,
}

/// What a running server says of itself.
#[derive(Debug, PartialEq)]
pub struct ServeState {
    pub rooms: Vec<Room>,
    pub agents: Vec<ServedAgent>,
}

/// The complaint that no server runs.
pub const NO_SERVE_STATE: &'static str = "no serve state found (deskd serve not running?)";

/// The state of the agent with a name, where it is known.
pub open spec fn state_named(states: Seq<AgentState>, name: Seq<char>) -> Option<AgentState> {
    let i = state_index(states, name) as int;
    if i < states.len() {
        Some(states[i])
    } else {
        None
    }
}

/// Whether the state of an agent counts as active.
pub open spec fn is_active(state: Option<AgentState>) -> bool {
    state matches Some(s) && (s.status@ == "active"@ || s.status@ == "idle"@)
}

/// The number of active agents among the first `n` of a room.
pub open spec fn active_among(names: Seq<Seq<char>>, states: Seq<AgentState>, n: int) -> nat
    decreases n,
{
    if n <= 0 {
        0
    } else {
        active_among(names, states, n - 1) + (if is_active(state_named(states, names[n - 1])) {
            1nat
        } else {
            0
        })
    }
}

/// A room as the list of rooms shows it.
pub open spec fn room_model(r: Room, states: Seq<AgentState>) -> JsonModel {
    JsonModel::Object(
        seq![
            ("name"@, JsonModel::Text(r.name@)),
            ("work_dir"@, JsonModel::Text(r.work_dir@)),
            ("context"@, opt_text_model(opt_text(r.context))),
            ("agent_count"@, JsonModel::Number(r.agents@.len() as int)),
            (
                "active_agents"@,
                JsonModel::Number(
                    active_among(texts(r.agents@), states, r.agents@.len() as int) as int,
                ),
            ),
            ("cost_usd"@, JsonModel::Float(r.cost@)),
        ],
    )
}

fn count_active(r: &Room, states: &Vec<AgentState>) -> (n: usize)
    ensures
        n == active_among(texts(r.agents@), states@, r.agents@.len() as int),
        n <= r.agents@.len(),
{
    let ghost names = texts(r.agents@);
    let mut n: usize = 0;
    let mut i: usize = 0;
    while i < r.agents.len()
        invariant
            i <= r.agents@.len(),
            names == texts(r.agents@),
            n <= i,
            n == active_among(names, states@, i as int),
        decreases r.agents@.len() - i,
    {
        assert(names[i as int] == r.agents@[i as int]@);
        match find_state(states, &r.agents[i]) {
            Some(s) => {
                if same(&s.status, "active") || same(&s.status, "idle") {
                    n += 1;
                }
            },
            None => {},
        }
        i += 1;
    }
    n
}

fn room_json(r: &Room, states: &Vec<AgentState>) -> (v: Json)
    ensures
        v@ == room_model(*r, states@),
{
    let mut f = Fields::new();
    f.put_text("name", &r.name);
    f.put_text("work_dir", &r.work_dir);
    f.put("context", Json::opt_text(&r.context));
    f.put("agent_count", Json::Number(r.agents.len() as i128));
    f.put("active_agents", Json::Number(count_active(r, states) as i128));
    f.put("cost_usd", Json::Float(r.cost.clone()));
    assert(f@ =~= room_model(*r, states@)->Object_0);
    f.object()
}

/// An agent as the list of rooms shows it where there are no rooms.
pub open spec fn solitary_model(a: ServedAgent, states: Seq<AgentState>) -> JsonModel {
    let state = state_named(states, a.name@);
    JsonModel::Object(
        seq![
            ("name"@, JsonModel::Text(a.name@)),
            ("work_dir"@, JsonModel::Text(a.work_dir@)),
            ("bus_socket"@, JsonModel::Text(a.bus_socket@)),
            (
                "status"@,
                JsonModel::Text(
                    match state {
                        Some(s) => s.status@,
                        None => "unknown"@,
                    },
                ),
            ),
            (
                "agent_count"@,
                JsonModel::Number(
                    match a.config {
                        Ok(c) => c.agents@.len() as int,
                        Err(_) => 0,
                    },
                ),
            ),
            (
                "cost_usd"@,
                JsonModel::Float(
                    match state {
                        Some(s) => s.total_cost@,
                        None => "0.0"@,
                    },
                ),
            ),
        ],
    )
}

fn solitary_json(a: &ServedAgent, states: &Vec<AgentState>) -> (v: Json)
    ensures
        v@ == solitary_model(*a, states@),
{
    let state = find_state(states, &a.name);
    let mut f = Fields::new();
    f.put_text("name", &a.name);
    f.put_text("work_dir", &a.work_dir);
    f.put_text("bus_socket", &a.bus_socket);
    match state {
        Some(s) => {
            f.put_text("status", &s.status);
        },
        None => {
            f.put_text("status", "unknown");
        },
    }
    let count: usize = match &a.config {
        Ok(c) => c.agents.len(),
        Err(_) => 0,
    };
    f.put("agent_count", Json::Number(count as i128));
    match state {
        Some(s) => {
            f.put("cost_usd", Json::Float(s.total_cost.clone()));
        },
        None => {
            f.put("cost_usd", Json::Float(String::from_str("0.0")));
        },
    }
    assert(f@ =~= solitary_model(*a, states@)->Object_0);
    f.object()
}

/// The rooms of a server. Where there are none, each agent is a room.
pub open spec fn room_list_model(state: ServeState, states: Seq<AgentState>) -> JsonModel {
    JsonModel::List(
        if state.rooms@.len() > 0 {
            Seq::new(state.rooms@.len(), |i: int| room_model(state.rooms@[i], states))
        } else {
            Seq::new(state.agents@.len(), |i: int| solitary_model(state.agents@[i], states))
        },
    )
}

/// Whether `r` lists the rooms.
pub open spec fn lists_rooms(
    state: Option<&ServeState>,
    states: Seq<AgentState>,
    r: Result<Json, String>,
) -> bool {
    match state {
        None => r matches Err(e) && e@ == NO_SERVE_STATE@,
        Some(s) => r matches Ok(v) && v@ == room_list_model(*s, states),
    }
}

/// The rooms of a server. `states` are the known states of agents.
pub fn handle_room_list(state: Option<&ServeState>, states: &Vec<AgentState>) -> (r: Result<
    Json,
    String,
>)
    ensures
        lists_rooms(state, states@, r),
{
    let st = match state {
        Some(s) => s,
        None => {
            return Err(String::from_str(NO_SERVE_STATE));
        },
    };
    let ghost expected = room_list_model(*st, states@)->List_0;
    let mut out = Items::new();
    assert(out@ =~= expected.take(0));
    let mut i: usize = 0;
    if st.rooms.len() > 0 {
        while i < st.rooms.len()
            invariant
                i <= st.rooms@.len(),
                expected == Seq::new(
                    st.rooms@.len(),
                    |i: int| room_model(st.rooms@[i], states@),
                ),
                out@ == expected.take(i as int),
            decreases st.rooms@.len() - i,
        {
            out.put(room_json(&st.rooms[i], states));
            assert(expected.take(i + 1) =~= expected.take(i as int).push(expected[i as int]));
            i += 1;
        }
    } else {
        while i < st.agents.len()
            invariant
                i <= st.agents@.len(),
                expected == Seq::new(
                    st.agents@.len(),
                    |i: int| solitary_model(st.agents@[i], states@),
                ),
                out@ == expected.take(i as int),
            decreases st.agents@.len() - i,
        {
            out.put(solitary_json(&st.agents[i], states));
            assert(expected.take(i + 1) =~= expected.take(i as int).push(expected[i as int]));
            i += 1;
        }
    }
    assert(expected.take(i as int) =~= expected);
    Ok(out.list())
}

/// The position of the first room with a name; the number of rooms where there
/// is none.
pub open spec fn room_index(rooms: Seq<Room>, name: Seq<char>) -> nat
    decreases rooms.len(),
{
    if rooms.len() == 0 || rooms[0].name@ == name {
        0
    } else {
        1 + room_index(rooms.skip(1), name)
    }
}

fn find_room<'a>(rooms: &'a Vec<Room>, name: &str) -> (r: Option<&'a Room>)
    ensures
        match r {
            Some(x) => room_index(rooms@, name@) < rooms@.len() && *x == rooms@[room_index(
                rooms@,
                name@,
            ) as int],
            None => room_index(rooms@, name@) >= rooms@.len(),
        },
{
    let mut i: usize = 0;
    assert(rooms@.skip(0) =~= rooms@);
    while i < rooms.len()
        invariant
            i <= rooms@.len(),
            room_index(rooms@, name@) == i + room_index(rooms@.skip(i as int), name@),
        decreases rooms@.len() - i,
    {
        assert(rooms@.skip(i as int)[0] == rooms@[i as int]);
        if same(&rooms[i].name, name) {
            return Some(&rooms[i]);
        }
        assert(rooms@.skip(i as int).skip(1) =~= rooms@.skip(i + 1));
        i += 1;
    }
    None
}

/// The position of the first served agent with a name; the number of agents where
/// there is none.
pub open spec fn served_index(agents: Seq<ServedAgent>, name: Seq<char>) -> nat
    decreases agents.len(),
{
    if agents.len() == 0 || agents[0].name@ == name {
        0
    } else {
        1 + served_index(agents.skip(1), name)
    }
}

/// The first served agent with a name.
pub fn find_served<'a>(agents: &'a Vec<ServedAgent>, name: &str) -> (r: Option<&'a ServedAgent>)
    ensures
        match r {
            Some(x) => served_index(agents@, name@) < agents@.len() && *x == agents@[served_index(
                agents@,
                name@,
            ) as int],
            None => served_index(agents@, name@) >= agents@.len(),
        },
{
    let mut i: usize = 0;
    assert(agents@.skip(0) =~= agents@);
    while i < agents.len()
        invariant
            i <= agents@.len(),
            served_index(agents@, name@) == i + served_index(agents@.skip(i as int), name@),
        decreases agents@.len() - i,
    {
        assert(agents@.skip(i as int)[0] == agents@[i as int]);
        if same(&agents[i].name, name) {
            return Some(&agents[i]);
        }
        assert(agents@.skip(i as int).skip(1) =~= agents@.skip(i + 1));
        i += 1;
    }
    None
}

/// A child of a room.
pub open spec fn child_model(name: Seq<char>, model: Seq<char>, status: Seq<char>) -> JsonModel {
    JsonModel::Object(
        seq![
            ("name"@, JsonModel::Text(name)),
            ("model"@, JsonModel::Text(model)),
            ("status"@, JsonModel::Text(status)),
        ],
    )
}

fn child_json(name: &str, model: &str, status: &str) -> (r: Json)
    ensures
        r@ == child_model(name@, model@, status@),
{
    let mut f = Fields::new();
    f.put_text("name", name);
    f.put_text("model", model);
    f.put_text("status", status);
    assert(f@ =~= child_model(name@, model@, status@)->Object_0);
    f.object()
}

/// An agent of a room, with its model and its status as far as they are known.
pub open spec fn member_model(name: Seq<char>, states: Seq<AgentState>) -> JsonModel {
    match state_named(states, name) {
        Some(s) => child_model(name, s.model@, s.status@),
        None => child_model(name, ""@, "configured"@),
    }
}

/// A sub-agent, with its status as far as it is known.
pub open spec fn sub_agent_model(d: SubAgentDef, states: Seq<AgentState>) -> JsonModel {
    child_model(
        d.name@,
        d.model@,
        match state_named(states, d.name@) {
            Some(s) => s.status@,
            None => "configured"@,
        },
    )
}

/// Whether an outcome gives the children of a room: the agents of the room with
/// that name, or else the sub-agents of the agent with that name.
pub open spec fn children_given(
    r: Result<Json, String>,
    room: Seq<char>,
    state: ServeState,
    states: Seq<AgentState>,
) -> bool {
    let i = room_index(state.rooms@, room) as int;
    let k = served_index(state.agents@, room) as int;
    if i < state.rooms@.len() {
        let names = texts(state.rooms@[i].agents@);
        r matches Ok(v) && v@ == JsonModel::List(
            Seq::new(names.len(), |j: int| member_model(names[j], states)),
        )
    } else if k < state.agents@.len() {
        match state.agents@[k].config {
            Ok(c) => r matches Ok(v) && v@ == JsonModel::List(
                Seq::new(c.agents@.len(), |j: int| sub_agent_model(c.agents@[j], states)),
            ),
            Err(e) => r matches Err(m) && m@ == e@,
        }
    } else {
        r matches Err(m) && m@ == "room '"@ + room + "' not found in serve state"@
    }
}

fn list_members(names: &Vec<String>, states: &Vec<AgentState>) -> (r: Json)
    ensures
        r@ == JsonModel::List(
            Seq::new(texts(names@).len(), |j: int| member_model(texts(names@)[j], states@)),
        ),
{
    let ghost all = texts(names@);
    let ghost expected = Seq::new(all.len(), |j: int| member_model(all[j], states@));
    let mut out = Items::new();
    assert(out@ =~= expected.take(0));
    let mut i: usize = 0;
    while i < names.len()
        invariant
            i <= names@.len(),
            all == texts(names@),
            expected == Seq::new(all.len(), |j: int| member_model(all[j], states@)),
            out@ == expected.take(i as int),
        decreases names@.len() - i,
    {
        assert(all[i as int] == names@[i as int]@);
        let item = match find_state(states, &names[i]) {
            Some(s) => child_json(&names[i], &s.model, &s.status),
            None => child_json(&names[i], "", "configured"),
        };
        out.put(item);
        assert(expected.take(i + 1) =~= expected.take(i as int).push(expected[i as int]));
        i += 1;
    }
    assert(expected.take(i as int) =~= expected);
    out.list()
}

fn list_sub_agents(defs: &Vec<SubAgentDef>, states: &Vec<AgentState>) -> (r: Json)
    ensures
        r@ == JsonModel::List(
            Seq::new(defs@.len(), |j: int| sub_agent_model(defs@[j], states@)),
        ),
{
    let ghost expected = Seq::new(defs@.len(), |j: int| sub_agent_model(defs@[j], states@));
    let mut out = Items::new();
    assert(out@ =~= expected.take(0));
    let mut i: usize = 0;
    while i < defs.len()
        invariant
            i <= defs@.len(),
            expected == Seq::new(defs@.len(), |j: int| sub_agent_model(defs@[j], states@)),
            out@ == expected.take(i as int),
        decreases defs@.len() - i,
    {
        let item = match find_state(states, &defs[i].name) {
            Some(s) => child_json(&defs[i].name, &defs[i].model, &s.status),
            None => child_json(&defs[i].name, &defs[i].model, "configured"),
        };
        out.put(item);
        assert(expected.take(i + 1) =~= expected.take(i as int).push(expected[i as int]));
        i += 1;
    }
    assert(expected.take(i as int) =~= expected);
    out.list()
}

/// The children of a room.
pub fn handle_room_children(
    room: &str,
    state: Option<&ServeState>,
    states: &Vec<AgentState>,
) -> (r: Result<Json, String>)
    ensures
        match state {
            None => r matches Err(e) && e@ == NO_SERVE_STATE@,
            Some(s) => children_given(r, room@, *s, states@),
        },
{
    let st = match state {
        Some(s) => s,
        None => {
            return Err(String::from_str(NO_SERVE_STATE));
        },
    };
    match find_room(&st.rooms, room) {
        Some(x) => {
            return Ok(list_members(&x.agents, states));
        },
        None => {},
    }
    match find_served(&st.agents, room) {
        Some(a) => match &a.config {
            Ok(c) => Ok(list_sub_agents(&c.agents, states)),
            Err(e) => Err(e.clone()),
        },
        None => Err(cat3("room '", room, "' not found in serve state")),
    }
}

/// The configuration of an agent as the list of configurations shows it. A
/// sub-agent has no limit of turns of its own.
pub open spec fn config_model(
    name: Seq<char>,
    model: Seq<char>,
    system_prompt: Seq<char>,
    max_turns: Option<u32>,
) -> JsonModel {
    JsonModel::Object(
        seq![
            ("name"@, JsonModel::Text(name)),
            ("model"@, JsonModel::Text(model)),
            ("system_prompt"@, JsonModel::Text(system_prompt)),
            (
                "max_turns"@,
                match max_turns {
                    Some(n) => JsonModel::Number(n as int),
                    None => JsonModel::Null,
                },
            ),
        ],
    )
}

fn config_json(name: &str, model: &str, system_prompt: &str, max_turns: Option<u32>) -> (r: Json)
    ensures
        r@ == config_model(name@, model@, system_prompt@, max_turns),
{
    let mut f = Fields::new();
    f.put_text("name", name);
    f.put_text("model", model);
    f.put_text("system_prompt", system_prompt);
    match max_turns {
        Some(n) => {
            f.put("max_turns", Json::uint(n as u64));
        },
        None => {
            f.put("max_turns", Json::Null);
        },
    }
    assert(f@ =~= config_model(name@, model@, system_prompt@, max_turns)->Object_0);
    f.object()
}

/// The configuration of an agent and those of its sub-agents. None where the
/// configuration could not be read.
pub open spec fn configs_of(a: ServedAgent) -> Seq<JsonModel> {
    match a.config {
        Ok(c) => seq![config_model(a.name@, c.model@, c.system_prompt@, Some(c.max_turns))]
            + Seq::new(
            c.agents@.len(),
            |j: int|
                config_model(
                    c.agents@[j].name@,
                    c.agents@[j].model@,
                    c.agents@[j].system_prompt@,
                    None,
                ),
        ),
        Err(_) => Seq::empty(),
    }
}

/// The configurations of the first `n` agents.
pub open spec fn configs_among(agents: Seq<ServedAgent>, n: int) -> Seq<JsonModel>
    decreases n,
{
    if n <= 0 {
        Seq::empty()
    } else {
        configs_among(agents, n - 1) + configs_of(agents[n - 1])
    }
}

fn put_configs(out: &mut Items, a: &ServedAgent)
    ensures
        final(out)@ == old(out)@ + configs_of(*a),
{
    let ghost before = out@;
    match &a.config {
        Ok(c) => {
            let ghost subs = Seq::new(
                c.agents@.len(),
                |j: int|
                    config_model(
                        c.agents@[j].name@,
                        c.agents@[j].model@,
                        c.agents@[j].system_prompt@,
                        None,
                    ),
            );
            out.put(config_json(&a.name, &c.model, &c.system_prompt, Some(c.max_turns)));
            let ghost own = config_model(a.name@, c.model@, c.system_prompt@, Some(c.max_turns));
            let mut i: usize = 0;
            assert(out@ =~= before.push(own) + subs.take(0));
            while i < c.agents.len()
                invariant
                    i <= c.agents@.len(),
                    subs == Seq::new(
                        c.agents@.len(),
                        |j: int|
                            config_model(
                                c.agents@[j].name@,
                                c.agents@[j].model@,
                                c.agents@[j].system_prompt@,
                                None,
                            ),
                    ),
                    out@ == before.push(own) + subs.take(i as int),
                decreases c.agents@.len() - i,
            {
                let d = &c.agents[i];
                out.put(config_json(&d.name, &d.model, &d.system_prompt, None));
                assert(out@ =~= before.push(own) + subs.take(i + 1));
                i += 1;
            }
            assert(subs.take(i as int) =~= subs);
            assert(out@ =~= before + (seq![own] + subs));
        },
        Err(_) => {
            assert(out@ =~= before + Seq::<JsonModel>::empty());
        },
    }
}

/// The configurations of all agents that a server runs.
pub fn handle_agent_config_list(state: Option<&ServeState>) -> (r: Result<Json, String>)
    ensures
        match state {
            None => r matches Err(e) && e@ == NO_SERVE_STATE@,
            Some(s) => r matches Ok(v) && v@ == JsonModel::List(
                configs_among(s.agents@, s.agents@.len() as int),
            ),
        },
{
    let st = match state {
        Some(s) => s,
        None => {
            return Err(String::from_str(NO_SERVE_STATE));
        },
    };
    let mut out = Items::new();
    let mut i: usize = 0;
    while i < st.agents.len()
        invariant
            i <= st.agents@.len(),
            out@ == configs_among(st.agents@, i as int),
        decreases st.agents@.len() - i,
    {
        put_configs(&mut out, &st.agents[i]);
        i += 1;
    }
    Ok(out.list())
}

// ─── What the rooms tell ────────────────────────────────────────────────────

/// A room is told with its directory, its context, its agents and its cost.
pub proof fn room_is_told(r: Room, states: Seq<AgentState>)
    ensures
        room_model(r, states).text_field("name"@) == Some(r.name@),
        room_model(r, states).text_field("work_dir"@) == Some(r.work_dir@),
        room_model(r, states).text_field("context"@) == opt_text(r.context),
        room_model(r, states).get("agent_count"@) == Some(JsonModel::Number(r.agents@.len() as int)),
        room_model(r, states).get("active_agents"@) == Some(JsonModel::Number(active_among(texts(r.agents@), states, r.agents@.len() as int) as int)),
        room_model(r, states).get("cost_usd"@) == Some(JsonModel::Float(r.cost@)),
{
    reveal_strlit("name");
    reveal_strlit("work_dir");
    reveal_strlit("context");
    reveal_strlit("agent_count");
    reveal_strlit("active_agents");
    reveal_strlit("cost_usd");
    assert("name"@.len() == 4 && "work_dir"@.len() == 8 && "context"@.len() == 7 && "agent_count"@.len() == 11 && "active_agents"@.len() == 13 && "cost_usd"@.len() == 8);
    assert("work_dir"@[0] != "cost_usd"@[0]);
    let fields = room_model(r, states)->Object_0;
    lookup_steps(fields, "name"@, 0);
    lookup_steps(fields, "work_dir"@, 1);
    lookup_steps(fields, "context"@, 2);
    lookup_steps(fields, "agent_count"@, 3);
    lookup_steps(fields, "active_agents"@, 4);
    lookup_steps(fields, "cost_usd"@, 5);
}

/// A child is told with its name, its model and its status.
pub proof fn child_is_told(name: Seq<char>, model: Seq<char>, status: Seq<char>)
    ensures
        child_model(name, model, status).text_field("name"@) == Some(name),
        child_model(name, model, status).text_field("model"@) == Some(model),
        child_model(name, model, status).text_field("status"@) == Some(status),
{
    reveal_strlit("name");
    reveal_strlit("model");
    reveal_strlit("status");
    assert("name"@.len() == 4 && "model"@.len() == 5 && "status"@.len() == 6);
    let fields = child_model(name, model, status)->Object_0;
    lookup_steps(fields, "name"@, 0);
    lookup_steps(fields, "model"@, 1);
    lookup_steps(fields, "status"@, 2);
}

/// A configured agent is told with its name, its model, its prompt and its turns.
pub proof fn configured_agent_is_told(name: Seq<char>, model: Seq<char>, system_prompt: Seq<char>, max_turns: Option<u32>)
    ensures
        config_model(name, model, system_prompt, max_turns).text_field("name"@) == Some(name),
        config_model(name, model, system_prompt, max_turns).text_field("model"@) == Some(model),
        config_model(name, model, system_prompt, max_turns).text_field("system_prompt"@) == Some(system_prompt),
        config_model(name, model, system_prompt, max_turns).get("max_turns"@) == Some((match max_turns { Some(n) => JsonModel::Number(n as int), None => JsonModel::Null })),
{
    reveal_strlit("name");
    reveal_strlit("model");
    reveal_strlit("system_prompt");
    reveal_strlit("max_turns");
    assert("name"@.len() == 4 && "model"@.len() == 5 && "system_prompt"@.len() == 13 && "max_turns"@.len() == 9);
    let fields = config_model(name, model, system_prompt, max_turns)->Object_0;
    lookup_steps(fields, "name"@, 0);
    lookup_steps(fields, "model"@, 1);
    lookup_steps(fields, "system_prompt"@, 2);
    lookup_steps(fields, "max_turns"@, 3);
}

/// An agent that is a room of its own is told with its directory, its socket and the number of its sub-agents.
pub proof fn agent_that_is_a_room_is_told(a: ServedAgent, states: Seq<AgentState>)
    ensures
        solitary_model(a, states).text_field("name"@) == Some(a.name@),
        solitary_model(a, states).text_field("work_dir"@) == Some(a.work_dir@),
        solitary_model(a, states).text_field("bus_socket"@) == Some(a.bus_socket@),
        solitary_model(a, states).text_field("status"@) == Some((match state_named(states, a.name@) { Some(s) => s.status@, None => "unknown"@ })),
        solitary_model(a, states).get("agent_count"@) == Some(JsonModel::Number(match a.config { Ok(c) => c.agents@.len() as int, Err(_) => 0 })),
        solitary_model(a, states).get("cost_usd"@) == Some(JsonModel::Float(match state_named(states, a.name@) { Some(s) => s.total_cost@, None => "0.0"@ })),
{
    reveal_strlit("name");
    reveal_strlit("work_dir");
    reveal_strlit("bus_socket");
    reveal_strlit("status");
    reveal_strlit("agent_count");
    reveal_strlit("cost_usd");
    assert("name"@.len() == 4 && "work_dir"@.len() == 8 && "bus_socket"@.len() == 10 && "status"@.len() == 6 && "agent_count"@.len() == 11 && "cost_usd"@.len() == 8);
    assert("work_dir"@[0] != "cost_usd"@[0]);
    let fields = solitary_model(a, states)->Object_0;
    lookup_steps(fields, "name"@, 0);
    lookup_steps(fields, "work_dir"@, 1);
    lookup_steps(fields, "bus_socket"@, 2);
    lookup_steps(fields, "status"@, 3);
    lookup_steps(fields, "agent_count"@, 4);
    lookup_steps(fields, "cost_usd"@, 5);
}

/// An agent counts as active where it works or waits for work; so many are counted as there
/// are such agents.
pub proof fn active_agents_are_counted(names: Seq<Seq<char>>, states: Seq<AgentState>, n: int)
    requires
        0 <= n < names.len(),
    ensures
        active_among(names, states, 0) == 0,
        active_among(names, states, n + 1) == active_among(names, states, n) + (if (state_named(
            states,
            names[n],
        ) matches Some(s) && (s.status@ == "active"@ || s.status@ == "idle"@)) {
            1nat
        } else {
            0
        }),
{
}

/// Rooms that are set up are listed, in order; without any, each agent is a room. Without a
/// running server there is no list.
pub proof fn rooms_are_listed_in_order(
    state: Option<&ServeState>,
    states: Seq<AgentState>,
    r: Result<Json, String>,
    i: int,
)
    requires
        lists_rooms(state, states, r),
    ensures
        r is Ok <==> state is Some,
        (state matches Some(s) && s.rooms@.len() > 0) ==> (r->Ok_0@.as_list() matches Some(items)
            && items.len() == state->0.rooms@.len() && (0 <= i < items.len() ==> items[i].text_field(
            "name"@,
        ) == Some(state->0.rooms@[i].name@))),
        (state matches Some(s) && s.rooms@.len() == 0) ==> (r->Ok_0@.as_list() matches Some(items)
            && items.len() == state->0.agents@.len() && (0 <= i < items.len()
            ==> items[i].text_field("name"@) == Some(state->0.agents@[i].name@))),
{
    if let Some(s) = state {
        if s.rooms@.len() > 0 {
            if 0 <= i < s.rooms@.len() {
                room_is_told(s.rooms@[i], states);
            }
        } else if 0 <= i < s.agents@.len() {
            agent_that_is_a_room_is_told(s.agents@[i], states);
        }
    }
}

/// The children of a room that is set up are its agents, in order, each with its status
/// where it is known.
pub proof fn children_of_a_room_are_its_agents(
    r: Result<Json, String>,
    room: Seq<char>,
    state: ServeState,
    states: Seq<AgentState>,
    i: int,
    j: int,
)
    requires
        children_given(r, room, state, states),
        0 <= i < state.rooms@.len(),
        state.rooms@[i].name@ == room,
        forall|k: int| 0 <= k < i ==> (#[trigger] state.rooms@[k]).name@ != room,
        0 <= j < state.rooms@[i].agents@.len(),
    ensures
        r matches Ok(v) && (v@.as_list() matches Some(items) && items.len()
            == state.rooms@[i].agents@.len() && items[j].text_field("name"@) == Some(
            state.rooms@[i].agents@[j]@,
        ) && items[j].text_field("status"@) == Some(
            match state_named(states, state.rooms@[i].agents@[j]@) {
                Some(s) => s.status@,
                None => "configured"@,
            },
        )),
{
    room_index_is(state.rooms@, room, i);
    let name = state.rooms@[i].agents@[j]@;
    match state_named(states, name) {
        Some(s) => {
            child_is_told(name, s.model@, s.status@);
        },
        None => {
            child_is_told(name, ""@, "configured"@);
        },
    }
}

proof fn room_index_is(rooms: Seq<Room>, name: Seq<char>, i: int)
    requires
        0 <= i < rooms.len(),
        rooms[i].name@ == name,
        forall|k: int| 0 <= k < i ==> (#[trigger] rooms[k]).name@ != name,
    ensures
        room_index(rooms, name) == i,
    decreases i,
{
    if i > 0 {
        let rest = rooms.skip(1);
        assert(rest[i - 1] == rooms[i]);
        assert forall|k: int| 0 <= k < i - 1 implies (#[trigger] rest[k]).name@ != name by {
            assert(rest[k] == rooms[k + 1]);
        }
        room_index_is(rest, name, i - 1);
    }
}

/// A served agent is found by its name, the first of that name, and where there is none it
/// is not found.
pub proof fn served_agents_are_found_by_name(agents: Seq<ServedAgent>, name: Seq<char>)
    ensures
        ({
            let i = served_index(agents, name) as int;
            &&& i <= agents.len()
            &&& i < agents.len() ==> agents[i].name@ == name
            &&& forall|j: int| 0 <= j < i ==> (#[trigger] agents[j]).name@ != name
        }),
    decreases agents.len(),
{
    if agents.len() > 0 && agents[0].name@ != name {
        let rest = agents.skip(1);
        served_agents_are_found_by_name(rest, name);
        assert forall|j: int| 0 <= j < served_index(agents, name) implies (
        #[trigger] agents[j]).name@ != name by {
            if j > 0 {
                assert(rest[j - 1] == agents[j]);
            }
        }
    }
}

/// The configurations of an agent are its own, with its limit, and then those of its
/// sub-agents, in their order; an agent whose configuration cannot be read has none.
pub proof fn configurations_are_those_of_the_agent(a: ServedAgent)
    ensures
        a.config is Err ==> configs_of(a).len() == 0,
        a.config matches Ok(c) ==> configs_of(a).len() == 1 + c.agents@.len() && configs_of(
            a,
        )[0].text_field("name"@) == Some(a.name@) && configs_of(a)[0].text_field("model"@) == Some(
            c.model@,
        ) && forall|j: int|
            0 <= j < c.agents@.len() ==> (#[trigger] configs_of(a)[1 + j]).text_field("name"@)
                == Some(c.agents@[j].name@) && configs_of(a)[1 + j].text_field("model"@) == Some(
                c.agents@[j].model@,
            ),
{
    if let Ok(c) = a.config {
        configured_agent_is_told(a.name@, c.model@, c.system_prompt@, Some(c.max_turns));
        assert forall|j: int| 0 <= j < c.agents@.len() implies (#[trigger] configs_of(
            a,
        )[1 + j]).text_field("name"@) == Some(c.agents@[j].name@) && configs_of(
            a,
        )[1 + j].text_field("model"@) == Some(c.agents@[j].model@) by {
            configured_agent_is_told(
                c.agents@[j].name@,
                c.agents@[j].model@,
                c.agents@[j].system_prompt@,
                None,
            );
        }
    }
}

} // verus!
