//! The A2A server: authentication, the registry of tasks, and the JSON-RPC
//! methods.
use crate::ids::{is_uuid, new_id};
use crate::json::{key_texts, listed_record, opt_json, record, Fields, Json, JsonModel};
use crate::json_text::{parse, parsed_json};
use crate::jsonrpc::optional_value;
use crate::mcp_protocol::{err_reply, ok_reply, reply_tells_its_outcome, ReplyModel, Response};
use crate::text::{
    both_parts_occur, cat, cat3, contains_spec, index_of_is, opt_str, opt_text, part_occurs,
    same, split_once, split_once_spec, strip_prefix, strip_prefix_spec,
};
use crate::message::lookup_steps;
use vstd::prelude::*;
use vstd::string::*;

verus! {

/// The number of tasks that a registry holds by default.
pub const DEFAULT_TASK_REGISTRY_CAPACITY: usize = 1024;

// ─── The registry ───────────────────────────────────────────────────────────

/// A task that the server accepted.
#[derive(Debug, Clone, PartialEq)]
pub struct A2aTaskRecord {
    pub task_id: String,
    pub skill: String,
    pub agent: String,
    pub status: String,
    pub created_at: String,
    pub updated_at: String,
}

/// The contents of a task.
pub struct RecordModel {
    pub task_id: Seq<char>,
    pub skill: Seq<char>,
    pub agent: Seq<char>,
    pub status: Seq<char>,
    pub created_at: Seq<char>,
    pub updated_at: Seq<char>,
}

impl View for A2aTaskRecord {
    type V = RecordModel;

    open spec fn view(&self) -> RecordModel {
        RecordModel {
            task_id: self.task_id@,
            skill: self.skill@,
            agent: self.agent@,
            status: self.status@,
            created_at: self.created_at@,
            updated_at: self.updated_at@,
        }
    }
}

/// The JSON form of a task.
pub open spec fn record_model(r: RecordModel) -> JsonModel {
    JsonModel::Object(
        seq![
            ("task_id"@, JsonModel::Text(r.task_id)),
            ("skill"@, JsonModel::Text(r.skill)),
            ("agent"@, JsonModel::Text(r.agent)),
            ("status"@, JsonModel::Text(r.status)),
            ("created_at"@, JsonModel::Text(r.created_at)),
            ("updated_at"@, JsonModel::Text(r.updated_at)),
        ],
    )
}

impl A2aTaskRecord {
    /// A copy of the task.
    pub fn copy(&self) -> (r: A2aTaskRecord)
        ensures
            r@ == self@,
    {
        A2aTaskRecord {
            task_id: self.task_id.clone(),
            skill: self.skill.clone(),
            agent: self.agent.clone(),
            status: self.status.clone(),
            created_at: self.created_at.clone(),
            updated_at: self.updated_at.clone(),
        }
    }

    /// The JSON form of the task.
    pub fn to_json(&self) -> (r: Json)
        ensures
            r@ == record_model(self@),
    {
        let mut f = Fields::new();
        f.put_text("task_id", &self.task_id);
        f.put_text("skill", &self.skill);
        f.put_text("agent", &self.agent);
        f.put_text("status", &self.status);
        f.put_text("created_at", &self.created_at);
        f.put_text("updated_at", &self.updated_at);
        assert(f@ =~= record_model(self@)->Object_0);
        f.object()
    }
}

spec fn record_views(v: Seq<A2aTaskRecord>) -> Seq<RecordModel> {
    Seq::new(v.len(), |i: int| v[i]@)
}

/// Whether no two tasks have the same identifier.
pub open spec fn ids_differ(v: Seq<RecordModel>) -> bool {
    forall|i: int, j: int|
        0 <= i < j < v.len() ==> (#[trigger] v[i]).task_id != (#[trigger] v[j]).task_id
}

/// The position of the task with an identifier; the number of tasks where there
/// is none.
pub open spec fn task_index(v: Seq<RecordModel>, id: Seq<char>) -> nat
    decreases v.len(),
{
    if v.len() == 0 || v[0].task_id == id {
        0
    } else {
        1 + task_index(v.skip(1), id)
    }
}

/// The task with an identifier.
pub open spec fn task_with(v: Seq<RecordModel>, id: Seq<char>) -> Option<RecordModel> {
    let i = task_index(v, id) as int;
    if i < v.len() {
        Some(v[i])
    } else {
        None
    }
}

/// The tasks, oldest first, with a new one: where there is no room the oldest
/// gives way, and a task with the same identifier is replaced.
pub open spec fn with_task(v: Seq<RecordModel>, capacity: nat, r: RecordModel) -> Seq<RecordModel> {
    let kept = if v.len() >= capacity {
        v.skip(1)
    } else {
        v
    };
    let i = task_index(kept, r.task_id) as int;
    if i < kept.len() {
        kept.update(i, r)
    } else {
        kept.push(r)
    }
}

pub proof fn task_index_bounds(v: Seq<RecordModel>, id: Seq<char>)
    ensures
        task_index(v, id) <= v.len(),
        forall|j: int| 0 <= j < task_index(v, id) ==> (#[trigger] v[j]).task_id != id,
        task_index(v, id) < v.len() ==> v[task_index(v, id) as int].task_id == id,
    decreases v.len(),
{
    if v.len() > 0 && v[0].task_id != id {
        let t = v.skip(1);
        task_index_bounds(t, id);
        assert forall|j: int| 0 <= j < task_index(v, id) implies (#[trigger] v[j]).task_id
            != id by {
            if j > 0 {
                assert(t[j - 1] == v[j]);
            }
        }
        if task_index(v, id) < v.len() {
            assert(t[task_index(t, id) as int] == v[task_index(v, id) as int]);
        }
    }
}

pub proof fn task_index_is(v: Seq<RecordModel>, id: Seq<char>, i: int)
    requires
        0 <= i <= v.len(),
        forall|j: int| 0 <= j < i ==> (#[trigger] v[j]).task_id != id,
        i == v.len() || v[i].task_id == id,
    ensures
        task_index(v, id) == i,
    decreases v.len(),
{
    if v.len() > 0 && i > 0 {
        assert(v[0].task_id != id);
        let t = v.skip(1);
        assert forall|j: int| 0 <= j < i - 1 implies (#[trigger] t[j]).task_id != id by {
            assert(t[j] == v[j + 1]);
        }
        task_index_is(t, id, i - 1);
    }
}

proof fn with_task_keeps_ids_apart(v: Seq<RecordModel>, capacity: nat, r: RecordModel)
    requires
        capacity > 0,
        ids_differ(v),
    ensures
        ids_differ(with_task(v, capacity, r)),
{
    let kept = if v.len() >= capacity {
        v.skip(1)
    } else {
        v
    };
    assert forall|i: int, j: int| 0 <= i < j < kept.len() implies (#[trigger] kept[i]).task_id != (
    #[trigger] kept[j]).task_id by {
        if v.len() >= capacity {
            assert(kept[i] == v[i + 1] && kept[j] == v[j + 1]);
        }
    }
    task_index_bounds(kept, r.task_id);
    let k = task_index(kept, r.task_id) as int;
    let after = with_task(v, capacity, r);
    assert forall|i: int, j: int| 0 <= i < j < after.len() implies (#[trigger] after[i]).task_id
        != (#[trigger] after[j]).task_id by {
        if k < kept.len() {
            if i != k {
                assert(after[i] == kept[i]);
            }
            if j != k {
                assert(after[j] == kept[j]);
            }
            assert(kept[k].task_id == r.task_id);
        } else {
            assert(after[i] == kept[i]);
            if j < kept.len() {
                assert(after[j] == kept[j]);
            }
        }
    }
}

/// A bounded registry of the last tasks.
pub struct A2aTaskRegistry {
    tasks: Vec<A2aTaskRecord>,
    capacity: usize,
}

/// The contents of a registry: the tasks, oldest first, and the most that it
/// holds.
pub struct RegistryModel {
    pub tasks: Seq<RecordModel>,
    pub capacity: nat,
}

impl View for A2aTaskRegistry {
    type V = RegistryModel;

    closed spec fn view(&self) -> RegistryModel {
        RegistryModel { tasks: record_views(self.tasks@), capacity: self.capacity as nat }
    }
}

impl RegistryModel {
    /// Whether the registry holds at most what it may, and no identifier twice.
    pub open spec fn wf(self) -> bool {
        &&& self.capacity > 0
        &&& self.tasks.len() <= self.capacity
        &&& ids_differ(self.tasks)
    }
}

impl A2aTaskRegistry {
    #[verifier::type_invariant]
    spec fn inv(self) -> bool {
        self@.wf()
    }

    /// An empty registry for at most `capacity` tasks, and for one at least.
    pub fn new(capacity: usize) -> (r: A2aTaskRegistry)
        ensures
            r@.tasks == Seq::<RecordModel>::empty(),
            r@.capacity == if capacity == 0 {
                1
            } else {
                capacity as nat
            },
    {
        let tasks: Vec<A2aTaskRecord> = Vec::new();
        assert(record_views(tasks@) =~= Seq::<RecordModel>::empty());
        A2aTaskRegistry {
            tasks,
            capacity: if capacity == 0 {
                1
            } else {
                capacity
            },
        }
    }

    fn position(&self, task_id: &str) -> (r: Option<usize>)
        ensures
            match r {
                Some(i) => i < self.tasks@.len() && task_index(self@.tasks, task_id@) == i
                    && self.tasks@[i as int].task_id@ == task_id@,
                None => task_index(self@.tasks, task_id@) == self.tasks@.len(),
            },
    {
        let ghost all = record_views(self.tasks@);
        let mut i: usize = 0;
        while i < self.tasks.len()
            invariant
                i <= self.tasks@.len(),
                all == record_views(self.tasks@),
                forall|j: int| 0 <= j < i ==> (#[trigger] all[j]).task_id != task_id@,
            decreases self.tasks@.len() - i,
        {
            assert(all[i as int] == self.tasks@[i as int]@);
            if same(&self.tasks[i].task_id, task_id) {
                proof {
                    task_index_is(all, task_id@, i as int);
                }
                return Some(i);
            }
            i += 1;
        }
        proof {
            task_index_is(all, task_id@, i as int);
        }
        None
    }

    fn take(&mut self) -> (r: Vec<A2aTaskRecord>)
        ensures
            record_views(r@) == old(self)@.tasks,
            final(self)@.capacity == old(self)@.capacity,
    {
        let mut other = A2aTaskRegistry::new(self.capacity);
        proof {
            use_type_invariant(&*self);
        }
        std::mem::swap(self, &mut other);
        other.tasks
    }

    /// Adds a task. Where there is no room, the oldest task gives way.
    pub fn insert(&mut self, record: A2aTaskRecord)
        ensures
            final(self)@ == (RegistryModel {
                tasks: with_task(old(self)@.tasks, old(self)@.capacity, record@),
                capacity: old(self)@.capacity,
            }),
    {
        proof {
            use_type_invariant(&*self);
        }
        let ghost before = self@;
        let capacity: usize = self.capacity;
        let mut tasks = self.take();
        if tasks.len() >= capacity {
            tasks.remove(0);
            assert(record_views(tasks@) =~= before.tasks.skip(1));
        }
        let ghost kept = record_views(tasks@);
        let mut i: usize = 0;
        while i < tasks.len() && !same(&tasks[i].task_id, &record.task_id)
            invariant
                i <= tasks@.len(),
                kept == record_views(tasks@),
                forall|j: int| 0 <= j < i ==> (#[trigger] kept[j]).task_id != record@.task_id,
            decreases tasks@.len() - i,
        {
            assert(kept[i as int] == tasks@[i as int]@);
            i += 1;
        }
        proof {
            if i < kept.len() {
                assert(kept[i as int] == tasks@[i as int]@);
            }
            task_index_is(kept, record@.task_id, i as int);
            with_task_keeps_ids_apart(before.tasks, before.capacity, record@);
        }
        if i < tasks.len() {
            tasks[i] = record;
            assert(record_views(tasks@) =~= kept.update(i as int, record@));
        } else {
            tasks.push(record);
            assert(record_views(tasks@) =~= kept.push(record@));
        }
        *self = A2aTaskRegistry { tasks, capacity };
    }

    /// The task with an identifier.
    pub fn get(&self, task_id: &str) -> (r: Option<A2aTaskRecord>)
        ensures
            match r {
                Some(t) => task_with(self@.tasks, task_id@) == Some(t@),
                None => task_with(self@.tasks, task_id@) is None,
            },
    {
        match self.position(task_id) {
            Some(i) => Some(self.tasks[i].copy()),
            None => None,
        }
    }

    /// Gives a task a new status at a time. Returns the task, where it is known.
    pub fn set_status(&mut self, task_id: &str, status: &str, now: &str) -> (r: Option<
        A2aTaskRecord,
    >)
        ensures
            final(self)@ == (RegistryModel {
                tasks: with_status(old(self)@.tasks, task_id@, status@, now@),
                capacity: old(self)@.capacity,
            }),
            match r {
                Some(t) => task_with(final(self)@.tasks, task_id@) == Some(t@),
                None => task_with(old(self)@.tasks, task_id@) is None,
            },
            r is Some == task_with(old(self)@.tasks, task_id@) is Some,
    {
        proof {
            use_type_invariant(&*self);
        }
        let i: usize = match self.position(task_id) {
            Some(i) => i,
            None => {
                return None;
            },
        };
        let ghost before = self@;
        let capacity: usize = self.capacity;
        let mut tasks = self.take();
        let updated = A2aTaskRecord {
            task_id: tasks[i].task_id.clone(),
            skill: tasks[i].skill.clone(),
            agent: tasks[i].agent.clone(),
            status: String::from_str(status),
            created_at: tasks[i].created_at.clone(),
            updated_at: String::from_str(now),
        };
        let result = updated.copy();
        assert(tasks@[i as int]@ == before.tasks[i as int]);
        tasks[i] = updated;
        proof {
            let after = record_views(tasks@);
            assert(after =~= with_status(before.tasks, task_id@, status@, now@));
            task_index_bounds(before.tasks, task_id@);
            assert(ids_differ(after)) by {
                assert forall|a: int, b: int| 0 <= a < b < after.len() implies (
                #[trigger] after[a]).task_id != (#[trigger] after[b]).task_id by {
                    assert(after[a].task_id == before.tasks[a].task_id);
                    assert(after[b].task_id == before.tasks[b].task_id);
                }
            }
            assert forall|j: int| 0 <= j < i implies (#[trigger] after[j]).task_id != task_id@ by {
                assert(after[j] == before.tasks[j]);
            }
            task_index_is(after, task_id@, i as int);
        }
        *self = A2aTaskRegistry { tasks, capacity };
        Some(result)
    }
}

impl Default for A2aTaskRegistry {
    /// An empty registry of the default capacity.
    fn default() -> (r: A2aTaskRegistry)
        ensures
            r@.tasks == Seq::<RecordModel>::empty(),
            r@.capacity == DEFAULT_TASK_REGISTRY_CAPACITY,
    {
        A2aTaskRegistry::new(DEFAULT_TASK_REGISTRY_CAPACITY)
    }
}

/// The tasks with a new status for one of them.
pub open spec fn with_status(
    v: Seq<RecordModel>,
    id: Seq<char>,
    status: Seq<char>,
    now: Seq<char>,
) -> Seq<RecordModel> {
    let i = task_index(v, id) as int;
    if i < v.len() {
        v.update(i, RecordModel { status, updated_at: now, ..v[i] })
    } else {
        v
    }
}

/// A registry never holds more than it may.
pub proof fn registry_stays_bounded(v: Seq<RecordModel>, capacity: nat, r: RecordModel)
    requires
        v.len() <= capacity,
        capacity > 0,
    ensures
        with_task(v, capacity, r).len() <= capacity,
{
}

/// A task that was added can be looked up.
pub proof fn added_task_is_found(v: Seq<RecordModel>, capacity: nat, r: RecordModel)
    ensures
        task_with(with_task(v, capacity, r), r.task_id) == Some(r),
{
    let kept = if v.len() >= capacity {
        v.skip(1)
    } else {
        v
    };
    let after = with_task(v, capacity, r);
    task_index_bounds(kept, r.task_id);
    let k = task_index(kept, r.task_id) as int;
    assert forall|j: int| 0 <= j < k implies (#[trigger] after[j]).task_id != r.task_id by {
        assert(after[j] == kept[j]);
    }
    task_index_is(after, r.task_id, k);
}

/// To add a task makes at most the oldest one go: every other task is still
/// there.
pub proof fn only_the_oldest_task_goes(
    v: Seq<RecordModel>,
    capacity: nat,
    r: RecordModel,
    i: int,
)
    requires
        0 < i < v.len(),
        v[i].task_id != r.task_id,
    ensures
        with_task(v, capacity, r).contains(v[i]),
{
    let kept = if v.len() >= capacity {
        v.skip(1)
    } else {
        v
    };
    let after = with_task(v, capacity, r);
    task_index_bounds(kept, r.task_id);
    let k = if v.len() >= capacity {
        i - 1
    } else {
        i
    };
    assert(kept[k] == v[i]);
    assert(after[k] == v[i]);
}

// ─── Authentication ─────────────────────────────────────────────────────────

/// The authentication of a server.
#[derive(Debug, Clone, PartialEq)]
pub struct A2aAuth {
    /// `none`, `jwt`, or else by key.
    pub auth_mode: String,
    pub api_key: Option<String>,
    /// The number of keys that a token may be signed with.
    pub trusted_keys: usize,
}

/// The token of an authorization header.
pub open spec fn bearer(header: Option<Seq<char>>) -> Option<Seq<char>> {
    match header {
        Some(h) => strip_prefix_spec(h, "Bearer "@),
        None => None,
    }
}

/// The token of an authorization header.
pub fn bearer_token<'a>(authorization: Option<&'a str>) -> (r: Option<&'a str>)
    ensures
        opt_str(r) == bearer(opt_str(authorization)),
{
    match authorization {
        Some(h) => strip_prefix(h, "Bearer "),
        None => None,
    }
}

/// Why a request is refused. `verified` says whether its token is signed with a
/// trusted key.
pub open spec fn auth_error(
    auth: A2aAuth,
    api_key: Option<Seq<char>>,
    authorization: Option<Seq<char>>,
    verified: bool,
) -> Option<Seq<char>> {
    if auth.auth_mode@ == "none"@ {
        None
    } else if auth.auth_mode@ == "jwt"@ {
        if auth.trusted_keys == 0 {
            Some("server misconfigured: no trusted keys for JWT verification"@)
        } else if bearer(authorization) is None {
            Some("unauthorized: missing Bearer token"@)
        } else if verified {
            None
        } else {
            Some("unauthorized: JWT signature does not match any trusted key"@)
        }
    } else {
        match auth.api_key {
            Some(expected) => if api_key == Some(expected@) {
                None
            } else {
                Some("unauthorized: invalid or missing API key"@)
            },
            None => None,
        }
    }
}

/// Why a request is refused.
pub fn check_auth(
    auth: &A2aAuth,
    api_key: Option<&str>,
    authorization: Option<&str>,
    verified: bool,
) -> (r: Option<String>)
    ensures
        opt_text(r) == auth_error(*auth, opt_str(api_key), opt_str(authorization), verified),
{
    if same(&auth.auth_mode, "none") {
        return None;
    }
    if same(&auth.auth_mode, "jwt") {
        if auth.trusted_keys == 0 {
            return Some(
                String::from_str("server misconfigured: no trusted keys for JWT verification"),
            );
        }
        if bearer_token(authorization).is_none() {
            return Some(String::from_str("unauthorized: missing Bearer token"));
        }
        if verified {
            return None;
        }
        return Some(
            String::from_str("unauthorized: JWT signature does not match any trusted key"),
        );
    }
    match &auth.api_key {
        Some(expected) => {
            let good: bool = match api_key {
                Some(k) => same(k, expected),
                None => false,
            };
            if good {
                None
            } else {
                Some(String::from_str("unauthorized: invalid or missing API key"))
            }
        },
        None => None,
    }
}

// ─── Methods ────────────────────────────────────────────────────────────────

/// A JSON-RPC request.
#[derive(Debug, PartialEq)]
pub struct JsonRpcRequest {
    pub id: Option<Json>,
    pub method: String,
    /// The parameters, or null.
    pub params: Json,
}

/// The contents of a JSON-RPC request.
pub struct RpcModel {
    pub id: Option<JsonModel>,
    pub method: Seq<char>,
    pub params: JsonModel,
}

impl View for JsonRpcRequest {
    type V = RpcModel;

    open spec fn view(&self) -> RpcModel {
        RpcModel { id: opt_json(self.id), method: self.method@, params: self.params@ }
    }
}

/// The keys of a request, in order. The parameters may be left out of a list.
pub open spec fn rpc_keys() -> Seq<Seq<char>> {
    seq!["jsonrpc"@, "id"@, "method"@, "params"@]
}

/// The request that a JSON value describes.
pub open spec fn rpc_of(j: JsonModel) -> Option<RpcModel> {
    let j = record(j, rpc_keys(), 3);
    match (j.text_field("jsonrpc"@), j.text_field("method"@)) {
        (Some(_), Some(method)) => Some(
            RpcModel { id: optional_value(j, "id"@), method, params: j.at("params"@) },
        ),
        _ => None,
    }
}

/// The request that a text denotes.
pub open spec fn rpc_at(text: Seq<char>) -> Option<RpcModel> {
    match parsed_json(text) {
        Some(j) => rpc_of(j),
        None => None,
    }
}

impl JsonRpcRequest {
    /// The request that a JSON value describes.
    pub fn from_json(j: &Json) -> (r: Option<JsonRpcRequest>)
        ensures
            match r {
                Some(q) => rpc_of(j@) == Some(q@),
                None => rpc_of(j@) is None,
            },
    {
        let keys: Vec<&'static str> = vec!["jsonrpc", "id", "method", "params"];
        assert(key_texts(keys@) =~= rpc_keys());
        let named = listed_record(j, &keys, 3);
        let j = match &named {
            Some(o) => o,
            None => j,
        };
        match (j.text_field("jsonrpc"), j.text_field("method")) {
            (Some(_), Some(method)) => Some(
                JsonRpcRequest {
                    id: match j.get("id") {
                        None => None,
                        Some(v) => match v {
                            Json::Null => None,
                            _ => Some(v.copy()),
                        },
                    },
                    method: String::from_str(method),
                    params: match j.get("params") {
                        Some(p) => p.copy(),
                        None => Json::Null,
                    },
                },
            ),
            _ => None,
        }
    }

    /// The request that a text denotes.
    pub fn parse(text: &str) -> (r: Option<JsonRpcRequest>)
        ensures
            match r {
                Some(q) => rpc_at(text@) == Some(q@),
                None => rpc_at(text@) is None,
            },
    {
        match parse(text) {
            Some(j) => JsonRpcRequest::from_json(&j),
            None => None,
        }
    }
}

/// A task to hand to an agent.
#[derive(Debug, PartialEq)]
pub struct TaskRoute {
    pub target: String,
    pub message: String,
    pub skill: String,
    pub agent: String,
}

/// What to do with a request.
#[derive(Debug)]
pub enum RpcStep {
    /// Refuse it as unauthorized with this response.
    Unauthorized(Response),
    /// Answer it with this response.
    Reply(Response),
    /// Hand the task to the agent, and answer with what became of it.
    Route(TaskRoute),
}

/// The text of a parameter, or the empty text.
pub open spec fn param_text(params: JsonModel, key: Seq<char>) -> Seq<char> {
    match params.text_field(key) {
        Some(t) => t,
        None => Seq::empty(),
    }
}

fn read_param<'a>(params: &'a Json, key: &str) -> (r: &'a str)
    ensures
        r@ == param_text(params@, key@),
{
    match params.text_field(key) {
        Some(t) => t,
        None => {
            proof {
                reveal_strlit("");
                assert(""@ =~= Seq::<char>::empty());
            }
            ""
        },
    }
}

/// The agent of a skill: what stands before the first `/`.
pub open spec fn skill_agent(skill: Seq<char>) -> Seq<char> {
    match split_once_spec(skill, '/') {
        Some((agent, _)) => agent,
        None => skill,
    }
}

/// The complaint about the parameters of `tasks/send`.
pub open spec fn send_params_error(params: JsonModel) -> Option<Seq<char>> {
    let skill = param_text(params, "skill"@);
    let message = param_text(params, "message"@);
    if skill.len() == 0 || message.len() == 0 {
        Some("missing required params: skill, message"@)
    } else if skill_agent(skill).len() == 0 {
        Some("invalid skill id format: "@ + skill + " (expected agent/skill)"@)
    } else {
        None
    }
}

/// Whether a route is the one that the parameters of `tasks/send` ask for.
pub open spec fn routes(t: TaskRoute, params: JsonModel) -> bool {
    &&& t.skill@ == param_text(params, "skill"@)
    &&& t.message@ == param_text(params, "message"@)
    &&& t.agent@ == skill_agent(t.skill@)
    &&& t.target@ == "agent:"@ + t.agent@
}

/// How a task gets to its agent, or the response that says why it does not.
pub fn handle_tasks_send(id: Option<Json>, params: &Json) -> (r: Result<TaskRoute, Response>)
    ensures
        match send_params_error(params@) {
            Some(e) => r matches Err(a) && a@ == err_reply(opt_json(id), -32602, e),
            None => r matches Ok(t) && routes(t, params@),
        },
{
    let skill = read_param(params, "skill");
    let message = read_param(params, "message");
    if skill.is_empty() || message.is_empty() {
        return Err(Response::err(id, -32602, "missing required params: skill, message"));
    }
    let agent = match split_once(skill, '/') {
        Some((agent, _)) => agent,
        None => skill,
    };
    if agent.is_empty() {
        return Err(
            Response::err(
                id,
                -32602,
                &cat3("invalid skill id format: ", skill, " (expected agent/skill)"),
            ),
        );
    }
    Ok(
        TaskRoute {
            target: cat("agent:", agent),
            message: String::from_str(message),
            skill: String::from_str(skill),
            agent: String::from_str(agent),
        },
    )
}

/// The result of a task that was handed to its agent.
pub open spec fn working_model(id: Seq<char>, t: TaskRoute) -> JsonModel {
    JsonModel::Object(
        seq![
            ("taskId"@, JsonModel::Text(id)),
            ("status"@, JsonModel::Text("working"@)),
            ("skill"@, JsonModel::Text(t.skill@)),
            ("agent"@, JsonModel::Text(t.agent@)),
        ],
    )
}

/// The record of a task that was handed to its agent.
pub open spec fn working_record(id: Seq<char>, t: TaskRoute, now: Seq<char>) -> RecordModel {
    RecordModel {
        task_id: id,
        skill: t.skill@,
        agent: t.agent@,
        status: "working"@,
        created_at: now,
        updated_at: now,
    }
}

/// The response to `tasks/send` after the attempt to hand the task to its agent
/// at a time. A task that was handed over is registered, under the given id.
pub fn register_task(
    id: Option<Json>,
    task_id: &str,
    route: &TaskRoute,
    outcome: &Result<(), String>,
    now: &str,
    tasks: &mut A2aTaskRegistry,
) -> (r: Response)
    ensures
        match *outcome {
            Ok(_) => {
                &&& r@ == ok_reply(opt_json(id), working_model(task_id@, *route))
                &&& final(tasks)@ == (RegistryModel {
                    tasks: with_task(
                        old(tasks)@.tasks,
                        old(tasks)@.capacity,
                        working_record(task_id@, *route, now@),
                    ),
                    capacity: old(tasks)@.capacity,
                })
            },
            Err(e) => {
                &&& r@ == err_reply(
                    opt_json(id),
                    -32000,
                    "failed to route task to agent: "@ + e@,
                )
                &&& final(tasks)@ == old(tasks)@
            },
        },
{
    match outcome {
        Ok(_) => {
            tasks.insert(
                A2aTaskRecord {
                    task_id: String::from_str(task_id),
                    skill: route.skill.clone(),
                    agent: route.agent.clone(),
                    status: String::from_str("working"),
                    created_at: String::from_str(now),
                    updated_at: String::from_str(now),
                },
            );
            let mut f = Fields::new();
            f.put_text("taskId", task_id);
            f.put_text("status", "working");
            f.put_text("skill", &route.skill);
            f.put_text("agent", &route.agent);
            assert(f@ =~= working_model(task_id@, *route)->Object_0);
            Response::ok(id, f.object())
        },
        Err(e) => Response::err(id, -32000, &cat("failed to route task to agent: ", e)),
    }
}

/// Whether `r` answers a request to send a task, and `after` is the registry then.
pub open spec fn task_is_sent(
    id: Option<JsonModel>,
    route: TaskRoute,
    outcome: Result<(), String>,
    now: Seq<char>,
    before: RegistryModel,
    after: RegistryModel,
    r: Response,
) -> bool {
    match outcome {
        Ok(_) => exists|task_id: Seq<char>|
            is_uuid(task_id) && r@ == ok_reply(
                id,
                #[trigger] working_model(task_id, route),
            ) && after == (RegistryModel {
                tasks: with_task(
                    before.tasks,
                    before.capacity,
                    working_record(task_id, route, now),
                ),
                capacity: before.capacity,
            }),
        Err(e) => {
            &&& r@ == err_reply(
                id,
                -32000,
                "failed to route task to agent: "@ + e@,
            )
            &&& after == before
        },
    }
}

/// The response to `tasks/send` after the attempt to hand the task to its agent
/// at a time. A task that was handed over is registered, under a new id.
pub fn finish_tasks_send(
    id: Option<Json>,
    route: &TaskRoute,
    outcome: &Result<(), String>,
    now: &str,
    tasks: &mut A2aTaskRegistry,
) -> (r: Response)
    ensures
        task_is_sent(opt_json(id), *route, *outcome, now@, old(tasks)@, final(tasks)@, r),
{
    let task_id = new_id();
    let r = register_task(id, &task_id, route, outcome, now, tasks);
    proof {
        if let Ok(_) = *outcome {
            assert(r@ == ok_reply(opt_json(id), working_model(task_id@, *route)));
        }
    }
    r
}

/// The response to `tasks/get`.
pub open spec fn get_reply(
    id: Option<JsonModel>,
    params: JsonModel,
    tasks: Seq<RecordModel>,
) -> ReplyModel {
    let task_id = param_text(params, "taskId"@);
    if task_id.len() == 0 {
        err_reply(id, -32602, "missing required param: taskId"@)
    } else {
        match task_with(tasks, task_id) {
            Some(t) => ok_reply(id, record_model(t)),
            None => err_reply(id, -32002, "task not found: "@ + task_id),
        }
    }
}

/// The response to `tasks/get`.
pub fn handle_tasks_get(id: Option<Json>, params: &Json, tasks: &A2aTaskRegistry) -> (r: Response)
    ensures
        r@ == get_reply(opt_json(id), params@, tasks@.tasks),
{
    let task_id = read_param(params, "taskId");
    if task_id.is_empty() {
        return Response::err(id, -32602, "missing required param: taskId");
    }
    match tasks.get(task_id) {
        Some(t) => Response::ok(id, t.to_json()),
        None => Response::err(id, -32002, &cat("task not found: ", task_id)),
    }
}

/// The response to `tasks/cancel`: what `tasks/get` says of the task after its
/// status was changed.
pub fn handle_tasks_cancel(
    id: Option<Json>,
    params: &Json,
    now: &str,
    tasks: &mut A2aTaskRegistry,
) -> (r: Response)
    ensures
        ({
            let task_id = param_text(params@, "taskId"@);
            &&& final(tasks)@ == (if task_id.len() == 0 {
                old(tasks)@
            } else {
                RegistryModel {
                    tasks: with_status(old(tasks)@.tasks, task_id, "cancelled"@, now@),
                    capacity: old(tasks)@.capacity,
                }
            })
            &&& r@ == get_reply(opt_json(id), params@, final(tasks)@.tasks)
        }),
{
    let task_id = read_param(params, "taskId");
    if task_id.is_empty() {
        return Response::err(id, -32602, "missing required param: taskId");
    }
    match tasks.set_status(task_id, "cancelled", now) {
        Some(t) => Response::ok(id, t.to_json()),
        None => Response::err(id, -32002, &cat("task not found: ", task_id)),
    }
}

/// Whether a step is what a request asks for that passed authentication.
pub open spec fn step_answers(
    step: RpcStep,
    req: JsonRpcRequest,
    before: RegistryModel,
    after: RegistryModel,
    now: Seq<char>,
) -> bool {
    let id = opt_json(req.id);
    if req.method@ == "tasks/send"@ {
        &&& after == before
        &&& match send_params_error(req.params@) {
            Some(e) => step matches RpcStep::Reply(a) && a@ == err_reply(id, -32602, e),
            None => step matches RpcStep::Route(t) && routes(t, req.params@),
        }
    } else if req.method@ == "tasks/get"@ {
        &&& after == before
        &&& step matches RpcStep::Reply(a) && a@ == get_reply(id, req.params@, before.tasks)
    } else if req.method@ == "tasks/cancel"@ {
        let task_id = param_text(req.params@, "taskId"@);
        &&& after == (if task_id.len() == 0 {
            before
        } else {
            RegistryModel {
                tasks: with_status(before.tasks, task_id, "cancelled"@, now),
                capacity: before.capacity,
            }
        })
        &&& step matches RpcStep::Reply(a) && a@ == get_reply(id, req.params@, after.tasks)
    } else {
        &&& after == before
        &&& step matches RpcStep::Reply(a) && a@ == err_reply(
            id,
            -32601,
            "method not found: "@ + req.method@,
        )
    }
}

/// Whether `r` answers a request, and `after` is the registry from then on.
pub open spec fn handles_rpc(
    req: JsonRpcRequest,
    refusal: Option<&str>,
    now: Seq<char>,
    before: RegistryModel,
    after: RegistryModel,
    r: RpcStep,
) -> bool {
    match refusal {
        Some(e) => {
            &&& r matches RpcStep::Unauthorized(a) && a@ == err_reply(
                opt_json(req.id),
                -32000,
                e@,
            )
            &&& after == before
        },
        None => step_answers(r, req, before, after, now),
    }
}

/// What to do with a request at a time. `refusal` is the reason to refuse it.
pub fn handle_a2a_rpc(
    req: &JsonRpcRequest,
    refusal: Option<&str>,
    now: &str,
    tasks: &mut A2aTaskRegistry,
) -> (r: RpcStep)
    ensures
        handles_rpc(*req, refusal, now@, old(tasks)@, final(tasks)@, r),
{
    let id = match &req.id {
        Some(v) => Some(v.copy()),
        None => None,
    };
    match refusal {
        Some(e) => {
            return RpcStep::Unauthorized(Response::err(id, -32000, e));
        },
        None => {},
    }
    if same(&req.method, "tasks/send") {
        match handle_tasks_send(id, &req.params) {
            Ok(t) => RpcStep::Route(t),
            Err(a) => RpcStep::Reply(a),
        }
    } else if same(&req.method, "tasks/get") {
        RpcStep::Reply(handle_tasks_get(id, &req.params, tasks))
    } else if same(&req.method, "tasks/cancel") {
        RpcStep::Reply(handle_tasks_cancel(id, &req.params, now, tasks))
    } else {
        RpcStep::Reply(Response::err(id, -32601, &cat("method not found: ", &req.method)))
    }
}

/// A task that was cancelled is reported as cancelled from then on.
pub proof fn cancelled_task_stays_cancelled(
    v: Seq<RecordModel>,
    id: Seq<char>,
    now: Seq<char>,
)
    requires
        task_with(v, id) is Some,
    ensures
        task_with(with_status(v, id, "cancelled"@, now), id) matches Some(t) && t.status
            == "cancelled"@,
{
    task_index_bounds(v, id);
    let i = task_index(v, id) as int;
    let after = with_status(v, id, "cancelled"@, now);
    assert forall|j: int| 0 <= j < i implies (#[trigger] after[j]).task_id != id by {
        assert(after[j] == v[j]);
    }
    task_index_is(after, id, i);
}

/// Under a key, a request without that key is refused, whatever else it holds.
pub proof fn missing_key_is_refused(
    auth: A2aAuth,
    api_key: Option<Seq<char>>,
    authorization: Option<Seq<char>>,
    verified: bool,
)
    requires
        auth.auth_mode@ != "none"@,
        auth.auth_mode@ != "jwt"@,
        auth.api_key matches Some(k) && api_key != Some(k@),
    ensures
        auth_error(auth, api_key, authorization, verified) is Some,
{
}

// ─── What the server is for ─────────────────────────────────────────────────

/// Without authentication all come in. With a key, exactly those who give that key; with
/// tokens, exactly those whose token was verified against a trusted key.
pub proof fn only_the_authenticated_come_in(
    auth: A2aAuth,
    api_key: Option<Seq<char>>,
    authorization: Option<Seq<char>>,
    verified: bool,
)
    ensures
        auth.auth_mode@ == "none"@ ==> auth_error(auth, api_key, authorization, verified) is None,
        auth.auth_mode@ == "jwt"@ ==> (auth_error(auth, api_key, authorization, verified) is None
            <==> auth.trusted_keys > 0 && verified && (authorization matches Some(h) && h.len() >= 7
            && h.take(7) == "Bearer "@)),
        auth.auth_mode@ != "none"@ && auth.auth_mode@ != "jwt"@ && auth.api_key is Some ==> (
        auth_error(auth, api_key, authorization, verified) is None <==> api_key == Some(
            auth.api_key->0@,
        )),
{
    reveal_strlit("none");
    reveal_strlit("jwt");
    reveal_strlit("Bearer ");
    assert("none"@.len() == 4 && "jwt"@.len() == 3);
}

/// A bearer token is what stands behind the word.
pub proof fn bearer_token_follows_the_word(token: Seq<char>)
    ensures
        bearer(Some("Bearer "@ + token)) == Some(token),
        bearer(None) is None,
{
    reveal_strlit("Bearer ");
    let h = "Bearer "@ + token;
    assert(h.take(7) =~= "Bearer "@);
    assert(h.skip(7) =~= token);
}

/// A skill is an agent, a slash and what the agent is to do; a task for it goes to that
/// agent.
pub proof fn skill_names_its_agent(agent: Seq<char>, what: Seq<char>, t: TaskRoute, params: JsonModel)
    requires
        !agent.contains('/'),
        agent.len() > 0,
        params.text_field("skill"@) == Some(agent + "/"@ + what),
        params.text_field("message"@) matches Some(m) && m.len() > 0,
    ensures
        send_params_error(params) is None,
        routes(t, params) ==> t.agent@ == agent && t.target@ == "agent:"@ + agent && Some(t.message@)
            == params.text_field("message"@) && Some(t.skill@) == params.text_field("skill"@),
{
    reveal_strlit("/");
    let skill = agent + "/"@ + what;
    let n = agent.len() as int;
    assert forall|j: int| 0 <= j < n implies skill[j] != '/' by {
        assert(skill[j] == agent[j]);
        assert(agent.contains(agent[j]));
    }
    assert(skill[n] == '/');
    index_of_is(skill, '/', n);
    assert(skill.take(n) =~= agent);
}

/// A task without a skill or a message, or whose skill names no agent, is not sent.
pub proof fn incomplete_task_is_not_sent(params: JsonModel, what: Seq<char>)
    ensures
        params.text_field("skill"@) is None ==> send_params_error(params) is Some,
        params.text_field("message"@) is None ==> send_params_error(params) is Some,
        params.text_field("skill"@) == Some("/"@ + what) ==> send_params_error(params) is Some,
{
    reveal_strlit("/");
    let skill = "/"@ + what;
    assert(skill[0] == '/');
    index_of_is(skill, '/', 0);
    assert(skill.take(0) =~= Seq::<char>::empty());
}

/// A refused request is answered with the refusal and changes nothing.
pub proof fn refused_request_changes_nothing(
    req: JsonRpcRequest,
    refusal: &str,
    now: Seq<char>,
    before: RegistryModel,
    after: RegistryModel,
    r: RpcStep,
)
    requires
        handles_rpc(req, Some(refusal), now, before, after, r),
    ensures
        after == before,
        r matches RpcStep::Unauthorized(a) && a@ == err_reply(opt_json(req.id), -32000, refusal@),
{
}

/// A good request to send a task is handed on to the agent of its skill and changes nothing
/// yet; a bad one is answered with an error.
pub proof fn send_request_is_handed_on(
    req: JsonRpcRequest,
    now: Seq<char>,
    before: RegistryModel,
    after: RegistryModel,
    r: RpcStep,
)
    requires
        handles_rpc(req, None, now, before, after, r),
        req.method@ == "tasks/send"@,
    ensures
        after == before,
        r is Route <==> send_params_error(req.params@) is None,
        r matches RpcStep::Route(t) ==> Some(t.skill@) == req.params@.text_field("skill"@) && Some(
            t.message@,
        ) == req.params@.text_field("message"@) && t.target@ == "agent:"@ + t.agent@,
{
}

/// A task that was handed on is in the registry as one that is worked on, under the id of
/// the answer; one that could not be is not.
pub proof fn sent_task_is_registered(
    id: Option<JsonModel>,
    route: TaskRoute,
    outcome: Result<(), String>,
    now: Seq<char>,
    before: RegistryModel,
    after: RegistryModel,
    r: Response,
)
    requires
        task_is_sent(id, route, outcome, now, before, after, r),
    ensures
        outcome is Err ==> after == before && r@.error is Some && r@.result is None,
        outcome is Ok ==> r@.error is None && (r@.result matches Some(v) && v.text_field(
            "status"@,
        ) == Some("working"@) && v.text_field("skill"@) == Some(route.skill@) && v.text_field(
            "agent"@,
        ) == Some(route.agent@) && (v.text_field("taskId"@) matches Some(t) && (task_with(
            after.tasks,
            t,
        ) matches Some(x) && x.status == "working"@ && x.agent == route.agent@ && x.skill
            == route.skill@ && x.created_at == now && x.updated_at == now))),
        r@.id == id,
{
    reveal_strlit("taskId");
    reveal_strlit("status");
    reveal_strlit("skill");
    reveal_strlit("agent");
    assert("taskId"@.len() == 6 && "status"@.len() == 6 && "skill"@.len() == 5 && "agent"@.len() == 5);
    assert("taskId"@[0] != "status"@[0]);
    assert("skill"@[0] != "agent"@[0]);
    if outcome is Ok {
        let task_id = choose|task_id: Seq<char>|
            is_uuid(task_id) && r@ == ok_reply(id, #[trigger] working_model(task_id, route)) && after
                == (RegistryModel {
                tasks: with_task(
                    before.tasks,
                    before.capacity,
                    working_record(task_id, route, now),
                ),
                capacity: before.capacity,
            });
        let fields = working_model(task_id, route)->Object_0;
        lookup_steps(fields, "taskId"@, 0);
        lookup_steps(fields, "status"@, 1);
        lookup_steps(fields, "skill"@, 2);
        lookup_steps(fields, "agent"@, 3);
        added_task_is_found(before.tasks, before.capacity, working_record(task_id, route, now));
    }
}

/// A request for a task that is known is answered with all that is known of it, and
/// changes nothing; one for an unknown task with an error.
pub proof fn known_task_is_told(
    req: JsonRpcRequest,
    now: Seq<char>,
    before: RegistryModel,
    after: RegistryModel,
    r: RpcStep,
    id: Seq<char>,
)
    requires
        handles_rpc(req, None, now, before, after, r),
        req.method@ == "tasks/get"@,
        req.params@.text_field("taskId"@) == Some(id),
        id.len() > 0,
    ensures
        after == before,
        r matches RpcStep::Reply(a) && a@.id == opt_json(req.id) && match task_with(
            before.tasks,
            id,
        ) {
            Some(t) => a@.error is None && (a@.result matches Some(v) && v.text_field("task_id"@)
                == Some(t.task_id) && v.text_field("status"@) == Some(t.status) && v.text_field(
                "agent"@,
            ) == Some(t.agent) && v.text_field("skill"@) == Some(t.skill) && v.text_field(
                "created_at"@,
            ) == Some(t.created_at) && v.text_field("updated_at"@) == Some(t.updated_at)),
            None => a@.result is None && a@.error is Some,
        },
{
    methods_differ();
    if let Some(t) = task_with(before.tasks, id) {
        record_is_told(t);
    }
}

proof fn record_is_told(t: RecordModel)
    ensures
        record_model(t).text_field("task_id"@) == Some(t.task_id),
        record_model(t).text_field("status"@) == Some(t.status),
        record_model(t).text_field("agent"@) == Some(t.agent),
        record_model(t).text_field("skill"@) == Some(t.skill),
        record_model(t).text_field("created_at"@) == Some(t.created_at),
        record_model(t).text_field("updated_at"@) == Some(t.updated_at),
{
    reveal_strlit("task_id");
    reveal_strlit("skill");
    reveal_strlit("agent");
    reveal_strlit("status");
    reveal_strlit("created_at");
    reveal_strlit("updated_at");
    assert("task_id"@.len() == 7 && "skill"@.len() == 5 && "agent"@.len() == 5 && "status"@.len() == 6 && "created_at"@.len() == 10 && "updated_at"@.len() == 10);
    assert("skill"@[0] != "agent"@[0]);
    assert("created_at"@[0] != "updated_at"@[0]);
    let fields = record_model(t)->Object_0;
    lookup_steps(fields, "task_id"@, 0);
    lookup_steps(fields, "skill"@, 1);
    lookup_steps(fields, "agent"@, 2);
    lookup_steps(fields, "status"@, 3);
    lookup_steps(fields, "created_at"@, 4);
    lookup_steps(fields, "updated_at"@, 5);
}

proof fn methods_differ()
    ensures
        "tasks/send"@ != "tasks/get"@,
        "tasks/send"@ != "tasks/cancel"@,
        "tasks/get"@ != "tasks/cancel"@,
{
    reveal_strlit("tasks/send");
    reveal_strlit("tasks/get");
    reveal_strlit("tasks/cancel");
    assert("tasks/send"@.len() == 10 && "tasks/get"@.len() == 9 && "tasks/cancel"@.len() == 12);
}

/// A known task that is cancelled is told as cancelled from then on, with the time of it,
/// and every other task stays as it was.
pub proof fn cancelled_task_is_told_so(
    req: JsonRpcRequest,
    now: Seq<char>,
    before: RegistryModel,
    after: RegistryModel,
    r: RpcStep,
    id: Seq<char>,
    other: Seq<char>,
)
    requires
        handles_rpc(req, None, now, before, after, r),
        req.method@ == "tasks/cancel"@,
        req.params@.text_field("taskId"@) == Some(id),
        id.len() > 0,
        other != id,
    ensures
        task_with(before.tasks, id) matches Some(t) ==> (task_with(after.tasks, id) matches Some(u)
            && u.status == "cancelled"@ && u.updated_at == now && u.created_at == t.created_at
            && u.agent == t.agent && u.skill == t.skill) && (r matches RpcStep::Reply(a) && (
        a@.result matches Some(v) && v.text_field("status"@) == Some("cancelled"@)
            && v.text_field("task_id"@) == Some(id))),
        task_with(before.tasks, id) is None ==> after == before && (r matches RpcStep::Reply(a)
            && a@.error is Some),
        task_with(after.tasks, other) == task_with(before.tasks, other),
        after.tasks.len() == before.tasks.len(),
{
    methods_differ();
    let v = before.tasks;
    let i = task_index(v, id) as int;
    task_index_bounds(v, id);
    if i < v.len() {
        let w = with_status(v, id, "cancelled"@, now);
        assert forall|j: int| 0 <= j < i implies (#[trigger] w[j]).task_id != id by {
            assert(w[j] == v[j]);
        }
        task_index_is(w, id, i);
        record_is_told(w[i]);
        let k = task_index(v, other) as int;
        task_index_bounds(v, other);
        assert forall|j: int| 0 <= j < k implies (#[trigger] w[j]).task_id != other by {
            assert(v[j].task_id != other);
        }
        task_index_is(w, other, k);
    } else {
        assert(after == before);
    }
}

/// An unknown method is answered with an error that names it, and changes nothing.
pub proof fn unknown_method_is_refused(
    req: JsonRpcRequest,
    now: Seq<char>,
    before: RegistryModel,
    after: RegistryModel,
    r: RpcStep,
)
    requires
        handles_rpc(req, None, now, before, after, r),
        req.method@ != "tasks/send"@,
        req.method@ != "tasks/get"@,
        req.method@ != "tasks/cancel"@,
    ensures
        after == before,
        r matches RpcStep::Reply(a) && a@.result is None && (a@.error matches Some(e)
            && e.i64_field("code"@) == Some(-32601int) && (e.text_field("message"@) matches Some(t)
            && contains_spec(t, req.method@))),
{
    reply_tells_its_outcome(opt_json(req.id), JsonModel::Null, -32601, "method not found: "@ + req.method@);
    let m = "method not found: "@;
    part_occurs(m, req.method@, Seq::empty());
    assert(m + req.method@ =~= m + req.method@ + Seq::<char>::empty());
}

/// A request about a task that does not say which is answered with the code for bad
/// parameters, and one about an unknown task with the code for that and its id.
pub proof fn missing_tasks_have_their_code(
    req: JsonRpcRequest,
    now: Seq<char>,
    before: RegistryModel,
    after: RegistryModel,
    r: RpcStep,
    id: Seq<char>,
)
    requires
        handles_rpc(req, None, now, before, after, r),
        req.method@ == "tasks/get"@ || req.method@ == "tasks/cancel"@,
    ensures
        req.params@.text_field("taskId"@) is None ==> after == before && (r matches RpcStep::Reply(a)
            && (a@.error matches Some(e) && e.i64_field("code"@) == Some(-32602int))),
        req.params@.text_field("taskId"@) == Some(id) && id.len() > 0 && task_with(
            before.tasks,
            id,
        ) is None ==> after == before && (r matches RpcStep::Reply(a) && (a@.error matches Some(e)
            && e.i64_field("code"@) == Some(-32002int) && (e.text_field("message"@) matches Some(t)
            && contains_spec(t, id)))),
{
    methods_differ();
    reveal_strlit("");
    let rid = opt_json(req.id);
    reply_tells_its_outcome(rid, JsonModel::Null, -32602, "missing required param: taskId"@);
    reply_tells_its_outcome(rid, JsonModel::Null, -32002, "task not found: "@ + id);
    both_parts_occur("task not found: "@, id);
    task_index_bounds(before.tasks, id);
}

/// A task that is sent without a skill or a message is refused with the code for bad
/// parameters.
pub proof fn bad_tasks_have_their_code(
    req: JsonRpcRequest,
    now: Seq<char>,
    before: RegistryModel,
    after: RegistryModel,
    r: RpcStep,
)
    requires
        handles_rpc(req, None, now, before, after, r),
        req.method@ == "tasks/send"@,
        req.params@.text_field("skill"@) is None || req.params@.text_field("message"@) is None,
    ensures
        after == before,
        r matches RpcStep::Reply(a) && (a@.error matches Some(e) && e.i64_field("code"@) == Some(
            -32602int,
        )),
{
    reveal_strlit("");
    reply_tells_its_outcome(
        opt_json(req.id),
        JsonModel::Null,
        -32602,
        send_params_error(req.params@)->0,
    );
}

} // verus!
