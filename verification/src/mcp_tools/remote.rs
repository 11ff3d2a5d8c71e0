//! Tools that reach remote agents over HTTP, and needs.
use super::reply::{parameter, read_text_or, require_parameter, text_or};
use crate::decimal::{decimal_int, show_i64};
use crate::ids::{is_uuid, new_id};
use crate::json::{
    lists_texts, text_list_holds_its_texts, text_list_model, texts_among, Fields, Items, Json,
    JsonModel,
};
use crate::metrics::{trim_end_char, trim_end_matches};
use crate::text::{
    cat, cat3, cat5, contains_spec, join, join_spec, part_occurs, split_whitespace, texts,
    words_spec,
};
use crate::message::lookup_steps;
use vstd::prelude::*;
use vstd::string::*;

verus! {

/// How a request to a remote agent is authenticated.
#[derive(Debug, PartialEq)]
pub enum RemoteAuth {
    /// With a token signed by the key in this file.
    JwtKey(String),
    /// With this key.
    ApiKey(String),
    Nothing,
}

/// Whether a request is authenticated as the arguments say: with a token where
/// a key file is given, else with a key where one is given.
pub open spec fn authenticates(auth: RemoteAuth, args: JsonModel) -> bool {
    match (args.text_field("jwt_key"@), args.text_field("api_key"@)) {
        (Some(path), _) => auth matches RemoteAuth::JwtKey(p) && p@ == path,
        (None, Some(key)) => auth matches RemoteAuth::ApiKey(k) && k@ == key,
        (None, None) => auth is Nothing,
    }
}

/// How a request is authenticated: with a token where a key file is given, else
/// with a key where one is given.
pub fn apply_a2a_auth(args: &Json) -> (r: RemoteAuth)
    ensures
        authenticates(r, args@),
{
    match (args.text_field("jwt_key"), args.text_field("api_key")) {
        (Some(path), _) => RemoteAuth::JwtKey(String::from_str(path)),
        (None, Some(key)) => RemoteAuth::ApiKey(String::from_str(key)),
        (None, None) => RemoteAuth::Nothing,
    }
}

/// The address under which an agent takes requests.
pub open spec fn a2a_url(url: Seq<char>) -> Seq<char> {
    trim_end_char(url, '/') + "/a2a"@
}

/// The address of the card of an agent.
pub open spec fn card_url(url: Seq<char>) -> Seq<char> {
    trim_end_char(url, '/') + "/.well-known/agent-card.json"@
}

fn show_a2a_url(url: &str) -> (r: String)
    ensures
        r@ == a2a_url(url@),
{
    cat(trim_end_matches(url, '/'), "/a2a")
}

/// A request to a remote agent.
#[derive(Debug, PartialEq)]
pub struct RemoteCall {
    pub url: String,
    pub body: Json,
    pub auth: RemoteAuth,
}

/// A call of `tasks/send`.
pub open spec fn send_call(id: Seq<char>, params: Seq<(Seq<char>, JsonModel)>) -> JsonModel {
    JsonModel::Object(
        seq![
            ("jsonrpc"@, JsonModel::Text("2.0"@)),
            ("id"@, JsonModel::Text(id)),
            ("method"@, JsonModel::Text("tasks/send"@)),
            ("params"@, JsonModel::Object(params)),
        ],
    )
}

fn make_send_call(id: &str, params: Fields) -> (r: Json)
    ensures
        r@ == send_call(id@, params@),
{
    let ghost expected = send_call(id@, params@);
    let mut f = Fields::new();
    f.put_text("jsonrpc", "2.0");
    f.put_text("id", id);
    f.put_text("method", "tasks/send");
    f.put("params", params.object());
    assert(f@ =~= expected->Object_0);
    f.object()
}

/// Whether a request sends a task with the parameters to an agent, under some
/// id.
pub open spec fn sends(
    c: RemoteCall,
    args: JsonModel,
    url: Seq<char>,
    params: Seq<(Seq<char>, JsonModel)>,
) -> bool {
    &&& c.url@ == a2a_url(url)
    &&& authenticates(c.auth, args)
    &&& exists|id: Seq<char>| is_uuid(id) && c.body@ == #[trigger] send_call(id, params)
}

/// The parameters of a task.
pub open spec fn task_params(skill: Seq<char>, message: Seq<char>) -> Seq<(Seq<char>, JsonModel)> {
    seq![("skill"@, JsonModel::Text(skill)), ("message"@, JsonModel::Text(message))]
}

/// Whether `r` is the request to send, or the complaint about the arguments.
pub open spec fn plans_a2a(
    args: JsonModel,
    r: Result<RemoteCall, String>,
) -> bool {
    match (parameter(args, "url"@), parameter(args, "skill"@), parameter(args, "message"@)) {
        (Err(e), _, _) => r matches Err(m) && m@ == e,
        (_, Err(e), _) => r matches Err(m) && m@ == e,
        (_, _, Err(e)) => r matches Err(m) && m@ == e,
        (Ok(url), Ok(skill), Ok(message)) => r matches Ok(c) && sends(
            c,
            args,
            url,
            task_params(skill, message),
        ),
    }
}

/// The request that sends a task to a remote agent, under a new id.
pub fn call_a2a_send(args: &Json) -> (r: Result<RemoteCall, String>)
    ensures
        plans_a2a(args@, r),
{
    let url = match require_parameter(args, "url") {
        Ok(t) => t,
        Err(e) => {
            return Err(e);
        },
    };
    let skill = match require_parameter(args, "skill") {
        Ok(t) => t,
        Err(e) => {
            return Err(e);
        },
    };
    let message = match require_parameter(args, "message") {
        Ok(t) => t,
        Err(e) => {
            return Err(e);
        },
    };
    let id = new_id();
    let mut params = Fields::new();
    params.put_text("skill", skill);
    params.put_text("message", message);
    assert(params@ =~= task_params(skill@, message@));
    let body = make_send_call(&id, params);
    assert(body@ == send_call(id@, task_params(skill@, message@)));
    let call = RemoteCall { url: show_a2a_url(url), body, auth: apply_a2a_auth(args) };
    assert(sends(call, args@, url@, task_params(skill@, message@)));
    Ok(call)
}

/// The answer of a remote agent: a status other than success with its body, or
/// the JSON body.
#[derive(Debug)]
pub enum RemoteReply {
    Refused { status: String, body: String },
    Body(Json),
}

/// The error that a body carries.
pub open spec fn remote_error(body: JsonModel) -> Option<Seq<char>> {
    match body.get("error"@) {
        None => None,
        Some(e) => Some(
            "A2A error "@ + decimal_int(
                match e.i64_field("code"@) {
                    Some(n) => n,
                    None => 0,
                },
            ) + ": "@ + text_or(e, "message"@, "unknown"@),
        ),
    }
}

/// The complaint about an answer of a remote agent.
pub open spec fn reply_error(what: Seq<char>, reply: RemoteReply) -> Option<Seq<char>> {
    match reply {
        RemoteReply::Refused { status, body } => Some(
            what + " returned "@ + status@ + ": "@ + body@,
        ),
        RemoteReply::Body(v) => remote_error(v@),
    }
}

fn check_reply<'a>(what: &str, reply: &'a RemoteReply) -> (r: Result<&'a Json, String>)
    ensures
        match r {
            Err(e) => reply_error(what@, *reply) == Some(e@),
            Ok(v) => reply_error(what@, *reply) is None && *reply == RemoteReply::Body(*v),
        },
{
    match reply {
        RemoteReply::Refused { status, body } => Err(
            cat5(what, " returned ", status, ": ", body),
        ),
        RemoteReply::Body(v) => match v.get("error") {
            None => Ok(v),
            Some(e) => {
                let code: i64 = match e.i64_field("code") {
                    Some(n) => n,
                    None => 0,
                };
                let mut m = cat3("A2A error ", &show_i64(code), ": ");
                m.append(read_text_or(e, "message", "unknown"));
                Err(m)
            },
        },
    }
}

/// Whether `r` is what a request came to.
pub open spec fn finishes_a2a(
    reply: RemoteReply,
    r: Result<Json, String>,
) -> bool {
    match reply_error("A2A request"@, reply) {
        Some(e) => r matches Err(m) && m@ == e,
        None => r matches Ok(v) && (reply matches RemoteReply::Body(b) && v@ == (
        match b@.get("result"@) {
            Some(x) => x,
            None => b@,
        })),
    }
}

/// The result of a task that was sent: the result that the body names, else the
/// whole body.
pub fn finish_a2a_send(reply: &RemoteReply) -> (r: Result<Json, String>)
    ensures
        finishes_a2a(*reply, r),
{
    match check_reply("A2A request", reply) {
        Err(e) => Err(e),
        Ok(body) => match body.get("result") {
            Some(v) => Ok(v.copy()),
            None => Ok(body.copy()),
        },
    }
}

/// The address of the card of the agent that the arguments name.
pub fn call_a2a_discover(args: &Json) -> (r: Result<String, String>)
    ensures
        match parameter(args@, "url"@) {
            Err(e) => r matches Err(m) && m@ == e,
            Ok(url) => r matches Ok(u) && u@ == card_url(url),
        },
{
    match require_parameter(args, "url") {
        Ok(url) => Ok(cat(trim_end_matches(url, '/'), "/.well-known/agent-card.json")),
        Err(e) => Err(e),
    }
}

// ─── Needs ──────────────────────────────────────────────────────────────────

/// The text in lower case.
pub uninterp spec fn lower_case(s: Seq<char>) -> Seq<char>;

/// `str::to_lowercase`: depends on the text alone. Which character stands for
/// which is not stated.
#[verifier::external_body]
fn to_lower(s: &str) -> (r: String)
    ensures
        r@ == lower_case(s@),
{
    s.to_lowercase()
}

/// The first four words of a text, with hyphens between them.
pub open spec fn first_words(s: Seq<char>) -> Seq<char> {
    let all = words_spec(s);
    join_spec(
        if all.len() > 4 {
            all.take(4)
        } else {
            all
        },
        "-"@,
    )
}

/// The first four words of a text, with hyphens between them.
pub fn slug(lowered: &str) -> (r: String)
    ensures
        r@ == first_words(lowered@),
{
    let all = split_whitespace(lowered);
    let ghost t = texts(all@);
    let n: usize = if all.len() > 4 {
        4
    } else {
        all.len()
    };
    let mut out: Vec<String> = Vec::new();
    let mut i: usize = 0;
    assert(texts(out@) =~= t.take(0));
    while i < n
        invariant
            i <= n <= all@.len(),
            t == texts(all@),
            texts(out@) == t.take(i as int),
        decreases n - i,
    {
        let ghost before = texts(out@);
        out.push(all[i].clone());
        assert(texts(out@) =~= before.push(t[i as int]));
        i += 1;
        assert(texts(out@) =~= t.take(i as int));
    }
    assert(t.take(t.len() as int) =~= t);
    join(&out, "-")
}

/// A need that an agent publishes.
#[derive(Debug, PartialEq)]
pub struct Need {
    pub id: String,
    pub description: String,
    pub tags: Vec<String>,
    pub priority: String,
}

/// Whether `r` is the need that the arguments state, or the complaint.
pub open spec fn asks_for_need(
    args: JsonModel,
    r: Result<Need, String>,
) -> bool {
    match parameter(args, "description"@) {
        Err(e) => r matches Err(m) && m@ == e,
        Ok(d) => r matches Ok(n) && n.description@ == d && n.id@ == first_words(lower_case(d))
            && texts(n.tags@) == (match args.list_field("tags"@) {
            Some(items) => texts_among(items),
            None => Seq::empty(),
        }) && n.priority@ == text_or(args, "priority"@, "medium"@),
    }
}

/// The need that the arguments describe. Its identifier comes from its
/// description.
pub fn call_publish_need(args: &Json) -> (r: Result<Need, String>)
    ensures
        asks_for_need(args@, r),
{
    let description = match require_parameter(args, "description") {
        Ok(t) => t,
        Err(e) => {
            return Err(e);
        },
    };
    let tags = match args.text_list_field("tags") {
        Some(v) => v,
        None => {
            let v: Vec<String> = Vec::new();
            assert(texts(v@) =~= Seq::<Seq<char>>::empty());
            v
        },
    };
    Ok(
        Need {
            id: slug(&to_lower(description)),
            description: String::from_str(description),
            tags,
            priority: String::from_str(read_text_or(args, "priority", "medium")),
        },
    )
}

/// The reply that a need was published.
pub open spec fn published_model(n: Need) -> JsonModel {
    JsonModel::Object(
        seq![
            ("status"@, JsonModel::Text("published"@)),
            (
                "need"@,
                JsonModel::Object(
                    seq![
                        ("id"@, JsonModel::Text(n.id@)),
                        ("description"@, JsonModel::Text(n.description@)),
                        ("tags"@, text_list_model(texts(n.tags@))),
                        ("priority"@, JsonModel::Text(n.priority@)),
                    ],
                ),
            ),
        ],
    )
}

/// The reply that a need was published.
pub fn need_published(n: &Need) -> (r: Json)
    ensures
        r@ == published_model(*n),
{
    let ghost expected = published_model(*n);
    let mut need = Fields::new();
    need.put_text("id", &n.id);
    need.put_text("description", &n.description);
    need.put("tags", Json::texts(&n.tags));
    need.put_text("priority", &n.priority);
    assert(need@ =~= expected->Object_0[1].1->Object_0);
    let mut f = Fields::new();
    f.put_text("status", "published");
    f.put("need", need.object());
    assert(f@ =~= expected->Object_0);
    f.object()
}

/// The reply with the needs on the card of a remote agent.
pub open spec fn browsed_model(url: Seq<char>, card: JsonModel) -> JsonModel {
    JsonModel::Object(
        seq![
            ("agent"@, JsonModel::Text(text_or(card, "name"@, "unknown"@))),
            ("url"@, JsonModel::Text(url)),
            (
                "needs"@,
                match card.get("needs"@) {
                    Some(v) => v,
                    None => JsonModel::List(Seq::empty()),
                },
            ),
        ],
    )
}

/// The reply with the needs on the card of a remote agent.
pub fn call_browse_needs(url: &str, card: &Json) -> (r: Json)
    ensures
        r@ == browsed_model(url@, card@),
{
    let needs = match card.get("needs") {
        Some(v) => v.copy(),
        None => Items::new().list(),
    };
    let mut f = Fields::new();
    f.put_text("agent", read_text_or(card, "name", "unknown"));
    f.put_text("url", url);
    f.put("needs", needs);
    assert(f@ =~= browsed_model(url@, card@)->Object_0);
    f.object()
}

/// The parameters of a proposal for a need.
pub open spec fn proposal_params(need_id: Seq<char>, proposal: Seq<char>) -> Seq<
    (Seq<char>, JsonModel),
> {
    seq![
        ("skill"@, JsonModel::Text(need_id)),
        (
            "message"@,
            JsonModel::Text("Proposal for need '"@ + need_id + "': "@ + proposal),
        ),
        (
            "metadata"@,
            JsonModel::Object(
                seq![
                    ("type"@, JsonModel::Text("need_proposal"@)),
                    ("need_id"@, JsonModel::Text(need_id)),
                ],
            ),
        ),
    ]
}

/// The request that sends a proposal for a need to a remote agent, under a new
/// id, and the need.
pub fn call_propose_for_need(args: &Json) -> (r: Result<(RemoteCall, String), String>)
    ensures
        match (
            parameter(args@, "url"@),
            parameter(args@, "need_id"@),
            parameter(args@, "proposal"@),
        ) {
            (Err(e), _, _) => r matches Err(m) && m@ == e,
            (_, Err(e), _) => r matches Err(m) && m@ == e,
            (_, _, Err(e)) => r matches Err(m) && m@ == e,
            (Ok(url), Ok(need_id), Ok(proposal)) => r matches Ok((c, n)) && n@ == need_id && sends(
                c,
                args@,
                url,
                proposal_params(need_id, proposal),
            ),
        },
{
    let url = match require_parameter(args, "url") {
        Ok(t) => t,
        Err(e) => {
            return Err(e);
        },
    };
    let need_id = match require_parameter(args, "need_id") {
        Ok(t) => t,
        Err(e) => {
            return Err(e);
        },
    };
    let proposal = match require_parameter(args, "proposal") {
        Ok(t) => t,
        Err(e) => {
            return Err(e);
        },
    };
    let ghost expected = proposal_params(need_id@, proposal@);
    let mut meta = Fields::new();
    meta.put_text("type", "need_proposal");
    meta.put_text("need_id", need_id);
    assert(meta@ =~= expected[2].1->Object_0);
    let mut message = cat3("Proposal for need '", need_id, "': ");
    message.append(proposal);
    let mut params = Fields::new();
    params.put_text("skill", need_id);
    params.put_text("message", &message);
    params.put("metadata", meta.object());
    assert(params@ =~= expected);
    let id = new_id();
    let body = make_send_call(&id, params);
    assert(body@ == send_call(id@, expected));
    let call = RemoteCall { url: show_a2a_url(url), body, auth: apply_a2a_auth(args) };
    assert(sends(call, args@, url@, expected));
    Ok((call, String::from_str(need_id)))
}

/// The reply that a proposal was sent.
pub open spec fn proposed_model(need_id: Seq<char>, body: JsonModel) -> JsonModel {
    JsonModel::Object(
        seq![
            ("status"@, JsonModel::Text("proposed"@)),
            ("need_id"@, JsonModel::Text(need_id)),
            ("result"@, body.at("result"@)),
        ],
    )
}

/// Whether `r` is what a proposal came to.
pub open spec fn finishes_proposal(
    need_id: Seq<char>,
    reply: RemoteReply,
    r: Result<Json, String>,
) -> bool {
    match reply_error("A2A proposal"@, reply) {
        Some(e) => r matches Err(m) && m@ == e,
        None => r matches Ok(v) && (reply matches RemoteReply::Body(b) && v@
            == proposed_model(need_id, b@)),
    }
}

/// The reply that a proposal was sent, or what went wrong.
pub fn finish_proposal(need_id: &str, reply: &RemoteReply) -> (r: Result<Json, String>)
    ensures
        finishes_proposal(need_id@, *reply, r),
{
    match check_reply("A2A proposal", reply) {
        Err(e) => Err(e),
        Ok(body) => {
            let result = match body.get("result") {
                Some(v) => v.copy(),
                None => Json::Null,
            };
            let mut f = Fields::new();
            f.put_text("status", "proposed");
            f.put_text("need_id", need_id);
            f.put("result", result);
            assert(f@ =~= proposed_model(need_id@, body@)->Object_0);
            Ok(f.object())
        },
    }
}

// ─── What remote calls are for ──────────────────────────────────────────────

/// A slash at the end of an address makes no difference.
pub proof fn slashes_at_the_end_do_not_matter(url: Seq<char>)
    ensures
        a2a_url(url.push('/')) == a2a_url(url),
        card_url(url.push('/')) == card_url(url),
        url.len() > 0 && url.last() != '/' ==> a2a_url(url) == url + "/a2a"@ && card_url(url) == url
            + "/.well-known/agent-card.json"@,
{
    assert(url.push('/').drop_last() =~= url);
}

/// A request to another workspace goes to its address, under a new id, as a task for the
/// skill with the message, and with the credentials that are given.
pub proof fn remote_tasks_are_as_asked(args: JsonModel, r: Result<RemoteCall, String>)
    requires
        plans_a2a(args, r),
    ensures
        r is Ok <==> args.text_field("url"@) is Some && args.text_field("skill"@) is Some
            && args.text_field("message"@) is Some,
        r matches Ok(c) ==> c.url@ == a2a_url(args.text_field("url"@)->0) && c.body@.text_field(
            "method"@,
        ) == Some("tasks/send"@) && c.body@.at("params"@).text_field("skill"@) == args.text_field(
            "skill"@,
        ) && c.body@.at("params"@).text_field("message"@) == args.text_field("message"@)
            && c.body@.text_field("jsonrpc"@) == Some("2.0"@) && c.body@.text_field("id"@) is Some
            && (args.text_field("jwt_key"@) is Some <==> c.auth is JwtKey) && (args.text_field(
            "jwt_key"@,
        ) is None && args.text_field("api_key"@) is Some ==> (c.auth matches RemoteAuth::ApiKey(k)
            && Some(k@) == args.text_field("api_key"@))),
{
    if let Ok(c) = r {
        let params = task_params(args.text_field("skill"@)->0, args.text_field("message"@)->0);
        let id = choose|id: Seq<char>| is_uuid(id) && c.body@ == #[trigger] send_call(id, params);
        reveal_strlit("jsonrpc");
        reveal_strlit("id");
        reveal_strlit("method");
        reveal_strlit("params");
        assert("jsonrpc"@.len() == 7 && "id"@.len() == 2 && "method"@.len() == 6 && "params"@.len() == 6);
        assert("method"@[0] != "params"@[0]);
        reveal_strlit("skill");
        reveal_strlit("message");
        assert("skill"@.len() == 5 && "message"@.len() == 7);
        let fields = send_call(id, params)->Object_0;
        lookup_steps(fields, "jsonrpc"@, 0);
        lookup_steps(fields, "id"@, 1);
        lookup_steps(fields, "method"@, 2);
        lookup_steps(fields, "params"@, 3);
        lookup_steps(params, "skill"@, 0);
        lookup_steps(params, "message"@, 1);
    }
}

/// The result of a remote call is what the other side gives as its result; an error that it
/// gives, or a refusal, is an error here that holds its text.
pub proof fn remote_results_are_handed_on(reply: RemoteReply, r: Result<Json, String>)
    requires
        finishes_a2a(reply, r),
    ensures
        r is Ok <==> (reply matches RemoteReply::Body(b) && b@.get("error"@) is None),
        (reply matches RemoteReply::Body(b) && b@.get("error"@) is None && b@.get("result"@) is Some)
            ==> Some(r->Ok_0@) == reply->Body_0@.get("result"@),
        (reply matches RemoteReply::Body(b) && (b@.get("error"@) matches Some(e) && e.text_field(
            "message"@,
        ) is Some)) ==> contains_spec(
            r->Err_0@,
            reply->Body_0@.get("error"@)->0.text_field("message"@)->0,
        ),
        reply matches RemoteReply::Refused { status, body } ==> contains_spec(r->Err_0@, body@)
            && contains_spec(r->Err_0@, status@),
{
    match reply {
        RemoteReply::Refused { status, body } => {
            let what = "A2A request"@;
            part_occurs(what + " returned "@, status@, ": "@ + body@);
            assert(r->Err_0@ =~= what + " returned "@ + status@ + (": "@ + body@));
            part_occurs(what + " returned "@ + status@ + ": "@, body@, Seq::empty());
            assert(r->Err_0@ =~= (what + " returned "@ + status@ + ": "@) + body@
                + Seq::<char>::empty());
        },
        RemoteReply::Body(b) => {
            if let Some(e) = b@.get("error"@) {
                if let Some(t) = e.text_field("message"@) {
                    let head = r->Err_0@.take(r->Err_0@.len() - t.len());
                    part_occurs(head, t, Seq::empty());
                    assert(r->Err_0@ =~= head + t + Seq::<char>::empty());
                }
            }
        },
    }
}

/// A need is its description, with the tags and the priority that are given; the priority
/// is medium where none is.
pub proof fn need_is_as_stated(args: JsonModel, r: Result<Need, String>, tags: Seq<Seq<char>>)
    requires
        asks_for_need(args, r),
    ensures
        r is Ok <==> args.text_field("description"@) is Some,
        r matches Ok(n) ==> Some(n.description@) == args.text_field("description"@) && (
        args.text_field("priority"@) is None ==> n.priority@ == "medium"@) && (args.text_field(
            "priority"@,
        ) matches Some(p) ==> n.priority@ == p) && (args.get("tags"@) == Some(text_list_model(tags))
            ==> texts(n.tags@) == tags),
{
    text_list_holds_its_texts(tags);
}

/// A published need is told with all that it states.
pub proof fn published_need_is_told(n: Need)
    ensures
        published_model(n).text_field("status"@) == Some("published"@),
        published_model(n).at("need"@).text_field("id"@) == Some(n.id@),
        published_model(n).at("need"@).text_field("description"@) == Some(n.description@),
        published_model(n).at("need"@).text_field("priority"@) == Some(n.priority@),
        lists_texts(published_model(n).at("need"@).at("tags"@), texts(n.tags@)),
{
    reveal_strlit("status");
    reveal_strlit("need");
    assert("status"@.len() == 6 && "need"@.len() == 4);
    reveal_strlit("id");
    reveal_strlit("description");
    reveal_strlit("tags");
    reveal_strlit("priority");
    assert("id"@.len() == 2 && "description"@.len() == 11 && "tags"@.len() == 4 && "priority"@.len() == 8);
    let fields = published_model(n)->Object_0;
    lookup_steps(fields, "status"@, 0);
    lookup_steps(fields, "need"@, 1);
    let inner = fields[1].1->Object_0;
    lookup_steps(inner, "id"@, 0);
    lookup_steps(inner, "description"@, 1);
    lookup_steps(inner, "tags"@, 2);
    lookup_steps(inner, "priority"@, 3);
    text_list_holds_its_texts(texts(n.tags@));
}

/// The needs of another workspace are told with its address and as its card lists them.
pub proof fn browsed_needs_are_told(url: Seq<char>, card: JsonModel)
    ensures
        browsed_model(url, card).text_field("agent"@) == Some(text_or(card, "name"@, "unknown"@)),
        browsed_model(url, card).text_field("url"@) == Some(url),
        browsed_model(url, card).get("needs"@) == Some((match card.get("needs"@) { Some(v) => v, None => JsonModel::List(Seq::empty()) })),
{
    reveal_strlit("agent");
    reveal_strlit("url");
    reveal_strlit("needs");
    assert("agent"@.len() == 5 && "url"@.len() == 3 && "needs"@.len() == 5);
    assert("agent"@[0] != "needs"@[0]);
    let fields = browsed_model(url, card)->Object_0;
    lookup_steps(fields, "agent"@, 0);
    lookup_steps(fields, "url"@, 1);
    lookup_steps(fields, "needs"@, 2);
}

/// A proposal is a task for the need, names it, and holds the proposal.
pub proof fn proposal_names_its_need(need_id: Seq<char>, proposal: Seq<char>)
    ensures
        ({
            let p = JsonModel::Object(proposal_params(need_id, proposal));
            &&& p.text_field("skill"@) == Some(need_id)
            &&& p.text_field("message"@) matches Some(t) && contains_spec(t, proposal)
                && contains_spec(t, need_id)
            &&& p.at("metadata"@).text_field("need_id"@) == Some(need_id)
            &&& p.at("metadata"@).text_field("type"@) == Some("need_proposal"@)
        }),
{
    reveal_strlit("skill");
    reveal_strlit("message");
    reveal_strlit("metadata");
    assert("skill"@.len() == 5 && "message"@.len() == 7 && "metadata"@.len() == 8);
    reveal_strlit("type");
    reveal_strlit("need_id");
    assert("type"@.len() == 4 && "need_id"@.len() == 7);
    let fields = proposal_params(need_id, proposal);
    lookup_steps(fields, "skill"@, 0);
    lookup_steps(fields, "message"@, 1);
    lookup_steps(fields, "metadata"@, 2);
    let meta = fields[2].1->Object_0;
    lookup_steps(meta, "type"@, 0);
    lookup_steps(meta, "need_id"@, 1);
    let a = "Proposal for need '"@;
    let b = "': "@;
    part_occurs(a, need_id, b + proposal);
    assert(a + need_id + b + proposal =~= a + need_id + (b + proposal));
    part_occurs(a + need_id + b, proposal, Seq::empty());
    assert(a + need_id + b + proposal =~= (a + need_id + b) + proposal + Seq::<char>::empty());
}

/// The id of a need is made of the first four words of its description, or of all where
/// there are fewer.
pub proof fn ids_are_made_of_four_words(s: Seq<char>)
    ensures
        ({
            let w = words_spec(s);
            &&& w.len() == 0 ==> first_words(s).len() == 0
            &&& w.len() == 1 ==> first_words(s) == w[0]
            &&& w.len() == 2 ==> first_words(s) == w[0] + "-"@ + w[1]
            &&& w.len() == 3 ==> first_words(s) == w[0] + "-"@ + w[1] + "-"@ + w[2]
            &&& w.len() >= 4 ==> first_words(s) == w[0] + "-"@ + w[1] + "-"@ + w[2] + "-"@ + w[3]
        }),
{
    reveal_with_fuel(join_spec, 5);
}

/// A proposal that was taken is told with its need and what the other side made of it.
pub proof fn taken_proposals_are_told(need_id: Seq<char>, reply: RemoteReply, r: Result<Json, String>)
    requires
        finishes_proposal(need_id, reply, r),
    ensures
        reply is Refused ==> r is Err,
        r is Ok <==> (reply matches RemoteReply::Body(b) && b@.get("error"@) is None),
        r matches Ok(v) ==> v@.text_field("status"@) == Some("proposed"@) && v@.text_field("need_id"@)
            == Some(need_id) && v@.get("result"@) == Some(reply->Body_0@.at("result"@)),
{
    if let Ok(v) = r {
        reveal_strlit("status");
        reveal_strlit("need_id");
        reveal_strlit("result");
        assert("status"@.len() == 6 && "need_id"@.len() == 7 && "result"@.len() == 6);
        assert("status"@[0] != "result"@[0]);
        let fields = v@->Object_0;
        lookup_steps(fields, "status"@, 0);
        lookup_steps(fields, "need_id"@, 1);
        lookup_steps(fields, "result"@, 2);
    }
}

} // verus!
