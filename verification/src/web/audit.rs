//! Entries of the audit log.
use crate::json::{opt_number_model, Fields, Json, JsonModel};
use crate::json_text::{line_text, write_line};
use crate::text::{cat3, opt_text, strip_prefix, strip_prefix_spec};
use crate::message::{lookup_absent, lookup_steps};
use vstd::prelude::*;
use vstd::string::*;

verus! {

/// The kinds of audited events.
#[derive(Debug, Clone, Copy, PartialEq, Eq)]
pub enum Event {
    /// A login link was requested.
    LoginRequest,
    /// A login link was used.
    LoginConsume,
    /// A login failed.
    LoginFailed,
    /// A session was ended.
    Logout,
    /// An agent was asked to restart.
    AgentRestart,
    /// An agent was asked to compact its context.
    AgentCompact,
    /// An agent was asked to stop.
    AgentStop,
}

impl Event {
    /// The name of the event in the log.
    pub open spec fn name(self) -> Seq<char> {
        match self {
            Event::LoginRequest => "login_request"@,
            Event::LoginConsume => "login_consume"@,
            Event::LoginFailed => "login_failed"@,
            Event::Logout => "logout"@,
            Event::AgentRestart => "agent_restart"@,
            Event::AgentCompact => "agent_compact"@,
            Event::AgentStop => "agent_stop"@,
        }
    }

    /// The name of the event in the log.
    pub fn as_str(self) -> (r: &'static str)
        ensures
            r@ == self.name(),
    {
        match self {
            Event::LoginRequest => "login_request",
            Event::LoginConsume => "login_consume",
            Event::LoginFailed => "login_failed",
            Event::Logout => "logout",
            Event::AgentRestart => "agent_restart",
            Event::AgentCompact => "agent_compact",
            Event::AgentStop => "agent_stop",
        }
    }
}

/// An entry of the audit log.
#[derive(Debug, Clone)]
pub struct AuditEntry {
    pub ts: String,
    pub event: Event,
    pub telegram_id: Option<i64>,
    pub ip: String,
    pub ua: String,
    pub ok: bool,
    /// Why the event failed.
    pub reason: Option<String>,
    /// The agent that the event is about.
    pub agent: Option<String>,
}

/// A text field, where there is a text.
pub open spec fn text_part(key: Seq<char>, o: Option<Seq<char>>) -> Seq<(Seq<char>, JsonModel)> {
    match o {
        Some(t) => seq![(key, JsonModel::Text(t))],
        None => Seq::empty(),
    }
}

/// The number of an optional identifier.
pub open spec fn opt_id(o: Option<i64>) -> Option<int> {
    match o {
        Some(n) => Some(n as int),
        None => None,
    }
}

/// The JSON form of an entry. `reason` and `agent` are left out where there is
/// none.
pub open spec fn entry_model(e: AuditEntry) -> JsonModel {
    JsonModel::Object(
        seq![
            ("ts"@, JsonModel::Text(e.ts@)),
            ("event"@, JsonModel::Text(e.event.name())),
            ("telegram_id"@, opt_number_model(opt_id(e.telegram_id))),
            ("ip"@, JsonModel::Text(e.ip@)),
            ("ua"@, JsonModel::Text(e.ua@)),
            ("ok"@, JsonModel::Bool(e.ok)),
        ] + text_part("reason"@, opt_text(e.reason)) + text_part("agent"@, opt_text(e.agent)),
    )
}

impl AuditEntry {
    /// The JSON form of the entry.
    pub fn to_json(&self) -> (r: Json)
        ensures
            r@ == entry_model(*self),
    {
        let mut f = Fields::new();
        f.put_text("ts", &self.ts);
        f.put_text("event", self.event.as_str());
        f.put(
            "telegram_id",
            match self.telegram_id {
                Some(n) => Json::Number(n as i128),
                None => Json::Null,
            },
        );
        f.put_text("ip", &self.ip);
        f.put_text("ua", &self.ua);
        f.put("ok", Json::Bool(self.ok));
        match &self.reason {
            Some(t) => {
                f.put_text("reason", t);
            },
            None => {},
        }
        match &self.agent {
            Some(t) => {
                f.put_text("agent", t);
            },
            None => {},
        }
        assert(f@ =~= entry_model(*self)->Object_0);
        f.object()
    }

    /// The line of the entry in the log.
    pub fn to_line(&self) -> (r: String)
        ensures
            r@ == line_text(entry_model(*self)),
    {
        write_line(&self.to_json())
    }
}

/// A path joined to a directory: an absolute path replaces it.
pub open spec fn join_path(dir: Seq<char>, path: Seq<char>) -> Seq<char> {
    if path.len() > 0 && path[0] == '/' {
        path
    } else if dir.len() == 0 || dir.last() == '/' {
        dir + path
    } else {
        dir + "/"@ + path
    }
}

/// A path joined to a directory.
pub(crate) fn join(dir: &str, path: &str) -> (r: String)
    ensures
        r@ == join_path(dir@, path@),
{
    let d: usize = dir.unicode_len();
    if path.unicode_len() > 0 && path.get_char(0) == '/' {
        String::from_str(path)
    } else if d == 0 || dir.get_char(d - 1) == '/' {
        crate::text::cat(dir, path)
    } else {
        cat3(dir, "/", path)
    }
}

/// A path in which `~/` at the start stands for the home directory. Without a
/// home directory it stands for the current one.
pub open spec fn expanded(path: Seq<char>, home: Option<Seq<char>>) -> Seq<char> {
    match strip_prefix_spec(path, "~/"@) {
        Some(rest) => join_path(
            match home {
                Some(h) => h,
                None => "."@,
            },
            rest,
        ),
        None => path,
    }
}

/// A path in which `~/` at the start stands for the home directory.
pub fn expand_home(path: &str, home: Option<&str>) -> (r: String)
    ensures
        r@ == expanded(path@, crate::text::opt_str(home)),
{
    match strip_prefix(path, "~/") {
        Some(rest) => join(
            match home {
                Some(h) => h,
                None => ".",
            },
            rest,
        ),
        None => String::from_str(path),
    }
}

/// An entry of the audit log tells when, what, from where, with what and whether it went
/// well; why not, and which agent it was about, where that is known.
pub proof fn audit_entries_are_told_in_full(e: AuditEntry)
    ensures
        entry_model(e).text_field("ts"@) == Some(e.ts@),
        entry_model(e).text_field("event"@) == Some(e.event.name()),
        entry_model(e).text_field("ip"@) == Some(e.ip@),
        entry_model(e).text_field("ua"@) == Some(e.ua@),
        entry_model(e).bool_field("ok"@) == Some(e.ok),
        entry_model(e).text_field("reason"@) == opt_text(e.reason),
        entry_model(e).text_field("agent"@) == opt_text(e.agent),
        e.telegram_id matches Some(n) ==> entry_model(e).get("telegram_id"@) == Some(
            JsonModel::Number(n as int),
        ),
{
    reveal_strlit("ts");
    reveal_strlit("event");
    reveal_strlit("telegram_id");
    reveal_strlit("ip");
    reveal_strlit("ua");
    reveal_strlit("ok");
    reveal_strlit("reason");
    reveal_strlit("agent");
    assert("ts"@.len() == 2 && "event"@.len() == 5 && "telegram_id"@.len() == 11 && "ip"@.len() == 2 && "ua"@.len() == 2 && "ok"@.len() == 2 && "reason"@.len() == 6 && "agent"@.len() == 5);
    assert("ts"@[0] != "ip"@[0]);
    assert("ts"@[0] != "ua"@[0]);
    assert("ts"@[0] != "ok"@[0]);
    assert("event"@[0] != "agent"@[0]);
    assert("ip"@[0] != "ua"@[0]);
    assert("ip"@[0] != "ok"@[0]);
    assert("ua"@[0] != "ok"@[0]);
    let fields = entry_model(e)->Object_0;
    lookup_steps(fields, "ts"@, 0);
    lookup_steps(fields, "event"@, 1);
    lookup_steps(fields, "telegram_id"@, 2);
    lookup_steps(fields, "ip"@, 3);
    lookup_steps(fields, "ua"@, 4);
    lookup_steps(fields, "ok"@, 5);
    let n: int = if e.reason is Some {
        1
    } else {
        0
    };
    if e.reason is Some {
        lookup_steps(fields, "reason"@, 6);
    } else {
        lookup_absent(fields, "reason"@);
    }
    if e.agent is Some {
        lookup_steps(fields, "agent"@, 6 + n);
    } else {
        lookup_absent(fields, "agent"@);
    }
}

/// No two events have the same name.
pub proof fn events_have_names_of_their_own(a: Event, b: Event)
    ensures
        a.name() == b.name() ==> a == b,
{
    reveal_strlit("login_request");
    reveal_strlit("login_consume");
    reveal_strlit("login_failed");
    reveal_strlit("logout");
    reveal_strlit("agent_restart");
    reveal_strlit("agent_compact");
    reveal_strlit("agent_stop");
    assert("login_request"@.len() == 13 && "login_consume"@.len() == 13 && "login_failed"@.len() == 12 && "logout"@.len() == 6 && "agent_restart"@.len() == 13 && "agent_compact"@.len() == 13 && "agent_stop"@.len() == 10);
    assert("login_request"@[6] != "login_consume"@[6]);
    assert("login_request"@[0] != "agent_restart"@[0]);
    assert("login_request"@[0] != "agent_compact"@[0]);
    assert("login_consume"@[0] != "agent_restart"@[0]);
    assert("login_consume"@[0] != "agent_compact"@[0]);
    assert("agent_restart"@[6] != "agent_compact"@[6]);
}

/// A path below the home sign lies in the home directory; any other path stays.
pub proof fn home_sign_is_the_home_directory(rest: Seq<char>, home: Seq<char>, path: Seq<char>)
    ensures
        expanded("~/"@ + rest, Some(home)) == join_path(home, rest),
        !(path.len() >= 2 && path.take(2) == "~/"@) ==> expanded(path, Some(home)) == path,
{
    reveal_strlit("~/");
    let s = "~/"@ + rest;
    assert(s.take(2) =~= "~/"@);
    assert(s.skip(2) =~= rest);
}

/// A relative path is joined to its directory by one slash, and an absolute one stands for
/// itself.
pub proof fn paths_are_joined_by_a_slash(dir: Seq<char>, path: Seq<char>)
    ensures
        path.len() > 0 && path[0] == '/' ==> join_path(dir, path) == path,
        (path.len() == 0 || path[0] != '/') && dir.len() > 0 && dir.last() != '/' ==> join_path(
            dir,
            path,
        ) == dir + "/"@ + path,
        (path.len() == 0 || path[0] != '/') && dir.len() > 0 && dir.last() == '/' ==> join_path(
            dir,
            path,
        ) == dir + path,
{
}

} // verus!
