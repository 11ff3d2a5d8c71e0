//! The terminal interface: its state, its keys, and what it shows.
use crate::decimal::{decimal, show_usize};
use crate::json::{Json, JsonModel};
use crate::json_text::{compact, compact_text, parse, parsed_json};
use crate::mcp_protocol::{register, register_model};
use crate::mcp_service::{QueueTask, SmInstance, TaskStatus};
use crate::mcp_tools::reply::{read_text_or, text_or};
use crate::tasklog::last_n;
use crate::text::{
    byte_len, byte_prefix, byte_prefix_spec, cat, cat3, cat5, chars_of, is_control_char, le,
    pad_left, pad_left_spec, pad_right, pad_right_spec, same, text_le, text_le_total,
    text_le_transitive, texts, trim, trim_spec, utf8_len,
};
use std::collections::VecDeque;
use crate::message::lookup_steps;
use vstd::prelude::*;
use vstd::string::*;

verus! {

/// The most bus messages that are kept.
pub const MAX_BUS_MESSAGES: usize = 500;

/// A message of the bus as it is shown.
#[derive(Debug, Clone, PartialEq)]
pub struct BusEvent {
    pub timestamp: String,
    pub source: String,
    pub target: String,
    pub payload_preview: String,
}

/// An agent as it is shown.
#[derive(Debug, Clone, PartialEq)]
pub struct AgentInfo {
    pub name: String,
    pub status: String,
    pub current_task: String,
    /// What the agent cost, as a decimal number.
    pub cost_usd: String,
    pub turns: u32,
}

/// What is on the screen.
#[derive(Debug, Clone, Copy, PartialEq, Eq, Structural)]
pub enum Screen {
    Dashboard,
    BusStream,
}

/// A key.
#[derive(Debug, Clone, Copy, PartialEq, Eq)]
pub enum Key {
    /// A character, and whether shift was held.
    Char(char, bool),
    Up,
    Down,
    Other,
}

/// The state of the interface.
#[derive(Debug)]
pub struct App {
    pub view: Screen,
    pub agents: Vec<AgentInfo>,
    /// The last messages of the bus, oldest first.
    pub bus_messages: VecDeque<BusEvent>,
    /// The numbers of pending, active and done tasks.
    pub task_summary: (usize, usize, usize),
    /// The id, the model and the state of each running state machine instance.
    pub workflow_summary: Vec<(String, String, String)>,
    pub bus_scroll: usize,
    pub follow_mode: bool,
    pub should_quit: bool,
    pub should_quit_all: bool,
}

/// The last position in a list of a length; zero in an empty one.
pub open spec fn last_position(len: nat) -> nat {
    if len == 0 {
        0
    } else {
        (len - 1) as nat
    }
}

fn last_of(len: usize) -> (r: usize)
    ensures
        r == last_position(len as nat),
{
    if len == 0 {
        0
    } else {
        len - 1
    }
}

/// Whether `after` is a screen that has taken an event.
pub open spec fn takes_event(before: App, event: BusEvent, after: App) -> bool {
    &&& after.bus_messages@ == last_n(before.bus_messages@.push(event), MAX_BUS_MESSAGES as nat)
    &&& after.bus_scroll == (if before.follow_mode {
        after.bus_messages@.len() - 1
    } else {
        before.bus_scroll as int
    })
}

impl App {
    /// Whether no more messages are kept than there may be, and the scroll
    /// position is that of a message.
    pub open spec fn wf(self) -> bool {
        &&& self.bus_messages@.len() <= MAX_BUS_MESSAGES
        &&& self.bus_scroll <= last_position(self.bus_messages@.len())
    }

    /// The state at the start: the dashboard, nothing known, and following the
    /// bus.
    pub fn new() -> (r: App)
        ensures
            r.wf(),
            r.view == Screen::Dashboard,
            r.agents@.len() == 0,
            r.bus_messages@.len() == 0,
            r.task_summary == (0usize, 0usize, 0usize),
            r.workflow_summary@.len() == 0,
            r.bus_scroll == 0,
            r.follow_mode,
            !r.should_quit,
            !r.should_quit_all,
    {
        App {
            view: Screen::Dashboard,
            agents: Vec::new(),
            bus_messages: VecDeque::with_capacity(MAX_BUS_MESSAGES),
            task_summary: (0, 0, 0),
            workflow_summary: Vec::new(),
            bus_scroll: 0,
            follow_mode: true,
            should_quit: false,
            should_quit_all: false,
        }
    }

    /// Adds a message of the bus. The oldest gives way where there are too many.
    /// In follow mode the last message is in view.
    pub fn push_bus_event(&mut self, event: BusEvent)
        requires
            old(self).wf(),
        ensures
            final(self).wf(),
            takes_event(*old(self), event, *final(self)),
            final(self).view == old(self).view,
            final(self).agents == old(self).agents,
            final(self).task_summary == old(self).task_summary,
            final(self).workflow_summary == old(self).workflow_summary,
            final(self).follow_mode == old(self).follow_mode,
            final(self).should_quit == old(self).should_quit,
            final(self).should_quit_all == old(self).should_quit_all,
    {
        let ghost before = self.bus_messages@;
        if self.bus_messages.len() >= MAX_BUS_MESSAGES {
            let _ = self.bus_messages.pop_front();
        }
        self.bus_messages.push_back(event);
        assert(self.bus_messages@ =~= last_n(before.push(event), MAX_BUS_MESSAGES as nat));
        if self.follow_mode {
            self.bus_scroll = last_of(self.bus_messages.len());
        }
    }

    /// The state after a key.
    pub open spec fn after_key(self, key: Key) -> App {
        let last = last_position(self.bus_messages@.len()) as usize;
        match key {
            Key::Char('q', false) => App { should_quit: true, ..self },
            Key::Char('q', true) => App { should_quit_all: true, ..self },
            Key::Char('Q', _) => App { should_quit_all: true, ..self },
            Key::Char('1', _) => App { view: Screen::Dashboard, ..self },
            Key::Char('2', _) => App { view: Screen::BusStream, ..self },
            Key::Char('j', _) | Key::Down => App {
                follow_mode: false,
                bus_scroll: if self.view == Screen::BusStream && self.bus_scroll < last {
                    (self.bus_scroll + 1) as usize
                } else {
                    self.bus_scroll
                },
                ..self
            },
            Key::Char('k', _) | Key::Up => App {
                follow_mode: false,
                bus_scroll: if self.view == Screen::BusStream && self.bus_scroll > 0 {
                    (self.bus_scroll - 1) as usize
                } else {
                    self.bus_scroll
                },
                ..self
            },
            Key::Char('G', _) => App { follow_mode: true, bus_scroll: last, ..self },
            Key::Char('g', _) => App { follow_mode: false, bus_scroll: 0, ..self },
            Key::Char('f', _) => App {
                follow_mode: !self.follow_mode,
                bus_scroll: if self.follow_mode {
                    self.bus_scroll
                } else {
                    last
                },
                ..self
            },
            _ => self,
        }
    }

    /// Follows a key.
    pub fn handle_key(&mut self, key: Key)
        requires
            old(self).wf(),
        ensures
            *final(self) == old(self).after_key(key),
            final(self).wf(),
    {
        let last: usize = last_of(self.bus_messages.len());
        match key {
            Key::Char('q', shift) => {
                if shift {
                    self.should_quit_all = true;
                } else {
                    self.should_quit = true;
                }
            },
            Key::Char('Q', _) => {
                self.should_quit_all = true;
            },
            Key::Char('1', _) => {
                self.view = Screen::Dashboard;
            },
            Key::Char('2', _) => {
                self.view = Screen::BusStream;
            },
            Key::Char('j', _) | Key::Down => {
                self.follow_mode = false;
                if self.view == Screen::BusStream && self.bus_scroll < last {
                    self.bus_scroll = self.bus_scroll + 1;
                }
            },
            Key::Char('k', _) | Key::Up => {
                self.follow_mode = false;
                if self.view == Screen::BusStream && self.bus_scroll > 0 {
                    self.bus_scroll = self.bus_scroll - 1;
                }
            },
            Key::Char('G', _) => {
                self.follow_mode = true;
                self.bus_scroll = last;
            },
            Key::Char('g', _) => {
                self.follow_mode = false;
                self.bus_scroll = 0;
            },
            Key::Char('f', _) => {
                self.follow_mode = !self.follow_mode;
                if self.follow_mode {
                    self.bus_scroll = last;
                }
            },
            _ => {},
        }
    }

    /// Whether the interface ends.
    pub fn is_over(&self) -> (r: bool)
        ensures
            r == (self.should_quit || self.should_quit_all),
    {
        self.should_quit || self.should_quit_all
    }
}

impl Default for App {
    fn default() -> (r: App)
        ensures
            r.wf(),
            r.view == Screen::Dashboard,
            r.bus_messages@.len() == 0,
            r.bus_scroll == 0,
            r.follow_mode,
            !r.should_quit,
            !r.should_quit_all,
    {
        App::new()
    }
}

/// A key that asks to quit is never taken back by another key.
pub proof fn quitting_is_final(app: App, key: Key)
    ensures
        app.should_quit ==> app.after_key(key).should_quit,
        app.should_quit_all ==> app.after_key(key).should_quit_all,
{
}

/// To toggle follow mode twice gives the same mode.
pub proof fn toggling_twice_keeps_the_mode(app: App, shift: bool)
    ensures
        app.after_key(Key::Char('f', shift)).after_key(Key::Char('f', shift)).follow_mode
            == app.follow_mode,
{
}

// ─── The bus ────────────────────────────────────────────────────────────────

/// The registration of the interface on a bus: for all messages.
pub fn registration() -> (r: Json)
    ensures
        r@ == register_model("tui"@, seq!["*"@]),
{
    let mut all: Vec<String> = Vec::new();
    all.push(String::from_str("*"));
    assert(texts(all@) =~= seq!["*"@]);
    register("tui", &all)
}

/// `s` without control characters.
pub open spec fn printable(s: Seq<char>) -> Seq<char>
    decreases s.len(),
{
    if s.len() == 0 {
        s
    } else {
        let head = printable(s.drop_last());
        if is_control_char(s.last()) {
            head
        } else {
            head.push(s.last())
        }
    }
}

/// `s` without control characters, and cut to at most `max` bytes: then an
/// ellipsis follows.
pub open spec fn preview(s: Seq<char>, max: nat) -> Seq<char> {
    let clean = printable(s);
    if byte_len(clean) <= max {
        clean
    } else {
        byte_prefix_spec(clean, max) + "…"@
    }
}

/// `s` without control characters, and cut to at most `max` bytes: then an
/// ellipsis follows.
pub fn truncate(s: &str, max: usize) -> (r: String)
    ensures
        r@ == preview(s@, max as nat),
{
    let chars = chars_of(s);
    let mut clean = String::new();
    let mut i: usize = 0;
    assert(clean@ =~= printable(s@.take(0)));
    while i < chars.len()
        invariant
            i <= chars@.len(),
            chars@ == s@,
            clean@ == printable(s@.take(i as int)),
        decreases chars@.len() - i,
    {
        assert(s@.take(i + 1).drop_last() =~= s@.take(i as int));
        assert(s@.take(i + 1).last() == s@[i as int]);
        if !chars[i].is_control() {
            clean.push(chars[i]);
        }
        i += 1;
    }
    assert(s@.take(i as int) =~= s@);
    if utf8_len(&clean) <= max {
        clean
    } else {
        cat(byte_prefix(&clean, max), "…")
    }
}

/// What is shown never holds a control character.
pub proof fn previews_are_printable(s: Seq<char>, i: int)
    requires
        0 <= i < printable(s).len(),
    ensures
        !is_control_char(printable(s)[i]),
    decreases s.len(),
{
    if s.len() > 0 && i < printable(s.drop_last()).len() {
        previews_are_printable(s.drop_last(), i);
    }
}

/// The text of a payload: its task, its text, or all of it.
pub open spec fn payload_text(payload: JsonModel) -> Seq<char> {
    match payload.text_field("task"@) {
        Some(t) => t,
        None => match payload.text_field("text"@) {
            Some(t) => t,
            None => compact_text(payload),
        },
    }
}

/// The start of a payload.
pub fn payload_preview(payload: &Json) -> (r: String)
    ensures
        r@ == preview(payload_text(payload@), 80),
{
    match payload.text_field("task") {
        Some(t) => {
            return truncate(t, 80);
        },
        None => {},
    }
    match payload.text_field("text") {
        Some(t) => {
            return truncate(t, 80);
        },
        None => {},
    }
    truncate(&compact(payload), 80)
}

/// The event that a JSON value brings at a time. Only messages do.
pub fn read_event(v: &Json, timestamp: &str) -> (r: Option<BusEvent>)
    ensures
        brings(r, v@, timestamp@),
{
    let is_message: bool = match v.text_field("type") {
        Some(t) => same(t, "message"),
        None => false,
    };
    if !is_message {
        return None;
    }
    let payload_preview = match v.get("payload") {
        Some(p) => payload_preview(p),
        None => payload_preview(&Json::Null),
    };
    Some(
        BusEvent {
            timestamp: String::from_str(timestamp),
            source: String::from_str(read_text_or(v, "source", "?")),
            target: String::from_str(read_text_or(v, "target", "?")),
            payload_preview,
        },
    )
}

/// Whether an event is the one that a JSON value brings at a time.
pub open spec fn brings(r: Option<BusEvent>, v: JsonModel, timestamp: Seq<char>) -> bool {
    if v.text_field("type"@) == Some("message"@) {
        r matches Some(e) && e.timestamp@ == timestamp && e.source@ == text_or(
            v,
            "source"@,
            "?"@,
        ) && e.target@ == text_or(v, "target"@, "?"@) && e.payload_preview@ == preview(
            payload_text(v.at("payload"@)),
            80,
        )
    } else {
        r is None
    }
}

/// The event that a line of the bus brings at a time.
pub fn read_line(line: &str, timestamp: &str) -> (r: Option<BusEvent>)
    ensures
        match parsed_json(trim_spec(line@)) {
            Some(v) => brings(r, v, timestamp@),
            None => r is None,
        },
{
    match parse(trim(line)) {
        Some(v) => read_event(&v, timestamp),
        None => None,
    }
}

// ─── Summaries ──────────────────────────────────────────────────────────────

/// The number of agents at the start whose names come before `name`.
pub open spec fn before_name(s: Seq<AgentInfo>, name: Seq<char>) -> nat
    decreases s.len(),
{
    if s.len() == 0 || text_le(name, s[0].name@) {
        0
    } else {
        1 + before_name(s.skip(1), name)
    }
}

/// Agents by name; those of the same name keep their order.
pub open spec fn by_name(s: Seq<AgentInfo>) -> Seq<AgentInfo>
    decreases s.len(),
{
    if s.len() == 0 {
        s
    } else {
        let rest = by_name(s.skip(1));
        rest.insert(before_name(rest, s[0].name@) as int, s[0])
    }
}

/// Whether agents are in the order of their names.
pub open spec fn name_order(s: Seq<AgentInfo>) -> bool {
    forall|i: int, j: int|
        0 <= i < j < s.len() ==> text_le((#[trigger] s[i]).name@, (#[trigger] s[j]).name@)
}

proof fn before_name_bounds(s: Seq<AgentInfo>, name: Seq<char>)
    ensures
        before_name(s, name) <= s.len(),
        forall|i: int| 0 <= i < before_name(s, name) ==> !text_le(name, (#[trigger] s[i]).name@),
        before_name(s, name) < s.len() ==> text_le(name, s[before_name(s, name) as int].name@),
    decreases s.len(),
{
    if s.len() > 0 && !text_le(name, s[0].name@) {
        let t = s.skip(1);
        before_name_bounds(t, name);
        assert forall|i: int| 0 <= i < before_name(s, name) implies !text_le(
            name,
            (#[trigger] s[i]).name@,
        ) by {
            if i > 0 {
                assert(t[i - 1] == s[i]);
            }
        }
        if before_name(s, name) < s.len() {
            assert(t[before_name(t, name) as int] == s[before_name(s, name) as int]);
        }
    }
}

/// The list of agents is in the order of their names.
pub proof fn agents_are_listed_by_name(s: Seq<AgentInfo>)
    ensures
        name_order(by_name(s)),
        by_name(s).len() == s.len(),
    decreases s.len(),
{
    if s.len() > 0 {
        let rest = by_name(s.skip(1));
        agents_are_listed_by_name(s.skip(1));
        let x = s[0];
        before_name_bounds(rest, x.name@);
        let k = before_name(rest, x.name@) as int;
        let all = by_name(s);
        assert forall|i: int, j: int| 0 <= i < j < all.len() implies text_le(
            (#[trigger] all[i]).name@,
            (#[trigger] all[j]).name@,
        ) by {
            if j < k {
                assert(all[i] == rest[i] && all[j] == rest[j]);
            } else if j == k {
                assert(all[i] == rest[i] && all[j] == x);
                text_le_total(rest[i].name@, x.name@);
            } else {
                assert(all[j] == rest[j - 1]);
                if i < k {
                    assert(all[i] == rest[i]);
                } else if i > k {
                    assert(all[i] == rest[i - 1]);
                } else {
                    assert(all[i] == x);
                    if j - 1 > k {
                        text_le_transitive(x.name@, rest[k].name@, rest[j - 1].name@);
                    }
                }
            }
        }
    }
}

/// The agents to show, by name.
pub fn refresh_agents(infos: Vec<AgentInfo>) -> (r: Vec<AgentInfo>)
    ensures
        r@ == by_name(infos@),
{
    let ghost s = infos@;
    let mut rest = infos;
    let mut out: Vec<AgentInfo> = Vec::new();
    assert(s.skip(s.len() as int) =~= Seq::<AgentInfo>::empty());
    assert(s.take(s.len() as int) =~= s);
    loop
        invariant
            rest@ == s.take(rest@.len() as int),
            rest@.len() <= s.len(),
            out@ == by_name(s.skip(rest@.len() as int)),
        ensures
            out@ == by_name(s),
        decreases rest@.len(),
    {
        let ghost n = rest@.len() as int;
        match rest.pop() {
            Some(x) => {
                proof {
                    assert(x == s[n - 1]);
                    assert(s.skip(n - 1).skip(1) =~= s.skip(n));
                    assert(s.skip(n - 1)[0] == x);
                    assert(rest@ =~= s.take(n - 1));
                }
                let ghost sorted = out@;
                let mut k: usize = 0;
                assert(sorted.skip(0) =~= sorted);
                while k < out.len() && !le(&x.name, &out[k].name)
                    invariant
                        k <= out@.len(),
                        out@ == sorted,
                        before_name(sorted, x.name@) == k + before_name(
                            sorted.skip(k as int),
                            x.name@,
                        ),
                    decreases out@.len() - k,
                {
                    assert(sorted.skip(k as int)[0] == sorted[k as int]);
                    assert(sorted.skip(k as int).skip(1) =~= sorted.skip(k + 1));
                    k += 1;
                }
                proof {
                    if k < sorted.len() {
                        assert(sorted.skip(k as int)[0] == sorted[k as int]);
                    }
                }
                out.insert(k, x);
            },
            None => {
                assert(s.skip(0) =~= s);
                break;
            },
        }
    }
    out
}

/// The statuses whose tasks are counted, in the order in which they are shown.
pub fn counted_statuses() -> (r: (TaskStatus, TaskStatus, TaskStatus))
    ensures
        r == (TaskStatus::Pending, TaskStatus::Active, TaskStatus::Done),
{
    (TaskStatus::Pending, TaskStatus::Active, TaskStatus::Done)
}

/// The number of tasks in a list; none where the list could not be had.
pub open spec fn listed(tasks: Option<&Vec<QueueTask>>) -> nat {
    match tasks {
        Some(v) => v@.len(),
        None => 0,
    }
}

fn count_listed(tasks: Option<&Vec<QueueTask>>) -> (r: usize)
    ensures
        r == listed(tasks),
{
    match tasks {
        Some(v) => v.len(),
        None => 0,
    }
}

/// The numbers of pending, active and done tasks, from the lists of each. A list
/// that could not be had counts as empty and leaves the others as they are.
pub fn refresh_tasks(
    pending: Option<&Vec<QueueTask>>,
    active: Option<&Vec<QueueTask>>,
    done: Option<&Vec<QueueTask>>,
) -> (r: (usize, usize, usize))
    ensures
        r.0 == listed(pending),
        r.1 == listed(active),
        r.2 == listed(done),
{
    (count_listed(pending), count_listed(active), count_listed(done))
}

/// Whether a state ends a workflow.
pub open spec fn is_final_state(s: Seq<char>) -> bool {
    s == "done"@ || s == "merged"@ || s == "cancelled"@ || s == "rejected"@ || s == "closed"@
}

/// The first twelve bytes of an identifier, and an ellipsis where there are more.
pub open spec fn short_id(id: Seq<char>) -> Seq<char> {
    if byte_len(id) > 12 {
        byte_prefix_spec(id, 12) + "…"@
    } else {
        id
    }
}

/// The id, the model and the state of the workflows that run, in order.
pub open spec fn workflows(v: Seq<SmInstance>) -> Seq<(Seq<char>, Seq<char>, Seq<char>)>
    decreases v.len(),
{
    if v.len() == 0 {
        Seq::empty()
    } else {
        let head = workflows(v.drop_last());
        if is_final_state(v.last().state@) {
            head
        } else {
            head.push((short_id(v.last().id@), v.last().model@, v.last().state@))
        }
    }
}

/// The contents of triples of strings.
pub open spec fn triples(v: Seq<(String, String, String)>) -> Seq<
    (Seq<char>, Seq<char>, Seq<char>),
> {
    Seq::new(v.len(), |i: int| (v[i].0@, v[i].1@, v[i].2@))
}

/// The id, the model and the state of the workflows that run.
pub fn refresh_workflows(instances: &Vec<SmInstance>) -> (r: Vec<(String, String, String)>)
    ensures
        triples(r@) == workflows(instances@),
{
    let mut out: Vec<(String, String, String)> = Vec::new();
    let mut i: usize = 0;
    assert(triples(out@) =~= workflows(instances@.take(0)));
    while i < instances.len()
        invariant
            i <= instances@.len(),
            triples(out@) == workflows(instances@.take(i as int)),
        decreases instances@.len() - i,
    {
        assert(instances@.take(i + 1).drop_last() =~= instances@.take(i as int));
        assert(instances@.take(i + 1).last() == instances@[i as int]);
        let x = &instances[i];
        let ended: bool = same(&x.state, "done") || same(&x.state, "merged") || same(
            &x.state,
            "cancelled",
        ) || same(&x.state, "rejected") || same(&x.state, "closed");
        if !ended {
            let ghost before = triples(out@);
            let id = if utf8_len(&x.id) > 12 {
                cat(byte_prefix(&x.id, 12), "…")
            } else {
                x.id.clone()
            };
            out.push((id, x.model.clone(), x.state.clone()));
            assert(triples(out@) =~= before.push((short_id(x.id@), x.model@, x.state@)));
        }
        i += 1;
    }
    assert(instances@.take(i as int) =~= instances@);
    out
}

// ─── Panels ─────────────────────────────────────────────────────────────────

/// A colour.
#[derive(Debug, Clone, Copy, PartialEq, Eq)]
pub enum Tone {
    Green,
    DarkGray,
    Yellow,
}

/// The colour of a status.
pub open spec fn tone_of(status: Seq<char>) -> Tone {
    if status == "working"@ {
        Tone::Green
    } else if status == "idle"@ {
        Tone::DarkGray
    } else {
        Tone::Yellow
    }
}

/// An agent in its panel: the colour of its status, its status, and its name with
/// the start of its task.
pub fn agent_item(a: &AgentInfo) -> (r: (Tone, String, String))
    ensures
        r.0 == tone_of(a.status@),
        r.1@ == " "@ + pad_left_spec(a.status@, 8) + " "@,
        r.2@ == a.name@ + (if a.current_task@.len() == 0 {
            Seq::empty()
        } else {
            " — "@ + preview(a.current_task@, 30)
        }),
{
    let tone = if same(&a.status, "working") {
        Tone::Green
    } else if same(&a.status, "idle") {
        Tone::DarkGray
    } else {
        Tone::Yellow
    };
    let status = cat3(" ", &pad_left(&a.status, 8), " ");
    let task = if a.current_task.as_str().is_empty() {
        String::new()
    } else {
        cat(" — ", &truncate(&a.current_task, 30))
    };
    (tone, status, cat(&a.name, &task))
}

/// A workflow in its panel: its state, and its id with its model.
pub fn workflow_item(id: &str, model: &str, state: &str) -> (r: (String, String))
    ensures
        r.0@ == " "@ + pad_right_spec(state@, 14),
        r.1@ == id@ + " ("@ + model@ + ")"@,
{
    let mut text = cat3(id, " (", model);
    text.append(")");
    (cat(" ", &pad_right(state, 14)), text)
}

/// The title of a panel with a number of entries.
pub fn counted_title(name: &str, n: usize) -> (r: String)
    ensures
        r@ == " "@ + name@ + " ("@ + decimal(n as nat) + ") "@,
{
    cat5(" ", name, " (", &show_usize(n), ") ")
}

/// The lines inside a frame of a height.
pub open spec fn inner_lines(height: u16) -> nat {
    if height <= 2 {
        0
    } else {
        (height - 2) as nat
    }
}

fn inner(height: u16) -> (r: usize)
    ensures
        r == inner_lines(height),
{
    if height <= 2 {
        0
    } else {
        (height - 2) as usize
    }
}

/// Whether `r` is the window on the end of a list.
pub open spec fn shows_tail(
    total: usize,
    height: u16,
    r: (usize, usize),
) -> bool {
    &&& r.1 == total
    &&& r.0 == (if total > inner_lines(height) {
        total - inner_lines(height)
    } else {
        0
    })
}

/// The messages in the panel of the last messages, in a frame of a height: those
/// from the first position on, up to the second.
pub fn tail_window(total: usize, height: u16) -> (r: (usize, usize))
    ensures
        shows_tail(total, height, r),
{
    let lines: usize = inner(height);
    let start: usize = if total > lines {
        total - lines
    } else {
        0
    };
    (start, total)
}

/// The end of the messages in view.
pub open spec fn stream_end(app: App) -> nat {
    let total = app.bus_messages@.len();
    if app.follow_mode || app.bus_scroll + 1 > total {
        total
    } else {
        (app.bus_scroll + 1) as nat
    }
}

/// Whether the messages from `r.0` on, up to `r.1`, are those in view.
pub open spec fn shows_stream(app: App, height: u16, r: (usize, usize)) -> bool {
    &&& r.1 == stream_end(app)
    &&& r.0 == (if stream_end(app) > inner_lines(height) {
        stream_end(app) - inner_lines(height)
    } else {
        0
    })
}

/// The messages in the view of the bus, in a frame of a height: those from the
/// first position on, up to the second. They end with the last message in follow
/// mode, else with the one at the scroll position.
pub fn stream_window(app: &App, height: u16) -> (r: (usize, usize))
    requires
        app.wf(),
    ensures
        shows_stream(*app, height, r),
{
    let total: usize = app.bus_messages.len();
    let end: usize = if app.follow_mode || app.bus_scroll + 1 > total {
        total
    } else {
        app.bus_scroll + 1
    };
    let lines: usize = inner(height);
    let start: usize = if end > lines {
        end - lines
    } else {
        0
    };
    (start, end)
}

/// The title of the view of the bus.
pub fn stream_title(app: &App) -> (r: String)
    requires
        app.wf(),
    ensures
        r@ == " Bus Stream ("@ + decimal(stream_end(*app)) + "/"@ + decimal(
            app.bus_messages@.len(),
        ) + ") "@ + (if app.follow_mode {
            " [FOLLOW] "@
        } else {
            Seq::empty()
        }),
{
    let (_, end) = stream_window(app, 0);
    let mut out = cat5(
        " Bus Stream (",
        &show_usize(end),
        "/",
        &show_usize(app.bus_messages.len()),
        ") ",
    );
    if app.follow_mode {
        out.append(" [FOLLOW] ");
    } else {
        assert(out@ =~= out@ + Seq::<char>::empty());
    }
    out
}

/// How often what is shown is read again, in milliseconds.
pub const REFRESH_MS: u64 = 2_000;

/// Whether what is shown is read again.
pub fn refresh_due(elapsed_ms: u64) -> (r: bool)
    ensures
        r == (elapsed_ms >= REFRESH_MS),
{
    elapsed_ms >= REFRESH_MS
}

// ─── What the screen is for ─────────────────────────────────────────────────

/// A new event comes last, and of more than five hundred the oldest goes; a screen that
/// follows shows the new one.
pub proof fn last_events_are_kept(before: App, event: BusEvent, after: App)
    requires
        before.wf(),
        takes_event(before, event, after),
    ensures
        after.bus_messages@.last() == event,
        before.bus_messages@.len() < 500 ==> after.bus_messages@ == before.bus_messages@.push(event),
        before.bus_messages@.len() == 500 ==> after.bus_messages@ == before.bus_messages@.skip(
            1,
        ).push(event),
        before.follow_mode ==> after.bus_scroll == after.bus_messages@.len() - 1,
        !before.follow_mode ==> after.bus_scroll == before.bus_scroll,
{
    let all = before.bus_messages@.push(event);
    if all.len() > 500 {
        assert(all.skip(1) =~= before.bus_messages@.skip(1).push(event));
    }
}

/// The keys choose the screen, scroll by a line and back, go to the ends and end the
/// program.
pub proof fn keys_do_what_they_say(app: App, shift: bool)
    requires
        app.wf(),
    ensures
        app.after_key(Key::Char('1', shift)).view == Screen::Dashboard,
        app.after_key(Key::Char('2', shift)).view == Screen::BusStream,
        app.after_key(Key::Char('q', false)).should_quit,
        app.after_key(Key::Char('q', false)).should_quit_all == app.should_quit_all,
        app.after_key(Key::Char('q', true)).should_quit_all,
        app.after_key(Key::Char('Q', shift)).should_quit_all,
        app.after_key(Key::Char('G', shift)).follow_mode && app.after_key(
            Key::Char('G', shift),
        ).bus_scroll == last_position(app.bus_messages@.len()),
        !app.after_key(Key::Char('g', shift)).follow_mode && app.after_key(
            Key::Char('g', shift),
        ).bus_scroll == 0,
        app.view == Screen::BusStream && app.bus_scroll + 1 < app.bus_messages@.len()
            ==> app.after_key(Key::Down).bus_scroll == app.bus_scroll + 1 && app.after_key(
            Key::Down,
        ).after_key(Key::Up).bus_scroll == app.bus_scroll,
        app.after_key(Key::Down) == app.after_key(Key::Char('j', shift)),
        app.after_key(Key::Up) == app.after_key(Key::Char('k', shift)),
        app.after_key(Key::Down).should_quit == app.should_quit && app.after_key(Key::Down).view
            == app.view,
        !app.after_key(Key::Down).follow_mode && !app.after_key(Key::Up).follow_mode,
{
}

/// A window shows the last lines that fit between its borders.
pub proof fn windows_show_the_end(total: usize, height: u16, r: (usize, usize))
    requires
        shows_tail(total, height, r),
        height >= 2,
    ensures
        r.1 == total,
        r.1 - r.0 <= height - 2,
        total <= height - 2 ==> r.0 == 0,
        total > height - 2 ==> r.1 - r.0 == height - 2,
{
}

/// A message on the bus is shown with its sender, its target and its task, or else its
/// text; other lines are not shown.
pub proof fn messages_are_shown(r: Option<BusEvent>, v: JsonModel, timestamp: Seq<char>, t: Seq<char>)
    requires
        brings(r, v, timestamp),
    ensures
        r is Some <==> v.text_field("type"@) == Some("message"@),
        r matches Some(e) ==> e.timestamp@ == timestamp && (v.text_field("source"@) matches Some(x)
            ==> e.source@ == x) && (v.text_field("target"@) matches Some(x) ==> e.target@ == x) && (
        v.at("payload"@).text_field("task"@) == Some(t) ==> e.payload_preview@ == preview(t, 80)),
        payload_text(
            JsonModel::Object(seq![("task"@, JsonModel::Text(t))]),
        ) == t,
{
    lookup_steps(seq![("task"@, JsonModel::Text(t))], "task"@, 0);
}


/// A workflow that runs is shown with its model and its state, and one that has ended is not.
pub proof fn running_workflows_are_shown(v: Seq<SmInstance>, i: SmInstance)
    ensures
        i.state@ == "done"@ || i.state@ == "merged"@ || i.state@ == "cancelled"@ || i.state@
            == "rejected"@ || i.state@ == "closed"@ ==> workflows(v.push(i)) == workflows(v),
        !(i.state@ == "done"@ || i.state@ == "merged"@ || i.state@ == "cancelled"@ || i.state@
            == "rejected"@ || i.state@ == "closed"@) ==> workflows(v.push(i)).len() == workflows(
            v,
        ).len() + 1 && workflows(v.push(i)).last().1 == i.model@ && workflows(v.push(i)).last().2
            == i.state@ && (byte_len(i.id@) <= 12 ==> workflows(v.push(i)).last().0 == i.id@),
{
    assert(v.push(i).drop_last() =~= v);
}

/// The tasks of each status are counted for themselves, and those that could not be listed
/// count nothing.
pub proof fn listed_tasks_are_counted(tasks: Vec<QueueTask>)
    ensures
        listed(Some(&tasks)) == tasks@.len(),
        listed(None) == 0,
{
}

/// The messages in view end with the last one while the screen follows, and else with the
/// one that it was scrolled to; they fill the frame between its borders.
pub proof fn stream_ends_where_it_was_scrolled_to(app: App, height: u16, r: (usize, usize))
    requires
        shows_stream(app, height, r),
        height >= 2,
    ensures
        app.follow_mode ==> r.1 == app.bus_messages@.len(),
        !app.follow_mode && app.bus_scroll < app.bus_messages@.len() ==> r.1 - 1 == app.bus_scroll,
        r.0 <= r.1,
        r.1 - r.0 <= height - 2,
        r.1 >= height - 2 ==> r.1 - r.0 == height - 2,
        r.1 < height - 2 ==> r.0 == 0,
{
}

/// An agent at work is green, an idle one grey, and one in any other state yellow.
pub proof fn statuses_have_their_colour(status: Seq<char>)
    ensures
        tone_of(status) == Tone::Green <==> status == "working"@,
        tone_of(status) == Tone::DarkGray <==> status == "idle"@,
{
    reveal_strlit("working");
    reveal_strlit("idle");
    assert("working"@.len() == 7 && "idle"@.len() == 4);
}

} // verus!
