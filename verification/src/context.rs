//! The main branch of an agent's context: static text, and the output of
//! commands that is kept for a while.
use crate::clock::{elapsed_seconds, seconds_since};
use crate::text::{opt_text, trim, trim_spec};
use crate::web::audit::{join, join_path};
use vstd::prelude::*;
use vstd::string::*;

verus! {

/// Options of the context of an agent.
#[derive(Debug, Clone, PartialEq)]
pub struct ContextConfig {
    pub enabled: bool,
    pub main_budget_tokens: Option<u32>,
    pub compact_threshold_tokens: Option<u64>,
    pub main_path: Option<String>,
}

impl Default for ContextConfig {
    /// Disabled, with no limits.
    fn default() -> (r: ContextConfig)
        ensures
            !r.enabled,
            r.main_budget_tokens is None,
            r.compact_threshold_tokens is None,
            r.main_path is None,
    {
        ContextConfig {
            enabled: false,
            main_budget_tokens: None,
            compact_threshold_tokens: None,
            main_path: None,
        }
    }
}

/// Whether a session of so many tokens has to be compacted.
pub fn should_compact(tokens: u64, threshold: u64) -> (r: bool)
    ensures
        r == (tokens >= threshold),
{
    tokens >= threshold
}

/// Where the main branch is kept under a home directory.
pub fn default_main_path(home: &str) -> (r: String)
    ensures
        r@ == join_path(home@, ".deskd/context/main.yaml"@),
{
    join(home, ".deskd/context/main.yaml")
}

/// The output of a command.
#[derive(Debug, Clone, PartialEq)]
pub struct CachedResult {
    pub content: String,
    /// When it was taken, as RFC 3339.
    pub fetched_at: String,
}

/// What a node contributes.
#[derive(Debug, Clone, PartialEq)]
pub enum NodeKind {
    /// A message as it stands.
    Static { role: String, content: String },
    /// The output of a command.
    Live {
        command: String,
        args: Vec<String>,
        /// How long the output is good for, in seconds.
        max_age_secs: Option<u64>,
        inject_as: String,
        cached_result: Option<CachedResult>,
    },
}

/// A node of the main branch.
#[derive(Debug, Clone, PartialEq)]
pub struct Node {
    pub id: String,
    pub kind: NodeKind,
    pub label: String,
    pub tokens_estimate: u32,
}

/// The main branch of an agent's context.
#[derive(Debug, Clone, PartialEq)]
pub struct MainBranch {
    pub agent: String,
    pub budget_tokens: u32,
    pub nodes: Vec<Node>,
}

/// A message for a session.
#[derive(Debug, Clone, PartialEq)]
pub struct MaterializedMessage {
    pub role: String,
    pub content: String,
}

/// The contents of a message: its role and its content.
pub open spec fn message_view(m: MaterializedMessage) -> (Seq<char>, Seq<char>) {
    (m.role@, m.content@)
}

/// The contents of a list of messages.
pub open spec fn message_views(v: Seq<MaterializedMessage>) -> Seq<(Seq<char>, Seq<char>)> {
    Seq::new(v.len(), |i: int| message_view(v[i]))
}

/// The sum of the token estimates.
pub open spec fn estimate_sum(nodes: Seq<Node>) -> nat
    decreases nodes.len(),
{
    if nodes.len() == 0 {
        0
    } else {
        estimate_sum(nodes.drop_last()) + nodes.last().tokens_estimate as nat
    }
}

proof fn estimate_sum_grows(nodes: Seq<Node>, i: int)
    requires
        0 <= i <= nodes.len(),
    ensures
        estimate_sum(nodes.take(i)) <= estimate_sum(nodes),
    decreases nodes.len(),
{
    if i < nodes.len() {
        assert(nodes.drop_last().take(i) =~= nodes.take(i));
        estimate_sum_grows(nodes.drop_last(), i);
    } else {
        assert(nodes.take(i) =~= nodes);
    }
}

/// The age limit of an output, in seconds, as a signed 64-bit number.
pub open spec fn age_limit(max_age: u64) -> int {
    if max_age <= i64::MAX {
        max_age as int
    } else {
        max_age - 0x1_0000_0000_0000_0000
    }
}

/// Whether an output of a known age is still good.
pub open spec fn is_good(age: Option<i64>, max_age: Option<u64>) -> bool {
    match (age, max_age) {
        (Some(a), Some(m)) => a < age_limit(m),
        _ => false,
    }
}

/// Whether an output of a known age is still good. Without a known age or an age
/// limit it is not.
pub fn output_is_good(age: Option<i64>, max_age: Option<u64>) -> (r: bool)
    ensures
        r == is_good(age, max_age),
{
    match (age, max_age) {
        (Some(a), Some(m)) => {
            let limit: i128 = if m <= i64::MAX as u64 {
                m as i128
            } else {
                m as i128 - 0x1_0000_0000_0000_0000
            };
            (a as i128) < limit
        },
        _ => false,
    }
}

/// The age of a kept output at `now`.
pub open spec fn output_age(cached: Option<CachedResult>, now: i64) -> Option<i64> {
    match cached {
        Some(c) => elapsed_seconds(c.fetched_at@, now),
        None => None,
    }
}

/// The message with the output of a command: none where the output is blank.
pub open spec fn output_message(
    role: Seq<char>,
    label: Seq<char>,
    output: Seq<char>,
) -> Option<(Seq<char>, Seq<char>)> {
    if trim_spec(output).len() == 0 {
        None
    } else {
        Some((role, "["@ + label + "] "@ + trim_spec(output)))
    }
}

/// The message with the output of a command: none where the output is blank.
pub fn live_message(role: &str, label: &str, output: &str) -> (r: Option<MaterializedMessage>)
    ensures
        match r {
            Some(m) => output_message(role@, label@, output@) == Some(message_view(m)),
            None => output_message(role@, label@, output@) is None,
        },
{
    let content = trim(output);
    if content.is_empty() {
        None
    } else {
        let mut text = crate::text::cat3("[", label, "] ");
        text.append(content);
        Some(MaterializedMessage { role: String::from_str(role), content: text })
    }
}

/// Whether the command of a node has to be run at `now`.
pub open spec fn must_run(node: Node, now: i64) -> bool {
    match node.kind {
        NodeKind::Static { .. } => false,
        NodeKind::Live { max_age_secs, cached_result, .. } => !is_good(
            output_age(cached_result, now),
            max_age_secs,
        ),
    }
}

/// Whether the command of a node has to be run at `now`.
pub fn needs_run(node: &Node, now: i64) -> (r: bool)
    ensures
        r == must_run(*node, now),
{
    match &node.kind {
        NodeKind::Static { role: _, content: _ } => false,
        NodeKind::Live { command: _, args: _, max_age_secs, inject_as: _, cached_result } => {
            let age: Option<i64> = match cached_result {
                Some(c) => seconds_since(&c.fetched_at, now),
                None => None,
            };
            !output_is_good(age, *max_age_secs)
        },
    }
}

/// The contents of a node after its command was run.
pub open spec fn node_after(node: Node, output: Seq<char>, fetched_at: Seq<char>, after: Node) -> bool {
    &&& after.id@ == node.id@
    &&& after.label@ == node.label@
    &&& after.tokens_estimate == node.tokens_estimate
    &&& match (node.kind, after.kind) {
        (
            NodeKind::Live { command, args, max_age_secs, inject_as, cached_result: _ },
            NodeKind::Live {
                command: c2,
                args: a2,
                max_age_secs: m2,
                inject_as: i2,
                cached_result: r2,
            },
        ) => {
            &&& c2 == command && a2 == args && m2 == max_age_secs && i2 == inject_as
            &&& r2 matches Some(c) && c.content@ == output && c.fetched_at@ == fetched_at
        },
        _ => after.kind == node.kind,
    }
}

impl Node {
    /// The message of this node, where its command need not be run, or was run
    /// before with this output.
    pub open spec fn message(self, output: Option<Seq<char>>) -> Option<(Seq<char>, Seq<char>)> {
        match self.kind {
            NodeKind::Static { role, content } => Some((role@, content@)),
            NodeKind::Live { inject_as, cached_result, .. } => match output {
                Some(text) => output_message(inject_as@, self.label@, text),
                None => match cached_result {
                    Some(c) => output_message(inject_as@, self.label@, c.content@),
                    None => None,
                },
            },
        }
    }

    /// The message of this node. `output` is what its command printed, where it
    /// was run just now; it is then kept with the time.
    pub fn materialize(&mut self, output: Option<&str>, fetched_at: &str) -> (r: Option<
        MaterializedMessage,
    >)
        ensures
            match r {
                Some(m) => old(self).message(crate::text::opt_str(output)) == Some(message_view(m)),
                None => old(self).message(crate::text::opt_str(output)) is None,
            },
            match output {
                Some(text) => node_after(*old(self), text@, fetched_at@, *final(self)),
                None => *final(self) == *old(self),
            },
    {
        let r = match &self.kind {
            NodeKind::Static { role, content } => Some(
                MaterializedMessage { role: role.clone(), content: content.clone() },
            ),
            NodeKind::Live { command: _, args: _, max_age_secs: _, inject_as, cached_result } => {
                match output {
                    Some(text) => live_message(inject_as, &self.label, text),
                    None => match cached_result {
                        Some(c) => live_message(inject_as, &self.label, &c.content),
                        None => None,
                    },
                }
            },
        };
        match output {
            Some(text) => {
                match &mut self.kind {
                    NodeKind::Static { .. } => {},
                    NodeKind::Live { cached_result, .. } => {
                        *cached_result = Some(
                            CachedResult {
                                content: String::from_str(text),
                                fetched_at: String::from_str(fetched_at),
                            },
                        );
                    },
                }
            },
            None => {},
        }
        r
    }
}

/// The output of the command of the `i`th node, where it was run.
pub open spec fn output_at(outputs: Seq<Option<String>>, i: int) -> Option<Seq<char>> {
    opt_text(outputs[i])
}

/// The messages of the first `n` nodes, in order.
pub open spec fn messages_of(nodes: Seq<Node>, outputs: Seq<Option<String>>, n: int) -> Seq<
    (Seq<char>, Seq<char>),
>
    decreases n,
{
    if n <= 0 {
        Seq::empty()
    } else {
        let head = messages_of(nodes, outputs, n - 1);
        match nodes[n - 1].message(output_at(outputs, n - 1)) {
            Some(m) => head.push(m),
            None => head,
        }
    }
}

impl MainBranch {
    /// A main branch without nodes.
    pub fn new(agent: &str, budget_tokens: u32) -> (r: MainBranch)
        ensures
            r.agent@ == agent@,
            r.budget_tokens == budget_tokens,
            r.nodes@.len() == 0,
    {
        MainBranch { agent: String::from_str(agent), budget_tokens, nodes: Vec::new() }
    }

    /// The sum of the token estimates of the nodes.
    pub fn total_tokens(&self) -> (r: u64)
        requires
            estimate_sum(self.nodes@) <= u64::MAX,
        ensures
            r == estimate_sum(self.nodes@),
    {
        let mut sum: u64 = 0;
        let mut i: usize = 0;
        while i < self.nodes.len()
            invariant
                i <= self.nodes@.len(),
                sum == estimate_sum(self.nodes@.take(i as int)),
                estimate_sum(self.nodes@) <= u64::MAX,
            decreases self.nodes@.len() - i,
        {
            proof {
                assert(self.nodes@.take(i + 1).drop_last() =~= self.nodes@.take(i as int));
                estimate_sum_grows(self.nodes@, i + 1);
            }
            sum = sum + self.nodes[i].tokens_estimate as u64;
            i += 1;
        }
        assert(self.nodes@.take(i as int) =~= self.nodes@);
        sum
    }

    /// The nodes whose command has to be run at `now`, by position.
    pub fn commands_to_run(&self, now: i64) -> (r: Vec<bool>)
        ensures
            r@.len() == self.nodes@.len(),
            forall|i: int|
                0 <= i < r@.len() ==> #[trigger] r@[i] == must_run(self.nodes@[i], now),
    {
        let mut out: Vec<bool> = Vec::new();
        let mut i: usize = 0;
        while i < self.nodes.len()
            invariant
                i <= self.nodes@.len(),
                out@.len() == i,
                forall|j: int|
                    0 <= j < i ==> #[trigger] out@[j] == must_run(self.nodes@[j], now),
            decreases self.nodes@.len() - i,
        {
            out.push(needs_run(&self.nodes[i], now));
            i += 1;
        }
        out
    }

    /// The messages of the nodes, in order. `outputs` holds what the commands
    /// printed that were run; the other live nodes use what was kept.
    pub fn materialize(&mut self, outputs: &Vec<Option<String>>, fetched_at: &str) -> (r: Vec<
        MaterializedMessage,
    >)
        requires
            outputs@.len() == old(self).nodes@.len(),
        ensures
            message_views(r@) == messages_of(
                old(self).nodes@,
                outputs@,
                old(self).nodes@.len() as int,
            ),
            final(self).agent == old(self).agent,
            final(self).budget_tokens == old(self).budget_tokens,
            final(self).nodes@.len() == old(self).nodes@.len(),
            forall|i: int|
                0 <= i < outputs@.len() ==> match output_at(outputs@, i) {
                    Some(text) => node_after(
                        old(self).nodes@[i],
                        text,
                        fetched_at@,
                        #[trigger] final(self).nodes@[i],
                    ),
                    None => final(self).nodes@[i] == old(self).nodes@[i],
                },
    {
        let ghost start = self.nodes@;
        let n: usize = self.nodes.len();
        let mut out: Vec<MaterializedMessage> = Vec::new();
        let mut i: usize = 0;
        assert(message_views(out@) =~= Seq::<(Seq<char>, Seq<char>)>::empty());
        while i < n
            invariant
                i <= n,
                n == start.len(),
                start == old(self).nodes@,
                self.nodes@.len() == n,
                outputs@.len() == n,
                self.agent == old(self).agent,
                self.budget_tokens == old(self).budget_tokens,
                forall|j: int| i <= j < n ==> #[trigger] self.nodes@[j] == start[j],
                forall|j: int|
                    0 <= j < i ==> match output_at(outputs@, j) {
                        Some(text) => node_after(
                            start[j],
                            text,
                            fetched_at@,
                            #[trigger] self.nodes@[j],
                        ),
                        None => self.nodes@[j] == start[j],
                    },
                message_views(out@) == messages_of(start, outputs@, i as int),
            decreases n - i,
        {
            let ghost before = message_views(out@);
            let ghost held = self.nodes@;
            let output: Option<&str> = match &outputs[i] {
                Some(s) => Some(s.as_str()),
                None => None,
            };
            let m = self.nodes[i].materialize(output, fetched_at);
            match m {
                Some(message) => {
                    out.push(message);
                    assert(message_views(out@) =~= before.push(message_view(message)));
                },
                None => {},
            }
            i += 1;
        }
        out
    }
}

// ─── What the context is for ────────────────────────────────────────────────

/// A kept output is used while it is younger than its limit; without an age or a limit it
/// is not.
pub proof fn young_outputs_are_used(age: i64, max_age: u64)
    requires
        max_age <= i64::MAX,
    ensures
        is_good(Some(age), Some(max_age)) <==> age < max_age,
        !is_good(None, Some(max_age)),
        !is_good(Some(age), None),
{
}

/// A static node is a message as it stands. A live one is a message with the output of its
/// command behind its label, without the white space around it; a blank output is none.
pub proof fn nodes_become_messages(node: Node, output: Seq<char>)
    ensures
        node.kind matches NodeKind::Static { role, content } ==> node.message(Some(output)) == Some(
            (role@, content@),
        ),
        (node.kind matches NodeKind::Live { inject_as, .. } && trim_spec(output).len() > 0) ==> (
        node.message(Some(output)) matches Some((role, text)) && role == node.kind->inject_as@
            && text == "["@ + node.label@ + "] "@ + trim_spec(output)),
        node.kind is Live && trim_spec(output).len() == 0 ==> node.message(Some(output)) is None,
        (node.kind matches NodeKind::Live { cached_result, .. } && cached_result is Some)
            ==> node.message(None) == node.message(Some(node.kind->cached_result->0.content@)),
{
}

/// The command of a static node is never run; that of a live one is, unless a kept output
/// is young enough.
pub proof fn commands_run_when_their_output_is_old(node: Node, now: i64)
    ensures
        node.kind is Static ==> !must_run(node, now),
        (node.kind matches NodeKind::Live { cached_result, .. } && cached_result is None)
            ==> must_run(node, now),
        (node.kind matches NodeKind::Live { max_age_secs, .. } && max_age_secs is None) ==> must_run(
            node,
            now,
        ),
        (node.kind matches NodeKind::Live { cached_result, max_age_secs, .. } && (
        cached_result matches Some(c) && (elapsed_seconds(c.fetched_at@, now) matches Some(a) && (
        max_age_secs matches Some(m) && m <= i64::MAX && a < m)))) ==> !must_run(node, now),
{
}

/// The messages come in the order of their nodes, one for each node that has one.
pub proof fn messages_come_in_order(nodes: Seq<Node>, outputs: Seq<Option<String>>, n: int)
    requires
        0 <= n < nodes.len(),
    ensures
        messages_of(nodes, outputs, 0).len() == 0,
        match nodes[n].message(output_at(outputs, n)) {
            Some(m) => messages_of(nodes, outputs, n + 1) == messages_of(nodes, outputs, n).push(m),
            None => messages_of(nodes, outputs, n + 1) == messages_of(nodes, outputs, n),
        },
{
}

/// The estimates of all nodes are added up.
pub proof fn estimates_add_up(nodes: Seq<Node>, node: Node)
    ensures
        estimate_sum(nodes.push(node)) == estimate_sum(nodes) + node.tokens_estimate,
        estimate_sum(Seq::empty()) == 0,
{
    assert(nodes.push(node).drop_last() =~= nodes);
}

} // verus!
