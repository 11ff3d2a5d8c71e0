//! Agents: their persistent state and their token usage.
use crate::json::{Json, JsonModel};
use vstd::prelude::*;

verus! {

/// Tokens that a session used.
#[derive(Debug, Clone, Copy, PartialEq, Eq)]
pub struct TokenUsage {
    pub input_tokens: u64,
    pub output_tokens: u64,
    pub cache_creation_input_tokens: u64,
    pub cache_read_input_tokens: u64,
}

impl Default for TokenUsage {
    /// No tokens.
    fn default() -> (r: TokenUsage)
        ensures
            r.input_tokens == 0,
            r.output_tokens == 0,
            r.cache_creation_input_tokens == 0,
            r.cache_read_input_tokens == 0,
    {
        TokenUsage {
            input_tokens: 0,
            output_tokens: 0,
            cache_creation_input_tokens: 0,
            cache_read_input_tokens: 0,
        }
    }
}

impl TokenUsage {
    /// The sum of two usages, number by number.
    pub open spec fn plus(self, other: TokenUsage, sum: TokenUsage) -> bool {
        &&& sum.input_tokens == self.input_tokens + other.input_tokens
        &&& sum.output_tokens == self.output_tokens + other.output_tokens
        &&& sum.cache_creation_input_tokens == self.cache_creation_input_tokens
            + other.cache_creation_input_tokens
        &&& sum.cache_read_input_tokens == self.cache_read_input_tokens
            + other.cache_read_input_tokens
    }

    /// Whether the sum of two usages fits.
    pub open spec fn can_take(self, other: TokenUsage) -> bool {
        &&& self.input_tokens + other.input_tokens <= u64::MAX
        &&& self.output_tokens + other.output_tokens <= u64::MAX
        &&& self.cache_creation_input_tokens + other.cache_creation_input_tokens <= u64::MAX
        &&& self.cache_read_input_tokens + other.cache_read_input_tokens <= u64::MAX
    }

    /// Adds another usage.
    pub fn merge(&mut self, other: &TokenUsage)
        requires
            old(self).can_take(*other),
        ensures
            old(self).plus(*other, *final(self)),
    {
        self.input_tokens = self.input_tokens + other.input_tokens;
        self.output_tokens = self.output_tokens + other.output_tokens;
        self.cache_creation_input_tokens =
        self.cache_creation_input_tokens + other.cache_creation_input_tokens;
        self.cache_read_input_tokens = self.cache_read_input_tokens + other.cache_read_input_tokens;
    }

    /// The usage that a JSON value states. A number that it does not state is
    /// zero.
    pub open spec fn stated(j: JsonModel) -> TokenUsage {
        TokenUsage {
            input_tokens: stated_count(j, "input_tokens"@) as u64,
            output_tokens: stated_count(j, "output_tokens"@) as u64,
            cache_creation_input_tokens: stated_count(j, "cache_creation_input_tokens"@) as u64,
            cache_read_input_tokens: stated_count(j, "cache_read_input_tokens"@) as u64,
        }
    }

    /// The usage that a JSON value states.
    pub fn from_json(usage: &Json) -> (r: TokenUsage)
        ensures
            r == TokenUsage::stated(usage@),
    {
        TokenUsage {
            input_tokens: read_count(usage, "input_tokens"),
            output_tokens: read_count(usage, "output_tokens"),
            cache_creation_input_tokens: read_count(usage, "cache_creation_input_tokens"),
            cache_read_input_tokens: read_count(usage, "cache_read_input_tokens"),
        }
    }

    /// Adds the usage that a JSON value states.
    pub fn accumulate(&mut self, usage: &Json)
        requires
            old(self).can_take(TokenUsage::stated(usage@)),
        ensures
            old(self).plus(TokenUsage::stated(usage@), *final(self)),
    {
        let stated = TokenUsage::from_json(usage);
        self.merge(&stated);
    }
}

/// The number that a JSON value states under a key, or zero.
pub open spec fn stated_count(j: JsonModel, key: Seq<char>) -> int {
    match j.u64_field(key) {
        Some(n) => n,
        None => 0,
    }
}

fn read_count(j: &Json, key: &str) -> (r: u64)
    ensures
        r == stated_count(j@, key@),
{
    match j.u64_field(key) {
        Some(n) => n,
        None => 0,
    }
}

/// To merge with no usage changes nothing.
pub proof fn merge_with_nothing(a: TokenUsage, zero: TokenUsage, sum: TokenUsage)
    requires
        zero.input_tokens == 0 && zero.output_tokens == 0 && zero.cache_creation_input_tokens == 0
            && zero.cache_read_input_tokens == 0,
        a.plus(zero, sum),
    ensures
        sum == a,
{
}

/// The order in which two usages are merged does not matter.
pub proof fn merge_commutes(a: TokenUsage, b: TokenUsage, x: TokenUsage, y: TokenUsage)
    requires
        a.plus(b, x),
        b.plus(a, y),
    ensures
        x == y,
{
}

/// The configuration with which an agent is started.
#[derive(Debug, PartialEq)]
pub struct AgentConfig {
    pub name: String,
    pub model: String,
    pub system_prompt: String,
    pub work_dir: String,
    pub max_turns: u32,
    pub unix_user: Option<String>,
    /// What the agent may cost, as a decimal number.
    pub budget_usd: String,
    /// The program to run, and its arguments.
    pub command: Vec<String>,
    pub config_path: Option<String>,
    /// The container to run in, as it was written.
    pub container: Option<Json>,
    /// The options that only the runtime reads, as they were written.
    pub options: Option<Json>,
}

/// The persistent state of an agent.
#[derive(Debug, Clone, PartialEq)]
pub struct AgentState {
    pub name: String,
    pub model: String,
    pub system_prompt: String,
    pub work_dir: String,
    pub max_turns: u32,
    pub unix_user: Option<String>,
    pub config_path: Option<String>,
    pub status: String,
    pub current_task: String,
    pub session_id: String,
    pub created_at: String,
    pub pid: u32,
    pub total_turns: u32,
    /// What the agent cost, as a decimal number.
    pub total_cost: String,
    pub budget_usd: String,
    /// The agent that started this one.
    pub parent: Option<String>,
    pub scope: Option<String>,
    pub can_message: Option<Vec<String>>,
    pub env_keys: Option<Vec<String>>,
}

/// The tokens that an answer states are counted one by one, and what it does not state
/// counts nothing.
pub proof fn stated_tokens_are_counted(j: JsonModel, before: TokenUsage, after: TokenUsage)
    requires
        before.plus(TokenUsage::stated(j), after),
    ensures
        after.input_tokens - before.input_tokens == (match j.u64_field("input_tokens"@) {
            Some(n) => n,
            None => 0,
        }),
        after.output_tokens - before.output_tokens == (match j.u64_field("output_tokens"@) {
            Some(n) => n,
            None => 0,
        }),
        after.cache_creation_input_tokens - before.cache_creation_input_tokens == (
        match j.u64_field("cache_creation_input_tokens"@) {
            Some(n) => n,
            None => 0,
        }),
        after.cache_read_input_tokens - before.cache_read_input_tokens == (match j.u64_field(
            "cache_read_input_tokens"@,
        ) {
            Some(n) => n,
            None => 0,
        }),
{
}

} // verus!
