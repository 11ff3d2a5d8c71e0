//! The stream of an agent's events, for people to read.
use crate::decimal::{decimal, show_u64};
use crate::json::{field_of, item_models, or_null, text_of, Json, JsonModel};
use crate::json_text::{compact, compact_text, parse, parsed_json};
use crate::mcp_tools::reply::{read_limit, limit_of, read_text_or, text_or};
use crate::text::{
    both_parts_occur, cat3, cat5, char_prefix, char_prefix_spec, contains_spec, opt_str, same,
    starts_with_spec,
};
use vstd::prelude::*;
use vstd::string::*;

verus! {

/// The line of a tool call with an input, where there is one.
pub open spec fn tool_use_text(name: Seq<char>, input: Option<Seq<char>>) -> Seq<char> {
    "[tool_use] "@ + name + " "@ + (match input {
        Some(t) => char_prefix_spec(t, 120),
        None => Seq::empty(),
    }) + "\n"@
}

/// The line of a tool call with an input, where there is one.
pub fn tool_use_line(name: &str, input: Option<&str>) -> (r: String)
    ensures
        r@ == tool_use_text(name@, opt_str(input)),
{
    let mut out = cat3("[tool_use] ", name, " ");
    match input {
        Some(t) => {
            out.append(char_prefix(t, 120));
        },
        None => {
            assert(out@ =~= out@ + Seq::<char>::empty());
        },
    }
    out.append("\n");
    out
}

/// The input of a tool call, as text.
pub open spec fn input_text(block: JsonModel) -> Option<Seq<char>> {
    match block.get("input"@) {
        Some(v) => Some(compact_text(v)),
        None => None,
    }
}

/// The line of a block of a message: of a text that is not empty, or of a tool
/// call. Other blocks are not shown.
pub open spec fn block_text(block: JsonModel) -> Seq<char> {
    if block.text_field("type"@) == Some("text"@) {
        match block.text_field("text"@) {
            Some(t) => if t.len() > 0 {
                "[assistant] "@ + char_prefix_spec(t, 200) + "\n"@
            } else {
                Seq::empty()
            },
            None => Seq::empty(),
        }
    } else if block.text_field("type"@) == Some("tool_use"@) {
        tool_use_text(text_or(block, "name"@, "?"@), input_text(block))
    } else {
        Seq::empty()
    }
}

/// The lines of the first `n` blocks of a message.
pub open spec fn blocks_text(blocks: Seq<JsonModel>, n: int) -> Seq<char>
    decreases n,
{
    if n <= 0 {
        Seq::empty()
    } else {
        blocks_text(blocks, n - 1) + block_text(blocks[n - 1])
    }
}

/// The first item of a list, or null.
pub open spec fn first_item(v: JsonModel) -> JsonModel {
    match v.as_list() {
        Some(items) => if items.len() > 0 {
            items[0]
        } else {
            JsonModel::Null
        },
        None => JsonModel::Null,
    }
}

/// The line of the result of a tool call.
pub open spec fn tool_result_text(v: JsonModel) -> Seq<char> {
    let first = first_item(v.at("content"@));
    let text = text_or(first, "text"@, ""@);
    if first.bool_field("is_error"@) == Some(true) {
        "[tool_error] "@ + char_prefix_spec(text, 200) + "\n"@
    } else if text.len() > 0 {
        "[tool_result] "@ + char_prefix_spec(text, 200) + "\n"@
    } else {
        Seq::empty()
    }
}

/// What is shown of an event. `cost` is the cost that it states, with four
/// decimal places.
pub open spec fn event_text(v: JsonModel, cost: Seq<char>) -> Seq<char> {
    match v.text_field("type"@) {
        Some(kind) => if kind == "assistant"@ {
            match v.at("message"@).list_field("content"@) {
                Some(blocks) => blocks_text(blocks, blocks.len() as int),
                None => Seq::empty(),
            }
        } else if kind == "tool"@ || kind == "tool_result"@ {
            tool_result_text(v)
        } else if kind == "result"@ {
            "[result] turns="@ + decimal(limit_of(v, "num_turns"@, 0) as nat) + " cost=$"@ + cost
                + "\n"@
        } else {
            "["@ + kind + "]\n"@
        },
        None => Seq::empty(),
    }
}

fn show_block(block: &Json) -> (r: String)
    ensures
        r@ == block_text(block@),
{
    let kind = match block.text_field("type") {
        Some(k) => k,
        None => {
            return String::new();
        },
    };
    if same(kind, "text") {
        match block.text_field("text") {
            Some(t) => if !t.is_empty() {
                cat3("[assistant] ", char_prefix(t, 200), "\n")
            } else {
                String::new()
            },
            None => String::new(),
        }
    } else if same(kind, "tool_use") {
        let name = read_text_or(block, "name", "?");
        match block.get("input") {
            Some(v) => {
                let input = compact(v);
                tool_use_line(name, Some(&input))
            },
            None => tool_use_line(name, None),
        }
    } else {
        String::new()
    }
}

fn show_blocks(blocks: &Vec<Json>) -> (r: String)
    ensures
        r@ == blocks_text(item_models(blocks@), blocks@.len() as int),
{
    let ghost all = item_models(blocks@);
    let mut out = String::new();
    let mut i: usize = 0;
    while i < blocks.len()
        invariant
            i <= blocks@.len(),
            all == item_models(blocks@),
            out@ == blocks_text(all, i as int),
        decreases blocks@.len() - i,
    {
        assert(all[i as int] == blocks@[i as int]@);
        let line = show_block(&blocks[i]);
        out.append(&line);
        i += 1;
    }
    out
}

fn first_of<'a>(o: Option<&'a Json>) -> (r: Option<&'a Json>)
    ensures
        or_null(r) == first_item(or_null(o)),
{
    let v = match o {
        Some(v) => v,
        None => {
            return None;
        },
    };
    match v.as_array() {
        Some(items) => if items.len() > 0 {
            assert(item_models(items@)[0] == items@[0]@);
            Some(&items[0])
        } else {
            None
        },
        None => None,
    }
}

fn show_tool_result(v: &Json) -> (r: String)
    ensures
        r@ == tool_result_text(v@),
{
    let first = first_of(field_of(Some(v), "content"));
    let text = match text_of(first, "text") {
        Some(t) => t,
        None => "",
    };
    let failed: bool = match first {
        Some(b) => match b.bool_field("is_error") {
            Some(x) => x,
            None => false,
        },
        None => false,
    };
    if failed {
        cat3("[tool_error] ", char_prefix(text, 200), "\n")
    } else if !text.is_empty() {
        cat3("[tool_result] ", char_prefix(text, 200), "\n")
    } else {
        String::new()
    }
}

/// What is shown of a line of the stream. A line that is no JSON is not shown.
pub open spec fn stream_line_text(line: Seq<char>, cost: Seq<char>) -> Seq<char> {
    match parsed_json(line) {
        Some(v) => event_text(v, cost),
        None => Seq::empty(),
    }
}

/// What is shown of a line of the stream. `cost` is the cost that it states, with
/// four decimal places.
pub fn print_stream_event(line: &str, cost: &str) -> (r: String)
    ensures
        r@ == stream_line_text(line@, cost@),
{
    match parse(line) {
        Some(v) => show_event(&v, cost),
        None => String::new(),
    }
}

/// What is shown of an event. `cost` is the cost that it states, with four
/// decimal places.
pub fn show_event(v: &Json, cost: &str) -> (r: String)
    ensures
        r@ == event_text(v@, cost@),
{
    let kind = match v.text_field("type") {
        Some(k) => k,
        None => {
            return String::new();
        },
    };
    if same(kind, "assistant") {
        match field_of(Some(v), "message") {
            Some(m) => match m.list_field("content") {
                Some(blocks) => show_blocks(blocks),
                None => String::new(),
            },
            None => String::new(),
        }
    } else if same(kind, "tool") || same(kind, "tool_result") {
        show_tool_result(v)
    } else if same(kind, "result") {
        let turns: u64 = read_limit(v, "num_turns", 0);
        cat5("[result] turns=", &show_u64(turns), " cost=$", cost, "\n")
    } else {
        cat3("[", kind, "]\n")
    }
}

// ─── What a stream tells ────────────────────────────────────────────────────

/// The use of a tool is shown on a line of its own, with the name of the tool and the first
/// 120 characters of what it is given.
pub proof fn tool_uses_are_shown(name: Seq<char>, input: Seq<char>)
    ensures
        contains_spec(tool_use_text(name, Some(input)), name),
        input.len() <= 120 ==> contains_spec(tool_use_text(name, Some(input)), input),
        input.len() > 120 ==> contains_spec(tool_use_text(name, Some(input)), input.take(120)),
        starts_with_spec(tool_use_text(name, None), "[tool_use] "@),
        tool_use_text(name, Some(input)).last() == '\n',
{
    reveal_strlit("\n");
    reveal_strlit("[tool_use] ");
    let head = "[tool_use] "@ + name;
    let shown = char_prefix_spec(input, 120);
    both_parts_occur("[tool_use] "@, name);
    both_parts_occur(head, " "@);
    both_parts_occur(head + " "@, shown);
    both_parts_occur(head + " "@ + shown, "\n"@);
    let t = tool_use_text(name, None);
    assert(t.take(11) =~= "[tool_use] "@);
}

/// The blocks of a message are shown one after the other.
pub proof fn blocks_are_shown_in_order(a: Seq<JsonModel>, b: Seq<JsonModel>)
    ensures
        blocks_text(a + b, (a + b).len() as int) == blocks_text(a, a.len() as int) + blocks_text(
            b,
            b.len() as int,
        ),
    decreases b.len(),
{
    if b.len() == 0 {
        assert(a + b =~= a);
        assert(blocks_text(a, a.len() as int) + Seq::<char>::empty() =~= blocks_text(
            a,
            a.len() as int,
        ));
    } else {
        let front = b.drop_last();
        blocks_are_shown_in_order(a, front);
        first_blocks_alone(a + b, a + front, (a + front).len() as int);
        first_blocks_alone(b, front, front.len() as int);
        let x = blocks_text(a, a.len() as int);
        let y = blocks_text(front, front.len() as int);
        let z = block_text(b.last());
        assert(x + (y + z) =~= x + y + z);
    }
}

proof fn first_blocks_alone(a: Seq<JsonModel>, b: Seq<JsonModel>, n: int)
    requires
        0 <= n <= a.len(),
        n <= b.len(),
        forall|i: int| 0 <= i < n ==> a[i] == b[i],
    ensures
        blocks_text(a, n) == blocks_text(b, n),
    decreases n,
{
    if n > 0 {
        first_blocks_alone(a, b, n - 1);
    }
}

/// A text that is said is shown by its first 200 characters; a block of another kind than
/// a text or the use of a tool is not shown.
pub proof fn said_texts_are_shown(block: JsonModel, t: Seq<char>)
    requires
        t.len() > 0,
    ensures
        block.text_field("type"@) == Some("text"@) && block.text_field("text"@) == Some(t)
            && t.len() <= 200 ==> block_text(block) == "[assistant] "@ + t + "\n"@,
        block.text_field("type"@) == Some("text"@) && block.text_field("text"@) == Some(t)
            && t.len() > 200 ==> block_text(block) == "[assistant] "@ + t.take(200) + "\n"@,
        block.text_field("type"@) == Some("text"@) && block.text_field("text"@) is None
            ==> block_text(block).len() == 0,
        block.text_field("type"@) != Some("text"@) && block.text_field("type"@) != Some(
            "tool_use"@,
        ) ==> block_text(block).len() == 0,
{
}

/// What a tool gives back is shown by its first 200 characters, and as an error where it is
/// one.
pub proof fn tool_results_are_shown(v: JsonModel, items: Seq<JsonModel>, t: Seq<char>, cost: Seq<char>)
    requires
        v.at("content"@) == JsonModel::List(items),
        items.len() > 0,
        items[0].text_field("text"@) == Some(t),
        0 < t.len() <= 200,
        v.text_field("type"@) == Some("tool_result"@) || v.text_field("type"@) == Some("tool"@),
    ensures
        items[0].bool_field("is_error"@) == Some(true) ==> event_text(v, cost) == "[tool_error] "@
            + t + "\n"@,
        items[0].bool_field("is_error"@) != Some(true) ==> event_text(v, cost) == "[tool_result] "@
            + t + "\n"@,
{
    reveal_strlit("tool");
    reveal_strlit("tool_result");
    reveal_strlit("assistant");
    assert("tool"@.len() == 4 && "tool_result"@.len() == 11 && "assistant"@.len() == 9);
}

} // verus!
