//! Collecting conversation turns as fine-tuning data: which turns are kept,
//! and the record each becomes.
use vstd::prelude::*;
use crate::import::utf8_len;
use crate::json::{JsonNumber, JsonValue};
use crate::text::{chars_of, trim, trim_str};

verus! {

/// The mode a turn ran in.
#[derive(Debug, Clone, Copy, PartialEq, Eq, Structural)]
pub enum AgentMode {
    Normal,
    Plan,
    Chat,
}

pub open spec fn mode_label_spec(m: AgentMode) -> Seq<char> {
    match m {
        AgentMode::Normal => "normal"@,
        AgentMode::Plan => "plan"@,
        AgentMode::Chat => "chat"@,
    }
}

pub fn mode_label(m: AgentMode) -> (r: &'static str)
    ensures
        r@ == mode_label_spec(m),
{
    match m {
        AgentMode::Normal => "normal",
        AgentMode::Plan => "plan",
        AgentMode::Chat => "chat",
    }
}

/// A turn is kept when collecting is on, the trimmed message has at least two
/// bytes and the trimmed answer at least `min_chars` bytes (UTF-8).
pub open spec fn turn_kept(collect: bool, user: Seq<char>, assistant: Seq<char>, min_chars: nat) -> bool {
    collect && utf8_len(trim(user)) >= 2 && utf8_len(trim(assistant)) >= min_chars
}

pub fn keeps_turn(collect: bool, user: &str, assistant: &str, min_chars: usize) -> (r: bool)
    ensures
        r == turn_kept(collect, user@, assistant@, min_chars as nat),
{
    if !collect {
        return false;
    }
    let u = trim_str(user);
    let a = trim_str(assistant);
    crate::import::utf8_len_at_least(u.as_slice(), 2) && crate::import::utf8_len_at_least(a.as_slice(), min_chars)
}

/// The record of a kept turn: `{"ts", "mode", "user", "assistant", "tools"}`.
pub open spec fn turn_record_is(r: JsonValue, ts: i64, mode: AgentMode, user: Seq<char>, assistant: Seq<char>, tools: Seq<String>) -> bool {
    r is Object && {
        let es = r->Object_0@;
        &&& es.len() == 5
        &&& es[0].0@ == "ts"@ && es[0].1 == if ts >= 0 {
            JsonValue::Number(JsonNumber::PosInt(ts as u64))
        } else {
            JsonValue::Number(JsonNumber::NegInt(ts))
        }
        &&& es[1].0@ == "mode"@ && es[1].1 is String && es[1].1->String_0@ == mode_label_spec(mode)
        &&& es[2].0@ == "user"@ && es[2].1 is String && es[2].1->String_0@ == user
        &&& es[3].0@ == "assistant"@ && es[3].1 is String && es[3].1->String_0@ == assistant
        &&& es[4].0@ == "tools"@ && es[4].1 is Array && es[4].1->Array_0@.len() == tools.len()
            && forall|k: int| 0 <= k < tools.len() ==> (#[trigger] es[4].1->Array_0@[k]) is String
            && es[4].1->Array_0@[k]->String_0@ == tools[k]@
    }
}

pub fn turn_record(ts: i64, mode: AgentMode, user: &str, assistant: &str, tools: &[String]) -> (r: JsonValue)
    ensures
        turn_record_is(r, ts, mode, user@, assistant@, tools@),
{
    let mut items: Vec<JsonValue> = Vec::new();
    let mut i: usize = 0;
    while i < tools.len()
        invariant
            i <= tools.len(),
            items@.len() == i,
            forall|k: int| 0 <= k < i ==> (#[trigger] items@[k]) is String && items@[k]->String_0@ == tools@[k]@,
        decreases tools.len() - i,
    {
        items.push(JsonValue::String(tools[i].clone()));
        i += 1;
    }
    let t = if ts >= 0 {
        JsonValue::Number(JsonNumber::PosInt(ts as u64))
    } else {
        JsonValue::Number(JsonNumber::NegInt(ts))
    };
    let mut es: Vec<(String, JsonValue)> = Vec::new();
    es.push(("ts".to_string(), t));
    es.push(("mode".to_string(), JsonValue::String(mode_label(mode).to_string())));
    es.push(("user".to_string(), JsonValue::String(user.to_string())));
    es.push(("assistant".to_string(), JsonValue::String(assistant.to_string())));
    es.push(("tools".to_string(), JsonValue::Array(items)));
    JsonValue::Object(es)
}

/// The record a turn adds to the fine-tuning data, when it is kept.
pub fn record_turn(
    collect: bool,
    min_chars: usize,
    ts: i64,
    mode: AgentMode,
    user: &str,
    assistant: &str,
    tools: &[String],
) -> (r: Option<JsonValue>)
    ensures
        r is Some == turn_kept(collect, user@, assistant@, min_chars as nat),
        r matches Some(j) ==> turn_record_is(j, ts, mode, user@, assistant@, tools@),
{
    if keeps_turn(collect, user, assistant, min_chars) {
        Some(turn_record(ts, mode, user, assistant, tools))
    } else {
        None
    }
}

} // verus!
