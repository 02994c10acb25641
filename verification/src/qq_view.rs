//! The `qq_conversations` tool: which view it asks for, and the text of the
//! conversation list and of one conversation's recent turns. The stored
//! turns and summaries are read by the caller.
use vstd::prelude::*;
use crate::json::{as_str, as_u64, get, json_as_str, json_as_u64, json_get, JsonValue};
use crate::numbers::{decimal, u64_decimal};
use crate::qq::{first_line, first_line_spec};
use crate::qq_turn::conversation_title;
use crate::text::{
    chars_of, extend_chars, extend_str, has_prefix_str, join_parts, join_with, str_is, string_of,
    strip_all_prefix_chars, trim, trim_str,
};

verus! {

/// What the tool is asked to show.
#[derive(Debug, Clone)]
pub enum ViewRequest {
    /// The conversations of the QQ channel.
    List,
    /// The recent turns of one conversation (its id trimmed, possibly empty).
    Read { conversation_id: String, limit: usize },
}

pub open spec fn text_arg(args: JsonValue, key: Seq<char>, default: Seq<char>) -> Seq<char> {
    match as_str(get(args, key)) {
        Some(v) => trim(v),
        None => trim(default),
    }
}

/// `action` is `read` (after trimming) for one conversation, anything else
/// for the list; `limit` is 1 to 30, 10 by default.
pub fn view_request(args: &JsonValue) -> (r: ViewRequest)
    ensures
        match r {
            ViewRequest::List => text_arg(*args, "action"@, "list"@) != "read"@,
            ViewRequest::Read { conversation_id, limit } => text_arg(*args, "action"@, "list"@) == "read"@
                && conversation_id@ == text_arg(*args, "conversation_id"@, ""@) && limit as nat == match as_u64(
                get(*args, "limit"@),
            ) {
                Some(n) => if n < 1 {
                    1
                } else if n > 30 {
                    30
                } else {
                    n
                },
                None => 10,
            },
        },
{
    let action = trim_str(match json_as_str(json_get(args, "action")) {
        Some(a) => a,
        None => "list",
    });
    proof {
        reveal_strlit("list");
        reveal_strlit("read");
    }
    if !str_is(action.as_slice(), "read") {
        return ViewRequest::List;
    }
    let id = trim_str(match json_as_str(json_get(args, "conversation_id")) {
        Some(a) => a,
        None => "",
    });
    let limit: usize = match json_as_u64(json_get(args, "limit")) {
        Some(n) => if n < 1 {
            1
        } else if n > 30 {
            30
        } else {
            n as usize
        },
        None => 10,
    };
    ViewRequest::Read { conversation_id: string_of(id.as_slice()), limit }
}

/// One stored turn of a conversation.
#[derive(Debug, Clone)]
pub struct StoredTurn {
    pub user_timestamp: String,
    pub user_content: String,
    pub assistant_content: String,
    pub token_total: u64,
}

/// The lines of one turn: the user's first line with its time, the answer's
/// first line when there is an answer, and the tokens spent after the last of
/// them when any were counted.
pub open spec fn turn_lines(t: StoredTurn) -> Seq<Seq<char>> {
    let user = "[用户 "@ + trim(t.user_timestamp@) + "] "@ + first_line_spec(t.user_content@);
    let tokens = if t.token_total > 0 {
        "（"@ + decimal(t.token_total as nat) + " tokens）"@
    } else {
        seq![]
    };
    if trim(t.assistant_content@).len() > 0 {
        seq![user, "[清影] "@ + first_line_spec(t.assistant_content@) + tokens]
    } else {
        seq![user + tokens]
    }
}

pub open spec fn turns_lines(ts: Seq<StoredTurn>) -> Seq<Seq<char>>
    decreases ts.len(),
{
    if ts.len() == 0 {
        seq![]
    } else {
        turns_lines(ts.drop_last()) + turn_lines(ts.last())
    }
}

/// The last `limit` turns.
pub open spec fn recent(ts: Seq<StoredTurn>, limit: nat) -> Seq<StoredTurn> {
    if ts.len() <= limit {
        ts
    } else {
        ts.skip(ts.len() - limit)
    }
}

/// The text of one conversation: a header, then the lines of its last
/// `limit` turns, oldest first.
pub open spec fn read_text(id: Seq<char>, ts: Seq<StoredTurn>, limit: nat) -> Seq<char> {
    if id.len() == 0 {
        "请提供 conversation_id（先用 action=list 查看有哪些会话）。"@
    } else if ts.len() == 0 {
        "会话 "@ + id + " 暂无记录。"@
    } else {
        join_with(
            seq!["会话 "@ + id + "（共 "@ + decimal(ts.len()) + " 轮，显示最近 "@ + decimal(limit) + " 轮）"@]
                + turns_lines(recent(ts, limit)),
            "\n"@,
        )
    }
}

pub open spec fn lines_view(v: Seq<Vec<char>>) -> Seq<Seq<char>> {
    v.map_values(|p: Vec<char>| p@)
}

fn turn_lines_exec(t: &StoredTurn) -> (r: Vec<Vec<char>>)
    ensures
        lines_view(r@) == turn_lines(*t),
{
    let mut user = chars_of("[用户 ");
    extend_chars(&mut user, trim_str(t.user_timestamp.as_str()).as_slice());
    extend_str(&mut user, "] ");
    extend_str(&mut user, first_line(t.user_content.as_str()).as_str());
    let mut tokens: Vec<char> = Vec::new();
    if t.token_total > 0 {
        extend_str(&mut tokens, "（");
        extend_chars(&mut tokens, u64_decimal(t.token_total).as_slice());
        extend_str(&mut tokens, " tokens）");
    }
    let mut out: Vec<Vec<char>> = Vec::new();
    if trim_str(t.assistant_content.as_str()).len() > 0 {
        let mut answer = chars_of("[清影] ");
        extend_str(&mut answer, first_line(t.assistant_content.as_str()).as_str());
        extend_chars(&mut answer, tokens.as_slice());
        out.push(user);
        out.push(answer);
    } else {
        extend_chars(&mut user, tokens.as_slice());
        out.push(user);
    }
    proof {
        if t.token_total > 0 {
            assert(tokens@ =~= "（"@ + decimal(t.token_total as nat) + " tokens）"@);
        } else {
            assert(tokens@ =~= Seq::<char>::empty());
        }
        assert(lines_view(out@) =~= turn_lines(*t));
    }
    out
}

/// The text `action=read` answers with.
pub fn read_reply(id: &str, turns: &[StoredTurn], limit: usize) -> (r: String)
    ensures
        r@ == read_text(id@, turns@, limit as nat),
{
    if id.is_empty() {
        return "请提供 conversation_id（先用 action=list 查看有哪些会话）。".to_string();
    }
    if turns.len() == 0 {
        let mut m = chars_of("会话 ");
        extend_str(&mut m, id);
        extend_str(&mut m, " 暂无记录。");
        return string_of(m.as_slice());
    }
    let start = if turns.len() <= limit { 0 } else { turns.len() - limit };
    let ghost shown = recent(turns@, limit as nat);
    assert(shown =~= turns@.skip(start as int));
    let mut header = chars_of("会话 ");
    extend_str(&mut header, id);
    extend_str(&mut header, "（共 ");
    extend_chars(&mut header, u64_decimal(turns.len() as u64).as_slice());
    extend_str(&mut header, " 轮，显示最近 ");
    extend_chars(&mut header, u64_decimal(limit as u64).as_slice());
    extend_str(&mut header, " 轮）");
    let mut lines: Vec<Vec<char>> = Vec::new();
    lines.push(header);
    let ghost head = lines_view(lines@);
    let mut i: usize = start;
    while i < turns.len()
        invariant
            start <= i <= turns@.len(),
            shown == turns@.skip(start as int),
            lines_view(lines@) == head + turns_lines(turns@.subrange(start as int, i as int)),
        decreases turns.len() - i,
    {
        let more = turn_lines_exec(&turns[i]);
        let ghost before = lines_view(lines@);
        let mut k: usize = 0;
        while k < more.len()
            invariant
                k <= more@.len(),
                lines_view(lines@) == before + lines_view(more@).take(k as int),
            decreases more.len() - k,
        {
            let ghost prev = lines@;
            let x = more[k].clone();
            assert(x@ == lines_view(more@)[k as int]);
            lines.push(x);
            assert(lines_view(lines@) =~= lines_view(prev).push(x@));
            assert(lines_view(more@).take(k + 1) =~= lines_view(more@).take(k as int).push(lines_view(more@)[k as int]));
            assert(lines_view(lines@) =~= before + lines_view(more@).take(k + 1));
            k += 1;
        }
        proof {
            assert(lines_view(more@).take(more@.len() as int) =~= lines_view(more@));
            let sub = turns@.subrange(start as int, i + 1);
            assert(sub.drop_last() =~= turns@.subrange(start as int, i as int));
            assert(sub.last() == turns@[i as int]);
            assert(lines_view(lines@) =~= head + turns_lines(sub));
        }
        i += 1;
    }
    assert(turns@.subrange(start as int, turns@.len() as int) =~= shown);
    assert(lines@.map_values(|p: Vec<char>| p@) == lines_view(lines@));
    assert(head[0] == "会话 "@ + id@ + "（共 "@ + decimal(turns@.len()) + " 轮，显示最近 "@ + decimal(limit as nat) + " 轮）"@);
    assert(head =~= seq!["会话 "@ + id@ + "（共 "@ + decimal(turns@.len()) + " 轮，显示最近 "@ + decimal(limit as nat) + " 轮）"@]);
    string_of(join_parts(lines.as_slice(), "\n").as_slice())
}

/// A conversation as the list shows it.
#[derive(Debug, Clone)]
pub struct ConversationSummary {
    pub conversation_id: String,
    pub turn_count: u64,
    pub timestamp: Option<String>,
    pub snippet: String,
}

pub open spec fn summary_entry(s: ConversationSummary) -> Seq<char> {
    "- "@ + conversation_title(s.conversation_id@) + "（id: "@ + s.conversation_id@ + "，"@ + decimal(
        s.turn_count as nat,
    ) + " 轮，最近 "@ + match s.timestamp {
        Some(t) => t@,
        None => seq![],
    } + "）\n  "@ + s.snippet@
}

/// The text of the list: a count line, one entry per conversation (its
/// snippet on a second, indented line) and how to read one.
pub open spec fn list_text(ss: Seq<ConversationSummary>) -> Seq<char> {
    if ss.len() == 0 {
        "QQ 平台暂无会话记录（还没有 QQ 消息进来，或 channel 不是 qq）。"@
    } else {
        join_with(
            seq!["QQ 平台共 "@ + decimal(ss.len()) + " 个会话："@] + ss.map_values(
                |s: ConversationSummary| summary_entry(s),
            ) + seq!["读取某会话内容：action=read + conversation_id=<id>。"@],
            "\n"@,
        )
    }
}

fn summary_entry_exec(s: &ConversationSummary) -> (r: Vec<char>)
    ensures
        r@ == summary_entry(*s),
{
    let v = chars_of(s.conversation_id.as_str());
    let mut out = chars_of("- ");
    if has_prefix_str(v.as_slice(), "qq-g-") {
        extend_str(&mut out, "群聊 ");
        extend_chars(&mut out, strip_all_prefix_chars(v.as_slice(), "qq-g-").as_slice());
    } else if has_prefix_str(v.as_slice(), "qq-p-") {
        extend_str(&mut out, "私聊 QQ ");
        extend_chars(&mut out, strip_all_prefix_chars(v.as_slice(), "qq-p-").as_slice());
    } else {
        extend_chars(&mut out, v.as_slice());
    }
    extend_str(&mut out, "（id: ");
    extend_chars(&mut out, v.as_slice());
    extend_str(&mut out, "，");
    extend_chars(&mut out, u64_decimal(s.turn_count).as_slice());
    extend_str(&mut out, " 轮，最近 ");
    match &s.timestamp {
        Some(t) => extend_str(&mut out, t.as_str()),
        None => {},
    }
    extend_str(&mut out, "）\n  ");
    extend_str(&mut out, s.snippet.as_str());
    out
}

/// The text `action=list` answers with.
pub fn list_reply(summaries: &[ConversationSummary]) -> (r: String)
    ensures
        r@ == list_text(summaries@),
{
    if summaries.len() == 0 {
        return "QQ 平台暂无会话记录（还没有 QQ 消息进来，或 channel 不是 qq）。".to_string();
    }
    let mut header = chars_of("QQ 平台共 ");
    extend_chars(&mut header, u64_decimal(summaries.len() as u64).as_slice());
    extend_str(&mut header, " 个会话：");
    let mut lines: Vec<Vec<char>> = Vec::new();
    lines.push(header);
    let ghost head = lines_view(lines@);
    let ghost entries = summaries@.map_values(|s: ConversationSummary| summary_entry(s));
    let mut i: usize = 0;
    while i < summaries.len()
        invariant
            i <= summaries@.len(),
            entries == summaries@.map_values(|s: ConversationSummary| summary_entry(s)),
            lines_view(lines@) == head + entries.take(i as int),
        decreases summaries.len() - i,
    {
        let ghost prev = lines@;
        let e = summary_entry_exec(&summaries[i]);
        lines.push(e);
        assert(entries[i as int] == summary_entry(summaries@[i as int]));
        assert(lines_view(lines@) =~= lines_view(prev).push(e@));
        assert(entries.take(i + 1) =~= entries.take(i as int).push(entries[i as int]));
        assert(lines_view(lines@) =~= head + entries.take(i + 1));
        i += 1;
    }
    let ghost before_last = lines@;
    let last = chars_of("读取某会话内容：action=read + conversation_id=<id>。");
    lines.push(last);
    assert(entries.take(summaries@.len() as int) =~= entries);
    assert(lines_view(lines@) =~= lines_view(before_last).push(last@));
    assert(head =~= seq!["QQ 平台共 "@ + decimal(summaries@.len()) + " 个会话："@]);
    assert(lines_view(lines@) =~= seq!["QQ 平台共 "@ + decimal(summaries@.len()) + " 个会话："@] + entries + seq![
        "读取某会话内容：action=read + conversation_id=<id>。"@]);
    assert(lines@.map_values(|p: Vec<char>| p@) == lines_view(lines@));
    string_of(join_parts(lines.as_slice(), "\n").as_slice())
}

} // verus!
