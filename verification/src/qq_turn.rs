//! The rules of a QQ turn: which conversation a message belongs to, which
//! administrator commands it is, whether the bot answers at all, how many turns
//! a conversation may run at once, and what the agent is told about the sender.
//! The NapCat API calls and the agent itself are run by the caller.
use vstd::prelude::*;
use crate::json::{as_i64, as_str, deref_opt, get_opt, json_as_i64, json_as_str, json_get_opt, JsonValue};
use crate::numbers::{decimal, parse_i64, parse_i64_chars, parse_unsigned, parse_unsigned_chars, i64_decimal, signed_decimal, u64_decimal};
use crate::provider::strings_view;
use crate::text::{
    chars_of, contains, contains_str, extend_chars, extend_str, join_with, slice_chars, split_ws,
    split_whitespace_chars, starts_with, str_is, string_of, strip_all_prefix,
    strip_all_prefix_chars, trim, trim_chars, trim_str, has_prefix_str,
};

verus! {

// ---------------------------------------------------------------- conversations

/// `qq-g-<group>` for a group message (group 0 when unknown), else
/// `qq-p-<user>`.
pub open spec fn conversation_of(message_type: Seq<char>, group_id: Option<i64>, user_id: i64) -> Seq<char> {
    if message_type == "group"@ {
        "qq-g-"@ + signed_decimal(
            match group_id {
                Some(g) => g as int,
                None => 0,
            },
        )
    } else {
        "qq-p-"@ + signed_decimal(user_id as int)
    }
}

pub fn conversation_id(message_type: &str, group_id: Option<i64>, user_id: i64) -> (r: String)
    ensures
        r@ == conversation_of(message_type@, group_id, user_id),
{
    let t = chars_of(message_type);
    if str_is(t.as_slice(), "group") {
        let g = match group_id {
            Some(g) => g,
            None => 0,
        };
        let mut out = chars_of("qq-g-");
        let d = i64_decimal(g);
        extend_chars(&mut out, d.as_slice());
        string_of(out.as_slice())
    } else {
        let mut out = chars_of("qq-p-");
        let d = i64_decimal(user_id);
        extend_chars(&mut out, d.as_slice());
        string_of(out.as_slice())
    }
}

// ---------------------------------------------------------------- administrator commands

/// How an administrator's `/` message is handled before any turn.
#[derive(Debug, Clone, Copy, PartialEq, Eq, Structural)]
pub enum AdminRoute {
    /// `/stop`: cancel the conversation's running turn.
    Stop,
    /// `/connections`: list the connected accounts.
    Connections,
    /// Any other command.
    Command,
}

pub fn admin_route(text: &str, is_admin: bool) -> (r: Option<AdminRoute>)
    ensures
        r == if starts_with(text@, "/"@) && is_admin {
            if trim(text@) == "/stop"@ {
                Some(AdminRoute::Stop)
            } else if trim(text@) == "/connections"@ {
                Some(AdminRoute::Connections)
            } else {
                Some(AdminRoute::Command)
            }
        } else {
            None
        },
{
    let t = chars_of(text);
    if !(has_prefix_str(t.as_slice(), "/") && is_admin) {
        return None;
    }
    let tr = trim_chars(t.as_slice());
    if str_is(tr.as_slice(), "/stop") {
        Some(AdminRoute::Stop)
    } else if str_is(tr.as_slice(), "/connections") {
        Some(AdminRoute::Connections)
    } else {
        Some(AdminRoute::Command)
    }
}

/// The reply to `/stop`.
pub fn stop_notice() -> (r: &'static str)
    ensures
        r@ == "已停止当前回合，下一条消息重新开始。"@,
{
    "已停止当前回合，下一条消息重新开始。"
}

pub open spec fn account_line(id: i64, last_active: i64, now: i64) -> Seq<char> {
    let age = now - last_active;
    "QQ "@ + signed_decimal(id as int) + "（"@ + signed_decimal(if age < 0 { 0 } else { age })
        + " 秒前活跃）"@
}

pub open spec fn account_lines(accounts: Seq<(i64, i64)>, now: i64) -> Seq<Seq<char>> {
    accounts.map_values(|a: (i64, i64)| account_line(a.0, a.1, now))
}

/// The reply to `/connections`: each connected account with how long ago it
/// was last active, one per line.
pub open spec fn connections_text(accounts: Seq<(i64, i64)>, now: i64) -> Seq<char> {
    if accounts.len() == 0 {
        "当前没有 NapCat 连接。"@
    } else {
        "已连接账号：\n"@ + join_with(account_lines(accounts, now), "\n"@)
    }
}

fn account_line_exec(id: i64, last_active: i64, now: i64) -> (r: Vec<char>)
    requires
        i64::MIN <= now - last_active <= i64::MAX,
    ensures
        r@ == account_line(id, last_active, now),
{
    let age = now - last_active;
    let mut out = chars_of("QQ ");
    extend_chars(&mut out, i64_decimal(id).as_slice());
    extend_str(&mut out, "（");
    extend_chars(
        &mut out,
        i64_decimal(
            if age < 0 {
                0
            } else {
                age
            },
        ).as_slice(),
    );
    extend_str(&mut out, " 秒前活跃）");
    out
}

pub fn connections_reply(accounts: &[(i64, i64)], now: i64) -> (r: String)
    requires
        forall|k: int|
            0 <= k < accounts@.len() ==> i64::MIN <= now - (#[trigger] accounts@[k]).1 <= i64::MAX,
    ensures
        r@ == connections_text(accounts@, now),
{
    if accounts.len() == 0 {
        return "当前没有 NapCat 连接。".to_string();
    }
    let ghost lines = account_lines(accounts@, now);
    let mut out = chars_of("已连接账号：\n");
    let ghost start = out@;
    let first = account_line_exec(accounts[0].0, accounts[0].1, now);
    extend_chars(&mut out, first.as_slice());
    assert(lines.take(1) =~= seq![lines[0]]);
    let mut i: usize = 1;
    while i < accounts.len()
        invariant
            1 <= i <= accounts.len(),
            lines == account_lines(accounts@, now),
            forall|k: int|
                0 <= k < accounts@.len() ==> i64::MIN <= now - (#[trigger] accounts@[k]).1 <= i64::MAX,
            out@ == start + join_with(lines.take(i as int), "\n"@),
        decreases accounts.len() - i,
    {
        extend_str(&mut out, "\n");
        let l = account_line_exec(accounts[i].0, accounts[i].1, now);
        extend_chars(&mut out, l.as_slice());
        proof {
            assert(lines.take(i + 1).drop_last() =~= lines.take(i as int));
            assert(lines.take(i + 1).last() == lines[i as int]);
        }
        i += 1;
    }
    assert(lines.take(accounts.len() as int) =~= lines);
    string_of(out.as_slice())
}

/// A command an administrator can give.
#[derive(Debug, Clone, Copy, PartialEq, Eq, Structural)]
pub enum AdminCommand {
    Status,
    Help,
    Affection,
    Conversations,
    /// Ban a group member for some minutes.
    Mute { target: i64, minutes: u64 },
    Unmute { target: i64 },
    Kick { target: i64 },
    /// Leave the group.
    Quit,
}

/// The longest ban, in minutes (thirty days).
pub const MAX_MUTE_MINUTES: u64 = 43200;

/// The command a trimmed message gives: the plain commands anywhere, the group
/// commands only in a known group; a target that is not a QQ number gives
/// none, a missing or unreadable duration means an hour, capped at thirty days.
pub open spec fn admin_command_of(text: Seq<char>, is_group: bool, group_id: Option<i64>) -> Option<AdminCommand> {
    let t = trim(text);
    if t == "/status"@ {
        Some(AdminCommand::Status)
    } else if t == "/help"@ {
        Some(AdminCommand::Help)
    } else if t == "/affection"@ {
        Some(AdminCommand::Affection)
    } else if t == "/conversations"@ {
        Some(AdminCommand::Conversations)
    } else if is_group && group_id != Some(0i64) && group_id is Some {
        let parts = split_ws(t);
        let cmd = if parts.len() > 0 { parts[0] } else { seq![] };
        if cmd == "/mute"@ && parts.len() >= 2 {
            match parse_i64(parts[1]) {
                Some(target) => {
                    let d = if parts.len() >= 3 {
                        match parse_unsigned(parts[2], u64::MAX as nat) {
                            Some(v) => v,
                            None => 60,
                        }
                    } else {
                        60
                    };
                    Some(
                        AdminCommand::Mute {
                            target: target as i64,
                            minutes: (if d > 43200 { 43200 } else { d }) as u64,
                        },
                    )
                },
                None => None,
            }
        } else if cmd == "/unmute"@ && parts.len() >= 2 {
            match parse_i64(parts[1]) {
                Some(target) => Some(AdminCommand::Unmute { target: target as i64 }),
                None => None,
            }
        } else if cmd == "/kick"@ && parts.len() >= 2 {
            match parse_i64(parts[1]) {
                Some(target) => Some(AdminCommand::Kick { target: target as i64 }),
                None => None,
            }
        } else if cmd == "/quit"@ {
            Some(AdminCommand::Quit)
        } else {
            None
        }
    } else {
        None
    }
}

pub fn admin_command(text: &str, message_type: &str, group_id: Option<i64>) -> (r: Option<AdminCommand>)
    ensures
        r == admin_command_of(text@, message_type@ == "group"@, group_id),
{
    let t = trim_str(text);
    let ts = t.as_slice();
    if str_is(ts, "/status") {
        return Some(AdminCommand::Status);
    }
    if str_is(ts, "/help") {
        return Some(AdminCommand::Help);
    }
    if str_is(ts, "/affection") {
        return Some(AdminCommand::Affection);
    }
    if str_is(ts, "/conversations") {
        return Some(AdminCommand::Conversations);
    }
    let is_group = str_is(chars_of(message_type).as_slice(), "group");
    let known_group = match group_id {
        Some(g) => g != 0,
        None => false,
    };
    if !(is_group && known_group) {
        return None;
    }
    let parts = split_whitespace_chars(ts);
    let ghost pv = split_ws(t@);
    let empty: Vec<char> = Vec::new();
    let cmd: &[char] = if parts.len() > 0 {
        parts[0].as_slice()
    } else {
        empty.as_slice()
    };
    assert(cmd@ == (if pv.len() > 0 { pv[0] } else { seq![] }));
    if str_is(cmd, "/mute") && parts.len() >= 2 {
        let target = match parse_i64_chars(parts[1].as_slice()) {
            Some(v) => v,
            None => { return None; },
        };
        let d: u64 = if parts.len() >= 3 {
            match parse_unsigned_chars(parts[2].as_slice(), u64::MAX) {
                Some(v) => v,
                None => 60,
            }
        } else {
            60
        };
        let minutes = if d > MAX_MUTE_MINUTES {
            MAX_MUTE_MINUTES
        } else {
            d
        };
        return Some(AdminCommand::Mute { target, minutes });
    }
    if str_is(cmd, "/unmute") && parts.len() >= 2 {
        return match parse_i64_chars(parts[1].as_slice()) {
            Some(target) => Some(AdminCommand::Unmute { target }),
            None => None,
        };
    }
    if str_is(cmd, "/kick") && parts.len() >= 2 {
        return match parse_i64_chars(parts[1].as_slice()) {
            Some(target) => Some(AdminCommand::Kick { target }),
            None => None,
        };
    }
    if str_is(cmd, "/quit") {
        return Some(AdminCommand::Quit);
    }
    None
}

/// The fixed replies: the bot's status and the command list.
pub fn fixed_admin_reply(cmd: AdminCommand) -> (r: Option<&'static str>)
    ensures
        match cmd {
            AdminCommand::Status => r matches Some(s) && s@ == "顾清影 QQ 在线。"@,
            AdminCommand::Help => r matches Some(s) && s@
                == "可用管理指令：/status 在线状态 · /affection 好感度 · /mute <QQ> <分钟> 禁言群成员 · /unmute <QQ> 解除禁言 · /kick <QQ> 移出群 · /quit 退出本群 · /conversations 列出 QQ 会话"@,
            _ => r is None,
        },
{
    match cmd {
        AdminCommand::Status => Some("顾清影 QQ 在线。"),
        AdminCommand::Help => Some(
            "可用管理指令：/status 在线状态 · /affection 好感度 · /mute <QQ> <分钟> 禁言群成员 · /unmute <QQ> 解除禁言 · /kick <QQ> 移出群 · /quit 退出本群 · /conversations 列出 QQ 会话",
        ),
        _ => None,
    }
}

/// What a group command reports once NapCat carried it out.
pub open spec fn group_action_done_text(cmd: AdminCommand) -> Option<Seq<char>> {
    match cmd {
        AdminCommand::Mute { target, minutes } => Some(
            "已禁言 QQ "@ + signed_decimal(target as int) + " "@ + decimal(minutes as nat) + " 分钟。"@,
        ),
        AdminCommand::Unmute { target } => Some("已解除 QQ "@ + signed_decimal(target as int) + " 的禁言。"@),
        AdminCommand::Kick { target } => Some("已将 QQ "@ + signed_decimal(target as int) + " 移出本群。"@),
        AdminCommand::Quit => Some("已退出本群。"@),
        _ => None,
    }
}

pub fn group_action_done(cmd: AdminCommand) -> (r: Option<String>)
    ensures
        match r {
            Some(s) => group_action_done_text(cmd) == Some(s@),
            None => group_action_done_text(cmd) is None,
        },
{
    match cmd {
        AdminCommand::Mute { target, minutes } => {
            let mut out = chars_of("已禁言 QQ ");
            extend_chars(&mut out, i64_decimal(target).as_slice());
            extend_str(&mut out, " ");
            extend_chars(&mut out, u64_decimal(minutes).as_slice());
            extend_str(&mut out, " 分钟。");
            Some(string_of(out.as_slice()))
        },
        AdminCommand::Unmute { target } => {
            let mut out = chars_of("已解除 QQ ");
            extend_chars(&mut out, i64_decimal(target).as_slice());
            extend_str(&mut out, " 的禁言。");
            Some(string_of(out.as_slice()))
        },
        AdminCommand::Kick { target } => {
            let mut out = chars_of("已将 QQ ");
            extend_chars(&mut out, i64_decimal(target).as_slice());
            extend_str(&mut out, " 移出本群。");
            Some(string_of(out.as_slice()))
        },
        AdminCommand::Quit => Some("已退出本群。".to_string()),
        _ => None,
    }
}

/// How a QQ conversation is listed: `群聊 <group>`, `私聊 QQ <user>`, or its id.
pub open spec fn conversation_title(id: Seq<char>) -> Seq<char> {
    if starts_with(id, "qq-g-"@) {
        "群聊 "@ + strip_all_prefix(id, "qq-g-"@)
    } else if starts_with(id, "qq-p-"@) {
        "私聊 QQ "@ + strip_all_prefix(id, "qq-p-"@)
    } else {
        id
    }
}

pub open spec fn conversation_entry(id: Seq<char>, turns: u64) -> Seq<char> {
    "- "@ + conversation_title(id) + "（id: "@ + id + "，"@ + decimal(turns as nat) + " 轮）"@
}

pub open spec fn conversation_entries(s: Seq<(String, u64)>) -> Seq<Seq<char>> {
    s.map_values(|e: (String, u64)| conversation_entry(e.0@, e.1))
}

/// The reply to `/conversations`: a count line and the first fifteen
/// conversations, one per line.
pub open spec fn conversations_text(s: Seq<(String, u64)>) -> Seq<char> {
    if s.len() == 0 {
        "QQ 平台暂无会话记录。"@
    } else {
        let shown = if s.len() <= 15 { s } else { s.take(15) };
        join_with(
            seq!["QQ 平台共 "@ + decimal(s.len()) + " 个会话："@] + conversation_entries(shown),
            "\n"@,
        )
    }
}

fn conversation_entry_exec(id: &str, turns: u64) -> (r: Vec<char>)
    ensures
        r@ == conversation_entry(id@, turns),
{
    let v = chars_of(id);
    let mut out = chars_of("- ");
    if has_prefix_str(v.as_slice(), "qq-g-") {
        extend_str(&mut out, "群聊 ");
        extend_chars(&mut out, strip_all_prefix_chars(v.as_slice(), "qq-g-").as_slice());
    } else if has_prefix_str(v.as_slice(), "qq-p-") {
        extend_str(&mut out, "私聊 QQ ");
        extend_chars(&mut out, strip_all_prefix_chars(v.as_slice(), "qq-p-").as_slice());
    } else {
        extend_chars(&mut out, v.as_slice());
    }
    extend_str(&mut out, "（id: ");
    extend_chars(&mut out, v.as_slice());
    extend_str(&mut out, "，");
    extend_chars(&mut out, u64_decimal(turns).as_slice());
    extend_str(&mut out, " 轮）");
    out
}

pub fn conversations_reply(summaries: &[(String, u64)]) -> (r: String)
    ensures
        r@ == conversations_text(summaries@),
{
    if summaries.len() == 0 {
        return "QQ 平台暂无会话记录。".to_string();
    }
    let n = if summaries.len() <= 15 {
        summaries.len()
    } else {
        15
    };
    let ghost shown = if summaries@.len() <= 15 { summaries@ } else { summaries@.take(15) };
    let ghost all = seq!["QQ 平台共 "@ + decimal(summaries@.len()) + " 个会话："@] + conversation_entries(shown);
    let mut out = chars_of("QQ 平台共 ");
    extend_chars(&mut out, u64_decimal(summaries.len() as u64).as_slice());
    extend_str(&mut out, " 个会话：");
    assert(all.take(1) =~= seq![out@]);
    let mut i: usize = 0;
    while i < n
        invariant
            n == shown.len(),
            n <= summaries.len(),
            forall|k: int| 0 <= k < n ==> #[trigger] shown[k] == summaries@[k],
            all == seq!["QQ 平台共 "@ + decimal(summaries@.len()) + " 个会话："@] + conversation_entries(shown),
            i <= n,
            out@ == join_with(all.take(i + 1), "\n"@),
        decreases n - i,
    {
        extend_str(&mut out, "\n");
        let e = conversation_entry_exec(summaries[i].0.as_str(), summaries[i].1);
        extend_chars(&mut out, e.as_slice());
        proof {
            assert(all.take(i + 2).drop_last() =~= all.take(i + 1));
            assert(all.take(i + 2).last() == all[i + 1]);
            assert(all[i + 1] == conversation_entry(shown[i as int].0@, shown[i as int].1));
        }
        i += 1;
    }
    assert(all.take(n + 1) =~= all);
    string_of(out.as_slice())
}

// ---------------------------------------------------------------- answering at all

/// In a group the bot answers only when it is mentioned, called by name
/// (`清影`) or a wake-up keyword matches; in private chats always.
pub open spec fn answers(message_type: Seq<char>, mentioned: bool, text: Seq<char>, keyword_hit: bool) -> bool {
    !(message_type == "group"@ && !mentioned && !contains(text, "清影"@) && !keyword_hit)
}

pub fn group_should_respond(message_type: &str, mentioned: bool, text: &str, keyword_hit: bool) -> (r: bool)
    ensures
        r == answers(message_type@, mentioned, text@, keyword_hit),
{
    let t = chars_of(message_type);
    let x = chars_of(text);
    !(str_is(t.as_slice(), "group") && !mentioned && !contains_str(x.as_slice(), "清影") && !keyword_hit)
}

/// A cached mute state is good for 30 seconds: within that, whether the bot is
/// still muted; after it, unknown.
pub fn cached_mute(now: i64, mute_until: i64, checked_at: i64) -> (r: Option<bool>)
    requires
        i64::MIN <= now - checked_at <= i64::MAX,
    ensures
        r == if now - checked_at < 30 {
            Some(now < mute_until)
        } else {
            None
        },
{
    if now - checked_at < 30 {
        Some(now < mute_until)
    } else {
        None
    }
}

/// Until when the bot is muted, as `get_group_member_info` reports it
/// (`data.shut_up_timestamp`); 0 when it does not say.
pub fn shut_up_until(data: Option<&JsonValue>) -> (r: i64)
    ensures
        r == match as_i64(get_opt(deref_opt(data), "shut_up_timestamp"@)) {
            Some(t) => t,
            None => 0,
        },
{
    match json_as_i64(json_get_opt(data, "shut_up_timestamp")) {
        Some(t) => t,
        None => 0,
    }
}

// ---------------------------------------------------------------- turns running at once

/// How many turns each conversation is running.
pub struct SessionGate {
    pub running: Vec<(String, u32)>,
}

pub open spec fn gate_view(g: Seq<(String, u32)>) -> Seq<(Seq<char>, u32)> {
    g.map_values(|e: (String, u32)| (e.0@, e.1))
}

/// Turns a conversation is running (0 when it has none).
pub open spec fn running_of(g: Seq<(Seq<char>, u32)>, conv: Seq<char>) -> u32
    decreases g.len(),
{
    if g.len() == 0 {
        0
    } else if g[0].0 == conv {
        g[0].1
    } else {
        running_of(g.drop_first(), conv)
    }
}

/// Each conversation is listed once, with at least one turn.
pub open spec fn gate_wf(g: Seq<(Seq<char>, u32)>) -> bool {
    &&& forall|i: int, j: int| 0 <= i < j < g.len() ==> g[i].0 != g[j].0
    &&& forall|i: int| 0 <= i < g.len() ==> g[i].1 >= 1
}

pub proof fn lemma_running_of(g: Seq<(Seq<char>, u32)>, conv: Seq<char>)
    requires
        gate_wf(g),
    ensures
        forall|i: int| 0 <= i < g.len() && g[i].0 == conv ==> running_of(g, conv) == g[i].1,
        (forall|i: int| 0 <= i < g.len() ==> g[i].0 != conv) ==> running_of(g, conv) == 0,
    decreases g.len(),
{
    if g.len() > 0 {
        let rest = g.drop_first();
        assert forall|i: int, j: int| 0 <= i < j < rest.len() implies rest[i].0 != rest[j].0 by {
            assert(rest[i] == g[i + 1] && rest[j] == g[j + 1]);
        }
        assert forall|i: int| 0 <= i < rest.len() implies rest[i].1 >= 1 by {
            assert(rest[i] == g[i + 1]);
        }
        lemma_running_of(rest, conv);
        assert forall|i: int| 0 <= i < g.len() && g[i].0 == conv implies running_of(g, conv) == g[i].1 by {
            if i > 0 {
                assert(rest[i - 1] == g[i]);
                assert(g[0].0 != g[i].0);
            }
        }
        assert forall|i: int| 0 <= i < rest.len() implies #[trigger] rest[i] == g[i + 1] by {}
    }
}

fn position_of(g: &Vec<(String, u32)>, conv: &str) -> (r: Option<usize>)
    ensures
        match r {
            Some(i) => i < g@.len() && g@[i as int].0@ == conv@,
            None => forall|i: int| 0 <= i < g@.len() ==> g@[i].0@ != conv@,
        },
{
    let c = chars_of(conv);
    let mut i: usize = 0;
    while i < g.len()
        invariant
            i <= g.len(),
            c@ == conv@,
            forall|k: int| 0 <= k < i ==> g@[k].0@ != conv@,
        decreases g.len() - i,
    {
        if crate::text::seq_eq(chars_of(g[i].0.as_str()).as_slice(), c.as_slice()) {
            return Some(i);
        }
        i += 1;
    }
    None
}

impl SessionGate {
    pub fn new() -> (r: SessionGate)
        ensures
            r.running@.len() == 0,
    {
        SessionGate { running: Vec::new() }
    }

    pub open spec fn view_of(&self) -> Seq<(Seq<char>, u32)> {
        gate_view(self.running@)
    }

    /// Starts a turn: refused (returns false) when the conversation already runs
    /// one and the sender is no administrator; otherwise counted.
    pub fn enter(&mut self, conv: &str, is_admin: bool) -> (admitted: bool)
        requires
            gate_wf(old(self).view_of()),
            running_of(old(self).view_of(), conv@) < u32::MAX,
        ensures
            gate_wf(final(self).view_of()),
            admitted == (running_of(old(self).view_of(), conv@) == 0 || is_admin),
            admitted ==> running_of(final(self).view_of(), conv@) == running_of(old(self).view_of(), conv@) + 1,
            !admitted ==> final(self).view_of() == old(self).view_of(),
            forall|other: Seq<char>|
                other != conv@ ==> running_of(final(self).view_of(), other) == running_of(
                    old(self).view_of(),
                    other,
                ),
    {
        let ghost before = self.view_of();
        proof {
            lemma_running_of(before, conv@);
        }
        match position_of(&self.running, conv) {
            Some(i) => {
                let n = self.running[i].1;
                assert(before[i as int] == (self.running@[i as int].0@, n));
                assert(before[i as int].0 == conv@);
                if n >= 1 && !is_admin {
                    return false;
                }
                let name = self.running[i].0.clone();
                self.running.set(i, (name, n + 1));
                proof {
                    let after = self.view_of();
                    assert(after =~= before.update(i as int, (conv@, (n + 1) as u32)));
                    lemma_running_of(after, conv@);
                    assert(after[i as int].0 == conv@);
                    assert forall|other: Seq<char>| other != conv@ implies running_of(after, other)
                        == running_of(before, other) by {
                        lemma_running_of(after, other);
                        lemma_running_of(before, other);
                        if exists|k: int| 0 <= k < before.len() && before[k].0 == other {
                            let k = choose|k: int| 0 <= k < before.len() && before[k].0 == other;
                            assert(after[k] == before[k]);
                        } else {
                            assert forall|k: int| 0 <= k < after.len() implies after[k].0 != other by {
                                if k != i {
                                    assert(after[k] == before[k]);
                                }
                            }
                        }
                    }
                }
                true
            },
            None => {
                self.running.push((conv.to_string(), 1));
                proof {
                    let after = self.view_of();
                    assert(after =~= before.push((conv@, 1u32)));
                    lemma_running_of(after, conv@);
                    assert(after[before.len() as int].0 == conv@);
                    assert forall|other: Seq<char>| other != conv@ implies running_of(after, other)
                        == running_of(before, other) by {
                        lemma_running_of(after, other);
                        lemma_running_of(before, other);
                        if exists|k: int| 0 <= k < before.len() && before[k].0 == other {
                            let k = choose|k: int| 0 <= k < before.len() && before[k].0 == other;
                            assert(after[k] == before[k]);
                        } else {
                            assert forall|k: int| 0 <= k < after.len() implies after[k].0 != other by {
                                if k < before.len() {
                                    assert(after[k] == before[k]);
                                }
                            }
                        }
                    }
                }
                true
            },
        }
    }

    /// Ends a turn: one turn fewer, and a conversation with none left is
    /// dropped.
    pub fn leave(&mut self, conv: &str)
        requires
            gate_wf(old(self).view_of()),
        ensures
            gate_wf(final(self).view_of()),
            running_of(final(self).view_of(), conv@) == if running_of(old(self).view_of(), conv@)
                == 0 {
                0
            } else {
                (running_of(old(self).view_of(), conv@) - 1) as u32
            },
            forall|other: Seq<char>|
                other != conv@ ==> running_of(final(self).view_of(), other) == running_of(
                    old(self).view_of(),
                    other,
                ),
    {
        let ghost before = self.view_of();
        proof {
            lemma_running_of(before, conv@);
        }
        match position_of(&self.running, conv) {
            Some(i) => {
                let n = self.running[i].1;
                assert(before[i as int] == (self.running@[i as int].0@, n));
                assert(before[i as int].0 == conv@);
                if n <= 1 {
                    self.running.remove(i);
                    proof {
                        let after = self.view_of();
                        assert(after =~= before.remove(i as int));
                        assert forall|k: int, j: int| 0 <= k < j < after.len() implies after[k].0 != after[j].0 by {
                            let kk = if k < i { k } else { k + 1 };
                            let jj = if j < i { j } else { j + 1 };
                            assert(after[k] == before[kk] && after[j] == before[jj]);
                        }
                        assert forall|k: int| 0 <= k < after.len() implies after[k].1 >= 1 by {
                            let kk = if k < i { k } else { k + 1 };
                            assert(after[k] == before[kk]);
                        }
                        lemma_running_of(after, conv@);
                        assert forall|k: int| 0 <= k < after.len() implies after[k].0 != conv@ by {
                            let kk = if k < i { k } else { k + 1 };
                            assert(after[k] == before[kk]);
                        }
                        assert forall|other: Seq<char>| other != conv@ implies running_of(after, other)
                            == running_of(before, other) by {
                            lemma_running_of(after, other);
                            lemma_running_of(before, other);
                            if exists|k: int| 0 <= k < before.len() && before[k].0 == other {
                                let k = choose|k: int| 0 <= k < before.len() && before[k].0 == other;
                                let kk = if k < i { k } else { k - 1 };
                                assert(after[kk] == before[k]);
                            } else {
                                assert forall|k: int| 0 <= k < after.len() implies after[k].0 != other by {
                                    let kk = if k < i { k } else { k + 1 };
                                    assert(after[k] == before[kk]);
                                }
                            }
                        }
                    }
                } else {
                    let name = self.running[i].0.clone();
                    self.running.set(i, (name, n - 1));
                    proof {
                        let after = self.view_of();
                        assert(after =~= before.update(i as int, (conv@, (n - 1) as u32)));
                        lemma_running_of(after, conv@);
                        assert(after[i as int].0 == conv@);
                        assert forall|other: Seq<char>| other != conv@ implies running_of(after, other)
                            == running_of(before, other) by {
                            lemma_running_of(after, other);
                            lemma_running_of(before, other);
                            if exists|k: int| 0 <= k < before.len() && before[k].0 == other {
                                let k = choose|k: int| 0 <= k < before.len() && before[k].0 == other;
                                assert(after[k] == before[k]);
                            } else {
                                assert forall|k: int| 0 <= k < after.len() implies after[k].0 != other by {
                                    if k != i {
                                        assert(after[k] == before[k]);
                                    }
                                }
                            }
                        }
                    }
                }
            },
            None => {},
        }
    }
}

/// A turn that was let in and then ends leaves every conversation's count as
/// it was: `g1` is what `enter` made of `g0` when it admitted the turn, `g2`
/// what `leave` made of `g1`.
pub proof fn lemma_enter_then_leave_restores(
    g0: Seq<(Seq<char>, u32)>,
    g1: Seq<(Seq<char>, u32)>,
    g2: Seq<(Seq<char>, u32)>,
    conv: Seq<char>,
)
    requires
        running_of(g1, conv) == running_of(g0, conv) + 1,
        forall|other: Seq<char>| other != conv ==> running_of(g1, other) == running_of(g0, other),
        running_of(g2, conv) == if running_of(g1, conv) == 0 {
            0
        } else {
            (running_of(g1, conv) - 1) as u32
        },
        forall|other: Seq<char>| other != conv ==> running_of(g2, other) == running_of(g1, other),
    ensures
        forall|x: Seq<char>| running_of(g2, x) == running_of(g0, x),
{
}

/// The notice sent when a conversation is busy.
pub fn busy_notice() -> (r: &'static str)
    ensures
        r@ == "当前会话正在处理上一条消息，稍等一下再发哦。"@,
{
    "当前会话正在处理上一条消息，稍等一下再发哦。"
}


// ---------------------------------------------------------------- what the agent is told

/// `data.group_name`, and `data.announcement` (or `data.intro` when there is no
/// announcement) trimmed, as `get_group_info` reports them; empty when absent.
pub open spec fn group_info_of(data: Option<JsonValue>) -> (Seq<char>, Seq<char>) {
    let name = match as_str(get_opt(data, "group_name"@)) {
        Some(n) => n,
        None => seq![],
    };
    let a = if get_opt(data, "announcement"@) is Some {
        get_opt(data, "announcement"@)
    } else {
        get_opt(data, "intro"@)
    };
    let announce = match as_str(a) {
        Some(t) => trim(t),
        None => seq![],
    };
    (name, announce)
}

pub fn group_info_fields(data: Option<&JsonValue>) -> (r: (String, String))
    ensures
        (r.0@, r.1@) == group_info_of(deref_opt(data)),
{
    let name = match json_as_str(json_get_opt(data, "group_name")) {
        Some(n) => n.to_string(),
        None => String::new(),
    };
    let a = match json_get_opt(data, "announcement") {
        Some(x) => Some(x),
        None => json_get_opt(data, "intro"),
    };
    let announce = match json_as_str(a) {
        Some(t) => string_of(trim_str(t).as_slice()),
        None => String::new(),
    };
    (name, announce)
}

/// A group member's name as `get_group_member_info` reports it: the group
/// card when not empty, else the nickname, else empty.
pub open spec fn member_name_of(data: Option<JsonValue>) -> Seq<char> {
    match as_str(get_opt(data, "card"@)) {
        Some(c) if c.len() > 0 => c,
        _ => match as_str(get_opt(data, "nickname"@)) {
            Some(n) => n,
            None => seq![],
        },
    }
}

pub fn member_name(data: Option<&JsonValue>) -> (r: String)
    ensures
        r@ == member_name_of(deref_opt(data)),
{
    match json_as_str(json_get_opt(data, "card")) {
        Some(c) => {
            if chars_of(c).len() > 0 {
                return c.to_string();
            }
        },
        None => {},
    }
    match json_as_str(json_get_opt(data, "nickname")) {
        Some(n) => n.to_string(),
        None => String::new(),
    }
}

/// A stranger's nickname as `get_stranger_info` reports it, or empty.
pub fn stranger_name(data: Option<&JsonValue>) -> (r: String)
    ensures
        r@ == match as_str(get_opt(deref_opt(data), "nickname"@)) {
            Some(n) => n,
            None => seq![],
        },
{
    match json_as_str(json_get_opt(data, "nickname")) {
        Some(n) => n.to_string(),
        None => String::new(),
    }
}

pub open spec fn sender_who(sender_name: Seq<char>, user_id: i64) -> Seq<char> {
    if sender_name.len() == 0 {
        "QQ "@ + signed_decimal(user_id as int)
    } else {
        sender_name + "（QQ "@ + signed_decimal(user_id as int) + "）"@
    }
}

/// Who is speaking and where, as the turn's first line: in a group the group
/// (by name when known) and the sender, and the group's notice (its first 200
/// characters) when there is one; in a private chat the sender.
pub open spec fn sender_context_text(
    is_group: bool,
    group_id: i64,
    group_name: Seq<char>,
    announce: Seq<char>,
    sender_name: Seq<char>,
    user_id: i64,
) -> Seq<char> {
    if is_group {
        let who = sender_who(sender_name, user_id);
        let ctx = if group_name.len() == 0 {
            "[QQ 群聊] 群号 "@ + signed_decimal(group_id as int) + "，发消息的人 "@ + who + "。"@
        } else {
            "[QQ 群聊] 群「"@ + group_name + "」（群号 "@ + signed_decimal(group_id as int)
                + "），发消息的人 "@ + who + "。"@
        };
        if announce.len() == 0 {
            ctx
        } else {
            ctx + "\n[本群公告："@ + (if announce.len() <= 200 { announce } else { announce.take(200) })
                + "]"@
        }
    } else if sender_name.len() == 0 {
        "[QQ 私聊] 发消息的人 QQ "@ + signed_decimal(user_id as int) + "。"@
    } else {
        "[QQ 私聊] 发消息的人 "@ + sender_name + "（QQ "@ + signed_decimal(user_id as int) + "）。"@
    }
}

pub fn sender_context(
    is_group: bool,
    group_id: i64,
    group_name: &str,
    announce: &str,
    sender_name: &str,
    user_id: i64,
) -> (r: String)
    ensures
        r@ == sender_context_text(is_group, group_id, group_name@, announce@, sender_name@, user_id),
{
    let name = chars_of(sender_name);
    let uid = i64_decimal(user_id);
    if is_group {
        let mut who: Vec<char> = Vec::new();
        if name.len() == 0 {
            extend_str(&mut who, "QQ ");
            extend_chars(&mut who, uid.as_slice());
        } else {
            extend_chars(&mut who, name.as_slice());
            extend_str(&mut who, "（QQ ");
            extend_chars(&mut who, uid.as_slice());
            extend_str(&mut who, "）");
        }
        let gname = chars_of(group_name);
        let gid = i64_decimal(group_id);
        let mut out: Vec<char> = Vec::new();
        if gname.len() == 0 {
            extend_str(&mut out, "[QQ 群聊] 群号 ");
            extend_chars(&mut out, gid.as_slice());
            extend_str(&mut out, "，发消息的人 ");
        } else {
            extend_str(&mut out, "[QQ 群聊] 群「");
            extend_chars(&mut out, gname.as_slice());
            extend_str(&mut out, "」（群号 ");
            extend_chars(&mut out, gid.as_slice());
            extend_str(&mut out, "），发消息的人 ");
        }
        extend_chars(&mut out, who.as_slice());
        extend_str(&mut out, "。");
        let a = chars_of(announce);
        if a.len() > 0 {
            extend_str(&mut out, "\n[本群公告：");
            let n = if a.len() <= 200 {
                a.len()
            } else {
                200
            };
            let head = slice_chars(a.as_slice(), 0, n);
            assert(a@.len() <= 200 ==> head@ =~= a@);
            extend_chars(&mut out, head.as_slice());
            extend_str(&mut out, "]");
        }
        string_of(out.as_slice())
    } else if name.len() == 0 {
        let mut out = chars_of("[QQ 私聊] 发消息的人 QQ ");
        extend_chars(&mut out, uid.as_slice());
        extend_str(&mut out, "。");
        string_of(out.as_slice())
    } else {
        let mut out = chars_of("[QQ 私聊] 发消息的人 ");
        extend_chars(&mut out, name.as_slice());
        extend_str(&mut out, "（QQ ");
        extend_chars(&mut out, uid.as_slice());
        extend_str(&mut out, "）。");
        string_of(out.as_slice())
    }
}

/// The local path `get_image` resolved an image to (`data.file`), when not
/// empty.
pub fn image_path(data: Option<&JsonValue>) -> (r: Option<String>)
    ensures
        match r {
            Some(p) => as_str(get_opt(deref_opt(data), "file"@)) == Some(p@) && p@.len() > 0,
            None => !(as_str(get_opt(deref_opt(data), "file"@)) matches Some(p) && p.len() > 0),
        },
{
    match json_as_str(json_get_opt(data, "file")) {
        Some(p) => {
            if chars_of(p).len() > 0 {
                Some(p.to_string())
            } else {
                None
            }
        },
        None => None,
    }
}

/// The note on images sent: where the image tool can find them.
pub open spec fn image_context_text(sources: Seq<Seq<char>>) -> Seq<char> {
    if sources.len() == 0 {
        seq![]
    } else {
        "\n[对方发来了图片，可调用「分析图片」工具查看："@ + join_with(sources, " "@) + "]"@
    }
}

pub fn image_context(sources: &[String]) -> (r: String)
    ensures
        r@ == image_context_text(strings_view(sources@)),
{
    if sources.len() == 0 {
        return String::new();
    }
    let ghost sv = strings_view(sources@);
    let mut out = chars_of("\n[对方发来了图片，可调用「分析图片」工具查看：");
    let ghost start = out@;
    extend_str(&mut out, sources[0].as_str());
    assert(sv.take(1) =~= seq![sources@[0]@]);
    let mut i: usize = 1;
    while i < sources.len()
        invariant
            1 <= i <= sources.len(),
            sv == strings_view(sources@),
            out@ == start + join_with(sv.take(i as int), " "@),
        decreases sources.len() - i,
    {
        extend_str(&mut out, " ");
        extend_str(&mut out, sources[i].as_str());
        proof {
            assert(sv.take(i + 1).drop_last() =~= sv.take(i as int));
            assert(sv.take(i + 1).last() == sources@[i as int]@);
        }
        i += 1;
    }
    assert(sv.take(sources.len() as int) =~= sv);
    extend_str(&mut out, "]");
    string_of(out.as_slice())
}

/// What the agent receives: the sender line, the notes on images, files,
/// quotes and voice, then the message on a line of its own.
pub fn turn_input(sender: &str, images: &str, files: &str, quote: &str, voice: &str, text: &str) -> (r:
    String)
    ensures
        r@ == sender@ + images@ + files@ + quote@ + voice@ + "\n"@ + text@,
{
    let mut out = chars_of(sender);
    extend_str(&mut out, images);
    extend_str(&mut out, files);
    extend_str(&mut out, quote);
    extend_str(&mut out, voice);
    extend_str(&mut out, "\n");
    extend_str(&mut out, text);
    string_of(out.as_slice())
}

/// A model route: conversations whose id starts with `prefix` use this provider
/// and model (empty fields keep the configured ones).
#[derive(Debug, Clone)]
pub struct ConversationRoute {
    pub prefix: String,
    pub provider_id: String,
    pub model: String,
}

pub open spec fn route_applies(r: ConversationRoute, conv: Seq<char>) -> bool {
    r.prefix@.len() > 0 && starts_with(conv, r.prefix@)
}

/// The first route that applies to the conversation.
pub fn route_for(conv: &str, routes: &[ConversationRoute]) -> (r: Option<usize>)
    ensures
        match r {
            Some(i) => i < routes@.len() && route_applies(routes@[i as int], conv@) && forall|j: int|
                0 <= j < i ==> !route_applies(#[trigger] routes@[j], conv@),
            None => forall|j: int| 0 <= j < routes@.len() ==> !route_applies(#[trigger] routes@[j], conv@),
        },
{
    let c = chars_of(conv);
    let mut i: usize = 0;
    while i < routes.len()
        invariant
            i <= routes.len(),
            c@ == conv@,
            forall|j: int| 0 <= j < i ==> !route_applies(#[trigger] routes@[j], conv@),
        decreases routes.len() - i,
    {
        let p = chars_of(routes[i].prefix.as_str());
        if p.len() > 0 && crate::text::has_prefix(c.as_slice(), p.as_slice()) {
            return Some(i);
        }
        i += 1;
    }
    None
}

// ---------------------------------------------------------------- interim messages

/// Bytes of streamed reply that make an interim message.
pub const INTERIM_BYTES: usize = 60;

/// The reply streamed so far, and how much of it was already sent as interim
/// messages.
pub struct InterimBuffer {
    pub text: Vec<char>,
    pub sent: usize,
}

impl InterimBuffer {
    pub fn new() -> (r: InterimBuffer)
        ensures
            r.text@.len() == 0,
            r.sent == 0,
    {
        InterimBuffer { text: Vec::new(), sent: 0 }
    }

    /// Adds a streamed piece; once the unsent part has 60 bytes or more it is
    /// returned to be sent, and counts as sent.
    pub fn push(&mut self, piece: &str) -> (r: Option<String>)
        requires
            old(self).sent <= old(self).text@.len(),
        ensures
            final(self).text@ == old(self).text@ + piece@,
            ({
                let unsent = final(self).text@.skip(old(self).sent as int);
                if crate::import::utf8_len(unsent) >= 60 {
                    r matches Some(s) && s@ == unsent && final(self).sent == final(self).text@.len()
                } else {
                    r is None && final(self).sent == old(self).sent
                }
            }),
            final(self).sent <= final(self).text@.len(),
    {
        extend_str(&mut self.text, piece);
        let unsent = slice_chars(self.text.as_slice(), self.sent, self.text.len());
        assert(unsent@ =~= self.text@.skip(self.sent as int));
        if crate::import::utf8_len_at_least(unsent.as_slice(), INTERIM_BYTES) {
            self.sent = self.text.len();
            Some(string_of(unsent.as_slice()))
        } else {
            None
        }
    }
}

// ---------------------------------------------------------------- the order of a message's checks

/// What becomes of a message.
#[derive(Debug, Clone, Copy, PartialEq, Eq, Structural)]
pub enum MessageFate {
    /// An administrator's `/stop`.
    Stop,
    /// An administrator's `/connections`.
    Connections,
    /// An administrator's command that was answered.
    AdminCommand,
    /// A group message that neither mentions the bot nor hits a keyword.
    NotAddressed,
    /// The bot is muted in the group.
    Muted,
    /// The sender exceeded the rate limit.
    RateLimited,
    /// The conversation already runs a turn.
    Busy,
    /// The message starts a turn.
    Proceed,
}

/// An administrator's route that settles the message before the other checks.
pub open spec fn settled_by_admin(route: Option<AdminRoute>, command_answered: bool) -> bool {
    route == Some(AdminRoute::Stop) || route == Some(AdminRoute::Connections) || (route == Some(
        AdminRoute::Command,
    ) && command_answered)
}

/// The order in which an incoming message is checked: an administrator's
/// `/stop`, `/connections` or answered command first; then whether a group
/// message is addressed to the bot (`group_should_respond`); then whether the
/// bot is muted there; then the rate limit, which administrators skip; then
/// whether the conversation can start a turn (`SessionGate::enter`). A check
/// is only consulted when every earlier one let the message through.
pub fn message_fate(
    route: Option<AdminRoute>,
    command_answered: bool,
    addressed: bool,
    muted: bool,
    is_admin: bool,
    within_rate: bool,
    admitted: bool,
) -> (r: MessageFate)
    ensures
        route == Some(AdminRoute::Stop) ==> r == MessageFate::Stop,
        route == Some(AdminRoute::Connections) ==> r == MessageFate::Connections,
        route == Some(AdminRoute::Command) && command_answered ==> r == MessageFate::AdminCommand,
        !settled_by_admin(route, command_answered) ==> {
            &&& (r == MessageFate::Proceed <==> (addressed && !muted && (is_admin || within_rate) && admitted))
            &&& (r == MessageFate::NotAddressed <==> !addressed)
            &&& (r == MessageFate::Muted <==> (addressed && muted))
            &&& (r == MessageFate::RateLimited <==> (addressed && !muted && !is_admin && !within_rate))
            &&& (r == MessageFate::Busy <==> (addressed && !muted && (is_admin || within_rate) && !admitted))
        },
{
    match route {
        Some(AdminRoute::Stop) => { return MessageFate::Stop; },
        Some(AdminRoute::Connections) => { return MessageFate::Connections; },
        Some(AdminRoute::Command) => {
            if command_answered {
                return MessageFate::AdminCommand;
            }
        },
        None => {},
    }
    if !addressed {
        MessageFate::NotAddressed
    } else if muted {
        MessageFate::Muted
    } else if !is_admin && !within_rate {
        MessageFate::RateLimited
    } else if !admitted {
        MessageFate::Busy
    } else {
        MessageFate::Proceed
    }
}

} // verus!
