//! What `gqy napcat` and `gqy tg` show and install: the status report, the
//! LaunchAgent definitions of the bridges and of NapCat itself, the check for
//! a QQ client, and the answers to setting changes. `launchctl`, the files and
//! the log are read and written by the caller.
use vstd::prelude::*;
use crate::bridges::{NapcatConfig, TgConfig};
use crate::json::JsonValue;
use crate::paths::{join_path, join_spec};
use crate::text::{chars_of, extend_chars, extend_str, lines, lines_of, string_of};

verus! {

pub const TG_LABEL: &'static str = "com.gqy.napcat-tg";
pub const BRIDGE_LABEL: &'static str = "com.gqy.napcat-bridge";
pub const NAPCAT_LABEL: &'static str = "com.gqy.napcat";

pub open spec fn strings_view(v: Seq<String>) -> Seq<Seq<char>> {
    v.map_values(|s: String| s@)
}

/// The last line of a log, at most 120 characters of it (empty for an empty
/// log).
pub open spec fn last_log_line(log: Seq<char>) -> Seq<char> {
    let ls = lines(log);
    let last = if ls.len() > 0 { ls.last() } else { seq![] };
    if last.len() <= 120 { last } else { last.take(120) }
}

fn last_log_line_exec(log: &str) -> (r: Vec<char>)
    ensures
        r@ == last_log_line(log@),
{
    let ls = lines_of(chars_of(log).as_slice());
    let mut out: Vec<char> = Vec::new();
    if ls.len() > 0 {
        let last = &ls[ls.len() - 1];
        let n = if last.len() <= 120 { last.len() } else { 120 };
        let mut i: usize = 0;
        while i < n
            invariant
                n <= last@.len(),
                i <= n,
                out@ == last@.take(i as int),
            decreases n - i,
        {
            out.push(last[i]);
            assert(out@ =~= last@.take(i + 1));
            i += 1;
        }
        assert(ls@[ls@.len() - 1]@ == lines(log@).last());
        assert(last@.take(last@.len() as int) =~= last@);
    }
    out
}

/// The report of `gqy tg status`. `log` is the bridge log's text when the
/// log exists.
pub open spec fn tg_status_spec(c: TgConfig, script: Seq<char>, running: bool, log: Option<Seq<char>>) -> Seq<Seq<char>> {
    let token = if c.token@.len() == 0 {
        "(未设置 —— 需要 gqy tg token <token>)"@
    } else {
        "已配置（"@ + (if c.token@.len() <= 8 { c.token@ } else { c.token@.take(8) }) + "…）"@
    };
    seq![
        "Telegram 桥接配置:"@,
        "  token:     "@ + token,
        "  owner_id:  "@ + if c.owner_id@.len() == 0 {
            "(未设置 —— 私聊按用户隔离，主人看不到主上下文)"@
        } else {
            c.owner_id@
        },
        "  node:      "@ + c.bin@,
        "  启用:      "@ + if c.enabled { "是"@ } else { "否"@ },
        "  桥接脚本:  "@ + script,
        "  自启动:    "@ + if running { "运行中"@ } else { "未安装"@ },
    ] + match log {
        Some(l) => seq!["  最近日志:  "@ + last_log_line(l)],
        None => seq![],
    }
}

fn line_of(head: &str, rest: &[char]) -> (r: String)
    ensures
        r@ == head@ + rest@,
{
    let mut v = chars_of(head);
    extend_chars(&mut v, rest);
    string_of(v.as_slice())
}

fn push_log_line(out: &mut Vec<String>, log: Option<&str>)
    ensures
        strings_view(final(out)@) == strings_view(old(out)@) + match log {
            Some(l) => seq!["  最近日志:  "@ + last_log_line(l@)],
            None => Seq::<Seq<char>>::empty(),
        },
{
    let ghost before = out@;
    match log {
        Some(l) => {
            let last = last_log_line_exec(l);
            out.push(line_of("  最近日志:  ", last.as_slice()));
            assert(strings_view(out@) =~= strings_view(before) + seq!["  最近日志:  "@ + last_log_line(l@)]);
        },
        None => {
            assert(strings_view(out@) =~= strings_view(before) + Seq::<Seq<char>>::empty());
        },
    }
}

pub fn tg_status(c: &TgConfig, script: &str, running: bool, log: Option<&str>) -> (r: Vec<String>)
    ensures
        strings_view(r@) == tg_status_spec(*c, script@, running, match log {
            Some(l) => Some(l@),
            None => None,
        }),
{
    let t = chars_of(c.token.as_str());
    let token: Vec<char> = if t.len() == 0 {
        chars_of("(未设置 —— 需要 gqy tg token <token>)")
    } else {
        let mut v = chars_of("已配置（");
        let n = if t.len() <= 8 { t.len() } else { 8 };
        let mut i: usize = 0;
        let ghost head = v@;
        while i < n
            invariant
                n <= t@.len(),
                i <= n,
                v@ == head + t@.take(i as int),
            decreases n - i,
        {
            v.push(t[i]);
            assert(v@ =~= head + t@.take(i + 1));
            i += 1;
        }
        extend_str(&mut v, "…）");
        assert(t@.take(t@.len() as int) =~= t@);
        v
    };
    let mut out: Vec<String> = Vec::new();
    out.push("Telegram 桥接配置:".to_string());
    out.push(line_of("  token:     ", token.as_slice()));
    out.push(
        line_of(
            "  owner_id:  ",
            if c.owner_id.as_str().is_empty() {
                chars_of("(未设置 —— 私聊按用户隔离，主人看不到主上下文)")
            } else {
                chars_of(c.owner_id.as_str())
            }.as_slice(),
        ),
    );
    out.push(line_of("  node:      ", chars_of(c.bin.as_str()).as_slice()));
    out.push(line_of("  启用:      ", chars_of(if c.enabled { "是" } else { "否" }).as_slice()));
    out.push(line_of("  桥接脚本:  ", chars_of(script).as_slice()));
    out.push(line_of("  自启动:    ", chars_of(if running { "运行中" } else { "未安装" }).as_slice()));
    let ghost fixed = strings_view(out@);
    push_log_line(&mut out, log);
    proof {
        let l = match log {
            Some(l) => Some(l@),
            None => None,
        };
        let spec = tg_status_spec(*c, script@, running, l);
        assert(fixed =~= spec.take(7));
        assert(strings_view(out@) =~= spec);
    }
    out
}

/// The report of `gqy napcat status`. `log` is the bridge log's text when
/// the log exists.
pub open spec fn napcat_status_spec(
    c: NapcatConfig,
    script: Seq<char>,
    bridge_running: bool,
    napcat_running: bool,
    log: Option<Seq<char>>,
) -> Seq<Seq<char>> {
    seq![
        "NapCat 桥接配置:"@,
        "  ws_url:    "@ + c.ws_url@,
        "  self_id:   "@ + if c.self_id@.len() == 0 {
            "(未设置 —— 群聊 @ 响应不可用)"@
        } else {
            c.self_id@
        },
        "  node:      "@ + c.bin@,
        "  启用:      "@ + if c.enabled { "是"@ } else { "否"@ },
        "  桥接脚本:  "@ + script,
        "  桥接自启动: "@ + if bridge_running { "运行中"@ } else { "未安装"@ },
        "  NapCat 本体: "@ + if napcat_running { "运行中"@ } else { "未托管"@ },
    ] + match log {
        Some(l) => seq!["  最近日志:  "@ + last_log_line(l)],
        None => seq![],
    }
}

pub fn napcat_status(c: &NapcatConfig, script: &str, bridge_running: bool, napcat_running: bool, log: Option<&str>) -> (r: Vec<String>)
    ensures
        strings_view(r@) == napcat_status_spec(*c, script@, bridge_running, napcat_running, match log {
            Some(l) => Some(l@),
            None => None,
        }),
{
    let mut out: Vec<String> = Vec::new();
    out.push("NapCat 桥接配置:".to_string());
    out.push(line_of("  ws_url:    ", chars_of(c.ws_url.as_str()).as_slice()));
    out.push(
        line_of(
            "  self_id:   ",
            if c.self_id.as_str().is_empty() {
                chars_of("(未设置 —— 群聊 @ 响应不可用)")
            } else {
                chars_of(c.self_id.as_str())
            }.as_slice(),
        ),
    );
    out.push(line_of("  node:      ", chars_of(c.bin.as_str()).as_slice()));
    out.push(line_of("  启用:      ", chars_of(if c.enabled { "是" } else { "否" }).as_slice()));
    out.push(line_of("  桥接脚本:  ", chars_of(script).as_slice()));
    out.push(line_of("  桥接自启动: ", chars_of(if bridge_running { "运行中" } else { "未安装" }).as_slice()));
    out.push(line_of("  NapCat 本体: ", chars_of(if napcat_running { "运行中" } else { "未托管" }).as_slice()));
    let ghost fixed = strings_view(out@);
    push_log_line(&mut out, log);
    proof {
        let l = match log {
            Some(l) => Some(l@),
            None => None,
        };
        let spec = napcat_status_spec(*c, script@, bridge_running, napcat_running, l);
        assert(fixed =~= spec.take(8));
        assert(strings_view(out@) =~= spec);
    }
    out
}

// ---------------------------------------------------------------- LaunchAgents

/// A member holding a text.
pub open spec fn text_at(es: Seq<(String, JsonValue)>, i: int, key: Seq<char>, text: Seq<char>) -> bool {
    0 <= i < es.len() && es[i].0@ == key && es[i].1 is String && es[i].1->String_0@ == text
}

/// A member holding a flag.
pub open spec fn flag_at(es: Seq<(String, JsonValue)>, i: int, key: Seq<char>, b: bool) -> bool {
    0 <= i < es.len() && es[i].0@ == key && es[i].1 == JsonValue::Bool(b)
}

/// A member holding a list of texts.
pub open spec fn texts_at(es: Seq<(String, JsonValue)>, i: int, key: Seq<char>, ts: Seq<Seq<char>>) -> bool {
    0 <= i < es.len() && es[i].0@ == key && es[i].1 is Array && es[i].1->Array_0@.len() == ts.len()
        && forall|k: int|
        0 <= k < ts.len() ==> (#[trigger] es[i].1->Array_0@[k]) is String
            && es[i].1->Array_0@[k]->String_0@ == ts[k]
}

fn text_member(key: &str, text: &str) -> (r: (String, JsonValue))
    ensures
        text_at(seq![r], 0, key@, text@),
{
    (key.to_string(), JsonValue::String(text.to_string()))
}

fn texts_member(key: &str, texts: Vec<String>) -> (r: (String, JsonValue))
    ensures
        texts_at(seq![r], 0, key@, strings_view(texts@)),
{
    let mut items: Vec<JsonValue> = Vec::new();
    let mut i: usize = 0;
    while i < texts.len()
        invariant
            i <= texts@.len(),
            items@.len() == i,
            forall|k: int| 0 <= k < i ==> (#[trigger] items@[k]) is String && items@[k]->String_0@ == texts@[k]@,
        decreases texts.len() - i,
    {
        items.push(JsonValue::String(texts[i].clone()));
        i += 1;
    }
    (key.to_string(), JsonValue::Array(items))
}

/// The `PATH` the Telegram bridge runs with.
pub const TG_PATH: &'static str = "/opt/homebrew/bin:/usr/local/bin:/usr/bin:/bin:/usr/sbin:/sbin";

/// The `PATH` the NapCat bridge runs with.
pub const NAPCAT_PATH: &'static str = "/opt/homebrew/bin:/usr/local/bin:/usr/bin:/bin";

/// The Telegram bridge's LaunchAgent: Node runs the bridge script with the
/// token, owner and log in its environment, started at login and kept alive,
/// its output going to the log; members in the order of their keys.
pub fn tg_plist(c: &TgConfig, script: &str, log: &str, home: &str) -> (r: JsonValue)
    ensures
        r is Object && {
            let es = r->Object_0@;
            &&& es.len() == 7
            &&& es[0].0@ == "EnvironmentVariables"@ && es[0].1 is Object && {
                let env = es[0].1->Object_0@;
                &&& env.len() == 5
                &&& text_at(env, 0, "GQY_BRIDGE_LOG"@, log@)
                &&& text_at(env, 1, "GQY_TG_OWNER_ID"@, c.owner_id@)
                &&& text_at(env, 2, "GQY_TG_TOKEN"@, c.token@)
                &&& text_at(env, 3, "HOME"@, home@)
                &&& text_at(env, 4, "PATH"@, TG_PATH@)
            }
            &&& flag_at(es, 1, "KeepAlive"@, true)
            &&& text_at(es, 2, "Label"@, TG_LABEL@)
            &&& texts_at(es, 3, "ProgramArguments"@, seq![c.bin@, script@])
            &&& flag_at(es, 4, "RunAtLoad"@, true)
            &&& text_at(es, 5, "StandardErrorPath"@, log@)
            &&& text_at(es, 6, "StandardOutPath"@, log@)
        },
{
    let mut env: Vec<(String, JsonValue)> = Vec::new();
    env.push(text_member("GQY_BRIDGE_LOG", log));
    env.push(text_member("GQY_TG_OWNER_ID", c.owner_id.as_str()));
    env.push(text_member("GQY_TG_TOKEN", c.token.as_str()));
    env.push(text_member("HOME", home));
    env.push(text_member("PATH", TG_PATH));
    let mut es: Vec<(String, JsonValue)> = Vec::new();
    es.push(("EnvironmentVariables".to_string(), JsonValue::Object(env)));
    es.push(("KeepAlive".to_string(), JsonValue::Bool(true)));
    es.push(text_member("Label", TG_LABEL));
    es.push(texts_member("ProgramArguments", vec![c.bin.clone(), script.to_string()]));
    es.push(("RunAtLoad".to_string(), JsonValue::Bool(true)));
    es.push(text_member("StandardErrorPath", log));
    es.push(text_member("StandardOutPath", log));
    JsonValue::Object(es)
}

/// The NapCat bridge's LaunchAgent: like Telegram's, with the GQY home, the
/// WebSocket address, the QQ number and the `gqy` binary in its environment.
pub fn napcat_bridge_plist(c: &NapcatConfig, script: &str, log: &str, home: &str, gqy_home: &str, gqy_bin: &str) -> (r: JsonValue)
    ensures
        r is Object && {
            let es = r->Object_0@;
            &&& es.len() == 7
            &&& es[0].0@ == "EnvironmentVariables"@ && es[0].1 is Object && {
                let env = es[0].1->Object_0@;
                &&& env.len() == 7
                &&& text_at(env, 0, "GQY_BIN"@, gqy_bin@)
                &&& text_at(env, 1, "GQY_BRIDGE_LOG"@, log@)
                &&& text_at(env, 2, "GQY_HOME"@, gqy_home@)
                &&& text_at(env, 3, "GQY_SELF_ID"@, c.self_id@)
                &&& text_at(env, 4, "GQY_WS_URL"@, c.ws_url@)
                &&& text_at(env, 5, "HOME"@, home@)
                &&& text_at(env, 6, "PATH"@, NAPCAT_PATH@)
            }
            &&& flag_at(es, 1, "KeepAlive"@, true)
            &&& text_at(es, 2, "Label"@, BRIDGE_LABEL@)
            &&& texts_at(es, 3, "ProgramArguments"@, seq![c.bin@, script@])
            &&& flag_at(es, 4, "RunAtLoad"@, true)
            &&& text_at(es, 5, "StandardErrorPath"@, log@)
            &&& text_at(es, 6, "StandardOutPath"@, log@)
        },
{
    let mut env: Vec<(String, JsonValue)> = Vec::new();
    env.push(text_member("GQY_BIN", gqy_bin));
    env.push(text_member("GQY_BRIDGE_LOG", log));
    env.push(text_member("GQY_HOME", gqy_home));
    env.push(text_member("GQY_SELF_ID", c.self_id.as_str()));
    env.push(text_member("GQY_WS_URL", c.ws_url.as_str()));
    env.push(text_member("HOME", home));
    env.push(text_member("PATH", NAPCAT_PATH));
    let mut es: Vec<(String, JsonValue)> = Vec::new();
    es.push(("EnvironmentVariables".to_string(), JsonValue::Object(env)));
    es.push(("KeepAlive".to_string(), JsonValue::Bool(true)));
    es.push(text_member("Label", BRIDGE_LABEL));
    es.push(texts_member("ProgramArguments", vec![c.bin.clone(), script.to_string()]));
    es.push(("RunAtLoad".to_string(), JsonValue::Bool(true)));
    es.push(text_member("StandardErrorPath", log));
    es.push(text_member("StandardOutPath", log));
    JsonValue::Object(es)
}

/// Why NapCat itself cannot be kept running.
#[derive(Debug, Clone)]
pub enum DaemonError {
    /// The directory given holds no `QQ.app`.
    NoQq(String),
    /// No QQ number is set.
    NoSelfId,
}

impl DaemonError {
    /// The message shown.
    pub fn message(&self) -> (r: String)
        ensures
            r@ == match self {
                DaemonError::NoQq(dir) => dir@ + " 下没有 QQ.app（NapCat 需要 QQ 客户端承载插件）。请确认目录正确。"@,
                DaemonError::NoSelfId => "托管 NapCat 本体前请先设置 QQ 号：gqy napcat config self_id <你的QQ号>"@,
            },
    {
        match self {
            DaemonError::NoQq(dir) => {
                let mut m = chars_of(dir.as_str());
                extend_str(&mut m, " 下没有 QQ.app（NapCat 需要 QQ 客户端承载插件）。请确认目录正确。");
                string_of(m.as_slice())
            },
            DaemonError::NoSelfId => "托管 NapCat 本体前请先设置 QQ 号：gqy napcat config self_id <你的QQ号>".to_string(),
        }
    }
}

/// The QQ client in a NapCat directory.
pub fn qq_binary(dir: &str) -> (r: String)
    ensures
        r@ == join_spec(dir@, "QQ.app/Contents/MacOS/QQ"@),
{
    join_path(dir, "QQ.app/Contents/MacOS/QQ")
}

/// NapCat's own LaunchAgent for the QQ client in `dir` (`qq_present`: whether
/// `qq_binary(dir)` exists): QQ started headless with the QQ number, kept
/// alive in the background, working in `dir`, logging to `launchd_log`.
pub fn napcat_daemon_plist(dir: &str, qq_present: bool, self_id: &str, launchd_log: &str) -> (r: Result<JsonValue, DaemonError>)
    ensures
        !qq_present ==> (r matches Err(DaemonError::NoQq(d)) && d@ == dir@),
        qq_present && self_id@.len() == 0 ==> r matches Err(DaemonError::NoSelfId),
        qq_present && self_id@.len() > 0 ==> (r matches Ok(v) && v is Object && {
            let es = v->Object_0@;
            &&& es.len() == 8
            &&& flag_at(es, 0, "KeepAlive"@, true)
            &&& text_at(es, 1, "Label"@, NAPCAT_LABEL@)
            &&& text_at(es, 2, "ProcessType"@, "Background"@)
            &&& texts_at(
                es,
                3,
                "ProgramArguments"@,
                seq![join_spec(dir@, "QQ.app/Contents/MacOS/QQ"@), "--no-sandbox"@, "-q"@, self_id@],
            )
            &&& flag_at(es, 4, "RunAtLoad"@, true)
            &&& text_at(es, 5, "StandardErrorPath"@, launchd_log@)
            &&& text_at(es, 6, "StandardOutPath"@, launchd_log@)
            &&& text_at(es, 7, "WorkingDirectory"@, dir@)
        }),
{
    if !qq_present {
        return Err(DaemonError::NoQq(dir.to_string()));
    }
    if self_id.is_empty() {
        return Err(DaemonError::NoSelfId);
    }
    let args = vec![qq_binary(dir), "--no-sandbox".to_string(), "-q".to_string(), self_id.to_string()];
    proof {
        assert(strings_view(args@) =~= seq![join_spec(dir@, "QQ.app/Contents/MacOS/QQ"@), "--no-sandbox"@, "-q"@, self_id@]);
    }
    let mut es: Vec<(String, JsonValue)> = Vec::new();
    es.push(("KeepAlive".to_string(), JsonValue::Bool(true)));
    es.push(text_member("Label", NAPCAT_LABEL));
    es.push(text_member("ProcessType", "Background"));
    es.push(texts_member("ProgramArguments", args));
    es.push(("RunAtLoad".to_string(), JsonValue::Bool(true)));
    es.push(text_member("StandardErrorPath", launchd_log));
    es.push(text_member("StandardOutPath", launchd_log));
    es.push(text_member("WorkingDirectory", dir));
    Ok(JsonValue::Object(es))
}

/// Where a QQ client is looked for when no NapCat directory is given.
pub fn qq_candidates(home: &str) -> (r: (String, String))
    ensures
        r.0@ == "/Applications/QQ.app"@,
        r.1@ == join_spec(home@, "qq-napcat/QQ.app"@),
{
    ("/Applications/QQ.app".to_string(), join_path(home, "qq-napcat/QQ.app"))
}

/// What the QQ check says: where the client was found and how to keep NapCat
/// running from there, or how to get one.
pub open spec fn qq_check_spec(found: Option<Seq<char>>) -> Seq<Seq<char>> {
    match found {
        Some(dir) => seq![
            "检测到 QQ 客户端："@ + dir,
            "提示：如需托管 NapCat 本体自启动，执行 gqy napcat install --napcat "@ + dir,
        ],
        None => seq![
            "⚠ 未检测到 QQ 客户端（NapCat 本体依赖）。可以让顾清影在对话里帮你下载部署，"@,
            "  或手动安装后执行 gqy napcat install --napcat <QQ所在目录>"@,
        ],
    }
}

pub fn qq_check(found: Option<&str>) -> (r: Vec<String>)
    ensures
        strings_view(r@) == qq_check_spec(match found {
            Some(d) => Some(d@),
            None => None,
        }),
{
    let v = match found {
        Some(dir) => vec![
            line_of("检测到 QQ 客户端：", chars_of(dir).as_slice()),
            line_of("提示：如需托管 NapCat 本体自启动，执行 gqy napcat install --napcat ", chars_of(dir).as_slice()),
        ],
        None => vec![
            "⚠ 未检测到 QQ 客户端（NapCat 本体依赖）。可以让顾清影在对话里帮你下载部署，".to_string(),
            "  或手动安装后执行 gqy napcat install --napcat <QQ所在目录>".to_string(),
        ],
    };
    proof {
        let f = match found {
            Some(d) => Some(d@),
            None => None,
        };
        assert(strings_view(v@) =~= qq_check_spec(f));
    }
    v
}

// ---------------------------------------------------------------- setting changes

/// The answer to `gqy tg config`: the setting and its value (the token is
/// not shown).
pub fn tg_config_reply(key: &str, value: &str) -> (r: String)
    ensures
        r@ == "tg."@ + key@ + " = "@ + if key@ == "token"@ { "(已设置)"@ } else { value@ },
{
    let k = chars_of(key);
    let mut m = chars_of("tg.");
    extend_str(&mut m, key);
    extend_str(&mut m, " = ");
    proof {
        reveal_strlit("token");
    }
    if crate::text::str_is(k.as_slice(), "token") {
        extend_str(&mut m, "(已设置)");
    } else {
        extend_str(&mut m, value);
    }
    string_of(m.as_slice())
}

/// The answer to `gqy napcat config`.
pub fn napcat_config_reply(key: &str, value: &str) -> (r: String)
    ensures
        r@ == "napcat."@ + key@ + " = "@ + value@,
{
    let mut m = chars_of("napcat.");
    extend_str(&mut m, key);
    extend_str(&mut m, " = ");
    extend_str(&mut m, value);
    string_of(m.as_slice())
}

/// The refusal of a setting a bridge does not have.
pub fn unknown_setting_message(key: &str, tg: bool) -> (r: String)
    ensures
        r@ == "未知配置项 "@ + key@ + if tg {
            "（支持：token / owner_id / bin / enabled）"@
        } else {
            "（支持：ws_url / self_id / bin / enabled）"@
        },
{
    let mut m = chars_of("未知配置项 ");
    extend_str(&mut m, key);
    extend_str(&mut m, if tg { "（支持：token / owner_id / bin / enabled）" } else { "（支持：ws_url / self_id / bin / enabled）" });
    string_of(m.as_slice())
}

} // verus!
