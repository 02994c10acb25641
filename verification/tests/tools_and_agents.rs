use gqy::agents::{
    is_valid_agent_name, kill_reply, spawn_request, AgentDef, AgentError, AgentRoster, MAX_AGENTS,
};
use gqy::alarm_tools::{
    alarm_id, cancel_request, due_at_from_time, expand_path, is_playable_extension, pomodoro_plan,
    set_alarm_request, worker_args, AlarmToolError,
};
use gqy::json::{JsonNumber, JsonValue};
use gqy::log_reader::{latest_run_log, log_request, log_tail};
use gqy::memory_tools::{mood_entry, optional_limit, remember_request, required_text};
use gqy::task::{
    parse_task_args, subagent_tools, task_report, SubagentType, TaskArgError, TaskOutcome,
};

fn s(text: &str) -> JsonValue {
    JsonValue::String(text.to_string())
}

fn n(value: u64) -> JsonValue {
    JsonValue::Number(JsonNumber::PosInt(value))
}

fn obj(members: Vec<(&str, JsonValue)>) -> JsonValue {
    JsonValue::Object(members.into_iter().map(|(k, v)| (k.to_string(), v)).collect())
}

fn member<'a>(v: &'a JsonValue, key: &str) -> Option<&'a JsonValue> {
    match v {
        JsonValue::Object(es) => es.iter().find(|(k, _)| k == key).map(|(_, v)| v),
        _ => None,
    }
}

fn text<'a>(v: &'a JsonValue, key: &str) -> &'a str {
    match member(v, key) {
        Some(JsonValue::String(t)) => t.as_str(),
        other => panic!("{key} is not text: {other:?}"),
    }
}

#[test]
fn subagent_kinds_have_their_budgets() {
    assert_eq!(SubagentType::from_str("explore"), SubagentType::Explore);
    assert_eq!(SubagentType::from_str("researcher"), SubagentType::Researcher);
    assert_eq!(SubagentType::from_str("anything"), SubagentType::General);
    assert_eq!(SubagentType::Explore.default_max_steps(), 30);
    assert_eq!(SubagentType::General.tool_timeout(), 120);
    assert_eq!(SubagentType::Researcher.total_timeout(), 1200);
    assert_eq!(SubagentType::Researcher.label(), "researcher");
}

#[test]
fn task_arguments_are_read_and_checked() {
    let args = obj(vec![("description", s("  查资料 ")), ("prompt", s("详细说明")), ("subagent_type", s("explore"))]);
    let t = parse_task_args(&args).unwrap();
    assert_eq!(t.description, "查资料");
    assert_eq!(t.subagent_type, SubagentType::Explore);
    assert_eq!(t.max_steps, 30);
    assert_eq!(t.total_timeout, 300);
    let with_budget = obj(vec![("description", s("d")), ("prompt", s("p")), ("max_steps", n(7))]);
    assert_eq!(parse_task_args(&with_budget).unwrap().max_steps, 7);
    assert_eq!(parse_task_args(&obj(vec![("prompt", s("p"))])).unwrap_err(), TaskArgError::MissingDescription);
    assert_eq!(
        parse_task_args(&obj(vec![("description", s("d")), ("prompt", s("  "))])).unwrap_err(),
        TaskArgError::MissingPrompt
    );
}

#[test]
fn subagents_get_filtered_tools() {
    let names: Vec<String> = ["read_file", "task", "shell", "grep"].iter().map(|x| x.to_string()).collect();
    assert_eq!(subagent_tools(SubagentType::Explore, &names), vec!["read_file", "grep"]);
    assert_eq!(subagent_tools(SubagentType::General, &names), vec!["read_file", "shell", "grep"]);
}

#[test]
fn task_reports_say_how_the_run_ended() {
    let done = task_report(
        SubagentType::General,
        "d",
        600,
        TaskOutcome::Finished { budget_reached: true, content: "  结果 ".to_string() },
        JsonValue::Null,
    );
    assert!(matches!(member(&done, "ok"), Some(JsonValue::Bool(true))));
    assert_eq!(text(&done, "state"), "budget_reached");
    assert_eq!(text(&done, "result"), "结果");
    let late = task_report(SubagentType::Explore, "d", 300, TaskOutcome::TimedOut, JsonValue::Null);
    assert_eq!(text(&late, "state"), "timeout");
    assert_eq!(text(&late, "error"), "subagent timed out after 300s");
}

#[test]
fn agent_names_are_checked() {
    assert!(is_valid_agent_name("coder_1"));
    assert!(!is_valid_agent_name("1coder"));
    assert!(!is_valid_agent_name("co-der"));
    assert!(!is_valid_agent_name(&"a".repeat(33)));
    let bad = spawn_request(&obj(vec![("name", s("9x")), ("role", s("r"))]));
    assert!(matches!(bad, Err(AgentError::InvalidName(ref n)) if n == "9x"));
    let missing = spawn_request(&obj(vec![("name", s("x"))]));
    assert!(matches!(missing, Err(AgentError::MissingArg(ref k)) if k == "role"));
}

#[test]
fn agent_roster_creates_remembers_and_removes() {
    let mut roster = AgentRoster::new();
    assert_eq!(roster.ensure("alice", "写代码", "t0".to_string()).unwrap(), true);
    assert_eq!(roster.ensure("alice", "别的", "t1".to_string()).unwrap(), false);
    assert_eq!(roster.agents.len(), 1);
    assert_eq!(roster.agents[0].def.role, "别的");
    assert_eq!(roster.agents[0].def.created_at, "t0");
    for k in 0..25 {
        roster.record_exchange("alice", &format!("q{k}"), &format!("a{k}"));
    }
    assert_eq!(roster.agents[0].history.len(), 40);
    assert_eq!(roster.agents[0].history[39], ("assistant".to_string(), "a24".to_string()));
    let (prompt, history) = roster.conversation("alice", "next").unwrap();
    assert!(prompt.contains("你的角色设定：\n别的\n\n工作守则"));
    assert_eq!(history.len(), 40);
    assert_eq!(history[39], ("user".to_string(), "next".to_string()));
    assert!(matches!(roster.conversation("bob", "x"), Err(AgentError::NotFound(_))));
    assert!(roster.remove("alice"));
    assert!(!roster.remove("alice"));
    assert!(roster.agents.is_empty());
}

#[test]
fn agent_roster_is_capped() {
    let mut roster = AgentRoster::new();
    for k in 0..MAX_AGENTS {
        assert!(roster.ensure(&format!("a{k}"), "r", String::new()).unwrap());
    }
    assert!(matches!(roster.ensure("extra", "r", String::new()), Err(AgentError::TooMany)));
    let reloaded = AgentRoster::load(&roster.defs());
    assert_eq!(reloaded.agents.len(), MAX_AGENTS);
    let dupes = vec![
        AgentDef { name: "x".to_string(), role: "old".to_string(), created_at: String::new() },
        AgentDef { name: "x".to_string(), role: "new".to_string(), created_at: String::new() },
    ];
    let loaded = AgentRoster::load(&dupes);
    assert_eq!(loaded.agents.len(), 1);
    assert_eq!(loaded.agents[0].def.role, "new");
    assert_eq!(text(&kill_reply("x", false), "message"), "没有找到 agent「x」");
}

#[test]
fn alarm_requests_are_read() {
    let args = obj(vec![("time", s(" 10m ")), ("repeat", s("1m")), ("audio_file", s("  "))]);
    let r = set_alarm_request(&args).unwrap();
    assert_eq!(r.time, "10m");
    assert_eq!(r.label, "GQY alarm");
    assert_eq!(r.repeat_seconds, 60);
    assert_eq!(r.max_rings, 20);
    assert_eq!(r.audio_file, None);
    assert_eq!(set_alarm_request(&obj(vec![])).unwrap_err(), AlarmToolError::TimeRequired);
    let bad = obj(vec![("time", s("5m")), ("repeat", s("0s"))]);
    assert!(matches!(set_alarm_request(&bad), Err(AlarmToolError::BadRepeat(_))));
    assert_eq!(cancel_request(&obj(vec![("id", s(" a1 "))])).unwrap(), "a1");
    assert_eq!(cancel_request(&obj(vec![])).unwrap_err(), AlarmToolError::IdRequired);
}

#[test]
fn alarm_worker_is_started_with_its_settings() {
    assert_eq!(alarm_id(1700, 42), "alarm-1700-42");
    let args = worker_args("a", "5m", "L", "/s", "/c", 0, 20, 7, Some("/x.wav"));
    assert_eq!(
        args,
        vec![
            "__alarm-worker", "--id", "a", "--time", "5m", "--label", "L", "--state-dir", "/s",
            "--cache-dir", "/c", "--repeat", "0", "--max-rings", "20", "--parent-pid", "7",
            "--audio-file", "/x.wav"
        ]
    );
    assert_eq!(due_at_from_time(100, 30), 130);
    assert!(is_playable_extension(Some("MP3")));
    assert!(!is_playable_extension(Some("ogg")));
    assert_eq!(expand_path("~/a.wav", Some("/home/u"), "/cwd"), "/home/u/a.wav");
    assert_eq!(expand_path("b.wav", None, "/cwd"), "/cwd/b.wav");
}

#[test]
fn pomodoro_minutes_are_clamped() {
    let (work, rest, first, second) = pomodoro_plan(&obj(vec![("work_minutes", n(500)), ("break_minutes", n(0))]));
    assert_eq!((work, rest), (180, 1));
    assert_eq!(first.0, "10800s");
    assert_eq!(first.2, 10860);
    assert_eq!(second.1, "番茄钟：休息结束，继续工作");
    let (work, rest, _, _) = pomodoro_plan(&obj(vec![]));
    assert_eq!((work, rest), (25, 5));
}

#[test]
fn log_tool_reads_the_latest_run_log() {
    let names: Vec<String> = ["gqy.2024-01-02.log", "other.log", "gqy.2024-03-01.log", "gqy.txt"]
        .iter()
        .map(|x| x.to_string())
        .collect();
    assert_eq!(latest_run_log(&names), Some(2));
    assert_eq!(latest_run_log(&["x".to_string()]), None);
    let req = log_request(&obj(vec![("kind", s(" activity ")), ("lines", n(5000)), ("query", s(" ERROR "))]));
    assert!(req.activity);
    assert_eq!(req.limit, 1000);
    assert_eq!(req.needle.as_deref(), Some("error"));
    let (total, lines) = log_tail("ok\nError one\nfine\nerror two\r\nERROR three\n", Some("error"), 2);
    assert_eq!(total, 3);
    assert_eq!(lines, vec!["error two", "ERROR three"]);
}

#[test]
fn memory_tool_arguments() {
    assert_eq!(optional_limit(&obj(vec![("max_results", n(99))])), 50);
    assert_eq!(optional_limit(&obj(vec![])), 5);
    assert_eq!(required_text(&obj(vec![]), "query", true).unwrap_err(), "缺少必需参数: query");
    let (content, source) = remember_request(&obj(vec![("content", s(" 喜欢猫 "))]), false).unwrap();
    assert_eq!((content.as_str(), source.as_str()), ("喜欢猫", "conversation"));
    assert_eq!(mood_entry(&obj(vec![("mood", s("开心")), ("note", s("放假"))])).unwrap(), "心情：开心（放假）");
    assert_eq!(mood_entry(&obj(vec![])).unwrap_err(), "mood is required");
}

fn license_files(name: &str, text: &str) -> Vec<Option<String>> {
    gqy::import::license_file_names()
        .into_iter()
        .map(|candidate| if candidate == name { Some(text.to_string()) } else { None })
        .collect()
}

#[test]
fn detects_mit_license() {
    let files = license_files(
        "LICENSE",
        "MIT License\nPermission is hereby granted, free of charge, to any person obtaining a copy of this software...",
    );
    let info = gqy::import::detect_license(&files);
    assert_eq!(info.spdx, "MIT");
    assert_eq!(info.kind, gqy::import::LicenseKind::Permissive);
}

#[test]
fn detects_gpl3_as_copyleft() {
    let files = license_files("COPYING", "GNU GENERAL PUBLIC LICENSE\nVersion 3, 29 June 2007");
    let info = gqy::import::detect_license(&files);
    assert_eq!(info.spdx, "GPL-3.0");
    assert_eq!(info.kind, gqy::import::LicenseKind::Copyleft);
}

#[test]
fn detects_apache_license_md() {
    let files = license_files("LICENSE.md", "Apache License\nVersion 2.0, January 2004");
    let info = gqy::import::detect_license(&files);
    assert_eq!(info.spdx, "Apache-2.0");
}

#[test]
fn no_license_file_is_restricted_unknown() {
    let files = license_files("none", "");
    let info = gqy::import::detect_license(&files);
    assert_eq!(info.spdx, "unknown");
    assert_eq!(info.kind, gqy::import::LicenseKind::Restricted);
}

#[test]
fn disabling_twice_and_enabling_restore_the_list() {
    let tool = gqy::import::IndexedTool {
        id: Some("hello".to_string()),
        path: Some("pkg/hello.sh".to_string()),
        display_name: None,
        description: None,
    };
    let other = gqy::import::DisabledTool { id: Some("x".to_string()), path: Some("pkg/x.sh".to_string()) };
    let scripts = vec![tool];
    let start = vec![other];
    let u = gqy::import::disable_tool(&scripts, &start, " hello ").unwrap();
    let once = gqy::import::apply_update(start.clone(), u);
    assert_eq!(once.len(), 2);
    let u = gqy::import::disable_tool(&scripts, &once, "hello.sh").unwrap();
    let twice = gqy::import::apply_update(once.clone(), u);
    assert_eq!(twice.len(), 2);
    let u = gqy::import::enable_tool(&scripts, &twice, "pkg/hello.sh").unwrap();
    let back = gqy::import::apply_update(twice, u);
    assert_eq!(back.len(), 1);
    assert_eq!(back[0].id.as_deref(), Some("x"));
    assert!(matches!(gqy::import::disable_tool(&scripts, &back, "  "), Err(gqy::import::ToggleError::EmptyName)));
    assert!(matches!(gqy::import::enable_tool(&scripts, &back, "nope"), Err(gqy::import::ToggleError::NotFound)));
}

#[test]
fn license_heads_are_checked_before_reading() {
    assert!(gqy::import::license_head_on_boundary("MIT License"));
    assert!(gqy::import::license_head_on_boundary(&"a".repeat(3000)));
    let split = format!("{}你{}", "a".repeat(1999), "b".repeat(10));
    assert!(!gqy::import::license_head_on_boundary(&split));
    let whole = format!("{}你{}", "a".repeat(1997), "b".repeat(10));
    assert!(gqy::import::license_head_on_boundary(&whole));
}

#[test]
fn built_in_names_win_over_registered_ones() {
    let scripts = vec![
        ("my_script".to_string(), "我的脚本".to_string()),
        ("read_file".to_string(), "X".to_string()),
    ];
    assert_eq!(gqy::tools::readable_tool_name("my_script", false, &scripts), "我的脚本");
    assert_ne!(gqy::tools::readable_tool_name("read_file", false, &scripts), "X");
    assert_eq!(gqy::tools::readable_tool_name("unknown_tool", false, &scripts), "unknown_tool");
}

#[test]
fn license_candidates_are_checked_up_to_the_first_match() {
    let split = format!("{}你{}", "a".repeat(1999), "b".repeat(10));
    let mit_then_split = vec![Some("MIT License".to_string()), Some(split.clone())];
    assert!(gqy::import::license_heads_readable(&mit_then_split));
    assert_eq!(gqy::import::detect_license(&mit_then_split).spdx, "MIT");
    let split_first = vec![None, Some(split)];
    assert!(!gqy::import::license_heads_readable(&split_first));
    let names = gqy::import::license_file_names();
    assert_eq!(names[8], "LICENSE-APACHE");
}
