use gqy::activity::{activity_entry, query, subagent_detail, tool_detail};
use gqy::backup::{BackupError, BackupInitOptions, BackupSettings, OptionField, RestoreOptions};
use gqy::backup_flow::{
    clone_args, clone_failed, config_without_comments, init_git_steps, init_preflight,
    origin_step, redact_secrets, restore_copies, restore_preflight, SetupError,
};
use gqy::finetune::{keeps_turn, turn_record, AgentMode};
use gqy::import_manage::{
    clone_dir_name, descend_into, list_tools, remove_tools, show_tools, scanned_tool,
    source_git_args, IndexEntry,
};
use gqy::json::{JsonNumber, JsonValue};
use gqy::local_tools::{
    resolve_tts_runtime, speech_tool_path, tts_candidates, vision_summary, vision_tool_path,
};
use gqy::paths::{pictures_base, GqyPaths};
use gqy::pi_bridge::{call_response, CallOutcome};
use gqy::pi_turn::{image_mime, image_source, subagent_tool_mask, turn_timeout_secs, ImageSource};
use gqy::provider::discover_models;
use gqy::qq_events::{
    add_request_action, files_context, notice_action, quoted_context, safe_file_name, voice_note,
    NoticeAction, RequestAction,
};
use gqy::qq_outbox::{drain_outbox_messages, media_plan, notify_owner, queue_file};

fn s(text: &str) -> JsonValue {
    JsonValue::String(text.to_string())
}

fn n(value: i64) -> JsonValue {
    if value < 0 {
        JsonValue::Number(JsonNumber::NegInt(value))
    } else {
        JsonValue::Number(JsonNumber::PosInt(value as u64))
    }
}

fn obj(members: Vec<(&str, JsonValue)>) -> JsonValue {
    JsonValue::Object(members.into_iter().map(|(k, v)| (k.to_string(), v)).collect())
}

fn member<'a>(v: &'a JsonValue, key: &str) -> Option<&'a JsonValue> {
    match v {
        JsonValue::Object(es) => es.iter().find(|(k, _)| k == key).map(|(_, v)| v),
        _ => None,
    }
}

fn text<'a>(v: &'a JsonValue, key: &str) -> &'a str {
    match member(v, key) {
        Some(JsonValue::String(t)) => t.as_str(),
        other => panic!("{key} is not text: {other:?}"),
    }
}

fn restore_options(force: bool) -> RestoreOptions {
    RestoreOptions {
        remote: " https://github.com/a/b.git ".to_string(),
        branch: "main".to_string(),
        git_name: "GQY".to_string(),
        git_email: "g@example.invalid".to_string(),
        ssh_key: None,
        auto_push: true,
        force,
    }
}

#[test]
fn restore_checks_before_cloning() {
    assert!(matches!(restore_preflight(false, &restore_options(false), false, &[false; 4]), Err(SetupError::NoIsolatedHome)));
    assert!(matches!(restore_preflight(true, &restore_options(false), true, &[false; 4]), Err(SetupError::RepositoryExists)));
    assert!(matches!(
        restore_preflight(true, &restore_options(false), false, &[false, true, true, false]),
        Err(SetupError::LiveDataPresent(1))
    ));
    let settings = restore_preflight(true, &restore_options(true), false, &[true; 4]).unwrap();
    assert_eq!(settings.remote, "https://github.com/a/b.git");
    assert_eq!(settings.branch, "main");
    assert_eq!(
        clone_args(&settings),
        vec!["clone", "--branch", "main", "https://github.com/a/b.git", "repository"]
    );
    let mut spaced = restore_options(false);
    spaced.branch = " main ".to_string();
    assert!(matches!(
        restore_preflight(true, &spaced, false, &[false; 4]),
        Err(SetupError::Invalid(BackupError::BranchHasWhitespace))
    ));
    let mut bad = restore_options(false);
    bad.branch = "  ".to_string();
    assert!(matches!(
        restore_preflight(true, &bad, false, &[false; 4]),
        Err(SetupError::Invalid(BackupError::EmptyField(OptionField::Branch)))
    ));
    assert!(matches!(clone_failed(" denied \n"), SetupError::CloneFailed(ref m) if m == "denied"));
}

#[test]
fn init_sets_up_git_in_order() {
    let options = BackupInitOptions {
        remote: None,
        branch: "main".to_string(),
        git_name: "GQY".to_string(),
        git_email: "g@x".to_string(),
        auto_push: false,
        ssh_key: Some("/k".to_string()),
    };
    assert!(matches!(init_preflight(true, &options), Err(SetupError::Invalid(BackupError::SshKeyWithoutRemote))));
    let settings = BackupSettings {
        version: 1,
        remote: String::new(),
        branch: "main".to_string(),
        git_name: "GQY".to_string(),
        git_email: "g@x".to_string(),
        auto_push: false,
        ssh_key: None,
    };
    let steps = init_git_steps(&settings, false, "/h");
    assert_eq!(steps[0], vec!["init", "-b", "main"]);
    assert_eq!(steps[3], vec!["config", "--local", "core.hooksPath", "/h"]);
    assert_eq!(init_git_steps(&settings, true, "/h").len(), 3);
    assert_eq!(origin_step("", true), None);
    assert_eq!(origin_step("u", true).unwrap(), vec!["remote", "set-url", "origin", "u"]);
    assert_eq!(origin_step("u", false).unwrap(), vec!["remote", "add", "origin", "u"]);
    let copies = restore_copies(true);
    assert_eq!(copies, vec![("config", true), ("data", false), ("state", false), ("pictures", false)]);
}

#[test]
fn secrets_are_blanked_in_backed_up_config() {
    let config = obj(vec![
        ("model", s("deepseek-chat")),
        ("api_key", s("sk-123")),
        ("providers", JsonValue::Array(vec![obj(vec![("id", s("x")), ("API-Token", n(5)), ("max_tokens", n(100))])])),
        ("credentials", obj(vec![("a", s("b"))])),
    ]);
    let red = redact_secrets(config);
    assert_eq!(text(&red, "model"), "deepseek-chat");
    assert_eq!(text(&red, "api_key"), "");
    match member(&red, "providers") {
        Some(JsonValue::Array(items)) => {
            assert!(matches!(member(&items[0], "API-Token"), Some(JsonValue::Null)));
            assert!(matches!(member(&items[0], "max_tokens"), Some(JsonValue::Number(JsonNumber::PosInt(100)))));
        },
        other => panic!("providers: {other:?}"),
    }
    assert!(matches!(member(&red, "credentials"), Some(JsonValue::Object(es)) if es.is_empty()));
}

#[test]
fn config_comments_become_spaces() {
    let raw = b"{\"a\": 1, // note\n\"b\": \"x#y\" /* c */}";
    let out = config_without_comments(raw).unwrap();
    assert_eq!(out.len(), raw.len());
    assert_eq!(String::from_utf8(out).unwrap(), "{\"a\": 1,        \n\"b\": \"x#y\"        }");
    assert_eq!(config_without_comments(b"{\"a\": 1} /* open"), None);
}

#[test]
fn activity_entries_and_queries() {
    let e = activity_entry("2024-01-01 10:00:00".to_string(), "tool", tool_detail("web_fetch", true));
    assert_eq!(text(&e, "ts"), "2024-01-01 10:00:00");
    assert_eq!(text(&e, "event"), "tool");
    assert!(matches!(member(&subagent_detail("explore", 3, false), "steps"), Some(JsonValue::Number(JsonNumber::PosInt(3)))));
    let lines = vec![
        Some((s("first"), "{\"event\":\"Tool\"}".to_string())),
        None,
        Some((s("second"), "{\"event\":\"subagent\"}".to_string())),
        Some((s("third"), "{\"event\":\"tool\"}".to_string())),
    ];
    let found = query(lines, Some("TOOL"), 10);
    assert_eq!(found.len(), 2);
    assert!(matches!(&found[0], JsonValue::String(t) if t == "third"));
    assert!(matches!(&found[1], JsonValue::String(t) if t == "first"));
    let only_one = query(vec![Some((s("a"), String::new())), Some((s("b"), String::new()))], None, 0);
    assert_eq!(only_one.len(), 1);
}

#[test]
fn qq_tools_queue_what_they_send() {
    let (entry, reply) = notify_owner(&obj(vec![("message", s("  明天开会 "))]), 1700);
    let entry = entry.unwrap();
    assert_eq!(text(&entry, "message"), "明天开会");
    assert_eq!(reply, "已把内容写入转告队列，稍后私信发给主人。内容：明天开会");
    let (none, reply) = notify_owner(&obj(vec![]), 1);
    assert!(none.is_none());
    assert_eq!(reply, "转告内容为空，没有发送。");
    let (file, _) = queue_file(&obj(vec![]), "c1", "/tmp/report.pdf", true, 5);
    assert_eq!(text(&file.unwrap(), "name"), "report.pdf");
    let (missing, reply) = queue_file(&obj(vec![]), "c1", "/tmp/x", false, 5);
    assert!(missing.is_none());
    assert_eq!(reply, "文件不存在：/tmp/x（请先用真实存在的路径）。");
}

#[test]
fn outboxes_are_drained_per_conversation() {
    let lines = vec![
        Some(obj(vec![("message", s("第一条"))])),
        None,
        Some(obj(vec![("message", s("  "))])),
        Some(obj(vec![("message", s("第二条"))])),
    ];
    assert_eq!(drain_outbox_messages(&lines), vec!["第一条", "第二条"]);
    let media = vec![
        Some(obj(vec![("conversation_id", s("c1")), ("image_path", s("/a.png"))])),
        Some(obj(vec![("conversation_id", s("c2")), ("image_path", s("/b.png"))])),
        None,
        Some(obj(vec![("conversation_id", s("c1")), ("kind", s("file")), ("file_path", s("/r.pdf")), ("name", s("r.pdf"))])),
    ];
    let (items, keep) = media_plan(&media, "c1").unwrap();
    assert_eq!(items.len(), 2);
    assert!(!items[0].is_file && items[0].path == "/a.png");
    assert!(items[1].is_file && items[1].name == "r.pdf");
    assert_eq!(keep, vec![1]);
    assert!(media_plan(&media, "c3").is_none());
}

#[test]
fn requests_and_notices_are_answered() {
    let friend = obj(vec![("request_type", s("friend")), ("user_id", n(42)), ("flag", s(" f1 ")), ("comment", s("你好"))]);
    match add_request_action(&friend, false) {
        RequestAction::TellOwner(m) => assert_eq!(m, "【QQ 好友申请】QQ 42 请求加好友（备注：你好），待你处理（NapCat 侧审批）。"),
        other => panic!("{other:?}"),
    }
    match add_request_action(&friend, true) {
        RequestAction::Approve { action, params } => {
            assert_eq!(action, "set_friend_add_request");
            assert_eq!(text(&params, "flag"), "f1");
        },
        other => panic!("{other:?}"),
    }
    let no_flag = obj(vec![("request_type", s("friend")), ("user_id", n(42))]);
    assert!(matches!(add_request_action(&no_flag, true), RequestAction::Ignore));
    let recall = obj(vec![("notice_type", s("group_recall")), ("group_id", n(8)), ("user_id", n(7))]);
    match notice_action(&recall, Some("小明"), Some("夜猫子")) {
        NoticeAction::TellOwner(m) => assert_eq!(m, "【消息撤回】小明（QQ 7） 在 群 夜猫子（群号 8） 撤了一条消息。"),
        other => panic!("{other:?}"),
    }
    let join = obj(vec![("notice_type", s("group_increase")), ("group_id", n(8)), ("user_id", n(7))]);
    assert!(matches!(notice_action(&join, None, None), NoticeAction::Welcome { group_id: 8, .. }));
}

#[test]
fn message_context_is_described() {
    let info = obj(vec![(
        "data",
        obj(vec![
            ("user_id", n(99)),
            (
                "message",
                JsonValue::Array(vec![
                    obj(vec![("type", s("text")), ("data", obj(vec![("text", s("看这个"))]))]),
                    obj(vec![("type", s("image")), ("data", obj(vec![("url", s("https://x/a.png"))]))]),
                    obj(vec![("type", s("text")), ("data", obj(vec![("text", s("怎么样"))]))]),
                ]),
            ),
        ]),
    )]);
    assert_eq!(
        quoted_context(&info),
        "\n[引用了 99 的消息：看这个 怎么样]\n[引用消息里有一张图片，可调用「分析图片」查看：https://x/a.png]"
    );
    assert_eq!(quoted_context(&obj(vec![])), "");
    assert_eq!(voice_note(Some(" 你好 ")), "[对方发来语音： 你好 ]");
    assert_eq!(voice_note(None), "[对方发来一条语音，暂无法转写。]");
    assert_eq!(safe_file_name("../报告 v1.pdf"), "..____v1.pdf");
    assert_eq!(safe_file_name("   "), "___");
    assert_eq!(safe_file_name(""), "file.bin");
    assert_eq!(files_context(&["/a".to_string(), "/b".to_string()]), "\n[对方发来了文件，可读取查看：/a /b]");
}

#[test]
fn paths_are_listed_and_laid_out() {
    let p = GqyPaths::from_base_dirs("/c", "/d", "/k", None, "/pics", "/share", "/share/scripts");
    assert_eq!(p.state_dir, "/d/gqy");
    assert_eq!(p.fish_hook_file, "/c/fish/conf.d/gqy.fish");
    let lines = p.describe(Some("/iso"), false);
    assert_eq!(lines.len(), 16);
    assert_eq!(lines[0], "isolated home: /iso");
    assert_eq!(lines[7], "log directory: /k/gqy/logs");
    assert_eq!(pictures_base(None, None, "/home/u"), "/home/u/Pictures");
    assert_eq!(pictures_base(Some("/x"), Some("/y"), "/h"), "/x");
}

#[test]
fn tool_packages_are_managed() {
    let removal = remove_tools(
        "My Pack",
        &[Some("My-Pack/a.sh".to_string()), Some("other/b.sh".to_string()), None],
        &[(Some("My-Pack/a.sh".to_string()), None), (None, Some("My-Pack-x".to_string())), (None, None)],
    );
    assert_eq!(removal.name, "My-Pack");
    assert_eq!(removal.keep_scripts, vec![false, true, true]);
    assert_eq!(removal.keep_disabled, vec![false, false, true]);
    assert_eq!(removal.removed, 1);
    let entries = vec![
        IndexEntry { path: Some("p/a.sh".to_string()), id: Some("a".to_string()), display_name: Some(String::new()), description: None },
        IndexEntry { path: Some("q/b.sh".to_string()), id: Some("b".to_string()), display_name: None, description: None },
    ];
    let tools = show_tools("p", &entries, &["a".to_string()]).unwrap();
    assert_eq!(tools, vec![("a".to_string(), "a".to_string(), String::new(), true)]);
    assert_eq!(show_tools("z", &entries, &[]).unwrap_err(), "工具包 z 没有已注册的工具");
    let counts = list_tools(&["b/x".to_string(), "a/y".to_string(), "b/z".to_string(), "c".to_string()]);
    assert_eq!(counts, vec![("a".to_string(), 1), ("b".to_string(), 2), ("c".to_string(), 1)]);
    assert!(!descend_into(".git"));
    assert!(scanned_tool(".hidden", "x", "").is_none());
    let t = scanned_tool("run.sh", "bin/run.sh", "").unwrap();
    assert!(t.description.starts_with("Execute the bundled script run.sh"));
    assert_eq!(clone_dir_name("https://github.com/a/My.Tools.git/"), "My-Tools");
    assert_eq!(clone_dir_name("git@github.com:a/b.git"), "b");
    assert_eq!(source_git_args("s", "t", true), vec!["-C", "t", "pull", "--ff-only"]);
}

#[test]
fn helper_programs_are_found() {
    let p = GqyPaths::from_isolated_home("/h", "/share", "/share/scripts");
    assert_eq!(speech_tool_path(&p, false, true), "/share/src/scripts/speech-tool.swift");
    assert_eq!(speech_tool_path(&p, false, false), "/share/scripts/speech-tool.swift");
    assert_eq!(
        vision_tool_path(&p, false, false).unwrap_err(),
        "找不到本地视觉工具 vision-tool.swift（预期位置：/share/scripts/vision-tool.swift）"
    );
    let candidates = tts_candidates(None, None, Some("/home/g"), None, "/src");
    assert_eq!(candidates.len(), 3);
    assert_eq!(candidates[0].0, "/home/g/scripts/tts-server.py");
    let chosen = resolve_tts_runtime(&candidates, &[(false, false), (true, false), (true, true)]).unwrap();
    assert_eq!((chosen.python.as_str(), chosen.script.as_str()), ("python3", "/src/src/scripts/tts-server.py"));
    let findings = obj(vec![
        ("labels", JsonValue::Array(vec![s("cat"), n(3), s("sofa")])),
        ("ocr", JsonValue::Array(vec![])),
    ]);
    assert_eq!(vision_summary(&findings, true), "画面识别：cat、sofa");
    assert_eq!(vision_summary(&obj(vec![]), false), "Local analysis found nothing notable in this image.");
}

#[test]
fn agent_base_settings_and_images() {
    assert_eq!(turn_timeout_secs(Some(" 60 ")), 60);
    assert_eq!(turn_timeout_secs(Some("x")), 1800);
    assert_eq!(image_mime("/a/B.JPG"), "image/jpeg");
    assert_eq!(image_mime("/a/b"), "image/png");
    match image_source("data:image/webp;base64,QUJD") {
        ImageSource::Inline { data, mime } => assert_eq!((data.as_str(), mime.as_str()), ("QUJD", "image/webp")),
        other => panic!("{other:?}"),
    }
    assert!(matches!(image_source("file:///tmp/a.png"), ImageSource::FileUrl(ref p) if p == "/tmp/a.png"));
    assert!(matches!(image_source("data:nocomma"), ImageSource::Skip));
    let names = vec![Some("read_file".to_string()), Some("task".to_string()), None];
    assert_eq!(subagent_tool_mask(&names), Some(vec![true, false, true]));
    assert_eq!(subagent_tool_mask(&names[..1]), None);
    let late = call_response("web_fetch", CallOutcome::TimedOut);
    assert!(!late.ok);
    assert!(late.error.unwrap().starts_with("GQY tool web_fetch timed out after "));
}

#[test]
fn models_are_listed_in_order() {
    let reply = obj(vec![(
        "data",
        JsonValue::Array(vec![obj(vec![("id", s("b"))]), obj(vec![("x", s("?"))]), obj(vec![("id", s("a"))]), obj(vec![("id", s("b"))])]),
    )]);
    assert_eq!(discover_models(&reply), vec!["a", "b", "b"]);
    assert!(discover_models(&obj(vec![])).is_empty());
}

#[test]
fn finetune_keeps_substantial_turns() {
    assert!(keeps_turn(true, "hi", "a long enough answer", 10));
    assert!(!keeps_turn(true, "h", "a long enough answer", 10));
    assert!(!keeps_turn(false, "hi", "a long enough answer", 10));
    assert!(keeps_turn(true, "你", "x", 1));
    let r = turn_record(5, AgentMode::Plan, "u", "a", &["t".to_string()]);
    assert_eq!(text(&r, "mode"), "plan");
}

#[test]
fn recursively_redacts_known_secret_names() {
    let value = obj(vec![
        ("api_key", s("abc")),
        ("nested", obj(vec![("OPENAI_API_KEY", s("def")), ("safe", s("kept"))])),
        ("tokens", JsonValue::Array(vec![s("one"), s("two")])),
        ("anthropic_max_tokens", n(4096)),
        ("show_token_usage", JsonValue::Bool(true)),
        ("model_context_window", obj(vec![("model", n(1000))])),
    ]);
    let value = redact_secrets(value);
    assert_eq!(text(&value, "api_key"), "");
    let nested = member(&value, "nested").unwrap();
    assert_eq!(text(nested, "OPENAI_API_KEY"), "");
    assert_eq!(text(nested, "safe"), "kept");
    assert!(matches!(member(&value, "tokens"), Some(JsonValue::Array(items)) if items.is_empty()));
    assert!(matches!(member(&value, "anthropic_max_tokens"), Some(JsonValue::Number(JsonNumber::PosInt(4096)))));
    assert!(matches!(member(&value, "show_token_usage"), Some(JsonValue::Bool(true))));
    let window = member(&value, "model_context_window").unwrap();
    assert!(matches!(member(window, "model"), Some(JsonValue::Number(JsonNumber::PosInt(1000)))));
}

#[test]
fn resolves_tts_runtime_in_source_tree() {
    let candidates = tts_candidates(None, None, None, None, "/repo");
    let in_tree = candidates.len() - 2;
    let mut found = vec![(false, false); candidates.len()];
    found[in_tree] = (true, false);
    let runtime = resolve_tts_runtime(&candidates, &found).unwrap();
    assert!(runtime.script.ends_with("/tts-server.py"));
    assert!(!runtime.python.is_empty());
}

#[test]
fn tts_runtime_env_override_falls_back_gracefully() {
    let candidates = tts_candidates(
        Some("/nonexistent/tts-server.py"),
        Some("/nonexistent/python"),
        None,
        None,
        "/repo",
    );
    assert_eq!(candidates[0].0, "/nonexistent/tts-server.py");
    let mut found = vec![(false, false); candidates.len()];
    let in_tree = candidates.len() - 2;
    found[in_tree] = (true, false);
    let runtime = resolve_tts_runtime(&candidates, &found).unwrap();
    assert_eq!(runtime.script, "/repo/src/scripts/tts-server.py");
}

#[test]
fn images_are_sent_in_standard_base64() {
    for (bytes, text) in [(&b"Man"[..], "TWFu"), (&b"Ma"[..], "TWE="), (&b"M"[..], "TQ=="), (&[0xfbu8, 0xff][..], "+/8=")] {
        let image = gqy::pi_turn::encoded_image("/a.png", bytes);
        assert!(matches!(member(&image, "data"), Some(JsonValue::String(d)) if d == text));
    }
}
