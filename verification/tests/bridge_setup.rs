use gqy::bridge_setup::{
    napcat_bridge_plist, napcat_config_reply, napcat_daemon_plist, napcat_status, qq_candidates,
    qq_check, tg_config_reply, tg_plist, tg_status, unknown_setting_message, DaemonError,
};
use gqy::bridges::{NapcatConfig, TgConfig};
use gqy::json::{plist_to_xml, JsonValue};

fn tg(token: &str, owner: &str) -> TgConfig {
    TgConfig { token: token.to_string(), owner_id: owner.to_string(), bin: "/usr/bin/node".to_string(), enabled: true }
}

#[test]
fn tg_status_reports_settings() {
    let lines = tg_status(&tg("1234567890:abc", ""), "/s/tg.js", false, Some("a\nlast line\n"));
    assert_eq!(lines[1], "  token:     已配置（12345678…）");
    assert_eq!(lines[2], "  owner_id:  (未设置 —— 私聊按用户隔离，主人看不到主上下文)");
    assert_eq!(lines[6], "  自启动:    未安装");
    assert_eq!(lines[7], "  最近日志:  last line");
    let lines = tg_status(&tg("", "42"), "/s/tg.js", true, None);
    assert_eq!(lines.len(), 7);
    assert_eq!(lines[1], "  token:     (未设置 —— 需要 gqy tg token <token>)");
    assert_eq!(lines[2], "  owner_id:  42");
}

#[test]
fn napcat_status_reports_settings() {
    let c = NapcatConfig {
        ws_url: "ws://127.0.0.1:3001".to_string(),
        self_id: String::new(),
        bin: "node".to_string(),
        install_dir: String::new(),
        enabled: false,
    };
    let lines = napcat_status(&c, "/s/napcat.js", true, false, Some(&"x".repeat(200)));
    assert_eq!(lines[2], "  self_id:   (未设置 —— 群聊 @ 响应不可用)");
    assert_eq!(lines[4], "  启用:      否");
    assert_eq!(lines[6], "  桥接自启动: 运行中");
    assert_eq!(lines[7], "  NapCat 本体: 未托管");
    assert_eq!(lines[8].chars().count(), "  最近日志:  ".chars().count() + 120);
}

#[test]
fn launch_agents_are_rendered() {
    let plist = tg_plist(&tg("T", "O"), "/s/tg.js", "/l/tg-bridge.log", "/Users/g");
    let xml = plist_to_xml(&plist).unwrap();
    assert!(xml.contains("<key>Label</key>\n        <string>com.gqy.napcat-tg</string>"));
    assert!(xml.contains("<key>GQY_TG_TOKEN</key>"));
    assert!(xml.contains("<true />"));
    let c = NapcatConfig {
        ws_url: "ws://h:1".to_string(),
        self_id: "10001".to_string(),
        bin: "node".to_string(),
        install_dir: String::new(),
        enabled: true,
    };
    match napcat_bridge_plist(&c, "/s/n.js", "/l/n.log", "/Users/g", "/h", "/b/gqy") {
        JsonValue::Object(es) => assert_eq!(es.len(), 7),
        other => panic!("{other:?}"),
    }
    let daemon = napcat_daemon_plist("/q", true, "10001", "/l/napcat.launchd.log").unwrap();
    let xml = plist_to_xml(&daemon).unwrap();
    assert!(xml.contains("<string>/q/QQ.app/Contents/MacOS/QQ</string>"));
    assert!(xml.contains("<string>Background</string>"));
    assert!(matches!(napcat_daemon_plist("/q", false, "1", "/l"), Err(DaemonError::NoQq(d)) if d == "/q"));
    let refused = napcat_daemon_plist("/q", true, "", "/l").unwrap_err();
    assert_eq!(refused.message(), "托管 NapCat 本体前请先设置 QQ 号：gqy napcat config self_id <你的QQ号>");
    assert_eq!(
        DaemonError::NoQq("/q".to_string()).message(),
        "/q 下没有 QQ.app（NapCat 需要 QQ 客户端承载插件）。请确认目录正确。"
    );
}

#[test]
fn qq_client_check_and_setting_replies() {
    let (apps, home) = qq_candidates("/Users/g");
    assert_eq!(apps, "/Applications/QQ.app");
    assert_eq!(home, "/Users/g/qq-napcat/QQ.app");
    assert_eq!(qq_check(Some("/Applications/QQ.app"))[0], "检测到 QQ 客户端：/Applications/QQ.app");
    assert_eq!(qq_check(None).len(), 2);
    assert_eq!(tg_config_reply("token", "secret"), "tg.token = (已设置)");
    assert_eq!(tg_config_reply("owner_id", "42"), "tg.owner_id = 42");
    assert_eq!(napcat_config_reply("self_id", "1"), "napcat.self_id = 1");
    assert_eq!(unknown_setting_message("x", true), "未知配置项 x（支持：token / owner_id / bin / enabled）");
}

#[test]
fn plist_keys_are_escaped() {
    let v = JsonValue::Object(vec![("A&B".to_string(), JsonValue::String("x<y".to_string()))]);
    let xml = plist_to_xml(&v).unwrap();
    assert!(xml.contains("<key>A&amp;B</key>"));
    assert!(xml.contains("<string>x&lt;y</string>"));
    let with_null = JsonValue::Object(vec![("k".to_string(), JsonValue::Null)]);
    assert!(plist_to_xml(&with_null).is_none());
}
