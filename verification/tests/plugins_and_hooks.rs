use gqy::paths::GqyPaths;
use gqy::plugins::{
    alert_stamp_file, context_block, default_plugins, is_noise_process, poll_all, queue_outcome,
    queue_url, quiet_hours_hold, register_all_plugin_tools, turn_signals, web_port, AlertOutcome,
    DeliveryOutcome, InterruptContext, PluginKind,
};
use gqy::shell::{append_source_block, hook, remove_source_block, BEGIN_MARKER, END_MARKER};
use gqy::tools::{builtin_readable_group_name, builtin_readable_tool_name, readable_tool_name};

#[test]
fn bash_hook_defines_command_not_found_handler() {
    let hook = hook();
    assert!(hook.contains("command_not_found_handle"));
    assert!(hook.contains("--shell bash"));
    assert!(hook.contains("return 127"));
}

#[test]
fn bash_hook_wires_classifier_and_multiline_intercept() {
    let hook = hook();
    assert!(hook.contains("--shell-classify"));
    assert!(hook.contains("__gqy_enter"));
    assert!(hook.contains("bind -x"));
    assert!(hook.contains("--stdin"));
}

#[test]
fn bash_hook_does_not_filter_natural_language_symbols() {
    let hook = hook();
    assert!(!hook.contains("${#text} <= 120"));
    assert!(!hook.contains("gqy_shell_syntax_pattern"));
    assert!(!hook.contains("gqy_leading_pattern"));
}

#[test]
fn remove_source_block_reports_whether_block_was_removed() {
    let rc = format!("before\n{BEGIN_MARKER}\nsource hook\n{END_MARKER}\nafter\n");
    let updated = remove_source_block(&rc, BEGIN_MARKER, END_MARKER);
    assert_eq!(updated.as_deref(), Some("before\nafter\n"));
    assert_eq!(remove_source_block(updated.as_deref().unwrap(), BEGIN_MARKER, END_MARKER), None);
}

#[test]
fn appended_block_is_removed_again() {
    let rc = "export A=1";
    let block = append_source_block(rc, BEGIN_MARKER, END_MARKER, "source hook").unwrap();
    assert_eq!(block, format!("\n{BEGIN_MARKER}\nsource hook\n{END_MARKER}\n"));
    let written = format!("{rc}{block}");
    assert_eq!(append_source_block(&written, BEGIN_MARKER, END_MARKER, "source hook"), None);
    assert_eq!(remove_source_block(&written, BEGIN_MARKER, END_MARKER).as_deref(), Some("export A=1\n"));
    let crlf = format!("x\r\n{BEGIN_MARKER}\r\ns\r\n{END_MARKER}\r\ny");
    assert_eq!(remove_source_block(&crlf, BEGIN_MARKER, END_MARKER).as_deref(), Some("x\r\ny"));
}

#[test]
fn noise_processes_are_filtered() {
    assert!(is_noise_process("/usr/bin/ps"));
    assert!(is_noise_process("WindowServer"));
    assert!(is_noise_process("zcode"));
    assert!(!is_noise_process("/usr/local/bin/cargo"));
    assert!(!is_noise_process("node"));
}

#[test]
fn stamp_file_names_are_per_source() {
    let paths = GqyPaths::from_isolated_home("/tmp/gqy-stamp-home", "", "");
    assert!(alert_stamp_file(&paths, "watch").ends_with("last_watch_alert"));
    assert!(alert_stamp_file(&paths, "disk").ends_with("last_disk_alert"));
    assert_eq!(alert_stamp_file(&paths, "disk"), format!("{}/last_disk_alert", paths.state_dir));
}

#[test]
fn polling_reports_deliveries_and_failures_only() {
    let report = poll_all(&[("watch", Some(false)), ("disk", Some(true)), ("net", None)]);
    assert_eq!(report.len(), 2);
    assert_eq!(report[0].0, "disk");
    assert_eq!(report[0].1, DeliveryOutcome::Delivered);
    assert_eq!(report[1].0, "net");
    assert_eq!(report[1].1, DeliveryOutcome::Rejected);
}

#[test]
fn quiet_hours_hold_back_all_but_critical_disk_alerts() {
    let ctx = |content, hour| InterruptContext { event_source: "watch", content, hour };
    assert!(quiet_hours_hold(&ctx("CPU 很忙", 23)));
    assert!(quiet_hours_hold(&ctx("CPU 很忙", 3)));
    assert!(!quiet_hours_hold(&ctx("CPU 很忙", 12)));
    assert!(!quiet_hours_hold(&ctx("磁盘空间剩余 1 GB", 2)));
}

#[test]
fn web_queue_endpoint_and_outcomes() {
    assert_eq!(web_port(None), 4096);
    assert_eq!(web_port(Some("8080")), 8080);
    assert_eq!(web_port(Some("70000")), 4096);
    assert_eq!(web_port(Some("x")), 4096);
    assert_eq!(queue_url(4096), "http://127.0.0.1:4096/api/queue");
    assert_eq!(queue_outcome("202"), AlertOutcome::Delivered);
    assert_eq!(queue_outcome(" 409 "), AlertOutcome::NoRunningTurn);
    assert_eq!(queue_outcome("500"), AlertOutcome::Rejected);
}

#[test]
fn affection_signals_and_context() {
    let s = turn_signals("谢谢你，晚安", "");
    assert!(s.warm);
    assert!(s.bedtime);
    assert!(!s.curt);
    assert!(s.poor_reply);
    assert!(!s.long_message);
    let s = turn_signals("THANKS", "好的");
    assert!(s.curt);
    assert!(!s.poor_reply);
    let tags = vec!["朋友".to_string(), "夜猫子".to_string()];
    assert_eq!(
        context_block("12.5", "熟悉", 3, &tags, "  爱聊天 "),
        "<affection score=\"12.5\" level=\"熟悉\" interactions=\"3\" · 标签：朋友、夜猫子 · 印象：爱聊天/>"
    );
    assert_eq!(
        context_block("0", "陌生", 0, &[], ""),
        "<affection score=\"0\" level=\"陌生\" interactions=\"0\"/>"
    );
}

#[test]
fn plugins_are_registered_in_order() {
    assert_eq!(default_plugins(), vec![PluginKind::Affection, PluginKind::Watch]);
    assert_eq!(register_all_plugin_tools(), vec!["affection_status"]);
}

const BUILTIN_TOOLS: &[&str] = &[
    "remember_fact", "recall_memories", "recall_past_events", "search_evicted_context",
    "search_meme", "show_meme", "add_meme", "delete_meme", "update_meme",
    "search_knowledge_base", "search_knowledge_base_by_name", "read_knowledge_base_file",
    "upload_text_to_knowledge_base", "edit_knowledge_base_file", "remove_knowledge_base_file",
    "set_alarm", "list_alarms", "cancel_alarm", "draw_zhouyi_hexagram",
    "draw_tarot_card", "draw_fortune_lot", "roll_dice", "get_weather", "get_exchange_rate",
    "online_man_search", "online_man_get_page", "query_moegirl", "query_deepseek_status",
    "check_os_info", "calculate_hash", "decode_encoded_text",
    "scientific_calculator", "read_clipboard", "web_fetch",
    "task", "deep_research",
];

const BUILTIN_GROUPS: &[&str] = &[
    "acg", "agent", "alarms", "dev", "diagnostics", "divination", "images", "knowledge", "memory",
    "memes", "planning", "research", "scripts", "scripting", "shell", "skills", "systeminfo",
    "utility", "web",
];

#[test]
fn readable_names_cover_all_built_in_tools_and_groups() {
    let mut missing_tools = BUILTIN_TOOLS
        .iter()
        .filter(|name| builtin_readable_tool_name(name, true).is_none() || builtin_readable_tool_name(name, false).is_none())
        .cloned()
        .collect::<Vec<_>>();
    missing_tools.sort();
    assert!(missing_tools.is_empty(), "missing tool names: {missing_tools:?}");

    let mut missing_groups = BUILTIN_GROUPS
        .iter()
        .filter(|group| builtin_readable_group_name(group, true).is_none() || builtin_readable_group_name(group, false).is_none())
        .cloned()
        .collect::<Vec<_>>();
    missing_groups.sort();
    assert!(missing_groups.is_empty(), "missing tool group names: {missing_groups:?}");
}

#[test]
fn unknown_tools_fall_back_to_script_names_or_themselves() {
    let scripts = vec![("my_script".to_string(), "我的脚本".to_string())];
    assert_eq!(readable_tool_name("my_script", true, &scripts), "我的脚本");
    assert_eq!(readable_tool_name("nobody_knows", true, &scripts), "nobody_knows");
    assert_eq!(builtin_readable_tool_name("nobody_knows", false), None);
}

#[test]
fn install_then_uninstall_restores_rc() {
    let rc = "export PATH=$PATH:/opt/bin\nalias ll='ls -l'\n";
    let source = "[ -r \"/h/hooks/gqy.bash\" ] && source \"/h/hooks/gqy.bash\"";
    let block = append_source_block(rc, BEGIN_MARKER, END_MARKER, source).unwrap();
    let installed = format!("{rc}{block}");
    assert!(append_source_block(&installed, BEGIN_MARKER, END_MARKER, source).is_none());
    let removed = remove_source_block(&installed, BEGIN_MARKER, END_MARKER).unwrap();
    assert_eq!(removed, rc);
}
