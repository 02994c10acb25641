use gqy::balance::{balance_url, format_balances, BalanceInfo};
use gqy::learning::{method_title, plan_learning, slugify, wants_to_learn};
use gqy::paths::{normalize_lexical, resolve_share_base_from, resolve_system_scripts_dir, GqyPaths};
use gqy::provider::{infer_id, models_url, sanitize_id, ProviderConfig};

#[test]
fn formats_balances_readably() {
    let infos = vec![BalanceInfo {
        currency: "CNY".to_string(),
        total_balance: "12.34".to_string(),
        granted_balance: "0.00".to_string(),
        topped_up_balance: "12.34".to_string(),
    }];
    let text = format_balances(&infos);
    assert!(text.contains("CNY 12.34"));
    assert!(text.contains("充值 12.34"));
    assert!(text.contains("赠送 0.00"));
}

#[test]
fn balances_join_with_full_width_semicolons() {
    let one = BalanceInfo {
        currency: "CNY".to_string(),
        total_balance: "1".to_string(),
        granted_balance: "0".to_string(),
        topped_up_balance: "1".to_string(),
    };
    let two = BalanceInfo { currency: "USD".to_string(), ..one.clone() };
    assert_eq!(
        format_balances(&[one, two]),
        "CNY 1（总）· 充值 1 · 赠送 0；USD 1（总）· 充值 1 · 赠送 0"
    );
    assert_eq!(format_balances(&[]), "余额信息为空");
}

#[test]
fn balance_endpoint_only_for_deepseek() {
    assert_eq!(balance_url("https://api.deepseek.com/v1/").as_deref(), Some("https://api.deepseek.com/user/balance"));
    assert_eq!(balance_url("https://API.DeepSeek.com").as_deref(), Some("https://API.DeepSeek.com/user/balance"));
    assert_eq!(balance_url("https://api.openai.com/v1"), None);
}

#[test]
fn detects_learning_signals() {
    assert!(wants_to_learn("记住这个方法，以后编译用这个命令"));
    assert!(wants_to_learn("把这个记下来"));
    assert!(!wants_to_learn("今天天气不错"));
    assert!(!wants_to_learn(""));
}

#[test]
fn slugifies_titles() {
    assert_eq!(slugify("编译 Rust 项目"), "编译-rust-项目");
    assert_eq!(slugify("  Hello World  "), "hello-world");
    assert_eq!(slugify("!!!"), "");
}

#[test]
fn method_title_takes_first_substantial_line() {
    assert_eq!(method_title("# 标题\n- 列表\n先安装依赖再编译项目"), "先安装依赖再编译项目");
    assert_eq!(method_title("短\n"), "对话中总结的方法");
    let long = "a".repeat(50);
    assert_eq!(method_title(&long).chars().count(), 40);
}

#[test]
fn skips_short_answers() {
    assert!(plan_learning("记住这个方法", "好", 0).is_none());
    assert!(plan_learning("今天天气", "这是一段足够长的回答，包含了完整的操作步骤说明", 0).is_none());
    let plan = plan_learning("记住这个方法", "编译 Rust 项目的步骤如下：先 cargo build 再运行", 0).unwrap();
    assert_eq!(plan.0, "编译 Rust 项目的步骤如下：先 cargo build 再运行");
    assert!(!plan.1.is_empty());
}

#[test]
fn isolated_layout_stays_under_one_home() {
    let home = "/tmp/gqy-test-home";
    let paths = GqyPaths::from_isolated_home(home, "", "");
    for path in [
        &paths.config_dir,
        &paths.data_dir,
        &paths.cache_dir,
        &paths.state_dir,
        &paths.pictures_dir,
        &paths.zsh_hook_file,
    ] {
        assert!(std::path::Path::new(path).starts_with(home), "{} escaped the home", path);
    }
}

#[test]
fn share_base_defaults_to_linux_share() {
    // The executable /opt/bin/gqy has the ancestors /opt/bin, /opt and /; none
    // of their share/gqy directories exists, nor does the project directory.
    let ancestors = vec![
        ("/opt/bin/share/gqy".to_string(), false),
        ("/opt/share/gqy".to_string(), false),
        ("/share/gqy".to_string(), false),
    ];
    let found = resolve_share_base_from(None, &ancestors, "/nonexistent/project", false);
    assert_eq!(found, "/usr/share/gqy");
}

#[test]
fn share_base_prefers_env_override() {
    let found = resolve_share_base_from(Some("/custom/share".to_string()), &[("/a/share/gqy".to_string(), true)], "/p", true);
    assert_eq!(found, "/custom/share");
    let found = resolve_share_base_from(None, &[("/a/share/gqy".to_string(), false), ("/share/gqy".to_string(), true)], "/p", true);
    assert_eq!(found, "/share/gqy");
}

#[test]
fn system_scripts_dir_matches_share_or_source_layout() {
    assert_eq!(resolve_system_scripts_dir("/x/share/gqy", true, false), "/x/share/gqy/scripts");
    assert_eq!(resolve_system_scripts_dir("/x", false, true), "/x/src/scripts");
    assert_eq!(resolve_system_scripts_dir("/x", false, false), "/x/scripts");
}

#[test]
fn lexical_normalization_folds_dots() {
    assert_eq!(normalize_lexical("/a/./b/../c"), "/a/c");
}

#[test]
fn sanitize_id_works() {
    assert_eq!(sanitize_id("My Provider!").unwrap(), "my-provider");
    assert_eq!(sanitize_id("deepseek").unwrap(), "deepseek");
    assert!(sanitize_id("###").is_err());
}

#[test]
fn infers_provider_ids_from_urls() {
    assert_eq!(infer_id("https://api.deepseek.com/v1"), "api");
    assert_eq!(infer_id("http://127.0.0.1:11434/v1"), "127");
    assert_eq!(infer_id("  "), "custom");
    assert_eq!(models_url("https://api.deepseek.com/v1/").as_deref(), Some("https://api.deepseek.com/v1/models"));
    assert_eq!(models_url("http://localhost:11434").as_deref(), Some("http://localhost:11434/v1/models"));
    assert_eq!(models_url(" "), None);
}

#[test]
fn pi_providers_are_recognised_by_protocol_or_id() {
    let mut p = ProviderConfig {
        id: "x".to_string(),
        display_name: "X".to_string(),
        base_url: String::new(),
        protocol: " PI ".to_string(),
        api_key: None,
        models: vec![],
        default_model: String::new(),
    };
    assert!(p.is_pi());
    p.protocol = "auto".to_string();
    assert!(!p.is_pi());
    p.id = "Pi".to_string();
    assert!(p.is_pi());
}
