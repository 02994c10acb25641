use gqy::path_guard::{
    ensure_writable, exe_project, is_inside, normalize_lexical, path_within, project_dir,
    workspace_dir,
};

#[test]
fn detects_project_inside_paths() {
    let dir = "/tmp/gqy-guard-test";
    assert!(is_inside(&normalize_lexical("/tmp/gqy-guard-test/src/main.rs"), dir, Some(dir), None));
    assert!(is_inside(&normalize_lexical("/tmp/gqy-guard-test/Cargo.toml"), dir, Some(dir), None));
    assert!(!is_inside(&normalize_lexical("/tmp/other.txt"), dir, Some("/tmp"), None));
    assert!(!is_inside(&normalize_lexical("/tmp/gqy-outside.txt"), dir, Some("/tmp"), None));
}

#[test]
fn detects_non_existent_nested_subdir_inside_project() {
    let dir = "/tmp/gqy-guard-nested-test";
    let nested = normalize_lexical("/tmp/gqy-guard-nested-test/a/b/c/d/file.txt");
    assert_eq!(nested, "/tmp/gqy-guard-nested-test/a/b/c/d/file.txt");
    assert!(is_inside(&nested, dir, Some(dir), None));
    let escaped = normalize_lexical("/tmp/gqy-guard-nested-test/a/b/../../../../outside.txt");
    assert_eq!(escaped, "/outside.txt");
    assert!(!is_inside(&escaped, dir, Some("/"), None));
}

#[test]
fn writable_outside_project_passes() {
    assert!(ensure_writable(false, false, "/p", "/w").is_ok());
    assert!(ensure_writable(true, true, "/p", "/w").is_ok());
}

#[test]
fn writable_inside_project_is_rejected() {
    let message = ensure_writable(true, false, "/tmp/gqy-guard-project-test", "/tmp/gqy-workspace").unwrap_err();
    assert!(message.contains("受保护"));
    assert_eq!(
        message,
        "路径位于项目源码目录（/tmp/gqy-guard-project-test）内，受保护。下载/临时文件请放到 /tmp/gqy-workspace；如需修改项目本身，请设置 GQY_ALLOW_PROJECT_WRITES=1"
    );
}

#[test]
fn paths_are_compared_by_component() {
    assert!(path_within("/a/b/c", "/a/b"));
    assert!(path_within("/a/b", "/a/b/"));
    assert!(path_within("/a//b/./c", "/a/b"));
    assert!(!path_within("/a/bc", "/a/b"));
    assert!(!path_within("a/b", "/a"));
    assert!(path_within("/x", ""));
    assert_eq!(normalize_lexical("/.."), "/");
    assert_eq!(normalize_lexical("a/../../b/./c/"), "b/c");
    assert_eq!(normalize_lexical(""), "");
    assert!(is_inside("/elsewhere/link", "/p", None, Some("/p/real")));
}

#[test]
fn project_and_workspace_directories() {
    assert_eq!(exe_project("/home/u/GQY/target/release/gqy"), Some("/home/u/GQY".to_string()));
    assert_eq!(exe_project("/target/debug/gqy"), Some("/".to_string()));
    assert_eq!(exe_project("/usr/local/bin/gqy"), None);
    assert_eq!(project_dir(Some("/custom"), Some("/built"), Some("/home/u")), "/custom");
    assert_eq!(project_dir(None, Some("/built"), Some("/home/u")), "/built");
    assert_eq!(project_dir(None, None, Some("/home/u")), "/home/u/GQY");
    assert_eq!(project_dir(None, None, None), "/Users/Shared/GQY");
    assert_eq!(workspace_dir(None, Some("/home/u")), "/home/u/gqy-workspace");
    assert_eq!(workspace_dir(None, None), "/tmp/gqy-workspace");
    assert_eq!(workspace_dir(Some("/w"), None), "/w");
}
