use gqy::backup::{
    http_remote_contains_credentials, is_apple_double_file, is_obvious_secret_file,
    is_secret_key, is_ssh_remote, looks_like_gh_repo, maybe_auto_backup, set_remote, shell_quote,
    validate_remote, BackupError, BackupSettings,
};
use gqy::backup::{backup_now, BackupAction, BackupEvent, BackupRun, GitStep};

fn settings() -> BackupSettings {
    BackupSettings {
        version: 1,
        remote: String::new(),
        branch: "main".to_string(),
        git_name: "GQY".to_string(),
        git_email: "gqy@example.invalid".to_string(),
        auto_push: false,
        ssh_key: None,
    }
}

#[test]
fn detects_ssh_remote_forms() {
    assert!(is_ssh_remote("git@github.com:owner/private.git"));
    assert!(is_ssh_remote("ssh://git@github.com/owner/private.git"));
    assert!(!is_ssh_remote("https://github.com/owner/private.git"));
}

#[test]
fn detects_credentials_in_http_remote() {
    assert!(http_remote_contains_credentials("https://token@github.com/owner/private.git"));
    assert!(!http_remote_contains_credentials("https://github.com/owner/private.git"));
}

#[test]
fn recognizes_obvious_secret_files() {
    assert!(is_obvious_secret_file(".env.local"));
    assert!(is_obvious_secret_file("deploy-key.pem"));
    assert!(is_obvious_secret_file("id_ed25519"));
    assert!(!is_obvious_secret_file("persona.md"));
}

#[test]
fn excludes_apple_double_metadata_files() {
    assert!(is_apple_double_file("._persona.md"));
    assert!(!is_apple_double_file("persona.md"));
}

#[test]
fn detects_gh_repo_names() {
    let repo = looks_like_gh_repo("Francis-Xavier-code/GQY-backup");
    assert!(repo);
    assert!(!looks_like_gh_repo("https://github.com/a/b.git"));
    assert!(!looks_like_gh_repo("git@github.com:a/b.git"));
    assert!(!looks_like_gh_repo("ssh://git@github.com/a/b"));
    assert!(!looks_like_gh_repo("a/b/c"));
    assert!(!looks_like_gh_repo(""));
}

#[test]
fn remote_checks_report_each_refusal() {
    assert_eq!(validate_remote("  ", None), Err(BackupError::RemoteEmpty));
    assert_eq!(validate_remote("-oProxy", None), Err(BackupError::RemoteStartsWithDash));
    assert_eq!(validate_remote("https://x\ny", None), Err(BackupError::RemoteHasControlCharacters));
    assert_eq!(validate_remote("https://t@github.com/a/b", None), Err(BackupError::RemoteHasCredentials));
    assert_eq!(validate_remote("git@github.com:a/b.git", None), Err(BackupError::SshRemoteNeedsKey));
    assert_eq!(validate_remote("git@github.com:a/b.git", Some("key")), Err(BackupError::SshKeyNotAbsolute));
    assert_eq!(validate_remote("git@github.com:a/b.git", Some("/k/id")), Ok(()));
    assert_eq!(validate_remote("https://github.com/a/b.git", None), Ok(()));
}

#[test]
fn set_remote_replaces_remote_and_key_only() {
    let s = set_remote(settings(), "git@github.com:a/b.git".to_string(), Some("/h/secrets/id".to_string()), Some(true), Some("/h/secrets"), Some("/h/secrets/id"), true).unwrap();
    assert_eq!(s.remote, "git@github.com:a/b.git");
    assert_eq!(s.ssh_key.as_deref(), Some("/h/secrets/id"));
    assert!(s.auto_push);
    assert_eq!(s.branch, "main");
    let err = set_remote(settings(), "git@github.com:a/b.git".to_string(), None, None, None, None, false);
    assert!(matches!(err, Err(BackupError::SshRemoteNeedsKey)));
}

#[test]
fn automatic_backups_wait_for_the_interval() {
    let mut s = settings();
    s.auto_push = true;
    assert!(!maybe_auto_backup(false, Some(&s), None, 10_000, 1800));
    assert!(maybe_auto_backup(true, Some(&s), None, 10_000, 1800));
    assert!(!maybe_auto_backup(true, Some(&s), Some(9_000), 10_000, 1800));
    assert!(maybe_auto_backup(true, Some(&s), Some(8_000), 10_000, 1800));
    s.auto_push = false;
    assert!(!maybe_auto_backup(true, Some(&s), None, 10_000, 1800));
}

#[test]
fn quotes_for_the_shell() {
    assert_eq!(shell_quote("it's"), "'it'\\''s'");
    assert!(is_secret_key("API_TOKEN"));
}

#[test]
fn runs_push_only_when_asked_with_a_commit_and_a_remote() {
    for (push, remote_empty, head) in [(true, false, "abc123\n"), (false, false, "abc123\n"), (true, true, "abc123\n"), (true, false, "  \n")] {
        let mut run = BackupRun::new(push, remote_empty);
        let mut event = BackupEvent::Start;
        let mut outputs = vec!["".to_string(), "".to_string(), " M a\n".to_string(), "".to_string(), head.to_string(), "".to_string()].into_iter();
        let outcome = loop {
            let (next, action) = backup_now(run, event);
            run = next;
            match action {
                BackupAction::Finish(o) => break o,
                BackupAction::Abort => panic!("aborted"),
                BackupAction::Git(GitStep::Push) | BackupAction::Snapshot | BackupAction::Git(_) => {
                    event = BackupEvent::Succeeded(outputs.next().unwrap());
                },
            }
        };
        assert!(outcome.committed);
        assert_eq!(outcome.pushed, push && !remote_empty && !head.trim().is_empty());
    }
}

#[test]
fn remotes_are_trimmed_and_keys_kept_below_secrets() {
    let s = set_remote(settings(), " /srv/repo.git \n".to_string(), None, None, None, None, false).unwrap();
    assert_eq!(s.remote, "/srv/repo.git");
    let key = Some("/h/secrets/id".to_string());
    let outside = set_remote(settings(), "git@h:a/b.git".to_string(), key.clone(), None, Some("/h/secrets"), Some("/tmp/id"), true);
    assert!(matches!(outside, Err(BackupError::SshKeyOutsideSecrets)));
    let missing = set_remote(settings(), "git@h:a/b.git".to_string(), key.clone(), None, Some("/h/secrets"), None, false);
    assert!(matches!(missing, Err(BackupError::SshKeyMissing)));
    let no_secrets = set_remote(settings(), "git@h:a/b.git".to_string(), key.clone(), None, None, Some("/h/secrets/id"), true);
    assert!(matches!(no_secrets, Err(BackupError::SecretsMissing)));
    let not_file = set_remote(settings(), "git@h:a/b.git".to_string(), key, None, Some("/h/secrets"), Some("/h/secrets/dir"), false);
    assert!(matches!(not_file, Err(BackupError::SshKeyMissing)));
    assert_eq!(gqy::backup::check_key_location(Some("/h/secrets"), Some("/h/secretsx/id"), true), Err(BackupError::SshKeyOutsideSecrets));
}

#[test]
fn init_keys_must_live_below_secrets() {
    let options = gqy::backup::BackupInitOptions {
        remote: Some("git@github.com:a/b.git".to_string()),
        branch: "main".to_string(),
        git_name: "GQY".to_string(),
        git_email: "g@x".to_string(),
        auto_push: true,
        ssh_key: Some("/h/secrets/id".to_string()),
    };
    assert_eq!(gqy::backup::validate_init_located(&options, Some("/h/secrets"), Some("/h/secrets/id"), true), Ok(()));
    assert_eq!(
        gqy::backup::validate_init_located(&options, Some("/h/secrets"), Some("/h/other/id"), true),
        Err(BackupError::SshKeyOutsideSecrets)
    );
    assert_eq!(gqy::backup::validate_init_located(&options, None, None, false), Err(BackupError::SecretsMissing));
}
