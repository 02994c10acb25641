//! What `gqy backup init` and `gqy backup restore` decide before and between
//! the Git commands and file copies that the caller runs.
use vstd::prelude::*;
use crate::backup::{
    init_options_check, opt_view, validate_init_options, BackupError, BackupInitOptions,
    BackupSettings, RestoreOptions, SETTINGS_VERSION,
};
use crate::backup::{is_secret_key, secret_key};
use crate::json::JsonValue;
use crate::text::{string_of, trim, trim_str};

verus! {

/// Why setting up or restoring a backup stopped.
#[derive(Debug, Clone)]
pub enum SetupError {
    /// Backups live under an isolated `GQY_HOME`, and none is set.
    NoIsolatedHome,
    /// The options were refused.
    Invalid(BackupError),
    /// A backup repository already exists and would be overwritten.
    RepositoryExists,
    /// The live directory with this index (config, data, state, pictures)
    /// holds data and `--force` was not given.
    LiveDataPresent(usize),
    /// `git clone` failed; its trimmed error output.
    CloneFailed(String),
}

/// The options of a restore as init options: the remote is always given.
pub open spec fn restore_as_init(o: RestoreOptions) -> BackupInitOptions {
    BackupInitOptions {
        remote: Some(o.remote),
        branch: o.branch,
        git_name: o.git_name,
        git_email: o.git_email,
        auto_push: o.auto_push,
        ssh_key: o.ssh_key,
    }
}

/// The index of the first `true`, or the length when there is none.
pub open spec fn first_set(s: Seq<bool>) -> nat
    decreases s.len(),
{
    if s.len() == 0 {
        0
    } else if s[0] {
        0
    } else {
        1 + first_set(s.drop_first())
    }
}

proof fn lemma_first_set(s: Seq<bool>, i: int)
    requires
        0 <= i <= s.len(),
        forall|j: int| 0 <= j < i ==> !s[j],
        i < s.len() ==> s[i],
    ensures
        first_set(s) == i,
    decreases i,
{
    if i > 0 {
        assert forall|j: int| 0 <= j < i - 1 implies !s.drop_first()[j] by {
            assert(!s[j + 1]);
        }
        lemma_first_set(s.drop_first(), i - 1);
    }
}

/// Whether init may go ahead: an isolated home, then valid options.
pub open spec fn init_check(has_home: bool, o: BackupInitOptions) -> Result<(), SetupError> {
    if !has_home {
        Err(SetupError::NoIsolatedHome)
    } else {
        match init_options_check(o) {
            Err(e) => Err(SetupError::Invalid(e)),
            Ok(()) => Ok(()),
        }
    }
}

/// Whether a restore may go ahead: an isolated home, valid options, no backup
/// repository yet, and, unless forced, no live directory that holds data.
pub open spec fn restore_check(has_home: bool, o: RestoreOptions, repo_has_git: bool, live: Seq<bool>) -> Result<(), SetupError> {
    match init_check(has_home, restore_as_init(o)) {
        Err(e) => Err(e),
        Ok(()) => if repo_has_git {
            Err(SetupError::RepositoryExists)
        } else if !o.force && exists|i: int| 0 <= i < live.len() && #[trigger] live[i] {
            Err(SetupError::LiveDataPresent(first_set(live) as usize))
        } else {
            Ok(())
        },
    }
}

/// The settings a restore writes: its options with the text fields trimmed.
pub open spec fn restored_settings_ok(s: BackupSettings, o: RestoreOptions) -> bool {
    &&& s.version == SETTINGS_VERSION
    &&& s.remote@ == trim(o.remote@)
    &&& s.branch@ == trim(o.branch@)
    &&& s.git_name@ == trim(o.git_name@)
    &&& s.git_email@ == trim(o.git_email@)
    &&& s.auto_push == o.auto_push
    &&& opt_view(s.ssh_key) == opt_view(o.ssh_key)
}

fn restore_init_options(o: &RestoreOptions) -> (r: BackupInitOptions)
    ensures
        r.remote matches Some(x) && x@ == o.remote@,
        r.branch@ == o.branch@,
        r.git_name@ == o.git_name@,
        r.git_email@ == o.git_email@,
        r.auto_push == o.auto_push,
        opt_view(r.ssh_key) == opt_view(o.ssh_key),
{
    let ssh_key = match &o.ssh_key {
        Some(k) => Some(k.clone()),
        None => None,
    };
    BackupInitOptions {
        remote: Some(o.remote.clone()),
        branch: o.branch.clone(),
        git_name: o.git_name.clone(),
        git_email: o.git_email.clone(),
        auto_push: o.auto_push,
        ssh_key,
    }
}

/// The checks `gqy backup init` makes before it touches anything.
pub fn init_preflight(has_home: bool, options: &BackupInitOptions) -> (r: Result<(), SetupError>)
    ensures
        r == init_check(has_home, *options),
{
    if !has_home {
        return Err(SetupError::NoIsolatedHome);
    }
    match validate_init_options(options) {
        Err(e) => Err(SetupError::Invalid(e)),
        Ok(()) => Ok(()),
    }
}

/// The checks `gqy backup restore` makes before it clones, and the settings it
/// will write. `live_has_files` says, for the config, data, state and pictures
/// directories in that order, whether each already holds data.
pub fn restore_preflight(has_home: bool, options: &RestoreOptions, repo_has_git: bool, live_has_files: &[bool]) -> (r: Result<BackupSettings, SetupError>)
    ensures
        match r {
            Ok(s) => restore_check(has_home, *options, repo_has_git, live_has_files@) is Ok
                && restored_settings_ok(s, *options),
            Err(e) => restore_check(has_home, *options, repo_has_git, live_has_files@) == Err::<(), SetupError>(e),
        },
{
    let init = restore_init_options(options);
    proof {
        let a = restore_as_init(*options);
        assert(init_options_check(init) == init_options_check(a)) by {
            assert(init.branch@ == a.branch@);
            assert(init.git_name@ == a.git_name@);
            assert(init.git_email@ == a.git_email@);
            assert(opt_view(init.ssh_key) == opt_view(a.ssh_key));
        }
    }
    if let Err(e) = init_preflight(has_home, &init) {
        return Err(e);
    }
    if repo_has_git {
        return Err(SetupError::RepositoryExists);
    }
    if !options.force {
        let mut i: usize = 0;
        while i < live_has_files.len()
            invariant
                i <= live_has_files.len(),
                forall|j: int| 0 <= j < i ==> !live_has_files@[j],
                init_check(has_home, restore_as_init(*options)) is Ok,
                !repo_has_git,
                !options.force,
            decreases live_has_files.len() - i,
        {
            if live_has_files[i] {
                proof {
                    lemma_first_set(live_has_files@, i as int);
                    assert(live_has_files@[i as int]);
                    assert(first_set(live_has_files@) as usize == i);
                }
                return Err(SetupError::LiveDataPresent(i));
            }
            i += 1;
        }
    }
    let ssh_key = match &options.ssh_key {
        Some(k) => Some(k.clone()),
        None => None,
    };
    Ok(BackupSettings {
        version: SETTINGS_VERSION,
        remote: string_of(trim_str(options.remote.as_str()).as_slice()),
        branch: string_of(trim_str(options.branch.as_str()).as_slice()),
        git_name: string_of(trim_str(options.git_name.as_str()).as_slice()),
        git_email: string_of(trim_str(options.git_email.as_str()).as_slice()),
        auto_push: options.auto_push,
        ssh_key,
    })
}

/// The settings `gqy backup init` writes: the options with the text fields
/// trimmed, and the remote as resolved (empty in local mode).
pub fn init_settings(options: &BackupInitOptions, remote: String) -> (s: BackupSettings)
    ensures
        s.version == SETTINGS_VERSION,
        s.remote@ == remote@,
        s.branch@ == trim(options.branch@),
        s.git_name@ == trim(options.git_name@),
        s.git_email@ == trim(options.git_email@),
        s.auto_push == options.auto_push,
        opt_view(s.ssh_key) == opt_view(options.ssh_key),
{
    let ssh_key = match &options.ssh_key {
        Some(k) => Some(k.clone()),
        None => None,
    };
    BackupSettings {
        version: SETTINGS_VERSION,
        remote,
        branch: string_of(trim_str(options.branch.as_str()).as_slice()),
        git_name: string_of(trim_str(options.git_name.as_str()).as_slice()),
        git_email: string_of(trim_str(options.git_email.as_str()).as_slice()),
        auto_push: options.auto_push,
        ssh_key,
    }
}

pub open spec fn strs(v: Seq<String>) -> Seq<Seq<char>> {
    v.map_values(|s: String| s@)
}

pub open spec fn steps_view(v: Seq<Vec<String>>) -> Seq<Seq<Seq<char>>> {
    v.map_values(|s: Vec<String>| strs(s@))
}

fn words(a: &str, b: &str, c: &str, d: &str) -> (r: Vec<String>)
    ensures
        strs(r@) == seq![a@, b@, c@, d@],
{
    let mut v: Vec<String> = Vec::new();
    v.push(a.to_string());
    v.push(b.to_string());
    v.push(c.to_string());
    v.push(d.to_string());
    assert(strs(v@) =~= seq![a@, b@, c@, d@]);
    v
}

/// The arguments of `git clone` for a restore.
pub fn clone_args(settings: &BackupSettings) -> (r: Vec<String>)
    ensures
        strs(r@) == seq!["clone"@, "--branch"@, settings.branch@, settings.remote@, "repository"@],
{
    let mut v: Vec<String> = Vec::new();
    v.push("clone".to_string());
    v.push("--branch".to_string());
    v.push(settings.branch.clone());
    v.push(settings.remote.clone());
    v.push("repository".to_string());
    assert(strs(v@) =~= seq!["clone"@, "--branch"@, settings.branch@, settings.remote@, "repository"@]);
    v
}

/// A failed clone, with its trimmed error output.
pub fn clone_failed(stderr: &str) -> (r: SetupError)
    ensures
        r matches SetupError::CloneFailed(m) && m@ == trim(stderr@),
{
    SetupError::CloneFailed(string_of(trim_str(stderr).as_slice()))
}

/// The Git configuration both init and restore set: author name and email, and
/// a hooks directory that holds no hooks.
pub open spec fn config_steps(settings: BackupSettings, hooks_path: Seq<char>) -> Seq<Seq<Seq<char>>> {
    seq![
        seq!["config"@, "--local"@, "user.name"@, settings.git_name@],
        seq!["config"@, "--local"@, "user.email"@, settings.git_email@],
        seq!["config"@, "--local"@, "core.hooksPath"@, hooks_path],
    ]
}

/// The Git commands that finish a restore.
pub fn restore_git_steps(settings: &BackupSettings, hooks_path: &str) -> (r: Vec<Vec<String>>)
    ensures
        steps_view(r@) == config_steps(*settings, hooks_path@),
{
    let mut v: Vec<Vec<String>> = Vec::new();
    v.push(words("config", "--local", "user.name", settings.git_name.as_str()));
    v.push(words("config", "--local", "user.email", settings.git_email.as_str()));
    v.push(words("config", "--local", "core.hooksPath", hooks_path));
    assert(steps_view(v@) =~= config_steps(*settings, hooks_path@));
    v
}

/// The Git commands of init: `git init` when the repository is new, then the
/// configuration.
pub fn init_git_steps(settings: &BackupSettings, repo_has_git: bool, hooks_path: &str) -> (r: Vec<Vec<String>>)
    ensures
        steps_view(r@) == if repo_has_git {
            config_steps(*settings, hooks_path@)
        } else {
            seq![seq!["init"@, "-b"@, settings.branch@]] + config_steps(*settings, hooks_path@)
        },
{
    let mut v: Vec<Vec<String>> = Vec::new();
    if !repo_has_git {
        let mut first: Vec<String> = Vec::new();
        first.push("init".to_string());
        first.push("-b".to_string());
        first.push(settings.branch.clone());
        assert(strs(first@) =~= seq!["init"@, "-b"@, settings.branch@]);
        v.push(first);
    }
    let ghost head = v@;
    v.push(words("config", "--local", "user.name", settings.git_name.as_str()));
    v.push(words("config", "--local", "user.email", settings.git_email.as_str()));
    v.push(words("config", "--local", "core.hooksPath", hooks_path));
    proof {
        assert(steps_view(v@) =~= steps_view(head) + config_steps(*settings, hooks_path@));
        if !repo_has_git {
            assert(steps_view(head) =~= seq![seq!["init"@, "-b"@, settings.branch@]]);
        } else {
            assert(steps_view(head) =~= Seq::<Seq<Seq<char>>>::empty());
        }
    }
    v
}

/// How init points `origin` at the remote: nothing in local mode, `set-url`
/// when `origin` exists, `add` otherwise.
pub fn origin_step(remote: &str, has_origin: bool) -> (r: Option<Vec<String>>)
    ensures
        match r {
            None => remote@.len() == 0,
            Some(v) => remote@.len() > 0 && strs(v@) == seq![
                "remote"@,
                if has_origin { "set-url"@ } else { "add"@ },
                "origin"@,
                remote@,
            ],
        },
{
    if crate::text::chars_of(remote).len() == 0 {
        None
    } else if has_origin {
        Some(words("remote", "set-url", "origin", remote))
    } else {
        Some(words("remote", "add", "origin", remote))
    }
}

/// The directories a restore copies back, by their name in the repository, and
/// whether `config.jsonc` is left out: the live config file is kept when it
/// exists.
pub fn restore_copies(config_file_exists: bool) -> (r: Vec<(&'static str, bool)>)
    ensures
        r@.len() == 4,
        r@[0].0@ == "config"@ && r@[0].1 == config_file_exists,
        r@[1].0@ == "data"@ && !r@[1].1,
        r@[2].0@ == "state"@ && !r@[2].1,
        r@[3].0@ == "pictures"@ && !r@[3].1,
{
    let mut v: Vec<(&'static str, bool)> = Vec::new();
    v.push(("config", config_file_exists));
    v.push(("data", false));
    v.push(("state", false));
    v.push(("pictures", false));
    v
}

// ---------------------------------------------------------------- redacted config

/// The name for what `json_comments::StripComments` reads out of the given
/// bytes: the same bytes with every comment turned into spaces, or nothing when
/// the input ends inside a string or a block comment, or holds a lone `/`.
pub uninterp spec fn comments_stripped(raw: Seq<u8>) -> Option<Seq<u8>>;

/// Reads `raw` through `json_comments::StripComments` to the end. The crate
/// replaces bytes in place, so a result is as long as the input; which bytes it
/// blanks is left to the name.
#[verifier::external_body]
fn strip_comments(raw: &[u8]) -> (r: Option<Vec<u8>>)
    ensures
        r matches Some(v) ==> comments_stripped(raw@) == Some(v@) && v@.len() == raw@.len(),
        r is None ==> comments_stripped(raw@) is None,
{
    let mut out = Vec::new();
    match std::io::Read::read_to_end(&mut json_comments::StripComments::new(raw), &mut out) {
        Ok(_) => Some(out),
        Err(_) => None,
    }
}

/// The configuration file with its comments blanked out, ready for a JSON
/// parser; none when it cannot be read that way.
pub fn config_without_comments(raw: &[u8]) -> (r: Option<Vec<u8>>)
    ensures
        match r {
            Some(v) => comments_stripped(raw@) == Some(v@) && v@.len() == raw@.len(),
            None => comments_stripped(raw@) is None,
        },
{
    strip_comments(raw)
}

/// What a secret value becomes: an empty value of the same kind, `null` for
/// anything that is not an array, object or string.
pub open spec fn blanked(before: JsonValue, after: JsonValue) -> bool {
    match before {
        JsonValue::Array(_) => after is Array && after->Array_0@.len() == 0,
        JsonValue::Object(_) => after is Object && after->Object_0@.len() == 0,
        JsonValue::String(_) => after is String && after->String_0@.len() == 0,
        _ => after is Null,
    }
}

/// `after` is `before` with every member whose key names a secret blanked, at
/// any depth; keys, order and everything else are kept.
pub open spec fn redacts(before: JsonValue, after: JsonValue) -> bool
    decreases before, 1nat, 0int,
{
    match before {
        JsonValue::Object(es) => after is Object && after->Object_0@.len() == es@.len()
            && members_redact(before, after, es@.len() as int),
        JsonValue::Array(xs) => after is Array && after->Array_0@.len() == xs@.len()
            && items_redact(before, after, xs@.len() as int),
        _ => after == before,
    }
}

/// The first `k` members of an object are redacted.
pub open spec fn members_redact(before: JsonValue, after: JsonValue, k: int) -> bool
    decreases before, 0nat, k,
{
    if before is Object && after is Object && 0 < k <= before->Object_0@.len() && k
        <= after->Object_0@.len() {
        let es = before->Object_0;
        let fs = after->Object_0;
        proof {
            assert(decreases_to!(before => es));
            assert(decreases_to!(es => es@));
            assert(decreases_to!(es@ => es@[k - 1]));
            assert(decreases_to!(es@[k - 1] => es@[k - 1].1));
        }
        &&& members_redact(before, after, k - 1)
        &&& fs@[k - 1].0@ == es@[k - 1].0@
        &&& if secret_key(es@[k - 1].0@) {
            blanked(es@[k - 1].1, fs@[k - 1].1)
        } else {
            redacts(es@[k - 1].1, fs@[k - 1].1)
        }
    } else {
        true
    }
}

/// The first `k` items of an array are redacted.
pub open spec fn items_redact(before: JsonValue, after: JsonValue, k: int) -> bool
    decreases before, 0nat, k,
{
    if before is Array && after is Array && 0 < k <= before->Array_0@.len() && k
        <= after->Array_0@.len() {
        let xs = before->Array_0;
        let ys = after->Array_0;
        proof {
            assert(decreases_to!(before => xs));
            assert(decreases_to!(xs => xs@));
            assert(decreases_to!(xs@ => xs@[k - 1]));
        }
        items_redact(before, after, k - 1) && redacts(xs@[k - 1], ys@[k - 1])
    } else {
        true
    }
}

fn blank(v: &JsonValue) -> (r: JsonValue)
    ensures
        blanked(*v, r),
{
    match v {
        JsonValue::Array(_) => JsonValue::Array(Vec::new()),
        JsonValue::Object(_) => JsonValue::Object(Vec::new()),
        JsonValue::String(_) => JsonValue::String(String::new()),
        _ => JsonValue::Null,
    }
}

proof fn lemma_members_prefix(b0: JsonValue, a0: JsonValue, a1: JsonValue, k: int)
    requires
        b0 is Object,
        a0 is Object,
        a1 is Object,
        0 <= k <= b0->Object_0@.len(),
        k <= a0->Object_0@.len(),
        k <= a1->Object_0@.len(),
        forall|j: int| 0 <= j < k ==> a0->Object_0@[j] == a1->Object_0@[j],
        members_redact(b0, a0, k),
    ensures
        members_redact(b0, a1, k),
    decreases k,
{
    if k > 0 {
        lemma_members_prefix(b0, a0, a1, k - 1);
    }
}

proof fn lemma_items_prefix(b0: JsonValue, a0: JsonValue, a1: JsonValue, k: int)
    requires
        b0 is Array,
        a0 is Array,
        a1 is Array,
        0 <= k <= b0->Array_0@.len(),
        k <= a0->Array_0@.len(),
        k <= a1->Array_0@.len(),
        forall|j: int| 0 <= j < k ==> a0->Array_0@[j] == a1->Array_0@[j],
        items_redact(b0, a0, k),
    ensures
        items_redact(b0, a1, k),
    decreases k,
{
    if k > 0 {
        lemma_items_prefix(b0, a0, a1, k - 1);
    }
}

/// A value that holds nothing: an empty string, array or object, or null.
pub open spec fn empty_value(v: JsonValue) -> bool {
    match v {
        JsonValue::String(t) => t@.len() == 0,
        JsonValue::Array(xs) => xs@.len() == 0,
        JsonValue::Object(es) => es@.len() == 0,
        JsonValue::Null => true,
        _ => false,
    }
}

/// No member whose key names a secret holds anything, at any depth.
pub open spec fn secret_free(v: JsonValue) -> bool
    decreases v, 1nat, 0int,
{
    match v {
        JsonValue::Object(es) => members_secret_free(v, es@.len() as int),
        JsonValue::Array(xs) => items_secret_free(v, xs@.len() as int),
        _ => true,
    }
}

/// The first `k` members of an object keep no secret.
pub open spec fn members_secret_free(v: JsonValue, k: int) -> bool
    decreases v, 0nat, k,
{
    if v is Object && 0 < k <= v->Object_0@.len() {
        let es = v->Object_0;
        proof {
            assert(decreases_to!(v => es));
            assert(decreases_to!(es => es@));
            assert(decreases_to!(es@ => es@[k - 1]));
            assert(decreases_to!(es@[k - 1] => es@[k - 1].1));
        }
        &&& members_secret_free(v, k - 1)
        &&& if secret_key(es@[k - 1].0@) {
            empty_value(es@[k - 1].1)
        } else {
            secret_free(es@[k - 1].1)
        }
    } else {
        true
    }
}

/// The first `k` items of an array keep no secret.
pub open spec fn items_secret_free(v: JsonValue, k: int) -> bool
    decreases v, 0nat, k,
{
    if v is Array && 0 < k <= v->Array_0@.len() {
        let xs = v->Array_0;
        proof {
            assert(decreases_to!(v => xs));
            assert(decreases_to!(xs => xs@));
            assert(decreases_to!(xs@ => xs@[k - 1]));
        }
        items_secret_free(v, k - 1) && secret_free(xs@[k - 1])
    } else {
        true
    }
}

proof fn lemma_members_secret_free(before: JsonValue, after: JsonValue, k: int)
    requires
        before is Object,
        after is Object,
        0 <= k <= before->Object_0@.len(),
        k <= after->Object_0@.len(),
        members_redact(before, after, k),
    ensures
        members_secret_free(after, k),
    decreases before, 0nat, k,
{
    if k > 0 {
        let es = before->Object_0;
        let fs = after->Object_0;
        assert(decreases_to!(before => es));
        assert(decreases_to!(es => es@));
        assert(decreases_to!(es@ => es@[k - 1]));
        assert(decreases_to!(es@[k - 1] => es@[k - 1].1));
        lemma_members_secret_free(before, after, k - 1);
        if !secret_key(es@[k - 1].0@) {
            lemma_redacts_secret_free(es@[k - 1].1, fs@[k - 1].1);
        }
    }
}

proof fn lemma_items_secret_free(before: JsonValue, after: JsonValue, k: int)
    requires
        before is Array,
        after is Array,
        0 <= k <= before->Array_0@.len(),
        k <= after->Array_0@.len(),
        items_redact(before, after, k),
    ensures
        items_secret_free(after, k),
    decreases before, 0nat, k,
{
    if k > 0 {
        let xs = before->Array_0;
        let ys = after->Array_0;
        assert(decreases_to!(before => xs));
        assert(decreases_to!(xs => xs@));
        assert(decreases_to!(xs@ => xs@[k - 1]));
        lemma_items_secret_free(before, after, k - 1);
        lemma_redacts_secret_free(xs@[k - 1], ys@[k - 1]);
    }
}

/// A redacted configuration keeps no secret: every member whose key names a
/// secret (an API key, a token, a password, ...) is empty, at any depth.
pub proof fn lemma_redacts_secret_free(before: JsonValue, after: JsonValue)
    requires
        redacts(before, after),
    ensures
        secret_free(after),
    decreases before, 1nat, 0int,
{
    match before {
        JsonValue::Object(es) => {
            lemma_members_secret_free(before, after, es@.len() as int);
        },
        JsonValue::Array(xs) => {
            lemma_items_secret_free(before, after, xs@.len() as int);
        },
        _ => {},
    }
}

/// Blanks every secret in a configuration value before it goes into a backup.
#[verifier::loop_isolation(false)]
pub fn redact_secrets(v: JsonValue) -> (r: JsonValue)
    ensures
        redacts(v, r),
    decreases v,
{
    let ghost v0 = v;
    match v {
        JsonValue::Object(es) => {
            let ghost orig = es@;
            let mut es = es;
            let n = es.len();
            let mut i: usize = 0;
            while i < n
                invariant
                    v0 == JsonValue::Object(v0->Object_0),
                    orig == v0->Object_0@,
                    n == orig.len(),
                    es@.len() == n,
                    i <= n,
                    forall|j: int| i <= j < n ==> es@[j] == orig[j],
                    members_redact(v0, JsonValue::Object(es), i as int),
                decreases n - i,
            {
                let ghost es_before = es;
                let mut item = (String::new(), JsonValue::Null);
                std::mem::swap(&mut item, &mut es[i]);
                let (key, val) = item;
                proof {
                    assert(val == orig[i as int].1);
                    assert(decreases_to!(v0 => v0->Object_0));
                    assert(decreases_to!(v0->Object_0 => orig));
                    assert(decreases_to!(orig => orig[i as int]));
                    assert(decreases_to!(orig[i as int] => orig[i as int].1));
                }
                let nv = if is_secret_key(key.as_str()) {
                    blank(&val)
                } else {
                    redact_secrets(val)
                };
                es.set(i, (key, nv));
                proof {
                    lemma_members_prefix(v0, JsonValue::Object(es_before), JsonValue::Object(es), i as int);
                    assert(es@[i as int].0@ == orig[i as int].0@);
                    assert(members_redact(v0, JsonValue::Object(es), i + 1));
                }
                i += 1;
            }
            JsonValue::Object(es)
        },
        JsonValue::Array(xs) => {
            let ghost orig = xs@;
            let mut xs = xs;
            let n = xs.len();
            let mut i: usize = 0;
            while i < n
                invariant
                    v0 == JsonValue::Array(v0->Array_0),
                    orig == v0->Array_0@,
                    n == orig.len(),
                    xs@.len() == n,
                    i <= n,
                    forall|j: int| i <= j < n ==> xs@[j] == orig[j],
                    items_redact(v0, JsonValue::Array(xs), i as int),
                decreases n - i,
            {
                let ghost xs_before = xs;
                let mut item = JsonValue::Null;
                std::mem::swap(&mut item, &mut xs[i]);
                proof {
                    assert(item == orig[i as int]);
                    assert(decreases_to!(v0 => v0->Array_0));
                    assert(decreases_to!(v0->Array_0 => orig));
                    assert(decreases_to!(orig => orig[i as int]));
                }
                let nv = redact_secrets(item);
                xs.set(i, nv);
                proof {
                    lemma_items_prefix(v0, JsonValue::Array(xs_before), JsonValue::Array(xs), i as int);
                    assert(items_redact(v0, JsonValue::Array(xs), i + 1));
                }
                i += 1;
            }
            JsonValue::Array(xs)
        },
        other => other,
    }
}

} // verus!
