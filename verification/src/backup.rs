//! Backup settings, the checks on them, and the rules that decide what a backup
//! run does. Git itself and the file copies are run by the caller.
use vstd::prelude::*;
use crate::path_guard::{path_within, within};
use crate::numbers::{parse_unsigned, parse_unsigned_chars};
use crate::paths::{extension_of, extension_of_name, file_name, file_name_of};
use crate::text::{
    ascii_lower, char_ascii_lower, char_is_ascii_alphanumeric, char_is_control, char_is_ws,
    chars_of, contains, contains_char, contains_str, ends_with, has_char, has_prefix_str,
    has_suffix_str, is_ascii_alphanumeric, is_blank, is_control, is_ws, split_char,
    split_on_char, starts_with, str_is, string_of, trim, trim_chars, trim_end_chars,
    trim_start, trim_start_chars, extend_chars, extend_str, trim_end, ascii_lower_seq,
    ascii_lower_chars,
};

verus! {

/// Settings of the isolated Git backup (`backup/settings.json`).
#[derive(Debug, Clone)]
pub struct BackupSettings {
    pub version: u32,
    pub remote: String,
    pub branch: String,
    pub git_name: String,
    pub git_email: String,
    pub auto_push: bool,
    pub ssh_key: Option<String>,
}

/// What `gqy backup init` was asked to set up.
#[derive(Debug, Clone)]
pub struct BackupInitOptions {
    pub remote: Option<String>,
    pub branch: String,
    pub git_name: String,
    pub git_email: String,
    pub auto_push: bool,
    pub ssh_key: Option<String>,
}

/// What one backup run did.
#[derive(Debug, Clone)]
pub struct BackupOutcome {
    pub committed: bool,
    pub pushed: bool,
    pub commit: Option<String>,
}

/// What `gqy backup restore` was asked to do.
#[derive(Debug, Clone)]
pub struct RestoreOptions {
    pub remote: String,
    pub branch: String,
    pub git_name: String,
    pub git_email: String,
    pub ssh_key: Option<String>,
    pub auto_push: bool,
    pub force: bool,
}

/// The settings format this library reads and writes.
pub const SETTINGS_VERSION: u32 = 1;

/// Automatic backups are skipped within this many seconds of the last commit.
pub const AUTO_BACKUP_MIN_INTERVAL_SECS: i64 = 1800;

/// Which text field of the options is meant.
#[derive(Debug, Clone, Copy, PartialEq, Eq, Structural)]
pub enum OptionField {
    Branch,
    GitName,
    GitEmail,
}

/// Why backup options were refused.
#[derive(Debug, Clone, Copy, PartialEq, Eq, Structural)]
pub enum BackupError {
    EmptyField(OptionField),
    BranchHasWhitespace,
    BranchStartsWithDash,
    SshKeyWithoutRemote,
    RemoteEmpty,
    RemoteStartsWithDash,
    RemoteHasControlCharacters,
    RemoteHasCredentials,
    SshRemoteNeedsKey,
    SshKeyNotAbsolute,
    /// `GQY_HOME/secrets` does not exist.
    SecretsMissing,
    /// The SSH key does not exist, or is not a file.
    SshKeyMissing,
    /// The SSH key lies outside `GQY_HOME/secrets`.
    SshKeyOutsideSecrets,
}

// ---------------------------------------------------------------- remote forms

/// `owner/repo` as GitHub names repositories, not a URL or an SSH address.
pub open spec fn gh_repo_form(s: Seq<char>) -> bool {
    let parts = split_char(s, '/');
    &&& parts.len() == 2
    &&& forall|i: int| 0 <= i < parts[0].len() ==> {
        let c = #[trigger] parts[0][i];
        is_ascii_alphanumeric(c) || c == '-' || c == '_'
    }
    &&& parts[0].len() > 0
    &&& parts[1].len() > 0
    &&& !starts_with(s, "http"@)
    &&& !starts_with(s, "ssh"@)
    &&& !starts_with(s, "git@"@)
}

pub fn looks_like_gh_repo(trimmed: &str) -> (r: bool)
    ensures
        r == gh_repo_form(trimmed@),
{
    let s = chars_of(trimmed);
    let parts = split_on_char(s.as_slice(), '/');
    if parts.len() != 2 {
        return false;
    }
    let owner = &parts[0];
    assert(owner@ == split_char(trimmed@, '/')[0]);
    let mut i: usize = 0;
    while i < owner.len()
        invariant
            i <= owner.len(),
            owner@ == split_char(trimmed@, '/')[0],
            forall|k: int| 0 <= k < i ==> {
                let c = #[trigger] owner@[k];
                is_ascii_alphanumeric(c) || c == '-' || c == '_'
            },
        decreases owner.len() - i,
    {
        let c = owner[i];
        if !(char_is_ascii_alphanumeric(c) || c == '-' || c == '_') {
            assert(split_char(trimmed@, '/')[0][i as int] == c);
            return false;
        }
        i += 1;
    }
    owner.len() > 0 && parts[1].len() > 0 && !has_prefix_str(s.as_slice(), "http")
        && !has_prefix_str(s.as_slice(), "ssh") && !has_prefix_str(s.as_slice(), "git@")
}

/// An SSH remote: `ssh://...`, or anything with both `@` and `:`.
pub open spec fn ssh_remote_form(s: Seq<char>) -> bool {
    starts_with(trim_start(s), "ssh://"@) || (has_char(s, '@') && has_char(s, ':'))
}

pub fn is_ssh_remote(remote: &str) -> (r: bool)
    ensures
        r == ssh_remote_form(remote@),
{
    let s = chars_of(remote);
    let t = trim_start_chars(s.as_slice());
    has_prefix_str(t.as_slice(), "ssh://") || (contains_char(s.as_slice(), '@')
        && contains_char(s.as_slice(), ':'))
}

pub open spec fn after_http_scheme(s: Seq<char>) -> Option<Seq<char>> {
    if starts_with(s, "https://"@) {
        Some(s.skip(8))
    } else if starts_with(s, "http://"@) {
        Some(s.skip(7))
    } else {
        None
    }
}

/// An `http(s)://` remote whose authority (up to the first `/`) holds `@`.
pub open spec fn http_credentials_form(s: Seq<char>) -> bool {
    match after_http_scheme(s) {
        Some(rest) => has_char(split_char(rest, '/')[0], '@'),
        None => false,
    }
}

pub fn http_remote_contains_credentials(remote: &str) -> (r: bool)
    ensures
        r == http_credentials_form(remote@),
{
    proof {
        reveal_strlit("https://");
        reveal_strlit("http://");
    }
    let s = chars_of(remote);
    let rest = if has_prefix_str(s.as_slice(), "https://") {
        crate::text::slice_chars(s.as_slice(), 8, s.len())
    } else if has_prefix_str(s.as_slice(), "http://") {
        crate::text::slice_chars(s.as_slice(), 7, s.len())
    } else {
        return false;
    };
    let pieces = split_on_char(rest.as_slice(), '/');
    proof {
        crate::text::lemma_split_char_nonempty(rest@, '/');
    }
    contains_char(pieces[0].as_slice(), '@')
}

pub open spec fn https_form(s: Seq<char>) -> bool {
    starts_with(trim_start(s), "https://"@)
}

pub fn is_https_remote(remote: &str) -> (r: bool)
    ensures
        r == https_form(remote@),
{
    let s = chars_of(remote);
    let t = trim_start_chars(s.as_slice());
    has_prefix_str(t.as_slice(), "https://")
}

// ---------------------------------------------------------------- secret names

/// A configuration key lowercased, with `-` and `.` read as `_`.
pub open spec fn normalize_key(s: Seq<char>) -> Seq<char> {
    s.map_values(
        |c: char|
            {
                let l = ascii_lower(c);
                if l == '-' || l == '.' {
                    '_'
                } else {
                    l
                }
            },
    )
}

/// Whether a configuration key names a secret whose value a backup must not keep.
pub open spec fn secret_key(key: Seq<char>) -> bool {
    let n = normalize_key(key);
    let token_value = (n == "token"@ || n == "tokens"@ || ends_with(n, "_token"@) || ends_with(
        n,
        "_tokens"@,
    )) && !contains(n, "max_token"@) && !contains(n, "token_usage"@) && !contains(
        n,
        "token_count"@,
    ) && !contains(n, "token_limit"@) && !contains(n, "token_budget"@);
    contains(n, "api_key"@) || contains(n, "apikey"@) || token_value || contains(n, "password"@)
        || contains(n, "secret"@) || contains(n, "credential"@) || n == "authorization"@
        || ends_with(n, "_auth"@)
}

pub fn is_secret_key(key: &str) -> (r: bool)
    ensures
        r == secret_key(key@),
{
    let k = chars_of(key);
    let mut n: Vec<char> = Vec::new();
    let mut i: usize = 0;
    while i < k.len()
        invariant
            i <= k.len(),
            n@ == normalize_key(k@.take(i as int)),
        decreases k.len() - i,
    {
        let l = char_ascii_lower(k[i]);
        n.push(if l == '-' || l == '.' { '_' } else { l });
        assert(normalize_key(k@.take(i + 1)) =~= normalize_key(k@.take(i as int)).push(
            n@.last(),
        ));
        i += 1;
    }
    assert(k@.take(k.len() as int) == k@);
    let ns = n.as_slice();
    let token_value = (str_is(ns, "token") || str_is(ns, "tokens") || has_suffix_str(ns, "_token")
        || has_suffix_str(ns, "_tokens")) && !contains_str(ns, "max_token") && !contains_str(
        ns,
        "token_usage",
    ) && !contains_str(ns, "token_count") && !contains_str(ns, "token_limit") && !contains_str(
        ns,
        "token_budget",
    );
    contains_str(ns, "api_key") || contains_str(ns, "apikey") || token_value || contains_str(
        ns,
        "password",
    ) || contains_str(ns, "secret") || contains_str(ns, "credential") || str_is(
        ns,
        "authorization",
    ) || has_suffix_str(ns, "_auth")
}

// ---------------------------------------------------------------- files a snapshot skips

pub open spec fn name_or_empty(path: Seq<char>) -> Seq<char> {
    match file_name(path) {
        Some(n) => n,
        None => seq![],
    }
}

/// SQLite write-ahead and shared-memory side files.
pub open spec fn sqlite_sidecar(path: Seq<char>) -> bool {
    let n = name_or_empty(path);
    ends_with(n, ".db-wal"@) || ends_with(n, ".db-shm"@)
}

/// macOS AppleDouble metadata files (`._name`).
pub open spec fn apple_double(path: Seq<char>) -> bool {
    match file_name(path) {
        Some(n) => starts_with(n, "._"@) && n.len() > 2,
        None => false,
    }
}

/// Files that obviously hold secrets: `.env` files, private keys, credentials.
pub open spec fn obvious_secret_file(path: Seq<char>) -> bool {
    let name = ascii_lower_seq(name_or_empty(path));
    let ext = match file_name(path) {
        Some(n) => match extension_of(n) {
            Some(e) => ascii_lower_seq(e),
            None => seq![],
        },
        None => seq![],
    };
    name == ".env"@ || starts_with(name, ".env."@) || name == "id_rsa"@ || name == "id_ed25519"@
        || name == "credentials.json"@ || ext == "pem"@ || ext == "key"@ || ext == "p12"@ || ext
        == "pfx"@
}

fn name_chars(path: &[char]) -> (r: Vec<char>)
    ensures
        r@ == name_or_empty(path@),
{
    match file_name_of(path) {
        Some(n) => n,
        None => Vec::new(),
    }
}

pub fn is_sqlite_sidecar(path: &str) -> (r: bool)
    ensures
        r == sqlite_sidecar(path@),
{
    let p = chars_of(path);
    let n = name_chars(p.as_slice());
    has_suffix_str(n.as_slice(), ".db-wal") || has_suffix_str(n.as_slice(), ".db-shm")
}

pub fn is_apple_double_file(path: &str) -> (r: bool)
    ensures
        r == apple_double(path@),
{
    let p = chars_of(path);
    match file_name_of(p.as_slice()) {
        Some(n) => has_prefix_str(n.as_slice(), "._") && n.len() > 2,
        None => false,
    }
}

pub fn is_obvious_secret_file(path: &str) -> (r: bool)
    ensures
        r == obvious_secret_file(path@),
{
    let p = chars_of(path);
    let raw = name_chars(p.as_slice());
    let name = ascii_lower_chars(raw.as_slice());
    let ext = match file_name_of(p.as_slice()) {
        Some(n) => match extension_of_name(n.as_slice()) {
            Some(e) => ascii_lower_chars(e.as_slice()),
            None => Vec::new(),
        },
        None => Vec::new(),
    };
    let n = name.as_slice();
    let e = ext.as_slice();
    str_is(n, ".env") || has_prefix_str(n, ".env.") || str_is(n, "id_rsa") || str_is(
        n,
        "id_ed25519",
    ) || str_is(n, "credentials.json") || str_is(e, "pem") || str_is(e, "key") || str_is(e, "p12")
        || str_is(e, "pfx")
}

} // verus!

verus! {

// ---------------------------------------------------------------- option checks

/// The checks on a remote and an SSH key that need no file system, in order.
/// A key that passes them must still exist below `GQY_HOME/secrets`.
pub open spec fn remote_check(remote: Seq<char>, ssh_key: Option<Seq<char>>) -> Result<(), BackupError> {
    if trim(remote).len() == 0 {
        Err(BackupError::RemoteEmpty)
    } else if starts_with(trim_start(remote), "-"@) {
        Err(BackupError::RemoteStartsWithDash)
    } else if exists|i: int| 0 <= i < remote.len() && is_control(#[trigger] remote[i]) {
        Err(BackupError::RemoteHasControlCharacters)
    } else if http_credentials_form(remote) {
        Err(BackupError::RemoteHasCredentials)
    } else if ssh_remote_form(remote) && ssh_key.is_none() {
        Err(BackupError::SshRemoteNeedsKey)
    } else if ssh_key is Some && !(ssh_key->0.len() > 0 && ssh_key->0[0] == '/') {
        Err(BackupError::SshKeyNotAbsolute)
    } else {
        Ok(())
    }
}

pub open spec fn opt_view(o: Option<String>) -> Option<Seq<char>> {
    match o {
        Some(s) => Some(s@),
        None => None,
    }
}

/// The checks on init options that need no file system, in order.
pub open spec fn init_options_check(o: BackupInitOptions) -> Result<(), BackupError> {
    if trim(o.branch@).len() == 0 {
        Err(BackupError::EmptyField(OptionField::Branch))
    } else if trim(o.git_name@).len() == 0 {
        Err(BackupError::EmptyField(OptionField::GitName))
    } else if trim(o.git_email@).len() == 0 {
        Err(BackupError::EmptyField(OptionField::GitEmail))
    } else if exists|i: int| 0 <= i < o.branch@.len() && is_ws(#[trigger] o.branch@[i]) {
        Err(BackupError::BranchHasWhitespace)
    } else if starts_with(o.branch@, "-"@) {
        Err(BackupError::BranchStartsWithDash)
    } else {
        match o.remote {
            Some(remote) => remote_check(remote@, opt_view(o.ssh_key)),
            None => if o.ssh_key is Some {
                Err(BackupError::SshKeyWithoutRemote)
            } else {
                Ok(())
            },
        }
    }
}

fn any_control(s: &[char]) -> (r: bool)
    ensures
        r == exists|i: int| 0 <= i < s@.len() && is_control(#[trigger] s@[i]),
{
    let mut i: usize = 0;
    while i < s.len()
        invariant
            i <= s.len(),
            forall|k: int| 0 <= k < i ==> !is_control(#[trigger] s@[k]),
        decreases s.len() - i,
    {
        if char_is_control(s[i]) {
            return true;
        }
        i += 1;
    }
    false
}

fn any_ws(s: &[char]) -> (r: bool)
    ensures
        r == exists|i: int| 0 <= i < s@.len() && is_ws(#[trigger] s@[i]),
{
    let mut i: usize = 0;
    while i < s.len()
        invariant
            i <= s.len(),
            forall|k: int| 0 <= k < i ==> !is_ws(#[trigger] s@[k]),
        decreases s.len() - i,
    {
        if char_is_ws(s[i]) {
            return true;
        }
        i += 1;
    }
    false
}

/// Checks a remote and an SSH key as far as no file system is needed.
pub fn validate_remote(remote: &str, ssh_key: Option<&str>) -> (r: Result<(), BackupError>)
    ensures
        r == remote_check(remote@, match ssh_key { Some(k) => Some(k@), None => None }),
{
    let s = chars_of(remote);
    if is_blank(s.as_slice()) {
        return Err(BackupError::RemoteEmpty);
    }
    let ts = trim_start_chars(s.as_slice());
    if has_prefix_str(ts.as_slice(), "-") {
        return Err(BackupError::RemoteStartsWithDash);
    }
    if any_control(s.as_slice()) {
        return Err(BackupError::RemoteHasControlCharacters);
    }
    if http_remote_contains_credentials(remote) {
        return Err(BackupError::RemoteHasCredentials);
    }
    if is_ssh_remote(remote) && ssh_key.is_none() {
        return Err(BackupError::SshRemoteNeedsKey);
    }
    match ssh_key {
        Some(k) => {
            let kc = chars_of(k);
            if !(kc.len() > 0 && kc[0] == '/') {
                return Err(BackupError::SshKeyNotAbsolute);
            }
        },
        None => {},
    }
    Ok(())
}

/// Where an SSH key must be: what the file system says of `GQY_HOME/secrets`
/// and of the key, each in canonical form when it exists, and whether the key
/// is a file; the key must lie below the secrets directory and be a file.
pub open spec fn key_location_check(secrets: Option<Seq<char>>, key: Option<Seq<char>>, key_is_file: bool) -> Result<(), BackupError> {
    match secrets {
        None => Err(BackupError::SecretsMissing),
        Some(s) => match key {
            None => Err(BackupError::SshKeyMissing),
            Some(k) => if !within(k, s) {
                Err(BackupError::SshKeyOutsideSecrets)
            } else if !key_is_file {
                Err(BackupError::SshKeyMissing)
            } else {
                Ok(())
            },
        },
    }
}

pub open spec fn str_opt(o: Option<&str>) -> Option<Seq<char>> {
    match o {
        Some(s) => Some(s@),
        None => None,
    }
}

/// Checks where an SSH key lies, given the canonical forms found for the
/// secrets directory and the key.
pub fn check_key_location(secrets: Option<&str>, key: Option<&str>, key_is_file: bool) -> (r: Result<(), BackupError>)
    ensures
        r == key_location_check(str_opt(secrets), str_opt(key), key_is_file),
{
    match secrets {
        None => Err(BackupError::SecretsMissing),
        Some(s) => match key {
            None => Err(BackupError::SshKeyMissing),
            Some(k) => if !path_within(k, s) {
                Err(BackupError::SshKeyOutsideSecrets)
            } else if !key_is_file {
                Err(BackupError::SshKeyMissing)
            } else {
                Ok(())
            },
        },
    }
}

/// All the checks on a remote and an SSH key: those `validate_remote` makes,
/// then, when a key is given, where it lies.
pub open spec fn remote_and_key_check(
    remote: Seq<char>,
    ssh_key: Option<Seq<char>>,
    secrets: Option<Seq<char>>,
    real_key: Option<Seq<char>>,
    key_is_file: bool,
) -> Result<(), BackupError> {
    match remote_check(remote, ssh_key) {
        Err(e) => Err(e),
        Ok(_) => if ssh_key is Some {
            key_location_check(secrets, real_key, key_is_file)
        } else {
            Ok(())
        },
    }
}

/// `validate_remote` with the file system's answers for the SSH key: the
/// canonical `GQY_HOME/secrets`, the canonical key, and whether it is a file.
pub fn validate_remote_located(
    remote: &str,
    ssh_key: Option<&str>,
    secrets: Option<&str>,
    real_key: Option<&str>,
    key_is_file: bool,
) -> (r: Result<(), BackupError>)
    ensures
        r == remote_and_key_check(remote@, str_opt(ssh_key), str_opt(secrets), str_opt(real_key), key_is_file),
{
    match validate_remote(remote, ssh_key) {
        Err(e) => Err(e),
        Ok(()) => if ssh_key.is_some() {
            check_key_location(secrets, real_key, key_is_file)
        } else {
            Ok(())
        },
    }
}

/// The settings after `gqy backup remote`: the remote is trimmed, and it and
/// the SSH key are checked as `validate_remote_located` does; on success the
/// remote and key are replaced and the automatic-push flag is set when one is
/// given, every other field kept. (An `owner/repo` shorthand is turned into a
/// URL by the caller first.)
pub fn set_remote(
    settings: BackupSettings,
    remote: String,
    ssh_key: Option<String>,
    auto_push: Option<bool>,
    secrets: Option<&str>,
    real_key: Option<&str>,
    key_is_file: bool,
) -> (r: Result<BackupSettings, BackupError>)
    ensures
        match remote_and_key_check(trim(remote@), opt_view(ssh_key), str_opt(secrets), str_opt(real_key), key_is_file) {
            Err(e) => r == Err::<BackupSettings, BackupError>(e),
            Ok(_) => r matches Ok(n) && n.remote@ == trim(remote@) && opt_view(n.ssh_key) == opt_view(
                ssh_key,
            ) && n.auto_push == (match auto_push {
                Some(a) => a,
                None => settings.auto_push,
            }) && n.version == settings.version && n.branch == settings.branch && n.git_name
                == settings.git_name && n.git_email == settings.git_email,
        },
{
    let key_view: Option<&str> = match &ssh_key {
        Some(k) => Some(k.as_str()),
        None => None,
    };
    let trimmed = string_of(trim_chars(chars_of(remote.as_str()).as_slice()).as_slice());
    match validate_remote_located(trimmed.as_str(), key_view, secrets, real_key, key_is_file) {
        Err(e) => Err(e),
        Ok(()) => {
            let mut n = settings;
            match auto_push {
                Some(a) => { n.auto_push = a; },
                None => {},
            }
            n.remote = trimmed;
            n.ssh_key = ssh_key;
            Ok(n)
        },
    }
}

/// Checks init options as far as no file system is needed.
pub fn validate_init_options(options: &BackupInitOptions) -> (r: Result<(), BackupError>)
    ensures
        r == init_options_check(*options),
{
    let branch = chars_of(options.branch.as_str());
    if is_blank(branch.as_slice()) {
        return Err(BackupError::EmptyField(OptionField::Branch));
    }
    let name = chars_of(options.git_name.as_str());
    if is_blank(name.as_slice()) {
        return Err(BackupError::EmptyField(OptionField::GitName));
    }
    let email = chars_of(options.git_email.as_str());
    if is_blank(email.as_slice()) {
        return Err(BackupError::EmptyField(OptionField::GitEmail));
    }
    if any_ws(branch.as_slice()) {
        return Err(BackupError::BranchHasWhitespace);
    }
    if has_prefix_str(branch.as_slice(), "-") {
        return Err(BackupError::BranchStartsWithDash);
    }
    match &options.remote {
        Some(remote) => {
            let key = match &options.ssh_key {
                Some(k) => Some(k.as_str()),
                None => None,
            };
            validate_remote(remote.as_str(), key)
        },
        None => {
            if options.ssh_key.is_some() {
                Err(BackupError::SshKeyWithoutRemote)
            } else {
                Ok(())
            }
        },
    }
}

/// `validate_init_options` with the file system's answers for the SSH key.
pub fn validate_init_located(
    options: &BackupInitOptions,
    secrets: Option<&str>,
    real_key: Option<&str>,
    key_is_file: bool,
) -> (r: Result<(), BackupError>)
    ensures
        r == match init_options_check(*options) {
            Err(e) => Err(e),
            Ok(_) => if options.ssh_key is Some {
                key_location_check(str_opt(secrets), str_opt(real_key), key_is_file)
            } else {
                Ok(())
            },
        },
{
    match validate_init_options(options) {
        Err(e) => Err(e),
        Ok(()) => if options.ssh_key.is_some() {
            check_key_location(secrets, real_key, key_is_file)
        } else {
            Ok(())
        },
    }
}

// ---------------------------------------------------------------- text

/// Single quotes for a shell: each `'` becomes `'\''`.
pub open spec fn escape_single_quotes(s: Seq<char>) -> Seq<char>
    decreases s.len(),
{
    if s.len() == 0 {
        seq![]
    } else if s.last() == '\'' {
        escape_single_quotes(s.drop_last()) + seq!['\'', '\\', '\'', '\'']
    } else {
        escape_single_quotes(s.drop_last()).push(s.last())
    }
}

pub open spec fn shell_quoted(s: Seq<char>) -> Seq<char> {
    seq!['\''] + escape_single_quotes(s) + seq!['\'']
}

/// A path quoted for a shell command line.
pub fn shell_quote(path: &str) -> (r: String)
    ensures
        r@ == shell_quoted(path@),
{
    let s = chars_of(path);
    let mut out: Vec<char> = Vec::new();
    out.push('\'');
    let mut i: usize = 0;
    while i < s.len()
        invariant
            i <= s.len(),
            out@ == seq!['\''] + escape_single_quotes(s@.take(i as int)),
        decreases s.len() - i,
    {
        proof {
            assert(s@.take(i + 1).drop_last() == s@.take(i as int));
            assert(s@.take(i + 1).last() == s@[i as int]);
        }
        if s[i] == '\'' {
            out.push('\'');
            out.push('\\');
            out.push('\'');
            out.push('\'');
        } else {
            out.push(s[i]);
        }
        i += 1;
    }
    out.push('\'');
    assert(s@.take(s.len() as int) == s@);
    string_of(out.as_slice())
}

pub open spec fn bool_text(b: bool) -> Seq<char> {
    if b { "true"@ } else { "false"@ }
}

pub open spec fn local_mode_text() -> Seq<char> {
    "(none — local mode; run `gqy backup remote <url>` to attach one)"@
}

/// The text `gqy backup status` prints.
pub open spec fn status_text(home: Seq<char>, repo: Seq<char>, s: BackupSettings, git_status: Seq<char>) -> Seq<char> {
    let remote = if s.remote@.len() == 0 { local_mode_text() } else { s.remote@ };
    let auto_push = if s.remote@.len() == 0 {
        bool_text(s.auto_push) + " (commits only, no remote)"@
    } else {
        bool_text(s.auto_push)
    };
    "home: "@ + home + "\nrepository: "@ + repo + "\nremote: "@ + remote + "\nbranch: "@
        + s.branch@ + "\nauto push: "@ + auto_push + "\n"@ + trim_end(git_status)
}

/// The remote shown when none is attached.
pub fn t_local_mode() -> (r: String)
    ensures
        r@ == local_mode_text(),
{
    "(none — local mode; run `gqy backup remote <url>` to attach one)".to_string()
}

/// The report of `gqy backup status` for the given home, repository, settings and
/// `git status --short --branch` output.
pub fn status(home: &str, repo: &str, settings: &BackupSettings, git_status: &str) -> (r: String)
    ensures
        r@ == status_text(home@, repo@, *settings, git_status@),
{
    let remote_empty = settings.remote.as_str().is_empty();
    let mut out: Vec<char> = Vec::new();
    extend_str(&mut out, "home: ");
    extend_str(&mut out, home);
    extend_str(&mut out, "\nrepository: ");
    extend_str(&mut out, repo);
    extend_str(&mut out, "\nremote: ");
    if remote_empty {
        let l = t_local_mode();
        extend_str(&mut out, l.as_str());
    } else {
        extend_str(&mut out, settings.remote.as_str());
    }
    extend_str(&mut out, "\nbranch: ");
    extend_str(&mut out, settings.branch.as_str());
    extend_str(&mut out, "\nauto push: ");
    if settings.auto_push {
        extend_str(&mut out, "true");
    } else {
        extend_str(&mut out, "false");
    }
    if remote_empty {
        extend_str(&mut out, " (commits only, no remote)");
    }
    extend_str(&mut out, "\n");
    let g = chars_of(git_status);
    let gt = trim_end_chars(g.as_slice());
    extend_chars(&mut out, gt.as_slice());
    proof {
        let s = *settings;
        let remote = if s.remote@.len() == 0 { local_mode_text() } else { s.remote@ };
        let auto_push = if s.remote@.len() == 0 {
            bool_text(s.auto_push) + " (commits only, no remote)"@
        } else {
            bool_text(s.auto_push)
        };
        assert(out@ =~= "home: "@ + home@ + "\nrepository: "@ + repo@ + "\nremote: "@ + remote
            + "\nbranch: "@ + s.branch@ + "\nauto push: "@ + auto_push + "\n"@ + trim_end(git_status@));
    }
    string_of(out.as_slice())
}

// ---------------------------------------------------------------- automatic backups

/// The time of the last commit, from `git log -1 --format=%ct` output: the trimmed
/// text read as a positive `i64`.
pub open spec fn commit_time(out: Seq<char>) -> Option<int> {
    match parse_unsigned(trim(out), i64::MAX as nat) {
        Some(v) => if v > 0 { Some(v as int) } else { None },
        None => None,
    }
}

pub fn last_commit_timestamp(log_output: &str) -> (r: Option<i64>)
    ensures
        match r {
            Some(v) => commit_time(log_output@) == Some(v as int),
            None => commit_time(log_output@).is_none(),
        },
{
    let t = crate::text::trim_str(log_output);
    match parse_unsigned_chars(t.as_slice(), i64::MAX as u64) {
        Some(v) => if v > 0 { Some(v as i64) } else { None },
        None => None,
    }
}

/// Whether an automatic backup runs now (the caller then starts a pushing
/// backup run): an isolated home with backup settings
/// that ask for automatic pushes, and no commit within the last `min_interval`
/// seconds.
pub fn maybe_auto_backup(
    has_home: bool,
    settings: Option<&BackupSettings>,
    last_commit: Option<i64>,
    now: i64,
    min_interval: i64,
) -> (r: bool)
    requires
        last_commit matches Some(l) ==> l > 0 && now - l >= i64::MIN,
    ensures
        r == (has_home && (match settings {
            Some(s) => s.auto_push,
            None => false,
        }) && !(match last_commit {
            Some(l) => now - l < min_interval,
            None => false,
        })),
{
    if !has_home {
        return false;
    }
    let s = match settings {
        Some(s) => s,
        None => { return false; },
    };
    if !s.auto_push {
        return false;
    }
    match last_commit {
        Some(l) => now - l >= min_interval,
        None => true,
    }
}

} // verus!

verus! {

// ---------------------------------------------------------------- one backup run

/// The Git commands a backup run issues.
#[derive(Debug, Clone, Copy, PartialEq, Eq, Structural)]
pub enum GitStep {
    /// `git add --all`
    AddAll,
    /// `git status --porcelain`
    Status,
    /// `git commit -m "GQY snapshot <time>"`
    Commit,
    /// `git rev-parse --short HEAD`
    RevParseHead,
    /// `git push --set-upstream origin <branch>`
    Push,
}

/// Where a backup run stands.
#[derive(Debug)]
pub enum BackupPhase {
    Idle,
    Snapshotting,
    Staging,
    Inspecting,
    Committing,
    ReadingHead { dirty: bool },
    Pushing { dirty: bool, commit: Option<String> },
    Done,
}

/// A backup run: its phase, whether pushing was asked for, and whether the
/// settings name no remote.
#[derive(Debug)]
pub struct BackupRun {
    pub phase: BackupPhase,
    pub push: bool,
    pub remote_empty: bool,
}

/// What the caller does next.
#[derive(Debug)]
pub enum BackupAction {
    /// Copy the live directories into the repository.
    Snapshot,
    /// Run a Git command and report its output.
    Git(GitStep),
    /// The run is over with this outcome.
    Finish(BackupOutcome),
    /// The step just reported failed; the run stops with its error.
    Abort,
}

/// What happened to the last action.
#[derive(Debug)]
pub enum BackupEvent {
    Start,
    /// The step succeeded; its standard output.
    Succeeded(String),
    Failed,
}

/// A run only ever pushes what it may: while pushing, pushing was asked for,
/// a commit exists and a remote is set.
pub open spec fn push_allowed(run: BackupRun) -> bool {
    run.phase matches BackupPhase::Pushing { commit, .. } ==> (run.push && commit is Some && !run.remote_empty)
}

impl BackupRun {
    pub fn new(push: bool, remote_empty: bool) -> (r: BackupRun)
        ensures
            push_allowed(r),
            r.phase is Idle,
            r.push == push,
            r.remote_empty == remote_empty,
    {
        BackupRun { phase: BackupPhase::Idle, push, remote_empty }
    }
}

/// The commit a `rev-parse` step yields: its trimmed output, when not empty; a
/// failed `rev-parse` yields none.
pub open spec fn head_commit(ev: BackupEvent) -> Option<Seq<char>> {
    match ev {
        BackupEvent::Succeeded(out) => if trim(out@).len() > 0 { Some(trim(out@)) } else { None },
        _ => None,
    }
}

pub open spec fn commit_view(c: Option<String>) -> Option<Seq<char>> {
    match c {
        Some(s) => Some(s@),
        None => None,
    }
}

/// One decision of a backup run: snapshot, stage everything, commit when the
/// work tree changed, read the head commit, and push when asked to, a commit
/// exists and a remote is set. Any failed step ends the run.
pub fn backup_now(run: BackupRun, event: BackupEvent) -> (r: (BackupRun, BackupAction))
    ensures
        r.0.push == run.push,
        r.0.remote_empty == run.remote_empty,
        push_allowed(run) ==> push_allowed(r.0),
        push_allowed(run) && (r.1 matches BackupAction::Finish(o) && o.pushed) ==> (run.push && !run.remote_empty
            && (r.1 matches BackupAction::Finish(o) && o.commit is Some)),
        (run.phase is Idle && event is Start) ==> (r.0.phase is Snapshotting && r.1 is Snapshot),
        (run.phase is Snapshotting && event is Succeeded) ==> (r.0.phase is Staging && r.1
            == BackupAction::Git(GitStep::AddAll)),
        (run.phase is Staging && event is Succeeded) ==> (r.0.phase is Inspecting && r.1
            == BackupAction::Git(GitStep::Status)),
        (run.phase is Inspecting && event is Succeeded) ==> ({
            let dirty = trim(event->Succeeded_0@).len() > 0;
            if dirty {
                r.0.phase is Committing && r.1 == BackupAction::Git(GitStep::Commit)
            } else {
                r.0.phase == (BackupPhase::ReadingHead { dirty: false }) && r.1
                    == BackupAction::Git(GitStep::RevParseHead)
            }
        }),
        (run.phase is Committing && event is Succeeded) ==> (r.0.phase == (BackupPhase::ReadingHead {
            dirty: true,
        }) && r.1 == BackupAction::Git(GitStep::RevParseHead)),
        (run.phase is ReadingHead && !(event is Start)) ==> ({
            let dirty = run.phase->ReadingHead_dirty;
            let commit = head_commit(event);
            let pushed = run.push && commit is Some && !run.remote_empty;
            if pushed {
                r.0.phase matches BackupPhase::Pushing { dirty: d, commit: c } && d == dirty
                    && commit_view(c) == commit && r.1 == BackupAction::Git(GitStep::Push)
            } else {
                r.0.phase is Done && (r.1 matches BackupAction::Finish(o) && o.committed == dirty
                    && !o.pushed && commit_view(o.commit) == commit)
            }
        }),
        (run.phase is Pushing && event is Succeeded) ==> (r.0.phase is Done && (r.1 matches BackupAction::Finish(o)
            && o.committed == run.phase->Pushing_dirty && o.pushed && o.commit == run.phase->Pushing_commit)),
        (!(run.phase is ReadingHead) && event is Failed) ==> (r.0.phase is Done && r.1 is Abort),
        (run.phase is Done || (run.phase is Idle && !(event is Start)) || (!(run.phase is Idle)
            && event is Start && !(run.phase is ReadingHead))) ==> (r.0.phase is Done && r.1 is Abort),
{
    let push = run.push;
    let remote_empty = run.remote_empty;
    let done = BackupRun { phase: BackupPhase::Done, push, remote_empty };
    match (run.phase, event) {
        (BackupPhase::Idle, BackupEvent::Start) => (
            BackupRun { phase: BackupPhase::Snapshotting, push, remote_empty },
            BackupAction::Snapshot,
        ),
        (BackupPhase::Snapshotting, BackupEvent::Succeeded(_)) => (
            BackupRun { phase: BackupPhase::Staging, push, remote_empty },
            BackupAction::Git(GitStep::AddAll),
        ),
        (BackupPhase::Staging, BackupEvent::Succeeded(_)) => (
            BackupRun { phase: BackupPhase::Inspecting, push, remote_empty },
            BackupAction::Git(GitStep::Status),
        ),
        (BackupPhase::Inspecting, BackupEvent::Succeeded(out)) => {
            if is_blank(chars_of(out.as_str()).as_slice()) {
                (
                    BackupRun { phase: BackupPhase::ReadingHead { dirty: false }, push, remote_empty },
                    BackupAction::Git(GitStep::RevParseHead),
                )
            } else {
                (
                    BackupRun { phase: BackupPhase::Committing, push, remote_empty },
                    BackupAction::Git(GitStep::Commit),
                )
            }
        },
        (BackupPhase::Committing, BackupEvent::Succeeded(_)) => (
            BackupRun { phase: BackupPhase::ReadingHead { dirty: true }, push, remote_empty },
            BackupAction::Git(GitStep::RevParseHead),
        ),
        (BackupPhase::ReadingHead { dirty }, BackupEvent::Succeeded(out)) => {
            let t = trim_chars(chars_of(out.as_str()).as_slice());
            let commit = if t.len() > 0 { Some(string_of(t.as_slice())) } else { None };
            if push && commit.is_some() && !remote_empty {
                (
                    BackupRun { phase: BackupPhase::Pushing { dirty, commit }, push, remote_empty },
                    BackupAction::Git(GitStep::Push),
                )
            } else {
                (done, BackupAction::Finish(BackupOutcome { committed: dirty, pushed: false, commit }))
            }
        },
        (BackupPhase::ReadingHead { dirty }, BackupEvent::Failed) => {
            (done, BackupAction::Finish(BackupOutcome { committed: dirty, pushed: false, commit: None }))
        },
        (BackupPhase::Pushing { dirty, commit }, BackupEvent::Succeeded(_)) => {
            (done, BackupAction::Finish(BackupOutcome { committed: dirty, pushed: true, commit }))
        },
        _ => (done, BackupAction::Abort),
    }
}

} // verus!
