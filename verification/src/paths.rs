//! The directory layout of a GQY home and the lexical path rules used on it.
//!
//! Paths are carried as strings; joining and component handling follow the
//! rules of Unix paths.
use vstd::prelude::*;
use crate::text::{chars_of, extend_chars, seq_eq, slice_chars, split_char, split_on_char, string_of};

verus! {

/// `Path::join` on Unix: an absolute right-hand side replaces the base; otherwise
/// a separator is inserted unless the base is empty or already ends with one.
pub open spec fn join_spec(base: Seq<char>, p: Seq<char>) -> Seq<char> {
    if p.len() > 0 && p[0] == '/' {
        p
    } else if base.len() > 0 && base.last() != '/' {
        base + seq!['/'] + p
    } else {
        base + p
    }
}

/// `p` lies inside `home` textually: `home` followed by a separator (or `home`
/// already ending with one) and then a relative remainder.
pub open spec fn lies_under(p: Seq<char>, home: Seq<char>) -> bool {
    exists|rest: Seq<char>|
        (#[trigger] join_spec(home, rest)) == p && rest.len() > 0 && rest[0] != '/'
}

pub fn join_path(base: &str, p: &str) -> (r: String)
    ensures
        r@ == join_spec(base@, p@),
{
    let b = chars_of(base);
    let pv = chars_of(p);
    let mut out: Vec<char> = Vec::new();
    if pv.len() > 0 && pv[0] == '/' {
        extend_chars(&mut out, pv.as_slice());
        assert(out@ =~= p@);
    } else {
        extend_chars(&mut out, b.as_slice());
        if b.len() > 0 && b[b.len() - 1] != '/' {
            out.push('/');
        }
        extend_chars(&mut out, pv.as_slice());
    }
    string_of(out.as_slice())
}

/// Where GQY keeps configuration, data, caches, state and resources.
#[derive(Debug, Clone)]
pub struct GqyPaths {
    pub config_dir: String,
    pub config_file: String,
    pub skills_dir: String,
    pub data_dir: String,
    pub cache_dir: String,
    pub state_dir: String,
    pub pictures_dir: String,
    pub fish_hook_file: String,
    pub bash_hook_file: String,
    pub zsh_hook_file: String,
    pub scripts_dir: String,
    pub system_scripts_dir: String,
    /// Read-only shared resources (bundled scripts, memes, knowledge base sources).
    pub share_dir: String,
    /// The bundled knowledge base source directory.
    pub kb_dir: String,
}

/// Why a `GQY_HOME` value was refused.
#[derive(Debug, Clone, Copy, PartialEq, Eq)]
pub enum HomeError {
    Empty,
    NotAbsolute,
}

impl GqyPaths {
    /// The layout below one isolated home directory; `share_dir` and
    /// `system_scripts_dir` are the resolved resource locations.
    pub fn from_isolated_home(home: &str, share_dir: &str, system_scripts_dir: &str) -> (p: GqyPaths)
        ensures
            p.config_dir@ == join_spec(home@, "config"@),
            p.data_dir@ == join_spec(home@, "data"@),
            p.cache_dir@ == join_spec(home@, "cache"@),
            p.state_dir@ == join_spec(home@, "state"@),
            p.pictures_dir@ == join_spec(home@, "pictures"@),
            p.config_file@ == join_spec(p.config_dir@, "config.jsonc"@),
            p.skills_dir@ == join_spec(p.config_dir@, "skills"@),
            p.fish_hook_file@ == join_spec(p.config_dir@, "shell/gqy.fish"@),
            p.bash_hook_file@ == join_spec(p.config_dir@, "shell/bash-hook.sh"@),
            p.zsh_hook_file@ == join_spec(p.config_dir@, "shell/zsh-hook.zsh"@),
            p.scripts_dir@ == join_spec(p.config_dir@, "scripts"@),
            p.system_scripts_dir@ == system_scripts_dir@,
            p.share_dir@ == share_dir@,
            p.kb_dir@ == join_spec(share_dir@, "kb"@),
    {
        let config_dir = join_path(home, "config");
        let data_dir = join_path(home, "data");
        let cache_dir = join_path(home, "cache");
        let state_dir = join_path(home, "state");
        let pictures_dir = join_path(home, "pictures");
        GqyPaths {
            config_file: join_path(config_dir.as_str(), "config.jsonc"),
            skills_dir: join_path(config_dir.as_str(), "skills"),
            fish_hook_file: join_path(config_dir.as_str(), "shell/gqy.fish"),
            bash_hook_file: join_path(config_dir.as_str(), "shell/bash-hook.sh"),
            zsh_hook_file: join_path(config_dir.as_str(), "shell/zsh-hook.zsh"),
            scripts_dir: join_path(config_dir.as_str(), "scripts"),
            system_scripts_dir: system_scripts_dir.to_string(),
            share_dir: share_dir.to_string(),
            kb_dir: join_path(share_dir, "kb"),
            pictures_dir,
            config_dir,
            data_dir,
            cache_dir,
            state_dir,
        }
    }

    /// The isolated home named by the `GQY_HOME` value, if one is set: it must be
    /// non-empty and absolute.
    pub fn isolated_home(env_value: Option<&str>) -> (r: Result<Option<String>, HomeError>)
        ensures
            match env_value {
                None => r == Ok::<Option<String>, HomeError>(None),
                Some(v) => if v@.len() == 0 {
                    r == Err::<Option<String>, HomeError>(HomeError::Empty)
                } else if v@[0] != '/' {
                    r == Err::<Option<String>, HomeError>(HomeError::NotAbsolute)
                } else {
                    r matches Ok(Some(h)) && h@ == v@
                },
            },
    {
        match env_value {
            None => Ok(None),
            Some(v) => {
                let c = chars_of(v);
                if c.len() == 0 {
                    Err(HomeError::Empty)
                } else if c[0] != '/' {
                    Err(HomeError::NotAbsolute)
                } else {
                    Ok(Some(v.to_string()))
                }
            },
        }
    }

    /// `<cache>/logs`.
    pub fn logs_dir(&self) -> (r: String)
        ensures
            r@ == join_spec(self.cache_dir@, "logs"@),
    {
        join_path(self.cache_dir.as_str(), "logs")
    }
}

/// The isolated layout keeps every personal directory below the home it was
/// built from.
pub proof fn lemma_isolated_layout_stays_under_home(
    home: Seq<char>,
    p: GqyPaths,
)
    requires
        home.len() > 0,
        p.config_dir@ == join_spec(home, "config"@),
        p.data_dir@ == join_spec(home, "data"@),
        p.cache_dir@ == join_spec(home, "cache"@),
        p.state_dir@ == join_spec(home, "state"@),
        p.pictures_dir@ == join_spec(home, "pictures"@),
        p.zsh_hook_file@ == join_spec(p.config_dir@, "shell/zsh-hook.zsh"@),
    ensures
        lies_under(p.config_dir@, home),
        lies_under(p.data_dir@, home),
        lies_under(p.cache_dir@, home),
        lies_under(p.state_dir@, home),
        lies_under(p.pictures_dir@, home),
        lies_under(p.zsh_hook_file@, home),
{
    reveal_strlit("config");
    reveal_strlit("data");
    reveal_strlit("cache");
    reveal_strlit("state");
    reveal_strlit("pictures");
    reveal_strlit("shell/zsh-hook.zsh");
    assert(join_spec(home, "config"@) == p.config_dir@);
    assert(join_spec(home, "data"@) == p.data_dir@);
    assert(join_spec(home, "cache"@) == p.cache_dir@);
    assert(join_spec(home, "state"@) == p.state_dir@);
    assert(join_spec(home, "pictures"@) == p.pictures_dir@);
    let rest = "config"@ + seq!['/'] + "shell/zsh-hook.zsh"@;
    assert(rest[0] == 'c');
    if home.last() != '/' {
        assert(p.config_dir@ == home + seq!['/'] + "config"@);
        assert(p.config_dir@.last() == 'g');
        assert(join_spec(home, rest) =~= p.zsh_hook_file@);
    } else {
        assert(p.config_dir@ == home + "config"@);
        assert(p.config_dir@.last() == 'g');
        assert(join_spec(home, rest) =~= p.zsh_hook_file@);
    }
}

/// Which directory holds the system scripts: `scripts/` below the share base when
/// present, else the source-tree `src/scripts`, else `scripts/` anyway.
pub fn resolve_system_scripts_dir(share_base: &str, scripts_present: bool, src_scripts_present: bool) -> (r: String)
    ensures
        r@ == if !scripts_present && src_scripts_present {
            join_spec(share_base@, "src/scripts"@)
        } else {
            join_spec(share_base@, "scripts"@)
        },
{
    if !scripts_present && src_scripts_present {
        join_path(share_base, "src/scripts")
    } else {
        join_path(share_base, "scripts")
    }
}

/// Whether a directory looks like a share base: one of `scripts`, `src/scripts`,
/// `memes`, `src/memes` or `kb` is a directory below it (given in that order).
pub fn share_base_plausible(present: &[bool]) -> (r: bool)
    ensures
        r == exists|i: int| 0 <= i < present@.len() && present@[i],
{
    let mut i: usize = 0;
    while i < present.len()
        invariant
            i <= present.len(),
            forall|j: int| 0 <= j < i ==> !present@[j],
        decreases present.len() - i,
    {
        if present[i] {
            return true;
        }
        i += 1;
    }
    false
}

/// The share base: the override when given; else the first plausible
/// `share/gqy` among the executable's ancestors (as the caller lists them, at
/// most eight); else the project directory when plausible; else
/// `/usr/share/gqy`.
pub fn resolve_share_base_from(
    env_override: Option<String>,
    ancestors: &[(String, bool)],
    project_dir: &str,
    project_plausible: bool,
) -> (r: String)
    ensures
        match env_override {
            Some(d) => r == d,
            None => if exists|i: int| 0 <= i < ancestors@.len() && i < 8 && ancestors@[i].1 {
                exists|i: int|
                    0 <= i < ancestors@.len() && i < 8 && ancestors@[i].1 && r@ == ancestors@[i].0@
                        && forall|j: int| 0 <= j < i ==> !ancestors@[j].1
            } else if project_plausible {
                r@ == project_dir@
            } else {
                r@ == "/usr/share/gqy"@
            },
        },
{
    match env_override {
        Some(d) => { return d; },
        None => {},
    }
    let mut i: usize = 0;
    while i < ancestors.len() && i < 8
        invariant
            env_override is None,
            i <= ancestors.len(),
            i <= 8,
            forall|j: int| 0 <= j < i ==> !ancestors@[j].1,
        decreases ancestors.len() - i,
    {
        if ancestors[i].1 {
            return ancestors[i].0.clone();
        }
        i += 1;
    }
    if project_plausible {
        project_dir.to_string()
    } else {
        "/usr/share/gqy".to_string()
    }
}

// ---------------------------------------------------------------- components

/// The named components of a Unix path: the pieces between separators with empty
/// pieces and `.` dropped (`..` is kept).
pub open spec fn components(s: Seq<char>) -> Seq<Seq<char>> {
    split_char(s, '/').filter(|w: Seq<char>| w.len() > 0 && w != seq!['.'])
}

pub open spec fn is_parent_comp(w: Seq<char>) -> bool {
    w == seq!['.', '.']
}

/// Folding components the way `normalize_lexical` does: `..` drops the last kept
/// component (or nothing when none is left), every other component is kept.
pub open spec fn fold_components(comps: Seq<Seq<char>>) -> Seq<Seq<char>>
    decreases comps.len(),
{
    if comps.len() == 0 {
        seq![]
    } else {
        let prev = fold_components(comps.drop_last());
        if is_parent_comp(comps.last()) {
            if prev.len() > 0 {
                prev.drop_last()
            } else {
                prev
            }
        } else {
            prev.push(comps.last())
        }
    }
}

/// Components joined with `/`.
pub open spec fn join_comps(comps: Seq<Seq<char>>) -> Seq<char>
    decreases comps.len(),
{
    if comps.len() == 0 {
        seq![]
    } else if comps.len() == 1 {
        comps[0]
    } else {
        join_comps(comps.drop_last()) + seq!['/'] + comps.last()
    }
}

pub open spec fn render_path(rooted: bool, comps: Seq<Seq<char>>) -> Seq<char> {
    if rooted {
        seq!['/'] + join_comps(comps)
    } else {
        join_comps(comps)
    }
}

pub open spec fn is_rooted(s: Seq<char>) -> bool {
    s.len() > 0 && s[0] == '/'
}

/// `normalize_lexical`: `.` dropped, `..` folded against the preceding component,
/// without looking at the file system.
pub open spec fn normalize_spec(s: Seq<char>) -> Seq<char> {
    render_path(is_rooted(s), fold_components(components(s)))
}

pub proof fn lemma_fold_clean(comps: Seq<Seq<char>>)
    requires
        forall|i: int| 0 <= i < comps.len() ==> (#[trigger] comps[i]).len() > 0 && comps[i] != seq!['.'],
    ensures
        forall|i: int| 0 <= i < fold_components(comps).len() ==> {
            let w = #[trigger] fold_components(comps)[i];
            w.len() > 0 && w != seq!['.'] && !is_parent_comp(w)
        },
    decreases comps.len(),
{
    if comps.len() > 0 {
        lemma_fold_clean(comps.drop_last());
        let prev = fold_components(comps.drop_last());
        assert(comps.last() == comps[comps.len() - 1]);
        if !is_parent_comp(comps.last()) {
            assert forall|i: int| 0 <= i < fold_components(comps).len() implies {
                let w = #[trigger] fold_components(comps)[i];
                w.len() > 0 && w != seq!['.'] && !is_parent_comp(w)
            } by {
                if i < prev.len() {
                    assert(fold_components(comps)[i] == prev[i]);
                }
            }
        } else if prev.len() > 0 {
            assert forall|i: int| 0 <= i < fold_components(comps).len() implies {
                let w = #[trigger] fold_components(comps)[i];
                w.len() > 0 && w != seq!['.'] && !is_parent_comp(w)
            } by {
                assert(fold_components(comps)[i] == prev[i]);
            }
        }
    }
}

/// Folding components that hold no `..` leaves them as they are.
pub proof fn lemma_fold_identity(comps: Seq<Seq<char>>)
    requires
        forall|i: int| 0 <= i < comps.len() ==> !is_parent_comp(#[trigger] comps[i]),
    ensures
        fold_components(comps) == comps,
    decreases comps.len(),
{
    if comps.len() > 0 {
        assert(comps.last() == comps[comps.len() - 1]);
        lemma_fold_identity(comps.drop_last());
        assert(comps.drop_last().push(comps.last()) =~= comps);
    }
}

fn is_dot(w: &[char]) -> (r: bool)
    ensures
        r == (w@ == seq!['.']),
{
    if w.len() == 1 && w[0] == '.' {
        assert(w@ =~= seq!['.']);
        true
    } else {
        false
    }
}

fn is_dotdot(w: &[char]) -> (r: bool)
    ensures
        r == is_parent_comp(w@),
{
    if w.len() == 2 && w[0] == '.' && w[1] == '.' {
        assert(w@ =~= seq!['.', '.']);
        true
    } else {
        false
    }
}

/// The named components of a path, as computed by `components`.
pub fn path_components(s: &[char]) -> (r: Vec<Vec<char>>)
    ensures
        r@.len() == components(s@).len(),
        forall|i: int| 0 <= i < r@.len() ==> #[trigger] r@[i]@ == components(s@)[i],
{
    let pieces = split_on_char(s, '/');
    let ghost all = split_char(s@, '/');
    let ghost f = |w: Seq<char>| w.len() > 0 && w != seq!['.'];
    let mut out: Vec<Vec<char>> = Vec::new();
    let mut i: usize = 0;
    while i < pieces.len()
        invariant
            i <= pieces.len(),
            pieces@.len() == all.len(),
            forall|k: int| 0 <= k < pieces@.len() ==> #[trigger] pieces@[k]@ == all[k],
            out@.len() == all.take(i as int).filter(f).len(),
            forall|k: int| 0 <= k < out@.len() ==> #[trigger] out@[k]@ == all.take(i as int).filter(f)[k],
            f == (|w: Seq<char>| w.len() > 0 && w != seq!['.']),
        decreases pieces.len() - i,
    {
        let w = &pieces[i];
        proof {
            reveal_with_fuel(Seq::filter, 1);
            assert(all.take(i + 1).drop_last() == all.take(i as int));
            assert(all.take(i + 1).last() == all[i as int]);
        }
        if w.len() > 0 && !is_dot(w.as_slice()) {
            out.push(w.clone());
            proof {
                let prev = all.take(i as int).filter(f);
                assert(all.take(i + 1).filter(f) == prev.push(all[i as int]));
                assert forall|k: int| 0 <= k < out@.len() implies #[trigger] out@[k]@
                    == all.take(i + 1).filter(f)[k] by {
                    if k < prev.len() {
                    }
                }
            }
        }
        i += 1;
    }
    assert(all.take(pieces.len() as int) == all);
    out
}

/// `normalize_lexical`: resolves `.` and `..` components textually.
pub fn normalize_lexical(path: &str) -> (r: String)
    ensures
        r@ == normalize_spec(path@),
{
    let s = chars_of(path);
    let comps = path_components(s.as_slice());
    let ghost cs = components(s@);
    let mut stack: Vec<Vec<char>> = Vec::new();
    let mut i: usize = 0;
    while i < comps.len()
        invariant
            i <= comps.len(),
            comps@.len() == cs.len(),
            forall|k: int| 0 <= k < comps@.len() ==> #[trigger] comps@[k]@ == cs[k],
            stack@.len() == fold_components(cs.take(i as int)).len(),
            forall|k: int| 0 <= k < stack@.len() ==> #[trigger] stack@[k]@ == fold_components(cs.take(i as int))[k],
        decreases comps.len() - i,
    {
        proof {
            assert(cs.take(i + 1).drop_last() == cs.take(i as int));
            assert(cs.take(i + 1).last() == cs[i as int]);
        }
        if is_dotdot(comps[i].as_slice()) {
            if stack.len() > 0 {
                stack.pop();
            }
        } else {
            stack.push(comps[i].clone());
        }
        i += 1;
    }
    assert(cs.take(comps.len() as int) == cs);
    let ghost folded = fold_components(cs);
    let mut out: Vec<char> = Vec::new();
    let rooted = s.len() > 0 && s[0] == '/';
    if rooted {
        out.push('/');
    }
    let ghost start = out@;
    let mut k: usize = 0;
    while k < stack.len()
        invariant
            k <= stack.len(),
            stack@.len() == folded.len(),
            forall|j: int| 0 <= j < stack@.len() ==> #[trigger] stack@[j]@ == folded[j],
            out@ == start + join_comps(folded.take(k as int)),
        decreases stack.len() - k,
    {
        proof {
            assert(folded.take(k + 1).drop_last() == folded.take(k as int));
            assert(folded.take(k + 1).last() == folded[k as int]);
        }
        if k > 0 {
            out.push('/');
        }
        extend_chars(&mut out, stack[k].as_slice());
        proof {
            if k == 0 {
                assert(folded.take(1) =~= seq![folded[0]]);
            }
            assert(out@ =~= start + join_comps(folded.take(k + 1)));
        }
        k += 1;
    }
    assert(folded.take(stack.len() as int) == folded);
    proof {
        if rooted {
            assert(out@ =~= render_path(true, folded));
        } else {
            assert(out@ =~= render_path(false, folded));
        }
    }
    string_of(out.as_slice())
}

/// A normalized path holds no `.`, `..` or empty component.
pub proof fn lemma_normalized_is_clean(s: Seq<char>)
    ensures
        forall|i: int| 0 <= i < fold_components(components(s)).len() ==> {
            let w = #[trigger] fold_components(components(s))[i];
            w.len() > 0 && w != seq!['.'] && !is_parent_comp(w)
        },
{
    let f = |w: Seq<char>| w.len() > 0 && w != seq!['.'];
    let all = split_char(s, '/');
    assert forall|i: int| 0 <= i < components(s).len() implies (#[trigger] components(s)[i]).len() > 0
        && components(s)[i] != seq!['.'] by {
        broadcast use vstd::seq_lib::group_filter_ensures;
    }
    lemma_fold_clean(components(s));
}

} // verus!

verus! {

/// `Path::file_name`: the last component, unless there is none or it is `..`.
pub open spec fn file_name(s: Seq<char>) -> Option<Seq<char>> {
    let comps = components(s);
    if comps.len() == 0 || is_parent_comp(comps.last()) {
        None
    } else {
        Some(comps.last())
    }
}

/// `Path::extension` of a file name: the text after its last `.`, unless there
/// is no `.` or the only one starts the name.
pub open spec fn extension_of(name: Seq<char>) -> Option<Seq<char>> {
    if exists|i: int| 1 <= i < name.len() && name[i] == '.' {
        let i = choose|i: int|
            1 <= i < name.len() && name[i] == '.' && forall|j: int| i < j < name.len() ==> name[j] != '.';
        Some(name.skip(i + 1))
    } else {
        None
    }
}

pub fn file_name_of(path: &[char]) -> (r: Option<Vec<char>>)
    ensures
        match r {
            Some(v) => file_name(path@) == Some(v@),
            None => file_name(path@).is_none(),
        },
{
    let comps = path_components(path);
    if comps.len() == 0 {
        return None;
    }
    let last = &comps[comps.len() - 1];
    assert(comps@[comps@.len() - 1]@ == components(path@).last());
    if is_dotdot(last.as_slice()) {
        return None;
    }
    Some(last.clone())
}

pub fn extension_of_name(name: &[char]) -> (r: Option<Vec<char>>)
    ensures
        match r {
            Some(v) => extension_of(name@) == Some(v@),
            None => extension_of(name@).is_none(),
        },
{
    let mut i: usize = name.len();
    while i > 1
        invariant
            i <= name.len(),
            forall|j: int| i <= j < name.len() ==> name@[j] != '.',
        decreases i,
    {
        if name[i - 1] == '.' {
            let k = i - 1;
            assert(1 <= k < name.len() && name@[k as int] == '.');
            proof {
                let c = choose|c: int|
                    1 <= c < name@.len() && name@[c] == '.' && forall|j: int| c < j < name@.len() ==> name@[j] != '.';
                assert(!(c < k));
                assert(!(k < c));
            }
            return Some(slice_chars(name, k + 1, name.len()));
        }
        i -= 1;
    }
    assert(!exists|j: int| 1 <= j < name@.len() && name@[j] == '.');
    None
}

/// `Path::starts_with`: the components of `base` begin the components of `p`, and
/// both are rooted or both are not.
pub open spec fn path_starts_with(p: Seq<char>, base: Seq<char>) -> bool {
    is_rooted(p) == is_rooted(base) && components(base).len() <= components(p).len()
        && components(p).take(components(base).len() as int) == components(base)
}

pub fn path_has_prefix(p: &str, base: &str) -> (r: bool)
    ensures
        r == path_starts_with(p@, base@),
{
    let pc = chars_of(p);
    let bc = chars_of(base);
    let rp = pc.len() > 0 && pc[0] == '/';
    let rb = bc.len() > 0 && bc[0] == '/';
    if rp != rb {
        return false;
    }
    let a = path_components(pc.as_slice());
    let b = path_components(bc.as_slice());
    if b.len() > a.len() {
        return false;
    }
    let mut i: usize = 0;
    while i < b.len()
        invariant
            i <= b.len() <= a.len(),
            a@.len() == components(p@).len(),
            b@.len() == components(base@).len(),
            forall|k: int| 0 <= k < a@.len() ==> #[trigger] a@[k]@ == components(p@)[k],
            forall|k: int| 0 <= k < b@.len() ==> #[trigger] b@[k]@ == components(base@)[k],
            forall|k: int| 0 <= k < i ==> components(p@)[k] == components(base@)[k],
        decreases b.len() - i,
    {
        if !seq_eq(a[i].as_slice(), b[i].as_slice()) {
            assert(components(p@).take(b@.len() as int)[i as int] != components(base@)[i as int]);
            return false;
        }
        i += 1;
    }
    assert(components(p@).take(b@.len() as int) =~= components(base@));
    true
}

} // verus!

verus! {

impl GqyPaths {
    /// The layout under the platform's base directories: a `gqy` directory in
    /// each of the configuration, data, cache and state bases (state falls back
    /// to the data base) and in the pictures directory; the fish hook in fish's
    /// own configuration directory.
    pub fn from_base_dirs(
        config_base: &str,
        data_base: &str,
        cache_base: &str,
        state_base: Option<&str>,
        pictures_base: &str,
        share_dir: &str,
        system_scripts_dir: &str,
    ) -> (p: GqyPaths)
        ensures
            p.config_dir@ == join_spec(config_base@, "gqy"@),
            p.data_dir@ == join_spec(data_base@, "gqy"@),
            p.cache_dir@ == join_spec(cache_base@, "gqy"@),
            p.state_dir@ == join_spec(
                match state_base {
                    Some(s) => s@,
                    None => data_base@,
                },
                "gqy"@,
            ),
            p.pictures_dir@ == join_spec(pictures_base@, "gqy"@),
            p.config_file@ == join_spec(p.config_dir@, "config.jsonc"@),
            p.skills_dir@ == join_spec(p.config_dir@, "skills"@),
            p.fish_hook_file@ == join_spec(config_base@, "fish/conf.d/gqy.fish"@),
            p.bash_hook_file@ == join_spec(p.config_dir@, "shell/bash-hook.sh"@),
            p.zsh_hook_file@ == join_spec(p.config_dir@, "shell/zsh-hook.zsh"@),
            p.scripts_dir@ == join_spec(p.config_dir@, "scripts"@),
            p.system_scripts_dir@ == system_scripts_dir@,
            p.share_dir@ == share_dir@,
            p.kb_dir@ == join_spec(share_dir@, "kb"@),
    {
        let config_dir = join_path(config_base, "gqy");
        let data_dir = join_path(data_base, "gqy");
        let cache_dir = join_path(cache_base, "gqy");
        let state_dir = match state_base {
            Some(s) => join_path(s, "gqy"),
            None => join_path(data_base, "gqy"),
        };
        let pictures_dir = join_path(pictures_base, "gqy");
        GqyPaths {
            config_file: join_path(config_dir.as_str(), "config.jsonc"),
            skills_dir: join_path(config_dir.as_str(), "skills"),
            fish_hook_file: join_path(config_base, "fish/conf.d/gqy.fish"),
            bash_hook_file: join_path(config_dir.as_str(), "shell/bash-hook.sh"),
            zsh_hook_file: join_path(config_dir.as_str(), "shell/zsh-hook.zsh"),
            scripts_dir: join_path(config_dir.as_str(), "scripts"),
            system_scripts_dir: system_scripts_dir.to_string(),
            share_dir: share_dir.to_string(),
            kb_dir: join_path(share_dir, "kb"),
            pictures_dir,
            config_dir,
            data_dir,
            cache_dir,
            state_dir,
        }
    }
}

/// The pictures base: `XDG_PICTURES_DIR` when set, else the user's pictures
/// directory when the platform knows one, else `Pictures` in the home.
pub fn pictures_base(xdg_pictures: Option<&str>, user_pictures: Option<&str>, home: &str) -> (r: String)
    ensures
        r@ == match xdg_pictures {
            Some(x) => x@,
            None => match user_pictures {
                Some(u) => u@,
                None => join_spec(home@, "Pictures"@),
            },
        },
{
    match xdg_pictures {
        Some(x) => x.to_string(),
        None => match user_pictures {
            Some(u) => u.to_string(),
            None => join_path(home, "Pictures"),
        },
    }
}

/// One line of the path listing: `label: path`.
pub open spec fn listing_line(label: Seq<char>, path: Seq<char>) -> Seq<char> {
    label + ": "@ + path
}

/// The labels of the path listing, in English or Chinese.
pub open spec fn listing_label(k: int, zh: bool) -> Seq<char> {
    if k == 0 {
        if zh { "配置目录"@ } else { "config directory"@ }
    } else if k == 1 {
        if zh { "配置文件"@ } else { "config file"@ }
    } else if k == 2 {
        if zh { "skills 目录"@ } else { "skills directory"@ }
    } else if k == 3 {
        if zh { "数据目录"@ } else { "data directory"@ }
    } else if k == 4 {
        if zh { "缓存目录"@ } else { "cache directory"@ }
    } else if k == 5 {
        if zh { "状态目录"@ } else { "state directory"@ }
    } else if k == 6 {
        if zh { "日志目录"@ } else { "log directory"@ }
    } else if k == 7 {
        if zh { "图片目录"@ } else { "pictures directory"@ }
    } else if k == 8 {
        if zh { "fish hook 文件"@ } else { "fish hook file"@ }
    } else if k == 9 {
        if zh { "bash hook 文件"@ } else { "bash hook file"@ }
    } else if k == 10 {
        if zh { "zsh hook 文件"@ } else { "zsh hook file"@ }
    } else if k == 11 {
        if zh { "scripts 目录"@ } else { "scripts directory"@ }
    } else if k == 12 {
        if zh { "系统 scripts 目录"@ } else { "system scripts directory"@ }
    } else if k == 13 {
        if zh { "共享资源目录"@ } else { "share directory"@ }
    } else {
        if zh { "内置知识库目录"@ } else { "built-in knowledge base"@ }
    }
}

/// The paths of the listing, in its order.
pub open spec fn listing_paths(p: GqyPaths) -> Seq<Seq<char>> {
    seq![
        p.config_dir@,
        p.config_file@,
        p.skills_dir@,
        p.data_dir@,
        p.cache_dir@,
        p.state_dir@,
        join_spec(p.cache_dir@, "logs"@),
        p.pictures_dir@,
        p.fish_hook_file@,
        p.bash_hook_file@,
        p.zsh_hook_file@,
        p.scripts_dir@,
        p.system_scripts_dir@,
        p.share_dir@,
        p.kb_dir@,
    ]
}

/// What `gqy paths` shows: the isolated home when there is one, then each
/// directory and file, one `label: path` line each.
pub open spec fn listing(p: GqyPaths, home: Option<Seq<char>>, zh: bool) -> Seq<Seq<char>> {
    let head = match home {
        Some(h) => seq![listing_line(if zh { "独立主目录"@ } else { "isolated home"@ }, h)],
        None => seq![],
    };
    head + Seq::new(15, |k: int| listing_line(listing_label(k, zh), listing_paths(p)[k]))
}

fn listing_label_exec(k: usize, zh: bool) -> (r: &'static str)
    ensures
        r@ == listing_label(k as int, zh),
{
    if k == 0 {
        if zh { "配置目录" } else { "config directory" }
    } else if k == 1 {
        if zh { "配置文件" } else { "config file" }
    } else if k == 2 {
        if zh { "skills 目录" } else { "skills directory" }
    } else if k == 3 {
        if zh { "数据目录" } else { "data directory" }
    } else if k == 4 {
        if zh { "缓存目录" } else { "cache directory" }
    } else if k == 5 {
        if zh { "状态目录" } else { "state directory" }
    } else if k == 6 {
        if zh { "日志目录" } else { "log directory" }
    } else if k == 7 {
        if zh { "图片目录" } else { "pictures directory" }
    } else if k == 8 {
        if zh { "fish hook 文件" } else { "fish hook file" }
    } else if k == 9 {
        if zh { "bash hook 文件" } else { "bash hook file" }
    } else if k == 10 {
        if zh { "zsh hook 文件" } else { "zsh hook file" }
    } else if k == 11 {
        if zh { "scripts 目录" } else { "scripts directory" }
    } else if k == 12 {
        if zh { "系统 scripts 目录" } else { "system scripts directory" }
    } else if k == 13 {
        if zh { "共享资源目录" } else { "share directory" }
    } else {
        if zh { "内置知识库目录" } else { "built-in knowledge base" }
    }
}

fn line_of(label: &str, path: &str) -> (r: String)
    ensures
        r@ == listing_line(label@, path@),
{
    let mut m = chars_of(label);
    crate::text::extend_str(&mut m, ": ");
    crate::text::extend_str(&mut m, path);
    string_of(m.as_slice())
}

impl GqyPaths {
    /// The lines `gqy paths` prints.
    pub fn describe(&self, isolated_home: Option<&str>, zh: bool) -> (r: Vec<String>)
        ensures
            r@.map_values(|s: String| s@) == listing(
                *self,
                match isolated_home {
                    Some(h) => Some(h@),
                    None => None,
                },
                zh,
            ),
    {
        let mut out: Vec<String> = Vec::new();
        match isolated_home {
            Some(h) => out.push(line_of(if zh { "独立主目录" } else { "isolated home" }, h)),
            None => {},
        }
        let ghost head = out@.map_values(|s: String| s@);
        let logs = self.logs_dir();
        let ghost ps = listing_paths(*self);
        let ghost body = Seq::new(15, |k: int| listing_line(listing_label(k, zh), ps[k]));
        let mut k: usize = 0;
        while k < 15
            invariant
                k <= 15,
                ps == listing_paths(*self),
                body == Seq::new(15, |k: int| listing_line(listing_label(k, zh), ps[k])),
                logs@ == join_spec(self.cache_dir@, "logs"@),
                out@.map_values(|s: String| s@) == head + body.take(k as int),
            decreases 15 - k,
        {
            let path: &str = if k == 0 {
                self.config_dir.as_str()
            } else if k == 1 {
                self.config_file.as_str()
            } else if k == 2 {
                self.skills_dir.as_str()
            } else if k == 3 {
                self.data_dir.as_str()
            } else if k == 4 {
                self.cache_dir.as_str()
            } else if k == 5 {
                self.state_dir.as_str()
            } else if k == 6 {
                logs.as_str()
            } else if k == 7 {
                self.pictures_dir.as_str()
            } else if k == 8 {
                self.fish_hook_file.as_str()
            } else if k == 9 {
                self.bash_hook_file.as_str()
            } else if k == 10 {
                self.zsh_hook_file.as_str()
            } else if k == 11 {
                self.scripts_dir.as_str()
            } else if k == 12 {
                self.system_scripts_dir.as_str()
            } else if k == 13 {
                self.share_dir.as_str()
            } else {
                self.kb_dir.as_str()
            };
            assert(path@ == ps[k as int]);
            let ghost o = out@;
            out.push(line_of(listing_label_exec(k, zh), path));
            proof {
                assert(out@.map_values(|s: String| s@) =~= o.map_values(|s: String| s@).push(body[k as int]));
                assert(body.take(k + 1) =~= body.take(k as int).push(body[k as int]));
            }
            k += 1;
        }
        assert(body.take(15) =~= body);
        out
    }
}

} // verus!
