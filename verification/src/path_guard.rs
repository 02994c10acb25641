//! The write guard: file-writing tools refuse targets inside the project's
//! source tree unless project writes were allowed. What the file system says
//! (the working directory, canonical forms) is looked up by the caller; the
//! path arithmetic and the decisions are here.
use vstd::prelude::*;
use crate::paths::{join_path, join_spec};
use crate::text::{chars_of, extend_str, join_parts, join_with, seq_eq, split_char, split_on_char, string_of, str_is};

verus! {

/// Whether a path starts at the root.
pub open spec fn rooted(s: Seq<char>) -> bool {
    s.len() > 0 && s[0] == '/'
}

/// The named pieces of a path: the pieces between slashes, with empty pieces
/// and `.` left out.
pub open spec fn kept_parts(pieces: Seq<Seq<char>>) -> Seq<Seq<char>>
    decreases pieces.len(),
{
    if pieces.len() == 0 {
        seq![]
    } else {
        let prev = kept_parts(pieces.drop_last());
        let p = pieces.last();
        if p.len() == 0 || p == "."@ {
            prev
        } else {
            prev.push(p)
        }
    }
}

/// The components of a path, the root written `/`.
pub open spec fn components(s: Seq<char>) -> Seq<Seq<char>> {
    (if rooted(s) {
        seq!["/"@]
    } else {
        seq![]
    }) + kept_parts(split_char(s, '/'))
}

/// The pieces with each `..` taking away the piece before it (none at the
/// start).
pub open spec fn resolved(parts: Seq<Seq<char>>) -> Seq<Seq<char>>
    decreases parts.len(),
{
    if parts.len() == 0 {
        seq![]
    } else {
        let prev = resolved(parts.drop_last());
        if parts.last() == ".."@ {
            if prev.len() > 0 {
                prev.drop_last()
            } else {
                prev
            }
        } else {
            prev.push(parts.last())
        }
    }
}

/// A path with `.` and `..` worked out by its text alone.
pub open spec fn normalized_path(s: Seq<char>) -> Seq<char> {
    (if rooted(s) {
        "/"@
    } else {
        seq![]
    }) + join_with(resolved(kept_parts(split_char(s, '/'))), "/"@)
}

/// `path` lies in `dir`: the components of `dir` begin those of `path`.
pub open spec fn within(path: Seq<char>, dir: Seq<char>) -> bool {
    &&& components(dir).len() <= components(path).len()
    &&& components(path).take(components(dir).len() as int) == components(dir)
}

/// A path written from its components.
pub open spec fn rendered(cs: Seq<Seq<char>>) -> Seq<char> {
    if cs.len() > 0 && cs[0] == "/"@ {
        "/"@ + join_with(cs.drop_first(), "/"@)
    } else {
        join_with(cs, "/"@)
    }
}

pub open spec fn views(v: Seq<Vec<char>>) -> Seq<Seq<char>> {
    v.map_values(|p: Vec<char>| p@)
}

proof fn lemma_kept_step(pieces: Seq<Seq<char>>, i: int)
    requires
        0 <= i < pieces.len(),
    ensures
        kept_parts(pieces.take(i + 1)) == if pieces[i].len() == 0 || pieces[i] == "."@ {
            kept_parts(pieces.take(i))
        } else {
            kept_parts(pieces.take(i)).push(pieces[i])
        },
{
    assert(pieces.take(i + 1).drop_last() =~= pieces.take(i));
}

/// The named pieces of a path's text, in order.
fn named_parts(s: &[char]) -> (r: Vec<Vec<char>>)
    ensures
        views(r@) == kept_parts(split_char(s@, '/')),
{
    let pieces = split_on_char(s, '/');
    let ghost ps = split_char(s@, '/');
    let mut out: Vec<Vec<char>> = Vec::new();
    let mut i: usize = 0;
    while i < pieces.len()
        invariant
            i <= pieces@.len(),
            pieces@.len() == ps.len(),
            forall|k: int| 0 <= k < pieces@.len() ==> #[trigger] pieces@[k]@ == ps[k],
            views(out@) == kept_parts(ps.take(i as int)),
        decreases pieces.len() - i,
    {
        proof {
            lemma_kept_step(ps, i as int);
        }
        let p = &pieces[i];
        if p.len() == 0 || str_is(p.as_slice(), ".") {
        } else {
            let ghost before = out@;
            out.push(p.clone());
            assert(views(out@) =~= views(before).push(ps[i as int]));
        }
        i += 1;
    }
    assert(ps.take(pieces@.len() as int) =~= ps);
    out
}

/// `Path::components` as text, the root as `/`.
pub fn components_of(s: &[char]) -> (r: Vec<Vec<char>>)
    ensures
        views(r@) == components(s@),
{
    let parts = named_parts(s);
    let mut out: Vec<Vec<char>> = Vec::new();
    if s.len() > 0 && s[0] == '/' {
        out.push(vec!['/']);
    }
    let ghost start = views(out@);
    assert(start == (if rooted(s@) { seq!["/"@] } else { Seq::<Seq<char>>::empty() })) by {
        if rooted(s@) {
            reveal_strlit("/");
            assert(out@[0]@ =~= "/"@);
            assert(views(out@) =~= seq!["/"@]);
        } else {
            assert(views(out@) =~= Seq::<Seq<char>>::empty());
        }
    }
    let mut i: usize = 0;
    while i < parts.len()
        invariant
            i <= parts@.len(),
            views(parts@) == kept_parts(split_char(s@, '/')),
            views(out@) == start + views(parts@).take(i as int),
        decreases parts.len() - i,
    {
        let ghost before = out@;
        let x = parts[i].clone();
        assert(x@ == views(parts@)[i as int]);
        out.push(x);
        assert(views(out@) =~= views(before).push(x@));
        assert(views(parts@).take(i + 1) =~= views(parts@).take(i as int).push(views(parts@)[i as int]));
        assert(views(out@) =~= start + views(parts@).take(i + 1));
        i += 1;
    }
    assert(views(parts@).take(parts@.len() as int) =~= views(parts@));
    out
}

proof fn lemma_resolved_step(parts: Seq<Seq<char>>, i: int)
    requires
        0 <= i < parts.len(),
    ensures
        resolved(parts.take(i + 1)) == if parts[i] == ".."@ {
            if resolved(parts.take(i)).len() > 0 {
                resolved(parts.take(i)).drop_last()
            } else {
                resolved(parts.take(i))
            }
        } else {
            resolved(parts.take(i)).push(parts[i])
        },
{
    assert(parts.take(i + 1).drop_last() =~= parts.take(i));
}

/// The path with `.` and `..` worked out by its text alone, as
/// `normalize_lexical` does before any file is looked at.
pub fn normalize_lexical(path: &str) -> (r: String)
    ensures
        r@ == normalized_path(path@),
{
    let s = chars_of(path);
    let parts = named_parts(s.as_slice());
    let ghost ps = views(parts@);
    let mut kept: Vec<Vec<char>> = Vec::new();
    let mut i: usize = 0;
    while i < parts.len()
        invariant
            i <= parts@.len(),
            ps == views(parts@),
            views(kept@) == resolved(ps.take(i as int)),
        decreases parts.len() - i,
    {
        proof {
            lemma_resolved_step(ps, i as int);
            assert(ps[i as int] == parts@[i as int]@);
        }
        if str_is(parts[i].as_slice(), "..") {
            if kept.len() > 0 {
                let ghost before = kept@;
                kept.pop();
                assert(views(kept@) =~= views(before).drop_last());
            }
        } else {
            let ghost before = kept@;
            kept.push(parts[i].clone());
            assert(views(kept@) =~= views(before).push(parts@[i as int]@));
        }
        i += 1;
    }
    assert(ps.take(parts@.len() as int) =~= ps);
    let body = join_parts(kept.as_slice(), "/");
    assert(kept@.map_values(|p: Vec<char>| p@) == views(kept@));
    let mut out: Vec<char> = Vec::new();
    if s.len() > 0 && s[0] == '/' {
        out.push('/');
    }
    let ghost lead = out@;
    for j in 0..body.len()
        invariant
            out@ == lead + body@.take(j as int),
    {
        out.push(body[j]);
        assert(out@ =~= lead + body@.take(j + 1));
    }
    assert(body@.take(body@.len() as int) =~= body@);
    proof {
        reveal_strlit("/");
        if rooted(path@) {
            assert(lead =~= "/"@);
        } else {
            assert(lead =~= Seq::<char>::empty());
        }
    }
    string_of(out.as_slice())
}

/// Whether the components of `dir` begin those of `path`.
pub fn path_within(path: &str, dir: &str) -> (r: bool)
    ensures
        r == within(path@, dir@),
{
    let pc = components_of(chars_of(path).as_slice());
    let dc = components_of(chars_of(dir).as_slice());
    if dc.len() > pc.len() {
        return false;
    }
    let mut k: usize = 0;
    while k < dc.len()
        invariant
            dc@.len() <= pc@.len(),
            k <= dc@.len(),
            views(pc@) == components(path@),
            views(dc@) == components(dir@),
            forall|j: int| 0 <= j < k ==> pc@[j]@ == dc@[j]@,
        decreases dc.len() - k,
    {
        if !seq_eq(pc[k].as_slice(), dc[k].as_slice()) {
            assert(views(pc@)[k as int] != views(dc@)[k as int]);
            assert(components(path@).take(components(dir@).len() as int)[k as int] != components(dir@)[k as int]);
            return false;
        }
        k += 1;
    }
    assert(components(path@).take(components(dir@).len() as int) =~= components(dir@)) by {
        assert forall|j: int| 0 <= j < components(dir@).len() implies components(path@).take(
            components(dir@).len() as int,
        )[j] == components(dir@)[j] by {
            assert(views(pc@)[j] == pc@[j]@);
            assert(views(dc@)[j] == dc@[j]@);
        }
    }
    true
}

/// Whether a write target lies in the protected directory. `target` is the
/// target made absolute and normalized; `dir` the directory in canonical form
/// (or as given when it has none); `ancestor` the canonical form of the
/// nearest ancestor of `target` that exists; `canonical` the target's own
/// canonical form when it exists (a link may lead into the directory).
pub fn is_inside(target: &str, dir: &str, ancestor: Option<&str>, canonical: Option<&str>) -> (r: bool)
    ensures
        r == (within(target@, dir@) || (ancestor matches Some(a) && within(a@, dir@)) || (
        canonical matches Some(c) && within(c@, dir@))),
{
    if path_within(target, dir) {
        return true;
    }
    if let Some(a) = ancestor {
        if path_within(a, dir) {
            return true;
        }
    }
    match canonical {
        Some(c) => path_within(c, dir),
        None => false,
    }
}

/// The refusal of a write into the project: its message names the project
/// and the workspace to use instead.
pub open spec fn protected_message(project: Seq<char>, workspace: Seq<char>) -> Seq<char> {
    "路径位于项目源码目录（"@ + project + "）内，受保护。下载/临时文件请放到 "@ + workspace
        + "；如需修改项目本身，请设置 GQY_ALLOW_PROJECT_WRITES=1"@
}

/// The check before a file is written: a target inside the project is
/// refused unless project writes were allowed.
pub fn ensure_writable(inside: bool, writes_allowed: bool, project: &str, workspace: &str) -> (r: Result<(), String>)
    ensures
        r is Ok <==> (!inside || writes_allowed),
        r matches Err(m) ==> m@ == protected_message(project@, workspace@),
{
    if !inside || writes_allowed {
        return Ok(());
    }
    let mut m: Vec<char> = Vec::new();
    extend_str(&mut m, "路径位于项目源码目录（");
    extend_str(&mut m, project);
    extend_str(&mut m, "）内，受保护。下载/临时文件请放到 ");
    extend_str(&mut m, workspace);
    extend_str(&mut m, "；如需修改项目本身，请设置 GQY_ALLOW_PROJECT_WRITES=1");
    Err(string_of(m.as_slice()))
}

/// The project an executable was built in: for `<project>/target/<profile>/gqy`
/// that is `<project>`.
pub open spec fn exe_project_spec(exe: Seq<char>) -> Option<Seq<char>> {
    let cs = components(exe);
    if cs.len() >= 3 && cs[cs.len() - 3] == "target"@ {
        Some(rendered(cs.take(cs.len() - 3)))
    } else {
        None
    }
}

/// The project an executable was built in, when it lies under a `target`
/// directory (the caller then checks for the project's `Cargo.toml`).
pub fn exe_project(exe: &str) -> (r: Option<String>)
    ensures
        match r {
            Some(p) => exe_project_spec(exe@) == Some(p@),
            None => exe_project_spec(exe@) is None,
        },
{
    let cs = components_of(chars_of(exe).as_slice());
    let ghost c = components(exe@);
    if cs.len() < 3 || !str_is(cs[cs.len() - 3].as_slice(), "target") {
        proof {
            if cs@.len() >= 3 {
                assert(views(cs@)[cs@.len() - 3] == cs@[cs@.len() - 3]@);
            }
        }
        return None;
    }
    proof {
        assert(views(cs@)[cs@.len() - 3] == cs@[cs@.len() - 3]@);
    }
    let n = cs.len() - 3;
    let mut parts: Vec<Vec<char>> = Vec::new();
    let rooted_first = n > 0 && str_is(cs[0].as_slice(), "/");
    let mut i: usize = if rooted_first { 1 } else { 0 };
    let ghost first = i;
    proof {
        reveal_strlit("/");
        if n > 0 {
            assert(views(cs@)[0] == cs@[0]@);
        }
    }
    while i < n
        invariant
            first <= i <= n,
            n == cs@.len() - 3,
            views(cs@) == c,
            views(parts@) == c.subrange(first as int, i as int),
        decreases n - i,
    {
        let ghost before = parts@;
        let x = cs[i].clone();
        assert(x@ == views(cs@)[i as int]);
        parts.push(x);
        assert(views(parts@) =~= views(before).push(x@));
        assert(views(parts@) =~= c.subrange(first as int, i + 1));
        i += 1;
    }
    let body = join_parts(parts.as_slice(), "/");
    assert(parts@.map_values(|p: Vec<char>| p@) == views(parts@));
    let mut out: Vec<char> = Vec::new();
    if rooted_first {
        out.push('/');
    }
    let ghost lead = out@;
    for j in 0..body.len()
        invariant
            out@ == lead + body@.take(j as int),
    {
        out.push(body[j]);
        assert(out@ =~= lead + body@.take(j + 1));
    }
    assert(body@.take(body@.len() as int) =~= body@);
    proof {
        let t = c.take(n as int);
        if rooted_first {
            assert(t.drop_first() =~= c.subrange(1, n as int));
            assert(lead =~= "/"@);
        } else {
            assert(t =~= c.subrange(0, n as int));
            assert(lead =~= Seq::<char>::empty());
        }
    }
    Some(string_of(out.as_slice()))
}

/// The project directory: the `GQY_PROJECT_DIR` setting; else the project
/// the executable was built in (when it has a `Cargo.toml`); else `GQY` in the
/// home directory; else `/Users/Shared/GQY`.
pub fn project_dir(setting: Option<&str>, built_in: Option<&str>, home: Option<&str>) -> (r: String)
    ensures
        r@ == match setting {
            Some(s) => s@,
            None => match built_in {
                Some(b) => b@,
                None => match home {
                    Some(h) => join_spec(h@, "GQY"@),
                    None => "/Users/Shared/GQY"@,
                },
            },
        },
{
    match setting {
        Some(s) => s.to_string(),
        None => match built_in {
            Some(b) => b.to_string(),
            None => match home {
                Some(h) => join_path(h, "GQY"),
                None => "/Users/Shared/GQY".to_string(),
            },
        },
    }
}

/// The workspace for downloads and drafts: the `GQY_WORKSPACE` setting; else
/// `gqy-workspace` in the home directory; else `/tmp/gqy-workspace`.
pub fn workspace_dir(setting: Option<&str>, home: Option<&str>) -> (r: String)
    ensures
        r@ == match setting {
            Some(s) => s@,
            None => match home {
                Some(h) => join_spec(h@, "gqy-workspace"@),
                None => "/tmp/gqy-workspace"@,
            },
        },
{
    match setting {
        Some(s) => s.to_string(),
        None => match home {
            Some(h) => join_path(h, "gqy-workspace"),
            None => "/tmp/gqy-workspace".to_string(),
        },
    }
}

} // verus!
