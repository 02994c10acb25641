//! Managing imported tool packages: which index entries a removal drops, what
//! a package's listing shows, how many tools each package has, and which files
//! a scan of a package directory takes as tools.
use vstd::prelude::*;
use crate::import::{package_name_of, sanitize_name};
use crate::text::{chars_of, extend_str, find_char, has_prefix, has_prefix_str, seq_eq, slice_chars, starts_with, string_of, str_is};

verus! {

// ---------------------------------------------------------------- removal

/// Which index entries a package removal keeps: the package's name as it is
/// stored, and for the tools and the disabled entries whether each stays.
#[derive(Debug, Clone)]
pub struct PackageRemoval {
    pub name: String,
    pub keep_scripts: Vec<bool>,
    pub keep_disabled: Vec<bool>,
    /// How many tools were dropped.
    pub removed: usize,
}

/// A tool stays unless its path lies in the package's directory.
pub open spec fn keeps_script(path: Option<Seq<char>>, name: Seq<char>) -> bool {
    match path {
        Some(p) => !starts_with(p, name + "/"@),
        None => true,
    }
}

/// A disabled entry stays unless its path lies in the package's directory or
/// its id starts with the package's name.
pub open spec fn keeps_disabled(path: Option<Seq<char>>, id: Option<Seq<char>>, name: Seq<char>) -> bool {
    keeps_script(path, name) && match id {
        Some(i) => !starts_with(i, name),
        None => true,
    }
}

pub open spec fn opt_view(o: Option<String>) -> Option<Seq<char>> {
    match o {
        Some(s) => Some(s@),
        None => None,
    }
}

/// How many of the first `n` tools are dropped.
pub open spec fn dropped_count(paths: Seq<Option<String>>, name: Seq<char>, n: int) -> nat
    decreases n,
{
    if n <= 0 {
        0
    } else {
        dropped_count(paths, name, n - 1) + if keeps_script(opt_view(paths[n - 1]), name) {
            0nat
        } else {
            1nat
        }
    }
}

fn starts_with_str(s: &str, p: &[char]) -> (r: bool)
    ensures
        r == starts_with(s@, p@),
{
    let c = chars_of(s);
    has_prefix(c.as_slice(), p)
}

/// What removing a package does to the scripts index (the paths of its tools,
/// and the paths and ids of its disabled entries).
pub fn remove_tools(
    package_name: &str,
    script_paths: &[Option<String>],
    disabled: &[(Option<String>, Option<String>)],
) -> (r: PackageRemoval)
    ensures
        r.name@ == package_name_of(package_name@),
        r.keep_scripts@.len() == script_paths@.len(),
        forall|i: int| 0 <= i < script_paths@.len() ==> r.keep_scripts@[i] == keeps_script(
            opt_view(#[trigger] script_paths@[i]),
            r.name@,
        ),
        r.keep_disabled@.len() == disabled@.len(),
        forall|i: int| 0 <= i < disabled@.len() ==> r.keep_disabled@[i] == keeps_disabled(
            opt_view((#[trigger] disabled@[i]).0),
            opt_view(disabled@[i].1),
            r.name@,
        ),
        r.removed == dropped_count(script_paths@, r.name@, script_paths@.len() as int),
{
    let name = sanitize_name(package_name);
    let nc = chars_of(name.as_str());
    let mut prefix = nc.clone();
    prefix.push('/');
    assert(prefix@ == name@ + "/"@) by {
        reveal_strlit("/");
    }
    let mut keep_scripts: Vec<bool> = Vec::new();
    let mut removed: usize = 0;
    let mut i: usize = 0;
    while i < script_paths.len()
        invariant
            i <= script_paths.len(),
            prefix@ == name@ + "/"@,
            keep_scripts@.len() == i,
            forall|k: int| 0 <= k < i ==> keep_scripts@[k] == keeps_script(
                opt_view(#[trigger] script_paths@[k]),
                name@,
            ),
            removed == dropped_count(script_paths@, name@, i as int),
            removed <= i,
        decreases script_paths.len() - i,
    {
        let keep = match &script_paths[i] {
            Some(p) => !starts_with_str(p.as_str(), prefix.as_slice()),
            None => true,
        };
        keep_scripts.push(keep);
        if !keep {
            removed += 1;
        }
        i += 1;
    }
    let mut keep_disabled: Vec<bool> = Vec::new();
    let mut j: usize = 0;
    while j < disabled.len()
        invariant
            j <= disabled.len(),
            prefix@ == name@ + "/"@,
            nc@ == name@,
            keep_disabled@.len() == j,
            forall|k: int| 0 <= k < j ==> keep_disabled@[k] == keeps_disabled(
                opt_view((#[trigger] disabled@[k]).0),
                opt_view(disabled@[k].1),
                name@,
            ),
        decreases disabled.len() - j,
    {
        let path_keeps = match &disabled[j].0 {
            Some(p) => !starts_with_str(p.as_str(), prefix.as_slice()),
            None => true,
        };
        let id_keeps = match &disabled[j].1 {
            Some(id) => !starts_with_str(id.as_str(), nc.as_slice()),
            None => true,
        };
        keep_disabled.push(path_keeps && id_keeps);
        j += 1;
    }
    PackageRemoval { name, keep_scripts, keep_disabled, removed }
}

/// `工具包不存在：<name>`.
pub fn missing_package_message(name: &str) -> (r: String)
    ensures
        r@ == "工具包不存在："@ + name@,
{
    let mut m = chars_of("工具包不存在：");
    extend_str(&mut m, name);
    string_of(m.as_slice())
}

// ---------------------------------------------------------------- a package's tools

/// An entry of the scripts index, as the package listing reads it.
#[derive(Debug, Clone)]
pub struct IndexEntry {
    pub path: Option<String>,
    pub id: Option<String>,
    pub display_name: Option<String>,
    pub description: Option<String>,
}

/// How a package's tool is listed: id (`?` when missing), display name (the
/// id when missing or empty), description, and whether it is disabled.
pub open spec fn listed_tool(e: IndexEntry, disabled_ids: Seq<Seq<char>>) -> (Seq<char>, Seq<char>, Seq<char>, bool) {
    let id = match e.id {
        Some(i) => i@,
        None => "?"@,
    };
    let display = match e.display_name {
        Some(d) => if d@.len() > 0 {
            d@
        } else {
            id
        },
        None => id,
    };
    let description = match e.description {
        Some(d) => d@,
        None => seq![],
    };
    (id, display, description, disabled_ids.contains(id))
}

/// Whether an entry belongs to the package.
pub open spec fn in_package(e: IndexEntry, name: Seq<char>) -> bool {
    match e.path {
        Some(p) => starts_with(p@, name + "/"@),
        None => starts_with(seq![], name + "/"@),
    }
}

/// The listing of the package's tools, in index order.
pub open spec fn package_listing(entries: Seq<IndexEntry>, name: Seq<char>, disabled_ids: Seq<Seq<char>>) -> Seq<(Seq<char>, Seq<char>, Seq<char>, bool)>
    decreases entries.len(),
{
    if entries.len() == 0 {
        seq![]
    } else {
        let rest = package_listing(entries.drop_last(), name, disabled_ids);
        if in_package(entries.last(), name) {
            rest.push(listed_tool(entries.last(), disabled_ids))
        } else {
            rest
        }
    }
}

pub open spec fn tool_rows(v: Seq<(String, String, String, bool)>) -> Seq<(Seq<char>, Seq<char>, Seq<char>, bool)> {
    v.map_values(|t: (String, String, String, bool)| (t.0@, t.1@, t.2@, t.3))
}

pub open spec fn strs(v: Seq<String>) -> Seq<Seq<char>> {
    v.map_values(|s: String| s@)
}

fn contains_string(v: &[String], x: &[char]) -> (r: bool)
    ensures
        r == strs(v@).contains(x@),
{
    let mut i: usize = 0;
    while i < v.len()
        invariant
            i <= v.len(),
            forall|k: int| 0 <= k < i ==> v@[k]@ != x@,
        decreases v.len() - i,
    {
        if seq_eq(chars_of(v[i].as_str()).as_slice(), x) {
            assert(strs(v@)[i as int] == x@);
            return true;
        }
        i += 1;
    }
    assert forall|k: int| 0 <= k < strs(v@).len() implies strs(v@)[k] != x@ by {
        assert(strs(v@)[k] == v@[k]@);
    }
    false
}

/// The tools of a package as `gqy tools show` lists them; refused (with the
/// message to show) when the package has none in the index.
pub fn show_tools(package_name: &str, entries: &[IndexEntry], disabled_ids: &[String]) -> (r: Result<Vec<(String, String, String, bool)>, String>)
    ensures
        ({
            let name = package_name_of(package_name@);
            let listing = package_listing(entries@, name, strs(disabled_ids@));
            match r {
                Ok(v) => listing.len() > 0 && tool_rows(v@) == listing,
                Err(m) => listing.len() == 0 && m@ == "工具包 "@ + name + " 没有已注册的工具"@,
            }
        }),
{
    let name = sanitize_name(package_name);
    let mut prefix = chars_of(name.as_str());
    prefix.push('/');
    assert(prefix@ == name@ + "/"@) by {
        reveal_strlit("/");
    }
    let mut out: Vec<(String, String, String, bool)> = Vec::new();
    let mut i: usize = 0;
    while i < entries.len()
        invariant
            i <= entries.len(),
            prefix@ == name@ + "/"@,
            tool_rows(out@) == package_listing(entries@.take(i as int), name@, strs(disabled_ids@)),
        decreases entries.len() - i,
    {
        proof {
            assert(entries@.take(i + 1).drop_last() =~= entries@.take(i as int));
        }
        let e = &entries[i];
        assert(entries@.take(i + 1).last() == *e);
        let belongs = match &e.path {
            Some(p) => starts_with_str(p.as_str(), prefix.as_slice()),
            None => {
                proof {
                    reveal_strlit("");
                    assert(""@ =~= Seq::<char>::empty());
                }
                starts_with_str("", prefix.as_slice())
            },
        };
        assert(belongs == in_package(*e, name@));
        if belongs {
            let id: String = match &e.id {
                Some(x) => x.clone(),
                None => "?".to_string(),
            };
            let display: String = match &e.display_name {
                Some(d) => if chars_of(d.as_str()).len() > 0 {
                    d.clone()
                } else {
                    id.clone()
                },
                None => id.clone(),
            };
            let description: String = match &e.description {
                Some(d) => d.clone(),
                None => String::new(),
            };
            let disabled = contains_string(disabled_ids, chars_of(id.as_str()).as_slice());
            let ghost o = out@;
            out.push((id, display, description, disabled));
            proof {
                assert(tool_rows(out@) =~= tool_rows(o).push(listed_tool(*e, strs(disabled_ids@))));
            }
        }
        i += 1;
    }
    assert(entries@.take(entries.len() as int) =~= entries@);
    if out.len() == 0 {
        let mut m = chars_of("工具包 ");
        extend_str(&mut m, name.as_str());
        extend_str(&mut m, " 没有已注册的工具");
        return Err(string_of(m.as_slice()));
    }
    Ok(out)
}

// ---------------------------------------------------------------- scanning

/// A tool found by scanning a package directory.
#[derive(Debug, Clone)]
pub struct ScannedTool {
    pub id: String,
    /// Its path relative to the package directory.
    pub path: String,
    pub description: String,
}

/// How many directories a scan reads at most, past the one it starts in.
pub const SCAN_DIRECTORY_LIMIT: usize = 200;

/// A scan goes into every directory but `.git`.
pub fn descend_into(dir_name: &str) -> (r: bool)
    ensures
        r == (dir_name@ != ".git"@),
{
    !str_is(chars_of(dir_name).as_slice(), ".git")
}

/// The description a scanned tool gets: the one its header gives, or one that
/// names the file, since a tool needs a description.
pub open spec fn scanned_description(id: Seq<char>, header: Seq<char>) -> Seq<char> {
    if header.len() == 0 {
        "Execute the bundled script "@ + id
            + " from the imported package. Pass arguments as JSON via stdin; check the script source for exact usage."@
    } else {
        header
    }
}

/// An executable file found by a scan: a tool unless its name starts with a
/// dot or it is the index itself.
pub fn scanned_tool(file_name: &str, relative_path: &str, header_description: &str) -> (r: Option<ScannedTool>)
    ensures
        match r {
            None => starts_with(file_name@, "."@) || file_name@ == "index.json"@,
            Some(t) => !starts_with(file_name@, "."@) && file_name@ != "index.json"@ && t.id@
                == file_name@ && t.path@ == relative_path@ && t.description@ == scanned_description(
                file_name@,
                header_description@,
            ),
        },
{
    let n = chars_of(file_name);
    if has_prefix_str(n.as_slice(), ".") || str_is(n.as_slice(), "index.json") {
        return None;
    }
    let description = if chars_of(header_description).len() == 0 {
        let mut m = chars_of("Execute the bundled script ");
        extend_str(&mut m, file_name);
        extend_str(&mut m, " from the imported package. Pass arguments as JSON via stdin; check the script source for exact usage.");
        string_of(m.as_slice())
    } else {
        header_description.to_string()
    };
    Some(ScannedTool { id: file_name.to_string(), path: relative_path.to_string(), description })
}

} // verus!

verus! {

// ---------------------------------------------------------------- package counts

/// Text order: character by character, a prefix first. For UTF-8 text this is
/// also the order of the bytes.
pub open spec fn text_lt(a: Seq<char>, b: Seq<char>) -> bool
    decreases a.len(),
{
    if a.len() == 0 {
        b.len() > 0
    } else if b.len() == 0 {
        false
    } else if a[0] != b[0] {
        a[0] < b[0]
    } else {
        text_lt(a.drop_first(), b.drop_first())
    }
}

pub proof fn lemma_text_lt_irreflexive(a: Seq<char>)
    ensures
        !text_lt(a, a),
    decreases a.len(),
{
    if a.len() > 0 {
        lemma_text_lt_irreflexive(a.drop_first());
    }
}

pub proof fn lemma_text_lt_total(a: Seq<char>, b: Seq<char>)
    ensures
        a == b || text_lt(a, b) || text_lt(b, a),
    decreases a.len(),
{
    if a.len() > 0 && b.len() > 0 && a[0] == b[0] {
        lemma_text_lt_total(a.drop_first(), b.drop_first());
        if a.drop_first() == b.drop_first() {
            assert(a =~= seq![a[0]] + a.drop_first());
            assert(b =~= seq![b[0]] + b.drop_first());
        }
    } else if a.len() > 0 && b.len() > 0 {
    } else if a.len() == 0 && b.len() == 0 {
        assert(a =~= b);
    }
}

pub proof fn lemma_text_lt_asymmetric(a: Seq<char>, b: Seq<char>)
    ensures
        text_lt(a, b) ==> !text_lt(b, a),
    decreases a.len(),
{
    if a.len() > 0 && b.len() > 0 && a[0] == b[0] {
        lemma_text_lt_asymmetric(a.drop_first(), b.drop_first());
    }
}

pub proof fn lemma_text_lt_transitive(a: Seq<char>, b: Seq<char>, c: Seq<char>)
    requires
        text_lt(a, b),
        text_lt(b, c),
    ensures
        text_lt(a, c),
    decreases a.len(),
{
    if a.len() > 0 && b.len() > 0 && c.len() > 0 && a[0] == b[0] && b[0] == c[0] {
        lemma_text_lt_transitive(a.drop_first(), b.drop_first(), c.drop_first());
    }
}

pub fn text_less(a: &[char], b: &[char]) -> (r: bool)
    ensures
        r == text_lt(a@, b@),
{
    let mut i: usize = 0;
    assert(a@.skip(0) =~= a@);
    assert(b@.skip(0) =~= b@);
    while i < a.len() && i < b.len() && a[i] == b[i]
        invariant
            i <= a.len(),
            i <= b.len(),
            a@.take(i as int) == b@.take(i as int),
            text_lt(a@, b@) == text_lt(a@.skip(i as int), b@.skip(i as int)),
        decreases a.len() - i,
    {
        proof {
            let sa = a@.skip(i as int);
            let sb = b@.skip(i as int);
            assert(sa.drop_first() =~= a@.skip(i + 1));
            assert(sb.drop_first() =~= b@.skip(i + 1));
            assert(a@.take(i + 1) =~= a@.take(i as int).push(a@[i as int]));
            assert(b@.take(i + 1) =~= b@.take(i as int).push(b@[i as int]));
        }
        i += 1;
    }
    let sa = Ghost(a@.skip(i as int));
    let sb = Ghost(b@.skip(i as int));
    if i == a.len() {
        assert(sa@.len() == 0);
        i < b.len()
    } else if i == b.len() {
        assert(sb@.len() == 0 && sa@.len() > 0);
        false
    } else {
        assert(sa@[0] == a@[i as int] && sb@[0] == b@[i as int]);
        a[i] < b[i]
    }
}

/// A tool's package: the first component of its index path.
pub open spec fn package_of(path: Seq<char>) -> Seq<char> {
    if exists|i: int| 0 <= i < path.len() && path[i] == '/' {
        path.take(choose|i: int| 0 <= i < path.len() && path[i] == '/' && forall|j: int| 0 <= j < i ==> path[j] != '/')
    } else {
        path
    }
}

fn package_of_exec(path: &str) -> (r: Vec<char>)
    ensures
        r@ == package_of(path@),
{
    let c = chars_of(path);
    match find_char(c.as_slice(), '/') {
        Some(i) => {
            proof {
                let k = choose|k: int| 0 <= k < path@.len() && path@[k] == '/' && forall|j: int| 0 <= j < k ==> path@[j] != '/';
                assert(!(k < i as int));
                assert(!(k > i as int));
            }
            slice_chars(c.as_slice(), 0, i)
        },
        None => c,
    }
}

/// How many of the paths belong to a package.
pub open spec fn tools_in(paths: Seq<Seq<char>>, package: Seq<char>) -> nat
    decreases paths.len(),
{
    if paths.len() == 0 {
        0
    } else {
        tools_in(paths.drop_last(), package) + if package_of(paths.last()) == package {
            1nat
        } else {
            0nat
        }
    }
}

/// The packages with tools, in name order, each once, with how many tools it
/// has.
pub open spec fn counts_ok(r: Seq<(Seq<char>, nat)>, paths: Seq<Seq<char>>) -> bool {
    &&& forall|i: int, j: int| 0 <= i < j < r.len() ==> text_lt(r[i].0, r[j].0)
    &&& forall|i: int| 0 <= i < r.len() ==> (#[trigger] r[i]).1 == tools_in(paths, r[i].0) && r[i].1 > 0
    &&& forall|k: int| 0 <= k < paths.len() ==> exists|i: int| 0 <= i < r.len() && r[i].0 == package_of(#[trigger] paths[k])
}

pub open spec fn counts_view(v: Seq<(String, usize)>) -> Seq<(Seq<char>, nat)> {
    v.map_values(|e: (String, usize)| (e.0@, e.1 as nat))
}

proof fn lemma_tools_in_absent(paths: Seq<Seq<char>>, package: Seq<char>)
    requires
        forall|k: int| 0 <= k < paths.len() ==> package_of(paths[k]) != package,
    ensures
        tools_in(paths, package) == 0,
    decreases paths.len(),
{
    if paths.len() > 0 {
        lemma_tools_in_absent(paths.drop_last(), package);
    }
}

/// How many tools each imported package has, as `gqy tools list` shows them
/// (the caller adds each package's license).
pub fn list_tools(paths: &[String]) -> (r: Vec<(String, usize)>)
    ensures
        counts_ok(counts_view(r@), strs(paths@)),
{
    let ghost ps = strs(paths@);
    let mut out: Vec<(String, usize)> = Vec::new();
    let mut i: usize = 0;
    while i < paths.len()
        invariant
            i <= paths.len(),
            ps == strs(paths@),
            counts_ok(counts_view(out@), ps.take(i as int)),
            forall|t: int| 0 <= t < out@.len() ==> (#[trigger] out@[t]).1 <= i,
        decreases paths.len() - i,
    {
        let seg = package_of_exec(paths[i].as_str());
        let ghost pre = ps.take(i as int);
        let ghost next = ps.take(i + 1);
        proof {
            assert(next.drop_last() =~= pre);
            assert(next.last() == paths@[i as int]@);
            assert(ps[i as int] == paths@[i as int]@);
        }
        let ghost cv = counts_view(out@);
        // the first package not before this one
        let mut p: usize = 0;
        while p < out.len() && text_less(chars_of(out[p].0.as_str()).as_slice(), seg.as_slice())
            invariant
                p <= out.len(),
                forall|t: int| 0 <= t < p ==> text_lt(#[trigger] out@[t].0@, seg@),
            decreases out.len() - p,
        {
            p += 1;
        }
        let found = p < out.len() && seq_eq(chars_of(out[p].0.as_str()).as_slice(), seg.as_slice());
        if found {
            let ghost before = out@;
            let (name, n) = out.remove(p);
            out.insert(p, (name, n + 1));
            proof {
                assert(out@ =~= before.update(p as int, (before[p as int].0, (n + 1) as usize)));
                assert forall|a: int| 0 <= a < counts_view(out@).len() implies #[trigger] counts_view(out@)[a].0 == cv[a].0 by {}
                assert forall|a: int, b: int| 0 <= a < b < counts_view(out@).len() implies text_lt(counts_view(out@)[a].0, counts_view(out@)[b].0) by {
                    assert(counts_view(out@)[a].0 == cv[a].0);
                    assert(counts_view(out@)[b].0 == cv[b].0);
                }
                assert forall|k: int| 0 <= k < next.len() implies exists|t: int| 0 <= t < counts_view(out@).len() && counts_view(out@)[t].0 == package_of(#[trigger] next[k]) by {
                    if k < i {
                        assert(next[k] == pre[k]);
                        let t = choose|t: int| 0 <= t < cv.len() && cv[t].0 == package_of(pre[k]);
                        assert(counts_view(out@)[t].0 == cv[t].0);
                    } else {
                        assert(counts_view(out@)[p as int].0 == seg@);
                    }
                }
                assert forall|a: int| 0 <= a < counts_view(out@).len() implies (#[trigger] counts_view(out@)[a]).1 == tools_in(next, counts_view(out@)[a].0) && counts_view(out@)[a].1 > 0 by {
                    assert(counts_view(out@)[a].0 == cv[a].0);
                    if a == p {
                        assert(cv[a].0 == seg@);
                    } else {
                        assert(cv[a].0 != seg@) by {
                            lemma_text_lt_irreflexive(seg@);
                            if a < p {
                                assert(text_lt(cv[a].0, seg@));
                            } else {
                                assert(text_lt(cv[p as int].0, cv[a].0));
                            }
                        }
                    }
                }
                assert(counts_ok(counts_view(out@), next));
            }
        } else {
            let ghost before = out@;
            out.insert(p, (string_of(seg.as_slice()), 1));
            proof {
                assert(out@ =~= before.insert(p as int, (out@[p as int].0, 1usize)));
                let nv = counts_view(out@);
                assert(p < before.len() ==> before[p as int].0@ != seg@);
                assert forall|a: int, b: int| 0 <= a < b < nv.len() implies text_lt(nv[a].0, nv[b].0) by {
                    if p < before.len() {
                        lemma_text_lt_total(cv[p as int].0, seg@);
                        assert(!text_lt(cv[p as int].0, seg@));
                        assert(text_lt(seg@, cv[p as int].0));
                    }
                    if a < p && b == p {
                        assert(text_lt(cv[a].0, seg@));
                    } else if a == p && b > p {
                        if b - 1 > p {
                            lemma_text_lt_transitive(seg@, cv[p as int].0, cv[b - 1].0);
                        }
                    } else if a < p && b > p {
                        assert(text_lt(cv[a].0, cv[b - 1].0));
                    } else if a > p {
                        assert(text_lt(cv[a - 1].0, cv[b - 1].0));
                    } else {
                        assert(text_lt(cv[a].0, cv[b].0));
                    }
                }
                assert forall|a: int| 0 <= a < nv.len() implies (#[trigger] nv[a]).1 == tools_in(next, nv[a].0) && nv[a].1 > 0 by {
                    if a == p {
                        assert forall|k: int| 0 <= k < pre.len() implies package_of(pre[k]) != seg@ by {
                            let t = choose|t: int| 0 <= t < cv.len() && cv[t].0 == package_of(pre[k]);
                            if package_of(pre[k]) == seg@ {
                                lemma_text_lt_irreflexive(seg@);
                                if t < p {
                                    assert(text_lt(cv[t].0, seg@));
                                } else if t > p {
                                    lemma_text_lt_asymmetric(seg@, cv[p as int].0);
                                    lemma_text_lt_total(cv[p as int].0, seg@);
                                    lemma_text_lt_transitive(seg@, cv[p as int].0, cv[t].0);
                                }
                            }
                        }
                        lemma_tools_in_absent(pre, seg@);
                    } else {
                        let a0 = if a < p { a } else { a - 1 };
                        assert(nv[a] == cv[a0]);
                        assert(cv[a0].0 != seg@) by {
                            lemma_text_lt_irreflexive(seg@);
                            if a0 < p {
                                assert(text_lt(cv[a0].0, seg@));
                            } else {
                                lemma_text_lt_total(cv[p as int].0, seg@);
                                if a0 > p {
                                    lemma_text_lt_transitive(seg@, cv[p as int].0, cv[a0].0);
                                }
                            }
                        }
                    }
                }
                assert forall|k: int| 0 <= k < next.len() implies exists|t: int| 0 <= t < nv.len() && nv[t].0 == package_of(#[trigger] next[k]) by {
                    if k < i {
                        assert(next[k] == pre[k]);
                        let t = choose|t: int| 0 <= t < cv.len() && cv[t].0 == package_of(pre[k]);
                        let t1 = if t < p { t } else { t + 1 };
                        assert(nv[t1] == cv[t]);
                    } else {
                        assert(nv[p as int].0 == seg@);
                    }
                }
                assert(counts_ok(nv, next));
            }
        }
        i += 1;
    }
    assert(ps.take(paths.len() as int) =~= ps);
    out
}

} // verus!

verus! {

// ---------------------------------------------------------------- sources

/// `str::trim_end_matches` with a text pattern: every trailing copy removed.
pub open spec fn strip_all_suffix(s: Seq<char>, p: Seq<char>) -> Seq<char>
    decreases s.len(),
{
    if p.len() > 0 && p.len() <= s.len() && s.skip(s.len() - p.len()) == p {
        strip_all_suffix(s.take(s.len() - p.len()), p)
    } else {
        s
    }
}

fn strip_all_suffix_exec(s: &[char], p: &str) -> (r: Vec<char>)
    ensures
        r@ == strip_all_suffix(s@, p@),
{
    let pc = chars_of(p);
    let mut end: usize = s.len();
    assert(s@.take(end as int) =~= s@);
    while pc.len() > 0 && pc.len() <= end && crate::text::seq_eq(
        slice_chars(s, end - pc.len(), end).as_slice(),
        pc.as_slice(),
    )
        invariant
            end <= s.len(),
            pc@ == p@,
            strip_all_suffix(s@, p@) == strip_all_suffix(s@.take(end as int), p@),
        decreases end,
    {
        proof {
            let t = s@.take(end as int);
            assert(t.skip(t.len() - p@.len()) =~= s@.subrange(end - p@.len(), end as int));
            assert(t.take(t.len() - p@.len()) =~= s@.take(end - p@.len()));
        }
        end = end - pc.len();
    }
    proof {
        let t = s@.take(end as int);
        if p@.len() > 0 && p@.len() <= t.len() {
            assert(t.skip(t.len() - p@.len()) =~= s@.subrange(end - p@.len(), end as int));
        }
    }
    slice_chars(s, 0, end)
}

/// A separator of the last part of a repository address.
pub open spec fn address_separator(c: char) -> bool {
    c == '/' || c == ':'
}

/// What follows the last `/` or `:` (the whole text when there is none).
pub open spec fn last_part(s: Seq<char>) -> Seq<char> {
    if exists|i: int| 0 <= i < s.len() && address_separator(s[i]) {
        let k = choose|i: int| 0 <= i < s.len() && address_separator(s[i]) && forall|j: int|
            i < j < s.len() ==> !address_separator(s[j]);
        s.skip(k + 1)
    } else {
        s
    }
}

/// The directory a repository is cloned into: the last part of its address
/// (trailing `/` and `.git` removed), cleaned as package names are.
pub open spec fn clone_dir(source: Seq<char>) -> Seq<char> {
    package_name_of(strip_all_suffix(last_part(crate::text::trim_end_char(source, '/')), ".git"@))
}

pub fn clone_dir_name(source: &str) -> (r: String)
    ensures
        r@ == clone_dir(source@),
{
    let t = crate::text::trim_end_char_chars(chars_of(source).as_slice(), '/');
    let mut k: usize = t.len();
    while k > 0 && !(t[k - 1] == '/' || t[k - 1] == ':')
        invariant
            k <= t.len(),
            forall|j: int| k <= j < t@.len() ==> !address_separator(#[trigger] t@[j]),
        decreases k,
    {
        k -= 1;
    }
    let part = if k > 0 {
        proof {
            let c = choose|i: int| 0 <= i < t@.len() && address_separator(t@[i]) && forall|j: int|
                i < j < t@.len() ==> !address_separator(t@[j]);
            assert(address_separator(t@[k - 1]));
            assert(!(c < k - 1));
            assert(!(c > k - 1));
        }
        slice_chars(t.as_slice(), k, t.len())
    } else {
        proof {
            assert(!(exists|i: int| 0 <= i < t@.len() && address_separator(t@[i])));
        }
        t
    };
    proof {
        if k > 0 {
            assert(part@ =~= t@.skip(k as int));
        }
    }
    let stripped = strip_all_suffix_exec(part.as_slice(), ".git");
    sanitize_name(string_of(stripped.as_slice()).as_str())
}

/// The Git command that brings a package repository up to date: a fast-forward
/// pull in an existing clone, else a shallow clone.
pub fn source_git_args(source: &str, target: &str, cloned: bool) -> (r: Vec<String>)
    ensures
        strs(r@) == if cloned {
            seq!["-C"@, target@, "pull"@, "--ff-only"@]
        } else {
            seq!["clone"@, "--depth"@, "1"@, source@, target@]
        },
{
    let mut v: Vec<String> = Vec::new();
    if cloned {
        v.push("-C".to_string());
        v.push(target.to_string());
        v.push("pull".to_string());
        v.push("--ff-only".to_string());
        assert(strs(v@) =~= seq!["-C"@, target@, "pull"@, "--ff-only"@]);
    } else {
        v.push("clone".to_string());
        v.push("--depth".to_string());
        v.push("1".to_string());
        v.push(source.to_string());
        v.push(target.to_string());
        assert(strs(v@) =~= seq!["clone"@, "--depth"@, "1"@, source@, target@]);
    }
    v
}

} // verus!
