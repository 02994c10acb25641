//! The `read_logs` tool: the last lines of the run log or of the activity log,
//! optionally only those that mention a word.
use vstd::prelude::*;
use crate::import_manage::text_lt;
use crate::json::{as_str, as_u64, get, json_as_str, json_as_u64, json_get, JsonNumber, JsonValue};
use crate::provider::{to_lowercase, unicode_lowercase};
use crate::text::{
    chars_of, contains, contains_chars, ends_with, has_prefix_str, has_suffix_str, lines, lines_of,
    starts_with, str_is, string_of, trim, trim_str,
};

verus! {

/// What a `read_logs` call asks for.
#[derive(Debug, Clone)]
pub struct LogRequest {
    /// Read the activity log rather than the run log.
    pub activity: bool,
    /// How many lines at most (1 to 1000, 100 by default).
    pub limit: usize,
    /// The lowercased search word, when one is given.
    pub needle: Option<String>,
}

/// Reads a `read_logs` call.
pub fn log_request(args: &JsonValue) -> (r: LogRequest)
    ensures
        r.activity == (trim(match as_str(get(*args, "kind"@)) {
            Some(k) => k,
            None => "run"@,
        }) == "activity"@),
        r.limit as nat == match as_u64(get(*args, "lines"@)) {
            Some(n) => if n < 1 {
                1
            } else if n > 1000 {
                1000
            } else {
                n
            },
            None => 100,
        },
        match r.needle {
            Some(n) => as_str(get(*args, "query"@)) matches Some(q) && trim(q).len() > 0 && n@
                == unicode_lowercase(trim(q)),
            None => !(as_str(get(*args, "query"@)) matches Some(q) && trim(q).len() > 0),
        },
{
    let kind = match json_as_str(json_get(args, "kind")) {
        Some(k) => trim_str(k),
        None => trim_str("run"),
    };
    let limit: usize = match json_as_u64(json_get(args, "lines")) {
        Some(n) => if n < 1 {
            1
        } else if n > 1000 {
            1000
        } else {
            n as usize
        },
        None => 100,
    };
    let needle = match json_as_str(json_get(args, "query")) {
        Some(q) => {
            let t = trim_str(q);
            if t.len() > 0 {
                Some(to_lowercase(string_of(t.as_slice()).as_str()))
            } else {
                None
            }
        },
        None => None,
    };
    LogRequest { activity: str_is(kind.as_slice(), "activity"), limit, needle }
}

/// A run log file: `gqy.*.log`.
pub open spec fn is_run_log(name: Seq<char>) -> bool {
    starts_with(name, "gqy."@) && ends_with(name, ".log"@)
}

/// The run log to read: the last by name of the `gqy.*.log` files (their
/// names carry the date).
pub fn latest_run_log(names: &[String]) -> (r: Option<usize>)
    ensures
        match r {
            Some(i) => i < names@.len() && is_run_log(names@[i as int]@) && forall|j: int|
                0 <= j < names@.len() && is_run_log(#[trigger] names@[j]@) ==> !text_lt(names@[i as int]@, names@[j]@),
            None => forall|j: int| 0 <= j < names@.len() ==> !is_run_log(#[trigger] names@[j]@),
        },
{
    let mut best: Option<usize> = None;
    let mut i: usize = 0;
    while i < names.len()
        invariant
            i <= names.len(),
            match best {
                Some(b) => b < i && is_run_log(names@[b as int]@) && forall|j: int|
                    0 <= j < i && is_run_log(#[trigger] names@[j]@) ==> !text_lt(names@[b as int]@, names@[j]@),
                None => forall|j: int| 0 <= j < i ==> !is_run_log(#[trigger] names@[j]@),
            },
        decreases names.len() - i,
    {
        let n = chars_of(names[i].as_str());
        if has_prefix_str(n.as_slice(), "gqy.") && has_suffix_str(n.as_slice(), ".log") {
            match best {
                Some(b) => {
                    let cur = chars_of(names[b].as_str());
                    if crate::import_manage::text_less(cur.as_slice(), n.as_slice()) {
                        proof {
                            assert forall|j: int| 0 <= j < i + 1 && is_run_log(#[trigger] names@[j]@) implies !text_lt(names@[i as int]@, names@[j]@) by {
                                if j < i {
                                    crate::import_manage::lemma_text_lt_total(names@[b as int]@, names@[j]@);
                                    if text_lt(names@[i as int]@, names@[j]@) {
                                        crate::import_manage::lemma_text_lt_transitive(names@[b as int]@, names@[i as int]@, names@[j]@);
                                    }
                                } else {
                                    crate::import_manage::lemma_text_lt_irreflexive(names@[j]@);
                                }
                            }
                        }
                        best = Some(i);
                    } else {
                        proof {
                            assert forall|j: int| 0 <= j < i + 1 && is_run_log(#[trigger] names@[j]@) implies !text_lt(names@[b as int]@, names@[j]@) by {
                                if j == i {
                                    assert(!text_lt(names@[b as int]@, names@[i as int]@));
                                }
                            }
                        }
                    }
                },
                None => {
                    proof {
                        crate::import_manage::lemma_text_lt_irreflexive(names@[i as int]@);
                    }
                    best = Some(i);
                },
            }
        }
        i += 1;
    }
    best
}

/// Whether a line is shown: there is no search word, or the lowercased line
/// holds it.
pub open spec fn line_shown(line: Seq<char>, needle: Option<Seq<char>>) -> bool {
    match needle {
        Some(n) => contains(unicode_lowercase(line), n),
        None => true,
    }
}

pub open spec fn shown_lines(ls: Seq<Seq<char>>, needle: Option<Seq<char>>) -> Seq<Seq<char>> {
    ls.filter(|l: Seq<char>| line_shown(l, needle))
}

/// The last `limit` of the shown lines, in file order.
pub open spec fn tail(ls: Seq<Seq<char>>, limit: nat) -> Seq<Seq<char>> {
    if ls.len() > limit {
        ls.skip(ls.len() - limit)
    } else {
        ls
    }
}

proof fn lemma_filter_push_line(s: Seq<Seq<char>>, x: Seq<char>, needle: Option<Seq<char>>)
    ensures
        shown_lines(s.push(x), needle) == if line_shown(x, needle) {
            shown_lines(s, needle).push(x)
        } else {
            shown_lines(s, needle)
        },
{
    assert(s.push(x).drop_last() =~= s);
    reveal(Seq::filter);
}

/// The lines of a log the tool returns, and how many lines were shown before
/// cutting to the limit.
pub fn log_tail(content: &str, needle: Option<&str>, limit: usize) -> (r: (usize, Vec<String>))
    ensures
        ({
            let nd = match needle {
                Some(n) => Some(n@),
                None => None,
            };
            let shown = shown_lines(lines(content@), nd);
            &&& r.0 == shown.len()
            &&& r.1@.map_values(|s: String| s@) == tail(shown, limit as nat)
        }),
{
    let ghost nd = match needle {
        Some(n) => Some(n@),
        None => None,
    };
    let all = lines_of(chars_of(content).as_slice());
    let ghost ls = lines(content@);
    let mut kept: Vec<String> = Vec::new();
    let mut i: usize = 0;
    while i < all.len()
        invariant
            i <= all.len(),
            all@.len() == ls.len(),
            forall|k: int| 0 <= k < all@.len() ==> #[trigger] all@[k]@ == ls[k],
            kept@.map_values(|s: String| s@) == shown_lines(ls.take(i as int), nd),
            kept@.len() <= i,
            nd == match needle {
                Some(n) => Some(n@),
                None => None,
            },
        decreases all.len() - i,
    {
        let line = string_of(all[i].as_slice());
        let show = match needle {
            Some(n) => {
                let low = chars_of(to_lowercase(line.as_str()).as_str());
                contains_chars(low.as_slice(), chars_of(n).as_slice())
            },
            None => true,
        };
        proof {
            assert(line@ == ls[i as int]);
            assert(show == line_shown(ls[i as int], nd));
            assert(ls.take(i + 1) =~= ls.take(i as int).push(ls[i as int]));
            lemma_filter_push_line(ls.take(i as int), ls[i as int], nd);
        }
        if show {
            let ghost o = kept@;
            kept.push(line);
            proof {
                assert(kept@.map_values(|s: String| s@) =~= o.map_values(|s: String| s@).push(ls[i as int]));
            }
        }
        i += 1;
    }
    assert(ls.take(all.len() as int) =~= ls);
    let total = kept.len();
    if kept.len() <= limit {
        return (total, kept);
    }
    let start = kept.len() - limit;
    let mut out: Vec<String> = Vec::new();
    let mut j: usize = start;
    while j < kept.len()
        invariant
            start <= j <= kept.len(),
            out@.map_values(|s: String| s@) == kept@.map_values(|s: String| s@).subrange(start as int, j as int),
        decreases kept.len() - j,
    {
        let ghost o = out@;
        out.push(kept[j].clone());
        proof {
            assert(out@.map_values(|s: String| s@) =~= o.map_values(|s: String| s@).push(kept@[j as int]@));
            assert(out@.map_values(|s: String| s@) =~= kept@.map_values(|s: String| s@).subrange(start as int, j + 1));
        }
        j += 1;
    }
    (total, out)
}

fn str_entry(key: &str, text: &str) -> (r: (String, JsonValue))
    ensures
        r.0@ == key@ && r.1 is String && r.1->String_0@ == text@,
{
    (key.to_string(), JsonValue::String(text.to_string()))
}

/// What `read_logs` answers: the file and its lines, and how many lines matched
/// when the file could be read.
pub fn log_reply(file: &str, total: Option<usize>, lines: Vec<String>) -> (r: JsonValue)
    ensures
        r is Object && {
            let es = r->Object_0@;
            &&& es[0].0@ == "ok"@ && es[0].1 == JsonValue::Bool(true)
            &&& es[1].0@ == "file"@ && es[1].1 is String && es[1].1->String_0@ == file@
            &&& match total {
                Some(t) => es.len() == 4 && es[2].0@ == "total"@ && es[2].1 == JsonValue::Number(
                    JsonNumber::PosInt(t as u64),
                ) && es[3].0@ == "lines"@ && es[3].1 is Array && es[3].1->Array_0@.len() == lines@.len()
                    && forall|k: int| 0 <= k < lines@.len() ==> (#[trigger] es[3].1->Array_0@[k]) is String
                    && es[3].1->Array_0@[k]->String_0@ == lines@[k]@,
                None => es.len() == 3 && es[2].0@ == "lines"@ && es[2].1 is Array && es[2].1->Array_0@.len() == lines@.len()
                    && forall|k: int| 0 <= k < lines@.len() ==> (#[trigger] es[2].1->Array_0@[k]) is String
                    && es[2].1->Array_0@[k]->String_0@ == lines@[k]@,
            }
        },
{
    let mut items: Vec<JsonValue> = Vec::new();
    let mut i: usize = 0;
    while i < lines.len()
        invariant
            i <= lines.len(),
            items@.len() == i,
            forall|k: int| 0 <= k < i ==> (#[trigger] items@[k]) is String && items@[k]->String_0@ == lines@[k]@,
        decreases lines.len() - i,
    {
        items.push(JsonValue::String(lines[i].clone()));
        i += 1;
    }
    let mut es: Vec<(String, JsonValue)> = Vec::new();
    es.push(("ok".to_string(), JsonValue::Bool(true)));
    es.push(str_entry("file", file));
    match total {
        Some(t) => es.push(("total".to_string(), JsonValue::Number(JsonNumber::PosInt(t as u64)))),
        None => {},
    }
    es.push(("lines".to_string(), JsonValue::Array(items)));
    JsonValue::Object(es)
}

} // verus!
