//! JSON values as plain data, for the logic that reads events and writes
//! property lists; turning text into these values and back is the caller's.
use vstd::prelude::*;
use crate::numbers::{decimal, i64_decimal, signed_decimal, u64_decimal};
use crate::text::{chars_of, extend_chars, extend_str, seq_eq};

verus! {

/// A JSON number: a non-negative integer, a negative one, or any other number
/// kept in the text form it is written in.
#[derive(Debug, Clone)]
pub enum JsonNumber {
    PosInt(u64),
    NegInt(i64),
    Float(String),
}

/// A JSON value; an object keeps its members in order.
#[derive(Debug)]
pub enum JsonValue {
    Null,
    Bool(bool),
    Number(JsonNumber),
    String(String),
    Array(Vec<JsonValue>),
    Object(Vec<(String, JsonValue)>),
}

/// The value of the first member with this key.
pub open spec fn member(entries: Seq<(String, JsonValue)>, key: Seq<char>) -> Option<JsonValue>
    decreases entries.len(),
{
    if entries.len() == 0 {
        None
    } else if entries[0].0@ == key {
        Some(entries[0].1)
    } else {
        member(entries.drop_first(), key)
    }
}

/// `Value::get` with a key: the member of an object.
pub open spec fn get(v: JsonValue, key: Seq<char>) -> Option<JsonValue> {
    match v {
        JsonValue::Object(entries) => member(entries@, key),
        _ => None,
    }
}

/// `get` on an optional value.
pub open spec fn get_opt(v: Option<JsonValue>, key: Seq<char>) -> Option<JsonValue> {
    match v {
        Some(x) => get(x, key),
        None => None,
    }
}

/// `Value::as_str`.
pub open spec fn as_str(v: Option<JsonValue>) -> Option<Seq<char>> {
    match v {
        Some(JsonValue::String(s)) => Some(s@),
        _ => None,
    }
}

/// `Value::as_i64`: an integer that fits.
pub open spec fn as_i64(v: Option<JsonValue>) -> Option<int> {
    match v {
        Some(JsonValue::Number(JsonNumber::PosInt(u))) => if u <= i64::MAX {
            Some(u as int)
        } else {
            None
        },
        Some(JsonValue::Number(JsonNumber::NegInt(i))) => Some(i as int),
        _ => None,
    }
}

/// `Value::as_u64`: a non-negative integer.
pub open spec fn as_u64(v: Option<JsonValue>) -> Option<nat> {
    match v {
        Some(JsonValue::Number(JsonNumber::PosInt(u))) => Some(u as nat),
        _ => None,
    }
}

/// `Value::as_bool`.
pub open spec fn as_bool(v: Option<JsonValue>) -> Option<bool> {
    match v {
        Some(JsonValue::Bool(b)) => Some(b),
        _ => None,
    }
}

pub fn json_as_bool(v: Option<&JsonValue>) -> (r: Option<bool>)
    ensures
        r == as_bool(deref_opt(v)),
{
    match v {
        Some(JsonValue::Bool(b)) => Some(*b),
        _ => None,
    }
}

/// Takes the first member with this key out of an object.
pub fn take_member(v: JsonValue, key: &str) -> (r: Option<JsonValue>)
    ensures
        r == get(v, key@),
{
    let ghost vv = v;
    match v {
        JsonValue::Object(entries) => {
            let mut entries = entries;
            let ghost orig = entries@;
            assert(get(vv, key@) == member(orig, key@));
            let k = chars_of(key);
            let mut i: usize = 0;
            assert(orig.skip(0) =~= orig);
            while i < entries.len()
                invariant
                    i <= entries.len(),
                    entries@ == orig,
                    k@ == key@,
                    get(vv, key@) == member(orig, key@),
                    vv == v,
                    member(orig, key@) == member(orig.skip(i as int), key@),
                decreases entries.len() - i,
            {
                proof {
                    assert(orig.skip(i as int)[0] == orig[i as int]);
                    assert(orig.skip(i as int).drop_first() =~= orig.skip(i + 1));
                }
                let name = chars_of(entries[i].0.as_str());
                if seq_eq(name.as_slice(), k.as_slice()) {
                    let (_, value) = entries.remove(i);
                    return Some(value);
                }
                i += 1;
            }
            None
        },
        _ => None,
    }
}

pub fn json_get<'a>(v: &'a JsonValue, key: &str) -> (r: Option<&'a JsonValue>)
    ensures
        match r {
            Some(x) => get(*v, key@) == Some(*x),
            None => get(*v, key@) is None,
        },
{
    match v {
        JsonValue::Object(entries) => {
            let k = chars_of(key);
            let mut i: usize = 0;
            assert(entries@.skip(0) =~= entries@);
            while i < entries.len()
                invariant
                    i <= entries.len(),
                    *v == JsonValue::Object(*entries),
                    k@ == key@,
                    member(entries@, key@) == member(entries@.skip(i as int), key@),
                decreases entries.len() - i,
            {
                proof {
                    assert(entries@.skip(i as int)[0] == entries@[i as int]);
                    assert(entries@.skip(i as int).drop_first() =~= entries@.skip(i + 1));
                }
                let name = chars_of(entries[i].0.as_str());
                if seq_eq(name.as_slice(), k.as_slice()) {
                    return Some(&entries[i].1);
                }
                i += 1;
            }
            None
        },
        _ => None,
    }
}

pub fn json_get_opt<'a>(v: Option<&'a JsonValue>, key: &str) -> (r: Option<&'a JsonValue>)
    ensures
        match r {
            Some(x) => get_opt(
                match v {
                    Some(y) => Some(*y),
                    None => None,
                },
                key@,
            ) == Some(*x),
            None => get_opt(
                match v {
                    Some(y) => Some(*y),
                    None => None,
                },
                key@,
            ) is None,
        },
{
    match v {
        Some(x) => json_get(x, key),
        None => None,
    }
}

pub open spec fn deref_opt(v: Option<&JsonValue>) -> Option<JsonValue> {
    match v {
        Some(x) => Some(*x),
        None => None,
    }
}

pub fn json_as_str(v: Option<&JsonValue>) -> (r: Option<&str>)
    ensures
        match r {
            Some(s) => as_str(deref_opt(v)) == Some(s@),
            None => as_str(deref_opt(v)) is None,
        },
{
    match v {
        Some(JsonValue::String(s)) => Some(s.as_str()),
        _ => None,
    }
}

pub fn json_as_i64(v: Option<&JsonValue>) -> (r: Option<i64>)
    ensures
        match r {
            Some(i) => as_i64(deref_opt(v)) == Some(i as int),
            None => as_i64(deref_opt(v)) is None,
        },
{
    match v {
        Some(JsonValue::Number(JsonNumber::PosInt(u))) => if *u <= 0x7fff_ffff_ffff_ffff {
            Some(*u as i64)
        } else {
            None
        },
        Some(JsonValue::Number(JsonNumber::NegInt(i))) => Some(*i),
        _ => None,
    }
}

pub fn json_as_u64(v: Option<&JsonValue>) -> (r: Option<u64>)
    ensures
        match r {
            Some(u) => as_u64(deref_opt(v)) == Some(u as nat),
            None => as_u64(deref_opt(v)) is None,
        },
{
    match v {
        Some(JsonValue::Number(JsonNumber::PosInt(u))) => Some(*u),
        _ => None,
    }
}

// ---------------------------------------------------------------- property lists

/// What `xml_escape` makes of one character.
pub open spec fn escaped_char(c: char) -> Seq<char> {
    if c == '&' {
        "&amp;"@
    } else if c == '<' {
        "&lt;"@
    } else if c == '>' {
        "&gt;"@
    } else {
        seq![c]
    }
}

/// `&`, `<` and `>` as XML entities.
pub open spec fn xml_escaped(s: Seq<char>) -> Seq<char>
    decreases s.len(),
{
    if s.len() == 0 {
        seq![]
    } else {
        xml_escaped(s.drop_last()) + escaped_char(s.last())
    }
}

pub fn xml_escape(text: &str) -> (r: String)
    ensures
        r@ == xml_escaped(text@),
{
    let t = chars_of(text);
    let mut out: Vec<char> = Vec::new();
    let mut i: usize = 0;
    while i < t.len()
        invariant
            i <= t.len(),
            t@ == text@,
            out@ == xml_escaped(t@.take(i as int)),
        decreases t.len() - i,
    {
        let c = t[i];
        proof {
            assert(t@.take(i + 1).drop_last() =~= t@.take(i as int));
            assert(t@.take(i + 1).last() == c);
        }
        if c == '&' {
            extend_str(&mut out, "&amp;");
        } else if c == '<' {
            extend_str(&mut out, "&lt;");
        } else if c == '>' {
            extend_str(&mut out, "&gt;");
        } else {
            out.push(c);
        }
        i += 1;
    }
    assert(t@.take(t.len() as int) =~= t@);
    crate::text::string_of(out.as_slice())
}

/// A number as JSON writes it.
pub open spec fn number_text(n: JsonNumber) -> Seq<char> {
    match n {
        JsonNumber::PosInt(u) => decimal(u as nat),
        JsonNumber::NegInt(i) => signed_decimal(i as int),
        JsonNumber::Float(t) => t@,
    }
}

/// The property-list XML of a value at indentation `ind`: dictionaries (keys
/// one step further in), arrays, strings (escaped), booleans and integers;
/// `null` has no property-list form.
pub open spec fn plist_value(v: JsonValue, ind: Seq<char>) -> Option<Seq<char>>
    decreases v, 1nat, 0int,
{
    match v {
        JsonValue::Object(entries) => match plist_members(v, ind, entries@.len() as int) {
            Some(body) => Some(ind + "<dict>\n"@ + body + ind + "</dict>\n"@),
            None => None,
        },
        JsonValue::Array(items) => match plist_items(v, ind, items@.len() as int) {
            Some(body) => Some(ind + "<array>\n"@ + body + ind + "</array>\n"@),
            None => None,
        },
        JsonValue::String(s) => Some(ind + "<string>"@ + xml_escaped(s@) + "</string>\n"@),
        JsonValue::Bool(b) => Some(ind + "<"@ + (if b { "true"@ } else { "false"@ }) + " />\n"@),
        JsonValue::Number(n) => Some(ind + "<integer>"@ + number_text(n) + "</integer>\n"@),
        JsonValue::Null => None,
    }
}

/// The first `k` members of an object, each as its key line (the key
/// escaped) and its value.
pub open spec fn plist_members(v: JsonValue, ind: Seq<char>, k: int) -> Option<Seq<char>>
    decreases v, 0nat, k,
{
    if v is Object && 0 < k <= v->Object_0@.len() {
        let entries = v->Object_0;
        proof {
            assert(decreases_to!(v => entries));
            assert(decreases_to!(entries => entries@));
            assert(decreases_to!(entries@ => entries@[k - 1]));
            assert(decreases_to!(entries@[k - 1] => entries@[k - 1].1));
        }
        match (plist_members(v, ind, k - 1), plist_value(entries@[k - 1].1, ind + "    "@)) {
            (Some(prev), Some(x)) => Some(
                prev + "    "@ + ind + "<key>"@ + xml_escaped(entries@[k - 1].0@) + "</key>\n"@ + x,
            ),
            _ => None,
        }
    } else {
        Some(seq![])
    }
}

/// The first `k` items of an array.
pub open spec fn plist_items(v: JsonValue, ind: Seq<char>, k: int) -> Option<Seq<char>>
    decreases v, 0nat, k,
{
    if v is Array && 0 < k <= v->Array_0@.len() {
        let items = v->Array_0;
        proof {
            assert(decreases_to!(v => items));
            assert(decreases_to!(items => items@));
            assert(decreases_to!(items@ => items@[k - 1]));
        }
        match (plist_items(v, ind, k - 1), plist_value(items@[k - 1], ind + "    "@)) {
            (Some(prev), Some(x)) => Some(prev + x),
            _ => None,
        }
    } else {
        Some(seq![])
    }
}

proof fn lemma_members_none_persists(v: JsonValue, ind: Seq<char>, k: int, j: int)
    requires
        v is Object,
        0 < k <= j <= v->Object_0@.len(),
        plist_members(v, ind, k) is None,
    ensures
        plist_members(v, ind, j) is None,
    decreases j - k,
{
    if k < j {
        lemma_members_none_persists(v, ind, k, j - 1);
    }
}

proof fn lemma_items_none_persists(v: JsonValue, ind: Seq<char>, k: int, j: int)
    requires
        v is Array,
        0 < k <= j <= v->Array_0@.len(),
        plist_items(v, ind, k) is None,
    ensures
        plist_items(v, ind, j) is None,
    decreases j - k,
{
    if k < j {
        lemma_items_none_persists(v, ind, k, j - 1);
    }
}

fn number_text_exec(n: &JsonNumber) -> (r: Vec<char>)
    ensures
        r@ == number_text(*n),
{
    match n {
        JsonNumber::PosInt(u) => u64_decimal(*u),
        JsonNumber::NegInt(i) => i64_decimal(*i),
        JsonNumber::Float(t) => chars_of(t.as_str()),
    }
}

fn plist_value_exec(v: &JsonValue, ind: &Vec<char>) -> (r: Option<Vec<char>>)
    ensures
        match r {
            Some(x) => plist_value(*v, ind@) == Some(x@),
            None => plist_value(*v, ind@) is None,
        },
    decreases *v, 1nat, 0int,
{
    match v {
        JsonValue::Object(entries) => {
            let mut inner = ind.clone();
            extend_str(&mut inner, "    ");
            assert(inner@ == ind@ + "    "@);
            let mut body: Vec<char> = Vec::new();
            let mut k: usize = 0;
            while k < entries.len()
                invariant
                    k <= entries.len(),
                    *v == JsonValue::Object(*entries),
                    inner@ == ind@ + "    "@,
                    plist_members(*v, ind@, k as int) == Some(body@),
                decreases entries.len() - k,
            {
                proof {
                    assert(decreases_to!(*v => *entries));
                    assert(decreases_to!(*entries => entries@));
                    assert(decreases_to!(entries@ => entries@[k as int]));
                    assert(decreases_to!(entries@[k as int] => entries@[k as int].1));
                }
                match plist_value_exec(&entries[k].1, &inner) {
                    Some(x) => {
                        extend_str(&mut body, "    ");
                        extend_chars(&mut body, ind.as_slice());
                        extend_str(&mut body, "<key>");
                        let ke = xml_escape(entries[k].0.as_str());
                        extend_str(&mut body, ke.as_str());
                        extend_str(&mut body, "</key>\n");
                        extend_chars(&mut body, x.as_slice());
                    },
                    None => {
                        proof {
                            lemma_members_none_persists(*v, ind@, k + 1, entries@.len() as int);
                        }
                        return None;
                    },
                }
                k += 1;
            }
            let mut out = ind.clone();
            extend_str(&mut out, "<dict>\n");
            extend_chars(&mut out, body.as_slice());
            extend_chars(&mut out, ind.as_slice());
            extend_str(&mut out, "</dict>\n");
            Some(out)
        },
        JsonValue::Array(items) => {
            let mut inner = ind.clone();
            extend_str(&mut inner, "    ");
            assert(inner@ == ind@ + "    "@);
            let mut body: Vec<char> = Vec::new();
            let mut k: usize = 0;
            while k < items.len()
                invariant
                    k <= items.len(),
                    *v == JsonValue::Array(*items),
                    inner@ == ind@ + "    "@,
                    plist_items(*v, ind@, k as int) == Some(body@),
                decreases items.len() - k,
            {
                proof {
                    assert(decreases_to!(*v => *items));
                    assert(decreases_to!(*items => items@));
                    assert(decreases_to!(items@ => items@[k as int]));
                }
                match plist_value_exec(&items[k], &inner) {
                    Some(x) => {
                        extend_chars(&mut body, x.as_slice());
                    },
                    None => {
                        proof {
                            lemma_items_none_persists(*v, ind@, k + 1, items@.len() as int);
                        }
                        return None;
                    },
                }
                k += 1;
            }
            let mut out = ind.clone();
            extend_str(&mut out, "<array>\n");
            extend_chars(&mut out, body.as_slice());
            extend_chars(&mut out, ind.as_slice());
            extend_str(&mut out, "</array>\n");
            Some(out)
        },
        JsonValue::String(s) => {
            let mut out = ind.clone();
            extend_str(&mut out, "<string>");
            let e = xml_escape(s.as_str());
            extend_str(&mut out, e.as_str());
            extend_str(&mut out, "</string>\n");
            Some(out)
        },
        JsonValue::Bool(b) => {
            let mut out = ind.clone();
            extend_str(&mut out, "<");
            extend_str(
                &mut out,
                if *b {
                    "true"
                } else {
                    "false"
                },
            );
            extend_str(&mut out, " />\n");
            Some(out)
        },
        JsonValue::Number(n) => {
            let mut out = ind.clone();
            extend_str(&mut out, "<integer>");
            let t = number_text_exec(n);
            extend_chars(&mut out, t.as_slice());
            extend_str(&mut out, "</integer>\n");
            Some(out)
        },
        JsonValue::Null => None,
    }
}

/// The XML declaration and doctype that open a property list.
pub open spec fn plist_header() -> Seq<char> {
    "<?xml version=\"1.0\" encoding=\"UTF-8\"?>\n<!DOCTYPE plist PUBLIC \"-//Apple//DTD PLIST 1.0//EN\" \"http://www.apple.com/DTDs/PropertyList-1.0.dtd\">\n<plist version=\"1.0\">\n"@
}

/// A LaunchAgent property list for a value; none when the value holds a
/// `null`.
pub fn plist_to_xml(value: &JsonValue) -> (r: Option<String>)
    ensures
        match r {
            Some(x) => plist_value(*value, "    "@) matches Some(body) && x@ == plist_header() + body
                + "</plist>\n"@,
            None => plist_value(*value, "    "@) is None,
        },
{
    let ind = chars_of("    ");
    match plist_value_exec(value, &ind) {
        Some(body) => {
            let mut out = chars_of(
                "<?xml version=\"1.0\" encoding=\"UTF-8\"?>\n<!DOCTYPE plist PUBLIC \"-//Apple//DTD PLIST 1.0//EN\" \"http://www.apple.com/DTDs/PropertyList-1.0.dtd\">\n<plist version=\"1.0\">\n",
            );
            extend_chars(&mut out, body.as_slice());
            extend_str(&mut out, "</plist>\n");
            Some(crate::text::string_of(out.as_slice()))
        },
        None => None,
    }
}

} // verus!
