//! Turning a conversation into a learned skill: when the user asks GQY to keep a
//! method, the answer's first substantial line names a skill directory.
use vstd::prelude::*;
use crate::text::{
    ascii_lower, char_ascii_lower, char_is_ascii_alphanumeric, char_is_ws, chars_of, contains,
    contains_str, is_ascii_alphanumeric, is_ws, lead_count, lemma_lead_count, lemma_trail_count,
    split_char, split_on_char, string_of, trail_count, trim, trim_char, trim_char_chars, trim_chars,
    trim_str,
};

verus! {

/// Whether the user message explicitly asks to keep a method or piece of knowledge.
pub open spec fn learning_signal(m: Seq<char>) -> bool {
    contains(m, "记住这个"@) || contains(m, "记下来"@) || contains(m, "记住这个方法"@) || contains(
        m,
        "记住这条"@,
    ) || contains(m, "以后就这么做"@) || contains(m, "总结成方法"@) || contains(m, "写成技能"@)
        || contains(m, "保存这个方法"@) || contains(m, "这个方法不错"@) || contains(m, "以后遇到"@)
        || contains(m, "记到记忆里"@) || contains(m, "写进知识库"@) || contains(m, "存到知识库"@)
}

pub fn wants_to_learn(user_message: &str) -> (r: bool)
    ensures
        r == learning_signal(user_message@),
{
    let m = chars_of(user_message);
    let s = m.as_slice();
    contains_str(s, "记住这个") || contains_str(s, "记下来") || contains_str(s, "记住这个方法")
        || contains_str(s, "记住这条") || contains_str(s, "以后就这么做") || contains_str(
        s,
        "总结成方法",
    ) || contains_str(s, "写成技能") || contains_str(s, "保存这个方法") || contains_str(
        s,
        "这个方法不错",
    ) || contains_str(s, "以后遇到") || contains_str(s, "记到记忆里") || contains_str(
        s,
        "写进知识库",
    ) || contains_str(s, "存到知识库")
}

/// A trimmed line long enough to name a method: six characters or more, not a
/// heading, list item or quote.
pub open spec fn title_line(l: Seq<char>) -> bool {
    l.len() >= 6 && !(l.len() > 0 && (l[0] == '#' || l[0] == '-' || l[0] == '*' || l[0] == '>'))
}

pub open spec fn default_title() -> Seq<char> {
    "对话中总结的方法"@
}

/// The method title: the first suitable trimmed line (or a default), cut to 40
/// characters.
pub open spec fn method_title_spec(text: Seq<char>) -> Seq<char> {
    let lines = split_char(text, '\n');
    let line = if exists|i: int| 0 <= i < lines.len() && title_line(trim(#[trigger] lines[i])) {
        let i = choose|i: int|
            0 <= i < lines.len() && title_line(trim(#[trigger] lines[i])) && forall|j: int|
                0 <= j < i ==> !title_line(trim(#[trigger] lines[j]));
        trim(lines[i])
    } else {
        default_title()
    };
    if line.len() <= 40 { line } else { line.take(40) }
}

fn clip_title(line: &[char]) -> (r: String)
    ensures
        r@ == (if line@.len() <= 40 { line@ } else { line@.take(40) }),
{
    if line.len() <= 40 {
        string_of(line)
    } else {
        string_of(crate::text::slice_chars(line, 0, 40).as_slice())
    }
}

pub fn method_title(assistant_message: &str) -> (r: String)
    ensures
        r@ == method_title_spec(assistant_message@),
{
    let text = chars_of(assistant_message);
    let lines = split_on_char(text.as_slice(), '\n');
    let ghost ls = split_char(assistant_message@, '\n');
    let mut i: usize = 0;
    while i < lines.len()
        invariant
            i <= lines.len(),
            lines@.len() == ls.len(),
            forall|k: int| 0 <= k < lines@.len() ==> #[trigger] lines@[k]@ == ls[k],
            forall|k: int| 0 <= k < i ==> !title_line(trim(#[trigger] ls[k])),
            ls == split_char(assistant_message@, '\n'),
        decreases lines.len() - i,
    {
        let t = trim_chars(lines[i].as_slice());
        if t.len() >= 6 && !(t[0] == '#' || t[0] == '-' || t[0] == '*' || t[0] == '>') {
            proof {
                assert(title_line(trim(ls[i as int])));
                let c = choose|c: int|
                    0 <= c < ls.len() && title_line(trim(#[trigger] ls[c])) && forall|j: int|
                        0 <= j < c ==> !title_line(trim(#[trigger] ls[j]));
                assert(!(c < i));
                assert(!(i < c));
            }
            return clip_title(t.as_slice());
        }
        i += 1;
    }
    let d = chars_of("对话中总结的方法");
    clip_title(d.as_slice())
}

/// CJK ideographs: the unified blocks, extension A, extension B and the
/// compatibility block.
pub open spec fn is_cjk(c: char) -> bool {
    let u = c as u32;
    (0x3400 <= u && u <= 0x4dbf) || (0x4e00 <= u && u <= 0x9fff) || (0xf900 <= u && u <= 0xfaff)
        || (0x20000 <= u && u <= 0x2a6df)
}

pub fn char_is_cjk(c: char) -> (r: bool)
    ensures
        r == is_cjk(c),
{
    let u = c as u32;
    (0x3400 <= u && u <= 0x4dbf) || (0x4e00 <= u && u <= 0x9fff) || (0xf900 <= u && u <= 0xfaff)
        || (0x20000 <= u && u <= 0x2a6df)
}

pub open spec fn slug_separator(c: char) -> bool {
    is_ws(c) || c == '-' || c == '_' || c == '/' || c == '：' || c == ':'
}

/// What one character contributes to a slug.
pub open spec fn slug_piece(c: char) -> Seq<char> {
    if is_ascii_alphanumeric(c) {
        seq![ascii_lower(c)]
    } else if is_cjk(c) {
        seq![c]
    } else if slug_separator(c) {
        seq!['-']
    } else {
        seq![]
    }
}

pub open spec fn slug_raw(s: Seq<char>) -> Seq<char>
    decreases s.len(),
{
    if s.len() == 0 {
        seq![]
    } else {
        slug_raw(s.drop_last()) + slug_piece(s.last())
    }
}

/// A directory-safe name for a title: its first 30 characters with ASCII letters
/// and digits lowercased, CJK kept, separators as `-`, the rest dropped, and no
/// `-` at either end.
pub open spec fn slugify_spec(text: Seq<char>) -> Seq<char> {
    let head = if text.len() <= 30 { text } else { text.take(30) };
    trim_char(slug_raw(head), '-')
}

pub fn slugify(text: &str) -> (r: String)
    ensures
        r@ == slugify_spec(text@),
{
    let t = chars_of(text);
    let n = if t.len() <= 30 { t.len() } else { 30 };
    let ghost head = if t@.len() <= 30 { t@ } else { t@.take(30) };
    assert(head == t@.take(n as int));
    let mut raw: Vec<char> = Vec::new();
    let mut i: usize = 0;
    while i < n
        invariant
            i <= n <= t.len(),
            raw@ == slug_raw(t@.take(i as int)),
        decreases n - i,
    {
        let c = t[i];
        proof {
            assert(t@.take(i + 1).drop_last() == t@.take(i as int));
            assert(t@.take(i + 1).last() == c);
        }
        if char_is_ascii_alphanumeric(c) {
            raw.push(char_ascii_lower(c));
        } else if char_is_cjk(c) {
            raw.push(c);
        } else if char_is_ws(c) || c == '-' || c == '_' || c == '/' || c == '：' || c == ':' {
            raw.push('-');
        }
        proof {
            assert(raw@ =~= slug_raw(t@.take(i + 1)));
        }
        i += 1;
    }
    let trimmed = trim_char_chars(raw.as_slice(), '-');
    string_of(trimmed.as_slice())
}

pub proof fn lemma_slug_raw_chars(s: Seq<char>)
    ensures
        forall|i: int| 0 <= i < slug_raw(s).len() ==> {
            let c = #[trigger] slug_raw(s)[i];
            (is_ascii_alphanumeric(c) && !('A' <= c && c <= 'Z')) || is_cjk(c) || c == '-'
        },
        slug_raw(s).len() <= s.len(),
    decreases s.len(),
{
    if s.len() > 0 {
        lemma_slug_raw_chars(s.drop_last());
        let prev = slug_raw(s.drop_last());
        let p = slug_piece(s.last());
        assert forall|i: int| 0 <= i < slug_raw(s).len() implies {
            let c = #[trigger] slug_raw(s)[i];
            (is_ascii_alphanumeric(c) && !('A' <= c && c <= 'Z')) || is_cjk(c) || c == '-'
        } by {
            if i < prev.len() {
                assert(slug_raw(s)[i] == prev[i]);
            } else {
                assert(slug_raw(s)[i] == p[i - prev.len()]);
            }
        }
    }
}

/// A slug holds only lowercase ASCII letters, digits, CJK ideographs and `-`,
/// never starts or ends with `-`, and has at most 30 characters.
pub proof fn lemma_slug_shape(text: Seq<char>)
    ensures
        ({
            let r = slugify_spec(text);
            &&& r.len() <= 30
            &&& forall|i: int| 0 <= i < r.len() ==> {
                let c = #[trigger] r[i];
                (is_ascii_alphanumeric(c) && !('A' <= c && c <= 'Z')) || is_cjk(c) || c == '-'
            }
            &&& r.len() > 0 ==> r[0] != '-' && r.last() != '-'
        }),
{
    let head = if text.len() <= 30 { text } else { text.take(30) };
    let raw = slug_raw(head);
    lemma_slug_raw_chars(head);
    let a = raw.skip(lead_count(raw, '-') as int);
    lemma_lead_count(raw, '-');
    lemma_trail_count(a, '-');
    let r = slugify_spec(text);
    assert(r == a.take(a.len() - trail_count(a, '-')));
    assert forall|i: int| 0 <= i < r.len() implies {
        let c = #[trigger] r[i];
        (is_ascii_alphanumeric(c) && !('A' <= c && c <= 'Z')) || is_cjk(c) || c == '-'
    } by {
        assert(r[i] == raw[i + lead_count(raw, '-')]);
    }
    if r.len() > 0 {
        assert(r[0] == raw[lead_count(raw, '-') as int]);
        assert(r.last() == a[a.len() - trail_count(a, '-') - 1]);
    }
}

/// The skill a conversation turn teaches, if it teaches one: the user asked for
/// it, the trimmed answer has at least `max(min_method_chars, 16)` characters, and
/// its title gives a non-empty slug. Returns the title and the slug.
pub fn plan_learning(user_message: &str, assistant_message: &str, min_method_chars: usize) -> (r: Option<(String, String)>)
    ensures
        ({
            let min = if min_method_chars < 16 { 16 } else { min_method_chars as int };
            let content = trim(assistant_message@);
            let title = method_title_spec(content);
            let slug = slugify_spec(title);
            if learning_signal(user_message@) && content.len() >= min && slug.len() > 0 {
                r matches Some((t, s)) && t@ == title && s@ == slug
            } else {
                r is None
            }
        }),
{
    let min = if min_method_chars < 16 { 16 } else { min_method_chars };
    if !wants_to_learn(user_message) {
        return None;
    }
    let content = trim_str(assistant_message);
    if content.len() < min {
        return None;
    }
    let content_s = string_of(content.as_slice());
    let title = method_title(content_s.as_str());
    let slug = slugify(title.as_str());
    if slug.as_str().is_empty() {
        return None;
    }
    Some((title, slug))
}

} // verus!

verus! {

/// The `SKILL.md` a learned method is written as: its title, where it came
/// from and when, then the method.
pub open spec fn skill_text(title: Seq<char>, when: Seq<char>, content: Seq<char>) -> Seq<char> {
    "# "@ + title + "\n\n> generated_by: gqy · 自动学习于 "@ + when + "\n> 来源：对话中用户要求记住的方法\n\n"@
        + content + "\n"@
}

/// The skill file for a learned method; `when` is the local time as
/// `YYYY-MM-DD HH:MM`, `content` the trimmed answer.
pub fn skill_body(title: &str, when: &str, content: &str) -> (r: String)
    ensures
        r@ == skill_text(title@, when@, content@),
{
    let mut m = chars_of("# ");
    crate::text::extend_str(&mut m, title);
    crate::text::extend_str(&mut m, "\n\n> generated_by: gqy · 自动学习于 ");
    crate::text::extend_str(&mut m, when);
    crate::text::extend_str(&mut m, "\n> 来源：对话中用户要求记住的方法\n\n");
    crate::text::extend_str(&mut m, content);
    crate::text::extend_str(&mut m, "\n");
    string_of(m.as_slice())
}

} // verus!
