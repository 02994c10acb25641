//! The bash hook: a `command_not_found_handle` that hands natural language to
//! GQY, and the marked block in `.bashrc` that sources it. Writing the files is
//! the caller's.
use vstd::prelude::*;
use crate::text::{chars_of, contains, contains_str, ends_with, extend_chars, extend_str, find, has_char, is_first_occurrence, occurs_at, slice_chars, string_of};

verus! {

/// The line that opens GQY's block in `.bashrc`.
pub const BEGIN_MARKER: &'static str = "# >>> gqy bash hook >>>";

/// The line that closes it.
pub const END_MARKER: &'static str = "# <<< gqy bash hook <<<";

/// The hook script: commands bash cannot find are classified by GQY, and
/// natural language (including multi-line blocks entered at once) is handed
/// to it; obvious commands fall through to bash's own error.
pub const HOOK_SCRIPT: &'static str = r#"# 拦截「命令未找到」：明显是命令/拼写错误 → 交给系统报错；自然语言 → 交给 GQY。
command_not_found_handle() {
    [[ $- == *i* ]] || return 127

    local text="$*"
    [[ -n "$text" ]] || return 127
    [[ "$text" != *$'\n'* && "$text" != *$'\r'* ]] || return 127

    # 明显是命令（含路径/内置命令/环境变量前缀）→ 系统报错，不打扰 GQY
    gqy --shell-classify --shell bash -- "$@" 2>/dev/null && return 127

    gqy --shell-intercept --shell bash -- "$@" 2>/dev/null
    return 127
}

# ---- 多行自然语言：Enter 时整块交给 GQY（bind -x 读取 READLINE_LINE） ----
__gqy_pending_buffer=""

# 缓冲内是否含「未知命令」行：有则视为自然语言块，交给 GQY
__gqy_multiline_has_unknown() {
    local buffer="$1" line token
    while IFS= read -r line; do
        line="${line#"${line%%[![:space:]]*}"}"
        [[ -n "$line" ]] || continue
        [[ "$line" != \#* ]] || continue
        # 跳过 env 赋值前缀（VAR=... cmd）
        while [[ "$line" =~ ^[A-Za-z_][A-Za-z0-9_]*= ]]; do
            line="${line#*=}"
            line="${line#"${line%%[![:space:]]*}"}"
        done
        token="${line%%[[:space:]]*}"
        [[ -n "$token" ]] || continue
        if ! command -v "$token" >/dev/null 2>&1 && ! type -t "$token" >/dev/null 2>&1; then
            return 0
        fi
    done <<< "$buffer"
    return 1
}

__gqy_enter() {
    local buffer="${READLINE_LINE:-}"
    if [[ -n "$buffer" && "$buffer" == *$'\n'* ]] && __gqy_multiline_has_unknown "$buffer"; then
        # 整块交给 GQY：清空行缓冲，下一提示符发送
        __gqy_pending_buffer="$buffer"
        READLINE_LINE=""
        READLINE_POINT=0
    fi
}
if [[ $- == *i* ]]; then
    bind -x '"\C-m": __gqy_enter' 2>/dev/null || true
fi

__gqy_prompt() {
    if [[ -n "$__gqy_pending_buffer" ]]; then
        local buffer="$__gqy_pending_buffer"
        __gqy_pending_buffer=""
        printf '\033[31m%s\033[0m\n' "$buffer"
        printf '%s' "$buffer" | gqy --shell-intercept --shell bash --stdin 2>/dev/null
    fi
}
if [[ -z "${__gqy_prompt_hooked:-}" ]]; then
    __gqy_prompt_hooked=1
    PROMPT_COMMAND="__gqy_prompt${PROMPT_COMMAND:+; $PROMPT_COMMAND}"
fi
"#;

pub fn hook() -> (r: &'static str)
    ensures
        r@ == HOOK_SCRIPT@,
{
    HOOK_SCRIPT
}

/// What to append to an rc file to source the hook, given the file's text and
/// the `source` line: nothing when the block is already there; else the block
/// (begin marker, source line, end marker, one per line), after a line break
/// when the text does not end with one.
pub open spec fn block_to_append(existing: Seq<char>, begin: Seq<char>, end: Seq<char>, source_line: Seq<char>) -> Option<Seq<char>> {
    if contains(existing, begin) && contains(existing, end) {
        None
    } else {
        let lead = if existing.len() > 0 && existing.last() != '\n' { seq!['\n'] } else { seq![] };
        Some(lead + begin + seq!['\n'] + source_line + seq!['\n'] + end + seq!['\n'])
    }
}

pub fn append_source_block(existing: &str, begin: &str, end: &str, source_line: &str) -> (r: Option<String>)
    ensures
        match r {
            Some(s) => block_to_append(existing@, begin@, end@, source_line@) == Some(s@),
            None => block_to_append(existing@, begin@, end@, source_line@) is None,
        },
{
    let e = chars_of(existing);
    if contains_str(e.as_slice(), begin) && contains_str(e.as_slice(), end) {
        return None;
    }
    let mut out: Vec<char> = Vec::new();
    if e.len() > 0 && e[e.len() - 1] != '\n' {
        out.push('\n');
    }
    extend_str(&mut out, begin);
    out.push('\n');
    extend_str(&mut out, source_line);
    out.push('\n');
    extend_str(&mut out, end);
    out.push('\n');
    Some(string_of(out.as_slice()))
}

/// The rc text without GQY's block: from the first begin marker to the first
/// end marker after it, with the line break (`\n` or `\r\n`) that follows;
/// none when there is no such block.
pub open spec fn without_block(existing: Seq<char>, begin: Seq<char>, end: Seq<char>) -> Option<Seq<char>> {
    if !contains(existing, begin) {
        None
    } else {
        let b = choose|i: int| is_first_occurrence(existing, begin, i);
        let rest = existing.skip(b);
        if !contains(rest, end) {
            None
        } else {
            let e = choose|i: int| is_first_occurrence(rest, end, i);
            let stop0 = b + e + end.len();
            let stop1 = if stop0 < existing.len() && existing[stop0] == '\r' { stop0 + 1 } else { stop0 };
            let stop = if stop1 < existing.len() && existing[stop1] == '\n' { stop1 + 1 } else { stop1 };
            Some(existing.take(b) + existing.skip(stop))
        }
    }
}

pub fn remove_source_block(existing: &str, begin: &str, end: &str) -> (r: Option<String>)
    ensures
        match r {
            Some(s) => without_block(existing@, begin@, end@) == Some(s@),
            None => without_block(existing@, begin@, end@) is None,
        },
{
    let e = chars_of(existing);
    let bv = chars_of(begin);
    let ev = chars_of(end);
    let b = match find(e.as_slice(), bv.as_slice()) {
        Some(i) => i,
        None => { return None; },
    };
    proof {
        let c = choose|i: int| is_first_occurrence(existing@, begin@, i);
        assert(is_first_occurrence(existing@, begin@, b as int));
        assert(!(c < b));
        assert(!(b < c));
    }
    let rest = slice_chars(e.as_slice(), b, e.len());
    assert(rest@ =~= existing@.skip(b as int));
    let rel = match find(rest.as_slice(), ev.as_slice()) {
        Some(i) => i,
        None => { return None; },
    };
    proof {
        let c = choose|i: int| is_first_occurrence(rest@, end@, i);
        assert(is_first_occurrence(rest@, end@, rel as int));
        assert(!(c < rel));
        assert(!(rel < c));
    }
    let mut stop = b + rel + ev.len();
    if stop < e.len() && e[stop] == '\r' {
        stop += 1;
    }
    if stop < e.len() && e[stop] == '\n' {
        stop += 1;
    }
    let mut out = slice_chars(e.as_slice(), 0, b);
    let tail = slice_chars(e.as_slice(), stop, e.len());
    extend_chars(&mut out, tail.as_slice());
    Some(string_of(out.as_slice()))
}

/// An occurrence of a one-line pattern never spans a line break.
proof fn lemma_no_span(s: Seq<char>, p: Seq<char>, j: int, nl: int)
    requires
        occurs_at(s, p, j),
        !has_char(p, '\n'),
        0 <= nl < s.len(),
        s[nl] == '\n',
    ensures
        !(j <= nl < j + p.len()),
{
    if j <= nl < j + p.len() {
        assert(s.subrange(j, j + p.len())[nl - j] == s[nl]);
        assert(p[nl - j] == '\n');
    }
}

proof fn lemma_first_is_chosen(s: Seq<char>, p: Seq<char>, i: int)
    requires
        is_first_occurrence(s, p, i),
    ensures
        contains(s, p),
        (choose|x: int| is_first_occurrence(s, p, x)) == i,
{
    assert(occurs_at(s, p, i));
    let x = choose|x: int| is_first_occurrence(s, p, x);
    if x < i {
        assert(!occurs_at(s, p, x));
    }
    if x > i {
        assert(!occurs_at(s, p, i));
    }
}

proof fn lemma_begin_first(existing: Seq<char>, begin: Seq<char>, blk: Seq<char>)
    requires
        begin.len() > 0,
        !has_char(begin, '\n'),
        existing.len() == 0 || existing.last() == '\n',
        !contains(existing, begin),
        begin.len() <= blk.len(),
        blk.take(begin.len() as int) == begin,
    ensures
        is_first_occurrence(existing + blk, begin, existing.len() as int),
{
    let t = existing + blk;
    let l = existing.len() as int;
    assert(t.subrange(l, l + begin.len()) =~= blk.take(begin.len() as int));
    assert forall|j: int| 0 <= j < l implies !occurs_at(t, begin, j) by {
        if occurs_at(t, begin, j) {
            if j + begin.len() <= l {
                assert(existing.subrange(j, j + begin.len()) =~= t.subrange(j, j + begin.len()));
                assert(occurs_at(existing, begin, j));
            } else {
                assert(t[l - 1] == existing.last());
                lemma_no_span(t, begin, j, l - 1);
            }
        }
    }
}

proof fn lemma_end_first(begin: Seq<char>, source_line: Seq<char>, end: Seq<char>)
    requires
        end.len() > 0,
        !has_char(end, '\n'),
        !contains(begin, end),
        !contains(source_line, end),
    ensures
        is_first_occurrence(
            begin + seq!['\n'] + source_line + seq!['\n'] + end + seq!['\n'],
            end,
            (begin.len() + 1 + source_line.len() + 1) as int,
        ),
{
    let blk = begin + seq!['\n'] + source_line + seq!['\n'] + end + seq!['\n'];
    let p1 = begin.len() as int;
    let p2 = p1 + 1 + source_line.len();
    let k = p2 + 1;
    assert(blk[p1] == '\n');
    assert(blk[p2] == '\n');
    assert(blk.subrange(k, k + end.len()) =~= end);
    assert forall|j: int| 0 <= j < k implies !occurs_at(blk, end, j) by {
        if occurs_at(blk, end, j) {
            lemma_no_span(blk, end, j, p1);
            lemma_no_span(blk, end, j, p2);
            if j + end.len() <= p1 {
                assert(begin.subrange(j, j + end.len()) =~= blk.subrange(j, j + end.len()));
                assert(occurs_at(begin, end, j));
            } else {
                assert(source_line.subrange(j - p1 - 1, j - p1 - 1 + end.len()) =~= blk.subrange(
                    j,
                    j + end.len(),
                ));
                assert(occurs_at(source_line, end, j - p1 - 1));
            }
        }
    }
}

/// Installing the hook and uninstalling it gives the rc file back: when the
/// file is empty or ends with a line break and holds no begin marker, and the
/// markers are single lines that neither the other marker nor the source line
/// contains, removing the block that was appended leaves the file as it was,
/// and removing again finds no block.
pub proof fn lemma_install_then_uninstall(existing: Seq<char>, begin: Seq<char>, end: Seq<char>, source_line: Seq<char>)
    requires
        begin.len() > 0,
        end.len() > 0,
        !has_char(begin, '\n'),
        !has_char(end, '\n'),
        existing.len() == 0 || existing.last() == '\n',
        !contains(existing, begin),
        !contains(begin, end),
        !contains(source_line, end),
    ensures
        block_to_append(existing, begin, end, source_line) matches Some(block) && without_block(
            existing + block,
            begin,
            end,
        ) == Some(existing),
        without_block(existing, begin, end) is None,
{
    let blk = begin + seq!['\n'] + source_line + seq!['\n'] + end + seq!['\n'];
    let lead: Seq<char> = if existing.len() > 0 && existing.last() != '\n' { seq!['\n'] } else { seq![] };
    assert(lead =~= Seq::<char>::empty());
    assert(lead + begin + seq!['\n'] + source_line + seq!['\n'] + end + seq!['\n'] =~= blk);
    let t = existing + blk;
    let l = existing.len() as int;
    assert(blk.take(begin.len() as int) =~= begin);
    lemma_begin_first(existing, begin, blk);
    lemma_first_is_chosen(t, begin, l);
    let rest = t.skip(l);
    assert(rest =~= blk);
    let k = (begin.len() + 1 + source_line.len() + 1) as int;
    lemma_end_first(begin, source_line, end);
    lemma_first_is_chosen(rest, end, k);
    let stop0 = l + k + end.len();
    assert(stop0 == t.len() - 1);
    assert(t[stop0] == '\n');
    assert(t.take(l) + t.skip(t.len() as int) =~= existing);
}

} // verus!
