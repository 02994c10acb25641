//! Rules of the QQ (OneBot) bridge: per-user rate limiting, reply splitting,
//! connection authorization and trigger keywords.
use vstd::prelude::*;
use sha2::Digest;
use std::collections::HashMap;
use crate::text::{
    chars_of, contains, contains_str, extend_chars, find, has_prefix_str, has_suffix_str,
    is_first_occurrence, slice_chars, split_char, split_on_char, starts_with, ends_with,
    string_of, trim, trim_chars, contains_chars,
};

verus! {

broadcast use vstd::std_specs::hash::group_hash_axioms;

// ---------------------------------------------------------------- rate limiting

/// In-memory rate limiting: each user may send at most `max_messages` messages
/// per window of `window_seconds` (0 messages = unlimited).
pub struct RateLimiter {
    /// user id -> (window start, messages counted in the window)
    buckets: HashMap<i64, (i64, u32)>,
    max_messages: u32,
    window_seconds: u32,
}

impl RateLimiter {
    pub closed spec fn buckets(&self) -> Map<i64, (i64, u32)> {
        self.buckets@
    }

    pub closed spec fn max_messages(&self) -> u32 {
        self.max_messages
    }

    pub closed spec fn window_seconds(&self) -> u32 {
        self.window_seconds
    }

    /// The effective window: at least one second.
    pub open spec fn window(&self) -> int {
        if self.window_seconds() == 0 { 1 } else { self.window_seconds() as int }
    }

    /// Every counted window holds between one and `max_messages` messages.
    pub open spec fn wf(&self) -> bool {
        self.max_messages() > 0 ==> forall|u: i64|
            #[trigger] self.buckets().contains_key(u) ==> 1 <= self.buckets()[u].1 <= self.max_messages()
    }

    pub fn new(max_messages: u32, window_seconds: u32) -> (r: RateLimiter)
        ensures
            r.buckets() == Map::<i64, (i64, u32)>::empty(),
            r.max_messages() == max_messages,
            r.window_seconds() == window_seconds,
            r.wf(),
    {
        RateLimiter { buckets: HashMap::new(), max_messages, window_seconds }
    }

    /// Whether a message from `user_id` at `now_secs` is allowed; an allowed
    /// message is counted.
    pub fn allow(&mut self, user_id: i64, now_secs: i64) -> (r: bool)
        requires
            old(self).buckets().contains_key(user_id) ==> i64::MIN <= now_secs - old(
                self,
            ).buckets()[user_id].0 <= i64::MAX,
        ensures
            final(self).max_messages() == old(self).max_messages(),
            final(self).window_seconds() == old(self).window_seconds(),
            old(self).max_messages() == 0 ==> r && final(self).buckets() == old(self).buckets(),
            old(self).max_messages() > 0 ==> ({
                let b = old(self).buckets();
                if !b.contains_key(user_id) {
                    r && final(self).buckets() == b.insert(user_id, (now_secs, 1u32))
                } else if now_secs - b[user_id].0 >= old(self).window() {
                    r && final(self).buckets() == b.insert(user_id, (now_secs, 1u32))
                } else if b[user_id].1 < old(self).max_messages() {
                    r && final(self).buckets() == b.insert(
                        user_id,
                        (b[user_id].0, (b[user_id].1 + 1) as u32),
                    )
                } else {
                    !r && final(self).buckets() == b
                }
            }),
            old(self).wf() ==> final(self).wf(),
    {
        if self.max_messages == 0 {
            return true;
        }
        let window: i64 = if self.window_seconds == 0 { 1 } else { self.window_seconds as i64 };
        match self.buckets.get(&user_id) {
            Some(entry) => {
                let (start, count) = *entry;
                if now_secs - start >= window {
                    self.buckets.insert(user_id, (now_secs, 1));
                    true
                } else if count < self.max_messages {
                    self.buckets.insert(user_id, (start, count + 1));
                    true
                } else {
                    false
                }
            },
            None => {
                self.buckets.insert(user_id, (now_secs, 1));
                true
            },
        }
    }
}

/// A refused message leaves every bucket as it was, and an allowed one touches
/// only its sender's bucket.
pub proof fn lemma_rate_limit_isolates_users(b: Map<i64, (i64, u32)>, user: i64, other: i64, v: (i64, u32))
    requires
        user != other,
    ensures
        b.insert(user, v).contains_key(other) == b.contains_key(other),
        b.contains_key(other) ==> b.insert(user, v)[other] == b[other],
{
}

// ---------------------------------------------------------------- reply splitting

/// Consecutive chunks of `n` characters, the last one possibly shorter.
pub open spec fn chunks(s: Seq<char>, n: nat) -> Seq<Seq<char>>
    decreases s.len(),
{
    if n == 0 || s.len() == 0 {
        seq![]
    } else if s.len() <= n {
        seq![s]
    } else {
        seq![s.take(n as int)] + chunks(s.skip(n as int), n)
    }
}

pub open spec fn flatten(parts: Seq<Seq<char>>) -> Seq<char>
    decreases parts.len(),
{
    if parts.len() == 0 {
        seq![]
    } else {
        parts[0] + flatten(parts.drop_first())
    }
}

/// The chunks put back together give the text, and none is longer than `n`.
pub proof fn lemma_chunks_reassemble(s: Seq<char>, n: nat)
    requires
        n > 0,
    ensures
        flatten(chunks(s, n)) == s,
        forall|i: int| 0 <= i < chunks(s, n).len() ==> 0 < (#[trigger] chunks(s, n)[i]).len() <= n,
    decreases s.len(),
{
    if s.len() == 0 {
    } else if s.len() <= n {
        let c = chunks(s, n);
        assert(c == seq![s]);
        assert(c.drop_first() =~= Seq::<Seq<char>>::empty());
        assert(flatten(c) == s + flatten(c.drop_first()));
        assert(s + Seq::<char>::empty() =~= s);
    } else {
        lemma_chunks_reassemble(s.skip(n as int), n);
        let c = chunks(s, n);
        assert(c.drop_first() == chunks(s.skip(n as int), n));
        assert(s.take(n as int) + s.skip(n as int) == s);
        assert forall|i: int| 0 <= i < c.len() implies 0 < (#[trigger] c[i]).len() <= n by {
            if i > 0 {
                assert(c[i] == chunks(s.skip(n as int), n)[i - 1]);
            }
        }
    }
}

proof fn lemma_chunks_step(s: Seq<char>, start: int, n: nat)
    requires
        n > 0,
        0 <= start,
        start + n <= s.len(),
    ensures
        chunks(s.skip(start), n) == seq![s.subrange(start, start + n)] + chunks(s.skip(start + n), n),
{
    let t = s.skip(start);
    assert(t.take(n as int) == s.subrange(start, start + n));
    assert(t.skip(n as int) == s.skip(start + n));
    if t.len() == n {
        assert(s.skip(start + n).len() == 0);
        assert(t.take(n as int) == t);
    }
}

/// Splits a reply into messages of at most `max_chars` characters (0 = no limit).
pub fn split_reply(reply: &str, max_chars: usize) -> (r: Vec<String>)
    ensures
        (max_chars == 0 || reply@.len() <= max_chars) ==> r@.len() == 1 && r@[0]@ == reply@,
        !(max_chars == 0 || reply@.len() <= max_chars) ==> r@.len() == chunks(reply@, max_chars as nat).len()
            && forall|i: int| 0 <= i < r@.len() ==> #[trigger] r@[i]@ == chunks(reply@, max_chars as nat)[i],
{
    let s = chars_of(reply);
    if max_chars == 0 || s.len() <= max_chars {
        let mut v: Vec<String> = Vec::new();
        v.push(reply.to_string());
        return v;
    }
    let n = max_chars;
    let ghost whole = chunks(s@, n as nat);
    let mut out: Vec<String> = Vec::new();
    let mut current: Vec<char> = Vec::new();
    let mut start: usize = 0;
    let mut i: usize = 0;
    assert(s@.skip(0) =~= s@);
    while i < s.len()
        invariant
            n > 0,
            start <= i <= s.len(),
            current@ == s@.subrange(start as int, i as int),
            i - start < n,
            out@.len() + chunks(s@.skip(start as int), n as nat).len() == whole.len(),
            forall|k: int| 0 <= k < out@.len() ==> #[trigger] out@[k]@ == whole[k],
            forall|k: int| 0 <= k < chunks(s@.skip(start as int), n as nat).len() ==> #[trigger] chunks(
                s@.skip(start as int),
                n as nat,
            )[k] == whole[out@.len() + k],
            whole == chunks(s@, n as nat),
        decreases s.len() - i,
    {
        current.push(s[i]);
        i += 1;
        if current.len() >= n {
            proof {
                lemma_chunks_step(s@, start as int, n as nat);
                let rest = chunks(s@.skip(start + n), n as nat);
                let c = chunks(s@.skip(start as int), n as nat);
                assert(c[0] == s@.subrange(start as int, start + n));
                assert forall|k: int| 0 <= k < rest.len() implies #[trigger] rest[k] == whole[out@.len() + 1 + k] by {
                    assert(rest[k] == c[k + 1]);
                }
            }
            let chunk = string_of(current.as_slice());
            out.push(chunk);
            current = Vec::new();
            start = i;
        }
    }
    if current.len() > 0 {
        proof {
            let t = s@.skip(start as int);
            assert(t == s@.subrange(start as int, s@.len() as int));
            assert(chunks(t, n as nat) == seq![t]);
            assert(chunks(t, n as nat)[0] == whole[out@.len() as int]);
        }
        let ghost before = out@.len();
        out.push(string_of(current.as_slice()));
        assert(out@[before as int]@ == whole[before as int]);
        assert(out@.len() == whole.len());
    } else {
        assert(s@.skip(start as int).len() == 0);
        assert(chunks(s@.skip(start as int), n as nat).len() == 0);
    }
    out
}

// ---------------------------------------------------------------- conversation text

/// The first line of a stored message, without the sender context that the
/// bridge puts in front (`[QQ ...]。` on a line of its own).
pub open spec fn first_line_spec(text: Seq<char>) -> Seq<char> {
    let t = trim(text);
    let body = if contains(t, "\n"@) {
        let idx = choose|i: int| is_first_occurrence(t, "\n"@, i);
        let first = trim(t.take(idx));
        let rest = trim(t.skip(idx));
        if starts_with(first, "[QQ "@) && ends_with(first, "。"@) {
            rest
        } else {
            t
        }
    } else {
        t
    };
    trim(split_char(body, '\n')[0])
}

pub fn first_line(text: &str) -> (r: String)
    ensures
        r@ == first_line_spec(text@),
{
    let t = trim_chars(chars_of(text).as_slice());
    let nl = chars_of("\n");
    let body: Vec<char> = match find(t.as_slice(), nl.as_slice()) {
        Some(idx) => {
            proof {
                let c = choose|i: int| is_first_occurrence(t@, "\n"@, i);
                assert(!(c < idx as int));
                assert(!(idx < c));
            }
            let first = trim_chars(slice_chars(t.as_slice(), 0, idx).as_slice());
            let rest = trim_chars(slice_chars(t.as_slice(), idx, t.len()).as_slice());
            if has_prefix_str(first.as_slice(), "[QQ ") && has_suffix_str(first.as_slice(), "。") {
                rest
            } else {
                t
            }
        },
        None => t,
    };
    let lines = split_on_char(body.as_slice(), '\n');
    proof {
        crate::text::lemma_split_char_nonempty(body@, '\n');
    }
    let line = trim_chars(lines[0].as_slice());
    string_of(line.as_slice())
}

/// Whether the text holds one of the non-empty trigger keywords.
pub fn matches_trigger_keywords(keywords: &[String], text: &str) -> (r: bool)
    ensures
        r == exists|i: int|
            0 <= i < keywords@.len() && (#[trigger] keywords@[i])@.len() > 0 && contains(text@, keywords@[i]@),
{
    let t = chars_of(text);
    let mut i: usize = 0;
    while i < keywords.len()
        invariant
            i <= keywords.len(),
            t@ == text@,
            forall|k: int|
                0 <= k < i ==> !((#[trigger] keywords@[k])@.len() > 0 && contains(text@, keywords@[k]@)),
        decreases keywords.len() - i,
    {
        let kw = chars_of(keywords[i].as_str());
        if kw.len() > 0 && contains_chars(t.as_slice(), kw.as_slice()) {
            return true;
        }
        i += 1;
    }
    false
}

// ---------------------------------------------------------------- authorization

/// The SHA-256 digest of a byte string (as `sha2::Sha256` computes it).
pub uninterp spec fn sha256_spec(data: Seq<u8>) -> Seq<u8>;

/// `sha2::Sha256::digest`: the 32-byte SHA-256 digest of the bytes.
#[verifier::external_body]
fn sha256(data: &[u8]) -> (r: Vec<u8>)
    ensures
        r@ == sha256_spec(data@),
        r@.len() == 32,
{
    sha2::Sha256::digest(data).to_vec()
}

fn bytes_eq(a: &[u8], b: &[u8]) -> (r: bool)
    ensures
        r == (a@ == b@),
{
    if a.len() != b.len() {
        return false;
    }
    let mut i: usize = 0;
    while i < a.len()
        invariant
            a.len() == b.len(),
            i <= a.len(),
            forall|k: int| 0 <= k < i ==> a@[k] == b@[k],
        decreases a.len() - i,
    {
        if a[i] != b[i] {
            return false;
        }
        i += 1;
    }
    assert(a@ =~= b@);
    true
}

/// The token an `Authorization` header carries: trimmed, with a `Bearer ` or
/// `Token ` prefix removed, trimmed again.
pub open spec fn supplied_token(header: Seq<char>) -> Seq<char> {
    let v = trim(header);
    let inner = if starts_with(v, "Bearer "@) {
        v.skip(7)
    } else if starts_with(v, "Token "@) {
        v.skip(6)
    } else {
        v
    };
    trim(inner)
}

/// Whether a bridge connection may proceed: with no token configured only a
/// loopback peer may; otherwise the supplied token must have the configured
/// token's digest.
pub fn connection_authorized(authorization: Option<&str>, expected: &str, peer_is_loopback: bool) -> (r: bool)
    ensures
        r == if trim(expected@).len() == 0 {
            peer_is_loopback
        } else {
            match authorization {
                None => false,
                Some(h) => sha256_spec(vstd::utf8::encode_utf8(supplied_token(h@)))
                    == sha256_spec(vstd::utf8::encode_utf8(trim(expected@))),
            }
        },
{
    proof {
        reveal_strlit("Bearer ");
        reveal_strlit("Token ");
    }
    let e = trim_chars(chars_of(expected).as_slice());
    if e.len() == 0 {
        return peer_is_loopback;
    }
    let h = match authorization {
        Some(h) => h,
        None => { return false; },
    };
    let v = trim_chars(chars_of(h).as_slice());
    let inner = if has_prefix_str(v.as_slice(), "Bearer ") {
        slice_chars(v.as_slice(), 7, v.len())
    } else if has_prefix_str(v.as_slice(), "Token ") {
        slice_chars(v.as_slice(), 6, v.len())
    } else {
        v
    };
    let supplied = string_of(trim_chars(inner.as_slice()).as_slice());
    let expected_s = string_of(e.as_slice());
    let a = sha256(supplied.as_str().as_bytes());
    let b = sha256(expected_s.as_str().as_bytes());
    bytes_eq(a.as_slice(), b.as_slice())
}

} // verus!
