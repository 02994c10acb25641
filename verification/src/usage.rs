//! Token accounting: the running totals kept in `usage.json`, the per-call
//! records of the usage history, and what is read back from them.
use vstd::prelude::*;
use crate::llm::{sat_add, Usage};
use crate::text::{chars_of, seq_eq};
use crate::json::{as_bool, as_i64, as_str, as_u64, deref_opt, get, json_as_bool, json_as_i64, json_as_str, json_as_u64, json_get, JsonValue};

verus! {

/// The running totals kept on disk.
#[derive(Debug, Clone, Copy)]
pub struct UsageState {
    pub requests: u64,
    pub prompt_tokens: u64,
    pub completion_tokens: u64,
    pub total_tokens: u64,
    pub last_usage: Option<Usage>,
    pub last_conversation_usage: Option<Usage>,
}

impl UsageState {
    pub fn new() -> (r: UsageState)
        ensures
            r.requests == 0 && r.prompt_tokens == 0 && r.completion_tokens == 0 && r.total_tokens
                == 0,
            r.last_usage is None,
            r.last_conversation_usage is None,
    {
        UsageState {
            requests: 0,
            prompt_tokens: 0,
            completion_tokens: 0,
            total_tokens: 0,
            last_usage: None,
            last_conversation_usage: None,
        }
    }
}

/// The totals as shown to a user.
#[derive(Debug, Clone, Copy)]
pub struct UsageSnapshot {
    pub requests: u64,
    pub prompt_tokens: u64,
    pub completion_tokens: u64,
    pub total_tokens: u64,
    pub last_usage: Option<Usage>,
    pub last_conversation_usage: Option<Usage>,
}

/// Whether adding this usage keeps every counter within `u64`.
pub open spec fn fits(state: UsageState, usage: Usage) -> bool {
    &&& state.requests + 1 <= u64::MAX
    &&& state.prompt_tokens + usage.prompt_tokens <= u64::MAX
    &&& state.completion_tokens + usage.completion_tokens <= u64::MAX
    &&& state.total_tokens + usage.effective_total_spec() <= u64::MAX
}

/// The totals after one more request: one more request, the prompt and
/// completion tokens added, the effective total added; the usage becomes the
/// last one, and the last conversation usage too when it belongs to the
/// conversation.
pub open spec fn added(state: UsageState, usage: Usage, is_conversation: bool) -> UsageState {
    UsageState {
        requests: (state.requests + 1) as u64,
        prompt_tokens: (state.prompt_tokens + usage.prompt_tokens) as u64,
        completion_tokens: (state.completion_tokens + usage.completion_tokens) as u64,
        total_tokens: (state.total_tokens + usage.effective_total_spec()) as u64,
        last_usage: Some(usage),
        last_conversation_usage: if is_conversation {
            Some(usage)
        } else {
            state.last_conversation_usage
        },
    }
}

fn add_with_scope(state: UsageState, usage: &Usage, is_conversation: bool) -> (r: UsageState)
    requires
        fits(state, *usage),
    ensures
        r == added(state, *usage, is_conversation),
        r.requests == state.requests + 1,
        r.prompt_tokens == state.prompt_tokens + usage.prompt_tokens,
        r.completion_tokens == state.completion_tokens + usage.completion_tokens,
        r.total_tokens == state.total_tokens + usage.effective_total_spec(),
{
    let total = usage.effective_total_tokens();
    UsageState {
        requests: state.requests + 1,
        prompt_tokens: state.prompt_tokens + usage.prompt_tokens,
        completion_tokens: state.completion_tokens + usage.completion_tokens,
        total_tokens: state.total_tokens + total,
        last_usage: Some(*usage),
        last_conversation_usage: if is_conversation {
            Some(*usage)
        } else {
            state.last_conversation_usage
        },
    }
}

/// Counts a request of the conversation itself.
pub fn add_usage(state: UsageState, usage: &Usage) -> (r: UsageState)
    requires
        fits(state, *usage),
    ensures
        r == added(state, *usage, true),
        r.requests == state.requests + 1,
        r.prompt_tokens == state.prompt_tokens + usage.prompt_tokens,
        r.completion_tokens == state.completion_tokens + usage.completion_tokens,
        r.total_tokens == state.total_tokens + usage.effective_total_spec(),
        r.last_usage == Some(*usage),
{
    add_with_scope(state, usage, true)
}

/// Counts a request made on the side (titles, judgments, memory work): it adds
/// to the totals but leaves the last conversation usage alone.
pub fn add_auxiliary_usage(state: UsageState, usage: &Usage) -> (r: UsageState)
    requires
        fits(state, *usage),
    ensures
        r == added(state, *usage, false),
        r.requests == state.requests + 1,
        r.prompt_tokens == state.prompt_tokens + usage.prompt_tokens,
        r.completion_tokens == state.completion_tokens + usage.completion_tokens,
        r.total_tokens == state.total_tokens + usage.effective_total_spec(),
        r.last_usage == Some(*usage),
{
    add_with_scope(state, usage, false)
}

/// What a snapshot shows: the totals, and as conversation usage the last one
/// recorded, or the last usage of any kind when none was.
pub open spec fn snapshot_of(state: UsageState) -> UsageSnapshot {
    UsageSnapshot {
        requests: state.requests,
        prompt_tokens: state.prompt_tokens,
        completion_tokens: state.completion_tokens,
        total_tokens: state.total_tokens,
        last_usage: state.last_usage,
        last_conversation_usage: if state.last_conversation_usage is Some {
            state.last_conversation_usage
        } else {
            state.last_usage
        },
    }
}

pub fn snapshot(state: &UsageState) -> (r: UsageSnapshot)
    ensures
        r == snapshot_of(*state),
{
    UsageSnapshot {
        requests: state.requests,
        prompt_tokens: state.prompt_tokens,
        completion_tokens: state.completion_tokens,
        total_tokens: state.total_tokens,
        last_usage: state.last_usage,
        last_conversation_usage: match state.last_conversation_usage {
            Some(u) => Some(u),
            None => state.last_usage,
        },
    }
}

/// Forgets the last usages and keeps the totals.
pub fn clear_last_usage(state: UsageState) -> (r: UsageState)
    ensures
        r == (UsageState { last_usage: None, last_conversation_usage: None, ..state }),
{
    UsageState { last_usage: None, last_conversation_usage: None, ..state }
}

/// After a conversation request, a snapshot shows that request as both the
/// last usage and the last conversation usage, and the totals grew by it.
pub proof fn lemma_conversation_usage_shows(state: UsageState, usage: Usage)
    requires
        fits(state, usage),
    ensures
        snapshot_of(added(state, usage, true)).last_usage == Some(usage),
        snapshot_of(added(state, usage, true)).last_conversation_usage == Some(usage),
        snapshot_of(added(state, usage, true)).total_tokens == state.total_tokens
            + usage.effective_total_spec(),
        snapshot_of(added(state, usage, true)).requests == state.requests + 1,
{
}

/// Every request, of the conversation or on the side, adds its prompt and
/// completion tokens and its effective total to the running totals and counts
/// once: a snapshot taken after it shows each total grown by exactly that much.
pub proof fn lemma_usage_adds_up(state: UsageState, usage: Usage, is_conversation: bool)
    requires
        fits(state, usage),
    ensures
        snapshot_of(added(state, usage, is_conversation)).requests == state.requests + 1,
        snapshot_of(added(state, usage, is_conversation)).prompt_tokens == state.prompt_tokens
            + usage.prompt_tokens,
        snapshot_of(added(state, usage, is_conversation)).completion_tokens
            == state.completion_tokens + usage.completion_tokens,
        snapshot_of(added(state, usage, is_conversation)).total_tokens == state.total_tokens
            + usage.effective_total_spec(),
{
}

/// An auxiliary request never hides the conversation usage already recorded.
pub proof fn lemma_auxiliary_keeps_conversation_usage(state: UsageState, usage: Usage)
    requires
        fits(state, usage),
        state.last_conversation_usage is Some,
    ensures
        snapshot_of(added(state, usage, false)).last_conversation_usage
            == state.last_conversation_usage,
        snapshot_of(added(state, usage, false)).last_usage == Some(usage),
{
}

/// Clearing forgets both last usages and keeps every total.
pub proof fn lemma_clear_keeps_totals(state: UsageState)
    ensures
        ({
            let c = UsageState { last_usage: None, last_conversation_usage: None, ..state };
            &&& snapshot_of(c).last_usage is None
            &&& snapshot_of(c).last_conversation_usage is None
            &&& snapshot_of(c).requests == state.requests
            &&& snapshot_of(c).prompt_tokens == state.prompt_tokens
            &&& snapshot_of(c).completion_tokens == state.completion_tokens
            &&& snapshot_of(c).total_tokens == state.total_tokens
        }),
{
}

// ---------------------------------------------------------------- usage history

/// One line of the usage history.
#[derive(Debug, Clone)]
pub struct UsageRecord {
    pub ts: i64,
    pub provider: String,
    pub model: String,
    pub prompt: u64,
    pub completion: u64,
    pub total: u64,
    pub aux: bool,
    pub cache_read: Option<u64>,
    pub cache_creation: Option<u64>,
}

/// The history line for one request at time `ts`.
pub fn usage_record(usage: &Usage, provider_id: &str, model: &str, auxiliary: bool, ts: i64) -> (r:
    UsageRecord)
    ensures
        r.ts == ts,
        r.provider@ == provider_id@,
        r.model@ == model@,
        r.prompt == usage.prompt_tokens,
        r.completion == usage.completion_tokens,
        r.total == usage.effective_total_spec(),
        r.aux == auxiliary,
        r.cache_read == usage.cache_read_input_tokens,
        r.cache_creation == usage.cache_creation_input_tokens,
{
    UsageRecord {
        ts,
        provider: provider_id.to_string(),
        model: model.to_string(),
        prompt: usage.prompt_tokens,
        completion: usage.completion_tokens,
        total: usage.effective_total_tokens(),
        aux: auxiliary,
        cache_read: usage.cache_read_input_tokens,
        cache_creation: usage.cache_creation_input_tokens,
    }
}

/// A history line as listed to a user.
#[derive(Debug, Clone)]
pub struct UsageDetailRecord {
    pub ts: i64,
    pub provider: String,
    pub model: String,
    pub prompt: u64,
    pub completion: u64,
    pub total: u64,
    pub aux: bool,
    pub cache_read: Option<u64>,
    pub cache_creation: Option<u64>,
}

/// The provider as listed: `unknown` when the line names none.
pub open spec fn listed_provider(p: Seq<char>) -> Seq<char> {
    if p.len() == 0 { "unknown"@ } else { p }
}

/// The model as listed: `(未标注)` when the line names none.
pub open spec fn listed_model(m: Seq<char>) -> Seq<char> {
    if m.len() == 0 { "(未标注)"@ } else { m }
}

pub open spec fn detail_matches(d: UsageDetailRecord, r: UsageRecord) -> bool {
    &&& d.ts == r.ts
    &&& d.provider@ == listed_provider(r.provider@)
    &&& d.model@ == listed_model(r.model@)
    &&& d.prompt == r.prompt
    &&& d.completion == r.completion
    &&& d.total == r.total
    &&& d.aux == r.aux
    &&& d.cache_read == r.cache_read
    &&& d.cache_creation == r.cache_creation
}

fn detail_of(r: &UsageRecord) -> (d: UsageDetailRecord)
    ensures
        detail_matches(d, *r),
{
    UsageDetailRecord {
        ts: r.ts,
        provider: if r.provider.as_str().is_empty() {
            "unknown".to_string()
        } else {
            r.provider.clone()
        },
        model: if r.model.as_str().is_empty() {
            "(未标注)".to_string()
        } else {
            r.model.clone()
        },
        prompt: r.prompt,
        completion: r.completion,
        total: r.total,
        aux: r.aux,
        cache_read: r.cache_read,
        cache_creation: r.cache_creation,
    }
}

/// The latest `limit` history lines, newest first.
pub fn usage_details(records: &[UsageRecord], limit: usize) -> (r: Vec<UsageDetailRecord>)
    ensures
        r@.len() == if records@.len() < limit { records@.len() } else { limit as nat },
        forall|k: int|
            0 <= k < r@.len() ==> detail_matches(
                #[trigger] r@[k],
                records@[records@.len() - 1 - k],
            ),
{
    let n = if records.len() < limit { records.len() } else { limit };
    let mut out: Vec<UsageDetailRecord> = Vec::new();
    let mut k: usize = 0;
    while k < n
        invariant
            n <= records.len(),
            n == if records@.len() < limit { records@.len() } else { limit as nat },
            k <= n,
            out@.len() == k,
            forall|j: int|
                0 <= j < k ==> detail_matches(#[trigger] out@[j], records@[records@.len() - 1 - j]),
        decreases n - k,
    {
        let d = detail_of(&records[records.len() - 1 - k]);
        out.push(d);
        k += 1;
    }
    out
}

} // verus!

verus! {

// ---------------------------------------------------------------- usage statistics

/// Request and token counts of a set of history lines (costs are reckoned by
/// the caller).
#[derive(Debug, Clone, Copy, PartialEq, Eq, Structural)]
pub struct TokenCounts {
    pub requests: u64,
    pub prompt_tokens: u64,
    pub completion_tokens: u64,
    pub total_tokens: u64,
}

pub open spec fn no_counts() -> TokenCounts {
    TokenCounts { requests: 0, prompt_tokens: 0, completion_tokens: 0, total_tokens: 0 }
}

/// One more line counted: a request, and its tokens added (saturating).
pub open spec fn counted(c: TokenCounts, r: UsageRecord) -> TokenCounts {
    TokenCounts {
        requests: (c.requests + 1) as u64,
        prompt_tokens: sat_add(c.prompt_tokens, r.prompt),
        completion_tokens: sat_add(c.completion_tokens, r.completion),
        total_tokens: sat_add(c.total_tokens, r.total),
    }
}

/// The cache-read tokens of a line (none counts as 0).
pub open spec fn cache_of(r: UsageRecord) -> u64 {
    match r.cache_read {
        Some(c) => c,
        None => 0,
    }
}

/// The counts of the first `n` lines whose day lies in `lo..=hi`.
pub open spec fn tally(rs: Seq<UsageRecord>, days: Seq<i64>, lo: int, hi: int, n: int) -> TokenCounts
    decreases n,
{
    if n <= 0 {
        no_counts()
    } else {
        let prev = tally(rs, days, lo, hi, n - 1);
        if lo <= days[n - 1] <= hi {
            counted(prev, rs[n - 1])
        } else {
            prev
        }
    }
}

/// The cache-read tokens of the same lines (saturating).
pub open spec fn cache_tally(rs: Seq<UsageRecord>, days: Seq<i64>, lo: int, hi: int, n: int) -> u64
    decreases n,
{
    if n <= 0 {
        0
    } else {
        let prev = cache_tally(rs, days, lo, hi, n - 1);
        if lo <= days[n - 1] <= hi {
            sat_add(prev, cache_of(rs[n - 1]))
        } else {
            prev
        }
    }
}

proof fn lemma_tally_requests(rs: Seq<UsageRecord>, days: Seq<i64>, lo: int, hi: int, n: int)
    requires
        0 <= n,
    ensures
        tally(rs, days, lo, hi, n).requests <= n,
    decreases n,
{
    if n > 0 {
        lemma_tally_requests(rs, days, lo, hi, n - 1);
    }
}

fn add_record(c: TokenCounts, r: &UsageRecord) -> (out: TokenCounts)
    requires
        c.requests < u64::MAX,
    ensures
        out == counted(c, *r),
{
    TokenCounts {
        requests: c.requests + 1,
        prompt_tokens: c.prompt_tokens.saturating_add(r.prompt),
        completion_tokens: c.completion_tokens.saturating_add(r.completion),
        total_tokens: c.total_tokens.saturating_add(r.total),
    }
}

fn tally_exec(records: &[UsageRecord], days: &[i64], lo: i64, hi: i64) -> (r: (TokenCounts, u64))
    requires
        records@.len() == days@.len(),
    ensures
        r.0 == tally(records@, days@, lo as int, hi as int, records@.len() as int),
        r.1 == cache_tally(records@, days@, lo as int, hi as int, records@.len() as int),
{
    let mut c = TokenCounts { requests: 0, prompt_tokens: 0, completion_tokens: 0, total_tokens: 0 };
    let mut cache: u64 = 0;
    let mut i: usize = 0;
    while i < records.len()
        invariant
            i <= records.len(),
            records@.len() == days@.len(),
            c == tally(records@, days@, lo as int, hi as int, i as int),
            cache == cache_tally(records@, days@, lo as int, hi as int, i as int),
        decreases records.len() - i,
    {
        proof {
            lemma_tally_requests(records@, days@, lo as int, hi as int, i as int);
        }
        if lo <= days[i] && days[i] <= hi {
            c = add_record(c, &records[i]);
            let extra = match records[i].cache_read {
                Some(x) => x,
                None => 0,
            };
            cache = cache.saturating_add(extra);
        }
        i += 1;
    }
    (c, cache)
}

/// The counts of all lines, of today's, this week's and this month's.
#[derive(Debug, Clone, Copy)]
pub struct PeriodCounts {
    pub total: TokenCounts,
    pub today: TokenCounts,
    pub this_week: TokenCounts,
    pub this_month: TokenCounts,
}

/// The usage totals by period. `days` gives each line's local day (the caller
/// uses today for a time it cannot place); the week and month run from their
/// first day to today.
pub fn period_counts(records: &[UsageRecord], days: &[i64], today: i64, week_start: i64, month_start: i64) -> (r: PeriodCounts)
    requires
        records@.len() == days@.len(),
    ensures
        r.total == tally(records@, days@, i64::MIN as int, i64::MAX as int, records@.len() as int),
        r.today == tally(records@, days@, today as int, today as int, records@.len() as int),
        r.this_week == tally(records@, days@, week_start as int, today as int, records@.len() as int),
        r.this_month == tally(records@, days@, month_start as int, today as int, records@.len() as int),
{
    PeriodCounts {
        total: tally_exec(records, days, i64::MIN, i64::MAX).0,
        today: tally_exec(records, days, today, today).0,
        this_week: tally_exec(records, days, week_start, today).0,
        this_month: tally_exec(records, days, month_start, today).0,
    }
}

/// One day of the usage chart.
#[derive(Debug, Clone, Copy)]
pub struct DailyTokens {
    pub day: i64,
    pub counts: TokenCounts,
    pub cache_read: u64,
}

/// The last 365 days up to today, oldest first, each with its counts (zero on
/// days without use).
pub fn daily_counts(records: &[UsageRecord], days: &[i64], today: i64) -> (r: Vec<DailyTokens>)
    requires
        records@.len() == days@.len(),
        today >= i64::MIN + 364,
    ensures
        r@.len() == 365,
        forall|k: int| 0 <= k < 365 ==> {
            let d = #[trigger] r@[k];
            &&& d.day == today - 364 + k
            &&& d.counts == tally(records@, days@, d.day as int, d.day as int, records@.len() as int)
            &&& d.cache_read == cache_tally(records@, days@, d.day as int, d.day as int, records@.len() as int)
        },
{
    let mut out: Vec<DailyTokens> = Vec::new();
    let mut k: i64 = 0;
    while k < 365
        invariant
            0 <= k <= 365,
            records@.len() == days@.len(),
            today >= i64::MIN + 364,
            out@.len() == k,
            forall|j: int| 0 <= j < k ==> {
                let d = #[trigger] out@[j];
                &&& d.day == today - 364 + j
                &&& d.counts == tally(records@, days@, d.day as int, d.day as int, records@.len() as int)
                &&& d.cache_read == cache_tally(records@, days@, d.day as int, d.day as int, records@.len() as int)
            },
        decreases 365 - k,
    {
        let day = today - 364 + k;
        let (counts, cache_read) = tally_exec(records, days, day, day);
        out.push(DailyTokens { day, counts, cache_read });
        k += 1;
    }
    out
}

} // verus!


verus! {

// ---------------------------------------------------------------- usage by model

/// The model a history line is counted under: its provider and model as listed.
pub open spec fn model_key(r: UsageRecord) -> (Seq<char>, Seq<char>) {
    (listed_provider(r.provider@), listed_model(r.model@))
}

/// The counts of those of the first `n` lines that are counted under `key`.
pub open spec fn model_tally(rs: Seq<UsageRecord>, key: (Seq<char>, Seq<char>), n: int) -> TokenCounts
    decreases n,
{
    if n <= 0 {
        no_counts()
    } else {
        let prev = model_tally(rs, key, n - 1);
        if model_key(rs[n - 1]) == key {
            counted(prev, rs[n - 1])
        } else {
            prev
        }
    }
}

/// The cache-read tokens of the same lines (saturating).
pub open spec fn model_cache_tally(rs: Seq<UsageRecord>, key: (Seq<char>, Seq<char>), n: int) -> u64
    decreases n,
{
    if n <= 0 {
        0
    } else {
        let prev = model_cache_tally(rs, key, n - 1);
        if model_key(rs[n - 1]) == key {
            sat_add(prev, cache_of(rs[n - 1]))
        } else {
            prev
        }
    }
}

/// The usage of one model.
#[derive(Debug, Clone)]
pub struct ModelTokens {
    pub provider_id: String,
    pub model: String,
    pub counts: TokenCounts,
    pub cache_read: u64,
}

pub open spec fn entry_key(e: ModelTokens) -> (Seq<char>, Seq<char>) {
    (e.provider_id@, e.model@)
}

/// Some line of `rs` is counted under `key`.
pub open spec fn key_used(rs: Seq<UsageRecord>, key: (Seq<char>, Seq<char>)) -> bool {
    exists|j: int| 0 <= j < rs.len() && #[trigger] model_key(rs[j]) == key
}

/// Some entry of `es` stands for `key`.
pub open spec fn key_listed(es: Seq<ModelTokens>, key: (Seq<char>, Seq<char>)) -> bool {
    exists|p: int| 0 <= p < es.len() && #[trigger] entry_key(es[p]) == key
}

/// An entry that holds exactly the usage of its model over `rs`.
pub open spec fn entry_ok(e: ModelTokens, rs: Seq<UsageRecord>) -> bool {
    &&& e.counts == model_tally(rs, entry_key(e), rs.len() as int)
    &&& e.cache_read == model_cache_tally(rs, entry_key(e), rs.len() as int)
    &&& key_used(rs, entry_key(e))
}

proof fn lemma_model_tally_requests(rs: Seq<UsageRecord>, key: (Seq<char>, Seq<char>), n: int)
    requires
        0 <= n,
    ensures
        model_tally(rs, key, n).requests <= n,
    decreases n,
{
    if n > 0 {
        lemma_model_tally_requests(rs, key, n - 1);
    }
}

proof fn lemma_model_tally_unused(rs: Seq<UsageRecord>, key: (Seq<char>, Seq<char>), n: int)
    requires
        0 <= n <= rs.len(),
        forall|j: int| 0 <= j < n ==> model_key(rs[j]) != key,
    ensures
        model_tally(rs, key, n) == no_counts(),
        model_cache_tally(rs, key, n) == 0,
    decreases n,
{
    if n > 0 {
        lemma_model_tally_unused(rs, key, n - 1);
    }
}

/// The name a line is listed under, as an owned string.
fn listed_name(name: &String, fallback: &str) -> (r: String)
    ensures
        r@ == if name@.len() == 0 { fallback@ } else { name@ },
{
    if name.as_str().is_empty() {
        fallback.to_string()
    } else {
        name.clone()
    }
}

/// Where the model `(p, m)` stands among the keys so far.
fn find_model(provs: &Vec<String>, mods: &Vec<String>, p: &String, m: &String) -> (r: Option<usize>)
    requires
        provs@.len() == mods@.len(),
    ensures
        match r {
            Some(idx) => idx < provs@.len() && (provs@[idx as int]@, mods@[idx as int]@) == (p@, m@),
            None => forall|t: int| 0 <= t < provs@.len() ==> (#[trigger] provs@[t]@, mods@[t]@) != (p@, m@),
        },
{
    let pc = chars_of(p.as_str());
    let mc = chars_of(m.as_str());
    let mut q: usize = 0;
    while q < provs.len()
        invariant
            q <= provs@.len(),
            provs@.len() == mods@.len(),
            pc@ == p@,
            mc@ == m@,
            forall|t: int| 0 <= t < q ==> (#[trigger] provs@[t]@, mods@[t]@) != (p@, m@),
        decreases provs.len() - q,
    {
        if seq_eq(chars_of(provs[q].as_str()).as_slice(), pc.as_slice()) && seq_eq(
            chars_of(mods[q].as_str()).as_slice(),
            mc.as_slice(),
        ) {
            return Some(q);
        }
        q += 1;
    }
    None
}

/// The key held at `q`.
pub open spec fn key_at(provs: Seq<String>, mods: Seq<String>, q: int) -> (Seq<char>, Seq<char>) {
    (provs[q]@, mods[q]@)
}

/// The group at `q` holds the counts of its key over the first `n` lines, and
/// some of those lines have that key.
pub open spec fn group_entry(
    rs: Seq<UsageRecord>,
    n: int,
    provs: Seq<String>,
    mods: Seq<String>,
    cnts: Seq<TokenCounts>,
    caches: Seq<u64>,
    q: int,
) -> bool {
    &&& cnts[q] == model_tally(rs, key_at(provs, mods, q), n)
    &&& caches[q] == model_cache_tally(rs, key_at(provs, mods, q), n)
    &&& exists|j: int| 0 <= j < n && #[trigger] model_key(rs[j]) == key_at(provs, mods, q)
}

/// Line `j` has its key among the groups.
pub open spec fn covered(rs: Seq<UsageRecord>, j: int, provs: Seq<String>, mods: Seq<String>) -> bool {
    exists|q: int| 0 <= q < provs.len() && #[trigger] key_at(provs, mods, q) == model_key(rs[j])
}

/// The keys seen in the first `n` lines, with the counts of each, are held in
/// `provs`, `mods`, `cnts` and `caches`, each key once.
#[verifier::opaque]
pub open spec fn groups_ok(
    rs: Seq<UsageRecord>,
    n: int,
    provs: Seq<String>,
    mods: Seq<String>,
    cnts: Seq<TokenCounts>,
    caches: Seq<u64>,
) -> bool {
    &&& provs.len() == mods.len()
    &&& provs.len() == cnts.len()
    &&& provs.len() == caches.len()
    &&& forall|q: int| 0 <= q < provs.len() ==> #[trigger] group_entry(rs, n, provs, mods, cnts, caches, q)
    &&& forall|q1: int, q2: int|
        0 <= q1 < q2 < provs.len() ==> #[trigger] key_at(provs, mods, q1) != #[trigger] key_at(provs, mods, q2)
    &&& forall|j: int| 0 <= j < n ==> #[trigger] covered(rs, j, provs, mods)
}

proof fn lemma_groups_empty(rs: Seq<UsageRecord>)
    ensures
        groups_ok(rs, 0, Seq::empty(), Seq::empty(), Seq::empty(), Seq::empty()),
{
    reveal(groups_ok);
}

proof fn lemma_groups_at(
    rs: Seq<UsageRecord>,
    n: int,
    provs: Seq<String>,
    mods: Seq<String>,
    cnts: Seq<TokenCounts>,
    caches: Seq<u64>,
    q: int,
)
    requires
        groups_ok(rs, n, provs, mods, cnts, caches),
    ensures
        provs.len() == mods.len() == cnts.len() == caches.len(),
        0 <= q < provs.len() ==> {
            let key = (provs[q]@, mods[q]@);
            &&& cnts[q] == model_tally(rs, key, n)
            &&& caches[q] == model_cache_tally(rs, key, n)
            &&& exists|j: int| 0 <= j < n && #[trigger] model_key(rs[j]) == key
        },
{
    reveal(groups_ok);
    if 0 <= q < provs.len() {
        assert(group_entry(rs, n, provs, mods, cnts, caches, q));
    }
}

proof fn lemma_groups_distinct(
    rs: Seq<UsageRecord>,
    n: int,
    provs: Seq<String>,
    mods: Seq<String>,
    cnts: Seq<TokenCounts>,
    caches: Seq<u64>,
)
    requires
        groups_ok(rs, n, provs, mods, cnts, caches),
    ensures
        forall|q1: int, q2: int|
            0 <= q1 < provs.len() && 0 <= q2 < provs.len() && q1 != q2 ==> (#[trigger] provs[q1]@, mods[q1]@) != (
                #[trigger] provs[q2]@,
                mods[q2]@,
            ),
{
    reveal(groups_ok);
    assert forall|q1: int, q2: int|
        0 <= q1 < provs.len() && 0 <= q2 < provs.len() && q1 != q2 implies (#[trigger] provs[q1]@, mods[q1]@) != (
            #[trigger] provs[q2]@,
            mods[q2]@,
        ) by {
        if q1 > q2 {
            assert(key_at(provs, mods, q2) != key_at(provs, mods, q1));
        } else {
            assert(key_at(provs, mods, q1) != key_at(provs, mods, q2));
        }
    }
}

proof fn lemma_groups_cover(
    rs: Seq<UsageRecord>,
    n: int,
    provs: Seq<String>,
    mods: Seq<String>,
    cnts: Seq<TokenCounts>,
    caches: Seq<u64>,
    j: int,
) -> (q: int)
    requires
        groups_ok(rs, n, provs, mods, cnts, caches),
        0 <= j < n,
    ensures
        0 <= q < provs.len(),
        (provs[q]@, mods[q]@) == model_key(rs[j]),
{
    reveal(groups_ok);
    assert(covered(rs, j, provs, mods));
    choose|q: int| 0 <= q < provs.len() && #[trigger] key_at(provs, mods, q) == model_key(rs[j])
}

proof fn lemma_group_hit(
    rs: Seq<UsageRecord>,
    i: int,
    provs: Seq<String>,
    mods: Seq<String>,
    cnts: Seq<TokenCounts>,
    caches: Seq<u64>,
    idx: int,
)
    requires
        0 <= i < rs.len(),
        groups_ok(rs, i, provs, mods, cnts, caches),
        0 <= idx < provs.len(),
        key_at(provs, mods, idx) == model_key(rs[i]),
    ensures
        groups_ok(
            rs,
            i + 1,
            provs,
            mods,
            cnts.update(idx, counted(cnts[idx], rs[i])),
            caches.update(idx, sat_add(caches[idx], cache_of(rs[i]))),
        ),
{
    reveal(groups_ok);
    let cnts2 = cnts.update(idx, counted(cnts[idx], rs[i]));
    let caches2 = caches.update(idx, sat_add(caches[idx], cache_of(rs[i])));
    assert forall|q: int| 0 <= q < provs.len() implies #[trigger] group_entry(rs, i + 1, provs, mods, cnts2, caches2, q) by {
        assert(group_entry(rs, i, provs, mods, cnts, caches, q));
        if q != idx {
            if q < idx {
                assert(key_at(provs, mods, q) != key_at(provs, mods, idx));
            } else {
                assert(key_at(provs, mods, idx) != key_at(provs, mods, q));
            }
        }
        let j0 = choose|j: int| 0 <= j < i && #[trigger] model_key(rs[j]) == key_at(provs, mods, q);
        assert(0 <= j0 < i + 1 && model_key(rs[j0]) == key_at(provs, mods, q));
    }
    assert forall|j: int| 0 <= j < i + 1 implies #[trigger] covered(rs, j, provs, mods) by {
        if j == i {
            assert(key_at(provs, mods, idx) == model_key(rs[j]));
        } else {
            assert(covered(rs, j, provs, mods));
        }
    }
}

proof fn lemma_group_new(
    rs: Seq<UsageRecord>,
    i: int,
    provs: Seq<String>,
    mods: Seq<String>,
    cnts: Seq<TokenCounts>,
    caches: Seq<u64>,
    p: String,
    m: String,
)
    requires
        0 <= i < rs.len(),
        groups_ok(rs, i, provs, mods, cnts, caches),
        (p@, m@) == model_key(rs[i]),
        forall|t: int| 0 <= t < provs.len() ==> (#[trigger] provs[t]@, mods[t]@) != (p@, m@),
    ensures
        groups_ok(
            rs,
            i + 1,
            provs.push(p),
            mods.push(m),
            cnts.push(counted(no_counts(), rs[i])),
            caches.push(sat_add(0, cache_of(rs[i]))),
        ),
{
    reveal(groups_ok);
    let key = (p@, m@);
    assert forall|j: int| 0 <= j < i implies model_key(rs[j]) != key by {
        assert(covered(rs, j, provs, mods));
        let q2 = choose|q: int| 0 <= q < provs.len() && #[trigger] key_at(provs, mods, q) == model_key(rs[j]);
        assert((provs[q2]@, mods[q2]@) != key);
    }
    lemma_model_tally_unused(rs, key, i);
    let provs2 = provs.push(p);
    let mods2 = mods.push(m);
    let cnts2 = cnts.push(counted(no_counts(), rs[i]));
    let caches2 = caches.push(sat_add(0, cache_of(rs[i])));
    assert forall|q: int| 0 <= q < provs.len() implies key_at(provs2, mods2, q) == key_at(provs, mods, q) by {
        assert(provs2[q] == provs[q] && mods2[q] == mods[q]);
    }
    assert(key_at(provs2, mods2, provs.len() as int) == key);
    assert forall|q: int| 0 <= q < provs2.len() implies #[trigger] group_entry(rs, i + 1, provs2, mods2, cnts2, caches2, q) by {
        if q < provs.len() {
            assert(group_entry(rs, i, provs, mods, cnts, caches, q));
            let k = key_at(provs, mods, q);
            assert(k != key);
            let j0 = choose|j: int| 0 <= j < i && #[trigger] model_key(rs[j]) == k;
            assert(0 <= j0 < i + 1 && model_key(rs[j0]) == k);
        } else {
            assert(model_key(rs[i]) == key);
        }
    }
    assert forall|q1: int, q2: int|
        0 <= q1 < q2 < provs2.len() implies #[trigger] key_at(provs2, mods2, q1) != #[trigger] key_at(provs2, mods2, q2) by {
        if q2 < provs.len() {
            assert(key_at(provs, mods, q1) != key_at(provs, mods, q2));
        }
    }
    assert forall|j: int| 0 <= j < i + 1 implies #[trigger] covered(rs, j, provs2, mods2) by {
        if j == i {
            assert(key_at(provs2, mods2, provs.len() as int) == model_key(rs[j]));
        } else {
            assert(covered(rs, j, provs, mods));
            let q2 = choose|q: int| 0 <= q < provs.len() && #[trigger] key_at(provs, mods, q) == model_key(rs[j]);
            assert(key_at(provs2, mods2, q2) == model_key(rs[j]));
        }
    }
}

/// The lines grouped by model, in the order the models first occur.
fn group_models(records: &[UsageRecord]) -> (r: (Vec<String>, Vec<String>, Vec<TokenCounts>, Vec<u64>))
    ensures
        groups_ok(records@, records@.len() as int, r.0@, r.1@, r.2@, r.3@),
{
    let ghost rs = records@;
    let mut provs: Vec<String> = Vec::new();
    let mut mods: Vec<String> = Vec::new();
    let mut cnts: Vec<TokenCounts> = Vec::new();
    let mut caches: Vec<u64> = Vec::new();
    proof {
        lemma_groups_empty(rs);
        assert(provs@ == Seq::<String>::empty() && mods@ == Seq::<String>::empty());
        assert(cnts@ == Seq::<TokenCounts>::empty() && caches@ == Seq::<u64>::empty());
    }
    let mut i: usize = 0;
    while i < records.len()
        invariant
            rs == records@,
            i <= records.len(),
            groups_ok(rs, i as int, provs@, mods@, cnts@, caches@),
        decreases records.len() - i,
    {
        proof {
            lemma_groups_at(rs, i as int, provs@, mods@, cnts@, caches@, 0);
        }
        let rec = &records[i];
        let p = listed_name(&rec.provider, "unknown");
        let m = listed_name(&rec.model, "(未标注)");
        assert((p@, m@) == model_key(rs[i as int]));
        let found = find_model(&provs, &mods, &p, &m);
        let extra = match rec.cache_read {
            Some(x) => x,
            None => 0,
        };
        match found {
            Some(idx) => {
                proof {
                    lemma_groups_at(rs, i as int, provs@, mods@, cnts@, caches@, idx as int);
                    lemma_model_tally_requests(rs, (p@, m@), i as int);
                    assert(key_at(provs@, mods@, idx as int) == model_key(rs[i as int]));
                    lemma_group_hit(rs, i as int, provs@, mods@, cnts@, caches@, idx as int);
                }
                let c = add_record(cnts[idx], rec);
                let cr = caches[idx].saturating_add(extra);
                cnts.set(idx, c);
                caches.set(idx, cr);
            },
            None => {
                proof {
                    lemma_group_new(rs, i as int, provs@, mods@, cnts@, caches@, p, m);
                }
                let c = add_record(
                    TokenCounts { requests: 0, prompt_tokens: 0, completion_tokens: 0, total_tokens: 0 },
                    rec,
                );
                provs.push(p);
                mods.push(m);
                cnts.push(c);
                caches.push(0u64.saturating_add(extra));
            },
        }
        i += 1;
    }
    (provs, mods, cnts, caches)
}

/// The usage of each model, the most tokens first: one entry per provider and
/// model named in the history (`unknown` and `(未标注)` standing for none),
/// with the counts of its lines.
#[verifier::rlimit(40)]
pub fn model_counts(records: &[UsageRecord]) -> (r: Vec<ModelTokens>)
    ensures
        forall|k: int| 0 <= k < r@.len() ==> entry_ok(#[trigger] r@[k], records@),
        forall|j: int, k: int|
            0 <= j < k < r@.len() ==> entry_key(#[trigger] r@[j]) != entry_key(#[trigger] r@[k]),
        forall|i: int| 0 <= i < records@.len() ==> key_listed(r@, #[trigger] model_key(records@[i])),
        forall|j: int, k: int|
            0 <= j <= k < r@.len() ==> (#[trigger] r@[j]).counts.total_tokens
                >= (#[trigger] r@[k]).counts.total_tokens,
{
    let ghost rs = records@;
    let (provs, mods, cnts, caches) = group_models(records);
    let mut out: Vec<ModelTokens> = Vec::new();
    let mut q: usize = 0;
    while q < provs.len()
        invariant
            rs == records@,
            q <= provs@.len(),
            groups_ok(rs, rs.len() as int, provs@, mods@, cnts@, caches@),
            forall|k: int| 0 <= k < out@.len() ==> entry_ok(#[trigger] out@[k], rs),
            forall|k: int| 0 <= k < out@.len() ==> exists|g: int|
                0 <= g < q && (#[trigger] provs@[g]@, mods@[g]@) == entry_key(#[trigger] out@[k]),
            forall|g: int| 0 <= g < q ==> key_listed(out@, (#[trigger] provs@[g]@, mods@[g]@)),
            forall|j: int, k: int|
                0 <= j < k < out@.len() ==> entry_key(#[trigger] out@[j]) != entry_key(#[trigger] out@[k]),
            forall|j: int, k: int|
                0 <= j <= k < out@.len() ==> (#[trigger] out@[j]).counts.total_tokens
                    >= (#[trigger] out@[k]).counts.total_tokens,
        decreases provs.len() - q,
    {
        proof {
            lemma_groups_at(rs, rs.len() as int, provs@, mods@, cnts@, caches@, q as int);
            lemma_groups_distinct(rs, rs.len() as int, provs@, mods@, cnts@, caches@);
        }
        let t = cnts[q].total_tokens;
        let mut pos: usize = 0;
        while pos < out.len() && out[pos].counts.total_tokens >= t
            invariant
                pos <= out@.len(),
                forall|k: int| 0 <= k < pos ==> (#[trigger] out@[k]).counts.total_tokens >= t,
            decreases out.len() - pos,
        {
            pos += 1;
        }
        let e = ModelTokens {
            provider_id: provs[q].clone(),
            model: mods[q].clone(),
            counts: cnts[q],
            cache_read: caches[q],
        };
        let ghost old_out = out@;
        let ghost qk = (provs@[q as int]@, mods@[q as int]@);
        assert(entry_key(e) == qk);
        assert forall|k: int| 0 <= k < old_out.len() implies entry_key(#[trigger] old_out[k]) != qk by {
            let g = choose|g: int| 0 <= g < q && (#[trigger] provs@[g]@, mods@[g]@) == entry_key(old_out[k]);
            assert((provs@[g]@, mods@[g]@) != (provs@[q as int]@, mods@[q as int]@));
        }
        out.insert(pos, e);
        proof {
            old_out.insert_ensures(pos as int, e);
            assert forall|k: int| 0 <= k < out@.len() implies entry_ok(#[trigger] out@[k], rs) by {
                if k > pos as int {
                    assert(out@[k] == old_out[k - 1]);
                }
            }
            assert forall|k: int| 0 <= k < out@.len() implies exists|g: int|
                0 <= g < q + 1 && (#[trigger] provs@[g]@, mods@[g]@) == entry_key(#[trigger] out@[k]) by {
                if k < pos as int {
                    assert(out@[k] == old_out[k]);
                } else if k == pos as int {
                    assert((provs@[q as int]@, mods@[q as int]@) == entry_key(out@[k]));
                } else {
                    assert(out@[k] == old_out[k - 1]);
                }
            }
            assert forall|g: int| 0 <= g < q + 1 implies key_listed(out@, (#[trigger] provs@[g]@, mods@[g]@)) by {
                if g == q as int {
                    assert(entry_key(out@[pos as int]) == (provs@[g]@, mods@[g]@));
                } else {
                    let p0 = choose|p: int| 0 <= p < old_out.len() && #[trigger] entry_key(old_out[p]) == (provs@[g]@, mods@[g]@);
                    if p0 < pos as int {
                        assert(entry_key(out@[p0]) == (provs@[g]@, mods@[g]@));
                    } else {
                        assert(entry_key(out@[p0 + 1]) == (provs@[g]@, mods@[g]@));
                    }
                }
            }
            assert forall|j: int, k: int| 0 <= j < k < out@.len() implies entry_key(#[trigger] out@[j]) != entry_key(#[trigger] out@[k]) by {
                let jj = if j < pos as int { j } else { j - 1 };
                let kk = if k < pos as int { k } else { k - 1 };
                if j != pos as int && k != pos as int {
                    assert(out@[j] == old_out[jj]);
                    assert(out@[k] == old_out[kk]);
                } else if j == pos as int {
                    assert(out@[k] == old_out[kk]);
                } else {
                    assert(out@[j] == old_out[jj]);
                }
            }
            assert forall|j: int, k: int| 0 <= j <= k < out@.len() implies (#[trigger] out@[j]).counts.total_tokens
                >= (#[trigger] out@[k]).counts.total_tokens by {
                let jj = if j < pos as int { j } else { j - 1 };
                let kk = if k < pos as int { k } else { k - 1 };
                if j != pos as int && k != pos as int {
                    assert(out@[j] == old_out[jj]);
                    assert(out@[k] == old_out[kk]);
                } else if j == pos as int && k != pos as int {
                    assert(out@[k] == old_out[kk]);
                    assert(old_out[pos as int].counts.total_tokens < t);
                    assert(old_out[pos as int].counts.total_tokens >= old_out[kk].counts.total_tokens);
                } else if k == pos as int && j != pos as int {
                    assert(out@[j] == old_out[jj]);
                }
            }
        }
        q += 1;
    }
    proof {
        assert forall|i: int| 0 <= i < records@.len() implies key_listed(out@, #[trigger] model_key(records@[i])) by {
            let g = lemma_groups_cover(rs, rs.len() as int, provs@, mods@, cnts@, caches@, i);
            assert(key_listed(out@, (provs@[g]@, mods@[g]@)));
        }
    }
    out
}

// ---------------------------------------------------------------- every request counted once

/// The requests of the entries, added up.
pub open spec fn model_requests(es: Seq<ModelTokens>) -> int
    decreases es.len(),
{
    if es.len() == 0 {
        0
    } else {
        model_requests(es.drop_last()) + es.last().counts.requests
    }
}

/// The requests of the first `n` lines counted under each key, added up.
spec fn keys_requests(rs: Seq<UsageRecord>, ks: Seq<(Seq<char>, Seq<char>)>, n: int) -> int
    decreases ks.len(),
{
    if ks.len() == 0 {
        0
    } else {
        keys_requests(rs, ks.drop_last(), n) + model_tally(rs, ks.last(), n).requests
    }
}

spec fn key_count(ks: Seq<(Seq<char>, Seq<char>)>, x: (Seq<char>, Seq<char>)) -> int
    decreases ks.len(),
{
    if ks.len() == 0 {
        0
    } else {
        key_count(ks.drop_last(), x) + if ks.last() == x { 1int } else { 0int }
    }
}

proof fn lemma_keys_requests_none(rs: Seq<UsageRecord>, ks: Seq<(Seq<char>, Seq<char>)>)
    ensures
        keys_requests(rs, ks, 0) == 0,
    decreases ks.len(),
{
    if ks.len() > 0 {
        lemma_keys_requests_none(rs, ks.drop_last());
    }
}

proof fn lemma_keys_requests_step(rs: Seq<UsageRecord>, ks: Seq<(Seq<char>, Seq<char>)>, n: int)
    requires
        0 <= n < rs.len(),
        n + 1 < u64::MAX,
    ensures
        keys_requests(rs, ks, n + 1) == keys_requests(rs, ks, n) + key_count(ks, model_key(rs[n])),
    decreases ks.len(),
{
    if ks.len() > 0 {
        lemma_keys_requests_step(rs, ks.drop_last(), n);
        lemma_model_tally_requests(rs, ks.last(), n);
    }
}

proof fn lemma_key_count_once(ks: Seq<(Seq<char>, Seq<char>)>, x: (Seq<char>, Seq<char>))
    requires
        forall|i: int, j: int| 0 <= i < j < ks.len() ==> ks[i] != ks[j],
        exists|i: int| 0 <= i < ks.len() && ks[i] == x,
    ensures
        key_count(ks, x) == 1,
    decreases ks.len(),
{
    let init = ks.drop_last();
    if ks.last() == x {
        assert forall|i: int| 0 <= i < init.len() implies init[i] != x by {
            assert(ks[i] != ks[ks.len() - 1]);
        }
        lemma_key_count_absent(init, x);
    } else {
        let i0 = choose|i: int| 0 <= i < ks.len() && ks[i] == x;
        assert(init[i0] == x);
        lemma_key_count_once(init, x);
    }
}

proof fn lemma_key_count_absent(ks: Seq<(Seq<char>, Seq<char>)>, x: (Seq<char>, Seq<char>))
    requires
        forall|i: int| 0 <= i < ks.len() ==> ks[i] != x,
    ensures
        key_count(ks, x) == 0,
    decreases ks.len(),
{
    if ks.len() > 0 {
        lemma_key_count_absent(ks.drop_last(), x);
    }
}

spec fn keys_cover(rs: Seq<UsageRecord>, ks: Seq<(Seq<char>, Seq<char>)>) -> bool {
    forall|j: int| 0 <= j < rs.len() ==> #[trigger] key_among(ks, model_key(rs[j]))
}

spec fn key_among(ks: Seq<(Seq<char>, Seq<char>)>, x: (Seq<char>, Seq<char>)) -> bool {
    exists|i: int| 0 <= i < ks.len() && ks[i] == x
}

proof fn lemma_keys_requests_all(rs: Seq<UsageRecord>, ks: Seq<(Seq<char>, Seq<char>)>, n: int)
    requires
        0 <= n <= rs.len(),
        rs.len() < u64::MAX,
        forall|i: int, j: int| 0 <= i < j < ks.len() ==> ks[i] != ks[j],
        keys_cover(rs, ks),
    ensures
        keys_requests(rs, ks, n) == n,
    decreases n,
{
    if n == 0 {
        lemma_keys_requests_none(rs, ks);
    } else {
        lemma_keys_requests_all(rs, ks, n - 1);
        lemma_keys_requests_step(rs, ks, n - 1);
        let x = model_key(rs[n - 1]);
        assert(key_among(ks, x));
        lemma_key_count_once(ks, x);
    }
}

proof fn lemma_tally_all_requests(rs: Seq<UsageRecord>, days: Seq<i64>, n: int)
    requires
        0 <= n <= rs.len(),
        rs.len() == days.len(),
        rs.len() < u64::MAX,
    ensures
        tally(rs, days, i64::MIN as int, i64::MAX as int, n).requests == n,
    decreases n,
{
    if n > 0 {
        lemma_tally_all_requests(rs, days, n - 1);
    }
}

proof fn lemma_entries_requests(rs: Seq<UsageRecord>, es: Seq<ModelTokens>)
    requires
        forall|k: int| 0 <= k < es.len() ==> entry_ok(#[trigger] es[k], rs),
    ensures
        model_requests(es) == keys_requests(rs, es.map_values(|e: ModelTokens| entry_key(e)), rs.len() as int),
    decreases es.len(),
{
    let ks = es.map_values(|e: ModelTokens| entry_key(e));
    if es.len() > 0 {
        let init = es.drop_last();
        assert forall|k: int| 0 <= k < init.len() implies entry_ok(#[trigger] init[k], rs) by {
            assert(init[k] == es[k]);
        }
        lemma_entries_requests(rs, init);
        assert(ks.drop_last() =~= init.map_values(|e: ModelTokens| entry_key(e)));
        assert(entry_ok(es[es.len() - 1], rs));
    }
}

/// Every request of the history is counted under exactly one model: the
/// requests of the per-model entries add up to the total number of requests.
pub proof fn lemma_models_add_up(records: Seq<UsageRecord>, days: Seq<i64>, models: Seq<ModelTokens>)
    requires
        records.len() == days.len(),
        records.len() < u64::MAX,
        forall|k: int| 0 <= k < models.len() ==> entry_ok(#[trigger] models[k], records),
        forall|j: int, k: int|
            0 <= j < k < models.len() ==> entry_key(#[trigger] models[j]) != entry_key(#[trigger] models[k]),
        forall|i: int| 0 <= i < records.len() ==> key_listed(models, #[trigger] model_key(records[i])),
    ensures
        model_requests(models) == tally(records, days, i64::MIN as int, i64::MAX as int, records.len() as int).requests,
{
    let ks = models.map_values(|e: ModelTokens| entry_key(e));
    assert forall|i: int, j: int| 0 <= i < j < ks.len() implies ks[i] != ks[j] by {
        assert(entry_key(models[i]) != entry_key(models[j]));
    }
    assert forall|j: int| 0 <= j < records.len() implies #[trigger] key_among(ks, model_key(records[j])) by {
        assert(key_listed(models, model_key(records[j])));
        let p = choose|p: int| 0 <= p < models.len() && #[trigger] entry_key(models[p]) == model_key(records[j]);
        assert(ks[p] == model_key(records[j]));
    }
    lemma_entries_requests(records, models);
    lemma_keys_requests_all(records, ks, records.len() as int);
    lemma_tally_all_requests(records, days, records.len() as int);
}

proof fn lemma_tally_widens(rs: Seq<UsageRecord>, days: Seq<i64>, lo1: int, hi1: int, lo2: int, hi2: int, n: int)
    requires
        0 <= n <= rs.len(),
        rs.len() == days.len(),
        rs.len() < u64::MAX,
        lo2 <= lo1,
        hi1 <= hi2,
    ensures
        tally(rs, days, lo1, hi1, n).requests <= tally(rs, days, lo2, hi2, n).requests,
    decreases n,
{
    if n > 0 {
        lemma_tally_widens(rs, days, lo1, hi1, lo2, hi2, n - 1);
        lemma_tally_requests(rs, days, lo1, hi1, n - 1);
        lemma_tally_requests(rs, days, lo2, hi2, n - 1);
    }
}

/// The periods nest: today's requests are no more than this week's, this
/// week's and this month's no more than all of them, and this week's no more
/// than this month's when the week began in this month.
pub proof fn lemma_periods_nest(rs: Seq<UsageRecord>, days: Seq<i64>, today: i64, week_start: i64, month_start: i64)
    requires
        rs.len() == days.len(),
        rs.len() < u64::MAX,
        week_start <= today,
        month_start <= today,
    ensures
        tally(rs, days, today as int, today as int, rs.len() as int).requests <= tally(
            rs,
            days,
            week_start as int,
            today as int,
            rs.len() as int,
        ).requests,
        tally(rs, days, week_start as int, today as int, rs.len() as int).requests <= tally(
            rs,
            days,
            i64::MIN as int,
            i64::MAX as int,
            rs.len() as int,
        ).requests,
        tally(rs, days, month_start as int, today as int, rs.len() as int).requests <= tally(
            rs,
            days,
            i64::MIN as int,
            i64::MAX as int,
            rs.len() as int,
        ).requests,
        month_start <= week_start ==> tally(rs, days, week_start as int, today as int, rs.len() as int).requests
            <= tally(rs, days, month_start as int, today as int, rs.len() as int).requests,
{
    let n = rs.len() as int;
    lemma_tally_widens(rs, days, today as int, today as int, week_start as int, today as int, n);
    lemma_tally_widens(rs, days, week_start as int, today as int, i64::MIN as int, i64::MAX as int, n);
    lemma_tally_widens(rs, days, month_start as int, today as int, i64::MIN as int, i64::MAX as int, n);
    if month_start <= week_start {
        lemma_tally_widens(rs, days, week_start as int, today as int, month_start as int, today as int, n);
    }
}

// ---------------------------------------------------------------- reading the history

/// At most this many history lines are read.
pub const HISTORY_LINE_CAP: usize = 200_000;

/// A history line as plain values.
pub open spec fn record_view(r: UsageRecord) -> (i64, Seq<char>, Seq<char>, u64, u64, u64, bool, Option<u64>, Option<u64>) {
    (r.ts, r.provider@, r.model@, r.prompt, r.completion, r.total, r.aux, r.cache_read, r.cache_creation)
}

/// A field every line may leave out: absent gives `default`; present, it must
/// have the field's type (`read` says what it holds, or none).
pub open spec fn defaulted<T>(present: Option<JsonValue>, read: Option<T>, default: T) -> Option<T> {
    match present {
        None => Some(default),
        Some(_) => read,
    }
}

/// An optional count: absent or `null` is none; else a count.
pub open spec fn optional_count(present: Option<JsonValue>) -> Option<Option<u64>> {
    match present {
        None => Some(None),
        Some(JsonValue::Null) => Some(None),
        Some(x) => match as_u64(Some(x)) {
            Some(n) => Some(Some(n as u64)),
            None => None,
        },
    }
}

/// What a parsed history line holds: an object whose fields, each optional,
/// have their types (`ts` an `i64`, `provider` and `model` strings, the counts
/// non-negative integers, `aux` a boolean, the cache counts integers or
/// `null`); other fields are ignored. Anything else is not a record.
pub open spec fn record_of_spec(v: JsonValue) -> Option<(i64, Seq<char>, Seq<char>, u64, u64, u64, bool, Option<u64>, Option<u64>)> {
    if !(v is Object) {
        None
    } else {
        let ts = defaulted(get(v, "ts"@), match as_i64(get(v, "ts"@)) { Some(i) => Some(i as i64), None => None }, 0i64);
        let provider = defaulted(get(v, "provider"@), as_str(get(v, "provider"@)), seq![]);
        let model = defaulted(get(v, "model"@), as_str(get(v, "model"@)), seq![]);
        let prompt = defaulted(get(v, "prompt"@), match as_u64(get(v, "prompt"@)) { Some(n) => Some(n as u64), None => None }, 0u64);
        let completion = defaulted(get(v, "completion"@), match as_u64(get(v, "completion"@)) { Some(n) => Some(n as u64), None => None }, 0u64);
        let total = defaulted(get(v, "total"@), match as_u64(get(v, "total"@)) { Some(n) => Some(n as u64), None => None }, 0u64);
        let aux = defaulted(get(v, "aux"@), as_bool(get(v, "aux"@)), false);
        let cr = optional_count(get(v, "cache_read"@));
        let cc = optional_count(get(v, "cache_creation"@));
        if ts is Some && provider is Some && model is Some && prompt is Some && completion is Some && total is Some
            && aux is Some && cr is Some && cc is Some {
            Some((ts->0, provider->0, model->0, prompt->0, completion->0, total->0, aux->0, cr->0, cc->0))
        } else {
            None
        }
    }
}

fn count_field(v: &JsonValue, key: &str) -> (r: Option<u64>)
    ensures
        r == defaulted(get(*v, key@), match as_u64(get(*v, key@)) { Some(n) => Some(n as u64), None => None }, 0u64),
{
    match json_get(v, key) {
        None => Some(0),
        Some(x) => json_as_u64(Some(x)),
    }
}

fn text_field(v: &JsonValue, key: &str) -> (r: Option<String>)
    ensures
        match r {
            Some(t) => defaulted(get(*v, key@), as_str(get(*v, key@)), seq![]) == Some(t@),
            None => defaulted(get(*v, key@), as_str(get(*v, key@)), seq![]) is None,
        },
{
    match json_get(v, key) {
        None => Some(String::new()),
        Some(x) => match json_as_str(Some(x)) {
            Some(t) => Some(t.to_string()),
            None => None,
        },
    }
}

fn optional_count_field(v: &JsonValue, key: &str) -> (r: Option<Option<u64>>)
    ensures
        r == optional_count(get(*v, key@)),
{
    match json_get(v, key) {
        None => Some(None),
        Some(JsonValue::Null) => Some(None),
        Some(x) => match json_as_u64(Some(x)) {
            Some(n) => Some(Some(n)),
            None => None,
        },
    }
}

/// A history line from its parsed JSON, as `record_of_spec` says.
pub fn record_of(v: &JsonValue) -> (r: Option<UsageRecord>)
    ensures
        match r {
            Some(rec) => record_of_spec(*v) == Some(record_view(rec)),
            None => record_of_spec(*v) is None,
        },
{
    match v {
        JsonValue::Object(_) => {},
        _ => { return None; },
    }
    let ts = match json_get(v, "ts") {
        None => Some(0i64),
        Some(x) => json_as_i64(Some(x)),
    };
    let provider = text_field(v, "provider");
    let model = text_field(v, "model");
    let prompt = count_field(v, "prompt");
    let completion = count_field(v, "completion");
    let total = count_field(v, "total");
    let aux = match json_get(v, "aux") {
        None => Some(false),
        Some(x) => json_as_bool(Some(x)),
    };
    let cr = optional_count_field(v, "cache_read");
    let cc = optional_count_field(v, "cache_creation");
    match (ts, provider, model, prompt, completion, total, aux, cr, cc) {
        (Some(ts), Some(provider), Some(model), Some(prompt), Some(completion), Some(total), Some(aux), Some(cache_read), Some(cache_creation)) => {
            Some(UsageRecord { ts, provider, model, prompt, completion, total, aux, cache_read, cache_creation })
        },
        _ => None,
    }
}

/// The records of the first lines, in order, that parse as records (a line
/// that is not JSON is `None`), at most `HISTORY_LINE_CAP` of them.
pub open spec fn history_views(lines: Seq<Option<JsonValue>>, n: int) -> Seq<(i64, Seq<char>, Seq<char>, u64, u64, u64, bool, Option<u64>, Option<u64>)>
    decreases n,
{
    if n <= 0 {
        seq![]
    } else {
        let prev = history_views(lines, n - 1);
        if prev.len() >= HISTORY_LINE_CAP {
            prev
        } else {
            match lines[n - 1] {
                Some(v) => match record_of_spec(v) {
                    Some(rv) => prev.push(rv),
                    None => prev,
                },
                None => prev,
            }
        }
    }
}

pub open spec fn records_view(rs: Seq<UsageRecord>) -> Seq<(i64, Seq<char>, Seq<char>, u64, u64, u64, bool, Option<u64>, Option<u64>)> {
    rs.map_values(|r: UsageRecord| record_view(r))
}

proof fn lemma_history_capped(lines: Seq<Option<JsonValue>>, n: int)
    requires
        0 <= n,
    ensures
        history_views(lines, n).len() <= HISTORY_LINE_CAP,
    decreases n,
{
    if n > 0 {
        lemma_history_capped(lines, n - 1);
    }
}

/// The usage history read from its lines (blank lines left out by the caller).
pub fn history_records(lines: &[Option<JsonValue>]) -> (r: Vec<UsageRecord>)
    ensures
        records_view(r@) == history_views(lines@, lines@.len() as int),
{
    let mut out: Vec<UsageRecord> = Vec::new();
    let mut i: usize = 0;
    while i < lines.len()
        invariant
            i <= lines@.len(),
            records_view(out@) == history_views(lines@, i as int),
        decreases lines.len() - i,
    {
        proof {
            lemma_history_capped(lines@, i as int);
        }
        if out.len() < HISTORY_LINE_CAP {
            match &lines[i] {
                Some(v) => match record_of(v) {
                    Some(rec) => {
                        let ghost before = out@;
                        out.push(rec);
                        assert(records_view(out@) =~= records_view(before).push(record_view(rec)));
                    },
                    None => {},
                },
                None => {},
            }
        }
        i += 1;
    }
    out
}

/// The first days of this week (a Monday) and this month, as day numbers,
/// given today's number, how many days today is past Monday, and today's day
/// of the month.
pub fn period_starts(today: i64, days_from_monday: u32, day_of_month: u32) -> (r: (i64, i64))
    requires
        days_from_monday < 7,
        1 <= day_of_month <= 31,
        today >= i64::MIN + 31,
    ensures
        r.0 == today - days_from_monday,
        r.1 == today - (day_of_month - 1),
{
    (today - days_from_monday as i64, today - (day_of_month as i64 - 1))
}

} // verus!
