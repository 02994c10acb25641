//! Account balances of a model service: which endpoint reports them, and how they
//! read to a person. The HTTP request itself is made by the caller.
use vstd::prelude::*;
use crate::text::{
    ascii_lower_chars, ascii_lower_seq, chars_of, contains, contains_str, ends_with, extend_chars,
    extend_str, has_suffix_str, join_with, slice_chars, string_of, trim_end_char,
    trim_end_char_chars,
};

verus! {

/// One currency's balance as the service reports it (amounts are kept as the
/// decimal text it sends).
#[derive(Debug, Clone)]
pub struct BalanceInfo {
    pub currency: String,
    pub total_balance: String,
    pub granted_balance: String,
    pub topped_up_balance: String,
}

/// `CNY 12.34（总）· 充值 12.34 · 赠送 0.00`
pub open spec fn balance_line(info: BalanceInfo) -> Seq<char> {
    info.currency@ + " "@ + info.total_balance@ + "（总）· 充值 "@ + info.topped_up_balance@
        + " · 赠送 "@ + info.granted_balance@
}

pub open spec fn balance_lines(infos: Seq<BalanceInfo>) -> Seq<Seq<char>> {
    infos.map_values(|info: BalanceInfo| balance_line(info))
}

/// The balances one per currency, joined by `；`; a fixed notice when there are
/// none.
pub open spec fn balances_text(infos: Seq<BalanceInfo>) -> Seq<char> {
    if infos.len() == 0 {
        "余额信息为空"@
    } else {
        join_with(balance_lines(infos), "；"@)
    }
}

fn line_of(info: &BalanceInfo) -> (r: Vec<char>)
    ensures
        r@ == balance_line(*info),
{
    let mut out = chars_of(info.currency.as_str());
    extend_str(&mut out, " ");
    extend_str(&mut out, info.total_balance.as_str());
    extend_str(&mut out, "（总）· 充值 ");
    extend_str(&mut out, info.topped_up_balance.as_str());
    extend_str(&mut out, " · 赠送 ");
    extend_str(&mut out, info.granted_balance.as_str());
    out
}

pub fn format_balances(infos: &[BalanceInfo]) -> (r: String)
    ensures
        r@ == balances_text(infos@),
{
    if infos.len() == 0 {
        return "余额信息为空".to_string();
    }
    let mut out = line_of(&infos[0]);
    proof {
        assert(balance_lines(infos@.take(1)) =~= seq![balance_line(infos@[0])]);
    }
    let mut i: usize = 1;
    while i < infos.len()
        invariant
            1 <= i <= infos.len(),
            out@ == join_with(balance_lines(infos@.take(i as int)), "；"@),
        decreases infos.len() - i,
    {
        let line = line_of(&infos[i]);
        extend_str(&mut out, "；");
        extend_chars(&mut out, line.as_slice());
        proof {
            let next = balance_lines(infos@.take(i + 1));
            assert(next.drop_last() =~= balance_lines(infos@.take(i as int)));
            assert(next.last() == balance_line(infos@[i as int]));
        }
        i += 1;
    }
    proof {
        assert(infos@.take(infos.len() as int) =~= infos@);
    }
    string_of(out.as_slice())
}

/// The balance endpoint for a service base URL: only DeepSeek publishes one, at
/// the root of its domain (`/user/balance`, a `/v1` suffix dropped).
pub open spec fn balance_endpoint(base_url: Seq<char>) -> Option<Seq<char>> {
    let base = trim_end_char(base_url, '/');
    if !contains(ascii_lower_seq(base), "deepseek"@) {
        None
    } else {
        let root = if ends_with(base, "/v1"@) {
            base.take(base.len() - 3)
        } else {
            base
        };
        Some(trim_end_char(root, '/') + "/user/balance"@)
    }
}

pub fn balance_url(base_url: &str) -> (r: Option<String>)
    ensures
        match r {
            Some(u) => balance_endpoint(base_url@) == Some(u@),
            None => balance_endpoint(base_url@) is None,
        },
{
    let raw = chars_of(base_url);
    let base = trim_end_char_chars(raw.as_slice(), '/');
    let lowered = ascii_lower_chars(base.as_slice());
    if !contains_str(lowered.as_slice(), "deepseek") {
        return None;
    }
    let root = if has_suffix_str(base.as_slice(), "/v1") {
        proof {
            reveal_strlit("/v1");
        }
        slice_chars(base.as_slice(), 0, base.len() - 3)
    } else {
        let whole = slice_chars(base.as_slice(), 0, base.len());
        assert(whole@ =~= base@);
        whole
    };
    let mut url = trim_end_char_chars(root.as_slice(), '/');
    extend_str(&mut url, "/user/balance");
    Some(string_of(url.as_slice()))
}

} // verus!
