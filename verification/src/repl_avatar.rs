//! The terminal start-up banner: `GQY` in five-row block letters, each row in
//! a colour of a night-sky gradient, then the slogan.
use vstd::prelude::*;
use crate::numbers::{decimal, u64_decimal};
use crate::text::{chars_of, extend_chars, extend_str, string_of};

verus! {

/// Row `r` of letter `k` (G, Q, Y): `1` is a filled cell, `0` an empty one.
pub open spec fn letter_row(k: int, r: int) -> Seq<char> {
    if k == 0 {
        if r == 0 { "01110"@ } else if r == 1 { "10001"@ } else if r == 2 { "10000"@ } else if r == 3 { "10001"@ } else { "01111"@ }
    } else if k == 1 {
        if r == 0 { "01110"@ } else if r == 1 { "10001"@ } else if r == 2 { "10001"@ } else if r == 3 { "10101"@ } else { "01010"@ }
    } else {
        if r == 0 { "10001"@ } else if r == 1 { "01010"@ } else { "00100"@ }
    }
}

fn letter_row_exec(k: usize, r: usize) -> (s: &'static str)
    ensures
        s@ == letter_row(k as int, r as int),
{
    if k == 0 {
        if r == 0 { "01110" } else if r == 1 { "10001" } else if r == 2 { "10000" } else if r == 3 { "10001" } else { "01111" }
    } else if k == 1 {
        if r == 0 { "01110" } else if r == 1 { "10001" } else if r == 2 { "10001" } else if r == 3 { "10101" } else { "01010" }
    } else {
        if r == 0 { "10001" } else if r == 1 { "01010" } else { "00100" }
    }
}

/// The colour of row `r`: deep blue, cold blue, moon white, lilac, silver.
pub open spec fn row_color(r: int) -> (u8, u8, u8) {
    if r == 0 {
        (30, 58, 138)
    } else if r == 1 {
        (59, 130, 246)
    } else if r == 2 {
        (147, 197, 253)
    } else if r == 3 {
        (167, 139, 250)
    } else {
        (203, 213, 225)
    }
}

fn row_color_exec(r: usize) -> (c: (u8, u8, u8))
    ensures
        c == row_color(r as int),
{
    if r == 0 {
        (30, 58, 138)
    } else if r == 1 {
        (59, 130, 246)
    } else if r == 2 {
        (147, 197, 253)
    } else if r == 3 {
        (167, 139, 250)
    } else {
        (203, 213, 225)
    }
}

/// A letter row drawn: two full blocks for a filled cell, two spaces otherwise.
pub open spec fn cells(row: Seq<char>) -> Seq<char>
    decreases row.len(),
{
    if row.len() == 0 {
        seq![]
    } else {
        cells(row.drop_last()) + if row.last() == '1' {
            seq!['\u{2588}', '\u{2588}']
        } else {
            seq![' ', ' ']
        }
    }
}

/// One row of the banner: the three letters' rows, a space between them.
pub open spec fn logo_line(r: int) -> Seq<char> {
    cells(letter_row(0, r)) + seq![' '] + cells(letter_row(1, r)) + seq![' '] + cells(letter_row(2, r))
}

/// An ANSI 24-bit colour escape.
pub open spec fn color_escape(c: (u8, u8, u8)) -> Seq<char> {
    "\x1b[38;2;"@ + decimal(c.0 as nat) + ";"@ + decimal(c.1 as nat) + ";"@ + decimal(c.2 as nat) + "m"@
}

pub open spec fn banner_rows(n: int) -> Seq<char>
    decreases n,
{
    if n <= 0 {
        seq![]
    } else {
        banner_rows(n - 1) + color_escape(row_color(n - 1)) + logo_line(n - 1) + "\x1b[0m\n"@
    }
}

/// The whole banner: five coloured rows, an empty line, the slogan in grey and
/// another empty line.
pub open spec fn banner() -> Seq<char> {
    banner_rows(5) + "\n"@ + color_escape((148, 163, 184)) + "顾清影 · 活在终端里的二次元少女"@ + "\x1b[0m\n"@
        + "\n"@
}

fn push_cells(out: &mut Vec<char>, row: &str)
    ensures
        final(out)@ == old(out)@ + cells(row@),
{
    let c = chars_of(row);
    let ghost start = out@;
    let mut i: usize = 0;
    while i < c.len()
        invariant
            i <= c.len(),
            c@ == row@,
            out@ == start + cells(row@.take(i as int)),
        decreases c.len() - i,
    {
        proof {
            assert(row@.take(i + 1).drop_last() =~= row@.take(i as int));
            assert(row@.take(i + 1).last() == c@[i as int]);
        }
        if c[i] == '1' {
            out.push('\u{2588}');
            out.push('\u{2588}');
        } else {
            out.push(' ');
            out.push(' ');
        }
        i += 1;
    }
    assert(row@.take(c.len() as int) =~= row@);
}

fn push_escape(out: &mut Vec<char>, c: (u8, u8, u8))
    ensures
        final(out)@ == old(out)@ + color_escape(c),
{
    extend_str(out, "\x1b[38;2;");
    extend_chars(out, u64_decimal(c.0 as u64).as_slice());
    extend_str(out, ";");
    extend_chars(out, u64_decimal(c.1 as u64).as_slice());
    extend_str(out, ";");
    extend_chars(out, u64_decimal(c.2 as u64).as_slice());
    extend_str(out, "m");
}

/// Appends the banner to what is to be printed.
pub fn print_if_supported(out: &mut String)
    ensures
        final(out)@ == old(out)@ + banner(),
{
    let mut v = chars_of(out.as_str());
    let ghost start = v@;
    let mut r: usize = 0;
    while r < 5
        invariant
            r <= 5,
            v@ == start + banner_rows(r as int),
        decreases 5 - r,
    {
        push_escape(&mut v, row_color_exec(r));
        push_cells(&mut v, letter_row_exec(0, r));
        v.push(' ');
        push_cells(&mut v, letter_row_exec(1, r));
        v.push(' ');
        push_cells(&mut v, letter_row_exec(2, r));
        extend_str(&mut v, "\x1b[0m\n");
        proof {
            assert(v@ =~= start + banner_rows(r + 1));
        }
        r += 1;
    }
    extend_str(&mut v, "\n");
    push_escape(&mut v, (148, 163, 184));
    extend_str(&mut v, "顾清影 · 活在终端里的二次元少女");
    extend_str(&mut v, "\x1b[0m\n");
    extend_str(&mut v, "\n");
    assert(v@ =~= start + banner());
    *out = string_of(v.as_slice());
}

} // verus!
