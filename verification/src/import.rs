//! Importing a tool package: recognising its license, naming the package and
//! its tools, choosing what to install, and switching imported tools off and on.
//! Cloning, copying and the index file itself are handled by the caller.
use vstd::prelude::*;
use crate::paths::{file_name, file_name_of};
use crate::provider::{opt_string_view, strings_view};
use crate::text::{
    char_is_ascii_alphabetic, char_is_ascii_alphanumeric, chars_of, contains, contains_str,
    ends_with, extend_chars, extend_str, has_prefix_str, has_suffix_str, is_ascii_alphabetic,
    is_ascii_alphanumeric, join_with, seq_eq, slice_chars, split_char, split_on_char,
    starts_with, str_is, string_of, trim, trim_char, trim_char_chars, trim_chars, trim_str,
    lemma_split_char_nonempty, lines, lines_of,
};

verus! {

// ---------------------------------------------------------------- license text

/// `char::len_utf8`.
pub open spec fn char_width(c: char) -> nat {
    let u = c as u32;
    if u < 0x80 {
        1
    } else if u < 0x800 {
        2
    } else if u < 0x10000 {
        3
    } else {
        4
    }
}

fn char_width_exec(c: char) -> (r: usize)
    ensures
        r == char_width(c),
{
    let u = c as u32;
    if u < 0x80 {
        1
    } else if u < 0x800 {
        2
    } else if u < 0x10000 {
        3
    } else {
        4
    }
}

/// The number of characters at the front of `s` whose UTF-8 encoding fits in
/// `budget` bytes.
pub open spec fn fitting_chars(s: Seq<char>, budget: int) -> nat
    decreases s.len(),
{
    if s.len() == 0 || budget < char_width(s[0]) {
        0
    } else {
        1 + fitting_chars(s.drop_first(), budget - char_width(s[0]))
    }
}

/// Bytes of the UTF-8 encoding.
pub open spec fn utf8_len(s: Seq<char>) -> nat
    decreases s.len(),
{
    if s.len() == 0 {
        0
    } else {
        char_width(s[0]) + utf8_len(s.drop_first())
    }
}

/// Whether the UTF-8 encoding of `s` has at least `n` bytes.
pub fn utf8_len_at_least(s: &[char], n: usize) -> (r: bool)
    ensures
        r == (utf8_len(s@) >= n),
{
    if n == 0 {
        return true;
    }
    let mut total: usize = 0;
    let mut i: usize = s.len();
    assert(s@.take(s.len() as int) =~= s@);
    while i > 0
        invariant
            i <= s.len(),
            total < n,
            utf8_len(s@) == utf8_len(s@.take(i as int)) + total,
        decreases i,
    {
        proof {
            lemma_utf8_len_split(s@.take(i as int));
            assert(s@.take(i as int).drop_last() =~= s@.take(i - 1));
        }
        let w = char_width_exec(s[i - 1]);
        if w >= n - total {
            return true;
        }
        total = total + w;
        i -= 1;
    }
    proof {
        assert(s@.take(0) =~= Seq::<char>::empty());
    }
    total >= n
}

pub proof fn lemma_utf8_len_split(s: Seq<char>)
    requires
        s.len() > 0,
    ensures
        utf8_len(s) == utf8_len(s.drop_last()) + char_width(s.last()),
    decreases s.len(),
{
    if s.len() > 1 {
        lemma_utf8_len_split(s.drop_first());
        assert(s.drop_first().drop_last() =~= s.drop_last().drop_first());
        assert(s.drop_first().last() == s.last());
        assert(s.drop_last()[0] == s[0]);
        assert(utf8_len(s.drop_last()) == char_width(s[0]) + utf8_len(s.drop_last().drop_first()));
        assert(utf8_len(s) == char_width(s[0]) + utf8_len(s.drop_first()));
    } else {
        assert(s.drop_last() =~= Seq::<char>::empty());
        assert(s.drop_first() =~= Seq::<char>::empty());
        assert(utf8_len(Seq::<char>::empty()) == 0);
        assert(utf8_len(s) == char_width(s[0]) + utf8_len(s.drop_first()));
    }
}

/// The first 2000 bytes of a license text are where it names itself.
pub open spec fn license_head(text: Seq<char>) -> Seq<char> {
    text.take(fitting_chars(text, 2000) as int)
}

/// Byte 2000 of the text, if it has that many, starts a character (slicing
/// there is then defined).
pub open spec fn head_on_boundary(text: Seq<char>) -> bool {
    utf8_len(text) <= 2000 || utf8_len(license_head(text)) == 2000
}

pub proof fn lemma_fitting_chars(s: Seq<char>, budget: int)
    ensures
        fitting_chars(s, budget) <= s.len(),
        budget >= 0 ==> utf8_len(s.take(fitting_chars(s, budget) as int)) <= budget,
        utf8_len(s) <= budget ==> fitting_chars(s, budget) == s.len(),
    decreases s.len(),
{
    if s.len() > 0 {
        lemma_fitting_chars(s.drop_first(), budget - char_width(s[0]));
        let k = fitting_chars(s, budget);
        if k > 0 {
            assert(s.take(k as int).drop_first() =~= s.drop_first().take(k - 1));
            assert(s.take(k as int)[0] == s[0]);
        } else {
            assert(s.take(0) =~= Seq::<char>::empty());
        }
    }
}

fn license_head_exec(text: &[char]) -> (r: Vec<char>)
    ensures
        r@ == license_head(text@),
{
    let mut used: usize = 0;
    let mut i: usize = 0;
    assert(text@.skip(0) =~= text@);
    while i < text.len() && used + char_width_exec(text[i]) <= 2000
        invariant
            i <= text.len(),
            used <= 2000,
            fitting_chars(text@, 2000) == i + fitting_chars(text@.skip(i as int), 2000 - used),
        decreases text.len() - i,
    {
        proof {
            assert(text@.skip(i as int)[0] == text@[i as int]);
            assert(text@.skip(i as int).drop_first() =~= text@.skip(i + 1));
        }
        used = used + char_width_exec(text[i]);
        i += 1;
    }
    proof {
        if i < text.len() {
            assert(text@.skip(i as int)[0] == text@[i as int]);
        }
    }
    slice_chars(text, 0, i)
}

/// Whether byte 2000 of a license text starts a character, as judging the
/// license requires. Callers holding a file's text check this before
/// `identify_license` and `detect_license`.
pub fn license_head_on_boundary(text: &str) -> (r: bool)
    ensures
        r == head_on_boundary(text@),
{
    let t = chars_of(text);
    if !utf8_len_at_least(t.as_slice(), 2001) {
        return true;
    }
    let head = license_head_exec(t.as_slice());
    proof {
        lemma_fitting_chars(text@, 2000);
    }
    utf8_len_at_least(head.as_slice(), 2000)
}

/// The SPDX identifier a license text names, judged by its first 2000 bytes:
/// the GNU licenses, MPL, Apache 2.0, MIT, the BSD licenses, ISC, the Unlicense
/// and CC0.
pub open spec fn license_of(head: Seq<char>) -> Option<Seq<char>> {
    if contains(head, "GNU AFFERO"@) {
        Some("AGPL-3.0"@)
    } else if contains(head, "GNU GENERAL PUBLIC LICENSE"@) {
        if contains(head, "Version 3"@) {
            Some("GPL-3.0"@)
        } else if contains(head, "Version 2"@) {
            Some("GPL-2.0"@)
        } else {
            Some("GPL-3.0"@)
        }
    } else if contains(head, "GNU LESSER GENERAL PUBLIC LICENSE"@) || contains(
        head,
        "GNU LIBRARY GENERAL PUBLIC LICENSE"@,
    ) {
        Some("LGPL-3.0"@)
    } else if contains(head, "MOZILLA PUBLIC LICENSE"@) {
        Some("MPL-2.0"@)
    } else if contains(head, "Apache License"@) && contains(head, "Version 2.0"@) {
        Some("Apache-2.0"@)
    } else if contains(head, "MIT License"@) || contains(
        head,
        "Permission is hereby granted, free of charge"@,
    ) {
        Some("MIT"@)
    } else if contains(head, "BSD 3-Clause"@) || contains(
        head,
        "Redistribution and use in source and binary forms"@,
    ) {
        Some("BSD-3-Clause"@)
    } else if contains(head, "BSD 2-Clause"@) {
        Some("BSD-2-Clause"@)
    } else if contains(head, "ISC License"@) || contains(head, "Permission to use, copy, modify"@) {
        Some("ISC"@)
    } else if contains(head, "This is free and unencumbered software"@) {
        Some("Unlicense"@)
    } else if contains(head, "CC0 1.0"@) {
        Some("CC0-1.0"@)
    } else {
        None
    }
}

pub fn identify_license(text: &str) -> (r: Option<&'static str>)
    requires
        head_on_boundary(text@),
    ensures
        match r {
            Some(s) => license_of(license_head(text@)) == Some(s@),
            None => license_of(license_head(text@)) is None,
        },
        ({
            let h = license_head(text@);
            &&& !contains(h, "GNU AFFERO"@) && contains(h, "GNU GENERAL PUBLIC LICENSE"@) && contains(
                h,
                "Version 2"@,
            ) && !contains(h, "Version 3"@) ==> (r is Some && r->0@ == "GPL-2.0"@)
            &&& !contains(h, "GNU AFFERO"@) && contains(h, "GNU GENERAL PUBLIC LICENSE"@) && contains(
                h,
                "Version 3"@,
            ) ==> (r is Some && r->0@ == "GPL-3.0"@)
            &&& contains(h, "GNU AFFERO"@) ==> (r is Some && r->0@ == "AGPL-3.0"@)
        }),
{
    let t = chars_of(text);
    let hv = license_head_exec(t.as_slice());
    let h = hv.as_slice();
    if contains_str(h, "GNU AFFERO") {
        return Some("AGPL-3.0");
    }
    if contains_str(h, "GNU GENERAL PUBLIC LICENSE") {
        if contains_str(h, "Version 3") {
            return Some("GPL-3.0");
        }
        if contains_str(h, "Version 2") {
            return Some("GPL-2.0");
        }
        return Some("GPL-3.0");
    }
    if contains_str(h, "GNU LESSER GENERAL PUBLIC LICENSE") || contains_str(
        h,
        "GNU LIBRARY GENERAL PUBLIC LICENSE",
    ) {
        return Some("LGPL-3.0");
    }
    if contains_str(h, "MOZILLA PUBLIC LICENSE") {
        return Some("MPL-2.0");
    }
    if contains_str(h, "Apache License") && contains_str(h, "Version 2.0") {
        return Some("Apache-2.0");
    }
    if contains_str(h, "MIT License") || contains_str(
        h,
        "Permission is hereby granted, free of charge",
    ) {
        return Some("MIT");
    }
    if contains_str(h, "BSD 3-Clause") || contains_str(
        h,
        "Redistribution and use in source and binary forms",
    ) {
        return Some("BSD-3-Clause");
    }
    if contains_str(h, "BSD 2-Clause") {
        return Some("BSD-2-Clause");
    }
    if contains_str(h, "ISC License") || contains_str(h, "Permission to use, copy, modify") {
        return Some("ISC");
    }
    if contains_str(h, "This is free and unencumbered software") {
        return Some("Unlicense");
    }
    if contains_str(h, "CC0 1.0") {
        return Some("CC0-1.0");
    }
    None
}

/// A GNU General Public License head that names version 2 and not version 3
/// is GPL-2.0, one that names version 3 is GPL-3.0, and the two are told
/// apart: a version 2 text and a version 3 text never get the same identifier.
pub proof fn lemma_gpl_versions_told_apart(v2: Seq<char>, v3: Seq<char>)
    requires
        contains(v2, "GNU GENERAL PUBLIC LICENSE"@),
        contains(v2, "Version 2"@),
        !contains(v2, "Version 3"@),
        !contains(v2, "GNU AFFERO"@),
        contains(v3, "GNU GENERAL PUBLIC LICENSE"@),
        contains(v3, "Version 3"@),
        !contains(v3, "GNU AFFERO"@),
    ensures
        license_of(v2) == Some("GPL-2.0"@),
        license_of(v3) == Some("GPL-3.0"@),
        license_of(v2) != license_of(v3),
{
    reveal_strlit("GPL-2.0");
    reveal_strlit("GPL-3.0");
    assert("GPL-2.0"@[4] != "GPL-3.0"@[4]);
}

/// Each license is known by its marker text: a head holding a marker, and none
/// of the markers of the GNU licenses, gets the identifier of the first marker
/// it holds in the order MPL, Apache 2.0, MIT, BSD 3-clause, BSD 2-clause, ISC,
/// Unlicense, CC0; a head with no marker at all gets none.
pub proof fn lemma_license_markers(h: Seq<char>)
    ensures
        ({
            let gnu = contains(h, "GNU AFFERO"@) || contains(h, "GNU GENERAL PUBLIC LICENSE"@)
                || contains(h, "GNU LESSER GENERAL PUBLIC LICENSE"@) || contains(
                h,
                "GNU LIBRARY GENERAL PUBLIC LICENSE"@,
            );
            let mpl = contains(h, "MOZILLA PUBLIC LICENSE"@);
            let apache = contains(h, "Apache License"@) && contains(h, "Version 2.0"@);
            let mit = contains(h, "MIT License"@) || contains(
                h,
                "Permission is hereby granted, free of charge"@,
            );
            let bsd3 = contains(h, "BSD 3-Clause"@) || contains(
                h,
                "Redistribution and use in source and binary forms"@,
            );
            let bsd2 = contains(h, "BSD 2-Clause"@);
            let isc = contains(h, "ISC License"@) || contains(h, "Permission to use, copy, modify"@);
            let unl = contains(h, "This is free and unencumbered software"@);
            let cc0 = contains(h, "CC0 1.0"@);
            &&& !contains(h, "GNU AFFERO"@) && !contains(h, "GNU GENERAL PUBLIC LICENSE"@)
                && (contains(h, "GNU LESSER GENERAL PUBLIC LICENSE"@) || contains(
                h,
                "GNU LIBRARY GENERAL PUBLIC LICENSE"@,
            )) ==> license_of(h) == Some("LGPL-3.0"@)
            &&& !gnu && mpl ==> license_of(h) == Some("MPL-2.0"@)
            &&& !gnu && !mpl && apache ==> license_of(h) == Some("Apache-2.0"@)
            &&& !gnu && !mpl && !apache && mit ==> license_of(h) == Some("MIT"@)
            &&& !gnu && !mpl && !apache && !mit && bsd3 ==> license_of(h) == Some("BSD-3-Clause"@)
            &&& !gnu && !mpl && !apache && !mit && !bsd3 && bsd2 ==> license_of(h) == Some(
                "BSD-2-Clause"@,
            )
            &&& !gnu && !mpl && !apache && !mit && !bsd3 && !bsd2 && isc ==> license_of(h) == Some(
                "ISC"@,
            )
            &&& !gnu && !mpl && !apache && !mit && !bsd3 && !bsd2 && !isc && unl ==> license_of(h)
                == Some("Unlicense"@)
            &&& !gnu && !mpl && !apache && !mit && !bsd3 && !bsd2 && !isc && !unl && cc0
                ==> license_of(h) == Some("CC0-1.0"@)
            &&& license_of(h) is None <==> !gnu && !mpl && !apache && !mit && !bsd3 && !bsd2 && !isc
                && !unl && !cc0
        }),
{
}

/// Licenses that allow free redistribution (compatible with a GPL-3.0 project).
pub open spec fn permissive(spdx: Seq<char>) -> bool {
    spdx == "MIT"@ || spdx == "Apache-2.0"@ || spdx == "BSD-2-Clause"@ || spdx == "BSD-3-Clause"@
        || spdx == "ISC"@ || spdx == "Unlicense"@ || spdx == "CC0-1.0"@ || spdx == "MPL-2.0"@
}

/// Licenses whose redistribution must keep the same license.
pub open spec fn copyleft(spdx: Seq<char>) -> bool {
    spdx == "GPL-2.0"@ || spdx == "GPL-3.0"@ || spdx == "AGPL-3.0"@ || spdx == "LGPL-3.0"@
}

pub fn is_permissive(spdx: &str) -> (r: bool)
    ensures
        r == permissive(spdx@),
{
    let v = chars_of(spdx);
    let s = v.as_slice();
    str_is(s, "MIT") || str_is(s, "Apache-2.0") || str_is(s, "BSD-2-Clause") || str_is(
        s,
        "BSD-3-Clause",
    ) || str_is(s, "ISC") || str_is(s, "Unlicense") || str_is(s, "CC0-1.0") || str_is(
        s,
        "MPL-2.0",
    )
}

pub fn is_copyleft(spdx: &str) -> (r: bool)
    ensures
        r == copyleft(spdx@),
{
    let v = chars_of(spdx);
    let s = v.as_slice();
    str_is(s, "GPL-2.0") || str_is(s, "GPL-3.0") || str_is(s, "AGPL-3.0") || str_is(s, "LGPL-3.0")
}

/// How freely a license lets the package be passed on.
#[derive(Debug, Clone, Copy, PartialEq, Eq, Structural)]
pub enum LicenseKind {
    Permissive,
    Copyleft,
    /// A custom license, or none.
    Restricted,
}

/// A package's license as detected.
#[derive(Debug, Clone)]
pub struct LicenseInfo {
    pub spdx: String,
    pub kind: LicenseKind,
}

pub open spec fn kind_of(spdx: Seq<char>) -> LicenseKind {
    if permissive(spdx) {
        LicenseKind::Permissive
    } else if copyleft(spdx) {
        LicenseKind::Copyleft
    } else {
        LicenseKind::Restricted
    }
}

/// The files a package's license is looked for in, in this order.
pub fn license_file_names() -> (r: Vec<&'static str>)
    ensures
        r@.len() == 9,
        r@[0]@ == "LICENSE"@,
        r@[1]@ == "LICENSE.md"@,
        r@[2]@ == "LICENSE.txt"@,
        r@[3]@ == "LICENCE"@,
        r@[4]@ == "LICENCE.md"@,
        r@[5]@ == "COPYING"@,
        r@[6]@ == "COPYING.md"@,
        r@[7]@ == "LICENSE-MIT"@,
        r@[8]@ == "LICENSE-APACHE"@,
{
    vec![
        "LICENSE",
        "LICENSE.md",
        "LICENSE.txt",
        "LICENCE",
        "LICENCE.md",
        "COPYING",
        "COPYING.md",
        "LICENSE-MIT",
        "LICENSE-APACHE",
    ]
}

/// The license named by the first of the candidate files that exists, can be
/// read and names a known license; `unknown` and restricted when none does.
pub open spec fn detected_license(candidates: Seq<Option<Seq<char>>>) -> (Seq<char>, LicenseKind)
    decreases candidates.len(),
{
    if candidates.len() == 0 {
        ("unknown"@, LicenseKind::Restricted)
    } else {
        match candidates[0] {
            Some(t) => match license_of(license_head(t)) {
                Some(spdx) => (spdx, kind_of(spdx)),
                None => detected_license(candidates.drop_first()),
            },
            None => detected_license(candidates.drop_first()),
        }
    }
}

pub open spec fn opt_strings_view(v: Seq<Option<String>>) -> Seq<Option<Seq<char>>> {
    v.map_values(|o: Option<String>| opt_string_view(o))
}

/// The candidates read up to the first that names a license (or all of them)
/// can each be judged: byte 2000 of their text starts a character.
pub open spec fn heads_readable(candidates: Seq<Option<Seq<char>>>) -> bool
    decreases candidates.len(),
{
    if candidates.len() == 0 {
        true
    } else {
        match candidates[0] {
            Some(t) => head_on_boundary(t) && (license_of(license_head(t)) is Some || heads_readable(
                candidates.drop_first(),
            )),
            None => heads_readable(candidates.drop_first()),
        }
    }
}

/// Whether `detect_license` can judge the candidates: `heads_readable`.
pub fn license_heads_readable(candidates: &[Option<String>]) -> (r: bool)
    ensures
        r == heads_readable(opt_strings_view(candidates@)),
{
    let ghost v = opt_strings_view(candidates@);
    let mut i: usize = 0;
    assert(v.skip(0) =~= v);
    while i < candidates.len()
        invariant
            i <= candidates.len(),
            v == opt_strings_view(candidates@),
            heads_readable(v) == heads_readable(v.skip(i as int)),
        decreases candidates.len() - i,
    {
        proof {
            let rest = v.skip(i as int);
            assert(rest[0] == opt_string_view(candidates@[i as int]));
            assert(rest.drop_first() =~= v.skip(i + 1));
        }
        match &candidates[i] {
            Some(text) => {
                if !license_head_on_boundary(text.as_str()) {
                    return false;
                }
                if identify_license(text.as_str()).is_some() {
                    return true;
                }
            },
            None => {},
        }
        i += 1;
    }
    assert(v.skip(candidates@.len() as int) =~= Seq::<Option<Seq<char>>>::empty());
    true
}

/// `detect_license`: `candidates` holds, for each of `license_file_names` in
/// order, the file's text when it exists and could be read.
pub fn detect_license(candidates: &[Option<String>]) -> (r: LicenseInfo)
    requires
        heads_readable(opt_strings_view(candidates@)),
    ensures
        (r.spdx@, r.kind) == detected_license(opt_strings_view(candidates@)),
{
    let mut i: usize = 0;
    assert(opt_strings_view(candidates@).skip(0) =~= opt_strings_view(candidates@));
    while i < candidates.len()
        invariant
            i <= candidates.len(),
            heads_readable(opt_strings_view(candidates@).skip(i as int)),
            detected_license(opt_strings_view(candidates@)) == detected_license(
                opt_strings_view(candidates@).skip(i as int),
            ),
        decreases candidates.len() - i,
    {
        proof {
            let rest = opt_strings_view(candidates@).skip(i as int);
            assert(rest[0] == opt_string_view(candidates@[i as int]));
            assert(rest.drop_first() =~= opt_strings_view(candidates@).skip(i + 1));
        }
        match &candidates[i] {
            Some(text) => {
                match identify_license(text.as_str()) {
                    Some(spdx) => {
                        let kind = if is_permissive(spdx) {
                            LicenseKind::Permissive
                        } else if is_copyleft(spdx) {
                            LicenseKind::Copyleft
                        } else {
                            LicenseKind::Restricted
                        };
                        return LicenseInfo { spdx: spdx.to_string(), kind };
                    },
                    None => {},
                }
            },
            None => {},
        }
        i += 1;
    }
    LicenseInfo { spdx: "unknown".to_string(), kind: LicenseKind::Restricted }
}

// ---------------------------------------------------------------- names

/// The tool id for a script file: its stem (the text before the last `.`),
/// characters other than ASCII letters, digits and `_` as `_`, a `t` in front
/// when the stem does not start with a letter; `tool` for an empty stem.
pub open spec fn tool_id_of(file_name: Seq<char>) -> Seq<char> {
    let stem = if exists|i: int| 0 <= i < file_name.len() && file_name[i] == '.' {
        let i = choose|i: int|
            0 <= i < file_name.len() && file_name[i] == '.' && forall|j: int|
                i < j < file_name.len() ==> file_name[j] != '.';
        file_name.take(i)
    } else {
        file_name
    };
    if stem.len() == 0 {
        "tool"@
    } else {
        let body = stem.map_values(
            |c: char| if is_ascii_alphanumeric(c) || c == '_' { c } else { '_' },
        );
        if is_ascii_alphabetic(stem[0]) {
            body
        } else {
            seq!['t'] + body
        }
    }
}

pub fn normalize_tool_id(file_name: &str) -> (r: String)
    ensures
        r@ == tool_id_of(file_name@),
{
    let f = chars_of(file_name);
    let mut end: usize = f.len();
    let mut k: usize = f.len();
    while k > 0
        invariant
            k <= f.len(),
            forall|j: int| k <= j < f.len() ==> f@[j] != '.',
        ensures
            k <= f.len(),
            forall|j: int| k <= j < f.len() ==> f@[j] != '.',
            k == 0 || f@[k - 1] == '.',
        decreases k,
    {
        if f[k - 1] == '.' {
            break;
        }
        k -= 1;
    }
    if k > 0 {
        end = k - 1;
        proof {
            let c = choose|c: int|
                0 <= c < f@.len() && f@[c] == '.' && forall|j: int| c < j < f@.len() ==> f@[j] != '.';
            assert(f@[end as int] == '.');
            assert(!(c < end));
            assert(!(end < c));
        }
    }
    let stem = slice_chars(f.as_slice(), 0, end);
    assert(k == 0 ==> stem@ =~= f@);
    if stem.len() == 0 {
        return "tool".to_string();
    }
    let mut out: Vec<char> = Vec::new();
    if !char_is_ascii_alphabetic(stem[0]) {
        out.push('t');
    }
    let ghost start = out@;
    let mut i: usize = 0;
    while i < stem.len()
        invariant
            i <= stem.len(),
            out@ == start + stem@.take(i as int).map_values(
                |c: char| if is_ascii_alphanumeric(c) || c == '_' { c } else { '_' },
            ),
        decreases stem.len() - i,
    {
        let c = stem[i];
        out.push(if char_is_ascii_alphanumeric(c) || c == '_' { c } else { '_' });
        proof {
            let f = |c: char| if is_ascii_alphanumeric(c) || c == '_' { c } else { '_' };
            assert(stem@.take(i + 1).map_values(f) =~= stem@.take(i as int).map_values(f).push(f(c)));
        }
        i += 1;
    }
    assert(stem@.take(stem.len() as int) =~= stem@);
    string_of(out.as_slice())
}

/// A package (directory) name: characters other than ASCII letters, digits,
/// `-` and `_` as `-`, no `-` at either end; `imported` when nothing is left.
pub open spec fn package_name_of(name: Seq<char>) -> Seq<char> {
    let dashed = name.map_values(
        |c: char| if is_ascii_alphanumeric(c) || c == '-' || c == '_' { c } else { '-' },
    );
    let t = trim_char(dashed, '-');
    if t.len() == 0 {
        "imported"@
    } else {
        t
    }
}

pub fn sanitize_name(name: &str) -> (r: String)
    ensures
        r@ == package_name_of(name@),
{
    let v = chars_of(name);
    let mut d: Vec<char> = Vec::new();
    let mut i: usize = 0;
    while i < v.len()
        invariant
            i <= v.len(),
            d@ == v@.take(i as int).map_values(
                |c: char| if is_ascii_alphanumeric(c) || c == '-' || c == '_' { c } else { '-' },
            ),
        decreases v.len() - i,
    {
        let c = v[i];
        d.push(if char_is_ascii_alphanumeric(c) || c == '-' || c == '_' { c } else { '-' });
        proof {
            let f = |c: char| if is_ascii_alphanumeric(c) || c == '-' || c == '_' { c } else { '-' };
            assert(v@.take(i + 1).map_values(f) =~= v@.take(i as int).map_values(f).push(f(c)));
        }
        i += 1;
    }
    assert(v@.take(v.len() as int) =~= v@);
    let t = trim_char_chars(d.as_slice(), '-');
    if t.len() == 0 {
        "imported".to_string()
    } else {
        string_of(t.as_slice())
    }
}

/// A source given as a Git URL (`https://`, `git@` or `git://`) rather than a
/// local directory.
pub fn is_git_url(source: &str) -> (r: bool)
    ensures
        r == (starts_with(source@, "https://"@) || starts_with(source@, "git@"@) || starts_with(
            source@,
            "git://"@,
        )),
{
    let s = chars_of(source);
    has_prefix_str(s.as_slice(), "https://") || has_prefix_str(s.as_slice(), "git@")
        || has_prefix_str(s.as_slice(), "git://")
}


// ---------------------------------------------------------------- looking before importing

/// What a candidate script shows of itself: its first three lines, trimmed,
/// blank ones dropped, joined by ` | `, at most 160 characters.
pub open spec fn header_summary(text: Seq<char>) -> Seq<char> {
    let ls = lines(text);
    let first = if ls.len() <= 3 { ls } else { ls.take(3) };
    let joined = join_with(nonblank_lines(first), " | "@);
    if joined.len() <= 160 { joined } else { joined.take(160) }
}

/// The trimmed lines that are not blank.
pub open spec fn nonblank_lines(ls: Seq<Seq<char>>) -> Seq<Seq<char>>
    decreases ls.len(),
{
    if ls.len() == 0 {
        seq![]
    } else {
        let r = nonblank_lines(ls.drop_last());
        let t = trim(ls.last());
        if t.len() > 0 { r.push(t) } else { r }
    }
}

pub fn header_summary_of(text: &str) -> (r: String)
    ensures
        r@ == header_summary(text@),
{
    let t = chars_of(text);
    let ls = lines_of(t.as_slice());
    let ghost lv = lines(text@);
    let n = if ls.len() <= 3 { ls.len() } else { 3 };
    let ghost first = if lv.len() <= 3 { lv } else { lv.take(3) };
    let mut joined: Vec<char> = Vec::new();
    let mut count: usize = 0;
    let mut i: usize = 0;
    while i < n
        invariant
            n <= ls@.len(),
            ls@.len() == lv.len(),
            n == first.len(),
            forall|k: int| 0 <= k < ls@.len() ==> #[trigger] ls@[k]@ == lv[k],
            forall|k: int| 0 <= k < first.len() ==> #[trigger] first[k] == lv[k],
            i <= n,
            count <= i,
            count == nonblank_lines(first.take(i as int)).len(),
            joined@ == join_with(nonblank_lines(first.take(i as int)), " | "@),
        decreases n - i,
    {
        let line = trim_chars(ls[i].as_slice());
        proof {
            assert(first.take(i + 1).drop_last() =~= first.take(i as int));
            assert(first.take(i + 1).last() == lv[i as int]);
        }
        if line.len() > 0 {
            if count > 0 {
                extend_str(&mut joined, " | ");
            }
            extend_chars(&mut joined, line.as_slice());
            proof {
                let before = nonblank_lines(first.take(i as int));
                assert(nonblank_lines(first.take(i + 1)).drop_last() =~= before);
            }
            count += 1;
        }
        i += 1;
    }
    assert(first.take(n as int) =~= first);
    if joined.len() <= 160 {
        string_of(joined.as_slice())
    } else {
        string_of(slice_chars(joined.as_slice(), 0, 160).as_slice())
    }
}

/// `inspect_source`: for each candidate script (its path in the package and
/// its text, when readable) the path and its header summary.
pub fn inspect_source(candidates: &[(String, Option<String>)]) -> (r: Vec<(String, String)>)
    ensures
        r@.len() == candidates@.len(),
        forall|k: int|
            0 <= k < r@.len() ==> (#[trigger] r@[k]).0@ == candidates@[k].0@ && r@[k].1@ == match candidates@[k].1 {
                Some(t) => header_summary(t@),
                None => seq![],
            },
{
    let mut out: Vec<(String, String)> = Vec::new();
    let mut i: usize = 0;
    while i < candidates.len()
        invariant
            i <= candidates.len(),
            out@.len() == i,
            forall|k: int|
                0 <= k < i ==> (#[trigger] out@[k]).0@ == candidates@[k].0@ && out@[k].1@ == match candidates@[k].1 {
                    Some(t) => header_summary(t@),
                    None => seq![],
                },
        decreases candidates.len() - i,
    {
        let summary = match &candidates[i].1 {
            Some(t) => header_summary_of(t.as_str()),
            None => String::new(),
        };
        out.push((candidates[i].0.clone(), summary));
        i += 1;
    }
    out
}

/// Characters a comment may start with before its `Description:`.
pub open spec fn comment_lead(c: char) -> bool {
    c == '#' || c == '/' || c == ';' || c == ' ' || c == '\t'
}

pub open spec fn lead_len(s: Seq<char>) -> nat
    decreases s.len(),
{
    if s.len() > 0 && comment_lead(s[0]) {
        1 + lead_len(s.drop_first())
    } else {
        0
    }
}

/// The description a line gives, if it is a `Description:` (or
/// `description:`) comment.
pub open spec fn line_description(line: Seq<char>) -> Option<Seq<char>> {
    let t = line.skip(lead_len(line) as int);
    if starts_with(t, "Description:"@) {
        Some(trim(t.skip(12)))
    } else if starts_with(t, "description:"@) {
        Some(trim(t.skip(12)))
    } else {
        None
    }
}

pub open spec fn first_description(ls: Seq<Seq<char>>) -> Seq<char>
    decreases ls.len(),
{
    if ls.len() == 0 {
        seq![]
    } else {
        match line_description(ls[0]) {
            Some(d) => d,
            None => first_description(ls.drop_first()),
        }
    }
}

/// A script's description: from the first `Description:` comment among its
/// first 30 lines; empty when there is none.
pub open spec fn script_description(text: Seq<char>) -> Seq<char> {
    let ls = lines(text);
    first_description(if ls.len() <= 30 { ls } else { ls.take(30) })
}

fn line_description_exec(line: &[char]) -> (r: Option<Vec<char>>)
    ensures
        match r {
            Some(d) => line_description(line@) == Some(d@),
            None => line_description(line@) is None,
        },
{
    let mut a: usize = 0;
    assert(line@.skip(0) =~= line@);
    while a < line.len() && (line[a] == '#' || line[a] == '/' || line[a] == ';' || line[a] == ' '
        || line[a] == '\t')
        invariant
            a <= line.len(),
            lead_len(line@) == a + lead_len(line@.skip(a as int)),
        decreases line.len() - a,
    {
        proof {
            assert(line@.skip(a as int)[0] == line@[a as int]);
            assert(line@.skip(a as int).drop_first() =~= line@.skip(a + 1));
        }
        a += 1;
    }
    proof {
        if a < line.len() {
            assert(line@.skip(a as int)[0] == line@[a as int]);
        }
        reveal_strlit("Description:");
        reveal_strlit("description:");
    }
    let t = slice_chars(line, a, line.len());
    assert(t@ =~= line@.skip(lead_len(line@) as int));
    if has_prefix_str(t.as_slice(), "Description:") || has_prefix_str(t.as_slice(), "description:") {
        let rest = slice_chars(t.as_slice(), 12, t.len());
        assert(rest@ =~= t@.skip(12));
        return Some(trim_chars(rest.as_slice()));
    }
    None
}

pub fn read_description(text: &str) -> (r: String)
    ensures
        r@ == script_description(text@),
{
    let t = chars_of(text);
    let ls = lines_of(t.as_slice());
    let ghost lv = lines(text@);
    let ghost first = if lv.len() <= 30 { lv } else { lv.take(30) };
    let n = if ls.len() <= 30 { ls.len() } else { 30 };
    let mut i: usize = 0;
    assert(first.skip(0) =~= first);
    assert(script_description(text@) == first_description(first));
    while i < n
        invariant
            script_description(text@) == first_description(first),
            n <= ls@.len(),
            ls@.len() == lv.len(),
            n == first.len(),
            forall|k: int| 0 <= k < ls@.len() ==> #[trigger] ls@[k]@ == lv[k],
            forall|k: int| 0 <= k < first.len() ==> #[trigger] first[k] == lv[k],
            i <= n,
            first_description(first) == first_description(first.skip(i as int)),
        decreases n - i,
    {
        proof {
            assert(first.skip(i as int)[0] == lv[i as int]);
            assert(first.skip(i as int).drop_first() =~= first.skip(i + 1));
        }
        match line_description_exec(ls[i].as_slice()) {
            Some(d) => {
                proof {
                    let rest = first.skip(i as int);
                    assert(rest[0] == ls@[i as int]@);
                    assert(line_description(rest[0]) == Some(d@));
                    assert(first_description(rest) == d@);
                }
                return string_of(d.as_slice());
            },
            None => {},
        }
        i += 1;
    }
    String::new()
}


// ---------------------------------------------------------------- importing

/// A tool entry of a package manifest, as far as importing reads it.
#[derive(Debug, Clone)]
pub struct ScriptEntry {
    pub id: String,
    pub path: String,
}

/// What is said about the package's license before importing it.
#[derive(Debug, Clone, Copy, PartialEq, Eq, Structural)]
pub enum LicenseNotice {
    /// A license file names no license GQY knows: check it before using it.
    Unrecognised,
    /// No license file: all rights reserved, personal use only.
    NoLicense,
    /// A copyleft license: passing the package on keeps that license.
    Copyleft,
    Quiet,
}

pub open spec fn notice_of(spdx: Seq<char>, kind: LicenseKind) -> LicenseNotice {
    if kind == LicenseKind::Restricted && spdx != "unknown"@ {
        LicenseNotice::Unrecognised
    } else if spdx == "unknown"@ {
        LicenseNotice::NoLicense
    } else if kind == LicenseKind::Copyleft {
        LicenseNotice::Copyleft
    } else {
        LicenseNotice::Quiet
    }
}

/// One tool to install: the manifest entry it comes from, the file name it is
/// copied under, its tool id, and its path in the scripts index.
#[derive(Debug, Clone)]
pub struct PlannedTool {
    pub entry: usize,
    pub file_name: String,
    pub tool_id: String,
    pub index_path: String,
}

/// What an import does.
#[derive(Debug, Clone)]
pub struct ImportPlan {
    pub package_name: String,
    pub notice: LicenseNotice,
    pub tools: Vec<PlannedTool>,
}

/// Why an import was refused.
#[derive(Debug, Clone, Copy, PartialEq, Eq, Structural)]
pub enum ImportError {
    /// None of the candidates asked for with `--only` exists.
    OnlyMatchedNothing,
    /// The package holds no tool.
    NoTools,
}

/// What an import reports.
#[derive(Debug, Clone)]
pub struct ImportResult {
    pub tools: Vec<String>,
    pub skills: Vec<String>,
    /// The license's SPDX identifier, when one was recognised.
    pub license: Option<String>,
}

pub open spec fn entry_file_name(path: Seq<char>) -> Seq<char> {
    match file_name(path) {
        Some(n) => n,
        None => seq![],
    }
}

/// Whether `--only` asks for this entry, by its path or its file name.
pub open spec fn is_wanted(path: Seq<char>, only: Seq<Seq<char>>) -> bool {
    exists|k: int| 0 <= k < only.len() && (only[k] == path || only[k] == entry_file_name(path))
}

/// The entries an import keeps, by index.
pub open spec fn kept_entries(paths: Seq<Seq<char>>, only: Option<Seq<Seq<char>>>) -> Seq<int>
    decreases paths.len(),
{
    if paths.len() == 0 {
        seq![]
    } else {
        let r = kept_entries(paths.drop_last(), only);
        if only is None || is_wanted(paths.last(), only->0) {
            r.push(paths.len() - 1)
        } else {
            r
        }
    }
}

pub open spec fn entry_paths(entries: Seq<ScriptEntry>) -> Seq<Seq<char>> {
    entries.map_values(|e: ScriptEntry| e.path@)
}

/// The package name given, else the source directory's name, else `imported`;
/// cleaned as `sanitize_name` does.
pub open spec fn planned_package(name: Option<Seq<char>>, dir_name: Option<Seq<char>>) -> Seq<char> {
    package_name_of(
        match name {
            Some(n) => n,
            None => match dir_name {
                Some(d) => d,
                None => "imported"@,
            },
        },
    )
}

/// A tool's file name (the entry's id when its path has none), its tool id,
/// and its path in the index, under the package.
pub open spec fn planned_tool(package: Seq<char>, id: Seq<char>, path: Seq<char>) -> (Seq<char>, Seq<char>, Seq<char>) {
    let f = match file_name(path) {
        Some(n) => n,
        None => id,
    };
    (f, tool_id_of(f), package + "/"@ + f)
}

fn wanted_exec(path: &str, only: &[String]) -> (r: bool)
    ensures
        r == is_wanted(path@, strings_view(only@)),
{
    let p = chars_of(path);
    let fname = match file_name_of(p.as_slice()) {
        Some(n) => n,
        None => Vec::new(),
    };
    let mut k: usize = 0;
    while k < only.len()
        invariant
            k <= only.len(),
            p@ == path@,
            fname@ == entry_file_name(path@),
            forall|j: int|
                0 <= j < k ==> !(only@[j]@ == path@ || only@[j]@ == entry_file_name(path@)),
        decreases only.len() - k,
    {
        let w = chars_of(only[k].as_str());
        if seq_eq(w.as_slice(), p.as_slice()) || seq_eq(w.as_slice(), fname.as_slice()) {
            assert(strings_view(only@)[k as int] == only@[k as int]@);
            return true;
        }
        k += 1;
    }
    proof {
        if is_wanted(path@, strings_view(only@)) {
            let j = choose|j: int|
                0 <= j < strings_view(only@).len() && (strings_view(only@)[j] == path@
                    || strings_view(only@)[j] == entry_file_name(path@));
            assert(strings_view(only@)[j] == only@[j]@);
        }
    }
    false
}

/// `import_tools`: what importing a package does, given its detected license,
/// its manifest entries, the candidates asked for with `--only`, the package
/// name asked for and the source directory's name.
pub fn import_tools(
    license: &LicenseInfo,
    entries: &[ScriptEntry],
    only: Option<&[String]>,
    name: Option<&str>,
    dir_name: Option<&str>,
) -> (r: Result<ImportPlan, ImportError>)
    ensures
        ({
            let kept = kept_entries(
                entry_paths(entries@),
                match only {
                    Some(o) => Some(strings_view(o@)),
                    None => None,
                },
            );
            if only is Some && kept.len() == 0 {
                r == Err::<ImportPlan, ImportError>(ImportError::OnlyMatchedNothing)
            } else if kept.len() == 0 {
                r == Err::<ImportPlan, ImportError>(ImportError::NoTools)
            } else {
                r matches Ok(plan) && {
                    let pkg = planned_package(
                        match name {
                            Some(n) => Some(n@),
                            None => None,
                        },
                        match dir_name {
                            Some(d) => Some(d@),
                            None => None,
                        },
                    );
                    &&& plan.package_name@ == pkg
                    &&& plan.notice == notice_of(license.spdx@, license.kind)
                    &&& plan.tools@.len() == kept.len()
                    &&& forall|k: int|
                        0 <= k < kept.len() ==> {
                            let t = #[trigger] plan.tools@[k];
                            let e = entries@[kept[k]];
                            &&& t.entry == kept[k]
                            &&& (t.file_name@, t.tool_id@, t.index_path@) == planned_tool(
                                pkg,
                                e.id@,
                                e.path@,
                            )
                        }
                }
            }
        }),
{
    let ghost only_view = match only {
        Some(o) => Some(strings_view(o@)),
        None => None,
    };
    let ghost paths = entry_paths(entries@);
    let mut kept: Vec<usize> = Vec::new();
    let mut i: usize = 0;
    while i < entries.len()
        invariant
            i <= entries.len(),
            paths == entry_paths(entries@),
            only_view == (match only {
                Some(o) => Some(strings_view(o@)),
                None => None::<Seq<Seq<char>>>,
            }),
            kept@.len() == kept_entries(paths.take(i as int), only_view).len(),
            forall|k: int|
                0 <= k < kept@.len() ==> #[trigger] kept@[k] as int == kept_entries(
                    paths.take(i as int),
                    only_view,
                )[k],
            forall|k: int| 0 <= k < kept@.len() ==> #[trigger] kept@[k] < i,
        decreases entries.len() - i,
    {
        proof {
            assert(paths.take(i + 1).drop_last() =~= paths.take(i as int));
            assert(paths.take(i + 1).last() == entries@[i as int].path@);
        }
        let keep = match only {
            Some(o) => wanted_exec(entries[i].path.as_str(), o),
            None => true,
        };
        if keep {
            kept.push(i);
        }
        i += 1;
    }
    assert(paths.take(entries.len() as int) =~= paths);
    if kept.len() == 0 {
        if only.is_some() {
            return Err(ImportError::OnlyMatchedNothing);
        }
        return Err(ImportError::NoTools);
    }
    let base = match name {
        Some(n) => n,
        None => match dir_name {
            Some(d) => d,
            None => "imported",
        },
    };
    let package_name = sanitize_name(base);
    let notice = if license.kind == LicenseKind::Restricted && !str_is(
        chars_of(license.spdx.as_str()).as_slice(),
        "unknown",
    ) {
        LicenseNotice::Unrecognised
    } else if str_is(chars_of(license.spdx.as_str()).as_slice(), "unknown") {
        LicenseNotice::NoLicense
    } else if license.kind == LicenseKind::Copyleft {
        LicenseNotice::Copyleft
    } else {
        LicenseNotice::Quiet
    };
    let mut tools: Vec<PlannedTool> = Vec::new();
    let mut k: usize = 0;
    while k < kept.len()
        invariant
            k <= kept@.len(),
            kept@.len() == kept_entries(paths, only_view).len(),
            forall|j: int| 0 <= j < kept@.len() ==> #[trigger] kept@[j] as int == kept_entries(paths, only_view)[j],
            forall|j: int| 0 <= j < kept@.len() ==> #[trigger] kept@[j] < entries@.len(),
            tools@.len() == k,
            forall|j: int|
                0 <= j < k ==> {
                    let t = #[trigger] tools@[j];
                    let e = entries@[kept@[j] as int];
                    &&& t.entry == kept@[j]
                    &&& (t.file_name@, t.tool_id@, t.index_path@) == planned_tool(
                        package_name@,
                        e.id@,
                        e.path@,
                    )
                },
        decreases kept@.len() - k,
    {
        let e = &entries[kept[k]];
        let p = chars_of(e.path.as_str());
        let f: Vec<char> = match file_name_of(p.as_slice()) {
            Some(n) => n,
            None => chars_of(e.id.as_str()),
        };
        let fs = string_of(f.as_slice());
        let tool_id = normalize_tool_id(fs.as_str());
        let mut ip = chars_of(package_name.as_str());
        extend_str(&mut ip, "/");
        extend_chars(&mut ip, f.as_slice());
        tools.push(PlannedTool { entry: kept[k], file_name: fs, tool_id, index_path: string_of(ip.as_slice()) });
        k += 1;
    }
    Ok(ImportPlan { package_name, notice, tools })
}

/// The license an import reports: none when it is unknown.
pub fn reported_license(license: &LicenseInfo) -> (r: Option<String>)
    ensures
        match r {
            Some(s) => license.spdx@ != "unknown"@ && s@ == license.spdx@,
            None => license.spdx@ == "unknown"@,
        },
{
    if str_is(chars_of(license.spdx.as_str()).as_slice(), "unknown") {
        None
    } else {
        Some(license.spdx.clone())
    }
}

/// The load policy written to the index: `group` in place of a blank one.
pub fn index_load_policy(policy: &str) -> (r: String)
    ensures
        r@ == (if trim(policy@).len() == 0 { "group"@ } else { policy@ }),
{
    if trim_str(policy).len() == 0 {
        "group".to_string()
    } else {
        policy.to_string()
    }
}


// ---------------------------------------------------------------- the scripts index

/// A tool of the scripts index (`config/scripts/index.json`), as far as these
/// commands read it; a field the entry lacks is `None`.
#[derive(Debug, Clone)]
pub struct IndexedTool {
    pub id: Option<String>,
    pub path: Option<String>,
    pub display_name: Option<String>,
    pub description: Option<String>,
}

/// An entry of the index's `disabled` list.
#[derive(Debug, Clone)]
pub struct DisabledTool {
    pub id: Option<String>,
    pub path: Option<String>,
}

/// Why switching a tool off or on was refused.
#[derive(Debug, Clone, Copy, PartialEq, Eq, Structural)]
pub enum ToggleError {
    /// No tool id or path was given.
    EmptyName,
    /// No imported tool has that id or path.
    NotFound,
}

/// The change to the `disabled` list: which entries stay, and an entry to
/// append.
#[derive(Debug, Clone)]
pub struct DisabledUpdate {
    pub keep: Vec<bool>,
    pub append: Option<(String, String)>,
}

pub open spec fn text_or(o: Option<String>, d: Seq<char>) -> Seq<char> {
    match o {
        Some(s) => s@,
        None => d,
    }
}

/// A tool is meant by its id, its index path, or the path's last segment
/// (with or without `.sh`).
pub open spec fn names_tool(t: IndexedTool, needle: Seq<char>) -> bool {
    let id = text_or(t.id, seq![]);
    let path = text_or(t.path, seq![]);
    id == needle || path == needle || ends_with(path, "/"@ + needle) || ends_with(
        path,
        "/"@ + needle + ".sh"@,
    )
}

pub open spec fn first_named(scripts: Seq<IndexedTool>, needle: Seq<char>) -> Option<int>
    decreases scripts.len(),
{
    if scripts.len() == 0 {
        None
    } else if names_tool(scripts[0], needle) {
        Some(0)
    } else {
        match first_named(scripts.drop_first(), needle) {
            Some(i) => Some(i + 1),
            None => None,
        }
    }
}

pub proof fn lemma_first_named(scripts: Seq<IndexedTool>, needle: Seq<char>)
    ensures
        match first_named(scripts, needle) {
            Some(i) => 0 <= i < scripts.len() && names_tool(scripts[i], needle) && forall|j: int|
                0 <= j < i ==> !names_tool(scripts[j], needle),
            None => forall|j: int| 0 <= j < scripts.len() ==> !names_tool(scripts[j], needle),
        },
    decreases scripts.len(),
{
    if scripts.len() > 0 {
        let rest = scripts.drop_first();
        lemma_first_named(rest, needle);
        assert forall|j: int| 0 <= j < rest.len() implies #[trigger] rest[j] == scripts[j + 1] by {}
        if !names_tool(scripts[0], needle) {
            match first_named(rest, needle) {
                Some(i) => {
                    assert(rest[i] == scripts[i + 1]);
                    assert forall|j: int| 0 <= j < i + 1 implies !names_tool(scripts[j], needle) by {
                        if j > 0 {
                            assert(rest[j - 1] == scripts[j]);
                        }
                    }
                },
                None => {
                    assert forall|j: int| 0 <= j < scripts.len() implies !names_tool(scripts[j], needle) by {
                        if j > 0 {
                            assert(rest[j - 1] == scripts[j]);
                        }
                    }
                },
            }
        }
    }
}

/// A `disabled` entry records this tool (same id or same path).
pub open spec fn records_tool(d: DisabledTool, id: Seq<char>, path: Seq<char>) -> bool {
    opt_string_view(d.id) == Some(id) || opt_string_view(d.path) == Some(path)
}

fn opt_is(o: &Option<String>, v: &[char]) -> (r: bool)
    ensures
        r == (opt_string_view(*o) == Some(v@)),
{
    match o {
        Some(s) => seq_eq(chars_of(s.as_str()).as_slice(), v),
        None => false,
    }
}

fn text_or_empty(o: &Option<String>) -> (r: Vec<char>)
    ensures
        r@ == text_or(*o, seq![]),
{
    match o {
        Some(s) => chars_of(s.as_str()),
        None => Vec::new(),
    }
}

fn names_tool_exec(t: &IndexedTool, needle: &[char]) -> (r: bool)
    ensures
        r == names_tool(*t, needle@),
{
    let id = text_or_empty(&t.id);
    let path = text_or_empty(&t.path);
    let mut a = chars_of("/");
    extend_chars(&mut a, needle);
    let mut b = a.clone();
    extend_str(&mut b, ".sh");
    assert(b@ == "/"@ + needle@ + ".sh"@);
    seq_eq(id.as_slice(), needle) || seq_eq(path.as_slice(), needle) || crate::text::has_suffix(
        path.as_slice(),
        a.as_slice(),
    ) || crate::text::has_suffix(path.as_slice(), b.as_slice())
}

/// Switching an imported tool off (`disable`) or on: the tool meant by the
/// trimmed name is the first of the index that it names; switching off records
/// it unless it already is, switching on drops every record of it.
pub open spec fn toggle_spec(
    scripts: Seq<IndexedTool>,
    disabled: Seq<DisabledTool>,
    id_or_path: Seq<char>,
    disable: bool,
) -> Result<(Seq<bool>, Option<(Seq<char>, Seq<char>)>), ToggleError> {
    let needle = trim(id_or_path);
    if needle.len() == 0 {
        Err(ToggleError::EmptyName)
    } else {
        match first_named(scripts, needle) {
            None => Err(ToggleError::NotFound),
            Some(i) => {
                let id = text_or(scripts[i].id, seq![]);
                let path = text_or(scripts[i].path, seq![]);
                let exists = exists|k: int| 0 <= k < disabled.len() && records_tool(disabled[k], id, path);
                Ok(
                    (
                        Seq::new(disabled.len(), |k: int| disable || !records_tool(disabled[k], id, path)),
                        if disable && !exists { Some((id, path)) } else { None },
                    ),
                )
            },
        }
    }
}

pub open spec fn update_view(r: Result<DisabledUpdate, ToggleError>) -> Result<(Seq<bool>, Option<(Seq<char>, Seq<char>)>), ToggleError> {
    match r {
        Ok(u) => Ok(
            (
                u.keep@,
                match u.append {
                    Some((i, p)) => Some((i@, p@)),
                    None => None,
                },
            ),
        ),
        Err(e) => Err(e),
    }
}

fn toggle_tool_disabled(
    scripts: &[IndexedTool],
    disabled: &[DisabledTool],
    id_or_path: &str,
    disable: bool,
) -> (r: Result<DisabledUpdate, ToggleError>)
    ensures
        update_view(r) == toggle_spec(scripts@, disabled@, id_or_path@, disable),
{
    let needle = trim_str(id_or_path);
    if needle.len() == 0 {
        return Err(ToggleError::EmptyName);
    }
    let mut i: usize = 0;
    proof {
        lemma_first_named(scripts@, needle@);
    }
    while i < scripts.len()
        invariant
            i <= scripts.len(),
            forall|j: int| 0 <= j < i ==> !names_tool(scripts@[j], needle@),
        ensures
            i <= scripts.len(),
            forall|j: int| 0 <= j < i ==> !names_tool(scripts@[j], needle@),
            i < scripts.len() ==> names_tool(scripts@[i as int], needle@),
        decreases scripts.len() - i,
    {
        if names_tool_exec(&scripts[i], needle.as_slice()) {
            break;
        }
        i += 1;
    }
    if i == scripts.len() {
        proof {
            if first_named(scripts@, needle@) is Some {
                let k = first_named(scripts@, needle@)->0;
                assert(names_tool(scripts@[k], needle@));
            }
        }
        return Err(ToggleError::NotFound);
    }
    proof {
        let k = first_named(scripts@, needle@)->0;
        assert(!(k < i));
        assert(!(i < k));
    }
    let id = text_or_empty(&scripts[i].id);
    let path = text_or_empty(&scripts[i].path);
    let mut keep: Vec<bool> = Vec::new();
    let mut exists = false;
    let mut k: usize = 0;
    while k < disabled.len()
        invariant
            k <= disabled.len(),
            keep@.len() == k,
            forall|j: int|
                0 <= j < k ==> #[trigger] keep@[j] == (disable || !records_tool(disabled@[j], id@, path@)),
            exists == (exists|j: int| 0 <= j < k && records_tool(disabled@[j], id@, path@)),
        decreases disabled.len() - k,
    {
        let rec = opt_is(&disabled[k].id, id.as_slice()) || opt_is(&disabled[k].path, path.as_slice());
        keep.push(disable || !rec);
        if rec {
            exists = true;
        }
        k += 1;
    }
    proof {
        let ghost want = Seq::new(disabled@.len(), |j: int| disable || !records_tool(disabled@[j], id@, path@));
        assert(keep@ =~= want);
    }
    let append = if disable && !exists {
        Some((string_of(id.as_slice()), string_of(path.as_slice())))
    } else {
        None
    };
    Ok(DisabledUpdate { keep, append })
}

/// Switches an imported tool off: see `toggle_spec`; `apply_update` applies
/// the result. Switching off twice changes nothing (`lemma_disable_is_idempotent`)
/// and leaves exactly one record of the tool (`lemma_disable_records_once`).
pub fn disable_tool(scripts: &[IndexedTool], disabled: &[DisabledTool], id_or_path: &str) -> (r: Result<
    DisabledUpdate,
    ToggleError,
>)
    ensures
        update_view(r) == toggle_spec(scripts@, disabled@, id_or_path@, true),
{
    toggle_tool_disabled(scripts, disabled, id_or_path, true)
}

/// Switches an imported tool back on: see `toggle_spec`. After a switch off it
/// gives the list back as it was (`lemma_enable_undoes_disable`).
pub fn enable_tool(scripts: &[IndexedTool], disabled: &[DisabledTool], id_or_path: &str) -> (r: Result<
    DisabledUpdate,
    ToggleError,
>)
    ensures
        update_view(r) == toggle_spec(scripts@, disabled@, id_or_path@, false),
{
    toggle_tool_disabled(scripts, disabled, id_or_path, false)
}

// ---------------------------------------------------------------- applying a switch

/// A `disabled` entry as its id and path.
pub open spec fn disabled_entry_view(d: DisabledTool) -> (Option<Seq<char>>, Option<Seq<char>>) {
    (opt_string_view(d.id), opt_string_view(d.path))
}

pub open spec fn disabled_view(ds: Seq<DisabledTool>) -> Seq<(Option<Seq<char>>, Option<Seq<char>>)> {
    ds.map_values(|d: DisabledTool| disabled_entry_view(d))
}

/// The first `n` entries that the mask keeps.
pub open spec fn masked<T>(v: Seq<T>, keep: Seq<bool>, n: int) -> Seq<T>
    decreases n,
{
    if n <= 0 {
        seq![]
    } else {
        let prev = masked(v, keep, n - 1);
        if keep[n - 1] {
            prev.push(v[n - 1])
        } else {
            prev
        }
    }
}

/// The `disabled` list after a switch: the kept entries, then the new record.
pub open spec fn applied(
    v: Seq<(Option<Seq<char>>, Option<Seq<char>>)>,
    keep: Seq<bool>,
    append: Option<(Seq<char>, Seq<char>)>,
) -> Seq<(Option<Seq<char>>, Option<Seq<char>>)> {
    masked(v, keep, v.len() as int) + match append {
        Some((i, p)) => seq![(Some(i), Some(p))],
        None => seq![],
    }
}

pub open spec fn append_view(a: Option<(String, String)>) -> Option<(Seq<char>, Seq<char>)> {
    match a {
        Some((i, p)) => Some((i@, p@)),
        None => None,
    }
}

/// The `disabled` list after a switch.
pub fn apply_update(disabled: Vec<DisabledTool>, u: DisabledUpdate) -> (r: Vec<DisabledTool>)
    requires
        u.keep@.len() == disabled@.len(),
    ensures
        disabled_view(r@) == applied(disabled_view(disabled@), u.keep@, append_view(u.append)),
{
    let ghost dv = disabled_view(disabled@);
    let n = disabled.len();
    let mut rest = disabled;
    let mut rev: Vec<DisabledTool> = Vec::new();
    while rest.len() > 0
        invariant
            rest@.len() + rev@.len() == n,
            n == dv.len(),
            forall|k: int| 0 <= k < rest@.len() ==> disabled_entry_view(#[trigger] rest@[k]) == dv[k],
            forall|k: int| 0 <= k < rev@.len() ==> disabled_entry_view(#[trigger] rev@[k]) == dv[n - 1 - k],
        decreases rest.len(),
    {
        let ghost before = rest@;
        let x = rest.pop().unwrap();
        proof {
            assert(x == before[before.len() - 1]);
        }
        rev.push(x);
        proof {
            assert forall|k: int| 0 <= k < rest@.len() implies disabled_entry_view(#[trigger] rest@[k]) == dv[k] by {
                assert(rest@[k] == before[k]);
            }
        }
    }
    let mut out: Vec<DisabledTool> = Vec::new();
    while rev.len() > 0
        invariant
            rev@.len() <= n,
            n == dv.len(),
            u.keep@.len() == n,
            forall|k: int| 0 <= k < rev@.len() ==> disabled_entry_view(#[trigger] rev@[k]) == dv[n - 1 - k],
            disabled_view(out@) == masked(dv, u.keep@, n - rev@.len()),
        decreases rev.len(),
    {
        let ghost before = rev@;
        let i = n - rev.len();
        let x = rev.pop().unwrap();
        proof {
            assert(x == before[before.len() - 1]);
            assert(disabled_entry_view(x) == dv[i as int]);
            assert forall|k: int| 0 <= k < rev@.len() implies disabled_entry_view(#[trigger] rev@[k]) == dv[n - 1 - k] by {
                assert(rev@[k] == before[k]);
            }
        }
        if u.keep[i] {
            let ghost ob = out@;
            out.push(x);
            assert(disabled_view(out@) =~= disabled_view(ob).push(dv[i as int]));
        }
    }
    let ghost a = append_view(u.append);
    match u.append {
        Some((id, path)) => {
            out.push(DisabledTool { id: Some(id), path: Some(path) });
        },
        None => {},
    }
    assert(disabled_view(out@) =~= applied(dv, u.keep@, a));
    out
}

proof fn lemma_kept_all<T>(v: Seq<T>, keep: Seq<bool>, n: int)
    requires
        0 <= n <= v.len(),
        n <= keep.len(),
        forall|j: int| 0 <= j < n ==> #[trigger] keep[j],
    ensures
        masked(v, keep, n) == v.take(n),
    decreases n,
{
    if n > 0 {
        lemma_kept_all(v, keep, n - 1);
        assert(v.take(n) =~= v.take(n - 1).push(v[n - 1]));
    }
}

proof fn lemma_kept_prefix<T>(v: Seq<T>, w: Seq<T>, keep: Seq<bool>, n: int)
    requires
        0 <= n <= v.len(),
        n <= w.len(),
        forall|j: int| 0 <= j < n ==> #[trigger] v[j] == w[j],
    ensures
        masked(v, keep, n) == masked(w, keep, n),
    decreases n,
{
    if n > 0 {
        lemma_kept_prefix(v, w, keep, n - 1);
    }
}

/// The tool a successful switch means, with its id and path.
proof fn lemma_toggle_target(scripts: Seq<IndexedTool>, d: Seq<DisabledTool>, x: Seq<char>, disable: bool) -> (t: (
    Seq<char>,
    Seq<char>,
))
    requires
        toggle_spec(scripts, d, x, disable) is Ok,
    ensures
        ({
            let (id, path) = t;
            let exists = exists|k: int| 0 <= k < d.len() && records_tool(d[k], id, path);
            toggle_spec(scripts, d, x, disable) == Ok::<(Seq<bool>, Option<(Seq<char>, Seq<char>)>), ToggleError>(
                (
                    Seq::new(d.len(), |k: int| disable || !records_tool(d[k], id, path)),
                    if disable && !exists { Some((id, path)) } else { None },
                ),
            )
        }),
        forall|d2: Seq<DisabledTool>| toggle_spec(scripts, d2, x, disable) is Ok && toggle_spec(scripts, d2, x, !disable) is Ok && ({
            let (id, path) = t;
            let exists = exists|k: int| 0 <= k < d2.len() && records_tool(d2[k], id, path);
            &&& #[trigger] toggle_spec(scripts, d2, x, true) == Ok::<(Seq<bool>, Option<(Seq<char>, Seq<char>)>), ToggleError>(
                (
                    Seq::new(d2.len(), |k: int| true || !records_tool(d2[k], id, path)),
                    if !exists { Some((id, path)) } else { None },
                ),
            )
            &&& toggle_spec(scripts, d2, x, false) == Ok::<(Seq<bool>, Option<(Seq<char>, Seq<char>)>), ToggleError>(
                (Seq::new(d2.len(), |k: int| false || !records_tool(d2[k], id, path)), None),
            )
        }),
{
    let needle = trim(x);
    let i = first_named(scripts, needle)->0;
    lemma_first_named(scripts, needle);
    let id = text_or(scripts[i].id, seq![]);
    let path = text_or(scripts[i].path, seq![]);
    assert forall|d2: Seq<DisabledTool>| toggle_spec(scripts, d2, x, disable) is Ok && toggle_spec(scripts, d2, x, !disable) is Ok && ({
            let exists = exists|k: int| 0 <= k < d2.len() && records_tool(d2[k], id, path);
            &&& #[trigger] toggle_spec(scripts, d2, x, true) == Ok::<(Seq<bool>, Option<(Seq<char>, Seq<char>)>), ToggleError>(
                (
                    Seq::new(d2.len(), |k: int| true || !records_tool(d2[k], id, path)),
                    if !exists { Some((id, path)) } else { None },
                ),
            )
            &&& toggle_spec(scripts, d2, x, false) == Ok::<(Seq<bool>, Option<(Seq<char>, Seq<char>)>), ToggleError>(
                (Seq::new(d2.len(), |k: int| false || !records_tool(d2[k], id, path)), None),
            )
        }) by {
        let on = toggle_spec(scripts, d2, x, true);
        let off = toggle_spec(scripts, d2, x, false);
        assert(on->Ok_0.0 =~= Seq::new(d2.len(), |k: int| true || !records_tool(d2[k], id, path)));
        assert(off->Ok_0.0 =~= Seq::new(d2.len(), |k: int| false || !records_tool(d2[k], id, path)));
    }
    (id, path)
}

/// Switching a tool off twice is switching it off once: the second switch
/// leaves the `disabled` list as the first one made it.
pub proof fn lemma_disable_is_idempotent(
    scripts: Seq<IndexedTool>,
    d1: Seq<DisabledTool>,
    d2: Seq<DisabledTool>,
    x: Seq<char>,
)
    requires
        toggle_spec(scripts, d1, x, true) matches Ok((k, a)) && disabled_view(d2) == applied(
            disabled_view(d1),
            k,
            a,
        ),
    ensures
        toggle_spec(scripts, d2, x, true) matches Ok((k2, a2)) && applied(disabled_view(d2), k2, a2)
            == disabled_view(d2),
{
    let (id, path) = lemma_toggle_target(scripts, d1, x, true);
    let k = Seq::new(d1.len(), |j: int| true || !records_tool(d1[j], id, path));
    let v1 = disabled_view(d1);
    lemma_kept_all(v1, k, v1.len() as int);
    assert(v1.take(v1.len() as int) =~= v1);
    let v2 = disabled_view(d2);
    assert(toggle_spec(scripts, d2, x, true) is Ok);
    if exists|j: int| 0 <= j < d1.len() && records_tool(d1[j], id, path) {
        let j = choose|j: int| 0 <= j < d1.len() && records_tool(d1[j], id, path);
        assert(v2 =~= v1);
        assert(disabled_entry_view(d2[j]) == v2[j]);
        assert(disabled_entry_view(d1[j]) == v1[j]);
        assert(records_tool(d2[j], id, path));
    } else {
        let j = d1.len() as int;
        assert(v2 =~= v1.push((Some(id), Some(path))));
        assert(disabled_entry_view(d2[j]) == v2[j]);
        assert(records_tool(d2[j], id, path));
    }
    let k2 = Seq::new(d2.len(), |j: int| true || !records_tool(d2[j], id, path));
    lemma_kept_all(v2, k2, v2.len() as int);
    assert(v2.take(v2.len() as int) =~= v2);
    assert(applied(v2, k2, None) =~= v2);
}

/// Switching a tool back on undoes switching it off: when the tool had no
/// record before, the `disabled` list is as it was.
pub proof fn lemma_enable_undoes_disable(
    scripts: Seq<IndexedTool>,
    d1: Seq<DisabledTool>,
    d2: Seq<DisabledTool>,
    x: Seq<char>,
)
    requires
        toggle_spec(scripts, d1, x, true) matches Ok((k, a)) && a is Some && disabled_view(d2)
            == applied(disabled_view(d1), k, a),
    ensures
        toggle_spec(scripts, d2, x, false) matches Ok((k2, a2)) && applied(disabled_view(d2), k2, a2)
            == disabled_view(d1),
{
    let (id, path) = lemma_toggle_target(scripts, d1, x, true);
    let k = Seq::new(d1.len(), |j: int| true || !records_tool(d1[j], id, path));
    let v1 = disabled_view(d1);
    lemma_kept_all(v1, k, v1.len() as int);
    assert(v1.take(v1.len() as int) =~= v1);
    let v2 = disabled_view(d2);
    assert(toggle_spec(scripts, d2, x, true) is Ok);
    assert(v2 =~= v1.push((Some(id), Some(path))));
    let k2 = Seq::new(d2.len(), |j: int| false || !records_tool(d2[j], id, path));
    let n1 = d1.len() as int;
    assert forall|j: int| 0 <= j < n1 implies #[trigger] k2[j] by {
        assert(disabled_entry_view(d2[j]) == v2[j]);
        assert(disabled_entry_view(d1[j]) == v1[j]);
        assert(!records_tool(d1[j], id, path));
    }
    assert forall|j: int| 0 <= j < n1 implies #[trigger] v2[j] == v1[j] by {}
    assert(disabled_entry_view(d2[n1]) == v2[n1]);
    assert(records_tool(d2[n1], id, path));
    assert(!k2[n1]);
    lemma_kept_all(v1, k2, n1);
    lemma_kept_prefix(v2, v1, k2, n1);
    assert(masked(v2, k2, n1 + 1) == masked(v2, k2, n1));
    assert(applied(v2, k2, None) =~= v1);
}

/// Switching a tool off that had no record leaves exactly one record of it,
/// holding its id and path, after the entries that were there.
pub proof fn lemma_disable_records_once(
    scripts: Seq<IndexedTool>,
    d1: Seq<DisabledTool>,
    d2: Seq<DisabledTool>,
    x: Seq<char>,
)
    requires
        toggle_spec(scripts, d1, x, true) matches Ok((k, a)) && a is Some && disabled_view(d2)
            == applied(disabled_view(d1), k, a),
    ensures
        toggle_spec(scripts, d1, x, true) matches Ok((k, a)) && a matches Some((id, path)) && {
            let v2 = disabled_view(d2);
            &&& v2.len() == d1.len() + 1
            &&& v2[d1.len() as int] == (Some(id), Some(path))
            &&& forall|j: int|
                0 <= j < v2.len() ==> ((v2[j].0 == Some(id) || v2[j].1 == Some(path)) <==> j == d1.len())
        },
{
    let (id, path) = lemma_toggle_target(scripts, d1, x, true);
    let k = Seq::new(d1.len(), |j: int| true || !records_tool(d1[j], id, path));
    let v1 = disabled_view(d1);
    lemma_kept_all(v1, k, v1.len() as int);
    assert(v1.take(v1.len() as int) =~= v1);
    let v2 = disabled_view(d2);
    assert(v2 =~= v1.push((Some(id), Some(path))));
    assert forall|j: int| 0 <= j < v2.len() implies ((v2[j].0 == Some(id) || v2[j].1 == Some(path)) <==> j
        == d1.len()) by {
        if j < d1.len() {
            assert(disabled_entry_view(d1[j]) == v1[j]);
            assert(!records_tool(d1[j], id, path));
        }
    }
}

} // verus!
