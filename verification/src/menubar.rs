//! The menu bar app's build plan: where its sources and icon are taken from,
//! how the shell is compiled, which icon sizes are made, and which shared
//! resources are bundled. Building, copying and signing are the caller's.
use vstd::prelude::*;
use crate::paths::{join_path, join_spec};
use crate::text::{chars_of, extend_str, str_is, string_of};

verus! {

pub open spec fn strings_view(v: Seq<String>) -> Seq<Seq<char>> {
    v.map_values(|s: String| s@)
}

/// Where the menu bar's sources (`main.m`) may be, in order.
pub open spec fn source_dirs_spec(share: Seq<char>) -> Seq<Seq<char>> {
    seq![
        join_spec(share, "macos/GQYMenuBar"@),
        join_spec(share, "menubar"@),
        join_spec(share, "src/../macos/GQYMenuBar"@),
    ]
}

pub fn source_dirs(share: &str) -> (r: Vec<String>)
    ensures
        strings_view(r@) == source_dirs_spec(share@),
{
    let v = vec![
        join_path(share, "macos/GQYMenuBar"),
        join_path(share, "menubar"),
        join_path(share, "src/../macos/GQYMenuBar"),
    ];
    assert(strings_view(v@) =~= source_dirs_spec(share@));
    v
}

/// The first place that holds what is looked for.
pub open spec fn first_present_spec(present: Seq<bool>) -> Option<int>
    decreases present.len(),
{
    if present.len() == 0 {
        None
    } else {
        match first_present_spec(present.drop_last()) {
            Some(i) => Some(i),
            None => if present.last() {
                Some(present.len() - 1)
            } else {
                None
            },
        }
    }
}

pub fn first_present(present: &[bool]) -> (r: Option<usize>)
    ensures
        match r {
            Some(i) => first_present_spec(present@) == Some(i as int),
            None => first_present_spec(present@) is None,
        },
{
    let mut i: usize = 0;
    while i < present.len()
        invariant
            i <= present@.len(),
            first_present_spec(present@.take(i as int)) is None,
        decreases present.len() - i,
    {
        assert(present@.take(i + 1).drop_last() =~= present@.take(i as int));
        if present[i] {
            proof {
                lemma_first_present_prefix(present@, i as int + 1);
            }
            return Some(i);
        }
        i += 1;
    }
    assert(present@.take(present@.len() as int) =~= present@);
    None
}

proof fn lemma_first_present_prefix(present: Seq<bool>, n: int)
    requires
        0 <= n <= present.len(),
        first_present_spec(present.take(n)) is Some,
    ensures
        first_present_spec(present) == first_present_spec(present.take(n)),
    decreases present.len() - n,
{
    if n < present.len() {
        assert(present.take(n + 1).drop_last() =~= present.take(n));
        lemma_first_present_prefix(present, n + 1);
    } else {
        assert(present.take(n) =~= present);
    }
}

/// The message when no place holds the menu bar's sources.
pub const NO_SOURCES: &'static str = "找不到菜单栏源码 main.m（预期 share/gqy/menubar 或源码树 macos/GQYMenuBar）";

/// The menu bar's sources: the first of `source_dirs` that holds `main.m`.
pub fn menubar_sources(share: &str, has_main: &[bool]) -> (r: Result<String, &'static str>)
    ensures
        match r {
            Ok(d) => match first_present_spec(has_main@) {
                Some(i) => i < 3 && d@ == source_dirs_spec(share@)[i],
                None => false,
            },
            Err(m) => m@ == NO_SOURCES@ && match first_present_spec(has_main@) {
                Some(i) => i >= 3,
                None => true,
            },
        },
{
    let dirs = source_dirs(share);
    assert(strings_view(dirs@).len() == dirs@.len());
    assert(dirs@.len() == 3);
    match first_present(has_main) {
        Some(i) => {
            if i < dirs.len() {
                assert(dirs@[i as int]@ == strings_view(dirs@)[i as int]);
                let d = dirs[i].clone();
                assert(d@ == source_dirs_spec(share@)[i as int]);
                Ok(d)
            } else {
                Err(NO_SOURCES)
            }
        },
        None => Err(NO_SOURCES),
    }
}

/// The icon: the first of `pics/GQY-icon.png` and `GQY-icon.png` that exists,
/// else the first.
pub open spec fn icon_spec(share: Seq<char>, in_pics: bool, at_top: bool) -> Seq<char> {
    if !in_pics && at_top {
        join_spec(share, "GQY-icon.png"@)
    } else {
        join_spec(share, "pics/GQY-icon.png"@)
    }
}

pub fn icon_png(share: &str, in_pics: bool, at_top: bool) -> (r: String)
    ensures
        r@ == icon_spec(share@, in_pics, at_top),
{
    if !in_pics && at_top {
        join_path(share, "GQY-icon.png")
    } else {
        join_path(share, "pics/GQY-icon.png")
    }
}

/// The sizes of the app icon and the file each goes to.
pub open spec fn icon_sizes_spec() -> Seq<(u32, Seq<char>)> {
    seq![
        (16u32, "icon_16x16.png"@),
        (32u32, "icon_16x16@2x.png"@),
        (32u32, "icon_32x32.png"@),
        (64u32, "icon_32x32@2x.png"@),
        (128u32, "icon_128x128.png"@),
        (256u32, "icon_128x128@2x.png"@),
        (256u32, "icon_256x256.png"@),
        (512u32, "icon_256x256@2x.png"@),
        (512u32, "icon_512x512.png"@),
        (1024u32, "icon_512x512@2x.png"@),
    ]
}

pub fn icon_sizes() -> (r: Vec<(u32, &'static str)>)
    ensures
        r@.map_values(|e: (u32, &'static str)| (e.0, e.1@)) == icon_sizes_spec(),
{
    let v = vec![
        (16u32, "icon_16x16.png"),
        (32u32, "icon_16x16@2x.png"),
        (32u32, "icon_32x32.png"),
        (64u32, "icon_32x32@2x.png"),
        (128u32, "icon_128x128.png"),
        (256u32, "icon_128x128@2x.png"),
        (256u32, "icon_256x256.png"),
        (512u32, "icon_256x256@2x.png"),
        (512u32, "icon_512x512.png"),
        (1024u32, "icon_512x512@2x.png"),
    ];
    assert(v@.map_values(|e: (u32, &'static str)| (e.0, e.1@)) =~= icon_sizes_spec());
    v
}

/// The compiler's arguments after `xcrun clang`: ARC and modules with the
/// module cache given, the frameworks, the lowest macOS, the source and the
/// binary.
pub open spec fn clang_args_spec(module_cache: Seq<char>, main_m: Seq<char>, binary: Seq<char>) -> Seq<Seq<char>> {
    seq![
        "-fobjc-arc"@,
        "-fmodules"@,
        "-fmodules-cache-path="@ + module_cache,
        "-framework"@,
        "AppKit"@,
        "-framework"@,
        "Foundation"@,
        "-framework"@,
        "QuartzCore"@,
        "-framework"@,
        "Carbon"@,
        "-mmacosx-version-min=13.0"@,
        main_m,
        "-o"@,
        binary,
    ]
}

pub fn clang_args(module_cache: &str, main_m: &str, binary: &str) -> (r: Vec<String>)
    ensures
        strings_view(r@) == clang_args_spec(module_cache@, main_m@, binary@),
{
    let mut cache = chars_of("-fmodules-cache-path=");
    extend_str(&mut cache, module_cache);
    let v = vec![
        "-fobjc-arc".to_string(),
        "-fmodules".to_string(),
        string_of(cache.as_slice()),
        "-framework".to_string(),
        "AppKit".to_string(),
        "-framework".to_string(),
        "Foundation".to_string(),
        "-framework".to_string(),
        "QuartzCore".to_string(),
        "-framework".to_string(),
        "Carbon".to_string(),
        "-mmacosx-version-min=13.0".to_string(),
        main_m.to_string(),
        "-o".to_string(),
        binary.to_string(),
    ];
    assert(strings_view(v@) =~= clang_args_spec(module_cache@, main_m@, binary@));
    v
}

/// The `PlistBuddy` commands that stamp the version into `Info.plist`.
pub fn version_commands(version: &str) -> (r: (String, String))
    ensures
        r.0@ == "Set :CFBundleShortVersionString "@ + version@,
        r.1@ == "Set :CFBundleVersion "@ + version@,
{
    let mut a = chars_of("Set :CFBundleShortVersionString ");
    extend_str(&mut a, version);
    let mut b = chars_of("Set :CFBundleVersion ");
    extend_str(&mut b, version);
    (string_of(a.as_slice()), string_of(b.as_slice()))
}

/// Where the app is installed: `顾清影.app` in the user's `Applications`.
pub fn app_dir(home: &str) -> (r: String)
    ensures
        r@ == join_spec(join_spec(home@, "Applications"@), "顾清影.app"@),
{
    join_path(join_path(home, "Applications").as_str(), "顾清影.app")
}

/// The shared resources a bundle may take, each with the place it goes to,
/// in the order they are tried.
pub open spec fn share_sources() -> Seq<(Seq<char>, Seq<char>)> {
    seq![
        ("scripts"@, "scripts"@),
        ("src/scripts"@, "scripts"@),
        ("src/memes"@, "memes"@),
        ("memes"@, "memes"@),
        ("kb"@, "kb"@),
        ("communication"@, "bridges"@),
    ]
}

/// Whether a copy to `target` is already planned.
pub open spec fn has_target(plan: Seq<(Seq<char>, Seq<char>)>, target: Seq<char>) -> bool {
    exists|i: int| 0 <= i < plan.len() && plan[i].1 == target
}

/// The copies planned from the first `n` sources: a source that exists is
/// copied unless an earlier one already went to its place.
pub open spec fn share_plan(share: Seq<char>, present: Seq<bool>, n: int) -> Seq<(Seq<char>, Seq<char>)>
    decreases n,
{
    if n <= 0 {
        seq![]
    } else {
        let prev = share_plan(share, present, n - 1);
        let src = share_sources()[n - 1];
        if n - 1 < present.len() && present[n - 1] && !has_target(prev, src.1) {
            prev.push((join_spec(share, src.0), src.1))
        } else {
            prev
        }
    }
}

pub open spec fn plan_view(v: Seq<(String, &'static str)>) -> Seq<(Seq<char>, Seq<char>)> {
    v.map_values(|e: (String, &'static str)| (e.0@, e.1@))
}

/// Which shared resources go into the bundle: `present` tells, for each of
/// the six sources, whether it exists as a directory.
pub fn share_copies(share: &str, present: &[bool]) -> (r: Vec<(String, &'static str)>)
    ensures
        plan_view(r@) == share_plan(share@, present@, 6),
{
    let subs: [&'static str; 6] = ["scripts", "src/scripts", "src/memes", "memes", "kb", "communication"];
    let targets: [&'static str; 6] = ["scripts", "scripts", "memes", "memes", "kb", "bridges"];
    let mut out: Vec<(String, &'static str)> = Vec::new();
    let mut i: usize = 0;
    while i < 6
        invariant
            i <= 6,
            subs@.map_values(|s: &'static str| s@) == share_sources().map_values(|e: (Seq<char>, Seq<char>)| e.0),
            targets@.map_values(|s: &'static str| s@) == share_sources().map_values(|e: (Seq<char>, Seq<char>)| e.1),
            plan_view(out@) == share_plan(share@, present@, i as int),
        decreases 6 - i,
    {
        proof {
            assert(subs@[i as int]@ == subs@.map_values(|s: &'static str| s@)[i as int]);
            assert(targets@[i as int]@ == targets@.map_values(|s: &'static str| s@)[i as int]);
        }
        if i < present.len() && present[i] {
            let target = targets[i];
            let mut taken = false;
            let mut k: usize = 0;
            while k < out.len()
                invariant
                    k <= out@.len(),
                    taken == exists|j: int| 0 <= j < k && plan_view(out@)[j].1 == target@,
                decreases out.len() - k,
            {
                proof {
                    assert(plan_view(out@)[k as int] == (out@[k as int].0@, out@[k as int].1@));
                }
                if str_is(chars_of(out[k].1).as_slice(), target) {
                    taken = true;
                }
                k += 1;
            }
            if !taken {
                let ghost before = out@;
                out.push((join_path(share, subs[i]), target));
                assert(plan_view(out@) =~= plan_view(before).push((join_spec(share@, subs@[i as int]@), target@)));
            }
        }
        i += 1;
    }
    out
}

/// Each place in the bundle is filled from one source only: no two planned
/// copies go to the same place.
pub proof fn lemma_share_plan_one_source_each(share: Seq<char>, present: Seq<bool>, n: int)
    requires
        0 <= n <= 6,
    ensures
        forall|i: int, j: int|
            0 <= i < j < share_plan(share, present, n).len() ==> share_plan(share, present, n)[i].1
                != share_plan(share, present, n)[j].1,
    decreases n,
{
    if n > 0 {
        lemma_share_plan_one_source_each(share, present, n - 1);
        let prev = share_plan(share, present, n - 1);
        let plan = share_plan(share, present, n);
        assert forall|i: int, j: int| 0 <= i < j < plan.len() implies plan[i].1 != plan[j].1 by {
            if j == prev.len() {
                assert(plan[i] == prev[i]);
            } else {
                assert(plan[i] == prev[i] && plan[j] == prev[j]);
            }
        }
    }
}

} // verus!
