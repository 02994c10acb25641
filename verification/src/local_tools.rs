//! Where the local helper programs live (the speech and vision Swift tools,
//! the voice-cloning TTS service), and what the vision tool's findings read as.
use vstd::prelude::*;
use crate::json::{as_str, get, json_as_str, json_get, JsonValue};
use crate::paths::{join_path, join_spec, GqyPaths};
use crate::text::{chars_of, extend_chars, extend_str, join_parts, join_with, string_of, trim, trim_str};

verus! {

// ---------------------------------------------------------------- Swift tools

/// A bundled script: under `scripts/` of the share directory, else under
/// `src/scripts/` (a source tree), else the first place.
pub open spec fn bundled_script(share: Seq<char>, name: Seq<char>, in_scripts: bool, in_src: bool) -> Seq<char> {
    if !in_scripts && in_src {
        join_spec(share, "src/scripts/"@ + name)
    } else {
        join_spec(share, "scripts/"@ + name)
    }
}

fn bundled(share: &str, dir: &str, name: &str) -> (r: String)
    ensures
        r@ == join_spec(share@, dir@ + name@),
{
    let mut m = chars_of(dir);
    extend_str(&mut m, name);
    join_path(share, string_of(m.as_slice()).as_str())
}

/// The speech tool, given whether each place holds it.
pub fn speech_tool_path(paths: &GqyPaths, in_scripts: bool, in_src: bool) -> (r: String)
    ensures
        r@ == bundled_script(paths.share_dir@, "speech-tool.swift"@, in_scripts, in_src),
{
    if !in_scripts && in_src {
        bundled(paths.share_dir.as_str(), "src/scripts/", "speech-tool.swift")
    } else {
        bundled(paths.share_dir.as_str(), "scripts/", "speech-tool.swift")
    }
}

/// The vision tool, given whether each place holds it; when neither does, the
/// message names where it was expected.
pub fn vision_tool_path(paths: &GqyPaths, in_scripts: bool, in_src: bool) -> (r: Result<String, String>)
    ensures
        match r {
            Ok(p) => (in_scripts || in_src) && p@ == bundled_script(paths.share_dir@, "vision-tool.swift"@, in_scripts, in_src),
            Err(m) => !in_scripts && !in_src && m@ == "找不到本地视觉工具 vision-tool.swift（预期位置："@
                + join_spec(paths.share_dir@, "scripts/"@ + "vision-tool.swift"@) + "）"@,
        },
{
    if in_scripts {
        Ok(bundled(paths.share_dir.as_str(), "scripts/", "vision-tool.swift"))
    } else if in_src {
        Ok(bundled(paths.share_dir.as_str(), "src/scripts/", "vision-tool.swift"))
    } else {
        let expected = bundled(paths.share_dir.as_str(), "scripts/", "vision-tool.swift");
        let mut m = chars_of("找不到本地视觉工具 vision-tool.swift（预期位置：");
        extend_str(&mut m, expected.as_str());
        extend_str(&mut m, "）");
        Err(string_of(m.as_slice()))
    }
}

// ---------------------------------------------------------------- the vision tool

/// The image the vision tool is asked about.
pub fn vision_request(args: &JsonValue) -> (r: Result<String, &'static str>)
    ensures
        match r {
            Ok(p) => as_str(get(*args, "path"@)) == Some(p@),
            Err(m) => as_str(get(*args, "path"@)) is None && m@ == "path is required"@,
        },
{
    match json_as_str(json_get(args, "path")) {
        Some(p) => Ok(p.to_string()),
        None => Err("path is required"),
    }
}

/// A failed analysis: the image and the first 200 characters of the error.
pub fn vision_failure(path: &str, stderr: &str) -> (r: String)
    ensures
        r@ == "本地视觉分析失败（"@ + path@ + "）："@ + stderr@.take(
            if stderr@.len() < 200 { stderr@.len() as int } else { 200 },
        ),
{
    let e = chars_of(stderr);
    let n = if e.len() < 200 { e.len() } else { 200 };
    let mut m = chars_of("本地视觉分析失败（");
    extend_str(&mut m, path);
    extend_str(&mut m, "）：");
    extend_chars(&mut m, crate::text::slice_chars(e.as_slice(), 0, n).as_slice());
    string_of(m.as_slice())
}

/// Output that is not JSON, kept as `{"raw": <trimmed output>}`.
pub fn raw_output(stdout: &str) -> (r: JsonValue)
    ensures
        r is Object && r->Object_0@.len() == 1 && r->Object_0@[0].0@ == "raw"@ && r->Object_0@[0].1 is String
            && r->Object_0@[0].1->String_0@ == trim(stdout@),
{
    let mut es: Vec<(String, JsonValue)> = Vec::new();
    es.push(("raw".to_string(), JsonValue::String(string_of(trim_str(stdout).as_slice()))));
    JsonValue::Object(es)
}

/// The strings of a list field.
pub open spec fn strings_in(items: Seq<JsonValue>) -> Seq<Seq<char>>
    decreases items.len(),
{
    if items.len() == 0 {
        seq![]
    } else {
        let rest = strings_in(items.drop_last());
        match items.last() {
            JsonValue::String(s) => rest.push(s@),
            _ => rest,
        }
    }
}

pub open spec fn list_field(v: JsonValue, key: Seq<char>) -> Seq<Seq<char>> {
    match get(v, key) {
        Some(JsonValue::Array(items)) => strings_in(items@),
        _ => seq![],
    }
}

fn list_field_exec(v: &JsonValue, key: &str) -> (r: Vec<Vec<char>>)
    ensures
        r@.map_values(|p: Vec<char>| p@) == list_field(*v, key@),
{
    let mut out: Vec<Vec<char>> = Vec::new();
    match json_get(v, key) {
        Some(JsonValue::Array(items)) => {
            let mut i: usize = 0;
            while i < items.len()
                invariant
                    i <= items.len(),
                    out@.map_values(|p: Vec<char>| p@) == strings_in(items@.take(i as int)),
                decreases items.len() - i,
            {
                proof {
                    assert(items@.take(i + 1).drop_last() =~= items@.take(i as int));
                    assert(items@.take(i + 1).last() == items@[i as int]);
                }
                match &items[i] {
                    JsonValue::String(s) => {
                        let ghost o = out@;
                        out.push(chars_of(s.as_str()));
                        proof {
                            assert(out@.map_values(|p: Vec<char>| p@) =~= o.map_values(|p: Vec<char>| p@).push(s@));
                        }
                    },
                    _ => {},
                }
                i += 1;
            }
            assert(items@.take(items.len() as int) =~= items@);
        },
        _ => {},
    }
    out
}

/// The sections of a vision summary: scene labels, text found in the image,
/// detected objects, each only when there is something to say.
pub open spec fn vision_sections(v: JsonValue, zh: bool) -> Seq<Seq<char>> {
    let labels = list_field(v, "labels"@);
    let ocr = list_field(v, "ocr"@);
    let objects = list_field(v, "objects"@);
    (if labels.len() > 0 {
        seq![(if zh { "画面识别"@ } else { "Scene labels"@ }) + "："@ + join_with(labels, "、"@)]
    } else {
        seq![]
    }) + (if ocr.len() > 0 {
        seq![(if zh { "图片中的文字"@ } else { "Text in image"@ }) + "：\n"@ + join_with(ocr, "\n"@)]
    } else {
        seq![]
    }) + (if objects.len() > 0 {
        seq![(if zh { "检测到的对象"@ } else { "Detected objects"@ }) + "："@ + join_with(objects, "、"@)]
    } else {
        seq![]
    })
}

/// What the vision tool reports of an image.
pub fn vision_summary(findings: &JsonValue, zh: bool) -> (r: String)
    ensures
        r@ == if vision_sections(*findings, zh).len() == 0 {
            if zh { "本地分析未从图片中识别出明显内容。"@ } else { "Local analysis found nothing notable in this image."@ }
        } else {
            join_with(vision_sections(*findings, zh), "\n\n"@)
        },
{
    let labels = list_field_exec(findings, "labels");
    let ocr = list_field_exec(findings, "ocr");
    let objects = list_field_exec(findings, "objects");
    let mut sections: Vec<Vec<char>> = Vec::new();
    if labels.len() > 0 {
        let mut s = chars_of(if zh { "画面识别" } else { "Scene labels" });
        extend_str(&mut s, "：");
        extend_chars(&mut s, join_parts(labels.as_slice(), "、").as_slice());
        sections.push(s);
    }
    let ghost a = sections@.map_values(|p: Vec<char>| p@);
    if ocr.len() > 0 {
        let mut s = chars_of(if zh { "图片中的文字" } else { "Text in image" });
        extend_str(&mut s, "：\n");
        extend_chars(&mut s, join_parts(ocr.as_slice(), "\n").as_slice());
        sections.push(s);
    }
    let ghost b = sections@.map_values(|p: Vec<char>| p@);
    if objects.len() > 0 {
        let mut s = chars_of(if zh { "检测到的对象" } else { "Detected objects" });
        extend_str(&mut s, "：");
        extend_chars(&mut s, join_parts(objects.as_slice(), "、").as_slice());
        sections.push(s);
    }
    assert(sections@.map_values(|p: Vec<char>| p@) =~= vision_sections(*findings, zh));
    if sections.len() == 0 {
        return if zh {
            "本地分析未从图片中识别出明显内容。".to_string()
        } else {
            "Local analysis found nothing notable in this image.".to_string()
        };
    }
    string_of(join_parts(sections.as_slice(), "\n\n").as_slice())
}

// ---------------------------------------------------------------- the TTS service

/// A place the TTS service may be: its script, and the Python it runs with
/// when one is named.
pub type TtsCandidate = (String, Option<String>);

/// Where the voice-cloning service is looked for, in order: the
/// `GQY_TTS_SCRIPT` / `GQY_TTS_PYTHON` settings; the GQY home's `scripts/`
/// with its `venv`; beside the executable; the source tree and its older
/// `scripts/` place.
pub open spec fn tts_candidates_spec(
    env_script: Option<Seq<char>>,
    env_python: Option<Seq<char>>,
    home: Option<Seq<char>>,
    exe_dir: Option<Seq<char>>,
    source_root: Seq<char>,
) -> Seq<(Seq<char>, Option<Seq<char>>)> {
    (match env_script {
        Some(s) => seq![(s, env_python)],
        None => seq![],
    }) + (match home {
        Some(h) => seq![(join_spec(h, "scripts/tts-server.py"@), Some(join_spec(h, "venv/bin/python"@)))],
        None => seq![],
    }) + (match exe_dir {
        Some(d) => seq![(join_spec(d, "share/gqy/scripts/tts-server.py"@), Some(join_spec(d, "venv/bin/python"@)))],
        None => seq![],
    }) + seq![
        (join_spec(source_root, "src/scripts/tts-server.py"@), Some(join_spec(source_root, "venv/bin/python"@))),
        (join_spec(source_root, "scripts/tts-server.py"@), Some(join_spec(source_root, "venv/bin/python"@))),
    ]
}

pub open spec fn opt_view(o: Option<&str>) -> Option<Seq<char>> {
    match o {
        Some(s) => Some(s@),
        None => None,
    }
}

pub open spec fn candidates_view(v: Seq<TtsCandidate>) -> Seq<(Seq<char>, Option<Seq<char>>)> {
    v.map_values(|c: TtsCandidate| (c.0@, match c.1 {
        Some(p) => Some(p@),
        None => None,
    }))
}

fn push_candidate(v: &mut Vec<TtsCandidate>, script: String, python: Option<String>)
    ensures
        candidates_view(final(v)@) == candidates_view(old(v)@).push((script@, match python {
            Some(p) => Some(p@),
            None => None,
        })),
{
    let ghost o = v@;
    v.push((script, python));
    assert(candidates_view(v@) =~= candidates_view(o).push((v@.last().0@, match v@.last().1 {
        Some(p) => Some(p@),
        None => None,
    })));
}

/// The GQY home the TTS service is looked for in: `GQY_HOME` when set, else
/// the compatible directory under the user's home, when that is known.
pub fn tts_home(gqy_home: Option<&str>, user_home: Option<&str>) -> (r: Option<String>)
    ensures
        match r {
            Some(h) => match gqy_home {
                Some(g) => h@ == g@,
                None => user_home matches Some(u) && h@ == join_spec(u@, "Library/Application Support/gqy"@),
            },
            None => gqy_home is None && user_home is None,
        },
{
    match gqy_home {
        Some(g) => Some(g.to_string()),
        None => match user_home {
            Some(u) => Some(join_path(u, "Library/Application Support/gqy")),
            None => None,
        },
    }
}

pub fn tts_candidates(
    env_script: Option<&str>,
    env_python: Option<&str>,
    home: Option<&str>,
    exe_dir: Option<&str>,
    source_root: &str,
) -> (r: Vec<TtsCandidate>)
    ensures
        candidates_view(r@) == tts_candidates_spec(
            opt_view(env_script),
            opt_view(env_python),
            opt_view(home),
            opt_view(exe_dir),
            source_root@,
        ),
{
    let mut v: Vec<TtsCandidate> = Vec::new();
    match env_script {
        Some(s) => {
            let py = match env_python {
                Some(p) => Some(p.to_string()),
                None => None,
            };
            push_candidate(&mut v, s.to_string(), py);
        },
        None => {},
    }
    let ghost a = candidates_view(v@);
    match home {
        Some(h) => push_candidate(&mut v, join_path(h, "scripts/tts-server.py"), Some(join_path(h, "venv/bin/python"))),
        None => {},
    }
    let ghost b = candidates_view(v@);
    match exe_dir {
        Some(d) => push_candidate(
            &mut v,
            join_path(d, "share/gqy/scripts/tts-server.py"),
            Some(join_path(d, "venv/bin/python")),
        ),
        None => {},
    }
    let ghost c = candidates_view(v@);
    push_candidate(&mut v, join_path(source_root, "src/scripts/tts-server.py"), Some(join_path(source_root, "venv/bin/python")));
    push_candidate(&mut v, join_path(source_root, "scripts/tts-server.py"), Some(join_path(source_root, "venv/bin/python")));
    proof {
        let es = opt_view(env_script);
        assert(a =~= match es {
            Some(s) => seq![(s, opt_view(env_python))],
            None => Seq::<(Seq<char>, Option<Seq<char>>)>::empty(),
        });
    }
    assert(candidates_view(v@) =~= tts_candidates_spec(
        opt_view(env_script),
        opt_view(env_python),
        opt_view(home),
        opt_view(exe_dir),
        source_root@,
    ));
    v
}

/// The first candidate whose script exists, run with its Python when that
/// exists, else with `python3`; none when no script is found. `found` says,
/// for each candidate, whether its script and its Python are files.
pub open spec fn tts_pick(c: Seq<(Seq<char>, Option<Seq<char>>)>, found: Seq<(bool, bool)>) -> Option<(Seq<char>, Seq<char>)>
    decreases c.len(),
{
    if c.len() == 0 || found.len() == 0 {
        None
    } else if found[0].0 {
        Some((
            match c[0].1 {
                Some(p) => if found[0].1 {
                    p
                } else {
                    "python3"@
                },
                None => "python3"@,
            },
            c[0].0,
        ))
    } else {
        tts_pick(c.drop_first(), found.drop_first())
    }
}

/// How to tell the user that no TTS service was found.
pub const TTS_MISSING: &'static str = "未找到克隆音色 TTS 服务（tts-server.py）。安装方式：\n  · 源码/开发：运行 src/scripts/tts-setup.sh\n  · App/CLI：把 tts-server.py 放到 GQY_HOME/scripts/，并建 GQY_HOME/venv（pip install mlx-audio）\n  · 或设置 GQY_TTS_SCRIPT / GQY_TTS_PYTHON 指定位置";

/// The voice-cloning TTS service's runtime: the Python it runs with and its
/// server script.
#[derive(Debug, Clone)]
pub struct TtsRuntime {
    pub python: String,
    pub script: String,
}

/// The TTS service to start.
pub fn resolve_tts_runtime(candidates: &[TtsCandidate], found: &[(bool, bool)]) -> (r: Option<TtsRuntime>)
    ensures
        match r {
            Some(t) => tts_pick(candidates_view(candidates@), found@) == Some((t.python@, t.script@)),
            None => tts_pick(candidates_view(candidates@), found@) is None,
        },
{
    let ghost cv = candidates_view(candidates@);
    let mut i: usize = 0;
    assert(cv.skip(0) =~= cv);
    assert(found@.skip(0) =~= found@);
    while i < candidates.len() && i < found.len()
        invariant
            i <= candidates.len(),
            i <= found.len(),
            cv == candidates_view(candidates@),
            tts_pick(cv, found@) == tts_pick(cv.skip(i as int), found@.skip(i as int)),
        decreases candidates.len() - i,
    {
        let ghost c = cv.skip(i as int);
        let ghost f = found@.skip(i as int);
        assert(c[0] == cv[i as int]);
        assert(f[0] == found@[i as int]);
        if found[i].0 {
            let python = match &candidates[i].1 {
                Some(p) => if found[i].1 {
                    p.clone()
                } else {
                    "python3".to_string()
                },
                None => "python3".to_string(),
            };
            return Some(TtsRuntime { python, script: candidates[i].0.clone() });
        }
        assert(c.drop_first() =~= cv.skip(i + 1));
        assert(f.drop_first() =~= found@.skip(i + 1));
        i += 1;
    }
    None
}

} // verus!
