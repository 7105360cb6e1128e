//! Step 1 of the pipeline: where the media comes from and the commands that
//! fetch it.
use vstd::prelude::*;
use crate::strings::{all_ascii, ascii_lower, cat3, chars_of, owned, str_eq, str_to_lowercase, lowercase_str,
    string_from_chars};
use crate::task::EmbedVideoType;

verus! {

/// The strings of `v`.
pub open spec fn views(v: Seq<String>) -> Seq<Seq<char>> {
    v.map_values(|a: String| a@)
}

/// Append the argument `a`.
pub fn push_arg(v: &mut Vec<String>, a: &str)
    ensures
        views(final(v)@) == views(old(v)@).push(a@),
{
    v.push(owned(a));
    assert(views(final(v)@) =~= views(old(v)@).push(a@));
}

/// `base/name`.
pub fn task_file(base: &str, name: &str) -> (r: String)
    ensures
        r@ == base@ + "/"@ + name@,
{
    cat3(base, "/", name)
}

/// `s` with every leading copy of `p` removed (`trim_start_matches`).
pub open spec fn strip_leading(s: Seq<char>, p: Seq<char>) -> Seq<char>
    decreases s.len(),
{
    if p.len() > 0 && p.len() <= s.len() && s.take(p.len() as int) == p {
        strip_leading(s.skip(p.len() as int), p)
    } else {
        s
    }
}

/// The file of a `local:` link (every leading `local:` removed), or `None`
/// for a URL.
pub open spec fn local_path_of(link: Seq<char>) -> Option<Seq<char>> {
    if 6 <= link.len() && link.take(6) == "local:"@ {
        Some(strip_leading(link, "local:"@))
    } else {
        None
    }
}

/// The local file named by a `local:` link, or `None` for a URL.
pub fn local_source(link: &str) -> (r: Option<String>)
    ensures
        match r {
            Some(p) => local_path_of(link@) == Some(p@),
            None => local_path_of(link@) is None,
        },
{
    let v = chars_of(link);
    let p = chars_of("local:");
    proof {
        reveal_strlit("local:");
    }
    assert(v@.skip(0) =~= v@);
    if !crate::strings::starts_here(&v, &p, 0) {
        return None;
    }
    let mut i: usize = 0;
    while crate::strings::starts_here(&v, &p, i)
        invariant
            i <= v@.len(),
            v@ == link@,
            p@ == "local:"@,
            p@.len() == 6,
            v@.len() == v.len(),
            strip_leading(v@.skip(i as int), p@) == strip_leading(v@, p@),
        decreases v@.len() - i,
    {
        assert(v@.skip(i as int).skip(6) =~= v@.skip(i + 6));
        i = i + 6;
    }
    let rest = crate::ass::slice_vec(&v, i, v.len());
    assert(rest@ =~= v@.skip(i as int));
    Some(string_from_chars(rest.as_slice()))
}

/// A lowercased language tag in the form used for codes: the part before
/// its first `-`, except that a Chinese tag keeps its region after `_` (so
/// `"en-us"` gives `"en"`, and `"zh-cn"` gives `"zh_cn"`, as the pipeline
/// names Chinese).
pub open spec fn normalized_code(l: Seq<char>) -> Seq<char> {
    match crate::ass::find_first(l, '-') {
        None => l,
        Some(i) => {
            let head = l.take(i as int);
            if head == "zh"@ {
                let rest = l.skip(i as int + 1);
                head + "_"@ + match crate::ass::find_first(rest, '-') {
                    Some(j) => rest.take(j as int),
                    None => rest,
                }
            } else {
                head
            }
        },
    }
}

/// The code of the language tag `lang`: lowercased, then cut as
/// [`normalized_code`] says.
pub open spec fn normalized_lang(lang: Seq<char>) -> Seq<char> {
    normalized_code(lowercase_str(lang))
}

/// The language of a downloaded video's metadata in the form used for
/// codes (`"en-US"` gives `"en"`, `"zh-CN"` gives `"zh_cn"`).
pub fn normalize_language(lang: &str) -> (r: String)
    ensures
        r@ == normalized_lang(lang@),
        all_ascii(lang@) ==> r@ == normalized_code(lang@.map_values(|c: char| ascii_lower(c))),
{
    let lower = str_to_lowercase(lang);
    let v = chars_of(lower.as_str());
    proof {
        reveal_strlit("zh");
        reveal_strlit("_");
    }
    match crate::ass::find_char_in(&v, '-') {
        None => lower,
        Some(i) => {
            let head = crate::ass::slice_vec(&v, 0, i);
            assert(head@ =~= v@.take(i as int));
            if crate::strings::str_eq(string_from_chars(head.as_slice()).as_str(), "zh") {
                let rest = crate::ass::slice_vec(&v, i + 1, v.len());
                assert(rest@ =~= v@.skip(i as int + 1));
                let region = match crate::ass::find_char_in(&rest, '-') {
                    Some(j) => {
                        let t = crate::ass::slice_vec(&rest, 0, j);
                        assert(t@ =~= rest@.take(j as int));
                        t
                    },
                    None => {
                        let t = crate::ass::slice_vec(&rest, 0, rest.len());
                        assert(t@ =~= rest@);
                        t
                    },
                };
                let mut r = string_from_chars(head.as_slice());
                r.append("_");
                r.append(string_from_chars(region.as_slice()).as_str());
                r
            } else {
                string_from_chars(head.as_slice())
            }
        },
    }
}

/// The source language once the video's metadata is known: in automatic
/// mode a non-empty metadata language replaces `"auto"`.
pub fn language_from_metadata(origin: &str, meta_lang: &str) -> (r: String)
    ensures
        r@ == if origin@ == "auto"@ && meta_lang@.len() > 0 {
            normalized_lang(meta_lang@)
        } else {
            origin@
        },
        all_ascii(meta_lang@) && origin@ == "auto"@ && meta_lang@.len() > 0 ==> r@
            == normalized_code(meta_lang@.map_values(|c: char| ascii_lower(c))),
{
    if str_eq(origin, "auto") && !meta_lang.is_empty() {
        normalize_language(meta_lang)
    } else {
        owned(origin)
    }
}

/// The name of what `serde_json` reads as the string stored under `key` in
/// the JSON object held by `bytes`, if any.
pub uninterp spec fn json_string_at(bytes: Seq<u8>, key: Seq<char>) -> Option<Seq<char>>;

/// serde_json `from_slice::<Value>(bytes)`, then `Value::get(key)` and
/// `Value::as_str`. Claimed: the result depends on the bytes and the key
/// alone, and is named `json_string_at`; nothing is stated of how JSON is
/// read (text that is not a JSON object, or has no string under `key`,
/// gives `None`).
#[verifier::external_body]
fn json_string_field(bytes: &[u8], key: &str) -> (r: Option<String>)
    ensures
        match r {
            Some(s) => json_string_at(bytes@, key@) == Some(s@),
            None => json_string_at(bytes@, key@) is None,
        },
{
    serde_json::from_slice::<serde_json::Value>(bytes).ok().and_then(
        |v| v.get(key).and_then(|x| x.as_str()).map(|s| s.to_string()),
    )
}

/// What a video's yt-dlp metadata tells the pipeline: its title, its
/// language, and the source language to use from now on.
#[derive(Debug, Clone)]
pub struct VideoMetadata {
    pub title: Option<String>,
    pub language: Option<String>,
    pub origin_language: String,
}

/// The text of an optional string.
pub open spec fn opt_text(o: Option<String>) -> Option<Seq<char>> {
    match o {
        Some(s) => Some(s@),
        None => None,
    }
}

/// Read the metadata JSON that yt-dlp printed: the title and the language
/// as strings, if there; the source language becomes the metadata's
/// language (see [`language_from_metadata`]) in automatic mode, and stays
/// `origin` otherwise.
pub fn read_metadata(origin: &str, metadata: &[u8]) -> (r: VideoMetadata)
    ensures
        opt_text(r.title) == json_string_at(metadata@, "title"@),
        opt_text(r.language) == json_string_at(metadata@, "language"@),
        r.origin_language@ == match json_string_at(metadata@, "language"@) {
            Some(l) => if origin@ == "auto"@ && l.len() > 0 {
                normalized_lang(l)
            } else {
                origin@
            },
            None => origin@,
        },
{
    let title = json_string_field(metadata, "title");
    let language = json_string_field(metadata, "language");
    let origin_language = match &language {
        Some(l) => language_from_metadata(origin, l.as_str()),
        None => owned(origin),
    };
    VideoMetadata { title, language, origin_language }
}

/// Whether the video itself is needed: to embed subtitles or to dub it.
pub fn needs_video(embed: EmbedVideoType, enable_tts: bool) -> (r: bool)
    ensures
        r == (embed != EmbedVideoType::NoEmbed || enable_tts),
{
    embed != EmbedVideoType::NoEmbed || enable_tts
}

/// `--proxy <proxy>` when a proxy is set.
pub open spec fn proxy_args(proxy: Seq<char>) -> Seq<Seq<char>> {
    if proxy.len() > 0 {
        seq!["--proxy"@, proxy]
    } else {
        Seq::empty()
    }
}

fn push_proxy_and_link(v: &mut Vec<String>, proxy: &str, link: &str)
    ensures
        views(final(v)@) == views(old(v)@) + proxy_args(proxy@) + seq![link@],
{
    if !proxy.is_empty() {
        push_arg(v, "--proxy");
        push_arg(v, proxy);
    }
    push_arg(v, link);
    assert(views(final(v)@) =~= views(old(v)@) + proxy_args(proxy@) + seq![link@]);
}

/// ffmpeg arguments that extract the audio of a local file as MP3.
pub fn local_audio_args(local_path: &str, audio_path: &str) -> (r: Vec<String>)
    ensures
        views(r@) == seq!["-y"@, "-i"@, local_path@, "-vn"@, "-ar"@, "44100"@, "-ac"@, "2"@,
            "-ab"@, "192k"@, "-f"@, "mp3"@, audio_path@],
{
    let mut r: Vec<String> = Vec::new();
    push_arg(&mut r, "-y");
    push_arg(&mut r, "-i");
    push_arg(&mut r, local_path);
    push_arg(&mut r, "-vn");
    push_arg(&mut r, "-ar");
    push_arg(&mut r, "44100");
    push_arg(&mut r, "-ac");
    push_arg(&mut r, "2");
    push_arg(&mut r, "-ab");
    push_arg(&mut r, "192k");
    push_arg(&mut r, "-f");
    push_arg(&mut r, "mp3");
    push_arg(&mut r, audio_path);
    assert(views(r@) =~= seq!["-y"@, "-i"@, local_path@, "-vn"@, "-ar"@, "44100"@, "-ac"@, "2"@,
        "-ab"@, "192k"@, "-f"@, "mp3"@, audio_path@]);
    r
}

/// yt-dlp arguments that download the best audio as MP3.
pub fn ytdlp_audio_args(audio_path: &str, proxy: &str, link: &str) -> (r: Vec<String>)
    ensures
        views(r@) == seq!["-f"@, "bestaudio[ext=m4a]/bestaudio[ext=mp3]/bestaudio"@, "-x"@,
            "--audio-format"@, "mp3"@, "--no-playlist"@, "--restrict-filenames"@, "-o"@, audio_path@]
            + proxy_args(proxy@) + seq![link@],
{
    let mut r: Vec<String> = Vec::new();
    push_arg(&mut r, "-f");
    push_arg(&mut r, "bestaudio[ext=m4a]/bestaudio[ext=mp3]/bestaudio");
    push_arg(&mut r, "-x");
    push_arg(&mut r, "--audio-format");
    push_arg(&mut r, "mp3");
    push_arg(&mut r, "--no-playlist");
    push_arg(&mut r, "--restrict-filenames");
    push_arg(&mut r, "-o");
    push_arg(&mut r, audio_path);
    push_proxy_and_link(&mut r, proxy, link);
    assert(views(r@) =~= seq!["-f"@, "bestaudio[ext=m4a]/bestaudio[ext=mp3]/bestaudio"@, "-x"@,
        "--audio-format"@, "mp3"@, "--no-playlist"@, "--restrict-filenames"@, "-o"@, audio_path@]
        + proxy_args(proxy@) + seq![link@]);
    r
}

/// yt-dlp arguments that download the best MP4 video.
pub fn ytdlp_video_args(video_path: &str, proxy: &str, link: &str) -> (r: Vec<String>)
    ensures
        views(r@) == seq!["-f"@, "bv*[ext=mp4]+ba[ext=m4a]/bv*+ba/b"@, "--merge-output-format"@,
            "mp4"@, "--no-playlist"@, "--restrict-filenames"@, "--newline"@, "-o"@, video_path@]
            + proxy_args(proxy@) + seq![link@],
{
    let mut r: Vec<String> = Vec::new();
    push_arg(&mut r, "-f");
    push_arg(&mut r, "bv*[ext=mp4]+ba[ext=m4a]/bv*+ba/b");
    push_arg(&mut r, "--merge-output-format");
    push_arg(&mut r, "mp4");
    push_arg(&mut r, "--no-playlist");
    push_arg(&mut r, "--restrict-filenames");
    push_arg(&mut r, "--newline");
    push_arg(&mut r, "-o");
    push_arg(&mut r, video_path);
    push_proxy_and_link(&mut r, proxy, link);
    assert(views(r@) =~= seq!["-f"@, "bv*[ext=mp4]+ba[ext=m4a]/bv*+ba/b"@, "--merge-output-format"@,
        "mp4"@, "--no-playlist"@, "--restrict-filenames"@, "--newline"@, "-o"@, video_path@]
        + proxy_args(proxy@) + seq![link@]);
    r
}

/// yt-dlp arguments that print the video's metadata as JSON.
pub fn ytdlp_metadata_args(url: &str, proxy: &str) -> (r: Vec<String>)
    ensures
        views(r@) == seq!["--dump-json"@, "--no-download"@, "--no-playlist"@] + proxy_args(proxy@)
            + seq![url@],
{
    let mut r: Vec<String> = Vec::new();
    push_arg(&mut r, "--dump-json");
    push_arg(&mut r, "--no-download");
    push_arg(&mut r, "--no-playlist");
    push_proxy_and_link(&mut r, proxy, url);
    assert(views(r@) =~= seq!["--dump-json"@, "--no-download"@, "--no-playlist"@] + proxy_args(
        proxy@,
    ) + seq![url@]);
    r
}

/// yt-dlp arguments that fetch the source's own subtitles as SRT into
/// `task_dir/yt_subs`.
pub fn ytdlp_subtitle_args(url: &str, task_dir: &str, proxy: &str) -> (r: Vec<String>)
    ensures
        views(r@) == seq!["--write-subs"@, "--write-auto-subs"@, "--sub-langs"@, "en,ru,zh"@,
            "--sub-format"@, "srt/vtt/best"@, "--convert-subs"@, "srt"@, "--skip-download"@,
            "--no-playlist"@, "-o"@, task_dir@ + "/yt_subs"@] + proxy_args(proxy@) + seq![url@],
{
    let mut r: Vec<String> = Vec::new();
    push_arg(&mut r, "--write-subs");
    push_arg(&mut r, "--write-auto-subs");
    push_arg(&mut r, "--sub-langs");
    push_arg(&mut r, "en,ru,zh");
    push_arg(&mut r, "--sub-format");
    push_arg(&mut r, "srt/vtt/best");
    push_arg(&mut r, "--convert-subs");
    push_arg(&mut r, "srt");
    push_arg(&mut r, "--skip-download");
    push_arg(&mut r, "--no-playlist");
    push_arg(&mut r, "-o");
    let out = crate::strings::cat(task_dir, "/yt_subs");
    push_arg(&mut r, out.as_str());
    push_proxy_and_link(&mut r, proxy, url);
    assert(views(r@) =~= seq!["--write-subs"@, "--write-auto-subs"@, "--sub-langs"@, "en,ru,zh"@,
        "--sub-format"@, "srt/vtt/best"@, "--convert-subs"@, "srt"@, "--skip-download"@,
        "--no-playlist"@, "-o"@, task_dir@ + "/yt_subs"@] + proxy_args(proxy@) + seq![url@]);
    r
}


/// The percentage text of a yt-dlp progress line: the line, trimmed, must
/// start with `[download]`; what follows, trimmed, must hold a `%`; the
/// text before the first `%`, trimmed, is returned.
pub open spec fn progress_text(line: Seq<char>) -> Option<Seq<char>> {
    let t = crate::strings::trim(line);
    if t.len() >= 10 && t.take(10) == "[download]"@ {
        let rest = crate::strings::trim(t.skip(10));
        match crate::ass::find_first(rest, '%') {
            Some(k) => Some(crate::strings::trim(rest.take(k as int))),
            None => None,
        }
    } else {
        None
    }
}

/// The percentage text of a yt-dlp progress line (see [`progress_text`]).
pub fn ytdlp_progress_text(line: &str) -> (r: Option<String>)
    ensures
        match r {
            Some(p) => progress_text(line@) == Some(p@),
            None => progress_text(line@) is None,
        },
{
    let t = crate::strings::trim_str(line);
    let v = chars_of(t.as_str());
    let tag = chars_of("[download]");
    proof {
        reveal_strlit("[download]");
    }
    assert(v@.skip(0) =~= v@);
    if !crate::strings::starts_here(&v, &tag, 0) {
        return None;
    }
    let after = crate::ass::slice_vec(&v, 10, v.len());
    assert(after@ =~= v@.skip(10));
    let after_s = string_from_chars(after.as_slice());
    let rest_s = crate::strings::trim_str(after_s.as_str());
    let rest = chars_of(rest_s.as_str());
    match crate::ass::find_char_in(&rest, '%') {
        Some(k) => {
            let head = crate::ass::slice_vec(&rest, 0, k);
            assert(head@ =~= rest@.take(k as int));
            let head_s = string_from_chars(head.as_slice());
            Some(crate::strings::trim_str(head_s.as_str()))
        },
        None => None,
    }
}

} // verus!
