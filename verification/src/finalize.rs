//! The last step of the pipeline: word replacements in the subtitle files
//! and the list of files a finished task offers for download.
use vstd::prelude::*;
use crate::link::{push_arg, views};
use crate::strings::{cat, cat3, owned, replace_str, replaced};
use crate::task::{BILINGUAL_SRT_FILE, HORIZONTAL_EMBED, ORIGIN_LANG_SRT_FILE, StepParam,
    SubtitleInfo, TARGET_LANG_SRT_FILE, TTS_FINAL_AUDIO, VERTICAL_EMBED, VIDEO_WITH_TTS};

verus! {

/// `content` with each replacement applied in turn, every occurrence of the
/// first word replaced by the second.
pub open spec fn apply_all(content: Seq<char>, pairs: Seq<(Seq<char>, Seq<char>)>) -> Seq<char>
    decreases pairs.len(),
{
    if pairs.len() == 0 {
        content
    } else {
        replaced(apply_all(content, pairs.drop_last()), pairs.last().0, pairs.last().1)
    }
}

/// The pairs of `v` as pairs of character sequences.
pub open spec fn pair_views(v: Seq<(String, String)>) -> Seq<(Seq<char>, Seq<char>)> {
    v.map_values(|p: (String, String)| (p.0@, p.1@))
}

/// Apply the word replacements to the text of a subtitle file.
pub fn apply_replacements(content: &str, replacements: &Vec<(String, String)>) -> (r: String)
    ensures
        r@ == apply_all(content@, pair_views(replacements@)),
{
    let ghost all = pair_views(replacements@);
    let mut r = owned(content);
    let mut i: usize = 0;
    while i < replacements.len()
        invariant
            i <= replacements@.len(),
            all == pair_views(replacements@),
            r@ == apply_all(content@, all.take(i as int)),
        decreases replacements@.len() - i,
    {
        assert(all.take(i + 1).drop_last() =~= all.take(i as int));
        let (from, to) = (&replacements[i].0, &replacements[i].1);
        r = replace_str(r.as_str(), from.as_str(), to.as_str());
        i = i + 1;
    }
    assert(all.take(replacements@.len() as int) =~= all);
    r
}

/// The subtitle files that get the word replacements, in `output_dir`.
pub fn replacement_files(output_dir: &str) -> (r: Vec<String>)
    ensures
        views(r@) == seq![output_dir@ + "/"@ + BILINGUAL_SRT_FILE@, output_dir@ + "/"@
            + ORIGIN_LANG_SRT_FILE@, output_dir@ + "/"@ + TARGET_LANG_SRT_FILE@],
{
    let mut r: Vec<String> = Vec::new();
    let a = cat3(output_dir, "/", BILINGUAL_SRT_FILE);
    let b = cat3(output_dir, "/", ORIGIN_LANG_SRT_FILE);
    let c = cat3(output_dir, "/", TARGET_LANG_SRT_FILE);
    push_arg(&mut r, a.as_str());
    push_arg(&mut r, b.as_str());
    push_arg(&mut r, c.as_str());
    assert(views(r@) =~= seq![a@, b@, c@]);
    r
}

/// The files a finished task may offer.
#[derive(Debug)]
pub struct OutputPaths {
    pub bilingual: String,
    pub origin: String,
    pub target: String,
    pub horizontal: String,
    pub vertical: String,
    pub tts_audio: String,
    pub tts_video: String,
}

/// Which of the [`OutputPaths`] exist.
#[derive(Debug, Clone, Copy)]
pub struct OutputsPresent {
    pub bilingual: bool,
    pub origin: bool,
    pub target: bool,
    pub horizontal: bool,
    pub vertical: bool,
    pub tts_audio: bool,
    pub tts_video: bool,
}

/// The files of a task whose working directory is `base`: subtitles and
/// subtitled videos in `base/output`, the speech and the dubbed video in
/// `base`.
pub fn output_paths(param: &StepParam) -> (r: OutputPaths)
    ensures
        r.bilingual@ == param.task_base_path@ + "/output"@ + "/"@ + BILINGUAL_SRT_FILE@,
        r.origin@ == param.task_base_path@ + "/output"@ + "/"@ + ORIGIN_LANG_SRT_FILE@,
        r.target@ == param.task_base_path@ + "/output"@ + "/"@ + TARGET_LANG_SRT_FILE@,
        r.horizontal@ == param.task_base_path@ + "/output"@ + "/"@ + HORIZONTAL_EMBED@,
        r.vertical@ == param.task_base_path@ + "/output"@ + "/"@ + VERTICAL_EMBED@,
        r.tts_audio@ == param.task_base_path@ + "/"@ + TTS_FINAL_AUDIO@,
        r.tts_video@ == param.task_base_path@ + "/"@ + VIDEO_WITH_TTS@,
{
    let dir = param.output_dir();
    OutputPaths {
        bilingual: cat3(dir.as_str(), "/", BILINGUAL_SRT_FILE),
        origin: cat3(dir.as_str(), "/", ORIGIN_LANG_SRT_FILE),
        target: cat3(dir.as_str(), "/", TARGET_LANG_SRT_FILE),
        horizontal: cat3(dir.as_str(), "/", HORIZONTAL_EMBED),
        vertical: cat3(dir.as_str(), "/", VERTICAL_EMBED),
        tts_audio: cat3(param.task_base_path.as_str(), "/", TTS_FINAL_AUDIO),
        tts_video: cat3(param.task_base_path.as_str(), "/", VIDEO_WITH_TTS),
    }
}

/// The address a file is downloaded from.
pub open spec fn download_url(path: Seq<char>) -> Seq<char> {
    "/api/file/"@ + path
}

/// One offered file, when it is present.
pub open spec fn offer(present: bool, name: Seq<char>, path: Seq<char>) -> Seq<
    (Seq<char>, Seq<char>),
> {
    if present {
        seq![(name, download_url(path))]
    } else {
        seq![]
    }
}

/// A file in the output directory of the task working in `base`.
pub open spec fn out_file(base: Seq<char>, name: Seq<char>) -> Seq<char> {
    base + "/output"@ + "/"@ + name
}

/// The files offered by the task working in `base`, by name and address, in
/// the order they are listed.
pub open spec fn offered(base: Seq<char>, present: OutputsPresent) -> Seq<(Seq<char>, Seq<char>)> {
    offer(present.bilingual, "Bilingual Subtitles"@, out_file(base, BILINGUAL_SRT_FILE@)) + offer(
        present.origin,
        "Original Language Subtitles"@,
        out_file(base, ORIGIN_LANG_SRT_FILE@),
    ) + offer(present.target, "Translated Subtitles"@, out_file(base, TARGET_LANG_SRT_FILE@))
        + offer(
        present.horizontal,
        "Horizontal Video with Subtitles"@,
        out_file(base, HORIZONTAL_EMBED@),
    ) + offer(present.vertical, "Vertical Video with Subtitles"@, out_file(base, VERTICAL_EMBED@))
        + offer(present.tts_video, "Video with Dubbed Audio"@, base + "/"@ + VIDEO_WITH_TTS@)
}

/// The names and addresses of `v`.
pub open spec fn info_views(v: Seq<SubtitleInfo>) -> Seq<(Seq<char>, Seq<char>)> {
    v.map_values(|i: SubtitleInfo| (i.name@, i.download_url@))
}

fn push_offer(infos: &mut Vec<SubtitleInfo>, present: bool, name: &str, path: &String)
    ensures
        info_views(final(infos)@) == info_views(old(infos)@) + offer(present, name@, path@),
{
    if present {
        infos.push(
            SubtitleInfo { name: owned(name), download_url: cat("/api/file/", path.as_str()) },
        );
    }
    assert(info_views(infos@) =~= info_views(old(infos)@) + offer(present, name@, path@));
}

/// Record the downloads of a finished task, given which of its files exist:
/// the subtitle files, the subtitled videos and the dubbed video that are
/// present, and the address of the speech when it is present (else empty).
/// Nothing else of the parameters changes.
pub fn upload_subtitles(param: &mut StepParam, present: &OutputsPresent)
    ensures
        info_views(final(param).subtitle_infos@) == offered(old(param).task_base_path@, *present),
        final(param).tts_result_file_path@ == if present.tts_audio {
            download_url(old(param).task_base_path@ + "/"@ + TTS_FINAL_AUDIO@)
        } else {
            seq![]
        },
        *final(param) == (StepParam {
            subtitle_infos: final(param).subtitle_infos,
            tts_result_file_path: final(param).tts_result_file_path,
            ..*old(param)
        }),
{
    let paths = output_paths(param);
    let mut infos: Vec<SubtitleInfo> = Vec::new();
    push_offer(&mut infos, present.bilingual, "Bilingual Subtitles", &paths.bilingual);
    push_offer(&mut infos, present.origin, "Original Language Subtitles", &paths.origin);
    push_offer(&mut infos, present.target, "Translated Subtitles", &paths.target);
    push_offer(&mut infos, present.horizontal, "Horizontal Video with Subtitles", &paths.horizontal);
    push_offer(&mut infos, present.vertical, "Vertical Video with Subtitles", &paths.vertical);
    push_offer(&mut infos, present.tts_video, "Video with Dubbed Audio", &paths.tts_video);
    assert(info_views(infos@) =~= offered(param.task_base_path@, *present));
    let speech_url = if present.tts_audio {
        cat("/api/file/", paths.tts_audio.as_str())
    } else {
        String::new()
    };
    param.subtitle_infos = infos;
    param.tts_result_file_path = speech_url;
}

} // verus!
