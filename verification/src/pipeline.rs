//! The course of a dubbing task: the progress reported after each step, the
//! record of a finished task, and the parameters of a command-line run.
use vstd::prelude::*;
use crate::config::{Config, TtsProvider};
use crate::strings::{cat, owned};
use crate::task::{EmbedVideoType, StepParam, SubtitleInfo, SubtitleResultType, SubtitleTask,
    TaskStatus};

verus! {

/// The steps of the pipeline, in the order they run.
#[derive(Debug, Clone, Copy, PartialEq, Eq)]
pub enum Stage {
    /// The task was accepted.
    Started,
    /// The media was fetched.
    Downloaded,
    /// The subtitles were written.
    Transcribed,
    /// The dubbed speech was made.
    Dubbed,
    /// The subtitles were burnt in.
    Embedded,
}

/// The position of a stage in the pipeline.
pub open spec fn stage_rank(s: Stage) -> int {
    match s {
        Stage::Started => 0,
        Stage::Downloaded => 1,
        Stage::Transcribed => 2,
        Stage::Dubbed => 3,
        Stage::Embedded => 4,
    }
}

/// The percentage shown once a stage is reached.
pub open spec fn stage_percent(s: Stage) -> u8 {
    match s {
        Stage::Started => 3,
        Stage::Downloaded => 10,
        Stage::Transcribed => 90,
        Stage::Dubbed => 95,
        Stage::Embedded => 98,
    }
}

/// The percentage shown once `stage` is reached.
pub fn stage_progress(stage: Stage) -> (r: u8)
    ensures
        r == stage_percent(stage),
        r < 100,
{
    match stage {
        Stage::Started => 3,
        Stage::Downloaded => 10,
        Stage::Transcribed => 90,
        Stage::Dubbed => 95,
        Stage::Embedded => 98,
    }
}

/// The progress of a task only grows as the pipeline moves on, and stays
/// below the 100 percent of a finished task.
pub proof fn progress_grows(a: Stage, b: Stage)
    requires
        stage_rank(a) < stage_rank(b),
    ensures
        stage_percent(a) < stage_percent(b),
        stage_percent(b) < 100,
{
}

/// Record the results of a finished pipeline on its task: the offered
/// files, the address of the speech, and success at 100 percent.
pub fn complete_task(task: &mut SubtitleTask, param: &StepParam)
    ensures
        final(task).status == TaskStatus::Success,
        final(task).process_pct == 100,
        crate::finalize::info_views(final(task).subtitle_infos@) == crate::finalize::info_views(
            param.subtitle_infos@,
        ),
        final(task).speech_download_url@ == param.tts_result_file_path@,
        final(task).task_id == old(task).task_id,
        final(task).wf(),
{
    let mut infos: Vec<SubtitleInfo> = Vec::new();
    let mut i: usize = 0;
    while i < param.subtitle_infos.len()
        invariant
            i <= param.subtitle_infos@.len(),
            infos@.len() == i,
            forall|k: int|
                0 <= k < i ==> (#[trigger] infos@[k]).name@ == param.subtitle_infos@[k].name@
                    && infos@[k].download_url@ == param.subtitle_infos@[k].download_url@,
        decreases param.subtitle_infos@.len() - i,
    {
        let s = &param.subtitle_infos[i];
        infos.push(
            SubtitleInfo { name: owned(s.name.as_str()), download_url: owned(s.download_url.as_str()) },
        );
        i = i + 1;
    }
    assert(crate::finalize::info_views(infos@) =~= crate::finalize::info_views(param.subtitle_infos@));
    task.subtitle_infos = infos;
    task.speech_download_url = owned(param.tts_result_file_path.as_str());
    task.set_success();
}

/// The choices of a command-line run.
#[derive(Debug, Clone)]
pub struct CliOptions {
    /// A video address or a local file.
    pub url: String,
    /// The source language; detected when absent (in automatic mode).
    pub from: Option<String>,
    /// The target language; chosen English/Russian when absent (in
    /// automatic mode).
    pub to: Option<String>,
    pub no_tts: bool,
    pub no_embed: bool,
    pub voice: Option<String>,
    pub no_bilingual: bool,
    pub replace_audio: bool,
    pub vertical: bool,
}

/// The voice used when none is asked for: Edge's Aria, Kokoro's Heart, and
/// none for the other engines.
pub open spec fn default_voice_of(p: TtsProvider) -> Seq<char> {
    match p {
        TtsProvider::EdgeTts => "en-US-AriaNeural"@,
        TtsProvider::MlxAudio => "af_heart"@,
        _ => seq![],
    }
}

fn default_voice(p: TtsProvider) -> (r: &'static str)
    ensures
        r@ == default_voice_of(p),
{
    match p {
        TtsProvider::EdgeTts => "en-US-AriaNeural",
        TtsProvider::MlxAudio => "af_heart",
        _ => {
            proof {
                reveal_strlit("");
            }
            ""
        },
    }
}

fn or_default(v: &Option<String>, auto: bool, fallback: &str) -> (r: String)
    ensures
        r@ == match v {
            Some(s) => s@,
            None => if auto {
                "auto"@
            } else {
                fallback@
            },
        },
{
    match v {
        Some(s) => owned(s.as_str()),
        None => if auto {
            owned("auto")
        } else {
            owned(fallback)
        },
    }
}

/// The id of a command-line task: `vdub_` and the first eight characters
/// of `uuid`.
pub fn cli_task_id(uuid: &str) -> (r: String)
    requires
        uuid@.len() >= 8,
    ensures
        r@ == "vdub_"@ + uuid@.take(8),
{
    let u = crate::strings::chars_of(uuid);
    let head = crate::ass::slice_vec(&u, 0, 8);
    assert(head@ =~= uuid@.take(8));
    let h = crate::strings::string_from_chars(head.as_slice());
    cat("vdub_", h.as_str())
}

/// The pipeline parameters of a command-line run: languages from the flags
/// or automatic (when the configuration allows, else English and the
/// configured target), bilingual subtitles below unless turned off,
/// horizontal embedding (and vertical when asked) unless turned off, the
/// requested voice or the engine's default, and a second sound track unless
/// the original is to be replaced.
pub fn cli_step_param(opts: CliOptions, config: &Config, task_id: &str) -> (r: StepParam)
    ensures
        r.task_id@ == task_id@,
        r.task_base_path@ == "./tasks/"@ + task_id@,
        r.link == opts.url,
        r.origin_language@ == match opts.from {
            Some(s) => s@,
            None => if config.app.auto_detect_language {
                "auto"@
            } else {
                "en"@
            },
        },
        r.target_language@ == match opts.to {
            Some(s) => s@,
            None => if config.app.auto_detect_language {
                "auto"@
            } else {
                config.app.default_target_language@
            },
        },
        r.subtitle_result_type == if opts.no_bilingual {
            SubtitleResultType::TargetOnly
        } else {
            SubtitleResultType::BilingualTranslationOnBottom
        },
        r.embed_subtitle_video_type == if opts.no_embed {
            EmbedVideoType::NoEmbed
        } else if opts.vertical {
            EmbedVideoType::All
        } else {
            EmbedVideoType::Horizontal
        },
        r.enable_tts == !opts.no_tts,
        r.enable_modal_filter == false,
        r.tts_voice_code@ == match opts.voice {
            Some(v) => v@,
            None => default_voice_of(config.tts.provider),
        },
        r.multi_track_audio == !opts.replace_audio,
        r.max_word_one_line == 12,
        r.replace_words_map@.len() == 0,
        r.subtitle_infos@.len() == 0,
        r.audio_file_path@.len() == 0 && r.input_video_path@.len() == 0
            && r.video_with_tts_file_path@.len() == 0 && r.voice_clone_audio_url@.len() == 0
            && r.user_ui_language@.len() == 0 && r.bilingual_srt_file_path@.len() == 0
            && r.short_origin_mixed_srt_file_path@.len() == 0 && r.tts_source_file_path@.len() == 0
            && r.tts_result_file_path@.len() == 0 && r.vertical_video_major_title@.len() == 0
            && r.vertical_video_minor_title@.len() == 0 && r.detected_language@.len() == 0,
{
    let auto = config.app.auto_detect_language;
    let origin_language = or_default(&opts.from, auto, "en");
    let target_language = or_default(&opts.to, auto, config.app.default_target_language.as_str());
    let subtitle_result_type = if opts.no_bilingual {
        SubtitleResultType::TargetOnly
    } else {
        SubtitleResultType::BilingualTranslationOnBottom
    };
    let embed = if opts.no_embed {
        EmbedVideoType::NoEmbed
    } else if opts.vertical {
        EmbedVideoType::All
    } else {
        EmbedVideoType::Horizontal
    };
    let voice = match &opts.voice {
        Some(v) => owned(v.as_str()),
        None => owned(default_voice(config.tts.provider)),
    };
    StepParam {
        task_id: owned(task_id),
        task_base_path: cat("./tasks/", task_id),
        link: opts.url,
        audio_file_path: String::new(),
        input_video_path: String::new(),
        video_with_tts_file_path: String::new(),
        subtitle_result_type,
        enable_modal_filter: false,
        enable_tts: !opts.no_tts,
        tts_voice_code: voice,
        voice_clone_audio_url: String::new(),
        origin_language,
        target_language,
        user_ui_language: String::new(),
        replace_words_map: Vec::new(),
        bilingual_srt_file_path: String::new(),
        short_origin_mixed_srt_file_path: String::new(),
        tts_source_file_path: String::new(),
        tts_result_file_path: String::new(),
        embed_subtitle_video_type: embed,
        vertical_video_major_title: String::new(),
        vertical_video_minor_title: String::new(),
        max_word_one_line: 12,
        subtitle_infos: Vec::new(),
        multi_track_audio: !opts.replace_audio,
        detected_language: String::new(),
    }
}

} // verus!
