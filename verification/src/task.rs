//! Task records, pipeline parameters and output file names.
use vstd::prelude::*;
use crate::strings::{cat, str_eq};

verus! {

/// Task status.
#[derive(Debug, Clone, Copy, PartialEq, Eq, Structural)]
pub enum TaskStatus {
    Processing,
    Success,
    Failed,
}

/// Which languages the subtitles show, and in which order.
#[derive(Debug, Clone, Copy, PartialEq, Eq, Structural)]
pub enum SubtitleResultType {
    OriginOnly,
    TargetOnly,
    BilingualTranslationOnTop,
    BilingualTranslationOnBottom,
}

/// Which videos get the subtitles burnt in.
#[derive(Debug, Clone, Copy, PartialEq, Eq, Structural)]
pub enum EmbedVideoType {
    NoEmbed,
    Horizontal,
    Vertical,
    All,
}

impl Default for EmbedVideoType {
    fn default() -> (r: Self)
        ensures
            r == EmbedVideoType::NoEmbed,
    {
        EmbedVideoType::NoEmbed
    }
}

/// The embedding named by a request field: `"horizontal"`, `"vertical"`,
/// `"all"`, and anything else for none.
pub open spec fn embed_type_named(s: Seq<char>) -> EmbedVideoType {
    if s == "horizontal"@ {
        EmbedVideoType::Horizontal
    } else if s == "vertical"@ {
        EmbedVideoType::Vertical
    } else if s == "all"@ {
        EmbedVideoType::All
    } else {
        EmbedVideoType::NoEmbed
    }
}

impl<'a> From<&'a str> for EmbedVideoType {
    fn from(s: &'a str) -> (r: Self) {
        if str_eq(s, "horizontal") {
            EmbedVideoType::Horizontal
        } else if str_eq(s, "vertical") {
            EmbedVideoType::Vertical
        } else if str_eq(s, "all") {
            EmbedVideoType::All
        } else {
            EmbedVideoType::NoEmbed
        }
    }
}

impl<'a> vstd::std_specs::convert::FromSpecImpl<&'a str> for EmbedVideoType {
    open spec fn obeys_from_spec() -> bool {
        true
    }

    open spec fn from_spec(s: &'a str) -> Self {
        embed_type_named(s@)
    }
}

/// A downloadable output of a task.
#[derive(Debug, Clone)]
pub struct SubtitleInfo {
    pub name: String,
    pub download_url: String,
}

/// The state of one dubbing task.
#[derive(Debug, Clone)]
pub struct SubtitleTask {
    pub task_id: String,
    pub title: String,
    pub description: String,
    pub translated_title: String,
    pub translated_description: String,
    pub origin_language: String,
    pub target_language: String,
    pub video_src: String,
    pub status: TaskStatus,
    pub fail_reason: String,
    pub process_pct: u8,
    pub subtitle_infos: Vec<SubtitleInfo>,
    pub speech_download_url: String,
    pub create_time: i64,
    pub update_time: i64,
}

/// chrono `Utc::now().timestamp()`: the current time in whole seconds since
/// the Unix epoch. Nothing is claimed of it: it depends on the clock.
#[verifier::external_body]
fn now_timestamp() -> (t: i64) {
    chrono::Utc::now().timestamp()
}

impl SubtitleTask {
    /// A task's progress never passes 100 percent.
    pub open spec fn wf(&self) -> bool {
        self.process_pct <= 100
    }

    /// A new task in progress at 0 percent, created and updated now.
    pub fn new(task_id: String, video_src: String, origin_lang: String, target_lang: String) -> (r:
        Self)
        ensures
            r.wf(),
            r.task_id == task_id,
            r.video_src == video_src,
            r.origin_language == origin_lang,
            r.target_language == target_lang,
            r.status == TaskStatus::Processing,
            r.process_pct == 0,
            r.title@.len() == 0,
            r.description@.len() == 0,
            r.translated_title@.len() == 0,
            r.translated_description@.len() == 0,
            r.fail_reason@.len() == 0,
            r.subtitle_infos@.len() == 0,
            r.speech_download_url@.len() == 0,
            r.create_time == r.update_time,
    {
        let now = now_timestamp();
        SubtitleTask {
            task_id,
            title: String::new(),
            description: String::new(),
            translated_title: String::new(),
            translated_description: String::new(),
            origin_language: origin_lang,
            target_language: target_lang,
            video_src,
            status: TaskStatus::Processing,
            fail_reason: String::new(),
            process_pct: 0,
            subtitle_infos: Vec::new(),
            speech_download_url: String::new(),
            create_time: now,
            update_time: now,
        }
    }

    /// Mark the task failed with `reason`.
    pub fn set_failed(&mut self, reason: String)
        ensures
            final(self).status == TaskStatus::Failed,
            final(self).fail_reason == reason,
            final(self).process_pct == old(self).process_pct,
            final(self).task_id == old(self).task_id,
            final(self).subtitle_infos == old(self).subtitle_infos,
            final(self).speech_download_url == old(self).speech_download_url,
            final(self).create_time == old(self).create_time,
            old(self).wf() ==> final(self).wf(),
    {
        self.status = TaskStatus::Failed;
        self.fail_reason = reason;
        self.update_time = now_timestamp();
    }

    /// Record progress, capped at 100 percent.
    pub fn set_progress(&mut self, pct: u8)
        ensures
            final(self).process_pct == if pct < 100 { pct } else { 100 },
            final(self).status == old(self).status,
            final(self).fail_reason == old(self).fail_reason,
            final(self).task_id == old(self).task_id,
            final(self).subtitle_infos == old(self).subtitle_infos,
            final(self).speech_download_url == old(self).speech_download_url,
            final(self).create_time == old(self).create_time,
            final(self).wf(),
    {
        self.process_pct = if pct < 100 { pct } else { 100 };
        self.update_time = now_timestamp();
    }

    /// Mark the task done at 100 percent.
    pub fn set_success(&mut self)
        ensures
            final(self).status == TaskStatus::Success,
            final(self).process_pct == 100,
            final(self).fail_reason == old(self).fail_reason,
            final(self).task_id == old(self).task_id,
            final(self).subtitle_infos == old(self).subtitle_infos,
            final(self).speech_download_url == old(self).speech_download_url,
            final(self).create_time == old(self).create_time,
            final(self).wf(),
    {
        self.status = TaskStatus::Success;
        self.process_pct = 100;
        self.update_time = now_timestamp();
    }
}

/// Parameters passed through the pipeline steps.
#[derive(Debug, Clone)]
pub struct StepParam {
    pub task_id: String,
    pub task_base_path: String,
    pub link: String,
    pub audio_file_path: String,
    pub input_video_path: String,
    pub video_with_tts_file_path: String,
    pub subtitle_result_type: SubtitleResultType,
    pub enable_modal_filter: bool,
    pub enable_tts: bool,
    pub tts_voice_code: String,
    pub voice_clone_audio_url: String,
    pub origin_language: String,
    pub target_language: String,
    pub user_ui_language: String,
    /// Word replacements, each key at most once; later requests win.
    pub replace_words_map: Vec<(String, String)>,
    pub bilingual_srt_file_path: String,
    pub short_origin_mixed_srt_file_path: String,
    pub tts_source_file_path: String,
    pub tts_result_file_path: String,
    pub embed_subtitle_video_type: EmbedVideoType,
    pub vertical_video_major_title: String,
    pub vertical_video_minor_title: String,
    pub max_word_one_line: usize,
    pub subtitle_infos: Vec<SubtitleInfo>,
    /// Whether to add dubbed audio as a second track (true) or replace original (false)
    pub multi_track_audio: bool,
    /// Detected language from Whisper (filled during transcription)
    pub detected_language: String,
}

impl StepParam {
    /// The directory that receives the task's results.
    pub fn output_dir(&self) -> (r: String)
        ensures
            r@ == self.task_base_path@ + "/output"@,
    {
        cat(self.task_base_path.as_str(), "/output")
    }
}

pub const AUDIO_FILE_NAME: &'static str = "origin_audio.mp3";
pub const VIDEO_FILE_NAME: &'static str = "origin_video.mp4";
pub const SPLIT_AUDIO_PATTERN: &'static str = "split_audio_{:03}.mp3";
pub const BILINGUAL_SRT_FILE: &'static str = "bilingual_srt.srt";
pub const ORIGIN_LANG_SRT_FILE: &'static str = "origin_language_srt.srt";
pub const TARGET_LANG_SRT_FILE: &'static str = "target_language_srt.srt";
pub const SHORT_ORIGIN_MIXED_SRT_FILE: &'static str = "short_origin_mixed_srt.srt";
pub const SHORT_ORIGIN_SRT_FILE: &'static str = "short_origin_srt.srt";
pub const TTS_FINAL_AUDIO: &'static str = "tts_final_audio.wav";
pub const VIDEO_WITH_TTS: &'static str = "video_with_tts.mp4";
pub const HORIZONTAL_EMBED: &'static str = "horizontal_embed.mp4";
pub const VERTICAL_EMBED: &'static str = "vertical_embed.mp4";

} // verus!
