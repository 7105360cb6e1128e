use vdub::aliyun::percent_encode;
use vdub::config::{Config, TtsProvider};
use vdub::deps::{
    install_one_args, pip_install_args, pip_upgrade_args, required_dependencies, venv_bin_for,
    venv_create_args,
};
use vdub::config::TranscribeProvider;
use vdub::files::{upload_destination, uploaded_link};
use vdub::link::local_source;
use vdub::media::parse_resolution;
use vdub::pipeline::{cli_step_param, cli_task_id, complete_task, stage_progress, CliOptions, Stage};
use vdub::task::{EmbedVideoType, SubtitleInfo, SubtitleResultType, SubtitleTask, TaskStatus};

fn options() -> CliOptions {
    CliOptions {
        url: "https://youtu.be/abcdefghijk".to_string(),
        from: None,
        to: Some("de".to_string()),
        no_tts: false,
        no_embed: false,
        voice: None,
        no_bilingual: false,
        replace_audio: false,
        vertical: true,
    }
}

#[test]
fn progress_grows_through_the_stages() {
    let stages = [Stage::Started, Stage::Downloaded, Stage::Transcribed, Stage::Dubbed, Stage::Embedded];
    let values: Vec<u8> = stages.iter().map(|s| stage_progress(*s)).collect();
    assert_eq!(values, vec![3, 10, 90, 95, 98]);
    assert!(values.windows(2).all(|w| w[0] < w[1]));
}

#[test]
fn completed_task_carries_results() {
    let mut t = SubtitleTask::new("tid".into(), "u".into(), "en".into(), "ru".into());
    let mut config = Config::default();
    config.tts.provider = TtsProvider::EdgeTts;
    let mut p = cli_step_param(options(), &config, "tid");
    p.subtitle_infos.push(SubtitleInfo { name: "n".into(), download_url: "/api/file/x".into() });
    p.tts_result_file_path = "/api/file/a.wav".into();
    complete_task(&mut t, &p);
    assert_eq!(t.status, TaskStatus::Success);
    assert_eq!(t.process_pct, 100);
    assert_eq!(t.subtitle_infos.len(), 1);
    assert_eq!(t.speech_download_url, "/api/file/a.wav");
}

#[test]
fn command_line_parameters() {
    let mut config = Config::default();
    config.tts.provider = TtsProvider::EdgeTts;
    let p = cli_step_param(options(), &config, "vdub_12345678");
    assert_eq!(p.task_base_path, "./tasks/vdub_12345678");
    assert_eq!(p.origin_language, "auto");
    assert_eq!(p.target_language, "de");
    assert_eq!(p.subtitle_result_type, SubtitleResultType::BilingualTranslationOnBottom);
    assert_eq!(p.embed_subtitle_video_type, EmbedVideoType::All);
    assert_eq!(p.tts_voice_code, "en-US-AriaNeural");
    assert!(p.multi_track_audio && p.enable_tts);
    config.app.auto_detect_language = false;
    config.tts.provider = TtsProvider::MlxAudio;
    let mut o = options();
    o.to = None;
    o.no_embed = true;
    o.no_bilingual = true;
    o.replace_audio = true;
    let q = cli_step_param(o, &config, "t");
    assert_eq!(q.origin_language, "en");
    assert_eq!(q.target_language, "ru");
    assert_eq!(q.tts_voice_code, "af_heart");
    assert_eq!(q.embed_subtitle_video_type, EmbedVideoType::NoEmbed);
    assert_eq!(q.subtitle_result_type, SubtitleResultType::TargetOnly);
    assert!(!q.multi_track_audio);
    assert_eq!(cli_task_id("0123abcd-0000-0000"), "vdub_0123abcd");
}

#[test]
fn install_commands() {
    let mut c = Config::default();
    c.transcribe.provider = TranscribeProvider::MlxWhisper;
    c.tts.provider = TtsProvider::MlxAudio;
    let deps = required_dependencies(&c);
    assert_eq!(pip_install_args(&deps), vec!["install", "mlx-whisper", "mlx-audio"]);
    assert_eq!(install_one_args("ffmpeg"), vec!["install", "ffmpeg"]);
    assert_eq!(venv_create_args(), vec!["-m", "venv", "./venv"]);
    assert_eq!(pip_upgrade_args(), vec!["install", "--upgrade", "pip"]);
    assert_eq!(venv_bin_for(true, true), Some("./venv/bin"));
    assert_eq!(venv_bin_for(true, false), None);
    assert_eq!(venv_bin_for(false, true), None);
}

#[test]
fn resolution_text_reads_back() {
    for (w, h) in [(640u32, 480u32), (0, 7), (u32::MAX, 1)] {
        assert_eq!(parse_resolution(&format!("{w}x{h}")), Ok((w, h)));
    }
}

#[test]
fn uploads_are_read_back() {
    let dest = upload_destination(Some("clip.mp4"));
    assert_eq!(local_source(&uploaded_link(&dest)), Some(dest));
}

#[test]
fn percent_encoding_is_url_safe() {
    let e = percent_encode("¿Qué? a/b&c=d");
    assert!(e.chars().all(|c| c.is_ascii_alphanumeric() || "-_.~%".contains(c)));
    assert_eq!(e, "%C2%BFQu%C3%A9%3F%20a%2Fb%26c%3Dd");
}
