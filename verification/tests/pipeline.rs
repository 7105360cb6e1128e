use vdub::api::{
    build_step_param, max_words_per_line, new_task_id, parse_replace_words, sanitize_for_id,
    subtitle_result_type_for, task_base_path, task_id_from, task_response, ApiResponse,
    StartTaskRequest,
};
use vdub::ass::{
    embed_layouts, embed_source, format_srt_to_ass_time, generate_ass, split_long_text,
    vertical_title_events, SrtSentenceWithStrTime,
};
use vdub::files::{attachment_header, is_safe_download_path, upload_destination, uploaded_link};
use vdub::finalize::{apply_replacements, replacement_files, upload_subtitles, OutputsPresent};
use vdub::link::{
    language_from_metadata, local_source, read_metadata, needs_video, normalize_language, ytdlp_audio_args,
    ytdlp_progress_text,
};
use vdub::task::{EmbedVideoType, SubtitleInfo, SubtitleResultType, SubtitleTask};
use vdub::transcript::{
    attempts, Retry, needs_translation, renumber_blocks, segment_audio_path, srt_text, SrtBlock, SrtSide,
    Translation,
};

fn request(url: &str) -> StartTaskRequest {
    StartTaskRequest {
        url: url.to_string(),
        origin_language: "en".to_string(),
        target_lang: "ru".to_string(),
        bilingual: 1,
        translation_subtitle_pos: 1,
        modal_filter: 0,
        tts: 1,
        tts_voice_code: "v".to_string(),
        tts_voice_clone_src_file_url: String::new(),
        replace: vec!["a|b".to_string(), "skip".to_string(), "a|c".to_string(), "x|y|z".to_string()],
        language: "en".to_string(),
        embed_subtitle_video_type: "vertical".to_string(),
        vertical_major_title: "M".to_string(),
        vertical_minor_title: "m".to_string(),
        origin_language_word_one_line: 0,
        multi_track: true,
    }
}

#[test]
fn ass_time_conversion() {
    assert_eq!(format_srt_to_ass_time("00:01:02,345"), "0:01:02.34");
    assert_eq!(format_srt_to_ass_time("1:2:3.5"), "1:02:03.00");
    assert_eq!(format_srt_to_ass_time("01:02,500"), "01:02,500");
    assert_eq!(format_srt_to_ass_time("bad"), "bad");
}

#[test]
fn long_lines_split_in_the_middle() {
    assert_eq!(split_long_text("a b c d e", 4), "a b\\Nc d e");
    assert_eq!(split_long_text("a b", 4), "a b");
}

#[test]
fn ass_document_for_bilingual_subtitles() {
    let subs = vec![SrtSentenceWithStrTime {
        start: "00:00:01,000".into(),
        end: "00:00:02,500".into(),
        text: "Hello\nПривет".into(),
    }];
    let doc = generate_ass("[H]\n", &subs, SubtitleResultType::BilingualTranslationOnTop, 12);
    assert_eq!(
        doc,
        "[H]\nDialogue: 0,0:00:01.00,0:00:02.50,Major,,0,0,0,,Hello\nDialogue: 0,0:00:01.00,0:00:02.50,Minor,,0,0,0,,Привет\n"
    );
    let single = generate_ass("", &subs, SubtitleResultType::OriginOnly, 12);
    assert_eq!(single, "Dialogue: 0,0:00:01.00,0:00:02.50,Major,,0,0,0,,Hello\n");
}

#[test]
fn embedding_choices() {
    assert_eq!(embed_layouts(EmbedVideoType::All), (true, true));
    assert_eq!(embed_layouts(EmbedVideoType::NoEmbed), (false, false));
    assert_eq!(embed_source("t.mp4", true, "i.mp4", true), Some("t.mp4".to_string()));
    assert_eq!(embed_source("t.mp4", false, "i.mp4", true), Some("i.mp4".to_string()));
    assert_eq!(embed_source("t.mp4", false, "i.mp4", false), None);
    assert!(vertical_title_events("0:00:05.00", "Major", "minor").contains("Major"));
}

#[test]
fn links_and_languages() {
    assert_eq!(local_source("local:./uploads/a.mp4"), Some("./uploads/a.mp4".to_string()));
    assert_eq!(local_source("local:local:x"), Some("x".to_string()));
    assert_eq!(local_source("https://youtu.be/x"), None);
    assert_eq!(normalize_language("en-US"), "en");
    assert_eq!(normalize_language("RU"), "ru");
    assert_eq!(normalize_language("zh-CN"), "zh_cn");
    assert_eq!(normalize_language("zh-TW"), "zh_tw");
    assert_eq!(normalize_language("zh-Hant-TW"), "zh_hant");
    assert_eq!(normalize_language("zh"), "zh");
    assert_eq!(normalize_language("pt-BR"), "pt");
    assert_eq!(language_from_metadata("auto", "zh-CN"), "zh_cn");
    assert_eq!(language_from_metadata("auto", "De-AT"), "de");
    assert_eq!(language_from_metadata("auto", ""), "auto");
    assert_eq!(language_from_metadata("en", "de"), "en");
    assert!(needs_video(EmbedVideoType::NoEmbed, true));
    assert!(!needs_video(EmbedVideoType::NoEmbed, false));
    let args = ytdlp_audio_args("a.mp3", "http://p", "URL");
    assert_eq!(&args[args.len() - 3..], &["--proxy".to_string(), "http://p".to_string(), "URL".to_string()][..]);
}

#[test]
fn ytdlp_progress_lines() {
    assert_eq!(
        ytdlp_progress_text("  [download]  42.5% of 10.00MiB at 1.00MiB/s"),
        Some("42.5".to_string())
    );
    assert_eq!(ytdlp_progress_text("[download] Destination: x.mp4"), None);
    assert_eq!(ytdlp_progress_text("[info] 50%"), None);
}

#[test]
fn task_ids_and_requests() {
    assert_eq!(sanitize_for_id("https://youtu.be/ab_c-d?x=1"), "httpsyoutubeab_c-dx1");
    assert_eq!(sanitize_for_id(&"a".repeat(80)).len(), 50);
    assert_eq!(task_id_from("u://v", "0123abcd-ffff"), "uv_0123abcd");
    let id = new_task_id("abc");
    assert!(id.starts_with("abc_"));
    assert_eq!(id.len(), 12);
    assert!(id[4..].chars().all(|c| c.is_ascii_hexdigit() && !c.is_ascii_uppercase()));
    assert_eq!(subtitle_result_type_for(1, 1, "ru"), SubtitleResultType::BilingualTranslationOnTop);
    assert_eq!(subtitle_result_type_for(1, 2, "ru"), SubtitleResultType::BilingualTranslationOnBottom);
    assert_eq!(subtitle_result_type_for(0, 1, "ru"), SubtitleResultType::TargetOnly);
    assert_eq!(subtitle_result_type_for(0, 1, ""), SubtitleResultType::OriginOnly);
    assert_eq!(max_words_per_line(0), 12);
    assert_eq!(max_words_per_line(7), 7);
    assert_eq!(task_base_path("t1"), "./tasks/t1");
}

#[test]
fn replacement_words_later_ones_win() {
    let pairs = parse_replace_words(&vec!["a|b".into(), "skip".into(), "a|c".into(), "x|y|z".into()]);
    assert_eq!(
        pairs,
        vec![("a".to_string(), "c".to_string()), ("x".to_string(), "y|z".to_string())]
    );
}

#[test]
fn step_param_from_request() {
    let p = build_step_param(request("local:./uploads/v.mp4"), "tid");
    assert_eq!(p.task_id, "tid");
    assert_eq!(p.task_base_path, "./tasks/tid");
    assert_eq!(p.subtitle_result_type, SubtitleResultType::BilingualTranslationOnTop);
    assert!(p.enable_tts && !p.enable_modal_filter && p.multi_track_audio);
    assert_eq!(p.embed_subtitle_video_type, EmbedVideoType::Vertical);
    assert_eq!(p.max_word_one_line, 12);
    assert_eq!(p.replace_words_map.len(), 2);
    assert_eq!(p.output_dir(), "./tasks/tid/output");
    assert_eq!((p.origin_language.as_str(), p.target_language.as_str()), ("en", "ru"));
}

#[test]
fn empty_languages_mean_auto() {
    let mut req = request("u");
    req.origin_language = String::new();
    req.target_lang = String::new();
    let p = build_step_param(req, "tid");
    assert_eq!(p.origin_language, "auto");
    assert_eq!(p.target_language, "auto");
}

#[test]
fn api_envelopes_and_task_view() {
    let ok = ApiResponse::success(5);
    assert_eq!((ok.error, ok.msg.as_str(), ok.data), (0, "success", Some(5)));
    let e = ApiResponse::error("bad");
    assert_eq!((e.error, e.msg.as_str(), e.data), (-1, "bad", None));
    let mut t = SubtitleTask::new("id".into(), "src".into(), "en".into(), "ru".into());
    t.subtitle_infos.push(SubtitleInfo { name: "n".into(), download_url: "/api/file/x".into() });
    let v = task_response(&t);
    assert!(v.video_info.is_none());
    assert_eq!(v.subtitle_info.len(), 1);
    assert_eq!(v.subtitle_info[0].download_url, "/api/file/x");
    t.title = "T".into();
    assert_eq!(task_response(&t).video_info.unwrap().title, "T");
}

#[test]
fn srt_documents() {
    let mut blocks = vec![
        SrtBlock {
            index: 7,
            timestamp: "00:00:00,000 --> 00:00:01,000".into(),
            origin_language_sentence: "Hi".into(),
            target_language_sentence: "Привет".into(),
        },
        SrtBlock {
            index: 9,
            timestamp: "00:00:01,000 --> 00:00:02,000".into(),
            origin_language_sentence: "Bye".into(),
            target_language_sentence: "Пока".into(),
        },
    ];
    renumber_blocks(&mut blocks);
    assert_eq!((blocks[0].index, blocks[1].index), (1, 2));
    assert_eq!(
        srt_text(&blocks, SrtSide::Origin),
        "1\n00:00:00,000 --> 00:00:01,000\nHi\n\n2\n00:00:01,000 --> 00:00:02,000\nBye\n\n"
    );
    assert!(needs_translation(SubtitleResultType::TargetOnly, "en", "ru"));
    assert!(!needs_translation(SubtitleResultType::OriginOnly, "en", "ru"));
    assert!(!needs_translation(SubtitleResultType::TargetOnly, "en", "en"));
    assert_eq!(segment_audio_path("./t", 7), "./t/split_audio_007.mp3");
    assert_eq!(attempts(0), 1);
}

#[test]
fn translation_runs_every_sentence() {
    let sentences = vec!["One.".to_string(), "Two.".to_string()];
    let mut t = Translation::new(sentences, "{origin_lang}>{target_lang}|{prev_context}|{text}|{next_context}", "en", "ru", 2);
    assert_eq!(t.request(), Some("en>ru||One.|Two.".to_string()));
    t.on_reply(Some("  Один. "));
    assert_eq!(t.request(), Some("en>ru|One.|Two.|".to_string()));
    t.on_reply(None);
    assert!(t.request().is_some());
    t.on_reply(None);
    assert_eq!(t.request(), None);
    let items = t.into_items();
    assert_eq!(items.len(), 2);
    assert_eq!(items[0].translated_text, "Один.");
    assert_eq!(items[1].origin_text, "Two.");
    assert_eq!(items[1].translated_text, "Two.");
}

#[test]
fn replacements_apply_in_order() {
    let pairs = vec![("cat".to_string(), "dog".to_string()), ("dog".to_string(), "fox".to_string())];
    assert_eq!(apply_replacements("cat and dog", &pairs), "fox and fox");
    assert_eq!(apply_replacements("same", &Vec::new()), "same");
    assert_eq!(
        replacement_files("o"),
        vec!["o/bilingual_srt.srt", "o/origin_language_srt.srt", "o/target_language_srt.srt"]
    );
}

#[test]
fn finished_task_offers_present_files() {
    let mut p = build_step_param(request("u"), "tid");
    let present = OutputsPresent {
        bilingual: true,
        origin: false,
        target: true,
        horizontal: false,
        vertical: false,
        tts_audio: true,
        tts_video: true,
    };
    upload_subtitles(&mut p, &present);
    let names: Vec<&str> = p.subtitle_infos.iter().map(|i| i.name.as_str()).collect();
    assert_eq!(names, vec!["Bilingual Subtitles", "Translated Subtitles", "Video with Dubbed Audio"]);
    assert_eq!(p.subtitle_infos[0].download_url, "/api/file/./tasks/tid/output/bilingual_srt.srt");
    assert_eq!(p.subtitle_infos[2].download_url, "/api/file/./tasks/tid/video_with_tts.mp4");
    assert_eq!(p.tts_result_file_path, "/api/file/./tasks/tid/tts_final_audio.wav");
    assert_eq!(p.task_id, "tid");
}

#[test]
fn upload_and_download_paths() {
    assert_eq!(upload_destination(Some("a.mp4")), "./uploads/a.mp4");
    assert_eq!(upload_destination(None), "./uploads/uploaded_file");
    assert_eq!(uploaded_link("./uploads/a.mp4"), "local:./uploads/a.mp4");
    assert!(is_safe_download_path("tasks/x/output/a.srt"));
    assert!(!is_safe_download_path("../etc/passwd"));
    assert!(is_safe_download_path("./tasks/tid/output/bilingual_srt.srt"));
    assert!(!is_safe_download_path("/etc/passwd"));
    assert!(!is_safe_download_path("./tasks/../config/config.toml"));
    assert!(!is_safe_download_path("config/config.toml"));
    assert!(!is_safe_download_path(""));
    assert_eq!(attachment_header("a.srt"), "attachment; filename=\"a.srt\"");
}

#[test]
fn metadata_sets_the_source_language() {
    let meta = br#"{"title":"A talk","language":"zh-CN","duration":12}"#;
    let m = read_metadata("auto", meta);
    assert_eq!(m.title.as_deref(), Some("A talk"));
    assert_eq!(m.language.as_deref(), Some("zh-CN"));
    assert_eq!(m.origin_language, "zh_cn");
    assert_eq!(read_metadata("en", meta).origin_language, "en");
    let none = read_metadata("auto", br#"{"title":"x","language":null}"#);
    assert_eq!(none.language, None);
    assert_eq!(none.origin_language, "auto");
    let broken = read_metadata("auto", b"not json");
    assert!(broken.title.is_none() && broken.language.is_none());
    assert_eq!(broken.origin_language, "auto");
    assert_eq!(read_metadata("auto", br#"{"language":""}"#).origin_language, "auto");
}

#[test]
fn transcription_retries_until_allowed() {
    let mut r = Retry::new(3);
    let mut tries = 0;
    while r.should_try() {
        tries += 1;
        assert_eq!(r.attempt_number(), tries);
        r.record_failure();
    }
    assert_eq!(tries, 3);
    let once = Retry::new(0);
    assert!(once.should_try());
    assert_eq!(once.allowed, 1);
}
