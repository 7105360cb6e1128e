use vdub::aliyun::{
    asr_poll_step, create_token_url, hex_id, join_sentences, oss_object_url, oss_put, oss_put_for, percent_encode,
    sign, synthesis_step, token_query, token_url, wait_step, AliyunAsrClient, AliyunTtsClient,
    AsrPoll, SynthesisStep, WaitStep, WsEvent,
};
use vdub::media::{
    add_audio_track_args, gap_path, mono_output_path, parse_resolution, replace_audio_args,
    report_tts_progress, silence_path, subtitle_audio_path, too_many_tts_failures, tts_merge,
    ResolutionError, TtsMerge,
};
use vdub::providers::{
    clean_word, collect_words, join_path, join_segment_texts, EdgeTtsClient,
    FasterWhisperProcessor, MlxAudioClient, MlxWhisperProcessor, WhisperCppProcessor,
    WhisperKitProcessor, WordCleanup,
};

#[test]
fn percent_encoding_of_bytes() {
    assert_eq!(percent_encode("a b/ü~"), "a%20b%2F%C3%BC~");
    assert_eq!(percent_encode("AZaz09-_.~"), "AZaz09-_.~");
    assert_eq!(percent_encode(""), "");
}

#[test]
fn token_request_is_signed() {
    let q = token_query("testid", "abc", "2024-01-01T00:00:00Z");
    assert_eq!(
        q,
        "AccessKeyId=testid&Action=CreateToken&Format=JSON&RegionId=cn-shanghai&SignatureMethod=HMAC-SHA1&SignatureNonce=abc&SignatureVersion=1.0&Timestamp=2024-01-01T00%3A00%3A00Z&Version=2019-02-28"
    );
    let url = token_url("testid", "testsecret", "abc", "2024-01-01T00:00:00Z");
    assert_eq!(
        url,
        format!("https://nls-meta.cn-shanghai.aliyuncs.com/?Signature=GeYmFRLWJSQxpoXrVXs4R1yU8tc%3D&{q}")
    );
}

#[test]
fn signatures_are_hmac_sha1_base64() {
    // RFC 2202 test case 2.
    assert_eq!(sign("Jefe", "what do ya want for nothing?"), "7/zfauXrL6LSdBbV8YTfnCWafHk=");
    let put = oss_put_for("akid", "ossecret", "bucket", "krillin/a.mp3", "Mon, 01 Jan 2024 00:00:00 GMT");
    assert_eq!(put.url, "https://bucket.oss-cn-shanghai.aliyuncs.com/krillin/a.mp3");
    assert_eq!(put.authorization, "OSS akid:Ke7IAJNQowYQSqAdGX2Zb6pEBPg=");
    let now = oss_put("akid", "s", "b", "k");
    assert!(now.date.ends_with(" GMT"));
    assert!(now.authorization.starts_with("OSS akid:"));
}

#[test]
fn recognition_session_decisions() {
    assert_eq!(asr_poll_step(0, "SUCCESS"), AsrPoll::Done);
    assert_eq!(asr_poll_step(3, "FAILED"), AsrPoll::Failed);
    assert_eq!(asr_poll_step(3, "RUNNING"), AsrPoll::Wait);
    assert_eq!(asr_poll_step(59, "QUEUEING"), AsrPoll::TimedOut);
    assert_eq!(
        join_sentences(&vec!["".to_string(), "Hello.".to_string(), "World.".to_string()]),
        "Hello. World."
    );
    assert_eq!(AliyunAsrClient::file_key("a.mp3"), "krillin/a.mp3");
    let c = AliyunAsrClient::new("i", "s", "k", "bkt", "oi", "os");
    assert_eq!(c.file_link("krillin/a.mp3"), oss_object_url("bkt", "krillin/a.mp3"));
}

#[test]
fn synthesis_session_decisions() {
    assert_eq!(synthesis_step(&WsEvent::Binary), SynthesisStep::Write);
    assert_eq!(synthesis_step(&WsEvent::Text(Some("SynthesisCompleted".into()))), SynthesisStep::Finish);
    assert_eq!(synthesis_step(&WsEvent::Text(Some("SentenceBegin".into()))), SynthesisStep::Continue);
    assert_eq!(synthesis_step(&WsEvent::Error), SynthesisStep::Fail);
    assert_eq!(synthesis_step(&WsEvent::Closed), SynthesisStep::Finish);
    assert_eq!(wait_step(&WsEvent::Text(Some("SynthesisStarted".into())), "SynthesisStarted"), WaitStep::Found);
    assert_eq!(wait_step(&WsEvent::Binary, "SynthesisStarted"), WaitStep::Continue);
    assert_eq!(wait_step(&WsEvent::Closed, "SynthesisStarted"), WaitStep::Closed);
    assert_eq!(
        AliyunTtsClient::socket_url("tok"),
        "wss://nls-gateway-cn-beijing.aliyuncs.com/ws/v1?token=tok"
    );
    let id = hex_id();
    assert_eq!(id.len(), 32);
    assert!(id.chars().all(|c| c.is_ascii_hexdigit() && !c.is_ascii_uppercase()));
}

#[test]
fn ffmpeg_command_lines() {
    assert_eq!(
        replace_audio_args("v.mp4", "a.wav", "o.mp4"),
        vec!["-y", "-i", "v.mp4", "-i", "a.wav", "-c:v", "copy", "-map", "0:v:0", "-map", "1:a:0", "o.mp4"]
    );
    let add = add_audio_track_args("v.mp4", "a.wav", "o.mp4", "eng", "ru");
    assert!(add.contains(&"language=eng".to_string()));
    assert!(add.contains(&"title=eng".to_string()));
    assert!(add.contains(&"title=Russian Dub".to_string()));
    assert_eq!(mono_output_path("dir", "song"), "dir/song_mono_16K.mp3");
    assert_eq!(mono_output_path("", "song"), "song_mono_16K.mp3");
    assert_eq!(subtitle_audio_path("./t", 3), "./t/subtitle_3.wav");
    assert_eq!(silence_path("out/", 9000), "out/silence_9000.wav");
}

#[test]
fn resolutions() {
    assert_eq!(parse_resolution(" 1920x1080\n"), Ok((1920, 1080)));
    assert_eq!(parse_resolution("1920"), Err(ResolutionError::Shape));
    assert_eq!(parse_resolution("1x2x3"), Err(ResolutionError::Shape));
    assert_eq!(parse_resolution("wx1080"), Err(ResolutionError::Number));
}

#[test]
fn speech_step_decisions() {
    assert!(!too_many_tts_failures(0, 0));
    assert!(!too_many_tts_failures(5, 10));
    assert!(too_many_tts_failures(6, 10));
    assert!(report_tts_progress(5, 12));
    assert!(report_tts_progress(12, 12));
    assert!(!report_tts_progress(3, 12));
    assert_eq!(tts_merge("v.mp4", true, true), TtsMerge::AddTrack);
    assert_eq!(tts_merge("v.mp4", true, false), TtsMerge::Replace);
    assert_eq!(tts_merge("", true, true), TtsMerge::AudioOnly);
}

#[test]
fn local_engine_command_lines() {
    let fw = FasterWhisperProcessor::new("fw", "large-v2", true);
    let args = fw.args("a.mp3", "en", "work");
    assert_eq!(
        args,
        vec![
            "--model_dir", "./models/", "--model", "large-v2", "--one_word", "2", "--output_format",
            "json", "--output_dir", "work", "--language", "en", "--compute_type", "float16", "a.mp3"
        ]
    );
    let wc = WhisperCppProcessor::new("wc", "base");
    assert_eq!(wc.model_path(), "./models/whispercpp/ggml-base.bin");
    assert_eq!(wc.args("a.wav", "", "out/a").len(), 9);
    let wk = WhisperKitProcessor::new("wk", "tiny");
    assert_eq!(wk.args("a.wav", "ja", "w")[2], "./models/whisperkit/openai_whisper-tiny");
    let mlx = MlxWhisperProcessor::new("m");
    assert_eq!(mlx.args("a.wav", "auto", "w").len(), 9);
    assert_eq!(mlx.args("a.wav", "de", "w").len(), 11);
    let edge = EdgeTtsClient::new("edge-tts");
    assert_eq!(edge.args("t.txt", " ru-RU-DmitryNeural ", "o.mp3")[3], "ru-RU-DmitryNeural");
    assert_eq!(EdgeTtsClient::wait_after_failure(0), Some(2));
    assert_eq!(EdgeTtsClient::wait_after_failure(1), Some(4));
    assert_eq!(EdgeTtsClient::wait_after_failure(2), None);
    let kokoro = MlxAudioClient::new("k", "af_heart");
    assert_eq!(kokoro.voice_for(""), "af_heart");
    assert_eq!(kokoro.args("t", "bf", "o")[7], "bf");
    assert_eq!(join_path("a/", "b"), "a/b");
    assert_eq!(join_path("a", "/b"), "/b");
}

#[test]
fn transcript_words_are_cleaned_and_numbered() {
    assert_eq!(clean_word(&Some(" well--known ".into()), WordCleanup::DashesAndTrim), "well known");
    assert_eq!(clean_word(&Some(" a--b ".into()), WordCleanup::Trim), "a--b");
    let raw = vec![Some(" Hi".to_string()), Some("--".to_string()), None, Some("there ".to_string())];
    let words = collect_words(&raw, WordCleanup::DashesAndTrim);
    assert_eq!(words.len(), 2);
    assert_eq!((words[0].num, words[0].source, words[0].text.as_str()), (0, 0, "Hi"));
    assert_eq!((words[1].num, words[1].source, words[1].text.as_str()), (1, 3, "there"));
    assert_eq!(join_segment_texts(&vec![Some(" a".into()), None, Some(" b".into())]), " a b");
}

fn reserialized(frame: &str) -> String {
    serde_json::to_string(&serde_json::from_str::<serde_json::Value>(frame).unwrap()).unwrap()
}

#[test]
fn synthesis_frames_are_json() {
    let c = AliyunTtsClient::new("ak", "secret", "app\"key");
    let start = c.start_frame("m1", "t1", "xiaoyun");
    assert_eq!(
        start,
        "{\"header\":{\"appkey\":\"app\\\"key\",\"message_id\":\"m1\",\"name\":\"StartSynthesis\",\"namespace\":\"FlowingSpeechSynthesizer\",\"task_id\":\"t1\"},\"payload\":{\"format\":\"wav\",\"pitch_rate\":0,\"sample_rate\":44100,\"speech_rate\":0,\"voice\":\"xiaoyun\",\"volume\":50}}"
    );
    assert_eq!(reserialized(&start), start);
    let run = c.run_frame("m2", "t1", "line \"one\"\n\ttab\u{1}\\ end – ü");
    assert_eq!(reserialized(&run), run);
    let v: serde_json::Value = serde_json::from_str(&run).unwrap();
    assert_eq!(v["payload"]["text"], "line \"one\"\n\ttab\u{1}\\ end – ü");
    assert_eq!(v["header"]["name"], "RunSynthesis");
    let stop = c.stop_frame("m3", "t1");
    assert_eq!(reserialized(&stop), stop);
    let v: serde_json::Value = serde_json::from_str(&stop).unwrap();
    assert_eq!(v["header"]["message_id"], "m3");
    assert!(v.get("payload").is_none());
}

#[test]
fn token_request_now_has_fresh_nonce_and_time() {
    let url = create_token_url("id", "secret");
    let query = url.split_once('&').unwrap().1;
    let value = |key: &str| {
        query.split('&').find_map(|kv| kv.strip_prefix(&format!("{key}="))).unwrap().to_string()
    };
    let nonce = value("SignatureNonce");
    assert_eq!(nonce.len(), 36);
    assert_eq!(nonce.matches('-').count(), 4);
    let stamp = value("Timestamp").replace("%3A", ":");
    assert_eq!(stamp.len(), 20);
    assert!(stamp.ends_with('Z') && stamp.as_bytes()[10] == b'T');
    assert!(url.starts_with("https://nls-meta.cn-shanghai.aliyuncs.com/?Signature="));
}

#[test]
fn gap_files_are_named_by_subtitle() {
    assert_eq!(gap_path("out", 3), "out/gap_3.wav");
}
