use vdub::config::{Config, ConfigError, TranscribeProvider, TtsProvider};
use vdub::deps::{missing_dependencies, needs_venv, required_dependencies, DepKind};
use vdub::service::{OpenAiClient, Service, Transcriber, Ttser};
use vdub::storage::{is_available, probe_targets, which, which_any, BinPaths, ToolProbe};
use vdub::task::{SubtitleTask, TaskStatus};

fn strings(v: &[&str]) -> Vec<String> {
    v.iter().map(|s| s.to_string()).collect()
}

#[test]
fn config_defaults() {
    let c = Config::default();
    assert_eq!(c.app.segment_duration, 5);
    assert_eq!(c.app.translate_parallel_num, 3);
    assert_eq!(c.app.max_sentence_length, 70);
    assert_eq!(c.server.host, "127.0.0.1");
    assert_eq!(c.server.port, 8888);
    assert_eq!(c.llm.model, "gpt-4o-mini");
    assert_eq!(c.transcribe.provider, TranscribeProvider::Fasterwhisper);
    assert_eq!(c.tts.provider, TtsProvider::EdgeTts);
    assert_eq!(c.transcribe.openai.model, "whisper-1");
    assert_eq!(c.tts.openai.model, "gpt-4o-mini-tts");
    assert_eq!(c.tts.mlx_audio.voice, "af_heart");
    assert_eq!(c.transcribe.provider.as_str(), "fasterwhisper");
    assert_eq!(c.tts.provider.as_str(), "edge-tts");
    assert_eq!(c.validate(false), Ok(()));
    assert_eq!(TtsProvider::EdgeTts.as_str(), "edge-tts");
}

#[test]
fn validate_reports_first_problem() {
    let mut c = Config::default();
    c.transcribe.provider = TranscribeProvider::Openai;
    c.tts.provider = TtsProvider::Openai;
    assert_eq!(c.validate(false), Err(ConfigError::OpenaiTranscriptionNeedsKey));
    c.transcribe.provider = TranscribeProvider::Fasterwhisper;
    assert_eq!(c.validate(false), Err(ConfigError::OpenaiTtsNeedsKey));
    c.llm.api_key = "k".to_string();
    assert_eq!(c.validate(false), Ok(()));
    c.tts.provider = TtsProvider::EdgeTts;
    assert_eq!(c.validate(false), Ok(()));
    c.transcribe.provider = TranscribeProvider::Whisperkit;
    assert_eq!(c.validate(false), Err(ConfigError::WhisperkitNeedsMacos));
    assert_eq!(c.validate(true), Ok(()));
    c.transcribe.provider = TranscribeProvider::Aliyun;
    assert_eq!(
        c.validate(true).unwrap_err().message(),
        "Aliyun transcription requires access_key_id, access_key_secret, and app_key"
    );
    c.transcribe.provider = TranscribeProvider::Fasterwhisper;
    c.tts.provider = TtsProvider::MlxAudio;
    assert_eq!(c.validate(false), Err(ConfigError::MlxAudioNeedsMacos));
}

#[test]
fn dependencies_follow_providers() {
    let mut c = Config::default();
    c.transcribe.provider = TranscribeProvider::Fasterwhisper;
    c.tts.provider = TtsProvider::EdgeTts;
    let deps = required_dependencies(&c);
    let names: Vec<&str> = deps.iter().map(|d| d.name).collect();
    assert_eq!(names, vec!["ffmpeg", "yt-dlp", "faster-whisper", "edge-tts"]);
    assert!(needs_venv(&deps));
    let (brew, pip) = missing_dependencies(&deps, &vec![true, false, false, true]);
    assert_eq!(brew.iter().map(|d| d.name).collect::<Vec<_>>(), vec!["yt-dlp"]);
    assert_eq!(pip.iter().map(|d| d.name).collect::<Vec<_>>(), vec!["faster-whisper"]);
    assert!(matches!(pip[0].kind, DepKind::Pip("faster-whisper")));
    let mut remote = Config::default();
    remote.transcribe.provider = TranscribeProvider::Openai;
    remote.tts.provider = TtsProvider::Openai;
    let plain = required_dependencies(&remote);
    assert!(!needs_venv(&plain));
}

#[test]
fn which_prefers_venv_then_local_then_path() {
    let probe = ToolProbe {
        existing: strings(&["venv/bin/ffmpeg", "./bin/ffmpeg", "./bin/yt-dlp"]),
        on_path: strings(&["whisperkit"]),
    };
    assert_eq!(which("ffmpeg", Some("venv/bin"), &probe), "venv/bin/ffmpeg");
    assert_eq!(which("ffmpeg", None, &probe), "./bin/ffmpeg");
    assert_eq!(which("yt-dlp", Some("venv/bin/"), &probe), "./bin/yt-dlp");
    assert_eq!(which("ffprobe", None, &probe), "ffprobe");
    assert_eq!(which_any(&["whisperkit-cli", "whisperkit"], None, &probe), "whisperkit");
    assert_eq!(which_any(&["mlx_audio", "python3"], None, &probe), "mlx_audio");
    assert!(is_available("./bin/yt-dlp", &probe));
    assert!(!is_available("ffprobe", &probe));
}

#[test]
fn detection_and_warnings() {
    let probe = ToolProbe { existing: strings(&["./bin/ffmpeg"]), on_path: strings(&["yt-dlp"]) };
    let bins = BinPaths::detect(&probe);
    assert_eq!(bins.ffmpeg, "./bin/ffmpeg");
    assert_eq!(bins.ytdlp, "yt-dlp");
    assert_eq!(bins.whisperkit, "whisperkit-cli");
    assert_eq!(
        bins.validate(&probe),
        vec!["⚠️  ffprobe not found — required for media analysis".to_string()]
    );
    let found = bins.detected(&probe);
    assert_eq!(
        found,
        vec![
            ("ffmpeg".to_string(), "./bin/ffmpeg".to_string()),
            ("yt-dlp".to_string(), "yt-dlp".to_string())
        ]
    );
}

#[test]
fn probe_targets_list_every_place() {
    let t = probe_targets(Some("v"));
    assert_eq!(t.len(), 36);
    assert_eq!(&t[0..3], &strings(&["v/ffmpeg", "./bin/ffmpeg", "ffmpeg"])[..]);
    let u = probe_targets(None);
    assert_eq!(u.len(), 24);
    assert_eq!(u[23], "python3");
}

#[test]
fn openai_client_settings() {
    let c = OpenAiClient::new("https://x.example/v1//", "key", "m", Some(""));
    assert_eq!(c.base_url, "https://x.example/v1");
    assert!(c.proxy.is_none());
    let d = OpenAiClient::new("", "key", "m", Some("http://proxy:1"));
    assert_eq!(d.base_url, "https://api.openai.com/v1");
    assert_eq!(d.proxy.as_deref(), Some("http://proxy:1"));
}

#[test]
fn service_follows_configuration() {
    let mut c = Config::default();
    c.transcribe.provider = TranscribeProvider::Openai;
    c.tts.provider = TtsProvider::Openai;
    c.llm.api_key = "llm-key".to_string();
    c.app.proxy = "http://p".to_string();
    let bins = BinPaths { edge_tts: "/e/edge-tts".to_string(), ..BinPaths::default() };
    let s = Service::from_config_with_bins(&c, &bins);
    match &s.transcriber {
        Transcriber::OpenAi(o) => {
            assert_eq!(o.api_key, "llm-key");
            assert_eq!(o.model, "whisper-1");
            assert_eq!(o.proxy.as_deref(), Some("http://p"));
        }
        _ => panic!("expected OpenAI transcription"),
    }
    assert_eq!(s.chat_completer.model, "gpt-4o-mini");
    c.tts.provider = TtsProvider::EdgeTts;
    c.transcribe.provider = TranscribeProvider::Whispercpp;
    c.transcribe.whispercpp.model = "base".to_string();
    let s = Service::from_config_with_bins(&c, &bins);
    assert!(matches!(&s.tts_client, Ttser::EdgeTts(e) if e.bin_path == "/e/edge-tts"));
    assert!(matches!(&s.transcriber, Transcriber::WhisperCpp(w) if w.model == "base"));
}

#[test]
fn task_lifecycle() {
    let mut t = SubtitleTask::new("id".into(), "src".into(), "en".into(), "ru".into());
    assert_eq!(t.status, TaskStatus::Processing);
    assert_eq!(t.process_pct, 0);
    t.set_progress(150);
    assert_eq!(t.process_pct, 100);
    t.set_progress(42);
    assert_eq!(t.process_pct, 42);
    t.set_failed("boom".into());
    assert_eq!(t.status, TaskStatus::Failed);
    assert_eq!(t.fail_reason, "boom");
    t.set_success();
    assert_eq!(t.status, TaskStatus::Success);
    assert_eq!(t.process_pct, 100);
}

#[test]
fn default_configuration_is_local() {
    let c = Config::default();
    assert_eq!(c.transcribe.provider, TranscribeProvider::Fasterwhisper);
    assert_eq!(c.tts.provider, TtsProvider::EdgeTts);
    assert_eq!(c.transcribe.fasterwhisper.model, "large-v2");
    assert_eq!(c.transcribe.mlx_whisper.model, "mlx-community/whisper-large-v3-mlx");
    assert_eq!(c.tts.mlx_audio.model, "mlx-community/Kokoro-82M-bf16");
    assert_eq!(c.app.tts_parallel_num, 3);
    assert_eq!(c.app.default_target_language, "ru");
    assert!(c.transcribe.aliyun.oss.bucket.is_empty() && c.tts.aliyun.speech.app_key.is_empty());
    assert_eq!(c.validate(false), Ok(()));
}

#[test]
fn mlx_providers_run_locally() {
    let mut c = Config::default();
    c.transcribe.provider = TranscribeProvider::MlxWhisper;
    c.tts.provider = TtsProvider::MlxAudio;
    c.transcribe.mlx_whisper.model = "whisper-small".to_string();
    c.tts.mlx_audio.voice = "bf_emma".to_string();
    let s = Service::from_config_with_bins(&c, &BinPaths::default());
    assert!(matches!(&s.transcriber, Transcriber::MlxWhisper(p) if p.model == "whisper-small"));
    assert!(matches!(
        &s.tts_client,
        Ttser::MlxAudio(m) if m.model == "mlx-community/Kokoro-82M-bf16" && m.default_voice == "bf_emma"
    ));
}
