//! Application configuration: providers, defaults and validation.
use vstd::prelude::*;
use crate::strings::owned;

verus! {

/// Speech recognition back ends.
#[derive(Debug, Clone, Copy, PartialEq, Eq, Structural)]
pub enum TranscribeProvider {
    Openai,
    Fasterwhisper,
    Whisperkit,
    Whispercpp,
    Aliyun,
    MlxWhisper,
}

/// Text-to-speech back ends.
#[derive(Debug, Clone, Copy, PartialEq, Eq, Structural)]
pub enum TtsProvider {
    Openai,
    Aliyun,
    EdgeTts,
    MlxAudio,
}

impl Default for TranscribeProvider {
    fn default() -> (r: Self)
        ensures
            r == TranscribeProvider::Fasterwhisper,
    {
        TranscribeProvider::Fasterwhisper
    }
}

impl Default for TtsProvider {
    fn default() -> (r: Self)
        ensures
            r == TtsProvider::EdgeTts,
    {
        TtsProvider::EdgeTts
    }
}

/// The configuration name of a speech recognition provider.
pub open spec fn transcribe_name(p: TranscribeProvider) -> Seq<char> {
    match p {
        TranscribeProvider::Openai => "openai"@,
        TranscribeProvider::Fasterwhisper => "fasterwhisper"@,
        TranscribeProvider::Whisperkit => "whisperkit"@,
        TranscribeProvider::Whispercpp => "whispercpp"@,
        TranscribeProvider::Aliyun => "aliyun"@,
        TranscribeProvider::MlxWhisper => "mlx-whisper"@,
    }
}

/// The configuration name of a text-to-speech provider.
pub open spec fn tts_name(p: TtsProvider) -> Seq<char> {
    match p {
        TtsProvider::Openai => "openai"@,
        TtsProvider::Aliyun => "aliyun"@,
        TtsProvider::EdgeTts => "edge-tts"@,
        TtsProvider::MlxAudio => "mlx-audio"@,
    }
}

impl TranscribeProvider {
    /// The provider's name as written in the configuration file.
    pub fn as_str(&self) -> (r: &'static str)
        ensures
            r@ == transcribe_name(*self),
    {
        match self {
            TranscribeProvider::Openai => "openai",
            TranscribeProvider::Fasterwhisper => "fasterwhisper",
            TranscribeProvider::Whisperkit => "whisperkit",
            TranscribeProvider::Whispercpp => "whispercpp",
            TranscribeProvider::Aliyun => "aliyun",
            TranscribeProvider::MlxWhisper => "mlx-whisper",
        }
    }
}

impl TtsProvider {
    /// The provider's name as written in the configuration file.
    pub fn as_str(&self) -> (r: &'static str)
        ensures
            r@ == tts_name(*self),
    {
        match self {
            TtsProvider::Openai => "openai",
            TtsProvider::Aliyun => "aliyun",
            TtsProvider::EdgeTts => "edge-tts",
            TtsProvider::MlxAudio => "mlx-audio",
        }
    }
}

/// Distinct providers have distinct names, so a name read back from the
/// configuration file designates one provider.
pub proof fn provider_names_distinct(a: TranscribeProvider, b: TranscribeProvider, c: TtsProvider,
    d: TtsProvider)
    ensures
        transcribe_name(a) == transcribe_name(b) ==> a == b,
        tts_name(c) == tts_name(d) ==> c == d,
{
    reveal_strlit("openai");
    reveal_strlit("fasterwhisper");
    reveal_strlit("whisperkit");
    reveal_strlit("whispercpp");
    reveal_strlit("aliyun");
    reveal_strlit("mlx-whisper");
    reveal_strlit("edge-tts");
    reveal_strlit("mlx-audio");
    if transcribe_name(a) == transcribe_name(b) && a != b {
        let x = transcribe_name(a);
        let y = transcribe_name(b);
        assert(x.len() != y.len() || exists|i: int| 0 <= i < x.len() && x[i] != y[i]) by {
            if x.len() == y.len() {
                assert(x[0] != y[0] || x[1] != y[1] || x[5] != y[5] || x[7] != y[7]);
            }
        }
    }
    if tts_name(c) == tts_name(d) && c != d {
        let x = tts_name(c);
        let y = tts_name(d);
        assert(x.len() != y.len() || x[0] != y[0] || x[4] != y[4]);
    }
}

/// General pipeline settings.
#[derive(Debug, Clone)]
pub struct AppConfig {
    pub segment_duration: u32,
    pub transcribe_parallel_num: u32,
    pub translate_parallel_num: u32,
    pub tts_parallel_num: u32,
    pub transcribe_max_attempts: u32,
    pub translate_max_attempts: u32,
    pub max_sentence_length: u32,
    pub proxy: String,
    /// When true, auto-detect source language and auto-select target (EN↔RU)
    pub auto_detect_language: bool,
    /// Default target language when auto-detect is off and no target specified
    pub default_target_language: String,
}

/// Where the HTTP server listens.
#[derive(Debug, Clone)]
pub struct ServerConfig {
    pub host: String,
    pub port: u16,
}

/// An OpenAI-compatible endpoint.
#[derive(Debug, Clone)]
pub struct OpenaiCompatibleConfig {
    pub base_url: String,
    pub api_key: String,
    pub model: String,
}

/// A local model name.
#[derive(Debug, Clone)]
pub struct LocalModelConfig {
    pub model: String,
}

/// Aliyun speech service credentials.
#[derive(Debug, Clone)]
pub struct AliyunSpeechConfig {
    pub access_key_id: String,
    pub access_key_secret: String,
    pub app_key: String,
}

/// Aliyun object storage credentials.
#[derive(Debug, Clone)]
pub struct AliyunOssConfig {
    pub access_key_id: String,
    pub access_key_secret: String,
    pub bucket: String,
}

/// Aliyun settings for speech recognition.
#[derive(Debug, Clone)]
pub struct AliyunTranscribeConfig {
    pub oss: AliyunOssConfig,
    pub speech: AliyunSpeechConfig,
}

/// Aliyun settings for speech synthesis.
#[derive(Debug, Clone)]
pub struct AliyunTtsConfig {
    pub oss: AliyunOssConfig,
    pub speech: AliyunSpeechConfig,
}

/// MLX Whisper settings.
#[derive(Debug, Clone)]
pub struct MlxWhisperConfig {
    pub model: String,
}

/// MLX Audio settings.
#[derive(Debug, Clone)]
pub struct MlxAudioConfig {
    pub model: String,
    pub voice: String,
}

/// Speech recognition settings.
#[derive(Debug, Clone)]
pub struct TranscribeConfig {
    pub provider: TranscribeProvider,
    pub enable_gpu_acceleration: bool,
    pub openai: OpenaiCompatibleConfig,
    pub fasterwhisper: LocalModelConfig,
    pub whisperkit: LocalModelConfig,
    pub whispercpp: LocalModelConfig,
    pub aliyun: AliyunTranscribeConfig,
    pub mlx_whisper: MlxWhisperConfig,
}

/// Text-to-speech settings.
#[derive(Debug, Clone)]
pub struct TtsConfig {
    pub provider: TtsProvider,
    pub openai: OpenaiCompatibleConfig,
    pub aliyun: AliyunTtsConfig,
    pub mlx_audio: MlxAudioConfig,
}

/// The whole configuration.
#[derive(Debug, Clone)]
pub struct Config {
    pub app: AppConfig,
    pub server: ServerConfig,
    pub llm: OpenaiCompatibleConfig,
    pub transcribe: TranscribeConfig,
    pub tts: TtsConfig,
}

pub fn default_segment_duration() -> (r: u32)
    ensures
        r == 5,
{
    5
}

pub fn default_transcribe_parallel() -> (r: u32)
    ensures
        r == 1,
{
    1
}

pub fn default_translate_parallel() -> (r: u32)
    ensures
        r == 3,
{
    3
}

pub fn default_tts_parallel() -> (r: u32)
    ensures
        r == 3,
{
    3
}

pub fn default_max_attempts() -> (r: u32)
    ensures
        r == 3,
{
    3
}

pub fn default_max_sentence_length() -> (r: u32)
    ensures
        r == 70,
{
    70
}

pub fn default_host() -> (r: String)
    ensures
        r@ == "127.0.0.1"@,
{
    owned("127.0.0.1")
}

pub fn default_port() -> (r: u16)
    ensures
        r == 8888,
{
    8888
}

pub fn default_true() -> (r: bool)
    ensures
        r,
{
    true
}

pub fn default_target_lang() -> (r: String)
    ensures
        r@ == "ru"@,
{
    owned("ru")
}

impl Default for OpenaiCompatibleConfig {
    fn default() -> (r: Self)
        ensures
            r.base_url@.len() == 0,
            r.api_key@.len() == 0,
            r.model@.len() == 0,
    {
        OpenaiCompatibleConfig { base_url: String::new(), api_key: String::new(), model: String::new() }
    }
}

pub fn default_openai_transcribe() -> (r: OpenaiCompatibleConfig)
    ensures
        r.base_url@.len() == 0,
        r.api_key@.len() == 0,
        r.model@ == "whisper-1"@,
{
    OpenaiCompatibleConfig { base_url: String::new(), api_key: String::new(), model: owned("whisper-1") }
}

pub fn default_local_model() -> (r: LocalModelConfig)
    ensures
        r.model@ == "large-v2"@,
{
    LocalModelConfig { model: owned("large-v2") }
}

pub fn default_openai_tts() -> (r: OpenaiCompatibleConfig)
    ensures
        r.base_url@.len() == 0,
        r.api_key@.len() == 0,
        r.model@ == "gpt-4o-mini-tts"@,
{
    OpenaiCompatibleConfig {
        base_url: String::new(),
        api_key: String::new(),
        model: owned("gpt-4o-mini-tts"),
    }
}

pub fn default_mlx_whisper_model() -> (r: String)
    ensures
        r@ == "mlx-community/whisper-large-v3-mlx"@,
{
    owned("mlx-community/whisper-large-v3-mlx")
}

pub fn default_mlx_audio_model() -> (r: String)
    ensures
        r@ == "mlx-community/Kokoro-82M-bf16"@,
{
    owned("mlx-community/Kokoro-82M-bf16")
}

pub fn default_mlx_audio_voice() -> (r: String)
    ensures
        r@ == "af_heart"@,
{
    owned("af_heart")
}

impl Default for LocalModelConfig {
    fn default() -> (r: Self)
        ensures
            r.model@.len() == 0,
    {
        LocalModelConfig { model: String::new() }
    }
}

impl Default for AliyunSpeechConfig {
    fn default() -> (r: Self)
        ensures
            r.access_key_id@.len() == 0,
            r.access_key_secret@.len() == 0,
            r.app_key@.len() == 0,
    {
        AliyunSpeechConfig {
            access_key_id: String::new(),
            access_key_secret: String::new(),
            app_key: String::new(),
        }
    }
}

impl Default for AliyunOssConfig {
    fn default() -> (r: Self)
        ensures
            r.access_key_id@.len() == 0,
            r.access_key_secret@.len() == 0,
            r.bucket@.len() == 0,
    {
        AliyunOssConfig {
            access_key_id: String::new(),
            access_key_secret: String::new(),
            bucket: String::new(),
        }
    }
}

impl Default for AliyunTranscribeConfig {
    fn default() -> (r: Self)
        ensures
            r.speech.access_key_id@.len() == 0,
            r.speech.access_key_secret@.len() == 0,
            r.speech.app_key@.len() == 0,
            r.oss.access_key_id@.len() == 0,
            r.oss.access_key_secret@.len() == 0,
            r.oss.bucket@.len() == 0,
    {
        AliyunTranscribeConfig { oss: AliyunOssConfig::default(), speech: AliyunSpeechConfig::default() }
    }
}

impl Default for AliyunTtsConfig {
    fn default() -> (r: Self)
        ensures
            r.speech.access_key_id@.len() == 0,
            r.speech.access_key_secret@.len() == 0,
            r.speech.app_key@.len() == 0,
            r.oss.access_key_id@.len() == 0,
            r.oss.access_key_secret@.len() == 0,
            r.oss.bucket@.len() == 0,
    {
        AliyunTtsConfig { oss: AliyunOssConfig::default(), speech: AliyunSpeechConfig::default() }
    }
}

impl Default for MlxWhisperConfig {
    fn default() -> (r: Self)
        ensures
            r.model@ == "mlx-community/whisper-large-v3-mlx"@,
    {
        MlxWhisperConfig { model: default_mlx_whisper_model() }
    }
}

impl Default for MlxAudioConfig {
    fn default() -> (r: Self)
        ensures
            r.model@ == "mlx-community/Kokoro-82M-bf16"@,
            r.voice@ == "af_heart"@,
    {
        MlxAudioConfig { model: default_mlx_audio_model(), voice: default_mlx_audio_voice() }
    }
}

/// An endpoint with no address and no key, naming `model`.
pub open spec fn bare_endpoint(c: OpenaiCompatibleConfig, model: Seq<char>) -> bool {
    c.base_url@.len() == 0 && c.api_key@.len() == 0 && c.model@ == model
}

/// Aliyun settings with every credential empty.
pub open spec fn no_aliyun_keys(speech: AliyunSpeechConfig, oss: AliyunOssConfig) -> bool {
    &&& speech.access_key_id@.len() == 0
    &&& speech.access_key_secret@.len() == 0
    &&& speech.app_key@.len() == 0
    &&& oss.access_key_id@.len() == 0
    &&& oss.access_key_secret@.len() == 0
    &&& oss.bucket@.len() == 0
}

/// The general settings of a fresh configuration.
pub open spec fn default_app_config(a: AppConfig) -> bool {
    &&& a.segment_duration == 5
    &&& a.transcribe_parallel_num == 1
    &&& a.translate_parallel_num == 3
    &&& a.tts_parallel_num == 3
    &&& a.transcribe_max_attempts == 3
    &&& a.translate_max_attempts == 3
    &&& a.max_sentence_length == 70
    &&& a.proxy@.len() == 0
    &&& a.auto_detect_language
    &&& a.default_target_language@ == "ru"@
}

/// The speech recognition settings of a fresh configuration: faster-whisper.
pub open spec fn default_transcribe_config(t: TranscribeConfig) -> bool {
    &&& t.provider == TranscribeProvider::Fasterwhisper
    &&& !t.enable_gpu_acceleration
    &&& bare_endpoint(t.openai, "whisper-1"@)
    &&& t.fasterwhisper.model@ == "large-v2"@
    &&& t.whisperkit.model@ == "large-v2"@
    &&& t.whispercpp.model@ == "large-v2"@
    &&& no_aliyun_keys(t.aliyun.speech, t.aliyun.oss)
    &&& t.mlx_whisper.model@ == "mlx-community/whisper-large-v3-mlx"@
}

/// The speech synthesis settings of a fresh configuration: Edge TTS.
pub open spec fn default_tts_config(t: TtsConfig) -> bool {
    &&& t.provider == TtsProvider::EdgeTts
    &&& bare_endpoint(t.openai, "gpt-4o-mini-tts"@)
    &&& no_aliyun_keys(t.aliyun.speech, t.aliyun.oss)
    &&& t.mlx_audio.model@ == "mlx-community/Kokoro-82M-bf16"@
    &&& t.mlx_audio.voice@ == "af_heart"@
}

/// A fresh configuration, field by field.
pub open spec fn default_config(c: Config) -> bool {
    &&& default_app_config(c.app)
    &&& c.server.host@ == "127.0.0.1"@
    &&& c.server.port == 8888
    &&& bare_endpoint(c.llm, "gpt-4o-mini"@)
    &&& default_transcribe_config(c.transcribe)
    &&& default_tts_config(c.tts)
}

impl Default for AppConfig {
    fn default() -> (r: Self)
        ensures
            default_app_config(r),
    {
        AppConfig {
            segment_duration: default_segment_duration(),
            transcribe_parallel_num: default_transcribe_parallel(),
            translate_parallel_num: default_translate_parallel(),
            tts_parallel_num: default_tts_parallel(),
            transcribe_max_attempts: default_max_attempts(),
            translate_max_attempts: default_max_attempts(),
            max_sentence_length: default_max_sentence_length(),
            proxy: String::new(),
            auto_detect_language: true,
            default_target_language: default_target_lang(),
        }
    }
}

impl Default for ServerConfig {
    fn default() -> (r: Self)
        ensures
            r.host@ == "127.0.0.1"@,
            r.port == 8888,
    {
        ServerConfig { host: default_host(), port: default_port() }
    }
}

impl Default for TranscribeConfig {
    fn default() -> (r: Self)
        ensures
            r.provider == TranscribeProvider::Fasterwhisper,
            default_transcribe_config(r),
    {
        TranscribeConfig {
            provider: TranscribeProvider::default(),
            enable_gpu_acceleration: false,
            openai: default_openai_transcribe(),
            fasterwhisper: default_local_model(),
            whisperkit: default_local_model(),
            whispercpp: default_local_model(),
            aliyun: AliyunTranscribeConfig::default(),
            mlx_whisper: MlxWhisperConfig::default(),
        }
    }
}

impl Default for TtsConfig {
    fn default() -> (r: Self)
        ensures
            r.provider == TtsProvider::EdgeTts,
            default_tts_config(r),
    {
        TtsConfig {
            provider: TtsProvider::default(),
            openai: default_openai_tts(),
            aliyun: AliyunTtsConfig::default(),
            mlx_audio: MlxAudioConfig::default(),
        }
    }
}

impl Default for Config {
    fn default() -> (r: Self)
        ensures
            r.transcribe.provider == TranscribeProvider::Fasterwhisper,
            r.tts.provider == TtsProvider::EdgeTts,
            default_config(r),
    {
        Config {
            app: AppConfig::default(),
            server: ServerConfig::default(),
            llm: OpenaiCompatibleConfig {
                base_url: String::new(),
                api_key: String::new(),
                model: owned("gpt-4o-mini"),
            },
            transcribe: TranscribeConfig::default(),
            tts: TtsConfig::default(),
        }
    }
}

/// Why a configuration cannot be used.
#[derive(Debug, Clone, Copy, PartialEq, Eq, Structural)]
pub enum ConfigError {
    OpenaiTranscriptionNeedsKey,
    WhisperkitNeedsMacos,
    AliyunTranscriptionNeedsKeys,
    MlxWhisperNeedsMacos,
    OpenaiTtsNeedsKey,
    MlxAudioNeedsMacos,
}

impl ConfigError {
    /// The error's message.
    pub fn message(&self) -> (r: &'static str)
        ensures
            r@ == config_error_text(*self),
    {
        match self {
            ConfigError::OpenaiTranscriptionNeedsKey => "OpenAI transcription requires an API key",
            ConfigError::WhisperkitNeedsMacos => "WhisperKit is only supported on macOS",
            ConfigError::AliyunTranscriptionNeedsKeys =>
                "Aliyun transcription requires access_key_id, access_key_secret, and app_key",
            ConfigError::MlxWhisperNeedsMacos => "MLX Whisper is only supported on macOS (Apple Silicon)",
            ConfigError::OpenaiTtsNeedsKey => "OpenAI TTS requires an API key",
            ConfigError::MlxAudioNeedsMacos => "MLX Audio is only supported on macOS (Apple Silicon)",
        }
    }
}

pub open spec fn config_error_text(e: ConfigError) -> Seq<char> {
    match e {
        ConfigError::OpenaiTranscriptionNeedsKey => "OpenAI transcription requires an API key"@,
        ConfigError::WhisperkitNeedsMacos => "WhisperKit is only supported on macOS"@,
        ConfigError::AliyunTranscriptionNeedsKeys =>
            "Aliyun transcription requires access_key_id, access_key_secret, and app_key"@,
        ConfigError::MlxWhisperNeedsMacos => "MLX Whisper is only supported on macOS (Apple Silicon)"@,
        ConfigError::OpenaiTtsNeedsKey => "OpenAI TTS requires an API key"@,
        ConfigError::MlxAudioNeedsMacos => "MLX Audio is only supported on macOS (Apple Silicon)"@,
    }
}

/// The first problem of `c` on a machine that is (or is not) a Mac: the
/// speech recognition settings are checked before the speech synthesis ones.
pub open spec fn config_problem(c: Config, on_macos: bool) -> Option<ConfigError> {
    let t = match c.transcribe.provider {
        TranscribeProvider::Openai => if c.transcribe.openai.api_key@.len() == 0
            && c.llm.api_key@.len() == 0 {
            Some(ConfigError::OpenaiTranscriptionNeedsKey)
        } else {
            None
        },
        TranscribeProvider::Whisperkit => if on_macos {
            None
        } else {
            Some(ConfigError::WhisperkitNeedsMacos)
        },
        TranscribeProvider::Aliyun => if c.transcribe.aliyun.speech.access_key_id@.len() == 0
            || c.transcribe.aliyun.speech.access_key_secret@.len() == 0
            || c.transcribe.aliyun.speech.app_key@.len() == 0 {
            Some(ConfigError::AliyunTranscriptionNeedsKeys)
        } else {
            None
        },
        TranscribeProvider::MlxWhisper => if on_macos {
            None
        } else {
            Some(ConfigError::MlxWhisperNeedsMacos)
        },
        _ => None,
    };
    if t is Some {
        t
    } else {
        match c.tts.provider {
            TtsProvider::Openai => if c.tts.openai.api_key@.len() == 0 && c.llm.api_key@.len()
                == 0 {
                Some(ConfigError::OpenaiTtsNeedsKey)
            } else {
                None
            },
            TtsProvider::MlxAudio => if on_macos {
                None
            } else {
                Some(ConfigError::MlxAudioNeedsMacos)
            },
            _ => None,
        }
    }
}

/// The Apple-only back ends are refused on other machines and only there:
/// off macOS, WhisperKit and MLX Whisper transcription are refused with
/// their own errors, and MLX Audio speech is refused (with its own error
/// when the transcription settings are usable); on macOS none of these
/// errors is given; and a configuration that passes elsewhere passes on
/// macOS too. Local providers that need no key (faster-whisper, whisper.cpp
/// with Edge TTS) are accepted anywhere.
pub proof fn apple_only_backends(c: Config)
    ensures
        c.transcribe.provider == TranscribeProvider::Whisperkit ==> config_problem(c, false) == Some(
            ConfigError::WhisperkitNeedsMacos,
        ),
        c.transcribe.provider == TranscribeProvider::MlxWhisper ==> config_problem(c, false) == Some(
            ConfigError::MlxWhisperNeedsMacos,
        ),
        c.tts.provider == TtsProvider::MlxAudio ==> config_problem(c, false) is Some,
        c.tts.provider == TtsProvider::MlxAudio && (c.transcribe.provider
            == TranscribeProvider::Fasterwhisper || c.transcribe.provider
            == TranscribeProvider::Whispercpp) ==> config_problem(c, false) == Some(
            ConfigError::MlxAudioNeedsMacos,
        ),
        config_problem(c, true) != Some(ConfigError::WhisperkitNeedsMacos),
        config_problem(c, true) != Some(ConfigError::MlxWhisperNeedsMacos),
        config_problem(c, true) != Some(ConfigError::MlxAudioNeedsMacos),
        config_problem(c, false) is None ==> config_problem(c, true) is None,
        (c.transcribe.provider == TranscribeProvider::Fasterwhisper || c.transcribe.provider
            == TranscribeProvider::Whispercpp) && c.tts.provider == TtsProvider::EdgeTts ==> config_problem(
            c,
            false,
        ) is None,
{
}

fn is_blank(s: &String) -> (r: bool)
    ensures
        r == (s@.len() == 0),
{
    s.as_str().is_empty()
}

impl Config {
    /// Check that the configured providers can run: the keys they need are
    /// present and the Apple-only back ends are used on a Mac (`on_macos`).
    pub fn validate(&self, on_macos: bool) -> (r: Result<(), ConfigError>)
        ensures
            r == (match config_problem(*self, on_macos) {
                None => Ok(()),
                Some(e) => Err(e),
            }),
    {
        match self.transcribe.provider {
            TranscribeProvider::Openai => {
                if is_blank(&self.transcribe.openai.api_key) && is_blank(&self.llm.api_key) {
                    return Err(ConfigError::OpenaiTranscriptionNeedsKey);
                }
            },
            TranscribeProvider::Fasterwhisper => {},
            TranscribeProvider::Whisperkit => {
                if !on_macos {
                    return Err(ConfigError::WhisperkitNeedsMacos);
                }
            },
            TranscribeProvider::Whispercpp => {},
            TranscribeProvider::Aliyun => {
                let speech = &self.transcribe.aliyun.speech;
                if is_blank(&speech.access_key_id) || is_blank(&speech.access_key_secret) || is_blank(
                    &speech.app_key,
                ) {
                    return Err(ConfigError::AliyunTranscriptionNeedsKeys);
                }
            },
            TranscribeProvider::MlxWhisper => {
                if !on_macos {
                    return Err(ConfigError::MlxWhisperNeedsMacos);
                }
            },
        }
        match self.tts.provider {
            TtsProvider::Openai => {
                if is_blank(&self.tts.openai.api_key) && is_blank(&self.llm.api_key) {
                    return Err(ConfigError::OpenaiTtsNeedsKey);
                }
            },
            TtsProvider::Aliyun => {},
            TtsProvider::EdgeTts => {},
            TtsProvider::MlxAudio => {
                if !on_macos {
                    return Err(ConfigError::MlxAudioNeedsMacos);
                }
            },
        }
        Ok(())
    }
}

} // verus!
