//! Which engines serve a configuration: the transcriber, the chat model and
//! the speech engine.
use vstd::prelude::*;
use crate::config::{Config, TranscribeProvider, TtsProvider};
use crate::providers::{EdgeTtsClient, FasterWhisperProcessor, MlxAudioClient, MlxWhisperProcessor,
    WhisperCppProcessor, WhisperKitProcessor};
use crate::storage::{located, BinPaths, ToolProbe};
use crate::strings::{chars_of, owned, string_from_chars};

verus! {

/// The address OpenAI's own API answers on.
pub const OPENAI_DEFAULT_BASE_URL: &'static str = "https://api.openai.com/v1";

/// An OpenAI-compatible endpoint: where it is, the key, the model, and the
/// proxy its requests go through.
#[derive(Debug, Clone)]
pub struct OpenAiClient {
    pub base_url: String,
    pub api_key: String,
    pub model: String,
    pub proxy: Option<String>,
}

/// `s` without its trailing `/` characters (`trim_end_matches('/')`).
pub open spec fn without_trailing_slashes(s: Seq<char>) -> Seq<char>
    decreases s.len(),
{
    if s.len() > 0 && s.last() == '/' {
        without_trailing_slashes(s.drop_last())
    } else {
        s
    }
}

/// The base address used for `base_url`: OpenAI's own when none is given,
/// else the given one without trailing `/`.
pub open spec fn base_url_for(base_url: Seq<char>) -> Seq<char> {
    if base_url.len() == 0 {
        OPENAI_DEFAULT_BASE_URL@
    } else {
        without_trailing_slashes(base_url)
    }
}

fn trim_trailing_slashes(s: &str) -> (r: String)
    ensures
        r@ == without_trailing_slashes(s@),
{
    let v = chars_of(s);
    let mut n: usize = v.len();
    assert(v@.take(n as int) =~= v@);
    while n > 0 && v[n - 1] == '/'
        invariant
            n <= v@.len(),
            v@ == s@,
            without_trailing_slashes(v@.take(n as int)) == without_trailing_slashes(s@),
        decreases n,
    {
        assert(v@.take(n as int).drop_last() =~= v@.take(n - 1));
        n = n - 1;
    }
    let t = crate::ass::slice_vec(&v, 0, n);
    assert(t@ =~= v@.take(n as int));
    string_from_chars(t.as_slice())
}

impl OpenAiClient {
    /// The settings for an endpoint; an empty proxy means none.
    pub fn new(base_url: &str, api_key: &str, model: &str, proxy: Option<&str>) -> (r: Self)
        ensures
            r.base_url@ == base_url_for(base_url@),
            r.api_key@ == api_key@,
            r.model@ == model@,
            match proxy {
                Some(p) if p@.len() > 0 => r.proxy matches Some(q) && q@ == p@,
                _ => r.proxy is None,
            },
    {
        let base = if base_url.is_empty() {
            owned(OPENAI_DEFAULT_BASE_URL)
        } else {
            trim_trailing_slashes(base_url)
        };
        let proxy = match proxy {
            Some(p) => if p.is_empty() {
                None
            } else {
                Some(owned(p))
            },
            None => None,
        };
        OpenAiClient { base_url: base, api_key: owned(api_key), model: owned(model), proxy }
    }
}

/// The engine that turns speech into text.
#[derive(Debug, Clone)]
pub enum Transcriber {
    FasterWhisper(FasterWhisperProcessor),
    WhisperCpp(WhisperCppProcessor),
    WhisperKit(WhisperKitProcessor),
    MlxWhisper(MlxWhisperProcessor),
    OpenAi(OpenAiClient),
}

/// The engine that turns text into speech.
#[derive(Debug, Clone)]
pub enum Ttser {
    EdgeTts(EdgeTtsClient),
    MlxAudio(MlxAudioClient),
    OpenAi(OpenAiClient),
}

/// The engines a configuration asks for.
#[derive(Debug, Clone)]
pub struct Service {
    pub transcriber: Transcriber,
    pub chat_completer: OpenAiClient,
    pub tts_client: Ttser,
}

/// The key of a speech endpoint: its own, or the chat model's when it has
/// none.
pub open spec fn key_or_llm(own: Seq<char>, llm: Seq<char>) -> Seq<char> {
    if own.len() == 0 {
        llm
    } else {
        own
    }
}

/// The proxy of a configuration: none when the setting is empty.
pub open spec fn proxy_of(config: Config) -> Option<Seq<char>> {
    if config.app.proxy@.len() == 0 {
        None
    } else {
        Some(config.app.proxy@)
    }
}

/// `c` is the endpoint made from these settings and the configuration's
/// proxy.
pub open spec fn endpoint_is(
    c: OpenAiClient,
    base_url: Seq<char>,
    api_key: Seq<char>,
    model: Seq<char>,
    proxy: Option<Seq<char>>,
) -> bool {
    &&& c.base_url@ == base_url_for(base_url)
    &&& c.api_key@ == api_key
    &&& c.model@ == model
    &&& match proxy {
        Some(p) => c.proxy matches Some(q) && q@ == p,
        None => c.proxy is None,
    }
}

fn key_choice<'a>(own: &'a String, llm: &'a String) -> (r: &'a String)
    ensures
        r@ == key_or_llm(own@, llm@),
{
    if own.as_str().is_empty() {
        llm
    } else {
        own
    }
}

/// `s` is what `config` asks for, with local programs taken from `bins`.
pub open spec fn serves(s: Service, config: Config, bins: BinPaths) -> bool {
    &&& match config.transcribe.provider {
        TranscribeProvider::Fasterwhisper => s.transcriber matches Transcriber::FasterWhisper(p)
            && p.bin_path@ == bins.fasterwhisper@ && p.model@
            == config.transcribe.fasterwhisper.model@ && p.gpu
            == config.transcribe.enable_gpu_acceleration,
        TranscribeProvider::Whispercpp => s.transcriber matches Transcriber::WhisperCpp(p)
            && p.bin_path@ == bins.whispercpp@ && p.model@ == config.transcribe.whispercpp.model@,
        TranscribeProvider::Whisperkit => s.transcriber matches Transcriber::WhisperKit(p)
            && p.bin_path@ == bins.whisperkit@ && p.model@ == config.transcribe.whisperkit.model@,
        TranscribeProvider::MlxWhisper => s.transcriber matches Transcriber::MlxWhisper(p) && p.model@
            == config.transcribe.mlx_whisper.model@,
        _ => s.transcriber matches Transcriber::OpenAi(c) && endpoint_is(
            c,
            config.transcribe.openai.base_url@,
            key_or_llm(config.transcribe.openai.api_key@, config.llm.api_key@),
            config.transcribe.openai.model@,
            proxy_of(config),
        ),
    }
    &&& endpoint_is(
        s.chat_completer,
        config.llm.base_url@,
        config.llm.api_key@,
        config.llm.model@,
        proxy_of(config),
    )
    &&& match config.tts.provider {
        TtsProvider::EdgeTts => s.tts_client matches Ttser::EdgeTts(e) && e.bin_path@
            == bins.edge_tts@,
        TtsProvider::MlxAudio => s.tts_client matches Ttser::MlxAudio(m) && m.model@
            == config.tts.mlx_audio.model@ && m.default_voice@ == config.tts.mlx_audio.voice@,
        _ => s.tts_client matches Ttser::OpenAi(c) && endpoint_is(
            c,
            config.tts.openai.base_url@,
            key_or_llm(config.tts.openai.api_key@, config.llm.api_key@),
            config.tts.openai.model@,
            proxy_of(config),
        ),
    }
}

impl Service {
    /// The engines for `config`, with the local programs located without a
    /// virtual environment (see [`BinPaths::detect`]).
    pub fn from_config(config: &Config, probe: &ToolProbe) -> (r: Self)
        ensures
            exists|bins: BinPaths| located(bins, None, *probe) && serves(r, *config, bins),
    {
        let bins = BinPaths::detect(probe);
        Self::from_config_with_bins(config, &bins)
    }

    /// The engines for `config`, with local programs taken from `bins`:
    /// Whisper through faster-whisper, whisper.cpp, WhisperKit or MLX Whisper
    /// when asked for, else OpenAI; chat always through the configured
    /// OpenAI-compatible endpoint; speech through edge-tts or MLX Audio when
    /// asked for, else OpenAI. A speech endpoint without its own key uses the
    /// chat model's.
    pub fn from_config_with_bins(config: &Config, bins: &BinPaths) -> (r: Self)
        ensures
            serves(r, *config, *bins),
    {
        let proxy: Option<&str> = if config.app.proxy.as_str().is_empty() {
            None
        } else {
            Some(config.app.proxy.as_str())
        };
        let transcriber = match config.transcribe.provider {
            TranscribeProvider::Fasterwhisper => Transcriber::FasterWhisper(
                FasterWhisperProcessor::new(
                    bins.fasterwhisper.as_str(),
                    config.transcribe.fasterwhisper.model.as_str(),
                    config.transcribe.enable_gpu_acceleration,
                ),
            ),
            TranscribeProvider::Whispercpp => Transcriber::WhisperCpp(
                WhisperCppProcessor::new(
                    bins.whispercpp.as_str(),
                    config.transcribe.whispercpp.model.as_str(),
                ),
            ),
            TranscribeProvider::Whisperkit => Transcriber::WhisperKit(
                WhisperKitProcessor::new(
                    bins.whisperkit.as_str(),
                    config.transcribe.whisperkit.model.as_str(),
                ),
            ),
            TranscribeProvider::MlxWhisper => Transcriber::MlxWhisper(
                MlxWhisperProcessor::new(config.transcribe.mlx_whisper.model.as_str()),
            ),
            _ => Transcriber::OpenAi(
                OpenAiClient::new(
                    config.transcribe.openai.base_url.as_str(),
                    key_choice(&config.transcribe.openai.api_key, &config.llm.api_key).as_str(),
                    config.transcribe.openai.model.as_str(),
                    proxy,
                ),
            ),
        };
        let chat_completer = OpenAiClient::new(
            config.llm.base_url.as_str(),
            config.llm.api_key.as_str(),
            config.llm.model.as_str(),
            proxy,
        );
        let tts_client = match config.tts.provider {
            TtsProvider::EdgeTts => Ttser::EdgeTts(EdgeTtsClient::new(bins.edge_tts.as_str())),
            TtsProvider::MlxAudio => Ttser::MlxAudio(
                MlxAudioClient::new(
                    config.tts.mlx_audio.model.as_str(),
                    config.tts.mlx_audio.voice.as_str(),
                ),
            ),
            _ => Ttser::OpenAi(
                OpenAiClient::new(
                    config.tts.openai.base_url.as_str(),
                    key_choice(&config.tts.openai.api_key, &config.llm.api_key).as_str(),
                    config.tts.openai.model.as_str(),
                    proxy,
                ),
            ),
        };
        Service { transcriber, chat_completer, tts_client }
    }
}

} // verus!
