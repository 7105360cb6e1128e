//! The speech engines run as local programs: their settings, the command
//! lines that run them and how their word lists become a transcript.
use vstd::prelude::*;
use crate::link::{push_arg, views};
use crate::strings::{cat, cat3, owned, replace_str, replaced, trim, trim_str};

verus! {

/// Whisper through the `faster-whisper` command.
#[derive(Debug, Clone)]
pub struct FasterWhisperProcessor {
    pub bin_path: String,
    pub model: String,
    pub gpu: bool,
}

/// Whisper through the `whisper.cpp` command.
#[derive(Debug, Clone)]
pub struct WhisperCppProcessor {
    pub bin_path: String,
    pub model: String,
}

/// Whisper through the `whisperkit-cli` command.
#[derive(Debug, Clone)]
pub struct WhisperKitProcessor {
    pub bin_path: String,
    pub model: String,
}

/// Whisper on Apple silicon through `mlx_whisper`.
#[derive(Debug, Clone)]
pub struct MlxWhisperProcessor {
    pub model: String,
}

/// Speech through the `edge-tts` command.
#[derive(Debug, Clone)]
pub struct EdgeTtsClient {
    pub bin_path: String,
}

/// Speech on Apple silicon through `mlx_audio` (Kokoro).
#[derive(Debug, Clone)]
pub struct MlxAudioClient {
    pub model: String,
    pub default_voice: String,
}

impl FasterWhisperProcessor {
    pub fn new(bin_path: &str, model: &str, gpu: bool) -> (r: Self)
        ensures
            r.bin_path@ == bin_path@,
            r.model@ == model@,
            r.gpu == gpu,
    {
        FasterWhisperProcessor { bin_path: owned(bin_path), model: owned(model), gpu }
    }

    /// The arguments of one run on `audio_file`, writing JSON into
    /// `work_dir`.
    pub fn args(&self, audio_file: &str, language: &str, work_dir: &str) -> (r: Vec<String>)
        ensures
            views(r@) == seq!["--model_dir"@, "./models/"@, "--model"@, self.model@,
                "--one_word"@, "2"@, "--output_format"@, "json"@, "--output_dir"@, work_dir@]
                + language_args(language@) + (if self.gpu {
                seq!["--compute_type"@, "float16"@]
            } else {
                seq![]
            }) + seq![audio_file@],
    {
        let mut r: Vec<String> = Vec::new();
        push_arg(&mut r, "--model_dir");
        push_arg(&mut r, "./models/");
        push_arg(&mut r, "--model");
        push_arg(&mut r, self.model.as_str());
        push_arg(&mut r, "--one_word");
        push_arg(&mut r, "2");
        push_arg(&mut r, "--output_format");
        push_arg(&mut r, "json");
        push_arg(&mut r, "--output_dir");
        push_arg(&mut r, work_dir);
        let ghost head = views(r@);
        push_language(&mut r, language);
        let ghost mid = views(r@);
        if self.gpu {
            push_arg(&mut r, "--compute_type");
            push_arg(&mut r, "float16");
        }
        let ghost tail = views(r@);
        push_arg(&mut r, audio_file);
        assert(views(r@) =~= seq!["--model_dir"@, "./models/"@, "--model"@, self.model@,
            "--one_word"@, "2"@, "--output_format"@, "json"@, "--output_dir"@, work_dir@]
            + language_args(language@) + (if self.gpu {
            seq!["--compute_type"@, "float16"@]
        } else {
            seq![]
        }) + seq![audio_file@]);
        r
    }
}

/// `--language <language>` when a language is given.
pub open spec fn language_args(language: Seq<char>) -> Seq<Seq<char>> {
    if language.len() > 0 {
        seq!["--language"@, language]
    } else {
        seq![]
    }
}

fn push_language(r: &mut Vec<String>, language: &str)
    ensures
        views(final(r)@) == views(old(r)@) + language_args(language@),
{
    if !language.is_empty() {
        push_arg(r, "--language");
        push_arg(r, language);
    }
    assert(views(r@) =~= views(old(r)@) + language_args(language@));
}

/// The JSON file that a run on an audio file with stem `stem` leaves in
/// `work_dir`.
pub fn json_output_path(work_dir: &str, stem: &str) -> (r: String)
    ensures
        r@ == work_dir@ + "/"@ + stem@ + ".json"@,
{
    let mut r = cat3(work_dir, "/", stem);
    r.append(".json");
    r
}


/// `Path::join`: `name` itself when it is absolute, else `dir` and `name`
/// with one `/` between them (none after an empty `dir`).
pub open spec fn path_join(dir: Seq<char>, name: Seq<char>) -> Seq<char> {
    if name.len() > 0 && name[0] == '/' {
        name
    } else if dir.len() == 0 || dir.last() == '/' {
        dir + name
    } else {
        dir + "/"@ + name
    }
}

/// `dir` joined with `name` as `Path::join` does.
pub fn join_path(dir: &str, name: &str) -> (r: String)
    ensures
        r@ == path_join(dir@, name@),
{
    let n = crate::strings::chars_of(name);
    let d = crate::strings::chars_of(dir);
    if n.len() > 0 && n[0] == '/' {
        owned(name)
    } else if d.len() == 0 || d[d.len() - 1] == '/' {
        cat(dir, name)
    } else {
        cat3(dir, "/", name)
    }
}

impl WhisperCppProcessor {
    pub fn new(bin_path: &str, model: &str) -> (r: Self)
        ensures
            r.bin_path@ == bin_path@,
            r.model@ == model@,
    {
        WhisperCppProcessor { bin_path: owned(bin_path), model: owned(model) }
    }

    /// The model file: `./models/whispercpp/ggml-<model>.bin`.
    pub fn model_path(&self) -> (r: String)
        ensures
            r@ == "./models/whispercpp/ggml-"@ + self.model@ + ".bin"@,
    {
        let mut r = cat("./models/whispercpp/ggml-", self.model.as_str());
        r.append(".bin");
        r
    }

    /// The arguments of one run on `audio_file`; the output goes to
    /// `output_path` (with `.json` added by the program).
    pub fn args(&self, audio_file: &str, language: &str, output_path: &str) -> (r: Vec<String>)
        ensures
            views(r@) == seq!["-m"@, "./models/whispercpp/ggml-"@ + self.model@ + ".bin"@,
                "--output-json-full"@, "--flash-attn"@, "--split-on-word"@, "--output-file"@,
                output_path@, "--file"@, audio_file@] + language_args(language@),
    {
        let mut r: Vec<String> = Vec::new();
        push_arg(&mut r, "-m");
        let m = self.model_path();
        push_arg(&mut r, m.as_str());
        push_arg(&mut r, "--output-json-full");
        push_arg(&mut r, "--flash-attn");
        push_arg(&mut r, "--split-on-word");
        push_arg(&mut r, "--output-file");
        push_arg(&mut r, output_path);
        push_arg(&mut r, "--file");
        push_arg(&mut r, audio_file);
        push_language(&mut r, language);
        assert(views(r@) =~= seq!["-m"@, "./models/whispercpp/ggml-"@ + self.model@ + ".bin"@,
            "--output-json-full"@, "--flash-attn"@, "--split-on-word"@, "--output-file"@,
            output_path@, "--file"@, audio_file@] + language_args(language@));
        r
    }
}

impl WhisperKitProcessor {
    pub fn new(bin_path: &str, model: &str) -> (r: Self)
        ensures
            r.bin_path@ == bin_path@,
            r.model@ == model@,
    {
        WhisperKitProcessor { bin_path: owned(bin_path), model: owned(model) }
    }

    /// The arguments of one run on `audio_file`, reporting into `work_dir`.
    pub fn args(&self, audio_file: &str, language: &str, work_dir: &str) -> (r: Vec<String>)
        ensures
            views(r@) == seq!["transcribe"@, "--model-path"@,
                "./models/whisperkit/openai_whisper-"@ + self.model@,
                "--audio-encoder-compute-units"@, "all"@, "--text-decoder-compute-units"@,
                "all"@, "--report"@, "--report-path"@, work_dir@, "--word-timestamps"@,
                "--skip-special-tokens"@, "--audio-path"@, audio_file@] + language_args(
                language@,
            ),
    {
        let mut r: Vec<String> = Vec::new();
        push_arg(&mut r, "transcribe");
        push_arg(&mut r, "--model-path");
        let m = cat("./models/whisperkit/openai_whisper-", self.model.as_str());
        push_arg(&mut r, m.as_str());
        push_arg(&mut r, "--audio-encoder-compute-units");
        push_arg(&mut r, "all");
        push_arg(&mut r, "--text-decoder-compute-units");
        push_arg(&mut r, "all");
        push_arg(&mut r, "--report");
        push_arg(&mut r, "--report-path");
        push_arg(&mut r, work_dir);
        push_arg(&mut r, "--word-timestamps");
        push_arg(&mut r, "--skip-special-tokens");
        push_arg(&mut r, "--audio-path");
        push_arg(&mut r, audio_file);
        push_language(&mut r, language);
        assert(views(r@) =~= seq!["transcribe"@, "--model-path"@,
            "./models/whisperkit/openai_whisper-"@ + self.model@, "--audio-encoder-compute-units"@,
            "all"@, "--text-decoder-compute-units"@, "all"@, "--report"@, "--report-path"@,
            work_dir@, "--word-timestamps"@, "--skip-special-tokens"@, "--audio-path"@,
            audio_file@] + language_args(language@));
        r
    }
}

impl MlxWhisperProcessor {
    pub fn new(model: &str) -> (r: Self)
        ensures
            r.model@ == model@,
    {
        MlxWhisperProcessor { model: owned(model) }
    }

    /// The arguments of one `mlx_whisper` run; `auto` (or no language) lets
    /// the model detect the language.
    pub fn args(&self, audio_file: &str, language: &str, work_dir: &str) -> (r: Vec<String>)
        ensures
            views(r@) == seq![audio_file@, "--model"@, self.model@, "-f"@, "json"@,
                "--output-dir"@, work_dir@, "--word-timestamps"@, "True"@] + (if language@
                == "auto"@ {
                seq![]
            } else {
                language_args(language@)
            }),
    {
        let mut r: Vec<String> = Vec::new();
        push_arg(&mut r, audio_file);
        push_arg(&mut r, "--model");
        push_arg(&mut r, self.model.as_str());
        push_arg(&mut r, "-f");
        push_arg(&mut r, "json");
        push_arg(&mut r, "--output-dir");
        push_arg(&mut r, work_dir);
        push_arg(&mut r, "--word-timestamps");
        push_arg(&mut r, "True");
        let ghost head = views(r@);
        if !crate::strings::str_eq(language, "auto") {
            push_language(&mut r, language);
        }
        assert(views(r@) =~= seq![audio_file@, "--model"@, self.model@, "-f"@, "json"@,
            "--output-dir"@, work_dir@, "--word-timestamps"@, "True"@] + (if language@ == "auto"@ {
            seq![]
        } else {
            language_args(language@)
        }));
        r
    }
}

/// How many times `edge-tts` is tried.
pub const EDGE_TTS_MAX_ATTEMPTS: u32 = 3;

/// The file that holds the text handed to `edge-tts`.
pub const EDGE_TTS_INPUT_FILE: &'static str = "edge_tts_input.txt";

/// The file that holds the text handed to `mlx_audio`.
pub const MLX_AUDIO_INPUT_FILE: &'static str = "mlx_audio_input.txt";

impl EdgeTtsClient {
    pub fn new(bin_path: &str) -> (r: Self)
        ensures
            r.bin_path@ == bin_path@,
    {
        EdgeTtsClient { bin_path: owned(bin_path) }
    }

    /// The arguments of one run: the text comes from `text_file`, the voice
    /// name is trimmed.
    pub fn args(&self, text_file: &str, voice: &str, output_file: &str) -> (r: Vec<String>)
        ensures
            views(r@) == seq!["--text-file"@, text_file@, "--voice"@, trim(voice@),
                "--write-media"@, output_file@],
    {
        let mut r: Vec<String> = Vec::new();
        push_arg(&mut r, "--text-file");
        push_arg(&mut r, text_file);
        push_arg(&mut r, "--voice");
        let v = trim_str(voice);
        push_arg(&mut r, v.as_str());
        push_arg(&mut r, "--write-media");
        push_arg(&mut r, output_file);
        assert(views(r@) =~= seq!["--text-file"@, text_file@, "--voice"@, trim(voice@),
            "--write-media"@, output_file@]);
        r
    }

    /// After the failed try number `attempt` (from 0): the seconds to wait
    /// before the next try, or `None` when no try is left.
    pub fn wait_after_failure(attempt: u32) -> (r: Option<u64>)
        ensures
            r == if attempt + 1 < EDGE_TTS_MAX_ATTEMPTS {
                Some(((attempt + 1) * 2) as u64)
            } else {
                None::<u64>
            },
    {
        if attempt < EDGE_TTS_MAX_ATTEMPTS - 1 {
            Some((attempt as u64 + 1) * 2)
        } else {
            None
        }
    }
}

impl MlxAudioClient {
    pub fn new(model: &str, voice: &str) -> (r: Self)
        ensures
            r.model@ == model@,
            r.default_voice@ == voice@,
    {
        MlxAudioClient { model: owned(model), default_voice: owned(voice) }
    }

    /// The voice used: the requested one, or the default when none is asked
    /// for.
    pub fn voice_for(&self, voice: &str) -> (r: String)
        ensures
            r@ == if voice@.len() == 0 {
                self.default_voice@
            } else {
                voice@
            },
    {
        if voice.is_empty() {
            owned(self.default_voice.as_str())
        } else {
            owned(voice)
        }
    }

    /// The `python3` arguments of one run.
    pub fn args(&self, text_file: &str, voice: &str, output_file: &str) -> (r: Vec<String>)
        ensures
            views(r@) == seq!["-m"@, "mlx_audio.tts.generate"@, "--model"@, self.model@,
                "--text-file"@, text_file@, "--voice"@, if voice@.len() == 0 {
                    self.default_voice@
                } else {
                    voice@
                }, "--output"@, output_file@],
    {
        let mut r: Vec<String> = Vec::new();
        push_arg(&mut r, "-m");
        push_arg(&mut r, "mlx_audio.tts.generate");
        push_arg(&mut r, "--model");
        push_arg(&mut r, self.model.as_str());
        push_arg(&mut r, "--text-file");
        push_arg(&mut r, text_file);
        push_arg(&mut r, "--voice");
        let v = self.voice_for(voice);
        push_arg(&mut r, v.as_str());
        push_arg(&mut r, "--output");
        push_arg(&mut r, output_file);
        assert(views(r@) =~= seq!["-m"@, "mlx_audio.tts.generate"@, "--model"@, self.model@,
            "--text-file"@, text_file@, "--voice"@, v@, "--output"@, output_file@]);
        r
    }
}


/// How the raw text of a recognised word is cleaned before it is kept.
#[derive(Clone, Copy, Debug, PartialEq, Eq)]
pub enum WordCleanup {
    /// `--` becomes a space, then surrounding whitespace goes (the Whisper
    /// programs).
    DashesAndTrim,
    /// Surrounding whitespace goes (Aliyun).
    Trim,
}

/// The text that a raw word leaves after cleaning; a missing word leaves
/// nothing.
pub open spec fn cleaned_word(raw: Option<Seq<char>>, mode: WordCleanup) -> Seq<char> {
    match raw {
        None => seq![],
        Some(s) => match mode {
            WordCleanup::DashesAndTrim => trim(replaced(s, "--"@, " "@)),
            WordCleanup::Trim => trim(s),
        },
    }
}

/// The texts of `v`, as optional character sequences.
pub open spec fn opt_views(v: Seq<Option<String>>) -> Seq<Option<Seq<char>>> {
    v.map_values(
        |o: Option<String>|
            match o {
                Some(s) => Some(s@),
                None => None,
            },
    )
}

/// The words kept from `raw`, in order: each with its position in `raw` and
/// its cleaned text; words that clean to nothing are dropped.
pub open spec fn kept_words(raw: Seq<Option<Seq<char>>>, mode: WordCleanup) -> Seq<(int, Seq<char>)>
    decreases raw.len(),
{
    if raw.len() == 0 {
        seq![]
    } else {
        let prev = kept_words(raw.drop_last(), mode);
        let c = cleaned_word(raw.last(), mode);
        if c.len() > 0 {
            prev.push((raw.len() - 1, c))
        } else {
            prev
        }
    }
}

/// A word of a transcript: its number among the kept words, its position in
/// the engine's word list (where its times are) and its text.
#[derive(Debug)]
pub struct KeptWord {
    pub num: usize,
    pub source: usize,
    pub text: String,
}

/// The cleaned text of one raw word.
pub fn clean_word(raw: &Option<String>, mode: WordCleanup) -> (r: String)
    ensures
        r@ == cleaned_word(
            match raw {
                Some(s) => Some(s@),
                None => None,
            },
            mode,
        ),
{
    match raw {
        None => String::new(),
        Some(s) => match mode {
            WordCleanup::DashesAndTrim => {
                let t = replace_str(s.as_str(), "--", " ");
                proof {
                    reveal_strlit("--");
                    reveal_strlit(" ");
                }
                trim_str(t.as_str())
            },
            WordCleanup::Trim => trim_str(s.as_str()),
        },
    }
}

/// The words of a transcript from the engine's raw words: cleaned, empty
/// ones dropped, numbered from 0 in order.
pub fn collect_words(raw: &Vec<Option<String>>, mode: WordCleanup) -> (r: Vec<KeptWord>)
    ensures
        r@.len() == kept_words(opt_views(raw@), mode).len(),
        forall|i: int|
            0 <= i < r@.len() ==> (#[trigger] r@[i]).num == i && r@[i].source == kept_words(
                opt_views(raw@),
                mode,
            )[i].0 && r@[i].text@ == kept_words(opt_views(raw@), mode)[i].1,
{
    let ghost all = opt_views(raw@);
    let mut r: Vec<KeptWord> = Vec::new();
    let mut i: usize = 0;
    while i < raw.len()
        invariant
            i <= raw@.len(),
            all == opt_views(raw@),
            r@.len() == kept_words(all.take(i as int), mode).len(),
            forall|k: int|
                0 <= k < r@.len() ==> (#[trigger] r@[k]).num == k && r@[k].source == kept_words(
                    all.take(i as int),
                    mode,
                )[k].0 && r@[k].text@ == kept_words(all.take(i as int), mode)[k].1,
        decreases raw@.len() - i,
    {
        assert(all.take(i + 1).drop_last() =~= all.take(i as int));
        assert(all.take(i + 1).last() == all[i as int]);
        let t = clean_word(&raw[i], mode);
        if !t.as_str().is_empty() {
            r.push(KeptWord { num: r.len(), source: i, text: t });
        } else {
            assert(t@.len() == 0);
        }
        i = i + 1;
    }
    assert(all.take(raw@.len() as int) =~= all);
    r
}

/// The texts that are present, one after another.
pub open spec fn concat_present(texts: Seq<Option<Seq<char>>>) -> Seq<char>
    decreases texts.len(),
{
    if texts.len() == 0 {
        seq![]
    } else {
        concat_present(texts.drop_last()) + match texts.last() {
            Some(t) => t,
            None => seq![],
        }
    }
}

/// The text of a transcript from the texts of its segments.
pub fn join_segment_texts(texts: &Vec<Option<String>>) -> (r: String)
    ensures
        r@ == concat_present(opt_views(texts@)),
{
    let ghost all = opt_views(texts@);
    let mut r = String::new();
    let mut i: usize = 0;
    while i < texts.len()
        invariant
            i <= texts@.len(),
            all == opt_views(texts@),
            r@ == concat_present(all.take(i as int)),
        decreases texts@.len() - i,
    {
        assert(all.take(i + 1).drop_last() =~= all.take(i as int));
        match &texts[i] {
            Some(t) => r.append(t.as_str()),
            None => {},
        }
        i = i + 1;
    }
    assert(all.take(texts@.len() as int) =~= all);
    r
}

} // verus!
